//! What is written to the cache file and to the save file, and how the
//! cache file is read back.

use crate::clock::unix_seconds;
use crate::decimal::append_decimal;
use crate::decimal::decimal_digits;
use crate::decimal::lemma_decimal_round_trip;
use crate::decimal::lemma_digits_are_plain;
use crate::decimal::numeral_u32;
use crate::decimal::parse_numeral;
use crate::model::TaskView;
use crate::text::chars_of;
use crate::text::is_whitespace;
use crate::text::trim;
use crate::text::trim_bounds;
use crate::text::trim_end;
use crate::text::trim_start;
use vstd::prelude::*;
use vstd::string::StringExecFns;

verus! {

/// Why a task has no line for the save file.
#[derive(Clone, Copy, Debug, PartialEq, Eq, Structural)]
pub enum RecordError {
    /// No task has the id.
    UnknownTask,
    /// The task starts or ends before the Unix epoch.
    BeforeEpoch,
}

/// The contents of the cache file for a tracker that hands out `next_id`
/// next: the number in decimal digits and a line feed.
pub open spec fn cache_text(next_id: u32) -> Seq<char> {
    decimal_digits(next_id as nat).push('\n')
}

/// The id that a cache file with the given contents holds: the contents
/// without the white space around them, read as an unsigned numeral.
pub open spec fn cached_id(contents: Seq<char>) -> Option<u32> {
    numeral_u32(trim(contents))
}

/// The id at which a tracker starts: zero without a cache file, else the id
/// that the contents of the cache file hold, if they hold one.
pub open spec fn starting_id(cache: Option<Seq<char>>) -> Option<u32> {
    match cache {
        Some(contents) => cached_id(contents),
        None => Some(0u32),
    }
}

/// The line of the save file for a task: its id, its name, and the whole
/// seconds from the Unix epoch to its start and to its end, with commas
/// between them and a line feed after them. A task that starts or ends
/// before the epoch has no such line.
pub open spec fn record_text(task: TaskView) -> Option<Seq<char>> {
    match (unix_seconds(task.start_time), unix_seconds(task.end_time)) {
        (Some(start), Some(end)) => Some(
            decimal_digits(task.id as nat) + seq![','] + task.name + seq![','] + decimal_digits(
                start,
            ) + seq![','] + decimal_digits(end) + seq!['\n'],
        ),
        _ => None,
    }
}

/// The contents of the cache file for a tracker that hands out `next_id`
/// next.
pub fn cache_contents(next_id: u32) -> (contents: String)
    ensures
        contents@ == cache_text(next_id),
{
    let mut contents = String::new();
    append_decimal(&mut contents, next_id as u128);
    proof {
        reveal_strlit("\n");
    }
    contents.append("\n");
    assert(contents@ =~= cache_text(next_id));
    contents
}

/// Reads the contents of a cache file: the id that they hold, or `None`
/// where they are no numeral of 32 bits.
pub fn parse_cache(contents: &str) -> (id: Option<u32>)
    ensures
        id == cached_id(contents@),
{
    let chars = chars_of(contents);
    let (from, to) = trim_bounds(&chars);
    parse_numeral(&chars, from, to)
}

/// What was written to the cache file for an id is read back as that id.
pub proof fn law_cache_round_trip(next_id: u32)
    ensures
        cached_id(cache_text(next_id)) == Some(next_id),
{
    let digits = decimal_digits(next_id as nat);
    let text = cache_text(next_id);
    lemma_decimal_round_trip(next_id as nat);
    lemma_digits_are_plain(next_id as nat);
    assert(!is_whitespace(text.first()));
    assert(trim_start(text) == text);
    assert(is_whitespace(text.last()));
    assert(text.drop_last() =~= digits);
    assert(!is_whitespace(digits.last()));
    assert(trim_end(digits) == digits);
    assert(trim(text) == digits);
}

} // verus!
