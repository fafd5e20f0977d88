//! Wall-clock instants and the spans between them, counted in nanoseconds.

use std::time::SystemTime;
use std::time::UNIX_EPOCH;
use vstd::prelude::*;

verus! {

/// Nanoseconds in one second.
pub const NANOS_PER_SEC: u128 = 1_000_000_000;

/// Nanoseconds in one millisecond.
pub const NANOS_PER_MILLI: u128 = 1_000_000;

/// What the system clock showed: a distance from the Unix epoch and the side
/// of the epoch on which it lies.
#[derive(Clone, Copy, Debug)]
pub struct ClockReading {
    pub before_epoch: bool,
    pub secs: u64,
    pub subsec_nanos: u32,
}

impl ClockReading {
    /// The reading as a signed number of nanoseconds from the epoch.
    pub open spec fn offset_nanos(self) -> int {
        let distance = self.secs * NANOS_PER_SEC + self.subsec_nanos;
        if self.before_epoch {
            -distance
        } else {
            distance
        }
    }
}

/// A point in time: nanoseconds from the Unix epoch, negative before it.
#[derive(Clone, Copy, Debug, PartialEq, Eq, Structural)]
pub struct Timestamp {
    pub nanos: i128,
}

/// A span of time in nanoseconds.
#[derive(Clone, Copy, Debug, PartialEq, Eq, Structural)]
pub struct Elapsed {
    pub nanos: u128,
}

/// The span from `start` to `end`, which exists only when `end` is not the
/// earlier of the two.
pub open spec fn span_between(start: Timestamp, end: Timestamp) -> Option<Elapsed> {
    if start.nanos <= end.nanos {
        Some(Elapsed { nanos: (end.nanos - start.nanos) as u128 })
    } else {
        None
    }
}

/// Whole seconds from the epoch to `t`, for a `t` that is not before it.
pub open spec fn unix_seconds(t: Timestamp) -> Option<nat> {
    if t.nanos >= 0 {
        Some(((t.nanos as int) / (NANOS_PER_SEC as int)) as nat)
    } else {
        None
    }
}

impl Timestamp {
    /// The instant that a clock reading denotes.
    pub fn from_reading(reading: ClockReading) -> (t: Timestamp)
        ensures
            t.nanos == reading.offset_nanos(),
    {
        assert(0 <= reading.secs * 1_000_000_000 <= 0xffff_ffff_ffff_ffff * 1_000_000_000)
            by (nonlinear_arith);
        let whole: i128 = (reading.secs as i128) * 1_000_000_000;
        let distance: i128 = whole + (reading.subsec_nanos as i128);
        if reading.before_epoch {
            Timestamp { nanos: -distance }
        } else {
            Timestamp { nanos: distance }
        }
    }

    /// The time that has passed since `earlier`, or `None` when `earlier` is
    /// in fact the later instant.
    pub fn elapsed_since(&self, earlier: Timestamp) -> (span: Option<Elapsed>)
        ensures
            span == span_between(earlier, *self),
    {
        if self.nanos < earlier.nanos {
            None
        } else if earlier.nanos >= 0 || self.nanos < 0 {
            Some(Elapsed { nanos: (self.nanos - earlier.nanos) as u128 })
        } else {
            let below: u128 = (-(earlier.nanos + 1)) as u128 + 1;
            Some(Elapsed { nanos: self.nanos as u128 + below })
        }
    }

    /// Whole seconds since the epoch, or `None` for an instant before it.
    pub fn unix_secs(&self) -> (secs: Option<u128>)
        ensures
            match secs {
                Some(s) => unix_seconds(*self) == Some(s as nat),
                None => unix_seconds(*self) is None,
            },
    {
        if self.nanos >= 0 {
            Some((self.nanos as u128) / NANOS_PER_SEC)
        } else {
            None
        }
    }
}

impl Elapsed {
    /// The whole span in nanoseconds.
    pub fn as_nanos(&self) -> (n: u128)
        ensures
            n == self.nanos,
    {
        self.nanos
    }

    /// The whole seconds of the span.
    pub fn as_secs(&self) -> (s: u128)
        ensures
            s == self.nanos / NANOS_PER_SEC,
    {
        self.nanos / NANOS_PER_SEC
    }

    /// The whole milliseconds of the span.
    pub fn as_millis(&self) -> (ms: u128)
        ensures
            ms == self.nanos / NANOS_PER_MILLI,
    {
        self.nanos / NANOS_PER_MILLI
    }

    /// The part of the span beyond its whole seconds, in nanoseconds.
    pub fn subsec_nanos(&self) -> (n: u32)
        ensures
            n == self.nanos % NANOS_PER_SEC,
    {
        (self.nanos % NANOS_PER_SEC) as u32
    }

    /// The part of the span beyond its whole seconds, in whole milliseconds.
    pub fn subsec_millis(&self) -> (ms: u32)
        ensures
            ms == (self.nanos % NANOS_PER_SEC) / NANOS_PER_MILLI,
    {
        ((self.nanos % NANOS_PER_SEC) / NANOS_PER_MILLI) as u32
    }
}

/// Reads the system clock with `SystemTime::now` and measures the reading
/// against `UNIX_EPOCH` with `SystemTime::duration_since`, which gives the
/// distance on either side of the epoch as a `Duration`; `Duration::as_secs`
/// and `Duration::subsec_nanos` take it apart. Nothing is claimed of the
/// reading: the clock may show any time.
#[verifier::external_body]
fn read_clock() -> (reading: ClockReading) {
    match SystemTime::now().duration_since(UNIX_EPOCH) {
        Ok(d) => ClockReading { before_epoch: false, secs: d.as_secs(), subsec_nanos: d.subsec_nanos() },
        Err(e) => ClockReading {
            before_epoch: true,
            secs: e.duration().as_secs(),
            subsec_nanos: e.duration().subsec_nanos(),
        },
    }
}

/// The current time by the system clock.
pub(crate) fn now() -> Timestamp {
    Timestamp::from_reading(read_clock())
}

} // verus!
