//! The tracker itself: a registry of tasks and the list of those running.

use crate::clock::now;
use crate::clock::Elapsed;
use crate::clock::Timestamp;
use crate::decimal::append_decimal;
use crate::model::ClockError;
use crate::model::SaveFileRemoval;
use crate::model::TaskState;
use crate::model::TaskView;
use crate::model::TrackerView;
use crate::record::cache_contents;
use crate::record::cache_text;
use crate::record::parse_cache;
use crate::record::record_text;
use crate::record::starting_id;
use crate::record::RecordError;
use std::collections::HashMap;
use vstd::prelude::*;
use vstd::string::StringExecFns;

verus! {

broadcast use vstd::std_specs::hash::group_hash_axioms;

/// The save file of a tracker made by [`TimeTracer::new`].
pub const DEFAULT_SAVE_FILE_PATH: &'static str = "time_tracer_save";

/// The cache file of a tracker made by [`TimeTracer::new`].
pub const DEFAULT_CACHE_FILE_PATH: &'static str = "time_tracer_cache";

struct Task {
    id: u32,
    name: String,
    state: TaskState,
    start_time: Timestamp,
    end_time: Timestamp,
}

impl View for Task {
    type V = TaskView;

    closed spec fn view(&self) -> TaskView {
        TaskView {
            id: self.id,
            name: self.name@,
            state: self.state,
            start_time: self.start_time,
            end_time: self.end_time,
        }
    }
}

/// Hands out ids for named tasks and times them from start to end.
pub struct TimeTracer {
    current_id: u32,
    tasks_map: HashMap<u32, Task>,
    running_tasks: Vec<u32>,
    save_file_path: String,
    cache_file_path: String,
}

impl View for TimeTracer {
    type V = TrackerView;

    closed spec fn view(&self) -> TrackerView {
        TrackerView {
            next_id: self.current_id,
            tasks: self.tasks_map@.map_values(|task: Task| task@),
            running: self.running_tasks@.to_set(),
            save_file_path: self.save_file_path@,
            cache_file_path: self.cache_file_path@,
        }
    }
}

/// A finite set of numbers below `bound` has at most `bound` members.
proof fn lemma_bounded_set_len(s: Set<u32>, bound: nat)
    requires
        s.finite(),
        forall|x: u32| s.contains(x) ==> x < bound,
    ensures
        s.len() <= bound,
    decreases bound,
{
    if bound == 0 {
        assert(s =~= Set::empty());
    } else {
        let top = (bound - 1) as u32;
        if bound - 1 <= u32::MAX && s.contains(top) {
            lemma_bounded_set_len(s.remove(top), (bound - 1) as nat);
        } else {
            lemma_bounded_set_len(s, (bound - 1) as nat);
        }
    }
}

/// Taking one entry out of a list without repetitions leaves a list without
/// repetitions, which holds what the list held but for that entry.
proof fn lemma_remove_distinct(s: Seq<u32>, index: int)
    requires
        s.no_duplicates(),
        0 <= index < s.len(),
    ensures
        s.remove(index).no_duplicates(),
        s.remove(index).to_set() == s.to_set().remove(s[index]),
{
    let rest = s.remove(index);
    assert forall|x: u32| rest.to_set().contains(x) implies s.to_set().remove(s[index]).contains(
        x,
    ) by {
        let k = choose|k: int| 0 <= k < rest.len() && rest[k] == x;
        if k < index {
            assert(s[k] == x);
        } else {
            assert(s[k + 1] == x);
        }
    }
    assert forall|x: u32| s.to_set().remove(s[index]).contains(x) implies rest.to_set().contains(
        x,
    ) by {
        let k = choose|k: int| 0 <= k < s.len() && s[k] == x;
        if k < index {
            assert(rest[k] == x);
        } else {
            assert(rest[k - 1] == x);
        }
    }
    assert(rest.to_set() =~= s.to_set().remove(s[index]));
}

impl TimeTracer {
    /// No id is listed twice among the running tasks.
    pub closed spec fn running_distinct(&self) -> bool {
        self.running_tasks@.no_duplicates()
    }

    /// The tracker is in order: its state is, and its list of running tasks
    /// names no task twice.
    pub open spec fn wf(&self) -> bool {
        self@.wf() && self.running_distinct()
    }

    /// A tracker without tasks that keeps the default file paths and hands
    /// out id 0 first.
    pub fn new() -> (tracer: TimeTracer)
        ensures
            tracer.wf(),
            tracer@ == TrackerView::empty(
                DEFAULT_SAVE_FILE_PATH@,
                DEFAULT_CACHE_FILE_PATH@,
                0,
            ),
    {
        Self::new_with_file_path(DEFAULT_SAVE_FILE_PATH, DEFAULT_CACHE_FILE_PATH)
    }

    /// A tracker without tasks that keeps the given file paths and hands out
    /// id 0 first, as when no cache file exists.
    pub fn new_with_file_path(save_file_path: &str, cache_file_path: &str) -> (tracer: TimeTracer)
        ensures
            tracer.wf(),
            tracer@ == TrackerView::empty(save_file_path@, cache_file_path@, 0),
    {
        Self::new_with_next_id(save_file_path, cache_file_path, 0)
    }

    /// A tracker without tasks that keeps the given file paths and hands out
    /// `next_id` first.
    pub fn new_with_next_id(save_file_path: &str, cache_file_path: &str, next_id: u32) -> (tracer:
        TimeTracer)
        ensures
            tracer.wf(),
            tracer@ == TrackerView::empty(save_file_path@, cache_file_path@, next_id),
    {
        let tracer = TimeTracer {
            current_id: next_id,
            tasks_map: HashMap::new(),
            running_tasks: Vec::new(),
            save_file_path: String::from_str(save_file_path),
            cache_file_path: String::from_str(cache_file_path),
        };
        proof {
            assert(tracer@.tasks =~= Map::empty());
            assert(tracer@.running =~= Set::empty());
        }
        tracer
    }

    /// A tracker without tasks that keeps the given file paths and takes up
    /// the ids where the cache file left them. `cache` is what the cache
    /// file holds, or `None` where there is no such file: the ids then
    /// start at zero. Contents that hold no id give no tracker.
    pub fn new_with_cache(save_file_path: &str, cache_file_path: &str, cache: Option<&str>) -> (tracer:
        Option<TimeTracer>)
        ensures
            match starting_id(
                match cache {
                    Some(contents) => Some(contents@),
                    None => None,
                },
            ) {
                Some(next_id) => tracer is Some && tracer.unwrap().wf() && tracer.unwrap()@
                    == TrackerView::empty(save_file_path@, cache_file_path@, next_id),
                None => tracer is None,
            },
    {
        let next_id: u32 = match cache {
            None => 0,
            Some(contents) => match parse_cache(contents) {
                Some(next_id) => next_id,
                None => {
                    return None;
                },
            },
        };
        Some(Self::new_with_next_id(save_file_path, cache_file_path, next_id))
    }

    /// Creates a task named `name` at the time `now` and returns its id. The
    /// task is not running yet, whatever task had the id before.
    pub fn new_task_at(&mut self, name: &str, now: Timestamp) -> (id: u32)
        requires
            old(self).wf(),
            old(self)@.next_id < u32::MAX,
        ensures
            final(self).wf(),
            id == old(self)@.next_id,
            final(self)@ == old(self)@.new_task(name@, now),
    {
        let id: u32 = self.current_id;
        let task = Task {
            id,
            name: String::from_str(name),
            state: TaskState::Created,
            start_time: now,
            end_time: now,
        };
        let was_running: bool = match self.tasks_map.insert(id, task) {
            Some(replaced) => match replaced.state {
                TaskState::Running => true,
                _ => false,
            },
            None => false,
        };
        self.current_id = id + 1;
        assert(was_running == old(self)@.running.contains(id));
        if was_running {
            match self.running_index(id) {
                Some(index) => {
                    self.running_tasks.remove(index);
                    proof {
                        lemma_remove_distinct(old(self).running_tasks@, index as int);
                    }
                },
                None => {},
            }
        } else {
            assert(self@.running =~= old(self)@.running.remove(id));
        }
        proof {
            assert(self@.tasks =~= old(self)@.new_task(name@, now).tasks);
        }
        id
    }

    /// Creates a task named `name` at the present time and returns its id.
    /// The task is not running yet, whatever task had the id before.
    pub fn new_task(&mut self, name: &str) -> (id: u32)
        requires
            old(self).wf(),
            old(self)@.next_id < u32::MAX,
        ensures
            final(self).wf(),
            id == old(self)@.next_id,
            exists|now: Timestamp| final(self)@ == old(self)@.new_task(name@, now),
    {
        let at = now();
        self.new_task_at(name, at)
    }

    /// The number of tasks created so far, whether they run or not.
    pub fn get_task_number(&self) -> (count: u32)
        requires
            self.wf(),
        ensures
            count == self@.task_count(),
    {
        proof {
            assert(self@.tasks.dom() =~= self.tasks_map@.dom());
            lemma_bounded_set_len(self.tasks_map@.dom(), u32::MAX as nat);
        }
        self.tasks_map.len() as u32
    }

    /// Where `id` stands in the list of running tasks, if it does.
    fn running_index(&self, id: u32) -> (found: Option<usize>)
        ensures
            match found {
                Some(i) => i < self.running_tasks@.len() && self.running_tasks@[i as int] == id,
                None => !self.running_tasks@.contains(id),
            },
    {
        let mut i: usize = 0;
        while i < self.running_tasks.len()
            invariant
                i <= self.running_tasks@.len(),
                forall|j: int| 0 <= j < i ==> self.running_tasks@[j] != id,
            decreases self.running_tasks@.len() - i,
        {
            if self.running_tasks[i] == id {
                return Some(i);
            }
            i += 1;
        }
        None
    }

    /// The state of task `id`, or `None` where no task has the id.
    pub fn task_state(&self, id: u32) -> (state: Option<TaskState>)
        ensures
            state == self@.task_state(id),
    {
        match self.tasks_map.get(&id) {
            Some(task) => Some(task.state),
            None => None,
        }
    }

    /// Whether task `id` was started and has not been ended since.
    pub fn is_running(&self, id: u32) -> (running: bool)
        ensures
            running == self@.running.contains(id),
    {
        self.running_index(id).is_some()
    }

    /// Starts task `id` at the time `now`. A task that was started before,
    /// whether it still runs or has ended, or an id that names no task, is
    /// turned down with `false`, and nothing changes.
    pub fn start_task_at(&mut self, id: u32, now: Timestamp) -> (started: bool)
        requires
            old(self).wf(),
        ensures
            final(self).wf(),
            started == old(self)@.can_start(id),
            final(self)@ == old(self)@.start_task(id, now),
    {
        let task: Task = match self.tasks_map.remove(&id) {
            None => {
                assert(self.tasks_map@ =~= old(self).tasks_map@);
                return false;
            },
            Some(task) => task,
        };
        match task.state {
            TaskState::Created => {
                let task = Task {
                    id: task.id,
                    name: task.name,
                    state: TaskState::Running,
                    start_time: now,
                    end_time: task.end_time,
                };
                self.tasks_map.insert(id, task);
                self.running_tasks.push(id);
                proof {
                    assert(!old(self)@.running.contains(id));
                    old(self).running_tasks@.lemma_push_to_set_commute(id);
                    assert(self@.tasks =~= old(self)@.start_task(id, now).tasks);
                }
                true
            },
            _ => {
                self.tasks_map.insert(id, task);
                assert(self.tasks_map@ =~= old(self).tasks_map@);
                false
            },
        }
    }

    /// Starts task `id` at the present time. A task that was started before,
    /// whether it still runs or has ended, or an id that names no task, is
    /// turned down with `false`, and nothing changes.
    pub fn start_task(&mut self, id: u32) -> (started: bool)
        requires
            old(self).wf(),
        ensures
            final(self).wf(),
            started == old(self)@.can_start(id),
            exists|now: Timestamp| final(self)@ == old(self)@.start_task(id, now),
    {
        let at = now();
        self.start_task_at(id, at)
    }

    /// Ends task `id` at the time `now` and returns the time since its
    /// start. A task that is not running, whether it was never started or
    /// has been ended already, gives `None`. Where `now` lies before the
    /// task's start the task stays running and the error says so.
    pub fn end_task_at(&mut self, id: u32, now: Timestamp) -> (outcome: Option<
        Result<Elapsed, ClockError>,
    >)
        requires
            old(self).wf(),
        ensures
            final(self).wf(),
            outcome == old(self)@.end_outcome(id, now),
            final(self)@ == old(self)@.end_task(id, now),
    {
        let index: usize = match self.running_index(id) {
            None => {
                return None;
            },
            Some(index) => index,
        };
        assert(old(self)@.running.contains(id));
        let task: Task = match self.tasks_map.remove(&id) {
            None => {
                return None;
            },
            Some(task) => task,
        };
        match now.elapsed_since(task.start_time) {
            None => {
                self.tasks_map.insert(id, task);
                assert(self.tasks_map@ =~= old(self).tasks_map@);
                Some(Err(ClockError::WentBackwards))
            },
            Some(span) => {
                let task = Task {
                    id: task.id,
                    name: task.name,
                    state: TaskState::Ended,
                    start_time: task.start_time,
                    end_time: now,
                };
                self.tasks_map.insert(id, task);
                self.running_tasks.remove(index);
                proof {
                    lemma_remove_distinct(old(self).running_tasks@, index as int);
                    assert(self@.tasks =~= old(self)@.end_task(id, now).tasks);
                }
                Some(Ok(span))
            },
        }
    }

    /// Ends task `id` at the present time and returns the time since its
    /// start. A task that is not running, whether it was never started or
    /// has been ended already, gives `None`. Where the clock shows a time
    /// before the task's start the task stays running and the error says so.
    pub fn end_task(&mut self, id: u32) -> (outcome: Option<Result<Elapsed, ClockError>>)
        requires
            old(self).wf(),
        ensures
            final(self).wf(),
            outcome is Some <==> old(self)@.running.contains(id),
            exists|now: Timestamp|
                outcome == old(self)@.end_outcome(id, now) && final(self)@ == old(self)@.end_task(
                    id,
                    now,
                ),
    {
        let at = now();
        self.end_task_at(id, at)
    }

    /// Takes note of what became of the save file when its removal was
    /// asked for, and says whether that went well. Once the file has been
    /// removed the ids start at zero again; with no file to remove, or with
    /// one that could not be removed, nothing changes.
    pub fn delete_save_files(&mut self, removal: SaveFileRemoval) -> (done: bool)
        requires
            old(self).wf(),
        ensures
            final(self).wf(),
            done == (removal != SaveFileRemoval::Failed),
            final(self)@ == old(self)@.delete_save_files(removal),
    {
        match removal {
            SaveFileRemoval::Absent => true,
            SaveFileRemoval::Removed => {
                self.current_id = 0;
                assert(self@.running == old(self)@.running);
                true
            },
            SaveFileRemoval::Failed => false,
        }
    }

    /// The path of the file to which ended tasks are appended.
    pub fn save_file_path(&self) -> (path: &str)
        ensures
            path@ == self@.save_file_path,
    {
        self.save_file_path.as_str()
    }

    /// The path of the file that keeps the next id.
    pub fn cache_file_path(&self) -> (path: &str)
        ensures
            path@ == self@.cache_file_path,
    {
        self.cache_file_path.as_str()
    }

    /// The id that the next new task gets.
    pub fn next_id(&self) -> (id: u32)
        ensures
            id == self@.next_id,
    {
        self.current_id
    }

    /// What the cache file is to hold now: the next id and a line feed.
    pub fn cache_contents(&self) -> (contents: String)
        ensures
            contents@ == cache_text(self@.next_id),
    {
        cache_contents(self.current_id)
    }

    /// The line that the save file gets for task `id`.
    pub fn task_record(&self, id: u32) -> (line: Result<String, RecordError>)
        ensures
            match line {
                Ok(text) => self@.tasks.contains_key(id) && record_text(self@.tasks[id]) == Some(
                    text@,
                ),
                Err(RecordError::UnknownTask) => !self@.tasks.contains_key(id),
                Err(RecordError::BeforeEpoch) => self@.tasks.contains_key(id) && record_text(
                    self@.tasks[id],
                ) is None,
            },
    {
        let task: &Task = match self.tasks_map.get(&id) {
            None => {
                return Err(RecordError::UnknownTask);
            },
            Some(task) => task,
        };
        let start: u128 = match task.start_time.unix_secs() {
            None => {
                return Err(RecordError::BeforeEpoch);
            },
            Some(secs) => secs,
        };
        let end: u128 = match task.end_time.unix_secs() {
            None => {
                return Err(RecordError::BeforeEpoch);
            },
            Some(secs) => secs,
        };
        proof {
            reveal_strlit(",");
            reveal_strlit("\n");
        }
        let mut text = String::new();
        append_decimal(&mut text, task.id as u128);
        text.append(",");
        text.append(task.name.as_str());
        text.append(",");
        append_decimal(&mut text, start);
        text.append(",");
        append_decimal(&mut text, end);
        text.append("\n");
        assert(Some(text@) =~= record_text(self@.tasks[id]));
        Ok(text)
    }
}

} // verus!
