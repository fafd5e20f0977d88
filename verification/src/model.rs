//! The tracker as a mathematical value, and the steps it can take.

use crate::clock::span_between;
use crate::clock::Elapsed;
use crate::clock::Timestamp;
use vstd::prelude::*;

verus! {

/// Why a task could not be ended although it was running.
#[derive(Clone, Copy, Debug, PartialEq, Eq, Structural)]
pub enum ClockError {
    /// The clock showed a time before the task's start.
    WentBackwards,
}

/// What became of the save file when its removal was asked for.
#[derive(Clone, Copy, Debug, PartialEq, Eq, Structural)]
pub enum SaveFileRemoval {
    /// There was no save file.
    Absent,
    /// The save file was there and has been removed.
    Removed,
    /// The save file was there and could not be removed.
    Failed,
}

/// How far a task has come. A task is created, then started, then ended,
/// and takes each of the two steps at most once.
#[derive(Clone, Copy, Debug, PartialEq, Eq, Structural)]
pub enum TaskState {
    /// Created and never started.
    Created,
    /// Started and not yet ended.
    Running,
    /// Started and ended.
    Ended,
}

impl TaskState {
    /// Whether a task in this state may be found in state `next` after one
    /// step of the tracker: it stays as it is, or goes from created to
    /// running, or from running to ended.
    pub open spec fn may_become(self, next: TaskState) -> bool {
        ||| next == self
        ||| self == TaskState::Created && next == TaskState::Running
        ||| self == TaskState::Running && next == TaskState::Ended
    }
}

/// One timed unit of work.
pub struct TaskView {
    pub id: u32,
    pub name: Seq<char>,
    pub state: TaskState,
    pub start_time: Timestamp,
    pub end_time: Timestamp,
}

/// The whole state of a tracker.
pub struct TrackerView {
    /// The id that the next new task gets.
    pub next_id: u32,
    /// Every task created so far, by its id.
    pub tasks: Map<u32, TaskView>,
    /// The ids of the tasks that were started and not yet ended.
    pub running: Set<u32>,
    pub save_file_path: Seq<char>,
    pub cache_file_path: Seq<char>,
}

impl TrackerView {
    /// What holds of every tracker: each task is filed under its own id,
    /// the running tasks are the registered tasks in state `Running`, and a
    /// task that is not running does not end before it starts.
    pub open spec fn wf(self) -> bool {
        &&& self.tasks.dom().finite()
        &&& forall|id: u32| #[trigger]
            self.tasks.contains_key(id) ==> self.tasks[id].id == id && id < u32::MAX
        &&& forall|id: u32| #[trigger]
            self.running.contains(id) <==> self.tasks.contains_key(id) && self.tasks[id].state
                == TaskState::Running
        &&& forall|id: u32|
            #[trigger] self.tasks.contains_key(id) && self.tasks[id].state != TaskState::Running
                ==> self.tasks[id].start_time.nanos <= self.tasks[id].end_time.nanos
    }

    /// Whether every id handed out so far lies below the next one, so that
    /// the next new task gets an id that no task has.
    pub open spec fn ids_unused(self) -> bool {
        forall|id: u32| #[trigger] self.tasks.contains_key(id) ==> id < self.next_id
    }

    /// A tracker without tasks that hands out `next_id` first.
    pub open spec fn empty(
        save_file_path: Seq<char>,
        cache_file_path: Seq<char>,
        next_id: u32,
    ) -> TrackerView {
        TrackerView {
            next_id,
            tasks: Map::empty(),
            running: Set::empty(),
            save_file_path,
            cache_file_path,
        }
    }

    /// The number of tasks in the registry.
    pub open spec fn task_count(self) -> nat {
        self.tasks.dom().len()
    }

    /// The state of task `id`, if there is such a task.
    pub open spec fn task_state(self, id: u32) -> Option<TaskState> {
        if self.tasks.contains_key(id) {
            Some(self.tasks[id].state)
        } else {
            None
        }
    }

    /// The tracker after a task named `name` was created at `now`. The new
    /// task is not running, whatever task had its id before.
    pub open spec fn new_task(self, name: Seq<char>, now: Timestamp) -> TrackerView
        recommends
            self.next_id < u32::MAX,
    {
        TrackerView {
            next_id: (self.next_id + 1) as u32,
            tasks: self.tasks.insert(
                self.next_id,
                TaskView {
                    id: self.next_id,
                    name,
                    state: TaskState::Created,
                    start_time: now,
                    end_time: now,
                },
            ),
            running: self.running.remove(self.next_id),
            ..self
        }
    }

    /// Whether `id` names a task that can be started: one that exists and
    /// was never started.
    pub open spec fn can_start(self, id: u32) -> bool {
        self.tasks.contains_key(id) && self.tasks[id].state == TaskState::Created
    }

    /// The tracker after a call to start task `id` at `now`: unchanged where
    /// the task cannot be started.
    pub open spec fn start_task(self, id: u32, now: Timestamp) -> TrackerView {
        if self.can_start(id) {
            TrackerView {
                tasks: self.tasks.insert(
                    id,
                    TaskView { state: TaskState::Running, start_time: now, ..self.tasks[id] },
                ),
                running: self.running.insert(id),
                ..self
            }
        } else {
            self
        }
    }

    /// What a call to end task `id` at `now` answers: nothing where the task
    /// is not running, else the time since its start, or an error where
    /// `now` lies before the start.
    pub open spec fn end_outcome(self, id: u32, now: Timestamp) -> Option<
        Result<Elapsed, ClockError>,
    > {
        if !self.running.contains(id) {
            None
        } else {
            match span_between(self.tasks[id].start_time, now) {
                Some(span) => Some(Ok(span)),
                None => Some(Err(ClockError::WentBackwards)),
            }
        }
    }

    /// The tracker after a call to end task `id` at `now`: unchanged unless
    /// the call answers with a span.
    pub open spec fn end_task(self, id: u32, now: Timestamp) -> TrackerView {
        if self.end_outcome(id, now) matches Some(Ok(_)) {
            TrackerView {
                tasks: self.tasks.insert(
                    id,
                    TaskView { state: TaskState::Ended, end_time: now, ..self.tasks[id] },
                ),
                running: self.running.remove(id),
                ..self
            }
        } else {
            self
        }
    }

    /// The tracker after the removal of its save file was attempted: once
    /// the file has been removed the ids start at zero again, and otherwise
    /// nothing changes.
    pub open spec fn delete_save_files(self, removal: SaveFileRemoval) -> TrackerView {
        if removal == SaveFileRemoval::Removed {
            TrackerView { next_id: 0, ..self }
        } else {
            self
        }
    }

    /// The tracker after one task was created for each request in turn, a
    /// request being a name and the time of the call.
    pub open spec fn new_tasks(self, requests: Seq<(Seq<char>, Timestamp)>) -> TrackerView
        decreases requests.len(),
    {
        if requests.len() == 0 {
            self
        } else {
            self.new_tasks(requests.drop_last()).new_task(requests.last().0, requests.last().1)
        }
    }

    /// Creating a task keeps the tracker in order and leaves the new task
    /// created, not running and ready to be started. Where no task had the
    /// id before, the registry grows by one task and its ids stay unused.
    pub proof fn lemma_new_task(self, name: Seq<char>, now: Timestamp)
        requires
            self.wf(),
            self.next_id < u32::MAX,
        ensures
            self.new_task(name, now).wf(),
            self.new_task(name, now).next_id == self.next_id + 1,
            self.new_task(name, now).task_state(self.next_id) == Some(TaskState::Created),
            self.new_task(name, now).can_start(self.next_id),
            !self.new_task(name, now).running.contains(self.next_id),
            self.ids_unused() ==> self.new_task(name, now).ids_unused(),
            self.ids_unused() ==> self.new_task(name, now).task_count() == self.task_count() + 1,
    {
        let after = self.new_task(name, now);
        assert(after.tasks.dom() =~= self.tasks.dom().insert(self.next_id));
        if self.ids_unused() {
            assert(!self.tasks.contains_key(self.next_id));
        }
    }

    /// After any number of tasks were created one after the other, the
    /// registry has grown by that number, and each call handed out the id
    /// that follows the one before it, the first call the id that the
    /// tracker had at the start.
    pub proof fn lemma_new_tasks(self, requests: Seq<(Seq<char>, Timestamp)>)
        requires
            self.wf(),
            self.ids_unused(),
            self.next_id + requests.len() <= u32::MAX,
        ensures
            self.new_tasks(requests).wf(),
            self.new_tasks(requests).ids_unused(),
            self.new_tasks(requests).next_id == self.next_id + requests.len(),
            self.new_tasks(requests).task_count() == self.task_count() + requests.len(),
            forall|k: int|
                0 <= k < requests.len() ==> (#[trigger] self.new_tasks(requests.take(k))).next_id
                    == self.next_id + k,
        decreases requests.len(),
    {
        if requests.len() > 0 {
            let earlier = requests.drop_last();
            self.lemma_new_tasks(earlier);
            self.new_tasks(earlier).lemma_new_task(requests.last().0, requests.last().1);
            assert forall|k: int| 0 <= k < requests.len() implies (#[trigger] self.new_tasks(
                requests.take(k),
            )).next_id == self.next_id + k by {
                if k < earlier.len() {
                    assert(requests.take(k) =~= earlier.take(k));
                } else {
                    assert(requests.take(k) =~= earlier);
                }
            }
        }
    }

    /// A task that was never started is started by the first call and
    /// turned down by every later one: by a second call while it runs, and
    /// by a call after it has ended, whatever the times of the calls.
    pub proof fn lemma_start_once(
        self,
        id: u32,
        first: Timestamp,
        second: Timestamp,
        end: Timestamp,
    )
        requires
            self.wf(),
            self.can_start(id),
        ensures
            self.start_task(id, first).wf(),
            self.start_task(id, first).task_state(id) == Some(TaskState::Running),
            !self.start_task(id, first).can_start(id),
            self.start_task(id, first).start_task(id, second) == self.start_task(id, first),
            !self.start_task(id, first).end_task(id, end).can_start(id),
            self.start_task(id, first).end_task(id, end).start_task(id, second) == self.start_task(
                id,
                first,
            ).end_task(id, end),
    {
        let after = self.start_task(id, first);
        assert(after.tasks.dom() =~= self.tasks.dom());
    }

    /// Starting a task, whether the call succeeds or is turned down, keeps
    /// the tracker in order and its ids unused, and changes the state of no
    /// task but that of the one started, which goes from created to running.
    pub proof fn lemma_start_task(self, id: u32, now: Timestamp)
        requires
            self.wf(),
        ensures
            self.start_task(id, now).wf(),
            self.start_task(id, now).task_count() == self.task_count(),
            self.ids_unused() ==> self.start_task(id, now).ids_unused(),
            forall|other: u32| #[trigger]
                self.tasks.contains_key(other) ==> self.start_task(id, now).tasks.contains_key(
                    other,
                ) && self.tasks[other].state.may_become(
                    self.start_task(id, now).tasks[other].state,
                ),
            forall|other: u32|
                other != id ==> self.start_task(id, now).task_state(other) == #[trigger]
                self.task_state(other),
    {
        let after = self.start_task(id, now);
        assert(after.tasks.dom() =~= self.tasks.dom());
    }

    /// Ending a task, whatever the call answers, keeps the tracker in order
    /// and its ids unused, and changes the state of no task but that of the
    /// one ended, which goes from running to ended.
    pub proof fn lemma_end_task(self, id: u32, now: Timestamp)
        requires
            self.wf(),
        ensures
            self.end_task(id, now).wf(),
            self.end_task(id, now).task_count() == self.task_count(),
            self.ids_unused() ==> self.end_task(id, now).ids_unused(),
            forall|other: u32| #[trigger]
                self.tasks.contains_key(other) ==> self.end_task(id, now).tasks.contains_key(
                    other,
                ) && self.tasks[other].state.may_become(self.end_task(id, now).tasks[other].state),
            forall|other: u32|
                other != id ==> self.end_task(id, now).task_state(other) == #[trigger]
                self.task_state(other),
    {
        let after = self.end_task(id, now);
        assert(after.tasks.dom() =~= self.tasks.dom());
    }

    /// A task that is not in state `Created`, be it running or ended, is
    /// turned down when started, and nothing changes.
    pub proof fn lemma_no_restart(self, id: u32, now: Timestamp)
        requires
            self.task_state(id) != Some(TaskState::Created),
        ensures
            !self.can_start(id),
            self.start_task(id, now) == self,
    {
    }

    /// Only a task in state `Running` can be ended: for a task that was
    /// created and never started, for one that has ended, and for an id
    /// that names no task, the call answers nothing and changes nothing.
    pub proof fn lemma_end_needs_running(self, id: u32, now: Timestamp)
        requires
            self.wf(),
            self.task_state(id) != Some(TaskState::Running),
        ensures
            self.end_outcome(id, now) is None,
            self.end_task(id, now) == self,
    {
    }

    /// Ending a task that was created and never started answers nothing and
    /// changes nothing.
    pub proof fn lemma_end_before_start(self, name: Seq<char>, created: Timestamp, now: Timestamp)
        requires
            self.wf(),
            self.next_id < u32::MAX,
        ensures
            self.new_task(name, created).end_outcome(self.next_id, now) is None,
            self.new_task(name, created).end_task(self.next_id, now) == self.new_task(
                name,
                created,
            ),
    {
    }

    /// Once a call has ended a task, the task is in state `Ended`, and a
    /// second call to end it answers nothing and changes nothing.
    pub proof fn lemma_end_once(self, id: u32, first: Timestamp, second: Timestamp)
        requires
            self.wf(),
            self.end_outcome(id, first) matches Some(Ok(_)),
        ensures
            self.end_task(id, first).task_state(id) == Some(TaskState::Ended),
            self.end_task(id, first).end_outcome(id, second) is None,
            self.end_task(id, first).end_task(id, second) == self.end_task(id, first),
    {
    }

    /// A task started at one time and ended at a time not before it has run
    /// for exactly the time between the two.
    pub proof fn lemma_elapsed(self, id: u32, start: Timestamp, end: Timestamp)
        requires
            self.wf(),
            self.can_start(id),
            start.nanos <= end.nanos,
        ensures
            self.start_task(id, start).end_outcome(id, end) == Some(
                Ok::<Elapsed, ClockError>(Elapsed { nanos: (end.nanos - start.nanos) as u128 }),
            ),
    {
    }

    /// Taking note of the save file's removal keeps the tracker in order;
    /// once the file has been removed the next id is zero.
    pub proof fn lemma_delete_save_files(self, removal: SaveFileRemoval)
        requires
            self.wf(),
        ensures
            self.delete_save_files(removal).wf(),
            removal == SaveFileRemoval::Removed ==> self.delete_save_files(removal).next_id == 0,
            removal != SaveFileRemoval::Removed ==> self.delete_save_files(removal) == self,
    {
    }
}

} // verus!
