//! Identifiers of background work, and the decisions that keep results of
//! overtaken tasks from replacing newer ones.
use vstd::prelude::*;

verus! {

/// A task's number: later tasks have larger numbers, so an update from an
/// older task can be recognised and dropped.
#[derive(Debug, Clone, Copy, PartialEq, Eq, PartialOrd, Ord, Structural)]
pub struct TaskId(pub u64);

impl TaskId {
    /// Whether a newer task has been started since this one: `latest` is the
    /// number of the newest task of its kind. A worker drops such a task
    /// before doing its work and again before sending its result.
    pub fn is_superseded(&self, latest: u64) -> (b: bool)
        ensures
            b == (latest > self.0),
    {
        latest > self.0
    }
}

/// The task number that a buffer records when the result of task `task`
/// arrives while it shows the result of task `current`.
pub open spec fn accepted_number(current: u64, task: u64) -> u64 {
    if task >= current {
        task
    } else {
        current
    }
}

/// The task number that a buffer records when the result of `task` arrives
/// while it shows the result of task number `current`, and whether it takes
/// the result: one from a task no older than the current one replaces it.
pub fn accept_result(current: u64, task: TaskId) -> (r: (u64, bool))
    ensures
        r.1 == (task.0 >= current),
        r.0 == accepted_number(current, task.0),
{
    if task.0 >= current {
        (task.0, true)
    } else {
        (current, false)
    }
}

/// The task number recorded after results of the tasks numbered `tasks`
/// arrive, in order, starting from `current`.
pub open spec fn after_results(current: u64, tasks: Seq<u64>) -> u64
    decreases tasks.len(),
{
    if tasks.len() == 0 {
        current
    } else {
        accepted_number(after_results(current, tasks.drop_last()), tasks.last())
    }
}

/// Whatever order results arrive in, the buffer ends up holding the result
/// of the newest task among them (or keeps its own where that is newer):
/// the recorded number is the greatest of the numbers seen, so a stale
/// result never replaces a newer one.
pub proof fn law_newest_result_wins(current: u64, tasks: Seq<u64>)
    ensures
        after_results(current, tasks) >= current,
        forall|i: int| 0 <= i < tasks.len() ==> after_results(current, tasks) >= #[trigger] tasks[i],
        after_results(current, tasks) == current || exists|i: int|
            0 <= i < tasks.len() && after_results(current, tasks) == #[trigger] tasks[i],
    decreases tasks.len(),
{
    if tasks.len() > 0 {
        let init = tasks.drop_last();
        law_newest_result_wins(current, init);
        assert forall|i: int| 0 <= i < tasks.len() implies after_results(current, tasks) >= #[trigger] tasks[i] by {
            if i < tasks.len() - 1 {
                assert(tasks[i] == init[i]);
            }
        }
        if after_results(current, init) != current {
            let j = choose|j: int| 0 <= j < init.len() && after_results(current, init) == #[trigger] init[j];
            assert(tasks[j] == init[j]);
        }
        if after_results(current, tasks) != current && after_results(current, tasks) == tasks.last() {
            assert(tasks[tasks.len() - 1] == tasks.last());
        }
    }
}

} // verus!
