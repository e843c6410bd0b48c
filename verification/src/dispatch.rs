//! The dispatch decisions: claim the next queued task, and reconcile the
//! executor's outcome back into the store.
//!
//! The loop around these decisions — polling, sleeping, spawning the
//! external executor — performs I/O and lives outside the library; it
//! hands back a plain [`ExecOutcome`] per task.

use vstd::prelude::*;
use crate::clock::now_rfc3339;
use crate::queue::{
    clone_task, failed_task, failure_marked, first_queued_index, has_queued, has_task_id,
    index_of_id, lemma_first_queued_in_range, lemma_index_of_id_in_range, lemma_no_queued,
    lemma_queued_found_at, status_updated, updated_task, QueueError, Task, TaskQueue, TaskStatus,
    TaskView,
};

verus! {

/// What the external executor reported for one task.
pub enum ExecOutcome {
    /// The executor finished successfully.
    Success,
    /// The executor failed or could not be launched, with its message.
    Failure(String),
}

/// The record that reconciling an outcome writes over the old one:
/// success completes the task, failure records the message.
pub open spec fn outcome_applied(t: TaskView, outcome: ExecOutcome, now: Seq<char>) -> TaskView {
    match outcome {
        ExecOutcome::Success => updated_task(t, TaskStatus::Completed, now),
        ExecOutcome::Failure(msg) => failed_task(t, msg@, now),
    }
}

impl TaskQueue {
    /// Claims the next queued task at the given clock reading: the first
    /// queued record is marked Running with `started_at = now`, and the
    /// updated copy is returned. With nothing queued, the store is
    /// untouched and nothing is returned.
    pub fn start_next_at(&mut self, now: &str) -> (r: Option<Task>)
        requires
            old(self).wf(),
        ensures
            final(self).wf(),
            !has_queued(old(self)@) ==> r is None && final(self)@ == old(self)@,
            has_queued(old(self)@) ==> ({
                let i = first_queued_index(old(self)@);
                &&& final(self)@ == old(self)@.update(
                    i,
                    updated_task(old(self)@[i], TaskStatus::Running, now@),
                )
                &&& r.deep_view() == Some(updated_task(old(self)@[i], TaskStatus::Running, now@))
            }),
    {
        match self.find_first_queued() {
            None => {
                proof {
                    lemma_no_queued(self@);
                }
                None
            },
            Some(k) => {
                proof {
                    lemma_queued_found_at(self@, k as int);
                }
                let mut t = self.task_copy(k);
                t.status = TaskStatus::Running;
                t.started_at = Some(now.to_owned());
                proof {
                    assert(t@ == updated_task(
                        old(self)@[k as int],
                        TaskStatus::Running,
                        now@,
                    ));
                }
                let out = clone_task(&t);
                self.set_task(k, t);
                proof {
                    assert(final(self).wf()) by {
                        assert(forall|j: int|
                            0 <= j < self@.len() && j != k ==> self@[j] == old(self)@[j]);
                        assert(self@[k as int].id == old(self)@[k as int].id);
                    }
                }
                Some(out)
            },
        }
    }

    /// Claims the next queued task, stamping `started_at` from the
    /// current clock.
    pub fn start_next(&mut self) -> (r: Option<Task>)
        requires
            old(self).wf(),
        ensures
            final(self).wf(),
            !has_queued(old(self)@) ==> r is None && final(self)@ == old(self)@,
            has_queued(old(self)@) ==> ({
                let i = first_queued_index(old(self)@);
                &&& final(self)@.len() == old(self)@.len()
                &&& (forall|j: int|
                    0 <= j < old(self)@.len() && j != i ==> final(self)@[j] == old(self)@[j])
                &&& status_updated(old(self)@[i], final(self)@[i], TaskStatus::Running)
                &&& r.deep_view() == Some(final(self)@[i])
            }),
    {
        let now = now_rfc3339();
        let r = self.start_next_at(now.as_str());
        proof {
            if has_queued(old(self)@) {
                lemma_first_queued_in_range(old(self)@);
            }
        }
        r
    }

    /// Writes an executor outcome back into the store at the given clock
    /// reading. Fails exactly when the id is unknown.
    pub fn record_outcome_at(&mut self, id: &str, outcome: &ExecOutcome, now: &str) -> (r: Result<
        (),
        QueueError,
    >)
        requires
            old(self).wf(),
        ensures
            final(self).wf(),
            match r {
                Ok(()) => {
                    &&& has_task_id(old(self)@, id@)
                    &&& final(self)@ == old(self)@.update(
                        index_of_id(old(self)@, id@),
                        outcome_applied(old(self)@[index_of_id(old(self)@, id@)], *outcome, now@),
                    )
                },
                Err(e) => {
                    &&& e == QueueError::NotFound
                    &&& !has_task_id(old(self)@, id@)
                    &&& final(self)@ == old(self)@
                },
            },
    {
        match outcome {
            ExecOutcome::Success => self.update_status_at(id, TaskStatus::Completed, now),
            ExecOutcome::Failure(msg) => self.fail_at(id, msg.as_str(), now),
        }
    }

    /// Writes an executor outcome back into the store, stamping
    /// `completed_at` from the current clock. Fails exactly when the id
    /// is unknown.
    pub fn record_outcome(&mut self, id: &str, outcome: &ExecOutcome) -> (r: Result<
        (),
        QueueError,
    >)
        requires
            old(self).wf(),
        ensures
            final(self).wf(),
            match r {
                Ok(()) => {
                    &&& has_task_id(old(self)@, id@)
                    &&& final(self)@.len() == old(self)@.len()
                    &&& ({
                        let i = index_of_id(old(self)@, id@);
                        &&& (forall|j: int|
                            0 <= j < old(self)@.len() && j != i ==> final(self)@[j] == old(
                                self,
                            )@[j])
                        &&& (outcome is Success ==> status_updated(
                            old(self)@[i],
                            final(self)@[i],
                            TaskStatus::Completed,
                        ))
                        &&& (outcome matches ExecOutcome::Failure(msg) ==> failure_marked(
                            old(self)@[i],
                            final(self)@[i],
                            msg@,
                        ))
                    })
                },
                Err(e) => {
                    &&& e == QueueError::NotFound
                    &&& !has_task_id(old(self)@, id@)
                    &&& final(self)@ == old(self)@
                },
            },
    {
        let now = now_rfc3339();
        let r = self.record_outcome_at(id, outcome, now.as_str());
        proof {
            if r is Ok {
                lemma_index_of_id_in_range(old(self)@, id@);
            }
        }
        r
    }
}

} // verus!
