//! The task queue: task records with a status state machine, first-in
//! first-out peek semantics, and lifecycle updates.
//!
//! The store owns its records; callers only ever see copies. Mutation goes
//! through `&mut self`, so Rust's borrow discipline serializes callers.

use vstd::prelude::*;
use crate::clock::now_rfc3339;

verus! {

// ---------------------------------------------------------------------------
// Task status
// ---------------------------------------------------------------------------

/// The lifecycle states of a task.
///
/// Transitions: Queued to Running to Completed or Failed; Queued to
/// Cancelled. Completed, Failed and Cancelled are terminal.
#[derive(Debug, Clone, Copy, PartialEq, Eq, Structural)]
pub enum TaskStatus {
    Queued,
    Running,
    Completed,
    Failed,
    Cancelled,
}

/// The lower-case storage name of a status.
pub open spec fn status_name(s: TaskStatus) -> Seq<char> {
    match s {
        TaskStatus::Queued => "queued"@,
        TaskStatus::Running => "running"@,
        TaskStatus::Completed => "completed"@,
        TaskStatus::Failed => "failed"@,
        TaskStatus::Cancelled => "cancelled"@,
    }
}

/// The status named by a storage string, if any.
pub open spec fn status_of_name(s: Seq<char>) -> Option<TaskStatus> {
    if s == "queued"@ {
        Some(TaskStatus::Queued)
    } else if s == "running"@ {
        Some(TaskStatus::Running)
    } else if s == "completed"@ {
        Some(TaskStatus::Completed)
    } else if s == "failed"@ {
        Some(TaskStatus::Failed)
    } else if s == "cancelled"@ {
        Some(TaskStatus::Cancelled)
    } else {
        None
    }
}

/// Statuses removed by `clear_completed`: the successfully finished and
/// the cancelled ones, but never the failed ones.
pub open spec fn is_cleared_status(s: TaskStatus) -> bool {
    s == TaskStatus::Completed || s == TaskStatus::Cancelled
}

impl TaskStatus {
    /// The lower-case storage name.
    pub fn as_str(&self) -> (r: &'static str)
        ensures
            r@ == status_name(*self),
    {
        match self {
            TaskStatus::Queued => "queued",
            TaskStatus::Running => "running",
            TaskStatus::Completed => "completed",
            TaskStatus::Failed => "failed",
            TaskStatus::Cancelled => "cancelled",
        }
    }

    /// Parses a storage name back into a status.
    pub fn from_str(s: &str) -> (r: Option<TaskStatus>)
        ensures
            r == status_of_name(s@),
    {
        if crate::text::str_eq(s, "queued") {
            Some(TaskStatus::Queued)
        } else if crate::text::str_eq(s, "running") {
            Some(TaskStatus::Running)
        } else if crate::text::str_eq(s, "completed") {
            Some(TaskStatus::Completed)
        } else if crate::text::str_eq(s, "failed") {
            Some(TaskStatus::Failed)
        } else if crate::text::str_eq(s, "cancelled") {
            Some(TaskStatus::Cancelled)
        } else {
            None
        }
    }

    /// Whether `clear_completed` removes tasks in this status.
    pub fn is_cleared(&self) -> (r: bool)
        ensures
            r == is_cleared_status(*self),
    {
        *self == TaskStatus::Completed || *self == TaskStatus::Cancelled
    }
}

// ---------------------------------------------------------------------------
// Tasks and their mathematical view
// ---------------------------------------------------------------------------

/// One unit of queued work.
pub struct Task {
    /// Short unique id, stable for the task's lifetime.
    pub id: String,
    /// The directive text to execute.
    pub command: String,
    /// Current lifecycle state.
    pub status: TaskStatus,
    /// Optional model override.
    pub model: Option<String>,
    /// RFC 3339 timestamp of creation.
    pub created_at: String,
    /// Set when the task first transitions to Running.
    pub started_at: Option<String>,
    /// Set when the task transitions to Completed or Failed.
    pub completed_at: Option<String>,
    /// Failure message; set only when the task fails.
    pub error: Option<String>,
}

/// The mathematical image of a task: every text field as a sequence.
pub ghost struct TaskView {
    pub id: Seq<char>,
    pub command: Seq<char>,
    pub status: TaskStatus,
    pub model: Option<Seq<char>>,
    pub created_at: Seq<char>,
    pub started_at: Option<Seq<char>>,
    pub completed_at: Option<Seq<char>>,
    pub error: Option<Seq<char>>,
}

impl View for Task {
    type V = TaskView;

    open spec fn view(&self) -> TaskView {
        TaskView {
            id: self.id@,
            command: self.command@,
            status: self.status,
            model: self.model.deep_view(),
            created_at: self.created_at@,
            started_at: self.started_at.deep_view(),
            completed_at: self.completed_at.deep_view(),
            error: self.error.deep_view(),
        }
    }
}

impl DeepView for Task {
    type V = TaskView;

    open spec fn deep_view(&self) -> TaskView {
        self.view()
    }
}

impl Task {
    /// Copies this record.
    pub fn clone_record(&self) -> (r: Task)
        ensures
            r@ == self@,
    {
        clone_task(self)
    }
}

/// A freshly enqueued task record.
pub open spec fn queued_task(
    id: Seq<char>,
    command: Seq<char>,
    model: Option<Seq<char>>,
    created_at: Seq<char>,
) -> TaskView {
    TaskView {
        id,
        command,
        status: TaskStatus::Queued,
        model,
        created_at,
        started_at: None,
        completed_at: None,
        error: None,
    }
}

/// A task after a status update at time `now`: moving to Running stamps
/// `started_at`, moving to Completed or Failed stamps `completed_at`, and
/// nothing else changes.
pub open spec fn updated_task(t: TaskView, status: TaskStatus, now: Seq<char>) -> TaskView {
    TaskView {
        id: t.id,
        command: t.command,
        status,
        model: t.model,
        created_at: t.created_at,
        started_at: if status == TaskStatus::Running {
            Some(now)
        } else {
            t.started_at
        },
        completed_at: if status == TaskStatus::Completed || status == TaskStatus::Failed {
            Some(now)
        } else {
            t.completed_at
        },
        error: t.error,
    }
}

/// A task marked failed at time `now` with a failure message.
pub open spec fn failed_task(t: TaskView, error: Seq<char>, now: Seq<char>) -> TaskView {
    TaskView {
        id: t.id,
        command: t.command,
        status: TaskStatus::Failed,
        model: t.model,
        created_at: t.created_at,
        started_at: t.started_at,
        completed_at: Some(now),
        error: Some(error),
    }
}

// ---------------------------------------------------------------------------
// Spec-level queries over the store contents
// ---------------------------------------------------------------------------

/// All task ids in `qs` are distinct.
pub open spec fn unique_ids(qs: Seq<TaskView>) -> bool {
    forall|i: int, j: int| 0 <= i < j < qs.len() ==> qs[i].id != qs[j].id
}

/// Some task in `qs` has id `id`.
pub open spec fn has_task_id(qs: Seq<TaskView>, id: Seq<char>) -> bool {
    exists|i: int| 0 <= i < qs.len() && qs[i].id == id
}

/// The first task with id `id`, if any.
pub open spec fn find_by_id(qs: Seq<TaskView>, id: Seq<char>) -> Option<TaskView>
    decreases qs.len(),
{
    if qs.len() == 0 {
        None
    } else if qs[0].id == id {
        Some(qs[0])
    } else {
        find_by_id(qs.skip(1), id)
    }
}

/// The position of the first task with id `id`.
pub open spec fn index_of_id(qs: Seq<TaskView>, id: Seq<char>) -> int
    decreases qs.len(),
{
    if qs.len() == 0 {
        0
    } else if qs[0].id == id {
        0
    } else {
        1 + index_of_id(qs.skip(1), id)
    }
}

/// Some task in `qs` is still queued.
pub open spec fn has_queued(qs: Seq<TaskView>) -> bool {
    exists|i: int| 0 <= i < qs.len() && qs[i].status == TaskStatus::Queued
}

/// The position of the first queued task.
pub open spec fn first_queued_index(qs: Seq<TaskView>) -> int
    decreases qs.len(),
{
    if qs.len() == 0 {
        0
    } else if qs[0].status == TaskStatus::Queued {
        0
    } else {
        1 + first_queued_index(qs.skip(1))
    }
}

/// The first queued task, if any: the task `dequeue` peeks at.
pub open spec fn first_queued(qs: Seq<TaskView>) -> Option<TaskView>
    decreases qs.len(),
{
    if qs.len() == 0 {
        None
    } else if qs[0].status == TaskStatus::Queued {
        Some(qs[0])
    } else {
        first_queued(qs.skip(1))
    }
}

/// When position `k` holds the first match for `id`, the recursive lookup
/// functions agree with it.
pub proof fn lemma_id_found_at(qs: Seq<TaskView>, id: Seq<char>, k: int)
    requires
        0 <= k < qs.len(),
        qs[k].id == id,
        forall|j: int| 0 <= j < k ==> qs[j].id != id,
    ensures
        index_of_id(qs, id) == k,
        find_by_id(qs, id) == Some(qs[k]),
        has_task_id(qs, id),
    decreases k,
{
    if k == 0 {
    } else {
        assert(qs[0].id != id);
        lemma_id_found_at(qs.skip(1), id, k - 1);
    }
}

/// When some task has id `id`, its first position is in range and holds
/// that id.
pub proof fn lemma_index_of_id_in_range(qs: Seq<TaskView>, id: Seq<char>)
    requires
        has_task_id(qs, id),
    ensures
        0 <= index_of_id(qs, id) < qs.len(),
        qs[index_of_id(qs, id)].id == id,
    decreases qs.len(),
{
    if qs.len() == 0 {
    } else if qs[0].id == id {
    } else {
        assert(has_task_id(qs.skip(1), id)) by {
            let w = choose|i: int| 0 <= i < qs.len() && qs[i].id == id;
            assert(qs.skip(1)[w - 1] == qs[w]);
        }
        lemma_index_of_id_in_range(qs.skip(1), id);
    }
}

/// When no task has id `id`, the lookup finds nothing.
pub proof fn lemma_id_absent(qs: Seq<TaskView>, id: Seq<char>)
    requires
        forall|j: int| 0 <= j < qs.len() ==> qs[j].id != id,
    ensures
        find_by_id(qs, id) is None,
        !has_task_id(qs, id),
    decreases qs.len(),
{
    if qs.len() == 0 {
    } else {
        assert(qs.skip(1).len() == qs.len() - 1);
        assert(forall|j: int| 0 <= j < qs.skip(1).len() ==> qs.skip(1)[j] == qs[j + 1]);
        lemma_id_absent(qs.skip(1), id);
    }
}

/// When position `k` holds the first queued task, the recursive scan
/// functions agree with it.
pub proof fn lemma_queued_found_at(qs: Seq<TaskView>, k: int)
    requires
        0 <= k < qs.len(),
        qs[k].status == TaskStatus::Queued,
        forall|j: int| 0 <= j < k ==> qs[j].status != TaskStatus::Queued,
    ensures
        first_queued_index(qs) == k,
        first_queued(qs) == Some(qs[k]),
        has_queued(qs),
    decreases k,
{
    if k == 0 {
    } else {
        lemma_queued_found_at(qs.skip(1), k - 1);
    }
}

/// When some task is queued, the first queued position is in range, holds
/// a queued task, and is what the scan returns.
pub proof fn lemma_first_queued_in_range(qs: Seq<TaskView>)
    requires
        has_queued(qs),
    ensures
        0 <= first_queued_index(qs) < qs.len(),
        qs[first_queued_index(qs)].status == TaskStatus::Queued,
        first_queued(qs) == Some(qs[first_queued_index(qs)]),
    decreases qs.len(),
{
    if qs.len() == 0 {
    } else if qs[0].status == TaskStatus::Queued {
    } else {
        assert(has_queued(qs.skip(1))) by {
            let w = choose|i: int| 0 <= i < qs.len() && qs[i].status == TaskStatus::Queued;
            assert(qs.skip(1)[w - 1] == qs[w]);
        }
        lemma_first_queued_in_range(qs.skip(1));
    }
}

/// When no task is queued, the scan finds nothing.
pub proof fn lemma_no_queued(qs: Seq<TaskView>)
    requires
        forall|j: int| 0 <= j < qs.len() ==> qs[j].status != TaskStatus::Queued,
    ensures
        first_queued(qs) is None,
        !has_queued(qs),
    decreases qs.len(),
{
    if qs.len() == 0 {
    } else {
        assert(forall|j: int| 0 <= j < qs.skip(1).len() ==> qs.skip(1)[j] == qs[j + 1]);
        lemma_no_queued(qs.skip(1));
    }
}

// ---------------------------------------------------------------------------
// Errors
// ---------------------------------------------------------------------------

/// The ways a store operation can be refused.
#[derive(Debug, Clone, Copy, PartialEq, Eq, Structural)]
pub enum QueueError {
    /// No task with the given id exists.
    NotFound,
    /// A freshly drawn id collided with an existing task's id.
    DuplicateId,
    /// Cancellation was requested for a task that is not queued.
    NotQueued,
}

// ---------------------------------------------------------------------------
// Cloning helpers
// ---------------------------------------------------------------------------

/// Copies an optional string, preserving its view.
fn clone_opt_string(o: &Option<String>) -> (r: Option<String>)
    ensures
        r.deep_view() == o.deep_view(),
{
    match o {
        Some(s) => Some(s.clone()),
        None => None,
    }
}

/// Copies a task record, preserving its view.
pub(crate) fn clone_task(t: &Task) -> (r: Task)
    ensures
        r@ == t@,
{
    Task {
        id: t.id.clone(),
        command: t.command.clone(),
        status: t.status,
        model: clone_opt_string(&t.model),
        created_at: t.created_at.clone(),
        started_at: clone_opt_string(&t.started_at),
        completed_at: clone_opt_string(&t.completed_at),
        error: clone_opt_string(&t.error),
    }
}

// ---------------------------------------------------------------------------
// Fresh task ids
// ---------------------------------------------------------------------------

/// Draws a fresh random task id.
///
/// Relies on `nanoid::format` with the default random source and the
/// URL-safe 64-symbol ASCII alphabet: the returned id has exactly 8
/// characters. Randomness gives no uniqueness promise; collisions are
/// handled by the caller.
#[verifier::external_body]
fn fresh_id() -> (r: String)
    ensures
        r@.len() == 8,
{
    nanoid::format(nanoid::rngs::default, &nanoid::alphabet::SAFE, 8)
}

// ---------------------------------------------------------------------------
// The task queue
// ---------------------------------------------------------------------------

/// The task store. Its view is the sequence of task records in insertion
/// order; all ids are distinct.
pub struct TaskQueue {
    tasks: Vec<Task>,
}

impl View for TaskQueue {
    type V = Seq<TaskView>;

    closed spec fn view(&self) -> Seq<TaskView> {
        self.tasks.deep_view()
    }
}

impl TaskQueue {
    /// All task ids in the store are distinct.
    pub open spec fn wf(&self) -> bool {
        unique_ids(self@)
    }

    /// Creates an empty store.
    pub fn new() -> (r: TaskQueue)
        ensures
            r.wf(),
            r@ == Seq::<TaskView>::empty(),
    {
        let r = TaskQueue { tasks: Vec::new() };
        assert(r@ =~= Seq::<TaskView>::empty());
        r
    }

    /// Restores a store from previously persisted task records, in their
    /// original insertion order; refuses records with duplicate ids.
    pub fn from_tasks(tasks: Vec<Task>) -> (r: Result<TaskQueue, QueueError>)
        ensures
            match r {
                Ok(q) => q.wf() && q@ == tasks.deep_view(),
                Err(e) => e == QueueError::DuplicateId && !unique_ids(tasks.deep_view()),
            },
    {
        let ghost qs = tasks.deep_view();
        let n = tasks.len();
        let mut i: usize = 0;
        while i < n
            invariant
                n == tasks@.len(),
                qs == tasks.deep_view(),
                qs.len() == n,
                i <= n,
                forall|a: int, b: int| 0 <= a < b < qs.len() && a < i ==> qs[a].id != qs[b].id,
            decreases n - i,
        {
            let mut j: usize = i + 1;
            while j < n
                invariant
                    n == tasks@.len(),
                    qs == tasks.deep_view(),
                    qs.len() == n,
                    i < n,
                    i < j <= n,
                    forall|b: int| i < b < j ==> qs[i as int].id != qs[b].id,
                decreases n - j,
            {
                proof {
                    assert(qs[i as int] == tasks@[i as int].deep_view());
                    assert(qs[j as int] == tasks@[j as int].deep_view());
                }
                if tasks[i].id.eq(&tasks[j].id) {
                    assert(!unique_ids(qs));
                    return Err(QueueError::DuplicateId);
                }
                j = j + 1;
            }
            i = i + 1;
        }
        let q = TaskQueue { tasks };
        assert(q.wf());
        Ok(q)
    }

    /// Looks up the position of the first task with the given id.
    pub(crate) fn find_index(&self, id: &str) -> (r: Option<usize>)
        ensures
            match r {
                Some(k) => k < self@.len() && self@[k as int].id == id@ && (forall|j: int|
                    0 <= j < k ==> self@[j].id != id@),
                None => forall|j: int| 0 <= j < self@.len() ==> self@[j].id != id@,
            },
    {
        let id_owned: String = id.to_owned();
        let n = self.tasks.len();
        let mut k: usize = 0;
        while k < n
            invariant
                n == self.tasks@.len(),
                self@.len() == n,
                id_owned@ == id@,
                k <= n,
                forall|j: int| 0 <= j < k ==> self@[j].id != id@,
            decreases n - k,
        {
            proof {
                assert(self@[k as int] == self.tasks@[k as int].deep_view());
            }
            if self.tasks[k].id.eq(&id_owned) {
                return Some(k);
            }
            k = k + 1;
        }
        None
    }

    /// Looks up the position of the first queued task.
    pub(crate) fn find_first_queued(&self) -> (r: Option<usize>)
        ensures
            match r {
                Some(k) => k < self@.len() && self@[k as int].status == TaskStatus::Queued && (
                forall|j: int| 0 <= j < k ==> self@[j].status != TaskStatus::Queued),
                None => forall|j: int|
                    0 <= j < self@.len() ==> self@[j].status != TaskStatus::Queued,
            },
    {
        let n = self.tasks.len();
        let mut k: usize = 0;
        while k < n
            invariant
                n == self.tasks@.len(),
                self@.len() == n,
                k <= n,
                forall|j: int| 0 <= j < k ==> self@[j].status != TaskStatus::Queued,
            decreases n - k,
        {
            proof {
                assert(self@[k as int] == self.tasks@[k as int].deep_view());
            }
            if self.tasks[k].status == TaskStatus::Queued {
                return Some(k);
            }
            k = k + 1;
        }
        None
    }

    /// Copies the record at position `k`.
    pub(crate) fn task_copy(&self, k: usize) -> (r: Task)
        requires
            k < self@.len(),
        ensures
            r@ == self@[k as int],
    {
        proof {
            assert(self@[k as int] == self.tasks@[k as int].deep_view());
        }
        clone_task(&self.tasks[k])
    }

    /// Appends a queued task with the given id and creation stamp; refuses
    /// an id that is already present, leaving the store unchanged.
    pub fn enqueue_at(&mut self, command: &str, model: Option<String>, id: &str, now: &str) -> (r:
        Result<String, QueueError>)
        requires
            old(self).wf(),
        ensures
            final(self).wf(),
            match r {
                Ok(rid) => {
                    &&& rid@ == id@
                    &&& !has_task_id(old(self)@, id@)
                    &&& final(self)@ == old(self)@.push(
                        queued_task(id@, command@, model.deep_view(), now@),
                    )
                },
                Err(e) => {
                    &&& e == QueueError::DuplicateId
                    &&& has_task_id(old(self)@, id@)
                    &&& final(self)@ == old(self)@
                },
            },
    {
        match self.find_index(id) {
            Some(k) => {
                proof {
                    assert(has_task_id(self@, id@));
                }
                Err(QueueError::DuplicateId)
            },
            None => {
                proof {
                    lemma_id_absent(self@, id@);
                }
                let t = Task {
                    id: id.to_owned(),
                    command: command.to_owned(),
                    status: TaskStatus::Queued,
                    model,
                    created_at: now.to_owned(),
                    started_at: None,
                    completed_at: None,
                    error: None,
                };
                let ghost qs0 = self@;
                let ghost tv = t@;
                self.tasks.push(t);
                proof {
                    assert(self@ =~= qs0.push(tv));
                    assert(tv == queued_task(id@, command@, model.deep_view(), now@));
                    assert(forall|j: int| 0 <= j < qs0.len() ==> qs0[j].id != id@);
                    assert(self.wf());
                }
                Ok(id.to_owned())
            },
        }
    }

    /// Enqueues a command with a fresh random 8-character id, stamped with
    /// the current time. Refuses only an id collision, which leaves the
    /// store unchanged.
    pub fn enqueue(&mut self, command: &str, model: Option<String>) -> (r: Result<
        String,
        QueueError,
    >)
        requires
            old(self).wf(),
        ensures
            final(self).wf(),
            match r {
                Ok(rid) => {
                    &&& rid@.len() == 8
                    &&& !has_task_id(old(self)@, rid@)
                    &&& final(self)@.len() == old(self)@.len() + 1
                    &&& final(self)@.subrange(0, old(self)@.len() as int) == old(self)@
                    &&& final(self)@.last() == queued_task(
                        rid@,
                        command@,
                        model.deep_view(),
                        final(self)@.last().created_at,
                    )
                    &&& final(self)@.last().created_at.len() > 0
                },
                Err(e) => e == QueueError::DuplicateId && final(self)@ == old(self)@,
            },
    {
        let id = fresh_id();
        let now = now_rfc3339();
        let r = self.enqueue_at(command, model, id.as_str(), now.as_str());
        match r {
            Ok(rid) => {
                proof {
                    assert(final(self)@.subrange(0, old(self)@.len() as int) =~= old(self)@);
                }
                Ok(rid)
            },
            Err(e) => Err(e),
        }
    }

    /// Peeks at the queued task that has waited longest: the first queued
    /// record in insertion order. The store is not changed; calling this
    /// again without a status change returns the same task.
    pub fn dequeue(&self) -> (r: Option<Task>)
        ensures
            r.deep_view() == first_queued(self@),
            r is Some <==> has_queued(self@),
    {
        let n = self.tasks.len();
        let mut k: usize = 0;
        while k < n
            invariant
                n == self.tasks@.len(),
                self@.len() == n,
                k <= n,
                forall|j: int| 0 <= j < k ==> self@[j].status != TaskStatus::Queued,
            decreases n - k,
        {
            proof {
                assert(self@[k as int] == self.tasks@[k as int].deep_view());
            }
            if self.tasks[k].status == TaskStatus::Queued {
                let t = clone_task(&self.tasks[k]);
                proof {
                    lemma_queued_found_at(self@, k as int);
                }
                return Some(t);
            }
            k = k + 1;
        }
        proof {
            lemma_no_queued(self@);
        }
        None
    }

    /// Returns a copy of the task with the given id, if present.
    pub fn get(&self, id: &str) -> (r: Option<Task>)
        ensures
            r.deep_view() == find_by_id(self@, id@),
            r is Some <==> has_task_id(self@, id@),
    {
        match self.find_index(id) {
            Some(k) => {
                proof {
                    lemma_id_found_at(self@, id@, k as int);
                }
                Some(clone_task(&self.tasks[k]))
            },
            None => {
                proof {
                    lemma_id_absent(self@, id@);
                }
                None
            },
        }
    }

    /// Returns copies of all tasks, newest first: the reverse of
    /// insertion order.
    pub fn list(&self) -> (r: Vec<Task>)
        ensures
            r.deep_view() == self@.reverse(),
    {
        let n = self.tasks.len();
        let mut out: Vec<Task> = Vec::new();
        let mut k: usize = 0;
        while k < n
            invariant
                n == self.tasks@.len(),
                self@.len() == n,
                k <= n,
                out.deep_view().len() == k,
                forall|j: int| 0 <= j < k ==> out.deep_view()[j] == self@[n - 1 - j],
            decreases n - k,
        {
            let ghost out0 = out.deep_view();
            proof {
                assert(self@[n - 1 - k as int] == self.tasks@[n - 1 - k as int].deep_view());
            }
            out.push(clone_task(&self.tasks[n - 1 - k]));
            proof {
                assert(out.deep_view() =~= out0.push(self@[n - 1 - k as int]));
            }
            k = k + 1;
        }
        proof {
            assert(out.deep_view() =~= self@.reverse());
        }
        out
    }
}

// ---------------------------------------------------------------------------
// Status updates
// ---------------------------------------------------------------------------

/// A task with its status replaced and nothing else changed: the shape of
/// a cancellation, which stamps no timestamps.
pub open spec fn cancelled_task(t: TaskView) -> TaskView {
    TaskView {
        id: t.id,
        command: t.command,
        status: TaskStatus::Cancelled,
        model: t.model,
        created_at: t.created_at,
        started_at: t.started_at,
        completed_at: t.completed_at,
        error: t.error,
    }
}

/// The option holds a non-empty string.
pub open spec fn some_nonempty(o: Option<Seq<char>>) -> bool {
    match o {
        Some(s) => s.len() > 0,
        None => false,
    }
}

/// How a status update at an unspecified clock reading relates the new
/// record to the old one: the status is replaced; moving to Running stamps
/// `started_at` with a non-empty timestamp; moving to Completed or Failed
/// stamps `completed_at` likewise; everything else is unchanged.
pub open spec fn status_updated(t_old: TaskView, t_new: TaskView, status: TaskStatus) -> bool {
    &&& t_new.id == t_old.id
    &&& t_new.command == t_old.command
    &&& t_new.model == t_old.model
    &&& t_new.created_at == t_old.created_at
    &&& t_new.error == t_old.error
    &&& t_new.status == status
    &&& (status == TaskStatus::Running ==> some_nonempty(t_new.started_at))
    &&& (status != TaskStatus::Running ==> t_new.started_at == t_old.started_at)
    &&& ((status == TaskStatus::Completed || status == TaskStatus::Failed) ==> some_nonempty(
        t_new.completed_at,
    ))
    &&& (!(status == TaskStatus::Completed || status == TaskStatus::Failed)
        ==> t_new.completed_at == t_old.completed_at)
}

/// How a failure mark at an unspecified clock reading relates the new
/// record to the old one.
pub open spec fn failure_marked(t_old: TaskView, t_new: TaskView, error: Seq<char>) -> bool {
    &&& t_new.id == t_old.id
    &&& t_new.command == t_old.command
    &&& t_new.model == t_old.model
    &&& t_new.created_at == t_old.created_at
    &&& t_new.started_at == t_old.started_at
    &&& t_new.status == TaskStatus::Failed
    &&& t_new.error == Some(error)
    &&& some_nonempty(t_new.completed_at)
}

/// Replacing a task by one with the same id keeps all ids distinct.
proof fn lemma_update_same_id_wf(qs: Seq<TaskView>, k: int, t: TaskView)
    requires
        unique_ids(qs),
        0 <= k < qs.len(),
        t.id == qs[k].id,
    ensures
        unique_ids(qs.update(k, t)),
{
}

impl TaskQueue {
    /// Replaces the record at position `k`.
    pub(crate) fn set_task(&mut self, k: usize, t: Task)
        requires
            k < old(self)@.len(),
        ensures
            final(self)@ == old(self)@.update(k as int, t@),
    {
        let ghost tv = t@;
        self.tasks[k] = t;
        proof {
            assert(self@ =~= old(self)@.update(k as int, tv));
        }
    }

    /// Sets the status of the task with the given id, stamping
    /// `started_at` on a move to Running and `completed_at` on a move to
    /// Completed or Failed, with the given clock reading. Fails exactly
    /// when the id is unknown, leaving the store unchanged.
    ///
    /// Following the trusted-collaborator design, no state-machine check
    /// is made here: any status can be written over any other.
    pub fn update_status_at(&mut self, id: &str, status: TaskStatus, now: &str) -> (r: Result<
        (),
        QueueError,
    >)
        requires
            old(self).wf(),
        ensures
            final(self).wf(),
            match r {
                Ok(()) => {
                    &&& has_task_id(old(self)@, id@)
                    &&& final(self)@ == old(self)@.update(
                        index_of_id(old(self)@, id@),
                        updated_task(old(self)@[index_of_id(old(self)@, id@)], status, now@),
                    )
                },
                Err(e) => {
                    &&& e == QueueError::NotFound
                    &&& !has_task_id(old(self)@, id@)
                    &&& final(self)@ == old(self)@
                },
            },
    {
        match self.find_index(id) {
            None => {
                proof {
                    lemma_id_absent(self@, id@);
                }
                Err(QueueError::NotFound)
            },
            Some(k) => {
                proof {
                    lemma_id_found_at(self@, id@, k as int);
                }
                let mut t = clone_task(&self.tasks[k]);
                t.status = status;
                if status == TaskStatus::Running {
                    t.started_at = Some(now.to_owned());
                } else if status == TaskStatus::Completed || status == TaskStatus::Failed {
                    t.completed_at = Some(now.to_owned());
                }
                proof {
                    assert(t@ == updated_task(old(self)@[k as int], status, now@));
                }
                self.set_task(k, t);
                proof {
                    lemma_update_same_id_wf(
                        old(self)@,
                        k as int,
                        updated_task(old(self)@[k as int], status, now@),
                    );
                }
                Ok(())
            },
        }
    }

    /// Sets the status of the task with the given id, stamping timestamps
    /// from the current clock. Fails exactly when the id is unknown.
    pub fn update_status(&mut self, id: &str, status: TaskStatus) -> (r: Result<(), QueueError>)
        requires
            old(self).wf(),
        ensures
            final(self).wf(),
            match r {
                Ok(()) => {
                    &&& has_task_id(old(self)@, id@)
                    &&& final(self)@.len() == old(self)@.len()
                    &&& ({
                        let i = index_of_id(old(self)@, id@);
                        &&& (forall|j: int|
                            0 <= j < old(self)@.len() && j != i ==> final(self)@[j] == old(
                                self,
                            )@[j])
                        &&& status_updated(old(self)@[i], final(self)@[i], status)
                    })
                },
                Err(e) => {
                    &&& e == QueueError::NotFound
                    &&& !has_task_id(old(self)@, id@)
                    &&& final(self)@ == old(self)@
                },
            },
    {
        let now = now_rfc3339();
        let r = self.update_status_at(id, status, now.as_str());
        proof {
            if r is Ok {
                lemma_index_of_id_in_range(old(self)@, id@);
            }
        }
        r
    }

    /// Marks the task with the given id as failed: status Failed, the
    /// failure message recorded, `completed_at` stamped with the given
    /// clock reading. Fails exactly when the id is unknown.
    pub fn fail_at(&mut self, id: &str, error: &str, now: &str) -> (r: Result<(), QueueError>)
        requires
            old(self).wf(),
        ensures
            final(self).wf(),
            match r {
                Ok(()) => {
                    &&& has_task_id(old(self)@, id@)
                    &&& final(self)@ == old(self)@.update(
                        index_of_id(old(self)@, id@),
                        failed_task(old(self)@[index_of_id(old(self)@, id@)], error@, now@),
                    )
                },
                Err(e) => {
                    &&& e == QueueError::NotFound
                    &&& !has_task_id(old(self)@, id@)
                    &&& final(self)@ == old(self)@
                },
            },
    {
        match self.find_index(id) {
            None => {
                proof {
                    lemma_id_absent(self@, id@);
                }
                Err(QueueError::NotFound)
            },
            Some(k) => {
                proof {
                    lemma_id_found_at(self@, id@, k as int);
                }
                let mut t = clone_task(&self.tasks[k]);
                t.status = TaskStatus::Failed;
                t.completed_at = Some(now.to_owned());
                t.error = Some(error.to_owned());
                proof {
                    assert(t@ == failed_task(old(self)@[k as int], error@, now@));
                }
                self.set_task(k, t);
                proof {
                    lemma_update_same_id_wf(
                        old(self)@,
                        k as int,
                        failed_task(old(self)@[k as int], error@, now@),
                    );
                }
                Ok(())
            },
        }
    }

    /// Marks the task with the given id as failed, stamping
    /// `completed_at` from the current clock. Fails exactly when the id
    /// is unknown.
    pub fn fail(&mut self, id: &str, error: &str) -> (r: Result<(), QueueError>)
        requires
            old(self).wf(),
        ensures
            final(self).wf(),
            match r {
                Ok(()) => {
                    &&& has_task_id(old(self)@, id@)
                    &&& final(self)@.len() == old(self)@.len()
                    &&& ({
                        let i = index_of_id(old(self)@, id@);
                        &&& (forall|j: int|
                            0 <= j < old(self)@.len() && j != i ==> final(self)@[j] == old(
                                self,
                            )@[j])
                        &&& failure_marked(old(self)@[i], final(self)@[i], error@)
                    })
                },
                Err(e) => {
                    &&& e == QueueError::NotFound
                    &&& !has_task_id(old(self)@, id@)
                    &&& final(self)@ == old(self)@
                },
            },
    {
        let now = now_rfc3339();
        let r = self.fail_at(id, error, now.as_str());
        proof {
            if r is Ok {
                lemma_index_of_id_in_range(old(self)@, id@);
            }
        }
        r
    }

    /// Cancels the task with the given id. Cancellation is honored only
    /// while the task is still queued: a running task cannot be stopped
    /// through the store, and finished tasks cannot change state again.
    pub fn cancel(&mut self, id: &str) -> (r: Result<(), QueueError>)
        requires
            old(self).wf(),
        ensures
            final(self).wf(),
            match r {
                Ok(()) => {
                    &&& has_task_id(old(self)@, id@)
                    &&& old(self)@[index_of_id(old(self)@, id@)].status == TaskStatus::Queued
                    &&& final(self)@ == old(self)@.update(
                        index_of_id(old(self)@, id@),
                        cancelled_task(old(self)@[index_of_id(old(self)@, id@)]),
                    )
                },
                Err(e) => {
                    &&& final(self)@ == old(self)@
                    &&& (e == QueueError::NotFound || e == QueueError::NotQueued)
                    &&& (e == QueueError::NotFound <==> !has_task_id(old(self)@, id@))
                    &&& (e == QueueError::NotQueued ==> has_task_id(old(self)@, id@) && old(
                        self,
                    )@[index_of_id(old(self)@, id@)].status != TaskStatus::Queued)
                },
            },
    {
        match self.find_index(id) {
            None => {
                proof {
                    lemma_id_absent(self@, id@);
                }
                Err(QueueError::NotFound)
            },
            Some(k) => {
                proof {
                    lemma_id_found_at(self@, id@, k as int);
                }
                if self.tasks[k].status == TaskStatus::Queued {
                    let mut t = clone_task(&self.tasks[k]);
                    t.status = TaskStatus::Cancelled;
                    proof {
                        assert(t@ == cancelled_task(old(self)@[k as int]));
                    }
                    self.set_task(k, t);
                    proof {
                        lemma_update_same_id_wf(
                            old(self)@,
                            k as int,
                            cancelled_task(old(self)@[k as int]),
                        );
                    }
                    Ok(())
                } else {
                    proof {
                        assert(self@[k as int] == self.tasks@[k as int].deep_view());
                    }
                    Err(QueueError::NotQueued)
                }
            },
        }
    }
}

// ---------------------------------------------------------------------------
// Clearing finished work
// ---------------------------------------------------------------------------

/// The records that `clear_completed` keeps.
pub open spec fn kept_pred() -> spec_fn(TaskView) -> bool {
    |t: TaskView| !is_cleared_status(t.status)
}

/// Every element of a filtered sequence is an element of the original.
proof fn lemma_filter_elem(qs: Seq<TaskView>, p: spec_fn(TaskView) -> bool, k: int)
    requires
        0 <= k < qs.filter(p).len(),
    ensures
        qs.contains(qs.filter(p)[k]),
    decreases qs.len(),
{
    reveal(Seq::filter);
    if qs.len() == 0 {
    } else {
        let pre = qs.drop_last();
        if p(qs.last()) {
            if k < pre.filter(p).len() {
                lemma_filter_elem(pre, p, k);
                let j = choose|j: int| 0 <= j < pre.len() && pre[j] == pre.filter(p)[k];
                assert(qs[j] == qs.filter(p)[k]);
            } else {
                assert(qs.filter(p)[k] == qs.last());
                assert(qs[qs.len() - 1] == qs.last());
            }
        } else {
            lemma_filter_elem(pre, p, k);
            let j = choose|j: int| 0 <= j < pre.len() && pre[j] == pre.filter(p)[k];
            assert(qs[j] == qs.filter(p)[k]);
        }
    }
}

/// Filtering keeps all ids distinct.
proof fn lemma_filter_unique(qs: Seq<TaskView>, p: spec_fn(TaskView) -> bool)
    requires
        unique_ids(qs),
    ensures
        unique_ids(qs.filter(p)),
    decreases qs.len(),
{
    reveal(Seq::filter);
    if qs.len() == 0 {
    } else {
        let pre = qs.drop_last();
        assert(unique_ids(pre)) by {
            assert(forall|j: int| 0 <= j < pre.len() ==> pre[j] == qs[j]);
        }
        lemma_filter_unique(pre, p);
        if p(qs.last()) {
            assert(qs.filter(p) == pre.filter(p).push(qs.last()));
            assert forall|a: int| 0 <= a < pre.filter(p).len() implies pre.filter(p)[a].id
                != qs.last().id by {
                lemma_filter_elem(pre, p, a);
                let j = choose|j: int| 0 <= j < pre.len() && pre[j] == pre.filter(p)[a];
                assert(qs[j] == pre.filter(p)[a]);
                assert(qs[j].id != qs[qs.len() - 1].id);
            }
            assert(unique_ids(qs.filter(p))) by {
                assert(forall|a: int|
                    0 <= a < pre.filter(p).len() ==> qs.filter(p)[a] == pre.filter(p)[a]);
            }
        }
    }
}

impl TaskQueue {
    /// Deletes every task whose status is Completed or Cancelled — never
    /// the failed ones — and returns how many were removed. All other
    /// tasks are kept, in order.
    pub fn clear_completed(&mut self) -> (r: u64)
        requires
            old(self).wf(),
        ensures
            final(self).wf(),
            final(self)@ == old(self)@.filter(kept_pred()),
            r as int == old(self)@.len() - final(self)@.len(),
    {
        let ghost qs = self@;
        let n = self.tasks.len();
        let mut kept: Vec<Task> = Vec::new();
        let mut k: usize = 0;
        proof {
            reveal(Seq::filter);
            assert(qs.take(0) =~= Seq::<TaskView>::empty());
            assert(kept.deep_view() =~= qs.take(0).filter(kept_pred()));
        }
        while k < n
            invariant
                n == self.tasks@.len(),
                qs == self@,
                qs.len() == n,
                k <= n,
                kept.deep_view() == qs.take(k as int).filter(kept_pred()),
            decreases n - k,
        {
            let ghost kept0 = kept.deep_view();
            proof {
                assert(qs[k as int] == self.tasks@[k as int].deep_view());
            }
            if !self.tasks[k].status.is_cleared() {
                kept.push(clone_task(&self.tasks[k]));
                proof {
                    assert(kept.deep_view() =~= kept0.push(qs[k as int]));
                }
            }
            proof {
                reveal(Seq::filter);
                assert(qs.take(k as int + 1).drop_last() =~= qs.take(k as int));
                assert(qs.take(k as int + 1).last() == qs[k as int]);
            }
            k = k + 1;
        }
        proof {
            assert(qs.take(n as int) =~= qs);
            qs.lemma_filter_len(kept_pred());
            lemma_filter_unique(qs, kept_pred());
        }
        let kept_n = kept.len();
        self.tasks = kept;
        assert(self@ == qs.filter(kept_pred()));
        (n - kept_n) as u64
    }
}

// ---------------------------------------------------------------------------
// Ordering and retrievability laws
// ---------------------------------------------------------------------------

/// Appending to a store with no queued work: the appended task is the
/// first queued one exactly when it is itself queued.
proof fn lemma_first_queued_push(qs: Seq<TaskView>, t: TaskView)
    requires
        !has_queued(qs),
    ensures
        first_queued(qs.push(t)) == if t.status == TaskStatus::Queued {
            Some(t)
        } else {
            None::<TaskView>
        },
{
    if t.status == TaskStatus::Queued {
        assert(qs.push(t)[qs.len() as int] == t);
        lemma_queued_found_at(qs.push(t), qs.len() as int);
    } else {
        assert(forall|j: int| 0 <= j < qs.push(t).len() ==> qs.push(t)[j].status
            != TaskStatus::Queued);
        lemma_no_queued(qs.push(t));
    }
}

/// Law: enqueueing into a store with no queued work and immediately
/// peeking returns exactly the enqueued record — status Queued, the same
/// command and the same model.
pub proof fn lemma_enqueue_then_dequeue(
    qs: Seq<TaskView>,
    id: Seq<char>,
    command: Seq<char>,
    model: Option<Seq<char>>,
    now: Seq<char>,
)
    requires
        !has_queued(qs),
    ensures
        ({
            let t = queued_task(id, command, model, now);
            &&& first_queued(qs.push(t)) == Some(t)
            &&& t.status == TaskStatus::Queued
            &&& t.command == command
            &&& t.model == model
        }),
{
    lemma_first_queued_push(qs, queued_task(id, command, model, now));
}

/// Law: first-in-first-out order. After enqueueing task `a` and then
/// task `b` into a store with no queued work, the peek returns `a`;
/// once `a` is marked Running, the peek returns `b`.
pub proof fn lemma_fifo_two_tasks(qs: Seq<TaskView>, a: TaskView, b: TaskView, now: Seq<char>)
    requires
        !has_queued(qs),
        !has_task_id(qs, a.id),
        a.status == TaskStatus::Queued,
        b.status == TaskStatus::Queued,
    ensures
        ({
            let qs2 = qs.push(a).push(b);
            let qs3 = qs2.update(qs.len() as int, updated_task(a, TaskStatus::Running, now));
            &&& first_queued(qs2) == Some(a)
            &&& index_of_id(qs2, a.id) == qs.len()
            &&& first_queued(qs3) == Some(b)
        }),
{
    let qs2 = qs.push(a).push(b);
    let qs3 = qs2.update(qs.len() as int, updated_task(a, TaskStatus::Running, now));
    assert(qs2[qs.len() as int] == a);
    assert(forall|j: int| 0 <= j < qs.len() ==> qs2[j] == qs[j]);
    lemma_queued_found_at(qs2, qs.len() as int);
    lemma_id_found_at(qs2, a.id, qs.len() as int);
    assert(qs3[qs.len() as int + 1] == b);
    assert(forall|j: int| 0 <= j < qs.len() as int + 1 ==> qs3[j].status != TaskStatus::Queued);
    lemma_queued_found_at(qs3, qs.len() as int + 1);
}

/// Lookup of any other id is unchanged by an append.
proof fn lemma_find_push_other(qs: Seq<TaskView>, t: TaskView, id: Seq<char>)
    requires
        id != t.id,
    ensures
        find_by_id(qs.push(t), id) == find_by_id(qs, id),
    decreases qs.len(),
{
    if qs.len() == 0 {
        assert(qs.push(t)[0] == t);
        assert(qs.push(t).skip(1) =~= qs);
    } else {
        assert(qs.push(t)[0] == qs[0]);
        assert(qs.push(t).skip(1) =~= qs.skip(1).push(t));
        lemma_find_push_other(qs.skip(1), t, id);
    }
}

/// Law: a task enqueued under a fresh id is independently retrievable by
/// that id, and lookups of every other id are untouched. Repeated, this
/// gives one retrievable row per enqueue; the store's exclusive `&mut`
/// access serializes the callers themselves.
pub proof fn lemma_enqueue_retrievable(qs: Seq<TaskView>, t: TaskView)
    requires
        !has_task_id(qs, t.id),
    ensures
        find_by_id(qs.push(t), t.id) == Some(t),
        forall|other: Seq<char>|
            other != t.id ==> find_by_id(qs.push(t), other) == find_by_id(qs, other),
{
    assert(qs.push(t)[qs.len() as int] == t);
    lemma_id_found_at(qs.push(t), t.id, qs.len() as int);
    assert forall|other: Seq<char>| other != t.id implies find_by_id(qs.push(t), other)
        == find_by_id(qs, other) by {
        lemma_find_push_other(qs, t, other);
    }
}

/// Law: the two-step lifecycle stamps. Marking a task Running stamps
/// `started_at` with the running time and leaves `completed_at` as it
/// was; marking the result Completed stamps `completed_at` with the
/// completion time and leaves `started_at` untouched.
pub proof fn lemma_lifecycle_stamps(t: TaskView, run_at: Seq<char>, done_at: Seq<char>)
    requires
        t.completed_at is None,
    ensures
        ({
            let r = updated_task(t, TaskStatus::Running, run_at);
            let c = updated_task(r, TaskStatus::Completed, done_at);
            &&& r.status == TaskStatus::Running
            &&& r.started_at == Some(run_at)
            &&& r.completed_at is None
            &&& c.status == TaskStatus::Completed
            &&& c.started_at == Some(run_at)
            &&& c.completed_at == Some(done_at)
        }),
{
}

// ---------------------------------------------------------------------------
// The peeked task has the oldest creation stamp
// ---------------------------------------------------------------------------

/// Lexicographic order on character sequences, by code point. On RFC 3339
/// timestamps this coincides with chronological order.
pub open spec fn lex_le(a: Seq<char>, b: Seq<char>) -> bool
    decreases a.len(),
{
    if a.len() == 0 {
        true
    } else if b.len() == 0 {
        false
    } else if (a[0] as u32) < (b[0] as u32) {
        true
    } else if (a[0] as u32) > (b[0] as u32) {
        false
    } else {
        lex_le(a.skip(1), b.skip(1))
    }
}

proof fn lemma_lex_le_refl(a: Seq<char>)
    ensures
        lex_le(a, a),
    decreases a.len(),
{
    if a.len() > 0 {
        lemma_lex_le_refl(a.skip(1));
    }
}

/// Creation stamps never decrease along insertion order — the shape a
/// single sane clock gives the store.
pub open spec fn stamps_monotone(qs: Seq<TaskView>) -> bool {
    forall|i: int, j: int| 0 <= i < j < qs.len() ==> lex_le(qs[i].created_at, qs[j].created_at)
}

/// The first queued position is the least position holding queued work.
proof fn lemma_first_queued_minimal(qs: Seq<TaskView>, j: int)
    requires
        0 <= j < qs.len(),
        qs[j].status == TaskStatus::Queued,
    ensures
        first_queued_index(qs) <= j,
    decreases qs.len(),
{
    if qs[0].status == TaskStatus::Queued {
    } else {
        assert(qs.skip(1)[j - 1] == qs[j]);
        lemma_first_queued_minimal(qs.skip(1), j - 1);
    }
}

/// Law: with non-decreasing creation stamps, the listing order — the
/// reverse of insertion order — is newest first: stamps never increase
/// along it.
pub proof fn lemma_list_newest_first(qs: Seq<TaskView>)
    requires
        stamps_monotone(qs),
    ensures
        forall|i: int, j: int|
            0 <= i < j < qs.len() ==> lex_le(
                qs.reverse()[j].created_at,
                qs.reverse()[i].created_at,
            ),
{
    assert forall|i: int, j: int| 0 <= i < j < qs.len() implies lex_le(
        qs.reverse()[j].created_at,
        qs.reverse()[i].created_at,
    ) by {
        assert(qs.reverse()[j] == qs[qs.len() - 1 - j]);
        assert(qs.reverse()[i] == qs[qs.len() - 1 - i]);
    }
}

/// Law: when creation stamps are non-decreasing in insertion order, the
/// peeked task carries the oldest creation stamp among all queued tasks.
pub proof fn lemma_dequeue_returns_oldest(qs: Seq<TaskView>)
    requires
        stamps_monotone(qs),
        has_queued(qs),
    ensures
        first_queued(qs) == Some(qs[first_queued_index(qs)]),
        forall|j: int|
            0 <= j < qs.len() && qs[j].status == TaskStatus::Queued ==> lex_le(
                qs[first_queued_index(qs)].created_at,
                #[trigger] qs[j].created_at,
            ),
{
    lemma_first_queued_in_range(qs);
    let f = first_queued_index(qs);
    assert forall|j: int|
        0 <= j < qs.len() && qs[j].status == TaskStatus::Queued implies lex_le(
        qs[f].created_at,
        #[trigger] qs[j].created_at,
    ) by {
        lemma_first_queued_minimal(qs, j);
        if f == j {
            lemma_lex_le_refl(qs[j].created_at);
        }
    }
}

} // verus!
