//! Durable task records and their state machine.
//!
//! A task moves strictly forward through `Pending -> Processing ->
//! {Completed, Failed}`: never backward, and never skipping `Processing`.
//! Timestamps are milliseconds since the Unix epoch; `start_time` is set
//! exactly when the record enters `Processing`, `end_time` exactly when it
//! enters a terminal state, and `error_message` is present exactly on
//! `Failed` records, and is then never empty.

use vstd::prelude::*;

verus! {

/// Lifecycle state of a task record.
#[derive(Clone, Copy, Debug, PartialEq, Eq, Structural)]
pub enum TaskStatus {
    Pending,
    Processing,
    Completed,
    Failed,
}

impl TaskStatus {
    /// A terminal record is never written again.
    pub open spec fn is_terminal(self) -> bool {
        self == TaskStatus::Completed || self == TaskStatus::Failed
    }

    /// True when a single store write may take a record from `self` to `next`:
    /// either no change, or one forward edge of the state machine.
    pub open spec fn step_allowed(self, next: TaskStatus) -> bool {
        ||| self == next
        ||| (self == TaskStatus::Pending && next == TaskStatus::Processing)
        ||| (self == TaskStatus::Processing && next.is_terminal())
    }
}

/// How far along the lifecycle a status is; allowed steps never decrease it.
pub open spec fn status_rank(s: TaskStatus) -> int {
    match s {
        TaskStatus::Pending => 0,
        TaskStatus::Processing => 1,
        TaskStatus::Completed => 2,
        TaskStatus::Failed => 2,
    }
}

/// Status only moves forward: an allowed step never lowers the rank, never
/// leaves a terminal state, and never jumps from `Pending` past `Processing`.
pub proof fn lemma_step_forward(a: TaskStatus, b: TaskStatus)
    requires
        a.step_allowed(b),
    ensures
        status_rank(a) <= status_rank(b),
        a.is_terminal() ==> a == b,
        a == TaskStatus::Pending && a != b ==> b == TaskStatus::Processing,
        a == TaskStatus::Processing && a != b ==> b.is_terminal(),
        b != TaskStatus::Pending || a == b,
{
}

/// One durable task record. Times are milliseconds since the Unix epoch.
#[derive(Clone, Debug)]
pub struct Task {
    pub id: String,
    pub name: String,
    pub status: TaskStatus,
    pub upload_time: i64,
    pub start_time: Option<i64>,
    pub end_time: Option<i64>,
    pub error_message: Option<String>,
}

impl Task {
    /// The record's timestamps and message agree with its status:
    /// `start_time` is set iff the record has entered `Processing`,
    /// `end_time` iff it is terminal, and a non-empty `error_message`
    /// is present iff it is `Failed`.
    pub open spec fn wf(self) -> bool {
        &&& (self.start_time is Some <==> self.status != TaskStatus::Pending)
        &&& (self.end_time is Some <==> self.status.is_terminal())
        &&& (self.error_message is Some <==> self.status == TaskStatus::Failed)
        &&& (self.error_message matches Some(m) ==> m@.len() > 0)
    }

    /// The record as written on entering `Processing` at time `now`.
    pub open spec fn processing_of(self, now: i64) -> Task {
        Task {
            status: TaskStatus::Processing,
            start_time: Some(now),
            ..self
        }
    }

    /// The record as written on entering `Completed` at time `now`.
    pub open spec fn completed_of(self, now: i64) -> Task {
        Task { status: TaskStatus::Completed, end_time: Some(now), ..self }
    }

    /// The record as written on entering `Failed` at time `now`.
    pub open spec fn failed_of(self, message: String, now: i64) -> Task {
        Task {
            status: TaskStatus::Failed,
            end_time: Some(now),
            error_message: Some(message),
            ..self
        }
    }

    /// The timestamps follow the status: `start_time` is set iff the record
    /// is `Processing`, `Completed` or `Failed`; `end_time` is set iff it is
    /// `Completed` or `Failed`; and a `Failed` record carries a non-empty
    /// error message.
    pub proof fn lemma_times_match_status(self)
        requires
            self.wf(),
        ensures
            self.start_time is Some <==> (self.status == TaskStatus::Processing
                || self.status == TaskStatus::Completed || self.status == TaskStatus::Failed),
            self.end_time is Some <==> (self.status == TaskStatus::Completed
                || self.status == TaskStatus::Failed),
            self.error_message is Some <==> self.status == TaskStatus::Failed,
            self.status == TaskStatus::Failed ==> (self.error_message matches Some(m)
                && m@.len() > 0),
    {
    }

    /// A fresh record for an accepted submission.
    pub fn new_pending(id: String, name: String, upload_time: i64) -> (t: Task)
        ensures
            t == (Task {
                id,
                name,
                status: TaskStatus::Pending,
                upload_time,
                start_time: None,
                end_time: None,
                error_message: None,
            }),
            t.wf(),
            t.status == TaskStatus::Pending,
    {
        Task {
            id,
            name,
            status: TaskStatus::Pending,
            upload_time,
            start_time: None,
            end_time: None,
            error_message: None,
        }
    }

    /// Flip `Pending -> Processing` and stamp `start_time`.
    pub fn begin_processing(&mut self, now: i64)
        requires
            old(self).wf(),
            old(self).status == TaskStatus::Pending,
        ensures
            *final(self) == old(self).processing_of(now),
            final(self).wf(),
            old(self).status.step_allowed(final(self).status),
    {
        self.status = TaskStatus::Processing;
        self.start_time = Some(now);
    }

    /// Flip `Processing -> Completed` and stamp `end_time`.
    pub fn complete(&mut self, now: i64)
        requires
            old(self).wf(),
            old(self).status == TaskStatus::Processing,
        ensures
            *final(self) == old(self).completed_of(now),
            final(self).wf(),
            old(self).status.step_allowed(final(self).status),
    {
        self.status = TaskStatus::Completed;
        self.end_time = Some(now);
    }

    /// Flip `Processing -> Failed`, stamp `end_time`, record the message.
    pub fn fail(&mut self, message: String, now: i64)
        requires
            old(self).wf(),
            old(self).status == TaskStatus::Processing,
            message@.len() > 0,
        ensures
            *final(self) == old(self).failed_of(message, now),
            final(self).wf(),
            old(self).status.step_allowed(final(self).status),
    {
        self.status = TaskStatus::Failed;
        self.end_time = Some(now);
        self.error_message = Some(message);
    }
}

} // verus!
