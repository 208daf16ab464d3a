//! Client-facing request and response shapes and the error taxonomy.

use vstd::prelude::*;

use crate::validation::ValidationError;

verus! {

/// Returned by a successful submission.
#[derive(Clone, Debug, PartialEq, Eq)]
pub struct TaskCreateResponse {
    pub task_id: String,
    pub message: String,
}

/// Why a request failed.
#[derive(Clone, Debug, PartialEq, Eq)]
pub enum ApiError {
    /// The submission was malformed; rejected before any side effect.
    BadRequest(ValidationError),
    /// The submitted id already has a record; the existing record is
    /// untouched.
    Conflict,
    /// No record (or, for a download, no artifact) under this id.
    NotFound,
}

/// A status query's answer: one variant per status, carrying only the
/// fields meaningful for it. Times are milliseconds since the Unix epoch.
#[derive(Clone, Debug, PartialEq, Eq)]
pub enum TaskResponse {
    Pending { upload_time: i64, position: Option<usize> },
    Processing { upload_time: i64, start_time: i64 },
    Completed { upload_time: i64, start_time: i64, end_time: i64 },
    Failed {
        upload_time: i64,
        start_time: Option<i64>,
        end_time: Option<i64>,
        error: String,
    },
}

/// How one execution of the generation capability ended: cleanly, with an
/// error from the capability itself, or with a failure of the surrounding
/// harness (parameters unreadable, execution context crashed). The two
/// failure kinds differ only in the message written to the record.
#[derive(Clone, Debug)]
pub enum ExecOutcome {
    Success,
    GenerationError(String),
    HarnessError(String),
}

} // verus!
