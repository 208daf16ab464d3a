//! The process-wide scheduling state and the operations on it.
//!
//! One value of [`ServerState`] holds the status store, the ordered queue of
//! pending ids, the worker capacity `workers` and the number of claimed
//! execution permits `running`. The submission gateway, the dispatcher's
//! claim, the terminal transition and the read-only queries are all
//! operations on this value; the surrounding process performs the waiting,
//! the spawning and the I/O and calls in here for every decision.
//!
//! The well-formedness invariant ties the pieces together: ids are unique,
//! every queued id names a `Pending` record, and the number of `Processing`
//! records never exceeds `running`, which never exceeds `workers`.

use vstd::prelude::*;

use std::collections::VecDeque;

use crate::api::{ApiError, ExecOutcome, TaskCreateResponse, TaskResponse};
use crate::record::{Task, TaskStatus};
use crate::store::{
    contains_id, count_processing, count_with_id, lemma_count_processing_at_least_one,
    lemma_count_processing_push, lemma_count_processing_update, lemma_unique_id_count,
    TaskStore,
};
use crate::validation::{
    spec_validate_gen_num, spec_validate_seed_sequences, validate_gen_num,
    validate_seed_sequences,
};

verus! {

/// The id `id` stands somewhere in the queue `q`.
pub open spec fn queued(q: Seq<String>, id: Seq<char>) -> bool {
    exists|i: int| 0 <= i < q.len() && (#[trigger] q[i])@ == id
}

/// Some record in `s` carries id `id` and is `Pending`.
pub open spec fn has_pending(s: Seq<Task>, id: Seq<char>) -> bool {
    exists|k: int|
        0 <= k < s.len() && (#[trigger] s[k]).id@ == id && s[k].status == TaskStatus::Pending
}

/// Some record in `s` carries id `id` and is `Processing`.
pub open spec fn has_processing(s: Seq<Task>, id: Seq<char>) -> bool {
    exists|k: int|
        0 <= k < s.len() && (#[trigger] s[k]).id@ == id && s[k].status == TaskStatus::Processing
}

/// Some record in `s` carries id `id` and is `Completed`.
pub open spec fn has_completed(s: Seq<Task>, id: Seq<char>) -> bool {
    exists|k: int|
        0 <= k < s.len() && (#[trigger] s[k]).id@ == id && s[k].status == TaskStatus::Completed
}

/// Relies on chrono's `Utc::now` and `DateTime::timestamp_millis`: the
/// current wall-clock time as milliseconds since the Unix epoch. Nothing is
/// assumed of the value: every caller's contract holds whatever comes back.
#[verifier::external_body]
fn now_millis() -> i64 {
    chrono::Utc::now().timestamp_millis()
}

/// The queue, the limiter and the store of one server process.
pub struct ServerState {
    pub store: TaskStore,
    pub queue: VecDeque<String>,
    pub workers: usize,
    pub running: usize,
}

impl ServerState {
    /// The cross-component invariant, preserved by every operation: ids are
    /// unique, every queued id names a `Pending` record and every `Pending`
    /// record is queued — no enqueue without a record, no record without an
    /// enqueue — and the `Processing` records never outnumber the held
    /// permits, which never outnumber the workers.
    pub open spec fn wf(self) -> bool {
        &&& self.store.wf()
        &&& self.running <= self.workers
        &&& count_processing(self.store@) <= self.running
        &&& forall|i: int|
            0 <= i < self.queue@.len() ==> has_pending(self.store@, (#[trigger] self.queue@[i])@)
        &&& forall|k: int|
            0 <= k < self.store@.len() && (#[trigger] self.store@[k]).status
                == TaskStatus::Pending ==> queued(self.queue@, self.store@[k].id@)
        &&& forall|i: int, j: int|
            0 <= i < j < self.queue@.len() ==> self.queue@[i]@ != self.queue@[j]@
    }

    /// A fresh server with capacity `workers` and nothing submitted.
    pub fn new(workers: usize) -> (s: ServerState)
        ensures
            s.wf(),
            s.store@ =~= Seq::<Task>::empty(),
            s.queue@ =~= Seq::<String>::empty(),
            s.workers == workers,
            s.running == 0,
    {
        ServerState {
            store: TaskStore::new(),
            queue: VecDeque::new(),
            workers,
            running: 0,
        }
    }

    /// What an accepted submission writes: exactly one fresh `Pending`
    /// record and exactly one queue entry for it; nothing else moves.
    pub open spec fn submit_accepts(
        pre: ServerState,
        post: ServerState,
        id: String,
        name: String,
        now: i64,
    ) -> bool {
        &&& post.store@ == pre.store@.push(
            Task {
                id,
                name,
                status: TaskStatus::Pending,
                upload_time: now,
                start_time: None,
                end_time: None,
                error_message: None,
            },
        )
        &&& post.queue@ == pre.queue@.push(id)
        &&& post.workers == pre.workers
        &&& post.running == pre.running
    }

    /// The full effect of a submission at time `now`: validation before any
    /// side effect, duplicate ids rejected with the existing record
    /// untouched, and on acceptance exactly one record and one queue entry.
    pub open spec fn submit_post(
        pre: ServerState,
        post: ServerState,
        id: String,
        name: String,
        seed_seqs: Seq<u8>,
        gen_num: Seq<u8>,
        r: Result<TaskCreateResponse, ApiError>,
        now: i64,
    ) -> bool {
        match spec_validate_seed_sequences(seed_seqs) {
            Err(e) => post == pre && r == Err::<TaskCreateResponse, ApiError>(
                ApiError::BadRequest(e),
            ),
            Ok(_) => match spec_validate_gen_num(gen_num) {
                Err(e) => post == pre && r == Err::<TaskCreateResponse, ApiError>(
                    ApiError::BadRequest(e),
                ),
                Ok(_) => {
                    if contains_id(pre.store@, id@) {
                        post == pre && r == Err::<TaskCreateResponse, ApiError>(ApiError::Conflict)
                    } else {
                        &&& Self::submit_accepts(pre, post, id, name, now)
                        &&& (r matches Ok(resp) && resp.task_id@ == id@ && resp.message@
                            == "Task created successfully and added to the queue."@)
                    }
                },
            },
        }
    }

    /// Gateway: validate, record as `Pending`, enqueue — at time `now`.
    pub fn submit_at(
        &mut self,
        id: String,
        name: String,
        seed_seqs: &[u8],
        gen_num: &[u8],
        now: i64,
    ) -> (r: Result<TaskCreateResponse, ApiError>)
        requires
            old(self).wf(),
        ensures
            final(self).wf(),
            Self::submit_post(*old(self), *final(self), id, name, seed_seqs@, gen_num@, r, now),
            forall|k: int|
                0 <= k < old(self).store@.len() ==> (#[trigger] old(
                    self,
                ).store@[k]).status.step_allowed(final(self).store@[k].status),
    {
        if let Err(e) = validate_seed_sequences(seed_seqs) {
            return Err(ApiError::BadRequest(e));
        }
        if let Err(e) = validate_gen_num(gen_num) {
            return Err(ApiError::BadRequest(e));
        }
        let ghost pre = *self;
        let t = Task::new_pending(id.clone(), name, now);
        let ghost trec = t;
        let inserted = self.store.insert(t);
        if !inserted {
            return Err(ApiError::Conflict);
        }
        self.queue.push_back(id.clone());
        proof {
            lemma_count_processing_push(pre.store@, trec);
            assert forall|i: int| 0 <= i < self.queue@.len() implies has_pending(
                self.store@,
                (#[trigger] self.queue@[i])@,
            ) by {
                if i < pre.queue@.len() {
                    assert(has_pending(pre.store@, pre.queue@[i]@));
                    let w = choose|k: int|
                        0 <= k < pre.store@.len() && (#[trigger] pre.store@[k]).id@
                            == pre.queue@[i]@ && pre.store@[k].status == TaskStatus::Pending;
                    assert(self.store@[w] == pre.store@[w]);
                } else {
                    assert(self.store@[pre.store@.len() as int] == trec);
                }
            }
            assert forall|i: int, j: int| 0 <= i < j < self.queue@.len() implies self.queue@[i]@
                != self.queue@[j]@ by {
                if j == self.queue@.len() - 1 && i < pre.queue@.len() {
                    assert(has_pending(pre.store@, pre.queue@[i]@));
                    assert(!contains_id(pre.store@, id@));
                }
            }
            assert forall|k: int|
                0 <= k < self.store@.len() && (#[trigger] self.store@[k]).status
                    == TaskStatus::Pending implies queued(self.queue@, self.store@[k].id@) by {
                if k < pre.store@.len() {
                    assert(self.store@[k] == pre.store@[k]);
                    assert(queued(pre.queue@, pre.store@[k].id@));
                    let i = choose|i: int|
                        0 <= i < pre.queue@.len() && (#[trigger] pre.queue@[i])@
                            == pre.store@[k].id@;
                    assert(self.queue@[i] == pre.queue@[i]);
                } else {
                    assert(self.queue@[pre.queue@.len() as int]@ == id@);
                }
            }
        }
        Ok(
            TaskCreateResponse {
                task_id: id,
                message: String::from_str("Task created successfully and added to the queue."),
            },
        )
    }

    /// What a dispatch claim at time `now` does: nothing when the queue is
    /// empty or all permits are held; otherwise the head id leaves the
    /// queue, one permit is taken, and the head's record — and only it —
    /// flips `Pending -> Processing` with `start_time = now`.
    pub open spec fn claim_post(
        pre: ServerState,
        post: ServerState,
        r: Option<String>,
        now: i64,
    ) -> bool {
        match r {
            None => post == pre && (pre.queue@.len() == 0 || pre.running == pre.workers),
            Some(id) => {
                &&& pre.queue@.len() > 0
                &&& pre.running < pre.workers
                &&& id == pre.queue@[0]
                &&& post.queue@ == pre.queue@.drop_first()
                &&& post.workers == pre.workers
                &&& post.running == pre.running + 1
                &&& exists|k: int|
                    0 <= k < pre.store@.len() && (#[trigger] pre.store@[k]).id@ == id@
                        && pre.store@[k].status == TaskStatus::Pending && post.store@
                        == pre.store@.update(k, pre.store@[k].processing_of(now))
            },
        }
    }

    /// Dispatcher: claim the queue head if a permit is free, flipping its
    /// record to `Processing` at time `now`.
    pub fn claim_next_at(&mut self, now: i64) -> (r: Option<String>)
        requires
            old(self).wf(),
        ensures
            final(self).wf(),
            Self::claim_post(*old(self), *final(self), r, now),
            forall|k: int|
                0 <= k < old(self).store@.len() ==> (#[trigger] old(
                    self,
                ).store@[k]).status.step_allowed(final(self).store@[k].status),
    {
        if self.running >= self.workers {
            return None;
        }
        if self.queue.len() == 0 {
            return None;
        }
        let ghost pre = *self;
        let id = match self.queue.pop_front() {
            Some(id) => id,
            None => {
                proof {
                    assert(false);
                }
                unreached()
            },
        };
        proof {
            assert(has_pending(pre.store@, pre.queue@[0]@));
            assert(self.queue@ =~= pre.queue@.drop_first());
        }
        let idx = match self.store.find_index(&id) {
            Some(i) => i,
            None => {
                proof {
                    assert(false);
                }
                unreached()
            },
        };
        proof {
            let w = choose|k: int|
                0 <= k < pre.store@.len() && (#[trigger] pre.store@[k]).id@ == id@
                    && pre.store@[k].status == TaskStatus::Pending;
            assert(pre.store@[w].id@ == pre.store@[idx as int].id@);
            assert(w == idx);
        }
        let rec = &mut self.store.records[idx];
        rec.begin_processing(now);
        self.running = self.running + 1;
        proof {
            lemma_count_processing_update(
                pre.store@,
                idx as int,
                pre.store@[idx as int].processing_of(now),
            );
            assert forall|i: int| 0 <= i < self.queue@.len() implies has_pending(
                self.store@,
                (#[trigger] self.queue@[i])@,
            ) by {
                assert(self.queue@[i] == pre.queue@[i + 1]);
                assert(has_pending(pre.store@, pre.queue@[i + 1]@));
                let w = choose|k: int|
                    0 <= k < pre.store@.len() && (#[trigger] pre.store@[k]).id@ == pre.queue@[i
                        + 1]@ && pre.store@[k].status == TaskStatus::Pending;
                assert(pre.queue@[i + 1]@ != pre.queue@[0]@);
                assert(w != idx);
                assert(self.store@[w] == pre.store@[w]);
            }
            assert forall|k: int|
                0 <= k < self.store@.len() && (#[trigger] self.store@[k]).status
                    == TaskStatus::Pending implies queued(self.queue@, self.store@[k].id@) by {
                assert(k != idx as int);
                assert(self.store@[k] == pre.store@[k]);
                assert(queued(pre.queue@, pre.store@[k].id@));
                let i = choose|i: int|
                    0 <= i < pre.queue@.len() && (#[trigger] pre.queue@[i])@ == pre.store@[k].id@;
                if i == 0 {
                    assert(pre.store@[k].id@ == id@);
                    assert(pre.store@[idx as int].id@ == id@);
                } else {
                    assert(self.queue@[i - 1] == pre.queue@[i]);
                }
            }
        }
        Some(id)
    }

    /// The record written when an execution ends: `Completed` on success,
    /// else `Failed` with `end_time = now` and a message naming the failing
    /// side — the generation capability or the surrounding harness.
    pub open spec fn finish_writes(t: Task, outcome: ExecOutcome, now: i64, t2: Task) -> bool {
        match outcome {
            ExecOutcome::Success => t2 == t.completed_of(now),
            ExecOutcome::GenerationError(m) => {
                &&& t2.status == TaskStatus::Failed
                &&& t2.end_time == Some(now)
                &&& (t2.error_message matches Some(msg) && msg@ == "generation failed: "@ + m@)
                &&& t2.id == t.id
                &&& t2.name == t.name
                &&& t2.upload_time == t.upload_time
                &&& t2.start_time == t.start_time
            },
            ExecOutcome::HarnessError(m) => {
                &&& t2.status == TaskStatus::Failed
                &&& t2.end_time == Some(now)
                &&& (t2.error_message matches Some(msg) && msg@ == "execution failed: "@ + m@)
                &&& t2.id == t.id
                &&& t2.name == t.name
                &&& t2.upload_time == t.upload_time
                &&& t2.start_time == t.start_time
            },
        }
    }

    /// The full effect of finishing `id` with `outcome` at time `now`: if —
    /// and only if — a `Processing` record carries `id`, that record alone
    /// is finished and one permit is released; otherwise nothing changes.
    pub open spec fn finish_post(
        pre: ServerState,
        post: ServerState,
        id: Seq<char>,
        outcome: ExecOutcome,
        now: i64,
        applied: bool,
    ) -> bool {
        if has_processing(pre.store@, id) {
            &&& applied
            &&& post.queue@ == pre.queue@
            &&& post.workers == pre.workers
            &&& post.running == pre.running - 1
            &&& post.store@.len() == pre.store@.len()
            &&& forall|k: int|
                0 <= k < pre.store@.len() && (#[trigger] pre.store@[k]).id@ == id
                    && pre.store@[k].status == TaskStatus::Processing ==> Self::finish_writes(
                    pre.store@[k],
                    outcome,
                    now,
                    post.store@[k],
                )
            &&& forall|k: int|
                0 <= k < pre.store@.len() && (#[trigger] pre.store@[k]).id@ != id
                    ==> post.store@[k] == pre.store@[k]
        } else {
            !applied && post == pre
        }
    }

    /// Runner epilogue: write the terminal state for `id` and release its
    /// permit. Nothing happens unless `id` names a `Processing` record, so a
    /// second call for the same task is a no-op.
    pub fn finish_at(&mut self, id: &String, outcome: ExecOutcome, now: i64) -> (applied: bool)
        requires
            old(self).wf(),
        ensures
            final(self).wf(),
            Self::finish_post(*old(self), *final(self), id@, outcome, now, applied),
            forall|k: int|
                0 <= k < old(self).store@.len() ==> (#[trigger] old(
                    self,
                ).store@[k]).status.step_allowed(final(self).store@[k].status),
    {
        let ghost pre = *self;
        let idx = match self.store.find_index(id) {
            Some(i) => i,
            None => {
                return false;
            },
        };
        let processing = self.store.records[idx].status == TaskStatus::Processing;
        if !processing {
            proof {
                if has_processing(pre.store@, id@) {
                    let w = choose|k: int|
                        0 <= k < pre.store@.len() && (#[trigger] pre.store@[k]).id@ == id@
                            && pre.store@[k].status == TaskStatus::Processing;
                    assert(w == idx);
                }
            }
            return false;
        }
        proof {
            lemma_count_processing_at_least_one(pre.store@, idx as int);
        }
        match outcome {
            ExecOutcome::Success => {
                let rec = &mut self.store.records[idx];
                rec.complete(now);
            },
            ExecOutcome::GenerationError(m) => {
                let mut msg = String::from_str("generation failed: ");
                msg.append(m.as_str());
                proof {
                    reveal_strlit("generation failed: ");
                }
                let rec = &mut self.store.records[idx];
                rec.fail(msg, now);
            },
            ExecOutcome::HarnessError(m) => {
                let mut msg = String::from_str("execution failed: ");
                msg.append(m.as_str());
                proof {
                    reveal_strlit("execution failed: ");
                }
                let rec = &mut self.store.records[idx];
                rec.fail(msg, now);
            },
        }
        self.running = self.running - 1;
        proof {
            lemma_count_processing_update(pre.store@, idx as int, self.store@[idx as int]);
            assert forall|k: int|
                0 <= k < pre.store@.len() && (#[trigger] pre.store@[k]).id@ == id@
                    && pre.store@[k].status == TaskStatus::Processing implies k == idx as int by {
                assert(pre.store@[k].id@ == pre.store@[idx as int].id@);
            }
            assert forall|i: int| 0 <= i < self.queue@.len() implies has_pending(
                self.store@,
                (#[trigger] self.queue@[i])@,
            ) by {
                assert(has_pending(pre.store@, pre.queue@[i]@));
                let w = choose|k: int|
                    0 <= k < pre.store@.len() && (#[trigger] pre.store@[k]).id@ == pre.queue@[i]@
                        && pre.store@[k].status == TaskStatus::Pending;
                assert(w != idx);
                assert(self.store@[w] == pre.store@[w]);
            }
        }
        true
    }

    /// The 0-based queue index of `id`, if queued.
    pub open spec fn queue_index_of(q: Seq<String>, id: Seq<char>) -> Option<int> {
        if exists|i: int| 0 <= i < q.len() && (#[trigger] q[i])@ == id {
            Some(choose|i: int| 0 <= i < q.len() && (#[trigger] q[i])@ == id)
        } else {
            None
        }
    }

    /// The reported position estimate of a `Pending` task: queue index
    /// + 1 + `workers`, modelling the up-to-`workers` tasks already claimed
    /// ahead of the visible queue; absent when the id is not in the queue or
    /// the sum does not fit.
    pub open spec fn spec_position(q: Seq<String>, id: Seq<char>, workers: usize) -> Option<
        usize,
    > {
        match Self::queue_index_of(q, id) {
            Some(i) => if i + 1 + workers <= usize::MAX {
                Some((i + 1 + workers) as usize)
            } else {
                None
            },
            None => None,
        }
    }

    /// The answer owed to a status query that found record `t`.
    pub open spec fn response_matches(
        t: Task,
        q: Seq<String>,
        workers: usize,
        r: Result<TaskResponse, ApiError>,
    ) -> bool {
        match t.status {
            TaskStatus::Pending => (r matches Ok(TaskResponse::Pending { upload_time, position })
                && upload_time == t.upload_time && position == Self::spec_position(
                q,
                t.id@,
                workers,
            )),
            TaskStatus::Processing => (r matches Ok(
                TaskResponse::Processing { upload_time, start_time },
            ) && upload_time == t.upload_time && Some(start_time) == t.start_time),
            TaskStatus::Completed => (r matches Ok(
                TaskResponse::Completed { upload_time, start_time, end_time },
            ) && upload_time == t.upload_time && Some(start_time) == t.start_time && Some(end_time)
                == t.end_time),
            TaskStatus::Failed => (r matches Ok(
                TaskResponse::Failed { upload_time, start_time, end_time, error },
            ) && upload_time == t.upload_time && start_time == t.start_time && end_time
                == t.end_time && (t.error_message matches Some(m) && error@ == m@)),
        }
    }

    /// Status query: the record keyed by `id`, shaped by its status; a
    /// `Pending` answer carries the live position estimate.
    #[verifier::loop_isolation(false)]
    pub fn status_of(&self, id: &String) -> (r: Result<TaskResponse, ApiError>)
        requires
            self.wf(),
        ensures
            !contains_id(self.store@, id@) ==> r == Err::<TaskResponse, ApiError>(
                ApiError::NotFound,
            ),
            forall|k: int|
                0 <= k < self.store@.len() && (#[trigger] self.store@[k]).id@ == id@
                    ==> Self::response_matches(self.store@[k], self.queue@, self.workers, r),
    {
        let idx = match self.store.find_index(id) {
            Some(i) => i,
            None => {
                return Err(ApiError::NotFound);
            },
        };
        proof {
            assert forall|k: int|
                0 <= k < self.store@.len() && (#[trigger] self.store@[k]).id@ == id@ implies k
                == idx as int by {
                assert(self.store@[k].id@ == self.store@[idx as int].id@);
            }
            assert(self.store@[idx as int].wf());
        }
        let t = &self.store.records[idx];
        match t.status {
            TaskStatus::Pending => {
                let mut qi: usize = 0;
                while qi < self.queue.len()
                    invariant
                        qi <= self.queue@.len(),
                        forall|j: int| 0 <= j < qi ==> (#[trigger] self.queue@[j])@ != id@,
                    decreases self.queue@.len() - qi,
                {
                    if self.queue[qi] == *id {
                        proof {
                            let w = choose|i: int|
                                0 <= i < self.queue@.len() && (#[trigger] self.queue@[i])@ == id@;
                            assert(w == qi as int);
                        }
                        let position = (qi + 1).checked_add(self.workers);
                        return Ok(
                            TaskResponse::Pending { upload_time: t.upload_time, position },
                        );
                    }
                    qi = qi + 1;
                }
                proof {
                    assert(Self::queue_index_of(self.queue@, id@) is None);
                }
                Ok(TaskResponse::Pending { upload_time: t.upload_time, position: None })
            },
            TaskStatus::Processing => {
                let start_time = match t.start_time {
                    Some(s) => s,
                    None => {
                        proof {
                            assert(false);
                        }
                        unreached()
                    },
                };
                Ok(TaskResponse::Processing { upload_time: t.upload_time, start_time })
            },
            TaskStatus::Completed => {
                let start_time = match t.start_time {
                    Some(s) => s,
                    None => {
                        proof {
                            assert(false);
                        }
                        unreached()
                    },
                };
                let end_time = match t.end_time {
                    Some(e) => e,
                    None => {
                        proof {
                            assert(false);
                        }
                        unreached()
                    },
                };
                Ok(
                    TaskResponse::Completed {
                        upload_time: t.upload_time,
                        start_time,
                        end_time,
                    },
                )
            },
            TaskStatus::Failed => {
                let error = match &t.error_message {
                    Some(m) => m.clone(),
                    None => {
                        proof {
                            assert(false);
                        }
                        unreached()
                    },
                };
                Ok(
                    TaskResponse::Failed {
                        upload_time: t.upload_time,
                        start_time: t.start_time,
                        end_time: t.end_time,
                        error,
                    },
                )
            },
        }
    }

    /// Result download: the artifact bytes are handed back only for a
    /// `Completed` task whose artifact exists; anything else is not found.
    pub fn download(&self, id: &String, artifact: Option<Vec<u8>>) -> (r: Result<
        Vec<u8>,
        ApiError,
    >)
        requires
            self.wf(),
        ensures
            ({
                if has_completed(self.store@, id@) {
                    match artifact {
                        Some(b) => r == Ok::<Vec<u8>, ApiError>(b),
                        None => r == Err::<Vec<u8>, ApiError>(ApiError::NotFound),
                    }
                } else {
                    r == Err::<Vec<u8>, ApiError>(ApiError::NotFound)
                }
            }),
    {
        let idx = match self.store.find_index(id) {
            Some(i) => i,
            None => {
                return Err(ApiError::NotFound);
            },
        };
        proof {
            if has_completed(self.store@, id@) {
                let w = choose|k: int|
                    0 <= k < self.store@.len() && (#[trigger] self.store@[k]).id@ == id@
                        && self.store@[k].status == TaskStatus::Completed;
                assert(self.store@[w].id@ == self.store@[idx as int].id@);
                assert(w == idx);
            }
        }
        if self.store.records[idx].status != TaskStatus::Completed {
            return Err(ApiError::NotFound);
        }
        match artifact {
            Some(b) => Ok(b),
            None => Err(ApiError::NotFound),
        }
    }

    /// Gateway at the wall clock: validate, record, enqueue, stamped with
    /// the time of the call.
    pub fn submit(&mut self, id: String, name: String, seed_seqs: &[u8], gen_num: &[u8]) -> (r:
        Result<TaskCreateResponse, ApiError>)
        requires
            old(self).wf(),
        ensures
            final(self).wf(),
            exists|now: i64|
                #[trigger] Self::submit_post(
                    *old(self),
                    *final(self),
                    id,
                    name,
                    seed_seqs@,
                    gen_num@,
                    r,
                    now,
                ),
            forall|k: int|
                0 <= k < old(self).store@.len() ==> (#[trigger] old(
                    self,
                ).store@[k]).status.step_allowed(final(self).store@[k].status),
    {
        let now = now_millis();
        self.submit_at(id, name, seed_seqs, gen_num, now)
    }

    /// Dispatcher claim at the wall clock.
    pub fn claim_next(&mut self) -> (r: Option<String>)
        requires
            old(self).wf(),
        ensures
            final(self).wf(),
            exists|now: i64| #[trigger] Self::claim_post(*old(self), *final(self), r, now),
            forall|k: int|
                0 <= k < old(self).store@.len() ==> (#[trigger] old(
                    self,
                ).store@[k]).status.step_allowed(final(self).store@[k].status),
    {
        let now = now_millis();
        self.claim_next_at(now)
    }

    /// Terminal transition at the wall clock.
    pub fn finish(&mut self, id: &String, outcome: ExecOutcome) -> (applied: bool)
        requires
            old(self).wf(),
        ensures
            final(self).wf(),
            exists|now: i64|
                #[trigger] Self::finish_post(
                    *old(self),
                    *final(self),
                    id@,
                    outcome,
                    now,
                    applied,
                ),
            forall|k: int|
                0 <= k < old(self).store@.len() ==> (#[trigger] old(
                    self,
                ).store@[k]).status.step_allowed(final(self).store@[k].status),
    {
        let now = now_millis();
        self.finish_at(id, outcome, now)
    }

    /// At most `workers` tasks are ever simultaneously `Processing`: the
    /// invariant bounds the `Processing` count by the held permits, which
    /// the claim operation keeps below the capacity.
    pub proof fn lemma_processing_bounded(s: ServerState)
        requires
            s.wf(),
        ensures
            count_processing(s.store@) <= s.workers,
    {
    }

    /// An id that is present at all names exactly one record — in
    /// particular, right after an accepted submission, exactly one `Pending`
    /// record exists for it.
    pub proof fn lemma_exactly_one_record(s: ServerState, id: Seq<char>)
        requires
            s.wf(),
            contains_id(s.store@, id),
        ensures
            count_with_id(s.store@, id) == 1,
    {
        lemma_unique_id_count(s.store@, id);
    }
}

} // verus!
