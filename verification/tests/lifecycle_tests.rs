use grape_tasks::api::{ApiError, ExecOutcome, TaskResponse};
use grape_tasks::record::TaskStatus;
use grape_tasks::server::ServerState;
use grape_tasks::validation::ValidationError;

const GOOD: &str = "ACGUACGUACGUACGUACGU";

fn submit_ok(s: &mut ServerState, id: &str, now: i64) {
    let r = s.submit_at(
        String::from(id),
        String::from("job"),
        GOOD.as_bytes(),
        b"10",
        now,
    );
    let resp = r.expect("submission should be accepted");
    assert_eq!(resp.task_id, id);
    assert_eq!(
        resp.message,
        "Task created successfully and added to the queue."
    );
}

#[test]
fn accepted_submission_creates_exactly_one_pending_record() {
    let mut s = ServerState::new(2);
    submit_ok(&mut s, "t1", 100);
    let matching: Vec<_> = s.store.records.iter().filter(|t| t.id == "t1").collect();
    assert_eq!(matching.len(), 1);
    assert_eq!(matching[0].status, TaskStatus::Pending);
    assert_eq!(matching[0].upload_time, 100);
    assert_eq!(matching[0].start_time, None);
    assert_eq!(matching[0].end_time, None);
    assert_eq!(matching[0].error_message, None);
    assert_eq!(s.queue.len(), 1);
}

#[test]
fn fresh_submission_reports_position_three_with_two_workers() {
    let mut s = ServerState::new(2);
    submit_ok(&mut s, "t1", 100);
    let r = s.status_of(&String::from("t1"));
    assert_eq!(
        r,
        Ok(TaskResponse::Pending { upload_time: 100, position: Some(3) })
    );
}

#[test]
fn positions_count_up_along_the_queue() {
    let mut s = ServerState::new(2);
    submit_ok(&mut s, "t1", 1);
    submit_ok(&mut s, "t2", 2);
    submit_ok(&mut s, "t3", 3);
    assert_eq!(
        s.status_of(&String::from("t3")),
        Ok(TaskResponse::Pending { upload_time: 3, position: Some(5) })
    );
}

#[test]
fn rejected_submission_has_no_side_effects() {
    let mut s = ServerState::new(2);
    let r = s.submit_at(
        String::from("t1"),
        String::from("job"),
        b"ACGUACGUACGUACGUACG",
        b"10",
        100,
    );
    assert_eq!(
        r,
        Err(ApiError::BadRequest(ValidationError::WrongLength {
            line: 1,
            length: 19
        }))
    );
    assert_eq!(s.store.records.len(), 0);
    assert_eq!(s.queue.len(), 0);
    assert_eq!(s.status_of(&String::from("t1")), Err(ApiError::NotFound));
}

#[test]
fn bad_gen_num_rejects_before_any_side_effect() {
    let mut s = ServerState::new(2);
    let r = s.submit_at(
        String::from("t1"),
        String::from("job"),
        GOOD.as_bytes(),
        b"0",
        100,
    );
    assert_eq!(
        r,
        Err(ApiError::BadRequest(ValidationError::GenNumOutOfRange { value: 0 }))
    );
    assert_eq!(s.store.records.len(), 0);
    assert_eq!(s.queue.len(), 0);
}

#[test]
fn duplicate_id_is_rejected_and_existing_record_untouched() {
    let mut s = ServerState::new(2);
    submit_ok(&mut s, "t1", 100);
    let r = s.submit_at(
        String::from("t1"),
        String::from("other"),
        GOOD.as_bytes(),
        b"10",
        999,
    );
    assert_eq!(r, Err(ApiError::Conflict));
    assert_eq!(s.store.records.len(), 1);
    assert_eq!(s.store.records[0].name, "job");
    assert_eq!(s.store.records[0].upload_time, 100);
    assert_eq!(s.queue.len(), 1);
}

#[test]
fn unknown_id_is_not_found() {
    let s = ServerState::new(2);
    assert_eq!(s.status_of(&String::from("nope")), Err(ApiError::NotFound));
}

#[test]
fn claim_pops_the_head_and_starts_processing() {
    let mut s = ServerState::new(2);
    submit_ok(&mut s, "t1", 100);
    submit_ok(&mut s, "t2", 101);
    let claimed = s.claim_next_at(200);
    assert_eq!(claimed, Some(String::from("t1")));
    assert_eq!(s.queue.len(), 1);
    assert_eq!(s.running, 1);
    assert_eq!(
        s.status_of(&String::from("t1")),
        Ok(TaskResponse::Processing { upload_time: 100, start_time: 200 })
    );
    // The remaining task is still pending behind the claimed one.
    assert_eq!(
        s.status_of(&String::from("t2")),
        Ok(TaskResponse::Pending { upload_time: 101, position: Some(3) })
    );
}

#[test]
fn at_most_w_tasks_run_at_once() {
    let mut s = ServerState::new(2);
    submit_ok(&mut s, "t1", 1);
    submit_ok(&mut s, "t2", 2);
    submit_ok(&mut s, "t3", 3);
    assert_eq!(s.claim_next_at(10), Some(String::from("t1")));
    assert_eq!(s.claim_next_at(11), Some(String::from("t2")));
    // Both permits are held: the third task is not claimed.
    assert_eq!(s.claim_next_at(12), None);
    let processing = s
        .store
        .records
        .iter()
        .filter(|t| t.status == TaskStatus::Processing)
        .count();
    assert_eq!(processing, 2);
    // Releasing one permit lets the next task through.
    assert!(s.finish_at(&String::from("t1"), ExecOutcome::Success, 20));
    assert_eq!(s.claim_next_at(21), Some(String::from("t3")));
}

#[test]
fn claim_on_empty_queue_returns_none() {
    let mut s = ServerState::new(2);
    assert_eq!(s.claim_next_at(1), None);
}

#[test]
fn successful_run_completes_with_both_timestamps() {
    let mut s = ServerState::new(1);
    submit_ok(&mut s, "t1", 100);
    assert_eq!(s.claim_next_at(200), Some(String::from("t1")));
    assert!(s.finish_at(&String::from("t1"), ExecOutcome::Success, 300));
    assert_eq!(s.running, 0);
    assert_eq!(
        s.status_of(&String::from("t1")),
        Ok(TaskResponse::Completed { upload_time: 100, start_time: 200, end_time: 300 })
    );
}

#[test]
fn generation_error_ends_failed_with_message_and_end_time() {
    let mut s = ServerState::new(1);
    submit_ok(&mut s, "t1", 100);
    assert_eq!(s.claim_next_at(200), Some(String::from("t1")));
    assert!(s.finish_at(
        &String::from("t1"),
        ExecOutcome::GenerationError(String::from("model exploded")),
        300
    ));
    let r = s.status_of(&String::from("t1"));
    assert_eq!(
        r,
        Ok(TaskResponse::Failed {
            upload_time: 100,
            start_time: Some(200),
            end_time: Some(300),
            error: String::from("generation failed: model exploded"),
        })
    );
    let rec = &s.store.records[0];
    assert_eq!(rec.status, TaskStatus::Failed);
    assert!(rec.error_message.as_ref().is_some_and(|m| !m.is_empty()));
    assert_eq!(rec.end_time, Some(300));
}

#[test]
fn harness_error_is_distinguished_only_by_message_text() {
    let mut s = ServerState::new(1);
    submit_ok(&mut s, "t1", 100);
    assert_eq!(s.claim_next_at(200), Some(String::from("t1")));
    assert!(s.finish_at(
        &String::from("t1"),
        ExecOutcome::HarnessError(String::from("parameters unreadable")),
        300
    ));
    let rec = &s.store.records[0];
    assert_eq!(rec.status, TaskStatus::Failed);
    assert_eq!(
        rec.error_message.as_deref(),
        Some("execution failed: parameters unreadable")
    );
}

#[test]
fn finish_is_a_no_op_without_a_processing_record() {
    let mut s = ServerState::new(1);
    submit_ok(&mut s, "t1", 100);
    // Not yet claimed: nothing to finish.
    assert!(!s.finish_at(&String::from("t1"), ExecOutcome::Success, 200));
    assert_eq!(s.running, 0);
    assert_eq!(s.store.records[0].status, TaskStatus::Pending);
    // Unknown id: nothing to finish.
    assert!(!s.finish_at(&String::from("zz"), ExecOutcome::Success, 200));
}

#[test]
fn download_before_completion_is_not_found() {
    let mut s = ServerState::new(1);
    submit_ok(&mut s, "t1", 100);
    let id = String::from("t1");
    assert_eq!(
        s.download(&id, Some(vec![1, 2, 3])),
        Err(ApiError::NotFound)
    );
    assert_eq!(s.claim_next_at(200), Some(String::from("t1")));
    assert_eq!(
        s.download(&id, Some(vec![1, 2, 3])),
        Err(ApiError::NotFound)
    );
    assert_eq!(s.download(&String::from("zz"), None), Err(ApiError::NotFound));
}

#[test]
fn download_after_completion_returns_the_artifact() {
    let mut s = ServerState::new(1);
    submit_ok(&mut s, "t1", 100);
    let id = String::from("t1");
    assert_eq!(s.claim_next_at(200), Some(String::from("t1")));
    assert!(s.finish_at(&id, ExecOutcome::Success, 300));
    assert_eq!(s.download(&id, Some(vec![7, 8])), Ok(vec![7, 8]));
    // Completed but the artifact file is missing: still not found.
    assert_eq!(s.download(&id, None), Err(ApiError::NotFound));
}

#[test]
fn wall_clock_entry_points_drive_the_same_lifecycle() {
    let mut s = ServerState::new(1);
    let r = s.submit(
        String::from("t1"),
        String::from("job"),
        GOOD.as_bytes(),
        b"10",
    );
    assert!(r.is_ok());
    assert_eq!(s.claim_next(), Some(String::from("t1")));
    assert!(s.finish(&String::from("t1"), ExecOutcome::Success));
    assert_eq!(s.store.records[0].status, TaskStatus::Completed);
    assert!(s.store.records[0].start_time.is_some());
    assert!(s.store.records[0].end_time.is_some());
}
