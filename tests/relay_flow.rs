use proof_relay::job::{FailReason, JobStatus, Outcome, Receipt};
use proof_relay::relay::{ingest, record_outcome, submit_api_request, Ingested, StepResult};
use proof_relay::request::{ApiCallbackRequest, CallbackRequest, InboundEvent};
use proof_relay::storage::{CasOutcome, CreateOutcome, MemoryStorage, StatusKind};
use proof_relay::job::ProofJob;

const LIMIT: u32 = 3;

fn image(n: u8) -> [u8; 32] {
    let mut id = [0u8; 32];
    id[31] = n;
    id
}

fn event(image_id: u8, input: Vec<u8>) -> InboundEvent {
    InboundEvent {
        account: [0x11; 20],
        image_id: image(image_id),
        input,
        callback_contract: [0x22; 20],
        function_selector: [0xde, 0xad, 0xbe, 0xef],
        gas_limit: 100_000,
    }
}

fn receipt() -> Receipt {
    Receipt { journal: vec![1, 2, 3], seal: vec![9, 9] }
}

fn status_of(s: &MemoryStorage, id: &[u8; 32]) -> JobStatus {
    s.get(id).expect("job stored").status
}

/// Records an outcome against the job's stored status and attempts.
fn step(s: &mut MemoryStorage, id: &[u8; 32], o: Outcome, now: u64) -> StepResult {
    let job = s.get(id).expect("job stored");
    record_outcome(s, id, &job.status, job.attempts, o, LIMIT, now)
}

#[test]
fn happy_path_goes_through_every_status() {
    let mut s = MemoryStorage::new();
    let id = match ingest(&mut s, event(42, vec![]), 10) {
        Ingested::Created(id) => id,
        Ingested::Duplicate(_) => panic!("fresh event reported as duplicate"),
    };
    let handle = b"session-1".to_vec();
    let mut seen = vec![status_of(&s, &id)];
    assert!(matches!(step(&mut s, &id, Outcome::SubmitAccepted(handle.clone()), 11), StepResult::Persisted(None, _)));
    seen.push(status_of(&s, &id));
    assert!(matches!(step(&mut s, &id, Outcome::PollPending, 12), StepResult::Persisted(None, _)));
    seen.push(status_of(&s, &id));
    assert!(matches!(step(&mut s, &id, Outcome::PollPending, 13), StepResult::Persisted(None, _)));
    seen.push(status_of(&s, &id));
    assert!(matches!(step(&mut s, &id, Outcome::PollComplete(receipt()), 14), StepResult::Persisted(None, _)));
    seen.push(status_of(&s, &id));
    assert!(matches!(step(&mut s, &id, Outcome::DeliverOk(vec![0xab; 32]), 15), StepResult::Persisted(None, _)));
    seen.push(status_of(&s, &id));
    assert_eq!(
        seen,
        vec![
            JobStatus::Received,
            JobStatus::Submitted(Some(handle.clone())),
            JobStatus::Polling(handle.clone()),
            JobStatus::Polling(handle),
            JobStatus::Completed(receipt()),
            JobStatus::Delivered(vec![0xab; 32]),
        ]
    );
    let job = s.get(&id).unwrap();
    match &job.status {
        JobStatus::Delivered(tx) => assert!(!tx.is_empty()),
        other => panic!("not delivered: {:?}", other),
    }
    assert_eq!(job.created_at, 10);
    assert_eq!(job.updated_at, 15);
    assert_eq!(job.request.image_id, image(42));
    assert!(job.request.input.is_empty());
}

#[test]
fn rejected_submission_fails_without_polling() {
    let mut s = MemoryStorage::new();
    let id = ingest(&mut s, event(7, vec![5]), 1).request_id();
    let r = step(&mut s, &id, Outcome::Rejected, 2);
    match r {
        StepResult::Persisted(passed, t) => {
            let passed = passed.expect("passes Submitted");
            assert_eq!(passed.status, JobStatus::Submitted(None));
            assert_eq!(t.status, JobStatus::Failed(FailReason::Rejected));
            assert_eq!(t.attempts, 0);
        }
        _ => panic!("rejection not persisted"),
    }
    assert_eq!(status_of(&s, &id), JobStatus::Failed(FailReason::Rejected));
    assert_eq!(s.get(&id).unwrap().attempts, 0);
    assert!(s.list_by_status(StatusKind::Polling).is_empty());
    assert!(s.list_unfinished().is_empty());
    // nothing moves a failed job
    assert!(matches!(step(&mut s, &id, Outcome::PollPending, 3), StepResult::Unanswered));
}

#[test]
fn poll_answer_from_submitted_passes_polling() {
    let mut s = MemoryStorage::new();
    let id = ingest(&mut s, event(2, vec![0xff]), 1).request_id();
    step(&mut s, &id, Outcome::SubmitAccepted(b"r2".to_vec()), 2);
    match step(&mut s, &id, Outcome::PollComplete(receipt()), 3) {
        StepResult::Persisted(passed, t) => {
            assert_eq!(passed.unwrap().status, JobStatus::Polling(b"r2".to_vec()));
            assert_eq!(t.status, JobStatus::Completed(receipt()));
        }
        _ => panic!("answer not persisted"),
    }
    assert_eq!(status_of(&s, &id), JobStatus::Completed(receipt()));
}

#[test]
fn pending_poll_from_submitted_records_polling_once() {
    let mut s = MemoryStorage::new();
    let id = ingest(&mut s, event(2, vec![1]), 1).request_id();
    step(&mut s, &id, Outcome::SubmitAccepted(vec![4]), 2);
    match step(&mut s, &id, Outcome::PollPending, 3) {
        StepResult::Persisted(passed, t) => {
            assert!(passed.is_none());
            assert_eq!(t.status, JobStatus::Polling(vec![4]));
        }
        _ => panic!("pending not persisted"),
    }
}

#[test]
fn identical_events_create_one_job_and_one_delivery() {
    let mut s = MemoryStorage::new();
    let first = ingest(&mut s, event(1, vec![1, 2]), 1);
    let second = ingest(&mut s, event(1, vec![1, 2]), 2);
    assert!(matches!(first, Ingested::Created(_)));
    assert!(matches!(second, Ingested::Duplicate(_)));
    assert_eq!(first.request_id(), second.request_id());
    assert_eq!(s.len(), 1);
    let id = first.request_id();
    assert_eq!(s.get(&id).unwrap().created_at, 1);

    // two workers both saw `Received`; only the first transition lands
    let a = record_outcome(&mut s, &id, &JobStatus::Received, 0, Outcome::SubmitAccepted(b"a".to_vec()), LIMIT, 3);
    let b = record_outcome(&mut s, &id, &JobStatus::Received, 0, Outcome::SubmitAccepted(b"b".to_vec()), LIMIT, 4);
    assert!(matches!(a, StepResult::Persisted(None, _)));
    match b {
        StepResult::Lost(cur) => assert_eq!(cur, JobStatus::Submitted(Some(b"a".to_vec()))),
        _ => panic!("second worker was not refused"),
    }
    step(&mut s, &id, Outcome::PollComplete(receipt()), 5);
    step(&mut s, &id, Outcome::DeliverOk(vec![7]), 6);
    assert_eq!(s.list_by_status(StatusKind::Delivered), vec![id]);
    // a replayed delivery finds nothing to do
    assert!(matches!(step(&mut s, &id, Outcome::DeliverOk(vec![8]), 7), StepResult::Unanswered));
    assert_eq!(s.list_by_status(StatusKind::Delivered), vec![id]);
}

#[test]
fn distinct_events_get_distinct_jobs() {
    let mut s = MemoryStorage::new();
    let a = ingest(&mut s, event(1, vec![1]), 1);
    let b = ingest(&mut s, event(1, vec![2]), 1);
    assert!(matches!(a, Ingested::Created(_)));
    assert!(matches!(b, Ingested::Created(_)));
    assert_ne!(a.request_id(), b.request_id());
    assert_eq!(s.len(), 2);
}

#[test]
fn transient_submit_failures_stop_at_the_ceiling() {
    let mut s = MemoryStorage::new();
    let id = ingest(&mut s, event(3, vec![]), 0).request_id();
    for n in 1..LIMIT {
        step(&mut s, &id, Outcome::Transient, n as u64);
        assert_eq!(status_of(&s, &id), JobStatus::Submitted(None));
        assert!(matches!(s.get(&id).unwrap().status.next_action(), proof_relay::job::Action::Submit));
        assert_eq!(s.get(&id).unwrap().attempts, n);
    }
    step(&mut s, &id, Outcome::Transient, 9);
    assert_eq!(status_of(&s, &id), JobStatus::Failed(FailReason::AttemptsExceeded));
    assert_eq!(s.get(&id).unwrap().attempts, LIMIT);
    assert!(matches!(step(&mut s, &id, Outcome::Transient, 10), StepResult::Unanswered));
}

#[test]
fn transient_poll_failures_resubmit_then_stop() {
    let mut s = MemoryStorage::new();
    let id = ingest(&mut s, event(4, vec![]), 0).request_id();
    let h = b"h".to_vec();
    step(&mut s, &id, Outcome::SubmitAccepted(h), 1);
    step(&mut s, &id, Outcome::PollPending, 2);
    step(&mut s, &id, Outcome::Transient, 3);
    // a transient poll failure leads to a fresh submission
    assert_eq!(status_of(&s, &id), JobStatus::Submitted(None));
    assert_eq!(s.get(&id).unwrap().attempts, 1);
    step(&mut s, &id, Outcome::Transient, 4);
    assert_eq!(status_of(&s, &id), JobStatus::Submitted(None));
    step(&mut s, &id, Outcome::Transient, 5);
    assert_eq!(status_of(&s, &id), JobStatus::Failed(FailReason::AttemptsExceeded));
}

#[test]
fn delivery_failures_retry_then_stop() {
    let mut s = MemoryStorage::new();
    let id = ingest(&mut s, event(5, vec![]), 0).request_id();
    step(&mut s, &id, Outcome::SubmitAccepted(vec![1]), 1);
    step(&mut s, &id, Outcome::PollComplete(receipt()), 2);
    assert_eq!(s.get(&id).unwrap().attempts, 0);
    step(&mut s, &id, Outcome::DeliverError, 3);
    assert_eq!(status_of(&s, &id), JobStatus::Completed(receipt()));
    step(&mut s, &id, Outcome::DeliverError, 4);
    step(&mut s, &id, Outcome::DeliverError, 5);
    assert_eq!(status_of(&s, &id), JobStatus::Failed(FailReason::DeliveryFailure));
}

#[test]
fn delivery_needs_a_transaction_hash() {
    let mut s = MemoryStorage::new();
    let id = ingest(&mut s, event(6, vec![]), 0).request_id();
    step(&mut s, &id, Outcome::SubmitAccepted(vec![1]), 1);
    step(&mut s, &id, Outcome::PollComplete(receipt()), 2);
    assert!(matches!(step(&mut s, &id, Outcome::DeliverOk(vec![]), 3), StepResult::Unanswered));
    assert_eq!(status_of(&s, &id), JobStatus::Completed(receipt()));
}

#[test]
fn outcome_for_unknown_job_is_missing() {
    let mut s = MemoryStorage::new();
    let r = record_outcome(&mut s, &[9u8; 32], &JobStatus::Received, 0, Outcome::Rejected, LIMIT, 1);
    assert!(matches!(r, StepResult::Missing));
    assert_eq!(s.len(), 0);
}

#[test]
fn stale_compare_and_set_conflicts() {
    let mut s = MemoryStorage::new();
    let id = ingest(&mut s, event(8, vec![]), 0).request_id();
    let first = s.compare_and_set_status(&id, &JobStatus::Received, JobStatus::Submitted(Some(vec![1])), 0, 1);
    assert!(matches!(first, CasOutcome::Applied));
    let again = s.compare_and_set_status(&id, &JobStatus::Received, JobStatus::Submitted(Some(vec![2])), 0, 2);
    match again {
        CasOutcome::Conflict(cur) => assert_eq!(cur, JobStatus::Submitted(Some(vec![1]))),
        _ => panic!("stale compare-and-set applied"),
    }
    assert_eq!(s.get(&id).unwrap().updated_at, 1);
    let missing = s.compare_and_set_status(&[0u8; 32], &JobStatus::Received, JobStatus::Received, 0, 3);
    assert!(matches!(missing, CasOutcome::NotFound));
}

#[test]
fn create_if_absent_returns_the_existing_job() {
    let mut s = MemoryStorage::new();
    let req = CallbackRequest::from_event(event(2, vec![3]));
    let dup = req.duplicate();
    assert!(matches!(s.create_if_absent(ProofJob::received(req, 5)), CreateOutcome::Created));
    match s.create_if_absent(ProofJob::received(dup, 6)) {
        CreateOutcome::AlreadyExists(e) => {
            assert_eq!(e.created_at, 5);
            assert_eq!(e.status, JobStatus::Received);
        }
        CreateOutcome::Created => panic!("duplicate created"),
    }
    assert_eq!(s.len(), 1);
}

#[test]
fn restart_resumes_unfinished_jobs_only() {
    let mut s = MemoryStorage::new();
    let a = ingest(&mut s, event(1, vec![]), 0).request_id();
    let b = ingest(&mut s, event(2, vec![]), 0).request_id();
    let c = ingest(&mut s, event(3, vec![]), 0).request_id();
    step(&mut s, &a, Outcome::SubmitAccepted(vec![1]), 1);
    step(&mut s, &b, Outcome::Rejected, 1);
    step(&mut s, &c, Outcome::SubmitAccepted(vec![3]), 1);
    step(&mut s, &c, Outcome::PollComplete(receipt()), 2);
    step(&mut s, &c, Outcome::DeliverOk(vec![4]), 3);
    assert_eq!(s.list_unfinished(), vec![a]);
    assert_eq!(s.list_by_status(StatusKind::Submitted), vec![a]);
    assert_eq!(s.list_by_status(StatusKind::Failed), vec![b]);
    // the resumed job continues from its stored status
    assert!(matches!(s.get(&a).unwrap().status.next_action(), proof_relay::job::Action::Poll(h) if h == vec![1]));
    assert!(matches!(s.get(&c).unwrap().status.next_action(), proof_relay::job::Action::Idle));
}

#[test]
fn api_submission_keeps_its_account() {
    let mut s = MemoryStorage::new();
    let req = ApiCallbackRequest {
        account: [0x44; 20],
        callback_contract: [0x33; 20],
        function_selector: [1, 2, 3, 4],
        gas_limit: 50_000,
        image_id: image(9),
        input: vec![1],
    };
    let id = submit_api_request(&mut s, req, 4).request_id();
    let job = s.get(&id).unwrap();
    assert_eq!(job.request.account, [0x44; 20]);
    assert_eq!(job.request.callback_contract, [0x33; 20]);
    assert_eq!(job.request.gas_limit, 50_000);
}
