use proof_relay::job::{FailReason, JobStatus};
use proof_relay::job::Outcome;
use proof_relay::notifier::Notifier;
use proof_relay::relay::{ingest, record_and_notify, StepResult};
use proof_relay::request::InboundEvent;
use proof_relay::storage::MemoryStorage;

#[test]
fn listeners_are_woken_on_terminal_status() {
    let mut n = Notifier::new();
    let id = [1u8; 32];
    assert!(n.register(&id, 10).is_none());
    assert!(n.register(&id, 11).is_none());
    assert!(n.register(&[2u8; 32], 12).is_none());
    let woken = n.broadcast(&id, &JobStatus::Delivered(vec![5]));
    assert_eq!(woken, vec![10, 11]);
}

#[test]
fn late_listener_sees_outcome_at_once() {
    let mut n = Notifier::new();
    let id = [3u8; 32];
    assert!(n.broadcast(&id, &JobStatus::Failed(FailReason::Rejected)).is_empty());
    assert_eq!(n.register(&id, 1), Some(JobStatus::Failed(FailReason::Rejected)));
    // the first terminal status is kept
    assert!(n.broadcast(&id, &JobStatus::Delivered(vec![1])).is_empty());
    assert_eq!(n.register(&id, 2), Some(JobStatus::Failed(FailReason::Rejected)));
}

#[test]
fn worker_step_announces_terminal_status_only() {
    let mut s = MemoryStorage::new();
    let mut n = Notifier::new();
    let ev = InboundEvent {
        account: [1; 20],
        image_id: [2; 32],
        input: vec![],
        callback_contract: [3; 20],
        function_selector: [4; 4],
        gas_limit: 1,
    };
    let id = ingest(&mut s, ev, 0).request_id();
    assert!(n.register(&id, 42).is_none());
    let (r, woken) = record_and_notify(&mut s, &mut n, &id, &JobStatus::Received, 0,
        Outcome::SubmitAccepted(vec![1]), 3, 1);
    assert!(matches!(r, StepResult::Persisted(_, _)));
    assert!(woken.is_empty());
    let (r, woken) = record_and_notify(&mut s, &mut n, &id, &JobStatus::Submitted(Some(vec![1])), 0,
        Outcome::PollPending, 3, 2);
    assert!(matches!(r, StepResult::Persisted(_, _)));
    assert!(woken.is_empty());
    let (r, woken) = record_and_notify(&mut s, &mut n, &id, &JobStatus::Polling(vec![1]), 0,
        Outcome::Rejected, 3, 3);
    assert!(matches!(r, StepResult::Persisted(_, _)));
    assert_eq!(woken, vec![42]);
    assert_eq!(n.register(&id, 43), Some(JobStatus::Failed(FailReason::Rejected)));
}
