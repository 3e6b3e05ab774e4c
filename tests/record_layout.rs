use proof_relay::job::{FailReason, JobStatus, Receipt};
use proof_relay::record::JobRecord;
use proof_relay::relay::ingest;
use proof_relay::request::InboundEvent;
use proof_relay::storage::MemoryStorage;

fn record(status: JobStatus) -> JobRecord {
    JobRecord { request_id: [7; 32], status, attempts: 0x01020304, created_at: 5, updated_at: 0x0a0b }
}

#[test]
fn received_record_layout() {
    let bytes = record(JobStatus::Received).encode();
    let mut want = vec![7u8; 32];
    want.push(0);
    want.extend([1, 2, 3, 4]);
    want.extend([0, 0, 0, 0, 0, 0, 0, 5]);
    want.extend([0, 0, 0, 0, 0, 0, 0x0a, 0x0b]);
    assert_eq!(bytes, want);
}

#[test]
fn submitted_record_layout() {
    let bytes = record(JobStatus::Submitted(Some(vec![0xaa, 0xbb, 0xcc]))).encode();
    assert_eq!(&bytes[32..34], &[1, 1]);
    assert_eq!(&bytes[34..42], &[0, 0, 0, 0, 0, 0, 0, 3]);
    assert_eq!(&bytes[42..45], &[0xaa, 0xbb, 0xcc]);
    assert_eq!(bytes.len(), 32 + 2 + 8 + 3 + 20);
    let owed = record(JobStatus::Submitted(None)).encode();
    assert_eq!(&owed[32..34], &[1, 0]);
    assert_eq!(owed.len(), 32 + 2 + 20);
}

#[test]
fn failed_record_layout() {
    let bytes = record(JobStatus::Failed(FailReason::DeliveryFailure)).encode();
    assert_eq!(&bytes[32..34], &[4, 2]);
}

#[test]
fn every_status_round_trips() {
    let statuses = vec![
        JobStatus::Received,
        JobStatus::Submitted(Some(vec![1, 2])),
        JobStatus::Submitted(None),
        JobStatus::Polling(vec![]),
        JobStatus::Completed(Receipt { journal: vec![3, 4, 5], seal: vec![6] }),
        JobStatus::Failed(FailReason::Rejected),
        JobStatus::Failed(FailReason::AttemptsExceeded),
        JobStatus::Delivered(vec![0xff; 32]),
    ];
    for st in statuses {
        let r = record(st);
        let back = JobRecord::decode(&r.encode()).expect("decodes");
        assert_eq!(back.request_id, r.request_id);
        assert_eq!(back.status, r.status);
        assert_eq!(back.attempts, r.attempts);
        assert_eq!(back.created_at, r.created_at);
        assert_eq!(back.updated_at, r.updated_at);
    }
}

#[test]
fn stored_job_round_trips() {
    let mut s = MemoryStorage::new();
    let ev = InboundEvent {
        account: [1; 20],
        image_id: [2; 32],
        input: vec![],
        callback_contract: [3; 20],
        function_selector: [4; 4],
        gas_limit: 9,
    };
    let id = ingest(&mut s, ev, 77).request_id();
    let job = s.get(&id).unwrap();
    let back = JobRecord::decode(&JobRecord::of_job(&job).encode()).unwrap();
    assert_eq!(back.request_id, id);
    assert_eq!(back.status, JobStatus::Received);
    assert_eq!(back.created_at, 77);
}

#[test]
fn malformed_records_are_refused() {
    let good = record(JobStatus::Delivered(vec![1, 2, 3])).encode();
    assert!(JobRecord::decode(&good[..good.len() - 1]).is_none());
    let mut longer = good.clone();
    longer.push(0);
    assert!(JobRecord::decode(&longer).is_none());
    let mut bad_tag = good.clone();
    bad_tag[32] = 6;
    assert!(JobRecord::decode(&bad_tag).is_none());
    let mut bad_reason = record(JobStatus::Failed(FailReason::Rejected)).encode();
    bad_reason[33] = 3;
    assert!(JobRecord::decode(&bad_reason).is_none());
    let mut bad_presence = record(JobStatus::Submitted(None)).encode();
    bad_presence[33] = 2;
    assert!(JobRecord::decode(&bad_presence).is_none());
    let mut huge = good.clone();
    huge[33] = 0xff;
    assert!(JobRecord::decode(&huge).is_none());
    assert!(JobRecord::decode(&[]).is_none());
    assert!(JobRecord::decode(&good[..33]).is_none());
}
