use proof_relay::input::InputBuilder;
use proof_relay::request::{CallbackRequest, InboundEvent};
use proof_relay::job::Outcome;
use proof_relay::retry::{backoff_delay, pause_after, Pacing};

fn sample() -> InboundEvent {
    InboundEvent {
        account: [1; 20],
        image_id: [2; 32],
        input: vec![0xaa, 0xbb],
        callback_contract: [3; 20],
        function_selector: [4, 5, 6, 7],
        gas_limit: 0x0102_0304_0506_0708,
    }
}

#[test]
fn event_encoding_layout() {
    let bytes = sample().encode();
    let mut want = vec![1u8; 20];
    want.extend([2u8; 32]);
    want.extend([0, 0, 0, 0, 0, 0, 0, 2]);
    want.extend([0xaa, 0xbb]);
    want.extend([3u8; 20]);
    want.extend([4, 5, 6, 7]);
    want.extend([1, 2, 3, 4, 5, 6, 7, 8]);
    assert_eq!(bytes, want);
}

#[test]
fn request_id_is_keccak_of_encoding() {
    let bytes = sample().encode();
    let req = CallbackRequest::from_event(sample());
    assert_eq!(req.request_id, alloy_primitives::keccak256(&bytes).0);
    assert_ne!(req.request_id[..], bytes[..32]);
    // keccak256 of the empty string
    let empty = alloy_primitives::keccak256([]).0;
    assert_eq!(empty[0], 0xc5);
    assert_eq!(empty[31], 0x70);
}

#[test]
fn input_builder_empty() {
    let b = InputBuilder::new();
    assert_eq!(b.len_words(), 0);
    assert!(b.bytes().is_empty());
}

#[test]
fn input_builder_bytes_follow_words() {
    let b = InputBuilder::new().write(&[1, 0x0a0b0c0d]).write(&[7]);
    assert_eq!(b.len_words(), 3);
    let bytes = b.bytes();
    let mut want = Vec::new();
    for w in [1u32, 0x0a0b0c0d, 7] {
        want.extend(w.to_ne_bytes());
    }
    assert_eq!(bytes, want);
}

#[test]
fn backoff_doubles_up_to_cap() {
    assert_eq!(backoff_delay(0, 100, 1000), 100);
    assert_eq!(backoff_delay(1, 100, 1000), 200);
    assert_eq!(backoff_delay(3, 100, 1000), 800);
    assert_eq!(backoff_delay(4, 100, 1000), 1000);
    assert_eq!(backoff_delay(0, 5000, 1000), 1000);
    assert_eq!(backoff_delay(63, 1, u64::MAX), 1u64 << 63);
    assert_eq!(backoff_delay(64, 1, u64::MAX), u64::MAX);
    assert_eq!(backoff_delay(u32::MAX, 1, 10), 10);
    assert_eq!(backoff_delay(5, 0, 10), 0);
}

#[test]
fn pacing_backs_off_failures_and_polls() {
    let p = Pacing { retry_base: 200, poll_base: 1000, cap: 30_000 };
    assert_eq!(pause_after(&p, &Outcome::Transient, 0, 5), (200, 0));
    assert_eq!(pause_after(&p, &Outcome::Transient, 2, 0), (800, 0));
    assert_eq!(pause_after(&p, &Outcome::DeliverError, 10, 0), (30_000, 0));
    assert_eq!(pause_after(&p, &Outcome::PollPending, 0, 0), (1000, 1));
    assert_eq!(pause_after(&p, &Outcome::PollPending, 0, 1), (2000, 2));
    assert_eq!(pause_after(&p, &Outcome::PollPending, 0, 5), (30_000, 6));
    assert_eq!(pause_after(&p, &Outcome::PollPending, 0, u32::MAX), (30_000, u32::MAX));
    assert_eq!(pause_after(&p, &Outcome::SubmitAccepted(vec![1]), 0, 3), (0, 0));
}

#[test]
fn input_bytes_keep_one_byte_order() {
    let bytes = InputBuilder::new().write(&[0x01020304, 0x0a0b0c0d]).bytes();
    let le = vec![4, 3, 2, 1, 0x0d, 0x0c, 0x0b, 0x0a];
    let be = vec![1, 2, 3, 4, 0x0a, 0x0b, 0x0c, 0x0d];
    assert!(bytes == le || bytes == be);
    assert_ne!(bytes, vec![0u8; 8]);
}
