use vstd::prelude::*;
use crate::job::{copy_status, FailReason, JobStatus, ProofJob, Receipt, Status};
use crate::request::{be_bytes, push_all, push_be_bytes};

verus! {

/// The persisted part of a job: identifier, status, attempts, timestamps.
pub struct JobRecord {
    pub request_id: [u8; 32],
    pub status: JobStatus,
    pub attempts: u32,
    pub created_at: u64,
    pub updated_at: u64,
}

/// The value of a persisted record.
pub struct RecordView {
    pub request_id: Seq<u8>,
    pub status: Status,
    pub attempts: u32,
    pub created_at: u64,
    pub updated_at: u64,
}

impl View for JobRecord {
    type V = RecordView;

    open spec fn view(&self) -> RecordView {
        RecordView {
            request_id: self.request_id@,
            status: self.status@,
            attempts: self.attempts,
            created_at: self.created_at,
            updated_at: self.updated_at,
        }
    }
}

/// Big-endian bytes of a 32-bit integer.
pub open spec fn be_bytes32(x: u32) -> Seq<u8> {
    seq![(x >> 24u32) as u8, (x >> 16u32) as u8, (x >> 8u32) as u8, x as u8]
}

/// The 64-bit integer whose big-endian bytes are the eight at `p`.
#[verifier::opaque]
pub open spec fn be_u64_at(b: Seq<u8>, p: int) -> u64 {
    (b[p] as u64) << 56u64 | (b[p + 1] as u64) << 48u64 | (b[p + 2] as u64) << 40u64 | (b[p + 3] as u64)
        << 32u64 | (b[p + 4] as u64) << 24u64 | (b[p + 5] as u64) << 16u64 | (b[p + 6] as u64) << 8u64
        | (b[p + 7] as u64)
}

/// The 32-bit integer whose big-endian bytes are the four at `p`.
#[verifier::opaque]
pub open spec fn be_u32_at(b: Seq<u8>, p: int) -> u32 {
    (b[p] as u32) << 24u32 | (b[p + 1] as u32) << 16u32 | (b[p + 2] as u32) << 8u32 | (b[p + 3] as u32)
}

/// A byte string prefixed by its length.
pub open spec fn field(d: Seq<u8>) -> Seq<u8> {
    be_bytes(d.len() as u64) + d
}

/// The tag of a status variant.
pub open spec fn status_tag(s: Status) -> u8 {
    match s {
        Status::Received => 0,
        Status::Submitted(_) => 1,
        Status::Polling(_) => 2,
        Status::Completed(_, _) => 3,
        Status::Failed(_) => 4,
        Status::Delivered(_) => 5,
    }
}

/// The code of a failure reason.
pub open spec fn reason_code(f: FailReason) -> u8 {
    match f {
        FailReason::Rejected => 0,
        FailReason::AttemptsExceeded => 1,
        FailReason::DeliveryFailure => 2,
    }
}

/// The bytes that follow a status's tag.
pub open spec fn status_payload(s: Status) -> Seq<u8> {
    match s {
        Status::Received => Seq::empty(),
        Status::Submitted(None) => seq![0u8],
        Status::Submitted(Some(h)) => seq![1u8] + field(h),
        Status::Polling(h) => field(h),
        Status::Completed(j, sl) => field(j) + field(sl),
        Status::Failed(f) => seq![reason_code(f)],
        Status::Delivered(tx) => field(tx),
    }
}

/// The stored layout of a record: identifier, status tag, status payload,
/// attempts, creation time, update time; integers big-endian, byte strings
/// prefixed by their 64-bit length, an optional handle by a byte that says
/// whether it is there.
pub open spec fn record_bytes(r: RecordView) -> Seq<u8> {
    r.request_id + seq![status_tag(r.status)] + status_payload(r.status) + be_bytes32(r.attempts)
        + be_bytes(r.created_at) + be_bytes(r.updated_at)
}

/// The length-prefixed byte string at `p`, and the position after it.
#[verifier::opaque]
pub open spec fn parse_field(b: Seq<u8>, p: int) -> Option<(Seq<u8>, int)> {
    if 0 <= p && p + 8 <= b.len() && be_u64_at(b, p) <= b.len() - (p + 8) {
        let e = p + 8 + be_u64_at(b, p);
        Some((b.subrange(p + 8, e), e))
    } else {
        None
    }
}

/// The status with tag `tag` whose payload starts at `p`, and the position
/// after it.
pub open spec fn parse_status(tag: u8, b: Seq<u8>, p: int) -> Option<(Status, int)> {
    if tag == 0 {
        Some((Status::Received, p))
    } else if tag == 1 && 0 <= p < b.len() && b[p] == 0 {
        Some((Status::Submitted(None), p + 1))
    } else if tag == 1 && 0 <= p < b.len() && b[p] == 1 {
        match parse_field(b, p + 1) {
            Some((d, e)) => Some((Status::Submitted(Some(d)), e)),
            None => None,
        }
    } else if tag == 2 || tag == 5 {
        match parse_field(b, p) {
            Some((d, e)) => Some((if tag == 2 {
                Status::Polling(d)
            } else {
                Status::Delivered(d)
            }, e)),
            None => None,
        }
    } else if tag == 3 {
        match parse_field(b, p) {
            Some((j, e1)) => match parse_field(b, e1) {
                Some((sl, e2)) => Some((Status::Completed(j, sl), e2)),
                None => None,
            },
            None => None,
        }
    } else if tag == 4 && 0 <= p < b.len() && b[p] <= 2 {
        Some(
            (
                Status::Failed(
                    if b[p] == 0 {
                        FailReason::Rejected
                    } else if b[p] == 1 {
                        FailReason::AttemptsExceeded
                    } else {
                        FailReason::DeliveryFailure
                    },
                ),
                p + 1,
            ),
        )
    } else {
        None
    }
}

/// The record that bytes `b` hold, if they hold one and nothing more.
pub open spec fn parse_record(b: Seq<u8>) -> Option<RecordView> {
    if b.len() < 33 {
        None
    } else {
        match parse_status(b[32], b, 33) {
            Some((st, p)) => if p + 20 == b.len() {
                Some(
                    RecordView {
                        request_id: b.subrange(0, 32),
                        status: st,
                        attempts: be_u32_at(b, p),
                        created_at: be_u64_at(b, p + 4),
                        updated_at: be_u64_at(b, p + 12),
                    },
                )
            } else {
                None
            },
            None => None,
        }
    }
}

fn push_be32(out: &mut Vec<u8>, x: u32)
    ensures
        final(out)@ == old(out)@ + be_bytes32(x),
{
    out.push((x >> 24u32) as u8);
    out.push((x >> 16u32) as u8);
    out.push((x >> 8u32) as u8);
    out.push(x as u8);
    assert(out@ =~= old(out)@ + be_bytes32(x));
}

fn push_field(out: &mut Vec<u8>, d: &Vec<u8>)
    ensures
        final(out)@ == old(out)@ + field(d@),
{
    push_be_bytes(out, d.len() as u64);
    push_all(out, d.as_slice());
    assert(out@ =~= old(out)@ + field(d@));
}

fn read_u64(b: &[u8], p: usize) -> (r: u64)
    requires
        p + 8 <= b@.len(),
    ensures
        r == be_u64_at(b@, p as int),
{
    reveal(be_u64_at);
    (b[p] as u64) << 56u64 | (b[p + 1] as u64) << 48u64 | (b[p + 2] as u64) << 40u64 | (b[p + 3] as u64)
        << 32u64 | (b[p + 4] as u64) << 24u64 | (b[p + 5] as u64) << 16u64 | (b[p + 6] as u64) << 8u64
        | (b[p + 7] as u64)
}

fn read_u32(b: &[u8], p: usize) -> (r: u32)
    requires
        p + 4 <= b@.len(),
    ensures
        r == be_u32_at(b@, p as int),
{
    reveal(be_u32_at);
    (b[p] as u32) << 24u32 | (b[p + 1] as u32) << 16u32 | (b[p + 2] as u32) << 8u32 | (b[p + 3] as u32)
}

fn copy_range(b: &[u8], start: usize, end: usize) -> (r: Vec<u8>)
    requires
        start <= end <= b@.len(),
    ensures
        r@ == b@.subrange(start as int, end as int),
{
    let mut r: Vec<u8> = Vec::new();
    let mut i: usize = start;
    while i < end
        invariant
            start <= i <= end,
            end <= b@.len(),
            r@ == b@.subrange(start as int, i as int),
        decreases end - i,
    {
        r.push(b[i]);
        i = i + 1;
        assert(r@ =~= b@.subrange(start as int, i as int));
    }
    r
}

fn read_field(b: &[u8], p: usize) -> (r: Option<(Vec<u8>, usize)>)
    ensures
        match parse_field(b@, p as int) {
            Some(f) => r matches Some(x) && x.0@ == f.0 && x.1 == f.1,
            None => r is None,
        },
{
    reveal(parse_field);
    if p > b.len() || b.len() - p < 8 {
        return None;
    }
    let n = read_u64(b, p);
    if n > (b.len() - (p + 8)) as u64 {
        return None;
    }
    let e = p + 8 + n as usize;
    Some((copy_range(b, p + 8, e), e))
}

fn read_status(tag: u8, b: &[u8], p: usize) -> (r: Option<(JobStatus, usize)>)
    ensures
        match parse_status(tag, b@, p as int) {
            Some(f) => r matches Some(x) && x.0@ == f.0 && x.1 == f.1,
            None => r is None,
        },
{
    if tag == 0 {
        Some((JobStatus::Received, p))
    } else if tag == 1 && p < b.len() && b[p] == 0 {
        Some((JobStatus::Submitted(None), p + 1))
    } else if tag == 1 && p < b.len() && b[p] == 1 {
        match read_field(b, p + 1) {
            Some((d, e)) => Some((JobStatus::Submitted(Some(d)), e)),
            None => None,
        }
    } else if tag == 2 || tag == 5 {
        match read_field(b, p) {
            Some((d, e)) => {
                let st = if tag == 2 {
                    JobStatus::Polling(d)
                } else {
                    JobStatus::Delivered(d)
                };
                Some((st, e))
            },
            None => None,
        }
    } else if tag == 3 {
        match read_field(b, p) {
            Some((journal, e1)) => match read_field(b, e1) {
                Some((seal, e2)) => Some((JobStatus::Completed(Receipt { journal, seal }), e2)),
                None => None,
            },
            None => None,
        }
    } else if tag == 4 && p < b.len() && b[p] <= 2 {
        let f = if b[p] == 0 {
            FailReason::Rejected
        } else if b[p] == 1 {
            FailReason::AttemptsExceeded
        } else {
            FailReason::DeliveryFailure
        };
        Some((JobStatus::Failed(f), p + 1))
    } else {
        None
    }
}

impl JobRecord {
    /// The persisted part of a job.
    pub fn of_job(job: &ProofJob) -> (r: JobRecord)
        ensures
            r.request_id == job.request.request_id,
            r.status@ == job.status@,
            r.attempts == job.attempts,
            r.created_at == job.created_at,
            r.updated_at == job.updated_at,
    {
        JobRecord {
            request_id: job.request.request_id,
            status: copy_status(&job.status),
            attempts: job.attempts,
            created_at: job.created_at,
            updated_at: job.updated_at,
        }
    }

    /// The stored layout of the record.
    pub fn encode(&self) -> (r: Vec<u8>)
        ensures
            r@ == record_bytes(self@),
    {
        let mut out: Vec<u8> = Vec::new();
        push_all(&mut out, self.request_id.as_slice());
        let ghost head = out@;
        match &self.status {
            JobStatus::Received => {
                out.push(0u8);
            },
            JobStatus::Submitted(None) => {
                out.push(1u8);
                out.push(0u8);
            },
            JobStatus::Submitted(Some(h)) => {
                out.push(1u8);
                out.push(1u8);
                push_field(&mut out, h);
            },
            JobStatus::Polling(h) => {
                out.push(2u8);
                push_field(&mut out, h);
            },
            JobStatus::Completed(rc) => {
                out.push(3u8);
                push_field(&mut out, &rc.journal);
                push_field(&mut out, &rc.seal);
            },
            JobStatus::Failed(f) => {
                out.push(4u8);
                let code: u8 = match f {
                    FailReason::Rejected => 0,
                    FailReason::AttemptsExceeded => 1,
                    FailReason::DeliveryFailure => 2,
                };
                out.push(code);
            },
            JobStatus::Delivered(tx) => {
                out.push(5u8);
                push_field(&mut out, tx);
            },
        }
        assert(out@ =~= head + seq![status_tag(self.status@)] + status_payload(self.status@));
        push_be32(&mut out, self.attempts);
        push_be_bytes(&mut out, self.created_at);
        push_be_bytes(&mut out, self.updated_at);
        assert(out@ =~= record_bytes(self@));
        out
    }

    /// The record that `b` holds; `None` unless `b` is exactly the stored
    /// layout of one.
    pub fn decode(b: &[u8]) -> (r: Option<JobRecord>)
        ensures
            match parse_record(b@) {
                Some(v) => r matches Some(x) && x@ == v,
                None => r is None,
            },
    {
        if b.len() < 33 {
            return None;
        }
        match read_status(b[32], b, 33) {
            Some((status, p)) => {
                if p <= b.len() && b.len() - p == 20 {
                    let mut request_id = [0u8; 32];
                    let mut i: usize = 0;
                    while i < 32
                        invariant
                            0 <= i <= 32,
                            32 < b@.len(),
                            forall|k: int| 0 <= k < i ==> request_id@[k] == b@[k],
                        decreases 32 - i,
                    {
                        request_id[i] = b[i];
                        i = i + 1;
                    }
                    assert(request_id@ =~= b@.subrange(0, 32));
                    Some(JobRecord {
                        request_id,
                        status,
                        attempts: read_u32(b, p),
                        created_at: read_u64(b, p + 4),
                        updated_at: read_u64(b, p + 12),
                    })
                } else {
                    None
                }
            },
            None => None,
        }
    }
}

proof fn lemma_be_u64(b: Seq<u8>, p: int, x: u64)
    requires
        0 <= p,
        p + 8 <= b.len(),
        b.subrange(p, p + 8) == be_bytes(x),
    ensures
        be_u64_at(b, p) == x,
{
    reveal(be_u64_at);
    assert(b[p] == b.subrange(p, p + 8)[0]);
    assert(b[p + 1] == b.subrange(p, p + 8)[1]);
    assert(b[p + 2] == b.subrange(p, p + 8)[2]);
    assert(b[p + 3] == b.subrange(p, p + 8)[3]);
    assert(b[p + 4] == b.subrange(p, p + 8)[4]);
    assert(b[p + 5] == b.subrange(p, p + 8)[5]);
    assert(b[p + 6] == b.subrange(p, p + 8)[6]);
    assert(b[p + 7] == b.subrange(p, p + 8)[7]);
    assert(((x >> 56u64) as u8 as u64) << 56u64 | ((x >> 48u64) as u8 as u64) << 48u64 | ((x
        >> 40u64) as u8 as u64) << 40u64 | ((x >> 32u64) as u8 as u64) << 32u64 | ((x >> 24u64) as u8
        as u64) << 24u64 | ((x >> 16u64) as u8 as u64) << 16u64 | ((x >> 8u64) as u8 as u64) << 8u64
        | (x as u8 as u64) == x) by (bit_vector);
}

proof fn lemma_be_u32(b: Seq<u8>, p: int, x: u32)
    requires
        0 <= p,
        p + 4 <= b.len(),
        b.subrange(p, p + 4) == be_bytes32(x),
    ensures
        be_u32_at(b, p) == x,
{
    reveal(be_u32_at);
    assert(b[p] == b.subrange(p, p + 4)[0]);
    assert(b[p + 1] == b.subrange(p, p + 4)[1]);
    assert(b[p + 2] == b.subrange(p, p + 4)[2]);
    assert(b[p + 3] == b.subrange(p, p + 4)[3]);
    assert(((x >> 24u32) as u8 as u32) << 24u32 | ((x >> 16u32) as u8 as u32) << 16u32 | ((x
        >> 8u32) as u8 as u32) << 8u32 | (x as u8 as u32) == x) by (bit_vector);
}

proof fn lemma_parse_field(pre: Seq<u8>, d: Seq<u8>, rest: Seq<u8>)
    requires
        d.len() <= u64::MAX,
    ensures
        parse_field(pre + field(d) + rest, pre.len() as int) == Some(
            (d, (pre.len() + 8 + d.len()) as int),
        ),
{
    reveal(parse_field);
    let b = pre + field(d) + rest;
    let p = pre.len() as int;
    assert(b.subrange(p, p + 8) =~= be_bytes(d.len() as u64));
    lemma_be_u64(b, p, d.len() as u64);
    assert(b.subrange(p + 8, p + 8 + d.len()) =~= d);
}

/// Byte strings short enough for their length to fit in the prefix.
pub open spec fn payload_fits(s: Status) -> bool {
    match s {
        Status::Submitted(Some(h)) => h.len() <= u64::MAX,
        Status::Polling(h) => h.len() <= u64::MAX,
        Status::Completed(j, sl) => j.len() <= u64::MAX && sl.len() <= u64::MAX,
        Status::Delivered(tx) => tx.len() <= u64::MAX,
        _ => true,
    }
}

proof fn lemma_parse_one_field(head: Seq<u8>, s: Status, h: Seq<u8>, tail: Seq<u8>)
    requires
        head.len() == 33,
        s == Status::Polling(h) || s == Status::Delivered(h),
        h.len() <= u64::MAX,
    ensures
        parse_status(status_tag(s), head + field(h) + tail, 33) == Some((s, 33 + field(h).len() as int)),
{
    lemma_parse_field(head, h, tail);
}

proof fn lemma_parse_handle(head: Seq<u8>, h: Seq<u8>, tail: Seq<u8>)
    requires
        head.len() == 33,
        h.len() <= u64::MAX,
    ensures
        parse_status(1, head + (seq![1u8] + field(h)) + tail, 33) == Some(
            (Status::Submitted(Some(h)), 33 + (seq![1u8] + field(h)).len() as int),
        ),
{
    let b = head + (seq![1u8] + field(h)) + tail;
    assert(b[33] == 1);
    assert(b =~= (head + seq![1u8]) + field(h) + tail);
    lemma_parse_field(head + seq![1u8], h, tail);
}

proof fn lemma_parse_two_fields(head: Seq<u8>, j: Seq<u8>, sl: Seq<u8>, tail: Seq<u8>)
    requires
        head.len() == 33,
        j.len() <= u64::MAX,
        sl.len() <= u64::MAX,
    ensures
        parse_status(3, head + (field(j) + field(sl)) + tail, 33) == Some(
            (Status::Completed(j, sl), 33 + (field(j) + field(sl)).len() as int),
        ),
{
    let b = head + (field(j) + field(sl)) + tail;
    assert(b =~= head + field(j) + (field(sl) + tail));
    lemma_parse_field(head, j, field(sl) + tail);
    assert(b =~= (head + field(j)) + field(sl) + tail);
    lemma_parse_field(head + field(j), sl, tail);
}

proof fn lemma_parse_status(head: Seq<u8>, s: Status, tail: Seq<u8>)
    requires
        head.len() == 33,
        payload_fits(s),
    ensures
        parse_status(status_tag(s), head + status_payload(s) + tail, 33) == Some(
            (s, 33 + status_payload(s).len() as int),
        ),
{
    match s {
        Status::Received => {},
        Status::Submitted(None) => {
            assert((head + status_payload(s) + tail)[33] == 0);
        },
        Status::Submitted(Some(h)) => lemma_parse_handle(head, h, tail),
        Status::Polling(h) => lemma_parse_one_field(head, s, h, tail),
        Status::Delivered(h) => lemma_parse_one_field(head, s, h, tail),
        Status::Completed(j, sl) => lemma_parse_two_fields(head, j, sl, tail),
        Status::Failed(f) => {
            assert((head + status_payload(s) + tail)[33] == reason_code(f));
        },
    }
}

proof fn lemma_parse_tail(b: Seq<u8>, p: int, r: RecordView)
    requires
        0 <= p,
        b.len() == p + 20,
        b.subrange(p, p + 20) == be_bytes32(r.attempts) + be_bytes(r.created_at) + be_bytes(r.updated_at),
    ensures
        be_u32_at(b, p) == r.attempts,
        be_u64_at(b, p + 4) == r.created_at,
        be_u64_at(b, p + 12) == r.updated_at,
{
    let t = b.subrange(p, p + 20);
    assert(b.subrange(p, p + 4) =~= t.subrange(0, 4));
    assert(t.subrange(0, 4) =~= be_bytes32(r.attempts));
    lemma_be_u32(b, p, r.attempts);
    assert(b.subrange(p + 4, p + 12) =~= t.subrange(4, 12));
    assert(t.subrange(4, 12) =~= be_bytes(r.created_at));
    lemma_be_u64(b, p + 4, r.created_at);
    assert(b.subrange(p + 12, p + 20) =~= t.subrange(12, 20));
    assert(t.subrange(12, 20) =~= be_bytes(r.updated_at));
    lemma_be_u64(b, p + 12, r.updated_at);
}

/// Decoding the stored layout of a record gives the record back.
pub proof fn lemma_record_round_trip(r: RecordView)
    requires
        r.request_id.len() == 32,
        payload_fits(r.status),
    ensures
        parse_record(record_bytes(r)) == Some(r),
{
    let b = record_bytes(r);
    let head = r.request_id + seq![status_tag(r.status)];
    let tail = be_bytes32(r.attempts) + be_bytes(r.created_at) + be_bytes(r.updated_at);
    let p: int = 33 + status_payload(r.status).len() as int;
    assert(b =~= head + status_payload(r.status) + tail);
    assert(b[32] == status_tag(r.status));
    lemma_parse_status(head, r.status, tail);
    assert(b.subrange(0, 32) =~= r.request_id);
    assert(b.subrange(p, p + 20) =~= tail);
    lemma_parse_tail(b, p, r);
}

} // verus!
