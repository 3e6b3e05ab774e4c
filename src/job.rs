use vstd::prelude::*;
use crate::request::{copy_bytes, CallbackRequest, RequestView};

verus! {

/// Why a job ended in the failed terminal state.
#[derive(PartialEq, Eq, Structural, Clone, Copy, Debug)]
pub enum FailReason {
    /// The backend refused the input or the program; never retried.
    Rejected,
    /// The proving steps failed transiently as often as the ceiling allows.
    AttemptsExceeded,
    /// Delivery of the callback failed as often as the ceiling allows.
    DeliveryFailure,
}

/// A proof artifact and its public output.
#[derive(Debug, PartialEq, Eq)]
pub struct Receipt {
    pub journal: Vec<u8>,
    pub seal: Vec<u8>,
}

/// Where a job stands in its lifecycle.
#[derive(Debug, PartialEq, Eq)]
pub enum JobStatus {
    Received,
    /// Handed to the backend: under this job handle once it accepted the
    /// job, without one while a submission is owed or was just refused.
    Submitted(Option<Vec<u8>>),
    /// The backend reported the job under this handle as still running.
    Polling(Vec<u8>),
    Completed(Receipt),
    Failed(FailReason),
    /// The callback was sent in the transaction with this hash.
    Delivered(Vec<u8>),
}

/// The value of a job status.
pub enum Status {
    Received,
    Submitted(Option<Seq<u8>>),
    Polling(Seq<u8>),
    Completed(Seq<u8>, Seq<u8>),
    Failed(FailReason),
    Delivered(Seq<u8>),
}

impl View for JobStatus {
    type V = Status;

    open spec fn view(&self) -> Status {
        match self {
            JobStatus::Received => Status::Received,
            JobStatus::Submitted(h) => Status::Submitted(
                match h {
                    Some(x) => Some(x@),
                    None => None,
                },
            ),
            JobStatus::Polling(h) => Status::Polling(h@),
            JobStatus::Completed(r) => Status::Completed(r.journal@, r.seal@),
            JobStatus::Failed(f) => Status::Failed(*f),
            JobStatus::Delivered(tx) => Status::Delivered(tx@),
        }
    }
}

/// What an external call reported.
pub enum Outcome {
    /// The backend accepted a submission under this handle.
    SubmitAccepted(Vec<u8>),
    /// The job is still running.
    PollPending,
    /// The job finished with this receipt.
    PollComplete(Receipt),
    /// A network error or a timeout.
    Transient,
    /// The backend refused the input or the program.
    Rejected,
    /// The callback went out in the transaction with this hash.
    DeliverOk(Vec<u8>),
    /// Sending the callback transaction failed.
    DeliverError,
}

/// The value of an outcome.
pub enum Reported {
    SubmitAccepted(Seq<u8>),
    PollPending,
    PollComplete(Seq<u8>, Seq<u8>),
    Transient,
    Rejected,
    DeliverOk(Seq<u8>),
    DeliverError,
}

impl View for Outcome {
    type V = Reported;

    open spec fn view(&self) -> Reported {
        match self {
            Outcome::SubmitAccepted(h) => Reported::SubmitAccepted(h@),
            Outcome::PollPending => Reported::PollPending,
            Outcome::PollComplete(r) => Reported::PollComplete(r.journal@, r.seal@),
            Outcome::Transient => Reported::Transient,
            Outcome::Rejected => Reported::Rejected,
            Outcome::DeliverOk(tx) => Reported::DeliverOk(tx@),
            Outcome::DeliverError => Reported::DeliverError,
        }
    }
}

/// The next external call that a job in a status asks for.
pub enum Action {
    Submit,
    Poll(Vec<u8>),
    Deliver(Receipt),
    /// Terminal: nothing more is done.
    Idle,
}

/// The value of an action.
pub enum Step {
    Submit,
    Poll(Seq<u8>),
    Deliver(Seq<u8>, Seq<u8>),
    Idle,
}

impl View for Action {
    type V = Step;

    open spec fn view(&self) -> Step {
        match self {
            Action::Submit => Step::Submit,
            Action::Poll(h) => Step::Poll(h@),
            Action::Deliver(r) => Step::Deliver(r.journal@, r.seal@),
            Action::Idle => Step::Idle,
        }
    }
}

/// A lifecycle record, one per request.
pub struct ProofJob {
    pub request: CallbackRequest,
    pub status: JobStatus,
    pub attempts: u32,
    pub created_at: u64,
    pub updated_at: u64,
}

/// The value of a lifecycle record.
pub struct JobView {
    pub request: RequestView,
    pub status: Status,
    pub attempts: u32,
    pub created_at: u64,
    pub updated_at: u64,
}

impl View for ProofJob {
    type V = JobView;

    open spec fn view(&self) -> JobView {
        JobView {
            request: self.request@,
            status: self.status@,
            attempts: self.attempts,
            created_at: self.created_at,
            updated_at: self.updated_at,
        }
    }
}

impl ProofJob {
    /// A fresh record for a request: `Received`, no attempts, both
    /// timestamps `now`.
    pub fn received(request: CallbackRequest, now: u64) -> (r: ProofJob)
        ensures
            r@ == (JobView {
                request: request@,
                status: Status::Received,
                attempts: 0,
                created_at: now,
                updated_at: now,
            }),
    {
        ProofJob { request, status: JobStatus::Received, attempts: 0, created_at: now, updated_at: now }
    }

    /// A copy of the record.
    pub fn duplicate(&self) -> (r: ProofJob)
        ensures
            r@ == self@,
    {
        ProofJob {
            request: self.request.duplicate(),
            status: copy_status(&self.status),
            attempts: self.attempts,
            created_at: self.created_at,
            updated_at: self.updated_at,
        }
    }
}

/// A job's status and attempt count after a transition.
pub struct Transition {
    pub status: JobStatus,
    pub attempts: u32,
}

/// `Delivered` and `Failed` end a job.
pub open spec fn is_terminal(s: Status) -> bool {
    s is Delivered || s is Failed
}

/// The attempt count after one more failure, held at the largest `u32`.
pub open spec fn bumped(attempts: u32) -> u32 {
    if attempts < u32::MAX {
        (attempts + 1) as u32
    } else {
        attempts
    }
}

/// The call that a job in status `s` asks for next.
pub open spec fn action_for(s: Status) -> Step {
    match s {
        Status::Received => Step::Submit,
        Status::Submitted(None) => Step::Submit,
        Status::Submitted(Some(h)) => Step::Poll(h),
        Status::Polling(h) => Step::Poll(h),
        Status::Completed(j, sl) => Step::Deliver(j, sl),
        _ => Step::Idle,
    }
}

/// The status and attempt count that answer `o` to a submission gives,
/// `attempts` failures so far and ceiling `limit`.
pub open spec fn after_submit(o: Reported, attempts: u32, limit: u32) -> Option<(Status, u32)> {
    match o {
        Reported::SubmitAccepted(h) => Some((Status::Submitted(Some(h)), 0u32)),
        Reported::Rejected => Some((Status::Failed(FailReason::Rejected), attempts)),
        Reported::Transient => if bumped(attempts) >= limit {
            Some((Status::Failed(FailReason::AttemptsExceeded), bumped(attempts)))
        } else {
            Some((Status::Submitted(None), bumped(attempts)))
        },
        _ => None,
    }
}

/// The status and attempt count that answer `o` to a poll of job handle
/// `h` gives while the job is `Polling`. A transient failure leads to a
/// fresh submission.
pub open spec fn after_poll(h: Seq<u8>, o: Reported, attempts: u32, limit: u32) -> Option<(Status, u32)> {
    match o {
        Reported::PollPending => Some((Status::Polling(h), attempts)),
        Reported::PollComplete(j, sl) => Some((Status::Completed(j, sl), 0u32)),
        Reported::Rejected => Some((Status::Failed(FailReason::Rejected), attempts)),
        Reported::Transient => if bumped(attempts) >= limit {
            Some((Status::Failed(FailReason::AttemptsExceeded), bumped(attempts)))
        } else {
            Some((Status::Submitted(None), bumped(attempts)))
        },
        _ => None,
    }
}

/// The status and attempt count that answer `o` to a delivery of receipt
/// `(j, sl)` gives; a delivery needs a transaction hash.
pub open spec fn after_deliver(j: Seq<u8>, sl: Seq<u8>, o: Reported, attempts: u32, limit: u32) -> Option<
    (Status, u32),
> {
    match o {
        Reported::DeliverOk(tx) => if tx.len() > 0 {
            Some((Status::Delivered(tx), attempts))
        } else {
            None
        },
        Reported::DeliverError => if bumped(attempts) >= limit {
            Some((Status::Failed(FailReason::DeliveryFailure), bumped(attempts)))
        } else {
            Some((Status::Completed(j, sl), bumped(attempts)))
        },
        _ => None,
    }
}

/// The lifecycle table: the statuses, with attempt counts, that outcome `o`
/// leads through from status `s` with `attempts` failures so far and ceiling
/// `limit`. The second component is where the job ends; the first, if any,
/// is a status it passes on the way:
/// - a submission from `Received` records `Submitted`, with the handle if the
///   backend accepted it, and otherwise before the answer is applied;
/// - a poll from `Submitted` records `Polling`, and any answer but "still
///   pending" is then applied from `Polling`.
/// `None` where the outcome does not answer the call that `s` asks for (a
/// terminal status asks for none).
pub open spec fn next_path(s: Status, attempts: u32, o: Reported, limit: u32) -> Option<
    (Option<(Status, u32)>, (Status, u32)),
> {
    match s {
        Status::Received => match after_submit(o, attempts, limit) {
            Some(n) => if n.0 is Submitted {
                Some((None, n))
            } else {
                Some((Some((Status::Submitted(None), attempts)), n))
            },
            None => None,
        },
        Status::Submitted(None) => match after_submit(o, attempts, limit) {
            Some(n) => Some((None, n)),
            None => None,
        },
        Status::Submitted(Some(h)) => match after_poll(h, o, attempts, limit) {
            Some(n) => if n.0 is Polling {
                Some((None, n))
            } else {
                Some((Some((Status::Polling(h), attempts)), n))
            },
            None => None,
        },
        Status::Polling(h) => match after_poll(h, o, attempts, limit) {
            Some(n) => Some((None, n)),
            None => None,
        },
        Status::Completed(j, sl) => match after_deliver(j, sl, o, attempts, limit) {
            Some(n) => Some((None, n)),
            None => None,
        },
        _ => None,
    }
}

fn bump(attempts: u32) -> (r: u32)
    ensures
        r == bumped(attempts),
{
    if attempts < u32::MAX {
        attempts + 1
    } else {
        attempts
    }
}

/// A copy of a receipt.
pub fn copy_receipt(r: &Receipt) -> (c: Receipt)
    ensures
        c.journal@ == r.journal@,
        c.seal@ == r.seal@,
{
    Receipt { journal: copy_bytes(&r.journal), seal: copy_bytes(&r.seal) }
}

/// A copy of a status.
pub fn copy_status(s: &JobStatus) -> (c: JobStatus)
    ensures
        c@ == s@,
{
    match s {
        JobStatus::Received => JobStatus::Received,
        JobStatus::Submitted(None) => JobStatus::Submitted(None),
        JobStatus::Submitted(Some(h)) => JobStatus::Submitted(Some(copy_bytes(h))),
        JobStatus::Polling(h) => JobStatus::Polling(copy_bytes(h)),
        JobStatus::Completed(r) => JobStatus::Completed(copy_receipt(r)),
        JobStatus::Failed(f) => JobStatus::Failed(*f),
        JobStatus::Delivered(tx) => JobStatus::Delivered(copy_bytes(tx)),
    }
}

/// Whether two byte strings are equal.
pub fn bytes_equal(a: &Vec<u8>, b: &Vec<u8>) -> (r: bool)
    ensures
        r == (a@ == b@),
{
    if a.len() != b.len() {
        return false;
    }
    let mut i: usize = 0;
    while i < a.len()
        invariant
            a@.len() == b@.len(),
            0 <= i <= a@.len(),
            forall|k: int| 0 <= k < i ==> a@[k] == b@[k],
        decreases a@.len() - i,
    {
        if a[i] != b[i] {
            return false;
        }
        i = i + 1;
    }
    assert(a@ =~= b@);
    true
}

/// Whether two statuses are equal.
pub fn same_status(a: &JobStatus, b: &JobStatus) -> (r: bool)
    ensures
        r == (a@ == b@),
{
    match (a, b) {
        (JobStatus::Received, JobStatus::Received) => true,
        (JobStatus::Submitted(None), JobStatus::Submitted(None)) => true,
        (JobStatus::Submitted(Some(x)), JobStatus::Submitted(Some(y))) => bytes_equal(x, y),
        (JobStatus::Polling(x), JobStatus::Polling(y)) => bytes_equal(x, y),
        (JobStatus::Completed(x), JobStatus::Completed(y)) => {
            bytes_equal(&x.journal, &y.journal) && bytes_equal(&x.seal, &y.seal)
        },
        (JobStatus::Failed(x), JobStatus::Failed(y)) => *x == *y,
        (JobStatus::Delivered(x), JobStatus::Delivered(y)) => bytes_equal(x, y),
        _ => false,
    }
}

impl JobStatus {
    /// Whether the status ends the job.
    pub fn is_terminal(&self) -> (r: bool)
        ensures
            r == is_terminal(self@),
    {
        match self {
            JobStatus::Delivered(_) | JobStatus::Failed(_) => true,
            _ => false,
        }
    }

    /// The call that a job in this status asks for next; a job read back
    /// after a restart resumes from this alone.
    pub fn next_action(&self) -> (r: Action)
        ensures
            r@ == action_for(self@),
    {
        match self {
            JobStatus::Received => Action::Submit,
            JobStatus::Submitted(None) => Action::Submit,
            JobStatus::Submitted(Some(h)) => Action::Poll(copy_bytes(h)),
            JobStatus::Polling(h) => Action::Poll(copy_bytes(h)),
            JobStatus::Completed(r) => Action::Deliver(copy_receipt(r)),
            _ => Action::Idle,
        }
    }
}

fn submit_answer(o: Outcome, attempts: u32, limit: u32) -> (r: Option<Transition>)
    ensures
        match after_submit(o@, attempts, limit) {
            Some(n) => r matches Some(t) && t.status@ == n.0 && t.attempts == n.1,
            None => r is None,
        },
{
    match o {
        Outcome::SubmitAccepted(h) => Some(Transition { status: JobStatus::Submitted(Some(h)), attempts: 0 }),
        Outcome::Rejected => Some(Transition { status: JobStatus::Failed(FailReason::Rejected), attempts }),
        Outcome::Transient => {
            let a = bump(attempts);
            if a >= limit {
                Some(Transition { status: JobStatus::Failed(FailReason::AttemptsExceeded), attempts: a })
            } else {
                Some(Transition { status: JobStatus::Submitted(None), attempts: a })
            }
        },
        _ => None,
    }
}

fn poll_answer(h: &Vec<u8>, o: Outcome, attempts: u32, limit: u32) -> (r: Option<Transition>)
    ensures
        match after_poll(h@, o@, attempts, limit) {
            Some(n) => r matches Some(t) && t.status@ == n.0 && t.attempts == n.1,
            None => r is None,
        },
{
    match o {
        Outcome::PollPending => Some(Transition { status: JobStatus::Polling(copy_bytes(h)), attempts }),
        Outcome::PollComplete(rc) => Some(Transition { status: JobStatus::Completed(rc), attempts: 0 }),
        Outcome::Rejected => Some(Transition { status: JobStatus::Failed(FailReason::Rejected), attempts }),
        Outcome::Transient => {
            let a = bump(attempts);
            if a >= limit {
                Some(Transition { status: JobStatus::Failed(FailReason::AttemptsExceeded), attempts: a })
            } else {
                Some(Transition { status: JobStatus::Submitted(None), attempts: a })
            }
        },
        _ => None,
    }
}

fn deliver_answer(rc: &Receipt, o: Outcome, attempts: u32, limit: u32) -> (r: Option<Transition>)
    ensures
        match after_deliver(rc.journal@, rc.seal@, o@, attempts, limit) {
            Some(n) => r matches Some(t) && t.status@ == n.0 && t.attempts == n.1,
            None => r is None,
        },
{
    match o {
        Outcome::DeliverOk(tx) => {
            if tx.len() > 0 {
                Some(Transition { status: JobStatus::Delivered(tx), attempts })
            } else {
                None
            }
        },
        Outcome::DeliverError => {
            let a = bump(attempts);
            if a >= limit {
                Some(Transition { status: JobStatus::Failed(FailReason::DeliveryFailure), attempts: a })
            } else {
                Some(Transition { status: JobStatus::Completed(copy_receipt(rc)), attempts: a })
            }
        },
        _ => None,
    }
}

/// Whether a path of the table matches a status passed on the way and a
/// transition reached.
pub open spec fn path_matches(
    p: (Option<(Status, u32)>, (Status, u32)),
    passed: Option<Transition>,
    reached: Transition,
) -> bool {
    &&& match p.0 {
        Some(m) => passed matches Some(t) && t.status@ == m.0 && t.attempts == m.1,
        None => passed is None,
    }
    &&& reached.status@ == p.1.0
    &&& reached.attempts == p.1.1
}

/// The transitions that outcome `o` brings to a job in status `s` with
/// `attempts` failures so far, under ceiling `limit`: a status passed on the
/// way, if any, and the one reached; `None` where the outcome does not
/// answer the call that `s` asks for.
pub fn decide(s: &JobStatus, attempts: u32, o: Outcome, limit: u32) -> (r: Option<(Option<Transition>, Transition)>)
    ensures
        match next_path(s@, attempts, o@, limit) {
            Some(p) => r matches Some(x) && path_matches(p, x.0, x.1),
            None => r is None,
        },
{
    match s {
        JobStatus::Received => match submit_answer(o, attempts, limit) {
            Some(t) => {
                if matches!(t.status, JobStatus::Submitted(_)) {
                    Some((None, t))
                } else {
                    Some((Some(Transition { status: JobStatus::Submitted(None), attempts }), t))
                }
            },
            None => None,
        },
        JobStatus::Submitted(None) => match submit_answer(o, attempts, limit) {
            Some(t) => Some((None, t)),
            None => None,
        },
        JobStatus::Submitted(Some(h)) => match poll_answer(h, o, attempts, limit) {
            Some(t) => {
                if matches!(t.status, JobStatus::Polling(_)) {
                    Some((None, t))
                } else {
                    Some((Some(Transition { status: JobStatus::Polling(copy_bytes(h)), attempts }), t))
                }
            },
            None => None,
        },
        JobStatus::Polling(h) => match poll_answer(h, o, attempts, limit) {
            Some(t) => Some((None, t)),
            None => None,
        },
        JobStatus::Completed(rc) => match deliver_answer(rc, o, attempts, limit) {
            Some(t) => Some((None, t)),
            None => None,
        },
        _ => None,
    }
}

} // verus!
