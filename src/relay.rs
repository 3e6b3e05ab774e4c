use vstd::prelude::*;
use crate::job::{copy_status, decide, is_terminal, next_path, path_matches, JobStatus, JobView, Outcome, ProofJob, Status, Transition};
use crate::request::{request_id_of, ApiCallbackRequest, CallbackRequest, InboundEvent, RequestView};
use crate::notifier::{known_outcome, waiting_on, with_outcome, Notifier};
use crate::storage::{cas_applied, cas_hits, created, found_with, holds, key, lemma_cas_sets_status, path_applied, CasOutcome, CreateOutcome, MemoryStorage};

verus! {

/// What ingesting an event did.
pub enum Ingested {
    /// A new job was stored under this identifier; a worker should take it.
    Created([u8; 32]),
    /// A job under this identifier was there already; nothing was done.
    Duplicate([u8; 32]),
}

impl Ingested {
    /// The request identifier in either case.
    pub open spec fn id(self) -> [u8; 32] {
        match self {
            Ingested::Created(id) => id,
            Ingested::Duplicate(id) => id,
        }
    }

    /// The request identifier.
    pub fn request_id(&self) -> (r: [u8; 32])
        ensures
            r == self.id(),
    {
        match self {
            Ingested::Created(id) => *id,
            Ingested::Duplicate(id) => *id,
        }
    }
}

/// The fresh record that an event with identifier `id` gives at time `now`.
pub open spec fn fresh_job(e: InboundEvent, id: [u8; 32], now: u64) -> JobView {
    JobView {
        request: RequestView {
            request_id: id,
            account: e.account,
            image_id: e.image_id,
            input: e.input@,
            callback_contract: e.callback_contract,
            function_selector: e.function_selector,
            gas_limit: e.gas_limit,
        },
        status: Status::Received,
        attempts: 0,
        created_at: now,
        updated_at: now,
    }
}

/// Takes in a raw trigger: derives its request, and stores a `Received` job
/// for it unless one with the same identifier is there, in which case the
/// event is a duplicate and nothing changes.
pub fn ingest(storage: &mut MemoryStorage, event: InboundEvent, now: u64) -> (r: Ingested)
    requires
        old(storage).wf(),
    ensures
        final(storage).wf(),
        r.id()@ == request_id_of(event),
        final(storage)@ == created(old(storage)@, fresh_job(event, r.id(), now)),
        r is Created <==> !holds(old(storage)@, r.id()),
{
    let ghost e = event;
    let request = CallbackRequest::from_event(event);
    let id = request.request_id;
    let job = ProofJob::received(request, now);
    assert(job@ == fresh_job(e, id, now));
    match storage.create_if_absent(job) {
        CreateOutcome::Created => Ingested::Created(id),
        CreateOutcome::AlreadyExists(_) => Ingested::Duplicate(id),
    }
}

/// Takes in an API submission as the event it stands for.
pub fn submit_api_request(storage: &mut MemoryStorage, req: ApiCallbackRequest, now: u64) -> (r: Ingested)
    requires
        old(storage).wf(),
    ensures
        final(storage).wf(),
        ({
            let e = InboundEvent {
                account: req.account,
                image_id: req.image_id,
                input: req.input,
                callback_contract: req.callback_contract,
                function_selector: req.function_selector,
                gas_limit: req.gas_limit,
            };
            &&& r.id()@ == request_id_of(e)
            &&& final(storage)@ == created(old(storage)@, fresh_job(e, r.id(), now))
            &&& (r is Created <==> !holds(old(storage)@, r.id()))
        }),
{
    let event = InboundEvent::from_api_request(req);
    ingest(storage, event, now)
}

/// What recording an outcome did.
pub enum StepResult {
    /// The transitions were stored: the status passed on the way, if any,
    /// and the one the job reached, with their attempt counts.
    Persisted(Option<Transition>, Transition),
    /// Another actor had moved the job on; its current status.
    Lost(JobStatus),
    /// No job has the identifier.
    Missing,
    /// The outcome does not answer the call that the seen status asks for.
    Unanswered,
}

/// What a worker's step promises: the stored jobs and the result for a job
/// `id` seen in status `seen` whose call reported an outcome that the table
/// maps to `path`.
pub open spec fn step_done(
    before: Seq<JobView>,
    after: Seq<JobView>,
    id: [u8; 32],
    seen: Status,
    path: Option<(Option<(Status, u32)>, (Status, u32))>,
    now: u64,
    r: StepResult,
) -> bool {
    match path {
        None => r is Unanswered && after == before,
        Some(p) => {
            &&& after == path_applied(before, id, seen, p, now)
            &&& match r {
                StepResult::Persisted(m, t) => path_matches(p, m, t) && found_with(before, id, seen),
                StepResult::Lost(cur) => exists|i: int|
                    0 <= i < before.len() && key(before[i]) == id && before[i].status == cur@ && cur@ != seen,
                StepResult::Missing => !holds(before, id),
                StepResult::Unanswered => false,
            }
        },
    }
}

/// One step of a worker: the job `id` was seen in status `seen` with
/// `attempts` failures, the call it asked for reported `outcome`; the
/// transitions that follow are stored by compare-and-set, the first against
/// `seen`.
pub fn record_outcome(
    storage: &mut MemoryStorage,
    id: &[u8; 32],
    seen: &JobStatus,
    attempts: u32,
    outcome: Outcome,
    limit: u32,
    now: u64,
) -> (r: StepResult)
    requires
        old(storage).wf(),
    ensures
        final(storage).wf(),
        step_done(old(storage)@, final(storage)@, *id, seen@, next_path(seen@, attempts, outcome@, limit), now, r),
{
    let ghost s0 = storage@;
    match decide(seen, attempts, outcome, limit) {
        None => StepResult::Unanswered,
        Some((passed, t)) => match passed {
            None => {
                let keep = copy_status(&t.status);
                match storage.compare_and_set_status(id, seen, t.status, t.attempts, now) {
                    CasOutcome::Applied => StepResult::Persisted(None, Transition { status: keep, attempts: t.attempts }),
                    CasOutcome::Conflict(cur) => StepResult::Lost(cur),
                    CasOutcome::NotFound => StepResult::Missing,
                }
            },
            Some(m) => {
                let keep_m = copy_status(&m.status);
                let expected_next = copy_status(&m.status);
                match storage.compare_and_set_status(id, seen, m.status, m.attempts, now) {
                    CasOutcome::Applied => {
                        proof {
                            lemma_cas_sets_status(s0, *id, seen@, keep_m@, m.attempts, now);
                        }
                        let keep = copy_status(&t.status);
                        storage.compare_and_set_status(id, &expected_next, t.status, t.attempts, now);
                        StepResult::Persisted(
                            Some(Transition { status: keep_m, attempts: m.attempts }),
                            Transition { status: keep, attempts: t.attempts },
                        )
                    },
                    CasOutcome::Conflict(cur) => {
                        assert(!found_with(s0, *id, seen@));
                        assert(storage@ =~= s0);
                        StepResult::Lost(cur)
                    },
                    CasOutcome::NotFound => {
                        assert(!found_with(s0, *id, seen@));
                        assert(storage@ =~= s0);
                        StepResult::Missing
                    },
                }
            },
        },
    }
}

/// One step of a worker that also surfaces the result: the transition is
/// stored as `record_outcome` does, and if it stored a terminal status that
/// status is announced to the waiters on the request, who are returned to be
/// woken. Nothing else is announced.
pub fn record_and_notify(
    storage: &mut MemoryStorage,
    notifier: &mut Notifier,
    id: &[u8; 32],
    seen: &JobStatus,
    attempts: u32,
    outcome: Outcome,
    limit: u32,
    now: u64,
) -> (r: (StepResult, Vec<u64>))
    requires
        old(storage).wf(),
        old(notifier).wf(),
    ensures
        final(storage).wf(),
        final(notifier).wf(),
        step_done(old(storage)@, final(storage)@, *id, seen@, next_path(seen@, attempts, outcome@, limit), now, r.0),
        match r.0 {
            StepResult::Persisted(_, t) if is_terminal(t.status@) => {
                &&& final(notifier)@ == with_outcome(old(notifier)@, *id, t.status@)
                &&& known_outcome(old(notifier)@, *id) is None ==> r.1@ == waiting_on(old(notifier)@, *id)
                &&& known_outcome(old(notifier)@, *id) is Some ==> r.1@.len() == 0
            },
            _ => final(notifier)@ == old(notifier)@ && r.1@.len() == 0,
        },
{
    let step = record_outcome(storage, id, seen, attempts, outcome, limit, now);
    let woken = match &step {
        StepResult::Persisted(_, t) => {
            if t.status.is_terminal() {
                notifier.broadcast(id, &t.status)
            } else {
                Vec::new()
            }
        },
        _ => Vec::new(),
    };
    (step, woken)
}

} // verus!
