use vstd::prelude::*;
use crate::job::{action_for, bumped, is_terminal, next_path, FailReason, JobView, Reported, Status, Step};
use crate::notifier::{WaitView, entries_unique, known_outcome, tracked_id, with_outcome};
use crate::relay::fresh_job;
use crate::request::InboundEvent;
use crate::storage::{
    cas_applied, created, found_with, holds, ids_unfinished, key, keys_unique, lemma_cas_sets_status, path_applied,
};

verus! {

/// Delivering the same event twice stores exactly one job for its
/// identifier: the second delivery changes nothing, and afterwards exactly
/// one record carries the identifier.
pub proof fn lemma_duplicate_delivery_creates_once(
    s: Seq<JobView>,
    e: InboundEvent,
    id: [u8; 32],
    t1: u64,
    t2: u64,
)
    requires
        keys_unique(s),
    ensures
        holds(created(s, fresh_job(e, id, t1)), id),
        created(created(s, fresh_job(e, id, t1)), fresh_job(e, id, t2)) == created(
            s,
            fresh_job(e, id, t1),
        ),
        keys_unique(created(s, fresh_job(e, id, t1))),
        forall|i: int, k: int|
            0 <= i < created(s, fresh_job(e, id, t1)).len() && 0 <= k < created(
                s,
                fresh_job(e, id, t1),
            ).len() && key(created(s, fresh_job(e, id, t1))[i]) == id && key(
                created(s, fresh_job(e, id, t1))[k],
            ) == id ==> i == k,
{
    let s1 = created(s, fresh_job(e, id, t1));
    if !holds(s, id) {
        assert(key(s1[s.len() as int]) == id);
    }
}

/// A compare-and-set whose expected status is not the job's current one
/// changes nothing.
pub proof fn lemma_stale_compare_and_set(
    s: Seq<JobView>,
    id: [u8; 32],
    expected: Status,
    new_status: Status,
    attempts: u32,
    now: u64,
)
    requires
        forall|i: int| 0 <= i < s.len() && key(s[i]) == id ==> s[i].status != expected,
    ensures
        cas_applied(s, id, expected, new_status, attempts, now) == s,
{
    assert(cas_applied(s, id, expected, new_status, attempts, now) =~= s);
}

/// Of two actors that both saw a job in status `expected` and each move it
/// to another status, only the first takes effect: the second finds its
/// expectation stale and changes nothing.
pub proof fn lemma_no_double_transition(
    s: Seq<JobView>,
    id: [u8; 32],
    expected: Status,
    first: Status,
    a1: u32,
    t1: u64,
    second: Status,
    a2: u32,
    t2: u64,
)
    requires
        keys_unique(s),
        first != expected,
    ensures
        keys_unique(cas_applied(s, id, expected, first, a1, t1)),
        cas_applied(cas_applied(s, id, expected, first, a1, t1), id, expected, second, a2, t2)
            == cas_applied(s, id, expected, first, a1, t1),
{
    let s1 = cas_applied(s, id, expected, first, a1, t1);
    assert forall|i: int| 0 <= i < s1.len() && key(s1[i]) == id implies s1[i].status != expected by {}
    lemma_stale_compare_and_set(s1, id, expected, second, a2, t2);
}

/// Of two workers that both saw a job in status `seen` and each store a path
/// of the table from it that ends elsewhere, only the first takes effect:
/// the second finds its expectation stale and changes nothing. So only one
/// worker takes a job past `Received`.
pub proof fn lemma_one_worker_proceeds(
    s: Seq<JobView>,
    id: [u8; 32],
    seen: Status,
    first: (Option<(Status, u32)>, (Status, u32)),
    t1: u64,
    second: (Option<(Status, u32)>, (Status, u32)),
    t2: u64,
)
    requires
        keys_unique(s),
        first.1.0 != seen,
    ensures
        path_applied(path_applied(s, id, seen, first, t1), id, seen, second, t2) == path_applied(
            s,
            id,
            seen,
            first,
            t1,
        ),
{
    let s1 = path_applied(s, id, seen, first, t1);
    if found_with(s, id, seen) {
        match first.0 {
            None => {
                lemma_cas_sets_status(s, id, seen, first.1.0, first.1.1, t1);
            },
            Some(m) => {
                lemma_cas_sets_status(s, id, seen, m.0, m.1, t1);
                let mid = cas_applied(s, id, seen, m.0, m.1, t1);
                assert(keys_unique(mid)) by {
                    assert forall|i: int, k: int| 0 <= i < mid.len() && 0 <= k < mid.len() && i != k implies key(
                        mid[i],
                    ) != key(mid[k]) by {
                        assert(key(mid[i]) == key(s[i]));
                        assert(key(mid[k]) == key(s[k]));
                    }
                }
                lemma_cas_sets_status(mid, id, m.0, first.1.0, first.1.1, t1);
            },
        }
        assert forall|i: int| 0 <= i < s1.len() && key(s1[i]) == id implies s1[i].status != seen by {
            assert(key(s1[i]) == key(s[i]));
        }
    } else {
        assert(cas_applied(s, id, seen, first.1.0, first.1.1, t1) =~= s);
        assert(s1 == s);
    }
    assert(!found_with(s1, id, seen));
    assert(cas_applied(s1, id, seen, second.1.0, second.1.1, t2) =~= s1);
}

/// A terminal status asks for no further call and no outcome moves it: a
/// job once delivered is never delivered again, whatever is replayed.
pub proof fn lemma_terminal_is_final(s: Status, attempts: u32, o: Reported, limit: u32)
    requires
        is_terminal(s),
    ensures
        action_for(s) == Step::Idle,
        next_path(s, attempts, o, limit) is None,
{
}

/// Every status that is not terminal asks for a call, so a job read back
/// after a restart is driven on from its stored status.
pub proof fn lemma_unfinished_has_work(s: Status)
    requires
        !is_terminal(s),
    ensures
        action_for(s) != Step::Idle,
{
}

/// After a restart, the jobs to resume are exactly those not in a terminal
/// status: every such job is listed, and every listed identifier is one.
pub proof fn lemma_resume_list(s: Seq<JobView>)
    ensures
        forall|i: int|
            0 <= i < s.len() && !is_terminal(s[i].status) ==> ids_unfinished(s).contains(key(s[i])),
        forall|k: int|
            0 <= k < ids_unfinished(s).len() ==> exists|i: int|
                0 <= i < s.len() && !is_terminal(s[i].status) && key(s[i]) == #[trigger] ids_unfinished(s)[k],
    decreases s.len(),
{
    if s.len() > 0 {
        let p = s.drop_last();
        lemma_resume_list(p);
        let r = ids_unfinished(s);
        let rp = ids_unfinished(p);
        assert forall|i: int| 0 <= i < s.len() && !is_terminal(s[i].status) implies r.contains(key(s[i])) by {
            if i < s.len() - 1 {
                assert(p[i] == s[i]);
                let k = choose|k: int| 0 <= k < rp.len() && rp[k] == key(p[i]);
                assert(r[k] == rp[k]);
            } else {
                assert(r[r.len() - 1] == key(s[i]));
            }
        }
        assert forall|k: int| 0 <= k < r.len() implies exists|i: int|
            0 <= i < s.len() && !is_terminal(s[i].status) && key(s[i]) == #[trigger] r[k] by {
            if k < rp.len() {
                let i = choose|i: int| 0 <= i < p.len() && !is_terminal(p[i].status) && key(p[i]) == rp[k];
                assert(s[i] == p[i]);
            } else {
                assert(key(s[s.len() - 1]) == r[k]);
            }
        }
    }
}

/// The status and attempt count after `n` failures `o` in a row from status
/// `s` with `attempts` failures; `None` once a failure finds no transition.
pub open spec fn after_failures(s: Status, attempts: u32, o: Reported, n: nat, limit: u32) -> Option<(Status, u32)>
    decreases n,
{
    if n == 0 {
        Some((s, attempts))
    } else {
        match after_failures(s, attempts, o, (n - 1) as nat, limit) {
            Some(p) => match next_path(p.0, p.1, o, limit) {
                Some(path) => Some(path.1),
                None => None,
            },
            None => None,
        }
    }
}

/// The failure that a step in status `s` can meet again and again: a
/// transient one while proving, a failed send while delivering.
pub open spec fn retryable_failure(s: Status, o: Reported) -> bool {
    ((s is Received || s is Submitted || s is Polling) && o == Reported::Transient) || (s is Completed && o
        == Reported::DeliverError)
}

/// Where a step in status `s` waits after `n` retryable failures: a proving
/// job waits to be submitted afresh, a delivery is retried.
pub open spec fn retry_status(s: Status, n: nat) -> Status {
    if n == 0 || s is Completed {
        s
    } else {
        Status::Submitted(None)
    }
}

/// The reason a step in status `s` ends with once its ceiling is reached.
pub open spec fn ceiling_reason(s: Status) -> FailReason {
    if s is Completed {
        FailReason::DeliveryFailure
    } else {
        FailReason::AttemptsExceeded
    }
}

proof fn lemma_below_ceiling(s: Status, o: Reported, n: nat, limit: u32)
    requires
        retryable_failure(s, o),
        n < limit,
    ensures
        after_failures(s, 0, o, n, limit) == Some((retry_status(s, n), n as u32)),
    decreases n,
{
    if n > 0 {
        lemma_below_ceiling(s, o, (n - 1) as nat, limit);
        assert(bumped((n - 1) as u32) == n);
    }
}

/// A job whose external calls only ever fail in a retryable way: after
/// fewer than `limit` failures it still waits to retry, with one attempt
/// counted per failure; the failure numbered `limit` ends it in `Failed`,
/// and nothing follows.
pub proof fn lemma_attempt_ceiling(s: Status, o: Reported, n: nat, limit: u32)
    requires
        retryable_failure(s, o),
        limit >= 1,
    ensures
        n < limit ==> after_failures(s, 0, o, n, limit) == Some((retry_status(s, n), n as u32)),
        after_failures(s, 0, o, limit as nat, limit) == Some(
            (Status::Failed(ceiling_reason(s)), limit),
        ),
        after_failures(s, 0, o, limit as nat + 1, limit) is None,
{
    if n < limit {
        lemma_below_ceiling(s, o, n, limit);
    }
    lemma_below_ceiling(s, o, (limit - 1) as nat, limit);
    assert(bumped((limit - 1) as u32) == limit);
    assert(after_failures(s, 0, o, limit as nat, limit) == Some(
        (Status::Failed(ceiling_reason(s)), limit),
    ));
}

/// No lost wakeup: once a terminal status is announced for a request, a
/// status is known for it, and it is the announced one unless another was
/// announced before.
pub proof fn lemma_no_lost_wakeup(s: Seq<WaitView>, id: [u8; 32], st: Status)
    requires
        entries_unique(s),
    ensures
        known_outcome(with_outcome(s, id, st), id) is Some,
        known_outcome(s, id) is None ==> known_outcome(with_outcome(s, id, st), id) == Some(st),
        known_outcome(s, id) is Some ==> known_outcome(with_outcome(s, id, st), id) == known_outcome(
            s,
            id,
        ),
{
    let s2 = with_outcome(s, id, st);
    if tracked_id(s, id) {
        let i = choose|i: int| 0 <= i < s.len() && s[i].request_id == id;
        assert(s2[i].request_id == id && s2[i].outcome is Some);
        assert(forall|k: int| 0 <= k < s2.len() && s2[k].request_id == id ==> k == i);
    } else {
        let i = s.len() as int;
        assert(s2[i].request_id == id && s2[i].outcome is Some);
        assert(forall|k: int| 0 <= k < s.len() ==> s2[k] == s[k]);
        assert(forall|k: int| 0 <= k < s2.len() && s2[k].request_id == id ==> k == i);
    }
}

} // verus!
