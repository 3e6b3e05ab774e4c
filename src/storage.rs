use vstd::prelude::*;
use crate::job::{copy_status, same_status, JobStatus, JobView, ProofJob, Status};

verus! {

/// The variant of a status, without its payload.
#[derive(PartialEq, Eq, Structural, Clone, Copy, Debug)]
pub enum StatusKind {
    Received,
    Submitted,
    Polling,
    Completed,
    Failed,
    Delivered,
}

/// The variant of a status.
pub open spec fn kind_of(s: Status) -> StatusKind {
    match s {
        Status::Received => StatusKind::Received,
        Status::Submitted(_) => StatusKind::Submitted,
        Status::Polling(_) => StatusKind::Polling,
        Status::Completed(_, _) => StatusKind::Completed,
        Status::Failed(_) => StatusKind::Failed,
        Status::Delivered(_) => StatusKind::Delivered,
    }
}

impl JobStatus {
    /// The variant of this status.
    pub fn kind(&self) -> (r: StatusKind)
        ensures
            r == kind_of(self@),
    {
        match self {
            JobStatus::Received => StatusKind::Received,
            JobStatus::Submitted(_) => StatusKind::Submitted,
            JobStatus::Polling(_) => StatusKind::Polling,
            JobStatus::Completed(_) => StatusKind::Completed,
            JobStatus::Failed(_) => StatusKind::Failed,
            JobStatus::Delivered(_) => StatusKind::Delivered,
        }
    }
}

/// The identifier of the request that a job belongs to.
pub open spec fn key(j: JobView) -> [u8; 32] {
    j.request.request_id
}

/// No two jobs share an identifier.
pub open spec fn keys_unique(s: Seq<JobView>) -> bool {
    forall|i: int, k: int| 0 <= i < s.len() && 0 <= k < s.len() && i != k ==> key(s[i]) != key(s[k])
}

/// Some job has identifier `id`.
pub open spec fn holds(s: Seq<JobView>, id: [u8; 32]) -> bool {
    exists|i: int| 0 <= i < s.len() && key(s[i]) == id
}

/// The jobs after creating `j` unless a job with its identifier is there.
pub open spec fn created(s: Seq<JobView>, j: JobView) -> Seq<JobView> {
    if holds(s, key(j)) {
        s
    } else {
        s.push(j)
    }
}

/// Whether a compare-and-set on job `j` takes effect.
pub open spec fn cas_hits(j: JobView, id: [u8; 32], expected: Status) -> bool {
    key(j) == id && j.status == expected
}

/// The jobs after a compare-and-set: the job with identifier `id` takes the
/// new status, attempt count and update time if its status is `expected`;
/// everything else is kept.
pub open spec fn cas_applied(
    s: Seq<JobView>,
    id: [u8; 32],
    expected: Status,
    new_status: Status,
    attempts: u32,
    now: u64,
) -> Seq<JobView> {
    s.map_values(
        |j: JobView|
            if cas_hits(j, id, expected) {
                JobView { status: new_status, attempts: attempts, updated_at: now, ..j }
            } else {
                j
            },
    )
}

/// Some job has identifier `id` and status `expected`.
pub open spec fn found_with(s: Seq<JobView>, id: [u8; 32], expected: Status) -> bool {
    exists|i: int| 0 <= i < s.len() && cas_hits(s[i], id, expected)
}

/// The jobs after a path of the table is stored from status `seen`: each
/// status by compare-and-set against the one before it. A job that is not
/// in status `seen` stops the path at once, so nothing changes.
pub open spec fn path_applied(
    s: Seq<JobView>,
    id: [u8; 32],
    seen: Status,
    p: (Option<(Status, u32)>, (Status, u32)),
    now: u64,
) -> Seq<JobView> {
    match p.0 {
        None => cas_applied(s, id, seen, p.1.0, p.1.1, now),
        Some(m) => if found_with(s, id, seen) {
            cas_applied(cas_applied(s, id, seen, m.0, m.1, now), id, m.0, p.1.0, p.1.1, now)
        } else {
            s
        },
    }
}

/// After a compare-and-set that takes effect, the job holds the new status.
pub proof fn lemma_cas_sets_status(
    s: Seq<JobView>,
    id: [u8; 32],
    expected: Status,
    new_status: Status,
    attempts: u32,
    now: u64,
)
    requires
        keys_unique(s),
        found_with(s, id, expected),
    ensures
        found_with(cas_applied(s, id, expected, new_status, attempts, now), id, new_status),
        forall|i: int|
            0 <= i < s.len() && key(s[i]) == id ==> #[trigger] cas_applied(
                s,
                id,
                expected,
                new_status,
                attempts,
                now,
            )[i].status == new_status,
{
    let i = choose|i: int| 0 <= i < s.len() && cas_hits(s[i], id, expected);
    let t = cas_applied(s, id, expected, new_status, attempts, now);
    assert(cas_hits(t[i], id, new_status));
    assert forall|k: int| 0 <= k < s.len() && key(s[k]) == id implies #[trigger] t[k].status == new_status by {
        if k != i {
            assert(key(s[k]) != key(s[i]));
        }
    }
}

/// The identifiers, in storage order, of the jobs whose status is of `kind`.
pub open spec fn ids_of_kind(s: Seq<JobView>, kind: StatusKind) -> Seq<[u8; 32]>
    decreases s.len(),
{
    if s.len() == 0 {
        Seq::empty()
    } else if kind_of(s.last().status) == kind {
        ids_of_kind(s.drop_last(), kind).push(key(s.last()))
    } else {
        ids_of_kind(s.drop_last(), kind)
    }
}

/// The identifiers, in storage order, of the jobs not yet in a terminal status.
pub open spec fn ids_unfinished(s: Seq<JobView>) -> Seq<[u8; 32]>
    decreases s.len(),
{
    if s.len() == 0 {
        Seq::empty()
    } else if !crate::job::is_terminal(s.last().status) {
        ids_unfinished(s.drop_last()).push(key(s.last()))
    } else {
        ids_unfinished(s.drop_last())
    }
}

/// Whether two request identifiers are equal.
pub fn ids_equal(a: &[u8; 32], b: &[u8; 32]) -> (r: bool)
    ensures
        r == (*a == *b),
{
    let mut i: usize = 0;
    while i < 32
        invariant
            0 <= i <= 32,
            forall|k: int| 0 <= k < i ==> a@[k] == b@[k],
        decreases 32 - i,
    {
        if a[i] != b[i] {
            return false;
        }
        i = i + 1;
    }
    assert(a@ =~= b@);
    assert(*a =~= *b);
    true
}

/// What `create_if_absent` found.
pub enum CreateOutcome {
    Created,
    /// A job with the same identifier was there; a copy of it.
    AlreadyExists(ProofJob),
}

/// What `compare_and_set_status` found.
pub enum CasOutcome {
    Applied,
    /// The job's status was another; a copy of it.
    Conflict(JobStatus),
    NotFound,
}

/// The in-memory store of job records, keyed by request identifier.
pub struct MemoryStorage {
    jobs: Vec<ProofJob>,
}

impl View for MemoryStorage {
    type V = Seq<JobView>;

    closed spec fn view(&self) -> Seq<JobView> {
        self.jobs@.map_values(|j: ProofJob| j@)
    }
}

impl MemoryStorage {
    /// Well-formed: identifiers are unique.
    pub open spec fn wf(&self) -> bool {
        keys_unique(self@)
    }

    /// An empty store.
    pub fn new() -> (r: MemoryStorage)
        ensures
            r.wf(),
            r@ == Seq::<JobView>::empty(),
    {
        let r = MemoryStorage { jobs: Vec::new() };
        assert(r@ =~= Seq::<JobView>::empty());
        r
    }

    /// The number of records.
    pub fn len(&self) -> (r: usize)
        ensures
            r == self@.len(),
    {
        self.jobs.len()
    }

    fn find(&self, id: &[u8; 32]) -> (r: Option<usize>)
        ensures
            match r {
                Some(i) => i < self@.len() && key(self@[i as int]) == *id,
                None => !holds(self@, *id),
            },
    {
        let mut i: usize = 0;
        while i < self.jobs.len()
            invariant
                0 <= i <= self@.len(),
                self@.len() == self.jobs@.len(),
                forall|k: int| 0 <= k < i ==> key(self@[k]) != *id,
            decreases self.jobs@.len() - i,
        {
            if ids_equal(&self.jobs[i].request.request_id, id) {
                return Some(i);
            }
            i = i + 1;
        }
        None
    }

    /// Stores `job` unless a job with its identifier is there; the sole
    /// guard against duplicates.
    pub fn create_if_absent(&mut self, job: ProofJob) -> (r: CreateOutcome)
        requires
            old(self).wf(),
        ensures
            final(self).wf(),
            final(self)@ == created(old(self)@, job@),
            match r {
                CreateOutcome::Created => !holds(old(self)@, key(job@)),
                CreateOutcome::AlreadyExists(e) => exists|i: int|
                    0 <= i < old(self)@.len() && key(old(self)@[i]) == key(job@) && old(self)@[i] == e@,
            },
    {
        match self.find(&job.request.request_id) {
            Some(i) => {
                let e = self.jobs[i].duplicate();
                CreateOutcome::AlreadyExists(e)
            },
            None => {
                let ghost v = job@;
                self.jobs.push(job);
                assert(self@ =~= old(self)@.push(v));
                CreateOutcome::Created
            },
        }
    }

    /// The identifiers, in storage order, of the jobs whose status is of
    /// `kind`.
    pub fn list_by_status(&self, kind: StatusKind) -> (r: Vec<[u8; 32]>)
        ensures
            r@ == ids_of_kind(self@, kind),
    {
        let mut r: Vec<[u8; 32]> = Vec::new();
        let mut i: usize = 0;
        while i < self.jobs.len()
            invariant
                0 <= i <= self@.len(),
                self@.len() == self.jobs@.len(),
                r@ == ids_of_kind(self@.subrange(0, i as int), kind),
            decreases self.jobs@.len() - i,
        {
            let ghost pre = self@.subrange(0, i as int);
            proof {
                assert(self@.subrange(0, i + 1).drop_last() =~= pre);
            }
            if self.jobs[i].status.kind() == kind {
                r.push(self.jobs[i].request.request_id);
            }
            i = i + 1;
        }
        assert(self@.subrange(0, self@.len() as int) =~= self@);
        r
    }

    /// The identifiers, in storage order, of the jobs not in a terminal
    /// status: those to resume after a restart.
    pub fn list_unfinished(&self) -> (r: Vec<[u8; 32]>)
        ensures
            r@ == ids_unfinished(self@),
    {
        let mut r: Vec<[u8; 32]> = Vec::new();
        let mut i: usize = 0;
        while i < self.jobs.len()
            invariant
                0 <= i <= self@.len(),
                self@.len() == self.jobs@.len(),
                r@ == ids_unfinished(self@.subrange(0, i as int)),
            decreases self.jobs@.len() - i,
        {
            let ghost pre = self@.subrange(0, i as int);
            proof {
                assert(self@.subrange(0, i + 1).drop_last() =~= pre);
            }
            if !self.jobs[i].status.is_terminal() {
                r.push(self.jobs[i].request.request_id);
            }
            i = i + 1;
        }
        assert(self@.subrange(0, self@.len() as int) =~= self@);
        r
    }

    /// A copy of the job with identifier `id`, if any.
    pub fn get(&self, id: &[u8; 32]) -> (r: Option<ProofJob>)
        ensures
            match r {
                Some(j) => exists|i: int| 0 <= i < self@.len() && key(self@[i]) == *id && self@[i] == j@,
                None => !holds(self@, *id),
            },
    {
        match self.find(id) {
            Some(i) => Some(self.jobs[i].duplicate()),
            None => None,
        }
    }

    /// Moves the job with identifier `id` to `new_status`, with `attempts`
    /// and update time `now`, only if its status is `expected`.
    pub fn compare_and_set_status(
        &mut self,
        id: &[u8; 32],
        expected: &JobStatus,
        new_status: JobStatus,
        attempts: u32,
        now: u64,
    ) -> (r: CasOutcome)
        requires
            old(self).wf(),
        ensures
            final(self).wf(),
            final(self)@ == cas_applied(old(self)@, *id, expected@, new_status@, attempts, now),
            match r {
                CasOutcome::Applied => exists|i: int|
                    0 <= i < old(self)@.len() && cas_hits(old(self)@[i], *id, expected@),
                CasOutcome::Conflict(cur) => exists|i: int|
                    0 <= i < old(self)@.len() && key(old(self)@[i]) == *id && old(self)@[i].status
                        == cur@ && cur@ != expected@,
                CasOutcome::NotFound => !holds(old(self)@, *id),
            },
    {
        let ghost s = self@;
        let ghost f = |j: JobView|
            if cas_hits(j, *id, expected@) {
                JobView { status: new_status@, attempts: attempts, updated_at: now, ..j }
            } else {
                j
            };
        match self.find(id) {
            None => {
                assert(cas_applied(s, *id, expected@, new_status@, attempts, now) =~= s);
                CasOutcome::NotFound
            },
            Some(i) => {
                if same_status(&self.jobs[i].status, expected) {
                    let old_job = &self.jobs[i];
                    let job = ProofJob {
                        request: old_job.request.duplicate(),
                        status: new_status,
                        attempts,
                        created_at: old_job.created_at,
                        updated_at: now,
                    };
                    self.jobs.set(i, job);
                    assert(self@ =~= cas_applied(s, *id, expected@, new_status@, attempts, now)) by {
                        assert forall|k: int| 0 <= k < s.len() && k != i implies !cas_hits(s[k], *id, expected@) by {
                            assert(key(s[k]) != key(s[i as int]));
                        }
                    }
                    CasOutcome::Applied
                } else {
                    let cur = copy_status(&self.jobs[i].status);
                    assert(cas_applied(s, *id, expected@, new_status@, attempts, now) =~= s) by {
                        assert forall|k: int| 0 <= k < s.len() implies !cas_hits(s[k], *id, expected@) by {
                            if k != i {
                                assert(key(s[k]) != key(s[i as int]));
                            }
                        }
                    }
                    CasOutcome::Conflict(cur)
                }
            },
        }
    }
}

} // verus!
