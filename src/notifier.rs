use vstd::prelude::*;
use crate::job::{copy_status, is_terminal, JobStatus, Status};
use crate::storage::ids_equal;

verus! {

/// The waiters on one request and its terminal status once known.
pub struct Waiters {
    request_id: [u8; 32],
    outcome: Option<JobStatus>,
    listeners: Vec<u64>,
}

/// The value of the waiters on one request.
pub struct WaitView {
    pub request_id: [u8; 32],
    pub outcome: Option<Status>,
    pub listeners: Seq<u64>,
}

impl View for Waiters {
    type V = WaitView;

    closed spec fn view(&self) -> WaitView {
        WaitView {
            request_id: self.request_id,
            outcome: match self.outcome {
                Some(s) => Some(s@),
                None => None,
            },
            listeners: self.listeners@,
        }
    }
}

/// No two entries share a request identifier.
pub open spec fn entries_unique(s: Seq<WaitView>) -> bool {
    forall|i: int, k: int|
        0 <= i < s.len() && 0 <= k < s.len() && i != k ==> s[i].request_id != s[k].request_id
}

/// Some entry is for request `id`.
pub open spec fn tracked_id(s: Seq<WaitView>, id: [u8; 32]) -> bool {
    exists|i: int| 0 <= i < s.len() && s[i].request_id == id
}

/// The terminal status known for request `id`, if any.
pub open spec fn known_outcome(s: Seq<WaitView>, id: [u8; 32]) -> Option<Status> {
    if exists|i: int| 0 <= i < s.len() && s[i].request_id == id && s[i].outcome is Some {
        let i = choose|i: int| 0 <= i < s.len() && s[i].request_id == id && s[i].outcome is Some;
        s[i].outcome
    } else {
        None
    }
}

/// The listeners waiting on request `id`.
pub open spec fn waiting_on(s: Seq<WaitView>, id: [u8; 32]) -> Seq<u64> {
    if tracked_id(s, id) {
        s[choose|i: int| 0 <= i < s.len() && s[i].request_id == id].listeners
    } else {
        Seq::empty()
    }
}

/// The entries after `listener` starts waiting on request `id`, which has no
/// known outcome.
pub open spec fn with_listener(s: Seq<WaitView>, id: [u8; 32], listener: u64) -> Seq<WaitView> {
    if tracked_id(s, id) {
        s.map_values(
            |w: WaitView|
                if w.request_id == id {
                    WaitView { listeners: w.listeners.push(listener), ..w }
                } else {
                    w
                },
        )
    } else {
        s.push(WaitView { request_id: id, outcome: None, listeners: seq![listener] })
    }
}

/// The entries after terminal status `st` is announced for request `id`: the
/// first announcement is kept and the listeners are released.
pub open spec fn with_outcome(s: Seq<WaitView>, id: [u8; 32], st: Status) -> Seq<WaitView> {
    if tracked_id(s, id) {
        s.map_values(
            |w: WaitView|
                if w.request_id == id && w.outcome is None {
                    WaitView { request_id: id, outcome: Some(st), listeners: Seq::empty() }
                } else {
                    w
                },
        )
    } else {
        s.push(WaitView { request_id: id, outcome: Some(st), listeners: Seq::empty() })
    }
}

/// Wakes waiters when their job reaches a terminal status; a waiter that
/// arrives after the fact is answered at once.
pub struct Notifier {
    entries: Vec<Waiters>,
}

impl View for Notifier {
    type V = Seq<WaitView>;

    closed spec fn view(&self) -> Seq<WaitView> {
        self.entries@.map_values(|w: Waiters| w@)
    }
}

impl Notifier {
    /// Well-formed: one entry per request.
    pub open spec fn wf(&self) -> bool {
        entries_unique(self@)
    }

    /// A notifier with no entries.
    pub fn new() -> (r: Notifier)
        ensures
            r.wf(),
            r@ == Seq::<WaitView>::empty(),
    {
        let r = Notifier { entries: Vec::new() };
        assert(r@ =~= Seq::<WaitView>::empty());
        r
    }

    fn find(&self, id: &[u8; 32]) -> (r: Option<usize>)
        ensures
            match r {
                Some(i) => i < self@.len() && self@[i as int].request_id == *id,
                None => !tracked_id(self@, *id),
            },
    {
        let mut i: usize = 0;
        while i < self.entries.len()
            invariant
                0 <= i <= self@.len(),
                self@.len() == self.entries@.len(),
                forall|k: int| 0 <= k < i ==> self@[k].request_id != *id,
            decreases self.entries@.len() - i,
        {
            if ids_equal(&self.entries[i].request_id, id) {
                return Some(i);
            }
            i = i + 1;
        }
        None
    }

    /// Registers `listener` on request `id`. If a terminal status is known
    /// already it is returned and nothing is registered; otherwise the
    /// listener waits and `None` is returned.
    pub fn register(&mut self, id: &[u8; 32], listener: u64) -> (r: Option<JobStatus>)
        requires
            old(self).wf(),
        ensures
            final(self).wf(),
            match known_outcome(old(self)@, *id) {
                Some(st) => r matches Some(x) && x@ == st && final(self)@ == old(self)@,
                None => r is None && final(self)@ == with_listener(old(self)@, *id, listener),
            },
    {
        let ghost s = self@;
        match self.find(id) {
            Some(i) => {
                assert(forall|k: int| 0 <= k < s.len() && s[k].request_id == *id ==> k == i);
                match &self.entries[i].outcome {
                    Some(st) => {
                        assert(s[i as int].outcome is Some);
                        Some(copy_status(st))
                    },
                    None => {
                        let mut w = self.entries.remove(i);
                        w.listeners.push(listener);
                        self.entries.insert(i, w);
                        assert(self@ =~= with_listener(s, *id, listener)) by {
                            assert forall|k: int| 0 <= k < s.len() && k != i implies s[k].request_id != *id by {}
                        }
                        None
                    },
                }
            },
            None => {
                let mut listeners: Vec<u64> = Vec::new();
                listeners.push(listener);
                self.entries.push(Waiters { request_id: *id, outcome: None, listeners });
                assert(self@ =~= with_listener(s, *id, listener));
                None
            },
        }
    }

    /// Announces terminal status `st` for request `id`: returns the
    /// listeners to wake and keeps the status for later arrivals. A request
    /// announced before keeps its first status and has no one to wake.
    pub fn broadcast(&mut self, id: &[u8; 32], st: &JobStatus) -> (r: Vec<u64>)
        requires
            old(self).wf(),
            is_terminal(st@),
        ensures
            final(self).wf(),
            final(self)@ == with_outcome(old(self)@, *id, st@),
            known_outcome(old(self)@, *id) is None ==> r@ == waiting_on(old(self)@, *id),
            known_outcome(old(self)@, *id) is Some ==> r@.len() == 0,
    {
        let ghost s = self@;
        match self.find(id) {
            Some(i) => {
                assert(forall|k: int| 0 <= k < s.len() && s[k].request_id == *id ==> k == i);
                if self.entries[i].outcome.is_some() {
                    assert(with_outcome(s, *id, st@) =~= s);
                    Vec::new()
                } else {
                    let w = self.entries.remove(i);
                    let woken = w.listeners;
                    self.entries.insert(
                        i,
                        Waiters { request_id: *id, outcome: Some(copy_status(st)), listeners: Vec::new() },
                    );
                    assert(self@ =~= with_outcome(s, *id, st@));
                    woken
                }
            },
            None => {
                self.entries.push(
                    Waiters { request_id: *id, outcome: Some(copy_status(st)), listeners: Vec::new() },
                );
                assert(self@ =~= with_outcome(s, *id, st@));
                Vec::new()
            },
        }
    }
}

} // verus!
