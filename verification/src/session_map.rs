//! The session map: the manager's registry of live sessions, at most one
//! per peer. Inserting a session for a peer that already has one tears the
//! old one down first — both its end-call and its stop-session signals fire
//! — so no two sessions for one peer ever run at once.

use crate::peer::PeerId;
use vstd::prelude::*;

verus! {

/// The shared state of one session, as the rest of the program sees it:
/// the signal flags and the counters the statistics collector reads.
#[derive(Clone, Copy, Debug, PartialEq, Eq, Structural)]
pub struct SessionHandle {
    /// The session is in an active call.
    pub in_call: bool,
    /// The end-call signal has fired.
    pub end_call_notified: bool,
    /// The stop-session signal has fired; the session loop exits.
    pub stop_session_cancelled: bool,
    /// The session wants the next incoming sub-stream.
    pub wants_stream: bool,
    /// The selected connection runs through the relay.
    pub relayed: bool,
    /// Last ping latency, in milliseconds.
    pub latency_ms: u64,
}

impl SessionHandle {
    pub fn new(relayed: bool) -> (r: SessionHandle)
        ensures
            r == (SessionHandle {
                in_call: false,
                end_call_notified: false,
                stop_session_cancelled: false,
                wants_stream: false,
                relayed,
                latency_ms: 0,
            }),
    {
        SessionHandle {
            in_call: false,
            end_call_notified: false,
            stop_session_cancelled: false,
            wants_stream: false,
            relayed,
            latency_ms: 0,
        }
    }
}

/// A handle after its teardown: both signals have fired, everything else is
/// as it was.
pub open spec fn torn_down(h: SessionHandle) -> SessionHandle {
    SessionHandle { end_call_notified: true, stop_session_cancelled: true, ..h }
}

/// The position of the entry for a peer, or -1 when there is none.
pub open spec fn first_index(entries: Seq<(PeerId, SessionHandle)>, p: Seq<u8>) -> int
    decreases entries.len(),
{
    if entries.len() == 0 {
        -1
    } else if entries[0].0@ == p {
        0
    } else {
        let r = first_index(entries.drop_first(), p);
        if r < 0 {
            -1
        } else {
            r + 1
        }
    }
}

/// What the position function means: -1 exactly when no entry has the peer,
/// and otherwise the first matching position.
pub proof fn lemma_first_index_props(entries: Seq<(PeerId, SessionHandle)>, p: Seq<u8>)
    ensures
        ({
            let r = first_index(entries, p);
            &&& r == -1 ==> forall|j: int| 0 <= j < entries.len() ==> (#[trigger] entries[j].0)@
                != p
            &&& r != -1 ==> 0 <= r < entries.len() && entries[r].0@ == p && forall|j: int|
                0 <= j < r ==> (#[trigger] entries[j].0)@ != p
        }),
    decreases entries.len(),
{
    if entries.len() > 0 {
        lemma_first_index_props(entries.drop_first(), p);
        if entries[0].0@ != p {
            assert(forall|j: int|
                1 <= j < entries.len() ==> #[trigger] entries[j] == entries.drop_first()[j - 1]);
        }
    }
}

/// The manager's registry of sessions, keyed by peer.
pub struct SessionMap {
    entries: Vec<(PeerId, SessionHandle)>,
}

impl SessionMap {
    pub closed spec fn entries_model(self) -> Seq<(PeerId, SessionHandle)> {
        self.entries@
    }

    /// At most one entry per peer.
    pub open spec fn wf(self) -> bool {
        forall|i: int, j: int|
            0 <= i < j < self.entries_model().len() ==> (#[trigger] self.entries_model()[i].0)@
                != (#[trigger] self.entries_model()[j].0)@
    }

    pub open spec fn contains_peer(self, p: Seq<u8>) -> bool {
        first_index(self.entries_model(), p) != -1
    }

    pub open spec fn handle_for(self, p: Seq<u8>) -> SessionHandle {
        self.entries_model()[first_index(self.entries_model(), p)].1
    }

    pub fn new() -> (r: SessionMap)
        ensures
            r.wf(),
            r.entries_model().len() == 0,
    {
        SessionMap { entries: Vec::new() }
    }

    pub fn len(&self) -> (r: usize)
        ensures
            r == self.entries_model().len(),
    {
        self.entries.len()
    }

    /// The position of the peer's entry, if it has one.
    fn find(&self, peer: &PeerId) -> (r: Option<usize>)
        ensures
            match r {
                Option::Some(i) => i as int == first_index(self.entries_model(), peer@),
                Option::None => first_index(self.entries_model(), peer@) == -1,
            },
    {
        proof {
            lemma_first_index_props(self.entries_model(), peer@);
        }
        let mut i: usize = 0;
        while i < self.entries.len()
            invariant
                i <= self.entries_model().len(),
                forall|j: int|
                    0 <= j < i ==> (#[trigger] self.entries_model()[j].0)@ != peer@,
        decreases self.entries_model().len() - i,
        {
            if self.entries[i].0.same_peer(peer) {
                proof {
                    lemma_first_index_props(self.entries_model(), peer@);
                }
                return Option::Some(i);
            }
            i = i + 1;
        }
        proof {
            lemma_first_index_props(self.entries_model(), peer@);
        }
        Option::None
    }

    /// The handle of the peer's session, if it has one.
    pub fn get(&self, peer: &PeerId) -> (r: Option<SessionHandle>)
        ensures
            match r {
                Option::Some(h) => self.contains_peer(peer@) && h == self.handle_for(peer@),
                Option::None => !self.contains_peer(peer@),
            },
    {
        proof {
            lemma_first_index_props(self.entries_model(), peer@);
        }
        match self.find(peer) {
            Option::Some(i) => Option::Some(self.entries[i].1),
            Option::None => Option::None,
        }
    }

    /// Registers a session for a peer. If the peer already had one, the old
    /// session is torn down — its end-call and stop-session signals both
    /// fire — and handed back; the map keeps at most one entry per peer.
    pub fn insert(&mut self, peer: PeerId, handle: SessionHandle) -> (r: Option<SessionHandle>)
        requires
            old(self).wf(),
        ensures
            final(self).wf(),
            final(self).contains_peer(peer@),
            ({
                let idx = first_index(old(self).entries_model(), peer@);
                if idx == -1 {
                    &&& r is None
                    &&& final(self).entries_model() == old(self).entries_model().push(
                        (peer, handle),
                    )
                } else {
                    &&& r == Option::Some(torn_down(old(self).entries_model()[idx].1))
                    &&& final(self).entries_model() == old(self).entries_model().update(
                        idx,
                        (peer, handle),
                    )
                }
            }),
    {
        proof {
            lemma_first_index_props(self.entries_model(), peer@);
        }
        let ghost old_entries = self.entries_model();
        match self.find(&peer) {
            Option::Some(i) => {
                let old_handle = self.entries[i].1;
                let torn = SessionHandle {
                    end_call_notified: true,
                    stop_session_cancelled: true,
                    ..old_handle
                };
                self.entries.set(i, (peer, handle));
                proof {
                    lemma_first_index_props(self.entries_model(), peer@);
                    assert(self.entries_model()[i as int].0@ == peer@);
                }
                Option::Some(torn)
            },
            Option::None => {
                self.entries.push((peer, handle));
                proof {
                    lemma_first_index_props(self.entries_model(), peer@);
                    assert(self.entries_model()[old_entries.len() as int].0@ == peer@);
                }
                Option::None
            },
        }
    }

    /// Removes and returns the peer's session, as when a contact is deleted
    /// or a session cleans itself up.
    pub fn remove(&mut self, peer: &PeerId) -> (r: Option<SessionHandle>)
        requires
            old(self).wf(),
        ensures
            final(self).wf(),
            !final(self).contains_peer(peer@),
            ({
                let idx = first_index(old(self).entries_model(), peer@);
                if idx == -1 {
                    r is None && final(self).entries_model() == old(self).entries_model()
                } else {
                    &&& r == Option::Some(old(self).entries_model()[idx].1)
                    &&& final(self).entries_model() == old(self).entries_model().remove(idx)
                }
            }),
    {
        proof {
            lemma_first_index_props(self.entries_model(), peer@);
        }
        match self.find(peer) {
            Option::Some(i) => {
                let (_, h) = self.entries.remove(i);
                proof {
                    lemma_first_index_props(self.entries_model(), peer@);
                    if first_index(self.entries_model(), peer@) != -1 {
                        let k = first_index(self.entries_model(), peer@);
                        assert(self.entries_model()[k].0@ == peer@);
                    }
                }
                Option::Some(h)
            },
            Option::None => Option::None,
        }
    }

    /// Tears down every session and empties the map, as a manager restart
    /// does: each handle comes back with both signals fired.
    pub fn reset(&mut self) -> (r: Vec<SessionHandle>)
        requires
            old(self).wf(),
        ensures
            final(self).wf(),
            final(self).entries_model().len() == 0,
            r@.len() == old(self).entries_model().len(),
            forall|i: int|
                0 <= i < r@.len() ==> r@[i] == torn_down(
                    #[trigger] old(self).entries_model()[i].1,
                ),
    {
        let mut out: Vec<SessionHandle> = Vec::new();
        let mut i: usize = 0;
        let n = self.entries.len();
        while i < n
            invariant
                i <= n,
                n == self.entries_model().len(),
                self.entries_model() == old(self).entries_model(),
                out@.len() == i,
                forall|j: int|
                    0 <= j < i ==> out@[j] == torn_down(
                        #[trigger] old(self).entries_model()[j].1,
                    ),
            decreases n - i,
        {
            let h = self.entries[i].1;
            out.push(
                SessionHandle { end_call_notified: true, stop_session_cancelled: true, ..h },
            );
            i = i + 1;
        }
        self.entries.clear();
        out
    }
}

/// At most one session per peer: two distinct entries never name the same
/// peer.
pub proof fn lemma_at_most_one_session(m: SessionMap, i: int, j: int)
    requires
        m.wf(),
        0 <= i < m.entries_model().len(),
        0 <= j < m.entries_model().len(),
        m.entries_model()[i].0@ == m.entries_model()[j].0@,
    ensures
        i == j,
{
}

} // verus!
