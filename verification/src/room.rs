//! The room controller: the N-peer variant of a call. One shared microphone
//! fan-out feeds every member, and each `Join` brings up one output pipeline
//! for the joining peer, torn down again by its `Leave`. There is at most
//! one room at a time; installing a new one tears the old one down first.

use crate::peer::{peers_model, PeerId};
use vstd::prelude::*;

verus! {

/// What a room session reports to its room controller.
pub enum RoomMessage {
    /// The peer's media transport is up: start an output pipeline for it.
    Join(PeerId),
    /// The peer left: tear its output pipeline down.
    Leave(PeerId),
}

/// Mathematical image of a [`RoomMessage`].
pub ghost enum RoomMessageModel {
    Join(Seq<u8>),
    Leave(Seq<u8>),
}

impl View for RoomMessage {
    type V = RoomMessageModel;

    open spec fn view(&self) -> RoomMessageModel {
        match *self {
            RoomMessage::Join(ref p) => RoomMessageModel::Join(p@),
            RoomMessage::Leave(ref p) => RoomMessageModel::Leave(p@),
        }
    }
}

/// The position of a peer in a list of peers, or -1 when absent.
pub open spec fn peer_index(outs: Seq<Seq<u8>>, p: Seq<u8>) -> int
    decreases outs.len(),
{
    if outs.len() == 0 {
        -1
    } else if outs[0] == p {
        0
    } else {
        let r = peer_index(outs.drop_first(), p);
        if r < 0 {
            -1
        } else {
            r + 1
        }
    }
}

pub proof fn lemma_peer_index_props(outs: Seq<Seq<u8>>, p: Seq<u8>)
    ensures
        ({
            let r = peer_index(outs, p);
            &&& r == -1 ==> forall|j: int| 0 <= j < outs.len() ==> #[trigger] outs[j] != p
            &&& r != -1 ==> 0 <= r < outs.len() && outs[r] == p && forall|j: int|
                0 <= j < r ==> #[trigger] outs[j] != p
        }),
    decreases outs.len(),
{
    if outs.len() > 0 {
        lemma_peer_index_props(outs.drop_first(), p);
        if outs[0] != p {
            assert(forall|j: int|
                1 <= j < outs.len() ==> #[trigger] outs[j] == outs.drop_first()[j - 1]);
        }
    }
}

/// The peers with an output pipeline after one room message.
pub open spec fn room_step(outs: Seq<Seq<u8>>, e: RoomMessageModel) -> Seq<Seq<u8>> {
    match e {
        RoomMessageModel::Join(p) => if peer_index(outs, p) == -1 {
            outs.push(p)
        } else {
            outs
        },
        RoomMessageModel::Leave(p) => if peer_index(outs, p) == -1 {
            outs
        } else {
            outs.remove(peer_index(outs, p))
        },
    }
}

/// The peers with an output pipeline after a whole message sequence.
pub open spec fn room_run(outs: Seq<Seq<u8>>, events: Seq<RoomMessageModel>) -> Seq<Seq<u8>>
    decreases events.len(),
{
    if events.len() == 0 {
        outs
    } else {
        room_run(room_step(outs, events[0]), events.drop_first())
    }
}

/// Joins received minus leaves received.
pub open spec fn joins_minus_leaves(events: Seq<RoomMessageModel>) -> int
    decreases events.len(),
{
    if events.len() == 0 {
        0
    } else {
        (match events[0] {
            RoomMessageModel::Join(_) => 1int,
            RoomMessageModel::Leave(_) => -1int,
        }) + joins_minus_leaves(events.drop_first())
    }
}

/// A message sequence a healthy room produces: every `Join` names a peer
/// without an output, every `Leave` a peer with one.
pub open spec fn matched_events(outs: Seq<Seq<u8>>, events: Seq<RoomMessageModel>) -> bool
    decreases events.len(),
{
    if events.len() == 0 {
        true
    } else {
        (match events[0] {
            RoomMessageModel::Join(p) => peer_index(outs, p) == -1,
            RoomMessageModel::Leave(p) => peer_index(outs, p) != -1,
        }) && matched_events(room_step(outs, events[0]), events.drop_first())
    }
}

/// The room controller's balance law: over any message sequence in which a
/// peer joins only while absent and leaves only while present, the number of
/// live output pipelines equals the number of `Join` messages received minus
/// the number of `Leave` messages received.
pub proof fn lemma_room_output_balance(outs: Seq<Seq<u8>>, events: Seq<RoomMessageModel>)
    requires
        matched_events(outs, events),
    ensures
        room_run(outs, events).len() == outs.len() + joins_minus_leaves(events),
    decreases events.len(),
{
    if events.len() > 0 {
        match events[0] {
            RoomMessageModel::Join(p) => {},
            RoomMessageModel::Leave(p) => {
                lemma_peer_index_props(outs, p);
            },
        }
        lemma_room_output_balance(room_step(outs, events[0]), events.drop_first());
    }
}

/// What the controller does in response to one room message.
#[derive(Debug, PartialEq, Eq, Structural)]
pub enum RoomAction {
    /// Bring up an output pipeline and a receive task for the new peer;
    /// `first` says the room just got its first connection, which moves the
    /// call state from waiting to connected.
    StartOutput { first: bool },
    /// The peer already had an output: replace it.
    ReplaceOutput,
    /// Tear down and join the peer's output pipeline.
    TearDownOutput,
    /// A leave for a peer without an output: nothing to tear down.
    UnknownLeave,
}

/// Tracks which peers have a live output pipeline.
pub struct RoomController {
    outputs: Vec<PeerId>,
}

impl RoomController {
    pub closed spec fn outputs_model(self) -> Seq<Seq<u8>> {
        peers_model(self.outputs@)
    }

    /// One output per peer.
    pub open spec fn wf(self) -> bool {
        forall|i: int, j: int|
            0 <= i < j < self.outputs_model().len() ==> #[trigger] self.outputs_model()[i]
                != #[trigger] self.outputs_model()[j]
    }

    pub fn new() -> (r: RoomController)
        ensures
            r.wf(),
            r.outputs_model().len() == 0,
    {
        let r = RoomController { outputs: Vec::new() };
        proof {
            assert(r.outputs_model() =~= Seq::<Seq<u8>>::empty());
        }
        r
    }

    pub fn output_count(&self) -> (r: usize)
        ensures
            r == self.outputs_model().len(),
    {
        self.outputs.len()
    }

    fn find(&self, peer: &PeerId) -> (r: Option<usize>)
        ensures
            match r {
                Option::Some(i) => i as int == peer_index(self.outputs_model(), peer@),
                Option::None => peer_index(self.outputs_model(), peer@) == -1,
            },
    {
        let mut i: usize = 0;
        while i < self.outputs.len()
            invariant
                i <= self.outputs_model().len(),
                self.outputs_model().len() == self.outputs@.len(),
                forall|j: int| 0 <= j < i ==> #[trigger] self.outputs_model()[j] != peer@,
            decreases self.outputs@.len() - i,
        {
            proof {
                assert(self.outputs_model()[i as int] == self.outputs@[i as int]@);
            }
            if self.outputs[i].same_peer(peer) {
                proof {
                    lemma_peer_index_props(self.outputs_model(), peer@);
                }
                return Option::Some(i);
            }
            i = i + 1;
        }
        proof {
            lemma_peer_index_props(self.outputs_model(), peer@);
        }
        Option::None
    }

    /// Applies one room message: a join brings up an output for the peer, a
    /// leave tears its output down.
    pub fn handle(&mut self, message: &RoomMessage) -> (r: RoomAction)
        requires
            old(self).wf(),
        ensures
            final(self).wf(),
            final(self).outputs_model() == room_step(old(self).outputs_model(), message@),
            ({
                match message@ {
                    RoomMessageModel::Join(p) => if peer_index(old(self).outputs_model(), p)
                        == -1 {
                        r == (RoomAction::StartOutput {
                            first: old(self).outputs_model().len() == 0,
                        })
                    } else {
                        r == RoomAction::ReplaceOutput
                    },
                    RoomMessageModel::Leave(p) => if peer_index(old(self).outputs_model(), p)
                        == -1 {
                        r == RoomAction::UnknownLeave
                    } else {
                        r == RoomAction::TearDownOutput
                    },
                }
            }),
    {
        match message {
            RoomMessage::Join(peer) => {
                match self.find(peer) {
                    Option::Some(_) => RoomAction::ReplaceOutput,
                    Option::None => {
                        let first = self.outputs.len() == 0;
                        self.outputs.push(peer.duplicate());
                        proof {
                            lemma_peer_index_props(old(self).outputs_model(), peer@);
                            assert(self.outputs_model() =~= old(self).outputs_model().push(
                                peer@,
                            ));
                        }
                        RoomAction::StartOutput { first }
                    },
                }
            },
            RoomMessage::Leave(peer) => {
                match self.find(peer) {
                    Option::Some(i) => {
                        proof {
                            lemma_peer_index_props(self.outputs_model(), peer@);
                        }
                        self.outputs.remove(i);
                        proof {
                            assert(self.outputs_model() =~= old(self).outputs_model().remove(
                                i as int,
                            ));
                        }
                        RoomAction::TearDownOutput
                    },
                    Option::None => RoomAction::UnknownLeave,
                }
            },
        }
    }
}

// ---------------------------------------------------------------------------
// The room singleton.
// ---------------------------------------------------------------------------

/// One room's shared control state: its members and the signals that end it.
#[derive(Clone, Debug)]
pub struct RoomInfo {
    /// The members the room was joined with.
    pub peers: Vec<PeerId>,
    /// The room's cancel token has fired.
    pub cancelled: bool,
    /// The room's end-call signal has fired.
    pub end_call_notified: bool,
}

/// The at-most-one-room slot: installing a new room tears down the one it
/// replaces — its cancel token and its end-call signal both fire.
pub struct RoomSlot {
    current: Option<RoomInfo>,
}

impl RoomSlot {
    pub closed spec fn current_model(self) -> Option<RoomInfo> {
        self.current
    }

    pub fn new() -> (r: RoomSlot)
        ensures
            r.current_model() is None,
    {
        RoomSlot { current: Option::None }
    }

    pub fn is_active(&self) -> (r: bool)
        ensures
            r == (self.current_model() is Some),
    {
        self.current.is_some()
    }

    /// Installs a new room, handing back the torn-down previous room if
    /// there was one: both of its signals have fired.
    pub fn replace(&mut self, peers: Vec<PeerId>) -> (r: Option<RoomInfo>)
        ensures
            ({
                let cur = final(self).current_model();
                &&& cur matches Option::Some(info) && info.peers == peers && !info.cancelled
                    && !info.end_call_notified
            }),
            match old(self).current_model() {
                Option::Some(prev) => r matches Option::Some(out) && out.peers == prev.peers
                    && out.cancelled && out.end_call_notified,
                Option::None => r is None,
            },
    {
        let prev = self.current.take();
        self.current = Option::Some(
            RoomInfo { peers, cancelled: false, end_call_notified: false },
        );
        match prev {
            Option::Some(info) => Option::Some(
                RoomInfo { peers: info.peers, cancelled: true, end_call_notified: true },
            ),
            Option::None => Option::None,
        }
    }

    /// Clears the room when its controller finishes.
    pub fn clear(&mut self)
        ensures
            final(self).current_model() is None,
    {
        self.current = Option::None;
    }

    /// Whether a peer is a member of the current room.
    pub fn is_in_room(&self, peer: &PeerId) -> (r: bool)
        ensures
            r == match self.current_model() {
                Option::Some(info) => peer_index(
                    peers_model(info.peers@),
                    peer@,
                ) != -1,
                Option::None => false,
            },
    {
        match &self.current {
            Option::Some(info) => {
                let ghost outs = peers_model(info.peers@);
                let mut i: usize = 0;
                while i < info.peers.len()
                    invariant
                        i <= info.peers@.len(),
                        self.current_model() matches Option::Some(cur) && cur.peers@
                            == info.peers@,
                        outs == peers_model(info.peers@),
                        outs.len() == info.peers@.len(),
                        forall|j: int| 0 <= j < i ==> #[trigger] outs[j] != peer@,
                    decreases info.peers@.len() - i,
                {
                    proof {
                        assert(outs[i as int] == info.peers@[i as int]@);
                    }
                    if info.peers[i].same_peer(peer) {
                        proof {
                            lemma_peer_index_props(outs, peer@);
                        }
                        return true;
                    }
                    i = i + 1;
                }
                proof {
                    lemma_peer_index_props(outs, peer@);
                }
                false
            },
            Option::None => false,
        }
    }

    /// The room hash of the current room, as exchanged in `Hello`.
    pub fn room_hash(&self) -> (r: Option<Vec<u8>>)
        ensures
            match self.current_model() {
                Option::Some(info) => r matches Option::Some(h) && h@
                    == crate::peer::room_hash_model(peers_model(info.peers@)),
                Option::None => r is None,
            },
    {
        match &self.current {
            Option::Some(info) => Option::Some(crate::peer::room_hash(&info.peers)),
            Option::None => Option::None,
        }
    }
}

} // verus!
