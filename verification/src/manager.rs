//! The session manager's connection bookkeeping: while a session with a
//! peer is negotiated, every candidate connection is scored, and once every
//! candidate has a latency the best one is selected — direct before relayed,
//! nearer before farther, faster before slower. The simultaneous-dial
//! tie-break and the decisions for incoming connections live here too.

use crate::peer::{bytes_lt, PeerId};
use vstd::prelude::*;

verus! {

/// A remote address, as far as connection scoring reads it.
#[derive(Clone, Copy, Debug)]
pub enum IpAddress {
    V4(u8, u8, u8, u8),
    V6([u8; 16]),
}

/// How near a connection's remote address is.
#[derive(Clone, Copy, Debug, PartialEq, Eq, Structural)]
pub enum Locality {
    Loopback,
    Lan,
    Public,
    Unknown,
}

pub open spec fn v6_is_loopback(s: Seq<u8>) -> bool {
    (forall|i: int| 0 <= i < 15 ==> s[i] == 0) && s[15] == 1
}

/// The locality of an address: the loopback ranges, then the private and
/// link-local ranges, then everything else; no address ranks last.
pub open spec fn locality_of(addr: Option<IpAddress>) -> Locality {
    match addr {
        Option::None => Locality::Unknown,
        Option::Some(IpAddress::V4(a, b, _, _)) => if a == 127 {
            Locality::Loopback
        } else if a == 10 || (a == 172 && 16 <= b < 32) || (a == 192 && b == 168) || (a == 169
            && b == 254) {
            Locality::Lan
        } else {
            Locality::Public
        },
        Option::Some(IpAddress::V6(s)) => if v6_is_loopback(s@) {
            Locality::Loopback
        } else if s@[0] & 0xfe == 0xfc || (s@[0] == 0xfe && s@[1] & 0xc0 == 0x80) {
            Locality::Lan
        } else {
            Locality::Public
        },
    }
}

/// Classifies an address: loopback, then the private (10/8, 172.16/12,
/// 192.168/16, unique-local) and link-local ranges, then public; a missing
/// address is unknown.
pub fn classify_locality(addr: &Option<IpAddress>) -> (r: Locality)
    ensures
        r == locality_of(*addr),
{
    match addr {
        Option::None => Locality::Unknown,
        Option::Some(IpAddress::V4(a, b, _, _)) => {
            if *a == 127 {
                Locality::Loopback
            } else if *a == 10 || (*a == 172 && 16 <= *b && *b < 32) || (*a == 192 && *b == 168)
                || (*a == 169 && *b == 254) {
                Locality::Lan
            } else {
                Locality::Public
            }
        },
        Option::Some(IpAddress::V6(s)) => {
            let mut head_zero = true;
            let mut i: usize = 0;
            while i < 15
                invariant
                    i <= 15,
                    head_zero == (forall|j: int| 0 <= j < i ==> s@[j] == 0),
                decreases 15 - i,
            {
                if s[i] != 0 {
                    head_zero = false;
                }
                i = i + 1;
            }
            if head_zero && s[15] == 1 {
                Locality::Loopback
            } else if s[0] & 0xfe == 0xfc || (s[0] == 0xfe && s[1] & 0xc0 == 0x80) {
                Locality::Lan
            } else {
                Locality::Public
            }
        },
    }
}

pub open spec fn locality_rank(l: Locality) -> int {
    match l {
        Locality::Loopback => 0,
        Locality::Lan => 1,
        Locality::Public => 2,
        Locality::Unknown => 3,
    }
}

/// One candidate connection while a session is negotiated.
#[derive(Clone, Copy, Debug)]
pub struct ConnectionState {
    /// The connection's identifier, unique within the swarm.
    pub id: u64,
    /// Last measured round trip, in milliseconds, once a ping completed.
    pub latency_ms: Option<u64>,
    /// The connection runs through the relay's circuit.
    pub relayed: bool,
    /// The remote address, when the transport exposes one.
    pub remote_address: Option<IpAddress>,
    /// Failed attempts to open a stream on this connection.
    pub retries: u64,
}

pub open spec fn relayed_rank(c: ConnectionState) -> int {
    if c.relayed {
        1
    } else {
        0
    }
}

pub open spec fn latency_rank(c: ConnectionState) -> int {
    match c.latency_ms {
        Option::Some(l) => l as int,
        Option::None => 0x1_0000_0000_0000_0000,
    }
}

pub open spec fn ipv6_rank(c: ConnectionState) -> int {
    match c.remote_address {
        Option::Some(IpAddress::V6(_)) => 0,
        _ => 1,
    }
}

/// The scoring order: lower is better. Direct beats relayed; then nearer
/// localities; then lower latency (a missing latency ranks below every
/// measured one); then fewer retries; then an IPv6 address; the connection
/// identifier makes the order deterministic.
pub open spec fn conn_lt(a: ConnectionState, b: ConnectionState) -> bool {
    if relayed_rank(a) != relayed_rank(b) {
        relayed_rank(a) < relayed_rank(b)
    } else if locality_rank(locality_of(a.remote_address)) != locality_rank(
        locality_of(b.remote_address),
    ) {
        locality_rank(locality_of(a.remote_address)) < locality_rank(
            locality_of(b.remote_address),
        )
    } else if latency_rank(a) != latency_rank(b) {
        latency_rank(a) < latency_rank(b)
    } else if a.retries != b.retries {
        a.retries < b.retries
    } else if ipv6_rank(a) != ipv6_rank(b) {
        ipv6_rank(a) < ipv6_rank(b)
    } else {
        a.id < b.id
    }
}

pub open spec fn conn_le(a: ConnectionState, b: ConnectionState) -> bool {
    !conn_lt(b, a)
}

proof fn lemma_conn_lt_trans(a: ConnectionState, b: ConnectionState, c: ConnectionState)
    requires
        conn_lt(a, b),
        !conn_lt(c, b),
    ensures
        conn_lt(a, c),
{
}

/// Whether `a` scores strictly better than `b`.
fn conn_better(a: &ConnectionState, b: &ConnectionState) -> (r: bool)
    ensures
        r == conn_lt(*a, *b),
{
    let ar = if a.relayed {
        1u8
    } else {
        0u8
    };
    let br = if b.relayed {
        1u8
    } else {
        0u8
    };
    if ar != br {
        return ar < br;
    }
    let al = locality_value(classify_locality(&a.remote_address));
    let bl = locality_value(classify_locality(&b.remote_address));
    if al != bl {
        return al < bl;
    }
    let alat = latency_value(a);
    let blat = latency_value(b);
    if alat != blat {
        return alat < blat;
    }
    if a.retries != b.retries {
        return a.retries < b.retries;
    }
    let a6 = ipv6_value(a);
    let b6 = ipv6_value(b);
    if a6 != b6 {
        return a6 < b6;
    }
    a.id < b.id
}

fn locality_value(l: Locality) -> (r: u8)
    ensures
        r as int == locality_rank(l),
{
    match l {
        Locality::Loopback => 0,
        Locality::Lan => 1,
        Locality::Public => 2,
        Locality::Unknown => 3,
    }
}

fn latency_value(c: &ConnectionState) -> (r: u128)
    ensures
        r as int == latency_rank(*c),
{
    match c.latency_ms {
        Option::Some(l) => l as u128,
        Option::None => 0x1_0000_0000_0000_0000,
    }
}

fn ipv6_value(c: &ConnectionState) -> (r: u8)
    ensures
        r as int == ipv6_rank(*c),
{
    match c.remote_address {
        Option::Some(IpAddress::V6(_)) => 0,
        _ => 1,
    }
}

/// Picks the best candidate: the first connection that no other one beats.
/// Direct connections always win over relayed ones, then locality, latency,
/// retries and address family decide, in that order.
pub fn select_best_connection(conns: &Vec<ConnectionState>) -> (r: Option<usize>)
    ensures
        r is Some <==> conns@.len() > 0,
        r matches Option::Some(i) ==> {
            &&& i < conns@.len()
            &&& forall|j: int| 0 <= j < conns@.len() ==> conn_le(conns@[i as int], #[trigger] conns@[j])
            &&& forall|j: int| 0 <= j < i ==> conn_lt(conns@[i as int], #[trigger] conns@[j])
        },
{
    if conns.len() == 0 {
        return Option::None;
    }
    let mut best: usize = 0;
    let mut j: usize = 1;
    while j < conns.len()
        invariant
            best < j <= conns@.len(),
            forall|k: int| 0 <= k < j ==> conn_le(conns@[best as int], #[trigger] conns@[k]),
            forall|k: int| 0 <= k < best ==> conn_lt(conns@[best as int], #[trigger] conns@[k]),
        decreases conns@.len() - j,
    {
        if conn_better(&conns[j], &conns[best]) {
            proof {
                assert forall|k: int| 0 <= k < j implies conn_lt(
                    conns@[j as int],
                    #[trigger] conns@[k],
                ) by {
                    if k != best {
                        lemma_conn_lt_trans(conns@[j as int], conns@[best as int], conns@[k]);
                    }
                }
            }
            best = j;
        }
        j = j + 1;
    }
    Option::Some(best)
}

/// Selection never prefers a relayed connection while a direct one is on the
/// table.
pub proof fn lemma_selection_prefers_direct(conns: Seq<ConnectionState>, i: int, j: int)
    requires
        0 <= i < conns.len(),
        0 <= j < conns.len(),
        forall|k: int| 0 <= k < conns.len() ==> conn_le(conns[i], #[trigger] conns[k]),
        !conns[j].relayed,
    ensures
        !conns[i].relayed,
{
    assert(conn_le(conns[i], conns[j]));
}

// ---------------------------------------------------------------------------
// Per-peer negotiation state.
// ---------------------------------------------------------------------------

/// The transient state of one peer while its session is negotiated; dropped
/// as soon as a session control stream is open.
#[derive(Clone, Debug)]
pub struct PeerState {
    /// The peer's identify info has been handled.
    pub dialed: bool,
    /// We dialed this peer (and will open the session stream).
    pub dialer: bool,
    /// The candidate connections.
    pub connections: Vec<ConnectionState>,
    /// A connection has been selected; the session stream may open.
    pub selected_connection: bool,
    /// Hole punching failed, so a relayed connection is acceptable.
    pub dcutr_failed: bool,
}

impl PeerState {
    /// The state of a peer we dialed.
    pub fn dialer() -> (r: PeerState)
        ensures
            r.dialer,
            !r.dialed,
            !r.selected_connection,
            !r.dcutr_failed,
            r.connections@.len() == 0,
    {
        PeerState {
            dialed: false,
            dialer: true,
            connections: Vec::new(),
            selected_connection: false,
            dcutr_failed: false,
        }
    }

    /// The state of a peer that dialed us, with its first connection.
    pub fn non_dialer(first: ConnectionState) -> (r: PeerState)
        ensures
            !r.dialer,
            !r.dialed,
            !r.selected_connection,
            !r.dcutr_failed,
            r.connections@ == seq![first],
    {
        let mut connections: Vec<ConnectionState> = Vec::new();
        connections.push(first);
        proof {
            assert(connections@ =~= seq![first]);
        }
        PeerState {
            dialed: false,
            dialer: false,
            connections,
            selected_connection: false,
            dcutr_failed: false,
        }
    }

    /// Every candidate runs through the relay.
    pub fn relayed_only(&self) -> (r: bool)
        ensures
            r == (forall|i: int|
                0 <= i < self.connections@.len() ==> (#[trigger] self.connections@[i]).relayed),
    {
        let mut i: usize = 0;
        while i < self.connections.len()
            invariant
                i <= self.connections@.len(),
                forall|j: int| 0 <= j < i ==> (#[trigger] self.connections@[j]).relayed,
            decreases self.connections@.len() - i,
        {
            if !self.connections[i].relayed {
                return false;
            }
            i = i + 1;
        }
        true
    }

    /// Some candidate has no latency yet.
    pub fn latencies_missing(&self) -> (r: bool)
        ensures
            r == !(forall|i: int|
                0 <= i < self.connections@.len() ==> (#[trigger] self.connections@[i]).latency_ms
                    is Some),
    {
        let mut i: usize = 0;
        while i < self.connections.len()
            invariant
                i <= self.connections@.len(),
                forall|j: int|
                    0 <= j < i ==> (#[trigger] self.connections@[j]).latency_ms is Some,
            decreases self.connections@.len() - i,
        {
            if self.connections[i].latency_ms.is_none() {
                return true;
            }
            i = i + 1;
        }
        false
    }

    /// Whether a connection may be selected now: every candidate has a
    /// latency, and a relayed-only candidate set is acceptable only once
    /// hole punching has failed.
    pub fn ready_to_select(&self) -> (r: bool)
        ensures
            r == ({
                &&& self.connections@.len() > 0
                &&& (forall|i: int|
                    0 <= i < self.connections@.len() ==> (#[trigger] self.connections@[i]).latency_ms
                        is Some)
                &&& ((exists|i: int|
                    0 <= i < self.connections@.len() && !(#[trigger] self.connections@[i]).relayed)
                    || self.dcutr_failed)
            }),
    {
        if self.connections.len() == 0 {
            return false;
        }
        if self.latencies_missing() {
            return false;
        }
        let all_relayed = self.relayed_only();
        if all_relayed && !self.dcutr_failed {
            proof {
                assert(forall|i: int|
                    0 <= i < self.connections@.len() ==> (#[trigger] self.connections@[i]).relayed);
            }
            return false;
        }
        proof {
            if !all_relayed {
                assert(exists|i: int|
                    0 <= i < self.connections@.len() && !(#[trigger] self.connections@[i]).relayed);
            }
        }
        true
    }

    /// Records a ping result on the matching candidate; connections that are
    /// no longer tracked are ignored.
    pub fn record_latency(&mut self, conn_id: u64, latency_ms: u64) -> (found: bool)
        ensures
            found == (exists|i: int|
                0 <= i < old(self).connections@.len() && (#[trigger] old(
                    self,
                ).connections@[i]).id == conn_id),
            final(self).dialed == old(self).dialed,
            final(self).dialer == old(self).dialer,
            final(self).selected_connection == old(self).selected_connection,
            final(self).dcutr_failed == old(self).dcutr_failed,
            final(self).connections@.len() == old(self).connections@.len(),
            forall|i: int|
                0 <= i < old(self).connections@.len() ==> #[trigger] final(self).connections@[i]
                    == if old(self).connections@[i].id == conn_id && (forall|j: int|
                    0 <= j < i ==> (#[trigger] old(self).connections@[j]).id != conn_id) {
                    ConnectionState {
                        latency_ms: Option::Some(latency_ms),
                        ..old(self).connections@[i]
                    }
                } else {
                    old(self).connections@[i]
                },
    {
        let mut i: usize = 0;
        while i < self.connections.len()
            invariant
                i <= self.connections@.len(),
                self.connections@.len() == old(self).connections@.len(),
                self.dialed == old(self).dialed,
                self.dialer == old(self).dialer,
                self.selected_connection == old(self).selected_connection,
                self.dcutr_failed == old(self).dcutr_failed,
                forall|j: int|
                    0 <= j < i ==> (#[trigger] old(self).connections@[j]).id != conn_id,
                self.connections@ == old(self).connections@,
            decreases self.connections@.len() - i,
        {
            if self.connections[i].id == conn_id {
                let updated = ConnectionState {
                    latency_ms: Option::Some(latency_ms),
                    ..self.connections[i]
                };
                self.connections.set(i, updated);
                proof {
                    assert(forall|k: int|
                        0 <= k < old(self).connections@.len() && k != i ==> #[trigger] self
                            .connections@[k] == old(self).connections@[k]);
                }
                return true;
            }
            i = i + 1;
        }
        false
    }

    /// Drops a closed or failed connection; says whether the peer now has
    /// none left (its state can then be discarded).
    pub fn remove_connection(&mut self, conn_id: u64) -> (empty: bool)
        ensures
            final(self).dialed == old(self).dialed,
            final(self).dialer == old(self).dialer,
            final(self).selected_connection == old(self).selected_connection,
            final(self).dcutr_failed == old(self).dcutr_failed,
            final(self).connections@ == keep_other_conns(old(self).connections@, conn_id),
            empty == (final(self).connections@.len() == 0),
    {
        let mut kept: Vec<ConnectionState> = Vec::new();
        let mut i: usize = 0;
        proof {
            assert(kept@ =~= keep_other_conns(self.connections@.take(0), conn_id));
        }
        while i < self.connections.len()
            invariant
                i <= self.connections@.len(),
                kept@ == keep_other_conns(self.connections@.take(i as int), conn_id),
            decreases self.connections@.len() - i,
        {
            proof {
                lemma_keep_other_conns_snoc(self.connections@, conn_id, i as int);
            }
            let c = self.connections[i];
            if c.id != conn_id {
                kept.push(c);
            }
            i = i + 1;
        }
        proof {
            assert(self.connections@.take(self.connections@.len() as int) =~= self.connections@);
        }
        self.connections = kept;
        self.connections.len() == 0
    }
}

/// The candidates that survive dropping one connection identifier.
pub open spec fn keep_other_conns(s: Seq<ConnectionState>, id: u64) -> Seq<ConnectionState>
    decreases s.len(),
{
    if s.len() == 0 {
        Seq::empty()
    } else {
        let rest = keep_other_conns(s.drop_first(), id);
        if s[0].id == id {
            rest
        } else {
            seq![s[0]] + rest
        }
    }
}

proof fn lemma_keep_other_conns_snoc(s: Seq<ConnectionState>, id: u64, i: int)
    requires
        0 <= i < s.len(),
    ensures
        keep_other_conns(s.take(i + 1), id) == if s[i].id == id {
            keep_other_conns(s.take(i), id)
        } else {
            keep_other_conns(s.take(i), id).push(s[i])
        },
    decreases i,
{
    if i == 0 {
        assert(s.take(1).drop_first() =~= s.take(0));
        if s[0].id != id {
            assert(seq![s[0]] + Seq::<ConnectionState>::empty() =~= Seq::<
                ConnectionState,
            >::empty().push(s[0]));
        }
    } else {
        lemma_keep_other_conns_snoc(s.drop_first(), id, i - 1);
        assert(s.take(i + 1).drop_first() =~= s.drop_first().take(i));
        assert(s.take(i).drop_first() =~= s.drop_first().take(i - 1));
        assert(s.take(i + 1)[0] == s[0]);
        assert(s.take(i)[0] == s[0]);
        if s[0].id != id && s[i].id != id {
            assert(seq![s[0]] + keep_other_conns(s.drop_first().take(i - 1), id).push(
                s.drop_first()[i - 1],
            ) =~= (seq![s[0]] + keep_other_conns(s.drop_first().take(i - 1), id)).push(s[i]));
        }
    }
}

/// The simultaneous-dial tie-break: when both peers dialed each other, the
/// peer with the numerically larger identifier stays the dialer, so exactly
/// one of the two opens the session stream.
pub fn stays_dialer(our_id: &PeerId, peer_id: &PeerId) -> (r: bool)
    ensures
        r == bytes_lt(peer_id@, our_id@),
{
    peer_id.is_less_than(our_id)
}

/// What the manager does with a newly established connection.
#[derive(Debug, PartialEq, Eq, Structural)]
pub enum ConnectionDecision {
    /// The relay's own connection: not a peer.
    IgnoreRelay,
    /// The peer already has a session; this connection plays no role.
    IgnoreExistingSession,
    /// Neither a contact nor a room member: disconnect it.
    DisconnectUnknown,
    /// Track the connection under the peer's negotiation state; with
    /// `switch_to_non_dialer`, both sides dialed and we are the smaller
    /// peer, so we give up the dialer role.
    TrackConnection { switch_to_non_dialer: bool },
    /// First connection from a peer that dialed us: create its state and
    /// report the session as connecting.
    TrackNewNonDialer,
    /// An outgoing connection without negotiation state: nothing to do.
    Ignore,
}

/// The decision for a new connection: the relay and peers with sessions are
/// ignored, strangers are disconnected, peers under negotiation have the
/// connection tracked (applying the tie-break when both sides dialed), and
/// a first incoming connection creates the peer's state.
pub fn on_connection_established(
    is_relay_peer: bool,
    has_session: bool,
    known_contact: bool,
    peer_in_room: bool,
    negotiating_as_dialer: Option<bool>,
    is_listener: bool,
    we_are_smaller: bool,
) -> (r: ConnectionDecision)
    ensures
        r == if is_relay_peer {
            ConnectionDecision::IgnoreRelay
        } else if has_session {
            ConnectionDecision::IgnoreExistingSession
        } else if !known_contact && !peer_in_room {
            ConnectionDecision::DisconnectUnknown
        } else if negotiating_as_dialer is Some {
            ConnectionDecision::TrackConnection {
                switch_to_non_dialer: is_listener && negotiating_as_dialer->Some_0
                    && we_are_smaller,
            }
        } else if is_listener {
            ConnectionDecision::TrackNewNonDialer
        } else {
            ConnectionDecision::Ignore
        },
{
    if is_relay_peer {
        ConnectionDecision::IgnoreRelay
    } else if has_session {
        ConnectionDecision::IgnoreExistingSession
    } else if !known_contact && !peer_in_room {
        ConnectionDecision::DisconnectUnknown
    } else {
        match negotiating_as_dialer {
            Option::Some(dialer) => ConnectionDecision::TrackConnection {
                switch_to_non_dialer: is_listener && dialer && we_are_smaller,
            },
            Option::None => {
                if is_listener {
                    ConnectionDecision::TrackNewNonDialer
                } else {
                    ConnectionDecision::Ignore
                }
            },
        }
    }
}

} // verus!

verus! {

// ---------------------------------------------------------------------------
// Swarm bring-up and incoming sub-streams.
// ---------------------------------------------------------------------------

/// What the swarm reports while the relay connection is brought up.
pub enum BringUpEvent {
    /// We told the relay the address we observe it at.
    IdentifySent,
    /// The relay told us the address it observes us at.
    IdentifyReceived,
    /// Listeners, dials, pings and address candidates: routine.
    Benign,
    /// Anything else: bring-up cannot proceed.
    Unexpected,
}

/// Tracks the two identify exchanges that must complete before the client
/// may listen on the relay's circuit address.
pub struct BringUp {
    /// The relay has told us our observed address.
    pub learned_observed_addr: bool,
    /// We have told the relay its observed address.
    pub told_relay_observed_addr: bool,
}

impl BringUp {
    pub fn new() -> (r: BringUp)
        ensures
            !r.learned_observed_addr,
            !r.told_relay_observed_addr,
    {
        BringUp { learned_observed_addr: false, told_relay_observed_addr: false }
    }

    /// Folds one event in; the result says whether bring-up is complete
    /// (both identify exchanges done), still waiting, or failed.
    pub fn on_event(&mut self, event: &BringUpEvent) -> (r: BringUpStep)
        ensures
            final(self).told_relay_observed_addr == (old(self).told_relay_observed_addr || (
            event is IdentifySent)),
            final(self).learned_observed_addr == (old(self).learned_observed_addr || (
            event is IdentifyReceived)),
            r == (if event is Unexpected {
                BringUpStep::Failed
            } else if final(self).told_relay_observed_addr
                && final(self).learned_observed_addr {
                BringUpStep::Complete
            } else {
                BringUpStep::Waiting
            }),
    {
        match event {
            BringUpEvent::IdentifySent => {
                self.told_relay_observed_addr = true;
            },
            BringUpEvent::IdentifyReceived => {
                self.learned_observed_addr = true;
            },
            BringUpEvent::Benign => {},
            BringUpEvent::Unexpected => {
                return BringUpStep::Failed;
            },
        }
        if self.told_relay_observed_addr && self.learned_observed_addr {
            BringUpStep::Complete
        } else {
            BringUpStep::Waiting
        }
    }
}

/// The bring-up verdict after one event.
#[derive(Debug, PartialEq, Eq, Structural)]
pub enum BringUpStep {
    /// Keep reading events.
    Waiting,
    /// Both identify exchanges are done: listen on the circuit address.
    Complete,
    /// An event that never occurs in a successful bring-up arrived.
    Failed,
}

/// Where an incoming sub-stream goes: to the peer's session when it is
/// waiting for one (a call handshake is under way), and into a brand-new
/// session otherwise.
pub fn route_incoming_stream(has_session: bool, wants_stream: bool) -> (r: bool)
    ensures
        r == (has_session && wants_stream),
{
    has_session && wants_stream
}

} // verus!
