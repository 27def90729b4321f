//! Peer identity as the call plane sees it: an opaque byte string (the hash
//! of the peer's public key), ordered bytewise for the simultaneous-dial
//! tie-break, and hashed into the room hash that room members exchange in
//! their `Hello` messages.

use crate::messages::enc_u64;
use vstd::prelude::*;

verus! {

/// A peer's durable identifier: the multihash bytes of its public key.
#[derive(Clone, Debug, PartialEq)]
pub struct PeerId {
    bytes: Vec<u8>,
}

impl View for PeerId {
    type V = Seq<u8>;

    closed spec fn view(&self) -> Seq<u8> {
        self.bytes@
    }
}

/// Bytewise lexicographic order, with a proper prefix ordered first: the
/// order in which peer identifiers compare numerically.
pub open spec fn bytes_lt(a: Seq<u8>, b: Seq<u8>) -> bool
    decreases a.len(),
{
    if b.len() == 0 {
        false
    } else if a.len() == 0 {
        true
    } else if a[0] < b[0] {
        true
    } else if a[0] > b[0] {
        false
    } else {
        bytes_lt(a.drop_first(), b.drop_first())
    }
}

/// Two sequences that agree on their first `i` elements compare however
/// their tails compare.
proof fn lemma_bytes_lt_common_prefix(a: Seq<u8>, b: Seq<u8>, i: int)
    requires
        0 <= i <= a.len(),
        i <= b.len(),
        forall|j: int| 0 <= j < i ==> a[j] == #[trigger] b[j],
    ensures
        bytes_lt(a, b) == bytes_lt(a.skip(i), b.skip(i)),
    decreases i,
{
    if i == 0 {
        assert(a.skip(0) =~= a);
        assert(b.skip(0) =~= b);
    } else {
        assert(a.len() > 0 && b.len() > 0 && a[0] == b[0]);
        lemma_bytes_lt_common_prefix(a.drop_first(), b.drop_first(), i - 1);
        assert(a.drop_first().skip(i - 1) =~= a.skip(i));
        assert(b.drop_first().skip(i - 1) =~= b.skip(i));
    }
}

/// The byte order decides every tie: two distinct identifiers compare in
/// exactly one direction, so when two peers dial each other at once, exactly
/// one of them stays the dialer.
pub proof fn lemma_tie_break_decides(a: Seq<u8>, b: Seq<u8>)
    ensures
        a == b || bytes_lt(a, b) || bytes_lt(b, a),
        !(bytes_lt(a, b) && bytes_lt(b, a)),
        bytes_lt(a, b) ==> a != b,
    decreases a.len(),
{
    if b.len() == 0 {
        if a.len() == 0 {
            assert(a =~= b);
        }
    } else if a.len() == 0 {
    } else if a[0] == b[0] {
        lemma_tie_break_decides(a.drop_first(), b.drop_first());
        if a.drop_first() == b.drop_first() {
            assert(a =~= b) by {
                assert(forall|i: int|
                    1 <= i < a.len() ==> #[trigger] a[i] == a.drop_first()[i - 1]);
                assert(forall|i: int|
                    1 <= i < b.len() ==> #[trigger] b[i] == b.drop_first()[i - 1]);
            }
        }
        if bytes_lt(a, b) {
            assert(a.drop_first() != b.drop_first());
        }
    }
}

impl PeerId {
    pub fn from_bytes(bytes: Vec<u8>) -> (r: PeerId)
        ensures
            r@ == bytes@,
    {
        PeerId { bytes }
    }

    pub fn to_bytes(&self) -> (r: Vec<u8>)
        ensures
            r@ == self@,
    {
        vstd::slice::slice_to_vec(self.bytes.as_slice())
    }

    /// A copy of this identifier with the same bytes.
    pub fn duplicate(&self) -> (r: PeerId)
        ensures
            r@ == self@,
    {
        PeerId::from_bytes(self.to_bytes())
    }

    /// Whether two identifiers name the same peer.
    pub fn same_peer(&self, other: &PeerId) -> (r: bool)
        ensures
            r == (self@ == other@),
    {
        if self.bytes.len() != other.bytes.len() {
            return false;
        }
        let n = self.bytes.len();
        let mut i: usize = 0;
        while i < n
            invariant
                i <= n,
                n == self@.len() == other@.len(),
                forall|j: int| 0 <= j < i ==> self@[j] == #[trigger] other@[j],
            decreases n - i,
        {
            if self.bytes[i] != other.bytes[i] {
                return false;
            }
            i = i + 1;
        }
        proof {
            assert(self@ =~= other@);
        }
        true
    }

    /// Whether this identifier is numerically smaller than the other: the
    /// deterministic tie-break when two peers dial each other at once.
    pub fn is_less_than(&self, other: &PeerId) -> (r: bool)
        ensures
            r == bytes_lt(self@, other@),
    {
        let an = self.bytes.len();
        let bn = other.bytes.len();
        let n = if an < bn {
            an
        } else {
            bn
        };
        let mut i: usize = 0;
        while i < n
            invariant
                i <= n,
                an == self@.len(),
                bn == other@.len(),
                n == if an < bn {
                    an
                } else {
                    bn
                },
                forall|j: int| 0 <= j < i ==> self@[j] == #[trigger] other@[j],
            decreases n - i,
        {
            if self.bytes[i] < other.bytes[i] {
                proof {
                    lemma_bytes_lt_common_prefix(self@, other@, i as int);
                }
                return true;
            }
            if self.bytes[i] > other.bytes[i] {
                proof {
                    lemma_bytes_lt_common_prefix(self@, other@, i as int);
                }
                return false;
            }
            i = i + 1;
        }
        proof {
            lemma_bytes_lt_common_prefix(self@, other@, n as int);
        }
        an < bn
    }
}

// ---------------------------------------------------------------------------
// The room hash.
// ---------------------------------------------------------------------------

/// Starting value of the 64-bit hash.
pub const HASH_OFFSET_BASIS: u64 = 0xcbf2_9ce4_8422_2325;

/// Multiplier of the 64-bit hash.
pub const HASH_PRIME: u64 = 0x100_0000_01b3;

/// One hash step: mix one byte in, then multiply, wrapping at 64 bits.
pub open spec fn hash_step(h: u64, b: u8) -> u64 {
    ((((h ^ b as u64) as int) * HASH_PRIME) % 0x1_0000_0000_0000_0000) as u64
}

/// The hash of a byte string, folded from the left over `h`.
pub open spec fn hash_bytes(s: Seq<u8>, h: u64) -> u64
    decreases s.len(),
{
    if s.len() == 0 {
        h
    } else {
        hash_bytes(s.drop_first(), hash_step(h, s[0]))
    }
}

/// The 64-bit hash of one peer identifier.
pub open spec fn peer_hash(p: Seq<u8>) -> u64 {
    hash_bytes(p, HASH_OFFSET_BASIS)
}

/// The room hash accumulator: the exclusive-or of the members' hashes.
pub open spec fn room_hash_acc(peers: Seq<Seq<u8>>, acc: u64) -> u64
    decreases peers.len(),
{
    if peers.len() == 0 {
        acc
    } else {
        room_hash_acc(peers.drop_first(), acc ^ peer_hash(peers[0]))
    }
}

pub open spec fn peers_model(v: Seq<PeerId>) -> Seq<Seq<u8>> {
    v.map_values(|p: PeerId| p@)
}

/// The room hash as it travels in `Hello`: the exclusive-or of the members'
/// hashes, in little-endian bytes.
pub open spec fn room_hash_model(peers: Seq<Seq<u8>>) -> Seq<u8> {
    enc_u64(room_hash_acc(peers, 0))
}

fn hash_one_byte(h: u64, b: u8) -> (r: u64)
    ensures
        r == hash_step(h, b),
{
    let mixed = h ^ (b as u64);
    let m = mixed as u128;
    proof {
        assert(m * (HASH_PRIME as u128) <= 0xffff_ffff_ffff_ffff * 0x100_0000_01b3)
            by (nonlinear_arith)
            requires
                m <= 0xffff_ffff_ffff_ffff,
        ;
    }
    let wide = m * (HASH_PRIME as u128);
    (wide % 0x1_0000_0000_0000_0000) as u64
}

/// The 64-bit hash of one peer identifier.
pub fn hash_peer(p: &PeerId) -> (r: u64)
    ensures
        r == peer_hash(p@),
{
    let bytes = p.to_bytes();
    let mut h: u64 = HASH_OFFSET_BASIS;
    let mut i: usize = 0;
    proof {
        assert(bytes@.skip(0) =~= bytes@);
    }
    while i < bytes.len()
        invariant
            i <= bytes@.len(),
            bytes@ == p@,
            hash_bytes(p@, HASH_OFFSET_BASIS) == hash_bytes(bytes@.skip(i as int), h),
        decreases bytes@.len() - i,
    {
        proof {
            assert(bytes@.skip(i as int).drop_first() =~= bytes@.skip(i as int + 1));
            assert(bytes@.skip(i as int)[0] == bytes@[i as int]);
        }
        h = hash_one_byte(h, bytes[i]);
        i = i + 1;
    }
    proof {
        assert(bytes@.skip(bytes@.len() as int) =~= Seq::<u8>::empty());
    }
    h
}

/// The room hash of a member list, as the little-endian bytes exchanged in
/// `Hello`: the exclusive-or of the members' individual hashes, so the hash
/// does not depend on the order in which members are listed.
pub fn room_hash(peers: &Vec<PeerId>) -> (r: Vec<u8>)
    ensures
        r@ == room_hash_model(peers_model(peers@)),
{
    let mut acc: u64 = 0;
    let mut i: usize = 0;
    proof {
        assert(peers_model(peers@).skip(0) =~= peers_model(peers@));
    }
    while i < peers.len()
        invariant
            i <= peers@.len(),
            room_hash_acc(peers_model(peers@), 0) == room_hash_acc(
                peers_model(peers@).skip(i as int),
                acc,
            ),
        decreases peers@.len() - i,
    {
        proof {
            assert(peers_model(peers@).skip(i as int).drop_first() =~= peers_model(peers@).skip(
                i as int + 1,
            ));
            assert(peers_model(peers@).skip(i as int)[0] == peers@[i as int]@);
        }
        let h = hash_peer(&peers[i]);
        acc = acc ^ h;
        i = i + 1;
    }
    proof {
        assert(peers_model(peers@).skip(peers@.len() as int) =~= Seq::<Seq<u8>>::empty());
    }
    let mut out: Vec<u8> = Vec::new();
    out.push((acc & 0xff) as u8);
    out.push(((acc >> 8) & 0xff) as u8);
    out.push(((acc >> 16) & 0xff) as u8);
    out.push(((acc >> 24) & 0xff) as u8);
    out.push(((acc >> 32) & 0xff) as u8);
    out.push(((acc >> 40) & 0xff) as u8);
    out.push(((acc >> 48) & 0xff) as u8);
    out.push(((acc >> 56) & 0xff) as u8);
    proof {
        assert(out@ =~= enc_u64(acc));
    }
    out
}

} // verus!
