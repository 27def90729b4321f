//! The media-frame socket layer.
//!
//! Media frames travel length-delimited over the peer-to-peer byte stream.
//! Each outgoing payload is prefixed with a 32-bit big-endian timestamp in
//! centiseconds since the socket started; the receiver drops frames older
//! than [`MAX_AGE`] and counts them as loss. A single byte `1` is a
//! keep-alive, written when the sender has been idle for the keep-alive
//! interval. The fan-out sender used in rooms evicts sockets whose send
//! failed and counts bandwidth only over successful sends.

use crate::messages::copy_range;
use crate::processing::{ProcessorMessage, FRAME_SIZE};
use vstd::prelude::*;

verus! {

/// Only frames at most this many centiseconds from local time are played.
pub const MAX_AGE: u32 = 250;

/// Seconds of idleness after which a keep-alive is written, on the media
/// stream and on the session stream alike.
pub const KEEP_ALIVE_SECS: u64 = 10;

/// Largest media frame on the wire: one 480-sample block of 16-bit PCM.
pub const MAX_MEDIA_FRAME_LENGTH: usize = 960;

/// Centiseconds since the socket started, from elapsed milliseconds,
/// wrapping as a 32-bit counter (about twelve thousand hours per session).
pub fn timestamp(elapsed_ms: u64) -> (r: u32)
    ensures
        r as int == (elapsed_ms as int / 10) % 0x1_0000_0000,
{
    ((elapsed_ms / 10) % 0x1_0000_0000) as u32
}

/// Big-endian bytes of a timestamp.
pub open spec fn be_u32(v: u32) -> Seq<u8> {
    seq![
        ((v >> 24) & 0xff) as u8,
        ((v >> 16) & 0xff) as u8,
        ((v >> 8) & 0xff) as u8,
        (v & 0xff) as u8,
    ]
}

/// The timestamp stored in four big-endian bytes.
pub open spec fn be_u32_value(b0: u8, b1: u8, b2: u8, b3: u8) -> u32 {
    (b0 as u32) << 24 | (b1 as u32) << 16 | (b2 as u32) << 8 | (b3 as u32)
}

/// Reading four big-endian bytes back yields the written timestamp.
pub proof fn lemma_be_u32_round_trip(v: u32)
    ensures
        be_u32_value(be_u32(v)[0], be_u32(v)[1], be_u32(v)[2], be_u32(v)[3]) == v,
{
    assert((((v >> 24) & 0xff) as u8 as u32) << 24 | (((v >> 16) & 0xff) as u8 as u32) << 16 | (((
    v >> 8) & 0xff) as u8 as u32) << 8 | ((v & 0xff) as u8 as u32) == v) by (bit_vector);
}

/// Prefixes one outgoing payload with its big-endian timestamp.
pub fn prepend_timestamp(payload: &Vec<u8>, ts: u32) -> (r: Vec<u8>)
    requires
        payload@.len() + 4 <= usize::MAX,
    ensures
        r@ == be_u32(ts) + payload@,
{
    let mut out: Vec<u8> = Vec::new();
    out.push(((ts >> 24) & 0xff) as u8);
    out.push(((ts >> 16) & 0xff) as u8);
    out.push(((ts >> 8) & 0xff) as u8);
    out.push((ts & 0xff) as u8);
    let mut i: usize = 0;
    while i < payload.len()
        invariant
            i <= payload@.len(),
            out@.len() == 4 + i,
            out@.subrange(0, 4) =~= be_u32(ts),
            forall|j: int| 0 <= j < i ==> out@[4 + j] == payload@[j],
        decreases payload@.len() - i,
    {
        out.push(payload[i]);
        i = i + 1;
    }
    proof {
        assert(out@ =~= be_u32(ts) + payload@);
    }
    out
}

/// The distance between two timestamps, without wraparound correction, as
/// the receiver measures it.
pub open spec fn ts_distance(a: u32, b: u32) -> int {
    if a >= b {
        a - b
    } else {
        b - a
    }
}

/// What the receiver does with one incoming media frame.
#[derive(Debug, PartialEq)]
pub enum MediaAction {
    /// A one-byte keep-alive: ignore it.
    KeepAlive,
    /// The frame is older than [`MAX_AGE`]: drop it and count a frame of
    /// loss.
    DropLate,
    /// Hand the payload past the timestamp to the output pipeline.
    Deliver(Vec<u8>),
    /// Too short to carry a timestamp and not a keep-alive: ignore it.
    Unexpected,
}

/// Mathematical image of a [`MediaAction`].
pub ghost enum MediaActionModel {
    KeepAlive,
    DropLate,
    Deliver(Seq<u8>),
    Unexpected,
}

impl View for MediaAction {
    type V = MediaActionModel;

    open spec fn view(&self) -> MediaActionModel {
        match *self {
            MediaAction::KeepAlive => MediaActionModel::KeepAlive,
            MediaAction::DropLate => MediaActionModel::DropLate,
            MediaAction::Deliver(d) => MediaActionModel::Deliver(d@),
            MediaAction::Unexpected => MediaActionModel::Unexpected,
        }
    }
}

/// What the receiver does with a frame of these bytes at this local time.
pub open spec fn gate_model(s: Seq<u8>, local_ts: u32) -> MediaActionModel {
    if s.len() == 1 {
        MediaActionModel::KeepAlive
    } else if s.len() >= 4 {
        if ts_distance(be_u32_value(s[0], s[1], s[2], s[3]), local_ts) > MAX_AGE {
            MediaActionModel::DropLate
        } else {
            MediaActionModel::Deliver(s.skip(4))
        }
    } else {
        MediaActionModel::Unexpected
    }
}

/// Samples of loss one receiver action adds to the loss counter.
pub open spec fn loss_of(a: MediaActionModel) -> int {
    if a is DropLate {
        FRAME_SIZE as int
    } else {
        0
    }
}

/// The receive-side max-age gate: a one-byte frame is a keep-alive; a frame
/// with a timestamp more than [`MAX_AGE`] centiseconds away from local time
/// is dropped; any other timestamped frame is delivered without its
/// timestamp prefix.
pub fn gate_frame(payload: &Vec<u8>, local_ts: u32) -> (r: MediaAction)
    ensures
        r@ == gate_model(payload@, local_ts),
{
    let len = payload.len();
    if len == 1 {
        MediaAction::KeepAlive
    } else if len >= 4 {
        let remote = (payload[0] as u32) << 24 | (payload[1] as u32) << 16 | (payload[2]
            as u32) << 8 | (payload[3] as u32);
        let distance = if remote >= local_ts {
            remote - local_ts
        } else {
            local_ts - remote
        };
        if distance > MAX_AGE {
            MediaAction::DropLate
        } else {
            MediaAction::Deliver(copy_range(payload, 4, len))
        }
    } else {
        MediaAction::Unexpected
    }
}

/// Account one received frame: the whole frame counts as download bandwidth,
/// and a late frame adds one 480-sample frame of loss. The counters wrap as
/// the shared atomic counters do.
pub fn receive_accounting(action: &MediaAction, frame_len: usize, bandwidth: u64, loss: u64) -> (r:
    (u64, u64))
    ensures
        r.0 as int == (bandwidth + frame_len) % 0x1_0000_0000_0000_0000,
        r.1 as int == (loss + loss_of(action@)) % 0x1_0000_0000_0000_0000,
{
    let new_bandwidth = ((bandwidth as u128 + frame_len as u128) % 0x1_0000_0000_0000_0000) as u64;
    let added: u64 = match action {
        MediaAction::DropLate => 480,
        _ => 0,
    };
    let new_loss = ((loss as u128 + added as u128) % 0x1_0000_0000_0000_0000) as u64;
    (new_bandwidth, new_loss)
}

// ---------------------------------------------------------------------------
// The sending side.
// ---------------------------------------------------------------------------

/// What the sender's idle wait produced.
pub enum SenderEvent {
    /// The pipeline handed over a message.
    Payload(ProcessorMessage),
    /// The pipeline's channel closed.
    Closed,
    /// Nothing arrived within the keep-alive interval.
    TimedOut,
}

/// What the sending task does next.
#[derive(Debug, PartialEq)]
pub enum SenderAction {
    /// Send these bytes, timestamp-prefixed.
    Send(Vec<u8>),
    /// Send the one-byte keep-alive.
    SendKeepAlive,
    /// Stop: the pipeline ended.
    Shutdown,
}

/// The sender's decision for one event: wire bytes are forwarded, an idle
/// interval produces a keep-alive, and anything else (a closed channel, or a
/// message that is not wire bytes) ends the task.
pub fn sender_step(event: SenderEvent) -> (r: SenderAction)
    ensures
        match event {
            SenderEvent::Payload(m) => match m {
                ProcessorMessage::Data(b) => r matches SenderAction::Send(s) && s == b,
                ProcessorMessage::Samples(_) => r is Shutdown,
            },
            SenderEvent::Closed => r is Shutdown,
            SenderEvent::TimedOut => r is SendKeepAlive,
        },
{
    match event {
        SenderEvent::Payload(m) => match m {
            ProcessorMessage::Data(b) => SenderAction::Send(b),
            ProcessorMessage::Samples(_) => SenderAction::Shutdown,
        },
        SenderEvent::Closed => SenderAction::Shutdown,
        SenderEvent::TimedOut => SenderAction::SendKeepAlive,
    }
}

/// The one-byte keep-alive frame.
pub fn keep_alive_frame() -> (r: Vec<u8>)
    ensures
        r@ == seq![1u8],
{
    let mut v: Vec<u8> = Vec::new();
    v.push(1u8);
    proof {
        assert(v@ =~= seq![1u8]);
    }
    v
}

// ---------------------------------------------------------------------------
// Fan-out to a room's sockets.
// ---------------------------------------------------------------------------

/// The sockets kept after one fan-out round: exactly those whose send
/// succeeded, in their original order.
pub open spec fn kept_sockets(ids: Seq<u64>, sent: Seq<bool>) -> Seq<u64>
    decreases ids.len(),
{
    if ids.len() == 0 {
        Seq::empty()
    } else {
        let rest = kept_sockets(ids.drop_first(), sent.drop_first());
        if sent[0] {
            seq![ids[0]] + rest
        } else {
            rest
        }
    }
}

/// How many sends succeeded.
pub open spec fn successful_sends(sent: Seq<bool>) -> int
    decreases sent.len(),
{
    if sent.len() == 0 {
        0
    } else {
        (if sent[0] {
            1int
        } else {
            0int
        }) + successful_sends(sent.drop_first())
    }
}

proof fn lemma_kept_sockets_snoc(ids: Seq<u64>, sent: Seq<bool>, i: int)
    requires
        0 <= i < ids.len(),
        ids.len() == sent.len(),
    ensures
        kept_sockets(ids.take(i + 1), sent.take(i + 1)) == if sent[i] {
            kept_sockets(ids.take(i), sent.take(i)).push(ids[i])
        } else {
            kept_sockets(ids.take(i), sent.take(i))
        },
        successful_sends(sent.take(i + 1)) == successful_sends(sent.take(i)) + if sent[i] {
            1int
        } else {
            0int
        },
    decreases i,
{
    if i == 0 {
        assert(ids.take(1).drop_first() =~= ids.take(0));
        assert(sent.take(1).drop_first() =~= sent.take(0));
        if sent[0] {
            assert(seq![ids[0]] + Seq::<u64>::empty() =~= Seq::<u64>::empty().push(ids[0]));
        }
    } else {
        lemma_kept_sockets_snoc(ids.drop_first(), sent.drop_first(), i - 1);
        assert(ids.take(i + 1).drop_first() =~= ids.drop_first().take(i));
        assert(sent.take(i + 1).drop_first() =~= sent.drop_first().take(i));
        assert(ids.take(i).drop_first() =~= ids.drop_first().take(i - 1));
        assert(sent.take(i).drop_first() =~= sent.drop_first().take(i - 1));
        assert(ids.take(i + 1)[0] == ids[0]);
        assert(ids.take(i)[0] == ids[0]);
        assert(sent.take(i + 1)[0] == sent[0]);
        assert(sent.take(i)[0] == sent[0]);
        if sent[0] {
            if sent[i] {
                assert(seq![ids[0]] + kept_sockets(
                    ids.drop_first().take(i - 1),
                    sent.drop_first().take(i - 1),
                ).push(ids[i]) =~= (seq![ids[0]] + kept_sockets(
                    ids.drop_first().take(i - 1),
                    sent.drop_first().take(i - 1),
                )).push(ids[i]));
            }
        }
    }
}

/// One fan-out round over the registered sockets, given which sends
/// succeeded: the failed sockets are evicted, and the successful sends are
/// counted for bandwidth.
pub fn fanout_round(ids: &Vec<u64>, sent: &Vec<bool>) -> (r: (Vec<u64>, usize))
    requires
        ids@.len() == sent@.len(),
    ensures
        r.0@ == kept_sockets(ids@, sent@),
        r.1 as int == successful_sends(sent@),
{
    let mut kept: Vec<u64> = Vec::new();
    let mut successes: usize = 0;
    let mut i: usize = 0;
    proof {
        assert(kept@ =~= kept_sockets(ids@.take(0), sent@.take(0)));
    }
    while i < ids.len()
        invariant
            i <= ids@.len(),
            ids@.len() == sent@.len(),
            successes <= i,
            kept@ == kept_sockets(ids@.take(i as int), sent@.take(i as int)),
            successes as int == successful_sends(sent@.take(i as int)),
        decreases ids@.len() - i,
    {
        proof {
            lemma_kept_sockets_snoc(ids@, sent@, i as int);
        }
        if sent[i] {
            kept.push(ids[i]);
            successes = successes + 1;
        }
        i = i + 1;
    }
    proof {
        assert(ids@.take(ids@.len() as int) =~= ids@);
        assert(sent@.take(sent@.len() as int) =~= sent@);
    }
    (kept, successes)
}

/// Account one fan-out send: the payload counts once per successful send.
/// The counter wraps as the shared atomic counter does.
pub fn send_accounting(bandwidth: u64, payload_len: usize, successes: usize) -> (r: u64)
    ensures
        r as int == (bandwidth + payload_len * successes) % 0x1_0000_0000_0000_0000,
{
    let p = payload_len as u128;
    let s = successes as u128;
    proof {
        assert(p * s <= 0xffff_ffff_ffff_ffff * 0xffff_ffff_ffff_ffff) by (nonlinear_arith)
            requires
                p <= 0xffff_ffff_ffff_ffff,
                s <= 0xffff_ffff_ffff_ffff,
        ;
    }
    let add = p * s;
    let r = ((bandwidth as u128 + add) % 0x1_0000_0000_0000_0000) as u64;
    r
}

} // verus!

verus! {

// ---------------------------------------------------------------------------
// Length-delimited framing on the two stream kinds.
// ---------------------------------------------------------------------------

/// Largest frame on the session (control) stream: one gibibyte, so chat
/// attachments fit but cannot run away.
pub const SESSION_MAX_FRAME_LENGTH: u64 = 0x4000_0000;

pub open spec fn be_u16(v: u16) -> Seq<u8> {
    seq![((v >> 8) & 0xff) as u8, (v & 0xff) as u8]
}

pub open spec fn be_u16_value(b0: u8, b1: u8) -> u16 {
    (b0 as u16) << 8 | (b1 as u16)
}

pub open spec fn be_u64(v: u64) -> Seq<u8> {
    seq![
        ((v >> 56) & 0xff) as u8,
        ((v >> 48) & 0xff) as u8,
        ((v >> 40) & 0xff) as u8,
        ((v >> 32) & 0xff) as u8,
        ((v >> 24) & 0xff) as u8,
        ((v >> 16) & 0xff) as u8,
        ((v >> 8) & 0xff) as u8,
        (v & 0xff) as u8,
    ]
}

pub open spec fn be_u64_value(
    b0: u8,
    b1: u8,
    b2: u8,
    b3: u8,
    b4: u8,
    b5: u8,
    b6: u8,
    b7: u8,
) -> u64 {
    (b0 as u64) << 56 | (b1 as u64) << 48 | (b2 as u64) << 40 | (b3 as u64) << 32 | (b4
        as u64) << 24 | (b5 as u64) << 16 | (b6 as u64) << 8 | (b7 as u64)
}

/// One frame on the media stream: a big-endian 16-bit length, then the
/// payload.
pub open spec fn enc_media_frame(payload: Seq<u8>) -> Seq<u8> {
    be_u16(payload.len() as u16) + payload
}

/// One frame on the control stream: a big-endian 64-bit length, then the
/// payload.
pub open spec fn enc_control_frame(payload: Seq<u8>) -> Seq<u8> {
    be_u64(payload.len() as u64) + payload
}

/// What the media stream's framing reads at a position: the next payload and
/// where it ends, or nothing when the frame is incomplete or over the media
/// length limit.
pub open spec fn dec_media_frame(s: Seq<u8>, pos: int) -> Option<(Seq<u8>, int)> {
    if 0 <= pos && pos + 2 <= s.len() {
        let n = be_u16_value(s[pos], s[pos + 1]) as int;
        if n <= MAX_MEDIA_FRAME_LENGTH && pos + 2 + n <= s.len() {
            Option::Some((s.subrange(pos + 2, pos + 2 + n), pos + 2 + n))
        } else {
            Option::None
        }
    } else {
        Option::None
    }
}

/// What the control stream's framing reads at a position, under its one
/// gibibyte limit.
pub open spec fn dec_control_frame(s: Seq<u8>, pos: int) -> Option<(Seq<u8>, int)> {
    if 0 <= pos && pos + 8 <= s.len() {
        let n = be_u64_value(
            s[pos],
            s[pos + 1],
            s[pos + 2],
            s[pos + 3],
            s[pos + 4],
            s[pos + 5],
            s[pos + 6],
            s[pos + 7],
        ) as int;
        if n <= SESSION_MAX_FRAME_LENGTH && pos + 8 + n <= s.len() {
            Option::Some((s.subrange(pos + 8, pos + 8 + n), pos + 8 + n))
        } else {
            Option::None
        }
    } else {
        Option::None
    }
}

/// Frames one media payload, refusing anything over the one-frame limit.
pub fn frame_media(payload: &Vec<u8>) -> (r: Option<Vec<u8>>)
    ensures
        match r {
            Option::Some(framed) => payload@.len() <= MAX_MEDIA_FRAME_LENGTH && framed@
                == enc_media_frame(payload@),
            Option::None => payload@.len() > MAX_MEDIA_FRAME_LENGTH,
        },
{
    if payload.len() > MAX_MEDIA_FRAME_LENGTH {
        return Option::None;
    }
    let n = payload.len() as u16;
    let mut out: Vec<u8> = Vec::new();
    out.push(((n >> 8) & 0xff) as u8);
    out.push((n & 0xff) as u8);
    let mut i: usize = 0;
    while i < payload.len()
        invariant
            i <= payload@.len(),
            out@.len() == 2 + i,
            out@.subrange(0, 2) =~= be_u16(payload@.len() as u16),
            forall|j: int| 0 <= j < i ==> out@[2 + j] == payload@[j],
        decreases payload@.len() - i,
    {
        out.push(payload[i]);
        i = i + 1;
    }
    proof {
        assert(out@ =~= enc_media_frame(payload@));
    }
    Option::Some(out)
}

/// Frames one control payload, refusing anything over the session limit.
pub fn frame_control(payload: &Vec<u8>) -> (r: Option<Vec<u8>>)
    ensures
        match r {
            Option::Some(framed) => payload@.len() <= SESSION_MAX_FRAME_LENGTH && framed@
                == enc_control_frame(payload@),
            Option::None => payload@.len() > SESSION_MAX_FRAME_LENGTH,
        },
{
    if payload.len() as u64 > SESSION_MAX_FRAME_LENGTH {
        return Option::None;
    }
    let n = payload.len() as u64;
    let mut out: Vec<u8> = Vec::new();
    out.push(((n >> 56) & 0xff) as u8);
    out.push(((n >> 48) & 0xff) as u8);
    out.push(((n >> 40) & 0xff) as u8);
    out.push(((n >> 32) & 0xff) as u8);
    out.push(((n >> 24) & 0xff) as u8);
    out.push(((n >> 16) & 0xff) as u8);
    out.push(((n >> 8) & 0xff) as u8);
    out.push((n & 0xff) as u8);
    let mut i: usize = 0;
    while i < payload.len()
        invariant
            i <= payload@.len(),
            out@.len() == 8 + i,
            out@.subrange(0, 8) =~= be_u64(payload@.len() as u64),
            forall|j: int| 0 <= j < i ==> out@[8 + j] == payload@[j],
        decreases payload@.len() - i,
    {
        out.push(payload[i]);
        i = i + 1;
    }
    proof {
        assert(out@ =~= enc_control_frame(payload@));
    }
    Option::Some(out)
}

/// Reads the next media frame out of buffered stream bytes.
pub fn extract_media_frame(buf: &Vec<u8>, pos: usize) -> (r: Option<(Vec<u8>, usize)>)
    ensures
        match r {
            Option::Some(p) => dec_media_frame(buf@, pos as int) == Option::Some(
                (p.0@, p.1 as int),
            ) && p.1 <= buf@.len(),
            Option::None => dec_media_frame(buf@, pos as int) is None,
        },
{
    if buf.len() < 2 || pos > buf.len() - 2 {
        return Option::None;
    }
    let n = ((buf[pos] as u16) << 8 | (buf[pos + 1] as u16)) as usize;
    if n <= MAX_MEDIA_FRAME_LENGTH && n <= buf.len() - (pos + 2) {
        let end = pos + 2 + n;
        Option::Some((crate::messages::copy_range(buf, pos + 2, end), end))
    } else {
        Option::None
    }
}

/// Reads the next control frame out of buffered stream bytes.
pub fn extract_control_frame(buf: &Vec<u8>, pos: usize) -> (r: Option<(Vec<u8>, usize)>)
    ensures
        match r {
            Option::Some(p) => dec_control_frame(buf@, pos as int) == Option::Some(
                (p.0@, p.1 as int),
            ) && p.1 <= buf@.len(),
            Option::None => dec_control_frame(buf@, pos as int) is None,
        },
{
    if buf.len() < 8 || pos > buf.len() - 8 {
        return Option::None;
    }
    let n = (buf[pos] as u64) << 56 | (buf[pos + 1] as u64) << 48 | (buf[pos + 2] as u64) << 40 | (
    buf[pos + 3] as u64) << 32 | (buf[pos + 4] as u64) << 24 | (buf[pos + 5] as u64) << 16 | (
    buf[pos + 6] as u64) << 8 | (buf[pos + 7] as u64);
    if n <= SESSION_MAX_FRAME_LENGTH && n <= (buf.len() - (pos + 8)) as u64 {
        let end = pos + 8 + (n as usize);
        Option::Some((crate::messages::copy_range(buf, pos + 8, end), end))
    } else {
        Option::None
    }
}

/// Unframing a framed media payload yields the payload back.
pub proof fn lemma_media_frame_round_trip(payload: Seq<u8>, tail: Seq<u8>)
    requires
        payload.len() <= MAX_MEDIA_FRAME_LENGTH,
    ensures
        dec_media_frame(enc_media_frame(payload) + tail, 0) == Option::Some(
            (payload, 2 + payload.len() as int),
        ),
{
    let s = enc_media_frame(payload) + tail;
    let n = payload.len() as u16;
    assert(s[0] == be_u16(n)[0]);
    assert(s[1] == be_u16(n)[1]);
    assert(((((n >> 8) & 0xff) as u8 as u16) << 8 | ((n & 0xff) as u8 as u16)) == n)
        by (bit_vector);
    assert(s.subrange(2, 2 + n as int) =~= payload);
}

/// Unframing a framed control payload yields the payload back.
pub proof fn lemma_control_frame_round_trip(payload: Seq<u8>, tail: Seq<u8>)
    requires
        payload.len() <= SESSION_MAX_FRAME_LENGTH,
    ensures
        dec_control_frame(enc_control_frame(payload) + tail, 0) == Option::Some(
            (payload, 8 + payload.len() as int),
        ),
{
    let s = enc_control_frame(payload) + tail;
    let n = payload.len() as u64;
    assert forall|i: int| 0 <= i < 8 implies s[i] == be_u64(n)[i] by {}
    assert((((n >> 56) & 0xff) as u8 as u64) << 56 | (((n >> 48) & 0xff) as u8 as u64) << 48 | (((
    n >> 40) & 0xff) as u8 as u64) << 40 | (((n >> 32) & 0xff) as u8 as u64) << 32 | (((n >> 24)
        & 0xff) as u8 as u64) << 24 | (((n >> 16) & 0xff) as u8 as u64) << 16 | (((n >> 8)
        & 0xff) as u8 as u64) << 8 | ((n & 0xff) as u8 as u64) == n) by (bit_vector);
    assert(s.subrange(8, 8 + n as int) =~= payload);
}

/// A timestamped payload survives the age check whole: the receiver reads
/// back the written timestamp, and delivers exactly the payload when the
/// timestamp is within the age limit, or drops it when not.
pub proof fn lemma_gate_of_timestamped(payload: Seq<u8>, ts: u32, local_ts: u32)
    ensures
        gate_model(be_u32(ts) + payload, local_ts) == if ts_distance(ts, local_ts) > MAX_AGE {
            MediaActionModel::DropLate
        } else {
            MediaActionModel::Deliver(payload)
        },
{
    let s = be_u32(ts) + payload;
    assert(s[0] == be_u32(ts)[0]);
    assert(s[1] == be_u32(ts)[1]);
    assert(s[2] == be_u32(ts)[2]);
    assert(s[3] == be_u32(ts)[3]);
    lemma_be_u32_round_trip(ts);
    assert(s.skip(4) =~= payload);
}

} // verus!
