//! Control-plane messages and their wire codec.
//!
//! A session stream carries length-delimited frames, each holding one
//! encoded [`Message`]. The encoding is a deterministic binary layout:
//! a one-byte variant tag, little-endian integers, one byte for a `bool`
//! or an `Option` tag, and byte arrays prefixed by their 32-bit length.
//! Text fields (chat text, goodbye reasons, encoder names) are carried
//! as their UTF-8 bytes.
//!
//! The `residual_bits` field of [`AudioHeader`] travels as the IEEE 754
//! bit pattern of the 64-bit float it stands for; on non-negative floats
//! the bit-pattern order agrees with the numeric order, so the validity
//! range [1, 8] and the negotiation minimum are stated over the bits.

use vstd::prelude::*;

verus! {

/// Bit pattern of the 64-bit float 1.0, the lowest valid `residual_bits`.
pub const RESIDUAL_BITS_ONE: u64 = 0x3FF0_0000_0000_0000;

/// Bit pattern of the 64-bit float 8.0, the highest valid `residual_bits`.
pub const RESIDUAL_BITS_EIGHT: u64 = 0x4020_0000_0000_0000;

/// Audio parameters exchanged in `Hello` and `HelloAck`.
#[derive(Clone, Copy, Debug, PartialEq, Eq, Structural)]
pub struct AudioHeader {
    /// Sample rate of the sender's capture device, in Hz.
    pub sample_rate: u32,
    /// Whether the sender wants the per-frame codec.
    pub codec_enabled: bool,
    /// Whether the sender wants variable bitrate.
    pub vbr: bool,
    /// IEEE 754 bit pattern of the codec's residual-bits setting.
    pub residual_bits: u64,
}

impl AudioHeader {
    /// A header is valid when the sample rate is below 128 kHz and the
    /// residual-bits value lies in [1, 8].
    pub open spec fn valid(self) -> bool {
        &&& self.sample_rate < 128_000
        &&& RESIDUAL_BITS_ONE <= self.residual_bits <= RESIDUAL_BITS_EIGHT
    }

    pub fn is_valid(&self) -> (r: bool)
        ensures
            r == self.valid(),
    {
        self.sample_rate < 128_000 && RESIDUAL_BITS_ONE <= self.residual_bits
            && self.residual_bits <= RESIDUAL_BITS_EIGHT
    }
}

/// A named chat attachment.
#[derive(Clone, Debug, PartialEq)]
pub struct Attachment {
    /// UTF-8 bytes of the attachment's name.
    pub name: Vec<u8>,
    /// The attachment's payload.
    pub data: Vec<u8>,
}

/// Mathematical image of an [`Attachment`].
pub ghost struct AttachmentModel {
    pub name: Seq<u8>,
    pub data: Seq<u8>,
}

impl View for Attachment {
    type V = AttachmentModel;

    open spec fn view(&self) -> AttachmentModel {
        AttachmentModel { name: self.name@, data: self.data@ }
    }
}

/// One control-plane message on a session stream.
#[derive(Clone, Debug, PartialEq)]
pub enum Message {
    /// Asks the peer for a call, carrying an optional ringtone, the
    /// caller's audio parameters, and the room hash when the call belongs
    /// to a room.
    Hello { ringtone: Option<Vec<u8>>, audio_header: AudioHeader, room_hash: Option<Vec<u8>> },
    /// Accepts a call, carrying the callee's audio parameters.
    HelloAck { audio_header: AudioHeader },
    /// Declines a call.
    Reject,
    /// Declines a call because another one is active.
    Busy,
    /// Ends a call, with an optional human-readable reason in UTF-8.
    Goodbye { reason: Option<Vec<u8>> },
    /// A chat line with attachments; the text is UTF-8.
    Chat { text: Vec<u8>, attachments: Vec<Attachment> },
    /// Written on idle streams to distinguish quiet peers from broken links.
    KeepAlive,
    /// Announces a screen share and the encoder it will use.
    ScreenshareHeader { encoder_name: Vec<u8> },
}

/// Mathematical image of a [`Message`].
pub ghost enum MessageModel {
    Hello { ringtone: Option<Seq<u8>>, audio_header: AudioHeader, room_hash: Option<Seq<u8>> },
    HelloAck { audio_header: AudioHeader },
    Reject,
    Busy,
    Goodbye { reason: Option<Seq<u8>> },
    Chat { text: Seq<u8>, attachments: Seq<AttachmentModel> },
    KeepAlive,
    ScreenshareHeader { encoder_name: Seq<u8> },
}

pub open spec fn opt_bytes_model(o: Option<Vec<u8>>) -> Option<Seq<u8>> {
    match o {
        Option::None => Option::None,
        Option::Some(b) => Option::Some(b@),
    }
}

pub open spec fn atts_model(v: Seq<Attachment>) -> Seq<AttachmentModel> {
    v.map_values(|a: Attachment| a@)
}

impl View for Message {
    type V = MessageModel;

    open spec fn view(&self) -> MessageModel {
        match *self {
            Message::Hello { ringtone, audio_header, room_hash } => MessageModel::Hello {
                ringtone: opt_bytes_model(ringtone),
                audio_header,
                room_hash: opt_bytes_model(room_hash),
            },
            Message::HelloAck { audio_header } => MessageModel::HelloAck { audio_header },
            Message::Reject => MessageModel::Reject,
            Message::Busy => MessageModel::Busy,
            Message::Goodbye { reason } => MessageModel::Goodbye {
                reason: opt_bytes_model(reason),
            },
            Message::Chat { text, attachments } => MessageModel::Chat {
                text: text@,
                attachments: atts_model(attachments@),
            },
            Message::KeepAlive => MessageModel::KeepAlive,
            Message::ScreenshareHeader { encoder_name } => MessageModel::ScreenshareHeader {
                encoder_name: encoder_name@,
            },
        }
    }
}

// ---------------------------------------------------------------------------
// Encoding, as sequences of bytes.
// ---------------------------------------------------------------------------

/// Largest byte-array length the wire format can carry.
pub const MAX_FIELD_LENGTH: u64 = 0xFFFF_FFFF;

pub open spec fn enc_u32(v: u32) -> Seq<u8> {
    seq![
        (v & 0xff) as u8,
        ((v >> 8) & 0xff) as u8,
        ((v >> 16) & 0xff) as u8,
        ((v >> 24) & 0xff) as u8,
    ]
}

pub open spec fn enc_u64(v: u64) -> Seq<u8> {
    seq![
        (v & 0xff) as u8,
        ((v >> 8) & 0xff) as u8,
        ((v >> 16) & 0xff) as u8,
        ((v >> 24) & 0xff) as u8,
        ((v >> 32) & 0xff) as u8,
        ((v >> 40) & 0xff) as u8,
        ((v >> 48) & 0xff) as u8,
        ((v >> 56) & 0xff) as u8,
    ]
}

pub open spec fn enc_bool(b: bool) -> Seq<u8> {
    seq![if b { 1u8 } else { 0u8 }]
}

pub open spec fn enc_byte_array(b: Seq<u8>) -> Seq<u8> {
    enc_u32(b.len() as u32) + b
}

pub open spec fn enc_opt_byte_array(o: Option<Seq<u8>>) -> Seq<u8> {
    match o {
        Option::None => seq![0u8],
        Option::Some(b) => seq![1u8] + enc_byte_array(b),
    }
}

pub open spec fn enc_header(h: AudioHeader) -> Seq<u8> {
    enc_u32(h.sample_rate) + enc_bool(h.codec_enabled) + enc_bool(h.vbr) + enc_u64(
        h.residual_bits,
    )
}

pub open spec fn enc_attachment(a: AttachmentModel) -> Seq<u8> {
    enc_byte_array(a.name) + enc_byte_array(a.data)
}

pub open spec fn enc_attachment_list(l: Seq<AttachmentModel>) -> Seq<u8>
    decreases l.len(),
{
    if l.len() == 0 {
        Seq::empty()
    } else {
        enc_attachment(l[0]) + enc_attachment_list(l.drop_first())
    }
}

pub open spec fn enc_attachments(l: Seq<AttachmentModel>) -> Seq<u8> {
    enc_u32(l.len() as u32) + enc_attachment_list(l)
}

pub open spec fn enc_message(m: MessageModel) -> Seq<u8> {
    match m {
        MessageModel::Hello { ringtone, audio_header, room_hash } => seq![0u8]
            + enc_opt_byte_array(ringtone) + enc_header(audio_header) + enc_opt_byte_array(
            room_hash,
        ),
        MessageModel::HelloAck { audio_header } => seq![1u8] + enc_header(audio_header),
        MessageModel::Reject => seq![2u8],
        MessageModel::Busy => seq![3u8],
        MessageModel::Goodbye { reason } => seq![4u8] + enc_opt_byte_array(reason),
        MessageModel::Chat { text, attachments } => seq![5u8] + enc_byte_array(text)
            + enc_attachments(attachments),
        MessageModel::KeepAlive => seq![6u8],
        MessageModel::ScreenshareHeader { encoder_name } => seq![7u8] + enc_byte_array(
            encoder_name,
        ),
    }
}

/// The wire format can carry the value: every byte array fits a 32-bit
/// length, and an attachment list fits a 32-bit count.
pub open spec fn opt_wf(o: Option<Seq<u8>>) -> bool {
    match o {
        Option::None => true,
        Option::Some(b) => b.len() <= MAX_FIELD_LENGTH,
    }
}

pub open spec fn attachment_wf(a: AttachmentModel) -> bool {
    a.name.len() <= MAX_FIELD_LENGTH && a.data.len() <= MAX_FIELD_LENGTH
}

pub open spec fn message_wf(m: MessageModel) -> bool {
    match m {
        MessageModel::Hello { ringtone, room_hash, .. } => opt_wf(ringtone) && opt_wf(room_hash),
        MessageModel::HelloAck { .. } => true,
        MessageModel::Reject => true,
        MessageModel::Busy => true,
        MessageModel::Goodbye { reason } => opt_wf(reason),
        MessageModel::Chat { text, attachments } => {
            &&& text.len() <= MAX_FIELD_LENGTH
            &&& attachments.len() <= MAX_FIELD_LENGTH
            &&& forall|i: int| 0 <= i < attachments.len() ==> attachment_wf(#[trigger] attachments[i])
        },
        MessageModel::KeepAlive => true,
        MessageModel::ScreenshareHeader { encoder_name } => encoder_name.len()
            <= MAX_FIELD_LENGTH,
    }
}

// ---------------------------------------------------------------------------
// Decoding, as a function of the byte sequence.
// ---------------------------------------------------------------------------

pub open spec fn le_u32(b0: u8, b1: u8, b2: u8, b3: u8) -> u32 {
    (b0 as u32) | (b1 as u32) << 8 | (b2 as u32) << 16 | (b3 as u32) << 24
}

pub open spec fn le_u64(b0: u8, b1: u8, b2: u8, b3: u8, b4: u8, b5: u8, b6: u8, b7: u8) -> u64 {
    (b0 as u64) | (b1 as u64) << 8 | (b2 as u64) << 16 | (b3 as u64) << 24 | (b4 as u64) << 32 | (
    b5 as u64) << 40 | (b6 as u64) << 48 | (b7 as u64) << 56
}

pub open spec fn dec_u32(s: Seq<u8>, pos: int) -> Option<(u32, int)> {
    if 0 <= pos && pos + 4 <= s.len() {
        Option::Some((le_u32(s[pos], s[pos + 1], s[pos + 2], s[pos + 3]), pos + 4))
    } else {
        Option::None
    }
}

pub open spec fn dec_u64(s: Seq<u8>, pos: int) -> Option<(u64, int)> {
    if 0 <= pos && pos + 8 <= s.len() {
        Option::Some(
            (
                le_u64(
                    s[pos],
                    s[pos + 1],
                    s[pos + 2],
                    s[pos + 3],
                    s[pos + 4],
                    s[pos + 5],
                    s[pos + 6],
                    s[pos + 7],
                ),
                pos + 8,
            ),
        )
    } else {
        Option::None
    }
}

pub open spec fn dec_byte(s: Seq<u8>, pos: int) -> Option<(u8, int)> {
    if 0 <= pos && pos + 1 <= s.len() {
        Option::Some((s[pos], pos + 1))
    } else {
        Option::None
    }
}

pub open spec fn dec_bool(s: Seq<u8>, pos: int) -> Option<(bool, int)> {
    match dec_byte(s, pos) {
        Option::Some((b, p)) => if b == 0 {
            Option::Some((false, p))
        } else if b == 1 {
            Option::Some((true, p))
        } else {
            Option::None
        },
        Option::None => Option::None,
    }
}

pub open spec fn dec_byte_array(s: Seq<u8>, pos: int) -> Option<(Seq<u8>, int)> {
    match dec_u32(s, pos) {
        Option::Some((n, p)) => if p + n <= s.len() {
            Option::Some((s.subrange(p, p + n), p + n))
        } else {
            Option::None
        },
        Option::None => Option::None,
    }
}

pub open spec fn dec_opt_byte_array(s: Seq<u8>, pos: int) -> Option<(Option<Seq<u8>>, int)> {
    match dec_byte(s, pos) {
        Option::Some((t, p)) => if t == 0 {
            Option::Some((Option::None, p))
        } else if t == 1 {
            match dec_byte_array(s, p) {
                Option::Some((b, p2)) => Option::Some((Option::Some(b), p2)),
                Option::None => Option::None,
            }
        } else {
            Option::None
        },
        Option::None => Option::None,
    }
}

pub open spec fn dec_header(s: Seq<u8>, pos: int) -> Option<(AudioHeader, int)> {
    match dec_u32(s, pos) {
        Option::Some((sample_rate, p1)) => match dec_bool(s, p1) {
            Option::Some((codec_enabled, p2)) => match dec_bool(s, p2) {
                Option::Some((vbr, p3)) => match dec_u64(s, p3) {
                    Option::Some((residual_bits, p4)) => Option::Some(
                        (AudioHeader { sample_rate, codec_enabled, vbr, residual_bits }, p4),
                    ),
                    Option::None => Option::None,
                },
                Option::None => Option::None,
            },
            Option::None => Option::None,
        },
        Option::None => Option::None,
    }
}

pub open spec fn dec_attachment(s: Seq<u8>, pos: int) -> Option<(AttachmentModel, int)> {
    match dec_byte_array(s, pos) {
        Option::Some((name, p1)) => match dec_byte_array(s, p1) {
            Option::Some((data, p2)) => Option::Some((AttachmentModel { name, data }, p2)),
            Option::None => Option::None,
        },
        Option::None => Option::None,
    }
}

pub open spec fn dec_attachment_list(s: Seq<u8>, pos: int, n: nat) -> Option<
    (Seq<AttachmentModel>, int),
>
    decreases n,
{
    if n == 0 {
        Option::Some((Seq::empty(), pos))
    } else {
        match dec_attachment(s, pos) {
            Option::Some((a, p)) => match dec_attachment_list(s, p, (n - 1) as nat) {
                Option::Some((rest, p2)) => Option::Some((seq![a] + rest, p2)),
                Option::None => Option::None,
            },
            Option::None => Option::None,
        }
    }
}

pub open spec fn dec_attachments(s: Seq<u8>, pos: int) -> Option<(Seq<AttachmentModel>, int)> {
    match dec_u32(s, pos) {
        Option::Some((n, p)) => dec_attachment_list(s, p, n as nat),
        Option::None => Option::None,
    }
}

pub open spec fn dec_message(s: Seq<u8>) -> Option<(MessageModel, int)> {
    match dec_byte(s, 0) {
        Option::Some((tag, p0)) => if tag == 0 {
            match dec_opt_byte_array(s, p0) {
                Option::Some((ringtone, p1)) => match dec_header(s, p1) {
                    Option::Some((audio_header, p2)) => match dec_opt_byte_array(s, p2) {
                        Option::Some((room_hash, p3)) => Option::Some(
                            (MessageModel::Hello { ringtone, audio_header, room_hash }, p3),
                        ),
                        Option::None => Option::None,
                    },
                    Option::None => Option::None,
                },
                Option::None => Option::None,
            }
        } else if tag == 1 {
            match dec_header(s, p0) {
                Option::Some((audio_header, p1)) => Option::Some(
                    (MessageModel::HelloAck { audio_header }, p1),
                ),
                Option::None => Option::None,
            }
        } else if tag == 2 {
            Option::Some((MessageModel::Reject, p0))
        } else if tag == 3 {
            Option::Some((MessageModel::Busy, p0))
        } else if tag == 4 {
            match dec_opt_byte_array(s, p0) {
                Option::Some((reason, p1)) => Option::Some(
                    (MessageModel::Goodbye { reason }, p1),
                ),
                Option::None => Option::None,
            }
        } else if tag == 5 {
            match dec_byte_array(s, p0) {
                Option::Some((text, p1)) => match dec_attachments(s, p1) {
                    Option::Some((attachments, p2)) => Option::Some(
                        (MessageModel::Chat { text, attachments }, p2),
                    ),
                    Option::None => Option::None,
                },
                Option::None => Option::None,
            }
        } else if tag == 6 {
            Option::Some((MessageModel::KeepAlive, p0))
        } else if tag == 7 {
            match dec_byte_array(s, p0) {
                Option::Some((encoder_name, p1)) => Option::Some(
                    (MessageModel::ScreenshareHeader { encoder_name }, p1),
                ),
                Option::None => Option::None,
            }
        } else {
            Option::None
        },
        Option::None => Option::None,
    }
}

} // verus!

verus! {

// ---------------------------------------------------------------------------
// Decoding inverts encoding.
// ---------------------------------------------------------------------------

/// A window of `s` that carries an encoding equals the matching slice of it.
proof fn lemma_window(s: Seq<u8>, pos: int, whole: Seq<u8>, a: int, b: int)
    requires
        0 <= pos,
        pos + whole.len() <= s.len(),
        s.subrange(pos, pos + whole.len()) == whole,
        0 <= a <= b <= whole.len(),
    ensures
        s.subrange(pos + a, pos + b) == whole.subrange(a, b),
{
    s.lemma_slice_of_slice(pos, pos + whole.len() as int, a, b);
}

proof fn lemma_dec_u32_at(s: Seq<u8>, pos: int, v: u32)
    requires
        0 <= pos,
        pos + 4 <= s.len(),
        s.subrange(pos, pos + 4) == enc_u32(v),
    ensures
        dec_u32(s, pos) == Option::Some((v, pos + 4)),
{
    assert(s[pos] == enc_u32(v)[0]);
    assert(s[pos + 1] == enc_u32(v)[1]);
    assert(s[pos + 2] == enc_u32(v)[2]);
    assert(s[pos + 3] == enc_u32(v)[3]);
    assert(((v & 0xff) as u8 as u32) | (((v >> 8) & 0xff) as u8 as u32) << 8 | (((v >> 16)
        & 0xff) as u8 as u32) << 16 | (((v >> 24) & 0xff) as u8 as u32) << 24 == v)
        by (bit_vector);
}

proof fn lemma_dec_u64_at(s: Seq<u8>, pos: int, v: u64)
    requires
        0 <= pos,
        pos + 8 <= s.len(),
        s.subrange(pos, pos + 8) == enc_u64(v),
    ensures
        dec_u64(s, pos) == Option::Some((v, pos + 8)),
{
    assert(s[pos] == enc_u64(v)[0]);
    assert(s[pos + 1] == enc_u64(v)[1]);
    assert(s[pos + 2] == enc_u64(v)[2]);
    assert(s[pos + 3] == enc_u64(v)[3]);
    assert(s[pos + 4] == enc_u64(v)[4]);
    assert(s[pos + 5] == enc_u64(v)[5]);
    assert(s[pos + 6] == enc_u64(v)[6]);
    assert(s[pos + 7] == enc_u64(v)[7]);
    assert(((v & 0xff) as u8 as u64) | (((v >> 8) & 0xff) as u8 as u64) << 8 | (((v >> 16)
        & 0xff) as u8 as u64) << 16 | (((v >> 24) & 0xff) as u8 as u64) << 24 | (((v >> 32)
        & 0xff) as u8 as u64) << 32 | (((v >> 40) & 0xff) as u8 as u64) << 40 | (((v >> 48)
        & 0xff) as u8 as u64) << 48 | (((v >> 56) & 0xff) as u8 as u64) << 56 == v)
        by (bit_vector);
}

proof fn lemma_dec_bool_at(s: Seq<u8>, pos: int, b: bool)
    requires
        0 <= pos,
        pos + 1 <= s.len(),
        s.subrange(pos, pos + 1) == enc_bool(b),
    ensures
        dec_bool(s, pos) == Option::Some((b, pos + 1)),
{
    assert(s[pos] == enc_bool(b)[0]);
}

proof fn lemma_dec_byte_array_at(s: Seq<u8>, pos: int, b: Seq<u8>)
    requires
        0 <= pos,
        b.len() <= MAX_FIELD_LENGTH,
        pos + 4 + b.len() <= s.len(),
        s.subrange(pos, pos + 4 + b.len()) == enc_byte_array(b),
    ensures
        dec_byte_array(s, pos) == Option::Some((b, pos + 4 + b.len())),
{
    let n = b.len() as u32;
    let w = enc_byte_array(b);
    lemma_window(s, pos, w, 0, 4);
    assert(w.subrange(0, 4) =~= enc_u32(n));
    lemma_dec_u32_at(s, pos, n);
    lemma_window(s, pos, w, 4, 4 + b.len() as int);
    assert(w.subrange(4, 4 + b.len() as int) =~= b);
}

proof fn lemma_dec_opt_byte_array_at(s: Seq<u8>, pos: int, o: Option<Seq<u8>>)
    requires
        0 <= pos,
        opt_wf(o),
        pos + enc_opt_byte_array(o).len() <= s.len(),
        s.subrange(pos, pos + enc_opt_byte_array(o).len()) == enc_opt_byte_array(o),
    ensures
        dec_opt_byte_array(s, pos) == Option::Some((o, pos + enc_opt_byte_array(o).len())),
{
    let w = enc_opt_byte_array(o);
    assert(s[pos] == w[0]);
    match o {
        Option::None => {},
        Option::Some(b) => {
            assert(s[pos] == 1u8);
            lemma_window(s, pos, w, 1, w.len() as int);
            assert(w.subrange(1, w.len() as int) =~= enc_byte_array(b));
            lemma_dec_byte_array_at(s, pos + 1, b);
        },
    }
}

proof fn lemma_dec_header_at(s: Seq<u8>, pos: int, h: AudioHeader)
    requires
        0 <= pos,
        pos + 14 <= s.len(),
        s.subrange(pos, pos + 14) == enc_header(h),
    ensures
        enc_header(h).len() == 14,
        dec_header(s, pos) == Option::Some((h, pos + 14)),
{
    let w = enc_header(h);
    lemma_window(s, pos, w, 0, 4);
    assert(w.subrange(0, 4) =~= enc_u32(h.sample_rate));
    lemma_dec_u32_at(s, pos, h.sample_rate);
    lemma_window(s, pos, w, 4, 5);
    assert(w.subrange(4, 5) =~= enc_bool(h.codec_enabled));
    lemma_dec_bool_at(s, pos + 4, h.codec_enabled);
    lemma_window(s, pos, w, 5, 6);
    assert(w.subrange(5, 6) =~= enc_bool(h.vbr));
    lemma_dec_bool_at(s, pos + 5, h.vbr);
    lemma_window(s, pos, w, 6, 14);
    assert(w.subrange(6, 14) =~= enc_u64(h.residual_bits));
    lemma_dec_u64_at(s, pos + 6, h.residual_bits);
}

proof fn lemma_dec_attachment_at(s: Seq<u8>, pos: int, a: AttachmentModel)
    requires
        0 <= pos,
        attachment_wf(a),
        pos + enc_attachment(a).len() <= s.len(),
        s.subrange(pos, pos + enc_attachment(a).len()) == enc_attachment(a),
    ensures
        enc_attachment(a).len() == 8 + a.name.len() + a.data.len(),
        dec_attachment(s, pos) == Option::Some((a, pos + enc_attachment(a).len())),
{
    let w = enc_attachment(a);
    let la = 4 + a.name.len() as int;
    let lb = 4 + a.data.len() as int;
    lemma_window(s, pos, w, 0, la);
    assert(w.subrange(0, la) =~= enc_byte_array(a.name));
    lemma_dec_byte_array_at(s, pos, a.name);
    lemma_window(s, pos, w, la, la + lb);
    assert(w.subrange(la, la + lb) =~= enc_byte_array(a.data));
    lemma_dec_byte_array_at(s, pos + la, a.data);
}

proof fn lemma_dec_attachment_list_at(s: Seq<u8>, pos: int, l: Seq<AttachmentModel>)
    requires
        0 <= pos,
        forall|i: int| 0 <= i < l.len() ==> attachment_wf(#[trigger] l[i]),
        pos + enc_attachment_list(l).len() <= s.len(),
        s.subrange(pos, pos + enc_attachment_list(l).len()) == enc_attachment_list(l),
    ensures
        dec_attachment_list(s, pos, l.len()) == Option::Some(
            (l, pos + enc_attachment_list(l).len()),
        ),
    decreases l.len(),
{
    if l.len() == 0 {
        assert(l =~= Seq::<AttachmentModel>::empty());
    } else {
        let a = l[0];
        let rest = l.drop_first();
        let w = enc_attachment_list(l);
        let la = enc_attachment(a).len() as int;
        let lr = enc_attachment_list(rest).len() as int;
        lemma_window(s, pos, w, 0, la);
        assert(w.subrange(0, la) =~= enc_attachment(a));
        lemma_dec_attachment_at(s, pos, a);
        lemma_window(s, pos, w, la, la + lr);
        assert(w.subrange(la, la + lr) =~= enc_attachment_list(rest));
        lemma_dec_attachment_list_at(s, pos + la, rest);
        assert(seq![a] + rest =~= l);
    }
}

proof fn lemma_dec_attachments_at(s: Seq<u8>, pos: int, l: Seq<AttachmentModel>)
    requires
        0 <= pos,
        l.len() <= MAX_FIELD_LENGTH,
        forall|i: int| 0 <= i < l.len() ==> attachment_wf(#[trigger] l[i]),
        pos + enc_attachments(l).len() <= s.len(),
        s.subrange(pos, pos + enc_attachments(l).len()) == enc_attachments(l),
    ensures
        dec_attachments(s, pos) == Option::Some((l, pos + enc_attachments(l).len())),
{
    let n = l.len() as u32;
    let w = enc_attachments(l);
    let ll = enc_attachment_list(l).len() as int;
    lemma_window(s, pos, w, 0, 4);
    assert(w.subrange(0, 4) =~= enc_u32(n));
    lemma_dec_u32_at(s, pos, n);
    lemma_window(s, pos, w, 4, 4 + ll);
    assert(w.subrange(4, 4 + ll) =~= enc_attachment_list(l));
    lemma_dec_attachment_list_at(s, pos + 4, l);
}

proof fn lemma_hello_round_trip(
    ringtone: Option<Seq<u8>>,
    audio_header: AudioHeader,
    room_hash: Option<Seq<u8>>,
)
    requires
        opt_wf(ringtone),
        opt_wf(room_hash),
    ensures
        ({
            let m = MessageModel::Hello { ringtone, audio_header, room_hash };
            dec_message(enc_message(m)) == Option::Some((m, enc_message(m).len() as int))
        }),
{
    let m = MessageModel::Hello { ringtone, audio_header, room_hash };
    let s = enc_message(m);
    assert(s.subrange(0, s.len() as int) =~= s);
    let lr = enc_opt_byte_array(ringtone).len() as int;
    let lh = enc_opt_byte_array(room_hash).len() as int;
    assert(s[0] == 0u8);
    lemma_window(s, 0, s, 1, 1 + lr);
    assert(s.subrange(1, 1 + lr) =~= enc_opt_byte_array(ringtone));
    lemma_dec_opt_byte_array_at(s, 1, ringtone);
    lemma_window(s, 0, s, 1 + lr, 1 + lr + 14);
    assert(s.subrange(1 + lr, 1 + lr + 14) =~= enc_header(audio_header));
    lemma_dec_header_at(s, 1 + lr, audio_header);
    lemma_window(s, 0, s, 1 + lr + 14, 1 + lr + 14 + lh);
    assert(s.subrange(1 + lr + 14, 1 + lr + 14 + lh) =~= enc_opt_byte_array(room_hash));
    lemma_dec_opt_byte_array_at(s, 1 + lr + 14, room_hash);
}

proof fn lemma_chat_round_trip(text: Seq<u8>, attachments: Seq<AttachmentModel>)
    requires
        text.len() <= MAX_FIELD_LENGTH,
        attachments.len() <= MAX_FIELD_LENGTH,
        forall|i: int| 0 <= i < attachments.len() ==> attachment_wf(#[trigger] attachments[i]),
    ensures
        ({
            let m = MessageModel::Chat { text, attachments };
            dec_message(enc_message(m)) == Option::Some((m, enc_message(m).len() as int))
        }),
{
    let m = MessageModel::Chat { text, attachments };
    let s = enc_message(m);
    assert(s.subrange(0, s.len() as int) =~= s);
    let lt = 4 + text.len() as int;
    let la = enc_attachments(attachments).len() as int;
    assert(s[0] == 5u8);
    lemma_window(s, 0, s, 1, 1 + lt);
    assert(s.subrange(1, 1 + lt) =~= enc_byte_array(text));
    lemma_dec_byte_array_at(s, 1, text);
    lemma_window(s, 0, s, 1 + lt, 1 + lt + la);
    assert(s.subrange(1 + lt, 1 + lt + la) =~= enc_attachments(attachments));
    lemma_dec_attachments_at(s, 1 + lt, attachments);
}

/// Decoding an encoded control message yields the message back and consumes
/// exactly its bytes: the codec is injective and loss-free.
pub proof fn lemma_message_round_trip(m: MessageModel)
    requires
        message_wf(m),
    ensures
        dec_message(enc_message(m)) == Option::Some((m, enc_message(m).len() as int)),
{
    let s = enc_message(m);
    assert(s.subrange(0, s.len() as int) =~= s);
    match m {
        MessageModel::Hello { ringtone, audio_header, room_hash } => {
            lemma_hello_round_trip(ringtone, audio_header, room_hash);
        },
        MessageModel::HelloAck { audio_header } => {
            assert(s[0] == 1u8);
            assert(s.subrange(1, 15) =~= enc_header(audio_header));
            lemma_dec_header_at(s, 1, audio_header);
        },
        MessageModel::Reject => {
            assert(s[0] == 2u8);
        },
        MessageModel::Busy => {
            assert(s[0] == 3u8);
        },
        MessageModel::Goodbye { reason } => {
            let lr = enc_opt_byte_array(reason).len() as int;
            assert(s[0] == 4u8);
            assert(s.subrange(1, 1 + lr) =~= enc_opt_byte_array(reason));
            lemma_dec_opt_byte_array_at(s, 1, reason);
        },
        MessageModel::Chat { text, attachments } => {
            lemma_chat_round_trip(text, attachments);
        },
        MessageModel::KeepAlive => {
            assert(s[0] == 6u8);
        },
        MessageModel::ScreenshareHeader { encoder_name } => {
            let le = 4 + encoder_name.len() as int;
            assert(s[0] == 7u8);
            assert(s.subrange(1, 1 + le) =~= enc_byte_array(encoder_name));
            lemma_dec_byte_array_at(s, 1, encoder_name);
        },
    }
}

/// An audio header survives the codec bit-exactly.
pub proof fn lemma_header_round_trip(h: AudioHeader)
    ensures
        dec_header(enc_header(h), 0) == Option::Some((h, 14int)),
{
    let s = enc_header(h);
    assert(s.subrange(0, 14) =~= s);
    lemma_dec_header_at(s, 0, h);
}

} // verus!

verus! {

// ---------------------------------------------------------------------------
// Executable codec.
// ---------------------------------------------------------------------------

/// Copies `buf[start..end]` into a fresh vector.
pub(crate) fn copy_range(buf: &Vec<u8>, start: usize, end: usize) -> (r: Vec<u8>)
    requires
        start <= end <= buf@.len(),
    ensures
        r@ == buf@.subrange(start as int, end as int),
{
    let mut out: Vec<u8> = Vec::new();
    let mut i = start;
    while i < end
        invariant
            start <= i <= end <= buf@.len(),
            out@ == buf@.subrange(start as int, i as int),
        decreases end - i,
    {
        out.push(buf[i]);
        i = i + 1;
        proof {
            assert(out@ =~= buf@.subrange(start as int, i as int));
        }
    }
    out
}

fn put_u32(buf: &mut Vec<u8>, v: u32)
    ensures
        final(buf)@ == old(buf)@ + enc_u32(v),
{
    buf.push((v & 0xff) as u8);
    buf.push(((v >> 8) & 0xff) as u8);
    buf.push(((v >> 16) & 0xff) as u8);
    buf.push(((v >> 24) & 0xff) as u8);
    proof {
        assert(buf@ =~= old(buf)@ + enc_u32(v));
    }
}

fn put_u64(buf: &mut Vec<u8>, v: u64)
    ensures
        final(buf)@ == old(buf)@ + enc_u64(v),
{
    buf.push((v & 0xff) as u8);
    buf.push(((v >> 8) & 0xff) as u8);
    buf.push(((v >> 16) & 0xff) as u8);
    buf.push(((v >> 24) & 0xff) as u8);
    buf.push(((v >> 32) & 0xff) as u8);
    buf.push(((v >> 40) & 0xff) as u8);
    buf.push(((v >> 48) & 0xff) as u8);
    buf.push(((v >> 56) & 0xff) as u8);
    proof {
        assert(buf@ =~= old(buf)@ + enc_u64(v));
    }
}

fn put_bool(buf: &mut Vec<u8>, b: bool)
    ensures
        final(buf)@ == old(buf)@ + enc_bool(b),
{
    buf.push(if b { 1u8 } else { 0u8 });
    proof {
        assert(buf@ =~= old(buf)@ + enc_bool(b));
    }
}

fn put_byte_array(buf: &mut Vec<u8>, b: &Vec<u8>)
    requires
        b@.len() <= MAX_FIELD_LENGTH,
    ensures
        final(buf)@ == old(buf)@ + enc_byte_array(b@),
{
    put_u32(buf, b.len() as u32);
    let ghost mid = buf@;
    let mut i: usize = 0;
    while i < b.len()
        invariant
            i <= b@.len(),
            buf@ == mid + b@.subrange(0, i as int),
        decreases b@.len() - i,
    {
        buf.push(b[i]);
        i = i + 1;
        proof {
            assert(buf@ =~= mid + b@.subrange(0, i as int));
        }
    }
    proof {
        assert(b@.subrange(0, b@.len() as int) =~= b@);
        assert(buf@ =~= old(buf)@ + enc_byte_array(b@));
    }
}

fn put_opt_byte_array(buf: &mut Vec<u8>, o: &Option<Vec<u8>>)
    requires
        opt_wf(opt_bytes_model(*o)),
    ensures
        final(buf)@ == old(buf)@ + enc_opt_byte_array(opt_bytes_model(*o)),
{
    match o {
        Option::None => {
            buf.push(0u8);
        },
        Option::Some(b) => {
            buf.push(1u8);
            put_byte_array(buf, b);
        },
    }
    proof {
        assert(buf@ =~= old(buf)@ + enc_opt_byte_array(opt_bytes_model(*o)));
    }
}

fn put_header(buf: &mut Vec<u8>, h: &AudioHeader)
    ensures
        final(buf)@ == old(buf)@ + enc_header(*h),
{
    put_u32(buf, h.sample_rate);
    put_bool(buf, h.codec_enabled);
    put_bool(buf, h.vbr);
    put_u64(buf, h.residual_bits);
    proof {
        assert(buf@ =~= old(buf)@ + enc_header(*h));
    }
}

fn put_attachment(buf: &mut Vec<u8>, a: &Attachment)
    requires
        attachment_wf(a@),
    ensures
        final(buf)@ == old(buf)@ + enc_attachment(a@),
{
    put_byte_array(buf, &a.name);
    put_byte_array(buf, &a.data);
    proof {
        assert(buf@ =~= old(buf)@ + enc_attachment(a@));
    }
}

/// Extending the encoded prefix of a list by one more attachment.
proof fn lemma_enc_attachment_list_snoc(l: Seq<AttachmentModel>, i: int)
    requires
        0 <= i < l.len(),
    ensures
        enc_attachment_list(l.take(i + 1)) == enc_attachment_list(l.take(i)) + enc_attachment(
            l[i],
        ),
    decreases i,
{
    if i == 0 {
        assert(l.take(1).drop_first() =~= l.take(0));
        assert(enc_attachment_list(l.take(0)) =~= Seq::<u8>::empty());
        assert(enc_attachment_list(l.take(1)) =~= enc_attachment_list(l.take(0)) + enc_attachment(
            l[0],
        ));
    } else {
        let d = l.drop_first();
        lemma_enc_attachment_list_snoc(d, i - 1);
        assert(l.take(i + 1).drop_first() =~= d.take(i));
        assert(l.take(i).drop_first() =~= d.take(i - 1));
        assert(l.take(i + 1)[0] == l[0]);
        assert(l.take(i)[0] == l[0]);
        assert(enc_attachment_list(l.take(i + 1)) =~= enc_attachment_list(l.take(i))
            + enc_attachment(l[i]));
    }
}

fn put_attachments(buf: &mut Vec<u8>, l: &Vec<Attachment>)
    requires
        l@.len() <= MAX_FIELD_LENGTH,
        forall|i: int| 0 <= i < l@.len() ==> attachment_wf(#[trigger] atts_model(l@)[i]),
    ensures
        final(buf)@ == old(buf)@ + enc_attachments(atts_model(l@)),
{
    put_u32(buf, l.len() as u32);
    let ghost mid = buf@;
    let ghost lm = atts_model(l@);
    let mut i: usize = 0;
    while i < l.len()
        invariant
            i <= l@.len(),
            lm == atts_model(l@),
            lm.len() == l@.len(),
            forall|j: int| 0 <= j < l@.len() ==> attachment_wf(#[trigger] lm[j]),
            buf@ == mid + enc_attachment_list(lm.take(i as int)),
        decreases l@.len() - i,
    {
        proof {
            assert(lm[i as int] == l@[i as int]@);
        }
        put_attachment(buf, &l[i]);
        proof {
            lemma_enc_attachment_list_snoc(lm, i as int);
        }
        i = i + 1;
    }
    proof {
        assert(lm.take(lm.len() as int) =~= lm);
        assert(buf@ =~= old(buf)@ + enc_attachments(lm));
    }
}

fn opt_len_ok(o: &Option<Vec<u8>>) -> (r: bool)
    ensures
        r == opt_wf(opt_bytes_model(*o)),
{
    match o {
        Option::Some(b) => b.len() as u64 <= MAX_FIELD_LENGTH,
        Option::None => true,
    }
}

impl Message {
    /// The wire format can carry this message: every byte field fits its
    /// 32-bit length prefix.
    pub fn is_encodable(&self) -> (r: bool)
        ensures
            r == message_wf(self@),
    {
        match self {
            Message::Hello { ringtone, room_hash, .. } => {
                opt_len_ok(ringtone) && opt_len_ok(room_hash)
            },
            Message::ScreenshareHeader { encoder_name } => {
                encoder_name.len() as u64 <= MAX_FIELD_LENGTH
            },
            Message::Goodbye { reason } => opt_len_ok(reason),
            Message::Chat { text, attachments } => {
                let mut all = true;
                let mut i: usize = 0;
                while i < attachments.len()
                    invariant
                        i <= attachments@.len(),
                        all == (forall|j: int|
                            0 <= j < i ==> attachment_wf(#[trigger] atts_model(attachments@)[j])),
                    decreases attachments@.len() - i,
                {
                    let a_ok = attachments[i].name.len() as u64 <= MAX_FIELD_LENGTH
                        && attachments[i].data.len() as u64 <= MAX_FIELD_LENGTH;
                    proof {
                        assert(atts_model(attachments@)[i as int] == attachments@[i as int]@);
                        if !a_ok {
                            assert(!attachment_wf(atts_model(attachments@)[i as int]));
                        }
                    }
                    all = all && a_ok;
                    i = i + 1;
                }
                text.len() as u64 <= MAX_FIELD_LENGTH && attachments.len() as u64
                    <= MAX_FIELD_LENGTH && all
            },
            _ => true,
        }
    }

    /// Encodes the message into one wire frame.
    pub fn encode(&self) -> (r: Vec<u8>)
        requires
            message_wf(self@),
        ensures
            r@ == enc_message(self@),
    {
        let mut buf: Vec<u8> = Vec::new();
        match self {
            Message::Hello { ringtone, audio_header, room_hash } => {
                buf.push(0u8);
                put_opt_byte_array(&mut buf, ringtone);
                put_header(&mut buf, audio_header);
                put_opt_byte_array(&mut buf, room_hash);
            },
            Message::HelloAck { audio_header } => {
                buf.push(1u8);
                put_header(&mut buf, audio_header);
            },
            Message::Reject => {
                buf.push(2u8);
            },
            Message::Busy => {
                buf.push(3u8);
            },
            Message::Goodbye { reason } => {
                buf.push(4u8);
                put_opt_byte_array(&mut buf, reason);
            },
            Message::Chat { text, attachments } => {
                buf.push(5u8);
                put_byte_array(&mut buf, text);
                put_attachments(&mut buf, attachments);
            },
            Message::KeepAlive => {
                buf.push(6u8);
            },
            Message::ScreenshareHeader { encoder_name } => {
                buf.push(7u8);
                put_byte_array(&mut buf, encoder_name);
            },
        }
        proof {
            assert(buf@ =~= enc_message(self@));
        }
        buf
    }
}

} // verus!

verus! {

fn get_u32(buf: &Vec<u8>, pos: usize) -> (r: Option<(u32, usize)>)
    ensures
        match r {
            Option::Some(p) => dec_u32(buf@, pos as int) == Option::Some((p.0, p.1 as int))
                && p.1 <= buf@.len(),
            Option::None => dec_u32(buf@, pos as int) is None,
        },
{
    if buf.len() >= 4 && pos <= buf.len() - 4 {
        let b0 = buf[pos];
        let b1 = buf[pos + 1];
        let b2 = buf[pos + 2];
        let b3 = buf[pos + 3];
        let v = (b0 as u32) | (b1 as u32) << 8 | (b2 as u32) << 16 | (b3 as u32) << 24;
        Option::Some((v, pos + 4))
    } else {
        Option::None
    }
}

fn get_u64(buf: &Vec<u8>, pos: usize) -> (r: Option<(u64, usize)>)
    ensures
        match r {
            Option::Some(p) => dec_u64(buf@, pos as int) == Option::Some((p.0, p.1 as int))
                && p.1 <= buf@.len(),
            Option::None => dec_u64(buf@, pos as int) is None,
        },
{
    if buf.len() >= 8 && pos <= buf.len() - 8 {
        let b0 = buf[pos];
        let b1 = buf[pos + 1];
        let b2 = buf[pos + 2];
        let b3 = buf[pos + 3];
        let b4 = buf[pos + 4];
        let b5 = buf[pos + 5];
        let b6 = buf[pos + 6];
        let b7 = buf[pos + 7];
        let v = (b0 as u64) | (b1 as u64) << 8 | (b2 as u64) << 16 | (b3 as u64) << 24 | (
        b4 as u64) << 32 | (b5 as u64) << 40 | (b6 as u64) << 48 | (b7 as u64) << 56;
        Option::Some((v, pos + 8))
    } else {
        Option::None
    }
}

fn get_byte(buf: &Vec<u8>, pos: usize) -> (r: Option<(u8, usize)>)
    ensures
        match r {
            Option::Some(p) => dec_byte(buf@, pos as int) == Option::Some((p.0, p.1 as int))
                && p.1 <= buf@.len(),
            Option::None => dec_byte(buf@, pos as int) is None,
        },
{
    if pos < buf.len() {
        Option::Some((buf[pos], pos + 1))
    } else {
        Option::None
    }
}

fn get_bool(buf: &Vec<u8>, pos: usize) -> (r: Option<(bool, usize)>)
    ensures
        match r {
            Option::Some(p) => dec_bool(buf@, pos as int) == Option::Some((p.0, p.1 as int))
                && p.1 <= buf@.len(),
            Option::None => dec_bool(buf@, pos as int) is None,
        },
{
    match get_byte(buf, pos) {
        Option::Some((b, p)) => {
            if b == 0 {
                Option::Some((false, p))
            } else if b == 1 {
                Option::Some((true, p))
            } else {
                Option::None
            }
        },
        Option::None => Option::None,
    }
}

fn get_byte_array(buf: &Vec<u8>, pos: usize) -> (r: Option<(Vec<u8>, usize)>)
    ensures
        match r {
            Option::Some(p) => dec_byte_array(buf@, pos as int) == Option::Some(
                (p.0@, p.1 as int),
            ) && p.1 <= buf@.len() && p.0@.len() <= MAX_FIELD_LENGTH,
            Option::None => dec_byte_array(buf@, pos as int) is None,
        },
{
    match get_u32(buf, pos) {
        Option::Some((n, p)) => {
            if n as usize <= buf.len() - p {
                let end = p + n as usize;
                let v = copy_range(buf, p, end);
                Option::Some((v, end))
            } else {
                Option::None
            }
        },
        Option::None => Option::None,
    }
}

fn get_opt_byte_array(buf: &Vec<u8>, pos: usize) -> (r: Option<(Option<Vec<u8>>, usize)>)
    ensures
        match r {
            Option::Some(p) => dec_opt_byte_array(buf@, pos as int) == Option::Some(
                (opt_bytes_model(p.0), p.1 as int),
            ) && p.1 <= buf@.len() && opt_wf(opt_bytes_model(p.0)),
            Option::None => dec_opt_byte_array(buf@, pos as int) is None,
        },
{
    match get_byte(buf, pos) {
        Option::Some((t, p)) => {
            if t == 0 {
                Option::Some((Option::None, p))
            } else if t == 1 {
                match get_byte_array(buf, p) {
                    Option::Some((b, p2)) => Option::Some((Option::Some(b), p2)),
                    Option::None => Option::None,
                }
            } else {
                Option::None
            }
        },
        Option::None => Option::None,
    }
}

fn get_header(buf: &Vec<u8>, pos: usize) -> (r: Option<(AudioHeader, usize)>)
    ensures
        match r {
            Option::Some(p) => dec_header(buf@, pos as int) == Option::Some((p.0, p.1 as int))
                && p.1 <= buf@.len(),
            Option::None => dec_header(buf@, pos as int) is None,
        },
{
    match get_u32(buf, pos) {
        Option::Some((sample_rate, p1)) => match get_bool(buf, p1) {
            Option::Some((codec_enabled, p2)) => match get_bool(buf, p2) {
                Option::Some((vbr, p3)) => match get_u64(buf, p3) {
                    Option::Some((residual_bits, p4)) => Option::Some(
                        (AudioHeader { sample_rate, codec_enabled, vbr, residual_bits }, p4),
                    ),
                    Option::None => Option::None,
                },
                Option::None => Option::None,
            },
            Option::None => Option::None,
        },
        Option::None => Option::None,
    }
}

fn get_attachment(buf: &Vec<u8>, pos: usize) -> (r: Option<(Attachment, usize)>)
    ensures
        match r {
            Option::Some(p) => dec_attachment(buf@, pos as int) == Option::Some(
                (p.0@, p.1 as int),
            ) && p.1 <= buf@.len() && attachment_wf(p.0@),
            Option::None => dec_attachment(buf@, pos as int) is None,
        },
{
    match get_byte_array(buf, pos) {
        Option::Some((name, p1)) => match get_byte_array(buf, p1) {
            Option::Some((data, p2)) => Option::Some((Attachment { name, data }, p2)),
            Option::None => Option::None,
        },
        Option::None => Option::None,
    }
}

fn get_attachment_list(buf: &Vec<u8>, pos: usize, n: u32) -> (r: Option<(Vec<Attachment>, usize)>)
    requires
        pos <= buf@.len(),
    ensures
        match r {
            Option::Some(p) => dec_attachment_list(buf@, pos as int, n as nat) == Option::Some(
                (atts_model(p.0@), p.1 as int),
            ) && p.1 <= buf@.len() && p.0@.len() == n && (forall|j: int|
                0 <= j < p.0@.len() ==> attachment_wf(#[trigger] atts_model(p.0@)[j])),
            Option::None => dec_attachment_list(buf@, pos as int, n as nat) is None,
        },
{
    let mut acc: Vec<Attachment> = Vec::new();
    let mut cur = pos;
    let mut i: u32 = 0;
    proof {
        assert(atts_model(acc@) =~= Seq::<AttachmentModel>::empty());
    }
    while i < n
        invariant
            i <= n,
            acc@.len() == i,
            forall|j: int| 0 <= j < acc@.len() ==> attachment_wf(#[trigger] atts_model(acc@)[j]),
            cur <= buf@.len(),
            match dec_attachment_list(buf@, cur as int, (n - i) as nat) {
                Option::Some(t) => dec_attachment_list(buf@, pos as int, n as nat)
                    == Option::Some((atts_model(acc@) + t.0, t.1)),
                Option::None => dec_attachment_list(buf@, pos as int, n as nat) is None,
            },
        decreases n - i,
    {
        match get_attachment(buf, cur) {
            Option::Some((a, p2)) => {
                proof {
                    let whole = dec_attachment_list(buf@, pos as int, n as nat);
                    let m = (n - i) as nat;
                    let d2 = dec_attachment_list(buf@, p2 as int, (m - 1) as nat);
                    assert(atts_model(acc@.push(a)) =~= atts_model(acc@).push(a@));
                    if d2 is Some {
                        let t2 = d2->Some_0;
                        assert(dec_attachment_list(buf@, cur as int, m) == Option::Some(
                            ((seq![a@] + t2.0), t2.1),
                        ));
                        assert(atts_model(acc@) + (seq![a@] + t2.0) =~= atts_model(acc@).push(a@)
                            + t2.0);
                    }
                }
                acc.push(a);
                cur = p2;
                i = i + 1;
            },
            Option::None => {
                return Option::None;
            },
        }
    }
    proof {
        assert(dec_attachment_list(buf@, cur as int, 0) == Option::Some(
            (Seq::<AttachmentModel>::empty(), cur as int),
        ));
        assert(atts_model(acc@) + Seq::<AttachmentModel>::empty() =~= atts_model(acc@));
    }
    Option::Some((acc, cur))
}

fn get_attachments(buf: &Vec<u8>, pos: usize) -> (r: Option<(Vec<Attachment>, usize)>)
    ensures
        match r {
            Option::Some(p) => dec_attachments(buf@, pos as int) == Option::Some(
                (atts_model(p.0@), p.1 as int),
            ) && p.1 <= buf@.len() && p.0@.len() <= MAX_FIELD_LENGTH && (forall|j: int|
                0 <= j < p.0@.len() ==> attachment_wf(#[trigger] atts_model(p.0@)[j])),
            Option::None => dec_attachments(buf@, pos as int) is None,
        },
{
    match get_u32(buf, pos) {
        Option::Some((n, p)) => get_attachment_list(buf, p, n),
        Option::None => Option::None,
    }
}

impl Message {
    /// Decodes one wire frame back into a message. Returns `None` on any
    /// malformed input; trailing bytes after a complete message are ignored,
    /// as the transport delivers one message per frame.
    pub fn decode(buf: &Vec<u8>) -> (r: Option<Message>)
        ensures
            match r {
                Option::Some(m) => dec_message(buf@) matches Option::Some(d) && d.0 == m@
                    && message_wf(m@),
                Option::None => dec_message(buf@) is None,
            },
    {
        match get_byte(buf, 0) {
            Option::None => Option::None,
            Option::Some((tag, p0)) => {
                if tag == 0 {
                    match get_opt_byte_array(buf, p0) {
                        Option::Some((ringtone, p1)) => match get_header(buf, p1) {
                            Option::Some((audio_header, p2)) => match get_opt_byte_array(
                                buf,
                                p2,
                            ) {
                                Option::Some((room_hash, _p3)) => Option::Some(
                                    Message::Hello { ringtone, audio_header, room_hash },
                                ),
                                Option::None => Option::None,
                            },
                            Option::None => Option::None,
                        },
                        Option::None => Option::None,
                    }
                } else if tag == 1 {
                    match get_header(buf, p0) {
                        Option::Some((audio_header, _p1)) => Option::Some(
                            Message::HelloAck { audio_header },
                        ),
                        Option::None => Option::None,
                    }
                } else if tag == 2 {
                    Option::Some(Message::Reject)
                } else if tag == 3 {
                    Option::Some(Message::Busy)
                } else if tag == 4 {
                    match get_opt_byte_array(buf, p0) {
                        Option::Some((reason, _p1)) => Option::Some(Message::Goodbye { reason }),
                        Option::None => Option::None,
                    }
                } else if tag == 5 {
                    match get_byte_array(buf, p0) {
                        Option::Some((text, p1)) => match get_attachments(buf, p1) {
                            Option::Some((attachments, _p2)) => Option::Some(
                                Message::Chat { text, attachments },
                            ),
                            Option::None => Option::None,
                        },
                        Option::None => Option::None,
                    }
                } else if tag == 6 {
                    Option::Some(Message::KeepAlive)
                } else if tag == 7 {
                    match get_byte_array(buf, p0) {
                        Option::Some((encoder_name, _p1)) => Option::Some(
                            Message::ScreenshareHeader { encoder_name },
                        ),
                        Option::None => Option::None,
                    }
                } else {
                    Option::None
                }
            },
        }
    }
}

} // verus!

verus! {

use crate::error::ErrorKind;
use vstd::string::StringSliceAdditionalSpecFns;

/// The goodbye reason sent when an audio device failed.
pub open spec fn audio_error_reason() -> Seq<u8> {
    ("audio device error").spec_bytes()
}

/// The goodbye reason sent for every other failure.
pub open spec fn generic_error_reason() -> Seq<u8> {
    ("an error occurred").spec_bytes()
}

impl Message {
    /// The goodbye that reports an error to the peer. The reason names the
    /// audio device exactly for audio-device errors and stays generic
    /// otherwise, so no internal type names leak to the user.
    pub fn error_goodbye(kind: &ErrorKind) -> (r: Message)
        ensures
            r matches Message::Goodbye { reason } && opt_bytes_model(reason) == Option::Some(
                if kind.audio_error() {
                    audio_error_reason()
                } else {
                    generic_error_reason()
                },
            ),
    {
        let text = if kind.is_audio_error() {
            "audio device error"
        } else {
            "an error occurred"
        };
        Message::Goodbye { reason: Option::Some(vstd::slice::slice_to_vec(text.as_bytes())) }
    }
}

/// The codec options two peers agree on for one call.
#[derive(Clone, Copy, Debug, PartialEq, Eq, Structural)]
pub struct CallConfig {
    /// The codec runs when either side asked for it.
    pub codec_enabled: bool,
    /// Variable bitrate runs when either side asked for it.
    pub vbr: bool,
    /// The smaller of the two residual-bits settings, as an IEEE 754 bit
    /// pattern; on the valid range the bit order is the numeric order.
    pub residual_bits: u64,
}

impl AudioHeader {
    /// The call configuration negotiated from the local and remote headers:
    /// both flags are joined by or, and the residual bits take the minimum.
    pub fn negotiate(&self, remote: &AudioHeader) -> (r: CallConfig)
        ensures
            r.codec_enabled == (self.codec_enabled || remote.codec_enabled),
            r.vbr == (self.vbr || remote.vbr),
            r.residual_bits == if self.residual_bits <= remote.residual_bits {
                self.residual_bits
            } else {
                remote.residual_bits
            },
    {
        CallConfig {
            codec_enabled: self.codec_enabled || remote.codec_enabled,
            vbr: self.vbr || remote.vbr,
            residual_bits: if self.residual_bits <= remote.residual_bits {
                self.residual_bits
            } else {
                remote.residual_bits
            },
        }
    }
}

} // verus!
