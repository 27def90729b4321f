//! The types handed to the front end — call and session status, contacts,
//! chat messages, screen-share configuration, the log sink — and the chat
//! helpers built on them. The clock and the random contact identifier are
//! the only outside calls; everything that decides runs verified on the
//! values they return.

use crate::messages::{atts_model, Attachment, AttachmentModel, Message, MessageModel};
use crate::peer::PeerId;
use crate::sockets::SESSION_MAX_FRAME_LENGTH;
use vstd::prelude::*;

verus! {

/// What the front end is told about the one active call.
#[derive(Debug)]
pub enum CallState {
    /// Media is flowing.
    Connected,
    /// A room is open but no member has connected yet.
    Waiting,
    /// A room member connected; the text names the peer.
    RoomJoin(String),
    /// A room member left; the text names the peer.
    RoomLeave(String),
    /// The call ended for this reason; the flag says whether to notify the
    /// user.
    CallEnded(String, bool),
}

/// What the front end is told about one session.
#[derive(Debug)]
pub enum SessionStatus {
    /// Connections are being negotiated.
    Connecting,
    /// The session is up, over a direct or relayed connection.
    Connected { relayed: bool },
    /// The session is gone.
    Inactive,
    /// Nothing is known about the peer.
    Unknown,
}

/// Relies on `chrono::Utc::now`: the current wall-clock time, in
/// milliseconds since the epoch. The result depends on the clock, so
/// nothing is promised about it.
#[verifier::external_body]
fn now_millis() -> i64 {
    chrono::Utc::now().timestamp_millis()
}

/// Relies on `uuid::Uuid::new_v4`: a fresh random identifier, rendered in
/// its canonical text form. The result is random, so nothing is promised
/// about it.
#[verifier::external_body]
fn fresh_contact_id() -> String {
    uuid::Uuid::new_v4().to_string()
}

/// One entry of the user's address book.
#[derive(Clone, Debug)]
pub struct Contact {
    /// A random identifier for the front end's bookkeeping.
    pub id: String,
    /// The name the user gave the contact.
    pub nickname: String,
    /// The peer the contact stands for.
    pub peer_id: PeerId,
    /// A placeholder for an unknown room member, never shown as a contact.
    pub is_room_only: bool,
}

impl Contact {
    /// A new contact under a fresh random identifier.
    pub fn new(nickname: String, peer_id: PeerId) -> (r: Contact)
        ensures
            r.nickname@ == nickname@,
            r.peer_id@ == peer_id@,
            !r.is_room_only,
    {
        Contact { id: fresh_contact_id(), nickname, peer_id, is_room_only: false }
    }

    /// A stored contact, under the identifier it was saved with.
    pub fn from_parts(id: String, nickname: String, peer_id: PeerId) -> (r: Contact)
        ensures
            r.id@ == id@,
            r.nickname@ == nickname@,
            r.peer_id@ == peer_id@,
            !r.is_room_only,
    {
        Contact { id, nickname, peer_id, is_room_only: false }
    }

    /// The placeholder contact for a room member who is not in the address
    /// book.
    pub fn room_only(peer_id: PeerId) -> (r: Contact)
        ensures
            r.peer_id@ == peer_id@,
            r.is_room_only,
            r.nickname@ == ("GroupContact")@,
    {
        Contact {
            id: fresh_contact_id(),
            nickname: ("GroupContact").to_owned(),
            peer_id,
            is_room_only: true,
        }
    }

    pub fn peer_id(&self) -> (r: Vec<u8>)
        ensures
            r@ == self.peer_id@,
    {
        self.peer_id.to_bytes()
    }

    pub fn nickname(&self) -> (r: &String)
        ensures
            r@ == self.nickname@,
    {
        &self.nickname
    }

    pub fn id(&self) -> (r: &String)
        ensures
            r@ == self.id@,
    {
        &self.id
    }

    pub fn set_nickname(&mut self, nickname: String)
        ensures
            final(self).nickname@ == nickname@,
            final(self).id == old(self).id,
            final(self).peer_id@ == old(self).peer_id@,
            final(self).is_room_only == old(self).is_room_only,
    {
        self.nickname = nickname;
    }

    /// Whether these bytes identify this contact's peer.
    pub fn id_eq(&self, id: Vec<u8>) -> (r: bool)
        ensures
            r == (self.peer_id@ == id@),
    {
        self.peer_id.same_peer(&PeerId::from_bytes(id))
    }
}

/// One chat line, as the front end and the wire both see it.
#[derive(Debug)]
pub struct ChatMessage {
    /// UTF-8 bytes of the text.
    pub text: Vec<u8>,
    /// The peer the message goes to (or came from).
    pub receiver: PeerId,
    /// Wall-clock milliseconds when the message was built.
    pub timestamp_ms: i64,
    /// The attached files.
    pub attachments: Vec<Attachment>,
}

/// Builds a chat message for a contact, stamped with the current wall-clock
/// time.
pub fn build_chat(contact: &Contact, text: Vec<u8>, attachments: Vec<Attachment>) -> (r:
    ChatMessage)
    ensures
        r.text@ == text@,
        r.receiver@ == contact.peer_id@,
        atts_model(r.attachments@) == atts_model(attachments@),
{
    ChatMessage {
        text,
        receiver: contact.peer_id.duplicate(),
        timestamp_ms: now_millis(),
        attachments,
    }
}

/// Total bytes of attachment payloads.
pub open spec fn attachments_total(atts: Seq<AttachmentModel>) -> int
    decreases atts.len(),
{
    if atts.len() == 0 {
        0
    } else {
        atts[0].data.len() + attachments_total(atts.drop_first())
    }
}

proof fn lemma_attachments_total_nonneg(atts: Seq<AttachmentModel>)
    ensures
        attachments_total(atts) >= 0,
    decreases atts.len(),
{
    if atts.len() > 0 {
        lemma_attachments_total_nonneg(atts.drop_first());
    }
}

proof fn lemma_attachments_total_skip(atts: Seq<AttachmentModel>, i: int)
    requires
        0 <= i < atts.len(),
    ensures
        attachments_total(atts.skip(i)) == atts[i].data.len() + attachments_total(
            atts.skip(i + 1),
        ),
    decreases i,
{
    if i == 0 {
        assert(atts.skip(0) =~= atts);
        assert(atts.skip(0).drop_first() =~= atts.skip(1));
    } else {
        lemma_attachments_total_skip(atts.drop_first(), i - 1);
        assert(atts.drop_first().skip(i - 1) =~= atts.skip(i));
        assert(atts.drop_first().skip(i) =~= atts.skip(i + 1));
    }
}

/// Whether a chat's attachments exceed what one session frame can carry.
pub fn attachments_too_large(attachments: &Vec<Attachment>) -> (r: bool)
    ensures
        r == (attachments_total(atts_model(attachments@)) > SESSION_MAX_FRAME_LENGTH),
{
    let ghost whole = atts_model(attachments@);
    let mut acc: u64 = 0;
    let mut i: usize = 0;
    proof {
        assert(whole.skip(0) =~= whole);
    }
    while i < attachments.len()
        invariant
            i <= attachments@.len(),
            whole == atts_model(attachments@),
            whole.len() == attachments@.len(),
            acc <= SESSION_MAX_FRAME_LENGTH,
            attachments_total(whole) == acc + attachments_total(whole.skip(i as int)),
        decreases attachments@.len() - i,
    {
        proof {
            lemma_attachments_total_skip(whole, i as int);
            assert(whole[i as int] == attachments@[i as int]@);
            lemma_attachments_total_nonneg(whole.skip(i as int + 1));
        }
        let len = attachments[i].data.len() as u64;
        if len > SESSION_MAX_FRAME_LENGTH - acc {
            return true;
        }
        acc = acc + len;
        i = i + 1;
    }
    proof {
        assert(whole.skip(whole.len() as int) =~= Seq::<AttachmentModel>::empty());
    }
    false
}

/// The wire message for a chat line: the text and the attachments, as the
/// control stream carries them.
pub fn chat_to_wire(chat: ChatMessage) -> (r: Message)
    ensures
        r@ == (MessageModel::Chat {
            text: chat.text@,
            attachments: atts_model(chat.attachments@),
        }),
{
    Message::Chat { text: chat.text, attachments: chat.attachments }
}

// ---------------------------------------------------------------------------
// Screen-share configuration, as far as the call plane reads it.
// ---------------------------------------------------------------------------

/// What the host can capture and encode with.
#[derive(Debug, Default)]
pub struct Capabilities {
    /// The usable encoder names.
    pub encoders: Vec<String>,
    /// The usable capture device names.
    pub devices: Vec<String>,
}

impl Capabilities {
    pub fn encoders(&self) -> (r: &Vec<String>)
        ensures
            r@ == self.encoders@,
    {
        &self.encoders
    }

    pub fn devices(&self) -> (r: &Vec<String>)
        ensures
            r@ == self.devices@,
    {
        &self.devices
    }
}

/// A validated recording configuration for a screen share.
#[derive(Debug)]
pub struct RecordingConfig {
    /// The encoder to record with.
    pub encoder: String,
    /// The capture device to record from.
    pub device: String,
    /// Target bitrate, in bits per second.
    pub bitrate: u32,
    /// Target frame rate.
    pub framerate: u32,
    /// Output height; the source height when absent.
    pub height: Option<u32>,
}

impl RecordingConfig {
    pub fn encoder(&self) -> (r: &String)
        ensures
            r@ == self.encoder@,
    {
        &self.encoder
    }

    pub fn device(&self) -> (r: &String)
        ensures
            r@ == self.device@,
    {
        &self.device
    }

    pub fn bitrate(&self) -> (r: u32)
        ensures
            r == self.bitrate,
    {
        self.bitrate
    }

    pub fn framerate(&self) -> (r: u32)
        ensures
            r == self.framerate,
    {
        self.framerate
    }

    pub fn height(&self) -> (r: Option<u32>)
        ensures
            r == self.height,
    {
        self.height
    }
}

// ---------------------------------------------------------------------------
// The log sink.
// ---------------------------------------------------------------------------

/// Forwards formatted log lines to the front end once a sink is attached;
/// lines logged earlier are dropped, as the logger starts before the front
/// end listens.
pub struct SendToDartLogger {
    sink: Option<Vec<String>>,
}

impl SendToDartLogger {
    pub closed spec fn sink_model(self) -> Option<Seq<String>> {
        match self.sink {
            Option::Some(s) => Option::Some(s@),
            Option::None => Option::None,
        }
    }

    pub fn new() -> (r: SendToDartLogger)
        ensures
            r.sink_model() is None,
    {
        SendToDartLogger { sink: Option::None }
    }

    /// Attaches the front end's sink, replacing any earlier one; says
    /// whether it overrode an existing sink (which happens on a hot reload
    /// of the front end).
    pub fn set_stream_sink(&mut self, stream_sink: Vec<String>) -> (overriding: bool)
        ensures
            final(self).sink_model() == Option::Some(stream_sink@),
            overriding == (old(self).sink_model() is Some),
    {
        let overriding = self.sink.is_some();
        self.sink = Option::Some(stream_sink);
        overriding
    }

    /// Appends the formatted records to the sink, if one is attached.
    pub fn do_logs(&mut self, records: Vec<String>)
        ensures
            final(self).sink_model() == match old(self).sink_model() {
                Option::Some(s) => Option::Some(s + records@),
                Option::None => Option::<Seq<String>>::None,
            },
    {
        match &mut self.sink {
            Option::Some(sink) => {
                let mut records = records;
                let ghost before = sink@;
                let ghost added = records@;
                sink.append(&mut records);
                proof {
                    assert(sink@ =~= before + added);
                }
            },
            Option::None => {},
        }
    }
}

} // verus!

verus! {

/// What the end-call request tears down: the audio test when one runs, else
/// the room when one is open, else the active call's session, in that order.
#[derive(Debug, PartialEq, Eq, Structural)]
pub enum EndCallTarget {
    /// Stop the running audio test.
    AudioTest,
    /// End the current room.
    Room,
    /// Signal end-call on the session that is in a call.
    CallSession,
    /// Nothing is active; the request does nothing.
    Nothing,
}

/// The end-call priority: an audio test outranks a room, a room outranks a
/// plain call.
pub fn end_call_target(
    audio_test_running: bool,
    room_active: bool,
    session_in_call: bool,
) -> (r: EndCallTarget)
    ensures
        r == if audio_test_running {
            EndCallTarget::AudioTest
        } else if room_active {
            EndCallTarget::Room
        } else if session_in_call {
            EndCallTarget::CallSession
        } else {
            EndCallTarget::Nothing
        },
{
    if audio_test_running {
        EndCallTarget::AudioTest
    } else if room_active {
        EndCallTarget::Room
    } else if session_in_call {
        EndCallTarget::CallSession
    } else {
        EndCallTarget::Nothing
    }
}

/// Whether a start-call request may proceed: not while another call, room or
/// audio test is active, and only toward a peer with a session.
#[derive(Debug, PartialEq, Eq, Structural)]
pub enum StartCallGate {
    /// Signal the session to start the call.
    Proceed,
    /// A call, room or audio test is already active.
    AlreadyActive,
    /// The peer has no session to carry the call.
    NoSession,
}

pub fn start_call_gate(call_active: bool, has_session: bool) -> (r: StartCallGate)
    ensures
        r == if call_active {
            StartCallGate::AlreadyActive
        } else if !has_session {
            StartCallGate::NoSession
        } else {
            StartCallGate::Proceed
        },
{
    if call_active {
        StartCallGate::AlreadyActive
    } else if !has_session {
        StartCallGate::NoSession
    } else {
        StartCallGate::Proceed
    }
}

} // verus!
