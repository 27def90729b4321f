//! The per-peer session state machine.
//!
//! A session owns one message-framed control stream to its peer and runs an
//! event loop: each iteration is driven by exactly one event — a stop
//! signal, an inbound control message, the local start-call signal, or the
//! keep-alive tick. The functions here are the decisions of that loop; the
//! surrounding task performs the I/O they prescribe and feeds the outcomes
//! back in.

use crate::error::ErrorKind;
use crate::messages::{opt_bytes_model, AudioHeader, CallConfig, Message, MessageModel};
use crate::peer::PeerId;
use vstd::prelude::*;

verus! {

/// Seconds a caller waits for the reply to `Hello`.
pub const HELLO_TIMEOUT_SECS: u64 = 10;

/// Extra seconds granted when the `Hello` carries a ringtone payload.
pub const RINGTONE_TIMEOUT_EXTRA_SECS: u64 = 10;

/// Call state shared between control plane and audio pipeline before the
/// call starts.
pub struct EarlyCallState {
    /// The peer of this call.
    pub peer: PeerId,
    /// Our audio parameters, sent in `Hello` or `HelloAck`.
    pub local_configuration: AudioHeader,
    /// The peer's audio parameters, learned from its `Hello` or `HelloAck`.
    pub remote_configuration: AudioHeader,
    /// Channels of the capture device; the pipeline keeps one.
    pub input_channels: usize,
}

impl EarlyCallState {
    /// The codec options the two clients agree on.
    pub fn codec_config(&self) -> (r: CallConfig)
        ensures
            r.codec_enabled == (self.local_configuration.codec_enabled
                || self.remote_configuration.codec_enabled),
            r.vbr == (self.local_configuration.vbr || self.remote_configuration.vbr),
            r.residual_bits == if self.local_configuration.residual_bits
                <= self.remote_configuration.residual_bits {
                self.local_configuration.residual_bits
            } else {
                self.remote_configuration.residual_bits
            },
    {
        self.local_configuration.negotiate(&self.remote_configuration)
    }
}

/// The event that drives one iteration of the session loop.
pub enum SessionEvent {
    /// The stop-session token fired.
    StopSession,
    /// A control message arrived on the session stream.
    Inbound(Message),
    /// The local side asked to start a call.
    StartCall,
    /// The keep-alive interval elapsed with nothing else to do.
    KeepAliveTick,
}

/// What the session loop does for one event.
pub enum SessionStep {
    /// Return: the session was stopped and needs no cleanup of its own.
    Stop,
    /// Begin the accept path for an inbound `Hello`: the remote header, the
    /// room hash it carried, and its ringtone when custom ringtones play.
    BeginAccept {
        remote_header: AudioHeader,
        room_hash: Option<Vec<u8>>,
        ringtone: Option<Vec<u8>>,
    },
    /// Begin the outbound path: send our `Hello` and await the reply.
    BeginOutbound,
    /// Write a keep-alive on the control stream.
    WriteKeepAlive,
    /// Nothing to do; run the loop again (a keep-alive or unexpected
    /// message arrived).
    Continue,
}

/// The one decision of the top of the session loop: which path an event
/// starts. An inbound `Hello` opens the accept path (its ringtone is kept
/// only when custom ringtones are enabled); the start-call signal opens the
/// outbound path; keep-alives and unexpected messages are absorbed.
pub fn session_step(event: SessionEvent, play_custom_ringtones: bool) -> (r: SessionStep)
    ensures
        match event {
            SessionEvent::StopSession => r is Stop,
            SessionEvent::Inbound(m) => match m {
                Message::Hello { ringtone, audio_header, room_hash } => {
                    &&& r matches SessionStep::BeginAccept {
                        remote_header,
                        room_hash: rh,
                        ringtone: rt,
                    }
                    &&& remote_header == audio_header
                    &&& opt_bytes_model(rh) == opt_bytes_model(room_hash)
                    &&& opt_bytes_model(rt) == if play_custom_ringtones {
                        opt_bytes_model(ringtone)
                    } else {
                        Option::<Seq<u8>>::None
                    }
                },
                _ => r is Continue,
            },
            SessionEvent::StartCall => r is BeginOutbound,
            SessionEvent::KeepAliveTick => r is WriteKeepAlive,
        },
{
    match event {
        SessionEvent::StopSession => SessionStep::Stop,
        SessionEvent::Inbound(m) => match m {
            Message::Hello { ringtone, audio_header, room_hash } => SessionStep::BeginAccept {
                remote_header: audio_header,
                room_hash,
                ringtone: if play_custom_ringtones {
                    ringtone
                } else {
                    Option::None
                },
            },
            _ => SessionStep::Continue,
        },
        SessionEvent::StartCall => SessionStep::BeginOutbound,
        SessionEvent::KeepAliveTick => SessionStep::WriteKeepAlive,
    }
}

/// How an inbound `Hello` is answered before any user interaction.
#[derive(Debug, PartialEq, Eq, Structural)]
pub enum AcceptDecision {
    /// The caller is a member of our current room and named it: accept
    /// without prompting.
    AutoAccept,
    /// The caller named a room we are not in: reply `Reject`.
    RejectRoomMismatch,
    /// We are already in a call: reply `Busy`.
    ReplyBusy,
    /// Ask the user.
    PromptUser,
}

fn opt_bytes_eq(a: &Option<Vec<u8>>, b: &Option<Vec<u8>>) -> (r: bool)
    ensures
        r == (opt_bytes_model(*a) == opt_bytes_model(*b)),
{
    match (a, b) {
        (Option::None, Option::None) => true,
        (Option::Some(x), Option::Some(y)) => {
            if x.len() != y.len() {
                return false;
            }
            let n = x.len();
            let mut i: usize = 0;
            while i < n
                invariant
                    i <= n,
                    n == x@.len() == y@.len(),
                    opt_bytes_model(*a) == Option::Some(x@),
                    opt_bytes_model(*b) == Option::Some(y@),
                    forall|j: int| 0 <= j < i ==> x@[j] == #[trigger] y@[j],
                decreases n - i,
            {
                if x[i] != y[i] {
                    return false;
                }
                i = i + 1;
            }
            proof {
                assert(x@ =~= y@);
            }
            true
        },
        _ => false,
    }
}

/// The accept-path gate: room members naming our room are accepted at once,
/// callers naming a room we are not in are rejected, a second call while one
/// is active is answered `Busy`, and everything else goes to the user.
pub fn accept_decision(
    peer_in_room: bool,
    our_room_hash: &Option<Vec<u8>>,
    hello_room_hash: &Option<Vec<u8>>,
    in_call: bool,
) -> (r: AcceptDecision)
    ensures
        r == if peer_in_room && opt_bytes_model(*hello_room_hash) == opt_bytes_model(
            *our_room_hash,
        ) {
            AcceptDecision::AutoAccept
        } else if opt_bytes_model(*hello_room_hash) is Some {
            AcceptDecision::RejectRoomMismatch
        } else if in_call {
            AcceptDecision::ReplyBusy
        } else {
            AcceptDecision::PromptUser
        },
{
    if peer_in_room && opt_bytes_eq(hello_room_hash, our_room_hash) {
        AcceptDecision::AutoAccept
    } else if hello_room_hash.is_some() {
        AcceptDecision::RejectRoomMismatch
    } else if in_call {
        AcceptDecision::ReplyBusy
    } else {
        AcceptDecision::PromptUser
    }
}

/// What follows the user's decision (or the auto-accept) on an inbound call.
pub enum AcceptOutcome {
    /// The call was declined: write `Reject`.
    SendReject,
    /// The audio device failed during setup: write a goodbye naming the
    /// audio device, then surface the failure.
    SendGoodbyeAudioError,
    /// Accepted and the device is ready: write `HelloAck` with our header,
    /// then run the room or call handshake.
    SendHelloAck { response: Message, room: bool },
}

/// The reply once the accept prompt resolves: a decline sends `Reject`, a
/// failed audio setup sends the audio-error goodbye, and an accepted call
/// answers `HelloAck` carrying our audio parameters and enters the room or
/// call handshake.
pub fn accept_outcome(accepted: bool, setup: &Option<AudioHeader>, peer_in_room: bool) -> (r:
    AcceptOutcome)
    ensures
        !accepted ==> r is SendReject,
        accepted ==> match *setup {
            Option::Some(h) => r matches AcceptOutcome::SendHelloAck { response, room }
                && response@ == (MessageModel::HelloAck { audio_header: h }) && room
                == peer_in_room,
            Option::None => r is SendGoodbyeAudioError,
        },
{
    if !accepted {
        AcceptOutcome::SendReject
    } else {
        match setup {
            Option::None => AcceptOutcome::SendGoodbyeAudioError,
            Option::Some(h) => AcceptOutcome::SendHelloAck {
                response: Message::HelloAck { audio_header: *h },
                room: peer_in_room,
            },
        }
    }
}

/// The outbound `Hello` and how long to wait for its reply: ten seconds,
/// plus ten more when a ringtone payload rides along.
pub fn outbound_hello(
    local_header: &AudioHeader,
    ringtone: Option<Vec<u8>>,
    room_hash: Option<Vec<u8>>,
) -> (r: (Message, u64))
    ensures
        r.0@ == (MessageModel::Hello {
            ringtone: opt_bytes_model(ringtone),
            audio_header: *local_header,
            room_hash: opt_bytes_model(room_hash),
        }),
        r.1 == HELLO_TIMEOUT_SECS + if ringtone is Some {
            RINGTONE_TIMEOUT_EXTRA_SECS
        } else {
            0
        },
{
    let timeout = if ringtone.is_some() {
        HELLO_TIMEOUT_SECS + RINGTONE_TIMEOUT_EXTRA_SECS
    } else {
        HELLO_TIMEOUT_SECS
    };
    (Message::Hello { ringtone, audio_header: *local_header, room_hash }, timeout)
}

/// Why a call attempt ended before it connected; the front end renders the
/// words.
pub enum CallRefused {
    /// The peer said goodbye with this reason.
    WithReason(Vec<u8>),
    /// The peer rejected or hung up without a reason.
    NotAccepted,
    /// The peer is in another call.
    PeerBusy,
    /// The peer answered with something neither ack nor refusal.
    Unexpected,
}

/// What the caller does with the reply to its `Hello`.
pub enum HelloReplyStep {
    /// The callee accepted: run the room or call handshake with its header.
    EnterHandshake { remote_header: AudioHeader, room: bool },
    /// The call is off; tell the user why.
    EndCall(CallRefused),
    /// The call is off silently (room members decline quietly).
    EndSilently,
    /// A keep-alive slipped in; keep waiting for the real reply.
    KeepWaiting,
}

/// The caller's handling of each possible reply to `Hello`: an ack enters
/// the handshake; a goodbye, reject or busy ends the attempt with the
/// matching explanation — silently between room members, where declines are
/// routine; a keep-alive keeps waiting; anything else ends the attempt as
/// unexpected.
pub fn on_hello_reply(reply: Message, in_room: bool) -> (r: HelloReplyStep)
    ensures
        match reply@ {
            MessageModel::HelloAck { audio_header } => r
                matches HelloReplyStep::EnterHandshake { remote_header, room }
                && remote_header == audio_header && room == in_room,
            MessageModel::Goodbye { reason } => match reason {
                Option::Some(m) => r matches HelloReplyStep::EndCall(
                    CallRefused::WithReason(b),
                ) && b@ == m,
                Option::None => if in_room {
                    r is EndSilently
                } else {
                    r matches HelloReplyStep::EndCall(c) && c is NotAccepted
                },
            },
            MessageModel::Reject => if in_room {
                r is EndSilently
            } else {
                r matches HelloReplyStep::EndCall(c) && c is NotAccepted
            },
            MessageModel::Busy => if in_room {
                r is EndSilently
            } else {
                r matches HelloReplyStep::EndCall(c) && c is PeerBusy
            },
            MessageModel::KeepAlive => r is KeepWaiting,
            _ => r matches HelloReplyStep::EndCall(c) && c is Unexpected,
        },
{
    match reply {
        Message::HelloAck { audio_header } => HelloReplyStep::EnterHandshake {
            remote_header: audio_header,
            room: in_room,
        },
        Message::Goodbye { reason } => match reason {
            Option::Some(m) => HelloReplyStep::EndCall(CallRefused::WithReason(m)),
            Option::None => if in_room {
                HelloReplyStep::EndSilently
            } else {
                HelloReplyStep::EndCall(CallRefused::NotAccepted)
            },
        },
        Message::Reject => if in_room {
            HelloReplyStep::EndSilently
        } else {
            HelloReplyStep::EndCall(CallRefused::NotAccepted)
        },
        Message::Busy => if in_room {
            HelloReplyStep::EndSilently
        } else {
            HelloReplyStep::EndCall(CallRefused::PeerBusy)
        },
        Message::KeepAlive => HelloReplyStep::KeepWaiting,
        _ => HelloReplyStep::EndCall(CallRefused::Unexpected),
    }
}

// ---------------------------------------------------------------------------
// The in-call controller.
// ---------------------------------------------------------------------------

/// The event that drives one iteration of the call controller.
pub enum CallEvent {
    /// A control message arrived from the peer.
    Inbound(Message),
    /// The local side queued a message to send.
    OutboundQueued(Message),
    /// The local message channel closed: the call is over.
    ChannelClosed,
    /// The local end-call signal fired.
    EndCallSignal,
}

/// What the call controller does for one event.
pub enum CallStep {
    /// The call ended; `reason` is the peer's goodbye reason and `notify`
    /// says whether the user is told.
    End { reason: Option<Vec<u8>>, notify: bool },
    /// Write `Goodbye` with no reason, then end without notifying (the user
    /// ended the call).
    WriteGoodbyeAndEnd,
    /// Hand a received chat line to the front end.
    DeliverChat { text: Vec<u8>, attachments_total: usize },
    /// The peer announced a screen share: start the playback side.
    StartScreenshare { header: Message },
    /// Write this queued message to the peer.
    WriteMessage(Message),
    /// An unexpected message; stay in the call.
    Ignore,
}

/// The call controller's decision for one event: the peer's goodbye ends
/// the call (telling the user), chat and screen-share announcements are
/// delivered, queued messages are written, a closed channel ends the call,
/// and the local end-call signal says goodbye without notifying.
pub fn call_step(event: CallEvent) -> (r: CallStep)
    ensures
        match event {
            CallEvent::Inbound(m) => match m {
                Message::Goodbye { reason } => r matches CallStep::End { reason: r2, notify }
                    && opt_bytes_model(r2) == opt_bytes_model(reason) && notify,
                Message::Chat { text, attachments } => r matches CallStep::DeliverChat {
                    text: t,
                    ..
                } && t@ == text@,
                Message::ScreenshareHeader { encoder_name } => r
                    matches CallStep::StartScreenshare { header } && header@ == (
                MessageModel::ScreenshareHeader { encoder_name: encoder_name@ }),
                _ => r is Ignore,
            },
            CallEvent::OutboundQueued(m) => r matches CallStep::WriteMessage(w) && w == m,
            CallEvent::ChannelClosed => r matches CallStep::End { reason, notify } && reason
                is None && notify,
            CallEvent::EndCallSignal => r is WriteGoodbyeAndEnd,
        },
{
    match event {
        CallEvent::Inbound(m) => match m {
            Message::Goodbye { reason } => CallStep::End { reason, notify: true },
            Message::Chat { text, attachments } => CallStep::DeliverChat {
                text,
                attachments_total: attachments.len(),
            },
            Message::ScreenshareHeader { encoder_name } => CallStep::StartScreenshare {
                header: Message::ScreenshareHeader { encoder_name },
            },
            _ => CallStep::Ignore,
        },
        CallEvent::OutboundQueued(m) => CallStep::WriteMessage(m),
        CallEvent::ChannelClosed => CallStep::End { reason: Option::None, notify: true },
        CallEvent::EndCallSignal => CallStep::WriteGoodbyeAndEnd,
    }
}

// ---------------------------------------------------------------------------
// The outer retry loop.
// ---------------------------------------------------------------------------

/// How one run of the session loop ended.
pub enum SessionResult {
    /// The stop-session token fired.
    Stopped,
    /// The iteration finished normally; the session may run again.
    Continue,
    /// The iteration failed.
    Failed(ErrorKind),
}

/// What the outer loop does after one run of the session loop.
#[derive(Debug, PartialEq, Eq, Structural)]
pub enum OuterStep {
    /// Leave the loop. With `cleanup`, the session removes itself from the
    /// session map; `notify_inactive` tells the front end the session is
    /// gone (never for room-only dummy contacts); `notify_call_ended` tells
    /// it an active call died with the error.
    Exit { cleanup: bool, notify_inactive: bool, notify_call_ended: bool },
    /// Run the session loop again, after reporting a dead call if one was
    /// active.
    Restart { notify_call_ended: bool },
}

/// The retry gate: a stopped session exits without cleanup (it was already
/// removed); room-only sessions never restart; recoverable failures restart
/// the loop; critical failures exit with cleanup. A failure during an
/// active call outside a room is reported to the user.
pub fn outer_step(
    result: &SessionResult,
    room_only: bool,
    was_in_call: bool,
    peer_in_room: bool,
) -> (r: OuterStep)
    ensures
        match *result {
            SessionResult::Stopped => r == (OuterStep::Exit {
                cleanup: false,
                notify_inactive: false,
                notify_call_ended: false,
            }),
            SessionResult::Continue => if room_only {
                r == (OuterStep::Exit {
                    cleanup: true,
                    notify_inactive: false,
                    notify_call_ended: false,
                })
            } else {
                r == (OuterStep::Restart { notify_call_ended: false })
            },
            SessionResult::Failed(kind) => {
                let note = was_in_call && !room_only && !peer_in_room;
                if room_only || kind.session_critical() {
                    r == (OuterStep::Exit {
                        cleanup: true,
                        notify_inactive: !room_only,
                        notify_call_ended: note,
                    })
                } else {
                    r == (OuterStep::Restart { notify_call_ended: note })
                }
            },
        },
{
    match result {
        SessionResult::Stopped => OuterStep::Exit {
            cleanup: false,
            notify_inactive: false,
            notify_call_ended: false,
        },
        SessionResult::Continue => {
            if room_only {
                OuterStep::Exit {
                    cleanup: true,
                    notify_inactive: false,
                    notify_call_ended: false,
                }
            } else {
                OuterStep::Restart { notify_call_ended: false }
            }
        },
        SessionResult::Failed(kind) => {
            let note = was_in_call && !room_only && !peer_in_room;
            if room_only || kind.is_session_critical() {
                OuterStep::Exit { cleanup: true, notify_inactive: !room_only, notify_call_ended: note }
            } else {
                OuterStep::Restart { notify_call_ended: note }
            }
        },
    }
}

} // verus!

verus! {

// ---------------------------------------------------------------------------
// Starting a screen share.
// ---------------------------------------------------------------------------

/// What the manager does with a screen-share request for a peer.
pub enum ScreenshareStep {
    /// The peer has no session: nothing can start.
    NoSession,
    /// The peer announced a share with this encoder and we can open a
    /// stream: play it back.
    Playback { encoder_name: Vec<u8> },
    /// We start the share: announce the encoder, then wait for the peer to
    /// open a stream and record into it.
    AnnounceAndRecord { header: Message },
    /// We were asked to record but no recording configuration is set.
    MissingConfiguration,
}

/// The screen-share gateway: a received announcement starts playback, a
/// local request announces our configured encoder and records, and both
/// need a session with the peer.
pub fn screenshare_step(
    has_session: bool,
    received_header: Option<Message>,
    recording_encoder: Option<Vec<u8>>,
) -> (r: ScreenshareStep)
    ensures
        !has_session ==> r is NoSession,
        has_session ==> match received_header {
            Option::Some(m) => match m {
                Message::ScreenshareHeader { encoder_name } => r
                    matches ScreenshareStep::Playback { encoder_name: e } && e@ == encoder_name@,
                _ => r is MissingConfiguration,
            },
            Option::None => match recording_encoder {
                Option::Some(enc) => r matches ScreenshareStep::AnnounceAndRecord { header }
                    && header@ == (MessageModel::ScreenshareHeader { encoder_name: enc@ }),
                Option::None => r is MissingConfiguration,
            },
        },
{
    if !has_session {
        return ScreenshareStep::NoSession;
    }
    match received_header {
        Option::Some(m) => match m {
            Message::ScreenshareHeader { encoder_name } => ScreenshareStep::Playback {
                encoder_name,
            },
            _ => ScreenshareStep::MissingConfiguration,
        },
        Option::None => match recording_encoder {
            Option::Some(enc) => ScreenshareStep::AnnounceAndRecord {
                header: Message::ScreenshareHeader { encoder_name: enc },
            },
            Option::None => ScreenshareStep::MissingConfiguration,
        },
    }
}

} // verus!
