use telepathy::error::ErrorKind;
use telepathy::messages::{AudioHeader, Message};
use telepathy::peer::PeerId;
use telepathy::session::{
    accept_decision, accept_outcome, call_step, on_hello_reply, outbound_hello, outer_step,
    screenshare_step, session_step, AcceptDecision, AcceptOutcome, CallEvent, CallRefused,
    CallStep, EarlyCallState, HelloReplyStep, OuterStep, ScreenshareStep, SessionEvent,
    SessionResult, SessionStep, HELLO_TIMEOUT_SECS,
};

fn header() -> AudioHeader {
    AudioHeader {
        sample_rate: 48_000,
        codec_enabled: true,
        vbr: true,
        residual_bits: 5.0f64.to_bits(),
    }
}

#[test]
fn session_loop_routes_each_event() {
    assert!(matches!(
        session_step(SessionEvent::StopSession, true),
        SessionStep::Stop
    ));
    assert!(matches!(
        session_step(SessionEvent::StartCall, true),
        SessionStep::BeginOutbound
    ));
    assert!(matches!(
        session_step(SessionEvent::KeepAliveTick, true),
        SessionStep::WriteKeepAlive
    ));
    assert!(matches!(
        session_step(SessionEvent::Inbound(Message::KeepAlive), true),
        SessionStep::Continue
    ));
    assert!(matches!(
        session_step(SessionEvent::Inbound(Message::Reject), true),
        SessionStep::Continue
    ));
}

#[test]
fn inbound_hello_keeps_ringtone_only_when_enabled() {
    let hello = Message::Hello {
        ringtone: Some(vec![1, 2, 3]),
        audio_header: header(),
        room_hash: None,
    };
    match session_step(SessionEvent::Inbound(hello.clone()), true) {
        SessionStep::BeginAccept { ringtone, .. } => assert_eq!(ringtone, Some(vec![1, 2, 3])),
        _ => panic!("expected accept path"),
    }
    match session_step(SessionEvent::Inbound(hello), false) {
        SessionStep::BeginAccept { ringtone, .. } => assert_eq!(ringtone, None),
        _ => panic!("expected accept path"),
    }
}

#[test]
fn room_members_are_accepted_without_a_prompt() {
    let ours = Some(vec![1u8; 8]);
    assert_eq!(
        accept_decision(true, &ours, &Some(vec![1u8; 8]), false),
        AcceptDecision::AutoAccept
    );
}

#[test]
fn foreign_room_calls_are_rejected() {
    assert_eq!(
        accept_decision(false, &None, &Some(vec![2u8; 8]), false),
        AcceptDecision::RejectRoomMismatch
    );
    // Even a room member gets rejected when the hash names another room.
    assert_eq!(
        accept_decision(true, &Some(vec![1u8; 8]), &Some(vec![2u8; 8]), false),
        AcceptDecision::RejectRoomMismatch
    );
}

#[test]
fn second_call_answers_busy() {
    assert_eq!(accept_decision(false, &None, &None, true), AcceptDecision::ReplyBusy);
    assert_eq!(accept_decision(false, &None, &None, false), AcceptDecision::PromptUser);
}

#[test]
fn accept_outcome_covers_decline_failure_and_ack() {
    assert!(matches!(
        accept_outcome(false, &Some(header()), false),
        AcceptOutcome::SendReject
    ));
    assert!(matches!(
        accept_outcome(true, &None, false),
        AcceptOutcome::SendGoodbyeAudioError
    ));
    match accept_outcome(true, &Some(header()), true) {
        AcceptOutcome::SendHelloAck { response, room } => {
            assert!(room);
            assert_eq!(response, Message::HelloAck { audio_header: header() });
        }
        _ => panic!("expected hello ack"),
    }
}

#[test]
fn hello_timeout_grows_for_ringtones() {
    let (_, t) = outbound_hello(&header(), None, None);
    assert_eq!(t, HELLO_TIMEOUT_SECS);
    let (m, t) = outbound_hello(&header(), Some(vec![1]), Some(vec![2; 8]));
    assert_eq!(t, 2 * HELLO_TIMEOUT_SECS);
    assert_eq!(
        m,
        Message::Hello {
            ringtone: Some(vec![1]),
            audio_header: header(),
            room_hash: Some(vec![2; 8]),
        }
    );
}

#[test]
fn hello_replies_drive_the_caller() {
    match on_hello_reply(Message::HelloAck { audio_header: header() }, false) {
        HelloReplyStep::EnterHandshake { remote_header, room } => {
            assert_eq!(remote_header, header());
            assert!(!room);
        }
        _ => panic!("expected handshake"),
    }
    assert!(matches!(
        on_hello_reply(Message::Goodbye { reason: Some(b"no".to_vec()) }, false),
        HelloReplyStep::EndCall(CallRefused::WithReason(_))
    ));
    assert!(matches!(
        on_hello_reply(Message::Reject, false),
        HelloReplyStep::EndCall(CallRefused::NotAccepted)
    ));
    assert!(matches!(
        on_hello_reply(Message::Busy, false),
        HelloReplyStep::EndCall(CallRefused::PeerBusy)
    ));
    assert!(matches!(
        on_hello_reply(Message::KeepAlive, false),
        HelloReplyStep::KeepWaiting
    ));
    assert!(matches!(
        on_hello_reply(Message::Reject, true),
        HelloReplyStep::EndSilently
    ));
    assert!(matches!(
        on_hello_reply(Message::Busy, true),
        HelloReplyStep::EndSilently
    ));
    assert!(matches!(
        on_hello_reply(Message::HelloAck { audio_header: header() }, true),
        HelloReplyStep::EnterHandshake { room: true, .. }
    ));
}

#[test]
fn call_controller_handles_each_event() {
    match call_step(CallEvent::Inbound(Message::Goodbye { reason: None })) {
        CallStep::End { reason, notify } => {
            assert_eq!(reason, None);
            assert!(notify);
        }
        _ => panic!("expected end"),
    }
    assert!(matches!(
        call_step(CallEvent::Inbound(Message::Chat {
            text: b"hi".to_vec(),
            attachments: Vec::new(),
        })),
        CallStep::DeliverChat { .. }
    ));
    assert!(matches!(
        call_step(CallEvent::Inbound(Message::ScreenshareHeader {
            encoder_name: b"x".to_vec(),
        })),
        CallStep::StartScreenshare { .. }
    ));
    assert!(matches!(
        call_step(CallEvent::Inbound(Message::KeepAlive)),
        CallStep::Ignore
    ));
    assert!(matches!(
        call_step(CallEvent::OutboundQueued(Message::KeepAlive)),
        CallStep::WriteMessage(Message::KeepAlive)
    ));
    assert!(matches!(
        call_step(CallEvent::ChannelClosed),
        CallStep::End { reason: None, notify: true }
    ));
    assert!(matches!(
        call_step(CallEvent::EndCallSignal),
        CallStep::WriteGoodbyeAndEnd
    ));
}

#[test]
fn recoverable_failures_restart_and_critical_ones_exit() {
    assert_eq!(
        outer_step(&SessionResult::Stopped, false, false, false),
        OuterStep::Exit { cleanup: false, notify_inactive: false, notify_call_ended: false }
    );
    assert_eq!(
        outer_step(&SessionResult::Continue, false, true, false),
        OuterStep::Restart { notify_call_ended: false }
    );
    assert_eq!(
        outer_step(&SessionResult::Continue, true, false, false),
        OuterStep::Exit { cleanup: true, notify_inactive: false, notify_call_ended: false }
    );
    // A transient transport error during a call restarts, telling the user.
    assert_eq!(
        outer_step(&SessionResult::Failed(ErrorKind::Transport), false, true, false),
        OuterStep::Restart { notify_call_ended: true }
    );
    // A closed channel is critical: exit with cleanup.
    assert_eq!(
        outer_step(&SessionResult::Failed(ErrorKind::ChannelClosed), false, false, false),
        OuterStep::Exit { cleanup: true, notify_inactive: true, notify_call_ended: false }
    );
    // In a room, the same failure stays silent toward the call UI.
    assert_eq!(
        outer_step(&SessionResult::Failed(ErrorKind::Transport), false, true, true),
        OuterStep::Restart { notify_call_ended: false }
    );
}

#[test]
fn error_kinds_classify_as_specified() {
    assert!(ErrorKind::AudioDevice.is_audio_error());
    assert!(!ErrorKind::Transport.is_audio_error());
    for k in [
        ErrorKind::Identity,
        ErrorKind::SwarmBuild,
        ErrorKind::ChannelClosed,
        ErrorKind::RoomStateMissing,
    ] {
        assert!(k.is_session_critical());
    }
    for k in [
        ErrorKind::AudioDevice,
        ErrorKind::Transport,
        ErrorKind::Codec,
        ErrorKind::NoStream,
    ] {
        assert!(!k.is_session_critical());
    }
}

#[test]
fn early_call_state_negotiates_its_codec() {
    let state = EarlyCallState {
        peer: PeerId::from_bytes(vec![1, 2, 3]),
        local_configuration: AudioHeader {
            sample_rate: 48_000,
            codec_enabled: true,
            vbr: false,
            residual_bits: 3.0f64.to_bits(),
        },
        remote_configuration: AudioHeader {
            sample_rate: 44_100,
            codec_enabled: false,
            vbr: true,
            residual_bits: 7.0f64.to_bits(),
        },
        input_channels: 1,
    };
    let config = state.codec_config();
    assert!(config.codec_enabled);
    assert!(config.vbr);
    assert_eq!(f64::from_bits(config.residual_bits), 3.0);
}

#[test]
fn screenshare_requires_a_session_and_a_side() {
    assert!(matches!(
        screenshare_step(false, None, Some(b"x264".to_vec())),
        ScreenshareStep::NoSession
    ));
    match screenshare_step(
        true,
        Some(Message::ScreenshareHeader { encoder_name: b"vp9".to_vec() }),
        None,
    ) {
        ScreenshareStep::Playback { encoder_name } => assert_eq!(encoder_name, b"vp9".to_vec()),
        _ => panic!("expected playback"),
    }
    match screenshare_step(true, None, Some(b"x264".to_vec())) {
        ScreenshareStep::AnnounceAndRecord { header } => assert_eq!(
            header,
            Message::ScreenshareHeader { encoder_name: b"x264".to_vec() }
        ),
        _ => panic!("expected announcement"),
    }
    assert!(matches!(
        screenshare_step(true, None, None),
        ScreenshareStep::MissingConfiguration
    ));
}
