use telepathy::frontend::{
    attachments_too_large, build_chat, chat_to_wire, end_call_target, start_call_gate,
    Capabilities, Contact, EndCallTarget, RecordingConfig, SendToDartLogger, StartCallGate,
};
use telepathy::messages::{Attachment, Message};
use telepathy::peer::PeerId;

fn peer(tag: u8) -> PeerId {
    PeerId::from_bytes(vec![tag; 4])
}

#[test]
fn contacts_carry_their_parts() {
    let c = Contact::new("alice".to_string(), peer(1));
    assert_eq!(c.nickname().as_str(), "alice");
    assert_eq!(c.peer_id(), vec![1; 4]);
    assert!(!c.is_room_only);
    assert!(c.id_eq(vec![1; 4]));
    assert!(!c.id_eq(vec![2; 4]));

    let d = Contact::from_parts("fixed-id".to_string(), "bob".to_string(), peer(2));
    assert_eq!(d.id().as_str(), "fixed-id");

    let mut e = Contact::room_only(peer(3));
    assert!(e.is_room_only);
    assert_eq!(e.nickname().as_str(), "GroupContact");
    e.set_nickname("carol".to_string());
    assert_eq!(e.nickname().as_str(), "carol");
}

#[test]
fn fresh_contacts_get_distinct_identifiers() {
    let a = Contact::new("a".to_string(), peer(1));
    let b = Contact::new("b".to_string(), peer(1));
    assert_ne!(a.id(), b.id());
    assert!(!a.id().is_empty());
}

#[test]
fn chats_are_stamped_and_addressed() {
    let contact = Contact::new("alice".to_string(), peer(5));
    let atts = vec![Attachment { name: b"f".to_vec(), data: vec![1, 2] }];
    let chat = build_chat(&contact, b"hello".to_vec(), atts.clone());
    assert_eq!(chat.text, b"hello".to_vec());
    assert_eq!(chat.receiver.to_bytes(), vec![5; 4]);
    assert!(chat.timestamp_ms > 0);
    match chat_to_wire(chat) {
        Message::Chat { text, attachments } => {
            assert_eq!(text, b"hello".to_vec());
            assert_eq!(attachments, atts);
        }
        other => panic!("wrong wire message: {:?}", other),
    }
}

#[test]
fn small_attachments_are_not_too_large() {
    let atts = vec![
        Attachment { name: b"a".to_vec(), data: vec![0; 1024] },
        Attachment { name: b"b".to_vec(), data: vec![0; 4096] },
    ];
    assert!(!attachments_too_large(&atts));
    assert!(!attachments_too_large(&Vec::new()));
}

#[test]
fn capabilities_and_recording_config_expose_their_fields() {
    let caps = Capabilities {
        encoders: vec!["one".to_string(), "two".to_string()],
        devices: vec!["screen".to_string()],
    };
    assert_eq!(caps.encoders().len(), 2);
    assert_eq!(caps.devices()[0], "screen");

    let config = RecordingConfig {
        encoder: "one".to_string(),
        device: "screen".to_string(),
        bitrate: 4_000_000,
        framerate: 30,
        height: Some(720),
    };
    assert_eq!(config.encoder().as_str(), "one");
    assert_eq!(config.device().as_str(), "screen");
    assert_eq!(config.bitrate(), 4_000_000);
    assert_eq!(config.framerate(), 30);
    assert_eq!(config.height(), Some(720));
}

#[test]
fn log_sink_reports_overrides_and_collects_lines() {
    let mut logger = SendToDartLogger::new();
    // Lines logged before a sink is attached are dropped.
    logger.do_logs(vec!["early".to_string()]);
    assert!(!logger.set_stream_sink(Vec::new()));
    logger.do_logs(vec!["one".to_string(), "two".to_string()]);
    // Attaching again (a front-end hot reload) reports the override.
    assert!(logger.set_stream_sink(Vec::new()));
}

#[test]
fn end_call_tears_down_in_priority_order() {
    assert_eq!(end_call_target(true, true, true), EndCallTarget::AudioTest);
    assert_eq!(end_call_target(false, true, true), EndCallTarget::Room);
    assert_eq!(end_call_target(false, false, true), EndCallTarget::CallSession);
    assert_eq!(end_call_target(false, false, false), EndCallTarget::Nothing);
}

#[test]
fn start_call_needs_an_idle_client_and_a_session() {
    assert_eq!(start_call_gate(true, true), StartCallGate::AlreadyActive);
    assert_eq!(start_call_gate(false, false), StartCallGate::NoSession);
    assert_eq!(start_call_gate(false, true), StartCallGate::Proceed);
}
