use telepathy::messages::Message;
use telepathy::processing::ProcessorMessage;
use telepathy::sockets::{
    extract_control_frame, extract_media_frame, fanout_round, frame_control, frame_media,
    gate_frame, keep_alive_frame, prepend_timestamp, receive_accounting, send_accounting,
    sender_step, timestamp, MediaAction, SenderAction, SenderEvent, MAX_AGE,
};

#[test]
fn timestamp_counts_centiseconds() {
    assert_eq!(timestamp(0), 0);
    assert_eq!(timestamp(9), 0);
    assert_eq!(timestamp(12_345), 1_234);
    assert_eq!(timestamp(10_000), 1_000);
}

#[test]
fn timestamp_wraps_as_a_32_bit_counter() {
    let ms = (0x1_0000_0000u64 + 7) * 10;
    assert_eq!(timestamp(ms), 7);
}

#[test]
fn prepended_timestamp_is_big_endian() {
    let framed = prepend_timestamp(&vec![0xAA, 0xBB], 0x01020304);
    assert_eq!(framed, vec![1, 2, 3, 4, 0xAA, 0xBB]);
}

#[test]
fn gate_accepts_fresh_frames_and_strips_the_timestamp() {
    let payload = vec![9u8, 8, 7, 6];
    let framed = prepend_timestamp(&payload, 1000);
    match gate_frame(&framed, 1000 + MAX_AGE) {
        MediaAction::Deliver(bytes) => assert_eq!(bytes, payload),
        other => panic!("expected delivery, got {:?}", other),
    }
}

#[test]
fn gate_drops_frames_older_than_max_age() {
    let framed = prepend_timestamp(&vec![1, 2], 1000);
    assert!(matches!(
        gate_frame(&framed, 1000 + MAX_AGE + 1),
        MediaAction::DropLate
    ));
    // The age check is symmetric: a frame from the future is late too.
    let future = prepend_timestamp(&vec![1, 2], 2000);
    assert!(matches!(gate_frame(&future, 2000 - MAX_AGE - 1), MediaAction::DropLate));
    assert!(matches!(
        gate_frame(&future, 2000 - MAX_AGE),
        MediaAction::Deliver(_)
    ));
}

#[test]
fn gate_treats_one_byte_as_keep_alive() {
    assert!(matches!(gate_frame(&vec![1u8], 99), MediaAction::KeepAlive));
    assert!(matches!(gate_frame(&vec![0u8], 99), MediaAction::KeepAlive));
}

#[test]
fn gate_ignores_frames_too_short_for_a_timestamp() {
    assert!(matches!(gate_frame(&vec![1, 2], 0), MediaAction::Unexpected));
    assert!(matches!(gate_frame(&vec![1, 2, 3], 0), MediaAction::Unexpected));
    assert!(matches!(gate_frame(&Vec::new(), 0), MediaAction::Unexpected));
}

#[test]
fn late_frames_count_a_full_frame_of_loss() {
    let (bw, loss) = receive_accounting(&MediaAction::DropLate, 964, 100, 20);
    assert_eq!(bw, 1064);
    assert_eq!(loss, 500);
    let (bw, loss) = receive_accounting(&MediaAction::Deliver(vec![1]), 964, 100, 20);
    assert_eq!(bw, 1064);
    assert_eq!(loss, 20);
}

#[test]
fn sender_forwards_bytes_and_keeps_alive_on_timeout() {
    match sender_step(SenderEvent::Payload(ProcessorMessage::Data(vec![5, 6]))) {
        SenderAction::Send(bytes) => assert_eq!(bytes, vec![5, 6]),
        other => panic!("expected send, got {:?}", other),
    }
    assert!(matches!(
        sender_step(SenderEvent::TimedOut),
        SenderAction::SendKeepAlive
    ));
    assert!(matches!(sender_step(SenderEvent::Closed), SenderAction::Shutdown));
    assert!(matches!(
        sender_step(SenderEvent::Payload(ProcessorMessage::Samples(vec![1]))),
        SenderAction::Shutdown
    ));
}

#[test]
fn keep_alive_is_the_single_byte_one() {
    assert_eq!(keep_alive_frame(), vec![1u8]);
}

#[test]
fn fanout_evicts_failed_sockets_and_counts_successes() {
    let ids = vec![10u64, 11, 12, 13];
    let sent = vec![true, false, true, false];
    let (kept, successes) = fanout_round(&ids, &sent);
    assert_eq!(kept, vec![10, 12]);
    assert_eq!(successes, 2);

    let (kept, successes) = fanout_round(&Vec::new(), &Vec::new());
    assert!(kept.is_empty());
    assert_eq!(successes, 0);
}

#[test]
fn bandwidth_counts_bytes_once_per_successful_send() {
    assert_eq!(send_accounting(100, 964, 3), 100 + 964 * 3);
    assert_eq!(send_accounting(100, 964, 0), 100);
}

#[test]
fn media_framing_round_trips_under_the_limit() {
    let payload = vec![7u8; 960];
    let framed = frame_media(&payload).expect("fits one media frame");
    assert_eq!(framed.len(), 962);
    assert_eq!(&framed[0..2], &[0x03, 0xC0]);
    let (out, next) = extract_media_frame(&framed, 0).expect("parses back");
    assert_eq!(out, payload);
    assert_eq!(next, framed.len());
    // One byte more does not fit a media frame.
    assert!(frame_media(&vec![0u8; 961]).is_none());
    // A truncated frame is not parsed.
    let mut short = framed.clone();
    short.pop();
    assert!(extract_media_frame(&short, 0).is_none());
}

#[test]
fn control_framing_round_trips() {
    let payload = Message::KeepAlive.encode();
    let framed = frame_control(&payload).expect("fits a control frame");
    assert_eq!(framed.len(), 9);
    assert_eq!(&framed[0..8], &[0, 0, 0, 0, 0, 0, 0, 1]);
    let (out, next) = extract_control_frame(&framed, 0).expect("parses back");
    assert_eq!(Message::decode(&out), Some(Message::KeepAlive));
    assert_eq!(next, framed.len());
    assert!(extract_control_frame(&framed, 1).is_none());
}

#[test]
fn two_control_frames_parse_in_sequence() {
    let mut stream = frame_control(&Message::Reject.encode()).unwrap();
    stream.extend_from_slice(&frame_control(&Message::Busy.encode()).unwrap());
    let (first, p1) = extract_control_frame(&stream, 0).unwrap();
    let (second, p2) = extract_control_frame(&stream, p1).unwrap();
    assert_eq!(Message::decode(&first), Some(Message::Reject));
    assert_eq!(Message::decode(&second), Some(Message::Busy));
    assert_eq!(p2, stream.len());
    assert!(extract_control_frame(&stream, p2).is_none());
}
