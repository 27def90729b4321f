use telepathy::error::ErrorKind;
use telepathy::messages::{
    Attachment, AudioHeader, Message, RESIDUAL_BITS_EIGHT, RESIDUAL_BITS_ONE,
};

fn header(sample_rate: u32) -> AudioHeader {
    AudioHeader {
        sample_rate,
        codec_enabled: true,
        vbr: false,
        residual_bits: 5.0f64.to_bits(),
    }
}

#[test]
fn keep_alive_encodes_to_one_tag_byte() {
    let bytes = Message::KeepAlive.encode();
    assert_eq!(bytes, vec![6u8]);
}

#[test]
fn reject_and_busy_encode_to_their_tags() {
    assert_eq!(Message::Reject.encode(), vec![2u8]);
    assert_eq!(Message::Busy.encode(), vec![3u8]);
}

#[test]
fn hello_round_trips() {
    let m = Message::Hello {
        ringtone: Some(vec![1, 2, 3, 255]),
        audio_header: header(48_000),
        room_hash: Some(vec![9; 8]),
    };
    assert!(m.is_encodable());
    let bytes = m.encode();
    assert_eq!(Message::decode(&bytes), Some(m));
}

#[test]
fn hello_without_options_round_trips() {
    let m = Message::Hello {
        ringtone: None,
        audio_header: header(44_100),
        room_hash: None,
    };
    let bytes = m.encode();
    assert_eq!(Message::decode(&bytes), Some(m));
}

#[test]
fn hello_ack_round_trips() {
    let m = Message::HelloAck { audio_header: header(96_000) };
    let bytes = m.encode();
    assert_eq!(Message::decode(&bytes), Some(m));
}

#[test]
fn goodbye_round_trips() {
    for reason in [None, Some(b"audio device error".to_vec())] {
        let m = Message::Goodbye { reason };
        let bytes = m.encode();
        assert_eq!(Message::decode(&bytes), Some(m));
    }
}

#[test]
fn chat_with_attachments_round_trips() {
    let m = Message::Chat {
        text: "hello there".as_bytes().to_vec(),
        attachments: vec![
            Attachment { name: b"a.txt".to_vec(), data: vec![0, 1, 2] },
            Attachment { name: Vec::new(), data: Vec::new() },
            Attachment { name: b"b".to_vec(), data: vec![255; 1000] },
        ],
    };
    assert!(m.is_encodable());
    let bytes = m.encode();
    assert_eq!(Message::decode(&bytes), Some(m));
}

#[test]
fn screenshare_header_round_trips() {
    let m = Message::ScreenshareHeader { encoder_name: b"h264_nvenc".to_vec() };
    let bytes = m.encode();
    assert_eq!(Message::decode(&bytes), Some(m));
}

#[test]
fn every_simple_message_round_trips() {
    for m in [Message::Reject, Message::Busy, Message::KeepAlive] {
        let bytes = m.encode();
        assert_eq!(Message::decode(&bytes), Some(m));
    }
}

#[test]
fn decode_rejects_bad_tag() {
    assert_eq!(Message::decode(&vec![8u8]), None);
    assert_eq!(Message::decode(&vec![255u8]), None);
    assert_eq!(Message::decode(&Vec::new()), None);
}

#[test]
fn decode_rejects_truncated_hello() {
    let m = Message::Hello {
        ringtone: Some(vec![1, 2, 3]),
        audio_header: header(48_000),
        room_hash: None,
    };
    let mut bytes = m.encode();
    bytes.pop();
    assert_eq!(Message::decode(&bytes), None);
}

#[test]
fn decode_rejects_bad_bool_byte() {
    let m = Message::HelloAck { audio_header: header(48_000) };
    let mut bytes = m.encode();
    // The codec-enabled flag sits after the tag and the sample rate.
    bytes[5] = 2;
    assert_eq!(Message::decode(&bytes), None);
}

#[test]
fn header_fields_survive_bit_exactly() {
    let h = AudioHeader {
        sample_rate: 127_999,
        codec_enabled: false,
        vbr: true,
        residual_bits: 1.5f64.to_bits(),
    };
    let m = Message::HelloAck { audio_header: h };
    let decoded = Message::decode(&m.encode());
    match decoded {
        Some(Message::HelloAck { audio_header }) => {
            assert_eq!(audio_header.sample_rate, 127_999);
            assert!(!audio_header.codec_enabled);
            assert!(audio_header.vbr);
            assert_eq!(f64::from_bits(audio_header.residual_bits), 1.5);
        }
        other => panic!("wrong decode: {:?}", other),
    }
}

#[test]
fn header_validity_needs_sample_rate_and_residual_range() {
    assert!(header(127_999).is_valid());
    assert!(!header(128_000).is_valid());
    assert!(!header(900_000).is_valid());

    let mut h = header(48_000);
    h.residual_bits = 1.0f64.to_bits();
    assert_eq!(h.residual_bits, RESIDUAL_BITS_ONE);
    assert!(h.is_valid());
    h.residual_bits = 8.0f64.to_bits();
    assert_eq!(h.residual_bits, RESIDUAL_BITS_EIGHT);
    assert!(h.is_valid());
    h.residual_bits = 0.5f64.to_bits();
    assert!(!h.is_valid());
    h.residual_bits = 8.5f64.to_bits();
    assert!(!h.is_valid());
    h.residual_bits = (-2.0f64).to_bits();
    assert!(!h.is_valid());
    h.residual_bits = f64::NAN.to_bits();
    assert!(!h.is_valid());
}

#[test]
fn negotiation_joins_flags_and_takes_minimum_bits() {
    let local = AudioHeader {
        sample_rate: 48_000,
        codec_enabled: false,
        vbr: true,
        residual_bits: 5.0f64.to_bits(),
    };
    let remote = AudioHeader {
        sample_rate: 44_100,
        codec_enabled: true,
        vbr: false,
        residual_bits: 2.5f64.to_bits(),
    };
    let config = local.negotiate(&remote);
    assert!(config.codec_enabled);
    assert!(config.vbr);
    assert_eq!(f64::from_bits(config.residual_bits), 2.5);
}

#[test]
fn error_goodbye_names_audio_failures_only() {
    match Message::error_goodbye(&ErrorKind::AudioDevice) {
        Message::Goodbye { reason: Some(r) } => assert_eq!(r, b"audio device error".to_vec()),
        other => panic!("wrong goodbye: {:?}", other),
    }
    match Message::error_goodbye(&ErrorKind::Codec) {
        Message::Goodbye { reason: Some(r) } => assert_eq!(r, b"an error occurred".to_vec()),
        other => panic!("wrong goodbye: {:?}", other),
    }
}

#[test]
fn oversized_field_is_not_encodable() {
    // A four-gigabyte attachment cannot be built in a test, but the check
    // itself is cheap to exercise on the boundary of what fits.
    let m = Message::Chat { text: vec![b'x'; 100], attachments: Vec::new() };
    assert!(m.is_encodable());
}
