use telepathy::input::{InputProcessor, MINIMUM_SILENCE_LENGTH};
use telepathy::processing::{
    bytes_to_samples, frame_energy, is_below_threshold, make_transition_down, make_transition_up,
    samples_to_bytes, ProcessorMessage, FRAME_SIZE, TRANSITION_LENGTH,
};

fn frame_of(value: i16) -> Vec<i16> {
    vec![value; FRAME_SIZE]
}

#[test]
fn transition_down_ramps_then_stays_silent() {
    let buf = make_transition_down(TRANSITION_LENGTH, 960);
    assert_eq!(buf.len(), FRAME_SIZE);
    // 960 / 96 = 10 per step: 960, 950, ..., 10, then zeros.
    assert_eq!(buf[0], 960);
    assert_eq!(buf[1], 950);
    assert_eq!(buf[95], 10);
    for i in TRANSITION_LENGTH..FRAME_SIZE {
        assert_eq!(buf[i], 0);
    }
}

#[test]
fn transition_down_handles_negative_levels() {
    let buf = make_transition_down(TRANSITION_LENGTH, -960);
    assert_eq!(buf[0], -960);
    assert_eq!(buf[95], -10);
    assert_eq!(buf[96], 0);
}

#[test]
fn transition_down_survives_extreme_level() {
    let buf = make_transition_down(TRANSITION_LENGTH, i16::MIN);
    // -32768 / 96 truncates to -341; the peak is -341 * 96 = -32736.
    assert_eq!(buf[0], -32736);
    assert_eq!(buf[96], 0);
}

#[test]
fn transition_up_is_silent_then_ramps() {
    let buf = make_transition_up(TRANSITION_LENGTH, 960);
    assert_eq!(buf.len(), FRAME_SIZE);
    let start = FRAME_SIZE - TRANSITION_LENGTH;
    for i in 0..start {
        assert_eq!(buf[i], 0);
    }
    assert_eq!(buf[start], 10);
    assert_eq!(buf[FRAME_SIZE - 1], 960);
}

#[test]
fn pcm_bytes_round_trip() {
    let samples = vec![0i16, 1, -1, i16::MAX, i16::MIN, 12345, -12345];
    let bytes = samples_to_bytes(&samples);
    assert_eq!(bytes.len(), samples.len() * 2);
    // Little-endian layout.
    assert_eq!(&bytes[0..4], &[0, 0, 1, 0]);
    assert_eq!(&bytes[4..6], &[0xff, 0xff]);
    assert_eq!(bytes_to_samples(&bytes), samples);
}

#[test]
fn pcm_ignores_trailing_odd_byte() {
    let bytes = vec![0x34, 0x12, 0x99];
    assert_eq!(bytes_to_samples(&bytes), vec![0x1234]);
}

#[test]
fn frame_energy_is_the_sum_of_squares() {
    assert_eq!(frame_energy(&vec![]), 0);
    assert_eq!(frame_energy(&vec![3, -4]), 25);
    assert_eq!(frame_energy(&vec![i16::MIN]), 32768 * 32768);
}

#[test]
fn threshold_compares_energy_against_squared_rms() {
    // A constant frame of value v has RMS exactly v.
    let frame = vec![100i16; 4];
    assert!(is_below_threshold(&frame, 101));
    assert!(!is_below_threshold(&frame, 100));
    assert!(!is_below_threshold(&frame, 99));
}

#[test]
fn silence_hysteresis_emits_one_down_transition() {
    let mut p = InputProcessor::new(true);
    let silent = frame_of(5);
    // Short silences pass through unchanged.
    for _ in 0..(MINIMUM_SILENCE_LENGTH - 1) {
        let out = p.process_frame(&silent, true);
        assert_eq!(out.len(), 1);
        assert_eq!(out[0], ProcessorMessage::Samples(silent.clone()));
    }
    // The frame that completes the minimum emits exactly the down-ramp.
    let out = p.process_frame(&silent, true);
    assert_eq!(out.len(), 1);
    assert_eq!(
        out[0],
        ProcessorMessage::Samples(make_transition_down(TRANSITION_LENGTH, 5))
    );
    // Silence after that emits nothing.
    for _ in 0..10 {
        assert_eq!(p.process_frame(&silent, true).len(), 0);
    }
}

#[test]
fn waking_from_silence_prepends_one_up_transition() {
    let mut p = InputProcessor::new(true);
    let silent = frame_of(0);
    for _ in 0..(MINIMUM_SILENCE_LENGTH + 5) {
        p.process_frame(&silent, true);
    }
    let loud = frame_of(2000);
    let out = p.process_frame(&loud, false);
    assert_eq!(out.len(), 2);
    assert_eq!(
        out[0],
        ProcessorMessage::Samples(make_transition_up(TRANSITION_LENGTH, 2000))
    );
    assert_eq!(out[1], ProcessorMessage::Samples(loud.clone()));
    // The next loud frame passes through alone.
    let out = p.process_frame(&loud, false);
    assert_eq!(out.len(), 1);
}

#[test]
fn waking_with_nonpositive_start_skips_the_up_transition() {
    let mut p = InputProcessor::new(true);
    let silent = frame_of(0);
    for _ in 0..(MINIMUM_SILENCE_LENGTH + 5) {
        p.process_frame(&silent, true);
    }
    let loud = frame_of(-2000);
    let out = p.process_frame(&loud, false);
    assert_eq!(out.len(), 1);
    assert_eq!(out[0], ProcessorMessage::Samples(loud.clone()));
}

#[test]
fn codec_off_emits_one_wire_frame_per_audible_frame() {
    let mut p = InputProcessor::new(false);
    let loud = frame_of(1000);
    let out = p.process_frame(&loud, false);
    assert_eq!(out.len(), 1);
    match &out[0] {
        ProcessorMessage::Data(bytes) => {
            assert_eq!(bytes.len(), FRAME_SIZE * 2);
            assert_eq!(bytes_to_samples(bytes), loud);
        }
        other => panic!("expected wire bytes, got {:?}", other),
    }
}
