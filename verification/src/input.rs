//! The input processor's frame machine.
//!
//! The device front end hands the processor one 480-sample frame at a time,
//! already resampled, scaled and denoised, together with the verdict of the
//! silence detector. The machine decides what reaches the network: audible
//! frames pass through, short silences pass through unchanged, and a long
//! silence is closed by a single down-ramp after which nothing is sent until
//! sound returns, announced by at most one up-ramp.

use crate::processing::{
    lemma_transition_down_is_model, lemma_transition_up_is_model, make_transition_down,
    make_transition_up, msgs_model, payload_model, samples_to_bytes, transition_down_model,
    transition_up_model, ProcessorMessage, ProcessorMessageModel, FRAME_SIZE, TRANSITION_LENGTH,
};
use vstd::prelude::*;

verus! {

/// Silences shorter than this many frames are not treated as silence.
pub const MINIMUM_SILENCE_LENGTH: u8 = 40;

/// The silence counter after one more frame: it counts consecutive silent
/// frames, and jumps past the minimum once the down-transition is emitted so
/// that it is emitted only once.
pub open spec fn next_silence_length(sl: int, below: bool) -> int {
    if below {
        if sl + 1 < MINIMUM_SILENCE_LENGTH {
            sl + 1
        } else {
            MINIMUM_SILENCE_LENGTH + 1
        }
    } else {
        0
    }
}

/// Everything one frame makes the processor emit, in order.
pub open spec fn step_output(sl: int, codec: bool, frame: Seq<i16>, below: bool) -> Seq<
    ProcessorMessageModel,
> {
    if below {
        if sl + 1 < MINIMUM_SILENCE_LENGTH {
            seq![payload_model(codec, frame)]
        } else if sl + 1 == MINIMUM_SILENCE_LENGTH {
            seq![
                payload_model(
                    codec,
                    transition_down_model(frame[0], TRANSITION_LENGTH as int),
                ),
            ]
        } else {
            Seq::empty()
        }
    } else {
        if sl > 0 && frame[0] > 0 {
            seq![
                payload_model(codec, transition_up_model(frame[0], TRANSITION_LENGTH as int)),
                payload_model(codec, frame),
            ]
        } else {
            seq![payload_model(codec, frame)]
        }
    }
}

/// Turns consecutive 480-sample frames into the messages the network layer
/// sends, inserting transition ramps around silence boundaries.
pub struct InputProcessor {
    silence_length: u8,
    codec_enabled: bool,
}

impl InputProcessor {
    /// Consecutive silent frames seen so far, one past the minimum once the
    /// down-transition is out.
    pub closed spec fn silence_len(self) -> int {
        self.silence_length as int
    }

    /// Whether frames leave as samples for the encoder or as raw wire bytes.
    pub closed spec fn codec(self) -> bool {
        self.codec_enabled
    }

    pub open spec fn wf(self) -> bool {
        self.silence_len() <= MINIMUM_SILENCE_LENGTH + 1
    }

    pub fn new(codec_enabled: bool) -> (r: InputProcessor)
        ensures
            r.wf(),
            r.silence_len() == 0,
            r.codec() == codec_enabled,
    {
        InputProcessor { silence_length: 0, codec_enabled }
    }

    /// Feeds one frame through the silence machine. `below_threshold` is the
    /// silence detector's verdict on this frame.
    pub fn process_frame(&mut self, frame: &Vec<i16>, below_threshold: bool) -> (out: Vec<
        ProcessorMessage,
    >)
        requires
            old(self).wf(),
            frame@.len() == FRAME_SIZE,
        ensures
            final(self).wf(),
            final(self).codec() == old(self).codec(),
            final(self).silence_len() == next_silence_length(
                old(self).silence_len(),
                below_threshold,
            ),
            msgs_model(out@) == step_output(
                old(self).silence_len(),
                old(self).codec(),
                frame@,
                below_threshold,
            ),
    {
        let mut out: Vec<ProcessorMessage> = Vec::new();
        proof {
            assert(msgs_model(out@) =~= Seq::<ProcessorMessageModel>::empty());
        }
        if below_threshold {
            if self.silence_length < MINIMUM_SILENCE_LENGTH - 1 {
                self.silence_length = self.silence_length + 1;
                let m = make_payload(self.codec_enabled, frame);
                out.push(m);
                proof {
                    assert(msgs_model(out@) =~= Seq::<ProcessorMessageModel>::empty().push(m@));
                }
            } else if self.silence_length == MINIMUM_SILENCE_LENGTH - 1 {
                self.silence_length = MINIMUM_SILENCE_LENGTH + 1;
                let level = frame[0];
                let ramp = make_transition_down(TRANSITION_LENGTH, level);
                proof {
                    lemma_transition_down_is_model(ramp@, level, TRANSITION_LENGTH as int);
                }
                let m = make_payload(self.codec_enabled, &ramp);
                out.push(m);
                proof {
                    assert(msgs_model(out@) =~= Seq::<ProcessorMessageModel>::empty().push(m@));
                }
            } else {
                self.silence_length = MINIMUM_SILENCE_LENGTH + 1;
            }
        } else {
            if self.silence_length > 0 && frame[0] > 0 {
                let ramp = make_transition_up(TRANSITION_LENGTH, frame[0]);
                proof {
                    lemma_transition_up_is_model(ramp@, frame@[0], TRANSITION_LENGTH as int);
                }
                let m = make_payload(self.codec_enabled, &ramp);
                out.push(m);
                proof {
                    assert(msgs_model(out@) =~= Seq::<ProcessorMessageModel>::empty().push(m@));
                }
            }
            let ghost before = msgs_model(out@);
            let m2 = make_payload(self.codec_enabled, frame);
            out.push(m2);
            self.silence_length = 0;
            proof {
                assert(msgs_model(out@) =~= before.push(m2@));
            }
        }
        out
    }
}

/// Wraps one frame the way the pipeline ships it: as samples for the encoder
/// when the codec is on, as raw little-endian bytes otherwise.
fn make_payload(codec: bool, frame: &Vec<i16>) -> (r: ProcessorMessage)
    requires
        frame@.len() <= FRAME_SIZE,
    ensures
        r@ == payload_model(codec, frame@),
{
    if codec {
        ProcessorMessage::Samples(vstd::slice::slice_to_vec(frame.as_slice()))
    } else {
        ProcessorMessage::Data(samples_to_bytes(frame))
    }
}

// ---------------------------------------------------------------------------
// The hysteresis laws.
// ---------------------------------------------------------------------------

/// How many 480-sample frames a message carries.
pub open spec fn message_frame_len(m: ProcessorMessageModel) -> int {
    match m {
        ProcessorMessageModel::Samples(s) => s.len() as int,
        ProcessorMessageModel::Data(d) => d.len() as int / 2,
    }
}

/// The silence counter after `k` consecutive silent frames from a fresh
/// processor.
pub open spec fn silent_run(k: nat) -> int
    decreases k,
{
    if k == 0 {
        0
    } else {
        next_silence_length(silent_run((k - 1) as nat), true)
    }
}

/// Silence hysteresis: over any run of consecutive silent frames, the first
/// `MINIMUM_SILENCE_LENGTH - 1` pass through unchanged, the frame that
/// completes the minimum emits exactly one down-transition, and every silent
/// frame after it emits nothing.
pub proof fn lemma_silence_hysteresis(k: nat, codec: bool, frame: Seq<i16>)
    requires
        frame.len() == FRAME_SIZE,
    ensures
        silent_run(k) == if k < MINIMUM_SILENCE_LENGTH {
            k as int
        } else {
            MINIMUM_SILENCE_LENGTH + 1
        },
        step_output(silent_run(k), codec, frame, true) == if k + 1 < MINIMUM_SILENCE_LENGTH {
            seq![payload_model(codec, frame)]
        } else if k + 1 == MINIMUM_SILENCE_LENGTH {
            seq![
                payload_model(
                    codec,
                    transition_down_model(frame[0], TRANSITION_LENGTH as int),
                ),
            ]
        } else {
            Seq::<ProcessorMessageModel>::empty()
        },
    decreases k,
{
    if k > 0 {
        lemma_silence_hysteresis((k - 1) as nat, codec, frame);
    }
}

/// An audible frame always goes out: exactly one message carrying the frame
/// itself, preceded by one up-transition exactly when the processor was in
/// silence and the frame starts positive. Every emitted message carries
/// exactly one 480-sample frame.
pub proof fn lemma_audible_frame_emitted(sl: int, codec: bool, frame: Seq<i16>)
    requires
        frame.len() == FRAME_SIZE,
    ensures
        ({
            let out = step_output(sl, codec, frame, false);
            &&& out.len() >= 1
            &&& out.last() == payload_model(codec, frame)
            &&& out.len() == if sl > 0 && frame[0] > 0 {
                2int
            } else {
                1int
            }
            &&& forall|i: int| 0 <= i < out.len() ==> message_frame_len(#[trigger] out[i]) == FRAME_SIZE
        }),
{
    let out = step_output(sl, codec, frame, false);
    assert forall|i: int| 0 <= i < out.len() implies message_frame_len(#[trigger] out[i])
        == FRAME_SIZE by {
        if sl > 0 && frame[0] > 0 {
            assert(out[0] == payload_model(
                codec,
                transition_up_model(frame[0], TRANSITION_LENGTH as int),
            ));
            assert(out[1] == payload_model(codec, frame));
        } else {
            assert(out[0] == payload_model(codec, frame));
        }
    }
}

/// Every message a step emits, silent or audible, carries exactly one
/// 480-sample frame.
pub proof fn lemma_step_frames_sized(sl: int, codec: bool, frame: Seq<i16>, below: bool)
    requires
        frame.len() == FRAME_SIZE,
    ensures
        forall|i: int|
            0 <= i < step_output(sl, codec, frame, below).len() ==> message_frame_len(
                #[trigger] step_output(sl, codec, frame, below)[i],
            ) == FRAME_SIZE,
{
    if below {
    } else {
        lemma_audible_frame_emitted(sl, codec, frame);
    }
}

} // verus!
