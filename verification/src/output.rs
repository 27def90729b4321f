//! The output processor's frame decision: each received message is either
//! dropped (deafened), counted as loss (the device sink is full — late
//! audio is never buffered), discarded (wrong frame size), or decoded into
//! 480 samples for the speaker path.

use crate::processing::{
    bytes_to_samples, pcm_samples, ProcessorMessage, ProcessorMessageModel, FRAME_SIZE,
};
use vstd::prelude::*;

verus! {

/// What the output processor does with one received message.
pub enum OutputStep {
    /// Deafened: the message is dropped silently.
    Skip,
    /// The sink is full: the frame is dropped and one frame of samples is
    /// counted as loss.
    CountLoss,
    /// Not exactly one frame of samples: warn and drop.
    DropBadLength,
    /// One 480-sample frame, ready for volume scaling and resampling.
    Play(Vec<i16>),
}

/// The samples a message carries: directly, or decoded from its wire bytes.
pub open spec fn message_samples(m: ProcessorMessageModel) -> Seq<i16> {
    match m {
        ProcessorMessageModel::Samples(s) => s,
        ProcessorMessageModel::Data(d) => pcm_samples(d),
    }
}

/// The output decision for one message: deafened output drops it, a full
/// sink counts one frame of loss, a frame of the wrong size is discarded,
/// and everything else plays.
pub fn output_step(deafened: bool, sink_full: bool, message: ProcessorMessage) -> (r: OutputStep)
    ensures
        deafened ==> r is Skip,
        !deafened && sink_full ==> r is CountLoss,
        !deafened && !sink_full ==> {
            if message_samples(message@).len() == FRAME_SIZE {
                r matches OutputStep::Play(s) && s@ == message_samples(message@)
            } else {
                r is DropBadLength
            }
        },
{
    if deafened {
        OutputStep::Skip
    } else if sink_full {
        OutputStep::CountLoss
    } else {
        let samples = match message {
            ProcessorMessage::Samples(s) => s,
            ProcessorMessage::Data(d) => bytes_to_samples(&d),
        };
        if samples.len() != FRAME_SIZE {
            OutputStep::DropBadLength
        } else {
            OutputStep::Play(samples)
        }
    }
}

/// Samples of loss one output decision adds to the loss counter.
pub open spec fn output_loss(r: OutputStep) -> int {
    if r is CountLoss {
        FRAME_SIZE as int
    } else {
        0
    }
}

/// Accounts the loss of one output decision, wrapping as the shared counter
/// does.
pub fn output_accounting(step: &OutputStep, loss: u64) -> (r: u64)
    ensures
        r as int == (loss + output_loss(*step)) % 0x1_0000_0000_0000_0000,
{
    let added: u64 = match step {
        OutputStep::CountLoss => 480,
        _ => 0,
    };
    ((loss as u128 + added as u128) % 0x1_0000_0000_0000_0000) as u64
}

} // verus!
