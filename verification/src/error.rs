//! The error taxonomy of the call plane, and the two predicates that drive
//! error handling: whether an error came from the audio device (it then
//! customizes the goodbye reason) and whether it is critical for a session
//! (it then breaks the session's retry loop instead of restarting it).

use vstd::prelude::*;

verus! {

/// What went wrong, by kind rather than by source type.
#[derive(Clone, Copy, Debug, PartialEq, Eq, Structural)]
pub enum ErrorKind {
    /// No device, an unsupported sample format, or a stream that failed to
    /// build: the audio layer is unavailable.
    AudioDevice,
    /// A transient transport failure: a send or receive error, or a frame
    /// over the length limit. The session may retry.
    Transport,
    /// The per-frame codec failed to encode or decode.
    Codec,
    /// The identity key is missing or failed to parse.
    Identity,
    /// The peer-to-peer swarm could not be built.
    SwarmBuild,
    /// No media sub-stream arrived within the handshake timeout.
    NoStream,
    /// A room operation ran without a current room.
    RoomStateMissing,
    /// A transport or internal channel is closed for good.
    ChannelClosed,
}

impl ErrorKind {
    /// The audio-device errors, which pick the "audio device error" goodbye
    /// reason.
    pub open spec fn audio_error(self) -> bool {
        self is AudioDevice
    }

    /// The errors a session cannot recover from by restarting: a broken
    /// identity, a swarm that cannot exist, a closed transport or channel,
    /// and a lost room state. Transient transport, codec and audio-device
    /// failures are recoverable.
    pub open spec fn session_critical(self) -> bool {
        self is Identity || self is SwarmBuild || self is ChannelClosed
            || self is RoomStateMissing
    }

    pub fn is_audio_error(&self) -> (r: bool)
        ensures
            r == self.audio_error(),
    {
        matches!(self, ErrorKind::AudioDevice)
    }

    pub fn is_session_critical(&self) -> (r: bool)
        ensures
            r == self.session_critical(),
    {
        matches!(
            self,
            ErrorKind::Identity | ErrorKind::SwarmBuild | ErrorKind::ChannelClosed
                | ErrorKind::RoomStateMissing
        )
    }
}

} // verus!
