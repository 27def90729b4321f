//! Call-plane and media-pipeline core of a peer-to-peer voice-call system.
//!
//! The crate models the logic of the system as verified state machines and
//! pure functions: the control-message wire codec, the input/output audio
//! processors with silence hysteresis, the media-frame socket layer with its
//! timestamp max-age gate, the per-peer session state machine, the session
//! map, the room controller, connection selection, the relay's address
//! tracking, and the statistics collector. Device I/O, networking and the
//! floating-point front ends live outside the library and drive these
//! machines with plain values.

pub mod error;
pub mod frontend;
pub mod input;
pub mod manager;
pub mod messages;
pub mod output;
pub mod peer;
pub mod processing;
pub mod relay;
pub mod room;
pub mod session;
pub mod session_map;
pub mod sockets;
pub mod stats;

pub use processing::{make_transition_down, make_transition_up, FRAME_SIZE};
