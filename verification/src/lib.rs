//! Screen, sound and input streaming between two machines: the protocol, the
//! state machines on both ends and the arithmetic under them.

pub mod audio;
pub mod bytes;
pub mod client;
pub mod connection;
pub mod control;
pub mod delivery;
pub mod diag;
pub mod discovery;
pub mod error;
pub mod fragments;
pub mod framing;
pub mod headers;
pub mod input;
pub mod net;
pub mod protocol;
pub mod queue;
pub mod reassembly;
pub mod session;
pub mod text;
pub mod tofu;
pub mod transport;
pub mod types;
pub mod udp;
pub mod video;
pub mod wire;
