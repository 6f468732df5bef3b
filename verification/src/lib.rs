//! Core of a bidirectional, multi-track LAN audio streaming peer.
//!
//! The crate covers the real-time data plane and its control structures:
//! the wire protocol (audio packets, discovery beacons, handshake packets),
//! the bounded frame ring connecting audio callbacks to worker threads,
//! the adaptive jitter buffer, the track manager with its event bus, the
//! smoothed level meter, and the discovery and handshake state machines.
//!
//! Platform audio I/O, the codec, sockets and the UI are outside the
//! library: callers hand in plain values (bytes, sample words, timestamps)
//! and take plain values back.

pub mod config;
pub mod control;
pub mod discovery;
pub mod errors;
pub mod frame;
pub mod handshake;
pub mod jitter;
pub mod manager;
pub mod meter;
pub mod receiver;
pub mod sender;
pub mod protocol;
pub mod ring;
pub mod strbytes;
pub mod track;

pub use discovery::DiscoveryPacket;
pub use frame::AudioFrame;
pub use jitter::JitterBuffer;
pub use meter::SmoothLevelMeter;
pub use protocol::AudioPacket;
pub use protocol::PacketFlags;
pub use ring::RingBuffer;
