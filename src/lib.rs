//! Server core of a real-time position-synchronisation service: the wire
//! codec, the per-connection validation state machine, the broadcast hub's
//! fan-out decisions and the registrar that hands out identities.

pub mod codec;
pub mod handler;
pub mod hub;
pub mod registrar;
pub mod relay;
