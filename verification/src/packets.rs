//! The packets of each connection state.

pub mod configuration;
pub mod handshake;
pub mod login;
pub mod play;
pub mod status;
pub mod wire;
