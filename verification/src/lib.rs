//! Verified core of a Minecraft protocol client: the wire codec of the basic
//! types, packet layouts and the packets built on them, network framing with
//! compression, the encryption handshake, and the small decisions a bot makes
//! about its connection.

pub mod buffer;
pub mod bytes_buf;
pub mod connection;
pub mod encrypt;
pub mod entity;
pub mod field;
pub mod field_io;
pub mod frame;
pub mod packet;
pub mod packets;
pub mod read;
pub mod reconnect;
pub mod roundtrip;
pub mod rsa_key;
pub mod types;
pub mod varint;
