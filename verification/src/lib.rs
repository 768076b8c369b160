//! bmap — control Bluetooth audio devices over the BMAP protocol.
//!
//! The crate holds the protocol logic: packet framing, response parsing,
//! per-device feature tables, payload parsers and builders, and the
//! request/response dialogues that a connection runs over a `Transport`.

pub mod error;
pub mod text;
pub mod protocol;
pub mod device;
pub mod devices;
pub mod catalog;
pub mod transport;
pub mod connection;
pub mod discovery;
pub mod setup;
pub mod cli;
pub mod laws;
