//! A headless IRC client engine: framing of the server's byte stream, the
//! message parser, the decoder of inline text styles, the model of rooms,
//! channels and users, and the session's state machine.
//!
//! Text on the wire has no fixed encoding, so every text of the engine is a
//! string of bytes, and every contract speaks of `Seq<u8>`.
pub mod bytes;
pub mod channel;
pub mod clock;
pub mod config;
pub mod framer;
pub mod irc;
pub mod mention;
pub mod msg;
pub mod room;
pub mod sasl;
pub mod session;
pub mod text;
pub mod updater;
pub mod user;
