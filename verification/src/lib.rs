//! A verified core for a chat-room-to-webhook relay.
//!
//! The library frames an unbounded chunked byte stream into discrete JSON
//! records, decodes each record into a message, resolves a room name against
//! a room listing, builds outbound notifications, and decides — as an
//! explicit state machine — when the surrounding process reconnects and
//! when it stops.

pub mod codec;
pub mod framer;
pub mod message;
pub mod notify;
pub mod relay;
pub mod rooms;
pub mod session;
