//! The verified core of a PostgreSQL proxy that stands between clients and a
//! target database.
//!
//! The proxy opens a session with the target in a client's name (`handshake`),
//! then passes on what the two say (`handler`): of the client's messages, those
//! that the policy in force allows, with its queries rewritten on the way
//! (`query`). What holds of all messages, all handshakes and all sessions is
//! proved in `message_laws`, `handshake_laws` and `handler_laws`.
pub mod auth;
pub mod config;
pub mod handler;
pub mod handler_laws;
pub mod handshake;
pub mod handshake_laws;
pub mod hex;
pub mod message;
pub mod message_laws;
pub mod params;
pub mod policy;
pub mod query;
pub mod tables;
