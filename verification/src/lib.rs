//! A signaling relay for screen-sharing sessions: hosts register session ids over a
//! control connection, clients reach them through tunnelled HTTP requests.
//!
//! The library decides everything the relay does: which host holds which session,
//! where a client request goes, how requests are rate limited, what the relay answers,
//! and the identifiers, cookies and TURN credentials it hands out.

pub mod clock;
pub mod config;
pub mod cookie;
pub mod crypto;
pub mod maps;
pub mod messages;
pub mod rate_limit;
pub mod relay;
pub mod reply;
pub mod text;
pub mod tunnel;
