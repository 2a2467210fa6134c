//! Verified core of a lightweight server-side browser service: page
//! lifecycle states, the per-command V8 watchdog, one-shot V8 flag handling,
//! error classification, cookie preparation and content extraction.

pub mod text;
pub mod lifecycle;
pub mod watchdog;
pub mod errors;
pub mod v8_flags;
pub mod extract;
pub mod server;
