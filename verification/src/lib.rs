//! Server-side login sessions: token codec, stored record format, an expiring
//! cache model and the session manager built on them.

pub mod cache;
pub mod cookies;
pub mod decimal;
pub mod identity;
pub mod laws;
pub mod record;
pub mod session;
pub mod text_map;
