//! Verified core of the course-video web backend.

pub mod range;
pub mod text;
pub mod filename;
pub mod cookies;
pub mod net;
pub mod config;
pub mod ids;
pub mod entries;
pub mod ticket;
pub mod secret;
pub mod invite;
pub mod pending;
pub mod pending_store;
pub mod session;
pub mod session_store;
pub mod rate_limit;
pub mod browser_cookie;
pub mod gate;
pub mod whitelist;
pub mod web_error;
pub mod origin;
pub mod stream;
pub mod workflow;
pub mod responses;
pub mod state;
pub mod csrf;
pub mod frontend;
pub mod live_events;
pub mod actions;
