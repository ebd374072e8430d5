//! The agent-to-agent surface: review submission, polling, streaming and push notification.

pub mod auth;
pub mod card;
pub mod events;
pub mod handler;
pub mod lifecycle;
pub mod limits;
pub mod mapping;
pub mod model;
pub mod push_crypto;
pub mod ssrf;
pub mod store;
pub mod streaming;
