//! The rules of the stored tables: which rows an operation touches and what it makes of them.

pub mod analytics;
pub mod clock;
pub mod code_chunks;
pub mod durable_step;
pub mod feedback;
pub mod model_overrides;
pub mod outbox;
pub mod pending_actions;
pub mod push_notifications;
pub mod repo_settings;
pub mod repositories;
pub mod reviews;
pub mod rows;
pub mod search;
pub mod tasks;
pub mod webhook_deliveries;
