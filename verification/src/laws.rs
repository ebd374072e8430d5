//! What the operations are for, stated on the fields of the rows and the values that go in and come out.

pub mod analytics;
pub mod answers;
pub mod changes;
pub mod feedback;
pub mod index;
pub mod kept;
pub mod logs;
pub mod outbox;
pub mod repositories;
pub mod reviews;
pub mod runs;
pub mod service;
pub mod settings;
pub mod streams;
pub mod submissions;
pub mod tasks_log;
pub mod texts;
pub mod webhooks;
