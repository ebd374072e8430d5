//! The decision core of a code-review control plane.

pub mod a2a;
pub mod config;
pub mod db;
pub mod egress;
pub mod ids;
pub mod json;
pub mod laws;
pub mod net;
pub mod order;
pub mod platform;
pub mod text;
