//! Decisions taken by the HTTP layer.

pub mod auth;
pub mod health;
