//! A terminal dashboard's data engine: per-table refresh with retry and
//! backoff, JSON field extraction, a registry that survives configuration
//! reloads, and the pure helpers used to lay the tables out.

pub mod config;
pub mod extract;
pub mod layout;
pub mod refresh;
pub mod registry;
