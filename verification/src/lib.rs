//! Verified core of a small service-status monitor: configuration rules,
//! health-check evaluation, status aggregation, notification texts and the
//! labels that the status page shows.

pub mod text;
pub mod display;
pub mod check;
pub mod config;
pub mod status;
pub mod notify;
pub mod laws;
