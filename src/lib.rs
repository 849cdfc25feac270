//! Reconciles a declared set of repository labels against the labels a
//! hosting service reports, as plans of create, update and delete operations.

pub mod cli;
pub mod label;
pub mod plan;
pub mod laws;
pub mod dispatch;
pub mod target;
