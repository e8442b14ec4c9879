//! Opt-in GitHub to Kanban sync planning.
//!
//! The planning is free of side effects: it takes a snapshot of GitHub issues and the existing
//! Kanban state and says which mutations would be needed. Callers decide whether and how to
//! execute them.
pub mod applying;
pub mod comments;
pub mod contents;
pub mod laws;
pub mod order;
pub mod plan;
pub mod prepare;
pub mod types;
