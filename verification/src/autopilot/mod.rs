//! The autopilot: it takes a workspace from a finished implementation through review and review
//! fixes to a merged pull request.
pub mod advance;
pub mod agent_text;
pub mod batch;
pub mod gates;
pub mod merge;
pub mod merge_run;
pub mod merge_state;
pub mod pr_status;
pub mod promotion;
pub mod review;
pub mod sessions;
pub mod start;
pub mod status;
pub mod types;
