pub mod api;
pub mod autopilot;
pub mod github_issues;
pub mod ids;
pub mod json;
pub mod sync;
pub mod text;
