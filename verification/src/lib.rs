//! Project, template and keyword logic of the Drift Script Manager, a tool
//! that creates, edits and packages Orion Drift spectator scripts.

pub mod text;
pub mod version;
pub mod paths;
pub mod package_info;
pub mod errors;
pub mod template;
pub mod state;
pub mod drift_project;
pub mod app_data;
pub mod keywords;
pub mod dev;
