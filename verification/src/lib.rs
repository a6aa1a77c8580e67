//! Core logic of a launcher plugin that finds recently opened editor
//! workspaces and relaunches one of them: configuration defaulting, scanning
//! of per-workspace metadata, query matching, and launch-command building.

pub mod config;
pub mod launch;
pub mod matcher;
pub mod scan;
pub mod state;
pub mod text;
