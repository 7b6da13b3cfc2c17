//! Verified core of the Seer command-line tool: path and text handling,
//! build planning, artifact grouping, session log handling and update checks.
pub mod text;
pub mod update;
pub mod build;
pub mod install;
pub mod paths;
pub mod run;
pub mod temp_file;
