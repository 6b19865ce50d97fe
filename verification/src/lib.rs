//! Version manager for the `dsh` command line tool: configuration, path layout,
//! install-progress interpretation, forward scripts and launch helpers.

pub mod text;
pub mod paths;
pub mod config;
pub mod actions;
pub mod versions;
pub mod install;
pub mod envcheck;
pub mod launcher;
pub mod window;
pub mod launch;
pub mod commands;
