//! The backends of Linux hosts.

pub mod apps;
pub mod arch;
pub mod backends;
pub mod commands;
pub mod desktop;
pub mod identity;
pub mod install;
pub mod policy;
pub mod prepare;
pub mod setup;
