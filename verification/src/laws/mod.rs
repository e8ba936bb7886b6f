//! What the library promises of its operations as a whole: laws over models of
//! the host, and over the names and values that users and other programs see.

pub mod activation;
pub mod answers;
pub mod backends;
pub mod commands;
pub mod console;
pub mod host;
pub mod install;
pub mod links;
pub mod menu;
pub mod nodes;
pub mod operations;
pub mod preview;
pub mod questions;
pub mod reading;
pub mod render;
pub mod routing;
pub mod running;
pub mod settings;
pub mod texts;
pub mod tun;
pub mod users;
