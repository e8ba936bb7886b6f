//! The logic of the Xray manager: parsing share links and subscriptions,
//! rendering Xray configuration, and deciding what the manager does next.
//! Reading files, running commands and downloading are left to its callers.

pub mod activation;
pub mod artifacts;
pub mod cli;
pub mod config;
pub mod console;
pub mod doctor;
pub mod domain;
pub mod download;
pub mod dto;
pub mod error;
pub mod events;
pub mod execution;
pub mod fake;
pub mod generation;
pub mod json;
pub mod laws;
pub mod linux;
pub mod menu;
pub mod operation;
pub mod order;
pub mod outside;
pub mod planning;
pub mod portable;
pub mod ports;
pub mod probe;
pub mod program;
pub mod protocols;
pub mod queries;
pub mod refresh;
pub mod registry;
pub mod render;
pub mod routing;
pub mod routing_file;
pub mod runner;
pub mod service;
pub mod storage;
pub mod subscription;
pub mod tasks;
pub mod templates;
pub mod text;
pub mod text_map;
pub mod tui;
pub mod unsupported;
