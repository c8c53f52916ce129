//! A scriptable Soulseek client's core logic: record rendering, settings,
//! chat-room state, search ranking, wire vocabulary and port-mapping frames.

pub mod api;
pub mod app_state;
pub mod browse;
pub mod cli;
pub mod commands;
pub mod completions;
pub mod config;
pub mod daemon;
pub mod directories;
pub mod nat_pmp;
pub mod output;
pub mod port_mapping;
pub mod paths;
pub mod proto;
pub mod rank;
pub mod remote;
pub mod rooms;
pub mod route;
pub mod secret;
pub mod settings;
pub mod skills;
pub mod snapshot;
pub mod social;
pub mod state;
pub mod store;
pub mod text;
pub mod transfer;
pub mod types;
pub mod watch;
pub mod wish;
