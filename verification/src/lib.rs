//! A tmux session orchestrator: session layouts described in a config are
//! turned into the tmux commands that build them, and running sessions are
//! read back into configs.
pub mod text;
pub mod name_map;
pub mod config;
pub mod util;
pub mod tmux;
pub mod capture;
pub mod start;
pub mod query;
