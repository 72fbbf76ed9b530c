//! Dotfile management core: an ordered path-mapping rule engine, the link
//! planner that decides where each file of a profile is linked, the git
//! synchronisation plan, and lifecycle hooks. Everything here works on plain
//! values; reading the file system and running processes is left to the caller.

pub mod text;
pub mod paths;
pub mod error;
pub mod mapping;
pub mod mapper;
pub mod link;
pub mod linker;
pub mod hooks;
pub mod repo;
pub mod config;
pub mod sync;
pub mod profile;
pub mod state;
pub mod util;
