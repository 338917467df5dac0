//! Command-line tooling for Shulkerscript projects: migration of plain
//! data packs into Shulkerscript sources, project scaffolding and the
//! project configuration model.

pub mod cli;
pub mod config;
pub mod error;
pub mod init;
pub mod laws;
pub mod meta;
pub mod migrate;
pub mod output;
pub mod paths;
pub mod project;
pub mod text;
pub mod transpile;
pub mod util;
pub mod watch;
