//! Launcher core for Minecraft: workspace paths, Java version detection,
//! Modrinth query building and selection, version downloads planning and
//! game launch planning.

pub mod text;
pub mod paths;
pub mod java;
pub mod cli;
pub mod assoc;
pub mod config;
pub mod modrinth;
pub mod mod_install;
pub mod version;
pub mod loader;
pub mod digest;
pub mod launch;
pub mod crash;
pub mod auth;
pub mod listing;
