//! Verified core of the Cubera Minecraft launcher: path layout, version and
//! loader metadata handling, launch-argument assembly, account bookkeeping
//! and the text transformations the launcher applies to game files.

pub mod text;
pub mod paths;
pub mod branding;
pub mod digest;
pub mod auth;
pub mod manifest;
pub mod launch;
pub mod sorting;
pub mod instances;
pub mod download;
pub mod forge;
pub mod loaders;
pub mod java_runtime;
pub mod modrinth;
pub mod mrpack;
pub mod news;
pub mod skin;
pub mod http;
pub mod commands;
