//! A software-distribution client: the version model, the cache file-name
//! encoding and cache index, the build-repository query protocol, the chunked
//! download plan and the install / uninstall decision flow.

pub mod text;

pub mod version;
pub mod error;
pub mod platform;
pub mod product;
pub mod candidate;
pub mod cache;
pub mod repository;
pub mod download;
pub mod install;
pub mod cli;
pub mod config;
pub mod inventory;
pub mod flow;
