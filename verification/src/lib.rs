//! Catalog-and-lifecycle core for add-on packages of three boot-environment
//! ecosystems. Each ecosystem has its own remote catalog schema and its own
//! on-disk filename grammar; this crate normalizes both into one model,
//! classifies locally installed files, decides install/update status by
//! comparing version strings, and drives install/update/enable/disable
//! operations through a task registry that admits at most one in-flight
//! operation per plugin identity and kind.

pub mod catalog;
pub mod codec;
pub mod config;
pub mod downloader;
pub mod drives;
pub mod error;
pub mod lifecycle;
pub mod mode;
pub mod plugin;
pub mod registry;
pub mod scanner;
pub mod sizefmt;
pub mod strutil;
pub mod tasks;
pub mod version;
