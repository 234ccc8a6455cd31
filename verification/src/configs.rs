//! The persisted configuration document, its on-disk text format, the store
//! that owns the document, and the resolver that merges it with command-line
//! overrides.

pub mod codec;
pub mod config;
pub mod config_file;
pub mod config_service;
pub mod types;
