//! Verified core of a help-menu plugin: a configuration store with atomic
//! reload, a deterministic fingerprint over the rendering-affecting parts of
//! the configuration, a content-addressed artifact cache with safe cleanup,
//! the render-coordinator decisions, and read-only search and listing over
//! the configuration.
//!
//! Everything here works on plain values. The surrounding process (message
//! transport, file system, template engine, headless renderer) lives outside
//! this crate and hands values in and out.

pub mod cache;
pub mod config;
pub mod coordinator;
pub mod fingerprint;
pub mod query;
pub mod text;
