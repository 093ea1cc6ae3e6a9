//! Builds a metrics registry from a declarative list of metric definitions,
//! and decides whether a configuration file path may be loaded at all.

pub mod backend;
pub mod config;
pub mod errors;
pub mod handler;
pub mod loaders;
pub mod metric;
pub mod named;
pub mod paths;
pub mod registry;
