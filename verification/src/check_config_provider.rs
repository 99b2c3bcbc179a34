//! Where check configurations come from.

pub mod redis_config_provider;
