//! The decisions of an uptime checker: which checks run when and where, what a
//! response means, and what is reported about it.

pub mod app;
pub mod assertions;
pub mod check_config_provider;
pub mod check_executor;
pub mod checker;
pub mod cliapp;
pub mod config_consumer;
pub mod config_store;
pub mod config_waiter;
pub mod endpoint;
pub mod ids;
pub mod logging;
pub mod manager;
pub mod number;
pub mod producer;
pub mod redis_client;
pub mod scheduler;
pub mod sets;
pub mod text;
pub mod time;
pub mod types;
