//! The application.

pub mod config;
