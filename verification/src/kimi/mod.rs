//! The Kimi model provider.
pub mod auth;
pub mod config;
pub mod laws;
pub mod provider;
