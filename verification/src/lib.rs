//! Authenticated access to URL redirects: bearer-token introspection with a
//! cache-aside token cache, and the redirect repository with its ownership,
//! key-format, conflict and pagination rules.

pub mod text;
pub mod key;
pub mod record;
pub mod table;
pub mod database;
pub mod system;
pub mod cache;
pub mod authentication;
pub mod responses;
pub mod service;
pub mod requests;
pub mod config;
pub mod handlers;
pub mod laws;
