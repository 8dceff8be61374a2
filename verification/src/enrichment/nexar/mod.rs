//! The Nexar part search.

pub mod auth;
pub mod client;
