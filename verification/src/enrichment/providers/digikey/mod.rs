//! Digi-Key.

pub mod dto;
pub mod provider;
pub mod rate_limit;
