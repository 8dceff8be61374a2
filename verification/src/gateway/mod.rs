//! The gateway: accounts, billing, boms and teams.

pub mod agent_brief;
pub mod analyze;
pub mod auth;
pub mod billing;
pub mod boms;
pub mod clients;
pub mod crm;
pub mod entitlements;
pub mod error;
pub mod purchasing;
pub mod team;
pub mod upload;
