//! Team members and invitations.

pub mod handlers;
pub mod mail;
pub mod store;

pub use store::TeamStore;
