//! Plans, subscriptions and access.

pub mod access;
pub mod handlers;
pub mod records;
pub mod service;
pub mod status;
pub mod webhook;

pub use handlers::{AdminSetPlanBody, GrantBody};
pub use records::is_operator_email;
pub use service::BillingService;
pub use status::CapError;
