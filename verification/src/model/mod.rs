//! Types shared by the services.

pub mod enrichment;
pub mod purchasing;
