//! Part enrichment: asking distributors about parts, and remembering what they said.

pub mod cache;
pub mod drain;
pub mod lines;
pub mod metrics;
pub mod nexar;
pub mod providers;
pub mod store;
pub mod store_item;
pub mod sync;
pub mod types;
pub mod worker;
