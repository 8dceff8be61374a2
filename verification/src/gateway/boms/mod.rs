//! Stored boms.

pub mod analysis;
pub mod briefs;
pub mod daily_refresh;
pub mod flagged;
pub mod handlers;
pub mod observability;
pub mod store;
pub mod types;

pub use briefs::{LineBrief, LineBriefs};
pub use flagged::{FlaggedLineItem, FlaggedLines};
pub use observability::BOM_WRITE_FAILED_MARKER;
pub use types::{BomRecord, BomSummary};
