//! The distributors that are asked about parts.

pub mod digikey;
pub mod fallback;
pub mod mouser;
