//! Reading boms from files.

pub mod columns;
pub mod compound;
pub mod corpus;
pub mod csv;
pub mod header;
pub mod ingest;
pub mod package;
pub mod pipeline;
pub mod row;
pub mod sheet;
pub mod synonyms;
pub mod warning;
pub mod xlsx;
