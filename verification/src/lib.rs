//! Bill-of-materials intake, part enrichment, risk scoring, billing and team
//! rules, with every rule stated as a contract and proved.

pub mod clock;
pub mod dynamo;
pub mod enrichment;
pub mod gateway;
pub mod http;
pub mod ids;
pub mod json;
pub mod model;
pub mod parser;
pub mod sorting;
pub mod strmap;
pub mod tally;
pub mod text;
