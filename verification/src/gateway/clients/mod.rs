//! The services that the gateway calls.

pub mod bedrock;
pub mod parser;
pub mod tariff;
