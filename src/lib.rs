//! Streaming conversion of delimited tabular data into JSON or YAML documents.

pub mod headers;
pub mod assets;
pub mod structured;
pub mod pipeline;
pub mod error;
pub mod input;
pub mod config;
pub mod batch;
