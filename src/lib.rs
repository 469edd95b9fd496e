//! Ingestion core for a local repository browser: rate-limit budgeting,
//! tree reconstruction from flat listings, README asset rewriting, staged
//! progress reporting and the add-repository pipeline.
pub mod client;
pub mod error;
pub mod text;
pub mod image;
pub mod models;
pub mod paths;
pub mod pipeline;
pub mod platforms;
pub mod progress;
pub mod rate_limit;
pub mod readme;
pub mod tree;
