//! Where documents go.

pub mod file;
pub mod ndjson;
pub mod openobserve;
pub mod s3;
pub mod stdout;
