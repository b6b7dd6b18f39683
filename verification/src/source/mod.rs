//! Where documents come from.

pub mod datadog;
pub mod file;
pub mod opensearch;
