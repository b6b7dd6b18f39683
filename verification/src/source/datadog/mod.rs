//! Datadog log sources.
//!
//! - `archive`: Datadog's compressed-JSON log archives, read from object storage.
//! - `api`: the Logs Search API, cursor-paginated and time-window chunked.
//!
//! Both call the parsing helpers in `decompress`, `flatten_archive`,
//! `flatten_api` and `site`.

pub mod api;
pub mod archive;
pub mod decompress;
pub mod flatten_api;
pub mod flatten_archive;
pub mod site;
