//! Newline-delimited JSON file destination.
//!
//! Each batch is appended to the configured file as NDJSON: one line per
//! document body. The file is created on first write and opened in append mode,
//! so repeated batches accumulate.

use crate::dest::ndjson;
use crate::error::EsiftError;
use crate::text;
use crate::Document;
use vstd::prelude::*;

verus! {

/// A local file that documents are appended to.
pub struct FileDestination {
    pub path: String,
}

impl FileDestination {
    /// A destination that appends to the file at `path`.
    pub fn new(path: &str) -> (r: Result<FileDestination, EsiftError>)
        ensures
            r matches Ok(d) && d.path@ == path@,
    {
        Ok(FileDestination { path: path.to_owned() })
    }

    /// What a batch appends to the file.
    pub fn batch_text(&self, docs: &Vec<Document>) -> (r: String)
        ensures
            r@ == ndjson::lines(ndjson::bodies(crate::documents(docs@))),
    {
        ndjson::batch_lines(docs)
    }

    /// Human-readable label.
    pub fn description(&self) -> (r: String)
        ensures
            r@ == "File "@ + self.path@,
    {
        text::join2("File ", self.path.as_str())
    }
}

} // verus!
