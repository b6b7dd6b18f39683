//! NDJSON file source. Reading is not implemented: opening it reports so.

use crate::error::EsiftError;
use crate::text;
use vstd::prelude::*;

verus! {

/// A newline-delimited JSON file as a source of documents.
pub struct FileSource {
    pub path: String,
}

impl FileSource {
    /// A source for the file at `path`.
    pub fn new(path: &str) -> (r: Result<FileSource, EsiftError>)
        ensures
            r matches Ok(s) && s.path@ == path@,
    {
        Ok(FileSource { path: path.to_owned() })
    }

    /// Opening the source fails.
    pub fn open(&self) -> (r: Result<(), EsiftError>)
        ensures
            r matches Err(e) && e is Source && e.detail() == "file source is not yet implemented"@,
    {
        Err(EsiftError::Source("file source is not yet implemented".to_owned()))
    }

    /// Human-readable label.
    pub fn description(&self) -> (r: String)
        ensures
            r@ == "File "@ + self.path@,
    {
        text::join2("File ", self.path.as_str())
    }
}

} // verus!
