//! Document transform operations.
//!
//! These describe *what* to do; the engine that applies them is in `mapping`.

use vstd::prelude::*;

verus! {

/// One operation on the fields of a document.
#[derive(Debug, Clone)]
pub enum Transform {
    /// Move a value to another key.
    Rename { from: String, to: String },
    /// Remove a field.
    Drop { field: String },
    /// Copy a field into `_timestamp`.
    SetTimestamp { from: String },
    /// Lowercase a string field in place.
    Lowercase { field: String },
    /// Copy a field into another key.
    Copy { from: String, to: String },
    /// Convert a field to `string`, `int`, `float` or `bool`, where possible.
    Coerce { field: String, to: String },
    /// Replace a JSON-string field with the value it holds.
    JsonParse { field: String },
}

} // verus!
