//! Decide which stream a document is written to: always the configured one.

use vstd::prelude::*;

verus! {

/// Resolve the destination stream for one document.
pub fn stream_for(default_stream: &str) -> (r: String)
    ensures
        r@ == default_stream@,
{
    default_stream.to_owned()
}

} // verus!
