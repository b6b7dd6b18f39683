//! The library's error type.

use crate::text::join2;
use vstd::prelude::*;

verus! {

/// Why an operation failed. Each variant carries the message behind it.
#[derive(Debug)]
pub enum EsiftError {
    Source(String),
    Destination(String),
    /// A failure that may pass when tried again.
    Transient(String),
    Http(String),
    Json(String),
    Io(String),
    Checkpoint(String),
    Config(String),
}

impl EsiftError {
    /// The label in front of the message.
    pub open spec fn label(&self) -> Seq<char> {
        match self {
            EsiftError::Source(_) => "Source error: "@,
            EsiftError::Destination(_) => "Destination error: "@,
            EsiftError::Transient(_) => "Transient error: "@,
            EsiftError::Http(_) => "HTTP error: "@,
            EsiftError::Json(_) => "JSON error: "@,
            EsiftError::Io(_) => "IO error: "@,
            EsiftError::Checkpoint(_) => "Checkpoint error: "@,
            EsiftError::Config(_) => "Configuration error: "@,
        }
    }

    /// The message without its label.
    pub open spec fn detail(&self) -> Seq<char> {
        match self {
            EsiftError::Source(m) => m@,
            EsiftError::Destination(m) => m@,
            EsiftError::Transient(m) => m@,
            EsiftError::Http(m) => m@,
            EsiftError::Json(m) => m@,
            EsiftError::Io(m) => m@,
            EsiftError::Checkpoint(m) => m@,
            EsiftError::Config(m) => m@,
        }
    }

    /// The error as one line of text.
    pub fn message(&self) -> (r: String)
        ensures
            r@ == self.label() + self.detail(),
    {
        match self {
            EsiftError::Source(m) => join2("Source error: ", m.as_str()),
            EsiftError::Destination(m) => join2("Destination error: ", m.as_str()),
            EsiftError::Transient(m) => join2("Transient error: ", m.as_str()),
            EsiftError::Http(m) => join2("HTTP error: ", m.as_str()),
            EsiftError::Json(m) => join2("JSON error: ", m.as_str()),
            EsiftError::Io(m) => join2("IO error: ", m.as_str()),
            EsiftError::Checkpoint(m) => join2("Checkpoint error: ", m.as_str()),
            EsiftError::Config(m) => join2("Configuration error: ", m.as_str()),
        }
    }
}

/// An error's detail is the message that it was made with, whatever its kind.
pub proof fn details_are_kept(m: String)
    ensures
        EsiftError::Source(m).detail() == m@,
        EsiftError::Destination(m).detail() == m@,
        EsiftError::Transient(m).detail() == m@,
        EsiftError::Http(m).detail() == m@,
        EsiftError::Json(m).detail() == m@,
        EsiftError::Io(m).detail() == m@,
        EsiftError::Checkpoint(m).detail() == m@,
        EsiftError::Config(m).detail() == m@,
{
}

/// Each kind of error has a label of its own, made of its name and ` error: `.
pub proof fn labels_name_the_kind(e: EsiftError)
    ensures
        e is Source ==> e.label() == "Source"@ + " error: "@,
        e is Destination ==> e.label() == "Destination"@ + " error: "@,
        e is Transient ==> e.label() == "Transient"@ + " error: "@,
        e is Http ==> e.label() == "HTTP"@ + " error: "@,
        e is Json ==> e.label() == "JSON"@ + " error: "@,
        e is Io ==> e.label() == "IO"@ + " error: "@,
        e is Checkpoint ==> e.label() == "Checkpoint"@ + " error: "@,
        e is Config ==> e.label() == "Configuration"@ + " error: "@,
{
    reveal_strlit(" error: ");
    reveal_strlit("Source");
    reveal_strlit("Source error: ");
    reveal_strlit("Destination");
    reveal_strlit("Destination error: ");
    reveal_strlit("Transient");
    reveal_strlit("Transient error: ");
    reveal_strlit("HTTP");
    reveal_strlit("HTTP error: ");
    reveal_strlit("JSON");
    reveal_strlit("JSON error: ");
    reveal_strlit("IO");
    reveal_strlit("IO error: ");
    reveal_strlit("Checkpoint");
    reveal_strlit("Checkpoint error: ");
    reveal_strlit("Configuration");
    reveal_strlit("Configuration error: ");
    assert("Source error: "@ =~= "Source"@ + " error: "@);
    assert("Destination error: "@ =~= "Destination"@ + " error: "@);
    assert("Transient error: "@ =~= "Transient"@ + " error: "@);
    assert("HTTP error: "@ =~= "HTTP"@ + " error: "@);
    assert("JSON error: "@ =~= "JSON"@ + " error: "@);
    assert("IO error: "@ =~= "IO"@ + " error: "@);
    assert("Checkpoint error: "@ =~= "Checkpoint"@ + " error: "@);
    assert("Configuration error: "@ =~= "Configuration"@ + " error: "@);
}

} // verus!
