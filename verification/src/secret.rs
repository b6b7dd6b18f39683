//! Resolve secret values from indirection sources so credentials need not be
//! written inline in config files or shell history.
//!
//! A secret reference is one of:
//!   - `env:NAME`  the environment variable `NAME`
//!   - `file:PATH` the contents of `PATH`, with surrounding whitespace trimmed
//!   - anything else is used verbatim (a literal secret)

use crate::text;
use vstd::prelude::*;

verus! {

/// Where a secret comes from.
pub enum SecretRef {
    Env(String),
    File(String),
    Literal,
}

/// A secret's source as a mathematical value.
pub enum SecretView {
    Env(Seq<char>),
    File(Seq<char>),
    Literal,
}

impl View for SecretRef {
    type V = SecretView;

    open spec fn view(&self) -> SecretView {
        match self {
            SecretRef::Env(n) => SecretView::Env(n@),
            SecretRef::File(p) => SecretView::File(p@),
            SecretRef::Literal => SecretView::Literal,
        }
    }
}

/// Where the secret that a text refers to comes from.
pub open spec fn referred(raw: Seq<char>) -> SecretView {
    if text::has_prefix(raw, "env:"@) {
        SecretView::Env(raw.skip("env:"@.len() as int))
    } else if text::has_prefix(raw, "file:"@) {
        SecretView::File(raw.skip("file:"@.len() as int))
    } else {
        SecretView::Literal
    }
}

/// The secret that a text refers to, given what its source holds, or why there
/// is none.
pub open spec fn resolved(raw: Seq<char>, held: Option<Seq<char>>) -> Result<Seq<char>, Seq<char>> {
    match (referred(raw), held) {
        (SecretView::Env(_), Some(v)) => Ok(v),
        (SecretView::Env(name), None) => Err(
            "secret environment variable '"@ + name + "' is not set"@,
        ),
        (SecretView::File(_), Some(v)) => Ok(text::trim(v)),
        (SecretView::File(path), None) => Err("failed to read secret file '"@ + path + "'"@),
        (SecretView::Literal, _) => Ok(raw),
    }
}

/// Where the secret that a text refers to comes from.
pub fn reference(raw: &str) -> (r: SecretRef)
    ensures
        r@ == referred(raw@),
{
    let cs = text::chars_of(raw);
    let env = text::chars_of("env:");
    let file = text::chars_of("file:");
    if text::starts_with(&cs, &env) {
        let rest = text::slice_of(&cs, env.len(), cs.len());
        assert(rest@ =~= raw@.skip("env:"@.len() as int));
        SecretRef::Env(text::string_of(&rest))
    } else if text::starts_with(&cs, &file) {
        let rest = text::slice_of(&cs, file.len(), cs.len());
        assert(rest@ =~= raw@.skip("file:"@.len() as int));
        SecretRef::File(text::string_of(&rest))
    } else {
        SecretRef::Literal
    }
}

/// Resolve a single secret reference to its value. `held` is what the referenced
/// environment variable or file holds, where it could be read.
pub fn resolve(raw: &str, held: Option<String>) -> (r: Result<String, String>)
    ensures
        match r {
            Ok(s) => resolved(raw@, text::opt_text(held)) == Ok::<Seq<char>, Seq<char>>(s@),
            Err(e) => resolved(raw@, text::opt_text(held)) == Err::<Seq<char>, Seq<char>>(e@),
        },
{
    match (reference(raw), held) {
        (SecretRef::Env(_), Some(v)) => Ok(v),
        (SecretRef::Env(name), None) => Err(
            text::join3("secret environment variable '", name.as_str(), "' is not set"),
        ),
        (SecretRef::File(_), Some(v)) => Ok(text::trim_text(v.as_str())),
        (SecretRef::File(path), None) => Err(
            text::join3("failed to read secret file '", path.as_str(), "'"),
        ),
        (SecretRef::Literal, _) => Ok(raw.to_owned()),
    }
}

/// Resolve an optional secret, leaving `None` untouched.
pub fn resolve_opt(raw: Option<String>, held: Option<String>) -> (r: Result<Option<String>, String>)
    ensures
        match raw {
            None => r matches Ok(None),
            Some(t) => match r {
                Ok(s) => s matches Some(v) && resolved(t@, text::opt_text(held)) == Ok::<
                    Seq<char>,
                    Seq<char>,
                >(v@),
                Err(e) => resolved(t@, text::opt_text(held)) == Err::<Seq<char>, Seq<char>>(e@),
            },
        },
{
    match raw {
        Some(t) => match resolve(t.as_str(), held) {
            Ok(v) => Ok(Some(v)),
            Err(e) => Err(e),
        },
        None => Ok(None),
    }
}

/// A text that refers to nothing is its own secret, whatever is held elsewhere.
pub proof fn literals_pass_through(raw: Seq<char>, held: Option<Seq<char>>)
    requires
        !text::has_prefix(raw, "env:"@),
        !text::has_prefix(raw, "file:"@),
    ensures
        resolved(raw, held) == Ok::<Seq<char>, Seq<char>>(raw),
{
}

/// Whatever stands behind `env:` is the name of a variable, and the secret is what
/// the variable holds, to the letter. A variable that is not set is told by name.
pub proof fn variables_are_named(name: Seq<char>, held: Seq<char>)
    ensures
        referred("env:"@ + name) == SecretView::Env(name),
        resolved("env:"@ + name, Some(held)) == Ok::<Seq<char>, Seq<char>>(held),
        resolved("env:"@ + name, None) == Err::<Seq<char>, Seq<char>>(
            "secret environment variable '"@ + name + "' is not set"@,
        ),
{
    let raw = "env:"@ + name;
    text::affixes_can_be_taken_off(raw, "env:"@, name);
    assert(raw.skip("env:"@.len() as int) =~= name);
}

/// Whatever stands behind `file:` is the path of a file, and the secret is what the
/// file holds, without the white space around it. A file that cannot be read is
/// told by its path.
pub proof fn files_are_named(path: Seq<char>, held: Seq<char>)
    ensures
        referred("file:"@ + path) == SecretView::File(path),
        resolved("file:"@ + path, Some(held)) == Ok::<Seq<char>, Seq<char>>(text::trim(held)),
        resolved("file:"@ + path, None) == Err::<Seq<char>, Seq<char>>(
            "failed to read secret file '"@ + path + "'"@,
        ),
{
    let raw = "file:"@ + path;
    text::affixes_can_be_taken_off(raw, "file:"@, path);
    assert(raw.skip("file:"@.len() as int) =~= path);
    reveal_strlit("env:");
    reveal_strlit("file:");
    assert(raw[0] == 'f');
    if text::has_prefix(raw, "env:"@) {
        assert(raw.take("env:"@.len() as int)[0] == 'e');
    }
}

/// A reference that is found to name a variable or a file begins with its mark, and
/// the name is the rest.
pub proof fn references_are_marked(raw: Seq<char>)
    ensures
        referred(raw) matches SecretView::Env(name) ==> raw == "env:"@ + name,
        referred(raw) matches SecretView::File(path) ==> raw == "file:"@ + path,
{
    text::affixes_can_be_taken_off(raw, "env:"@, raw);
    text::affixes_can_be_taken_off(raw, "file:"@, raw);
}

/// What is not configured is not resolved, and what is configured is resolved or
/// told.
pub proof fn only_given_secrets_are_resolved(
    raw: Option<String>,
    held: Option<String>,
    r: Result<Option<String>, String>,
)
    requires
        call_ensures(resolve_opt, (raw, held), r),
    ensures
        raw is None ==> (r matches Ok(None)),
        raw matches Some(t) ==> match resolved(t@, text::opt_text(held)) {
            Ok(s) => r matches Ok(Some(v)) && v@ == s,
            Err(words) => r matches Err(e) && e@ == words,
        },
{
}

} // verus!
