//! Derive OpenObserve's `_timestamp` field on a document.
//!
//! Copies `options.timestamp_field` into `_timestamp` when configured and the
//! body is a JSON object. The source field is left in place.

use crate::dest::openobserve::config::OpenObserveOptions;
use crate::json::{Fields, Json, JsonView};
use crate::mapping;
use crate::text;
use crate::{Document, DocumentView};
use vstd::prelude::*;

verus! {

/// A body with the value of a field, where it has it, also under `_timestamp`.
pub open spec fn stamped_body(body: JsonView, field: Seq<char>) -> JsonView {
    match body {
        JsonView::Object(m) => JsonView::Object(mapping::copied(m, field, "_timestamp"@)),
        _ => body,
    }
}

/// A document with its timestamp, where one is configured.
pub open spec fn stamped(d: DocumentView, field: Option<Seq<char>>) -> DocumentView {
    match field {
        Some(f) => DocumentView { index: d.index, id: d.id, body: stamped_body(d.body, f) },
        None => d,
    }
}

/// Set `_timestamp` on the document body in place, if configured.
pub fn apply(doc: &mut Document, options: &OpenObserveOptions)
    ensures
        final(doc)@ == stamped(old(doc)@, text::opt_text(options.timestamp_field)),
{
    if let Some(field) = &options.timestamp_field {
        let mut held = Json::Null;
        std::mem::swap(&mut held, &mut doc.body);
        doc.body = match held {
            Json::Object(entries) => {
                let mut body = entries;
                mapping::copy_field(&mut body, field.as_str(), "_timestamp");
                Json::Object(body)
            },
            other => other,
        };
    }
}

/// A document whose body holds the configured field gets that field's value, of
/// whatever type, under `_timestamp`; every other field stays as it was, the field
/// itself among them, and so do the document's index and id.
pub proof fn timestamps_are_copied(d: DocumentView, m: Fields, field: Seq<char>, key: Seq<char>)
    requires
        d.body == JsonView::Object(m),
        m.dom().contains(field),
    ensures
        stamped(d, Some(field)).body matches JsonView::Object(r) && {
            &&& r.dom().contains("_timestamp"@)
            &&& r["_timestamp"@] == m[field]
            &&& key != "_timestamp"@ ==> (r.dom().contains(key) <==> m.dom().contains(key))
            &&& key != "_timestamp"@ && m.dom().contains(key) ==> r[key] == m[key]
        },
        stamped(d, Some(field)).index == d.index,
        stamped(d, Some(field)).id == d.id,
{
}

/// A document stays as it is where no field is configured, where its body does not
/// hold the field, and where its body is no object.
pub proof fn other_documents_stay(d: DocumentView, field: Seq<char>)
    ensures
        stamped(d, None) == d,
        d.body matches JsonView::Object(m) && !m.dom().contains(field) ==> stamped(d, Some(field))
            == d,
        !(d.body is Object) ==> stamped(d, Some(field)) == d,
{
}

/// Stamping a document puts the configured field's value, of whatever type, under
/// `_timestamp` and changes nothing else about it.
pub proof fn stamping_copies_the_field(
    doc: &mut Document,
    options: OpenObserveOptions,
    m: Fields,
    key: Seq<char>,
)
    requires
        call_ensures(apply, (doc, &options), ()),
        old(doc).body.view() == JsonView::Object(m),
    ensures
        final(doc).index@ == old(doc).index@,
        final(doc).id@ == old(doc).id@,
        options.timestamp_field is None ==> final(doc).body.view() == old(doc).body.view(),
        options.timestamp_field matches Some(f) ==> (final(doc).body.view() matches JsonView::Object(
            r,
        ) && {
            &&& m.dom().contains(f@) ==> r.dom().contains("_timestamp"@) && r["_timestamp"@] == m[f@]
            &&& key != "_timestamp"@ || !m.dom().contains(f@) ==> (r.dom().contains(key)
                <==> m.dom().contains(key)) && (m.dom().contains(key) ==> r[key] == m[key])
        }),
{
    if let Some(f) = options.timestamp_field {
        other_documents_stay(old(doc)@, f@);
        if m.dom().contains(f@) {
            timestamps_are_copied(old(doc)@, m, f@, key);
        }
    }
}

} // verus!
