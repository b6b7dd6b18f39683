//! Flatten a Datadog *Log Archive* record into one flat JSON object.
//!
//! An archived record carries the reserved log fields (`date`, `host`,
//! `source`, `service`, `status`, `message`, `_id`) at the top level alongside
//! an `attributes` object with the structured log content, which Datadog's
//! pipelines commonly nest once more under `attributes.attributes`.
//!
//! * `attributes`, and any further `attributes` within, is hoisted to the top
//!   level. Outer fields win on a key conflict.
//! * A comma-separated `ddtags` (or string `tags`) field becomes a `tags` array
//!   of strings; an existing `tags` array is left untouched, and makes a `ddtags`
//!   string redundant.
//! * Nothing else is dropped: unrecognized keys are kept, and so is an
//!   `attributes` that is not an object.
//! * Input that is not an object is returned unchanged.

use crate::json;
use crate::json::{Fields, Json, JsonView};
use crate::text;
use vstd::prelude::*;

verus! {

/// What an `attributes` object contributes: its own fields, and those of an
/// `attributes` object nested in it under keys that it does not have itself.
pub open spec fn hoisted(attrs: JsonView) -> Fields
    decreases attrs,
{
    match attrs {
        JsonView::Object(m) => if m.dom().finite() && m.dom().contains("attributes"@)
            && m["attributes"@] is Object {
            json::filled(m.remove("attributes"@), hoisted(m["attributes"@]))
        } else {
            m
        },
        _ => Map::empty(),
    }
}

/// The tags of a comma-separated list: trimmed, and without the empty ones.
pub open spec fn tags_of(raw: Seq<char>) -> Seq<JsonView> {
    text::split(raw, ',').map_values(|p: Seq<char>| text::trim(p)).filter(
        |p: Seq<char>| p.len() > 0,
    ).map_values(|p: Seq<char>| JsonView::String(p))
}

/// The record with its tags as an array.
pub open spec fn normalized(m: Fields) -> Fields {
    match json::field_of(m, "tags"@) {
        Some(JsonView::Array(_)) => match json::field_of(m, "ddtags"@) {
            Some(JsonView::String(_)) => m.remove("ddtags"@),
            _ => m,
        },
        Some(JsonView::String(s)) => m.insert("tags"@, JsonView::Array(tags_of(s))),
        _ => match json::field_of(m, "ddtags"@) {
            Some(JsonView::String(s)) => m.remove("ddtags"@).insert(
                "tags"@,
                JsonView::Array(tags_of(s)),
            ),
            _ => m,
        },
    }
}

/// The record with its attributes at the top level. An `attributes` that is not
/// an object stays where it is.
pub open spec fn lifted(m: Fields) -> Fields {
    match json::field_of(m, "attributes"@) {
        Some(JsonView::Object(attrs)) => json::filled(
            m.remove("attributes"@),
            hoisted(JsonView::Object(attrs)),
        ),
        _ => m,
    }
}

/// One record as a flat value.
pub open spec fn flattened(event: JsonView) -> JsonView {
    match event {
        JsonView::Object(m) => JsonView::Object(normalized(lifted(m))),
        _ => event,
    }
}

/// Takes `attributes` out of a record where it is an object.
fn take_nested(entries: &mut Vec<(String, Json)>) -> (r: Option<Vec<(String, Json)>>)
    ensures
        match json::field_of(json::object_view(old(entries)@), "attributes"@) {
            Some(JsonView::Object(m)) => {
                &&& r matches Some(inner)
                &&& json::object_view(inner@) == m
                &&& json::object_view(final(entries)@) == json::object_view(old(entries)@).remove(
                    "attributes"@,
                )
            },
            _ => r is None && *final(entries) == *old(entries),
        },
{
    let nested: bool = match json::get(entries, "attributes") {
        Some(Json::Object(_)) => true,
        _ => false,
    };
    if nested {
        if let Some(Json::Object(inner)) = json::take(entries, "attributes") {
            return Some(inner);
        }
    }
    None
}

/// Merge `attrs` into `top` without clobbering existing keys, and then what is
/// nested further in, so that outer fields win.
fn merge_nested(top: &mut Vec<(String, Json)>, attrs: Vec<(String, Json)>)
    ensures
        json::object_view(final(top)@) == json::filled(
            json::object_view(old(top)@),
            hoisted(JsonView::Object(json::object_view(attrs@))),
        ),
    decreases JsonView::Object(json::object_view(attrs@)),
{
    let ghost start = json::object_view(top@);
    let ghost m = json::object_view(attrs@);
    proof {
        json::object_view_finite(attrs@);
    }
    let mut own = attrs;
    let nested = take_nested(&mut own);
    json::fill(top, &own);
    if let Some(inner) = nested {
        proof {
            let whole = JsonView::Object(m);
            assert(m["attributes"@] == JsonView::Object(json::object_view(inner@)));
            assert(decreases_to!(whole => whole->Object_0));
            assert(decreases_to!(whole->Object_0 => whole->Object_0["attributes"@]));
        }
        let ghost mid = json::object_view(top@);
        merge_nested(top, inner);
        assert(json::filled(mid, hoisted(m["attributes"@])) =~= json::filled(
            start,
            hoisted(JsonView::Object(m)),
        ));
    }
}

/// Split a comma-separated tag string into trimmed, non-empty strings.
fn split_tags(raw: &str) -> (r: Vec<Json>)
    ensures
        json::array_view(r@) == tags_of(raw@),
{
    let ghost trimming = |p: Seq<char>| text::trim(p);
    let ghost keeping = |p: Seq<char>| p.len() > 0;
    let ghost wrapping = |p: Seq<char>| JsonView::String(p);
    let cs = text::chars_of(raw);
    let parts = text::split_at(&cs, ',');
    let ghost ps = text::split(raw@, ',');
    let n: usize = parts.len();
    let mut out: Vec<Json> = Vec::new();
    let mut i: usize = 0;
    proof {
        reveal(Seq::filter);
        assert(ps.take(0).map_values(trimming) =~= Seq::empty());
        assert(Seq::<Seq<char>>::empty().map_values(wrapping) =~= Seq::empty());
    }
    while i < n
        invariant
            n == parts@.len(),
            text::pieces(parts@) == ps,
            i <= n,
            trimming == (|p: Seq<char>| text::trim(p)),
            keeping == (|p: Seq<char>| p.len() > 0),
            wrapping == (|p: Seq<char>| JsonView::String(p)),
            json::array_view(out@) == ps.take(i as int).map_values(trimming).filter(
                keeping,
            ).map_values(wrapping),
        decreases n - i,
    {
        let ghost before = out@;
        let ghost head = ps.take(i as int).map_values(trimming);
        let t = text::trimmed(&parts[i]);
        proof {
            reveal(Seq::filter);
            assert(text::pieces(parts@)[i as int] == parts@[i as int]@);
            assert(t@ == trimming(ps[i as int]));
            assert(ps.take(i + 1).map_values(trimming) =~= head.push(t@));
            assert(head.push(t@).drop_last() =~= head);
        }
        if t.len() > 0 {
            let tag = Json::String(text::string_of(&t));
            out.push(tag);
            proof {
                json::array_view_push(before, tag);
                assert(head.filter(keeping).push(t@).map_values(wrapping) =~= head.filter(
                    keeping,
                ).map_values(wrapping).push(JsonView::String(t@)));
            }
        }
        i = i + 1;
    }
    assert(ps.take(n as int) =~= ps);
    out
}

/// Normalize the record's tags into a `tags` array of strings.
///
/// An existing array `tags` is left as it is, and a `ddtags` string beside it is
/// redundant and goes away. A string `tags` is split; otherwise a `ddtags`
/// string is split and promoted to `tags`.
fn normalize_tags(top: &mut Vec<(String, Json)>)
    ensures
        json::object_view(final(top)@) == normalized(json::object_view(old(top)@)),
{
    let ghost m = json::object_view(top@);
    let array: bool = match json::get(top, "tags") {
        Some(Json::Array(_)) => true,
        _ => false,
    };
    let own: Option<String> = match json::get(top, "tags") {
        Some(Json::String(s)) => Some(s.clone()),
        _ => None,
    };
    let other: Option<String> = match json::get(top, "ddtags") {
        Some(Json::String(s)) => Some(s.clone()),
        _ => None,
    };
    if array {
        if other.is_some() {
            let _ = json::take(top, "ddtags");
        }
    } else if let Some(raw) = own {
        json::put(top, "tags", Json::Array(split_tags(raw.as_str())));
    } else if let Some(raw) = other {
        let _ = json::take(top, "ddtags");
        json::put(top, "tags", Json::Array(split_tags(raw.as_str())));
    }
}

/// Flatten one archive event. Non-object inputs are returned unchanged.
pub fn flatten(event: Json) -> (r: Json)
    ensures
        r.view() == flattened(event.view()),
{
    match event {
        Json::Object(entries) => {
            let mut top = entries;
            if let Some(attrs) = take_nested(&mut top) {
                merge_nested(&mut top, attrs);
            }
            normalize_tags(&mut top);
            Json::Object(top)
        },
        other => other,
    }
}

/// Top-level fields win on a key conflict and are never dropped: whatever the
/// record holds under a key other than `tags` and `ddtags` comes out under that
/// key unchanged, but for an `attributes` object.
pub proof fn top_level_fields_win(m: Fields, key: Seq<char>)
    requires
        m.dom().contains(key),
        key == "attributes"@ ==> !(m[key] is Object),
        key != "tags"@,
        key != "ddtags"@,
    ensures
        json::field(flattened(JsonView::Object(m)), key) == Some(m[key]),
{
}

/// Outer fields win at every depth: what an `attributes` object holds under a
/// key is what it contributes under that key, whatever is nested further in.
pub proof fn outer_fields_win(m: Fields, key: Seq<char>)
    requires
        m.dom().contains(key),
        key == "attributes"@ ==> !(m[key] is Object),
    ensures
        json::field_of(hoisted(JsonView::Object(m)), key) == Some(m[key]),
{
}

/// What is nested further in comes out where no outer field has its key.
pub proof fn nested_fields_fill_in(m: Fields, key: Seq<char>)
    requires
        m.dom().finite(),
        m.dom().contains("attributes"@),
        m["attributes"@] is Object,
        key == "attributes"@ || !m.dom().contains(key),
    ensures
        json::field_of(hoisted(JsonView::Object(m)), key) == json::field_of(
            hoisted(m["attributes"@]),
            key,
        ),
{
}

/// A field of `attributes` comes out at the top level where the record does not
/// have its key, whatever a deeper `attributes` holds there.
pub proof fn attributes_are_hoisted(m: Fields, attrs: Fields, key: Seq<char>)
    requires
        json::field_of(m, "attributes"@) == Some(JsonView::Object(attrs)),
        attrs.dom().contains(key),
        key == "attributes"@ ==> !(attrs[key] is Object),
        key == "attributes"@ || !m.dom().contains(key),
        key != "tags"@,
        key != "ddtags"@,
    ensures
        json::field(flattened(JsonView::Object(m)), key) == Some(attrs[key]),
{
    outer_fields_win(attrs, key);
}

/// An existing `tags` array is left untouched.
pub proof fn tag_arrays_stay(m: Fields)
    requires
        m.dom().contains("tags"@),
        m["tags"@] is Array,
    ensures
        json::field(flattened(JsonView::Object(m)), "tags"@) == Some(m["tags"@]),
{
    reveal_strlit("tags");
    reveal_strlit("ddtags");
    reveal_strlit("attributes");
    assert("tags"@.len() != "ddtags"@.len());
    assert("tags"@.len() != "attributes"@.len());
}

/// The non-empty ones of trimmed pieces.
spec fn kept(pieces: Seq<Seq<char>>) -> Seq<Seq<char>> {
    pieces.map_values(|p: Seq<char>| text::trim(p)).filter(|p: Seq<char>| p.len() > 0)
}

/// Two lists with a comma between them hold the tags of the first, then those of
/// the second.
pub proof fn tags_concatenate(a: Seq<char>, b: Seq<char>)
    ensures
        tags_of(a + seq![','] + b) == tags_of(a) + tags_of(b),
{
    let trim = |p: Seq<char>| text::trim(p);
    let some = |p: Seq<char>| p.len() > 0;
    let (l, r) = (text::split(a, ','), text::split(b, ','));
    text::split_concatenates(a, b, ',');
    assert((l + r).map_values(trim) =~= l.map_values(trim) + r.map_values(trim));
    Seq::filter_distributes_over_add(l.map_values(trim), r.map_values(trim), some);
    assert(kept(l + r) == kept(l) + kept(r));
    assert(tags_of(a + seq![','] + b) =~= tags_of(a) + tags_of(b));
}

/// A list without a comma is one tag, trimmed; a blank one is none.
pub proof fn one_tag(s: Seq<char>)
    requires
        !s.contains(','),
    ensures
        tags_of(s) == if text::trim(s).len() == 0 {
            Seq::empty()
        } else {
            seq![JsonView::String(text::trim(s))]
        },
{
    let trim = |p: Seq<char>| text::trim(p);
    let some = |p: Seq<char>| p.len() > 0;
    text::split_in_one(s, ',');
    reveal(Seq::filter);
    let one = seq![s].map_values(trim);
    assert(one.drop_last() =~= Seq::empty());
    assert(one.drop_last().filter(some) =~= Seq::empty());
    assert(one.last() == text::trim(s));
    assert(tags_of(s) =~= if text::trim(s).len() == 0 {
        Seq::empty()
    } else {
        seq![JsonView::String(text::trim(s))]
    });
}

/// Every tag is a text that is not empty, has no white space at its ends and
/// holds no comma.
pub proof fn tags_are_trimmed(raw: Seq<char>, i: int)
    requires
        0 <= i < tags_of(raw).len(),
    ensures
        tags_of(raw)[i] matches JsonView::String(t) && t.len() > 0 && text::trim(t) == t
            && !t.contains(','),
{
    let pieces = text::split(raw, ',');
    let trimmed = pieces.map_values(|p: Seq<char>| text::trim(p));
    let some = |p: Seq<char>| p.len() > 0;
    let t = kept(pieces)[i];
    trimmed.lemma_filter_pred(some, i);
    assert(kept(pieces).contains(t));
    trimmed.lemma_filter_contains_rev(some, t);
    let k = choose|k: int| 0 <= k < trimmed.len() && trimmed[k] == t;
    assert(t == text::trim(pieces[k]));
    text::trimming_is_done_once(pieces[k]);
    text::pieces_hold_no_separator(raw, ',');
    assert(!pieces[k].contains(','));
}

/// The record with its attributes at the top level holds under each key what it
/// held there before, else what the attributes contribute, and nothing else. A
/// record without an `attributes` object stays as it is.
pub proof fn attributes_only_fill_in(m: Fields, key: Seq<char>)
    ensures
        m.dom().contains("attributes"@) && m["attributes"@] is Object ==> {
            let r = lifted(m);
            if key != "attributes"@ && m.dom().contains(key) {
                r.dom().contains(key) && r[key] == m[key]
            } else {
                json::field_of(r, key) == json::field_of(hoisted(m["attributes"@]), key)
            }
        },
        !(m.dom().contains("attributes"@) && m["attributes"@] is Object) ==> lifted(m) == m,
        m.dom().finite() && !(m.dom().contains("attributes"@) && m["attributes"@] is Object)
            ==> hoisted(JsonView::Object(m)) == m,
{
}

/// The tags of a flat record: a list of tags stays and makes a `ddtags` text go
/// away; a text of tags is split; without either a `ddtags` text is split in their
/// place. Every other field of the record, and a `ddtags` that is not used, stays.
pub proof fn tags_become_a_list(m: Fields, key: Seq<char>, s: Seq<char>)
    ensures
        flattened(JsonView::Object(m)) matches JsonView::Object(r) && {
            let all = lifted(m);
            let tags = json::field_of(all, "tags"@);
            let other = json::field_of(all, "ddtags"@);
            &&& key != "tags"@ && key != "ddtags"@ ==> json::field_of(r, key) == json::field_of(
                all,
                key,
            )
            &&& tags matches Some(JsonView::Array(_)) ==> json::field_of(r, "tags"@) == tags
            &&& tags == Some(JsonView::String(s)) ==> {
                &&& json::field_of(r, "tags"@) == Some(JsonView::Array(tags_of(s)))
                &&& json::field_of(r, "ddtags"@) == other
            }
            &&& !(tags matches Some(JsonView::Array(_))) && !(tags matches Some(
                JsonView::String(_),
            )) && other == Some(JsonView::String(s)) ==> json::field_of(r, "tags"@) == Some(
                JsonView::Array(tags_of(s)),
            )
            &&& (other matches Some(JsonView::String(_))) && !(tags matches Some(
                JsonView::String(_),
            )) ==> json::field_of(r, "ddtags"@) is None
            &&& !(other matches Some(JsonView::String(_))) ==> json::field_of(r, "ddtags"@) == other
            &&& !(other matches Some(JsonView::String(_))) && !(tags matches Some(
                JsonView::String(_),
            )) ==> json::field_of(r, "tags"@) == tags
        },
{
    reveal_strlit("tags");
    reveal_strlit("ddtags");
    assert("tags"@.len() != "ddtags"@.len());
}

/// What is no object stays as it is.
pub proof fn other_records_stay(event: JsonView)
    requires
        !(event is Object),
    ensures
        flattened(event) == event,
{
}

} // verus!
