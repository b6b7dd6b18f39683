//! Flatten one Datadog Logs Search API event.
//!
//! API events nest log fields under `attributes`, and Datadog further nests the
//! custom fields under `attributes.attributes`. We collapse both levels into a
//! single flat object: the standard fields (timestamp, status, service, host,
//! tags, message, ...) merged with the custom attribute map, standard fields
//! winning on a key conflict. The envelope `id` is preserved when present.

use crate::json;
use crate::json::{Fields, Json, JsonView};
use vstd::prelude::*;

verus! {

/// The fields of a value, where it is an object.
pub open spec fn fields(v: Option<JsonView>) -> Fields {
    match v {
        Some(JsonView::Object(m)) => m,
        _ => Map::empty(),
    }
}

/// The envelope's `id`, where it has one.
pub open spec fn kept_id(env: Fields) -> Fields {
    match json::field_of(env, "id"@) {
        Some(id) => Map::<Seq<char>, JsonView>::empty().insert("id"@, id),
        None => Map::empty(),
    }
}

/// One event as a flat value.
pub open spec fn flattened(event: JsonView) -> JsonView {
    match event {
        JsonView::Object(env) => match json::field_of(env, "attributes"@) {
            Some(JsonView::Object(attrs)) => JsonView::Object(
                json::filled(
                    json::filled(kept_id(env), attrs.remove("attributes"@)),
                    fields(json::field_of(attrs, "attributes"@)),
                ),
            ),
            Some(other) => JsonView::Object(kept_id(env).insert("attributes"@, other)),
            None => JsonView::Object(kept_id(env)),
        },
        _ => event,
    }
}

/// Flatten one `data[]` event. Non-object inputs are returned unchanged.
pub fn flatten(event: Json) -> (r: Json)
    ensures
        r.view() == flattened(event.view()),
{
    match event {
        Json::Object(entries) => {
            let ghost whole = json::object_view(entries@);
            let mut env = entries;
            let mut out: Vec<(String, Json)> = Vec::new();
            proof {
                reveal_strlit("id");
                reveal_strlit("attributes");
                assert("id"@ != "attributes"@) by {
                    assert("id"@.len() != "attributes"@.len());
                }
            }
            if let Some(id) = json::take(&mut env, "id") {
                json::put(&mut out, "id", id);
            }
            assert(json::object_view(out@) =~= kept_id(whole));
            match json::take(&mut env, "attributes") {
                Some(Json::Object(attrs)) => {
                    let mut standard = attrs;
                    let inner = json::take(&mut standard, "attributes");
                    // Standard fields first so they win over custom attributes.
                    json::fill(&mut out, &standard);
                    let ghost so_far = json::object_view(out@);
                    match inner {
                        Some(Json::Object(custom)) => {
                            json::fill(&mut out, &custom);
                        },
                        _ => {
                            assert(json::filled(so_far, Map::empty()) =~= so_far);
                        },
                    }
                },
                Some(other) => {
                    json::put(&mut out, "attributes", other);
                },
                None => {},
            }
            Json::Object(out)
        },
        other => other,
    }
}

/// Standard fields win over custom ones: whatever `attributes` holds under a key
/// other than `attributes` and `id` comes out under that key, whatever
/// `attributes.attributes` holds there.
pub proof fn standard_fields_win(env: Fields, attrs: Fields, key: Seq<char>)
    requires
        json::field_of(env, "attributes"@) == Some(JsonView::Object(attrs)),
        attrs.dom().contains(key),
        key != "attributes"@,
        key != "id"@,
    ensures
        json::field(flattened(JsonView::Object(env)), key) == Some(attrs[key]),
{
}

/// A custom field comes out where no standard field has its key.
pub proof fn custom_fields_fill_in(env: Fields, attrs: Fields, custom: Fields, key: Seq<char>)
    requires
        json::field_of(env, "attributes"@) == Some(JsonView::Object(attrs)),
        json::field_of(attrs, "attributes"@) == Some(JsonView::Object(custom)),
        custom.dom().contains(key),
        key == "attributes"@ || !attrs.dom().contains(key),
        key != "id"@,
    ensures
        json::field(flattened(JsonView::Object(env)), key) == Some(custom[key]),
{
}

/// The envelope's `id` is preserved.
pub proof fn id_is_preserved(env: Fields)
    requires
        env.dom().contains("id"@),
    ensures
        json::field(flattened(JsonView::Object(env)), "id"@) == Some(env["id"@]),
{
    reveal_strlit("id");
    reveal_strlit("attributes");
    assert("id"@.len() != "attributes"@.len());
}

/// What comes out under a key: the envelope's own `id`; else what `attributes`
/// holds there, but for the `attributes` inside it; else what those inner ones hold
/// there; else nothing. So nothing comes out that was not there.
pub proof fn every_field_has_its_source(env: Fields, attrs: Fields, key: Seq<char>)
    requires
        env.dom().contains("attributes"@),
        env["attributes"@] == JsonView::Object(attrs),
    ensures
        flattened(JsonView::Object(env)) matches JsonView::Object(r) && {
            &&& key == "id"@ && env.dom().contains(key) ==> r.dom().contains(key) && r[key]
                == env[key]
            &&& !(key == "id"@ && env.dom().contains(key)) ==> {
                &&& key != "attributes"@ && attrs.dom().contains(key) ==> r.dom().contains(key)
                    && r[key] == attrs[key]
                &&& !(key != "attributes"@ && attrs.dom().contains(key)) ==> {
                    if attrs.dom().contains("attributes"@) && attrs["attributes"@] is Object {
                        let custom = attrs["attributes"@]->Object_0;
                        &&& r.dom().contains(key) <==> custom.dom().contains(key)
                        &&& custom.dom().contains(key) ==> r[key] == custom[key]
                    } else {
                        !r.dom().contains(key)
                    }
                }
            }
        },
{
    reveal_strlit("id");
    reveal_strlit("attributes");
    assert("id"@.len() != "attributes"@.len());
}

/// An event without `attributes` keeps its `id` alone; `attributes` that are no
/// object are kept beside it as they are; and what is no object stays as it is.
pub proof fn other_events_keep_what_they_have(env: Fields, event: JsonView, key: Seq<char>)
    ensures
        !(event is Object) ==> flattened(event) == event,
        !env.dom().contains("attributes"@) || !(env["attributes"@] is Object) ==> (flattened(
            JsonView::Object(env),
        ) matches JsonView::Object(r) && {
            &&& r.dom().contains(key) <==> env.dom().contains(key) && (key == "id"@ || key
                == "attributes"@)
            &&& r.dom().contains(key) ==> r[key] == env[key]
        }),
{
    reveal_strlit("id");
    reveal_strlit("attributes");
    assert("id"@.len() != "attributes"@.len());
}

} // verus!
