//! Field mapping and document transformation.
//!
//! Transforms are optional. If none are configured, documents pass through
//! unchanged. They run after extraction and before writing to the destination.

use crate::json;
use crate::json::{Fields, Json, JsonNumber, JsonView, NumberView};
use crate::number;
use crate::text;
use crate::text::same_text;
use crate::transform::Transform;
use crate::{Document, DocumentView};
use vstd::prelude::*;

verus! {

/// A pipeline of transforms, applied in order.
pub struct Transformer {
    pub transforms: Vec<Transform>,
}

// ---------------------------------------------------------------------------
// What each operation means
// ---------------------------------------------------------------------------

/// `m` with the value of `from`, where there is one, also under `to`.
pub open spec fn copied(m: Fields, from: Seq<char>, to: Seq<char>) -> Fields {
    match json::field_of(m, from) {
        Some(v) => m.insert(to, v),
        None => m,
    }
}

/// The fields after one operation.
pub open spec fn step(t: Transform, m: Fields) -> Fields {
    match t {
        Transform::Rename { from, to } => match json::field_of(m, from@) {
            Some(v) => m.remove(from@).insert(to@, v),
            None => m,
        },
        Transform::Drop { field } => m.remove(field@),
        Transform::SetTimestamp { from } => copied(m, from@, "_timestamp"@),
        Transform::Lowercase { field } => match json::as_text(json::field_of(m, field@)) {
            Some(s) => m.insert(field@, JsonView::String(text::unicode_lowercase(s))),
            None => m,
        },
        Transform::Copy { from, to } => copied(m, from@, to@),
        Transform::Coerce { field, to } => match json::field_of(m, field@) {
            Some(v) => match coerced(v, to@) {
                Some(c) => m.insert(field@, c),
                None => m,
            },
            None => m,
        },
        Transform::JsonParse { field } => match json::as_text(json::field_of(m, field@)) {
            Some(s) => match json::parsed(s) {
                Ok(v) => m.insert(field@, v),
                Err(_) => m,
            },
            None => m,
        },
    }
}

/// The fields after a list of operations, the first one first.
pub open spec fn steps(ts: Seq<Transform>, m: Fields) -> Fields
    decreases ts.len(),
{
    if ts.len() == 0 {
        m
    } else {
        step(ts.last(), steps(ts.drop_last(), m))
    }
}

/// A document body after a list of operations. Only objects have fields; any
/// other body stays as it is.
pub open spec fn transformed(ts: Seq<Transform>, body: JsonView) -> JsonView {
    match body {
        JsonView::Object(m) => JsonView::Object(steps(ts, m)),
        _ => body,
    }
}

/// A document after a list of operations.
pub open spec fn transformed_document(ts: Seq<Transform>, d: DocumentView) -> DocumentView {
    DocumentView { index: d.index, id: d.id, body: transformed(ts, d.body) }
}

/// The number of an integer.
pub open spec fn int_value(i: int) -> JsonView {
    JsonView::Number(NumberView::Int(i))
}

/// `v` as a string.
pub open spec fn coerced_string(v: JsonView) -> Option<JsonView> {
    match v {
        JsonView::String(_) => Some(v),
        JsonView::Number(NumberView::Int(i)) => Some(JsonView::String(number::integer_text(i))),
        JsonView::Number(NumberView::Float(n)) => Some(JsonView::String(json::float_text(n))),
        JsonView::Bool(b) => Some(
            JsonView::String(
                if b {
                    "true"@
                } else {
                    "false"@
                },
            ),
        ),
        _ => None,
    }
}

/// `v` as an integer: a number without its fraction, held to the range of
/// `i64`; the number that a text holds; or 0 and 1 for a truth value.
pub open spec fn coerced_int(v: JsonView) -> Option<JsonView> {
    match v {
        JsonView::Number(NumberView::Int(i)) => Some(
            int_value(
                if i > i64::MAX {
                    i64::MAX as int
                } else {
                    i
                },
            ),
        ),
        JsonView::Number(NumberView::Float(n)) => Some(int_value(json::float_trunc(n) as int)),
        JsonView::String(s) => match number::within(
            number::signed_number(text::trim(s)),
            i64::MIN as int,
            i64::MAX as int,
        ) {
            Some(i) => Some(int_value(i)),
            None => match json::float_reading(text::trim(s)) {
                Some(f) => Some(int_value(f.0 as int)),
                None => None,
            },
        },
        JsonView::Bool(b) => Some(
            int_value(
                if b {
                    1
                } else {
                    0
                },
            ),
        ),
        _ => None,
    }
}

/// The value of a floating-point number.
pub open spec fn float_value(n: serde_json::Number) -> JsonView {
    JsonView::Number(NumberView::Float(n))
}

/// `v` as a floating-point number: that nearest to an integer or to 0 and 1 for a
/// truth value, or the one that a text holds, where it is finite.
pub open spec fn coerced_float(v: JsonView) -> Option<JsonView> {
    match v {
        JsonView::Number(NumberView::Int(i)) => Some(float_value(json::nearest_float(i))),
        JsonView::Number(NumberView::Float(_)) => Some(v),
        JsonView::String(s) => match json::float_reading(text::trim(s)) {
            Some((_, Some(n))) => Some(float_value(n)),
            _ => None,
        },
        JsonView::Bool(b) => Some(
            float_value(
                json::nearest_float(
                    if b {
                        1
                    } else {
                        0
                    },
                ),
            ),
        ),
        _ => None,
    }
}

/// The truth value that a text names.
pub open spec fn truth_of(s: Seq<char>) -> Option<bool> {
    if s == "true"@ || s == "1"@ || s == "yes"@ {
        Some(true)
    } else if s == "false"@ || s == "0"@ || s == "no"@ {
        Some(false)
    } else {
        None
    }
}

/// `v` as a truth value.
pub open spec fn coerced_bool(v: JsonView) -> Option<JsonView> {
    match v {
        JsonView::Bool(_) => Some(v),
        JsonView::String(s) => match truth_of(text::unicode_lowercase(text::trim(s))) {
            Some(b) => Some(JsonView::Bool(b)),
            None => None,
        },
        JsonView::Number(NumberView::Int(i)) => if i <= i64::MAX {
            Some(JsonView::Bool(i != 0))
        } else {
            None
        },
        _ => None,
    }
}

/// `v` converted to the type that `to` names; nothing where that is impossible.
pub open spec fn coerced(v: JsonView, to: Seq<char>) -> Option<JsonView> {
    if to == "string"@ {
        coerced_string(v)
    } else if to == "int"@ {
        coerced_int(v)
    } else if to == "float"@ {
        coerced_float(v)
    } else if to == "bool"@ {
        coerced_bool(v)
    } else {
        None
    }
}

// ---------------------------------------------------------------------------
// Coercion
// ---------------------------------------------------------------------------

fn coerce_string(value: &Json) -> (r: Option<Json>)
    ensures
        json::opt_view(r) == coerced_string(value.view()),
{
    match value {
        Json::String(_) => Some(value.clone()),
        Json::Number(JsonNumber::Unsigned(u)) => Some(Json::String(number::decimal(*u))),
        Json::Number(JsonNumber::Signed(i)) => Some(Json::String(number::integer(*i))),
        Json::Number(JsonNumber::Float(f)) => Some(Json::String(f.to_text())),
        Json::Bool(b) => Some(
            Json::String(
                if *b {
                    "true".to_owned()
                } else {
                    "false".to_owned()
                },
            ),
        ),
        _ => None,
    }
}

fn coerce_int(value: &Json) -> (r: Option<Json>)
    ensures
        json::opt_view(r) == coerced_int(value.view()),
{
    match value {
        Json::Number(JsonNumber::Unsigned(u)) => if *u <= 0x7fff_ffff_ffff_ffff {
            Some(Json::Number(JsonNumber::Unsigned(*u)))
        } else {
            Some(Json::Number(JsonNumber::Signed(i64::MAX)))
        },
        Json::Number(JsonNumber::Signed(i)) => Some(Json::Number(JsonNumber::Signed(*i))),
        Json::Number(JsonNumber::Float(f)) => Some(
            Json::Number(JsonNumber::Signed(f.as_integer())),
        ),
        Json::String(s) => {
            let t = text::trim_text(s.as_str());
            let cs = text::chars_of(t.as_str());
            match number::parse_i64(&cs) {
                Some(i) => Some(Json::Number(JsonNumber::Signed(i))),
                None => match json::float_text_as_integer(t.as_str()) {
                    Some(i) => Some(Json::Number(JsonNumber::Signed(i))),
                    None => None,
                },
            }
        },
        Json::Bool(b) => Some(
            Json::Number(
                JsonNumber::Signed(
                    if *b {
                        1
                    } else {
                        0
                    },
                ),
            ),
        ),
        _ => None,
    }
}

fn coerce_float(value: &Json) -> (r: Option<Json>)
    ensures
        json::opt_view(r) == coerced_float(value.view()),
{
    match value {
        Json::Number(JsonNumber::Unsigned(u)) => Some(json::integer_as_float(*u as i128)),
        Json::Number(JsonNumber::Signed(i)) => Some(json::integer_as_float(*i as i128)),
        Json::Number(JsonNumber::Float(_)) => Some(value.clone()),
        Json::String(s) => {
            let t = text::trim_text(s.as_str());
            json::float_text_as_number(t.as_str())
        },
        Json::Bool(b) => Some(
            json::integer_as_float(
                if *b {
                    1
                } else {
                    0
                },
            ),
        ),
        _ => None,
    }
}

fn coerce_bool(value: &Json) -> (r: Option<Json>)
    ensures
        json::opt_view(r) == coerced_bool(value.view()),
{
    match value {
        Json::Bool(_) => Some(value.clone()),
        Json::String(s) => {
            let t = text::trim_text(s.as_str());
            let low = text::to_lowercase(t.as_str());
            let l = low.as_str();
            if same_text(l, "true") || same_text(l, "1") || same_text(l, "yes") {
                Some(Json::Bool(true))
            } else if same_text(l, "false") || same_text(l, "0") || same_text(l, "no") {
                Some(Json::Bool(false))
            } else {
                None
            }
        },
        Json::Number(_) => match value.as_i64() {
            Some(i) => Some(Json::Bool(i != 0)),
            None => None,
        },
        _ => None,
    }
}

/// Best-effort coercion of a JSON value to the requested target type.
///
/// Gives nothing when the value cannot be coerced, in which case the caller
/// leaves the field unchanged. Recognized targets: `string`, `int`, `float`,
/// `bool`.
pub fn coerce_value(value: &Json, to: &str) -> (r: Option<Json>)
    ensures
        json::opt_view(r) == coerced(value.view(), to@),
{
    if same_text(to, "string") {
        coerce_string(value)
    } else if same_text(to, "int") {
        coerce_int(value)
    } else if same_text(to, "float") {
        coerce_float(value)
    } else if same_text(to, "bool") {
        coerce_bool(value)
    } else {
        None
    }
}

// ---------------------------------------------------------------------------
// Applying transforms
// ---------------------------------------------------------------------------

/// Copies the value of `from`, where there is one, to `to`.
pub fn copy_field(body: &mut Vec<(String, Json)>, from: &str, to: &str)
    ensures
        json::object_view(final(body)@) == copied(json::object_view(old(body)@), from@, to@),
{
    let held: Option<Json> = match json::get(body, from) {
        Some(v) => Some(v.clone()),
        None => None,
    };
    if let Some(v) = held {
        json::put(body, to, v);
    }
}

/// Applies one operation to the fields of an object.
fn apply_one(t: &Transform, body: &mut Vec<(String, Json)>)
    ensures
        json::object_view(final(body)@) == step(*t, json::object_view(old(body)@)),
{
    match t {
        Transform::Rename { from, to } => {
            if let Some(value) = json::take(body, from.as_str()) {
                json::put(body, to.as_str(), value);
            }
        },
        Transform::Drop { field } => {
            let _ = json::take(body, field.as_str());
        },
        Transform::SetTimestamp { from } => {
            copy_field(body, from.as_str(), "_timestamp");
        },
        Transform::Lowercase { field } => {
            let low: Option<String> = match json::get(body, field.as_str()) {
                Some(Json::String(s)) => Some(text::to_lowercase(s.as_str())),
                _ => None,
            };
            if let Some(l) = low {
                json::put(body, field.as_str(), Json::String(l));
            }
        },
        Transform::Copy { from, to } => {
            copy_field(body, from.as_str(), to.as_str());
        },
        Transform::Coerce { field, to } => {
            let made: Option<Json> = match json::get(body, field.as_str()) {
                Some(v) => coerce_value(v, to.as_str()),
                None => None,
            };
            if let Some(v) = made {
                json::put(body, field.as_str(), v);
            }
        },
        Transform::JsonParse { field } => {
            let made: Option<Json> = match json::get(body, field.as_str()) {
                Some(Json::String(s)) => match json::parse(s.as_str()) {
                    Ok(v) => Some(v),
                    Err(_) => None,
                },
                _ => None,
            };
            if let Some(v) = made {
                json::put(body, field.as_str(), v);
            }
        },
    }
}

impl Transformer {
    /// A pipeline of the given operations.
    pub fn new(transforms: Vec<Transform>) -> (r: Transformer)
        ensures
            r.transforms@ == transforms@,
    {
        Transformer { transforms }
    }

    /// The pipeline that changes nothing.
    pub fn identity() -> (r: Transformer)
        ensures
            r.transforms@ == Seq::<Transform>::empty(),
    {
        Transformer { transforms: Vec::new() }
    }

    /// Applies every operation, in order, to the document's body.
    pub fn apply(&self, doc: Document) -> (r: Document)
        ensures
            r@ == transformed_document(self.transforms@, doc@),
    {
        let n: usize = self.transforms.len();
        match doc.body {
            Json::Object(entries) => {
                let ghost start = json::object_view(entries@);
                let mut body = entries;
                let mut i: usize = 0;
                while i < n
                    invariant
                        n == self.transforms@.len(),
                        i <= n,
                        json::object_view(body@) == steps(self.transforms@.take(i as int), start),
                    decreases n - i,
                {
                    apply_one(&self.transforms[i], &mut body);
                    i = i + 1;
                    assert(self.transforms@.take(i as int).drop_last() =~= self.transforms@.take(
                        i - 1,
                    ));
                }
                assert(self.transforms@.take(n as int) =~= self.transforms@);
                Document { index: doc.index, id: doc.id, body: Json::Object(body) }
            },
            other => Document { index: doc.index, id: doc.id, body: other },
        }
    }

    /// Applies every operation to every document.
    pub fn apply_batch(&self, docs: Vec<Document>) -> (r: Vec<Document>)
        ensures
            crate::documents(r@) == crate::documents(docs@).map_values(
                |d: DocumentView| transformed_document(self.transforms@, d),
            ),
    {
        let ghost all = docs@;
        let mut rest = json::reversed(docs);
        let mut out: Vec<Document> = Vec::new();
        while rest.len() > 0
            invariant
                out@.len() + rest@.len() == all.len(),
                forall|k: int|
                    0 <= k < rest@.len() ==> #[trigger] rest@[k] == all[all.len() - 1 - k],
                forall|k: int|
                    0 <= k < out@.len() ==> (#[trigger] out@[k])@ == transformed_document(
                        self.transforms@,
                        all[k]@,
                    ),
            decreases rest@.len(),
        {
            let doc = rest.pop().unwrap();
            out.push(self.apply(doc));
        }
        assert(crate::documents(out@) =~= crate::documents(all).map_values(
            |d: DocumentView| transformed_document(self.transforms@, d),
        ));
        out
    }
}

// ---------------------------------------------------------------------------
// Laws
// ---------------------------------------------------------------------------

/// With no transforms configured, documents pass through unchanged.
pub proof fn no_transforms_change_nothing(d: DocumentView)
    ensures
        transformed_document(Seq::empty(), d) == d,
{
}

/// A body that is not an object is left untouched, whatever the transforms.
pub proof fn other_bodies_stay(ts: Seq<Transform>, body: JsonView)
    requires
        !(body is Object),
    ensures
        transformed(ts, body) == body,
{
}

/// Running two pipelines one after the other is running them as one.
pub proof fn pipelines_compose(a: Seq<Transform>, b: Seq<Transform>, body: JsonView)
    ensures
        transformed(a + b, body) == transformed(b, transformed(a, body)),
{
    if let JsonView::Object(m) = body {
        steps_compose(a, b, m);
    }
}

proof fn steps_compose(a: Seq<Transform>, b: Seq<Transform>, m: Fields)
    ensures
        steps(a + b, m) == steps(b, steps(a, m)),
    decreases b.len(),
{
    if b.len() == 0 {
        assert(a + b =~= a);
    } else {
        steps_compose(a, b.drop_last(), m);
        assert((a + b).drop_last() =~= a + b.drop_last());
    }
}

/// Copying a field, be it to `_timestamp` or elsewhere, keeps the source and
/// touches no field but the target.
pub proof fn copy_keeps_the_source(m: Fields, from: Seq<char>, to: Seq<char>, key: Seq<char>)
    requires
        key != to,
    ensures
        json::field_of(copied(m, from, to), key) == json::field_of(m, key),
        m.dom().contains(from) ==> json::field_of(copied(m, from, to), to) == json::field_of(
            m,
            from,
        ),
{
}

/// Whether two objects hold the same under a key: the same value, or neither one.
pub open spec fn alike_at(a: Fields, b: Fields, key: Seq<char>) -> bool {
    (a.dom().contains(key) <==> b.dom().contains(key)) && (a.dom().contains(key) ==> a[key]
        == b[key])
}

/// The fields of an object body after one operation.
pub open spec fn after(t: Transform, m: Fields) -> Fields {
    transformed(seq![t], JsonView::Object(m))->Object_0
}

/// Operations change the body alone, and an object stays an object.
pub proof fn operations_change_the_body(ts: Seq<Transform>, d: DocumentView)
    ensures
        transformed_document(ts, d).index == d.index,
        transformed_document(ts, d).id == d.id,
        transformed_document(ts, d).body == transformed(ts, d.body),
        transformed(ts, d.body) is Object <==> d.body is Object,
{
}

proof fn one_operation(t: Transform, m: Fields)
    ensures
        after(t, m) == step(t, m),
{
    let ts = seq![t];
    assert(ts.drop_last() =~= Seq::<Transform>::empty());
    assert(steps(ts.drop_last(), m) == m);
    assert(ts.last() == t);
}

/// A rename moves a value to another key: the new key holds it, the old one is
/// gone, and every other field stays. Without the field nothing happens.
pub proof fn renaming_moves_the_value(m: Fields, from: String, to: String, key: Seq<char>)
    ensures
        ({
            let r = after(Transform::Rename { from, to }, m);
            &&& m.dom().contains(from@) ==> r.dom().contains(to@) && r[to@] == m[from@]
            &&& m.dom().contains(from@) && from@ != to@ ==> !r.dom().contains(from@)
            &&& key != from@ && key != to@ ==> alike_at(r, m, key)
            &&& !m.dom().contains(from@) ==> alike_at(r, m, key)
        }),
{
    one_operation(Transform::Rename { from, to }, m);
}

/// A drop takes out one field and no other.
pub proof fn dropping_takes_one_field(m: Fields, field: String, key: Seq<char>)
    ensures
        !after(Transform::Drop { field }, m).dom().contains(field@),
        key != field@ ==> alike_at(after(Transform::Drop { field }, m), m, key),
{
    one_operation(Transform::Drop { field }, m);
}

/// A copy puts a value, of whatever type, under another key as well, and a
/// timestamp is a copy to `_timestamp`. Every other field stays, and without the
/// field nothing happens.
pub proof fn copying_puts_the_value_twice(m: Fields, from: String, to: String, key: Seq<char>)
    ensures
        ({
            let r = after(Transform::Copy { from, to }, m);
            &&& m.dom().contains(from@) ==> r.dom().contains(to@) && r[to@] == m[from@]
            &&& key != to@ || !m.dom().contains(from@) ==> alike_at(r, m, key)
        }),
        ({
            let r = after(Transform::SetTimestamp { from }, m);
            &&& m.dom().contains(from@) ==> r.dom().contains("_timestamp"@) && r["_timestamp"@]
                == m[from@]
            &&& key != "_timestamp"@ || !m.dom().contains(from@) ==> alike_at(r, m, key)
        }),
{
    one_operation(Transform::Copy { from, to }, m);
    one_operation(Transform::SetTimestamp { from }, m);
}

/// A text is lowercased in place; a value of another type and every other field
/// stay.
pub proof fn lowercasing_changes_one_text(m: Fields, field: String, key: Seq<char>, s: Seq<char>)
    ensures
        ({
            let r = after(Transform::Lowercase { field }, m);
            &&& m.dom().contains(field@) && m[field@] == JsonView::String(s) ==> r.dom().contains(
                field@,
            ) && r[field@] == JsonView::String(text::unicode_lowercase(s))
            &&& key != field@ ==> alike_at(r, m, key)
            &&& m.dom().contains(field@) && !(m[field@] is String) ==> alike_at(r, m, key)
            &&& !m.dom().contains(field@) ==> alike_at(r, m, key)
        }),
{
    one_operation(Transform::Lowercase { field }, m);
}

/// A coercion replaces a value by the converted one. A value that cannot be
/// converted and every other field stay.
pub proof fn coercing_changes_one_value(m: Fields, field: String, to: String, key: Seq<char>)
    ensures
        ({
            let r = after(Transform::Coerce { field, to }, m);
            &&& m.dom().contains(field@) ==> (coerced(m[field@], to@) matches Some(c)
                ==> r.dom().contains(field@) && r[field@] == c)
            &&& key != field@ ==> alike_at(r, m, key)
            &&& m.dom().contains(field@) && coerced(m[field@], to@) is None ==> alike_at(r, m, key)
            &&& !m.dom().contains(field@) ==> alike_at(r, m, key)
        }),
{
    one_operation(Transform::Coerce { field, to }, m);
}

/// A text that holds JSON is replaced by what it holds. A text that does not, a
/// value of another type and every other field stay.
pub proof fn parsing_changes_one_text(m: Fields, field: String, key: Seq<char>, s: Seq<char>)
    ensures
        ({
            let r = after(Transform::JsonParse { field }, m);
            &&& m.dom().contains(field@) && m[field@] == JsonView::String(s) ==> match json::parsed(
                s,
            ) {
                Ok(v) => r.dom().contains(field@) && r[field@] == v,
                Err(_) => alike_at(r, m, key),
            }
            &&& key != field@ ==> alike_at(r, m, key)
            &&& m.dom().contains(field@) && !(m[field@] is String) ==> alike_at(r, m, key)
            &&& !m.dom().contains(field@) ==> alike_at(r, m, key)
        }),
{
    one_operation(Transform::JsonParse { field }, m);
}

proof fn targets_apart()
    ensures
        "string"@.len() == 6,
        "int"@.len() == 3,
        "float"@.len() == 5,
        "bool"@.len() == 4,
{
    reveal_strlit("string");
    reveal_strlit("int");
    reveal_strlit("float");
    reveal_strlit("bool");
}

proof fn truth_words()
    ensures
        "true"@ == seq!['t', 'r', 'u', 'e'],
        "false"@ == seq!['f', 'a', 'l', 's', 'e'],
        "yes"@ == seq!['y', 'e', 's'],
        "no"@ == seq!['n', 'o'],
        "1"@ == seq!['1'],
        "0"@ == seq!['0'],
{
    reveal_strlit("true");
    reveal_strlit("false");
    reveal_strlit("yes");
    reveal_strlit("no");
    reveal_strlit("1");
    reveal_strlit("0");
    assert("true"@ =~= seq!['t', 'r', 'u', 'e']);
    assert("false"@ =~= seq!['f', 'a', 'l', 's', 'e']);
    assert("yes"@ =~= seq!['y', 'e', 's']);
    assert("no"@ =~= seq!['n', 'o']);
    assert("1"@ =~= seq!['1']);
    assert("0"@ =~= seq!['0']);
}

/// Coercing to `bool` undoes coercing a truth value to `string` and to `int`. The
/// text of a truth value is in lowercase already.
pub proof fn truth_values_read_back(b: bool, s: Seq<char>, i: JsonView)
    requires
        coerced(JsonView::Bool(b), "string"@) == Some(JsonView::String(s)),
        text::unicode_lowercase(s) == s,
        coerced(JsonView::Bool(b), "int"@) == Some(i),
    ensures
        coerced(JsonView::String(s), "bool"@) == Some(JsonView::Bool(b)),
        coerced(i, "bool"@) == Some(JsonView::Bool(b)),
        coerced(JsonView::Bool(b), "bool"@) == Some(JsonView::Bool(b)),
        s == if b {
            "true"@
        } else {
            "false"@
        },
{
    targets_apart();
    truth_words();
    assert(!text::is_white(s[0]) && !text::is_white(s.last()));
    text::trimmed_texts_stay(s);
}

/// The texts that mean true are `true`, `1` and `yes`, those that mean false are
/// `false`, `0` and `no`, in any case and with white space around them; no other
/// text is a truth value.
pub proof fn six_words_are_truth_values(s: Seq<char>)
    ensures
        ({
            let word = text::unicode_lowercase(text::trim(s));
            let truth = coerced(JsonView::String(s), "bool"@);
            &&& truth == Some(JsonView::Bool(true)) <==> word == "true"@ || word == "1"@ || word
                == "yes"@
            &&& truth == Some(JsonView::Bool(false)) <==> word == "false"@ || word == "0"@ || word
                == "no"@
            &&& truth is None || truth->0 is Bool
        }),
{
    targets_apart();
    truth_words();
    assert("true"@[0] == 't' && "false"@[0] == 'f' && "yes"@[0] == 'y' && "no"@[0] == 'n' && "1"@[0]
        == '1' && "0"@[0] == '0');
}

/// An integer is true unless it is zero. One beyond the range of `i64` is no truth
/// value, and neither is a floating-point number.
pub proof fn integers_as_truth_values(i: int, n: serde_json::Number)
    ensures
        i <= i64::MAX && i != 0 ==> coerced(int_value(i), "bool"@) == Some(JsonView::Bool(true)),
        coerced(int_value(0), "bool"@) == Some(JsonView::Bool(false)),
        i > i64::MAX ==> coerced(int_value(i), "bool"@) is None,
        coerced(float_value(n), "bool"@) is None,
{
    targets_apart();
}

/// Coercing to `int` undoes coercing an integer to `string`, with white space
/// around the text or not.
pub proof fn integers_read_back(i: int, s: Seq<char>, around: Seq<char>)
    requires
        i64::MIN <= i <= i64::MAX,
        coerced(int_value(i), "string"@) == Some(JsonView::String(s)),
        text::trim(around) == s,
    ensures
        coerced(JsonView::String(s), "int"@) == Some(int_value(i)),
        coerced(JsonView::String(around), "int"@) == Some(int_value(i)),
        coerced(int_value(i), "int"@) == Some(int_value(i)),
{
    targets_apart();
    number::integers_read_back(i);
    text::trimming_is_done_once(around);
}

/// Coercing to `int` holds integers to the range of `i64`, cuts off the fraction of
/// a floating-point number, takes one for true and zero for false, and reads a text
/// that holds no integer as a floating-point number.
pub proof fn integers_come_from_every_number(i: int, n: serde_json::Number, s: Seq<char>)
    ensures
        int_value(i) == JsonView::Number(NumberView::Int(i)),
        i > i64::MAX ==> coerced(int_value(i), "int"@) == Some(int_value(i64::MAX as int)),
        coerced(float_value(n), "int"@) == Some(int_value(json::float_trunc(n) as int)),
        coerced(JsonView::Bool(true), "int"@) == Some(int_value(1)),
        coerced(JsonView::Bool(false), "int"@) == Some(int_value(0)),
        number::signed_number(text::trim(s)) is None || !(i64::MIN <= number::signed_number(
            text::trim(s),
        )->0 <= i64::MAX) ==> (match json::float_reading(text::trim(s)) {
            Some((whole, _)) => coerced(JsonView::String(s), "int"@) == Some(
                int_value(whole as int),
            ),
            None => coerced(JsonView::String(s), "int"@) is None,
        }),
{
    targets_apart();
}

/// Coercing to `float` takes the floating-point number nearest to an integer, keeps
/// one that it is given, takes one for true and zero for false, and reads a text.
pub proof fn floats_come_from_every_number(i: int, n: serde_json::Number, s: Seq<char>)
    ensures
        float_value(n) == JsonView::Number(NumberView::Float(n)),
        coerced(int_value(i), "float"@) == Some(float_value(json::nearest_float(i))),
        coerced(float_value(n), "float"@) == Some(float_value(n)),
        coerced(JsonView::Bool(true), "float"@) == coerced(int_value(1), "float"@),
        coerced(JsonView::Bool(false), "float"@) == coerced(int_value(0), "float"@),
        match json::float_reading(text::trim(s)) {
            Some((_, Some(x))) => coerced(JsonView::String(s), "float"@) == Some(float_value(x)),
            _ => coerced(JsonView::String(s), "float"@) is None,
        },
{
    targets_apart();
}

/// Coercing to `string` keeps a text to the letter, and writes a floating-point
/// number as JSON does.
pub proof fn texts_come_from_every_number(s: Seq<char>, i: int, n: serde_json::Number)
    ensures
        coerced(JsonView::String(s), "string"@) == Some(JsonView::String(s)),
        coerced(int_value(i), "string"@) == Some(JsonView::String(number::integer_text(i))),
        coerced(float_value(n), "string"@) == Some(JsonView::String(json::float_text(n))),
{
    targets_apart();
}

/// What a coercion gives is of the type that was asked for, and coercing it once
/// more changes nothing.
pub proof fn coercions_give_their_type(v: JsonView, to: Seq<char>, r: JsonView)
    requires
        coerced(v, to) == Some(r),
    ensures
        to == "string"@ ==> r is String,
        to == "int"@ ==> r matches JsonView::Number(NumberView::Int(_)),
        to == "float"@ ==> r matches JsonView::Number(NumberView::Float(_)),
        to == "bool"@ ==> r is Bool,
        coerced(r, to) == Some(r),
{
    targets_apart();
    if to == "int"@ {
        if let JsonView::String(s) = v {
            number::bounds_are_inclusive(
                number::signed_number(text::trim(s))->0,
                i64::MIN as int,
                i64::MAX as int,
            );
        }
    }
}

/// White space around a text does not matter to a coercion to another type.
pub proof fn white_space_does_not_matter(s: Seq<char>, to: Seq<char>)
    requires
        to != "string"@,
    ensures
        coerced(JsonView::String(s), to) == coerced(JsonView::String(text::trim(s)), to),
{
    text::trimming_is_done_once(s);
}

/// Nothing, a list and an object cannot be converted, and nothing can to a type of
/// another name.
pub proof fn other_coercions_are_impossible(v: JsonView, to: Seq<char>)
    ensures
        v is Null || v is Array || v is Object ==> coerced(v, to) is None,
        to != "string"@ && to != "int"@ && to != "float"@ && to != "bool"@ ==> coerced(v, to) is None,
{
}

/// What is coerced to a text can be coerced back: a truth value, whose text is in
/// lowercase, and an integer that an `i64` holds.
pub proof fn coerced_values_come_back(
    value: Json,
    string: &str,
    back: &str,
    there: Option<Json>,
    again: Option<Json>,
)
    requires
        string@ == "string"@,
        call_ensures(coerce_value, (&value, string), there),
        there is Some,
        call_ensures(coerce_value, (&there->0, back), again),
    ensures
        there->0.view() is String,
        back@ == "string"@ ==> json::opt_view(again) == json::opt_view(there),
        back@ == "bool"@ && value.view() is Bool && text::unicode_lowercase(
            there->0.view()->String_0,
        ) == there->0.view()->String_0 ==> json::opt_view(again) == Some(value.view()),
        back@ == "int"@ ==> (value.view() matches JsonView::Number(NumberView::Int(i)) ==> (i64::MIN
            <= i <= i64::MAX ==> json::opt_view(again) == Some(value.view()))),
{
    let s = there->0.view();
    coercions_give_their_type(value.view(), "string"@, s);
    if let JsonView::Bool(b) = value.view() {
        if text::unicode_lowercase(s->String_0) == s->String_0 {
            targets_apart();
            truth_values_read_back(b, s->String_0, coerced(value.view(), "int"@)->0);
        }
    }
    if let JsonView::Number(NumberView::Int(i)) = value.view() {
        if i64::MIN <= i <= i64::MAX {
            number::integers_read_back(i);
            number::only_numerals_are_read(s->String_0);
            targets_apart();
            let t = s->String_0;
            assert(!text::is_white(t[0]));
            if t.len() > 1 {
                assert(number::is_digit(t[t.len() - 1]));
            }
            text::trimmed_texts_stay(t);
            integers_read_back(i, t, t);
        }
    }
}

/// A batch is transformed document by document: none is lost, added or moved.
pub proof fn batches_are_transformed_whole(
    t: Transformer,
    docs: Vec<Document>,
    r: Vec<Document>,
    i: int,
    one: Document,
)
    requires
        call_ensures(Transformer::apply_batch, (&t, docs), r),
        0 <= i < docs@.len(),
        call_ensures(Transformer::apply, (&t, docs@[i]), one),
    ensures
        r@.len() == docs@.len(),
        r@[i]@ == one@,
        one.index@ == docs@[i].index@,
        one.id@ == docs@[i].id@,
{
    let given = crate::documents(docs@);
    let sent = given.map_values(|d: DocumentView| transformed_document(t.transforms@, d));
    assert(crate::documents(r@) == sent);
    assert(crate::documents(r@).len() == r@.len());
    assert(crate::documents(r@)[i] == r@[i]@);
    assert(given[i] == docs@[i]@);
    assert(sent[i] == transformed_document(t.transforms@, given[i]));
}

} // verus!
