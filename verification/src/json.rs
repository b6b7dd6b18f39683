//! JSON values, modelled over mathematical sequences and maps.
//!
//! [`Json`] is what the rest of the library works on. `serde_json` reads and
//! writes the text; its values are taken apart and put together here.

use crate::text::same_text;
use vstd::prelude::*;

verus! {

// ---------------------------------------------------------------------------
// The outside types
// ---------------------------------------------------------------------------

#[verifier::external_type_specification]
#[verifier::external_body]
pub struct ExValue(serde_json::Value);

#[verifier::external_type_specification]
#[verifier::external_body]
pub struct ExNumber(serde_json::Number);

/// A `serde_json::Number` is a plain value: its clone is the same number.
pub assume_specification[ <serde_json::Number as Clone>::clone ](n: &serde_json::Number) -> (r:
    serde_json::Number)
    ensures
        r == *n,
;

/// Whether a number is a floating-point one, as `Number::is_f64` reports it.
pub uninterp spec fn is_float(n: serde_json::Number) -> bool;

/// Reads a floating-point number with `str::parse`. Where there is one, gives
/// its value cast to `i64` and its JSON number, which `Number::from_f64` makes
/// of every finite one. The outcome is a function of the text alone and is
/// named `float_reading`.
#[verifier::external_body]
fn read_float(text: &str) -> (r: Option<(i64, Option<serde_json::Number>)>)
    ensures
        r == float_reading(text@),
        r matches Some((_, Some(n))) ==> is_float(n),
{
    text.parse().ok().map(|f| (serde_json::Number::from_f64(f), f as i64)).map(|p| (p.1, p.0))
}

/// The number nearest to an integer, made by `Number::from_f64` from the integer
/// cast as `Number::as_f64` casts it. The cast gives a finite value, of which
/// `from_f64` always makes a number. It depends on the integer alone and is named
/// `nearest_float`.
#[verifier::external_body]
fn float_near(v: i128) -> (r: Option<serde_json::Number>)
    ensures
        r == Some(nearest_float(v as int)),
        r matches Some(n) ==> is_float(n),
{
    serde_json::Number::from_f64(v as _)
}

/// What `float_near` makes of an integer.
pub uninterp spec fn nearest_float(v: int) -> serde_json::Number;

/// The value of a floating-point number cast to `i64`, read with
/// `Number::as_f64`, which gives one for every number that `Number::is_f64`
/// reports. It depends on the number alone and is named `float_trunc`.
#[verifier::external_body]
fn truncated(n: &serde_json::Number) -> (r: Option<i64>)
    requires
        is_float(*n),
    ensures
        r == Some(float_trunc(*n)),
{
    n.as_f64().map(|f| f as i64)
}

/// What `truncated` makes of a number.
pub uninterp spec fn float_trunc(n: serde_json::Number) -> i64;

/// What `read_float` makes of a text.
pub uninterp spec fn float_reading(text: Seq<char>) -> Option<(i64, Option<serde_json::Number>)>;

// ---------------------------------------------------------------------------
// Values and their views
// ---------------------------------------------------------------------------

/// A floating-point JSON number. It is carried through, never computed with.
#[derive(Debug)]
pub struct FloatNumber {
    number: serde_json::Number,
}

impl FloatNumber {
    #[verifier::type_invariant]
    spec fn float_inv(self) -> bool {
        is_float(self.number)
    }
}

impl View for FloatNumber {
    type V = serde_json::Number;

    closed spec fn view(&self) -> serde_json::Number {
        self.number
    }
}

/// A JSON number.
#[derive(Debug)]
pub enum JsonNumber {
    Unsigned(u64),
    Signed(i64),
    Float(FloatNumber),
}

/// What a JSON number denotes: an integer, or a floating-point number.
pub enum NumberView {
    Int(int),
    Float(serde_json::Number),
}

impl View for JsonNumber {
    type V = NumberView;

    open spec fn view(&self) -> NumberView {
        match self {
            JsonNumber::Unsigned(u) => NumberView::Int(*u as int),
            JsonNumber::Signed(i) => NumberView::Int(*i as int),
            JsonNumber::Float(f) => NumberView::Float(f@),
        }
    }
}

/// A JSON value. Where an object lists a key more than once, the last entry
/// counts.
#[derive(Debug)]
pub enum Json {
    Null,
    Bool(bool),
    Number(JsonNumber),
    String(String),
    Array(Vec<Json>),
    Object(Vec<(String, Json)>),
}

/// The mathematical JSON value: an object is a finite map.
pub enum JsonView {
    Null,
    Bool(bool),
    Number(NumberView),
    String(Seq<char>),
    Array(Seq<JsonView>),
    Object(Map<Seq<char>, JsonView>),
}

/// The fields of an object.
pub type Fields = Map<Seq<char>, JsonView>;

/// The views of a list of values.
pub open spec fn array_view(items: Seq<Json>) -> Seq<JsonView>
    decreases items,
{
    if items.len() == 0 {
        Seq::empty()
    } else {
        array_view(items.drop_last()).push(items.last().view())
    }
}

/// The map that a list of entries stands for.
pub open spec fn object_view(entries: Seq<(String, Json)>) -> Fields
    decreases entries,
{
    if entries.len() == 0 {
        Map::empty()
    } else {
        object_view(entries.drop_last()).insert(entries.last().0@, entries.last().1.view())
    }
}

impl Json {
    /// The mathematical value.
    pub open spec fn view(&self) -> JsonView
        decreases self,
    {
        match self {
            Json::Null => JsonView::Null,
            Json::Bool(b) => JsonView::Bool(*b),
            Json::Number(n) => JsonView::Number(n.view()),
            Json::String(s) => JsonView::String(s@),
            Json::Array(items) => JsonView::Array(array_view(items@)),
            Json::Object(entries) => JsonView::Object(object_view(entries@)),
        }
    }
}

/// The value of a field: present only in an object that has it.
pub open spec fn field(v: JsonView, key: Seq<char>) -> Option<JsonView> {
    match v {
        JsonView::Object(m) => if m.dom().contains(key) {
            Some(m[key])
        } else {
            None
        },
        _ => None,
    }
}

/// The value of a field of a map.
pub open spec fn field_of(m: Fields, key: Seq<char>) -> Option<JsonView> {
    if m.dom().contains(key) {
        Some(m[key])
    } else {
        None
    }
}

/// The text of a string value.
pub open spec fn as_text(v: Option<JsonView>) -> Option<Seq<char>> {
    match v {
        Some(JsonView::String(s)) => Some(s),
        _ => None,
    }
}

/// The view of an optional value.
pub open spec fn opt_view(v: Option<Json>) -> Option<JsonView> {
    match v {
        Some(j) => Some(j.view()),
        None => None,
    }
}

/// The view of an optional reference to a value.
pub open spec fn ref_view(v: Option<&Json>) -> Option<JsonView> {
    match v {
        Some(j) => Some(j.view()),
        None => None,
    }
}

/// The views of a list have the list's length and order.
pub proof fn array_view_index(items: Seq<Json>)
    ensures
        array_view(items).len() == items.len(),
        forall|i: int|
            0 <= i < items.len() ==> #[trigger] array_view(items)[i] == items[i].view(),
    decreases items,
{
    if items.len() > 0 {
        array_view_index(items.drop_last());
        assert forall|i: int| 0 <= i < items.len() implies #[trigger] array_view(items)[i]
            == items[i].view() by {
            if i < items.len() - 1 {
                assert(items.drop_last()[i] == items[i]);
                assert(array_view(items.drop_last())[i] == items[i].view());
            }
        }
    }
}

/// One more value adds one more view.
pub proof fn array_view_push(items: Seq<Json>, item: Json)
    ensures
        array_view(items.push(item)) == array_view(items).push(item.view()),
{
    assert(items.push(item).drop_last() =~= items);
}

/// One more entry overrides what its key stood for.
pub proof fn object_view_push(entries: Seq<(String, Json)>, entry: (String, Json))
    ensures
        object_view(entries.push(entry)) == object_view(entries).insert(entry.0@, entry.1.view()),
{
    assert(entries.push(entry).drop_last() =~= entries);
}

/// An object has finitely many fields.
pub proof fn object_view_finite(entries: Seq<(String, Json)>)
    ensures
        object_view(entries).dom().finite(),
    decreases entries,
{
    if entries.len() > 0 {
        object_view_finite(entries.drop_last());
    }
}

// ---------------------------------------------------------------------------
// Between `Json` and `serde_json::Value`
// ---------------------------------------------------------------------------

/// The mathematical value that a `serde_json::Value` holds.
pub uninterp spec fn value_view(v: serde_json::Value) -> JsonView;

/// One level of a `serde_json::Value`.
enum Parts {
    Null,
    Bool(bool),
    Number(JsonNumber),
    String(String),
    Array(Vec<serde_json::Value>),
    Object(Vec<(String, serde_json::Value)>),
}

/// The map that a list of outside entries stands for.
spec fn entries_view(entries: Seq<(String, serde_json::Value)>) -> Fields
    decreases entries.len(),
{
    if entries.len() == 0 {
        Map::empty()
    } else {
        entries_view(entries.drop_last()).insert(
            entries.last().0@,
            value_view(entries.last().1),
        )
    }
}

/// The mathematical value that one level stands for.
spec fn parts_view(p: Parts) -> JsonView {
    match p {
        Parts::Null => JsonView::Null,
        Parts::Bool(b) => JsonView::Bool(b),
        Parts::Number(n) => JsonView::Number(n@),
        Parts::String(s) => JsonView::String(s@),
        Parts::Array(items) => JsonView::Array(
            items@.map_values(|v: serde_json::Value| value_view(v)),
        ),
        Parts::Object(entries) => JsonView::Object(entries_view(entries@)),
    }
}

/// Whether no key occurs twice.
spec fn distinct_keys(entries: Seq<(String, serde_json::Value)>) -> bool {
    forall|i: int, j: int|
        0 <= i < j < entries.len() ==> (#[trigger] entries[i]).0@ != (#[trigger] entries[j]).0@
}

/// Takes a `serde_json::Value` apart by its variants. An object's entries come
/// out of `Map::into_iter`, each key once; a number is told apart by
/// `Number::as_u64` and `Number::as_i64`, and is a float where both say no.
#[verifier::external_body]
fn split_value(v: serde_json::Value) -> (r: Parts)
    ensures
        parts_view(r) == value_view(v),
        r matches Parts::Object(entries) ==> distinct_keys(entries@),
{
    match v {
        serde_json::Value::Null => Parts::Null,
        serde_json::Value::Bool(b) => Parts::Bool(b),
        serde_json::Value::Number(n) => Parts::Number(match (n.as_u64(), n.as_i64()) {
            (Some(u), _) => JsonNumber::Unsigned(u),
            (None, Some(i)) => JsonNumber::Signed(i),
            (None, None) => JsonNumber::Float(FloatNumber { number: n }),
        }),
        serde_json::Value::String(s) => Parts::String(s),
        serde_json::Value::Array(items) => Parts::Array(items),
        serde_json::Value::Object(m) => Parts::Object(m.into_iter().collect()),
    }
}

/// Puts a `serde_json::Value` together from one level: `Value::from` on an
/// integer, the variants' constructors on the rest. Of two entries with one key
/// the later one stays in the map.
#[verifier::external_body]
fn join_value(p: Parts) -> (r: serde_json::Value)
    ensures
        value_view(r) == parts_view(p),
{
    match p {
        Parts::Null => serde_json::Value::Null,
        Parts::Bool(b) => serde_json::Value::Bool(b),
        Parts::Number(JsonNumber::Unsigned(u)) => serde_json::Value::from(u),
        Parts::Number(JsonNumber::Signed(i)) => serde_json::Value::from(i),
        Parts::Number(JsonNumber::Float(f)) => serde_json::Value::Number(f.number),
        Parts::String(s) => serde_json::Value::String(s),
        Parts::Array(items) => serde_json::Value::Array(items),
        Parts::Object(entries) => serde_json::Value::Object(entries.into_iter().collect()),
    }
}

proof fn entries_view_finite(entries: Seq<(String, serde_json::Value)>)
    ensures
        entries_view(entries).dom().finite(),
    decreases entries.len(),
{
    if entries.len() > 0 {
        entries_view_finite(entries.drop_last());
    }
}

proof fn entries_view_index(entries: Seq<(String, serde_json::Value)>, i: int)
    requires
        distinct_keys(entries),
        0 <= i < entries.len(),
    ensures
        entries_view(entries).dom().contains(entries[i].0@),
        entries_view(entries)[entries[i].0@] == value_view(entries[i].1),
        entries_view(entries).dom().finite(),
    decreases entries.len(),
{
    entries_view_finite(entries);
    if i < entries.len() - 1 {
        let head = entries.drop_last();
        assert(distinct_keys(head)) by {
            assert forall|a: int, b: int| 0 <= a < b < head.len() implies (#[trigger] head[a]).0@ != (
            #[trigger] head[b]).0@ by {
                assert(entries[a].0@ != entries[b].0@);
            }
        }
        entries_view_index(head, i);
        assert(head[i] == entries[i]);
        assert(entries[i].0@ != entries[entries.len() - 1].0@);
    }
}

/// The `Json` that a `serde_json::Value` holds.
pub fn from_value(v: serde_json::Value) -> (r: Json)
    ensures
        r.view() == value_view(v),
    decreases value_view(v),
{
    let ghost whole = value_view(v);
    match split_value(v) {
        Parts::Null => Json::Null,
        Parts::Bool(b) => Json::Bool(b),
        Parts::Number(n) => Json::Number(n),
        Parts::String(s) => Json::String(s),
        Parts::Array(items) => {
            let ghost all = items@;
            let ghost views = all.map_values(|v: serde_json::Value| value_view(v));
            let mut rest = items;
            let mut out: Vec<Json> = Vec::new();
            proof {
                assert(all.take(0) =~= Seq::empty());
                assert(array_view(out@) =~= views.take(0));
            }
            rest = reversed(rest);
            while rest.len() > 0
                invariant
                    whole == JsonView::Array(views),
                    views == all.map_values(|v: serde_json::Value| value_view(v)),
                    out@.len() + rest@.len() == all.len(),
                    forall|k: int|
                        0 <= k < rest@.len() ==> #[trigger] rest@[k] == all[all.len() - 1 - k],
                    array_view(out@) == views.take(out@.len() as int),
                    value_view(v) == whole,
                decreases rest@.len(),
            {
                let ghost i = out@.len() as int;
                let ghost before = out@;
                let item = rest.pop().unwrap();
                proof {
                    assert(item == all[i]);
                    assert(views[i] == value_view(item));
                    assert(decreases_to!(whole => whole->Array_0));
                    assert(decreases_to!(whole->Array_0 => whole->Array_0[i]));
                }
                let j = from_value(item);
                out.push(j);
                proof {
                    array_view_push(before, j);
                    assert(views.take(i + 1) =~= views.take(i).push(views[i]));
                }
            }
            assert(views.take(all.len() as int) =~= views);
            Json::Array(out)
        },
        Parts::Object(entries) => {
            let ghost all = entries@;
            let mut out: Vec<(String, Json)> = Vec::new();
            let mut rest = reversed(entries);
            assert(all.take(0) =~= Seq::empty());
            while rest.len() > 0
                invariant
                    whole == JsonView::Object(entries_view(all)),
                    distinct_keys(all),
                    out@.len() + rest@.len() == all.len(),
                    forall|k: int|
                        0 <= k < rest@.len() ==> #[trigger] rest@[k] == all[all.len() - 1 - k],
                    object_view(out@) == entries_view(all.take(out@.len() as int)),
                    value_view(v) == whole,
                decreases rest@.len(),
            {
                let ghost i = out@.len() as int;
                let ghost before = out@;
                let entry = rest.pop().unwrap();
                proof {
                    assert(entry == all[i]);
                    entries_view_index(all, i);
                    assert(decreases_to!(whole => whole->Object_0));
                    assert(decreases_to!(whole->Object_0 => whole->Object_0[entry.0@]));
                }
                let j = from_value(entry.1);
                let pair = (entry.0, j);
                out.push(pair);
                proof {
                    object_view_push(before, pair);
                    assert(all.take(i + 1).drop_last() =~= all.take(i));
                }
            }
            assert(all.take(all.len() as int) =~= all);
            Json::Object(out)
        },
    }
}

/// The items in reverse order.
pub fn reversed<T>(items: Vec<T>) -> (r: Vec<T>)
    ensures
        r@.len() == items@.len(),
        forall|k: int| 0 <= k < r@.len() ==> #[trigger] r@[k] == items@[items@.len() - 1 - k],
{
    let ghost all = items@;
    let mut rest = items;
    let mut out: Vec<T> = Vec::new();
    while rest.len() > 0
        invariant
            out@.len() + rest@.len() == all.len(),
            forall|k: int| 0 <= k < rest@.len() ==> #[trigger] rest@[k] == all[k],
            forall|k: int| 0 <= k < out@.len() ==> #[trigger] out@[k] == all[all.len() - 1 - k],
        decreases rest@.len(),
    {
        let item = rest.pop().unwrap();
        out.push(item);
    }
    out
}

impl Clone for FloatNumber {
    /// The same number once more.
    fn clone(&self) -> (r: FloatNumber)
        ensures
            r@ == self@,
    {
        proof {
            use_type_invariant(self);
        }
        FloatNumber { number: self.number.clone() }
    }
}

impl Clone for JsonNumber {
    /// The same number once more.
    fn clone(&self) -> (r: JsonNumber)
        ensures
            r@ == self@,
    {
        match self {
            JsonNumber::Unsigned(u) => JsonNumber::Unsigned(*u),
            JsonNumber::Signed(i) => JsonNumber::Signed(*i),
            JsonNumber::Float(f) => JsonNumber::Float(f.clone()),
        }
    }
}

impl Clone for Json {
    /// The same value once more.
    fn clone(&self) -> (r: Json)
        ensures
            r.view() == self.view(),
        decreases self,
    {
        match self {
            Json::Null => Json::Null,
            Json::Bool(b) => Json::Bool(*b),
            Json::Number(n) => Json::Number(n.clone()),
            Json::String(s) => Json::String(s.clone()),
            Json::Array(items) => {
                let n: usize = items.len();
                let mut out: Vec<Json> = Vec::new();
                let mut i: usize = 0;
                assert(items@.take(0) =~= Seq::empty());
                while i < n
                    invariant
                        n == items@.len(),
                        i <= n,
                        array_view(out@) == array_view(items@.take(i as int)),
                        self matches Json::Array(own) && own == items,
                    decreases n - i,
                {
                    let ghost before = out@;
                    let j = items[i].clone();
                    out.push(j);
                    proof {
                        array_view_push(before, j);
                        assert(items@.take(i + 1).drop_last() =~= items@.take(i as int));
                    }
                    i = i + 1;
                }
                assert(items@.take(n as int) =~= items@);
                Json::Array(out)
            },
            Json::Object(entries) => {
                let n: usize = entries.len();
                let mut out: Vec<(String, Json)> = Vec::new();
                let mut i: usize = 0;
                assert(entries@.take(0) =~= Seq::empty());
                while i < n
                    invariant
                        n == entries@.len(),
                        i <= n,
                        object_view(out@) == object_view(entries@.take(i as int)),
                        self matches Json::Object(own) && own == entries,
                    decreases n - i,
                {
                    let ghost before = out@;
                    let entry = (entries[i].0.clone(), entries[i].1.clone());
                    out.push(entry);
                    proof {
                        object_view_push(before, entry);
                        assert(entries@.take(i + 1).drop_last() =~= entries@.take(i as int));
                    }
                    i = i + 1;
                }
                assert(entries@.take(n as int) =~= entries@);
                Json::Object(out)
            },
        }
    }
}

impl Json {
    /// The `serde_json::Value` that holds this value.
    pub fn to_value(&self) -> (r: serde_json::Value)
        ensures
            value_view(r) == self.view(),
        decreases self,
    {
        match self {
            Json::Null => join_value(Parts::Null),
            Json::Bool(b) => join_value(Parts::Bool(*b)),
            Json::Number(n) => join_value(Parts::Number(n.clone())),
            Json::String(s) => join_value(Parts::String(s.clone())),
            Json::Array(items) => {
                let n: usize = items.len();
                let mut out: Vec<serde_json::Value> = Vec::new();
                let mut i: usize = 0;
                proof {
                    array_view_index(items@);
                }
                while i < n
                    invariant
                        n == items@.len(),
                        i <= n,
                        out@.len() == i,
                        forall|k: int|
                            0 <= k < i ==> value_view(#[trigger] out@[k]) == items@[k].view(),
                        self matches Json::Array(own) && own == items,
                    decreases n - i,
                {
                    let v = items[i].to_value();
                    out.push(v);
                    i = i + 1;
                }
                assert(out@.map_values(|v: serde_json::Value| value_view(v)) =~= array_view(
                    items@,
                ));
                join_value(Parts::Array(out))
            },
            Json::Object(entries) => {
                let n: usize = entries.len();
                let mut out: Vec<(String, serde_json::Value)> = Vec::new();
                let mut i: usize = 0;
                assert(entries@.take(0) =~= Seq::empty());
                while i < n
                    invariant
                        n == entries@.len(),
                        i <= n,
                        entries_view(out@) == object_view(entries@.take(i as int)),
                        self matches Json::Object(own) && own == entries,
                    decreases n - i,
                {
                    let ghost before = out@;
                    let entry = (entries[i].0.clone(), entries[i].1.to_value());
                    out.push(entry);
                    proof {
                        assert(before.push(entry).drop_last() =~= before);
                        assert(entries@.take(i + 1).drop_last() =~= entries@.take(i as int));
                    }
                    i = i + 1;
                }
                assert(entries@.take(n as int) =~= entries@);
                join_value(Parts::Object(out))
            },
        }
    }
}

// ---------------------------------------------------------------------------
// Text
// ---------------------------------------------------------------------------

/// What `serde_json::from_str` makes of a text: a value, or the text of its
/// error.
pub uninterp spec fn parsed(text: Seq<char>) -> Result<JsonView, Seq<char>>;

/// The compact text that `serde_json` writes for a value.
pub uninterp spec fn json_text(v: JsonView) -> Seq<char>;

/// The text that `serde_json` writes for a floating-point number.
pub uninterp spec fn float_text(n: serde_json::Number) -> Seq<char>;

/// Calls `serde_json::from_str`. Both the value and the text of the error are
/// functions of the text alone; they are named `parsed`.
#[verifier::external_body]
fn read_value(text: &str) -> (r: Result<serde_json::Value, String>)
    ensures
        match r {
            Ok(v) => parsed(text@) == Ok::<JsonView, Seq<char>>(value_view(v)),
            Err(e) => parsed(text@) == Err::<JsonView, Seq<char>>(e@),
        },
{
    serde_json::from_str(text).map_err(|e| e.to_string())
}

/// Calls `to_string` on a `serde_json::Value`, which writes compact JSON with an
/// object's keys in ascending order. The text depends on the value alone and is
/// named `json_text`. It is a single line: nothing is put between the tokens, and
/// a line break inside a string is escaped.
#[verifier::external_body]
fn write_value(v: &serde_json::Value) -> (r: String)
    ensures
        r@ == json_text(value_view(*v)),
        !r@.contains('\n'),
{
    v.to_string()
}

/// Calls `to_string` on a `serde_json::Number`. The text depends on the number
/// alone and is named `float_text`.
#[verifier::external_body]
fn write_number(n: &serde_json::Number) -> (r: String)
    ensures
        r@ == float_text(*n),
{
    n.to_string()
}

/// Reads one JSON value.
pub fn parse(text: &str) -> (r: Result<Json, String>)
    ensures
        match r {
            Ok(v) => parsed(text@) == Ok::<JsonView, Seq<char>>(v.view()),
            Err(e) => parsed(text@) == Err::<JsonView, Seq<char>>(e@),
        },
{
    match read_value(text) {
        Ok(v) => Ok(from_value(v)),
        Err(e) => Err(e),
    }
}

impl Json {
    /// The compact text of this value, on a single line.
    pub fn to_text(&self) -> (r: String)
        ensures
            r@ == json_text(self.view()),
            !r@.contains('\n'),
    {
        let v = self.to_value();
        write_value(&v)
    }
}

// ---------------------------------------------------------------------------
// Objects
// ---------------------------------------------------------------------------

/// The value of a key among the entries of an object.
pub fn get<'a>(entries: &'a Vec<(String, Json)>, key: &str) -> (r: Option<&'a Json>)
    ensures
        ref_view(r) == field_of(object_view(entries@), key@),
{
    let n: usize = entries.len();
    let mut i: usize = n;
    assert(entries@.take(n as int) =~= entries@);
    while i > 0
        invariant
            n == entries@.len(),
            i <= n,
            field_of(object_view(entries@.take(i as int)), key@) == field_of(
                object_view(entries@),
                key@,
            ),
        decreases i,
    {
        assert(entries@.take(i as int).drop_last() =~= entries@.take(i - 1));
        if same_text(entries[i - 1].0.as_str(), key) {
            return Some(&entries[i - 1].1);
        }
        i = i - 1;
    }
    None
}

/// Removes a key from the entries of an object and gives what it stood for.
pub fn take(entries: &mut Vec<(String, Json)>, key: &str) -> (r: Option<Json>)
    ensures
        opt_view(r) == field_of(object_view(old(entries)@), key@),
        object_view(final(entries)@) == object_view(old(entries)@).remove(key@),
{
    let ghost all = entries@;
    let mut held: Vec<(String, Json)> = Vec::new();
    std::mem::swap(&mut held, entries);
    let mut rest = reversed(held);
    let mut out: Vec<(String, Json)> = Vec::new();
    let mut found: Option<Json> = None;
    proof {
        assert(all.take(0) =~= Seq::empty());
        assert(object_view(out@) =~= object_view(all.take(0)).remove(key@));
    }
    while rest.len() > 0
        invariant
            rest@.len() <= all.len(),
            forall|k: int|
                0 <= k < rest@.len() ==> #[trigger] rest@[k] == all[all.len() - 1 - k],
            object_view(out@) == object_view(all.take(all.len() - rest@.len())).remove(key@),
            opt_view(found) == field_of(object_view(all.take(all.len() - rest@.len())), key@),
        decreases rest@.len(),
    {
        let ghost i = all.len() - rest@.len();
        let ghost before = out@;
        let entry = rest.pop().unwrap();
        proof {
            assert(entry == all[i]);
            assert(all.take(i + 1).drop_last() =~= all.take(i));
        }
        if same_text(entry.0.as_str(), key) {
            found = Some(entry.1);
            assert(object_view(all.take(i + 1)).remove(key@) =~= object_view(all.take(i)).remove(
                key@,
            ));
        } else {
            out.push(entry);
            proof {
                object_view_push(before, entry);
                assert(object_view(all.take(i + 1)).remove(key@) =~= object_view(
                    all.take(i),
                ).remove(key@).insert(entry.0@, entry.1.view()));
            }
        }
    }
    assert(all.take(all.len() as int) =~= all);
    *entries = out;
    found
}

/// Sets a key among the entries of an object.
pub fn put(entries: &mut Vec<(String, Json)>, key: &str, value: Json)
    ensures
        object_view(final(entries)@) == object_view(old(entries)@).insert(key@, value.view()),
{
    let ghost was = object_view(entries@);
    let _ = take(entries, key);
    let ghost before = entries@;
    let entry = (key.to_owned(), value);
    entries.push(entry);
    proof {
        object_view_push(before, entry);
        assert(was.remove(key@).insert(key@, value.view()) =~= was.insert(key@, value.view()));
    }
}

/// `m` with the fields of `more` that it does not have.
pub open spec fn filled(m: Fields, more: Fields) -> Fields {
    more.union_prefer_right(m)
}

/// Adds the fields of `more` whose keys the object does not have yet.
pub fn fill(entries: &mut Vec<(String, Json)>, more: &Vec<(String, Json)>)
    ensures
        object_view(final(entries)@) == filled(object_view(old(entries)@), object_view(more@)),
{
    let ghost start = object_view(entries@);
    let n: usize = more.len();
    let mut i: usize = n;
    // Walk backwards: of two entries with one key the last one counts.
    proof {
        assert(more@.take(n as int) =~= more@);
        assert(filled(start, object_view(more@)) =~= filled(
            object_view(entries@),
            object_view(more@.take(n as int)),
        ));
    }
    while i > 0
        invariant
            n == more@.len(),
            i <= n,
            filled(object_view(entries@), object_view(more@.take(i as int))) == filled(
                start,
                object_view(more@),
            ),
        decreases i,
    {
        let ghost cur = object_view(entries@);
        let key = more[i - 1].0.as_str();
        let ghost head = object_view(more@.take(i - 1));
        let ghost upto = object_view(more@.take(i as int));
        assert(more@.take(i as int).drop_last() =~= more@.take(i - 1));
        if get(entries, key).is_none() {
            put(entries, key, more[i - 1].1.clone());
        }
        assert(filled(object_view(entries@), head) =~= filled(cur, upto));
        i = i - 1;
    }
    assert(more@.take(0) =~= Seq::empty());
    assert(filled(object_view(entries@), Map::empty()) =~= object_view(entries@));
}

// ---------------------------------------------------------------------------
// Looking into a value
// ---------------------------------------------------------------------------

impl Json {
    /// The value of a field, where this is an object that has it.
    pub fn get(&self, key: &str) -> (r: Option<&Json>)
        ensures
            ref_view(r) == field(self.view(), key@),
    {
        match self {
            Json::Object(entries) => get(entries, key),
            _ => None,
        }
    }

    /// The text, where this is a string.
    pub fn as_str(&self) -> (r: Option<&str>)
        ensures
            match r {
                Some(s) => self.view() == JsonView::String(s@),
                None => !(self.view() is String),
            },
    {
        match self {
            Json::String(s) => Some(s.as_str()),
            _ => None,
        }
    }

    /// The integer, where this is one that a `u64` holds.
    pub fn as_u64(&self) -> (r: Option<u64>)
        ensures
            match r {
                Some(u) => self.view() == JsonView::Number(NumberView::Int(u as int)),
                None => !(self.view() matches JsonView::Number(NumberView::Int(i)) && 0 <= i
                    <= u64::MAX),
            },
    {
        match self {
            Json::Number(JsonNumber::Unsigned(u)) => Some(*u),
            Json::Number(JsonNumber::Signed(i)) => if *i >= 0 {
                Some(*i as u64)
            } else {
                None
            },
            _ => None,
        }
    }

    /// The integer, where this is one that an `i64` holds.
    pub fn as_i64(&self) -> (r: Option<i64>)
        ensures
            match r {
                Some(v) => self.view() == JsonView::Number(NumberView::Int(v as int)),
                None => !(self.view() matches JsonView::Number(NumberView::Int(i)) && i64::MIN <= i
                    <= i64::MAX),
            },
    {
        match self {
            Json::Number(JsonNumber::Unsigned(u)) => if *u <= 0x7fff_ffff_ffff_ffff {
                Some(*u as i64)
            } else {
                None
            },
            Json::Number(JsonNumber::Signed(i)) => Some(*i),
            _ => None,
        }
    }

    /// The value of a string field, where there is one.
    pub fn text_field(&self, key: &str) -> (r: Option<String>)
        ensures
            match r {
                Some(s) => as_text(field(self.view(), key@)) == Some(s@),
                None => as_text(field(self.view(), key@)) is None,
            },
    {
        match self.get(key) {
            Some(Json::String(s)) => Some(s.clone()),
            _ => None,
        }
    }
}

// ---------------------------------------------------------------------------
// Lists of values
// ---------------------------------------------------------------------------

/// The views of an optional list.
pub open spec fn opt_array(v: Option<Vec<Json>>) -> Option<Seq<JsonView>> {
    match v {
        Some(items) => Some(array_view(items@)),
        None => None,
    }
}

/// The same list once more.
pub fn clone_items(items: &Vec<Json>) -> (r: Vec<Json>)
    ensures
        array_view(r@) == array_view(items@),
{
    let n: usize = items.len();
    let mut out: Vec<Json> = Vec::new();
    let mut i: usize = 0;
    assert(items@.take(0) =~= Seq::empty());
    while i < n
        invariant
            n == items@.len(),
            i <= n,
            array_view(out@) == array_view(items@.take(i as int)),
        decreases n - i,
    {
        let ghost before = out@;
        let j = items[i].clone();
        out.push(j);
        proof {
            array_view_push(before, j);
            assert(items@.take(i + 1).drop_last() =~= items@.take(i as int));
        }
        i = i + 1;
    }
    assert(items@.take(n as int) =~= items@);
    out
}

/// The same optional list once more.
pub fn clone_opt_items(v: &Option<Vec<Json>>) -> (r: Option<Vec<Json>>)
    ensures
        opt_array(r) == opt_array(*v),
{
    match v {
        Some(items) => Some(clone_items(items)),
        None => None,
    }
}

// ---------------------------------------------------------------------------
// Floating-point numbers
// ---------------------------------------------------------------------------

/// The value that a text denotes as a floating-point number, without its
/// fraction and held to the range of `i64`.
pub fn float_text_as_integer(text: &str) -> (r: Option<i64>)
    ensures
        match float_reading(text@) {
            Some(f) => r == Some(f.0),
            None => r is None,
        },
{
    match read_float(text) {
        Some(f) => Some(f.0),
        None => None,
    }
}

/// The floating-point number that a text denotes, where it is finite.
pub fn float_text_as_number(text: &str) -> (r: Option<Json>)
    ensures
        match float_reading(text@) {
            Some((_, Some(n))) => opt_view(r) == Some(JsonView::Number(NumberView::Float(n))),
            _ => r is None,
        },
{
    match read_float(text) {
        Some((_, Some(number))) => Some(Json::Number(JsonNumber::Float(FloatNumber { number }))),
        _ => None,
    }
}

/// The floating-point number nearest to an integer.
pub fn integer_as_float(v: i128) -> (r: Json)
    ensures
        r.view() == JsonView::Number(NumberView::Float(nearest_float(v as int))),
{
    let number = float_near(v).unwrap();
    Json::Number(JsonNumber::Float(FloatNumber { number }))
}

impl FloatNumber {
    /// The number without its fraction, held to the range of `i64`.
    pub fn as_integer(&self) -> (r: i64)
        ensures
            r == float_trunc(self@),
    {
        proof {
            use_type_invariant(self);
        }
        truncated(&self.number).unwrap()
    }

    /// The text of the number.
    pub fn to_text(&self) -> (r: String)
        ensures
            r@ == float_text(self@),
    {
        write_number(&self.number)
    }
}

/// A field of a value is what its object holds under the key; a value of another
/// type has no fields, and neither reading invents one.
pub proof fn fields_are_those_of_the_map(m: Fields, key: Seq<char>, v: JsonView)
    ensures
        m.dom().contains(key) ==> field(JsonView::Object(m), key) == Some(m[key]),
        m.dom().contains(key) ==> field_of(m, key) == Some(m[key]),
        !m.dom().contains(key) ==> field(JsonView::Object(m), key) is None,
        !m.dom().contains(key) ==> field_of(m, key) is None,
        !(v is Object) ==> field(v, key) is None,
{
}

/// A value is viewed as what it is: each kind as its own, with what it holds.
pub proof fn values_are_viewed_as_they_are(
    b: bool,
    u: u64,
    i: i64,
    f: FloatNumber,
    s: String,
    items: Vec<Json>,
    entries: Vec<(String, Json)>,
)
    ensures
        Json::Null.view() == JsonView::Null,
        Json::Bool(b).view() == JsonView::Bool(b),
        Json::Number(JsonNumber::Unsigned(u)).view() == JsonView::Number(NumberView::Int(u as int)),
        Json::Number(JsonNumber::Signed(i)).view() == JsonView::Number(NumberView::Int(i as int)),
        Json::Number(JsonNumber::Float(f)).view() == JsonView::Number(NumberView::Float(f@)),
        Json::String(s).view() == JsonView::String(s@),
        Json::Array(items).view() matches JsonView::Array(vs) && vs.len() == items@.len(),
        Json::Object(entries).view() == JsonView::Object(object_view(entries@)),
{
    array_view_index(items@);
}

/// An object holds under a key what its last entry of that key holds, and nothing
/// under a key of which it has no entry.
pub proof fn the_last_entry_counts(entries: Seq<(String, Json)>, i: int, key: Seq<char>)
    requires
        forall|j: int| i < j && 0 <= j < entries.len() ==> (#[trigger] entries[j]).0@ != key,
    ensures
        0 <= i < entries.len() && entries[i].0@ == key ==> object_view(entries).dom().contains(key)
            && object_view(entries)[key] == entries[i].1.view(),
        i < 0 ==> !object_view(entries).dom().contains(key),
    decreases entries.len(),
{
    if entries.len() > 0 && i < entries.len() - 1 {
        let head = entries.drop_last();
        assert(entries[entries.len() - 1].0@ != key);
        assert forall|j: int| i < j && 0 <= j < head.len() implies (#[trigger] head[j]).0@ != key by {
            assert(head[j] == entries[j]);
        }
        the_last_entry_counts(head, i, key);
        if 0 <= i {
            assert(head[i] == entries[i]);
        }
    }
}

/// Filling keeps every field that is there, adds those that are missing, and no
/// other.
pub proof fn filling_adds_what_is_missing(m: Fields, more: Fields, key: Seq<char>)
    ensures
        m.dom().contains(key) ==> filled(m, more).dom().contains(key) && filled(m, more)[key]
            == m[key],
        !m.dom().contains(key) && more.dom().contains(key) ==> filled(m, more).dom().contains(key)
            && filled(m, more)[key] == more[key],
        !m.dom().contains(key) && !more.dom().contains(key) ==> !filled(m, more).dom().contains(key),
{
}

/// What is optional is there exactly where the value is, and is its view.
pub proof fn optional_values_are_kept(v: Json, items: Vec<Json>, s: Seq<char>, other: JsonView)
    ensures
        opt_view(Some(v)) == Some(v.view()),
        opt_view(None) is None,
        ref_view(Some(&v)) == Some(v.view()),
        ref_view(None) is None,
        opt_array(Some(items)) == Some(array_view(items@)),
        opt_array(None) is None,
        as_text(Some(JsonView::String(s))) == Some(s),
        !(other is String) ==> as_text(Some(other)) is None,
        as_text(None) is None,
{
}

} // verus!
