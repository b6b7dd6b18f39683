//! Persist rejected documents for later inspection or replay.
//!
//! When `options.dead_letter_path` is set, each rejected document is appended
//! to that file as one NDJSON line. When it is `None`, rejects are dropped here.

use crate::dest::ndjson;
use crate::dest::openobserve::config::OpenObserveOptions;
use crate::dest::openobserve::types;
use crate::dest::openobserve::types::{RejectedDoc, RejectedView};
use crate::json;
use crate::json::{Json, JsonView};
use crate::text;
use vstd::prelude::*;

verus! {

/// A rejected document as a JSON value.
pub open spec fn letter(r: RejectedView) -> JsonView {
    JsonView::Object(
        Map::<Seq<char>, JsonView>::empty().insert("stream"@, JsonView::String(r.stream)).insert(
            "reason"@,
            JsonView::String(r.reason),
        ).insert("body"@, r.body),
    )
}

/// The rejected documents as JSON values.
pub open spec fn letters(rs: Seq<RejectedView>) -> Seq<JsonView> {
    rs.map_values(|r: RejectedView| letter(r))
}

/// What is to be appended, and to which file.
pub struct DeadLetter {
    pub path: String,
    pub text: String,
}

/// Whether a dead letter holds the given documents, for the given file.
pub open spec fn holds(d: DeadLetter, path: Seq<char>, rejected: Seq<RejectedView>) -> bool {
    d.path@ == path && d.text@ == ndjson::lines(letters(rejected))
}

/// What the dead-letter sink is to be given, if one is configured.
pub fn write(options: &OpenObserveOptions, rejected: &Vec<RejectedDoc>) -> (r: Option<DeadLetter>)
    ensures
        match options.dead_letter_path {
            Some(path) => r matches Some(d) && holds(d, path@, types::rejected_view(rejected@)),
            None => r is None,
        },
{
    match &options.dead_letter_path {
        Some(path) => {
            let ghost all = letters(types::rejected_view(rejected@));
            let n: usize = rejected.len();
            let mut out = String::new();
            let mut i: usize = 0;
            assert(out@ =~= ndjson::lines(all.take(0)));
            while i < n
                invariant
                    n == rejected@.len(),
                    i <= n,
                    all == letters(types::rejected_view(rejected@)),
                    out@ == ndjson::lines(all.take(i as int)),
                decreases n - i,
            {
                let mut e: Vec<(String, Json)> = Vec::new();
                json::put(&mut e, "stream", Json::String(rejected[i].stream.clone()));
                json::put(&mut e, "reason", Json::String(rejected[i].reason.clone()));
                json::put(&mut e, "body", rejected[i].body.clone());
                ndjson::append_line(&mut out, &Json::Object(e));
                i = i + 1;
                assert(all.take(i as int).drop_last() =~= all.take(i - 1));
                assert(all[i - 1] == letter(rejected@[i - 1]@));
            }
            assert(all.take(n as int) =~= all);
            Some(DeadLetter { path: path.clone(), text: out })
        },
        None => None,
    }
}

/// A dead letter holds the stream, the reason and the body of a refused document,
/// each under its own key, and nothing else.
pub proof fn letters_hold_the_document(r: RejectedView, key: Seq<char>)
    ensures
        letter(r) matches JsonView::Object(m) && {
            &&& m.dom().contains(key) <==> key == "stream"@ || key == "reason"@ || key == "body"@
            &&& m["stream"@] == JsonView::String(r.stream)
            &&& m["reason"@] == JsonView::String(r.reason)
            &&& m["body"@] == r.body
        },
{
    reveal_strlit("stream");
    reveal_strlit("reason");
    reveal_strlit("body");
    assert("stream"@[0] == 's' && "reason"@[0] == 'r' && "body"@[0] == 'b');
}

/// What is appended to the file has one line for each refused document, in order:
/// its letter as JSON, where that holds no line break.
pub proof fn every_refusal_is_a_line(
    d: DeadLetter,
    path: Seq<char>,
    rejected: Seq<RejectedView>,
    i: int,
)
    requires
        holds(d, path, rejected),
        forall|j: int|
            0 <= j < rejected.len() ==> !json::json_text(letter(#[trigger] rejected[j])).contains(
                '\n',
            ),
        0 <= i < rejected.len(),
    ensures
        d.path@ == path,
        text::split(d.text@, '\n').len() == rejected.len() + 1,
        text::split(d.text@, '\n')[i] == json::json_text(letter(rejected[i])),
        text::split(d.text@, '\n').last().len() == 0,
{
    let all = letters(rejected);
    assert forall|j: int| 0 <= j < all.len() implies !json::json_text(#[trigger] all[j]).contains(
        '\n',
    ) by {
        assert(all[j] == letter(rejected[j]));
    }
    ndjson::lines_split_back(all);
}

} // verus!
