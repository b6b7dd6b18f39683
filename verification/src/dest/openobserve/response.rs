//! Parse a successful `_bulk` response into accepted/rejected accounting.
//!
//! A response with `errors: true` lists one result per document under `items`,
//! in the order in which they were sent. Documents whose result is a failure are
//! rejected, with the reason it gives; all others are accepted.

use crate::dest::openobserve::types;
use crate::dest::openobserve::types::{
    BulkOutcome, RejectedDoc, RejectedView, RoutedDoc, RoutedView,
};
use crate::json;
use crate::json::{Json, JsonNumber, JsonView, NumberView};
use vstd::prelude::*;

verus! {

/// The results that a response lists, where it reports errors.
pub open spec fn results(body: Seq<char>) -> Seq<JsonView> {
    match json::parsed(body) {
        Ok(page) => if json::field(page, "errors"@) == Some(JsonView::Bool(true)) {
            match json::field(page, "items"@) {
                Some(JsonView::Array(items)) => items,
                _ => Seq::empty(),
            }
        } else {
            Seq::empty()
        },
        Err(_) => Seq::empty(),
    }
}

/// Why a result's action failed.
pub open spec fn reason(action: JsonView) -> Seq<char> {
    match json::field(action, "error"@) {
        Some(JsonView::String(s)) => s,
        Some(error) => match json::as_text(json::field(error, "reason"@)) {
            Some(s) => s,
            None => json::json_text(error),
        },
        None => "no reason given"@,
    }
}

/// Whether a result's action failed: its status is not a success, or it has no
/// status and an error.
pub open spec fn failed(action: JsonView) -> bool {
    match json::field(action, "status"@) {
        Some(JsonView::Number(NumberView::Int(s))) => !(200 <= s <= 299),
        _ => json::field(action, "error"@) is Some,
    }
}

/// The reason for which a document was refused, if it was.
pub open spec fn refusal(result: JsonView) -> Option<Seq<char>> {
    match json::field(result, "index"@) {
        Some(action) => if failed(action) {
            Some(reason(action))
        } else {
            None
        },
        None => None,
    }
}

/// The documents that were refused, in order. Results and documents correspond
/// by position.
pub open spec fn refused(items: Seq<JsonView>, docs: Seq<RoutedView>) -> Seq<RejectedView>
    decreases docs.len(),
{
    if docs.len() == 0 {
        Seq::empty()
    } else {
        let head = refused(items, docs.drop_last());
        let at = docs.len() - 1;
        if at < items.len() {
            match refusal(items[at]) {
                Some(r) => head.push(
                    RejectedView {
                        stream: docs.last().stream,
                        reason: r,
                        body: docs.last().doc.body,
                    },
                ),
                None => head,
            }
        } else {
            head
        }
    }
}

/// Why a result's action failed.
fn reason_of(action: &Json) -> (r: String)
    ensures
        r@ == reason(action.view()),
{
    match action.get("error") {
        Some(Json::String(s)) => s.clone(),
        Some(error) => match error.text_field("reason") {
            Some(s) => s,
            None => error.to_text(),
        },
        None => "no reason given".to_owned(),
    }
}

/// The reason for which a document was refused, if it was.
fn refusal_of(result: &Json) -> (r: Option<String>)
    ensures
        crate::text::opt_text(r) == refusal(result.view()),
{
    match result.get("index") {
        Some(action) => {
            let bad: bool = match action.get("status") {
                Some(Json::Number(JsonNumber::Unsigned(s))) => !(200 <= *s && *s <= 299),
                Some(Json::Number(JsonNumber::Signed(s))) => !(200 <= *s && *s <= 299),
                _ => action.get("error").is_some(),
            };
            if bad {
                Some(reason_of(action))
            } else {
                None
            }
        },
        None => None,
    }
}

/// Accounts the results of a response against the documents that were submitted.
pub fn account(items: &Vec<Json>, docs: &Vec<RoutedDoc>) -> (r: BulkOutcome)
    ensures
        types::rejected_view(r.rejected@) == refused(
            json::array_view(items@),
            types::routed_view(docs@),
        ),
        r.accounted() == docs@.len(),
{
    let ghost all = types::routed_view(docs@);
    let ghost results = json::array_view(items@);
    let n: usize = docs.len();
    let m: usize = items.len();
    let mut rejected: Vec<RejectedDoc> = Vec::new();
    let mut i: usize = 0;
    proof {
        json::array_view_index(items@);
        assert(types::rejected_view(rejected@) =~= refused(results, all.take(0)));
    }
    while i < n
        invariant
            n == docs@.len(),
            m == items@.len(),
            i <= n,
            all == types::routed_view(docs@),
            results == json::array_view(items@),
            results.len() == m,
            forall|k: int| 0 <= k < m ==> #[trigger] results[k] == items@[k].view(),
            rejected@.len() <= i,
            types::rejected_view(rejected@) == refused(results, all.take(i as int)),
        decreases n - i,
    {
        let ghost before = rejected@;
        proof {
            assert(all.take(i + 1).drop_last() =~= all.take(i as int));
            assert(all.take(i + 1).last() == docs@[i as int]@);
        }
        if i < m {
            if let Some(reason) = refusal_of(&items[i]) {
                let d = RejectedDoc {
                    stream: docs[i].stream.clone(),
                    reason,
                    body: docs[i].doc.body.clone(),
                };
                rejected.push(d);
                assert(types::rejected_view(rejected@) =~= types::rejected_view(before).push(d@));
            }
        }
        i = i + 1;
    }
    assert(all.take(n as int) =~= all);
    BulkOutcome { accepted: n - rejected.len(), rejected }
}

/// Account a 2xx bulk response against the documents that were submitted.
pub fn parse(body: &str, docs: &Vec<RoutedDoc>) -> (r: BulkOutcome)
    ensures
        types::rejected_view(r.rejected@) == refused(results(body@), types::routed_view(docs@)),
        r.accounted() == docs@.len(),
{
    let none: Vec<Json> = Vec::new();
    assert(json::array_view(none@) =~= Seq::empty());
    match json::parse(body) {
        Ok(page) => {
            let errors: bool = match page.get("errors") {
                Some(Json::Bool(b)) => *b,
                _ => false,
            };
            if errors {
                match page.get("items") {
                    Some(Json::Array(items)) => account(items, docs),
                    _ => account(&none, docs),
                }
            } else {
                account(&none, docs)
            }
        },
        Err(_) => account(&none, docs),
    }
}

// ---------------------------------------------------------------------------
// Laws
// ---------------------------------------------------------------------------

/// Without results nothing is refused: every document counts as accepted.
pub proof fn no_results_refuse_nothing(docs: Seq<RoutedView>)
    ensures
        refused(Seq::empty(), docs) == Seq::<RejectedView>::empty(),
    decreases docs.len(),
{
    if docs.len() > 0 {
        no_results_refuse_nothing(docs.drop_last());
    }
}

/// Every refused document is reported: a failed result at some position puts the
/// document of that position, with its reason, among the refused ones.
pub proof fn failures_are_reported(items: Seq<JsonView>, docs: Seq<RoutedView>, i: int)
    requires
        0 <= i < docs.len(),
        i < items.len(),
        refusal(items[i]) is Some,
    ensures
        refused(items, docs).contains(
            RejectedView {
                stream: docs[i].stream,
                reason: refusal(items[i])->0,
                body: docs[i].doc.body,
            },
        ),
    decreases docs.len(),
{
    let r = RejectedView {
        stream: docs[i].stream,
        reason: refusal(items[i])->0,
        body: docs[i].doc.body,
    };
    let all = refused(items, docs);
    let head = refused(items, docs.drop_last());
    if i == docs.len() - 1 {
        assert(all[all.len() - 1] == r);
    } else {
        failures_are_reported(items, docs.drop_last(), i);
        let k = choose|k: int| 0 <= k < head.len() && head[k] == r;
        assert(all[k] == r);
    }
}

/// Results go with documents by position: where the first results are those of the
/// first documents, the refused documents are those refused by the first results
/// and then those refused by the others. Documents without a result are not
/// refused.
pub proof fn results_go_by_position(
    x: Seq<JsonView>,
    y: Seq<JsonView>,
    a: Seq<RoutedView>,
    b: Seq<RoutedView>,
)
    requires
        x.len() == a.len(),
    ensures
        refused(x + y, a + b) == refused(x, a) + refused(y, b),
        refused(x, a + b) == refused(x, a),
    decreases b.len(),
{
    if b.len() == 0 {
        assert(a + b =~= a);
        more_results_do_not_matter(x, y, a);
        assert(refused(x, a) + refused(y, b) =~= refused(x, a));
    } else {
        results_go_by_position(x, y, a, b.drop_last());
        assert((a + b).drop_last() =~= a + b.drop_last());
        let at = b.len() - 1;
        if at < y.len() {
            assert((x + y)[a.len() + at] == y[at]);
        }
        assert(refused(x + y, a + b) =~= refused(x, a) + refused(y, b));
    }
}

proof fn more_results_do_not_matter(x: Seq<JsonView>, y: Seq<JsonView>, a: Seq<RoutedView>)
    requires
        a.len() <= x.len(),
    ensures
        refused(x + y, a) == refused(x, a),
    decreases a.len(),
{
    if a.len() > 0 {
        more_results_do_not_matter(x, y, a.drop_last());
        assert((x + y)[a.len() - 1] == x[a.len() - 1]);
    }
}

/// One document with its result is refused exactly if the result gives a reason,
/// and is then reported with its stream, that reason and its body.
pub proof fn one_result_refuses_one_document(result: JsonView, d: RoutedView)
    ensures
        refusal(result) is None ==> refused(seq![result], seq![d]).len() == 0,
        refusal(result) matches Some(why) ==> {
            let r = refused(seq![result], seq![d]);
            &&& r.len() == 1
            &&& r[0].stream == d.stream
            &&& r[0].reason == why
            &&& r[0].body == d.doc.body
        },
{
    let docs = seq![d];
    assert(docs.drop_last() =~= Seq::<RoutedView>::empty());
    assert(refused(seq![result], docs.drop_last()).len() == 0);
}

/// A status decides whether a document was refused: it was unless the status is a
/// success, error or not. Without a status an error decides. A result of another
/// action refuses nothing.
pub proof fn statuses_decide(result: JsonView, action: JsonView, s: int)
    ensures
        json::field(result, "index"@) is None ==> refusal(result) is None,
        json::field(result, "index"@) == Some(action) && json::field(action, "status"@) == Some(
            JsonView::Number(NumberView::Int(s)),
        ) ==> (refusal(result) is None <==> s / 100 == 2),
        json::field(result, "index"@) == Some(action) && !(json::field(action, "status"@) matches Some(
            JsonView::Number(NumberView::Int(_)),
        )) ==> (refusal(result) is Some <==> json::field(action, "error"@) is Some),
{
}

/// The reason of a refusal is the error where it is a text, the reason inside it
/// where it has one, and else its JSON text. Without an error none is given.
pub proof fn reasons_are_told(result: JsonView, action: JsonView, error: JsonView, why: Seq<char>)
    requires
        json::field(result, "index"@) == Some(action),
        refusal(result) is Some,
    ensures
        json::field(action, "error"@) == Some(JsonView::String(why)) ==> refusal(result) == Some(why),
        json::field(action, "error"@) == Some(error) && json::field(error, "reason"@) == Some(
            JsonView::String(why),
        ) ==> refusal(result) == Some(why),
        json::field(action, "error"@) == Some(error) && !(error is String) && !(json::field(
            error,
            "reason"@,
        ) matches Some(JsonView::String(_))) ==> refusal(result) == Some(json::json_text(error)),
        json::field(action, "error"@) is None ==> refusal(result) == Some("no reason given"@),
{
}

/// The results of a response are its `items`, where it is JSON that reports errors;
/// any other response lists none.
pub proof fn results_are_the_items(body: Seq<char>, page: JsonView, items: Seq<JsonView>)
    ensures
        json::parsed(body) is Err ==> results(body).len() == 0,
        json::parsed(body) == Ok::<JsonView, Seq<char>>(page) ==> {
            &&& json::field(page, "errors"@) == Some(JsonView::Bool(true)) && json::field(
                page,
                "items"@,
            ) == Some(JsonView::Array(items)) ==> results(body) == items
            &&& json::field(page, "errors"@) != Some(JsonView::Bool(true)) ==> results(body).len()
                == 0
            &&& !(json::field(page, "items"@) matches Some(JsonView::Array(_))) ==> results(
                body,
            ).len() == 0
        },
{
}

} // verus!
