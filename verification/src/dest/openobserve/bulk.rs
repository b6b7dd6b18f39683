//! Build NDJSON `_bulk` payloads from routed documents.
//!
//! With `options.max_batch_bytes` unset, all documents go into a single payload.
//! When set, the output is split so each payload stays under the cap (a single
//! oversized document still goes out alone).

use crate::dest::openobserve::config::OpenObserveOptions;
use crate::dest::openobserve::types;
use crate::dest::openobserve::types::{BulkChunk, RoutedDoc, RoutedView};
use crate::json;
use crate::text;
use vstd::prelude::*;
use vstd::utf8::*;

verus! {

/// The action and body lines for one routed document. The stream name goes in
/// the action's _index.
pub open spec fn doc_lines(d: RoutedView) -> Seq<char> {
    "{\"index\":{\"_index\":\""@ + d.stream + "\"}}\n"@ + json::json_text(d.doc.body) + "\n"@
}

/// The lines of a list of documents.
pub open spec fn body_of(docs: Seq<RoutedView>) -> Seq<char>
    decreases docs.len(),
{
    if docs.len() == 0 {
        Seq::empty()
    } else {
        body_of(docs.drop_last()) + doc_lines(docs.last())
    }
}

/// The number of bytes of a text.
pub open spec fn byte_len(s: Seq<char>) -> int {
    encode_utf8(s).len() as int
}

/// The groups that a list of documents is sent in: a document joins the group
/// before it unless that would push the group over the cap.
pub open spec fn capped(docs: Seq<RoutedView>, max: int) -> Seq<Seq<RoutedView>>
    decreases docs.len(),
{
    if docs.len() == 0 {
        Seq::empty()
    } else {
        let groups = capped(docs.drop_last(), max);
        let d = docs.last();
        if groups.len() > 0 && byte_len(body_of(groups.last())) + byte_len(doc_lines(d)) <= max {
            groups.drop_last().push(groups.last().push(d))
        } else {
            groups.push(seq![d])
        }
    }
}

/// The groups of a batch: none for an empty one, one without a cap.
pub open spec fn grouped(docs: Seq<RoutedView>, max: Option<usize>) -> Seq<Seq<RoutedView>> {
    if docs.len() == 0 {
        Seq::empty()
    } else {
        match max {
            None => seq![docs],
            Some(m) => capped(docs, m as int),
        }
    }
}

/// Whether chunks carry the given groups, each with its lines as the body.
pub open spec fn carry(chunks: Seq<BulkChunk>, groups: Seq<Seq<RoutedView>>) -> bool {
    &&& chunks.len() == groups.len()
    &&& forall|i: int|
        0 <= i < chunks.len() ==> types::routed_view((#[trigger] chunks[i]).docs@) == groups[i]
            && chunks[i].body@ == body_of(groups[i])
}

/// Render the action and body lines for one routed document.
fn lines_for(routed: &RoutedDoc) -> (r: String)
    ensures
        r@ == doc_lines(routed@),
{
    let mut s = text::join3("{\"index\":{\"_index\":\"", routed.stream.as_str(), "\"}}\n");
    let body = routed.doc.body.to_text();
    text::append_text(&mut s, body.as_str());
    text::append_text(&mut s, "\n");
    s
}

/// Every document in a single payload.
fn single_chunk(docs: Vec<RoutedDoc>) -> (r: BulkChunk)
    ensures
        r.docs@ == docs@,
        r.body@ == body_of(types::routed_view(docs@)),
{
    let ghost all = types::routed_view(docs@);
    let n: usize = docs.len();
    let mut body = String::new();
    let mut i: usize = 0;
    assert(body@ =~= body_of(all.take(0)));
    while i < n
        invariant
            n == docs@.len(),
            i <= n,
            all == types::routed_view(docs@),
            body@ == body_of(all.take(i as int)),
        decreases n - i,
    {
        let lines = lines_for(&docs[i]);
        text::append_text(&mut body, lines.as_str());
        i = i + 1;
        assert(all.take(i as int).drop_last() =~= all.take(i - 1));
    }
    assert(all.take(n as int) =~= all);
    BulkChunk { body, docs }
}

/// Whether `a` and `b` bytes together exceed `max`.
fn exceeds(a: usize, b: usize, max: usize) -> (r: bool)
    ensures
        r == (a + b > max),
{
    b > max || a > max - b
}

/// Split documents into payloads that each stay under `max` bytes. If a single
/// document's lines exceed `max` it still goes out alone rather than being
/// dropped or looping forever.
fn capped_chunks(docs: Vec<RoutedDoc>, max: usize) -> (r: Vec<BulkChunk>)
    ensures
        carry(r@, capped(types::routed_view(docs@), max as int)),
{
    let ghost all = types::routed_view(docs@);
    let ghost given = docs@;
    let mut rest = json::reversed(docs);
    let mut chunks: Vec<BulkChunk> = Vec::new();
    let mut body = String::new();
    let mut batch: Vec<RoutedDoc> = Vec::new();
    proof {
        assert(all.take(0) =~= Seq::empty());
        assert(body@ =~= body_of(types::routed_view(batch@)));
    }
    while rest.len() > 0
        invariant
            rest@.len() <= given.len(),
            all == types::routed_view(given),
            forall|k: int|
                0 <= k < rest@.len() ==> #[trigger] rest@[k] == given[given.len() - 1 - k],
            body@ == body_of(types::routed_view(batch@)),
            ({
                let groups = capped(all.take(given.len() - rest@.len()), max as int);
                if batch@.len() == 0 {
                    groups.len() == 0 && chunks@.len() == 0
                } else {
                    groups.len() > 0 && groups.last() == types::routed_view(batch@) && carry(
                        chunks@,
                        groups.drop_last(),
                    )
                }
            }),
        decreases rest@.len(),
    {
        let ghost i = given.len() - rest@.len();
        let routed = rest.pop().unwrap();
        let lines = lines_for(&routed);
        let ghost groups = capped(all.take(i), max as int);
        proof {
            assert(routed == given[i]);
            assert(all[i] == routed@);
            assert(all.take(i + 1).drop_last() =~= all.take(i));
            assert(all.take(i + 1).last() == routed@);
        }
        // Start a new chunk before a doc that would push the current one over
        // the cap, but only if the current chunk already carries something.
        if batch.len() > 0 && exceeds(
            body.as_str().as_bytes().len(),
            lines.as_str().as_bytes().len(),
            max,
        ) {
            let ghost sent = chunks@;
            let ghost ready = types::routed_view(batch@);
            let chunk = BulkChunk { body, docs: batch };
            chunks.push(chunk);
            body = String::new();
            batch = Vec::new();
            proof {
                assert(groups =~= groups.drop_last().push(groups.last()));
                assert(carry(chunks@, groups));
                assert(types::routed_view(batch@) =~= Seq::empty());
                assert(body@ =~= body_of(types::routed_view(batch@)));
            }
        }
        let ghost held = types::routed_view(batch@);
        text::append_text(&mut body, lines.as_str());
        batch.push(routed);
        proof {
            assert(types::routed_view(batch@) =~= held.push(routed@));
            assert(held.push(routed@).drop_last() =~= held);
            let next = capped(all.take(i + 1), max as int);
            if held.len() > 0 {
                assert(next == groups.drop_last().push(groups.last().push(routed@)));
                assert(next.drop_last() =~= groups.drop_last());
            } else {
                assert(next == groups.push(seq![routed@]));
                assert(held.push(routed@) =~= seq![routed@]);
                assert(next.drop_last() =~= groups);
            }
        }
    }
    assert(all.take(given.len() as int) =~= all);
    if batch.len() > 0 {
        let ghost groups = capped(all, max as int);
        let chunk = BulkChunk { body, docs: batch };
        chunks.push(chunk);
        assert(groups =~= groups.drop_last().push(groups.last()));
        assert(carry(chunks@, groups));
    }
    chunks
}

/// Serialize routed docs into one or more bulk payloads.
pub fn chunks(docs: Vec<RoutedDoc>, options: &OpenObserveOptions) -> (r: Vec<BulkChunk>)
    ensures
        carry(r@, grouped(types::routed_view(docs@), options.max_batch_bytes)),
{
    assert(types::routed_view(docs@).len() == docs@.len());
    if docs.len() == 0 {
        return Vec::new();
    }
    match options.max_batch_bytes {
        None => {
            let ghost all = types::routed_view(docs@);
            let chunk = single_chunk(docs);
            let out: Vec<BulkChunk> = vec![chunk];
            assert(carry(out@, seq![all]));
            out
        },
        Some(max) => capped_chunks(docs, max),
    }
}

// ---------------------------------------------------------------------------
// Laws
// ---------------------------------------------------------------------------

/// No document is lost, doubled or moved: the groups, one after the other, are
/// the batch.
pub proof fn groups_keep_every_document(docs: Seq<RoutedView>, max: Option<usize>)
    ensures
        grouped(docs, max).flatten() == docs,
{
    let groups = grouped(docs, max);
    groups.lemma_flatten_and_flatten_alt_are_equivalent();
    if docs.len() > 0 {
        match max {
            None => {
                groups.lemma_flatten_one_element();
            },
            Some(m) => {
                capped_keeps(docs, m as int);
            },
        }
    } else {
        assert(groups.flatten() =~= docs);
    }
}

proof fn capped_keeps(docs: Seq<RoutedView>, max: int)
    ensures
        capped(docs, max).flatten_alt() == docs,
    decreases docs.len(),
{
    if docs.len() == 0 {
        assert(capped(docs, max).flatten_alt() =~= docs);
    } else {
        let groups = capped(docs.drop_last(), max);
        let d = docs.last();
        capped_keeps(docs.drop_last(), max);
        assert(docs =~= docs.drop_last().push(d));
        if groups.len() > 0 && byte_len(body_of(groups.last())) + byte_len(doc_lines(d)) <= max {
            let next = groups.drop_last().push(groups.last().push(d));
            assert(next.drop_last() =~= groups.drop_last());
            assert(next.flatten_alt() =~= groups.flatten_alt().push(d));
        } else {
            let next = groups.push(seq![d]);
            assert(next.drop_last() =~= groups);
            assert(next.flatten_alt() =~= groups.flatten_alt().push(d));
        }
    }
}

/// Every group carries something and stays under the cap, unless it is a single
/// document that exceeds the cap by itself.
pub proof fn groups_stay_under_the_cap(docs: Seq<RoutedView>, max: int, i: int)
    requires
        0 <= i < capped(docs, max).len(),
    ensures
        capped(docs, max)[i].len() > 0,
        byte_len(body_of(capped(docs, max)[i])) <= max || capped(docs, max)[i].len() == 1,
    decreases docs.len(),
{
    let groups = capped(docs.drop_last(), max);
    let d = docs.last();
    if groups.len() > 0 && byte_len(body_of(groups.last())) + byte_len(doc_lines(d)) <= max {
        if i < groups.len() - 1 {
            groups_stay_under_the_cap(docs.drop_last(), max, i);
        } else {
            let g = groups.last().push(d);
            assert(g.drop_last() =~= groups.last());
            text::encoding_concatenates(body_of(groups.last()), doc_lines(d));
        }
    } else if i < groups.len() {
        groups_stay_under_the_cap(docs.drop_last(), max, i);
    }
}

/// The body of two lists of documents is the body of the first and then that of
/// the second. One document is its action line, which names the stream, and a line
/// with its body.
pub proof fn bodies_concatenate(a: Seq<RoutedView>, b: Seq<RoutedView>, d: RoutedView)
    ensures
        body_of(a + b) == body_of(a) + body_of(b),
        body_of(seq![d]) == "{\"index\":{\"_index\":\""@ + d.stream + "\"}}\n"@ + json::json_text(
            d.doc.body,
        ) + "\n"@,
        body_of(Seq::empty()).len() == 0,
    decreases b.len(),
{
    let one = seq![d];
    assert(one.drop_last() =~= Seq::<RoutedView>::empty());
    assert(body_of(one.drop_last()).len() == 0);
    assert(body_of(one) =~= doc_lines(d));
    if b.len() == 0 {
        assert(a + b =~= a);
        assert(body_of(a) + body_of(b) =~= body_of(a));
    } else {
        bodies_concatenate(a, b.drop_last(), d);
        assert((a + b).drop_last() =~= a + b.drop_last());
        assert(body_of(a + b) =~= body_of(a) + body_of(b));
    }
}

/// Where neither a stream nor the text of a body holds a line break, a payload has
/// two lines for each document, in order: the action line, which names the stream,
/// and the document's body. Behind the last one the text ends.
pub proof fn payloads_have_two_lines_each(docs: Seq<RoutedView>, i: int)
    requires
        forall|j: int|
            0 <= j < docs.len() ==> !(#[trigger] docs[j]).stream.contains('\n')
                && !json::json_text(docs[j].doc.body).contains('\n'),
    ensures
        text::split(body_of(docs), '\n').len() == 2 * docs.len() + 1,
        text::split(body_of(docs), '\n').last().len() == 0,
        0 <= i < docs.len() ==> {
            let lines = text::split(body_of(docs), '\n');
            &&& lines[2 * i] == "{\"index\":{\"_index\":\""@ + docs[i].stream + "\"}}"@
            &&& lines[2 * i + 1] == json::json_text(docs[i].doc.body)
        },
    decreases docs.len(),
{
    if docs.len() > 0 {
        let head = docs.drop_last();
        let d = docs.last();
        assert(d == docs[docs.len() - 1]);
        assert forall|j: int| 0 <= j < head.len() implies !(#[trigger] head[j]).stream.contains(
            '\n',
        ) && !json::json_text(head[j].doc.body).contains('\n') by {
            assert(head[j] == docs[j]);
        }
        payloads_have_two_lines_each(head, i);
        let before = body_of(head);
        let action = "{\"index\":{\"_index\":\""@ + d.stream + "\"}}"@;
        let body = json::json_text(d.doc.body);
        action_lines_hold_no_break(d.stream);
        let mid = before + action + seq!['\n'];
        assert(doc_lines(d) =~= action + seq!['\n'] + body + seq!['\n']);
        assert(before + doc_lines(d) =~= mid + body + seq!['\n']);
        text::split_after_line(before, action, '\n');
        text::split_after_line(mid, body, '\n');
        let pieces = text::split(before, '\n');
        let none = Seq::<char>::empty();
        assert(pieces.last() + action =~= action);
        let first = pieces.drop_last().push(action).push(none);
        assert(text::split(mid, '\n') == first);
        assert(first.drop_last() =~= pieces.drop_last().push(action));
        assert(none + body =~= body);
        assert(text::split(body_of(docs), '\n') == pieces.drop_last().push(action).push(body).push(
            none,
        ));
        if 0 <= i < head.len() {
            assert(head[i] == docs[i]);
        }
    } else {
        assert(text::split(body_of(docs), '\n') =~= seq![Seq::<char>::empty()]);
    }
}

proof fn action_lines_hold_no_break(stream: Seq<char>)
    requires
        !stream.contains('\n'),
    ensures
        !("{\"index\":{\"_index\":\""@ + stream + "\"}}"@).contains('\n'),
        "\"}}\n"@ == "\"}}"@ + seq!['\n'],
        "\n"@ == seq!['\n'],
{
    reveal_strlit("{\"index\":{\"_index\":\"");
    reveal_strlit("\"}}");
    reveal_strlit("\"}}\n");
    reveal_strlit("\n");
    assert("\"}}\n"@ =~= "\"}}"@ + seq!['\n']);
    assert("\n"@ =~= seq!['\n']);
    let front = "{\"index\":{\"_index\":\""@;
    let line = front + stream + "\"}}"@;
    if line.contains('\n') {
        let k = choose|k: int| 0 <= k < line.len() && line[k] == '\n';
        if k < front.len() {
            assert(front[k] == '\n');
        } else if k < front.len() + stream.len() {
            assert(stream[k - front.len()] == '\n');
        } else {
            assert("\"}}"@[k - front.len() - stream.len()] == '\n');
        }
    }
}

/// With a cap no group is empty, the body of each stays within so many bytes
/// unless the group is a single document, and no group is closed early: the first
/// document of the next one would have pushed it over the cap.
pub proof fn caps_are_kept_and_used(docs: Seq<RoutedView>, max: usize, i: int)
    requires
        0 <= i < grouped(docs, Some(max)).len(),
    ensures
        ({
            let groups = grouped(docs, Some(max));
            &&& groups[i].len() > 0
            &&& groups[i].len() == 1 || encode_utf8(body_of(groups[i])).len() <= max
            &&& i + 1 < groups.len() ==> encode_utf8(body_of(groups[i].push(groups[i + 1][0]))).len()
                > max
        }),
{
    groups_stay_under_the_cap(docs, max as int, i);
    if i + 1 < grouped(docs, Some(max)).len() {
        let g = capped(docs, max as int)[i];
        let d = capped(docs, max as int)[i + 1][0];
        groups_are_not_closed_early(docs, max as int, i);
        assert(g.push(d).drop_last() =~= g);
        text::encoding_concatenates(body_of(g), doc_lines(d));
    }
}

proof fn groups_are_not_closed_early(docs: Seq<RoutedView>, max: int, i: int)
    requires
        0 <= i < capped(docs, max).len() - 1,
    ensures
        capped(docs, max)[i + 1].len() > 0,
        byte_len(body_of(capped(docs, max)[i])) + byte_len(
            doc_lines(capped(docs, max)[i + 1][0]),
        ) > max,
    decreases docs.len(),
{
    let groups = capped(docs.drop_last(), max);
    if i + 1 < groups.len() {
        groups_are_not_closed_early(docs.drop_last(), max, i);
    }
}

/// Without a cap a batch is one group, and an empty batch is none.
pub proof fn uncapped_batches_go_together(docs: Seq<RoutedView>, max: Option<usize>)
    ensures
        docs.len() > 0 ==> grouped(docs, None).len() == 1 && grouped(docs, None)[0] == docs,
        docs.len() == 0 ==> grouped(docs, max).len() == 0,
{
}

/// Chunks carry the documents of their groups, every one with the body of just
/// those documents.
pub proof fn chunks_hold_their_documents(
    chunks: Seq<BulkChunk>,
    groups: Seq<Seq<RoutedView>>,
    i: int,
)
    requires
        carry(chunks, groups),
        0 <= i < chunks.len(),
    ensures
        chunks.len() == groups.len(),
        types::routed_view(chunks[i].docs@) == groups[i],
        chunks[i].body@ == body_of(types::routed_view(chunks[i].docs@)),
{
}

} // verus!
