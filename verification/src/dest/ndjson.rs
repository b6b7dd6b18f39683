//! Newline-delimited JSON: one value per line.

use crate::json;
use crate::json::{Json, JsonView};
use crate::text;
use crate::{Document, DocumentView};
use vstd::prelude::*;

verus! {

/// The lines of a list of values, each with a line break behind it.
pub open spec fn lines(values: Seq<JsonView>) -> Seq<char>
    decreases values.len(),
{
    if values.len() == 0 {
        Seq::empty()
    } else {
        lines(values.drop_last()) + json::json_text(values.last()) + seq!['\n']
    }
}

/// The bodies of a list of documents.
pub open spec fn bodies(docs: Seq<DocumentView>) -> Seq<JsonView> {
    docs.map_values(|d: DocumentView| d.body)
}

/// Appends the line of one value.
pub fn append_line(out: &mut String, value: &Json)
    ensures
        final(out)@ == old(out)@ + json::json_text(value.view()) + seq!['\n'],
{
    let line = value.to_text();
    text::append_text(out, line.as_str());
    let ghost before = out@;
    out.push('\n');
    assert(out@ =~= before + seq!['\n']);
}

/// The bodies of a batch as NDJSON: one line per document.
pub fn batch_lines(docs: &Vec<Document>) -> (r: String)
    ensures
        r@ == lines(bodies(crate::documents(docs@))),
{
    let ghost all = bodies(crate::documents(docs@));
    let n: usize = docs.len();
    let mut out = String::new();
    let mut i: usize = 0;
    assert(out@ =~= lines(all.take(0)));
    while i < n
        invariant
            n == docs@.len(),
            i <= n,
            all == bodies(crate::documents(docs@)),
            out@ == lines(all.take(i as int)),
        decreases n - i,
    {
        append_line(&mut out, &docs[i].body);
        i = i + 1;
        assert(all.take(i as int).drop_last() =~= all.take(i - 1));
    }
    assert(all.take(n as int) =~= all);
    out
}

/// Splitting the lines of a list of values at the line breaks gives back the
/// text of each value, in order, and an empty rest.
pub proof fn lines_split_back(values: Seq<JsonView>)
    requires
        forall|i: int|
            0 <= i < values.len() ==> !json::json_text(#[trigger] values[i]).contains('\n'),
    ensures
        text::split(lines(values), '\n') == values.map_values(
            |v: JsonView| json::json_text(v),
        ).push(Seq::empty()),
    decreases values.len(),
{
    let texts = values.map_values(|v: JsonView| json::json_text(v));
    if values.len() == 0 {
        assert(text::split(lines(values), '\n') =~= texts.push(Seq::empty()));
    } else {
        let head = values.drop_last();
        assert forall|i: int| 0 <= i < head.len() implies !json::json_text(
            #[trigger] head[i],
        ).contains('\n') by {
            assert(head[i] == values[i]);
        }
        lines_split_back(head);
        let line = json::json_text(values.last());
        assert(!json::json_text(values[values.len() - 1]).contains('\n'));
        text::split_after_line(lines(head), line, '\n');
        let before = text::split(lines(head), '\n');
        assert(before.last() + line =~= line);
        assert(text::split(lines(values), '\n') =~= texts.push(Seq::empty()));
    }
}

/// The bodies of documents are those of each one, in order.
pub proof fn bodies_are_in_order(docs: Seq<DocumentView>, i: int)
    requires
        0 <= i < docs.len(),
    ensures
        bodies(docs).len() == docs.len(),
        bodies(docs)[i] == docs[i].body,
{
}

/// The lines of two lists are those of the first and then those of the second, and
/// the line of one value is its JSON text with a line break behind it.
pub proof fn lines_concatenate(a: Seq<JsonView>, b: Seq<JsonView>, v: JsonView)
    ensures
        lines(a + b) == lines(a) + lines(b),
        lines(seq![v]) == json::json_text(v) + seq!['\n'],
        lines(Seq::empty()).len() == 0,
    decreases b.len(),
{
    let one = seq![v];
    assert(one.drop_last() =~= Seq::<JsonView>::empty());
    assert(lines(one.drop_last()).len() == 0);
    assert(lines(one) =~= json::json_text(v) + seq!['\n']);
    if b.len() == 0 {
        assert(a + b =~= a);
        assert(lines(a) + lines(b) =~= lines(a));
    } else {
        lines_concatenate(a, b.drop_last(), v);
        assert((a + b).drop_last() =~= a + b.drop_last());
        assert(lines(a + b) =~= lines(a) + lines(b));
    }
}

} // verus!
