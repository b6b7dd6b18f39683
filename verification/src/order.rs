//! The order of strings, and sorting by it.

use vstd::multiset::*;
use vstd::prelude::*;
use vstd::relations::*;
use vstd::seq_lib::*;
use vstd::std_specs::iter::IteratorSpec;
use vstd::string::*;

verus! {

/// The lexicographic order of texts by character number.
pub open spec fn text_lt(a: Seq<char>, b: Seq<char>) -> bool
    decreases a.len(),
{
    if b.len() == 0 {
        false
    } else if a.len() == 0 {
        true
    } else if a[0] != b[0] {
        a[0] < b[0]
    } else {
        text_lt(a.drop_first(), b.drop_first())
    }
}

/// Whether no text of the list comes before an earlier one.
pub open spec fn sorted(s: Seq<Seq<char>>) -> bool {
    forall|i: int, j: int| 0 <= i < j < s.len() ==> !text_lt(#[trigger] s[j], #[trigger] s[i])
}

/// The texts of a list of strings.
pub open spec fn texts(v: Seq<String>) -> Seq<Seq<char>> {
    v.map_values(|s: String| s@)
}

/// No text comes before itself.
pub proof fn text_lt_irreflexive(a: Seq<char>)
    ensures
        !text_lt(a, a),
    decreases a.len(),
{
    if a.len() > 0 {
        text_lt_irreflexive(a.drop_first());
    }
}

/// Of two texts of which neither comes before the other, both are the same.
pub proof fn text_lt_total(a: Seq<char>, b: Seq<char>)
    ensures
        text_lt(a, b) || text_lt(b, a) || a == b,
    decreases a.len(),
{
    if a.len() > 0 && b.len() > 0 && a[0] == b[0] {
        text_lt_total(a.drop_first(), b.drop_first());
        if a.drop_first() == b.drop_first() {
            assert(a.drop_first().len() == b.drop_first().len());
            assert forall|i: int| 0 <= i < a.len() implies a[i] == b[i] by {
                if i > 0 {
                    assert(a.drop_first()[i - 1] == b.drop_first()[i - 1]);
                }
            }
            assert(a =~= b);
        }
    } else if a.len() == 0 && b.len() == 0 {
        assert(a =~= b);
    }
}

/// The order is transitive.
pub proof fn text_lt_transitive(a: Seq<char>, b: Seq<char>, c: Seq<char>)
    requires
        text_lt(a, b),
        text_lt(b, c),
    ensures
        text_lt(a, c),
    decreases a.len(),
{
    if a.len() > 0 && a[0] == b[0] && b[0] == c[0] {
        text_lt_transitive(a.drop_first(), b.drop_first(), c.drop_first());
    }
}

/// If `b` does not come before `a`, nor `c` before `b`, then `c` does not come
/// before `a`.
pub proof fn text_le_transitive(a: Seq<char>, b: Seq<char>, c: Seq<char>)
    requires
        !text_lt(b, a),
        !text_lt(c, b),
    ensures
        !text_lt(c, a),
{
    if text_lt(c, a) {
        text_lt_total(a, b);
        if a != b {
            text_lt_transitive(c, a, b);
        }
    }
}

/// Whether `a` comes before `b`.
pub fn before(a: &str, b: &str) -> (r: bool)
    ensures
        r == text_lt(a@, b@),
{
    let mut x = a.chars();
    let mut y = b.chars();
    loop
        invariant
            text_lt(x.remaining(), y.remaining()) == text_lt(a@, b@),
            x.decrease() is Some,
        decreases x.decrease()->0,
    {
        let p: Option<char> = x.next();
        let q: Option<char> = y.next();
        match (p, q) {
            (_, None) => {
                return false;
            },
            (None, Some(_)) => {
                return true;
            },
            (Some(c), Some(d)) => {
                if c != d {
                    return c < d;
                }
            },
        }
    }
}

/// Merges two sorted lists into one.
fn merge(a: &Vec<String>, b: &Vec<String>) -> (r: Vec<String>)
    requires
        sorted(texts(a@)),
        sorted(texts(b@)),
    ensures
        sorted(texts(r@)),
        texts(r@).to_multiset() == texts(a@).to_multiset().add(texts(b@).to_multiset()),
{
    let n: usize = a.len();
    let m: usize = b.len();
    let mut out: Vec<String> = Vec::new();
    let mut i: usize = 0;
    let mut j: usize = 0;
    let ghost ta = texts(a@);
    let ghost tb = texts(b@);
    proof {
        assert(texts(out@) =~= Seq::empty());
        assert(ta.take(0) =~= Seq::empty());
        assert(tb.take(0) =~= Seq::empty());
        assert(Seq::<Seq<char>>::empty().to_multiset().add(Seq::<Seq<char>>::empty().to_multiset())
            =~= Seq::<Seq<char>>::empty().to_multiset()) by {
            broadcast use group_to_multiset_ensures;
        }
    }
    while i < n || j < m
        invariant
            n == a@.len(),
            m == b@.len(),
            ta == texts(a@),
            tb == texts(b@),
            sorted(ta),
            sorted(tb),
            i <= n,
            j <= m,
            sorted(texts(out@)),
            texts(out@).to_multiset() == ta.take(i as int).to_multiset().add(
                tb.take(j as int).to_multiset(),
            ),
            forall|k: int, l: int|
                0 <= k < out@.len() && i <= l < n ==> !text_lt(
                    #[trigger] ta[l],
                    #[trigger] texts(out@)[k],
                ),
            forall|k: int, l: int|
                0 <= k < out@.len() && j <= l < m ==> !text_lt(
                    #[trigger] tb[l],
                    #[trigger] texts(out@)[k],
                ),
        decreases (n - i) + (m - j),
    {
        let ghost old_out = texts(out@);
        let left: bool = if i < n && j < m {
            !before(b[j].as_str(), a[i].as_str())
        } else {
            i < n
        };
        if left {
            assert forall|l: int| j <= l < m implies !text_lt(#[trigger] tb[l], ta[i as int]) by {
                if l > j {
                    text_le_transitive(ta[i as int], tb[j as int], tb[l]);
                }
            }
            out.push(a[i].clone());
            i = i + 1;
            proof {
                let x = ta[i - 1];
                assert(texts(out@) =~= old_out.push(x));
                assert(ta.take(i as int) =~= ta.take(i - 1).push(x));
                broadcast use group_to_multiset_ensures;
                assert(texts(out@).to_multiset() =~= ta.take(i as int).to_multiset().add(
                    tb.take(j as int).to_multiset(),
                ));
            }
        } else {
            assert forall|l: int| i <= l < n implies !text_lt(#[trigger] ta[l], tb[j as int]) by {
                text_lt_total(tb[j as int], ta[i as int]);
                text_lt_irreflexive(ta[i as int]);
                if text_lt(ta[i as int], tb[j as int]) {
                    text_lt_transitive(ta[i as int], tb[j as int], ta[i as int]);
                }
                if l > i {
                    text_le_transitive(tb[j as int], ta[i as int], ta[l]);
                }
            }
            out.push(b[j].clone());
            j = j + 1;
            proof {
                let x = tb[j - 1];
                assert(texts(out@) =~= old_out.push(x));
                assert(tb.take(j as int) =~= tb.take(j - 1).push(x));
                broadcast use group_to_multiset_ensures;
                assert(texts(out@).to_multiset() =~= ta.take(i as int).to_multiset().add(
                    tb.take(j as int).to_multiset(),
                ));
            }
        }
    }
    proof {
        assert(ta.take(n as int) =~= ta);
        assert(tb.take(m as int) =~= tb);
    }
    out
}

/// The strings of `v` from `lo` to `hi`, sorted.
fn sort_range(v: &Vec<String>, lo: usize, hi: usize) -> (r: Vec<String>)
    requires
        lo <= hi <= v@.len(),
    ensures
        sorted(texts(r@)),
        texts(r@).to_multiset() == texts(v@.subrange(lo as int, hi as int)).to_multiset(),
    decreases hi - lo,
{
    if hi - lo <= 1 {
        let mut out: Vec<String> = Vec::new();
        if lo < hi {
            out.push(v[lo].clone());
        }
        assert(texts(out@) =~= texts(v@.subrange(lo as int, hi as int)));
        out
    } else {
        let mid: usize = lo + (hi - lo) / 2;
        let a = sort_range(v, lo, mid);
        let b = sort_range(v, mid, hi);
        proof {
            let left = texts(v@.subrange(lo as int, mid as int));
            let right = texts(v@.subrange(mid as int, hi as int));
            assert(texts(v@.subrange(lo as int, hi as int)) =~= left + right);
            lemma_multiset_commutative(left, right);
        }
        merge(&a, &b)
    }
}

/// The strings of `v` in ascending order.
pub fn sort(v: &Vec<String>) -> (r: Vec<String>)
    ensures
        sorted(texts(r@)),
        texts(r@).to_multiset() == texts(v@).to_multiset(),
{
    assert(v@.subrange(0, v@.len() as int) =~= v@);
    sort_range(v, 0, v.len())
}

// ---------------------------------------------------------------------------
// Laws
// ---------------------------------------------------------------------------

/// A sorted list is determined by what it holds.
pub proof fn sorted_lists_are_unique(a: Seq<Seq<char>>, b: Seq<Seq<char>>)
    requires
        sorted(a),
        sorted(b),
        a.to_multiset() == b.to_multiset(),
    ensures
        a == b,
{
    let leq = |x: Seq<char>, y: Seq<char>| !text_lt(y, x);
    assert(total_ordering(leq)) by {
        assert forall|x: Seq<char>| #[trigger] leq(x, x) by {
            text_lt_irreflexive(x);
        }
        assert forall|x: Seq<char>, y: Seq<char>| #[trigger] leq(x, y) && #[trigger] leq(y, x)
            implies x == y by {
            text_lt_total(x, y);
        }
        assert forall|x: Seq<char>, y: Seq<char>, z: Seq<char>| #[trigger]
            leq(x, y) && #[trigger] leq(y, z) implies leq(x, z) by {
            text_le_transitive(x, y, z);
        }
        assert forall|x: Seq<char>, y: Seq<char>| #[trigger] leq(x, y) || #[trigger] leq(y, x) by {
            if text_lt(x, y) && text_lt(y, x) {
                text_lt_transitive(x, y, x);
                text_lt_irreflexive(x);
            }
        }
    }
    lemma_sorted_unique(a, b, leq);
}

/// Filtering a list filters what it holds.
pub proof fn filtering_contents(s: Seq<Seq<char>>, pred: spec_fn(Seq<char>) -> bool)
    ensures
        s.filter(pred).to_multiset() == s.to_multiset().filter(pred),
    decreases s.len(),
{
    broadcast use group_to_multiset_ensures;

    reveal(Seq::filter);
    if s.len() == 0 {
        assert(s.filter(pred) =~= s);
        assert(s.to_multiset() =~= Multiset::empty());
        assert(s.to_multiset().filter(pred) =~= Multiset::empty());
    } else {
        let head = s.drop_last();
        filtering_contents(head, pred);
        assert(s =~= head.push(s.last()));
        assert(s.filter(pred).to_multiset() =~= s.to_multiset().filter(pred));
    }
}

/// Texts are ordered by the first character in which they differ, and a text comes
/// before every longer one that begins with it.
pub proof fn first_difference_decides(p: Seq<char>, x: char, y: char, s: Seq<char>, t: Seq<char>)
    ensures
        x != y ==> text_lt(p + seq![x] + s, p + seq![y] + t) == (x < y),
        text_lt(p, p + seq![x] + s),
        !text_lt(p + seq![x] + s, p),
    decreases p.len(),
{
    let a = p + seq![x] + s;
    let b = p + seq![y] + t;
    if p.len() > 0 {
        let q = p.drop_first();
        first_difference_decides(q, x, y, s, t);
        assert(a.drop_first() =~= q + seq![x] + s);
        assert(b.drop_first() =~= q + seq![y] + t);
    }
}

/// The texts of strings are those of each one, in order.
pub proof fn texts_are_in_order(v: Seq<String>, i: int)
    ensures
        texts(v).len() == v.len(),
        0 <= i < v.len() ==> texts(v)[i] == v[i]@,
{
}

/// A list is sorted exactly if no text comes before one that stands in front of it.
pub proof fn sorted_lists_ascend(s: Seq<Seq<char>>, t: Seq<char>)
    ensures
        sorted(Seq::empty()),
        sorted(s.push(t)) <==> sorted(s) && forall|i: int|
            0 <= i < s.len() ==> !text_lt(t, #[trigger] s[i]),
{
    let more = s.push(t);
    if sorted(more) {
        assert forall|i: int, j: int| 0 <= i < j < s.len() implies !text_lt(
            #[trigger] s[j],
            #[trigger] s[i],
        ) by {
            assert(more[j] == s[j] && more[i] == s[i]);
        }
        assert forall|i: int| 0 <= i < s.len() implies !text_lt(t, #[trigger] s[i]) by {
            assert(more[s.len() as int] == t && more[i] == s[i]);
        }
    }
    if sorted(s) && forall|i: int| 0 <= i < s.len() ==> !text_lt(t, #[trigger] s[i]) {
        assert forall|i: int, j: int| 0 <= i < j < more.len() implies !text_lt(
            #[trigger] more[j],
            #[trigger] more[i],
        ) by {
            assert(more[i] == s[i]);
            if j < s.len() {
                assert(more[j] == s[j]);
            }
        }
    }
}

} // verus!
