use vstd::prelude::*;
use crate::search::{holds, search_lines};
use crate::text::{contains, lines_from, lines_of};

verus! {

/// `a` is `b` with some elements left out: each element of `a` is an
/// element of `b`, and they come in the order of `b`, each one taken once.
pub open spec fn is_subsequence(a: Seq<Seq<char>>, b: Seq<Seq<char>>) -> bool {
    exists|idx: Seq<int>| picks(a, b, idx)
}

/// `idx` gives, in increasing order, the place in `b` of each element of `a`.
pub open spec fn picks(a: Seq<Seq<char>>, b: Seq<Seq<char>>, idx: Seq<int>) -> bool {
    &&& idx.len() == a.len()
    &&& forall|k: int| 0 <= k < idx.len() ==> 0 <= #[trigger] idx[k] < b.len()
    &&& forall|j: int, k: int| 0 <= j < k < idx.len() ==> idx[j] < idx[k]
    &&& forall|k: int| 0 <= k < idx.len() ==> a[k] == b[#[trigger] idx[k]]
}

proof fn lemma_filter_is_subsequence(b: Seq<Seq<char>>, pred: spec_fn(Seq<char>) -> bool)
    ensures
        is_subsequence(b.filter(pred), b),
    decreases b.len(),
{
    reveal(Seq::filter);
    if b.len() == 0 {
        let idx: Seq<int> = seq![];
        assert(b.filter(pred).len() == 0);
        assert(picks(b.filter(pred), b, idx));
    } else {
        let rest = b.drop_last();
        lemma_filter_is_subsequence(rest, pred);
        let a0 = rest.filter(pred);
        let idx0 = choose|idx: Seq<int>| picks(a0, rest, idx);
        if pred(b.last()) {
            let idx = idx0.push(b.len() - 1);
            assert(b.filter(pred) == a0.push(b.last()));
            assert forall|k: int| 0 <= k < idx.len() implies b.filter(pred)[k] == b[
                #[trigger] idx[k]
            ] by {
                if k < idx0.len() {
                    assert(idx[k] == idx0[k]);
                }
            }
            assert forall|k: int| 0 <= k < idx.len() implies 0 <= #[trigger] idx[k] < b.len() by {
                if k < idx0.len() {
                    assert(idx[k] == idx0[k]);
                }
            }
            assert(picks(b.filter(pred), b, idx));
        } else {
            assert(b.filter(pred) == a0);
            assert forall|k: int| 0 <= k < idx0.len() implies b.filter(pred)[k] == b[
                #[trigger] idx0[k]
            ] by {
                assert(rest[idx0[k]] == b[idx0[k]]);
            }
            assert(picks(b.filter(pred), b, idx0));
        }
    }
}

/// The lines that a search returns are lines of the text, in the order of
/// the text, none taken twice.
pub proof fn search_is_subsequence_of_lines(q: Seq<char>, d: Seq<char>)
    ensures
        is_subsequence(search_lines(q, d), lines_of(d)),
{
    lemma_filter_is_subsequence(lines_of(d), holds(q));
}

proof fn lemma_filter_all(b: Seq<Seq<char>>, pred: spec_fn(Seq<char>) -> bool)
    requires
        forall|k: int| 0 <= k < b.len() ==> pred(#[trigger] b[k]),
    ensures
        b.filter(pred) == b,
    decreases b.len(),
{
    reveal(Seq::filter);
    if b.len() > 0 {
        let rest = b.drop_last();
        assert forall|k: int| 0 <= k < rest.len() implies pred(#[trigger] rest[k]) by {
            assert(rest[k] == b[k]);
        }
        lemma_filter_all(rest, pred);
        assert(pred(b[b.len() - 1]));
        assert(rest.push(b.last()) =~= b);
    }
}

/// When every line of the text holds the query, the search returns every
/// line, in order, none left out and none repeated.
pub proof fn search_all_lines_match(q: Seq<char>, d: Seq<char>)
    requires
        forall|k: int| 0 <= k < lines_of(d).len() ==> contains(#[trigger] lines_of(d)[k], q),
    ensures
        search_lines(q, d) == lines_of(d),
{
    lemma_filter_all(lines_of(d), holds(q));
}

/// The empty query is found in every line, so it returns all lines of the
/// text as they are, in order; none for the empty text.
pub proof fn search_empty_query(d: Seq<char>)
    ensures
        search_lines(Seq::empty(), d) == lines_of(d),
        d.len() == 0 ==> search_lines(Seq::empty(), d).len() == 0,
{
    let e: Seq<char> = Seq::empty();
    assert forall|k: int| 0 <= k < lines_of(d).len() implies contains(
        #[trigger] lines_of(d)[k],
        e,
    ) by {
        assert(lines_of(d)[k].subrange(0, 0 + e.len() as int) =~= e);
    }
    search_all_lines_match(e, d);
}

/// The empty text has no lines, so no query finds anything in it.
pub proof fn search_empty_text(q: Seq<char>)
    ensures
        search_lines(q, Seq::empty()) == Seq::<Seq<char>>::empty(),
{
    reveal(Seq::filter);
    assert(lines_of(Seq::empty()) == Seq::<Seq<char>>::empty());
}

/// The search reads nothing but the query and the text: two searches with
/// the same query in the same text give the same lines.
pub proof fn search_is_deterministic(q: Seq<char>, d: Seq<char>, r1: Seq<Seq<char>>, r2: Seq<Seq<char>>)
    requires
        r1 == search_lines(q, d),
        r2 == search_lines(q, d),
    ensures
        r1 == r2,
{
}

} // verus!
