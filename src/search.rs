use vstd::prelude::*;
use vstd::string::StrSliceExecFns;
use crate::text::{chars_of, contains, contains_in, lines_from, lines_of, strip_cr};

verus! {

/// The texts of a sequence of string slices.
pub open spec fn texts(v: Seq<&str>) -> Seq<Seq<char>> {
    v.map_values(|l: &str| l@)
}

/// The test that a line holds `q`.
pub open spec fn holds(q: Seq<char>) -> spec_fn(Seq<char>) -> bool {
    |l: Seq<char>| contains(l, q)
}

/// The lines of the text `d` that hold `q`, in the order of the text.
pub open spec fn search_lines(q: Seq<char>, d: Seq<char>) -> Seq<Seq<char>> {
    lines_of(d).filter(holds(q))
}

/// Appends the part `contents[start..end]` to `r` when it holds `q`;
/// `d` holds the characters of `contents`.
fn keep_if_holds<'a>(
    contents: &'a str,
    d: &Vec<char>,
    start: usize,
    end: usize,
    q: &Vec<char>,
    r: &mut Vec<&'a str>,
)
    requires
        d@ == contents@,
        start <= end <= d@.len(),
    ensures
        texts(final(r)@) == if contains(d@.subrange(start as int, end as int), q@) {
            texts(old(r)@).push(d@.subrange(start as int, end as int))
        } else {
            texts(old(r)@)
        },
{
    if contains_in(d, start, end, q) {
        let ghost before = texts(r@);
        let line = contents.substring_char(start, end);
        r.push(line);
        assert(texts(r@) =~= before.push(line@));
    }
}

/// The text of each line of `contents` that holds `query`, in order.
pub fn search<'a>(query: &str, contents: &'a str) -> (r: Vec<&'a str>)
    ensures
        texts(r@) == search_lines(query@, contents@),
{
    let q = chars_of(query);
    let d = chars_of(contents);
    let ghost pred = holds(q@);
    let mut r: Vec<&'a str> = Vec::new();
    let ghost mut done: Seq<Seq<char>> = seq![];
    let mut start: usize = 0;
    let mut i: usize = 0;
    while i < d.len()
        invariant
            start <= i <= d@.len(),
            q@ == query@,
            pred == holds(q@),
            d@ == contents@,
            lines_of(d@) == done + lines_from(d@, start as int, i as int),
            texts(r@) == done.filter(pred),
        decreases d@.len() - i,
    {
        if d[i] == '\n' {
            let end: usize = if i > start && d[i - 1] == '\r' { i - 1 } else { i };
            assert(strip_cr(d@.subrange(start as int, i as int)) =~= d@.subrange(start as int, end as int));
            proof {
                done.lemma_filter_push(d@.subrange(start as int, end as int), pred);
            }
            keep_if_holds(contents, &d, start, end, &q, &mut r);
            proof {
                done = done.push(d@.subrange(start as int, end as int));
            }
            start = i + 1;
        }
        i = i + 1;
    }
    if start < d.len() {
        let end = d.len();
        proof {
            done.lemma_filter_push(d@.subrange(start as int, end as int), pred);
        }
        keep_if_holds(contents, &d, start, end, &q, &mut r);
        proof {
            done = done.push(d@.subrange(start as int, end as int));
        }
    }
    assert(lines_of(d@) =~= done);
    r
}

} // verus!
