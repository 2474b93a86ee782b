use vstd::prelude::*;

verus! {

/// `l` without one carriage return at its end, if it has one.
pub open spec fn strip_cr(l: Seq<char>) -> Seq<char> {
    if l.len() > 0 && l.last() == '\r' {
        l.drop_last()
    } else {
        l
    }
}

/// The lines of `s` from the one that begins at `start`, when `s[start..i]`
/// holds no newline. A newline ends a line; a carriage return just before
/// it belongs to the line ending. A last line with no newline after it is
/// a line of its own when it is not empty.
pub open spec fn lines_from(s: Seq<char>, start: int, i: int) -> Seq<Seq<char>>
    decreases s.len() - i,
{
    if i >= s.len() {
        if start < s.len() {
            seq![s.subrange(start, s.len() as int)]
        } else {
            seq![]
        }
    } else if s[i] == '\n' {
        seq![strip_cr(s.subrange(start, i))] + lines_from(s, i + 1, i + 1)
    } else {
        lines_from(s, start, i + 1)
    }
}

/// The lines of the text `s`, in order.
pub open spec fn lines_of(s: Seq<char>) -> Seq<Seq<char>> {
    lines_from(s, 0, 0)
}

/// `q` occurs in `l` as a contiguous run of characters.
pub open spec fn contains(l: Seq<char>, q: Seq<char>) -> bool {
    exists|p: int| 0 <= p <= l.len() - q.len() && #[trigger] l.subrange(p, p + q.len()) == q
}

/// Copies the characters of `s` into a vector, in order.
pub fn chars_of(s: &str) -> (r: Vec<char>)
    ensures
        r@ == s@,
{
    let mut r: Vec<char> = Vec::new();
    for c in it: s.chars()
        invariant
            r@ == it.seq().take(it.index() as int),
    {
        r.push(c);
    }
    r
}

/// Whether `q` stands in `s` at position `p`.
fn occurs_at(s: &Vec<char>, p: usize, q: &Vec<char>) -> (r: bool)
    requires
        p + q@.len() <= s@.len(),
    ensures
        r == (s@.subrange(p as int, p + q@.len()) == q@),
{
    let n: usize = s.len();
    let mut k: usize = 0;
    while k < q.len()
        invariant
            n == s@.len(),
            k <= q@.len(),
            p + q@.len() <= s@.len(),
            s@.subrange(p as int, p + k) == q@.take(k as int),
        decreases q@.len() - k,
    {
        if s[p + k] != q[k] {
            assert(s@.subrange(p as int, p + q@.len())[k as int] != q@[k as int]);
            return false;
        }
        assert(s@.subrange(p as int, p + k + 1) =~= q@.take(k + 1));
        k = k + 1;
    }
    assert(q@.take(k as int) =~= q@);
    true
}

/// Whether `q` occurs in the part `s[start..end]` of `s`.
pub fn contains_in(s: &Vec<char>, start: usize, end: usize, q: &Vec<char>) -> (r: bool)
    requires
        start <= end <= s@.len(),
    ensures
        r == contains(s@.subrange(start as int, end as int), q@),
{
    let ghost l = s@.subrange(start as int, end as int);
    if q.len() == 0 {
        assert(l.subrange(0, 0 + q@.len() as int) =~= q@);
        return true;
    }
    if q.len() > end - start {
        return false;
    }
    let mut p: usize = start;
    while q.len() <= end - p
        invariant
            start <= p <= end,
            q@.len() >= 1,
            q@.len() <= end - start,
            start <= end <= s@.len(),
            l == s@.subrange(start as int, end as int),
            forall|j: int| 0 <= j < p - start ==> #[trigger] l.subrange(j, j + q@.len()) != q@,
        decreases end - p,
    {
        if occurs_at(s, p, q) {
            assert(l.subrange(p - start, p - start + q@.len()) =~= s@.subrange(p as int, p + q@.len()));
            return true;
        }
        assert(l.subrange(p - start, p - start + q@.len()) =~= s@.subrange(p as int, p + q@.len()));
        p = p + 1;
    }
    false
}

} // verus!
