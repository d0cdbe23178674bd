//! Small helpers over character vectors, the library's text representation.
use vstd::prelude::*;

verus! {

/// The contents of a vector of character vectors, as a sequence of
/// sequences.
pub open spec fn chars_list_view(v: Seq<Vec<char>>) -> Seq<Seq<char>> {
    Seq::new(v.len(), |i: int| v[i]@)
}

pub proof fn lemma_chars_list_view_push(prev: Seq<Vec<char>>, x: Vec<char>)
    ensures
        chars_list_view(prev.push(x)) == chars_list_view(prev).push(x@),
{
    assert(chars_list_view(prev.push(x)) =~= chars_list_view(prev).push(x@));
}

/// Push onto a vector of character vectors, tracked at the view level.
pub fn push_seg(v: &mut Vec<Vec<char>>, x: Vec<char>)
    ensures
        chars_list_view(final(v)@) == chars_list_view(old(v)@).push(x@),
{
    let ghost prev = v@;
    let ghost gx = x;
    v.push(x);
    proof {
        lemma_chars_list_view_push(prev, gx);
    }
}

/// Copy a character vector.
pub fn copy_chars(a: &Vec<char>) -> (r: Vec<char>)
    ensures
        r@ == a@,
{
    let mut out: Vec<char> = Vec::new();
    let mut i: usize = 0;
    while i < a.len()
        invariant
            i <= a.len(),
            out@ == a@.take(i as int),
        decreases a.len() - i,
    {
        out.push(a[i]);
        assert(out@ =~= a@.take(i + 1 as int));
        i += 1;
    }
    assert(out@ =~= a@);
    out
}

/// Copy a vector of character vectors.
pub fn copy_chars_list(a: &Vec<Vec<char>>) -> (r: Vec<Vec<char>>)
    ensures
        r@.len() == a@.len(),
        forall|i: int| 0 <= i < a@.len() ==> r@[i]@ == a@[i]@,
{
    let mut out: Vec<Vec<char>> = Vec::new();
    let mut i: usize = 0;
    while i < a.len()
        invariant
            i <= a.len(),
            out@.len() == i,
            forall|j: int| 0 <= j < i ==> out@[j]@ == a@[j]@,
        decreases a.len() - i,
    {
        out.push(copy_chars(&a[i]));
        i += 1;
    }
    out
}

/// Append the contents of `b` to `a`.
pub fn push_all(a: &mut Vec<char>, b: &Vec<char>)
    ensures
        final(a)@ == old(a)@ + b@,
{
    let mut i: usize = 0;
    while i < b.len()
        invariant
            i <= b.len(),
            a@ == old(a)@ + b@.take(i as int),
        decreases b.len() - i,
    {
        a.push(b[i]);
        assert(a@ =~= old(a)@ + b@.take(i + 1 as int));
        i += 1;
    }
    assert(a@ =~= old(a)@ + b@);
}

/// Copy the range `[from, to)` of a character vector.
pub fn copy_range(a: &Vec<char>, from: usize, to: usize) -> (r: Vec<char>)
    requires
        from <= to <= a@.len(),
    ensures
        r@ == a@.subrange(from as int, to as int),
{
    let mut out: Vec<char> = Vec::new();
    let mut i: usize = from;
    while i < to
        invariant
            from <= i <= to <= a@.len(),
            out@ == a@.subrange(from as int, i as int),
        decreases to - i,
    {
        out.push(a[i]);
        assert(out@ =~= a@.subrange(from as int, i + 1 as int));
        i += 1;
    }
    out
}

/// Whether `b` occurs verbatim in `a` at position `from`.
pub fn range_eq(a: &Vec<char>, from: usize, b: &Vec<char>) -> (r: bool)
    requires
        from + b@.len() <= a@.len(),
    ensures
        r == (a@.subrange(from as int, from + b@.len()) == b@),
{
    let alen = a.len();
    let mut i: usize = 0;
    while i < b.len()
        invariant
            i <= b@.len(),
            alen == a@.len(),
            from + b@.len() <= a@.len(),
            forall|j: int| 0 <= j < i ==> a@[from + j] == b@[j],
        decreases b.len() - i,
    {
        assert(from + i < alen);
        if a[from + i] != b[i] {
            assert(a@.subrange(from as int, from + b@.len())[i as int] != b@[i as int]);
            return false;
        }
        i += 1;
    }
    assert(a@.subrange(from as int, from + b@.len()) =~= b@);
    true
}

/// Compare two character vectors for equality of contents.
pub fn chars_eq(a: &Vec<char>, b: &Vec<char>) -> (r: bool)
    ensures
        r == (a@ == b@),
{
    if a.len() != b.len() {
        assert(a@.len() != b@.len());
        return false;
    }
    let mut i: usize = 0;
    while i < a.len()
        invariant
            i <= a.len(),
            a.len() == b.len(),
            forall|j: int| 0 <= j < i ==> a@[j] == b@[j],
        decreases a.len() - i,
    {
        if a[i] != b[i] {
            return false;
        }
        i += 1;
    }
    assert(a@ =~= b@);
    true
}

} // verus!
