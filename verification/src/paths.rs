//! Relative filesystem paths as sequences of name segments.
//!
//! Every path the library handles is relative to the scan root. A path is a
//! vector of segments; a well-formed segment is nonempty, contains no
//! separator, and is not one of the special names `.` or `..` (directory
//! enumeration never yields those). The relative route between two such
//! paths is computed purely from the segments: drop the longest common
//! prefix, climb out of what remains of the base, then descend into the
//! target.
use vstd::prelude::*;

use crate::chars::chars_list_view;
use crate::chars::copy_chars;
use crate::chars::push_seg;
use crate::chars::push_all;

verus! {

/// A path relative to the scan root.
pub struct RelPath {
    pub segs: Vec<Vec<char>>,
}

pub open spec fn seg_wf(s: Seq<char>) -> bool {
    &&& s.len() > 0
    &&& forall|i: int| 0 <= i < s.len() ==> s[i] != '/'
    &&& s != seq!['.']
    &&& s != seq!['.', '.']
}

impl View for RelPath {
    type V = Seq<Seq<char>>;

    open spec fn view(&self) -> Seq<Seq<char>> {
        chars_list_view(self.segs@)
    }
}

impl RelPath {
    /// All segments are ordinary names.
    pub open spec fn wf(self) -> bool {
        forall|i: int| 0 <= i < self@.len() ==> seg_wf(#[trigger] self@[i])
    }

    /// The empty path: the scan root itself.
    pub fn root() -> (r: RelPath)
        ensures
            r@ == Seq::<Seq<char>>::empty(),
            r.wf(),
    {
        let r = RelPath { segs: Vec::new() };
        assert(r@ =~= Seq::<Seq<char>>::empty());
        r
    }

    /// This path with one more segment appended.
    pub fn child(&self, seg: &Vec<char>) -> (r: RelPath)
        ensures
            r@ == self@.push(seg@),
    {
        let mut segs = Vec::new();
        let mut i: usize = 0;
        while i < self.segs.len()
            invariant
                i <= self.segs.len(),
                chars_list_view(segs@) == self@.take(i as int),
            decreases self.segs.len() - i,
        {
            push_seg(&mut segs, copy_chars(&self.segs[i]));
            assert(chars_list_view(segs@) =~= self@.take(i + 1 as int));
            i += 1;
        }
        assert(self@.take(self@.len() as int) =~= self@);
        push_seg(&mut segs, copy_chars(seg));
        let r = RelPath { segs };
        assert(r@ =~= self@.push(seg@));
        r
    }

    pub fn clone_path(&self) -> (r: RelPath)
        ensures
            r@ == self@,
    {
        let mut segs = Vec::new();
        let mut i: usize = 0;
        while i < self.segs.len()
            invariant
                i <= self.segs.len(),
                chars_list_view(segs@) == self@.take(i as int),
            decreases self.segs.len() - i,
        {
            push_seg(&mut segs, copy_chars(&self.segs[i]));
            assert(chars_list_view(segs@) =~= self@.take(i + 1 as int));
            i += 1;
        }
        assert(self@.take(self@.len() as int) =~= self@);
        RelPath { segs }
    }
}

/// The number of leading segments `a` and `b` share.
pub open spec fn common_prefix_len(a: Seq<Seq<char>>, b: Seq<Seq<char>>) -> int
    decreases a.len(),
{
    if a.len() == 0 || b.len() == 0 || a[0] != b[0] {
        0
    } else {
        1 + common_prefix_len(a.drop_first(), b.drop_first())
    }
}

/// The `..` segment.
pub open spec fn spec_dotdot() -> Seq<char> {
    seq!['.', '.']
}

/// The relative route from directory `base` to directory `target`: climb out
/// of `base`'s segments beyond the common prefix, then descend into
/// `target`'s.
pub open spec fn diff_segs(target: Seq<Seq<char>>, base: Seq<Seq<char>>) -> Seq<Seq<char>> {
    let k = common_prefix_len(target, base);
    Seq::new((base.len() - k) as nat, |i: int| spec_dotdot()) + target.skip(k)
}

proof fn lemma_common_prefix_len_is(a: Seq<Seq<char>>, b: Seq<Seq<char>>, k: int)
    requires
        0 <= k <= a.len(),
        k <= b.len(),
        forall|j: int| 0 <= j < k ==> a[j] == b[j],
        k == a.len() || k == b.len() || a[k] != b[k],
    ensures
        common_prefix_len(a, b) == k,
    decreases a.len(),
{
    if a.len() == 0 || b.len() == 0 || a[0] != b[0] {
        assert(k == 0);
    } else {
        assert(a[0] == b[0]);
        assert(k >= 1) by {
            if k == 0 {
                assert(a[0] != b[0]);
            }
        }
        assert forall|j: int| 0 <= j < k - 1 implies a.drop_first()[j] == b.drop_first()[j] by {
            assert(a[j + 1] == b[j + 1]);
        }
        if k < a.len() && k < b.len() {
            assert(a.drop_first()[k - 1] != b.drop_first()[k - 1]);
        }
        lemma_common_prefix_len_is(a.drop_first(), b.drop_first(), k - 1);
    }
}

/// The relative route from `base` to `target`, as the filesystem-free
/// difference of the two segment paths.
pub fn rel_diff(target: &RelPath, base: &RelPath) -> (r: RelPath)
    ensures
        r@ == diff_segs(target@, base@),
{
    let mut k: usize = 0;
    let mut stop = false;
    while !stop && k < target.segs.len() && k < base.segs.len()
        invariant
            k <= target@.len(),
            k <= base@.len(),
            forall|j: int| 0 <= j < k ==> target@[j] == base@[j],
            stop ==> k < target@.len() && k < base@.len() && target@[k as int] != base@[k as int],
        decreases target.segs.len() - k + if stop {
            0int
        } else {
            1int
        },
    {
        if crate::chars::chars_eq(&target.segs[k], &base.segs[k]) {
            k += 1;
        } else {
            stop = true;
        }
    }
    proof {
        lemma_common_prefix_len_is(target@, base@, k as int);
    }
    let mut segs: Vec<Vec<char>> = Vec::new();
    let mut i: usize = k;
    while i < base.segs.len()
        invariant
            k <= i <= base@.len(),
            chars_list_view(segs@) == Seq::new((i - k) as nat, |j: int| spec_dotdot()),
        decreases base.segs.len() - i,
    {
        let dotdot: Vec<char> = vec!['.', '.'];
        push_seg(&mut segs, dotdot);
        assert(chars_list_view(segs@) =~= Seq::new((i + 1 - k) as nat, |j: int| spec_dotdot()));
        i += 1;
    }
    let ghost ups = chars_list_view(segs@);
    let mut i: usize = k;
    while i < target.segs.len()
        invariant
            k <= i <= target@.len(),
            ups == Seq::new((base@.len() - k) as nat, |j: int| spec_dotdot()),
            chars_list_view(segs@) == ups + target@.skip(k as int).take(i - k),
        decreases target.segs.len() - i,
    {
        push_seg(&mut segs, copy_chars(&target.segs[i]));
        assert(chars_list_view(segs@) =~= ups + target@.skip(k as int).take(i + 1 - k));
        i += 1;
    }
    assert(target@.skip(k as int).take(target@.len() - k) =~= target@.skip(k as int));
    let r = RelPath { segs };
    assert(r@ =~= diff_segs(target@, base@));
    r
}

/// The textual form of a relative path: its segments joined by `/` (the
/// empty path shows as the empty string).
pub open spec fn path_string(p: Seq<Seq<char>>) -> Seq<char> {
    crate::inline::join_sep(p, seq!['/'])
}

/// Render a path as text.
pub fn render_path(p: &RelPath) -> (r: Vec<char>)
    ensures
        r@ == path_string(p@),
{
    let mut out: Vec<char> = Vec::new();
    let mut i: usize = 0;
    while i < p.segs.len()
        invariant
            i <= p.segs.len(),
            out@ == crate::inline::join_sep(p@.take(i as int), seq!['/']),
        decreases p.segs.len() - i,
    {
        if i > 0 {
            out.push('/');
        }
        push_all(&mut out, &p.segs[i]);
        proof {
            crate::inline::lemma_join_snoc(p@.take(i as int), seq!['/'], p@[i as int]);
            assert(p@.take(i + 1 as int) =~= p@.take(i as int).push(p@[i as int]));
            if i > 0 {
            }
        }
        assert(out@ =~= crate::inline::join_sep(p@.take(i + 1 as int), seq!['/']));
        i += 1;
    }
    assert(p@.take(p@.len() as int) =~= p@);
    out
}

} // verus!
