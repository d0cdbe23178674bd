//! The section-aware text splitter.
//!
//! A manifest is cut into an alternation of verbatim spans and recognized
//! section headers. A header is a newline, an opening bracket, the section
//! name, a closing bracket and a newline; everything between two headers is
//! handed through untouched. Concatenating the emitted spans in order
//! reproduces the input exactly, which is what lets the rewrite stage be
//! textually surgical.
use vstd::prelude::*;

use crate::chars::copy_chars;
use crate::chars::copy_range;

verus! {

/// Position of the first newline at or after `p`, or the text's length when
/// no newline follows.
pub open spec fn line_end(t: Seq<char>, p: int) -> int
    decreases t.len() - p,
    when 0 <= p <= t.len()
{
    if p >= t.len() {
        t.len() as int
    } else if t[p] == '\n' {
        p
    } else {
        line_end(t, p + 1)
    }
}

pub proof fn lemma_line_end(t: Seq<char>, p: int)
    requires
        0 <= p <= t.len(),
    ensures
        p <= line_end(t, p) <= t.len(),
        line_end(t, p) < t.len() ==> t[line_end(t, p)] == '\n',
        forall|q: int| p <= q < line_end(t, p) ==> t[q] != '\n',
    decreases t.len() - p,
{
    if p >= t.len() {
    } else if t[p] == '\n' {
    } else {
        lemma_line_end(t, p + 1);
    }
}

/// A recognized section header occupies `[i, header_end(t, i))`: a newline,
/// `[`, the name (free of newlines), `]`, a newline.
pub open spec fn header_at(t: Seq<char>, i: int) -> bool {
    &&& 0 <= i
    &&& i + 1 < t.len()
    &&& t[i] == '\n'
    &&& t[i + 1] == '['
    &&& line_end(t, i + 2) < t.len()
    &&& line_end(t, i + 2) >= i + 3
    &&& t[line_end(t, i + 2) - 1] == ']'
}

/// One past the header's closing newline.
pub open spec fn header_end(t: Seq<char>, i: int) -> int {
    line_end(t, i + 2) + 1
}

/// The captured section name.
pub open spec fn header_name(t: Seq<char>, i: int) -> Seq<char> {
    t.subrange(i + 2, line_end(t, i + 2) - 1)
}

/// The text a header occupies is exactly the reconstruction from its name.
pub proof fn lemma_header_text(t: Seq<char>, i: int)
    requires
        header_at(t, i),
    ensures
        t.subrange(i, header_end(t, i)) == seq!['\n', '['] + header_name(t, i) + seq![']', '\n'],
{
    lemma_line_end(t, i + 2);
    assert(t.subrange(i, header_end(t, i)) =~= seq!['\n', '['] + header_name(t, i) + seq![
        ']',
        '\n',
    ]);
}

/// The position of the first recognized header at or after `s`.
pub open spec fn first_header(t: Seq<char>, s: int) -> Option<int>
    decreases t.len() - s,
    when 0 <= s
{
    if s >= t.len() {
        Option::None
    } else if header_at(t, s) {
        Option::Some(s)
    } else {
        first_header(t, s + 1)
    }
}

fn find_line_end(text: &Vec<char>, p: usize) -> (q: usize)
    requires
        p <= text@.len(),
    ensures
        q as int == line_end(text@, p as int),
{
    let mut q = p;
    while q < text.len()
        invariant
            p <= q <= text@.len(),
            line_end(text@, p as int) == line_end(text@, q as int),
        decreases text@.len() - q,
    {
        if text[q] == '\n' {
            return q;
        }
        q += 1;
    }
    q
}

/// Check for a header starting at `i`; on success return the position of its
/// closing newline.
fn header_match(text: &Vec<char>, i: usize) -> (r: Option<usize>)
    requires
        i <= text@.len(),
    ensures
        match r {
            Option::Some(j) => header_at(text@, i as int) && j as int == line_end(
                text@,
                i + 2 as int,
            ),
            Option::None => !header_at(text@, i as int),
        },
{
    if text.len() - i < 2 {
        return Option::None;
    }
    if text[i] != '\n' || text[i + 1] != '[' {
        return Option::None;
    }
    let j = find_line_end(text, i + 2);
    if j >= text.len() {
        return Option::None;
    }
    if j < i + 3 {
        return Option::None;
    }
    if text[j - 1] != ']' {
        return Option::None;
    }
    Option::Some(j)
}

/// Find the first header at or after `from`.
fn find_header(text: &Vec<char>, from: usize) -> (r: Option<(usize, usize)>)
    requires
        from <= text@.len(),
    ensures
        match r {
            Option::Some(ij) => {
                &&& first_header(text@, from as int) == Option::Some(ij.0 as int)
                &&& from <= ij.0
                &&& header_at(text@, ij.0 as int)
                &&& ij.1 as int == line_end(text@, ij.0 + 2 as int)
            },
            Option::None => first_header(text@, from as int) is None,
        },
{
    let mut i = from;
    while i < text.len()
        invariant
            from <= i <= text@.len(),
            first_header(text@, from as int) == first_header(text@, i as int),
        decreases text@.len() - i,
    {
        match header_match(text, i) {
            Option::Some(j) => {
                return Option::Some((i, j));
            },
            Option::None => {
                i += 1;
            },
        }
    }
    Option::None
}

/// One emitted span: verbatim text between headers, or a header's captured
/// section name.
pub enum SplitState {
    Unmatched(Vec<char>),
    Captured(Vec<char>),
}

#[verifier::ext_equal]
pub enum SplitStateView {
    Unmatched(Seq<char>),
    Captured(Seq<char>),
}

impl View for SplitState {
    type V = SplitStateView;

    open spec fn view(&self) -> SplitStateView {
        match self {
            SplitState::Unmatched(u) => SplitStateView::Unmatched(u@),
            SplitState::Captured(c) => SplitStateView::Captured(c@),
        }
    }
}

/// The text a span stands for: a captured header reads back as the header
/// line it was cut from.
pub open spec fn span_text(s: SplitStateView) -> Seq<char> {
    match s {
        SplitStateView::Unmatched(u) => u,
        SplitStateView::Captured(nm) => seq!['\n', '['] + nm + seq![']', '\n'],
    }
}

pub open spec fn states_view(v: Seq<SplitState>) -> Seq<SplitStateView> {
    Seq::new(v.len(), |i: int| v[i]@)
}

/// All emitted spans, concatenated in order.
pub open spec fn spans_concat(ss: Seq<SplitStateView>) -> Seq<char>
    decreases ss.len(),
{
    if ss.len() == 0 {
        Seq::empty()
    } else {
        span_text(ss.first()) + spans_concat(ss.drop_first())
    }
}

pub proof fn lemma_spans_concat_snoc(ss: Seq<SplitStateView>, x: SplitStateView)
    ensures
        spans_concat(ss.push(x)) == spans_concat(ss) + span_text(x),
    decreases ss.len(),
{
    reveal_with_fuel(spans_concat, 3);
    if ss.len() == 0 {
        assert(ss.push(x).drop_first() =~= Seq::<SplitStateView>::empty());
        assert(spans_concat(ss.push(x)) =~= spans_concat(ss) + span_text(x));
    } else {
        assert(ss.push(x).drop_first() =~= ss.drop_first().push(x));
        lemma_spans_concat_snoc(ss.drop_first(), x);
        assert(spans_concat(ss.push(x)) =~= spans_concat(ss) + span_text(x));
    }
}

/// The spans the splitter emits from position `l` on: the verbatim text up
/// to the next header, that header's name, and so on; a headerless tail is
/// one verbatim span.
pub open spec fn spans_from(t: Seq<char>, l: int) -> Seq<SplitStateView>
    decreases t.len() - l,
    when 0 <= l <= t.len()
    via spans_from_dec
{
    match first_header(t, l) {
        Option::None => if l >= t.len() {
            Seq::empty()
        } else {
            seq![SplitStateView::Unmatched(t.skip(l))]
        },
        Option::Some(i) => seq![
            SplitStateView::Unmatched(t.subrange(l, i)),
            SplitStateView::Captured(header_name(t, i)),
        ] + spans_from(t, header_end(t, i)),
    }
}

#[via_fn]
proof fn spans_from_dec(t: Seq<char>, l: int) {
    match first_header(t, l) {
        Option::None => {},
        Option::Some(i) => {
            lemma_first_header_at(t, l);
            lemma_line_end(t, i + 2);
        },
    }
}

/// Concatenating the spans emitted from `l` gives back the text from `l`.
pub proof fn lemma_spans_from_concat(t: Seq<char>, l: int)
    requires
        0 <= l <= t.len(),
    ensures
        spans_concat(spans_from(t, l)) == t.skip(l),
    decreases t.len() - l,
{
    reveal_with_fuel(spans_concat, 4);
    match first_header(t, l) {
        Option::None => {
            if l >= t.len() {
                assert(spans_concat(spans_from(t, l)) =~= t.skip(l));
            } else {
                assert(spans_from(t, l).drop_first() =~= Seq::<SplitStateView>::empty());
                assert(spans_concat(spans_from(t, l)) =~= t.skip(l));
            }
        },
        Option::Some(i) => {
            lemma_first_header_at(t, l);
            lemma_line_end(t, i + 2);
            lemma_header_text(t, i);
            lemma_spans_from_concat(t, header_end(t, i));
            let ss = spans_from(t, l);
            assert(ss.drop_first().drop_first() =~= spans_from(t, header_end(t, i)));
            assert(spans_concat(ss) == span_text(ss[0]) + (span_text(ss.drop_first()[0])
                + spans_concat(ss.drop_first().drop_first())));
            assert(span_text(ss.drop_first()[0]) == t.subrange(i, header_end(t, i)));
            assert(spans_concat(ss) =~= t.skip(l));
        },
    }
}

/// The lazy splitter: a cursor over the text that hands out alternating
/// verbatim and captured spans.
pub struct SplitCaptures {
    pub text: Vec<char>,
    pub last: usize,
    pub pending: Option<Vec<char>>,
}

impl SplitCaptures {
    pub open spec fn wf(self) -> bool {
        self.last <= self.text@.len()
    }

    pub fn new(text: Vec<char>) -> (s: SplitCaptures)
        ensures
            s.text@ == text@,
            s.last == 0,
            s.pending is None,
            s.wf(),
    {
        SplitCaptures { text, last: 0, pending: Option::None }
    }

    /// The next span, or nothing once the text is exhausted.
    ///
    /// A found header is emitted in two steps, as the original cursor does
    /// it: first the verbatim text before the header, then — on the next
    /// call — the captured name itself.
    pub fn next(&mut self) -> (r: Option<SplitState>)
        requires
            old(self).wf(),
        ensures
            final(self).wf(),
            final(self).text@ == old(self).text@,
            old(self).pending is Some ==> {
                &&& r is Some
                &&& r->0 is Captured
                &&& r->0->Captured_0@ == old(self).pending->0@
                &&& final(self).pending is None
                &&& final(self).last == old(self).last
            },
            old(self).pending is None && first_header(
                old(self).text@,
                old(self).last as int,
            ) is Some ==> {
                let t = old(self).text@;
                let i = first_header(t, old(self).last as int)->0;
                &&& r is Some
                &&& r->0 is Unmatched
                &&& r->0->Unmatched_0@ == t.subrange(old(self).last as int, i)
                &&& final(self).pending is Some
                &&& final(self).pending->0@ == header_name(t, i)
                &&& final(self).last == header_end(t, i)
            },
            old(self).pending is None && first_header(old(self).text@, old(self).last as int)
                is None && old(self).last < old(self).text@.len() ==> {
                let t = old(self).text@;
                &&& r is Some
                &&& r->0 is Unmatched
                &&& r->0->Unmatched_0@ == t.skip(old(self).last as int)
                &&& final(self).pending is None
                &&& final(self).last == t.len()
            },
            old(self).pending is None && first_header(old(self).text@, old(self).last as int)
                is None && old(self).last == old(self).text@.len() ==> {
                &&& r is None
                &&& final(self).pending is None
                &&& final(self).last == old(self).last
            },
    {
        let pending = self.pending.take();
        if let Option::Some(nm) = pending {
            return Option::Some(SplitState::Captured(nm));
        }
        match find_header(&self.text, self.last) {
            Option::None => {
                if self.last >= self.text.len() {
                    Option::None
                } else {
                    let s = copy_range(&self.text, self.last, self.text.len());
                    self.last = self.text.len();
                    assert(s@ =~= self.text@.skip(old(self).last as int));
                    Option::Some(SplitState::Unmatched(s))
                }
            },
            Option::Some((i, j)) => {
                proof {
                    lemma_line_end(self.text@, i + 2 as int);
                }
                assert(j < self.text@.len());
                let n = self.text.len();
                assert(j < n);
                let unmatched = copy_range(&self.text, self.last, i);
                let name = copy_range(&self.text, i + 2, j - 1);
                self.pending = Option::Some(name);
                self.last = j + 1;
                Option::Some(SplitState::Unmatched(unmatched))
            },
        }
    }
}

/// Split the whole text into its alternating spans. The spans are exactly
/// `spans_from(text, 0)`; concatenating them in order reproduces the input
/// exactly.
pub fn split_sections(text: &Vec<char>) -> (r: Vec<SplitState>)
    ensures
        states_view(r@) == spans_from(text@, 0),
        spans_concat(states_view(r@)) == text@,
{
    let t = copy_chars(text);
    let mut sc = SplitCaptures::new(t);
    let mut out: Vec<SplitState> = Vec::new();
    let mut done = false;
    assert(states_view(out@) =~= Seq::<SplitStateView>::empty());
    while !done
        invariant
            sc.wf(),
            sc.text@ == text@,
            done ==> sc.pending is None && sc.last == text@.len(),
            sc.pending is None ==> spans_from(text@, 0) == states_view(out@) + spans_from(
                text@,
                sc.last as int,
            ),
            sc.pending is Some ==> spans_from(text@, 0) == states_view(out@) + seq![
                SplitStateView::Captured(sc.pending->0@),
            ] + spans_from(text@, sc.last as int),
        decreases (if done {
            0int
        } else {
            1int
        }) + 2 * (text@.len() - sc.last) + (if sc.pending is Some {
            1int
        } else {
            0int
        }),
    {
        let ghost pre = *&sc;
        let ghost pre_out = out@;
        match sc.next() {
            Option::None => {
                done = true;
            },
            Option::Some(s) => {
                let ghost sv = s@;
                out.push(s);
                proof {
                    assert(states_view(out@) =~= states_view(pre_out).push(sv));
                    if pre.pending is Some {
                        assert(states_view(pre_out) + seq![
                            SplitStateView::Captured(pre.pending->0@),
                        ] =~= states_view(out@));
                        assert(spans_from(text@, 0) =~= states_view(out@) + spans_from(
                            text@,
                            sc.last as int,
                        ));
                    } else if first_header(text@, pre.last as int) is Some {
                        let i = first_header(text@, pre.last as int)->0;
                        lemma_first_header_at(text@, pre.last as int);
                        lemma_line_end(text@, i + 2);
                        assert(spans_from(text@, pre.last as int) == seq![
                            SplitStateView::Unmatched(text@.subrange(pre.last as int, i)),
                            SplitStateView::Captured(header_name(text@, i)),
                        ] + spans_from(text@, header_end(text@, i)));
                        assert(spans_from(text@, 0) =~= states_view(out@) + seq![
                            SplitStateView::Captured(sc.pending->0@),
                        ] + spans_from(text@, sc.last as int));
                    } else {
                        assert(spans_from(text@, pre.last as int) == seq![
                            SplitStateView::Unmatched(text@.skip(pre.last as int)),
                        ]);
                        assert(spans_from(text@, sc.last as int) =~= Seq::<
                            SplitStateView,
                        >::empty());
                        assert(spans_from(text@, 0) =~= states_view(out@) + spans_from(
                            text@,
                            sc.last as int,
                        ));
                    }
                }
            },
        }
    }
    proof {
        assert(spans_from(text@, text@.len() as int) =~= Seq::<SplitStateView>::empty());
        assert(states_view(out@) =~= spans_from(text@, 0));
        lemma_spans_from_concat(text@, 0);
        assert(text@.skip(0) =~= text@);
    }
    out
}

/// A first header is a header, and it lies within the text.
pub proof fn lemma_first_header_at(t: Seq<char>, s: int)
    requires
        0 <= s,
        first_header(t, s) is Some,
    ensures
        header_at(t, first_header(t, s)->0),
        s <= first_header(t, s)->0 < t.len(),
    decreases t.len() - s,
{
    if s >= t.len() {
    } else if header_at(t, s) {
    } else {
        lemma_first_header_at(t, s + 1);
    }
}

} // verus!
