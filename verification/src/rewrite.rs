//! The dependency reference rewriter.
//!
//! The rewriter walks a manifest's spans, keeps track of which recognized
//! dependency section the cursor stands in, and inside such a section
//! replaces the first assignment line of every dependency that names a
//! registered sibling package with a freshly built declaration in the
//! selected addressing mode. Everything else is reproduced verbatim.
use vstd::prelude::*;

use crate::chars::chars_eq;
use crate::chars::copy_chars;
use crate::chars::copy_range;
use crate::chars::push_all;
use crate::chars::range_eq;
use crate::deps::DepView;
use crate::deps::Dependency;
use crate::deps::GitProvenance;
use crate::deps::GitProvenanceView;
use crate::deps::Mode;
use crate::deps::clone_git_dep;
use crate::deps::clone_path_dep;
use crate::deps::clone_ver_dep;
use crate::deps::git_dep;
use crate::deps::opt_git_view;
use crate::deps::path_dep;
use crate::deps::ver_dep;
use crate::inline::dep_inline;
use crate::inline::detail_inline;
use crate::paths::RelPath;
use crate::paths::diff_segs;
use crate::paths::path_string;
use crate::paths::rel_diff;
use crate::paths::render_path;
use crate::registry::ManifestDoc;
use crate::registry::ManifestDocView;
use crate::registry::PackageRef;
use crate::registry::PackageRefView;
use crate::registry::Registry;
use crate::registry::WsError;
use crate::registry::deps_view;
use crate::registry::reg_lookup;
use crate::splitter::SplitState;
use crate::splitter::SplitStateView;
use crate::splitter::line_end;
use crate::splitter::span_text;
use crate::splitter::spans_from;
use crate::splitter::split_sections;
use crate::splitter::states_view;
use crate::toks::spec_build_dependencies;
use crate::toks::spec_dependencies;
use crate::toks::spec_dev_dependencies;
use crate::toks::tok_build_dependencies;
use crate::toks::tok_dependencies;
use crate::toks::tok_dev_dependencies;

verus! {

/// The whitespace the assignment pattern skips between the name and `=`.
pub open spec fn is_ws_char(c: char) -> bool {
    c == ' ' || c == '\t' || c == '\n' || c == '\r'
}

/// First position at or after `p` holding a non-whitespace character, or the
/// text's length.
pub open spec fn ws_end(t: Seq<char>, p: int) -> int
    decreases t.len() - p,
    when 0 <= p <= t.len()
{
    if p >= t.len() {
        t.len() as int
    } else if is_ws_char(t[p]) {
        ws_end(t, p + 1)
    } else {
        p
    }
}

pub proof fn lemma_ws_end(t: Seq<char>, p: int)
    requires
        0 <= p <= t.len(),
    ensures
        p <= ws_end(t, p) <= t.len(),
    decreases t.len() - p,
{
    if p >= t.len() {
    } else if is_ws_char(t[p]) {
        lemma_ws_end(t, p + 1);
    }
}

/// An assignment of `name` starts at `i`: the name itself, optional
/// whitespace, then `=`.
pub open spec fn dep_match_at(t: Seq<char>, name: Seq<char>, i: int) -> bool {
    &&& 0 <= i
    &&& i + name.len() <= t.len()
    &&& t.subrange(i, i + name.len()) == name
    &&& ws_end(t, i + name.len()) < t.len()
    &&& t[ws_end(t, i + name.len())] == '='
}

/// Where the replaced region ends: the end of the line holding the `=`.
pub open spec fn dep_match_end(t: Seq<char>, name: Seq<char>, i: int) -> int {
    line_end(t, ws_end(t, i + name.len()) + 1)
}

/// The first assignment of `name` at or after `s`.
pub open spec fn first_dep_match(t: Seq<char>, name: Seq<char>, s: int) -> Option<int>
    decreases t.len() - s,
    when 0 <= s
{
    if s >= t.len() {
        Option::None
    } else if dep_match_at(t, name, s) {
        Option::Some(s)
    } else {
        first_dep_match(t, name, s + 1)
    }
}

/// Replace the first assignment of `name`, up to the end of its line, with
/// `repl`; a text with no such assignment is left unchanged.
pub open spec fn replace_first(t: Seq<char>, name: Seq<char>, repl: Seq<char>) -> Seq<char> {
    match first_dep_match(t, name, 0) {
        Option::None => t,
        Option::Some(i) => t.take(i) + repl + t.skip(dep_match_end(t, name, i)),
    }
}

fn find_ws_end(text: &Vec<char>, p: usize) -> (q: usize)
    requires
        p <= text@.len(),
    ensures
        q as int == ws_end(text@, p as int),
{
    let mut q = p;
    while q < text.len()
        invariant
            p <= q <= text@.len(),
            ws_end(text@, p as int) == ws_end(text@, q as int),
        decreases text@.len() - q,
    {
        let c = text[q];
        if !(c == ' ' || c == '\t' || c == '\n' || c == '\r') {
            return q;
        }
        q += 1;
    }
    q
}

fn find_line_end_from(text: &Vec<char>, p: usize) -> (q: usize)
    requires
        p <= text@.len(),
    ensures
        q as int == line_end(text@, p as int),
{
    let mut q = p;
    while q < text.len()
        invariant
            p <= q <= text@.len(),
            line_end(text@, p as int) == line_end(text@, q as int),
        decreases text@.len() - q,
    {
        if text[q] == '\n' {
            return q;
        }
        q += 1;
    }
    q
}

/// Check for an assignment of `name` at `i`; on success return one past the
/// end of the replaced region.
fn check_dep_match(text: &Vec<char>, name: &Vec<char>, i: usize) -> (r: Option<usize>)
    requires
        i <= text@.len(),
    ensures
        match r {
            Option::Some(end) => dep_match_at(text@, name@, i as int) && end as int
                == dep_match_end(text@, name@, i as int) && i <= end <= text@.len(),
            Option::None => !dep_match_at(text@, name@, i as int),
        },
{
    if text.len() - i < name.len() {
        return Option::None;
    }
    if !range_eq(text, i, name) {
        return Option::None;
    }
    let e = find_ws_end(text, i + name.len());
    proof {
        lemma_ws_end(text@, i + name@.len());
    }
    if e >= text.len() {
        return Option::None;
    }
    if text[e] != '=' {
        return Option::None;
    }
    let end = find_line_end_from(text, e + 1);
    proof {
        crate::splitter::lemma_line_end(text@, e + 1 as int);
    }
    Option::Some(end)
}

/// Find the first assignment of `name` in the text.
fn find_dep_match(text: &Vec<char>, name: &Vec<char>) -> (r: Option<(usize, usize)>)
    ensures
        match r {
            Option::Some(ie) => {
                &&& first_dep_match(text@, name@, 0) == Option::Some(ie.0 as int)
                &&& ie.1 as int == dep_match_end(text@, name@, ie.0 as int)
                &&& ie.0 <= ie.1 <= text@.len()
            },
            Option::None => first_dep_match(text@, name@, 0) is None,
        },
{
    let mut i: usize = 0;
    while i < text.len()
        invariant
            i <= text@.len(),
            first_dep_match(text@, name@, 0) == first_dep_match(text@, name@, i as int),
        decreases text@.len() - i,
    {
        match check_dep_match(text, name, i) {
            Option::Some(end) => {
                return Option::Some((i, end));
            },
            Option::None => {
                i += 1;
            },
        }
    }
    Option::None
}

/// Substitute `repl` for the first assignment of `name`.
fn replace_dep_line(text: &Vec<char>, name: &Vec<char>, repl: &Vec<char>) -> (r: Vec<char>)
    ensures
        r@ == replace_first(text@, name@, repl@),
{
    match find_dep_match(text, name) {
        Option::None => copy_chars(text),
        Option::Some((i, end)) => {
            let mut out = copy_range(text, 0, i);
            push_all(&mut out, repl);
            let tail = copy_range(text, end, text.len());
            push_all(&mut out, &tail);
            assert(out@ =~= replace_first(text@, name@, repl@));
            out
        },
    }
}

/// The declaration that replaces a dependency on registered sibling `other`,
/// seen from a package at `pkg_path` whose own provenance is `this_git`.
///
/// Path mode addresses the sibling relatively; version mode pins its
/// recorded version; commit mode pins its remote and commit, except that two
/// packages of one remote reference each other by path instead. Commit mode
/// demands provenance on both sides.
pub open spec fn new_dep_spec(
    mode: Mode,
    d: DepView,
    other: PackageRefView,
    pkg_path: Seq<Seq<char>>,
    this_git: Option<GitProvenanceView>,
) -> Result<DepView, WsError> {
    match mode {
        Mode::LocalPath => Result::Ok(path_dep(d, path_string(diff_segs(other.path, pkg_path)))),
        Mode::Version => Result::Ok(ver_dep(d, other.version)),
        Mode::GitRef => {
            if this_git is None || other.git is None {
                Result::Err(WsError::MissingProvenance)
            } else if this_git->0.url == other.git->0.url {
                Result::Ok(path_dep(d, path_string(diff_segs(other.path, pkg_path))))
            } else {
                Result::Ok(git_dep(d, other.git->0))
            }
        },
    }
}

fn build_new_dep(
    mode: &Mode,
    src_dep: &Dependency,
    other: &PackageRef,
    pkg_path: &RelPath,
    this_git: &Option<GitProvenance>,
) -> (r: Result<Dependency, WsError>)
    ensures
        match r {
            Result::Ok(nd) => new_dep_spec(*mode, src_dep@, other@, pkg_path@, opt_git_view(*this_git))
                == Result::<DepView, WsError>::Ok(nd@),
            Result::Err(e) => new_dep_spec(
                *mode,
                src_dep@,
                other@,
                pkg_path@,
                opt_git_view(*this_git),
            ) == Result::<DepView, WsError>::Err(e),
        },
{
    match mode {
        Mode::LocalPath => {
            let relative = render_path(&rel_diff(&other.path, pkg_path));
            Result::Ok(clone_path_dep(src_dep, relative))
        },
        Mode::Version => Result::Ok(clone_ver_dep(src_dep, &other.version)),
        Mode::GitRef => {
            match (this_git, &other.git) {
                (Option::Some(tg), Option::Some(og)) => {
                    if chars_eq(&tg.url, &og.url) {
                        let relative = render_path(&rel_diff(&other.path, pkg_path));
                        Result::Ok(clone_path_dep(src_dep, relative))
                    } else {
                        Result::Ok(clone_git_dep(src_dep, og))
                    }
                },
                _ => Result::Err(WsError::MissingProvenance),
            }
        },
    }
}

/// The text after the dependencies from position `i` on have been handled:
/// one not in the registry is left alone, and each registered one has its
/// first assignment line replaced by the freshly built declaration.
pub open spec fn replace_deps_from(
    t: Seq<char>,
    deps: Seq<(Seq<char>, DepView)>,
    i: int,
    reg: Seq<(Seq<char>, PackageRefView)>,
    pkg_path: Seq<Seq<char>>,
    this_git: Option<GitProvenanceView>,
    mode: Mode,
) -> Result<Seq<char>, WsError>
    decreases deps.len() - i,
    when 0 <= i
{
    if i >= deps.len() {
        Result::Ok(t)
    } else {
        match reg_lookup(reg, deps[i].0) {
            Option::None => replace_deps_from(t, deps, i + 1, reg, pkg_path, this_git, mode),
            Option::Some(other) => match new_dep_spec(mode, deps[i].1, other, pkg_path, this_git) {
                Result::Err(e) => Result::Err(e),
                Result::Ok(nd) => replace_deps_from(
                    replace_first(t, deps[i].0, detail_inline(deps[i].0, nd->Detailed_0)),
                    deps,
                    i + 1,
                    reg,
                    pkg_path,
                    this_git,
                    mode,
                ),
            },
        }
    }
}

/// All dependencies of one section handled, in order.
pub open spec fn replace_deps_spec(
    t: Seq<char>,
    deps: Seq<(Seq<char>, DepView)>,
    reg: Seq<(Seq<char>, PackageRefView)>,
    pkg_path: Seq<Seq<char>>,
    this_git: Option<GitProvenanceView>,
    mode: Mode,
) -> Result<Seq<char>, WsError> {
    replace_deps_from(t, deps, 0, reg, pkg_path, this_git, mode)
}

/// Rewrite one verbatim span of a dependency section.
pub fn replace_deps(
    mode: &Mode,
    packages: &Registry,
    deps: &Vec<(Vec<char>, Dependency)>,
    pkg_path: &RelPath,
    input_str: &Vec<char>,
    this_git: &Option<GitProvenance>,
) -> (r: Result<Vec<char>, WsError>)
    ensures
        match r {
            Result::Ok(out) => replace_deps_spec(
                input_str@,
                deps_view(deps@),
                packages@,
                pkg_path@,
                opt_git_view(*this_git),
                *mode,
            ) == Result::<Seq<char>, WsError>::Ok(out@),
            Result::Err(e) => replace_deps_spec(
                input_str@,
                deps_view(deps@),
                packages@,
                pkg_path@,
                opt_git_view(*this_git),
                *mode,
            ) == Result::<Seq<char>, WsError>::Err(e),
        },
{
    let ghost dv = deps_view(deps@);
    let ghost tg = opt_git_view(*this_git);
    let mut cur = copy_chars(input_str);
    let mut i: usize = 0;
    while i < deps.len()
        invariant
            i <= deps@.len(),
            dv == deps_view(deps@),
            tg == opt_git_view(*this_git),
            replace_deps_from(input_str@, dv, 0, packages@, pkg_path@, tg, *mode)
                == replace_deps_from(cur@, dv, i as int, packages@, pkg_path@, tg, *mode),
        decreases deps.len() - i,
    {
        let name = &deps[i].0;
        let src_dep = &deps[i].1;
        assert(dv[i as int] == (name@, src_dep@));
        match packages.get(name) {
            Option::None => {},
            Option::Some(other) => {
                match build_new_dep(mode, src_dep, other, pkg_path, this_git) {
                    Result::Err(e) => {
                        return Result::Err(e);
                    },
                    Result::Ok(nd) => {
                        match nd {
                            Dependency::Detailed(det) => {
                                let line = dep_inline(name, &det);
                                cur = replace_dep_line(&cur, name, &line);
                            },
                            Dependency::Simple(_) => {
                                proof {
                                    assert(false);
                                }
                            },
                        }
                    },
                }
            },
        }
        i += 1;
    }
    Result::Ok(cur)
}

/// The three recognized dependency-bearing sections.
#[derive(Clone, Copy, PartialEq, Eq, Structural)]
pub enum SectionKind {
    Deps,
    DevDeps,
    BuildDeps,
}

/// Which dependency-bearing section a header name announces, if any.
pub open spec fn section_of(name: Seq<char>) -> Option<SectionKind> {
    if name == spec_dependencies() {
        Option::Some(SectionKind::Deps)
    } else if name == spec_dev_dependencies() {
        Option::Some(SectionKind::DevDeps)
    } else if name == spec_build_dependencies() {
        Option::Some(SectionKind::BuildDeps)
    } else {
        Option::None
    }
}

/// The manifest's dependency set for a section kind.
pub open spec fn section_deps(doc: ManifestDocView, k: SectionKind) -> Seq<(Seq<char>, DepView)> {
    match k {
        SectionKind::Deps => doc.dependencies,
        SectionKind::DevDeps => doc.dev_dependencies,
        SectionKind::BuildDeps => doc.build_dependencies,
    }
}

fn section_of_exec(name: &Vec<char>) -> (r: Option<SectionKind>)
    ensures
        r == section_of(name@),
{
    if chars_eq(name, &tok_dependencies()) {
        Option::Some(SectionKind::Deps)
    } else if chars_eq(name, &tok_dev_dependencies()) {
        Option::Some(SectionKind::DevDeps)
    } else if chars_eq(name, &tok_build_dependencies()) {
        Option::Some(SectionKind::BuildDeps)
    } else {
        Option::None
    }
}

/// The output accumulated from span `i` on, with `cur` the section state
/// left by the previous span: a verbatim span after a dependency-bearing
/// header is rewritten, any other is kept; a header is reproduced exactly
/// and switches the state.
pub open spec fn rewrite_spans_from(
    spans: Seq<SplitStateView>,
    i: int,
    cur: Option<SectionKind>,
    doc: ManifestDocView,
    reg: Seq<(Seq<char>, PackageRefView)>,
    pkg_path: Seq<Seq<char>>,
    this_git: Option<GitProvenanceView>,
    mode: Mode,
) -> Result<Seq<char>, WsError>
    decreases spans.len() - i,
    when 0 <= i
{
    if i >= spans.len() {
        Result::Ok(Seq::empty())
    } else {
        match spans[i] {
            SplitStateView::Unmatched(txt) => {
                let processed = match cur {
                    Option::None => Result::Ok(txt),
                    Option::Some(k) => replace_deps_spec(
                        txt,
                        section_deps(doc, k),
                        reg,
                        pkg_path,
                        this_git,
                        mode,
                    ),
                };
                match processed {
                    Result::Err(e) => Result::Err(e),
                    Result::Ok(p) => match rewrite_spans_from(
                        spans,
                        i + 1,
                        Option::None,
                        doc,
                        reg,
                        pkg_path,
                        this_git,
                        mode,
                    ) {
                        Result::Err(e) => Result::Err(e),
                        Result::Ok(rest) => Result::Ok(p + rest),
                    },
                }
            },
            SplitStateView::Captured(nm) => match rewrite_spans_from(
                spans,
                i + 1,
                section_of(nm),
                doc,
                reg,
                pkg_path,
                this_git,
                mode,
            ) {
                Result::Err(e) => Result::Err(e),
                Result::Ok(rest) => Result::Ok(span_text(spans[i]) + rest),
            },
        }
    }
}

/// What rewriting a whole manifest text produces.
pub open spec fn rewrite_spec(
    t: Seq<char>,
    doc: ManifestDocView,
    reg: Seq<(Seq<char>, PackageRefView)>,
    pkg_path: Seq<Seq<char>>,
    this_git: Option<GitProvenanceView>,
    mode: Mode,
) -> Result<Seq<char>, WsError> {
    rewrite_spans_from(spans_from(t, 0), 0, Option::None, doc, reg, pkg_path, this_git, mode)
}

/// Rewrite one manifest's text: every dependency section has its registered
/// sibling references re-addressed; every other byte is reproduced exactly.
#[verifier::rlimit(60)]
pub fn update_manifest_text(
    mode: &Mode,
    packages: &Registry,
    mani: &ManifestDoc,
    pkg_path: &RelPath,
    input_str: &Vec<char>,
    this_git: &Option<GitProvenance>,
) -> (r: Result<Vec<char>, WsError>)
    ensures
        match r {
            Result::Ok(out) => rewrite_spec(
                input_str@,
                mani@,
                packages@,
                pkg_path@,
                opt_git_view(*this_git),
                *mode,
            ) == Result::<Seq<char>, WsError>::Ok(out@),
            Result::Err(e) => rewrite_spec(
                input_str@,
                mani@,
                packages@,
                pkg_path@,
                opt_git_view(*this_git),
                *mode,
            ) == Result::<Seq<char>, WsError>::Err(e),
        },
{
    let spans = split_sections(input_str);
    let ghost sv = states_view(spans@);
    assert(sv == spans_from(input_str@, 0));
    let ghost tg = opt_git_view(*this_git);
    let mut out: Vec<char> = Vec::new();
    let mut cur: Option<SectionKind> = Option::None;
    let mut i: usize = 0;
    assert(out@ + Seq::<char>::empty() =~= out@);
    while i < spans.len()
        invariant
            i <= spans@.len(),
            sv == states_view(spans@),
            sv == spans_from(input_str@, 0),
            tg == opt_git_view(*this_git),
            rewrite_spans_from(sv, 0, Option::None, mani@, packages@, pkg_path@, tg, *mode)
                == match rewrite_spans_from(sv, i as int, cur, mani@, packages@, pkg_path@, tg, *mode) {
                Result::Ok(rest) => Result::<Seq<char>, WsError>::Ok(out@ + rest),
                Result::Err(e) => Result::<Seq<char>, WsError>::Err(e),
            },
        decreases spans.len() - i,
    {
        assert(sv[i as int] == spans@[i as int]@);
        let ghost pre_out = out@;
        match &spans[i] {
            SplitState::Unmatched(txt) => {
                match cur {
                    Option::None => {
                        push_all(&mut out, txt);
                        proof {
                            let next = rewrite_spans_from(
                                sv,
                                i + 1,
                                Option::None,
                                mani@,
                                packages@,
                                pkg_path@,
                                tg,
                                *mode,
                            );
                            if next is Ok {
                                assert(pre_out + (txt@ + next->Ok_0) =~= out@ + next->Ok_0);
                            }
                        }
                    },
                    Option::Some(k) => {
                        let deps = match k {
                            SectionKind::Deps => &mani.dependencies,
                            SectionKind::DevDeps => &mani.dev_dependencies,
                            SectionKind::BuildDeps => &mani.build_dependencies,
                        };
                        assert(deps_view(deps@) == section_deps(mani@, k));
                        match replace_deps(mode, packages, deps, pkg_path, txt, this_git) {
                            Result::Err(e) => {
                                proof {
                                    assert(rewrite_spans_from(
                                        sv,
                                        i as int,
                                        cur,
                                        mani@,
                                        packages@,
                                        pkg_path@,
                                        tg,
                                        *mode,
                                    ) == Result::<Seq<char>, WsError>::Err(e));
                                    assert(rewrite_spec(
                                        input_str@,
                                        mani@,
                                        packages@,
                                        pkg_path@,
                                        tg,
                                        *mode,
                                    ) == Result::<Seq<char>, WsError>::Err(e));
                                }
                                return Result::Err(e);
                            },
                            Result::Ok(p) => {
                                push_all(&mut out, &p);
                                proof {
                                    let next = rewrite_spans_from(
                                        sv,
                                        i + 1,
                                        Option::None,
                                        mani@,
                                        packages@,
                                        pkg_path@,
                                        tg,
                                        *mode,
                                    );
                                    if next is Ok {
                                        assert(pre_out + (p@ + next->Ok_0) =~= out@
                                            + next->Ok_0);
                                    }
                                }
                            },
                        }
                    },
                }
                cur = Option::None;
            },
            SplitState::Captured(nm) => {
                out.push('\n');
                out.push('[');
                push_all(&mut out, nm);
                out.push(']');
                out.push('\n');
                cur = section_of_exec(nm);
                proof {
                    assert(out@ =~= pre_out + span_text(sv[i as int]));
                    let next = rewrite_spans_from(
                        sv,
                        i + 1,
                        section_of(nm@),
                        mani@,
                        packages@,
                        pkg_path@,
                        tg,
                        *mode,
                    );
                    if next is Ok {
                        assert(pre_out + (span_text(sv[i as int]) + next->Ok_0) =~= out@
                            + next->Ok_0);
                    }
                }
            },
        }
        i += 1;
    }
    assert(rewrite_spans_from(sv, spans@.len() as int, cur, mani@, packages@, pkg_path@, tg, *mode)
        == Result::<Seq<char>, WsError>::Ok(Seq::<char>::empty()));
    assert(out@ + Seq::<char>::empty() =~= out@);
    Result::Ok(out)
}

proof fn lemma_replace_deps_empty_registry(
    t: Seq<char>,
    deps: Seq<(Seq<char>, DepView)>,
    i: int,
    pkg_path: Seq<Seq<char>>,
    this_git: Option<GitProvenanceView>,
    mode: Mode,
)
    requires
        0 <= i,
    ensures
        replace_deps_from(t, deps, i, Seq::empty(), pkg_path, this_git, mode) == Result::<
            Seq<char>,
            WsError,
        >::Ok(t),
    decreases deps.len() - i,
{
    if i < deps.len() {
        lemma_replace_deps_empty_registry(t, deps, i + 1, pkg_path, this_git, mode);
    }
}

proof fn lemma_rewrite_spans_empty_registry(
    spans: Seq<SplitStateView>,
    i: int,
    cur: Option<SectionKind>,
    doc: ManifestDocView,
    pkg_path: Seq<Seq<char>>,
    this_git: Option<GitProvenanceView>,
    mode: Mode,
)
    requires
        0 <= i <= spans.len(),
    ensures
        rewrite_spans_from(spans, i, cur, doc, Seq::empty(), pkg_path, this_git, mode) == Result::<
            Seq<char>,
            WsError,
        >::Ok(crate::splitter::spans_concat(spans.skip(i))),
    decreases spans.len() - i,
{
    if i >= spans.len() {
        assert(spans.skip(i) =~= Seq::<SplitStateView>::empty());
    } else {
        match spans[i] {
            SplitStateView::Unmatched(txt) => {
                match cur {
                    Option::None => {},
                    Option::Some(k) => {
                        lemma_replace_deps_empty_registry(
                            txt,
                            section_deps(doc, k),
                            0,
                            pkg_path,
                            this_git,
                            mode,
                        );
                    },
                }
            },
            SplitStateView::Captured(_) => {},
        }
        let cur2 = match spans[i] {
            SplitStateView::Unmatched(_) => Option::<SectionKind>::None,
            SplitStateView::Captured(nm) => section_of(nm),
        };
        lemma_rewrite_spans_empty_registry(spans, i + 1, cur2, doc, pkg_path, this_git, mode);
        assert(spans.skip(i).drop_first() =~= spans.skip(i + 1));
        assert(crate::splitter::spans_concat(spans.skip(i)) == span_text(spans[i])
            + crate::splitter::spans_concat(spans.skip(i + 1)));
    }
}

/// The rewrite is textually conservative: only a registered dependency's
/// assignment line is ever substituted, so against an empty registry the
/// whole manifest is reproduced byte for byte.
pub proof fn lemma_rewrite_empty_registry(
    t: Seq<char>,
    doc: ManifestDocView,
    pkg_path: Seq<Seq<char>>,
    this_git: Option<GitProvenanceView>,
    mode: Mode,
)
    ensures
        rewrite_spec(t, doc, Seq::empty(), pkg_path, this_git, mode) == Result::<
            Seq<char>,
            WsError,
        >::Ok(t),
{
    lemma_rewrite_spans_empty_registry(
        spans_from(t, 0),
        0,
        Option::None,
        doc,
        pkg_path,
        this_git,
        mode,
    );
    crate::splitter::lemma_spans_from_concat(t, 0);
    assert(spans_from(t, 0).skip(0) =~= spans_from(t, 0));
    assert(t.skip(0) =~= t);
}

} // verus!
