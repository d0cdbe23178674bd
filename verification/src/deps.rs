//! Dependency declarations and their rewriting.
//!
//! A dependency entry in a manifest carries one of several addressing forms: a
//! bare version string, or a detailed form with version, filesystem path, or
//! version-control pin, plus non-addressing fields (a feature list, an
//! optional flag, a default-features flag). Rewriting replaces the addressing
//! fields according to the selected mode and carries the non-addressing
//! fields over unchanged.
use vstd::prelude::*;

use crate::chars::chars_list_view;
use crate::chars::copy_chars;
use crate::chars::copy_chars_list;

verus! {

/// How cross-package dependencies are rewritten; fixed for the whole run.
#[derive(Clone, Copy, PartialEq, Eq, Structural)]
pub enum Mode {
    LocalPath,
    GitRef,
    Version,
}

/// Where a checkout's contents came from: its authoritative remote URL and
/// the textual identifier of its current commit.
pub struct GitProvenance {
    pub url: Vec<char>,
    pub oid: Vec<char>,
}

pub struct GitProvenanceView {
    pub url: Seq<char>,
    pub oid: Seq<char>,
}

impl View for GitProvenance {
    type V = GitProvenanceView;

    open spec fn view(&self) -> GitProvenanceView {
        GitProvenanceView { url: self.url@, oid: self.oid@ }
    }
}

pub open spec fn opt_git_view(o: Option<GitProvenance>) -> Option<GitProvenanceView> {
    match o {
        Option::None => Option::None,
        Option::Some(g) => Option::Some(g@),
    }
}

impl GitProvenance {
    pub fn clone_ref(&self) -> (r: GitProvenance)
        ensures
            r@ == self@,
    {
        GitProvenance { url: copy_chars(&self.url), oid: copy_chars(&self.oid) }
    }
}

/// The detailed form of a dependency declaration: addressing fields
/// (`version`, `path`, `git`, `rev`) and non-addressing fields (`features`,
/// `optional`, `default_features`).
pub struct DepDetail {
    pub version: Option<Vec<char>>,
    pub path: Option<Vec<char>>,
    pub git: Option<Vec<char>>,
    pub rev: Option<Vec<char>>,
    pub features: Vec<Vec<char>>,
    pub optional: bool,
    pub default_features: Option<bool>,
}

#[verifier::ext_equal]
pub struct DepDetailView {
    pub version: Option<Seq<char>>,
    pub path: Option<Seq<char>>,
    pub git: Option<Seq<char>>,
    pub rev: Option<Seq<char>>,
    pub features: Seq<Seq<char>>,
    pub optional: bool,
    pub default_features: Option<bool>,
}

pub open spec fn opt_chars_view(o: Option<Vec<char>>) -> Option<Seq<char>> {
    match o {
        Option::None => Option::None,
        Option::Some(v) => Option::Some(v@),
    }
}

impl View for DepDetail {
    type V = DepDetailView;

    open spec fn view(&self) -> DepDetailView {
        DepDetailView {
            version: opt_chars_view(self.version),
            path: opt_chars_view(self.path),
            git: opt_chars_view(self.git),
            rev: opt_chars_view(self.rev),
            features: chars_list_view(self.features@),
            optional: self.optional,
            default_features: self.default_features,
        }
    }
}

/// A dependency as it stands in a manifest: a bare version string, or the
/// detailed form.
pub enum Dependency {
    Simple(Vec<char>),
    Detailed(DepDetail),
}

#[verifier::ext_equal]
pub enum DepView {
    Simple(Seq<char>),
    Detailed(DepDetailView),
}

impl View for Dependency {
    type V = DepView;

    open spec fn view(&self) -> DepView {
        match self {
            Dependency::Simple(v) => DepView::Simple(v@),
            Dependency::Detailed(d) => DepView::Detailed(d@),
        }
    }
}

/// The feature list a rewrite carries over: a bare version string carries
/// none.
pub open spec fn carried_features(d: DepView) -> Seq<Seq<char>> {
    match d {
        DepView::Simple(_) => Seq::empty(),
        DepView::Detailed(it) => it.features,
    }
}

/// The optional flag a rewrite carries over.
pub open spec fn carried_optional(d: DepView) -> bool {
    match d {
        DepView::Simple(_) => false,
        DepView::Detailed(it) => it.optional,
    }
}

/// The default-features flag a rewrite carries over.
pub open spec fn carried_default_features(d: DepView) -> Option<bool> {
    match d {
        DepView::Simple(_) => Option::None,
        DepView::Detailed(it) => it.default_features,
    }
}

/// The path-addressed form: every addressing field cleared but `path`, which
/// holds the relative path to the target; non-addressing fields carried over.
pub open spec fn path_dep(d: DepView, rel: Seq<char>) -> DepView {
    DepView::Detailed(
        DepDetailView {
            version: Option::None,
            path: Option::Some(rel),
            git: Option::None,
            rev: Option::None,
            features: carried_features(d),
            optional: carried_optional(d),
            default_features: carried_default_features(d),
        },
    )
}

/// The version-addressed form: every addressing field cleared but `version`,
/// which holds the target's recorded version string.
pub open spec fn ver_dep(d: DepView, version: Seq<char>) -> DepView {
    DepView::Detailed(
        DepDetailView {
            version: Option::Some(version),
            path: Option::None,
            git: Option::None,
            rev: Option::None,
            features: carried_features(d),
            optional: carried_optional(d),
            default_features: carried_default_features(d),
        },
    )
}

/// The commit-pinned form: every addressing field cleared but `git` and
/// `rev`, which hold the target's remote URL and exact commit identifier.
pub open spec fn git_dep(d: DepView, origin: GitProvenanceView) -> DepView {
    DepView::Detailed(
        DepDetailView {
            version: Option::None,
            path: Option::None,
            git: Option::Some(origin.url),
            rev: Option::Some(origin.oid),
            features: carried_features(d),
            optional: carried_optional(d),
            default_features: carried_default_features(d),
        },
    )
}

fn carry_parts(src_dep: &Dependency) -> (r: (Vec<Vec<char>>, bool, Option<bool>))
    ensures
        chars_list_view(r.0@) == carried_features(src_dep@),
        r.1 == carried_optional(src_dep@),
        r.2 == carried_default_features(src_dep@),
{
    match src_dep {
        Dependency::Simple(_) => {
            let fs: Vec<Vec<char>> = Vec::new();
            assert(chars_list_view(fs@) =~= carried_features(src_dep@));
            (fs, false, Option::None)
        },
        Dependency::Detailed(it) => {
            let fs = copy_chars_list(&it.features);
            assert(chars_list_view(fs@) =~= carried_features(src_dep@));
            (fs, it.optional, it.default_features)
        },
    }
}

/// Rewrite a dependency to address its target by relative filesystem path.
pub fn clone_path_dep(src_dep: &Dependency, relative: Vec<char>) -> (r: Dependency)
    ensures
        r@ == path_dep(src_dep@, relative@),
{
    let (features, optional, default_features) = carry_parts(src_dep);
    let d = Dependency::Detailed(
        DepDetail {
            version: Option::None,
            path: Option::Some(relative),
            git: Option::None,
            rev: Option::None,
            features,
            optional,
            default_features,
        },
    );
    assert(d@ =~= path_dep(src_dep@, relative@));
    d
}

/// Rewrite a dependency to address its target by version number.
pub fn clone_ver_dep(src_dep: &Dependency, version: &Vec<char>) -> (r: Dependency)
    ensures
        r@ == ver_dep(src_dep@, version@),
{
    let (features, optional, default_features) = carry_parts(src_dep);
    let d = Dependency::Detailed(
        DepDetail {
            version: Option::Some(copy_chars(version)),
            path: Option::None,
            git: Option::None,
            rev: Option::None,
            features,
            optional,
            default_features,
        },
    );
    assert(d@ =~= ver_dep(src_dep@, version@));
    d
}

/// Rewrite a dependency to address its target by remote URL and pinned
/// commit.
pub fn clone_git_dep(src_dep: &Dependency, origin: &GitProvenance) -> (r: Dependency)
    ensures
        r@ == git_dep(src_dep@, origin@),
{
    let (features, optional, default_features) = carry_parts(src_dep);
    let d = Dependency::Detailed(
        DepDetail {
            version: Option::None,
            path: Option::None,
            git: Option::Some(copy_chars(&origin.url)),
            rev: Option::Some(copy_chars(&origin.oid)),
            features,
            optional,
            default_features,
        },
    );
    assert(d@ =~= git_dep(src_dep@, origin@));
    d
}

/// Rewriting to the path-addressed form is idempotent: a dependency that
/// already addresses its target by a relative path, rewritten again against
/// the same relative path, is unchanged — in particular the path value is
/// identical.
pub proof fn lemma_path_dep_idempotent(d: DepView, rel: Seq<char>)
    ensures
        path_dep(path_dep(d, rel), rel) == path_dep(d, rel),
        path_dep(d, rel)->Detailed_0.path == Option::Some(rel),
{
    assert(path_dep(path_dep(d, rel), rel) =~= path_dep(d, rel));
}

} // verus!
