//! The package registry and the structured manifest model.
//!
//! The registry maps package names to what the walk recorded about them:
//! directory, provenance, version. Entries are kept in insertion order and a
//! lookup takes the most recently inserted entry of a name, so a later
//! package of the same name silently shadows an earlier one.
use vstd::prelude::*;

use crate::chars::chars_eq;
use crate::chars::chars_list_view;
use crate::deps::DepView;
use crate::deps::Dependency;
use crate::deps::GitProvenance;
use crate::deps::GitProvenanceView;
use crate::paths::RelPath;

verus! {

/// A failure that aborts the run.
#[derive(Clone, Copy, PartialEq, Eq, Structural, Debug)]
pub enum WsError {
    /// A remote-tracking reference's name does not have the expected
    /// `refs/remotes/<name>/…` form.
    MalformedRefName,
    /// A checkout has no remote whose commit contains the current commit.
    NoRemoteFound,
    /// Commit-pinned addressing was selected but a package has no recorded
    /// provenance.
    MissingProvenance,
}

impl WsError {
    /// A short description of the failure.
    pub fn message(&self) -> &'static str {
        match self {
            WsError::MalformedRefName => "invalid reference name",
            WsError::NoRemoteFound => "no remote found",
            WsError::MissingProvenance => "no version-control provenance found",
        }
    }
}

/// What the walk records about one discovered package.
pub struct PackageRef {
    pub path: RelPath,
    pub git: Option<GitProvenance>,
    pub version: Vec<char>,
}

#[verifier::ext_equal]
pub struct PackageRefView {
    pub path: Seq<Seq<char>>,
    pub git: Option<GitProvenanceView>,
    pub version: Seq<char>,
}

impl View for PackageRef {
    type V = PackageRefView;

    open spec fn view(&self) -> PackageRefView {
        PackageRefView {
            path: self.path@,
            git: match self.git {
                Option::None => Option::None,
                Option::Some(g) => Option::Some(g@),
            },
            version: self.version@,
        }
    }
}

pub open spec fn reg_entries_view(v: Seq<(Vec<char>, PackageRef)>) -> Seq<
    (Seq<char>, PackageRefView),
> {
    Seq::new(v.len(), |i: int| (v[i].0@, v[i].1@))
}

/// The registry of discovered packages, keyed by package name.
pub struct Registry {
    pub entries: Vec<(Vec<char>, PackageRef)>,
}

impl View for Registry {
    type V = Seq<(Seq<char>, PackageRefView)>;

    open spec fn view(&self) -> Seq<(Seq<char>, PackageRefView)> {
        reg_entries_view(self.entries@)
    }
}

/// The entry a name resolves to: the latest recorded one.
pub open spec fn reg_lookup(entries: Seq<(Seq<char>, PackageRefView)>, name: Seq<char>) -> Option<
    PackageRefView,
>
    decreases entries.len(),
{
    if entries.len() == 0 {
        Option::None
    } else if entries.last().0 == name {
        Option::Some(entries.last().1)
    } else {
        reg_lookup(entries.drop_last(), name)
    }
}

impl Registry {
    pub fn new() -> (r: Registry)
        ensures
            r@ == Seq::<(Seq<char>, PackageRefView)>::empty(),
    {
        let r = Registry { entries: Vec::new() };
        assert(r@ =~= Seq::<(Seq<char>, PackageRefView)>::empty());
        r
    }

    /// Record a package under its name; an existing entry of the same name
    /// is shadowed.
    pub fn insert(&mut self, name: Vec<char>, p: PackageRef)
        ensures
            final(self)@ == old(self)@.push((name@, p@)),
    {
        let ghost gn = name;
        let ghost gp = p;
        self.entries.push((name, p));
        assert(self@ =~= old(self)@.push((gn@, gp@)));
    }

    /// Find the latest entry recorded under `name`.
    pub fn get(&self, name: &Vec<char>) -> (r: Option<&PackageRef>)
        ensures
            match r {
                Option::Some(p) => reg_lookup(self@, name@) == Option::Some(p@),
                Option::None => reg_lookup(self@, name@) is None,
            },
    {
        let mut i = self.entries.len();
        assert(self@.take(i as int) =~= self@);
        while i > 0
            invariant
                i <= self.entries@.len(),
                reg_lookup(self@, name@) == reg_lookup(self@.take(i as int), name@),
            decreases i,
        {
            let idx = i - 1;
            proof {
                assert(self@.take(i as int).last() == self@[idx as int]);
                assert(self@.take(i as int).drop_last() =~= self@.take(idx as int));
            }
            if chars_eq(&self.entries[idx].0, name) {
                return Option::Some(&self.entries[idx].1);
            }
            i = idx;
        }
        assert(self@.take(0) =~= Seq::<(Seq<char>, PackageRefView)>::empty());
        Option::None
    }
}

/// A dependency section as an ordered list of named declarations.
pub open spec fn deps_view(v: Seq<(Vec<char>, Dependency)>) -> Seq<(Seq<char>, DepView)> {
    Seq::new(v.len(), |i: int| (v[i].0@, v[i].1@))
}

/// A manifest's package declaration.
pub struct PackageDecl {
    pub name: Vec<char>,
    pub version: Vec<char>,
}

/// A manifest's own workspace declaration (a nested workspace).
pub struct WorkspaceDecl {
    pub exclude: Vec<Vec<char>>,
}

/// A parsed manifest, as the structured codec hands it over: the optional
/// package and workspace declarations and the three dependency sections.
pub struct ManifestDoc {
    pub package: Option<PackageDecl>,
    pub workspace: Option<WorkspaceDecl>,
    pub dependencies: Vec<(Vec<char>, Dependency)>,
    pub dev_dependencies: Vec<(Vec<char>, Dependency)>,
    pub build_dependencies: Vec<(Vec<char>, Dependency)>,
}

#[verifier::ext_equal]
pub struct PackageDeclView {
    pub name: Seq<char>,
    pub version: Seq<char>,
}

#[verifier::ext_equal]
pub struct WorkspaceDeclView {
    pub exclude: Seq<Seq<char>>,
}

#[verifier::ext_equal]
pub struct ManifestDocView {
    pub package: Option<PackageDeclView>,
    pub workspace: Option<WorkspaceDeclView>,
    pub dependencies: Seq<(Seq<char>, DepView)>,
    pub dev_dependencies: Seq<(Seq<char>, DepView)>,
    pub build_dependencies: Seq<(Seq<char>, DepView)>,
}

impl View for ManifestDoc {
    type V = ManifestDocView;

    open spec fn view(&self) -> ManifestDocView {
        ManifestDocView {
            package: match self.package {
                Option::None => Option::None,
                Option::Some(p) => Option::Some(
                    PackageDeclView { name: p.name@, version: p.version@ },
                ),
            },
            workspace: match self.workspace {
                Option::None => Option::None,
                Option::Some(w) => Option::Some(
                    WorkspaceDeclView { exclude: chars_list_view(w.exclude@) },
                ),
            },
            dependencies: deps_view(self.dependencies@),
            dev_dependencies: deps_view(self.dev_dependencies@),
            build_dependencies: deps_view(self.build_dependencies@),
        }
    }
}

} // verus!
