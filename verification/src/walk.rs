//! The package registry builder: a recursive walk over a directory tree.
//!
//! The tree is a value: each directory carries its name, the checkout model
//! when the directory opens as one, and its entries in enumeration order.
//! Entering a directory that is a checkout resolves fresh provenance for its
//! whole subtree, shadowing whatever was inherited; each sibling receives an
//! independent copy, so sibling checkouts cannot see each other. A manifest
//! declaring a package is recorded in the registry and as a member; one
//! declaring a nested workspace is folded into the umbrella's excludes and
//! marked for deletion. The manifest sitting at the scan root itself is
//! never treated as a member.
use vstd::prelude::*;

use crate::chars::copy_chars;
use crate::deps::GitProvenance;
use crate::deps::GitProvenanceView;
use crate::deps::opt_git_view;
use crate::paths::RelPath;
use crate::paths::seg_wf;
use crate::registry::ManifestDoc;
use crate::registry::PackageRef;
use crate::registry::PackageRefView;
use crate::registry::Registry;
use crate::registry::WsError;
use crate::remotes::RepoModel;
use crate::remotes::repo_wf;
use crate::remotes::resolve_provenance;
use crate::remotes::resolve_provenance_spec;

verus! {

broadcast use vstd::std_specs::vec::axiom_vec_index_decreases;

/// One entry of a directory, in enumeration order.
pub enum DirItem {
    Subdir(Dir),
    ManifestFile(ManifestDoc),
}

/// A directory of the scanned tree.
pub struct Dir {
    pub name: Vec<char>,
    pub repo: Option<RepoModel>,
    pub items: Vec<DirItem>,
}

/// The tree is coherent: every checkout model is well formed and every
/// subdirectory bears an ordinary name.
pub open spec fn dir_wf(d: Dir) -> bool
    decreases d, d.items.len() + 1int, 0int,
{
    &&& (match d.repo {
        Option::None => true,
        Option::Some(rm) => repo_wf(rm@),
    })
    &&& items_wf(d, 0)
}

pub open spec fn items_wf(d: Dir, i: int) -> bool
    decreases d, d.items.len() - i, 1int,
{
    if i < 0 || i >= d.items.len() {
        true
    } else {
        (match d.items[i] {
            DirItem::Subdir(sub) => seg_wf(sub.name@) && dir_wf(sub),
            DirItem::ManifestFile(_) => true,
        }) && items_wf(d, i + 1)
    }
}

/// One exclusion of the umbrella descriptor: the location of a nested
/// workspace, optionally extended by one of its own exclude patterns.
pub struct ExcludeEntry {
    pub base: RelPath,
    pub pattern: Option<Vec<char>>,
}

#[verifier::ext_equal]
pub struct ExcludeView {
    pub base: Seq<Seq<char>>,
    pub pattern: Option<Seq<char>>,
}

impl View for ExcludeEntry {
    type V = ExcludeView;

    open spec fn view(&self) -> ExcludeView {
        ExcludeView {
            base: self.base@,
            pattern: match self.pattern {
                Option::None => Option::None,
                Option::Some(p) => Option::Some(p@),
            },
        }
    }
}

/// The umbrella descriptor: member paths and exclusions, in walk order.
pub struct WorkspaceDescriptor {
    pub members: Vec<RelPath>,
    pub excludes: Vec<ExcludeEntry>,
}

/// Everything the walk accumulates.
pub struct WalkOutput {
    pub packages: Registry,
    pub tomls: Vec<(Vec<char>, RelPath)>,
    pub descriptor: WorkspaceDescriptor,
    pub deletions: Vec<RelPath>,
}

/// The walk's result, at the specification level.
#[verifier::ext_equal]
pub struct WalkOut {
    pub registry: Seq<(Seq<char>, PackageRefView)>,
    pub tomls: Seq<(Seq<char>, Seq<Seq<char>>)>,
    pub members: Seq<Seq<Seq<char>>>,
    pub excludes: Seq<ExcludeView>,
    pub deletions: Seq<Seq<Seq<char>>>,
}

pub open spec fn rel_paths_view(v: Seq<RelPath>) -> Seq<Seq<Seq<char>>> {
    Seq::new(v.len(), |i: int| v[i]@)
}

pub open spec fn tomls_view(v: Seq<(Vec<char>, RelPath)>) -> Seq<(Seq<char>, Seq<Seq<char>>)> {
    Seq::new(v.len(), |i: int| (v[i].0@, v[i].1@))
}

pub open spec fn excludes_view(v: Seq<ExcludeEntry>) -> Seq<ExcludeView> {
    Seq::new(v.len(), |i: int| v[i]@)
}

pub proof fn lemma_excludes_view_push(prev: Seq<ExcludeEntry>, x: ExcludeEntry)
    ensures
        excludes_view(prev.push(x)) == excludes_view(prev).push(x@),
{
    assert(excludes_view(prev.push(x)) =~= excludes_view(prev).push(x@));
}

pub proof fn lemma_rel_paths_view_push(prev: Seq<RelPath>, x: RelPath)
    ensures
        rel_paths_view(prev.push(x)) == rel_paths_view(prev).push(x@),
{
    assert(rel_paths_view(prev.push(x)) =~= rel_paths_view(prev).push(x@));
}

pub proof fn lemma_tomls_view_push(prev: Seq<(Vec<char>, RelPath)>, x: (Vec<char>, RelPath))
    ensures
        tomls_view(prev.push(x)) == tomls_view(prev).push((x.0@, x.1@)),
{
    assert(tomls_view(prev.push(x)) =~= tomls_view(prev).push((x.0@, x.1@)));
}

pub open spec fn output_view(o: WalkOutput) -> WalkOut {
    WalkOut {
        registry: o.packages@,
        tomls: tomls_view(o.tomls@),
        members: rel_paths_view(o.descriptor.members@),
        excludes: excludes_view(o.descriptor.excludes@),
        deletions: rel_paths_view(o.deletions@),
    }
}

pub open spec fn empty_out() -> WalkOut {
    WalkOut {
        registry: Seq::empty(),
        tomls: Seq::empty(),
        members: Seq::empty(),
        excludes: Seq::empty(),
        deletions: Seq::empty(),
    }
}

pub open spec fn concat_out(a: WalkOut, b: WalkOut) -> WalkOut {
    WalkOut {
        registry: a.registry + b.registry,
        tomls: a.tomls + b.tomls,
        members: a.members + b.members,
        excludes: a.excludes + b.excludes,
        deletions: a.deletions + b.deletions,
    }
}

pub proof fn lemma_concat_out_empty(a: WalkOut)
    ensures
        concat_out(a, empty_out()) == a,
        concat_out(empty_out(), a) == a,
{
    assert(concat_out(a, empty_out()) =~= a);
    assert(concat_out(empty_out(), a) =~= a);
}

pub proof fn lemma_concat_out_assoc(a: WalkOut, b: WalkOut, c: WalkOut)
    ensures
        concat_out(concat_out(a, b), c) == concat_out(a, concat_out(b, c)),
{
    assert(concat_out(concat_out(a, b), c) =~= concat_out(a, concat_out(b, c)));
}

/// What one manifest contributes: a package declaration yields a registry
/// entry (carrying the provenance in force), a manifest record and a member;
/// a workspace declaration yields its own exclusion, one folded exclusion
/// per declared pattern, and a deletion. A manifest at the root itself
/// contributes nothing.
pub open spec fn pkg_part_of(
    doc: ManifestDoc,
    rel: Seq<Seq<char>>,
    prov: Option<GitProvenanceView>,
) -> WalkOut {
    match doc.package {
        Option::None => empty_out(),
        Option::Some(p) => WalkOut {
            registry: seq![(p.name@, PackageRefView { path: rel, git: prov, version: p.version@ })],
            tomls: seq![(p.name@, rel)],
            members: seq![rel],
            excludes: Seq::empty(),
            deletions: Seq::empty(),
        },
    }
}

pub open spec fn ws_part_of(doc: ManifestDoc, rel: Seq<Seq<char>>) -> WalkOut {
    match doc.workspace {
        Option::None => empty_out(),
        Option::Some(w) => WalkOut {
            registry: Seq::empty(),
            tomls: Seq::empty(),
            members: Seq::empty(),
            excludes: seq![ExcludeView { base: rel, pattern: Option::None }] + Seq::new(
                w.exclude@.len(),
                |i: int| ExcludeView { base: rel, pattern: Option::Some(w.exclude[i]@) },
            ),
            deletions: seq![rel],
        },
    }
}

pub open spec fn manifest_out(
    doc: ManifestDoc,
    rel: Seq<Seq<char>>,
    prov: Option<GitProvenanceView>,
) -> WalkOut {
    if rel.len() == 0 {
        empty_out()
    } else {
        concat_out(pkg_part_of(doc, rel, prov), ws_part_of(doc, rel))
    }
}

/// The whole walk of one directory: refresh provenance when the directory
/// is a checkout, then fold its entries in order.
pub open spec fn walk_dir(d: Dir, rel: Seq<Seq<char>>, prov: Option<GitProvenanceView>) -> Result<
    WalkOut,
    WsError,
>
    decreases d, d.items.len() + 1int, 0int,
{
    match d.repo {
        Option::None => walk_items(d, 0, rel, prov),
        Option::Some(rm) => match resolve_provenance_spec(rm@) {
            Result::Err(e) => Result::Err(e),
            Result::Ok(g) => walk_items(d, 0, rel, Option::Some(g)),
        },
    }
}

/// The entries of `d` from position `i` on, folded in order; the first
/// failure aborts.
pub open spec fn walk_items(
    d: Dir,
    i: int,
    rel: Seq<Seq<char>>,
    prov: Option<GitProvenanceView>,
) -> Result<WalkOut, WsError>
    decreases d, d.items.len() - i, 1int,
{
    if i < 0 || i >= d.items.len() {
        Result::Ok(empty_out())
    } else {
        let first = match d.items[i] {
            DirItem::Subdir(sub) => walk_dir(sub, rel.push(sub.name@), prov),
            DirItem::ManifestFile(doc) => Result::Ok(manifest_out(doc, rel, prov)),
        };
        match first {
            Result::Err(e) => Result::Err(e),
            Result::Ok(o1) => match walk_items(d, i + 1, rel, prov) {
                Result::Err(e) => Result::Err(e),
                Result::Ok(o2) => Result::Ok(concat_out(o1, o2)),
            },
        }
    }
}

fn clone_opt_prov(o: &Option<GitProvenance>) -> (r: Option<GitProvenance>)
    ensures
        opt_git_view(r) == opt_git_view(*o),
{
    match o {
        Option::None => Option::None,
        Option::Some(g) => Option::Some(g.clone_ref()),
    }
}

/// Record one manifest's contribution into the accumulated output.
fn record_manifest(
    doc: &ManifestDoc,
    rel: &RelPath,
    prov: &Option<GitProvenance>,
    out: &mut WalkOutput,
)
    ensures
        output_view(*final(out)) == concat_out(
            output_view(*old(out)),
            manifest_out(*doc, rel@, opt_git_view(*prov)),
        ),
{
    let ghost base = output_view(*out);
    if rel.segs.len() == 0 {
        proof {
            assert(rel@.len() == 0);
            lemma_concat_out_empty(base);
        }
        return ;
    }
    assert(rel@.len() > 0);
    let ghost pre_pkg = output_view(*out);
    match &doc.package {
        Option::None => {},
        Option::Some(p) => {
            let name = copy_chars(&p.name);
            let pkg_ref = PackageRef {
                path: rel.clone_path(),
                git: clone_opt_prov(prov),
                version: copy_chars(&p.version),
            };
            assert(pkg_ref@ =~= (PackageRefView {
                path: rel@,
                git: opt_git_view(*prov),
                version: p.version@,
            }));
            out.packages.insert(name, pkg_ref);
            out.tomls.push((copy_chars(&p.name), rel.clone_path()));
            out.descriptor.members.push(rel.clone_path());
        },
    }
    proof {
        assert(output_view(*out) =~= concat_out(
            pre_pkg,
            pkg_part_of(*doc, rel@, opt_git_view(*prov)),
        ));
    }
    let ghost pre_ws = output_view(*out);
    match &doc.workspace {
        Option::None => {},
        Option::Some(w) => {
            let ghost before_ex = excludes_view(out.descriptor.excludes@);
            let base_entry = ExcludeEntry { base: rel.clone_path(), pattern: Option::None };
            proof {
                lemma_excludes_view_push(out.descriptor.excludes@, base_entry);
            }
            out.descriptor.excludes.push(base_entry);
            let ghost after_base = excludes_view(out.descriptor.excludes@);
            assert(after_base == before_ex.push(ExcludeView { base: rel@, pattern: Option::None }));
            let ghost pkgs0 = out.packages@;
            let ghost tomls0 = tomls_view(out.tomls@);
            let ghost members0 = rel_paths_view(out.descriptor.members@);
            let ghost dels0 = rel_paths_view(out.deletions@);
            let mut j: usize = 0;
            while j < w.exclude.len()
                invariant
                    j <= w.exclude@.len(),
                    excludes_view(out.descriptor.excludes@) == after_base + Seq::new(
                        j as nat,
                        |k: int| ExcludeView {
                            base: rel@,
                            pattern: Option::Some(w.exclude[k]@),
                        },
                    ),
                    out.packages@ == pkgs0,
                    tomls_view(out.tomls@) == tomls0,
                    rel_paths_view(out.descriptor.members@) == members0,
                    rel_paths_view(out.deletions@) == dels0,
                decreases w.exclude.len() - j,
            {
                let entry = ExcludeEntry {
                    base: rel.clone_path(),
                    pattern: Option::Some(copy_chars(&w.exclude[j])),
                };
                proof {
                    lemma_excludes_view_push(out.descriptor.excludes@, entry);
                }
                out.descriptor.excludes.push(entry);
                assert(excludes_view(out.descriptor.excludes@) =~= after_base + Seq::new(
                    (j + 1) as nat,
                    |k: int| ExcludeView { base: rel@, pattern: Option::Some(w.exclude[k]@) },
                ));
                j += 1;
            }
            let del = rel.clone_path();
            let ghost gdel = del;
            proof {
                lemma_rel_paths_view_push(out.deletions@, gdel);
            }
            out.deletions.push(del);
        },
    }
    proof {
        if doc.workspace is Some {
            let w = doc.workspace->0;
            assert(excludes_view(out.descriptor.excludes@) =~= pre_ws.excludes + (seq![
                ExcludeView { base: rel@, pattern: Option::None },
            ] + Seq::new(
                w.exclude@.len(),
                |i: int| ExcludeView { base: rel@, pattern: Option::Some(w.exclude[i]@) },
            )));
        }
        assert(output_view(*out) =~= concat_out(pre_ws, ws_part_of(*doc, rel@)));
        lemma_concat_out_assoc(
            base,
            pkg_part_of(*doc, rel@, opt_git_view(*prov)),
            ws_part_of(*doc, rel@),
        );
        assert(output_view(*out) =~= concat_out(
            base,
            manifest_out(*doc, rel@, opt_git_view(*prov)),
        ));
    }
}

/// Walk one directory: resolve provenance when it is a checkout, then fold
/// every entry — subdirectories recursively, manifests into the registry and
/// the umbrella descriptor. On failure the walk stops at once; what was
/// already recorded stays (there is no rollback).
pub fn build_manifest(
    dir: &Dir,
    rel: &RelPath,
    git_ref: &Option<GitProvenance>,
    out: &mut WalkOutput,
) -> (r: Result<(), WsError>)
    requires
        dir_wf(*dir),
    ensures
        match r {
            Result::Ok(()) => walk_dir(*dir, rel@, opt_git_view(*git_ref)) is Ok && output_view(
                *final(out),
            ) == concat_out(
                output_view(*old(out)),
                walk_dir(*dir, rel@, opt_git_view(*git_ref))->Ok_0,
            ),
            Result::Err(e) => walk_dir(*dir, rel@, opt_git_view(*git_ref)) == Result::<
                WalkOut,
                WsError,
            >::Err(e),
        },
    decreases *dir,
{
    let prov: Option<GitProvenance> = match &dir.repo {
        Option::None => clone_opt_prov(git_ref),
        Option::Some(rm) => {
            match resolve_provenance(rm) {
                Result::Err(e) => {
                    return Result::Err(e);
                },
                Result::Ok(g) => Option::Some(g),
            }
        },
    };
    let ghost pv = opt_git_view(prov);
    let ghost base = output_view(*out);
    let ghost mut got = empty_out();
    proof {
        lemma_concat_out_empty(base);
    }
    let mut i: usize = 0;
    while i < dir.items.len()
        invariant
            dir_wf(*dir),
            items_wf(*dir, 0),
            i <= dir.items@.len(),
            pv == opt_git_view(prov),
            output_view(*out) == concat_out(base, got),
            walk_dir(*dir, rel@, opt_git_view(*git_ref)) == (match walk_items(
                *dir,
                i as int,
                rel@,
                pv,
            ) {
                Result::Ok(rest) => Result::<WalkOut, WsError>::Ok(concat_out(got, rest)),
                Result::Err(e) => Result::<WalkOut, WsError>::Err(e),
            }),
        decreases dir.items@.len() - i,
    {
        proof {
            lemma_items_wf_at(*dir, 0, i as int);
        }
        match &dir.items[i] {
            DirItem::Subdir(sub) => {
                let sub_rel = rel.child(&sub.name);
                let sub_prov = clone_opt_prov(&prov);
                assert(sub_rel@ == rel@.push(sub.name@));
                match build_manifest(sub, &sub_rel, &sub_prov, out) {
                    Result::Err(e) => {
                        proof {
                            assert(walk_items(*dir, i as int, rel@, pv) == Result::<
                                WalkOut,
                                WsError,
                            >::Err(e));
                        }
                        return Result::Err(e);
                    },
                    Result::Ok(()) => {
                        proof {
                            let delta = walk_dir(*sub, sub_rel@, pv)->Ok_0;
                            lemma_concat_out_assoc(base, got, delta);
                            let next = walk_items(*dir, i + 1 as int, rel@, pv);
                            if next is Ok {
                                lemma_concat_out_assoc(got, delta, next->Ok_0);
                            }
                            got = concat_out(got, delta);
                        }
                    },
                }
            },
            DirItem::ManifestFile(doc) => {
                record_manifest(doc, rel, &prov, out);
                proof {
                    let delta = manifest_out(*doc, rel@, pv);
                    lemma_concat_out_assoc(base, got, delta);
                    let next = walk_items(*dir, i + 1 as int, rel@, pv);
                    if next is Ok {
                        lemma_concat_out_assoc(got, delta, next->Ok_0);
                    }
                    got = concat_out(got, delta);
                }
            },
        }
        i += 1;
    }
    proof {
        assert(walk_items(*dir, i as int, rel@, pv) == Result::<WalkOut, WsError>::Ok(
            empty_out(),
        ));
        lemma_concat_out_empty(got);
    }
    Result::Ok(())
}

/// Well-formedness of the entries reaches every position.
proof fn lemma_items_wf_at(d: Dir, from: int, i: int)
    requires
        items_wf(d, from),
        from <= i < d.items.len(),
        0 <= from,
    ensures
        match d.items[i] {
            DirItem::Subdir(sub) => seg_wf(sub.name@) && dir_wf(sub),
            DirItem::ManifestFile(_) => true,
        },
    decreases i - from,
{
    if from < i {
        lemma_items_wf_at(d, from + 1, i);
    }
}


/// A path made only of ordinary name segments.
pub open spec fn rel_path_wf(p: Seq<Seq<char>>) -> bool {
    forall|i: int| 0 <= i < p.len() ==> seg_wf(#[trigger] p[i])
}

/// Every recorded path names something strictly below the scan root: it is
/// nonempty and all its segments are ordinary names (never `.` or `..`), so
/// it can never denote the root itself.
pub open spec fn paths_strict(o: WalkOut) -> bool {
    &&& forall|i: int| 0 <= i < o.members.len() ==> (#[trigger] o.members[i]).len() >= 1
        && rel_path_wf(o.members[i])
    &&& forall|i: int| 0 <= i < o.excludes.len() ==> (#[trigger] o.excludes[i]).base.len() >= 1
        && rel_path_wf(o.excludes[i].base)
}

proof fn lemma_paths_strict_concat(a: WalkOut, b: WalkOut)
    requires
        paths_strict(a),
        paths_strict(b),
    ensures
        paths_strict(concat_out(a, b)),
{
    let c = concat_out(a, b);
    assert forall|i: int| 0 <= i < c.members.len() implies (#[trigger] c.members[i]).len() >= 1
        && rel_path_wf(c.members[i]) by {
        if i < a.members.len() {
            assert(c.members[i] == a.members[i]);
        } else {
            assert(c.members[i] == b.members[i - a.members.len()]);
        }
    }
    assert forall|i: int| 0 <= i < c.excludes.len() implies (#[trigger] c.excludes[i]).base.len()
        >= 1 && rel_path_wf(c.excludes[i].base) by {
        if i < a.excludes.len() {
            assert(c.excludes[i] == a.excludes[i]);
        } else {
            assert(c.excludes[i] == b.excludes[i - a.excludes.len()]);
        }
    }
}

/// Every member and exclusion the walk records is a strict descendant of the
/// scan root: never the root itself, and free of special segments.
pub proof fn lemma_walk_paths_strict(d: Dir, rel: Seq<Seq<char>>, prov: Option<GitProvenanceView>)
    requires
        dir_wf(d),
        rel_path_wf(rel),
        walk_dir(d, rel, prov) is Ok,
    ensures
        paths_strict(walk_dir(d, rel, prov)->Ok_0),
    decreases d, d.items.len() + 1int, 0int,
{
    match d.repo {
        Option::None => {
            lemma_walk_items_paths_strict(d, 0, rel, prov);
        },
        Option::Some(rm) => {
            let g = resolve_provenance_spec(rm@)->Ok_0;
            lemma_walk_items_paths_strict(d, 0, rel, Option::Some(g));
        },
    }
}

proof fn lemma_walk_items_paths_strict(
    d: Dir,
    i: int,
    rel: Seq<Seq<char>>,
    prov: Option<GitProvenanceView>,
)
    requires
        dir_wf(d),
        items_wf(d, 0),
        rel_path_wf(rel),
        walk_items(d, i, rel, prov) is Ok,
    ensures
        paths_strict(walk_items(d, i, rel, prov)->Ok_0),
    decreases d, d.items.len() - i, 1int,
{
    if i < 0 || i >= d.items.len() {
    } else {
        lemma_items_wf_at(d, 0, i);
        let first = match d.items[i] {
            DirItem::Subdir(sub) => walk_dir(sub, rel.push(sub.name@), prov),
            DirItem::ManifestFile(doc) => Result::<WalkOut, WsError>::Ok(
                manifest_out(doc, rel, prov),
            ),
        };
        match d.items[i] {
            DirItem::Subdir(sub) => {
                assert forall|k: int| 0 <= k < rel.push(sub.name@).len() implies seg_wf(
                    #[trigger] rel.push(sub.name@)[k],
                ) by {
                    if k < rel.len() {
                        assert(rel.push(sub.name@)[k] == rel[k]);
                    }
                }
                lemma_walk_paths_strict(sub, rel.push(sub.name@), prov);
            },
            DirItem::ManifestFile(doc) => {
                assert(paths_strict(manifest_out(doc, rel, prov))) by {
                    if rel.len() > 0 {
                        lemma_paths_strict_concat(
                            pkg_part_of(doc, rel, prov),
                            ws_part_of(doc, rel),
                        );
                    }
                }
            },
        }
        lemma_walk_items_paths_strict(d, i + 1, rel, prov);
        lemma_paths_strict_concat(first->Ok_0, walk_items(d, i + 1, rel, prov)->Ok_0);
    }
}

/// A directory under which no checkout exists at all.
pub open spec fn checkout_free(d: Dir) -> bool
    decreases d, d.items.len() + 1int, 0int,
{
    &&& d.repo is None
    &&& checkout_free_items(d, 0)
}

pub open spec fn checkout_free_items(d: Dir, i: int) -> bool
    decreases d, d.items.len() - i, 1int,
{
    if i < 0 || i >= d.items.len() {
        true
    } else {
        (match d.items[i] {
            DirItem::Subdir(sub) => checkout_free(sub),
            DirItem::ManifestFile(_) => true,
        }) && checkout_free_items(d, i + 1)
    }
}

/// Every registry entry carries the given provenance value.
pub open spec fn registry_prov_is(o: WalkOut, prov: Option<GitProvenanceView>) -> bool {
    forall|i: int| 0 <= i < o.registry.len() ==> (#[trigger] o.registry[i]).1.git == prov
}

/// A checkout shadows whatever provenance was inherited from above: the walk
/// of a directory that is itself a checkout does not depend on the inherited
/// value at all, so no package below an inner checkout can ever receive an
/// outer checkout's provenance.
pub proof fn lemma_checkout_shadows_inherited(
    d: Dir,
    rel: Seq<Seq<char>>,
    p1: Option<GitProvenanceView>,
    p2: Option<GitProvenanceView>,
)
    requires
        d.repo is Some,
    ensures
        walk_dir(d, rel, p1) == walk_dir(d, rel, p2),
{
}


/// A package under an inner checkout receives the inner checkout's
/// provenance, never an outer one's: when a checkout has no deeper checkout
/// below it, every package in its subtree carries exactly its own resolved
/// provenance, whatever was inherited from above.
pub proof fn lemma_inner_checkout_provenance(
    d: Dir,
    rel: Seq<Seq<char>>,
    outer: Option<GitProvenanceView>,
)
    requires
        d.repo is Some,
        checkout_free_items(d, 0),
        walk_dir(d, rel, outer) is Ok,
    ensures
        resolve_provenance_spec(d.repo->0@) is Ok,
        registry_prov_is(
            walk_dir(d, rel, outer)->Ok_0,
            Option::Some(resolve_provenance_spec(d.repo->0@)->Ok_0),
        ),
{
    let g = resolve_provenance_spec(d.repo->0@)->Ok_0;
    lemma_checkout_free_items_provenance(d, 0, rel, Option::Some(g));
}

proof fn lemma_checkout_free_items_at(d: Dir, from: int, i: int)
    requires
        checkout_free_items(d, from),
        0 <= from <= i < d.items.len(),
    ensures
        match d.items[i] {
            DirItem::Subdir(sub) => checkout_free(sub),
            DirItem::ManifestFile(_) => true,
        },
    decreases i - from,
{
    if from < i {
        lemma_checkout_free_items_at(d, from + 1, i);
    }
}

/// In a subtree with no checkout anywhere, every package the walk records
/// carries exactly the inherited provenance. Together with the shadowing
/// lemma this pins down which checkout's provenance a package receives: the
/// nearest one above it.
pub proof fn lemma_checkout_free_provenance(
    d: Dir,
    rel: Seq<Seq<char>>,
    prov: Option<GitProvenanceView>,
)
    requires
        checkout_free(d),
        walk_dir(d, rel, prov) is Ok,
    ensures
        registry_prov_is(walk_dir(d, rel, prov)->Ok_0, prov),
    decreases d, d.items.len() + 1int, 0int,
{
    lemma_checkout_free_items_provenance(d, 0, rel, prov);
}

proof fn lemma_checkout_free_items_provenance(
    d: Dir,
    i: int,
    rel: Seq<Seq<char>>,
    prov: Option<GitProvenanceView>,
)
    requires
        checkout_free_items(d, 0),
        walk_items(d, i, rel, prov) is Ok,
    ensures
        registry_prov_is(walk_items(d, i, rel, prov)->Ok_0, prov),
    decreases d, d.items.len() - i, 1int,
{
    if i < 0 || i >= d.items.len() {
    } else {
        lemma_checkout_free_items_at(d, 0, i);
        let first = match d.items[i] {
            DirItem::Subdir(sub) => walk_dir(sub, rel.push(sub.name@), prov),
            DirItem::ManifestFile(doc) => Result::<WalkOut, WsError>::Ok(
                manifest_out(doc, rel, prov),
            ),
        };
        match d.items[i] {
            DirItem::Subdir(sub) => {
                lemma_checkout_free_provenance(sub, rel.push(sub.name@), prov);
            },
            DirItem::ManifestFile(doc) => {
                assert(registry_prov_is(manifest_out(doc, rel, prov), prov));
            },
        }
        lemma_checkout_free_items_provenance(d, i + 1, rel, prov);
        let a = first->Ok_0;
        let b = walk_items(d, i + 1, rel, prov)->Ok_0;
        let c = concat_out(a, b);
        assert forall|k: int| 0 <= k < c.registry.len() implies (#[trigger] c.registry[k]).1.git
            == prov by {
            if k < a.registry.len() {
                assert(c.registry[k] == a.registry[k]);
            } else {
                assert(c.registry[k] == b.registry[k - a.registry.len()]);
            }
        }
    }
}

/// The textual form of one exclusion: the nested workspace's path, extended
/// by `/` and the folded pattern when there is one.
pub open spec fn exclude_string(e: ExcludeView) -> Seq<char> {
    match e.pattern {
        Option::None => crate::paths::path_string(e.base),
        Option::Some(p) => crate::paths::path_string(e.base) + seq!['/'] + p,
    }
}

/// Render one exclusion as text.
pub fn render_exclude(e: &ExcludeEntry) -> (r: Vec<char>)
    ensures
        r@ == exclude_string(e@),
{
    let mut out = crate::paths::render_path(&e.base);
    match &e.pattern {
        Option::None => {},
        Option::Some(p) => {
            out.push('/');
            crate::chars::push_all(&mut out, p);
            assert(out@ =~= exclude_string(e@));
        },
    }
    out
}

} // verus!
