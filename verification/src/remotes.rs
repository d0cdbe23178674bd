//! The provenance resolver: which remote and commit best represent a
//! checkout's origin.
//!
//! A checkout is modelled by its commit graph, its current commit, its
//! remote-tracking references and its configured remotes. A remote-tracking
//! reference qualifies when the checkout's current commit is reachable from
//! the reference's commit by parent links. Remotes are ranked — `upstream`
//! before `origin` before everything else, ties broken by first appearance —
//! and the best qualifying one's URL wins. A remote-tracking reference whose
//! name does not have the `refs/remotes/<name>/…` form is a fatal error.
use vstd::prelude::*;

use crate::chars::chars_eq;
use crate::chars::copy_chars;
use crate::chars::copy_range;
use crate::commits::CommitGraph;
use crate::commits::contains_commit;
use crate::commits::reachable;
use crate::deps::GitProvenance;
use crate::deps::GitProvenanceView;
use crate::registry::WsError;
use crate::toks::spec_origin_word;
use crate::toks::spec_refs_word;
use crate::toks::spec_remotes_word;
use crate::toks::spec_upstream_word;
use crate::toks::tok_origin_word;
use crate::toks::tok_refs_word;
use crate::toks::tok_remotes_word;
use crate::toks::tok_upstream_word;

verus! {

/// One reference of the checkout: whether it is remote-tracking, its full
/// name, and the commit it points at.
pub struct RemoteRef {
    pub is_remote: bool,
    pub name: Vec<char>,
    pub commit: usize,
}

#[verifier::ext_equal]
pub struct RemoteRefView {
    pub is_remote: bool,
    pub name: Seq<char>,
    pub commit: int,
}

impl View for RemoteRef {
    type V = RemoteRefView;

    open spec fn view(&self) -> RemoteRefView {
        RemoteRefView { is_remote: self.is_remote, name: self.name@, commit: self.commit as int }
    }
}

/// One configured remote: its short name and URL.
pub struct Remote {
    pub name: Vec<char>,
    pub url: Vec<char>,
}

#[verifier::ext_equal]
pub struct RemoteView {
    pub name: Seq<char>,
    pub url: Seq<char>,
}

impl View for Remote {
    type V = RemoteView;

    open spec fn view(&self) -> RemoteView {
        RemoteView { name: self.name@, url: self.url@ }
    }
}

pub open spec fn refs_view(v: Seq<RemoteRef>) -> Seq<RemoteRefView> {
    Seq::new(v.len(), |i: int| v[i]@)
}

pub open spec fn remotes_view(v: Seq<Remote>) -> Seq<RemoteView> {
    Seq::new(v.len(), |i: int| v[i]@)
}

/// Everything the resolver reads of one checkout.
pub struct RepoModel {
    pub graph: CommitGraph,
    pub head: usize,
    pub head_id: Vec<char>,
    pub refs: Vec<RemoteRef>,
    pub remotes: Vec<Remote>,
}

#[verifier::ext_equal]
pub struct RepoModelView {
    pub graph: CommitGraph,
    pub head: int,
    pub head_id: Seq<char>,
    pub refs: Seq<RemoteRefView>,
    pub remotes: Seq<RemoteView>,
}

impl View for RepoModel {
    type V = RepoModelView;

    open spec fn view(&self) -> RepoModelView {
        RepoModelView {
            graph: self.graph,
            head: self.head as int,
            head_id: self.head_id@,
            refs: refs_view(self.refs@),
            remotes: remotes_view(self.remotes@),
        }
    }
}

/// First position at or after `from` holding `c`, or the end.
pub open spec fn char_pos(s: Seq<char>, from: int, c: char) -> int
    decreases s.len() - from,
    when 0 <= from <= s.len()
{
    if from >= s.len() {
        s.len() as int
    } else if s[from] == c {
        from
    } else {
        char_pos(s, from + 1, c)
    }
}

pub proof fn lemma_char_pos(s: Seq<char>, from: int, c: char)
    requires
        0 <= from <= s.len(),
    ensures
        from <= char_pos(s, from, c) <= s.len(),
    decreases s.len() - from,
{
    if from >= s.len() {
    } else if s[from] == c {
    } else {
        lemma_char_pos(s, from + 1, c);
    }
}

/// A remote-tracking reference name of the expected three-segment form:
/// `refs`, `remotes`, then the remote's short name.
pub open spec fn ref_name_wf(n: Seq<char>) -> bool {
    let i1 = char_pos(n, 0, '/');
    let i2 = char_pos(n, i1 + 1, '/');
    &&& i1 < n.len()
    &&& i2 < n.len()
    &&& n.subrange(0, i1) == spec_refs_word()
    &&& n.subrange(i1 + 1, i2) == spec_remotes_word()
}

/// The remote's short name inside a well-formed reference name.
pub open spec fn ref_short_name(n: Seq<char>) -> Seq<char> {
    let i1 = char_pos(n, 0, '/');
    let i2 = char_pos(n, i1 + 1, '/');
    let i3 = char_pos(n, i2 + 1, '/');
    n.subrange(i2 + 1, i3)
}

fn find_char_from(s: &Vec<char>, from: usize, c: char) -> (q: usize)
    requires
        from <= s@.len(),
    ensures
        q as int == char_pos(s@, from as int, c),
{
    let mut q = from;
    while q < s.len()
        invariant
            from <= q <= s@.len(),
            char_pos(s@, from as int, c) == char_pos(s@, q as int, c),
        decreases s@.len() - q,
    {
        if s[q] == c {
            return q;
        }
        q += 1;
    }
    q
}

fn range_eq_at(s: &Vec<char>, from: usize, to: usize, w: &Vec<char>) -> (r: bool)
    requires
        from <= to <= s@.len(),
    ensures
        r == (s@.subrange(from as int, to as int) == w@),
{
    if to - from != w.len() {
        assert(s@.subrange(from as int, to as int).len() != w@.len());
        return false;
    }
    crate::chars::range_eq(s, from, w)
}

/// Parse a reference name; the short remote name on success.
fn parse_ref_short_name(name: &Vec<char>) -> (r: Option<Vec<char>>)
    ensures
        match r {
            Option::Some(short) => ref_name_wf(name@) && short@ == ref_short_name(name@),
            Option::None => !ref_name_wf(name@),
        },
{
    let i1 = find_char_from(name, 0, '/');
    proof {
        lemma_char_pos(name@, 0, '/');
    }
    if i1 >= name.len() {
        return Option::None;
    }
    let i2 = find_char_from(name, i1 + 1, '/');
    proof {
        lemma_char_pos(name@, i1 + 1 as int, '/');
    }
    if i2 >= name.len() {
        return Option::None;
    }
    let refs_w = tok_refs_word();
    if !range_eq_at(name, 0, i1, &refs_w) {
        return Option::None;
    }
    let remotes_w = tok_remotes_word();
    if !range_eq_at(name, i1 + 1, i2, &remotes_w) {
        return Option::None;
    }
    let i3 = find_char_from(name, i2 + 1, '/');
    proof {
        lemma_char_pos(name@, i2 + 1 as int, '/');
    }
    Option::Some(copy_range(name, i2 + 1, i3))
}

/// A remote's rank: `upstream` first, `origin` second, all others last.
pub open spec fn remote_score(short: Seq<char>) -> int {
    if short == spec_upstream_word() {
        0
    } else if short == spec_origin_word() {
        1
    } else {
        2
    }
}

fn remote_score_exec(short: &Vec<char>) -> (r: usize)
    ensures
        r as int == remote_score(short@),
{
    if chars_eq(short, &tok_upstream_word()) {
        0
    } else if chars_eq(short, &tok_origin_word()) {
        1
    } else {
        2
    }
}

/// The URL a short name resolves to: the last configured entry of that name.
pub open spec fn lookup_url(remotes: Seq<RemoteView>, name: Seq<char>) -> Option<Seq<char>>
    decreases remotes.len(),
{
    if remotes.len() == 0 {
        Option::None
    } else if remotes.last().name == name {
        Option::Some(remotes.last().url)
    } else {
        lookup_url(remotes.drop_last(), name)
    }
}

fn lookup_url_exec(remotes: &Vec<Remote>, name: &Vec<char>) -> (r: Option<Vec<char>>)
    ensures
        match r {
            Option::Some(u) => lookup_url(remotes_view(remotes@), name@) == Option::Some(u@),
            Option::None => lookup_url(remotes_view(remotes@), name@) is None,
        },
{
    let ghost rv = remotes_view(remotes@);
    let mut i = remotes.len();
    assert(rv.take(i as int) =~= rv);
    while i > 0
        invariant
            i <= remotes@.len(),
            rv == remotes_view(remotes@),
            lookup_url(rv, name@) == lookup_url(rv.take(i as int), name@),
        decreases i,
    {
        let idx = i - 1;
        proof {
            assert(rv.take(i as int).last() == rv[idx as int]);
            assert(rv.take(i as int).drop_last() =~= rv.take(idx as int));
        }
        if chars_eq(&remotes[idx].name, name) {
            return Option::Some(copy_chars(&remotes[idx].url));
        }
        i = idx;
    }
    assert(rv.take(0) =~= Seq::<RemoteView>::empty());
    Option::None
}

/// A remote-tracking reference with a name not of the expected form.
pub open spec fn bad_ref(m: RepoModelView, i: int) -> bool {
    &&& 0 <= i < m.refs.len()
    &&& m.refs[i].is_remote
    &&& !ref_name_wf(m.refs[i].name)
}

/// Reference `i` qualifies: remote-tracking, well-formed, and the current
/// commit is reachable from its commit.
pub open spec fn qualifies(m: RepoModelView, i: int) -> bool {
    &&& 0 <= i < m.refs.len()
    &&& m.refs[i].is_remote
    &&& ref_name_wf(m.refs[i].name)
    &&& reachable(m.graph, m.refs[i].commit, m.head)
}

/// Reference `i` is the winner: it qualifies, and every qualifying
/// reference ranks no better — lower score wins, first appearance breaks
/// ties.
pub open spec fn is_best(m: RepoModelView, i: int) -> bool {
    &&& qualifies(m, i)
    &&& forall|j: int| #[trigger] qualifies(m, j) ==> remote_score(ref_short_name(m.refs[i].name))
        < remote_score(ref_short_name(m.refs[j].name)) || (remote_score(
        ref_short_name(m.refs[i].name),
    ) == remote_score(ref_short_name(m.refs[j].name)) && i <= j)
}

pub proof fn lemma_is_best_unique(m: RepoModelView, i: int, j: int)
    requires
        is_best(m, i),
        is_best(m, j),
    ensures
        i == j,
{
    assert(qualifies(m, i));
    assert(qualifies(m, j));
}

/// The model is coherent: the graph is acyclic with the current commit and
/// every reference's commit inside it, and every well-formed remote-tracking
/// reference names a configured remote.
pub open spec fn repo_wf(m: RepoModelView) -> bool {
    &&& m.graph.wf()
    &&& 0 <= m.head < m.graph.spec_len()
    &&& forall|i: int| 0 <= i < m.refs.len() ==> 0 <= #[trigger] m.refs[i].commit
        < m.graph.spec_len()
    &&& forall|i: int| 0 <= i < m.refs.len() && m.refs[i].is_remote && ref_name_wf(
        #[trigger] m.refs[i].name,
    ) ==> lookup_url(m.remotes, ref_short_name(m.refs[i].name)) is Some
}

/// What resolution returns: a malformed remote-tracking reference name is
/// fatal; otherwise the best qualifying remote's URL, and "no remote found"
/// when none qualifies.
pub open spec fn best_remote_spec(m: RepoModelView) -> Result<Seq<char>, WsError> {
    if exists|i: int| bad_ref(m, i) {
        Result::Err(WsError::MalformedRefName)
    } else if exists|i: int| qualifies(m, i) {
        let b = choose|i: int| is_best(m, i);
        Result::Ok(lookup_url(m.remotes, ref_short_name(m.refs[b].name))->0)
    } else {
        Result::Err(WsError::NoRemoteFound)
    }
}

/// Resolve the best remote's URL for the checkout's current commit.
pub fn best_remote_with_commit(repo: &RepoModel) -> (r: Result<Vec<char>, WsError>)
    requires
        repo_wf(repo@),
    ensures
        match r {
            Result::Ok(u) => best_remote_spec(repo@) == Result::<Seq<char>, WsError>::Ok(u@),
            Result::Err(e) => best_remote_spec(repo@) == Result::<Seq<char>, WsError>::Err(e),
        },
{
    let ghost m = repo@;
    let mut best_url: Option<Vec<char>> = Option::None;
    let mut best_score: usize = 3;
    let ghost mut best_idx: int = 0;
    let mut i: usize = 0;
    while i < repo.refs.len()
        invariant
            repo_wf(m),
            m == repo@,
            i <= repo.refs@.len(),
            forall|k: int| 0 <= k < i ==> !bad_ref(m, k),
            best_url is None ==> best_score == 3 && (forall|k: int| 0 <= k < i ==> !qualifies(
                m,
                k,
            )),
            best_url is Some ==> {
                &&& qualifies(m, best_idx)
                &&& best_idx < i
                &&& best_score as int == remote_score(ref_short_name(m.refs[best_idx].name))
                &&& best_score < 3
                &&& lookup_url(m.remotes, ref_short_name(m.refs[best_idx].name))
                    == Option::Some(best_url->0@)
                &&& forall|k: int| 0 <= k < i && #[trigger] qualifies(m, k) ==> (
                best_score as int) < remote_score(ref_short_name(m.refs[k].name)) || ((
                best_score as int) == remote_score(ref_short_name(m.refs[k].name)) && best_idx
                    <= k)
            },
        decreases repo.refs@.len() - i,
    {
        assert(m.refs[i as int] == repo.refs@[i as int]@);
        if !repo.refs[i].is_remote {
            i += 1;
            continue ;
        }
        let short = match parse_ref_short_name(&repo.refs[i].name) {
            Option::None => {
                assert(bad_ref(m, i as int));
                return Result::Err(WsError::MalformedRefName);
            },
            Option::Some(s) => s,
        };
        let score = remote_score_exec(&short);
        if score >= best_score {
            proof {
                if qualifies(m, i as int) {
                }
            }
            i += 1;
            continue ;
        }
        assert(0 <= m.refs[i as int].commit < m.graph.spec_len());
        if !contains_commit(&repo.graph, repo.refs[i].commit, repo.head) {
            assert(!qualifies(m, i as int));
            i += 1;
            continue ;
        }
        assert(qualifies(m, i as int));
        match lookup_url_exec(&repo.remotes, &short) {
            Option::None => {
                proof {
                    assert(lookup_url(m.remotes, ref_short_name(m.refs[i as int].name)) is Some);
                    assert(false);
                }
            },
            Option::Some(u) => {
                best_url = Option::Some(u);
                best_score = score;
                proof {
                    best_idx = i as int;
                }
            },
        }
        i += 1;
    }
    match best_url {
        Option::None => {
            assert(forall|k: int| !bad_ref(m, k));
            assert(forall|k: int| !qualifies(m, k));
            Result::Err(WsError::NoRemoteFound)
        },
        Option::Some(u) => {
            proof {
                assert(forall|k: int| !bad_ref(m, k));
                assert(is_best(m, best_idx));
                let b = choose|k: int| is_best(m, k);
                lemma_is_best_unique(m, b, best_idx);
            }
            Result::Ok(u)
        },
    }
}

/// Resolution as provenance: the winning URL and the current commit's
/// textual identifier.
pub open spec fn resolve_provenance_spec(m: RepoModelView) -> Result<GitProvenanceView, WsError> {
    match best_remote_spec(m) {
        Result::Err(e) => Result::Err(e),
        Result::Ok(u) => Result::Ok(GitProvenanceView { url: u, oid: m.head_id }),
    }
}

/// Resolve a checkout's provenance.
pub fn resolve_provenance(repo: &RepoModel) -> (r: Result<GitProvenance, WsError>)
    requires
        repo_wf(repo@),
    ensures
        match r {
            Result::Ok(g) => resolve_provenance_spec(repo@) == Result::<
                GitProvenanceView,
                WsError,
            >::Ok(g@),
            Result::Err(e) => resolve_provenance_spec(repo@) == Result::<
                GitProvenanceView,
                WsError,
            >::Err(e),
        },
{
    match best_remote_with_commit(repo) {
        Result::Err(e) => Result::Err(e),
        Result::Ok(u) => Result::Ok(
            GitProvenance { url: u, oid: copy_chars(&repo.head_id) },
        ),
    }
}

} // verus!
