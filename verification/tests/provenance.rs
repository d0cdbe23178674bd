use umbrella::commits::CommitGraph;
use umbrella::commits::contains_commit;
use umbrella::registry::WsError;
use umbrella::remotes::Remote;
use umbrella::remotes::RemoteRef;
use umbrella::remotes::RepoModel;
use umbrella::remotes::best_remote_with_commit;
use umbrella::remotes::resolve_provenance;

fn chars(s: &str) -> Vec<char> {
    s.chars().collect()
}

fn text(v: &[char]) -> String {
    v.iter().collect()
}

// 0 <- 1 <- 2 and 0 <- 3; 4 merges 2 and 3.
fn diamond() -> CommitGraph {
    CommitGraph { parents: vec![vec![], vec![0], vec![1], vec![0], vec![2, 3]] }
}

fn remote_ref(name: &str, commit: usize) -> RemoteRef {
    RemoteRef { is_remote: true, name: chars(name), commit }
}

fn repo(head: usize, refs: Vec<RemoteRef>, remotes: Vec<(&str, &str)>) -> RepoModel {
    RepoModel {
        graph: diamond(),
        head,
        head_id: chars("abc123"),
        refs,
        remotes: remotes
            .into_iter()
            .map(|(n, u)| Remote { name: chars(n), url: chars(u) })
            .collect(),
    }
}

#[test]
fn commit_contains_itself() {
    let g = diamond();
    for i in 0..5 {
        assert!(contains_commit(&g, i, i));
    }
}

#[test]
fn commit_ancestry_follows_parent_links() {
    let g = diamond();
    assert!(contains_commit(&g, 4, 0));
    assert!(contains_commit(&g, 4, 2));
    assert!(contains_commit(&g, 4, 3));
    assert!(contains_commit(&g, 2, 0));
    assert!(!contains_commit(&g, 2, 3));
    assert!(!contains_commit(&g, 0, 1));
    assert!(!contains_commit(&g, 3, 2));
}

#[test]
fn upstream_outranks_origin() {
    let r = repo(
        1,
        vec![
            remote_ref("refs/remotes/origin/main", 2),
            remote_ref("refs/remotes/upstream/main", 4),
        ],
        vec![("origin", "url-origin"), ("upstream", "url-upstream")],
    );
    assert_eq!(text(&best_remote_with_commit(&r).unwrap()), "url-upstream");
}

#[test]
fn unreachable_remote_does_not_qualify() {
    // head is 2; upstream points at 3, which does not contain 2.
    let r = repo(
        2,
        vec![
            remote_ref("refs/remotes/upstream/main", 3),
            remote_ref("refs/remotes/origin/main", 4),
        ],
        vec![("origin", "url-origin"), ("upstream", "url-upstream")],
    );
    assert_eq!(text(&best_remote_with_commit(&r).unwrap()), "url-origin");
}

#[test]
fn no_qualifying_remote_is_an_error() {
    let r = repo(
        4,
        vec![remote_ref("refs/remotes/origin/main", 2)],
        vec![("origin", "url-origin")],
    );
    assert_eq!(best_remote_with_commit(&r).unwrap_err(), WsError::NoRemoteFound);
}

#[test]
fn malformed_reference_name_is_fatal() {
    let r = repo(
        1,
        vec![
            remote_ref("refs/remotes/origin/main", 4),
            remote_ref("refs/heads/main", 4),
        ],
        vec![("origin", "url-origin")],
    );
    assert_eq!(best_remote_with_commit(&r).unwrap_err(), WsError::MalformedRefName);
}

#[test]
fn non_remote_references_are_skipped() {
    let r = repo(
        1,
        vec![
            RemoteRef { is_remote: false, name: chars("HEAD"), commit: 4 },
            remote_ref("refs/remotes/origin/main", 4),
        ],
        vec![("origin", "url-origin")],
    );
    assert_eq!(text(&best_remote_with_commit(&r).unwrap()), "url-origin");
}

#[test]
fn first_seen_remote_wins_among_equal_ranks() {
    let r = repo(
        1,
        vec![
            remote_ref("refs/remotes/fork1/main", 4),
            remote_ref("refs/remotes/fork2/main", 4),
        ],
        vec![("fork1", "url-fork1"), ("fork2", "url-fork2")],
    );
    assert_eq!(text(&best_remote_with_commit(&r).unwrap()), "url-fork1");
}

#[test]
fn resolution_pairs_url_with_commit_identifier() {
    let r = repo(
        1,
        vec![remote_ref("refs/remotes/origin/main", 4)],
        vec![("origin", "url-origin")],
    );
    let g = resolve_provenance(&r).unwrap();
    assert_eq!(text(&g.url), "url-origin");
    assert_eq!(text(&g.oid), "abc123");
}
