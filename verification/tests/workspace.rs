use umbrella::commits::CommitGraph;
use umbrella::deps::Mode;
use umbrella::paths::RelPath;
use umbrella::paths::render_path;
use umbrella::registry::ManifestDoc;
use umbrella::registry::PackageDecl;
use umbrella::registry::Registry;
use umbrella::registry::WorkspaceDecl;
use umbrella::remotes::Remote;
use umbrella::remotes::RemoteRef;
use umbrella::remotes::RepoModel;
use umbrella::rewrite::update_manifest_text;
use umbrella::walk::Dir;
use umbrella::walk::DirItem;
use umbrella::walk::WalkOutput;
use umbrella::walk::WorkspaceDescriptor;
use umbrella::walk::build_manifest;
use umbrella::walk::render_exclude;

fn chars(s: &str) -> Vec<char> {
    s.chars().collect()
}

fn text(v: &[char]) -> String {
    v.iter().collect()
}

fn rel(segs: &[&str]) -> RelPath {
    RelPath { segs: segs.iter().map(|s| chars(s)).collect() }
}

fn plain_doc(name: &str, version: &str, deps: Vec<(Vec<char>, umbrella::deps::Dependency)>) -> ManifestDoc {
    ManifestDoc {
        package: Some(PackageDecl { name: chars(name), version: chars(version) }),
        workspace: None,
        dependencies: deps,
        dev_dependencies: Vec::new(),
        build_dependencies: Vec::new(),
    }
}

fn empty_output() -> WalkOutput {
    WalkOutput {
        packages: Registry::new(),
        tomls: Vec::new(),
        descriptor: WorkspaceDescriptor { members: Vec::new(), excludes: Vec::new() },
        deletions: Vec::new(),
    }
}

#[test]
fn two_siblings_local_path_mode() {
    let doc_a = plain_doc("a", "1.0.0", Vec::new());
    let doc_b = plain_doc(
        "b",
        "1.0.0",
        vec![(chars("a"), umbrella::deps::Dependency::Simple(chars("1.0")))],
    );
    let tree = Dir {
        name: chars("root"),
        repo: None,
        items: vec![
            DirItem::Subdir(Dir {
                name: chars("a"),
                repo: None,
                items: vec![DirItem::ManifestFile(plain_doc("a", "1.0.0", Vec::new()))],
            }),
            DirItem::Subdir(Dir {
                name: chars("b"),
                repo: None,
                items: vec![DirItem::ManifestFile(plain_doc(
                    "b",
                    "1.0.0",
                    vec![(chars("a"), umbrella::deps::Dependency::Simple(chars("1.0")))],
                ))],
            }),
        ],
    };
    let mut out = empty_output();
    let r = build_manifest(&tree, &RelPath { segs: Vec::new() }, &None, &mut out);
    assert!(r.is_ok());
    let members: Vec<String> = out.descriptor.members.iter().map(|m| text(&render_path(m))).collect();
    assert_eq!(members, vec!["a".to_string(), "b".to_string()]);
    assert!(out.descriptor.excludes.is_empty());

    let input_b = chars("[package]\nname = \"b\"\nversion = \"1.0.0\"\n\n[dependencies]\na = \"1.0\"\n");
    let rewritten = update_manifest_text(
        &Mode::LocalPath,
        &out.packages,
        &doc_b,
        &rel(&["b"]),
        &input_b,
        &None,
    )
    .unwrap();
    assert_eq!(
        text(&rewritten),
        "[package]\nname = \"b\"\nversion = \"1.0.0\"\n\n[dependencies]\na = { path = \"../a\" }\n"
    );

    let input_a = chars("[package]\nname = \"a\"\nversion = \"1.0.0\"\n");
    let untouched = update_manifest_text(
        &Mode::LocalPath,
        &out.packages,
        &doc_a,
        &rel(&["a"]),
        &input_a,
        &None,
    )
    .unwrap();
    assert_eq!(text(&untouched), text(&input_a));
}

#[test]
fn nested_workspace_folds_excludes_and_is_deleted() {
    let doc_c = ManifestDoc {
        package: Some(PackageDecl { name: chars("c"), version: chars("0.1.0") }),
        workspace: Some(WorkspaceDecl { exclude: vec![chars("vendor")] }),
        dependencies: Vec::new(),
        dev_dependencies: Vec::new(),
        build_dependencies: Vec::new(),
    };
    let tree = Dir {
        name: chars("root"),
        repo: None,
        items: vec![DirItem::Subdir(Dir {
            name: chars("libs"),
            repo: None,
            items: vec![DirItem::Subdir(Dir {
                name: chars("c"),
                repo: None,
                items: vec![DirItem::ManifestFile(doc_c)],
            })],
        })],
    };
    let mut out = empty_output();
    let r = build_manifest(&tree, &RelPath { segs: Vec::new() }, &None, &mut out);
    assert!(r.is_ok());
    let excludes: Vec<String> =
        out.descriptor.excludes.iter().map(|e| text(&render_exclude(e))).collect();
    assert_eq!(excludes, vec!["libs/c".to_string(), "libs/c/vendor".to_string()]);
    let members: Vec<String> = out.descriptor.members.iter().map(|m| text(&render_path(m))).collect();
    assert_eq!(members, vec!["libs/c".to_string()]);
    let deletions: Vec<String> = out.deletions.iter().map(|m| text(&render_path(m))).collect();
    assert_eq!(deletions, vec!["libs/c".to_string()]);
}

#[test]
fn root_manifest_is_never_a_member() {
    let tree = Dir {
        name: chars("root"),
        repo: None,
        items: vec![DirItem::ManifestFile(plain_doc("top", "1.0.0", Vec::new()))],
    };
    let mut out = empty_output();
    let r = build_manifest(&tree, &RelPath { segs: Vec::new() }, &None, &mut out);
    assert!(r.is_ok());
    assert!(out.descriptor.members.is_empty());
    assert!(out.packages.entries.is_empty());
}

#[test]
fn registry_shadows_duplicate_names() {
    let mut reg = Registry::new();
    reg.insert(
        chars("x"),
        umbrella::registry::PackageRef { path: rel(&["first"]), git: None, version: chars("1") },
    );
    reg.insert(
        chars("x"),
        umbrella::registry::PackageRef { path: rel(&["second"]), git: None, version: chars("2") },
    );
    let got = reg.get(&chars("x")).unwrap();
    assert_eq!(text(&render_path(&got.path)), "second");
    assert!(reg.get(&chars("y")).is_none());
}

#[test]
fn missing_provenance_is_fatal_in_commit_mode() {
    let doc_b = plain_doc(
        "b",
        "1.0.0",
        vec![(chars("a"), umbrella::deps::Dependency::Simple(chars("1.0")))],
    );
    let mut reg = Registry::new();
    reg.insert(
        chars("a"),
        umbrella::registry::PackageRef { path: rel(&["a"]), git: None, version: chars("1.0.0") },
    );
    reg.insert(
        chars("b"),
        umbrella::registry::PackageRef { path: rel(&["b"]), git: None, version: chars("1.0.0") },
    );
    let input_b = chars("\n[dependencies]\na = \"1.0\"\n");
    let r = update_manifest_text(&Mode::GitRef, &reg, &doc_b, &rel(&["b"]), &input_b, &None);
    assert_eq!(r.unwrap_err(), umbrella::registry::WsError::MissingProvenance);
}

#[test]
fn nested_checkout_shadows_outer_provenance() {
    let repo = |url: &str, id: &str| RepoModel {
        graph: CommitGraph { parents: vec![vec![]] },
        head: 0,
        head_id: chars(id),
        refs: vec![RemoteRef {
            is_remote: true,
            name: chars("refs/remotes/origin/main"),
            commit: 0,
        }],
        remotes: vec![Remote { name: chars("origin"), url: chars(url) }],
    };
    let tree = Dir {
        name: chars("root"),
        repo: Some(repo("url-outer", "aaa")),
        items: vec![
            DirItem::Subdir(Dir {
                name: chars("x"),
                repo: None,
                items: vec![DirItem::ManifestFile(plain_doc("px", "1.0.0", Vec::new()))],
            }),
            DirItem::Subdir(Dir {
                name: chars("y"),
                repo: Some(repo("url-inner", "bbb")),
                items: vec![DirItem::ManifestFile(plain_doc("py", "1.0.0", Vec::new()))],
            }),
        ],
    };
    let mut out = empty_output();
    build_manifest(&tree, &RelPath { segs: Vec::new() }, &None, &mut out).unwrap();
    let px = out.packages.get(&chars("px")).unwrap();
    assert_eq!(text(&px.git.as_ref().unwrap().url), "url-outer");
    assert_eq!(text(&px.git.as_ref().unwrap().oid), "aaa");
    let py = out.packages.get(&chars("py")).unwrap();
    assert_eq!(text(&py.git.as_ref().unwrap().url), "url-inner");
    assert_eq!(text(&py.git.as_ref().unwrap().oid), "bbb");
}

#[test]
fn checkout_without_qualifying_remote_aborts_the_walk() {
    let tree = Dir {
        name: chars("root"),
        repo: Some(RepoModel {
            graph: CommitGraph { parents: vec![vec![]] },
            head: 0,
            head_id: chars("aaa"),
            refs: Vec::new(),
            remotes: Vec::new(),
        }),
        items: vec![DirItem::Subdir(Dir {
            name: chars("x"),
            repo: None,
            items: vec![DirItem::ManifestFile(plain_doc("px", "1.0.0", Vec::new()))],
        })],
    };
    let mut out = empty_output();
    let r = build_manifest(&tree, &RelPath { segs: Vec::new() }, &None, &mut out);
    assert_eq!(r.unwrap_err(), umbrella::registry::WsError::NoRemoteFound);
}
