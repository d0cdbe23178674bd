use umbrella::deps::DepDetail;
use umbrella::deps::Dependency;
use umbrella::deps::GitProvenance;
use umbrella::deps::Mode;
use umbrella::deps::clone_git_dep;
use umbrella::deps::clone_path_dep;
use umbrella::deps::clone_ver_dep;
use umbrella::inline::dep_inline;
use umbrella::paths::RelPath;
use umbrella::paths::rel_diff;
use umbrella::paths::render_path;
use umbrella::registry::ManifestDoc;
use umbrella::registry::PackageDecl;
use umbrella::registry::PackageRef;
use umbrella::registry::Registry;
use umbrella::rewrite::update_manifest_text;
use umbrella::splitter::SplitState;
use umbrella::splitter::split_sections;

fn chars(s: &str) -> Vec<char> {
    s.chars().collect()
}

fn text(v: &[char]) -> String {
    v.iter().collect()
}

fn rel(segs: &[&str]) -> RelPath {
    RelPath { segs: segs.iter().map(|s| chars(s)).collect() }
}

fn detailed(
    version: Option<&str>,
    path: Option<&str>,
    features: Vec<&str>,
    optional: bool,
    default_features: Option<bool>,
) -> Dependency {
    Dependency::Detailed(DepDetail {
        version: version.map(chars),
        path: path.map(chars),
        git: None,
        rev: None,
        features: features.into_iter().map(chars).collect(),
        optional,
        default_features,
    })
}

#[test]
fn splitter_round_trip_reproduces_input() {
    let samples = [
        "",
        "no headers at all",
        "\n[dependencies]\nfoo = \"1\"\n",
        "x\n[a]\nY\n[b]\nZ",
        "\n[]\n",
        "\n[weird]name]\ntail",
        "\n[open\nnot a header",
        "trailing newline\n",
    ];
    for s in samples {
        let input = chars(s);
        let spans = split_sections(&input);
        let mut rebuilt = String::new();
        for sp in &spans {
            match sp {
                SplitState::Unmatched(u) => rebuilt.push_str(&text(u)),
                SplitState::Captured(nm) => {
                    rebuilt.push_str(&format!("\n[{}]\n", text(nm)));
                },
            }
        }
        assert_eq!(rebuilt, s);
    }
}

#[test]
fn splitter_captures_section_names() {
    let input = chars("\n[dependencies]\nfoo = \"1\"\n\n[dev-dependencies]\nbar = \"2\"\n");
    let spans = split_sections(&input);
    let names: Vec<String> = spans
        .iter()
        .filter_map(|s| match s {
            SplitState::Captured(nm) => Some(text(nm)),
            _ => None,
        })
        .collect();
    assert_eq!(names, vec!["dependencies".to_string(), "dev-dependencies".to_string()]);
}

#[test]
fn version_mode_preserves_optional_flag() {
    let src = detailed(None, Some("../c"), Vec::new(), true, None);
    let new_dep = clone_ver_dep(&src, &chars("2.1.0"));
    match &new_dep {
        Dependency::Detailed(d) => {
            assert_eq!(d.version.as_ref().map(|v| text(v)), Some("2.1.0".to_string()));
            assert!(d.path.is_none());
            assert!(d.git.is_none());
            assert!(d.rev.is_none());
            assert!(d.optional);
        },
        _ => panic!("expected the detailed form"),
    }
    match &new_dep {
        Dependency::Detailed(d) => {
            let line = dep_inline(&chars("c"), d);
            assert_eq!(text(&line), "c = { version = \"2.1.0\", optional = true }");
        },
        _ => unreachable!(),
    }
}

#[test]
fn path_mode_carries_features_and_default_features() {
    let src = detailed(Some("1.0"), None, vec!["serde", "std"], false, Some(false));
    let new_dep = clone_path_dep(&src, chars("../a"));
    match &new_dep {
        Dependency::Detailed(d) => {
            let line = dep_inline(&chars("a"), d);
            assert_eq!(
                text(&line),
                "a = { path = \"../a\", features = [\"serde\", \"std\"], default-features = false }"
            );
        },
        _ => panic!("expected the detailed form"),
    }
}

#[test]
fn git_mode_pins_remote_and_commit() {
    let src = Dependency::Simple(chars("0.3"));
    let origin = GitProvenance {
        url: chars("https://example.org/repo.git"),
        oid: chars("0123abcd"),
    };
    let new_dep = clone_git_dep(&src, &origin);
    match &new_dep {
        Dependency::Detailed(d) => {
            let line = dep_inline(&chars("g"), d);
            assert_eq!(
                text(&line),
                "g = { git = \"https://example.org/repo.git\", rev = \"0123abcd\" }"
            );
        },
        _ => panic!("expected the detailed form"),
    }
}

#[test]
fn inline_form_escapes_quotes_and_backslashes() {
    let src = Dependency::Simple(chars("1"));
    let new_dep = clone_path_dep(&src, chars("odd\\name\"x"));
    match &new_dep {
        Dependency::Detailed(d) => {
            let line = dep_inline(&chars("q"), d);
            assert_eq!(text(&line), "q = { path = \"odd\\\\name\\\"x\" }");
        },
        _ => panic!("expected the detailed form"),
    }
}

#[test]
fn rel_diff_climbs_and_descends() {
    assert_eq!(text(&render_path(&rel_diff(&rel(&["a"]), &rel(&["b"])))), "../a");
    assert_eq!(text(&render_path(&rel_diff(&rel(&["x", "y"]), &rel(&["x", "z"])))), "../y");
    assert_eq!(text(&render_path(&rel_diff(&rel(&["x", "y"]), &rel(&["x"])))), "y");
    assert_eq!(text(&render_path(&rel_diff(&rel(&[]), &rel(&["deep", "base"])))), "../..");
    assert_eq!(text(&render_path(&rel_diff(&rel(&["same"]), &rel(&["same"])))), "");
}

#[test]
fn local_path_rewrite_is_idempotent_on_text() {
    let doc = ManifestDoc {
        package: Some(PackageDecl { name: chars("b"), version: chars("1.0.0") }),
        workspace: None,
        dependencies: vec![(chars("a"), Dependency::Simple(chars("1.0")))],
        dev_dependencies: Vec::new(),
        build_dependencies: Vec::new(),
    };
    let mut reg = Registry::new();
    reg.insert(chars("a"), PackageRef { path: rel(&["a"]), git: None, version: chars("1.0.0") });
    let input = chars("\n[dependencies]\na = \"1.0\"\n");
    let once = update_manifest_text(&Mode::LocalPath, &reg, &doc, &rel(&["b"]), &input, &None)
        .unwrap();
    let twice = update_manifest_text(&Mode::LocalPath, &reg, &doc, &rel(&["b"]), &once, &None)
        .unwrap();
    assert_eq!(text(&once), "\n[dependencies]\na = { path = \"../a\" }\n");
    assert_eq!(text(&twice), text(&once));
}

#[test]
fn unknown_dependencies_and_other_sections_are_untouched() {
    let doc = ManifestDoc {
        package: Some(PackageDecl { name: chars("b"), version: chars("1.0.0") }),
        workspace: None,
        dependencies: vec![
            (chars("serde"), Dependency::Simple(chars("1.0"))),
            (chars("a"), Dependency::Simple(chars("1.0"))),
        ],
        dev_dependencies: Vec::new(),
        build_dependencies: Vec::new(),
    };
    let mut reg = Registry::new();
    reg.insert(chars("a"), PackageRef { path: rel(&["a"]), git: None, version: chars("3.0.0") });
    let input = chars(
        "\n[features]\na = []\n\n[dependencies]\nserde = \"1.0\"\na = \"1.0\"\n# comment kept\n",
    );
    let out = update_manifest_text(&Mode::Version, &reg, &doc, &rel(&["b"]), &input, &None)
        .unwrap();
    assert_eq!(
        text(&out),
        "\n[features]\na = []\n\n[dependencies]\nserde = \"1.0\"\na = { version = \"3.0.0\" }\n# comment kept\n"
    );
}

#[test]
fn git_mode_same_remote_falls_back_to_path() {
    let prov = |url: &str| GitProvenance { url: chars(url), oid: chars("feedbeef") };
    let doc = ManifestDoc {
        package: Some(PackageDecl { name: chars("b"), version: chars("1.0.0") }),
        workspace: None,
        dependencies: vec![(chars("a"), Dependency::Simple(chars("1.0")))],
        dev_dependencies: Vec::new(),
        build_dependencies: Vec::new(),
    };
    let mut reg = Registry::new();
    reg.insert(
        chars("a"),
        PackageRef {
            path: rel(&["a"]),
            git: Some(prov("ssh://one")),
            version: chars("1.0.0"),
        },
    );
    let input = chars("\n[dependencies]\na = \"1.0\"\n");
    let same = update_manifest_text(
        &Mode::GitRef,
        &reg,
        &doc,
        &rel(&["b"]),
        &input,
        &Some(prov("ssh://one")),
    )
    .unwrap();
    assert_eq!(text(&same), "\n[dependencies]\na = { path = \"../a\" }\n");
    let other = update_manifest_text(
        &Mode::GitRef,
        &reg,
        &doc,
        &rel(&["b"]),
        &input,
        &Some(prov("ssh://two")),
    )
    .unwrap();
    assert_eq!(
        text(&other),
        "\n[dependencies]\na = { git = \"ssh://one\", rev = \"feedbeef\" }\n"
    );
}

#[test]
fn dev_and_build_sections_use_their_own_dependency_sets() {
    let doc = ManifestDoc {
        package: Some(PackageDecl { name: chars("b"), version: chars("1.0.0") }),
        workspace: None,
        dependencies: Vec::new(),
        dev_dependencies: vec![(chars("a"), Dependency::Simple(chars("1.0")))],
        build_dependencies: Vec::new(),
    };
    let mut reg = Registry::new();
    reg.insert(chars("a"), PackageRef { path: rel(&["a"]), git: None, version: chars("9.9.9") });
    let input = chars("\n[dev-dependencies]\na = \"1.0\"\n\n[build-dependencies]\na = \"1.0\"\n");
    let out = update_manifest_text(&Mode::Version, &reg, &doc, &rel(&["b"]), &input, &None)
        .unwrap();
    assert_eq!(
        text(&out),
        "\n[dev-dependencies]\na = { version = \"9.9.9\" }\n\n[build-dependencies]\na = \"1.0\"\n"
    );
}
