use nvim_conventional_commits::{ManifestFiles, Monorepo};

struct Fixture {
    lerna_json: Option<&'static str>,
    files: Vec<(&'static str, &'static str)>,
}

fn package_files(fixture: &mut Vec<(&'static str, &'static str)>) {
    fixture.push(("package.json", r#"{"name":"root","private":true}"#));
    fixture.push(("packages/package1/package.json", r#"{"name":"package1","version":"1.0.0"}"#));
    fixture.push(("packages/package1/index.js", "module.exports = 1;"));
    fixture.push(("packages/package2/package.json", r#"{"name":"package2","version":"1.0.0"}"#));
    fixture.push(("packages/package2/index.js", "module.exports = 2;"));
}

fn fixture(name: &str) -> Fixture {
    let mut files = Vec::new();
    match name {
        "tests/fixtures/simple-repo" => {
            package_files(&mut files);
            Fixture { lerna_json: None, files }
        }
        "tests/fixtures/lerna-monorepo" => {
            package_files(&mut files);
            Fixture { lerna_json: Some(r#"{"packages":["packages/*"],"version":"independent"}"#), files }
        }
        "tests/fixtures/complex-lerna-monorepo" => {
            files.push(("package.json", r#"{"name":"complex","private":true}"#));
            files.push(("apps/app1/package.json", r#"{"name":"app1"}"#));
            files.push(("apps/app1/index.js", "app1"));
            files.push(("apps/app3/package.json", r#"{"name":"@org/app3-x"}"#));
            files.push(("apps/app3/src/index.js", "app3"));
            files.push(("libs/lib1/package.json", r#"{"name":"lib1"}"#));
            files.push(("libs/lib1/index.js", "lib1"));
            files.push(("spikes/spike1/package.json", r#"{"name":"spike1"}"#));
            files.push(("spikes/spike1/index.js", "spike1"));
            Fixture { lerna_json: Some(r#"{"packages":["apps/*","libs/*"]}"#), files }
        }
        _ => panic!("unknown fixture {}", name),
    }
}

// The files that `git add` stages for the given pathspecs: a trailing `/*`
// or a directory name selects every file below that directory.
fn staged(fixture: &Fixture, pathspecs: &[&str]) -> Vec<String> {
    let mut out = Vec::new();
    for (path, _) in &fixture.files {
        let selected = pathspecs.iter().any(|spec| {
            let dir = spec.trim_end_matches('*').trim_end_matches('/');
            dir.is_empty() || path.starts_with(&format!("{}/", dir)) || *path == dir
        });
        if selected {
            out.push(path.to_string());
        }
    }
    out
}

fn manifests_of(fixture: &Fixture) -> ManifestFiles {
    let mut manifests = ManifestFiles::new();
    for (path, contents) in &fixture.files {
        if let Some(dir) = path.strip_suffix("/package.json") {
            manifests.insert(dir.to_string(), contents.to_string());
        }
    }
    manifests
}

fn commit_scopes(fixture_name: &str, pathspecs: &[&str]) -> Vec<String> {
    let fx = fixture(fixture_name);
    let monorepo = Monorepo::new(fx.lerna_json);
    monorepo.get_commit_scopes(&staged(&fx, pathspecs), &manifests_of(&fx))
}

struct TestCase<'a> {
    description: &'a str,
    fixture: &'a str,
    staged_paths: Vec<&'a str>,
    expected_scopes: Vec<&'a str>,
}

#[test]
fn basic_tests() {
    let test_cases = vec![
        TestCase {
            description: "it returns no scopes",
            fixture: "tests/fixtures/simple-repo",
            staged_paths: vec!["packages/package1/*", "packages/package2/*"],
            expected_scopes: vec![],
        },
        TestCase {
            description: "it returns commit message with multiple scopes",
            fixture: "tests/fixtures/lerna-monorepo",
            staged_paths: vec!["packages/package1/*", "packages/package2/*"],
            expected_scopes: vec!["package1", "package2"],
        },
        TestCase {
            description: "it returns commit message with one scope",
            fixture: "tests/fixtures/lerna-monorepo",
            staged_paths: vec!["packages/package1/*"],
            expected_scopes: vec!["package1"],
        },
        TestCase {
            description: "it respects lerna config",
            fixture: "tests/fixtures/complex-lerna-monorepo",
            staged_paths: vec!["apps/app1", "libs/lib1"],
            expected_scopes: vec!["app1", "lib1"],
        },
        TestCase {
            description: "it ignores path not in lerna packages config",
            fixture: "tests/fixtures/complex-lerna-monorepo",
            staged_paths: vec!["spikes/spike1/*"],
            expected_scopes: vec![],
        },
        TestCase {
            description: "it uses package.json name for the scope (not directory name)",
            fixture: "tests/fixtures/complex-lerna-monorepo",
            staged_paths: vec!["apps/app3"],
            expected_scopes: vec!["app3-x"],
        },
    ];

    for tc in test_cases {
        println!("Running test: {}", tc.description);
        let scopes = commit_scopes(tc.fixture, &tc.staged_paths);
        assert_eq!(scopes, tc.expected_scopes);
    }
}

#[test]
fn integration_test_it_handles_repo_subdirectory() {
    // Staged paths are relative to the repository root wherever the
    // resolution starts from.
    let scopes = commit_scopes("tests/fixtures/lerna-monorepo", &["packages/package1/*"]);
    assert_eq!(scopes, vec!["package1"]);
}

#[test]
fn it_returns_commit_message_with_multiple_scopes() {
    let scopes = commit_scopes(
        "tests/fixtures/lerna-monorepo",
        &["packages/package1/*", "packages/package2/*"],
    );
    assert_eq!(scopes, vec!["package1", "package2"]);
}

#[test]
fn it_returns_commit_message_with_one_scope() {
    let commit_msg = commit_scopes("tests/fixtures/lerna-monorepo", &["packages/package1/*"]);
    assert_eq!(commit_msg, vec!["package1"]);
}

#[test]
fn it_respects_lerna_config() {
    let commit_msg = commit_scopes("tests/fixtures/complex-lerna-monorepo", &["apps/app1", "libs/lib1"]);
    assert_eq!(commit_msg, vec!["app1", "lib1"]);
}

#[test]
fn it_ignores_path_not_in_packages_config() {
    let scopes = commit_scopes("tests/fixtures/complex-lerna-monorepo", &["spikes/spike1/*"]);
    let empty_vec: Vec<String> = Vec::new();
    assert_eq!(scopes, empty_vec);
}

#[test]
fn lerna_test_it_handles_repo_subdirectory() {
    let commit_msg = commit_scopes("tests/fixtures/lerna-monorepo", &["packages/package1/*"]);
    assert_eq!(commit_msg, vec!["package1"]);
}

#[test]
fn it_returns_no_scopes() {
    let scopes = commit_scopes("tests/fixtures/simple-repo", &["*"]);
    let empty_vec: Vec<String> = Vec::new();
    assert_eq!(scopes, empty_vec);
}

#[test]
fn no_descriptor_gives_no_scopes_whatever_the_manifests() {
    let mut manifests = ManifestFiles::new();
    manifests.insert("packages/a".to_string(), r#"{"name":"a"}"#.to_string());
    manifests.insert("packages".to_string(), r#"{"name":"p"}"#.to_string());
    let staged = vec!["packages/a/x.txt".to_string(), "packages/b.txt".to_string()];
    assert!(Monorepo::new(None).get_commit_scopes(&staged, &manifests).is_empty());
}

#[test]
fn invalid_descriptor_gives_no_scopes() {
    let mut manifests = ManifestFiles::new();
    manifests.insert("packages/a".to_string(), r#"{"name":"a"}"#.to_string());
    let staged = vec!["packages/a/x.txt".to_string()];
    for descriptor in [
        "not json",
        r#"{"packages":"packages/*"}"#,
        r#"{"packages":["packages/*", 3]}"#,
        r#"{"version":"1.0.0"}"#,
        r#"{"packages":["packages/{a,b"]}"#,
    ] {
        let monorepo = Monorepo::new(Some(descriptor));
        assert!(matches!(monorepo, Monorepo::NoMonorepo), "{}", descriptor);
        assert!(monorepo.get_commit_scopes(&staged, &manifests).is_empty());
    }
}

#[test]
fn file_in_package_resolves_to_its_name() {
    let mut manifests = ManifestFiles::new();
    manifests.insert("packages/package1".to_string(), r#"{"name":"package1"}"#.to_string());
    let monorepo = Monorepo::new(Some(r#"{"packages":["packages/*"]}"#));
    let scopes = monorepo.get_commit_scopes(&vec!["packages/package1/x.txt".to_string()], &manifests);
    assert_eq!(scopes, vec!["package1"]);
}

#[test]
fn files_of_one_package_give_its_name_once() {
    let mut manifests = ManifestFiles::new();
    manifests.insert("packages/p".to_string(), r#"{"name":"p"}"#.to_string());
    let monorepo = Monorepo::new(Some(r#"{"packages":["packages/*"]}"#));
    let staged = vec![
        "packages/p/a.txt".to_string(),
        "packages/p/src/b.rs".to_string(),
        "packages/p/a.txt".to_string(),
        "packages/p/package.json".to_string(),
    ];
    assert_eq!(monorepo.get_commit_scopes(&staged, &manifests), vec!["p"]);
}

#[test]
fn distinct_packages_sorted_whatever_the_order() {
    let mut manifests = ManifestFiles::new();
    for name in ["zeta", "alpha", "Mid", "beta"] {
        manifests.insert(format!("packages/{}", name), format!(r#"{{"name":"{}"}}"#, name));
    }
    let monorepo = Monorepo::new(Some(r#"{"packages":["packages/*"]}"#));
    let staged = vec![
        "packages/zeta/a".to_string(),
        "packages/beta/b".to_string(),
        "packages/alpha/c".to_string(),
        "packages/Mid/d".to_string(),
        "packages/beta/e".to_string(),
    ];
    let mut reversed = staged.clone();
    reversed.reverse();
    let scopes = monorepo.get_commit_scopes(&staged, &manifests);
    assert_eq!(scopes, vec!["Mid", "alpha", "beta", "zeta"]);
    assert_eq!(monorepo.get_commit_scopes(&reversed, &manifests), scopes);
}

#[test]
fn manifest_outside_globs_is_skipped_for_an_outer_package() {
    let mut manifests = ManifestFiles::new();
    manifests.insert("apps/app1".to_string(), r#"{"name":"app1"}"#.to_string());
    manifests.insert("apps/app1/tools".to_string(), r#"{"name":"tools"}"#.to_string());
    manifests.insert("spikes/spike1".to_string(), r#"{"name":"spike1"}"#.to_string());
    let monorepo = Monorepo::new(Some(r#"{"packages":["apps/*","libs/*"]}"#));
    let scopes = monorepo.get_commit_scopes(
        &vec!["apps/app1/tools/build.js".to_string(), "spikes/spike1/file".to_string()],
        &manifests,
    );
    assert_eq!(scopes, vec!["app1"]);
}

#[test]
fn nearest_matching_package_wins() {
    let mut manifests = ManifestFiles::new();
    manifests.insert("packages/outer".to_string(), r#"{"name":"outer"}"#.to_string());
    manifests.insert("packages/outer/packages/inner".to_string(), r#"{"name":"inner"}"#.to_string());
    let monorepo = Monorepo::new(Some(r#"{"packages":["packages/*","packages/*/packages/*"]}"#));
    let scopes = monorepo.get_commit_scopes(
        &vec!["packages/outer/packages/inner/lib.rs".to_string()],
        &manifests,
    );
    assert_eq!(scopes, vec!["inner"]);
}

#[test]
fn wildcard_does_not_cross_a_separator() {
    let mut manifests = ManifestFiles::new();
    manifests.insert("packages/a/nested".to_string(), r#"{"name":"nested"}"#.to_string());
    let monorepo = Monorepo::new(Some(r#"{"packages":["packages/*"]}"#));
    let scopes = monorepo.get_commit_scopes(&vec!["packages/a/nested/x".to_string()], &manifests);
    assert!(scopes.is_empty());
}

#[test]
fn root_is_never_a_package() {
    let mut manifests = ManifestFiles::new();
    manifests.insert("".to_string(), r#"{"name":"root"}"#.to_string());
    let monorepo = Monorepo::new(Some(r#"{"packages":["*"]}"#));
    let scopes = monorepo.get_commit_scopes(&vec!["README.md".to_string()], &manifests);
    assert!(scopes.is_empty());
}

#[test]
fn unreadable_manifest_lets_the_walk_continue() {
    let mut manifests = ManifestFiles::new();
    manifests.insert("libs/lib1".to_string(), r#"{"name":"lib1"}"#.to_string());
    manifests.insert("libs/lib1/pkg".to_string(), "{ broken".to_string());
    manifests.insert("libs/lib1/pkg/more".to_string(), r#"{"version":"1"}"#.to_string());
    let monorepo = Monorepo::new(Some(r#"{"packages":["libs/*","libs/*/pkg","libs/*/pkg/*"]}"#));
    let scopes = monorepo.get_commit_scopes(&vec!["libs/lib1/pkg/more/x".to_string()], &manifests);
    assert_eq!(scopes, vec!["lib1"]);
}

#[test]
fn matched_manifest_without_package_name_stops_the_walk() {
    let mut manifests = ManifestFiles::new();
    manifests.insert("apps/outer".to_string(), r#"{"name":"outer"}"#.to_string());
    manifests.insert("apps/outer/apps/x".to_string(), r#"{"name":"@scope"}"#.to_string());
    let monorepo = Monorepo::new(Some(r#"{"packages":["apps/*","apps/*/apps/*"]}"#));
    let scopes = monorepo.get_commit_scopes(&vec!["apps/outer/apps/x/f".to_string()], &manifests);
    assert!(scopes.is_empty());
}

#[test]
fn empty_package_name_gives_no_scope() {
    let mut manifests = ManifestFiles::new();
    manifests.insert("apps/a".to_string(), r#"{"name":"@org/"}"#.to_string());
    manifests.insert("apps/b".to_string(), r#"{"name":""}"#.to_string());
    manifests.insert("apps/c".to_string(), r#"{"name":"c"}"#.to_string());
    let monorepo = Monorepo::new(Some(r#"{"packages":["apps/*"]}"#));
    let staged = vec!["apps/a/1".to_string(), "apps/b/2".to_string(), "apps/c/3".to_string()];
    assert_eq!(monorepo.get_commit_scopes(&staged, &manifests), vec!["c"]);
}

#[test]
fn matched_manifest_with_empty_scoped_name_stops_the_walk() {
    let mut manifests = ManifestFiles::new();
    manifests.insert("apps/outer".to_string(), r#"{"name":"outer"}"#.to_string());
    manifests.insert("apps/outer/apps/x".to_string(), r#"{"name":"@org/"}"#.to_string());
    let monorepo = Monorepo::new(Some(r#"{"packages":["apps/*","apps/*/apps/*"]}"#));
    let scopes = monorepo.get_commit_scopes(&vec!["apps/outer/apps/x/f".to_string()], &manifests);
    assert!(scopes.is_empty());
}
