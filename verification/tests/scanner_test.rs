use repo_intel_core::config::Config;
use repo_intel_core::error::RepoIntelError;
use repo_intel_core::scanner::signal::{readme_excerpt, signal_kind};
use repo_intel_core::scanner::walker::{is_skip_dir, WalkEntry, DEPTH_CAP};
use repo_intel_core::scanner::{scan, ScanInput};
use repo_intel_core::types::{ScanResult, SignalFile, SignalKind};
use std::collections::BTreeMap;

#[derive(Default)]
struct Node {
    dirs: BTreeMap<String, Node>,
    files: Vec<String>,
}

fn insert(node: &mut Node, parts: &[&str]) {
    if parts.len() == 1 {
        node.files.push(parts[0].to_string());
    } else {
        let child = node.dirs.entry(parts[0].to_string()).or_default();
        insert(child, &parts[1..]);
    }
}

fn emit(node: &Node, name: &str, depth: usize, out: &mut Vec<WalkEntry>) {
    if depth > DEPTH_CAP {
        return;
    }
    for f in &node.files {
        if depth + 1 <= DEPTH_CAP {
            out.push(WalkEntry { is_dir: false, name: f.clone(), parent_name: name.to_string() });
        }
    }
    for (d, child) in &node.dirs {
        if is_skip_dir(true, d) || depth + 1 > DEPTH_CAP {
            continue;
        }
        out.push(WalkEntry { is_dir: true, name: d.clone(), parent_name: name.to_string() });
        emit(child, d, depth + 1, out);
    }
}

/// The entries a walk of a tree holding `paths` meets, root named "repo", skipped
/// directories pruned as the walker prunes them.
fn entries_for(paths: &[&str]) -> Vec<WalkEntry> {
    let mut root = Node::default();
    for p in paths {
        let parts: Vec<&str> = p.split('/').collect();
        insert(&mut root, &parts);
    }
    let mut out = vec![WalkEntry { is_dir: true, name: "repo".to_string(), parent_name: String::new() }];
    emit(&root, "repo", 0, &mut out);
    out
}

/// What a caller hands to `scan` for a tree holding `files` (path, content).
fn input_for(files: &[(&str, &str)]) -> ScanInput {
    let paths: Vec<&str> = files.iter().map(|(p, _)| *p).collect();
    let signal_files = files
        .iter()
        .filter_map(|(p, c)| {
            signal_kind(p).map(|kind| SignalFile { kind, path: p.to_string(), content: c.to_string() })
        })
        .collect();
    ScanInput {
        root: "repo".to_string(),
        root_exists: true,
        root_is_dir: true,
        entries: entries_for(&paths),
        signal_files,
    }
}

fn scan_files(files: &[(&str, &str)]) -> ScanResult {
    scan(input_for(files), &Config::default()).unwrap()
}

fn has_signal(result: &ScanResult, path: &str) -> bool {
    result.signal_files.iter().any(|s| s.path == path)
}

#[test]
fn scan_returns_error_on_missing_root() {
    let input = ScanInput {
        root: "/this/does/not/exist".to_string(),
        root_exists: false,
        root_is_dir: false,
        entries: vec![],
        signal_files: vec![],
    };
    let result = scan(input, &Config::default());
    assert!(matches!(result, Err(RepoIntelError::RootNotFound { .. })));
}

#[test]
fn scan_returns_error_on_file_root() {
    let input = ScanInput {
        root: "README.md".to_string(),
        root_exists: true,
        root_is_dir: false,
        entries: vec![],
        signal_files: vec![],
    };
    match scan(input, &Config::default()) {
        Err(RepoIntelError::RootNotDirectory { path }) => assert_eq!(path, "README.md"),
        _ => panic!("expected RootNotDirectory"),
    }
}

#[test]
fn scan_nextjs_fixture() {
    let result = scan_files(&[
        ("package.json", r#"{"name":"my-app","dependencies":{"next":"14","react":"18","tailwindcss":"3"}}"#),
        ("tsconfig.json", r#"{"compilerOptions":{"target":"ES2020"}}"#),
        ("src/components/Button.tsx", ""),
        ("src/hooks/useAuth.ts", ""),
        ("src/services/api.ts", ""),
        ("src/app/page.tsx", ""),
        ("src/auth.test.ts", ""),
        ("tailwind.config.ts", ""),
        ("README.md", "# My App\nA dashboard application."),
    ]);

    assert!(result.signal_files.iter().any(|s| s.kind == SignalKind::PackageJson));
    assert!(result.signal_files.iter().any(|s| s.kind == SignalKind::TsConfig));

    assert!(result.folder_map.contains_key("components"));
    assert!(result.folder_map.contains_key("hooks"));
    assert!(result.folder_map.contains_key("services"));

    assert!(result.file_patterns.contains(&".tsx".to_string()));
    assert!(result.file_patterns.contains(&"*.test.ts".to_string()));

    assert!(result.readme_excerpt.is_some());
}

#[test]
fn scan_respects_exclude_config() {
    let mut cfg = Config::default();
    cfg.project.exclude = vec!["legacy".into()];
    let result = scan(input_for(&[("src/index.ts", ""), ("legacy/old.ts", "")]), &cfg).unwrap();
    assert!(!result.folder_map.contains_key("legacy"));
    assert!(result.folder_map.contains_key("src"));
}

#[test]
fn scan_exclude_ignores_trailing_slash() {
    let mut cfg = Config::default();
    cfg.project.exclude = vec!["legacy/".into(), "vendor2/".into()];
    let result = scan(input_for(&[("src/index.ts", ""), ("legacy/old.ts", "")]), &cfg).unwrap();
    assert!(!result.folder_map.contains_key("legacy"));
    assert!(result.folder_map.contains_key("src"));
}

#[test]
fn scan_empty_repo_does_not_panic() {
    let result = scan(input_for(&[]), &Config::default());
    assert!(result.is_ok());
    let scan = result.unwrap();
    assert!(scan.signal_files.is_empty());
    assert!(scan.readme_excerpt.is_none());
}

#[test]
fn test_scan_nextjs_basic() {
    let result = scan_files(&[
        ("package.json", r#"{"name":"nextjs-basic","description":"A Next.js app","dependencies":{"next":"14","react":"18"},"devDependencies":{"vitest":"1","typescript":"5","prisma":"5"}}"#),
        ("tsconfig.json", "{}"),
        ("components/Button.tsx", ""),
        ("app/page.tsx", ""),
    ]);
    assert!(has_signal(&result, "package.json"), "nextjs-basic should have a package.json signal");
    assert!(!result.folder_map.is_empty(), "folder_map should not be empty");
}

#[test]
fn test_scan_rust_axum() {
    let result = scan_files(&[
        ("Cargo.toml", "[package]\nname = \"rust-axum\"\n[dependencies]\naxum = \"0.7\"\nsqlx = \"0.7\"\n"),
        ("src/main.rs", ""),
    ]);
    assert!(has_signal(&result, "Cargo.toml"), "rust-axum should have a Cargo.toml signal");
}

#[test]
fn test_scan_empty_repo() {
    let result = scan_files(&[]);
    assert!(result.signal_files.is_empty(), "empty-repo should have no signal files");
}

#[test]
fn test_scan_monorepo() {
    let result = scan_files(&[
        ("package.json", r#"{"name":"monorepo","devDependencies":{"turbo":"2"}}"#),
        ("pnpm-workspace.yaml", "packages:\n  - packages/*"),
        ("packages/ui/package.json", r#"{"name":"ui","dependencies":{"react":"18"}}"#),
        ("packages/api/package.json", r#"{"name":"api","dependencies":{"express":"4"}}"#),
    ]);
    assert!(has_signal(&result, "package.json"), "monorepo should have root package.json");
}

#[test]
fn signal_kinds_by_name() {
    assert_eq!(signal_kind("package.json"), Some(SignalKind::PackageJson));
    assert_eq!(signal_kind("packages/ui/package.json"), Some(SignalKind::PackageJson));
    assert_eq!(signal_kind("Cargo.toml"), Some(SignalKind::CargoToml));
    assert_eq!(signal_kind("docker-compose.yaml"), Some(SignalKind::DockerCompose));
    assert_eq!(signal_kind(".github/workflows/ci.yml"), Some(SignalKind::GithubWorkflow));
    assert_eq!(signal_kind(".repo-intel.toml"), Some(SignalKind::RepoIntelConfig));
    assert_eq!(signal_kind("src/main.rs"), None);
}

#[test]
fn readme_excerpt_is_truncated() {
    let long = "a".repeat(600);
    let files = vec![SignalFile { kind: SignalKind::ReadmeMd, path: "README.md".into(), content: long }];
    assert_eq!(readme_excerpt(&files).unwrap().chars().count(), 500);
    let files = vec![SignalFile { kind: SignalKind::ReadmeMd, path: "docs/README.md".into(), content: "x".into() }];
    assert!(readme_excerpt(&files).is_none());
}
