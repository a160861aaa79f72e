use repo_intel_core::scanner::walker::{
    collect_file_pattern, extension, is_noisy_dir_name, is_skip_dir, is_skip_dir_name, probe_hidden_signals,
    walk, HiddenSignals, WalkEntry, DEPTH_CAP,
};
use std::collections::BTreeMap;

#[derive(Default)]
struct Node {
    dirs: BTreeMap<String, Node>,
    files: Vec<String>,
}

fn insert(node: &mut Node, parts: &[&str]) {
    if parts.len() == 1 {
        node.files.push(parts[0].to_string());
    } else {
        let child = node.dirs.entry(parts[0].to_string()).or_default();
        insert(child, &parts[1..]);
    }
}

fn emit(node: &Node, name: &str, depth: usize, out: &mut Vec<WalkEntry>) {
    if depth > DEPTH_CAP {
        return;
    }
    for f in &node.files {
        if depth + 1 <= DEPTH_CAP {
            out.push(WalkEntry { is_dir: false, name: f.clone(), parent_name: name.to_string() });
        }
    }
    for (d, child) in &node.dirs {
        if is_skip_dir(true, d) || depth + 1 > DEPTH_CAP {
            continue;
        }
        out.push(WalkEntry { is_dir: true, name: d.clone(), parent_name: name.to_string() });
        emit(child, d, depth + 1, out);
    }
}

/// The entries a walk of a tree holding `paths` meets, root named "repo", skipped
/// directories pruned as the walker prunes them.
fn entries_for(paths: &[&str]) -> Vec<WalkEntry> {
    let mut root = Node::default();
    for p in paths {
        let parts: Vec<&str> = p.split('/').collect();
        insert(&mut root, &parts);
    }
    let mut out = vec![WalkEntry { is_dir: true, name: "repo".to_string(), parent_name: String::new() }];
    emit(&root, "repo", 0, &mut out);
    out
}

fn has(v: &[String], s: &str) -> bool {
    v.iter().any(|x| x == s)
}

// ── walk ────────────────────────────────────────────────────────────────────

#[test]
fn skips_node_modules() {
    let entries = entries_for(&["src/index.ts", "node_modules/react/index.js"]);
    let (folder_map, patterns) = walk(&entries);
    assert!(folder_map.contains_key("src"));
    assert!(!folder_map.contains_key("node_modules"));
    assert!(has(&patterns, ".ts"));
    assert!(!has(&patterns, ".js"));
}

#[test]
fn collects_compound_patterns() {
    let entries = entries_for(&["src/auth.test.ts", "src/ui.stories.tsx"]);
    let (_, patterns) = walk(&entries);
    assert!(has(&patterns, "*.test.ts"));
    assert!(has(&patterns, "*.stories.tsx"));
}

#[test]
fn folder_map_has_children() {
    let entries = entries_for(&["components/Button.tsx", "components/Input.tsx"]);
    let (folder_map, _) = walk(&entries);
    let children = folder_map.get("components").unwrap();
    assert!(has(children, "Button.tsx"));
    assert!(has(children, "Input.tsx"));
}

#[test]
fn skips_docs_and_examples() {
    let entries = entries_for(&[
        "src/index.ts",
        "docs/guide.md",
        "examples/basic/index.ts",
        "bench/run.ts",
        "tests/unit/foo.test.ts",
        "__tests__/bar.test.ts",
        "workflows/ci.yml",
    ]);
    let (folder_map, _) = walk(&entries);
    assert!(folder_map.contains_key("src"));
    assert!(!folder_map.contains_key("docs"));
    assert!(!folder_map.contains_key("examples"));
    assert!(!folder_map.contains_key("bench"));
    assert!(!folder_map.contains_key("tests"));
    assert!(!folder_map.contains_key("__tests__"));
    assert!(!folder_map.contains_key("workflows"));
}

#[test]
fn skips_numbered_dirs() {
    let entries = entries_for(&[
        "src/index.ts",
        "01-components/Button.tsx",
        "02-hooks/useAuth.ts",
        "03_utils/format.ts",
    ]);
    let (folder_map, _) = walk(&entries);
    assert!(folder_map.contains_key("src"));
    assert!(!folder_map.contains_key("01-components"));
    assert!(!folder_map.contains_key("02-hooks"));
    assert!(!folder_map.contains_key("03_utils"));
}

#[test]
fn skips_nextjs_route_interception_dirs() {
    let entries = entries_for(&[
        "src/index.ts",
        "app/(auth)/login/page.tsx",
        "app/(.)photo/page.tsx",
        "app/(..)feed/page.tsx",
    ]);
    let (folder_map, _) = walk(&entries);
    assert!(folder_map.contains_key("src"));
    assert!(!folder_map.contains_key("(auth)"));
    assert!(!folder_map.contains_key("(.)photo"));
    assert!(!folder_map.contains_key("(..)feed"));
}

#[test]
fn skips_single_char_dirs() {
    let entries = entries_for(&["src/index.ts", "e/index.ts", "x/main.ts"]);
    let (folder_map, _) = walk(&entries);
    assert!(folder_map.contains_key("src"));
    assert!(!folder_map.contains_key("e"));
    assert!(!folder_map.contains_key("x"));
}

#[test]
fn legitimate_folders_not_filtered() {
    let entries = entries_for(&[
        "src/index.ts",
        "components/Button.tsx",
        "hooks/useAuth.ts",
        "services/api.ts",
        "lib/utils.ts",
        "app/page.tsx",
        "packages/ui/index.ts",
    ]);
    let (folder_map, _) = walk(&entries);
    for expected in &["src", "components", "hooks", "services", "lib", "app", "packages"] {
        assert!(folder_map.contains_key(expected), "expected '{}' in folder_map", expected);
    }
}

#[test]
fn git_dir_not_in_folder_map() {
    let mut entries = entries_for(&["src/index.ts"]);
    // `.git` is pruned by the walker before it is ever met.
    assert!(is_skip_dir(true, ".git"));
    entries.retain(|e| !(e.is_dir && e.name == ".git"));
    let (folder_map, _) = walk(&entries);
    assert!(!folder_map.contains_key(".git"));
    assert!(folder_map.contains_key("src"));
}

#[test]
fn walk_patterns_sorted_and_distinct() {
    let entries = entries_for(&["a1/x.ts", "a1/y.ts", "b1/z.rs", "b1/w.ts", "b1/Dockerfile"]);
    let (_, patterns) = walk(&entries);
    assert_eq!(patterns, vec![".rs".to_string(), ".ts".to_string(), "Dockerfile".to_string()]);
}

#[test]
fn walk_files_of_noisy_parent_are_not_recorded() {
    let entries = vec![
        WalkEntry { is_dir: true, name: "01-x".into(), parent_name: "repo".into() },
        WalkEntry { is_dir: false, name: "a.ts".into(), parent_name: "01-x".into() },
        WalkEntry { is_dir: false, name: "b.ts".into(), parent_name: "src".into() },
    ];
    let (folder_map, patterns) = walk(&entries);
    assert!(!folder_map.contains_key("01-x"));
    assert_eq!(folder_map.get("src").unwrap(), &vec!["b.ts".to_string()]);
    assert_eq!(patterns, vec![".ts".to_string()]);
}

// ── probe_hidden_signals ────────────────────────────────────────────────────

#[test]
fn detects_git_dir() {
    let signals = probe_hidden_signals(true, false, false, false);
    assert!(signals.has_git);
    assert!(!signals.has_ci);
    assert!(!signals.has_github);
}

#[test]
fn detects_github_workflows() {
    let signals = probe_hidden_signals(false, true, true, false);
    assert!(signals.has_github);
    assert!(signals.has_ci);
    assert!(!signals.has_git);
}

#[test]
fn github_without_workflows_is_not_ci() {
    let signals = probe_hidden_signals(false, true, false, false);
    assert!(signals.has_github);
    assert!(!signals.has_ci);
    assert!(!signals.has_git);
}

#[test]
fn no_hidden_dirs_returns_all_false() {
    let signals = probe_hidden_signals(false, false, false, false);
    assert_eq!(signals, HiddenSignals::default());
}

#[test]
fn workflows_without_github_is_not_ci() {
    let signals = probe_hidden_signals(false, false, true, true);
    assert!(!signals.has_ci);
    assert!(signals.has_packages);
}

// ── is_noisy_dir_name ───────────────────────────────────────────────────────

#[test]
fn noisy_name_single_char() {
    assert!(is_noisy_dir_name("e"));
    assert!(is_noisy_dir_name("x"));
    assert!(is_noisy_dir_name("a"));
}

#[test]
fn noisy_name_numbered() {
    assert!(is_noisy_dir_name("01-components"));
    assert!(is_noisy_dir_name("2-api"));
    assert!(is_noisy_dir_name("03_utils"));
    assert!(is_noisy_dir_name("10-advanced"));
}

#[test]
fn noisy_name_nextjs_route_groups() {
    assert!(is_noisy_dir_name("(auth)"));
    assert!(is_noisy_dir_name("(.)photo"));
    assert!(is_noisy_dir_name("(..)feed"));
    assert!(is_noisy_dir_name("(marketing)"));
}

#[test]
fn noisy_name_nextjs_dynamic_segments() {
    assert!(is_noisy_dir_name("[slug]"));
    assert!(is_noisy_dir_name("[id]"));
    assert!(is_noisy_dir_name("[...params]"));
    assert!(is_noisy_dir_name("[userId]"));
}

#[test]
fn clean_names_not_noisy() {
    assert!(!is_noisy_dir_name("src"));
    assert!(!is_noisy_dir_name("components"));
    assert!(!is_noisy_dir_name("hooks"));
    assert!(!is_noisy_dir_name("services"));
    assert!(!is_noisy_dir_name("lib"));
    assert!(!is_noisy_dir_name("app"));
    assert!(!is_noisy_dir_name("packages"));
    assert!(!is_noisy_dir_name("api"));
    assert!(!is_noisy_dir_name("ui"));
}

#[test]
fn noisy_name_edge_cases() {
    assert!(is_noisy_dir_name(""));
    // one character of two UTF-8 bytes is not noisy by length
    assert!(!is_noisy_dir_name("é"));
    assert!(!is_noisy_dir_name(".github"));
}

// ── skip dirs, extension, file patterns ─────────────────────────────────────

#[test]
fn skip_dir_names() {
    assert!(is_skip_dir_name("node_modules"));
    assert!(is_skip_dir_name("repo-intel-win32-x64"));
    assert!(!is_skip_dir_name("src"));
    assert!(!is_skip_dir(false, "node_modules"));
}

#[test]
fn extension_follows_path_rules() {
    assert_eq!(extension("main.rs"), Some("rs".to_string()));
    assert_eq!(extension("auth.test.ts"), Some("ts".to_string()));
    assert_eq!(extension(".env"), None);
    assert_eq!(extension("Dockerfile"), None);
    assert_eq!(extension("foo."), Some(String::new()));
    assert_eq!(extension(".."), None);
    assert_eq!(extension(".env.example"), Some("example".to_string()));
}

#[test]
fn file_pattern_tokens() {
    let mut p = Vec::new();
    collect_file_pattern("auth.test.ts", &mut p);
    assert_eq!(p, vec![".ts".to_string(), "*.test.ts".to_string()]);
    let mut p = Vec::new();
    collect_file_pattern("Dockerfile", &mut p);
    assert_eq!(p, vec!["Dockerfile".to_string()]);
    let mut p = Vec::new();
    collect_file_pattern("tailwind.config.ts", &mut p);
    assert_eq!(p, vec![".ts".to_string(), "tailwind.config.ts".to_string()]);
    let mut p = Vec::new();
    collect_file_pattern("schema.graphql", &mut p);
    assert_eq!(p, vec![".graphql".to_string(), "*.graphql".to_string()]);
}
