use repo_intel_core::config::Config;
use repo_intel_core::context::build;
use repo_intel_core::context::enricher::{
    build_project_meta, collect_top_folders, enrich, has_yml_file, root_fallback_name, detect_ci, detect_docker, detect_monorepo, path_depth_of, RootFacts,
};
use repo_intel_core::context::roles::map_roles;
use repo_intel_core::folder_map::FolderMap;
use repo_intel_core::pipeline::PipelineInput;
use repo_intel_core::run_pipeline;
use repo_intel_core::scanner::signal::signal_kind;
use repo_intel_core::scanner::walker::{is_skip_dir, WalkEntry, DEPTH_CAP};
use repo_intel_core::scanner::ScanInput;
use repo_intel_core::types::{
    ArchMeta, ProjectMeta, RepoContext, SignalFile, SignalKind, Skill, SkillSource, StackResult,
};
use std::collections::BTreeMap;

#[derive(Default)]
struct Node {
    dirs: BTreeMap<String, Node>,
    files: Vec<String>,
}

fn insert(node: &mut Node, parts: &[&str]) {
    if parts.len() == 1 {
        node.files.push(parts[0].to_string());
    } else {
        let child = node.dirs.entry(parts[0].to_string()).or_default();
        insert(child, &parts[1..]);
    }
}

fn emit(node: &Node, name: &str, depth: usize, out: &mut Vec<WalkEntry>) {
    if depth > DEPTH_CAP {
        return;
    }
    for f in &node.files {
        if depth + 1 <= DEPTH_CAP {
            out.push(WalkEntry { is_dir: false, name: f.clone(), parent_name: name.to_string() });
        }
    }
    for (d, child) in &node.dirs {
        if is_skip_dir(true, d) || depth + 1 > DEPTH_CAP {
            continue;
        }
        out.push(WalkEntry { is_dir: true, name: d.clone(), parent_name: name.to_string() });
        emit(child, d, depth + 1, out);
    }
}

/// The entries a walk of a tree holding `paths` meets, root named "repo", skipped
/// directories pruned as the walker prunes them.
fn entries_for(paths: &[&str]) -> Vec<WalkEntry> {
    let mut root = Node::default();
    for p in paths {
        let parts: Vec<&str> = p.split('/').collect();
        insert(&mut root, &parts);
    }
    let mut out = vec![WalkEntry { is_dir: true, name: "repo".to_string(), parent_name: String::new() }];
    emit(&root, "repo", 0, &mut out);
    out
}

fn no_skills() -> Vec<Skill> {
    vec![]
}

fn no_signals() -> Vec<SignalFile> {
    vec![]
}

fn no_facts() -> RootFacts {
    RootFacts::default()
}

/// An in-memory repository: its files, and what the root holds outside the walk.
fn fixture(name: &str) -> (Vec<(&'static str, &'static str)>, RootFacts) {
    let mut facts = RootFacts::default();
    let files: Vec<(&'static str, &'static str)> = match name {
        "nextjs-basic" => vec![
            ("package.json", r#"{"name":"nextjs-basic","description":"A Next.js dashboard","dependencies":{"next":"14.0.0","react":"18.2.0","@prisma/client":"5.0.0"},"devDependencies":{"typescript":"5.0.0","vitest":"1.0.0","prisma":"5.0.0"}}"#),
            ("tsconfig.json", "{}"),
            ("components/Button.tsx", ""),
            ("app/page.tsx", ""),
            ("lib/db.ts", ""),
            ("README.md", "# nextjs-basic\nA dashboard."),
        ],
        "react-spa" => vec![
            ("package.json", r#"{"name":"react-spa","dependencies":{"react":"18.2.0","react-dom":"18.2.0"},"devDependencies":{"vite":"5.0.0"}}"#),
            ("src/components/App.tsx", ""),
            ("src/hooks/useData.ts", ""),
        ],
        "node-api" => {
            facts.dockerfile = true;
            vec![
                ("package.json", r#"{"name":"node-api","dependencies":{"express":"4.18.0"}}"#),
                ("Dockerfile", "FROM node:20"),
                ("src/routes/users.js", ""),
            ]
        }
        "rust-axum" => vec![
            ("Cargo.toml", "[package]\nname = \"rust-axum\"\nversion = \"0.1.0\"\n\n[dependencies]\naxum = \"0.7\"\nsqlx = \"0.7\"\ntokio = \"1\"\n"),
            ("src/main.rs", ""),
        ],
        "monorepo" => {
            facts.pnpm_workspace_yaml = true;
            vec![
                ("package.json", r#"{"name":"monorepo","devDependencies":{"turbo":"2.0.0","vitest":"1.0.0","prisma":"5.0.0"}}"#),
                ("pnpm-workspace.yaml", "packages:\n  - packages/*"),
                ("packages/web/package.json", r#"{"name":"web","dependencies":{"next":"14.0.0"}}"#),
                ("packages/api/package.json", r#"{"name":"api","dependencies":{"express":"4.18.0"}}"#),
            ]
        }
        _ => vec![],
    };
    (files, facts)
}

fn input_for(name: &str) -> PipelineInput {
    let (files, facts) = fixture(name);
    let paths: Vec<&str> = files.iter().map(|(p, _)| *p).collect();
    let signal_files = files
        .iter()
        .filter_map(|(p, c)| signal_kind(p).map(|kind| SignalFile { kind, path: p.to_string(), content: c.to_string() }))
        .collect();
    PipelineInput {
        scan: ScanInput {
            root: name.to_string(),
            root_exists: true,
            root_is_dir: true,
            entries: entries_for(&paths),
            signal_files,
        },
        facts,
        version: "0.1.0".to_string(),
        scanned_at: "2024-01-01T00:00:00Z".to_string(),
    }
}

fn pipeline(name: &str) -> RepoContext {
    run_pipeline(input_for(name), &Config::default()).unwrap()
}

fn roles(ctx: &RepoContext) -> &Vec<String> {
    &ctx.agent_roles
}

fn make_stack(skill_names: &[(&str, u8)]) -> StackResult {
    StackResult {
        language: "TypeScript".into(),
        framework: None,
        styling: None,
        state_management: None,
        testing: None,
        database: None,
        runtime: None,
        skills: skill_names
            .iter()
            .map(|(name, conf)| Skill { name: name.to_string(), confidence: *conf, source: SkillSource::PackageJson })
            .collect(),
        architecture_style: None,
    }
}

fn make_arch(has_docker: bool, has_ci: bool, has_monorepo: bool) -> ArchMeta {
    ArchMeta { style: None, folders: vec![], has_monorepo, has_docker, has_ci, has_git: true }
}

// ── enricher ────────────────────────────────────────────────────────────────

#[test]
fn detects_docker_from_dockerfile() {
    let facts = RootFacts { dockerfile: true, ..no_facts() };
    assert!(detect_docker(&facts, &no_signals(), &no_skills()));
}

#[test]
fn detects_docker_from_compose() {
    let facts = RootFacts { compose_yml: true, ..no_facts() };
    assert!(detect_docker(&facts, &no_signals(), &no_skills()));
}

#[test]
fn detects_docker_from_signal_or_marker() {
    let signals = vec![SignalFile { kind: SignalKind::DockerCompose, path: "docker-compose.yaml".into(), content: String::new() }];
    assert!(detect_docker(&no_facts(), &signals, &no_skills()));
    let marker = vec![Skill { name: "__has_docker".into(), confidence: 0, source: SkillSource::ReadmeSignal }];
    assert!(detect_docker(&no_facts(), &no_signals(), &marker));
    assert!(!detect_docker(&no_facts(), &no_signals(), &no_skills()));
}

#[test]
fn detects_ci_from_github_workflows_dir() {
    let facts = RootFacts { workflows_yml: true, ..no_facts() };
    assert!(detect_ci(&facts, &no_signals(), &no_skills()));
}

#[test]
fn workflows_need_a_yml_file() {
    assert!(has_yml_file(&vec!["ci.yml".to_string()]));
    assert!(!has_yml_file(&vec!["ci.yaml".to_string(), "README.md".to_string()]));
    assert!(!has_yml_file(&vec![]));
}

#[test]
fn detects_ci_from_circleci() {
    let facts = RootFacts { circleci_yml: true, ..no_facts() };
    assert!(detect_ci(&facts, &no_signals(), &no_skills()));
    assert!(!detect_ci(&no_facts(), &no_signals(), &no_skills()));
}

#[test]
fn detects_monorepo_from_pnpm_workspace() {
    let facts = RootFacts { pnpm_workspace_yaml: true, ..no_facts() };
    assert!(detect_monorepo(&facts, &no_signals(), &FolderMap::new(), &no_skills()));
}

#[test]
fn detects_monorepo_from_packages_with_child_manifests() {
    let mut fm = FolderMap::new();
    fm.register_dir("packages".to_string());
    let pkg = |p: &str| SignalFile { kind: SignalKind::PackageJson, path: p.to_string(), content: "{}".into() };
    assert!(!detect_monorepo(&no_facts(), &vec![pkg("package.json")], &fm, &no_skills()));
    assert!(detect_monorepo(&no_facts(), &vec![pkg("package.json"), pkg("packages/a/package.json")], &fm, &no_skills()));
    assert!(!detect_monorepo(&no_facts(), &vec![pkg("package.json"), pkg("a/package.json")], &FolderMap::new(), &no_skills()));
    // two manifests elsewhere do not make a monorepo
    assert!(!detect_monorepo(&no_facts(), &vec![pkg("package.json"), pkg("web/package.json")], &fm, &no_skills()));
    // a single child manifest under apps/ does
    let mut apps = FolderMap::new();
    apps.register_dir("apps".to_string());
    assert!(detect_monorepo(&no_facts(), &vec![pkg("apps/site/package.json")], &apps, &no_skills()));
}

#[test]
fn turbo_json_alone_is_no_monorepo() {
    assert!(!detect_monorepo(&no_facts(), &no_signals(), &FolderMap::new(), &no_skills()));
    let facts = RootFacts { nx_json: true, ..no_facts() };
    assert!(detect_monorepo(&facts, &no_signals(), &FolderMap::new(), &no_skills()));
}

#[test]
fn project_named_after_root_directory() {
    let (p, _) = enrich("/work/my-proj", &no_facts(), &no_signals(), &FolderMap::new(), None, &no_skills(), None);
    assert_eq!(p.name, "my-proj");
    let (p, _) = enrich("/work/my-proj/", &no_facts(), &no_signals(), &FolderMap::new(), None, &no_skills(), None);
    assert_eq!(p.name, "my-proj");
    let (p, _) = enrich(".", &no_facts(), &no_signals(), &FolderMap::new(), None, &no_skills(), None);
    assert_eq!(p.name, "unknown");
    let (p, _) = enrich("a/..", &no_facts(), &no_signals(), &FolderMap::new(), None, &no_skills(), None);
    assert_eq!(p.name, "unknown");
    let signal = SignalFile { kind: SignalKind::PackageJson, path: "package.json".into(), content: r#"{"name":"pkg"}"#.into() };
    let (p, _) = enrich("/work/my-proj", &no_facts(), &vec![signal], &FolderMap::new(), None, &no_skills(), None);
    assert_eq!(p.name, "pkg");
    assert_eq!(root_fallback_name("/work/x/."), "x");
}

#[test]
fn top_folders_excludes_noise() {
    let mut fm = FolderMap::new();
    for n in ["src", "components", "node_modules", ".git", "dist"] {
        fm.register_dir(n.to_string());
    }
    let folders = collect_top_folders(&fm);
    assert!(folders.contains(&"src".to_string()));
    assert!(folders.contains(&"components".to_string()));
    assert!(!folders.contains(&"node_modules".to_string()));
    assert!(!folders.contains(&"dist".to_string()));
    assert!(!folders.contains(&".git".to_string()));
}

#[test]
fn top_folders_sorted_and_hidden_dropped() {
    let mut fm = FolderMap::new();
    for n in ["src", "api", ".storybook", "lib", "vendor"] {
        fm.register_dir(n.to_string());
    }
    assert_eq!(collect_top_folders(&fm), vec!["api", "lib", "src"]);
}

#[test]
fn project_meta_extracts_name_from_package_json() {
    let signal = SignalFile {
        kind: SignalKind::PackageJson,
        path: "package.json".into(),
        content: r#"{"name":"my-dashboard","description":"IoT monitoring tool"}"#.to_string(),
    };
    let meta = build_project_meta(&vec![signal], None);
    assert_eq!(meta.name, "my-dashboard");
    assert_eq!(meta.description.as_deref(), Some("IoT monitoring tool"));
}

#[test]
fn project_meta_falls_back_to_cargo_toml() {
    let signal = SignalFile {
        kind: SignalKind::CargoToml,
        path: "Cargo.toml".into(),
        content: "[package]\nname = \"repo-intel\"\ndescription = \"A CLI tool\"\nversion = \"0.1.0\"".to_string(),
    };
    let meta = build_project_meta(&vec![signal], None);
    assert_eq!(meta.name, "repo-intel");
    assert_eq!(meta.description.as_deref(), Some("A CLI tool"));
}

#[test]
fn project_meta_shallowest_manifest_wins() {
    let nested = SignalFile {
        kind: SignalKind::PackageJson,
        path: "packages/repo-intel-win32-x64/package.json".into(),
        content: r#"{"name":"nested","description":"inner"}"#.into(),
    };
    let root = SignalFile { kind: SignalKind::PackageJson, path: "package.json".into(), content: r#"{"name":"root"}"#.into() };
    let meta = build_project_meta(&vec![nested, root], Some("readme".into()));
    assert_eq!(meta.name, "root");
    assert_eq!(meta.description.as_deref(), Some("inner"));
    assert_eq!(meta.readme_excerpt.as_deref(), Some("readme"));
}

#[test]
fn project_meta_defaults_to_unknown() {
    let bad = SignalFile { kind: SignalKind::PackageJson, path: "package.json".into(), content: r#"{"name":""}"#.into() };
    let meta = build_project_meta(&vec![bad], None);
    assert_eq!(meta.name, "unknown");
    assert_eq!(meta.description, None);
}

#[test]
fn path_depths() {
    assert_eq!(path_depth_of("package.json"), 1);
    assert_eq!(path_depth_of("packages/ui/package.json"), 3);
    assert_eq!(path_depth_of("./package.json"), 2);
    assert_eq!(path_depth_of(""), 0);
    assert_eq!(path_depth_of("a/./package.json"), 2);
    assert_eq!(path_depth_of("/a"), 2);
    assert_eq!(path_depth_of("a//b/"), 2);
    assert_eq!(path_depth_of("../a"), 2);
}

// ── roles ───────────────────────────────────────────────────────────────────

#[test]
fn nextjs_produces_fullstack_not_frontend() {
    let stack = make_stack(&[("Next.js", 99), ("SSR", 99), ("React", 97)]);
    let roles = map_roles(&stack, &make_arch(false, false, false));
    assert!(roles.contains(&"Fullstack Engineer".to_string()));
    assert!(!roles.contains(&"Frontend Engineer".to_string()));
}

#[test]
fn plain_react_produces_frontend() {
    let stack = make_stack(&[("React", 99), ("Component Architecture", 90)]);
    let roles = map_roles(&stack, &make_arch(false, false, false));
    assert!(roles.contains(&"Frontend Engineer".to_string()));
    assert!(!roles.contains(&"Fullstack Engineer".to_string()));
}

#[test]
fn axum_produces_backend_api_engineer() {
    let stack = make_stack(&[("Rust", 99), ("Rust Web Server (Axum)", 99)]);
    let roles = map_roles(&stack, &make_arch(false, false, false));
    assert!(roles.contains(&"Backend API Engineer".to_string()));
}

#[test]
fn docker_produces_devops_engineer() {
    let stack = make_stack(&[("React", 99)]);
    let roles = map_roles(&stack, &make_arch(true, false, false));
    assert!(roles.contains(&"DevOps Engineer".to_string()));
}

#[test]
fn ci_produces_devops_engineer() {
    let stack = make_stack(&[]);
    let roles = map_roles(&stack, &make_arch(false, true, false));
    assert!(roles.contains(&"DevOps Engineer".to_string()));
}

#[test]
fn monorepo_with_multiple_roles_adds_platform_engineer() {
    let stack = make_stack(&[("Next.js", 99), ("SSR", 99), ("Testing", 90)]);
    let roles = map_roles(&stack, &make_arch(false, false, true));
    assert!(roles.contains(&"Platform / Monorepo Engineer".to_string()));
}

#[test]
fn monorepo_with_one_role_adds_no_platform_engineer() {
    let stack = make_stack(&[("Next.js", 99)]);
    let roles = map_roles(&stack, &make_arch(false, false, true));
    assert_eq!(roles, vec!["Fullstack Engineer".to_string()]);
}

#[test]
fn graphql_adds_graphql_engineer() {
    let stack = make_stack(&[("GraphQL", 97), ("React", 99)]);
    let roles = map_roles(&stack, &make_arch(false, false, false));
    assert!(roles.contains(&"GraphQL Engineer".to_string()));
}

#[test]
fn empty_stack_produces_no_roles() {
    let stack = make_stack(&[]);
    let roles = map_roles(&stack, &make_arch(false, false, false));
    assert!(roles.is_empty());
}

#[test]
fn low_confidence_skills_excluded_from_role_mapping() {
    let stack = make_stack(&[("React", 40)]);
    let roles = map_roles(&stack, &make_arch(false, false, false));
    assert!(!roles.contains(&"Frontend Engineer".to_string()));
}

#[test]
fn roles_come_in_fixed_order() {
    let stack = make_stack(&[
        ("WebAssembly", 60),
        ("Rust CLI", 60),
        ("GraphQL", 60),
        ("Database ORM (Prisma)", 60),
        ("Testing (Jest)", 60),
        ("Node.js API Server (Express)", 60),
        ("Vue.js", 60),
    ]);
    let roles = map_roles(&stack, &make_arch(true, false, true));
    assert_eq!(
        roles,
        vec![
            "Frontend Engineer",
            "Backend API Engineer",
            "QA & Testing Engineer",
            "Database Engineer",
            "DevOps Engineer",
            "GraphQL Engineer",
            "Developer Tooling Engineer",
            "WebAssembly Engineer",
            "Platform / Monorepo Engineer",
        ]
    );
}

#[test]
fn has_skill_ignores_case() {
    let stack = make_stack(&[("Rust Web Server (Axum)", 95)]);
    assert!(stack.has_skill("axum", 90));
    assert!(stack.has_skill("AXUM", 95));
    assert!(!stack.has_skill("axum", 96));
    assert!(!stack.has_skill("actix", 0));
}

// ── build ───────────────────────────────────────────────────────────────────

#[test]
fn build_derives_roles() {
    let stack = make_stack(&[("React", 99)]);
    let project = ProjectMeta { name: "x".into(), description: None, readme_excerpt: None };
    let ctx = build(stack, project, make_arch(false, true, false), "root".into(), "1.2.3".into(), "t".into());
    assert_eq!(ctx.agent_roles, vec!["Frontend Engineer".to_string(), "DevOps Engineer".to_string()]);
    assert_eq!(ctx.version, "1.2.3");
}

// ── pipeline ────────────────────────────────────────────────────────────────

#[test]
fn context_nextjs_has_fullstack_role() {
    let ctx = pipeline("nextjs-basic");
    assert!(roles(&ctx).contains(&"Fullstack Engineer".to_string()), "got: {:?}", ctx.agent_roles);
}

#[test]
fn context_nextjs_has_qa_role() {
    let ctx = pipeline("nextjs-basic");
    assert!(roles(&ctx).contains(&"QA & Testing Engineer".to_string()), "got: {:?}", ctx.agent_roles);
}

#[test]
fn context_nextjs_has_database_role() {
    let ctx = pipeline("nextjs-basic");
    assert!(roles(&ctx).contains(&"Database Engineer".to_string()), "got: {:?}", ctx.agent_roles);
}

#[test]
fn context_nextjs_no_frontend_role_when_fullstack_present() {
    let ctx = pipeline("nextjs-basic");
    assert!(!roles(&ctx).contains(&"Frontend Engineer".to_string()));
}

#[test]
fn context_nextjs_project_name_is_set() {
    let ctx = pipeline("nextjs-basic");
    assert_eq!(ctx.project.name, "nextjs-basic");
}

#[test]
fn context_nextjs_project_description_is_set() {
    let ctx = pipeline("nextjs-basic");
    assert!(ctx.project.description.is_some(), "expected project description from package.json");
}

#[test]
fn context_nextjs_folders_contains_components() {
    let ctx = pipeline("nextjs-basic");
    assert!(ctx.architecture.folders.contains(&"components".to_string()), "expected 'components' in folders");
}

#[test]
fn context_version_matches_given_version() {
    let ctx = pipeline("nextjs-basic");
    assert_eq!(ctx.version, "0.1.0");
    assert_eq!(ctx.scanned_at, "2024-01-01T00:00:00Z");
}

#[test]
fn context_node_api_has_docker_true() {
    let ctx = pipeline("node-api");
    assert!(ctx.architecture.has_docker, "expected has_docker = true for node-api fixture");
}

#[test]
fn context_node_api_has_backend_role() {
    let ctx = pipeline("node-api");
    assert!(roles(&ctx).contains(&"Backend API Engineer".to_string()), "got: {:?}", ctx.agent_roles);
}

#[test]
fn context_react_spa_has_frontend_role() {
    let ctx = pipeline("react-spa");
    assert!(roles(&ctx).contains(&"Frontend Engineer".to_string()), "got: {:?}", ctx.agent_roles);
    assert_eq!(ctx.stack.framework.as_deref(), Some("React"));
}

#[test]
fn context_rust_axum_language_is_rust() {
    let ctx = pipeline("rust-axum");
    assert_eq!(ctx.stack.language, "Rust");
}

#[test]
fn context_rust_axum_has_backend_role() {
    let ctx = pipeline("rust-axum");
    assert!(roles(&ctx).contains(&"Backend API Engineer".to_string()), "got: {:?}", ctx.agent_roles);
}

#[test]
fn context_rust_axum_has_database_role() {
    let ctx = pipeline("rust-axum");
    assert!(roles(&ctx).contains(&"Database Engineer".to_string()), "got: {:?}", ctx.agent_roles);
}

#[test]
fn context_rust_axum_project_name_from_cargo() {
    let ctx = pipeline("rust-axum");
    assert_eq!(ctx.project.name, "rust-axum");
}

#[test]
fn context_monorepo_has_monorepo_true() {
    let ctx = pipeline("monorepo");
    assert!(ctx.architecture.has_monorepo, "expected has_monorepo = true");
}

#[test]
fn context_monorepo_has_platform_engineer_role() {
    let ctx = pipeline("monorepo");
    assert!(roles(&ctx).contains(&"Platform / Monorepo Engineer".to_string()), "got: {:?}", ctx.agent_roles);
}

#[test]
fn context_empty_repo_pipeline_does_not_panic() {
    let result = run_pipeline(input_for("empty-repo"), &Config::default());
    assert!(result.is_ok(), "pipeline on empty repo should not error");
}

#[test]
fn context_empty_repo_agent_roles_is_empty() {
    let ctx = pipeline("empty-repo");
    assert!(ctx.agent_roles.is_empty(), "empty repo should have no roles");
}

#[test]
fn context_missing_root_is_an_error() {
    let mut input = input_for("empty-repo");
    input.scan.root_exists = false;
    assert!(run_pipeline(input, &Config::default()).is_err());
}

#[test]
fn context_primary_skills_all_above_09() {
    let ctx = pipeline("nextjs-basic");
    assert!(!ctx.primary_skills().is_empty());
    for skill in ctx.primary_skills() {
        assert!(skill.confidence >= 90, "primary skill '{}' has confidence {}", skill.name, skill.confidence);
    }
}

#[test]
fn context_secondary_skills_between_05_and_09() {
    let ctx = pipeline("nextjs-basic");
    for skill in ctx.secondary_skills() {
        assert!(
            skill.confidence >= 50 && skill.confidence < 90,
            "secondary skill '{}' has confidence {}",
            skill.name,
            skill.confidence
        );
    }
}

#[test]
fn context_empty_repo_is_named_after_its_directory() {
    let ctx = pipeline("empty-repo");
    assert_eq!(ctx.project.name, "empty-repo");
    let mut input = input_for("empty-repo");
    input.scan.root = "/home/me/tools/".to_string();
    assert_eq!(run_pipeline(input, &Config::default()).unwrap().project.name, "tools");
}

#[test]
fn context_sees_tool_configs_by_file_name() {
    let input = PipelineInput {
        scan: ScanInput {
            root: "tools".to_string(),
            root_exists: true,
            root_is_dir: true,
            entries: entries_for(&["biome.json", "src/index.ts"]),
            signal_files: vec![],
        },
        facts: no_facts(),
        version: "0.1.0".to_string(),
        scanned_at: "2024-01-01T00:00:00Z".to_string(),
    };
    let ctx = run_pipeline(input, &Config::default()).unwrap();
    assert!(ctx.stack.skills.iter().any(|s| s.name == "Biome" && s.confidence == 95));
}

#[test]
fn project_meta_unknown_placeholder_is_replaced() {
    let a = SignalFile { kind: SignalKind::PackageJson, path: "a/package.json".into(), content: r#"{"name":"unknown"}"#.into() };
    let b = SignalFile { kind: SignalKind::PackageJson, path: "b/package.json".into(), content: r#"{"name":"x"}"#.into() };
    assert_eq!(build_project_meta(&vec![a, b], None).name, "x");
    let only = SignalFile { kind: SignalKind::CargoToml, path: "Cargo.toml".into(), content: "[package]\nname = \"unknown\"".into() };
    assert_eq!(build_project_meta(&vec![only], None).name, "unknown");
}
