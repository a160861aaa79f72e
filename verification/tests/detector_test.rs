use repo_intel_core::scanner::signal::signal_kind;
use repo_intel_core::detector::deps::{detect_from_cargo_toml, detect_from_deps, detect_from_package_json};
use repo_intel_core::detector::folders::{detect_from_folders, infer_arch_style, infer_architecture};
use repo_intel_core::detector::patterns::detect_from_patterns;
use repo_intel_core::detector::{clean_framework_name, detect, merge_skills, rank_skills, INCLUDE_THRESHOLD};
use repo_intel_core::folder_map::FolderMap;
use repo_intel_core::types::{ArchStyle, ScanResult, SignalFile, SignalKind, Skill, SkillSource, StackResult};

fn folder_map_of(folders: &[&str]) -> FolderMap {
    let mut fm = FolderMap::new();
    for f in folders {
        fm.register_dir(f.to_string());
    }
    fm
}

fn make_scan(pkg_json: &str, folders: &[&str], patterns: &[&str]) -> ScanResult {
    let signal = SignalFile {
        kind: SignalKind::PackageJson,
        path: "package.json".to_string(),
        content: pkg_json.to_string(),
    };
    ScanResult {
        root: ".".to_string(),
        signal_files: vec![signal],
        folder_map: folder_map_of(folders),
        file_patterns: patterns.iter().map(|s| s.to_string()).collect(),
        readme_excerpt: None,
    }
}

fn names(skills: &[Skill]) -> Vec<String> {
    skills.iter().map(|s| s.name.clone()).collect()
}

fn skill(name: &str, confidence: u8) -> Skill {
    Skill { name: name.to_string(), confidence, source: SkillSource::PackageJson }
}

#[test]
fn detects_nextjs_stack() {
    let scan = make_scan(
        r#"{"dependencies":{"next":"14","react":"18","tailwindcss":"3","prisma":"5"},"devDependencies":{"vitest":"1"}}"#,
        &["components", "hooks", "services", "prisma"],
        &["*.test.ts", ".ts", ".tsx", "tailwind.config.ts"],
    );

    let stack = detect(&scan).unwrap();

    assert_eq!(stack.language, "TypeScript");
    assert_eq!(stack.framework.as_deref(), Some("Next.js"));
    assert_eq!(stack.styling.as_deref(), Some("Tailwind CSS"));
    assert!(stack.database.is_some());
    assert!(stack.testing.is_some());
    assert!(stack.skills.iter().all(|s| s.confidence >= INCLUDE_THRESHOLD));
}

#[test]
fn detects_nextjs_stack_fields_exactly() {
    let scan = make_scan(
        r#"{"dependencies":{"next":"14","react":"18","tailwindcss":"3","prisma":"5"},"devDependencies":{"vitest":"1"}}"#,
        &["components", "hooks", "services", "prisma"],
        &["*.test.ts", ".ts", ".tsx", "tailwind.config.ts"],
    );
    let stack = detect(&scan).unwrap();
    assert_eq!(stack.database.as_deref(), Some("Prisma"));
    assert_eq!(stack.testing.as_deref(), Some("Vitest"));
    assert_eq!(stack.runtime.as_deref(), Some("Node.js"));
    assert_eq!(stack.state_management, None);
    assert_eq!(stack.architecture_style, Some(ArchStyle::LayerBased));
    assert_eq!(stack.skills[0].name, "React");
    assert_eq!(stack.skills[1].name, "Next.js");
    // one entry per name, at the highest confidence any layer gave it
    let prisma: Vec<&Skill> = stack.skills.iter().filter(|s| s.name == "Database ORM (Prisma)").collect();
    assert_eq!(prisma.len(), 1);
    assert_eq!(prisma[0].confidence, 90);
}

#[test]
fn detects_rust_axum_stack() {
    let cargo = r#"
            [package]
            name = "my-api"
            [dependencies]
            axum = "0.7"
            sqlx = "0.7"
            tokio = "1"
        "#;

    let signal = SignalFile { kind: SignalKind::CargoToml, path: "Cargo.toml".to_string(), content: cargo.to_string() };

    let scan = ScanResult {
        root: ".".to_string(),
        signal_files: vec![signal],
        folder_map: FolderMap::new(),
        file_patterns: vec![".rs".to_string()],
        readme_excerpt: None,
    };

    let stack = detect(&scan).unwrap();

    assert_eq!(stack.language, "Rust");
    assert_eq!(stack.framework.as_deref(), Some("Axum"));
    assert!(stack.database.is_some());
}

#[test]
fn rust_stack_runtime_and_database() {
    let signal = SignalFile {
        kind: SignalKind::CargoToml,
        path: "Cargo.toml".to_string(),
        content: "[dependencies]\naxum = \"0.7\"\nsqlx = \"0.7\"\n".to_string(),
    };
    let scan = ScanResult {
        root: ".".to_string(),
        signal_files: vec![signal],
        folder_map: FolderMap::new(),
        file_patterns: vec![],
        readme_excerpt: None,
    };
    let stack = detect(&scan).unwrap();
    assert_eq!(stack.runtime.as_deref(), Some("Rust (native)"));
    assert_eq!(stack.database.as_deref(), Some("SQLx"));
    assert_eq!(stack.architecture_style, Some(ArchStyle::Flat));
}

#[test]
fn skills_sorted_by_confidence_descending() {
    let scan = make_scan(r#"{"dependencies":{"next":"14","react":"18"}}"#, &[], &[]);
    let stack = detect(&scan).unwrap();
    let confidences: Vec<u8> = stack.skills.iter().map(|s| s.confidence).collect();
    let mut sorted = confidences.clone();
    sorted.sort_by(|a, b| b.cmp(a));
    assert_eq!(confidences, sorted);
}

#[test]
fn no_skills_below_threshold_in_output() {
    let scan = make_scan(r#"{"dependencies":{}}"#, &[], &[]);
    let stack = detect(&scan).unwrap();
    assert!(stack.skills.iter().all(|s| s.confidence >= INCLUDE_THRESHOLD));
}

#[test]
fn empty_scan_language_unknown() {
    let scan = ScanResult {
        root: ".".to_string(),
        signal_files: vec![],
        folder_map: FolderMap::new(),
        file_patterns: vec![],
        readme_excerpt: None,
    };
    let stack: StackResult = detect(&scan).unwrap();
    assert_eq!(stack.language, "Unknown");
    assert!(stack.skills.is_empty());
    assert_eq!(stack.framework, None);
    assert_eq!(stack.runtime.as_deref(), Some("Node.js"));
}

#[test]
fn package_json_dependencies() {
    let skills = detect_from_package_json(
        r#"{"dependencies":{"react-dom":"18"},"devDependencies":{"typescript":"5"},"peerDependencies":{"vue":"3"}}"#,
    );
    assert_eq!(names(&skills), vec!["Node.js", "TypeScript", "React", "Vue.js"]);
    assert_eq!(skills[1].confidence, 95);
}

#[test]
fn package_json_invalid_gives_node_only() {
    let skills = detect_from_package_json("not json");
    assert_eq!(names(&skills), vec!["Node.js"]);
    assert_eq!(skills[0].confidence, 90);
}

#[test]
fn cargo_toml_contents() {
    let skills = detect_from_cargo_toml("[dependencies]\nserde_json = \"1\"\ntokio = \"1\"");
    assert_eq!(names(&skills), vec!["Rust", "Tokio", "Serde"]);
    assert_eq!(skills[0].confidence, 99);
}

#[test]
fn deps_layer_reads_root_manifests_only() {
    let files = vec![
        SignalFile { kind: SignalKind::PackageJson, path: "packages/a/package.json".into(), content: r#"{"dependencies":{"express":"4"}}"#.into() },
        SignalFile { kind: SignalKind::GoMod, path: "go.mod".into(), content: "module x".into() },
        SignalFile { kind: SignalKind::PyProject, path: "pyproject.toml".into(), content: "".into() },
    ];
    let skills = detect_from_deps(&files);
    assert_eq!(names(&skills), vec!["Go", "Python"]);
}

#[test]
fn folder_layer_rules() {
    let fm = folder_map_of(&["prisma", "cypress", "src"]);
    let skills = detect_from_folders(&fm);
    assert_eq!(names(&skills), vec!["Database ORM (Prisma)", "E2E Testing (Cypress)"]);
    assert!(matches!(&skills[0].source, SkillSource::FolderName(d) if d == "prisma"));
}

#[test]
fn pattern_layer_rules() {
    let skills = detect_from_patterns(&vec!["Dockerfile".to_string(), "*.test.ts".to_string(), "vitest.config.ts".to_string()]);
    assert_eq!(names(&skills), vec!["Docker", "Testing", "Testing (Vitest)"]);
}

#[test]
fn architecture_patterns() {
    let fm = folder_map_of(&["packages", "components", "hooks", "controllers", "services", "domain"]);
    assert_eq!(
        infer_architecture(&fm),
        vec!["monorepo", "react-component-architecture", "mvc", "clean-architecture"]
    );
    assert!(infer_architecture(&folder_map_of(&["handlers"])).is_empty());
    assert_eq!(infer_arch_style(&folder_map_of(&["modules", "components"])), ArchStyle::FeatureBased);
}

#[test]
fn merge_keeps_highest_confidence_per_name() {
    let merged = merge_skills(&vec![skill("React", 80), skill("Vue.js", 90), skill("React", 95), skill("React", 95)]);
    assert_eq!(names(&merged), vec!["React", "Vue.js"]);
    assert_eq!(merged[0].confidence, 95);
    assert_eq!(merged[1].confidence, 90);
}

#[test]
fn rank_filters_and_orders() {
    let ranked = rank_skills(&vec![skill("A", 60), skill("B", 40), skill("C", 95), skill("D", 60), skill("E", 50)]);
    assert_eq!(names(&ranked), vec!["C", "A", "D", "E"]);
}

#[test]
fn clean_framework_names() {
    assert_eq!(clean_framework_name("Rust Web Server (Axum)"), "Axum");
    assert_eq!(clean_framework_name("Next.js"), "Next.js");
    assert_eq!(clean_framework_name("A (B (C))"), "B ");
    assert_eq!(clean_framework_name("X (Y))"), "Y");
}

fn scan_with(signals: Vec<SignalFile>, patterns: &[&str]) -> ScanResult {
    ScanResult {
        root: ".".to_string(),
        signal_files: signals,
        folder_map: FolderMap::new(),
        file_patterns: patterns.iter().map(|s| s.to_string()).collect(),
        readme_excerpt: None,
    }
}

#[test]
fn test_detect_nextjs() {
    let pkg = SignalFile {
        kind: SignalKind::PackageJson,
        path: "package.json".into(),
        content: r#"{"name":"nextjs-basic","dependencies":{"next":"14","react":"18"},"devDependencies":{"typescript":"5"}}"#.into(),
    };
    let stack = detect(&scan_with(vec![pkg], &[".tsx"])).unwrap();
    let has_nextjs = stack.skills.iter().any(|f| f.name == "Next.js");
    let has_react = stack.skills.iter().any(|f| f.name == "React");
    assert!(has_nextjs || has_react, "should detect nextjs or react");
    let has_ts = stack.skills.iter().any(|l| l.name == "TypeScript" || l.name == "Node.js");
    assert!(has_ts, "should detect typescript or nodejs");
}

#[test]
fn test_detect_rust_axum() {
    let cargo = SignalFile {
        kind: SignalKind::CargoToml,
        path: "Cargo.toml".into(),
        content: "[package]\nname = \"rust-axum\"\n[dependencies]\naxum = \"0.7\"\n".into(),
    };
    let stack = detect(&scan_with(vec![cargo], &[".rs"])).unwrap();
    assert!(stack.skills.iter().any(|l| l.name == "Rust"), "should detect rust language");
    assert!(stack.skills.iter().any(|f| f.name == "Rust Web Server (Axum)"), "should detect axum framework");
}

#[test]
fn test_detect_empty_repo_no_panic() {
    let stack = detect(&scan_with(vec![], &[])).unwrap();
    assert!(stack.skills.is_empty());
}

#[test]
fn react_dependency_gives_react_at_99() {
    let skills = detect_from_package_json(r#"{"dependencies":{"react":"18"}}"#);
    assert!(skills.iter().any(|s| s.name == "React" && s.confidence == 99));
}

#[test]
fn hooks_folder_gives_react_hooks_pattern() {
    let skills = detect_from_folders(&folder_map_of(&["hooks"]));
    assert_eq!(names(&skills), vec!["React Hooks Pattern"]);
    assert_eq!(skills[0].confidence, 85);
}

#[test]
fn pattern_layer_reads_file_names_of_the_folder_map() {
    let mut fm = FolderMap::new();
    for f in ["Dockerfile", "biome.json", "vitest.config.ts"] {
        fm.push_child("app".to_string(), f.to_string());
    }
    let scan = ScanResult { root: ".".into(), signal_files: vec![], folder_map: fm, file_patterns: vec![], readme_excerpt: None };
    let stack = detect(&scan).unwrap();
    let got: Vec<(String, u8)> = stack.skills.iter().map(|s| (s.name.clone(), s.confidence)).collect();
    assert_eq!(got, vec![("Docker".to_string(), 95), ("Biome".to_string(), 95), ("Testing (Vitest)".to_string(), 90)]);
}

#[test]
fn bun_deno_css_modules_and_javascript() {
    let mut fm = FolderMap::new();
    fm.push_child("app".to_string(), "bun.lockb".to_string());
    fm.push_child("app".to_string(), "Button.module.css".to_string());
    let scan = ScanResult { root: ".".into(), signal_files: vec![], folder_map: fm, file_patterns: vec![".js".into()], readme_excerpt: None };
    let stack = detect(&scan).unwrap();
    assert_eq!(stack.runtime.as_deref(), Some("Bun"));
    assert_eq!(stack.styling.as_deref(), Some("CSS Modules"));
    assert_eq!(stack.language, "JavaScript");

    let mut fm = FolderMap::new();
    fm.push_child("app".to_string(), "deno.json".to_string());
    let scan = ScanResult { root: ".".into(), signal_files: vec![], folder_map: fm, file_patterns: vec![], readme_excerpt: None };
    assert_eq!(detect(&scan).unwrap().runtime.as_deref(), Some("Deno"));
}

#[test]
fn pipfile_gives_python() {
    assert_eq!(signal_kind("Pipfile"), Some(SignalKind::OtherManifest));
    assert_eq!(signal_kind("pom.xml"), Some(SignalKind::OtherManifest));
    assert_eq!(signal_kind("notes.txt"), None);
    let signal = SignalFile { kind: SignalKind::OtherManifest, path: "Pipfile".into(), content: String::new() };
    let skills = detect_from_deps(&vec![signal]);
    assert_eq!(names(&skills), vec!["Python"]);
}

#[test]
fn package_json_beside_cargo_toml_gives_typescript_and_rust() {
    let pkg = SignalFile { kind: SignalKind::PackageJson, path: "package.json".into(), content: r#"{"devDependencies":{"typescript":"5"}}"#.into() };
    let cargo = SignalFile { kind: SignalKind::CargoToml, path: "Cargo.toml".into(), content: "[package]\nname = \"x\"".into() };
    let scan = ScanResult { root: ".".into(), signal_files: vec![pkg, cargo], folder_map: FolderMap::new(), file_patterns: vec![], readme_excerpt: None };
    let stack = detect(&scan).unwrap();
    assert_eq!(stack.language, "TypeScript + Rust");
    assert_eq!(stack.runtime.as_deref(), Some("Node.js + Rust (native)"));

    let cargo = SignalFile { kind: SignalKind::CargoToml, path: "Cargo.toml".into(), content: "[package]\nname = \"x\"".into() };
    let scan = ScanResult { root: ".".into(), signal_files: vec![cargo], folder_map: FolderMap::new(), file_patterns: vec![], readme_excerpt: None };
    let stack = detect(&scan).unwrap();
    assert_eq!(stack.language, "Rust");
    assert_eq!(stack.runtime.as_deref(), Some("Rust (native)"));
}

#[test]
fn has_skill_ignores_ascii_case() {
    let stack = StackResult {
        language: String::new(),
        framework: None,
        styling: None,
        state_management: None,
        testing: None,
        database: None,
        runtime: None,
        skills: vec![skill("Next.js", 95), skill("Vue.js", 40)],
        architecture_style: None,
    };
    assert!(stack.has_skill("NEXT", 50));
    assert!(stack.has_skill("next.js", 90));
    assert!(!stack.has_skill("next.js", 96));
    assert!(!stack.has_skill("vue", 50));
}

#[test]
fn merge_keeps_the_earliest_on_a_tie() {
    let a = Skill { name: "Docker".into(), confidence: 95, source: SkillSource::FilePattern("Dockerfile".into()) };
    let b = Skill { name: "Docker".into(), confidence: 95, source: SkillSource::FolderName("docker".into()) };
    let merged = merge_skills(&vec![a, b]);
    assert_eq!(merged.len(), 1);
    assert!(matches!(&merged[0].source, SkillSource::FilePattern(f) if f == "Dockerfile"));
}
