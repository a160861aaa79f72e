use repo_intel_core::config::{default_output_dir, default_skip_dirs, AiConfig, Config, OutputConfig, ScanConfig};
use repo_intel_core::folder_map::FolderMap;

#[test]
fn folder_map_push_then_get() {
    let mut fm = FolderMap::new();
    assert!(fm.is_empty());
    fm.push_child("src".to_string(), "a.ts".to_string());
    fm.push_child("src".to_string(), "b.ts".to_string());
    fm.register_dir("src".to_string());
    fm.register_dir("lib".to_string());
    assert_eq!(fm.len(), 2);
    assert_eq!(fm.get("src").unwrap(), &vec!["a.ts".to_string(), "b.ts".to_string()]);
    assert!(fm.get("lib").unwrap().is_empty());
    assert_eq!(fm.keys(), vec!["src".to_string(), "lib".to_string()]);
}

#[test]
fn folder_map_remove() {
    let mut fm = FolderMap::new();
    fm.register_dir("a1".to_string());
    fm.register_dir("b1".to_string());
    fm.remove("a1");
    fm.remove("zz");
    assert!(!fm.contains_key("a1"));
    assert!(fm.contains_key("b1"));
    assert_eq!(fm.len(), 1);
    assert!(fm.get("a1").is_none());
}

#[test]
fn config_defaults() {
    let cfg = Config::default();
    assert_eq!(cfg.output.dir, "agents");
    assert_eq!(cfg.scan.max_depth, 0);
    assert_eq!(cfg.scan.skip_dirs.len(), 8);
    assert!(cfg.scan.skip_dirs.contains(&"node_modules".to_string()));
    assert!(cfg.project.exclude.is_empty());
    assert!(cfg.ai.provider.is_none());
    assert_eq!(default_output_dir(), "agents");
    assert_eq!(default_skip_dirs()[0], "node_modules");
    assert_eq!(OutputConfig::default().dir, "agents");
    assert_eq!(ScanConfig::default().skip_dirs, default_skip_dirs());
    assert!(AiConfig::default().model.is_none());
}
