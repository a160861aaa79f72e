//! Configuration read from `.repo-intel.toml`.

use vstd::prelude::*;
use crate::order::views;
use crate::text::owned;

verus! {

/// Configuration loaded from `.repo-intel.toml`.
#[derive(Debug, Clone)]
pub struct Config {
    pub scan: ScanConfig,
    pub ai: AiConfig,
    pub output: OutputConfig,
    pub project: ProjectConfig,
}

/// Scan settings.
#[derive(Debug, Clone)]
pub struct ScanConfig {
    /// Directory names to skip during traversal
    pub skip_dirs: Vec<String>,
    /// Maximum directory depth (0 = unlimited)
    pub max_depth: usize,
}

/// AI provider settings.
#[derive(Debug, Clone)]
pub struct AiConfig {
    /// AI provider: "anthropic" | "openai" | "ollama"
    pub provider: Option<String>,
    /// Model name override
    pub model: Option<String>,
    /// API key (if not using environment variable)
    pub api_key: Option<String>,
}

/// Output settings.
#[derive(Debug, Clone)]
pub struct OutputConfig {
    /// Directory to write generated agent docs into
    pub dir: String,
}

/// Project settings.
#[derive(Debug, Clone)]
pub struct ProjectConfig {
    /// Folder names to leave out of the folder map (a trailing `/` is ignored)
    pub exclude: Vec<String>,
}

/// The directory names skipped by default.
pub open spec fn default_skip_dirs_spec() -> Seq<Seq<char>> {
    seq!["node_modules"@, "target"@, ".git"@, "dist"@, "build"@, ".next"@, ".turbo"@, "coverage"@]
}

/// The directory names skipped by default.
pub fn default_skip_dirs() -> (r: Vec<String>)
    ensures
        views(r@) == default_skip_dirs_spec(),
{
    let r = vec![owned("node_modules"), owned("target"), owned(".git"), owned("dist"), owned("build"), owned(".next"), owned(".turbo"), owned("coverage")];
    assert(views(r@) =~= default_skip_dirs_spec());
    r
}

/// The default output directory.
pub fn default_output_dir() -> (r: String)
    ensures
        r@ == "agents"@,
{
    owned("agents")
}

impl Default for ScanConfig {
    fn default() -> (r: Self)
        ensures
            views(r.skip_dirs@) == default_skip_dirs_spec(),
            r.max_depth == 0,
    {
        ScanConfig { skip_dirs: default_skip_dirs(), max_depth: 0 }
    }
}

impl Default for AiConfig {
    fn default() -> (r: Self)
        ensures
            r.provider is None,
            r.model is None,
            r.api_key is None,
    {
        AiConfig { provider: None, model: None, api_key: None }
    }
}

impl Default for OutputConfig {
    fn default() -> (r: Self)
        ensures
            r.dir@ == "agents"@,
    {
        OutputConfig { dir: default_output_dir() }
    }
}

impl Default for ProjectConfig {
    fn default() -> (r: Self)
        ensures
            r.exclude@.len() == 0,
    {
        ProjectConfig { exclude: Vec::new() }
    }
}

impl Default for Config {
    fn default() -> (r: Self)
        ensures
            views(r.scan.skip_dirs@) == default_skip_dirs_spec(),
            r.scan.max_depth == 0,
            r.ai.provider is None,
            r.ai.model is None,
            r.ai.api_key is None,
            r.output.dir@ == "agents"@,
            r.project.exclude@.len() == 0,
    {
        Config {
            scan: ScanConfig::default(),
            ai: AiConfig::default(),
            output: OutputConfig::default(),
            project: ProjectConfig::default(),
        }
    }
}

} // verus!
