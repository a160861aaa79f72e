//! The data that flows from the scanner through the detector to the context.
//!
//! Confidence scores are whole percentage points (0–100): 95 stands for 0.95.

use vstd::prelude::*;
use crate::folder_map::FolderMap;
use crate::text::{contains_seq, lowercase, to_lowercase, contains, all_ascii, ascii_lower};

verus! {

/// Kinds of files that carry stack information.
#[derive(Debug, Clone, Copy, PartialEq, Eq, Structural)]
pub enum SignalKind {
    PackageJson,
    TsConfig,
    CargoToml,
    PyProject,
    RequirementsTxt,
    GoMod,
    ReadmeMd,
    Dockerfile,
    DockerCompose,
    GithubWorkflow,
    RepoIntelConfig,
    /// Another stack manifest (`Pipfile`, `pom.xml`, `Gemfile`, `deno.json`, ...),
    /// kept by its path and read by the rules that name it.
    OtherManifest,
}

/// A signal file found by the scanner, with its raw contents.
#[derive(Debug, Clone)]
pub struct SignalFile {
    pub kind: SignalKind,
    /// Path relative to the scanned root, `/`-separated.
    pub path: String,
    /// Raw file contents; callers are responsible for parsing.
    pub content: String,
}

/// Scanner output.
pub struct ScanResult {
    pub root: String,
    pub signal_files: Vec<SignalFile>,
    /// Folder name → list of direct child file names.
    pub folder_map: FolderMap,
    /// Collected file extensions and notable name patterns (e.g. `*.test.ts`).
    pub file_patterns: Vec<String>,
    pub readme_excerpt: Option<String>,
}

/// Where a skill was detected.
#[derive(Debug, Clone)]
pub enum SkillSource {
    PackageJson,
    CargoToml,
    FolderName(String),
    FilePattern(String),
    ReadmeSignal,
}

/// What a `SkillSource` says, with strings taken by their characters.
pub ghost enum SourceView {
    PackageJson,
    CargoToml,
    FolderName(Seq<char>),
    FilePattern(Seq<char>),
    ReadmeSignal,
}

impl View for SkillSource {
    type V = SourceView;

    open spec fn view(&self) -> SourceView {
        match self {
            SkillSource::PackageJson => SourceView::PackageJson,
            SkillSource::CargoToml => SourceView::CargoToml,
            SkillSource::FolderName(d) => SourceView::FolderName(d@),
            SkillSource::FilePattern(f) => SourceView::FilePattern(f@),
            SkillSource::ReadmeSignal => SourceView::ReadmeSignal,
        }
    }
}

/// What a `Skill` says: its name, its confidence and its source.
pub ghost struct SkillView {
    pub name: Seq<char>,
    pub confidence: u8,
    pub source: SourceView,
}

/// A detected skill with its confidence in percentage points (0–100).
#[derive(Debug, Clone)]
pub struct Skill {
    pub name: String,
    pub confidence: u8,
    pub source: SkillSource,
}

impl View for Skill {
    type V = SkillView;

    open spec fn view(&self) -> SkillView {
        SkillView { name: self.name@, confidence: self.confidence, source: self.source@ }
    }
}

/// The views of a list of skills.
pub open spec fn skill_views(s: Seq<Skill>) -> Seq<SkillView> {
    s.map_values(|k: Skill| k@)
}

/// Coarse architecture style of the repository.
#[derive(Debug, Clone, Copy, PartialEq, Eq, Structural)]
pub enum ArchStyle {
    /// `src/modules/feature/…`
    FeatureBased,
    /// `src/components`, `src/services`, `src/hooks`
    LayerBased,
    /// Minimal / flat structure
    Flat,
}

/// Detector output.
pub struct StackResult {
    pub language: String,
    pub framework: Option<String>,
    pub styling: Option<String>,
    pub state_management: Option<String>,
    pub testing: Option<String>,
    pub database: Option<String>,
    pub runtime: Option<String>,
    pub skills: Vec<Skill>,
    pub architecture_style: Option<ArchStyle>,
}

/// Some skill's lowercased name contains the lowercased `needle`, at a confidence of
/// at least `min_confidence`.
pub open spec fn has_skill_spec(skills: Seq<Skill>, needle: Seq<char>, min_confidence: u8) -> bool {
    exists|i: int|
        0 <= i < skills.len() && contains_seq(lowercase((#[trigger] skills[i]).name@), lowercase(needle))
            && skills[i].confidence >= min_confidence
}

/// `has_skill_spec` for ASCII text: case is ignored by lowering ASCII capitals.
pub open spec fn has_skill_ascii(skills: Seq<Skill>, needle: Seq<char>, min_confidence: u8) -> bool {
    exists|i: int|
        0 <= i < skills.len() && contains_seq(ascii_lower((#[trigger] skills[i]).name@), ascii_lower(needle))
            && skills[i].confidence >= min_confidence
}

/// The needle and every skill name are ASCII.
pub open spec fn ascii_names(skills: Seq<Skill>, needle: Seq<char>) -> bool {
    all_ascii(needle) && forall|i: int| 0 <= i < skills.len() ==> all_ascii((#[trigger] skills[i]).name@)
}

impl StackResult {
    /// Whether any skill name contains `needle` (ignoring case) with confidence
    /// at least `min_confidence`.
    pub fn has_skill(&self, needle: &str, min_confidence: u8) -> (r: bool)
        ensures
            r == has_skill_spec(self.skills@, needle@, min_confidence),
            ascii_names(self.skills@, needle@) ==> r == has_skill_ascii(self.skills@, needle@, min_confidence),
    {
        let low_needle = to_lowercase(needle);
        let n = self.skills.len();
        let mut i: usize = 0;
        while i < n
            invariant
                n == self.skills@.len(),
                i <= n,
                low_needle@ == lowercase(needle@),
                all_ascii(needle@) ==> low_needle@ == ascii_lower(needle@),
                ascii_names(self.skills@, needle@) ==> forall|j: int|
                    0 <= j < i ==> !(contains_seq(ascii_lower((#[trigger] self.skills@[j]).name@), ascii_lower(needle@))
                        && self.skills@[j].confidence >= min_confidence),
                forall|j: int|
                    0 <= j < i ==> !(contains_seq(lowercase((#[trigger] self.skills@[j]).name@), lowercase(needle@))
                        && self.skills@[j].confidence >= min_confidence),
            decreases n - i,
        {
            let s = &self.skills[i];
            if s.confidence >= min_confidence {
                let low_name = to_lowercase(s.name.as_str());
                proof {
                    if ascii_names(self.skills@, needle@) {
                        assert(all_ascii(self.skills@[i as int].name@));
                    }
                }
                if contains(low_name.as_str(), low_needle.as_str()) {
                    return true;
                }
            }
            i = i + 1;
        }
        false
    }
}

/// Project identity taken from the manifests and the README.
#[derive(Debug, Clone)]
pub struct ProjectMeta {
    pub name: String,
    pub description: Option<String>,
    pub readme_excerpt: Option<String>,
}

/// Architecture facts about the repository.
#[derive(Debug, Clone)]
pub struct ArchMeta {
    pub style: Option<ArchStyle>,
    /// Top-level folder names present in the repo
    pub folders: Vec<String>,
    pub has_monorepo: bool,
    pub has_docker: bool,
    pub has_ci: bool,
    pub has_git: bool,
}

/// The full context handed to the documentation generator.
pub struct RepoContext {
    pub version: String,
    /// ISO 8601 time of the scan.
    pub scanned_at: String,
    pub root: String,
    pub project: ProjectMeta,
    pub stack: StackResult,
    pub architecture: ArchMeta,
    pub agent_roles: Vec<String>,
}

/// One generated agent document (produced downstream; typed here for shared reference).
#[derive(Debug, Clone)]
pub struct AgentDoc {
    pub role: String,
    pub filename: String,
    pub content: String,
    pub generated_at: String,
    pub generated_by: String,
    pub confidence: u8,
}

} // verus!
