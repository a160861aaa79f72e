//! Which files are signal files, and what the README contributes.

use vstd::prelude::*;
use crate::detector::deps::{first_content, find_signal};
use crate::text::{has_prefix, last_segment, last_segment_of, starts_with, str_eq};
use crate::types::{SignalFile, SignalKind};
use crate::detector::str_views;
use crate::scanner::walker::list_contains;

verus! {

/// The kind of signal file at `path` (relative to the scanned root, `/`-separated):
/// anything under `.github/workflows/` is a workflow; otherwise the file name decides.
pub open spec fn signal_kind_of(path: Seq<char>) -> Option<SignalKind> {
    if has_prefix(path, ".github/workflows/"@) {
        Some(SignalKind::GithubWorkflow)
    } else if last_segment(path) == "package.json"@ {
        Some(SignalKind::PackageJson)
    } else if last_segment(path) == "tsconfig.json"@ {
        Some(SignalKind::TsConfig)
    } else if last_segment(path) == "Cargo.toml"@ {
        Some(SignalKind::CargoToml)
    } else if last_segment(path) == "pyproject.toml"@ {
        Some(SignalKind::PyProject)
    } else if last_segment(path) == "requirements.txt"@ {
        Some(SignalKind::RequirementsTxt)
    } else if last_segment(path) == "go.mod"@ {
        Some(SignalKind::GoMod)
    } else if last_segment(path) == "README.md"@ {
        Some(SignalKind::ReadmeMd)
    } else if last_segment(path) == "Dockerfile"@ {
        Some(SignalKind::Dockerfile)
    } else if last_segment(path) == "docker-compose.yml"@ {
        Some(SignalKind::DockerCompose)
    } else if last_segment(path) == "docker-compose.yaml"@ {
        Some(SignalKind::DockerCompose)
    } else if last_segment(path) == ".repo-intel.toml"@ {
        Some(SignalKind::RepoIntelConfig)
    } else if other_manifests().contains(last_segment(path)) {
        Some(SignalKind::OtherManifest)
    } else {
        None
    }
}

/// File names of the other stack manifests.
pub open spec fn other_manifests() -> Seq<Seq<char>> {
    seq![
        "build.gradle"@,
        "build.gradle.kts"@,
        "composer.json"@,
        "deno.json"@,
        "Gemfile"@,
        "lerna.json"@,
        "mix.exs"@,
        "nx.json"@,
        "Pipfile"@,
        "pnpm-workspace.yaml"@,
        "pom.xml"@,
        "pubspec.yaml"@,
        "turbo.json"@,
    ]
}

/// The kind of signal file at `path`, or `None` when the file carries no signal.
pub fn signal_kind(path: &str) -> (r: Option<SignalKind>)
    ensures
        r == signal_kind_of(path@),
{
    let name = last_segment_of(path);
    if starts_with(path, ".github/workflows/") {
        Some(SignalKind::GithubWorkflow)
    } else if str_eq(name.as_str(), "package.json") {
        Some(SignalKind::PackageJson)
    } else if str_eq(name.as_str(), "tsconfig.json") {
        Some(SignalKind::TsConfig)
    } else if str_eq(name.as_str(), "Cargo.toml") {
        Some(SignalKind::CargoToml)
    } else if str_eq(name.as_str(), "pyproject.toml") {
        Some(SignalKind::PyProject)
    } else if str_eq(name.as_str(), "requirements.txt") {
        Some(SignalKind::RequirementsTxt)
    } else if str_eq(name.as_str(), "go.mod") {
        Some(SignalKind::GoMod)
    } else if str_eq(name.as_str(), "README.md") {
        Some(SignalKind::ReadmeMd)
    } else if str_eq(name.as_str(), "Dockerfile") {
        Some(SignalKind::Dockerfile)
    } else if str_eq(name.as_str(), "docker-compose.yml") {
        Some(SignalKind::DockerCompose)
    } else if str_eq(name.as_str(), "docker-compose.yaml") {
        Some(SignalKind::DockerCompose)
    } else if str_eq(name.as_str(), ".repo-intel.toml") {
        Some(SignalKind::RepoIntelConfig)
    } else {
        let others = vec![
            "build.gradle",
            "build.gradle.kts",
            "composer.json",
            "deno.json",
            "Gemfile",
            "lerna.json",
            "mix.exs",
            "nx.json",
            "Pipfile",
            "pnpm-workspace.yaml",
            "pom.xml",
            "pubspec.yaml",
            "turbo.json",
        ];
        assert(str_views(others@) =~= other_manifests());
        if list_contains(&others, name.as_str()) {
            Some(SignalKind::OtherManifest)
        } else {
            None
        }
    }
}

/// Number of characters of the README kept in the excerpt.
pub const README_EXCERPT_CHARS: usize = 500;

/// The README excerpt: the first characters of the root `README.md`, if there is one.
pub open spec fn readme_excerpt_of(files: Seq<SignalFile>) -> Option<Seq<char>> {
    match first_content(files, "README.md"@) {
        Some(c) => Some(if c.len() <= README_EXCERPT_CHARS { c } else { c.take(README_EXCERPT_CHARS as int) }),
        None => None,
    }
}

/// The README excerpt of the signal files.
pub fn readme_excerpt(files: &Vec<SignalFile>) -> (r: Option<String>)
    ensures
        crate::scanner::walker::opt_view_eq(r, readme_excerpt_of(files@)),
{
    match find_signal(files, "README.md") {
        Some(i) => {
            let content = files[i].content.as_str();
            let n = content.unicode_len();
            if n <= README_EXCERPT_CHARS {
                Some(content.to_owned())
            } else {
                assert(content@.take(README_EXCERPT_CHARS as int) =~= content@.subrange(0, README_EXCERPT_CHARS as int));
                Some(content.substring_char(0, README_EXCERPT_CHARS).to_owned())
            }
        },
        None => None,
    }
}


/// Every manifest file name is classified, wherever it lies: a path under
/// `.github/workflows/` is a workflow, and otherwise a path whose last segment is one
/// of the manifest names gets that manifest's kind (the build manifests of other
/// ecosystems are `OtherManifest`).
pub proof fn lemma_signal_kinds(path: Seq<char>)
    ensures
        has_prefix(path, ".github/workflows/"@) ==> signal_kind_of(path) == Some(SignalKind::GithubWorkflow),
        ({
            let plain = !has_prefix(path, ".github/workflows/"@);
            let name = last_segment(path);
            let kind = signal_kind_of(path);
            &&& plain && name == ".repo-intel.toml"@ ==> kind == Some(SignalKind::RepoIntelConfig)
            &&& plain && name == "Cargo.toml"@ ==> kind == Some(SignalKind::CargoToml)
            &&& plain && name == "docker-compose.yaml"@ ==> kind == Some(SignalKind::DockerCompose)
            &&& plain && name == "docker-compose.yml"@ ==> kind == Some(SignalKind::DockerCompose)
            &&& plain && name == "Dockerfile"@ ==> kind == Some(SignalKind::Dockerfile)
            &&& plain && name == "go.mod"@ ==> kind == Some(SignalKind::GoMod)
            &&& plain && name == "package.json"@ ==> kind == Some(SignalKind::PackageJson)
            &&& plain && name == "pyproject.toml"@ ==> kind == Some(SignalKind::PyProject)
            &&& plain && name == "README.md"@ ==> kind == Some(SignalKind::ReadmeMd)
            &&& plain && name == "requirements.txt"@ ==> kind == Some(SignalKind::RequirementsTxt)
            &&& plain && name == "tsconfig.json"@ ==> kind == Some(SignalKind::TsConfig)
            &&& plain && (name == "build.gradle"@ || name == "build.gradle.kts"@ || name == "composer.json"@ || name == "deno.json"@ || name == "Gemfile"@ || name == "lerna.json"@ || name == "mix.exs"@ || name == "nx.json"@ || name == "Pipfile"@ || name == "pnpm-workspace.yaml"@ || name == "pom.xml"@ || name == "pubspec.yaml"@ || name == "turbo.json"@) ==> kind == Some(SignalKind::OtherManifest)
        }),
{
    reveal_strlit(".repo-intel.toml");
    reveal_strlit("build.gradle");
    reveal_strlit("build.gradle.kts");
    reveal_strlit("Cargo.toml");
    reveal_strlit("composer.json");
    reveal_strlit("deno.json");
    reveal_strlit("docker-compose.yaml");
    reveal_strlit("docker-compose.yml");
    reveal_strlit("Dockerfile");
    reveal_strlit("Gemfile");
    reveal_strlit("go.mod");
    reveal_strlit("lerna.json");
    reveal_strlit("mix.exs");
    reveal_strlit("nx.json");
    reveal_strlit("package.json");
    reveal_strlit("Pipfile");
    reveal_strlit("pnpm-workspace.yaml");
    reveal_strlit("pom.xml");
    reveal_strlit("pubspec.yaml");
    reveal_strlit("pyproject.toml");
    reveal_strlit("README.md");
    reveal_strlit("requirements.txt");
    reveal_strlit("tsconfig.json");
    reveal_strlit("turbo.json");
    assert(".repo-intel.toml"@.len() == 16);
    assert("build.gradle"@.len() == 12);
    assert("build.gradle.kts"@.len() == 16);
    assert("Cargo.toml"@.len() == 10);
    assert("composer.json"@.len() == 13);
    assert("deno.json"@.len() == 9);
    assert("docker-compose.yaml"@.len() == 19);
    assert("docker-compose.yml"@.len() == 18);
    assert("Dockerfile"@.len() == 10);
    assert("Gemfile"@.len() == 7);
    assert("go.mod"@.len() == 6);
    assert("lerna.json"@.len() == 10);
    assert("mix.exs"@.len() == 7);
    assert("nx.json"@.len() == 7);
    assert("package.json"@.len() == 12);
    assert("Pipfile"@.len() == 7);
    assert("pnpm-workspace.yaml"@.len() == 19);
    assert("pom.xml"@.len() == 7);
    assert("pubspec.yaml"@.len() == 12);
    assert("pyproject.toml"@.len() == 14);
    assert("README.md"@.len() == 9);
    assert("requirements.txt"@.len() == 16);
    assert("tsconfig.json"@.len() == 13);
    assert("turbo.json"@.len() == 10);
    assert(".repo-intel.toml"@[0] != "build.gradle.kts"@[0]);
    assert(".repo-intel.toml"@[0] != "requirements.txt"@[0]);
    assert("build.gradle"@[0] != "package.json"@[0]);
    assert("build.gradle"@[0] != "pubspec.yaml"@[0]);
    assert("build.gradle.kts"@[0] != "requirements.txt"@[0]);
    assert("Cargo.toml"@[0] != "Dockerfile"@[0]);
    assert("Cargo.toml"@[0] != "lerna.json"@[0]);
    assert("Cargo.toml"@[0] != "turbo.json"@[0]);
    assert("composer.json"@[0] != "tsconfig.json"@[0]);
    assert("deno.json"@[0] != "README.md"@[0]);
    assert("docker-compose.yaml"@[0] != "pnpm-workspace.yaml"@[0]);
    assert("Dockerfile"@[0] != "lerna.json"@[0]);
    assert("Dockerfile"@[0] != "turbo.json"@[0]);
    assert("Gemfile"@[0] != "mix.exs"@[0]);
    assert("Gemfile"@[0] != "nx.json"@[0]);
    assert("Gemfile"@[0] != "Pipfile"@[0]);
    assert("Gemfile"@[0] != "pom.xml"@[0]);
    assert("lerna.json"@[0] != "turbo.json"@[0]);
    assert("mix.exs"@[0] != "nx.json"@[0]);
    assert("mix.exs"@[0] != "Pipfile"@[0]);
    assert("mix.exs"@[0] != "pom.xml"@[0]);
    assert("nx.json"@[0] != "Pipfile"@[0]);
    assert("nx.json"@[0] != "pom.xml"@[0]);
    assert("package.json"@[1] != "pubspec.yaml"@[1]);
    assert("Pipfile"@[0] != "pom.xml"@[0]);
}

} // verus!
