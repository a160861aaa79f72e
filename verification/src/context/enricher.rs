//! Enrichment: project identity and architecture facts.

use vstd::prelude::*;
use crate::detector::{has_named, has_named_exec, str_views};
use crate::folder_map::{FolderMap, has_key, keys_of};
use crate::manifest::{json_string_member, toml_string_member, string_of_json, string_of_toml};
use crate::order::{views, strictly_sorted, sorted_unique};
use crate::path::{path_depth, file_name, path_components};
use crate::text::{opt_view, owned, str_eq, starts_with, ends_with, has_prefix, has_suffix, concat_str};
use crate::types::{ArchMeta, ArchStyle, ProjectMeta, SignalFile, SignalKind, Skill, skill_views};

verus! {

/// What was found at the scanned root, outside the walk.
#[derive(Debug, Clone, Copy, Default)]
pub struct RootFacts {
    /// `.git/` is a directory
    pub git_dir: bool,
    /// `Dockerfile` exists
    pub dockerfile: bool,
    /// `docker-compose.yml` exists
    pub compose_yml: bool,
    /// `docker-compose.yaml` exists
    pub compose_yaml: bool,
    /// `.github/workflows/` holds a `.yml` file (see `has_yml_file`)
    pub workflows_yml: bool,
    /// `.circleci/config.yml` exists
    pub circleci_yml: bool,
    /// `Jenkinsfile` exists
    pub jenkinsfile: bool,
    /// `pnpm-workspace.yaml` exists
    pub pnpm_workspace_yaml: bool,
    /// `lerna.json` exists
    pub lerna_json: bool,
    /// `nx.json` exists
    pub nx_json: bool,
}

/// Some signal file has kind `k`.
pub open spec fn has_kind(files: Seq<SignalFile>, k: SignalKind) -> bool {
    exists|i: int| 0 <= i < files.len() && (#[trigger] files[i]).kind == k
}

fn has_kind_exec(files: &Vec<SignalFile>, k: SignalKind) -> (r: bool)
    ensures
        r == has_kind(files@, k),
{
    let n = files.len();
    let mut i: usize = 0;
    while i < n
        invariant
            n == files@.len(),
            i <= n,
            forall|j: int| 0 <= j < i ==> (#[trigger] files@[j]).kind != k,
        decreases n - i,
    {
        if files[i].kind == k {
            return true;
        }
        i = i + 1;
    }
    false
}

/// Docker is present: a Dockerfile or compose file at the root, a Docker signal file,
/// or the internal `__has_docker` marker.
pub open spec fn docker_of(facts: RootFacts, files: Seq<SignalFile>, skills: Seq<Skill>) -> bool {
    facts.dockerfile || facts.compose_yml || facts.compose_yaml || has_kind(files, SignalKind::Dockerfile)
        || has_kind(files, SignalKind::DockerCompose) || has_named(skill_views(skills), "__has_docker"@)
}

/// Whether Docker is present.
pub fn detect_docker(facts: &RootFacts, signal_files: &Vec<SignalFile>, skills: &Vec<Skill>) -> (r: bool)
    ensures
        r == docker_of(*facts, signal_files@, skills@),
{
    if facts.dockerfile || facts.compose_yml || facts.compose_yaml {
        return true;
    }
    if has_kind_exec(signal_files, SignalKind::Dockerfile) || has_kind_exec(signal_files, SignalKind::DockerCompose) {
        return true;
    }
    has_named_exec(skills, "__has_docker")
}

/// CI is present: a workflow signal file, a `.yml` file in `.github/workflows/`,
/// `.circleci/config.yml`, a Jenkinsfile, or the internal `__has_ci` marker.
pub open spec fn ci_of(facts: RootFacts, files: Seq<SignalFile>, skills: Seq<Skill>) -> bool {
    has_kind(files, SignalKind::GithubWorkflow) || facts.workflows_yml || facts.circleci_yml
        || facts.jenkinsfile || has_named(skill_views(skills), "__has_ci"@)
}

/// Whether CI is present.
pub fn detect_ci(facts: &RootFacts, signal_files: &Vec<SignalFile>, skills: &Vec<Skill>) -> (r: bool)
    ensures
        r == ci_of(*facts, signal_files@, skills@),
{
    if has_kind_exec(signal_files, SignalKind::GithubWorkflow) {
        return true;
    }
    if facts.workflows_yml {
        return true;
    }
    if facts.circleci_yml {
        return true;
    }
    if facts.jenkinsfile {
        return true;
    }
    has_named_exec(skills, "__has_ci")
}

/// `f` is a `package.json` somewhere below the folder `dir` of the root.
pub open spec fn package_json_under(f: SignalFile, dir: Seq<char>) -> bool {
    f.kind == SignalKind::PackageJson && has_prefix(f.path@, dir + seq!['/'])
}

/// Some signal file is a `package.json` below the folder `dir` of the root.
pub open spec fn has_package_json_under(files: Seq<SignalFile>, dir: Seq<char>) -> bool {
    exists|i: int| 0 <= i < files.len() && package_json_under(#[trigger] files[i], dir)
}

fn has_package_json_under_exec(files: &Vec<SignalFile>, dir: &str) -> (r: bool)
    ensures
        r == has_package_json_under(files@, dir@),
{
    let prefix = concat_str(dir, "/");
    proof {
        reveal_strlit("/");
        assert("/"@ =~= seq!['/']);
    }
    let n = files.len();
    let mut i: usize = 0;
    while i < n
        invariant
            n == files@.len(),
            i <= n,
            prefix@ == dir@ + seq!['/'],
            forall|j: int| 0 <= j < i ==> !package_json_under(#[trigger] files@[j], dir@),
        decreases n - i,
    {
        if files[i].kind == SignalKind::PackageJson && starts_with(files[i].path.as_str(), prefix.as_str()) {
            assert(package_json_under(files@[i as int], dir@));
            return true;
        }
        i = i + 1;
    }
    false
}

/// A monorepo: `pnpm-workspace.yaml`, `lerna.json` or `nx.json` at the root; or a
/// `packages`/`apps` folder holding a child `package.json`; or the internal
/// `__has_monorepo` marker.
pub open spec fn monorepo_of(facts: RootFacts, files: Seq<SignalFile>, folders: Seq<(Seq<char>, Seq<Seq<char>>)>, skills: Seq<Skill>) -> bool {
    ||| facts.pnpm_workspace_yaml || facts.lerna_json || facts.nx_json
    ||| has_key(folders, "packages"@) && has_package_json_under(files, "packages"@)
    ||| has_key(folders, "apps"@) && has_package_json_under(files, "apps"@)
    ||| has_named(skill_views(skills), "__has_monorepo"@)
}

/// Whether the repository is a monorepo.
pub fn detect_monorepo(facts: &RootFacts, signal_files: &Vec<SignalFile>, folder_map: &FolderMap, skills: &Vec<Skill>) -> (r: bool)
    ensures
        r == monorepo_of(*facts, signal_files@, folder_map@, skills@),
{
    if facts.pnpm_workspace_yaml || facts.lerna_json || facts.nx_json {
        return true;
    }
    if folder_map.contains_key("packages") && has_package_json_under_exec(signal_files, "packages") {
        return true;
    }
    if folder_map.contains_key("apps") && has_package_json_under_exec(signal_files, "apps") {
        return true;
    }
    has_named_exec(skills, "__has_monorepo")
}

/// Some name in `names` ends with `.yml`.
pub open spec fn any_yml(names: Seq<Seq<char>>) -> bool {
    exists|i: int| 0 <= i < names.len() && has_suffix(#[trigger] names[i], ".yml"@)
}

/// Whether one of the file names `names` (those in `.github/workflows/`) is a `.yml` file.
pub fn has_yml_file(names: &Vec<String>) -> (r: bool)
    ensures
        r == any_yml(views(names@)),
{
    let n = names.len();
    let mut i: usize = 0;
    while i < n
        invariant
            n == names@.len(),
            i <= n,
            forall|j: int| 0 <= j < i ==> !has_suffix(#[trigger] views(names@)[j], ".yml"@),
        decreases n - i,
    {
        if ends_with(names[i].as_str(), ".yml") {
            assert(has_suffix(views(names@)[i as int], ".yml"@));
            return true;
        }
        i = i + 1;
    }
    false
}

/// Folder names never listed as top-level folders.
pub open spec fn top_skip() -> Seq<Seq<char>> {
    seq![
        "node_modules"@,
        ".git"@,
        "dist"@,
        "build"@,
        "target"@,
        ".next"@,
        ".nuxt"@,
        "coverage"@,
        ".turbo"@,
        ".cache"@,
        "__pycache__"@,
        ".venv"@,
        "vendor"@,
        ".svelte-kit"@,
        ".github"@,
        ".cargo"@,
        ".angular"@,
    ]
}

/// A folder name that is listed as a top-level folder: not generated or tool noise,
/// and not hidden.
pub open spec fn listed_folder(name: Seq<char>) -> bool {
    !top_skip().contains(name) && !has_prefix(name, seq!['.'])
}

/// A folder is listed exactly when it is not hidden (no leading `.`) and is none of
/// `node_modules`, `dist`, `build`, `target`, `coverage`, `__pycache__`, `vendor`.
pub proof fn lemma_listed_folder(name: Seq<char>)
    ensures
        listed_folder(name) <==> (!has_prefix(name, seq!['.']) && !seq![
            "node_modules"@,
            "dist"@,
            "build"@,
            "target"@,
            "coverage"@,
            "__pycache__"@,
            "vendor"@,
        ].contains(name)),
{
    let plain = seq!["node_modules"@, "dist"@, "build"@, "target"@, "coverage"@, "__pycache__"@, "vendor"@];
    let t = top_skip();
    reveal_strlit(".git");
    reveal_strlit(".next");
    reveal_strlit(".nuxt");
    reveal_strlit(".turbo");
    reveal_strlit(".cache");
    reveal_strlit(".venv");
    reveal_strlit(".svelte-kit");
    reveal_strlit(".github");
    reveal_strlit(".cargo");
    reveal_strlit(".angular");
    if t.contains(name) {
        let k = choose|k: int| 0 <= k < t.len() && t[k] == name;
        if k == 0 { assert(plain[0] == name); }
        else if k == 2 { assert(plain[1] == name); }
        else if k == 3 { assert(plain[2] == name); }
        else if k == 4 { assert(plain[3] == name); }
        else if k == 7 { assert(plain[4] == name); }
        else if k == 10 { assert(plain[5] == name); }
        else if k == 12 { assert(plain[6] == name); }
        else {
            assert(name.len() > 0 && name[0] == '.');
            assert(name.subrange(0, 1) =~= seq!['.']);
            assert(has_prefix(name, seq!['.']));
        }
    }
    if plain.contains(name) {
        let k = choose|k: int| 0 <= k < plain.len() && plain[k] == name;
        if k == 0 { assert(t[0] == name); }
        else if k == 1 { assert(t[2] == name); }
        else if k == 2 { assert(t[3] == name); }
        else if k == 3 { assert(t[4] == name); }
        else if k == 4 { assert(t[7] == name); }
        else if k == 5 { assert(t[10] == name); }
        else { assert(t[12] == name); }
    }
}

proof fn lemma_keep_step(before: Seq<Seq<char>>, after: Seq<Seq<char>>, prefix: Seq<Seq<char>>, x: Seq<char>)
    requires
        forall|s: Seq<char>| #![trigger before.contains(s)] before.contains(s) <==> (prefix.contains(s) && listed_folder(s)),
        after == if listed_folder(x) { before.push(x) } else { before },
    ensures
        forall|s: Seq<char>| #![trigger after.contains(s)] after.contains(s) <==> (prefix.push(x).contains(s) && listed_folder(s)),
{
    let t = prefix.push(x);
    assert(t[prefix.len() as int] == x);
    if listed_folder(x) {
        assert(after[before.len() as int] == x);
    }
    assert forall|s: Seq<char>| #![trigger after.contains(s)] after.contains(s) <==> (t.contains(s) && listed_folder(s)) by {
        assert(before.contains(s) <==> (prefix.contains(s) && listed_folder(s)));
        if prefix.contains(s) {
            let q = choose|q: int| 0 <= q < prefix.len() && prefix[q] == s;
            assert(t[q] == s);
        }
        if t.contains(s) {
            let q = choose|q: int| 0 <= q < t.len() && t[q] == s;
            if q < prefix.len() {
                assert(prefix[q] == s);
            }
        }
        if s == x {
            assert(t[prefix.len() as int] == s);
            if listed_folder(x) {
                assert(after[before.len() as int] == s);
            }
        }
        if after.contains(s) {
            let q = choose|q: int| 0 <= q < after.len() && after[q] == s;
            if q < before.len() {
                assert(before[q] == s);
            }
        }
        if before.contains(s) {
            let q = choose|q: int| 0 <= q < before.len() && before[q] == s;
            assert(after[q] == s);
        }
    }
}

/// The meaningful folder names of `folder_map`, sorted.
pub fn collect_top_folders(folder_map: &FolderMap) -> (r: Vec<String>)
    ensures
        strictly_sorted(views(r@)),
        forall|s: Seq<char>| #![trigger views(r@).contains(s)] views(r@).contains(s) <==> (keys_of(folder_map@).contains(s) && listed_folder(s)),
{
    let skip = vec![
        "node_modules",
        ".git",
        "dist",
        "build",
        "target",
        ".next",
        ".nuxt",
        "coverage",
        ".turbo",
        ".cache",
        "__pycache__",
        ".venv",
        "vendor",
        ".svelte-kit",
        ".github",
        ".cargo",
        ".angular",
    ];
    assert(str_views(skip@) =~= top_skip());
    proof {
        reveal_strlit(".");
        assert("."@ =~= seq!['.']);
    }
    let keys = folder_map.keys();
    let mut kept: Vec<String> = Vec::new();
    let n = keys.len();
    let mut i: usize = 0;
    while i < n
        invariant
            n == keys@.len(),
            i <= n,
            views(keys@) == keys_of(folder_map@),
            str_views(skip@) == top_skip(),
            "."@ == seq!['.'],
            forall|s: Seq<char>| #![trigger views(kept@).contains(s)] views(kept@).contains(s) <==> (views(keys@).take(i as int).contains(s) && listed_folder(s)),
        decreases n - i,
    {
        let name = &keys[i];
        let ghost before = views(kept@);
        let mut skipped = false;
        let m = skip.len();
        let mut j: usize = 0;
        while j < m
            invariant
                m == skip@.len(),
                j <= m,
                str_views(skip@) == top_skip(),
                skipped == str_views(skip@).take(j as int).contains(name@),
            decreases m - j,
        {
            if str_eq(skip[j], name.as_str()) {
                skipped = true;
            }
            proof {
                let t = str_views(skip@).take(j + 1);
                assert(t =~= str_views(skip@).take(j as int).push(skip@[j as int]@));
                assert(t[j as int] == skip@[j as int]@);
                if str_views(skip@).take(j as int).contains(name@) {
                    let q = choose|q: int| 0 <= q < j && str_views(skip@).take(j as int)[q] == name@;
                    assert(t[q] == name@);
                }
                if t.contains(name@) {
                    let q = choose|q: int| 0 <= q < t.len() && t[q] == name@;
                    if q < j {
                        assert(str_views(skip@).take(j as int)[q] == name@);
                    }
                }
            }
            j = j + 1;
        }
        assert(str_views(skip@).take(m as int) =~= str_views(skip@));
        let keep = !skipped && !starts_with(name.as_str(), ".");
        assert(keep == listed_folder(name@));
        if keep {
            kept.push(name.clone());
            assert(views(kept@) =~= before.push(name@));
        } else {
            assert(views(kept@) =~= before);
        }
        proof {
            assert(views(keys@).take(i + 1) =~= views(keys@).take(i as int).push(keys@[i as int]@));
            lemma_keep_step(before, views(kept@), views(keys@).take(i as int), name@);
        }
        i = i + 1;
    }
    assert(views(keys@).take(n as int) =~= views(keys@));
    let r = sorted_unique(&kept);
    assert forall|s: Seq<char>| #![trigger views(r@).contains(s)] views(r@).contains(s) <==> (keys_of(folder_map@).contains(s) && listed_folder(s)) by {
        assert(views(r@).contains(s) <==> views(kept@).contains(s));
    }
    r
}

/// The depth of a path: its number of components (see `path_depth`).
pub fn path_depth_of(p: &str) -> (r: usize)
    ensures
        r == path_depth(p@),
{
    path_components(p).0
}

/// The name a project falls back to when no manifest names it: the name of the root
/// directory, or "unknown" when the root path ends in no normal component.
pub open spec fn fallback_name(root: Seq<char>) -> Seq<char> {
    match file_name(root) {
        Some(n) => n,
        None => "unknown"@,
    }
}

/// The fallback project name for the root path `root`.
pub fn root_fallback_name(root: &str) -> (r: String)
    ensures
        r@ == fallback_name(root@),
{
    match path_components(root).1 {
        Some(n) => n,
        None => owned("unknown"),
    }
}

/// A present, non-empty string.
pub open spec fn nonempty(o: Option<Seq<char>>) -> Option<Seq<char>> {
    match o {
        Some(s) => if s.len() > 0 { Some(s) } else { None },
        None => None,
    }
}

/// A present name that is neither empty nor the placeholder "unknown".
pub open spec fn real_name(o: Option<Seq<char>>) -> Option<Seq<char>> {
    match nonempty(o) {
        Some(s) => if s == "unknown"@ { None } else { Some(s) },
        None => None,
    }
}

/// The project name that a signal file gives: the `name` of a `package.json` or the
/// `package.name` of a `Cargo.toml`, when it is neither empty nor "unknown" (the
/// placeholder that a deeper manifest still replaces).
pub open spec fn manifest_name(f: SignalFile) -> Option<Seq<char>> {
    match f.kind {
        SignalKind::PackageJson => real_name(json_string_member(f.content@, "name"@)),
        SignalKind::CargoToml => real_name(toml_string_member(f.content@, "package"@, "name"@)),
        _ => None,
    }
}

/// The project description that a signal file gives, in the same way.
pub open spec fn manifest_description(f: SignalFile) -> Option<Seq<char>> {
    match f.kind {
        SignalKind::PackageJson => nonempty(json_string_member(f.content@, "description"@)),
        SignalKind::CargoToml => nonempty(toml_string_member(f.content@, "package"@, "description"@)),
        _ => None,
    }
}

/// The project names that the signal files give, each with the depth of its path.
pub open spec fn file_name_candidates(files: Seq<SignalFile>) -> Seq<(nat, Option<Seq<char>>)> {
    files.map_values(|f: SignalFile| (path_depth(f.path@), manifest_name(f)))
}

/// The project descriptions that the signal files give, each with the depth of its path.
pub open spec fn file_description_candidates(files: Seq<SignalFile>) -> Seq<(nat, Option<Seq<char>>)> {
    files.map_values(|f: SignalFile| (path_depth(f.path@), manifest_description(f)))
}

/// What one manifest says of the project, with the depth of its path.
pub struct ManifestFields {
    pub depth: usize,
    pub name: Option<String>,
    pub description: Option<String>,
}

/// The names of manifests, each with its depth.
pub open spec fn name_candidates(m: Seq<ManifestFields>) -> Seq<(nat, Option<Seq<char>>)> {
    m.map_values(|f: ManifestFields| (f.depth as nat, opt_view(f.name)))
}

/// The descriptions of manifests, each with its depth.
pub open spec fn description_candidates(m: Seq<ManifestFields>) -> Seq<(nat, Option<Seq<char>>)> {
    m.map_values(|f: ManifestFields| (f.depth as nat, opt_view(f.description)))
}

/// Index of the shallowest present candidate (the first of them on a tie), or -1.
pub open spec fn pick(c: Seq<(nat, Option<Seq<char>>)>) -> int
    decreases c.len(),
{
    if c.len() == 0 {
        -1
    } else {
        let b = pick(c.drop_last());
        if c.last().1 is Some && (b < 0 || c.last().0 < c[b].0) {
            c.len() - 1
        } else {
            b
        }
    }
}

/// The value of the shallowest present candidate, or `default`.
pub open spec fn picked_or(c: Seq<(nat, Option<Seq<char>>)>, default: Seq<char>) -> Seq<char> {
    if pick(c) >= 0 { c[pick(c)].1.unwrap() } else { default }
}

/// The value of the shallowest present candidate, if any.
pub open spec fn picked(c: Seq<(nat, Option<Seq<char>>)>) -> Option<Seq<char>> {
    if pick(c) >= 0 { c[pick(c)].1 } else { None }
}

/// The shallowest manifest wins, and among equally shallow ones the first: `pick`
/// chooses a present candidate of least depth, and no earlier candidate is as shallow.
pub proof fn lemma_pick(c: Seq<(nat, Option<Seq<char>>)>)
    ensures
        -1 <= pick(c) < c.len(),
        pick(c) < 0 <==> forall|j: int| 0 <= j < c.len() ==> (#[trigger] c[j]).1 is None,
        pick(c) >= 0 ==> c[pick(c)].1 is Some,
        pick(c) >= 0 ==> forall|j: int| 0 <= j < c.len() && (#[trigger] c[j]).1 is Some ==> c[pick(c)].0 <= c[j].0,
        pick(c) >= 0 ==> forall|j: int| 0 <= j < pick(c) && (#[trigger] c[j]).1 is Some ==> c[pick(c)].0 < c[j].0,
    decreases c.len(),
{
    if c.len() > 0 {
        let p = c.drop_last();
        lemma_pick(p);
        assert forall|j: int| 0 <= j < p.len() implies p[j] == c[j] by {}
    }
}

fn pick_exec(m: &Vec<ManifestFields>, use_name: bool) -> (r: Option<usize>)
    ensures
        match r {
            Some(i) => i < m@.len() && i as int == pick(if use_name { name_candidates(m@) } else { description_candidates(m@) }),
            None => pick(if use_name { name_candidates(m@) } else { description_candidates(m@) }) < 0,
        },
{
    let ghost c = if use_name { name_candidates(m@) } else { description_candidates(m@) };
    let n = m.len();
    let mut best: Option<usize> = None;
    let mut i: usize = 0;
    assert(c.take(0) =~= Seq::<(nat, Option<Seq<char>>)>::empty());
    while i < n
        invariant
            n == m@.len(),
            c == (if use_name { name_candidates(m@) } else { description_candidates(m@) }),
            i <= n,
            match best {
                Some(b) => b < i && b as int == pick(c.take(i as int)),
                None => pick(c.take(i as int)) < 0,
            },
        decreases n - i,
    {
        let ghost t = c.take(i + 1);
        assert(t.drop_last() =~= c.take(i as int));
        assert(t.last() == c[i as int]);
        let present = if use_name { m[i].name.is_some() } else { m[i].description.is_some() };
        assert(present == c[i as int].1 is Some);
        match best {
            Some(b) => {
                assert(t[b as int] == c[b as int]);
                if present && m[i].depth < m[b].depth {
                    best = Some(i);
                }
            },
            None => {
                if present {
                    best = Some(i);
                }
            },
        }
        i = i + 1;
    }
    assert(c.take(n as int) =~= c);
    best
}

/// Chooses the project name and description from what the manifests say: each from
/// the shallowest manifest that gives one (the first on a tie); the name defaults to
/// `default_name`.
pub fn project_meta_from(fields: &Vec<ManifestFields>, readme_excerpt: Option<String>, default_name: String) -> (r: ProjectMeta)
    ensures
        r.name@ == picked_or(name_candidates(fields@), default_name@),
        opt_view(r.description) == picked(description_candidates(fields@)),
        r.readme_excerpt == readme_excerpt,
{
    let name = match pick_exec(fields, true) {
        Some(i) => {
            assert(name_candidates(fields@)[i as int].1 == opt_view(fields@[i as int].name));
            match &fields[i].name {
                Some(n) => n.clone(),
                None => default_name,
            }
        },
        None => default_name,
    };
    proof { lemma_pick(name_candidates(fields@)); lemma_pick(description_candidates(fields@)); }
    let description = match pick_exec(fields, false) {
        Some(i) => {
            assert(description_candidates(fields@)[i as int].1 == opt_view(fields@[i as int].description));
            match &fields[i].description {
                Some(d) => Some(d.clone()),
                None => None,
            }
        },
        None => None,
    };
    ProjectMeta { name, description, readme_excerpt }
}

fn nonempty_of(o: Option<String>) -> (r: Option<String>)
    ensures
        opt_view(r) == nonempty(opt_view(o)),
{
    match o {
        Some(s) => if s.unicode_len() > 0 { Some(s) } else { None },
        None => None,
    }
}

fn real_name_of(o: Option<String>) -> (r: Option<String>)
    ensures
        opt_view(r) == real_name(opt_view(o)),
{
    match nonempty_of(o) {
        Some(s) => if str_eq(s.as_str(), "unknown") { None } else { Some(s) },
        None => None,
    }
}

/// What the manifest `f` says of the project.
pub fn manifest_fields(f: &SignalFile) -> (r: ManifestFields)
    ensures
        r.depth == path_depth(f.path@),
        opt_view(r.name) == manifest_name(*f),
        opt_view(r.description) == manifest_description(*f),
{
    let depth = path_depth_of(f.path.as_str());
    match f.kind {
        SignalKind::PackageJson => ManifestFields {
            depth,
            name: real_name_of(string_of_json(f.content.as_str(), "name")),
            description: nonempty_of(string_of_json(f.content.as_str(), "description")),
        },
        SignalKind::CargoToml => ManifestFields {
            depth,
            name: real_name_of(string_of_toml(f.content.as_str(), "package", "name")),
            description: nonempty_of(string_of_toml(f.content.as_str(), "package", "description")),
        },
        _ => ManifestFields { depth, name: None, description: None },
    }
}

/// Builds the project identity from the manifests among the signal files (the
/// shallowest wins, see `project_meta_from`) and the README excerpt; the name is
/// `default_name` when no manifest gives one.
pub fn build_project_meta_or(signal_files: &Vec<SignalFile>, readme_excerpt: Option<String>, default_name: String) -> (r: ProjectMeta)
    ensures
        r.name@ == picked_or(file_name_candidates(signal_files@), default_name@),
        opt_view(r.description) == picked(file_description_candidates(signal_files@)),
        r.readme_excerpt == readme_excerpt,
{
    let mut fields: Vec<ManifestFields> = Vec::new();
    let n = signal_files.len();
    let mut i: usize = 0;
    while i < n
        invariant
            n == signal_files@.len(),
            i <= n,
            fields@.len() == i,
            forall|j: int| 0 <= j < i ==> {
                &&& (#[trigger] fields@[j]).depth == path_depth(signal_files@[j].path@)
                &&& opt_view(fields@[j].name) == manifest_name(signal_files@[j])
                &&& opt_view(fields@[j].description) == manifest_description(signal_files@[j])
            },
        decreases n - i,
    {
        fields.push(manifest_fields(&signal_files[i]));
        i = i + 1;
    }
    assert(name_candidates(fields@) =~= file_name_candidates(signal_files@));
    assert(description_candidates(fields@) =~= file_description_candidates(signal_files@));
    project_meta_from(&fields, readme_excerpt, default_name)
}

/// Builds the project identity from the manifests among the signal files and the
/// README excerpt; the name is "unknown" when no manifest gives one.
pub fn build_project_meta(signal_files: &Vec<SignalFile>, readme_excerpt: Option<String>) -> (r: ProjectMeta)
    ensures
        r.name@ == picked_or(file_name_candidates(signal_files@), "unknown"@),
        opt_view(r.description) == picked(file_description_candidates(signal_files@)),
        r.readme_excerpt == readme_excerpt,
{
    build_project_meta_or(signal_files, readme_excerpt, owned("unknown"))
}

/// Builds the architecture facts.
pub fn build_arch_meta(
    facts: &RootFacts,
    signal_files: &Vec<SignalFile>,
    folder_map: &FolderMap,
    skills: &Vec<Skill>,
    arch_style: Option<ArchStyle>,
) -> (r: ArchMeta)
    ensures
        r.style == arch_style,
        r.has_git == facts.git_dir,
        r.has_docker == docker_of(*facts, signal_files@, skills@),
        r.has_ci == ci_of(*facts, signal_files@, skills@),
        r.has_monorepo == monorepo_of(*facts, signal_files@, folder_map@, skills@),
        strictly_sorted(views(r.folders@)),
        forall|s: Seq<char>| #![trigger views(r.folders@).contains(s)]
            views(r.folders@).contains(s) <==> (keys_of(folder_map@).contains(s) && listed_folder(s)),
{
    let has_git = facts.git_dir;
    let has_docker = detect_docker(facts, signal_files, skills);
    let has_ci = detect_ci(facts, signal_files, skills);
    let has_monorepo = detect_monorepo(facts, signal_files, folder_map, skills);
    let folders = collect_top_folders(folder_map);
    ArchMeta { style: arch_style, folders, has_monorepo, has_docker, has_ci, has_git }
}

/// Builds the project identity and the architecture facts together; with no manifest
/// name, the project is named after the root directory `root`.
pub fn enrich(
    root: &str,
    facts: &RootFacts,
    signal_files: &Vec<SignalFile>,
    folder_map: &FolderMap,
    readme_excerpt: Option<String>,
    skills: &Vec<Skill>,
    arch_style: Option<ArchStyle>,
) -> (r: (ProjectMeta, ArchMeta))
    ensures
        r.0.name@ == picked_or(file_name_candidates(signal_files@), fallback_name(root@)),
        opt_view(r.0.description) == picked(file_description_candidates(signal_files@)),
        r.0.readme_excerpt == readme_excerpt,
        r.1.style == arch_style,
        r.1.has_git == facts.git_dir,
        r.1.has_docker == docker_of(*facts, signal_files@, skills@),
        r.1.has_ci == ci_of(*facts, signal_files@, skills@),
        r.1.has_monorepo == monorepo_of(*facts, signal_files@, folder_map@, skills@),
        strictly_sorted(views(r.1.folders@)),
        forall|s: Seq<char>| #![trigger views(r.1.folders@).contains(s)]
            views(r.1.folders@).contains(s) <==> (keys_of(folder_map@).contains(s) && listed_folder(s)),
{
    let project = build_project_meta_or(signal_files, readme_excerpt, root_fallback_name(root));
    let arch = build_arch_meta(facts, signal_files, folder_map, skills, arch_style);
    (project, arch)
}


/// The architecture flags in terms of what was found:
/// - Docker: a `Dockerfile`, `docker-compose.yml` or `docker-compose.yaml` at the root,
///   a Dockerfile or compose signal file, or a skill named `__has_docker`;
/// - CI: a workflow signal file, a `.yml` file in `.github/workflows/`,
///   `.circleci/config.yml`, a `Jenkinsfile`, or a skill named `__has_ci`;
/// - monorepo: `pnpm-workspace.yaml`, `lerna.json` or `nx.json` at the root, a
///   `packages` folder with a `package.json` below `packages/`, an `apps` folder with a
///   `package.json` below `apps/`, or a skill named `__has_monorepo`.
pub proof fn lemma_arch_flags(facts: RootFacts, files: Seq<SignalFile>, folders: Seq<(Seq<char>, Seq<Seq<char>>)>, skills: Seq<Skill>)
    ensures
        docker_of(facts, files, skills) <==> (facts.dockerfile || facts.compose_yml || facts.compose_yaml
            || (exists|i: int| 0 <= i < files.len() && ((#[trigger] files[i]).kind == SignalKind::Dockerfile
                || files[i].kind == SignalKind::DockerCompose))
            || (exists|j: int| 0 <= j < skills.len() && (#[trigger] skills[j]).name@ == "__has_docker"@)),
        ci_of(facts, files, skills) <==> (facts.workflows_yml || facts.circleci_yml || facts.jenkinsfile
            || (exists|i: int| 0 <= i < files.len() && (#[trigger] files[i]).kind == SignalKind::GithubWorkflow)
            || (exists|j: int| 0 <= j < skills.len() && (#[trigger] skills[j]).name@ == "__has_ci"@)),
        monorepo_of(facts, files, folders, skills) <==> (facts.pnpm_workspace_yaml || facts.lerna_json || facts.nx_json
            || ((exists|k: int| 0 <= k < folders.len() && (#[trigger] folders[k]).0 == "packages"@)
                && (exists|i: int| 0 <= i < files.len() && (#[trigger] files[i]).kind == SignalKind::PackageJson
                    && has_prefix(files[i].path@, "packages/"@)))
            || ((exists|k: int| 0 <= k < folders.len() && (#[trigger] folders[k]).0 == "apps"@)
                && (exists|i: int| 0 <= i < files.len() && (#[trigger] files[i]).kind == SignalKind::PackageJson
                    && has_prefix(files[i].path@, "apps/"@)))
            || (exists|j: int| 0 <= j < skills.len() && (#[trigger] skills[j]).name@ == "__has_monorepo"@)),
{
    reveal_strlit("packages");
    reveal_strlit("packages/");
    reveal_strlit("apps");
    reveal_strlit("apps/");
    assert("packages"@ + seq!['/'] =~= "packages/"@);
    assert("apps"@ + seq!['/'] =~= "apps/"@);
    let sv = skill_views(skills);
    assert forall|n: Seq<char>| has_named(sv, n) <==> (exists|j: int| 0 <= j < skills.len() && (#[trigger] skills[j]).name@ == n) by {
        if has_named(sv, n) {
            let j = choose|j: int| 0 <= j < sv.len() && (#[trigger] sv[j]).name == n;
            assert(skills[j].name@ == n);
        }
        if exists|j: int| 0 <= j < skills.len() && (#[trigger] skills[j]).name@ == n {
            let j = choose|j: int| 0 <= j < skills.len() && (#[trigger] skills[j]).name@ == n;
            assert(sv[j].name == n);
        }
    }
    if has_kind(files, SignalKind::Dockerfile) || has_kind(files, SignalKind::DockerCompose) {
        assert(exists|i: int| 0 <= i < files.len() && ((#[trigger] files[i]).kind == SignalKind::Dockerfile
            || files[i].kind == SignalKind::DockerCompose));
    }
    if exists|i: int| 0 <= i < files.len() && ((#[trigger] files[i]).kind == SignalKind::Dockerfile
        || files[i].kind == SignalKind::DockerCompose) {
        let i = choose|i: int| 0 <= i < files.len() && ((#[trigger] files[i]).kind == SignalKind::Dockerfile
            || files[i].kind == SignalKind::DockerCompose);
        assert(has_kind(files, files[i].kind));
    }
}

} // verus!
