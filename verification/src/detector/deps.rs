//! Layer 1: skills revealed by dependency manifests.

use vstd::prelude::*;
use crate::detector::rules::{MatchMode, Rule, RuleView, rv, rule, rule_views, rule_matches, apply_rules};
use crate::manifest::{json_object_keys, object_keys_of_json};
use crate::order::views;
use crate::text::{str_eq, owned};
use crate::types::{Skill, SkillSource, SkillView, SourceView, SignalFile, skill_views};

verus! {

/// Rules applied to each dependency name of `package.json` (a dependency matches a rule
/// when its name starts with the rule's pattern).
pub open spec fn package_rules() -> Seq<RuleView> {
    seq![
        rv("next", "Next.js", 95, MatchMode::Prefix),
        rv("react", "React", 99, MatchMode::Prefix),
        rv("vue", "Vue.js", 90, MatchMode::Prefix),
        rv("@angular/core", "Angular", 95, MatchMode::Prefix),
        rv("svelte", "Svelte", 90, MatchMode::Prefix),
        rv("express", "Node.js API Server (Express)", 90, MatchMode::Prefix),
        rv("fastify", "Node.js API Server (Fastify)", 90, MatchMode::Prefix),
        rv("hono", "Node.js API Server (Hono)", 90, MatchMode::Prefix),
        rv("koa", "Node.js API Server (Koa)", 90, MatchMode::Prefix),
        rv("@nestjs/core", "NestJS", 95, MatchMode::Prefix),
        rv("nuxt", "Nuxt.js", 95, MatchMode::Prefix),
        rv("remix", "Remix", 95, MatchMode::Prefix),
        rv("astro", "Astro", 90, MatchMode::Prefix),
        rv("gatsby", "Gatsby", 95, MatchMode::Prefix),
        rv("vite", "Vite", 90, MatchMode::Prefix),
        rv("webpack", "Webpack", 85, MatchMode::Prefix),
        rv("turbo", "Turborepo", 85, MatchMode::Prefix),
        rv("nx", "Nx", 85, MatchMode::Prefix),
        rv("vitest", "Testing (Vitest)", 85, MatchMode::Prefix),
        rv("jest", "Testing (Jest)", 85, MatchMode::Prefix),
        rv("@playwright/test", "E2E Testing (Playwright)", 90, MatchMode::Prefix),
        rv("cypress", "E2E Testing (Cypress)", 90, MatchMode::Prefix),
        rv("eslint", "ESLint", 80, MatchMode::Prefix),
        rv("prettier", "Prettier", 80, MatchMode::Prefix),
        rv("@biomejs/biome", "Biome", 85, MatchMode::Prefix),
        rv("prisma", "Database ORM (Prisma)", 90, MatchMode::Prefix),
        rv("drizzle-orm", "Database ORM (Drizzle)", 90, MatchMode::Prefix),
        rv("typeorm", "Database ORM (TypeORM)", 90, MatchMode::Prefix),
        rv("mongoose", "MongoDB (Mongoose)", 90, MatchMode::Prefix),
        rv("tailwindcss", "Tailwind CSS", 90, MatchMode::Prefix),
        rv("styled-components", "Styled Components", 90, MatchMode::Prefix),
        rv("zustand", "State Management (Zustand)", 90, MatchMode::Prefix),
        rv("jotai", "State Management (Jotai)", 90, MatchMode::Prefix),
        rv("@reduxjs/toolkit", "State Management (Redux Toolkit)", 90, MatchMode::Prefix),
        rv("@tanstack/react-query", "State Management (TanStack Query)", 90, MatchMode::Prefix),
        rv("trpc", "tRPC", 90, MatchMode::Prefix),
        rv("graphql", "GraphQL", 85, MatchMode::Prefix),
    ]
}

fn package_rule_table() -> (r: Vec<Rule>)
    ensures
        rule_views(r@) == package_rules(),
{
    let r = vec![
        rule("next", "Next.js", 95, MatchMode::Prefix),
        rule("react", "React", 99, MatchMode::Prefix),
        rule("vue", "Vue.js", 90, MatchMode::Prefix),
        rule("@angular/core", "Angular", 95, MatchMode::Prefix),
        rule("svelte", "Svelte", 90, MatchMode::Prefix),
        rule("express", "Node.js API Server (Express)", 90, MatchMode::Prefix),
        rule("fastify", "Node.js API Server (Fastify)", 90, MatchMode::Prefix),
        rule("hono", "Node.js API Server (Hono)", 90, MatchMode::Prefix),
        rule("koa", "Node.js API Server (Koa)", 90, MatchMode::Prefix),
        rule("@nestjs/core", "NestJS", 95, MatchMode::Prefix),
        rule("nuxt", "Nuxt.js", 95, MatchMode::Prefix),
        rule("remix", "Remix", 95, MatchMode::Prefix),
        rule("astro", "Astro", 90, MatchMode::Prefix),
        rule("gatsby", "Gatsby", 95, MatchMode::Prefix),
        rule("vite", "Vite", 90, MatchMode::Prefix),
        rule("webpack", "Webpack", 85, MatchMode::Prefix),
        rule("turbo", "Turborepo", 85, MatchMode::Prefix),
        rule("nx", "Nx", 85, MatchMode::Prefix),
        rule("vitest", "Testing (Vitest)", 85, MatchMode::Prefix),
        rule("jest", "Testing (Jest)", 85, MatchMode::Prefix),
        rule("@playwright/test", "E2E Testing (Playwright)", 90, MatchMode::Prefix),
        rule("cypress", "E2E Testing (Cypress)", 90, MatchMode::Prefix),
        rule("eslint", "ESLint", 80, MatchMode::Prefix),
        rule("prettier", "Prettier", 80, MatchMode::Prefix),
        rule("@biomejs/biome", "Biome", 85, MatchMode::Prefix),
        rule("prisma", "Database ORM (Prisma)", 90, MatchMode::Prefix),
        rule("drizzle-orm", "Database ORM (Drizzle)", 90, MatchMode::Prefix),
        rule("typeorm", "Database ORM (TypeORM)", 90, MatchMode::Prefix),
        rule("mongoose", "MongoDB (Mongoose)", 90, MatchMode::Prefix),
        rule("tailwindcss", "Tailwind CSS", 90, MatchMode::Prefix),
        rule("styled-components", "Styled Components", 90, MatchMode::Prefix),
        rule("zustand", "State Management (Zustand)", 90, MatchMode::Prefix),
        rule("jotai", "State Management (Jotai)", 90, MatchMode::Prefix),
        rule("@reduxjs/toolkit", "State Management (Redux Toolkit)", 90, MatchMode::Prefix),
        rule("@tanstack/react-query", "State Management (TanStack Query)", 90, MatchMode::Prefix),
        rule("trpc", "tRPC", 90, MatchMode::Prefix),
        rule("graphql", "GraphQL", 85, MatchMode::Prefix),
    ];
    assert(rule_views(r@) =~= package_rules());
    r
}

/// Rules applied to the text of `Cargo.toml` (a rule matches when its pattern occurs
/// anywhere in the text).
pub open spec fn cargo_rules() -> Seq<RuleView> {
    seq![
        rv("axum", "Rust Web Server (Axum)", 95, MatchMode::Contains),
        rv("actix-web", "Rust Web Server (Actix)", 95, MatchMode::Contains),
        rv("warp", "Rust Web Server (Warp)", 90, MatchMode::Contains),
        rv("rocket", "Rust Web Server (Rocket)", 90, MatchMode::Contains),
        rv("tokio", "Tokio", 90, MatchMode::Contains),
        rv("serde", "Serde", 80, MatchMode::Contains),
        rv("sqlx", "Rust Database (SQLx)", 90, MatchMode::Contains),
        rv("diesel", "Rust Database (Diesel)", 90, MatchMode::Contains),
    ]
}

fn cargo_rule_table() -> (r: Vec<Rule>)
    ensures
        rule_views(r@) == cargo_rules(),
{
    let r = vec![
        rule("axum", "Rust Web Server (Axum)", 95, MatchMode::Contains),
        rule("actix-web", "Rust Web Server (Actix)", 95, MatchMode::Contains),
        rule("warp", "Rust Web Server (Warp)", 90, MatchMode::Contains),
        rule("rocket", "Rust Web Server (Rocket)", 90, MatchMode::Contains),
        rule("tokio", "Tokio", 90, MatchMode::Contains),
        rule("serde", "Serde", 80, MatchMode::Contains),
        rule("sqlx", "Rust Database (SQLx)", 90, MatchMode::Contains),
        rule("diesel", "Rust Database (Diesel)", 90, MatchMode::Contains),
    ];
    assert(rule_views(r@) =~= cargo_rules());
    r
}

/// The skill that a present `package.json` always reveals.
pub open spec fn node_skill() -> SkillView {
    SkillView { name: "Node.js"@, confidence: 90, source: SourceView::PackageJson }
}

/// The skill that a `typescript` dependency reveals.
pub open spec fn typescript_skill() -> SkillView {
    SkillView { name: "TypeScript"@, confidence: 95, source: SourceView::PackageJson }
}

/// Skills revealed by each dependency name in turn.
pub open spec fn deps_skills(deps: Seq<Seq<char>>) -> Seq<SkillView>
    decreases deps.len(),
{
    if deps.len() == 0 {
        Seq::empty()
    } else {
        deps_skills(deps.drop_last()) + rule_matches(package_rules(), deps.last(), SourceView::PackageJson)
    }
}

/// Skills revealed by a `package.json` whose dependency names are `deps`.
pub open spec fn package_json_skills(deps: Seq<Seq<char>>) -> Seq<SkillView> {
    seq![node_skill()] + (if deps.contains("typescript"@) {
        seq![typescript_skill()]
    } else {
        Seq::empty()
    }) + deps_skills(deps)
}

/// The member names of an optional object (none when absent).
pub open spec fn keys_or_empty(k: Option<Seq<Seq<char>>>) -> Seq<Seq<char>> {
    match k {
        Some(v) => v,
        None => Seq::empty(),
    }
}

/// Dependency names of a `package.json` text: those of `dependencies`, then
/// `devDependencies`, then `peerDependencies`.
pub open spec fn package_deps(content: Seq<char>) -> Seq<Seq<char>> {
    keys_or_empty(json_object_keys(content, "dependencies"@)) + keys_or_empty(
        json_object_keys(content, "devDependencies"@),
    ) + keys_or_empty(json_object_keys(content, "peerDependencies"@))
}

/// Skills revealed by the text of a `Cargo.toml`.
pub open spec fn cargo_skills(content: Seq<char>) -> Seq<SkillView> {
    seq![SkillView { name: "Rust"@, confidence: 99, source: SourceView::CargoToml }]
        + rule_matches(cargo_rules(), content, SourceView::CargoToml)
}

/// Skills revealed by a `package.json` with dependency names `deps`.
pub fn skills_from_dependencies(deps: &Vec<String>) -> (r: Vec<Skill>)
    ensures
        skill_views(r@) == package_json_skills(views(deps@)),
{
    let mut skills: Vec<Skill> = Vec::new();
    skills.push(Skill { name: owned("Node.js"), confidence: 90, source: SkillSource::PackageJson });
    let n = deps.len();
    let mut has_ts = false;
    let mut i: usize = 0;
    while i < n
        invariant
            n == deps@.len(),
            i <= n,
            has_ts == views(deps@).take(i as int).contains("typescript"@),
        decreases n - i,
    {
        if str_eq(deps[i].as_str(), "typescript") {
            has_ts = true;
        }
        proof {
            let t = views(deps@).take(i + 1);
            assert(t =~= views(deps@).take(i as int).push(deps@[i as int]@));
            assert(t[i as int] == deps@[i as int]@);
            if views(deps@).take(i as int).contains("typescript"@) {
                let k = choose|k: int| 0 <= k < i && views(deps@).take(i as int)[k] == "typescript"@;
                assert(t[k] == "typescript"@);
            }
            if t.contains("typescript"@) {
                let k = choose|k: int| 0 <= k < t.len() && t[k] == "typescript"@;
                if k < i {
                    assert(views(deps@).take(i as int)[k] == "typescript"@);
                }
            }
        }
        i = i + 1;
    }
    assert(views(deps@).take(n as int) =~= views(deps@));
    if has_ts {
        skills.push(Skill { name: owned("TypeScript"), confidence: 95, source: SkillSource::PackageJson });
    }
    let ghost head = skill_views(skills@);
    assert(head =~= seq![node_skill()] + (if views(deps@).contains("typescript"@) {
        seq![typescript_skill()]
    } else {
        Seq::empty()
    }));
    let table = package_rule_table();
    let mut i: usize = 0;
    assert(views(deps@).take(0) =~= Seq::<Seq<char>>::empty());
    assert(skill_views(skills@) =~= head + deps_skills(views(deps@).take(0)));
    while i < n
        invariant
            n == deps@.len(),
            i <= n,
            rule_views(table@) == package_rules(),
            skill_views(skills@) == head + deps_skills(views(deps@).take(i as int)),
        decreases n - i,
    {
        apply_rules(&table, deps[i].as_str(), &SkillSource::PackageJson, &mut skills);
        assert(views(deps@).take(i + 1).drop_last() =~= views(deps@).take(i as int));
        assert(views(deps@).take(i + 1).last() == deps@[i as int]@);
        i = i + 1;
    }
    assert(views(deps@).take(n as int) =~= views(deps@));
    skills
}

/// Skills revealed by the text of a `package.json`.
pub fn detect_from_package_json(content: &str) -> (r: Vec<Skill>)
    ensures
        skill_views(r@) == package_json_skills(package_deps(content@)),
{
    let mut deps: Vec<String> = Vec::new();
    let fields = ["dependencies", "devDependencies", "peerDependencies"];
    let mut f: usize = 0;
    while f < 3
        invariant
            f <= 3,
            fields@ == seq!["dependencies", "devDependencies", "peerDependencies"],
            views(deps@) == (if f == 0 { Seq::empty() } else if f == 1 {
                keys_or_empty(json_object_keys(content@, "dependencies"@))
            } else if f == 2 {
                keys_or_empty(json_object_keys(content@, "dependencies"@)) + keys_or_empty(
                    json_object_keys(content@, "devDependencies"@),
                )
            } else {
                package_deps(content@)
            }),
        decreases 3 - f,
    {
        let ghost before = views(deps@);
        match object_keys_of_json(content, fields[f]) {
            Some(keys) => {
                let mut j: usize = 0;
                while j < keys.len()
                    invariant
                        j <= keys@.len(),
                        views(deps@) == before + views(keys@).take(j as int),
                    decreases keys.len() - j,
                {
                    let ghost prev = deps@;
                    deps.push(keys[j].clone());
                    assert(views(deps@) =~= views(prev).push(keys@[j as int]@));
                    assert(views(keys@).take(j + 1) =~= views(keys@).take(j as int).push(keys@[j as int]@));
                    assert(views(deps@) =~= before + views(keys@).take(j + 1));
                    j = j + 1;
                }
                assert(views(keys@).take(keys@.len() as int) =~= views(keys@));
            },
            None => {
                assert(views(deps@) =~= before + Seq::<Seq<char>>::empty());
            },
        }
        f = f + 1;
    }
    skills_from_dependencies(&deps)
}

/// Skills revealed by the text of a `Cargo.toml`.
pub fn detect_from_cargo_toml(content: &str) -> (r: Vec<Skill>)
    ensures
        skill_views(r@) == cargo_skills(content@),
{
    let mut skills: Vec<Skill> = Vec::new();
    skills.push(Skill { name: owned("Rust"), confidence: 99, source: SkillSource::CargoToml });
    let table = cargo_rule_table();
    apply_rules(&table, content, &SkillSource::CargoToml, &mut skills);
    skills
}

/// The contents of the first signal file at `path`, if any.
pub open spec fn first_content(files: Seq<SignalFile>, path: Seq<char>) -> Option<Seq<char>>
    decreases files.len(),
{
    if files.len() == 0 {
        None
    } else if files[0].path@ == path {
        Some(files[0].content@)
    } else {
        first_content(files.drop_first(), path)
    }
}

proof fn lemma_first_content(files: Seq<SignalFile>, path: Seq<char>, i: int)
    requires
        0 <= i <= files.len(),
        forall|j: int| 0 <= j < i ==> files[j].path@ != path,
        i < files.len() ==> files[i].path@ == path,
    ensures
        first_content(files, path) == if i < files.len() {
            Some(files[i].content@)
        } else {
            None::<Seq<char>>
        },
    decreases files.len(),
{
    if files.len() > 0 && i > 0 {
        let t = files.drop_first();
        assert forall|j: int| 0 <= j < i - 1 implies t[j].path@ != path by {
            assert(t[j] == files[j + 1]);
        }
        lemma_first_content(t, path, i - 1);
    }
}

/// Index of the first signal file at `path`, if any.
pub fn find_signal(files: &Vec<SignalFile>, path: &str) -> (r: Option<usize>)
    ensures
        first_content(files@, path@) == match r {
            Some(i) => Some(files@[i as int].content@),
            None => None::<Seq<char>>,
        },
        r matches Some(i) ==> i < files@.len(),
{
    let n = files.len();
    let mut i: usize = 0;
    while i < n
        invariant
            n == files@.len(),
            i <= n,
            forall|j: int| 0 <= j < i ==> files@[j].path@ != path@,
        decreases n - i,
    {
        if str_eq(files[i].path.as_str(), path) {
            proof { lemma_first_content(files@, path@, i as int); }
            return Some(i);
        }
        i = i + 1;
    }
    proof { lemma_first_content(files@, path@, n as int); }
    None
}

/// Skills revealed by the dependency manifests among the signal files: the root
/// `package.json`, the root `Cargo.toml`, `go.mod`, and the Python manifests.
pub open spec fn deps_layer(files: Seq<SignalFile>) -> Seq<SkillView> {
    (match first_content(files, "package.json"@) {
        Some(c) => package_json_skills(package_deps(c)),
        None => Seq::empty(),
    }) + (match first_content(files, "Cargo.toml"@) {
        Some(c) => cargo_skills(c),
        None => Seq::empty(),
    }) + (if first_content(files, "go.mod"@) is Some {
        seq![SkillView { name: "Go"@, confidence: 95, source: SourceView::FilePattern("go.mod"@) }]
    } else {
        Seq::empty()
    }) + (if first_content(files, "requirements.txt"@) is Some || first_content(
        files,
        "pyproject.toml"@,
    ) is Some || first_content(files, "Pipfile"@) is Some {
        seq![
            SkillView {
                name: "Python"@,
                confidence: 95,
                source: SourceView::FilePattern("requirements.txt/pyproject.toml"@),
            },
        ]
    } else {
        Seq::empty()
    })
}

/// Layer 1: skills revealed by dependency files.
pub fn detect_from_deps(signal_files: &Vec<SignalFile>) -> (r: Vec<Skill>)
    ensures
        skill_views(r@) == deps_layer(signal_files@),
{
    let mut skills: Vec<Skill> = Vec::new();
    if let Some(i) = find_signal(signal_files, "package.json") {
        let mut s = detect_from_package_json(signal_files[i].content.as_str());
        skills.append(&mut s);
    }
    let ghost a = skill_views(skills@);
    if let Some(i) = find_signal(signal_files, "Cargo.toml") {
        let mut s = detect_from_cargo_toml(signal_files[i].content.as_str());
        skills.append(&mut s);
    }
    let ghost b = skill_views(skills@);
    if find_signal(signal_files, "go.mod").is_some() {
        skills.push(Skill {
            name: owned("Go"),
            confidence: 95,
            source: SkillSource::FilePattern(owned("go.mod")),
        });
    }
    let ghost c = skill_views(skills@);
    if find_signal(signal_files, "requirements.txt").is_some() || find_signal(
        signal_files,
        "pyproject.toml",
    ).is_some() || find_signal(signal_files, "Pipfile").is_some() {
        skills.push(Skill {
            name: owned("Python"),
            confidence: 95,
            source: SkillSource::FilePattern(owned("requirements.txt/pyproject.toml")),
        });
    }
    assert(skill_views(skills@) =~= deps_layer(signal_files@));
    skills
}


proof fn lemma_first_content_found(files: Seq<SignalFile>, path: Seq<char>)
    requires
        exists|i: int| 0 <= i < files.len() && (#[trigger] files[i]).path@ == path,
    ensures
        first_content(files, path) is Some,
    decreases files.len(),
{
    if files[0].path@ != path {
        let i = choose|i: int| 0 <= i < files.len() && (#[trigger] files[i]).path@ == path;
        let t = files.drop_first();
        assert(t[i - 1] == files[i]);
        lemma_first_content_found(t, path);
    }
}

/// A root manifest always shows up in layer 1 with its language or runtime: a
/// `package.json` gives Node.js at 90, a `Cargo.toml` gives Rust at 99, a `go.mod`
/// gives Go at 95, and any of `requirements.txt`, `pyproject.toml`, `Pipfile` gives
/// Python at 95.
pub proof fn lemma_deps_layer_manifests(files: Seq<SignalFile>)
    ensures
        (exists|i: int| 0 <= i < files.len() && (#[trigger] files[i]).path@ == "package.json"@) ==> exists|k: int|
            0 <= k < deps_layer(files).len() && (#[trigger] deps_layer(files)[k]).name == "Node.js"@
                && deps_layer(files)[k].confidence == 90,
        (exists|i: int| 0 <= i < files.len() && (#[trigger] files[i]).path@ == "Cargo.toml"@) ==> exists|k: int|
            0 <= k < deps_layer(files).len() && (#[trigger] deps_layer(files)[k]).name == "Rust"@
                && deps_layer(files)[k].confidence == 99,
        (exists|i: int| 0 <= i < files.len() && (#[trigger] files[i]).path@ == "go.mod"@) ==> exists|k: int|
            0 <= k < deps_layer(files).len() && (#[trigger] deps_layer(files)[k]).name == "Go"@
                && deps_layer(files)[k].confidence == 95,
        (exists|i: int| 0 <= i < files.len() && ((#[trigger] files[i]).path@ == "requirements.txt"@
            || files[i].path@ == "pyproject.toml"@ || files[i].path@ == "Pipfile"@)) ==> exists|k: int|
            0 <= k < deps_layer(files).len() && (#[trigger] deps_layer(files)[k]).name == "Python"@
                && deps_layer(files)[k].confidence == 95,
{
    let a = match first_content(files, "package.json"@) {
        Some(c) => package_json_skills(package_deps(c)),
        None => Seq::empty(),
    };
    let b = match first_content(files, "Cargo.toml"@) {
        Some(c) => cargo_skills(c),
        None => Seq::empty(),
    };
    let c = if first_content(files, "go.mod"@) is Some {
        seq![SkillView { name: "Go"@, confidence: 95, source: SourceView::FilePattern("go.mod"@) }]
    } else {
        Seq::empty()
    };
    let d = deps_layer(files);
    assert(d.subrange(0, a.len() as int) =~= a);
    assert(d.subrange(a.len() as int, (a.len() + b.len()) as int) =~= b);
    if exists|i: int| 0 <= i < files.len() && (#[trigger] files[i]).path@ == "package.json"@ {
        lemma_first_content_found(files, "package.json"@);
        assert(d[0] == a[0]);
    }
    if exists|i: int| 0 <= i < files.len() && (#[trigger] files[i]).path@ == "Cargo.toml"@ {
        lemma_first_content_found(files, "Cargo.toml"@);
        assert(d[a.len() as int] == b[0]);
    }
    if exists|i: int| 0 <= i < files.len() && (#[trigger] files[i]).path@ == "go.mod"@ {
        lemma_first_content_found(files, "go.mod"@);
        assert(d[(a.len() + b.len()) as int] == c[0]);
    }
    if exists|i: int| 0 <= i < files.len() && ((#[trigger] files[i]).path@ == "requirements.txt"@
        || files[i].path@ == "pyproject.toml"@ || files[i].path@ == "Pipfile"@) {
        let i = choose|i: int| 0 <= i < files.len() && ((#[trigger] files[i]).path@ == "requirements.txt"@
            || files[i].path@ == "pyproject.toml"@ || files[i].path@ == "Pipfile"@);
        if files[i].path@ == "requirements.txt"@ {
            lemma_first_content_found(files, "requirements.txt"@);
        } else if files[i].path@ == "pyproject.toml"@ {
            lemma_first_content_found(files, "pyproject.toml"@);
        } else {
            lemma_first_content_found(files, "Pipfile"@);
        }
        assert(d[(a.len() + b.len() + c.len()) as int].name == "Python"@);
    }
}

} // verus!
