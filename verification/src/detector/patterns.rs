//! Layer 3: skills revealed by file names and file-pattern tokens.

use vstd::prelude::*;
use crate::detector::rules::{MatchMode, Rule, RuleView, rv, rule, rule_views, rule_matches, apply_rules};
use crate::order::views;
use crate::types::{Skill, SkillSource, SkillView, SourceView, skill_views};

verus! {

/// Rules applied to each file name and pattern token (exact or substring match, per rule).
pub open spec fn pattern_rules() -> Seq<RuleView> {
    seq![
        rv("Dockerfile", "Docker", 95, MatchMode::Exact),
        rv("docker-compose.yml", "Docker Compose", 95, MatchMode::Exact),
        rv("docker-compose.yaml", "Docker Compose", 95, MatchMode::Exact),
        rv(".eslintrc", "ESLint", 90, MatchMode::Contains),
        rv(".prettier", "Prettier", 90, MatchMode::Contains),
        rv("biome.json", "Biome", 95, MatchMode::Exact),
        rv("tsconfig.json", "TypeScript", 90, MatchMode::Exact),
        rv("jest.config", "Testing (Jest)", 90, MatchMode::Contains),
        rv("vitest.config", "Testing (Vitest)", 90, MatchMode::Contains),
        rv("vite.config", "Vite", 90, MatchMode::Contains),
        rv("next.config", "Next.js", 95, MatchMode::Contains),
        rv("nuxt.config", "Nuxt.js", 95, MatchMode::Contains),
        rv("svelte.config", "Svelte", 95, MatchMode::Contains),
        rv("astro.config", "Astro", 95, MatchMode::Contains),
        rv("tailwind.config", "Tailwind CSS", 90, MatchMode::Contains),
        rv("schema.prisma", "Database ORM (Prisma)", 90, MatchMode::Exact),
        rv("turbo.json", "Turborepo", 95, MatchMode::Exact),
        rv("nx.json", "Nx", 95, MatchMode::Exact),
        rv(".terraform", "Terraform", 90, MatchMode::Contains),
        rv("Makefile", "Make", 80, MatchMode::Exact),
        rv("Justfile", "Just", 85, MatchMode::Exact),
        rv(".ts", "TypeScript", 80, MatchMode::Exact),
        rv(".tsx", "TypeScript", 80, MatchMode::Exact),
        rv("*.test.", "Testing", 80, MatchMode::Contains),
        rv("*.spec.", "Testing", 80, MatchMode::Contains),
        rv(".module.css", "CSS Modules", 85, MatchMode::Contains),
        rv(".js", "JavaScript", 80, MatchMode::Exact),
        rv(".jsx", "JavaScript", 80, MatchMode::Exact),
        rv("bun.lockb", "Bun", 90, MatchMode::Exact),
        rv("bunfig.toml", "Bun", 90, MatchMode::Exact),
        rv("deno.json", "Deno", 95, MatchMode::Exact),
        rv("deno.jsonc", "Deno", 95, MatchMode::Exact),
    ]
}

fn pattern_rule_table() -> (r: Vec<Rule>)
    ensures
        rule_views(r@) == pattern_rules(),
{
    let r = vec![
        rule("Dockerfile", "Docker", 95, MatchMode::Exact),
        rule("docker-compose.yml", "Docker Compose", 95, MatchMode::Exact),
        rule("docker-compose.yaml", "Docker Compose", 95, MatchMode::Exact),
        rule(".eslintrc", "ESLint", 90, MatchMode::Contains),
        rule(".prettier", "Prettier", 90, MatchMode::Contains),
        rule("biome.json", "Biome", 95, MatchMode::Exact),
        rule("tsconfig.json", "TypeScript", 90, MatchMode::Exact),
        rule("jest.config", "Testing (Jest)", 90, MatchMode::Contains),
        rule("vitest.config", "Testing (Vitest)", 90, MatchMode::Contains),
        rule("vite.config", "Vite", 90, MatchMode::Contains),
        rule("next.config", "Next.js", 95, MatchMode::Contains),
        rule("nuxt.config", "Nuxt.js", 95, MatchMode::Contains),
        rule("svelte.config", "Svelte", 95, MatchMode::Contains),
        rule("astro.config", "Astro", 95, MatchMode::Contains),
        rule("tailwind.config", "Tailwind CSS", 90, MatchMode::Contains),
        rule("schema.prisma", "Database ORM (Prisma)", 90, MatchMode::Exact),
        rule("turbo.json", "Turborepo", 95, MatchMode::Exact),
        rule("nx.json", "Nx", 95, MatchMode::Exact),
        rule(".terraform", "Terraform", 90, MatchMode::Contains),
        rule("Makefile", "Make", 80, MatchMode::Exact),
        rule("Justfile", "Just", 85, MatchMode::Exact),
        rule(".ts", "TypeScript", 80, MatchMode::Exact),
        rule(".tsx", "TypeScript", 80, MatchMode::Exact),
        rule("*.test.", "Testing", 80, MatchMode::Contains),
        rule("*.spec.", "Testing", 80, MatchMode::Contains),
        rule(".module.css", "CSS Modules", 85, MatchMode::Contains),
        rule(".js", "JavaScript", 80, MatchMode::Exact),
        rule(".jsx", "JavaScript", 80, MatchMode::Exact),
        rule("bun.lockb", "Bun", 90, MatchMode::Exact),
        rule("bunfig.toml", "Bun", 90, MatchMode::Exact),
        rule("deno.json", "Deno", 95, MatchMode::Exact),
        rule("deno.jsonc", "Deno", 95, MatchMode::Exact),
    ];
    assert(rule_views(r@) =~= pattern_rules());
    r
}

/// Skills revealed by each file name or pattern token in turn.
pub open spec fn patterns_layer(tokens: Seq<Seq<char>>) -> Seq<SkillView>
    decreases tokens.len(),
{
    if tokens.len() == 0 {
        Seq::empty()
    } else {
        patterns_layer(tokens.drop_last()) + rule_matches(
            pattern_rules(),
            tokens.last(),
            SourceView::FilePattern(tokens.last()),
        )
    }
}

/// Layer 3: skills revealed by file names and pattern tokens.
pub fn detect_from_patterns(file_patterns: &Vec<String>) -> (r: Vec<Skill>)
    ensures
        skill_views(r@) == patterns_layer(views(file_patterns@)),
{
    let table = pattern_rule_table();
    let mut skills: Vec<Skill> = Vec::new();
    let n = file_patterns.len();
    let mut i: usize = 0;
    assert(views(file_patterns@).take(0) =~= Seq::<Seq<char>>::empty());
    while i < n
        invariant
            n == file_patterns@.len(),
            i <= n,
            rule_views(table@) == pattern_rules(),
            skill_views(skills@) == patterns_layer(views(file_patterns@).take(i as int)),
        decreases n - i,
    {
        let source = SkillSource::FilePattern(file_patterns[i].clone());
        apply_rules(&table, file_patterns[i].as_str(), &source, &mut skills);
        assert(views(file_patterns@).take(i + 1).drop_last() =~= views(file_patterns@).take(i as int));
        assert(views(file_patterns@).take(i + 1).last() == file_patterns@[i as int]@);
        i = i + 1;
    }
    assert(views(file_patterns@).take(n as int) =~= views(file_patterns@));
    skills
}

} // verus!
