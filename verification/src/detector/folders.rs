//! Layer 2: skills and architecture revealed by folder names.

use vstd::prelude::*;
use crate::detector::rules::{MatchMode, Rule, RuleView, rv, rule, rule_views, rule_matches, apply_rules};
use crate::folder_map::{FolderMap, keys_of};
use crate::order::{views, lemma_seq_concat_contains};
use crate::text::{last_segment, last_segment_of, has_segment, has_segment_exec, owned};
use crate::types::{Skill, SkillSource, SkillView, SourceView, ArchStyle, skill_views};

verus! {

/// Rules applied to the last `/`-separated segment of each folder name (exact match).
pub open spec fn folder_rules() -> Seq<RuleView> {
    seq![
        rv("prisma", "Database ORM (Prisma)", 80, MatchMode::Exact),
        rv("migrations", "Database Migrations", 70, MatchMode::Exact),
        rv("__tests__", "Testing (Jest)", 75, MatchMode::Exact),
        rv("cypress", "E2E Testing (Cypress)", 90, MatchMode::Exact),
        rv("e2e", "E2E Testing", 70, MatchMode::Exact),
        rv("storybook", "Storybook", 90, MatchMode::Exact),
        rv(".storybook", "Storybook", 95, MatchMode::Exact),
        rv("terraform", "Terraform", 90, MatchMode::Exact),
        rv("k8s", "Kubernetes", 85, MatchMode::Exact),
        rv("kubernetes", "Kubernetes", 90, MatchMode::Exact),
        rv("helm", "Helm", 90, MatchMode::Exact),
        rv("proto", "Protocol Buffers", 80, MatchMode::Exact),
        rv("graphql", "GraphQL", 80, MatchMode::Exact),
        rv("hooks", "React Hooks Pattern", 85, MatchMode::Exact),
    ]
}

fn folder_rule_table() -> (r: Vec<Rule>)
    ensures
        rule_views(r@) == folder_rules(),
{
    let r = vec![
        rule("prisma", "Database ORM (Prisma)", 80, MatchMode::Exact),
        rule("migrations", "Database Migrations", 70, MatchMode::Exact),
        rule("__tests__", "Testing (Jest)", 75, MatchMode::Exact),
        rule("cypress", "E2E Testing (Cypress)", 90, MatchMode::Exact),
        rule("e2e", "E2E Testing", 70, MatchMode::Exact),
        rule("storybook", "Storybook", 90, MatchMode::Exact),
        rule(".storybook", "Storybook", 95, MatchMode::Exact),
        rule("terraform", "Terraform", 90, MatchMode::Exact),
        rule("k8s", "Kubernetes", 85, MatchMode::Exact),
        rule("kubernetes", "Kubernetes", 90, MatchMode::Exact),
        rule("helm", "Helm", 90, MatchMode::Exact),
        rule("proto", "Protocol Buffers", 80, MatchMode::Exact),
        rule("graphql", "GraphQL", 80, MatchMode::Exact),
        rule("hooks", "React Hooks Pattern", 85, MatchMode::Exact),
    ];
    assert(rule_views(r@) =~= folder_rules());
    r
}

/// Skills revealed by each folder name in turn.
pub open spec fn folders_layer(dirs: Seq<Seq<char>>) -> Seq<SkillView>
    decreases dirs.len(),
{
    if dirs.len() == 0 {
        Seq::empty()
    } else {
        folders_layer(dirs.drop_last()) + rule_matches(
            folder_rules(),
            last_segment(dirs.last()),
            SourceView::FolderName(dirs.last()),
        )
    }
}

/// Layer 2: skills revealed by the folder names of `folder_map`.
pub fn detect_from_folders(folder_map: &FolderMap) -> (r: Vec<Skill>)
    ensures
        skill_views(r@) == folders_layer(keys_of(folder_map@)),
{
    let dirs = folder_map.keys();
    let table = folder_rule_table();
    let mut skills: Vec<Skill> = Vec::new();
    let n = dirs.len();
    let mut i: usize = 0;
    assert(views(dirs@).take(0) =~= Seq::<Seq<char>>::empty());
    while i < n
        invariant
            n == dirs@.len(),
            i <= n,
            rule_views(table@) == folder_rules(),
            skill_views(skills@) == folders_layer(views(dirs@).take(i as int)),
        decreases n - i,
    {
        let last = last_segment_of(dirs[i].as_str());
        let source = SkillSource::FolderName(dirs[i].clone());
        apply_rules(&table, last.as_str(), &source, &mut skills);
        assert(views(dirs@).take(i + 1).drop_last() =~= views(dirs@).take(i as int));
        assert(views(dirs@).take(i + 1).last() == dirs@[i as int]@);
        i = i + 1;
    }
    assert(views(dirs@).take(n as int) =~= views(dirs@));
    skills
}

/// Some folder name has a `/`-separated segment equal to `name`.
pub open spec fn has_dir(dirs: Seq<Seq<char>>, name: Seq<char>) -> bool {
    exists|i: int| 0 <= i < dirs.len() && has_segment(#[trigger] dirs[i], name)
}

fn has_dir_exec(dirs: &Vec<String>, name: &str) -> (r: bool)
    ensures
        r == has_dir(views(dirs@), name@),
{
    let n = dirs.len();
    let mut i: usize = 0;
    while i < n
        invariant
            n == dirs@.len(),
            i <= n,
            forall|j: int| 0 <= j < i ==> !has_segment(#[trigger] views(dirs@)[j], name@),
        decreases n - i,
    {
        if has_segment_exec(dirs[i].as_str(), name) {
            assert(has_segment(views(dirs@)[i as int], name@));
            return true;
        }
        i = i + 1;
    }
    false
}

/// The architecture pattern names that the folder names `dirs` reveal, in this order:
/// monorepo, react-component-architecture, mvc, clean-architecture,
/// handler-middleware-pattern.
pub open spec fn architecture_patterns(dirs: Seq<Seq<char>>) -> Seq<Seq<char>> {
    (if has_dir(dirs, "packages"@) || has_dir(dirs, "apps"@) { seq!["monorepo"@] } else { Seq::empty() })
    + (if has_dir(dirs, "components"@) && has_dir(dirs, "hooks"@) {
        seq!["react-component-architecture"@]
    } else {
        Seq::empty()
    }) + (if has_dir(dirs, "controllers"@) && has_dir(dirs, "services"@) {
        seq!["mvc"@]
    } else {
        Seq::empty()
    }) + (if has_dir(dirs, "domain"@) || has_dir(dirs, "application"@) || has_dir(
        dirs,
        "infrastructure"@,
    ) {
        seq!["clean-architecture"@]
    } else {
        Seq::empty()
    }) + (if has_dir(dirs, "handlers"@) && has_dir(dirs, "middleware"@) {
        seq!["handler-middleware-pattern"@]
    } else {
        Seq::empty()
    })
}

/// Infers high-level architecture patterns from the folder structure.
pub fn infer_architecture(folder_map: &FolderMap) -> (r: Vec<String>)
    ensures
        views(r@) == architecture_patterns(keys_of(folder_map@)),
{
    let dirs = folder_map.keys();
    let mut patterns: Vec<String> = Vec::new();
    if has_dir_exec(&dirs, "packages") || has_dir_exec(&dirs, "apps") {
        patterns.push(owned("monorepo"));
    }
    let ghost a = views(patterns@);
    if has_dir_exec(&dirs, "components") && has_dir_exec(&dirs, "hooks") {
        patterns.push(owned("react-component-architecture"));
    }
    let ghost b = views(patterns@);
    if has_dir_exec(&dirs, "controllers") && has_dir_exec(&dirs, "services") {
        patterns.push(owned("mvc"));
    }
    let ghost c = views(patterns@);
    if has_dir_exec(&dirs, "domain") || has_dir_exec(&dirs, "application") || has_dir_exec(
        &dirs,
        "infrastructure",
    ) {
        patterns.push(owned("clean-architecture"));
    }
    let ghost d = views(patterns@);
    if has_dir_exec(&dirs, "handlers") && has_dir_exec(&dirs, "middleware") {
        patterns.push(owned("handler-middleware-pattern"));
    }
    assert(views(patterns@) =~= architecture_patterns(keys_of(folder_map@)));
    patterns
}

/// The architecture style that the folder names `dirs` suggest: feature-based when a
/// `modules` folder exists, else layer-based when `components`, `services` or `hooks`
/// exists, else flat.
pub open spec fn arch_style_of(dirs: Seq<Seq<char>>) -> ArchStyle {
    if has_dir(dirs, "modules"@) {
        ArchStyle::FeatureBased
    } else if has_dir(dirs, "components"@) || has_dir(dirs, "services"@) || has_dir(dirs, "hooks"@) {
        ArchStyle::LayerBased
    } else {
        ArchStyle::Flat
    }
}

/// The architecture style suggested by the folder names of `folder_map`.
pub fn infer_arch_style(folder_map: &FolderMap) -> (r: ArchStyle)
    ensures
        r == arch_style_of(keys_of(folder_map@)),
{
    let dirs = folder_map.keys();
    if has_dir_exec(&dirs, "modules") {
        ArchStyle::FeatureBased
    } else if has_dir_exec(&dirs, "components") || has_dir_exec(&dirs, "services") || has_dir_exec(
        &dirs,
        "hooks",
    ) {
        ArchStyle::LayerBased
    } else {
        ArchStyle::Flat
    }
}


/// Each architecture pattern is reported exactly when its folders exist (a folder
/// exists when some folder path has a `/`-separated segment of that name): monorepo
/// for `packages` or `apps`; react-component-architecture for `components` and `hooks`;
/// mvc for `controllers` and `services`; clean-architecture for `domain`,
/// `application` or `infrastructure`; handler-middleware-pattern for `handlers` and
/// `middleware`. No pattern is reported twice.
pub proof fn lemma_architecture_patterns(dirs: Seq<Seq<char>>)
    ensures
        architecture_patterns(dirs).contains("monorepo"@) <==> ((exists|i: int| 0 <= i < dirs.len() && has_segment(#[trigger] dirs[i], "packages"@)) || (exists|i: int| 0 <= i < dirs.len() && has_segment(#[trigger] dirs[i], "apps"@))),
        architecture_patterns(dirs).contains("react-component-architecture"@) <==> ((exists|i: int| 0 <= i < dirs.len() && has_segment(#[trigger] dirs[i], "components"@)) && (exists|i: int| 0 <= i < dirs.len() && has_segment(#[trigger] dirs[i], "hooks"@))),
        architecture_patterns(dirs).contains("mvc"@) <==> ((exists|i: int| 0 <= i < dirs.len() && has_segment(#[trigger] dirs[i], "controllers"@)) && (exists|i: int| 0 <= i < dirs.len() && has_segment(#[trigger] dirs[i], "services"@))),
        architecture_patterns(dirs).contains("clean-architecture"@) <==> ((exists|i: int| 0 <= i < dirs.len() && has_segment(#[trigger] dirs[i], "domain"@)) || (exists|i: int| 0 <= i < dirs.len() && has_segment(#[trigger] dirs[i], "application"@)) || (exists|i: int| 0 <= i < dirs.len() && has_segment(#[trigger] dirs[i], "infrastructure"@))),
        architecture_patterns(dirs).contains("handler-middleware-pattern"@) <==> ((exists|i: int| 0 <= i < dirs.len() && has_segment(#[trigger] dirs[i], "handlers"@)) && (exists|i: int| 0 <= i < dirs.len() && has_segment(#[trigger] dirs[i], "middleware"@))),
        architecture_patterns(dirs).no_duplicates(),
{
    reveal_strlit("monorepo");
    reveal_strlit("react-component-architecture");
    reveal_strlit("mvc");
    reveal_strlit("clean-architecture");
    reveal_strlit("handler-middleware-pattern");
    assert("monorepo"@.len() != "react-component-architecture"@.len());
    assert("monorepo"@.len() != "mvc"@.len());
    assert("monorepo"@.len() != "clean-architecture"@.len());
    assert("monorepo"@.len() != "handler-middleware-pattern"@.len());
    assert("react-component-architecture"@.len() != "mvc"@.len());
    assert("react-component-architecture"@.len() != "clean-architecture"@.len());
    assert("react-component-architecture"@.len() != "handler-middleware-pattern"@.len());
    assert("mvc"@.len() != "clean-architecture"@.len());
    assert("mvc"@.len() != "handler-middleware-pattern"@.len());
    assert("clean-architecture"@.len() != "handler-middleware-pattern"@.len());
    let c0 = has_dir(dirs, "packages"@) || has_dir(dirs, "apps"@);
    let c1 = has_dir(dirs, "components"@) && has_dir(dirs, "hooks"@);
    let c2 = has_dir(dirs, "controllers"@) && has_dir(dirs, "services"@);
    let c3 = has_dir(dirs, "domain"@) || has_dir(dirs, "application"@) || has_dir(dirs, "infrastructure"@);
    let c4 = has_dir(dirs, "handlers"@) && has_dir(dirs, "middleware"@);
    let p0: Seq<Seq<char>> = if c0 { seq!["monorepo"@] } else { Seq::empty() };
    let p1: Seq<Seq<char>> = if c1 { seq!["react-component-architecture"@] } else { Seq::empty() };
    let p2: Seq<Seq<char>> = if c2 { seq!["mvc"@] } else { Seq::empty() };
    let p3: Seq<Seq<char>> = if c3 { seq!["clean-architecture"@] } else { Seq::empty() };
    let p4: Seq<Seq<char>> = if c4 { seq!["handler-middleware-pattern"@] } else { Seq::empty() };
    let r = architecture_patterns(dirs);
    assert(r == p0 + p1 + p2 + p3 + p4);
    assert forall|x: Seq<char>| #![trigger r.contains(x)] r.contains(x) <==> ((c0 && x == "monorepo"@) || (c1
        && x == "react-component-architecture"@) || (c2 && x == "mvc"@) || (c3 && x == "clean-architecture"@) || (c4
        && x == "handler-middleware-pattern"@)) by {
        lemma_seq_concat_contains(p0, p1, x);
        lemma_seq_concat_contains(p0 + p1, p2, x);
        lemma_seq_concat_contains(p0 + p1 + p2, p3, x);
        lemma_seq_concat_contains(p0 + p1 + p2 + p3, p4, x);
        if c0 { assert(p0[0] == "monorepo"@); }
        if c1 { assert(p1[0] == "react-component-architecture"@); }
        if c2 { assert(p2[0] == "mvc"@); }
        if c3 { assert(p3[0] == "clean-architecture"@); }
        if c4 { assert(p4[0] == "handler-middleware-pattern"@); }
    }
    assert(r.contains("monorepo"@) <==> c0);
    assert(r.contains("react-component-architecture"@) <==> c1);
    assert(r.contains("mvc"@) <==> c2);
    assert(r.contains("clean-architecture"@) <==> c3);
    assert(r.contains("handler-middleware-pattern"@) <==> c4);
    assert forall|i: int, j: int| 0 <= i < r.len() && 0 <= j < r.len() && i != j implies r[i] != r[j] by {
        assert(r.contains(r[i]) && r.contains(r[j]));
        if r[i] == r[j] {
            let q0 = p0.len();
            let q1 = q0 + p1.len();
            let q2 = q1 + p2.len();
            let q3 = q2 + p3.len();
            assert(i < q0 ==> r[i] == p0[i]);
            assert(q0 <= i < q1 ==> r[i] == p1[i - q0]);
            assert(q1 <= i < q2 ==> r[i] == p2[i - q1]);
            assert(q2 <= i < q3 ==> r[i] == p3[i - q2]);
            assert(q3 <= i ==> r[i] == p4[i - q3]);
            assert(j < q0 ==> r[j] == p0[j]);
            assert(q0 <= j < q1 ==> r[j] == p1[j - q0]);
            assert(q1 <= j < q2 ==> r[j] == p2[j - q1]);
            assert(q2 <= j < q3 ==> r[j] == p3[j - q2]);
            assert(q3 <= j ==> r[j] == p4[j - q3]);
        }
    }
}

/// The architecture style: feature-based when some folder path has a `modules`
/// segment; otherwise layer-based when one has a `components`, `services` or `hooks`
/// segment; otherwise flat.
pub proof fn lemma_arch_style(dirs: Seq<Seq<char>>)
    ensures
        (exists|i: int| 0 <= i < dirs.len() && has_segment(#[trigger] dirs[i], "modules"@)) ==> arch_style_of(dirs) == ArchStyle::FeatureBased,
        !(exists|i: int| 0 <= i < dirs.len() && has_segment(#[trigger] dirs[i], "modules"@)) && ((exists|i: int| 0 <= i < dirs.len() && has_segment(#[trigger] dirs[i], "components"@)) || (exists|i: int| 0 <= i < dirs.len() && has_segment(#[trigger] dirs[i], "services"@)) || (exists|i: int| 0 <= i < dirs.len() && has_segment(#[trigger] dirs[i], "hooks"@)))
            ==> arch_style_of(dirs) == ArchStyle::LayerBased,
        !(exists|i: int| 0 <= i < dirs.len() && has_segment(#[trigger] dirs[i], "modules"@)) && !(exists|i: int| 0 <= i < dirs.len() && has_segment(#[trigger] dirs[i], "components"@)) && !(exists|i: int| 0 <= i < dirs.len() && has_segment(#[trigger] dirs[i], "services"@)) && !(exists|i: int| 0 <= i < dirs.len() && has_segment(#[trigger] dirs[i], "hooks"@))
            ==> arch_style_of(dirs) == ArchStyle::Flat,
{
}

} // verus!
