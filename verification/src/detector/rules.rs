//! Detection rules: a pattern, the skill it reveals, and how the pattern must match.

use vstd::prelude::*;
use crate::text::{has_prefix, contains_seq, starts_with, contains, str_eq, owned};
use crate::types::{Skill, SkillSource, SkillView, SourceView, skill_views};

verus! {

/// How a rule's pattern is compared with the text it is applied to.
#[derive(Debug, Clone, Copy, PartialEq, Eq, Structural)]
pub enum MatchMode {
    /// The text equals the pattern.
    Exact,
    /// The text starts with the pattern.
    Prefix,
    /// The pattern occurs somewhere in the text.
    Contains,
}

/// A detection rule: when `pattern` matches, the skill `name` is detected with `confidence`.
#[derive(Clone, Copy)]
pub struct Rule {
    pub pattern: &'static str,
    pub name: &'static str,
    pub confidence: u8,
    pub mode: MatchMode,
}

/// What a rule says, with strings taken by their characters.
pub ghost struct RuleView {
    pub pattern: Seq<char>,
    pub name: Seq<char>,
    pub confidence: u8,
    pub mode: MatchMode,
}

impl View for Rule {
    type V = RuleView;

    open spec fn view(&self) -> RuleView {
        RuleView { pattern: self.pattern@, name: self.name@, confidence: self.confidence, mode: self.mode }
    }
}

/// A rule view built from literals.
pub open spec fn rv(pattern: &str, name: &str, confidence: u8, mode: MatchMode) -> RuleView {
    RuleView { pattern: pattern@, name: name@, confidence, mode }
}

/// Builds a rule.
pub fn rule(pattern: &'static str, name: &'static str, confidence: u8, mode: MatchMode) -> (r: Rule)
    ensures
        r@ == rv(pattern, name, confidence, mode),
{
    Rule { pattern, name, confidence, mode }
}

/// The views of a list of rules.
pub open spec fn rule_views(rules: Seq<Rule>) -> Seq<RuleView> {
    rules.map_values(|r: Rule| r@)
}

/// Whether `text` matches `pattern` under `mode`.
pub open spec fn mode_matches(mode: MatchMode, text: Seq<char>, pattern: Seq<char>) -> bool {
    match mode {
        MatchMode::Exact => text == pattern,
        MatchMode::Prefix => has_prefix(text, pattern),
        MatchMode::Contains => contains_seq(text, pattern),
    }
}

/// The skills that `rules` reveal in `text`, in rule order, each with source `source`.
pub open spec fn rule_matches(rules: Seq<RuleView>, text: Seq<char>, source: SourceView) -> Seq<SkillView>
    decreases rules.len(),
{
    if rules.len() == 0 {
        Seq::empty()
    } else {
        let r = rules.last();
        rule_matches(rules.drop_last(), text, source) + if mode_matches(r.mode, text, r.pattern) {
            seq![SkillView { name: r.name, confidence: r.confidence, source }]
        } else {
            Seq::empty()
        }
    }
}

/// A copy of `s` that says the same.
pub fn copy_source(s: &SkillSource) -> (r: SkillSource)
    ensures
        r@ == s@,
{
    match s {
        SkillSource::PackageJson => SkillSource::PackageJson,
        SkillSource::CargoToml => SkillSource::CargoToml,
        SkillSource::FolderName(d) => SkillSource::FolderName(d.clone()),
        SkillSource::FilePattern(f) => SkillSource::FilePattern(f.clone()),
        SkillSource::ReadmeSignal => SkillSource::ReadmeSignal,
    }
}

/// Whether `text` matches `pattern` under `mode`.
pub fn matches(mode: MatchMode, text: &str, pattern: &str) -> (r: bool)
    ensures
        r == mode_matches(mode, text@, pattern@),
{
    match mode {
        MatchMode::Exact => str_eq(text, pattern),
        MatchMode::Prefix => starts_with(text, pattern),
        MatchMode::Contains => contains(text, pattern),
    }
}

/// Appends to `out` the skills that `rules` reveal in `text`.
pub fn apply_rules(rules: &Vec<Rule>, text: &str, source: &SkillSource, out: &mut Vec<Skill>)
    ensures
        skill_views(final(out)@) == skill_views(old(out)@) + rule_matches(rule_views(rules@), text@, source@),
{
    let ghost start = skill_views(out@);
    let n = rules.len();
    let mut k: usize = 0;
    assert(rule_views(rules@).take(0) =~= Seq::<RuleView>::empty());
    assert(skill_views(out@) =~= start + rule_matches(rule_views(rules@).take(0), text@, source@));
    while k < n
        invariant
            n == rules@.len(),
            k <= n,
            skill_views(out@) == start + rule_matches(rule_views(rules@).take(k as int), text@, source@),
        decreases n - k,
    {
        let r = rules[k];
        let ghost before = skill_views(out@);
        assert(rule_views(rules@).take(k + 1).drop_last() =~= rule_views(rules@).take(k as int));
        if matches(r.mode, text, r.pattern) {
            let s = Skill { name: owned(r.name), confidence: r.confidence, source: copy_source(source) };
            out.push(s);
            assert(skill_views(out@) =~= before.push(s@));
        }
        k = k + 1;
        assert(skill_views(out@) =~= start + rule_matches(rule_views(rules@).take(k as int), text@, source@));
    }
    assert(rule_views(rules@).take(n as int) =~= rule_views(rules@));
}

} // verus!
