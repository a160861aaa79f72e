//! Building the `RepoContext` from a detected stack.

pub mod enricher;
pub mod roles;

use vstd::prelude::*;
use crate::context::roles::{map_roles, roles_of};
use crate::detector::copy_skill;
use crate::order::views;
use crate::types::{ArchMeta, ProjectMeta, RepoContext, Skill, SkillView, StackResult, skill_views};

verus! {

/// Assembles the context from its parts; the agent roles are derived from the stack
/// and the architecture.
pub fn build(
    stack: StackResult,
    project: ProjectMeta,
    architecture: ArchMeta,
    root: String,
    version: String,
    scanned_at: String,
) -> (r: RepoContext)
    ensures
        r.stack == stack,
        r.project == project,
        r.architecture == architecture,
        r.root == root,
        r.version == version,
        r.scanned_at == scanned_at,
        views(r.agent_roles@) == roles_of(stack.skills@, architecture),
{
    let agent_roles = map_roles(&stack, &architecture);
    RepoContext { version, scanned_at, root, project, stack, architecture, agent_roles }
}

/// The skills of `s` with confidence in `[lo, hi)`, in order.
pub open spec fn in_band(s: Seq<SkillView>, lo: int, hi: int) -> Seq<SkillView>
    decreases s.len(),
{
    if s.len() == 0 {
        Seq::empty()
    } else if lo <= s.last().confidence < hi {
        in_band(s.drop_last(), lo, hi).push(s.last())
    } else {
        in_band(s.drop_last(), lo, hi)
    }
}

proof fn lemma_in_band(s: Seq<SkillView>, lo: int, hi: int)
    ensures
        forall|i: int| 0 <= i < in_band(s, lo, hi).len() ==> lo <= (#[trigger] in_band(s, lo, hi)[i]).confidence < hi,
    decreases s.len(),
{
    if s.len() > 0 {
        lemma_in_band(s.drop_last(), lo, hi);
    }
}

fn band(skills: &Vec<Skill>, lo: u16, hi: u16) -> (r: Vec<Skill>)
    ensures
        skill_views(r@) == in_band(skill_views(skills@), lo as int, hi as int),
        forall|i: int| 0 <= i < r@.len() ==> lo <= (#[trigger] r@[i]).confidence < hi,
{
    let ghost s = skill_views(skills@);
    let mut out: Vec<Skill> = Vec::new();
    let n = skills.len();
    let mut i: usize = 0;
    assert(s.take(0) =~= Seq::<SkillView>::empty());
    while i < n
        invariant
            n == skills@.len(),
            i <= n,
            s == skill_views(skills@),
            skill_views(out@) == in_band(s.take(i as int), lo as int, hi as int),
        decreases n - i,
    {
        let ghost before = skill_views(out@);
        assert(s.take(i + 1).drop_last() =~= s.take(i as int));
        assert(s.take(i + 1).last() == skills@[i as int]@);
        let c = skills[i].confidence as u16;
        if lo <= c && c < hi {
            out.push(copy_skill(&skills[i]));
            assert(skill_views(out@) =~= before.push(skills@[i as int]@));
        }
        i = i + 1;
    }
    assert(s.take(n as int) =~= s);
    proof {
        lemma_in_band(s, lo as int, hi as int);
        assert forall|i: int| 0 <= i < out@.len() implies lo <= (#[trigger] out@[i]).confidence < hi by {
            assert(skill_views(out@)[i] == out@[i]@);
        }
    }
    out
}

impl RepoContext {
    /// The primary skills: confidence at least 90, in stack order.
    pub fn primary_skills(&self) -> (r: Vec<Skill>)
        ensures
            skill_views(r@) == in_band(skill_views(self.stack.skills@), 90, 256),
            forall|i: int| 0 <= i < r@.len() ==> (#[trigger] r@[i]).confidence >= 90,
    {
        band(&self.stack.skills, 90, 256)
    }

    /// The secondary skills: confidence at least 50 and below 90, in stack order.
    pub fn secondary_skills(&self) -> (r: Vec<Skill>)
        ensures
            skill_views(r@) == in_band(skill_views(self.stack.skills@), 50, 90),
            forall|i: int| 0 <= i < r@.len() ==> 50 <= (#[trigger] r@[i]).confidence < 90,
    {
        band(&self.stack.skills, 50, 90)
    }
}

} // verus!
