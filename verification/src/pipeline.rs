//! The whole pipeline: scan, detect, enrich, build the context.

use vstd::prelude::*;
use crate::config::Config;
use crate::context::build;
use crate::context::enricher::{
    RootFacts, fallback_name, docker_of, ci_of, monorepo_of, listed_folder, picked_or, picked,
    file_name_candidates, file_description_candidates, enrich,
};
use crate::context::roles::roles_of;
use crate::detector::{detect, detect_skills_from, stack_fields_of, INCLUDE_THRESHOLD};
use crate::detector::folders::arch_style_of;
use crate::error::RepoIntelError;
use crate::folder_map::keys_of;
use crate::order::{views, strictly_sorted, sorted_set};
use crate::scanner::{ScanInput, scan, exclude_folders};
use crate::scanner::signal::readme_excerpt_of;
use crate::scanner::walker::{walk_folders, walk_tokens, opt_view_eq};
use crate::text::opt_view;
use crate::types::{RepoContext, skill_views};

verus! {

/// Everything the pipeline needs from outside: what was found on disk, the version
/// to report, and the time of the scan.
pub struct PipelineInput {
    pub scan: ScanInput,
    pub facts: RootFacts,
    pub version: String,
    /// ISO 8601 time of the scan.
    pub scanned_at: String,
}

/// Runs scan → detect → enrich → build on what was found on disk.
pub fn run_pipeline(input: PipelineInput, cfg: &Config) -> (r: Result<RepoContext, RepoIntelError>)
    ensures
        !input.scan.root_exists ==> (r matches Err(RepoIntelError::RootNotFound { path }) && path@ == input.scan.root@),
        input.scan.root_exists && !input.scan.root_is_dir ==> (r matches Err(
            RepoIntelError::RootNotDirectory { path },
        ) && path@ == input.scan.root@),
        input.scan.root_exists && input.scan.root_is_dir ==> r is Ok,
        r matches Ok(ctx) ==> {
            let files = input.scan.signal_files@;
            let fm = exclude_folders(walk_folders(input.scan.entries@), views(cfg.project.exclude@));
            let skills = ctx.stack.skills@;
            &&& ctx.root@ == input.scan.root@
            &&& ctx.version == input.version
            &&& ctx.scanned_at == input.scanned_at
            &&& skill_views(skills) == detect_skills_from(files, fm, sorted_set(walk_tokens(input.scan.entries@)))
            &&& stack_fields_of(ctx.stack, skill_views(skills))
            &&& forall|i: int| 0 <= i < skills.len() ==> (#[trigger] skills[i]).confidence >= INCLUDE_THRESHOLD
            &&& ctx.stack.architecture_style == Some(arch_style_of(keys_of(fm)))
            &&& ctx.project.name@ == picked_or(file_name_candidates(files), fallback_name(input.scan.root@))
            &&& opt_view(ctx.project.description) == picked(file_description_candidates(files))
            &&& opt_view_eq(ctx.project.readme_excerpt, readme_excerpt_of(files))
            &&& ctx.architecture.style == ctx.stack.architecture_style
            &&& ctx.architecture.has_git == input.facts.git_dir
            &&& ctx.architecture.has_docker == docker_of(input.facts, files, skills)
            &&& ctx.architecture.has_ci == ci_of(input.facts, files, skills)
            &&& ctx.architecture.has_monorepo == monorepo_of(input.facts, files, fm, skills)
            &&& strictly_sorted(views(ctx.architecture.folders@))
            &&& forall|s: Seq<char>| #![trigger views(ctx.architecture.folders@).contains(s)]
                views(ctx.architecture.folders@).contains(s) <==> (keys_of(fm).contains(s) && listed_folder(s))
            &&& views(ctx.agent_roles@) == roles_of(skills, ctx.architecture)
        },
{
    let PipelineInput { scan: scan_input, facts, version, scanned_at } = input;
    let ghost si = scan_input;
    let sr = match scan(scan_input, cfg) {
        Ok(sr) => sr,
        Err(e) => return Err(e),
    };
    let stack = match detect(&sr) {
        Ok(st) => st,
        Err(e) => return Err(e),
    };
    let excerpt = match &sr.readme_excerpt {
        Some(x) => Some(x.clone()),
        None => None,
    };
    let (project, arch) = enrich(sr.root.as_str(), &facts, &sr.signal_files, &sr.folder_map, excerpt, &stack.skills, stack.architecture_style);
    let ctx = build(stack, project, arch, sr.root, version, scanned_at);
    Ok(ctx)
}

} // verus!
