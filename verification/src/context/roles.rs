//! Mapping a detected stack to agent roles.

use vstd::prelude::*;
use crate::order::views;
use crate::text::owned;
use crate::text::all_ascii;
use crate::types::{ArchMeta, Skill, StackResult, has_skill_spec, has_skill_ascii};

verus! {

/// Some skill at inclusion confidence names `needle` (ignoring case).
pub open spec fn has_role_skill(skills: Seq<Skill>, needle: &str) -> bool {
    has_skill_spec(skills, needle@, 50)
}

/// Some skill at inclusion confidence names `needle`, ignoring the case of ASCII
/// letters; the same as `has_role_skill` when every name is ASCII.
pub open spec fn has_role_skill_ascii(skills: Seq<Skill>, needle: &str) -> bool {
    has_skill_ascii(skills, needle@, 50)
}

/// `has_role_skill`, or its ASCII form when `ascii` holds.
pub open spec fn role_hit(skills: Seq<Skill>, needle: &str, ascii: bool) -> bool {
    if ascii { has_role_skill_ascii(skills, needle) } else { has_role_skill(skills, needle) }
}

/// One role when `cond` holds, none otherwise.
pub open spec fn role_if(cond: bool, role: &str) -> Seq<Seq<char>> {
    if cond {
        seq![role@]
    } else {
        Seq::empty()
    }
}

/// A server-side rendering framework is present.
pub open spec fn ssr_signal_by(s: Seq<Skill>, a: bool) -> bool {
    role_hit(s, "SSR", a) || role_hit(s, "Next.js", a) || role_hit(s, "Nuxt", a)
        || role_hit(s, "Remix", a) || role_hit(s, "Gatsby", a)
}

/// A client-side UI framework is present.
pub open spec fn ui_signal_by(s: Seq<Skill>, a: bool) -> bool {
    role_hit(s, "React", a) || role_hit(s, "Vue", a) || role_hit(s, "Svelte", a)
        || role_hit(s, "Angular", a) || role_hit(s, "Astro", a)
}

/// Front-end or full-stack role: server-side rendering frameworks make the role
/// full-stack, which takes priority over plain front-end.
pub open spec fn ui_roles_by(s: Seq<Skill>, a: bool) -> Seq<Seq<char>> {
    if ssr_signal_by(s, a) {
        seq!["Fullstack Engineer"@]
    } else if ui_signal_by(s, a) {
        seq!["Frontend Engineer"@]
    } else {
        Seq::empty()
    }
}

/// A back-end API framework is present.
pub open spec fn has_backend_by(s: Seq<Skill>, a: bool) -> bool {
    role_hit(s, "API Server", a) || role_hit(s, "Express", a) || role_hit(s, "Fastify", a)
        || role_hit(s, "Hono", a) || role_hit(s, "Koa", a) || role_hit(s, "Axum", a)
        || role_hit(s, "Actix", a) || role_hit(s, "NestJS", a) || role_hit(s, "Warp", a)
        || role_hit(s, "Rocket", a) || role_hit(s, "Elysia", a)
}

/// A testing tool is present.
pub open spec fn has_testing_by(s: Seq<Skill>, a: bool) -> bool {
    role_hit(s, "Testing", a) || role_hit(s, "Vitest", a) || role_hit(s, "Jest", a)
        || role_hit(s, "Playwright", a) || role_hit(s, "Cypress", a)
}

/// A database tool is present.
pub open spec fn has_database_by(s: Seq<Skill>, a: bool) -> bool {
    role_hit(s, "Database", a) || role_hit(s, "Prisma", a) || role_hit(s, "SQLx", a)
        || role_hit(s, "Diesel", a) || role_hit(s, "Drizzle", a) || role_hit(s, "TypeORM", a)
        || role_hit(s, "Mongoose", a) || role_hit(s, "SeaORM", a)
}

/// The roles before the monorepo rule, in this order: UI, back end, QA, database,
/// DevOps, GraphQL, developer tooling, WebAssembly.
pub open spec fn base_roles_by(s: Seq<Skill>, arch: ArchMeta, a: bool) -> Seq<Seq<char>> {
    ui_roles_by(s, a) + role_if(has_backend_by(s, a), "Backend API Engineer") + role_if(
        has_testing_by(s, a),
        "QA & Testing Engineer",
    ) + role_if(has_database_by(s, a), "Database Engineer") + role_if(
        arch.has_docker || arch.has_ci,
        "DevOps Engineer",
    ) + role_if(role_hit(s, "GraphQL", a), "GraphQL Engineer") + role_if(
        role_hit(s, "Rust CLI", a),
        "Developer Tooling Engineer",
    ) + role_if(role_hit(s, "WebAssembly", a), "WebAssembly Engineer")
}

/// All roles: the base roles, plus a platform role for a monorepo with at least two.
pub open spec fn roles_by(s: Seq<Skill>, arch: ArchMeta, a: bool) -> Seq<Seq<char>> {
    let b = base_roles_by(s, arch, a);
    if arch.has_monorepo && b.len() >= 2 {
        b.push("Platform / Monorepo Engineer"@)
    } else {
        b
    }
}

/// A server-side rendering framework is present.
pub open spec fn ssr_signal(s: Seq<Skill>) -> bool {
    ssr_signal_by(s, false)
}

/// A client-side UI framework is present.
pub open spec fn ui_signal(s: Seq<Skill>) -> bool {
    ui_signal_by(s, false)
}

/// The front-end or full-stack role.
pub open spec fn ui_roles(s: Seq<Skill>) -> Seq<Seq<char>> {
    ui_roles_by(s, false)
}

/// A back-end API framework is present.
pub open spec fn has_backend(s: Seq<Skill>) -> bool {
    has_backend_by(s, false)
}

/// A testing tool is present.
pub open spec fn has_testing(s: Seq<Skill>) -> bool {
    has_testing_by(s, false)
}

/// A database tool is present.
pub open spec fn has_database(s: Seq<Skill>) -> bool {
    has_database_by(s, false)
}

/// The roles before the monorepo rule.
pub open spec fn base_roles(s: Seq<Skill>, arch: ArchMeta) -> Seq<Seq<char>> {
    base_roles_by(s, arch, false)
}

/// All roles: the base roles, plus a platform role for a monorepo with at least two.
pub open spec fn roles_of(s: Seq<Skill>, arch: ArchMeta) -> Seq<Seq<char>> {
    roles_by(s, arch, false)
}

/// The roles when case is ignored for ASCII letters only: what `roles_of` gives when
/// every skill name is ASCII (see `map_roles`).
pub open spec fn roles_of_ascii(s: Seq<Skill>, arch: ArchMeta) -> Seq<Seq<char>> {
    roles_by(s, arch, true)
}

/// Every skill name is ASCII.
pub open spec fn ascii_skill_names(s: Seq<Skill>) -> bool {
    forall|i: int| 0 <= i < s.len() ==> all_ascii((#[trigger] s[i]).name@)
}

proof fn lemma_needles_ascii()
    ensures
        all_ascii("SSR"@),
        all_ascii("Next.js"@),
        all_ascii("Nuxt"@),
        all_ascii("Remix"@),
        all_ascii("Gatsby"@),
        all_ascii("React"@),
        all_ascii("Vue"@),
        all_ascii("Svelte"@),
        all_ascii("Angular"@),
        all_ascii("Astro"@),
        all_ascii("API Server"@),
        all_ascii("Express"@),
        all_ascii("Fastify"@),
        all_ascii("Hono"@),
        all_ascii("Koa"@),
        all_ascii("Axum"@),
        all_ascii("Actix"@),
        all_ascii("NestJS"@),
        all_ascii("Warp"@),
        all_ascii("Rocket"@),
        all_ascii("Elysia"@),
        all_ascii("Testing"@),
        all_ascii("Vitest"@),
        all_ascii("Jest"@),
        all_ascii("Playwright"@),
        all_ascii("Cypress"@),
        all_ascii("Database"@),
        all_ascii("Prisma"@),
        all_ascii("SQLx"@),
        all_ascii("Diesel"@),
        all_ascii("Drizzle"@),
        all_ascii("TypeORM"@),
        all_ascii("Mongoose"@),
        all_ascii("SeaORM"@),
        all_ascii("GraphQL"@),
        all_ascii("Rust CLI"@),
        all_ascii("WebAssembly"@),
{
    reveal_strlit("SSR");
    reveal_strlit("Next.js");
    reveal_strlit("Nuxt");
    reveal_strlit("Remix");
    reveal_strlit("Gatsby");
    reveal_strlit("React");
    reveal_strlit("Vue");
    reveal_strlit("Svelte");
    reveal_strlit("Angular");
    reveal_strlit("Astro");
    reveal_strlit("API Server");
    reveal_strlit("Express");
    reveal_strlit("Fastify");
    reveal_strlit("Hono");
    reveal_strlit("Koa");
    reveal_strlit("Axum");
    reveal_strlit("Actix");
    reveal_strlit("NestJS");
    reveal_strlit("Warp");
    reveal_strlit("Rocket");
    reveal_strlit("Elysia");
    reveal_strlit("Testing");
    reveal_strlit("Vitest");
    reveal_strlit("Jest");
    reveal_strlit("Playwright");
    reveal_strlit("Cypress");
    reveal_strlit("Database");
    reveal_strlit("Prisma");
    reveal_strlit("SQLx");
    reveal_strlit("Diesel");
    reveal_strlit("Drizzle");
    reveal_strlit("TypeORM");
    reveal_strlit("Mongoose");
    reveal_strlit("SeaORM");
    reveal_strlit("GraphQL");
    reveal_strlit("Rust CLI");
    reveal_strlit("WebAssembly");
}

fn is_fullstack(stack: &StackResult) -> (r: bool)
    ensures
        ascii_skill_names(stack.skills@) ==> r == ssr_signal_by(stack.skills@, true),
        r == (has_role_skill(stack.skills@, "SSR") || has_role_skill(stack.skills@, "Next.js")
            || has_role_skill(stack.skills@, "Nuxt") || has_role_skill(stack.skills@, "Remix")
            || has_role_skill(stack.skills@, "Gatsby")),
{
    proof { lemma_needles_ascii(); }
    stack.has_skill("SSR", 50) || stack.has_skill("Next.js", 50) || stack.has_skill("Nuxt", 50)
        || stack.has_skill("Remix", 50) || stack.has_skill("Gatsby", 50)
}

fn is_frontend(stack: &StackResult) -> (r: bool)
    ensures
        ascii_skill_names(stack.skills@) ==> r == ui_signal_by(stack.skills@, true),
        r == (has_role_skill(stack.skills@, "React") || has_role_skill(stack.skills@, "Vue")
            || has_role_skill(stack.skills@, "Svelte") || has_role_skill(stack.skills@, "Angular")
            || has_role_skill(stack.skills@, "Astro")),
{
    proof { lemma_needles_ascii(); }
    stack.has_skill("React", 50) || stack.has_skill("Vue", 50) || stack.has_skill("Svelte", 50)
        || stack.has_skill("Angular", 50) || stack.has_skill("Astro", 50)
}

fn is_backend(stack: &StackResult) -> (r: bool)
    ensures
        ascii_skill_names(stack.skills@) ==> r == has_backend_by(stack.skills@, true),
        r == has_backend(stack.skills@),
{
    proof { lemma_needles_ascii(); }
    stack.has_skill("API Server", 50) || stack.has_skill("Express", 50) || stack.has_skill("Fastify", 50)
        || stack.has_skill("Hono", 50) || stack.has_skill("Koa", 50) || stack.has_skill("Axum", 50)
        || stack.has_skill("Actix", 50) || stack.has_skill("NestJS", 50) || stack.has_skill("Warp", 50)
        || stack.has_skill("Rocket", 50) || stack.has_skill("Elysia", 50)
}

fn is_testing(stack: &StackResult) -> (r: bool)
    ensures
        ascii_skill_names(stack.skills@) ==> r == has_testing_by(stack.skills@, true),
        r == has_testing(stack.skills@),
{
    proof { lemma_needles_ascii(); }
    stack.has_skill("Testing", 50) || stack.has_skill("Vitest", 50) || stack.has_skill("Jest", 50)
        || stack.has_skill("Playwright", 50) || stack.has_skill("Cypress", 50)
}

fn is_database(stack: &StackResult) -> (r: bool)
    ensures
        ascii_skill_names(stack.skills@) ==> r == has_database_by(stack.skills@, true),
        r == has_database(stack.skills@),
{
    proof { lemma_needles_ascii(); }
    stack.has_skill("Database", 50) || stack.has_skill("Prisma", 50) || stack.has_skill("SQLx", 50)
        || stack.has_skill("Diesel", 50) || stack.has_skill("Drizzle", 50) || stack.has_skill("TypeORM", 50)
        || stack.has_skill("Mongoose", 50) || stack.has_skill("SeaORM", 50)
}

fn push_if(roles: &mut Vec<String>, cond: bool, role: &str)
    ensures
        views(final(roles)@) == views(old(roles)@) + role_if(cond, role),
{
    let ghost before = views(roles@);
    if cond {
        roles.push(owned(role));
        assert(views(roles@) =~= before + seq![role@]);
    } else {
        assert(views(roles@) =~= before + Seq::<Seq<char>>::empty());
    }
}

/// Maps a detected stack to the agent role names it calls for. When every skill name
/// is ASCII the roles are also given through ASCII case folding (`roles_of_ascii`),
/// which Verus can evaluate on concrete names.
#[verifier::rlimit(80)]
#[verifier::spinoff_prover]
pub fn map_roles(stack: &StackResult, arch: &ArchMeta) -> (r: Vec<String>)
    ensures
        views(r@) == roles_of(stack.skills@, *arch),
        ascii_skill_names(stack.skills@) ==> views(r@) == roles_of_ascii(stack.skills@, *arch),
{
    let ghost s = stack.skills@;
    proof { lemma_needles_ascii(); }
    let mut roles: Vec<String> = Vec::new();
    let full = is_fullstack(stack);
    if full {
        roles.push(owned("Fullstack Engineer"));
    } else if is_frontend(stack) {
        roles.push(owned("Frontend Engineer"));
    }
    assert(views(roles@) =~= ui_roles(s));
    let ghost ui = views(roles@);
    let back = is_backend(stack);
    let test = is_testing(stack);
    let data = is_database(stack);
    let graphql = stack.has_skill("GraphQL", 50);
    let cli = stack.has_skill("Rust CLI", 50);
    let wasm = stack.has_skill("WebAssembly", 50);
    push_if(&mut roles, back, "Backend API Engineer");
    push_if(&mut roles, test, "QA & Testing Engineer");
    push_if(&mut roles, data, "Database Engineer");
    push_if(&mut roles, arch.has_docker || arch.has_ci, "DevOps Engineer");
    push_if(&mut roles, graphql, "GraphQL Engineer");
    push_if(&mut roles, cli, "Developer Tooling Engineer");
    push_if(&mut roles, wasm, "WebAssembly Engineer");
    assert(views(roles@) == base_roles(s, *arch));
    proof {
        if ascii_skill_names(s) {
            assert(ui_roles_by(s, true) == ui);
            assert(base_roles_by(s, *arch, true) == base_roles_by(s, *arch, false));
        }
    }
    if arch.has_monorepo && roles.len() >= 2 {
        let ghost b = views(roles@);
        roles.push(owned("Platform / Monorepo Engineer"));
        assert(views(roles@) =~= b.push("Platform / Monorepo Engineer"@));
    }
    roles
}

proof fn lemma_concat_contains(a: Seq<Seq<char>>, b: Seq<Seq<char>>, x: Seq<char>)
    ensures
        (a + b).contains(x) <==> (a.contains(x) || b.contains(x)),
{
    if (a + b).contains(x) {
        let i = choose|i: int| 0 <= i < (a + b).len() && (a + b)[i] == x;
        if i >= a.len() {
            assert(b[i - a.len()] == x);
        }
    }
    if a.contains(x) {
        let i = choose|i: int| 0 <= i < a.len() && a[i] == x;
        assert((a + b)[i] == x);
    }
    if b.contains(x) {
        let i = choose|i: int| 0 <= i < b.len() && b[i] == x;
        assert((a + b)[a.len() + i] == x);
    }
}

proof fn lemma_concat_no_dup(a: Seq<Seq<char>>, b: Seq<Seq<char>>)
    requires
        a.no_duplicates(),
        b.no_duplicates(),
        forall|x: Seq<char>| a.contains(x) ==> !b.contains(x),
    ensures
        (a + b).no_duplicates(),
{
    let c = a + b;
    assert forall|i: int, j: int| 0 <= i < c.len() && 0 <= j < c.len() && i != j implies c[i] != c[j] by {
        if i < a.len() && j >= a.len() {
            assert(a.contains(c[i]));
            assert(b[j - a.len()] == c[j]);
        } else if j < a.len() && i >= a.len() {
            assert(a.contains(c[j]));
            assert(b[i - a.len()] == c[i]);
        } else if i >= a.len() && j >= a.len() {
            assert(b[i - a.len()] == c[i] && b[j - a.len()] == c[j]);
        }
    }
}

proof fn lemma_role_if(cond: bool, role: &str, x: Seq<char>)
    ensures
        role_if(cond, role).contains(x) <==> (cond && x == role@),
        role_if(cond, role).no_duplicates(),
{
    if cond {
        assert(role_if(cond, role)[0] == role@);
    }
}


proof fn lemma_parts(s: Seq<Skill>, arch: ArchMeta, x: Seq<char>)
    ensures
        ui_roles(s).no_duplicates(),
        ui_roles(s).contains(x) <==> ((ssr_signal(s) && x == "Fullstack Engineer"@) || (
        !ssr_signal(s) && ui_roles(s).len() == 1 && x == "Frontend Engineer"@)),
        role_if(has_backend(s), "Backend API Engineer").contains(x) <==> (has_backend(s) && x == "Backend API Engineer"@),
        role_if(has_testing(s), "QA & Testing Engineer").contains(x) <==> (has_testing(s) && x == "QA & Testing Engineer"@),
        role_if(has_database(s), "Database Engineer").contains(x) <==> (has_database(s) && x == "Database Engineer"@),
        role_if(arch.has_docker || arch.has_ci, "DevOps Engineer").contains(x) <==> ((arch.has_docker || arch.has_ci) && x == "DevOps Engineer"@),
        role_if(has_role_skill(s, "GraphQL"), "GraphQL Engineer").contains(x) <==> (has_role_skill(s, "GraphQL") && x == "GraphQL Engineer"@),
        role_if(has_role_skill(s, "Rust CLI"), "Developer Tooling Engineer").contains(x) <==> (has_role_skill(s, "Rust CLI") && x == "Developer Tooling Engineer"@),
        role_if(has_role_skill(s, "WebAssembly"), "WebAssembly Engineer").contains(x) <==> (has_role_skill(s, "WebAssembly") && x == "WebAssembly Engineer"@),
{
    lemma_role_if(has_backend(s), "Backend API Engineer", x);
    lemma_role_if(has_testing(s), "QA & Testing Engineer", x);
    lemma_role_if(has_database(s), "Database Engineer", x);
    lemma_role_if(arch.has_docker || arch.has_ci, "DevOps Engineer", x);
    lemma_role_if(has_role_skill(s, "GraphQL"), "GraphQL Engineer", x);
    lemma_role_if(has_role_skill(s, "Rust CLI"), "Developer Tooling Engineer", x);
    lemma_role_if(has_role_skill(s, "WebAssembly"), "WebAssembly Engineer", x);
    let u = ui_roles(s);
    if u.len() > 0 {
        assert(u[0] == u[0]);
    }
}

proof fn lemma_role_names_distinct()
    ensures
        "Fullstack Engineer"@ != "Frontend Engineer"@,
        "Fullstack Engineer"@ != "Backend API Engineer"@,
        "Fullstack Engineer"@ != "QA & Testing Engineer"@,
        "Fullstack Engineer"@ != "Database Engineer"@,
        "Fullstack Engineer"@ != "DevOps Engineer"@,
        "Fullstack Engineer"@ != "GraphQL Engineer"@,
        "Fullstack Engineer"@ != "Developer Tooling Engineer"@,
        "Fullstack Engineer"@ != "WebAssembly Engineer"@,
        "Fullstack Engineer"@ != "Platform / Monorepo Engineer"@,
        "Frontend Engineer"@ != "Backend API Engineer"@,
        "Frontend Engineer"@ != "QA & Testing Engineer"@,
        "Frontend Engineer"@ != "Database Engineer"@,
        "Frontend Engineer"@ != "DevOps Engineer"@,
        "Frontend Engineer"@ != "GraphQL Engineer"@,
        "Frontend Engineer"@ != "Developer Tooling Engineer"@,
        "Frontend Engineer"@ != "WebAssembly Engineer"@,
        "Frontend Engineer"@ != "Platform / Monorepo Engineer"@,
        "Backend API Engineer"@ != "QA & Testing Engineer"@,
        "Backend API Engineer"@ != "Database Engineer"@,
        "Backend API Engineer"@ != "DevOps Engineer"@,
        "Backend API Engineer"@ != "GraphQL Engineer"@,
        "Backend API Engineer"@ != "Developer Tooling Engineer"@,
        "Backend API Engineer"@ != "WebAssembly Engineer"@,
        "Backend API Engineer"@ != "Platform / Monorepo Engineer"@,
        "QA & Testing Engineer"@ != "Database Engineer"@,
        "QA & Testing Engineer"@ != "DevOps Engineer"@,
        "QA & Testing Engineer"@ != "GraphQL Engineer"@,
        "QA & Testing Engineer"@ != "Developer Tooling Engineer"@,
        "QA & Testing Engineer"@ != "WebAssembly Engineer"@,
        "QA & Testing Engineer"@ != "Platform / Monorepo Engineer"@,
        "Database Engineer"@ != "DevOps Engineer"@,
        "Database Engineer"@ != "GraphQL Engineer"@,
        "Database Engineer"@ != "Developer Tooling Engineer"@,
        "Database Engineer"@ != "WebAssembly Engineer"@,
        "Database Engineer"@ != "Platform / Monorepo Engineer"@,
        "DevOps Engineer"@ != "GraphQL Engineer"@,
        "DevOps Engineer"@ != "Developer Tooling Engineer"@,
        "DevOps Engineer"@ != "WebAssembly Engineer"@,
        "DevOps Engineer"@ != "Platform / Monorepo Engineer"@,
        "GraphQL Engineer"@ != "Developer Tooling Engineer"@,
        "GraphQL Engineer"@ != "WebAssembly Engineer"@,
        "GraphQL Engineer"@ != "Platform / Monorepo Engineer"@,
        "Developer Tooling Engineer"@ != "WebAssembly Engineer"@,
        "Developer Tooling Engineer"@ != "Platform / Monorepo Engineer"@,
        "WebAssembly Engineer"@ != "Platform / Monorepo Engineer"@,
{
    reveal_strlit("Fullstack Engineer");
    reveal_strlit("Frontend Engineer");
    reveal_strlit("Backend API Engineer");
    reveal_strlit("QA & Testing Engineer");
    reveal_strlit("Database Engineer");
    reveal_strlit("DevOps Engineer");
    reveal_strlit("GraphQL Engineer");
    reveal_strlit("Developer Tooling Engineer");
    reveal_strlit("WebAssembly Engineer");
    reveal_strlit("Platform / Monorepo Engineer");
    assert("Fullstack Engineer"@[1] != "Frontend Engineer"@[1]);
    assert("Fullstack Engineer"@[0] != "Backend API Engineer"@[0]);
    assert("Fullstack Engineer"@[0] != "QA & Testing Engineer"@[0]);
    assert("Fullstack Engineer"@[0] != "Database Engineer"@[0]);
    assert("Fullstack Engineer"@[0] != "DevOps Engineer"@[0]);
    assert("Fullstack Engineer"@[0] != "GraphQL Engineer"@[0]);
    assert("Fullstack Engineer"@[0] != "Developer Tooling Engineer"@[0]);
    assert("Fullstack Engineer"@[0] != "WebAssembly Engineer"@[0]);
    assert("Fullstack Engineer"@[0] != "Platform / Monorepo Engineer"@[0]);
    assert("Frontend Engineer"@[0] != "Backend API Engineer"@[0]);
    assert("Frontend Engineer"@[0] != "QA & Testing Engineer"@[0]);
    assert("Frontend Engineer"@[0] != "Database Engineer"@[0]);
    assert("Frontend Engineer"@[0] != "DevOps Engineer"@[0]);
    assert("Frontend Engineer"@[0] != "GraphQL Engineer"@[0]);
    assert("Frontend Engineer"@[0] != "Developer Tooling Engineer"@[0]);
    assert("Frontend Engineer"@[0] != "WebAssembly Engineer"@[0]);
    assert("Frontend Engineer"@[0] != "Platform / Monorepo Engineer"@[0]);
    assert("Backend API Engineer"@[0] != "QA & Testing Engineer"@[0]);
    assert("Backend API Engineer"@[0] != "Database Engineer"@[0]);
    assert("Backend API Engineer"@[0] != "DevOps Engineer"@[0]);
    assert("Backend API Engineer"@[0] != "GraphQL Engineer"@[0]);
    assert("Backend API Engineer"@[0] != "Developer Tooling Engineer"@[0]);
    assert("Backend API Engineer"@[0] != "WebAssembly Engineer"@[0]);
    assert("Backend API Engineer"@[0] != "Platform / Monorepo Engineer"@[0]);
    assert("QA & Testing Engineer"@[0] != "Database Engineer"@[0]);
    assert("QA & Testing Engineer"@[0] != "DevOps Engineer"@[0]);
    assert("QA & Testing Engineer"@[0] != "GraphQL Engineer"@[0]);
    assert("QA & Testing Engineer"@[0] != "Developer Tooling Engineer"@[0]);
    assert("QA & Testing Engineer"@[0] != "WebAssembly Engineer"@[0]);
    assert("QA & Testing Engineer"@[0] != "Platform / Monorepo Engineer"@[0]);
    assert("Database Engineer"@[1] != "DevOps Engineer"@[1]);
    assert("Database Engineer"@[0] != "GraphQL Engineer"@[0]);
    assert("Database Engineer"@[1] != "Developer Tooling Engineer"@[1]);
    assert("Database Engineer"@[0] != "WebAssembly Engineer"@[0]);
    assert("Database Engineer"@[0] != "Platform / Monorepo Engineer"@[0]);
    assert("DevOps Engineer"@[0] != "GraphQL Engineer"@[0]);
    assert("DevOps Engineer"@[3] != "Developer Tooling Engineer"@[3]);
    assert("DevOps Engineer"@[0] != "WebAssembly Engineer"@[0]);
    assert("DevOps Engineer"@[0] != "Platform / Monorepo Engineer"@[0]);
    assert("GraphQL Engineer"@[0] != "Developer Tooling Engineer"@[0]);
    assert("GraphQL Engineer"@[0] != "WebAssembly Engineer"@[0]);
    assert("GraphQL Engineer"@[0] != "Platform / Monorepo Engineer"@[0]);
    assert("Developer Tooling Engineer"@[0] != "WebAssembly Engineer"@[0]);
    assert("Developer Tooling Engineer"@[0] != "Platform / Monorepo Engineer"@[0]);
    assert("WebAssembly Engineer"@[0] != "Platform / Monorepo Engineer"@[0]);
}

/// Laws of role mapping: full-stack and front-end are never both assigned; DevOps is
/// assigned exactly when Docker or CI is present; the platform role is assigned exactly
/// for a monorepo with at least two other roles; no role is assigned twice.
#[verifier::rlimit(80)]
#[verifier::spinoff_prover]
pub proof fn lemma_role_laws(s: Seq<Skill>, arch: ArchMeta)
    ensures
        !(roles_of(s, arch).contains("Fullstack Engineer"@) && roles_of(s, arch).contains(
            "Frontend Engineer"@,
        )),
        roles_of(s, arch).contains("DevOps Engineer"@) <==> (arch.has_docker || arch.has_ci),
        roles_of(s, arch).contains("Platform / Monorepo Engineer"@) <==> (arch.has_monorepo
            && base_roles(s, arch).len() >= 2),
        roles_of(s, arch).no_duplicates(),
{
    lemma_role_names_distinct();
    let u = ui_roles(s);
    let p1 = role_if(has_backend(s), "Backend API Engineer");
    let p2 = role_if(has_testing(s), "QA & Testing Engineer");
    let p3 = role_if(has_database(s), "Database Engineer");
    let p4 = role_if(arch.has_docker || arch.has_ci, "DevOps Engineer");
    let p5 = role_if(has_role_skill(s, "GraphQL"), "GraphQL Engineer");
    let p6 = role_if(has_role_skill(s, "Rust CLI"), "Developer Tooling Engineer");
    let p7 = role_if(has_role_skill(s, "WebAssembly"), "WebAssembly Engineer");
    let b1 = u + p1;
    let b2 = b1 + p2;
    let b3 = b2 + p3;
    let b4 = b3 + p4;
    let b5 = b4 + p5;
    let b6 = b5 + p6;
    let b7 = b6 + p7;
    assert(b7 == base_roles(s, arch));
    assert forall|x: Seq<char>|
        #![trigger b7.contains(x)]
        b7.contains(x) <==> (u.contains(x) || p1.contains(x) || p2.contains(x) || p3.contains(x)
            || p4.contains(x) || p5.contains(x) || p6.contains(x) || p7.contains(x)) by {
        lemma_concat_contains(u, p1, x);
        lemma_concat_contains(b1, p2, x);
        lemma_concat_contains(b2, p3, x);
        lemma_concat_contains(b3, p4, x);
        lemma_concat_contains(b4, p5, x);
        lemma_concat_contains(b5, p6, x);
        lemma_concat_contains(b6, p7, x);
    }
    lemma_parts(s, arch, seq![]);
    lemma_role_if(has_backend(s), "Backend API Engineer", seq![]);
    lemma_role_if(has_testing(s), "QA & Testing Engineer", seq![]);
    lemma_role_if(has_database(s), "Database Engineer", seq![]);
    lemma_role_if(arch.has_docker || arch.has_ci, "DevOps Engineer", seq![]);
    lemma_role_if(has_role_skill(s, "GraphQL"), "GraphQL Engineer", seq![]);
    lemma_role_if(has_role_skill(s, "Rust CLI"), "Developer Tooling Engineer", seq![]);
    lemma_role_if(has_role_skill(s, "WebAssembly"), "WebAssembly Engineer", seq![]);
    assert forall|x: Seq<char>| u.contains(x) implies !p1.contains(x) by {
        lemma_parts(s, arch, x);
    }
    lemma_concat_no_dup(u, p1);
    assert forall|x: Seq<char>| b1.contains(x) implies !p2.contains(x) by {
        lemma_parts(s, arch, x);
        lemma_concat_contains(u, p1, x);
    }
    lemma_concat_no_dup(b1, p2);
    assert forall|x: Seq<char>| b2.contains(x) implies !p3.contains(x) by {
        lemma_parts(s, arch, x);
        lemma_concat_contains(u, p1, x);
        lemma_concat_contains(b1, p2, x);
    }
    lemma_concat_no_dup(b2, p3);
    assert forall|x: Seq<char>| b3.contains(x) implies !p4.contains(x) by {
        lemma_parts(s, arch, x);
        lemma_concat_contains(u, p1, x);
        lemma_concat_contains(b1, p2, x);
        lemma_concat_contains(b2, p3, x);
    }
    lemma_concat_no_dup(b3, p4);
    assert forall|x: Seq<char>| b4.contains(x) implies !p5.contains(x) by {
        lemma_parts(s, arch, x);
        lemma_concat_contains(u, p1, x);
        lemma_concat_contains(b1, p2, x);
        lemma_concat_contains(b2, p3, x);
        lemma_concat_contains(b3, p4, x);
    }
    lemma_concat_no_dup(b4, p5);
    assert forall|x: Seq<char>| b5.contains(x) implies !p6.contains(x) by {
        lemma_parts(s, arch, x);
        lemma_concat_contains(u, p1, x);
        lemma_concat_contains(b1, p2, x);
        lemma_concat_contains(b2, p3, x);
        lemma_concat_contains(b3, p4, x);
        lemma_concat_contains(b4, p5, x);
    }
    lemma_concat_no_dup(b5, p6);
    assert forall|x: Seq<char>| b6.contains(x) implies !p7.contains(x) by {
        lemma_parts(s, arch, x);
        lemma_concat_contains(u, p1, x);
        lemma_concat_contains(b1, p2, x);
        lemma_concat_contains(b2, p3, x);
        lemma_concat_contains(b3, p4, x);
        lemma_concat_contains(b4, p5, x);
        lemma_concat_contains(b5, p6, x);
    }
    lemma_concat_no_dup(b6, p7);
    let r = roles_of(s, arch);
    let plat = seq!["Platform / Monorepo Engineer"@];
    assert(plat[0] == "Platform / Monorepo Engineer"@);
    lemma_parts(s, arch, "Fullstack Engineer"@);
    lemma_parts(s, arch, "Frontend Engineer"@);
    lemma_parts(s, arch, "DevOps Engineer"@);
    lemma_parts(s, arch, "Platform / Monorepo Engineer"@);
    assert(b7.contains("Fullstack Engineer"@) ==> u.contains("Fullstack Engineer"@));
    assert(b7.contains("Frontend Engineer"@) ==> u.contains("Frontend Engineer"@));
    assert(!b7.contains("Platform / Monorepo Engineer"@));
    if arch.has_monorepo && b7.len() >= 2 {
        assert(r == b7 + plat);
        assert forall|x: Seq<char>| b7.contains(x) implies !plat.contains(x) by {
            if plat.contains(x) {
                let k = choose|k: int| 0 <= k < plat.len() && plat[k] == x;
                assert(x == "Platform / Monorepo Engineer"@);
            }
        }
        lemma_concat_no_dup(b7, plat);
        lemma_concat_contains(b7, plat, "Fullstack Engineer"@);
        lemma_concat_contains(b7, plat, "Frontend Engineer"@);
        lemma_concat_contains(b7, plat, "DevOps Engineer"@);
        lemma_concat_contains(b7, plat, "Platform / Monorepo Engineer"@);
    }
}

#[verifier::rlimit(80)]
#[verifier::spinoff_prover]
proof fn lemma_ui_member(s: Seq<Skill>, arch: ArchMeta, x: Seq<char>)
    requires
        x == "Fullstack Engineer"@ || x == "Frontend Engineer"@,
    ensures
        roles_of(s, arch).contains(x) <==> ui_roles(s).contains(x),
{
    lemma_role_names_distinct();
    let u = ui_roles(s);
    let p1 = role_if(has_backend(s), "Backend API Engineer");
    let p2 = role_if(has_testing(s), "QA & Testing Engineer");
    let p3 = role_if(has_database(s), "Database Engineer");
    let p4 = role_if(arch.has_docker || arch.has_ci, "DevOps Engineer");
    let p5 = role_if(has_role_skill(s, "GraphQL"), "GraphQL Engineer");
    let p6 = role_if(has_role_skill(s, "Rust CLI"), "Developer Tooling Engineer");
    let p7 = role_if(has_role_skill(s, "WebAssembly"), "WebAssembly Engineer");
    let b1 = u + p1;
    let b2 = b1 + p2;
    let b3 = b2 + p3;
    let b4 = b3 + p4;
    let b5 = b4 + p5;
    let b6 = b5 + p6;
    let b7 = b6 + p7;
    assert(b7 == base_roles(s, arch));
    lemma_parts(s, arch, x);
    lemma_concat_contains(u, p1, x);
    lemma_concat_contains(b1, p2, x);
    lemma_concat_contains(b2, p3, x);
    lemma_concat_contains(b3, p4, x);
    lemma_concat_contains(b4, p5, x);
    lemma_concat_contains(b5, p6, x);
    lemma_concat_contains(b6, p7, x);
    let plat = seq!["Platform / Monorepo Engineer"@];
    lemma_concat_contains(b7, plat, x);
    if plat.contains(x) {
        let k = choose|k: int| 0 <= k < plat.len() && plat[k] == x;
        assert(x == "Platform / Monorepo Engineer"@);
    }
    if arch.has_monorepo && b7.len() >= 2 {
        assert(roles_of(s, arch) =~= b7 + plat);
    }
}

/// The UI role law: the full-stack role is assigned exactly when a server-side
/// rendering framework is present, the front-end role exactly when a UI framework is
/// present and none of those; whichever is assigned comes first.
pub proof fn lemma_ui_role(s: Seq<Skill>, arch: ArchMeta)
    ensures
        roles_of(s, arch).contains("Fullstack Engineer"@) <==> ssr_signal(s),
        roles_of(s, arch).contains("Frontend Engineer"@) <==> (!ssr_signal(s) && ui_signal(s)),
        ssr_signal(s) ==> roles_of(s, arch)[0] == "Fullstack Engineer"@,
        !ssr_signal(s) && ui_signal(s) ==> roles_of(s, arch)[0] == "Frontend Engineer"@,
{
    lemma_role_names_distinct();
    lemma_ui_member(s, arch, "Fullstack Engineer"@);
    lemma_ui_member(s, arch, "Frontend Engineer"@);
    lemma_parts(s, arch, "Fullstack Engineer"@);
    lemma_parts(s, arch, "Frontend Engineer"@);
    let u = ui_roles(s);
    let b = base_roles(s, arch);
    if ssr_signal(s) || ui_signal(s) {
        assert(u.len() == 1);
        assert(b[0] == u[0]);
        assert(roles_of(s, arch)[0] == b[0]);
    }
}

/// Skills below the inclusion confidence never call for a role: with no confident skill
/// and neither Docker nor CI, no role at all is assigned.
pub proof fn lemma_unconfident_skills_give_no_roles(s: Seq<Skill>, arch: ArchMeta)
    requires
        forall|i: int| 0 <= i < s.len() ==> (#[trigger] s[i]).confidence < 50,
        !arch.has_docker,
        !arch.has_ci,
    ensures
        roles_of(s, arch).len() == 0,
{
    assert forall|n: Seq<char>| !has_skill_spec(s, n, 50) by {}
    assert(ui_roles(s).len() == 0);
    assert(base_roles(s, arch) =~= Seq::<Seq<char>>::empty());
}


#[verifier::rlimit(80)]
#[verifier::spinoff_prover]
proof fn lemma_roles_contains(s: Seq<Skill>, arch: ArchMeta, x: Seq<char>)
    requires
        x != "Platform / Monorepo Engineer"@,
    ensures
        roles_of(s, arch).contains(x) <==> (ui_roles(s).contains(x) || (has_backend(s) && x == "Backend API Engineer"@)
            || (has_testing(s) && x == "QA & Testing Engineer"@) || (has_database(s) && x == "Database Engineer"@)
            || ((arch.has_docker || arch.has_ci) && x == "DevOps Engineer"@) || (has_role_skill(s, "GraphQL")
            && x == "GraphQL Engineer"@) || (has_role_skill(s, "Rust CLI") && x == "Developer Tooling Engineer"@)
            || (has_role_skill(s, "WebAssembly") && x == "WebAssembly Engineer"@)),
{
    let u = ui_roles(s);
    let p1 = role_if(has_backend(s), "Backend API Engineer");
    let p2 = role_if(has_testing(s), "QA & Testing Engineer");
    let p3 = role_if(has_database(s), "Database Engineer");
    let p4 = role_if(arch.has_docker || arch.has_ci, "DevOps Engineer");
    let p5 = role_if(has_role_skill(s, "GraphQL"), "GraphQL Engineer");
    let p6 = role_if(has_role_skill(s, "Rust CLI"), "Developer Tooling Engineer");
    let p7 = role_if(has_role_skill(s, "WebAssembly"), "WebAssembly Engineer");
    let b1 = u + p1;
    let b2 = b1 + p2;
    let b3 = b2 + p3;
    let b4 = b3 + p4;
    let b5 = b4 + p5;
    let b6 = b5 + p6;
    let b7 = b6 + p7;
    assert(b7 == base_roles(s, arch));
    lemma_parts(s, arch, x);
    lemma_concat_contains(u, p1, x);
    lemma_concat_contains(b1, p2, x);
    lemma_concat_contains(b2, p3, x);
    lemma_concat_contains(b3, p4, x);
    lemma_concat_contains(b4, p5, x);
    lemma_concat_contains(b5, p6, x);
    lemma_concat_contains(b6, p7, x);
    let plat = seq!["Platform / Monorepo Engineer"@];
    lemma_concat_contains(b7, plat, x);
    if plat.contains(x) {
        let k = choose|k: int| 0 <= k < plat.len() && plat[k] == x;
    }
    if arch.has_monorepo && b7.len() >= 2 {
        assert(roles_of(s, arch) =~= b7 + plat);
    }
}

/// Which roles a stack calls for, in terms of the skills at inclusion confidence
/// (names compared ignoring case):
/// - "Fullstack Engineer" exactly when one names SSR, Next.js, Nuxt, Remix or Gatsby;
/// - "Frontend Engineer" exactly when none does and one names React, Vue, Svelte,
///   Angular or Astro;
/// - "Backend API Engineer" exactly when one names API Server, Express, Fastify, Hono,
///   Koa, Axum, Actix, NestJS, Warp, Rocket or Elysia;
/// - "QA & Testing Engineer" exactly when one names Testing, Vitest, Jest, Playwright or
///   Cypress;
/// - "Database Engineer" exactly when one names Database, Prisma, SQLx, Diesel,
///   Drizzle, TypeORM, Mongoose or SeaORM;
/// - "DevOps Engineer" exactly when Docker or CI is present;
/// - "GraphQL Engineer", "Developer Tooling Engineer", "WebAssembly Engineer" exactly
///   when one names GraphQL, Rust CLI, WebAssembly respectively.
pub proof fn lemma_roles_by_skill(s: Seq<Skill>, arch: ArchMeta)
    ensures
        roles_of(s, arch).contains("Fullstack Engineer"@) <==> (has_skill_spec(s, "SSR"@, 50)
            || has_skill_spec(s, "Next.js"@, 50) || has_skill_spec(s, "Nuxt"@, 50) || has_skill_spec(s, "Remix"@, 50)
            || has_skill_spec(s, "Gatsby"@, 50)),
        roles_of(s, arch).contains("Frontend Engineer"@) <==> (!(has_skill_spec(s, "SSR"@, 50)
            || has_skill_spec(s, "Next.js"@, 50) || has_skill_spec(s, "Nuxt"@, 50) || has_skill_spec(s, "Remix"@, 50)
            || has_skill_spec(s, "Gatsby"@, 50)) && (has_skill_spec(s, "React"@, 50) || has_skill_spec(s, "Vue"@, 50)
            || has_skill_spec(s, "Svelte"@, 50) || has_skill_spec(s, "Angular"@, 50) || has_skill_spec(s, "Astro"@, 50))),
        roles_of(s, arch).contains("Backend API Engineer"@) <==> (has_skill_spec(s, "API Server"@, 50)
            || has_skill_spec(s, "Express"@, 50) || has_skill_spec(s, "Fastify"@, 50) || has_skill_spec(s, "Hono"@, 50)
            || has_skill_spec(s, "Koa"@, 50) || has_skill_spec(s, "Axum"@, 50) || has_skill_spec(s, "Actix"@, 50)
            || has_skill_spec(s, "NestJS"@, 50) || has_skill_spec(s, "Warp"@, 50) || has_skill_spec(s, "Rocket"@, 50)
            || has_skill_spec(s, "Elysia"@, 50)),
        roles_of(s, arch).contains("QA & Testing Engineer"@) <==> (has_skill_spec(s, "Testing"@, 50)
            || has_skill_spec(s, "Vitest"@, 50) || has_skill_spec(s, "Jest"@, 50) || has_skill_spec(s, "Playwright"@, 50)
            || has_skill_spec(s, "Cypress"@, 50)),
        roles_of(s, arch).contains("Database Engineer"@) <==> (has_skill_spec(s, "Database"@, 50)
            || has_skill_spec(s, "Prisma"@, 50) || has_skill_spec(s, "SQLx"@, 50) || has_skill_spec(s, "Diesel"@, 50)
            || has_skill_spec(s, "Drizzle"@, 50) || has_skill_spec(s, "TypeORM"@, 50) || has_skill_spec(s, "Mongoose"@, 50)
            || has_skill_spec(s, "SeaORM"@, 50)),
        roles_of(s, arch).contains("DevOps Engineer"@) <==> (arch.has_docker || arch.has_ci),
        roles_of(s, arch).contains("GraphQL Engineer"@) <==> has_skill_spec(s, "GraphQL"@, 50),
        roles_of(s, arch).contains("Developer Tooling Engineer"@) <==> has_skill_spec(s, "Rust CLI"@, 50),
        roles_of(s, arch).contains("WebAssembly Engineer"@) <==> has_skill_spec(s, "WebAssembly"@, 50),
{
    lemma_role_names_distinct();
    lemma_roles_contains(s, arch, "Fullstack Engineer"@);
    lemma_roles_contains(s, arch, "Frontend Engineer"@);
    lemma_roles_contains(s, arch, "Backend API Engineer"@);
    lemma_roles_contains(s, arch, "QA & Testing Engineer"@);
    lemma_roles_contains(s, arch, "Database Engineer"@);
    lemma_roles_contains(s, arch, "DevOps Engineer"@);
    lemma_roles_contains(s, arch, "GraphQL Engineer"@);
    lemma_roles_contains(s, arch, "Developer Tooling Engineer"@);
    lemma_roles_contains(s, arch, "WebAssembly Engineer"@);
    let u = ui_roles(s);
    if u.len() > 0 {
        assert(u.contains(u[0]));
    }
    assert(u.contains("Fullstack Engineer"@) <==> ssr_signal(s));
    assert(u.contains("Frontend Engineer"@) <==> (!ssr_signal(s) && ui_signal(s)));
    assert(!u.contains("Backend API Engineer"@) && !u.contains("QA & Testing Engineer"@)
        && !u.contains("Database Engineer"@) && !u.contains("DevOps Engineer"@) && !u.contains("GraphQL Engineer"@)
        && !u.contains("Developer Tooling Engineer"@) && !u.contains("WebAssembly Engineer"@));
}

} // verus!
