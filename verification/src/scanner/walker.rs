//! Walking the directory tree: which folders count, and which pattern tokens a file yields.
//!
//! The tree itself is read elsewhere; this module decides, entry by entry, what the
//! walk records.

use vstd::prelude::*;
use crate::detector::str_views;
use crate::folder_map::{FolderMap, register_spec, push_child_spec, keys_distinct, key_index, lemma_key_index, lemma_register, lemma_push_child};
use crate::order::{views, strictly_sorted, sorted_set, sorted_unique};
use crate::text::{has_suffix, ends_with, str_eq, concat_str, owned};

verus! {

/// Maximum directory depth of the walk.
pub const DEPTH_CAP: usize = 8;

/// Directory names that are never walked into.
pub open spec fn skip_dirs() -> Seq<Seq<char>> {
    seq![
        "node_modules"@,
        "vendor"@,
        ".venv"@,
        "__pycache__"@,
        "dist"@,
        "build"@,
        "target"@,
        "out"@,
        ".output"@,
        "storybook-static"@,
        ".next"@,
        ".nuxt"@,
        ".svelte-kit"@,
        ".angular"@,
        ".turbo"@,
        ".cache"@,
        ".git"@,
        "coverage"@,
        "tests"@,
        "test"@,
        "__tests__"@,
        "spec"@,
        "workflows"@,
        "docs"@,
        "doc"@,
        "examples"@,
        "example"@,
        "demo"@,
        "demos"@,
        "bench"@,
        "benches"@,
        "benchmark"@,
        "benchmarks"@,
        "turbopack"@,
        "webpack"@,
        ".webpack"@,
        "tmp"@,
        "temp"@,
        ".tmp"@,
        "fixtures"@,
        "repo-intel-linux-x64"@,
        "repo-intel-darwin-arm64"@,
        "repo-intel-darwin-x64"@,
        "repo-intel-win32-x64"@,
    ]
}

/// Whether a directory named `name` is never walked into.
pub fn is_skip_dir_name(name: &str) -> (r: bool)
    ensures
        r == skip_dirs().contains(name@),
{
    let list = vec![
        "node_modules",
        "vendor",
        ".venv",
        "__pycache__",
        "dist",
        "build",
        "target",
        "out",
        ".output",
        "storybook-static",
        ".next",
        ".nuxt",
        ".svelte-kit",
        ".angular",
        ".turbo",
        ".cache",
        ".git",
        "coverage",
        "tests",
        "test",
        "__tests__",
        "spec",
        "workflows",
        "docs",
        "doc",
        "examples",
        "example",
        "demo",
        "demos",
        "bench",
        "benches",
        "benchmark",
        "benchmarks",
        "turbopack",
        "webpack",
        ".webpack",
        "tmp",
        "temp",
        ".tmp",
        "fixtures",
        "repo-intel-linux-x64",
        "repo-intel-darwin-arm64",
        "repo-intel-darwin-x64",
        "repo-intel-win32-x64",
    ];
    assert(str_views(list@) =~= skip_dirs());
    let n = list.len();
    let mut i: usize = 0;
    while i < n
        invariant
            n == list@.len(),
            str_views(list@) == skip_dirs(),
            i <= n,
            forall|j: int| 0 <= j < i ==> skip_dirs()[j] != name@,
        decreases n - i,
    {
        if str_eq(list[i], name) {
            assert(skip_dirs()[i as int] == name@);
            return true;
        }
        i = i + 1;
    }
    false
}

/// Whether a walk entry is a directory that is skipped entirely.
pub fn is_skip_dir(is_dir: bool, name: &str) -> (r: bool)
    ensures
        r == (is_dir && skip_dirs().contains(name@)),
{
    is_dir && is_skip_dir_name(name)
}

/// A directory name is noisy when its UTF-8 form is at most one byte long (it is
/// empty or a single ASCII character), or it starts with an ASCII digit, `(` or `[`.
pub open spec fn noisy_name(name: Seq<char>) -> bool {
    ||| name.len() == 0
    ||| name.len() == 1 && (name[0] as u32) < 128
    ||| ('0' <= name[0] && name[0] <= '9') || name[0] == '(' || name[0] == '['
}

/// Whether a directory name is noise to keep out of the folder map: single-character
/// names, numbered folders (`01-components`), Next.js route groups (`(auth)`) and
/// dynamic segments (`[slug]`).
pub fn is_noisy_dir_name(name: &str) -> (r: bool)
    ensures
        r == noisy_name(name@),
{
    let n = name.unicode_len();
    if n == 0 {
        return true;
    }
    let c = name.get_char(0);
    if n == 1 && (c as u32) < 128 {
        return true;
    }
    ('0' <= c && c <= '9') || c == '(' || c == '['
}

/// The extension of a file name as `Path::extension` gives it: the text after the last
/// `.`, unless there is no `.`, the only `.` is the first character, or the name is `..`.
pub open spec fn extension_of(name: Seq<char>) -> Option<Seq<char>> {
    if name == seq!['.', '.'] {
        None
    } else {
        let k = last_dot(name);
        if k <= 0 {
            None
        } else {
            Some(name.skip(k + 1))
        }
    }
}

/// Index of the last `.` in `s`, or -1.
pub open spec fn last_dot(s: Seq<char>) -> int
    decreases s.len(),
{
    if s.len() == 0 {
        -1
    } else if s.last() == '.' {
        s.len() - 1
    } else {
        last_dot(s.drop_last())
    }
}

proof fn lemma_last_dot(s: Seq<char>, k: int)
    requires
        -1 <= k < s.len(),
        k >= 0 ==> s[k] == '.',
        forall|j: int| k < j < s.len() ==> s[j] != '.',
    ensures
        last_dot(s) == k,
    decreases s.len(),
{
    if s.len() > 0 && k < s.len() - 1 {
        lemma_last_dot(s.drop_last(), k);
    }
}

/// The extension of file name `name`, as `Path::extension` gives it.
pub fn extension(name: &str) -> (r: Option<String>)
    ensures
        opt_view_eq(r, extension_of(name@)),
{
    let c = crate::text::chars_of(name);
    let n = c.len();
    if n == 2 && c[0] == '.' && c[1] == '.' {
        assert(name@ =~= seq!['.', '.']);
        return None;
    }
    assert(name@ != seq!['.', '.']);
    let mut k: usize = n;
    while k > 0 && c[k - 1] != '.'
        invariant
            n == c@.len(),
            c@ == name@,
            k <= n,
            forall|j: int| k <= j < n ==> c@[j] != '.',
        decreases k,
    {
        k = k - 1;
    }
    proof { lemma_last_dot(name@, k - 1); }
    if k <= 1 {
        None
    } else {
        assert(name@.skip(k as int) =~= name@.subrange(k as int, n as int));
        Some(name.substring_char(k, n).to_owned())
    }
}

/// `r` holds the characters of `o`.
pub open spec fn opt_view_eq(r: Option<String>, o: Option<Seq<char>>) -> bool {
    match r {
        Some(s) => o == Some(s@),
        None => o is None,
    }
}

/// Compound suffixes, checked in this order; the first that a file name ends with
/// yields a `*suffix` token.
pub open spec fn compound_suffixes() -> Seq<Seq<char>> {
    seq![
        ".test.ts"@,
        ".test.tsx"@,
        ".test.js"@,
        ".spec.ts"@,
        ".spec.tsx"@,
        ".spec.js"@,
        ".stories.tsx"@,
        ".stories.ts"@,
        ".stories.jsx"@,
        ".service.ts"@,
        ".controller.ts"@,
        ".schema.ts"@,
        ".model.ts"@,
        ".graphql"@,
        ".gql"@,
    ]
}

/// Notable file names, recorded verbatim.
pub open spec fn notable_names() -> Seq<Seq<char>> {
    seq![
        "Dockerfile"@,
        "docker-compose.yml"@,
        "docker-compose.yaml"@,
        ".env"@,
        ".env.example"@,
        "jest.config.ts"@,
        "jest.config.js"@,
        "vitest.config.ts"@,
        "vite.config.ts"@,
        "next.config.js"@,
        "next.config.ts"@,
        "tailwind.config.ts"@,
        "tailwind.config.js"@,
        "prisma"@,
        "schema.prisma"@,
        "go.sum"@,
    ]
}

/// Index of the first suffix of `suffixes` that `name` ends with, or -1.
pub open spec fn first_suffix(name: Seq<char>, suffixes: Seq<Seq<char>>) -> int
    decreases suffixes.len(),
{
    if suffixes.len() == 0 {
        -1
    } else {
        let f = first_suffix(name, suffixes.drop_last());
        if f >= 0 {
            f
        } else if has_suffix(name, suffixes.last()) {
            suffixes.len() - 1
        } else {
            -1
        }
    }
}

proof fn lemma_first_suffix(name: Seq<char>, suffixes: Seq<Seq<char>>, k: int)
    requires
        0 <= k <= suffixes.len(),
        forall|j: int| 0 <= j < k ==> !has_suffix(name, #[trigger] suffixes[j]),
        k < suffixes.len() ==> has_suffix(name, suffixes[k]),
    ensures
        first_suffix(name, suffixes) == if k < suffixes.len() { k } else { -1 },
    decreases suffixes.len(),
{
    if suffixes.len() > 0 {
        let p = suffixes.drop_last();
        if k < suffixes.len() - 1 {
            assert forall|j: int| 0 <= j < k implies !has_suffix(name, #[trigger] p[j]) by {
                assert(p[j] == suffixes[j]);
            }
            assert(p[k] == suffixes[k]);
            lemma_first_suffix(name, p, k);
        } else {
            assert forall|j: int| 0 <= j < p.len() implies !has_suffix(name, #[trigger] p[j]) by {
                assert(p[j] == suffixes[j]);
            }
            lemma_first_suffix(name, p, p.len() as int);
        }
    }
}

/// The pattern tokens that a file named `name` yields, in order: its extension with a
/// leading `.`, the first matching compound suffix with a leading `*`, and the name
/// itself when it is notable.
pub open spec fn file_tokens(name: Seq<char>) -> Seq<Seq<char>> {
    (match extension_of(name) {
        Some(e) => seq![seq!['.'] + e],
        None => Seq::empty(),
    }) + (if first_suffix(name, compound_suffixes()) >= 0 {
        seq![seq!['*'] + compound_suffixes()[first_suffix(name, compound_suffixes())]]
    } else {
        Seq::empty()
    }) + (if notable_names().contains(name) {
        seq![name]
    } else {
        Seq::empty()
    })
}

fn first_suffix_index(name: &str, suffixes: &Vec<&str>) -> (k: usize)
    ensures
        k <= suffixes@.len(),
        first_suffix(name@, str_views(suffixes@)) == if k < suffixes@.len() { k as int } else { -1 },
{
    let n = suffixes.len();
    let mut i: usize = 0;
    while i < n
        invariant
            n == suffixes@.len(),
            i <= n,
            forall|j: int| 0 <= j < i ==> !has_suffix(name@, #[trigger] str_views(suffixes@)[j]),
        decreases n - i,
    {
        if ends_with(name, suffixes[i]) {
            proof { lemma_first_suffix(name@, str_views(suffixes@), i as int); }
            return i;
        }
        i = i + 1;
    }
    proof { lemma_first_suffix(name@, str_views(suffixes@), n as int); }
    n
}

/// Whether `name` is one of `list`.
pub(crate) fn list_contains(list: &Vec<&str>, name: &str) -> (r: bool)
    ensures
        r == str_views(list@).contains(name@),
{
    let n = list.len();
    let mut i: usize = 0;
    while i < n
        invariant
            n == list@.len(),
            i <= n,
            forall|j: int| 0 <= j < i ==> str_views(list@)[j] != name@,
        decreases n - i,
    {
        if str_eq(list[i], name) {
            assert(str_views(list@)[i as int] == name@);
            return true;
        }
        i = i + 1;
    }
    false
}

/// Appends to `patterns` the pattern tokens that a file named `name` yields.
pub fn collect_file_pattern(name: &str, patterns: &mut Vec<String>)
    ensures
        views(final(patterns)@) == views(old(patterns)@) + file_tokens(name@),
{
    let ghost start = views(patterns@);
    proof {
        reveal_strlit(".");
        reveal_strlit("*");
        assert("."@ =~= seq!['.']);
        assert("*"@ =~= seq!['*']);
    }
    if let Some(ext) = extension(name) {
        let t = concat_str(".", ext.as_str());
        patterns.push(t);
    }
    let ghost a = views(patterns@);
    assert(a =~= start + (match extension_of(name@) {
        Some(e) => seq![seq!['.'] + e],
        None => Seq::<Seq<char>>::empty(),
    }));
    let suffixes = vec![
        ".test.ts",
        ".test.tsx",
        ".test.js",
        ".spec.ts",
        ".spec.tsx",
        ".spec.js",
        ".stories.tsx",
        ".stories.ts",
        ".stories.jsx",
        ".service.ts",
        ".controller.ts",
        ".schema.ts",
        ".model.ts",
        ".graphql",
        ".gql",
    ];
    assert(str_views(suffixes@) =~= compound_suffixes());
    let k = first_suffix_index(name, &suffixes);
    if k < suffixes.len() {
        let t = concat_str("*", suffixes[k]);
        patterns.push(t);
    }
    let ghost b = views(patterns@);
    assert(b =~= a + (if first_suffix(name@, compound_suffixes()) >= 0 {
        seq![seq!['*'] + compound_suffixes()[first_suffix(name@, compound_suffixes())]]
    } else {
        Seq::<Seq<char>>::empty()
    }));
    let notable = vec![
        "Dockerfile",
        "docker-compose.yml",
        "docker-compose.yaml",
        ".env",
        ".env.example",
        "jest.config.ts",
        "jest.config.js",
        "vitest.config.ts",
        "vite.config.ts",
        "next.config.js",
        "next.config.ts",
        "tailwind.config.ts",
        "tailwind.config.js",
        "prisma",
        "schema.prisma",
        "go.sum",
    ];
    assert(str_views(notable@) =~= notable_names());
    if list_contains(&notable, name) {
        patterns.push(owned(name));
    }
    assert(views(patterns@) =~= b + (if notable_names().contains(name@) {
        seq![name@]
    } else {
        Seq::<Seq<char>>::empty()
    }));
}

/// One entry met by the directory walk.
#[derive(Debug, Clone)]
pub struct WalkEntry {
    /// The entry is a directory.
    pub is_dir: bool,
    /// The entry's own name.
    pub name: String,
    /// The name of the directory that holds the entry (empty when it has none).
    pub parent_name: String,
}

/// The folder map that the walk records for `entries`: every directory with a
/// non-noisy name is registered; every file is added to its parent's list unless the
/// parent's name is noisy.
pub open spec fn walk_folders(entries: Seq<WalkEntry>) -> Seq<(Seq<char>, Seq<Seq<char>>)>
    decreases entries.len(),
{
    if entries.len() == 0 {
        Seq::empty()
    } else {
        let prev = walk_folders(entries.drop_last());
        let e = entries.last();
        if e.is_dir {
            if noisy_name(e.name@) {
                prev
            } else {
                register_spec(prev, e.name@)
            }
        } else if noisy_name(e.parent_name@) {
            prev
        } else {
            push_child_spec(prev, e.parent_name@, e.name@)
        }
    }
}

/// The pattern tokens of all files among `entries`, in walk order (with repeats).
pub open spec fn walk_tokens(entries: Seq<WalkEntry>) -> Seq<Seq<char>>
    decreases entries.len(),
{
    if entries.len() == 0 {
        Seq::empty()
    } else if entries.last().is_dir {
        walk_tokens(entries.drop_last())
    } else {
        walk_tokens(entries.drop_last()) + file_tokens(entries.last().name@)
    }
}

/// The walk never records a noisy folder name, and records each folder once.
pub proof fn lemma_walk_folders(entries: Seq<WalkEntry>)
    ensures
        keys_distinct(walk_folders(entries)),
        forall|i: int| 0 <= i < walk_folders(entries).len() ==> !noisy_name((#[trigger] walk_folders(entries)[i]).0),
    decreases entries.len(),
{
    if entries.len() > 0 {
        let p = walk_folders(entries.drop_last());
        lemma_walk_folders(entries.drop_last());
        let e = entries.last();
        let r = walk_folders(entries);
        if e.is_dir && !noisy_name(e.name@) {
            lemma_register(p, e.name@);
            lemma_key_index(p, e.name@);
            assert forall|i: int| 0 <= i < r.len() implies !noisy_name((#[trigger] r[i]).0) by {
                if i < p.len() {
                    assert(r[i] == p[i]);
                }
            }
        } else if !e.is_dir && !noisy_name(e.parent_name@) {
            lemma_push_child(p, e.parent_name@, e.name@);
            lemma_key_index(p, e.parent_name@);
            assert forall|i: int| 0 <= i < r.len() implies !noisy_name((#[trigger] r[i]).0) by {
                if i < p.len() && i != key_index(p, e.parent_name@) {
                    assert(r[i] == p[i]);
                }
            }
        }
    }
}

/// Folds the walk's entries into the folder map and the pattern tokens. The tokens
/// come out sorted, each once.
pub fn walk(entries: &Vec<WalkEntry>) -> (r: (FolderMap, Vec<String>))
    ensures
        r.0@ == walk_folders(entries@),
        views(r.1@) == sorted_set(walk_tokens(entries@)),
        strictly_sorted(views(r.1@)),
        forall|t: Seq<char>| views(r.1@).contains(t) <==> walk_tokens(entries@).contains(t),
{
    let mut folder_map = FolderMap::new();
    let mut tokens: Vec<String> = Vec::new();
    let n = entries.len();
    let mut i: usize = 0;
    assert(entries@.take(0) =~= Seq::<WalkEntry>::empty());
    while i < n
        invariant
            n == entries@.len(),
            i <= n,
            folder_map@ == walk_folders(entries@.take(i as int)),
            views(tokens@) == walk_tokens(entries@.take(i as int)),
        decreases n - i,
    {
        let e = &entries[i];
        assert(entries@.take(i + 1).drop_last() =~= entries@.take(i as int));
        assert(entries@.take(i + 1).last() == entries@[i as int]);
        if e.is_dir {
            if !is_noisy_dir_name(e.name.as_str()) {
                folder_map.register_dir(e.name.clone());
            }
        } else {
            if !is_noisy_dir_name(e.parent_name.as_str()) {
                folder_map.push_child(e.parent_name.clone(), e.name.clone());
            }
            collect_file_pattern(e.name.as_str(), &mut tokens);
        }
        i = i + 1;
    }
    assert(entries@.take(n as int) =~= entries@);
    let sorted = sorted_unique(&tokens);
    (folder_map, sorted)
}

/// Signals from hidden directories that the walk leaves out.
#[derive(Debug, Default, PartialEq, Eq, Structural, Clone, Copy)]
pub struct HiddenSignals {
    pub has_git: bool,
    /// `.github/workflows/` exists
    pub has_ci: bool,
    /// `.github/` exists
    pub has_github: bool,
    /// `.packages/` exists
    pub has_packages: bool,
}

/// Decides the hidden signals from what was found at the root: `.git/`, `.github/`,
/// `.github/workflows/` and `.packages/` being directories. CI counts only inside an
/// existing `.github/`.
pub fn probe_hidden_signals(git_dir: bool, github_dir: bool, workflows_dir: bool, packages_dir: bool) -> (r: HiddenSignals)
    ensures
        r.has_git == git_dir,
        r.has_github == github_dir,
        r.has_ci == (github_dir && workflows_dir),
        r.has_packages == packages_dir,
{
    let mut signals = HiddenSignals { has_git: false, has_ci: false, has_github: false, has_packages: false };
    if git_dir {
        signals.has_git = true;
    }
    if github_dir {
        signals.has_github = true;
        if workflows_dir {
            signals.has_ci = true;
        }
    }
    if packages_dir {
        signals.has_packages = true;
    }
    signals
}

} // verus!
