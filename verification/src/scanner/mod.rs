//! Scanning a repository: the folder map, the pattern tokens and the signal files.
//!
//! The file system is read by the caller, which hands over what it found; the scan
//! decides what the result holds.

pub mod signal;
pub mod walker;

use vstd::prelude::*;
use crate::config::Config;
use crate::error::RepoIntelError;
use crate::folder_map::{remove_spec, keys_distinct, has_key, lemma_remove};
use crate::order::{views, strictly_sorted, sorted_set};
use crate::scanner::signal::{readme_excerpt, readme_excerpt_of};
use crate::scanner::walker::{WalkEntry, walk, walk_folders, walk_tokens, opt_view_eq, lemma_walk_folders};
use crate::text::{trim_suffix_char_all, trim_end_matches_char};
use crate::types::{ScanResult, SignalFile};

verus! {

/// What the caller found on disk for one scan.
pub struct ScanInput {
    /// The root that was asked for.
    pub root: String,
    /// The root exists.
    pub root_exists: bool,
    /// The root is a directory.
    pub root_is_dir: bool,
    /// The entries of the walk below the root, in walk order.
    pub entries: Vec<WalkEntry>,
    /// The signal files found by the walk, with their contents.
    pub signal_files: Vec<SignalFile>,
}

/// `e` with each folder named in `exclude` removed (a trailing `/` of a name ignored).
pub open spec fn exclude_folders(
    e: Seq<(Seq<char>, Seq<Seq<char>>)>,
    exclude: Seq<Seq<char>>,
) -> Seq<(Seq<char>, Seq<Seq<char>>)>
    decreases exclude.len(),
{
    if exclude.len() == 0 {
        e
    } else {
        remove_spec(exclude_folders(e, exclude.drop_last()), trim_suffix_char_all(exclude.last(), '/'))
    }
}

/// Excluding folders leaves none of the excluded names in the map, keeps every other
/// folder with its file list unchanged, adds nothing, and keeps folder names distinct.
pub proof fn lemma_exclude_folders(e: Seq<(Seq<char>, Seq<Seq<char>>)>, exclude: Seq<Seq<char>>)
    requires
        keys_distinct(e),
    ensures
        keys_distinct(exclude_folders(e, exclude)),
        forall|i: int| 0 <= i < exclude.len() ==> !has_key(exclude_folders(e, exclude), trim_suffix_char_all(#[trigger] exclude[i], '/')),
        forall|x: Seq<char>|
            (forall|i: int| 0 <= i < exclude.len() ==> x != trim_suffix_char_all(#[trigger] exclude[i], '/'))
                ==> (has_key(exclude_folders(e, exclude), x) <==> has_key(e, x)),
        forall|j: int| 0 <= j < exclude_folders(e, exclude).len() ==> e.contains(#[trigger] exclude_folders(e, exclude)[j]),
        forall|j: int| 0 <= j < e.len() && (forall|i: int| 0 <= i < exclude.len() ==> (#[trigger] e[j]).0 != trim_suffix_char_all(#[trigger] exclude[i], '/'))
            ==> exclude_folders(e, exclude).contains(e[j]),
    decreases exclude.len(),
{
    if exclude.len() > 0 {
        let p = exclude.drop_last();
        lemma_exclude_folders(e, p);
        let k = trim_suffix_char_all(exclude.last(), '/');
        lemma_remove(exclude_folders(e, p), k);
        assert forall|i: int| 0 <= i < exclude.len() implies !has_key(exclude_folders(e, exclude), trim_suffix_char_all(#[trigger] exclude[i], '/')) by {
            if i < p.len() {
                assert(exclude[i] == p[i]);
            }
        }
        let q = exclude_folders(e, p);
        let r = exclude_folders(e, exclude);
        assert forall|j: int| 0 <= j < r.len() implies e.contains(#[trigger] r[j]) by {
            assert(q.contains(r[j]));
            let m = choose|m: int| 0 <= m < q.len() && q[m] == r[j];
            assert(e.contains(q[m]));
        }
        assert forall|j: int| 0 <= j < e.len() && (forall|i: int| 0 <= i < exclude.len() ==> (#[trigger] e[j]).0 != trim_suffix_char_all(#[trigger] exclude[i], '/'))
            implies r.contains(e[j]) by {
            assert forall|i: int| 0 <= i < p.len() implies e[j].0 != trim_suffix_char_all(#[trigger] p[i], '/') by {
                assert(p[i] == exclude[i]);
                assert(e[j].0 != trim_suffix_char_all(exclude[i], '/'));
            }
            assert(q.contains(e[j]));
            assert(e[j].0 != trim_suffix_char_all(exclude[exclude.len() - 1], '/'));
            let m = choose|m: int| 0 <= m < q.len() && q[m] == e[j];
            assert(q[m].0 != k);
        }
        assert forall|x: Seq<char>|
            (forall|i: int| 0 <= i < exclude.len() ==> x != trim_suffix_char_all(#[trigger] exclude[i], '/'))
            implies (has_key(exclude_folders(e, exclude), x) <==> has_key(e, x)) by {
            assert(x != trim_suffix_char_all(exclude[exclude.len() - 1], '/'));
            assert forall|i: int| 0 <= i < p.len() implies x != trim_suffix_char_all(#[trigger] p[i], '/') by {
                assert(p[i] == exclude[i]);
            }
        }
    }
}

/// Scanning honours the exclude list: no excluded folder name is in the folder map, and
/// every other folder the walk recorded is.
pub proof fn lemma_scan_excludes(entries: Seq<WalkEntry>, exclude: Seq<Seq<char>>)
    ensures
        forall|i: int|
            0 <= i < exclude.len() ==> !has_key(exclude_folders(walk_folders(entries), exclude), trim_suffix_char_all(#[trigger] exclude[i], '/')),
        forall|x: Seq<char>|
            (forall|i: int| 0 <= i < exclude.len() ==> x != trim_suffix_char_all(#[trigger] exclude[i], '/'))
                ==> (has_key(exclude_folders(walk_folders(entries), exclude), x) <==> has_key(walk_folders(entries), x)),
{
    lemma_walk_folders(entries);
    lemma_exclude_folders(walk_folders(entries), exclude);
}

/// Scans the root described by `input`: refuses a missing root or a root that is not a
/// directory; otherwise builds the folder map (without the configured exclusions), the
/// sorted distinct pattern tokens, and the README excerpt.
pub fn scan(input: ScanInput, cfg: &Config) -> (r: Result<ScanResult, RepoIntelError>)
    ensures
        !input.root_exists ==> (r matches Err(RepoIntelError::RootNotFound { path }) && path@ == input.root@),
        input.root_exists && !input.root_is_dir ==> (r matches Err(RepoIntelError::RootNotDirectory { path })
            && path@ == input.root@),
        input.root_exists && input.root_is_dir ==> r is Ok,
        r matches Ok(sr) ==> {
            &&& sr.root@ == input.root@
            &&& sr.folder_map@ == exclude_folders(walk_folders(input.entries@), views(cfg.project.exclude@))
            &&& views(sr.file_patterns@) == sorted_set(walk_tokens(input.entries@))
            &&& strictly_sorted(views(sr.file_patterns@))
            &&& forall|t: Seq<char>| views(sr.file_patterns@).contains(t) <==> walk_tokens(input.entries@).contains(t)
            &&& sr.signal_files@ == input.signal_files@
            &&& opt_view_eq(sr.readme_excerpt, readme_excerpt_of(input.signal_files@))
        },
{
    if !input.root_exists {
        return Err(RepoIntelError::RootNotFound { path: input.root });
    }
    if !input.root_is_dir {
        return Err(RepoIntelError::RootNotDirectory { path: input.root });
    }
    let (mut folder_map, file_patterns) = walk(&input.entries);
    let ex = &cfg.project.exclude;
    let n = ex.len();
    let mut i: usize = 0;
    assert(views(ex@).take(0) =~= Seq::<Seq<char>>::empty());
    while i < n
        invariant
            n == ex@.len(),
            i <= n,
            folder_map@ == exclude_folders(walk_folders(input.entries@), views(ex@).take(i as int)),
        decreases n - i,
    {
        let key = trim_end_matches_char(ex[i].as_str(), '/');
        folder_map.remove(key.as_str());
        assert(views(ex@).take(i + 1).drop_last() =~= views(ex@).take(i as int));
        assert(views(ex@).take(i + 1).last() == ex@[i as int]@);
        i = i + 1;
    }
    assert(views(ex@).take(n as int) =~= views(ex@));
    let excerpt = readme_excerpt(&input.signal_files);
    Ok(ScanResult {
        root: input.root,
        signal_files: input.signal_files,
        folder_map,
        file_patterns,
        readme_excerpt: excerpt,
    })
}

} // verus!
