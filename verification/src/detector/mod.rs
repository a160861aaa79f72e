//! Stack detection: three layers of rules (dependencies, folders, file patterns)
//! merged into one `StackResult`.

pub mod rules;
pub mod deps;
pub mod folders;
pub mod patterns;

use vstd::prelude::*;
use crate::text::{opt_view, has_prefix, starts_with, owned, contains_seq, contains, trim_prefix_all, trim_suffix_char_all, trim_start_matches, trim_end_matches_char, before_first, after_first, before_first_char, after_first_char, str_eq};
use crate::types::{Skill, SkillView, skill_views, ScanResult, StackResult, SignalFile};
use crate::error::RepoIntelError;
use crate::folder_map::{keys_of, all_files};
use crate::order::views;
use crate::detector::deps::{deps_layer, detect_from_deps};
use crate::detector::folders::{folders_layer, detect_from_folders, arch_style_of, infer_arch_style};
use crate::detector::patterns::{patterns_layer, detect_from_patterns};
use crate::detector::rules::copy_source;

verus! {

/// Skills below this confidence are left out of the output.
pub const INCLUDE_THRESHOLD: u8 = 50;

/// Skills at or above this confidence are primary skills.
pub const PRIMARY_THRESHOLD: u8 = 90;

/// A copy of `s` that says the same.
pub fn copy_skill(s: &Skill) -> (r: Skill)
    ensures
        r@ == s@,
{
    Skill { name: s.name.clone(), confidence: s.confidence, source: copy_source(&s.source) }
}

/// Index of the last skill in `acc` named `name`, or -1.
pub open spec fn index_of_name(acc: Seq<SkillView>, name: Seq<char>) -> int
    decreases acc.len(),
{
    if acc.len() == 0 {
        -1
    } else if acc.last().name == name {
        acc.len() - 1
    } else {
        index_of_name(acc.drop_last(), name)
    }
}

/// Adds one detection to the merged list: a new name is appended; a known name is
/// replaced only by a detection of strictly higher confidence.
pub open spec fn merge_step(acc: Seq<SkillView>, s: SkillView) -> Seq<SkillView> {
    let i = index_of_name(acc, s.name);
    if i < 0 {
        acc.push(s)
    } else if s.confidence > acc[i].confidence {
        acc.update(i, s)
    } else {
        acc
    }
}

/// All detections merged, one entry per skill name, in order of first detection.
pub open spec fn merge_all(s: Seq<SkillView>) -> Seq<SkillView>
    decreases s.len(),
{
    if s.len() == 0 {
        Seq::empty()
    } else {
        merge_step(merge_all(s.drop_last()), s.last())
    }
}

proof fn lemma_index_of_name(acc: Seq<SkillView>, name: Seq<char>)
    ensures
        -1 <= index_of_name(acc, name) < acc.len(),
        index_of_name(acc, name) >= 0 ==> acc[index_of_name(acc, name)].name == name,
        index_of_name(acc, name) < 0 ==> forall|j: int| 0 <= j < acc.len() ==> acc[j].name != name,
    decreases acc.len(),
{
    if acc.len() > 0 {
        lemma_index_of_name(acc.drop_last(), name);
        assert forall|j: int| 0 <= j < acc.len() - 1 implies acc[j] == acc.drop_last()[j] by {}
    }
}

fn find_name(acc: &Vec<Skill>, name: &String) -> (r: Option<usize>)
    ensures
        match r {
            Some(i) => i as int == index_of_name(skill_views(acc@), name@),
            None => index_of_name(skill_views(acc@), name@) < 0,
        },
{
    let ghost v = skill_views(acc@);
    let mut k: usize = acc.len();
    assert(v.take(k as int) =~= v);
    while k > 0
        invariant
            k <= acc@.len(),
            v == skill_views(acc@),
            index_of_name(v, name@) == index_of_name(v.take(k as int), name@),
        decreases k,
    {
        assert(v.take(k as int).last() == acc@[k - 1]@);
        if acc[k - 1].name == *name {
            return Some(k - 1);
        }
        assert(v.take(k as int).drop_last() =~= v.take(k - 1));
        k = k - 1;
    }
    None
}

/// Merges the detections of all layers: one entry per skill name, keeping the
/// detection of highest confidence (the first of them on a tie).
pub fn merge_skills(layers: &Vec<Skill>) -> (r: Vec<Skill>)
    ensures
        skill_views(r@) == merge_all(skill_views(layers@)),
{
    let ghost input = skill_views(layers@);
    let mut acc: Vec<Skill> = Vec::new();
    let n = layers.len();
    let mut i: usize = 0;
    assert(input.take(0) =~= Seq::<SkillView>::empty());
    while i < n
        invariant
            n == layers@.len(),
            i <= n,
            input == skill_views(layers@),
            skill_views(acc@) == merge_all(input.take(i as int)),
        decreases n - i,
    {
        let s = &layers[i];
        let ghost before = skill_views(acc@);
        proof { lemma_index_of_name(before, s.name@); }
        match find_name(&acc, &s.name) {
            Some(j) => {
                if s.confidence > acc[j].confidence {
                    acc.set(j, copy_skill(s));
                    assert(skill_views(acc@) =~= before.update(j as int, s@));
                }
            },
            None => {
                acc.push(copy_skill(s));
                assert(skill_views(acc@) =~= before.push(s@));
            },
        }
        assert(input.take(i + 1).drop_last() =~= input.take(i as int));
        assert(input.take(i + 1).last() == s@);
        i = i + 1;
    }
    assert(input.take(n as int) =~= input);
    acc
}

/// The skills of `s` whose confidence is exactly `c`, in order.
pub open spec fn at_level(s: Seq<SkillView>, c: int) -> Seq<SkillView>
    decreases s.len(),
{
    if s.len() == 0 {
        Seq::empty()
    } else if s.last().confidence == c {
        at_level(s.drop_last(), c).push(s.last())
    } else {
        at_level(s.drop_last(), c)
    }
}

/// The skills of `s` with confidence from `hi` down to `lo`, highest level first,
/// keeping their order within a level.
pub open spec fn levels(s: Seq<SkillView>, lo: int, hi: int) -> Seq<SkillView>
    decreases hi - lo + 1,
{
    if lo > hi {
        Seq::empty()
    } else {
        levels(s, lo + 1, hi) + at_level(s, lo)
    }
}

/// The skills of `s` at or above the inclusion threshold, by confidence, highest first
/// (a stable sort).
pub open spec fn ranked(s: Seq<SkillView>) -> Seq<SkillView> {
    levels(s, INCLUDE_THRESHOLD as int, 255)
}

/// Keeps the skills of `skills` at or above the inclusion threshold, sorted by
/// confidence from highest to lowest, equal confidences keeping their order.
pub fn rank_skills(skills: &Vec<Skill>) -> (r: Vec<Skill>)
    ensures
        skill_views(r@) == ranked(skill_views(skills@)),
{
    let ghost s = skill_views(skills@);
    let mut out: Vec<Skill> = Vec::new();
    let n = skills.len();
    let mut c: u16 = 256;
    while c > INCLUDE_THRESHOLD as u16
        invariant
            INCLUDE_THRESHOLD as u16 <= c <= 256,
            n == skills@.len(),
            s == skill_views(skills@),
            skill_views(out@) == levels(s, c as int, 255),
        decreases c,
    {
        c = c - 1;
        let ghost prefix = skill_views(out@);
        let mut i: usize = 0;
        assert(s.take(0) =~= Seq::<SkillView>::empty());
        assert(skill_views(out@) =~= prefix + at_level(s.take(0), c as int));
        while i < n
            invariant
                n == skills@.len(),
                i <= n,
                s == skill_views(skills@),
                c < 256,
                skill_views(out@) == prefix + at_level(s.take(i as int), c as int),
            decreases n - i,
        {
            let ghost before = skill_views(out@);
            assert(s.take(i + 1).drop_last() =~= s.take(i as int));
            assert(s.take(i + 1).last() == skills@[i as int]@);
            if skills[i].confidence as u16 == c {
                out.push(copy_skill(&skills[i]));
                assert(skill_views(out@) =~= before.push(skills@[i as int]@));
            }
            i = i + 1;
        }
        assert(s.take(n as int) =~= s);
    }
    out
}

/// Merged entries have pairwise distinct names.
pub open spec fn names_distinct(m: Seq<SkillView>) -> bool {
    forall|i: int, j: int| 0 <= i < j < m.len() ==> (#[trigger] m[i]).name != (#[trigger] m[j]).name
}

proof fn lemma_merge_distinct(s: Seq<SkillView>)
    ensures
        names_distinct(merge_all(s)),
    decreases s.len(),
{
    if s.len() > 0 {
        let a = merge_all(s.drop_last());
        let x = s.last();
        lemma_merge_distinct(s.drop_last());
        lemma_index_of_name(a, x.name);
        let m = merge_all(s);
        let idx = index_of_name(a, x.name);
        assert forall|i: int, j: int| 0 <= i < j < m.len() implies (#[trigger] m[i]).name != (#[trigger] m[j]).name by {
            if idx < 0 {
                if j == a.len() {
                    assert(a[i].name != x.name);
                } else {
                    assert(a[i].name != a[j].name);
                }
            } else {
                assert(m[i].name == a[i].name);
                assert(m[j].name == a[j].name);
            }
        }
    }
}

proof fn lemma_merge_from_input(s: Seq<SkillView>)
    ensures
        forall|i: int| 0 <= i < merge_all(s).len() ==> s.contains(#[trigger] merge_all(s)[i]),
    decreases s.len(),
{
    if s.len() > 0 {
        let p = s.drop_last();
        let a = merge_all(p);
        let x = s.last();
        lemma_merge_from_input(p);
        lemma_index_of_name(a, x.name);
        let m = merge_all(s);
        let idx = index_of_name(a, x.name);
        assert forall|i: int| 0 <= i < m.len() implies s.contains(#[trigger] m[i]) by {
            if m[i] == x {
                assert(s[s.len() - 1] == x);
            } else {
                assert(m[i] == a[i]);
                let k = choose|k: int| 0 <= k < p.len() && p[k] == a[i];
                assert(s[k] == p[k]);
            }
        }
    }
}

proof fn lemma_merge_max(s: Seq<SkillView>)
    ensures
        forall|k: int|
            0 <= k < s.len() ==> exists|i: int|
                0 <= i < merge_all(s).len() && (#[trigger] merge_all(s)[i]).name == (#[trigger] s[k]).name
                    && merge_all(s)[i].confidence >= s[k].confidence,
    decreases s.len(),
{
    if s.len() > 0 {
        let p = s.drop_last();
        let a = merge_all(p);
        let x = s.last();
        lemma_merge_max(p);
        lemma_index_of_name(a, x.name);
        let m = merge_all(s);
        let idx = index_of_name(a, x.name);
        assert forall|k: int| 0 <= k < s.len() implies exists|i: int|
            0 <= i < m.len() && (#[trigger] m[i]).name == (#[trigger] s[k]).name && m[i].confidence
                >= s[k].confidence by {
            if k < p.len() {
                assert(s[k] == p[k]);
                let i = choose|i: int|
                    0 <= i < a.len() && (#[trigger] a[i]).name == p[k].name && a[i].confidence
                        >= p[k].confidence;
                assert(m[i].name == a[i].name && m[i].confidence >= a[i].confidence);
            } else if idx < 0 {
                assert(m[a.len() as int] == x);
            } else {
                assert(m[idx].name == x.name);
            }
        }
    }
}

/// `s[k]` is `e`, and no earlier detection of `e`'s name reached `e`'s confidence.
pub open spec fn first_at_max(s: Seq<SkillView>, e: SkillView, k: int) -> bool {
    &&& 0 <= k < s.len()
    &&& s[k] == e
    &&& forall|j: int| 0 <= j < k && (#[trigger] s[j]).name == e.name ==> s[j].confidence < e.confidence
}

/// Some detection `s[k]` is `e` with no earlier detection of its name as confident.
pub open spec fn kept_earliest(s: Seq<SkillView>, e: SkillView) -> bool {
    exists|k: int| first_at_max(s, e, k)
}

proof fn lemma_merge_upper(s: Seq<SkillView>)
    ensures
        forall|i: int, k: int|
            0 <= i < merge_all(s).len() && 0 <= k < s.len() && (#[trigger] s[k]).name == (#[trigger] merge_all(s)[i]).name
                ==> s[k].confidence <= merge_all(s)[i].confidence,
{
    lemma_merge_distinct(s);
    lemma_merge_max(s);
    let m = merge_all(s);
    assert forall|i: int, k: int|
        0 <= i < m.len() && 0 <= k < s.len() && (#[trigger] s[k]).name == (#[trigger] m[i]).name
        implies s[k].confidence <= m[i].confidence by {
        let i2 = choose|i2: int| 0 <= i2 < m.len() && (#[trigger] m[i2]).name == s[k].name && m[i2].confidence >= s[k].confidence;
        if i2 != i {
            if i2 < i {
                assert(m[i2].name != m[i].name);
            } else {
                assert(m[i].name != m[i2].name);
            }
        }
    }
}

#[verifier::rlimit(50)]
#[verifier::spinoff_prover]
proof fn lemma_merge_earliest(s: Seq<SkillView>)
    ensures
        forall|i: int| 0 <= i < merge_all(s).len() ==> kept_earliest(s, #[trigger] merge_all(s)[i]),
    decreases s.len(),
{
    if s.len() > 0 {
        let p = s.drop_last();
        let a = merge_all(p);
        let x = s.last();
        lemma_merge_earliest(p);
        lemma_merge_upper(p);
        lemma_merge_max(p);
        lemma_index_of_name(a, x.name);
        let m = merge_all(s);
        let idx = index_of_name(a, x.name);
        let last = s.len() - 1;
        assert forall|i: int| 0 <= i < m.len() implies kept_earliest(s, #[trigger] m[i]) by {
            if idx < 0 && i == a.len() {
                assert(m[i] == x);
                assert forall|j: int| 0 <= j < last && (#[trigger] s[j]).name == x.name implies s[j].confidence < x.confidence by {
                    assert(s[j] == p[j]);
                    let i2 = choose|i2: int| 0 <= i2 < a.len() && (#[trigger] a[i2]).name == (#[trigger] p[j]).name && a[i2].confidence >= p[j].confidence;
                    assert(a[i2].name != x.name);
                }
                assert(first_at_max(s, m[i], last));
            } else if idx >= 0 && i == idx && x.confidence > a[idx].confidence {
                assert(m[i] == x);
                assert forall|j: int| 0 <= j < last && (#[trigger] s[j]).name == x.name implies s[j].confidence < x.confidence by {
                    assert(s[j] == p[j]);
                    assert(p[j].name == a[idx].name);
                }
                assert(first_at_max(s, m[i], last));
            } else {
                assert(m[i] == a[i]);
                assert(kept_earliest(p, a[i]));
                let k = choose|k: int| first_at_max(p, a[i], k);
                assert forall|j: int| 0 <= j < k && (#[trigger] s[j]).name == a[i].name implies s[j].confidence < a[i].confidence by {
                    assert(s[j] == p[j]);
                }
                assert(s[k] == p[k]);
                assert(first_at_max(s, m[i], k));
            }
        }
        assert(m == merge_all(s));
    } else {
        assert(merge_all(s).len() == 0);
    }
}

/// Merging keeps one entry per skill name, each entry is one of the detections, and
/// the entry of a name has the highest confidence any layer gave that name (the
/// final confidence is the maximum over the layers, not their sum).
pub proof fn lemma_merge_keeps_max(s: Seq<SkillView>)
    ensures
        names_distinct(merge_all(s)),
        forall|i: int| 0 <= i < merge_all(s).len() ==> s.contains(#[trigger] merge_all(s)[i]),
        forall|k: int|
            0 <= k < s.len() ==> exists|i: int|
                0 <= i < merge_all(s).len() && (#[trigger] merge_all(s)[i]).name == (#[trigger] s[k]).name
                    && merge_all(s)[i].confidence >= s[k].confidence,
{
    lemma_merge_distinct(s);
    lemma_merge_from_input(s);
    lemma_merge_max(s);
}

/// Each merged entry has at least the confidence of every detection of its name, and
/// is the earliest detection of its name at that confidence (ties keep the first).
pub proof fn lemma_merge_keeps_earliest_max(s: Seq<SkillView>)
    ensures
        forall|i: int, k: int|
            0 <= i < merge_all(s).len() && 0 <= k < s.len() && (#[trigger] s[k]).name == (#[trigger] merge_all(s)[i]).name
                ==> s[k].confidence <= merge_all(s)[i].confidence,
        forall|i: int| 0 <= i < merge_all(s).len() ==> kept_earliest(s, #[trigger] merge_all(s)[i]),
{
    lemma_merge_upper(s);
    lemma_merge_earliest(s);
}

proof fn lemma_at_level(s: Seq<SkillView>, c: int)
    ensures
        forall|i: int| 0 <= i < at_level(s, c).len() ==> (#[trigger] at_level(s, c)[i]).confidence == c
            && s.contains(at_level(s, c)[i]),
        forall|k: int| 0 <= k < s.len() && (#[trigger] s[k]).confidence == c ==> at_level(s, c).contains(s[k]),
    decreases s.len(),
{
    if s.len() > 0 {
        let p = s.drop_last();
        lemma_at_level(p, c);
        let a = at_level(p, c);
        let r = at_level(s, c);
        assert forall|i: int| 0 <= i < r.len() implies (#[trigger] r[i]).confidence == c && s.contains(r[i]) by {
            if i < a.len() {
                let k = choose|k: int| 0 <= k < p.len() && p[k] == a[i];
                assert(s[k] == p[k]);
            } else {
                assert(s[s.len() - 1] == r[i]);
            }
        }
        assert forall|k: int| 0 <= k < s.len() && (#[trigger] s[k]).confidence == c implies r.contains(s[k]) by {
            if k < p.len() {
                assert(s[k] == p[k]);
                let j = choose|j: int| 0 <= j < a.len() && a[j] == p[k];
                assert(r[j] == a[j]);
            } else {
                assert(r[r.len() - 1] == s[k]);
            }
        }
    }
}

proof fn lemma_levels(s: Seq<SkillView>, lo: int, hi: int)
    ensures
        forall|i: int|
            0 <= i < levels(s, lo, hi).len() ==> lo <= (#[trigger] levels(s, lo, hi)[i]).confidence <= hi
                && s.contains(levels(s, lo, hi)[i]),
        forall|i: int, j: int|
            0 <= i < j < levels(s, lo, hi).len() ==> (#[trigger] levels(s, lo, hi)[i]).confidence
                >= (#[trigger] levels(s, lo, hi)[j]).confidence,
        forall|k: int|
            0 <= k < s.len() && lo <= (#[trigger] s[k]).confidence <= hi ==> levels(s, lo, hi).contains(s[k]),
    decreases hi - lo + 1,
{
    if lo <= hi {
        lemma_levels(s, lo + 1, hi);
        lemma_at_level(s, lo);
        let a = levels(s, lo + 1, hi);
        let b = at_level(s, lo);
        let r = levels(s, lo, hi);
        assert(r == a + b);
        assert forall|i: int| 0 <= i < r.len() implies lo <= (#[trigger] r[i]).confidence <= hi && s.contains(r[i]) by {
            if i >= a.len() {
                assert(r[i] == b[i - a.len()]);
            }
        }
        assert forall|i: int, j: int| 0 <= i < j < r.len() implies (#[trigger] r[i]).confidence >= (#[trigger] r[j]).confidence by {
            if j >= a.len() {
                assert(r[j] == b[j - a.len()]);
                if i >= a.len() {
                    assert(r[i] == b[i - a.len()]);
                }
            }
        }
        assert forall|k: int| 0 <= k < s.len() && lo <= (#[trigger] s[k]).confidence <= hi implies r.contains(s[k]) by {
            if s[k].confidence == lo {
                let j = choose|j: int| 0 <= j < b.len() && b[j] == s[k];
                assert(r[a.len() + j] == s[k]);
            } else {
                let j = choose|j: int| 0 <= j < a.len() && a[j] == s[k];
                assert(r[j] == s[k]);
            }
        }
    }
}

/// Ranking keeps exactly the skills at or above the inclusion threshold, and lists
/// them from highest to lowest confidence.
pub proof fn lemma_ranked(s: Seq<SkillView>)
    ensures
        forall|i: int| 0 <= i < ranked(s).len() ==> (#[trigger] ranked(s)[i]).confidence >= INCLUDE_THRESHOLD
            && s.contains(ranked(s)[i]),
        forall|i: int, j: int|
            0 <= i < j < ranked(s).len() ==> (#[trigger] ranked(s)[i]).confidence >= (#[trigger] ranked(
                s,
            )[j]).confidence,
        forall|k: int|
            0 <= k < s.len() && (#[trigger] s[k]).confidence >= INCLUDE_THRESHOLD ==> ranked(s).contains(s[k]),
{
    lemma_levels(s, INCLUDE_THRESHOLD as int, 255);
}

/// `s` names a skill containing `needle` with confidence at least `min`.
pub open spec fn skill_matches(s: SkillView, needle: Seq<char>, min: int) -> bool {
    contains_seq(s.name, needle) && s.confidence >= min
}

/// Index of the first skill of `sk` that matches `needle` at `min`, or -1.
pub open spec fn first_skill(sk: Seq<SkillView>, needle: Seq<char>, min: int) -> int
    decreases sk.len(),
{
    if sk.len() == 0 {
        -1
    } else {
        let f = first_skill(sk.drop_last(), needle, min);
        if f >= 0 {
            f
        } else if skill_matches(sk.last(), needle, min) {
            sk.len() - 1
        } else {
            -1
        }
    }
}

/// Some skill of `sk` matches `needle` at `min`.
pub open spec fn any_has(sk: Seq<SkillView>, needle: Seq<char>, min: int) -> bool {
    first_skill(sk, needle, min) >= 0
}

proof fn lemma_first_skill(sk: Seq<SkillView>, needle: Seq<char>, min: int)
    ensures
        -1 <= first_skill(sk, needle, min) < sk.len(),
        first_skill(sk, needle, min) >= 0 ==> skill_matches(sk[first_skill(sk, needle, min)], needle, min),
        forall|j: int|
            0 <= j < sk.len() && (first_skill(sk, needle, min) < 0 || j < first_skill(sk, needle, min))
                ==> !skill_matches(#[trigger] sk[j], needle, min),
    decreases sk.len(),
{
    if sk.len() > 0 {
        lemma_first_skill(sk.drop_last(), needle, min);
        assert forall|j: int| 0 <= j < sk.len() - 1 implies sk[j] == sk.drop_last()[j] by {}
    }
}

/// `any_has` holds exactly when some skill matches.
pub proof fn lemma_any_has(sk: Seq<SkillView>, needle: Seq<char>, min: int)
    ensures
        any_has(sk, needle, min) <==> exists|j: int| 0 <= j < sk.len() && skill_matches(#[trigger] sk[j], needle, min),
{
    lemma_first_skill(sk, needle, min);
}

fn first_skill_exec(skills: &Vec<Skill>, needle: &str, min: u8) -> (r: Option<usize>)
    ensures
        match r {
            Some(i) => i as int == first_skill(skill_views(skills@), needle@, min as int) && i
                < skills@.len(),
            None => first_skill(skill_views(skills@), needle@, min as int) < 0,
        },
{
    let ghost sk = skill_views(skills@);
    proof { lemma_first_skill(sk, needle@, min as int); }
    let n = skills.len();
    let mut i: usize = 0;
    while i < n
        invariant
            n == skills@.len(),
            sk == skill_views(skills@),
            i <= n,
            forall|j: int| 0 <= j < i ==> !skill_matches(#[trigger] sk[j], needle@, min as int),
        decreases n - i,
    {
        if skills[i].confidence >= min && contains(skills[i].name.as_str(), needle) {
            assert(skill_matches(sk[i as int], needle@, min as int));
            proof {
                lemma_first_skill(sk, needle@, min as int);
                let f = first_skill(sk, needle@, min as int);
                if 0 <= f < i {
                    assert(!skill_matches(sk[f], needle@, min as int));
                }
            }
            return Some(i);
        }
        i = i + 1;
    }
    None
}

/// Index of the first needle of `needles` that some skill matches at `min`, or -1.
pub open spec fn first_needle(sk: Seq<SkillView>, needles: Seq<Seq<char>>, min: int) -> int
    decreases needles.len(),
{
    if needles.len() == 0 {
        -1
    } else {
        let f = first_needle(sk, needles.drop_last(), min);
        if f >= 0 {
            f
        } else if any_has(sk, needles.last(), min) {
            needles.len() - 1
        } else {
            -1
        }
    }
}

proof fn lemma_first_needle(sk: Seq<SkillView>, needles: Seq<Seq<char>>, min: int)
    ensures
        -1 <= first_needle(sk, needles, min) < needles.len(),
        first_needle(sk, needles, min) >= 0 ==> any_has(sk, needles[first_needle(sk, needles, min)], min),
        forall|j: int|
            0 <= j < needles.len() && (first_needle(sk, needles, min) < 0 || j < first_needle(sk, needles, min))
                ==> !any_has(sk, #[trigger] needles[j], min),
    decreases needles.len(),
{
    if needles.len() > 0 {
        lemma_first_needle(sk, needles.drop_last(), min);
        assert forall|j: int| 0 <= j < needles.len() - 1 implies needles[j] == needles.drop_last()[j] by {}
    }
}

/// The views of a list of string slices.
pub open spec fn str_views(v: Seq<&str>) -> Seq<Seq<char>> {
    v.map_values(|s: &str| s@)
}

fn first_needle_exec(skills: &Vec<Skill>, needles: &Vec<&str>, min: u8) -> (r: Option<usize>)
    ensures
        match r {
            Some(i) => i as int == first_needle(skill_views(skills@), str_views(needles@), min as int)
                && i < needles@.len(),
            None => first_needle(skill_views(skills@), str_views(needles@), min as int) < 0,
        },
{
    let ghost sk = skill_views(skills@);
    let ghost nv = str_views(needles@);
    proof { lemma_first_needle(sk, nv, min as int); }
    let n = needles.len();
    let mut i: usize = 0;
    while i < n
        invariant
            n == needles@.len(),
            nv == str_views(needles@),
            sk == skill_views(skills@),
            i <= n,
            forall|j: int| 0 <= j < i ==> !any_has(sk, #[trigger] nv[j], min as int),
        decreases n - i,
    {
        if first_skill_exec(skills, needles[i], min).is_some() {
            assert(any_has(sk, nv[i as int], min as int));
            proof {
                lemma_first_needle(sk, nv, min as int);
                let f = first_needle(sk, nv, min as int);
                if 0 <= f < i {
                    assert(!any_has(sk, nv[f], min as int));
                }
            }
            return Some(i);
        }
        assert(!any_has(sk, nv[i as int], min as int));
        i = i + 1;
    }
    None
}

/// Language candidates, checked in this order at primary confidence.
pub open spec fn language_needles() -> Seq<Seq<char>> {
    seq!["Rust"@, "Python"@, "Go"@, "Java"@, "C#"@, "Ruby"@, "TypeScript"@]
}

/// The language a `package.json` gives beside Rust: TypeScript when some skill names
/// it, else JavaScript.
pub open spec fn with_rust(sk: Seq<SkillView>) -> Seq<char> {
    if any_has(sk, "TypeScript"@, 0) { "TypeScript + Rust"@ } else { "JavaScript + Rust"@ }
}

/// The primary language: the first candidate that some skill names at primary
/// confidence, except that Rust next to a `package.json` (a `Node.js` skill) gives
/// way to the JavaScript side, as `"TypeScript + Rust"` or `"JavaScript + Rust"`;
/// else TypeScript when any skill names it; else JavaScript when any skill names it;
/// else "Unknown".
pub open spec fn language_of(sk: Seq<SkillView>) -> Seq<char> {
    let k = first_needle(sk, language_needles(), PRIMARY_THRESHOLD as int);
    if k >= 0 {
        if k == 0 && any_has(sk, "Node.js"@, 0) {
            with_rust(sk)
        } else {
            language_needles()[k]
        }
    } else if any_has(sk, "TypeScript"@, 0) {
        "TypeScript"@
    } else if any_has(sk, "JavaScript"@, 0) {
        "JavaScript"@
    } else {
        "Unknown"@
    }
}

fn infer_language(skills: &Vec<Skill>) -> (r: String)
    ensures
        r@ == language_of(skill_views(skills@)),
{
    let candidates = vec!["Rust", "Python", "Go", "Java", "C#", "Ruby", "TypeScript"];
    assert(str_views(candidates@) =~= language_needles());
    match first_needle_exec(skills, &candidates, PRIMARY_THRESHOLD) {
        Some(k) => {
            if k == 0 && first_skill_exec(skills, "Node.js", 0).is_some() {
                if first_skill_exec(skills, "TypeScript", 0).is_some() {
                    owned("TypeScript + Rust")
                } else {
                    owned("JavaScript + Rust")
                }
            } else {
                owned(candidates[k])
            }
        },
        None => {
            if first_skill_exec(skills, "TypeScript", 0).is_some() {
                owned("TypeScript")
            } else if first_skill_exec(skills, "JavaScript", 0).is_some() {
                owned("JavaScript")
            } else {
                owned("Unknown")
            }
        },
    }
}

/// Framework names, in order of priority.
pub open spec fn framework_needles() -> Seq<Seq<char>> {
    seq![
        "Next.js"@,
        "Nuxt.js"@,
        "Remix"@,
        "Astro"@,
        "Gatsby"@,
        "NestJS"@,
        "Rust Web Server (Axum)"@,
        "Rust Web Server (Actix)"@,
        "Node.js API Server (Fastify)"@,
        "Node.js API Server (Express)"@,
        "Node.js API Server (Hono)"@,
        "Vue.js"@,
        "Svelte"@,
        "Angular"@,
        "React"@,
    ]
}

/// A framework skill name without its category: the text inside the first
/// parentheses (`"Rust Web Server (Axum)"` → `"Axum"`), or the name itself.
pub open spec fn clean_name(raw: Seq<char>) -> Seq<char> {
    if raw.contains('(') {
        trim_suffix_char_all(before_first(after_first(raw, '('), '('), ')')
    } else {
        raw
    }
}

/// The cleaned framework name of the first skill matching the highest-priority
/// framework that some skill names at inclusion confidence.
pub open spec fn framework_of(sk: Seq<SkillView>) -> Option<Seq<char>> {
    let k = first_needle(sk, framework_needles(), INCLUDE_THRESHOLD as int);
    if k >= 0 {
        Some(clean_name(sk[first_skill(sk, framework_needles()[k], INCLUDE_THRESHOLD as int)].name))
    } else {
        None
    }
}

/// Cleans a framework skill name: `"Rust Web Server (Axum)"` → `"Axum"`.
pub fn clean_framework_name(raw: &str) -> (r: String)
    ensures
        r@ == clean_name(raw@),
{
    let rc = crate::text::chars_of(raw);
    let mut i: usize = 0;
    while i < rc.len()
        invariant
            rc@ == raw@,
            i <= rc@.len(),
            forall|j: int| 0 <= j < i ==> rc@[j] != '(',
        decreases rc.len() - i,
    {
        if rc[i] == '(' {
            assert(raw@.contains('('));
            let inner = after_first_char(raw, '(');
            let segment = before_first_char(inner.as_str(), '(');
            return trim_end_matches_char(segment.as_str(), ')');
        }
        i = i + 1;
    }
    assert(!raw@.contains('('));
    owned(raw)
}

fn infer_framework(skills: &Vec<Skill>) -> (r: Option<String>)
    ensures
        match r {
            Some(f) => framework_of(skill_views(skills@)) == Some(f@),
            None => framework_of(skill_views(skills@)) is None,
        },
{
    let priority = vec![
        "Next.js",
        "Nuxt.js",
        "Remix",
        "Astro",
        "Gatsby",
        "NestJS",
        "Rust Web Server (Axum)",
        "Rust Web Server (Actix)",
        "Node.js API Server (Fastify)",
        "Node.js API Server (Express)",
        "Node.js API Server (Hono)",
        "Vue.js",
        "Svelte",
        "Angular",
        "React",
    ];
    assert(str_views(priority@) =~= framework_needles());
    let ghost sk = skill_views(skills@);
    match first_needle_exec(skills, &priority, INCLUDE_THRESHOLD) {
        Some(k) => {
            proof {
                lemma_first_needle(sk, framework_needles(), INCLUDE_THRESHOLD as int);
                assert(priority@[k as int]@ == framework_needles()[k as int]);
            }
            match first_skill_exec(skills, priority[k], INCLUDE_THRESHOLD) {
                Some(i) => Some(clean_framework_name(skills[i].name.as_str())),
                None => None,
            }
        },
        None => None,
    }
}

/// Styling options, in order.
pub open spec fn styling_needles() -> Seq<Seq<char>> {
    seq!["Tailwind CSS"@, "Styled Components"@, "Emotion CSS"@, "Sass/SCSS"@, "CSS Modules"@]
}

/// The first styling option that some skill name contains.
pub open spec fn styling_of(sk: Seq<SkillView>) -> Option<Seq<char>> {
    let k = first_needle(sk, styling_needles(), 0);
    if k >= 0 {
        Some(styling_needles()[k])
    } else {
        None
    }
}

fn infer_styling(skills: &Vec<Skill>) -> (r: Option<String>)
    ensures
        match r {
            Some(f) => styling_of(skill_views(skills@)) == Some(f@),
            None => styling_of(skill_views(skills@)) is None,
        },
{
    let options = vec!["Tailwind CSS", "Styled Components", "Emotion CSS", "Sass/SCSS", "CSS Modules"];
    assert(str_views(options@) =~= styling_needles());
    match first_needle_exec(skills, &options, 0) {
        Some(k) => Some(owned(options[k])),
        None => None,
    }
}

/// Index of the first skill of `sk` whose name starts with `p`, or -1.
pub open spec fn first_prefixed(sk: Seq<SkillView>, p: Seq<char>) -> int
    decreases sk.len(),
{
    if sk.len() == 0 {
        -1
    } else {
        let f = first_prefixed(sk.drop_last(), p);
        if f >= 0 {
            f
        } else if has_prefix(sk.last().name, p) {
            sk.len() - 1
        } else {
            -1
        }
    }
}

proof fn lemma_first_prefixed(sk: Seq<SkillView>, p: Seq<char>)
    ensures
        -1 <= first_prefixed(sk, p) < sk.len(),
        first_prefixed(sk, p) >= 0 ==> has_prefix(sk[first_prefixed(sk, p)].name, p),
        forall|j: int|
            0 <= j < sk.len() && (first_prefixed(sk, p) < 0 || j < first_prefixed(sk, p))
                ==> !has_prefix((#[trigger] sk[j]).name, p),
    decreases sk.len(),
{
    if sk.len() > 0 {
        lemma_first_prefixed(sk.drop_last(), p);
        assert forall|j: int| 0 <= j < sk.len() - 1 implies sk[j] == sk.drop_last()[j] by {}
    }
}

/// The state-management library: the text inside `State Management (…)` of the first
/// skill named so.
pub open spec fn state_management_of(sk: Seq<SkillView>) -> Option<Seq<char>> {
    let f = first_prefixed(sk, "State Management ("@);
    if f >= 0 {
        Some(trim_suffix_char_all(trim_prefix_all(sk[f].name, "State Management ("@), ')'))
    } else {
        None
    }
}

fn infer_state_management(skills: &Vec<Skill>) -> (r: Option<String>)
    ensures
        match r {
            Some(f) => state_management_of(skill_views(skills@)) == Some(f@),
            None => state_management_of(skill_views(skills@)) is None,
        },
{
    let ghost sk = skill_views(skills@);
    let n = skills.len();
    let mut i: usize = 0;
    while i < n
        invariant
            n == skills@.len(),
            sk == skill_views(skills@),
            i <= n,
            forall|j: int| 0 <= j < i ==> !has_prefix((#[trigger] sk[j]).name, "State Management ("@),
        decreases n - i,
    {
        if starts_with(skills[i].name.as_str(), "State Management (") {
            proof {
                lemma_first_prefixed(sk, "State Management ("@);
                let f = first_prefixed(sk, "State Management ("@);
                if 0 <= f < i {
                    assert(!has_prefix(sk[f].name, "State Management ("@));
                }
                assert(has_prefix(sk[i as int].name, "State Management ("@));
            }
            let inner = trim_start_matches(skills[i].name.as_str(), "State Management (");
            return Some(trim_end_matches_char(inner.as_str(), ')'));
        }
        i = i + 1;
    }
    proof {
        lemma_first_prefixed(sk, "State Management ("@);
    }
    None
}

/// Testing options, in order.
pub open spec fn testing_needles() -> Seq<Seq<char>> {
    seq!["Testing (Vitest)"@, "Testing (Jest)"@, "E2E Testing (Playwright)"@, "E2E Testing (Cypress)"@]
}

/// Some skill is named exactly `name`.
pub open spec fn has_named(sk: Seq<SkillView>, name: Seq<char>) -> bool {
    exists|j: int| 0 <= j < sk.len() && (#[trigger] sk[j]).name == name
}

/// The testing tool: the first option some skill name contains, with `Testing (` and
/// trailing `)` trimmed; "Unknown" when only a skill named `Testing` exists.
pub open spec fn testing_of(sk: Seq<SkillView>) -> Option<Seq<char>> {
    let k = first_needle(sk, testing_needles(), 0);
    if k >= 0 {
        Some(trim_suffix_char_all(trim_prefix_all(testing_needles()[k], "Testing ("@), ')'))
    } else if has_named(sk, "Testing"@) {
        Some("Unknown"@)
    } else {
        None
    }
}

/// Whether some skill is named exactly `name`.
pub fn has_named_exec(skills: &Vec<Skill>, name: &str) -> (r: bool)
    ensures
        r == has_named(skill_views(skills@), name@),
{
    let n = skills.len();
    let mut i: usize = 0;
    while i < n
        invariant
            n == skills@.len(),
            i <= n,
            forall|j: int| 0 <= j < i ==> (#[trigger] skill_views(skills@)[j]).name != name@,
        decreases n - i,
    {
        if str_eq(skills[i].name.as_str(), name) {
            assert(skill_views(skills@)[i as int].name == name@);
            return true;
        }
        i = i + 1;
    }
    false
}

fn infer_testing(skills: &Vec<Skill>) -> (r: Option<String>)
    ensures
        match r {
            Some(f) => testing_of(skill_views(skills@)) == Some(f@),
            None => testing_of(skill_views(skills@)) is None,
        },
{
    let options = vec!["Testing (Vitest)", "Testing (Jest)", "E2E Testing (Playwright)", "E2E Testing (Cypress)"];
    assert(str_views(options@) =~= testing_needles());
    match first_needle_exec(skills, &options, 0) {
        Some(k) => {
            let inner = trim_start_matches(options[k], "Testing (");
            Some(trim_end_matches_char(inner.as_str(), ')'))
        },
        None => {
            if has_named_exec(skills, "Testing") {
                Some(owned("Unknown"))
            } else {
                None
            }
        },
    }
}

/// Database options, in order.
pub open spec fn database_needles() -> Seq<Seq<char>> {
    seq![
        "Database ORM (Prisma)"@,
        "Database ORM (Drizzle)"@,
        "Database ORM (TypeORM)"@,
        "MongoDB (Mongoose)"@,
        "Rust Database (SQLx)"@,
        "Rust Database (Diesel)"@,
        "PostgreSQL"@,
        "MySQL"@,
        "SQLite"@,
    ]
}

/// The database: the first option some skill name contains, with `Database ORM (`,
/// `Rust Database (` and trailing `)` trimmed.
pub open spec fn database_of(sk: Seq<SkillView>) -> Option<Seq<char>> {
    let k = first_needle(sk, database_needles(), 0);
    if k >= 0 {
        Some(
            trim_suffix_char_all(
                trim_prefix_all(trim_prefix_all(database_needles()[k], "Database ORM ("@), "Rust Database ("@),
                ')',
            ),
        )
    } else {
        None
    }
}

fn infer_database(skills: &Vec<Skill>) -> (r: Option<String>)
    ensures
        match r {
            Some(f) => database_of(skill_views(skills@)) == Some(f@),
            None => database_of(skill_views(skills@)) is None,
        },
{
    let options = vec![
        "Database ORM (Prisma)",
        "Database ORM (Drizzle)",
        "Database ORM (TypeORM)",
        "MongoDB (Mongoose)",
        "Rust Database (SQLx)",
        "Rust Database (Diesel)",
        "PostgreSQL",
        "MySQL",
        "SQLite",
    ];
    assert(str_views(options@) =~= database_needles());
    match first_needle_exec(skills, &options, 0) {
        Some(k) => {
            let a = trim_start_matches(options[k], "Database ORM (");
            let b = trim_start_matches(a.as_str(), "Rust Database (");
            Some(trim_end_matches_char(b.as_str(), ')'))
        },
        None => None,
    }
}

/// The runtime: fixed for Rust, Go and Python, and `"Node.js + Rust (native)"` for a
/// language beside Rust; otherwise Bun when some skill names
/// it, else Deno when some skill names it, else Node.js.
pub open spec fn runtime_of(sk: Seq<SkillView>, language: Seq<char>) -> Seq<char> {
    if language == "Rust"@ {
        "Rust (native)"@
    } else if language == "TypeScript + Rust"@ || language == "JavaScript + Rust"@ {
        "Node.js + Rust (native)"@
    } else if language == "Go"@ {
        "Go runtime"@
    } else if language == "Python"@ {
        "CPython"@
    } else if any_has(sk, "Bun"@, 0) {
        "Bun"@
    } else if any_has(sk, "Deno"@, 0) {
        "Deno"@
    } else {
        "Node.js"@
    }
}

fn infer_runtime(skills: &Vec<Skill>, language: &str) -> (r: String)
    ensures
        r@ == runtime_of(skill_views(skills@), language@),
{
    if str_eq(language, "Rust") {
        owned("Rust (native)")
    } else if str_eq(language, "TypeScript + Rust") || str_eq(language, "JavaScript + Rust") {
        owned("Node.js + Rust (native)")
    } else if str_eq(language, "Go") {
        owned("Go runtime")
    } else if str_eq(language, "Python") {
        owned("CPython")
    } else if first_skill_exec(skills, "Bun", 0).is_some() {
        owned("Bun")
    } else if first_skill_exec(skills, "Deno", 0).is_some() {
        owned("Deno")
    } else {
        owned("Node.js")
    }
}

/// The skills of `s` whose names do not start with `__` (internal markers), in order.
pub open spec fn without_internal(s: Seq<SkillView>) -> Seq<SkillView>
    decreases s.len(),
{
    if s.len() == 0 {
        Seq::empty()
    } else if has_prefix(s.last().name, "__"@) {
        without_internal(s.drop_last())
    } else {
        without_internal(s.drop_last()).push(s.last())
    }
}

fn drop_internal(skills: &Vec<Skill>) -> (r: Vec<Skill>)
    ensures
        skill_views(r@) == without_internal(skill_views(skills@)),
{
    let ghost s = skill_views(skills@);
    let mut out: Vec<Skill> = Vec::new();
    let n = skills.len();
    let mut i: usize = 0;
    assert(s.take(0) =~= Seq::<SkillView>::empty());
    while i < n
        invariant
            n == skills@.len(),
            i <= n,
            s == skill_views(skills@),
            skill_views(out@) == without_internal(s.take(i as int)),
        decreases n - i,
    {
        let ghost before = skill_views(out@);
        assert(s.take(i + 1).drop_last() =~= s.take(i as int));
        assert(s.take(i + 1).last() == skills@[i as int]@);
        if !starts_with(skills[i].name.as_str(), "__") {
            out.push(copy_skill(&skills[i]));
            assert(skill_views(out@) =~= before.push(skills@[i as int]@));
        }
        i = i + 1;
    }
    assert(s.take(n as int) =~= s);
    out
}

proof fn lemma_without_internal(s: Seq<SkillView>)
    ensures
        forall|x: SkillView| #![trigger without_internal(s).contains(x)]
            without_internal(s).contains(x) <==> (s.contains(x) && !has_prefix(x.name, "__"@)),
        names_distinct(s) ==> names_distinct(without_internal(s)),
    decreases s.len(),
{
    if s.len() > 0 {
        let p = s.drop_last();
        let x = s.last();
        lemma_without_internal(p);
        let a = without_internal(p);
        let r = without_internal(s);
        assert forall|y: SkillView| #![trigger r.contains(y)] r.contains(y) <==> (s.contains(y) && !has_prefix(y.name, "__"@)) by {
            if r.contains(y) {
                let k = choose|k: int| 0 <= k < r.len() && r[k] == y;
                if k < a.len() {
                    assert(a[k] == y);
                    assert(a.contains(y));
                    let m = choose|m: int| 0 <= m < p.len() && p[m] == y;
                    assert(s[m] == y);
                } else {
                    assert(s[s.len() - 1] == y);
                }
            }
            if s.contains(y) && !has_prefix(y.name, "__"@) {
                let k = choose|k: int| 0 <= k < s.len() && s[k] == y;
                if k < p.len() {
                    assert(p[k] == y);
                    assert(a.contains(y));
                    let m = choose|m: int| 0 <= m < a.len() && a[m] == y;
                    assert(r[m] == y);
                } else {
                    assert(r[r.len() - 1] == y);
                }
            }
        }
        if names_distinct(s) {
            assert forall|i: int, j: int| 0 <= i < j < p.len() implies (#[trigger] p[i]).name != (#[trigger] p[j]).name by {
                assert(p[i] == s[i] && p[j] == s[j]);
            }
            assert forall|i: int, j: int| 0 <= i < j < r.len() implies (#[trigger] r[i]).name != (#[trigger] r[j]).name by {
                if j >= a.len() {
                    assert(r[j] == x);
                    assert(r[i] == a[i]);
                    assert(a.contains(a[i]));
                    let m = choose|m: int| 0 <= m < p.len() && p[m] == a[i];
                    assert(s[m] == a[i]);
                    assert(s[s.len() - 1] == x);
                } else {
                    assert(r[i] == a[i] && r[j] == a[j]);
                }
            }
        }
    }
}

proof fn lemma_at_level_distinct(s: Seq<SkillView>, c: int)
    requires
        names_distinct(s),
    ensures
        names_distinct(at_level(s, c)),
    decreases s.len(),
{
    if s.len() > 0 {
        let p = s.drop_last();
        assert forall|i: int, j: int| 0 <= i < j < p.len() implies (#[trigger] p[i]).name != (#[trigger] p[j]).name by {
            assert(p[i] == s[i] && p[j] == s[j]);
        }
        lemma_at_level_distinct(p, c);
        lemma_at_level(p, c);
        let a = at_level(p, c);
        let r = at_level(s, c);
        assert forall|i: int, j: int| 0 <= i < j < r.len() implies (#[trigger] r[i]).name != (#[trigger] r[j]).name by {
            if j >= a.len() {
                assert(r[i] == a[i]);
                let m = choose|m: int| 0 <= m < p.len() && p[m] == a[i];
                assert(s[m] == a[i]);
                assert(r[j] == s[s.len() - 1]);
            } else {
                assert(r[i] == a[i] && r[j] == a[j]);
            }
        }
    }
}

proof fn lemma_levels_distinct(s: Seq<SkillView>, lo: int, hi: int)
    requires
        names_distinct(s),
    ensures
        names_distinct(levels(s, lo, hi)),
    decreases hi - lo + 1,
{
    if lo <= hi {
        lemma_levels_distinct(s, lo + 1, hi);
        lemma_levels(s, lo + 1, hi);
        lemma_at_level_distinct(s, lo);
        lemma_at_level(s, lo);
        let a = levels(s, lo + 1, hi);
        let b = at_level(s, lo);
        let r = levels(s, lo, hi);
        assert(r == a + b);
        assert forall|i: int, j: int| 0 <= i < j < r.len() implies (#[trigger] r[i]).name != (#[trigger] r[j]).name by {
            if i < a.len() && j >= a.len() {
                let u = a[i];
                let v = b[j - a.len()];
                assert(r[i] == u && r[j] == v);
                assert(s.contains(u) && s.contains(v));
                let m1 = choose|m: int| 0 <= m < s.len() && s[m] == u;
                let m2 = choose|m: int| 0 <= m < s.len() && s[m] == v;
                assert(u.confidence >= lo + 1 && v.confidence == lo);
                if m1 < m2 {
                    assert(s[m1].name != s[m2].name);
                } else if m2 < m1 {
                    assert(s[m2].name != s[m1].name);
                }
            } else if j < a.len() {
                assert(r[i] == a[i] && r[j] == a[j]);
            } else {
                assert(r[i] == b[i - a.len()] && r[j] == b[j - a.len()]);
            }
        }
    }
}

/// What detection reports of the merged detections `m` (one entry per name, see
/// `lemma_merge_keeps_max`): exactly the merged entries at or above the inclusion
/// threshold whose names do not start with `__`, each with its merged confidence,
/// names pairwise distinct, highest confidence first.
pub proof fn lemma_detect_reports_merged(s: Seq<SkillView>)
    ensures
        forall|x: SkillView| #![trigger ranked(without_internal(merge_all(s))).contains(x)]
            ranked(without_internal(merge_all(s))).contains(x) <==> (merge_all(s).contains(x)
                && x.confidence >= INCLUDE_THRESHOLD && !has_prefix(x.name, "__"@)),
        names_distinct(ranked(without_internal(merge_all(s)))),
        forall|i: int, j: int|
            0 <= i < j < ranked(without_internal(merge_all(s))).len() ==> (#[trigger] ranked(without_internal(merge_all(s)))[i]).confidence
                >= (#[trigger] ranked(without_internal(merge_all(s)))[j]).confidence,
{
    let m = merge_all(s);
    let w = without_internal(m);
    let r = ranked(w);
    lemma_merge_distinct(s);
    lemma_without_internal(m);
    lemma_ranked(w);
    lemma_levels_distinct(w, INCLUDE_THRESHOLD as int, 255);
    assert forall|x: SkillView| #![trigger r.contains(x)]
        r.contains(x) <==> (m.contains(x) && x.confidence >= INCLUDE_THRESHOLD && !has_prefix(x.name, "__"@)) by {
        if r.contains(x) {
            let k = choose|k: int| 0 <= k < r.len() && r[k] == x;
            assert(w.contains(r[k]));
        }
        if m.contains(x) && x.confidence >= INCLUDE_THRESHOLD && !has_prefix(x.name, "__"@) {
            assert(w.contains(x));
            let k = choose|k: int| 0 <= k < w.len() && w[k] == x;
            assert(r.contains(w[k]));
        }
    }
}

/// The file-pattern inputs of a scan: its pattern tokens, then the names of all files
/// of its folder map.
pub open spec fn pattern_inputs(fm: Seq<(Seq<char>, Seq<Seq<char>>)>, tokens: Seq<Seq<char>>) -> Seq<Seq<char>> {
    tokens + all_files(fm)
}

/// The skills that detection reports for the given signal files, folder map and
/// pattern tokens: all three layers merged (maximum confidence per name), internal
/// markers dropped, then ranked. Layer 3 reads the tokens and every file name.
pub open spec fn detect_skills_from(files: Seq<SignalFile>, fm: Seq<(Seq<char>, Seq<Seq<char>>)>, tokens: Seq<Seq<char>>) -> Seq<SkillView> {
    ranked(without_internal(merge_all(deps_layer(files) + folders_layer(keys_of(fm)) + patterns_layer(pattern_inputs(fm, tokens)))))
}

/// The skills that detection reports for a scan.
pub open spec fn detected_skills(scan: ScanResult) -> Seq<SkillView> {
    detect_skills_from(scan.signal_files@, scan.folder_map@, views(scan.file_patterns@))
}

/// The stack fields are those that `skills` determine.
pub open spec fn stack_fields_of(st: StackResult, skills: Seq<SkillView>) -> bool {
    &&& st.language@ == language_of(skills)
    &&& opt_view(st.framework) == framework_of(skills)
    &&& opt_view(st.styling) == styling_of(skills)
    &&& opt_view(st.state_management) == state_management_of(skills)
    &&& opt_view(st.testing) == testing_of(skills)
    &&& opt_view(st.database) == database_of(skills)
    &&& opt_view(st.runtime) == Some(runtime_of(skills, language_of(skills)))
}

/// Runs the three detection layers on a scan and merges them into a `StackResult`.
pub fn detect(scan: &ScanResult) -> (r: Result<StackResult, RepoIntelError>)
    ensures
        match r {
            Ok(st) => {
                &&& skill_views(st.skills@) == detected_skills(*scan)
                &&& stack_fields_of(st, skill_views(st.skills@))
                &&& st.architecture_style == Some(arch_style_of(keys_of(scan.folder_map@)))
                &&& forall|i: int| 0 <= i < st.skills@.len() ==> (#[trigger] st.skills@[i]).confidence >= INCLUDE_THRESHOLD
                &&& forall|i: int, j: int|
                    0 <= i < j < st.skills@.len() ==> (#[trigger] st.skills@[i]).confidence
                        >= (#[trigger] st.skills@[j]).confidence
            },
            Err(_) => false,
        },
{
    let mut all = detect_from_deps(&scan.signal_files);
    let ghost l1 = skill_views(all@);
    let mut layer2 = detect_from_folders(&scan.folder_map);
    let mut inputs = scan.file_patterns.clone();
    let ghost tk = inputs@;
    let mut names = scan.folder_map.file_names();
    inputs.append(&mut names);
    assert(views(inputs@) =~= pattern_inputs(scan.folder_map@, views(scan.file_patterns@))) by {
        assert(views(tk) =~= views(scan.file_patterns@)) by {
            assert forall|i: int| 0 <= i < tk.len() implies tk[i]@ == scan.file_patterns@[i]@ by {
                assert(cloned::<String>(scan.file_patterns@[i], tk[i]));
            }
        }
    }
    let mut layer3 = detect_from_patterns(&inputs);
    let ghost l2 = skill_views(layer2@);
    let ghost l3 = skill_views(layer3@);
    let ghost a0 = all@;
    all.append(&mut layer2);
    let ghost a1 = all@;
    all.append(&mut layer3);
    assert(skill_views(all@) =~= l1 + l2 + l3) by {
        assert(skill_views(a1) =~= l1 + l2);
    }
    let merged = merge_skills(&all);
    let public = drop_internal(&merged);
    let skills = rank_skills(&public);
    proof {
        lemma_ranked(skill_views(public@));
        assert forall|i: int| 0 <= i < skills@.len() implies (#[trigger] skills@[i]).confidence >= INCLUDE_THRESHOLD by {
            assert(skill_views(skills@)[i] == skills@[i]@);
        }
        assert forall|i: int, j: int| 0 <= i < j < skills@.len() implies (#[trigger] skills@[i]).confidence
            >= (#[trigger] skills@[j]).confidence by {
            assert(skill_views(skills@)[i] == skills@[i]@);
            assert(skill_views(skills@)[j] == skills@[j]@);
        }
    }
    let arch_style = infer_arch_style(&scan.folder_map);
    let language = infer_language(&skills);
    let framework = infer_framework(&skills);
    let styling = infer_styling(&skills);
    let state_management = infer_state_management(&skills);
    let testing = infer_testing(&skills);
    let database = infer_database(&skills);
    let runtime = infer_runtime(&skills, language.as_str());
    let st = StackResult {
        language,
        framework,
        styling,
        state_management,
        testing,
        database,
        runtime: Some(runtime),
        skills,
        architecture_style: Some(arch_style),
    };
    Ok(st)
}


/// Some skill's name contains `needle`.
pub open spec fn named_in(st: StackResult, needle: Seq<char>) -> bool {
    exists|j: int| 0 <= j < st.skills@.len() && contains_seq((#[trigger] st.skills@[j]).name@, needle)
}

proof fn lemma_named_in(st: StackResult, needle: Seq<char>)
    ensures
        any_has(skill_views(st.skills@), needle, 0) <==> named_in(st, needle),
{
    let sk = skill_views(st.skills@);
    lemma_any_has(sk, needle, 0);
    if named_in(st, needle) {
        let j = choose|j: int| 0 <= j < st.skills@.len() && contains_seq((#[trigger] st.skills@[j]).name@, needle);
        assert(skill_matches(sk[j], needle, 0));
    }
    if any_has(sk, needle, 0) {
        let j = choose|j: int| 0 <= j < sk.len() && skill_matches(#[trigger] sk[j], needle, 0);
        assert(sk[j].name == st.skills@[j].name@);
    }
}

/// The runtime of a detected stack follows its language: "CPython" for Python, "Go
/// runtime" for Go, "Rust (native)" for Rust, "Node.js + Rust (native)" for a
/// JavaScript-side language beside Rust; for any other language it is a JavaScript
/// runtime: Bun when some skill names Bun, else Deno when some skill names Deno, else
/// Node.js.
pub proof fn lemma_runtime_follows_language(st: StackResult)
    requires
        stack_fields_of(st, skill_views(st.skills@)),
    ensures
        st.language@ == "Python"@ ==> opt_view(st.runtime) == Some("CPython"@),
        st.language@ == "Go"@ ==> opt_view(st.runtime) == Some("Go runtime"@),
        st.language@ == "Rust"@ ==> opt_view(st.runtime) == Some("Rust (native)"@),
        st.language@ == "TypeScript + Rust"@ || st.language@ == "JavaScript + Rust"@
            ==> opt_view(st.runtime) == Some("Node.js + Rust (native)"@),
        st.language@ != "Python"@ && st.language@ != "Go"@ && st.language@ != "Rust"@
            && st.language@ != "TypeScript + Rust"@ && st.language@ != "JavaScript + Rust"@
            ==> opt_view(st.runtime) == Some(
                if named_in(st, "Bun"@) { "Bun"@ } else if named_in(st, "Deno"@) { "Deno"@ } else { "Node.js"@ },
            ),
{
    reveal_strlit("Python");
    reveal_strlit("Go");
    reveal_strlit("Rust");
    reveal_strlit("TypeScript + Rust");
    reveal_strlit("JavaScript + Rust");
    assert("Python"@.len() != "Rust"@.len() && "Python"@.len() != "TypeScript + Rust"@.len()
        && "Python"@.len() != "JavaScript + Rust"@.len() && "Python"@.len() != "Go"@.len());
    assert("Go"@.len() != "Rust"@.len() && "Go"@.len() != "TypeScript + Rust"@.len()
        && "Go"@.len() != "JavaScript + Rust"@.len());
    lemma_named_in(st, "Bun"@);
    lemma_named_in(st, "Deno"@);
}


/// Some skill's name contains `needle` at a confidence of at least `min`.
pub open spec fn named_at(st: StackResult, needle: Seq<char>, min: int) -> bool {
    exists|j: int| 0 <= j < st.skills@.len() && contains_seq((#[trigger] st.skills@[j]).name@, needle)
        && st.skills@[j].confidence >= min
}

proof fn lemma_named_at(st: StackResult, needle: Seq<char>, min: int)
    ensures
        any_has(skill_views(st.skills@), needle, min) <==> named_at(st, needle, min),
{
    let sk = skill_views(st.skills@);
    lemma_any_has(sk, needle, min);
    if named_at(st, needle, min) {
        let j = choose|j: int| 0 <= j < st.skills@.len() && contains_seq((#[trigger] st.skills@[j]).name@, needle)
            && st.skills@[j].confidence >= min;
        assert(skill_matches(sk[j], needle, min));
    }
    if any_has(sk, needle, min) {
        let j = choose|j: int| 0 <= j < sk.len() && skill_matches(#[trigger] sk[j], needle, min);
        assert(sk[j].name == st.skills@[j].name@);
    }
}

/// The language of a detected stack: the first of Rust, Python, Go, Java, C#, Ruby,
/// TypeScript that some skill names at primary confidence (Rust beside a `Node.js`
/// skill becomes "TypeScript + Rust" or "JavaScript + Rust"); when none is, TypeScript
/// if some skill names it, else JavaScript if some skill names it, else "Unknown".
pub proof fn lemma_language_of_stack(st: StackResult)
    requires
        stack_fields_of(st, skill_views(st.skills@)),
    ensures
        named_at(st, "Rust"@, 90) && !named_in(st, "Node.js"@) ==> st.language@ == "Rust"@,
        named_at(st, "Rust"@, 90) && named_in(st, "Node.js"@) ==> st.language@ == (if named_in(st, "TypeScript"@) {
            "TypeScript + Rust"@
        } else {
            "JavaScript + Rust"@
        }),
        !named_at(st, "Rust"@, 90) && named_at(st, "Python"@, 90) ==> st.language@ == "Python"@,
        !named_at(st, "Rust"@, 90) && !named_at(st, "Python"@, 90) && named_at(st, "Go"@, 90) ==> st.language@ == "Go"@,
        !named_at(st, "Rust"@, 90) && !named_at(st, "Python"@, 90) && !named_at(st, "Go"@, 90) && named_at(st, "Java"@, 90)
            ==> st.language@ == "Java"@,
        !named_at(st, "Rust"@, 90) && !named_at(st, "Python"@, 90) && !named_at(st, "Go"@, 90) && !named_at(st, "Java"@, 90)
            && named_at(st, "C#"@, 90) ==> st.language@ == "C#"@,
        !named_at(st, "Rust"@, 90) && !named_at(st, "Python"@, 90) && !named_at(st, "Go"@, 90) && !named_at(st, "Java"@, 90)
            && !named_at(st, "C#"@, 90) && named_at(st, "Ruby"@, 90) ==> st.language@ == "Ruby"@,
        !named_at(st, "Rust"@, 90) && !named_at(st, "Python"@, 90) && !named_at(st, "Go"@, 90) && !named_at(st, "Java"@, 90)
            && !named_at(st, "C#"@, 90) && !named_at(st, "Ruby"@, 90) ==> st.language@ == (if named_in(st, "TypeScript"@) {
            "TypeScript"@
        } else if named_in(st, "JavaScript"@) {
            "JavaScript"@
        } else {
            "Unknown"@
        }),
{
    let sk = skill_views(st.skills@);
    let n = language_needles();
    lemma_first_needle(sk, n, 90);
    lemma_named_at(st, "Rust"@, 90);
    lemma_named_at(st, "Python"@, 90);
    lemma_named_at(st, "Go"@, 90);
    lemma_named_at(st, "Java"@, 90);
    lemma_named_at(st, "C#"@, 90);
    lemma_named_at(st, "Ruby"@, 90);
    lemma_named_at(st, "TypeScript"@, 90);
    lemma_named_in(st, "Node.js"@);
    lemma_named_in(st, "TypeScript"@);
    lemma_named_in(st, "JavaScript"@);
    assert(n[0] == "Rust"@ && n[1] == "Python"@ && n[2] == "Go"@ && n[3] == "Java"@ && n[4] == "C#"@
        && n[5] == "Ruby"@ && n[6] == "TypeScript"@);
    if named_at(st, "TypeScript"@, 90) {
        let j = choose|j: int| 0 <= j < st.skills@.len() && contains_seq((#[trigger] st.skills@[j]).name@, "TypeScript"@)
            && st.skills@[j].confidence >= 90;
        assert(contains_seq(st.skills@[j].name@, "TypeScript"@));
    }
}


/// The styling of a detected stack is the first of Tailwind CSS, Styled Components,
/// Emotion CSS, Sass/SCSS, CSS Modules that some skill name contains, and none when no
/// skill names any of them.
pub proof fn lemma_styling_of_stack(st: StackResult)
    requires
        stack_fields_of(st, skill_views(st.skills@)),
    ensures
        named_in(st, "Tailwind CSS"@) ==> opt_view(st.styling) == Some("Tailwind CSS"@),
        !named_in(st, "Tailwind CSS"@) && named_in(st, "Styled Components"@) ==> opt_view(st.styling) == Some("Styled Components"@),
        !named_in(st, "Tailwind CSS"@) && !named_in(st, "Styled Components"@) && named_in(st, "Emotion CSS"@) ==> opt_view(st.styling) == Some("Emotion CSS"@),
        !named_in(st, "Tailwind CSS"@) && !named_in(st, "Styled Components"@) && !named_in(st, "Emotion CSS"@) && named_in(st, "Sass/SCSS"@) ==> opt_view(st.styling) == Some("Sass/SCSS"@),
        !named_in(st, "Tailwind CSS"@) && !named_in(st, "Styled Components"@) && !named_in(st, "Emotion CSS"@) && !named_in(st, "Sass/SCSS"@) && named_in(st, "CSS Modules"@) ==> opt_view(st.styling) == Some("CSS Modules"@),
        !named_in(st, "Tailwind CSS"@) && !named_in(st, "Styled Components"@) && !named_in(st, "Emotion CSS"@) && !named_in(st, "Sass/SCSS"@) && !named_in(st, "CSS Modules"@) ==> st.styling is None,
{
    let sk = skill_views(st.skills@);
    let n = styling_needles();
    lemma_first_needle(sk, n, 0);
    lemma_named_in(st, "Tailwind CSS"@);
    lemma_named_in(st, "Styled Components"@);
    lemma_named_in(st, "Emotion CSS"@);
    lemma_named_in(st, "Sass/SCSS"@);
    lemma_named_in(st, "CSS Modules"@);
    assert(n[0] == "Tailwind CSS"@ && n[1] == "Styled Components"@ && n[2] == "Emotion CSS"@
        && n[3] == "Sass/SCSS"@ && n[4] == "CSS Modules"@);
}


/// A detected stack reports a framework exactly when some skill at inclusion
/// confidence names one of Next.js, Nuxt.js, Remix, Astro, Gatsby, NestJS, the Axum or
/// Actix Rust web servers, the Fastify, Express or Hono Node.js API servers, Vue.js,
/// Svelte, Angular or React.
pub proof fn lemma_framework_of_stack(st: StackResult)
    requires
        stack_fields_of(st, skill_views(st.skills@)),
    ensures
        st.framework is Some <==> (named_at(st, "Next.js"@, 50) || named_at(st, "Nuxt.js"@, 50) || named_at(st, "Remix"@, 50) || named_at(st, "Astro"@, 50) || named_at(st, "Gatsby"@, 50) || named_at(st, "NestJS"@, 50) || named_at(st, "Rust Web Server (Axum)"@, 50) || named_at(st, "Rust Web Server (Actix)"@, 50) || named_at(st, "Node.js API Server (Fastify)"@, 50) || named_at(st, "Node.js API Server (Express)"@, 50) || named_at(st, "Node.js API Server (Hono)"@, 50) || named_at(st, "Vue.js"@, 50) || named_at(st, "Svelte"@, 50) || named_at(st, "Angular"@, 50) || named_at(st, "React"@, 50)),
{
    let sk = skill_views(st.skills@);
    let n = framework_needles();
    lemma_first_needle(sk, n, 50);
    lemma_named_at(st, "Next.js"@, 50);
    lemma_named_at(st, "Nuxt.js"@, 50);
    lemma_named_at(st, "Remix"@, 50);
    lemma_named_at(st, "Astro"@, 50);
    lemma_named_at(st, "Gatsby"@, 50);
    lemma_named_at(st, "NestJS"@, 50);
    lemma_named_at(st, "Rust Web Server (Axum)"@, 50);
    lemma_named_at(st, "Rust Web Server (Actix)"@, 50);
    lemma_named_at(st, "Node.js API Server (Fastify)"@, 50);
    lemma_named_at(st, "Node.js API Server (Express)"@, 50);
    lemma_named_at(st, "Node.js API Server (Hono)"@, 50);
    lemma_named_at(st, "Vue.js"@, 50);
    lemma_named_at(st, "Svelte"@, 50);
    lemma_named_at(st, "Angular"@, 50);
    lemma_named_at(st, "React"@, 50);
    assert(n[0] == "Next.js"@ && n[1] == "Nuxt.js"@ && n[2] == "Remix"@ && n[3] == "Astro"@ && n[4] == "Gatsby"@ && n[5] == "NestJS"@ && n[6] == "Rust Web Server (Axum)"@ && n[7] == "Rust Web Server (Actix)"@ && n[8] == "Node.js API Server (Fastify)"@ && n[9] == "Node.js API Server (Express)"@ && n[10] == "Node.js API Server (Hono)"@ && n[11] == "Vue.js"@ && n[12] == "Svelte"@ && n[13] == "Angular"@ && n[14] == "React"@);
    let k = first_needle(sk, n, 50);
    if k < 0 {
        assert forall|j: int| 0 <= j < 15 implies !any_has(sk, #[trigger] n[j], 50) by {}
        assert(!any_has(sk, n[0], 50));
    }
}

} // verus!
