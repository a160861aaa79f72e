//! Character-level string operations with exact specifications.

use vstd::prelude::*;

verus! {

/// The characters of an optional string.
pub open spec fn opt_view(o: Option<String>) -> Option<Seq<char>> {
    match o {
        Some(s) => Some(s@),
        None => None,
    }
}

/// `p` is a prefix of `s`.
pub open spec fn has_prefix(s: Seq<char>, p: Seq<char>) -> bool {
    p.len() <= s.len() && s.subrange(0, p.len() as int) == p
}

/// `p` is a suffix of `s`.
pub open spec fn has_suffix(s: Seq<char>, p: Seq<char>) -> bool {
    p.len() <= s.len() && s.subrange(s.len() - p.len(), s.len() as int) == p
}

/// `n` occurs in `h` starting at position `i`.
pub open spec fn occurs_at(h: Seq<char>, n: Seq<char>, i: int) -> bool {
    0 <= i && i + n.len() <= h.len() && h.subrange(i, i + n.len()) == n
}

/// `n` occurs somewhere in `h` (the empty sequence occurs everywhere).
pub open spec fn contains_seq(h: Seq<char>, n: Seq<char>) -> bool {
    exists|i: int| occurs_at(h, n, i)
}

/// The characters of `s`, in order.
pub fn chars_of(s: &str) -> (r: Vec<char>)
    ensures
        r@ == s@,
{
    let n = s.unicode_len();
    let mut r: Vec<char> = Vec::new();
    let mut i: usize = 0;
    while i < n
        invariant
            n == s@.len(),
            i <= n,
            r@ == s@.subrange(0, i as int),
        decreases n - i,
    {
        r.push(s.get_char(i));
        i = i + 1;
    }
    r
}

/// Whether `n` occurs in `h` at position `i`.
pub fn occurs_at_exec(h: &[char], n: &[char], i: usize) -> (r: bool)
    ensures
        r == occurs_at(h@, n@, i as int),
{
    if i > h.len() || n.len() > h.len() - i {
        return false;
    }
    let mut k: usize = 0;
    while k < n.len()
        invariant
            i + n.len() <= h.len(),
            k <= n@.len(),
            forall|j: int| 0 <= j < k ==> h@[i + j] == n@[j],
        decreases n.len() - k,
    {
        if h[i + k] != n[k] {
            assert(h@.subrange(i as int, i + n@.len())[k as int] != n@[k as int]);
            assert(h@.subrange(i as int, i + n@.len()) != n@);
            return false;
        }
        k = k + 1;
    }
    assert(h@.subrange(i as int, i + n@.len()) =~= n@);
    true
}

/// Whether `n` occurs anywhere in `h`.
pub fn contains_chars(h: &[char], n: &[char]) -> (r: bool)
    ensures
        r == contains_seq(h@, n@),
{
    if n.len() > h.len() {
        assert(forall|i: int| !occurs_at(h@, n@, i));
        return false;
    }
    let last = h.len() - n.len();
    let mut i: usize = 0;
    while i < last
        invariant
            last == h@.len() - n@.len(),
            i <= last,
            forall|j: int| 0 <= j < i ==> !occurs_at(h@, n@, j),
        decreases last - i,
    {
        if occurs_at_exec(h, n, i) {
            return true;
        }
        i = i + 1;
    }
    occurs_at_exec(h, n, last)
}

/// Whether `s` starts with `p`.
pub fn starts_with(s: &str, p: &str) -> (r: bool)
    ensures
        r == has_prefix(s@, p@),
{
    let sc = chars_of(s);
    let pc = chars_of(p);
    occurs_at_exec(sc.as_slice(), pc.as_slice(), 0)
}

/// Whether `s` ends with `p`.
pub fn ends_with(s: &str, p: &str) -> (r: bool)
    ensures
        r == has_suffix(s@, p@),
{
    let sc = chars_of(s);
    let pc = chars_of(p);
    if pc.len() > sc.len() {
        return false;
    }
    occurs_at_exec(sc.as_slice(), pc.as_slice(), sc.len() - pc.len())
}

/// Whether `n` occurs anywhere in `s`.
pub fn contains(s: &str, n: &str) -> (r: bool)
    ensures
        r == contains_seq(s@, n@),
{
    let sc = chars_of(s);
    let nc = chars_of(n);
    contains_chars(sc.as_slice(), nc.as_slice())
}

/// Whether the two strings hold the same characters.
pub fn str_eq(a: &str, b: &str) -> (r: bool)
    ensures
        r == (a@ == b@),
{
    let ac = chars_of(a);
    let bc = chars_of(b);
    if ac.len() != bc.len() {
        return false;
    }
    assert(ac@.subrange(0, bc@.len() as int) =~= ac@);
    occurs_at_exec(ac.as_slice(), bc.as_slice(), 0)
}

/// `s` with every leading repetition of `p` removed, as `str::trim_start_matches` does.
pub open spec fn trim_prefix_all(s: Seq<char>, p: Seq<char>) -> Seq<char>
    decreases s.len(),
{
    if p.len() > 0 && has_prefix(s, p) {
        trim_prefix_all(s.skip(p.len() as int), p)
    } else {
        s
    }
}

/// `s` with every trailing `c` removed, as `str::trim_end_matches` does for a char.
pub open spec fn trim_suffix_char_all(s: Seq<char>, c: char) -> Seq<char>
    decreases s.len(),
{
    if s.len() > 0 && s.last() == c {
        trim_suffix_char_all(s.drop_last(), c)
    } else {
        s
    }
}

/// The characters of `s` before the first `c` (all of `s` when there is none).
pub open spec fn before_first(s: Seq<char>, c: char) -> Seq<char>
    decreases s.len(),
{
    if s.len() == 0 {
        s
    } else if s[0] == c {
        Seq::empty()
    } else {
        seq![s[0]] + before_first(s.drop_first(), c)
    }
}

/// The characters of `s` after its first `c` (empty when there is none).
pub open spec fn after_first(s: Seq<char>, c: char) -> Seq<char>
    decreases s.len(),
{
    if s.len() == 0 {
        s
    } else if s[0] == c {
        s.drop_first()
    } else {
        after_first(s.drop_first(), c)
    }
}

/// The last `/`-separated segment of `s`, as `s.split('/').last()` gives it.
pub open spec fn last_segment(s: Seq<char>) -> Seq<char>
    decreases s.len(),
{
    if s.len() == 0 {
        s
    } else if s.last() == '/' {
        Seq::empty()
    } else {
        last_segment(s.drop_last()).push(s.last())
    }
}

/// One of the `/`-separated segments of `s` equals `name`.
pub open spec fn has_segment(s: Seq<char>, name: Seq<char>) -> bool {
    &&& !name.contains('/')
    &&& exists|i: int|
        #![trigger occurs_at(s, name, i)]
        occurs_at(s, name, i) && (i == 0 || s[i - 1] == '/') && (i + name.len() == s.len()
            || s[i + name.len()] == '/')
}

/// Lowercase form of `s` under the Unicode rules that `str::to_lowercase` applies.
pub uninterp spec fn lowercase(s: Seq<char>) -> Seq<char>;

/// Every character of `s` is ASCII.
pub open spec fn all_ascii(s: Seq<char>) -> bool {
    forall|i: int| 0 <= i < s.len() ==> (#[trigger] s[i]) as u32 <= 0x7f
}

/// `c` with an ASCII capital letter replaced by its small letter.
pub open spec fn ascii_lower_char(c: char) -> char {
    if 'A' <= c && c <= 'Z' { ((c as u32) + 32) as char } else { c }
}

/// `s` with its ASCII capital letters replaced by small letters.
pub open spec fn ascii_lower(s: Seq<char>) -> Seq<char> {
    s.map_values(|c: char| ascii_lower_char(c))
}

/// Lowercases `s` with `str::to_lowercase`; the result is what `lowercase` names. For
/// ASCII text std's Unicode lowercase mapping turns `A`–`Z` into `a`–`z` and keeps every
/// other character, which the second clause states; nothing more is claimed of other
/// text.
#[verifier::external_body]
pub(crate) fn to_lowercase(s: &str) -> (r: String)
    ensures
        r@ == lowercase(s@),
        all_ascii(s@) ==> r@ == ascii_lower(s@),
{
    s.to_lowercase()
}

/// A new `String` with the same characters as `s`.
pub fn owned(s: &str) -> (r: String)
    ensures
        r@ == s@,
{
    s.to_owned()
}

/// `a` followed by `b`, as a new `String`.
pub fn concat_str(a: &str, b: &str) -> (r: String)
    ensures
        r@ == a@ + b@,
{
    let mut r = a.to_owned();
    r.append(b);
    r
}

/// `str::trim_start_matches` with a string pattern.
pub fn trim_start_matches(s: &str, p: &str) -> (r: String)
    ensures
        r@ == trim_prefix_all(s@, p@),
{
    let sc = chars_of(s);
    let pc = chars_of(p);
    if pc.len() == 0 {
        return s.to_owned();
    }
    let n = sc.len();
    let mut i: usize = 0;
    assert(s@.skip(0) =~= s@);
    while occurs_at_exec(sc.as_slice(), pc.as_slice(), i)
        invariant
            n == sc@.len(),
            sc@ == s@,
            pc@ == p@,
            pc@.len() > 0,
            i <= sc@.len(),
            trim_prefix_all(s@, p@) == trim_prefix_all(s@.skip(i as int), p@),
        decreases sc@.len() - i,
    {
        assert(occurs_at(sc@, pc@, i as int));
        let ghost t = s@.skip(i as int);
        assert(t.subrange(0, p@.len() as int) =~= s@.subrange(i as int, i + p@.len()));
        assert(t.skip(p@.len() as int) =~= s@.skip(i + p@.len()));
        i = i + pc.len();
    }
    let ghost t = s@.skip(i as int);
    assert(has_prefix(t, p@) ==> t.subrange(0, p@.len() as int) =~= s@.subrange(
        i as int,
        i + p@.len(),
    ));
    assert(s@.subrange(i as int, s@.len() as int) =~= t);
    s.substring_char(i, n).to_owned()
}

/// `str::trim_end_matches` with a char pattern.
pub fn trim_end_matches_char(s: &str, c: char) -> (r: String)
    ensures
        r@ == trim_suffix_char_all(s@, c),
{
    let sc = chars_of(s);
    let mut j: usize = sc.len();
    assert(s@.take(j as int) =~= s@);
    while j > 0 && sc[j - 1] == c
        invariant
            sc@ == s@,
            j <= sc@.len(),
            trim_suffix_char_all(s@, c) == trim_suffix_char_all(s@.take(j as int), c),
        decreases j,
    {
        assert(s@.take(j as int).drop_last() =~= s@.take(j - 1));
        j = j - 1;
    }
    assert(s@.take(j as int) =~= s@.subrange(0, j as int));
    s.substring_char(0, j).to_owned()
}

proof fn lemma_first_char(s: Seq<char>, c: char, k: int)
    requires
        0 <= k <= s.len(),
        forall|j: int| 0 <= j < k ==> s[j] != c,
        k < s.len() ==> s[k] == c,
    ensures
        before_first(s, c) == s.take(k),
        k < s.len() ==> after_first(s, c) == s.skip(k + 1),
        k == s.len() ==> after_first(s, c) == Seq::<char>::empty(),
    decreases s.len(),
{
    if s.len() == 0 {
        assert(s.take(k) =~= s);
    } else if k == 0 {
        assert(s.take(0) =~= Seq::<char>::empty());
        assert(s.drop_first() =~= s.skip(1));
    } else {
        let t = s.drop_first();
        assert forall|j: int| 0 <= j < k - 1 implies t[j] != c by {
            assert(t[j] == s[j + 1]);
        }
        lemma_first_char(t, c, k - 1);
        assert(s.take(k) =~= seq![s[0]] + t.take(k - 1));
        if k < s.len() {
            assert(t.skip(k) =~= s.skip(k + 1));
        }
    }
}

/// Index of the first `c` in `v`, or `v.len()` when there is none.
fn first_index_of(v: &[char], c: char) -> (k: usize)
    ensures
        k <= v@.len(),
        forall|j: int| 0 <= j < k ==> v@[j] != c,
        k < v@.len() ==> v@[k as int] == c,
{
    let mut k: usize = 0;
    while k < v.len()
        invariant
            k <= v@.len(),
            forall|j: int| 0 <= j < k ==> v@[j] != c,
        decreases v.len() - k,
    {
        if v[k] == c {
            return k;
        }
        k = k + 1;
    }
    k
}

/// The part of `s` before its first `c`, as `s.split(c).next()` gives it.
pub fn before_first_char(s: &str, c: char) -> (r: String)
    ensures
        r@ == before_first(s@, c),
{
    let sc = chars_of(s);
    let k = first_index_of(sc.as_slice(), c);
    proof {
        lemma_first_char(s@, c, k as int);
        assert(s@.take(k as int) =~= s@.subrange(0, k as int));
    }
    s.substring_char(0, k).to_owned()
}

/// The part of `s` after its first `c` (empty when `c` does not occur).
pub fn after_first_char(s: &str, c: char) -> (r: String)
    ensures
        r@ == after_first(s@, c),
{
    let sc = chars_of(s);
    let n = sc.len();
    let k = first_index_of(sc.as_slice(), c);
    proof {
        lemma_first_char(s@, c, k as int);
    }
    if k == n {
        return String::new();
    }
    assert(s@.skip(k + 1) =~= s@.subrange(k + 1, n as int));
    s.substring_char(k + 1, n).to_owned()
}

proof fn lemma_last_segment(s: Seq<char>, k: int)
    requires
        0 <= k <= s.len(),
        forall|j: int| k <= j < s.len() ==> s[j] != '/',
        k > 0 ==> s[k - 1] == '/',
    ensures
        last_segment(s) == s.skip(k),
    decreases s.len(),
{
    if s.len() == 0 {
        assert(s.skip(k) =~= s);
    } else if k == s.len() {
        assert(s.skip(k) =~= Seq::<char>::empty());
    } else {
        lemma_last_segment(s.drop_last(), k);
        assert(s.drop_last().skip(k).push(s.last()) =~= s.skip(k));
    }
}

/// The last `/`-separated segment of `s`.
pub fn last_segment_of(s: &str) -> (r: String)
    ensures
        r@ == last_segment(s@),
{
    let sc = chars_of(s);
    let n = sc.len();
    let mut k: usize = n;
    while k > 0 && sc[k - 1] != '/'
        invariant
            n == sc@.len(),
            sc@ == s@,
            k <= n,
            forall|j: int| k <= j < n ==> s@[j] != '/',
        decreases k,
    {
        k = k - 1;
    }
    proof {
        lemma_last_segment(s@, k as int);
        assert(s@.skip(k as int) =~= s@.subrange(k as int, n as int));
    }
    s.substring_char(k, n).to_owned()
}

/// Whether one of the `/`-separated segments of `s` equals `name`.
pub fn has_segment_exec(s: &str, name: &str) -> (r: bool)
    ensures
        r == has_segment(s@, name@),
{
    let sc = chars_of(s);
    let nc = chars_of(name);
    if first_index_of(nc.as_slice(), '/') < nc.len() {
        return false;
    }
    assert(!nc@.contains('/'));
    let n = sc.len();
    let m = nc.len();
    if m > n {
        return false;
    }
    let last = n - m;
    let mut i: usize = 0;
    loop
        invariant
            n == sc@.len(),
            m == nc@.len(),
            sc@ == s@,
            nc@ == name@,
            m <= n,
            last == n - m,
            i <= last,
            !name@.contains('/'),
            forall|j: int|
                #![trigger occurs_at(s@, name@, j)]
                0 <= j < i ==> !(occurs_at(s@, name@, j) && (j == 0 || s@[j - 1] == '/') && (j
                    + m == n || s@[j + m] == '/')),
        decreases last - i,
    {
        if occurs_at_exec(sc.as_slice(), nc.as_slice(), i) && (i == 0 || sc[i - 1] == '/') && (i
            + m == n || sc[i + m] == '/') {
            return true;
        }
        if i == last {
            assert forall|j: int|
                #![trigger occurs_at(s@, name@, j)]
                !(occurs_at(s@, name@, j) && (j == 0 || s@[j - 1] == '/') && (j + m == n || s@[j
                    + m] == '/')) by {
                if j > last {
                    assert(!occurs_at(s@, name@, j));
                }
            }
            return false;
        }
        i = i + 1;
    }
}

} // verus!
