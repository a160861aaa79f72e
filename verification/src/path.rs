//! Relative and absolute `/`-separated paths, read component by component as
//! `std::path::Path::components` reads them on Unix.

use vstd::prelude::*;

verus! {

/// The pieces of `p` between `/` characters, empty pieces included
/// (`"a//b/"` → `["a", "", "b", ""]`); there is always at least one.
pub open spec fn pieces(p: Seq<char>) -> Seq<Seq<char>>
    decreases p.len(),
{
    if p.len() == 0 {
        seq![Seq::empty()]
    } else {
        let s = pieces(p.drop_last());
        if p.last() == '/' {
            s.push(Seq::empty())
        } else {
            s.update(s.len() - 1, s.last().push(p.last()))
        }
    }
}

/// A piece that names something: not empty and not `.`.
pub open spec fn naming(s: Seq<char>) -> bool {
    s.len() > 0 && s != seq!['.']
}

/// The naming pieces of `s`, in order.
pub open spec fn naming_pieces(s: Seq<Seq<char>>) -> Seq<Seq<char>>
    decreases s.len(),
{
    if s.len() == 0 {
        Seq::empty()
    } else if naming(s.last()) {
        naming_pieces(s.drop_last()).push(s.last())
    } else {
        naming_pieces(s.drop_last())
    }
}

/// The normal and parent (`..`) components of `p`, in order: `.` and empty pieces
/// are not components.
pub open spec fn named_components(p: Seq<char>) -> Seq<Seq<char>> {
    naming_pieces(pieces(p))
}

/// Number of components of `p`: a leading `/` is one (the root), a leading `.` piece
/// is one (the current directory), and each named component is one. So
/// `"packages/ui/package.json"` has 3, `"a/./package.json"` has 2, `"/a"` has 2.
pub open spec fn path_depth(p: Seq<char>) -> nat {
    (if p.len() > 0 && p[0] == '/' { 1nat } else { 0nat })
        + (if pieces(p)[0] == seq!['.'] { 1nat } else { 0nat })
        + named_components(p).len()
}

/// The last component of `p` when it is a normal one (not `..`), as
/// `Path::file_name` gives it; `None` for `"/"`, `"."`, `""` or a path ending in `..`.
pub open spec fn file_name(p: Seq<char>) -> Option<Seq<char>> {
    let c = named_components(p);
    if c.len() == 0 || c.last() == seq!['.', '.'] {
        None
    } else {
        Some(c.last())
    }
}

/// The components of the path `p`: how many (the depth) and the file name.
pub fn path_components(p: &str) -> (r: (usize, Option<String>))
    ensures
        r.0 == path_depth(p@),
        match r.1 {
            Some(n) => file_name(p@) == Some(n@),
            None => file_name(p@) is None,
        },
{
    let c = crate::text::chars_of(p);
    let n = c.len();
    let mut i: usize = 0;
    let mut start: usize = 0;
    let mut count: usize = 0;
    let mut last: Option<String> = None;
    let mut first_piece_dot: bool = false;
    let mut first_done: bool = false;
    proof {
        assert(p@.take(0) =~= Seq::<char>::empty());
        assert(p@.subrange(0, 0) =~= Seq::<char>::empty());
    }
    while i < n
        invariant
            n == c@.len(),
            c@ == p@,
            start <= i <= n,
            count <= i,
            2 * count <= start,
            !first_done ==> start == 0,
            pieces(p@.take(i as int)).len() >= 1,
            pieces(p@.take(i as int)).last() == p@.subrange(start as int, i as int),
            count == naming_pieces(pieces(p@.take(i as int)).drop_last()).len(),
            match last {
                Some(l) => naming_pieces(pieces(p@.take(i as int)).drop_last()).len() > 0
                    && l@ == naming_pieces(pieces(p@.take(i as int)).drop_last()).last(),
                None => naming_pieces(pieces(p@.take(i as int)).drop_last()).len() == 0,
            },
            first_done == (pieces(p@.take(i as int)).len() > 1),
            first_done ==> first_piece_dot == (pieces(p@.take(i as int))[0] == seq!['.']),
        decreases n - i,
    {
        let ghost q = p@.take(i + 1);
        let ghost sp = pieces(p@.take(i as int));
        proof {
            assert(q.drop_last() =~= p@.take(i as int));
            assert(q.last() == c@[i as int]);
        }
        if c[i] == '/' {
            let seg = p.substring_char(start, i).to_owned();
            let good = i > start && !(i == start + 1 && c[start] == '.');
            proof {
                assert(pieces(q) == sp.push(Seq::<char>::empty()));
                assert(pieces(q).drop_last() =~= sp);
                assert(sp =~= sp.drop_last().push(sp.last()));
                assert(seg@ == sp.last());
                if i == start + 1 {
                    assert(sp.last() =~= seq![c@[start as int]]);
                    assert(sp.last()[0] == c@[start as int]);
                    assert(seq!['.'][0] == '.');
                } else if i > start + 1 {
                    assert(sp.last().len() != seq!['.'].len());
                }
                assert(good == naming(sp.last()));
            }
            if !first_done {
                first_done = true;
                first_piece_dot = i == start + 1 && c[start] == '.';
                proof {
                    assert(sp.len() == 1);
                    assert(sp[0] == sp.last());
                    if i == start + 1 {
                        assert(sp.last() =~= seq![c@[start as int]]);
                    }
                    if sp[0] == seq!['.'] {
                        assert(sp[0].len() == 1);
                    }
                }
            }
            if good {
                count = count + 1;
                last = Some(seg);
            }
            start = i + 1;
            proof {
                assert(pieces(q)[0] == sp[0]);
            }
        } else {
            proof {
                assert(pieces(q) == sp.update(sp.len() - 1, sp.last().push(c@[i as int])));
                assert(pieces(q).drop_last() =~= sp.drop_last());
                assert(p@.subrange(start as int, i + 1) =~= p@.subrange(start as int, i as int).push(c@[i as int]));
                if sp.len() > 1 {
                    assert(pieces(q)[0] == sp[0]);
                }
            }
        }
        i = i + 1;
    }
    let ghost sp = pieces(p@.take(n as int));
    proof {
        assert(p@.take(n as int) =~= p@);
        assert(sp =~= sp.drop_last().push(sp.last()));
    }
    let seg = p.substring_char(start, n).to_owned();
    let good = n > start && !(n == start + 1 && c[start] == '.');
    proof {
        assert(seg@ == sp.last());
        if n == start + 1 {
            assert(sp.last() =~= seq![c@[start as int]]);
            assert(sp.last()[0] == c@[start as int]);
            assert(seq!['.'][0] == '.');
        } else if n > start + 1 {
            assert(sp.last().len() != seq!['.'].len());
        }
        assert(good == naming(sp.last()));
    }
    if good {
        count = count + 1;
        last = Some(seg);
    }
    if !first_done {
        first_piece_dot = n == start + 1 && c[start] == '.';
        proof {
            assert(sp.len() == 1);
            assert(sp[0] == sp.last());
            if n == start + 1 {
                assert(sp.last() =~= seq![c@[start as int]]);
            }
            if sp[0] == seq!['.'] {
                assert(sp[0].len() == 1);
            }
        }
    }
    let root = n > 0 && c[0] == '/';
    let depth = count + (if root { 1 } else { 0 }) + (if first_piece_dot { 1 } else { 0 });
    let name = match last {
        Some(l) => {
            let lc = crate::text::chars_of(l.as_str());
            if lc.len() == 2 && lc[0] == '.' && lc[1] == '.' {
                proof { assert(l@ =~= seq!['.', '.']); }
                None
            } else {
                proof {
                    if l@ == seq!['.', '.'] {
                        assert(lc@.len() == 2 && lc@[0] == '.' && lc@[1] == '.');
                    }
                }
                Some(l)
            }
        },
        None => None,
    };
    (depth, name)
}

} // verus!
