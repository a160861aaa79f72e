//! `FolderMap`: folder name → names of the files directly inside it.

use vstd::prelude::*;
use crate::order::views;
use crate::text::{str_eq, owned};

verus! {

/// Folder name → the file names directly inside it, in the order they were seen.
/// Each folder name occurs once.
pub struct FolderMap {
    keys: Vec<String>,
    children: Vec<Vec<String>>,
}

/// The folder names of a folder map's view, in order.
pub open spec fn keys_of(e: Seq<(Seq<char>, Seq<Seq<char>>)>) -> Seq<Seq<char>> {
    e.map_values(|p: (Seq<char>, Seq<Seq<char>>)| p.0)
}

/// The file names of all folders of `e`, folder by folder, each folder's in order.
pub open spec fn all_files(e: Seq<(Seq<char>, Seq<Seq<char>>)>) -> Seq<Seq<char>>
    decreases e.len(),
{
    if e.len() == 0 {
        Seq::empty()
    } else {
        all_files(e.drop_last()) + e.last().1
    }
}

/// Whether `k` is one of the folder names of `e`.
pub open spec fn has_key(e: Seq<(Seq<char>, Seq<Seq<char>>)>, k: Seq<char>) -> bool {
    exists|i: int| 0 <= i < e.len() && (#[trigger] e[i]).0 == k
}

/// Index of the entry of `e` named `k` (the last one, should there be several), or -1.
pub open spec fn key_index(e: Seq<(Seq<char>, Seq<Seq<char>>)>, k: Seq<char>) -> int
    decreases e.len(),
{
    if e.len() == 0 {
        -1
    } else if e.last().0 == k {
        e.len() - 1
    } else {
        key_index(e.drop_last(), k)
    }
}

/// `e` after making sure folder `k` is present (a new folder has no files).
pub open spec fn register_spec(e: Seq<(Seq<char>, Seq<Seq<char>>)>, k: Seq<char>) -> Seq<(Seq<char>, Seq<Seq<char>>)> {
    if key_index(e, k) < 0 {
        e.push((k, Seq::empty()))
    } else {
        e
    }
}

/// `e` after appending file `f` to folder `k` (adding the folder when missing).
pub open spec fn push_child_spec(e: Seq<(Seq<char>, Seq<Seq<char>>)>, k: Seq<char>, f: Seq<char>) -> Seq<(Seq<char>, Seq<Seq<char>>)> {
    let i = key_index(e, k);
    if i < 0 {
        e.push((k, seq![f]))
    } else {
        e.update(i, (k, e[i].1.push(f)))
    }
}

/// `e` without folder `k`.
pub open spec fn remove_spec(e: Seq<(Seq<char>, Seq<Seq<char>>)>, k: Seq<char>) -> Seq<(Seq<char>, Seq<Seq<char>>)> {
    let i = key_index(e, k);
    if i < 0 {
        e
    } else {
        e.remove(i)
    }
}

/// Characterizes `key_index`: it is -1 exactly when `k` is absent, and otherwise
/// points at an entry named `k` after which no entry is named `k`.
pub proof fn lemma_key_index(e: Seq<(Seq<char>, Seq<Seq<char>>)>, k: Seq<char>)
    ensures
        -1 <= key_index(e, k) < e.len(),
        key_index(e, k) < 0 <==> !has_key(e, k),
        key_index(e, k) >= 0 ==> e[key_index(e, k)].0 == k,
        forall|j: int| key_index(e, k) < j < e.len() ==> (#[trigger] e[j]).0 != k,
    decreases e.len(),
{
    if e.len() > 0 {
        lemma_key_index(e.drop_last(), k);
        assert forall|j: int| 0 <= j < e.len() - 1 implies e[j] == e.drop_last()[j] by {}
        if key_index(e, k) < 0 {
            assert forall|j: int| 0 <= j < e.len() implies (#[trigger] e[j]).0 != k by {
                if j < e.len() - 1 {
                    assert(!has_key(e.drop_last(), k));
                    assert(e.drop_last()[j].0 != k);
                }
            }
        } else if key_index(e, k) < e.len() - 1 {
            assert(has_key(e.drop_last(), k));
            assert(e.drop_last()[key_index(e, k)] == e[key_index(e, k)]);
        }
    }
}

/// Folder names of `e` are pairwise distinct.
pub open spec fn keys_distinct(e: Seq<(Seq<char>, Seq<Seq<char>>)>) -> bool {
    forall|i: int, j: int| 0 <= i < j < e.len() ==> (#[trigger] e[i]).0 != (#[trigger] e[j]).0
}

/// Adding a file keeps folder names distinct, and afterwards the folder is present with
/// the file as its last entry.
pub proof fn lemma_push_child(e: Seq<(Seq<char>, Seq<Seq<char>>)>, k: Seq<char>, f: Seq<char>)
    requires
        keys_distinct(e),
    ensures
        keys_distinct(push_child_spec(e, k, f)),
        has_key(push_child_spec(e, k, f), k),
        push_child_spec(e, k, f)[key_index(push_child_spec(e, k, f), k)].1.last() == f,
{
    lemma_key_index(e, k);
    let r = push_child_spec(e, k, f);
    let i = key_index(e, k);
    if i < 0 {
        assert(r[e.len() as int].0 == k);
    } else {
        assert(r[i].0 == k);
        assert forall|a: int, b: int| 0 <= a < b < r.len() implies (#[trigger] r[a]).0 != (#[trigger] r[b]).0 by {
            assert(r[a].0 == e[a].0 && r[b].0 == e[b].0);
        }
    }
    lemma_key_index(r, k);
    if i >= 0 {
        let j = key_index(r, k);
        if j != i {
            assert(r[j].0 == k && r[i].0 == k);
        }
    }
}

/// Registering a folder keeps folder names distinct, and afterwards the folder is present.
pub proof fn lemma_register(e: Seq<(Seq<char>, Seq<Seq<char>>)>, k: Seq<char>)
    requires
        keys_distinct(e),
    ensures
        keys_distinct(register_spec(e, k)),
        has_key(register_spec(e, k), k),
{
    lemma_key_index(e, k);
    let r = register_spec(e, k);
    if key_index(e, k) < 0 {
        assert(r[e.len() as int].0 == k);
    } else {
        assert(r[key_index(e, k)].0 == k);
    }
}

/// Removing a folder keeps folder names distinct, leaves the folder absent, and keeps
/// every other folder with its file list unchanged.
pub proof fn lemma_remove(e: Seq<(Seq<char>, Seq<Seq<char>>)>, k: Seq<char>)
    requires
        keys_distinct(e),
    ensures
        keys_distinct(remove_spec(e, k)),
        !has_key(remove_spec(e, k), k),
        forall|x: Seq<char>| x != k ==> (has_key(remove_spec(e, k), x) <==> has_key(e, x)),
        forall|j: int| 0 <= j < remove_spec(e, k).len() ==> e.contains(#[trigger] remove_spec(e, k)[j]),
        forall|j: int| 0 <= j < e.len() && (#[trigger] e[j]).0 != k ==> remove_spec(e, k).contains(e[j]),
{
    lemma_key_index(e, k);
    let r = remove_spec(e, k);
    let i = key_index(e, k);
    if i < 0 {
        assert forall|j: int| 0 <= j < r.len() implies e.contains(#[trigger] r[j]) by {
            assert(e[j] == r[j]);
        }
        assert forall|j: int| 0 <= j < e.len() && (#[trigger] e[j]).0 != k implies r.contains(e[j]) by {
            assert(r[j] == e[j]);
        }
    }
    if i >= 0 {
        assert forall|j: int| 0 <= j < r.len() implies e.contains(#[trigger] r[j]) by {
            let j2 = if j < i { j } else { j + 1 };
            assert(r[j] == e[j2]);
        }
        assert forall|j: int| 0 <= j < e.len() && (#[trigger] e[j]).0 != k implies r.contains(e[j]) by {
            assert(j != i);
            if j < i {
                assert(r[j] == e[j]);
            } else {
                assert(r[j - 1] == e[j]);
            }
        }
        assert forall|a: int, b: int| 0 <= a < b < r.len() implies (#[trigger] r[a]).0 != (#[trigger] r[b]).0 by {
            let a2 = if a < i { a } else { a + 1 };
            let b2 = if b < i { b } else { b + 1 };
            assert(r[a] == e[a2] && r[b] == e[b2]);
        }
        assert forall|j: int| 0 <= j < r.len() implies (#[trigger] r[j]).0 != k by {
            let j2 = if j < i { j } else { j + 1 };
            assert(r[j] == e[j2]);
        }
        assert forall|x: Seq<char>| x != k implies (has_key(r, x) <==> has_key(e, x)) by {
            if has_key(e, x) {
                let j = choose|j: int| 0 <= j < e.len() && (#[trigger] e[j]).0 == x;
                if j < i {
                    assert(r[j] == e[j]);
                } else if j > i {
                    assert(r[j - 1] == e[j]);
                }
            }
            if has_key(r, x) {
                let j = choose|j: int| 0 <= j < r.len() && (#[trigger] r[j]).0 == x;
                let j2 = if j < i { j } else { j + 1 };
                assert(r[j] == e[j2]);
            }
        }
    }
}

impl View for FolderMap {
    type V = Seq<(Seq<char>, Seq<Seq<char>>)>;

    closed spec fn view(&self) -> Seq<(Seq<char>, Seq<Seq<char>>)> {
        Seq::new(
            self.keys@.len(),
            |i: int| (self.keys@[i]@, views(self.children@[i]@)),
        )
    }
}

impl FolderMap {
    #[verifier::type_invariant]
    closed spec fn inv(self) -> bool {
        &&& self.keys@.len() == self.children@.len()
        &&& forall|i: int, j: int|
            0 <= i < j < self.keys@.len() ==> (#[trigger] self.keys@[i])@ != (#[trigger] self.keys@[j])@
    }

    /// An empty map.
    pub fn new() -> (r: FolderMap)
        ensures
            r@ == Seq::<(Seq<char>, Seq<Seq<char>>)>::empty(),
    {
        let r = FolderMap { keys: Vec::new(), children: Vec::new() };
        assert(r@ =~= Seq::<(Seq<char>, Seq<Seq<char>>)>::empty());
        r
    }

    /// Number of folders.
    pub fn len(&self) -> (r: usize)
        ensures
            r == self@.len(),
    {
        proof { use_type_invariant(self); }
        self.keys.len()
    }

    /// Whether the map holds no folder.
    pub fn is_empty(&self) -> (r: bool)
        ensures
            r == (self@.len() == 0),
    {
        self.len() == 0
    }

    fn find(&self, k: &str) -> (r: Option<usize>)
        ensures
            match r {
                Some(i) => i < self@.len() && self@[i as int].0 == k@ && i as int == key_index(self@, k@),
                None => !has_key(self@, k@) && key_index(self@, k@) < 0,
            },
    {
        proof {
            use_type_invariant(self);
            lemma_key_index(self@, k@);
        }
        let n = self.keys.len();
        let mut i: usize = 0;
        while i < n
            invariant
                n == self.keys@.len(),
                self.keys@.len() == self.children@.len(),
                forall|a: int, b: int|
                    0 <= a < b < self.keys@.len() ==> (#[trigger] self.keys@[a])@ != (#[trigger] self.keys@[b])@,
                i <= n,
                forall|j: int| 0 <= j < i ==> self.keys@[j]@ != k@,
            decreases n - i,
        {
            if str_eq(self.keys[i].as_str(), k) {
                proof {
                    lemma_key_index(self@, k@);
                    let j = key_index(self@, k@);
                    assert(self@[i as int].0 == self.keys@[i as int]@);
                    if j != i {
                        assert(self@[j].0 == self.keys@[j]@);
                        if j > i {
                            assert(self.keys@[i as int]@ != self.keys@[j]@);
                        }
                    }
                }
                return Some(i);
            }
            i = i + 1;
        }
        assert forall|j: int| 0 <= j < self@.len() implies (#[trigger] self@[j]).0 != k@ by {
            assert(self@[j].0 == self.keys@[j]@);
        }
        None
    }

    /// Whether `k` is one of the folder names.
    pub fn contains_key(&self, k: &str) -> (r: bool)
        ensures
            r == has_key(self@, k@),
    {
        self.find(k).is_some()
    }

    /// The file names of folder `k`, if the map holds it.
    pub fn get(&self, k: &str) -> (r: Option<&Vec<String>>)
        ensures
            match r {
                Some(c) => exists|i: int|
                    0 <= i < self@.len() && (#[trigger] self@[i]).0 == k@ && self@[i].1 == views(c@),
                None => !has_key(self@, k@),
            },
    {
        match self.find(k) {
            Some(i) => {
                proof { use_type_invariant(self); }
                let c = &self.children[i];
                assert(self@[i as int].1 == views(c@));
                Some(c)
            },
            None => None,
        }
    }

    /// The folder names, in order.
    pub fn keys(&self) -> (r: Vec<String>)
        ensures
            views(r@) == keys_of(self@),
            views(r@).no_duplicates(),
    {
        proof { use_type_invariant(self); }
        let r = self.keys.clone();
        assert(views(r@) =~= keys_of(self@)) by {
            assert forall|i: int| 0 <= i < r@.len() implies r@[i]@ == self.keys@[i]@ by {
                assert(cloned::<String>(self.keys@[i], r@[i]));
            }
        }
        r
    }

    /// The file names of all folders, folder by folder.
    pub fn file_names(&self) -> (r: Vec<String>)
        ensures
            views(r@) == all_files(self@),
    {
        proof { use_type_invariant(self); }
        let mut out: Vec<String> = Vec::new();
        let n = self.keys.len();
        let mut i: usize = 0;
        assert(self@.take(0) =~= Seq::<(Seq<char>, Seq<Seq<char>>)>::empty());
        while i < n
            invariant
                n == self.keys@.len(),
                n == self.children@.len(),
                n == self@.len(),
                i <= n,
                views(out@) == all_files(self@.take(i as int)),
            decreases n - i,
        {
            let files = &self.children[i];
            let ghost before = views(out@);
            let m = files.len();
            let mut j: usize = 0;
            assert(views(files@).take(0) =~= Seq::<Seq<char>>::empty());
            while j < m
                invariant
                    m == files@.len(),
                    j <= m,
                    views(out@) == before + views(files@).take(j as int),
                decreases m - j,
            {
                let ghost o = views(out@);
                out.push(owned(files[j].as_str()));
                assert(views(out@) =~= o.push(files@[j as int]@));
                assert(views(files@).take(j + 1) =~= views(files@).take(j as int).push(files@[j as int]@));
                assert(views(out@) =~= before + views(files@).take(j + 1));
                j = j + 1;
            }
            assert(views(files@).take(m as int) =~= views(files@));
            assert(self@[i as int].1 == views(files@));
            assert(self@.take(i + 1).drop_last() =~= self@.take(i as int));
            assert(self@.take(i + 1).last() == self@[i as int]);
            i = i + 1;
        }
        assert(self@.take(n as int) =~= self@);
        out
    }

    /// Makes sure folder `k` is in the map; a new folder starts with no files.
    pub fn register_dir(&mut self, k: String)
        ensures
            final(self)@ == register_spec(old(self)@, k@),
    {
        proof { lemma_key_index(self@, k@); }
        match self.find(k.as_str()) {
            Some(_) => {},
            None => {
                proof { use_type_invariant(&*self); }
                let ghost old_v = self@;
                let ghost kv = k@;
                assert forall|j: int| 0 <= j < self.keys@.len() implies self.keys@[j]@ != kv by {
                    assert(self@[j].0 == self.keys@[j]@);
                }
                self.push_new(k);
                assert(self@ =~~= old_v.push((kv, Seq::<Seq<char>>::empty())));
            },
        }
    }

    fn push_new(&mut self, k: String)
        requires
            forall|j: int| 0 <= j < old(self).keys@.len() ==> old(self).keys@[j]@ != k@,
        ensures
            final(self).keys@ == old(self).keys@.push(k),
            final(self).children@.len() == old(self).children@.len() + 1,
            final(self).children@.last()@ == Seq::<String>::empty(),
            forall|j: int| 0 <= j < old(self).children@.len() ==> final(self).children@[j] == old(self).children@[j],
    {
        let mut tmp = FolderMap::new();
        std::mem::swap(self, &mut tmp);
        proof { use_type_invariant(&tmp); }
        let FolderMap { mut keys, mut children } = tmp;
        keys.push(k);
        children.push(Vec::new());
        *self = FolderMap { keys, children };
    }

    fn push_at(&mut self, i: usize, f: String)
        requires
            i < old(self)@.len(),
        ensures
            final(self).keys@ == old(self).keys@,
            final(self).children@.len() == old(self).children@.len(),
            final(self).children@[i as int]@ == old(self).children@[i as int]@.push(f),
            forall|j: int|
                0 <= j < final(self).children@.len() && j != i ==> final(self).children@[j]
                    == old(self).children@[j],
    {
        proof { use_type_invariant(&*self); }
        let mut tmp = FolderMap::new();
        std::mem::swap(self, &mut tmp);
        proof { use_type_invariant(&tmp); }
        let FolderMap { keys, mut children } = tmp;
        let mut c: Vec<String> = Vec::new();
        std::mem::swap(&mut c, &mut children[i]);
        c.push(f);
        children.set(i, c);
        *self = FolderMap { keys, children };
    }

    /// Appends file `f` to folder `k`, adding the folder when it is missing.
    pub fn push_child(&mut self, k: String, f: String)
        ensures
            final(self)@ == push_child_spec(old(self)@, k@, f@),
    {
        proof {
            use_type_invariant(&*self);
            lemma_key_index(self@, k@);
        }
        match self.find(k.as_str()) {
            Some(i) => {
                let ghost old_v = self@;
                self.push_at(i, f);
                assert(self@ =~~= old_v.update(i as int, (k@, old_v[i as int].1.push(f@))));
            },
            None => {
                self.register_dir(k);
                proof { use_type_invariant(&*self); }
                assert(self@.len() == self.keys@.len());
                let i = self.keys.len() - 1;
                let ghost mid = self@;
                self.push_at(i, f);
                assert(self@ =~~= mid.update(i as int, (mid[i as int].0, mid[i as int].1.push(f@))));
            },
        }
    }

    /// Removes folder `k` if the map holds it.
    pub fn remove(&mut self, k: &str)
        ensures
            final(self)@ == remove_spec(old(self)@, k@),
    {
        proof {
            use_type_invariant(&*self);
            lemma_key_index(self@, k@);
        }
        match self.find(k) {
            Some(i) => {
                let ghost old_v = self@;
                let mut tmp = FolderMap::new();
                std::mem::swap(self, &mut tmp);
                let FolderMap { mut keys, mut children } = tmp;
                let ghost ok = keys@;
                keys.remove(i);
                children.remove(i);
                assert forall|a: int, b: int|
                    0 <= a < b < keys@.len() implies (#[trigger] keys@[a])@ != (#[trigger] keys@[b])@ by {
                    let a2 = if a < i { a } else { a + 1 };
                    let b2 = if b < i { b } else { b + 1 };
                    assert(keys@[a] == ok[a2] && keys@[b] == ok[b2]);
                }
                *self = FolderMap { keys, children };
                assert(self@ =~~= old_v.remove(i as int));
            },
            None => {},
        }
    }
}

} // verus!
