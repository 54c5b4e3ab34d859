use vstd::prelude::*;

use crate::fic::Fic;
use crate::text::{file_name, lower, lowercase, path_file_name};

verus! {

/// The entries of a keyed vector, keys taken by their characters.
pub open spec fn entries<V>(s: Seq<(String, V)>) -> Seq<(Seq<char>, V)> {
    s.map_values(|e: (String, V)| (e.0@, e.1))
}

/// The first position of key `k` among the entries, or -1.
pub open spec fn find<V>(s: Seq<(Seq<char>, V)>, k: Seq<char>) -> int
    decreases s.len(),
{
    if s.len() == 0 {
        -1
    } else {
        let i = find(s.drop_last(), k);
        if i >= 0 {
            i
        } else if s.last().0 == k {
            s.len() - 1
        } else {
            -1
        }
    }
}

/// The value stored under `k`, as a map lookup sees it.
pub open spec fn lookup<V>(s: Seq<(Seq<char>, V)>, k: Seq<char>) -> Option<V> {
    if find(s, k) >= 0 {
        Some(s[find(s, k)].1)
    } else {
        None
    }
}

/// The entries after storing `v` under `k`: an entry with the same key is
/// replaced in place, otherwise the new entry goes last (the insertion of
/// a map).
pub open spec fn put<V>(s: Seq<(Seq<char>, V)>, k: Seq<char>, v: V) -> Seq<(Seq<char>, V)> {
    if find(s, k) >= 0 {
        s.update(find(s, k), (k, v))
    } else {
        s.push((k, v))
    }
}

/// No key occurs twice.
pub open spec fn keys_unique<V>(s: Seq<(Seq<char>, V)>) -> bool {
    forall|i: int, j: int| 0 <= i < j < s.len() ==> s[i].0 != s[j].0
}

pub proof fn lemma_find<V>(s: Seq<(Seq<char>, V)>, k: Seq<char>)
    ensures
        -1 <= find(s, k) < s.len(),
        find(s, k) >= 0 ==> s[find(s, k)].0 == k,
        find(s, k) >= 0 ==> forall|j: int| 0 <= j < find(s, k) ==> s[j].0 != k,
        find(s, k) == -1 ==> forall|j: int| 0 <= j < s.len() ==> s[j].0 != k,
    decreases s.len(),
{
    if s.len() > 0 {
        let d = s.drop_last();
        lemma_find(d, k);
        assert(forall|j: int| 0 <= j < d.len() ==> d[j] == s[j]);
    }
}

/// Storing under a key keeps the keys unique.
pub proof fn lemma_put_keeps_keys_unique<V>(s: Seq<(Seq<char>, V)>, k: Seq<char>, v: V)
    requires
        keys_unique(s),
    ensures
        keys_unique(put(s, k, v)),
        lookup(put(s, k, v), k) == Some(v),
{
    lemma_find(s, k);
    let t = put(s, k, v);
    lemma_find(t, k);
    if find(s, k) < 0 {
        assert(t[s.len() as int].0 == k);
        assert(forall|j: int| 0 <= j < s.len() ==> t[j] == s[j]);
        assert(find(t, k) == s.len());
    } else {
        let f = find(s, k);
        assert(forall|j: int| 0 <= j < s.len() && j != f ==> t[j] == s[j]);
        assert(t[f] == (k, v));
        assert(find(t, k) == f);
    }
}

/// Finds the position of `key` among the entries.
pub fn find_key<V>(s: &Vec<(String, V)>, key: &String) -> (r: Option<usize>)
    ensures
        match r {
            Some(i) => find(entries(s@), key@) == i,
            None => find(entries(s@), key@) == -1,
        },
{
    let mut i: usize = 0;
    assert(entries(s@).subrange(0, 0) =~= Seq::<(Seq<char>, V)>::empty());
    while i < s.len()
        invariant
            i <= s.len(),
            find(entries(s@), key@) == find(entries(s@).subrange(0, i as int), key@) || find(
                entries(s@).subrange(0, i as int),
                key@,
            ) == -1,
            find(entries(s@).subrange(0, i as int), key@) == -1,
        decreases s.len() - i,
    {
        let ghost sub = entries(s@).subrange(0, i as int + 1);
        assert(sub.drop_last() =~= entries(s@).subrange(0, i as int));
        if s[i].0 == *key {
            assert(find(sub, key@) == i);
            proof {
                lemma_find_prefix(entries(s@), key@, i as int + 1);
            }
            return Some(i);
        }
        i = i + 1;
    }
    assert(entries(s@).subrange(0, s.len() as int) =~= entries(s@));
    None
}

/// The first position of a key in a prefix that holds it is its first
/// position in the whole.
pub proof fn lemma_find_prefix<V>(s: Seq<(Seq<char>, V)>, k: Seq<char>, n: int)
    requires
        0 <= n <= s.len(),
        find(s.subrange(0, n), k) >= 0,
    ensures
        find(s, k) == find(s.subrange(0, n), k),
    decreases s.len() - n,
{
    if n < s.len() {
        let t = s.subrange(0, n + 1);
        assert(t.drop_last() =~= s.subrange(0, n));
        assert(s.subrange(0, n + 1) == t);
        lemma_find_prefix(s, k, n + 1);
    } else {
        assert(s.subrange(0, n) =~= s);
    }
}

/// Stores `v` under `key`, replacing an entry with the same key.
pub fn put_entry<V>(s: &mut Vec<(String, V)>, key: String, v: V)
    ensures
        entries(final(s)@) == put(entries(old(s)@), key@, v),
{
    let ghost k = key@;
    match find_key(s, &key) {
        Some(i) => {
            proof {
                lemma_find(entries(s@), k);
            }
            s.set(i, (key, v));
            assert(entries(s@) =~= put(entries(old(s)@), k, v));
        },
        None => {
            s.push((key, v));
            assert(entries(s@) =~= put(entries(old(s)@), k, v));
        },
    }
}

} // verus!

verus! {

/// A folder: its files and sub-folders, each stored under its name in
/// lower case.
pub struct Fold {
    /// The folder's name (only its own name, the full path for a root).
    pub name: String,
    /// The files directly inside, by lower-case name.
    pub fics: Vec<(String, Fic)>,
    /// The sub-folders, by lower-case name.
    pub folds: Vec<(String, Fold)>,
    /// The folder could not be read.
    pub forbidden: bool,
    /// Number of sub-folders added, at any depth.
    pub folder_count: u32,
    /// Number of files added, at any depth.
    pub file_count: u32,
}

impl Fold {
    /// An empty, readable folder called `name` with nothing counted.
    pub open spec fn is_empty_named(self, name: Seq<char>) -> bool {
        &&& self.name@ == name
        &&& self.fics@.len() == 0
        &&& self.folds@.len() == 0
        &&& !self.forbidden
        &&& self.folder_count == 0
        &&& self.file_count == 0
    }

    /// Keys unique at every level, and every file well formed.
    pub open spec fn wf(self) -> bool
        decreases self,
    {
        &&& keys_unique(entries(self.fics@))
        &&& keys_unique(entries(self.folds@))
        &&& forall|i: int| 0 <= i < self.fics@.len() ==> (#[trigger] self.fics@[i]).1.wf()
        &&& forall|i: int|
            0 <= i < self.folds@.len() ==> (#[trigger] self.folds@[i]).1.wf()
    }

    /// The files, by key.
    pub open spec fn fic_entries(self) -> Seq<(Seq<char>, Fic)> {
        entries(self.fics@)
    }

    /// The sub-folders, by key.
    pub open spec fn fold_entries(self) -> Seq<(Seq<char>, Fold)> {
        entries(self.folds@)
    }

    /// An empty root folder named after the whole path `dir`.
    pub fn new_root(dir: &str) -> (r: Fold)
        ensures
            r.wf(),
            counted(r),
            tree_ok(r),
            r.is_empty_named(dir@),
    {
        Fold {
            name: String::from_str(dir),
            fics: Vec::new(),
            folds: Vec::new(),
            forbidden: false,
            folder_count: 0,
            file_count: 0,
        }
    }

    /// An empty folder named after the last component of `dir`, or after
    /// the whole path when it has none (a root such as `/`).
    pub fn new(dir: &str) -> (r: Fold)
        ensures
            r.wf(),
            counted(r),
            tree_ok(r),
            r.is_empty_named(
                match file_name(dir@) {
                    Some(n) => n,
                    None => dir@,
                },
            ),
    {
        let n = match path_file_name(dir) {
            Some(n) => n,
            None => String::from_str(dir),
        };
        Fold { name: n, fics: Vec::new(), folds: Vec::new(), forbidden: false, folder_count: 0, file_count: 0 }
    }

    /// Adds a sub-folder under its lower-case name (replacing one with the
    /// same key) and counts it with all it holds.
    pub fn add_fold(&mut self, fold: Fold)
        requires
            file_name(fold.name@) is Some,
            old(self).folder_count + 1 + fold.folder_count <= u32::MAX,
            old(self).file_count + fold.file_count <= u32::MAX,
        ensures
            final(self).fold_entries() == put(
                old(self).fold_entries(),
                lowercase(file_name(fold.name@)->0),
                fold,
            ),
            final(self).folder_count == old(self).folder_count + 1 + fold.folder_count,
            final(self).file_count == old(self).file_count + fold.file_count,
            final(self).fics@ == old(self).fics@,
            final(self).name@ == old(self).name@,
            final(self).forbidden == old(self).forbidden,
            old(self).wf() && fold.wf() ==> final(self).wf(),
            counted(*old(self)) && counted(fold) && find(
                old(self).fold_entries(),
                lowercase(file_name(fold.name@)->0),
            ) == -1 ==> counted(*final(self)),
            fold_added(*old(self), *final(self), fold),
    {
        let name = match path_file_name(fold.name.as_str()) {
            Some(n) => n,
            None => String::new(),
        };
        let ghost fv = fold;
        self.folder_count = self.folder_count + 1;
        let d = fold.get_counts();
        self.folder_count = self.folder_count + d.0;
        self.file_count = self.file_count + d.1;
        let key = to_lower(&name);
        put_entry(&mut self.folds, key, fold);
        proof {
            let k = lowercase(file_name(fv.name@)->0);
            lemma_counts_follow_tree(*old(self), *self, k, arbitrary(), fv);
            lemma_find(old(self).fold_entries(), k);
            if old(self).wf() && fv.wf() {
                lemma_put_keeps_keys_unique(old(self).fold_entries(), k, fv);
                let e = put(old(self).fold_entries(), k, fv);
                assert forall|i: int| 0 <= i < self.folds@.len() implies (#[trigger] self.folds@[i]).1.wf() by {
                    assert(self.fold_entries()[i].1 == self.folds@[i].1);
                    if find(old(self).fold_entries(), k) >= 0 {
                        if i != find(old(self).fold_entries(), k) {
                            assert(old(self).fold_entries()[i].1 == old(self).folds@[i].1);
                        }
                    } else if i < old(self).folds@.len() {
                        assert(old(self).fold_entries()[i].1 == old(self).folds@[i].1);
                    }
                }
            }
        }
    }

    /// Adds a file under its lower-case name (replacing one with the same
    /// key) and counts it.
    pub fn add_fic(&mut self, fic: Fic)
        requires
            file_name(fic.name@) is Some,
            old(self).file_count + 1 <= u32::MAX,
        ensures
            final(self).fic_entries() == put(
                old(self).fic_entries(),
                lowercase(file_name(fic.name@)->0),
                fic,
            ),
            final(self).file_count == old(self).file_count + 1,
            final(self).folder_count == old(self).folder_count,
            final(self).folds@ == old(self).folds@,
            final(self).name@ == old(self).name@,
            final(self).forbidden == old(self).forbidden,
            old(self).wf() && fic.wf() ==> final(self).wf(),
            counted(*old(self)) && find(old(self).fic_entries(), lowercase(file_name(fic.name@)->0)) == -1
                ==> counted(*final(self)),
            fic_added(*old(self), *final(self), fic),
    {
        let name = match path_file_name(fic.name.as_str()) {
            Some(n) => n,
            None => String::new(),
        };
        let ghost fv = fic;
        self.file_count = self.file_count + 1;
        let key = to_lower(&name);
        put_entry(&mut self.fics, key, fic);
        proof {
            let k = lowercase(file_name(fv.name@)->0);
            lemma_counts_follow_tree(*old(self), *self, k, fv, *old(self));
            lemma_find(old(self).fic_entries(), k);
            if old(self).wf() && fv.wf() {
                lemma_put_keeps_keys_unique(old(self).fic_entries(), k, fv);
                assert forall|i: int| 0 <= i < self.fics@.len() implies (#[trigger] self.fics@[i]).1.wf() by {
                    assert(self.fic_entries()[i].1 == self.fics@[i].1);
                    if find(old(self).fic_entries(), k) >= 0 {
                        if i != find(old(self).fic_entries(), k) {
                            assert(old(self).fic_entries()[i].1 == old(self).fics@[i].1);
                        }
                    } else if i < old(self).fics@.len() {
                        assert(old(self).fic_entries()[i].1 == old(self).fics@[i].1);
                    }
                }
            }
        }
    }

    /// The numbers of sub-folders and of files added, at any depth.
    pub fn get_counts(&self) -> (r: (u32, u32))
        ensures
            r == (self.folder_count, self.file_count),
    {
        (self.folder_count, self.file_count)
    }
}

/// The name in lower case (std `str::to_lowercase`).
pub fn to_lower(name: &String) -> (r: String)
    ensures
        r@ == lowercase(name@),
{
    lower(name.as_str())
}


/// The number of folders in the sub-trees of `f.folds[i..]`, each counted
/// with everything below it.
pub open spec fn folders_below(f: Fold, i: int) -> nat
    decreases f, f.folds@.len() - i,
{
    if i < 0 || i >= f.folds@.len() {
        0
    } else {
        1 + folders_below(f.folds@[i].1, 0) + folders_below(f, i + 1)
    }
}

/// The number of files in the sub-trees of `f.folds[i..]`.
pub open spec fn files_below(f: Fold, i: int) -> nat
    decreases f, f.folds@.len() - i,
{
    if i < 0 || i >= f.folds@.len() {
        0
    } else {
        f.folds@[i].1.fics@.len() + files_below(f.folds@[i].1, 0) + files_below(f, i + 1)
    }
}

/// The counts of `f`, and of every folder below it, are the numbers of
/// folders and files that the tree holds.
pub open spec fn counted(f: Fold) -> bool
    decreases f,
{
    &&& f.folder_count == folders_below(f, 0)
    &&& f.file_count == f.fics@.len() + files_below(f, 0)
    &&& forall|i: int| 0 <= i < f.folds@.len() ==> counted(#[trigger] f.folds@[i].1)
}

proof fn lemma_below_push(f: Fold, g: Fold, y: Fold, i: int)
    requires
        g.folds@.len() == f.folds@.len() + 1,
        forall|j: int| 0 <= j < f.folds@.len() ==> g.folds@[j].1 == f.folds@[j].1,
        g.folds@[f.folds@.len() as int].1 == y,
        0 <= i <= f.folds@.len(),
    ensures
        folders_below(g, i) == folders_below(f, i) + 1 + folders_below(y, 0),
        files_below(g, i) == files_below(f, i) + y.fics@.len() + files_below(y, 0),
    decreases f.folds@.len() - i,
{
    if i < f.folds@.len() {
        lemma_below_push(f, g, y, i + 1);
        assert(g.folds@[i].1 == f.folds@[i].1);
    } else {
        assert(folders_below(g, i + 1) == 0);
        assert(files_below(g, i + 1) == 0);
        assert(folders_below(f, i) == 0);
        assert(files_below(f, i) == 0);
    }
}

proof fn lemma_below_same(f: Fold, g: Fold, i: int)
    requires
        g.folds@.len() == f.folds@.len(),
        forall|j: int| 0 <= j < f.folds@.len() ==> g.folds@[j].1 == f.folds@[j].1,
    ensures
        folders_below(g, i) == folders_below(f, i),
        files_below(g, i) == files_below(f, i),
    decreases f.folds@.len() - i,
{
    if 0 <= i < f.folds@.len() {
        lemma_below_same(f, g, i + 1);
        assert(g.folds@[i].1 == f.folds@[i].1);
    }
}

/// A new folder is counted; adding a file or a counted sub-folder under a
/// key that is not there yet keeps the counts equal to what the tree
/// holds.  (Under a key already there the old entry is replaced while the
/// counts still grow, so they then count more than the tree holds.)
pub proof fn lemma_counts_follow_tree(f: Fold, g: Fold, k: Seq<char>, fic: Fic, sub: Fold)
    ensures
        f.fics@.len() == 0 && f.folds@.len() == 0 && f.folder_count == 0 && f.file_count == 0 ==> counted(f),
        counted(f) && find(f.fic_entries(), k) == -1 && g.fic_entries() == put(f.fic_entries(), k, fic)
            && g.file_count == f.file_count + 1 && g.folder_count == f.folder_count && g.folds@ == f.folds@
            ==> counted(g),
        counted(f) && counted(sub) && find(f.fold_entries(), k) == -1 && g.fold_entries() == put(
            f.fold_entries(),
            k,
            sub,
        ) && g.folder_count == f.folder_count + 1 + sub.folder_count && g.file_count == f.file_count
            + sub.file_count && g.fics@ == f.fics@ ==> counted(g),
{
    if counted(f) && find(f.fic_entries(), k) == -1 && g.fic_entries() == put(f.fic_entries(), k, fic)
        && g.file_count == f.file_count + 1 && g.folder_count == f.folder_count && g.folds@ == f.folds@ {
        assert(g.fic_entries().len() == g.fics@.len());
        assert(f.fic_entries().len() == f.fics@.len());
        lemma_below_same(f, g, 0);
    }
    if counted(f) && counted(sub) && find(f.fold_entries(), k) == -1 && g.fold_entries() == put(
        f.fold_entries(),
        k,
        sub,
    ) && g.folder_count == f.folder_count + 1 + sub.folder_count && g.file_count == f.file_count
        + sub.file_count && g.fics@ == f.fics@ {
        let n = f.folds@.len();
        assert(g.fold_entries().len() == g.folds@.len());
        assert(f.fold_entries().len() == f.folds@.len());
        assert(g.folds@.len() == n + 1);
        assert forall|i: int| 0 <= i < n implies g.folds@[i].1 == f.folds@[i].1 by {
            assert(g.fold_entries()[i] == f.fold_entries()[i]);
            assert(g.fold_entries()[i] == (g.folds@[i].0@, g.folds@[i].1));
            assert(f.fold_entries()[i] == (f.folds@[i].0@, f.folds@[i].1));
        }
        assert(g.fold_entries()[n as int] == (k, sub));
        assert(g.fold_entries()[n as int] == (g.folds@[n as int].0@, g.folds@[n as int].1));
        lemma_below_push(f, g, sub, 0);
        assert forall|i: int| 0 <= i < g.folds@.len() implies counted(#[trigger] g.folds@[i].1) by {
            if i < n {
                assert(counted(f.folds@[i].1));
            } else {
                assert(g.folds@[i].1 == sub);
            }
        }
    }
}


impl Fold {
    /// Every file, at any depth, is well formed.
    pub open spec fn fics_wf(self) -> bool
        decreases self,
    {
        &&& forall|i: int| 0 <= i < self.fics@.len() ==> (#[trigger] self.fics@[i]).1.wf()
        &&& forall|i: int| 0 <= i < self.folds@.len() ==> (#[trigger] self.folds@[i]).1.fics_wf()
    }

    /// Every file time, at any depth, is well formed.
    pub open spec fn times_wf(self) -> bool
        decreases self,
    {
        &&& forall|i: int| 0 <= i < self.fics@.len() ==> (#[trigger] self.fics@[i]).1.modify.wf()
        &&& forall|i: int| 0 <= i < self.folds@.len() ==> (#[trigger] self.folds@[i]).1.times_wf()
    }

    /// Whether every file time, at any depth, is well formed.
    pub fn check_times(&self) -> (r: bool)
        ensures
            r == self.times_wf(),
        decreases *self,
    {
        let mut i: usize = 0;
        while i < self.fics.len()
            invariant
                i <= self.fics.len(),
                forall|k: int| 0 <= k < i ==> (#[trigger] self.fics@[k]).1.modify.wf(),
            decreases self.fics.len() - i,
        {
            if !(self.fics[i].1.modify.nanos < 1_000_000_000) {
                return false;
            }
            i = i + 1;
        }
        let mut j: usize = 0;
        while j < self.folds.len()
            invariant
                j <= self.folds.len(),
                i == self.fics.len(),
                forall|k: int| 0 <= k < i ==> (#[trigger] self.fics@[k]).1.modify.wf(),
                forall|k: int| 0 <= k < j ==> (#[trigger] self.folds@[k]).1.times_wf(),
            decreases self.folds.len() - j,
        {
            if !self.folds[j].1.check_times() {
                return false;
            }
            j = j + 1;
        }
        true
    }

    /// A well-formed tree has well-formed files.
    pub proof fn lemma_wf_fics_wf(self)
        requires
            self.wf(),
        ensures
            self.fics_wf(),
        decreases self,
    {
        assert forall|i: int| 0 <= i < self.folds@.len() implies (#[trigger] self.folds@[i]).1.fics_wf() by {
            self.folds@[i].1.lemma_wf_fics_wf();
        }
    }

    /// Whether every file, at any depth, is well formed.
    pub fn check_fics(&self) -> (r: bool)
        ensures
            r == self.fics_wf(),
        decreases *self,
    {
        let mut i: usize = 0;
        while i < self.fics.len()
            invariant
                i <= self.fics.len(),
                forall|k: int| 0 <= k < i ==> (#[trigger] self.fics@[k]).1.wf(),
            decreases self.fics.len() - i,
        {
            let f = &self.fics[i].1;
            if !(f.len <= 9_223_372_036_854_775_807u64 && f.modify.nanos < 1_000_000_000) {
                return false;
            }
            i = i + 1;
        }
        let mut j: usize = 0;
        while j < self.folds.len()
            invariant
                j <= self.folds.len(),
                forall|k: int| 0 <= k < i ==> (#[trigger] self.fics@[k]).1.wf(),
                i == self.fics.len(),
                forall|k: int| 0 <= k < j ==> (#[trigger] self.folds@[k]).1.fics_wf(),
            decreases self.folds.len() - j,
        {
            if !self.folds[j].1.check_fics() {
                return false;
            }
            j = j + 1;
        }
        true
    }
}


/// The key under which an entry called `name` is stored: its last
/// component in lower case.
pub open spec fn key_of(name: Seq<char>) -> Seq<char> {
    lowercase(file_name(name)->0)
}

/// Every entry, at any depth, has a name with a last component and is
/// stored under the key of that name.
pub open spec fn keys_named(f: Fold) -> bool
    decreases f,
{
    &&& forall|i: int|
        0 <= i < f.fics@.len() ==> file_name((#[trigger] f.fics@[i]).1.name@) is Some && f.fics@[i].0@
            == key_of(f.fics@[i].1.name@)
    &&& forall|i: int|
        0 <= i < f.folds@.len() ==> file_name((#[trigger] f.folds@[i]).1.name@) is Some && f.folds@[i].0@
            == key_of(f.folds@[i].1.name@) && keys_named(f.folds@[i].1)
}

/// A tree as reading a folder builds it: well formed, its counts those of
/// what it holds, and every entry under the key of its name, at every
/// level.
pub open spec fn tree_ok(f: Fold) -> bool {
    &&& f.wf()
    &&& counted(f)
    &&& keys_named(f)
}

/// `g` is `f` after [`Fold::add_fic`] of `fic`.
pub open spec fn fic_added(f: Fold, g: Fold, fic: Fic) -> bool {
    &&& file_name(fic.name@) is Some
    &&& g.fic_entries() == put(f.fic_entries(), key_of(fic.name@), fic)
    &&& g.file_count == f.file_count + 1
    &&& g.folder_count == f.folder_count
    &&& g.folds@ == f.folds@
    &&& g.name@ == f.name@
    &&& g.forbidden == f.forbidden
}

/// `g` is `f` after [`Fold::add_fold`] of `sub`.
pub open spec fn fold_added(f: Fold, g: Fold, sub: Fold) -> bool {
    &&& file_name(sub.name@) is Some
    &&& g.fold_entries() == put(f.fold_entries(), key_of(sub.name@), sub)
    &&& g.folder_count == f.folder_count + 1 + sub.folder_count
    &&& g.file_count == f.file_count + sub.file_count
    &&& g.fics@ == f.fics@
    &&& g.name@ == f.name@
    &&& g.forbidden == f.forbidden
}

/// One step of reading a folder: a well-formed file, or a sub-folder that
/// was itself read this way, added under a key that the folder does not
/// hold yet (no two entries of a directory agree in lower case); or the
/// folder marked unreadable, its entries and counts unchanged.
pub open spec fn walk_step(f: Fold, g: Fold) -> bool {
    ||| g.fics@ == f.fics@ && g.folds@ == f.folds@ && g.folder_count == f.folder_count && g.file_count
        == f.file_count
    ||| exists|fic: Fic|
        #[trigger] fic_added(f, g, fic) && fic.wf() && find(f.fic_entries(), key_of(fic.name@)) == -1
    ||| exists|sub: Fold|
        #[trigger] fold_added(f, g, sub) && tree_ok(sub) && find(f.fold_entries(), key_of(sub.name@)) == -1
}

/// Each step of reading a folder keeps the tree as it should be.
pub proof fn lemma_walk_step(f: Fold, g: Fold)
    requires
        tree_ok(f),
        walk_step(f, g),
    ensures
        tree_ok(g),
{
    if g.fics@ == f.fics@ && g.folds@ == f.folds@ && g.folder_count == f.folder_count && g.file_count
        == f.file_count {
        lemma_below_same(f, g, 0);
        assert(g.fic_entries() == f.fic_entries());
        assert(g.fold_entries() == f.fold_entries());
        assert(tree_ok(g));
    } else if exists|fic: Fic|
        #[trigger] fic_added(f, g, fic) && fic.wf() && find(f.fic_entries(), key_of(fic.name@)) == -1 {
        let fic = choose|fic: Fic|
            #[trigger] fic_added(f, g, fic) && fic.wf() && find(f.fic_entries(), key_of(fic.name@)) == -1;
        let k = key_of(fic.name@);
        lemma_counts_follow_tree(f, g, k, fic, f);
        lemma_put_keeps_keys_unique(f.fic_entries(), k, fic);
        let n = f.fics@.len();
        assert(g.fic_entries().len() == g.fics@.len());
        assert(f.fic_entries().len() == n);
        assert(g.fics@.len() == n + 1);
        assert forall|i: int| 0 <= i < g.fics@.len() implies (#[trigger] g.fics@[i]).1.wf() && file_name(
            g.fics@[i].1.name@,
        ) is Some && g.fics@[i].0@ == key_of(g.fics@[i].1.name@) by {
            assert(g.fic_entries()[i] == (g.fics@[i].0@, g.fics@[i].1));
            if i < n {
                assert(g.fic_entries()[i] == f.fic_entries()[i]);
                assert(f.fic_entries()[i] == (f.fics@[i].0@, f.fics@[i].1));
            } else {
                assert(g.fic_entries()[i] == (k, fic));
            }
        }
        assert(keys_named(g));
    } else {
        let sub = choose|sub: Fold|
            #[trigger] fold_added(f, g, sub) && tree_ok(sub) && find(f.fold_entries(), key_of(sub.name@)) == -1;
        let k = key_of(sub.name@);
        lemma_counts_follow_tree(f, g, k, arbitrary(), sub);
        lemma_put_keeps_keys_unique(f.fold_entries(), k, sub);
        let n = f.folds@.len();
        assert(g.fold_entries().len() == g.folds@.len());
        assert(f.fold_entries().len() == n);
        assert(g.folds@.len() == n + 1);
        assert forall|i: int| 0 <= i < g.folds@.len() implies (#[trigger] g.folds@[i]).1.wf() && file_name(
            g.folds@[i].1.name@,
        ) is Some && g.folds@[i].0@ == key_of(g.folds@[i].1.name@) && keys_named(g.folds@[i].1) by {
            assert(g.fold_entries()[i] == (g.folds@[i].0@, g.folds@[i].1));
            if i < n {
                assert(g.fold_entries()[i] == f.fold_entries()[i]);
                assert(f.fold_entries()[i] == (f.folds@[i].0@, f.folds@[i].1));
            } else {
                assert(g.fold_entries()[i] == (k, sub));
            }
        }
        assert(keys_named(g));
    }
}

/// Reading a folder builds a tree as it should be: starting from an empty
/// folder, after any sequence of steps that each add a well-formed file
/// or a sub-folder read the same way, under a key not held yet, every
/// intermediate and the final tree is well formed, counts exactly the
/// folders and files it holds at every level, and stores every entry
/// under the lower-case name of its last component.
pub proof fn lemma_walk(steps: Seq<Fold>)
    requires
        steps.len() > 0,
        steps[0].is_empty_named(steps[0].name@),
        forall|i: int| 0 <= i < steps.len() - 1 ==> #[trigger] walk_step(steps[i], steps[i + 1]),
    ensures
        forall|i: int| 0 <= i < steps.len() ==> #[trigger] tree_ok(steps[i]),
    decreases steps.len(),
{
    if steps.len() == 1 {
        assert(tree_ok(steps[0]));
    } else {
        let pre = steps.drop_last();
        assert forall|i: int| 0 <= i < pre.len() - 1 implies #[trigger] walk_step(pre[i], pre[i + 1]) by {
            assert(walk_step(steps[i], steps[i + 1]));
        }
        lemma_walk(pre);
        let m = steps.len() - 1;
        assert(tree_ok(pre[m - 1]));
        let j = m - 1;
        assert(walk_step(steps[j], steps[j + 1]));
        assert(j + 1 == m);
        lemma_walk_step(steps[j], steps[m]);
        assert forall|i: int| 0 <= i < steps.len() implies #[trigger] tree_ok(steps[i]) by {
            if i < m {
                assert(tree_ok(pre[i]));
            }
        }
    }
}

} // verus!
