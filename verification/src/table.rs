//! The collections that the freezer keeps of package names: a table from
//! package name to an integer (a uid or a pid) and a set of names.
//! Entries are kept in insertion order; a key occurs at most once.
use vstd::prelude::*;
use crate::text::{chars_of, string_of, copy_range};

verus! {

/// A name-to-number entry, viewed.
pub type Pair = (Seq<char>, usize);

pub open spec fn keys_unique(p: Seq<Pair>) -> bool {
    forall|i: int, j: int| 0 <= i < p.len() && 0 <= j < p.len() && i != j ==> p[i].0 != p[j].0
}

/// The first position at or after `i` whose key is `k`.
pub open spec fn key_index_from(p: Seq<Pair>, k: Seq<char>, i: int) -> Option<int>
    decreases p.len() - i,
{
    if i < 0 || i >= p.len() {
        None
    } else if p[i].0 == k {
        Some(i)
    } else {
        key_index_from(p, k, i + 1)
    }
}

pub open spec fn key_index(p: Seq<Pair>, k: Seq<char>) -> Option<int> {
    key_index_from(p, k, 0)
}

/// The number stored under `k`.
pub open spec fn pairs_get(p: Seq<Pair>, k: Seq<char>) -> Option<usize> {
    match key_index(p, k) {
        Some(i) => Some(p[i].1),
        None => None,
    }
}

/// Storing `v` under `k`: an existing entry is updated in place, a new key
/// is appended.
pub open spec fn pairs_insert(p: Seq<Pair>, k: Seq<char>, v: usize) -> Seq<Pair> {
    match key_index(p, k) {
        Some(i) => p.update(i, (k, v)),
        None => p.push((k, v)),
    }
}

/// The map that a sequence of entries denotes.
pub open spec fn pairs_to_map(p: Seq<Pair>) -> Map<Seq<char>, usize> {
    Map::new(|k: Seq<char>| key_index(p, k) is Some, |k: Seq<char>| p[key_index(p, k)->0].1)
}

proof fn lemma_key_index_from(p: Seq<Pair>, k: Seq<char>, i: int)
    requires
        0 <= i,
    ensures
        match key_index_from(p, k, i) {
            Some(j) => i <= j < p.len() && p[j].0 == k && forall|m: int| i <= m < j ==> p[m].0 != k,
            None => forall|m: int| i <= m < p.len() ==> p[m].0 != k,
        },
    decreases p.len() - i,
{
    if i < p.len() && p[i].0 != k {
        lemma_key_index_from(p, k, i + 1);
    }
}

/// What `key_index` finds: the first entry with the key, or no entry has it.
pub proof fn lemma_key_index(p: Seq<Pair>, k: Seq<char>)
    ensures
        match key_index(p, k) {
            Some(j) => 0 <= j < p.len() && p[j].0 == k && forall|m: int| 0 <= m < j ==> p[m].0 != k,
            None => forall|m: int| 0 <= m < p.len() ==> p[m].0 != k,
        },
{
    lemma_key_index_from(p, k, 0);
}

/// Inserting keeps keys unique, and acts on the map as `Map::insert`.
pub proof fn lemma_pairs_insert(p: Seq<Pair>, k: Seq<char>, v: usize)
    ensures
        keys_unique(p) ==> keys_unique(pairs_insert(p, k, v)),
        pairs_to_map(pairs_insert(p, k, v)) == pairs_to_map(p).insert(k, v),
        pairs_get(pairs_insert(p, k, v), k) == Some(v),
{
    lemma_key_index(p, k);
    let q = pairs_insert(p, k, v);
    lemma_key_index(q, k);
    // the inserted key is found where it was stored
    let pos: int = match key_index(p, k) {
        Some(j) => j,
        None => p.len() as int,
    };
    assert(q[pos].0 == k);
    assert(key_index(q, k) == Some(pos)) by {
        let j2 = key_index(q, k)->0;
        if j2 < pos {
            assert(q[j2] == p[j2]);
        }
    }
    assert forall|k2: Seq<char>| k2 != k implies #[trigger] key_index(q, k2) == key_index(p, k2) by {
        lemma_key_index(p, k2);
        lemma_key_index(q, k2);
        match key_index(p, k2) {
            Some(j) => {
                assert(q[j] == p[j]);
                if key_index(q, k2) != Some(j) {
                    let j2 = key_index(q, k2)->0;
                    assert(j2 < j);
                    assert(q[j2] == p[j2]);
                }
            },
            None => {
                if key_index(q, k2) is Some {
                    let j2 = key_index(q, k2)->0;
                    if j2 < p.len() {
                        assert(q[j2] == p[j2]);
                    }
                }
            },
        }
    }
    assert forall|k2: Seq<char>| #[trigger] pairs_to_map(q).contains_key(k2) == pairs_to_map(
        p,
    ).insert(k, v).contains_key(k2) by {}
    assert forall|k2: Seq<char>| #[trigger]
        pairs_to_map(q).contains_key(k2) implies pairs_to_map(q)[k2] == pairs_to_map(p).insert(
        k,
        v,
    )[k2] by {
        if k2 != k {
            assert(key_index(q, k2) == key_index(p, k2));
            lemma_key_index(p, k2);
            let j = key_index(p, k2)->0;
            assert(q[j] == p[j]);
        }
    }
    assert(pairs_to_map(q) =~= pairs_to_map(p).insert(k, v));
    if keys_unique(p) {
        assert forall|i: int, j: int|
            0 <= i < q.len() && 0 <= j < q.len() && i != j implies q[i].0 != q[j].0 by {
            if i != pos && j != pos {
                assert(q[i] == p[i] && q[j] == p[j]);
            } else if i == pos {
                if j < p.len() {
                    assert(q[j] == p[j]);
                }
            } else {
                if i < p.len() {
                    assert(q[i] == p[i]);
                }
            }
        }
    }
}

/// Storing twice under the same key leaves what the second store alone would.
pub proof fn lemma_pairs_insert_twice(p: Seq<Pair>, k: Seq<char>, v1: usize, v2: usize)
    ensures
        pairs_insert(pairs_insert(p, k, v1), k, v2) == pairs_insert(p, k, v2),
{
    lemma_key_index(p, k);
    let q = pairs_insert(p, k, v1);
    lemma_key_index(q, k);
    let pos: int = match key_index(p, k) {
        Some(j) => j,
        None => p.len() as int,
    };
    assert(q[pos].0 == k);
    assert(key_index(q, k) == Some(pos)) by {
        let j2 = key_index(q, k)->0;
        if j2 < pos {
            assert(q[j2] == p[j2]);
        }
    }
    assert(pairs_insert(q, k, v2) =~= pairs_insert(p, k, v2));
}

/// A table from package names to numbers (uids or pids).
#[derive(Debug)]
pub struct PackageTable {
    entries: Vec<(Vec<char>, usize)>,
}

impl PackageTable {
    /// The entries, in the order in which their keys were first inserted.
    pub closed spec fn pairs(&self) -> Seq<Pair> {
        Seq::new(self.entries@.len(), |i: int| (self.entries@[i].0@, self.entries@[i].1))
    }

    pub open spec fn map(&self) -> Map<Seq<char>, usize> {
        pairs_to_map(self.pairs())
    }

    pub fn new() -> (r: Self)
        ensures
            r.pairs() == Seq::<Pair>::empty(),
    {
        let r = PackageTable { entries: Vec::new() };
        assert(r.pairs() =~= Seq::<Pair>::empty());
        r
    }

    pub fn len(&self) -> (n: usize)
        ensures
            n == self.pairs().len(),
    {
        self.entries.len()
    }

    /// The key of the `i`-th entry, as characters.
    pub fn key_chars_at(&self, i: usize) -> (k: &Vec<char>)
        requires
            i < self.pairs().len(),
        ensures
            k@ == self.pairs()[i as int].0,
    {
        &self.entries[i].0
    }

    /// The key of the `i`-th entry.
    pub fn key_at(&self, i: usize) -> (k: String)
        requires
            i < self.pairs().len(),
        ensures
            k@ == self.pairs()[i as int].0,
    {
        string_of(self.entries[i].0.as_slice())
    }

    /// The number of the `i`-th entry.
    pub fn value_at(&self, i: usize) -> (v: usize)
        requires
            i < self.pairs().len(),
        ensures
            v == self.pairs()[i as int].1,
    {
        self.entries[i].1
    }

    /// The position of the entry with key `key`.
    pub fn find_chars(&self, key: &Vec<char>) -> (r: Option<usize>)
        ensures
            match r {
                Some(i) => key_index(self.pairs(), key@) == Some(i as int),
                None => key_index(self.pairs(), key@) is None,
            },
    {
        let mut i: usize = 0;
        while i < self.entries.len()
            invariant
                i <= self.entries.len(),
                key_index(self.pairs(), key@) == key_index_from(self.pairs(), key@, i as int),
            decreases self.entries.len() - i,
        {
            if crate::text::chars_eq(&self.entries[i].0, key) {
                return Some(i);
            }
            i = i + 1;
        }
        None
    }

    pub fn get_chars(&self, key: &Vec<char>) -> (r: Option<usize>)
        ensures
            r == pairs_get(self.pairs(), key@),
    {
        proof {
            lemma_key_index(self.pairs(), key@);
        }
        match self.find_chars(key) {
            Some(i) => Some(self.entries[i].1),
            None => None,
        }
    }

    /// The number stored under `key`.
    pub fn get(&self, key: &str) -> (r: Option<usize>)
        ensures
            r == pairs_get(self.pairs(), key@),
    {
        self.get_chars(&chars_of(key))
    }

    pub fn contains_key(&self, key: &str) -> (b: bool)
        ensures
            b == (pairs_get(self.pairs(), key@) is Some),
    {
        self.get(key).is_some()
    }

    pub fn insert_chars(&mut self, key: Vec<char>, value: usize)
        ensures
            final(self).pairs() == pairs_insert(old(self).pairs(), key@, value),
            keys_unique(old(self).pairs()) ==> keys_unique(final(self).pairs()),
    {
        proof {
            lemma_pairs_insert(self.pairs(), key@, value);
        }
        let ghost k = key@;
        proof {
            lemma_key_index(self.pairs(), key@);
        }
        match self.find_chars(&key) {
            Some(i) => {
                self.entries.set(i, (key, value));
                assert(self.pairs() =~= old(self).pairs().update(i as int, (k, value)));
            },
            None => {
                self.entries.push((key, value));
                assert(self.pairs() =~= old(self).pairs().push((k, value)));
            },
        }
    }

    /// Stores `value` under `key`, as `HashMap::insert` does.
    pub fn insert(&mut self, key: &str, value: usize)
        ensures
            final(self).pairs() == pairs_insert(old(self).pairs(), key@, value),
            keys_unique(old(self).pairs()) ==> keys_unique(final(self).pairs()),
    {
        self.insert_chars(chars_of(key), value);
    }

    /// A copy with the same entries in the same order.
    pub fn copy(&self) -> (r: Self)
        ensures
            r.pairs() == self.pairs(),
    {
        let mut entries: Vec<(Vec<char>, usize)> = Vec::new();
        let mut i: usize = 0;
        while i < self.entries.len()
            invariant
                i <= self.entries.len(),
                entries.len() == i,
                forall|j: int|
                    0 <= j < i ==> (#[trigger] entries@[j]).0@ == self.entries@[j].0@
                        && entries@[j].1 == self.entries@[j].1,
            decreases self.entries.len() - i,
        {
            let k = &self.entries[i].0;
            entries.push((copy_range(k, 0, k.len()), self.entries[i].1));
            assert(k@.subrange(0, k.len() as int) =~= k@);
            i = i + 1;
        }
        let r = PackageTable { entries };
        assert(r.pairs() =~= self.pairs());
        r
    }
}

/// A set of package names, kept in insertion order without repeats.
#[derive(Debug)]
pub struct NameSet {
    names: Vec<Vec<char>>,
}

impl NameSet {
    pub closed spec fn seq(&self) -> Seq<Seq<char>> {
        Seq::new(self.names@.len(), |i: int| self.names@[i]@)
    }

    pub open spec fn set(&self) -> Set<Seq<char>> {
        self.seq().to_set()
    }

    pub fn new() -> (r: Self)
        ensures
            r.seq() == Seq::<Seq<char>>::empty(),
    {
        let r = NameSet { names: Vec::new() };
        assert(r.seq() =~= Seq::<Seq<char>>::empty());
        r
    }

    pub fn len(&self) -> (n: usize)
        ensures
            n == self.seq().len(),
    {
        self.names.len()
    }

    pub fn name_chars_at(&self, i: usize) -> (k: &Vec<char>)
        requires
            i < self.seq().len(),
        ensures
            k@ == self.seq()[i as int],
    {
        &self.names[i]
    }

    pub fn name_at(&self, i: usize) -> (k: String)
        requires
            i < self.seq().len(),
        ensures
            k@ == self.seq()[i as int],
    {
        string_of(self.names[i].as_slice())
    }

    pub fn contains_chars(&self, name: &Vec<char>) -> (b: bool)
        ensures
            b == self.seq().contains(name@),
    {
        let mut i: usize = 0;
        while i < self.names.len()
            invariant
                i <= self.names.len(),
                forall|j: int| 0 <= j < i ==> self.seq()[j] != name@,
            decreases self.names.len() - i,
        {
            if crate::text::chars_eq(&self.names[i], name) {
                assert(self.seq()[i as int] == name@);
                return true;
            }
            i = i + 1;
        }
        false
    }

    pub fn contains(&self, name: &str) -> (b: bool)
        ensures
            b == self.set().contains(name@),
    {
        self.contains_chars(&chars_of(name))
    }

    /// Adds `name`, as `HashSet::insert` does.
    pub fn insert(&mut self, name: &str)
        ensures
            final(self).set() == old(self).set().insert(name@),
            old(self).seq().no_duplicates() ==> final(self).seq().no_duplicates(),
    {
        let c = chars_of(name);
        if !self.contains_chars(&c) {
            let ghost k = c@;
            self.names.push(c);
            let ghost o = old(self).seq();
            assert(self.seq() =~= o.push(k));
            assert forall|x: Seq<char>| #[trigger] self.set().contains(x) == o.to_set().insert(
                k,
            ).contains(x) by {
                if o.contains(x) {
                    let i = choose|i: int| 0 <= i < o.len() && o[i] == x;
                    assert(o.push(k)[i] == x);
                }
                if x == k {
                    assert(o.push(k)[o.len() as int] == x);
                }
                if o.push(k).contains(x) {
                    let i = choose|i: int| 0 <= i < o.len() + 1 && o.push(k)[i] == x;
                    if i < o.len() {
                        assert(o[i] == x);
                    }
                }
            }
            assert(self.set() =~= old(self).set().insert(k));
        } else {
            assert(self.set() =~= old(self).set().insert(name@));
        }
    }
}

} // verus!
