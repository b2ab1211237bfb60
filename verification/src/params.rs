//! A table from string keys to string values in which each key occurs once.
//!
//! Inserting a key that is already present replaces its value in place; a new key goes
//! to the end. The table is what request parameters and headers are stored in.
use vstd::prelude::*;

verus! {

/// The entries of a table, as (key, value) pairs.
pub type Entries = Seq<(Seq<char>, Seq<char>)>;

/// No key occurs twice.
pub open spec fn keys_distinct(s: Entries) -> bool {
    forall|i: int, j: int| 0 <= i < j < s.len() ==> #[trigger] s[i].0 != #[trigger] s[j].0
}

/// `k` is the key of some entry.
pub open spec fn has_key(s: Entries, k: Seq<char>) -> bool {
    exists|i: int| 0 <= i < s.len() && #[trigger] s[i].0 == k
}

/// The position of the entry whose key is `k` (meaningful when `has_key(s, k)`).
pub open spec fn key_index(s: Entries, k: Seq<char>) -> int {
    choose|i: int| 0 <= i < s.len() && #[trigger] s[i].0 == k
}

/// The value stored under `k`.
pub open spec fn lookup(s: Entries, k: Seq<char>) -> Option<Seq<char>> {
    if has_key(s, k) {
        Some(s[key_index(s, k)].1)
    } else {
        None
    }
}

/// The entries after storing `v` under `k`: the value of an existing entry is replaced
/// in place, a new key is appended.
pub open spec fn insert_entry(s: Entries, k: Seq<char>, v: Seq<char>) -> Entries {
    if has_key(s, k) {
        s.update(key_index(s, k), (k, v))
    } else {
        s.push((k, v))
    }
}

/// The entries without the one whose key is `k`.
pub open spec fn remove_entry(s: Entries, k: Seq<char>) -> Entries {
    if has_key(s, k) {
        s.remove(key_index(s, k))
    } else {
        s
    }
}

/// The entries with a given key sit at exactly one position.
pub proof fn lemma_key_index(s: Entries, k: Seq<char>, i: int)
    requires
        keys_distinct(s),
        0 <= i < s.len(),
        s[i].0 == k,
    ensures
        has_key(s, k),
        key_index(s, k) == i,
        lookup(s, k) == Some(s[i].1),
{
    assert(has_key(s, k));
    let j = key_index(s, k);
    if j != i {
        if j < i {
            assert(s[j].0 != s[i].0);
        } else {
            assert(s[i].0 != s[j].0);
        }
    }
}

/// Inserting keeps the keys distinct.
pub proof fn lemma_insert_distinct(s: Entries, k: Seq<char>, v: Seq<char>)
    requires
        keys_distinct(s),
    ensures
        keys_distinct(insert_entry(s, k, v)),
{
    let t = insert_entry(s, k, v);
    if has_key(s, k) {
        let p = key_index(s, k);
        assert forall|i: int, j: int| 0 <= i < j < t.len() implies #[trigger] t[i].0
            != #[trigger] t[j].0 by {
            assert(s[i].0 != s[j].0);
        }
    } else {
        assert forall|i: int, j: int| 0 <= i < j < t.len() implies #[trigger] t[i].0
            != #[trigger] t[j].0 by {
            if j == s.len() {
                assert(s[i].0 != k);
            } else {
                assert(s[i].0 != s[j].0);
            }
        }
    }
}

/// After storing `v` under `k`, looking `k` up gives `v`, and every other key gives what it
/// gave before.
pub proof fn lemma_lookup_insert(s: Entries, k: Seq<char>, v: Seq<char>, other: Seq<char>)
    requires
        keys_distinct(s),
    ensures
        lookup(insert_entry(s, k, v), k) == Some(v),
        other != k ==> lookup(insert_entry(s, k, v), other) == lookup(s, other),
{
    let t = insert_entry(s, k, v);
    lemma_insert_distinct(s, k, v);
    let p = if has_key(s, k) {
        key_index(s, k)
    } else {
        s.len() as int
    };
    assert(t[p].0 == k);
    lemma_key_index(t, k, p);
    if other != k {
        if has_key(s, other) {
            let q = key_index(s, other);
            assert(t[q] == s[q]);
            lemma_key_index(t, other, q);
        } else {
            if has_key(t, other) {
                let q = key_index(t, other);
                assert(q != p);
                assert(s[q].0 == other);
            }
        }
    }
}

/// A table of string pairs with distinct keys (what `HashMap<String, String>` holds).
#[derive(Debug)]
pub struct Params {
    entries: Vec<(String, String)>,
}

impl View for Params {
    type V = Entries;

    closed spec fn view(&self) -> Entries {
        self.entries@.map_values(|e: (String, String)| (e.0@, e.1@))
    }
}

impl Params {
    #[verifier::type_invariant]
    closed spec fn wf(self) -> bool {
        keys_distinct(self@)
    }

    /// An empty table.
    pub fn new() -> (p: Params)
        ensures
            p@ == Seq::<(Seq<char>, Seq<char>)>::empty(),
            keys_distinct(p@),
    {
        let p = Params { entries: Vec::new() };
        assert(p@ =~= Seq::<(Seq<char>, Seq<char>)>::empty());
        p
    }

    /// The number of entries.
    pub fn len(&self) -> (n: usize)
        ensures
            n == self@.len(),
            keys_distinct(self@),
    {
        proof {
            use_type_invariant(self);
        }
        self.entries.len()
    }

    /// The position of the entry with key `k`, if any.
    fn position(&self, k: &str) -> (r: Option<usize>)
        ensures
            r is Some <==> has_key(self@, k@),
            r matches Some(i) ==> i < self@.len() && key_index(self@, k@) == i && self@[i as int].0
                == k@,
    {
        proof {
            use_type_invariant(self);
        }
        let mut i: usize = 0;
        while i < self.entries.len()
            invariant
                i <= self.entries@.len(),
                self@.len() == self.entries@.len(),
                keys_distinct(self@),
                forall|j: int| 0 <= j < i ==> self@[j].0 != k@,
            decreases self.entries.len() - i,
        {
            assert(self@[i as int].0 == self.entries@[i as int].0@);
            if crate::text::str_eq(self.entries[i].0.as_str(), k) {
                proof {
                    lemma_key_index(self@, k@, i as int);
                }
                return Some(i);
            }
            i += 1;
        }
        assert(!has_key(self@, k@));
        None
    }

    /// The value stored under `k` (`HashMap::get`).
    pub fn get(&self, k: &str) -> (r: Option<&str>)
        ensures
            r matches Some(v) ==> lookup(self@, k@) == Some(v@),
            r is None ==> lookup(self@, k@) is None,
            keys_distinct(self@),
    {
        proof {
            use_type_invariant(self);
        }
        match self.position(k) {
            Some(i) => {
                assert(self@[i as int].1 == self.entries@[i as int].1@);
                Some(self.entries[i].1.as_str())
            },
            None => None,
        }
    }

    /// Stores `v` under `k` (`HashMap::insert`).
    pub fn insert(&mut self, k: String, v: String)
        ensures
            final(self)@ == insert_entry(old(self)@, k@, v@),
            keys_distinct(final(self)@),
    {
        proof {
            use_type_invariant(&*self);
            lemma_insert_distinct(self@, k@, v@);
        }
        let ghost old_view = self@;
        let pos = self.position(k.as_str());
        let mut entries = Vec::new();
        std::mem::swap(&mut entries, &mut self.entries);
        match pos {
            Some(i) => {
                entries.set(i, (k, v));
            },
            None => {
                entries.push((k, v));
            },
        }
        proof {
            let nv = entries@.map_values(|e: (String, String)| (e.0@, e.1@));
            assert(nv =~= insert_entry(old_view, k@, v@));
        }
        self.entries = entries;
    }

    /// Removes the entry whose key is `k` and gives its value (`HashMap::remove`).
    pub fn remove(&mut self, k: &str) -> (r: Option<String>)
        ensures
            final(self)@ == remove_entry(old(self)@, k@),
            keys_distinct(final(self)@),
            r matches Some(v) ==> lookup(old(self)@, k@) == Some(v@),
            r is None ==> lookup(old(self)@, k@) is None,
    {
        proof {
            use_type_invariant(&*self);
        }
        let ghost old_view = self@;
        match self.position(k) {
            None => None,
            Some(i) => {
                let mut entries = Vec::new();
                std::mem::swap(&mut entries, &mut self.entries);
                let (_, v) = entries.remove(i);
                proof {
                    let nv = entries@.map_values(|e: (String, String)| (e.0@, e.1@));
                    assert(nv =~= old_view.remove(i as int));
                    assert forall|a: int, b: int| 0 <= a < b < nv.len() implies #[trigger] nv[a].0
                        != #[trigger] nv[b].0 by {
                        let a2 = if a < i { a } else { a + 1 };
                        let b2 = if b < i { b } else { b + 1 };
                        assert(old_view[a2].0 != old_view[b2].0);
                    }
                }
                self.entries = entries;
                Some(v)
            },
        }
    }

    /// The entry at position `i`.
    pub fn entry(&self, i: usize) -> (r: (&str, &str))
        requires
            i < self@.len(),
        ensures
            r.0@ == self@[i as int].0,
            r.1@ == self@[i as int].1,
    {
        let e = &self.entries[i];
        (e.0.as_str(), e.1.as_str())
    }
}

impl Clone for Params {
    fn clone(&self) -> (r: Params)
        ensures
            r@ == self@,
    {
        proof {
            use_type_invariant(self);
        }
        let mut entries: Vec<(String, String)> = Vec::new();
        let mut i: usize = 0;
        while i < self.entries.len()
            invariant
                i <= self.entries@.len(),
                self@.len() == self.entries@.len(),
                entries@.len() == i,
                forall|j: int| 0 <= j < i ==> (entries@[j].0@, entries@[j].1@) == self@[j],
            decreases self.entries.len() - i,
        {
            let e = &self.entries[i];
            let k = e.0.clone();
            let v = e.1.clone();
            assert(self@[i as int] == (k@, v@));
            entries.push((k, v));
            i += 1;
        }
        proof {
            let nv = entries@.map_values(|e: (String, String)| (e.0@, e.1@));
            assert(nv =~= self@);
        }
        Params { entries }
    }
}

} // verus!
