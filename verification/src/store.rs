//! The shared variable store: a mapping from names to 128-bit signed
//! integers, visible to every coroutine. Ordinary variables and channel
//! cells share this one mapping.
//!
//! The store is kept as an association list with pairwise-distinct keys;
//! its mathematical view is a `Map<Seq<char>, i128>`.

use vstd::prelude::*;

verus! {

/// Shared mapping from variable name to value.
pub struct Store {
    entries: Vec<(String, i128)>,
}

/// The map denoted by an association list: later entries win.
pub closed spec fn map_of(s: Seq<(String, i128)>) -> Map<Seq<char>, i128>
    decreases s.len(),
{
    if s.len() == 0 {
        Map::empty()
    } else {
        map_of(s.drop_last()).insert(s.last().0@, s.last().1)
    }
}

impl View for Store {
    type V = Map<Seq<char>, i128>;

    closed spec fn view(&self) -> Map<Seq<char>, i128> {
        map_of(self.entries@)
    }
}

/// The keys of the association list are pairwise distinct.
spec fn entries_wf(s: Seq<(String, i128)>) -> bool {
    forall|i: int, j: int|
        0 <= i < j < s.len() ==> #[trigger] s[i].0@ != #[trigger] s[j].0@
}

/// A key is in the denoted map exactly when some entry carries it.
proof fn lemma_map_of_dom(s: Seq<(String, i128)>, k: Seq<char>)
    ensures
        map_of(s).contains_key(k) <==> exists|i: int| 0 <= i < s.len() && #[trigger] s[i].0@ == k,
    decreases s.len(),
{
    if s.len() > 0 {
        lemma_map_of_dom(s.drop_last(), k);
        if s.last().0@ == k {
            assert(s[s.len() - 1].0@ == k);
        } else if map_of(s).contains_key(k) {
            let i = choose|i: int| 0 <= i < s.len() - 1 && #[trigger] s.drop_last()[i].0@ == k;
            assert(s[i].0@ == k);
        } else if exists|i: int| 0 <= i < s.len() && #[trigger] s[i].0@ == k {
            let i = choose|i: int| 0 <= i < s.len() && #[trigger] s[i].0@ == k;
            assert(s.drop_last()[i].0@ == k);
        }
    }
}

/// With distinct keys, the denoted map sends each entry's key to its value.
proof fn lemma_map_of_index(s: Seq<(String, i128)>, i: int)
    requires
        entries_wf(s),
        0 <= i < s.len(),
    ensures
        map_of(s).contains_key(s[i].0@),
        map_of(s)[s[i].0@] == s[i].1,
    decreases s.len(),
{
    if i == s.len() - 1 {
    } else {
        assert(entries_wf(s.drop_last()));
        lemma_map_of_index(s.drop_last(), i);
        assert(s.drop_last()[i] == s[i]);
        assert(s[i].0@ != s[s.len() - 1].0@);
    }
}

/// Updating the entry that carries a key updates the denoted map at that key.
proof fn lemma_map_of_update(s: Seq<(String, i128)>, i: int, key: String, value: i128)
    requires
        entries_wf(s),
        0 <= i < s.len(),
        s[i].0@ == key@,
    ensures
        map_of(s.update(i, (key, value))) == map_of(s).insert(key@, value),
    decreases s.len(),
{
    let su = s.update(i, (key, value));
    if i == s.len() - 1 {
        assert(su.drop_last() =~= s.drop_last());
        assert(map_of(su) =~= map_of(s).insert(key@, value));
    } else {
        assert(entries_wf(s.drop_last()));
        lemma_map_of_update(s.drop_last(), i, key, value);
        assert(su.drop_last() =~= s.drop_last().update(i, (key, value)));
        assert(su.last() == s.last());
        assert(s[i].0@ != s[s.len() - 1].0@);
        assert(map_of(su) =~= map_of(s).insert(key@, value));
    }
}

/// Removing the entry that carries a key removes that key from the denoted map.
proof fn lemma_map_of_remove(s: Seq<(String, i128)>, i: int)
    requires
        entries_wf(s),
        0 <= i < s.len(),
    ensures
        map_of(s.remove(i)) == map_of(s).remove(s[i].0@),
    decreases s.len(),
{
    let sr = s.remove(i);
    if i == s.len() - 1 {
        assert(sr =~= s.drop_last());
        lemma_map_of_dom(s.drop_last(), s[i].0@);
        assert(forall|j: int|
            0 <= j < s.len() - 1 ==> #[trigger] s.drop_last()[j].0@ != s[i].0@);
        assert(!map_of(s.drop_last()).contains_key(s[i].0@));
        assert(map_of(sr) =~= map_of(s).remove(s[i].0@));
    } else {
        assert(entries_wf(s.drop_last()));
        lemma_map_of_remove(s.drop_last(), i);
        assert(sr.drop_last() =~= s.drop_last().remove(i));
        assert(sr.last() == s.last());
        assert(s[i].0@ != s[s.len() - 1].0@);
        assert(map_of(sr) =~= map_of(s).remove(s[i].0@));
    }
}

impl Store {
    /// The well-formedness of the store: no name occurs twice.
    pub closed spec fn wf(&self) -> bool {
        entries_wf(self.entries@)
    }

    /// The position of the entry carrying `key`, if any.
    fn find(&self, key: &String) -> (r: Option<usize>)
        requires
            self.wf(),
        ensures
            match r {
                Some(i) => {
                    &&& i < self.entries@.len()
                    &&& self.entries@[i as int].0@ == key@
                    &&& self@.contains_key(key@)
                    &&& self@[key@] == self.entries@[i as int].1
                },
                None => !self@.contains_key(key@),
            },
    {
        let n = self.entries.len();
        let mut i: usize = 0;
        while i < n
            invariant
                self.wf(),
                n == self.entries@.len(),
                0 <= i <= n,
                forall|j: int| 0 <= j < i ==> #[trigger] self.entries@[j].0@ != key@,
            decreases n - i,
        {
            if self.entries[i].0 == *key {
                proof {
                    lemma_map_of_index(self.entries@, i as int);
                }
                return Some(i);
            }
            i = i + 1;
        }
        proof {
            lemma_map_of_dom(self.entries@, key@);
        }
        None
    }

    /// An empty store.
    pub fn new() -> (r: Store)
        ensures
            r.wf(),
            r@ == Map::<Seq<char>, i128>::empty(),
    {
        Store { entries: Vec::new() }
    }

    /// Whether `key` currently holds a value.
    pub fn contains_key(&self, key: &String) -> (r: bool)
        requires
            self.wf(),
        ensures
            r == self@.contains_key(key@),
    {
        self.find(key).is_some()
    }

    /// The value under `key`, if any.
    pub fn get(&self, key: &String) -> (r: Option<i128>)
        requires
            self.wf(),
        ensures
            match r {
                Some(v) => self@.contains_key(key@) && self@[key@] == v,
                None => !self@.contains_key(key@),
            },
    {
        match self.find(key) {
            Some(i) => Some(self.entries[i].1),
            None => None,
        }
    }

    /// Bind `key` to `value`, replacing any earlier binding.
    pub fn insert(&mut self, key: String, value: i128)
        requires
            old(self).wf(),
        ensures
            final(self).wf(),
            final(self)@ == old(self)@.insert(key@, value),
    {
        let ghost s0 = self.entries@;
        match self.find(&key) {
            Some(i) => {
                self.entries.remove(i);
                self.entries.insert(i, (key, value));
                proof {
                    assert(self.entries@ =~= s0.update(i as int, (key, value)));
                    lemma_map_of_update(s0, i as int, key, value);
                    assert(entries_wf(self.entries@));
                }
            },
            None => {
                proof {
                    lemma_map_of_dom(s0, key@);
                }
                self.entries.push((key, value));
                proof {
                    assert(self.entries@.drop_last() =~= s0);
                    assert(entries_wf(self.entries@));
                }
            },
        }
    }

    /// Drop the binding of `key`, if there is one.
    pub fn remove(&mut self, key: &String)
        requires
            old(self).wf(),
        ensures
            final(self).wf(),
            final(self)@ == old(self)@.remove(key@),
    {
        let ghost s0 = self.entries@;
        match self.find(key) {
            Some(i) => {
                self.entries.remove(i);
                proof {
                    lemma_map_of_remove(s0, i as int);
                    assert(entries_wf(self.entries@));
                }
            },
            None => {
                proof {
                    assert(old(self)@.remove(key@) =~= old(self)@);
                }
            },
        }
    }
}

} // verus!
