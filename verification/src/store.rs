//! An explicit environment store: the key/value mapping that the assignment
//! policies read and write. Callers inject one into the loader; production
//! code may mirror it into the process environment, tests may inspect it
//! directly.

use vstd::prelude::*;

use crate::text::str_eq;

verus! {

/// A mutable key/value store, viewed as a map from key characters to value
/// characters. It offers the three primitives the assignment policies need:
/// `get`, `set` and `remove`.
pub struct EnvStore {
    entries: Vec<(String, String)>,
}

/// The mapping held by a sequence of key/value entries; a later entry with
/// the same key shadows an earlier one (the store itself never keeps two).
spec fn entries_map(s: Seq<(String, String)>) -> Map<Seq<char>, Seq<char>>
    decreases s.len(),
{
    if s.len() == 0 {
        Map::empty()
    } else {
        entries_map(s.drop_last()).insert(s.last().0@, s.last().1@)
    }
}

/// No two entries share a key.
spec fn unique_keys(s: Seq<(String, String)>) -> bool {
    forall|i: int, j: int| 0 <= i < j < s.len() ==> s[i].0@ != s[j].0@
}

/// Some entry carries the key `k`.
spec fn has_key(s: Seq<(String, String)>, k: Seq<char>) -> bool {
    exists|i: int| 0 <= i < s.len() && s[i].0@ == k
}

impl View for EnvStore {
    type V = Map<Seq<char>, Seq<char>>;

    closed spec fn view(&self) -> Map<Seq<char>, Seq<char>> {
        entries_map(self.entries@)
    }
}

proof fn lemma_entries_map_contains(s: Seq<(String, String)>, k: Seq<char>)
    ensures
        entries_map(s).contains_key(k) <==> has_key(s, k),
    decreases s.len(),
{
    if s.len() > 0 {
        lemma_entries_map_contains(s.drop_last(), k);
        if s.last().0@ == k {
            assert(s[s.len() - 1].0@ == k);
        } else {
            if has_key(s.drop_last(), k) {
                let i = choose|i: int| 0 <= i < s.drop_last().len() && s.drop_last()[i].0@ == k;
                assert(s[i].0@ == k);
            }
            if has_key(s, k) {
                let i = choose|i: int| 0 <= i < s.len() && s[i].0@ == k;
                assert(s.drop_last()[i].0@ == k);
            }
        }
    }
}

proof fn lemma_entries_map_index(s: Seq<(String, String)>, k: Seq<char>, i: int)
    requires
        unique_keys(s),
        0 <= i < s.len(),
        s[i].0@ == k,
    ensures
        entries_map(s).contains_key(k),
        entries_map(s)[k] == s[i].1@,
    decreases s.len(),
{
    if i < s.len() - 1 {
        assert(unique_keys(s.drop_last())) by {
            assert(forall|a: int, b: int|
                0 <= a < b < s.len() - 1 ==> s.drop_last()[a] == s[a] && s.drop_last()[b] == s[b]);
        }
        lemma_entries_map_index(s.drop_last(), k, i);
        assert(s.last().0@ != k);
    }
}

proof fn lemma_entries_map_remove_at(s: Seq<(String, String)>, i: int)
    requires
        unique_keys(s),
        0 <= i < s.len(),
    ensures
        entries_map(s.remove(i)) == entries_map(s).remove(s[i].0@),
    decreases s.len(),
{
    let k = s[i].0@;
    assert(unique_keys(s.drop_last())) by {
        assert(forall|a: int, b: int|
            0 <= a < b < s.len() - 1 ==> s.drop_last()[a] == s[a] && s.drop_last()[b] == s[b]);
    }
    if i == s.len() - 1 {
        assert(s.remove(i) =~= s.drop_last());
        lemma_entries_map_contains(s.drop_last(), k);
        assert(!has_key(s.drop_last(), k)) by {
            assert(forall|j: int| 0 <= j < s.len() - 1 ==> s.drop_last()[j] == s[j]);
        }
        assert(entries_map(s.drop_last()).insert(k, s.last().1@).remove(k) =~= entries_map(
            s.drop_last(),
        ));
    } else {
        lemma_entries_map_remove_at(s.drop_last(), i);
        assert(s.remove(i).drop_last() =~= s.drop_last().remove(i));
        assert(s.remove(i).last() == s.last());
        assert(s.last().0@ != k);
        assert(entries_map(s.drop_last()).remove(k).insert(s.last().0@, s.last().1@)
            =~= entries_map(s.drop_last()).insert(s.last().0@, s.last().1@).remove(k));
    }
}

impl EnvStore {
    #[verifier::type_invariant]
    spec fn wf(self) -> bool {
        unique_keys(self.entries@)
    }

    /// An empty store.
    pub fn new() -> (r: EnvStore)
        ensures
            r@ == Map::<Seq<char>, Seq<char>>::empty(),
    {
        EnvStore { entries: Vec::new() }
    }

    /// Looks `key` up, returning a copy of its value when it is present.
    pub fn get(&self, key: &str) -> (r: Option<String>)
        ensures
            match r {
                Some(v) => self@.contains_key(key@) && self@[key@] == v@,
                None => !self@.contains_key(key@),
            },
    {
        proof {
            use_type_invariant(&*self);
        }
        let n = self.entries.len();
        let mut i: usize = 0;
        while i < n
            invariant
                n == self.entries@.len(),
                i <= n,
                unique_keys(self.entries@),
                forall|j: int| 0 <= j < i ==> self.entries@[j].0@ != key@,
            decreases n - i,
        {
            let e = &self.entries[i];
            if str_eq(e.0.as_str(), key) {
                proof {
                    lemma_entries_map_index(self.entries@, key@, i as int);
                }
                return Some(e.1.clone());
            }
            i = i + 1;
        }
        proof {
            lemma_entries_map_contains(self.entries@, key@);
        }
        None
    }

    /// Sets `key` to `value`, replacing any existing entry.
    pub fn set(&mut self, key: &str, value: &str)
        ensures
            final(self)@ == old(self)@.insert(key@, value@),
    {
        self.remove(key);
        proof {
            use_type_invariant(&*self);
            lemma_entries_map_contains(self.entries@, key@);
        }
        let mut entries: Vec<(String, String)> = Vec::new();
        std::mem::swap(&mut entries, &mut self.entries);
        let ghost pre = entries@;
        entries.push((key.to_owned(), value.to_owned()));
        proof {
            assert(entries@.drop_last() =~= pre);
            assert(entries_map(pre).insert(key@, value@) =~= old(self)@.insert(key@, value@));
            assert(unique_keys(entries@)) by {
                assert(forall|a: int| 0 <= a < pre.len() ==> entries@[a] == pre[a]);
                assert(entries@[entries@.len() - 1].0@ == key@);
            }
        }
        self.entries = entries;
    }

    /// Copies the store out as key/value pairs: every pair is an entry of
    /// the store, every key of the store appears, and no key twice.
    pub fn to_pairs(&self) -> (r: Vec<(String, String)>)
        ensures
            forall|i: int|
                0 <= i < r@.len() ==> self@.contains_key(#[trigger] r@[i].0@) && self@[r@[i].0@]
                    == r@[i].1@,
            forall|k: Seq<char>|
                self@.contains_key(k) ==> exists|i: int| 0 <= i < r@.len() && (#[trigger] r@[i]).0@
                    == k,
            forall|i: int, j: int| 0 <= i < j < r@.len() ==> r@[i].0@ != r@[j].0@,
    {
        proof {
            use_type_invariant(&*self);
        }
        let n = self.entries.len();
        let mut r: Vec<(String, String)> = Vec::new();
        let mut i: usize = 0;
        while i < n
            invariant
                n == self.entries@.len(),
                i <= n,
                r@.len() == i,
                unique_keys(self.entries@),
                forall|j: int|
                    0 <= j < i ==> (#[trigger] r@[j]).0@ == self.entries@[j].0@ && r@[j].1@
                        == self.entries@[j].1@,
            decreases n - i,
        {
            let e = &self.entries[i];
            r.push((e.0.clone(), e.1.clone()));
            i = i + 1;
        }
        proof {
            assert forall|j: int|
                0 <= j < r@.len() implies self@.contains_key(#[trigger] r@[j].0@) && self@[r@[j].0@]
                == r@[j].1@ by {
                lemma_entries_map_index(self.entries@, r@[j].0@, j);
            }
            assert forall|k: Seq<char>| self@.contains_key(k) implies exists|j: int|
                0 <= j < r@.len() && (#[trigger] r@[j]).0@ == k by {
                lemma_entries_map_contains(self.entries@, k);
                let j = choose|j: int| 0 <= j < self.entries@.len() && self.entries@[j].0@ == k;
                assert(r@[j].0@ == k);
            }
        }
        r
    }

    /// Removes `key` from the store; without an entry for it, leaves the
    /// store as it is.
    pub fn remove(&mut self, key: &str)
        ensures
            final(self)@ == old(self)@.remove(key@),
    {
        proof {
            use_type_invariant(&*self);
        }
        let n = self.entries.len();
        let mut i: usize = 0;
        while i < n
            invariant
                n == self.entries@.len(),
                i <= n,
                *self == *old(self),
                unique_keys(self.entries@),
                forall|j: int| 0 <= j < i ==> self.entries@[j].0@ != key@,
            decreases n - i,
        {
            if str_eq(self.entries[i].0.as_str(), key) {
                let ghost pre = self.entries@;
                let mut entries: Vec<(String, String)> = Vec::new();
                std::mem::swap(&mut entries, &mut self.entries);
                entries.remove(i);
                proof {
                    lemma_entries_map_remove_at(pre, i as int);
                    assert(unique_keys(entries@)) by {
                        pre.remove_ensures(i as int);
                        assert(forall|a: int, b: int|
                            0 <= a < b < entries@.len() ==> entries@[a].0@ != entries@[b].0@);
                    }
                }
                self.entries = entries;
                return;
            }
            i = i + 1;
        }
        proof {
            lemma_entries_map_contains(self.entries@, key@);
            assert(self@.remove(key@) =~= self@);
        }
    }
}

} // verus!
