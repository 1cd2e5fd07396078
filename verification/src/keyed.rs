//! A map from names to values, held as a list of entries with distinct names.
//!
//! Both the tool registry (tool name to tool) and an actor's shared state
//! (key to JSON value) are such maps.
//!
//! The entries are held in a list because vstd models `HashMap` only for keys
//! whose hashing it knows to be consistent (integers, `bool` and boxes of
//! them), not `String`, and its `StringHashMap` cannot list its keys, which
//! the registry must do.

use vstd::prelude::*;
use vstd::string::*;

verus! {

/// The abstract contents of a sequence of keyed entries: each key maps to the
/// value of its last entry.
pub open spec fn map_of<K, V>(s: Seq<(K, V)>) -> Map<K, V>
    decreases s.len(),
{
    if s.len() == 0 {
        Map::empty()
    } else {
        map_of(s.drop_last()).insert(s.last().0, s.last().1)
    }
}

/// No two entries carry the same name.
pub open spec fn distinct_names<K, V>(s: Seq<(K, V)>) -> bool {
    forall|i: int, j: int| 0 <= i < j < s.len() ==> s[i].0 != s[j].0
}

/// A name is a key of `map_of(s)` exactly when some entry carries it.
pub proof fn lemma_map_of_dom<K, V>(s: Seq<(K, V)>, k: K)
    ensures
        map_of(s).dom().contains(k) <==> exists|i: int| 0 <= i < s.len() && s[i].0 == k,
    decreases s.len(),
{
    if s.len() > 0 {
        lemma_map_of_dom(s.drop_last(), k);
        if map_of(s).dom().contains(k) && k != s.last().0 {
            let i = choose|i: int| 0 <= i < s.drop_last().len() && s.drop_last()[i].0 == k;
            assert(s[i].0 == k);
        }
        if exists|i: int| 0 <= i < s.len() && s[i].0 == k {
            let i = choose|i: int| 0 <= i < s.len() && s[i].0 == k;
            if i < s.len() - 1 {
                assert(s.drop_last()[i].0 == k);
            }
        }
    }
}

/// With distinct names, the value under the name of entry `i` is the value of entry `i`.
pub proof fn lemma_map_of_index<K, V>(s: Seq<(K, V)>, i: int)
    requires
        distinct_names(s),
        0 <= i < s.len(),
    ensures
        map_of(s).dom().contains(s[i].0),
        map_of(s)[s[i].0] == s[i].1,
    decreases s.len(),
{
    if i < s.len() - 1 {
        lemma_map_of_index(s.drop_last(), i);
        assert(s.drop_last()[i] == s[i]);
    }
}

/// Replacing the value of entry `i` replaces the value under its name.
pub proof fn lemma_map_of_update<K, V>(s: Seq<(K, V)>, i: int, v: V)
    requires
        distinct_names(s),
        0 <= i < s.len(),
    ensures
        map_of(s.update(i, (s[i].0, v))) == map_of(s).insert(s[i].0, v),
    decreases s.len(),
{
    let t = s.update(i, (s[i].0, v));
    if i == s.len() - 1 {
        assert(t.drop_last() =~= s.drop_last());
        lemma_map_of_dom(s.drop_last(), s[i].0);
        assert(map_of(t) =~= map_of(s).insert(s[i].0, v));
    } else {
        lemma_map_of_update(s.drop_last(), i, v);
        assert(t.drop_last() =~= s.drop_last().update(i, (s[i].0, v)));
        assert(map_of(t) =~= map_of(s).insert(s[i].0, v));
    }
}

/// Removing entry `i` removes its name.
pub proof fn lemma_map_of_remove<K, V>(s: Seq<(K, V)>, i: int)
    requires
        distinct_names(s),
        0 <= i < s.len(),
    ensures
        map_of(s.remove(i)) == map_of(s).remove(s[i].0),
    decreases s.len(),
{
    let t = s.remove(i);
    if i == s.len() - 1 {
        assert(t =~= s.drop_last());
        lemma_map_of_dom(s.drop_last(), s[i].0);
        assert(map_of(t) =~= map_of(s).remove(s[i].0));
    } else {
        lemma_map_of_remove(s.drop_last(), i);
        assert(t.drop_last() =~= s.drop_last().remove(i));
        assert(t.last() == s.last());
        assert(map_of(t) =~= map_of(s).remove(s[i].0));
    }
}

/// With distinct names there are as many keys as entries.
pub proof fn lemma_map_of_len<K, V>(s: Seq<(K, V)>)
    requires
        distinct_names(s),
    ensures
        map_of(s).dom().finite(),
        map_of(s).len() == s.len(),
    decreases s.len(),
{
    if s.len() > 0 {
        lemma_map_of_len(s.drop_last());
        lemma_map_of_dom(s.drop_last(), s.last().0);
    }
}

/// Entries with each name taken by its characters.
pub open spec fn pairs_of<V>(s: Seq<(String, V)>) -> Seq<(Seq<char>, V)> {
    s.map_values(|e: (String, V)| (e.0@, e.1))
}

/// A map from names to values, held as a list of entries with distinct names.
#[derive(Debug)]
pub struct KeyedMap<V> {
    entries: Vec<(String, V)>,
}

impl<V> View for KeyedMap<V> {
    type V = Map<Seq<char>, V>;

    /// The abstract contents of the map.
    closed spec fn view(&self) -> Map<Seq<char>, V> {
        map_of(self.pairs())
    }
}

impl<V> KeyedMap<V> {
    /// The entries, each name taken by its characters.
    pub closed spec fn pairs(&self) -> Seq<(Seq<char>, V)> {
        pairs_of(self.entries@)
    }

    #[verifier::type_invariant]
    closed spec fn wf(self) -> bool {
        distinct_names(self.pairs())
    }

    /// Creates an empty map.
    pub fn new() -> (r: Self)
        ensures
            r@ == Map::<Seq<char>, V>::empty(),
            r@.dom().finite(),
    {
        let r = KeyedMap { entries: Vec::new() };
        assert(r.pairs() =~= Seq::<(Seq<char>, V)>::empty());
        r
    }

    /// The position of the entry named `key`, if any.
    fn find(&self, key: &str) -> (r: Option<usize>)
        ensures
            match r {
                Some(i) => i < self.pairs().len() && self.pairs()[i as int].0 == key@,
                None => forall|i: int| 0 <= i < self.pairs().len() ==> self.pairs()[i].0 != key@,
            },
    {
        let k = String::from_str(key);
        let mut i: usize = 0;
        while i < self.entries.len()
            invariant
                i <= self.entries.len(),
                k@ == key@,
                forall|j: int| 0 <= j < i ==> self.pairs()[j].0 != key@,
            decreases self.entries.len() - i,
        {
            if self.entries[i].0 == k {
                return Some(i);
            }
            i = i + 1;
        }
        None
    }

    /// Number of names in the map.
    pub fn len(&self) -> (r: usize)
        ensures
            r == self@.len(),
            self@.dom().finite(),
    {
        proof {
            use_type_invariant(self);
            lemma_map_of_len(self.pairs());
        }
        self.entries.len()
    }

    /// Whether `key` names a value.
    pub fn contains_key(&self, key: &str) -> (r: bool)
        ensures
            r == self@.dom().contains(key@),
    {
        proof {
            lemma_map_of_dom(self.pairs(), key@);
        }
        self.find(key).is_some()
    }

    /// The value named `key`, if any.
    pub fn get(&self, key: &str) -> (r: Option<&V>)
        ensures
            match r {
                Some(v) => self@.dom().contains(key@) && *v == self@[key@],
                None => !self@.dom().contains(key@),
            },
    {
        proof {
            use_type_invariant(self);
            lemma_map_of_dom(self.pairs(), key@);
        }
        match self.find(key) {
            Some(i) => {
                proof {
                    lemma_map_of_index(self.pairs(), i as int);
                }
                Some(&self.entries[i].1)
            },
            None => None,
        }
    }

    /// Names `value` by `key`, replacing the value that `key` named before.
    pub fn insert(&mut self, key: String, value: V)
        ensures
            final(self)@ == old(self)@.insert(key@, value),
    {
        proof {
            use_type_invariant(&*self);
        }
        let ghost old_pairs = self.pairs();
        let found = self.find(key.as_str());
        let mut entries: Vec<(String, V)> = Vec::new();
        std::mem::swap(&mut entries, &mut self.entries);
        match found {
            Some(i) => {
                proof {
                    lemma_map_of_update(old_pairs, i as int, value);
                }
                entries.set(i, (key, value));
            },
            None => {
                let ghost k = key@;
                entries.push((key, value));
                assert(pairs_of(entries@) =~= old_pairs.push((k, value)));
            },
        }
        proof {
            match found {
                Some(i) => {
                    assert(pairs_of(entries@) =~= old_pairs.update(i as int, (old_pairs[i as int].0, value)));
                },
                None => {},
            }
        }
        self.entries = entries;
        proof {
            match found {
                Some(i) => {
                    assert(self.pairs() =~= old_pairs.update(i as int, (old_pairs[i as int].0, value)));
                },
                None => {
                    assert(self.pairs().drop_last() =~= old_pairs);
                },
            }
        }
    }

    /// Removes the value named `key` and returns it, if there was one.
    pub fn remove(&mut self, key: &str) -> (r: Option<V>)
        ensures
            final(self)@ == old(self)@.remove(key@),
            match r {
                Some(v) => old(self)@.dom().contains(key@) && v == old(self)@[key@],
                None => !old(self)@.dom().contains(key@),
            },
    {
        proof {
            use_type_invariant(&*self);
            lemma_map_of_dom(self.pairs(), key@);
        }
        let ghost old_pairs = self.pairs();
        match self.find(key) {
            Some(i) => {
                proof {
                    lemma_map_of_remove(old_pairs, i as int);
                    lemma_map_of_index(old_pairs, i as int);
                }
                let mut entries: Vec<(String, V)> = Vec::new();
                std::mem::swap(&mut entries, &mut self.entries);
                let e = entries.remove(i);
                assert(pairs_of(entries@) =~= old_pairs.remove(i as int));
                self.entries = entries;
                assert(self.pairs() =~= old_pairs.remove(i as int));
                Some(e.1)
            },
            None => {
                assert(old(self)@ =~= old(self)@.remove(key@));
                None
            },
        }
    }

    /// Removes every entry.
    pub fn clear(&mut self)
        ensures
            final(self)@ == Map::<Seq<char>, V>::empty(),
    {
        self.entries = Vec::new();
        assert(self.pairs() =~= Seq::<(Seq<char>, V)>::empty());
    }

    /// The names in the map, each once.
    pub fn keys(&self) -> (r: Vec<String>)
        ensures
            r@.len() == self@.len(),
            forall|i: int| 0 <= i < r@.len() ==> self@.dom().contains(#[trigger] r@[i]@),
            forall|k: Seq<char>| self@.dom().contains(k) ==> exists|i: int| 0 <= i < r@.len() && #[trigger] r@[i]@ == k,
            forall|i: int, j: int| 0 <= i < j < r@.len() ==> r@[i]@ != r@[j]@,
    {
        proof {
            use_type_invariant(self);
            lemma_map_of_len(self.pairs());
        }
        let mut r: Vec<String> = Vec::new();
        let mut i: usize = 0;
        while i < self.entries.len()
            invariant
                i <= self.entries.len(),
                r@.len() == i,
                distinct_names(self.pairs()),
                forall|j: int| 0 <= j < i ==> #[trigger] r@[j]@ == self.pairs()[j].0,
            decreases self.entries.len() - i,
        {
            r.push(self.entries[i].0.clone());
            i = i + 1;
        }
        proof {
            assert forall|j: int| 0 <= j < r@.len() implies self@.dom().contains(#[trigger] r@[j]@) by {
                lemma_map_of_dom(self.pairs(), r@[j]@);
            }
            assert forall|k: Seq<char>| self@.dom().contains(k) implies exists|j: int|
                0 <= j < r@.len() && #[trigger] r@[j]@ == k by {
                lemma_map_of_dom(self.pairs(), k);
                let j = choose|j: int| 0 <= j < self.pairs().len() && self.pairs()[j].0 == k;
                assert(r@[j]@ == k);
            }
        }
        r
    }
}

} // verus!
