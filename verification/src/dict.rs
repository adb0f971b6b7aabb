//! An insertion-ordered string-keyed map with last-writer-wins insertion:
//! the effective configuration maps the merge engine assembles and returns.
//!
//! Entries are kept in first-insertion order with unique keys, so equal
//! sequences of operations yield byte-identical maps; the view is both the
//! ordered sequence of pairs ([`ConfigDict::pairs`]) and the key/value
//! mapping it denotes ([`ConfigDict::as_map`]).

use crate::crd::str_eq;
use crate::crd::ConfigOption;
use vstd::prelude::*;

verus! {

/// A key/value pair at the specification level.
pub type SpecPair = (Seq<char>, Seq<char>);

/// Holds when no two pairs share a key.
pub open spec fn unique_keys(s: Seq<SpecPair>) -> bool {
    forall|i: int, j: int| 0 <= i < j < s.len() ==> (#[trigger] s[i]).0 != (#[trigger] s[j]).0
}

/// The mapping denoted by a sequence of pairs; on duplicate keys the later
/// pair wins.
pub open spec fn pairs_to_map(s: Seq<SpecPair>) -> Map<Seq<char>, Seq<char>>
    decreases s.len(),
{
    if s.len() == 0 {
        Map::empty()
    } else {
        pairs_to_map(s.drop_last()).insert(s.last().0, s.last().1)
    }
}

/// Holds when some pair of `s` carries the key `k`.
pub open spec fn has_key(s: Seq<SpecPair>, k: Seq<char>) -> bool {
    exists|i: int| 0 <= i < s.len() && (#[trigger] s[i]).0 == k
}

/// The index of the pair carrying the key `k`, unique when keys are unique.
pub open spec fn find_key(s: Seq<SpecPair>, k: Seq<char>) -> int {
    choose|i: int| 0 <= i < s.len() && (#[trigger] s[i]).0 == k
}

/// Last-writer-wins insertion on ordered pairs: an existing key keeps its
/// position and takes the new value; a new key is appended.
pub open spec fn dict_insert(s: Seq<SpecPair>, k: Seq<char>, v: Seq<char>) -> Seq<SpecPair> {
    if has_key(s, k) {
        s.update(find_key(s, k), (k, v))
    } else {
        s.push((k, v))
    }
}

/// A sequence of pairs contains a key exactly when its map does.
pub proof fn lemma_map_contains(s: Seq<SpecPair>, k: Seq<char>)
    ensures
        pairs_to_map(s).contains_key(k) <==> has_key(s, k),
    decreases s.len(),
{
    if s.len() == 0 {
    } else {
        lemma_map_contains(s.drop_last(), k);
        if s.last().0 == k {
            assert((#[trigger] s[s.len() - 1]).0 == k);
        } else {
            if has_key(s.drop_last(), k) {
                let i = choose|i: int|
                    0 <= i < s.drop_last().len() && (#[trigger] s.drop_last()[i]).0 == k;
                assert((#[trigger] s[i]).0 == k);
            }
            if has_key(s, k) {
                let i = choose|i: int| 0 <= i < s.len() && (#[trigger] s[i]).0 == k;
                assert(i < s.len() - 1);
                assert((#[trigger] s.drop_last()[i]).0 == k);
            }
        }
    }
}

/// Under unique keys, the map of a sequence of pairs sends each key to the
/// value beside it.
pub proof fn lemma_map_value(s: Seq<SpecPair>, i: int)
    requires
        unique_keys(s),
        0 <= i < s.len(),
    ensures
        pairs_to_map(s).contains_key(s[i].0),
        pairs_to_map(s)[s[i].0] == s[i].1,
    decreases s.len(),
{
    assert((#[trigger] s[i]).0 == s[i].0);
    lemma_map_contains(s, s[i].0);
    if i == s.len() - 1 {
    } else {
        assert(unique_keys(s.drop_last()));
        assert(s.drop_last()[i] == s[i]);
        lemma_map_value(s.drop_last(), i);
        assert(s[s.len() - 1].0 != s[i].0);
    }
}

/// Updating the value at a key's position changes the denoted map exactly by
/// an insertion at that key.
proof fn lemma_map_update(s: Seq<SpecPair>, i: int, v: Seq<char>)
    requires
        unique_keys(s),
        0 <= i < s.len(),
    ensures
        pairs_to_map(s.update(i, (s[i].0, v))) == pairs_to_map(s).insert(s[i].0, v),
    decreases s.len(),
{
    let k = s[i].0;
    let u = s.update(i, (k, v));
    if i == s.len() - 1 {
        assert(u.drop_last() =~= s.drop_last());
        assert(pairs_to_map(s.drop_last()).insert(k, s[i].1).insert(k, v) =~= pairs_to_map(
            s.drop_last(),
        ).insert(k, v));
    } else {
        assert(unique_keys(s.drop_last()));
        assert(s.drop_last()[i] == s[i]);
        lemma_map_update(s.drop_last(), i, v);
        assert(u.drop_last() =~= s.drop_last().update(i, (k, v)));
        assert(u.last() == s.last());
        let l = s.last();
        assert(l.0 != k) by {
            assert((#[trigger] s[i]).0 == k);
            assert((#[trigger] s[s.len() - 1]).0 == l.0);
        }
        assert(pairs_to_map(s.drop_last()).insert(k, v).insert(l.0, l.1) =~= pairs_to_map(
            s.drop_last(),
        ).insert(l.0, l.1).insert(k, v));
    }
}

/// Last-writer-wins insertion denotes map insertion and preserves key
/// uniqueness.
pub proof fn lemma_dict_insert(s: Seq<SpecPair>, k: Seq<char>, v: Seq<char>)
    requires
        unique_keys(s),
    ensures
        pairs_to_map(dict_insert(s, k, v)) == pairs_to_map(s).insert(k, v),
        unique_keys(dict_insert(s, k, v)),
        dict_insert(s, k, v).len() == if has_key(s, k) {
            s.len() as int
        } else {
            s.len() as int + 1
        },
{
    if has_key(s, k) {
        let i = find_key(s, k);
        assert(0 <= i < s.len() && s[i].0 == k);
        lemma_map_update(s, i, v);
        let u = s.update(i, (k, v));
        assert forall|a: int, b: int| 0 <= a < b < u.len() implies (#[trigger] u[a]).0 != (
        #[trigger] u[b]).0 by {
            assert((#[trigger] s[a]).0 != (#[trigger] s[b]).0);
        }
    } else {
        let u = s.push((k, v));
        assert(u.drop_last() =~= s);
        assert forall|a: int, b: int| 0 <= a < b < u.len() implies (#[trigger] u[a]).0 != (
        #[trigger] u[b]).0 by {
            if b < u.len() - 1 {
                assert((#[trigger] s[a]).0 != (#[trigger] s[b]).0);
            } else {
                assert((#[trigger] s[a]).0 == u[a].0);
            }
        }
    }
}

/// An insertion-ordered string map with unique keys.
#[derive(Debug)]
pub struct ConfigDict {
    entries: Vec<ConfigOption>,
}

impl ConfigDict {
    /// The ordered sequence of key/value pairs this map holds.
    pub closed spec fn pairs(&self) -> Seq<SpecPair> {
        self.entries@.map_values(|o: ConfigOption| (o.name@, o.value@))
    }

    /// The key/value mapping this map denotes.
    pub open spec fn as_map(&self) -> Map<Seq<char>, Seq<char>> {
        pairs_to_map(self.pairs())
    }

    /// Well-formedness: no key occurs twice. Constructors establish it and
    /// every method preserves it.
    pub open spec fn wf(&self) -> bool {
        unique_keys(self.pairs())
    }

    /// Creates an empty map.
    pub fn new() -> (d: ConfigDict)
        ensures
            d.wf(),
            d.pairs() == Seq::<SpecPair>::empty(),
    {
        let d = ConfigDict { entries: Vec::new() };
        proof {
            assert(d.pairs() =~= Seq::<SpecPair>::empty());
        }
        d
    }

    /// The number of entries.
    pub fn len(&self) -> (n: usize)
        ensures
            n == self.pairs().len(),
    {
        self.entries.len()
    }

    /// The entry at a position, in insertion order.
    pub fn entry_at(&self, i: usize) -> (o: &ConfigOption)
        requires
            i < self.pairs().len(),
        ensures
            (o.name@, o.value@) == self.pairs()[i as int],
    {
        &self.entries[i]
    }

    /// Inserts a key/value pair; an existing key keeps its position and
    /// takes the new value (last writer wins).
    pub fn insert(&mut self, name: String, value: String)
        requires
            old(self).wf(),
        ensures
            final(self).wf(),
            final(self).pairs() == dict_insert(old(self).pairs(), name@, value@),
            final(self).as_map() == old(self).as_map().insert(name@, value@),
    {
        let ghost orig = self.pairs();
        let n = self.entries.len();
        let mut i: usize = 0;
        while i < n
            invariant
                i <= n,
                n == self.entries@.len(),
                *self == *old(self),
                forall|j: int| 0 <= j < i ==> (#[trigger] orig[j]).0 != name@,
                orig == old(self).pairs(),
                unique_keys(orig),
            decreases n - i,
        {
            if str_eq(self.entries[i].name.as_str(), name.as_str()) {
                proof {
                    assert((#[trigger] orig[i as int]).0 == name@);
                    assert(find_key(orig, name@) == i as int) by {
                        let f = find_key(orig, name@);
                        assert(0 <= f < orig.len() && (#[trigger] orig[f]).0 == name@);
                        if f < i as int {
                            assert((#[trigger] orig[f]).0 != (#[trigger] orig[i as int]).0);
                        } else if f > i as int {
                            assert((#[trigger] orig[i as int]).0 != (#[trigger] orig[f]).0);
                        }
                    }
                }
                let e = vstd::std_specs::vec::vec_index_mut(&mut self.entries, i);
                e.value = value;
                proof {
                    assert(self.pairs() =~= dict_insert(orig, name@, value@));
                    lemma_dict_insert(orig, name@, value@);
                }
                return ;
            }
            i = i + 1;
        }
        self.entries.push(ConfigOption { name, value });
        proof {
            assert(!has_key(orig, name@));
            assert(self.pairs() =~= dict_insert(orig, name@, value@));
            lemma_dict_insert(orig, name@, value@);
        }
    }

    /// Looks a key up; returns its value exactly when the map contains it.
    pub fn get(&self, name: &str) -> (r: Option<&String>)
        requires
            self.wf(),
        ensures
            match r {
                Some(v) => self.as_map().contains_key(name@) && v@ == self.as_map()[name@],
                None => !self.as_map().contains_key(name@),
            },
    {
        let n = self.entries.len();
        let mut i: usize = 0;
        while i < n
            invariant
                i <= n,
                n == self.entries@.len(),
                self.wf(),
                forall|j: int| 0 <= j < i ==> (#[trigger] self.pairs()[j]).0 != name@,
            decreases n - i,
        {
            if str_eq(self.entries[i].name.as_str(), name) {
                proof {
                    assert((#[trigger] self.pairs()[i as int]).0 == name@);
                    lemma_map_value(self.pairs(), i as int);
                }
                return Some(&self.entries[i].value);
            }
            i = i + 1;
        }
        proof {
            lemma_map_contains(self.pairs(), name@);
        }
        None
    }

    /// Whether the map contains a key.
    pub fn contains_key(&self, name: &str) -> (r: bool)
        requires
            self.wf(),
        ensures
            r == self.as_map().contains_key(name@),
    {
        match self.get(name) {
            Some(_) => true,
            None => false,
        }
    }
}

} // verus!
