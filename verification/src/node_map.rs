use crate::node_set::NodeSet;
use vstd::prelude::*;
use vstd::std_specs::cmp::PartialEqSpecImpl;

verus! {

/// The views of the keys of a sequence of entries, in the same order.
pub open spec fn keys_of<V>(entries: Seq<(String, V)>) -> Seq<Seq<char>> {
    Seq::new(entries.len(), |i: int| entries[i].0@)
}

/// The map that a sequence of entries with distinct keys stands for.
spec fn map_of<V: View>(entries: Seq<(String, V)>) -> Map<Seq<char>, V::V> {
    Map::new(
        |k: Seq<char>| keys_of(entries).contains(k),
        |k: Seq<char>| entries[keys_of(entries).index_of(k)].1@,
    )
}

/// With distinct keys, each entry is what the map holds under its key.
proof fn lemma_map_of_entry<V: View>(entries: Seq<(String, V)>, i: int)
    requires
        keys_of(entries).no_duplicates(),
        0 <= i < entries.len(),
    ensures
        map_of(entries).contains_key(entries[i].0@),
        map_of(entries)[entries[i].0@] == entries[i].1@,
{
    let keys = keys_of(entries);
    let k = entries[i].0@;
    assert(keys[i] == k);
    let j = keys.index_of(k);
    assert(keys[j] == k);
}

/// A finite map from node identifiers to values of type `V`. Its view maps
/// each identifier's character sequence to the view of the value.
#[derive(Debug)]
pub struct NodeMap<V> {
    entries: Vec<(String, V)>,
}

impl<V: View> View for NodeMap<V> {
    type V = Map<Seq<char>, V::V>;

    closed spec fn view(&self) -> Map<Seq<char>, V::V> {
        map_of(self.entries@)
    }
}

impl<V> NodeMap<V> {
    #[verifier::type_invariant]
    spec fn distinct_keys(&self) -> bool {
        keys_of(self.entries@).no_duplicates()
    }
}

impl<V: View> NodeMap<V> {
    /// The empty map.
    pub fn new() -> (m: Self)
        ensures
            m@ == Map::<Seq<char>, V::V>::empty(),
    {
        let m = NodeMap { entries: Vec::new() };
        assert(m@ =~= Map::<Seq<char>, V::V>::empty());
        m
    }

    /// The position of `key` among the entries, if it is bound.
    fn position(&self, key: &String) -> (at: Option<usize>)
        ensures
            match at {
                Some(i) => i < self.entries@.len() && self.entries@[i as int].0@ == key@,
                None => !keys_of(self.entries@).contains(key@),
            },
    {
        let mut i: usize = 0;
        while i < self.entries.len()
            invariant
                0 <= i <= self.entries.len(),
                forall|j: int| 0 <= j < i ==> keys_of(self.entries@)[j] != key@,
            decreases self.entries.len() - i,
        {
            if self.entries[i].0 == *key {
                return Some(i);
            }
            i += 1;
        }
        None
    }

    /// The value that `key` is bound to, if it is bound.
    pub fn get(&self, key: &String) -> (value: Option<&V>)
        ensures
            match value {
                Some(v) => self@.contains_key(key@) && self@[key@] == v@,
                None => !self@.contains_key(key@),
            },
    {
        proof {
            use_type_invariant(self);
        }
        match self.position(key) {
            Some(i) => {
                proof {
                    lemma_map_of_entry(self.entries@, i as int);
                }
                Some(&self.entries[i].1)
            },
            None => None,
        }
    }

    /// Binds `key` to `value`; an earlier binding of `key` is replaced.
    pub fn insert(&mut self, key: String, value: V)
        ensures
            final(self)@ == old(self)@.insert(key@, value@),
    {
        proof {
            use_type_invariant(&*self);
        }
        let at = self.position(&key);
        let ghost before = self.entries@;
        let ghost wanted = map_of(before).insert(key@, value@);
        let mut entries: Vec<(String, V)> = Vec::new();
        std::mem::swap(&mut entries, &mut self.entries);
        match at {
            Some(i) => {
                entries.set(i, (key, value));
                assert(keys_of(entries@) =~= keys_of(before));
            },
            None => {
                entries.push((key, value));
                assert(keys_of(entries@) =~= keys_of(before).push(key@));
            },
        }
        proof {
            let after = entries@;
            let at_key = if at is Some { at->0 as int } else { before.len() as int };
            assert forall|k: Seq<char>| #[trigger]
                map_of(after).dom().contains(k) == wanted.dom().contains(k) by {
                if keys_of(after).contains(k) {
                    let j = keys_of(after).index_of(k);
                    assert(keys_of(after)[j] == k);
                    if k != key@ {
                        assert(keys_of(before)[j] == k);
                    }
                }
                if k == key@ {
                    assert(keys_of(after)[at_key] == k);
                } else if keys_of(before).contains(k) {
                    let j = keys_of(before).index_of(k);
                    assert(keys_of(before)[j] == k);
                    assert(keys_of(after)[j] == k);
                }
            }
            assert forall|k: Seq<char>| map_of(after).dom().contains(k) implies #[trigger] map_of(
                after,
            )[k] == wanted[k] by {
                if k == key@ {
                    lemma_map_of_entry(after, at_key);
                } else {
                    let j = keys_of(before).index_of(k);
                    assert(keys_of(before)[j] == k);
                    lemma_map_of_entry(before, j);
                    lemma_map_of_entry(after, j);
                }
            }
            assert(map_of(after) =~= wanted);
        }
        self.entries = entries;
    }

    /// The number of bound identifiers.
    pub fn len(&self) -> (n: usize)
        ensures
            n == self@.dom().len(),
            self@.dom().finite(),
    {
        proof {
            use_type_invariant(self);
            let keys = keys_of(self.entries@);
            assert(self@.dom() =~= keys.to_set());
            keys.unique_seq_to_set();
            vstd::seq_lib::seq_to_set_is_finite(keys);
        }
        self.entries.len()
    }

    /// The bindings, each identifier once, in the order in which the
    /// identifiers were first bound.
    pub fn entries(&self) -> (entries: &Vec<(String, V)>)
        ensures
            keys_of(entries@).no_duplicates(),
            keys_of(entries@).to_set() == self@.dom(),
            forall|i: int|
                0 <= i < entries.len() ==> self@.contains_key((#[trigger] entries[i]).0@)
                    && self@[entries[i].0@] == entries[i].1@,
    {
        proof {
            use_type_invariant(self);
            assert(self@.dom() =~= keys_of(self.entries@).to_set());
            assert forall|i: int| 0 <= i < self.entries.len() implies self@.contains_key(
                (#[trigger] self.entries[i]).0@,
            ) && self@[self.entries[i].0@] == self.entries[i].1@ by {
                lemma_map_of_entry(self.entries@, i);
            }
        }
        &self.entries
    }
}

impl PartialEq for NodeMap<NodeSet> {
    /// Two maps are equal when they bind the same identifiers to equal
    /// sets, in whatever order they were bound.
    fn eq(&self, other: &Self) -> (equal: bool) {
        if self.len() != other.len() {
            return false;
        }
        let entries = self.entries();
        let mut i: usize = 0;
        while i < entries.len()
            invariant
                0 <= i <= entries.len(),
                forall|j: int|
                    0 <= j < entries.len() ==> self@.contains_key((#[trigger] entries[j]).0@)
                        && self@[entries[j].0@] == entries[j].1@,
                forall|j: int|
                    0 <= j < i ==> other@.contains_key((#[trigger] entries[j]).0@)
                        && other@[entries[j].0@] == entries[j].1@,
            decreases entries.len() - i,
        {
            match other.get(&entries[i].0) {
                Some(theirs) => {
                    if !(entries[i].1 == *theirs) {
                        assert(self@[entries[i as int].0@] != other@[entries[i as int].0@]);
                        return false;
                    }
                },
                None => {
                    assert(self@.contains_key(entries[i as int].0@));
                    return false;
                },
            }
            i += 1;
        }
        proof {
            assert(self@.dom().subset_of(other@.dom())) by {
                assert forall|k: Seq<char>| self@.dom().contains(k) implies other@.dom().contains(
                    k,
                ) by {
                    assert(keys_of(entries@).contains(k));
                    let j = choose|j: int|
                        0 <= j < keys_of(entries@).len() && keys_of(entries@)[j] == k;
                    assert(entries[j].0@ == k);
                }
            }
            vstd::set_lib::lemma_subset_equality(self@.dom(), other@.dom());
            assert forall|k: Seq<char>| self@.dom().contains(k) implies #[trigger] self@[k]
                == other@[k] by {
                assert(keys_of(entries@).contains(k));
                let j = choose|j: int|
                    0 <= j < keys_of(entries@).len() && keys_of(entries@)[j] == k;
                assert(entries[j].0@ == k);
            }
            assert(self@ =~= other@);
        }
        true
    }
}

impl PartialEqSpecImpl for NodeMap<NodeSet> {
    open spec fn obeys_eq_spec() -> bool {
        true
    }

    open spec fn eq_spec(&self, other: &Self) -> bool {
        self@ == other@
    }
}

impl Eq for NodeMap<NodeSet> {

}

} // verus!
