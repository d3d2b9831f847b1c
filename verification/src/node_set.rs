use vstd::prelude::*;
use vstd::std_specs::cmp::PartialEqSpecImpl;

verus! {

/// The views of a sequence of identifiers, in the same order.
pub open spec fn names(ids: Seq<String>) -> Seq<Seq<char>> {
    Seq::new(ids.len(), |i: int| ids[i]@)
}

/// A finite set of node identifiers. Its view is the set of the
/// identifiers' character sequences.
#[derive(Debug)]
pub struct NodeSet {
    ids: Vec<String>,
}

impl View for NodeSet {
    type V = Set<Seq<char>>;

    open spec fn view(&self) -> Set<Seq<char>> {
        self.order().to_set()
    }
}

impl NodeSet {
    /// The members, each once, in the order in which they were inserted.
    pub closed spec fn order(&self) -> Seq<Seq<char>> {
        names(self.ids@)
    }

    #[verifier::type_invariant]
    spec fn distinct(&self) -> bool {
        self.order().no_duplicates()
    }

    /// The empty set.
    pub fn new() -> (s: Self)
        ensures
            s@ == Set::<Seq<char>>::empty(),
            s.order() == Seq::<Seq<char>>::empty(),
    {
        let s = NodeSet { ids: Vec::new() };
        assert(s.order() =~= Seq::<Seq<char>>::empty());
        assert(s@ =~= Set::<Seq<char>>::empty());
        s
    }

    /// Whether `id` is a member.
    pub fn contains(&self, id: &String) -> (found: bool)
        ensures
            found == self@.contains(id@),
    {
        let mut i: usize = 0;
        while i < self.ids.len()
            invariant
                0 <= i <= self.ids.len(),
                forall|j: int| 0 <= j < i ==> self.order()[j] != id@,
            decreases self.ids.len() - i,
        {
            if self.ids[i] == *id {
                assert(self.order()[i as int] == id@);
                return true;
            }
            i += 1;
        }
        false
    }

    /// Adds `id`; an identifier that is already a member is not added again.
    pub fn insert(&mut self, id: String) -> (fresh: bool)
        ensures
            final(self)@ == old(self)@.insert(id@),
            fresh == !old(self)@.contains(id@),
            final(self).order() == if fresh {
                old(self).order().push(id@)
            } else {
                old(self).order()
            },
    {
        proof {
            use_type_invariant(&*self);
        }
        if self.contains(&id) {
            assert(self@ =~= self@.insert(id@));
            false
        } else {
            let ghost before = self.order();
            let mut ids: Vec<String> = Vec::new();
            std::mem::swap(&mut ids, &mut self.ids);
            ids.push(id);
            proof {
                assert(names(ids@) =~= before.push(id@));
                assert(!before.contains(id@));
                before.lemma_push_to_set_commute(id@);
            }
            self.ids = ids;
            true
        }
    }

    /// The members, each exactly once, in the order of their insertion.
    pub fn ids(&self) -> (ids: &Vec<String>)
        ensures
            names(ids@) == self.order(),
            self.order().no_duplicates(),
            self.order().to_set() == self@,
    {
        proof {
            use_type_invariant(self);
        }
        &self.ids
    }

    /// The number of members.
    pub fn len(&self) -> (n: usize)
        ensures
            n == self@.len(),
            n == self.order().len(),
    {
        proof {
            use_type_invariant(self);
            self.order().unique_seq_to_set();
        }
        self.ids.len()
    }

    /// The set of the identifiers in `ids`, inserted first to last; one
    /// that occurs more than once is a member once.
    pub fn from_ids(ids: &Vec<String>) -> (s: Self)
        ensures
            s@ == names(ids@).to_set(),
    {
        let mut s = NodeSet::new();
        let mut i: usize = 0;
        while i < ids.len()
            invariant
                0 <= i <= ids.len(),
                s@ == names(ids@).take(i as int).to_set(),
            decreases ids.len() - i,
        {
            proof {
                let all = names(ids@);
                assert(all.take(i + 1) =~= all.take(i as int).push(ids[i as int]@));
                all.take(i as int).lemma_push_to_set_commute(ids[i as int]@);
            }
            s.insert(ids[i].clone());
            i += 1;
        }
        assert(names(ids@).take(i as int) =~= names(ids@));
        s
    }
}

impl PartialEq for NodeSet {
    /// Two sets are equal when they have the same members, in whatever
    /// order they were inserted.
    fn eq(&self, other: &Self) -> (equal: bool) {
        proof {
            use_type_invariant(self);
            use_type_invariant(other);
            self.order().unique_seq_to_set();
            other.order().unique_seq_to_set();
            vstd::seq_lib::seq_to_set_is_finite(self.order());
            vstd::seq_lib::seq_to_set_is_finite(other.order());
        }
        if self.ids.len() != other.ids.len() {
            return false;
        }
        let mut i: usize = 0;
        while i < self.ids.len()
            invariant
                0 <= i <= self.ids.len(),
                forall|j: int| 0 <= j < i ==> other@.contains(#[trigger] self.order()[j]),
            decreases self.ids.len() - i,
        {
            if !other.contains(&self.ids[i]) {
                assert(self@.contains(self.order()[i as int]));
                return false;
            }
            i += 1;
        }
        proof {
            assert(self@.subset_of(other@)) by {
                assert forall|x: Seq<char>| self@.contains(x) implies other@.contains(x) by {
                    let j = choose|j: int| 0 <= j < self.order().len() && self.order()[j] == x;
                    assert(other@.contains(self.order()[j]));
                }
            }
            vstd::set_lib::lemma_subset_equality(self@, other@);
        }
        true
    }
}

impl PartialEqSpecImpl for NodeSet {
    open spec fn obeys_eq_spec() -> bool {
        true
    }

    open spec fn eq_spec(&self, other: &Self) -> bool {
        self@ == other@
    }
}

impl Eq for NodeSet {

}

} // verus!
