use rand::seq::IteratorRandom;
use std::collections::HashSet;
use vstd::prelude::*;
use vstd::std_specs::iter::IteratorSpec;

verus! {

broadcast use vstd::std_specs::hash::group_hash_axioms;

/// How many of `acked` already acknowledged values are sent once more: a
/// fifth of them, rounded to the nearest whole number.
pub open spec fn resend_count(acked: nat) -> nat {
    (acked + 2) / 5
}

/// Whether `chosen` may be gossiped to a neighbour that reported `seen`, by
/// a node that holds `values`: every value that the neighbour has not
/// reported, and of those it has reported exactly `resend_count` many.
pub open spec fn valid_selection(values: Set<usize>, seen: Set<usize>, chosen: Set<usize>) -> bool {
    &&& chosen.subset_of(values)
    &&& values.difference(seen).subset_of(chosen)
    &&& chosen.intersect(seen).len() == resend_count(values.intersect(seen).len())
}

/// Whether a node that holds `values` has anything to gossip to a neighbour
/// that reported `seen`.
pub open spec fn has_news(values: Set<usize>, seen: Set<usize>) -> bool {
    values.difference(seen) != Set::<usize>::empty() || resend_count(
        values.intersect(seen).len(),
    ) > 0
}

/// The view of a hash set is a finite set.
pub proof fn lemma_set_is_finite(set: &HashSet<usize>)
    ensures
        set@.finite(),
{
    let elems: Seq<usize> = set.iter().remaining().unref();
    assert(elems.to_set() == set@);
    vstd::seq_lib::seq_to_set_is_finite(elems);
}

/// A valid selection is empty exactly where there is no news.
pub proof fn lemma_selection_empty_iff_no_news(
    values: Set<usize>,
    seen: Set<usize>,
    chosen: Set<usize>,
)
    requires
        values.finite(),
        valid_selection(values, seen, chosen),
    ensures
        chosen == Set::<usize>::empty() <==> !has_news(values, seen),
{
    let resent = chosen.intersect(seen);
    vstd::set_lib::lemma_set_subset_finite(values, chosen);
    vstd::set_lib::lemma_set_subset_finite(chosen, resent);
    if chosen =~= Set::<usize>::empty() {
        assert(values.difference(seen) =~= Set::<usize>::empty());
        assert(resent =~= Set::<usize>::empty());
    } else {
        let v = choose|v: usize| chosen.contains(v);
        if seen.contains(v) {
            assert(resent.contains(v));
            if resent.len() == 0 {
                resent.lemma_len0_is_empty();
            }
        } else {
            assert(values.difference(seen).contains(v));
        }
    }
}

/// `resend_count` is a fifth rounded to the nearest whole number: it is
/// less than half a unit away from the fifth, and no more than the count
/// itself.
pub proof fn lemma_resend_count_is_nearest(acked: nat)
    ensures
        -2 <= 5 * resend_count(acked) - acked <= 2,
        resend_count(acked) <= acked,
{
}

/// The number of acknowledged values to send once more, out of `acked`.
pub fn sample_size(acked: usize) -> (amount: usize)
    ensures
        amount == resend_count(acked as nat),
        amount <= acked,
{
    let whole: usize = acked / 5;
    if acked % 5 >= 3 {
        whole + 1
    } else {
        whole
    }
}

/// Splits `messages` into those that `has_seen` holds and those that it
/// does not.
pub fn partition(messages: &HashSet<usize>, has_seen: &HashSet<usize>) -> (parts: (
    HashSet<usize>,
    HashSet<usize>,
))
    ensures
        parts.0@ == messages@.intersect(has_seen@),
        parts.1@ == messages@.difference(has_seen@),
{
    let mut seen: HashSet<usize> = HashSet::new();
    let mut unseen: HashSet<usize> = HashSet::new();
    let ghost elems: Seq<usize> = messages.iter().remaining().unref();
    let ghost mut done: int = 0;
    for msg in it: messages.iter()
        invariant
            it.seq().unref() == elems,
            done == it.index(),
            0 <= done <= elems.len(),
            forall|v: usize|
                seen@.contains(v) <==> has_seen@.contains(v) && exists|j: int|
                    0 <= j < done && #[trigger] elems[j] == v,
            forall|v: usize|
                unseen@.contains(v) <==> !has_seen@.contains(v) && exists|j: int|
                    0 <= j < done && #[trigger] elems[j] == v,
    {
        assert(*msg == elems[done]);
        if has_seen.contains(msg) {
            seen.insert(*msg);
        } else {
            unseen.insert(*msg);
        }
        proof {
            done = done + 1;
        }
    }
    proof {
        assert(elems.to_set() == messages@);
        assert forall|v: usize| messages@.contains(v) <==> exists|j: int|
            0 <= j < done && #[trigger] elems[j] == v by {
            if messages@.contains(v) {
                assert(elems.contains(v));
            }
            if exists|j: int| 0 <= j < done && #[trigger] elems[j] == v {
                assert(elems.contains(v));
            }
        }
    }
    (seen, unseen)
}

/// A copy of `set`.
pub fn snapshot(set: &HashSet<usize>) -> (copy: HashSet<usize>)
    ensures
        copy@ == set@,
{
    let mut copy: HashSet<usize> = HashSet::new();
    extend(&mut copy, set);
    copy
}

/// Adds every member of `more` to `set`.
pub fn extend(set: &mut HashSet<usize>, more: &HashSet<usize>)
    ensures
        final(set)@ == old(set)@.union(more@),
{
    let ghost elems: Seq<usize> = more.iter().remaining().unref();
    let ghost mut done: int = 0;
    for value in it: more.iter()
        invariant
            it.seq().unref() == elems,
            done == it.index(),
            0 <= done <= elems.len(),
            forall|v: usize|
                set@.contains(v) <==> old(set)@.contains(v) || exists|j: int|
                    0 <= j < done && #[trigger] elems[j] == v,
    {
        assert(*value == elems[done]);
        set.insert(*value);
        proof {
            done = done + 1;
        }
    }
    proof {
        assert(elems.to_set() == more@);
        assert forall|v: usize| more@.contains(v) <==> exists|j: int|
            0 <= j < done && #[trigger] elems[j] == v by {
            if more@.contains(v) {
                assert(elems.contains(v));
            }
            if exists|j: int| 0 <= j < done && #[trigger] elems[j] == v {
                assert(elems.contains(v));
            }
        }
    }
}

/// `IteratorRandom::choose_multiple` of the crate `rand`, on the members of
/// `pool` and with the thread's generator. It fills a reservoir with the
/// first `amount` members and lets each later member replace a random slot
/// or none, so that what comes back are `amount` members of `pool`, each
/// taken from another place of the iteration: no value twice. Which
/// members, and in what order, is left open.
#[verifier::external_body]
fn choose_multiple(pool: &HashSet<usize>, amount: usize) -> (picked: Vec<usize>)
    requires
        amount <= pool@.len(),
    ensures
        picked@.len() == amount,
        picked@.no_duplicates(),
        forall|i: int| 0 <= i < picked@.len() ==> pool@.contains(#[trigger] picked@[i]),
{
    pool.iter().copied().choose_multiple(&mut rand::thread_rng(), amount)
}

/// The set to gossip, from the values that the neighbour has not reported
/// and the values that were drawn to be sent once more.
pub fn with_sample(unseen: HashSet<usize>, sample: &Vec<usize>) -> (chosen: HashSet<usize>)
    ensures
        chosen@ == unseen@.union(sample@.to_set()),
{
    let mut chosen = unseen;
    let mut i: usize = 0;
    while i < sample.len()
        invariant
            0 <= i <= sample.len(),
            forall|v: usize|
                chosen@.contains(v) <==> unseen@.contains(v) || exists|j: int|
                    0 <= j < i && #[trigger] sample@[j] == v,
        decreases sample.len() - i,
    {
        chosen.insert(sample[i]);
        i += 1;
    }
    proof {
        assert forall|v: usize| sample@.to_set().contains(v) <==> exists|j: int|
            0 <= j < i && #[trigger] sample@[j] == v by {
            if sample@.to_set().contains(v) {
                assert(sample@.contains(v));
            }
            if exists|j: int| 0 <= j < i && #[trigger] sample@[j] == v {
                assert(sample@.contains(v));
            }
        }
    }
    chosen
}

/// The values to gossip to a neighbour that reported `has_seen`, out of
/// `messages`: all that it has not reported, and a random fifth of the
/// others.
pub fn select(messages: &HashSet<usize>, has_seen: &HashSet<usize>) -> (chosen: HashSet<usize>)
    ensures
        valid_selection(messages@, has_seen@, chosen@),
{
    let (seen, unseen) = partition(messages, has_seen);
    let random_select = sample_size(seen.len());
    let sample = choose_multiple(&seen, random_select);
    let chosen = with_sample(unseen, &sample);
    proof {
        assert(chosen@.intersect(has_seen@) =~= sample@.to_set());
        sample@.unique_seq_to_set();
    }
    chosen
}

} // verus!
