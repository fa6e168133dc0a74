//! Walking a map of identities in ascending order.

use std::collections::BTreeMap;
use vstd::prelude::*;

verus! {

/// Every identity is above the ones before it.
pub open spec fn ascending(ids: Seq<u128>) -> bool {
    forall|i: int, j: int| 0 <= i < j < ids.len() ==> ids[i] < ids[j]
}

/// The identities of a finite set in ascending order.
pub open spec fn ascending_ids(set: Set<u128>) -> Seq<u128> {
    choose|ids: Seq<u128>| ascending(ids) && ids.to_set() == set
}

/// There is only one way to arrange a set of identities in ascending order.
pub proof fn lemma_ascending_unique(a: Seq<u128>, b: Seq<u128>)
    requires
        ascending(a),
        ascending(b),
        a.to_set() == b.to_set(),
    ensures
        a == b,
    decreases a.len(),
{
    if a.len() == 0 {
        if b.len() > 0 {
            assert(b.to_set().contains(b[0]));
            assert(a.to_set().contains(b[0]));
        }
        assert(a =~= b);
    } else {
        assert(a.to_set().contains(a.last()));
        assert(b.to_set().contains(a.last()));
        let i = choose|i: int| 0 <= i < b.len() && b[i] == a.last();
        assert(b.to_set().contains(b.last()));
        assert(a.to_set().contains(b.last()));
        let j = choose|j: int| 0 <= j < a.len() && a[j] == b.last();
        assert(a.last() == b.last());
        let front_a = a.drop_last();
        let front_b = b.drop_last();
        assert forall|x: u128| front_a.to_set().contains(x) implies front_b.to_set().contains(
            x,
        ) by {
            let k = choose|k: int| 0 <= k < front_a.len() && front_a[k] == x;
            assert(a[k] == x);
            assert(a.to_set().contains(x));
            assert(b.to_set().contains(x));
            let m = choose|m: int| 0 <= m < b.len() && b[m] == x;
            assert(m < b.len() - 1);
            assert(front_b[m] == x);
        }
        assert forall|x: u128| front_b.to_set().contains(x) implies front_a.to_set().contains(
            x,
        ) by {
            let k = choose|k: int| 0 <= k < front_b.len() && front_b[k] == x;
            assert(b[k] == x);
            assert(b.to_set().contains(x));
            assert(a.to_set().contains(x));
            let m = choose|m: int| 0 <= m < a.len() && a[m] == x;
            assert(m < a.len() - 1);
            assert(front_a[m] == x);
        }
        assert(front_a.to_set() =~= front_b.to_set());
        lemma_ascending_unique(front_a, front_b);
        assert(a =~= front_a.push(a.last()));
        assert(b =~= front_b.push(b.last()));
    }
}

proof fn lemma_highest(set: Set<u128>) -> (highest: u128)
    requires
        set.finite(),
        set.len() > 0,
    ensures
        set.contains(highest),
        forall|id: u128| set.contains(id) ==> id <= highest,
    decreases set.len(),
{
    let id = set.choose();
    let rest = set.remove(id);
    if rest.len() == 0 {
        assert forall|other: u128| set.contains(other) implies other <= id by {
            if other != id {
                assert(rest.contains(other));
            }
        }
        id
    } else {
        let other = lemma_highest(rest);
        let highest = if id < other {
            other
        } else {
            id
        };
        assert forall|third: u128| set.contains(third) implies third <= highest by {
            if third != id {
                assert(rest.contains(third));
            }
        }
        highest
    }
}

proof fn lemma_arrangement(set: Set<u128>) -> (ids: Seq<u128>)
    requires
        set.finite(),
    ensures
        ascending(ids),
        ids.to_set() == set,
    decreases set.len(),
{
    if set.len() == 0 {
        let ids = Seq::<u128>::empty();
        assert(ids.to_set() =~= set);
        ids
    } else {
        let highest = lemma_highest(set);
        let rest = lemma_arrangement(set.remove(highest));
        let ids = rest.push(highest);
        assert forall|i: int| 0 <= i < rest.len() implies rest[i] < highest by {
            assert(rest.to_set().contains(rest[i]));
            assert(set.remove(highest).contains(rest[i]));
        }
        assert forall|id: u128| ids.to_set().contains(id) == set.contains(id) by {
            if ids.to_set().contains(id) && id != highest {
                let k = choose|k: int| 0 <= k < ids.len() && ids[k] == id;
                assert(rest[k] == id);
                assert(rest.to_set().contains(id));
                assert(set.remove(highest).contains(id));
            }
            if set.contains(id) {
                if id == highest {
                    assert(ids[rest.len() as int] == id);
                } else {
                    assert(rest.to_set().contains(id));
                    let k = choose|k: int| 0 <= k < rest.len() && rest[k] == id;
                    assert(ids[k] == id);
                }
            }
        }
        assert(ids.to_set() =~= set);
        ids
    }
}

/// Every finite set of identities can be arranged in ascending order.
pub proof fn lemma_ascending_ids(set: Set<u128>)
    requires
        set.finite(),
    ensures
        ascending(ascending_ids(set)),
        ascending_ids(set).to_set() == set,
{
    let ids = lemma_arrangement(set);
    assert(ascending(ids) && ids.to_set() == set);
}

proof fn lemma_increasing_is_ascending(keys: Seq<u128>)
    requires
        vstd::std_specs::btree::increasing_seq(keys),
    ensures
        ascending(keys),
{
    assert(vstd::laws_cmp::obeys_cmp::<u128>());
    vstd::std_specs::btree::axiom_increasing_seq_meaning(keys);
    assert forall|i: int, j: int| 0 <= i < j < keys.len() implies keys[i] < keys[j] by {
        assert(vstd::std_specs::cmp::OrdSpec::cmp_spec(&keys[i], &keys[j]) is Less);
    }
}

/// The keys of a map, lowest first.
pub fn ascending_keys<V>(map: &BTreeMap<u128, V>) -> (ids: Vec<u128>)
    ensures
        ids@ == ascending_ids(map@.dom()),
        ascending(ids@),
        ids@.to_set() == map@.dom(),
        ids@.len() == map@.dom().len(),
{
    let mut ids: Vec<u128> = Vec::new();
    let pairs = map.iter();
    let ghost all = vstd::std_specs::iter::IteratorSpec::remaining(&pairs);
    let ghost keys = all.map_values(|pair: (&u128, &V)| *pair.0);
    proof {
        lemma_increasing_is_ascending(keys);
    }
    for pair in it: pairs
        invariant
            it.seq() == all,
            ids@ =~= keys.take(it.index() as int),
            keys == all.map_values(|pair: (&u128, &V)| *pair.0),
    {
        ids.push(*pair.0);
    }
    proof {
        assert(ids@ =~= keys);
        assert forall|k: u128| map@.dom().contains(k) implies ids@.to_set().contains(k) by {
            assert(all.contains((&k, &map@[k])));
            let i = choose|i: int| 0 <= i < all.len() && all[i] == (&k, &map@[k]);
            assert(ids@[i] == k);
        }
        assert forall|k: u128| ids@.to_set().contains(k) implies map@.dom().contains(k) by {
            let i = choose|i: int| 0 <= i < ids@.len() && ids@[i] == k;
            assert(map@.contains_key(*all[i].0));
        }
        assert(ids@.to_set() =~= map@.dom());
        lemma_ascending_unique(ids@, ascending_ids(map@.dom()));
    }
    ids
}

} // verus!
