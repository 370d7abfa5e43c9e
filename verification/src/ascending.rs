//! Sets of 64-bit values, listed in ascending order.

use std::collections::BTreeSet;

use vstd::prelude::*;
#[allow(unused_imports)]
use vstd::std_specs::cmp::OrdSpec;
#[allow(unused_imports)]
use vstd::std_specs::iter::IteratorSpec;

verus! {

broadcast use vstd::std_specs::btree::group_btree_axioms;

/// Whether `values` lists what `set` holds, each value once, in ascending order.
pub open spec fn lists(values: Seq<u64>, set: Set<u64>) -> bool {
    &&& forall|i: int, j: int| 0 <= i < j < values.len() ==> values[i] < values[j]
    &&& forall|value: u64| #[trigger] values.contains(value) <==> set.contains(value)
}

/// What `set` holds, each value once, in ascending order.
pub open spec fn ascending(set: Set<u64>) -> Seq<u64> {
    choose|values: Seq<u64>| lists(values, set)
}

/// A set is listed in ascending order in one way only.
pub proof fn listing_is_unique(left: Seq<u64>, right: Seq<u64>, set: Set<u64>)
    requires
        lists(left, set),
        lists(right, set),
    ensures
        left == right,
    decreases left.len(),
{
    if left.len() == 0 {
        if right.len() > 0 {
            assert(right.contains(right[0]));
            assert(left.contains(right[0]));
        }
        assert(left == right);
    } else {
        assert(left.contains(left.last()));
        assert(right.contains(left.last()));
        assert(right.contains(right.last()));
        assert(left.contains(right.last()));
        let i = choose|i: int| 0 <= i < right.len() && right[i] == left.last();
        let j = choose|j: int| 0 <= j < left.len() && left[j] == right.last();
        assert(left.last() == right.last());
        let last = left.last();
        let shorter = set.remove(last);
        assert forall|value: u64| #[trigger]
            left.drop_last().contains(value) <==> shorter.contains(value) by {
            listing_without_last(left, set, value);
        }
        assert forall|value: u64| #[trigger]
            right.drop_last().contains(value) <==> shorter.contains(value) by {
            listing_without_last(right, set, value);
        }
        listing_is_unique(left.drop_last(), right.drop_last(), shorter);
        assert(left == left.drop_last().push(last));
        assert(right == right.drop_last().push(last));
    }
}

/// A listing without its last value lists the set without that value.
proof fn listing_without_last(values: Seq<u64>, set: Set<u64>, value: u64)
    requires
        lists(values, set),
        values.len() > 0,
    ensures
        values.drop_last().contains(value) <==> set.remove(values.last()).contains(value),
{
    if values.drop_last().contains(value) {
        let i = choose|i: int| 0 <= i < values.drop_last().len() && values.drop_last()[i] == value;
        assert(values[i] == value);
        assert(values.contains(value));
    }
    if set.remove(values.last()).contains(value) {
        assert(values.contains(value));
        let i = choose|i: int| 0 <= i < values.len() && values[i] == value;
        assert(values.drop_last()[i] == value);
    }
}

/// The values of a set in ascending order.
pub fn listed(set: &BTreeSet<u64>) -> (values: Vec<u64>)
    ensures
        lists(values@, set@),
        values@ == ascending(set@),
{
    broadcast use vstd::laws_cmp::group_laws_cmp;

    let ghost items = vstd::std_specs::btree::spec_btree_keys_iter(set).remaining();
    let mut values: Vec<u64> = Vec::new();
    for value in it: set.iter()
        invariant
            it.seq() == items,
            values@ == items.unref().take(it.index()),
    {
        values.push(*value);
        assert(values@ == items.unref().take(it.index() + 1));
    }
    proof {
        assert(values@ == items.unref());
        assert forall|i: int, j: int| 0 <= i < j < values@.len() implies values@[i] < values@[j] by {
            assert(vstd::std_specs::btree::increasing_seq(items));
            assert(vstd::laws_cmp::obeys_cmp::<&u64>());
            assert(OrdSpec::cmp_spec(&items[i], &items[j]) is Less);
        }
        assert forall|value: u64| #[trigger] values@.contains(value) <==> set@.contains(value) by {
            assert(values@.to_set().contains(value) <==> values@.contains(value));
        }
        listing_is_unique(values@, ascending(set@), set@);
    }
    values
}

/// Every finite set can be listed in ascending order.
pub proof fn finite_set_is_listed(set: Set<u64>)
    requires
        set.finite(),
    ensures
        lists(ascending(set), set),
    decreases set.len(),
{
    if set.len() == 0 {
        assert(set == Set::<u64>::empty());
        assert(lists(Seq::<u64>::empty(), set));
    } else {
        let value = set.choose();
        let rest = set.remove(value);
        finite_set_is_listed(rest);
        let values = ascending(rest);
        assert(!values.contains(value));
        let place = place_of(values, value);
        place_is_right(values, value);
        let longer = values.insert(place, value);
        assert forall|other: u64| #[trigger] longer.contains(other) <==> set.contains(other) by {
            if longer.contains(other) {
                let i = choose|i: int| 0 <= i < longer.len() && longer[i] == other;
                if i < place {
                    assert(values[i] == other);
                    assert(values.contains(other));
                } else if i > place {
                    assert(values[i - 1] == other);
                    assert(values.contains(other));
                }
            }
            if set.contains(other) {
                if other == value {
                    assert(longer[place] == other);
                } else {
                    assert(rest.contains(other));
                    assert(values.contains(other));
                    let i = choose|i: int| 0 <= i < values.len() && values[i] == other;
                    if i < place {
                        assert(longer[i] == other);
                    } else {
                        assert(longer[i + 1] == other);
                    }
                }
            }
        }
        assert(lists(longer, set));
    }
}

/// How many of the values at the front of `values` are below `value`.
spec fn place_of(values: Seq<u64>, value: u64) -> int
    decreases values.len(),
{
    if values.len() == 0 || values[0] >= value {
        0
    } else {
        1 + place_of(values.drop_first(), value)
    }
}

/// In ascending values, those before the place of a value are below it, those after it above.
proof fn place_is_right(values: Seq<u64>, value: u64)
    requires
        forall|i: int, j: int| 0 <= i < j < values.len() ==> values[i] < values[j],
        !values.contains(value),
    ensures
        0 <= place_of(values, value) <= values.len(),
        forall|i: int| 0 <= i < place_of(values, value) ==> values[i] < value,
        forall|i: int| place_of(values, value) <= i < values.len() ==> value < values[i],
    decreases values.len(),
{
    if values.len() > 0 {
        assert(values.contains(values[0]));
        if values[0] < value {
            let rest = values.drop_first();
            assert forall|other: u64| rest.contains(other) implies values.contains(other) by {
                let i = choose|i: int| 0 <= i < rest.len() && rest[i] == other;
                assert(values[i + 1] == other);
            }
            place_is_right(rest, value);
            assert forall|i: int| 0 <= i < place_of(values, value) implies values[i] < value by {
                if i > 0 {
                    assert(rest[i - 1] < value);
                }
            }
            assert forall|i: int| place_of(values, value) <= i < values.len() implies value
                < values[i] by {
                assert(value < rest[i - 1]);
            }
        }
    }
}

} // verus!
