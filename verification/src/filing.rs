//! Sorting that keeps the order of equals.

use vstd::prelude::*;

verus! {

/// Something that has a number by which it is filed.
pub trait Placed: Sized {
    /// The number.
    spec fn place(&self) -> nat;
}

/// Something that is filed by its number.
pub trait Filed: Placed {
    /// Whether `self` is filed behind `other`.
    fn behind(&self, other: &Self) -> (behind: bool)
        ensures
            behind == (self.place() > other.place()),
    ;
}

/// Where `item` goes in a list: before the last items that are filed behind it.
pub open spec fn slot<T: Placed>(list: Seq<T>, item: T) -> int
    decreases list.len(),
{
    if list.len() > 0 && list.last().place() > item.place() {
        slot(list.drop_last(), item)
    } else {
        list.len() as int
    }
}

/// The list with `item` where it goes.
pub open spec fn filed<T: Placed>(list: Seq<T>, item: T) -> Seq<T> {
    list.insert(slot(list, item), item)
}

/// The list in order; items with one number keep the order that they had.
pub open spec fn in_order<T: Placed>(list: Seq<T>) -> Seq<T>
    decreases list.len(),
{
    if list.len() == 0 {
        list
    } else {
        filed(in_order(list.drop_last()), list.last())
    }
}

/// Whether the numbers of a list never fall.
pub open spec fn never_falls<T: Placed>(list: Seq<T>) -> bool {
    forall|i: int, j: int| 0 <= i < j < list.len() ==> list[i].place() <= list[j].place()
}

proof fn slot_facts<T: Placed>(list: Seq<T>, item: T)
    ensures
        0 <= slot(list, item) <= list.len(),
        forall|i: int|
            slot(list, item) <= i < list.len() ==> (#[trigger] list[i]).place() > item.place(),
        slot(list, item) > 0 ==> list[slot(list, item) - 1].place() <= item.place(),
    decreases list.len(),
{
    if list.len() > 0 && list.last().place() > item.place() {
        slot_facts(list.drop_last(), item);
        let s = slot(list, item);
        assert forall|i: int| s <= i < list.len() implies (#[trigger] list[i]).place()
            > item.place() by {
            if i < list.len() - 1 {
                assert(list.drop_last()[i] == list[i]);
            }
        }
        if s > 0 {
            assert(list.drop_last()[s - 1] == list[s - 1]);
        }
    }
}

/// A list in order has the items of the list, and its numbers never fall.
pub proof fn in_order_is_sorted<T: Placed>(list: Seq<T>)
    ensures
        in_order(list).len() == list.len(),
        in_order(list).to_multiset() == list.to_multiset(),
        never_falls(in_order(list)),
    decreases list.len(),
{
    broadcast use vstd::seq_lib::group_to_multiset_ensures;

    if list.len() > 0 {
        let before = list.drop_last();
        let item = list.last();
        in_order_is_sorted(before);
        let sorted = in_order(before);
        slot_facts(sorted, item);
        let s = slot(sorted, item);
        assert(list =~= before.push(item));
        assert(sorted.insert(s, item).to_multiset() =~= sorted.to_multiset().insert(item));
        let all = in_order(list);
        assert(all == sorted.insert(s, item));
        assert forall|i: int, j: int| 0 <= i < j < all.len() implies all[i].place()
            <= all[j].place() by {
            if i < s && s > 0 {
                assert(sorted[i].place() <= sorted[s - 1].place());
            }
        }
    }
}

/// A list whose numbers never fall is in order.
pub proof fn sorted_stays<T: Placed>(list: Seq<T>)
    requires
        never_falls(list),
    ensures
        in_order(list) == list,
    decreases list.len(),
{
    if list.len() > 0 {
        let before = list.drop_last();
        assert forall|i: int, j: int| 0 <= i < j < before.len() implies before[i].place()
            <= before[j].place() by {
            assert(list[i].place() <= list[j].place());
        }
        sorted_stays(before);
        if before.len() > 0 {
            assert(list[before.len() - 1].place() <= list[before.len() as int].place());
        }
        assert(filed(before, list.last()) =~= list);
    }
}

/// Whether a function keeps the numbers.
pub open spec fn keeps_places<T: Placed, U: Placed>(f: spec_fn(T) -> U) -> bool {
    forall|t: T| (#[trigger] f(t)).place() == t.place()
}

proof fn slot_carries_over<T: Placed, U: Placed>(list: Seq<T>, item: T, f: spec_fn(T) -> U)
    requires
        keeps_places(f),
    ensures
        slot(list.map_values(f), f(item)) == slot(list, item),
    decreases list.len(),
{
    let image = list.map_values(f);
    if list.len() > 0 {
        assert(image.last() == f(list.last()));
        assert(f(list.last()).place() == list.last().place());
        assert(f(item).place() == item.place());
        assert(image.drop_last() =~= list.drop_last().map_values(f));
        if list.last().place() > item.place() {
            slot_carries_over(list.drop_last(), item, f);
        }
    }
}

/// What keeps the numbers keeps the order.
pub proof fn order_carries_over<T: Placed, U: Placed>(list: Seq<T>, f: spec_fn(T) -> U)
    requires
        keeps_places(f),
    ensures
        in_order(list.map_values(f)) == in_order(list).map_values(f),
    decreases list.len(),
{
    let image = list.map_values(f);
    if list.len() > 0 {
        let before = list.drop_last();
        assert(image.drop_last() =~= before.map_values(f));
        assert(image.last() == f(list.last()));
        order_carries_over(before, f);
        slot_carries_over(in_order(before), list.last(), f);
        slot_facts(in_order(before), list.last());
        let s = slot(in_order(before), list.last());
        assert(in_order(before).map_values(f).insert(s, f(list.last())) =~= in_order(before).insert(
            s,
            list.last(),
        ).map_values(f));
    } else {
        assert(image =~= Seq::<U>::empty());
        assert(in_order(list).map_values(f) =~= image);
    }
}

/// Puts `item` where it goes.
pub fn file<T: Filed>(list: &mut Vec<T>, item: T)
    ensures
        final(list)@ == filed(old(list)@, item),
{
    let mut at: usize = list.len();
    assert(list@.take(at as int) =~= list@);
    while at > 0 && list[at - 1].behind(&item)
        invariant
            at <= list@.len(),
            slot(list@, item) == slot(list@.take(at as int), item),
        decreases at,
    {
        assert(list@.take(at as int).drop_last() =~= list@.take(at - 1));
        at -= 1;
    }
    list.insert(at, item);
}

/// Sorts a list.
pub fn sort<T: Filed>(list: Vec<T>) -> (sorted: Vec<T>)
    ensures
        sorted@ == in_order(list@),
{
    let mut rest: Vec<T> = list;
    let ghost all = rest@;
    let mut reversed: Vec<T> = Vec::new();
    while rest.len() > 0
        invariant
            rest@.len() <= all.len(),
            rest@ == all.take(rest@.len() as int),
            reversed@ == all.skip(rest@.len() as int).reverse(),
        decreases rest@.len(),
    {
        let ghost n = rest@.len() as int;
        match rest.pop() {
            Some(item) => {
                reversed.push(item);
            },
            None => {},
        }
        assert(rest@ =~= all.take(n - 1));
        assert(reversed@ =~= all.skip(n - 1).reverse());
    }
    let mut sorted: Vec<T> = Vec::new();
    assert(all.skip(0) =~= all);
    assert(all.take(0) =~= Seq::<T>::empty());
    while reversed.len() > 0
        invariant
            reversed@.len() <= all.len(),
            reversed@ == all.skip(all.len() - reversed@.len()).reverse(),
            sorted@ == in_order(all.take(all.len() - reversed@.len())),
        decreases reversed@.len(),
    {
        let ghost n = all.len() - reversed@.len();
        match reversed.pop() {
            Some(item) => {
                assert(item == all[n]);
                assert(all.take(n + 1).drop_last() =~= all.take(n));
                file(&mut sorted, item);
            },
            None => {},
        }
        assert(reversed@ =~= all.skip(n + 1).reverse());
    }
    assert(all.take(all.len() as int) =~= all);
    sorted
}

/// A filter keeps every item that passes, as often as it was there, and no other.
pub proof fn filters_keep_what_passes<T>(list: Seq<T>, stays: spec_fn(T) -> bool, item: T)
    ensures
        list.filter(stays).to_multiset().count(item) == if stays(item) {
            list.to_multiset().count(item)
        } else {
            0
        },
        list.filter(stays).contains(item) <==> list.contains(item) && stays(item),
    decreases list.len(),
{
    broadcast use vstd::seq_lib::group_to_multiset_ensures;

    reveal(Seq::filter);
    if list.len() > 0 {
        let before = list.drop_last();
        filters_keep_what_passes(before, stays, item);
        assert(list =~= before.push(list.last()));
        assert(list.contains(item) <==> before.contains(item) || item == list.last()) by {
            if list.contains(item) && item != list.last() {
                let i = list.index_of(item);
                assert(before[i] == item);
            }
            if before.contains(item) {
                let i = before.index_of(item);
                assert(list[i] == item);
            }
            assert(list[list.len() - 1] == list.last());
        }
        let kept = before.filter(stays);
        if stays(list.last()) {
            assert(list.filter(stays) =~= kept.push(list.last()));
            assert(kept.push(list.last()).contains(item) <==> kept.contains(item) || item
                == list.last()) by {
                let all = kept.push(list.last());
                if all.contains(item) && item != list.last() {
                    let i = all.index_of(item);
                    assert(kept[i] == item);
                }
                if kept.contains(item) {
                    let i = kept.index_of(item);
                    assert(all[i] == item);
                }
                assert(all[all.len() - 1] == list.last());
            }
        } else {
            assert(list.filter(stays) =~= kept);
        }
    }
}

} // verus!
