//! Sorting of small vectors by an integer key that tells the items apart.
use vstd::prelude::*;
use vstd::relations::sorted_by;
use vstd::relations::total_ordering;
use vstd::seq_lib::group_to_multiset_ensures;
use vstd::seq_lib::lemma_sorted_unique;

verus! {

/// A type whose values are ordered by a key, no two values having the same key.
pub trait SortKey: Copy {
    /// The key that orders the values.
    spec fn sort_key(self) -> int;

    /// Values with the same key are the same.
    proof fn lemma_key_injective(a: Self, b: Self)
        requires
            a.sort_key() == b.sort_key(),
        ensures
            a == b,
    ;

    /// The key of this value.
    fn key(&self) -> (r: u8)
        ensures
            r == self.sort_key(),
    ;
}

/// The order by key.
pub open spec fn key_order<T: SortKey>() -> spec_fn(T, T) -> bool {
    |a: T, b: T| a.sort_key() <= b.sort_key()
}

/// `s` in ascending order of the keys.
pub open spec fn sorted<T: SortKey>(s: Seq<T>) -> Seq<T> {
    s.sort_by(key_order::<T>())
}

/// Whether the keys of `s` ascend.
pub open spec fn ascending<T: SortKey>(s: Seq<T>) -> bool {
    forall|i: int, j: int| 0 <= i < j < s.len() ==> s[i].sort_key() <= s[j].sort_key()
}

pub proof fn lemma_key_order_total<T: SortKey>()
    ensures
        total_ordering(key_order::<T>()),
{
    assert forall|a: T, b: T|
        #[trigger] key_order::<T>()(a, b) && #[trigger] key_order::<T>()(b, a) implies a == b by {
        T::lemma_key_injective(a, b);
    }
}

/// Sorting keeps the items and puts them in ascending order.
pub proof fn lemma_sorted<T: SortKey>(s: Seq<T>)
    ensures
        sorted(s).to_multiset() == s.to_multiset(),
        sorted(s).len() == s.len(),
        ascending(sorted(s)),
{
    lemma_key_order_total::<T>();
    s.lemma_sort_by_ensures(key_order::<T>());
    broadcast use group_to_multiset_ensures;

    assert(s.to_multiset().len() == s.len());
    assert(sorted(s).to_multiset().len() == sorted(s).len());
    assert forall|i: int, j: int| 0 <= i < j < sorted(s).len() implies sorted(s)[i].sort_key()
        <= sorted(s)[j].sort_key() by {
        assert(key_order::<T>()(sorted(s)[i], sorted(s)[j]));
    }
}

/// A sequence in ascending order with the items of `s` is `s` sorted.
pub proof fn lemma_sorted_is<T: SortKey>(s: Seq<T>, t: Seq<T>)
    requires
        ascending(t),
        t.to_multiset() == s.to_multiset(),
    ensures
        t == sorted(s),
{
    lemma_key_order_total::<T>();
    s.lemma_sort_by_ensures(key_order::<T>());
    assert(sorted_by(t, key_order::<T>()));
    lemma_sorted_unique(t, s.sort_by(key_order::<T>()), key_order::<T>());
}

/// Sorts `items` in place by insertion.
pub fn sort<T: SortKey>(items: &mut Vec<T>)
    ensures
        final(items)@ == sorted(old(items)@),
{
    let ghost start = items@;
    let mut done: usize = 0;
    while done < items.len()
        invariant
            done <= items@.len(),
            items@.to_multiset() == start.to_multiset(),
            ascending(items@.take(done as int)),
        decreases items@.len() - done,
    {
        insert_at(items, done);
        done = done + 1;
    }
    proof {
        assert(items@.take(items@.len() as int) =~= items@);
        lemma_sorted_is(start, items@);
    }
}

/// Moves the item at `position` to its place among the sorted items before it.
fn insert_at<T: SortKey>(items: &mut Vec<T>, position: usize)
    requires
        position < old(items)@.len(),
        ascending(old(items)@.take(position as int)),
    ensures
        final(items)@.len() == old(items)@.len(),
        final(items)@.to_multiset() == old(items)@.to_multiset(),
        ascending(final(items)@.take(position + 1)),
{
    broadcast use group_to_multiset_ensures;

    let item = items[position];
    let ghost start = items@;
    let mut i: usize = 0;
    while i < position && items[i].key() <= item.key()
        invariant
            i <= position < items@.len(),
            items@ == start,
            item == start[position as int],
            forall|j: int| 0 <= j < i ==> #[trigger] start[j].sort_key() <= item.sort_key(),
        decreases position - i,
    {
        i = i + 1;
    }
    proof {
        assert(i < position ==> item.sort_key() < start[i as int].sort_key());
        assert forall|j: int| i <= j < position implies item.sort_key()
            <= #[trigger] start[j].sort_key() by {
            assert(start.take(position as int)[i as int] == start[i as int]);
            assert(start.take(position as int)[j] == start[j]);
        }
    }
    let moved = items.remove(position);
    let ghost without = items@;
    items.insert(i, moved);
    proof {
        vstd::seq_lib::to_multiset_insert(without, i as int, item);
        vstd::seq_lib::to_multiset_remove(start, position as int);
        assert(start.to_multiset().remove(item).insert(item) =~= start.to_multiset()) by {
            assert(start.contains(item)) by {
                assert(start[position as int] == item);
            }
            assert(start.to_multiset().count(item) > 0);
        }
        let t = items@.take(position + 1);
        assert forall|a: int, b: int| 0 <= a < b < t.len() implies t[a].sort_key()
            <= t[b].sort_key() by {
            let sorted_part = start.take(position as int);
            if a < i {
                assert(t[a] == start[a]);
                assert(sorted_part[a] == start[a]);
            } else if a > i {
                assert(t[a] == start[a - 1]);
                assert(sorted_part[a - 1] == start[a - 1]);
            }
            if b < i {
                assert(t[b] == start[b]);
                assert(sorted_part[b] == start[b]);
            } else if b > i {
                assert(t[b] == start[b - 1]);
                assert(sorted_part[b - 1] == start[b - 1]);
            }
        }
    }
}

} // verus!
