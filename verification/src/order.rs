//! Stable ordering of items by a text key.
//!
//! An item is ranked by a key; a ranked sequence is a sequence of pairs of a
//! key and an item. [`stable_sort`] orders such a sequence by key and keeps
//! items of equal keys in the order in which they came.

use crate::text::lemma_text_le_antisymmetric;
use crate::text::lemma_text_le_reflexive;
use crate::text::lemma_text_le_total;
use crate::text::lemma_text_le_transitive;
use crate::text::text_le;
use vstd::prelude::*;

verus! {

/// The ranked sequence `sorted` with `item` put behind the last entry whose
/// key comes no later than the key of `item`.
pub open spec fn stable_insert<T>(sorted: Seq<(Seq<char>, T)>, item: (Seq<char>, T)) -> Seq<
    (Seq<char>, T),
>
    decreases sorted.len(),
{
    if sorted.len() == 0 {
        seq![item]
    } else if text_le(sorted.last().0, item.0) {
        sorted.push(item)
    } else {
        stable_insert(sorted.drop_last(), item).push(sorted.last())
    }
}

/// The entries of `items` in ascending order of their keys, entries of equal
/// keys in the order in which `items` holds them.
pub open spec fn stable_sort<T>(items: Seq<(Seq<char>, T)>) -> Seq<(Seq<char>, T)>
    decreases items.len(),
{
    if items.len() == 0 {
        Seq::empty()
    } else {
        stable_insert(stable_sort(items.drop_last()), items.last())
    }
}

/// The keys of a ranked sequence never descend.
pub open spec fn is_sorted<T>(s: Seq<(Seq<char>, T)>) -> bool {
    forall|i: int, j: int| 0 <= i <= j < s.len() ==> text_le(#[trigger] s[i].0, #[trigger] s[j].0)
}

/// The items of a ranked sequence, without their keys.
pub open spec fn values<T>(s: Seq<(Seq<char>, T)>) -> Seq<T> {
    Seq::new(s.len(), |i: int| s[i].1)
}

/// The entries of `s` that have the key `key`, in the order in which `s` holds them.
pub open spec fn with_key<T>(s: Seq<(Seq<char>, T)>, key: Seq<char>) -> Seq<(Seq<char>, T)>
    decreases s.len(),
{
    if s.len() == 0 {
        Seq::empty()
    } else if s.last().0 == key {
        with_key(s.drop_last(), key).push(s.last())
    } else {
        with_key(s.drop_last(), key)
    }
}

/// Where the insertion goes: `at` is the place of `item` in `sorted` when
/// every entry from `at` on has a key that comes later than the key of `item`
/// and the entry before `at`, if there is one, has not.
pub proof fn lemma_stable_insert_at<T>(sorted: Seq<(Seq<char>, T)>, item: (Seq<char>, T), at: int)
    requires
        0 <= at <= sorted.len(),
        forall|j: int| at <= j < sorted.len() ==> !text_le(#[trigger] sorted[j].0, item.0),
        at > 0 ==> text_le(sorted[at - 1].0, item.0),
    ensures
        stable_insert(sorted, item) == sorted.insert(at, item),
    decreases sorted.len(),
{
    if sorted.len() == 0 {
        assert(seq![item] =~= sorted.insert(at, item));
    } else if at == sorted.len() {
        assert(sorted.push(item) =~= sorted.insert(at, item));
    } else {
        let front = sorted.drop_last();
        assert(!text_le(sorted[sorted.len() - 1].0, item.0));
        lemma_stable_insert_at(front, item, at);
        assert(front.insert(at, item).push(sorted.last()) =~= sorted.insert(at, item));
    }
}

/// An insertion adds one entry and keeps the others.
pub proof fn lemma_stable_insert_permutes<T>(sorted: Seq<(Seq<char>, T)>, item: (Seq<char>, T))
    ensures
        stable_insert(sorted, item).len() == sorted.len() + 1,
        stable_insert(sorted, item).to_multiset() == sorted.to_multiset().insert(item),
    decreases sorted.len(),
{
    broadcast use vstd::seq_lib::group_to_multiset_ensures;

    if sorted.len() == 0 {
        assert(seq![item] =~= sorted.push(item));
    } else if text_le(sorted.last().0, item.0) {
    } else {
        let front = sorted.drop_last();
        lemma_stable_insert_permutes(front, item);
        assert(sorted =~= front.push(sorted.last()));
        assert(front.to_multiset().insert(item).insert(sorted.last())
            =~= front.to_multiset().insert(sorted.last()).insert(item));
    }
}

/// An insertion into a sorted sequence gives a sorted sequence.
pub proof fn lemma_stable_insert_sorted<T>(sorted: Seq<(Seq<char>, T)>, item: (Seq<char>, T))
    requires
        is_sorted(sorted),
    ensures
        is_sorted(stable_insert(sorted, item)),
    decreases sorted.len(),
{
    let out = stable_insert(sorted, item);
    if sorted.len() == 0 {
        lemma_text_le_reflexive(item.0);
    } else if text_le(sorted.last().0, item.0) {
        assert forall|i: int, j: int| 0 <= i <= j < out.len() implies text_le(
            #[trigger] out[i].0,
            #[trigger] out[j].0,
        ) by {
            if j < sorted.len() {
                assert(text_le(sorted[i].0, sorted[j].0));
            } else if i < sorted.len() {
                assert(text_le(sorted[i].0, sorted[sorted.len() - 1].0));
                lemma_text_le_transitive(sorted[i].0, sorted.last().0, item.0);
            } else {
                lemma_text_le_reflexive(item.0);
            }
        }
    } else {
        let front = sorted.drop_last();
        let last = sorted.last();
        assert forall|i: int, j: int| 0 <= i <= j < front.len() implies text_le(
            #[trigger] front[i].0,
            #[trigger] front[j].0,
        ) by {
            assert(text_le(sorted[i].0, sorted[j].0));
        }
        lemma_stable_insert_sorted(front, item);
        lemma_stable_insert_permutes(front, item);
        let inner = stable_insert(front, item);
        lemma_text_le_total(last.0, item.0);
        assert forall|i: int, j: int| 0 <= i <= j < out.len() implies text_le(
            #[trigger] out[i].0,
            #[trigger] out[j].0,
        ) by {
            if j < inner.len() {
                assert(text_le(inner[i].0, inner[j].0));
            } else if i < inner.len() {
                lemma_stable_insert_holds(front, item, i);
                if inner[i] == item {
                } else {
                    let k = choose|k: int| 0 <= k < front.len() && front[k] == inner[i];
                    assert(text_le(sorted[k].0, sorted[sorted.len() - 1].0));
                }
            } else {
                lemma_text_le_reflexive(last.0);
            }
        }
    }
}

/// Every entry of an insertion's result is the inserted item or an entry of
/// the sequence it was inserted into.
pub proof fn lemma_stable_insert_holds<T>(sorted: Seq<(Seq<char>, T)>, item: (Seq<char>, T), i: int)
    requires
        0 <= i < stable_insert(sorted, item).len(),
    ensures
        stable_insert(sorted, item)[i] == item || exists|k: int|
            0 <= k < sorted.len() && sorted[k] == stable_insert(sorted, item)[i],
    decreases sorted.len(),
{
    if sorted.len() == 0 {
    } else if text_le(sorted.last().0, item.0) {
        if i < sorted.len() {
            assert(sorted[i] == stable_insert(sorted, item)[i]);
        }
    } else {
        let front = sorted.drop_last();
        lemma_stable_insert_permutes(front, item);
        if i < stable_insert(front, item).len() {
            lemma_stable_insert_holds(front, item, i);
            if stable_insert(front, item)[i] != item {
                let k = choose|k: int| 0 <= k < front.len() && front[k] == stable_insert(front, item)[i];
                assert(sorted[k] == stable_insert(sorted, item)[i]);
            }
        } else {
            assert(sorted[sorted.len() - 1] == stable_insert(sorted, item)[i]);
        }
    }
}

/// What [`with_key`] keeps of a sequence with one more entry at its end.
pub proof fn lemma_with_key_push<T>(s: Seq<(Seq<char>, T)>, item: (Seq<char>, T), key: Seq<char>)
    ensures
        with_key(s.push(item), key) == if item.0 == key {
            with_key(s, key).push(item)
        } else {
            with_key(s, key)
        },
{
    assert(s.push(item).drop_last() =~= s);
}

/// Among the entries of one key an insertion puts the new entry last.
pub proof fn lemma_stable_insert_keeps_order<T>(
    sorted: Seq<(Seq<char>, T)>,
    item: (Seq<char>, T),
    key: Seq<char>,
)
    ensures
        with_key(stable_insert(sorted, item), key) == with_key(sorted.push(item), key),
    decreases sorted.len(),
{
    if sorted.len() == 0 {
        assert(seq![item] =~= sorted.push(item));
    } else if text_le(sorted.last().0, item.0) {
    } else {
        let front = sorted.drop_last();
        let last = sorted.last();
        lemma_stable_insert_keeps_order(front, item, key);
        lemma_text_le_reflexive(item.0);
        assert(last.0 != item.0);
        assert(sorted =~= front.push(last));
        lemma_with_key_push(stable_insert(front, item), last, key);
        lemma_with_key_push(front, item, key);
        lemma_with_key_push(front, last, key);
        lemma_with_key_push(sorted, item, key);
    }
}

/// Sorting keeps the number of entries and the entries themselves.
pub proof fn lemma_stable_sort_permutes<T>(items: Seq<(Seq<char>, T)>)
    ensures
        stable_sort(items).len() == items.len(),
        stable_sort(items).to_multiset() == items.to_multiset(),
    decreases items.len(),
{
    broadcast use vstd::seq_lib::group_to_multiset_ensures;

    if items.len() == 0 {
        assert(items =~= Seq::empty());
    } else {
        lemma_stable_sort_permutes(items.drop_last());
        lemma_stable_insert_permutes(stable_sort(items.drop_last()), items.last());
        assert(items =~= items.drop_last().push(items.last()));
    }
}

/// Sorting gives a sorted sequence.
pub proof fn lemma_stable_sort_sorted<T>(items: Seq<(Seq<char>, T)>)
    ensures
        is_sorted(stable_sort(items)),
    decreases items.len(),
{
    if items.len() > 0 {
        lemma_stable_sort_sorted(items.drop_last());
        lemma_stable_insert_sorted(stable_sort(items.drop_last()), items.last());
    }
}

/// Sorting is stable: the entries of one key stand in the result in the
/// order in which they came.
pub proof fn lemma_stable_sort_stable<T>(items: Seq<(Seq<char>, T)>, key: Seq<char>)
    ensures
        with_key(stable_sort(items), key) == with_key(items, key),
    decreases items.len(),
{
    if items.len() > 0 {
        let front = items.drop_last();
        lemma_stable_sort_stable(front, key);
        lemma_stable_insert_keeps_order(stable_sort(front), items.last(), key);
        lemma_with_key_push(stable_sort(front), items.last(), key);
    }
}

/// Every entry of a sorted sequence is an entry of the sequence that was sorted.
pub proof fn lemma_stable_sort_holds<T>(items: Seq<(Seq<char>, T)>, i: int)
    requires
        0 <= i < stable_sort(items).len(),
    ensures
        exists|k: int| 0 <= k < items.len() && items[k] == stable_sort(items)[i],
    decreases items.len(),
{
    if items.len() > 0 {
        let front = items.drop_last();
        let sorted = stable_sort(front);
        lemma_stable_insert_holds(sorted, items.last(), i);
        if stable_insert(sorted, items.last())[i] == items.last() {
            assert(items[items.len() - 1] == stable_sort(items)[i]);
        } else {
            let j = choose|j: int| 0 <= j < sorted.len() && sorted[j] == stable_sort(items)[i];
            lemma_stable_sort_holds(front, j);
            let k = choose|k: int| 0 <= k < front.len() && front[k] == sorted[j];
            assert(items[k] == stable_sort(items)[i]);
        }
    }
}

/// No two entries of the sequence have the same key.
pub open spec fn distinct_keys<T>(s: Seq<(Seq<char>, T)>) -> bool {
    forall|i: int, j: int| 0 <= i < j < s.len() ==> (#[trigger] s[i]).0 != (#[trigger] s[j]).0
}

/// The two sequences hold the same entries, in whatever order.
pub open spec fn same_entries<T>(a: Seq<(Seq<char>, T)>, b: Seq<(Seq<char>, T)>) -> bool {
    forall|entry: (Seq<char>, T)| a.contains(entry) <==> b.contains(entry)
}

/// An insertion puts the item at some place and moves nothing else.
pub proof fn lemma_stable_insert_place<T>(sorted: Seq<(Seq<char>, T)>, item: (Seq<char>, T)) -> (at: int)
    ensures
        0 <= at <= sorted.len(),
        stable_insert(sorted, item) == sorted.insert(at, item),
    decreases sorted.len(),
{
    if sorted.len() == 0 {
        assert(seq![item] =~= sorted.insert(0, item));
        0
    } else if text_le(sorted.last().0, item.0) {
        assert(sorted.push(item) =~= sorted.insert(sorted.len() as int, item));
        sorted.len() as int
    } else {
        let front = sorted.drop_last();
        let at = lemma_stable_insert_place(front, item);
        assert(front.insert(at, item).push(sorted.last()) =~= sorted.insert(at, item));
        at
    }
}

/// An insertion under a key that the sequence does not hold keeps the keys distinct.
pub proof fn lemma_stable_insert_distinct<T>(sorted: Seq<(Seq<char>, T)>, item: (Seq<char>, T))
    requires
        distinct_keys(sorted),
        forall|k: int| 0 <= k < sorted.len() ==> (#[trigger] sorted[k]).0 != item.0,
    ensures
        distinct_keys(stable_insert(sorted, item)),
{
    let at = lemma_stable_insert_place(sorted, item);
    let out = sorted.insert(at, item);
    assert forall|i: int, j: int| 0 <= i < j < out.len() implies (#[trigger] out[i]).0 != (
    #[trigger] out[j]).0 by {
        let from_i = if i < at {
            i
        } else {
            i - 1
        };
        let from_j = if j < at {
            j
        } else {
            j - 1
        };
        if i == at {
            assert(out[j] == sorted[from_j]);
        } else if j == at {
            assert(out[i] == sorted[from_i]);
        } else {
            assert(out[i] == sorted[from_i]);
            assert(out[j] == sorted[from_j]);
        }
    }
}

/// Sorting keeps the keys distinct.
pub proof fn lemma_stable_sort_distinct<T>(items: Seq<(Seq<char>, T)>)
    requires
        distinct_keys(items),
    ensures
        distinct_keys(stable_sort(items)),
    decreases items.len(),
{
    if items.len() > 0 {
        let front = items.drop_last();
        let sorted = stable_sort(front);
        assert forall|i: int, j: int| 0 <= i < j < front.len() implies (#[trigger] front[i]).0 != (
        #[trigger] front[j]).0 by {
            assert(front[i] == items[i]);
            assert(front[j] == items[j]);
        }
        lemma_stable_sort_distinct(front);
        assert forall|k: int| 0 <= k < sorted.len() implies (#[trigger] sorted[k]).0
            != items.last().0 by {
            lemma_stable_sort_holds(front, k);
            let from = choose|from: int| 0 <= from < front.len() && front[from] == sorted[k];
            assert(items[from] == sorted[k]);
            assert(items[items.len() - 1] == items.last());
        }
        lemma_stable_insert_distinct(sorted, items.last());
    }
}

/// Sorting keeps the entries: what the sequence holds the result holds, and
/// nothing else.
pub proof fn lemma_stable_sort_same_entries<T>(items: Seq<(Seq<char>, T)>)
    ensures
        same_entries(stable_sort(items), items),
{
    lemma_stable_sort_permutes(items);
    assert forall|entry: (Seq<char>, T)| stable_sort(items).contains(entry) <==> items.contains(
        entry,
    ) by {
        vstd::seq_lib::to_multiset_contains(stable_sort(items), entry);
        vstd::seq_lib::to_multiset_contains(items, entry);
    }
}

/// A sorted sequence without two equal keys is fixed by the entries it
/// holds: two such sequences of the same entries are the same sequence.
pub proof fn lemma_sorted_distinct_unique<T>(a: Seq<(Seq<char>, T)>, b: Seq<(Seq<char>, T)>)
    requires
        is_sorted(a),
        is_sorted(b),
        distinct_keys(a),
        distinct_keys(b),
        same_entries(a, b),
    ensures
        a == b,
    decreases a.len(),
{
    if a.len() == 0 {
        if b.len() > 0 {
            assert(b.contains(b[0]));
            assert(a.contains(b[0]));
        }
        assert(a =~= b);
    } else {
        let a_last = a.len() - 1;
        assert(a.contains(a[a_last]));
        assert(b.contains(a[a_last]));
        let b_last = b.len() - 1;
        assert(b.contains(b[b_last]));
        assert(a.contains(b[b_last]));
        let in_b = choose|k: int| 0 <= k < b.len() && b[k] == a[a_last];
        let in_a = choose|k: int| 0 <= k < a.len() && a[k] == b[b_last];
        assert(text_le(b[in_b].0, b[b_last].0));
        assert(text_le(a[in_a].0, a[a_last].0));
        lemma_text_le_antisymmetric(a[a_last].0, b[b_last].0);
        assert(in_a == a_last);
        assert(in_b == b_last);
        let a_front = a.drop_last();
        let b_front = b.drop_last();
        assert forall|entry: (Seq<char>, T)| a_front.contains(entry) <==> b_front.contains(
            entry,
        ) by {
            if a_front.contains(entry) {
                let i = choose|i: int| 0 <= i < a_front.len() && a_front[i] == entry;
                assert(a[i] == entry);
                assert(a.contains(entry));
                assert(b.contains(entry));
                let k = choose|k: int| 0 <= k < b.len() && b[k] == entry;
                assert(a[i].0 != a[a_last].0);
                assert(b_front[k] == entry);
            }
            if b_front.contains(entry) {
                let i = choose|i: int| 0 <= i < b_front.len() && b_front[i] == entry;
                assert(b[i] == entry);
                assert(b.contains(entry));
                assert(a.contains(entry));
                let k = choose|k: int| 0 <= k < a.len() && a[k] == entry;
                assert(b[i].0 != b[b_last].0);
                assert(a_front[k] == entry);
            }
        }
        assert forall|i: int, j: int| 0 <= i <= j < a_front.len() implies text_le(
            #[trigger] a_front[i].0,
            #[trigger] a_front[j].0,
        ) by {
            assert(text_le(a[i].0, a[j].0));
        }
        assert forall|i: int, j: int| 0 <= i <= j < b_front.len() implies text_le(
            #[trigger] b_front[i].0,
            #[trigger] b_front[j].0,
        ) by {
            assert(text_le(b[i].0, b[j].0));
        }
        assert forall|i: int, j: int| 0 <= i < j < a_front.len() implies (#[trigger] a_front[i]).0 != (
        #[trigger] a_front[j]).0 by {
            assert(a_front[i] == a[i] && a_front[j] == a[j]);
        }
        assert forall|i: int, j: int| 0 <= i < j < b_front.len() implies (#[trigger] b_front[i]).0 != (
        #[trigger] b_front[j]).0 by {
            assert(b_front[i] == b[i] && b_front[j] == b[j]);
        }
        lemma_sorted_distinct_unique(a_front, b_front);
        assert(a =~= a_front.push(a[a_last]));
        assert(b =~= b_front.push(b[b_last]));
    }
}

/// Where no two entries have the same key the order of arrival does not
/// matter: two sequences of the same entries sort to the same sequence.
pub proof fn lemma_stable_sort_ignores_arrival<T>(a: Seq<(Seq<char>, T)>, b: Seq<(Seq<char>, T)>)
    requires
        distinct_keys(a),
        distinct_keys(b),
        same_entries(a, b),
    ensures
        stable_sort(a) == stable_sort(b),
{
    lemma_stable_sort_sorted(a);
    lemma_stable_sort_sorted(b);
    lemma_stable_sort_distinct(a);
    lemma_stable_sort_distinct(b);
    lemma_stable_sort_same_entries(a);
    lemma_stable_sort_same_entries(b);
    lemma_sorted_distinct_unique(stable_sort(a), stable_sort(b));
}

} // verus!
