//! Stable ordering of keyed items, used wherever a plan lists its products in
//! canonical order.

use vstd::prelude::*;
use vstd::multiset::Multiset;

verus! {

broadcast use vstd::seq_lib::group_to_multiset_ensures;

/// The keys of `items` never decrease.
pub open spec fn keys_sorted<T>(items: Seq<(u64, T)>) -> bool {
    forall|i: int, j: int| 0 <= i <= j < items.len() ==> items[i].0 <= items[j].0
}

/// `sorted` with `item` inserted after every entry whose key is at most
/// the item's key.
pub open spec fn insert_by_key<T>(sorted: Seq<(u64, T)>, item: (u64, T)) -> Seq<(u64, T)>
    decreases sorted.len(),
{
    if sorted.len() == 0 {
        seq![item]
    } else if sorted.last().0 > item.0 {
        insert_by_key(sorted.drop_last(), item).push(sorted.last())
    } else {
        sorted.push(item)
    }
}

/// `items` sorted by key by inserting each in turn: items of equal keys keep
/// the order they came in.
pub open spec fn sort_by_key<T>(items: Seq<(u64, T)>) -> Seq<(u64, T)>
    decreases items.len(),
{
    if items.len() == 0 {
        Seq::empty()
    } else {
        insert_by_key(sort_by_key(items.drop_last()), items.last())
    }
}

proof fn lemma_insert_by_key<T>(sorted: Seq<(u64, T)>, item: (u64, T), pos: int)
    requires
        0 <= pos <= sorted.len(),
        forall|i: int| 0 <= i < pos ==> sorted[i].0 <= item.0,
        forall|i: int| pos <= i < sorted.len() ==> sorted[i].0 > item.0,
    ensures
        insert_by_key(sorted, item) == sorted.insert(pos, item),
    decreases sorted.len(),
{
    if sorted.len() == 0 {
        assert(sorted.insert(pos, item) =~= seq![item]);
    } else if sorted.last().0 > item.0 {
        lemma_insert_by_key(sorted.drop_last(), item, pos);
        assert(sorted.drop_last().insert(pos, item).push(sorted.last()) =~= sorted.insert(pos, item));
    } else {
        assert(sorted.push(item) =~= sorted.insert(pos, item));
    }
}

/// `items` with `f` applied to each value, keys kept.
pub open spec fn rekey<T, U>(items: Seq<(u64, T)>, f: spec_fn(T) -> U) -> Seq<(u64, U)> {
    items.map_values(|item: (u64, T)| (item.0, f(item.1)))
}

proof fn lemma_insert_by_key_rekey<T, U>(sorted: Seq<(u64, T)>, item: (u64, T), f: spec_fn(T) -> U)
    ensures
        insert_by_key(rekey(sorted, f), (item.0, f(item.1))) == rekey(insert_by_key(sorted, item), f),
    decreases sorted.len(),
{
    if sorted.len() == 0 {
        assert(rekey(seq![item], f) =~= seq![(item.0, f(item.1))]);
    } else {
        assert(rekey(sorted, f).drop_last() =~= rekey(sorted.drop_last(), f));
        if sorted.last().0 > item.0 {
            lemma_insert_by_key_rekey(sorted.drop_last(), item, f);
            assert(rekey(insert_by_key(sorted.drop_last(), item).push(sorted.last()), f) =~= rekey(
                insert_by_key(sorted.drop_last(), item),
                f,
            ).push((sorted.last().0, f(sorted.last().1))));
        } else {
            assert(rekey(sorted.push(item), f) =~= rekey(sorted, f).push((item.0, f(item.1))));
        }
    }
}

/// Sorting by key commutes with changing the values.
pub proof fn lemma_sort_by_key_rekey<T, U>(items: Seq<(u64, T)>, f: spec_fn(T) -> U)
    ensures
        sort_by_key(rekey(items, f)) == rekey(sort_by_key(items), f),
    decreases items.len(),
{
    if items.len() == 0 {
        assert(rekey(Seq::<(u64, T)>::empty(), f) =~= Seq::<(u64, U)>::empty());
    } else {
        assert(rekey(items, f).drop_last() =~= rekey(items.drop_last(), f));
        lemma_sort_by_key_rekey(items.drop_last(), f);
        lemma_insert_by_key_rekey(sort_by_key(items.drop_last()), items.last(), f);
    }
}

/// First position after every entry of `sorted` whose key is at most `key`.
fn insertion_point<T>(sorted: &Vec<(u64, T)>, key: u64) -> (pos: usize)
    requires
        keys_sorted(sorted@),
    ensures
        pos <= sorted@.len(),
        forall|i: int| 0 <= i < pos ==> sorted@[i].0 <= key,
        forall|i: int| pos <= i < sorted@.len() ==> sorted@[i].0 > key,
{
    let mut pos: usize = sorted.len();
    while pos > 0 && sorted[pos - 1].0 > key
        invariant
            keys_sorted(sorted@),
            pos <= sorted@.len(),
            forall|i: int| pos <= i < sorted@.len() ==> sorted@[i].0 > key,
        decreases pos,
    {
        pos = pos - 1;
    }
    pos
}

/// Sorts `items` by key, keeping items of equal keys in the order they came in.
pub fn stable_sort_by_key<T>(items: Vec<(u64, T)>) -> (sorted: Vec<(u64, T)>)
    ensures
        keys_sorted(sorted@),
        sorted@.to_multiset() == items@.to_multiset(),
        sorted@.len() == items@.len(),
        forall|i: int| 0 <= i < sorted@.len() ==> items@.contains(#[trigger] sorted@[i]),
        sorted@ == sort_by_key(items@),
{
    let mut rest = items;
    let mut sorted: Vec<(u64, T)> = Vec::new();
    let ghost initial = rest@;
    proof {
        assert(rest@.subrange(0, rest@.len() as int) =~= rest@);
    }
    while rest.len() > 0
        invariant
            keys_sorted(sorted@),
            sorted@.to_multiset().add(rest@.to_multiset()) == initial.to_multiset(),
            sorted@.len() + rest@.len() == initial.len(),
            sorted@ == sort_by_key(initial.take(sorted@.len() as int)),
            rest@ == initial.skip(sorted@.len() as int),
        decreases rest@.len(),
    {
        let ghost rest_before = rest@;
        let ghost sorted_before = sorted@;
        let item = rest.remove(0);
        let pos = insertion_point(&sorted, item.0);
        sorted.insert(pos, item);
        proof {
            let done = sorted_before.len() as int;
            assert(item == initial[done]);
            assert(initial.take(done + 1).drop_last() =~= initial.take(done));
            lemma_insert_by_key(sorted_before, item, pos as int);
            assert(rest@ =~= initial.skip(done + 1));
            assert(rest_before.remove(0).to_multiset() == rest_before.to_multiset().remove(
                rest_before[0],
            ));
            assert(sorted@.to_multiset() == sorted_before.to_multiset().insert(item));
            assert forall|i: int, j: int| 0 <= i <= j < sorted@.len() implies sorted@[i].0
                <= sorted@[j].0 by {
                if i < pos && j < pos {
                    assert(sorted@[i] == sorted_before[i]);
                    assert(sorted@[j] == sorted_before[j]);
                } else if i < pos && j == pos {
                    assert(sorted@[i] == sorted_before[i]);
                } else if i < pos {
                    assert(sorted@[i] == sorted_before[i]);
                    assert(sorted@[j] == sorted_before[j - 1]);
                } else if i == pos && j > pos {
                    assert(sorted@[j] == sorted_before[j - 1]);
                } else if i > pos {
                    assert(sorted@[i] == sorted_before[i - 1]);
                    assert(sorted@[j] == sorted_before[j - 1]);
                }
            }
        }
    }
    proof {
        assert(initial.take(initial.len() as int) =~= initial);
        assert(rest@.to_multiset() =~= Multiset::empty());
        assert(sorted@.to_multiset().add(Multiset::empty()) =~= sorted@.to_multiset());
        assert forall|i: int| 0 <= i < sorted@.len() implies items@.contains(#[trigger] sorted@[i]) by {
            assert(sorted@.contains(sorted@[i]));
            assert(sorted@.to_multiset().count(sorted@[i]) > 0);
        }
    }
    sorted
}

} // verus!
