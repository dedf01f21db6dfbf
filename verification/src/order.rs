//! Stable ordering of positions by rank.
//!
//! Sorting a collection by a field is sorting the pairs of a rank and the
//! position it was found at: no two pairs are equal, so the order is unique,
//! and equal ranks stay in the order they had.

use crate::value::{key_lt, Key};
use vstd::prelude::*;
use vstd::relations::{sorted_by, total_ordering};
use vstd::seq_lib::lemma_sorted_unique;

verus! {

/// A rank together with the position it was found at.
#[derive(Clone, Copy, Debug, PartialEq, Eq, Structural)]
pub struct Entry {
    pub key: Key,
    pub pos: usize,
}

/// Entries are ordered by rank, and by position where the ranks are equal.
pub open spec fn entry_le(a: Entry, b: Entry) -> bool {
    key_lt(a.key, b.key) || (a.key == b.key && a.pos <= b.pos)
}

/// The order on entries, as a relation.
pub open spec fn entry_order() -> spec_fn(Entry, Entry) -> bool {
    |a: Entry, b: Entry| entry_le(a, b)
}

/// The entries of a sequence of ranks: each rank with its position.
pub open spec fn entries(keys: Seq<Key>) -> Seq<Entry> {
    Seq::new(keys.len(), |i: int| Entry { key: keys[i], pos: i as usize })
}

/// The positions of a sequence of entries.
pub open spec fn positions(s: Seq<Entry>) -> Seq<usize> {
    Seq::new(s.len(), |i: int| s[i].pos)
}

/// The positions `0..keys.len()` in the order of their ranks, equal ranks in
/// the order of their positions.
pub open spec fn stable_order(keys: Seq<Key>) -> Seq<usize> {
    positions(entries(keys).sort_by(entry_order()))
}

/// The elements of `items` in the order that `ord` gives.
pub open spec fn reorder<T>(items: Seq<T>, ord: Seq<usize>) -> Seq<T> {
    Seq::new(ord.len(), |i: int| items[ord[i] as int])
}

/// The order on entries is total.
pub proof fn lemma_entry_order_total()
    ensures
        total_ordering(entry_order()),
{
    let r = entry_order();
    assert forall|x: Entry, y: Entry| #[trigger] r(x, y) && #[trigger] r(y, x) implies x == y by {
        assert(x.key.tag == y.key.tag && x.key.num == y.key.num);
    }
    assert forall|x: Entry, y: Entry| #[trigger] r(x, y) || #[trigger] r(y, x) by {
        if !key_lt(x.key, y.key) && !key_lt(y.key, x.key) {
            assert(x.key.tag == y.key.tag && x.key.num == y.key.num);
        }
    }
}

fn entry_before(a: Entry, b: Entry) -> (r: bool)
    ensures
        r == entry_le(a, b),
{
    a.key.less(b.key) || (a.key == b.key && a.pos <= b.pos)
}

fn merge(a: &Vec<Entry>, b: &Vec<Entry>) -> (out: Vec<Entry>)
    requires
        sorted_by(a@, entry_order()),
        sorted_by(b@, entry_order()),
        a.len() + b.len() <= usize::MAX,
    ensures
        sorted_by(out@, entry_order()),
        out@.to_multiset() == a@.to_multiset().add(b@.to_multiset()),
{
    broadcast use vstd::seq_lib::group_to_multiset_ensures;
    broadcast use vstd::multiset::group_multiset_axioms;

    let mut out: Vec<Entry> = Vec::new();
    let mut i: usize = 0;
    let mut j: usize = 0;
    proof {
        lemma_entry_order_total();
        assert(a@.take(0) =~= Seq::<Entry>::empty());
        assert(b@.take(0) =~= Seq::<Entry>::empty());
        assert(out@.to_multiset() =~= a@.take(0).to_multiset().add(b@.take(0).to_multiset()));
    }
    while i < a.len() || j < b.len()
        invariant
            out@.len() == i + j,
            i <= a.len(),
            j <= b.len(),
            a.len() + b.len() <= usize::MAX,
            out.len() == i + j,
            total_ordering(entry_order()),
            sorted_by(a@, entry_order()),
            sorted_by(b@, entry_order()),
            sorted_by(out@, entry_order()),
            out@.to_multiset() == a@.take(i as int).to_multiset().add(
                b@.take(j as int).to_multiset(),
            ),
            forall|k: int| 0 <= k < out.len() && i < a.len() ==> entry_le(out@[k], a@[i as int]),
            forall|k: int| 0 <= k < out.len() && j < b.len() ==> entry_le(out@[k], b@[j as int]),
        decreases a.len() + b.len() - i - j,
    {
        let ghost before = out@;
        let from_left = if i >= a.len() {
            false
        } else if j >= b.len() {
            true
        } else {
            entry_before(a[i], b[j])
        };
        if from_left {
            let x = a[i];
            out.push(x);
            proof {
                assert(a@.take(i + 1) =~= a@.take(i as int).push(x));
                assert(out@ == before.push(x));
                vstd::seq_lib::to_multiset_build(before, x);
                vstd::seq_lib::to_multiset_build(a@.take(i as int), x);
                assert(out@.to_multiset() =~= a@.take(i + 1).to_multiset().add(
                    b@.take(j as int).to_multiset(),
                ));
                assert forall|p: int, q: int| 0 <= p < q < out@.len() implies (entry_order())(
                    out@[p],
                    out@[q],
                ) by {
                    if q < before.len() {
                        assert((entry_order())(before[p], before[q]));
                    }
                }
                assert forall|k: int| 0 <= k < out.len() && i + 1 < a.len() implies entry_le(
                    out@[k],
                    a@[i + 1],
                ) by {
                    assert((entry_order())(a@[i as int], a@[i + 1]));
                    if k < before.len() {
                        assert(entry_le(before[k], a@[i as int]));
                    }
                }
                assert forall|k: int| 0 <= k < out.len() && j < b.len() implies entry_le(
                    out@[k],
                    b@[j as int],
                ) by {
                    if k < before.len() {
                        assert(entry_le(before[k], b@[j as int]));
                    }
                }
            }
            i += 1;
        } else {
            let x = b[j];
            out.push(x);
            proof {
                assert(b@.take(j + 1) =~= b@.take(j as int).push(x));
                assert(out@ == before.push(x));
                vstd::seq_lib::to_multiset_build(before, x);
                vstd::seq_lib::to_multiset_build(b@.take(j as int), x);
                assert(out@.to_multiset() =~= a@.take(i as int).to_multiset().add(
                    b@.take(j + 1).to_multiset(),
                ));
                assert forall|p: int, q: int| 0 <= p < q < out@.len() implies (entry_order())(
                    out@[p],
                    out@[q],
                ) by {
                    if q < before.len() {
                        assert((entry_order())(before[p], before[q]));
                    }
                }
                assert forall|k: int| 0 <= k < out.len() && j + 1 < b.len() implies entry_le(
                    out@[k],
                    b@[j + 1],
                ) by {
                    assert((entry_order())(b@[j as int], b@[j + 1]));
                    if k < before.len() {
                        assert(entry_le(before[k], b@[j as int]));
                    }
                }
                assert forall|k: int| 0 <= k < out.len() && i < a.len() implies entry_le(
                    out@[k],
                    a@[i as int],
                ) by {
                    if k < before.len() {
                        assert(entry_le(before[k], a@[i as int]));
                    }
                }
            }
            j += 1;
        }
    }
    proof {
        assert(a@.take(i as int) =~= a@);
        assert(b@.take(j as int) =~= b@);
    }
    out
}

fn sort_range(v: &Vec<Entry>, lo: usize, hi: usize) -> (out: Vec<Entry>)
    requires
        lo <= hi <= v.len(),
    ensures
        sorted_by(out@, entry_order()),
        out@.to_multiset() == v@.subrange(lo as int, hi as int).to_multiset(),
        out.len() == hi - lo,
    decreases hi - lo,
{
    broadcast use vstd::seq_lib::group_to_multiset_ensures;
    broadcast use vstd::multiset::group_multiset_axioms;

    if hi - lo <= 1 {
        let mut out: Vec<Entry> = Vec::new();
        if hi - lo == 1 {
            out.push(v[lo]);
        }
        assert(out@ =~= v@.subrange(lo as int, hi as int));
        out
    } else {
        let mid = lo + (hi - lo) / 2;
        let left = sort_range(v, lo, mid);
        let right = sort_range(v, mid, hi);
        let out = merge(&left, &right);
        proof {
            let l = v@.subrange(lo as int, mid as int);
            let r = v@.subrange(mid as int, hi as int);
            assert(v@.subrange(lo as int, hi as int) =~= l + r);
            vstd::seq_lib::lemma_multiset_commutative(l, r);
            assert(out@.len() == out@.to_multiset().len());
            assert((l + r).len() == (l + r).to_multiset().len());
        }
        out
    }
}

/// Computes the stable order of the positions of `keys`.
pub fn stable_positions(keys: &Vec<Key>) -> (out: Vec<usize>)
    ensures
        out@ == stable_order(keys@),
{
    let mut all: Vec<Entry> = Vec::new();
    let mut i: usize = 0;
    while i < keys.len()
        invariant
            i <= keys.len(),
            all.len() == i,
            forall|k: int| 0 <= k < i ==> all@[k] == (Entry { key: keys@[k], pos: k as usize }),
        decreases keys.len() - i,
    {
        all.push(Entry { key: keys[i], pos: i });
        i += 1;
    }
    assert(all@ =~= entries(keys@));
    let sorted = sort_range(&all, 0, all.len());
    proof {
        assert(all@.subrange(0, all.len() as int) =~= all@);
        lemma_entry_order_total();
        all@.lemma_sort_by_ensures(entry_order());
        lemma_sorted_unique(sorted@, all@.sort_by(entry_order()), entry_order());
    }
    let mut out: Vec<usize> = Vec::new();
    let mut j: usize = 0;
    while j < sorted.len()
        invariant
            j <= sorted.len(),
            out.len() == j,
            forall|k: int| 0 <= k < j ==> out@[k] == sorted@[k].pos,
        decreases sorted.len() - j,
    {
        out.push(sorted[j].pos);
        j += 1;
    }
    assert(out@ =~= positions(sorted@));
    out
}

/// What the stable order is: a rearrangement of the positions, ascending in
/// rank, in which positions of equal rank keep their order.
pub proof fn lemma_stable_order(keys: Seq<Key>)
    requires
        keys.len() <= usize::MAX,
    ensures
        stable_order(keys).len() == keys.len(),
        forall|i: int|
            0 <= i < keys.len() ==> 0 <= (#[trigger] stable_order(keys)[i]) < keys.len(),
        forall|i: int, j: int|
            0 <= i < j < keys.len() ==> stable_order(keys)[i] != stable_order(keys)[j],
        forall|i: int, j: int|
            0 <= i < j < keys.len() ==> !key_lt(
                keys[stable_order(keys)[j] as int],
                keys[stable_order(keys)[i] as int],
            ),
        forall|i: int, j: int|
            0 <= i < j < keys.len() && keys[stable_order(keys)[i] as int]
                == keys[stable_order(keys)[j] as int] ==> stable_order(keys)[i] < stable_order(
                keys,
            )[j],
{
    broadcast use vstd::seq_lib::group_to_multiset_ensures;
    broadcast use vstd::multiset::group_multiset_axioms;

    let e = entries(keys);
    let s = e.sort_by(entry_order());
    let ord = stable_order(keys);
    lemma_entry_order_total();
    e.lemma_sort_by_ensures(entry_order());
    assert(s.len() == s.to_multiset().len());
    assert(e.len() == e.to_multiset().len());
    assert forall|i: int| 0 <= i < s.len() implies 0 <= (#[trigger] s[i]).pos < keys.len()
        && s[i].key == keys[s[i].pos as int] by {
        assert(s.contains(s[i]));
        assert(e.contains(s[i]));
        let k = choose|k: int| 0 <= k < e.len() && e[k] == s[i];
        assert(e[k].pos == k);
    }
    assert(e.no_duplicates());
    e.lemma_multiset_has_no_duplicates();
    s.lemma_multiset_has_no_duplicates_conv();
    assert forall|i: int, j: int| 0 <= i < j < keys.len() implies ord[i] != ord[j] by {
        assert(s[i] != s[j]);
        assert(s[i].key == keys[s[i].pos as int]);
        assert(s[j].key == keys[s[j].pos as int]);
    }
    assert forall|i: int, j: int| 0 <= i < j < keys.len() implies !key_lt(
        keys[ord[j] as int],
        keys[ord[i] as int],
    ) by {
        assert((entry_order())(s[i], s[j]));
        assert(s[i].key == keys[s[i].pos as int]);
        assert(s[j].key == keys[s[j].pos as int]);
    }
    assert forall|i: int, j: int|
        0 <= i < j < keys.len() && keys[ord[i] as int] == keys[ord[j] as int] implies ord[i]
        < ord[j] by {
        assert((entry_order())(s[i], s[j]));
        assert(s[i] != s[j]);
        assert(s[i].key == keys[s[i].pos as int]);
        assert(s[j].key == keys[s[j].pos as int]);
    }
}

/// The items that two sequences of entries point at.
pub open spec fn pick<T>(items: Seq<T>, s: Seq<Entry>) -> Seq<T> {
    Seq::new(s.len(), |i: int| items[s[i].pos as int])
}

proof fn lemma_pick_multiset<T>(items: Seq<T>, a: Seq<Entry>, b: Seq<Entry>)
    requires
        a.to_multiset() == b.to_multiset(),
    ensures
        pick(items, a).to_multiset() == pick(items, b).to_multiset(),
    decreases a.len(),
{
    broadcast use vstd::seq_lib::group_to_multiset_ensures;
    broadcast use vstd::multiset::group_multiset_axioms;

    assert(a.len() == a.to_multiset().len());
    assert(b.len() == b.to_multiset().len());
    if a.len() == 0 {
        assert(pick(items, a) =~= pick(items, b));
    } else {
        let x = a.last();
        assert(a.contains(x));
        assert(a.to_multiset().count(x) > 0);
        assert(b.contains(x));
        let i = choose|i: int| 0 <= i < b.len() && b[i] == x;
        let a1 = a.drop_last();
        let b1 = b.remove(i);
        assert(a1 =~= a.remove(a.len() - 1));
        assert(a1.to_multiset() == a.to_multiset().remove(x));
        assert(b1.to_multiset() == b.to_multiset().remove(x));
        lemma_pick_multiset(items, a1, b1);
        let y = items[x.pos as int];
        assert(pick(items, a) =~= pick(items, a1).push(y));
        assert(pick(items, b) =~= pick(items, b1).insert(i, y));
        assert(pick(items, a).to_multiset() =~= pick(items, a1).to_multiset().insert(y));
        assert(pick(items, b).to_multiset() =~= pick(items, b1).to_multiset().insert(y));
    }
}

/// Reordering by the stable order keeps every item, each as often as before.
pub proof fn lemma_reorder_keeps_items<T>(items: Seq<T>, keys: Seq<Key>)
    requires
        items.len() == keys.len(),
        keys.len() <= usize::MAX,
    ensures
        reorder(items, stable_order(keys)).to_multiset() == items.to_multiset(),
{
    let e = entries(keys);
    let s = e.sort_by(entry_order());
    lemma_entry_order_total();
    e.lemma_sort_by_ensures(entry_order());
    lemma_pick_multiset(items, s, e);
    assert(pick(items, e) =~= items);
    assert(pick(items, s) =~= reorder(items, stable_order(keys)));
}

} // verus!
