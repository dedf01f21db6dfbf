//! What each stage does to the rows of a collection.
//!
//! A row is the position of a record in the corpus. A flat collection is a
//! sequence of rows; a grouped one is a sequence of groups, each a key and a
//! sequence of rows.

use crate::order::{lemma_stable_order, reorder, stable_order, stable_positions};
use crate::predicate::{holds, read_field, read_of, Predicate, PredicateView};
use crate::record::{Accessor, Record};
use crate::sample::{group_seed, sample, seed_for_group, take_sample, SampleSpec, Seed};
use crate::value::{key_flip, key_in_range, key_of, Key, ValueView};
use vstd::prelude::*;

verus! {

/// The direction of a sort.
#[derive(Clone, Copy, Debug, PartialEq, Eq, Structural)]
pub enum Direction {
    Ascending,
    Descending,
}

/// One group of a grouped collection.
#[derive(Debug)]
pub struct Group {
    pub key: Key,
    pub rows: Vec<usize>,
}

/// The mathematical content of a [`Group`].
pub struct GroupView {
    pub key: Key,
    pub rows: Seq<usize>,
}

impl View for Group {
    type V = GroupView;

    open spec fn view(&self) -> GroupView {
        GroupView { key: self.key, rows: self.rows@ }
    }
}

/// The contents of a list of groups.
pub open spec fn group_views(groups: Seq<Group>) -> Seq<GroupView> {
    Seq::new(groups.len(), |i: int| groups[i]@)
}

/// Whether every row is a position in a corpus of `n` records.
pub open spec fn rows_fit(rows: Seq<usize>, n: int) -> bool {
    forall|i: int| 0 <= i < rows.len() ==> (#[trigger] rows[i]) < n
}

/// Whether every group has rows in a corpus of `n` records and a key that a
/// value can have.
pub open spec fn groups_fit(groups: Seq<GroupView>, n: int) -> bool {
    forall|g: int|
        0 <= g < groups.len() ==> rows_fit((#[trigger] groups[g]).rows, n) && key_in_range(
            groups[g].key,
        )
}

/// The rows whose records satisfy `p`, in their order.
pub open spec fn keep(rows: Seq<usize>, src: Seq<Record>, p: PredicateView) -> Seq<usize>
    decreases rows.len(),
{
    if rows.len() == 0 {
        Seq::empty()
    } else if holds(p, src[rows.last() as int]) {
        keep(rows.drop_last(), src, p).push(rows.last())
    } else {
        keep(rows.drop_last(), src, p)
    }
}

/// The rank by which a value is sorted in a direction.
pub open spec fn sort_key(v: ValueView, dir: Direction) -> Key {
    match dir {
        Direction::Ascending => key_of(v),
        Direction::Descending => key_flip(key_of(v)),
    }
}

/// The ranks of the rows when sorting by accessor `a` in direction `dir`.
pub open spec fn row_keys(rows: Seq<usize>, src: Seq<Record>, a: Accessor, dir: Direction) -> Seq<
    Key,
> {
    Seq::new(rows.len(), |i: int| sort_key(read_field(src[rows[i] as int], a), dir))
}

/// The rows sorted by accessor `a`: in the order of their ranks, rows of
/// equal rank in the order they had.
pub open spec fn arrange(rows: Seq<usize>, src: Seq<Record>, a: Accessor, dir: Direction) -> Seq<
    usize,
> {
    reorder(rows, stable_order(row_keys(rows, src, a, dir)))
}

/// The key of a row when grouping by accessor `a`.
pub open spec fn group_key(row: usize, src: Seq<Record>, a: Accessor) -> Key {
    key_of(read_field(src[row as int], a))
}

/// Cuts rows into runs of equal key: a row joins the last group where it has
/// that group's key, and opens a new group where it has not.
pub open spec fn cut(rows: Seq<usize>, src: Seq<Record>, a: Accessor) -> Seq<GroupView>
    decreases rows.len(),
{
    if rows.len() == 0 {
        Seq::empty()
    } else {
        let before = cut(rows.drop_last(), src, a);
        let row = rows.last();
        let key = group_key(row, src, a);
        if before.len() > 0 && before.last().key == key {
            before.drop_last().push(GroupView { key, rows: before.last().rows.push(row) })
        } else {
            before.push(GroupView { key, rows: seq![row] })
        }
    }
}

/// The groups of the rows by accessor `a`: the rows sorted by key and cut
/// into runs. Groups come in the order of their keys, and the rows of a group
/// in the order they had.
pub open spec fn group(rows: Seq<usize>, src: Seq<Record>, a: Accessor) -> Seq<GroupView> {
    cut(arrange(rows, src, a, Direction::Ascending), src, a)
}

/// The rows of all groups, group after group.
pub open spec fn join(groups: Seq<GroupView>) -> Seq<usize>
    decreases groups.len(),
{
    if groups.len() == 0 {
        Seq::empty()
    } else {
        join(groups.drop_last()) + groups.last().rows
    }
}

/// The sample specification that a group with key `k` samples by: a random
/// sample is seeded by the seed of the specification mixed with the key.
pub open spec fn sample_for_group(spec: SampleSpec, k: Key) -> SampleSpec {
    match spec {
        SampleSpec::Top(n) => SampleSpec::Top(n),
        SampleSpec::Random(n, seed) => SampleSpec::Random(n, Seed(group_seed(seed.0, k))),
    }
}

/// Every group filtered by `p`.
pub open spec fn keep_each(groups: Seq<GroupView>, src: Seq<Record>, p: PredicateView) -> Seq<
    GroupView,
> {
    Seq::new(
        groups.len(),
        |i: int| GroupView { key: groups[i].key, rows: keep(groups[i].rows, src, p) },
    )
}

/// Every group sorted by accessor `a`.
pub open spec fn arrange_each(
    groups: Seq<GroupView>,
    src: Seq<Record>,
    a: Accessor,
    dir: Direction,
) -> Seq<GroupView> {
    Seq::new(
        groups.len(),
        |i: int| GroupView { key: groups[i].key, rows: arrange(groups[i].rows, src, a, dir) },
    )
}

/// Every group sampled on its own.
pub open spec fn sample_each(groups: Seq<GroupView>, spec: SampleSpec) -> Seq<GroupView> {
    Seq::new(
        groups.len(),
        |i: int|
            GroupView {
                key: groups[i].key,
                rows: sample(groups[i].rows, sample_for_group(spec, groups[i].key)),
            },
    )
}

/// Filtering keeps only rows that were there.
pub proof fn lemma_keep_fits(rows: Seq<usize>, src: Seq<Record>, p: PredicateView, n: int)
    requires
        rows_fit(rows, n),
    ensures
        rows_fit(keep(rows, src, p), n),
        keep(rows, src, p).len() <= rows.len(),
    decreases rows.len(),
{
    if rows.len() > 0 {
        lemma_keep_fits(rows.drop_last(), src, p, n);
    }
}

/// Filters rows by a predicate.
pub fn keep_rows(rows: &Vec<usize>, src: &Vec<Record>, p: &Predicate) -> (out: Vec<usize>)
    requires
        rows_fit(rows@, src.len() as int),
    ensures
        out@ == keep(rows@, src@, p@),
        rows_fit(out@, src.len() as int),
{
    let mut out: Vec<usize> = Vec::new();
    let mut i: usize = 0;
    assert(rows@.take(0) =~= Seq::<usize>::empty());
    while i < rows.len()
        invariant
            i <= rows.len(),
            rows_fit(rows@, src.len() as int),
            out@ == keep(rows@.take(i as int), src@, p@),
        decreases rows.len() - i,
    {
        assert(rows@.take(i + 1).drop_last() =~= rows@.take(i as int));
        let row = rows[i];
        if p.test(&src[row]) {
            out.push(row);
        }
        i += 1;
    }
    proof {
        assert(rows@.take(i as int) =~= rows@);
        lemma_keep_fits(rows@, src@, p@, src.len() as int);
    }
    out
}

/// Copies a list of rows.
pub fn copy_rows(rows: &Vec<usize>) -> (out: Vec<usize>)
    ensures
        out@ == rows@,
{
    let mut out: Vec<usize> = Vec::new();
    let mut i: usize = 0;
    while i < rows.len()
        invariant
            i <= rows.len(),
            out@ == rows@.take(i as int),
        decreases rows.len() - i,
    {
        out.push(rows[i]);
        assert(rows@.take(i + 1) =~= rows@.take(i as int).push(rows@[i as int]));
        i += 1;
    }
    assert(rows@.take(i as int) =~= rows@);
    out
}

/// Sorts rows by an accessor.
pub fn arrange_rows(rows: &Vec<usize>, src: &Vec<Record>, a: Accessor, dir: Direction) -> (out:
    Vec<usize>)
    requires
        rows_fit(rows@, src.len() as int),
    ensures
        out@ == arrange(rows@, src@, a, dir),
        rows_fit(out@, src.len() as int),
        out.len() == rows.len(),
{
    let mut keys: Vec<Key> = Vec::new();
    let mut i: usize = 0;
    while i < rows.len()
        invariant
            i <= rows.len(),
            rows_fit(rows@, src.len() as int),
            keys.len() == i,
            forall|k: int|
                0 <= k < i ==> keys@[k] == sort_key(read_field(src@[rows@[k] as int], a), dir),
        decreases rows.len() - i,
    {
        let x = read_of(&src[rows[i]], a);
        let key = x.get().key();
        let ranked = match dir {
            Direction::Ascending => key,
            Direction::Descending => key.flip(),
        };
        keys.push(ranked);
        i += 1;
    }
    assert(keys@ =~= row_keys(rows@, src@, a, dir));
    let ord = stable_positions(&keys);
    proof {
        lemma_stable_order(keys@);
    }
    let mut out: Vec<usize> = Vec::new();
    let mut j: usize = 0;
    while j < ord.len()
        invariant
            j <= ord.len(),
            ord.len() == rows.len(),
            rows_fit(rows@, src.len() as int),
            forall|k: int| 0 <= k < ord.len() ==> 0 <= (#[trigger] ord@[k]) < rows.len(),
            out.len() == j,
            forall|k: int| 0 <= k < j ==> out@[k] == rows@[ord@[k] as int],
        decreases ord.len() - j,
    {
        out.push(rows[ord[j]]);
        j += 1;
    }
    assert(out@ =~= reorder(rows@, ord@));
    out
}

/// Cutting keeps only rows that were there, under keys that values have.
pub proof fn lemma_cut_fits(rows: Seq<usize>, src: Seq<Record>, a: Accessor, n: int)
    requires
        rows_fit(rows, n),
    ensures
        groups_fit(cut(rows, src, a), n),
    decreases rows.len(),
{
    if rows.len() > 0 {
        lemma_cut_fits(rows.drop_last(), src, a, n);
        let before = cut(rows.drop_last(), src, a);
        let now = cut(rows, src, a);
        assert forall|g: int| 0 <= g < now.len() implies rows_fit((#[trigger] now[g]).rows, n)
            && key_in_range(now[g].key) by {
            if g < now.len() - 1 {
                assert(now[g] == before[g]);
            } else if before.len() > 0 && before.last().key == group_key(rows.last(), src, a) {
                assert(rows_fit(before.last().rows, n));
            }
        }
    }
}

/// Groups rows by an accessor.
pub fn group_rows(rows: &Vec<usize>, src: &Vec<Record>, a: Accessor) -> (out: Vec<Group>)
    requires
        rows_fit(rows@, src.len() as int),
    ensures
        group_views(out@) == group(rows@, src@, a),
        groups_fit(group_views(out@), src.len() as int),
{
    let sorted = arrange_rows(rows, src, a, Direction::Ascending);
    let mut out: Vec<Group> = Vec::new();
    let mut current: Vec<usize> = Vec::new();
    let mut key = Key { tag: 0, num: 0 };
    let mut i: usize = 0;
    assert(sorted@.take(0) =~= Seq::<usize>::empty());
    assert(group_views(out@) =~= Seq::<GroupView>::empty());
    while i < sorted.len()
        invariant
            i <= sorted.len(),
            rows_fit(sorted@, src.len() as int),
            i == 0 ==> out.len() == 0 && current.len() == 0,
            i > 0 ==> cut(sorted@.take(i as int), src@, a) == group_views(out@).push(
                GroupView { key, rows: current@ },
            ),
        decreases sorted.len() - i,
    {
        assert(sorted@.take(i + 1).drop_last() =~= sorted@.take(i as int));
        let row = sorted[i];
        let x = read_of(&src[row], a);
        let found = x.get().key();
        let ghost held = current@;
        if i > 0 && found == key {
            current.push(row);
            proof {
                let before = group_views(out@).push(GroupView { key, rows: held });
                assert(before.drop_last() =~= group_views(out@));
                assert(before.last().rows == held);
                assert(cut(sorted@.take(i as int), src@, a) == before);
                assert(cut(sorted@.take(i + 1), src@, a) =~= group_views(out@).push(
                    GroupView { key, rows: current@ },
                ));
            }
        } else {
            let ghost before = if i > 0 {
                group_views(out@).push(GroupView { key, rows: current@ })
            } else {
                Seq::<GroupView>::empty()
            };
            if i > 0 {
                out.push(Group { key, rows: current });
                assert(group_views(out@) =~= before);
            }
            current = Vec::new();
            current.push(row);
            key = found;
            proof {
                assert(current@ =~= seq![row]);
                assert(cut(sorted@.take(i as int), src@, a) =~= before);
                assert(group_views(out@) =~= before);
                assert(cut(sorted@.take(i + 1), src@, a) =~= group_views(out@).push(
                    GroupView { key, rows: current@ },
                ));
            }
        }
        i += 1;
    }
    if i > 0 {
        let ghost whole = group_views(out@).push(GroupView { key, rows: current@ });
        out.push(Group { key, rows: current });
        assert(group_views(out@) =~= whole);
    }
    proof {
        assert(sorted@.take(i as int) =~= sorted@);
        lemma_cut_fits(sorted@, src@, a, src.len() as int);
    }
    out
}

/// Joining keeps only rows that were there.
pub proof fn lemma_join_fits(groups: Seq<GroupView>, n: int)
    requires
        groups_fit(groups, n),
    ensures
        rows_fit(join(groups), n),
    decreases groups.len(),
{
    if groups.len() > 0 {
        lemma_join_fits(groups.drop_last(), n);
        assert(rows_fit(groups.last().rows, n));
    }
}

/// Concatenates the rows of all groups.
pub fn join_rows(groups: &Vec<Group>) -> (out: Vec<usize>)
    ensures
        out@ == join(group_views(groups@)),
{
    let mut out: Vec<usize> = Vec::new();
    let mut g: usize = 0;
    assert(group_views(groups@).take(0) =~= Seq::<GroupView>::empty());
    while g < groups.len()
        invariant
            g <= groups.len(),
            out@ == join(group_views(groups@).take(g as int)),
        decreases groups.len() - g,
    {
        let ghost start = out@;
        let rows = &groups[g].rows;
        let mut i: usize = 0;
        while i < rows.len()
            invariant
                i <= rows.len(),
                out@ == start + rows@.take(i as int),
            decreases rows.len() - i,
        {
            out.push(rows[i]);
            assert(rows@.take(i + 1) =~= rows@.take(i as int).push(rows@[i as int]));
            assert(start + rows@.take(i + 1) =~= (start + rows@.take(i as int)).push(
                rows@[i as int],
            ));
            i += 1;
        }
        proof {
            assert(rows@.take(i as int) =~= rows@);
            let upto = group_views(groups@).take(g + 1);
            assert(upto.drop_last() =~= group_views(groups@).take(g as int));
            assert(upto.last().rows == rows@);
        }
        g += 1;
    }
    assert(group_views(groups@).take(g as int) =~= group_views(groups@));
    out
}

/// Filters every group.
pub fn keep_groups(groups: &Vec<Group>, src: &Vec<Record>, p: &Predicate) -> (out: Vec<Group>)
    requires
        groups_fit(group_views(groups@), src.len() as int),
    ensures
        group_views(out@) == keep_each(group_views(groups@), src@, p@),
        groups_fit(group_views(out@), src.len() as int),
{
    let mut out: Vec<Group> = Vec::new();
    let mut g: usize = 0;
    while g < groups.len()
        invariant
            g <= groups.len(),
            groups_fit(group_views(groups@), src.len() as int),
            out.len() == g,
            forall|k: int|
                0 <= k < g ==> (#[trigger] out@[k])@ == (GroupView {
                    key: groups@[k].key,
                    rows: keep(groups@[k].rows@, src@, p@),
                }) && rows_fit(out@[k].rows@, src.len() as int),
        decreases groups.len() - g,
    {
        assert(rows_fit(group_views(groups@)[g as int].rows, src.len() as int));
        let rows = keep_rows(&groups[g].rows, src, p);
        out.push(Group { key: groups[g].key, rows });
        g += 1;
    }
    assert(group_views(out@) =~= keep_each(group_views(groups@), src@, p@));
    assert forall|k: int| 0 <= k < out.len() implies rows_fit(
        (#[trigger] group_views(out@)[k]).rows,
        src.len() as int,
    ) && key_in_range(group_views(out@)[k].key) by {
        assert(out@[k]@.key == groups@[k].key);
        assert(key_in_range(group_views(groups@)[k].key));
    }
    out
}

/// Sorts every group.
pub fn arrange_groups(groups: &Vec<Group>, src: &Vec<Record>, a: Accessor, dir: Direction) -> (out:
    Vec<Group>)
    requires
        groups_fit(group_views(groups@), src.len() as int),
    ensures
        group_views(out@) == arrange_each(group_views(groups@), src@, a, dir),
        groups_fit(group_views(out@), src.len() as int),
{
    let mut out: Vec<Group> = Vec::new();
    let mut g: usize = 0;
    while g < groups.len()
        invariant
            g <= groups.len(),
            groups_fit(group_views(groups@), src.len() as int),
            out.len() == g,
            forall|k: int|
                0 <= k < g ==> (#[trigger] out@[k])@ == (GroupView {
                    key: groups@[k].key,
                    rows: arrange(groups@[k].rows@, src@, a, dir),
                }) && rows_fit(out@[k].rows@, src.len() as int),
        decreases groups.len() - g,
    {
        assert(rows_fit(group_views(groups@)[g as int].rows, src.len() as int));
        let rows = arrange_rows(&groups[g].rows, src, a, dir);
        out.push(Group { key: groups[g].key, rows });
        g += 1;
    }
    assert(group_views(out@) =~= arrange_each(group_views(groups@), src@, a, dir));
    assert forall|k: int| 0 <= k < out.len() implies rows_fit(
        (#[trigger] group_views(out@)[k]).rows,
        src.len() as int,
    ) && key_in_range(group_views(out@)[k].key) by {
        assert(out@[k]@.key == groups@[k].key);
        assert(key_in_range(group_views(groups@)[k].key));
    }
    out
}

/// A sample holds only rows that were there.
pub proof fn lemma_sample_fits(rows: Seq<usize>, spec: SampleSpec, n: int)
    requires
        rows_fit(rows, n),
    ensures
        rows_fit(sample(rows, spec), n),
{
    broadcast use vstd::seq_lib::group_to_multiset_ensures;
    broadcast use vstd::multiset::group_multiset_axioms;

    crate::sample::lemma_sample_is_selection(rows, spec);
    let s = sample(rows, spec);
    assert forall|i: int| 0 <= i < s.len() implies (#[trigger] s[i]) < n by {
        assert(s.contains(s[i]));
        assert(s.to_multiset().count(s[i]) > 0);
        assert(rows.to_multiset().count(s[i]) > 0);
        assert(rows.contains(s[i]));
    }
}

fn group_sample(spec: SampleSpec, k: Key) -> (s: SampleSpec)
    requires
        key_in_range(k),
    ensures
        s == sample_for_group(spec, k),
{
    match spec {
        SampleSpec::Top(n) => SampleSpec::Top(n),
        SampleSpec::Random(n, seed) => SampleSpec::Random(n, Seed(seed_for_group(seed.0, k))),
    }
}

/// Samples every group on its own.
pub fn sample_groups(groups: &Vec<Group>, spec: SampleSpec, n: usize) -> (out: Vec<Group>)
    requires
        groups_fit(group_views(groups@), n as int),
    ensures
        group_views(out@) == sample_each(group_views(groups@), spec),
        groups_fit(group_views(out@), n as int),
{
    let mut out: Vec<Group> = Vec::new();
    let mut g: usize = 0;
    while g < groups.len()
        invariant
            g <= groups.len(),
            groups_fit(group_views(groups@), n as int),
            out.len() == g,
            forall|k: int|
                0 <= k < g ==> (#[trigger] out@[k])@ == (GroupView {
                    key: groups@[k].key,
                    rows: sample(groups@[k].rows@, sample_for_group(spec, groups@[k].key)),
                }) && rows_fit(out@[k].rows@, n as int),
        decreases groups.len() - g,
    {
        assert(rows_fit(group_views(groups@)[g as int].rows, n as int));
        assert(key_in_range(group_views(groups@)[g as int].key));
        let key = groups[g].key;
        let own = group_sample(spec, key);
        proof {
            lemma_sample_fits(groups@[g as int].rows@, own, n as int);
        }
        let rows = take_sample(copy_rows(&groups[g].rows), own);
        out.push(Group { key, rows });
        g += 1;
    }
    assert(group_views(out@) =~= sample_each(group_views(groups@), spec));
    assert forall|k: int| 0 <= k < out.len() implies rows_fit(
        (#[trigger] group_views(out@)[k]).rows,
        n as int,
    ) && key_in_range(group_views(out@)[k].key) by {
        assert(out@[k]@.key == groups@[k].key);
        assert(key_in_range(group_views(groups@)[k].key));
    }
    out
}

} // verus!
