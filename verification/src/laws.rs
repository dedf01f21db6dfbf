//! Laws of the engine: what holds of every predicate, every collection and
//! every seed.

use crate::collection::{filtered, grouped, sampled, ungrouped, ShapeView};
use crate::order::{lemma_reorder_keeps_items, lemma_stable_order, reorder, stable_order};
use crate::predicate::{count, holds, value_of, ExprView, PredicateView, SourceView};
use crate::record::{Accessor, Record};
use crate::sample::{clamp, top, SampleSpec};
use crate::stage::{
    arrange, cut, group, group_key, join, keep, keep_each, row_keys, sort_key, Direction,
    GroupView,
};
use crate::value::{key_lt, Key, ValueView};
use vstd::prelude::*;

verus! {

/// Filtering twice by the same predicate is filtering once.
pub proof fn lemma_keep_twice(rows: Seq<usize>, src: Seq<Record>, p: PredicateView)
    ensures
        keep(keep(rows, src, p), src, p) == keep(rows, src, p),
    decreases rows.len(),
{
    if rows.len() > 0 {
        lemma_keep_twice(rows.drop_last(), src, p);
        if holds(p, src[rows.last() as int]) {
            let kept = keep(rows.drop_last(), src, p);
            assert(kept.push(rows.last()).drop_last() =~= kept);
        }
    }
}

/// A row is kept by a filter exactly where it was there and its record
/// satisfies the predicate.
pub proof fn lemma_keep_contains(rows: Seq<usize>, src: Seq<Record>, p: PredicateView, row: usize)
    ensures
        keep(rows, src, p).contains(row) <==> rows.contains(row) && holds(p, src[row as int]),
    decreases rows.len(),
{
    if rows.len() > 0 {
        let rest = rows.drop_last();
        lemma_keep_contains(rest, src, p, row);
        let kept = keep(rest, src, p);
        if rows.contains(row) {
            let k = choose|k: int| 0 <= k < rows.len() && rows[k] == row;
            if k < rest.len() {
                assert(rest[k] == row);
            }
        }
        if rest.contains(row) {
            let k = choose|k: int| 0 <= k < rest.len() && rest[k] == row;
            assert(rows[k] == row);
        }
        assert(rows[rows.len() - 1] == rows.last());
        if holds(p, src[rows.last() as int]) {
            let now = kept.push(rows.last());
            if now.contains(row) {
                let k = choose|k: int| 0 <= k < now.len() && now[k] == row;
                if k < kept.len() {
                    assert(kept[k] == row);
                }
            }
            if kept.contains(row) {
                let k = choose|k: int| 0 <= k < kept.len() && kept[k] == row;
                assert(now[k] == row);
            }
            assert(now[now.len() - 1] == rows.last());
        }
    }
}

/// Two filters in a row keep the rows that satisfy both predicates, whichever
/// filter comes first.
pub proof fn lemma_filters_commute(
    rows: Seq<usize>,
    src: Seq<Record>,
    p: PredicateView,
    q: PredicateView,
)
    ensures
        keep(keep(rows, src, p), src, q) == keep(keep(rows, src, q), src, p),
        forall|row: usize|
            keep(keep(rows, src, p), src, q).contains(row) <==> (rows.contains(row) && holds(
                p,
                src[row as int],
            ) && holds(q, src[row as int])),
    decreases rows.len(),
{
    if rows.len() > 0 {
        let rest = rows.drop_last();
        let x = rows.last();
        lemma_filters_commute(rest, src, p, q);
        let by_p = keep(rest, src, p);
        let by_q = keep(rest, src, q);
        if holds(p, src[x as int]) {
            assert(by_p.push(x).drop_last() =~= by_p);
        }
        if holds(q, src[x as int]) {
            assert(by_q.push(x).drop_last() =~= by_q);
        }
    }
    assert forall|row: usize|
        keep(keep(rows, src, p), src, q).contains(row) <==> (rows.contains(row) && holds(
            p,
            src[row as int],
        ) && holds(q, src[row as int])) by {
        lemma_keep_contains(rows, src, p, row);
        lemma_keep_contains(keep(rows, src, p), src, q, row);
    }
}

/// Filtering a collection twice by the same predicate gives what filtering it
/// once gives, flat or grouped.
pub proof fn lemma_filter_idempotent(shape: ShapeView, src: Seq<Record>, p: PredicateView)
    ensures
        filtered(filtered(shape, src, p), src, p) == filtered(shape, src, p),
{
    match shape {
        ShapeView::Flat(rows) => {
            lemma_keep_twice(rows, src, p);
        },
        ShapeView::Grouped(groups) => {
            let once = keep_each(groups, src, p);
            assert forall|i: int| 0 <= i < groups.len() implies keep_each(once, src, p)[i]
                == once[i] by {
                lemma_keep_twice(groups[i].rows, src, p);
            }
            assert(keep_each(once, src, p) =~= once);
        },
    }
}

/// Sampling is a function of the rows and the specification alone: two
/// collections with the same rows give the same sample, in the same order,
/// whenever and wherever they are sampled with the same seed.
pub proof fn lemma_sample_deterministic(a: ShapeView, b: ShapeView, spec: SampleSpec)
    requires
        a == b,
    ensures
        sampled(a, spec) == sampled(b, spec),
{
}

/// What sorting does: it rearranges the rows, keeps every row as often as it
/// was there, puts them in the order of their ranks, and keeps rows of equal
/// rank in the order they had.
pub proof fn lemma_sort_is_stable(rows: Seq<usize>, src: Seq<Record>, a: Accessor, dir: Direction)
    requires
        rows.len() <= usize::MAX,
    ensures
        arrange(rows, src, a, dir).len() == rows.len(),
        arrange(rows, src, a, dir).to_multiset() == rows.to_multiset(),
        arrange(rows, src, a, dir) == reorder(rows, stable_order(row_keys(rows, src, a, dir))),
        forall|i: int, j: int|
            0 <= i < j < rows.len() ==> !key_lt(
                row_keys(rows, src, a, dir)[stable_order(row_keys(rows, src, a, dir))[j] as int],
                row_keys(rows, src, a, dir)[stable_order(row_keys(rows, src, a, dir))[i] as int],
            ),
        forall|i: int, j: int|
            0 <= i < j < rows.len() && row_keys(rows, src, a, dir)[stable_order(
                row_keys(rows, src, a, dir),
            )[i] as int] == row_keys(rows, src, a, dir)[stable_order(
                row_keys(rows, src, a, dir),
            )[j] as int] ==> stable_order(row_keys(rows, src, a, dir))[i] < stable_order(
                row_keys(rows, src, a, dir),
            )[j],
{
    let keys = row_keys(rows, src, a, dir);
    lemma_stable_order(keys);
    lemma_reorder_keeps_items(rows, keys);
}

/// The rank that the record at a row is sorted by.
pub open spec fn rank(row: usize, src: Seq<Record>, a: Accessor, dir: Direction) -> Key {
    sort_key(crate::predicate::read_field(src[row as int], a), dir)
}

/// The position, before an ascending sort by `a`, of the row that the sort
/// puts at position `i`.
pub open spec fn came_from(rows: Seq<usize>, src: Seq<Record>, a: Accessor, i: int) -> int {
    stable_order(row_keys(rows, src, a, Direction::Ascending))[i] as int
}

/// The first `k` rows of a sorted collection are the `k` smallest: no row
/// that comes later, taken or left out, ranks below a row that is taken, and
/// taken rows of equal rank stand in the order they had before the sort.
pub proof fn lemma_top_of_sorted(rows: Seq<usize>, src: Seq<Record>, a: Accessor, k: int)
    requires
        rows.len() <= usize::MAX,
        0 <= k,
    ensures
        top(arrange(rows, src, a, Direction::Ascending), k).len() == clamp(k, rows.len() as int),
        forall|i: int|
            0 <= i < clamp(k, rows.len() as int) ==> top(
                arrange(rows, src, a, Direction::Ascending),
                k,
            )[i] == rows[came_from(rows, src, a, i)],
        forall|i: int, j: int|
            0 <= i < j < clamp(k, rows.len() as int) && rank(
                rows[came_from(rows, src, a, i)],
                src,
                a,
                Direction::Ascending,
            ) == rank(rows[came_from(rows, src, a, j)], src, a, Direction::Ascending)
                ==> came_from(rows, src, a, i) < came_from(rows, src, a, j),
        forall|i: int, j: int|
            0 <= i < clamp(k, rows.len() as int) && i < j < rows.len() ==> !key_lt(
                rank(arrange(rows, src, a, Direction::Ascending)[j], src, a, Direction::Ascending),
                rank(
                    top(arrange(rows, src, a, Direction::Ascending), k)[i],
                    src,
                    a,
                    Direction::Ascending,
                ),
            ),
{
    let dir = Direction::Ascending;
    let keys = row_keys(rows, src, a, dir);
    let ord = stable_order(keys);
    let s = arrange(rows, src, a, dir);
    lemma_stable_order(keys);
    assert forall|i: int, j: int|
        0 <= i < j < clamp(k, rows.len() as int) && rank(
            rows[came_from(rows, src, a, i)],
            src,
            a,
            dir,
        ) == rank(rows[came_from(rows, src, a, j)], src, a, dir) implies came_from(rows, src, a, i)
        < came_from(rows, src, a, j) by {
        assert(keys[ord[i] as int] == rank(rows[ord[i] as int], src, a, dir));
        assert(keys[ord[j] as int] == rank(rows[ord[j] as int], src, a, dir));
    }
    assert forall|i: int, j: int|
        0 <= i < clamp(k, rows.len() as int) && i < j < rows.len() implies !key_lt(
        rank(s[j], src, a, dir),
        rank(top(s, k)[i], src, a, dir),
    ) by {
        assert(s[i] == rows[ord[i] as int]);
        assert(s[j] == rows[ord[j] as int]);
        assert(keys[ord[i] as int] == rank(s[i], src, a, dir));
        assert(keys[ord[j] as int] == rank(s[j], src, a, dir));
    }
}

/// Joining the runs that rows were cut into gives the rows back.
pub proof fn lemma_join_of_cut(rows: Seq<usize>, src: Seq<Record>, a: Accessor)
    ensures
        join(cut(rows, src, a)) == rows,
    decreases rows.len(),
{
    if rows.len() == 0 {
    } else {
        let before = cut(rows.drop_last(), src, a);
        let row = rows.last();
        let key = group_key(row, src, a);
        lemma_join_of_cut(rows.drop_last(), src, a);
        if before.len() > 0 && before.last().key == key {
            let merged = GroupView { key, rows: before.last().rows.push(row) };
            let now = before.drop_last().push(merged);
            assert(now.drop_last() =~= before.drop_last());
            assert(join(now) =~= join(before).push(row));
        } else {
            let now = before.push(GroupView { key, rows: seq![row] });
            assert(now.drop_last() =~= before);
            assert(join(now) =~= join(before).push(row));
        }
        assert(rows.drop_last().push(row) =~= rows);
    }
}

/// Grouping and then ungrouping, with nothing in between, keeps every record
/// exactly as often as it was there: the result is the rows sorted by the
/// group key.
pub proof fn lemma_group_then_ungroup(rows: Seq<usize>, src: Seq<Record>, a: Accessor)
    requires
        rows.len() <= usize::MAX,
    ensures
        ungrouped(grouped(ShapeView::Flat(rows), src, a)) == ShapeView::Flat(
            arrange(rows, src, a, Direction::Ascending),
        ),
        join(group(rows, src, a)).to_multiset() == rows.to_multiset(),
        join(group(rows, src, a)).len() == rows.len(),
{
    lemma_join_of_cut(arrange(rows, src, a, Direction::Ascending), src, a);
    lemma_sort_is_stable(rows, src, a, Direction::Ascending);
}

/// Whether rows are in ascending order of their group keys.
pub open spec fn keys_ascend(rows: Seq<usize>, src: Seq<Record>, a: Accessor) -> bool {
    forall|i: int, j: int|
        0 <= i < j < rows.len() ==> !key_lt(group_key(rows[j], src, a), group_key(rows[i], src, a))
}

/// The runs that sorted rows are cut into: no run is empty, every row of a
/// run has the run's key, and the keys of the runs ascend strictly.
pub proof fn lemma_cut_by_key(rows: Seq<usize>, src: Seq<Record>, a: Accessor)
    requires
        keys_ascend(rows, src, a),
    ensures
        forall|g: int|
            0 <= g < cut(rows, src, a).len() ==> (#[trigger] cut(rows, src, a)[g]).rows.len() > 0,
        forall|g: int, i: int|
            0 <= g < cut(rows, src, a).len() && 0 <= i < cut(rows, src, a)[g].rows.len()
                ==> group_key(#[trigger] cut(rows, src, a)[g].rows[i], src, a) == cut(
                rows,
                src,
                a,
            )[g].key,
        forall|g: int, h: int|
            0 <= g < h < cut(rows, src, a).len() ==> key_lt(
                (#[trigger] cut(rows, src, a)[g]).key,
                (#[trigger] cut(rows, src, a)[h]).key,
            ),
        rows.len() > 0 ==> cut(rows, src, a).len() > 0 && cut(rows, src, a).last().key
            == group_key(rows.last(), src, a),
    decreases rows.len(),
{
    if rows.len() > 0 {
        let rest = rows.drop_last();
        let before = cut(rest, src, a);
        let row = rows.last();
        let key = group_key(row, src, a);
        let now = cut(rows, src, a);
        assert forall|i: int, j: int| 0 <= i < j < rest.len() implies !key_lt(
            group_key(rest[j], src, a),
            group_key(rest[i], src, a),
        ) by {
            assert(rest[i] == rows[i] && rest[j] == rows[j]);
        }
        lemma_cut_by_key(rest, src, a);
        if before.len() > 0 && before.last().key == key {
            assert forall|g: int, h: int| 0 <= g < h < now.len() implies key_lt(
                (#[trigger] now[g]).key,
                (#[trigger] now[h]).key,
            ) by {
                assert(now[g] == before[g]);
                assert(now[h].key == before[h].key);
            }
            assert forall|g: int, i: int|
                0 <= g < now.len() && 0 <= i < now[g].rows.len() implies group_key(
                #[trigger] now[g].rows[i],
                src,
                a,
            ) == now[g].key by {
                if g < now.len() - 1 {
                    assert(now[g] == before[g]);
                } else if i < before.last().rows.len() {
                    assert(now[g].rows[i] == before.last().rows[i]);
                }
            }
        } else {
            assert forall|g: int, h: int| 0 <= g < h < now.len() implies key_lt(
                (#[trigger] now[g]).key,
                (#[trigger] now[h]).key,
            ) by {
                assert(now[g] == before[g]);
                if h < now.len() - 1 {
                    assert(now[h] == before[h]);
                } else {
                    assert(rest.len() > 0);
                    assert(before.last().key == group_key(rest.last(), src, a));
                    assert(rest.last() == rows[rest.len() - 1]);
                    assert(!key_lt(key, before.last().key));
                    if g < before.len() - 1 {
                        assert(key_lt(before[g].key, before[before.len() - 1].key));
                    }
                    assert(before.last().key.tag != key.tag || before.last().key.num != key.num);
                }
            }
            assert forall|g: int, i: int|
                0 <= g < now.len() && 0 <= i < now[g].rows.len() implies group_key(
                #[trigger] now[g].rows[i],
                src,
                a,
            ) == now[g].key by {
                if g < now.len() - 1 {
                    assert(now[g] == before[g]);
                }
            }
        }
        assert forall|g: int| 0 <= g < now.len() implies (#[trigger] now[g]).rows.len() > 0 by {
            if g < now.len() - 1 {
                assert(now[g] == before[g]);
            }
        }
    }
}

/// Grouping partitions by exact key: no group is empty, every record of a
/// group has the group's key, and the groups come in strictly ascending order
/// of their keys, so no two groups share a key.
pub proof fn lemma_groups_partition(rows: Seq<usize>, src: Seq<Record>, a: Accessor)
    requires
        rows.len() <= usize::MAX,
    ensures
        forall|g: int|
            0 <= g < group(rows, src, a).len() ==> (#[trigger] group(rows, src, a)[g]).rows.len()
                > 0,
        forall|g: int, i: int|
            0 <= g < group(rows, src, a).len() && 0 <= i < group(rows, src, a)[g].rows.len()
                ==> group_key(#[trigger] group(rows, src, a)[g].rows[i], src, a) == group(
                rows,
                src,
                a,
            )[g].key,
        forall|g: int, h: int|
            0 <= g < h < group(rows, src, a).len() ==> key_lt(
                (#[trigger] group(rows, src, a)[g]).key,
                (#[trigger] group(rows, src, a)[h]).key,
            ),
{
    let dir = Direction::Ascending;
    let keys = row_keys(rows, src, a, dir);
    let ord = stable_order(keys);
    let s = arrange(rows, src, a, dir);
    lemma_stable_order(keys);
    assert forall|i: int, j: int| 0 <= i < j < s.len() implies !key_lt(
        group_key(s[j], src, a),
        group_key(s[i], src, a),
    ) by {
        assert(s[i] == rows[ord[i] as int]);
        assert(s[j] == rows[ord[j] as int]);
        assert(keys[ord[i] as int] == group_key(s[i], src, a));
        assert(keys[ord[j] as int] == group_key(s[j], src, a));
    }
    lemma_cut_by_key(s, src, a);
}

/// A ratio over an empty collection is not applicable, and no threshold on it
/// holds, whatever the threshold is.
pub proof fn lemma_ratio_of_nothing(sub: SourceView, whole: SourceView, r: Record, t: ValueView)
    requires
        count(whole, r) == 0,
    ensures
        value_of(ExprView::Ratio(sub, whole), r) == ValueView::NotApplicable,
        !holds(PredicateView::AtLeast(ExprView::Ratio(sub, whole), t), r),
        !holds(PredicateView::MoreThan(ExprView::Ratio(sub, whole), t), r),
        !holds(PredicateView::LessThan(ExprView::Ratio(sub, whole), t), r),
        !holds(PredicateView::Equal(ExprView::Ratio(sub, whole), t), r),
{
}

} // verus!
