//! Sets of identifiers derived by one pipeline to gate another, and the
//! decisions of the cache that keeps such a set in a side file.

use crate::collection::{every_row, projected, value_views};
use crate::pipeline::{
    final_shape, pipeline_issue, run_from, ConfigError, Outcome, Pipeline, StageView,
};
use crate::predicate::{holds, read_field, Issue, Predicate, PredicateView};
use crate::record::{field_type, Accessor, Kind, Record};
use crate::laws::lemma_keep_contains;
use crate::stage::keep;
use crate::value::{Value, ValueType, ValueView};
use std::collections::HashSet;
use vstd::prelude::*;

verus! {

broadcast use vstd::std_specs::hash::group_hash_axioms;

/// The integers among a sequence of values, in order.
pub open spec fn integers(values: Seq<ValueView>) -> Seq<u64>
    decreases values.len(),
{
    if values.len() == 0 {
        Seq::empty()
    } else {
        match values.last() {
            ValueView::Integer(n) => integers(values.drop_last()).push(n),
            _ => integers(values.drop_last()),
        }
    }
}

/// The stages that derive a set: a filter, then a projection.
pub open spec fn derive_stages(p: PredicateView, a: Accessor) -> Seq<StageView> {
    seq![StageView::FilterBy(p), StageView::MapInto(a)]
}

/// What keeps a set from being derived, if anything: a configuration error of
/// the filter or of the projection, or a projection to a field that holds no
/// integers.
pub open spec fn derive_issue(p: PredicateView, a: Accessor, kind: Kind) -> Option<ConfigError> {
    match pipeline_issue(derive_stages(p, a), kind, 0, false, false) {
        Some(e) => Some(e),
        None => if field_type(a) != Some(ValueType::Integer) {
            Some(ConfigError { stage: 1, issue: Issue::TypeMismatch })
        } else {
            None
        },
    }
}

/// The identifiers derived from a corpus: field `a` of the records that
/// satisfy `p`, in the order of the records.
pub open spec fn derived(src: Seq<Record>, p: PredicateView, a: Accessor) -> Seq<u64> {
    integers(projected(keep(every_row(src.len()), src, p), src, a))
}

/// Picks the integers out of a list of values.
pub fn integers_of(values: &Vec<Value>) -> (out: Vec<u64>)
    ensures
        out@ == integers(value_views(values@)),
{
    let ghost all = value_views(values@);
    let mut out: Vec<u64> = Vec::new();
    let mut i: usize = 0;
    assert(all.take(0) =~= Seq::<ValueView>::empty());
    while i < values.len()
        invariant
            i <= values.len(),
            all == value_views(values@),
            out@ == integers(all.take(i as int)),
        decreases values.len() - i,
    {
        assert(all.take(i + 1).drop_last() =~= all.take(i as int));
        assert(all.take(i + 1).last() == values@[i as int]@);
        match &values[i] {
            Value::Integer(n) => {
                out.push(*n);
            },
            _ => {},
        }
        i += 1;
    }
    assert(all.take(i as int) =~= all);
    out
}

/// Derives identifiers from a corpus: filters the records by `p` and projects
/// those that remain to their integer field `a`. The set of the result gates
/// a later pipeline.
pub fn derive_set(kind: Kind, records: Vec<Record>, p: Predicate, a: Accessor) -> (res: Result<
    Vec<u64>,
    ConfigError,
>)
    ensures
        match derive_issue(p@, a, kind) {
            Some(e) => res == Err::<Vec<u64>, ConfigError>(e),
            None => res matches Ok(ids) && ids@ == derived(records@, p@, a),
        },
{
    let ghost view = p@;
    let pipeline = Pipeline::over(kind).filter_by(p).map_into(a);
    assert(pipeline.steps() =~= derive_stages(view, a));
    match pipeline.check() {
        Some(e) => {
            return Err(e);
        },
        None => {},
    }
    match a.value_type() {
        Some(ValueType::Integer) => {},
        _ => {
            return Err(ConfigError { stage: 1, issue: Issue::TypeMismatch });
        },
    }
    proof {
        reveal_with_fuel(run_from, 3);
        assert(final_shape(derive_stages(view, a), records@) == crate::collection::ShapeView::Flat(
            keep(every_row(records@.len()), records@, view),
        ));
    }
    match pipeline.run(records) {
        Ok(Outcome::Values(values)) => Ok(integers_of(&values)),
        Ok(Outcome::Records(_)) => {
            proof {
                assert(false);
            }
            Ok(Vec::new())
        },
        Err(e) => Err(e),
    }
}

/// The set of a list of identifiers.
pub fn id_set(ids: &Vec<u64>) -> (set: HashSet<u64>)
    ensures
        set@ == ids@.to_set(),
{
    let mut set: HashSet<u64> = HashSet::new();
    let mut i: usize = 0;
    assert(ids@.take(0).to_set() =~= Set::<u64>::empty());
    while i < ids.len()
        invariant
            i <= ids.len(),
            set@ == ids@.take(i as int).to_set(),
        decreases ids.len() - i,
    {
        set.insert(ids[i]);
        proof {
            let before = ids@.take(i as int);
            let now = ids@.take(i + 1);
            assert(now =~= before.push(ids@[i as int]));
            assert forall|x: u64| now.to_set().contains(x) <==> before.to_set().insert(
                ids@[i as int],
            ).contains(x) by {
                if now.contains(x) {
                    let k = choose|k: int| 0 <= k < now.len() && now[k] == x;
                    if k < before.len() {
                        assert(before[k] == x);
                    }
                }
                if before.contains(x) {
                    let k = choose|k: int| 0 <= k < before.len() && before[k] == x;
                    assert(now[k] == x);
                }
                assert(now[i as int] == ids@[i as int]);
            }
            assert(now.to_set() =~= before.to_set().insert(ids@[i as int]));
        }
        i += 1;
    }
    assert(ids@.take(i as int) =~= ids@);
    set
}

/// An integer is among the integers of a sequence of values exactly where the
/// sequence holds it.
pub proof fn lemma_integers_contains(values: Seq<ValueView>, x: u64)
    ensures
        integers(values).contains(x) <==> values.contains(ValueView::Integer(x)),
    decreases values.len(),
{
    if values.len() > 0 {
        let rest = values.drop_last();
        lemma_integers_contains(rest, x);
        let v = ValueView::Integer(x);
        if values.contains(v) {
            let k = choose|k: int| 0 <= k < values.len() && values[k] == v;
            if k < rest.len() {
                assert(rest[k] == v);
            }
        }
        if rest.contains(v) {
            let k = choose|k: int| 0 <= k < rest.len() && rest[k] == v;
            assert(values[k] == v);
        }
        assert(values[values.len() - 1] == values.last());
        match values.last() {
            ValueView::Integer(n) => {
                let got = integers(rest);
                let now = got.push(n);
                if now.contains(x) {
                    let k = choose|k: int| 0 <= k < now.len() && now[k] == x;
                    if k < got.len() {
                        assert(got[k] == x);
                    }
                }
                if got.contains(x) {
                    let k = choose|k: int| 0 <= k < got.len() && got[k] == x;
                    assert(now[k] == x);
                }
                assert(now[now.len() - 1] == n);
            },
            _ => {},
        }
    }
}

/// The derived set holds exactly the identifiers that some record satisfying
/// the predicate has in the projected field.
pub proof fn lemma_derived_set(src: Seq<Record>, p: PredicateView, a: Accessor, x: u64)
    requires
        src.len() <= usize::MAX,
    ensures
        derived(src, p, a).to_set().contains(x) <==> (exists|i: int|
            0 <= i < src.len() && holds(p, #[trigger] src[i]) && read_field(src[i], a)
                == ValueView::Integer(x)),
{
    let all = every_row(src.len());
    let rows = keep(all, src, p);
    let values = projected(rows, src, a);
    lemma_integers_contains(values, x);
    if values.contains(ValueView::Integer(x)) {
        let k = choose|k: int| 0 <= k < values.len() && values[k] == ValueView::Integer(x);
        let row = rows[k];
        assert(rows.contains(row));
        lemma_keep_contains(all, src, p, row);
        let j = choose|j: int| 0 <= j < all.len() && all[j] == row;
        assert(holds(p, src[j]) && read_field(src[j], a) == ValueView::Integer(x));
    }
    if exists|i: int|
        0 <= i < src.len() && holds(p, #[trigger] src[i]) && read_field(src[i], a)
            == ValueView::Integer(x) {
        let i = choose|i: int|
            0 <= i < src.len() && holds(p, #[trigger] src[i]) && read_field(src[i], a)
                == ValueView::Integer(x);
        let row = i as usize;
        assert(all[i] == row);
        assert(all.contains(row));
        lemma_keep_contains(all, src, p, row);
        let k = choose|k: int| 0 <= k < rows.len() && rows[k] == row;
        assert(values[k] == ValueView::Integer(x));
    }
}

/// Where the cache of a derived set stands.
#[derive(Clone, Copy, Debug, PartialEq, Eq, Structural)]
pub enum CacheState {
    /// Nothing is known of the side file yet.
    Unprobed,
    /// There is no side file: the set has to be computed and written.
    Missing,
    /// The side file is there and has to be read.
    Present,
    /// The set has been read.
    Loaded,
}

/// What the surroundings report to the cache.
#[derive(Clone, Copy, Debug, PartialEq, Eq, Structural)]
pub enum CacheEvent {
    /// Whether the side file exists.
    Probed(bool),
    /// The set was computed and the side file written.
    Written,
    /// The side file was read.
    Read,
}

/// What the cache asks its surroundings to do next.
#[derive(Clone, Copy, Debug, PartialEq, Eq, Structural)]
pub enum CacheAction {
    /// Compute the set and write the side file.
    ComputeAndWrite,
    /// Read the side file.
    ReadBack,
    /// Go on with the set that was read.
    Proceed,
    /// The event does not fit the state: stop.
    Halt,
}

/// The next state and action of the cache. Only the existence of the side
/// file decides between reading and computing; what the file holds is never
/// looked at to decide.
pub open spec fn cache_step(state: CacheState, event: CacheEvent) -> (CacheState, CacheAction) {
    match (state, event) {
        (CacheState::Unprobed, CacheEvent::Probed(true)) => (
            CacheState::Present,
            CacheAction::ReadBack,
        ),
        (CacheState::Unprobed, CacheEvent::Probed(false)) => (
            CacheState::Missing,
            CacheAction::ComputeAndWrite,
        ),
        (CacheState::Missing, CacheEvent::Written) => (CacheState::Present, CacheAction::ReadBack),
        (CacheState::Present, CacheEvent::Read) => (CacheState::Loaded, CacheAction::Proceed),
        _ => (state, CacheAction::Halt),
    }
}

/// Decides what the cache does on an event.
pub fn cache_next(state: CacheState, event: CacheEvent) -> (next: (CacheState, CacheAction))
    ensures
        next == cache_step(state, event),
{
    match (state, event) {
        (CacheState::Unprobed, CacheEvent::Probed(true)) => (
            CacheState::Present,
            CacheAction::ReadBack,
        ),
        (CacheState::Unprobed, CacheEvent::Probed(false)) => (
            CacheState::Missing,
            CacheAction::ComputeAndWrite,
        ),
        (CacheState::Missing, CacheEvent::Written) => (CacheState::Present, CacheAction::ReadBack),
        (CacheState::Present, CacheEvent::Read) => (CacheState::Loaded, CacheAction::Proceed),
        _ => (state, CacheAction::Halt),
    }
}

} // verus!
