//! Exporting what a pipeline gives as a table.
//!
//! The columns of a table of records are the identifier and then the fields
//! that the stages of the pipeline refer to, each once, in the order in which
//! the pipeline first names them. Fields named inside a filter on a nested
//! collection belong to the nested records and are no columns.

use crate::collection::{all_rows, projected};
use crate::export::{column, table, write_column, write_table};
use crate::pipeline::{
    ends_grouped, final_shape, projection, ConfigError, Outcome, Pipeline, Stage, StageView,
};
use crate::predicate::{Expr, ExprView, Issue, Predicate, PredicateView};
use crate::record::{Accessor, Kind, Name, Record};
use vstd::prelude::*;

verus! {

/// The field an expression reads, if it reads one.
pub open spec fn expr_fields(e: ExprView) -> Seq<Accessor> {
    match e {
        ExprView::Field(a) => seq![a],
        _ => Seq::empty(),
    }
}

/// The fields a predicate reads from the records it filters, in reading
/// order.
pub open spec fn predicate_fields(p: PredicateView) -> Seq<Accessor>
    decreases p,
{
    match p {
        PredicateView::Equal(e, _) => expr_fields(e),
        PredicateView::AtLeast(e, _) => expr_fields(e),
        PredicateView::MoreThan(e, _) => expr_fields(e),
        PredicateView::LessThan(e, _) => expr_fields(e),
        PredicateView::Matches(a, _) => seq![a],
        PredicateView::Contains(a, _) => seq![a],
        PredicateView::Member(e, _) => expr_fields(e),
        PredicateView::AnyIn(a, _) => seq![a],
        PredicateView::Holds(a) => seq![a],
        PredicateView::Or(x, y) => predicate_fields(*x) + predicate_fields(*y),
    }
}

/// The fields a stage refers to.
pub open spec fn stage_fields(s: StageView) -> Seq<Accessor> {
    match s {
        StageView::FilterBy(p) => predicate_fields(p),
        StageView::SortBy(a, _) => seq![a],
        StageView::GroupBy(a) => seq![a],
        _ => Seq::empty(),
    }
}

/// The fields the stages refer to, in order, with repetitions.
pub open spec fn referenced(stages: Seq<StageView>) -> Seq<Accessor>
    decreases stages.len(),
{
    if stages.len() == 0 {
        Seq::empty()
    } else {
        referenced(stages.drop_last()) + stage_fields(stages.last())
    }
}

/// The accessors of a sequence, each once, in the order of their first
/// occurrence.
pub open spec fn distinct(s: Seq<Accessor>) -> Seq<Accessor>
    decreases s.len(),
{
    if s.len() == 0 {
        Seq::empty()
    } else if distinct(s.drop_last()).contains(s.last()) {
        distinct(s.drop_last())
    } else {
        distinct(s.drop_last()).push(s.last())
    }
}

/// The columns of the table of a pipeline over records of kind `kind`.
pub open spec fn columns(stages: Seq<StageView>, kind: Kind) -> Seq<Accessor> {
    distinct(seq![Accessor { kind, name: Name::Id }] + referenced(stages))
}

fn collect_expr(e: &Expr, out: &mut Vec<Accessor>)
    ensures
        final(out)@ == old(out)@ + expr_fields(e@),
{
    match e {
        Expr::Field(a) => {
            out.push(*a);
            assert(final(out)@ =~= old(out)@ + seq![*a]);
        },
        _ => {
            assert(old(out)@ + Seq::<Accessor>::empty() =~= old(out)@);
        },
    }
}

fn collect_predicate(p: &Predicate, out: &mut Vec<Accessor>)
    ensures
        final(out)@ == old(out)@ + predicate_fields(p@),
    decreases p,
{
    match p {
        Predicate::Equal(e, _) => collect_expr(e, out),
        Predicate::AtLeast(e, _) => collect_expr(e, out),
        Predicate::MoreThan(e, _) => collect_expr(e, out),
        Predicate::LessThan(e, _) => collect_expr(e, out),
        Predicate::Member(e, _) => collect_expr(e, out),
        Predicate::Matches(a, _) => {
            out.push(*a);
            assert(final(out)@ =~= old(out)@ + seq![*a]);
        },
        Predicate::Contains(a, _) => {
            out.push(*a);
            assert(final(out)@ =~= old(out)@ + seq![*a]);
        },
        Predicate::AnyIn(a, _) => {
            out.push(*a);
            assert(final(out)@ =~= old(out)@ + seq![*a]);
        },
        Predicate::Holds(a) => {
            out.push(*a);
            assert(final(out)@ =~= old(out)@ + seq![*a]);
        },
        Predicate::Or(x, y) => {
            collect_predicate(x, out);
            collect_predicate(y, out);
            assert(final(out)@ =~= old(out)@ + (predicate_fields(x@) + predicate_fields(y@)));
        },
    }
}

fn collect_stage(s: &Stage, out: &mut Vec<Accessor>)
    ensures
        final(out)@ == old(out)@ + stage_fields(s@),
{
    match s {
        Stage::FilterBy(p) => collect_predicate(p, out),
        Stage::SortBy(a, _) => {
            out.push(*a);
            assert(final(out)@ =~= old(out)@ + seq![*a]);
        },
        Stage::GroupBy(a) => {
            out.push(*a);
            assert(final(out)@ =~= old(out)@ + seq![*a]);
        },
        _ => {
            assert(old(out)@ + Seq::<Accessor>::empty() =~= old(out)@);
        },
    }
}

fn holds_accessor(v: &Vec<Accessor>, a: Accessor) -> (b: bool)
    ensures
        b == v@.contains(a),
{
    let mut i: usize = 0;
    while i < v.len()
        invariant
            i <= v.len(),
            forall|k: int| 0 <= k < i ==> v@[k] != a,
        decreases v.len() - i,
    {
        if v[i] == a {
            return true;
        }
        i += 1;
    }
    false
}

fn distinct_of(v: &Vec<Accessor>) -> (out: Vec<Accessor>)
    ensures
        out@ == distinct(v@),
{
    let mut out: Vec<Accessor> = Vec::new();
    let mut i: usize = 0;
    assert(v@.take(0) =~= Seq::<Accessor>::empty());
    while i < v.len()
        invariant
            i <= v.len(),
            out@ == distinct(v@.take(i as int)),
        decreases v.len() - i,
    {
        assert(v@.take(i + 1).drop_last() =~= v@.take(i as int));
        if !holds_accessor(&out, v[i]) {
            out.push(v[i]);
        }
        i += 1;
    }
    assert(v@.take(i as int) =~= v@);
    out
}

/// The columns of the table of a pipeline.
pub fn columns_of(p: &Pipeline) -> (out: Vec<Accessor>)
    ensures
        out@ == columns(p.steps(), p.kind),
{
    let mut all: Vec<Accessor> = Vec::new();
    all.push(Accessor { kind: p.kind, name: Name::Id });
    let ghost head = all@;
    assert(head =~= seq![Accessor { kind: p.kind, name: Name::Id }]);
    let mut i: usize = 0;
    assert(p.steps().take(0) =~= Seq::<StageView>::empty());
    assert(head + referenced(p.steps().take(0)) =~= head);
    while i < p.stages.len()
        invariant
            i <= p.stages.len(),
            all@ == head + referenced(p.steps().take(i as int)),
        decreases p.stages.len() - i,
    {
        assert(p.steps().take(i + 1).drop_last() =~= p.steps().take(i as int));
        assert(p.steps().take(i + 1).last() == p.stages@[i as int]@);
        let ghost before = referenced(p.steps().take(i as int));
        collect_stage(&p.stages[i], &mut all);
        assert(all@ =~= head + (before + stage_fields(p.stages@[i as int]@)));
        i += 1;
    }
    assert(p.steps().take(i as int) =~= p.steps());
    distinct_of(&all)
}

/// The configuration error that keeps a pipeline from being exported, if any:
/// the first error of the pipeline itself, or, for a pipeline that leaves its
/// collection grouped, the missing ungrouping after its last stage.
pub open spec fn export_issue(stages: Seq<StageView>, kind: Kind) -> Option<ConfigError> {
    match crate::pipeline::pipeline_issue(stages, kind, 0, false, false) {
        Some(e) => Some(e),
        None => if ends_grouped(stages) {
            Some(ConfigError { stage: stages.len() as usize, issue: Issue::StillGrouped })
        } else {
            None
        },
    }
}

/// The table that a pipeline gives on a corpus: of the projected values where
/// it ends in a projection, of the selected records otherwise.
pub open spec fn export_text(stages: Seq<StageView>, kind: Kind, src: Seq<Record>) -> Seq<u8> {
    let rows = all_rows(final_shape(stages, src));
    match projection(stages) {
        Some(a) => column(a.name, projected(rows, src, a)),
        None => table(rows, src, columns(stages, kind)),
    }
}

/// Runs a pipeline on the records of a corpus and writes the result as a
/// table. A configuration error, or a pipeline that would leave the
/// collection grouped, is reported before any record is looked at, and no
/// text is produced.
pub fn export(p: &Pipeline, records: Vec<Record>) -> (res: Result<Vec<u8>, ConfigError>)
    ensures
        match export_issue(p.steps(), p.kind) {
            Some(e) => res == Err::<Vec<u8>, ConfigError>(e),
            None => res matches Ok(text) && text@ == export_text(p.steps(), p.kind, records@),
        },
{
    match p.check() {
        Some(e) => {
            return Err(e);
        },
        None => {},
    }
    if p.leaves_groups() {
        return Err(ConfigError { stage: p.stages.len(), issue: Issue::StillGrouped });
    }
    let columns = columns_of(p);
    match p.run(records) {
        Ok(Outcome::Records(c)) => Ok(write_table(&c, &columns)),
        Ok(Outcome::Values(values)) => {
            let n = p.stages.len();
            match &p.stages[n - 1] {
                Stage::MapInto(a) => Ok(write_column(a.name, &values)),
                _ => {
                    proof {
                        assert(false);
                    }
                    Ok(Vec::new())
                },
            }
        },
        Err(e) => Err(e),
    }
}

} // verus!
