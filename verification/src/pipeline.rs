//! Pipelines: ordered lists of stages, validated as a whole before any record
//! is looked at, then applied from left to right.

use crate::collection::{
    all_rows, every_row, filtered, group_issue, grouped, project_issue, projected, sampled,
    sort_issue, sorted, ungrouped, value_views, Collection, ShapeView,
};
use crate::predicate::{predicate_issue, Issue, Predicate, PredicateView};
use crate::record::{Accessor, Kind, Record};
use crate::sample::SampleSpec;
use crate::stage::Direction;
use crate::value::Value;
use vstd::prelude::*;

verus! {

/// One step of a pipeline.
#[derive(Debug)]
pub enum Stage {
    FilterBy(Predicate),
    SortBy(Accessor, Direction),
    Sample(SampleSpec),
    GroupBy(Accessor),
    Ungroup,
    /// Projects each record to one field. Nothing can follow it.
    MapInto(Accessor),
}

/// The mathematical content of a [`Stage`].
pub enum StageView {
    FilterBy(PredicateView),
    SortBy(Accessor, Direction),
    Sample(SampleSpec),
    GroupBy(Accessor),
    Ungroup,
    MapInto(Accessor),
}

impl View for Stage {
    type V = StageView;

    open spec fn view(&self) -> StageView {
        match self {
            Stage::FilterBy(p) => StageView::FilterBy(p@),
            Stage::SortBy(a, d) => StageView::SortBy(*a, *d),
            Stage::Sample(s) => StageView::Sample(*s),
            Stage::GroupBy(a) => StageView::GroupBy(*a),
            Stage::Ungroup => StageView::Ungroup,
            Stage::MapInto(a) => StageView::MapInto(*a),
        }
    }
}

/// The contents of a list of stages.
pub open spec fn stage_views(stages: Seq<Stage>) -> Seq<StageView> {
    Seq::new(stages.len(), |i: int| stages[i]@)
}

/// What is wrong with a stage applied to records of kind `kind` in a
/// collection that is grouped or not, if anything.
pub open spec fn stage_issue(s: StageView, kind: Kind, is_grouped: bool) -> Option<Issue> {
    match s {
        StageView::FilterBy(p) => predicate_issue(p, kind),
        StageView::SortBy(a, _) => sort_issue(a, kind),
        StageView::Sample(_) => None,
        StageView::GroupBy(a) => group_issue(a, kind, is_grouped),
        StageView::Ungroup => if is_grouped {
            None
        } else {
            Some(Issue::NotGrouped)
        },
        StageView::MapInto(a) => project_issue(a, kind, is_grouped),
    }
}

/// Whether the collection is grouped after a stage.
pub open spec fn grouped_after(s: StageView, is_grouped: bool) -> bool {
    match s {
        StageView::GroupBy(_) => true,
        StageView::Ungroup => false,
        _ => is_grouped,
    }
}

/// Whether the collection is grouped after the first `i` stages.
pub open spec fn grouped_upto(stages: Seq<StageView>, i: int) -> bool
    decreases i,
{
    if i <= 0 {
        false
    } else {
        grouped_after(stages[i - 1], grouped_upto(stages, i - 1))
    }
}

/// Whether the collection is grouped after all the stages.
pub open spec fn ends_grouped(stages: Seq<StageView>) -> bool {
    grouped_upto(stages, stages.len() as int)
}

/// The shape after a stage. A projection leaves the rows as they are.
pub open spec fn apply(s: StageView, src: Seq<Record>, shape: ShapeView) -> ShapeView {
    match s {
        StageView::FilterBy(p) => filtered(shape, src, p),
        StageView::SortBy(a, d) => sorted(shape, src, a, d),
        StageView::Sample(spec) => sampled(shape, spec),
        StageView::GroupBy(a) => grouped(shape, src, a),
        StageView::Ungroup => ungrouped(shape),
        StageView::MapInto(_) => shape,
    }
}

/// A configuration error: the stage at fault, counted from zero, and what is
/// wrong with it.
#[derive(Clone, Copy, Debug, PartialEq, Eq, Structural)]
pub struct ConfigError {
    pub stage: usize,
    pub issue: Issue,
}

/// The first configuration error among the stages from `at` on, if any, for a
/// collection that is grouped or not, and projected or not, before stage `at`.
pub open spec fn pipeline_issue(
    stages: Seq<StageView>,
    kind: Kind,
    at: int,
    is_grouped: bool,
    is_projected: bool,
) -> Option<ConfigError>
    decreases stages.len() - at,
{
    if at < 0 || at >= stages.len() {
        None
    } else if is_projected {
        Some(ConfigError { stage: at as usize, issue: Issue::AfterProjection })
    } else {
        match stage_issue(stages[at], kind, is_grouped) {
            Some(issue) => Some(ConfigError { stage: at as usize, issue }),
            None => pipeline_issue(
                stages,
                kind,
                at + 1,
                grouped_after(stages[at], is_grouped),
                stages[at] is MapInto,
            ),
        }
    }
}

/// The shape after the stages from `at` on.
pub open spec fn run_from(stages: Seq<StageView>, src: Seq<Record>, shape: ShapeView, at: int) -> ShapeView
    decreases stages.len() - at,
{
    if at < 0 || at >= stages.len() {
        shape
    } else {
        run_from(stages, src, apply(stages[at], src, shape), at + 1)
    }
}

/// The shape that the stages give when run on all the records of a corpus.
pub open spec fn final_shape(stages: Seq<StageView>, src: Seq<Record>) -> ShapeView {
    run_from(stages, src, ShapeView::Flat(every_row(src.len())), 0)
}

/// The field that the pipeline projects to, where it ends in a projection.
pub open spec fn projection(stages: Seq<StageView>) -> Option<Accessor> {
    if stages.len() > 0 {
        match stages.last() {
            StageView::MapInto(a) => Some(a),
            _ => None,
        }
    } else {
        None
    }
}

/// What a pipeline gives: the collection it ends with, or the values it
/// projected the records to.
#[derive(Debug)]
pub enum Outcome {
    Records(Collection),
    Values(Vec<Value>),
}

/// Whether `out` is what the stages give on a corpus of records of kind
/// `kind`.
pub open spec fn is_outcome(out: Outcome, stages: Seq<StageView>, kind: Kind, src: Seq<Record>) -> bool {
    match out {
        Outcome::Records(c) => projection(stages).is_none() && c.of_kind() == kind && c.records()
            == src && c.layout() == final_shape(stages, src),
        Outcome::Values(values) => projection(stages) matches Some(a) && value_views(values@)
            == projected(all_rows(final_shape(stages, src)), src, a),
    }
}

/// An ordered list of stages over records of one kind.
#[derive(Debug)]
pub struct Pipeline {
    pub kind: Kind,
    pub stages: Vec<Stage>,
}

impl Pipeline {
    /// The stages of this pipeline as mathematical values.
    pub open spec fn steps(self) -> Seq<StageView> {
        stage_views(self.stages@)
    }

    /// The first configuration error of this pipeline, if any.
    pub open spec fn issue(self) -> Option<ConfigError> {
        pipeline_issue(self.steps(), self.kind, 0, false, false)
    }

    /// The pipeline without stages over records of kind `kind`.
    pub fn over(kind: Kind) -> (p: Pipeline)
        ensures
            p.kind == kind,
            p.steps() == Seq::<StageView>::empty(),
    {
        let p = Pipeline { kind, stages: Vec::new() };
        assert(p.steps() =~= Seq::<StageView>::empty());
        p
    }

    /// This pipeline with one more stage at its end.
    pub fn with_stage(self, stage: Stage) -> (p: Pipeline)
        ensures
            p.kind == self.kind,
            p.steps() == self.steps().push(stage@),
    {
        let mut p = self;
        p.stages.push(stage);
        assert(p.steps() =~= self.steps().push(stage@));
        p
    }

    /// This pipeline followed by a filter.
    pub fn filter_by(self, p: Predicate) -> (out: Pipeline)
        ensures
            out.kind == self.kind,
            out.steps() == self.steps().push(StageView::FilterBy(p@)),
    {
        self.with_stage(Stage::FilterBy(p))
    }

    /// This pipeline followed by an ascending sort.
    pub fn sort_by(self, a: Accessor) -> (out: Pipeline)
        ensures
            out.kind == self.kind,
            out.steps() == self.steps().push(StageView::SortBy(a, Direction::Ascending)),
    {
        self.with_stage(Stage::SortBy(a, Direction::Ascending))
    }

    /// This pipeline followed by a sort in the given direction.
    pub fn sort_by_in(self, a: Accessor, dir: Direction) -> (out: Pipeline)
        ensures
            out.kind == self.kind,
            out.steps() == self.steps().push(StageView::SortBy(a, dir)),
    {
        self.with_stage(Stage::SortBy(a, dir))
    }

    /// This pipeline followed by a sample.
    pub fn sample(self, spec: SampleSpec) -> (out: Pipeline)
        ensures
            out.kind == self.kind,
            out.steps() == self.steps().push(StageView::Sample(spec)),
    {
        self.with_stage(Stage::Sample(spec))
    }

    /// This pipeline followed by a grouping.
    pub fn group_by(self, a: Accessor) -> (out: Pipeline)
        ensures
            out.kind == self.kind,
            out.steps() == self.steps().push(StageView::GroupBy(a)),
    {
        self.with_stage(Stage::GroupBy(a))
    }

    /// This pipeline followed by an ungrouping.
    pub fn ungroup(self) -> (out: Pipeline)
        ensures
            out.kind == self.kind,
            out.steps() == self.steps().push(StageView::Ungroup),
    {
        self.with_stage(Stage::Ungroup)
    }

    /// This pipeline followed by a projection.
    pub fn map_into(self, a: Accessor) -> (out: Pipeline)
        ensures
            out.kind == self.kind,
            out.steps() == self.steps().push(StageView::MapInto(a)),
    {
        self.with_stage(Stage::MapInto(a))
    }

    /// Whether the pipeline leaves its collection grouped.
    pub fn leaves_groups(&self) -> (b: bool)
        ensures
            b == ends_grouped(self.steps()),
    {
        let mut is_grouped = false;
        let mut i: usize = 0;
        while i < self.stages.len()
            invariant
                i <= self.stages.len(),
                is_grouped == grouped_upto(self.steps(), i as int),
            decreases self.stages.len() - i,
        {
            match &self.stages[i] {
                Stage::GroupBy(_) => {
                    is_grouped = true;
                },
                Stage::Ungroup => {
                    is_grouped = false;
                },
                _ => {},
            }
            i += 1;
        }
        is_grouped
    }

    /// Validates every stage, and the order of the stages, without looking at
    /// any record. Names the first stage at fault.
    pub fn check(&self) -> (e: Option<ConfigError>)
        ensures
            e == self.issue(),
    {
        let mut is_grouped = false;
        let mut i: usize = 0;
        while i < self.stages.len()
            invariant
                i <= self.stages.len(),
                self.issue() == pipeline_issue(self.steps(), self.kind, i as int, is_grouped, false),
            decreases self.stages.len() - i,
        {
            let found = match &self.stages[i] {
                Stage::FilterBy(p) => p.check(self.kind),
                Stage::SortBy(a, _) => crate::collection::check_sort(*a, self.kind),
                Stage::Sample(_) => None,
                Stage::GroupBy(a) => crate::collection::check_group(*a, self.kind, is_grouped),
                Stage::Ungroup => if is_grouped {
                    None
                } else {
                    Some(Issue::NotGrouped)
                },
                Stage::MapInto(a) => crate::collection::check_project(*a, self.kind, is_grouped),
            };
            assert(found == stage_issue(self.steps()[i as int], self.kind, is_grouped));
            match found {
                Some(issue) => {
                    return Some(ConfigError { stage: i, issue });
                },
                None => {},
            }
            match &self.stages[i] {
                Stage::GroupBy(_) => {
                    is_grouped = true;
                },
                Stage::Ungroup => {
                    is_grouped = false;
                },
                Stage::MapInto(_) => {
                    if i + 1 < self.stages.len() {
                        return Some(ConfigError { stage: i + 1, issue: Issue::AfterProjection });
                    } else {
                        assert(pipeline_issue(
                            self.steps(),
                            self.kind,
                            i + 1,
                            grouped_after(self.steps()[i as int], is_grouped),
                            true,
                        ).is_none());
                        return None;
                    }
                },
                _ => {},
            }
            i += 1;
        }
        None
    }

    /// Runs the pipeline on the records of a corpus. A pipeline with a
    /// configuration error fails before any record is looked at.
    pub fn run(&self, records: Vec<Record>) -> (res: Result<Outcome, ConfigError>)
        ensures
            match self.issue() {
                Some(e) => res == Err::<Outcome, ConfigError>(e),
                None => res matches Ok(out) && is_outcome(out, self.steps(), self.kind, records@),
            },
    {
        match self.check() {
            Some(e) => {
                return Err(e);
            },
            None => {},
        }
        let ghost start = ShapeView::Flat(every_row(records@.len()));
        let mut current = Collection::new(self.kind, records);
        let mut i: usize = 0;
        while i < self.stages.len()
            invariant
                i <= self.stages.len(),
                current.of_kind() == self.kind,
                current.records() == records@,
                pipeline_issue(
                    self.steps(),
                    self.kind,
                    i as int,
                    current.layout() is Grouped,
                    i > 0 && self.steps()[i - 1] is MapInto,
                ).is_none(),
                final_shape(self.steps(), records@) == run_from(
                    self.steps(),
                    records@,
                    current.layout(),
                    i as int,
                ),
                i > 0 && self.steps()[i - 1] is MapInto ==> project_issue(
                    self.steps()[i - 1]->MapInto_0,
                    self.kind,
                    current.layout() is Grouped,
                ).is_none(),
            decreases self.stages.len() - i,
        {
            match advance(current, &self.stages[i]) {
                Ok(c) => {
                    current = c;
                },
                Err(issue) => {
                    return Err(ConfigError { stage: i, issue });
                },
            }
            i += 1;
        }
        finish(current, &self.stages)
    }
}

/// Applies one stage to a collection. A projection leaves it as it is.
pub fn advance(current: Collection, stage: &Stage) -> (res: Result<Collection, Issue>)
    ensures
        match stage_issue(stage@, current.of_kind(), current.layout() is Grouped) {
            Some(issue) => res == Err::<Collection, Issue>(issue),
            None => res matches Ok(c) && c.of_kind() == current.of_kind() && c.records()
                == current.records() && c.layout() == apply(
                stage@,
                current.records(),
                current.layout(),
            ) && (c.layout() is Grouped) == grouped_after(stage@, current.layout() is Grouped),
        },
{
    match stage {
        Stage::FilterBy(p) => current.filter_by(p),
        Stage::SortBy(a, d) => current.sort_by(*a, *d),
        Stage::Sample(spec) => Ok(current.sample(*spec)),
        Stage::GroupBy(a) => current.group_by(*a),
        Stage::Ungroup => current.ungroup(),
        Stage::MapInto(a) => {
            match crate::collection::check_project(*a, current.kind(), current.is_grouped()) {
                Some(issue) => Err(issue),
                None => Ok(current),
            }
        },
    }
}

/// Turns the collection that the stages ended with into the outcome: the
/// projected values where the last stage is a projection, else the collection.
fn finish(current: Collection, stages: &Vec<Stage>) -> (res: Result<Outcome, ConfigError>)
    requires
        stages.len() > 0 && stage_views(stages@).last() is MapInto ==> project_issue(
            stage_views(stages@).last()->MapInto_0,
            current.of_kind(),
            current.layout() is Grouped,
        ).is_none(),
    ensures
        res matches Ok(out) && match out {
            Outcome::Records(c) => projection(stage_views(stages@)).is_none() && c == current,
            Outcome::Values(values) => projection(stage_views(stages@)) matches Some(a)
                && value_views(values@) == projected(
                all_rows(current.layout()),
                current.records(),
                a,
            ),
        },
{
    let n = stages.len();
    if n > 0 {
        match &stages[n - 1] {
            Stage::MapInto(a) => {
                assert(stage_views(stages@).last() == StageView::MapInto(*a));
                match current.map_into(*a) {
                    Ok(values) => {
                        return Ok(Outcome::Values(values));
                    },
                    Err(issue) => {
                        proof {
                            assert(false);
                        }
                        return Err(ConfigError { stage: n, issue });
                    },
                }
            },
            _ => {
                assert(!(stage_views(stages@).last() is MapInto));
            },
        }
    }
    Ok(Outcome::Records(current))
}

} // verus!
