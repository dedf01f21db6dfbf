//! Collections under transformation and the stages that transform them.

use crate::predicate::{
    predicate_issue, read_field, read_of, Issue, Predicate, PredicateView,
};
use crate::record::{field_type, Accessor, Kind, Record};
use crate::sample::{sample, take_sample, SampleSpec};
use crate::stage::{
    arrange, arrange_each, arrange_groups, arrange_rows, copy_rows, group, group_rows,
    group_views, groups_fit, join, join_rows, keep, keep_each, keep_groups, keep_rows,
    lemma_join_fits, lemma_sample_fits, rows_fit, sample_each, sample_groups, Direction, Group,
    GroupView,
};
use crate::value::{is_keyed, is_ordered, Value, ValueView};
use vstd::prelude::*;

verus! {

/// The rows of a collection: flat, or partitioned into groups.
#[derive(Debug)]
pub enum Shape {
    Flat(Vec<usize>),
    Grouped(Vec<Group>),
}

/// The mathematical content of a [`Shape`].
pub enum ShapeView {
    Flat(Seq<usize>),
    Grouped(Seq<GroupView>),
}

impl View for Shape {
    type V = ShapeView;

    open spec fn view(&self) -> ShapeView {
        match self {
            Shape::Flat(rows) => ShapeView::Flat(rows@),
            Shape::Grouped(groups) => ShapeView::Grouped(group_views(groups@)),
        }
    }
}

/// Whether every row of the shape is a position in a corpus of `n` records.
pub open spec fn shape_fits(shape: ShapeView, n: int) -> bool {
    match shape {
        ShapeView::Flat(rows) => rows_fit(rows, n),
        ShapeView::Grouped(groups) => groups_fit(groups, n),
    }
}

/// All rows of a shape in order: the groups of a grouped shape one after the
/// other.
pub open spec fn all_rows(shape: ShapeView) -> Seq<usize> {
    match shape {
        ShapeView::Flat(rows) => rows,
        ShapeView::Grouped(groups) => join(groups),
    }
}

/// The rows `0..n`.
pub open spec fn every_row(n: nat) -> Seq<usize> {
    Seq::new(n, |i: int| i as usize)
}

/// The shape after filtering by `p`: each group is filtered on its own.
pub open spec fn filtered(shape: ShapeView, src: Seq<Record>, p: PredicateView) -> ShapeView {
    match shape {
        ShapeView::Flat(rows) => ShapeView::Flat(keep(rows, src, p)),
        ShapeView::Grouped(groups) => ShapeView::Grouped(keep_each(groups, src, p)),
    }
}

/// The shape after sorting by `a`: each group is sorted on its own.
pub open spec fn sorted(shape: ShapeView, src: Seq<Record>, a: Accessor, dir: Direction) -> ShapeView {
    match shape {
        ShapeView::Flat(rows) => ShapeView::Flat(arrange(rows, src, a, dir)),
        ShapeView::Grouped(groups) => ShapeView::Grouped(arrange_each(groups, src, a, dir)),
    }
}

/// The shape after sampling: each group is sampled on its own, with its own
/// seed.
pub open spec fn sampled(shape: ShapeView, spec: SampleSpec) -> ShapeView {
    match shape {
        ShapeView::Flat(rows) => ShapeView::Flat(sample(rows, spec)),
        ShapeView::Grouped(groups) => ShapeView::Grouped(sample_each(groups, spec)),
    }
}

/// The size that a sample specification asks for.
pub open spec fn asked(spec: SampleSpec) -> int {
    match spec {
        SampleSpec::Top(k) => k as int,
        SampleSpec::Random(k, _) => k as int,
    }
}

/// Whether the shape holds enough records for a sample of the full size: in
/// a grouped shape, every group has to hold that many.
pub open spec fn suffices(shape: ShapeView, spec: SampleSpec) -> bool {
    match shape {
        ShapeView::Flat(rows) => rows.len() >= asked(spec),
        ShapeView::Grouped(groups) => every_group_has(groups, asked(spec)),
    }
}

/// Whether every group holds at least `k` rows.
pub open spec fn every_group_has(groups: Seq<GroupView>, k: int) -> bool {
    forall|g: int| 0 <= g < groups.len() ==> (#[trigger] groups[g]).rows.len() >= k
}

/// The shape after grouping a flat shape by `a`.
pub open spec fn grouped(shape: ShapeView, src: Seq<Record>, a: Accessor) -> ShapeView {
    match shape {
        ShapeView::Flat(rows) => ShapeView::Grouped(group(rows, src, a)),
        ShapeView::Grouped(groups) => shape,
    }
}

/// The shape after flattening a grouped shape.
pub open spec fn ungrouped(shape: ShapeView) -> ShapeView {
    ShapeView::Flat(all_rows(shape))
}

/// What is wrong with sorting records of kind `kind` by `a`, if anything.
pub open spec fn sort_issue(a: Accessor, kind: Kind) -> Option<Issue> {
    if a.kind != kind || field_type(a).is_none() {
        Some(Issue::UnknownAccessor)
    } else if !is_ordered(field_type(a).unwrap()) {
        Some(Issue::NotOrdered)
    } else {
        None
    }
}

/// What is wrong with grouping records of kind `kind` by `a`, if anything.
pub open spec fn group_issue(a: Accessor, kind: Kind, is_grouped: bool) -> Option<Issue> {
    if is_grouped {
        Some(Issue::AlreadyGrouped)
    } else if a.kind != kind || field_type(a).is_none() {
        Some(Issue::UnknownAccessor)
    } else if !is_keyed(field_type(a).unwrap()) {
        Some(Issue::NotKeyed)
    } else {
        None
    }
}

/// What is wrong with projecting records of kind `kind` to `a`, if anything.
pub open spec fn project_issue(a: Accessor, kind: Kind, is_grouped: bool) -> Option<Issue> {
    if is_grouped {
        Some(Issue::StillGrouped)
    } else if a.kind != kind || field_type(a).is_none() {
        Some(Issue::UnknownAccessor)
    } else {
        None
    }
}

/// The values of field `a` of the records at `rows`.
pub open spec fn projected(rows: Seq<usize>, src: Seq<Record>, a: Accessor) -> Seq<ValueView> {
    Seq::new(rows.len(), |i: int| read_field(src[rows[i] as int], a))
}

/// The identifiers of the records at `rows`.
pub open spec fn ids_of(rows: Seq<usize>, src: Seq<Record>) -> Seq<u64> {
    Seq::new(rows.len(), |i: int| src[rows[i] as int].id)
}

/// The contents of a list of values.
pub open spec fn value_views(values: Seq<Value>) -> Seq<ValueView> {
    Seq::new(values.len(), |i: int| values[i]@)
}

pub(crate) fn check_sort(a: Accessor, kind: Kind) -> (i: Option<Issue>)
    ensures
        i == sort_issue(a, kind),
{
    if a.kind != kind {
        return Some(Issue::UnknownAccessor);
    }
    match a.value_type() {
        None => Some(Issue::UnknownAccessor),
        Some(t) => if t.ordered() {
            None
        } else {
            Some(Issue::NotOrdered)
        },
    }
}

pub(crate) fn check_group(a: Accessor, kind: Kind, is_grouped: bool) -> (i: Option<Issue>)
    ensures
        i == group_issue(a, kind, is_grouped),
{
    if is_grouped {
        return Some(Issue::AlreadyGrouped);
    }
    if a.kind != kind {
        return Some(Issue::UnknownAccessor);
    }
    match a.value_type() {
        None => Some(Issue::UnknownAccessor),
        Some(t) => if t.keyed() {
            None
        } else {
            Some(Issue::NotKeyed)
        },
    }
}

pub(crate) fn check_project(a: Accessor, kind: Kind, is_grouped: bool) -> (i: Option<Issue>)
    ensures
        i == project_issue(a, kind, is_grouped),
{
    if is_grouped {
        return Some(Issue::StillGrouped);
    }
    if a.kind != kind {
        return Some(Issue::UnknownAccessor);
    }
    match a.value_type() {
        None => Some(Issue::UnknownAccessor),
        Some(_) => None,
    }
}

/// An ordered collection of records under transformation: the records of a
/// corpus, which never change, and the rows that are currently selected, flat
/// or grouped.
#[derive(Debug)]
pub struct Collection {
    kind: Kind,
    source: Vec<Record>,
    shape: Shape,
}

impl Collection {
    #[verifier::type_invariant]
    spec fn valid(self) -> bool {
        shape_fits(self.shape@, self.source@.len() as int)
    }

    /// The kind of record this collection is queried as.
    pub closed spec fn of_kind(self) -> Kind {
        self.kind
    }

    /// The records of the corpus.
    pub closed spec fn records(self) -> Seq<Record> {
        self.source@
    }

    /// The rows currently selected.
    pub closed spec fn layout(self) -> ShapeView {
        self.shape@
    }

    /// A flat collection of all the records, in the order given.
    pub fn new(kind: Kind, records: Vec<Record>) -> (c: Collection)
        ensures
            c.of_kind() == kind,
            c.records() == records@,
            c.layout() == ShapeView::Flat(every_row(records@.len())),
    {
        let mut rows: Vec<usize> = Vec::new();
        let mut i: usize = 0;
        while i < records.len()
            invariant
                i <= records.len(),
                rows.len() == i,
                forall|k: int| 0 <= k < i ==> rows@[k] == k,
            decreases records.len() - i,
        {
            rows.push(i);
            i += 1;
        }
        assert(rows@ =~= every_row(records@.len()));
        Collection { kind, source: records, shape: Shape::Flat(rows) }
    }

    /// The kind of record this collection is queried as.
    pub fn kind(&self) -> (k: Kind)
        ensures
            k == self.of_kind(),
    {
        self.kind
    }

    /// Whether the collection is grouped.
    pub fn is_grouped(&self) -> (b: bool)
        ensures
            b == (self.layout() is Grouped),
    {
        match &self.shape {
            Shape::Flat(_) => false,
            Shape::Grouped(_) => true,
        }
    }

    /// The number of groups of a grouped collection.
    pub fn group_count(&self) -> (n: Option<usize>)
        ensures
            match self.layout() {
                ShapeView::Flat(_) => n.is_none(),
                ShapeView::Grouped(groups) => n == Some(groups.len() as usize),
            },
    {
        match &self.shape {
            Shape::Flat(_) => None,
            Shape::Grouped(groups) => Some(groups.len()),
        }
    }

    /// The identifiers of the selected records in order, the groups of a
    /// grouped collection one after the other.
    pub fn ids(&self) -> (out: Vec<u64>)
        ensures
            out@ == ids_of(all_rows(self.layout()), self.records()),
    {
        proof {
            use_type_invariant(self);
        }
        let joined: Vec<usize>;
        let rows: &Vec<usize> = match &self.shape {
            Shape::Flat(rows) => rows,
            Shape::Grouped(groups) => {
                proof {
                    lemma_join_fits(group_views(groups@), self.source@.len() as int);
                }
                joined = join_rows(groups);
                &joined
            },
        };
        let mut out: Vec<u64> = Vec::new();
        let mut i: usize = 0;
        while i < rows.len()
            invariant
                i <= rows.len(),
                rows_fit(rows@, self.source@.len() as int),
                out.len() == i,
                forall|k: int| 0 <= k < i ==> out@[k] == self.source@[rows@[k] as int].id,
            decreases rows.len() - i,
        {
            out.push(self.source[rows[i]].id);
            i += 1;
        }
        assert(out@ =~= ids_of(rows@, self.source@));
        out
    }

    /// The selected rows in order, the groups of a grouped collection one
    /// after the other.
    pub fn rows(&self) -> (out: Vec<usize>)
        ensures
            out@ == all_rows(self.layout()),
            rows_fit(out@, self.records().len() as int),
    {
        proof {
            use_type_invariant(self);
        }
        match &self.shape {
            Shape::Flat(rows) => copy_rows(rows),
            Shape::Grouped(groups) => {
                proof {
                    lemma_join_fits(group_views(groups@), self.source@.len() as int);
                }
                join_rows(groups)
            },
        }
    }

    /// The number of records in the corpus.
    pub fn corpus_len(&self) -> (n: usize)
        ensures
            n == self.records().len(),
    {
        self.source.len()
    }

    /// The record at a row of the corpus.
    pub fn record(&self, row: usize) -> (r: &Record)
        requires
            row < self.records().len(),
        ensures
            *r == self.records()[row as int],
    {
        &self.source[row]
    }

    /// The number of selected records.
    pub fn len(&self) -> (n: usize)
        ensures
            n == all_rows(self.layout()).len(),
    {
        match &self.shape {
            Shape::Flat(rows) => rows.len(),
            Shape::Grouped(groups) => join_rows(groups).len(),
        }
    }

    /// Keeps the records that satisfy `p`, in their order; in a grouped
    /// collection, within each group. Fails, before looking at any record,
    /// where `p` does not fit the kind of the records.
    pub fn filter_by(self, p: &Predicate) -> (res: Result<Collection, Issue>)
        ensures
            match predicate_issue(p@, self.of_kind()) {
                Some(issue) => res == Err::<Collection, Issue>(issue),
                None => res matches Ok(c) && c.of_kind() == self.of_kind() && c.records()
                    == self.records() && c.layout() == filtered(
                    self.layout(),
                    self.records(),
                    p@,
                ),
            },
    {
        proof {
            use_type_invariant(&self);
        }
        match p.check(self.kind) {
            Some(issue) => Err(issue),
            None => {
                let shape = match &self.shape {
                    Shape::Flat(rows) => Shape::Flat(keep_rows(rows, &self.source, p)),
                    Shape::Grouped(groups) => Shape::Grouped(
                        keep_groups(groups, &self.source, p),
                    ),
                };
                Ok(Collection { kind: self.kind, source: self.source, shape })
            },
        }
    }

    /// Sorts the records by field `a`, stably: records of equal value keep
    /// their order, in either direction. Records without the field come first
    /// in ascending order. In a grouped collection each group is sorted.
    pub fn sort_by(self, a: Accessor, dir: Direction) -> (res: Result<Collection, Issue>)
        ensures
            match sort_issue(a, self.of_kind()) {
                Some(issue) => res == Err::<Collection, Issue>(issue),
                None => res matches Ok(c) && c.of_kind() == self.of_kind() && c.records()
                    == self.records() && c.layout() == sorted(
                    self.layout(),
                    self.records(),
                    a,
                    dir,
                ),
            },
    {
        proof {
            use_type_invariant(&self);
        }
        match check_sort(a, self.kind) {
            Some(issue) => Err(issue),
            None => {
                let shape = match &self.shape {
                    Shape::Flat(rows) => Shape::Flat(arrange_rows(rows, &self.source, a, dir)),
                    Shape::Grouped(groups) => Shape::Grouped(
                        arrange_groups(groups, &self.source, a, dir),
                    ),
                };
                Ok(Collection { kind: self.kind, source: self.source, shape })
            },
        }
    }

    /// Samples the records; in a grouped collection, each group on its own,
    /// a random sample with the seed of the specification mixed with the key
    /// of the group. Asking for more records than there are gives all of
    /// them.
    pub fn sample(self, spec: SampleSpec) -> (c: Collection)
        ensures
            c.of_kind() == self.of_kind(),
            c.records() == self.records(),
            c.layout() == sampled(self.layout(), spec),
    {
        proof {
            use_type_invariant(&self);
        }
        let shape = match &self.shape {
            Shape::Flat(rows) => {
                proof {
                    lemma_sample_fits(rows@, spec, self.source@.len() as int);
                }
                Shape::Flat(take_sample(copy_rows(rows), spec))
            },
            Shape::Grouped(groups) => Shape::Grouped(
                sample_groups(groups, spec, self.source.len()),
            ),
        };
        Collection { kind: self.kind, source: self.source, shape }
    }

    /// Whether the collection holds enough records for a sample of the full
    /// size.
    pub fn has_enough(&self, spec: SampleSpec) -> (b: bool)
        ensures
            b == suffices(self.layout(), spec),
    {
        let k = match spec {
            SampleSpec::Top(k) => k,
            SampleSpec::Random(k, _) => k,
        };
        match &self.shape {
            Shape::Flat(rows) => rows.len() >= k,
            Shape::Grouped(groups) => {
                let mut g: usize = 0;
                while g < groups.len()
                    invariant
                        g <= groups.len(),
                        k == asked(spec),
                        self.layout() == ShapeView::Grouped(group_views(groups@)),
                        forall|h: int|
                            0 <= h < g ==> (#[trigger] group_views(groups@)[h]).rows.len() >= k,
                    decreases groups.len() - g,
                {
                    if groups[g].rows.len() < k {
                        assert(group_views(groups@)[g as int].rows.len() < k);
                        return false;
                    }
                    g += 1;
                }
                true
            },
        }
    }

    /// Samples like [`Collection::sample`], but insists on the full size:
    /// fails where the collection, or one of its groups, holds fewer records
    /// than the specification asks for.
    pub fn sample_exactly(self, spec: SampleSpec) -> (res: Result<Collection, Issue>)
        ensures
            if suffices(self.layout(), spec) {
                res matches Ok(c) && c.of_kind() == self.of_kind() && c.records()
                    == self.records() && c.layout() == sampled(self.layout(), spec)
            } else {
                res == Err::<Collection, Issue>(Issue::TooFew)
            },
    {
        if self.has_enough(spec) {
            Ok(self.sample(spec))
        } else {
            Err(Issue::TooFew)
        }
    }

    /// Partitions a flat collection into groups by field `a`. The groups come
    /// in the order of their keys; the records of a group keep their order.
    pub fn group_by(self, a: Accessor) -> (res: Result<Collection, Issue>)
        ensures
            match group_issue(a, self.of_kind(), self.layout() is Grouped) {
                Some(issue) => res == Err::<Collection, Issue>(issue),
                None => res matches Ok(c) && c.of_kind() == self.of_kind() && c.records()
                    == self.records() && c.layout() == grouped(self.layout(), self.records(), a),
            },
    {
        proof {
            use_type_invariant(&self);
        }
        match check_group(a, self.kind, self.is_grouped()) {
            Some(issue) => Err(issue),
            None => {
                let shape = match &self.shape {
                    Shape::Flat(rows) => Shape::Grouped(group_rows(rows, &self.source, a)),
                    Shape::Grouped(_) => {
                        proof {
                            assert(false);
                        }
                        Shape::Flat(Vec::new())
                    },
                };
                Ok(Collection { kind: self.kind, source: self.source, shape })
            },
        }
    }

    /// Flattens a grouped collection: the groups one after the other, in the
    /// order of their keys.
    pub fn ungroup(self) -> (res: Result<Collection, Issue>)
        ensures
            match self.layout() {
                ShapeView::Flat(_) => res == Err::<Collection, Issue>(Issue::NotGrouped),
                ShapeView::Grouped(_) => res matches Ok(c) && c.of_kind() == self.of_kind()
                    && c.records() == self.records() && c.layout() == ungrouped(self.layout()),
            },
    {
        proof {
            use_type_invariant(&self);
        }
        let rows = match &self.shape {
            Shape::Flat(_) => {
                return Err(Issue::NotGrouped);
            },
            Shape::Grouped(groups) => {
                proof {
                    lemma_join_fits(group_views(groups@), self.source@.len() as int);
                }
                join_rows(groups)
            },
        };
        Ok(Collection { kind: self.kind, source: self.source, shape: Shape::Flat(rows) })
    }

    /// Projects each record of a flat collection to its field `a`.
    pub fn map_into(&self, a: Accessor) -> (res: Result<Vec<Value>, Issue>)
        ensures
            match project_issue(a, self.of_kind(), self.layout() is Grouped) {
                Some(issue) => res == Err::<Vec<Value>, Issue>(issue),
                None => res matches Ok(values) && value_views(values@) == projected(
                    all_rows(self.layout()),
                    self.records(),
                    a,
                ),
            },
    {
        proof {
            use_type_invariant(self);
        }
        match check_project(a, self.kind, self.is_grouped()) {
            Some(issue) => Err(issue),
            None => {
                match &self.shape {
                    Shape::Grouped(_) => {
                        proof {
                            assert(false);
                        }
                        Ok(Vec::new())
                    },
                    Shape::Flat(rows) => {
                        let mut out: Vec<Value> = Vec::new();
                        let mut i: usize = 0;
                        while i < rows.len()
                            invariant
                                i <= rows.len(),
                                rows_fit(rows@, self.source@.len() as int),
                                out.len() == i,
                                forall|k: int|
                                    0 <= k < i ==> (#[trigger] out@[k])@ == read_field(
                                        self.source@[rows@[k] as int],
                                        a,
                                    ),
                            decreases rows.len() - i,
                        {
                            let x = read_of(&self.source[rows[i]], a);
                            out.push(x.get().duplicate());
                            i += 1;
                        }
                        assert(value_views(out@) =~= projected(rows@, self.source@, a));
                        Ok(out)
                    },
                }
            },
        }
    }
}

} // verus!
