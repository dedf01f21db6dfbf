//! The predicate grammar: expressions over records, boolean tests composed
//! from them, their validation against the schema and their evaluation.

use crate::record::{collection, collection_kind, field_type, field_value, Accessor, Kind, Read, Record};
use crate::text::{contains_bytes, check_pattern, occurs_in, pattern_compiles, pattern_matches, search};
use crate::value::{
    compare, is_ordered, same_value, type_of, Fraction, Relation, Value, ValueType, ValueView,
};
use std::collections::HashSet;
use vstd::prelude::*;

verus! {

broadcast use vstd::std_specs::hash::group_hash_axioms;

/// A nested collection, whole or filtered.
#[derive(Debug)]
pub enum Source {
    /// Every record of the nested collection.
    All(Accessor),
    /// The records of the nested collection that satisfy the predicate.
    FromEachIf(Accessor, Box<Predicate>),
}

/// Something that yields a value from a record.
#[derive(Debug)]
pub enum Expr {
    /// The value of a field.
    Field(Accessor),
    /// How many records a source selects.
    Count(Source),
    /// The share of the first source in the second, as an exact ratio.
    Ratio(Source, Source),
}

/// A boolean test on a record.
#[derive(Debug)]
pub enum Predicate {
    Equal(Expr, Value),
    AtLeast(Expr, Value),
    MoreThan(Expr, Value),
    LessThan(Expr, Value),
    /// Some part of the text matches the regular expression.
    Matches(Accessor, String),
    /// The text contains the given bytes.
    Contains(Accessor, Vec<u8>),
    /// The value equals one of the literals.
    Member(Expr, Vec<Value>),
    /// The set-valued field shares an identifier with the given set.
    AnyIn(Accessor, HashSet<u64>),
    /// The boolean field is true.
    Holds(Accessor),
    Or(Box<Predicate>, Box<Predicate>),
}

/// The mathematical content of a [`Source`].
pub enum SourceView {
    All(Accessor),
    FromEachIf(Accessor, Box<PredicateView>),
}

/// The mathematical content of an [`Expr`].
pub enum ExprView {
    Field(Accessor),
    Count(SourceView),
    Ratio(SourceView, SourceView),
}

/// The mathematical content of a [`Predicate`].
pub enum PredicateView {
    Equal(ExprView, ValueView),
    AtLeast(ExprView, ValueView),
    MoreThan(ExprView, ValueView),
    LessThan(ExprView, ValueView),
    Matches(Accessor, Seq<char>),
    Contains(Accessor, Seq<u8>),
    Member(ExprView, Seq<ValueView>),
    AnyIn(Accessor, Set<u64>),
    Holds(Accessor),
    Or(Box<PredicateView>, Box<PredicateView>),
}

/// The contents of a list of literals.
pub open spec fn literal_views(lits: Seq<Value>) -> Seq<ValueView> {
    Seq::new(lits.len(), |i: int| lits[i]@)
}

/// The contents of a source.
pub open spec fn source_view(s: Source) -> SourceView
    decreases s,
{
    match s {
        Source::All(a) => SourceView::All(a),
        Source::FromEachIf(a, p) => SourceView::FromEachIf(a, Box::new(predicate_view(*p))),
    }
}

/// The contents of an expression.
pub open spec fn expr_view(e: Expr) -> ExprView
    decreases e,
{
    match e {
        Expr::Field(a) => ExprView::Field(a),
        Expr::Count(s) => ExprView::Count(source_view(s)),
        Expr::Ratio(s, w) => ExprView::Ratio(source_view(s), source_view(w)),
    }
}

/// The contents of a predicate.
pub open spec fn predicate_view(p: Predicate) -> PredicateView
    decreases p,
{
    match p {
        Predicate::Equal(e, v) => PredicateView::Equal(expr_view(e), v@),
        Predicate::AtLeast(e, v) => PredicateView::AtLeast(expr_view(e), v@),
        Predicate::MoreThan(e, v) => PredicateView::MoreThan(expr_view(e), v@),
        Predicate::LessThan(e, v) => PredicateView::LessThan(expr_view(e), v@),
        Predicate::Matches(a, pattern) => PredicateView::Matches(a, pattern@),
        Predicate::Contains(a, needle) => PredicateView::Contains(a, needle@),
        Predicate::Member(e, lits) => PredicateView::Member(expr_view(e), literal_views(lits@)),
        Predicate::AnyIn(a, set) => PredicateView::AnyIn(a, set@),
        Predicate::Holds(a) => PredicateView::Holds(a),
        Predicate::Or(x, y) => PredicateView::Or(
            Box::new(predicate_view(*x)),
            Box::new(predicate_view(*y)),
        ),
    }
}

impl View for Source {
    type V = SourceView;

    open spec fn view(&self) -> SourceView {
        source_view(*self)
    }
}

impl View for Expr {
    type V = ExprView;

    open spec fn view(&self) -> ExprView {
        expr_view(*self)
    }
}

impl View for Predicate {
    type V = PredicateView;

    open spec fn view(&self) -> PredicateView {
        predicate_view(*self)
    }
}

/// What accessor `a` reads from record `r`: the field, or `Absent` where the
/// accessor is for another kind of record.
pub open spec fn read_field(r: Record, a: Accessor) -> ValueView {
    if a.kind == r.kind {
        field_value(r, a.name)
    } else {
        ValueView::Absent
    }
}

/// The nested collection that accessor `a` reads from record `r`.
pub open spec fn read_items(r: Record, a: Accessor) -> Seq<Record> {
    if a.kind == r.kind {
        collection(r, a.name)
    } else {
        Seq::empty()
    }
}

/// How many of `items` satisfy `p`.
pub open spec fn matching(items: Seq<Record>, p: PredicateView) -> nat
    decreases p, items.len() + 1,
{
    if items.len() == 0 {
        0
    } else {
        matching(items.drop_last(), p) + if holds(p, items.last()) {
            1nat
        } else {
            0nat
        }
    }
}

/// How many records source `s` selects from record `r`.
pub open spec fn count(s: SourceView, r: Record) -> nat
    decreases s, 0nat,
{
    match s {
        SourceView::All(a) => read_items(r, a).len(),
        SourceView::FromEachIf(a, p) => matching(read_items(r, a), *p),
    }
}

/// The value of expression `e` on record `r`. A ratio whose denominator
/// selects nothing is `NotApplicable`.
pub open spec fn value_of(e: ExprView, r: Record) -> ValueView
    decreases e, 0nat,
{
    match e {
        ExprView::Field(a) => read_field(r, a),
        ExprView::Count(s) => ValueView::Integer(count(s, r) as u64),
        ExprView::Ratio(s, w) => if count(w, r) == 0 {
            ValueView::NotApplicable
        } else {
            ValueView::Ratio(Fraction { num: count(s, r) as u64, den: count(w, r) as u64 })
        },
    }
}

/// Whether `v` equals one of `lits`.
pub open spec fn among(v: ValueView, lits: Seq<ValueView>) -> bool {
    exists|i: int| 0 <= i < lits.len() && same_value(v, #[trigger] lits[i])
}

/// Whether one of `ids` is in `set`.
pub open spec fn intersects(ids: Seq<u64>, set: Set<u64>) -> bool {
    exists|i: int| 0 <= i < ids.len() && set.contains(#[trigger] ids[i])
}

/// Whether record `r` satisfies predicate `p`.
///
/// A comparison with a value that is absent, not applicable or of another
/// type is false.
pub open spec fn holds(p: PredicateView, r: Record) -> bool
    decreases p, 0nat,
{
    match p {
        PredicateView::Equal(e, lit) => same_value(value_of(e, r), lit),
        PredicateView::AtLeast(e, lit) => compare(value_of(e, r), lit) matches Some(c) && c >= 0,
        PredicateView::MoreThan(e, lit) => compare(value_of(e, r), lit) matches Some(c) && c > 0,
        PredicateView::LessThan(e, lit) => compare(value_of(e, r), lit) matches Some(c) && c < 0,
        PredicateView::Matches(a, pattern) => read_field(r, a) matches ValueView::Text(t)
            && pattern_matches(pattern, t),
        PredicateView::Contains(a, needle) => read_field(r, a) matches ValueView::Text(t)
            && occurs_in(needle, t),
        PredicateView::Member(e, lits) => among(value_of(e, r), lits),
        PredicateView::AnyIn(a, set) => read_field(r, a) matches ValueView::Ids(ids) && intersects(
            ids,
            set,
        ),
        PredicateView::Holds(a) => read_field(r, a) == ValueView::Flag(true),
        PredicateView::Or(x, y) => holds(*x, r) || holds(*y, r),
    }
}

/// What is wrong with a query.
#[derive(Clone, Copy, Debug, PartialEq, Eq, Structural)]
pub enum Issue {
    /// Records of the kind in question have no such field or collection.
    UnknownAccessor,
    /// A literal or a test does not fit the type of the value it is applied to.
    TypeMismatch,
    /// A threshold or a sort on a type that has no total order.
    NotOrdered,
    /// A grouping on a type that cannot key a group.
    NotKeyed,
    /// A regular expression that cannot be compiled.
    BadPattern,
    /// A second grouping of a collection that is grouped already.
    AlreadyGrouped,
    /// Ungrouping a collection that is not grouped.
    NotGrouped,
    /// Projecting or exporting a collection that is still grouped.
    StillGrouped,
    /// A stage after the projection that ends a pipeline.
    AfterProjection,
    /// A sample of an exact size from fewer records than that.
    TooFew,
}

/// The first of two optional issues.
pub open spec fn first_issue(a: Option<Issue>, b: Option<Issue>) -> Option<Issue> {
    if a.is_some() {
        a
    } else {
        b
    }
}

/// What is wrong with reading field `a` from records of kind `kind` as a
/// value of type `t`, if anything.
pub open spec fn field_issue(a: Accessor, kind: Kind, t: ValueType) -> Option<Issue> {
    if a.kind != kind || field_type(a).is_none() {
        Some(Issue::UnknownAccessor)
    } else if field_type(a) != Some(t) {
        Some(Issue::TypeMismatch)
    } else {
        None
    }
}

/// What is wrong with source `s` on records of kind `kind`, if anything.
pub open spec fn source_issue(s: SourceView, kind: Kind) -> Option<Issue>
    decreases s, 0nat,
{
    match s {
        SourceView::All(a) => if a.kind != kind || collection_kind(a).is_none() {
            Some(Issue::UnknownAccessor)
        } else {
            None
        },
        SourceView::FromEachIf(a, p) => if a.kind != kind || collection_kind(a).is_none() {
            Some(Issue::UnknownAccessor)
        } else {
            predicate_issue(*p, collection_kind(a).unwrap())
        },
    }
}

/// What is wrong with expression `e` on records of kind `kind`, if anything.
pub open spec fn expr_issue(e: ExprView, kind: Kind) -> Option<Issue>
    decreases e, 0nat,
{
    match e {
        ExprView::Field(a) => if a.kind != kind || field_type(a).is_none() {
            Some(Issue::UnknownAccessor)
        } else {
            None
        },
        ExprView::Count(s) => source_issue(s, kind),
        ExprView::Ratio(s, w) => first_issue(source_issue(s, kind), source_issue(w, kind)),
    }
}

/// The type of the values of an expression that has no issue.
pub open spec fn expr_type(e: ExprView) -> ValueType {
    match e {
        ExprView::Field(a) => match field_type(a) {
            Some(t) => t,
            None => ValueType::Integer,
        },
        ExprView::Count(_) => ValueType::Integer,
        ExprView::Ratio(_, _) => ValueType::Ratio,
    }
}

/// Whether `lit` is a literal of type `t`. A ratio literal needs a positive
/// denominator.
pub open spec fn literal_fits(lit: ValueView, t: ValueType) -> bool {
    type_of(lit) == Some(t) && (lit matches ValueView::Ratio(f) ==> f.den > 0)
}

/// Whether every one of `lits` is a literal of type `t`.
pub open spec fn literals_fit(lits: Seq<ValueView>, t: ValueType) -> bool {
    forall|i: int| 0 <= i < lits.len() ==> literal_fits(#[trigger] lits[i], t)
}

/// What is wrong with a threshold test of `e` against `lit`, if anything.
pub open spec fn threshold_issue(e: ExprView, lit: ValueView, kind: Kind) -> Option<Issue>
    decreases e, 1nat,
{
    if expr_issue(e, kind).is_some() {
        expr_issue(e, kind)
    } else if !is_ordered(expr_type(e)) {
        Some(Issue::NotOrdered)
    } else if !literal_fits(lit, expr_type(e)) {
        Some(Issue::TypeMismatch)
    } else {
        None
    }
}

/// What is wrong with predicate `p` on records of kind `kind`, if anything.
/// Where several things are wrong, the first in reading order is named.
pub open spec fn predicate_issue(p: PredicateView, kind: Kind) -> Option<Issue>
    decreases p, 0nat,
{
    match p {
        PredicateView::Equal(e, lit) => if expr_issue(e, kind).is_some() {
            expr_issue(e, kind)
        } else if !literal_fits(lit, expr_type(e)) {
            Some(Issue::TypeMismatch)
        } else {
            None
        },
        PredicateView::AtLeast(e, lit) => threshold_issue(e, lit, kind),
        PredicateView::MoreThan(e, lit) => threshold_issue(e, lit, kind),
        PredicateView::LessThan(e, lit) => threshold_issue(e, lit, kind),
        PredicateView::Matches(a, pattern) => if field_issue(a, kind, ValueType::Text).is_some() {
            field_issue(a, kind, ValueType::Text)
        } else if !pattern_compiles(pattern) {
            Some(Issue::BadPattern)
        } else {
            None
        },
        PredicateView::Contains(a, _) => field_issue(a, kind, ValueType::Text),
        PredicateView::Member(e, lits) => if expr_issue(e, kind).is_some() {
            expr_issue(e, kind)
        } else if !literals_fit(lits, expr_type(e)) {
            Some(Issue::TypeMismatch)
        } else {
            None
        },
        PredicateView::AnyIn(a, _) => field_issue(a, kind, ValueType::Ids),
        PredicateView::Holds(a) => field_issue(a, kind, ValueType::Flag),
        PredicateView::Or(x, y) => first_issue(predicate_issue(*x, kind), predicate_issue(*y, kind)),
    }
}

fn check_field(a: Accessor, kind: Kind, t: ValueType) -> (i: Option<Issue>)
    ensures
        i == field_issue(a, kind, t),
{
    if a.kind != kind {
        return Some(Issue::UnknownAccessor);
    }
    match a.value_type() {
        None => Some(Issue::UnknownAccessor),
        Some(found) => if found == t {
            None
        } else {
            Some(Issue::TypeMismatch)
        },
    }
}

fn literal_has(lit: &Value, t: ValueType) -> (b: bool)
    ensures
        b == literal_fits(lit@, t),
{
    match lit.value_type() {
        None => false,
        Some(found) => {
            if found != t {
                false
            } else {
                match lit {
                    Value::Ratio(f) => f.den > 0,
                    _ => true,
                }
            }
        },
    }
}

fn literals_have(lits: &Vec<Value>, t: ValueType) -> (b: bool)
    ensures
        b == literals_fit(literal_views(lits@), t),
{
    let mut i: usize = 0;
    while i < lits.len()
        invariant
            i <= lits.len(),
            forall|j: int| 0 <= j < i ==> literal_fits(#[trigger] literal_views(lits@)[j], t),
        decreases lits.len() - i,
    {
        if !literal_has(&lits[i], t) {
            assert(!literal_fits(literal_views(lits@)[i as int], t));
            return false;
        }
        i += 1;
    }
    true
}

fn as_count(n: usize) -> (c: u64)
    ensures
        c == n,
{
    n as u64
}

impl Source {
    /// Validates this source against records of kind `kind`.
    pub fn check(&self, kind: Kind) -> (i: Option<Issue>)
        ensures
            i == source_issue(self@, kind),
        decreases self, 0nat,
    {
        match self {
            Source::All(a) => {
                if a.kind != kind {
                    return Some(Issue::UnknownAccessor);
                }
                match a.item_kind() {
                    None => Some(Issue::UnknownAccessor),
                    Some(_) => None,
                }
            },
            Source::FromEachIf(a, p) => {
                if a.kind != kind {
                    return Some(Issue::UnknownAccessor);
                }
                match a.item_kind() {
                    None => Some(Issue::UnknownAccessor),
                    Some(inner) => p.check(inner),
                }
            },
        }
    }

    /// Counts the records this source selects from `r`.
    #[verifier::loop_isolation(false)]
    pub fn count(&self, r: &Record) -> (n: usize)
        ensures
            n == count(self@, *r),
        decreases self, 0nat,
    {
        match self {
            Source::All(a) => {
                if a.kind != r.kind {
                    return 0;
                }
                match r.items(a.name) {
                    Some(items) => items.len(),
                    None => 0,
                }
            },
            Source::FromEachIf(a, p) => {
                if a.kind != r.kind {
                    return 0;
                }
                match r.items(a.name) {
                    None => 0,
                    Some(items) => {
                        let mut n: usize = 0;
                        let mut i: usize = 0;
                        while i < items.len()
                            invariant
                                i <= items.len(),
                                n <= i,
                                n == matching(items@.take(i as int), p@),
                            decreases items.len() - i,
                        {
                            assert(items@.take(i + 1).drop_last() =~= items@.take(i as int));
                            if p.test(&items[i]) {
                                n += 1;
                            }
                            i += 1;
                        }
                        assert(items@.take(i as int) =~= items@);
                        n
                    },
                }
            },
        }
    }
}

impl Expr {
    /// Validates this expression against records of kind `kind`.
    pub fn check(&self, kind: Kind) -> (i: Option<Issue>)
        ensures
            i == expr_issue(self@, kind),
        decreases self, 0nat,
    {
        match self {
            Expr::Field(a) => {
                if a.kind != kind {
                    return Some(Issue::UnknownAccessor);
                }
                match a.value_type() {
                    None => Some(Issue::UnknownAccessor),
                    Some(_) => None,
                }
            },
            Expr::Count(s) => s.check(kind),
            Expr::Ratio(s, w) => {
                let first = s.check(kind);
                if first.is_some() {
                    first
                } else {
                    w.check(kind)
                }
            },
        }
    }

    /// The type of the values this expression yields.
    pub fn value_type(&self) -> (t: ValueType)
        ensures
            t == expr_type(self@),
    {
        match self {
            Expr::Field(a) => match a.value_type() {
                Some(t) => t,
                None => ValueType::Integer,
            },
            Expr::Count(_) => ValueType::Integer,
            Expr::Ratio(_, _) => ValueType::Ratio,
        }
    }

    /// Evaluates this expression on `r`.
    pub fn value<'a>(&self, r: &'a Record) -> (x: Read<'a>)
        ensures
            x.value() == value_of(self@, *r),
        decreases self, 0nat,
    {
        match self {
            Expr::Field(a) => {
                if a.kind != r.kind {
                    Read::Owned(Value::Absent)
                } else {
                    r.read(a.name)
                }
            },
            Expr::Count(s) => Read::Owned(Value::Integer(as_count(s.count(r)))),
            Expr::Ratio(s, w) => {
                let den = w.count(r);
                if den == 0 {
                    Read::Owned(Value::NotApplicable)
                } else {
                    let num = s.count(r);
                    Read::Owned(Value::Ratio(Fraction { num: as_count(num), den: as_count(den) }))
                }
            },
        }
    }

    fn check_threshold(&self, lit: &Value, kind: Kind) -> (i: Option<Issue>)
        ensures
            i == threshold_issue(self@, lit@, kind),
        decreases self, 1nat,
    {
        let found = self.check(kind);
        if found.is_some() {
            return found;
        }
        let t = self.value_type();
        if !t.ordered() {
            Some(Issue::NotOrdered)
        } else if !literal_has(lit, t) {
            Some(Issue::TypeMismatch)
        } else {
            None
        }
    }
}

/// Reads what accessor `a` gives on record `r`.
pub fn read_of<'a>(r: &'a Record, a: Accessor) -> (x: Read<'a>)
    ensures
        x.value() == read_field(*r, a),
{
    if a.kind != r.kind {
        Read::Owned(Value::Absent)
    } else {
        r.read(a.name)
    }
}

fn is_among(v: &Value, lits: &Vec<Value>) -> (b: bool)
    ensures
        b == among(v@, literal_views(lits@)),
{
    let mut i: usize = 0;
    while i < lits.len()
        invariant
            i <= lits.len(),
            forall|j: int| 0 <= j < i ==> !same_value(v@, #[trigger] literal_views(lits@)[j]),
        decreases lits.len() - i,
    {
        if v.same(&lits[i]) {
            assert(same_value(v@, literal_views(lits@)[i as int]));
            return true;
        }
        i += 1;
    }
    false
}

fn shares(ids: &Vec<u64>, set: &HashSet<u64>) -> (b: bool)
    ensures
        b == intersects(ids@, set@),
{
    let mut i: usize = 0;
    while i < ids.len()
        invariant
            i <= ids.len(),
            forall|j: int| 0 <= j < i ==> !set@.contains(#[trigger] ids@[j]),
        decreases ids.len() - i,
    {
        if set.contains(&ids[i]) {
            assert(set@.contains(ids@[i as int]));
            return true;
        }
        i += 1;
    }
    false
}

impl Predicate {
    /// Validates this predicate against records of kind `kind`, without
    /// looking at any record.
    pub fn check(&self, kind: Kind) -> (i: Option<Issue>)
        ensures
            i == predicate_issue(self@, kind),
        decreases self, 0nat,
    {
        match self {
            Predicate::Equal(e, lit) => {
                let found = e.check(kind);
                if found.is_some() {
                    found
                } else if !literal_has(lit, e.value_type()) {
                    Some(Issue::TypeMismatch)
                } else {
                    None
                }
            },
            Predicate::AtLeast(e, lit) => e.check_threshold(lit, kind),
            Predicate::MoreThan(e, lit) => e.check_threshold(lit, kind),
            Predicate::LessThan(e, lit) => e.check_threshold(lit, kind),
            Predicate::Matches(a, pattern) => {
                let found = check_field(*a, kind, ValueType::Text);
                if found.is_some() {
                    found
                } else if !check_pattern(pattern.as_str()) {
                    Some(Issue::BadPattern)
                } else {
                    None
                }
            },
            Predicate::Contains(a, _) => check_field(*a, kind, ValueType::Text),
            Predicate::Member(e, lits) => {
                let found = e.check(kind);
                if found.is_some() {
                    found
                } else if !literals_have(lits, e.value_type()) {
                    Some(Issue::TypeMismatch)
                } else {
                    None
                }
            },
            Predicate::AnyIn(a, _) => check_field(*a, kind, ValueType::Ids),
            Predicate::Holds(a) => check_field(*a, kind, ValueType::Flag),
            Predicate::Or(x, y) => {
                let first = x.check(kind);
                if first.is_some() {
                    first
                } else {
                    y.check(kind)
                }
            },
        }
    }

    /// Evaluates this predicate on `r`.
    pub fn test(&self, r: &Record) -> (b: bool)
        ensures
            b == holds(self@, *r),
        decreases self, 0nat,
    {
        match self {
            Predicate::Equal(e, lit) => {
                let x = e.value(r);
                x.get().same(lit)
            },
            Predicate::AtLeast(e, lit) => {
                let x = e.value(r);
                match x.get().relate(lit) {
                    Relation::Same | Relation::Greater => true,
                    _ => false,
                }
            },
            Predicate::MoreThan(e, lit) => {
                let x = e.value(r);
                match x.get().relate(lit) {
                    Relation::Greater => true,
                    _ => false,
                }
            },
            Predicate::LessThan(e, lit) => {
                let x = e.value(r);
                match x.get().relate(lit) {
                    Relation::Less => true,
                    _ => false,
                }
            },
            Predicate::Matches(a, pattern) => {
                let x = read_of(r, *a);
                match x.get() {
                    Value::Text(t) => search(pattern.as_str(), t),
                    _ => false,
                }
            },
            Predicate::Contains(a, needle) => {
                let x = read_of(r, *a);
                match x.get() {
                    Value::Text(t) => contains_bytes(t, needle),
                    _ => false,
                }
            },
            Predicate::Member(e, lits) => {
                let x = e.value(r);
                is_among(x.get(), lits)
            },
            Predicate::AnyIn(a, set) => {
                let x = read_of(r, *a);
                match x.get() {
                    Value::Ids(ids) => shares(ids, set),
                    _ => false,
                }
            },
            Predicate::Holds(a) => {
                let x = read_of(r, *a);
                match x.get() {
                    Value::Flag(b) => *b,
                    _ => false,
                }
            },
            Predicate::Or(x, y) => x.test(r) || y.test(r),
        }
    }
}

} // verus!
