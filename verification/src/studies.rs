//! The selection queries of ten empirical studies of software repositories.
//!
//! Each study is a pipeline over projects, given as data, and a function
//! that runs the pipeline on the projects of a corpus and writes the table of
//! the selected projects.

use crate::calendar::{month_start_of, start_of_month};
use crate::decimal::{ids_text, write_ids};
use crate::pipeline::{ConfigError, Pipeline, StageView};
use crate::predicate::{
    expr_view, predicate_view, source_view, Expr, ExprView, Predicate, PredicateView, Source,
    SourceView,
};
use crate::record::{Accessor, Kind, Name, Record};
use crate::report::{export, export_issue, export_text};
use crate::sample::{SampleSpec, Seed};
use crate::setjoin::{derive_issue, derive_set, derived, id_set};
use crate::stage::Direction;
use crate::value::{Fraction, Language, Value, ValueView};
use vstd::prelude::*;

verus! {

/// Why a study gave no table.
#[derive(Clone, Copy, Debug, PartialEq, Eq, Structural)]
pub enum EngineError {
    /// The pipeline of the study has a configuration error.
    Config(ConfigError),
    /// A month that the study names is not in the calendar.
    Calendar,
    /// The selection of the study cannot be expressed as a pipeline.
    Unsupported,
}

/// The accessor of a field or collection of projects.
pub open spec fn project(name: Name) -> Accessor {
    Accessor { kind: Kind::Project, name }
}

/// The accessor of a field of paths.
pub open spec fn path(name: Name) -> Accessor {
    Accessor { kind: Kind::Path, name }
}

/// The accessor of a field of snapshots.
pub open spec fn snapshot(name: Name) -> Accessor {
    Accessor { kind: Kind::Snapshot, name }
}

/// The seconds of a year of 365 days.
pub const SECONDS_PER_YEAR: u64 = 31_536_000;

/// The seed that every study samples with.
pub const STUDY_SEED: u64 = 42;

/// The paths of a project that are written in Java.
pub open spec fn java_paths() -> SourceView {
    SourceView::FromEachIf(
        project(Name::Paths),
        Box::new(
            PredicateView::Equal(
                ExprView::Field(path(Name::Language)),
                ValueView::Lang(Language::Java),
            ),
        ),
    )
}

/// The project is written in Java.
pub open spec fn is_java() -> PredicateView {
    PredicateView::Equal(ExprView::Field(project(Name::Language)), ValueView::Lang(Language::Java))
}

/// The URL of the project is one of the Eclipse or Apache organisations.
pub open spec fn is_eclipse_or_apache() -> PredicateView {
    PredicateView::Matches(project(Name::Url), "https://github.com/(eclipse|apache)/"@)
}

/// The integer field of the project is at least `n`.
pub open spec fn at_least(name: Name, n: u64) -> PredicateView {
    PredicateView::AtLeast(ExprView::Field(project(name)), ValueView::Integer(n))
}

/// The integer field of the project is more than `n`.
pub open spec fn more_than(name: Name, n: u64) -> PredicateView {
    PredicateView::MoreThan(ExprView::Field(project(name)), ValueView::Integer(n))
}

fn project_field(name: Name) -> (a: Accessor)
    ensures
        a == project(name),
{
    Accessor { kind: Kind::Project, name }
}

fn make_java_paths() -> (s: Source)
    ensures
        s@ == java_paths(),
{
    proof {
        reveal_with_fuel(predicate_view, 3);
        reveal_with_fuel(expr_view, 3);
        reveal_with_fuel(source_view, 3);
    }
    Source::FromEachIf(
        project_field(Name::Paths),
        Box::new(
            Predicate::Equal(
                Expr::Field(Accessor { kind: Kind::Path, name: Name::Language }),
                Value::Lang(Language::Java),
            ),
        ),
    )
}

fn make_is_java() -> (p: Predicate)
    ensures
        p@ == is_java(),
{
    proof {
        reveal_with_fuel(predicate_view, 3);
        reveal_with_fuel(expr_view, 3);
        reveal_with_fuel(source_view, 3);
    }
    Predicate::Equal(Expr::Field(project_field(Name::Language)), Value::Lang(Language::Java))
}

fn make_is_eclipse_or_apache() -> (p: Predicate)
    ensures
        p@ == is_eclipse_or_apache(),
{
    proof {
        reveal_with_fuel(predicate_view, 3);
        reveal_with_fuel(expr_view, 3);
        reveal_with_fuel(source_view, 3);
    }
    Predicate::Matches(
        project_field(Name::Url),
        "https://github.com/(eclipse|apache)/".to_owned(),
    )
}

fn make_at_least(name: Name, n: u64) -> (p: Predicate)
    ensures
        p@ == at_least(name, n),
{
    proof {
        reveal_with_fuel(predicate_view, 3);
        reveal_with_fuel(expr_view, 3);
        reveal_with_fuel(source_view, 3);
    }
    Predicate::AtLeast(Expr::Field(project_field(name)), Value::Integer(n))
}

fn make_more_than(name: Name, n: u64) -> (p: Predicate)
    ensures
        p@ == more_than(name, n),
{
    proof {
        reveal_with_fuel(predicate_view, 3);
        reveal_with_fuel(expr_view, 3);
        reveal_with_fuel(source_view, 3);
    }
    Predicate::MoreThan(Expr::Field(project_field(name)), Value::Integer(n))
}

/// What running a pipeline as a study gives on records of kind `kind`: the
/// configuration error of the pipeline, or the table of what it selects.
pub open spec fn pipeline_gives(
    res: Result<Vec<u8>, EngineError>,
    stages: Seq<StageView>,
    kind: Kind,
    src: Seq<Record>,
) -> bool {
    match export_issue(stages, kind) {
        Some(e) => res == Err::<Vec<u8>, EngineError>(EngineError::Config(e)),
        None => res matches Ok(text) && text@ == export_text(stages, kind, src),
    }
}

/// What running a study gives on the projects of a corpus.
pub open spec fn study_gives(
    res: Result<Vec<u8>, EngineError>,
    stages: Seq<StageView>,
    src: Seq<Record>,
) -> bool {
    pipeline_gives(res, stages, Kind::Project, src)
}

/// Runs a pipeline on the records of a corpus and writes the table of what
/// it selects.
pub fn run_study(p: &Pipeline, records: Vec<Record>) -> (res: Result<Vec<u8>, EngineError>)
    ensures
        pipeline_gives(res, p.steps(), p.kind, records@),
{
    match export(p, records) {
        Ok(text) => Ok(text),
        Err(e) => Err(EngineError::Config(e)),
    }
}

/// Projects with at least one Java path and at least 50 stars.
pub open spec fn s1_stages() -> Seq<StageView> {
    seq![
        StageView::FilterBy(
            PredicateView::AtLeast(ExprView::Count(java_paths()), ValueView::Integer(1)),
        ),
        StageView::FilterBy(at_least(Name::Stars, 50)),
    ]
}

/// The pipeline of the first study.
pub fn s1_pipeline() -> (p: Pipeline)
    ensures
        p.kind == Kind::Project,
        p.steps() == s1_stages(),
{
    proof {
        reveal_with_fuel(predicate_view, 3);
        reveal_with_fuel(expr_view, 3);
        reveal_with_fuel(source_view, 3);
    }
    let p = Pipeline::over(Kind::Project).filter_by(
        Predicate::AtLeast(Expr::Count(make_java_paths()), Value::Integer(1)),
    ).filter_by(make_at_least(Name::Stars, 50));
    assert(p.steps() =~= s1_stages());
    p
}

/// Runs the first study on the projects of a corpus and writes the table of
/// the projects it selects.
pub fn s1_a_study_of_potential_code_borrowing(projects: Vec<Record>) -> (res: Result<
    Vec<u8>,
    EngineError,
>)
    ensures
        study_gives(res, s1_stages(), projects@),
{
    run_study(&s1_pipeline(), projects)
}

/// The 2814 Java projects with the fewest stars.
pub open spec fn s2_stages() -> Seq<StageView> {
    seq![
        StageView::FilterBy(is_java()),
        StageView::SortBy(project(Name::Stars), Direction::Ascending),
        StageView::Sample(SampleSpec::Top(2814)),
    ]
}

/// The pipeline of the second study.
pub fn s2_pipeline() -> (p: Pipeline)
    ensures
        p.kind == Kind::Project,
        p.steps() == s2_stages(),
{
    proof {
        reveal_with_fuel(predicate_view, 3);
        reveal_with_fuel(expr_view, 3);
        reveal_with_fuel(source_view, 3);
    }
    let p = Pipeline::over(Kind::Project).filter_by(make_is_java()).sort_by(
        project_field(Name::Stars),
    ).sample(SampleSpec::Top(2814));
    assert(p.steps() =~= s2_stages());
    p
}

/// Runs the second study on the projects of a corpus and writes the table of
/// the projects it selects.
pub fn s2_an_empirical_study_of_method_chaining(projects: Vec<Record>) -> (res: Result<
    Vec<u8>,
    EngineError,
>)
    ensures
        study_gives(res, s2_stages(), projects@),
{
    run_study(&s2_pipeline(), projects)
}

/// At least nine in ten paths of the project are Java paths.
pub open spec fn mostly_java() -> PredicateView {
    PredicateView::AtLeast(
        ExprView::Ratio(java_paths(), SourceView::All(project(Name::Paths))),
        ValueView::Ratio(Fraction { num: 9, den: 10 }),
    )
}

/// A random 48 of the Java projects that have issues and whose paths are
/// mostly Java paths.
pub open spec fn s3_stages() -> Seq<StageView> {
    seq![
        StageView::FilterBy(is_java()),
        StageView::FilterBy(PredicateView::Holds(project(Name::HasIssues))),
        StageView::FilterBy(mostly_java()),
        StageView::Sample(SampleSpec::Random(48, Seed(STUDY_SEED))),
    ]
}

/// The pipeline of the third study.
pub fn s3_pipeline() -> (p: Pipeline)
    ensures
        p.kind == Kind::Project,
        p.steps() == s3_stages(),
{
    proof {
        reveal_with_fuel(predicate_view, 3);
        reveal_with_fuel(expr_view, 3);
        reveal_with_fuel(source_view, 3);
    }
    let p = Pipeline::over(Kind::Project).filter_by(make_is_java()).filter_by(
        Predicate::Holds(project_field(Name::HasIssues)),
    ).filter_by(
        Predicate::AtLeast(
            Expr::Ratio(make_java_paths(), Source::All(project_field(Name::Paths))),
            Value::Ratio(Fraction::new(9, 10)),
        ),
    ).sample(SampleSpec::Random(48, Seed(STUDY_SEED)));
    assert(p.steps() =~= s3_stages());
    p
}

/// Runs the third study on the projects of a corpus and writes the table of
/// the projects it selects.
pub fn s3_characterizing_and_identifying_composite_refactorings(projects: Vec<Record>) -> (res:
    Result<Vec<u8>, EngineError>)
    ensures
        study_gives(res, s3_stages(), projects@),
{
    run_study(&s3_pipeline(), projects)
}

/// A random 9 of the Java projects of Eclipse or Apache that are at least
/// five years old and have more than 20 users, at least 1000 commits and more
/// than 500 Java paths.
pub open spec fn s4_stages() -> Seq<StageView> {
    seq![
        StageView::FilterBy(is_java()),
        StageView::FilterBy(is_eclipse_or_apache()),
        StageView::FilterBy(
            PredicateView::AtLeast(
                ExprView::Field(project(Name::Age)),
                ValueView::Duration((5 * SECONDS_PER_YEAR) as u64),
            ),
        ),
        StageView::FilterBy(
            PredicateView::MoreThan(
                ExprView::Count(SourceView::All(project(Name::Users))),
                ValueView::Integer(20),
            ),
        ),
        StageView::FilterBy(
            PredicateView::AtLeast(
                ExprView::Count(SourceView::All(project(Name::Commits))),
                ValueView::Integer(1000),
            ),
        ),
        StageView::FilterBy(
            PredicateView::MoreThan(ExprView::Count(java_paths()), ValueView::Integer(500)),
        ),
        StageView::Sample(SampleSpec::Random(9, Seed(STUDY_SEED))),
    ]
}

/// The pipeline of the fourth study.
pub fn s4_pipeline() -> (p: Pipeline)
    ensures
        p.kind == Kind::Project,
        p.steps() == s4_stages(),
{
    proof {
        reveal_with_fuel(predicate_view, 3);
        reveal_with_fuel(expr_view, 3);
        reveal_with_fuel(source_view, 3);
    }
    let p = Pipeline::over(Kind::Project).filter_by(make_is_java()).filter_by(
        make_is_eclipse_or_apache(),
    ).filter_by(
        Predicate::AtLeast(
            Expr::Field(project_field(Name::Age)),
            Value::Duration(5 * SECONDS_PER_YEAR),
        ),
    ).filter_by(
        Predicate::MoreThan(
            Expr::Count(Source::All(project_field(Name::Users))),
            Value::Integer(20),
        ),
    ).filter_by(
        Predicate::AtLeast(
            Expr::Count(Source::All(project_field(Name::Commits))),
            Value::Integer(1000),
        ),
    ).filter_by(Predicate::MoreThan(Expr::Count(make_java_paths()), Value::Integer(500))).sample(
        SampleSpec::Random(9, Seed(STUDY_SEED)),
    );
    assert(p.steps() =~= s4_stages());
    p
}

/// Runs the fourth study on the projects of a corpus and writes the table of
/// the projects it selects.
pub fn s4_developer_driven_code_smell_prioritization(projects: Vec<Record>) -> (res: Result<
    Vec<u8>,
    EngineError,
>)
    ensures
        study_gives(res, s4_stages(), projects@),
{
    run_study(&s4_pipeline(), projects)
}

/// The bytes of `import org.junit`.
pub open spec fn junit_marker() -> Seq<u8> {
    seq![
        105u8, 109u8, 112u8, 111u8, 114u8, 116u8, 32u8, 111u8, 114u8, 103u8, 46u8, 106u8, 117u8,
        110u8, 105u8, 116u8,
    ]
}

/// The contents of the snapshot import JUnit.
pub open spec fn imports_junit() -> PredicateView {
    PredicateView::Contains(snapshot(Name::Contents), junit_marker())
}

fn make_imports_junit() -> (p: Predicate)
    ensures
        p@ == imports_junit(),
{
    proof {
        reveal_with_fuel(predicate_view, 3);
        reveal_with_fuel(expr_view, 3);
        reveal_with_fuel(source_view, 3);
    }
    let mut marker: Vec<u8> = Vec::new();
    marker.push(105u8);
    marker.push(109u8);
    marker.push(112u8);
    marker.push(111u8);
    marker.push(114u8);
    marker.push(116u8);
    marker.push(32u8);
    marker.push(111u8);
    marker.push(114u8);
    marker.push(103u8);
    marker.push(46u8);
    marker.push(106u8);
    marker.push(117u8);
    marker.push(110u8);
    marker.push(105u8);
    marker.push(116u8);
    assert(marker@ =~= junit_marker());
    Predicate::Contains(Accessor { kind: Kind::Snapshot, name: Name::Contents }, marker)
}

/// The side file of the fifth study: the identifiers of the snapshots whose
/// contents import JUnit, as text that `read_ids` reads back.
pub fn s5_junit_snapshots(snapshots: Vec<Record>) -> (res: Result<Vec<u8>, EngineError>)
    ensures
        match derive_issue(imports_junit(), snapshot(Name::Id), Kind::Snapshot) {
            Some(e) => res == Err::<Vec<u8>, EngineError>(EngineError::Config(e)),
            None => res matches Ok(text) && text@ == ids_text(
                derived(snapshots@, imports_junit(), snapshot(Name::Id)),
            ),
        },
{
    let found = derive_set(
        Kind::Snapshot,
        snapshots,
        make_imports_junit(),
        Accessor { kind: Kind::Snapshot, name: Name::Id },
    );
    match found {
        Ok(ids) => Ok(write_ids(&ids)),
        Err(e) => Err(EngineError::Config(e)),
    }
}

/// Of a random 1000 projects, those that are not empty, were pushed to after
/// the instant `pushed_after` and have a snapshot among `junits`.
pub open spec fn s5_stages(pushed_after: i64, junits: Set<u64>) -> Seq<StageView> {
    seq![
        StageView::Sample(SampleSpec::Random(1000, Seed(STUDY_SEED))),
        StageView::FilterBy(more_than(Name::Size, 0)),
        StageView::FilterBy(
            PredicateView::MoreThan(
                ExprView::Field(project(Name::Pushed)),
                ValueView::Timestamp(pushed_after),
            ),
        ),
        StageView::FilterBy(PredicateView::AnyIn(project(Name::SnapshotIds), junits)),
    ]
}

/// The pipeline of the fifth study.
pub fn s5_pipeline(pushed_after: i64, junits: &Vec<u64>) -> (p: Pipeline)
    ensures
        p.kind == Kind::Project,
        p.steps() == s5_stages(pushed_after, junits@.to_set()),
{
    proof {
        reveal_with_fuel(predicate_view, 3);
        reveal_with_fuel(expr_view, 3);
        reveal_with_fuel(source_view, 3);
    }
    let p = Pipeline::over(Kind::Project).sample(
        SampleSpec::Random(1000, Seed(STUDY_SEED)),
    ).filter_by(make_more_than(Name::Size, 0)).filter_by(
        Predicate::MoreThan(
            Expr::Field(project_field(Name::Pushed)),
            Value::Timestamp(pushed_after),
        ),
    ).filter_by(Predicate::AnyIn(project_field(Name::SnapshotIds), id_set(junits)));
    assert(p.steps() =~= s5_stages(pushed_after, junits@.to_set()));
    p
}

/// What a study that names months gives, given the instants of those months:
/// a calendar error where a month is missing, else what its pipeline gives.
pub open spec fn dated_study_gives(
    res: Result<Vec<u8>, EngineError>,
    stages: Option<Seq<StageView>>,
    src: Seq<Record>,
) -> bool {
    match stages {
        None => res == Err::<Vec<u8>, EngineError>(EngineError::Calendar),
        Some(s) => study_gives(res, s, src),
    }
}

/// The stages of the fifth study, given the instant that January 2021 begins
/// at.
pub open spec fn s5_dated(january_2021: Option<i64>, junits: Set<u64>) -> Option<Seq<StageView>> {
    match january_2021 {
        Some(t) => Some(s5_stages(t, junits)),
        None => None,
    }
}

/// Runs the fifth study on the projects of a corpus and writes the table of
/// the projects it selects.
pub fn s5_did_you_remember_to_test_your_tokens(projects: Vec<Record>, junits: &Vec<u64>) -> (res:
    Result<Vec<u8>, EngineError>)
    ensures
        dated_study_gives(
            res,
            s5_dated(month_start_of(2021, 1), junits@.to_set()),
            projects@,
        ),
{
    match start_of_month(2021, 1) {
        Some(t) => run_study(&s5_pipeline(t, junits), projects),
        None => Err(EngineError::Calendar),
    }
}

/// Projects with at least one commit.
pub open spec fn s6_stages() -> Seq<StageView> {
    seq![
        StageView::FilterBy(
            PredicateView::MoreThan(
                ExprView::Count(SourceView::All(project(Name::Commits))),
                ValueView::Integer(0),
            ),
        ),
    ]
}

/// The pipeline of the sixth study.
pub fn s6_pipeline() -> (p: Pipeline)
    ensures
        p.kind == Kind::Project,
        p.steps() == s6_stages(),
{
    proof {
        reveal_with_fuel(predicate_view, 3);
        reveal_with_fuel(expr_view, 3);
        reveal_with_fuel(source_view, 3);
    }
    let p = Pipeline::over(Kind::Project).filter_by(
        Predicate::MoreThan(
            Expr::Count(Source::All(project_field(Name::Commits))),
            Value::Integer(0),
        ),
    );
    assert(p.steps() =~= s6_stages());
    p
}

/// Runs the sixth study on the projects of a corpus and writes the table of
/// the projects it selects.
pub fn s6_forking_without_clicking(projects: Vec<Record>) -> (res: Result<Vec<u8>, EngineError>)
    ensures
        study_gives(res, s6_stages(), projects@),
{
    run_study(&s6_pipeline(), projects)
}

/// The project has at least five stars or at least five forks.
pub open spec fn is_noticed() -> PredicateView {
    PredicateView::Or(Box::new(at_least(Name::Stars, 5)), Box::new(at_least(Name::Forks, 5)))
}

/// Of the projects pushed to from `from` on and before `until`, sorted by
/// stars, a random 10000; of those, the ones that are not empty and have at
/// least five stars or forks.
pub open spec fn s7_stages(from: i64, until: i64) -> Seq<StageView> {
    seq![
        StageView::FilterBy(
            PredicateView::AtLeast(
                ExprView::Field(project(Name::Pushed)),
                ValueView::Timestamp(from),
            ),
        ),
        StageView::FilterBy(
            PredicateView::LessThan(
                ExprView::Field(project(Name::Pushed)),
                ValueView::Timestamp(until),
            ),
        ),
        StageView::SortBy(project(Name::Stars), Direction::Ascending),
        StageView::Sample(SampleSpec::Random(10000, Seed(STUDY_SEED))),
        StageView::FilterBy(more_than(Name::Size, 0)),
        StageView::FilterBy(is_noticed()),
    ]
}

/// The pipeline of the seventh study.
pub fn s7_pipeline(from: i64, until: i64) -> (p: Pipeline)
    ensures
        p.kind == Kind::Project,
        p.steps() == s7_stages(from, until),
{
    proof {
        reveal_with_fuel(predicate_view, 3);
        reveal_with_fuel(expr_view, 3);
        reveal_with_fuel(source_view, 3);
    }
    let noticed = Predicate::Or(
        Box::new(make_at_least(Name::Stars, 5)),
        Box::new(make_at_least(Name::Forks, 5)),
    );
    assert(noticed@ == is_noticed());
    let p = Pipeline::over(Kind::Project).filter_by(
        Predicate::AtLeast(Expr::Field(project_field(Name::Pushed)), Value::Timestamp(from)),
    ).filter_by(
        Predicate::LessThan(Expr::Field(project_field(Name::Pushed)), Value::Timestamp(until)),
    ).sort_by(project_field(Name::Stars)).sample(
        SampleSpec::Random(10000, Seed(STUDY_SEED)),
    ).filter_by(make_more_than(Name::Size, 0)).filter_by(noticed);
    assert(p.steps() =~= s7_stages(from, until));
    p
}

/// The stages of the seventh study, given the instants that January 2019 and
/// January 2020 begin at.
pub open spec fn s7_dated(january_2019: Option<i64>, january_2020: Option<i64>) -> Option<
    Seq<StageView>,
> {
    match (january_2019, january_2020) {
        (Some(from), Some(until)) => Some(s7_stages(from, until)),
        _ => None,
    }
}

/// Runs the seventh study on the projects of a corpus and writes the table of
/// the projects it selects.
pub fn s7_the_state_of_the_ml_universe(projects: Vec<Record>) -> (res: Result<
    Vec<u8>,
    EngineError,
>)
    ensures
        dated_study_gives(
            res,
            s7_dated(month_start_of(2019, 1), month_start_of(2020, 1)),
            projects@,
        ),
{
    match (start_of_month(2019, 1), start_of_month(2020, 1)) {
        (Some(from), Some(until)) => run_study(&s7_pipeline(from, until), projects),
        _ => Err(EngineError::Calendar),
    }
}

/// The languages that the eighth study picked by hand.
pub open spec fn hand_picked() -> Seq<ValueView> {
    seq![
        ValueView::Lang(Language::ASM),
        ValueView::Lang(Language::C),
        ValueView::Lang(Language::Cobol),
        ValueView::Lang(Language::Cpp),
        ValueView::Lang(Language::CSharp),
        ValueView::Lang(Language::D),
        ValueView::Lang(Language::Erlang),
        ValueView::Lang(Language::Fortran),
        ValueView::Lang(Language::FSharp),
        ValueView::Lang(Language::Go),
        ValueView::Lang(Language::Groovy),
        ValueView::Lang(Language::Java),
        ValueView::Lang(Language::JavaScript),
        ValueView::Lang(Language::Kotlin),
        ValueView::Lang(Language::Lua),
        ValueView::Lang(Language::ObjectiveC),
        ValueView::Lang(Language::OCaml),
        ValueView::Lang(Language::Perl),
        ValueView::Lang(Language::PHP),
        ValueView::Lang(Language::Python),
        ValueView::Lang(Language::Ruby),
        ValueView::Lang(Language::Scala),
        ValueView::Lang(Language::Swift),
    ]
}

fn make_hand_picked() -> (lits: Vec<Value>)
    ensures
        crate::predicate::literal_views(lits@) == hand_picked(),
{
    proof {
        reveal_with_fuel(predicate_view, 3);
        reveal_with_fuel(expr_view, 3);
        reveal_with_fuel(source_view, 3);
    }
    let mut lits: Vec<Value> = Vec::new();
    lits.push(Value::Lang(Language::ASM));
    lits.push(Value::Lang(Language::C));
    lits.push(Value::Lang(Language::Cobol));
    lits.push(Value::Lang(Language::Cpp));
    lits.push(Value::Lang(Language::CSharp));
    lits.push(Value::Lang(Language::D));
    lits.push(Value::Lang(Language::Erlang));
    lits.push(Value::Lang(Language::Fortran));
    lits.push(Value::Lang(Language::FSharp));
    lits.push(Value::Lang(Language::Go));
    lits.push(Value::Lang(Language::Groovy));
    lits.push(Value::Lang(Language::Java));
    lits.push(Value::Lang(Language::JavaScript));
    lits.push(Value::Lang(Language::Kotlin));
    lits.push(Value::Lang(Language::Lua));
    lits.push(Value::Lang(Language::ObjectiveC));
    lits.push(Value::Lang(Language::OCaml));
    lits.push(Value::Lang(Language::Perl));
    lits.push(Value::Lang(Language::PHP));
    lits.push(Value::Lang(Language::Python));
    lits.push(Value::Lang(Language::Ruby));
    lits.push(Value::Lang(Language::Scala));
    lits.push(Value::Lang(Language::Swift));
    assert(crate::predicate::literal_views(lits@) =~= hand_picked());
    lits
}

/// For each of the hand-picked languages, the first 1020 projects.
pub open spec fn s8_stages() -> Seq<StageView> {
    seq![
        StageView::FilterBy(
            PredicateView::Member(ExprView::Field(project(Name::Language)), hand_picked()),
        ),
        StageView::GroupBy(project(Name::Language)),
        StageView::Sample(SampleSpec::Top(1020)),
        StageView::Ungroup,
    ]
}

/// The pipeline of the eighth study.
pub fn s8_pipeline() -> (p: Pipeline)
    ensures
        p.kind == Kind::Project,
        p.steps() == s8_stages(),
{
    proof {
        reveal_with_fuel(predicate_view, 3);
        reveal_with_fuel(expr_view, 3);
        reveal_with_fuel(source_view, 3);
    }
    let p = Pipeline::over(Kind::Project).filter_by(
        Predicate::Member(Expr::Field(project_field(Name::Language)), make_hand_picked()),
    ).group_by(project_field(Name::Language)).sample(SampleSpec::Top(1020)).ungroup();
    assert(p.steps() =~= s8_stages());
    p
}

/// Runs the eighth study on the projects of a corpus and writes the table of
/// the projects it selects.
pub fn s8_what_constitutes_software(projects: Vec<Record>) -> (res: Result<Vec<u8>, EngineError>)
    ensures
        study_gives(res, s8_stages(), projects@),
{
    run_study(&s8_pipeline(), projects)
}

/// The projects of Eclipse or Apache.
pub open spec fn s9_stages() -> Seq<StageView> {
    seq![StageView::FilterBy(is_eclipse_or_apache())]
}

/// The pipeline of the ninth study.
pub fn s9_pipeline() -> (p: Pipeline)
    ensures
        p.kind == Kind::Project,
        p.steps() == s9_stages(),
{
    proof {
        reveal_with_fuel(predicate_view, 3);
        reveal_with_fuel(expr_view, 3);
        reveal_with_fuel(source_view, 3);
    }
    let p = Pipeline::over(Kind::Project).filter_by(make_is_eclipse_or_apache());
    assert(p.steps() =~= s9_stages());
    p
}

/// Runs the ninth study on the projects of a corpus and writes the table of
/// the projects it selects.
pub fn s9_investigating_severity_thresholds(projects: Vec<Record>) -> (res: Result<
    Vec<u8>,
    EngineError,
>)
    ensures
        study_gives(res, s9_stages(), projects@),
{
    run_study(&s9_pipeline(), projects)
}

/// The selection of this study cannot be expressed as a pipeline: it gives no
/// table, whatever the projects.
pub fn s10_investigating_severity_thresholds(projects: Vec<Record>) -> (res: Result<
    Vec<u8>,
    EngineError,
>)
    ensures
        res == Err::<Vec<u8>, EngineError>(EngineError::Unsupported),
{
    Err(EngineError::Unsupported)
}

} // verus!
