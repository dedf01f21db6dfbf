use corpus_query::collection::Collection;
use corpus_query::pipeline::{Outcome, Pipeline};
use corpus_query::predicate::{Expr, Predicate, Source};
use corpus_query::record::{Accessor, Kind, Name, Record};
use corpus_query::sample::{SampleSpec, Seed};
use corpus_query::value::{Language, Value};

fn project(name: Name) -> Accessor {
    Accessor::new(Kind::Project, name)
}

fn paths(id_from: u64, java: usize, other: usize) -> Vec<Record> {
    let mut out = Vec::new();
    let mut id = id_from;
    for _ in 0..java {
        out.push(Record::new(Kind::Path, id).with(Name::Language, Value::Lang(Language::Java)));
        id += 1;
    }
    for _ in 0..other {
        out.push(Record::new(Kind::Path, id).with(Name::Language, Value::Lang(Language::C)));
        id += 1;
    }
    out
}

fn java_paths() -> Source {
    Source::FromEachIf(
        project(Name::Paths),
        Box::new(Predicate::Equal(
            Expr::Field(Accessor::new(Kind::Path, Name::Language)),
            Value::Lang(Language::Java),
        )),
    )
}

fn ids_of(outcome: Outcome) -> Vec<u64> {
    match outcome {
        Outcome::Records(c) => c.ids(),
        Outcome::Values(_) => panic!("a collection was expected"),
    }
}

#[test]
fn java_paths_and_stars_select_one_project() {
    let corpus = vec![
        Record::new(Kind::Project, 1)
            .with(Name::Stars, Value::Integer(10))
            .with_items(Name::Paths, paths(100, 2, 1)),
        Record::new(Kind::Project, 2)
            .with(Name::Stars, Value::Integer(60))
            .with_items(Name::Paths, paths(200, 0, 3)),
        Record::new(Kind::Project, 3)
            .with(Name::Stars, Value::Integer(80))
            .with_items(Name::Paths, paths(300, 5, 0)),
    ];
    let pipeline = Pipeline::over(Kind::Project)
        .filter_by(Predicate::AtLeast(Expr::Count(java_paths()), Value::Integer(1)))
        .filter_by(Predicate::AtLeast(Expr::Field(project(Name::Stars)), Value::Integer(50)));
    let out = pipeline.run(corpus).unwrap();
    assert_eq!(ids_of(out), vec![3]);
}

#[test]
fn top_two_of_sorted_by_stars() {
    let stars = [4u64, 1, 5, 2, 3];
    let corpus: Vec<Record> = stars
        .iter()
        .enumerate()
        .map(|(i, s)| Record::new(Kind::Project, 10 + i as u64).with(Name::Stars, Value::Integer(*s)))
        .collect();
    let pipeline = Pipeline::over(Kind::Project)
        .sort_by(project(Name::Stars))
        .sample(SampleSpec::Top(2));
    let out = pipeline.run(corpus).unwrap();
    assert_eq!(ids_of(out), vec![11, 13]);
}

fn hundred() -> Vec<Record> {
    (0..100u64)
        .map(|i| Record::new(Kind::Project, i).with(Name::Stars, Value::Integer(7)))
        .collect()
}

fn random_ids(k: usize, seed: u64) -> Vec<u64> {
    let c = Collection::new(Kind::Project, hundred());
    c.sample(SampleSpec::Random(k, Seed(seed))).ids()
}

#[test]
fn seeded_sample_repeats() {
    let first = random_ids(10, 42);
    let second = random_ids(10, 42);
    assert_eq!(first.len(), 10);
    assert_eq!(first, second);
    let mut distinct = first.clone();
    distinct.sort();
    distinct.dedup();
    assert_eq!(distinct.len(), 10);
    let other = random_ids(10, 7);
    assert_eq!(other.len(), 10);
    assert_ne!(first, other);
}

#[test]
fn one_project_per_language() {
    let corpus = vec![
        Record::new(Kind::Project, 1).with(Name::Language, Value::Lang(Language::Java)),
        Record::new(Kind::Project, 2).with(Name::Language, Value::Lang(Language::Java)),
        Record::new(Kind::Project, 3).with(Name::Language, Value::Lang(Language::Go)),
    ];
    let pipeline = Pipeline::over(Kind::Project)
        .group_by(project(Name::Language))
        .sample(SampleSpec::Top(1))
        .ungroup();
    let out = pipeline.run(corpus).unwrap();
    assert_eq!(ids_of(out), vec![3, 1]);
}
