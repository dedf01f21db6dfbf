use corpus_query::collection::Collection;
use corpus_query::order::stable_positions;
use corpus_query::pipeline::{advance, ConfigError, Outcome, Pipeline, Stage};
use corpus_query::predicate::{Expr, Issue, Predicate};
use corpus_query::record::{Accessor, Kind, Name, Record};
use corpus_query::sample::{
    next_state, output, seed_for_group, take_random, take_sample, take_top, SampleSpec, Seed,
};
use corpus_query::stage::Direction;
use corpus_query::value::{Key, Language, Value};

fn project(name: Name) -> Accessor {
    Accessor::new(Kind::Project, name)
}

fn with_stars(stars: &[Option<u64>]) -> Vec<Record> {
    stars
        .iter()
        .enumerate()
        .map(|(i, s)| {
            let r = Record::new(Kind::Project, i as u64);
            match s {
                Some(n) => r.with(Name::Stars, Value::Integer(*n)),
                None => r,
            }
        })
        .collect()
}

fn stars_at_least(n: u64) -> Predicate {
    Predicate::AtLeast(Expr::Field(project(Name::Stars)), Value::Integer(n))
}

fn languages(corpus: &[(u64, Language, u64)]) -> Vec<Record> {
    corpus
        .iter()
        .map(|(id, l, s)| {
            Record::new(Kind::Project, *id)
                .with(Name::Language, Value::Lang(*l))
                .with(Name::Stars, Value::Integer(*s))
        })
        .collect()
}

#[test]
fn new_collection_selects_everything_in_order() {
    let c = Collection::new(Kind::Project, with_stars(&[Some(3), Some(1), Some(2)]));
    assert_eq!(c.ids(), vec![0, 1, 2]);
    assert_eq!(c.len(), 3);
    assert_eq!(c.rows(), vec![0, 1, 2]);
    assert_eq!(c.corpus_len(), 3);
    assert_eq!(c.kind(), Kind::Project);
    assert!(!c.is_grouped());
    assert_eq!(c.group_count(), None);
    assert_eq!(c.record(1).id, 1);
}

#[test]
fn filter_keeps_order_and_is_idempotent() {
    let corpus = || with_stars(&[Some(5), Some(1), Some(9), None, Some(5), Some(0)]);
    let once = Collection::new(Kind::Project, corpus()).filter_by(&stars_at_least(5)).unwrap();
    assert_eq!(once.ids(), vec![0, 2, 4]);
    let twice = once.filter_by(&stars_at_least(5)).unwrap();
    assert_eq!(twice.ids(), vec![0, 2, 4]);
    let none = twice.filter_by(&stars_at_least(100)).unwrap();
    assert_eq!(none.ids(), Vec::<u64>::new());
    assert_eq!(none.len(), 0);
}

#[test]
fn chained_filters_conjoin() {
    let c = Collection::new(Kind::Project, with_stars(&[Some(5), Some(1), Some(9), Some(7)]));
    let below = Predicate::LessThan(Expr::Field(project(Name::Stars)), Value::Integer(9));
    let c = c.filter_by(&stars_at_least(5)).unwrap().filter_by(&below).unwrap();
    assert_eq!(c.ids(), vec![0, 3]);
}

#[test]
fn filter_with_a_bad_predicate_fails() {
    let c = Collection::new(Kind::Project, with_stars(&[Some(5)]));
    let p = Predicate::Holds(project(Name::Stars));
    assert_eq!(c.filter_by(&p).err(), Some(Issue::TypeMismatch));
}

#[test]
fn sort_is_stable_in_both_directions() {
    let corpus = || with_stars(&[Some(2), Some(1), Some(2), None, Some(1), Some(3), None]);
    let up = Collection::new(Kind::Project, corpus())
        .sort_by(project(Name::Stars), Direction::Ascending)
        .unwrap();
    assert_eq!(up.ids(), vec![3, 6, 1, 4, 0, 2, 5]);
    let down = Collection::new(Kind::Project, corpus())
        .sort_by(project(Name::Stars), Direction::Descending)
        .unwrap();
    assert_eq!(down.ids(), vec![5, 0, 2, 1, 4, 3, 6]);
}

#[test]
fn sort_of_many_rows_matches_a_stable_sort() {
    let stars: Vec<Option<u64>> = (0..500u64).map(|i| Some((i * 7919) % 13)).collect();
    let c = Collection::new(Kind::Project, with_stars(&stars))
        .sort_by(project(Name::Stars), Direction::Ascending)
        .unwrap();
    let mut expected: Vec<u64> = (0..500).collect();
    expected.sort_by_key(|i| (i * 7919) % 13);
    assert_eq!(c.ids(), expected);
}

#[test]
fn sort_by_timestamps_orders_negative_first() {
    let corpus: Vec<Record> = [5i64, -7, 0, i64::MIN, i64::MAX]
        .iter()
        .enumerate()
        .map(|(i, t)| Record::new(Kind::Project, i as u64).with(Name::Pushed, Value::Timestamp(*t)))
        .collect();
    let c = Collection::new(Kind::Project, corpus)
        .sort_by(project(Name::Pushed), Direction::Ascending)
        .unwrap();
    assert_eq!(c.ids(), vec![3, 1, 2, 0, 4]);
}

#[test]
fn sort_rejects_what_has_no_order() {
    let c = Collection::new(Kind::Project, with_stars(&[Some(1)]));
    assert_eq!(
        c.sort_by(project(Name::Language), Direction::Ascending).err(),
        Some(Issue::NotOrdered)
    );
    let c = Collection::new(Kind::Project, with_stars(&[Some(1)]));
    assert_eq!(
        c.sort_by(project(Name::Contents), Direction::Ascending).err(),
        Some(Issue::UnknownAccessor)
    );
}

#[test]
fn stable_positions_on_keys() {
    let keys = vec![
        Key { tag: 1, num: 5 },
        Key { tag: 0, num: 0 },
        Key { tag: 1, num: -3 },
        Key { tag: 1, num: 5 },
        Key { tag: 0, num: 0 },
    ];
    assert_eq!(stable_positions(&keys), vec![1, 4, 2, 0, 3]);
    assert_eq!(stable_positions(&vec![]), Vec::<usize>::new());
    assert_eq!(stable_positions(&vec![Key { tag: 3, num: 1 }]), vec![0]);
}

#[test]
fn top_takes_the_first_rows_and_clamps() {
    assert_eq!(take_top(vec![4, 2, 9], 2), vec![4, 2]);
    assert_eq!(take_top(vec![4, 2, 9], 3), vec![4, 2, 9]);
    assert_eq!(take_top(vec![4, 2, 9], 10), vec![4, 2, 9]);
    assert_eq!(take_top(vec![4, 2, 9], 0), Vec::<usize>::new());
    assert_eq!(take_top(vec![], 5), Vec::<usize>::new());
}

#[test]
fn top_after_sort_gives_the_smallest_with_ties_in_order() {
    let c = Collection::new(Kind::Project, with_stars(&[Some(2), Some(1), Some(2), Some(1), Some(3)]))
        .sort_by(project(Name::Stars), Direction::Ascending)
        .unwrap()
        .sample(SampleSpec::Top(3));
    assert_eq!(c.ids(), vec![1, 3, 0]);
}

#[test]
fn generator_gives_the_known_numbers() {
    let mut state = 1234567u64;
    let mut got = Vec::new();
    for _ in 0..5 {
        state = next_state(state);
        got.push(output(state));
    }
    assert_eq!(
        got,
        vec![
            6457827717110365317,
            3203168211198807973,
            9817491932198370423,
            4593380528125082431,
            16408922859458223821
        ]
    );
    assert_eq!(output(next_state(0)), 16294208416658607535);
    assert_eq!(next_state(u64::MAX), 0x9E37_79B9_7F4A_7C14);
}

#[test]
fn random_sample_is_pinned_down() {
    let rows: Vec<usize> = (0..100).collect();
    assert_eq!(take_random(rows.clone(), 10, 42), vec![13, 83, 86, 9, 2, 27, 87, 45, 65, 28]);
    assert_eq!(take_random(rows.clone(), 10, 7), vec![87, 34, 58, 70, 62, 5, 1, 25, 33, 44]);
    assert_eq!(take_random((0..5).collect(), 10, 42), vec![3, 4, 2, 0, 1]);
    assert_eq!(take_random(vec![], 3, 42), Vec::<usize>::new());
    assert_eq!(take_random(rows.clone(), 0, 42), Vec::<usize>::new());
    assert_eq!(
        take_sample(rows.clone(), SampleSpec::Random(10, Seed(42))),
        take_random(rows.clone(), 10, 42)
    );
    assert_eq!(take_sample(rows, SampleSpec::Top(2)), vec![0, 1]);
}

#[test]
fn random_sample_has_no_repetitions() {
    for seed in 0..50u64 {
        let mut got = take_random((0..30).collect(), 30, seed);
        got.sort();
        assert_eq!(got, (0..30).collect::<Vec<usize>>());
    }
}

#[test]
fn group_seeds_differ_by_key() {
    let go = Value::Lang(Language::Go).key();
    let java = Value::Lang(Language::Java).key();
    assert_eq!(seed_for_group(42, go), 452869059724949250);
    assert_eq!(seed_for_group(42, java), 13594823220581198463);
}

#[test]
fn grouping_orders_groups_by_key_and_keeps_order_within() {
    let corpus = languages(&[
        (1, Language::Java, 1),
        (2, Language::Go, 2),
        (3, Language::Java, 3),
        (4, Language::C, 4),
        (5, Language::Go, 5),
    ]);
    let c = Collection::new(Kind::Project, corpus).group_by(project(Name::Language)).unwrap();
    assert!(c.is_grouped());
    assert_eq!(c.group_count(), Some(3));
    assert_eq!(c.ids(), vec![4, 2, 5, 1, 3]);
    assert_eq!(c.len(), 5);
    let c = c.ungroup().unwrap();
    assert!(!c.is_grouped());
    assert_eq!(c.ids(), vec![4, 2, 5, 1, 3]);
}

#[test]
fn group_then_ungroup_keeps_every_record_once() {
    let langs = [Language::Java, Language::Go, Language::C, Language::Rust];
    let corpus: Vec<(u64, Language, u64)> =
        (0..40u64).map(|i| (i, langs[((i * 7) % 4) as usize], i)).collect();
    let c = Collection::new(Kind::Project, languages(&corpus))
        .group_by(project(Name::Language))
        .unwrap()
        .ungroup()
        .unwrap();
    let mut ids = c.ids();
    ids.sort();
    assert_eq!(ids, (0..40).collect::<Vec<u64>>());
}

#[test]
fn records_without_the_key_form_the_first_group() {
    let corpus = vec![
        Record::new(Kind::Project, 1).with(Name::Language, Value::Lang(Language::C)),
        Record::new(Kind::Project, 2),
        Record::new(Kind::Project, 3).with(Name::Language, Value::Lang(Language::C)),
    ];
    let c = Collection::new(Kind::Project, corpus).group_by(project(Name::Language)).unwrap();
    assert_eq!(c.group_count(), Some(2));
    assert_eq!(c.ids(), vec![2, 1, 3]);
}

#[test]
fn stages_apply_within_each_group() {
    let corpus = || {
        languages(&[
            (1, Language::Java, 5),
            (2, Language::Go, 9),
            (3, Language::Java, 1),
            (4, Language::Go, 2),
            (5, Language::Java, 3),
        ])
    };
    let grouped =
        || Collection::new(Kind::Project, corpus()).group_by(project(Name::Language)).unwrap();
    let sorted = grouped().sort_by(project(Name::Stars), Direction::Ascending).unwrap();
    assert_eq!(sorted.ids(), vec![4, 2, 3, 5, 1]);
    let filtered = grouped().filter_by(&stars_at_least(3)).unwrap();
    assert_eq!(filtered.ids(), vec![2, 1, 5]);
    assert_eq!(filtered.group_count(), Some(2));
    let emptied = grouped().filter_by(&stars_at_least(6)).unwrap();
    assert_eq!(emptied.ids(), vec![2]);
    assert_eq!(emptied.group_count(), Some(2));
    let top = grouped().sample(SampleSpec::Top(2));
    assert_eq!(top.ids(), vec![2, 4, 1, 3]);
}

#[test]
fn random_sample_within_groups_uses_the_seed_of_each_group() {
    let corpus = languages(&[
        (1, Language::Java, 0),
        (2, Language::Go, 0),
        (3, Language::Java, 0),
        (4, Language::Java, 0),
        (5, Language::Go, 0),
        (6, Language::Java, 0),
        (7, Language::Go, 0),
        (8, Language::Java, 0),
        (9, Language::Go, 0),
    ]);
    let c = Collection::new(Kind::Project, corpus)
        .group_by(project(Name::Language))
        .unwrap()
        .sample(SampleSpec::Random(2, Seed(42)));
    assert_eq!(c.ids(), vec![9, 5, 1, 3]);
}

#[test]
fn grouping_twice_and_ungrouping_flat_fail() {
    let c = Collection::new(Kind::Project, languages(&[(1, Language::C, 1)]));
    let c = c.group_by(project(Name::Language)).unwrap();
    assert_eq!(c.group_by(project(Name::Language)).err(), Some(Issue::AlreadyGrouped));
    let c = Collection::new(Kind::Project, languages(&[(1, Language::C, 1)]));
    assert_eq!(c.ungroup().err(), Some(Issue::NotGrouped));
    let c = Collection::new(Kind::Project, languages(&[(1, Language::C, 1)]));
    assert_eq!(c.group_by(project(Name::Url)).err(), Some(Issue::NotKeyed));
    let c = Collection::new(Kind::Project, languages(&[(1, Language::C, 1)]));
    assert_eq!(c.group_by(project(Name::Users)).err(), Some(Issue::UnknownAccessor));
}

#[test]
fn projection_reads_one_field() {
    let c = Collection::new(Kind::Project, with_stars(&[Some(5), None, Some(9)]));
    assert_eq!(
        c.map_into(project(Name::Stars)).unwrap(),
        vec![Value::Integer(5), Value::Absent, Value::Integer(9)]
    );
    assert_eq!(
        c.map_into(project(Name::Id)).unwrap(),
        vec![Value::Integer(0), Value::Integer(1), Value::Integer(2)]
    );
    assert_eq!(c.map_into(project(Name::Contents)).err(), Some(Issue::UnknownAccessor));
    let g = c.group_by(project(Name::Stars)).unwrap();
    assert_eq!(g.map_into(project(Name::Stars)).err(), Some(Issue::StillGrouped));
}

#[test]
fn pipeline_names_the_stage_at_fault() {
    let p = Pipeline::over(Kind::Project)
        .filter_by(stars_at_least(1))
        .sort_by(project(Name::Language));
    assert_eq!(p.check(), Some(ConfigError { stage: 1, issue: Issue::NotOrdered }));
    assert_eq!(
        p.run(with_stars(&[Some(1)])).err(),
        Some(ConfigError { stage: 1, issue: Issue::NotOrdered })
    );
    let p = Pipeline::over(Kind::Project).ungroup();
    assert_eq!(p.check(), Some(ConfigError { stage: 0, issue: Issue::NotGrouped }));
    let p = Pipeline::over(Kind::Project)
        .group_by(project(Name::Stars))
        .sample(SampleSpec::Top(1))
        .group_by(project(Name::Stars));
    assert_eq!(p.check(), Some(ConfigError { stage: 2, issue: Issue::AlreadyGrouped }));
    let p = Pipeline::over(Kind::Project).group_by(project(Name::Stars)).map_into(project(Name::Id));
    assert_eq!(p.check(), Some(ConfigError { stage: 1, issue: Issue::StillGrouped }));
    let p = Pipeline::over(Kind::Project)
        .map_into(project(Name::Id))
        .filter_by(stars_at_least(1));
    assert_eq!(p.check(), Some(ConfigError { stage: 1, issue: Issue::AfterProjection }));
    let p = Pipeline::over(Kind::Project)
        .filter_by(Predicate::Matches(project(Name::Url), "(".to_string()));
    assert_eq!(p.check(), Some(ConfigError { stage: 0, issue: Issue::BadPattern }));
    let p = Pipeline::over(Kind::Snapshot).filter_by(stars_at_least(1));
    assert_eq!(p.check(), Some(ConfigError { stage: 0, issue: Issue::UnknownAccessor }));
}

#[test]
fn pipeline_runs_its_stages_in_order() {
    let corpus = || with_stars(&[Some(5), Some(1), Some(9), Some(7), Some(3)]);
    let p = Pipeline::over(Kind::Project)
        .filter_by(stars_at_least(3))
        .sort_by_in(project(Name::Stars), Direction::Descending)
        .sample(SampleSpec::Top(3));
    assert_eq!(p.check(), None);
    assert!(!p.leaves_groups());
    match p.run(corpus()).unwrap() {
        Outcome::Records(c) => assert_eq!(c.ids(), vec![2, 3, 0]),
        Outcome::Values(_) => panic!("a collection was expected"),
    }
    let p = Pipeline::over(Kind::Project)
        .sample(SampleSpec::Top(3))
        .filter_by(stars_at_least(3));
    match p.run(corpus()).unwrap() {
        Outcome::Records(c) => assert_eq!(c.ids(), vec![0, 2]),
        Outcome::Values(_) => panic!("a collection was expected"),
    }
    let p = Pipeline::over(Kind::Project).filter_by(stars_at_least(5)).map_into(project(Name::Stars));
    match p.run(corpus()).unwrap() {
        Outcome::Values(v) => {
            assert_eq!(v, vec![Value::Integer(5), Value::Integer(9), Value::Integer(7)])
        }
        Outcome::Records(_) => panic!("values were expected"),
    }
    let p = Pipeline::over(Kind::Project).group_by(project(Name::Stars));
    assert!(p.leaves_groups());
    let p = Pipeline::over(Kind::Project).with_stage(Stage::Ungroup);
    assert_eq!(p.check(), Some(ConfigError { stage: 0, issue: Issue::NotGrouped }));
}

#[test]
fn empty_pipeline_gives_everything() {
    let p = Pipeline::over(Kind::Project);
    match p.run(with_stars(&[Some(1), Some(2)])).unwrap() {
        Outcome::Records(c) => assert_eq!(c.ids(), vec![0, 1]),
        Outcome::Values(_) => panic!("a collection was expected"),
    }
}

#[test]
fn advance_applies_one_stage() {
    let c = Collection::new(Kind::Project, with_stars(&[Some(5), Some(1)]));
    let c = advance(c, &Stage::FilterBy(stars_at_least(2))).unwrap();
    assert_eq!(c.ids(), vec![0]);
    let c = advance(c, &Stage::MapInto(project(Name::Stars))).unwrap();
    assert_eq!(c.ids(), vec![0]);
    assert_eq!(advance(c, &Stage::Ungroup).err(), Some(Issue::NotGrouped));
}

#[test]
fn exact_samples_fail_on_too_few_records() {
    let flat = || Collection::new(Kind::Project, with_stars(&[Some(1), Some(2), Some(3)]));
    assert!(flat().has_enough(SampleSpec::Top(3)));
    assert!(!flat().has_enough(SampleSpec::Top(4)));
    assert_eq!(flat().sample_exactly(SampleSpec::Top(2)).unwrap().ids(), vec![0, 1]);
    assert_eq!(flat().sample_exactly(SampleSpec::Top(3)).unwrap().ids(), vec![0, 1, 2]);
    assert_eq!(flat().sample_exactly(SampleSpec::Top(4)).err(), Some(Issue::TooFew));
    assert_eq!(
        flat().sample_exactly(SampleSpec::Random(4, Seed(1))).err(),
        Some(Issue::TooFew)
    );
    assert_eq!(flat().sample(SampleSpec::Top(4)).ids(), vec![0, 1, 2]);
    let grouped = || {
        Collection::new(
            Kind::Project,
            languages(&[(1, Language::Java, 0), (2, Language::Go, 0), (3, Language::Java, 0)]),
        )
        .group_by(project(Name::Language))
        .unwrap()
    };
    assert!(grouped().has_enough(SampleSpec::Top(1)));
    assert!(!grouped().has_enough(SampleSpec::Top(2)));
    assert_eq!(grouped().sample_exactly(SampleSpec::Top(1)).unwrap().ids(), vec![2, 1]);
    assert_eq!(grouped().sample_exactly(SampleSpec::Top(2)).err(), Some(Issue::TooFew));
}
