use corpus_query::predicate::{Expr, Issue, Predicate, Source};
use corpus_query::record::{Accessor, Kind, Name, Record};
use corpus_query::text::{check_pattern, contains_bytes, is_match, is_pattern, search};
use corpus_query::value::{Fraction, Language, Relation, Value, ValueType};
use std::collections::HashSet;

fn project(name: Name) -> Accessor {
    Accessor::new(Kind::Project, name)
}

fn path(id: u64, language: Language) -> Record {
    Record::new(Kind::Path, id).with(Name::Language, Value::Lang(language))
}

fn java_paths() -> Source {
    Source::FromEachIf(
        project(Name::Paths),
        Box::new(Predicate::Equal(
            Expr::Field(Accessor::new(Kind::Path, Name::Language)),
            Value::Lang(Language::Java),
        )),
    )
}

fn sample_project() -> Record {
    Record::new(Kind::Project, 7)
        .with(Name::Url, Value::text("https://github.com/apache/kafka"))
        .with(Name::Language, Value::Lang(Language::Java))
        .with(Name::Stars, Value::Integer(120))
        .with(Name::Forks, Value::Integer(3))
        .with(Name::Age, Value::Duration(1000))
        .with(Name::Pushed, Value::Timestamp(-5))
        .with(Name::HasIssues, Value::Flag(true))
        .with(Name::SnapshotIds, Value::Ids(vec![4, 8, 15]))
        .with_items(
            Name::Paths,
            vec![
                path(1, Language::Java),
                path(2, Language::Java),
                path(3, Language::C),
                path(4, Language::Java),
            ],
        )
        .with_items(Name::Commits, vec![Record::new(Kind::Commit, 1), Record::new(Kind::Commit, 2)])
}

#[test]
fn reading_fields_and_absence() {
    let r = sample_project();
    assert_eq!(*r.read(Name::Id).get(), Value::Integer(7));
    assert_eq!(*r.read(Name::Stars).get(), Value::Integer(120));
    assert_eq!(*r.read(Name::Size).get(), Value::Absent);
    assert_eq!(r.items(Name::Paths).unwrap().len(), 4);
    assert!(r.items(Name::Users).is_none());
}

#[test]
fn first_value_of_a_repeated_field_wins() {
    let r = Record::new(Kind::Project, 1)
        .with(Name::Stars, Value::Integer(1))
        .with(Name::Stars, Value::Integer(2));
    assert_eq!(*r.read(Name::Stars).get(), Value::Integer(1));
}

#[test]
fn thresholds_on_integers() {
    let r = sample_project();
    let stars = || Expr::Field(project(Name::Stars));
    assert!(Predicate::AtLeast(stars(), Value::Integer(120)).test(&r));
    assert!(!Predicate::AtLeast(stars(), Value::Integer(121)).test(&r));
    assert!(!Predicate::MoreThan(stars(), Value::Integer(120)).test(&r));
    assert!(Predicate::MoreThan(stars(), Value::Integer(119)).test(&r));
    assert!(Predicate::LessThan(stars(), Value::Integer(121)).test(&r));
    assert!(!Predicate::LessThan(stars(), Value::Integer(120)).test(&r));
    assert!(Predicate::Equal(stars(), Value::Integer(120)).test(&r));
    assert!(!Predicate::Equal(stars(), Value::Integer(5)).test(&r));
}

#[test]
fn thresholds_on_timestamps_and_durations() {
    let r = sample_project();
    assert!(Predicate::LessThan(Expr::Field(project(Name::Pushed)), Value::Timestamp(0)).test(&r));
    assert!(Predicate::AtLeast(Expr::Field(project(Name::Pushed)), Value::Timestamp(-5)).test(&r));
    assert!(Predicate::AtLeast(Expr::Field(project(Name::Age)), Value::Duration(1000)).test(&r));
    assert!(!Predicate::MoreThan(Expr::Field(project(Name::Age)), Value::Duration(1000)).test(&r));
}

#[test]
fn comparison_with_another_type_or_absent_is_false() {
    let r = sample_project();
    assert!(!Predicate::AtLeast(Expr::Field(project(Name::Stars)), Value::Timestamp(0)).test(&r));
    assert!(!Predicate::AtLeast(Expr::Field(project(Name::Size)), Value::Integer(0)).test(&r));
    assert!(!Predicate::LessThan(Expr::Field(project(Name::Size)), Value::Integer(9)).test(&r));
    assert!(!Predicate::Equal(Expr::Field(project(Name::Size)), Value::Absent).test(&r));
}

#[test]
fn counts_of_nested_collections() {
    let r = sample_project();
    assert_eq!(Source::All(project(Name::Paths)).count(&r), 4);
    assert_eq!(java_paths().count(&r), 3);
    assert_eq!(Source::All(project(Name::Users)).count(&r), 0);
    assert!(Predicate::Equal(Expr::Count(java_paths()), Value::Integer(3)).test(&r));
    assert!(Predicate::MoreThan(Expr::Count(Source::All(project(Name::Commits))), Value::Integer(1))
        .test(&r));
}

#[test]
fn ratio_is_exact() {
    let r = sample_project();
    let ratio = || Expr::Ratio(java_paths(), Source::All(project(Name::Paths)));
    assert_eq!(*ratio().value(&r).get(), Value::Ratio(Fraction::new(3, 4)));
    assert!(Predicate::AtLeast(ratio(), Value::Ratio(Fraction::new(3, 4))).test(&r));
    assert!(Predicate::AtLeast(ratio(), Value::Ratio(Fraction::new(75, 100))).test(&r));
    assert!(Predicate::Equal(ratio(), Value::Ratio(Fraction::new(6, 8))).test(&r));
    assert!(!Predicate::AtLeast(ratio(), Value::Ratio(Fraction::new(9, 10))).test(&r));
    assert!(Predicate::LessThan(ratio(), Value::Ratio(Fraction::new(9, 10))).test(&r));
    assert!(Predicate::MoreThan(ratio(), Value::Ratio(Fraction::new(2, 3))).test(&r));
}

#[test]
fn ratio_of_large_counts_does_not_wrap() {
    let a = Value::Ratio(Fraction::new(u64::MAX, u64::MAX - 1));
    let b = Value::Ratio(Fraction::new(u64::MAX - 1, u64::MAX));
    assert_eq!(a.relate(&b), Relation::Greater);
    assert_eq!(b.relate(&a), Relation::Less);
    assert_eq!(a.relate(&a), Relation::Same);
    assert!(!a.same(&b));
}

#[test]
fn ratio_over_nothing_is_not_applicable() {
    let r = Record::new(Kind::Project, 1).with_items(Name::Paths, vec![]);
    let ratio = || Expr::Ratio(java_paths(), Source::All(project(Name::Paths)));
    assert_eq!(*ratio().value(&r).get(), Value::NotApplicable);
    for t in [Fraction::new(0, 1), Fraction::new(9, 10), Fraction::new(1, 1), Fraction::new(5, 0)] {
        assert!(!Predicate::AtLeast(ratio(), Value::Ratio(t)).test(&r));
        assert!(!Predicate::LessThan(ratio(), Value::Ratio(t)).test(&r));
        assert!(!Predicate::Equal(ratio(), Value::Ratio(t)).test(&r));
    }
    assert!(!Predicate::Equal(ratio(), Value::NotApplicable).test(&r));
}

#[test]
fn ratio_literal_without_denominator_compares_with_nothing() {
    let r = sample_project();
    let ratio = Expr::Ratio(java_paths(), Source::All(project(Name::Paths)));
    assert!(!Predicate::AtLeast(ratio, Value::Ratio(Fraction::new(0, 0))).test(&r));
}

#[test]
fn matches_searches_anywhere_in_the_text() {
    let r = sample_project();
    let url = project(Name::Url);
    let pattern = "https://github.com/(eclipse|apache)/".to_string();
    assert!(Predicate::Matches(url, pattern).test(&r));
    assert!(Predicate::Matches(url, "apache".to_string()).test(&r));
    assert!(!Predicate::Matches(url, "^apache".to_string()).test(&r));
    assert!(!Predicate::Matches(url, "^https://github.com/eclipse/".to_string()).test(&r));
    assert!(!Predicate::Matches(project(Name::Stars), "1".to_string()).test(&r));
}

#[test]
fn regex_search_tells_patterns_from_texts() {
    assert!(search("a+b", &b"xxaab".to_vec()));
    assert!(!search("a+b", &b"xxaa".to_vec()));
    assert!(!search("a+b(", &b"aab(".to_vec()));
    assert!(check_pattern("a+b"));
    assert!(!check_pattern("a+b("));
    assert!(is_match(Some(true)));
    assert!(!is_match(Some(false)));
    assert!(!is_match(None));
    assert!(is_pattern(Some(false)));
    assert!(!is_pattern(None));
}

#[test]
fn contains_finds_substrings() {
    assert!(contains_bytes(&b"import org.junit.Test;".to_vec(), &b"import org.junit".to_vec()));
    assert!(contains_bytes(&b"abc".to_vec(), &b"".to_vec()));
    assert!(contains_bytes(&b"".to_vec(), &b"".to_vec()));
    assert!(contains_bytes(&b"abc".to_vec(), &b"c".to_vec()));
    assert!(contains_bytes(&b"abc".to_vec(), &b"abc".to_vec()));
    assert!(!contains_bytes(&b"abc".to_vec(), &b"abcd".to_vec()));
    assert!(!contains_bytes(&b"abc".to_vec(), &b"ca".to_vec()));
    assert!(contains_bytes(&b"aab".to_vec(), &b"ab".to_vec()));
    let snapshot = Record::new(Kind::Snapshot, 3)
        .with(Name::Contents, Value::text("package x;\nimport org.junit.Assert;\n"));
    let contents = Accessor::new(Kind::Snapshot, Name::Contents);
    assert!(Predicate::Contains(contents, b"import org.junit".to_vec()).test(&snapshot));
    assert!(!Predicate::Contains(contents, b"import org.testng".to_vec()).test(&snapshot));
}

#[test]
fn member_and_any_in() {
    let r = sample_project();
    let language = || Expr::Field(project(Name::Language));
    let some = vec![Value::Lang(Language::C), Value::Lang(Language::Java)];
    let none = vec![Value::Lang(Language::C), Value::Lang(Language::Go)];
    assert!(Predicate::Member(language(), some).test(&r));
    assert!(!Predicate::Member(language(), none).test(&r));
    assert!(!Predicate::Member(language(), vec![]).test(&r));
    let ids = project(Name::SnapshotIds);
    let hit: HashSet<u64> = [15u64, 16].into_iter().collect();
    let miss: HashSet<u64> = [5u64, 16].into_iter().collect();
    assert!(Predicate::AnyIn(ids, hit).test(&r));
    assert!(!Predicate::AnyIn(ids, miss).test(&r));
    assert!(!Predicate::AnyIn(ids, HashSet::new()).test(&r));
    assert!(!Predicate::AnyIn(project(Name::Stars), [120u64].into_iter().collect()).test(&r));
}

#[test]
fn holds_and_or() {
    let r = sample_project();
    assert!(Predicate::Holds(project(Name::HasIssues)).test(&r));
    assert!(!Predicate::Holds(project(Name::Stars)).test(&r));
    let stars = Predicate::AtLeast(Expr::Field(project(Name::Stars)), Value::Integer(500));
    let forks = Predicate::AtLeast(Expr::Field(project(Name::Forks)), Value::Integer(3));
    assert!(Predicate::Or(Box::new(stars), Box::new(forks)).test(&r));
    let stars = Predicate::AtLeast(Expr::Field(project(Name::Stars)), Value::Integer(500));
    let forks = Predicate::AtLeast(Expr::Field(project(Name::Forks)), Value::Integer(4));
    assert!(!Predicate::Or(Box::new(stars), Box::new(forks)).test(&r));
}

#[test]
fn accessor_of_another_kind_reads_nothing() {
    let r = sample_project();
    let wrong = Accessor::new(Kind::Snapshot, Name::Id);
    assert!(!Predicate::Equal(Expr::Field(wrong), Value::Integer(7)).test(&r));
    assert!(Predicate::Equal(Expr::Field(project(Name::Id)), Value::Integer(7)).test(&r));
}

#[test]
fn schema() {
    assert_eq!(project(Name::Stars).value_type(), Some(ValueType::Integer));
    assert_eq!(project(Name::Url).value_type(), Some(ValueType::Text));
    assert_eq!(project(Name::Paths).value_type(), None);
    assert_eq!(project(Name::Paths).item_kind(), Some(Kind::Path));
    assert_eq!(project(Name::Stars).item_kind(), None);
    assert_eq!(Accessor::new(Kind::Path, Name::Stars).value_type(), None);
    assert_eq!(Accessor::new(Kind::Snapshot, Name::Contents).value_type(), Some(ValueType::Text));
    assert_eq!(Accessor::new(Kind::User, Name::Id).value_type(), Some(ValueType::Integer));
}

#[test]
fn valid_predicates_have_no_issue() {
    let p = Predicate::AtLeast(Expr::Count(java_paths()), Value::Integer(1));
    assert_eq!(p.check(Kind::Project), None);
    let p = Predicate::AtLeast(
        Expr::Ratio(java_paths(), Source::All(project(Name::Paths))),
        Value::Ratio(Fraction::new(9, 10)),
    );
    assert_eq!(p.check(Kind::Project), None);
    let p = Predicate::Matches(project(Name::Url), "^https://".to_string());
    assert_eq!(p.check(Kind::Project), None);
    let p = Predicate::Equal(Expr::Field(project(Name::Url)), Value::text("x"));
    assert_eq!(p.check(Kind::Project), None);
}

#[test]
fn unknown_accessors_are_reported() {
    let p = Predicate::Equal(Expr::Field(Accessor::new(Kind::Path, Name::Stars)), Value::Integer(1));
    assert_eq!(p.check(Kind::Path), Some(Issue::UnknownAccessor));
    let p = Predicate::Equal(Expr::Field(project(Name::Stars)), Value::Integer(1));
    assert_eq!(p.check(Kind::Snapshot), Some(Issue::UnknownAccessor));
    let p = Predicate::AtLeast(Expr::Count(Source::All(project(Name::Stars))), Value::Integer(1));
    assert_eq!(p.check(Kind::Project), Some(Issue::UnknownAccessor));
    let inner = Predicate::Equal(Expr::Field(project(Name::Stars)), Value::Integer(1));
    let p = Predicate::AtLeast(
        Expr::Count(Source::FromEachIf(project(Name::Paths), Box::new(inner))),
        Value::Integer(1),
    );
    assert_eq!(p.check(Kind::Project), Some(Issue::UnknownAccessor));
    assert_eq!(Predicate::Holds(project(Name::Contents)).check(Kind::Project), Some(Issue::UnknownAccessor));
}

#[test]
fn mismatched_literals_are_reported() {
    let p = Predicate::Equal(Expr::Field(project(Name::Stars)), Value::Timestamp(1));
    assert_eq!(p.check(Kind::Project), Some(Issue::TypeMismatch));
    let p = Predicate::AtLeast(Expr::Field(project(Name::Stars)), Value::Absent);
    assert_eq!(p.check(Kind::Project), Some(Issue::TypeMismatch));
    let p = Predicate::AtLeast(
        Expr::Ratio(java_paths(), Source::All(project(Name::Paths))),
        Value::Ratio(Fraction::new(1, 0)),
    );
    assert_eq!(p.check(Kind::Project), Some(Issue::TypeMismatch));
    let p = Predicate::Member(
        Expr::Field(project(Name::Language)),
        vec![Value::Lang(Language::C), Value::Integer(1)],
    );
    assert_eq!(p.check(Kind::Project), Some(Issue::TypeMismatch));
    assert_eq!(
        Predicate::Matches(project(Name::Stars), "1".to_string()).check(Kind::Project),
        Some(Issue::TypeMismatch)
    );
    assert_eq!(
        Predicate::Contains(project(Name::Stars), vec![]).check(Kind::Project),
        Some(Issue::TypeMismatch)
    );
    assert_eq!(
        Predicate::AnyIn(project(Name::Stars), HashSet::new()).check(Kind::Project),
        Some(Issue::TypeMismatch)
    );
    assert_eq!(Predicate::Holds(project(Name::Stars)).check(Kind::Project), Some(Issue::TypeMismatch));
}

#[test]
fn thresholds_on_unordered_types_are_reported() {
    let p = Predicate::AtLeast(Expr::Field(project(Name::Language)), Value::Lang(Language::C));
    assert_eq!(p.check(Kind::Project), Some(Issue::NotOrdered));
    let p = Predicate::LessThan(Expr::Field(project(Name::Url)), Value::text("x"));
    assert_eq!(p.check(Kind::Project), Some(Issue::NotOrdered));
    let p = Predicate::MoreThan(Expr::Field(project(Name::HasIssues)), Value::Flag(true));
    assert_eq!(p.check(Kind::Project), Some(Issue::NotOrdered));
}

#[test]
fn bad_patterns_are_reported() {
    let p = Predicate::Matches(project(Name::Url), "(unclosed".to_string());
    assert_eq!(p.check(Kind::Project), Some(Issue::BadPattern));
}

#[test]
fn first_issue_in_reading_order_is_reported() {
    let bad_pattern = Predicate::Matches(project(Name::Url), "(".to_string());
    let bad_type = Predicate::Holds(project(Name::Stars));
    let p = Predicate::Or(Box::new(bad_pattern), Box::new(bad_type));
    assert_eq!(p.check(Kind::Project), Some(Issue::BadPattern));
    let bad_pattern = Predicate::Matches(project(Name::Url), "(".to_string());
    let bad_type = Predicate::Holds(project(Name::Stars));
    let p = Predicate::Or(Box::new(bad_type), Box::new(bad_pattern));
    assert_eq!(p.check(Kind::Project), Some(Issue::TypeMismatch));
}

#[test]
fn values_compare_and_rank() {
    assert_eq!(Value::Integer(1).relate(&Value::Integer(2)), Relation::Less);
    assert_eq!(Value::Integer(u64::MAX).relate(&Value::Integer(0)), Relation::Greater);
    assert_eq!(Value::Timestamp(i64::MIN).relate(&Value::Timestamp(i64::MAX)), Relation::Less);
    assert_eq!(Value::Duration(3).relate(&Value::Duration(3)), Relation::Same);
    assert_eq!(Value::Integer(1).relate(&Value::Duration(1)), Relation::Incomparable);
    assert_eq!(Value::text("a").relate(&Value::text("b")), Relation::Incomparable);
    assert!(Value::text("a").same(&Value::text("a")));
    assert!(!Value::text("a").same(&Value::text("ab")));
    assert!(Value::Ids(vec![1, 2]).same(&Value::Ids(vec![1, 2])));
    assert!(!Value::Ids(vec![1, 2]).same(&Value::Ids(vec![2, 1])));
    assert!(!Value::Absent.same(&Value::Absent));
    assert!(Value::Integer(5).key().less(Value::Integer(6).key()));
    assert!(Value::Absent.key().less(Value::Integer(0).key()));
    assert!(Value::Lang(Language::Go).key().less(Value::Lang(Language::Java).key()));
    assert!(Value::Integer(6).key().flip().less(Value::Integer(5).key().flip()));
    assert_eq!(Value::text("héllo").duplicate(), Value::Text("héllo".as_bytes().to_vec()));
    assert_eq!(Language::Java.index(), 12);
    assert_eq!(Language::Cpp.label(), "C++");
    assert_eq!(Value::Flag(true).value_type(), Some(ValueType::Flag));
    assert_eq!(Value::NotApplicable.value_type(), None);
    assert!(ValueType::Ratio.ordered());
    assert!(!ValueType::Ratio.keyed());
    assert!(ValueType::Lang.keyed());
    assert!(!ValueType::Lang.ordered());
}
