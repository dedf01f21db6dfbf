use corpus_query::calendar::start_of_month;
use corpus_query::collection::Collection;
use corpus_query::decimal::{push_decimal, read_ids, write_ids};
use corpus_query::export::{append, push_cell, push_timestamp, write_column, write_table};
use corpus_query::pipeline::{ConfigError, Pipeline};
use corpus_query::predicate::{Expr, Issue, Predicate};
use corpus_query::record::{Accessor, Kind, Name, Record};
use corpus_query::report::{columns_of, export};
use corpus_query::sample::SampleSpec;
use corpus_query::value::{Fraction, Language, Value};

fn project(name: Name) -> Accessor {
    Accessor::new(Kind::Project, name)
}

fn cell(v: Value) -> String {
    let mut out = Vec::new();
    push_cell(&mut out, &v);
    String::from_utf8(out).unwrap()
}

fn decimal(n: u64) -> String {
    let mut out = b"x".to_vec();
    push_decimal(&mut out, n);
    String::from_utf8(out).unwrap()
}

#[test]
fn decimal_text() {
    assert_eq!(decimal(0), "x0");
    assert_eq!(decimal(7), "x7");
    assert_eq!(decimal(10), "x10");
    assert_eq!(decimal(1020), "x1020");
    assert_eq!(decimal(u64::MAX), "x18446744073709551615");
}

#[test]
fn cells_of_every_kind_of_value() {
    assert_eq!(cell(Value::Absent), "");
    assert_eq!(cell(Value::NotApplicable), "n/a");
    assert_eq!(cell(Value::Integer(42)), "42");
    assert_eq!(cell(Value::Duration(3600)), "3600s");
    assert_eq!(cell(Value::Ratio(Fraction::new(9, 10))), "9/10");
    assert_eq!(cell(Value::Lang(Language::ObjectiveC)), "Objective-C");
    assert_eq!(cell(Value::Flag(true)), "true");
    assert_eq!(cell(Value::Flag(false)), "false");
    assert_eq!(cell(Value::text("")), "\"\"");
    assert_eq!(cell(Value::text("a,b")), "\"a,b\"");
    assert_eq!(cell(Value::text("say \"hi\"")), "\"say \"\"hi\"\"\"");
    assert_eq!(cell(Value::Ids(vec![])), "[]");
    assert_eq!(cell(Value::Ids(vec![7])), "[7]");
    assert_eq!(cell(Value::Ids(vec![7, 8, 90])), "[7;8;90]");
}

#[test]
fn timestamps_are_written_in_rfc_3339() {
    assert_eq!(cell(Value::Timestamp(0)), "1970-01-01T00:00:00+00:00");
    assert_eq!(cell(Value::Timestamp(1609459200)), "2021-01-01T00:00:00+00:00");
    assert_eq!(cell(Value::Timestamp(1431648000)), "2015-05-15T00:00:00+00:00");
    assert_eq!(cell(Value::Timestamp(-1)), "1969-12-31T23:59:59+00:00");
}

#[test]
fn timestamps_outside_the_calendar_are_written_as_seconds() {
    assert_eq!(cell(Value::Timestamp(i64::MAX)), "@9223372036854775807");
    assert_eq!(cell(Value::Timestamp(i64::MIN)), "@-9223372036854775808");
    let mut out = Vec::new();
    push_timestamp(&mut out, 5, None);
    assert_eq!(out, b"@5".to_vec());
    let mut out = Vec::new();
    push_timestamp(&mut out, -5, None);
    assert_eq!(out, b"@-5".to_vec());
    let mut out = Vec::new();
    push_timestamp(&mut out, -5, Some("text".to_string()));
    assert_eq!(out, b"text".to_vec());
}

#[test]
fn months_start_where_the_calendar_says() {
    assert_eq!(start_of_month(1970, 1), Some(0));
    assert_eq!(start_of_month(2021, 1), Some(1609459200));
    assert_eq!(start_of_month(2019, 1), Some(1546300800));
    assert_eq!(start_of_month(2020, 1), Some(1577836800));
    assert_eq!(start_of_month(2020, 3), Some(1583020800));
    assert_eq!(start_of_month(2020, 13), None);
    assert_eq!(start_of_month(2020, 0), None);
}

#[test]
fn append_adds_bytes() {
    let mut out = b"ab".to_vec();
    append(&mut out, b"cd");
    append(&mut out, b"");
    assert_eq!(out, b"abcd".to_vec());
}

fn corpus() -> Vec<Record> {
    vec![
        Record::new(Kind::Project, 1)
            .with(Name::Url, Value::text("https://github.com/apache/kafka"))
            .with(Name::Stars, Value::Integer(80))
            .with(Name::Language, Value::Lang(Language::Java)),
        Record::new(Kind::Project, 2)
            .with(Name::Url, Value::text("https://example.org/\"x\""))
            .with(Name::Stars, Value::Integer(60)),
        Record::new(Kind::Project, 3).with(Name::Stars, Value::Integer(10)),
    ]
}

#[test]
fn table_of_a_collection() {
    let c = Collection::new(Kind::Project, corpus());
    let columns = vec![project(Name::Id), project(Name::Url), project(Name::Language)];
    let text = String::from_utf8(write_table(&c, &columns)).unwrap();
    assert_eq!(
        text,
        "id,url,language\n\
         1,\"https://github.com/apache/kafka\",Java\n\
         2,\"https://example.org/\"\"x\"\"\",\n\
         3,,\n"
    );
    let none: Vec<Accessor> = vec![];
    assert_eq!(write_table(&c, &none), b"\n\n\n\n".to_vec());
}

#[test]
fn table_of_a_projection() {
    let values = vec![Value::Integer(4), Value::Absent, Value::Integer(15)];
    assert_eq!(write_column(Name::Stars, &values), b"stars\n4\n\n15\n".to_vec());
    assert_eq!(write_column(Name::Id, &vec![]), b"id\n".to_vec());
}

#[test]
fn columns_are_the_fields_the_pipeline_names() {
    let inner = Predicate::Equal(
        Expr::Field(Accessor::new(Kind::Path, Name::Language)),
        Value::Lang(Language::Java),
    );
    let p = Pipeline::over(Kind::Project)
        .filter_by(Predicate::AtLeast(Expr::Field(project(Name::Stars)), Value::Integer(1)))
        .filter_by(Predicate::AtLeast(
            Expr::Count(corpus_query::predicate::Source::FromEachIf(
                project(Name::Paths),
                Box::new(inner),
            )),
            Value::Integer(1),
        ))
        .filter_by(Predicate::Or(
            Box::new(Predicate::Holds(project(Name::HasIssues))),
            Box::new(Predicate::AtLeast(Expr::Field(project(Name::Stars)), Value::Integer(9))),
        ))
        .sort_by(project(Name::Forks))
        .group_by(project(Name::Language))
        .sample(SampleSpec::Top(1))
        .ungroup()
        .sort_by(project(Name::Id));
    assert_eq!(
        columns_of(&p),
        vec![
            project(Name::Id),
            project(Name::Stars),
            project(Name::HasIssues),
            project(Name::Forks),
            project(Name::Language)
        ]
    );
    assert_eq!(columns_of(&Pipeline::over(Kind::Snapshot)), vec![Accessor::new(Kind::Snapshot, Name::Id)]);
}

#[test]
fn export_writes_the_selected_records() {
    let p = Pipeline::over(Kind::Project)
        .filter_by(Predicate::AtLeast(Expr::Field(project(Name::Stars)), Value::Integer(50)))
        .sort_by(project(Name::Stars));
    let text = String::from_utf8(export(&p, corpus()).unwrap()).unwrap();
    assert_eq!(text, "id,stars\n2,60\n1,80\n");
    let p = Pipeline::over(Kind::Project)
        .filter_by(Predicate::AtLeast(Expr::Field(project(Name::Stars)), Value::Integer(50)))
        .map_into(project(Name::Url));
    let text = String::from_utf8(export(&p, corpus()).unwrap()).unwrap();
    assert_eq!(text, "url\n\"https://github.com/apache/kafka\"\n\"https://example.org/\"\"x\"\"\"\n");
}

#[test]
fn export_of_a_grouped_collection_fails() {
    let p = Pipeline::over(Kind::Project).group_by(project(Name::Stars));
    assert_eq!(
        export(&p, corpus()).err(),
        Some(ConfigError { stage: 1, issue: Issue::StillGrouped })
    );
    let p = Pipeline::over(Kind::Project).sort_by(project(Name::Url));
    assert_eq!(
        export(&p, corpus()).err(),
        Some(ConfigError { stage: 0, issue: Issue::NotOrdered })
    );
}

#[test]
fn identifiers_round_trip() {
    for ids in [vec![], vec![0u64], vec![5, 3, 5, u64::MAX, 0, 1020]] {
        let text = write_ids(&ids);
        assert_eq!(read_ids(&text), Some(ids));
    }
    assert_eq!(write_ids(&vec![12, 7]), b"id\n12\n7\n".to_vec());
}

#[test]
fn projected_identifiers_are_read_back() {
    let p = Pipeline::over(Kind::Project)
        .filter_by(Predicate::AtLeast(Expr::Field(project(Name::Stars)), Value::Integer(50)))
        .map_into(project(Name::Id));
    let text = export(&p, corpus()).unwrap();
    assert_eq!(text, b"id\n1\n2\n".to_vec());
    assert_eq!(read_ids(&text), Some(vec![1, 2]));
}

#[test]
fn malformed_identifier_files_are_refused() {
    assert_eq!(read_ids(&b"".to_vec()), None);
    assert_eq!(read_ids(&b"id".to_vec()), None);
    assert_eq!(read_ids(&b"xd\n1\n".to_vec()), None);
    assert_eq!(read_ids(&b"id\n1".to_vec()), None);
    assert_eq!(read_ids(&b"id\n\n".to_vec()), None);
    assert_eq!(read_ids(&b"id\n1\n\n2\n".to_vec()), None);
    assert_eq!(read_ids(&b"id\n1a\n".to_vec()), None);
    assert_eq!(read_ids(&b"id\n-1\n".to_vec()), None);
    assert_eq!(read_ids(&b"id\n18446744073709551616\n".to_vec()), None);
    assert_eq!(read_ids(&b"id\n18446744073709551615\n".to_vec()), Some(vec![u64::MAX]));
    assert_eq!(read_ids(&b"id\n007\n".to_vec()), Some(vec![7]));
    assert_eq!(read_ids(&b"id\n".to_vec()), Some(vec![]));
}
