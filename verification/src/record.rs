//! Records, their named fields and nested collections, and the accessors that
//! read them.

use crate::value::{Value, ValueType, ValueView};
use vstd::prelude::*;

verus! {

/// The kind of entity a record stands for.
#[derive(Clone, Copy, Debug, PartialEq, Eq, Structural)]
pub enum Kind {
    Project,
    Path,
    Commit,
    User,
    Snapshot,
}

/// The name of a field or of a nested collection.
#[derive(Clone, Copy, Debug, PartialEq, Eq, Structural)]
pub enum Name {
    Id,
    Url,
    Language,
    Stars,
    Forks,
    Size,
    Age,
    Created,
    Pushed,
    HasIssues,
    Contents,
    SnapshotIds,
    Paths,
    Commits,
    Users,
}

/// The name as it heads a column of a table.
pub open spec fn name_label(n: Name) -> Seq<char> {
    match n {
        Name::Id => "id"@,
        Name::Url => "url"@,
        Name::Language => "language"@,
        Name::Stars => "stars"@,
        Name::Forks => "forks"@,
        Name::Size => "size"@,
        Name::Age => "age"@,
        Name::Created => "created"@,
        Name::Pushed => "pushed"@,
        Name::HasIssues => "has_issues"@,
        Name::Contents => "contents"@,
        Name::SnapshotIds => "snapshot_ids"@,
        Name::Paths => "paths"@,
        Name::Commits => "commits"@,
        Name::Users => "users"@,
    }
}

impl Name {
    /// The name as it heads a column of a table.
    pub fn label(self) -> (s: &'static str)
        ensures
            s@ == name_label(self),
    {
        match self {
            Name::Id => "id",
            Name::Url => "url",
            Name::Language => "language",
            Name::Stars => "stars",
            Name::Forks => "forks",
            Name::Size => "size",
            Name::Age => "age",
            Name::Created => "created",
            Name::Pushed => "pushed",
            Name::HasIssues => "has_issues",
            Name::Contents => "contents",
            Name::SnapshotIds => "snapshot_ids",
            Name::Paths => "paths",
            Name::Commits => "commits",
            Name::Users => "users",
        }
    }
}

/// An accessor is identified by the kind of record it applies to and by the
/// name it reads there.
#[derive(Clone, Copy, Debug, PartialEq, Eq, Structural)]
pub struct Accessor {
    pub kind: Kind,
    pub name: Name,
}

/// The type of the field an accessor reads, or `None` where records of that
/// kind have no field of that name.
pub open spec fn field_type(a: Accessor) -> Option<ValueType> {
    match (a.kind, a.name) {
        (_, Name::Id) => Some(ValueType::Integer),
        (Kind::Project, Name::Url) => Some(ValueType::Text),
        (Kind::Project, Name::Language) => Some(ValueType::Lang),
        (Kind::Project, Name::Stars) => Some(ValueType::Integer),
        (Kind::Project, Name::Forks) => Some(ValueType::Integer),
        (Kind::Project, Name::Size) => Some(ValueType::Integer),
        (Kind::Project, Name::Age) => Some(ValueType::Duration),
        (Kind::Project, Name::Created) => Some(ValueType::Timestamp),
        (Kind::Project, Name::Pushed) => Some(ValueType::Timestamp),
        (Kind::Project, Name::HasIssues) => Some(ValueType::Flag),
        (Kind::Project, Name::SnapshotIds) => Some(ValueType::Ids),
        (Kind::Path, Name::Language) => Some(ValueType::Lang),
        (Kind::Commit, Name::Created) => Some(ValueType::Timestamp),
        (Kind::Snapshot, Name::Contents) => Some(ValueType::Text),
        _ => None,
    }
}

/// The kind of the records in the nested collection an accessor reads, or
/// `None` where records of that kind have no collection of that name.
pub open spec fn collection_kind(a: Accessor) -> Option<Kind> {
    match (a.kind, a.name) {
        (Kind::Project, Name::Paths) => Some(Kind::Path),
        (Kind::Project, Name::Commits) => Some(Kind::Commit),
        (Kind::Project, Name::Users) => Some(Kind::User),
        _ => None,
    }
}

impl Accessor {
    /// The accessor that reads `name` from records of kind `kind`.
    pub fn new(kind: Kind, name: Name) -> (a: Accessor)
        ensures
            a == (Accessor { kind, name }),
    {
        Accessor { kind, name }
    }

    /// The type of the field this accessor reads, if it reads a field.
    pub fn value_type(self) -> (t: Option<ValueType>)
        ensures
            t == field_type(self),
    {
        match (self.kind, self.name) {
            (_, Name::Id) => Some(ValueType::Integer),
            (Kind::Project, Name::Url) => Some(ValueType::Text),
            (Kind::Project, Name::Language) => Some(ValueType::Lang),
            (Kind::Project, Name::Stars) => Some(ValueType::Integer),
            (Kind::Project, Name::Forks) => Some(ValueType::Integer),
            (Kind::Project, Name::Size) => Some(ValueType::Integer),
            (Kind::Project, Name::Age) => Some(ValueType::Duration),
            (Kind::Project, Name::Created) => Some(ValueType::Timestamp),
            (Kind::Project, Name::Pushed) => Some(ValueType::Timestamp),
            (Kind::Project, Name::HasIssues) => Some(ValueType::Flag),
            (Kind::Project, Name::SnapshotIds) => Some(ValueType::Ids),
            (Kind::Path, Name::Language) => Some(ValueType::Lang),
            (Kind::Commit, Name::Created) => Some(ValueType::Timestamp),
            (Kind::Snapshot, Name::Contents) => Some(ValueType::Text),
            _ => None,
        }
    }

    /// The kind of the records in the nested collection this accessor reads,
    /// if it reads a collection.
    pub fn item_kind(self) -> (k: Option<Kind>)
        ensures
            k == collection_kind(self),
    {
        match (self.kind, self.name) {
            (Kind::Project, Name::Paths) => Some(Kind::Path),
            (Kind::Project, Name::Commits) => Some(Kind::Commit),
            (Kind::Project, Name::Users) => Some(Kind::User),
            _ => None,
        }
    }
}

/// One named field of a record.
#[derive(Clone, Debug, PartialEq, Eq)]
pub struct Field {
    pub name: Name,
    pub value: Value,
}

/// One named nested collection of a record.
#[derive(Debug)]
pub struct Nested {
    pub name: Name,
    pub items: Vec<Record>,
}

/// One entity of the corpus: its kind, its stable identifier, its fields and
/// its nested collections. The engine only reads records.
#[derive(Debug)]
pub struct Record {
    pub kind: Kind,
    pub id: u64,
    pub fields: Vec<Field>,
    pub nested: Vec<Nested>,
}

/// The value of the first field called `name` at or after position `from`,
/// or `Absent` where there is none.
pub open spec fn find_field(fields: Seq<Field>, name: Name, from: int) -> ValueView
    decreases fields.len() - from,
{
    if from < 0 || from >= fields.len() {
        ValueView::Absent
    } else if fields[from].name == name {
        fields[from].value@
    } else {
        find_field(fields, name, from + 1)
    }
}

/// The records of the first nested collection called `name` at or after
/// position `from`, or none where there is no such collection.
pub open spec fn find_items(nested: Seq<Nested>, name: Name, from: int) -> Seq<Record>
    decreases nested.len() - from,
{
    if from < 0 || from >= nested.len() {
        Seq::empty()
    } else if nested[from].name == name {
        nested[from].items@
    } else {
        find_items(nested, name, from + 1)
    }
}

/// What reading `name` from record `r` gives. The identifier reads as an
/// integer; a field the record does not hold reads as `Absent`.
pub open spec fn field_value(r: Record, name: Name) -> ValueView {
    if name == Name::Id {
        ValueView::Integer(r.id)
    } else {
        find_field(r.fields@, name, 0)
    }
}

/// The nested collection `name` of record `r`; empty where `r` has none.
pub open spec fn collection(r: Record, name: Name) -> Seq<Record> {
    find_items(r.nested@, name, 0)
}

/// A value that was read: computed on the spot, or borrowed from the record.
pub enum Read<'a> {
    Owned(Value),
    Borrowed(&'a Value),
}

impl<'a> Read<'a> {
    /// The value that was read.
    pub open spec fn value(self) -> ValueView {
        match self {
            Read::Owned(v) => v@,
            Read::Borrowed(v) => v@,
        }
    }

    /// The value that was read.
    pub fn get(&self) -> (v: &Value)
        ensures
            v@ == self.value(),
    {
        match self {
            Read::Owned(v) => v,
            Read::Borrowed(v) => v,
        }
    }
}

impl Record {
    /// A record with no fields and no nested collections.
    pub fn new(kind: Kind, id: u64) -> (r: Record)
        ensures
            r.kind == kind,
            r.id == id,
            r.fields@ == Seq::<Field>::empty(),
            r.nested@ == Seq::<Nested>::empty(),
    {
        Record { kind, id, fields: Vec::new(), nested: Vec::new() }
    }

    /// This record with one more field. A name that the record already holds
    /// keeps its earlier value.
    pub fn with(self, name: Name, value: Value) -> (r: Record)
        ensures
            r.kind == self.kind,
            r.id == self.id,
            r.fields@ == self.fields@.push(Field { name, value }),
            r.nested == self.nested,
    {
        let mut r = self;
        r.fields.push(Field { name, value });
        r
    }

    /// This record with one more nested collection.
    pub fn with_items(self, name: Name, items: Vec<Record>) -> (r: Record)
        ensures
            r.kind == self.kind,
            r.id == self.id,
            r.fields == self.fields,
            r.nested@ == self.nested@.push(Nested { name, items }),
    {
        let mut r = self;
        r.nested.push(Nested { name, items });
        r
    }

    /// Reads the field `name`.
    pub fn read(&self, name: Name) -> (x: Read<'_>)
        ensures
            x.value() == field_value(*self, name),
    {
        if name == Name::Id {
            return Read::Owned(Value::Integer(self.id));
        }
        let mut i: usize = 0;
        while i < self.fields.len()
            invariant
                i <= self.fields.len(),
                name != Name::Id,
                find_field(self.fields@, name, 0) == find_field(self.fields@, name, i as int),
            decreases self.fields.len() - i,
        {
            if self.fields[i].name == name {
                return Read::Borrowed(&self.fields[i].value);
            }
            i += 1;
        }
        Read::Owned(Value::Absent)
    }

    /// The nested collection `name`, or `None` where the record holds none.
    pub fn items(&self, name: Name) -> (s: Option<&Vec<Record>>)
        ensures
            match s {
                Some(v) => v@ == collection(*self, name),
                None => collection(*self, name) == Seq::<Record>::empty(),
            },
    {
        let mut i: usize = 0;
        while i < self.nested.len()
            invariant
                i <= self.nested.len(),
                find_items(self.nested@, name, 0) == find_items(self.nested@, name, i as int),
            decreases self.nested.len() - i,
        {
            if self.nested[i].name == name {
                return Some(&self.nested[i].items);
            }
            i += 1;
        }
        None
    }
}

} // verus!
