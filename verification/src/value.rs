//! Typed values read from records, and how they are compared and ranked.

use vstd::prelude::*;
use vstd::string::StringSliceAdditionalSpecFns;

verus! {

/// The programming language a path or project is tagged with.
#[derive(Clone, Copy, Debug, PartialEq, Eq, Structural)]
pub enum Language {
    ASM,
    C,
    Cobol,
    Cpp,
    CSharp,
    D,
    Erlang,
    Fortran,
    FSharp,
    Go,
    Groovy,
    Haskell,
    Java,
    JavaScript,
    Kotlin,
    Lua,
    ObjectiveC,
    OCaml,
    Perl,
    PHP,
    Python,
    Ruby,
    Rust,
    Scala,
    Swift,
    TypeScript,
}

/// Position of a language in the declaration order; group keys are ordered by it.
pub open spec fn language_index(l: Language) -> int {
    match l {
        Language::ASM => 0,
        Language::C => 1,
        Language::Cobol => 2,
        Language::Cpp => 3,
        Language::CSharp => 4,
        Language::D => 5,
        Language::Erlang => 6,
        Language::Fortran => 7,
        Language::FSharp => 8,
        Language::Go => 9,
        Language::Groovy => 10,
        Language::Haskell => 11,
        Language::Java => 12,
        Language::JavaScript => 13,
        Language::Kotlin => 14,
        Language::Lua => 15,
        Language::ObjectiveC => 16,
        Language::OCaml => 17,
        Language::Perl => 18,
        Language::PHP => 19,
        Language::Python => 20,
        Language::Ruby => 21,
        Language::Rust => 22,
        Language::Scala => 23,
        Language::Swift => 24,
        Language::TypeScript => 25,
    }
}

/// The name under which a language is written to a table.
pub open spec fn language_label(l: Language) -> Seq<char> {
    match l {
        Language::ASM => "ASM"@,
        Language::C => "C"@,
        Language::Cobol => "Cobol"@,
        Language::Cpp => "C++"@,
        Language::CSharp => "C#"@,
        Language::D => "D"@,
        Language::Erlang => "Erlang"@,
        Language::Fortran => "Fortran"@,
        Language::FSharp => "F#"@,
        Language::Go => "Go"@,
        Language::Groovy => "Groovy"@,
        Language::Haskell => "Haskell"@,
        Language::Java => "Java"@,
        Language::JavaScript => "JavaScript"@,
        Language::Kotlin => "Kotlin"@,
        Language::Lua => "Lua"@,
        Language::ObjectiveC => "Objective-C"@,
        Language::OCaml => "OCaml"@,
        Language::Perl => "Perl"@,
        Language::PHP => "PHP"@,
        Language::Python => "Python"@,
        Language::Ruby => "Ruby"@,
        Language::Rust => "Rust"@,
        Language::Scala => "Scala"@,
        Language::Swift => "Swift"@,
        Language::TypeScript => "TypeScript"@,
    }
}

impl Language {
    /// The position of this language in the declaration order.
    pub fn index(self) -> (n: u8)
        ensures
            n as int == language_index(self),
    {
        match self {
            Language::ASM => 0,
            Language::C => 1,
            Language::Cobol => 2,
            Language::Cpp => 3,
            Language::CSharp => 4,
            Language::D => 5,
            Language::Erlang => 6,
            Language::Fortran => 7,
            Language::FSharp => 8,
            Language::Go => 9,
            Language::Groovy => 10,
            Language::Haskell => 11,
            Language::Java => 12,
            Language::JavaScript => 13,
            Language::Kotlin => 14,
            Language::Lua => 15,
            Language::ObjectiveC => 16,
            Language::OCaml => 17,
            Language::Perl => 18,
            Language::PHP => 19,
            Language::Python => 20,
            Language::Ruby => 21,
            Language::Rust => 22,
            Language::Scala => 23,
            Language::Swift => 24,
            Language::TypeScript => 25,
        }
    }

    /// The name under which this language is written to a table.
    pub fn label(self) -> (s: &'static str)
        ensures
            s@ == language_label(self),
    {
        match self {
            Language::ASM => "ASM",
            Language::C => "C",
            Language::Cobol => "Cobol",
            Language::Cpp => "C++",
            Language::CSharp => "C#",
            Language::D => "D",
            Language::Erlang => "Erlang",
            Language::Fortran => "Fortran",
            Language::FSharp => "F#",
            Language::Go => "Go",
            Language::Groovy => "Groovy",
            Language::Haskell => "Haskell",
            Language::Java => "Java",
            Language::JavaScript => "JavaScript",
            Language::Kotlin => "Kotlin",
            Language::Lua => "Lua",
            Language::ObjectiveC => "Objective-C",
            Language::OCaml => "OCaml",
            Language::Perl => "Perl",
            Language::PHP => "PHP",
            Language::Python => "Python",
            Language::Ruby => "Ruby",
            Language::Rust => "Rust",
            Language::Scala => "Scala",
            Language::Swift => "Swift",
            Language::TypeScript => "TypeScript",
        }
    }
}

/// An exact ratio of two counts. It is a number only while `den` is positive.
#[derive(Clone, Copy, Debug, PartialEq, Eq, Structural)]
pub struct Fraction {
    pub num: u64,
    pub den: u64,
}

impl Fraction {
    /// The ratio of `num` to `den`.
    pub fn new(num: u64, den: u64) -> (f: Fraction)
        ensures
            f == (Fraction { num, den }),
    {
        Fraction { num, den }
    }
}

/// The semantic type of a value.
#[derive(Clone, Copy, Debug, PartialEq, Eq, Structural)]
pub enum ValueType {
    Integer,
    Timestamp,
    Duration,
    Text,
    Lang,
    Flag,
    Ratio,
    Ids,
}

/// Whether values of this type are totally ordered, so that thresholds and
/// sorting apply to them.
pub open spec fn is_ordered(t: ValueType) -> bool {
    t == ValueType::Integer || t == ValueType::Timestamp || t == ValueType::Duration || t
        == ValueType::Ratio
}

/// Whether values of this type can key a sort or a grouping.
pub open spec fn is_keyed(t: ValueType) -> bool {
    t == ValueType::Integer || t == ValueType::Timestamp || t == ValueType::Duration || t
        == ValueType::Lang || t == ValueType::Flag
}

impl ValueType {
    /// Whether thresholds and sorting apply to values of this type.
    pub fn ordered(self) -> (b: bool)
        ensures
            b == is_ordered(self),
    {
        match self {
            ValueType::Integer | ValueType::Timestamp | ValueType::Duration | ValueType::Ratio => true,
            _ => false,
        }
    }

    /// Whether values of this type can key a sort or a grouping.
    pub fn keyed(self) -> (b: bool)
        ensures
            b == is_keyed(self),
    {
        match self {
            ValueType::Integer | ValueType::Timestamp | ValueType::Duration | ValueType::Lang
            | ValueType::Flag => true,
            _ => false,
        }
    }
}

/// A value read from a record or written as a literal in a query.
///
/// `Absent` marks a field the record does not have. `NotApplicable` is what a
/// ratio over an empty collection yields. Neither satisfies any comparison.
#[derive(Clone, Debug, PartialEq, Eq)]
pub enum Value {
    Absent,
    NotApplicable,
    /// A count or an identifier.
    Integer(u64),
    /// Seconds since the Unix epoch.
    Timestamp(i64),
    /// A span of time in seconds.
    Duration(u64),
    /// Text as UTF-8 bytes: a URL, the contents of a file.
    Text(Vec<u8>),
    Lang(Language),
    Flag(bool),
    Ratio(Fraction),
    /// A set-valued field, such as the identifiers of a project's snapshots.
    Ids(Vec<u64>),
}

/// The mathematical content of a [`Value`].
pub enum ValueView {
    Absent,
    NotApplicable,
    Integer(u64),
    Timestamp(i64),
    Duration(u64),
    Text(Seq<u8>),
    Lang(Language),
    Flag(bool),
    Ratio(Fraction),
    Ids(Seq<u64>),
}

impl View for Value {
    type V = ValueView;

    open spec fn view(&self) -> ValueView {
        match self {
            Value::Absent => ValueView::Absent,
            Value::NotApplicable => ValueView::NotApplicable,
            Value::Integer(n) => ValueView::Integer(*n),
            Value::Timestamp(t) => ValueView::Timestamp(*t),
            Value::Duration(d) => ValueView::Duration(*d),
            Value::Text(b) => ValueView::Text(b@),
            Value::Lang(l) => ValueView::Lang(*l),
            Value::Flag(b) => ValueView::Flag(*b),
            Value::Ratio(f) => ValueView::Ratio(*f),
            Value::Ids(s) => ValueView::Ids(s@),
        }
    }
}

/// The type of a value; `Absent` and `NotApplicable` have none.
pub open spec fn type_of(v: ValueView) -> Option<ValueType> {
    match v {
        ValueView::Absent => None,
        ValueView::NotApplicable => None,
        ValueView::Integer(_) => Some(ValueType::Integer),
        ValueView::Timestamp(_) => Some(ValueType::Timestamp),
        ValueView::Duration(_) => Some(ValueType::Duration),
        ValueView::Text(_) => Some(ValueType::Text),
        ValueView::Lang(_) => Some(ValueType::Lang),
        ValueView::Flag(_) => Some(ValueType::Flag),
        ValueView::Ratio(_) => Some(ValueType::Ratio),
        ValueView::Ids(_) => Some(ValueType::Ids),
    }
}

/// The sign of an integer: -1, 0 or 1.
pub open spec fn sign(d: int) -> int {
    if d < 0 {
        -1
    } else if d == 0 {
        0
    } else {
        1
    }
}

/// How `a` stands to `b` where both are numbers of one ordered type: -1 for
/// less, 0 for equal, 1 for greater. Ratios are compared exactly, by
/// cross-multiplication. Every other pair is incomparable.
pub open spec fn compare(a: ValueView, b: ValueView) -> Option<int> {
    match (a, b) {
        (ValueView::Integer(x), ValueView::Integer(y)) => Some(sign(x - y)),
        (ValueView::Timestamp(x), ValueView::Timestamp(y)) => Some(sign(x - y)),
        (ValueView::Duration(x), ValueView::Duration(y)) => Some(sign(x - y)),
        (ValueView::Ratio(p), ValueView::Ratio(q)) => if p.den > 0 && q.den > 0 {
            Some(sign(p.num * q.den - q.num * p.den))
        } else {
            None
        },
        _ => None,
    }
}

/// Whether two values are equal. Ratios are equal when they denote the same
/// number, and sets of identifiers when they list the same identifiers in the
/// same order; absent and not-applicable values equal nothing, not even
/// themselves.
pub open spec fn same_value(a: ValueView, b: ValueView) -> bool {
    match (a, b) {
        (ValueView::Ratio(p), ValueView::Ratio(q)) => p.den > 0 && q.den > 0 && p.num * q.den
            == q.num * p.den,
        (ValueView::Absent, _) => false,
        (ValueView::NotApplicable, _) => false,
        _ => a == b,
    }
}

/// The verdict of comparing two values.
#[derive(Clone, Copy, Debug, PartialEq, Eq, Structural)]
pub enum Relation {
    Less,
    Same,
    Greater,
    Incomparable,
}

/// The relation that stands for an optional sign.
pub open spec fn relation_of(c: Option<int>) -> Relation {
    match c {
        None => Relation::Incomparable,
        Some(s) => if s < 0 {
            Relation::Less
        } else if s == 0 {
            Relation::Same
        } else {
            Relation::Greater
        },
    }
}

fn relate_wide(x: i128, y: i128) -> (r: Relation)
    ensures
        r == relation_of(Some(sign(x - y))),
{
    if x < y {
        Relation::Less
    } else if x == y {
        Relation::Same
    } else {
        Relation::Greater
    }
}

fn widen(x: u64) -> (w: u128)
    ensures
        w == x,
{
    x as u128
}

fn cross(x: u64, y: u64) -> (p: u128)
    ensures
        p == x * y,
{
    assert(x * y <= 0xffff_ffff_ffff_ffff * 0xffff_ffff_ffff_ffff) by (nonlinear_arith)
        requires
            0 <= x <= 0xffff_ffff_ffff_ffff,
            0 <= y <= 0xffff_ffff_ffff_ffff,
    ;
    widen(x) * widen(y)
}

fn relate_unsigned(x: u128, y: u128) -> (r: Relation)
    ensures
        r == relation_of(Some(sign(x - y))),
{
    if x < y {
        Relation::Less
    } else if x == y {
        Relation::Same
    } else {
        Relation::Greater
    }
}

/// Compares the bytes of two texts.
pub fn same_bytes(a: &Vec<u8>, b: &Vec<u8>) -> (r: bool)
    ensures
        r == (a@ == b@),
{
    if a.len() != b.len() {
        return false;
    }
    let mut i: usize = 0;
    while i < a.len()
        invariant
            i <= a.len(),
            a.len() == b.len(),
            forall|j: int| 0 <= j < i ==> a@[j] == b@[j],
        decreases a.len() - i,
    {
        if a[i] != b[i] {
            return false;
        }
        i += 1;
    }
    assert(a@ =~= b@);
    true
}

/// Compares two identifier lists element by element.
pub fn same_ids(a: &Vec<u64>, b: &Vec<u64>) -> (r: bool)
    ensures
        r == (a@ == b@),
{
    if a.len() != b.len() {
        return false;
    }
    let mut i: usize = 0;
    while i < a.len()
        invariant
            i <= a.len(),
            a.len() == b.len(),
            forall|j: int| 0 <= j < i ==> a@[j] == b@[j],
        decreases a.len() - i,
    {
        if a[i] != b[i] {
            return false;
        }
        i += 1;
    }
    assert(a@ =~= b@);
    true
}

/// Copies a text.
pub fn copy_bytes(a: &Vec<u8>) -> (out: Vec<u8>)
    ensures
        out@ == a@,
{
    let mut out: Vec<u8> = Vec::new();
    let mut i: usize = 0;
    while i < a.len()
        invariant
            i <= a.len(),
            out@ == a@.take(i as int),
        decreases a.len() - i,
    {
        out.push(a[i]);
        assert(a@.take(i + 1) =~= a@.take(i as int).push(a@[i as int]));
        i += 1;
    }
    assert(a@.take(i as int) =~= a@);
    out
}

/// Copies an identifier list.
pub fn copy_ids(a: &Vec<u64>) -> (out: Vec<u64>)
    ensures
        out@ == a@,
{
    let mut out: Vec<u64> = Vec::new();
    let mut i: usize = 0;
    while i < a.len()
        invariant
            i <= a.len(),
            out@ == a@.take(i as int),
        decreases a.len() - i,
    {
        out.push(a[i]);
        assert(a@.take(i + 1) =~= a@.take(i as int).push(a@[i as int]));
        i += 1;
    }
    assert(a@.take(i as int) =~= a@);
    out
}

impl Value {
    /// A copy of this value.
    pub fn duplicate(&self) -> (v: Value)
        ensures
            v@ == self@,
    {
        match self {
            Value::Absent => Value::Absent,
            Value::NotApplicable => Value::NotApplicable,
            Value::Integer(n) => Value::Integer(*n),
            Value::Timestamp(t) => Value::Timestamp(*t),
            Value::Duration(d) => Value::Duration(*d),
            Value::Text(b) => Value::Text(copy_bytes(b)),
            Value::Lang(l) => Value::Lang(*l),
            Value::Flag(b) => Value::Flag(*b),
            Value::Ratio(f) => Value::Ratio(*f),
            Value::Ids(s) => Value::Ids(copy_ids(s)),
        }
    }

    /// Text from a string slice, as its UTF-8 bytes.
    pub fn text(s: &str) -> (v: Value)
        ensures
            v@ == ValueView::Text(s.spec_bytes()),
    {
        Value::Text(vstd::slice::slice_to_vec(s.as_bytes()))
    }

    /// The type of this value, if it has one.
    pub fn value_type(&self) -> (t: Option<ValueType>)
        ensures
            t == type_of(self@),
    {
        match self {
            Value::Absent => None,
            Value::NotApplicable => None,
            Value::Integer(_) => Some(ValueType::Integer),
            Value::Timestamp(_) => Some(ValueType::Timestamp),
            Value::Duration(_) => Some(ValueType::Duration),
            Value::Text(_) => Some(ValueType::Text),
            Value::Lang(_) => Some(ValueType::Lang),
            Value::Flag(_) => Some(ValueType::Flag),
            Value::Ratio(_) => Some(ValueType::Ratio),
            Value::Ids(_) => Some(ValueType::Ids),
        }
    }

    /// How this value stands to `other`.
    pub fn relate(&self, other: &Value) -> (r: Relation)
        ensures
            r == relation_of(compare(self@, other@)),
    {
        match (self, other) {
            (Value::Integer(x), Value::Integer(y)) => relate_unsigned(widen(*x), widen(*y)),
            (Value::Timestamp(x), Value::Timestamp(y)) => relate_wide(*x as i128, *y as i128),
            (Value::Duration(x), Value::Duration(y)) => relate_unsigned(widen(*x), widen(*y)),
            (Value::Ratio(p), Value::Ratio(q)) => {
                if p.den > 0 && q.den > 0 {
                    relate_unsigned(cross(p.num, q.den), cross(q.num, p.den))
                } else {
                    Relation::Incomparable
                }
            },
            _ => Relation::Incomparable,
        }
    }

    /// Whether this value equals `other`.
    pub fn same(&self, other: &Value) -> (r: bool)
        ensures
            r == same_value(self@, other@),
    {
        match (self, other) {
            (Value::Ratio(p), Value::Ratio(q)) => p.den > 0 && q.den > 0 && cross(p.num, q.den)
                == cross(q.num, p.den),
            (Value::Integer(x), Value::Integer(y)) => *x == *y,
            (Value::Timestamp(x), Value::Timestamp(y)) => *x == *y,
            (Value::Duration(x), Value::Duration(y)) => *x == *y,
            (Value::Text(x), Value::Text(y)) => same_bytes(x, y),
            (Value::Lang(x), Value::Lang(y)) => *x == *y,
            (Value::Flag(x), Value::Flag(y)) => *x == *y,
            (Value::Ids(x), Value::Ids(y)) => same_ids(x, y),
            _ => false,
        }
    }
}

/// The rank by which records are sorted and grouped: a tag for the type of
/// the value and a number within that type. Ranks are ordered by tag, then by
/// number.
#[derive(Clone, Copy, Debug, PartialEq, Eq, Structural)]
pub struct Key {
    pub tag: u8,
    pub num: i128,
}

/// The rank of a value. Values that cannot key anything, and absent ones,
/// share the lowest rank.
pub open spec fn key_of(v: ValueView) -> Key {
    match v {
        ValueView::Integer(n) => Key { tag: 1, num: n as i128 },
        ValueView::Timestamp(t) => Key { tag: 2, num: t as i128 },
        ValueView::Duration(d) => Key { tag: 3, num: d as i128 },
        ValueView::Lang(l) => Key { tag: 4, num: language_index(l) as i128 },
        ValueView::Flag(b) => Key { tag: 5, num: if b { 1 } else { 0 } },
        _ => Key { tag: 0, num: 0 },
    }
}

/// Strict order on ranks.
pub open spec fn key_lt(a: Key, b: Key) -> bool {
    a.tag < b.tag || (a.tag == b.tag && a.num < b.num)
}

/// The rank that orders the other way round.
pub open spec fn key_flip(k: Key) -> Key {
    Key { tag: (255 - k.tag) as u8, num: (-k.num) as i128 }
}

/// The ranks that values have are small enough to be flipped.
pub open spec fn key_in_range(k: Key) -> bool {
    -0x1_0000_0000_0000_0000 <= k.num <= 0x1_0000_0000_0000_0000
}

impl Key {
    /// Whether this rank comes before `other`.
    pub fn less(self, other: Key) -> (b: bool)
        ensures
            b == key_lt(self, other),
    {
        self.tag < other.tag || (self.tag == other.tag && self.num < other.num)
    }

    /// The rank that orders the other way round.
    pub fn flip(self) -> (k: Key)
        requires
            key_in_range(self),
        ensures
            k == key_flip(self),
            key_in_range(k),
    {
        Key { tag: 255 - self.tag, num: -self.num }
    }
}

impl Value {
    /// The rank of this value.
    pub fn key(&self) -> (k: Key)
        ensures
            k == key_of(self@),
            key_in_range(k),
    {
        match self {
            Value::Integer(n) => Key { tag: 1, num: *n as i128 },
            Value::Timestamp(t) => Key { tag: 2, num: *t as i128 },
            Value::Duration(d) => Key { tag: 3, num: *d as i128 },
            Value::Lang(l) => Key { tag: 4, num: l.index() as i128 },
            Value::Flag(b) => Key { tag: 5, num: if *b { 1 } else { 0 } },
            _ => Key { tag: 0, num: 0 },
        }
    }
}

} // verus!
