//! Tests on text: substring containment and regular-expression search.

use vstd::prelude::*;

verus! {

/// Whether `needle` occurs in `text` as a contiguous run of bytes.
pub open spec fn occurs_in(needle: Seq<u8>, text: Seq<u8>) -> bool {
    exists|i: int| occurs_at(needle, text, i)
}

/// Whether `needle` occurs in `text` starting at position `i`.
pub open spec fn occurs_at(needle: Seq<u8>, text: Seq<u8>, i: int) -> bool {
    0 <= i && i + needle.len() <= text.len() && text.subrange(i, i + needle.len()) == needle
}

fn found_at(text: &Vec<u8>, needle: &Vec<u8>, at: usize) -> (r: bool)
    requires
        at + needle.len() <= text.len(),
    ensures
        r == occurs_at(needle@, text@, at as int),
{
    let mut j: usize = 0;
    while j < needle.len()
        invariant
            j <= needle.len(),
            at + needle.len() <= text.len(),
            forall|k: int| 0 <= k < j ==> text@[at + k] == needle@[k],
        decreases needle.len() - j,
    {
        if text[at + j] != needle[j] {
            assert(text@.subrange(at as int, at + needle.len())[j as int] == text@[at + j]);
            return false;
        }
        j += 1;
    }
    assert(text@.subrange(at as int, at + needle.len()) =~= needle@);
    true
}

/// Tests whether `needle` occurs in `text`.
pub fn contains_bytes(text: &Vec<u8>, needle: &Vec<u8>) -> (r: bool)
    ensures
        r == occurs_in(needle@, text@),
{
    if needle.len() > text.len() {
        return false;
    }
    let last: usize = text.len() - needle.len();
    let mut i: usize = 0;
    while i < last
        invariant
            i <= last,
            last == text.len() - needle.len(),
            needle.len() <= text.len(),
            forall|k: int| 0 <= k < i ==> !occurs_at(needle@, text@, k),
        decreases last - i,
    {
        if found_at(text, needle, i) {
            return true;
        }
        i += 1;
    }
    found_at(text, needle, last)
}

/// Whether `regex::bytes::Regex::new` accepts `pattern`: whether it is a
/// regular expression, and one that compiles within the crate's size limit.
pub uninterp spec fn regex_compiles(pattern: Seq<char>) -> bool;

/// Whether `Regex::is_match` finds a match of the compiled `pattern`
/// somewhere in `text`.
pub uninterp spec fn regex_finds(pattern: Seq<char>, text: Seq<u8>) -> bool;

/// What searching `text` for `pattern` gives: `None` for a pattern that does
/// not compile, else whether some part of `text` matches.
pub open spec fn search_result(pattern: Seq<char>, text: Seq<u8>) -> Option<bool> {
    if regex_compiles(pattern) {
        Some(regex_finds(pattern, text))
    } else {
        None
    }
}

/// Compiles `pattern` with `regex::bytes::Regex::new` and searches `text` with
/// `Regex::is_match`. Trusted: the result is `None` exactly where the regex
/// crate refuses the pattern, and is otherwise what the compiled pattern finds
/// in this text.
#[verifier::external_body]
pub(crate) fn regex_search(pattern: &str, text: &[u8]) -> (r: Option<bool>)
    ensures
        r == if regex_compiles(pattern@) {
            Some(regex_finds(pattern@, text@))
        } else {
            None::<bool>
        },
{
    match regex::bytes::Regex::new(pattern) {
        Ok(re) => Some(re.is_match(text)),
        Err(_) => None,
    }
}

/// Whether a search that gave `found` counts as a match: only a found match
/// does; a refused pattern matches nothing.
pub fn is_match(found: Option<bool>) -> (b: bool)
    ensures
        b == (found == Some(true)),
{
    match found {
        Some(hit) => hit,
        None => false,
    }
}

/// Whether a search that gave `found` shows the pattern to be usable.
pub fn is_pattern(found: Option<bool>) -> (b: bool)
    ensures
        b == found.is_some(),
{
    found.is_some()
}

/// Whether `pattern` is a regular expression that can be compiled.
pub open spec fn pattern_compiles(pattern: Seq<char>) -> bool {
    regex_compiles(pattern)
}

/// Whether some part of `text` matches `pattern`.
pub open spec fn pattern_matches(pattern: Seq<char>, text: Seq<u8>) -> bool {
    search_result(pattern, text) == Some(true)
}

/// Tests whether `pattern` can be compiled.
pub fn check_pattern(pattern: &str) -> (b: bool)
    ensures
        b == pattern_compiles(pattern@),
{
    let nothing: Vec<u8> = Vec::new();
    is_pattern(regex_search(pattern, nothing.as_slice()))
}

/// Searches `text` for `pattern`.
pub fn search(pattern: &str, text: &Vec<u8>) -> (b: bool)
    ensures
        b == pattern_matches(pattern@, text@),
{
    is_match(regex_search(pattern, text.as_slice()))
}

} // verus!
