//! The regular expressions that the tokenizer matches with.
//!
//! Matching is done by the `regex` crate. What a search returns is not
//! described here: it is given a name, and the tokenizer's contracts say what
//! follows from it.

use regex::{Regex, RegexSet};
use vstd::prelude::*;

verus! {

#[verifier::external_type_specification]
#[verifier::external_body]
pub struct ExRegex(regex::Regex);

#[verifier::external_type_specification]
#[verifier::external_body]
pub struct ExRegexSet(regex::RegexSet);

#[verifier::external_type_specification]
#[verifier::external_body]
pub struct ExRegexError(regex::Error);

/// Whether `Regex::new` accepts a pattern: whether the pattern is valid and
/// compiles to a program within the size limit that the crate sets.
pub uninterp spec fn pattern_compiles(pattern: Seq<char>) -> bool;

/// Whether `RegexSet::new` accepts a run of patterns.
pub uninterp spec fn patterns_compile(patterns: Seq<Seq<char>>) -> bool;

/// The pattern of a regular expression that `Regex::new` built, that is,
/// one with the options that the crate sets by itself. With other options
/// the same pattern may match otherwise; this library builds no such
/// regular expression.
pub uninterp spec fn regex_source(re: Regex) -> Seq<char>;

/// The patterns, in order, of a set of regular expressions that
/// `RegexSet::new` built, that is, one with the options that the crate sets
/// by itself.
pub uninterp spec fn regex_set_sources(set: RegexSet) -> Seq<Seq<char>>;

/// The byte offsets in `haystack` at which the leftmost match of `pattern`
/// starts and ends, if the pattern matches anywhere in it.
pub uninterp spec fn first_match(pattern: Seq<char>, haystack: Seq<char>) -> Option<(int, int)>;

/// For the leftmost match of `pattern` in `haystack`, if there is one, the
/// byte offsets at which each capture group starts and ends, where it took
/// part in the match. Group 0 is the whole match.
pub uninterp spec fn capture_groups(pattern: Seq<char>, haystack: Seq<char>) -> Option<
    Seq<Option<(int, int)>>,
>;

/// The indices, in ascending order, of those of `patterns` that match
/// somewhere in `haystack`.
pub uninterp spec fn matching_patterns(patterns: Seq<Seq<char>>, haystack: Seq<char>) -> Seq<int>;

/// The byte offsets of a span as integers of mathematics.
pub open spec fn span_of(m: (usize, usize)) -> (int, int) {
    (m.0 as int, m.1 as int)
}

/// The spans of capture groups as integers of mathematics.
pub open spec fn groups_of(groups: Seq<Option<(usize, usize)>>) -> Seq<Option<(int, int)>> {
    Seq::new(
        groups.len(),
        |i: int|
            match groups[i] {
                Some(m) => Some(span_of(m)),
                None => None,
            },
    )
}

/// The views of a run of patterns.
pub open spec fn sources_of(patterns: Seq<&str>) -> Seq<Seq<char>> {
    Seq::new(patterns.len(), |i: int| patterns[i]@)
}

/// `Regex::new` of the `regex` crate: compiles a pattern. Whether a regular
/// expression comes back depends on the pattern alone and is the one named
/// [`pattern_compiles`]; one that comes back was compiled from the pattern
/// given.
#[verifier::external_body]
pub(crate) fn compile(pattern: &str) -> (r: Result<Regex, regex::Error>)
    ensures
        r is Ok <==> pattern_compiles(pattern@),
        r matches Ok(re) ==> regex_source(re) == pattern@,
{
    Regex::new(pattern)
}

/// `RegexSet::new` of the `regex` crate: compiles a set of patterns.
/// Whether a set comes back depends on the patterns alone and is the one
/// named [`patterns_compile`]; one that comes back was compiled from the
/// patterns given, in their order.
#[verifier::external_body]
pub(crate) fn compile_set(patterns: &Vec<&str>) -> (r: Result<RegexSet, regex::Error>)
    ensures
        r is Ok <==> patterns_compile(sources_of(patterns@)),
        r matches Ok(set) ==> regex_set_sources(set) == sources_of(patterns@),
{
    RegexSet::new(patterns)
}

/// `Regex::find` of the `regex` crate, with `Match::start` and `Match::end`
/// of what it finds: the byte offsets of the leftmost match in the
/// haystack. The result is the one named [`first_match`]; nothing else is
/// claimed of it.
#[verifier::external_body]
pub(crate) fn find(re: &Regex, haystack: &str) -> (r: Option<(usize, usize)>)
    ensures
        first_match(regex_source(*re), haystack@) == match r {
            Some(m) => Some(span_of(m)),
            None => None,
        },
{
    re.find(haystack).map(|m| (m.start(), m.end()))
}

/// `Regex::captures` of the `regex` crate, with `Captures::iter` over what
/// it finds: the byte offsets of every capture group of the leftmost match
/// in the haystack. The result is the one named [`capture_groups`]; nothing
/// else is claimed of it.
#[verifier::external_body]
pub(crate) fn captures(re: &Regex, haystack: &str) -> (r: Option<Vec<Option<(usize, usize)>>>)
    ensures
        capture_groups(regex_source(*re), haystack@) == match r {
            Some(groups) => Some(groups_of(groups@)),
            None => None,
        },
{
    re.captures(haystack).map(|c| c.iter().map(|g| g.map(|m| (m.start(), m.end()))).collect())
}

/// `RegexSet::matches` of the `regex` crate, with the iterator over what
/// it finds: the indices of the patterns of the set that match in the
/// haystack, in ascending order. The result is the one named
/// [`matching_patterns`]; nothing else is claimed of it.
#[verifier::external_body]
pub(crate) fn which_match(set: &RegexSet, haystack: &str) -> (r: Vec<usize>)
    ensures
        matching_patterns(regex_set_sources(*set), haystack@) == Seq::new(
            r@.len(),
            |i: int| r@[i] as int,
        ),
{
    set.matches(haystack).into_iter().collect()
}

} // verus!
