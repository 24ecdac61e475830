//! A campaign's patterns, compiled once into a set of regular expressions.
use crate::outside::{compile_regex_set, regex_set_accepts, regex_set_is_match, regex_set_matches, regex_set_patterns};
use vstd::prelude::*;

verus! {

/// A list of patterns that the regular expression engine accepted as a set,
/// compiled.
pub struct PatternSet {
    set: regex::RegexSet,
}

impl PatternSet {
    /// The patterns.
    pub closed spec fn patterns(self) -> Seq<Seq<char>> {
        regex_set_patterns(self.set)
    }

    /// The set of `patterns`, or `None` when one of them is no valid
    /// regular expression.
    pub fn new(patterns: &Vec<String>) -> (set: Option<Self>)
        ensures
            set is None <==> !regex_set_accepts(patterns.deep_view()),
            set matches Some(s) ==> s.patterns() == patterns.deep_view(),
    {
        match compile_regex_set(patterns) {
            Some(set) => Some(PatternSet { set }),
            None => None,
        }
    }

    /// Whether any of the patterns matches somewhere in `text`.
    pub fn is_match(&self, text: &str) -> (found: bool)
        ensures
            found == regex_set_matches(self.patterns(), text@),
    {
        regex_set_is_match(&self.set, text)
    }
}

} // verus!
