//! Regular-expression patterns, kept as their source text.

use vstd::prelude::*;

verus! {

/// The source text of a regular expression.
///
/// Two patterns are equal when their source texts are equal.
#[derive(Debug)]
pub struct Pattern {
    source: String,
}

impl View for Pattern {
    type V = Seq<char>;

    /// The source text.
    closed spec fn view(&self) -> Seq<char> {
        self.source@
    }
}

/// `regex::Regex::new`: whether the regex crate compiles `source`. Nothing is
/// claimed of the answer: it depends on the crate's syntax and on its size
/// limit.
#[verifier::external_body]
fn regex_compiles(source: &str) -> bool {
    regex::Regex::new(source).is_ok()
}

impl Pattern {
    /// The pattern with the given source text, if the regex crate compiles it.
    pub fn new(source: &str) -> (r: Option<Pattern>)
        ensures
            r matches Some(p) ==> p@ == source@,
    {
        let compiles = regex_compiles(source);
        Pattern::from_verdict(source, compiles)
    }

    /// The pattern with the given source text, given whether that text
    /// compiles.
    pub fn from_verdict(source: &str, compiles: bool) -> (r: Option<Pattern>)
        ensures
            r is Some == compiles,
            r matches Some(p) ==> p@ == source@,
    {
        if compiles {
            Some(Pattern { source: source.to_owned() })
        } else {
            None
        }
    }

    /// The source text.
    pub fn as_str(&self) -> (s: &str)
        ensures
            s@ == self@,
    {
        self.source.as_str()
    }

    /// Whether both patterns have the same source text.
    pub fn same_as(&self, other: &Pattern) -> (r: bool)
        ensures
            r == (self@ == other@),
    {
        self.source == other.source
    }
}

impl Clone for Pattern {
    fn clone(&self) -> (r: Pattern)
        ensures
            r@ == self@,
    {
        Pattern { source: self.source.clone() }
    }
}

impl PartialEq for Pattern {
    fn eq(&self, other: &Pattern) -> (r: bool) {
        self.same_as(other)
    }
}

impl Eq for Pattern {

}

impl vstd::std_specs::cmp::PartialEqSpecImpl for Pattern {
    open spec fn obeys_eq_spec() -> bool {
        true
    }

    open spec fn eq_spec(&self, other: &Pattern) -> bool {
        self@ == other@
    }
}

} // verus!
