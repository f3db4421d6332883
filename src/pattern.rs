//! Line matching through the `regex` crate.

use vstd::prelude::*;

use crate::text::{string_of, views};

verus! {

#[verifier::external_type_specification]
#[verifier::external_body]
pub struct ExRegex(regex::Regex);

/// What `regex::Regex::new` makes of a pattern: `None` when it compiles,
/// otherwise the text of the error it reports.
pub uninterp spec fn regex_compile_error(pattern: Seq<char>) -> Option<Seq<char>>;

/// What `regex::Regex::is_match` answers for the regex compiled from
/// `pattern` on `line`.
pub uninterp spec fn regex_is_match(pattern: Seq<char>, line: Seq<char>) -> bool;

/// A compiled regular expression, with the pattern it was compiled from.
pub struct GrepPattern {
    regex: regex::Regex,
    source: String,
}

impl GrepPattern {
    /// The pattern this regex was compiled from.
    pub closed spec fn source(self) -> Seq<char> {
        self.source@
    }
}

/// Relies on `regex::Regex::new`: it compiles `pattern` or reports why not;
/// both depend on the pattern alone.
#[verifier::external_body]
fn compile_regex(pattern: &str) -> (r: Result<GrepPattern, String>)
    ensures
        r is Ok <==> regex_compile_error(pattern@) is None,
        r matches Ok(p) ==> p.source() == pattern@,
        r matches Err(m) ==> regex_compile_error(pattern@) == Some(m@),
{
    match regex::Regex::new(pattern) {
        Ok(regex) => Ok(GrepPattern { regex, source: pattern.to_string() }),
        Err(e) => Err(e.to_string()),
    }
}

/// Relies on `regex::Regex::is_match`: whether the regex matches somewhere in
/// `line`.
#[verifier::external_body]
fn regex_matches(p: &GrepPattern, line: &str) -> (r: bool)
    ensures
        r == regex_is_match(p.source(), line@),
{
    p.regex.is_match(line)
}

impl GrepPattern {
    /// Compiles `pattern`, or returns the error text of the regex crate.
    pub fn compile(pattern: &str) -> (r: Result<GrepPattern, String>)
        ensures
            r is Ok <==> regex_compile_error(pattern@) is None,
            r matches Ok(p) ==> p.source() == pattern@,
            r matches Err(m) ==> regex_compile_error(pattern@) == Some(m@),
    {
        compile_regex(pattern)
    }

    /// For each line, whether it is to be kept: the regex matches it, or,
    /// with `invert`, does not.
    pub fn keep_flags(&self, lines: &Vec<Vec<char>>, invert: bool) -> (r: Vec<bool>)
        ensures
            r@ == views(lines@).map_values(|l: Seq<char>| regex_is_match(self.source(), l) != invert),
    {
        let mut r: Vec<bool> = Vec::new();
        let mut i: usize = 0;
        while i < lines.len()
            invariant
                i <= lines.len(),
                r@ == views(lines@).take(i as int).map_values(
                    |l: Seq<char>| regex_is_match(self.source(), l) != invert,
                ),
            decreases lines.len() - i,
        {
            let line = string_of(&lines[i]);
            let m = regex_matches(self, line.as_str());
            r.push(m != invert);
            proof {
                assert(views(lines@).take(i + 1) =~= views(lines@).take(i as int).push(lines@[i as int]@));
                assert(r@ =~= views(lines@).take(i + 1).map_values(
                    |l: Seq<char>| regex_is_match(self.source(), l) != invert,
                ));
            }
            i = i + 1;
        }
        proof {
            assert(views(lines@).take(lines.len() as int) =~= views(lines@));
        }
        r
    }
}

} // verus!
