//! Regular expressions, and a cache of the ones that were compiled.

use crate::text_map::TextMap;
use vstd::prelude::*;

verus! {

#[verifier::external_type_specification]
#[verifier::external_body]
pub struct ExRegex(regex::Regex);

/// The pattern that a regular expression was compiled from.
pub uninterp spec fn pattern_of(re: regex::Regex) -> Seq<char>;

/// Why a pattern is no regular expression.
pub uninterp spec fn pattern_problem(pattern: Seq<char>) -> Option<Seq<char>>;

/// Whether a pattern matches somewhere in a text.
pub uninterp spec fn pattern_found(pattern: Seq<char>, text: Seq<char>) -> bool;

/// The text with every match of a pattern replaced.
pub uninterp spec fn pattern_replaced(
    pattern: Seq<char>,
    text: Seq<char>,
    replacement: Seq<char>,
) -> Seq<char>;

/// `regex::Regex::new`: the regular expression of the pattern, or why the
/// pattern is none. Which patterns are refused, and in what words, is left
/// unsaid.
#[verifier::external_body]
fn compile(pattern: &str) -> (r: Result<regex::Regex, String>)
    ensures
        match r {
            Ok(re) => pattern_problem(pattern@) is None && pattern_of(re) == pattern@,
            Err(e) => pattern_problem(pattern@) == Some(e@),
        },
{
    regex::Regex::new(pattern).map_err(|e| e.to_string())
}

/// `regex::Regex::is_match`: whether the regular expression matches somewhere
/// in the text. What it matches is left unsaid.
#[verifier::external_body]
fn is_found(re: &regex::Regex, text: &str) -> (r: bool)
    ensures
        r == pattern_found(pattern_of(*re), text@),
{
    re.is_match(text)
}

/// `regex::Regex::replace_all`: the text with every match replaced. What is
/// matched, and how the replacement is filled in, is left unsaid.
#[verifier::external_body]
fn replaced_by(re: &regex::Regex, text: &str, replacement: &str) -> (r: String)
    ensures
        r@ == pattern_replaced(pattern_of(*re), text@, replacement@),
{
    re.replace_all(text, replacement).into_owned()
}

/// A text with every match of a pattern replaced; the text itself where the
/// pattern is no regular expression.
pub open spec fn all_replaced(
    pattern: Seq<char>,
    text: Seq<char>,
    replacement: Seq<char>,
) -> Seq<char> {
    if pattern_problem(pattern) is None {
        pattern_replaced(pattern, text, replacement)
    } else {
        text
    }
}

/// Replaces every match of a pattern.
pub fn replace_all(pattern: &str, text: &str, replacement: &str) -> (r: String)
    ensures
        r@ == all_replaced(pattern@, text@, replacement@),
{
    match compile(pattern) {
        Ok(re) => replaced_by(&re, text, replacement),
        Err(_) => text.to_owned(),
    }
}

/// Whether a pattern matches somewhere in a text, or why it is no regular
/// expression.
pub open spec fn pattern_match(pattern: Seq<char>, text: Seq<char>) -> Result<bool, Seq<char>> {
    match pattern_problem(pattern) {
        None => Ok(pattern_found(pattern, text)),
        Some(e) => Err(e),
    }
}

/// The regular expressions that were compiled, by their patterns.
pub struct RegexCache {
    cache: TextMap<regex::Regex>,
}

impl RegexCache {
    /// Every entry is the regular expression of its pattern.
    pub closed spec fn wf(self) -> bool {
        forall|p: Seq<char>|
            self.cache@.contains_key(p) ==> pattern_of(#[trigger] self.cache@[p]) == p
                && pattern_problem(p) is None
    }

    /// The patterns that were compiled.
    pub closed spec fn compiled(self) -> Set<Seq<char>> {
        self.cache@.dom()
    }

    /// A cache without entries.
    pub fn new() -> (r: RegexCache)
        ensures
            r.wf(),
            r.compiled() == Set::<Seq<char>>::empty(),
    {
        let r = RegexCache { cache: TextMap::new() };
        assert(r.compiled() =~= Set::<Seq<char>>::empty());
        r
    }

    /// Whether a pattern matches somewhere in a text. A pattern is compiled
    /// once.
    pub fn is_match(&mut self, pattern: &str, text: &str) -> (r: Result<bool, String>)
        requires
            old(self).wf(),
        ensures
            final(self).wf(),
            match r {
                Ok(found) => pattern_match(pattern@, text@) == Ok::<bool, Seq<char>>(found),
                Err(e) => pattern_match(pattern@, text@) == Err::<bool, Seq<char>>(e@),
            },
            final(self).compiled() == if r is Ok {
                old(self).compiled().insert(pattern@)
            } else {
                old(self).compiled()
            },
    {
        let ghost known = self.compiled();
        match self.cache.get(pattern) {
            Some(re) => {
                assert(known =~= known.insert(pattern@));
                return Ok(is_found(re, text));
            },
            None => {},
        }
        let re = match compile(pattern) {
            Ok(re) => re,
            Err(e) => {
                return Err(e);
            },
        };
        let found = is_found(&re, text);
        self.cache.insert(pattern.to_owned(), re);
        assert(self.compiled() =~= known.insert(pattern@));
        Ok(found)
    }
}

} // verus!
