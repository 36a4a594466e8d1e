//! Name matching for search and batch renaming: regular expressions from the
//! `regex` crate and the fuzzy scorer of the `fuzzy-matcher` crate.
use fuzzy_matcher::skim::SkimMatcherV2;
use fuzzy_matcher::FuzzyMatcher;
use regex::Regex;

use vstd::prelude::*;

verus! {

#[verifier::external_type_specification]
#[verifier::external_body]
pub struct ExRegex(Regex);

#[verifier::external_type_specification]
#[verifier::external_body]
pub struct ExSkimMatcherV2(SkimMatcherV2);

/// What `Regex::new` gives for a pattern: `Ok` when it compiles, otherwise
/// the text of the error.
pub uninterp spec fn regex_new(pattern: Seq<char>) -> Result<(), Seq<char>>;

/// Whether the regular expression `pattern` matches somewhere in `text`
/// (`Regex::is_match`).
pub uninterp spec fn regex_matches(pattern: Seq<char>, text: Seq<char>) -> bool;

/// `text` with the leftmost-first match of `pattern` replaced by `rep`, where
/// `$N` and `$name` in `rep` expand to capture groups (`Regex::replace`).
pub uninterp spec fn regex_replace(pattern: Seq<char>, text: Seq<char>, rep: Seq<char>) -> Seq<
    char,
>;

/// The score of `pattern` against `choice` under the default skim matcher,
/// or `None` when it does not match (`SkimMatcherV2::fuzzy_match`).
pub uninterp spec fn skim_score(choice: Seq<char>, pattern: Seq<char>) -> Option<i64>;

/// A compiled regular expression that remembers its pattern.
pub struct SearchRegex {
    re: Regex,
    pattern: Ghost<Seq<char>>,
}

/// Calls `Regex::new` and keeps the compiled expression together with the
/// pattern it was compiled from. The contract claims that the call succeeds
/// exactly when [`regex_new`] says so, that a failure's message is the one
/// that [`regex_new`] names, and that the expression held is the one
/// compiled from `pattern` (its recorded pattern is `pattern`; no verified
/// code builds a `SearchRegex`).
#[verifier::external_body]
fn regex_compile(pattern: &str) -> (r: Result<SearchRegex, String>)
    ensures
        (r is Ok) == (regex_new(pattern@) is Ok),
        r is Err ==> regex_new(pattern@) == Err::<(), Seq<char>>(r->Err_0@),
        r matches Ok(x) ==> x.pattern() == pattern@,
{
    match Regex::new(pattern) {
        Ok(re) => Ok(SearchRegex { re, pattern: Ghost(pattern@) }),
        Err(e) => Err(e.to_string()),
    }
}

impl SearchRegex {
    /// The pattern the expression was compiled from.
    pub closed spec fn pattern(&self) -> Seq<char> {
        self.pattern@
    }

    /// Compiles `pattern`; on failure, returns the `regex` crate's message.
    pub fn compile(pattern: &str) -> (r: Result<SearchRegex, String>)
        ensures
            r is Ok <==> regex_new(pattern@) is Ok,
            r matches Ok(x) ==> x.pattern() == pattern@,
            r matches Err(e) ==> regex_new(pattern@) == Err::<(), Seq<char>>(e@),
    {
        regex_compile(pattern)
    }

    /// Whether the expression matches somewhere in `text`.
    pub fn is_match(&self, text: &str) -> (b: bool)
        ensures
            b == regex_matches(self.pattern(), text@),
    {
        regex_is_match(self, text)
    }

    /// `text` with its first match replaced by `rep` (with `$` expansion).
    pub fn replace(&self, text: &str, rep: &str) -> (s: String)
        ensures
            s@ == regex_replace(self.pattern(), text@, rep@),
            !regex_matches(self.pattern(), text@) ==> s@ == text@,
    {
        regex_replace_first(self, text, rep)
    }
}

/// Calls `Regex::is_match` on the expression held by `r`. The contract
/// claims that the answer is [`regex_matches`] of the pattern it was compiled
/// from (a `SearchRegex` is only built by `regex_compile`, which records the
/// pattern that it compiles).
#[verifier::external_body]
fn regex_is_match(r: &SearchRegex, text: &str) -> (b: bool)
    ensures
        b == regex_matches(r.pattern(), text@),
{
    r.re.is_match(text)
}

/// Calls `Regex::replace` with a string replacement. The contract claims the
/// result is [`regex_replace`] of the compiled pattern, and, as the crate's
/// documentation says, the text unchanged when nothing matches.
#[verifier::external_body]
fn regex_replace_first(r: &SearchRegex, text: &str, rep: &str) -> (s: String)
    ensures
        s@ == regex_replace(r.pattern(), text@, rep@),
        !regex_matches(r.pattern(), text@) ==> s@ == text@,
{
    r.re.replace(text, rep).into_owned()
}

/// The fuzzy scorer used by search.
pub struct NameMatcher {
    skim: SkimMatcherV2,
}

/// Calls `SkimMatcherV2::default()`; nothing is claimed of the result.
#[verifier::external_body]
fn skim_default() -> SkimMatcherV2 {
    SkimMatcherV2::default()
}

/// Calls `FuzzyMatcher::fuzzy_match` on a skim matcher. The contract claims
/// the result is [`skim_score`] (the matchers here are all built with the
/// default settings), and, as the crate's source shows, that an empty pattern
/// scores `Some(0)`.
#[verifier::external_body]
fn skim_fuzzy_match(m: &SkimMatcherV2, choice: &str, pattern: &str) -> (r: Option<i64>)
    ensures
        r == skim_score(choice@, pattern@),
        pattern@.len() == 0 ==> r == Some(0i64),
{
    m.fuzzy_match(choice, pattern)
}

impl NameMatcher {
    /// A matcher with the default skim settings.
    pub fn new() -> (m: NameMatcher) {
        NameMatcher { skim: skim_default() }
    }

    /// The fuzzy score of `pattern` against `choice`.
    pub fn score(&self, choice: &str, pattern: &str) -> (r: Option<i64>)
        ensures
            r == skim_score(choice@, pattern@),
            pattern@.len() == 0 ==> r == Some(0i64),
    {
        skim_fuzzy_match(&self.skim, choice, pattern)
    }
}

} // verus!
