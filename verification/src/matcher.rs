//! Body matchers: the rule sub-language used to decide whether an observed
//! body satisfies a recorded expectation.  A rule either requires the body
//! to contain a literal substring, or to match a regular expression.

use vstd::prelude::*;

use crate::errors::DecodeError;

verus! {

/// Whether `needle` occurs in `hay` as a contiguous subsequence.
pub open spec fn text_contains(hay: Seq<char>, needle: Seq<char>) -> bool {
    exists|i: int|
        0 <= i <= hay.len() - needle.len() && #[trigger] hay.subrange(i, i + needle.len())
            == needle
}

/// Relies on `str::contains` with a string pattern: it returns true exactly
/// when the pattern occurs as a contiguous substring of the text.
#[verifier::external_body]
fn str_contains(hay: &str, needle: &str) -> (r: bool)
    ensures
        r == text_contains(hay@, needle@),
{
    hay.contains(needle)
}

/// Whether the pattern text compiles as a regular expression under the
/// engine's default settings (its syntax rules and compile limits).
///
/// Validity is decided by the regular-expression engine and is a function of
/// the pattern text alone; it is named here and never given a definition.
pub uninterp spec fn regex_compiles(pattern: Seq<char>) -> bool;

/// Whether the regular expression finds a match anywhere in the text
/// (unanchored, not a full match).
///
/// The match result is decided by the regular-expression engine and is a
/// function of the pattern and text alone; it is named here and never given
/// a definition.
pub uninterp spec fn regex_match(pattern: Seq<char>, text: Seq<char>) -> bool;

/// Relies on `regex::Regex::new`: under default settings, whether
/// compilation succeeds is a property of the pattern text alone.
#[verifier::external_body]
fn regex_check(pattern: &str) -> (r: bool)
    ensures
        r == regex_compiles(pattern@),
{
    regex::Regex::new(pattern).is_ok()
}

/// Relies on `regex::Regex::new` and `regex::Regex::is_match`: for a valid
/// pattern, whether the compiled expression matches anywhere in the text, a
/// function of pattern and text alone.  The precondition admits only
/// patterns that compile, so the error branch below is never taken.
#[verifier::external_body]
fn regex_find(pattern: &str, text: &str) -> (r: bool)
    requires
        regex_compiles(pattern@),
    ensures
        r == regex_match(pattern@, text@),
{
    match regex::Regex::new(pattern) {
        Ok(re) => re.is_match(text),
        Err(_) => false,
    }
}

/// A regular-expression rule whose pattern text was checked to compile when
/// the rule was constructed; matching can therefore never fail.
pub struct CheckedRegex {
    source: String,
}

impl CheckedRegex {
    /// The pattern text compiles; established at construction, relied on by
    /// every match.
    #[verifier::type_invariant]
    spec fn compiled(self) -> bool {
        regex_compiles(self.source@)
    }

    /// Compiles the pattern text eagerly; fails exactly when the text is
    /// not a valid regular expression.
    pub fn new(pattern: &str) -> (r: Result<CheckedRegex, DecodeError>)
        ensures
            r is Ok <==> regex_compiles(pattern@),
            r is Ok ==> r->Ok_0@ == pattern@,
            r is Err ==> r->Err_0@ == (crate::errors::ErrView::PatternSyntax {
                pattern: pattern@,
            }),
    {
        if regex_check(pattern) {
            Ok(CheckedRegex { source: pattern.to_owned() })
        } else {
            Err(DecodeError::PatternSyntax { pattern: pattern.to_owned() })
        }
    }

    /// The pattern source text.
    pub fn as_str(&self) -> (r: &str)
        ensures
            r@ == self@,
    {
        self.source.as_str()
    }

    /// Whether the expression matches anywhere in the text.
    pub fn is_match(&self, text: &str) -> (r: bool)
        ensures
            r == regex_match(self@, text@),
    {
        proof {
            use_type_invariant(self);
        }
        regex_find(self.source.as_str(), text)
    }
}

impl View for CheckedRegex {
    type V = Seq<char>;

    closed spec fn view(&self) -> Seq<char> {
        self.source@
    }
}

/// One matching rule for an HTTP body.
pub enum BodyMatcher {
    /// The body must contain exactly this text as a substring.
    Substring(String),
    /// The body must match this regular expression.
    Regex(CheckedRegex),
}

/// The mathematical shape of a matching rule; the regular-expression rule
/// abstracts to its pattern text.
pub enum MatcherView {
    /// See [`BodyMatcher::Substring`].
    Substring(Seq<char>),
    /// See [`BodyMatcher::Regex`].
    Regex(Seq<char>),
}

impl View for BodyMatcher {
    type V = MatcherView;

    open spec fn view(&self) -> MatcherView {
        match self {
            BodyMatcher::Substring(s) => MatcherView::Substring(s@),
            BodyMatcher::Regex(r) => MatcherView::Regex(r@),
        }
    }
}

impl DeepView for BodyMatcher {
    type V = MatcherView;

    open spec fn deep_view(&self) -> MatcherView {
        self.view()
    }
}

/// Whether one rule accepts the text.
pub open spec fn matcher_matches(m: MatcherView, text: Seq<char>) -> bool {
    match m {
        MatcherView::Substring(needle) => text_contains(text, needle),
        MatcherView::Regex(pattern) => regex_match(pattern, text),
    }
}

/// Whether every rule in the list accepts the text.
pub open spec fn all_matchers_match(ms: Seq<MatcherView>, text: Seq<char>) -> bool {
    forall|i: int| 0 <= i < ms.len() ==> matcher_matches(ms[i], text)
}

impl BodyMatcher {
    /// Whether this rule accepts the text.
    pub fn matches(&self, text: &str) -> (r: bool)
        ensures
            r == matcher_matches(self@, text@),
    {
        match self {
            BodyMatcher::Substring(needle) => str_contains(text, needle.as_str()),
            BodyMatcher::Regex(re) => re.is_match(text),
        }
    }
}

/// Whether every rule in the list accepts the text.
pub fn all_match(ms: &Vec<BodyMatcher>, text: &str) -> (r: bool)
    ensures
        r == all_matchers_match(ms.deep_view(), text@),
{
    let mut i: usize = 0;
    while i < ms.len()
        invariant
            0 <= i <= ms@.len(),
            forall|j: int| 0 <= j < i ==> matcher_matches(ms.deep_view()[j], text@),
        decreases ms@.len() - i,
    {
        if !ms[i].matches(text) {
            assert(!matcher_matches(ms.deep_view()[i as int], text@));
            return false;
        }
        i = i + 1;
    }
    true
}

} // verus!
