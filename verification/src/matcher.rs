//! Text matchers backed by compiled regular expressions.
//!
//! The `regex` crate does the actual compilation and matching; this module
//! wraps it behind a `Matcher` type that remembers the pattern it was
//! compiled from, so that contracts can speak about matching as a function
//! of the pattern and the text.

use vstd::prelude::*;

verus! {

/// Verus declaration of `regex::Regex`, the compiled pattern type of the
/// `regex` crate. The library stores it opaquely inside `Matcher`.
#[verifier::external_type_specification]
#[verifier::external_body]
pub struct ExRegex(regex::Regex);

/// Whether the `regex` crate accepts `pattern` as a syntactically valid
/// pattern: exactly the patterns on which `regex::Regex::new` returns `Ok`.
pub uninterp spec fn regex_valid(pattern: Seq<char>) -> bool;

/// Whether the compiled form of `pattern` matches somewhere in `text`:
/// what `regex::Regex::is_match` returns.
pub uninterp spec fn regex_is_match(pattern: Seq<char>, text: Seq<char>) -> bool;

/// The capture groups of the leftmost match of `pattern` in `text`: one
/// entry per group of the pattern, the first being the implicit group for
/// the whole match; a group that did not participate in the match is
/// `None`. What `regex::Regex::captures` returns on a matching text.
pub uninterp spec fn regex_capture_groups(pattern: Seq<char>, text: Seq<char>) -> Seq<
    Option<Seq<char>>,
>;

/// View of a vector of captured groups as plain values.
pub open spec fn groups_view(caps: Seq<Option<String>>) -> Seq<Option<Seq<char>>> {
    caps.map_values(
        |c: Option<String>|
            match c {
                Option::Some(s) => Option::Some(s@),
                Option::None => Option::<Seq<char>>::None,
            },
    )
}

/// A compiled text matcher: the pattern it was built from, together with
/// the `regex` crate's compiled form of that same pattern.
pub struct Matcher {
    pattern: String,
    compiled: regex::Regex,
}

impl Matcher {
    /// The pattern this matcher was compiled from.
    pub closed spec fn pattern(&self) -> Seq<char> {
        self.pattern@
    }

    /// Relies on `regex::Regex::new`: it returns `Ok` exactly on
    /// syntactically valid patterns, and the compiled value then matches
    /// according to that pattern.
    #[verifier::external_body]
    pub fn compile(pattern: &str) -> (r: Option<Matcher>)
        ensures
            r is Some <==> regex_valid(pattern@),
            r matches Some(m) ==> m.pattern() == pattern@,
    {
        match regex::Regex::new(pattern) {
            Ok(compiled) => Some(Matcher { pattern: pattern.to_owned(), compiled }),
            Err(_) => None,
        }
    }

    /// Relies on `regex::Regex::is_match`: whether this matcher's pattern
    /// matches somewhere in `text`.
    #[verifier::external_body]
    pub fn is_match(&self, text: &str) -> (r: bool)
        ensures
            r == regex_is_match(self.pattern(), text@),
    {
        self.compiled.is_match(text)
    }

    /// Relies on `regex::Regex::captures`: it returns `Some` exactly when
    /// the pattern matches (as the `regex` crate documents), with one entry
    /// per capture group; the first entry is the whole match and always
    /// participates.
    #[verifier::external_body]
    pub fn captures(&self, text: &str) -> (r: Option<Vec<Option<String>>>)
        ensures
            r is Some <==> regex_is_match(self.pattern(), text@),
            r matches Some(caps) ==> groups_view(caps@) == regex_capture_groups(
                self.pattern(),
                text@,
            ),
            r matches Some(caps) ==> caps@.len() >= 1 && caps@[0] is Some,
    {
        self.compiled.captures(text).map(
            |c| c.iter().map(|g| g.map(|m| m.as_str().to_owned())).collect(),
        )
    }
}

} // verus!
