//! Regular expressions, as the `regex` crate understands them.

use vstd::prelude::*;

verus! {

/// Whether the regular expression `pattern` matches somewhere in `haystack`;
/// `None` if `pattern` is not a regular expression.
pub uninterp spec fn regex_verdict(pattern: Seq<char>, haystack: Seq<char>) -> Option<bool>;

/// `regex::Regex::new`, followed by `regex::Regex::is_match` where it succeeds.
/// The outcome is a function of the two texts: `None` where the pattern does not
/// compile, be it malformed or too large for the crate's default limits, else whether
/// there is a match anywhere in `haystack`. Which texts a pattern matches is left to
/// the crate.
#[verifier::external_body]
pub(crate) fn regex_matches(pattern: &str, haystack: &str) -> (verdict: Option<bool>)
    ensures
        verdict == regex_verdict(pattern@, haystack@),
{
    match regex::Regex::new(pattern) {
        Ok(regex) => Some(regex.is_match(haystack)),
        Err(_) => None,
    }
}

/// `haystack` with every match of `pattern` replaced by what `replacement` expands
/// to; `None` if `pattern` is not a regular expression.
pub uninterp spec fn regex_replaced(
    pattern: Seq<char>,
    haystack: Seq<char>,
    replacement: Seq<char>,
) -> Option<Seq<char>>;

/// The text that is cut into `pieces` - what is kept, and what is cut out behind it
/// - and a tail.
pub open spec fn uncut(pieces: Seq<(Seq<char>, Seq<char>)>, tail: Seq<char>) -> Seq<char>
    decreases pieces.len(),
{
    if pieces.len() == 0 {
        tail
    } else {
        uncut(pieces.drop_last(), pieces.last().0 + pieces.last().1 + tail)
    }
}

/// The same text with `patch` in place of each piece that is cut out.
pub open spec fn patched(
    pieces: Seq<(Seq<char>, Seq<char>)>,
    tail: Seq<char>,
    patch: Seq<char>,
) -> Seq<char>
    decreases pieces.len(),
{
    if pieces.len() == 0 {
        tail
    } else {
        patched(pieces.drop_last(), pieces.last().0 + patch + tail, patch)
    }
}

/// Whether `after` is `before` with `patch` in place of at least one piece, and
/// otherwise unchanged.
pub open spec fn only_patched(before: Seq<char>, after: Seq<char>, patch: Seq<char>) -> bool {
    exists|pieces: Seq<(Seq<char>, Seq<char>)>, tail: Seq<char>|
        pieces.len() > 0 && before == uncut(pieces, tail) && after == #[trigger] patched(
            pieces,
            tail,
            patch,
        )
}

/// `regex::Regex::new`, followed by `regex::Regex::replace_all` where it succeeds.
/// The outcome is a function of the three texts: `None` where the pattern does not
/// compile, the haystack as it is where there is no match. A replacement without `$`
/// stands as it is in place of every match, and the text between the matches stays.
/// Which pieces of the text match is left to the crate.
#[verifier::external_body]
pub(crate) fn regex_replace_all(pattern: &str, haystack: &str, replacement: &str) -> (text: Option<
    String,
>)
    ensures
        text.deep_view() == regex_replaced(pattern@, haystack@, replacement@),
        text is None <==> regex_verdict(pattern@, haystack@) is None,
        regex_verdict(pattern@, haystack@) == Some(false) ==> text.deep_view() == Some(haystack@),
        regex_verdict(pattern@, haystack@) == Some(true) && !replacement@.contains('$')
            ==> only_patched(haystack@, text->0@, replacement@),
{
    match regex::Regex::new(pattern) {
        Ok(regex) => Some(regex.replace_all(haystack, replacement).into_owned()),
        Err(_) => None,
    }
}

} // verus!
