//! The domain of a recipe's source URL.

use regex::Regex;
use vstd::prelude::*;

verus! {

/// What `Regex::replace` returns for the text `text` and the replacement
/// `replacement` on the regex that `Regex::new` compiles from `pattern`: the
/// text with its leftmost match replaced. `None` where the pattern does not
/// compile.
pub uninterp spec fn first_match_replaced(
    pattern: Seq<char>,
    text: Seq<char>,
    replacement: Seq<char>,
) -> Option<Seq<char>>;

/// What `Regex::replace_all` returns for the text `text` and the replacement
/// `replacement` on the regex that `Regex::new` compiles from `pattern`: the
/// text with each of its matches replaced. `None` where the pattern does not
/// compile.
pub uninterp spec fn all_matches_replaced(
    pattern: Seq<char>,
    text: Seq<char>,
    replacement: Seq<char>,
) -> Option<Seq<char>>;

/// The pattern of a URL's scheme with an optional `www` and one more character.
pub const URL_START: &'static str = "^https?://(www.)?";

/// The pattern of a URL's path: from the first `/` to the end.
pub const URL_PATH: &'static str = "/.*$";

/// `Regex::new`, then `Regex::replace`: `text` with the leftmost match of
/// `pattern` replaced by `replacement`; `None` where the pattern does not
/// compile. The result depends on the three texts alone.
#[verifier::external_body]
pub(crate) fn replace_first(pattern: &str, text: &str, replacement: &str) -> (out: Option<String>)
    ensures
        match out {
            Some(s) => first_match_replaced(pattern@, text@, replacement@) == Some(s@),
            None => first_match_replaced(pattern@, text@, replacement@) is None,
        },
{
    match Regex::new(pattern) {
        Ok(re) => Some(re.replace(text, replacement).into_owned()),
        Err(_) => None,
    }
}

/// `Regex::new`, then `Regex::replace_all`: `text` with each match of `pattern`
/// replaced by `replacement`; `None` where the pattern does not compile. The
/// result depends on the three texts alone.
#[verifier::external_body]
pub(crate) fn replace_all(pattern: &str, text: &str, replacement: &str) -> (out: Option<String>)
    ensures
        match out {
            Some(s) => all_matches_replaced(pattern@, text@, replacement@) == Some(s@),
            None => all_matches_replaced(pattern@, text@, replacement@) is None,
        },
{
    match Regex::new(pattern) {
        Ok(re) => Some(re.replace_all(text, replacement).into_owned()),
        Err(_) => None,
    }
}

/// `text` without any match of `pattern`; `text` itself where the pattern does
/// not compile.
pub open spec fn without_matches(pattern: Seq<char>, text: Seq<char>) -> Seq<char> {
    match all_matches_replaced(pattern, text, Seq::empty()) {
        Some(t) => t,
        None => text,
    }
}

/// `text` without the leftmost match of `pattern`; `text` itself where the
/// pattern does not compile.
pub open spec fn without_match(pattern: Seq<char>, text: Seq<char>) -> Seq<char> {
    match first_match_replaced(pattern, text, Seq::empty()) {
        Some(t) => t,
        None => text,
    }
}

/// The domain of a URL: the URL without its scheme and `www.`, then without its
/// path.
pub open spec fn domain_of(url: Seq<char>) -> Seq<char> {
    without_match(URL_PATH@, without_match(URL_START@, url))
}

/// `text` without any match of `pattern`.
pub fn strip_matches(pattern: &str, text: String) -> (out: String)
    ensures
        out@ == without_matches(pattern@, text@),
{
    proof {
        reveal_strlit("");
        assert(""@ =~= Seq::<char>::empty());
    }
    match replace_all(pattern, text.as_str(), "") {
        Some(t) => t,
        None => text,
    }
}

/// `text` without the leftmost match of `pattern`.
pub fn strip_match(pattern: &str, text: String) -> (out: String)
    ensures
        out@ == without_match(pattern@, text@),
{
    match replace_first(pattern, text.as_str(), "") {
        Some(t) => {
            proof {
                reveal_strlit("");
                assert(""@ =~= Seq::<char>::empty());
            }
            t
        },
        None => {
            proof {
                reveal_strlit("");
                assert(""@ =~= Seq::<char>::empty());
            }
            text
        },
    }
}

/// The domain of the URL `a`: `theguardian.com` for
/// `https://www.theguardian.com/international`.
pub fn extract_domain(a: String) -> (domain: String)
    ensures
        domain@ == domain_of(a@),
{
    let b = strip_match(URL_START, a);
    strip_match(URL_PATH, b)
}

} // verus!
