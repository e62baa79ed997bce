//! Calls into the `regex` crate, and `str::to_lowercase`.
//!
//! What a regular expression matches takes the crate's whole syntax to
//! state, so the results are named: `regex_replacement` and
//! `regex_find_spans` are, for a given pattern and text, what the crate
//! computes. Beside the names stand only the facts that the crate's
//! documentation gives for every pattern.

use vstd::prelude::*;
use vstd::utf8::{encode_utf8, is_char_boundary};
use regex::Regex;

verus! {

/// What `Regex::new(pattern)` followed by `replace_all(text, rep)` gives:
/// `None` when the pattern does not compile.
pub uninterp spec fn regex_replacement(pattern: Seq<char>, text: Seq<char>, rep: Seq<char>) -> Option<Seq<char>>;

/// The byte spans `(start, end)` of the successive matches that
/// `Regex::new(pattern)` followed by `find_iter(text)` yields: `None` when
/// the pattern does not compile.
pub uninterp spec fn regex_find_spans(pattern: Seq<char>, text: Seq<char>) -> Option<Seq<(usize, usize)>>;

/// Unicode lowercase of a string, as `str::to_lowercase` gives it.
pub uninterp spec fn lowercase(s: Seq<char>) -> Seq<char>;

/// Match spans as the `regex` documentation describes them for a text
/// whose UTF-8 bytes are `bytes`: each span lies in the text, starts no
/// later than it ends and falls on character boundaries, and the spans
/// come in order without overlapping.
pub open spec fn spans_well_placed(bytes: Seq<u8>, spans: Seq<(usize, usize)>) -> bool {
    &&& forall|i: int|
        0 <= i < spans.len() ==> {
            &&& (#[trigger] spans[i]).0 <= spans[i].1 <= bytes.len()
            &&& is_char_boundary(bytes, spans[i].0 as int)
            &&& is_char_boundary(bytes, spans[i].1 as int)
        }
    &&& forall|i: int, j: int| 0 <= i < j < spans.len() ==> #[trigger] spans[i].1 <= #[trigger] spans[j].0
}

/// `regex::Regex::new(pattern)`, then `Regex::replace_all(text, rep)`.
/// The result is named by `regex_replacement`; `None` stands for the
/// error that `Regex::new` returns on a pattern it does not accept.
#[verifier::external_body]
pub(crate) fn regex_replace_all(pattern: &str, text: &str, rep: &str) -> (r: Option<String>)
    ensures
        match r {
            Some(s) => regex_replacement(pattern@, text@, rep@) == Some(s@),
            None => regex_replacement(pattern@, text@, rep@) is None,
        },
{
    match Regex::new(pattern) {
        Ok(re) => Some(re.replace_all(text, rep).into_owned()),
        Err(_) => None,
    }
}

/// `regex::Regex::new(pattern)`, then the `(start, end)` byte offsets of
/// the matches of `Regex::find_iter(text)`. The result is named by
/// `regex_find_spans`; the crate documents that the matches are successive
/// and non-overlapping, that a match starts no later than it ends, and
/// that its offsets fall on character boundaries of the text.
#[verifier::external_body]
pub(crate) fn regex_match_spans(pattern: &str, text: &str) -> (r: Option<Vec<(usize, usize)>>)
    ensures
        match r {
            Some(v) => regex_find_spans(pattern@, text@) == Some(v@) && spans_well_placed(
                encode_utf8(text@),
                v@,
            ),
            None => regex_find_spans(pattern@, text@) is None,
        },
{
    match Regex::new(pattern) {
        Ok(re) => Some(re.find_iter(text).map(|m| (m.start(), m.end())).collect()),
        Err(_) => None,
    }
}

/// `str::to_lowercase`: the result is named by `lowercase`.
#[verifier::external_body]
pub(crate) fn to_lowercase(s: &str) -> (r: String)
    ensures
        r@ == lowercase(s@),
{
    s.to_lowercase()
}

} // verus!
