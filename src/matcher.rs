use crate::error::ConfigError;
use regex::Regex;
use vstd::prelude::*;

verus! {

#[verifier::external_type_specification]
#[verifier::external_body]
pub struct ExRegex(Regex);

#[verifier::external_type_specification]
#[verifier::external_body]
pub struct ExRegexError(regex::Error);

/// Whether the regex engine accepts `p` as a pattern.
pub uninterp spec fn regex_accepts(p: Seq<char>) -> bool;

/// The leftmost search of pattern `p` in `text`: `None` when nothing matches,
/// else the text of the first capture group, `None` where the pattern has no such
/// group or the group took no part in the match.
pub uninterp spec fn regex_first_group(p: Seq<char>, text: Seq<char>) -> Option<Option<Seq<char>>>;

/// `g` occurs in `t` as a contiguous piece.
pub open spec fn is_piece_of(g: Seq<char>, t: Seq<char>) -> bool {
    exists|i: int| 0 <= i && i + g.len() <= t.len() && #[trigger] t.subrange(i, i + g.len()) == g
}

/// The texts that a search result holds.
pub open spec fn group_view(r: Option<Option<String>>) -> Option<Option<Seq<char>>> {
    match r {
        None => None,
        Some(None) => Some(None),
        Some(Some(g)) => Some(Some(g@)),
    }
}

/// A compiled pattern, kept together with the text it was compiled from.
/// It is read-only once built.
pub struct PatternMatcher {
    regex: Regex,
    pattern: String,
}

impl View for PatternMatcher {
    type V = Seq<char>;

    closed spec fn view(&self) -> Seq<char> {
        self.pattern@
    }
}

/// Relies on regex::Regex::new: it fails exactly on the patterns that the engine
/// refuses. The compiled value is stored beside the text it came from.
#[verifier::external_body]
fn compile_regex(p: &str) -> (r: Result<PatternMatcher, regex::Error>)
    ensures
        r is Ok <==> regex_accepts(p@),
        r matches Ok(m) ==> m@ == p@,
{
    Regex::new(p).map(|regex| PatternMatcher { regex, pattern: p.to_string() })
}

/// Relies on regex::Regex::captures and regex::Captures::get: the leftmost match
/// in `text` and the text of its first group, which is a piece of `text`.
#[verifier::external_body]
fn search_first_group(m: &PatternMatcher, text: &str) -> (r: Option<Option<String>>)
    ensures
        group_view(r) == regex_first_group(m@, text@),
        r matches Some(Some(g)) ==> is_piece_of(g@, text@),
{
    m.regex.captures(text).map(|c| c.get(1).map(|g| g.as_str().to_string()))
}

/// What matching an address gave: no match, or a match whose first capture group
/// covers `part` of the `whole` symbols of the address.
#[derive(Clone, Copy, Debug, PartialEq, Eq, Structural)]
pub enum MatchResult {
    Unmatched,
    Matched { part: usize, whole: usize },
}

impl MatchResult {
    /// The proportion `part / whole` lies in `[0, 1]`.
    pub open spec fn wf(&self) -> bool {
        match *self {
            MatchResult::Unmatched => true,
            MatchResult::Matched { part, whole } => 0 < whole && part <= whole,
        }
    }
}

/// The outcome of matching `text` against pattern `p`. The proportion is the length
/// of the first group over the length of the text; it is zero where there is no
/// group, and where the text is empty (written `0 / 1` there).
pub open spec fn outcome(p: Seq<char>, text: Seq<char>) -> MatchResult {
    let whole = if text.len() == 0 {
        1usize
    } else {
        text.len() as usize
    };
    match regex_first_group(p, text) {
        None => MatchResult::Unmatched,
        Some(None) => MatchResult::Matched { part: 0, whole },
        Some(Some(g)) => MatchResult::Matched { part: g.len() as usize, whole },
    }
}

impl PatternMatcher {
    /// Compiles `pattern`; fails with `PatternError` exactly when the engine
    /// refuses it.
    pub fn new(pattern: &str) -> (r: Result<PatternMatcher, ConfigError>)
        ensures
            r is Ok <==> regex_accepts(pattern@),
            r matches Ok(m) ==> m@ == pattern@,
            r matches Err(e) ==> e == ConfigError::PatternError,
    {
        match compile_regex(pattern) {
            Ok(m) => Ok(m),
            Err(_) => Err(ConfigError::PatternError),
        }
    }

    /// Matches `address` (anywhere in it, unless the pattern anchors) and measures
    /// the share of it that the first capture group took.
    pub fn evaluate(&self, address: &str) -> (r: MatchResult)
        ensures
            r == outcome(self@, address@),
            r.wf(),
    {
        let n = address.unicode_len();
        let whole: usize = if n == 0 {
            1
        } else {
            n
        };
        match search_first_group(self, address) {
            None => MatchResult::Unmatched,
            Some(None) => MatchResult::Matched { part: 0, whole },
            Some(Some(g)) => {
                let part = g.as_str().unicode_len();
                proof {
                    let i = choose|i: int|
                        0 <= i && i + g@.len() <= address@.len() && #[trigger] address@.subrange(
                            i,
                            i + g@.len(),
                        ) == g@;
                    assert(address@.subrange(i, i + g@.len()).len() == g@.len());
                }
                MatchResult::Matched { part, whole }
            },
        }
    }
}

} // verus!
