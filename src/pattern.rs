//! Compiled classification patterns, searched with fancy_regex.
use vstd::prelude::*;

verus! {

#[verifier::external_type_specification]
#[verifier::external_body]
pub struct ExRegex(fancy_regex::Regex);

#[verifier::external_type_specification]
#[verifier::external_body]
pub struct ExRegexError(fancy_regex::Error);

/// Whether fancy_regex parses and compiles `pattern`.
pub uninterp spec fn compiles(pattern: Seq<char>) -> bool;

/// The leftmost match that fancy_regex finds for `pattern` in `text`, as a
/// span of character positions; `None` when there is none or the search
/// gives up.
pub uninterp spec fn first_match(pattern: Seq<char>, text: Seq<char>) -> Option<(nat, nat)>;

/// Relies on `fancy_regex::Regex::new`: it succeeds exactly on the patterns
/// that parse and compile, with default options.
#[verifier::external_body]
fn compile(pattern: &str) -> (r: Result<fancy_regex::Regex, fancy_regex::Error>)
    ensures
        r is Ok <==> compiles(pattern@),
{
    fancy_regex::Regex::new(pattern)
}

/// A pattern supplied as text, compiled once.
#[derive(Debug)]
pub struct CRegex {
    source: String,
    regex: fancy_regex::Regex,
}

/// A pattern that fancy_regex does not accept.
#[derive(Clone, Debug, PartialEq, Eq)]
pub struct PatternError {
    pub pattern: String,
}

impl View for CRegex {
    type V = Seq<char>;

    /// The text the pattern was compiled from.
    closed spec fn view(&self) -> Seq<char> {
        self.source@
    }
}

/// Relies on `fancy_regex::Regex::find` on the text of `text`: the leftmost
/// match, whose byte offsets satisfy start <= end <= length and fall on
/// character boundaries; they are handed back counted in characters. An
/// error (the backtracking limit) is reported as no match.
#[verifier::external_body]
fn find_first(re: &CRegex, text: &[char]) -> (r: Option<(usize, usize)>)
    ensures
        r is None ==> first_match(re@, text@) is None,
        r matches Some((s, e)) ==> first_match(re@, text@) == Some((s as nat, e as nat)),
        r matches Some((s, e)) ==> s <= e <= text@.len(),
{
    let hay: String = text.iter().collect();
    match re.regex.find(&hay) {
        Ok(Some(m)) => Some((hay[..m.start()].chars().count(), hay[..m.end()].chars().count())),
        _ => None,
    }
}

/// The length of the match of `pattern` that begins at the start of `text`,
/// when the leftmost match begins there.
pub open spec fn match_at_start(pattern: Seq<char>, text: Seq<char>) -> Option<nat> {
    match first_match(pattern, text) {
        Some((s, e)) => if s == 0 {
            Some(e)
        } else {
            None
        },
        None => None,
    }
}

impl CRegex {
    /// Compiles `pattern`; fails exactly when fancy_regex refuses it.
    pub fn new(pattern: &str) -> (r: Result<CRegex, PatternError>)
        ensures
            r is Ok <==> compiles(pattern@),
            r matches Ok(c) ==> c@ == pattern@,
            r matches Err(e) ==> e.pattern@ == pattern@,
    {
        match compile(pattern) {
            Ok(regex) => Ok(CRegex { source: pattern.to_owned(), regex }),
            Err(_) => Err(PatternError { pattern: pattern.to_owned() }),
        }
    }

    /// The pattern's text.
    pub fn as_str(&self) -> (r: &str)
        ensures
            r@ == self@,
    {
        self.source.as_str()
    }

    /// The length of the match that begins at the start of `text`, if the
    /// leftmost match begins there.
    pub fn match_len_at_start(&self, text: &[char]) -> (r: Option<usize>)
        ensures
            r matches Some(n) ==> n <= text@.len(),
            r matches Some(n) ==> match_at_start(self@, text@) == Some(n as nat),
            r is None ==> match_at_start(self@, text@) is None,
    {
        match find_first(self, text) {
            Some((s, e)) => if s == 0 {
                Some(e)
            } else {
                None
            },
            None => None,
        }
    }
}

} // verus!
