use vstd::prelude::*;

use crate::error::ScanError;

verus! {

#[verifier::external_type_specification]
#[verifier::external_body]
pub struct ExRegex(regex::Regex);

#[verifier::external_type_specification]
#[verifier::external_body]
pub struct ExRegexError(regex::Error);

/// The pattern of a TODO marker: a `//` and, later on the same line, the
/// word "todo" in any mix of upper and lower case.
pub const TODO_PATTERN: &'static str = "^(.*)//(.*)[Tt][Oo][Dd][Oo](.*)";

/// `s` holds `//` at position `i`.
pub open spec fn comment_opener_at(s: Seq<char>, i: int) -> bool {
    0 <= i && i + 2 <= s.len() && s[i] == '/' && s[i + 1] == '/'
}

/// `s` holds "todo", each letter in either case, at position `j`.
pub open spec fn todo_word_at(s: Seq<char>, j: int) -> bool {
    0 <= j && j + 4 <= s.len() && (s[j] == 'T' || s[j] == 't') && (s[j + 1] == 'O' || s[j + 1]
        == 'o') && (s[j + 2] == 'D' || s[j + 2] == 'd') && (s[j + 3] == 'O' || s[j + 3] == 'o')
}

/// No newline among the first `n` characters of `s`.
pub open spec fn no_newline_before(s: Seq<char>, n: int) -> bool {
    forall|k: int| 0 <= k < n ==> s[k] != '\n'
}

/// The language of `TODO_PATTERN`: from the start of the text, with no
/// newline in between (`.` does not match one), a `//` and after it a
/// "todo" in any case.
pub open spec fn todo_marked(s: Seq<char>) -> bool {
    exists|i: int, j: int|
        #![trigger comment_opener_at(s, i), todo_word_at(s, j)]
        comment_opener_at(s, i) && i + 2 <= j && todo_word_at(s, j) && no_newline_before(s, j)
}

/// A predicate over one line of text, shared by every line source.
pub trait LineMatcher {
    /// Whether the matcher accepts the line `line`.
    spec fn accepts(&self, line: Seq<char>) -> bool;

    fn matches(&self, line: &str) -> (r: bool)
        ensures
            r == self.accepts(line@),
    ;
}

/// The default matcher: `TODO_PATTERN` compiled by the regex crate.
/// Its field is private and only `compile_todo_pattern` fills it.
pub struct TodoMatcher {
    re: regex::Regex,
}

/// Relies on regex::Regex::new, which fails only on a pattern of invalid
/// syntax or one over the default size limit. It is only ever handed
/// `TODO_PATTERN`, which is neither.
#[verifier::external_body]
fn compile_todo_pattern(pattern: &str) -> (r: Result<TodoMatcher, regex::Error>)
    requires
        pattern@ == TODO_PATTERN@,
    ensures
        r is Ok,
{
    match regex::Regex::new(pattern) {
        Ok(re) => Ok(TodoMatcher { re }),
        Err(e) => Err(e),
    }
}

/// Relies on regex::Regex::is_match: whether the text holds a match of the
/// regex, here the one compiled from `TODO_PATTERN` (the only one that a
/// `TodoMatcher` can hold).
#[verifier::external_body]
fn todo_regex_is_match(m: &TodoMatcher, line: &str) -> (r: bool)
    ensures
        r == todo_marked(line@),
{
    m.re.is_match(line)
}

impl TodoMatcher {
    /// Compiles `TODO_PATTERN`, which always succeeds; the `Result` keeps
    /// `InvalidPattern` for a failure of the regex crate.
    pub fn new() -> (r: Result<TodoMatcher, ScanError>)
        ensures
            r is Ok,
    {
        match compile_todo_pattern(TODO_PATTERN) {
            Ok(m) => Ok(m),
            Err(_) => Err(ScanError::InvalidPattern),
        }
    }
}

impl LineMatcher for TodoMatcher {
    open spec fn accepts(&self, line: Seq<char>) -> bool {
        todo_marked(line)
    }

    fn matches(&self, line: &str) -> (r: bool) {
        todo_regex_is_match(self, line)
    }
}

} // verus!
