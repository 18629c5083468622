use vstd::prelude::*;
use vstd::string::StringExecFns;

use crate::text::{trim_end, trim_end_of};

verus! {

/// One TODO hit: the text of the line, the file it is in and its line number.
pub struct TodoLine {
    pub line: String,
    pub filename: String,
    pub lineno: u64,
}

/// The mathematical value of a `TodoLine`.
pub struct TodoLineView {
    pub line: Seq<char>,
    pub filename: Seq<char>,
    pub lineno: u64,
}

impl View for TodoLine {
    type V = TodoLineView;

    open spec fn view(&self) -> TodoLineView {
        TodoLineView { line: self.line@, filename: self.filename@, lineno: self.lineno }
    }
}

/// The views of a sequence of records.
pub open spec fn record_views(v: Seq<TodoLine>) -> Seq<TodoLineView> {
    v.map_values(|t: TodoLine| t@)
}

impl TodoLine {
    pub fn new(line: String, filename: String, lineno: u64) -> (r: TodoLine)
        ensures
            r.line@ == line@,
            r.filename@ == filename@,
            r.lineno == lineno,
    {
        TodoLine { line, filename, lineno }
    }
}

/// The decimal digit for `d` below ten.
pub open spec fn digit_char(d: nat) -> char {
    if d == 0 {
        '0'
    } else if d == 1 {
        '1'
    } else if d == 2 {
        '2'
    } else if d == 3 {
        '3'
    } else if d == 4 {
        '4'
    } else if d == 5 {
        '5'
    } else if d == 6 {
        '6'
    } else if d == 7 {
        '7'
    } else if d == 8 {
        '8'
    } else {
        '9'
    }
}

/// The decimal notation of `n`, without leading zeros.
pub open spec fn decimal(n: nat) -> Seq<char>
    decreases n,
{
    if n < 10 {
        seq![digit_char(n)]
    } else {
        decimal(n / 10).push(digit_char(n % 10))
    }
}

fn digit_str(d: u64) -> (r: &'static str)
    requires
        d < 10,
    ensures
        r@ == seq![digit_char(d as nat)],
{
    if d == 0 {
        proof { reveal_strlit("0"); }
        "0"
    } else if d == 1 {
        proof { reveal_strlit("1"); }
        "1"
    } else if d == 2 {
        proof { reveal_strlit("2"); }
        "2"
    } else if d == 3 {
        proof { reveal_strlit("3"); }
        "3"
    } else if d == 4 {
        proof { reveal_strlit("4"); }
        "4"
    } else if d == 5 {
        proof { reveal_strlit("5"); }
        "5"
    } else if d == 6 {
        proof { reveal_strlit("6"); }
        "6"
    } else if d == 7 {
        proof { reveal_strlit("7"); }
        "7"
    } else if d == 8 {
        proof { reveal_strlit("8"); }
        "8"
    } else {
        proof { reveal_strlit("9"); }
        "9"
    }
}

/// The decimal notation of `n`.
pub fn to_decimal(n: u64) -> (r: String)
    ensures
        r@ == decimal(n as nat),
    decreases n,
{
    if n < 10 {
        String::from_str(digit_str(n))
    } else {
        let mut s = to_decimal(n / 10);
        s.append(digit_str(n % 10));
        s
    }
}

/// The output line `<file>:<line-number> - <text>` for text already trimmed.
pub open spec fn output_line(filename: Seq<char>, lineno: u64, text: Seq<char>) -> Seq<char> {
    filename + seq![':'] + decimal(lineno as nat) + seq![' ', '-', ' '] + text
}

/// Builds the output line from a file name, a line number and the line's
/// text with its trailing whitespace already removed.
pub fn render_trimmed(filename: &str, lineno: u64, trimmed: &str) -> (r: String)
    ensures
        r@ == output_line(filename@, lineno, trimmed@),
{
    let mut s = String::from_str(filename);
    proof {
        reveal_strlit(":");
        reveal_strlit(" - ");
    }
    s.append(":");
    let digits = to_decimal(lineno);
    s.append(digits.as_str());
    s.append(" - ");
    s.append(trimmed);
    s
}

impl TodoLine {
    /// The record as printed: `<file>:<line-number> - <text>`, the text
    /// without its trailing whitespace.
    pub fn render(&self) -> (r: String)
        ensures
            r@ == output_line(self.filename@, self.lineno, trim_end_of(self.line@)),
            trim_end_of(self.line@).is_prefix_of(self.line@),
    {
        let trimmed = trim_end(self.line.as_str());
        render_trimmed(self.filename.as_str(), self.lineno, trimmed)
    }
}

} // verus!
