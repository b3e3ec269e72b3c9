//! Positional diagnostics.
//!
//! Semantic errors are accumulated during compilation and surfaced together;
//! the one structural error, a missing module declaration, aborts the whole
//! compilation before any method is compiled.

use vstd::prelude::*;

use crate::strutil::push_char;
use vstd::string::StringExecFns;
use vstd::string::StrSliceExecFns;

verus! {

/// Mathematical model of an error kind.
pub enum ErrorIdV {
    SymbolNotFound(Seq<char>),
    UnexpectedArgCount(u16),
    UnexpectedArgType(Seq<char>, Seq<char>),
    ExpectedModule,
}

/// Mathematical model of a diagnostic record.
pub struct ErrorV {
    pub id: ErrorIdV,
    pub start: (usize, usize),
}

/// The kind of a diagnostic.
#[derive(Debug)]
pub enum CompileErrorId {
    SymbolNotFound(String),
    UnexpectedArgCount(u16),
    UnexpectedArgType(String, String),
    ExpectedModule,
}

impl View for CompileErrorId {
    type V = ErrorIdV;

    open spec fn view(&self) -> ErrorIdV {
        match self {
            CompileErrorId::SymbolNotFound(s) => ErrorIdV::SymbolNotFound(s@),
            CompileErrorId::UnexpectedArgCount(n) => ErrorIdV::UnexpectedArgCount(*n),
            CompileErrorId::UnexpectedArgType(e, g) => ErrorIdV::UnexpectedArgType(e@, g@),
            CompileErrorId::ExpectedModule => ErrorIdV::ExpectedModule,
        }
    }
}

/// A diagnostic record: an error kind and the 1-based (line, column) source
/// position it points at.
#[derive(Debug)]
pub struct CompileError {
    pub id: CompileErrorId,
    pub start: (usize, usize),
}

impl View for CompileError {
    type V = ErrorV;

    open spec fn view(&self) -> ErrorV {
        ErrorV { id: self.id@, start: self.start }
    }
}

impl CompileError {
    pub fn new(id: CompileErrorId, start: (usize, usize)) -> (r: Self)
        ensures
            r@ == (ErrorV { id: id@, start }),
    {
        Self { id, start }
    }
}

/// The decimal digit character of a value below ten.
pub open spec fn digit_char(n: int) -> char {
    if n == 0 {
        '0'
    } else if n == 1 {
        '1'
    } else if n == 2 {
        '2'
    } else if n == 3 {
        '3'
    } else if n == 4 {
        '4'
    } else if n == 5 {
        '5'
    } else if n == 6 {
        '6'
    } else if n == 7 {
        '7'
    } else if n == 8 {
        '8'
    } else {
        '9'
    }
}

/// The decimal rendering of a non-negative number.
pub open spec fn dec_chars(n: int) -> Seq<char>
    decreases n,
{
    if n < 10 {
        seq![digit_char(n)]
    } else {
        dec_chars(n / 10).push(digit_char(n % 10))
    }
}

fn digit_of(d: u16) -> (c: char)
    requires
        d < 10,
    ensures
        c == digit_char(d as int),
{
    match d {
        0 => '0',
        1 => '1',
        2 => '2',
        3 => '3',
        4 => '4',
        5 => '5',
        6 => '6',
        7 => '7',
        8 => '8',
        _ => '9',
    }
}

/// Renders a number in decimal.
fn dec_string(n: u16) -> (r: String)
    ensures
        r@ == dec_chars(n as int),
    decreases n,
{
    if n < 10 {
        let mut s = String::new();
        push_char(&mut s, digit_of(n));
        proof {
            assert(s@ =~= dec_chars(n as int));
        }
        s
    } else {
        let mut s = dec_string(n / 10);
        push_char(&mut s, digit_of(n % 10));
        s
    }
}

/// The message text of a diagnostic kind.
pub open spec fn message_chars(id: ErrorIdV) -> Seq<char> {
    match id {
        ErrorIdV::SymbolNotFound(name) => "symbol not found: "@ + name,
        ErrorIdV::UnexpectedArgCount(n) => "unexpected argument: expected "@ + dec_chars(n as int)
            + " arguments"@,
        ErrorIdV::UnexpectedArgType(e, g) => "unexpected argument: expected a "@ + e + ", got a "@
            + g,
        ErrorIdV::ExpectedModule => "expected a module declaration"@,
    }
}

/// Index of the first line break at or after position `i`, or the text's
/// end.
pub open spec fn line_end(s: Seq<char>, i: int) -> int
    decreases s.len() - i,
{
    if i < 0 {
        0
    } else if i >= s.len() {
        s.len() as int
    } else if s[i] == '\n' {
        i
    } else {
        line_end(s, i + 1)
    }
}

/// Index at which the 1-based `line`-th line starts; the text's end if the
/// text has fewer lines.
pub open spec fn line_start(s: Seq<char>, line: int) -> int
    decreases line,
{
    if line <= 1 {
        0
    } else {
        let p = line_start(s, line - 1);
        let e = line_end(s, p);
        if e < s.len() {
            e + 1
        } else {
            s.len() as int
        }
    }
}

/// How many lines the text has, counting from position `i`: one more than
/// the number of line breaks at or after `i`.
pub open spec fn lines_from(s: Seq<char>, i: int) -> int
    decreases s.len() - i,
{
    if i < 0 || i >= s.len() {
        1
    } else if s[i] == '\n' {
        1 + lines_from(s, i + 1)
    } else {
        lines_from(s, i + 1)
    }
}

/// Every text has at least one line.
pub proof fn lemma_lines_from_pos(s: Seq<char>, i: int)
    ensures
        lines_from(s, i) >= 1,
    decreases s.len() - i,
{
    if 0 <= i < s.len() {
        lemma_lines_from_pos(s, i + 1);
    }
}

/// The number of lines of a text.
pub open spec fn line_count(s: Seq<char>) -> int {
    lines_from(s, 0)
}

/// The 1-based `line`-th line of the text.
pub open spec fn line_chars(s: Seq<char>, line: int) -> Seq<char> {
    s.subrange(line_start(s, line), line_end(s, line_start(s, line)))
}

/// Index of the first character of a line that is not a space, or 0 when
/// every character is a space; scanning from position `i`.
pub open spec fn nonspace_from(s: Seq<char>, i: int) -> int
    decreases s.len() - i,
{
    if i < 0 || i >= s.len() {
        0
    } else if s[i] != ' ' {
        i
    } else {
        nonspace_from(s, i + 1)
    }
}

/// The caret column of a diagnostic: the number of spaces before the `^`,
/// relative to a line trimmed by `offset` characters. A column inside the
/// trimmed indentation points at the first kept character.
pub open spec fn caret_spaces(col: int, offset: int) -> int {
    if col >= offset + 1 {
        col - 1 - offset
    } else {
        0
    }
}

impl CompileError {
    /// The message text of this diagnostic.
    pub fn message(&self) -> (r: String)
        ensures
            r@ == message_chars(self.id@),
    {
        match &self.id {
            CompileErrorId::SymbolNotFound(name) => {
                let mut m = String::from_str("symbol not found: ");
                m.append(name.as_str());
                m
            },
            CompileErrorId::UnexpectedArgCount(n) => {
                let mut m = String::from_str("unexpected argument: expected ");
                let d = dec_string(*n);
                m.append(d.as_str());
                m.append(" arguments");
                m
            },
            CompileErrorId::UnexpectedArgType(e, g) => {
                let mut m = String::from_str("unexpected argument: expected a ");
                m.append(e.as_str());
                m.append(", got a ");
                m.append(g.as_str());
                m
            },
            CompileErrorId::ExpectedModule => String::from_str("expected a module declaration"),
        }
    }
}

/// Extracts the 1-based `line`-th line of a source text, or nothing when the
/// text has fewer lines than that.
pub fn source_line(source: &str, line: usize) -> (r: Option<String>)
    ensures
        ({
            if 1 <= line && line <= line_count(source@) {
                r is Some && r->0@ == line_chars(source@, line as int)
            } else {
                r is None
            }
        }),
{
    if line == 0 {
        return None;
    }
    let n = source.unicode_len();
    let mut cur: usize = 1;
    let mut p: usize = 0;
    while cur < line
        invariant
            1 <= cur <= line,
            n == source@.len(),
            p <= n,
            p == line_start(source@, cur as int),
            lines_from(source@, p as int) == line_count(source@) - cur + 1,
        decreases line - cur,
    {
        let mut j = p;
        while j < n && source.get_char(j) != '\n'
            invariant
                p <= j <= n,
                n == source@.len(),
                line_end(source@, p as int) == line_end(source@, j as int),
                lines_from(source@, p as int) == lines_from(source@, j as int),
            decreases n - j,
        {
            j = j + 1;
        }
        proof {
            assert(line_end(source@, j as int) == j);
        }
        if j >= n {
            proof {
                assert(lines_from(source@, j as int) == 1);
                assert(line_count(source@) == cur);
            }
            return None;
        }
        proof {
            assert(source@[j as int] == '\n');
            assert(lines_from(source@, j as int) == 1 + lines_from(source@, j as int + 1));
            assert(line_start(source@, cur as int + 1) == j + 1);
        }
        p = j + 1;
        cur = cur + 1;
    }
    let mut j = p;
    let mut out = String::new();
    proof {
        assert(out@ =~= source@.subrange(p as int, p as int));
    }
    while j < n && source.get_char(j) != '\n'
        invariant
            p <= j <= n,
            n == source@.len(),
            line_end(source@, p as int) == line_end(source@, j as int),
            out@ == source@.subrange(p as int, j as int),
        decreases n - j,
    {
        push_char(&mut out, source.get_char(j));
        j = j + 1;
        proof {
            assert(out@ =~= source@.subrange(p as int, j as int));
        }
    }
    proof {
        assert(line_end(source@, j as int) == j);
        lemma_lines_from_pos(source@, p as int);
        assert(out@ == line_chars(source@, line as int));
    }
    Some(out)
}

/// The index of a line's first character that is not a space; 0 when the
/// whole line is spaces.
pub fn indent_of(line: &str) -> (r: usize)
    ensures
        r == nonspace_from(line@, 0),
{
    let n = line.unicode_len();
    let mut i: usize = 0;
    while i < n && line.get_char(i) == ' '
        invariant
            i <= n,
            n == line@.len(),
            nonspace_from(line@, 0) == nonspace_from(line@, i as int),
        decreases n - i,
    {
        i = i + 1;
    }
    if i >= n {
        0
    } else {
        i
    }
}

/// The line with its leading spaces removed.
pub fn trimmed(line: &str) -> (r: String)
    ensures
        r@ == line@.skip(nonspace_from(line@, 0)),
{
    let off = indent_of(line);
    let n = line.unicode_len();
    let mut out = String::new();
    let mut i: usize = off;
    proof {
        assert(0 <= nonspace_from(line@, 0) <= line@.len()) by {
            lemma_nonspace_range(line@, 0);
        }
        assert(out@ =~= line@.subrange(off as int, off as int));
    }
    while i < n
        invariant
            off <= i <= n,
            n == line@.len(),
            out@ == line@.subrange(off as int, i as int),
        decreases n - i,
    {
        push_char(&mut out, line.get_char(i));
        i = i + 1;
        proof {
            assert(out@ =~= line@.subrange(off as int, i as int));
        }
    }
    proof {
        assert(out@ =~= line@.skip(off as int));
    }
    out
}

/// The scan for a non-space character stays within the text.
pub proof fn lemma_nonspace_range(s: Seq<char>, i: int)
    ensures
        0 <= nonspace_from(s, i) <= s.len(),
    decreases s.len() - i,
{
    if 0 <= i < s.len() && s[i] == ' ' {
        lemma_nonspace_range(s, i + 1);
    }
}

/// The caret line that points at a diagnostic's column: spaces up to the
/// column, relative to a line trimmed by `offset` characters, then one
/// caret.
pub fn caret_line(col: usize, offset: usize) -> (r: String)
    ensures
        r@ == Seq::new(caret_spaces(col as int, offset as int) as nat, |k: int| ' ').push('^'),
{
    let n = if col > offset {
        col - 1 - offset
    } else {
        0
    };
    proof {
        assert(n == caret_spaces(col as int, offset as int));
    }
    let mut s = String::new();
    let mut i: usize = 0;
    proof {
        assert(s@ =~= Seq::new(0, |k: int| ' '));
    }
    while i < n
        invariant
            i <= n,
            s@ == Seq::new(i as nat, |k: int| ' '),
        decreases n - i,
    {
        push_char(&mut s, ' ');
        i = i + 1;
        proof {
            assert(s@ =~= Seq::new(i as nat, |k: int| ' '));
        }
    }
    push_char(&mut s, '^');
    s
}

} // verus!
