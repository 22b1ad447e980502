//! Reader for the html5lib tree-construction test fixtures
//! (<https://github.com/html5lib/html5lib-tests/tree/master/tree-construction>).
//!
//! A fixture file is a list of tests separated by blank lines. Each test has a `#data`
//! section, an `#errors` section, optionally `#new-errors`, `#script-on` / `#script-off`
//! and `#document-fragment`, and finally a `#document` section.
use vstd::prelude::*;
use crate::scan::{
    lemma_find_from_bounds, lemma_skip_multispace_bounds, lines, lines_of, multispace0, parse_u64,
    skip_multispace, spec_tag, spec_take_until, spec_take_until1, spec_u64, sub_chars, tag,
    take_until, take_until1, trim, trim_chars,
};
use crate::text::{chars_of, string_of};

verus! {

/// Marker that stands for a quoted blank line inside a test's data, which would otherwise
/// end the test.
pub const QUOTED_DOUBLE_NEWLINE: &'static str = ":quoted-double-newline:";

/// A position in a fixture: 1-based line, and 1-based column counted in UTF-8 bytes.
#[derive(Clone, Copy, Debug, Default, PartialEq, Eq, Structural)]
pub struct Position {
    pub line: usize,
    pub col: usize,
}

/// One expected parse error of a test.
#[derive(Clone, Debug, PartialEq, Eq)]
pub enum ErrorSpec {
    Message(String),
    Line { line: usize, message: String },
    Location { pos: Position, message: String },
    Span { start: Position, end: Position, message: String },
}

/// The mathematical value of an `ErrorSpec`.
pub enum ErrorSpecView {
    Message(Seq<char>),
    Line(usize, Seq<char>),
    Location(Position, Seq<char>),
    Span(Position, Position, Seq<char>),
}

impl View for ErrorSpec {
    type V = ErrorSpecView;

    open spec fn view(&self) -> ErrorSpecView {
        match self {
            ErrorSpec::Message(m) => ErrorSpecView::Message(m@),
            ErrorSpec::Line { line, message } => ErrorSpecView::Line(*line, message@),
            ErrorSpec::Location { pos, message } => ErrorSpecView::Location(*pos, message@),
            ErrorSpec::Span { start, end, message } => ErrorSpecView::Span(*start, *end, message@),
        }
    }
}

/// The views of a list of error specifications.
pub open spec fn errors_view(v: Seq<ErrorSpec>) -> Seq<ErrorSpecView> {
    v.map_values(|e: ErrorSpec| e@)
}

/// Whether a test is to be run with scripting on, off, or both.
#[derive(Clone, Copy, Debug, PartialEq, Eq, Structural)]
pub enum ScriptMode {
    ScriptOn,
    ScriptOff,
    Both,
}

impl Default for ScriptMode {
    fn default() -> (m: Self)
        ensures
            m == ScriptMode::Both,
    {
        ScriptMode::Both
    }
}

/// One test of a fixture file.
#[derive(Debug, PartialEq, Default, Clone)]
pub struct TestSpec {
    /// #data section
    pub data: String,
    /// #errors section
    pub errors: Vec<ErrorSpec>,
    /// #new-errors section
    pub new_errors: Vec<ErrorSpec>,
    /// #document-fragment section
    pub document_fragment: Option<String>,
    /// #script-on, #script-off
    pub script_mode: ScriptMode,
    /// #document section
    pub document: String,
    /// Position in the input stream
    pub position: Position,
}

/// The mathematical value of a `TestSpec`.
pub struct TestSpecView {
    pub data: Seq<char>,
    pub errors: Seq<ErrorSpecView>,
    pub new_errors: Seq<ErrorSpecView>,
    pub document_fragment: Option<Seq<char>>,
    pub script_mode: ScriptMode,
    pub document: Seq<char>,
    pub position: Position,
}

impl View for TestSpec {
    type V = TestSpecView;

    open spec fn view(&self) -> TestSpecView {
        TestSpecView {
            data: self.data@,
            errors: errors_view(self.errors@),
            new_errors: errors_view(self.new_errors@),
            document_fragment: match self.document_fragment {
                Some(f) => Some(f@),
                None => None,
            },
            script_mode: self.script_mode,
            document: self.document@,
            position: self.position,
        }
    }
}

/// The outcome of running a test against the parser under test.
pub enum TreeConstructionResult {
    Success,
    Error,
}

impl TestSpec {
    /// Runs the test. The parser under test is not wired in yet: every test succeeds.
    pub fn parse(&self) -> (r: Result<TreeConstructionResult, FixtureError>)
        ensures
            r matches Ok(TreeConstructionResult::Success),
    {
        Ok(TreeConstructionResult::Success)
    }
}

/// Why a fixture file could not be read.
#[derive(Debug, Clone, PartialEq, Eq)]
pub enum FixtureError {
    /// The file does not follow the fixture format.
    Test(String),
}

// ---------------------------------------------------------------------------------------
// Specification of the format.

/// The UTF-8 length of a character.
pub open spec fn utf8_len(c: char) -> nat {
    if (c as u32) < 0x80 {
        1
    } else if (c as u32) < 0x800 {
        2
    } else if (c as u32) < 0x10000 {
        3
    } else {
        4
    }
}

/// The number of line feeds in `s`.
pub open spec fn count_newlines(s: Seq<char>) -> nat
    decreases s.len(),
{
    if s.len() == 0 {
        0
    } else {
        count_newlines(s.drop_last()) + if s.last() == '\n' { 1nat } else { 0nat }
    }
}

/// The number of UTF-8 bytes after the last line feed of `s`.
pub open spec fn bytes_since_newline(s: Seq<char>) -> nat
    decreases s.len(),
{
    if s.len() == 0 {
        0
    } else if s.last() == '\n' {
        0
    } else {
        bytes_since_newline(s.drop_last()) + utf8_len(s.last())
    }
}

/// The position of offset `p` of `s`.
pub open spec fn position_at(s: Seq<char>, p: int) -> Position {
    Position {
        line: (1 + count_newlines(s.take(p))) as usize,
        col: (1 + bytes_since_newline(s.take(p))) as usize,
    }
}

/// `s` without one final line feed (if it ends with one).
pub open spec fn spec_trim_last_newline(s: Seq<char>) -> Seq<char> {
    if s.len() > 0 && s.last() == '\n' {
        s.drop_last()
    } else {
        s
    }
}

/// `#data\n`, white space, then everything up to `#errors`.
pub open spec fn spec_data(s: Seq<char>, p: int) -> Option<(int, Seq<char>)> {
    match spec_tag(s, p, "#data\n"@) {
        Some(p1) => spec_take_until(s, skip_multispace(s, p1), "#errors"@),
        None => None,
    }
}

/// Two numbers with the given separator between them, read as (line, column).
pub open spec fn spec_num_pair(s: Seq<char>, p: int, sep: Seq<char>) -> Option<(int, Position)> {
    match spec_u64(s, p) {
        None => None,
        Some((p1, line)) => match spec_tag(s, p1, sep) {
            None => None,
            Some(p2) => match spec_u64(s, p2) {
                None => None,
                Some((p3, col)) => Some((p3, Position { line: line as usize, col: col as usize })),
            },
        },
    }
}

/// A location `open line sep col )`.
pub open spec fn spec_paren_location(s: Seq<char>, p: int, open: Seq<char>, sep: Seq<char>) -> Option<(int, Position)> {
    match spec_tag(s, p, open) {
        None => None,
        Some(p1) => match spec_num_pair(s, p1, sep) {
            None => None,
            Some((p2, pos)) => match spec_tag(s, p2, ")"@) {
                None => None,
                Some(p3) => Some((p3, pos)),
            },
        },
    }
}

/// A location, then `after`, then a (trimmed) message up to the end of the line.
pub open spec fn spec_located_message(s: Seq<char>, loc: Option<(int, Position)>, after: Seq<char>) -> Option<(int, ErrorSpecView)> {
    match loc {
        None => None,
        Some((p1, pos)) => match spec_tag(s, p1, after) {
            None => None,
            Some(p2) => match spec_take_until1(s, p2, "\n"@) {
                None => None,
                Some((p3, m)) => Some((p3, ErrorSpecView::Location(pos, trim(m)))),
            },
        },
    }
}

/// `(line,col): message`
pub open spec fn spec_error_1(s: Seq<char>, p: int) -> Option<(int, ErrorSpecView)> {
    spec_located_message(s, spec_paren_location(s, p, "("@, ","@), ": "@)
}

/// `(line:col) message`
pub open spec fn spec_error_2(s: Seq<char>, p: int) -> Option<(int, ErrorSpecView)> {
    spec_located_message(s, spec_paren_location(s, p, "("@, ":"@), " "@)
}

/// `line:col: message`
pub open spec fn spec_error_3(s: Seq<char>, p: int) -> Option<(int, ErrorSpecView)> {
    spec_located_message(s, spec_num_pair(s, p, ":"@), ": "@)
}

/// ` * (line,col) message` (the leading space is optional)
pub open spec fn spec_error_4(s: Seq<char>, p: int) -> Option<(int, ErrorSpecView)> {
    let loc = match spec_paren_location(s, p, " * ("@, ","@) {
        Some(r) => Some(r),
        None => spec_paren_location(s, p, "* ("@, ","@),
    };
    spec_located_message(s, loc, " "@)
}

/// `line: message`
pub open spec fn spec_error_5(s: Seq<char>, p: int) -> Option<(int, ErrorSpecView)> {
    match spec_u64(s, p) {
        None => None,
        Some((p1, line)) => match spec_tag(s, p1, ": "@) {
            None => None,
            Some(p2) => match spec_take_until1(s, p2, "\n"@) {
                None => None,
                Some((p3, m)) => Some((p3, ErrorSpecView::Line(line as usize, trim(m)))),
            },
        },
    }
}

/// `(line:col-line:col) message` (the message is kept as it stands)
pub open spec fn spec_error_6(s: Seq<char>, p: int) -> Option<(int, ErrorSpecView)> {
    match spec_tag(s, p, "("@) {
        None => None,
        Some(p1) => match spec_num_pair(s, p1, ":"@) {
            None => None,
            Some((p2, start)) => match spec_tag(s, p2, "-"@) {
                None => None,
                Some(p3) => match spec_num_pair(s, p3, ":"@) {
                    None => None,
                    Some((p4, end)) => match spec_tag(s, p4, ")"@) {
                        None => None,
                        Some(p5) => match spec_tag(s, p5, " "@) {
                            None => None,
                            Some(p6) => match spec_take_until1(s, p6, "\n"@) {
                                None => None,
                                Some((p7, m)) => Some((p7, ErrorSpecView::Span(start, end, m))),
                            },
                        },
                    },
                },
            },
        },
    }
}

/// One of the five older error notations.
pub open spec fn spec_old_error(s: Seq<char>, p: int) -> Option<(int, ErrorSpecView)> {
    match spec_error_1(s, p) {
        Some(r) => Some(r),
        None => match spec_error_2(s, p) {
            Some(r) => Some(r),
            None => match spec_error_3(s, p) {
                Some(r) => Some(r),
                None => match spec_error_4(s, p) {
                    Some(r) => Some(r),
                    None => spec_error_5(s, p),
                },
            },
        },
    }
}

/// One of the two newer error notations.
pub open spec fn spec_new_error(s: Seq<char>, p: int) -> Option<(int, ErrorSpecView)> {
    match spec_error_2(s, p) {
        Some(r) => Some(r),
        None => spec_error_6(s, p),
    }
}

/// White space, an error line, then a line feed.
pub open spec fn spec_error_line(s: Seq<char>, p: int, newer: bool) -> Option<(int, ErrorSpecView)> {
    let q = skip_multispace(s, p);
    match if newer { spec_new_error(s, q) } else { spec_old_error(s, q) } {
        None => None,
        Some((q1, e)) => match spec_tag(s, q1, "\n"@) {
            None => None,
            Some(q2) => Some((q2, e)),
        },
    }
}

/// Error lines, as many as follow one another from `p` (possibly none).
pub open spec fn spec_error_lines(s: Seq<char>, p: int, newer: bool) -> (int, Seq<ErrorSpecView>)
    decreases s.len() - p,
{
    match spec_error_line(s, p, newer) {
        None => (p, Seq::empty()),
        Some((q, e)) => if p < q <= s.len() {
            let (r, es) = spec_error_lines(s, q, newer);
            (r, seq![e] + es)
        } else {
            (p, Seq::empty())
        },
    }
}

/// Free-form error messages: every line up to the next `#`, at least one character.
pub open spec fn spec_error_messages(s: Seq<char>, p: int) -> Option<(int, Seq<ErrorSpecView>)> {
    match spec_take_until1(s, p, "#"@) {
        None => None,
        Some((q, text)) => Some((q, lines(text).map_values(|l: Seq<char>| ErrorSpecView::Message(l)))),
    }
}

/// The `#errors` section: error lines in one of the older notations, or else free-form
/// messages, or else nothing; then white space.
pub open spec fn spec_old_errors(s: Seq<char>, p: int) -> Option<(int, Seq<ErrorSpecView>)> {
    match spec_tag(s, skip_multispace(s, p), "#errors\n"@) {
        None => None,
        Some(p1) => {
            let (p2, errs) = if spec_error_line(s, p1, false) is Some {
                spec_error_lines(s, p1, false)
            } else {
                match spec_error_messages(s, p1) {
                    Some(r) => r,
                    None => (p1, Seq::empty()),
                }
            };
            Some((skip_multispace(s, p2), errs))
        },
    }
}

/// The `#new-errors` section: error lines in one of the newer notations, then white space.
pub open spec fn spec_new_errors(s: Seq<char>, p: int) -> Option<(int, Seq<ErrorSpecView>)> {
    match spec_tag(s, skip_multispace(s, p), "#new-errors\n"@) {
        None => None,
        Some(p1) => {
            let (p2, errs) = spec_error_lines(s, p1, true);
            Some((skip_multispace(s, p2), errs))
        },
    }
}

/// White space, `#document\n`, then everything up to the first blank line.
pub open spec fn spec_document(s: Seq<char>, p: int) -> Option<(int, Seq<char>)> {
    match spec_tag(s, skip_multispace(s, p), "#document\n"@) {
        None => None,
        Some(p1) => spec_take_until(s, p1, "\n\n"@),
    }
}

/// `#document-fragment\n`, then the rest of the line (at least one character).
pub open spec fn spec_document_fragment(s: Seq<char>, p: int) -> Option<(int, Seq<char>)> {
    match spec_tag(s, p, "#document-fragment\n"@) {
        None => None,
        Some(p1) => spec_take_until1(s, p1, "\n"@),
    }
}

/// The sections of one test, as read.
pub struct TestParts {
    pub end: int,
    pub data: Seq<char>,
    pub errors: Seq<ErrorSpecView>,
    pub new_errors: Option<Seq<ErrorSpecView>>,
    pub script_on: bool,
    pub script_off: bool,
    pub document_fragment: Option<Seq<char>>,
    pub document: Seq<char>,
}

/// Reads the sections of one test, in the order they must come.
pub open spec fn spec_test_parts(s: Seq<char>, p: int) -> Option<TestParts> {
    match spec_data(s, p) {
        None => None,
        Some((p1, data)) => match spec_old_errors(s, p1) {
            None => None,
            Some((p2, errors)) => {
                let (p3, new_errors) = match spec_new_errors(s, p2) {
                    Some((q, e)) => (q, Some(e)),
                    None => (p2, None),
                };
                let (p4, on) = match spec_tag(s, p3, "#script-on\n"@) {
                    Some(q) => (q, true),
                    None => (p3, false),
                };
                let (p5, off) = match spec_tag(s, p4, "#script-off\n"@) {
                    Some(q) => (q, true),
                    None => (p4, false),
                };
                let (p6, fragment) = match spec_document_fragment(s, p5) {
                    Some((q, f)) => (q, Some(f)),
                    None => (p5, None),
                };
                match spec_document(s, p6) {
                    None => None,
                    Some((p7, document)) => Some(TestParts {
                        end: p7,
                        data,
                        errors,
                        new_errors,
                        script_on: on,
                        script_off: off,
                        document_fragment: fragment,
                        document,
                    }),
                }
            },
        },
    }
}

/// Reading the test at `p` runs into a test marked both `#script-on` and `#script-off`, on
/// which the reader stops with a panic.
pub open spec fn spec_test_panics(s: Seq<char>, p: int) -> bool {
    spec_test_parts(s, p) matches Some(t) && t.script_on && t.script_off
}

/// The test that starts at `p`, and where it ends.
pub open spec fn spec_test(s: Seq<char>, p: int) -> Option<(int, TestSpecView)> {
    match spec_test_parts(s, p) {
        None => None,
        Some(t) => Some((t.end, TestSpecView {
            data: spec_trim_last_newline(t.data),
            errors: t.errors,
            new_errors: match t.new_errors {
                Some(e) => e,
                None => Seq::empty(),
            },
            document_fragment: t.document_fragment,
            script_mode: if t.script_on && !t.script_off {
                ScriptMode::ScriptOn
            } else if t.script_off && !t.script_on {
                ScriptMode::ScriptOff
            } else {
                ScriptMode::Both
            },
            document: t.document,
            position: position_at(s, p),
        })),
    }
}

// ---------------------------------------------------------------------------------------
// The reader.

/// The characters of a literal.
fn lit(t: &str) -> (v: Vec<char>)
    ensures
        v@ == t@,
{
    chars_of(t)
}

/// Reads the literal `t` at `p`, staying inside the input.
fn tag_at(s: &Vec<char>, p: usize, t: &str) -> (r: Option<usize>)
    requires
        p <= s.len(),
    ensures
        r matches Some(q) ==> spec_tag(s@, p as int, t@) == Some(q as int) && p <= q <= s.len(),
        r is None ==> spec_tag(s@, p as int, t@) is None,
{
    tag(s, p, &lit(t))
}

/// The UTF-8 length of a character.
fn char_utf8_len(c: char) -> (n: usize)
    ensures
        n == utf8_len(c),
{
    let u = c as u32;
    if u < 0x80 {
        1
    } else if u < 0x800 {
        2
    } else if u < 0x10000 {
        3
    } else {
        4
    }
}

/// The position of offset `p`.
fn position_of(s: &Vec<char>, p: usize) -> (pos: Position)
    requires
        p <= s.len(),
        s.len() <= usize::MAX / 8,
    ensures
        pos == position_at(s@, p as int),
{
    let mut line: usize = 1;
    let mut col: usize = 1;
    let mut i: usize = 0;
    assert(s@.take(0) =~= Seq::<char>::empty());
    while i < p
        invariant
            i <= p <= s.len(),
            s.len() <= usize::MAX / 8,
            line == 1 + count_newlines(s@.take(i as int)),
            col == 1 + bytes_since_newline(s@.take(i as int)),
            line <= 1 + i,
            col <= 1 + 4 * i,
        decreases p - i,
    {
        assert(s@.take(i + 1).drop_last() =~= s@.take(i as int));
        if s[i] == '\n' {
            line += 1;
            col = 1;
        } else {
            col += char_utf8_len(s[i]);
        }
        i += 1;
    }
    Position { line, col }
}

/// `s` without one final line feed.
fn trim_last_newline_chars(v: Vec<char>) -> (r: Vec<char>)
    ensures
        r@ == spec_trim_last_newline(v@),
{
    let mut v = v;
    if v.len() > 0 && v[v.len() - 1] == '\n' {
        v.pop();
    }
    v
}

/// Trims only a single newline from the string, even if there are multiple newlines present.
pub fn trim_last_newline(s: String) -> (r: String)
    ensures
        r@ == spec_trim_last_newline(s@),
{
    let v = trim_last_newline_chars(chars_of(s.as_str()));
    string_of(v.as_slice())
}

fn data_at(s: &Vec<char>, p: usize) -> (r: Option<(usize, Vec<char>)>)
    requires
        p <= s.len(),
    ensures
        r matches Some((q, v)) ==> spec_data(s@, p as int) == Some((q as int, v@)) && p < q <= s.len(),
        r is None ==> spec_data(s@, p as int) is None,
{
    let p1 = match tag_at(s, p, "#data\n") {
        Some(q) => q,
        None => return None,
    };
    proof { reveal_strlit("#data\n"); }
    let p2 = multispace0(s, p1);
    take_until(s, p2, &lit("#errors"))
}

fn num_pair(s: &Vec<char>, p: usize, sep: &str) -> (r: Option<(usize, Position)>)
    requires
        p <= s.len(),
    ensures
        r matches Some((q, v)) ==> spec_num_pair(s@, p as int, sep@) == Some((q as int, v)) && p < q <= s.len(),
        r is None ==> spec_num_pair(s@, p as int, sep@) is None,
{
    let (p1, line) = match parse_u64(s, p) {
        Some(r) => r,
        None => return None,
    };
    let p2 = match tag_at(s, p1, sep) {
        Some(q) => q,
        None => return None,
    };
    let (p3, col) = match parse_u64(s, p2) {
        Some(r) => r,
        None => return None,
    };
    Some((p3, Position { line: line as usize, col: col as usize }))
}

fn paren_location(s: &Vec<char>, p: usize, open: &str, sep: &str) -> (r: Option<(usize, Position)>)
    requires
        p <= s.len(),
    ensures
        r matches Some((q, v)) ==> spec_paren_location(s@, p as int, open@, sep@) == Some((q as int, v)) && p < q <= s.len(),
        r is None ==> spec_paren_location(s@, p as int, open@, sep@) is None,
{
    let p1 = match tag_at(s, p, open) {
        Some(q) => q,
        None => return None,
    };
    let (p2, pos) = match num_pair(s, p1, sep) {
        Some(r) => r,
        None => return None,
    };
    let p3 = match tag_at(s, p2, ")") {
        Some(q) => q,
        None => return None,
    };
    Some((p3, pos))
}

fn located_message(s: &Vec<char>, p: usize, loc: Option<(usize, Position)>, after: &str) -> (r: Option<(usize, ErrorSpec)>)
    requires
        p <= s.len(),
        loc matches Some((q, _)) ==> p < q <= s.len(),
    ensures
        r matches Some((q, e)) ==> spec_located_message(
            s@,
            match loc { Some((q, v)) => Some((q as int, v)), None => None },
            after@,
        ) == Some((q as int, e@)) && p < q <= s.len(),
        r is None ==> spec_located_message(
            s@,
            match loc { Some((q, v)) => Some((q as int, v)), None => None },
            after@,
        ) is None,
{
    let (p1, pos) = match loc {
        Some(r) => r,
        None => return None,
    };
    let p2 = match tag_at(s, p1, after) {
        Some(q) => q,
        None => return None,
    };
    let (p3, m) = match take_until1(s, p2, &lit("\n")) {
        Some(r) => r,
        None => return None,
    };
    let message = string_of(trim_chars(&m).as_slice());
    Some((p3, ErrorSpec::Location { pos, message }))
}

fn error_1(s: &Vec<char>, p: usize) -> (r: Option<(usize, ErrorSpec)>)
    requires
        p <= s.len(),
    ensures
        r matches Some((q, e)) ==> spec_error_1(s@, p as int) == Some((q as int, e@)) && p < q <= s.len(),
        r is None ==> spec_error_1(s@, p as int) is None,
{
    located_message(s, p, paren_location(s, p, "(", ","), ": ")
}

fn error_2(s: &Vec<char>, p: usize) -> (r: Option<(usize, ErrorSpec)>)
    requires
        p <= s.len(),
    ensures
        r matches Some((q, e)) ==> spec_error_2(s@, p as int) == Some((q as int, e@)) && p < q <= s.len(),
        r is None ==> spec_error_2(s@, p as int) is None,
{
    located_message(s, p, paren_location(s, p, "(", ":"), " ")
}

fn error_3(s: &Vec<char>, p: usize) -> (r: Option<(usize, ErrorSpec)>)
    requires
        p <= s.len(),
    ensures
        r matches Some((q, e)) ==> spec_error_3(s@, p as int) == Some((q as int, e@)) && p < q <= s.len(),
        r is None ==> spec_error_3(s@, p as int) is None,
{
    located_message(s, p, num_pair(s, p, ":"), ": ")
}

fn error_4(s: &Vec<char>, p: usize) -> (r: Option<(usize, ErrorSpec)>)
    requires
        p <= s.len(),
    ensures
        r matches Some((q, e)) ==> spec_error_4(s@, p as int) == Some((q as int, e@)) && p < q <= s.len(),
        r is None ==> spec_error_4(s@, p as int) is None,
{
    let loc = match paren_location(s, p, " * (", ",") {
        Some(r) => Some(r),
        None => paren_location(s, p, "* (", ","),
    };
    located_message(s, p, loc, " ")
}

fn error_5_at(s: &Vec<char>, p: usize) -> (r: Option<(usize, ErrorSpec)>)
    requires
        p <= s.len(),
    ensures
        r matches Some((q, e)) ==> spec_error_5(s@, p as int) == Some((q as int, e@)) && p < q <= s.len(),
        r is None ==> spec_error_5(s@, p as int) is None,
{
    let (p1, line) = match parse_u64(s, p) {
        Some(r) => r,
        None => return None,
    };
    let p2 = match tag_at(s, p1, ": ") {
        Some(q) => q,
        None => return None,
    };
    let (p3, m) = match take_until1(s, p2, &lit("\n")) {
        Some(r) => r,
        None => return None,
    };
    let message = string_of(trim_chars(&m).as_slice());
    Some((p3, ErrorSpec::Line { line: line as usize, message }))
}

fn error_6_at(s: &Vec<char>, p: usize) -> (r: Option<(usize, ErrorSpec)>)
    requires
        p <= s.len(),
    ensures
        r matches Some((q, e)) ==> spec_error_6(s@, p as int) == Some((q as int, e@)) && p < q <= s.len(),
        r is None ==> spec_error_6(s@, p as int) is None,
{
    let p1 = match tag_at(s, p, "(") {
        Some(q) => q,
        None => return None,
    };
    let (p2, start) = match num_pair(s, p1, ":") {
        Some(r) => r,
        None => return None,
    };
    let p3 = match tag_at(s, p2, "-") {
        Some(q) => q,
        None => return None,
    };
    let (p4, end) = match num_pair(s, p3, ":") {
        Some(r) => r,
        None => return None,
    };
    let p5 = match tag_at(s, p4, ")") {
        Some(q) => q,
        None => return None,
    };
    let p6 = match tag_at(s, p5, " ") {
        Some(q) => q,
        None => return None,
    };
    let (p7, m) = match take_until1(s, p6, &lit("\n")) {
        Some(r) => r,
        None => return None,
    };
    Some((p7, ErrorSpec::Span { start, end, message: string_of(m.as_slice()) }))
}

fn old_error(s: &Vec<char>, p: usize) -> (r: Option<(usize, ErrorSpec)>)
    requires
        p <= s.len(),
    ensures
        r matches Some((q, e)) ==> spec_old_error(s@, p as int) == Some((q as int, e@)) && p < q <= s.len(),
        r is None ==> spec_old_error(s@, p as int) is None,
{
    if let Some(r) = error_1(s, p) {
        return Some(r);
    }
    if let Some(r) = error_2(s, p) {
        return Some(r);
    }
    if let Some(r) = error_3(s, p) {
        return Some(r);
    }
    if let Some(r) = error_4(s, p) {
        return Some(r);
    }
    error_5_at(s, p)
}

fn new_error(s: &Vec<char>, p: usize) -> (r: Option<(usize, ErrorSpec)>)
    requires
        p <= s.len(),
    ensures
        r matches Some((q, e)) ==> spec_new_error(s@, p as int) == Some((q as int, e@)) && p < q <= s.len(),
        r is None ==> spec_new_error(s@, p as int) is None,
{
    if let Some(r) = error_2(s, p) {
        return Some(r);
    }
    error_6_at(s, p)
}

fn error_line(s: &Vec<char>, p: usize, newer: bool) -> (r: Option<(usize, ErrorSpec)>)
    requires
        p <= s.len(),
    ensures
        r matches Some((q, e)) ==> spec_error_line(s@, p as int, newer) == Some((q as int, e@)) && p < q <= s.len(),
        r is None ==> spec_error_line(s@, p as int, newer) is None,
{
    let q = multispace0(s, p);
    let found = if newer { new_error(s, q) } else { old_error(s, q) };
    let (q1, e) = match found {
        Some(r) => r,
        None => return None,
    };
    let q2 = match tag_at(s, q1, "\n") {
        Some(x) => x,
        None => return None,
    };
    Some((q2, e))
}

fn error_lines(s: &Vec<char>, p: usize, newer: bool) -> (r: (usize, Vec<ErrorSpec>))
    requires
        p <= s.len(),
    ensures
        spec_error_lines(s@, p as int, newer) == (r.0 as int, errors_view(r.1@)),
        p <= r.0 <= s.len(),
{
    let mut q = p;
    let mut out: Vec<ErrorSpec> = Vec::new();
    loop
        invariant
            p <= q <= s.len(),
            spec_error_lines(s@, p as int, newer) == ({
                let (r, es) = spec_error_lines(s@, q as int, newer);
                (r, errors_view(out@) + es)
            }),
        ensures
            p <= q <= s.len(),
            spec_error_lines(s@, p as int, newer) == (q as int, errors_view(out@)),
        decreases s.len() - q,
    {
        match error_line(s, q, newer) {
            None => {
                assert(spec_error_lines(s@, q as int, newer) == (q as int, Seq::<ErrorSpecView>::empty()));
                assert(errors_view(out@) + Seq::<ErrorSpecView>::empty() =~= errors_view(out@));
                break;
            },
            Some((q2, e)) => {
                let ghost before = errors_view(out@);
                out.push(e);
                assert(errors_view(out@) =~= before.push(e@));
                let ghost rest = spec_error_lines(s@, q2 as int, newer).1;
                assert(before + (seq![e@] + rest) =~= errors_view(out@) + rest);
                q = q2;
            },
        }
    }
    (q, out)
}

fn error_messages(s: &Vec<char>, p: usize) -> (r: Option<(usize, Vec<ErrorSpec>)>)
    requires
        p <= s.len(),
    ensures
        r matches Some((q, v)) ==> spec_error_messages(s@, p as int) == Some((q as int, errors_view(v@))) && p < q <= s.len(),
        r is None ==> spec_error_messages(s@, p as int) is None,
{
    let (q, text) = match take_until1(s, p, &lit("#")) {
        Some(r) => r,
        None => return None,
    };
    let ls = lines_of(&text);
    let ghost ln = lines(text@);
    assert(ln.len() == ls@.len());
    assert(forall|j: int| 0 <= j < ls@.len() ==> #[trigger] ls@[j]@ == ln[j]) by {
        assert forall|j: int| 0 <= j < ls@.len() implies #[trigger] ls@[j]@ == ln[j] by {
            assert(ls@.map_values(|l: Vec<char>| l@)[j] == ls@[j]@);
        }
    }
    let mut out: Vec<ErrorSpec> = Vec::new();
    let mut i: usize = 0;
    while i < ls.len()
        invariant
            i <= ls.len(),
            ln == lines(text@),
            ln.len() == ls@.len(),
            forall|j: int| 0 <= j < ls@.len() ==> #[trigger] ls@[j]@ == ln[j],
            errors_view(out@) == ln.take(i as int).map_values(|l: Seq<char>| ErrorSpecView::Message(l)),
        decreases ls.len() - i,
    {
        let ghost before = errors_view(out@);
        let m = string_of(ls[i].as_slice());
        assert(m@ == ln[i as int]);
        out.push(ErrorSpec::Message(m));
        assert(errors_view(out@) =~= before.push(ErrorSpecView::Message(ln[i as int])));
        assert(ln.take(i + 1).map_values(|l: Seq<char>| ErrorSpecView::Message(l)) =~= ln.take(
            i as int,
        ).map_values(|l: Seq<char>| ErrorSpecView::Message(l)).push(ErrorSpecView::Message(ln[i as int])));
        i += 1;
    }
    assert(lines(text@).take(i as int) =~= lines(text@));
    Some((q, out))
}

fn old_errors(s: &Vec<char>, p: usize) -> (r: Option<(usize, Vec<ErrorSpec>)>)
    requires
        p <= s.len(),
    ensures
        r matches Some((q, v)) ==> spec_old_errors(s@, p as int) == Some((q as int, errors_view(v@))) && p < q <= s.len(),
        r is None ==> spec_old_errors(s@, p as int) is None,
{
    let p0 = multispace0(s, p);
    let p1 = match tag_at(s, p0, "#errors\n") {
        Some(q) => q,
        None => return None,
    };
    proof { reveal_strlit("#errors\n"); }
    let (p2, errs) = if error_line(s, p1, false).is_some() {
        error_lines(s, p1, false)
    } else {
        match error_messages(s, p1) {
            Some(r) => r,
            None => {
                let none: Vec<ErrorSpec> = Vec::new();
                assert(errors_view(none@) =~= Seq::<ErrorSpecView>::empty());
                (p1, none)
            },
        }
    };
    let p3 = multispace0(s, p2);
    Some((p3, errs))
}

fn new_errors(s: &Vec<char>, p: usize) -> (r: Option<(usize, Vec<ErrorSpec>)>)
    requires
        p <= s.len(),
    ensures
        r matches Some((q, v)) ==> spec_new_errors(s@, p as int) == Some((q as int, errors_view(v@))) && p < q <= s.len(),
        r is None ==> spec_new_errors(s@, p as int) is None,
{
    let p0 = multispace0(s, p);
    let p1 = match tag_at(s, p0, "#new-errors\n") {
        Some(q) => q,
        None => return None,
    };
    proof { reveal_strlit("#new-errors\n"); }
    let (p2, errs) = error_lines(s, p1, true);
    let p3 = multispace0(s, p2);
    Some((p3, errs))
}

fn document_at(s: &Vec<char>, p: usize) -> (r: Option<(usize, Vec<char>)>)
    requires
        p <= s.len(),
    ensures
        r matches Some((q, v)) ==> spec_document(s@, p as int) == Some((q as int, v@)) && p < q <= s.len(),
        r is None ==> spec_document(s@, p as int) is None,
{
    let p0 = multispace0(s, p);
    let p1 = match tag_at(s, p0, "#document\n") {
        Some(q) => q,
        None => return None,
    };
    proof { reveal_strlit("#document\n"); }
    take_until(s, p1, &lit("\n\n"))
}

fn document_fragment(s: &Vec<char>, p: usize) -> (r: Option<(usize, Vec<char>)>)
    requires
        p <= s.len(),
    ensures
        r matches Some((q, v)) ==> spec_document_fragment(s@, p as int) == Some((q as int, v@)) && p < q <= s.len(),
        r is None ==> spec_document_fragment(s@, p as int) is None,
{
    let p1 = match tag_at(s, p, "#document-fragment\n") {
        Some(q) => q,
        None => return None,
    };
    take_until1(s, p1, &lit("\n"))
}

/// The sections of one test, as read.
struct RawTest {
    end: usize,
    data: Vec<char>,
    errors: Vec<ErrorSpec>,
    new_errors: Option<Vec<ErrorSpec>>,
    script_on: bool,
    script_off: bool,
    document_fragment: Option<Vec<char>>,
    document: Vec<char>,
}

/// The mathematical value of a `RawTest`.
spec fn raw_view(r: RawTest) -> TestParts {
    TestParts {
        end: r.end as int,
        data: r.data@,
        errors: errors_view(r.errors@),
        new_errors: match r.new_errors {
            Some(e) => Some(errors_view(e@)),
            None => None,
        },
        script_on: r.script_on,
        script_off: r.script_off,
        document_fragment: match r.document_fragment {
            Some(f) => Some(f@),
            None => None,
        },
        document: r.document@,
    }
}

fn test_parts_at(s: &Vec<char>, p: usize) -> (r: Option<RawTest>)
    requires
        p <= s.len(),
    ensures
        r matches Some(t) ==> spec_test_parts(s@, p as int) == Some(raw_view(t)) && p < t.end <= s.len(),
        r is None ==> spec_test_parts(s@, p as int) is None,
{
    let (p1, data) = match data_at(s, p) {
        Some(r) => r,
        None => return None,
    };
    let (p2, errors) = match old_errors(s, p1) {
        Some(r) => r,
        None => return None,
    };
    let (p3, new_errors) = match new_errors(s, p2) {
        Some((q, e)) => (q, Some(e)),
        None => (p2, None),
    };
    let (p4, script_on) = match tag_at(s, p3, "#script-on\n") {
        Some(q) => (q, true),
        None => (p3, false),
    };
    let (p5, script_off) = match tag_at(s, p4, "#script-off\n") {
        Some(q) => (q, true),
        None => (p4, false),
    };
    let (p6, document_fragment) = match document_fragment(s, p5) {
        Some((q, f)) => (q, Some(f)),
        None => (p5, None),
    };
    let (p7, document) = match document_at(s, p6) {
        Some(r) => r,
        None => return None,
    };
    Some(RawTest { end: p7, data, errors, new_errors, script_on, script_off, document_fragment, document })
}

fn build_test(s: &Vec<char>, p: usize, t: RawTest) -> (r: TestSpec)
    requires
        p <= s.len(),
        s.len() <= usize::MAX / 8,
        spec_test_parts(s@, p as int) == Some(raw_view(t)),
        !(t.script_on && t.script_off),
    ensures
        spec_test(s@, p as int) == Some((t.end as int, r@)),
{
    let position = position_of(s, p);
    let ghost parts = raw_view(t);
    let script_mode = match (t.script_on, t.script_off) {
        (true, false) => ScriptMode::ScriptOn,
        (false, true) => ScriptMode::ScriptOff,
        _ => ScriptMode::Both,
    };
    let new_errors = match t.new_errors {
        Some(e) => e,
        None => {
            let none: Vec<ErrorSpec> = Vec::new();
            assert(errors_view(none@) =~= Seq::<ErrorSpecView>::empty());
            none
        },
    };
    let document_fragment = match t.document_fragment {
        Some(f) => Some(string_of(f.as_slice())),
        None => None,
    };
    TestSpec {
        position,
        data: string_of(trim_last_newline_chars(t.data).as_slice()),
        errors: t.errors,
        new_errors,
        script_mode,
        document_fragment,
        document: string_of(t.document.as_slice()),
    }
}

fn test_at(s: &Vec<char>, p: usize) -> (r: Option<(usize, TestSpec)>)
    requires
        p <= s.len(),
        s.len() <= usize::MAX / 8,
        !spec_test_panics(s@, p as int),
    ensures
        r matches Some((q, t)) ==> spec_test(s@, p as int) == Some((q as int, t@)) && p < q <= s.len(),
        r is None ==> spec_test(s@, p as int) is None,
{
    match test_parts_at(s, p) {
        Some(t) => {
            let end = t.end;
            Some((end, build_test(s, p, t)))
        },
        None => None,
    }
}

/// What `s` reads as after the first `n` characters.
fn rest_string(s: &Vec<char>, n: usize) -> (r: String)
    requires
        n <= s.len(),
    ensures
        r@ == s@.skip(n as int),
{
    let v = sub_chars(s, n, s.len());
    assert(v@ =~= s@.skip(n as int));
    string_of(v.as_slice())
}

/// Reads a `#data` section: the data, and what follows it.
pub fn data(i: &str) -> (r: Option<(String, String)>)
    ensures
        match spec_data(i@, 0) {
            Some((q, d)) => r matches Some((rest, v)) && rest@ == i@.skip(q) && v@ == d,
            None => r is None,
        },
{
    let s = chars_of(i);
    match data_at(&s, 0) {
        Some((q, v)) => Some((rest_string(&s, q), string_of(v.as_slice()))),
        None => None,
    }
}

/// Reads a `#document` section: the document, and what follows it.
pub fn document(i: &str) -> (r: Option<(String, String)>)
    ensures
        match spec_document(i@, 0) {
            Some((q, d)) => r matches Some((rest, v)) && rest@ == i@.skip(q) && v@ == d,
            None => r is None,
        },
{
    let s = chars_of(i);
    match document_at(&s, 0) {
        Some((q, v)) => Some((rest_string(&s, q), string_of(v.as_slice()))),
        None => None,
    }
}

/// Reads an error line of the form `line: message`.
pub fn error_5(i: &str) -> (r: Option<(String, ErrorSpec)>)
    ensures
        match spec_error_5(i@, 0) {
            Some((q, e)) => r matches Some((rest, v)) && rest@ == i@.skip(q) && v@ == e,
            None => r is None,
        },
{
    let s = chars_of(i);
    match error_5_at(&s, 0) {
        Some((q, e)) => Some((rest_string(&s, q), e)),
        None => None,
    }
}

/// Reads an error line of the form `(line:col-line:col) message`.
pub fn error_6(i: &str) -> (r: Option<(String, ErrorSpec)>)
    ensures
        match spec_error_6(i@, 0) {
            Some((q, e)) => r matches Some((rest, v)) && rest@ == i@.skip(q) && v@ == e,
            None => r is None,
        },
{
    let s = chars_of(i);
    match error_6_at(&s, 0) {
        Some((q, e)) => Some((rest_string(&s, q), e)),
        None => None,
    }
}

/// Reads one test: the test, and what follows it.
pub fn test(i: &str) -> (r: Option<(String, TestSpec)>)
    requires
        i@.len() <= usize::MAX / 8,
        !spec_test_panics(i@, 0),
    ensures
        match spec_test(i@, 0) {
            Some((q, t)) => r matches Some((rest, v)) && rest@ == i@.skip(q) && v@ == t,
            None => r is None,
        },
{
    let s = chars_of(i);
    match test_at(&s, 0) {
        Some((q, t)) => Some((rest_string(&s, q), t)),
        None => None,
    }
}

/// `s` with every non-overlapping occurrence of `pat` (left to right) replaced by `rep`
/// (`str::replace`).
pub open spec fn replace_all(s: Seq<char>, pat: Seq<char>, rep: Seq<char>) -> Seq<char>
    decreases s.len(),
{
    if s.len() == 0 {
        s
    } else if pat.len() > 0 && pat.len() <= s.len() && s.take(pat.len() as int) == pat {
        rep + replace_all(s.skip(pat.len() as int), pat, rep)
    } else {
        seq![s[0]] + replace_all(s.drop_first(), pat, rep)
    }
}

/// The text a fixture is read from: quoted blank lines replaced by a marker, and a final
/// line feed added.
pub open spec fn fixture_input(i: Seq<char>) -> Seq<char> {
    replace_all(i, "\"\n\n\""@, QUOTED_DOUBLE_NEWLINE@) + "\n"@
}

/// The tests that follow the test that ended at `p`, each after a blank line; where they
/// end; and whether a test marked both `#script-on` and `#script-off` was reached.
pub open spec fn spec_tests_after(s: Seq<char>, p: int) -> (int, Seq<TestSpecView>, bool)
    decreases s.len() - p,
{
    match spec_tag(s, p, "\n\n"@) {
        None => (p, Seq::empty(), false),
        Some(q) => if spec_test_panics(s, q) {
            (p, Seq::empty(), true)
        } else {
            match spec_test(s, q) {
                None => (p, Seq::empty(), false),
                Some((q2, t)) => if p < q2 <= s.len() {
                    let (e, ts, panics) = spec_tests_after(s, q2);
                    (e, seq![t] + ts, panics)
                } else {
                    (p, Seq::empty(), false)
                },
            }
        },
    }
}

/// How reading a fixture ends.
pub enum FixtureOutcome {
    /// The text does not follow the format.
    Fail,
    /// A test is marked both `#script-on` and `#script-off`.
    Panic,
    /// The tests, in order.
    Tests(Seq<TestSpecView>),
}

/// Reading the fixture text `s`: one or more tests separated by blank lines, then only
/// white space.
pub open spec fn spec_read_fixture(s: Seq<char>) -> FixtureOutcome {
    if spec_test_panics(s, 0) {
        FixtureOutcome::Panic
    } else {
        match spec_test(s, 0) {
            None => FixtureOutcome::Fail,
            Some((p1, t)) => {
                let (e, ts, panics) = spec_tests_after(s, p1);
                if panics {
                    FixtureOutcome::Panic
                } else if skip_multispace(s, e) == s.len() {
                    FixtureOutcome::Tests(seq![t] + ts)
                } else {
                    FixtureOutcome::Fail
                }
            },
        }
    }
}

/// The views of a list of tests.
pub open spec fn tests_view(v: Seq<TestSpec>) -> Seq<TestSpecView> {
    v.map_values(|t: TestSpec| t@)
}

proof fn lemma_replace_step(s: Seq<char>, i: int, pat: Seq<char>, rep: Seq<char>)
    requires
        0 <= i < s.len(),
        pat.len() > 0,
    ensures
        replace_all(s.skip(i), pat, rep) == if starts_with_at_seq(s, i, pat) {
            rep + replace_all(s.skip(i + pat.len()), pat, rep)
        } else {
            seq![s[i]] + replace_all(s.skip(i + 1), pat, rep)
        },
{
    assert(s.skip(i).drop_first() =~= s.skip(i + 1));
    if i + pat.len() <= s.len() {
        assert(s.skip(i).take(pat.len() as int) =~= s.subrange(i, i + pat.len()));
        assert(s.skip(i).skip(pat.len() as int) =~= s.skip(i + pat.len()));
    }
}

/// `pat` occurs in `s` at `i`.
pub open spec fn starts_with_at_seq(s: Seq<char>, i: int, pat: Seq<char>) -> bool {
    i + pat.len() <= s.len() && s.subrange(i, i + pat.len()) == pat
}

/// `v` with every occurrence of `pat` replaced by `rep`.
fn replace_chars(v: &Vec<char>, pat: &Vec<char>, rep: &Vec<char>) -> (r: Vec<char>)
    requires
        pat.len() > 0,
    ensures
        r@ == replace_all(v@, pat@, rep@),
{
    let mut out: Vec<char> = Vec::new();
    let mut i: usize = 0;
    assert(v@.skip(0) =~= v@);
    while i < v.len()
        invariant
            i <= v.len(),
            pat.len() > 0,
            replace_all(v@, pat@, rep@) == out@ + replace_all(v@.skip(i as int), pat@, rep@),
        decreases v.len() - i,
    {
        proof { lemma_replace_step(v@, i as int, pat@, rep@); }
        let ghost before = out@;
        match tag(v, i, pat) {
            Some(q) => {
                let mut k: usize = 0;
                while k < rep.len()
                    invariant
                        k <= rep.len(),
                        out@ == before + rep@.take(k as int),
                    decreases rep.len() - k,
                {
                    out.push(rep[k]);
                    assert(out@ =~= before + rep@.take(k + 1));
                    k += 1;
                }
                assert(rep@.take(k as int) =~= rep@);
                assert(before + (rep@ + replace_all(v@.skip(q as int), pat@, rep@)) =~= out@ + replace_all(
                    v@.skip(q as int),
                    pat@,
                    rep@,
                ));
                i = q;
            },
            None => {
                out.push(v[i]);
                assert(before + (seq![v@[i as int]] + replace_all(v@.skip(i + 1), pat@, rep@)) =~= out@
                    + replace_all(v@.skip(i + 1), pat@, rep@));
                i += 1;
            },
        }
    }
    assert(v@.skip(i as int) =~= Seq::<char>::empty());
    assert(out@ + Seq::<char>::empty() =~= out@);
    out
}

/// Reads the tests that follow the test that ended at `p`.
fn tests_after(s: &Vec<char>, p: usize) -> (r: (usize, Vec<TestSpec>, bool))
    requires
        p <= s.len(),
        s.len() <= usize::MAX / 8,
    ensures
        spec_tests_after(s@, p as int) == (r.0 as int, tests_view(r.1@), r.2),
        p <= r.0 <= s.len(),
{
    let mut q = p;
    let mut out: Vec<TestSpec> = Vec::new();
    loop
        invariant
            p <= q <= s.len(),
            s.len() <= usize::MAX / 8,
            spec_tests_after(s@, p as int) == ({
                let (e, ts, panics) = spec_tests_after(s@, q as int);
                (e, tests_view(out@) + ts, panics)
            }),
        ensures
            p <= q <= s.len(),
            spec_tests_after(s@, p as int) == (q as int, tests_view(out@), false),
        decreases s.len() - q,
    {
        let ghost before = tests_view(out@);
        let q1 = match tag_at(s, q, "\n\n") {
            Some(x) => x,
            None => {
                assert(spec_tests_after(s@, q as int) == (q as int, Seq::<TestSpecView>::empty(), false));
                assert(before + Seq::<TestSpecView>::empty() =~= before);
                break;
            },
        };
        match test_parts_at(s, q1) {
            None => {
                assert(spec_tests_after(s@, q as int) == (q as int, Seq::<TestSpecView>::empty(), false));
                assert(before + Seq::<TestSpecView>::empty() =~= before);
                break;
            },
            Some(raw) => {
                if raw.script_on && raw.script_off {
                    assert(spec_tests_after(s@, q as int) == (q as int, Seq::<TestSpecView>::empty(), true));
                    assert(before + Seq::<TestSpecView>::empty() =~= before);
                    return (q, out, true);
                }
                let q2 = raw.end;
                let t = build_test(s, q1, raw);
                out.push(t);
                assert(tests_view(out@) =~= before.push(t@));
                let ghost rest = spec_tests_after(s@, q2 as int).1;
                assert(before + (seq![t@] + rest) =~= tests_view(out@) + rest);
                q = q2;
            },
        }
    }
    (q, out, false)
}

/// Reads a fixture file: its tests, in order.
pub fn parse_fixture(i: &str) -> (r: Result<Vec<TestSpec>, FixtureError>)
    requires
        fixture_input(i@).len() <= usize::MAX / 8,
        !(spec_read_fixture(fixture_input(i@)) is Panic),
    ensures
        match spec_read_fixture(fixture_input(i@)) {
            FixtureOutcome::Tests(ts) => r matches Ok(v) && tests_view(v@) == ts,
            _ => r is Err,
        },
{
    // Deal with a corner case that makes it hard to parse tricky01.dat.
    let input = chars_of(i);
    let quoted_blank_line = lit("\"\n\n\"");
    proof {
        reveal_strlit("\"\n\n\"");
    }
    let mut s = replace_chars(&input, &quoted_blank_line, &lit(QUOTED_DOUBLE_NEWLINE));
    s.push('\n');
    proof {
        reveal_strlit("\"\n\n\"");
        reveal_strlit("\n");
        assert(s@ =~= fixture_input(i@));
    }
    let raw = match test_parts_at(&s, 0) {
        Some(t) => t,
        None => return Err(FixtureError::Test("the fixture does not start with a test".to_owned())),
    };
    if raw.script_on && raw.script_off {
        proof {
            assert(spec_test_panics(s@, 0));
        }
    }
    let p1 = raw.end;
    let first = build_test(&s, 0, raw);
    let (e, mut rest, panics) = tests_after(&s, p1);
    if panics {
        proof {
            assert(false);
        }
    }
    let e2 = multispace0(&s, e);
    if e2 != s.len() {
        return Err(FixtureError::Test("the fixture holds text after its last test".to_owned()));
    }
    let mut tests: Vec<TestSpec> = Vec::new();
    tests.push(first);
    let ghost head = tests_view(tests@);
    let ghost tail = tests_view(rest@);
    tests.append(&mut rest);
    assert(tests_view(tests@) =~= head + tail);
    Ok(tests)
}

} // verus!
