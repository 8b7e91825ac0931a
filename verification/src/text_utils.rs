use vstd::prelude::*;

verus! {

/// `String::push` of the standard library: the string afterwards is the
/// string before with the one character appended.
pub assume_specification[ String::push ](s: &mut String, c: char)
    ensures
        final(s)@ == old(s)@.push(c),
;

/// The character that writes the decimal digit `d`.
pub open spec fn digit_char(d: nat) -> char {
    if d == 0 {
        '0'
    } else if d == 1 {
        '1'
    } else if d == 2 {
        '2'
    } else if d == 3 {
        '3'
    } else if d == 4 {
        '4'
    } else if d == 5 {
        '5'
    } else if d == 6 {
        '6'
    } else if d == 7 {
        '7'
    } else if d == 8 {
        '8'
    } else {
        '9'
    }
}

/// The decimal numeral of `n`, without sign or leading zeros.
pub open spec fn decimal(n: nat) -> Seq<char>
    decreases n,
{
    if n < 10 {
        seq![digit_char(n)]
    } else {
        decimal(n / 10).push(digit_char(n % 10))
    }
}

fn digit_of(d: u8) -> (c: char)
    requires
        d < 10,
    ensures
        c == digit_char(d as nat),
{
    if d == 0 {
        '0'
    } else if d == 1 {
        '1'
    } else if d == 2 {
        '2'
    } else if d == 3 {
        '3'
    } else if d == 4 {
        '4'
    } else if d == 5 {
        '5'
    } else if d == 6 {
        '6'
    } else if d == 7 {
        '7'
    } else if d == 8 {
        '8'
    } else {
        '9'
    }
}

/// Appends the decimal numeral of `n` to `out`.
pub fn push_decimal(out: &mut String, n: u128)
    ensures
        final(out)@ == old(out)@ + decimal(n as nat),
    decreases n,
{
    if n >= 10 {
        push_decimal(out, n / 10);
    }
    let d: u8 = (n % 10) as u8;
    out.push(digit_of(d));
}

/// The text of a duration given in seconds: hours and minutes when it
/// reaches an hour, minutes and seconds when it reaches a minute, seconds
/// otherwise. Hours are taken modulo sixty.
pub open spec fn duration_text(duration: nat) -> Seq<char> {
    let hours = (duration / 3600) % 60;
    let minutes = (duration / 60) % 60;
    let seconds = duration % 60;
    if hours > 0 {
        decimal(hours) + seq!['h', ' '] + decimal(minutes) + seq!['m']
    } else if minutes > 0 {
        decimal(minutes) + seq!['m', ' '] + decimal(seconds) + seq!['s']
    } else {
        decimal(seconds) + seq!['s']
    }
}

pub fn format_duration(duration: u64) -> (text: String)
    ensures
        text@ == duration_text(duration as nat),
{
    let hours: u64 = (duration / 3600) % 60;
    let minutes: u64 = (duration / 60) % 60;
    let seconds: u64 = duration % 60;
    let mut text = String::new();
    if hours > 0 {
        push_decimal(&mut text, hours as u128);
        text.push('h');
        text.push(' ');
        push_decimal(&mut text, minutes as u128);
        text.push('m');
    } else if minutes > 0 {
        push_decimal(&mut text, minutes as u128);
        text.push('m');
        text.push(' ');
        push_decimal(&mut text, seconds as u128);
        text.push('s');
    } else {
        push_decimal(&mut text, seconds as u128);
        text.push('s');
    }
    text
}

/// Whether `c` is white space in ASCII: blank, tab, line feed, form feed
/// or carriage return.
pub open spec fn is_ascii_space(c: char) -> bool {
    c == ' ' || c == '\t' || c == '\n' || c == '\x0C' || c == '\r'
}

pub fn ascii_space(c: char) -> (b: bool)
    ensures
        b == is_ascii_space(c),
{
    c == ' ' || c == '\t' || c == '\n' || c == '\x0C' || c == '\r'
}

/// The characters that the chat platform's markdown gives a meaning to.
pub open spec fn is_markdown_char(c: char) -> bool {
    c == '_' || c == '*' || c == '[' || c == ']' || c == '(' || c == ')' || c == '~' || c == '`'
        || c == '>' || c == '#' || c == '+' || c == '-' || c == '=' || c == '|' || c == '{' || c
        == '}' || c == '.' || c == '!' || c == '\\'
}

/// One character as markdown shows it literally: a backslash goes before
/// a character that markdown gives a meaning to.
pub open spec fn escaped_char(c: char) -> Seq<char> {
    if is_markdown_char(c) {
        seq!['\\', c]
    } else {
        seq![c]
    }
}

/// A text with each of its characters escaped, in order.
pub open spec fn escaped_text(s: Seq<char>) -> Seq<char>
    decreases s.len(),
{
    if s.len() == 0 {
        Seq::<char>::empty()
    } else {
        escaped_text(s.drop_last()) + escaped_char(s.last())
    }
}

fn markdown_char(c: char) -> (b: bool)
    ensures
        b == is_markdown_char(c),
{
    c == '_' || c == '*' || c == '[' || c == ']' || c == '(' || c == ')' || c == '~' || c == '`'
        || c == '>' || c == '#' || c == '+' || c == '-' || c == '=' || c == '|' || c == '{' || c
        == '}' || c == '.' || c == '!' || c == '\\'
}

/// Appends `c` to `out`, escaped.
pub fn push_escaped_char(out: &mut String, c: char)
    ensures
        final(out)@ == old(out)@ + escaped_char(c),
{
    if markdown_char(c) {
        out.push('\\');
    }
    out.push(c);
}

/// The text with every markdown character escaped.
pub fn escape_markdown(text: &str) -> (out: String)
    ensures
        out@ == escaped_text(text@),
{
    let mut out = String::new();
    for c in it: text.chars()
        invariant
            it.seq() == text@,
            out@ == escaped_text(text@.take(it.index())),
    {
        assert(text@.take(it.index() + 1).drop_last() == text@.take(it.index()));
        push_escaped_char(&mut out, c);
    }
    assert(text@.take(text@.len() as int) == text@);
    out
}

/// A single character that is shown escaped.
pub struct EscapeChar(pub char);

impl EscapeChar {
    /// The character as markdown shows it literally.
    pub fn to_string(&self) -> (out: String)
        ensures
            out@ == escaped_char(self.0),
    {
        let mut out = String::new();
        push_escaped_char(&mut out, self.0);
        out
    }
}

/// A borrowed text that is shown escaped.
pub struct EscapeMarkdown<'a>(pub &'a str);

impl<'a> EscapeMarkdown<'a> {
    /// The text as markdown shows it literally.
    pub fn to_string(&self) -> (out: String)
        ensures
            out@ == escaped_text(self.0@),
    {
        escape_markdown(self.0)
    }
}

/// The mark that stands for what a truncation left out.
pub const ELLIPSIS: char = '\u{2026}';

/// A text cut down to `max_len` characters: a text that is longer keeps
/// its first `max_len - 1` characters and ends in the ellipsis.
pub open spec fn truncated_text(s: Seq<char>, max_len: nat) -> Seq<char> {
    if s.len() > max_len {
        s.subrange(0, max_len - 1).push(ELLIPSIS)
    } else {
        s
    }
}

pub trait TruncateWithEllipsis: Sized {
    fn truncate_with_ellipsis(self, max_len: usize) -> Self
        requires
            max_len >= 1,
    ;
}

impl TruncateWithEllipsis for String {
    fn truncate_with_ellipsis(self, max_len: usize) -> (out: Self)
        ensures
            out@ == truncated_text(self@, max_len as nat),
    {
        if self.as_str().unicode_len() > max_len {
            let mut out = self.as_str().substring_char(0, max_len - 1).to_owned();
            out.push(ELLIPSIS);
            out
        } else {
            self
        }
    }
}

/// How many line feeds a text holds.
pub open spec fn newline_count(s: Seq<char>) -> nat
    decreases s.len(),
{
    if s.len() == 0 {
        0
    } else {
        newline_count(s.drop_last()) + if s.last() == '\n' {
            1nat
        } else {
            0nat
        }
    }
}

/// How many lines a text has: one for each line feed, and one more for
/// what follows the last line feed unless nothing follows it.
pub open spec fn line_count(s: Seq<char>) -> nat {
    newline_count(s) + if s.len() > 0 && s.last() != '\n' {
        1nat
    } else {
        0nat
    }
}

pub const MAX_PROMPT_CHARS: usize = 1024;

pub const MAX_PROMPT_LINES: usize = 8;

/// Why a prompt is refused.
#[derive(Clone, Copy, Debug, PartialEq, Eq, Structural)]
pub enum PromptIssue {
    TooLong,
    TooManyLines,
}

/// What a user is told about a refused prompt.
pub open spec fn issue_text(issue: PromptIssue) -> Seq<char> {
    match issue {
        PromptIssue::TooLong => "this prompt is too long (>1024)."@,
        PromptIssue::TooManyLines => "this prompt has too many lines (>8)."@,
    }
}

/// Why a prompt is refused, if it is: for its length first, then for its
/// number of lines.
pub open spec fn prompt_issue(s: Seq<char>) -> Option<PromptIssue> {
    if s.len() > MAX_PROMPT_CHARS {
        Some(PromptIssue::TooLong)
    } else if line_count(s) > MAX_PROMPT_LINES {
        Some(PromptIssue::TooManyLines)
    } else {
        None
    }
}

impl PromptIssue {
    pub fn message(&self) -> (text: &'static str)
        ensures
            text@ == issue_text(*self),
    {
        match self {
            PromptIssue::TooLong => "this prompt is too long (>1024).",
            PromptIssue::TooManyLines => "this prompt has too many lines (>8).",
        }
    }
}

pub proof fn lemma_newline_count_bound(s: Seq<char>)
    ensures
        newline_count(s) <= s.len(),
    decreases s.len(),
{
    if s.len() > 0 {
        lemma_newline_count_bound(s.drop_last());
    }
}

/// Counts the lines of a text.
pub fn count_lines(text: &str) -> (n: usize)
    ensures
        n == line_count(text@),
{
    let len: usize = text.unicode_len();
    let mut newlines: usize = 0;
    let mut open_line: bool = false;
    for c in it: text.chars()
        invariant
            it.seq() == text@,
            text@.len() == len,
            newlines == newline_count(text@.take(it.index())),
            open_line == (it.index() > 0 && text@[it.index() - 1] != '\n'),
    {
        proof {
            assert(text@.take(it.index() + 1).drop_last() == text@.take(it.index()));
            lemma_newline_count_bound(text@.take(it.index()));
        }
        if c == '\n' {
            newlines = newlines + 1;
            open_line = false;
        } else {
            open_line = true;
        }
    }
    proof {
        assert(text@.take(text@.len() as int) == text@);
        if text@.len() > 0 {
            lemma_newline_count_bound(text@.drop_last());
        }
    }
    if open_line {
        newlines + 1
    } else {
        newlines
    }
}

/// Whether a prompt is refused, and why.
pub fn classify_prompt(prompt: &str) -> (issue: Option<PromptIssue>)
    ensures
        issue == prompt_issue(prompt@),
{
    if prompt.unicode_len() > MAX_PROMPT_CHARS {
        Some(PromptIssue::TooLong)
    } else if count_lines(prompt) > MAX_PROMPT_LINES {
        Some(PromptIssue::TooManyLines)
    } else {
        None
    }
}

pub fn check_prompt(prompt: &str) -> (issue: Option<&'static str>)
    ensures
        match prompt_issue(prompt@) {
            Some(reason) => issue is Some && issue->0@ == issue_text(reason),
            None => issue is None,
        },
{
    match classify_prompt(prompt) {
        Some(reason) => Some(reason.message()),
        None => None,
    }
}

} // verus!
