use vstd::prelude::*;
use vstd::string::StringExecFns;
use crate::status::repeated;
use crate::text_utils::{ascii_space, escaped_char, is_ascii_space, push_escaped_char, ELLIPSIS};

verus! {

/// The command that tells the code point of each character it is given.
pub struct CharInfo;

/// Lines that the command shows at most.
pub const MAX_LINES: usize = 10;

/// The character that writes the hexadecimal digit `d`, in upper case.
pub open spec fn hex_digit_char(d: nat) -> char {
    if d == 0 {
        '0'
    } else if d == 1 {
        '1'
    } else if d == 2 {
        '2'
    } else if d == 3 {
        '3'
    } else if d == 4 {
        '4'
    } else if d == 5 {
        '5'
    } else if d == 6 {
        '6'
    } else if d == 7 {
        '7'
    } else if d == 8 {
        '8'
    } else if d == 9 {
        '9'
    } else if d == 10 {
        'A'
    } else if d == 11 {
        'B'
    } else if d == 12 {
        'C'
    } else if d == 13 {
        'D'
    } else if d == 14 {
        'E'
    } else {
        'F'
    }
}

/// The hexadecimal numeral of `n` in upper case, without leading zeros.
pub open spec fn hex_upper(n: nat) -> Seq<char>
    decreases n,
{
    if n < 16 {
        seq![hex_digit_char(n)]
    } else {
        hex_upper(n / 16).push(hex_digit_char(n % 16))
    }
}

/// The hexadecimal numeral of `n`, filled up with zeros in front to
/// four digits.
pub open spec fn code_point_text(n: nat) -> Seq<char> {
    if hex_upper(n).len() < 4 {
        repeated('0', (4 - hex_upper(n).len()) as nat) + hex_upper(n)
    } else {
        hex_upper(n)
    }
}

/// The line for one character: the character, escaped, and its code
/// point; nothing for white space.
pub open spec fn char_line(c: char) -> Seq<char> {
    if is_ascii_space(c) {
        Seq::<char>::empty()
    } else {
        seq!['`'] + escaped_char(c) + seq!['`', ' ', '`', 'U', '\\', '+'] + code_point_text(
            c as u32 as nat,
        ) + seq!['`']
    }
}

/// The lines of the first `n` of `chars`, a line feed between two lines.
pub open spec fn char_lines(chars: Seq<char>, n: nat) -> Seq<char>
    decreases n,
{
    if n == 0 {
        Seq::<char>::empty()
    } else if n == 1 {
        char_line(chars[0])
    } else {
        char_lines(chars, (n - 1) as nat) + seq!['\n'] + char_line(chars[n - 1])
    }
}

/// What the command shows for `chars`: a line for each character, and
/// after the tenth line an ellipsis in place of the rest.
pub open spec fn char_info_text(chars: Seq<char>) -> Seq<char> {
    if chars.len() > MAX_LINES {
        char_lines(chars, MAX_LINES as nat) + seq!['\n', ELLIPSIS]
    } else {
        char_lines(chars, chars.len())
    }
}

fn hex_digit_of(d: u8) -> (c: char)
    requires
        d < 16,
    ensures
        c == hex_digit_char(d as nat),
{
    if d == 0 {
        '0'
    } else if d == 1 {
        '1'
    } else if d == 2 {
        '2'
    } else if d == 3 {
        '3'
    } else if d == 4 {
        '4'
    } else if d == 5 {
        '5'
    } else if d == 6 {
        '6'
    } else if d == 7 {
        '7'
    } else if d == 8 {
        '8'
    } else if d == 9 {
        '9'
    } else if d == 10 {
        'A'
    } else if d == 11 {
        'B'
    } else if d == 12 {
        'C'
    } else if d == 13 {
        'D'
    } else if d == 14 {
        'E'
    } else {
        'F'
    }
}

/// Appends the hexadecimal numeral of `n`.
fn push_hex(out: &mut String, n: u32)
    ensures
        final(out)@ == old(out)@ + hex_upper(n as nat),
    decreases n,
{
    if n >= 16 {
        push_hex(out, n / 16);
    }
    out.push(hex_digit_of((n % 16) as u8));
}

/// Appends the code point `n`, in at least four digits.
fn push_code_point(out: &mut String, n: u32)
    ensures
        final(out)@ == old(out)@ + code_point_text(n as nat),
{
    let mut digits = String::new();
    push_hex(&mut digits, n);
    assert(digits@ =~= hex_upper(n as nat));
    let len = digits.as_str().unicode_len();
    let ghost start = out@;
    let mut k: usize = len;
    while k < 4
        invariant
            len <= k,
            len < 4 ==> k <= 4,
            len >= 4 ==> k == len,
            out@ == start + repeated('0', (k - len) as nat),
        decreases 4 - k,
    {
        out.push('0');
        k = k + 1;
        assert(out@ =~= start + repeated('0', (k - len) as nat));
    }
    let ghost zeros = repeated('0', (k - len) as nat);
    assert(out@ == start + zeros);
    out.append(digits.as_str());
    assert(out@ == start + zeros + digits@);
    assert(hex_upper(n as nat).len() == len);
    assert(code_point_text(n as nat) =~= zeros + digits@);
    assert(out@ =~= start + (zeros + digits@));
}

/// Appends the line for `c`.
fn push_char_line(out: &mut String, c: char)
    ensures
        final(out)@ == old(out)@ + char_line(c),
{
    if !ascii_space(c) {
        out.push('`');
        push_escaped_char(out, c);
        out.push('`');
        out.push(' ');
        out.push('`');
        out.push('U');
        out.push('\\');
        out.push('+');
        push_code_point(out, c as u32);
        out.push('`');
    }
    assert(out@ =~= old(out)@ + char_line(c));
}

impl CharInfo {
    /// The text that tells the code point of each of `chars`.
    pub fn describe(chars: &str) -> (text: String)
        ensures
            text@ == char_info_text(chars@),
    {
        let len = chars.unicode_len();
        let shown: usize = if len > MAX_LINES {
            MAX_LINES
        } else {
            len
        };
        let mut text = String::new();
        let mut i: usize = 0;
        while i < shown
            invariant
                i <= shown <= len,
                len == chars@.len(),
                text@ == char_lines(chars@, i as nat),
            decreases shown - i,
        {
            if i > 0 {
                text.push('\n');
            }
            push_char_line(&mut text, chars.get_char(i));
            i = i + 1;
            assert(text@ =~= char_lines(chars@, i as nat));
        }
        if len > MAX_LINES {
            text.push('\n');
            text.push(ELLIPSIS);
        }
        assert(text@ =~= char_info_text(chars@));
        text
    }
}

} // verus!
