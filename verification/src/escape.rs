//! Character-level building blocks of the encodings: string escaping and
//! decimal numbers.

use vstd::prelude::*;

verus! {

/// The digit character for a value below sixteen, lower case.
pub open spec fn hex_digit(n: nat) -> char {
    if n == 0 {
        '0'
    } else if n == 1 {
        '1'
    } else if n == 2 {
        '2'
    } else if n == 3 {
        '3'
    } else if n == 4 {
        '4'
    } else if n == 5 {
        '5'
    } else if n == 6 {
        '6'
    } else if n == 7 {
        '7'
    } else if n == 8 {
        '8'
    } else if n == 9 {
        '9'
    } else if n == 10 {
        'a'
    } else if n == 11 {
        'b'
    } else if n == 12 {
        'c'
    } else if n == 13 {
        'd'
    } else if n == 14 {
        'e'
    } else {
        'f'
    }
}

/// Whether a character is a control character, which never appears
/// unescaped in the output.
pub open spec fn is_control(c: char) -> bool {
    (c as u32) < 0x20
}

/// How one character is written inside a quoted string: a quote and a
/// backslash get a backslash in front, the usual control characters get
/// their short form, any other control character is written as `\u00`
/// and two hex digits, and every other character stands for itself.
pub open spec fn escape_char(c: char) -> Seq<char> {
    if c == '"' {
        seq!['\\', '"']
    } else if c == '\\' {
        seq!['\\', '\\']
    } else if c == '\n' {
        seq!['\\', 'n']
    } else if c == '\r' {
        seq!['\\', 'r']
    } else if c == '\t' {
        seq!['\\', 't']
    } else if c == '\u{08}' {
        seq!['\\', 'b']
    } else if c == '\u{0c}' {
        seq!['\\', 'f']
    } else if is_control(c) {
        seq![
            '\\',
            'u',
            '0',
            '0',
            hex_digit(((c as u32) / 16) as nat),
            hex_digit(((c as u32) % 16) as nat),
        ]
    } else {
        seq![c]
    }
}

/// A text with each character escaped.
pub open spec fn escape(s: Seq<char>) -> Seq<char>
    decreases s.len(),
{
    if s.len() == 0 {
        Seq::empty()
    } else {
        escape(s.drop_last()) + escape_char(s.last())
    }
}

/// A number in decimal, without sign and without leading zeros.
pub open spec fn decimal(n: nat) -> Seq<char>
    decreases n,
{
    if n < 10 {
        seq![hex_digit(n)]
    } else {
        decimal(n / 10).push(hex_digit(n % 10))
    }
}

/// `String::push` of std: the character is appended, the rest of the
/// string stays as it was.
#[verifier::external_body]
pub(crate) fn push_char(out: &mut String, c: char)
    ensures
        final(out)@ == old(out)@.push(c),
{
    out.push(c)
}

fn digit_char(n: u8) -> (c: char)
    requires
        n < 16,
    ensures
        c == hex_digit(n as nat),
{
    if n == 0 {
        '0'
    } else if n == 1 {
        '1'
    } else if n == 2 {
        '2'
    } else if n == 3 {
        '3'
    } else if n == 4 {
        '4'
    } else if n == 5 {
        '5'
    } else if n == 6 {
        '6'
    } else if n == 7 {
        '7'
    } else if n == 8 {
        '8'
    } else if n == 9 {
        '9'
    } else if n == 10 {
        'a'
    } else if n == 11 {
        'b'
    } else if n == 12 {
        'c'
    } else if n == 13 {
        'd'
    } else if n == 14 {
        'e'
    } else {
        'f'
    }
}

/// Appends one character in its escaped form.
pub fn push_escaped_char(out: &mut String, c: char)
    ensures
        final(out)@ == old(out)@ + escape_char(c),
{
    let code: u32 = c as u32;
    if c == '"' {
        push_char(out, '\\');
        push_char(out, '"');
    } else if c == '\\' {
        push_char(out, '\\');
        push_char(out, '\\');
    } else if c == '\n' {
        push_char(out, '\\');
        push_char(out, 'n');
    } else if c == '\r' {
        push_char(out, '\\');
        push_char(out, 'r');
    } else if c == '\t' {
        push_char(out, '\\');
        push_char(out, 't');
    } else if c == '\u{08}' {
        push_char(out, '\\');
        push_char(out, 'b');
    } else if c == '\u{0c}' {
        push_char(out, '\\');
        push_char(out, 'f');
    } else if code < 0x20 {
        push_char(out, '\\');
        push_char(out, 'u');
        push_char(out, '0');
        push_char(out, '0');
        push_char(out, digit_char((code / 16) as u8));
        push_char(out, digit_char((code % 16) as u8));
    } else {
        push_char(out, c);
    }
    assert(out@ =~= old(out)@ + escape_char(c));
}

/// Appends a text with each character escaped.
pub fn push_escaped(out: &mut String, text: &str)
    ensures
        final(out)@ == old(out)@ + escape(text@),
{
    broadcast use vstd::string::group_string_axioms;

    assert(text@.take(0) =~= Seq::<char>::empty());
    for c in it: text.chars()
        invariant
            it.seq() == text@,
            out@ == old(out)@ + escape(text@.take(it.index() as int)),
    {
        let ghost at = it.index() as int;
        push_escaped_char(out, c);
        proof {
            let next = text@.take(at + 1);
            assert(next.drop_last() =~= text@.take(at));
            assert(next.last() == c);
            assert(out@ =~= old(out)@ + escape(next));
        }
    }
    assert(text@.take(text@.len() as int) =~= text@);
}

/// Appends a number in decimal.
pub fn push_decimal(out: &mut String, n: u64)
    ensures
        final(out)@ == old(out)@ + decimal(n as nat),
    decreases n,
{
    if n >= 10 {
        push_decimal(out, n / 10);
    }
    push_char(out, digit_char((n % 10) as u8));
    assert(out@ =~= old(out)@ + decimal(n as nat));
}

/// A digit is no control character.
pub proof fn lemma_hex_digit_printable(n: nat)
    ensures
        !is_control(hex_digit(n)),
{
}

/// The escaped form of a character holds no control character.
pub proof fn lemma_escape_char_no_control(c: char)
    ensures
        escape_char(c).len() >= 1,
        forall|j: int|
            0 <= j < escape_char(c).len() ==> !is_control(#[trigger] escape_char(c)[j]),
{
    let e = escape_char(c);
    if is_control(c) {
        lemma_hex_digit_printable(((c as u32) / 16) as nat);
        lemma_hex_digit_printable(((c as u32) % 16) as nat);
        assert(!is_control('\\') && !is_control('u') && !is_control('0') && !is_control('n')
            && !is_control('r') && !is_control('t') && !is_control('b') && !is_control('f'));
        assert forall|j: int| 0 <= j < e.len() implies !is_control(#[trigger] e[j]) by {
            if j == 0 {
            } else if j == 1 {
            } else if j == 2 {
            } else if j == 3 {
            } else if j == 4 {
            } else {
            }
        }
    } else {
        assert(!is_control('\\') && !is_control('"'));
        assert forall|j: int| 0 <= j < e.len() implies !is_control(#[trigger] e[j]) by {
            if j == 0 {
            } else {
            }
        }
    }
}

/// An escaped text holds no control character: in particular no line
/// break, whatever the text was.
pub proof fn lemma_escape_no_control(s: Seq<char>)
    ensures
        forall|i: int| 0 <= i < escape(s).len() ==> !is_control(#[trigger] escape(s)[i]),
    decreases s.len(),
{
    if s.len() > 0 {
        let front = escape(s.drop_last());
        let e = escape_char(s.last());
        lemma_escape_no_control(s.drop_last());
        lemma_escape_char_no_control(s.last());
        assert forall|i: int| 0 <= i < escape(s).len() implies !is_control(
            #[trigger] escape(s)[i],
        ) by {
            if i < front.len() {
                assert(escape(s)[i] == front[i]);
            } else {
                assert(escape(s)[i] == e[i - front.len()]);
            }
        }
    }
}

/// A number in decimal holds no control character.
pub proof fn lemma_decimal_no_control(n: nat)
    ensures
        forall|i: int| 0 <= i < decimal(n).len() ==> !is_control(#[trigger] decimal(n)[i]),
    decreases n,
{
    lemma_hex_digit_printable(n % 10);
    if n >= 10 {
        let front = decimal(n / 10);
        lemma_decimal_no_control(n / 10);
        assert forall|i: int| 0 <= i < decimal(n).len() implies !is_control(
            #[trigger] decimal(n)[i],
        ) by {
            if i < front.len() {
                assert(decimal(n)[i] == front[i]);
            }
        }
    } else {
        lemma_hex_digit_printable(n);
    }
}

} // verus!
