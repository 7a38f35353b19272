//! The framing of the messages that go to and come from a language server:
//! a header line that tells the length of the body in bytes, an empty line,
//! and the body.

use crate::text::byte_len;
use crate::text::string_push;
use crate::text::trim_end;
use crate::text::trimmed_end;
use vstd::prelude::*;
use vstd::string::StringExecFns;
use vstd::string::StrSliceExecFns;

verus! {

/// What the header line starts with.
pub const HEADER: &'static str = "Content-Length: ";

/// What stands between the header and the body.
pub const SEPARATOR: &'static str = "\r\n\r\n";

/// Whether `c` is a decimal digit.
pub open spec fn is_digit(c: char) -> bool {
    '0' <= c <= '9'
}

/// The number that the decimal digits `digits` stand for.
pub open spec fn decimal_value(digits: Seq<char>) -> nat
    decreases digits.len(),
{
    if digits.len() == 0 {
        0
    } else {
        decimal_value(digits.drop_last()) * 10 + (digits.last() as u32 - '0' as u32) as nat
    }
}

/// The number that `text` tells, where it is made of one decimal digit or
/// more and the number fits a machine integer.
pub open spec fn number_told(text: Seq<char>) -> Option<usize> {
    if text.len() > 0 && (forall|i: int| 0 <= i < text.len() ==> is_digit(#[trigger] text[i]))
        && decimal_value(text) <= usize::MAX {
        Some(decimal_value(text) as usize)
    } else {
        None
    }
}

/// The length that `text` tells: the number of its digits, before which a
/// plus sign may stand.
pub open spec fn length_told(text: Seq<char>) -> Option<usize> {
    if text.len() > 0 && text[0] == '+' {
        number_told(text.drop_first())
    } else {
        number_told(text)
    }
}

/// The length of the body that the header line `line` tells: the number
/// behind `HEADER`, with no regard to whitespace at the end of the line.
pub open spec fn content_length_of(line: Seq<char>) -> Option<usize> {
    if HEADER@.is_prefix_of(line) {
        length_told(trimmed_end(line.subrange(HEADER@.len() as int, line.len() as int)))
    } else {
        None
    }
}

/// The decimal digits of `n`.
pub open spec fn decimal_digits(n: nat) -> Seq<char>
    decreases n,
{
    if n < 10 {
        seq![('0' as u32 + n) as char]
    } else {
        decimal_digits(n / 10).push(('0' as u32 + n % 10) as char)
    }
}

/// A message with the body `body`, framed.
pub open spec fn framed(body: Seq<char>, length: nat) -> Seq<char> {
    HEADER@ + decimal_digits(length) + SEPARATOR@ + body
}

/// The length that `text` tells.
pub fn parse_length(text: &str) -> (length: Option<usize>)
    ensures
        length == length_told(text@),
{
    let n = text.unicode_len();
    if n > 0 && text.get_char(0) == '+' {
        let digits = text.substring_char(1, n);
        assert(digits@ =~= text@.drop_first());
        parse_number(digits)
    } else {
        parse_number(text)
    }
}

/// The number that the decimal digits of `text` stand for, where `text`
/// is made of one digit or more and the number fits a machine integer.
pub fn parse_number(text: &str) -> (number: Option<usize>)
    ensures
        number == number_told(text@),
{
    let n = text.unicode_len();
    if n == 0 {
        return None;
    }
    let mut value: usize = 0;
    let mut i: usize = 0;
    while i < n
        invariant
            n == text@.len(),
            i <= n,
            forall|j: int| 0 <= j < i ==> is_digit(#[trigger] text@[j]),
            value == decimal_value(text@.take(i as int)),
        decreases n - i,
    {
        let c = text.get_char(i);
        if !('0' <= c && c <= '9') {
            return None;
        }
        let digit = (c as u32 - '0' as u32) as usize;
        proof {
            let next = text@.take(i as int + 1);
            assert(next.drop_last() =~= text@.take(i as int));
            assert(next.last() == c);
            assert(decimal_value(next) == value * 10 + digit);
        }
        if value > (usize::MAX - digit) / 10 {
            proof {
                if forall|j: int| 0 <= j < text@.len() ==> is_digit(#[trigger] text@[j]) {
                    lemma_decimal_grows(text@, i as int + 1);
                }
            }
            return None;
        }
        value = value * 10 + digit;
        i = i + 1;
    }
    assert(text@.take(n as int) =~= text@);
    Some(value)
}

/// The number that a text stands for is no less than that of any start of
/// it.
pub proof fn lemma_decimal_grows(digits: Seq<char>, n: int)
    requires
        0 <= n <= digits.len(),
        forall|j: int| 0 <= j < digits.len() ==> is_digit(#[trigger] digits[j]),
    ensures
        decimal_value(digits.take(n)) <= decimal_value(digits),
    decreases digits.len() - n,
{
    if n < digits.len() {
        let longer = digits.take(n + 1);
        assert(longer.drop_last() =~= digits.take(n));
        assert(is_digit(digits[n]));
        assert(longer.last() == digits[n]);
        assert(decimal_value(digits.take(n)) <= decimal_value(longer)) by (nonlinear_arith)
            requires
                decimal_value(longer) == decimal_value(digits.take(n)) * 10 + (digits[n] as u32
                    - '0' as u32) as nat,
        ;
        lemma_decimal_grows(digits, n + 1);
    } else {
        assert(digits.take(n) =~= digits);
    }
}

/// The length of the body that the header line `line` tells, or nothing
/// where the line is no such header.
pub fn content_length(line: &str) -> (length: Option<usize>)
    ensures
        length == content_length_of(line@),
{
    proof {
        reveal_strlit("Content-Length: ");
    }
    let n = line.unicode_len();
    let m = HEADER.unicode_len();
    if n < m {
        return None;
    }
    let mut i: usize = 0;
    while i < m
        invariant
            n == line@.len(),
            m == HEADER@.len(),
            m <= n,
            i <= m,
            forall|j: int| 0 <= j < i ==> line@[j] == HEADER@[j],
        decreases m - i,
    {
        if line.get_char(i) != HEADER.get_char(i) {
            return None;
        }
        i = i + 1;
    }
    assert(HEADER@ =~= line@.subrange(0, m as int));
    parse_length(trim_end(line.substring_char(m, n)))
}

/// Appends the decimal digits of `n` to `out`.
pub fn push_decimal(out: &mut String, n: usize)
    ensures
        final(out)@ == old(out)@ + decimal_digits(n as nat),
    decreases n,
{
    if n >= 10 {
        push_decimal(out, n / 10);
    }
    let digit = ('0' as u8 + (n % 10) as u8) as char;
    let ghost before = out@;
    string_push(out, digit);
    proof {
        if n >= 10 {
            assert(out@ =~= old(out)@ + decimal_digits(n as nat));
        } else {
            assert(out@ =~= old(out)@ + decimal_digits(n as nat));
        }
    }
}

/// The message with the body `json`, framed: its header, which tells the
/// length of the body in bytes, an empty line, and the body.
pub fn frame(json: &str) -> (message: String)
    ensures
        message@ == framed(json@, vstd::utf8::encode_utf8(json@).len()),
{
    let mut message = String::from_str(HEADER);
    push_decimal(&mut message, byte_len(json));
    message.append(SEPARATOR);
    message.append(json);
    message
}

} // verus!
