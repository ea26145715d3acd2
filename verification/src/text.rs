//! Text operations that names and keys are made with.
use vstd::prelude::*;
use vstd::string::{StrSliceExecFns, StringExecFns};

verus! {

/// `String::push`: appends one character at the end.
#[verifier::external_body]
pub(crate) fn push_char(text: &mut String, ch: char)
    ensures
        final(text)@ == old(text)@.push(ch),
{
    text.push(ch);
}

pub open spec fn ascii_upper_char(c: char) -> bool {
    'A' <= c && c <= 'Z'
}

pub open spec fn ascii_digit_char(c: char) -> bool {
    '0' <= c && c <= '9'
}

pub open spec fn ascii_alphanumeric_char(c: char) -> bool {
    ascii_upper_char(c) || ('a' <= c && c <= 'z') || ascii_digit_char(c)
}

/// The lower-case letter of an upper-case ASCII letter; every other character is kept.
pub open spec fn ascii_lower_char(c: char) -> char {
    if ascii_upper_char(c) {
        ((c as u8) + 32) as u8 as char
    } else {
        c
    }
}

pub open spec fn ascii_lower(text: Seq<char>) -> Seq<char> {
    text.map_values(|c: char| ascii_lower_char(c))
}

pub fn to_ascii_lower_char(c: char) -> (r: char)
    ensures
        r == ascii_lower_char(c),
{
    if 'A' <= c && c <= 'Z' {
        ((c as u8) + 32) as char
    } else {
        c
    }
}

pub fn is_ascii_alphanumeric(c: char) -> (r: bool)
    ensures
        r == ascii_alphanumeric_char(c),
{
    ('A' <= c && c <= 'Z') || ('a' <= c && c <= 'z') || ('0' <= c && c <= '9')
}

/// The text with its upper-case ASCII letters made lower-case.
pub fn to_ascii_lower(text: &str) -> (r: String)
    ensures
        r@ == ascii_lower(text@),
{
    let mut out = String::new();
    let n: usize = text.unicode_len();
    let mut i: usize = 0;
    while i < n
        invariant
            n == text@.len(),
            i <= n,
            out@ == ascii_lower(text@.take(i as int)),
        decreases n - i,
    {
        push_char(&mut out, to_ascii_lower_char(text.get_char(i)));
        proof {
            assert(text@.take(i + 1).drop_last() == text@.take(i as int));
            assert(out@ =~= ascii_lower(text@.take(i + 1)));
        }
        i = i + 1;
    }
    assert(text@.take(n as int) == text@);
    out
}

pub open spec fn digit_char(d: int) -> char {
    ((d + 48) as u8) as char
}

/// A number in decimal digits, without leading zeros.
pub open spec fn decimal(n: int) -> Seq<char>
    decreases n,
{
    if n < 10 {
        seq![digit_char(n)]
    } else {
        decimal(n / 10).push(digit_char(n % 10))
    }
}

fn push_decimal(out: &mut String, n: u64)
    ensures
        final(out)@ == old(out)@ + decimal(n as int),
    decreases n,
{
    if n >= 10 {
        push_decimal(out, n / 10);
    }
    let ghost before = out@;
    push_char(out, ((n % 10) as u8 + 48) as char);
    proof {
        if n < 10 {
            assert(before.push(digit_char(n as int)) =~= before + decimal(n as int));
        } else {
            assert(before =~= old(out)@ + decimal(n as int / 10));
            assert(before.push(digit_char(n as int % 10)) =~= old(out)@ + decimal(n as int));
        }
    }
}

pub fn to_decimal(n: u64) -> (r: String)
    ensures
        r@ == decimal(n as int),
{
    let mut out = String::new();
    push_decimal(&mut out, n);
    assert(out@ =~= decimal(n as int));
    out
}

/// The value that decimal digits stand for.
pub open spec fn decimal_value(digits: Seq<char>) -> int
    decreases digits.len(),
{
    if digits.len() == 0 {
        0
    } else {
        decimal_value(digits.drop_last()) * 10 + (digits.last() as int - 48)
    }
}

/// A number is read back from its digits.
pub proof fn law_decimal_reads_back(n: int)
    requires
        n >= 0,
    ensures
        decimal_value(decimal(n)) == n,
    decreases n,
{
    let d = n % 10;
    assert(digit_char(d) as int == d + 48);
    if n < 10 {
        assert(decimal(n).drop_last() =~= Seq::<char>::empty());
        assert(decimal(n).last() == digit_char(n));
        assert(decimal_value(Seq::<char>::empty()) == 0);
    } else {
        law_decimal_reads_back(n / 10);
        assert(decimal(n).drop_last() =~= decimal(n / 10));
    }
}

/// Three texts one after the other.
pub fn join3(a: &str, b: &str, c: &str) -> (r: String)
    ensures
        r@ == a@ + b@ + c@,
{
    let mut out = a.to_owned();
    out.append(b);
    out.append(c);
    out
}

} // verus!
