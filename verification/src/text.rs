use vstd::prelude::*;
use vstd::string::*;

verus! {

/// Whether a character is one of the ten decimal digits.
pub open spec fn is_digit(c: char) -> bool {
    '0' <= c && c <= '9'
}

/// The number that a decimal digit stands for.
pub open spec fn digit_value(c: char) -> int {
    c as int - '0' as int
}

/// Reads one decimal digit.
pub fn digit_of(c: char) -> (d: Option<u8>)
    ensures
        d is Some <==> is_digit(c),
        d matches Some(v) ==> v == digit_value(c) && v <= 9,
{
    if '0' <= c && c <= '9' {
        Some((c as u32 - '0' as u32) as u8)
    } else {
        None
    }
}

/// Whether two texts are the same.
pub fn same_text(a: &str, b: &str) -> (same: bool)
    ensures
        same == (a@ == b@),
{
    a.to_owned() == b.to_owned()
}

/// The character that writes a number below ten.
pub open spec fn digit_char(d: int) -> char {
    (d + '0' as int) as char
}

/// A number below a hundred in two digits, with a leading zero where needed.
pub open spec fn two_digits(n: int) -> Seq<char> {
    seq![digit_char(n / 10), digit_char(n % 10)]
}

/// A number below ten thousand in four digits, with leading zeros where
/// needed.
pub open spec fn four_digits(n: int) -> Seq<char> {
    seq![
        digit_char(n / 1000),
        digit_char((n / 100) % 10),
        digit_char((n / 10) % 10),
        digit_char(n % 10),
    ]
}

/// Writes one digit at the end of a text.
pub fn push_digit(text: &mut String, d: u8)
    requires
        d <= 9,
    ensures
        final(text)@ == old(text)@.push(digit_char(d as int)),
{
    proof {
        reveal_strlit("0");
        reveal_strlit("1");
        reveal_strlit("2");
        reveal_strlit("3");
        reveal_strlit("4");
        reveal_strlit("5");
        reveal_strlit("6");
        reveal_strlit("7");
        reveal_strlit("8");
        reveal_strlit("9");
    }
    let digit: &str = match d {
        0 => "0",
        1 => "1",
        2 => "2",
        3 => "3",
        4 => "4",
        5 => "5",
        6 => "6",
        7 => "7",
        8 => "8",
        _ => "9",
    };
    assert(digit@ =~= seq![digit_char(d as int)]);
    text.append(digit);
    assert(final(text)@ =~= old(text)@.push(digit_char(d as int)));
}

/// Writes a number below a hundred in two digits at the end of a text.
pub fn push_two_digits(text: &mut String, n: u8)
    requires
        n <= 99,
    ensures
        final(text)@ == old(text)@ + two_digits(n as int),
{
    push_digit(text, n / 10);
    push_digit(text, n % 10);
    assert(final(text)@ =~= old(text)@ + two_digits(n as int));
}

/// A number below 256 in at least two digits: with a leading zero below ten,
/// in three digits from a hundred on.
pub open spec fn at_least_two_digits(n: int) -> Seq<char> {
    if n < 100 {
        two_digits(n)
    } else {
        seq![digit_char(n / 100), digit_char((n / 10) % 10), digit_char(n % 10)]
    }
}

/// Writes a number in at least two digits at the end of a text.
pub fn push_at_least_two_digits(text: &mut String, n: u8)
    ensures
        final(text)@ == old(text)@ + at_least_two_digits(n as int),
{
    if n < 100 {
        push_two_digits(text, n);
    } else {
        push_digit(text, n / 100);
        push_digit(text, (n / 10) % 10);
        push_digit(text, n % 10);
        assert(final(text)@ =~= old(text)@ + at_least_two_digits(n as int));
    }
}

/// Writes a number below ten thousand in four digits at the end of a text.
pub fn push_four_digits(text: &mut String, n: u16)
    requires
        n <= 9999,
    ensures
        final(text)@ == old(text)@ + four_digits(n as int),
{
    push_digit(text, (n / 1000) as u8);
    push_digit(text, ((n / 100) % 10) as u8);
    push_digit(text, ((n / 10) % 10) as u8);
    push_digit(text, (n % 10) as u8);
    assert(final(text)@ =~= old(text)@ + four_digits(n as int));
}

} // verus!
