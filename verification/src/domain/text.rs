//! Small pieces of text that the server writes itself: decimal and hexadecimal digits.

use vstd::prelude::*;
use vstd::string::StringExecFns;

verus! {

/// The character of a decimal digit.
pub open spec fn digit_char(d: int) -> char {
    if d == 0 {
        '0'
    } else if d == 1 {
        '1'
    } else if d == 2 {
        '2'
    } else if d == 3 {
        '3'
    } else if d == 4 {
        '4'
    } else if d == 5 {
        '5'
    } else if d == 6 {
        '6'
    } else if d == 7 {
        '7'
    } else if d == 8 {
        '8'
    } else {
        '9'
    }
}

/// A number below 100 in two decimal digits.
pub open spec fn two_digits(n: int) -> Seq<char> {
    seq![digit_char(n / 10), digit_char(n % 10)]
}

/// The text of one decimal digit.
pub(crate) fn digit_str(d: u8) -> (text: &'static str)
    requires
        d < 10,
    ensures
        text@ == seq![digit_char(d as int)],
{
    proof {
        reveal_strlit("0");
        reveal_strlit("1");
        reveal_strlit("2");
        reveal_strlit("3");
        reveal_strlit("4");
        reveal_strlit("5");
        reveal_strlit("6");
        reveal_strlit("7");
        reveal_strlit("8");
        reveal_strlit("9");
    }
    let text = if d == 0 {
        "0"
    } else if d == 1 {
        "1"
    } else if d == 2 {
        "2"
    } else if d == 3 {
        "3"
    } else if d == 4 {
        "4"
    } else if d == 5 {
        "5"
    } else if d == 6 {
        "6"
    } else if d == 7 {
        "7"
    } else if d == 8 {
        "8"
    } else {
        "9"
    };
    assert(text@ =~= seq![digit_char(d as int)]);
    text
}

/// Appends a number below 100 to a text, in two decimal digits.
pub(crate) fn push_two_digits(text: &mut String, n: u8)
    requires
        n < 100,
    ensures
        final(text)@ == old(text)@ + two_digits(n as int),
{
    text.append(digit_str(n / 10));
    text.append(digit_str(n % 10));
    assert(text@ =~= old(text)@ + two_digits(n as int));
}

/// The character of a hexadecimal digit, letters in upper case.
pub open spec fn hex_char(d: int) -> char {
    if d < 10 {
        digit_char(d)
    } else if d == 10 {
        'A'
    } else if d == 11 {
        'B'
    } else if d == 12 {
        'C'
    } else if d == 13 {
        'D'
    } else if d == 14 {
        'E'
    } else {
        'F'
    }
}

/// A number in upper-case hexadecimal, without leading zeros; zero is "0".
pub open spec fn hex_upper(n: nat) -> Seq<char>
    decreases n,
{
    if n < 16 {
        seq![hex_char(n as int)]
    } else {
        hex_upper(n / 16).push(hex_char((n % 16) as int))
    }
}

/// The text of one hexadecimal digit.
pub(crate) fn hex_digit_str(d: u8) -> (text: &'static str)
    requires
        d < 16,
    ensures
        text@ == seq![hex_char(d as int)],
{
    if d < 10 {
        digit_str(d)
    } else {
        proof {
            reveal_strlit("A");
            reveal_strlit("B");
            reveal_strlit("C");
            reveal_strlit("D");
            reveal_strlit("E");
            reveal_strlit("F");
        }
        let text = if d == 10 {
            "A"
        } else if d == 11 {
            "B"
        } else if d == 12 {
            "C"
        } else if d == 13 {
            "D"
        } else if d == 14 {
            "E"
        } else {
            "F"
        };
        assert(text@ =~= seq![hex_char(d as int)]);
        text
    }
}

/// Renders a number in upper-case hexadecimal without leading zeros.
pub fn to_hex_upper(n: u128) -> (text: String)
    ensures
        text@ == hex_upper(n as nat),
    decreases n,
{
    if n < 16 {
        hex_digit_str(n as u8).to_owned()
    } else {
        let mut text = to_hex_upper(n / 16);
        text.append(hex_digit_str((n % 16) as u8));
        assert(text@ =~= hex_upper((n / 16) as nat).push(hex_char((n % 16) as int)));
        text
    }
}

} // verus!
