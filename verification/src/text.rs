//! Decimal text for the fixed-point values of the monitor.

use vstd::prelude::*;
use vstd::string::*;

verus! {

/// The character of the decimal digit `d`.
pub open spec fn digit(d: nat) -> char {
    if d == 0 {
        '0'
    } else if d == 1 {
        '1'
    } else if d == 2 {
        '2'
    } else if d == 3 {
        '3'
    } else if d == 4 {
        '4'
    } else if d == 5 {
        '5'
    } else if d == 6 {
        '6'
    } else if d == 7 {
        '7'
    } else if d == 8 {
        '8'
    } else {
        '9'
    }
}

/// `n` in decimal, without leading zeros.
pub open spec fn decimal(n: nat) -> Seq<char>
    decreases n,
{
    if n < 10 {
        seq![digit(n)]
    } else {
        decimal(n / 10).push(digit(n % 10))
    }
}

/// A count of tenths written with one decimal place: 123 reads "12.3".
pub open spec fn one_decimal(tenths: nat) -> Seq<char> {
    decimal(tenths / 10).push('.').push(digit(tenths % 10))
}

/// A count of hundredths written with two decimal places: 1234 reads "12.34".
pub open spec fn two_decimals(hundredths: nat) -> Seq<char> {
    decimal(hundredths / 100).push('.').push(digit(hundredths / 10 % 10)).push(
        digit(hundredths % 10),
    )
}

/// `count` spaces.
pub open spec fn spaces(count: nat) -> Seq<char> {
    Seq::new(count, |i: int| ' ')
}

/// `text` filled with spaces on the right up to `width` characters; longer
/// text is left as it is.
pub open spec fn padded(text: Seq<char>, width: nat) -> Seq<char> {
    if text.len() >= width {
        text
    } else {
        text + spaces((width - text.len()) as nat)
    }
}

fn digit_text(d: u128) -> (r: &'static str)
    requires
        d < 10,
    ensures
        r@ == seq![digit(d as nat)],
{
    proof {
        reveal_strlit("0");
        reveal_strlit("1");
        reveal_strlit("2");
        reveal_strlit("3");
        reveal_strlit("4");
        reveal_strlit("5");
        reveal_strlit("6");
        reveal_strlit("7");
        reveal_strlit("8");
        reveal_strlit("9");
    }
    let r = if d == 0 {
        "0"
    } else if d == 1 {
        "1"
    } else if d == 2 {
        "2"
    } else if d == 3 {
        "3"
    } else if d == 4 {
        "4"
    } else if d == 5 {
        "5"
    } else if d == 6 {
        "6"
    } else if d == 7 {
        "7"
    } else if d == 8 {
        "8"
    } else {
        "9"
    };
    assert(r@ =~= seq![digit(d as nat)]);
    r
}

/// Writes `n` in decimal.
pub fn decimal_text(n: u128) -> (r: String)
    ensures
        r@ == decimal(n as nat),
    decreases n,
{
    if n < 10 {
        String::from_str(digit_text(n))
    } else {
        let mut text = decimal_text(n / 10);
        text.append(digit_text(n % 10));
        assert(text@ =~= decimal(n as nat));
        text
    }
}

/// Writes a count of tenths with one decimal place.
pub fn one_decimal_text(tenths: u128) -> (r: String)
    ensures
        r@ == one_decimal(tenths as nat),
{
    proof {
        reveal_strlit(".");
    }
    let mut text = decimal_text(tenths / 10);
    text.append(".");
    text.append(digit_text(tenths % 10));
    assert(text@ =~= one_decimal(tenths as nat));
    text
}

/// Writes a count of hundredths with two decimal places.
pub fn two_decimals_text(hundredths: u128) -> (r: String)
    ensures
        r@ == two_decimals(hundredths as nat),
{
    proof {
        reveal_strlit(".");
    }
    let mut text = decimal_text(hundredths / 100);
    text.append(".");
    text.append(digit_text(hundredths / 10 % 10));
    text.append(digit_text(hundredths % 10));
    assert(text@ =~= two_decimals(hundredths as nat));
    text
}

/// Fills `text` with spaces on the right up to `width` characters.
pub fn pad(text: String, width: usize) -> (r: String)
    ensures
        r@ == padded(text@, width as nat),
{
    let mut text = text;
    let ghost start = text@;
    let mut length = text.as_str().unicode_len();
    while length < width
        invariant
            length == text@.len(),
            start.len() <= length,
            length <= width || length == start.len(),
            text@ == start + spaces((length - start.len()) as nat),
        decreases width - length,
    {
        proof {
            reveal_strlit(" ");
        }
        text.append(" ");
        length += 1;
        assert(text@ =~= start + spaces((length - start.len()) as nat));
    }
    assert(text@ =~= padded(start, width as nat));
    text
}

} // verus!
