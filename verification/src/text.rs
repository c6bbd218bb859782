//! Numbers in words: whole numbers in decimal digits, and numbers of
//! thousandths as decimal fractions.

use vstd::prelude::*;
use vstd::string::StringExecFns;

verus! {

/// The character for a digit.
pub open spec fn digit(d: int) -> char {
    seq!['0', '1', '2', '3', '4', '5', '6', '7', '8', '9'][d]
}

/// A number in decimal digits, without leading zeroes.
pub open spec fn decimal(n: nat) -> Seq<char>
    decreases n,
{
    if n < 10 {
        seq![digit(n as int)]
    } else {
        decimal(n / 10).push(digit((n % 10) as int))
    }
}

/// How far a number is from zero.
pub open spec fn magnitude(v: int) -> nat {
    if v < 0 {
        (-v) as nat
    } else {
        v as nat
    }
}

/// The digits after the decimal point for a number of thousandths below a
/// thousand, without trailing zeroes; nothing at all, not even the point,
/// for none.
pub open spec fn trimmed_fraction(thousandths: nat) -> Seq<char> {
    let tenths = digit((thousandths / 100) as int);
    let hundredths = digit((thousandths / 10 % 10) as int);
    if thousandths == 0 {
        Seq::empty()
    } else if thousandths % 100 == 0 {
        seq!['.', tenths]
    } else if thousandths % 10 == 0 {
        seq!['.', tenths, hundredths]
    } else {
        seq!['.', tenths, hundredths, digit((thousandths % 10) as int)]
    }
}

/// A number of thousandths as a decimal fraction with no more digits than
/// it needs: `1500` is `1.5`, `-2000` is `-2`.
pub open spec fn trimmed(thousandths: int) -> Seq<char> {
    let size = magnitude(thousandths);
    let sign = if thousandths < 0 {
        seq!['-']
    } else {
        Seq::empty()
    };
    sign + decimal(size / 1000) + trimmed_fraction(size % 1000)
}

/// A number of thousandths as a decimal fraction with two digits after the
/// point, rounded to the nearest hundredth, a half going away from zero:
/// `1505` is `1.51`, `-20` is `-0.02`, `-4` is `0.00`.
pub open spec fn two_decimals(thousandths: int) -> Seq<char> {
    let hundredths = (magnitude(thousandths) + 5) / 10;
    let sign = if thousandths < 0 && hundredths > 0 {
        seq!['-']
    } else {
        Seq::empty()
    };
    sign + decimal(hundredths / 100) + seq![
        '.',
        digit((hundredths / 10 % 10) as int),
        digit((hundredths % 10) as int),
    ]
}

/// The text for a digit.
fn digit_text(d: u128) -> (text: &'static str)
    requires
        d < 10,
    ensures
        text@ == seq![digit(d as int)],
{
    proof {
        reveal_strlit("0");
        reveal_strlit("1");
        reveal_strlit("2");
        reveal_strlit("3");
        reveal_strlit("4");
        reveal_strlit("5");
        reveal_strlit("6");
        reveal_strlit("7");
        reveal_strlit("8");
        reveal_strlit("9");
    }
    let text = match d {
        0 => "0",
        1 => "1",
        2 => "2",
        3 => "3",
        4 => "4",
        5 => "5",
        6 => "6",
        7 => "7",
        8 => "8",
        _ => "9",
    };
    assert(text@ =~= seq![digit(d as int)]);
    text
}

/// A number in decimal digits.
pub fn decimal_text(n: u128) -> (text: String)
    ensures
        text@ == decimal(n as nat),
    decreases n,
{
    if n < 10 {
        String::from_str(digit_text(n))
    } else {
        let text = decimal_text(n / 10).concat(digit_text(n % 10));
        assert(text@ =~= decimal(n as nat));
        text
    }
}

/// How far a number is from zero.
fn magnitude_of(v: i128) -> (size: u128)
    ensures
        size == magnitude(v as int),
{
    if v < 0 {
        (-(v + 1)) as u128 + 1
    } else {
        v as u128
    }
}

/// A number of thousandths as a decimal fraction with no more digits than
/// it needs.
pub fn trimmed_text(thousandths: i128) -> (text: String)
    ensures
        text@ == trimmed(thousandths as int),
{
    let size = magnitude_of(thousandths);
    let rest = size % 1000;
    let sign = if thousandths < 0 {
        "-"
    } else {
        ""
    };
    proof {
        reveal_strlit("-");
        reveal_strlit("");
        reveal_strlit(".");
    }
    let mut text = String::from_str(sign).concat(decimal_text(size / 1000).as_str());
    if rest != 0 {
        text = text.concat(".").concat(digit_text(rest / 100));
        if rest % 100 != 0 {
            text = text.concat(digit_text(rest / 10 % 10));
            if rest % 10 != 0 {
                text = text.concat(digit_text(rest % 10));
            }
        }
    }
    assert(text@ =~= trimmed(thousandths as int));
    text
}

/// A number of thousandths as a decimal fraction with two digits after the
/// point.
pub fn two_decimals_text(thousandths: i128) -> (text: String)
    ensures
        text@ == two_decimals(thousandths as int),
{
    let hundredths = (magnitude_of(thousandths) + 5) / 10;
    let sign = if thousandths < 0 && hundredths > 0 {
        "-"
    } else {
        ""
    };
    proof {
        reveal_strlit("-");
        reveal_strlit("");
        reveal_strlit(".");
    }
    let text = String::from_str(sign).concat(decimal_text(hundredths / 100).as_str()).concat(
        ".",
    ).concat(digit_text(hundredths / 10 % 10)).concat(digit_text(hundredths % 10));
    assert(text@ =~= two_decimals(thousandths as int));
    text
}

} // verus!
