//! Decimal rendering of the integers that appear in wall codes and in the
//! level file: plain unsigned and signed numbers, and fixed-point times
//! (centiseconds shown with two decimals, milliseconds with three).
use vstd::prelude::*;

verus! {

/// The digit character of `d`, for `0 <= d <= 9`.
pub open spec fn dec_digit_char(d: int) -> char {
    if d == 0 {
        '0'
    } else if d == 1 {
        '1'
    } else if d == 2 {
        '2'
    } else if d == 3 {
        '3'
    } else if d == 4 {
        '4'
    } else if d == 5 {
        '5'
    } else if d == 6 {
        '6'
    } else if d == 7 {
        '7'
    } else if d == 8 {
        '8'
    } else {
        '9'
    }
}

/// The decimal digits of a non-negative number, most significant first,
/// without leading zeros (a lone `0` for zero).
pub open spec fn dec_u(n: int) -> Seq<char>
    decreases n,
{
    if n < 10 {
        seq![dec_digit_char(n)]
    } else {
        dec_u(n / 10).push(dec_digit_char(n % 10))
    }
}

/// The decimal digits of a number, with a leading minus sign if negative.
pub open spec fn dec_i(x: int) -> Seq<char> {
    if x < 0 {
        seq!['-'] + dec_u(-x)
    } else {
        dec_u(x)
    }
}

/// A count of centiseconds shown as seconds with exactly two decimals.
pub open spec fn dec_centis(cs: int) -> Seq<char> {
    dec_u(cs / 100) + seq!['.', dec_digit_char(cs % 100 / 10), dec_digit_char(cs % 10)]
}

/// A count of milliseconds shown as seconds with exactly three decimals.
pub open spec fn dec_millis(ms: int) -> Seq<char> {
    dec_u(ms / 1000) + seq![
        '.',
        dec_digit_char(ms % 1000 / 100),
        dec_digit_char(ms % 100 / 10),
        dec_digit_char(ms % 10),
    ]
}

/// The one-character string of the digit `d`.
fn digit_str(d: u64) -> (s: &'static str)
    requires
        d < 10,
    ensures
        s@ == seq![dec_digit_char(d as int)],
{
    proof {
        reveal_strlit("0");
        reveal_strlit("1");
        reveal_strlit("2");
        reveal_strlit("3");
        reveal_strlit("4");
        reveal_strlit("5");
        reveal_strlit("6");
        reveal_strlit("7");
        reveal_strlit("8");
        reveal_strlit("9");
    }
    let s: &'static str = if d == 0 {
        "0"
    } else if d == 1 {
        "1"
    } else if d == 2 {
        "2"
    } else if d == 3 {
        "3"
    } else if d == 4 {
        "4"
    } else if d == 5 {
        "5"
    } else if d == 6 {
        "6"
    } else if d == 7 {
        "7"
    } else if d == 8 {
        "8"
    } else {
        "9"
    };
    proof {
        assert(s@ =~= seq![dec_digit_char(d as int)]);
    }
    s
}

/// Renders `n` in decimal.
pub fn u64_to_string(n: u64) -> (s: String)
    ensures
        s@ == dec_u(n as int),
    decreases n,
{
    if n < 10 {
        let s = String::from_str(digit_str(n));
        s
    } else {
        let mut s = u64_to_string(n / 10);
        s.append(digit_str(n % 10));
        s
    }
}

/// Renders `x` in decimal, with a minus sign if negative.
pub fn i64_to_string(x: i64) -> (s: String)
    ensures
        s@ == dec_i(x as int),
{
    if x < 0 {
        let mut s = String::from_str("-");
        let m: u64 = if x == i64::MIN {
            0x8000_0000_0000_0000u64
        } else {
            (-x) as u64
        };
        s.append(u64_to_string(m).as_str());
        proof {
            reveal_strlit("-");
            assert(s@ =~= seq!['-'] + dec_u(-(x as int)));
        }
        s
    } else {
        u64_to_string(x as u64)
    }
}

/// Renders a count of centiseconds as seconds with two decimals.
pub fn centis_to_string(cs: u64) -> (s: String)
    ensures
        s@ == dec_centis(cs as int),
{
    let mut s = u64_to_string(cs / 100);
    s.append(".");
    s.append(digit_str(cs % 100 / 10));
    s.append(digit_str(cs % 10));
    proof {
        reveal_strlit(".");
        assert(s@ =~= dec_centis(cs as int));
    }
    s
}

/// Renders a count of milliseconds as seconds with three decimals.
pub fn millis_to_string(ms: u64) -> (s: String)
    ensures
        s@ == dec_millis(ms as int),
{
    let mut s = u64_to_string(ms / 1000);
    s.append(".");
    s.append(digit_str(ms % 1000 / 100));
    s.append(digit_str(ms % 100 / 10));
    s.append(digit_str(ms % 10));
    proof {
        reveal_strlit(".");
        assert(s@ =~= dec_millis(ms as int));
    }
    s
}

} // verus!
