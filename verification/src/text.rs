//! Characters and decimal text.
//!
//! Digit and whitespace classes, and the decimal rendering of a `u128`,
//! shared by the duration parser, the tag-file reader, and the
//! human-readable duration formatter.

use vstd::prelude::*;
use vstd::string::*;

verus! {

/// `c` is an ASCII decimal digit.
pub open spec fn spec_is_digit(c: char) -> bool {
    48 <= c as u32 && c as u32 <= 57
}

/// Numeric value of an ASCII decimal digit.
pub open spec fn spec_digit_val(c: char) -> int {
    c as u32 - 48
}

/// The digit character for a value in `0..10`.
pub open spec fn spec_digit_char(d: int) -> char {
    if d == 0 {
        '0'
    } else if d == 1 {
        '1'
    } else if d == 2 {
        '2'
    } else if d == 3 {
        '3'
    } else if d == 4 {
        '4'
    } else if d == 5 {
        '5'
    } else if d == 6 {
        '6'
    } else if d == 7 {
        '7'
    } else if d == 8 {
        '8'
    } else {
        '9'
    }
}

/// Decimal rendering of a non-negative integer, most significant digit
/// first; zero renders as "0".
pub open spec fn spec_decimal_digits(n: int) -> Seq<char>
    decreases n,
{
    if n < 10 {
        seq![spec_digit_char(n)]
    } else {
        spec_decimal_digits(n / 10).push(spec_digit_char(n % 10))
    }
}

/// Value of a digit string, most significant digit first.
pub open spec fn spec_digits_value(t: Seq<char>) -> int
    decreases t.len(),
{
    if t.len() == 0 {
        0
    } else {
        spec_digits_value(t.drop_last()) * 10 + spec_digit_val(t.last())
    }
}

/// `c` is ASCII whitespace.
pub open spec fn spec_is_space(c: char) -> bool {
    c == ' ' || c == '\t' || c == '\n' || c == '\r'
}

pub fn is_digit_char(c: char) -> (r: bool)
    ensures
        r == spec_is_digit(c),
{
    let n = c as u32;
    48 <= n && n <= 57
}

pub fn is_space_char(c: char) -> (r: bool)
    ensures
        r == spec_is_space(c),
{
    c == ' ' || c == '\t' || c == '\n' || c == '\r'
}

pub fn digit_val(c: char) -> (d: u128)
    requires
        spec_is_digit(c),
    ensures
        d == spec_digit_val(c),
{
    (c as u32 - 48) as u128
}

/// The characters of `s`, in order.
pub fn str_to_chars(s: &str) -> (v: Vec<char>)
    ensures
        v@ == s@,
{
    let n = s.unicode_len();
    let mut v: Vec<char> = Vec::new();
    let mut k: usize = 0;
    while k < n
        invariant
            k <= n,
            n == s@.len(),
            v@ == s@.take(k as int),
        decreases n - k,
    {
        let c = s.get_char(k);
        v.push(c);
        proof {
            assert(v@ =~= s@.take(k as int + 1));
        }
        k += 1;
    }
    proof {
        assert(s@.take(n as int) =~= s@);
    }
    v
}

fn digit_str(d: u128) -> (r: &'static str)
    requires
        d < 10,
    ensures
        r@ == seq![spec_digit_char(d as int)],
{
    if d == 0 {
        proof {
            reveal_strlit("0");
            assert("0"@ =~= seq![spec_digit_char(0)]);
        }
        "0"
    } else if d == 1 {
        proof {
            reveal_strlit("1");
            assert("1"@ =~= seq![spec_digit_char(1)]);
        }
        "1"
    } else if d == 2 {
        proof {
            reveal_strlit("2");
            assert("2"@ =~= seq![spec_digit_char(2)]);
        }
        "2"
    } else if d == 3 {
        proof {
            reveal_strlit("3");
            assert("3"@ =~= seq![spec_digit_char(3)]);
        }
        "3"
    } else if d == 4 {
        proof {
            reveal_strlit("4");
            assert("4"@ =~= seq![spec_digit_char(4)]);
        }
        "4"
    } else if d == 5 {
        proof {
            reveal_strlit("5");
            assert("5"@ =~= seq![spec_digit_char(5)]);
        }
        "5"
    } else if d == 6 {
        proof {
            reveal_strlit("6");
            assert("6"@ =~= seq![spec_digit_char(6)]);
        }
        "6"
    } else if d == 7 {
        proof {
            reveal_strlit("7");
            assert("7"@ =~= seq![spec_digit_char(7)]);
        }
        "7"
    } else if d == 8 {
        proof {
            reveal_strlit("8");
            assert("8"@ =~= seq![spec_digit_char(8)]);
        }
        "8"
    } else {
        proof {
            reveal_strlit("9");
            assert("9"@ =~= seq![spec_digit_char(9)]);
        }
        "9"
    }
}

/// Decimal rendering of `n`, e.g. 1024 renders as "1024".
pub fn u128_to_string(n: u128) -> (s: String)
    ensures
        s@ == spec_decimal_digits(n as int),
{
    let mut m: u128 = n;
    let mut tail = String::new();
    proof {
        assert(spec_decimal_digits(n as int) =~= spec_decimal_digits(n as int) + tail@);
    }
    while m >= 10
        invariant
            spec_decimal_digits(n as int) == spec_decimal_digits(m as int) + tail@,
        decreases m,
    {
        let ds = digit_str(m % 10);
        let mut piece = ds.to_owned();
        piece.append(tail.as_str());
        proof {
            let mi = m as int;
            assert(spec_decimal_digits(mi) == spec_decimal_digits(mi / 10).push(
                spec_digit_char(mi % 10),
            ));
            assert(spec_decimal_digits(mi / 10).push(spec_digit_char(mi % 10)) =~= spec_decimal_digits(
                mi / 10,
            ) + seq![spec_digit_char(mi % 10)]);
            assert(spec_decimal_digits(n as int) =~= spec_decimal_digits(mi / 10) + piece@);
        }
        tail = piece;
        m = m / 10;
    }
    let mut out = digit_str(m).to_owned();
    out.append(tail.as_str());
    proof {
        assert(spec_decimal_digits(m as int) =~= seq![spec_digit_char(m as int)]);
        assert(out@ =~= spec_decimal_digits(n as int));
    }
    out
}

} // verus!
