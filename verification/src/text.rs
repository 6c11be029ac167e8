//! Text helpers: decimal numerals and the width of a string in cells.

use vstd::prelude::*;
use vstd::string::*;

verus! {

/// The numeral of a single digit.
pub open spec fn spec_digit(d: int) -> char {
    if d == 0 {
        '0'
    } else if d == 1 {
        '1'
    } else if d == 2 {
        '2'
    } else if d == 3 {
        '3'
    } else if d == 4 {
        '4'
    } else if d == 5 {
        '5'
    } else if d == 6 {
        '6'
    } else if d == 7 {
        '7'
    } else if d == 8 {
        '8'
    } else {
        '9'
    }
}

/// The decimal numeral of a natural number, without leading zeros.
pub open spec fn spec_decimal_nat(n: nat) -> Seq<char>
    decreases n,
{
    if n < 10 {
        seq![spec_digit(n as int)]
    } else {
        spec_decimal_nat(n / 10).push(spec_digit((n % 10) as int))
    }
}

/// The decimal numeral of an integer, with a minus sign if it is negative.
pub open spec fn spec_decimal(n: int) -> Seq<char> {
    if n < 0 {
        seq!['-'] + spec_decimal_nat((-n) as nat)
    } else {
        spec_decimal_nat(n as nat)
    }
}

/// The numeral of a machine integer is short.
pub proof fn lemma_decimal_len(n: int)
    requires
        -0x8000_0000_0000_0000 <= n <= 0x7fff_ffff_ffff_ffff,
    ensures
        1 <= spec_decimal(n).len() <= 21,
{
    if n < 0 {
        lemma_decimal_width((-n) as nat);
    } else {
        lemma_decimal_width(n as nat);
    }
}

proof fn lemma_decimal_width(n: nat)
    requires
        n <= 0x8000_0000_0000_0000,
    ensures
        1 <= spec_decimal_nat(n).len() <= 20,
{
    reveal_with_fuel(spec_decimal_nat, 21);
}

fn digit_str(d: u64) -> (s: &'static str)
    requires
        d < 10,
    ensures
        s@ == seq![spec_digit(d as int)],
{
    proof {
        reveal_strlit("0");
        reveal_strlit("1");
        reveal_strlit("2");
        reveal_strlit("3");
        reveal_strlit("4");
        reveal_strlit("5");
        reveal_strlit("6");
        reveal_strlit("7");
        reveal_strlit("8");
        reveal_strlit("9");
    }
    let s: &'static str = if d == 0 {
        "0"
    } else if d == 1 {
        "1"
    } else if d == 2 {
        "2"
    } else if d == 3 {
        "3"
    } else if d == 4 {
        "4"
    } else if d == 5 {
        "5"
    } else if d == 6 {
        "6"
    } else if d == 7 {
        "7"
    } else if d == 8 {
        "8"
    } else {
        "9"
    };
    s
}

/// The decimal numeral of `n`.
pub fn decimal_nat(n: u64) -> (s: String)
    ensures
        s@ == spec_decimal_nat(n as nat),
    decreases n,
{
    if n < 10 {
        String::from_str(digit_str(n))
    } else {
        let mut s = decimal_nat(n / 10);
        let d = digit_str(n % 10);
        s.append(d);
        s
    }
}

/// The decimal numeral of `n`, with a minus sign if it is negative.
pub fn decimal(n: i64) -> (s: String)
    ensures
        s@ == spec_decimal(n as int),
{
    if n < 0 {
        let m: u64 = if n == i64::MIN {
            0x8000_0000_0000_0000u64
        } else {
            (-n) as u64
        };
        let mut s = String::from_str("-");
        let digits = decimal_nat(m);
        s.append(digits.as_str());
        proof {
            reveal_strlit("-");
        }
        s
    } else {
        decimal_nat(n as u64)
    }
}

/// The number of characters of a string, which is the number of cells it
/// takes up when printed.
pub fn text_width(s: &str) -> (n: usize)
    ensures
        n == s@.len(),
{
    s.unicode_len()
}

/// `a` followed by `b`.
pub fn join2(a: &str, b: &str) -> (s: String)
    ensures
        s@ == a@ + b@,
{
    let mut s = String::from_str(a);
    s.append(b);
    s
}

/// `a` followed by `b` and by `c`.
pub fn join3(a: &str, b: &str, c: &str) -> (s: String)
    ensures
        s@ == a@ + b@ + c@,
{
    let mut s = String::from_str(a);
    s.append(b);
    s.append(c);
    s
}

} // verus!
