//! Verified decimal formatting: turning machine integers into their
//! decimal text, and building the numbered `var_N` names that the
//! analysis and lowering passes hand out.

use vstd::prelude::*;

verus! {

/// The decimal digit character for one digit value.
pub open spec fn dec_digit(d: nat) -> char {
    if d == 0 {
        '0'
    } else if d == 1 {
        '1'
    } else if d == 2 {
        '2'
    } else if d == 3 {
        '3'
    } else if d == 4 {
        '4'
    } else if d == 5 {
        '5'
    } else if d == 6 {
        '6'
    } else if d == 7 {
        '7'
    } else if d == 8 {
        '8'
    } else {
        '9'
    }
}

/// The decimal text of a nonnegative integer, most significant digit
/// first, with no leading zeros (except for zero itself).
pub open spec fn u64_dec_seq(n: nat) -> Seq<char>
    decreases n,
{
    if n < 10 {
        seq![dec_digit(n)]
    } else {
        u64_dec_seq(n / 10) + seq![dec_digit(n % 10)]
    }
}

/// The decimal text of a signed integer: a minus sign for negative
/// values, then the magnitude's decimal text.
pub open spec fn i64_dec_seq(v: int) -> Seq<char> {
    if v >= 0 {
        u64_dec_seq(v as nat)
    } else {
        seq!['-'] + u64_dec_seq((-v) as nat)
    }
}

/// The numbered variable name `var_N`.
pub open spec fn var_name_seq(n: nat) -> Seq<char> {
    "var_"@ + u64_dec_seq(n)
}

/// The one-character text of a single decimal digit.
fn dec_digit_str(d: u64) -> (r: &'static str)
    requires
        d < 10,
    ensures
        r@ =~= seq![dec_digit(d as nat)],
{
    proof {
        reveal_strlit("0");
        reveal_strlit("1");
        reveal_strlit("2");
        reveal_strlit("3");
        reveal_strlit("4");
        reveal_strlit("5");
        reveal_strlit("6");
        reveal_strlit("7");
        reveal_strlit("8");
        reveal_strlit("9");
    }
    if d == 0 {
        "0"
    } else if d == 1 {
        "1"
    } else if d == 2 {
        "2"
    } else if d == 3 {
        "3"
    } else if d == 4 {
        "4"
    } else if d == 5 {
        "5"
    } else if d == 6 {
        "6"
    } else if d == 7 {
        "7"
    } else if d == 8 {
        "8"
    } else {
        "9"
    }
}

/// Formats an unsigned integer in decimal.
pub fn u64_to_dec_string(n: u64) -> (s: String)
    ensures
        s@ == u64_dec_seq(n as nat),
    decreases n,
{
    if n < 10 {
        String::from_str(dec_digit_str(n))
    } else {
        let mut s = u64_to_dec_string(n / 10);
        s.append(dec_digit_str(n % 10));
        s
    }
}

/// Formats a signed integer in decimal.
pub fn i64_to_dec_string(v: i64) -> (s: String)
    ensures
        s@ == i64_dec_seq(v as int),
{
    if v >= 0 {
        u64_to_dec_string(v as u64)
    } else {
        let magnitude: u64 = (-(v + 1)) as u64 + 1;
        assert(magnitude == -(v as int));
        let mut s = String::from_str("-");
        s.append(u64_to_dec_string(magnitude).as_str());
        proof {
            reveal_strlit("-");
            assert(s@ =~= i64_dec_seq(v as int));
        }
        s
    }
}

/// Builds the numbered variable name `var_N`.
pub fn make_var_name(n: u64) -> (s: String)
    ensures
        s@ == var_name_seq(n as nat),
{
    let mut s = String::from_str("var_");
    s.append(u64_to_dec_string(n).as_str());
    proof {
        assert(s@ =~= var_name_seq(n as nat));
    }
    s
}

} // verus!
