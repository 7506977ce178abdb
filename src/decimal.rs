//! Decimal rendering of integers, as `{}` formatting writes them.
use vstd::prelude::*;

verus! {

/// The character of a decimal digit.
pub open spec fn digit_char(d: nat) -> char {
    seq!['0', '1', '2', '3', '4', '5', '6', '7', '8', '9'][d as int]
}

/// The decimal digits of `n`, most significant first, without leading zeros.
pub open spec fn decimal(n: nat) -> Seq<char>
    decreases n,
{
    if n < 10 {
        seq![digit_char(n)]
    } else {
        decimal(n / 10).push(digit_char(n % 10))
    }
}

/// A signed integer in decimal: a minus sign before the magnitude of a
/// negative value.
pub open spec fn signed_decimal(a: int) -> Seq<char> {
    if a < 0 {
        seq!['-'] + decimal((-a) as nat)
    } else {
        decimal(a as nat)
    }
}

fn digit_str(d: u64) -> (r: &'static str)
    requires
        d < 10,
    ensures
        r@ == seq![digit_char(d as nat)],
{
    if d == 0 {
        proof { reveal_strlit("0"); }
        "0"
    } else if d == 1 {
        proof { reveal_strlit("1"); }
        "1"
    } else if d == 2 {
        proof { reveal_strlit("2"); }
        "2"
    } else if d == 3 {
        proof { reveal_strlit("3"); }
        "3"
    } else if d == 4 {
        proof { reveal_strlit("4"); }
        "4"
    } else if d == 5 {
        proof { reveal_strlit("5"); }
        "5"
    } else if d == 6 {
        proof { reveal_strlit("6"); }
        "6"
    } else if d == 7 {
        proof { reveal_strlit("7"); }
        "7"
    } else if d == 8 {
        proof { reveal_strlit("8"); }
        "8"
    } else {
        proof { reveal_strlit("9"); }
        "9"
    }
}

/// Appends the decimal digits of `n` to `s`.
pub fn push_decimal(s: &mut String, n: u64)
    ensures
        final(s)@ == old(s)@ + decimal(n as nat),
    decreases n,
{
    let ghost start = s@;
    if n >= 10 {
        push_decimal(s, n / 10);
    }
    s.append(digit_str(n % 10));
    proof {
        if n >= 10 {
            assert(s@ =~= start + decimal(n as nat / 10).push(digit_char(n as nat % 10)));
        } else {
            assert(s@ =~= start + decimal(n as nat));
        }
    }
}

/// Appends `a` in decimal to `s`, with a leading minus sign when negative.
pub fn push_signed_decimal(s: &mut String, a: i64)
    ensures
        final(s)@ == old(s)@ + signed_decimal(a as int),
{
    if a < 0 {
        proof { reveal_strlit("-"); }
        let ghost start = s@;
        s.append("-");
        let magnitude: u64 = (-(a as i128)) as u64;
        push_decimal(s, magnitude);
        assert(s@ =~= start + signed_decimal(a as int));
    } else {
        push_decimal(s, a as u64);
    }
}

} // verus!
