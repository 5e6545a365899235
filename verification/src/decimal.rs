//! Decimal rendering of player ids, for interpolation into command lines.

use vstd::prelude::*;

verus! {

/// The character of a single decimal digit.
pub open spec fn spec_digit(d: nat) -> char {
    if d == 0 {
        '0'
    } else if d == 1 {
        '1'
    } else if d == 2 {
        '2'
    } else if d == 3 {
        '3'
    } else if d == 4 {
        '4'
    } else if d == 5 {
        '5'
    } else if d == 6 {
        '6'
    } else if d == 7 {
        '7'
    } else if d == 8 {
        '8'
    } else {
        '9'
    }
}

/// The decimal digits of `n`, most significant first, with no leading zeros
/// (a lone zero for `n == 0`).
pub open spec fn spec_dec_u(n: nat) -> Seq<char>
    decreases n,
{
    if n < 10 {
        seq![spec_digit(n)]
    } else {
        spec_dec_u(n / 10).push(spec_digit(n % 10))
    }
}

/// The decimal rendering of a signed value: a minus sign before the digits of
/// its magnitude when negative.
pub open spec fn spec_dec_i64(v: int) -> Seq<char> {
    if v < 0 {
        seq!['-'] + spec_dec_u((-v) as nat)
    } else {
        spec_dec_u(v as nat)
    }
}

fn digit_str(d: u64) -> (r: &'static str)
    requires
        d < 10,
    ensures
        r@ == seq![spec_digit(d as nat)],
{
    let r = match d {
        0 => "0",
        1 => "1",
        2 => "2",
        3 => "3",
        4 => "4",
        5 => "5",
        6 => "6",
        7 => "7",
        8 => "8",
        _ => "9",
    };
    proof {
        reveal_strlit("0");
        reveal_strlit("1");
        reveal_strlit("2");
        reveal_strlit("3");
        reveal_strlit("4");
        reveal_strlit("5");
        reveal_strlit("6");
        reveal_strlit("7");
        reveal_strlit("8");
        reveal_strlit("9");
        assert(r@ =~= seq![spec_digit(d as nat)]);
    }
    r
}

/// Renders an unsigned value in decimal.
pub fn u64_dec(n: u64) -> (r: String)
    ensures
        r@ == spec_dec_u(n as nat),
    decreases n,
{
    if n < 10 {
        String::from_str(digit_str(n))
    } else {
        let r = u64_dec(n / 10).concat(digit_str(n % 10));
        proof {
            assert(r@ =~= spec_dec_u(n as nat));
        }
        r
    }
}

/// Renders a signed value in decimal, as a player id is written into a
/// command line.
pub fn i64_dec(v: i64) -> (r: String)
    ensures
        r@ == spec_dec_i64(v as int),
{
    if v < 0 {
        let m: u64 = (-(v as i128)) as u64;
        let r = String::from_str("-").concat(u64_dec(m).as_str());
        proof {
            reveal_strlit("-");
            assert(m as nat == (-(v as int)) as nat);
            assert(r@ =~= spec_dec_i64(v as int));
        }
        r
    } else {
        u64_dec(v as u64)
    }
}

} // verus!
