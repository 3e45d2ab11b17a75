//! Decimal rendering of the integer fields that feed the block digest.
//!
//! The digest input concatenates a block's fields as text, so the exact
//! decimal spelling of each integer matters. `dec_nat` and `dec_int` are
//! the mathematical statement of that spelling; the executable renderers
//! are proved to produce it.

use vstd::prelude::*;

verus! {

/// The character that spells a single decimal digit.
pub open spec fn dec_digit(d: nat) -> char {
    if d == 0 {
        '0'
    } else if d == 1 {
        '1'
    } else if d == 2 {
        '2'
    } else if d == 3 {
        '3'
    } else if d == 4 {
        '4'
    } else if d == 5 {
        '5'
    } else if d == 6 {
        '6'
    } else if d == 7 {
        '7'
    } else if d == 8 {
        '8'
    } else {
        '9'
    }
}

/// The decimal spelling of a natural number: most significant digit first,
/// no sign, no leading zeros (except for the single digit of zero itself).
pub open spec fn dec_nat(n: nat) -> Seq<char>
    decreases n,
{
    if n < 10 {
        seq![dec_digit(n)]
    } else {
        dec_nat(n / 10) + seq![dec_digit(n % 10)]
    }
}

/// The decimal spelling of an integer: a leading `'-'` for negative values.
pub open spec fn dec_int(v: int) -> Seq<char> {
    if v >= 0 {
        dec_nat(v as nat)
    } else {
        seq!['-'] + dec_nat((-v) as nat)
    }
}

/// A one-character string slice for a single decimal digit.
fn digit_str(d: u64) -> (r: &'static str)
    requires
        d < 10,
    ensures
        r@ == seq![dec_digit(d as nat)],
{
    let r: &'static str = if d == 0 {
        "0"
    } else if d == 1 {
        "1"
    } else if d == 2 {
        "2"
    } else if d == 3 {
        "3"
    } else if d == 4 {
        "4"
    } else if d == 5 {
        "5"
    } else if d == 6 {
        "6"
    } else if d == 7 {
        "7"
    } else if d == 8 {
        "8"
    } else {
        "9"
    };
    proof {
        reveal_strlit("0");
        reveal_strlit("1");
        reveal_strlit("2");
        reveal_strlit("3");
        reveal_strlit("4");
        reveal_strlit("5");
        reveal_strlit("6");
        reveal_strlit("7");
        reveal_strlit("8");
        reveal_strlit("9");
        assert(r@ =~= seq![dec_digit(d as nat)]);
    }
    r
}

/// Renders an unsigned integer in decimal, least significant digit found
/// first and prepended, so the result reads most significant digit first.
pub fn u64_to_dec(n: u64) -> (r: String)
    ensures
        r@ == dec_nat(n as nat),
{
    let d0 = digit_str(n % 10);
    let mut out = String::from_str(d0);
    let mut m: u64 = n / 10;
    proof {
        assert(m == 0 ==> dec_nat(n as nat) =~= out@);
    }
    while m > 0
        invariant
            m > 0 ==> dec_nat(n as nat) == dec_nat(m as nat) + out@,
            m == 0 ==> dec_nat(n as nat) == out@,
        decreases m,
    {
        let ghost m_old: u64 = m;
        let ds = digit_str(m % 10);
        let piece = String::from_str(ds);
        out = piece.concat(out.as_str());
        m = m / 10;
        proof {
            if m_old < 10 {
                assert(dec_nat(m_old as nat) == seq![dec_digit((m_old % 10) as nat)]);
                assert(dec_nat(n as nat) =~= out@);
            } else {
                assert(dec_nat(m_old as nat) == dec_nat((m_old as nat) / 10) + seq![
                    dec_digit((m_old % 10) as nat),
                ]);
                assert((m_old as nat) / 10 == m as nat);
                assert(dec_nat(n as nat) =~= dec_nat(m as nat) + out@);
            }
        }
    }
    out
}

/// Renders a signed integer in decimal, with a `'-'` sign when negative.
pub fn i64_to_dec(v: i64) -> (r: String)
    ensures
        r@ == dec_int(v as int),
{
    if v >= 0 {
        u64_to_dec(v as u64)
    } else {
        let m: u64 = ((-(v + 1)) as u64) + 1;
        proof {
            assert(m as int == -(v as int));
            reveal_strlit("-");
        }
        let sign = String::from_str("-");
        let magnitude = u64_to_dec(m);
        let r = sign.concat(magnitude.as_str());
        proof {
            assert(r@ =~= dec_int(v as int));
        }
        r
    }
}

} // verus!
