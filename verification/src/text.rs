//! Numbers written out as text, for the messages of errors and arguments.
use vstd::prelude::*;
use vstd::string::StringExecFns;

verus! {

/// The character of digit `d`, in base 16 at most: `0`-`9`, then `a`-`f`.
pub open spec fn digit(d: nat) -> char {
    if d < 10 {
        (48 + d) as char
    } else {
        (87 + d) as char
    }
}

/// The digits of `x` in base `b`, most significant first, without leading
/// zeros (`0` is written `0`).
pub open spec fn digits(x: nat, b: nat) -> Seq<char>
    decreases x,
{
    if b < 2 || x < b {
        seq![digit(x)]
    } else {
        proof {
            assert(x / b < x) by (nonlinear_arith)
                requires
                    b >= 2,
                    x >= b,
            ;
        }
        digits(x / b, b).push(digit(x % b))
    }
}

/// The text of digit `d`.
fn digit_str(d: u64) -> (r: &'static str)
    requires
        d < 16,
    ensures
        r@ == seq![digit(d as nat)],
{
    proof {
        reveal_strlit("0");
        reveal_strlit("1");
        reveal_strlit("2");
        reveal_strlit("3");
        reveal_strlit("4");
        reveal_strlit("5");
        reveal_strlit("6");
        reveal_strlit("7");
        reveal_strlit("8");
        reveal_strlit("9");
        reveal_strlit("a");
        reveal_strlit("b");
        reveal_strlit("c");
        reveal_strlit("d");
        reveal_strlit("e");
        reveal_strlit("f");
    }
    match d {
        0 => "0",
        1 => "1",
        2 => "2",
        3 => "3",
        4 => "4",
        5 => "5",
        6 => "6",
        7 => "7",
        8 => "8",
        9 => "9",
        10 => "a",
        11 => "b",
        12 => "c",
        13 => "d",
        14 => "e",
        _ => "f",
    }
}

/// Appends the digits of `x` in base `b`.
pub fn push_digits(s: &mut String, x: u64, b: u64)
    requires
        b == 10 || b == 16,
    ensures
        final(s)@ == old(s)@ + digits(x as nat, b as nat),
    decreases x,
{
    if x >= b {
        push_digits(s, x / b, b);
        let ghost mid = s@;
        s.append(digit_str(x % b));
        assert(s@ =~= old(s)@ + digits(x as nat, b as nat));
    } else {
        s.append(digit_str(x));
        assert(s@ =~= old(s)@ + digits(x as nat, b as nat));
    }
}

/// The decimal text of the integer `x`, with a `-` before a negative one.
pub open spec fn signed_decimal(x: int) -> Seq<char> {
    if x < 0 {
        seq!['-'] + digits((-x) as nat, 10)
    } else {
        digits(x as nat, 10)
    }
}

/// Appends the decimal text of `x`.
pub fn push_signed(s: &mut String, x: i64)
    ensures
        final(s)@ == old(s)@ + signed_decimal(x as int),
{
    if x < 0 {
        proof {
            reveal_strlit("-");
        }
        s.append("-");
        let m: u64 = if x == i64::MIN {
            0x8000_0000_0000_0000u64
        } else {
            (-x) as u64
        };
        push_digits(s, m, 10);
        assert(s@ =~= old(s)@ + signed_decimal(x as int));
    } else {
        push_digits(s, x as u64, 10);
    }
}

} // verus!
