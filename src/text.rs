use vstd::prelude::*;
use vstd::string::StringExecFns;
use crate::surd::{Surd, bounded};
use crate::decimal::{rounded, round_scaled, DIGITS, SCALE};

verus! {

pub open spec fn digit_char(d: int) -> char {
    seq!['0', '1', '2', '3', '4', '5', '6', '7', '8', '9'][d]
}

/// The decimal digits of `n`, without leading zeros; `0` is written `0`.
pub open spec fn digits(n: nat) -> Seq<char>
    decreases n,
{
    if n < 10 {
        seq![digit_char(n as int)]
    } else {
        digits(n / 10).push(digit_char((n % 10) as int))
    }
}

/// The last `width` decimal digits of `f`, leading zeros kept.
pub open spec fn fixed_digits(f: nat, width: nat) -> Seq<char>
    decreases width,
{
    if width == 0 {
        Seq::empty()
    } else {
        fixed_digits(f / 10, (width - 1) as nat).push(digit_char((f % 10) as int))
    }
}

/// The digits of the fraction `f / 10^width`, trailing zeros dropped.
pub open spec fn fraction_digits(f: nat, width: nat) -> Seq<char>
    decreases width,
{
    if width > 0 && f % 10 == 0 {
        fraction_digits(f / 10, (width - 1) as nat)
    } else {
        fixed_digits(f, width)
    }
}

/// `q / 10^DIGITS` in decimal: a sign when negative, the integer part, and a
/// point with the fraction only when the fraction is not zero.
pub open spec fn decimal_text(q: int) -> Seq<char> {
    let a = if q < 0 { -q } else { q };
    let sign = if q < 0 { seq!['-'] } else { Seq::empty() };
    let frac = fraction_digits((a % SCALE as int) as nat, DIGITS as nat);
    let tail = if frac.len() == 0 { Seq::empty() } else { seq!['.'] + frac };
    sign + digits((a / SCALE as int) as nat) + tail
}

/// `v` in decimal, rounded to `DIGITS` places.
pub open spec fn number_text(v: Surd) -> Seq<char> {
    decimal_text(rounded(v))
}

fn digit_str(d: u64) -> (r: &'static str)
    requires
        d < 10,
    ensures
        r@ == seq![digit_char(d as int)],
{
    proof {
        reveal_strlit("0");
        reveal_strlit("1");
        reveal_strlit("2");
        reveal_strlit("3");
        reveal_strlit("4");
        reveal_strlit("5");
        reveal_strlit("6");
        reveal_strlit("7");
        reveal_strlit("8");
        reveal_strlit("9");
    }
    match d {
        0 => "0",
        1 => "1",
        2 => "2",
        3 => "3",
        4 => "4",
        5 => "5",
        6 => "6",
        7 => "7",
        8 => "8",
        _ => "9",
    }
}

/// Appends the decimal digits of `n`.
pub fn write_digits(s: &mut String, n: u64)
    ensures
        final(s)@ == old(s)@ + digits(n as nat),
    decreases n,
{
    if n >= 10 {
        write_digits(s, n / 10);
    }
    s.append(digit_str(n % 10));
    proof {
        if n >= 10 {
            assert(final(s)@ =~= old(s)@ + digits(n as nat));
        } else {
            assert(final(s)@ =~= old(s)@ + digits(n as nat));
        }
    }
}

fn write_fixed(s: &mut String, f: u64, width: u32)
    ensures
        final(s)@ == old(s)@ + fixed_digits(f as nat, width as nat),
    decreases width,
{
    if width > 0 {
        write_fixed(s, f / 10, width - 1);
        s.append(digit_str(f % 10));
        assert(final(s)@ =~= old(s)@ + fixed_digits(f as nat, width as nat));
    } else {
        assert(final(s)@ =~= old(s)@ + fixed_digits(f as nat, width as nat));
    }
}

/// Appends `q / 10^DIGITS` in decimal.
pub fn write_decimal(s: &mut String, q: i64)
    requires
        q > i64::MIN,
    ensures
        final(s)@ == old(s)@ + decimal_text(q as int),
{
    let ghost start = s@;
    let a: u64 = if q < 0 { (-q) as u64 } else { q as u64 };
    if q < 0 {
        proof {
            reveal_strlit("-");
        }
        s.append("-");
    }
    let ghost signed = s@;
    write_digits(s, a / SCALE as u64);
    let mut f: u64 = a % SCALE as u64;
    let mut w: u32 = DIGITS;
    while w > 0 && f % 10 == 0
        invariant
            w <= DIGITS,
            fraction_digits(f as nat, w as nat) == fraction_digits((a % SCALE as u64) as nat, DIGITS as nat),
        decreases w,
    {
        f = f / 10;
        w = w - 1;
    }
    let ghost frac = fraction_digits((a % SCALE as u64) as nat, DIGITS as nat);
    assert(frac == fixed_digits(f as nat, w as nat));
    if w > 0 {
        proof {
            reveal_strlit(".");
        }
        s.append(".");
        write_fixed(s, f, w);
        assert(frac.len() == w) by {
            lemma_fixed_len(f as nat, w as nat);
        }
    } else {
        assert(frac.len() == 0);
    }
    assert(s@ =~= start + decimal_text(q as int));
}

proof fn lemma_fixed_len(f: nat, width: nat)
    ensures
        fixed_digits(f, width).len() == width,
    decreases width,
{
    if width > 0 {
        lemma_fixed_len(f / 10, (width - 1) as nat);
    }
}

/// Appends `v` in decimal, rounded to `DIGITS` places.
pub fn write_number(s: &mut String, v: Surd)
    requires
        bounded(v),
    ensures
        final(s)@ == old(s)@ + number_text(v),
{
    let q = round_scaled(v);
    write_decimal(s, q);
}

} // verus!
