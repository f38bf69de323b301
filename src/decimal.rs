//! Decimal rendering of integers as ASCII bytes, as `{}` formats them.
use vstd::prelude::*;

verus! {

/// The ASCII byte of the digit `d`.
pub open spec fn digit_byte(d: nat) -> u8 {
    (48 + d) as u8
}

/// `n` in decimal, without leading zeros, as ASCII bytes.
pub open spec fn decimal_of(n: nat) -> Seq<u8>
    decreases n,
{
    if n < 10 {
        seq![digit_byte(n)]
    } else {
        decimal_of(n / 10).push(digit_byte(n % 10))
    }
}

/// `n` in decimal, with a leading `-` when negative, as ASCII bytes.
pub open spec fn signed_decimal_of(n: int) -> Seq<u8> {
    if n < 0 {
        seq![45u8] + decimal_of((-n) as nat)
    } else {
        decimal_of(n as nat)
    }
}

/// Every byte of a decimal rendering is a digit.
pub proof fn lemma_decimal_digits(n: nat)
    ensures
        decimal_of(n).len() >= 1,
        forall|i: int| 0 <= i < decimal_of(n).len() ==> 48 <= #[trigger] decimal_of(n)[i] <= 57,
    decreases n,
{
    if n >= 10 {
        lemma_decimal_digits(n / 10);
    }
}

/// Distinct numbers have distinct decimal renderings.
pub proof fn lemma_decimal_injective(a: nat, b: nat)
    requires
        decimal_of(a) == decimal_of(b),
    ensures
        a == b,
    decreases a,
{
    lemma_decimal_digits(a / 10);
    lemma_decimal_digits(b / 10);
    if a >= 10 && b >= 10 {
        let da = decimal_of(a);
        assert(decimal_of(a / 10) =~= da.subrange(0, da.len() - 1));
        assert(decimal_of(b / 10) =~= da.subrange(0, da.len() - 1));
        assert(da[da.len() - 1] == digit_byte(a % 10));
        assert(da[da.len() - 1] == digit_byte(b % 10));
        assert(a % 10 == b % 10);
        lemma_decimal_injective(a / 10, b / 10);
        assert(a == 10 * (a / 10) + a % 10);
        assert(b == 10 * (b / 10) + b % 10);
    } else if a < 10 && b < 10 {
        assert(decimal_of(a)[0] == digit_byte(a));
        assert(decimal_of(b)[0] == digit_byte(b));
    } else if a < 10 {
        assert(decimal_of(b).len() == decimal_of(b / 10).len() + 1);
    } else {
        assert(decimal_of(a).len() == decimal_of(a / 10).len() + 1);
    }
}

/// Distinct integers have distinct signed decimal renderings.
pub proof fn lemma_signed_decimal_injective(a: int, b: int)
    requires
        signed_decimal_of(a) == signed_decimal_of(b),
    ensures
        a == b,
{
    let sa = signed_decimal_of(a);
    if a < 0 {
        lemma_decimal_digits((-a) as nat);
        assert(sa[0] == 45u8);
    }
    if b < 0 {
        lemma_decimal_digits((-b) as nat);
        assert(signed_decimal_of(b)[0] == 45u8);
    }
    if a < 0 && b >= 0 {
        lemma_decimal_digits(b as nat);
        assert(decimal_of(b as nat)[0] != 45u8);
    } else if a >= 0 && b < 0 {
        lemma_decimal_digits(a as nat);
        assert(decimal_of(a as nat)[0] != 45u8);
    } else if a < 0 && b < 0 {
        assert(decimal_of((-a) as nat) =~= sa.subrange(1, sa.len() as int));
        assert(decimal_of((-b) as nat) =~= sa.subrange(1, sa.len() as int));
        lemma_decimal_injective((-a) as nat, (-b) as nat);
    } else {
        lemma_decimal_injective(a as nat, b as nat);
    }
}

/// Appends the decimal rendering of `n` to `out`.
pub fn push_decimal(out: &mut Vec<u8>, n: u64)
    ensures
        final(out)@ == old(out)@ + decimal_of(n as nat),
    decreases n,
{
    if n >= 10 {
        push_decimal(out, n / 10);
    }
    let d: u8 = (n % 10) as u8;
    out.push(48 + d);
    proof {
        if n >= 10 {
            assert(decimal_of(n as nat) == decimal_of((n / 10) as nat).push(digit_byte(
                (n % 10) as nat,
            )));
        }
    }
    assert(final(out)@ =~= old(out)@ + decimal_of(n as nat));
}

/// Appends the signed decimal rendering of `n` to `out`.
pub fn push_signed_decimal(out: &mut Vec<u8>, n: i64)
    ensures
        final(out)@ == old(out)@ + signed_decimal_of(n as int),
{
    if n < 0 {
        out.push(45u8);
        let magnitude: u64 = ((-(n + 1)) as u64) + 1;
        push_decimal(out, magnitude);
        assert(out@ =~= old(out)@ + signed_decimal_of(n as int));
    } else {
        push_decimal(out, n as u64);
    }
}

} // verus!
