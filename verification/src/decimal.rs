//! Decimal text of unsigned integers, as the raster headers and the plain-text
//! pixel lines need it.

use vstd::prelude::*;

verus! {

/// The ASCII digit that stands for `d`, for `d` below ten.
pub open spec fn digit(d: nat) -> u8 {
    (48 + d) as u8
}

/// The decimal digits of `n` as ASCII bytes, most significant first and
/// without leading zeros; zero is the single digit `0`.
pub open spec fn decimal(n: nat) -> Seq<u8>
    decreases n,
{
    if n < 10 {
        seq![digit(n)]
    } else {
        decimal(n / 10).push(digit(n % 10))
    }
}

/// The number that a sequence of ASCII digits denotes in base ten.
pub open spec fn decimal_value(s: Seq<u8>) -> nat
    decreases s.len(),
{
    if s.len() == 0 {
        0
    } else {
        (10 * decimal_value(s.drop_last()) + (s.last() - 48)) as nat
    }
}

/// Reading the digits of `n` back gives `n`: the text loses nothing.
pub proof fn lemma_decimal_round_trip(n: nat)
    ensures
        decimal_value(decimal(n)) == n,
    decreases n,
{
    if n < 10 {
        let s = decimal(n);
        assert(s.drop_last() =~= Seq::<u8>::empty());
        assert(decimal_value(s.drop_last()) == 0);
    } else {
        lemma_decimal_round_trip(n / 10);
        let s = decimal(n);
        assert(s.drop_last() =~= decimal(n / 10));
    }
}

/// Every byte of the text is a digit, there is at least one, and the first
/// is `0` only for zero itself.
pub proof fn lemma_decimal_shape(n: nat)
    ensures
        decimal(n).len() >= 1,
        forall|i: int| 0 <= i < decimal(n).len() ==> 48 <= #[trigger] decimal(n)[i] <= 57,
        n > 0 ==> decimal(n)[0] != 48,
    decreases n,
{
    if n >= 10 {
        lemma_decimal_shape(n / 10);
    }
}

/// Appends the decimal text of `n` to `out`.
pub fn push_decimal(out: &mut Vec<u8>, n: u64)
    ensures
        final(out)@ == old(out)@ + decimal(n as nat),
{
    let mut low_first: Vec<u8> = Vec::new();
    let mut rest: u64 = n;
    while rest >= 10
        invariant
            decimal(n as nat) == decimal(rest as nat) + low_first@.reverse(),
        decreases rest,
    {
        let d: u8 = (rest % 10) as u8;
        proof {
            let grown = low_first@.push((48 + d) as u8);
            assert(grown.reverse() =~= seq![(48 + d) as u8] + low_first@.reverse());
            assert(decimal(rest as nat) == decimal((rest / 10) as nat).push(digit((rest % 10) as nat)));
            assert(decimal((rest / 10) as nat).push((48 + d) as u8) + low_first@.reverse()
                =~= decimal((rest / 10) as nat) + grown.reverse());
        }
        low_first.push(48 + d);
        rest = rest / 10;
    }
    proof {
        let grown = low_first@.push((48 + rest) as u8);
        assert(grown.reverse() =~= seq![(48 + rest) as u8] + low_first@.reverse());
        assert(decimal(rest as nat) =~= seq![(48 + rest) as u8]);
    }
    low_first.push(48 + rest as u8);
    let mut left: usize = low_first.len();
    while left > 0
        invariant
            left <= low_first@.len(),
            out@ == old(out)@ + low_first@.reverse().subrange(0, low_first@.len() - left),
        decreases left,
    {
        left = left - 1;
        proof {
            let r = low_first@.reverse();
            let k = low_first@.len() - left - 1;
            assert(r.subrange(0, k + 1) =~= r.subrange(0, k).push(low_first@[left as int]));
        }
        out.push(low_first[left]);
    }
    proof {
        let r = low_first@.reverse();
        assert(r.subrange(0, r.len() as int) =~= r);
    }
}

} // verus!
