//! Rounding to doubles, and quantile ranks of totals of any size.
use vstd::arithmetic::power2::{lemma2_to64, lemma_pow2_pos, lemma_pow2_unfold, pow2};
use vstd::prelude::*;
use super::snapshot::percent;
use crate::quantile::{last_bit, nearest_double, quantile_rank, round_to_double, Quantile};

verus! {

/// Whether a number is another to 53 significant bits: with `k` bits less, it lies no
/// further from it than half of the last bit that is kept, and is even there on a tie.
pub open spec fn rounds(n: int, r: int, k: nat) -> bool {
    let unit = pow2(k) as int;
    &&& k > 0 ==> 4_503_599_627_370_496 * unit <= n
    &&& n < 9_007_199_254_740_992 * unit
    &&& r % unit == 0
    &&& -unit <= 2 * (r - n) <= unit
    &&& 2 * (r - n) == unit || 2 * (n - r) == unit ==> (r / unit) % 2 == 0
}

proof fn lemma_unit(n: nat) -> (k: nat)
    ensures
        last_bit(n) == pow2(k),
        k > 0 ==> 4_503_599_627_370_496 * pow2(k) <= n,
        n < 9_007_199_254_740_992 * pow2(k),
    decreases n,
{
    lemma2_to64();
    if n < 9_007_199_254_740_992 {
        0
    } else {
        let k = lemma_unit(n / 2);
        lemma_pow2_unfold(k + 1);
        k + 1
    }
}

proof fn lemma_rounds(n: nat) -> (k: nat)
    requires
        n >= 1,
    ensures
        rounds(n as int, nearest_double(n) as int, k),
{
    let k = lemma_unit(n);
    lemma_pow2_pos(k);
    let unit = pow2(k) as int;
    let whole = n as int / unit;
    let rest = n as int % unit;
    let r = nearest_double(n) as int;
    vstd::arithmetic::div_mod::lemma_fundamental_div_mod(n as int, unit);
    assert(unit * whole == whole * unit) by (nonlinear_arith);
    let m = if 2 * rest > unit || (2 * rest == unit && whole % 2 == 1) {
        whole + 1
    } else {
        whole
    };
    assert((whole + 1) * unit == whole * unit + unit) by (nonlinear_arith);
    assert(r == m * unit);
    vstd::arithmetic::div_mod::lemma_mod_multiples_basic(m, unit);
    vstd::arithmetic::div_mod::lemma_div_by_multiple(m, unit);
    k
}

/// A number is rounded to the nearest one of 53 significant bits, and on a tie to the even
/// one.
pub proof fn law_round_to_double(n: u128, r: u128)
    requires
        1 <= n <= 0x3fff_ffff_ffff_ffff_ffff_ffff_ffff_ffff,
        call_ensures(round_to_double, (n,), r),
    ensures
        exists|k: nat| #[trigger] rounds(n as int, r as int, k),
        n < 9_007_199_254_740_992 ==> r == n,
{
    let k = lemma_rounds(n as nat);
    assert(rounds(n as int, r as int, k));
    if n < 9_007_199_254_740_992 {
        assert(last_bit(n as nat) == 1);
        assert(n as nat / 1 == n && n as nat % 1 == 0);
        assert(n as nat * 1 == n);
    }
}

/// The factor of a quantile is the nearest to its percents in units of 2^-53.
pub proof fn law_numerator(quantile: Quantile, n: u128)
    requires
        call_ensures(Quantile::numerator, (quantile,), n),
    ensures
        -100 < 2 * (100 * n - percent(quantile) * 9_007_199_254_740_992) < 100,
{
}

/// The rank of a quantile is the total times the factor, each rounded to a double, taken up
/// to the next whole number and at least 1.
pub proof fn law_rank_is_rounded_up(
    total: u64,
    quantile: Quantile,
    observed: u128,
    factor: u128,
    whole: u128,
    product: u128,
    rank: u128,
)
    requires
        total >= 1,
        call_ensures(round_to_double, (total as u128,), observed),
        call_ensures(Quantile::numerator, (quantile,), factor),
        whole == observed * factor,
        1 <= whole <= 0x3fff_ffff_ffff_ffff_ffff_ffff_ffff_ffff,
        call_ensures(round_to_double, (whole,), product),
        call_ensures(quantile_rank, (total, quantile), rank),
    ensures
        rank >= 1,
        product <= rank * 9_007_199_254_740_992,
        rank > 1 ==> (rank - 1) * 9_007_199_254_740_992 < product,
{
}

} // verus!
