//! Arithmetic kernel.
//!
//! All reserve math is unsigned and overflow-checked.  Ratios are taken as
//! `numerator / denominator` rounded down, then biased up by one unit before
//! they are compared with a user-supplied amount, so integer truncation always
//! favors the pool.  Products of two 128-bit balances do not fit any machine
//! word, so the quotients themselves are computed by `num_bigint` behind the
//! trusted wrappers below; their contracts state the exact unbounded-integer
//! value.

use num_bigint::BigUint;
use vstd::arithmetic::div_mod::{lemma_fundamental_div_mod, lemma_mod_division_less_than_divisor};
use vstd::prelude::*;

verus! {

/// The protocol's required counterparty amount for a proportional exchange:
/// `a * b / c` rounded down, plus one unit in the pool's favor.
pub open spec fn biased_quote(a: int, b: int, c: int) -> int {
    (a * b) / c + 1
}

/// The pricing denominator of a constant-product swap with fee: the scaled
/// outgoing reserve plus the fee-weighted amount taken out.
pub open spec fn swap_denominator(amount_out: int, fee: int, reserve_out: int, scale: int) -> int {
    reserve_out * scale + fee * amount_out
}

/// The amount a swap must pay in: the fee-weighted constant-product price of
/// `amount_out`, rounded down, plus one unit in the pool's favor.
pub open spec fn swap_required(
    amount_out: int,
    fee: int,
    reserve_in: int,
    reserve_out: int,
    scale: int,
) -> int {
    (amount_out * fee * reserve_in) / swap_denominator(amount_out, fee, reserve_out, scale) + 1
}

/// Rounding bias law: adding one unit to a truncated quotient always lands
/// strictly above the untruncated ratio, so `n / d + 1` scaled back by `d`
/// exceeds `n`.  Truncation can therefore never pay a user more than the
/// exact ratio would.
pub proof fn lemma_ceil_bias(n: int, d: int)
    requires
        n >= 0,
        d > 0,
    ensures
        (n / d + 1) * d > n,
        n / d + 1 >= 1,
{
    lemma_fundamental_div_mod(n, d);
    lemma_mod_division_less_than_divisor(n, d);
    let q = n / d;
    let r = n % d;
    assert((q + 1) * d > n) by (nonlinear_arith)
        requires
            n == d * q + r,
            0 <= r < d,
    ;
    assert(q >= 0) by (nonlinear_arith)
        requires
            n == d * q + r,
            n >= 0,
            0 <= r < d,
    ;
}

/// Rounding bias of the mint and burn formulas: the required amount
/// `a * b / c + 1`, scaled back by the divisor, strictly exceeds the exact
/// product, so the pool is never shortchanged by truncation.
pub proof fn lemma_biased_quote_bias(a: int, b: int, c: int)
    requires
        a >= 0,
        b >= 0,
        c > 0,
    ensures
        biased_quote(a, b, c) * c > a * b,
        biased_quote(a, b, c) >= 1,
{
    assert(a * b >= 0) by (nonlinear_arith)
        requires
            a >= 0,
            b >= 0,
    ;
    lemma_ceil_bias(a * b, c);
}

/// Rounding bias of the swap formula: the required pay-in, scaled back by the
/// pricing denominator, strictly exceeds the fee-weighted product, so a swap
/// always pays at least the exact constant-product price.
pub proof fn lemma_swap_required_bias(
    amount_out: int,
    fee: int,
    reserve_in: int,
    reserve_out: int,
    scale: int,
)
    requires
        amount_out >= 0,
        fee > 0,
        reserve_in >= 0,
        reserve_out >= 0,
        scale > 0,
        swap_denominator(amount_out, fee, reserve_out, scale) > 0,
    ensures
        swap_required(amount_out, fee, reserve_in, reserve_out, scale) * swap_denominator(
            amount_out,
            fee,
            reserve_out,
            scale,
        ) > amount_out * fee * reserve_in,
        swap_required(amount_out, fee, reserve_in, reserve_out, scale) >= 1,
{
    assert(amount_out * fee * reserve_in >= 0) by (nonlinear_arith)
        requires
            amount_out >= 0,
            fee > 0,
            reserve_in >= 0,
    ;
    lemma_ceil_bias(
        amount_out * fee * reserve_in,
        swap_denominator(amount_out, fee, reserve_out, scale),
    );
}

/// `r` is the integer square root of `n`: the largest integer whose square
/// does not exceed `n`.
pub open spec fn is_isqrt(r: int, n: int) -> bool {
    r * r <= n < (r + 1) * (r + 1)
}

/// The integer square root is unique: at most one nonnegative integer
/// satisfies `is_isqrt` for a given radicand.
pub proof fn lemma_isqrt_unique(r1: int, r2: int, n: int)
    requires
        r1 >= 0,
        r2 >= 0,
        is_isqrt(r1, n),
        is_isqrt(r2, n),
    ensures
        r1 == r2,
{
    assert(r1 == r2) by (nonlinear_arith)
        requires
            r1 >= 0,
            r2 >= 0,
            r1 * r1 <= n,
            n < (r1 + 1) * (r1 + 1),
            r2 * r2 <= n,
            n < (r2 + 1) * (r2 + 1),
    ;
}

/// Relies on `num_bigint::BigUint`: multiplication and division of
/// arbitrary-precision unsigned integers are exact, and converting back to
/// `u128` succeeds exactly when the value fits.  Returns
/// `floor(a * b / c)`, or `None` when that quotient exceeds `u128::MAX`.
#[verifier::external_body]
pub fn mul_div_floor(a: u128, b: u128, c: u128) -> (r: Option<u128>)
    requires
        c != 0,
    ensures
        r matches Some(q) ==> q == (a as int * b as int) / (c as int),
        r is None ==> (a as int * b as int) / (c as int) > u128::MAX as int,
{
    let q = BigUint::from(a) * b / c;
    u128::try_from(q).ok()
}

/// Relies on `num_bigint::BigUint`: multiplication, addition and division are
/// exact, and converting back to `u128` succeeds exactly when the value fits.
/// Returns `floor(amount * fee * reserve_in / (reserve_out * scale + fee *
/// amount))`, or `None` when that quotient exceeds `u128::MAX`.
#[verifier::external_body]
pub fn swap_quotient_floor(
    amount: u128,
    fee: u128,
    reserve_in: u128,
    reserve_out: u128,
    scale: u128,
) -> (r: Option<u128>)
    requires
        swap_denominator(amount as int, fee as int, reserve_out as int, scale as int) > 0,
    ensures
        r matches Some(q) ==> q == (amount as int * fee as int * reserve_in as int)
            / swap_denominator(amount as int, fee as int, reserve_out as int, scale as int),
        r is None ==> (amount as int * fee as int * reserve_in as int) / swap_denominator(
            amount as int,
            fee as int,
            reserve_out as int,
            scale as int,
        ) > u128::MAX as int,
{
    let numerator = BigUint::from(amount) * fee * reserve_in;
    let denominator = BigUint::from(reserve_out) * scale + BigUint::from(fee) * amount;
    u128::try_from(numerator / denominator).ok()
}

/// Relies on `num_bigint::BigUint::sqrt`: the truncated principal square
/// root, exact over unbounded integers.  The root of a product of two
/// 128-bit values always fits a `u128`.
#[verifier::external_body]
pub fn sqrt_mul(a: u128, b: u128) -> (r: u128)
    ensures
        r as int * r as int <= a as int * b as int,
        (a as int * b as int) < (r as int + 1) * (r as int + 1),
{
    let root = (BigUint::from(a) * b).sqrt();
    u128::try_from(root).unwrap()
}

} // verus!
