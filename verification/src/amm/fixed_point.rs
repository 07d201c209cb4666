//! Unsigned 64.64 fixed-point ratios of 256-bit numbers.

use crate::errors::ArithmeticError;
use crate::types::{checked_mul, checked_sub, difference, div_mod, sum, u256_limit, U256};
use vstd::arithmetic::div_mod::{lemma_fundamental_div_mod, lemma_fundamental_div_mod_converse, lemma_mod_pos_bound};
use vstd::arithmetic::mul::{lemma_mul_inequality_converse, lemma_mul_strict_inequality_converse, lemma_mul_strictly_positive};
use vstd::arithmetic::power2::{lemma2_to64, lemma_pow2_strictly_increases, lemma_pow2_unfold, pow2};
use vstd::prelude::*;

verus! {

/// The number one as a 64.64 fixed-point value: two to the power 64.
pub const Q64_ONE: u128 = 0x1_0000_0000_0000_0000;

/// The ratio `x / y` as a 64.64 fixed-point value, rounded down: the integer
/// `x * 2^64 / y`, where that fits in 128 bits.
pub open spec fn spec_div_uu(x: nat, y: nat) -> Result<u128, ArithmeticError> {
    if y == 0 {
        Err(ArithmeticError::YIsZero)
    } else if (x * (Q64_ONE as nat)) / y > u128::MAX {
        Err(ArithmeticError::QuotientOverflow)
    } else {
        Ok(((x * (Q64_ONE as nat)) / y) as u128)
    }
}

/// The first 64 binary digits after the point of `r / y`, for `r < y`.
fn fraction_bits(r: U256, y: U256) -> (bits: u64)
    requires
        r@ < y@,
    ensures
        bits as nat == (r@ * (Q64_ONE as nat)) / y@,
{
    let mut rest: U256 = r;
    let mut bits: u64 = 0;
    let mut i: u32 = 0;
    proof {
        lemma2_to64();
    }
    while i < 64
        invariant
            i <= 64,
            rest@ < y@,
            bits as nat * y@ + rest@ == r@ * pow2(i as nat),
            (bits as nat) < pow2(i as nat),
        decreases 64 - i,
    {
        proof {
            lemma_pow2_unfold((i + 1) as nat);
            lemma2_to64();
            y.lemma_bounded();
            if i < 63 {
                lemma_pow2_strictly_increases((i + 1) as nat, 64);
            }
        }
        let ghost before = bits as nat * y@ + rest@;
        let ghost old_bits = bits as nat;
        let ghost old_rest = rest@;
        let gap: U256 = difference(y, rest);
        match checked_sub(rest, gap) {
            Some(over) => {
                rest = over;
                bits = 2 * bits + 1;
                assert(bits as nat * y@ + rest@ == 2 * before) by (nonlinear_arith)
                    requires
                        bits as nat == 2 * old_bits + 1,
                        rest@ == 2 * old_rest - y@,
                        before == old_bits * y@ + old_rest,
                ;
            },
            None => {
                rest = sum(rest, rest);
                bits = 2 * bits;
                assert(bits as nat * y@ + rest@ == 2 * before) by (nonlinear_arith)
                    requires
                        bits as nat == 2 * old_bits,
                        rest@ == 2 * old_rest,
                        before == old_bits * y@ + old_rest,
                ;
            },
        }
        assert(r@ * pow2((i + 1) as nat) == 2 * (r@ * pow2(i as nat))) by (nonlinear_arith)
            requires
                pow2((i + 1) as nat) == 2 * pow2(i as nat),
        ;
        i += 1;
    }
    proof {
        lemma2_to64();
        lemma_fundamental_div_mod_converse(
            (r@ * (Q64_ONE as nat)) as int,
            y@ as int,
            bits as int,
            rest@ as int,
        );
    }
    bits
}

/// Divides `x` by `y` into a 64.64 fixed-point value, rounded down. A zero
/// divisor and a quotient of more than 64 integer bits are errors.
pub fn div_uu(x: U256, y: U256) -> (r: Result<u128, ArithmeticError>)
    ensures
        r == spec_div_uu(x@, y@),
{
    if y.is_zero() {
        return Err(ArithmeticError::YIsZero);
    }
    let (whole, rest) = div_mod(x, y);
    let ghost scaled = x@ * (Q64_ONE as nat);
    proof {
        // x == whole * y + rest, so the scaled quotient is whole * 2^64 plus
        // the fraction bits of rest / y.
        lemma_fundamental_div_mod(x@ as int, y@ as int);
        lemma_mod_pos_bound(x@ as int, y@ as int);
    }
    let fraction: u64 = fraction_bits(rest, y);
    proof {
        let f = fraction as nat;
        let scaled_rest = rest@ * (Q64_ONE as nat);
        lemma_fundamental_div_mod(scaled_rest as int, y@ as int);
        lemma_mod_pos_bound(scaled_rest as int, y@ as int);
        let leftover = scaled_rest % y@;
        assert(scaled == (whole@ * (Q64_ONE as nat) + f) * y@ + leftover) by (nonlinear_arith)
            requires
                scaled == x@ * (Q64_ONE as nat),
                x@ == y@ * whole@ + rest@,
                scaled_rest == rest@ * (Q64_ONE as nat),
                scaled_rest == y@ * f + leftover,
        ;
        lemma_fundamental_div_mod_converse(
            scaled as int,
            y@ as int,
            (whole@ * (Q64_ONE as nat) + f) as int,
            leftover as int,
        );
        assert(scaled / y@ == whole@ * (Q64_ONE as nat) + f);
        assert(f < Q64_ONE) by {
            assert(f * y@ <= scaled_rest) by (nonlinear_arith)
                requires
                    scaled_rest == y@ * f + leftover,
            ;
            assert(f < Q64_ONE) by (nonlinear_arith)
                requires
                    f * y@ <= rest@ * (Q64_ONE as nat),
                    rest@ < y@,
            ;
        }
    }
    if whole.0[1] != 0 || whole.0[2] != 0 || whole.0[3] != 0 {
        return Err(ArithmeticError::QuotientOverflow);
    }
    let high: u128 = whole.0[0] as u128;
    Ok(high * Q64_ONE + (fraction as u128))
}

/// Ten to the power `n`.
pub open spec fn pow10(n: nat) -> nat
    decreases n,
{
    if n == 0 {
        1
    } else {
        10 * pow10((n - 1) as nat)
    }
}

/// Powers of ten are positive and grow with the exponent.
pub proof fn lemma_pow10_increases(m: nat, n: nat)
    requires
        m <= n,
    ensures
        0 < pow10(m) <= pow10(n),
    decreases n,
{
    if n == 0 {
    } else if m == n {
        lemma_pow10_increases(0, (n - 1) as nat);
    } else {
        lemma_pow10_increases(m, (n - 1) as nat);
    }
}

/// Ten to the power `n`, where that fits in 256 bits.
fn checked_pow10(n: u8) -> (r: Option<U256>)
    ensures
        match r {
            Some(power) => power@ == pow10(n as nat),
            None => pow10(n as nat) >= u256_limit(),
        },
{
    let ten: U256 = U256::from_u128(10);
    let mut power: U256 = U256::from_u128(1);
    let mut i: u8 = 0;
    while i < n
        invariant
            i <= n,
            ten@ == 10,
            power@ == pow10(i as nat),
        decreases n - i,
    {
        match checked_mul(power, ten) {
            Some(next) => {
                power = next;
            },
            None => {
                proof {
                    lemma_pow10_increases((i + 1) as nat, n as nat);
                }
                return None;
            },
        }
        i += 1;
    }
    Some(power)
}

/// A reserve held in `decimals` decimals, written in `max(decimals,
/// other_decimals)` decimals: the reserve times a power of ten.
pub open spec fn spec_normalized(reserve: nat, decimals: u8, other_decimals: u8) -> nat {
    if decimals < other_decimals {
        reserve * pow10((other_decimals - decimals) as nat)
    } else {
        reserve
    }
}

/// Brings a reserve to the larger of the two decimal counts. The result is an
/// error exactly where it would need more than 256 bits.
fn normalized(reserve: U256, decimals: u8, other_decimals: u8) -> (r: Result<U256, ArithmeticError>)
    ensures
        match r {
            Ok(scaled) => scaled@ == spec_normalized(reserve@, decimals, other_decimals),
            Err(e) => e == ArithmeticError::DecimalShiftOverflow && spec_normalized(
                reserve@,
                decimals,
                other_decimals,
            ) >= u256_limit(),
        },
{
    if decimals >= other_decimals {
        proof {
            reserve.lemma_bounded();
        }
        return Ok(reserve);
    }
    if reserve.is_zero() {
        assert(0 * pow10((other_decimals - decimals) as nat) == 0);
        return Ok(reserve);
    }
    let shift: u8 = other_decimals - decimals;
    match checked_pow10(shift) {
        None => {
            assert(reserve@ * pow10(shift as nat) >= pow10(shift as nat)) by (nonlinear_arith)
                requires
                    reserve@ >= 1,
            ;
            Err(ArithmeticError::DecimalShiftOverflow)
        },
        Some(factor) => match checked_mul(reserve, factor) {
            Some(scaled) => Ok(scaled),
            None => Err(ArithmeticError::DecimalShiftOverflow),
        },
    }
}

/// The price of one base token in quote tokens as a 64.64 fixed-point value.
///
/// Both reserves are first brought to the larger of the two decimal counts;
/// a reserve that then needs more than 256 bits is an error. An empty base
/// side is priced at parity, the value one. Otherwise the price is the quote
/// reserve divided by the base reserve, rounded down.
pub open spec fn spec_price_64_x_64(
    base_reserve: nat,
    base_decimals: u8,
    quote_reserve: nat,
    quote_decimals: u8,
) -> Result<u128, ArithmeticError> {
    let base = spec_normalized(base_reserve, base_decimals, quote_decimals);
    let quote = spec_normalized(quote_reserve, quote_decimals, base_decimals);
    if base >= u256_limit() || quote >= u256_limit() {
        Err(ArithmeticError::DecimalShiftOverflow)
    } else if base == 0 {
        Ok(Q64_ONE)
    } else {
        spec_div_uu(quote, base)
    }
}

/// Computes the price of one base token in quote tokens from the two
/// reserves and their decimal counts.
pub fn price_64_x_64(
    base_reserve: U256,
    base_decimals: u8,
    quote_reserve: U256,
    quote_decimals: u8,
) -> (r: Result<u128, ArithmeticError>)
    ensures
        r == spec_price_64_x_64(base_reserve@, base_decimals, quote_reserve@, quote_decimals),
{
    let base: U256 = match normalized(base_reserve, base_decimals, quote_decimals) {
        Ok(scaled) => scaled,
        Err(e) => {
            return Err(e);
        },
    };
    let quote: U256 = match normalized(quote_reserve, quote_decimals, base_decimals) {
        Ok(scaled) => scaled,
        Err(e) => {
            return Err(e);
        },
    };
    proof {
        base.lemma_bounded();
        quote.lemma_bounded();
    }
    if base.is_zero() {
        Ok(Q64_ONE)
    } else {
        div_uu(quote, base)
    }
}

/// Two ratios that are each other's inverse, each rounded down to a multiple
/// of `1 / s`, multiply to at most one, and to more than one once each is
/// raised by one such step.
proof fn lemma_rounded_ratios_multiply_to_one(a: int, b: int, s: int)
    requires
        a > 0,
        b > 0,
        s > 0,
    ensures
        0 <= (b * s) / a,
        0 <= (a * s) / b,
        ((b * s) / a) * ((a * s) / b) <= s * s,
        s * s < ((b * s) / a + 1) * ((a * s) / b + 1),
{
    let p = (b * s) / a;
    let q = (a * s) / b;
    lemma_mul_strictly_positive(a, s);
    lemma_mul_strictly_positive(b, s);
    lemma_mul_strictly_positive(a, b);
    lemma_fundamental_div_mod(b * s, a);
    lemma_mod_pos_bound(b * s, a);
    lemma_fundamental_div_mod(a * s, b);
    lemma_mod_pos_bound(a * s, b);
    assert(a * p <= b * s);
    assert(b * q <= a * s);
    assert(b * s < a * (p + 1)) by (nonlinear_arith)
        requires
            b * s == a * p + (b * s) % a,
            (b * s) % a < a,
    ;
    assert(a * s < b * (q + 1)) by (nonlinear_arith)
        requires
            a * s == b * q + (a * s) % b,
            (a * s) % b < b,
    ;
    assert(p >= 0) by (nonlinear_arith)
        requires
            b * s < a * (p + 1),
            0 < b * s,
            a > 0,
    ;
    assert(q >= 0) by (nonlinear_arith)
        requires
            a * s < b * (q + 1),
            0 < a * s,
            b > 0,
    ;
    assert((a * b) * (p * q) <= (a * b) * (s * s)) by (nonlinear_arith)
        requires
            0 <= a * p <= b * s,
            0 <= b * q <= a * s,
            a > 0,
            b > 0,
            p >= 0,
            q >= 0,
    ;
    assert((p * q) * (a * b) <= (s * s) * (a * b)) by (nonlinear_arith)
        requires
            (a * b) * (p * q) <= (a * b) * (s * s),
    ;
    lemma_mul_inequality_converse(p * q, s * s, a * b);
    assert((a * b) * (s * s) < (a * b) * ((p + 1) * (q + 1))) by (nonlinear_arith)
        requires
            0 < b * s < a * (p + 1),
            0 < a * s < b * (q + 1),
            a > 0,
            b > 0,
    ;
    assert((s * s) * (a * b) < ((p + 1) * (q + 1)) * (a * b)) by (nonlinear_arith)
        requires
            (a * b) * (s * s) < (a * b) * ((p + 1) * (q + 1)),
    ;
    lemma_mul_strict_inequality_converse(s * s, (p + 1) * (q + 1), a * b);
}

/// A pool with nothing on either side is priced at parity, whatever the
/// decimal counts.
pub proof fn lemma_empty_reserves_price_at_parity(base_decimals: u8, quote_decimals: u8)
    ensures
        spec_price_64_x_64(0, base_decimals, 0, quote_decimals) == Ok::<u128, ArithmeticError>(
            Q64_ONE,
        ),
{
    if base_decimals < quote_decimals {
        assert(0 * pow10((quote_decimals - base_decimals) as nat) == 0);
    }
}

/// The price of one token in the other and the price the other way round
/// are reciprocal up to rounding: where both reserves hold something and both
/// prices exist, their product is at most one, and more than one once each
/// price is raised by the smallest step of the fixed-point format.
pub proof fn lemma_prices_are_reciprocal(
    reserve_a: nat,
    decimals_a: u8,
    reserve_b: nat,
    decimals_b: u8,
)
    requires
        reserve_a > 0,
        reserve_b > 0,
    ensures
        match (
            spec_price_64_x_64(reserve_a, decimals_a, reserve_b, decimals_b),
            spec_price_64_x_64(reserve_b, decimals_b, reserve_a, decimals_a),
        ) {
            (Ok(price_a), Ok(price_b)) => price_a * price_b <= Q64_ONE * Q64_ONE < (price_a + 1)
                * (price_b + 1),
            _ => true,
        },
{
    let a = spec_normalized(reserve_a, decimals_a, decimals_b);
    let b = spec_normalized(reserve_b, decimals_b, decimals_a);
    if decimals_a < decimals_b {
        lemma_pow10_increases(0, (decimals_b - decimals_a) as nat);
        lemma_mul_strictly_positive(
            reserve_a as int,
            pow10((decimals_b - decimals_a) as nat) as int,
        );
    }
    if decimals_b < decimals_a {
        lemma_pow10_increases(0, (decimals_a - decimals_b) as nat);
        lemma_mul_strictly_positive(
            reserve_b as int,
            pow10((decimals_a - decimals_b) as nat) as int,
        );
    }
    assert(a > 0 && b > 0);
    lemma_rounded_ratios_multiply_to_one(a as int, b as int, Q64_ONE as int);
}

} // verus!
