//! Constant-product pools: two reserves whose product a swap never lowers.

use crate::amm::arithmetic::{lemma_quotient_at_most, lemma_quotient_rounds_down};
use crate::amm::fixed_point::{lemma_empty_reserves_price_at_parity, lemma_prices_are_reciprocal, price_64_x_64, spec_price_64_x_64, Q64_ONE};
use crate::errors::{ArithmeticError, EventLogError, SwapSimulationError};
use crate::types::{checked_add, checked_mul, quotient, u256_limit, Log, H160, H256, U256};
use vstd::prelude::*;

verus! {

/// The signature of the event that a pool logs whenever its reserves change.
pub const SYNC_EVENT_SIGNATURE: [u8; 32] = [
    28, 65, 30, 154, 150, 224, 113, 36, 28, 47, 33, 247, 114, 107, 23, 174, 137, 227, 202, 180,
    199, 139, 229, 14, 6, 43, 3, 169, 255, 251, 186, 209,
];

/// A constant-product pool.
#[derive(Clone, Copy, Debug, PartialEq, Eq)]
pub struct UniswapV2Pool {
    pub address: H160,
    pub token_a: H160,
    pub token_a_decimals: u8,
    pub token_b: H160,
    pub token_b_decimals: u8,
    /// The pool's balance of `token_a`.
    pub reserve_0: u128,
    /// The pool's balance of `token_b`.
    pub reserve_1: u128,
    /// The fee in hundred-thousandths of the amount that comes in: 300 is
    /// 0.3 %.
    pub fee: u32,
}

/// What of a thousand parts of the incoming amount is left after a fee given
/// in hundred-thousandths, the fee first rounded down to ten-thousandths.
pub open spec fn spec_kept_per_mille(fee: u32) -> nat {
    ((10000 - fee / 10) / 10) as nat
}

/// The output of the constant-product formula, rounded down:
/// `kept * amount_in * reserve_out / (1000 * reserve_in + kept * amount_in)`,
/// where `kept` is what the fee leaves of a thousand parts. Nothing comes
/// out where nothing goes in or one of the reserves is empty.
pub open spec fn spec_get_amount_out(
    fee: u32,
    amount_in: nat,
    reserve_in: nat,
    reserve_out: nat,
) -> nat {
    if amount_in == 0 || reserve_in == 0 || reserve_out == 0 {
        0
    } else {
        (amount_in * spec_kept_per_mille(fee) * reserve_out) / (reserve_in * 1000 + amount_in
            * spec_kept_per_mille(fee))
    }
}

/// Whether the constant-product formula can be evaluated in 256 bits: where
/// it applies, the fee is at most the whole amount and neither the
/// numerator nor the denominator needs more than 256 bits.
pub open spec fn amount_out_defined(
    fee: u32,
    amount_in: nat,
    reserve_in: nat,
    reserve_out: nat,
) -> bool {
    amount_in == 0 || reserve_in == 0 || reserve_out == 0 || {
        &&& fee / 10 <= 10000
        &&& amount_in * spec_kept_per_mille(fee) * reserve_out < u256_limit()
        &&& reserve_in * 1000 + amount_in * spec_kept_per_mille(fee) < u256_limit()
    }
}

/// The number that the bytes spell, most significant byte first.
pub open spec fn be_value(bytes: Seq<u8>) -> nat
    decreases bytes.len(),
{
    if bytes.len() == 0 {
        0
    } else {
        be_value(bytes.drop_last()) * 256 + bytes.last() as nat
    }
}

/// The two reserves that the data of a reserve-change event carries: two
/// words of 32 bytes, each a number of at most 128 bits, most significant
/// byte first. What follows the two words is not read.
pub open spec fn spec_decode_sync_data(data: Seq<u8>) -> Result<(u128, u128), EventLogError> {
    if data.len() < 64 || be_value(data.subrange(0, 32)) > u128::MAX || be_value(
        data.subrange(32, 64),
    ) > u128::MAX {
        Err(EventLogError::InvalidEventData)
    } else {
        Ok((be_value(data.subrange(0, 32)) as u128, be_value(data.subrange(32, 64)) as u128))
    }
}

/// The number spelt by a sequence of bytes is at least the number spelt by
/// any of its prefixes.
proof fn lemma_be_value_grows(bytes: Seq<u8>, n: int)
    requires
        0 <= n <= bytes.len(),
    ensures
        be_value(bytes.subrange(0, n)) <= be_value(bytes),
    decreases bytes.len(),
{
    if n == bytes.len() {
        assert(bytes.subrange(0, n) =~= bytes);
    } else {
        lemma_be_value_grows(bytes.drop_last(), n);
        assert(bytes.drop_last().subrange(0, n) =~= bytes.subrange(0, n));
    }
}

/// Reads the 32-byte word that starts at `offset` as a number of at most 128
/// bits.
fn read_word(data: &Vec<u8>, offset: usize) -> (r: Option<u128>)
    requires
        offset + 32 <= data.len(),
    ensures
        match r {
            Some(value) => value == be_value(data@.subrange(offset as int, offset + 32)),
            None => be_value(data@.subrange(offset as int, offset + 32)) > u128::MAX,
        },
{
    let ghost word = data@.subrange(offset as int, offset + 32);
    let mut value: u128 = 0;
    let mut i: usize = 0;
    while i < 32
        invariant
            i <= 32,
            offset + 32 <= data.len(),
            word == data@.subrange(offset as int, offset + 32),
            value == be_value(word.subrange(0, i as int)),
        decreases 32 - i,
    {
        let byte: u8 = data[offset + i];
        proof {
            let next = word.subrange(0, i + 1);
            assert(next.drop_last() =~= word.subrange(0, i as int));
            assert(next.last() == byte);
            if value >= 0x100_0000_0000_0000_0000_0000_0000_0000 {
                lemma_be_value_grows(word, i + 1);
            }
        }
        if value >= 0x100_0000_0000_0000_0000_0000_0000_0000 {
            return None;
        }
        value = value * 256 + (byte as u128);
        i += 1;
    }
    assert(word.subrange(0, 32) =~= word);
    Some(value)
}

/// Decodes the data of a reserve-change event into the two reserves.
pub fn decode_sync_data(data: &Vec<u8>) -> (r: Result<(u128, u128), EventLogError>)
    ensures
        r == spec_decode_sync_data(data@),
{
    if data.len() < 64 {
        return Err(EventLogError::InvalidEventData);
    }
    let reserve_0: u128 = match read_word(data, 0) {
        Some(value) => value,
        None => {
            return Err(EventLogError::InvalidEventData);
        },
    };
    let reserve_1: u128 = match read_word(data, 32) {
        Some(value) => value,
        None => {
            return Err(EventLogError::InvalidEventData);
        },
    };
    Ok((reserve_0, reserve_1))
}

impl Default for UniswapV2Pool {
    /// A pool of which nothing is known: every field is zero.
    fn default() -> (pool: UniswapV2Pool)
        ensures
            pool == (UniswapV2Pool {
                address: H160::zero_spec(),
                token_a: H160::zero_spec(),
                token_a_decimals: 0,
                token_b: H160::zero_spec(),
                token_b_decimals: 0,
                reserve_0: 0,
                reserve_1: 0,
                fee: 0,
            }),
    {
        UniswapV2Pool {
            address: H160::zero(),
            token_a: H160::zero(),
            token_a_decimals: 0,
            token_b: H160::zero(),
            token_b_decimals: 0,
            reserve_0: 0,
            reserve_1: 0,
            fee: 0,
        }
    }
}

impl UniswapV2Pool {
    /// The signatures of the events that carry the pool's new reserves.
    pub open spec fn event_signatures() -> Seq<H256> {
        seq![H256(SYNC_EVENT_SIGNATURE)]
    }

    /// The price of `base_token` in the other token as a 64.64 fixed-point
    /// value. Any token but `token_a` is taken for `token_b`.
    pub open spec fn spec_calculate_price_64_x_64(&self, base_token: H160) -> Result<
        u128,
        ArithmeticError,
    > {
        if base_token == self.token_a {
            spec_price_64_x_64(
                self.reserve_0 as nat,
                self.token_a_decimals,
                self.reserve_1 as nat,
                self.token_b_decimals,
            )
        } else {
            spec_price_64_x_64(
                self.reserve_1 as nat,
                self.token_b_decimals,
                self.reserve_0 as nat,
                self.token_a_decimals,
            )
        }
    }

    /// The reserve that a swap of `token_in` adds to. Any token but
    /// `token_a` is taken for `token_b`.
    pub open spec fn reserve_in(&self, token_in: H160) -> u128 {
        if self.token_a == token_in {
            self.reserve_0
        } else {
            self.reserve_1
        }
    }

    /// The reserve that a swap of `token_in` pays from.
    pub open spec fn reserve_out(&self, token_in: H160) -> u128 {
        if self.token_a == token_in {
            self.reserve_1
        } else {
            self.reserve_0
        }
    }

    /// What a swap of `amount_in` of `token_in` pays out.
    pub open spec fn spec_simulate_swap(&self, token_in: H160, amount_in: nat) -> nat {
        spec_get_amount_out(
            self.fee,
            amount_in,
            self.reserve_in(token_in) as nat,
            self.reserve_out(token_in) as nat,
        )
    }

    /// Whether the output of a swap can be computed.
    pub open spec fn swap_defined(&self, token_in: H160, amount_in: nat) -> bool {
        amount_out_defined(
            self.fee,
            amount_in,
            self.reserve_in(token_in) as nat,
            self.reserve_out(token_in) as nat,
        )
    }

    /// Whether a swap can be applied to the reserves: its output can be
    /// computed, and the reserve that takes the incoming amount still fits
    /// in 128 bits.
    pub open spec fn swap_mut_defined(&self, token_in: H160, amount_in: nat) -> bool {
        self.swap_defined(token_in, amount_in) && self.reserve_in(token_in) + amount_in
            <= u128::MAX
    }

    /// Whether `after` is this pool once `amount_in` of `token_in` has been
    /// swapped: the incoming amount is added to its reserve and the output
    /// taken from the other. Nothing else changes.
    pub open spec fn swapped_into(&self, after: UniswapV2Pool, token_in: H160, amount_in: nat) -> bool {
        &&& after.address == self.address
        &&& after.token_a == self.token_a
        &&& after.token_a_decimals == self.token_a_decimals
        &&& after.token_b == self.token_b
        &&& after.token_b_decimals == self.token_b_decimals
        &&& after.fee == self.fee
        &&& after.reserve_in(token_in) == self.reserve_in(token_in) + amount_in
        &&& after.reserve_out(token_in) == self.reserve_out(token_in) - self.spec_simulate_swap(
            token_in,
            amount_in,
        )
    }

    /// What a log record does to the reserves: a record whose first topic is
    /// not the reserve-change signature is misdirected, and one whose data
    /// does not hold two reserves is malformed.
    pub open spec fn spec_sync_from_log(log: Log) -> Result<(u128, u128), EventLogError> {
        if !log.spec_has_signature(H256(SYNC_EVENT_SIGNATURE)) {
            Err(EventLogError::InvalidEventSignature)
        } else {
            spec_decode_sync_data(log.data@)
        }
    }

    /// A pool with the given state.
    pub fn new(
        address: H160,
        token_a: H160,
        token_a_decimals: u8,
        token_b: H160,
        token_b_decimals: u8,
        reserve_0: u128,
        reserve_1: u128,
        fee: u32,
    ) -> (pool: UniswapV2Pool)
        ensures
            pool == (UniswapV2Pool {
                address,
                token_a,
                token_a_decimals,
                token_b,
                token_b_decimals,
                reserve_0,
                reserve_1,
                fee,
            }),
    {
        UniswapV2Pool {
            address,
            token_a,
            token_a_decimals,
            token_b,
            token_b_decimals,
            reserve_0,
            reserve_1,
            fee,
        }
    }

    /// A pool of which only the address and the fee are known: tokens,
    /// decimals and reserves are zero until they are populated.
    pub fn new_from_address(pair_address: H160, fee: u32) -> (pool: UniswapV2Pool)
        ensures
            pool.address == pair_address,
            pool.fee == fee,
            pool.token_a == H160::zero_spec(),
            pool.token_b == H160::zero_spec(),
            pool.token_a_decimals == 0,
            pool.token_b_decimals == 0,
            pool.reserve_0 == 0,
            pool.reserve_1 == 0,
    {
        UniswapV2Pool {
            address: pair_address,
            token_a: H160::zero(),
            token_a_decimals: 0,
            token_b: H160::zero(),
            token_b_decimals: 0,
            reserve_0: 0,
            reserve_1: 0,
            fee,
        }
    }

    /// The pool's address.
    pub fn address(&self) -> (r: H160)
        ensures
            r == self.address,
    {
        self.address
    }

    /// The two tokens, `token_a` first.
    pub fn tokens(&self) -> (r: Vec<H160>)
        ensures
            r@ == seq![self.token_a, self.token_b],
    {
        let mut tokens: Vec<H160> = Vec::new();
        tokens.push(self.token_a);
        tokens.push(self.token_b);
        assert(tokens@ =~= seq![self.token_a, self.token_b]);
        tokens
    }

    /// The fee in hundred-thousandths.
    pub fn fee(&self) -> (r: u32)
        ensures
            r == self.fee,
    {
        self.fee
    }

    /// The token that a swap of `token_in` pays out.
    pub fn get_token_out(&self, token_in: H160) -> (r: H160)
        ensures
            r == if self.token_a == token_in {
                self.token_b
            } else {
                self.token_a
            },
    {
        if self.token_a.same(&token_in) {
            self.token_b
        } else {
            self.token_a
        }
    }

    /// The signatures of the events that carry the pool's new reserves.
    pub fn sync_on_event_signatures(&self) -> (r: Vec<H256>)
        ensures
            r@ == Self::event_signatures(),
    {
        let mut signatures: Vec<H256> = Vec::new();
        signatures.push(H256(SYNC_EVENT_SIGNATURE));
        assert(signatures@ =~= seq![H256(SYNC_EVENT_SIGNATURE)]);
        signatures
    }

    /// The price of `base_token` in the other token as a 64.64 fixed-point
    /// value, from the reserves brought to a common number of decimals. An
    /// empty base side is priced at parity.
    pub fn calculate_price_64_x_64(&self, base_token: H160) -> (r: Result<u128, ArithmeticError>)
        ensures
            r == self.spec_calculate_price_64_x_64(base_token),
            self.reserve_0 == 0 && self.reserve_1 == 0 ==> r == Ok::<u128, ArithmeticError>(
                Q64_ONE,
            ),
    {
        proof {
            lemma_empty_reserves_price_at_parity(self.token_a_decimals, self.token_b_decimals);
            lemma_empty_reserves_price_at_parity(self.token_b_decimals, self.token_a_decimals);
        }
        if base_token.same(&self.token_a) {
            price_64_x_64(
                U256::from_u128(self.reserve_0),
                self.token_a_decimals,
                U256::from_u128(self.reserve_1),
                self.token_b_decimals,
            )
        } else {
            price_64_x_64(
                U256::from_u128(self.reserve_1),
                self.token_b_decimals,
                U256::from_u128(self.reserve_0),
                self.token_a_decimals,
            )
        }
    }

    /// The output of the constant-product formula for the pool's fee. It is
    /// an error exactly where the formula cannot be evaluated in 256 bits.
    pub fn get_amount_out(&self, amount_in: U256, reserve_in: U256, reserve_out: U256) -> (r: Result<
        U256,
        SwapSimulationError,
    >)
        ensures
            match r {
                Ok(amount_out) => amount_out_defined(
                    self.fee,
                    amount_in@,
                    reserve_in@,
                    reserve_out@,
                ) && amount_out@ == spec_get_amount_out(
                    self.fee,
                    amount_in@,
                    reserve_in@,
                    reserve_out@,
                ),
                Err(e) => e == SwapSimulationError::OutOfRange && !amount_out_defined(
                    self.fee,
                    amount_in@,
                    reserve_in@,
                    reserve_out@,
                ),
            },
            amount_in@ == 0 ==> r is Ok && r->Ok_0@ == 0,
    {
        if amount_in.is_zero() || reserve_in.is_zero() || reserve_out.is_zero() {
            return Ok(U256::zero());
        }
        if self.fee / 10 > 10000 {
            return Err(SwapSimulationError::OutOfRange);
        }
        let kept: u32 = (10000 - self.fee / 10) / 10;
        let ghost k = spec_kept_per_mille(self.fee);
        assert(kept as nat == k);
        let amount_in_with_fee: U256 = match checked_mul(amount_in, U256::from_u128(kept as u128)) {
            Some(scaled) => scaled,
            None => {
                assert(amount_in@ * k * reserve_out@ >= amount_in@ * k) by (nonlinear_arith)
                    requires
                        reserve_out@ >= 1,
                ;
                return Err(SwapSimulationError::OutOfRange);
            },
        };
        let numerator: U256 = match checked_mul(amount_in_with_fee, reserve_out) {
            Some(scaled) => scaled,
            None => {
                return Err(SwapSimulationError::OutOfRange);
            },
        };
        let reserve_in_scaled: U256 = match checked_mul(reserve_in, U256::from_u128(1000)) {
            Some(scaled) => scaled,
            None => {
                return Err(SwapSimulationError::OutOfRange);
            },
        };
        let denominator: U256 = match checked_add(reserve_in_scaled, amount_in_with_fee) {
            Some(total) => total,
            None => {
                return Err(SwapSimulationError::OutOfRange);
            },
        };
        Ok(quotient(numerator, denominator))
    }

    /// What a swap of `amount_in` of `token_in` pays out. The pool stays as
    /// it is.
    pub fn simulate_swap(&self, token_in: H160, amount_in: U256) -> (r: Result<
        U256,
        SwapSimulationError,
    >)
        ensures
            match r {
                Ok(amount_out) => self.swap_defined(token_in, amount_in@) && amount_out@
                    == self.spec_simulate_swap(token_in, amount_in@),
                Err(e) => e == SwapSimulationError::OutOfRange && !self.swap_defined(
                    token_in,
                    amount_in@,
                ),
            },
            amount_in@ == 0 ==> r is Ok && r->Ok_0@ == 0,
    {
        if self.token_a.same(&token_in) {
            self.get_amount_out(
                amount_in,
                U256::from_u128(self.reserve_0),
                U256::from_u128(self.reserve_1),
            )
        } else {
            self.get_amount_out(
                amount_in,
                U256::from_u128(self.reserve_1),
                U256::from_u128(self.reserve_0),
            )
        }
    }

    /// The output of a swap never exceeds the reserve that pays it.
    pub proof fn lemma_output_within_reserve(self, token_in: H160, amount_in: nat)
        requires
            self.swap_defined(token_in, amount_in),
        ensures
            self.spec_simulate_swap(token_in, amount_in) <= self.reserve_out(token_in),
    {
        let k = spec_kept_per_mille(self.fee) as int;
        let x = amount_in as int;
        let a = self.reserve_in(token_in) as int;
        let b = self.reserve_out(token_in) as int;
        if x == 0 || a == 0 || b == 0 {
        } else {
            assert(x * k * b <= b * (a * 1000 + x * k)) by (nonlinear_arith)
                requires
                    0 <= x,
                    0 <= k,
                    0 < a,
                    0 < b,
            ;
            lemma_quotient_at_most(x * k * b, a * 1000 + x * k, b);
        }
    }

    /// Swaps `amount_in` of `token_in` and moves the reserves accordingly. A
    /// swap that cannot be applied is an error and leaves the pool as it is.
    pub fn simulate_swap_mut(&mut self, token_in: H160, amount_in: U256) -> (r: Result<
        U256,
        SwapSimulationError,
    >)
        ensures
            match r {
                Ok(amount_out) => {
                    &&& old(self).swap_mut_defined(token_in, amount_in@)
                    &&& amount_out@ == old(self).spec_simulate_swap(token_in, amount_in@)
                    &&& old(self).swapped_into(*final(self), token_in, amount_in@)
                },
                Err(e) => {
                    &&& e == SwapSimulationError::OutOfRange
                    &&& !old(self).swap_mut_defined(token_in, amount_in@)
                    &&& *final(self) == *old(self)
                },
            },
            amount_in@ == 0 ==> r is Ok && r->Ok_0@ == 0 && *final(self) == *old(self),
    {
        let amount_out: U256 = match self.simulate_swap(token_in, amount_in) {
            Ok(amount_out) => amount_out,
            Err(e) => {
                return Err(e);
            },
        };
        proof {
            self.lemma_output_within_reserve(token_in, amount_in@);
        }
        if !amount_in.fits_u128() {
            return Err(SwapSimulationError::OutOfRange);
        }
        let added: u128 = amount_in.as_u128();
        let removed: u128 = amount_out.as_u128();
        if self.token_a.same(&token_in) {
            if added > u128::MAX - self.reserve_0 {
                return Err(SwapSimulationError::OutOfRange);
            }
            self.reserve_0 = self.reserve_0 + added;
            self.reserve_1 = self.reserve_1 - removed;
        } else {
            if added > u128::MAX - self.reserve_1 {
                return Err(SwapSimulationError::OutOfRange);
            }
            self.reserve_1 = self.reserve_1 + added;
            self.reserve_0 = self.reserve_0 - removed;
        }
        Ok(amount_out)
    }

    /// Takes the reserves over from a log record of a reserve change. A
    /// record whose first topic is none of the pool's event signatures, or
    /// whose data does not hold two reserves, is an error and leaves the
    /// pool as it is.
    pub fn sync_from_log(&mut self, log: Log) -> (r: Result<(), EventLogError>)
        ensures
            match Self::spec_sync_from_log(log) {
                Ok((reserve_0, reserve_1)) => r == Ok::<(), EventLogError>(()) && *final(self) == (
                UniswapV2Pool { reserve_0, reserve_1, ..*old(self) }),
                Err(e) => r == Err::<(), EventLogError>(e) && *final(self) == *old(self),
            },
            log.topics@.len() == 0 || !Self::event_signatures().contains(log.topics@[0]) ==> r
                == Err::<(), EventLogError>(EventLogError::InvalidEventSignature) && *final(self)
                == *old(self),
    {
        assert(Self::event_signatures()[0] == H256(SYNC_EVENT_SIGNATURE));
        if !log.has_signature(&H256(SYNC_EVENT_SIGNATURE)) {
            return Err(EventLogError::InvalidEventSignature);
        }
        match decode_sync_data(&log.data) {
            Ok((reserve_0, reserve_1)) => {
                self.reserve_0 = reserve_0;
                self.reserve_1 = reserve_1;
                Ok(())
            },
            Err(e) => Err(e),
        }
    }

    /// The price of `token_a` in `token_b` and the price of `token_b` in
    /// `token_a` are reciprocal up to rounding: where both reserves hold
    /// something and both prices exist, their product is at most one, and
    /// more than one once each price is raised by the smallest step of the
    /// fixed-point format.
    pub proof fn lemma_prices_are_reciprocal(self, other_token: H160)
        requires
            self.reserve_0 > 0,
            self.reserve_1 > 0,
            other_token != self.token_a,
        ensures
            match (
                self.spec_calculate_price_64_x_64(self.token_a),
                self.spec_calculate_price_64_x_64(other_token),
            ) {
                (Ok(price_a), Ok(price_b)) => price_a * price_b <= Q64_ONE * Q64_ONE < (price_a
                    + 1) * (price_b + 1),
                _ => true,
            },
    {
        lemma_prices_are_reciprocal(
            self.reserve_0 as nat,
            self.token_a_decimals,
            self.reserve_1 as nat,
            self.token_b_decimals,
        );
    }

    /// A pool with two empty reserves prices both tokens at parity.
    pub proof fn lemma_empty_pool_prices_at_parity(self, base_token: H160)
        requires
            self.reserve_0 == 0,
            self.reserve_1 == 0,
        ensures
            self.spec_calculate_price_64_x_64(base_token) == Ok::<u128, ArithmeticError>(Q64_ONE),
    {
        lemma_empty_reserves_price_at_parity(self.token_a_decimals, self.token_b_decimals);
        lemma_empty_reserves_price_at_parity(self.token_b_decimals, self.token_a_decimals);
    }

    /// A swap of nothing pays out nothing, can always be made and leaves the
    /// pool as it is.
    pub proof fn lemma_swap_of_nothing(self, token_in: H160)
        ensures
            self.swap_mut_defined(token_in, 0),
            self.spec_simulate_swap(token_in, 0) == 0,
            self.swapped_into(self, token_in, 0),
    {
    }

    /// A swap never lowers the product of the two reserves.
    pub proof fn lemma_swap_keeps_the_product(
        self,
        after: UniswapV2Pool,
        token_in: H160,
        amount_in: nat,
    )
        requires
            self.swap_mut_defined(token_in, amount_in),
            self.swapped_into(after, token_in, amount_in),
        ensures
            self.reserve_0 * self.reserve_1 <= after.reserve_0 * after.reserve_1,
    {
        let k = spec_kept_per_mille(self.fee) as int;
        let x = amount_in as int;
        let a = self.reserve_in(token_in) as int;
        let b = self.reserve_out(token_in) as int;
        let amount_out = self.spec_simulate_swap(token_in, amount_in) as int;
        self.lemma_output_within_reserve(token_in, amount_in);
        if x == 0 || a == 0 || b == 0 {
            assert(a * b <= (a + x) * b) by (nonlinear_arith)
                requires
                    0 <= a,
                    0 <= x,
                    0 <= b,
            ;
        } else {
            assert(0 <= x * k * b) by (nonlinear_arith)
                requires
                    0 <= x,
                    0 <= k,
                    0 <= b,
            ;
            lemma_quotient_rounds_down(x * k * b, a * 1000 + x * k);
            // out * (1000 a + k x) <= k x b and k <= 1000 give out * (a + x) <= x b.
            assert(amount_out * (a + x) <= x * b) by (nonlinear_arith)
                requires
                    amount_out * (a * 1000 + x * k) <= x * k * b,
                    0 <= k <= 1000,
                    0 <= amount_out <= b,
                    0 < a,
                    0 < x,
                    0 < b,
            {
                assert(amount_out * (a * 1000 + x * 1000) <= x * 1000 * b) by {
                    assert((1000 - k) * (x * amount_out) <= (1000 - k) * (x * b));
                }
            }
            assert(a * b <= (a + x) * (b - amount_out)) by (nonlinear_arith)
                requires
                    amount_out * (a + x) <= x * b,
            ;
        }
        if self.token_a == token_in {
        } else {
            assert(after.reserve_0 * after.reserve_1 == after.reserve_1 * after.reserve_0)
                by (nonlinear_arith);
            assert(self.reserve_0 * self.reserve_1 == self.reserve_1 * self.reserve_0)
                by (nonlinear_arith);
        }
    }

    /// Swapping and then swapping back what came out returns no more than
    /// went in, whatever the fee.
    pub proof fn lemma_round_trip_returns_no_more(
        self,
        between: UniswapV2Pool,
        token_in: H160,
        token_back: H160,
        amount_in: nat,
    )
        requires
            (token_in == self.token_a) != (token_back == self.token_a),
            self.swap_mut_defined(token_in, amount_in),
            self.swapped_into(between, token_in, amount_in),
            between.swap_defined(token_back, self.spec_simulate_swap(token_in, amount_in)),
        ensures
            between.spec_simulate_swap(token_back, self.spec_simulate_swap(token_in, amount_in))
                <= amount_in,
    {
        let k = spec_kept_per_mille(self.fee) as int;
        let x = amount_in as int;
        let a = self.reserve_in(token_in) as int;
        let b = self.reserve_out(token_in) as int;
        let amount_out = self.spec_simulate_swap(token_in, amount_in) as int;
        let amount_back = between.spec_simulate_swap(token_back, amount_out as nat) as int;
        self.lemma_output_within_reserve(token_in, amount_in);
        assert(between.reserve_in(token_back) == b - amount_out);
        assert(between.reserve_out(token_back) == a + x);
        if x == 0 || a == 0 || b == 0 || amount_out == 0 || amount_out == b {
        } else {
            assert(k <= 1000);
            assert(amount_out == (x * k * b) / (a * 1000 + x * k));
            assert(0 <= x * k * b) by (nonlinear_arith)
                requires
                    0 <= x,
                    0 <= k,
                    0 <= b,
            ;
            lemma_quotient_rounds_down(x * k * b, a * 1000 + x * k);
            if k == 0 {
                assert(x * k * b == 0) by (nonlinear_arith)
                    requires
                        k == 0,
                ;
                assert(amount_out * (a * 1000 + x * k) <= 0);
                assert(amount_out <= 0) by (nonlinear_arith)
                    requires
                        amount_out * (a * 1000 + x * k) <= 0,
                        0 < a * 1000 + x * k,
                ;
            }
            // From out * (1000 a + k x) <= k x b and k <= 1000:
            //   k * out * (k a + 1000 x) <= k * 1000 x b.
            assert(amount_out * k * (a + x) <= x * ((b - amount_out) * 1000 + amount_out * k))
                by (nonlinear_arith)
                requires
                    amount_out * (a * 1000 + x * k) <= x * k * b,
                    0 < k <= 1000,
                    0 < amount_out,
                    0 < a,
                    0 < x,
                    0 < b,
            {
                assert(amount_out * a * (k * k) <= amount_out * a * 1000000);
                assert(k * (amount_out * k * a + 1000 * x * amount_out) <= 1000 * (amount_out * (a
                    * 1000 + x * k)));
                assert(k * (amount_out * k * a + 1000 * x * amount_out) <= k * (1000 * x * b));
                assert(amount_out * k * a + 1000 * x * amount_out <= 1000 * x * b);
            }
            lemma_quotient_at_most(
                amount_out * k * (a + x),
                (b - amount_out) * 1000 + amount_out * k,
                x,
            );
        }
    }

    /// After such a round trip the reserve that paid out first is as it was,
    /// and the other holds what the round trip lost.
    pub proof fn lemma_round_trip_reserves(
        self,
        between: UniswapV2Pool,
        after: UniswapV2Pool,
        token_in: H160,
        token_back: H160,
        amount_in: nat,
    )
        requires
            (token_in == self.token_a) != (token_back == self.token_a),
            self.swap_mut_defined(token_in, amount_in),
            self.swapped_into(between, token_in, amount_in),
            between.swap_mut_defined(token_back, self.spec_simulate_swap(token_in, amount_in)),
            between.swapped_into(after, token_back, self.spec_simulate_swap(token_in, amount_in)),
        ensures
            ({
                let amount_out = self.spec_simulate_swap(token_in, amount_in);
                let amount_back = between.spec_simulate_swap(token_back, amount_out);
                &&& amount_back <= amount_in
                &&& after.reserve_out(token_in) == self.reserve_out(token_in)
                &&& after.reserve_in(token_in) == self.reserve_in(token_in) + amount_in
                    - amount_back
            }),
    {
        self.lemma_round_trip_returns_no_more(between, token_in, token_back, amount_in);
    }
}

} // verus!
