//! Pools that take their fee and their quotes from the chain. What such a
//! pool holds locally is enough for an approximate price, not for a swap.

use crate::amm::fixed_point::{lemma_empty_reserves_price_at_parity, lemma_prices_are_reciprocal, price_64_x_64, spec_price_64_x_64, Q64_ONE};
use crate::errors::{ArithmeticError, EventLogError, SwapSimulationError};
use crate::types::{Log, H160, H256, U256};
use vstd::prelude::*;

verus! {

/// The error of ethers' ABI coder, `ethers::abi::Error`. The library hands
/// it through in a signature and never makes or reads one.
#[verifier::external_type_specification]
#[verifier::external_body]
pub struct ExAbiError(ethers::abi::Error);

/// A pool whose swap output only the chain can quote.
#[derive(Clone, Copy, Debug, PartialEq, Eq)]
pub struct BancorV3Pool {
    pub address: H160,
    pub token_a: H160,
    pub token_a_decimals: u8,
    pub token_b: H160,
    pub token_b_decimals: u8,
    /// The pool's balance of `token_a` when it was last populated.
    pub reserve_0: u128,
    /// The pool's balance of `token_b` when it was last populated.
    pub reserve_1: u128,
    /// The fee as last read from the chain.
    pub fee: u32,
}

impl Default for BancorV3Pool {
    /// A pool of which nothing is known: every field is zero.
    fn default() -> (pool: BancorV3Pool)
        ensures
            pool == (BancorV3Pool {
                address: H160::zero_spec(),
                token_a: H160::zero_spec(),
                token_a_decimals: 0,
                token_b: H160::zero_spec(),
                token_b_decimals: 0,
                reserve_0: 0,
                reserve_1: 0,
                fee: 0,
            }),
    {
        BancorV3Pool {
            address: H160::zero(),
            token_a: H160::zero(),
            token_a_decimals: 0,
            token_b: H160::zero(),
            token_b_decimals: 0,
            reserve_0: 0,
            reserve_1: 0,
            fee: 0,
        }
    }
}

impl BancorV3Pool {
    /// The price of `base_token` in the other token as a 64.64 fixed-point
    /// value, approximated by the ratio of the local reserves. Any token but
    /// `token_a` is taken for `token_b`.
    pub open spec fn spec_calculate_price_64_x_64(&self, base_token: H160) -> Result<
        u128,
        ArithmeticError,
    > {
        if base_token == self.token_a {
            spec_price_64_x_64(
                self.reserve_0 as nat,
                self.token_a_decimals,
                self.reserve_1 as nat,
                self.token_b_decimals,
            )
        } else {
            spec_price_64_x_64(
                self.reserve_1 as nat,
                self.token_b_decimals,
                self.reserve_0 as nat,
                self.token_a_decimals,
            )
        }
    }

    /// What a swap pays out, given what the chain quoted for it, if anything:
    /// nothing for nothing, the quote for any other amount, and no answer
    /// where a quote is needed and none was supplied.
    pub open spec fn spec_simulate_swap_with_quote(
        &self,
        token_in: H160,
        amount_in: nat,
        live_quote: Option<nat>,
    ) -> Result<nat, SwapSimulationError> {
        if amount_in == 0 {
            Ok(0)
        } else {
            match live_quote {
                Some(quoted) => Ok(quoted),
                None => Err(SwapSimulationError::LiveQuoteRequired),
            }
        }
    }

    /// What a swap pays out as far as the pool can tell without a quote from
    /// the chain: nothing for nothing, and no answer for any other amount.
    pub open spec fn spec_simulate_swap(&self, token_in: H160, amount_in: nat) -> Result<
        nat,
        SwapSimulationError,
    > {
        self.spec_simulate_swap_with_quote(token_in, amount_in, None)
    }

    /// A pool with the given state.
    pub fn new(
        address: H160,
        token_a: H160,
        token_a_decimals: u8,
        token_b: H160,
        token_b_decimals: u8,
        reserve_0: u128,
        reserve_1: u128,
        fee: u32,
    ) -> (pool: BancorV3Pool)
        ensures
            pool == (BancorV3Pool {
                address,
                token_a,
                token_a_decimals,
                token_b,
                token_b_decimals,
                reserve_0,
                reserve_1,
                fee,
            }),
    {
        BancorV3Pool {
            address,
            token_a,
            token_a_decimals,
            token_b,
            token_b_decimals,
            reserve_0,
            reserve_1,
            fee,
        }
    }

    /// A pool of which only the address and the fee are known: tokens,
    /// decimals and reserves are zero.
    pub fn new_from_address(pair_address: H160, fee: u32) -> (pool: BancorV3Pool)
        ensures
            pool == (BancorV3Pool {
                address: pair_address,
                token_a: H160::zero_spec(),
                token_a_decimals: 0,
                token_b: H160::zero_spec(),
                token_b_decimals: 0,
                reserve_0: 0,
                reserve_1: 0,
                fee,
            }),
    {
        BancorV3Pool {
            address: pair_address,
            token_a: H160::zero(),
            token_a_decimals: 0,
            token_b: H160::zero(),
            token_b_decimals: 0,
            reserve_0: 0,
            reserve_1: 0,
            fee,
        }
    }

    /// Whether prices and swap outputs of this pool are to be confirmed by a
    /// quote from the chain before they are relied on. They always are.
    pub fn requires_live_quote(&self) -> (r: bool)
        ensures
            r,
    {
        true
    }

    /// What a swap of `amount_in` of `token_in` pays out, given what the
    /// chain quoted for this swap, if anything. Nothing buys nothing; any
    /// other amount buys what was quoted, and is an error where no quote was
    /// supplied.
    pub fn simulate_swap_with_quote(
        &self,
        token_in: H160,
        amount_in: U256,
        live_quote: Option<U256>,
    ) -> (r: Result<U256, SwapSimulationError>)
        ensures
            match r {
                Ok(amount_out) => if amount_in@ == 0 {
                    amount_out@ == 0
                } else {
                    live_quote == Some(amount_out)
                },
                Err(e) => amount_in@ != 0 && live_quote is None && e
                    == SwapSimulationError::LiveQuoteRequired,
            },
    {
        if amount_in.is_zero() {
            return Ok(U256::zero());
        }
        match live_quote {
            Some(quoted) => Ok(quoted),
            None => Err(SwapSimulationError::LiveQuoteRequired),
        }
    }

    /// What a swap of `amount_in` of `token_in` pays out: nothing for
    /// nothing. Any other amount needs a quote from the chain.
    pub fn simulate_swap(&self, token_in: H160, amount_in: U256) -> (r: Result<
        U256,
        SwapSimulationError,
    >)
        ensures
            match r {
                Ok(amount_out) => amount_in@ == 0 && amount_out@ == 0,
                Err(e) => amount_in@ != 0 && e == SwapSimulationError::LiveQuoteRequired,
            },
    {
        self.simulate_swap_with_quote(token_in, amount_in, None)
    }

    /// As `simulate_swap`. The pool stays as it is either way.
    pub fn simulate_swap_mut(&mut self, token_in: H160, amount_in: U256) -> (r: Result<
        U256,
        SwapSimulationError,
    >)
        ensures
            match r {
                Ok(amount_out) => amount_in@ == 0 && amount_out@ == 0,
                Err(e) => amount_in@ != 0 && e == SwapSimulationError::LiveQuoteRequired,
            },
            *final(self) == *old(self),
    {
        self.simulate_swap(token_in, amount_in)
    }

    /// The fee as last read from the chain.
    pub fn fee(&self) -> (r: u32)
        ensures
            r == self.fee,
    {
        self.fee
    }

    /// An approximate price of `base_token` in the other token as a 64.64
    /// fixed-point value: the ratio of the local reserves, brought to a
    /// common number of decimals. An empty base side is priced at parity.
    pub fn calculate_price_64_x_64(&self, base_token: H160) -> (r: Result<u128, ArithmeticError>)
        ensures
            r == self.spec_calculate_price_64_x_64(base_token),
            self.reserve_0 == 0 && self.reserve_1 == 0 ==> r == Ok::<u128, ArithmeticError>(
                Q64_ONE,
            ),
    {
        proof {
            lemma_empty_reserves_price_at_parity(self.token_a_decimals, self.token_b_decimals);
            lemma_empty_reserves_price_at_parity(self.token_b_decimals, self.token_a_decimals);
        }
        if base_token.same(&self.token_a) {
            price_64_x_64(
                U256::from_u128(self.reserve_0),
                self.token_a_decimals,
                U256::from_u128(self.reserve_1),
                self.token_b_decimals,
            )
        } else {
            price_64_x_64(
                U256::from_u128(self.reserve_1),
                self.token_b_decimals,
                U256::from_u128(self.reserve_0),
                self.token_a_decimals,
            )
        }
    }

    /// The two tokens, `token_a` first.
    pub fn tokens(&self) -> (r: Vec<H160>)
        ensures
            r@ == seq![self.token_a, self.token_b],
    {
        let mut tokens: Vec<H160> = Vec::new();
        tokens.push(self.token_a);
        tokens.push(self.token_b);
        assert(tokens@ =~= seq![self.token_a, self.token_b]);
        tokens
    }

    /// The call data of a swap. The pool has no encoding of its own: the
    /// data is a single zero byte, whatever the arguments.
    pub fn swap_calldata(
        &self,
        amount_0_out: U256,
        amount_1_out: U256,
        to: H160,
        calldata: Vec<u8>,
    ) -> (r: Result<Vec<u8>, ethers::abi::Error>)
        ensures
            r is Ok,
            r->Ok_0@ == seq![0u8],
    {
        let mut bytes: Vec<u8> = Vec::new();
        bytes.push(0);
        assert(bytes@ =~= seq![0u8]);
        Ok(bytes)
    }

    /// The token that a swap of `token_in` pays out.
    pub fn get_token_out(&self, token_in: H160) -> (r: H160)
        ensures
            r == if self.token_a == token_in {
                self.token_b
            } else {
                self.token_a
            },
    {
        if self.token_a.same(&token_in) {
            self.token_b
        } else {
            self.token_a
        }
    }

    /// The pool takes its state from no event, so every log record is
    /// misdirected: an error, and the pool stays as it is.
    pub fn sync_from_log(&mut self, log: Log) -> (r: Result<(), EventLogError>)
        ensures
            r == Err::<(), EventLogError>(EventLogError::InvalidEventSignature),
            *final(self) == *old(self),
    {
        Err(EventLogError::InvalidEventSignature)
    }

    /// The signatures of the events that carry the pool's new state: none.
    pub fn sync_on_event_signatures(&self) -> (r: Vec<H256>)
        ensures
            r@ == Seq::<H256>::empty(),
    {
        Vec::new()
    }

    /// The two local prices are reciprocal up to rounding: where both
    /// reserves hold something and both prices exist, their product is at
    /// most one, and more than one once each price is raised by the smallest
    /// step of the fixed-point format.
    pub proof fn lemma_prices_are_reciprocal(self, other_token: H160)
        requires
            self.reserve_0 > 0,
            self.reserve_1 > 0,
            other_token != self.token_a,
        ensures
            match (
                self.spec_calculate_price_64_x_64(self.token_a),
                self.spec_calculate_price_64_x_64(other_token),
            ) {
                (Ok(price_a), Ok(price_b)) => price_a * price_b <= Q64_ONE * Q64_ONE < (price_a
                    + 1) * (price_b + 1),
                _ => true,
            },
    {
        lemma_prices_are_reciprocal(
            self.reserve_0 as nat,
            self.token_a_decimals,
            self.reserve_1 as nat,
            self.token_b_decimals,
        );
    }
}

} // verus!
