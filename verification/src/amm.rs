//! Automated market makers: the pool variants and what they share.

mod arithmetic;
pub mod bancor;
pub mod erc_4626;
pub mod fixed_point;
pub mod uniswap_v2;

use crate::amm::bancor::BancorV3Pool;
use crate::amm::erc_4626::{ERC4626Vault, DEPOSIT_EVENT_SIGNATURE, WITHDRAW_EVENT_SIGNATURE};
use crate::amm::fixed_point::{lemma_empty_reserves_price_at_parity, Q64_ONE};
use crate::amm::uniswap_v2::UniswapV2Pool;
use crate::errors::{ArithmeticError, SwapSimulationError};
use crate::types::{Log, H160, H256, U256};
use vstd::prelude::*;

verus! {

/// A pool of any variant. Callers price, simulate and route events through
/// this type without asking which variant they hold.
#[derive(Clone, Copy, Debug, PartialEq, Eq)]
pub enum AMM {
    UniswapV2Pool(UniswapV2Pool),
    ERC4626Vault(ERC4626Vault),
    BancorV3Pool(BancorV3Pool),
}

impl AMM {
    /// The address that identifies the pool on the chain.
    pub open spec fn spec_address(&self) -> H160 {
        match self {
            AMM::UniswapV2Pool(pool) => pool.address,
            AMM::ERC4626Vault(vault) => vault.vault_token,
            AMM::BancorV3Pool(pool) => pool.address,
        }
    }

    /// The two tokens that the pool trades between.
    pub open spec fn spec_tokens(&self) -> Seq<H160> {
        match self {
            AMM::UniswapV2Pool(pool) => seq![pool.token_a, pool.token_b],
            AMM::ERC4626Vault(vault) => seq![vault.vault_token, vault.asset_token],
            AMM::BancorV3Pool(pool) => seq![pool.token_a, pool.token_b],
        }
    }

    /// The signatures of the events after which the pool's reserves are out
    /// of date.
    pub open spec fn event_signatures(&self) -> Seq<H256> {
        match self {
            AMM::UniswapV2Pool(pool) => UniswapV2Pool::event_signatures(),
            AMM::ERC4626Vault(vault) => seq![
                H256(DEPOSIT_EVENT_SIGNATURE),
                H256(WITHDRAW_EVENT_SIGNATURE),
            ],
            AMM::BancorV3Pool(pool) => Seq::empty(),
        }
    }

    /// Whether the pool's prices and swap outputs are local approximations
    /// that a quote from the chain has to confirm.
    pub open spec fn spec_requires_live_quote(&self) -> bool {
        self is BancorV3Pool
    }

    /// The price of `base_token` in the pool's other token as a 64.64
    /// fixed-point value.
    pub open spec fn spec_calculate_price_64_x_64(&self, base_token: H160) -> Result<
        u128,
        ArithmeticError,
    > {
        match self {
            AMM::UniswapV2Pool(pool) => pool.spec_calculate_price_64_x_64(base_token),
            AMM::ERC4626Vault(vault) => vault.spec_calculate_price_64_x_64(base_token),
            AMM::BancorV3Pool(pool) => pool.spec_calculate_price_64_x_64(base_token),
        }
    }

    /// What a swap of `amount_in` of `token_in` pays out, or why the pool
    /// cannot tell.
    pub open spec fn spec_simulate_swap(&self, token_in: H160, amount_in: nat) -> Result<
        nat,
        SwapSimulationError,
    > {
        match self {
            AMM::UniswapV2Pool(pool) => if pool.swap_defined(token_in, amount_in) {
                Ok(pool.spec_simulate_swap(token_in, amount_in))
            } else {
                Err(SwapSimulationError::OutOfRange)
            },
            AMM::ERC4626Vault(vault) => if vault.swap_defined(token_in, amount_in) {
                Ok(vault.spec_simulate_swap(token_in, amount_in))
            } else {
                Err(SwapSimulationError::OutOfRange)
            },
            AMM::BancorV3Pool(pool) => pool.spec_simulate_swap(token_in, amount_in),
        }
    }

    /// What a swap of `amount_in` of `token_in` pays out where it can also be
    /// applied to the reserves, or why it cannot.
    pub open spec fn spec_simulate_swap_mut(&self, token_in: H160, amount_in: nat) -> Result<
        nat,
        SwapSimulationError,
    > {
        match self {
            AMM::UniswapV2Pool(pool) => if pool.swap_mut_defined(token_in, amount_in) {
                Ok(pool.spec_simulate_swap(token_in, amount_in))
            } else {
                Err(SwapSimulationError::OutOfRange)
            },
            AMM::ERC4626Vault(vault) => if vault.swap_mut_defined(token_in, amount_in) {
                Ok(vault.spec_simulate_swap(token_in, amount_in))
            } else {
                Err(SwapSimulationError::OutOfRange)
            },
            AMM::BancorV3Pool(pool) => pool.spec_simulate_swap(token_in, amount_in),
        }
    }

    /// Whether `after` is this pool once `amount_in` of `token_in` has been
    /// swapped.
    pub open spec fn swapped_into(&self, after: AMM, token_in: H160, amount_in: nat) -> bool {
        match (*self, after) {
            (AMM::UniswapV2Pool(pool), AMM::UniswapV2Pool(next)) => pool.swapped_into(
                next,
                token_in,
                amount_in,
            ),
            (AMM::ERC4626Vault(vault), AMM::ERC4626Vault(next)) => vault.swapped_into(
                next,
                token_in,
                amount_in,
            ),
            (AMM::BancorV3Pool(pool), AMM::BancorV3Pool(next)) => pool == next,
            _ => false,
        }
    }

    /// The token by which the pool tells the direction of a swap: a swap of
    /// this token goes one way, a swap of any other token the other way.
    pub open spec fn first_token(&self) -> H160 {
        match self {
            AMM::UniswapV2Pool(pool) => pool.token_a,
            AMM::ERC4626Vault(vault) => vault.vault_token,
            AMM::BancorV3Pool(pool) => pool.token_a,
        }
    }

    /// The pool's two reserves: that of the first token, then that of the
    /// other.
    pub open spec fn reserves(&self) -> (nat, nat) {
        match self {
            AMM::UniswapV2Pool(pool) => (pool.reserve_0 as nat, pool.reserve_1 as nat),
            AMM::ERC4626Vault(vault) => (vault.vault_reserve@, vault.asset_reserve@),
            AMM::BancorV3Pool(pool) => (pool.reserve_0 as nat, pool.reserve_1 as nat),
        }
    }

    /// Whether the rule that an empty vault swaps one for one lets a round
    /// trip that starts with this swap hand out more than went in: the swap
    /// redeems every share of a vault that holds more assets than shares, or
    /// deposits into a vault that holds assets but no shares.
    pub open spec fn swaps_at_forced_parity(&self, token_in: H160, amount_in: nat) -> bool {
        match self {
            AMM::ERC4626Vault(vault) => amount_in > 0 && if token_in == vault.vault_token {
                amount_in == vault.vault_reserve@ && vault.vault_reserve@ < vault.asset_reserve@
            } else {
                vault.vault_reserve@ == 0 && 0 < vault.asset_reserve@
            },
            _ => false,
        }
    }

    /// Whether the record reports an event after which the pool's reserves
    /// are out of date: its first topic is one of the pool's event
    /// signatures.
    pub open spec fn spec_syncs_on(&self, log: &Log) -> bool {
        log.topics@.len() > 0 && self.event_signatures().contains(log.topics@[0])
    }

    /// The address that identifies the pool on the chain.
    pub fn address(&self) -> (r: H160)
        ensures
            r == self.spec_address(),
    {
        match self {
            AMM::UniswapV2Pool(pool) => pool.address(),
            AMM::ERC4626Vault(vault) => vault.address(),
            AMM::BancorV3Pool(pool) => pool.address,
        }
    }

    /// The two tokens that the pool trades between.
    pub fn tokens(&self) -> (r: Vec<H160>)
        ensures
            r@ == self.spec_tokens(),
    {
        match self {
            AMM::UniswapV2Pool(pool) => pool.tokens(),
            AMM::ERC4626Vault(vault) => vault.tokens(),
            AMM::BancorV3Pool(pool) => pool.tokens(),
        }
    }

    /// The signatures of the events after which the pool's reserves are out
    /// of date.
    pub fn sync_on_event_signatures(&self) -> (r: Vec<H256>)
        ensures
            r@ == self.event_signatures(),
    {
        match self {
            AMM::UniswapV2Pool(pool) => pool.sync_on_event_signatures(),
            AMM::ERC4626Vault(vault) => vault.sync_on_event_signatures(),
            AMM::BancorV3Pool(pool) => pool.sync_on_event_signatures(),
        }
    }

    /// Whether the pool's prices and swap outputs are local approximations
    /// that a quote from the chain has to confirm.
    pub fn requires_live_quote(&self) -> (r: bool)
        ensures
            r == self.spec_requires_live_quote(),
    {
        match self {
            AMM::UniswapV2Pool(pool) => false,
            AMM::ERC4626Vault(vault) => false,
            AMM::BancorV3Pool(pool) => pool.requires_live_quote(),
        }
    }

    /// The price of `base_token` in the pool's other token as a 64.64
    /// fixed-point value.
    pub fn calculate_price_64_x_64(&self, base_token: H160) -> (r: Result<u128, ArithmeticError>)
        ensures
            r == self.spec_calculate_price_64_x_64(base_token),
    {
        match self {
            AMM::UniswapV2Pool(pool) => pool.calculate_price_64_x_64(base_token),
            AMM::ERC4626Vault(vault) => vault.calculate_price_64_x_64(base_token),
            AMM::BancorV3Pool(pool) => pool.calculate_price_64_x_64(base_token),
        }
    }

    /// What a swap of `amount_in` of `token_in` pays out. The pool stays as
    /// it is.
    pub fn simulate_swap(&self, token_in: H160, amount_in: U256) -> (r: Result<
        U256,
        SwapSimulationError,
    >)
        ensures
            match self.spec_simulate_swap(token_in, amount_in@) {
                Ok(amount_out) => r is Ok && r->Ok_0@ == amount_out,
                Err(e) => r == Err::<U256, SwapSimulationError>(e),
            },
            amount_in@ == 0 ==> r is Ok && r->Ok_0@ == 0,
    {
        match self {
            AMM::UniswapV2Pool(pool) => pool.simulate_swap(token_in, amount_in),
            AMM::ERC4626Vault(vault) => {
                if vault.can_simulate_swap(token_in, amount_in) {
                    Ok(vault.simulate_swap(token_in, amount_in))
                } else {
                    Err(SwapSimulationError::OutOfRange)
                }
            },
            AMM::BancorV3Pool(pool) => pool.simulate_swap(token_in, amount_in),
        }
    }

    /// Swaps `amount_in` of `token_in` and moves the reserves accordingly. A
    /// swap that cannot be applied is an error and leaves the pool as it is.
    pub fn simulate_swap_mut(&mut self, token_in: H160, amount_in: U256) -> (r: Result<
        U256,
        SwapSimulationError,
    >)
        ensures
            match old(self).spec_simulate_swap_mut(token_in, amount_in@) {
                Ok(amount_out) => r is Ok && r->Ok_0@ == amount_out && old(self).swapped_into(
                    *final(self),
                    token_in,
                    amount_in@,
                ),
                Err(e) => r == Err::<U256, SwapSimulationError>(e) && *final(self) == *old(self),
            },
            amount_in@ == 0 ==> r is Ok && r->Ok_0@ == 0,
    {
        match self {
            AMM::UniswapV2Pool(pool) => pool.simulate_swap_mut(token_in, amount_in),
            AMM::ERC4626Vault(vault) => {
                proof {
                    vault.lemma_swap_of_nothing(token_in);
                }
                if vault.can_simulate_swap_mut(token_in, amount_in) {
                    Ok(vault.simulate_swap_mut(token_in, amount_in))
                } else {
                    Err(SwapSimulationError::OutOfRange)
                }
            },
            AMM::BancorV3Pool(pool) => pool.simulate_swap_mut(token_in, amount_in),
        }
    }

    /// Whether the record reports an event after which the pool's reserves
    /// are out of date.
    pub fn syncs_on(&self, log: &Log) -> (r: bool)
        ensures
            r == self.spec_syncs_on(log),
    {
        if log.topics.len() == 0 {
            return false;
        }
        let signatures: Vec<H256> = self.sync_on_event_signatures();
        let mut i: usize = 0;
        while i < signatures.len()
            invariant
                i <= signatures.len(),
                log.topics@.len() > 0,
                signatures@ == self.event_signatures(),
                forall|j: int| 0 <= j < i ==> signatures@[j] != log.topics@[0],
            decreases signatures.len() - i,
        {
            if signatures[i].same(&log.topics[0]) {
                return true;
            }
            i += 1;
        }
        false
    }

    /// The price of the first token in the other and the price of the other
    /// in the first are reciprocal up to rounding, whatever the variant:
    /// where both reserves hold something and both prices exist, their
    /// product is at most one, and more than one once each price is raised
    /// by the smallest step of the fixed-point format.
    pub proof fn lemma_prices_are_reciprocal(self, other_token: H160)
        requires
            self.reserves().0 > 0,
            self.reserves().1 > 0,
            other_token != self.first_token(),
        ensures
            match (
                self.spec_calculate_price_64_x_64(self.first_token()),
                self.spec_calculate_price_64_x_64(other_token),
            ) {
                (Ok(first_price), Ok(other_price)) => first_price * other_price <= Q64_ONE
                    * Q64_ONE < (first_price + 1) * (other_price + 1),
                _ => true,
            },
    {
        match self {
            AMM::UniswapV2Pool(pool) => {
                pool.lemma_prices_are_reciprocal(other_token);
            },
            AMM::ERC4626Vault(vault) => {
                vault.lemma_prices_are_reciprocal(other_token);
            },
            AMM::BancorV3Pool(pool) => {
                pool.lemma_prices_are_reciprocal(other_token);
            },
        }
    }

    /// A pool with two empty reserves prices both tokens at parity, whatever
    /// the variant and the decimals.
    pub proof fn lemma_empty_pool_prices_at_parity(self, base_token: H160)
        requires
            self.reserves() == (0nat, 0nat),
        ensures
            self.spec_calculate_price_64_x_64(base_token) == Ok::<u128, ArithmeticError>(Q64_ONE),
    {
        match self {
            AMM::UniswapV2Pool(pool) => {
                pool.lemma_empty_pool_prices_at_parity(base_token);
            },
            AMM::ERC4626Vault(vault) => {
                vault.lemma_empty_vault_prices_at_parity(base_token);
            },
            AMM::BancorV3Pool(pool) => {
                lemma_empty_reserves_price_at_parity(pool.token_a_decimals, pool.token_b_decimals);
                lemma_empty_reserves_price_at_parity(pool.token_b_decimals, pool.token_a_decimals);
            },
        }
    }

    /// A swap of nothing pays out nothing and leaves the pool as it is,
    /// whatever the variant.
    pub proof fn lemma_swap_of_nothing(self, token_in: H160)
        ensures
            self.spec_simulate_swap(token_in, 0) == Ok::<nat, SwapSimulationError>(0),
            self.spec_simulate_swap_mut(token_in, 0) == Ok::<nat, SwapSimulationError>(0),
    {
        match self {
            AMM::UniswapV2Pool(pool) => {
                pool.lemma_swap_of_nothing(token_in);
            },
            AMM::ERC4626Vault(vault) => {
                vault.lemma_swap_of_nothing(token_in);
            },
            AMM::BancorV3Pool(pool) => {},
        }
    }

    /// Swapping and then swapping back what came out creates no value,
    /// whatever the variant: the second swap returns no more than went into
    /// the first. Left out are the round trips that an empty vault's forced
    /// parity decides.
    pub proof fn lemma_round_trip_creates_no_value(
        self,
        between: AMM,
        token_in: H160,
        token_back: H160,
        amount_in: nat,
    )
        requires
            (token_in == self.first_token()) != (token_back == self.first_token()),
            self.spec_simulate_swap_mut(token_in, amount_in) is Ok,
            self.swapped_into(between, token_in, amount_in),
            between.spec_simulate_swap(
                token_back,
                self.spec_simulate_swap_mut(token_in, amount_in)->Ok_0,
            ) is Ok,
            !self.swaps_at_forced_parity(token_in, amount_in),
        ensures
            between.spec_simulate_swap(
                token_back,
                self.spec_simulate_swap_mut(token_in, amount_in)->Ok_0,
            )->Ok_0 <= amount_in,
    {
        match (self, between) {
            (AMM::UniswapV2Pool(pool), AMM::UniswapV2Pool(next)) => {
                pool.lemma_round_trip_returns_no_more(next, token_in, token_back, amount_in);
            },
            (AMM::ERC4626Vault(vault), AMM::ERC4626Vault(next)) => {
                vault.lemma_round_trip_creates_no_value(next, token_in, token_back, amount_in);
            },
            _ => {},
        }
    }
}

} // verus!
