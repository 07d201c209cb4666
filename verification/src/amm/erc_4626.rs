//! Tokenized vaults: a pool of shares (the vault token) against the assets
//! that back them.

use crate::amm::arithmetic::{lemma_quotient_at_most, lemma_quotient_rounds_down};
use crate::amm::fixed_point::{lemma_empty_reserves_price_at_parity, lemma_prices_are_reciprocal, price_64_x_64, spec_price_64_x_64, Q64_ONE};
use crate::errors::ArithmeticError;
use crate::types::{checked_add, checked_mul, checked_sub, difference, product, quotient, sum, u256_limit, H160, H256, U256};
use vstd::prelude::*;

verus! {

/// The signature of the event that a vault logs on a deposit.
pub const DEPOSIT_EVENT_SIGNATURE: [u8; 32] = [
    220, 188, 28, 5, 36, 15, 49, 255, 58, 208, 103, 239, 30, 227, 92, 228, 153, 119, 98, 117, 46,
    58, 9, 82, 132, 117, 69, 68, 244, 199, 9, 215,
];

/// The signature of the event that a vault logs on a withdrawal.
pub const WITHDRAW_EVENT_SIGNATURE: [u8; 32] = [
    251, 222, 121, 125, 32, 28, 104, 27, 145, 5, 101, 41, 17, 158, 11, 2, 64, 124, 123, 185, 106,
    74, 44, 117, 192, 31, 201, 102, 114, 50, 200, 219,
];

/// A tokenized vault.
#[derive(Clone, Copy, Debug, PartialEq, Eq)]
pub struct ERC4626Vault {
    /// The token received from depositing: the shares. Its address is the
    /// vault's own.
    pub vault_token: H160,
    pub vault_token_decimals: u8,
    /// The token received from withdrawing: the underlying asset.
    pub asset_token: H160,
    pub asset_token_decimals: u8,
    /// The total supply of shares.
    pub vault_reserve: U256,
    /// The total of assets that the vault holds.
    pub asset_reserve: U256,
    pub fee: u32,
}

impl Default for ERC4626Vault {
    /// A vault of which nothing is known: every field is zero.
    fn default() -> (vault: ERC4626Vault)
        ensures
            vault.vault_token == H160::zero_spec(),
            vault.vault_token_decimals == 0,
            vault.asset_token == H160::zero_spec(),
            vault.asset_token_decimals == 0,
            vault.vault_reserve@ == 0,
            vault.asset_reserve@ == 0,
            vault.fee == 0,
    {
        ERC4626Vault {
            vault_token: H160::zero(),
            vault_token_decimals: 0,
            asset_token: H160::zero(),
            asset_token_decimals: 0,
            vault_reserve: U256::zero(),
            asset_reserve: U256::zero(),
            fee: 0,
        }
    }
}

impl ERC4626Vault {
    /// The price of `base_token` in the other token as a 64.64 fixed-point
    /// value. Any token but the vault token is taken for the asset token.
    pub open spec fn spec_calculate_price_64_x_64(&self, base_token: H160) -> Result<
        u128,
        ArithmeticError,
    > {
        if base_token == self.vault_token {
            spec_price_64_x_64(
                self.vault_reserve@,
                self.vault_token_decimals,
                self.asset_reserve@,
                self.asset_token_decimals,
            )
        } else {
            spec_price_64_x_64(
                self.asset_reserve@,
                self.asset_token_decimals,
                self.vault_reserve@,
                self.vault_token_decimals,
            )
        }
    }

    /// What `amount_in` buys at the ratio `reserve_out / reserve_in`, rounded
    /// down. Nothing buys nothing, and while no share exists every amount
    /// buys the same amount, whichever way the swap goes.
    pub open spec fn spec_get_amount_out(
        &self,
        amount_in: nat,
        reserve_in: nat,
        reserve_out: nat,
    ) -> nat {
        if amount_in == 0 {
            0
        } else if self.vault_reserve@ == 0 {
            amount_in
        } else {
            amount_in * reserve_out / reserve_in
        }
    }

    /// Whether the proportional formula can be evaluated in 256 bits: where
    /// it applies, the divisor is not zero and the product fits.
    pub open spec fn amount_out_defined(
        &self,
        amount_in: nat,
        reserve_in: nat,
        reserve_out: nat,
    ) -> bool {
        amount_in == 0 || self.vault_reserve@ == 0 || (reserve_in != 0 && amount_in * reserve_out
            < u256_limit())
    }

    /// What a swap of `amount_in` of `token_in` pays out. Any token but the
    /// vault token is taken for the asset token.
    pub open spec fn spec_simulate_swap(&self, token_in: H160, amount_in: nat) -> nat {
        if self.vault_token == token_in {
            self.spec_get_amount_out(amount_in, self.vault_reserve@, self.asset_reserve@)
        } else {
            self.spec_get_amount_out(amount_in, self.asset_reserve@, self.vault_reserve@)
        }
    }

    /// Whether the output of a swap can be computed.
    pub open spec fn swap_defined(&self, token_in: H160, amount_in: nat) -> bool {
        if self.vault_token == token_in {
            self.amount_out_defined(amount_in, self.vault_reserve@, self.asset_reserve@)
        } else {
            self.amount_out_defined(amount_in, self.asset_reserve@, self.vault_reserve@)
        }
    }

    /// Whether a swap can be applied to the reserves: its output can be
    /// computed, shares that come in exist and their assets are there, and
    /// assets that come in and the shares minted for them fit in 256 bits.
    pub open spec fn swap_mut_defined(&self, token_in: H160, amount_in: nat) -> bool {
        &&& self.swap_defined(token_in, amount_in)
        &&& if self.vault_token == token_in {
            &&& amount_in <= self.vault_reserve@
            &&& self.spec_simulate_swap(token_in, amount_in) <= self.asset_reserve@
        } else {
            &&& self.asset_reserve@ + amount_in < u256_limit()
            &&& self.vault_reserve@ + self.spec_simulate_swap(token_in, amount_in) < u256_limit()
        }
    }

    /// Whether `after` is this vault once `amount_in` of `token_in` has been
    /// swapped: shares that come in are burnt and their assets leave, assets
    /// that come in stay and their shares are minted. Nothing else changes.
    pub open spec fn swapped_into(&self, after: ERC4626Vault, token_in: H160, amount_in: nat) -> bool {
        let amount_out = self.spec_simulate_swap(token_in, amount_in);
        &&& after.vault_token == self.vault_token
        &&& after.vault_token_decimals == self.vault_token_decimals
        &&& after.asset_token == self.asset_token
        &&& after.asset_token_decimals == self.asset_token_decimals
        &&& after.fee == self.fee
        &&& if self.vault_token == token_in {
            &&& after.vault_reserve@ == self.vault_reserve@ - amount_in
            &&& after.asset_reserve@ == self.asset_reserve@ - amount_out
        } else {
            &&& after.asset_reserve@ == self.asset_reserve@ + amount_in
            &&& after.vault_reserve@ == self.vault_reserve@ + amount_out
        }
    }

    /// A vault with the given state.
    pub fn new(
        vault_token: H160,
        vault_token_decimals: u8,
        asset_token: H160,
        asset_token_decimals: u8,
        vault_reserve: U256,
        asset_reserve: U256,
        fee: u32,
    ) -> (vault: ERC4626Vault)
        ensures
            vault == (ERC4626Vault {
                vault_token,
                vault_token_decimals,
                asset_token,
                asset_token_decimals,
                vault_reserve,
                asset_reserve,
                fee,
            }),
    {
        ERC4626Vault {
            vault_token,
            vault_token_decimals,
            asset_token,
            asset_token_decimals,
            vault_reserve,
            asset_reserve,
            fee,
        }
    }

    /// The vault's address, which is that of its share token.
    pub fn address(&self) -> (r: H160)
        ensures
            r == self.vault_token,
    {
        self.vault_token
    }

    /// The two tokens: shares first, then the asset.
    pub fn tokens(&self) -> (r: Vec<H160>)
        ensures
            r@ == seq![self.vault_token, self.asset_token],
    {
        let mut tokens: Vec<H160> = Vec::new();
        tokens.push(self.vault_token);
        tokens.push(self.asset_token);
        assert(tokens@ =~= seq![self.vault_token, self.asset_token]);
        tokens
    }

    /// The fee rate.
    pub fn fee(&self) -> (r: u32)
        ensures
            r == self.fee,
    {
        self.fee
    }

    /// The signatures of the events after which the reserves are to be read
    /// again: deposit, then withdrawal.
    pub fn sync_on_event_signatures(&self) -> (r: Vec<H256>)
        ensures
            r@ == seq![H256(DEPOSIT_EVENT_SIGNATURE), H256(WITHDRAW_EVENT_SIGNATURE)],
    {
        let mut signatures: Vec<H256> = Vec::new();
        signatures.push(H256(DEPOSIT_EVENT_SIGNATURE));
        signatures.push(H256(WITHDRAW_EVENT_SIGNATURE));
        assert(signatures@ =~= seq![
            H256(DEPOSIT_EVENT_SIGNATURE),
            H256(WITHDRAW_EVENT_SIGNATURE),
        ]);
        signatures
    }

    /// The price of `base_token` in the other token as a 64.64 fixed-point
    /// value, from the reserves brought to a common number of decimals. An
    /// empty base side is priced at parity.
    pub fn calculate_price_64_x_64(&self, base_token: H160) -> (r: Result<u128, ArithmeticError>)
        ensures
            r == self.spec_calculate_price_64_x_64(base_token),
            self.vault_reserve@ == 0 && self.asset_reserve@ == 0 ==> r == Ok::<
                u128,
                ArithmeticError,
            >(Q64_ONE),
    {
        proof {
            lemma_empty_reserves_price_at_parity(
                self.vault_token_decimals,
                self.asset_token_decimals,
            );
            lemma_empty_reserves_price_at_parity(
                self.asset_token_decimals,
                self.vault_token_decimals,
            );
        }
        if base_token.same(&self.vault_token) {
            price_64_x_64(
                self.vault_reserve,
                self.vault_token_decimals,
                self.asset_reserve,
                self.asset_token_decimals,
            )
        } else {
            price_64_x_64(
                self.asset_reserve,
                self.asset_token_decimals,
                self.vault_reserve,
                self.vault_token_decimals,
            )
        }
    }

    /// What `amount_in` buys at the ratio `reserve_out / reserve_in`.
    pub fn get_amount_out(&self, amount_in: U256, reserve_in: U256, reserve_out: U256) -> (amount_out:
        U256)
        requires
            self.amount_out_defined(amount_in@, reserve_in@, reserve_out@),
        ensures
            amount_out@ == self.spec_get_amount_out(amount_in@, reserve_in@, reserve_out@),
            amount_in@ == 0 ==> amount_out@ == 0,
    {
        if amount_in.is_zero() {
            return U256::zero();
        }
        if self.vault_reserve.is_zero() {
            return amount_in;
        }
        quotient(product(amount_in, reserve_out), reserve_in)
    }

    /// Whether `get_amount_out` can be called on these amounts.
    pub fn can_get_amount_out(&self, amount_in: U256, reserve_in: U256, reserve_out: U256) -> (r:
        bool)
        ensures
            r == self.amount_out_defined(amount_in@, reserve_in@, reserve_out@),
    {
        if amount_in.is_zero() || self.vault_reserve.is_zero() {
            return true;
        }
        !reserve_in.is_zero() && checked_mul(amount_in, reserve_out).is_some()
    }

    /// What a swap of `amount_in` of `token_in` pays out. The vault stays as
    /// it is.
    pub fn simulate_swap(&self, token_in: H160, amount_in: U256) -> (amount_out: U256)
        requires
            self.swap_defined(token_in, amount_in@),
        ensures
            amount_out@ == self.spec_simulate_swap(token_in, amount_in@),
            amount_in@ == 0 ==> amount_out@ == 0,
    {
        if self.vault_token.same(&token_in) {
            self.get_amount_out(amount_in, self.vault_reserve, self.asset_reserve)
        } else {
            self.get_amount_out(amount_in, self.asset_reserve, self.vault_reserve)
        }
    }

    /// Whether `simulate_swap` can be called on this swap.
    pub fn can_simulate_swap(&self, token_in: H160, amount_in: U256) -> (r: bool)
        ensures
            r == self.swap_defined(token_in, amount_in@),
    {
        if self.vault_token.same(&token_in) {
            self.can_get_amount_out(amount_in, self.vault_reserve, self.asset_reserve)
        } else {
            self.can_get_amount_out(amount_in, self.asset_reserve, self.vault_reserve)
        }
    }

    /// Swaps `amount_in` of `token_in` and moves the reserves accordingly.
    pub fn simulate_swap_mut(&mut self, token_in: H160, amount_in: U256) -> (amount_out: U256)
        requires
            old(self).swap_mut_defined(token_in, amount_in@),
        ensures
            amount_out@ == old(self).spec_simulate_swap(token_in, amount_in@),
            old(self).swapped_into(*final(self), token_in, amount_in@),
            amount_in@ == 0 ==> amount_out@ == 0 && final(self).vault_reserve@ == old(
                self,
            ).vault_reserve@ && final(self).asset_reserve@ == old(self).asset_reserve@,
    {
        if self.vault_token.same(&token_in) {
            let amount_out: U256 = self.get_amount_out(
                amount_in,
                self.vault_reserve,
                self.asset_reserve,
            );
            self.vault_reserve = difference(self.vault_reserve, amount_in);
            self.asset_reserve = difference(self.asset_reserve, amount_out);
            amount_out
        } else {
            let amount_out: U256 = self.get_amount_out(
                amount_in,
                self.asset_reserve,
                self.vault_reserve,
            );
            self.asset_reserve = sum(self.asset_reserve, amount_in);
            self.vault_reserve = sum(self.vault_reserve, amount_out);
            amount_out
        }
    }

    /// Whether `simulate_swap_mut` can be called on this swap.
    pub fn can_simulate_swap_mut(&self, token_in: H160, amount_in: U256) -> (r: bool)
        ensures
            r == self.swap_mut_defined(token_in, amount_in@),
    {
        if !self.can_simulate_swap(token_in, amount_in) {
            return false;
        }
        let amount_out: U256 = self.simulate_swap(token_in, amount_in);
        if self.vault_token.same(&token_in) {
            checked_sub(self.vault_reserve, amount_in).is_some() && checked_sub(
                self.asset_reserve,
                amount_out,
            ).is_some()
        } else {
            checked_add(self.asset_reserve, amount_in).is_some() && checked_add(
                self.vault_reserve,
                amount_out,
            ).is_some()
        }
    }

    /// Takes over the reserves that the chain reports: the total supply of
    /// shares and the total of assets.
    pub fn sync_reserves(&mut self, total_supply: U256, total_assets: U256)
        ensures
            *final(self) == (ERC4626Vault {
                vault_reserve: total_supply,
                asset_reserve: total_assets,
                ..*old(self)
            }),
    {
        self.vault_reserve = total_supply;
        self.asset_reserve = total_assets;
    }

    /// The price of the shares in assets and the price of the asset in
    /// shares are reciprocal up to rounding: where both reserves hold
    /// something and both prices exist, their product is at most one, and
    /// more than one once each price is raised by the smallest step of the
    /// fixed-point format.
    pub proof fn lemma_prices_are_reciprocal(self, other_token: H160)
        requires
            self.vault_reserve@ > 0,
            self.asset_reserve@ > 0,
            other_token != self.vault_token,
        ensures
            match (
                self.spec_calculate_price_64_x_64(self.vault_token),
                self.spec_calculate_price_64_x_64(other_token),
            ) {
                (Ok(share_price), Ok(asset_price)) => share_price * asset_price <= Q64_ONE
                    * Q64_ONE < (share_price + 1) * (asset_price + 1),
                _ => true,
            },
    {
        lemma_prices_are_reciprocal(
            self.vault_reserve@,
            self.vault_token_decimals,
            self.asset_reserve@,
            self.asset_token_decimals,
        );
    }

    /// A vault without shares and without assets prices both tokens at
    /// parity.
    pub proof fn lemma_empty_vault_prices_at_parity(self, base_token: H160)
        requires
            self.vault_reserve@ == 0,
            self.asset_reserve@ == 0,
        ensures
            self.spec_calculate_price_64_x_64(base_token) == Ok::<u128, ArithmeticError>(Q64_ONE),
    {
        lemma_empty_reserves_price_at_parity(self.vault_token_decimals, self.asset_token_decimals);
        lemma_empty_reserves_price_at_parity(self.asset_token_decimals, self.vault_token_decimals);
    }

    /// A swap of nothing pays out nothing and can always be made.
    pub proof fn lemma_swap_of_nothing(self, token_in: H160)
        ensures
            self.swap_mut_defined(token_in, 0),
            self.spec_simulate_swap(token_in, 0) == 0,
            self.swapped_into(self, token_in, 0),
    {
        self.vault_reserve.lemma_bounded();
        self.asset_reserve.lemma_bounded();
    }

    /// Swapping and then swapping back what came out creates no value: the
    /// second swap returns no more than went into the first.
    ///
    /// Two round trips are left out, because there the rule that an empty
    /// vault swaps one for one hands out more than went in: redeeming every
    /// share of a vault that holds more assets than shares, and depositing
    /// into a vault that holds assets but no shares.
    pub proof fn lemma_round_trip_creates_no_value(
        self,
        between: ERC4626Vault,
        token_in: H160,
        token_back: H160,
        amount_in: nat,
    )
        requires
            (token_in == self.vault_token) != (token_back == self.vault_token),
            self.swap_mut_defined(token_in, amount_in),
            self.swapped_into(between, token_in, amount_in),
            between.swap_defined(token_back, self.spec_simulate_swap(token_in, amount_in)),
            !(token_in == self.vault_token && 0 < amount_in && amount_in == self.vault_reserve@
                && self.vault_reserve@ < self.asset_reserve@),
            !(token_in != self.vault_token && 0 < amount_in && self.vault_reserve@ == 0 && 0
                < self.asset_reserve@),
        ensures
            between.spec_simulate_swap(token_back, self.spec_simulate_swap(token_in, amount_in))
                <= amount_in,
    {
        let shares = self.vault_reserve@ as int;
        let assets = self.asset_reserve@ as int;
        let x = amount_in as int;
        let amount_out = self.spec_simulate_swap(token_in, amount_in) as int;
        let amount_back = between.spec_simulate_swap(token_back, amount_out as nat) as int;
        if amount_in == 0 || amount_out == 0 {
        } else if token_in == self.vault_token {
            // Shares come in: out = x * assets / shares, with shares > 0.
            assert(amount_out == (x * assets) / shares);
            assert(0 <= x * assets) by (nonlinear_arith)
                requires
                    0 <= x,
                    0 <= assets,
            ;
            lemma_quotient_rounds_down(x * assets, shares);
            if x == shares {
                assert(x * assets == shares * assets);
                vstd::arithmetic::div_mod::lemma_div_multiples_vanish(assets, shares);
            } else {
                assert(amount_out * (shares - x) <= x * (assets - amount_out)) by (nonlinear_arith)
                    requires
                        amount_out * shares <= x * assets,
                ;
                lemma_quotient_at_most(amount_out * (shares - x), assets - amount_out, x);
            }
        } else {
            if shares == 0 {
                // The vault was empty: one for one, then x * x / x on the way back.
                assert(amount_out == x);
                vstd::arithmetic::div_mod::lemma_div_multiples_vanish(x, x);
            } else {
                assert(amount_out == (x * shares) / assets);
                assert(0 <= x * shares) by (nonlinear_arith)
                    requires
                        0 <= x,
                        0 <= shares,
                ;
                lemma_quotient_rounds_down(x * shares, assets);
                assert(amount_out * (assets + x) <= x * (shares + amount_out)) by (nonlinear_arith)
                    requires
                        amount_out * assets <= x * shares,
                ;
                lemma_quotient_at_most(amount_out * (assets + x), shares + amount_out, x);
            }
        }
    }

    /// After such a round trip the side that paid out in the first swap is
    /// as it was, and the other side differs by what the round trip lost:
    /// shares that were burnt and not minted again, or assets that stayed in
    /// the vault.
    pub proof fn lemma_round_trip_reserves(
        self,
        between: ERC4626Vault,
        after: ERC4626Vault,
        token_in: H160,
        token_back: H160,
        amount_in: nat,
    )
        requires
            (token_in == self.vault_token) != (token_back == self.vault_token),
            self.swap_mut_defined(token_in, amount_in),
            self.swapped_into(between, token_in, amount_in),
            between.swap_mut_defined(token_back, self.spec_simulate_swap(token_in, amount_in)),
            between.swapped_into(after, token_back, self.spec_simulate_swap(token_in, amount_in)),
        ensures
            ({
                let amount_out = self.spec_simulate_swap(token_in, amount_in);
                let amount_back = between.spec_simulate_swap(token_back, amount_out);
                if token_in == self.vault_token {
                    &&& after.asset_reserve@ == self.asset_reserve@
                    &&& after.vault_reserve@ == self.vault_reserve@ - amount_in + amount_back
                } else {
                    &&& after.vault_reserve@ == self.vault_reserve@
                    &&& after.asset_reserve@ == self.asset_reserve@ + amount_in - amount_back
                }
            }),
    {
    }
}

} // verus!
