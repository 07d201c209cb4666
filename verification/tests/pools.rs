use amms::amm::bancor::BancorV3Pool;
use amms::amm::erc_4626::{ERC4626Vault, DEPOSIT_EVENT_SIGNATURE, WITHDRAW_EVENT_SIGNATURE};
use amms::amm::fixed_point::Q64_ONE;
use amms::amm::uniswap_v2::{UniswapV2Pool, SYNC_EVENT_SIGNATURE};
use amms::amm::AMM;
use amms::errors::SwapSimulationError;
use amms::types::{Log, H160, H256, U256};

fn first() -> H160 {
    H160([1; 20])
}

fn second() -> H160 {
    H160([2; 20])
}

fn place() -> H160 {
    H160([3; 20])
}

fn n(value: u128) -> U256 {
    U256::from_u128(value)
}

fn every_variant() -> Vec<AMM> {
    vec![
        AMM::UniswapV2Pool(UniswapV2Pool::new(place(), first(), 18, second(), 18, 1000, 4000, 300)),
        AMM::ERC4626Vault(ERC4626Vault::new(first(), 18, second(), 18, n(1000), n(4000), 0)),
        AMM::BancorV3Pool(BancorV3Pool::new(place(), first(), 18, second(), 18, 1000, 4000, 300)),
    ]
}

fn log_with(topics: Vec<H256>) -> Log {
    Log { address: place(), topics, data: Vec::new() }
}

#[test]
fn amm_address_and_tokens_of_every_variant() {
    let pools = every_variant();
    assert_eq!(pools[0].address(), place());
    assert_eq!(pools[1].address(), first());
    assert_eq!(pools[2].address(), place());
    for pool in pools {
        assert_eq!(pool.tokens(), vec![first(), second()]);
    }
}

#[test]
fn amm_only_the_external_fee_pool_requires_a_live_quote() {
    let pools = every_variant();
    assert!(!pools[0].requires_live_quote());
    assert!(!pools[1].requires_live_quote());
    assert!(pools[2].requires_live_quote());
}

#[test]
fn amm_price_of_every_variant() {
    for pool in every_variant() {
        assert_eq!(pool.calculate_price_64_x_64(first()), Ok(4 * Q64_ONE));
        assert_eq!(pool.calculate_price_64_x_64(second()), Ok(Q64_ONE / 4));
    }
}

#[test]
fn amm_swap_of_nothing_is_nothing_for_every_variant() {
    for mut pool in every_variant() {
        let before = pool;
        assert_eq!(pool.simulate_swap(first(), n(0)), Ok(n(0)));
        assert_eq!(pool.simulate_swap(second(), n(0)), Ok(n(0)));
        assert_eq!(pool.simulate_swap_mut(first(), n(0)), Ok(n(0)));
        assert_eq!(pool.simulate_swap_mut(second(), n(0)), Ok(n(0)));
        assert_eq!(pool, before);
    }
}

#[test]
fn amm_swap_of_every_variant() {
    let pools = every_variant();
    assert_eq!(pools[0].simulate_swap(first(), n(100)), Ok(n(362)));
    assert_eq!(pools[1].simulate_swap(first(), n(100)), Ok(n(400)));
    assert_eq!(
        pools[2].simulate_swap(first(), n(100)),
        Err(SwapSimulationError::LiveQuoteRequired)
    );
}

#[test]
fn amm_swap_mut_of_every_variant() {
    let mut pools = every_variant();
    assert_eq!(pools[0].simulate_swap_mut(first(), n(100)), Ok(n(362)));
    assert_eq!(
        pools[0],
        AMM::UniswapV2Pool(UniswapV2Pool::new(place(), first(), 18, second(), 18, 1100, 3638, 300))
    );
    assert_eq!(pools[1].simulate_swap_mut(second(), n(100)), Ok(n(25)));
    assert_eq!(
        pools[1],
        AMM::ERC4626Vault(ERC4626Vault::new(first(), 18, second(), 18, n(1025), n(4100), 0))
    );
    let before = pools[2];
    assert_eq!(
        pools[2].simulate_swap_mut(first(), n(100)),
        Err(SwapSimulationError::LiveQuoteRequired)
    );
    assert_eq!(pools[2], before);
}

#[test]
fn amm_swap_out_of_range_is_an_error_and_changes_nothing() {
    let mut vault = AMM::ERC4626Vault(ERC4626Vault::new(first(), 18, second(), 18, n(10), n(0), 0));
    let before = vault;
    assert_eq!(vault.simulate_swap(second(), n(1)), Err(SwapSimulationError::OutOfRange));
    assert_eq!(vault.simulate_swap_mut(second(), n(1)), Err(SwapSimulationError::OutOfRange));
    // The output can be computed, but the vault does not hold that many shares.
    assert_eq!(vault.simulate_swap(first(), n(11)), Ok(n(0)));
    assert_eq!(vault.simulate_swap_mut(first(), n(11)), Err(SwapSimulationError::OutOfRange));
    assert_eq!(vault, before);

    let mut pool = AMM::UniswapV2Pool(
        UniswapV2Pool::new(place(), first(), 18, second(), 18, u128::MAX, 4000, 300),
    );
    let before = pool;
    assert!(pool.simulate_swap(first(), n(1)).is_ok());
    assert_eq!(pool.simulate_swap_mut(first(), n(1)), Err(SwapSimulationError::OutOfRange));
    assert_eq!(pool, before);
}

#[test]
fn amm_round_trip_returns_no_more_than_went_in() {
    for mut pool in every_variant() {
        if pool.requires_live_quote() {
            continue;
        }
        let out = pool.simulate_swap_mut(first(), n(100)).unwrap();
        let back = pool.simulate_swap_mut(second(), out).unwrap();
        assert!(back.fits_u128() && back.as_u128() <= 100);
    }
}

#[test]
fn amm_event_signatures_of_every_variant() {
    let pools = every_variant();
    assert_eq!(pools[0].sync_on_event_signatures(), vec![H256(SYNC_EVENT_SIGNATURE)]);
    assert_eq!(
        pools[1].sync_on_event_signatures(),
        vec![H256(DEPOSIT_EVENT_SIGNATURE), H256(WITHDRAW_EVENT_SIGNATURE)]
    );
    assert_eq!(pools[2].sync_on_event_signatures(), Vec::<H256>::new());
}

#[test]
fn amm_syncs_on_its_own_events_only() {
    let pools = every_variant();
    let sync = log_with(vec![H256(SYNC_EVENT_SIGNATURE)]);
    let deposit = log_with(vec![H256(DEPOSIT_EVENT_SIGNATURE), H256([0; 32])]);
    let withdraw = log_with(vec![H256(WITHDRAW_EVENT_SIGNATURE)]);
    let hidden = log_with(vec![H256([0; 32]), H256(SYNC_EVENT_SIGNATURE)]);
    let empty = log_with(Vec::new());

    assert!(pools[0].syncs_on(&sync));
    assert!(!pools[0].syncs_on(&deposit));
    assert!(!pools[0].syncs_on(&hidden));
    assert!(!pools[0].syncs_on(&empty));

    assert!(pools[1].syncs_on(&deposit));
    assert!(pools[1].syncs_on(&withdraw));
    assert!(!pools[1].syncs_on(&sync));
    assert!(!pools[1].syncs_on(&empty));

    assert!(!pools[2].syncs_on(&sync));
    assert!(!pools[2].syncs_on(&deposit));
    assert!(!pools[2].syncs_on(&empty));
}
