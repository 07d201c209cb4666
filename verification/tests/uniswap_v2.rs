use amms::amm::fixed_point::Q64_ONE;
use amms::amm::uniswap_v2::{decode_sync_data, UniswapV2Pool, SYNC_EVENT_SIGNATURE};
use amms::errors::{ArithmeticError, EventLogError, SwapSimulationError};
use amms::types::{Log, H160, H256, U256};
use std::str::FromStr;

fn address(text: &str) -> H160 {
    H160(ethers::types::H160::from_str(text).unwrap().0)
}

fn number(text: &str) -> U256 {
    U256(ethers::types::U256::from_dec_str(text).unwrap().0)
}

fn price(q64: u128) -> f64 {
    q64 as f64 / 18446744073709551616.0
}

fn token_a() -> H160 {
    address("0xA0b86991c6218b36c1d19D4a2e9Eb0cE3606eB48")
}

fn token_b() -> H160 {
    address("0xC02aaA39b223FE8D0A0e5C4F27eAD9083C756Cc2")
}

fn pool(reserve_0: u128, reserve_1: u128, fee: u32) -> UniswapV2Pool {
    UniswapV2Pool::new(
        address("0xB4e16d0168e52d35CaCD2c6185b44281Ec28C9Dc"),
        token_a(),
        6,
        token_b(),
        18,
        reserve_0,
        reserve_1,
        fee,
    )
}

/// The data of a reserve-change event: two words of 32 bytes.
fn sync_data(reserve_0: u128, reserve_1: u128) -> Vec<u8> {
    let mut data = vec![0u8; 16];
    data.extend_from_slice(&reserve_0.to_be_bytes());
    data.extend_from_slice(&[0u8; 16]);
    data.extend_from_slice(&reserve_1.to_be_bytes());
    data
}

fn sync_log(data: Vec<u8>) -> Log {
    Log {
        address: address("0xB4e16d0168e52d35CaCD2c6185b44281Ec28C9Dc"),
        topics: vec![H256(SYNC_EVENT_SIGNATURE)],
        data,
    }
}

#[test]
fn pool_sync_signature_is_the_hash_of_the_event() {
    assert_eq!(SYNC_EVENT_SIGNATURE, ethers::utils::keccak256("Sync(uint112,uint112)"));
    assert_eq!(
        pool(1, 1, 300).sync_on_event_signatures(),
        vec![H256(SYNC_EVENT_SIGNATURE)]
    );
}

#[test]
fn pool_new_from_address_is_empty() {
    let pool = UniswapV2Pool::new_from_address(token_a(), 300);
    assert_eq!(pool.address(), token_a());
    assert_eq!(pool.fee(), 300);
    assert_eq!(pool.tokens(), vec![H160([0; 20]), H160([0; 20])]);
    assert_eq!(pool.token_a_decimals, 0);
    assert_eq!(pool.token_b_decimals, 0);
    assert_eq!(pool.reserve_0, 0);
    assert_eq!(pool.reserve_1, 0);
    assert_eq!(UniswapV2Pool::default(), UniswapV2Pool::new_from_address(H160([0; 20]), 0));
}

#[test]
fn pool_get_token_out_is_the_other_token() {
    let pool = pool(1, 1, 300);
    assert_eq!(pool.get_token_out(token_a()), token_b());
    assert_eq!(pool.get_token_out(token_b()), token_a());
    assert_eq!(pool.get_token_out(H160([7; 20])), token_a());
}

#[test]
fn pool_price_of_both_tokens() {
    let pool = pool(47092140895915, 28396598565590008529300, 300);
    let price_a = pool.calculate_price_64_x_64(token_a()).unwrap();
    let price_b = pool.calculate_price_64_x_64(token_b()).unwrap();
    assert_eq!(price_a, 11123401407064628);
    assert_eq!(price_b, 30591574867092394336528);
    assert_eq!(price(price_a), 0.0006030007985483893);
    assert_eq!(price(price_b), 1658.3725965327264);
}

#[test]
fn pool_prices_are_reciprocal_up_to_rounding() {
    let pool = pool(47092140895915, 28396598565590008529300, 300);
    let price_a = ethers::types::U256::from(pool.calculate_price_64_x_64(token_a()).unwrap());
    let price_b = ethers::types::U256::from(pool.calculate_price_64_x_64(token_b()).unwrap());
    let one = ethers::types::U256::from(Q64_ONE) * ethers::types::U256::from(Q64_ONE);
    assert!(price_a * price_b <= one);
    assert!(one < (price_a + 1) * (price_b + 1));
}

#[test]
fn pool_price_of_empty_pool_is_parity() {
    let pool = pool(0, 0, 300);
    assert_eq!(pool.calculate_price_64_x_64(token_a()), Ok(Q64_ONE));
    assert_eq!(pool.calculate_price_64_x_64(token_b()), Ok(Q64_ONE));
}

#[test]
fn pool_price_that_needs_more_than_64_integer_bits_is_an_error() {
    let mut pool = pool(1, u128::MAX, 300);
    pool.token_a_decimals = 18;
    assert_eq!(
        pool.calculate_price_64_x_64(token_a()),
        Err(ArithmeticError::QuotientOverflow)
    );
    assert_eq!(pool.calculate_price_64_x_64(token_b()), Ok(0));
}

#[test]
fn pool_get_amount_out_follows_the_constant_product_formula() {
    let pool = pool(1000, 1000, 300);
    // 997 * 100 * 1000 / (1000 * 1000 + 997 * 100), rounded down.
    assert_eq!(
        pool.get_amount_out(number("100"), number("1000"), number("1000")),
        Ok(number("90"))
    );
    assert_eq!(
        pool.get_amount_out(
            number("1000000000000000000"),
            number("5000000000000000000000"),
            number("3000000000000000000000000")
        ),
        Ok(number("598080742699905638815"))
    );
}

#[test]
fn pool_get_amount_out_is_nothing_for_nothing_or_an_empty_side() {
    let pool = pool(1000, 1000, 300);
    assert_eq!(pool.get_amount_out(number("0"), number("5"), number("5")), Ok(number("0")));
    assert_eq!(pool.get_amount_out(number("5"), number("0"), number("5")), Ok(number("0")));
    assert_eq!(pool.get_amount_out(number("5"), number("5"), number("0")), Ok(number("0")));
}

#[test]
fn pool_fee_is_rounded_down_to_ten_thousandths() {
    assert_eq!(pool(1000, 1000, 0).simulate_swap(token_a(), number("100")), Ok(number("90")));
    assert_eq!(pool(1000, 1000, 305).simulate_swap(token_a(), number("100")), Ok(number("90")));
    assert_eq!(pool(1000, 1000, 100000).simulate_swap(token_a(), number("100")), Ok(number("0")));
    assert_eq!(pool(1000, 1000, 100009).simulate_swap(token_a(), number("100")), Ok(number("0")));
    // A fee above the whole amount leaves the formula undefined.
    assert_eq!(
        pool(1000, 1000, 100010).simulate_swap(token_a(), number("100")),
        Err(SwapSimulationError::OutOfRange)
    );
    assert_eq!(pool(1000, 1000, 100010).simulate_swap(token_a(), number("0")), Ok(number("0")));
}

#[test]
fn pool_simulate_swap_picks_the_direction_by_the_token() {
    let pool = pool(1000, 4000, 300);
    assert_eq!(pool.simulate_swap(token_a(), number("100")), Ok(number("362")));
    assert_eq!(pool.simulate_swap(token_b(), number("100")), Ok(number("24")));
    assert_eq!(pool.simulate_swap(H160([9; 20]), number("100")), Ok(number("24")));
}

#[test]
fn pool_simulate_swap_of_nothing_is_nothing() {
    let mut pool = pool(1000, 4000, 300);
    let before = pool;
    assert_eq!(pool.simulate_swap(token_a(), number("0")), Ok(number("0")));
    assert_eq!(pool.simulate_swap(token_b(), number("0")), Ok(number("0")));
    assert_eq!(pool.simulate_swap_mut(token_a(), number("0")), Ok(number("0")));
    assert_eq!(pool, before);
}

#[test]
fn pool_simulate_swap_fails_when_the_numerator_overflows() {
    let pool = pool(u128::MAX, u128::MAX, 300);
    let huge = U256([0, 0, 1, 0]);
    assert_eq!(pool.simulate_swap(token_a(), huge), Err(SwapSimulationError::OutOfRange));
    assert!(pool.simulate_swap(token_a(), number("1000000")).is_ok());
}

#[test]
fn pool_simulate_swap_mut_moves_both_reserves() {
    let mut pool = pool(1000, 1000, 300);
    assert_eq!(pool.simulate_swap_mut(token_a(), number("100")), Ok(number("90")));
    assert_eq!(pool.reserve_0, 1100);
    assert_eq!(pool.reserve_1, 910);
    assert_eq!(pool.simulate_swap_mut(token_b(), number("90")), Ok(number("98")));
    assert_eq!(pool.reserve_0, 1002);
    assert_eq!(pool.reserve_1, 1000);
    assert_eq!(pool.fee, 300);
    assert_eq!(pool.token_a, token_a());
    assert_eq!(pool.token_b, token_b());
}

#[test]
fn pool_swap_never_lowers_the_product_of_the_reserves() {
    for fee in [0, 300, 100000] {
        let mut pool = pool(1_000_000, 3_000_000, fee);
        let mut product = pool.reserve_0 * pool.reserve_1;
        for (token, amount) in [(token_a(), "1000"), (token_b(), "77"), (token_a(), "1")] {
            pool.simulate_swap_mut(token, number(amount)).unwrap();
            assert!(pool.reserve_0 * pool.reserve_1 >= product);
            product = pool.reserve_0 * pool.reserve_1;
        }
    }
}

#[test]
fn pool_round_trip_with_a_fee_returns_less() {
    let mut pool = pool(1000, 1000, 300);
    let out = pool.simulate_swap_mut(token_a(), number("100")).unwrap();
    let back = pool.simulate_swap_mut(token_b(), out).unwrap();
    assert_eq!(out, number("90"));
    assert_eq!(back, number("98"));
}

#[test]
fn pool_simulate_swap_mut_refuses_what_the_reserve_cannot_hold() {
    let mut pool = pool(u128::MAX - 5, 1000, 300);
    let before = pool;
    assert_eq!(
        pool.simulate_swap_mut(token_a(), number("6")),
        Err(SwapSimulationError::OutOfRange)
    );
    assert_eq!(pool, before);
    assert_eq!(
        pool.simulate_swap_mut(token_a(), U256([0, 0, 1, 0])),
        Err(SwapSimulationError::OutOfRange)
    );
    assert_eq!(pool, before);
    assert!(pool.simulate_swap_mut(token_a(), number("5")).is_ok());
    assert_eq!(pool.reserve_0, u128::MAX);
}

#[test]
fn pool_round_trip_returns_no_more_than_went_in_without_a_fee() {
    let mut pool = pool(1_000_000, 3_000_000, 0);
    let out = pool.simulate_swap_mut(token_a(), number("1000")).unwrap();
    assert_eq!(out, number("2997"));
    let back = pool.simulate_swap_mut(token_b(), out).unwrap();
    assert_eq!(back, number("999"));
    assert_eq!(pool.reserve_1, 3_000_000);
    assert_eq!(pool.reserve_0, 1_000_001);
}

#[test]
fn decode_sync_data_reads_two_big_endian_words() {
    assert_eq!(decode_sync_data(&sync_data(1, 2)), Ok((1, 2)));
    assert_eq!(
        decode_sync_data(&sync_data(47092140895915, 28396598565590008529300)),
        Ok((47092140895915, 28396598565590008529300))
    );
    assert_eq!(decode_sync_data(&sync_data(u128::MAX, 0)), Ok((u128::MAX, 0)));
    assert_eq!(decode_sync_data(&sync_data(0x0102, 0x0304_0000)), Ok((258, 50593792)));
}

#[test]
fn decode_sync_data_ignores_what_follows_the_two_words() {
    let mut data = sync_data(5, 6);
    data.extend_from_slice(&[0xff; 40]);
    assert_eq!(decode_sync_data(&data), Ok((5, 6)));
}

#[test]
fn decode_sync_data_refuses_short_data_and_wide_numbers() {
    assert_eq!(decode_sync_data(&Vec::new()), Err(EventLogError::InvalidEventData));
    let mut short = sync_data(5, 6);
    short.pop();
    assert_eq!(decode_sync_data(&short), Err(EventLogError::InvalidEventData));
    let mut wide = sync_data(5, 6);
    wide[15] = 1;
    assert_eq!(decode_sync_data(&wide), Err(EventLogError::InvalidEventData));
    let mut wide = sync_data(5, 6);
    wide[32] = 0x80;
    assert_eq!(decode_sync_data(&wide), Err(EventLogError::InvalidEventData));
}

#[test]
fn decode_sync_data_agrees_with_the_chain_encoding() {
    let encoded = ethers::abi::encode(&[
        ethers::abi::Token::Uint(ethers::types::U256::from(123456789u64)),
        ethers::abi::Token::Uint(ethers::types::U256::from(u128::MAX)),
    ]);
    assert_eq!(decode_sync_data(&encoded), Ok((123456789, u128::MAX)));
}

#[test]
fn pool_sync_from_log_takes_the_reserves() {
    let mut pool = pool(1, 2, 300);
    let before = pool;
    assert_eq!(pool.sync_from_log(sync_log(sync_data(700, 900))), Ok(()));
    assert_eq!(pool.reserve_0, 700);
    assert_eq!(pool.reserve_1, 900);
    pool.reserve_0 = 1;
    pool.reserve_1 = 2;
    assert_eq!(pool, before);
}

#[test]
fn pool_sync_from_log_refuses_a_foreign_topic() {
    let mut pool = pool(1, 2, 300);
    let before = pool;
    let mut log = sync_log(sync_data(700, 900));
    log.topics = vec![H256(ethers::utils::keccak256("Transfer(address,address,uint256)"))];
    assert_eq!(pool.sync_from_log(log), Err(EventLogError::InvalidEventSignature));
    assert_eq!(pool, before);

    // The signature counts only as the first topic.
    let mut log = sync_log(sync_data(700, 900));
    log.topics = vec![H256([0; 32]), H256(SYNC_EVENT_SIGNATURE)];
    assert_eq!(pool.sync_from_log(log), Err(EventLogError::InvalidEventSignature));
    assert_eq!(pool, before);
}

#[test]
fn pool_sync_from_log_refuses_a_record_without_topics() {
    let mut pool = pool(1, 2, 300);
    let before = pool;
    let mut log = sync_log(sync_data(700, 900));
    log.topics = Vec::new();
    assert_eq!(pool.sync_from_log(log), Err(EventLogError::InvalidEventSignature));
    assert_eq!(pool, before);
}

#[test]
fn pool_sync_from_log_refuses_malformed_data() {
    let mut pool = pool(1, 2, 300);
    let before = pool;
    assert_eq!(
        pool.sync_from_log(sync_log(vec![0u8; 63])),
        Err(EventLogError::InvalidEventData)
    );
    assert_eq!(pool, before);
}
