use uniswap_v2::helper::{
    find_pool, get_amount_in, get_amount_out, get_amounts_in, get_amounts_out, get_reserves,
    pair_for_on_chain, quote, sort_tokens, HelperError, Pool,
};
use uniswap_v2::types::AccountId;

fn token(n: u8) -> AccountId {
    AccountId::from([n; 32])
}

fn three_pools() -> Vec<Pool> {
    vec![
        Pool { token_a: token(1), token_b: token(2), pair: token(12), reserve_0: 1000, reserve_1: 2000 },
        Pool { token_a: token(3), token_b: token(2), pair: token(23), reserve_0: 3000, reserve_1: 500 },
    ]
}

#[test]
fn sort_tokens_orders_the_pair() {
    assert_eq!(sort_tokens(token(1), token(2)), Ok((token(1), token(2))));
    assert_eq!(sort_tokens(token(2), token(1)), Ok((token(1), token(2))));
}

#[test]
fn sort_tokens_rejects_equal_tokens() {
    assert_eq!(sort_tokens(token(9), token(9)), Err(HelperError::IdenticalAddresses));
    assert_eq!(sort_tokens(AccountId::zero(), AccountId::zero()), Err(HelperError::IdenticalAddresses));
}

#[test]
fn sort_tokens_rejects_the_zero_address() {
    assert_eq!(sort_tokens(AccountId::zero(), token(7)), Err(HelperError::ZeroAddress));
    assert_eq!(sort_tokens(token(7), token(0)), Err(HelperError::ZeroAddress));
    assert_eq!(sort_tokens(token(255), token(7)), Ok((token(7), token(255))));
    let mut least = [0u8; 32];
    least[31] = 1;
    assert_eq!(
        sort_tokens(token(7), AccountId::from(least)),
        Ok((AccountId::from(least), token(7)))
    );
}

#[test]
fn quote_is_proportional() {
    assert_eq!(quote(10, 5, 20), Ok(40));
    assert_eq!(quote(3, 2, 1), Ok(1));
    assert_eq!(quote(1000, 1000, 4000), Ok(4000));
}

#[test]
fn quote_rejects_degenerate_inputs() {
    assert_eq!(quote(0, 1, 1), Err(HelperError::InsufficientAmount));
    assert_eq!(quote(1, 0, 1), Err(HelperError::InsufficientLiquidity));
    assert_eq!(quote(1, 1, 0), Err(HelperError::InsufficientLiquidity));
    assert_eq!(quote(u128::MAX, 1, 2), Err(HelperError::CastOverflow));
}

#[test]
fn quote_uses_the_wide_product() {
    assert_eq!(quote(u128::MAX, u128::MAX, u128::MAX), Ok(u128::MAX));
    assert_eq!(quote(u128::MAX, 2, 1), Ok(u128::MAX / 2));
}

#[test]
fn quote_round_trip_is_exact_without_truncation() {
    let there = quote(10, 5, 20).unwrap();
    assert_eq!(quote(there, 20, 5), Ok(10));
}

#[test]
fn quote_round_trip_never_gains() {
    let there = quote(7, 3, 2).unwrap();
    assert_eq!(there, 4);
    let back = quote(there, 2, 3).unwrap();
    assert_eq!(back, 6);
    assert!(back <= 7);
}

#[test]
fn get_amount_out_matches_closed_form() {
    let expected = 1000u128 * 997 * 1_000_000 / (1_000_000 * 1000 + 1000 * 997);
    assert_eq!(get_amount_out(1000, 1_000_000, 1_000_000), Ok(expected));
    assert_eq!(expected, 996);
}

#[test]
fn get_amount_out_small_pool() {
    assert_eq!(get_amount_out(100, 1000, 1000), Ok(90));
}

#[test]
fn get_amount_out_rejects_degenerate_inputs() {
    assert_eq!(get_amount_out(0, 1, 1), Err(HelperError::InsufficientAmount));
    assert_eq!(get_amount_out(1, 0, 1), Err(HelperError::InsufficientLiquidity));
    assert_eq!(get_amount_out(1, 1, 0), Err(HelperError::InsufficientLiquidity));
    assert_eq!(get_amount_out(u128::MAX, 1, u128::MAX), Err(HelperError::MulOverFlow));
}

#[test]
fn get_amount_out_stays_under_the_reserve() {
    assert_eq!(get_amount_out(u128::MAX, 1, 1000), Ok(999));
}

#[test]
fn get_amount_in_rounds_up() {
    assert_eq!(get_amount_in(100, 1000, 1000), Ok(112));
    assert_eq!(get_amount_in(1, 1000, 1000), Ok(2));
}

#[test]
fn get_amount_in_rejects_degenerate_inputs() {
    assert_eq!(get_amount_in(0, 1, 1), Err(HelperError::InsufficientAmount));
    assert_eq!(get_amount_in(1, 0, 1), Err(HelperError::InsufficientLiquidity));
    assert_eq!(get_amount_in(1, 1, 0), Err(HelperError::InsufficientLiquidity));
    assert_eq!(get_amount_in(11, 1, 10), Err(HelperError::SubUnderFlow));
    assert_eq!(get_amount_in(10, 1, 10), Err(HelperError::DivByZero));
    assert_eq!(get_amount_in(u128::MAX, u128::MAX, u128::MAX), Err(HelperError::MulOverFlow));
    assert_eq!(get_amount_in(1 << 100, u128::MAX, (1 << 100) + 1), Err(HelperError::CastOverflow));
}

#[test]
fn amount_round_trip_asks_no_more_when_rounded() {
    let out = get_amount_out(100, 1000, 1000).unwrap();
    let back = get_amount_in(out, 1000, 1000).unwrap();
    assert_eq!(out, 90);
    assert!(back <= 100);
}

#[test]
fn amount_round_trip_asks_one_more_when_exact() {
    let out = get_amount_out(1000, 997, 2000).unwrap();
    assert_eq!(out, 1000);
    assert_eq!(get_amount_in(out, 997, 2000), Ok(1001));
}

#[test]
fn find_pool_takes_either_order() {
    let pools = three_pools();
    assert_eq!(find_pool(&pools, token(2), token(3)), Some(pools[1]));
    assert_eq!(find_pool(&pools, token(3), token(2)), Some(pools[1]));
    assert_eq!(find_pool(&pools, token(1), token(3)), None);
    assert_eq!(pair_for_on_chain(&pools, token(2), token(1)), Some(token(12)));
    assert_eq!(pair_for_on_chain(&pools, token(4), token(1)), None);
}

#[test]
fn get_reserves_follows_the_order_asked_for() {
    let pools = three_pools();
    assert_eq!(get_reserves(&pools, token(1), token(2)), Ok((1000, 2000)));
    assert_eq!(get_reserves(&pools, token(2), token(1)), Ok((2000, 1000)));
    assert_eq!(get_reserves(&pools, token(2), token(3)), Ok((3000, 500)));
    assert_eq!(get_reserves(&pools, token(3), token(2)), Ok((500, 3000)));
}

#[test]
fn get_reserves_rejects() {
    let pools = three_pools();
    assert_eq!(get_reserves(&pools, token(1), token(1)), Err(HelperError::IdenticalAddresses));
    assert_eq!(get_reserves(&pools, token(1), token(3)), Err(HelperError::PairNotFound));
}

#[test]
fn get_amounts_out_chains_two_hops() {
    let pools = three_pools();
    let path = vec![token(1), token(2), token(3)];
    let first = get_amount_out(100, 1000, 2000).unwrap();
    let second = get_amount_out(first, 3000, 500).unwrap();
    assert_eq!(get_amounts_out(&pools, 100, &path), Ok(vec![100, first, second]));
    assert_eq!((first, second), (181, 28));
}

#[test]
fn get_amounts_in_chains_two_hops_backwards() {
    let pools = three_pools();
    let path = vec![token(1), token(2), token(3)];
    let middle = get_amount_in(50, 3000, 500).unwrap();
    let first = get_amount_in(middle, 1000, 2000).unwrap();
    assert_eq!(get_amounts_in(&pools, 50, &path), Ok(vec![first, middle, 50]));
    assert_eq!((first, middle), (202, 335));
}

#[test]
fn amounts_reject_short_paths() {
    let pools = three_pools();
    assert_eq!(get_amounts_out(&pools, 100, &vec![]), Err(HelperError::InvalidPath));
    assert_eq!(get_amounts_out(&pools, 100, &vec![token(1)]), Err(HelperError::InvalidPath));
    assert_eq!(get_amounts_in(&pools, 100, &vec![]), Err(HelperError::InvalidPath));
    assert_eq!(get_amounts_in(&pools, 100, &vec![token(1)]), Err(HelperError::InvalidPath));
}

#[test]
fn amounts_report_the_failing_hop() {
    let pools = three_pools();
    let missing = vec![token(1), token(2), token(4)];
    assert_eq!(get_amounts_out(&pools, 100, &missing), Err(HelperError::PairNotFound));
    assert_eq!(get_amounts_in(&pools, 100, &missing), Err(HelperError::PairNotFound));
    let twice = vec![token(1), token(1)];
    assert_eq!(get_amounts_out(&pools, 100, &twice), Err(HelperError::IdenticalAddresses));
    let path = vec![token(1), token(2), token(3)];
    assert_eq!(get_amounts_out(&pools, 0, &path), Err(HelperError::InsufficientAmount));
    assert_eq!(get_amounts_in(&pools, 500, &path), Err(HelperError::DivByZero));
    assert_eq!(get_amounts_in(&pools, 501, &path), Err(HelperError::SubUnderFlow));
}
