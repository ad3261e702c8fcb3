use uniswap_v2::errors::PSP22Error;
use uniswap_v2::factory::FactoryError;
use uniswap_v2::helper::{get_amounts_in, get_amounts_out, HelperError, Pool};
use uniswap_v2::pair::{Pair, PairError};
use uniswap_v2::router::{
    _swap, amounts_to_deposit, ensure, Account, Call, Router, RouterError,
};
use uniswap_v2::transfer_helper::TransferHelperError;
use uniswap_v2::types::AccountId;

fn id(n: u8) -> AccountId {
    AccountId::from([n; 32])
}

fn wnative() -> AccountId {
    id(2)
}

fn router() -> Router {
    Router::new(id(100), wnative(), [7u8; 32])
}

fn pools() -> Vec<Pool> {
    vec![
        Pool { token_a: id(1), token_b: id(2), pair: id(12), reserve_0: 1000, reserve_1: 2000 },
        Pool { token_a: id(3), token_b: id(2), pair: id(23), reserve_0: 3000, reserve_1: 500 },
    ]
}

fn swap_call(a: u8, b: u8, amount_0_out: u128, amount_1_out: u128, to: Account) -> Call {
    Call::Swap { token_a: id(a), token_b: id(b), amount_0_out, amount_1_out, to }
}

#[test]
fn lib_initialize_works() {
    let factory = AccountId::from([0x03; 32]);
    let wnative = AccountId::from([0x04; 32]);
    let router = Router::new(factory, wnative, [7u8; 32]);
    assert_eq!(router.factory(), factory);
    assert_eq!(router.wnative(), wnative);
}

#[test]
fn router_keeps_the_code_hash() {
    let router = Router::new(id(3), id(4), [7u8; 32]);
    assert_eq!(router.data.pair_code_hash, [7u8; 32]);
}

#[test]
fn ensure_compares_the_deadline_with_the_clock() {
    assert_eq!(ensure(10, 9), Ok(()));
    assert_eq!(ensure(10, 10), Ok(()));
    assert_eq!(ensure(10, 11), Err(RouterError::Expired));
    assert_eq!(ensure(0, u64::MAX), Err(RouterError::Expired));
}

#[test]
fn expired_calls_are_refused_first() {
    let r = router();
    let none: Vec<Pool> = vec![];
    let bad_path = vec![id(1)];
    let expired = Err(RouterError::Expired);
    assert_eq!(r.add_liquidity(&none, id(1), id(1), 0, 0, 9, 9, id(5), 4, 5, id(6)).map(|_| ()), expired);
    assert_eq!(r.add_liquidity_native(&none, id(2), 0, 9, 9, id(5), 4, 5, id(6), 0).map(|_| ()), expired);
    assert_eq!(r.remove_liquidity(id(1), id(1), 1, id(5), 4, 5, id(6)).map(|_| ()), expired);
    assert_eq!(r.remove_liquidity_native(id(2), 1, 4, 5, id(6), id(7)).map(|_| ()), expired);
    assert_eq!(r.swap_exact_tokens_for_tokens(&none, 0, 9, &bad_path, id(5), 4, 5, id(6)).map(|_| ()), expired);
    assert_eq!(r.swap_tokens_for_exact_tokens(&none, 0, 0, &bad_path, id(5), 4, 5, id(6)).map(|_| ()), expired);
    assert_eq!(r.swap_exact_native_for_tokens(&none, 9, &bad_path, id(5), 4, 5, 0).map(|_| ()), expired);
    assert_eq!(r.swap_tokens_for_exact_native(&none, 0, 0, &bad_path, id(5), 4, 5, id(6), id(7)).map(|_| ()), expired);
    assert_eq!(r.swap_exact_tokens_for_native(&none, 0, 9, &bad_path, id(5), 4, 5, id(6), id(7)).map(|_| ()), expired);
    assert_eq!(r.swap_native_for_exact_tokens(&none, 0, &bad_path, id(5), 4, 5, id(6), 0).map(|_| ()), expired);
}

#[test]
fn router_queries_wrap_helper_errors() {
    let r = router();
    assert_eq!(r.quote(10, 5, 20), Ok(40));
    assert_eq!(r.quote(0, 5, 20), Err(RouterError::HelperError(HelperError::InsufficientAmount)));
    assert_eq!(r.get_amount_out(100, 1000, 1000), Ok(90));
    assert_eq!(r.get_amount_out(1, 0, 1), Err(RouterError::HelperError(HelperError::InsufficientLiquidity)));
    assert_eq!(r.get_amount_in(100, 1000, 1000), Ok(112));
    assert_eq!(r.get_amount_in(10, 10, 10), Err(RouterError::HelperError(HelperError::DivByZero)));
    let path = vec![id(1), id(2), id(3)];
    assert_eq!(r.get_amounts_out(&pools(), 100, &path), Ok(vec![100, 181, 28]));
    assert_eq!(r.get_amounts_in(&pools(), 50, &path), Ok(vec![202, 335, 50]));
    assert_eq!(
        r.get_amounts_out(&pools(), 100, &vec![id(1)]),
        Err(RouterError::HelperError(HelperError::InvalidPath))
    );
    assert_eq!(
        r.get_amounts_in(&pools(), 100, &vec![id(1), id(3)]),
        Err(RouterError::HelperError(HelperError::PairNotFound))
    );
}

#[test]
fn amounts_to_deposit_follow_the_price() {
    assert_eq!(amounts_to_deposit(0, 0, 70, 90, 70, 90), Ok((70, 90)));
    assert_eq!(amounts_to_deposit(1000, 2000, 100, 300, 0, 0), Ok((100, 200)));
    assert_eq!(amounts_to_deposit(1000, 2000, 100, 150, 0, 0), Ok((75, 150)));
    assert_eq!(amounts_to_deposit(1000, 2000, 100, 200, 100, 200), Ok((100, 200)));
}

#[test]
fn amounts_to_deposit_reject() {
    assert_eq!(amounts_to_deposit(1000, 2000, 100, 300, 0, 201), Err(RouterError::InsufficientBAmount));
    assert_eq!(amounts_to_deposit(1000, 2000, 100, 150, 76, 0), Err(RouterError::InsufficientAAmount));
    assert_eq!(
        amounts_to_deposit(1000, 2000, 0, 150, 0, 0),
        Err(RouterError::HelperError(HelperError::InsufficientAmount))
    );
    assert_eq!(
        amounts_to_deposit(0, 2000, 100, 150, 0, 0),
        Err(RouterError::HelperError(HelperError::InsufficientLiquidity))
    );
    assert_eq!(
        amounts_to_deposit(1, u128::MAX, 2, 150, 0, 0),
        Err(RouterError::HelperError(HelperError::CastOverflow))
    );
}

#[test]
fn add_liquidity_to_a_pool_that_is_there() {
    let deposit = router()
        .add_liquidity(&pools(), id(2), id(1), 300, 100, 0, 0, id(5), 9, 9, id(6))
        .unwrap();
    assert_eq!((deposit.amount_a, deposit.amount_b), (200, 100));
    let pair = Account::PairFor(id(2), id(1));
    assert_eq!(
        deposit.calls,
        vec![
            Call::TransferFrom { token: Account::Id(id(2)), from: id(6), to: pair, value: 200 },
            Call::TransferFrom { token: Account::Id(id(1)), from: id(6), to: pair, value: 100 },
            Call::Mint { token_a: id(2), token_b: id(1), to: id(5) },
        ]
    );
}

#[test]
fn add_liquidity_creates_a_missing_pool() {
    let deposit = router()
        .add_liquidity(&pools(), id(1), id(3), 300, 100, 300, 100, id(5), 9, 9, id(6))
        .unwrap();
    assert_eq!((deposit.amount_a, deposit.amount_b), (300, 100));
    let pair = Account::PairFor(id(1), id(3));
    assert_eq!(
        deposit.calls,
        vec![
            Call::CreatePair { token_a: id(1), token_b: id(3) },
            Call::TransferFrom { token: Account::Id(id(1)), from: id(6), to: pair, value: 300 },
            Call::TransferFrom { token: Account::Id(id(3)), from: id(6), to: pair, value: 100 },
            Call::Mint { token_a: id(1), token_b: id(3), to: id(5) },
        ]
    );
}

#[test]
fn add_liquidity_rejects() {
    let r = router();
    assert_eq!(
        r.add_liquidity(&pools(), id(4), id(4), 1, 1, 0, 0, id(5), 9, 9, id(6)).map(|_| ()),
        Err(RouterError::FactoryError(FactoryError::IdenticalAddresses))
    );
    assert_eq!(
        r.add_liquidity(&pools(), id(4), id(0), 1, 1, 0, 0, id(5), 9, 9, id(6)).map(|_| ()),
        Err(RouterError::FactoryError(FactoryError::ZeroAddress))
    );
    assert_eq!(
        r.add_liquidity(&pools(), id(1), id(2), 100, 300, 0, 201, id(5), 9, 9, id(6)).map(|_| ()),
        Err(RouterError::InsufficientBAmount)
    );
    assert_eq!(
        r.add_liquidity(&pools(), id(1), id(2), 100, 150, 76, 0, id(5), 9, 9, id(6)).map(|_| ()),
        Err(RouterError::InsufficientAAmount)
    );
    assert_eq!(
        r._add_liquidity(&pools(), id(1), id(2), 100, 150, 75, 0),
        Ok((75, 150, false))
    );
    assert_eq!(r._add_liquidity(&pools(), id(1), id(3), 100, 150, 0, 0), Ok((100, 150, true)));
    let odd = vec![Pool { token_a: id(4), token_b: id(4), pair: id(44), reserve_0: 1, reserve_1: 1 }];
    assert_eq!(
        r._add_liquidity(&odd, id(4), id(4), 100, 150, 0, 0),
        Err(RouterError::HelperError(HelperError::IdenticalAddresses))
    );
}

#[test]
fn add_liquidity_native_wraps_and_refunds() {
    let deposit = router()
        .add_liquidity_native(&pools(), id(1), 100, 0, 0, id(5), 9, 9, id(6), 300)
        .unwrap();
    assert_eq!((deposit.amount_a, deposit.amount_b), (100, 200));
    let pair = Account::PairFor(id(1), wnative());
    assert_eq!(
        deposit.calls,
        vec![
            Call::TransferFrom { token: Account::Id(id(1)), from: id(6), to: pair, value: 100 },
            Call::Wrap { value: 200 },
            Call::Transfer { token: wnative(), to: pair, value: 200 },
            Call::Mint { token_a: id(1), token_b: wnative(), to: id(5) },
            Call::TransferNative { to: id(6), value: 100 },
        ]
    );
    let exact = router()
        .add_liquidity_native(&pools(), id(1), 100, 0, 0, id(5), 9, 9, id(6), 200)
        .unwrap();
    assert_eq!(exact.calls.len(), 4);
    let fresh = router()
        .add_liquidity_native(&pools(), id(8), 100, 0, 0, id(5), 9, 9, id(6), 300)
        .unwrap();
    assert_eq!((fresh.amount_a, fresh.amount_b), (100, 300));
    assert_eq!(fresh.calls.len(), 5);
    assert_eq!(fresh.calls[0], Call::CreatePair { token_a: id(8), token_b: wnative() });
}

#[test]
fn remove_liquidity_hands_the_claim_to_the_pool() {
    let calls = router().remove_liquidity(id(2), id(1), 77, id(5), 9, 9, id(6)).unwrap();
    let pair = Account::PairFor(id(2), id(1));
    assert_eq!(
        calls,
        vec![
            Call::TransferFrom { token: pair, from: id(6), to: pair, value: 77 },
            Call::Burn { token_a: id(2), token_b: id(1), to: id(5) },
        ]
    );
    assert_eq!(
        router().remove_liquidity(id(2), id(2), 77, id(5), 9, 9, id(6)),
        Err(RouterError::HelperError(HelperError::IdenticalAddresses))
    );
}

#[test]
fn remove_liquidity_amounts_follow_the_order_asked_for() {
    let r = router();
    assert_eq!(r.remove_liquidity_amounts(id(1), id(2), 10, 20, 10, 20), Ok((10, 20)));
    assert_eq!(r.remove_liquidity_amounts(id(2), id(1), 10, 20, 20, 10), Ok((20, 10)));
    assert_eq!(
        r.remove_liquidity_amounts(id(2), id(1), 10, 20, 21, 10),
        Err(RouterError::InsufficientAAmount)
    );
    assert_eq!(
        r.remove_liquidity_amounts(id(2), id(1), 10, 20, 20, 11),
        Err(RouterError::InsufficientBAmount)
    );
    assert_eq!(
        r.remove_liquidity_amounts(id(1), id(1), 10, 20, 0, 0),
        Err(RouterError::HelperError(HelperError::IdenticalAddresses))
    );
}

#[test]
fn remove_liquidity_native_pays_through_the_router() {
    let r = router();
    let calls = r.remove_liquidity_native(id(1), 77, 9, 9, id(6), id(50)).unwrap();
    let pair = Account::PairFor(id(1), wnative());
    assert_eq!(
        calls,
        vec![
            Call::TransferFrom { token: pair, from: id(6), to: pair, value: 77 },
            Call::Burn { token_a: id(1), token_b: wnative(), to: id(50) },
        ]
    );
    let payout = r.remove_liquidity_native_payout(id(1), 10, 20, 10, 20, id(5)).unwrap();
    assert_eq!((payout.amount_token, payout.amount_native), (10, 20));
    assert_eq!(
        payout.calls,
        vec![
            Call::Transfer { token: id(1), to: Account::Id(id(5)), value: 10 },
            Call::Unwrap { value: 20 },
            Call::TransferNative { to: id(5), value: 20 },
        ]
    );
    let payout = r.remove_liquidity_native_payout(id(3), 10, 20, 20, 10, id(5)).unwrap();
    assert_eq!((payout.amount_token, payout.amount_native), (20, 10));
    assert_eq!(
        r.remove_liquidity_native_payout(id(3), 10, 20, 20, 11, id(5)).map(|_| ()),
        Err(RouterError::InsufficientBAmount)
    );
}

#[test]
fn swap_calls_forward_each_output_to_the_next_pool() {
    let path = vec![id(1), id(2), id(3)];
    let calls = _swap(&vec![100, 181, 28], &path, id(5)).unwrap();
    assert_eq!(
        calls,
        vec![
            swap_call(1, 2, 0, 181, Account::PairFor(id(2), id(3))),
            swap_call(2, 3, 0, 28, Account::Id(id(5))),
        ]
    );
    let back = vec![id(3), id(2), id(1)];
    let calls = _swap(&vec![7, 8, 9], &back, id(5)).unwrap();
    assert_eq!(
        calls,
        vec![
            swap_call(3, 2, 8, 0, Account::PairFor(id(2), id(1))),
            swap_call(2, 1, 9, 0, Account::Id(id(5))),
        ]
    );
}

#[test]
fn swap_calls_reject() {
    assert_eq!(_swap(&vec![1], &vec![id(1)], id(5)), Err(RouterError::InvalidPath));
    assert_eq!(_swap(&vec![], &vec![], id(5)), Err(RouterError::InvalidPath));
    assert_eq!(_swap(&vec![1, 2, 3], &vec![id(1), id(2)], id(5)), Err(RouterError::InvalidPath));
    assert_eq!(
        _swap(&vec![1, 2, 3], &vec![id(1), id(2), id(2)], id(5)),
        Err(RouterError::HelperError(HelperError::IdenticalAddresses))
    );
}

#[test]
fn swap_exact_tokens_for_tokens_plans_the_route() {
    let path = vec![id(1), id(2), id(3)];
    let route = router()
        .swap_exact_tokens_for_tokens(&pools(), 100, 28, &path, id(5), 9, 9, id(6))
        .unwrap();
    assert_eq!(route.amounts, get_amounts_out(&pools(), 100, &path).unwrap());
    assert_eq!(route.amounts, vec![100, 181, 28]);
    assert_eq!(
        route.calls,
        vec![
            Call::TransferFrom {
                token: Account::Id(id(1)),
                from: id(6),
                to: Account::PairFor(id(1), id(2)),
                value: 100,
            },
            swap_call(1, 2, 0, 181, Account::PairFor(id(2), id(3))),
            swap_call(2, 3, 0, 28, Account::Id(id(5))),
        ]
    );
    assert_eq!(
        router().swap_exact_tokens_for_tokens(&pools(), 100, 29, &path, id(5), 9, 9, id(6)).map(|_| ()),
        Err(RouterError::InsufficientOutputAmount)
    );
    assert_eq!(
        router().swap_exact_tokens_for_tokens(&pools(), 0, 0, &path, id(5), 9, 9, id(6)).map(|_| ()),
        Err(RouterError::HelperError(HelperError::InsufficientAmount))
    );
}

#[test]
fn swap_tokens_for_exact_tokens_plans_the_route() {
    let path = vec![id(1), id(2), id(3)];
    let route = router()
        .swap_tokens_for_exact_tokens(&pools(), 50, 202, &path, id(5), 9, 9, id(6))
        .unwrap();
    assert_eq!(route.amounts, get_amounts_in(&pools(), 50, &path).unwrap());
    assert_eq!(route.amounts, vec![202, 335, 50]);
    assert_eq!(
        route.calls,
        vec![
            Call::TransferFrom {
                token: Account::Id(id(1)),
                from: id(6),
                to: Account::PairFor(id(1), id(2)),
                value: 202,
            },
            swap_call(1, 2, 0, 335, Account::PairFor(id(2), id(3))),
            swap_call(2, 3, 0, 50, Account::Id(id(5))),
        ]
    );
    assert_eq!(
        router().swap_tokens_for_exact_tokens(&pools(), 50, 201, &path, id(5), 9, 9, id(6)).map(|_| ()),
        Err(RouterError::ExcessiveInputAmount)
    );
}

#[test]
fn swap_exact_native_for_tokens_wraps_first() {
    let path = vec![wnative(), id(3)];
    let route = router().swap_exact_native_for_tokens(&pools(), 1, &path, id(5), 9, 9, 100).unwrap();
    let out = 100 * 997 * 500 / (3000 * 1000 + 100 * 997);
    assert_eq!(route.amounts, vec![100, out]);
    assert_eq!(
        route.calls,
        vec![
            Call::Wrap { value: 100 },
            Call::Transfer { token: wnative(), to: Account::PairFor(wnative(), id(3)), value: 100 },
            swap_call(2, 3, 0, out, Account::Id(id(5))),
        ]
    );
    let wrong = vec![id(3), wnative()];
    assert_eq!(
        router().swap_exact_native_for_tokens(&pools(), 1, &wrong, id(5), 9, 9, 100).map(|_| ()),
        Err(RouterError::InvalidPath)
    );
    assert_eq!(
        router().swap_exact_native_for_tokens(&pools(), 1, &vec![], id(5), 9, 9, 100).map(|_| ()),
        Err(RouterError::InvalidPath)
    );
    assert_eq!(
        router().swap_exact_native_for_tokens(&pools(), out + 1, &path, id(5), 9, 9, 100).map(|_| ()),
        Err(RouterError::InsufficientOutputAmount)
    );
    assert_eq!(
        router().swap_exact_native_for_tokens(&pools(), 1, &vec![wnative()], id(5), 9, 9, 100).map(|_| ()),
        Err(RouterError::HelperError(HelperError::InvalidPath))
    );
}

#[test]
fn swap_tokens_for_exact_native_unwraps_last() {
    let path = vec![id(3), wnative()];
    let route = router()
        .swap_tokens_for_exact_native(&pools(), 50, 1000, &path, id(5), 9, 9, id(6), id(50))
        .unwrap();
    let needed = 500 * 50 * 1000 / ((3000 - 50) * 997) + 1;
    assert_eq!(route.amounts, vec![needed, 50]);
    assert_eq!(
        route.calls,
        vec![
            Call::TransferFrom {
                token: Account::Id(id(3)),
                from: id(6),
                to: Account::PairFor(id(3), wnative()),
                value: needed,
            },
            swap_call(3, 2, 50, 0, Account::Id(id(50))),
            Call::Unwrap { value: 50 },
            Call::TransferNative { to: id(5), value: 50 },
        ]
    );
    assert_eq!(
        router()
            .swap_tokens_for_exact_native(&pools(), 50, needed - 1, &path, id(5), 9, 9, id(6), id(50))
            .map(|_| ()),
        Err(RouterError::ExcessiveInputAmount)
    );
    assert_eq!(
        router()
            .swap_tokens_for_exact_native(&pools(), 50, 1000, &vec![wnative(), id(3)], id(5), 9, 9, id(6), id(50))
            .map(|_| ()),
        Err(RouterError::InvalidPath)
    );
    assert_eq!(
        router()
            .swap_tokens_for_exact_native(&pools(), 50, 1000, &vec![], id(5), 9, 9, id(6), id(50))
            .map(|_| ()),
        Err(RouterError::InvalidPath)
    );
}

#[test]
fn swap_exact_tokens_for_native_unwraps_last() {
    let path = vec![id(1), wnative()];
    let route = router()
        .swap_exact_tokens_for_native(&pools(), 100, 181, &path, id(5), 9, 9, id(6), id(50))
        .unwrap();
    assert_eq!(route.amounts, vec![100, 181]);
    assert_eq!(
        route.calls,
        vec![
            Call::TransferFrom {
                token: Account::Id(id(1)),
                from: id(6),
                to: Account::PairFor(id(1), wnative()),
                value: 100,
            },
            swap_call(1, 2, 0, 181, Account::Id(id(50))),
            Call::Unwrap { value: 181 },
            Call::TransferNative { to: id(5), value: 181 },
        ]
    );
    assert_eq!(
        router()
            .swap_exact_tokens_for_native(&pools(), 100, 182, &path, id(5), 9, 9, id(6), id(50))
            .map(|_| ()),
        Err(RouterError::InsufficientOutputAmount)
    );
    assert_eq!(
        router()
            .swap_exact_tokens_for_native(&pools(), 100, 1, &vec![id(1), id(3)], id(5), 9, 9, id(6), id(50))
            .map(|_| ()),
        Err(RouterError::InvalidPath)
    );
}

#[test]
fn swap_native_for_exact_tokens_refunds_the_rest() {
    let path = vec![wnative(), id(1)];
    let needed = 2000 * 100 * 1000 / ((1000 - 100) * 997) + 1;
    let route = router()
        .swap_native_for_exact_tokens(&pools(), 100, &path, id(5), 9, 9, id(6), needed + 30)
        .unwrap();
    assert_eq!(route.amounts, vec![needed, 100]);
    assert_eq!(
        route.calls,
        vec![
            Call::Wrap { value: needed },
            Call::Transfer { token: wnative(), to: Account::PairFor(wnative(), id(1)), value: needed },
            swap_call(2, 1, 100, 0, Account::Id(id(5))),
            Call::TransferNative { to: id(6), value: 30 },
        ]
    );
    let exact = router()
        .swap_native_for_exact_tokens(&pools(), 100, &path, id(5), 9, 9, id(6), needed)
        .unwrap();
    assert_eq!(exact.calls.len(), 3);
    assert_eq!(
        router()
            .swap_native_for_exact_tokens(&pools(), 100, &path, id(5), 9, 9, id(6), needed - 1)
            .map(|_| ()),
        Err(RouterError::ExcessiveInputAmount)
    );
    assert_eq!(
        router()
            .swap_native_for_exact_tokens(&pools(), 100, &vec![id(1), wnative()], id(5), 9, 9, id(6), 500)
            .map(|_| ()),
        Err(RouterError::InvalidPath)
    );
}

#[test]
fn collaborator_errors_become_router_errors() {
    assert_eq!(
        RouterError::from(PSP22Error::InsufficientAllowance),
        RouterError::PSP22Error(PSP22Error::InsufficientAllowance)
    );
    assert_eq!(
        RouterError::from(FactoryError::PairExists),
        RouterError::FactoryError(FactoryError::PairExists)
    );
    assert_eq!(RouterError::from(PairError::K), RouterError::PairError(PairError::K));
    assert_eq!(
        RouterError::from(HelperError::PairNotFound),
        RouterError::HelperError(HelperError::PairNotFound)
    );
    assert_eq!(
        RouterError::from(TransferHelperError::TransferFailed),
        RouterError::TransferHelperError(TransferHelperError::TransferFailed)
    );
    assert_eq!(
        PairError::from(PSP22Error::Custom(String::from("deposit failed"))),
        PairError::PSP22Error(PSP22Error::Custom(String::from("deposit failed")))
    );
}

#[test]
fn withdrawal_put_back_restores_the_reserves() {
    let mut pool = Pair::new(id(9));
    assert_eq!(pool.initialize(id(9), id(1), id(2)), Ok(()));
    let zero = AccountId::zero();
    let entered = pool.enter().unwrap();
    pool.mint(entered, 1003, 4017, zero, id(5), 1).unwrap();
    let (reserve_0, reserve_1, _) = pool.get_reserves();
    let entered = pool.enter().unwrap();
    let (burned, _, entered) =
        pool.burn(entered, reserve_0, reserve_1, 333, zero, id(5)).unwrap();
    pool.burn_settle(entered, reserve_0 - burned.amount_0, reserve_1 - burned.amount_1, zero, 2);
    let (left_0, left_1, _) = pool.get_reserves();
    let (back_0, back_1) =
        amounts_to_deposit(left_0, left_1, burned.amount_0, burned.amount_1, 0, 0).unwrap();
    let entered = pool.enter().unwrap();
    pool.mint(entered, left_0 + back_0, left_1 + back_1, zero, id(5), 3).unwrap();
    let (again_0, again_1, _) = pool.get_reserves();
    assert!(again_0 <= reserve_0 && again_1 <= reserve_1);
    assert!(again_0 == reserve_0 || again_1 == reserve_1);
    assert_eq!((reserve_0, reserve_1), (1003, 4017));
    assert_eq!((burned.amount_0, burned.amount_1), (166, 666));
    assert_eq!((again_0, again_1), (1003, 4015));
}

#[test]
fn pool_grants_what_the_router_reckons() {
    let mut pool = Pair::new(id(9));
    assert_eq!(pool.initialize(id(9), id(1), id(2)), Ok(()));
    let entered = pool.enter().unwrap();
    pool.mint(entered, 2000, 2000, AccountId::zero(), id(5), 1).unwrap();
    let paid = router().get_amount_out(100, 2000, 2000).unwrap();
    let entered = pool.enter().unwrap();
    let (_, entered) = pool.swap_request(entered, 0, paid, id(5)).unwrap();
    assert_eq!(
        pool.swap(entered, 0, paid, id(5), 2100, 2000 - paid, 2).map(|swapped| swapped.amount_0_in),
        Ok(100)
    );
    let entered = pool.enter().unwrap();
    assert_eq!(
        pool.swap(entered, 0, 1, id(5), 2100, 2000 - paid - 1, 3),
        Err(PairError::InsufficientInputAmount)
    );
    let (reserve_0, reserve_1, _) = pool.get_reserves();
    let asked = router().get_amount_in(50, reserve_0, reserve_1).unwrap();
    let entered = pool.enter().unwrap();
    assert_eq!(
        pool.swap(entered, 0, 50, id(5), reserve_0 + asked, reserve_1 - 50, 4)
            .map(|swapped| swapped.amount_0_in),
        Ok(asked)
    );
    let (reserve_0, reserve_1, _) = pool.get_reserves();
    let asked = router().get_amount_in(50, reserve_0, reserve_1).unwrap();
    let entered = pool.enter().unwrap();
    assert_eq!(
        pool.swap(entered, 0, 50, id(5), reserve_0 + asked - 1, reserve_1 - 50, 5),
        Err(PairError::K)
    );
}
