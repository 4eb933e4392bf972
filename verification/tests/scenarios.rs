use liquidity_pool::identity::Identity;
use liquidity_pool::arith::ArithmeticError;
use liquidity_pool::error::PoolError;
use liquidity_pool::fees::FeeTracker;
use liquidity_pool::ledger::Holding;
use liquidity_pool::pool::{LiquidityPool, Snapshot};
use liquidity_pool::state::{Direction, Side, Transfer};

const NATIVE_CONTRACT: &str = "CDLZFC3SYJYDZT7K67VZ75HPJVIEUVNIXF47ZG2FB2RMQQVU2HHGCYSC";

fn address(text: &str) -> Identity {
    Identity::from_str(text)
}

fn pool_of(token_a: &str, token_b: &str) -> LiquidityPool {
    LiquidityPool::new(
        address(token_a),
        address(token_b),
        String::from("LPToken"),
        String::from("LP"),
    )
    .unwrap()
}

fn pool() -> LiquidityPool {
    pool_of("token-a", "token-b")
}

fn pull(side: Side, amount: i128) -> Transfer {
    Transfer { side, direction: Direction::FromCaller, amount }
}

fn pay(side: Side, amount: i128) -> Transfer {
    Transfer { side, direction: Direction::ToCaller, amount }
}

/// What a test can see of a pool without changing it.
fn observe(pool: &LiquidityPool) -> String {
    format!("{:?}", pool.snapshot())
}

fn sum_of_balances(pool: &LiquidityPool) -> i128 {
    pool.snapshot().balances.iter().map(|holding| holding.amount).sum()
}

#[test]
fn a_new_pool_is_empty() {
    let pool = pool();
    assert_eq!(pool.get_token_a(), address("token-a"));
    assert_eq!(pool.get_token_b(), address("token-b"));
    assert_eq!(pool.get_reserves(), (0, 0));
    assert_eq!(pool.supply(), 0);
    assert_eq!(pool.get_xlm_balance(), 0);
    assert_eq!(pool.get_total_fees_earned(), 0);
    assert_eq!(pool.get_fees_per_lp_token(), 0);
    assert_eq!(pool.get_total_volume_all_time(), 0);
    assert_eq!(pool.decimals(), 18);
    assert_eq!(pool.name(), "LPToken");
    assert_eq!(pool.symbol(), "LP");
    assert_eq!(pool.get_pool_tvl(), Ok(0));
    assert_eq!(pool.get_user_liquidity_position(&address("user")), Ok((0, 0, 0)));
}

#[test]
fn a_pool_of_one_asset_with_itself_is_refused() {
    let result = LiquidityPool::new(
        address("token-a"),
        address("token-a"),
        String::from("LPToken"),
        String::from("LP"),
    );
    assert_eq!(result.err(), Some(PoolError::InvalidToken));
}

#[test]
fn the_native_asset_is_found_on_either_side() {
    let first = pool_of("native", "token-b");
    assert!(first.is_xlm_pool());
    assert_eq!(first.get_xlm_token_index(), Some(0));

    let second = pool_of("token-a", NATIVE_CONTRACT);
    assert!(second.is_xlm_pool());
    assert_eq!(second.get_xlm_token_index(), Some(1));

    let both = pool_of("native", NATIVE_CONTRACT);
    assert!(both.is_xlm_pool());
    assert_eq!(both.get_xlm_token_index(), Some(0));

    let neither = pool();
    assert!(!neither.is_xlm_pool());
    assert_eq!(neither.get_xlm_token_index(), None);
}

#[test]
fn a_small_first_deposit_mints_the_minimum() {
    let mut pool = pool();
    let user = address("user");
    let (shares, transfers) = pool.add_liquidity(&user, true, 100, 100).unwrap();
    assert_eq!(shares, 1000);
    assert_eq!(transfers, vec![pull(Side::A, 100), pull(Side::B, 100)]);
    assert_eq!(pool.balance_of(&user), 1000);
    assert_eq!(pool.supply(), 1000);
    assert_eq!(pool.get_reserves(), (100, 100));
}

#[test]
fn a_first_deposit_mints_the_root_of_the_product() {
    let mut pool = pool();
    let user = address("user");
    let (shares, transfers) =
        pool.add_liquidity(&user, true, 10_000_000_000, 10_000_000_000).unwrap();
    assert_eq!(shares, 10_000_000_000);
    assert_eq!(
        transfers,
        vec![pull(Side::A, 10_000_000_000), pull(Side::B, 10_000_000_000)]
    );
    assert_eq!(pool.get_reserves(), (10_000_000_000, 10_000_000_000));
    assert_eq!(pool.balance_of(&user), 10_000_000_000);
    assert_eq!(pool.supply(), 10_000_000_000);

    let mut uneven = pool_of("token-a", "token-b");
    let (shares, _) = uneven.add_liquidity(&user, true, 4_000_000, 9_000_000).unwrap();
    assert_eq!(shares, 6_000_000);
    assert_eq!(uneven.get_reserves(), (4_000_000, 9_000_000));
}

#[test]
fn a_swap_pays_by_the_constant_product_rule() {
    let mut pool = pool();
    let user = address("user");
    pool.add_liquidity(&user, true, 10_000_000_000, 10_000_000_000).unwrap();

    let amount_in: i128 = 10_000_000_000;
    let amount_in_with_fee = amount_in * 9970 / 10000;
    let expected = (10_000_000_000 * amount_in_with_fee) / (10_000_000_000 + amount_in_with_fee);
    assert_eq!(amount_in_with_fee, 9_970_000_000);
    assert_eq!(expected, 4_992_488_733);

    let (amount_out, transfers) =
        pool.swap(&user, true, &address("token-a"), amount_in, 12).unwrap();
    assert_eq!(amount_out, expected);
    assert_eq!(transfers, vec![pull(Side::A, amount_in), pay(Side::B, expected)]);
    assert_eq!(
        pool.get_reserves(),
        (10_000_000_000 + 10_000_000_000, 10_000_000_000 - expected)
    );
    assert_eq!(pool.get_reserves(), (20_000_000_000, 5_007_511_267));
    assert_eq!(pool.get_total_fees_earned(), 30_000_000);
    assert_eq!(pool.get_fees_per_lp_token(), 3_000_000_000_000_000);
    assert_eq!(pool.get_total_volume_all_time(), amount_in);
    let snapshot = pool.snapshot();
    assert_eq!(snapshot.fee_tracker.last_update_ledger, 12);
    assert_eq!(snapshot.volume_tracker.last_swap_ledger, 12);
}

#[test]
fn a_swap_of_the_second_asset_pays_the_first() {
    let mut pool = pool();
    let user = address("user");
    pool.add_liquidity(&user, true, 10_000_000_000, 10_000_000_000).unwrap();
    let (amount_out, transfers) =
        pool.swap(&user, true, &address("token-b"), 1_000_000_000, 1).unwrap();
    assert_eq!(amount_out, 906_610_893);
    assert_eq!(transfers, vec![pull(Side::B, 1_000_000_000), pay(Side::A, 906_610_893)]);
    assert_eq!(pool.get_reserves(), (10_000_000_000 - 906_610_893, 11_000_000_000));
}

#[test]
fn a_swap_never_shrinks_the_product_of_the_reserves() {
    let mut pool = pool();
    let user = address("user");
    pool.add_liquidity(&user, true, 1_000_003, 999_983).unwrap();
    let amounts: [i128; 8] = [2, 3, 17, 1000, 999_999, 1, 123_456_789, 5];
    let mut turn = 0;
    for amount in amounts {
        let (before_a, before_b) = pool.get_reserves();
        let token = if turn % 2 == 0 { address("token-a") } else { address("token-b") };
        let result = pool.swap(&user, true, &token, amount, turn);
        let (after_a, after_b) = pool.get_reserves();
        match result {
            Ok((amount_out, _)) => {
                assert!(amount_out > 0);
                assert!(after_a * after_b >= before_a * before_b);
            }
            Err(error) => {
                assert_eq!(error, PoolError::InsufficientOutput);
                assert_eq!((after_a, after_b), (before_a, before_b));
            }
        }
        turn += 1;
    }
}

#[test]
fn removing_half_of_the_supply_returns_half_of_each_reserve() {
    let mut pool = pool();
    let user = address("user");
    pool.add_liquidity(&user, true, 10_000_000_000, 10_000_000_000).unwrap();
    let ((amount_a, amount_b), transfers) =
        pool.remove_liquidity(&user, true, 5_000_000_000).unwrap();
    assert_eq!((amount_a, amount_b), (5_000_000_000, 5_000_000_000));
    assert_eq!(
        transfers,
        vec![pay(Side::A, 5_000_000_000), pay(Side::B, 5_000_000_000)]
    );
    assert_eq!(pool.balance_of(&user), 5_000_000_000);
    assert_eq!(pool.supply(), 5_000_000_000);
    assert_eq!(pool.get_reserves(), (5_000_000_000, 5_000_000_000));
}

#[test]
fn removing_rounds_each_amount_down() {
    let mut pool = pool();
    let user = address("user");
    pool.add_liquidity(&user, true, 4_000_000, 9_000_000).unwrap();
    let ((amount_a, amount_b), _) = pool.remove_liquidity(&user, true, 1_000_001).unwrap();
    assert_eq!(amount_a, 1_000_001 * 4_000_000 / 6_000_000);
    assert_eq!(amount_b, 1_000_001 * 9_000_000 / 6_000_000);
    assert_eq!((amount_a, amount_b), (666_667, 1_500_001));
    assert_eq!(pool.get_reserves(), (4_000_000 - 666_667, 9_000_000 - 1_500_001));
    assert_eq!(pool.supply(), 6_000_000 - 1_000_001);
}

#[test]
fn proportional_deposits_pass_and_others_do_not() {
    let mut pool = pool();
    let user = address("user");
    pool.add_liquidity(&user, true, 1_000_000_000, 2_000_000_000).unwrap();

    assert!(pool.add_liquidity(&user, true, 1_000_000, 2_000_000).is_ok());
    assert_eq!(pool.get_reserves(), (1_001_000_000, 2_002_000_000));

    let mut pool = pool_of("token-a", "token-b");
    pool.add_liquidity(&user, true, 1_000_000_000, 1_000_000_000).unwrap();
    let before = observe(&pool);
    assert_eq!(
        pool.add_liquidity(&user, true, 1_000_000, 1_000_011).err(),
        Some(PoolError::NotProportional)
    );
    assert_eq!(
        pool.add_liquidity(&user, true, 1_000_011, 1_000_000).err(),
        Some(PoolError::NotProportional)
    );
    assert_eq!(
        pool.add_liquidity(&user, true, 0, 5).err(),
        Some(PoolError::NotProportional)
    );
    assert_eq!(observe(&pool), before);
    assert!(pool.add_liquidity(&user, true, 1_000_000, 1_000_010).is_ok());
    assert_eq!(pool.get_reserves(), (1_001_000_000, 1_001_000_010));
}

#[test]
fn a_difference_of_one_unit_is_proportional() {
    let mut pool = pool();
    let user = address("user");
    pool.add_liquidity(&user, true, 3, 3).unwrap();
    assert_eq!(pool.supply(), 1000);
    let mut odd = pool_of("token-a", "token-b");
    odd.add_liquidity(&user, true, 1, 1).unwrap();
    assert!(odd.add_liquidity(&user, true, 1, 2).is_ok());
    assert_eq!(odd.get_reserves(), (2, 3));
    assert_eq!(
        odd.add_liquidity(&user, true, 1, 4).err(),
        Some(PoolError::NotProportional)
    );
}

#[test]
fn an_overflow_leaves_the_pool_as_it_was() {
    let mut pool = pool();
    let user = address("user");
    pool.add_liquidity(&user, true, 10_000_000_000, 10_000_000_000).unwrap();
    pool.swap(&user, true, &address("token-a"), 1_000_000, 3).unwrap();
    let before = observe(&pool);

    assert_eq!(
        pool.add_liquidity(&user, true, i128::MAX / 2, i128::MAX / 2).err(),
        Some(PoolError::Arithmetic(ArithmeticError::Overflow))
    );
    assert_eq!(observe(&pool), before);

    assert_eq!(
        pool.swap(&user, true, &address("token-a"), i128::MAX / 16, 4).err(),
        Some(PoolError::Arithmetic(ArithmeticError::Overflow))
    );
    assert_eq!(observe(&pool), before);

    assert_eq!(
        pool.swap(&user, true, &address("token-b"), i128::MAX, 4).err(),
        Some(PoolError::Arithmetic(ArithmeticError::Overflow))
    );
    assert_eq!(observe(&pool), before);
}

#[test]
fn the_first_deposit_overflows_on_the_product() {
    let mut pool = pool();
    let user = address("user");
    let before = observe(&pool);
    assert_eq!(
        pool.add_liquidity(&user, true, i128::MAX / 8, i128::MAX / 8).err(),
        Some(PoolError::Arithmetic(ArithmeticError::Overflow))
    );
    assert_eq!(observe(&pool), before);
}

#[test]
fn nothing_happens_without_authorization() {
    let mut pool = pool();
    let user = address("user");
    let other = address("other");
    pool.add_liquidity(&user, true, 1_000_000, 1_000_000).unwrap();
    let before = observe(&pool);

    assert_eq!(
        pool.add_liquidity(&user, false, 1_000, 1_000).err(),
        Some(PoolError::Unauthorized)
    );
    assert_eq!(
        pool.remove_liquidity(&user, false, 1_000).err(),
        Some(PoolError::Unauthorized)
    );
    assert_eq!(
        pool.swap(&user, false, &address("token-a"), 1_000, 1).err(),
        Some(PoolError::Unauthorized)
    );
    assert_eq!(pool.claim_fees(&user, false).err(), Some(PoolError::Unauthorized));
    assert_eq!(pool.approve(&user, false, &other, 5, 100), Err(PoolError::Unauthorized));
    assert_eq!(pool.transfer(&user, false, &other, 5), Err(PoolError::Unauthorized));
    assert_eq!(
        pool.transfer_from(&other, false, &user, &other, 5),
        Err(PoolError::Unauthorized)
    );
    assert_eq!(pool.burn(&user, false, 5), Err(PoolError::Unauthorized));
    assert_eq!(pool.burn_from(&other, false, &user, 5), Err(PoolError::Unauthorized));
    assert_eq!(observe(&pool), before);
}

#[test]
fn the_first_failing_check_decides() {
    let mut pool = pool();
    let user = address("user");
    assert_eq!(
        pool.add_liquidity(&user, false, -1, 0).err(),
        Some(PoolError::Unauthorized)
    );
    assert_eq!(
        pool.add_liquidity(&user, true, 0, -1).err(),
        Some(PoolError::NegativeAmount)
    );
    assert_eq!(
        pool.add_liquidity(&user, true, 5, 0).err(),
        Some(PoolError::InsufficientLiquidityMinted)
    );
    assert_eq!(
        pool.remove_liquidity(&user, true, -1).err(),
        Some(PoolError::NegativeAmount)
    );
    assert_eq!(
        pool.remove_liquidity(&user, true, 0).err(),
        Some(PoolError::NoLiquidity)
    );
    assert_eq!(
        pool.swap(&user, true, &address("token-c"), -1, 1).err(),
        Some(PoolError::NegativeAmount)
    );
    assert_eq!(
        pool.swap(&user, true, &address("token-c"), 0, 1).err(),
        Some(PoolError::ZeroAmountIn)
    );
    assert_eq!(
        pool.swap(&user, true, &address("token-c"), 1, 1).err(),
        Some(PoolError::InvalidToken)
    );
    assert_eq!(
        pool.swap(&user, true, &address("token-a"), 1, 1).err(),
        Some(PoolError::Arithmetic(ArithmeticError::DivByZero))
    );
    assert_eq!(
        pool.swap(&user, true, &address("token-a"), 1000, 1).err(),
        Some(PoolError::InsufficientOutput)
    );

    pool.add_liquidity(&user, true, 1_000_000, 1_000_000).unwrap();
    assert_eq!(
        pool.remove_liquidity(&user, true, 0).err(),
        Some(PoolError::ZeroShares)
    );
    assert_eq!(
        pool.remove_liquidity(&user, true, 1_000_001).err(),
        Some(PoolError::InsufficientLpTokens)
    );
    assert_eq!(
        pool.remove_liquidity(&address("other"), true, 1).err(),
        Some(PoolError::InsufficientLpTokens)
    );
    assert_eq!(
        pool.swap(&user, true, &address("token-a"), 1, 1).err(),
        Some(PoolError::InsufficientOutput)
    );
}

#[test]
fn fees_go_to_holders_by_their_shares() {
    let mut pool = pool();
    let large = address("large");
    let small = address("small");
    let trader = address("trader");
    pool.add_liquidity(&large, true, 20_000_000_000, 20_000_000_000).unwrap();
    pool.add_liquidity(&small, true, 10_000_000_000, 10_000_000_000).unwrap();
    assert_eq!(pool.balance_of(&large), 2 * pool.balance_of(&small));

    let (amount_out, _) =
        pool.swap(&trader, true, &address("token-a"), 5_000_000_000, 1).unwrap();
    assert_eq!(amount_out, 4_274_689_152);
    assert_eq!(pool.get_total_fees_earned(), 15_000_000);
    assert_eq!(pool.get_fees_per_lp_token(), 500_000_000_000_000);

    let unclaimed_large = pool.get_user_unclaimed_fees(&large).unwrap();
    let unclaimed_small = pool.get_user_unclaimed_fees(&small).unwrap();
    assert_eq!(unclaimed_large, 10_000_000);
    assert_eq!(unclaimed_small, 5_000_000);
    assert_eq!(unclaimed_large, 2 * unclaimed_small);
    assert_eq!(pool.get_user_unclaimed_fees(&trader), Ok(0));
}

#[test]
fn unclaimed_fees_of_two_to_one_holders_differ_by_rounding_only() {
    let mut pool = pool();
    let large = address("large");
    let small = address("small");
    let trader = address("trader");
    pool.add_liquidity(&small, true, 1_111, 1_111).unwrap();
    pool.add_liquidity(&large, true, 2_222, 2_222).unwrap();
    assert_eq!(pool.balance_of(&small), 1_111);
    assert_eq!(pool.balance_of(&large), 2_222);
    let mut turn = 0;
    while turn < 20 {
        let token = if turn % 2 == 0 { address("token-a") } else { address("token-b") };
        pool.swap(&trader, true, &token, 700 + 37 * turn as i128, turn).unwrap();
        let unclaimed_large = pool.get_user_unclaimed_fees(&large).unwrap();
        let unclaimed_small = pool.get_user_unclaimed_fees(&small).unwrap();
        let difference = unclaimed_large - 2 * unclaimed_small;
        assert!(difference == 0 || difference == 1);
        turn += 1;
    }
    assert!(pool.get_user_unclaimed_fees(&large).unwrap() > 0);
}

#[test]
fn a_claim_pays_the_share_of_both_reserves_once() {
    let mut pool = pool();
    let large = address("large");
    let small = address("small");
    pool.add_liquidity(&large, true, 20_000_000_000, 20_000_000_000).unwrap();
    pool.add_liquidity(&small, true, 10_000_000_000, 10_000_000_000).unwrap();
    pool.swap(&small, true, &address("token-a"), 5_000_000_000, 1).unwrap();
    let (reserve_a, reserve_b) = pool.get_reserves();
    assert_eq!((reserve_a, reserve_b), (35_000_000_000, 25_725_310_848));

    let share_bps: i128 = 10_000_000_000 * 10000 / 30_000_000_000;
    assert_eq!(share_bps, 3333);
    let fee_a = reserve_a * share_bps / 10000;
    let fee_b = reserve_b * share_bps / 10000;
    let (claimed, transfers) = pool.claim_fees(&small, true).unwrap();
    assert_eq!(claimed, fee_a + fee_b);
    assert_eq!(claimed, 11_665_500_000 + 8_574_246_105);
    assert_eq!(transfers, vec![pay(Side::A, fee_a), pay(Side::B, fee_b)]);
    assert_eq!(pool.get_reserves(), (reserve_a, reserve_b));
    assert_eq!(pool.get_user_unclaimed_fees(&small), Ok(0));
    assert_eq!(pool.get_user_unclaimed_fees(&large), Ok(10_000_000));
    assert_eq!(pool.get_total_fees_earned(), 15_000_000);

    let before = observe(&pool);
    let (again, transfers) = pool.claim_fees(&small, true).unwrap();
    assert_eq!(again, 0);
    assert!(transfers.is_empty());
    assert_eq!(observe(&pool), before);
}

#[test]
fn a_claim_without_unclaimed_fees_changes_nothing() {
    let mut pool = pool();
    let user = address("user");
    pool.add_liquidity(&user, true, 1_000_000, 1_000_000).unwrap();
    let before = observe(&pool);
    let (claimed, transfers) = pool.claim_fees(&user, true).unwrap();
    assert_eq!(claimed, 0);
    assert!(transfers.is_empty());
    assert_eq!(observe(&pool), before);
    let (claimed, _) = pool.claim_fees(&address("stranger"), true).unwrap();
    assert_eq!(claimed, 0);
    assert_eq!(observe(&pool), before);
}

#[test]
fn the_balances_add_up_to_the_supply_after_every_operation() {
    let mut pool = pool();
    let alice = address("alice");
    let bob = address("bob");
    let carol = address("carol");
    assert_eq!(sum_of_balances(&pool), pool.supply());
    pool.add_liquidity(&alice, true, 5_000_000, 5_000_000).unwrap();
    assert_eq!(sum_of_balances(&pool), pool.supply());
    pool.add_liquidity(&bob, true, 1_000_000, 1_000_000).unwrap();
    assert_eq!(sum_of_balances(&pool), pool.supply());
    pool.swap(&carol, true, &address("token-a"), 77_777, 1).unwrap();
    assert_eq!(sum_of_balances(&pool), pool.supply());
    pool.transfer(&alice, true, &carol, 123_456).unwrap();
    assert_eq!(sum_of_balances(&pool), pool.supply());
    pool.transfer(&alice, true, &alice, 1_000).unwrap();
    assert_eq!(sum_of_balances(&pool), pool.supply());
    pool.approve(&bob, true, &carol, 500_000, 1000).unwrap();
    pool.transfer_from(&carol, true, &bob, &alice, 200_000).unwrap();
    assert_eq!(sum_of_balances(&pool), pool.supply());
    pool.burn_from(&carol, true, &bob, 300_000).unwrap();
    assert_eq!(sum_of_balances(&pool), pool.supply());
    pool.burn(&carol, true, 23_456).unwrap();
    assert_eq!(sum_of_balances(&pool), pool.supply());
    pool.claim_fees(&alice, true).unwrap();
    assert_eq!(sum_of_balances(&pool), pool.supply());
    pool.remove_liquidity(&alice, true, 1_000_000).unwrap();
    assert_eq!(sum_of_balances(&pool), pool.supply());
    assert_eq!(pool.supply(), 6_000_000 - 300_000 - 23_456 - 1_000_000);
    assert_eq!(pool.balance_of(&alice), 5_000_000 - 123_456 + 200_000 - 1_000_000);
    assert_eq!(pool.balance(&bob), 1_000_000 - 500_000);
    assert_eq!(pool.balance_of(&carol), 100_000);
    assert_eq!(pool.allowance(&bob, &carol), 0);
}

#[test]
fn lp_shares_are_refused_beyond_balance_and_allowance() {
    let mut pool = pool();
    let alice = address("alice");
    let bob = address("bob");
    pool.add_liquidity(&alice, true, 1_000_000, 1_000_000).unwrap();
    let before = observe(&pool);
    assert_eq!(
        pool.transfer(&alice, true, &bob, 1_000_001),
        Err(PoolError::InsufficientBalance)
    );
    assert_eq!(pool.transfer(&alice, true, &bob, -1), Err(PoolError::NegativeAmount));
    assert_eq!(
        pool.transfer_from(&bob, true, &alice, &bob, 1),
        Err(PoolError::InsufficientAllowance)
    );
    assert_eq!(pool.burn(&bob, true, 1), Err(PoolError::InsufficientBalance));
    assert_eq!(pool.burn_from(&bob, true, &alice, 1), Err(PoolError::InsufficientAllowance));
    assert_eq!(pool.approve(&alice, true, &bob, -1, 10), Err(PoolError::NegativeAmount));
    assert_eq!(observe(&pool), before);
}

#[test]
fn the_native_side_is_booked_and_not_transferred() {
    let mut pool = pool_of("native", "token-b");
    let user = address("user");
    let (shares, transfers) =
        pool.add_liquidity(&user, true, 4_000_000, 9_000_000).unwrap();
    assert_eq!(shares, 6_000_000);
    assert_eq!(transfers, vec![pull(Side::B, 9_000_000)]);
    assert_eq!(pool.get_xlm_balance(), 4_000_000);

    let (amount_out, transfers) =
        pool.swap(&user, true, &address("native"), 1_000_000, 1).unwrap();
    assert_eq!(amount_out, 9_000_000 * 997_000 / 4_997_000);
    assert_eq!(transfers, vec![pay(Side::B, amount_out)]);
    assert_eq!(pool.get_xlm_balance(), 5_000_000);

    let (native_out, transfers) =
        pool.swap(&user, true, &address("token-b"), 1_000_000, 2).unwrap();
    assert_eq!(transfers, vec![pull(Side::B, 1_000_000)]);
    assert_eq!(pool.get_xlm_balance(), 5_000_000 - native_out);
    assert_eq!(pool.get_reserves().0, 5_000_000 - native_out);

    let ((amount_a, amount_b), transfers) =
        pool.remove_liquidity(&user, true, 3_000_000).unwrap();
    assert_eq!(transfers, vec![pay(Side::B, amount_b)]);
    assert_eq!(pool.get_xlm_balance(), 5_000_000 - native_out - amount_a);
    assert_eq!(pool.get_reserves().0, pool.get_xlm_balance());
}

#[test]
fn the_native_side_on_the_second_asset() {
    let mut pool = pool_of("token-a", NATIVE_CONTRACT);
    let user = address("user");
    let (_, transfers) = pool.add_liquidity(&user, true, 4_000_000, 9_000_000).unwrap();
    assert_eq!(transfers, vec![pull(Side::A, 4_000_000)]);
    assert_eq!(pool.get_xlm_balance(), 9_000_000);

    let (amount_out, transfers) =
        pool.swap(&user, true, &address("token-a"), 1_000_000, 1).unwrap();
    assert_eq!(transfers, vec![pull(Side::A, 1_000_000)]);
    assert_eq!(pool.get_xlm_balance(), 9_000_000 - amount_out);
}

#[test]
fn a_native_payout_needs_the_native_balance() {
    let mut pool = pool_of("native", "token-b");
    let user = address("user");
    pool.add_liquidity(&user, true, 1_000_000, 1_000_000).unwrap();
    pool.swap(&user, true, &address("token-b"), 100_000, 1).unwrap();
    let (reserve_a, reserve_b) = pool.get_reserves();
    assert_eq!(pool.get_xlm_balance(), reserve_a);

    let (claimed, transfers) = pool.claim_fees(&user, true).unwrap();
    assert_eq!(claimed, reserve_a + reserve_b);
    assert_eq!(transfers, vec![pay(Side::B, reserve_b)]);
    assert_eq!(pool.get_xlm_balance(), 0);
    assert_eq!(pool.get_reserves(), (reserve_a, reserve_b));

    let before = observe(&pool);
    assert_eq!(
        pool.remove_liquidity(&user, true, 1_000_000).err(),
        Some(PoolError::InsufficientNativeBalance)
    );
    assert_eq!(
        pool.swap(&user, true, &address("token-b"), 100_000, 2).err(),
        Some(PoolError::InsufficientNativeBalance)
    );
    assert_eq!(observe(&pool), before);

    pool.swap(&user, true, &address("native"), 10_000_000, 3).unwrap();
    assert_eq!(
        pool.claim_fees(&user, true).err(),
        Some(PoolError::InsufficientNativeBalance)
    );
}

#[test]
fn a_position_is_the_balance_and_its_part_of_the_reserves() {
    let mut pool = pool();
    let alice = address("alice");
    let bob = address("bob");
    pool.add_liquidity(&alice, true, 3_000_000, 3_000_000).unwrap();
    pool.add_liquidity(&bob, true, 1_000_000, 1_000_000).unwrap();
    pool.swap(&bob, true, &address("token-a"), 1_000_000, 1).unwrap();
    let (reserve_a, reserve_b) = pool.get_reserves();
    assert_eq!(
        pool.get_user_liquidity_position(&bob),
        Ok((1_000_000, reserve_a / 4, reserve_b / 4))
    );
    assert_eq!(
        pool.get_user_liquidity_position(&alice),
        Ok((3_000_000, reserve_a * 3 / 4, reserve_b * 3 / 4))
    );
    assert_eq!(pool.get_user_liquidity_position(&address("carol")), Ok((0, 0, 0)));
    assert_eq!(pool.get_pool_tvl(), Ok(reserve_a + reserve_b));
}

fn stored(pool: &LiquidityPool) -> Snapshot {
    pool.snapshot()
}

#[test]
fn a_pool_comes_back_from_its_snapshot() {
    let mut pool = pool_of("native", "token-b");
    let alice = address("alice");
    let bob = address("bob");
    pool.add_liquidity(&alice, true, 3_000_000, 3_000_000).unwrap();
    pool.add_liquidity(&bob, true, 1_000_000, 1_000_000).unwrap();
    pool.swap(&bob, true, &address("token-b"), 500_000, 9).unwrap();
    pool.approve(&alice, true, &bob, 77, 0).unwrap();
    pool.claim_fees(&bob, true).unwrap();

    let mut restored = LiquidityPool::restore(stored(&pool)).unwrap();
    assert_eq!(observe(&restored), observe(&pool));
    assert_eq!(restored.balance_of(&alice), 3_000_000);
    assert_eq!(restored.allowance(&alice, &bob), 77);
    assert_eq!(restored.get_user_unclaimed_fees(&bob), Ok(0));
    assert_eq!(
        restored.get_user_unclaimed_fees(&alice),
        pool.get_user_unclaimed_fees(&alice)
    );

    let after_restored = restored.swap(&alice, true, &address("native"), 1_000, 10).unwrap();
    let after_first = pool.swap(&alice, true, &address("native"), 1_000, 10).unwrap();
    assert_eq!(after_restored, after_first);
    assert_eq!(observe(&restored), observe(&pool));
}

#[test]
fn a_snapshot_that_is_no_valid_pool_does_not_come_back() {
    let mut pool = pool();
    let alice = address("alice");
    pool.add_liquidity(&alice, true, 3_000_000, 3_000_000).unwrap();
    pool.swap(&alice, true, &address("token-a"), 500_000, 9).unwrap();
    pool.claim_fees(&alice, true).unwrap();
    assert!(LiquidityPool::restore(stored(&pool)).is_some());

    let mut snapshot = stored(&pool);
    snapshot.total_supply += 1;
    assert!(LiquidityPool::restore(snapshot).is_none());

    let mut snapshot = stored(&pool);
    snapshot.info.reserve_a = -1;
    assert!(LiquidityPool::restore(snapshot).is_none());

    let mut snapshot = stored(&pool);
    snapshot.info.token_b = address("token-a");
    assert!(LiquidityPool::restore(snapshot).is_none());

    let mut snapshot = stored(&pool);
    snapshot.info.is_xlm_pool = true;
    assert!(LiquidityPool::restore(snapshot).is_none());

    let mut snapshot = stored(&pool);
    snapshot.info.xlm_token_index = Some(0);
    snapshot.info.is_xlm_pool = true;
    assert!(LiquidityPool::restore(snapshot).is_none());

    let mut snapshot = stored(&pool);
    snapshot.info.token_a = address("native");
    assert!(LiquidityPool::restore(snapshot).is_none());

    let mut snapshot = stored(&pool);
    snapshot.fee_marks[0].amount += 1;
    assert!(LiquidityPool::restore(snapshot).is_none());

    let mut snapshot = stored(&pool);
    snapshot.fee_marks.push(Holding { owner: address("alice"), amount: 0 });
    assert!(LiquidityPool::restore(snapshot).is_none());

    let mut snapshot = stored(&pool);
    snapshot.fee_tracker = FeeTracker {
        total_fees_earned: -1,
        ..snapshot.fee_tracker
    };
    assert!(LiquidityPool::restore(snapshot).is_none());

    let mut snapshot = stored(&pool);
    snapshot.volume_tracker.total_volume_24h += 1;
    assert!(LiquidityPool::restore(snapshot).is_none());

    let mut snapshot = stored(&pool);
    snapshot.native_balance = -1;
    assert!(LiquidityPool::restore(snapshot).is_none());
}

#[test]
fn shares_without_reserves_cannot_be_redeemed() {
    let mut pool = pool();
    let alice = address("alice");
    pool.add_liquidity(&alice, true, 3_000_000, 3_000_000).unwrap();
    let mut snapshot = stored(&pool);
    snapshot.info.reserve_a = 0;
    snapshot.info.reserve_b = 0;
    let mut drained = LiquidityPool::restore(snapshot).unwrap();
    assert_eq!(
        drained.remove_liquidity(&alice, true, 1).err(),
        Some(PoolError::NoReserves)
    );
    assert_eq!(drained.get_user_liquidity_position(&alice), Ok((3_000_000, 0, 0)));
}

#[test]
fn burnt_shares_leave_their_reserves_to_the_others() {
    let mut pool = pool();
    let alice = address("alice");
    let bob = address("bob");
    pool.add_liquidity(&alice, true, 3_000_000, 3_000_000).unwrap();
    pool.add_liquidity(&bob, true, 1_000_000, 1_000_000).unwrap();
    pool.burn(&alice, true, 3_000_000).unwrap();
    assert_eq!(pool.supply(), 1_000_000);
    assert_eq!(pool.get_reserves(), (4_000_000, 4_000_000));
    let ((amount_a, amount_b), _) = pool.remove_liquidity(&bob, true, 1_000_000).unwrap();
    assert_eq!((amount_a, amount_b), (4_000_000, 4_000_000));
    assert_eq!(pool.get_reserves(), (0, 0));
    assert_eq!(pool.supply(), 0);
}

#[test]
fn fees_earned_while_no_share_exists_are_counted_only() {
    let mut pool = pool();
    let alice = address("alice");
    pool.add_liquidity(&alice, true, 3_000_000, 3_000_000).unwrap();
    pool.burn(&alice, true, 3_000_000).unwrap();
    pool.swap(&alice, true, &address("token-a"), 1_000_000, 5).unwrap();
    assert_eq!(pool.get_total_fees_earned(), 3_000);
    assert_eq!(pool.get_fees_per_lp_token(), 0);
}

#[test]
fn an_instance_is_set_up_once() {
    let mut instance: Option<LiquidityPool> = None;
    assert_eq!(
        LiquidityPool::initialize(
            &mut instance,
            address("token-a"),
            address("token-a"),
            String::from("LPToken"),
            String::from("LP"),
        ),
        Err(PoolError::InvalidToken)
    );
    assert!(instance.is_none());
    assert_eq!(
        LiquidityPool::initialize(
            &mut instance,
            address("token-a"),
            address("token-b"),
            String::from("LPToken"),
            String::from("LP"),
        ),
        Ok(())
    );
    let before = observe(instance.as_ref().unwrap());
    assert_eq!(
        LiquidityPool::initialize(
            &mut instance,
            address("token-c"),
            address("token-d"),
            String::from("Other"),
            String::from("O"),
        ),
        Err(PoolError::AlreadyInitialized)
    );
    assert_eq!(observe(instance.as_ref().unwrap()), before);

    let pool = LiquidityPool::initialized(instance).unwrap();
    assert_eq!(pool.get_token_a(), address("token-a"));
    assert_eq!(pool.get_token_b(), address("token-b"));
    assert_eq!(pool.get_reserves(), (0, 0));
    assert_eq!(
        LiquidityPool::initialized(None).err(),
        Some(PoolError::NotInitialized)
    );
}
