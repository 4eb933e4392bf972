//! What adding and removing liquidity come to.

use crate::arith::{fits_i128, ArithmeticError};
use crate::error::PoolError;
use crate::ledger::{lemma_balance_bounds, lemma_burned_wf, lemma_minted_wf};
use crate::state::{
    deposit_transfers, payout_transfers, shares_for, PoolState, Transfer, MINIMUM_LIQUIDITY,
};
use vstd::prelude::*;

verus! {

/// Whether `amount_a` and `amount_b` are in the ratio of the reserves, up to
/// rounding: the cross products differ by at most one unit, or by at most ten
/// millionths of `amount_a * reserve_b`.
pub open spec fn proportional(
    amount_a: int,
    amount_b: int,
    reserve_a: int,
    reserve_b: int,
) -> bool {
    let left = amount_a * reserve_b;
    let right = amount_b * reserve_a;
    let difference = if left > right {
        left - right
    } else {
        right - left
    };
    difference <= 1 || difference * 1_000_000 <= 10 * left
}

/// A deposit that went through.
pub struct Deposit {
    /// The pool after the deposit.
    pub state: PoolState,
    /// The shares minted to the caller.
    pub shares: int,
    /// The transfers that the host has to carry out.
    pub transfers: Seq<Transfer>,
}

/// A withdrawal that went through.
pub struct Withdrawal {
    /// The pool after the withdrawal.
    pub state: PoolState,
    /// What the caller gets of the first and of the second asset.
    pub amount_a: int,
    pub amount_b: int,
    /// The transfers that the host has to carry out.
    pub transfers: Seq<Transfer>,
}

/// What `caller` adding `amount_a` and `amount_b` to the pool comes to.
///
/// The checks are made in this order, and the first that fails decides:
/// authorization; the sign of both amounts; where a reserve is not empty,
/// that the cross products fit and are proportional; that the native balance
/// can take the native side; that neither amount is zero; that the product
/// of the amounts, the new total supply and both new reserves fit.
pub open spec fn add_liquidity_outcome(
    state: PoolState,
    caller: Seq<char>,
    authorized: bool,
    amount_a: int,
    amount_b: int,
) -> Result<Deposit, PoolError> {
    let liquid = state.reserve_a > 0 || state.reserve_b > 0;
    let native_in = state.native_part(amount_a, amount_b);
    let shares = shares_for(amount_a, amount_b);
    if !authorized {
        Err(PoolError::Unauthorized)
    } else if amount_a < 0 || amount_b < 0 {
        Err(PoolError::NegativeAmount)
    } else if liquid && !(fits_i128(amount_a * state.reserve_b) && fits_i128(
        amount_b * state.reserve_a,
    )) {
        Err(PoolError::Arithmetic(ArithmeticError::Overflow))
    } else if liquid && !proportional(amount_a, amount_b, state.reserve_a, state.reserve_b) {
        Err(PoolError::NotProportional)
    } else if !fits_i128(state.native_balance + native_in) {
        Err(PoolError::Arithmetic(ArithmeticError::Overflow))
    } else if amount_a == 0 || amount_b == 0 {
        Err(PoolError::InsufficientLiquidityMinted)
    } else if !(fits_i128(amount_a * amount_b) && fits_i128(state.ledger.total_supply + shares)
        && fits_i128(state.reserve_a + amount_a) && fits_i128(state.reserve_b + amount_b)) {
        Err(PoolError::Arithmetic(ArithmeticError::Overflow))
    } else {
        Ok(
            Deposit {
                state: PoolState {
                    reserve_a: state.reserve_a + amount_a,
                    reserve_b: state.reserve_b + amount_b,
                    native_balance: state.native_balance + native_in,
                    ledger: state.ledger.minted(caller, shares),
                    ..state
                },
                shares,
                transfers: deposit_transfers(state.native_side(), amount_a, amount_b),
            },
        )
    }
}

/// What `shares` of the total supply are worth of a reserve: the share of
/// the reserve, rounded down; nothing of an empty reserve.
pub open spec fn pro_rata(shares: int, reserve: int, total_supply: int) -> int {
    if reserve > 0 {
        shares * reserve / total_supply
    } else {
        0
    }
}

/// What `caller` redeeming `shares` comes to.
///
/// The checks are made in this order, and the first that fails decides:
/// authorization; the sign of `shares`; that some share exists; that
/// `shares` is not zero; that the caller holds as many; that a reserve is
/// not empty; that the products of `shares` and each reserve fit; that the
/// native balance covers the native side.
pub open spec fn remove_liquidity_outcome(
    state: PoolState,
    caller: Seq<char>,
    authorized: bool,
    shares: int,
) -> Result<Withdrawal, PoolError> {
    let amount_a = pro_rata(shares, state.reserve_a, state.ledger.total_supply);
    let amount_b = pro_rata(shares, state.reserve_b, state.ledger.total_supply);
    let native_out = state.native_part(amount_a, amount_b);
    if !authorized {
        Err(PoolError::Unauthorized)
    } else if shares < 0 {
        Err(PoolError::NegativeAmount)
    } else if state.ledger.total_supply <= 0 {
        Err(PoolError::NoLiquidity)
    } else if shares == 0 {
        Err(PoolError::ZeroShares)
    } else if shares > state.ledger.balance_of(caller) {
        Err(PoolError::InsufficientLpTokens)
    } else if state.reserve_a <= 0 && state.reserve_b <= 0 {
        Err(PoolError::NoReserves)
    } else if !(fits_i128(shares * state.reserve_a) && fits_i128(shares * state.reserve_b)) {
        Err(PoolError::Arithmetic(ArithmeticError::Overflow))
    } else if native_out > state.native_balance {
        Err(PoolError::InsufficientNativeBalance)
    } else {
        Ok(
            Withdrawal {
                state: PoolState {
                    reserve_a: state.reserve_a - amount_a,
                    reserve_b: state.reserve_b - amount_b,
                    native_balance: state.native_balance - native_out,
                    ledger: state.ledger.burned(caller, shares),
                    ..state
                },
                amount_a,
                amount_b,
                transfers: payout_transfers(state.native_side(), amount_a, amount_b),
            },
        )
    }
}

/// The number of shares minted for two amounts that are not zero is at least
/// [`MINIMUM_LIQUIDITY`], and not negative in any case.
pub proof fn lemma_shares_for_bounds(amount_a: int, amount_b: int)
    ensures
        amount_a != 0 && amount_b != 0 ==> shares_for(amount_a, amount_b) >= MINIMUM_LIQUIDITY,
        shares_for(amount_a, amount_b) >= 0,
{
}

/// The share of a reserve that `shares` out of `total_supply` are worth is
/// not negative and not more than the reserve.
pub proof fn lemma_pro_rata_bounds(shares: int, reserve: int, total_supply: int)
    requires
        0 <= shares <= total_supply,
        0 < total_supply,
        0 <= reserve,
    ensures
        0 <= pro_rata(shares, reserve, total_supply) <= reserve,
        shares == total_supply ==> pro_rata(shares, reserve, total_supply) == reserve,
{
    if reserve > 0 {
        assert(0 <= shares * reserve <= total_supply * reserve) by (nonlinear_arith)
            requires
                0 <= shares <= total_supply,
                0 < reserve,
        ;
        vstd::arithmetic::div_mod::lemma_div_pos_is_pos(shares * reserve, total_supply);
        vstd::arithmetic::div_mod::lemma_div_is_ordered(
            shares * reserve,
            total_supply * reserve,
            total_supply,
        );
        assert(total_supply * reserve == reserve * total_supply) by (nonlinear_arith);
        vstd::arithmetic::div_mod::lemma_div_multiples_vanish(reserve, total_supply);
    }
}

/// Amounts that are exactly in the ratio of the reserves are proportional.
pub proof fn lemma_exact_ratio_is_proportional(
    amount_a: int,
    amount_b: int,
    reserve_a: int,
    reserve_b: int,
)
    requires
        amount_a * reserve_b == amount_b * reserve_a,
    ensures
        proportional(amount_a, amount_b, reserve_a, reserve_b),
{
}

/// A deposit of two positive amounts that are exactly in the ratio of the
/// reserves goes through, wherever every number that the pool has to hold
/// afterwards fits: it mints [`shares_for`] the two amounts and adds them
/// to the reserves.
pub proof fn lemma_proportional_add_succeeds(
    state: PoolState,
    caller: Seq<char>,
    amount_a: int,
    amount_b: int,
)
    requires
        state.wf(),
        amount_a > 0,
        amount_b > 0,
        amount_a * state.reserve_b == amount_b * state.reserve_a,
        fits_i128(amount_a * state.reserve_b),
        fits_i128(amount_a * amount_b),
        fits_i128(state.native_balance + state.native_part(amount_a, amount_b)),
        fits_i128(state.ledger.total_supply + shares_for(amount_a, amount_b)),
        fits_i128(state.reserve_a + amount_a),
        fits_i128(state.reserve_b + amount_b),
    ensures
        add_liquidity_outcome(state, caller, true, amount_a, amount_b) matches Ok(deposit)
            && deposit.shares == shares_for(amount_a, amount_b) && deposit.state.reserve_a
            == state.reserve_a + amount_a && deposit.state.reserve_b == state.reserve_b
            + amount_b,
{
    lemma_exact_ratio_is_proportional(amount_a, amount_b, state.reserve_a, state.reserve_b);
}

/// A deposit into a pool with reserves is refused as not proportional where
/// the cross products of amounts and reserves differ by more than one unit
/// and by more than ten millionths of `amount_a * reserve_b`.
pub proof fn lemma_off_ratio_add_is_refused(
    state: PoolState,
    caller: Seq<char>,
    amount_a: int,
    amount_b: int,
)
    requires
        state.wf(),
        state.reserve_a > 0 || state.reserve_b > 0,
        amount_a >= 0,
        amount_b >= 0,
        fits_i128(amount_a * state.reserve_b),
        fits_i128(amount_b * state.reserve_a),
        ({
            let left = amount_a * state.reserve_b;
            let right = amount_b * state.reserve_a;
            let difference = if left > right {
                left - right
            } else {
                right - left
            };
            difference > 1 && difference * 1_000_000 > 10 * left
        }),
    ensures
        add_liquidity_outcome(state, caller, true, amount_a, amount_b) == Err::<
            Deposit,
            PoolError,
        >(PoolError::NotProportional),
{
}

/// A deposit into a valid pool leaves a valid pool: in particular the
/// balances still add up to the total supply.
pub proof fn lemma_add_liquidity_keeps_wf(
    state: PoolState,
    caller: Seq<char>,
    authorized: bool,
    amount_a: int,
    amount_b: int,
)
    requires
        state.wf(),
        add_liquidity_outcome(state, caller, authorized, amount_a, amount_b) is Ok,
    ensures
        ({
            let deposit = add_liquidity_outcome(
                state,
                caller,
                authorized,
                amount_a,
                amount_b,
            )->Ok_0;
            &&& deposit.state.wf()
            &&& deposit.shares >= MINIMUM_LIQUIDITY
            &&& deposit.state.fees == state.fees
            &&& deposit.state.fee_marks == state.fee_marks
            &&& deposit.state.ledger.total_supply == state.ledger.total_supply + deposit.shares
            &&& deposit.state.ledger.balance_of(caller) == state.ledger.balance_of(caller)
                + deposit.shares
        }),
{
    lemma_shares_for_bounds(amount_a, amount_b);
    lemma_minted_wf(state.ledger, caller, shares_for(amount_a, amount_b));
}

/// A withdrawal from a valid pool leaves a valid pool, and pays out no more
/// than the reserves.
pub proof fn lemma_remove_liquidity_keeps_wf(
    state: PoolState,
    caller: Seq<char>,
    authorized: bool,
    shares: int,
)
    requires
        state.wf(),
        remove_liquidity_outcome(state, caller, authorized, shares) is Ok,
    ensures
        ({
            let withdrawal = remove_liquidity_outcome(state, caller, authorized, shares)->Ok_0;
            &&& withdrawal.state.wf()
            &&& 0 <= withdrawal.amount_a <= state.reserve_a
            &&& 0 <= withdrawal.amount_b <= state.reserve_b
            &&& withdrawal.state.fees == state.fees
            &&& withdrawal.state.fee_marks == state.fee_marks
            &&& withdrawal.state.ledger.total_supply == state.ledger.total_supply - shares
            &&& withdrawal.state.ledger.balance_of(caller) == state.ledger.balance_of(caller)
                - shares
        }),
{
    lemma_balance_bounds(state.ledger, caller);
    lemma_pro_rata_bounds(shares, state.reserve_a, state.ledger.total_supply);
    lemma_pro_rata_bounds(shares, state.reserve_b, state.ledger.total_supply);
    lemma_burned_wf(state.ledger, caller, shares);
}

} // verus!
