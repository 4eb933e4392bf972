//! What claiming fees comes to, and what a holder's position is worth.

use crate::arith::{fits_i128, ArithmeticError};
use crate::book::{lemma_with_amount, lemma_with_amount_within, with_amount};
use crate::error::PoolError;
use crate::fees::{unclaimed_fees, FEE_SCALE};
use crate::ledger::lemma_balance_bounds;
use crate::state::{payout_transfers, PoolState, Transfer, BPS_DENOMINATOR};
use vstd::prelude::*;

verus! {

/// The part of the total supply that `balance` is, in basis points, rounded
/// down; nothing while no share exists.
pub open spec fn share_bps(balance: int, total_supply: int) -> int {
    if total_supply > 0 {
        balance * BPS_DENOMINATOR / total_supply
    } else {
        0
    }
}

/// `share` basis points of `reserve`, rounded down.
pub open spec fn fee_share(reserve: int, share: int) -> int {
    reserve * share / (BPS_DENOMINATOR as int)
}

/// A claim that went through.
pub struct Claim {
    /// The pool after the claim.
    pub state: PoolState,
    /// What the caller gets, both assets added up.
    pub amount: int,
    /// The transfers that the host has to carry out.
    pub transfers: Seq<Transfer>,
}

/// What `caller` claiming its fees comes to.
///
/// A caller without unclaimed fees gets nothing, and nothing changes.
/// Otherwise the caller is paid its share, in basis points of the total
/// supply, of each reserve, and its unclaimed fees start again from zero.
/// The reserves stay as they are.
///
/// The checks are made in this order, and the first that fails decides:
/// authorization; that the unclaimed fees can be computed; then, for a
/// caller with unclaimed fees, that the share and both payouts can be
/// computed; that the native balance covers the native side; that the sum
/// of both payouts fits.
pub open spec fn claim_fees_outcome(
    state: PoolState,
    caller: Seq<char>,
    authorized: bool,
) -> Result<Claim, PoolError> {
    let balance = state.ledger.balance_of(caller);
    let total_supply = state.ledger.total_supply;
    let share = share_bps(balance, total_supply);
    let fee_a = if total_supply > 0 {
        fee_share(state.reserve_a, share)
    } else {
        0
    };
    let fee_b = if total_supply > 0 {
        fee_share(state.reserve_b, share)
    } else {
        0
    };
    let native_out = state.native_part(fee_a, fee_b);
    if !authorized {
        Err(PoolError::Unauthorized)
    } else {
        match state.unclaimed(caller) {
            Err(error) => Err(PoolError::Arithmetic(error)),
            Ok(unclaimed) => if unclaimed <= 0 {
                Ok(Claim { state, amount: 0, transfers: Seq::empty() })
            } else if total_supply > 0 && !fits_i128(balance * BPS_DENOMINATOR) {
                Err(PoolError::Arithmetic(ArithmeticError::Overflow))
            } else if total_supply > 0 && !(fits_i128(state.reserve_a * share) && fits_i128(
                state.reserve_b * share,
            )) {
                Err(PoolError::Arithmetic(ArithmeticError::Overflow))
            } else if native_out > state.native_balance {
                Err(PoolError::InsufficientNativeBalance)
            } else if !fits_i128(fee_a + fee_b) {
                Err(PoolError::Arithmetic(ArithmeticError::Overflow))
            } else {
                Ok(
                    Claim {
                        state: PoolState {
                            fee_marks: with_amount(
                                state.fee_marks,
                                caller,
                                state.fees.fees_per_lp_token as int,
                            ),
                            native_balance: state.native_balance - native_out,
                            ..state
                        },
                        amount: fee_a + fee_b,
                        transfers: payout_transfers(state.native_side(), fee_a, fee_b),
                    },
                )
            },
        }
    }
}

/// The position of a holder: its balance and what that is worth of each
/// reserve.
pub open spec fn liquidity_position(state: PoolState, user: Seq<char>) -> Result<
    (int, int, int),
    PoolError,
> {
    let balance = state.ledger.balance_of(user);
    let total_supply = state.ledger.total_supply;
    if total_supply == 0 || balance == 0 {
        Ok((0, 0, 0))
    } else if !(fits_i128(balance * BPS_DENOMINATOR) && fits_i128(state.reserve_a * balance)
        && fits_i128(state.reserve_b * balance)) {
        Err(PoolError::Arithmetic(ArithmeticError::Overflow))
    } else {
        Ok(
            (
                balance,
                state.reserve_a * balance / total_supply,
                state.reserve_b * balance / total_supply,
            ),
        )
    }
}

/// In a valid pool a holder's share is between nothing and the whole, and so
/// is its part of any reserve.
pub proof fn lemma_fee_share_bounds(balance: int, total_supply: int, reserve: int)
    requires
        0 <= balance <= total_supply,
        0 < total_supply,
        0 <= reserve,
    ensures
        0 <= share_bps(balance, total_supply) <= BPS_DENOMINATOR,
        0 <= fee_share(reserve, share_bps(balance, total_supply)) <= reserve,
{
    let share = share_bps(balance, total_supply);
    let whole = BPS_DENOMINATOR as int;
    assert(0 <= balance * whole <= total_supply * whole) by (nonlinear_arith)
        requires
            0 <= balance <= total_supply,
            whole > 0,
    ;
    vstd::arithmetic::div_mod::lemma_div_pos_is_pos(balance * whole, total_supply);
    vstd::arithmetic::div_mod::lemma_div_is_ordered(
        balance * whole,
        total_supply * whole,
        total_supply,
    );
    assert(total_supply * whole == whole * total_supply) by (nonlinear_arith);
    vstd::arithmetic::div_mod::lemma_div_multiples_vanish(whole, total_supply);
    assert(0 <= share <= whole);
    assert(0 <= reserve * share <= reserve * whole) by (nonlinear_arith)
        requires
            0 <= share <= whole,
            0 <= reserve,
    ;
}

/// In a valid pool the unclaimed fees of a holder are never negative.
pub proof fn lemma_unclaimed_nonnegative(state: PoolState, who: Seq<char>)
    requires
        state.wf(),
    ensures
        0 <= state.last_observed(who) <= state.fees.fees_per_lp_token,
        state.unclaimed(who) matches Ok(fees) ==> fees >= 0,
        !(state.unclaimed(who) matches Err(ArithmeticError::Underflow)),
{
    let balance = state.ledger.balance_of(who);
    let delta = state.fees.fees_per_lp_token - state.last_observed(who);
    lemma_balance_bounds(state.ledger, who);
    crate::book::lemma_amount_of_within(
        state.fee_marks,
        who,
        0,
        state.fees.fees_per_lp_token as int,
    );
    if balance != 0 {
        assert(balance * delta >= 0) by (nonlinear_arith)
            requires
                balance >= 0,
                delta >= 0,
        ;
        crate::fees::lemma_div_toward_zero_shrinks(balance * delta, FEE_SCALE as int);
    }
}

/// A claim in a valid pool leaves a valid pool; it changes neither the
/// reserves, nor the ledger, nor what the pool has earned.
pub proof fn lemma_claim_fees_keeps_wf(state: PoolState, caller: Seq<char>, authorized: bool)
    requires
        state.wf(),
        claim_fees_outcome(state, caller, authorized) is Ok,
    ensures
        ({
            let claim = claim_fees_outcome(state, caller, authorized)->Ok_0;
            &&& claim.state.wf()
            &&& claim.amount >= 0
            &&& claim.state.ledger == state.ledger
            &&& claim.state.fees == state.fees
            &&& claim.state.reserve_a == state.reserve_a
            &&& claim.state.reserve_b == state.reserve_b
        }),
{
    let claim = claim_fees_outcome(state, caller, authorized)->Ok_0;
    let balance = state.ledger.balance_of(caller);
    let total_supply = state.ledger.total_supply;
    lemma_balance_bounds(state.ledger, caller);
    lemma_unclaimed_nonnegative(state, caller);
    let unclaimed = state.unclaimed(caller)->Ok_0;
    if unclaimed > 0 {
        assert(balance > 0);
        lemma_fee_share_bounds(balance, total_supply, state.reserve_a);
        lemma_fee_share_bounds(balance, total_supply, state.reserve_b);
        lemma_with_amount(state.fee_marks, caller, state.fees.fees_per_lp_token as int);
        lemma_with_amount_within(
            state.fee_marks,
            caller,
            state.fees.fees_per_lp_token as int,
            0,
            state.fees.fees_per_lp_token as int,
        );
    }
}

/// A claim that follows a claim of the same caller, with nothing in
/// between, pays nothing and changes nothing.
pub proof fn lemma_second_claim_pays_nothing(state: PoolState, caller: Seq<char>, authorized: bool)
    requires
        state.wf(),
        claim_fees_outcome(state, caller, authorized) is Ok,
    ensures
        ({
            let first = claim_fees_outcome(state, caller, authorized)->Ok_0;
            claim_fees_outcome(first.state, caller, authorized) == Ok::<Claim, PoolError>(
                Claim { state: first.state, amount: 0, transfers: Seq::empty() },
            )
        }),
{
    let first = claim_fees_outcome(state, caller, authorized)->Ok_0;
    lemma_unclaimed_nonnegative(state, caller);
    let unclaimed = state.unclaimed(caller)->Ok_0;
    if unclaimed > 0 {
        lemma_with_amount(state.fee_marks, caller, state.fees.fees_per_lp_token as int);
        assert(first.state.last_observed(caller) == state.fees.fees_per_lp_token);
        let balance = first.state.ledger.balance_of(caller);
        assert(balance * 0 == 0);
        assert(first.state.unclaimed(caller) == Ok::<int, ArithmeticError>(0));
    }
}

/// Of two holders of whom neither has claimed since the other, the one with
/// twice the shares has twice the unclaimed fees, up to the one unit that
/// rounding down can take from the smaller holder's doubled figure.
pub proof fn lemma_unclaimed_fees_two_to_one(
    balance: int,
    fees_per_lp_token: int,
    last_observed: int,
)
    requires
        balance >= 0,
        fees_per_lp_token >= last_observed,
    ensures
        0 <= unclaimed_fees(2 * balance, fees_per_lp_token, last_observed) - 2 * unclaimed_fees(
            balance,
            fees_per_lp_token,
            last_observed,
        ) <= 1,
{
    let delta = fees_per_lp_token - last_observed;
    let scale = FEE_SCALE as int;
    if balance != 0 {
        let x = balance * delta;
        assert(x >= 0) by (nonlinear_arith)
            requires
                x == balance * delta,
                balance >= 0,
                delta >= 0,
        ;
        assert((2 * balance) * delta == 2 * x) by (nonlinear_arith)
            requires
                x == balance * delta,
        ;
        crate::fees::lemma_div_toward_zero_shrinks(x, scale);
        crate::fees::lemma_div_toward_zero_shrinks(2 * x, scale);
        assert(unclaimed_fees(balance, fees_per_lp_token, last_observed) == x / scale);
        assert(unclaimed_fees(2 * balance, fees_per_lp_token, last_observed) == (2 * x) / scale);
    }
}

/// In a valid pool, of two holders of whom neither has claimed since the
/// other, the one with twice the shares has twice the unclaimed fees of the
/// other, or one unit more.
pub proof fn lemma_fees_follow_shares(state: PoolState, large: Seq<char>, small: Seq<char>)
    requires
        state.wf(),
        state.ledger.balance_of(large) == 2 * state.ledger.balance_of(small),
        state.last_observed(large) == state.last_observed(small),
        state.unclaimed(large) is Ok,
    ensures
        state.unclaimed(small) is Ok,
        0 <= state.unclaimed(large)->Ok_0 - 2 * state.unclaimed(small)->Ok_0 <= 1,
{
    let balance = state.ledger.balance_of(small);
    let delta = state.fees.fees_per_lp_token - state.last_observed(small);
    lemma_unclaimed_nonnegative(state, small);
    lemma_unclaimed_nonnegative(state, large);
    lemma_balance_bounds(state.ledger, small);
    lemma_unclaimed_fees_two_to_one(
        balance,
        state.fees.fees_per_lp_token as int,
        state.last_observed(small),
    );
    if balance != 0 {
        assert(0 <= balance * delta <= (2 * balance) * delta) by (nonlinear_arith)
            requires
                balance >= 0,
                delta >= 0,
        ;
    }
}

} // verus!
