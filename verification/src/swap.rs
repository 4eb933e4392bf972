//! What a swap comes to: the constant-product rule with a fee on the way in.

use crate::arith::{fits_i128, ArithmeticError};
use crate::book::amounts_within;
use crate::error::PoolError;
use crate::fees::{lemma_fee_increment_nonnegative, FeeTracker};
use crate::state::{pay, pull, PoolState, Side, Transfer, BPS_DENOMINATOR, FEE_BPS};
use vstd::prelude::*;

verus! {

/// The other side.
pub open spec fn opposite(side: Side) -> Side {
    match side {
        Side::A => Side::B,
        Side::B => Side::A,
    }
}

/// What is left of `amount_in` after the fee, rounded down.
pub open spec fn amount_in_with_fee(amount_in: int) -> int {
    amount_in * (BPS_DENOMINATOR - FEE_BPS) / (BPS_DENOMINATOR as int)
}

/// What a swap of `amount_in` pays out, by the constant-product rule on the
/// amount after the fee, rounded down.
pub open spec fn amount_out(reserve_in: int, reserve_out: int, amount_in: int) -> int {
    reserve_out * amount_in_with_fee(amount_in) / (reserve_in + amount_in_with_fee(amount_in))
}

/// The transfers of a swap: the amount paid in, unless that side is native,
/// then the amount paid out, unless that side is native.
pub open spec fn swap_transfers(
    native: Option<Side>,
    side_in: Side,
    amount_in: int,
    amount_out: int,
) -> Seq<Transfer> {
    let first = if native == Some(side_in) {
        Seq::<Transfer>::empty()
    } else {
        seq![pull(side_in, amount_in)]
    };
    if native == Some(opposite(side_in)) {
        first
    } else {
        first.push(pay(opposite(side_in), amount_out))
    }
}

/// A swap that went through.
pub struct Swap {
    /// The pool after the swap.
    pub state: PoolState,
    /// What the caller gets of the other asset.
    pub amount_out: int,
    /// The transfers that the host has to carry out.
    pub transfers: Seq<Transfer>,
}

/// The state after `amount_in` came in on `side_in`, `amount_out` went out
/// on the other side, and the trackers moved to `fees` and `volume`.
pub open spec fn swapped(
    state: PoolState,
    side_in: Side,
    amount_in: int,
    amount_out: int,
    fees: FeeTracker,
    volume: crate::volume::VolumeTracker,
) -> PoolState {
    let native_balance = if state.native_side() == Some(side_in) {
        state.native_balance + amount_in
    } else if state.native_side() == Some(opposite(side_in)) {
        state.native_balance - amount_out
    } else {
        state.native_balance
    };
    match side_in {
        Side::A => PoolState {
            reserve_a: state.reserve_a + amount_in,
            reserve_b: state.reserve_b - amount_out,
            native_balance,
            fees,
            volume,
            ..state
        },
        Side::B => PoolState {
            reserve_a: state.reserve_a - amount_out,
            reserve_b: state.reserve_b + amount_in,
            native_balance,
            fees,
            volume,
            ..state
        },
    }
}

/// What swapping `amount_in` of `input_token` at `ledger` comes to.
///
/// The checks are made in this order, and the first that fails decides:
/// authorization; that `amount_in` is positive; that `input_token` is one of
/// the two assets; that the native balance can take a native amount; that
/// the amount after the fee, the numerator and the denominator of the
/// constant-product rule fit; that the denominator is not zero; that
/// something is paid out; that the fee tracker and the volume tracker can
/// take the swap; that the native balance covers a native payout; that the
/// new reserve fits.
pub open spec fn swap_outcome(
    state: PoolState,
    authorized: bool,
    input_token: Seq<char>,
    amount_in: int,
    ledger: u32,
) -> Result<Swap, PoolError> {
    let side_in = if input_token == state.token_a {
        Side::A
    } else {
        Side::B
    };
    let reserve_in = state.reserve(side_in);
    let reserve_out = state.reserve(opposite(side_in));
    let with_fee = amount_in_with_fee(amount_in);
    let out = amount_out(reserve_in, reserve_out, amount_in);
    if !authorized {
        Err(PoolError::Unauthorized)
    } else if amount_in < 0 {
        Err(PoolError::NegativeAmount)
    } else if amount_in == 0 {
        Err(PoolError::ZeroAmountIn)
    } else if input_token != state.token_a && input_token != state.token_b {
        Err(PoolError::InvalidToken)
    } else if state.native_side() == Some(side_in) && !fits_i128(state.native_balance + amount_in) {
        Err(PoolError::Arithmetic(ArithmeticError::Overflow))
    } else if !(fits_i128(amount_in * (BPS_DENOMINATOR - FEE_BPS)) && fits_i128(
        reserve_out * with_fee,
    ) && fits_i128(reserve_in + with_fee)) {
        Err(PoolError::Arithmetic(ArithmeticError::Overflow))
    } else if reserve_in + with_fee == 0 {
        Err(PoolError::Arithmetic(ArithmeticError::DivByZero))
    } else if out <= 0 {
        Err(PoolError::InsufficientOutput)
    } else {
        match state.fees.after_fee(amount_in - with_fee, state.ledger.total_supply, ledger) {
            Err(error) => Err(PoolError::Arithmetic(error)),
            Ok(fees) => match state.volume.after_swap(amount_in, ledger) {
                Err(error) => Err(PoolError::Arithmetic(error)),
                Ok(volume) => if state.native_side() == Some(opposite(side_in))
                    && state.native_balance < out {
                    Err(PoolError::InsufficientNativeBalance)
                } else if !fits_i128(reserve_in + amount_in) {
                    Err(PoolError::Arithmetic(ArithmeticError::Overflow))
                } else {
                    Ok(
                        Swap {
                            state: swapped(state, side_in, amount_in, out, fees, volume),
                            amount_out: out,
                            transfers: swap_transfers(state.native_side(), side_in, amount_in, out),
                        },
                    )
                },
            },
        }
    }
}

/// The amount after the fee is not negative and not more than the amount.
pub proof fn lemma_amount_in_with_fee_bounds(amount_in: int)
    requires
        amount_in >= 0,
    ensures
        0 <= amount_in_with_fee(amount_in) <= amount_in,
{
}

/// The constant-product rule: what goes out is not more than the reserve
/// it comes from, and the product of the reserves does not shrink.
pub proof fn lemma_constant_product(reserve_in: int, reserve_out: int, amount_in: int)
    requires
        reserve_in >= 0,
        reserve_out >= 0,
        amount_in >= 0,
        reserve_in + amount_in_with_fee(amount_in) > 0,
    ensures
        0 <= amount_out(reserve_in, reserve_out, amount_in) <= reserve_out,
        (reserve_in + amount_in) * (reserve_out - amount_out(reserve_in, reserve_out, amount_in))
            >= reserve_in * reserve_out,
{
    let f = amount_in_with_fee(amount_in);
    let d = reserve_in + f;
    let n = reserve_out * f;
    let out = n / d;
    assert(out == amount_out(reserve_in, reserve_out, amount_in));
    assert(0 <= f <= amount_in);
    assert(n >= 0) by (nonlinear_arith)
        requires
            n == reserve_out * f,
            reserve_out >= 0,
            f >= 0,
    ;
    vstd::arithmetic::div_mod::lemma_fundamental_div_mod(n, d);
    vstd::arithmetic::div_mod::lemma_mod_bound(n, d);
    vstd::arithmetic::div_mod::lemma_div_pos_is_pos(n, d);
    assert(d * out <= n);
    assert(out <= reserve_out) by (nonlinear_arith)
        requires
            d * out <= reserve_out * f,
            d == reserve_in + f,
            reserve_in >= 0,
            f >= 0,
            d > 0,
            out >= 0,
            reserve_out >= 0,
    ;
    assert((reserve_in + amount_in) * (reserve_out - out) >= reserve_in * reserve_out)
        by (nonlinear_arith)
        requires
            d * out <= reserve_out * f,
            d == reserve_in + f,
            0 <= f <= amount_in,
            0 <= out <= reserve_out,
            reserve_in >= 0,
    ;
}

/// A swap in a valid pool leaves a valid pool, takes no more than the
/// reserve, never lowers the fees per LP share, and never shrinks the
/// product of the reserves.
pub proof fn lemma_swap_keeps_wf(
    state: PoolState,
    authorized: bool,
    input_token: Seq<char>,
    amount_in: int,
    ledger: u32,
)
    requires
        state.wf(),
        swap_outcome(state, authorized, input_token, amount_in, ledger) is Ok,
    ensures
        ({
            let swap = swap_outcome(state, authorized, input_token, amount_in, ledger)->Ok_0;
            &&& swap.state.wf()
            &&& 0 < swap.amount_out
            &&& swap.state.ledger == state.ledger
            &&& swap.state.fee_marks == state.fee_marks
            &&& swap.state.fees.fees_per_lp_token >= state.fees.fees_per_lp_token
            &&& swap.state.reserve_a * swap.state.reserve_b >= state.reserve_a * state.reserve_b
        }),
{
    let swap = swap_outcome(state, authorized, input_token, amount_in, ledger)->Ok_0;
    let side_in = if input_token == state.token_a {
        Side::A
    } else {
        Side::B
    };
    let reserve_in = state.reserve(side_in);
    let reserve_out = state.reserve(opposite(side_in));
    let with_fee = amount_in_with_fee(amount_in);
    lemma_amount_in_with_fee_bounds(amount_in);
    lemma_constant_product(reserve_in, reserve_out, amount_in);
    lemma_fee_increment_nonnegative(amount_in - with_fee, state.ledger.total_supply);
    let out = amount_out(reserve_in, reserve_out, amount_in);
    assert(swap.state.fees.fees_per_lp_token >= state.fees.fees_per_lp_token);
    assert(amounts_within(swap.state.fee_marks, 0, swap.state.fees.fees_per_lp_token as int));
    match side_in {
        Side::A => {},
        Side::B => {
            assert((reserve_out - out) * (reserve_in + amount_in) == (reserve_in + amount_in) * (
            reserve_out - out)) by (nonlinear_arith);
            assert(reserve_out * reserve_in == reserve_in * reserve_out) by (nonlinear_arith);
        },
    }
}

/// A swap that goes through never shrinks the product of the two reserves:
/// what the fee keeps back stays in the pool.
pub proof fn lemma_swap_grows_product(
    state: PoolState,
    authorized: bool,
    input_token: Seq<char>,
    amount_in: int,
    ledger: u32,
)
    requires
        state.wf(),
        swap_outcome(state, authorized, input_token, amount_in, ledger) is Ok,
    ensures
        ({
            let after = swap_outcome(state, authorized, input_token, amount_in, ledger)->Ok_0.state;
            after.reserve_a * after.reserve_b >= state.reserve_a * state.reserve_b
        }),
{
    lemma_swap_keeps_wf(state, authorized, input_token, amount_in, ledger);
}

} // verus!
