//! Fee accrual: what the pool has earned, and what each LP share has earned.
//!
//! The pool keeps one running figure, the fees earned per LP share, scaled
//! by [`FEE_SCALE`].  A holder's unclaimed fees follow from that figure, the
//! value it had when the holder last claimed, and the holder's balance; no
//! other holder is looked at.

use crate::arith::{
    checked_add, checked_div, checked_mul, checked_sub, div_toward_zero, fits_i128,
    ArithmeticError,
};
use vstd::prelude::*;

verus! {

/// The factor by which the fees per LP share are scaled: ten to the
/// eighteenth.
pub const FEE_SCALE: i128 = 1_000_000_000_000_000_000;

/// The fees that the pool has earned.
#[derive(Clone, Copy, Debug, PartialEq, Eq, Structural)]
pub struct FeeTracker {
    /// All fees ever earned.
    pub total_fees_earned: i128,
    /// The fees earned by one LP share, scaled by [`FEE_SCALE`].
    pub fees_per_lp_token: i128,
    /// The ledger at which fees were last earned.
    pub last_update_ledger: u32,
}

/// By how much a fee of `fee_amount` raises the fees per LP share while
/// `total_supply` shares exist; nothing while none exists.
pub open spec fn fee_increment(fee_amount: int, total_supply: int) -> int {
    if total_supply > 0 {
        div_toward_zero(fee_amount * FEE_SCALE, total_supply)
    } else {
        0
    }
}

/// The fees that a holder of `balance` shares has not claimed, when the fees
/// per share stand at `fees_per_lp_token` and stood at `last_observed` at the
/// holder's last claim.
pub open spec fn unclaimed_fees(balance: int, fees_per_lp_token: int, last_observed: int) -> int {
    if balance == 0 {
        0
    } else {
        div_toward_zero(balance * (fees_per_lp_token - last_observed), FEE_SCALE as int)
    }
}

/// What computing [`unclaimed_fees`] in `i128` comes to: the value, or the
/// first step whose result does not fit.
pub open spec fn unclaimed_fees_checked(
    balance: int,
    fees_per_lp_token: int,
    last_observed: int,
) -> Result<int, ArithmeticError> {
    if balance == 0 {
        Ok(0)
    } else if !fits_i128(fees_per_lp_token - last_observed) {
        Err(ArithmeticError::Underflow)
    } else if !fits_i128(balance * (fees_per_lp_token - last_observed)) {
        Err(ArithmeticError::Overflow)
    } else {
        Ok(unclaimed_fees(balance, fees_per_lp_token, last_observed))
    }
}

/// The fees that a holder of `balance` shares has not claimed.
pub fn calculate_unclaimed_fees(
    balance: i128,
    fees_per_lp_token: i128,
    last_observed: i128,
) -> (result: Result<i128, ArithmeticError>)
    ensures
        match unclaimed_fees_checked(
            balance as int,
            fees_per_lp_token as int,
            last_observed as int,
        ) {
            Ok(fees) => result == Ok::<i128, ArithmeticError>(fees as i128) && fits_i128(fees),
            Err(error) => result == Err::<i128, ArithmeticError>(error),
        },
{
    if balance == 0 {
        return Ok(0);
    }
    let delta = match checked_sub(fees_per_lp_token, last_observed) {
        Ok(v) => v,
        Err(e) => {
            return Err(e);
        },
    };
    let scaled = match checked_mul(balance, delta) {
        Ok(v) => v,
        Err(e) => {
            return Err(e);
        },
    };
    match checked_div(scaled, FEE_SCALE) {
        Ok(v) => Ok(v),
        Err(e) => Err(e),
    }
}

/// Dividing by a number of magnitude one or more brings no value further
/// from zero.
pub proof fn lemma_div_toward_zero_shrinks(a: int, b: int)
    requires
        b >= 1,
    ensures
        a >= 0 ==> 0 <= div_toward_zero(a, b) <= a,
        a <= 0 ==> a <= div_toward_zero(a, b) <= 0,
        a >= 0 ==> div_toward_zero(a, b) == a / b,
{
    if a >= 0 {
        vstd::arithmetic::div_mod::lemma_div_pos_is_pos(a, b);
        vstd::arithmetic::div_mod::lemma_div_is_ordered_by_denominator(a, 1, b);
    } else {
        vstd::arithmetic::div_mod::lemma_div_pos_is_pos(-a, b);
        vstd::arithmetic::div_mod::lemma_div_is_ordered_by_denominator(-a, 1, b);
    }
}

impl FeeTracker {
    /// The tracker of a pool that has earned nothing.
    pub fn new() -> (tracker: FeeTracker)
        ensures
            tracker == (FeeTracker {
                total_fees_earned: 0,
                fees_per_lp_token: 0,
                last_update_ledger: 0,
            }),
    {
        FeeTracker { total_fees_earned: 0, fees_per_lp_token: 0, last_update_ledger: 0 }
    }

    /// The tracker after a fee of `fee_amount` was earned at `ledger` while
    /// `total_supply` shares existed, or the first step of the computation
    /// whose result does not fit.
    pub open spec fn after_fee(self, fee_amount: int, total_supply: int, ledger: u32) -> Result<
        FeeTracker,
        ArithmeticError,
    > {
        let earned = self.total_fees_earned + fee_amount;
        let per_share = self.fees_per_lp_token + fee_increment(fee_amount, total_supply);
        if !fits_i128(earned) {
            Err(ArithmeticError::Overflow)
        } else if total_supply > 0 && !fits_i128(fee_amount * FEE_SCALE) {
            Err(ArithmeticError::Overflow)
        } else if !fits_i128(per_share) {
            Err(ArithmeticError::Overflow)
        } else {
            Ok(
                FeeTracker {
                    total_fees_earned: earned as i128,
                    fees_per_lp_token: per_share as i128,
                    last_update_ledger: ledger,
                },
            )
        }
    }

    /// Records a fee of `fee_amount`, earned at `ledger` while
    /// `total_supply` shares existed.  On an error the tracker is as before.
    pub fn update_fees(
        &mut self,
        fee_amount: i128,
        total_supply: i128,
        ledger: u32,
    ) -> (result: Result<(), ArithmeticError>)
        ensures
            match old(self).after_fee(fee_amount as int, total_supply as int, ledger) {
                Ok(tracker) => result is Ok && *final(self) == tracker,
                Err(error) => result == Err::<(), ArithmeticError>(error) && *final(self) == *old(
                    self,
                ),
            },
    {
        let earned = match checked_add(self.total_fees_earned, fee_amount) {
            Ok(v) => v,
            Err(e) => {
                return Err(e);
            },
        };
        let mut per_share = self.fees_per_lp_token;
        if total_supply > 0 {
            let scaled = match checked_mul(fee_amount, FEE_SCALE) {
                Ok(v) => v,
                Err(e) => {
                    return Err(e);
                },
            };
            let increment = match checked_div(scaled, total_supply) {
                Ok(v) => v,
                Err(e) => {
                    return Err(e);
                },
            };
            per_share =
            match checked_add(per_share, increment) {
                Ok(v) => v,
                Err(e) => {
                    return Err(e);
                },
            };
        }
        self.total_fees_earned = earned;
        self.fees_per_lp_token = per_share;
        self.last_update_ledger = ledger;
        Ok(())
    }
}

/// A fee that is not negative never lowers the fees per LP share.
pub proof fn lemma_fee_increment_nonnegative(fee_amount: int, total_supply: int)
    requires
        fee_amount >= 0,
    ensures
        fee_increment(fee_amount, total_supply) >= 0,
{
    if total_supply > 0 {
        assert(fee_amount * FEE_SCALE >= 0) by (nonlinear_arith)
            requires
                fee_amount >= 0,
                FEE_SCALE > 0,
        ;
        lemma_div_toward_zero_shrinks(fee_amount * FEE_SCALE, total_supply);
    }
}

} // verus!
