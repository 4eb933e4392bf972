//! The pool as contracts see it: its state, and the transfers that an
//! operation asks its host to carry out.

use crate::identity::is_native_text;
use crate::arith::{floor_sqrt, ArithmeticError};
use crate::book::{amount_of, amounts_within, keys_distinct, Entry};
use crate::fees::{unclaimed_fees_checked, FeeTracker};
use crate::ledger::LedgerState;
use crate::volume::VolumeTracker;
use vstd::prelude::*;

verus! {

/// The fee on a swap, in basis points of the amount paid in.
pub const FEE_BPS: i128 = 30;

/// The number of basis points in a whole.
pub const BPS_DENOMINATOR: i128 = 10000;

/// The least number of shares that a deposit mints.
pub const MINIMUM_LIQUIDITY: i128 = 1000;

/// The number of decimals of an LP share.
pub const LP_DECIMALS: u32 = 18;

/// One of the two pooled assets.
#[derive(Clone, Copy, Debug, PartialEq, Eq, Structural)]
pub enum Side {
    A,
    B,
}

/// The direction of a transfer between the caller and the pool.
#[derive(Clone, Copy, Debug, PartialEq, Eq, Structural)]
pub enum Direction {
    /// From the caller into the custody of the pool.
    FromCaller,
    /// Out of the custody of the pool to the caller.
    ToCaller,
}

/// A transfer of a pooled asset that the host of the pool has to carry out.
#[derive(Clone, Copy, Debug, PartialEq, Eq, Structural)]
pub struct Transfer {
    pub side: Side,
    pub direction: Direction,
    pub amount: i128,
}

/// Which asset is the native one: 0 for the first, 1 for the second where
/// the first is not, none where neither is.
pub open spec fn native_index(token_a: Seq<char>, token_b: Seq<char>) -> Option<i32> {
    if is_native_text(token_a) {
        Some(0i32)
    } else if is_native_text(token_b) {
        Some(1i32)
    } else {
        None
    }
}

/// The pool as contracts see it.
pub struct PoolState {
    pub token_a: Seq<char>,
    pub token_b: Seq<char>,
    pub reserve_a: int,
    pub reserve_b: int,
    pub is_xlm_pool: bool,
    pub xlm_token_index: Option<i32>,
    /// The name and the symbol of the LP share.
    pub name: Seq<char>,
    pub symbol: Seq<char>,
    pub ledger: LedgerState,
    pub fees: FeeTracker,
    /// For each holder, the fees per LP share at the holder's last claim.
    pub fee_marks: Seq<Entry<Seq<char>>>,
    pub volume: VolumeTracker,
    /// What the pool holds of the native asset by its own books.
    pub native_balance: int,
}

impl PoolState {
    /// Whether the state is valid: the two assets differ; the native index
    /// is the one that the two assets give; the ledger is valid, so that its
    /// balances add up to the total supply; no holder's mark is negative or
    /// beyond the fees per LP share; both windowed volumes equal the all-time
    /// volume; and neither a reserve, nor a figure of the trackers, nor the
    /// native balance is negative or more than an `i128` holds.
    pub open spec fn wf(self) -> bool {
        &&& self.token_a != self.token_b
        &&& 0 <= self.reserve_a <= i128::MAX
        &&& 0 <= self.reserve_b <= i128::MAX
        &&& self.xlm_token_index == native_index(self.token_a, self.token_b)
        &&& self.is_xlm_pool == (self.xlm_token_index is Some)
        &&& self.ledger.wf()
        &&& 0 <= self.fees.total_fees_earned
        &&& 0 <= self.fees.fees_per_lp_token
        &&& keys_distinct(self.fee_marks)
        &&& amounts_within(self.fee_marks, 0, self.fees.fees_per_lp_token as int)
        &&& 0 <= self.volume.total_volume_all_time
        &&& self.volume.wf()
        &&& 0 <= self.native_balance <= i128::MAX
    }

    /// The side that is the native asset, if either is.
    pub open spec fn native_side(self) -> Option<Side> {
        match self.xlm_token_index {
            Some(index) => if index == 0 {
                Some(Side::A)
            } else {
                Some(Side::B)
            },
            None => None,
        }
    }

    /// The reserve of `side`.
    pub open spec fn reserve(self, side: Side) -> int {
        match side {
            Side::A => self.reserve_a,
            Side::B => self.reserve_b,
        }
    }

    /// Of the amounts `amount_a` and `amount_b`, the one on the native side;
    /// zero where neither side is native.
    pub open spec fn native_part(self, amount_a: int, amount_b: int) -> int {
        match self.native_side() {
            Some(Side::A) => amount_a,
            Some(Side::B) => amount_b,
            None => 0,
        }
    }

    /// The fees per LP share at the last claim of `who`; zero before the
    /// first.
    pub open spec fn last_observed(self, who: Seq<char>) -> int {
        amount_of(self.fee_marks, who)
    }

    /// The fees that `who` has not claimed, computed in `i128`.
    pub open spec fn unclaimed(self, who: Seq<char>) -> Result<int, ArithmeticError> {
        unclaimed_fees_checked(
            self.ledger.balance_of(who),
            self.fees.fees_per_lp_token as int,
            self.last_observed(who),
        )
    }
}

/// The state of a pool of `token_a` and `token_b` that was just made.
pub open spec fn initial_state(
    token_a: Seq<char>,
    token_b: Seq<char>,
    name: Seq<char>,
    symbol: Seq<char>,
) -> PoolState {
    PoolState {
        token_a,
        token_b,
        reserve_a: 0,
        reserve_b: 0,
        is_xlm_pool: native_index(token_a, token_b) is Some,
        xlm_token_index: native_index(token_a, token_b),
        name,
        symbol,
        ledger: LedgerState { balances: Seq::empty(), allowances: Seq::empty(), total_supply: 0 },
        fees: FeeTracker { total_fees_earned: 0, fees_per_lp_token: 0, last_update_ledger: 0 },
        fee_marks: Seq::empty(),
        volume: VolumeTracker {
            total_volume_24h: 0,
            total_volume_7d: 0,
            total_volume_all_time: 0,
            last_swap_ledger: 0,
        },
        native_balance: 0,
    }
}

/// What setting up a pool comes to, in an instance that holds `instance`:
/// a pool is set up once, and of two assets that differ.
pub open spec fn initialize_outcome(
    instance: Option<PoolState>,
    token_a: Seq<char>,
    token_b: Seq<char>,
    name: Seq<char>,
    symbol: Seq<char>,
) -> Result<PoolState, crate::error::PoolError> {
    if instance is Some {
        Err(crate::error::PoolError::AlreadyInitialized)
    } else if token_a == token_b {
        Err(crate::error::PoolError::InvalidToken)
    } else {
        Ok(initial_state(token_a, token_b, name, symbol))
    }
}

/// The number of shares that a deposit of `amount_a` and `amount_b` mints:
/// none where either amount is zero, else the floor of the square root of
/// their product, raised to [`MINIMUM_LIQUIDITY`] where it is less.
pub open spec fn shares_for(amount_a: int, amount_b: int) -> int {
    if amount_a == 0 || amount_b == 0 {
        0
    } else if floor_sqrt(amount_a * amount_b) < MINIMUM_LIQUIDITY {
        MINIMUM_LIQUIDITY as int
    } else {
        floor_sqrt(amount_a * amount_b)
    }
}

/// The transfer of `amount` of `side` from the caller to the pool.
pub open spec fn pull(side: Side, amount: int) -> Transfer {
    Transfer { side, direction: Direction::FromCaller, amount: amount as i128 }
}

/// The transfer of `amount` of `side` from the pool to the caller.
pub open spec fn pay(side: Side, amount: int) -> Transfer {
    Transfer { side, direction: Direction::ToCaller, amount: amount as i128 }
}

/// The transfers that bring `amount_a` and `amount_b` into the pool: one for
/// each side that is not native, the first asset first.
pub open spec fn deposit_transfers(native: Option<Side>, amount_a: int, amount_b: int) -> Seq<
    Transfer,
> {
    let first = if native == Some(Side::A) {
        Seq::<Transfer>::empty()
    } else {
        seq![pull(Side::A, amount_a)]
    };
    if native == Some(Side::B) {
        first
    } else {
        first.push(pull(Side::B, amount_b))
    }
}

/// The transfers that pay `amount_a` and `amount_b` out of the pool: one for
/// each side that is not native and whose amount is not zero, the first
/// asset first.
pub open spec fn payout_transfers(native: Option<Side>, amount_a: int, amount_b: int) -> Seq<
    Transfer,
> {
    let first = if native != Some(Side::A) && amount_a > 0 {
        seq![pay(Side::A, amount_a)]
    } else {
        Seq::<Transfer>::empty()
    };
    if native != Some(Side::B) && amount_b > 0 {
        first.push(pay(Side::B, amount_b))
    } else {
        first
    }
}

} // verus!
