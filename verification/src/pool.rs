//! The pool itself: the executable operations on a [`PoolState`].
//!
//! Every operation is a step from one state to the next.  What a step comes
//! to is written down once, as a spec function (`*_outcome`); the operation
//! is proved to do exactly that.  An operation that fails leaves
//! the pool as it was.
//!
//! The pool does not move the pooled assets itself.  A successful operation
//! hands back the [`Transfer`]s that its host has to carry out, in order,
//! between the caller and the pool.  Where one of the two assets is the
//! native asset, that side is not transferred but booked in the pool's own
//! native balance.

use crate::identity::{is_native_xlm, Identity};
use crate::arith::{checked_add, checked_div, checked_mul, fits_i128, sqrt, ArithmeticError};
use crate::book::Book;
use crate::claims::{claim_fees_outcome, liquidity_position};
use crate::error::PoolError;
use crate::fees::{calculate_unclaimed_fees, FeeTracker};
use crate::ledger::{
    approve_outcome, book_of_holdings, burn_from_outcome, burn_outcome, holdings_of_book,
    holdings_view, restored_state, transfer_from_outcome, transfer_outcome, Grant, Holding,
    Ledger, LedgerState,
};
use crate::liquidity::{
    add_liquidity_outcome, lemma_add_liquidity_keeps_wf, lemma_pro_rata_bounds,
    remove_liquidity_outcome,
};
use crate::state::{
    deposit_transfers, initial_state, initialize_outcome, payout_transfers, shares_for,
    Direction, PoolState, Side, Transfer, BPS_DENOMINATOR, FEE_BPS, LP_DECIMALS,
    MINIMUM_LIQUIDITY,
};
use crate::swap::{lemma_swap_keeps_wf, swap_outcome, swap_transfers};
use crate::volume::VolumeTracker;
use vstd::prelude::*;

verus! {

/// The two assets of a pool and what the pool holds of them.
#[derive(Debug)]
pub struct PoolInfo {
    pub token_a: Identity,
    pub token_b: Identity,
    pub reserve_a: i128,
    pub reserve_b: i128,
    /// Whether one of the two assets is the native asset.
    pub is_xlm_pool: bool,
    /// Which asset is the native one: 0 for `token_a`, 1 for `token_b`.
    pub xlm_token_index: Option<i32>,
}

/// The result of a checked operation as a result of the pool.
fn lift<T>(result: Result<T, ArithmeticError>) -> (lifted: Result<T, PoolError>)
    ensures
        match result {
            Ok(value) => lifted == Ok::<T, PoolError>(value),
            Err(error) => lifted == Err::<T, PoolError>(PoolError::Arithmetic(error)),
        },
{
    match result {
        Ok(value) => Ok(value),
        Err(error) => Err(PoolError::Arithmetic(error)),
    }
}

/// Whether `result` and the pool `after` are what an operation on the LP
/// ledger asks for: `Unauthorized` without authorization; else success with
/// the expected ledger and the rest of the pool as `before`, or the expected
/// error with the whole pool as `before`.
pub open spec fn ledger_step(
    result: Result<(), PoolError>,
    before: PoolState,
    after: PoolState,
    authorized: bool,
    expected: Result<LedgerState, PoolError>,
) -> bool {
    if !authorized {
        result == Err::<(), PoolError>(PoolError::Unauthorized) && after == before
    } else {
        match expected {
            Ok(ledger) => result is Ok && after == (PoolState { ledger, ..before }),
            Err(error) => result == Err::<(), PoolError>(error) && after == before,
        }
    }
}

/// Everything that a pool holds, as plain values: what a host stores
/// between two operations.
#[derive(Debug)]
pub struct Snapshot {
    pub info: PoolInfo,
    pub lp_token_name: String,
    pub lp_token_symbol: String,
    /// The LP balances, the LP allowances and the total supply of LP shares.
    pub balances: Vec<Holding>,
    pub allowances: Vec<Grant>,
    pub total_supply: i128,
    pub fee_tracker: FeeTracker,
    /// For each holder, the fees per LP share at the holder's last claim.
    pub fee_marks: Vec<Holding>,
    pub volume_tracker: VolumeTracker,
    pub native_balance: i128,
}

impl View for Snapshot {
    type V = PoolState;

    open spec fn view(&self) -> PoolState {
        PoolState {
            token_a: self.info.token_a@,
            token_b: self.info.token_b@,
            reserve_a: self.info.reserve_a as int,
            reserve_b: self.info.reserve_b as int,
            is_xlm_pool: self.info.is_xlm_pool,
            xlm_token_index: self.info.xlm_token_index,
            name: self.lp_token_name@,
            symbol: self.lp_token_symbol@,
            ledger: restored_state(self.balances@, self.allowances@, self.total_supply as int),
            fees: self.fee_tracker,
            fee_marks: holdings_view(self.fee_marks@),
            volume: self.volume_tracker,
            native_balance: self.native_balance as int,
        }
    }
}

/// What an instance holds, as contracts see it.
pub open spec fn view_of(instance: Option<LiquidityPool>) -> Option<PoolState> {
    match instance {
        Some(pool) => Some(pool@),
        None => None,
    }
}

/// A liquidity pool of two assets.
pub struct LiquidityPool {
    info: PoolInfo,
    name: String,
    symbol: String,
    ledger: Ledger,
    fee_tracker: FeeTracker,
    fee_marks: Book<Identity>,
    volume_tracker: VolumeTracker,
    native_balance: i128,
}

impl View for LiquidityPool {
    type V = PoolState;

    closed spec fn view(&self) -> PoolState {
        PoolState {
            token_a: self.info.token_a@,
            token_b: self.info.token_b@,
            reserve_a: self.info.reserve_a as int,
            reserve_b: self.info.reserve_b as int,
            is_xlm_pool: self.info.is_xlm_pool,
            xlm_token_index: self.info.xlm_token_index,
            name: self.name@,
            symbol: self.symbol@,
            ledger: self.ledger@,
            fees: self.fee_tracker,
            fee_marks: self.fee_marks@,
            volume: self.volume_tracker,
            native_balance: self.native_balance as int,
        }
    }
}

impl LiquidityPool {
    /// Whether the pool is valid: its state is, see [`PoolState::wf`].
    pub open spec fn wf(&self) -> bool {
        self@.wf()
    }

    /// A pool of `token_a` and `token_b` with empty reserves and no shares,
    /// whose LP share has the given name and symbol.  The two assets have
    /// to differ.
    pub fn new(
        token_a: Identity,
        token_b: Identity,
        lp_token_name: String,
        lp_token_symbol: String,
    ) -> (result: Result<LiquidityPool, PoolError>)
        ensures
            match result {
                Ok(pool) => token_a@ != token_b@ && pool.wf() && pool@ == initial_state(
                    token_a@,
                    token_b@,
                    lp_token_name@,
                    lp_token_symbol@,
                ),
                Err(error) => token_a@ == token_b@ && error == PoolError::InvalidToken,
            },
    {
        if token_a.same(&token_b) {
            return Err(PoolError::InvalidToken);
        }
        let a_is_native = is_native_xlm(&token_a);
        let b_is_native = is_native_xlm(&token_b);
        let xlm_token_index: Option<i32> = if a_is_native {
            Some(0)
        } else if b_is_native {
            Some(1)
        } else {
            None
        };
        let info = PoolInfo {
            token_a,
            token_b,
            reserve_a: 0,
            reserve_b: 0,
            is_xlm_pool: a_is_native || b_is_native,
            xlm_token_index,
        };
        Ok(
            LiquidityPool {
                info,
                name: lp_token_name,
                symbol: lp_token_symbol,
                ledger: Ledger::new(),
                fee_tracker: FeeTracker::new(),
                fee_marks: Book::new(),
                volume_tracker: VolumeTracker::new(),
                native_balance: 0,
            },
        )
    }

    /// Sets up, in an instance that holds no pool yet, a pool of `token_a`
    /// and `token_b` as [`LiquidityPool::new`] makes it.  An instance is set
    /// up once: one that holds a pool stays as it is.
    pub fn initialize(
        instance: &mut Option<LiquidityPool>,
        token_a: Identity,
        token_b: Identity,
        lp_token_name: String,
        lp_token_symbol: String,
    ) -> (result: Result<(), PoolError>)
        requires
            *old(instance) matches Some(pool) ==> pool.wf(),
        ensures
            *final(instance) matches Some(pool) ==> pool.wf(),
            match initialize_outcome(
                view_of(*old(instance)),
                token_a@,
                token_b@,
                lp_token_name@,
                lp_token_symbol@,
            ) {
                Ok(state) => result is Ok && view_of(*final(instance)) == Some(state),
                Err(error) => result == Err::<(), PoolError>(error) && *final(instance) == *old(
                    instance,
                ),
            },
    {
        if instance.is_some() {
            return Err(PoolError::AlreadyInitialized);
        }
        match LiquidityPool::new(token_a, token_b, lp_token_name, lp_token_symbol) {
            Ok(pool) => {
                *instance = Some(pool);
                Ok(())
            },
            Err(error) => Err(error),
        }
    }

    /// The pool that `instance` holds; `NotInitialized` where it holds
    /// none.
    pub fn initialized(instance: Option<LiquidityPool>) -> (result: Result<
        LiquidityPool,
        PoolError,
    >)
        ensures
            match instance {
                Some(pool) => result == Ok::<LiquidityPool, PoolError>(pool),
                None => result matches Err(error) && error == PoolError::NotInitialized,
            },
    {
        match instance {
            Some(pool) => Ok(pool),
            None => Err(PoolError::NotInitialized),
        }
    }

    /// Everything that the pool holds, as plain values.
    pub fn snapshot(&self) -> (snapshot: Snapshot)
        ensures
            snapshot@ == self@,
    {
        let info = PoolInfo {
            token_a: self.info.token_a.clone(),
            token_b: self.info.token_b.clone(),
            reserve_a: self.info.reserve_a,
            reserve_b: self.info.reserve_b,
            is_xlm_pool: self.info.is_xlm_pool,
            xlm_token_index: self.info.xlm_token_index,
        };
        Snapshot {
            info,
            lp_token_name: self.name.clone(),
            lp_token_symbol: self.symbol.clone(),
            balances: self.ledger.holdings(),
            allowances: self.ledger.grants(),
            total_supply: self.ledger.total_supply(),
            fee_tracker: self.fee_tracker,
            fee_marks: holdings_of_book(&self.fee_marks),
            volume_tracker: self.volume_tracker,
            native_balance: self.native_balance,
        }
    }

    /// The pool that holds what `snapshot` says, where that is a valid pool.
    pub fn restore(snapshot: Snapshot) -> (pool: Option<LiquidityPool>)
        ensures
            match pool {
                Some(pool) => pool.wf() && pool@ == snapshot@,
                None => !snapshot@.wf(),
            },
    {
        let info = snapshot.info;
        if info.token_a.same(&info.token_b) || info.reserve_a < 0 || info.reserve_b < 0 {
            return None;
        }
        let a_is_native = is_native_xlm(&info.token_a);
        let b_is_native = is_native_xlm(&info.token_b);
        let expected_index: Option<i32> = if a_is_native {
            Some(0)
        } else if b_is_native {
            Some(1)
        } else {
            None
        };
        let index_agrees = match (info.xlm_token_index, expected_index) {
            (Some(found), Some(expected)) => found == expected,
            (None, None) => true,
            _ => false,
        };
        if !index_agrees || info.is_xlm_pool != info.xlm_token_index.is_some() {
            return None;
        }
        let ledger = match Ledger::restore(
            &snapshot.balances,
            &snapshot.allowances,
            snapshot.total_supply,
        ) {
            Some(ledger) => ledger,
            None => {
                return None;
            },
        };
        let fee_tracker = snapshot.fee_tracker;
        if fee_tracker.total_fees_earned < 0 || fee_tracker.fees_per_lp_token < 0 {
            return None;
        }
        let fee_marks = match book_of_holdings(&snapshot.fee_marks) {
            Some(book) => book,
            None => {
                return None;
            },
        };
        if !fee_marks.all_within(0, fee_tracker.fees_per_lp_token) {
            return None;
        }
        let volume_tracker = snapshot.volume_tracker;
        if volume_tracker.total_volume_all_time < 0 || volume_tracker.total_volume_24h
            != volume_tracker.total_volume_all_time || volume_tracker.total_volume_7d
            != volume_tracker.total_volume_all_time {
            return None;
        }
        if snapshot.native_balance < 0 {
            return None;
        }
        Some(
            LiquidityPool {
                info,
                name: snapshot.lp_token_name,
                symbol: snapshot.lp_token_symbol,
                ledger,
                fee_tracker,
                fee_marks,
                volume_tracker,
                native_balance: snapshot.native_balance,
            },
        )
    }

    /// Refuses a negative amount.
    pub fn check_nonnegative_amount(amount: i128) -> (result: Result<(), PoolError>)
        ensures
            amount >= 0 ==> result is Ok,
            amount < 0 ==> result == Err::<(), PoolError>(PoolError::NegativeAmount),
    {
        if amount < 0 {
            Err(PoolError::NegativeAmount)
        } else {
            Ok(())
        }
    }

    /// The number of shares that a deposit of `amount_a` and `amount_b`
    /// mints, see [`shares_for`]; `Overflow` where the product of two
    /// amounts, neither of them zero, does not fit.
    pub fn calculate_liquidity(amount_a: i128, amount_b: i128) -> (result: Result<
        i128,
        ArithmeticError,
    >)
        ensures
            amount_a == 0 || amount_b == 0 || fits_i128(amount_a * amount_b) ==> result == Ok::<
                i128,
                ArithmeticError,
            >(shares_for(amount_a as int, amount_b as int) as i128) && fits_i128(
                shares_for(amount_a as int, amount_b as int),
            ),
            amount_a != 0 && amount_b != 0 && !fits_i128(amount_a * amount_b) ==> result == Err::<
                i128,
                ArithmeticError,
            >(ArithmeticError::Overflow),
    {
        if amount_a == 0 || amount_b == 0 {
            return Ok(0);
        }
        let product = match checked_mul(amount_a, amount_b) {
            Ok(v) => v,
            Err(e) => {
                return Err(e);
            },
        };
        let liquidity = sqrt(product);
        if liquidity < MINIMUM_LIQUIDITY {
            return Ok(MINIMUM_LIQUIDITY);
        }
        Ok(liquidity)
    }

    /// Adds `amount_a` of the first and `amount_b` of the second asset to
    /// the reserves for `caller`, and mints LP shares for them.  Gives the
    /// number of shares minted and the transfers that bring the amounts in.
    ///
    /// `authorized` says whether `caller` has authorized the operation.
    pub fn add_liquidity(
        &mut self,
        caller: &Identity,
        authorized: bool,
        amount_a: i128,
        amount_b: i128,
    ) -> (result: Result<(i128, Vec<Transfer>), PoolError>)
        requires
            old(self).wf(),
        ensures
            final(self).wf(),
            match add_liquidity_outcome(
                old(self)@,
                caller@,
                authorized,
                amount_a as int,
                amount_b as int,
            ) {
                Ok(deposit) => result matches Ok(done) && done.0 == deposit.shares && done.1@
                    == deposit.transfers && final(self)@ == deposit.state,
                Err(error) => result matches Err(e) && e == error && final(self)@ == old(self)@,
            },
    {
        if !authorized {
            return Err(PoolError::Unauthorized);
        }
        if amount_a < 0 || amount_b < 0 {
            return Err(PoolError::NegativeAmount);
        }
        let reserve_a = self.info.reserve_a;
        let reserve_b = self.info.reserve_b;
        if reserve_a > 0 || reserve_b > 0 {
            let left = lift(checked_mul(amount_a, reserve_b))?;
            let right = lift(checked_mul(amount_b, reserve_a))?;
            assert(left >= 0 && right >= 0) by (nonlinear_arith)
                requires
                    left == amount_a * reserve_b,
                    right == amount_b * reserve_a,
                    amount_a >= 0,
                    amount_b >= 0,
                    reserve_a >= 0,
                    reserve_b >= 0,
            ;
            let difference = if left > right {
                left - right
            } else {
                right - left
            };
            if !(difference <= 1 || difference <= left / 100_000) {
                return Err(PoolError::NotProportional);
            }
        }
        let native_in = self.native_part(amount_a, amount_b);
        let native_balance = lift(checked_add(self.native_balance, native_in))?;
        let shares = lift(Self::calculate_liquidity(amount_a, amount_b))?;
        if shares <= 0 {
            return Err(PoolError::InsufficientLiquidityMinted);
        }
        let _ = lift(checked_add(self.ledger.total_supply(), shares))?;
        let new_reserve_a = lift(checked_add(reserve_a, amount_a))?;
        let new_reserve_b = lift(checked_add(reserve_b, amount_b))?;
        proof {
            lemma_add_liquidity_keeps_wf(
                self@,
                caller@,
                authorized,
                amount_a as int,
                amount_b as int,
            );
        }
        let minted = self.ledger.mint(caller, shares);
        assert(minted is Ok);
        self.info.reserve_a = new_reserve_a;
        self.info.reserve_b = new_reserve_b;
        self.native_balance = native_balance;
        let mut transfers: Vec<Transfer> = Vec::new();
        if !self.side_is_native(Side::A) {
            transfers.push(
                Transfer { side: Side::A, direction: Direction::FromCaller, amount: amount_a },
            );
        }
        if !self.side_is_native(Side::B) {
            transfers.push(
                Transfer { side: Side::B, direction: Direction::FromCaller, amount: amount_b },
            );
        }
        assert(transfers@ =~= deposit_transfers(
            old(self)@.native_side(),
            amount_a as int,
            amount_b as int,
        ));
        Ok((shares, transfers))
    }

    /// Redeems `shares` of `caller`: burns them and pays out their share of
    /// both reserves, rounded down.  Gives the two amounts and the transfers
    /// that pay them out.
    ///
    /// `authorized` says whether `caller` has authorized the operation.
    pub fn remove_liquidity(
        &mut self,
        caller: &Identity,
        authorized: bool,
        shares: i128,
    ) -> (result: Result<((i128, i128), Vec<Transfer>), PoolError>)
        requires
            old(self).wf(),
        ensures
            final(self).wf(),
            match remove_liquidity_outcome(old(self)@, caller@, authorized, shares as int) {
                Ok(withdrawal) => result matches Ok(done) && done.0.0 == withdrawal.amount_a
                    && done.0.1 == withdrawal.amount_b && done.1@ == withdrawal.transfers
                    && final(self)@ == withdrawal.state,
                Err(error) => result matches Err(e) && e == error && final(self)@ == old(self)@,
            },
            result matches Ok(done) ==> 0 <= done.0.0 <= old(self)@.reserve_a && 0 <= done.0.1
                <= old(self)@.reserve_b,
    {
        if !authorized {
            return Err(PoolError::Unauthorized);
        }
        if shares < 0 {
            return Err(PoolError::NegativeAmount);
        }
        let total_supply = self.ledger.total_supply();
        if total_supply <= 0 {
            return Err(PoolError::NoLiquidity);
        }
        if shares == 0 {
            return Err(PoolError::ZeroShares);
        }
        if shares > self.ledger.balance(caller) {
            return Err(PoolError::InsufficientLpTokens);
        }
        let reserve_a = self.info.reserve_a;
        let reserve_b = self.info.reserve_b;
        if reserve_a <= 0 && reserve_b <= 0 {
            return Err(PoolError::NoReserves);
        }
        proof {
            lemma_pro_rata_bounds(shares as int, reserve_a as int, total_supply as int);
            lemma_pro_rata_bounds(shares as int, reserve_b as int, total_supply as int);
            assert(shares * 0 == 0);
        }
        let amount_a = if reserve_a > 0 {
            lift(checked_mul(shares, reserve_a))? / total_supply
        } else {
            0
        };
        let amount_b = if reserve_b > 0 {
            lift(checked_mul(shares, reserve_b))? / total_supply
        } else {
            0
        };
        let native_out = self.native_part(amount_a, amount_b);
        if native_out > self.native_balance {
            return Err(PoolError::InsufficientNativeBalance);
        }
        let burned = self.ledger.burn(caller, shares);
        assert(burned is Ok);
        self.info.reserve_a = reserve_a - amount_a;
        self.info.reserve_b = reserve_b - amount_b;
        self.native_balance = self.native_balance - native_out;
        let transfers = self.payouts(amount_a, amount_b);
        Ok(((amount_a, amount_b), transfers))
    }

    /// Swaps `amount_in` of `input_token`, one of the two assets, for the
    /// other asset at the constant-product price, after a fee of
    /// [`FEE_BPS`] basis points that stays in the pool.  Gives the amount
    /// paid out, which is never more than the reserve it comes from, and the
    /// transfers that carry the swap out.
    ///
    /// `authorized` says whether `caller` has authorized the operation;
    /// `ledger` is the ledger at which the swap happens.
    pub fn swap(
        &mut self,
        caller: &Identity,
        authorized: bool,
        input_token: &Identity,
        amount_in: i128,
        ledger: u32,
    ) -> (result: Result<(i128, Vec<Transfer>), PoolError>)
        requires
            old(self).wf(),
        ensures
            final(self).wf(),
            match swap_outcome(old(self)@, authorized, input_token@, amount_in as int, ledger) {
                Ok(swap) => result matches Ok(done) && done.0 == swap.amount_out && done.1@
                    == swap.transfers && final(self)@ == swap.state,
                Err(error) => result matches Err(e) && e == error && final(self)@ == old(self)@,
            },
            result is Ok ==> final(self)@.reserve_a * final(self)@.reserve_b >= old(
                self,
            )@.reserve_a * old(self)@.reserve_b,
            final(self)@.fees.fees_per_lp_token >= old(self)@.fees.fees_per_lp_token,
    {
        if !authorized {
            return Err(PoolError::Unauthorized);
        }
        if amount_in < 0 {
            return Err(PoolError::NegativeAmount);
        }
        if amount_in == 0 {
            return Err(PoolError::ZeroAmountIn);
        }
        let is_token_a_in = input_token.same(&self.info.token_a);
        if !is_token_a_in && !input_token.same(&self.info.token_b) {
            return Err(PoolError::InvalidToken);
        }
        let (side_in, side_out, reserve_in, reserve_out) = if is_token_a_in {
            (Side::A, Side::B, self.info.reserve_a, self.info.reserve_b)
        } else {
            (Side::B, Side::A, self.info.reserve_b, self.info.reserve_a)
        };
        let native_in = self.side_is_native(side_in);
        let native_out = self.side_is_native(side_out);
        let mut native_balance = self.native_balance;
        if native_in {
            native_balance = lift(checked_add(native_balance, amount_in))?;
        }
        let amount_in_with_fee = lift(checked_mul(amount_in, BPS_DENOMINATOR - FEE_BPS))?
            / BPS_DENOMINATOR;
        let numerator = lift(checked_mul(reserve_out, amount_in_with_fee))?;
        let denominator = lift(checked_add(reserve_in, amount_in_with_fee))?;
        proof {
            assert(numerator >= 0) by (nonlinear_arith)
                requires
                    numerator == reserve_out * amount_in_with_fee,
                    reserve_out >= 0,
                    amount_in_with_fee >= 0,
            ;
        }
        let amount_out = lift(checked_div(numerator, denominator))?;
        if amount_out <= 0 {
            return Err(PoolError::InsufficientOutput);
        }
        let fee_amount = amount_in - amount_in_with_fee;
        let mut fee_tracker = self.fee_tracker;
        lift(fee_tracker.update_fees(fee_amount, self.ledger.total_supply(), ledger))?;
        let mut volume_tracker = self.volume_tracker;
        lift(volume_tracker.update_volume(amount_in, ledger))?;
        if native_out {
            if native_balance < amount_out {
                return Err(PoolError::InsufficientNativeBalance);
            }
            native_balance = native_balance - amount_out;
        }
        let new_reserve_in = lift(checked_add(reserve_in, amount_in))?;
        proof {
            lemma_swap_keeps_wf(self@, authorized, input_token@, amount_in as int, ledger);
        }
        let new_reserve_out = reserve_out - amount_out;
        if is_token_a_in {
            self.info.reserve_a = new_reserve_in;
            self.info.reserve_b = new_reserve_out;
        } else {
            self.info.reserve_b = new_reserve_in;
            self.info.reserve_a = new_reserve_out;
        }
        self.fee_tracker = fee_tracker;
        self.volume_tracker = volume_tracker;
        self.native_balance = native_balance;
        let mut transfers: Vec<Transfer> = Vec::new();
        if !native_in {
            transfers.push(
                Transfer { side: side_in, direction: Direction::FromCaller, amount: amount_in },
            );
        }
        if !native_out {
            transfers.push(
                Transfer { side: side_out, direction: Direction::ToCaller, amount: amount_out },
            );
        }
        assert(transfers@ =~= swap_transfers(
            old(self)@.native_side(),
            side_in,
            amount_in as int,
            amount_out as int,
        ));
        Ok((amount_out, transfers))
    }

    /// The fees that `user` has earned and not claimed.
    pub fn get_user_unclaimed_fees(&self, user: &Identity) -> (result: Result<i128, PoolError>)
        requires
            self.wf(),
        ensures
            match self@.unclaimed(user@) {
                Ok(fees) => result == Ok::<i128, PoolError>(fees as i128) && 0 <= fees
                    <= i128::MAX,
                Err(error) => result == Err::<i128, PoolError>(PoolError::Arithmetic(error)),
            },
    {
        let balance = self.ledger.balance(user);
        let last_observed = self.fee_marks.get(user);
        lift(calculate_unclaimed_fees(balance, self.fee_tracker.fees_per_lp_token, last_observed))
    }

    /// Pays `caller` its share of both reserves for the fees it has not
    /// claimed, and starts its unclaimed fees again from zero.  Gives what
    /// was paid, both assets added up, and the transfers that pay it out.
    /// A caller without unclaimed fees gets zero, and nothing changes.
    ///
    /// `authorized` says whether `caller` has authorized the operation.
    pub fn claim_fees(&mut self, caller: &Identity, authorized: bool) -> (result: Result<
        (i128, Vec<Transfer>),
        PoolError,
    >)
        requires
            old(self).wf(),
        ensures
            final(self).wf(),
            match claim_fees_outcome(old(self)@, caller@, authorized) {
                Ok(claim) => result matches Ok(done) && done.0 == claim.amount && done.1@
                    == claim.transfers && final(self)@ == claim.state,
                Err(error) => result matches Err(e) && e == error && final(self)@ == old(self)@,
            },
    {
        if !authorized {
            return Err(PoolError::Unauthorized);
        }
        let unclaimed = self.get_user_unclaimed_fees(caller)?;
        if unclaimed <= 0 {
            return Ok((0, Vec::new()));
        }
        let total_supply = self.ledger.total_supply();
        let balance = self.ledger.balance(caller);
        let share = lift(checked_mul(balance, BPS_DENOMINATOR))? / total_supply;
        let fee_a = lift(checked_mul(self.info.reserve_a, share))? / BPS_DENOMINATOR;
        let fee_b = lift(checked_mul(self.info.reserve_b, share))? / BPS_DENOMINATOR;
        let native_out = self.native_part(fee_a, fee_b);
        if native_out > self.native_balance {
            return Err(PoolError::InsufficientNativeBalance);
        }
        let amount = lift(checked_add(fee_a, fee_b))?;
        self.fee_marks.set(caller.clone(), self.fee_tracker.fees_per_lp_token);
        self.native_balance = self.native_balance - native_out;
        let transfers = self.payouts(fee_a, fee_b);
        Ok((amount, transfers))
    }

    /// The position of `user`: its LP balance, and what that balance is
    /// worth of the first and of the second reserve, rounded down.  All
    /// three are zero for a user without shares.
    pub fn get_user_liquidity_position(&self, user: &Identity) -> (result: Result<
        (i128, i128, i128),
        PoolError,
    >)
        requires
            self.wf(),
        ensures
            match liquidity_position(self@, user@) {
                Ok(position) => result == Ok::<(i128, i128, i128), PoolError>(
                    (position.0 as i128, position.1 as i128, position.2 as i128),
                ) && fits_i128(position.0) && fits_i128(position.1) && fits_i128(position.2),
                Err(error) => result == Err::<(i128, i128, i128), PoolError>(error),
            },
    {
        let balance = self.ledger.balance(user);
        let total_supply = self.ledger.total_supply();
        if total_supply == 0 || balance == 0 {
            return Ok((0, 0, 0));
        }
        let _ = lift(checked_mul(balance, BPS_DENOMINATOR))?;
        let scaled_a = lift(checked_mul(self.info.reserve_a, balance))?;
        let scaled_b = lift(checked_mul(self.info.reserve_b, balance))?;
        proof {
            assert(scaled_a >= 0 && scaled_b >= 0) by (nonlinear_arith)
                requires
                    scaled_a == self.info.reserve_a * balance,
                    scaled_b == self.info.reserve_b * balance,
                    self.info.reserve_a >= 0,
                    self.info.reserve_b >= 0,
                    balance >= 0,
            ;
        }
        Ok((balance, scaled_a / total_supply, scaled_b / total_supply))
    }

    /// The value locked in the pool: the sum of both reserves.
    pub fn get_pool_tvl(&self) -> (result: Result<i128, PoolError>)
        ensures
            fits_i128(self@.reserve_a + self@.reserve_b) ==> result == Ok::<i128, PoolError>(
                (self@.reserve_a + self@.reserve_b) as i128,
            ),
            !fits_i128(self@.reserve_a + self@.reserve_b) ==> result == Err::<i128, PoolError>(
                PoolError::Arithmetic(ArithmeticError::Overflow),
            ),
    {
        lift(checked_add(self.info.reserve_a, self.info.reserve_b))
    }

    /// Grants `spender` an allowance of `amount` on the LP shares of `from`,
    /// in place of any earlier one.  The allowance does not expire:
    /// `expiration_ledger` is not looked at.
    ///
    /// `authorized` says whether `from` has authorized the operation.
    pub fn approve(
        &mut self,
        from: &Identity,
        authorized: bool,
        spender: &Identity,
        amount: i128,
        expiration_ledger: u32,
    ) -> (result: Result<(), PoolError>)
        requires
            old(self).wf(),
        ensures
            final(self).wf(),
            ledger_step(
                result,
                old(self)@,
                final(self)@,
                authorized,
                approve_outcome(old(self)@.ledger, from@, spender@, amount as int),
            ),
    {
        if !authorized {
            return Err(PoolError::Unauthorized);
        }
        self.ledger.approve(from, spender, amount)
    }

    /// Moves `amount` LP shares from `from` to `to`.
    ///
    /// `authorized` says whether `from` has authorized the operation.
    pub fn transfer(
        &mut self,
        from: &Identity,
        authorized: bool,
        to: &Identity,
        amount: i128,
    ) -> (result: Result<(), PoolError>)
        requires
            old(self).wf(),
        ensures
            final(self).wf(),
            ledger_step(
                result,
                old(self)@,
                final(self)@,
                authorized,
                transfer_outcome(old(self)@.ledger, from@, to@, amount as int),
            ),
    {
        if !authorized {
            return Err(PoolError::Unauthorized);
        }
        self.ledger.transfer(from, to, amount)
    }

    /// Moves `amount` LP shares from `from` to `to` on the allowance of
    /// `spender`, which shrinks by `amount`.
    ///
    /// `authorized` says whether `spender` has authorized the operation.
    pub fn transfer_from(
        &mut self,
        spender: &Identity,
        authorized: bool,
        from: &Identity,
        to: &Identity,
        amount: i128,
    ) -> (result: Result<(), PoolError>)
        requires
            old(self).wf(),
        ensures
            final(self).wf(),
            ledger_step(
                result,
                old(self)@,
                final(self)@,
                authorized,
                transfer_from_outcome(old(self)@.ledger, spender@, from@, to@, amount as int),
            ),
    {
        if !authorized {
            return Err(PoolError::Unauthorized);
        }
        self.ledger.transfer_from(spender, from, to, amount)
    }

    /// Destroys `amount` LP shares of `from`.  The reserves stay as they
    /// are.
    ///
    /// `authorized` says whether `from` has authorized the operation.
    pub fn burn(&mut self, from: &Identity, authorized: bool, amount: i128) -> (result: Result<
        (),
        PoolError,
    >)
        requires
            old(self).wf(),
        ensures
            final(self).wf(),
            ledger_step(
                result,
                old(self)@,
                final(self)@,
                authorized,
                burn_outcome(old(self)@.ledger, from@, amount as int),
            ),
    {
        if !authorized {
            return Err(PoolError::Unauthorized);
        }
        self.ledger.burn(from, amount)
    }

    /// Destroys `amount` LP shares of `from` on the allowance of `spender`,
    /// which shrinks by `amount`.  The reserves stay as they are.
    ///
    /// `authorized` says whether `spender` has authorized the operation.
    pub fn burn_from(
        &mut self,
        spender: &Identity,
        authorized: bool,
        from: &Identity,
        amount: i128,
    ) -> (result: Result<(), PoolError>)
        requires
            old(self).wf(),
        ensures
            final(self).wf(),
            ledger_step(
                result,
                old(self)@,
                final(self)@,
                authorized,
                burn_from_outcome(old(self)@.ledger, spender@, from@, amount as int),
            ),
    {
        if !authorized {
            return Err(PoolError::Unauthorized);
        }
        self.ledger.burn_from(spender, from, amount)
    }

    /// Whether `side` is the native asset.
    fn side_is_native(&self, side: Side) -> (native: bool)
        requires
            self.wf(),
        ensures
            native == (self@.native_side() == Some(side)),
    {
        match (self.info.xlm_token_index, side) {
            (Some(index), Side::A) => index == 0,
            (Some(index), Side::B) => index != 0,
            (None, _) => false,
        }
    }

    /// Of the two amounts, the one on the native side; zero where neither
    /// side is native.
    fn native_part(&self, amount_a: i128, amount_b: i128) -> (amount: i128)
        requires
            self.wf(),
        ensures
            amount == self@.native_part(amount_a as int, amount_b as int),
    {
        match self.info.xlm_token_index {
            Some(index) => if index == 0 {
                amount_a
            } else {
                amount_b
            },
            None => 0,
        }
    }

    /// The transfers that pay `amount_a` and `amount_b` out of the pool.
    fn payouts(&self, amount_a: i128, amount_b: i128) -> (transfers: Vec<Transfer>)
        requires
            self.wf(),
        ensures
            transfers@ == payout_transfers(self@.native_side(), amount_a as int, amount_b as int),
    {
        let mut transfers: Vec<Transfer> = Vec::new();
        if !self.side_is_native(Side::A) && amount_a > 0 {
            transfers.push(
                Transfer { side: Side::A, direction: Direction::ToCaller, amount: amount_a },
            );
        }
        if !self.side_is_native(Side::B) && amount_b > 0 {
            transfers.push(
                Transfer { side: Side::B, direction: Direction::ToCaller, amount: amount_b },
            );
        }
        assert(transfers@ =~= payout_transfers(
            self@.native_side(),
            amount_a as int,
            amount_b as int,
        ));
        transfers
    }

    /// The first asset of the pool.
    pub fn get_token_a(&self) -> (token: Identity)
        ensures
            token@ == self@.token_a,
    {
        self.info.token_a.clone()
    }

    /// The second asset of the pool.
    pub fn get_token_b(&self) -> (token: Identity)
        ensures
            token@ == self@.token_b,
    {
        self.info.token_b.clone()
    }

    /// The reserves of the first and of the second asset.
    pub fn get_reserves(&self) -> (reserves: (i128, i128))
        ensures
            reserves.0 == self@.reserve_a,
            reserves.1 == self@.reserve_b,
    {
        (self.info.reserve_a, self.info.reserve_b)
    }

    /// Whether one of the two assets is the native asset.
    pub fn is_xlm_pool(&self) -> (native: bool)
        ensures
            native == self@.is_xlm_pool,
    {
        self.info.is_xlm_pool
    }

    /// Which asset is the native one: 0 for the first, 1 for the second.
    pub fn get_xlm_token_index(&self) -> (index: Option<i32>)
        ensures
            index == self@.xlm_token_index,
    {
        self.info.xlm_token_index
    }

    /// What the pool holds of the native asset by its own books.
    pub fn get_xlm_balance(&self) -> (balance: i128)
        ensures
            balance == self@.native_balance,
    {
        self.native_balance
    }

    /// The number of LP shares in existence.
    pub fn supply(&self) -> (supply: i128)
        ensures
            supply == self@.ledger.total_supply,
    {
        self.ledger.total_supply()
    }

    /// All fees that the pool has ever earned.
    pub fn get_total_fees_earned(&self) -> (fees: i128)
        ensures
            fees == self@.fees.total_fees_earned,
    {
        self.fee_tracker.total_fees_earned
    }

    /// The fees earned by one LP share, scaled by
    /// [`FEE_SCALE`](crate::fees::FEE_SCALE).
    pub fn get_fees_per_lp_token(&self) -> (fees: i128)
        ensures
            fees == self@.fees.fees_per_lp_token,
    {
        self.fee_tracker.fees_per_lp_token
    }

    /// The volume of the last day, which is kept equal to the all-time
    /// volume.
    pub fn get_total_volume_24h(&self) -> (volume: i128)
        ensures
            volume == self@.volume.total_volume_24h,
            self.wf() ==> volume == self@.volume.total_volume_all_time,
    {
        self.volume_tracker.total_volume_24h
    }

    /// The volume of the last week, which is kept equal to the all-time
    /// volume.
    pub fn get_total_volume_7d(&self) -> (volume: i128)
        ensures
            volume == self@.volume.total_volume_7d,
            self.wf() ==> volume == self@.volume.total_volume_all_time,
    {
        self.volume_tracker.total_volume_7d
    }

    /// All volume ever swapped into the pool.
    pub fn get_total_volume_all_time(&self) -> (volume: i128)
        ensures
            volume == self@.volume.total_volume_all_time,
    {
        self.volume_tracker.total_volume_all_time
    }

    /// The LP balance of `id`.
    pub fn balance_of(&self, id: &Identity) -> (balance: i128)
        requires
            self.wf(),
        ensures
            balance == self@.ledger.balance_of(id@),
    {
        self.ledger.balance(id)
    }

    /// The LP balance of `id`.
    pub fn balance(&self, id: &Identity) -> (balance: i128)
        requires
            self.wf(),
        ensures
            balance == self@.ledger.balance_of(id@),
    {
        self.ledger.balance(id)
    }

    /// What `spender` may still take from the LP shares of `from`.
    pub fn allowance(&self, from: &Identity, spender: &Identity) -> (allowance: i128)
        requires
            self.wf(),
        ensures
            allowance == self@.ledger.allowance_of(from@, spender@),
    {
        self.ledger.allowance(from, spender)
    }

    /// The number of decimals of an LP share.
    pub fn decimals(&self) -> (decimals: u32)
        ensures
            decimals == LP_DECIMALS,
    {
        LP_DECIMALS
    }

    /// The name of the LP share.
    pub fn name(&self) -> (name: String)
        ensures
            name@ == self@.name,
    {
        self.name.clone()
    }

    /// The symbol of the LP share.
    pub fn symbol(&self) -> (symbol: String)
        ensures
            symbol@ == self@.symbol,
    {
        self.symbol.clone()
    }
}

} // verus!
