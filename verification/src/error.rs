//! The reasons for which the pool refuses an operation.

use crate::arith::ArithmeticError;
use vstd::prelude::*;

verus! {

/// The family an error belongs to.
#[derive(Clone, Copy, Debug, PartialEq, Eq, Structural)]
pub enum ErrorKind {
    /// An argument is unacceptable by itself.
    Validation,
    /// A number has no representable or defined value.
    Arithmetic,
    /// The request does not agree with the state of the pool.
    Invariant,
    /// The caller has not authorized the operation.
    Authorization,
    /// The pool has not been set up.
    NotInitialized,
}

/// Why the pool refused an operation.  A refused operation changes nothing.
#[derive(Clone, Copy, Debug, PartialEq, Eq, Structural)]
pub enum PoolError {
    /// The caller has not authorized the operation.
    Unauthorized,
    /// An amount is negative.
    NegativeAmount,
    /// The amount offered to a swap is zero.
    ZeroAmountIn,
    /// The number of shares to redeem is zero.
    ZeroShares,
    /// The asset does not belong to the pool, or both assets of a pool are
    /// the same.
    InvalidToken,
    /// The two amounts are not in the ratio of the reserves.
    NotProportional,
    /// The deposit would mint no shares.
    InsufficientLiquidityMinted,
    /// No LP share exists.
    NoLiquidity,
    /// Both reserves are empty.
    NoReserves,
    /// The caller holds fewer LP shares than the operation needs.
    InsufficientLpTokens,
    /// The swap would pay out nothing.
    InsufficientOutput,
    /// The native balance in custody is smaller than the payout.
    InsufficientNativeBalance,
    /// The holder's LP balance is smaller than the amount.
    InsufficientBalance,
    /// The spender's allowance is smaller than the amount.
    InsufficientAllowance,
    /// A checked operation failed.
    Arithmetic(ArithmeticError),
    /// The pool has not been set up.
    NotInitialized,
    /// The pool has been set up before.
    AlreadyInitialized,
}

impl PoolError {
    /// The family of this error.
    pub open spec fn spec_kind(self) -> ErrorKind {
        match self {
            PoolError::Unauthorized => ErrorKind::Authorization,
            PoolError::NegativeAmount
            | PoolError::ZeroAmountIn
            | PoolError::ZeroShares
            | PoolError::InvalidToken => ErrorKind::Validation,
            PoolError::Arithmetic(_) => ErrorKind::Arithmetic,
            PoolError::NotInitialized => ErrorKind::NotInitialized,
            PoolError::AlreadyInitialized
            | PoolError::NotProportional
            | PoolError::InsufficientLiquidityMinted
            | PoolError::NoLiquidity
            | PoolError::NoReserves
            | PoolError::InsufficientLpTokens
            | PoolError::InsufficientOutput
            | PoolError::InsufficientNativeBalance
            | PoolError::InsufficientBalance
            | PoolError::InsufficientAllowance => ErrorKind::Invariant,
        }
    }

    /// The family of this error.
    #[verifier::when_used_as_spec(spec_kind)]
    pub fn kind(self) -> (kind: ErrorKind)
        ensures
            kind == self.spec_kind(),
    {
        match self {
            PoolError::Unauthorized => ErrorKind::Authorization,
            PoolError::NegativeAmount => ErrorKind::Validation,
            PoolError::ZeroAmountIn => ErrorKind::Validation,
            PoolError::ZeroShares => ErrorKind::Validation,
            PoolError::InvalidToken => ErrorKind::Validation,
            PoolError::Arithmetic(_) => ErrorKind::Arithmetic,
            PoolError::NotInitialized => ErrorKind::NotInitialized,
            _ => ErrorKind::Invariant,
        }
    }

    /// The text that describes this error.
    pub open spec fn spec_message(self) -> Seq<char> {
        match self {
            PoolError::Unauthorized => "Caller has not authorized the operation"@,
            PoolError::NegativeAmount => "negative amount is not allowed"@,
            PoolError::ZeroAmountIn => "Amount in must be > 0"@,
            PoolError::ZeroShares => "Liquidity must be > 0"@,
            PoolError::InvalidToken => "Invalid token address"@,
            PoolError::NotProportional => "Amounts must be proportional"@,
            PoolError::InsufficientLiquidityMinted => "Insufficient liquidity minted"@,
            PoolError::NoLiquidity => "No liquidity in pool"@,
            PoolError::NoReserves => "Pool has no reserves"@,
            PoolError::InsufficientLpTokens => "Insufficient LP tokens"@,
            PoolError::InsufficientOutput => "Insufficient output amount"@,
            PoolError::InsufficientNativeBalance => "Insufficient native XLM balance"@,
            PoolError::InsufficientBalance => "Insufficient balance"@,
            PoolError::InsufficientAllowance => "Insufficient allowance"@,
            PoolError::Arithmetic(ArithmeticError::Overflow) => "Arithmetic overflow"@,
            PoolError::Arithmetic(ArithmeticError::Underflow) => "Arithmetic underflow"@,
            PoolError::Arithmetic(ArithmeticError::DivByZero) => "Division by zero"@,
            PoolError::NotInitialized => "Pool is not initialized"@,
            PoolError::AlreadyInitialized => "Pool is already initialized"@,
        }
    }

    /// The text that describes this error.
    pub fn message(self) -> (text: &'static str)
        ensures
            text@ == self.spec_message(),
    {
        match self {
            PoolError::Unauthorized => "Caller has not authorized the operation",
            PoolError::NegativeAmount => "negative amount is not allowed",
            PoolError::ZeroAmountIn => "Amount in must be > 0",
            PoolError::ZeroShares => "Liquidity must be > 0",
            PoolError::InvalidToken => "Invalid token address",
            PoolError::NotProportional => "Amounts must be proportional",
            PoolError::InsufficientLiquidityMinted => "Insufficient liquidity minted",
            PoolError::NoLiquidity => "No liquidity in pool",
            PoolError::NoReserves => "Pool has no reserves",
            PoolError::InsufficientLpTokens => "Insufficient LP tokens",
            PoolError::InsufficientOutput => "Insufficient output amount",
            PoolError::InsufficientNativeBalance => "Insufficient native XLM balance",
            PoolError::InsufficientBalance => "Insufficient balance",
            PoolError::InsufficientAllowance => "Insufficient allowance",
            PoolError::Arithmetic(ArithmeticError::Overflow) => "Arithmetic overflow",
            PoolError::Arithmetic(ArithmeticError::Underflow) => "Arithmetic underflow",
            PoolError::Arithmetic(ArithmeticError::DivByZero) => "Division by zero",
            PoolError::NotInitialized => "Pool is not initialized",
            PoolError::AlreadyInitialized => "Pool is already initialized",
        }
    }
}

} // verus!
