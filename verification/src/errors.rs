use vstd::prelude::*;

verus! {

/// Every way an engine operation can fail. Errors are terminal for the
/// current operation: the engine never retries, and an operation that fails
/// leaves no partial effect behind.
#[derive(Clone, Copy, Debug, PartialEq, Eq, Structural)]
pub enum Error {
    /// An account does not hold the required amount of an asset.
    InsufficientBalance { account: u64, asset: u32 },
    /// A price or a share amount was computed from a zero reserve or deposit.
    CannotBeZero,
    /// A fixed-point division was attempted with a zero divisor.
    DivisionByZero,
    /// A checked fixed-point operation would exceed the representable range.
    ArithmeticOverflow,
    /// A checked fixed-point subtraction would fall below zero.
    ArithmeticUnderflow,
    /// No liquidity pool exists for the requested asset pair.
    PoolNotFound,
    /// No share lot matches the requested account, pair, token and id.
    PositionNotFound,
    /// The position list for an account and pair already holds 100 lots.
    CapacityExceeded,
    /// The lot-id counter for a position list is exhausted.
    SequenceOverflow,
    /// The asset ledger rejected creating or minting a share token.
    MintFailed,
    /// The asset ledger rejected a balance transfer.
    TransferFailed,
}

} // verus!
