//! A constant-product automated market maker, verified.
//!
//! The crate keeps a ledger of per-account token balances for a two-asset
//! exchange. One distinguished account, the contract's own address, holds the
//! pool: its two balances are the swap reserves and its liquidity balance is
//! the total supply of minted liquidity shares. All pricing follows the
//! constant-product rule `x * y = k`, with a per-mille fee on swap inputs.
//!
//! Every operation either applies completely or returns an error and leaves
//! the ledger untouched, and the arithmetic rejects any intermediate value
//! that would not fit in 128 bits instead of wrapping.

use vstd::prelude::*;

pub mod address;
pub mod engine;
pub mod fraction;
pub mod ledger;
pub mod math;
pub mod state;
pub mod token;

pub use math::u128_sqrt;

verus! {

/// Why an operation was rejected. A rejected operation never changes the ledger.
#[derive(Clone, Copy, Debug, PartialEq, Eq, Structural)]
pub enum AmmError {
    /// At initialization, a plain account address was offered as a token contract.
    AccountAddressAsToken,
    /// At initialization, the two token addresses were equal.
    DuplicateTokenAddresses,
    /// At initialization, the swap fee exceeded 1000 per mille.
    InvalidSwapFee,
    /// The given token address matches neither of the pool's two tokens.
    UnknownTokenAddress,
    /// The operation needs an initialized pool, but a reserve or the minted
    /// liquidity supply is still zero.
    EmptyPools,
    /// Initial liquidity was offered to a pool that already holds reserves.
    PoolsNotEmpty,
    /// The provided amount is too small: it would mint zero liquidity shares.
    ZeroLiquidityMinted,
    /// An account was asked for more than it holds.
    InsufficientFunds,
    /// An intermediate value would not fit in 128 bits.
    Overflow,
    /// The external token transfer behind a deposit was reported failed.
    TransferFailed,
}

} // verus!
