//! Admission checking for an automated-market-maker pool over an immutable
//! record ledger.
//!
//! A transition consumes a list of records and produces another; this crate
//! decides whether the transition is a legal pool bootstrap, liquidity mint,
//! liquidity burn, swap, or a batch of such operations, and otherwise rejects
//! it with a specific reason.  Verification never mutates a record: it only
//! computes whether the proposed output set is a valid function of the inputs.

use vstd::prelude::*;

pub mod codec;
pub mod entry;
pub mod error;
pub mod kernel;
pub mod liquidity;
pub mod pool;
pub mod record;
pub mod swap;

verus! {

/// Native-token balance every order or result record keeps aside as its own
/// storage cost; only the excess above it is treated as offered or paid funds.
pub const SUDT_CAPACITY: u64 = 14_200_000_000;

/// Exact native-token balance the pool snapshot record must carry.
pub const INFO_CAPACITY: u64 = 25_000_000_000;

/// Base native-token balance of the reserve record; its balance above this
/// value must equal the snapshot's native reserve.
pub const POOL_CAPACITY: u128 = 18_600_000_000;

/// Numerator of the swap fee: a swap keeps `FEE_RATE / THOUSAND` of the
/// constant-product price, so the pool retains a 0.3% fee.
pub const FEE_RATE: u128 = 997;

/// Denominator of the swap fee.
pub const THOUSAND: u128 = 1_000;

/// The only protocol version accepted on order records.
pub const INFO_VERSION: u8 = 1;

/// Byte width of a balance payload.
pub const SUDT_CELL_DATA_LEN: usize = 16;

} // verus!
