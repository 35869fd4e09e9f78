//! Record codec: fixed-width little-endian payloads and argument blocks.
//!
//! Every decoder has an exact-length contract: a buffer whose length does not
//! match the schema width is rejected with `Error::Encoding`, never read
//! partially.

use vstd::prelude::*;
use vstd::slice::{slice_index_get, slice_subrange, slice_to_vec};

use crate::error::Error;

verus! {

/// Byte width of a liquidity order's ownership-predicate argument block.
pub const LIQUIDITY_ORDER_ARGS_LEN: usize = 86;

/// Byte width of a swap order's ownership-predicate argument block.
pub const SWAP_ORDER_ARGS_LEN: usize = 105;

/// Byte width of the pool snapshot payload.
pub const INFO_CELL_DATA_LEN: usize = 68;

/// The value of a little-endian byte string: the first byte is the least
/// significant.
pub open spec fn le_bytes_val(s: Seq<u8>) -> nat
    decreases s.len(),
{
    if s.len() == 0 {
        0
    } else {
        s[0] as nat + 256 * le_bytes_val(s.skip(1))
    }
}

/// `256^n`, the number of values a byte string of length `n` can take.
pub open spec fn pow256(n: nat) -> nat
    decreases n,
{
    if n == 0 {
        1
    } else {
        256 * pow256((n - 1) as nat)
    }
}

pub proof fn lemma_le_bytes_val_bound(s: Seq<u8>)
    ensures
        le_bytes_val(s) < pow256(s.len()),
    decreases s.len(),
{
    if s.len() == 0 {
    } else {
        lemma_le_bytes_val_bound(s.skip(1));
    }
}

/// Exact-length guard shared by all decoders.
pub fn check_args_len(actual: usize, expected: usize) -> (r: Result<(), Error>)
    ensures
        r == if actual == expected {
            Ok::<(), Error>(())
        } else {
            Err::<(), Error>(Error::Encoding)
        },
{
    if actual == expected {
        Ok(())
    } else {
        Err(Error::Encoding)
    }
}

/// The little-endian value of a byte string of at most 16 bytes.
fn le_value(data: &[u8]) -> (r: u128)
    requires
        data@.len() <= 16,
    ensures
        r as nat == le_bytes_val(data@),
{
    proof {
        reveal_with_fuel(pow256, 17);
    }
    let n = data.len();
    let mut acc: u128 = 0;
    let mut i: usize = n;
    while i > 0
        invariant
            i <= n,
            n == data@.len() <= 16,
            acc as nat == le_bytes_val(data@.skip(i as int)),
            (acc as nat) < pow256((n - i) as nat),
            pow256(16) == 0x1_0000_0000_0000_0000_0000_0000_0000_0000,
        decreases i,
    {
        proof {
            assert(pow256((n - i + 1) as nat) == 256 * pow256((n - i) as nat));
            assert(pow256((n - i + 1) as nat) <= pow256(16)) by {
                lemma_pow256_le((n - i + 1) as nat, 16);
            }
            assert(data@.skip(i as int - 1)[0] == data@[i as int - 1]);
            assert(data@.skip(i as int - 1).skip(1) =~= data@.skip(i as int));
        }
        i = i - 1;
        acc = acc * 256 + (*slice_index_get(data, i)) as u128;
    }
    proof {
        assert(data@.skip(0) =~= data@);
    }
    acc
}

proof fn lemma_pow256_le(a: nat, b: nat)
    requires
        a <= b,
    ensures
        pow256(a) <= pow256(b),
    decreases b,
{
    if a < b {
        lemma_pow256_le(a, (b - 1) as nat);
        assert(pow256(b) == 256 * pow256((b - 1) as nat));
    }
}

/// What `decode_u8` returns for a given buffer.
pub open spec fn spec_decode_u8(s: Seq<u8>) -> Result<u8, Error> {
    if s.len() == 1 {
        Ok(s[0])
    } else {
        Err(Error::Encoding)
    }
}

/// Reads a single byte; the buffer must be exactly one byte long.
pub fn decode_u8(data: &[u8]) -> (r: Result<u8, Error>)
    ensures
        r == spec_decode_u8(data@),
{
    if data.len() != 1 {
        return Err(Error::Encoding);
    }
    Ok(*slice_index_get(data, 0))
}

/// What `decode_u64` returns for a given buffer.
pub open spec fn spec_decode_u64(s: Seq<u8>) -> Result<u64, Error> {
    if s.len() == 8 {
        Ok(le_bytes_val(s) as u64)
    } else {
        Err(Error::Encoding)
    }
}

/// Reads an 8-byte little-endian unsigned integer.
pub fn decode_u64(data: &[u8]) -> (r: Result<u64, Error>)
    ensures
        r == spec_decode_u64(data@),
{
    if data.len() != 8 {
        return Err(Error::Encoding);
    }
    proof {
        lemma_le_bytes_val_bound(data@);
        reveal_with_fuel(pow256, 9);
    }
    Ok(le_value(data) as u64)
}

/// What `decode_u128` returns for a given buffer.
pub open spec fn spec_decode_u128(s: Seq<u8>) -> Result<u128, Error> {
    if s.len() == 16 {
        Ok(le_bytes_val(s) as u128)
    } else {
        Err(Error::Encoding)
    }
}

/// Reads a 16-byte little-endian unsigned integer: a balance field.
pub fn decode_u128(data: &[u8]) -> (r: Result<u128, Error>)
    ensures
        r == spec_decode_u128(data@),
{
    if data.len() != 16 {
        return Err(Error::Encoding);
    }
    proof {
        lemma_le_bytes_val_bound(data@);
        reveal_with_fuel(pow256, 17);
    }
    Ok(le_value(data))
}

/// The balance value held in the first 16 bytes of `s`.
pub open spec fn u128_at(s: Seq<u8>, off: int) -> u128 {
    le_bytes_val(s.subrange(off, off + 16)) as u128
}

/// Reads the 16-byte balance starting at `off`.
pub fn read_u128_at(data: &[u8], off: usize) -> (r: u128)
    requires
        off + 16 <= data@.len(),
    ensures
        r == u128_at(data@, off as int),
{
    let n = data.len();
    let part = slice_subrange(data, off, off + 16);
    proof {
        lemma_le_bytes_val_bound(part@);
        reveal_with_fuel(pow256, 17);
    }
    le_value(part)
}

/// Direction tag of a swap order: selling the native token for the pool's
/// token, or the reverse.
#[derive(Debug, Clone, Copy, PartialEq, Eq, Structural)]
pub enum OrderKind {
    SellCKB,
    BuyCKB,
}

impl OrderKind {
    /// Decodes the one-byte direction tag; any byte other than 0 or 1 is
    /// malformed.
    pub fn try_from_u8(input: u8) -> (r: Result<OrderKind, Error>)
        ensures
            r == match input {
                0u8 => Ok::<OrderKind, Error>(OrderKind::SellCKB),
                1u8 => Ok::<OrderKind, Error>(OrderKind::BuyCKB),
                _ => Err::<OrderKind, Error>(Error::Encoding),
            },
    {
        match input {
            0 => Ok(OrderKind::SellCKB),
            1 => Ok(OrderKind::BuyCKB),
            _ => Err(Error::Encoding),
        }
    }

    /// Encodes the direction tag as its wire byte.
    pub fn as_u8(self) -> (r: u8)
        ensures
            r == match self {
                OrderKind::SellCKB => 0u8,
                OrderKind::BuyCKB => 1u8,
            },
    {
        match self {
            OrderKind::SellCKB => 0,
            OrderKind::BuyCKB => 1,
        }
    }
}

/// The pool snapshot payload: both reserves, the liquidity issued so far, and
/// the asset class of the pool's liquidity token.
#[derive(Debug, Clone)]
pub struct InfoCellData {
    pub ckb_reserve: u128,
    pub sudt_reserve: u128,
    pub total_liquidity: u128,
    pub liquidity_sudt_type_hash: Vec<u8>,
}

/// Native reserve field of a well-formed snapshot payload.
pub open spec fn info_ckb_reserve(s: Seq<u8>) -> u128 {
    u128_at(s, 0)
}

/// Token reserve field of a well-formed snapshot payload.
pub open spec fn info_sudt_reserve(s: Seq<u8>) -> u128 {
    u128_at(s, 16)
}

/// Issued-liquidity field of a well-formed snapshot payload.
pub open spec fn info_total_liquidity(s: Seq<u8>) -> u128 {
    u128_at(s, 32)
}

/// Liquidity-token asset class of a well-formed snapshot payload.
pub open spec fn info_liquidity_hash(s: Seq<u8>) -> Seq<u8> {
    s.subrange(48, 68)
}

impl InfoCellData {
    /// Decodes a snapshot payload; the buffer must be exactly
    /// `INFO_CELL_DATA_LEN` bytes.
    pub fn from_raw(cell_raw_data: &[u8]) -> (r: Result<InfoCellData, Error>)
        ensures
            cell_raw_data@.len() == INFO_CELL_DATA_LEN ==> (r matches Ok(d) && d.ckb_reserve
                == info_ckb_reserve(cell_raw_data@) && d.sudt_reserve == info_sudt_reserve(
                cell_raw_data@,
            ) && d.total_liquidity == info_total_liquidity(cell_raw_data@)
                && d.liquidity_sudt_type_hash@ == info_liquidity_hash(cell_raw_data@)),
            cell_raw_data@.len() != INFO_CELL_DATA_LEN ==> r == Err::<InfoCellData, Error>(
                Error::Encoding,
            ),
    {
        check_args_len(cell_raw_data.len(), INFO_CELL_DATA_LEN)?;
        let ckb_reserve = read_u128_at(cell_raw_data, 0);
        let sudt_reserve = read_u128_at(cell_raw_data, 16);
        let total_liquidity = read_u128_at(cell_raw_data, 32);
        let liquidity_sudt_type_hash = slice_to_vec(slice_subrange(cell_raw_data, 48, 68));
        Ok(
            InfoCellData {
                ckb_reserve,
                sudt_reserve,
                total_liquidity,
                liquidity_sudt_type_hash,
            },
        )
    }
}

/// A bare balance payload: one 16-byte little-endian amount.
#[derive(Debug, Clone)]
pub struct SUDTAmountData {
    pub sudt_amount: u128,
}

impl SUDTAmountData {
    /// Decodes a balance payload; the buffer must be exactly 16 bytes.
    pub fn from_raw(cell_raw_data: &[u8]) -> (r: Result<SUDTAmountData, Error>)
        ensures
            r == match spec_decode_u128(cell_raw_data@) {
                Ok(v) => Ok::<SUDTAmountData, Error>(SUDTAmountData { sudt_amount: v }),
                Err(e) => Err::<SUDTAmountData, Error>(e),
            },
    {
        let sudt_amount = decode_u128(cell_raw_data)?;
        Ok(SUDTAmountData { sudt_amount })
    }
}

/// Argument block of a liquidity order: who owns the proceeds, the protocol
/// version, the two slippage floors, and the pool the order is bound to.
#[derive(Debug, Clone)]
pub struct LiquidityOrderLockArgs {
    pub user_lock_hash: Vec<u8>,
    pub version: u8,
    pub amount_0: u128,
    pub amount_1: u128,
    pub info_type_hash: Vec<u8>,
}

/// Owner hash of a well-formed liquidity argument block.
pub open spec fn liq_args_user_lock_hash(s: Seq<u8>) -> Seq<u8> {
    s.subrange(0, 32)
}

/// Version byte of a well-formed liquidity argument block.
pub open spec fn liq_args_version(s: Seq<u8>) -> u8 {
    s[32]
}

/// Native-side amount bound of a well-formed liquidity argument block.
pub open spec fn liq_args_amount_0(s: Seq<u8>) -> u128 {
    u128_at(s, 33)
}

/// Token-side amount bound of a well-formed liquidity argument block.
pub open spec fn liq_args_amount_1(s: Seq<u8>) -> u128 {
    u128_at(s, 49)
}

/// Linked-pool hash of a well-formed liquidity argument block.
pub open spec fn liq_args_info_type_hash(s: Seq<u8>) -> Seq<u8> {
    s.subrange(65, 85)
}

impl LiquidityOrderLockArgs {
    /// Decodes a liquidity argument block; the buffer must be exactly
    /// `LIQUIDITY_ORDER_ARGS_LEN` bytes (the trailing tip field is kept but
    /// not interpreted).
    pub fn from_raw(cell_raw_data: &[u8]) -> (r: Result<LiquidityOrderLockArgs, Error>)
        ensures
            cell_raw_data@.len() == LIQUIDITY_ORDER_ARGS_LEN ==> (r matches Ok(a)
                && a.user_lock_hash@ == liq_args_user_lock_hash(cell_raw_data@) && a.version
                == liq_args_version(cell_raw_data@) && a.amount_0 == liq_args_amount_0(
                cell_raw_data@,
            ) && a.amount_1 == liq_args_amount_1(cell_raw_data@) && a.info_type_hash@
                == liq_args_info_type_hash(cell_raw_data@)),
            cell_raw_data@.len() != LIQUIDITY_ORDER_ARGS_LEN ==> r == Err::<
                LiquidityOrderLockArgs,
                Error,
            >(Error::Encoding),
    {
        check_args_len(cell_raw_data.len(), LIQUIDITY_ORDER_ARGS_LEN)?;
        let user_lock_hash = slice_to_vec(slice_subrange(cell_raw_data, 0, 32));
        let version = *slice_index_get(cell_raw_data, 32);
        let amount_0 = read_u128_at(cell_raw_data, 33);
        let amount_1 = read_u128_at(cell_raw_data, 49);
        let info_type_hash = slice_to_vec(slice_subrange(cell_raw_data, 65, 85));
        Ok(
            LiquidityOrderLockArgs {
                user_lock_hash,
                version,
                amount_0,
                amount_1,
                info_type_hash,
            },
        )
    }
}

/// Argument block of a swap order: who owns the proceeds, the protocol
/// version, the slippage floor, and the asset class the user expects out.
#[derive(Debug, Clone)]
pub struct SwapOrderLockArgs {
    pub user_lock_hash: Vec<u8>,
    pub version: u8,
    pub min_amount_out: u128,
    pub sudt_type_hash: Vec<u8>,
}

/// Owner hash of a well-formed swap argument block.
pub open spec fn swap_args_user_lock_hash(s: Seq<u8>) -> Seq<u8> {
    s.subrange(0, 32)
}

/// Version byte of a well-formed swap argument block.
pub open spec fn swap_args_version(s: Seq<u8>) -> u8 {
    s[32]
}

/// Slippage floor of a well-formed swap argument block.
pub open spec fn swap_args_min_amount_out(s: Seq<u8>) -> u128 {
    u128_at(s, 33)
}

/// Expected asset class of a well-formed swap argument block.
pub open spec fn swap_args_sudt_type_hash(s: Seq<u8>) -> Seq<u8> {
    s.subrange(49, 81)
}

impl SwapOrderLockArgs {
    /// Decodes a swap argument block; the buffer must be exactly
    /// `SWAP_ORDER_ARGS_LEN` bytes (the trailing tip fields are kept but not
    /// interpreted).
    pub fn from_raw(cell_raw_data: &[u8]) -> (r: Result<SwapOrderLockArgs, Error>)
        ensures
            cell_raw_data@.len() == SWAP_ORDER_ARGS_LEN ==> (r matches Ok(a) && a.user_lock_hash@
                == swap_args_user_lock_hash(cell_raw_data@) && a.version == swap_args_version(
                cell_raw_data@,
            ) && a.min_amount_out == swap_args_min_amount_out(cell_raw_data@) && a.sudt_type_hash@
                == swap_args_sudt_type_hash(cell_raw_data@)),
            cell_raw_data@.len() != SWAP_ORDER_ARGS_LEN ==> r == Err::<SwapOrderLockArgs, Error>(
                Error::Encoding,
            ),
    {
        check_args_len(cell_raw_data.len(), SWAP_ORDER_ARGS_LEN)?;
        let user_lock_hash = slice_to_vec(slice_subrange(cell_raw_data, 0, 32));
        let version = *slice_index_get(cell_raw_data, 32);
        let min_amount_out = read_u128_at(cell_raw_data, 33);
        let sudt_type_hash = slice_to_vec(slice_subrange(cell_raw_data, 49, 81));
        Ok(
            SwapOrderLockArgs {
                user_lock_hash,
                version,
                min_amount_out,
                sudt_type_hash,
            },
        )
    }
}

} // verus!
