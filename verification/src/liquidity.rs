//! Liquidity settlement: the geometric-mean initial mint, the proportional
//! mint and burn formulas, and the fold that settles a batch of liquidity
//! orders against a running reserve accumulator.
//!
//! A liquidity order consumed at position `i` has its result records at the
//! strided output positions `2 * (i - base) + base` and the one after it, so
//! interleaved orders and their companion change records can share one
//! transition.

use vstd::prelude::*;

use crate::codec::{
    decode_u128, le_bytes_val, liq_args_amount_0, liq_args_amount_1, liq_args_info_type_hash,
    liq_args_user_lock_hash, liq_args_version, read_u128_at, u128_at, LiquidityOrderLockArgs,
    LIQUIDITY_ORDER_ARGS_LEN,
};
use crate::error::Error;
use crate::kernel::{biased_quote, is_isqrt, lemma_biased_quote_bias, lemma_isqrt_unique,
    mul_div_floor, sqrt_mul};
use crate::record::{bytes_eq, cell_type_hash, Record, Transition};
use crate::{INFO_VERSION, SUDT_CAPACITY, SUDT_CELL_DATA_LEN};

verus! {

/// What the one-time initial mint does to the empty pool, or why it is
/// rejected.  The pre-state must be entirely empty; the sole order at
/// position 3 deposits both assets and the produced liquidity-token record at
/// position 3 must hold exactly the integer square root of their product.
pub open spec fn spec_initial_mint(
    tx: Transition,
    liq_hash: Seq<u8>,
    ckb: u128,
    sudt: u128,
    liq: u128,
) -> Result<(u128, u128, u128), Error> {
    if ckb != 0 || sudt != 0 || liq != 0 {
        Err(Error::InvalidInfoInData)
    } else if tx.inputs@.len() < 4 {
        Err(Error::IndexOutOfBound)
    } else if tx.inputs@[3].lock.args@.len() != LIQUIDITY_ORDER_ARGS_LEN as nat {
        Err(Error::Encoding)
    } else if tx.inputs@[3].data@.len() != 16 {
        Err(Error::Encoding)
    } else if tx.outputs@.len() < 4 {
        Err(Error::IndexOutOfBound)
    } else if tx.outputs@[3].data@.len() != 16 {
        Err(Error::Encoding)
    } else {
        let order = tx.inputs@[3];
        let out = tx.outputs@[3];
        match out.type_script {
            None => Err(Error::MissingTypeScript),
            Some(ts) => {
                if ts.hash@ != liq_hash {
                    Err(Error::LiquiditySUDTTypeHashMismatch)
                } else if out.lock.hash@ != liq_args_user_lock_hash(order.lock.args@) {
                    Err(Error::LiquidityArgsUserLockHashMismatch)
                } else if order.capacity < SUDT_CAPACITY {
                    Err(Error::InvalidCKBAmount)
                } else {
                    let sudt_injected = le_bytes_val(order.data@) as u128;
                    let ckb_injected = order.capacity - SUDT_CAPACITY;
                    let user_liquidity = le_bytes_val(out.data@) as u128;
                    if user_liquidity == 0 {
                        Err(Error::MintLiquidityEqZero)
                    } else if !is_isqrt(
                        user_liquidity as int,
                        sudt_injected as int * ckb_injected as int,
                    ) {
                        Err(Error::MintInitialLiquidityFailed)
                    } else {
                        Ok((ckb_injected as u128, sudt_injected, user_liquidity))
                    }
                }
            },
        }
    }
}

/// Verifies the one-time mint against empty reserves: the minted liquidity
/// must equal the truncated square root of the product of the two deposits,
/// exactly and with zero tolerance, and must be nonzero.  On success the
/// reserve accumulator becomes the two deposits and the minted amount; on
/// rejection it is unchanged.
pub fn verify_initial_mint(
    tx: &Transition,
    liquidity_sudt_type_hash: &Vec<u8>,
    ckb_reserve: &mut u128,
    sudt_reserve: &mut u128,
    total_liquidity: &mut u128,
) -> (r: Result<(), Error>)
    ensures
        match spec_initial_mint(
            *tx,
            liquidity_sudt_type_hash@,
            *old(ckb_reserve),
            *old(sudt_reserve),
            *old(total_liquidity),
        ) {
            Ok(st) => r == Ok::<(), Error>(()) && *final(ckb_reserve) == st.0
                && *final(sudt_reserve) == st.1 && *final(total_liquidity) == st.2,
            Err(e) => r == Err::<(), Error>(e) && *final(ckb_reserve) == *old(ckb_reserve)
                && *final(sudt_reserve) == *old(sudt_reserve)
                && *final(total_liquidity) == *old(total_liquidity),
        },
{
    if *ckb_reserve != 0 || *sudt_reserve != 0 || *total_liquidity != 0 {
        return Err(Error::InvalidInfoInData);
    }
    if tx.inputs.len() < 4 {
        return Err(Error::IndexOutOfBound);
    }
    let order = &tx.inputs[3];
    let order_lock_args = match LiquidityOrderLockArgs::from_raw(order.lock.args.as_slice()) {
        Ok(a) => a,
        Err(e) => return Err(e),
    };
    let order_data = match decode_u128(order.data.as_slice()) {
        Ok(v) => v,
        Err(e) => return Err(e),
    };
    if tx.outputs.len() < 4 {
        return Err(Error::IndexOutOfBound);
    }
    let out = &tx.outputs[3];
    let liquidity_sudt_data = match decode_u128(out.data.as_slice()) {
        Ok(v) => v,
        Err(e) => return Err(e),
    };
    let out_type = match cell_type_hash(out) {
        Ok(h) => h,
        Err(e) => return Err(e),
    };
    if !bytes_eq(out_type.as_slice(), liquidity_sudt_type_hash.as_slice()) {
        return Err(Error::LiquiditySUDTTypeHashMismatch);
    }
    if !bytes_eq(out.lock.hash.as_slice(), order_lock_args.user_lock_hash.as_slice()) {
        return Err(Error::LiquidityArgsUserLockHashMismatch);
    }
    if order.capacity < SUDT_CAPACITY {
        return Err(Error::InvalidCKBAmount);
    }
    let sudt_injected = order_data;
    let ckb_injected = order.capacity - SUDT_CAPACITY;
    let user_liquidity = liquidity_sudt_data;
    let mint_liquidity = sqrt_mul(sudt_injected, ckb_injected as u128);
    if user_liquidity == 0 {
        return Err(Error::MintLiquidityEqZero);
    }
    if user_liquidity != mint_liquidity {
        proof {
            if is_isqrt(user_liquidity as int, sudt_injected as int * ckb_injected as int) {
                lemma_isqrt_unique(
                    user_liquidity as int,
                    mint_liquidity as int,
                    sudt_injected as int * ckb_injected as int,
                );
            }
        }
        return Err(Error::MintInitialLiquidityFailed);
    }
    *ckb_reserve = ckb_injected as u128;
    *sudt_reserve = sudt_injected;
    *total_liquidity = user_liquidity;
    Ok(())
}

/// Folds a mint's deltas into the accumulator, rejecting any overflow of a
/// 128-bit reserve.
pub open spec fn spec_apply_mint(
    ckb: u128,
    sudt: u128,
    liq: u128,
    ckb_injected: int,
    sudt_injected: int,
    user_liquidity: u128,
) -> Result<(u128, u128, u128), Error> {
    if ckb + ckb_injected > u128::MAX {
        Err(Error::InvalidCKBReserve)
    } else if sudt + sudt_injected > u128::MAX {
        Err(Error::InvalidSUDTReserve)
    } else if liq + user_liquidity > u128::MAX {
        Err(Error::InvalidTotalLiquidity)
    } else {
        Ok(((ckb + ckb_injected) as u128, (sudt + sudt_injected) as u128, (liq + user_liquidity) as u128))
    }
}

/// The mint sub-case whose change record returns plain native token: the
/// order's payload is all injected on the token side and the change record
/// must carry no payload and no asset class.
pub open spec fn spec_mint_ckb_change(
    order: Record,
    change: Record,
    args: Seq<u8>,
    order_data: u128,
    user_liquidity: u128,
    ckb: u128,
    sudt: u128,
    liq: u128,
) -> Result<(u128, u128, u128), Error> {
    if !(change.type_script is None) || change.lock.hash@ != liq_args_user_lock_hash(args) {
        Err(Error::InvalidChangeCell)
    } else {
        let sudt_injected = order_data;
        let ckb_injected = order.capacity as int - SUDT_CAPACITY as int - change.capacity as int;
        if ckb_injected == 0 || sudt_injected == 0 {
            Err(Error::InjectAmountEqZero)
        } else if sudt == 0 {
            Err(Error::InvalidInfoData)
        } else if ckb_injected != biased_quote(sudt_injected as int, ckb as int, sudt as int) {
            Err(Error::LiquidityPoolTokenDiff)
        } else if liq_args_amount_0(args) == 0 || ckb_injected < liq_args_amount_0(args) as int {
            Err(Error::InvalidMinCkbInject)
        } else if user_liquidity as int != biased_quote(
            sudt_injected as int,
            liq as int,
            sudt as int,
        ) {
            Err(Error::SUDTInjectAmountDiff)
        } else {
            spec_apply_mint(ckb, sudt, liq, ckb_injected, sudt_injected as int, user_liquidity)
        }
    }
}

/// The mint sub-case whose change record returns pool tokens: the injected
/// token amount is the order's payload minus the change record's balance,
/// and the whole native excess above two storage costs is injected.
pub open spec fn spec_mint_sudt_change(
    order: Record,
    change: Record,
    args: Seq<u8>,
    order_data: u128,
    user_liquidity: u128,
    pool_hash: Seq<u8>,
    ckb: u128,
    sudt: u128,
    liq: u128,
) -> Result<(u128, u128, u128), Error> {
    match change.type_script {
        None => Err(Error::MissingTypeScript),
        Some(cts) => {
            if cts.hash@ != pool_hash {
                Err(Error::SUDTTypeHashMismatch)
            } else if change.lock.hash@ != liq_args_user_lock_hash(args) {
                Err(Error::LiquidityArgsUserLockHashMismatch)
            } else if u128_at(change.data@, 0) > order_data {
                Err(Error::SUDTInjectAmountDiff)
            } else if order.capacity < 2 * SUDT_CAPACITY {
                Err(Error::InvalidCKBAmount)
            } else {
                let sudt_injected = (order_data - u128_at(change.data@, 0)) as u128;
                let ckb_injected = order.capacity as int - 2 * SUDT_CAPACITY as int;
                if ckb_injected == 0 || sudt_injected == 0 {
                    Err(Error::InjectAmountEqZero)
                } else if ckb == 0 {
                    Err(Error::InvalidInfoData)
                } else if sudt_injected as int != biased_quote(ckb_injected, sudt as int, ckb as int) {
                    Err(Error::LiquidityPoolTokenDiff)
                } else if liq_args_amount_1(args) == 0 || sudt_injected < liq_args_amount_1(args) {
                    Err(Error::InvalidMinSUDTInject)
                } else if user_liquidity as int != biased_quote(ckb_injected, liq as int, ckb as int) {
                    Err(Error::CKBInjectAmountDiff)
                } else {
                    spec_apply_mint(ckb, sudt, liq, ckb_injected, sudt_injected as int, user_liquidity)
                }
            }
        },
    }
}

/// What a proportional mint at consumed position `idx` does to the
/// accumulator, or why it is rejected.  The order's result record at the
/// strided position must hold exactly the biased proportional liquidity, and
/// the injected amounts must match the biased reserve ratio.
pub open spec fn spec_mint(
    tx: Transition,
    idx: int,
    base: int,
    pool_hash: Seq<u8>,
    liq_hash: Seq<u8>,
    order_data: u128,
    ckb: u128,
    sudt: u128,
    liq: u128,
) -> Result<(u128, u128, u128), Error> {
    let order = tx.inputs@[idx];
    let args = order.lock.args@;
    let li = 2 * (idx - base) + base;
    if liq == 0 {
        Err(Error::UnknownLiquidity)
    } else if args.len() != LIQUIDITY_ORDER_ARGS_LEN as nat {
        Err(Error::Encoding)
    } else if li + 1 >= tx.outputs@.len() {
        Err(Error::IndexOutOfBound)
    } else {
        let out = tx.outputs@[li];
        let change = tx.outputs@[li + 1];
        match out.type_script {
            None => Err(Error::MissingTypeScript),
            Some(ts) => {
                if ts.hash@ != liq_hash {
                    Err(Error::LiquiditySUDTTypeHashMismatch)
                } else if out.lock.hash@ != liq_args_user_lock_hash(args) {
                    Err(Error::LiquidityArgsUserLockHashMismatch)
                } else if out.data@.len() != 16 {
                    Err(Error::Encoding)
                } else {
                    let user_liquidity = le_bytes_val(out.data@) as u128;
                    if change.data@.len() == 0 {
                        spec_mint_ckb_change(
                            order,
                            change,
                            args,
                            order_data,
                            user_liquidity,
                            ckb,
                            sudt,
                            liq,
                        )
                    } else if change.data@.len() >= SUDT_CELL_DATA_LEN as nat {
                        spec_mint_sudt_change(
                            order,
                            change,
                            args,
                            order_data,
                            user_liquidity,
                            pool_hash,
                            ckb,
                            sudt,
                            liq,
                        )
                    } else {
                        Err(Error::InvalidChangeCell)
                    }
                }
            },
        }
    }
}

/// Verifies one proportional mint and advances the accumulator; on rejection
/// the accumulator is unchanged.
pub fn mint_liquidity(
    tx: &Transition,
    liquidity_cell_index: usize,
    base_index: usize,
    pool_type_hash: &Vec<u8>,
    liquidity_sudt_type_hash: &Vec<u8>,
    liquidity_order_data: u128,
    ckb_reserve: &mut u128,
    sudt_reserve: &mut u128,
    total_liquidity: &mut u128,
) -> (r: Result<(), Error>)
    requires
        base_index <= liquidity_cell_index < tx.inputs@.len(),
    ensures
        match spec_mint(
            *tx,
            liquidity_cell_index as int,
            base_index as int,
            pool_type_hash@,
            liquidity_sudt_type_hash@,
            liquidity_order_data,
            *old(ckb_reserve),
            *old(sudt_reserve),
            *old(total_liquidity),
        ) {
            Ok(st) => r == Ok::<(), Error>(()) && *final(ckb_reserve) == st.0
                && *final(sudt_reserve) == st.1 && *final(total_liquidity) == st.2,
            Err(e) => r == Err::<(), Error>(e) && *final(ckb_reserve) == *old(ckb_reserve)
                && *final(sudt_reserve) == *old(sudt_reserve)
                && *final(total_liquidity) == *old(total_liquidity),
        },
{
    let order = &tx.inputs[liquidity_cell_index];
    if *total_liquidity == 0 {
        return Err(Error::UnknownLiquidity);
    }
    let args = match LiquidityOrderLockArgs::from_raw(order.lock.args.as_slice()) {
        Ok(a) => a,
        Err(e) => return Err(e),
    };
    let li_wide = 2 * ((liquidity_cell_index - base_index) as u128) + base_index as u128;
    if li_wide + 1 >= tx.outputs.len() as u128 {
        return Err(Error::IndexOutOfBound);
    }
    let li = (2 * (liquidity_cell_index - base_index) + base_index) as usize;
    assert(li as int == 2 * (liquidity_cell_index as int - base_index as int) + base_index as int);
    let out = &tx.outputs[li];
    let change = &tx.outputs[li + 1];
    let out_type = match cell_type_hash(out) {
        Ok(h) => h,
        Err(e) => return Err(e),
    };
    if !bytes_eq(out_type.as_slice(), liquidity_sudt_type_hash.as_slice()) {
        return Err(Error::LiquiditySUDTTypeHashMismatch);
    }
    if !bytes_eq(out.lock.hash.as_slice(), args.user_lock_hash.as_slice()) {
        return Err(Error::LiquidityArgsUserLockHashMismatch);
    }
    let user_liquidity = match decode_u128(out.data.as_slice()) {
        Ok(v) => v,
        Err(e) => return Err(e),
    };
    let ckb0 = *ckb_reserve;
    let sudt0 = *sudt_reserve;
    let liq0 = *total_liquidity;
    let ckb_injected: u128;
    let sudt_injected: u128;
    if change.data.len() == 0 {
        if change.type_script.is_some() || !bytes_eq(
            change.lock.hash.as_slice(),
            args.user_lock_hash.as_slice(),
        ) {
            return Err(Error::InvalidChangeCell);
        }
        sudt_injected = liquidity_order_data;
        let offered = order.capacity as u128;
        let reserved = SUDT_CAPACITY as u128 + change.capacity as u128;
        if offered <= reserved {
            if offered == reserved {
                return Err(Error::InjectAmountEqZero);
            }
            if sudt_injected == 0 {
                return Err(Error::InjectAmountEqZero);
            }
            if sudt0 == 0 {
                return Err(Error::InvalidInfoData);
            }
            proof {
                lemma_biased_quote_bias(sudt_injected as int, ckb0 as int, sudt0 as int);
            }
            return Err(Error::LiquidityPoolTokenDiff);
        }
        ckb_injected = offered - reserved;
        if sudt_injected == 0 {
            return Err(Error::InjectAmountEqZero);
        }
        if sudt0 == 0 {
            return Err(Error::InvalidInfoData);
        }
        match mul_div_floor(sudt_injected, ckb0, sudt0) {
            None => {
                return Err(Error::LiquidityPoolTokenDiff);
            },
            Some(q) => {
                if !(q < u128::MAX && ckb_injected == q + 1) {
                    return Err(Error::LiquidityPoolTokenDiff);
                }
            },
        }
        if args.amount_0 == 0 || ckb_injected < args.amount_0 {
            return Err(Error::InvalidMinCkbInject);
        }
        match mul_div_floor(sudt_injected, liq0, sudt0) {
            None => {
                return Err(Error::SUDTInjectAmountDiff);
            },
            Some(q) => {
                if !(q < u128::MAX && user_liquidity == q + 1) {
                    return Err(Error::SUDTInjectAmountDiff);
                }
            },
        }
    } else if change.data.len() >= SUDT_CELL_DATA_LEN {
        let change_type = match cell_type_hash(change) {
            Ok(h) => h,
            Err(e) => return Err(e),
        };
        if !bytes_eq(change_type.as_slice(), pool_type_hash.as_slice()) {
            return Err(Error::SUDTTypeHashMismatch);
        }
        if !bytes_eq(change.lock.hash.as_slice(), args.user_lock_hash.as_slice()) {
            return Err(Error::LiquidityArgsUserLockHashMismatch);
        }
        let change_amount = read_u128_at(change.data.as_slice(), 0);
        if change_amount > liquidity_order_data {
            return Err(Error::SUDTInjectAmountDiff);
        }
        if order.capacity < 2 * SUDT_CAPACITY {
            return Err(Error::InvalidCKBAmount);
        }
        sudt_injected = liquidity_order_data - change_amount;
        ckb_injected = (order.capacity - 2 * SUDT_CAPACITY) as u128;
        if ckb_injected == 0 || sudt_injected == 0 {
            return Err(Error::InjectAmountEqZero);
        }
        if ckb0 == 0 {
            return Err(Error::InvalidInfoData);
        }
        match mul_div_floor(ckb_injected, sudt0, ckb0) {
            None => {
                return Err(Error::LiquidityPoolTokenDiff);
            },
            Some(q) => {
                if !(q < u128::MAX && sudt_injected == q + 1) {
                    return Err(Error::LiquidityPoolTokenDiff);
                }
            },
        }
        if args.amount_1 == 0 || sudt_injected < args.amount_1 {
            return Err(Error::InvalidMinSUDTInject);
        }
        match mul_div_floor(ckb_injected, liq0, ckb0) {
            None => {
                return Err(Error::CKBInjectAmountDiff);
            },
            Some(q) => {
                if !(q < u128::MAX && user_liquidity == q + 1) {
                    return Err(Error::CKBInjectAmountDiff);
                }
            },
        }
    } else {
        return Err(Error::InvalidChangeCell);
    }
    if ckb0 > u128::MAX - ckb_injected {
        return Err(Error::InvalidCKBReserve);
    }
    if sudt0 > u128::MAX - sudt_injected {
        return Err(Error::InvalidSUDTReserve);
    }
    if liq0 > u128::MAX - user_liquidity {
        return Err(Error::InvalidTotalLiquidity);
    }
    *ckb_reserve = ckb0 + ckb_injected;
    *sudt_reserve = sudt0 + sudt_injected;
    *total_liquidity = liq0 + user_liquidity;
    Ok(())
}

/// What a burn at consumed position `idx` does to the accumulator, or why it
/// is rejected.  The two result records at the strided positions must pay
/// out exactly the biased proportional share of each reserve, both bounded
/// below by the order's floors, and the burn may not exhaust more liquidity
/// than is issued.
pub open spec fn spec_burn(
    tx: Transition,
    idx: int,
    base: int,
    order_data: u128,
    ckb: u128,
    sudt: u128,
    liq: u128,
) -> Result<(u128, u128, u128), Error> {
    let order = tx.inputs@[idx];
    let args = order.lock.args@;
    let si = 2 * (idx - base) + base;
    if liq == 0 || order_data == 0 {
        Err(Error::BurnLiquidityFailed)
    } else if si + 1 >= tx.outputs@.len() {
        Err(Error::IndexOutOfBound)
    } else if args.len() != LIQUIDITY_ORDER_ARGS_LEN as nat {
        Err(Error::Encoding)
    } else if tx.outputs@[si].data@.len() < SUDT_CELL_DATA_LEN as nat {
        Err(Error::SUDTCellDataLenTooShort)
    } else if tx.outputs@[si + 1].data@.len() != 0 {
        Err(Error::CKBCellDataIsNotEmpty)
    } else {
        let sudt_out = tx.outputs@[si];
        let ckb_out = tx.outputs@[si + 1];
        match sudt_out.type_script {
            None => Err(Error::MissingTypeScript),
            Some(ts) => {
                if tx.inputs@.len() < 2 {
                    Err(Error::IndexOutOfBound)
                } else {
                    match tx.inputs@[1].type_script {
                        None => Err(Error::MissingTypeScript),
                        Some(pool_ts) => {
                            if ts.hash@ != pool_ts.hash@ {
                                Err(Error::SUDTTypeHashMismatch)
                            } else if sudt_out.lock.hash@ != liq_args_user_lock_hash(args) {
                                Err(Error::AddLiquiditySUDTOutLockHashMismatch)
                            } else if ckb_out.lock.hash@ != liq_args_user_lock_hash(args) {
                                Err(Error::AddLiquidityCkbOutLockHashMismatch)
                            } else {
                                let got_ckb = sudt_out.capacity as int + ckb_out.capacity as int
                                    - order.capacity as int;
                                let got_sudt = u128_at(sudt_out.data@, 0);
                                if liq_args_amount_0(args) == 0 || got_ckb < liq_args_amount_0(
                                    args,
                                ) as int {
                                    Err(Error::InvalidMinCkbGot)
                                } else if got_sudt < liq_args_amount_1(args) {
                                    Err(Error::InvalidMinSUDTGot)
                                } else if got_ckb != biased_quote(
                                    ckb as int,
                                    order_data as int,
                                    liq as int,
                                ) {
                                    Err(Error::CKBGotAmountDiff)
                                } else if got_sudt as int != biased_quote(
                                    sudt as int,
                                    order_data as int,
                                    liq as int,
                                ) {
                                    Err(Error::SUDTGotAmountDiff)
                                } else if got_ckb > ckb {
                                    Err(Error::InvalidCKBReserve)
                                } else if got_sudt > sudt {
                                    Err(Error::InvalidSUDTReserve)
                                } else if order_data > liq {
                                    Err(Error::InvalidTotalLiquidity)
                                } else {
                                    Ok(
                                        (
                                            (ckb - got_ckb) as u128,
                                            (sudt - got_sudt) as u128,
                                            (liq - order_data) as u128,
                                        ),
                                    )
                                }
                            }
                        },
                    }
                }
            },
        }
    }
}

/// Verifies one burn and advances the accumulator; on rejection the
/// accumulator is unchanged.
pub fn burn_liquidity(
    tx: &Transition,
    index: usize,
    base_index: usize,
    liquidity_order_data: u128,
    ckb_reserve: &mut u128,
    sudt_reserve: &mut u128,
    total_liquidity: &mut u128,
) -> (r: Result<(), Error>)
    requires
        base_index <= index < tx.inputs@.len(),
    ensures
        match spec_burn(
            *tx,
            index as int,
            base_index as int,
            liquidity_order_data,
            *old(ckb_reserve),
            *old(sudt_reserve),
            *old(total_liquidity),
        ) {
            Ok(st) => r == Ok::<(), Error>(()) && *final(ckb_reserve) == st.0
                && *final(sudt_reserve) == st.1 && *final(total_liquidity) == st.2,
            Err(e) => r == Err::<(), Error>(e) && *final(ckb_reserve) == *old(ckb_reserve)
                && *final(sudt_reserve) == *old(sudt_reserve)
                && *final(total_liquidity) == *old(total_liquidity),
        },
{
    let order = &tx.inputs[index];
    if *total_liquidity == 0 || liquidity_order_data == 0 {
        return Err(Error::BurnLiquidityFailed);
    }
    let si_wide = 2 * ((index - base_index) as u128) + base_index as u128;
    if si_wide + 1 >= tx.outputs.len() as u128 {
        return Err(Error::IndexOutOfBound);
    }
    let si = (2 * (index - base_index) + base_index) as usize;
    assert(si as int == 2 * (index as int - base_index as int) + base_index as int);
    let args = match LiquidityOrderLockArgs::from_raw(order.lock.args.as_slice()) {
        Ok(a) => a,
        Err(e) => return Err(e),
    };
    let sudt_out = &tx.outputs[si];
    let ckb_out = &tx.outputs[si + 1];
    if sudt_out.data.len() < SUDT_CELL_DATA_LEN {
        return Err(Error::SUDTCellDataLenTooShort);
    }
    if ckb_out.data.len() != 0 {
        return Err(Error::CKBCellDataIsNotEmpty);
    }
    let sudt_out_type = match cell_type_hash(sudt_out) {
        Ok(h) => h,
        Err(e) => return Err(e),
    };
    if tx.inputs.len() < 2 {
        return Err(Error::IndexOutOfBound);
    }
    let pool_type = match cell_type_hash(&tx.inputs[1]) {
        Ok(h) => h,
        Err(e) => return Err(e),
    };
    if !bytes_eq(sudt_out_type.as_slice(), pool_type.as_slice()) {
        return Err(Error::SUDTTypeHashMismatch);
    }
    if !bytes_eq(sudt_out.lock.hash.as_slice(), args.user_lock_hash.as_slice()) {
        return Err(Error::AddLiquiditySUDTOutLockHashMismatch);
    }
    if !bytes_eq(ckb_out.lock.hash.as_slice(), args.user_lock_hash.as_slice()) {
        return Err(Error::AddLiquidityCkbOutLockHashMismatch);
    }
    let paid_out = sudt_out.capacity as u128 + ckb_out.capacity as u128;
    if paid_out < order.capacity as u128 {
        return Err(Error::InvalidMinCkbGot);
    }
    let user_ckb_got = paid_out - order.capacity as u128;
    let user_sudt_got = read_u128_at(sudt_out.data.as_slice(), 0);
    let burned_liquidity = liquidity_order_data;
    if args.amount_0 == 0 || user_ckb_got < args.amount_0 {
        return Err(Error::InvalidMinCkbGot);
    }
    if user_sudt_got < args.amount_1 {
        return Err(Error::InvalidMinSUDTGot);
    }
    let ckb0 = *ckb_reserve;
    let sudt0 = *sudt_reserve;
    let liq0 = *total_liquidity;
    match mul_div_floor(ckb0, burned_liquidity, liq0) {
        None => {
            return Err(Error::CKBGotAmountDiff);
        },
        Some(q) => {
            if !(q < u128::MAX && user_ckb_got == q + 1) {
                return Err(Error::CKBGotAmountDiff);
            }
        },
    }
    match mul_div_floor(sudt0, burned_liquidity, liq0) {
        None => {
            return Err(Error::SUDTGotAmountDiff);
        },
        Some(q) => {
            if !(q < u128::MAX && user_sudt_got == q + 1) {
                return Err(Error::SUDTGotAmountDiff);
            }
        },
    }
    if user_ckb_got > ckb0 {
        return Err(Error::InvalidCKBReserve);
    }
    if user_sudt_got > sudt0 {
        return Err(Error::InvalidSUDTReserve);
    }
    if burned_liquidity > liq0 {
        return Err(Error::InvalidTotalLiquidity);
    }
    *ckb_reserve = ckb0 - user_ckb_got;
    *sudt_reserve = sudt0 - user_sudt_got;
    *total_liquidity = liq0 - burned_liquidity;
    Ok(())
}

/// One step of the liquidity fold: classify the order at consumed position
/// `idx` by its asset class — the pool's liquidity token means a burn, the
/// pool's reserve token means a mint, anything else is unknown — and apply
/// the matching verifier to the accumulator.
pub open spec fn spec_liquidity_step(
    tx: Transition,
    idx: int,
    base: int,
    info_hash: Seq<u8>,
    pool_hash: Seq<u8>,
    liq_hash: Seq<u8>,
    ckb: u128,
    sudt: u128,
    liq: u128,
) -> Result<(u128, u128, u128), Error> {
    let order = tx.inputs@[idx];
    let args = order.lock.args@;
    if args.len() != LIQUIDITY_ORDER_ARGS_LEN as nat {
        Err(Error::Encoding)
    } else if liq_args_version(args) != INFO_VERSION {
        Err(Error::VersionDiff)
    } else if order.data@.len() != 16 {
        Err(Error::Encoding)
    } else if liq_args_info_type_hash(args) != info_hash {
        Err(Error::LiquidityArgsInfoTypeHashMismatch)
    } else {
        match order.type_script {
            None => Err(Error::MissingTypeScript),
            Some(ts) => {
                if ts.hash@ == liq_hash {
                    spec_burn(tx, idx, base, le_bytes_val(order.data@) as u128, ckb, sudt, liq)
                } else if ts.hash@ == pool_hash {
                    spec_mint(
                        tx,
                        idx,
                        base,
                        pool_hash,
                        liq_hash,
                        le_bytes_val(order.data@) as u128,
                        ckb,
                        sudt,
                        liq,
                    )
                } else {
                    Err(Error::UnknownLiquidity)
                }
            },
        }
    }
}

/// Folds every consumed record from `idx` to the end of the input list
/// through `spec_liquidity_step`, threading the reserve accumulator; orders
/// settled later are priced against reserves already adjusted by earlier
/// ones.
pub open spec fn spec_liquidity_fold(
    tx: Transition,
    idx: int,
    base: int,
    info_hash: Seq<u8>,
    pool_hash: Seq<u8>,
    liq_hash: Seq<u8>,
    ckb: u128,
    sudt: u128,
    liq: u128,
) -> Result<(u128, u128, u128), Error>
    decreases tx.inputs@.len() - idx,
{
    if idx >= tx.inputs@.len() {
        Ok((ckb, sudt, liq))
    } else {
        match spec_liquidity_step(tx, idx, base, info_hash, pool_hash, liq_hash, ckb, sudt, liq) {
            Err(e) => Err(e),
            Ok(st) => spec_liquidity_fold(
                tx,
                idx + 1,
                base,
                info_hash,
                pool_hash,
                liq_hash,
                st.0,
                st.1,
                st.2,
            ),
        }
    }
}

/// What settling the liquidity orders of a transition does to the
/// accumulator: the orders occupy the consumed positions from
/// `swap_count + 3` up, and are folded in ascending position against the
/// asset classes of the consumed snapshot and reserve records.
pub open spec fn spec_liquidity_tx(
    tx: Transition,
    swap_count: int,
    liq_hash: Seq<u8>,
    ckb: u128,
    sudt: u128,
    liq: u128,
) -> Result<(u128, u128, u128), Error> {
    if tx.inputs@.len() < 1 {
        Err(Error::IndexOutOfBound)
    } else {
        match tx.inputs@[0].type_script {
            None => Err(Error::MissingTypeScript),
            Some(info_ts) => {
                if tx.inputs@.len() < 2 {
                    Err(Error::IndexOutOfBound)
                } else {
                    match tx.inputs@[1].type_script {
                        None => Err(Error::MissingTypeScript),
                        Some(pool_ts) => spec_liquidity_fold(
                            tx,
                            swap_count + 3,
                            swap_count + 3,
                            info_ts.hash@,
                            pool_ts.hash@,
                            liq_hash,
                            ckb,
                            sudt,
                            liq,
                        ),
                    }
                }
            },
        }
    }
}

/// The reserve deltas one settled liquidity order applies, read from the
/// records alone: a burn removes both proportional payouts, a mint adds the
/// two injected amounts — taken whole from the order and its change record,
/// whichever side the change returns.
pub open spec fn liquidity_order_deltas(tx: Transition, idx: int, base: int, liq_hash: Seq<u8>) -> (
    int,
    int,
) {
    let order = tx.inputs@[idx];
    let pos = 2 * (idx - base) + base;
    match order.type_script {
        None => (0, 0),
        Some(ts) => {
            if ts.hash@ == liq_hash {
                let got_ckb = tx.outputs@[pos].capacity as int + tx.outputs@[pos
                    + 1].capacity as int - order.capacity as int;
                let got_sudt = u128_at(tx.outputs@[pos].data@, 0) as int;
                (-got_ckb, -got_sudt)
            } else {
                let change = tx.outputs@[pos + 1];
                if change.data@.len() == 0 {
                    (
                        order.capacity as int - SUDT_CAPACITY as int - change.capacity as int,
                        (le_bytes_val(order.data@) as u128) as int,
                    )
                } else {
                    (
                        order.capacity as int - 2 * SUDT_CAPACITY as int,
                        (le_bytes_val(order.data@) as u128) as int - u128_at(change.data@, 0) as int,
                    )
                }
            }
        },
    }
}

/// The liquidity one settled order mints: the balance of its result record,
/// or zero for a burn.
pub open spec fn liquidity_order_minted(tx: Transition, idx: int, base: int, liq_hash: Seq<u8>) -> int {
    let pos = 2 * (idx - base) + base;
    match tx.inputs@[idx].type_script {
        None => 0,
        Some(ts) => {
            if ts.hash@ == liq_hash {
                0
            } else {
                (le_bytes_val(tx.outputs@[pos].data@) as u128) as int
            }
        },
    }
}

/// The liquidity one settled order burns: its payload balance, or zero for a
/// mint.
pub open spec fn liquidity_order_burned(tx: Transition, idx: int, liq_hash: Seq<u8>) -> int {
    match tx.inputs@[idx].type_script {
        None => 0,
        Some(ts) => {
            if ts.hash@ == liq_hash {
                (le_bytes_val(tx.inputs@[idx].data@) as u128) as int
            } else {
                0
            }
        },
    }
}

/// The summed reserve deltas of the liquidity orders from `idx` to the end
/// of the consumed list.
pub open spec fn liquidity_delta_sum(tx: Transition, idx: int, base: int, liq_hash: Seq<u8>) -> (
    int,
    int,
)
    decreases tx.inputs@.len() - idx,
{
    if idx >= tx.inputs@.len() {
        (0, 0)
    } else {
        let d = liquidity_order_deltas(tx, idx, base, liq_hash);
        let rest = liquidity_delta_sum(tx, idx + 1, base, liq_hash);
        (d.0 + rest.0, d.1 + rest.1)
    }
}

/// The summed minted liquidity of the orders from `idx` to the end of the
/// consumed list.
pub open spec fn liquidity_minted_sum(tx: Transition, idx: int, base: int, liq_hash: Seq<u8>) -> int
    decreases tx.inputs@.len() - idx,
{
    if idx >= tx.inputs@.len() {
        0
    } else {
        liquidity_order_minted(tx, idx, base, liq_hash) + liquidity_minted_sum(
            tx,
            idx + 1,
            base,
            liq_hash,
        )
    }
}

/// The summed burned liquidity of the orders from `idx` to the end of the
/// consumed list.
pub open spec fn liquidity_burned_sum(tx: Transition, idx: int, liq_hash: Seq<u8>) -> int
    decreases tx.inputs@.len() - idx,
{
    if idx >= tx.inputs@.len() {
        0
    } else {
        liquidity_order_burned(tx, idx, liq_hash) + liquidity_burned_sum(tx, idx + 1, liq_hash)
    }
}

/// Batch additivity of liquidity settlement: when the fold accepts, the
/// issued liquidity moves by the sum of mints minus the sum of burns, and
/// each reserve moves by the sum of the orders' individually-computed
/// deltas, even though each order was priced against the reserves left by
/// the orders before it.
pub proof fn lemma_liquidity_fold_additivity(
    tx: Transition,
    idx: int,
    base: int,
    info_hash: Seq<u8>,
    pool_hash: Seq<u8>,
    liq_hash: Seq<u8>,
    ckb: u128,
    sudt: u128,
    liq: u128,
    st: (u128, u128, u128),
)
    requires
        spec_liquidity_fold(tx, idx, base, info_hash, pool_hash, liq_hash, ckb, sudt, liq) == Ok::<
            (u128, u128, u128),
            Error,
        >(st),
    ensures
        st.0 as int == ckb + liquidity_delta_sum(tx, idx, base, liq_hash).0,
        st.1 as int == sudt + liquidity_delta_sum(tx, idx, base, liq_hash).1,
        st.2 as int == liq + liquidity_minted_sum(tx, idx, base, liq_hash) - liquidity_burned_sum(
            tx,
            idx,
            liq_hash,
        ),
    decreases tx.inputs@.len() - idx,
{
    if idx >= tx.inputs@.len() {
    } else {
        match spec_liquidity_step(tx, idx, base, info_hash, pool_hash, liq_hash, ckb, sudt, liq) {
            Err(_) => {
                assert(false);
            },
            Ok(st1) => {
                assert(st1.0 as int == ckb + liquidity_order_deltas(tx, idx, base, liq_hash).0
                    && st1.1 as int == sudt + liquidity_order_deltas(tx, idx, base, liq_hash).1
                    && st1.2 as int == liq + liquidity_order_minted(tx, idx, base, liq_hash)
                    - liquidity_order_burned(tx, idx, liq_hash));
                lemma_liquidity_fold_additivity(
                    tx,
                    idx + 1,
                    base,
                    info_hash,
                    pool_hash,
                    liq_hash,
                    st1.0,
                    st1.1,
                    st1.2,
                    st,
                );
            },
        }
    }
}

/// Settles every liquidity order of the transition in ascending record
/// position, threading the reserve accumulator through the mint and burn
/// verifiers; on rejection the accumulator is unchanged and the one failed
/// check's reason is returned.
#[verifier::loop_isolation(false)]
pub fn liquidity_tx_verification(
    tx: &Transition,
    swap_cell_count: u64,
    ckb_reserve: &mut u128,
    sudt_reserve: &mut u128,
    total_liquidity: &mut u128,
    liquidity_sudt_type_hash: &Vec<u8>,
) -> (r: Result<(), Error>)
    ensures
        match spec_liquidity_tx(
            *tx,
            swap_cell_count as int,
            liquidity_sudt_type_hash@,
            *old(ckb_reserve),
            *old(sudt_reserve),
            *old(total_liquidity),
        ) {
            Ok(st) => r == Ok::<(), Error>(()) && *final(ckb_reserve) == st.0
                && *final(sudt_reserve) == st.1 && *final(total_liquidity) == st.2,
            Err(e) => r == Err::<(), Error>(e) && *final(ckb_reserve) == *old(ckb_reserve)
                && *final(sudt_reserve) == *old(sudt_reserve)
                && *final(total_liquidity) == *old(total_liquidity),
        },
{
    if tx.inputs.len() < 1 {
        return Err(Error::IndexOutOfBound);
    }
    let info_hash = match cell_type_hash(&tx.inputs[0]) {
        Ok(h) => h,
        Err(e) => return Err(e),
    };
    if tx.inputs.len() < 2 {
        return Err(Error::IndexOutOfBound);
    }
    let pool_hash = match cell_type_hash(&tx.inputs[1]) {
        Ok(h) => h,
        Err(e) => return Err(e),
    };
    let end = tx.inputs.len();
    let mut c = *ckb_reserve;
    let mut s = *sudt_reserve;
    let mut l = *total_liquidity;
    let ghost base_int: int = swap_cell_count as int + 3;
    let ghost c0 = c;
    let ghost s0 = s;
    let ghost l0 = l;
    let base_wide = swap_cell_count as u128 + 3;
    if base_wide >= end as u128 {
        return Ok(());
    }
    let base = base_wide as usize;
    let mut idx: usize = base;
    while idx < end
        invariant
            base <= idx <= end,
            spec_liquidity_fold(
                *tx,
                idx as int,
                base_int,
                info_hash@,
                pool_hash@,
                liquidity_sudt_type_hash@,
                c,
                s,
                l,
            ) == spec_liquidity_fold(
                *tx,
                base_int,
                base_int,
                info_hash@,
                pool_hash@,
                liquidity_sudt_type_hash@,
                c0,
                s0,
                l0,
            ),
        decreases end - idx,
    {
        let order = &tx.inputs[idx];
        let args = match LiquidityOrderLockArgs::from_raw(order.lock.args.as_slice()) {
            Ok(a) => a,
            Err(e) => return Err(e),
        };
        if args.version != INFO_VERSION {
            return Err(Error::VersionDiff);
        }
        let order_data = match decode_u128(order.data.as_slice()) {
            Ok(v) => v,
            Err(e) => return Err(e),
        };
        if !bytes_eq(args.info_type_hash.as_slice(), info_hash.as_slice()) {
            return Err(Error::LiquidityArgsInfoTypeHashMismatch);
        }
        let order_type = match cell_type_hash(order) {
            Ok(h) => h,
            Err(e) => return Err(e),
        };
        let step_result: Result<(), Error>;
        if bytes_eq(order_type.as_slice(), liquidity_sudt_type_hash.as_slice()) {
            step_result = burn_liquidity(tx, idx, base, order_data, &mut c, &mut s, &mut l);
        } else if bytes_eq(order_type.as_slice(), pool_hash.as_slice()) {
            step_result = mint_liquidity(
                tx,
                idx,
                base,
                pool_hash,
                liquidity_sudt_type_hash,
                order_data,
                &mut c,
                &mut s,
                &mut l,
            );
        } else {
            return Err(Error::UnknownLiquidity);
        }
        match step_result {
            Ok(_) => {},
            Err(e) => return Err(e),
        }
        idx = idx + 1;
    }
    *ckb_reserve = c;
    *sudt_reserve = s;
    *total_liquidity = l;
    Ok(())
}

} // verus!
