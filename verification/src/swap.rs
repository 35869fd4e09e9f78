//! Swap settlement: constant-product pricing in both directions with a
//! 0.3% fee, and the fold that settles a contiguous run of swap orders
//! against the running reserve accumulator.
//!
//! Direction is decided by the consumed order record itself: a record
//! without an asset class sells native token for the pool's token; a record
//! carrying one sells the token back.  A swap order's result record sits at
//! the same position in the produced list as the order does in the consumed
//! list.

use vstd::prelude::*;

use crate::codec::{
    decode_u128, le_bytes_val, swap_args_min_amount_out, swap_args_sudt_type_hash,
    swap_args_user_lock_hash, SwapOrderLockArgs, SWAP_ORDER_ARGS_LEN,
};
use crate::error::Error;
use crate::kernel::{swap_quotient_floor, swap_required};
use crate::record::{bytes_eq, cell_type_hash, Transition};
use crate::{FEE_RATE, SUDT_CAPACITY, THOUSAND};

verus! {

/// What a native-to-token swap at position `idx` does to the reserves, or
/// why it is rejected.  The native amount paid in must equal the biased
/// constant-product price of the token amount taken out, and the result
/// record must carry the asset class the order names and at least its
/// slippage floor.
pub open spec fn spec_swap_ckb_to_sudt(
    tx: Transition,
    idx: int,
    min_amount_out: u128,
    expected_type: Seq<u8>,
    ckb: u128,
    sudt: u128,
) -> Result<(u128, u128), Error> {
    let req = tx.inputs@[idx];
    let out = tx.outputs@[idx];
    let ckb_paid = req.capacity as int - SUDT_CAPACITY as int;
    if ckb_paid <= 0 {
        Err(Error::RequestCapcityEqSUDTCapcity)
    } else {
        match out.type_script {
            None => Err(Error::MissingTypeScript),
            Some(ts) => {
                if expected_type != ts.hash@ {
                    Err(Error::InvalidOutputTypeHash)
                } else if req.capacity <= out.capacity || req.capacity as int - out.capacity as int
                    != ckb_paid {
                    Err(Error::InvalidSwapOutputCapacity)
                } else if out.data@.len() != 16 {
                    Err(Error::Encoding)
                } else {
                    let sudt_got = le_bytes_val(out.data@) as u128;
                    if sudt_got < min_amount_out {
                        Err(Error::SwapAmountLessThanMin)
                    } else if sudt == 0 && sudt_got == 0 {
                        Err(Error::SellSUDTFailed)
                    } else if ckb_paid != swap_required(
                        sudt_got as int,
                        FEE_RATE as int,
                        ckb as int,
                        sudt as int,
                        THOUSAND as int,
                    ) {
                        Err(Error::SellSUDTFailed)
                    } else if ckb_paid > ckb {
                        Err(Error::InvalidCKBReserve)
                    } else if sudt + sudt_got > u128::MAX {
                        Err(Error::InvalidSUDTReserve)
                    } else {
                        Ok(((ckb - ckb_paid) as u128, (sudt + sudt_got) as u128))
                    }
                }
            },
        }
    }
}

/// What a token-to-native swap at position `idx` does to the reserves, or
/// why it is rejected.  The token amount paid in must equal the biased
/// constant-product price of the native amount taken out, and the result
/// record must carry no asset class and pay at least the slippage floor.
pub open spec fn spec_swap_sudt_to_ckb(
    tx: Transition,
    idx: int,
    min_amount_out: u128,
    ckb: u128,
    sudt: u128,
) -> Result<(u128, u128), Error> {
    let req = tx.inputs@[idx];
    let out = tx.outputs@[idx];
    if req.data@.len() != 16 {
        Err(Error::Encoding)
    } else {
        let sudt_paid = le_bytes_val(req.data@) as u128;
        if sudt_paid == 0 {
            Err(Error::SwapInputSUDTAmountEqZero)
        } else if !(out.type_script is None) {
            Err(Error::InvalidOutputTypeHash)
        } else {
            let ckb_got = out.capacity as int - req.capacity as int;
            if ckb_got < min_amount_out as int {
                Err(Error::InvalidSwapOutputCapacity)
            } else if out.data@.len() != 0 {
                Err(Error::InvalidSwapOutputData)
            } else if ckb == 0 && ckb_got == 0 {
                Err(Error::BuySUDTFailed)
            } else if sudt_paid as int != swap_required(
                ckb_got,
                FEE_RATE as int,
                sudt as int,
                ckb as int,
                THOUSAND as int,
            ) {
                Err(Error::BuySUDTFailed)
            } else if ckb + ckb_got > u128::MAX {
                Err(Error::InvalidCKBReserve)
            } else if sudt_paid > sudt {
                Err(Error::InvalidSUDTReserve)
            } else {
                Ok(((ckb + ckb_got) as u128, (sudt - sudt_paid) as u128))
            }
        }
    }
}

/// One step of the swap fold: parse the order's argument block, require the
/// result record to be owned by the order's declared owner, and apply the
/// direction the order's own asset class selects.
pub open spec fn spec_swap_step(tx: Transition, idx: int, ckb: u128, sudt: u128) -> Result<
    (u128, u128),
    Error,
> {
    let req = tx.inputs@[idx];
    let args = req.lock.args@;
    if args.len() != SWAP_ORDER_ARGS_LEN as nat {
        Err(Error::Encoding)
    } else if idx >= tx.outputs@.len() {
        Err(Error::IndexOutOfBound)
    } else if tx.outputs@[idx].lock.hash@ != swap_args_user_lock_hash(args) {
        Err(Error::InvalidOutputLockHash)
    } else if req.type_script is None {
        spec_swap_ckb_to_sudt(
            tx,
            idx,
            swap_args_min_amount_out(args),
            swap_args_sudt_type_hash(args),
            ckb,
            sudt,
        )
    } else {
        spec_swap_sudt_to_ckb(tx, idx, swap_args_min_amount_out(args), ckb, sudt)
    }
}

/// Folds `remaining` consumed positions starting at `idx` through
/// `spec_swap_step`, threading the reserve accumulator; swaps settled later
/// are priced against reserves already adjusted by earlier ones.  Running
/// past the end of the consumed list rejects the transition.
pub open spec fn spec_swap_fold(
    tx: Transition,
    idx: int,
    remaining: int,
    ckb: u128,
    sudt: u128,
) -> Result<(u128, u128), Error>
    decreases remaining,
{
    if remaining <= 0 {
        Ok((ckb, sudt))
    } else if idx >= tx.inputs@.len() {
        Err(Error::IndexOutOfBound)
    } else {
        match spec_swap_step(tx, idx, ckb, sudt) {
            Err(e) => Err(e),
            Ok(st) => spec_swap_fold(tx, idx + 1, remaining - 1, st.0, st.1),
        }
    }
}

/// The reserve deltas one settled swap order applies, read from the records
/// alone: a native-to-token swap removes the native amount paid in excess of
/// the order's storage cost and adds the token balance of its result record;
/// a token-to-native swap adds the native gain of its result record and
/// removes the token balance of the order's payload.
pub open spec fn swap_order_deltas(tx: Transition, idx: int) -> (int, int) {
    let req = tx.inputs@[idx];
    let out = tx.outputs@[idx];
    if req.type_script is None {
        (
            -(req.capacity as int - SUDT_CAPACITY as int),
            (le_bytes_val(out.data@) as u128) as int,
        )
    } else {
        (
            out.capacity as int - req.capacity as int,
            -((le_bytes_val(req.data@) as u128) as int),
        )
    }
}

/// The summed reserve deltas of `remaining` swap orders starting at `idx`.
pub open spec fn swap_delta_sum(tx: Transition, idx: int, remaining: int) -> (int, int)
    decreases remaining,
{
    if remaining <= 0 {
        (0, 0)
    } else {
        let d = swap_order_deltas(tx, idx);
        let rest = swap_delta_sum(tx, idx + 1, remaining - 1);
        (d.0 + rest.0, d.1 + rest.1)
    }
}

/// Batch additivity of swap settlement: when the fold accepts, each reserve
/// moves by exactly the sum of the orders' individually-computed deltas,
/// even though each order was priced against the reserves left by the
/// orders before it.
pub proof fn lemma_swap_fold_additivity(
    tx: Transition,
    idx: int,
    remaining: int,
    ckb: u128,
    sudt: u128,
    st: (u128, u128),
)
    requires
        spec_swap_fold(tx, idx, remaining, ckb, sudt) == Ok::<(u128, u128), Error>(st),
    ensures
        st.0 as int == ckb + swap_delta_sum(tx, idx, remaining).0,
        st.1 as int == sudt + swap_delta_sum(tx, idx, remaining).1,
    decreases remaining,
{
    if remaining <= 0 {
    } else {
        match spec_swap_step(tx, idx, ckb, sudt) {
            Err(_) => {
                assert(false);
            },
            Ok(st1) => {
                assert(st1.0 as int == ckb + swap_order_deltas(tx, idx).0 && st1.1 as int == sudt
                    + swap_order_deltas(tx, idx).1);
                lemma_swap_fold_additivity(tx, idx + 1, remaining - 1, st1.0, st1.1, st);
            },
        }
    }
}

/// Verifies one native-to-token swap and advances the reserves; on rejection
/// they are unchanged.
pub fn verify_ckb_exchange_sudt(
    tx: &Transition,
    index: usize,
    req_lock_args: &SwapOrderLockArgs,
    ckb_reserve: &mut u128,
    sudt_reserve: &mut u128,
) -> (r: Result<(), Error>)
    requires
        index < tx.inputs@.len(),
        index < tx.outputs@.len(),
    ensures
        match spec_swap_ckb_to_sudt(
            *tx,
            index as int,
            req_lock_args.min_amount_out,
            req_lock_args.sudt_type_hash@,
            *old(ckb_reserve),
            *old(sudt_reserve),
        ) {
            Ok(st) => r == Ok::<(), Error>(()) && *final(ckb_reserve) == st.0
                && *final(sudt_reserve) == st.1,
            Err(e) => r == Err::<(), Error>(e) && *final(ckb_reserve) == *old(ckb_reserve)
                && *final(sudt_reserve) == *old(sudt_reserve),
        },
{
    let req = &tx.inputs[index];
    let out = &tx.outputs[index];
    if req.capacity <= SUDT_CAPACITY {
        return Err(Error::RequestCapcityEqSUDTCapcity);
    }
    let ckb_paid = req.capacity - SUDT_CAPACITY;
    let out_type = match cell_type_hash(out) {
        Ok(h) => h,
        Err(e) => return Err(e),
    };
    if !bytes_eq(req_lock_args.sudt_type_hash.as_slice(), out_type.as_slice()) {
        return Err(Error::InvalidOutputTypeHash);
    }
    if req.capacity <= out.capacity || req.capacity - out.capacity != ckb_paid {
        return Err(Error::InvalidSwapOutputCapacity);
    }
    let sudt_got = match decode_u128(out.data.as_slice()) {
        Ok(v) => v,
        Err(e) => return Err(e),
    };
    if sudt_got < req_lock_args.min_amount_out {
        return Err(Error::SwapAmountLessThanMin);
    }
    let ckb0 = *ckb_reserve;
    let sudt0 = *sudt_reserve;
    if sudt0 == 0 && sudt_got == 0 {
        return Err(Error::SellSUDTFailed);
    }
    match swap_quotient_floor(sudt_got, FEE_RATE, ckb0, sudt0, THOUSAND) {
        None => {
            return Err(Error::SellSUDTFailed);
        },
        Some(q) => {
            if !(q < u128::MAX && ckb_paid as u128 == q + 1) {
                return Err(Error::SellSUDTFailed);
            }
        },
    }
    if ckb_paid as u128 > ckb0 {
        return Err(Error::InvalidCKBReserve);
    }
    if sudt0 > u128::MAX - sudt_got {
        return Err(Error::InvalidSUDTReserve);
    }
    *ckb_reserve = ckb0 - ckb_paid as u128;
    *sudt_reserve = sudt0 + sudt_got;
    Ok(())
}

/// Verifies one token-to-native swap and advances the reserves; on rejection
/// they are unchanged.
pub fn verify_sudt_exchange_ckb(
    tx: &Transition,
    index: usize,
    req_lock_args: &SwapOrderLockArgs,
    ckb_reserve: &mut u128,
    sudt_reserve: &mut u128,
) -> (r: Result<(), Error>)
    requires
        index < tx.inputs@.len(),
        index < tx.outputs@.len(),
    ensures
        match spec_swap_sudt_to_ckb(
            *tx,
            index as int,
            req_lock_args.min_amount_out,
            *old(ckb_reserve),
            *old(sudt_reserve),
        ) {
            Ok(st) => r == Ok::<(), Error>(()) && *final(ckb_reserve) == st.0
                && *final(sudt_reserve) == st.1,
            Err(e) => r == Err::<(), Error>(e) && *final(ckb_reserve) == *old(ckb_reserve)
                && *final(sudt_reserve) == *old(sudt_reserve),
        },
{
    let req = &tx.inputs[index];
    let out = &tx.outputs[index];
    let sudt_paid = match decode_u128(req.data.as_slice()) {
        Ok(v) => v,
        Err(e) => return Err(e),
    };
    if sudt_paid == 0 {
        return Err(Error::SwapInputSUDTAmountEqZero);
    }
    if out.type_script.is_some() {
        return Err(Error::InvalidOutputTypeHash);
    }
    if out.capacity < req.capacity {
        return Err(Error::InvalidSwapOutputCapacity);
    }
    let ckb_got = (out.capacity - req.capacity) as u128;
    if ckb_got < req_lock_args.min_amount_out {
        return Err(Error::InvalidSwapOutputCapacity);
    }
    if out.data.len() != 0 {
        return Err(Error::InvalidSwapOutputData);
    }
    let ckb0 = *ckb_reserve;
    let sudt0 = *sudt_reserve;
    if ckb0 == 0 && ckb_got == 0 {
        return Err(Error::BuySUDTFailed);
    }
    match swap_quotient_floor(ckb_got, FEE_RATE, sudt0, ckb0, THOUSAND) {
        None => {
            return Err(Error::BuySUDTFailed);
        },
        Some(q) => {
            if !(q < u128::MAX && sudt_paid == q + 1) {
                return Err(Error::BuySUDTFailed);
            }
        },
    }
    if ckb0 > u128::MAX - ckb_got {
        return Err(Error::InvalidCKBReserve);
    }
    if sudt_paid > sudt0 {
        return Err(Error::InvalidSUDTReserve);
    }
    *ckb_reserve = ckb0 + ckb_got;
    *sudt_reserve = sudt0 - sudt_paid;
    Ok(())
}

/// Settles every swap order between positions `begin` and `end` in ascending
/// record position, threading the reserve accumulator through the two
/// direction verifiers; on rejection the accumulator is unchanged and the
/// one failed check's reason is returned.
#[verifier::loop_isolation(false)]
pub fn swap_tx_verification(
    tx: &Transition,
    begin: usize,
    swap_cell_count: u64,
    ckb_reserve: &mut u128,
    sudt_reserve: &mut u128,
) -> (r: Result<(), Error>)
    ensures
        match spec_swap_fold(
            *tx,
            begin as int,
            swap_cell_count as int,
            *old(ckb_reserve),
            *old(sudt_reserve),
        ) {
            Ok(st) => r == Ok::<(), Error>(()) && *final(ckb_reserve) == st.0
                && *final(sudt_reserve) == st.1,
            Err(e) => r == Err::<(), Error>(e) && *final(ckb_reserve) == *old(ckb_reserve)
                && *final(sudt_reserve) == *old(sudt_reserve),
        },
{
    let mut c = *ckb_reserve;
    let mut s = *sudt_reserve;
    let ghost c0 = c;
    let ghost s0 = s;
    let mut idx = begin;
    let mut remaining = swap_cell_count;
    while remaining > 0
        invariant
            begin <= idx,
            spec_swap_fold(*tx, idx as int, remaining as int, c, s) == spec_swap_fold(
                *tx,
                begin as int,
                swap_cell_count as int,
                c0,
                s0,
            ),
        decreases remaining,
    {
        if idx >= tx.inputs.len() {
            return Err(Error::IndexOutOfBound);
        }
        let req = &tx.inputs[idx];
        let req_lock_args = match SwapOrderLockArgs::from_raw(req.lock.args.as_slice()) {
            Ok(a) => a,
            Err(e) => return Err(e),
        };
        if idx >= tx.outputs.len() {
            return Err(Error::IndexOutOfBound);
        }
        let out = &tx.outputs[idx];
        if !bytes_eq(out.lock.hash.as_slice(), req_lock_args.user_lock_hash.as_slice()) {
            return Err(Error::InvalidOutputLockHash);
        }
        let step_result: Result<(), Error>;
        if req.type_script.is_none() {
            step_result = verify_ckb_exchange_sudt(tx, idx, &req_lock_args, &mut c, &mut s);
        } else {
            step_result = verify_sudt_exchange_ckb(tx, idx, &req_lock_args, &mut c, &mut s);
        }
        match step_result {
            Ok(_) => {},
            Err(e) => return Err(e),
        }
        idx = idx + 1;
        remaining = remaining - 1;
    }
    *ckb_reserve = c;
    *sudt_reserve = s;
    Ok(())
}

} // verus!
