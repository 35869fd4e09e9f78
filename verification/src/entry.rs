//! The orchestrator: classifies a transition as pool bootstrap or
//! steady-state, folds every order through the matching verifier against a
//! running reserve accumulator, and reconciles the accumulator with the
//! produced snapshot and reserve records.

use vstd::prelude::*;

use crate::codec::{
    decode_u128, decode_u64, info_ckb_reserve, info_liquidity_hash, info_sudt_reserve,
    info_total_liquidity, le_bytes_val, InfoCellData, INFO_CELL_DATA_LEN,
};
use crate::error::Error;
use crate::kernel::is_isqrt;
use crate::liquidity::{
    lemma_liquidity_fold_additivity, liquidity_burned_sum, liquidity_delta_sum,
    liquidity_minted_sum, liquidity_tx_verification, spec_initial_mint, spec_liquidity_fold,
    spec_liquidity_step, spec_liquidity_tx, verify_initial_mint,
};
use crate::pool::{
    basic_verify, get_info_count, spec_basic_verify, spec_count_info, spec_info_creation,
    verify_info_creation,
};
use crate::record::Transition;
use crate::swap::{
    lemma_swap_fold_additivity, spec_swap_fold, spec_swap_step, swap_delta_sum,
    swap_tx_verification,
};
use crate::INFO_CAPACITY;

verus! {

/// The verdict on a whole transition.
///
/// A transition that consumes no snapshot and produces exactly one is a
/// bootstrap and must pass the creation checks.  Any other combination than
/// one consumed and one produced snapshot is rejected outright.  A
/// steady-state transition must pass the snapshot/reserve cross-check on the
/// consumed side, settle its orders — the one-time geometric-mean mint when
/// the transition has exactly four produced records and no swaps, otherwise
/// the swap fold followed by the liquidity fold — and finally commit exactly
/// the accumulated reserves in the produced snapshot and reserve records.
pub open spec fn spec_validate(
    tx: Transition,
    info_type_code_hash: Seq<u8>,
    info_lock_code_hash: Seq<u8>,
    type_id_valid: bool,
) -> Result<(), Error> {
    let in_count = spec_count_info(tx.inputs@, info_type_code_hash);
    let out_count = spec_count_info(tx.outputs@, info_type_code_hash);
    if in_count == 0 && out_count == 1 {
        spec_info_creation(tx, info_lock_code_hash, type_id_valid)
    } else if in_count != 1 || out_count != 1 {
        Err(Error::MoreThanOneLiquidityPool)
    } else if tx.inputs@.len() < 1 {
        Err(Error::IndexOutOfBound)
    } else if tx.inputs@[0].data@.len() != INFO_CELL_DATA_LEN as nat {
        Err(Error::Encoding)
    } else if tx.inputs@.len() < 2 {
        Err(Error::IndexOutOfBound)
    } else if tx.inputs@[1].data@.len() != 16 {
        Err(Error::Encoding)
    } else if tx.outputs@.len() < 1 {
        Err(Error::IndexOutOfBound)
    } else if tx.outputs@[0].data@.len() != INFO_CELL_DATA_LEN as nat {
        Err(Error::Encoding)
    } else if tx.outputs@.len() < 2 {
        Err(Error::IndexOutOfBound)
    } else if tx.outputs@[1].data@.len() != 16 {
        Err(Error::Encoding)
    } else {
        let info_in = tx.inputs@[0].data@;
        let info_out = tx.outputs@[0].data@;
        let ckb0 = info_ckb_reserve(info_in);
        let sudt0 = info_sudt_reserve(info_in);
        let liq0 = info_total_liquidity(info_in);
        let liq_hash = info_liquidity_hash(info_in);
        let pool_in_data = le_bytes_val(tx.inputs@[1].data@) as u128;
        let pool_out_data = le_bytes_val(tx.outputs@[1].data@) as u128;
        match spec_basic_verify(tx.inputs@[1].capacity, pool_in_data, ckb0, sudt0) {
            Err(e) => Err(e),
            Ok(_) => match tx.witness {
                None => Err(Error::ItemMissing),
                Some(w) => {
                    if w@.len() != 8 {
                        Err(Error::Encoding)
                    } else {
                        let swap_count = le_bytes_val(w@) as u64;
                        let settled = if tx.outputs@.len() == 4 && swap_count == 0 {
                            spec_initial_mint(tx, liq_hash, ckb0, sudt0, liq0)
                        } else {
                            match spec_swap_fold(tx, 3, swap_count as int, ckb0, sudt0) {
                                Err(e) => Err(e),
                                Ok(cs) => spec_liquidity_tx(
                                    tx,
                                    swap_count as int,
                                    liq_hash,
                                    cs.0,
                                    cs.1,
                                    liq0,
                                ),
                            }
                        };
                        match settled {
                            Err(e) => Err(e),
                            Ok(st) => {
                                if tx.outputs@[0].capacity != INFO_CAPACITY || info_ckb_reserve(
                                    info_out,
                                ) != st.0 {
                                    Err(Error::InvalidCKBReserve)
                                } else if info_sudt_reserve(info_out) != st.1 {
                                    Err(Error::InvalidSUDTReserve)
                                } else if info_total_liquidity(info_out) != st.2 {
                                    Err(Error::InvalidTotalLiquidity)
                                } else if tx.outputs@[1].capacity as int != tx.inputs@[1].capacity
                                    as int + st.0 - ckb0 {
                                    Err(Error::InvalidOutputPoolCapacity)
                                } else if pool_out_data as int != pool_in_data as int + st.1 - sudt0
                                    || pool_out_data != info_sudt_reserve(info_out) {
                                    Err(Error::InvalidPoolOutputData)
                                } else {
                                    Ok(())
                                }
                            },
                        }
                    }
                },
            },
        }
    }
}

/// Decides whether one whole transition is legal: accept, or the one
/// specific reason it is rejected.  The caller passes the program hashes
/// that identify snapshot records and the pool's ownership predicate, and
/// whether the bootstrap uniqueness commitment held; everything else is a
/// function of the transition alone.
pub fn validate_transition(
    tx: &Transition,
    info_type_code_hash: &Vec<u8>,
    info_lock_code_hash: &Vec<u8>,
    type_id_valid: bool,
) -> (r: Result<(), Error>)
    ensures
        r == spec_validate(*tx, info_type_code_hash@, info_lock_code_hash@, type_id_valid),
{
    let counts = get_info_count(tx, info_type_code_hash);
    if counts.0 == 0 && counts.1 == 1 {
        return verify_info_creation(tx, info_lock_code_hash, type_id_valid);
    }
    if counts.0 != 1 || counts.1 != 1 {
        return Err(Error::MoreThanOneLiquidityPool);
    }
    if tx.inputs.len() < 1 {
        return Err(Error::IndexOutOfBound);
    }
    let info_in_data = match InfoCellData::from_raw(tx.inputs[0].data.as_slice()) {
        Ok(d) => d,
        Err(e) => return Err(e),
    };
    if tx.inputs.len() < 2 {
        return Err(Error::IndexOutOfBound);
    }
    let pool_in_data = match decode_u128(tx.inputs[1].data.as_slice()) {
        Ok(v) => v,
        Err(e) => return Err(e),
    };
    if tx.outputs.len() < 1 {
        return Err(Error::IndexOutOfBound);
    }
    let info_out_data = match InfoCellData::from_raw(tx.outputs[0].data.as_slice()) {
        Ok(d) => d,
        Err(e) => return Err(e),
    };
    if tx.outputs.len() < 2 {
        return Err(Error::IndexOutOfBound);
    }
    let pool_out_data = match decode_u128(tx.outputs[1].data.as_slice()) {
        Ok(v) => v,
        Err(e) => return Err(e),
    };
    let mut ckb_reserve = info_in_data.ckb_reserve;
    let mut sudt_reserve = info_in_data.sudt_reserve;
    let mut total_liquidity = info_in_data.total_liquidity;
    match basic_verify(&info_in_data, &tx.inputs[1], pool_in_data) {
        Ok(_) => {},
        Err(e) => return Err(e),
    }
    let witness = match &tx.witness {
        Some(w) => w,
        None => return Err(Error::ItemMissing),
    };
    let swap_cell_count = match decode_u64(witness.as_slice()) {
        Ok(v) => v,
        Err(e) => return Err(e),
    };
    if tx.outputs.len() == 4 && swap_cell_count == 0 {
        match verify_initial_mint(
            tx,
            &info_in_data.liquidity_sudt_type_hash,
            &mut ckb_reserve,
            &mut sudt_reserve,
            &mut total_liquidity,
        ) {
            Ok(_) => {},
            Err(e) => return Err(e),
        }
    } else {
        match swap_tx_verification(tx, 3, swap_cell_count, &mut ckb_reserve, &mut sudt_reserve) {
            Ok(_) => {},
            Err(e) => return Err(e),
        }
        match liquidity_tx_verification(
            tx,
            swap_cell_count,
            &mut ckb_reserve,
            &mut sudt_reserve,
            &mut total_liquidity,
            &info_in_data.liquidity_sudt_type_hash,
        ) {
            Ok(_) => {},
            Err(e) => return Err(e),
        }
    }
    if tx.outputs[0].capacity != INFO_CAPACITY || info_out_data.ckb_reserve != ckb_reserve {
        return Err(Error::InvalidCKBReserve);
    }
    if info_out_data.sudt_reserve != sudt_reserve {
        return Err(Error::InvalidSUDTReserve);
    }
    if info_out_data.total_liquidity != total_liquidity {
        return Err(Error::InvalidTotalLiquidity);
    }
    let pool_in_cap = tx.inputs[1].capacity as u128;
    let pool_out_cap = tx.outputs[1].capacity as u128;
    let cap_ok: bool = if ckb_reserve >= info_in_data.ckb_reserve {
        let delta = ckb_reserve - info_in_data.ckb_reserve;
        delta <= u128::MAX - pool_in_cap && pool_out_cap == pool_in_cap + delta
    } else {
        let delta = info_in_data.ckb_reserve - ckb_reserve;
        pool_in_cap >= delta && pool_out_cap == pool_in_cap - delta
    };
    if !cap_ok {
        return Err(Error::InvalidOutputPoolCapacity);
    }
    let data_ok: bool = if sudt_reserve >= info_in_data.sudt_reserve {
        let delta = sudt_reserve - info_in_data.sudt_reserve;
        delta <= u128::MAX - pool_in_data && pool_out_data == pool_in_data + delta
    } else {
        let delta = info_in_data.sudt_reserve - sudt_reserve;
        pool_in_data >= delta && pool_out_data == pool_in_data - delta
    };
    if !data_ok || pool_out_data != info_out_data.sudt_reserve {
        return Err(Error::InvalidPoolOutputData);
    }
    Ok(())
}

/// The number of swap orders a transition declares in its witness.
pub open spec fn spec_swap_count(tx: Transition) -> int {
    match tx.witness {
        Some(w) => (le_bytes_val(w@) as u64) as int,
        None => 0,
    }
}

/// Idempotent rejection: the verdict — acceptance or the specific rejection
/// reason — is a function of the transition and the configuration alone, so
/// re-validating unchanged inputs yields the same verdict.  There is no
/// hidden state anywhere in the validator.
pub proof fn lemma_validate_deterministic(
    tx1: Transition,
    tx2: Transition,
    info_type_code_hash: Seq<u8>,
    info_lock_code_hash: Seq<u8>,
    type_id_valid: bool,
)
    requires
        tx1 == tx2,
    ensures
        spec_validate(tx1, info_type_code_hash, info_lock_code_hash, type_id_valid)
            == spec_validate(tx2, info_type_code_hash, info_lock_code_hash, type_id_valid),
{
}

/// Conservation over a batched steady-state settlement: an accepted
/// transition moves the issued liquidity by exactly the sum of its mints
/// minus the sum of its burns, and moves each reserve by the sum of the
/// orders' individually-computed deltas — batch additivity, even though
/// every order is priced against the reserves left by the orders before it.
pub proof fn lemma_conservation(
    tx: Transition,
    info_type_code_hash: Seq<u8>,
    info_lock_code_hash: Seq<u8>,
    type_id_valid: bool,
)
    requires
        spec_validate(tx, info_type_code_hash, info_lock_code_hash, type_id_valid) == Ok::<
            (),
            Error,
        >(()),
        !(spec_count_info(tx.inputs@, info_type_code_hash) == 0 && spec_count_info(
            tx.outputs@,
            info_type_code_hash,
        ) == 1),
        !(tx.outputs@.len() == 4 && spec_swap_count(tx) == 0),
    ensures
        ({
            let info_in = tx.inputs@[0].data@;
            let info_out = tx.outputs@[0].data@;
            let liq_hash = info_liquidity_hash(info_in);
            let n = spec_swap_count(tx);
            info_ckb_reserve(info_out) as int == info_ckb_reserve(info_in) as int + swap_delta_sum(
                tx,
                3,
                n,
            ).0 + liquidity_delta_sum(tx, n + 3, n + 3, liq_hash).0 && info_sudt_reserve(info_out)
                as int == info_sudt_reserve(info_in) as int + swap_delta_sum(tx, 3, n).1
                + liquidity_delta_sum(tx, n + 3, n + 3, liq_hash).1 && info_total_liquidity(
                info_out,
            ) as int == info_total_liquidity(info_in) as int + liquidity_minted_sum(
                tx,
                n + 3,
                n + 3,
                liq_hash,
            ) - liquidity_burned_sum(tx, n + 3, liq_hash)
        }),
{
    let info_in = tx.inputs@[0].data@;
    let liq_hash = info_liquidity_hash(info_in);
    let ckb0 = info_ckb_reserve(info_in);
    let sudt0 = info_sudt_reserve(info_in);
    let liq0 = info_total_liquidity(info_in);
    let n = spec_swap_count(tx);
    match tx.witness {
        None => {
            assert(false);
        },
        Some(w) => {
            match spec_swap_fold(tx, 3, n, ckb0, sudt0) {
                Err(_) => {
                    assert(false);
                },
                Ok(cs) => {
                    lemma_swap_fold_additivity(tx, 3, n, ckb0, sudt0, cs);
                    match tx.inputs@[0].type_script {
                        None => {
                            assert(false);
                        },
                        Some(its) => {
                            match tx.inputs@[1].type_script {
                                None => {
                                    assert(false);
                                },
                                Some(pts) => {
                                    match spec_liquidity_fold(
                                        tx,
                                        n + 3,
                                        n + 3,
                                        its.hash@,
                                        pts.hash@,
                                        liq_hash,
                                        cs.0,
                                        cs.1,
                                        liq0,
                                    ) {
                                        Err(_) => {
                                            assert(false);
                                        },
                                        Ok(st) => {
                                            lemma_liquidity_fold_additivity(
                                                tx,
                                                n + 3,
                                                n + 3,
                                                its.hash@,
                                                pts.hash@,
                                                liq_hash,
                                                cs.0,
                                                cs.1,
                                                liq0,
                                                st,
                                            );
                                        },
                                    }
                                },
                            }
                        },
                    }
                },
            }
        },
    }
}

/// Bootstrap exclusivity: an accepted steady-state transition whose
/// consumed snapshot is entirely empty, and which settles at least one
/// order, can only be the one-time initial mint — exactly four produced
/// records, no swaps, and a produced snapshot committing precisely the
/// deposits and their geometric-mean liquidity, exact and nonzero.
pub proof fn lemma_bootstrap_exclusivity(
    tx: Transition,
    info_type_code_hash: Seq<u8>,
    info_lock_code_hash: Seq<u8>,
    type_id_valid: bool,
)
    requires
        spec_validate(tx, info_type_code_hash, info_lock_code_hash, type_id_valid) == Ok::<
            (),
            Error,
        >(()),
        !(spec_count_info(tx.inputs@, info_type_code_hash) == 0 && spec_count_info(
            tx.outputs@,
            info_type_code_hash,
        ) == 1),
        info_ckb_reserve(tx.inputs@[0].data@) == 0,
        info_sudt_reserve(tx.inputs@[0].data@) == 0,
        info_total_liquidity(tx.inputs@[0].data@) == 0,
        tx.inputs@.len() >= 4,
    ensures
        tx.outputs@.len() == 4,
        spec_swap_count(tx) == 0,
        ({
            let info_in = tx.inputs@[0].data@;
            let info_out = tx.outputs@[0].data@;
            match spec_initial_mint(tx, info_liquidity_hash(info_in), 0u128, 0u128, 0u128) {
                Ok(st) => is_isqrt(st.2 as int, st.1 as int * st.0 as int) && st.2 > 0
                    && info_ckb_reserve(info_out) == st.0 && info_sudt_reserve(info_out) == st.1
                    && info_total_liquidity(info_out) == st.2,
                Err(_) => false,
            }
        }),
{
    let info_in = tx.inputs@[0].data@;
    let liq_hash = info_liquidity_hash(info_in);
    let n = spec_swap_count(tx);
    if n > 0 {
        assert(spec_swap_step(tx, 3, 0u128, 0u128) is Err);
        assert(spec_swap_fold(tx, 3, n, 0u128, 0u128) is Err);
        assert(false);
    }
    if tx.outputs@.len() != 4 {
        match tx.inputs@[0].type_script {
            None => {
                assert(false);
            },
            Some(its) => {
                match tx.inputs@[1].type_script {
                    None => {
                        assert(false);
                    },
                    Some(pts) => {
                        assert(spec_liquidity_step(
                            tx,
                            3,
                            3,
                            its.hash@,
                            pts.hash@,
                            liq_hash,
                            0u128,
                            0u128,
                            0u128,
                        ) is Err);
                        assert(spec_liquidity_fold(
                            tx,
                            3,
                            3,
                            its.hash@,
                            pts.hash@,
                            liq_hash,
                            0u128,
                            0u128,
                            0u128,
                        ) is Err);
                        assert(false);
                    },
                }
            },
        }
    }
}

} // verus!
