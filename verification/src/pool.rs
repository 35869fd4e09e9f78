//! Pool lifecycle: the one-time bootstrap of a snapshot/reserve pair and the
//! cross-checks that tie the two records together on every steady-state
//! transition.

use vstd::prelude::*;
use vstd::slice::slice_subrange;

use crate::codec::InfoCellData;
use crate::error::Error;
use crate::record::{bytes_eq, cell_type_hash, Record, Transition};
use crate::{POOL_CAPACITY, SUDT_CELL_DATA_LEN};

verus! {

/// The 32-byte digest that the chain's standard hash assigns to a byte
/// string; what it is on given bytes is the hash collaborator's business,
/// not this crate's.
pub uninterp spec fn ckb_blake2b(data: Seq<u8>) -> Seq<u8>;

/// Relies on `blake2b_ref::Blake2bBuilder`: a 32-byte Blake2b digest under
/// the chain's standard personalization, a function of the input bytes
/// alone.
#[verifier::external_body]
fn ckb_blake2b_256(data: &Vec<u8>) -> (r: Vec<u8>)
    ensures
        r@ == ckb_blake2b(data@),
        r@.len() == 32,
{
    let mut hasher = blake2b_ref::Blake2bBuilder::new(32).personal(b"ckb-default-hash").build();
    hasher.update(data.as_slice());
    let mut out = [0u8; 32];
    hasher.finalize(&mut out);
    out.to_vec()
}

/// The bytes whose digest binds a snapshot/reserve pair: the native-asset
/// tag `"ckb"` followed by the reserve record's asset-class hash.
pub open spec fn spec_binding_preimage(pool_type_hash: Seq<u8>) -> Seq<u8> {
    seq![99u8, 107u8, 98u8] + pool_type_hash
}

/// Computes the front half of the ownership-predicate arguments that a newly
/// created pool must carry: the digest binding it to its reserve's asset
/// class.
pub fn info_lock_args_prefix(pool_type_hash: &Vec<u8>) -> (r: Vec<u8>)
    ensures
        r@ == ckb_blake2b(spec_binding_preimage(pool_type_hash@)),
        r@.len() == 32,
{
    let mut buf: Vec<u8> = Vec::new();
    buf.push(99);
    buf.push(107);
    buf.push(98);
    let n = pool_type_hash.len();
    let mut i: usize = 0;
    while i < n
        invariant
            i <= n,
            n == pool_type_hash@.len(),
            buf@ =~= seq![99u8, 107u8, 98u8] + pool_type_hash@.take(i as int),
        decreases n - i,
    {
        buf.push(pool_type_hash[i]);
        i = i + 1;
    }
    proof {
        assert(pool_type_hash@.take(n as int) =~= pool_type_hash@);
        assert(buf@ =~= spec_binding_preimage(pool_type_hash@));
    }
    ckb_blake2b_256(&buf)
}

/// Whether a record's asset class is governed by the given program.
pub open spec fn is_info_type(r: Record, code_hash: Seq<u8>) -> bool {
    match r.type_script {
        Some(ts) => ts.code_hash@ == code_hash,
        None => false,
    }
}

/// How many records of the list carry an asset class governed by the given
/// program.
pub open spec fn spec_count_info(recs: Seq<Record>, code_hash: Seq<u8>) -> int
    decreases recs.len(),
{
    if recs.len() == 0 {
        0
    } else {
        spec_count_info(recs.drop_last(), code_hash) + if is_info_type(recs.last(), code_hash) {
            1int
        } else {
            0int
        }
    }
}

/// Whether a record's ownership predicate is the given program.
pub open spec fn has_lock_program(r: Record, code_hash: Seq<u8>) -> bool {
    r.lock.code_hash@ == code_hash
}

/// How many records of the list are owned by the given lock program.
pub open spec fn spec_count_lock(recs: Seq<Record>, code_hash: Seq<u8>) -> int
    decreases recs.len(),
{
    if recs.len() == 0 {
        0
    } else {
        spec_count_lock(recs.drop_last(), code_hash) + if has_lock_program(recs.last(), code_hash) {
            1int
        } else {
            0int
        }
    }
}

fn count_info_records(recs: &Vec<Record>, code_hash: &Vec<u8>) -> (n: usize)
    ensures
        n as int == spec_count_info(recs@, code_hash@),
{
    let len = recs.len();
    let mut n: usize = 0;
    let mut i: usize = 0;
    while i < len
        invariant
            i <= len,
            len == recs@.len(),
            n <= i,
            n as int == spec_count_info(recs@.take(i as int), code_hash@),
        decreases len - i,
    {
        proof {
            assert(recs@.take(i as int + 1).drop_last() =~= recs@.take(i as int));
            assert(recs@.take(i as int + 1).last() == recs@[i as int]);
        }
        let matches_program: bool = match &recs[i].type_script {
            Some(ts) => bytes_eq(ts.code_hash.as_slice(), code_hash.as_slice()),
            None => false,
        };
        if matches_program {
            n = n + 1;
        }
        i = i + 1;
    }
    proof {
        assert(recs@.take(len as int) =~= recs@);
    }
    n
}

fn count_lock_records(recs: &Vec<Record>, code_hash: &Vec<u8>) -> (n: usize)
    ensures
        n as int == spec_count_lock(recs@, code_hash@),
{
    let len = recs.len();
    let mut n: usize = 0;
    let mut i: usize = 0;
    while i < len
        invariant
            i <= len,
            len == recs@.len(),
            n <= i,
            n as int == spec_count_lock(recs@.take(i as int), code_hash@),
        decreases len - i,
    {
        proof {
            assert(recs@.take(i as int + 1).drop_last() =~= recs@.take(i as int));
            assert(recs@.take(i as int + 1).last() == recs@[i as int]);
        }
        if bytes_eq(recs[i].lock.code_hash.as_slice(), code_hash.as_slice()) {
            n = n + 1;
        }
        i = i + 1;
    }
    proof {
        assert(recs@.take(len as int) =~= recs@);
    }
    n
}

/// Counts the snapshot records among the consumed and the produced records:
/// the pair that classifies a transition as bootstrap (none consumed, one
/// produced) or steady-state (one of each).
pub fn get_info_count(tx: &Transition, info_type_code_hash: &Vec<u8>) -> (r: (usize, usize))
    ensures
        r.0 as int == spec_count_info(tx.inputs@, info_type_code_hash@),
        r.1 as int == spec_count_info(tx.outputs@, info_type_code_hash@),
{
    let input_count = count_info_records(&tx.inputs, info_type_code_hash);
    let output_count = count_info_records(&tx.outputs, info_type_code_hash);
    (input_count, output_count)
}

/// What the snapshot/reserve cross-check decides: the reserve record's
/// native balance must be the protocol base plus the snapshot's native
/// reserve, and its payload must equal the snapshot's token reserve.
pub open spec fn spec_basic_verify(
    pool_capacity: u64,
    pool_data: u128,
    ckb_reserve: u128,
    sudt_reserve: u128,
) -> Result<(), Error> {
    if pool_capacity as int != POOL_CAPACITY as int + ckb_reserve as int {
        Err(Error::CKBReserveAmountDiff)
    } else if pool_data != sudt_reserve {
        Err(Error::SUDTReserveAmountDiff)
    } else {
        Ok(())
    }
}

/// Checks that the consumed reserve record's two encodings of the reserves
/// agree with the consumed snapshot; mandatory on every steady-state path.
pub fn basic_verify(
    info_in_data: &InfoCellData,
    pool_in_cell: &Record,
    pool_in_data: u128,
) -> (r: Result<(), Error>)
    ensures
        r == spec_basic_verify(
            pool_in_cell.capacity,
            pool_in_data,
            info_in_data.ckb_reserve,
            info_in_data.sudt_reserve,
        ),
{
    if info_in_data.ckb_reserve > u128::MAX - POOL_CAPACITY {
        return Err(Error::CKBReserveAmountDiff);
    }
    if pool_in_cell.capacity as u128 != POOL_CAPACITY + info_in_data.ckb_reserve {
        return Err(Error::CKBReserveAmountDiff);
    }
    if pool_in_data != info_in_data.sudt_reserve {
        return Err(Error::SUDTReserveAmountDiff);
    }
    Ok(())
}

/// What the bootstrap verifier decides for a transition that consumes no
/// snapshot and produces exactly one.  The uniqueness commitment is judged
/// by the environment and handed in as a verdict; the produced snapshot and
/// reserve pair must share one ownership predicate whose arguments bind, by
/// digest, the pair to its own asset classes; and the reserve payload must
/// be at least one balance wide.
pub open spec fn spec_info_creation(
    tx: Transition,
    lock_code_hash: Seq<u8>,
    type_id_valid: bool,
) -> Result<(), Error> {
    if !type_id_valid {
        Err(Error::InvalidTypeID)
    } else if tx.outputs@.len() < 2 {
        Err(Error::IndexOutOfBound)
    } else {
        let info_out = tx.outputs@[0];
        let pool_out = tx.outputs@[1];
        match pool_out.type_script {
            None => Err(Error::MissingTypeScript),
            Some(pool_ts) => {
                if spec_count_lock(tx.outputs@, lock_code_hash) != 2 {
                    Err(Error::InvalidInfoLockCountInOutput)
                } else if info_out.lock.args@.len() < 64 {
                    Err(Error::LengthNotEnough)
                } else if info_out.lock.args@.subrange(0, 32) != ckb_blake2b(
                    spec_binding_preimage(pool_ts.hash@),
                ) {
                    Err(Error::InfoLockArgsFrontHalfMismatch)
                } else {
                    match info_out.type_script {
                        None => Err(Error::MissingTypeScript),
                        Some(info_ts) => {
                            if info_out.lock.args@.subrange(32, 64) != info_ts.hash@ {
                                Err(Error::InfoLockArgsSecondHalfMismatch)
                            } else if info_out.lock.hash@ != pool_out.lock.hash@ {
                                Err(Error::InfoCreationCellLockHashMismatch)
                            } else if pool_out.data@.len() < SUDT_CELL_DATA_LEN as nat {
                                Err(Error::CellDataLenTooShort)
                            } else {
                                Ok(())
                            }
                        },
                    }
                }
            },
        }
    }
}

/// Verifies the one-time creation of a pool: exactly two produced records
/// carry the pool's ownership-predicate program, and that predicate's
/// arguments are the digest of the reserve's asset class joined with the
/// snapshot's own asset class, so an unrelated snapshot/reserve pair cannot
/// be substituted.
pub fn verify_info_creation(
    tx: &Transition,
    info_lock_code_hash: &Vec<u8>,
    type_id_valid: bool,
) -> (r: Result<(), Error>)
    ensures
        r == spec_info_creation(*tx, info_lock_code_hash@, type_id_valid),
{
    if !type_id_valid {
        return Err(Error::InvalidTypeID);
    }
    if tx.outputs.len() < 2 {
        return Err(Error::IndexOutOfBound);
    }
    let info_out = &tx.outputs[0];
    let pool_out = &tx.outputs[1];
    let pool_type_hash = match cell_type_hash(pool_out) {
        Ok(h) => h,
        Err(e) => return Err(e),
    };
    let output_info_lock_count = count_lock_records(&tx.outputs, info_lock_code_hash);
    if output_info_lock_count != 2 {
        return Err(Error::InvalidInfoLockCountInOutput);
    }
    if info_out.lock.args.len() < 64 {
        return Err(Error::LengthNotEnough);
    }
    let expected_front = info_lock_args_prefix(pool_type_hash);
    if !bytes_eq(
        slice_subrange(info_out.lock.args.as_slice(), 0, 32),
        expected_front.as_slice(),
    ) {
        return Err(Error::InfoLockArgsFrontHalfMismatch);
    }
    let info_type_hash = match cell_type_hash(info_out) {
        Ok(h) => h,
        Err(e) => return Err(e),
    };
    if !bytes_eq(
        slice_subrange(info_out.lock.args.as_slice(), 32, 64),
        info_type_hash.as_slice(),
    ) {
        return Err(Error::InfoLockArgsSecondHalfMismatch);
    }
    if !bytes_eq(info_out.lock.hash.as_slice(), pool_out.lock.hash.as_slice()) {
        return Err(Error::InfoCreationCellLockHashMismatch);
    }
    if pool_out.data.len() < SUDT_CELL_DATA_LEN {
        return Err(Error::CellDataLenTooShort);
    }
    Ok(())
}

} // verus!
