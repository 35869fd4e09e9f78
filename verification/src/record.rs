//! Typed view over a transition.
//!
//! A record is an immutable ledger entry: a native-token balance, an opaque
//! payload, an optional asset-class script, and an ownership-predicate
//! script.  A transition consumes one ordered list of records and produces
//! another; position 0 is the pool snapshot, position 1 the reserve record,
//! position 2 a carrier record for batching overhead, and positions 3 and up
//! carry orders and their results.

use vstd::prelude::*;
use vstd::slice::slice_index_get;

use crate::error::Error;

verus! {

/// A script: the program that governs a record (by code hash), the hash of
/// the whole script, and its argument bytes.
#[derive(Debug, Clone)]
pub struct Script {
    pub code_hash: Vec<u8>,
    pub hash: Vec<u8>,
    pub args: Vec<u8>,
}

/// One immutable ledger entry.
#[derive(Debug, Clone)]
pub struct Record {
    /// Native-token balance.
    pub capacity: u64,
    /// Opaque payload bytes.
    pub data: Vec<u8>,
    /// Asset-class script; `None` for a plain native-token record.
    pub type_script: Option<Script>,
    /// Ownership predicate.
    pub lock: Script,
}

/// A self-contained transition: the consumed records, the produced records,
/// and the witness bytes attached to the first consumed record.
#[derive(Debug, Clone)]
pub struct Transition {
    pub inputs: Vec<Record>,
    pub outputs: Vec<Record>,
    pub witness: Option<Vec<u8>>,
}

/// The asset-class hash of a record, or `MissingTypeScript` for a record
/// without one.
pub open spec fn spec_type_hash(r: Record) -> Result<Seq<u8>, Error> {
    match r.type_script {
        Some(s) => Ok(s.hash@),
        None => Err(Error::MissingTypeScript),
    }
}

/// Reads the asset-class hash of a record; a record without an asset class
/// is rejected.
pub fn cell_type_hash(r: &Record) -> (res: Result<&Vec<u8>, Error>)
    ensures
        res matches Ok(h) ==> spec_type_hash(*r) == Ok::<Seq<u8>, Error>(h@),
        res matches Err(e) ==> spec_type_hash(*r) == Err::<Seq<u8>, Error>(e),
{
    match &r.type_script {
        Some(s) => Ok(&s.hash),
        None => Err(Error::MissingTypeScript),
    }
}

/// Byte-string equality.
pub fn bytes_eq(a: &[u8], b: &[u8]) -> (r: bool)
    ensures
        r == (a@ == b@),
{
    let n = a.len();
    if n != b.len() {
        assert(a@.len() != b@.len());
        return false;
    }
    let mut i: usize = 0;
    while i < n
        invariant
            n == a@.len() == b@.len(),
            i <= n,
            forall|j: int| 0 <= j < i ==> a@[j] == b@[j],
        decreases n - i,
    {
        if *slice_index_get(a, i) != *slice_index_get(b, i) {
            assert(a@[i as int] != b@[i as int]);
            return false;
        }
        i = i + 1;
    }
    proof {
        assert(a@ =~= b@);
    }
    true
}

} // verus!
