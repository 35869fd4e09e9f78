//! Rejection reasons.  Every failed check is fatal for the whole transition;
//! the verdict carries exactly one of these codes.

use vstd::prelude::*;

verus! {

/// One terminal rejection reason per failed transition; an accepted
/// transition produces no other observable output.
#[derive(Debug, Clone, Copy, PartialEq, Eq, Structural)]
pub enum Error {
    IndexOutOfBound,
    ItemMissing,
    LengthNotEnough,
    Encoding,
    MissingTypeScript,
    MoreThanOneLiquidityPool,
    MintInitialLiquidityFailed,
    LiquidityArgsUserLockHashMismatch,
    InvalidTypeID,
    VersionDiff,
    SUDTTypeHashMismatch,
    UnknownLiquidity,
    InvalidInfoData,
    SellSUDTFailed,
    BuySUDTFailed,
    InvalidChangeCell,
    InvalidTotalLiquidity,
    InvalidInitialLiquidityTx,
    BurnLiquidityFailed,
    SUDTGotAmountDiff,
    CKBGotAmountDiff,
    InvalidCKBAmount,
    CKBReserveAmountDiff,
    SUDTReserveAmountDiff,
    InvalidCKBReserve,
    InvalidSUDTReserve,
    CKBInjectAmountDiff,
    SUDTInjectAmountDiff,
    LiquidityPoolTokenDiff,
    InfoLockArgsFrontHalfMismatch,
    InfoLockArgsSecondHalfMismatch,
    InfoCreationOutputCellCountMismatch,
    InfoCellHashTypeMismatch,
    CellDataLenTooShort,
    InfoCreationCellLockHashMismatch,
    LiquidityArgsInfoTypeHashMismatch,
    InfoCapacityDiff,
    InAndOutLiquidityDiff,
    InvalidInfoInData,
    LiquiditySUDTTypeHashMismatch,
    AddLiquiditySUDTOutLockHashMismatch,
    InvalidMinCkbInject,
    InvalidMinSUDTInject,
    InvalidMinCkbGot,
    InvalidMinSUDTGot,
    InvalidInfoTypeArgsLen,
    InputCellMoreThanOne,
    AddLiquidityCkbOutLockHashMismatch,
    SUDTCellDataLenTooShort,
    CKBCellDataIsNotEmpty,
    InvalidOutputLockHash,
    RequestCapcityEqSUDTCapcity,
    InvalidOutputTypeHash,
    InvalidSwapOutputCapacity,
    SwapAmountLessThanMin,
    InvalidSwapOutputData,
    SwapInputSUDTAmountEqZero,
    InvalidOutputPoolData,
    MintLiquidityEqZero,
    InjectAmountEqZero,
    InvalidInfoLockCountInOutput,
    InvalidOutputPoolCapacity,
    InvalidPoolOutputData,
}

} // verus!
