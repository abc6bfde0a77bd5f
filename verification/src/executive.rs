//! How the outcome of a storage-collateral check is reported by the
//! virtual machine.

use vstd::prelude::*;

verus! {

/// A 256-bit unsigned number, as four 64-bit limbs from the lowest up.
#[derive(Clone, Copy, Debug)]
pub struct U256 {
    pub limbs: [u64; 4],
}

/// What the check of an account's storage collateral found.
#[derive(Clone, Copy, Debug)]
pub enum CollateralCheckResult {
    /// The storage used exceeds the limit that the transaction set.
    ExceedStorageLimit { limit: U256, required: U256 },
    /// The account's balance does not cover the collateral.
    NotEnoughBalance { required: U256, got: U256 },
    /// The collateral is covered.
    Valid,
}

/// An error of the virtual machine that stems from storage collateral.
#[derive(Clone, Copy, Debug)]
pub enum VmError {
    ExceedStorageLimit,
    NotEnoughBalanceForStorage { required: U256, got: U256 },
}

/// What the virtual machine reports for a check's outcome: nothing for a
/// valid one, and for the others the error of the same kind, with the
/// amounts of a missing balance kept.
pub open spec fn vm_result_of(check: CollateralCheckResult) -> Result<(), VmError> {
    match check {
        CollateralCheckResult::ExceedStorageLimit { .. } => Err(VmError::ExceedStorageLimit),
        CollateralCheckResult::NotEnoughBalance { required, got } => Err(
            VmError::NotEnoughBalanceForStorage { required, got },
        ),
        CollateralCheckResult::Valid => Ok(()),
    }
}

pub trait CollateralCheckResultToVmResult: Sized {
    /// The check that this value stands for.
    spec fn check(self) -> CollateralCheckResult;

    fn into_vm_result(self) -> (result: Result<(), VmError>)
        ensures
            result == vm_result_of(self.check()),
    ;
}

impl CollateralCheckResultToVmResult for CollateralCheckResult {
    open spec fn check(self) -> CollateralCheckResult {
        self
    }

    fn into_vm_result(self) -> (result: Result<(), VmError>) {
        match self {
            CollateralCheckResult::ExceedStorageLimit { .. } => Err(VmError::ExceedStorageLimit),
            CollateralCheckResult::NotEnoughBalance { required, got } => Err(
                VmError::NotEnoughBalanceForStorage { required, got },
            ),
            CollateralCheckResult::Valid => Ok(()),
        }
    }
}

} // verus!
