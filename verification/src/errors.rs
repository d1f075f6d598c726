use vstd::prelude::*;

verus! {

/// The errors the contract answers a refused call with.
#[derive(Clone, Copy, PartialEq, Eq, Structural, Debug)]
pub enum CustomErrors {
    InvalidAmount,
    InvalidReceiver,
    InvalidStartDate,
    InvalidCliffDate,
    InvalidCancellableDate,
    InvalidVestingDates,
    LockupNotStartedYet,
    LockupAlreadyCanceled,
    LockupAlreadySettled,
    LockupNotCancellableYet,
    LockupNotFound,
    LockupIsCanceled,
    SpecifiedAmountIsGreaterThanWithdrawable,
    AmountUnderflows,
}

impl CustomErrors {
    /// The number of the error as the contract reports it.
    pub open spec fn spec_code(self) -> int {
        match self {
            CustomErrors::InvalidAmount => 10,
            CustomErrors::InvalidReceiver => 11,
            CustomErrors::InvalidStartDate => 12,
            CustomErrors::InvalidCliffDate => 13,
            CustomErrors::InvalidCancellableDate => 14,
            CustomErrors::InvalidVestingDates => 15,
            CustomErrors::LockupNotStartedYet => 20,
            CustomErrors::LockupAlreadyCanceled => 21,
            CustomErrors::LockupAlreadySettled => 22,
            CustomErrors::LockupNotCancellableYet => 23,
            CustomErrors::LockupNotFound => 24,
            CustomErrors::LockupIsCanceled => 25,
            CustomErrors::SpecifiedAmountIsGreaterThanWithdrawable => 26,
            CustomErrors::AmountUnderflows => 27,
        }
    }

    /// The number of the error as the contract reports it.
    pub fn code(&self) -> (c: u32)
        ensures
            c == self.spec_code(),
    {
        match self {
            CustomErrors::InvalidAmount => 10,
            CustomErrors::InvalidReceiver => 11,
            CustomErrors::InvalidStartDate => 12,
            CustomErrors::InvalidCliffDate => 13,
            CustomErrors::InvalidCancellableDate => 14,
            CustomErrors::InvalidVestingDates => 15,
            CustomErrors::LockupNotStartedYet => 20,
            CustomErrors::LockupAlreadyCanceled => 21,
            CustomErrors::LockupAlreadySettled => 22,
            CustomErrors::LockupNotCancellableYet => 23,
            CustomErrors::LockupNotFound => 24,
            CustomErrors::LockupIsCanceled => 25,
            CustomErrors::SpecifiedAmountIsGreaterThanWithdrawable => 26,
            CustomErrors::AmountUnderflows => 27,
        }
    }
}

} // verus!
