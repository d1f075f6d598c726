use vstd::prelude::*;

verus! {

/// The keys under which the contract keeps its state.
#[derive(Clone, Copy, PartialEq, Eq, Structural, Debug)]
pub enum DataKey {
    Xlm,
    Admin,
    MonthlyFee,
    Lockup(u64),
    LatestLockupId,
}

} // verus!
