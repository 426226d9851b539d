//! The errors that the two contracts raise, with the numbers that they go by on
//! the ledger.
use vstd::prelude::*;

verus! {

/// Why the manager refused a call.
#[derive(Copy, Clone, Debug, Eq, PartialEq, PartialOrd, Ord, Structural)]
pub enum ManagerError {
    AlreadyInitialised,
    NotInitialised,
    /// An amount argument was zero or negative.
    InvalidAmount,
    /// `min_out` was not set. Trims never executes an unbounded swap.
    MissingSlippageBound,
    /// Collateral unwound must cover the flash loan, or the legs will not net.
    UnwindBelowFlash,
    /// Collateral and debt must be different assets.
    SameAsset,
    /// The floor on the swap's output must cover the repayment, or the pool
    /// would pull the shortfall from the user's own wallet.
    ProceedsBelowRepayment,
}

impl ManagerError {
    /// The number of the error in the contract's interface.
    pub open spec fn number(self) -> u32 {
        match self {
            ManagerError::AlreadyInitialised => 1,
            ManagerError::NotInitialised => 2,
            ManagerError::InvalidAmount => 3,
            ManagerError::MissingSlippageBound => 4,
            ManagerError::UnwindBelowFlash => 5,
            ManagerError::SameAsset => 6,
            ManagerError::ProceedsBelowRepayment => 7,
        }
    }

    /// The number of the error in the contract's interface.
    pub fn code(self) -> (code: u32)
        ensures
            code == self.number(),
    {
        match self {
            ManagerError::AlreadyInitialised => 1,
            ManagerError::NotInitialised => 2,
            ManagerError::InvalidAmount => 3,
            ManagerError::MissingSlippageBound => 4,
            ManagerError::UnwindBelowFlash => 5,
            ManagerError::SameAsset => 6,
            ManagerError::ProceedsBelowRepayment => 7,
        }
    }
}

/// Why the receiver refused a call.
#[derive(Copy, Clone, Debug, Eq, PartialEq, PartialOrd, Ord, Structural)]
pub enum ReceiverError {
    AlreadyInitialised,
    NotInitialised,
    /// `exec_op` ran without a matching arming.
    NotArmed,
    /// The callback does not match what was armed.
    ArmingMismatch,
    /// The swap returned less than the floor.
    SlippageExceeded,
    /// The contract still held a balance after settling.
    ResidualBalance,
}

impl ReceiverError {
    /// The number of the error in the contract's interface.
    pub open spec fn number(self) -> u32 {
        match self {
            ReceiverError::AlreadyInitialised => 1,
            ReceiverError::NotInitialised => 2,
            ReceiverError::NotArmed => 3,
            ReceiverError::ArmingMismatch => 4,
            ReceiverError::SlippageExceeded => 5,
            ReceiverError::ResidualBalance => 6,
        }
    }

    /// The number of the error in the contract's interface.
    pub fn code(self) -> (code: u32)
        ensures
            code == self.number(),
    {
        match self {
            ReceiverError::AlreadyInitialised => 1,
            ReceiverError::NotInitialised => 2,
            ReceiverError::NotArmed => 3,
            ReceiverError::ArmingMismatch => 4,
            ReceiverError::SlippageExceeded => 5,
            ReceiverError::ResidualBalance => 6,
        }
    }
}

} // verus!
