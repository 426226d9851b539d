//! The values that pass between the contracts.
use std::collections::BTreeMap;
use vstd::prelude::*;

verus! {

/// Request type of a collateral withdrawal in the pool's interface.
pub const REQ_WITHDRAW_COLLATERAL: u32 = 3;

/// Request type of a debt repayment in the pool's interface.
pub const REQ_REPAY: u32 = 5;

/// A Stellar account or contract, by its strkey.
///
/// Two addresses are the same exactly when their strkeys are.
#[derive(Clone, Copy, Debug)]
pub struct Address {
    /// The strkey: 56 base-32 characters.
    pub strkey: [u8; 56],
}

impl vstd::std_specs::cmp::PartialEqSpecImpl for Address {
    open spec fn obeys_eq_spec() -> bool {
        true
    }

    open spec fn eq_spec(&self, other: &Self) -> bool {
        *self == *other
    }
}

impl PartialEq for Address {
    fn eq(&self, other: &Self) -> (same: bool) {
        let mut i: usize = 0;
        while i < 56
            invariant
                i <= 56,
                forall|j: int| 0 <= j < i ==> self.strkey[j] == other.strkey[j],
            decreases 56 - i,
        {
            if self.strkey[i] != other.strkey[i] {
                return false;
            }
            i += 1;
        }
        assert(self.strkey =~= other.strkey);
        true
    }
}

impl Eq for Address {

}

/// One entry of the list that the pool processes. The field names are those of
/// the pool's wire format.
#[derive(Clone, Copy, Debug, PartialEq, Eq)]
pub struct Request {
    pub request_type: u32,
    pub address: Address,
    pub amount: i128,
}

/// What the pool lends, and the contract that it lends it to and calls back.
#[derive(Clone, Copy, Debug, PartialEq, Eq)]
pub struct FlashLoan {
    pub contract: Address,
    pub asset: Address,
    pub amount: i128,
}

/// A user's positions in the pool, each map from reserve index to token amount.
#[derive(Clone, Debug, PartialEq, Eq)]
pub struct Positions {
    pub liabilities: BTreeMap<u32, i128>,
    pub collateral: BTreeMap<u32, i128>,
    pub supply: BTreeMap<u32, i128>,
}

/// One-shot instructions for a single callback.
#[derive(Clone, Copy, Debug, PartialEq, Eq)]
pub struct Arming {
    /// The router that sells the collateral.
    pub router: Address,
    /// The asset that is flash-borrowed and sold.
    pub collateral: Address,
    /// The asset that is bought.
    pub debt: Address,
    /// How much of the collateral is sold.
    pub flash_amount: i128,
    /// The least that the sale may bring in.
    pub min_out: i128,
    /// When the router must have traded by.
    pub deadline: u64,
}

/// What tells one transaction from another. Whoever drives the contracts gives the
/// calls of one transaction the same mark, and calls of different transactions
/// different ones.
#[derive(Clone, Copy, Debug, PartialEq, Eq, Structural)]
pub struct Transaction {
    pub mark: u64,
}

/// Instructions as the receiver keeps them, with the transaction that armed them.
#[derive(Clone, Copy, Debug, PartialEq, Eq)]
pub struct Armed {
    pub arming: Arming,
    pub armed_in: Transaction,
}

/// A call of a token's `transfer(from, to, amount)`.
#[derive(Clone, Copy, Debug, PartialEq, Eq)]
pub struct Transfer {
    pub token: Address,
    pub from: Address,
    pub to: Address,
    pub amount: i128,
}

} // verus!
