//! Trims: a non-custodial position manager for the Blend lending protocol.
//!
//! A borrower who holds collateral and owes a debt asset can sell part of the
//! collateral to repay the debt in one transaction, without bringing capital.
//! The collateral asset is flash-borrowed, sold through a router, and the
//! proceeds repay the debt; the collateral that the repayment frees settles the
//! flash loan.
//!
//! Two contracts take part, because the host forbids re-entry: the [`Manager`],
//! which the user calls, and the [`Receiver`], which the pool calls back. Both
//! alternate decisions with calls to other contracts. The decisions are here:
//! [`Deleverage`] and [`Callback`] are sessions that name the call to make next
//! and take its reply. Whoever drives a session makes the call.
//!
//! An error aborts the transaction, and the host then discards whatever the
//! transaction had changed.

pub mod callback;
pub mod error;
pub mod laws;
pub mod ledger;
pub mod manager;
pub mod receiver;
pub mod types;

pub use callback::{Callback, CallbackStage, CallbackState, ReceiverAction, ReceiverReply};
pub use error::{ManagerError, ReceiverError};
pub use manager::{
    Deleverage, DeleverageCall, DeleverageStage, Manager, ManagerAction, ManagerReply,
};
pub use receiver::{ArmRequest, Receiver, ReceiverState};
pub use types::{Address, Armed, Arming, FlashLoan, Positions, Request, Transaction, Transfer};
