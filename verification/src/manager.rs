//! The manager: the entry point that the user calls.
//!
//! The pool checks the health of a position before it calls the receiver back,
//! and by then withdrawn collateral has reached nobody. A receiver that held the
//! debt asset would have nothing to sell. So the collateral asset is the one
//! that is flash-borrowed: the receiver holds something sellable the moment it
//! is called, and since the pool nets the flows of one asset before it settles,
//! the withdrawal of the collateral cancels against the repayment of the loan.
use crate::error::ManagerError;
use crate::types::{
    Address, Arming, FlashLoan, Positions, Request, REQ_REPAY, REQ_WITHDRAW_COLLATERAL,
};
use vstd::prelude::*;

verus! {

/// What the manager keeps on the ledger.
#[derive(Clone, Copy, Debug)]
pub struct Manager {
    /// The receiver that it arms, once there is one.
    pub receiver: Option<Address>,
}

/// The arguments of one deleverage.
#[derive(Clone, Copy, Debug, PartialEq, Eq)]
pub struct DeleverageCall {
    pub user: Address,
    pub pool: Address,
    pub router: Address,
    pub collateral: Address,
    pub debt: Address,
    /// Collateral to flash-borrow and sell.
    pub flash_amount: i128,
    /// Collateral withdrawn and repaid; the two legs net to zero.
    pub unwind_amount: i128,
    /// Debt to repay.
    pub repay_amount: i128,
    /// Floor on the swap's output.
    pub min_out: i128,
    pub deadline: u64,
}

impl DeleverageCall {
    /// The first rule that the call breaks, given the receiver that the manager
    /// has stored.
    pub open spec fn refusal(self, receiver: Option<Address>) -> Option<ManagerError> {
        if self.flash_amount <= 0 || self.unwind_amount <= 0 || self.repay_amount <= 0 {
            Some(ManagerError::InvalidAmount)
        } else if self.min_out <= 0 {
            Some(ManagerError::MissingSlippageBound)
        } else if self.unwind_amount < self.flash_amount {
            Some(ManagerError::UnwindBelowFlash)
        } else if self.collateral == self.debt {
            Some(ManagerError::SameAsset)
        } else if self.min_out < self.repay_amount {
            Some(ManagerError::ProceedsBelowRepayment)
        } else if receiver is None {
            Some(ManagerError::NotInitialised)
        } else {
            None
        }
    }

    /// The call meets every rule that does not depend on what is stored.
    pub open spec fn sound(self) -> bool {
        &&& 0 < self.flash_amount <= self.unwind_amount
        &&& 0 < self.repay_amount <= self.min_out
        &&& self.collateral != self.debt
    }

    /// The instructions that the receiver is armed with.
    pub open spec fn arming(self) -> Arming {
        Arming {
            router: self.router,
            collateral: self.collateral,
            debt: self.debt,
            flash_amount: self.flash_amount,
            min_out: self.min_out,
            deadline: self.deadline,
        }
    }

    /// The loan that is asked of the pool: of the collateral asset.
    pub open spec fn loan(self, receiver: Address) -> FlashLoan {
        FlashLoan { contract: receiver, asset: self.collateral, amount: self.flash_amount }
    }

    /// What the pool is to do with the position: repay the debt from the
    /// proceeds, free the collateral, and settle the loan against it.
    pub open spec fn requests(self) -> Seq<Request> {
        seq![
            Request {
                request_type: REQ_REPAY,
                address: self.debt,
                amount: self.repay_amount,
            },
            Request {
                request_type: REQ_WITHDRAW_COLLATERAL,
                address: self.collateral,
                amount: self.unwind_amount,
            },
            Request {
                request_type: REQ_REPAY,
                address: self.collateral,
                amount: self.unwind_amount,
            },
        ]
    }

    /// Holds the call against the rules, in their order. Gives the receiver to
    /// arm, or the first rule that the call breaks.
    pub fn vet(&self, receiver: Option<Address>) -> (vetted: Result<Address, ManagerError>)
        ensures
            vetted == (match self.refusal(receiver) {
                Some(error) => Err(error),
                None => Ok(receiver->0),
            }),
            vetted is Ok ==> self.sound(),
    {
        if self.flash_amount <= 0 || self.unwind_amount <= 0 || self.repay_amount <= 0 {
            return Err(ManagerError::InvalidAmount);
        }
        if self.min_out <= 0 {
            return Err(ManagerError::MissingSlippageBound);
        }
        if self.unwind_amount < self.flash_amount {
            return Err(ManagerError::UnwindBelowFlash);
        }
        if self.collateral == self.debt {
            return Err(ManagerError::SameAsset);
        }
        if self.min_out < self.repay_amount {
            return Err(ManagerError::ProceedsBelowRepayment);
        }
        Manager { receiver }.receiver()
    }
}

/// How far a deleverage has come.
#[derive(Debug)]
pub enum DeleverageStage {
    /// The user has yet to authorise the call; `stored` is the receiver that the
    /// manager has, if any.
    Authorising { stored: Option<Address>, call: DeleverageCall },
    /// The receiver has yet to be armed.
    Arming { receiver: Address, call: DeleverageCall },
    /// The pool has yet to be asked for the loan.
    Borrowing { receiver: Address, call: DeleverageCall },
    /// The pool has settled.
    Settled { positions: Positions },
}

/// The call that a deleverage waits for.
#[derive(Debug, PartialEq, Eq)]
pub enum ManagerAction {
    /// Demand of the host that `address` authorised this call.
    RequireAuth { address: Address },
    /// Call `arm(user, arming)` of the receiver.
    Arm { receiver: Address, user: Address, arming: Arming },
    /// Call `flash_loan(from, loan, requests)` of the pool.
    FlashLoan { pool: Address, from: Address, loan: FlashLoan, requests: Vec<Request> },
    /// Nothing is left to do but to hand back the positions.
    Return,
}

/// The reply to such a call.
#[derive(Debug)]
pub enum ManagerReply {
    /// The call went through.
    Done,
    /// The pool settled, and left these positions.
    Positions(Positions),
}

impl DeleverageStage {
    /// `action` is the call that the stage waits for.
    pub open spec fn asks(self, action: ManagerAction) -> bool {
        match self {
            DeleverageStage::Authorising { call, .. } => action == ManagerAction::RequireAuth {
                address: call.user,
            },
            DeleverageStage::Arming { receiver, call } => action == ManagerAction::Arm {
                receiver,
                user: call.user,
                arming: call.arming(),
            },
            DeleverageStage::Borrowing { receiver, call } => {
                &&& action matches ManagerAction::FlashLoan { pool, from, loan, requests }
                &&& pool == call.pool
                &&& from == call.user
                &&& loan == call.loan(receiver)
                &&& requests@ == call.requests()
            },
            DeleverageStage::Settled { .. } => action == ManagerAction::Return,
        }
    }

    /// `reply` answers the call that the stage waits for.
    pub open spec fn accepts(self, reply: ManagerReply) -> bool {
        match self {
            DeleverageStage::Authorising { .. } => reply is Done,
            DeleverageStage::Arming { .. } => reply is Done,
            DeleverageStage::Borrowing { .. } => reply is Positions,
            DeleverageStage::Settled { .. } => false,
        }
    }

    /// The stage that follows once `reply` has come.
    pub open spec fn next(self, reply: ManagerReply) -> Result<DeleverageStage, ManagerError>
        recommends
            self.accepts(reply),
    {
        match self {
            DeleverageStage::Authorising { stored, call } => match call.refusal(stored) {
                Some(error) => Err(error),
                None => Ok(DeleverageStage::Arming { receiver: stored->0, call }),
            },
            DeleverageStage::Arming { receiver, call } => Ok(
                DeleverageStage::Borrowing { receiver, call },
            ),
            DeleverageStage::Borrowing { .. } => Ok(
                DeleverageStage::Settled { positions: reply->Positions_0 },
            ),
            DeleverageStage::Settled { .. } => Ok(self),
        }
    }

    /// Only a sound call gets past the authorisation.
    pub open spec fn sound(self) -> bool {
        match self {
            DeleverageStage::Authorising { .. } => true,
            DeleverageStage::Arming { call, .. } => call.sound(),
            DeleverageStage::Borrowing { call, .. } => call.sound(),
            DeleverageStage::Settled { .. } => true,
        }
    }
}

/// A deleverage under way.
#[derive(Debug)]
pub struct Deleverage {
    stage: DeleverageStage,
}

impl View for Deleverage {
    type V = DeleverageStage;

    closed spec fn view(&self) -> DeleverageStage {
        self.stage
    }
}

impl Deleverage {
    #[verifier::type_invariant]
    spec fn sound(self) -> bool {
        self.stage.sound()
    }

    /// The call to make next. No receiver is armed and no loan is asked for
    /// unless the call is sound.
    pub fn action(&self) -> (action: ManagerAction)
        ensures
            self@.asks(action),
            self@.sound(),
    {
        proof {
            use_type_invariant(self);
        }
        match &self.stage {
            DeleverageStage::Authorising { call, .. } => ManagerAction::RequireAuth {
                address: call.user,
            },
            DeleverageStage::Arming { receiver, call } => ManagerAction::Arm {
                receiver: *receiver,
                user: call.user,
                arming: Arming {
                    router: call.router,
                    collateral: call.collateral,
                    debt: call.debt,
                    flash_amount: call.flash_amount,
                    min_out: call.min_out,
                    deadline: call.deadline,
                },
            },
            DeleverageStage::Borrowing { receiver, call } => {
                let requests: Vec<Request> = vec![
                    Request {
                        request_type: REQ_REPAY,
                        address: call.debt,
                        amount: call.repay_amount,
                    },
                    Request {
                        request_type: REQ_WITHDRAW_COLLATERAL,
                        address: call.collateral,
                        amount: call.unwind_amount,
                    },
                    Request {
                        request_type: REQ_REPAY,
                        address: call.collateral,
                        amount: call.unwind_amount,
                    },
                ];
                assert(requests@ =~= call.requests());
                ManagerAction::FlashLoan {
                    pool: call.pool,
                    from: call.user,
                    loan: FlashLoan {
                        contract: *receiver,
                        asset: call.collateral,
                        amount: call.flash_amount,
                    },
                    requests,
                }
            },
            DeleverageStage::Settled { .. } => ManagerAction::Return,
        }
    }

    /// Whether `reply` answers the call that the deleverage waits for.
    pub fn accepts(&self, reply: &ManagerReply) -> (accepted: bool)
        ensures
            accepted == self@.accepts(*reply),
    {
        match (&self.stage, reply) {
            (DeleverageStage::Authorising { .. }, ManagerReply::Done) => true,
            (DeleverageStage::Arming { .. }, ManagerReply::Done) => true,
            (DeleverageStage::Borrowing { .. }, ManagerReply::Positions(_)) => true,
            _ => false,
        }
    }

    /// Goes on once `reply` has come. An error aborts the transaction.
    pub fn resume(self, reply: ManagerReply) -> (resumed: Result<Deleverage, ManagerError>)
        requires
            self@.accepts(reply),
        ensures
            match self@.next(reply) {
                Ok(stage) => resumed is Ok && resumed->Ok_0@ == stage,
                Err(error) => resumed == Err::<Deleverage, _>(error),
            },
    {
        proof {
            use_type_invariant(&self);
        }
        match (self.stage, reply) {
            (DeleverageStage::Authorising { stored, call }, _) => match call.vet(stored) {
                Ok(receiver) => Ok(
                    Deleverage { stage: DeleverageStage::Arming { receiver, call } },
                ),
                Err(error) => Err(error),
            },
            (DeleverageStage::Arming { receiver, call }, _) => Ok(
                Deleverage { stage: DeleverageStage::Borrowing { receiver, call } },
            ),
            (DeleverageStage::Borrowing { .. }, ManagerReply::Positions(positions)) => Ok(
                Deleverage { stage: DeleverageStage::Settled { positions } },
            ),
            (stage, _) => Ok(Deleverage { stage }),
        }
    }

    /// The positions that the pool left.
    pub fn finish(self) -> (positions: Option<Positions>)
        ensures
            positions == (match self@ {
                DeleverageStage::Settled { positions } => Some(positions),
                _ => None,
            }),
    {
        match self.stage {
            DeleverageStage::Settled { positions } => Some(positions),
            _ => None,
        }
    }
}

impl Manager {
    /// The manager once `receiver` has been stored, or why it cannot be.
    pub open spec fn initialised(self, receiver: Address) -> Result<Manager, ManagerError> {
        match self.receiver {
            Some(_) => Err(ManagerError::AlreadyInitialised),
            None => Ok(Manager { receiver: Some(receiver) }),
        }
    }

    /// Stores the receiver, once.
    pub fn init(&mut self, receiver: Address) -> (done: Result<(), ManagerError>)
        ensures
            match old(self).initialised(receiver) {
                Ok(manager) => done is Ok && *final(self) == manager,
                Err(error) => done == Err::<(), _>(error) && *final(self) == *old(self),
            },
    {
        if self.receiver.is_some() {
            return Err(ManagerError::AlreadyInitialised);
        }
        self.receiver = Some(receiver);
        Ok(())
    }

    /// The receiver that the manager arms.
    pub fn receiver(&self) -> (receiver: Result<Address, ManagerError>)
        ensures
            receiver == (match self.receiver {
                Some(receiver) => Ok(receiver),
                None => Err(ManagerError::NotInitialised),
            }),
    {
        match self.receiver {
            Some(receiver) => Ok(receiver),
            None => Err(ManagerError::NotInitialised),
        }
    }

    /// Reduces or clears a debt position by selling collateral, without the user
    /// providing any capital. Begins with the user's authorisation; the rules
    /// are held against the call after that.
    ///
    /// Set `repay_amount` below the outstanding debt for a partial deleverage.
    /// The pool refunds any overage, so passing more than is owed is safe.
    ///
    /// * `flash_amount`: collateral to flash-borrow and sell.
    /// * `unwind_amount`: collateral withdrawn and repaid; the two legs net to
    ///   zero. At least `flash_amount`. A small excess absorbs the gap between
    ///   the pool's rounding up of a loan and down of a repayment, which
    ///   otherwise leaves dust debt behind.
    /// * `repay_amount`: debt to repay.
    /// * `min_out`: floor on the swap's output. At least `repay_amount`.
    pub fn deleverage(
        &self,
        user: Address,
        pool: Address,
        router: Address,
        collateral: Address,
        debt: Address,
        flash_amount: i128,
        unwind_amount: i128,
        repay_amount: i128,
        min_out: i128,
        deadline: u64,
    ) -> (deleverage: Deleverage)
        ensures
            deleverage@ == (DeleverageStage::Authorising {
                stored: self.receiver,
                call: DeleverageCall {
                    user,
                    pool,
                    router,
                    collateral,
                    debt,
                    flash_amount,
                    unwind_amount,
                    repay_amount,
                    min_out,
                    deadline,
                },
            }),
    {
        let call = DeleverageCall {
            user,
            pool,
            router,
            collateral,
            debt,
            flash_amount,
            unwind_amount,
            repay_amount,
            min_out,
            deadline,
        };
        Deleverage { stage: DeleverageStage::Authorising { stored: self.receiver, call } }
    }
}

} // verus!
