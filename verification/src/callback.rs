//! The flash-loan callback: sell what was lent, hand the proceeds to the user,
//! keep nothing.
use crate::error::ReceiverError;
use crate::receiver::Receiver;
use crate::types::{Address, Arming, Transfer};
use vstd::prelude::*;

verus! {

/// How far a callback has come.
#[derive(Clone, Copy, Debug, PartialEq, Eq)]
pub enum CallbackStage {
    /// The pair that the router will trade through has yet to be looked up.
    FindingPair,
    /// The router's transfer into `pair` has yet to be authorised.
    Authorising { pair: Address },
    /// The debt-asset balance has yet to be read before the swap.
    Opening,
    /// The swap has yet to be made; `before` is the balance ahead of it.
    Swapping { before: i128 },
    /// The debt-asset balance has yet to be read after the swap.
    Closing { before: i128 },
    /// The debt-asset balance to hand over has yet to be read.
    CountingDebt,
    /// `amount` of the debt asset has yet to be handed over.
    SendingDebt { amount: i128 },
    /// The collateral balance to hand over has yet to be read.
    CountingCollateral,
    /// `amount` of the collateral has yet to be handed over.
    SendingCollateral { amount: i128 },
    /// The debt-asset balance has yet to be seen to be nil.
    CheckingDebt,
    /// The collateral balance has yet to be seen to be nil.
    CheckingCollateral,
    /// Everything was handed over.
    Settled,
}

/// The call that a callback waits for.
#[derive(Debug, PartialEq, Eq)]
pub enum ReceiverAction {
    /// Call `router_pair_for(token_a, token_b)` of the router.
    FindPair { router: Address, token_a: Address, token_b: Address },
    /// Authorise, as this contract, one transfer that another contract makes,
    /// at the top level and with nothing nested beneath it.
    ///
    /// The router moves its input with `transfer(from = us)` and not with
    /// `transfer_from`, so it is granted no allowance. But the router issues
    /// that transfer, so this contract's own call does not authorise it.
    AuthoriseTransfer(Transfer),
    /// Call `balance(holder)` of the token.
    ReadBalance { token: Address, holder: Address },
    /// Call `swap_exact_tokens_for_tokens(amount_in, amount_out_min, path, to,
    /// deadline)` of the router.
    Swap {
        router: Address,
        amount_in: i128,
        amount_out_min: i128,
        path: Vec<Address>,
        to: Address,
        deadline: u64,
    },
    /// Make the transfer.
    Send(Transfer),
    /// Nothing is left to do.
    Return,
}

/// The reply to such a call.
#[derive(Debug)]
pub enum ReceiverReply {
    /// The call went through.
    Done,
    /// The address of the pair.
    Pair(Address),
    /// The holder's balance.
    Balance(i128),
    /// The swap went through, and the router reports these amounts.
    Swapped(Vec<i128>),
}

/// A callback, as it stands between two calls.
#[derive(Clone, Copy, Debug, PartialEq, Eq)]
pub struct CallbackState {
    /// The receiver itself.
    pub me: Address,
    /// The user that the pool names as the borrower.
    pub caller: Address,
    /// The instructions that were armed for that user.
    pub arming: Arming,
    pub stage: CallbackStage,
}

impl CallbackState {
    /// The same callback at another stage.
    pub open spec fn at(self, stage: CallbackStage) -> CallbackState {
        CallbackState { stage, ..self }
    }

    /// Reads this contract's balance of `token`.
    pub open spec fn reads(self, token: Address) -> ReceiverAction {
        ReceiverAction::ReadBalance { token, holder: self.me }
    }

    /// `action` is the call that the stage waits for.
    pub open spec fn asks(self, action: ReceiverAction) -> bool {
        match self.stage {
            CallbackStage::FindingPair => action == ReceiverAction::FindPair {
                router: self.arming.router,
                token_a: self.arming.collateral,
                token_b: self.arming.debt,
            },
            CallbackStage::Authorising { pair } => action == ReceiverAction::AuthoriseTransfer(
                Transfer {
                    token: self.arming.collateral,
                    from: self.me,
                    to: pair,
                    amount: self.arming.flash_amount,
                },
            ),
            CallbackStage::Swapping { .. } => {
                &&& action matches ReceiverAction::Swap {
                    router,
                    amount_in,
                    amount_out_min,
                    path,
                    to,
                    deadline,
                }
                &&& router == self.arming.router
                &&& amount_in == self.arming.flash_amount
                &&& amount_out_min == self.arming.min_out
                &&& path@ == seq![self.arming.collateral, self.arming.debt]
                &&& to == self.me
                &&& deadline == self.arming.deadline
            },
            CallbackStage::Opening => action == self.reads(self.arming.debt),
            CallbackStage::Closing { .. } => action == self.reads(self.arming.debt),
            CallbackStage::CountingDebt => action == self.reads(self.arming.debt),
            CallbackStage::CheckingDebt => action == self.reads(self.arming.debt),
            CallbackStage::CountingCollateral => action == self.reads(self.arming.collateral),
            CallbackStage::CheckingCollateral => action == self.reads(self.arming.collateral),
            CallbackStage::SendingDebt { amount } => action == ReceiverAction::Send(
                Transfer { token: self.arming.debt, from: self.me, to: self.caller, amount },
            ),
            CallbackStage::SendingCollateral { amount } => action == ReceiverAction::Send(
                Transfer { token: self.arming.collateral, from: self.me, to: self.caller, amount },
            ),
            CallbackStage::Settled => action == ReceiverAction::Return,
        }
    }

    /// `reply` answers the call that the stage waits for. The balance after the
    /// swap is one whose difference to the balance before it can be counted.
    pub open spec fn accepts(self, reply: ReceiverReply) -> bool {
        match self.stage {
            CallbackStage::FindingPair => reply is Pair,
            CallbackStage::Authorising { .. } => reply is Done,
            CallbackStage::Opening => reply is Balance,
            CallbackStage::Swapping { .. } => reply is Swapped,
            CallbackStage::Closing { before } => {
                &&& reply matches ReceiverReply::Balance(after)
                &&& i128::MIN <= after - before <= i128::MAX
            },
            CallbackStage::CountingDebt => reply is Balance,
            CallbackStage::SendingDebt { .. } => reply is Done,
            CallbackStage::CountingCollateral => reply is Balance,
            CallbackStage::SendingCollateral { .. } => reply is Done,
            CallbackStage::CheckingDebt => reply is Balance,
            CallbackStage::CheckingCollateral => reply is Balance,
            CallbackStage::Settled => false,
        }
    }

    /// The state that follows once `reply` has come. What the router reports of
    /// the swap plays no part: only the balances do.
    pub open spec fn next(self, reply: ReceiverReply) -> Result<CallbackState, ReceiverError>
        recommends
            self.accepts(reply),
    {
        match self.stage {
            CallbackStage::FindingPair => Ok(
                self.at(CallbackStage::Authorising { pair: reply->Pair_0 }),
            ),
            CallbackStage::Authorising { .. } => Ok(self.at(CallbackStage::Opening)),
            CallbackStage::Opening => Ok(
                self.at(CallbackStage::Swapping { before: reply->Balance_0 }),
            ),
            CallbackStage::Swapping { before } => Ok(self.at(CallbackStage::Closing { before })),
            CallbackStage::Closing { before } => {
                if reply->Balance_0 - before < self.arming.min_out {
                    Err(ReceiverError::SlippageExceeded)
                } else {
                    Ok(self.at(CallbackStage::CountingDebt))
                }
            },
            CallbackStage::CountingDebt => match Receiver::swept(
                self.arming.debt,
                self.me,
                self.caller,
                reply->Balance_0,
            ) {
                Some(transfer) => Ok(
                    self.at(CallbackStage::SendingDebt { amount: transfer.amount }),
                ),
                None => Ok(self.at(CallbackStage::CountingCollateral)),
            },
            CallbackStage::SendingDebt { .. } => Ok(self.at(CallbackStage::CountingCollateral)),
            CallbackStage::CountingCollateral => match Receiver::swept(
                self.arming.collateral,
                self.me,
                self.caller,
                reply->Balance_0,
            ) {
                Some(transfer) => Ok(
                    self.at(CallbackStage::SendingCollateral { amount: transfer.amount }),
                ),
                None => Ok(self.at(CallbackStage::CheckingDebt)),
            },
            CallbackStage::SendingCollateral { .. } => Ok(self.at(CallbackStage::CheckingDebt)),
            CallbackStage::CheckingDebt => {
                if reply->Balance_0 != 0 {
                    Err(ReceiverError::ResidualBalance)
                } else {
                    Ok(self.at(CallbackStage::CheckingCollateral))
                }
            },
            CallbackStage::CheckingCollateral => {
                if reply->Balance_0 != 0 {
                    Err(ReceiverError::ResidualBalance)
                } else {
                    Ok(self.at(CallbackStage::Settled))
                }
            },
            CallbackStage::Settled => Ok(self),
        }
    }
}

/// A callback under way.
#[derive(Debug)]
pub struct Callback {
    state: CallbackState,
}

impl View for Callback {
    type V = CallbackState;

    closed spec fn view(&self) -> CallbackState {
        self.state
    }
}

impl Callback {
    /// A callback of which nothing has been done yet.
    pub(crate) fn begin(me: Address, caller: Address, arming: Arming) -> (callback: Callback)
        ensures
            callback@ == (CallbackState { me, caller, arming, stage: CallbackStage::FindingPair }),
    {
        Callback { state: CallbackState { me, caller, arming, stage: CallbackStage::FindingPair } }
    }

    fn at(self, stage: CallbackStage) -> (callback: Callback)
        ensures
            callback@ == self@.at(stage),
    {
        Callback { state: CallbackState { stage, ..self.state } }
    }

    /// The call to make next.
    pub fn action(&self) -> (action: ReceiverAction)
        ensures
            self@.asks(action),
    {
        let me: Address = self.state.me;
        let caller: Address = self.state.caller;
        let arming: Arming = self.state.arming;
        match self.state.stage {
            CallbackStage::FindingPair => ReceiverAction::FindPair {
                router: arming.router,
                token_a: arming.collateral,
                token_b: arming.debt,
            },
            CallbackStage::Authorising { pair } => ReceiverAction::AuthoriseTransfer(
                Transfer {
                    token: arming.collateral,
                    from: me,
                    to: pair,
                    amount: arming.flash_amount,
                },
            ),
            CallbackStage::Swapping { .. } => {
                let path: Vec<Address> = vec![arming.collateral, arming.debt];
                assert(path@ =~= seq![arming.collateral, arming.debt]);
                ReceiverAction::Swap {
                    router: arming.router,
                    amount_in: arming.flash_amount,
                    amount_out_min: arming.min_out,
                    path,
                    to: me,
                    deadline: arming.deadline,
                }
            },
            CallbackStage::Opening
            | CallbackStage::Closing { .. }
            | CallbackStage::CountingDebt
            | CallbackStage::CheckingDebt => ReceiverAction::ReadBalance {
                token: arming.debt,
                holder: me,
            },
            CallbackStage::CountingCollateral | CallbackStage::CheckingCollateral => {
                ReceiverAction::ReadBalance { token: arming.collateral, holder: me }
            },
            CallbackStage::SendingDebt { amount } => ReceiverAction::Send(
                Transfer { token: arming.debt, from: me, to: caller, amount },
            ),
            CallbackStage::SendingCollateral { amount } => ReceiverAction::Send(
                Transfer { token: arming.collateral, from: me, to: caller, amount },
            ),
            CallbackStage::Settled => ReceiverAction::Return,
        }
    }

    /// Whether `reply` answers the call that the callback waits for.
    pub fn accepts(&self, reply: &ReceiverReply) -> (accepted: bool)
        ensures
            accepted == self@.accepts(*reply),
    {
        match (self.state.stage, reply) {
            (CallbackStage::FindingPair, ReceiverReply::Pair(_)) => true,
            (CallbackStage::Authorising { .. }, ReceiverReply::Done) => true,
            (CallbackStage::Opening, ReceiverReply::Balance(_)) => true,
            (CallbackStage::Swapping { .. }, ReceiverReply::Swapped(_)) => true,
            (CallbackStage::Closing { before }, ReceiverReply::Balance(after)) => {
                after.checked_sub(before).is_some()
            },
            (CallbackStage::CountingDebt, ReceiverReply::Balance(_)) => true,
            (CallbackStage::SendingDebt { .. }, ReceiverReply::Done) => true,
            (CallbackStage::CountingCollateral, ReceiverReply::Balance(_)) => true,
            (CallbackStage::SendingCollateral { .. }, ReceiverReply::Done) => true,
            (CallbackStage::CheckingDebt, ReceiverReply::Balance(_)) => true,
            (CallbackStage::CheckingCollateral, ReceiverReply::Balance(_)) => true,
            _ => false,
        }
    }

    /// Goes on once `reply` has come. An error aborts the transaction.
    pub fn resume(self, reply: ReceiverReply) -> (resumed: Result<Callback, ReceiverError>)
        requires
            self@.accepts(reply),
        ensures
            match self@.next(reply) {
                Ok(state) => resumed is Ok && resumed->Ok_0@ == state,
                Err(error) => resumed == Err::<Callback, _>(error),
            },
    {
        let me: Address = self.state.me;
        let caller: Address = self.state.caller;
        let arming: Arming = self.state.arming;
        match (self.state.stage, reply) {
            (CallbackStage::FindingPair, ReceiverReply::Pair(pair)) => {
                Ok(self.at(CallbackStage::Authorising { pair }))
            },
            (CallbackStage::Authorising { .. }, _) => Ok(self.at(CallbackStage::Opening)),
            (CallbackStage::Opening, ReceiverReply::Balance(before)) => {
                Ok(self.at(CallbackStage::Swapping { before }))
            },
            (CallbackStage::Swapping { before }, _) => {
                Ok(self.at(CallbackStage::Closing { before }))
            },
            (CallbackStage::Closing { before }, ReceiverReply::Balance(after)) => {
                // What arrived, and not what the router says it sent: the router
                // is chosen by the caller, and has just been given the collateral.
                let received: i128 = after - before;
                if received < arming.min_out {
                    return Err(ReceiverError::SlippageExceeded);
                }
                Ok(self.at(CallbackStage::CountingDebt))
            },
            (CallbackStage::CountingDebt, ReceiverReply::Balance(balance)) => {
                match Receiver::sweep(arming.debt, me, caller, balance) {
                    Some(transfer) => Ok(
                        self.at(CallbackStage::SendingDebt { amount: transfer.amount }),
                    ),
                    None => Ok(self.at(CallbackStage::CountingCollateral)),
                }
            },
            (CallbackStage::SendingDebt { .. }, _) => {
                Ok(self.at(CallbackStage::CountingCollateral))
            },
            (CallbackStage::CountingCollateral, ReceiverReply::Balance(balance)) => {
                match Receiver::sweep(arming.collateral, me, caller, balance) {
                    Some(transfer) => Ok(
                        self.at(CallbackStage::SendingCollateral { amount: transfer.amount }),
                    ),
                    None => Ok(self.at(CallbackStage::CheckingDebt)),
                }
            },
            (CallbackStage::SendingCollateral { .. }, _) => {
                Ok(self.at(CallbackStage::CheckingDebt))
            },
            (CallbackStage::CheckingDebt, ReceiverReply::Balance(balance)) => {
                if balance != 0 {
                    return Err(ReceiverError::ResidualBalance);
                }
                Ok(self.at(CallbackStage::CheckingCollateral))
            },
            (CallbackStage::CheckingCollateral, ReceiverReply::Balance(balance)) => {
                if balance != 0 {
                    return Err(ReceiverError::ResidualBalance);
                }
                Ok(self.at(CallbackStage::Settled))
            },
            _ => Ok(self),
        }
    }
}

} // verus!
