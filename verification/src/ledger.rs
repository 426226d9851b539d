//! A model of what surrounds the contracts: token balances, and how the pool
//! settles a list of requests. It is what the laws speak of; nothing here runs.
use crate::callback::{CallbackStage, CallbackState, ReceiverAction, ReceiverReply};
use crate::error::ReceiverError;
use crate::types::{Address, Request, REQ_REPAY, REQ_WITHDRAW_COLLATERAL};
use vstd::prelude::*;

verus! {

/// Who holds how much of which token. The key is the token, then the holder.
#[verifier::ext_equal]
pub struct Ledger {
    pub balances: Map<(Address, Address), int>,
}

impl Ledger {
    /// What `holder` has of `token`.
    pub open spec fn balance(self, token: Address, holder: Address) -> int {
        if self.balances.contains_key((token, holder)) {
            self.balances[(token, holder)]
        } else {
            0
        }
    }

    /// No balance is negative.
    pub open spec fn solvent(self) -> bool {
        forall|token: Address, holder: Address| #[trigger] self.balance(token, holder) >= 0
    }

    /// The balances once `amount` of `token` has moved.
    pub open spec fn moved(
        self,
        token: Address,
        from: Address,
        to: Address,
        amount: int,
    ) -> Ledger {
        let taken = self.balances.insert((token, from), self.balance(token, from) - amount);
        Ledger {
            balances: taken.insert(
                (token, to),
                (Ledger { balances: taken }).balance(token, to) + amount,
            ),
        }
    }

    /// The balances once `from` has handed all it has of `token` to `to`.
    pub open spec fn swept(self, token: Address, from: Address, to: Address) -> Ledger {
        if self.balance(token, from) > 0 {
            self.moved(token, from, to, self.balance(token, from))
        } else {
            self
        }
    }

    /// `reply` and `after` are an outcome that `action` may have. A token reports
    /// and moves balances as asked. A router may do to the balances whatever it
    /// likes, and may report what it likes.
    pub open spec fn answers(
        self,
        action: ReceiverAction,
        reply: ReceiverReply,
        after: Ledger,
    ) -> bool {
        match action {
            ReceiverAction::FindPair { .. } => reply is Pair,
            ReceiverAction::AuthoriseTransfer(_) => reply is Done && after == self,
            ReceiverAction::ReadBalance { token, holder } => {
                &&& reply matches ReceiverReply::Balance(balance)
                &&& balance == self.balance(token, holder)
                &&& after == self
            },
            ReceiverAction::Swap { .. } => reply is Swapped,
            ReceiverAction::Send(transfer) => {
                &&& reply is Done
                &&& after == self.moved(
                    transfer.token,
                    transfer.from,
                    transfer.to,
                    transfer.amount as int,
                )
            },
            ReceiverAction::Return => false,
        }
    }
}

/// A course that a callback takes: in each state it asks for an action, the
/// action is answered, and the next state follows.
pub struct Course {
    pub states: Seq<CallbackState>,
    pub actions: Seq<ReceiverAction>,
    pub replies: Seq<ReceiverReply>,
    pub ledgers: Seq<Ledger>,
}

impl Course {
    /// Step `i` is made as the state asks and as the tokens allow.
    pub open spec fn step(self, i: int) -> bool {
        &&& self.states[i].asks(self.actions[i])
        &&& self.ledgers[i].answers(self.actions[i], self.replies[i], self.ledgers[i + 1])
        &&& self.states[i].accepts(self.replies[i])
        &&& self.states[i].next(self.replies[i]) == Ok::<
            CallbackState,
            ReceiverError,
        >(self.states[i + 1])
    }

    /// The course begins where a callback does, every step is made, and no token
    /// lets a balance go below zero.
    pub open spec fn possible(self) -> bool {
        &&& self.states.len() > 0
        &&& self.states[0].stage == CallbackStage::FindingPair
        &&& self.actions.len() == self.states.len() - 1
        &&& self.replies.len() == self.states.len() - 1
        &&& self.ledgers.len() == self.states.len()
        &&& forall|i: int| 0 <= i < self.ledgers.len() ==> (#[trigger] self.ledgers[i]).solvent()
        &&& forall|i: int| 0 <= i < self.states.len() - 1 ==> #[trigger] self.step(i)
    }

    /// The course runs to its end.
    pub open spec fn settles(self) -> bool {
        self.states.last().stage == CallbackStage::Settled
    }

    /// The balances just before the swap.
    pub open spec fn before_swap(self) -> Ledger {
        self.ledgers[3]
    }

    /// The balances just after the swap.
    pub open spec fn after_swap(self) -> Ledger {
        self.ledgers[4]
    }
}

/// What the pool sends the user of `token` when it settles `requests`, less what
/// it pulls from the user: flows of one asset are netted, and a repayment beyond
/// what is `owed` is not taken.
pub open spec fn net_flow(requests: Seq<Request>, owed: int, token: Address) -> int
    decreases requests.len(),
{
    if requests.len() == 0 {
        0
    } else {
        let request = requests[0];
        let rest = requests.skip(1);
        if request.address != token {
            net_flow(rest, owed, token)
        } else if request.request_type == REQ_WITHDRAW_COLLATERAL {
            request.amount + net_flow(rest, owed, token)
        } else if request.request_type == REQ_REPAY {
            let taken = vstd::math::min(request.amount as int, owed);
            net_flow(rest, owed - taken, token) - taken
        } else {
            net_flow(rest, owed, token)
        }
    }
}

/// Request type of a loan in the pool's interface.
pub const REQ_BORROW: u32 = 4;

/// What a user has with the pool in one asset, and what of it has passed between
/// the pool and the user.
pub struct Holding {
    /// Collateral in the pool.
    pub supplied: int,
    /// Debt to the pool.
    pub owed: int,
    /// What the pool sends the user, less what it pulls from the user.
    pub sent: int,
}

impl Holding {
    /// The holding once the pool has processed a request of this asset, where the
    /// model knows the request's type.
    pub open spec fn processed(self, request: Request) -> Option<Holding> {
        if request.request_type == REQ_WITHDRAW_COLLATERAL {
            Some(
                Holding {
                    supplied: self.supplied - request.amount,
                    sent: self.sent + request.amount,
                    ..self
                },
            )
        } else if request.request_type == REQ_BORROW {
            Some(
                Holding {
                    owed: self.owed + request.amount,
                    sent: self.sent + request.amount,
                    ..self
                },
            )
        } else if request.request_type == REQ_REPAY {
            let taken = vstd::math::min(request.amount as int, self.owed);
            Some(Holding { owed: self.owed - taken, sent: self.sent - taken, ..self })
        } else {
            None
        }
    }

    /// The holding once the pool has processed all of `requests`. A list that holds
    /// a request of a type that the model does not know has no outcome in it,
    /// whatever asset that request is of.
    pub open spec fn settled(self, requests: Seq<Request>, token: Address) -> Option<Holding>
        decreases requests.len(),
    {
        if requests.len() == 0 {
            Some(self)
        } else {
            match self.processed(requests[0]) {
                None => None,
                Some(next) => if requests[0].address == token {
                    next.settled(requests.skip(1), token)
                } else {
                    self.settled(requests.skip(1), token)
                },
            }
        }
    }
}

} // verus!
