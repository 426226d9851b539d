//! The receiver: the contract that the pool calls back during a flash loan.
//!
//! It is armed for exactly one callback, consumes that arming when invoked, and
//! sweeps every token it touches to the user. It never holds funds.
//!
//! An arming is valid only inside the transaction that armed it. One that its
//! callback never came for may stay in storage, but no later transaction heeds it.
use crate::callback::{Callback, CallbackStage, CallbackState};
use crate::error::ReceiverError;
use crate::types::{Address, Armed, Arming, Transaction, Transfer};
use vstd::prelude::*;

verus! {

/// What the receiver keeps, and the transaction that it is called in.
#[verifier::ext_equal]
pub struct ReceiverState {
    /// The manager permitted to arm the receiver, once there is one.
    pub manager: Option<Address>,
    /// The current transaction.
    pub now: Transaction,
    /// What was armed for each user and not consumed, whichever transaction armed it.
    pub armed: Map<Address, Armed>,
}

impl ReceiverState {
    /// The state once `manager` has been stored, or why it cannot be.
    pub open spec fn init(self, manager: Address) -> Result<ReceiverState, ReceiverError> {
        match self.manager {
            Some(_) => Err(ReceiverError::AlreadyInitialised),
            None => Ok(ReceiverState { manager: Some(manager), ..self }),
        }
    }

    /// The same receiver in another transaction.
    pub open spec fn inside(self, now: Transaction) -> ReceiverState {
        ReceiverState { now, ..self }
    }

    /// An arming of `user` is valid: it was made inside the current transaction, and
    /// has not been consumed.
    pub open spec fn valid_for(self, user: Address) -> bool {
        &&& self.armed.contains_key(user)
        &&& self.armed[user].armed_in == self.now
    }

    /// The callback for `caller` matches what was armed.
    pub open spec fn expects(self, caller: Address, token_in: Address, amount: i128) -> bool {
        &&& self.valid_for(caller)
        &&& self.armed[caller].arming.collateral == token_in
        &&& self.armed[caller].arming.flash_amount == amount
    }

    /// What a callback leads to: the state that it leaves and the session that it
    /// begins, or the reason why it is refused.
    pub open spec fn exec_op(
        self,
        me: Address,
        caller: Address,
        token_in: Address,
        amount: i128,
    ) -> Result<(ReceiverState, CallbackState), ReceiverError> {
        if !self.valid_for(caller) {
            Err(ReceiverError::NotArmed)
        } else if !self.expects(caller, token_in, amount) {
            Err(ReceiverError::ArmingMismatch)
        } else {
            Ok(
                (
                    ReceiverState { armed: self.armed.remove(caller), ..self },
                    CallbackState {
                        me,
                        caller,
                        arming: self.armed[caller].arming,
                        stage: CallbackStage::FindingPair,
                    },
                ),
            )
        }
    }

    /// The state once `arming` has been armed for `user`, in the current transaction.
    pub open spec fn arm(self, user: Address, arming: Arming) -> ReceiverState {
        ReceiverState {
            armed: self.armed.insert(user, Armed { arming, armed_in: self.now }),
            ..self
        }
    }
}

/// The contents of the list as a map.
spec fn armed_map(entries: Seq<(Address, Armed)>) -> Map<Address, Armed>
    decreases entries.len(),
{
    if entries.len() == 0 {
        Map::empty()
    } else {
        armed_map(entries.drop_last()).insert(entries.last().0, entries.last().1)
    }
}

/// No user occurs twice.
spec fn distinct(entries: Seq<(Address, Armed)>) -> bool {
    forall|i: int, j: int|
        0 <= i < j < entries.len() ==> (#[trigger] entries[i]).0 != (#[trigger] entries[j]).0
}

/// A list without repetition holds exactly the entries of its map.
proof fn lemma_armed_map(entries: Seq<(Address, Armed)>)
    requires
        distinct(entries),
    ensures
        forall|i: int|
            0 <= i < entries.len() ==> armed_map(entries).contains_key(
                (#[trigger] entries[i]).0,
            ) && armed_map(entries)[entries[i].0] == entries[i].1,
        forall|user: Address| #[trigger]
            armed_map(entries).contains_key(user) ==> exists|i: int|
                0 <= i < entries.len() && (#[trigger] entries[i]).0 == user,
    decreases entries.len(),
{
    if entries.len() > 0 {
        let rest = entries.drop_last();
        assert(distinct(rest));
        lemma_armed_map(rest);
        assert forall|i: int| 0 <= i < entries.len() implies armed_map(entries).contains_key(
            (#[trigger] entries[i]).0,
        ) && armed_map(entries)[entries[i].0] == entries[i].1 by {
            if i < rest.len() {
                assert(rest[i] == entries[i]);
            }
        }
        assert forall|user: Address| #[trigger] armed_map(entries).contains_key(
            user,
        ) implies exists|i: int| 0 <= i < entries.len() && (#[trigger] entries[i]).0 == user by {
            if user == entries.last().0 {
                assert(entries[entries.len() - 1].0 == user);
            } else {
                assert(armed_map(rest).contains_key(user));
                let i = choose|i: int| 0 <= i < rest.len() && (#[trigger] rest[i]).0 == user;
                assert(entries[i].0 == user);
            }
        }
    }
}

/// The receiver, with what it keeps and the transaction that it is called in.
#[derive(Debug)]
pub struct Receiver {
    manager: Option<Address>,
    now: Transaction,
    armed: Vec<(Address, Armed)>,
}

impl View for Receiver {
    type V = ReceiverState;

    closed spec fn view(&self) -> ReceiverState {
        ReceiverState { manager: self.manager, now: self.now, armed: armed_map(self.armed@) }
    }
}

/// An arming that waits for the manager's authorisation.
#[derive(Debug)]
pub struct ArmRequest {
    approver: Address,
    user: Address,
    arming: Arming,
}

impl ArmRequest {
    /// The address whose authorisation is demanded.
    pub closed spec fn spec_approver(&self) -> Address {
        self.approver
    }

    /// The user that the arming is for.
    pub closed spec fn spec_user(&self) -> Address {
        self.user
    }

    /// The instructions to arm.
    pub closed spec fn spec_arming(&self) -> Arming {
        self.arming
    }

    /// The address whose authorisation is demanded.
    pub fn approver(&self) -> (approver: Address)
        ensures
            approver == self.spec_approver(),
    {
        self.approver
    }
}

impl Receiver {
    #[verifier::type_invariant]
    spec fn well_formed(self) -> bool {
        distinct(self.armed@)
    }

    /// The receiver in the transaction `now`, as far as one call can see: the
    /// manager, and what is kept for the user that the call is about, whichever
    /// transaction armed it.
    pub fn load(
        manager: Option<Address>,
        armed: Option<(Address, Armed)>,
        now: Transaction,
    ) -> (receiver: Receiver)
        ensures
            receiver@ == (ReceiverState {
                manager,
                now,
                armed: match armed {
                    Some((user, armed)) => map![user => armed],
                    None => Map::empty(),
                },
            }),
    {
        let mut entries: Vec<(Address, Armed)> = Vec::new();
        if let Some(entry) = armed {
            entries.push(entry);
        }
        proof {
            reveal_with_fuel(armed_map, 2);
            assert(entries@.len() > 0 ==> entries@.drop_last() =~= Seq::empty());
        }
        Receiver { manager, now, armed: entries }
    }

    /// Where in the list `user` stands.
    fn find(&self, user: Address) -> (found: Option<usize>)
        ensures
            match found {
                Some(i) => i < self.armed@.len() && self.armed@[i as int].0 == user,
                None => forall|j: int|
                    0 <= j < self.armed@.len() ==> (#[trigger] self.armed@[j]).0 != user,
            },
    {
        let mut i: usize = 0;
        while i < self.armed.len()
            invariant
                i <= self.armed@.len(),
                forall|j: int| 0 <= j < i ==> (#[trigger] self.armed@[j]).0 != user,
            decreases self.armed@.len() - i,
        {
            if self.armed[i].0 == user {
                return Some(i);
            }
            i += 1;
        }
        None
    }

    /// What is kept for `user`, whichever transaction armed it.
    pub fn armed_for(&self, user: Address) -> (armed: Option<Armed>)
        ensures
            armed == (if self@.armed.contains_key(user) {
                Some(self@.armed[user])
            } else {
                None
            }),
    {
        proof {
            use_type_invariant(self);
            lemma_armed_map(self.armed@);
        }
        match self.find(user) {
            Some(i) => Some(self.armed[i].1),
            None => None,
        }
    }

    /// Stores the manager, once.
    pub fn init(&mut self, manager: Address) -> (done: Result<(), ReceiverError>)
        ensures
            match old(self)@.init(manager) {
                Ok(state) => done is Ok && final(self)@ == state,
                Err(error) => done == Err::<(), _>(error) && final(self)@ == old(self)@,
            },
    {
        proof {
            use_type_invariant(&*self);
        }
        if self.manager.is_some() {
            return Err(ReceiverError::AlreadyInitialised);
        }
        self.manager = Some(manager);
        Ok(())
    }

    /// The manager permitted to arm the receiver.
    pub fn manager(&self) -> (manager: Result<Address, ReceiverError>)
        ensures
            manager == (match self@.manager {
                Some(manager) => Ok(manager),
                None => Err(ReceiverError::NotInitialised),
            }),
    {
        match self.manager {
            Some(manager) => Ok(manager),
            None => Err(ReceiverError::NotInitialised),
        }
    }

    /// Asks to arm the receiver for one callback on `user`'s behalf. Only the
    /// manager may: nothing is armed before the manager's authorisation has been
    /// demanded and [`Receiver::approve`] been called.
    pub fn arm(&self, user: Address, arming: Arming) -> (request: Result<ArmRequest, ReceiverError>)
        ensures
            match self@.manager {
                Some(manager) => {
                    &&& request matches Ok(request)
                    &&& request.spec_approver() == manager
                    &&& request.spec_user() == user
                    &&& request.spec_arming() == arming
                },
                None => request == Err::<ArmRequest, _>(ReceiverError::NotInitialised),
            },
    {
        match self.manager() {
            Ok(approver) => Ok(ArmRequest { approver, user, arming }),
            Err(error) => Err(error),
        }
    }

    /// Arms the receiver, once the manager has authorised the request. The arming
    /// is valid only inside the current transaction, and replaces one that the user
    /// already had.
    pub fn approve(&mut self, request: ArmRequest)
        requires
            old(self)@.manager == Some(request.spec_approver()),
        ensures
            final(self)@ == old(self)@.arm(request.spec_user(), request.spec_arming()),
    {
        proof {
            use_type_invariant(&*self);
            lemma_armed_map(self.armed@);
        }
        let found: Option<usize> = self.find(request.user);
        let entry: Armed = Armed { arming: request.arming, armed_in: self.now };
        let mut armed: Vec<(Address, Armed)> = Vec::new();
        std::mem::swap(&mut armed, &mut self.armed);
        let ghost entries = armed@;
        match found {
            Some(i) => {
                armed.set(i, (request.user, entry));
            },
            None => {
                armed.push((request.user, entry));
            },
        }
        proof {
            assert(distinct(armed@));
            lemma_armed_map(armed@);
            let expected = armed_map(entries).insert(request.user, entry);
            assert forall|user: Address| #[trigger] expected.contains_key(user)
                implies armed_map(armed@).contains_key(user) && armed_map(armed@)[user]
                == expected[user] by {
                if user != request.user {
                    let i = choose|i: int|
                        0 <= i < entries.len() && (#[trigger] entries[i]).0 == user;
                    assert(armed@[i] == entries[i]);
                } else {
                    match found {
                        Some(i) => {
                            assert(armed@[i as int].0 == user);
                        },
                        None => {
                            assert(armed@[entries.len() as int].0 == user);
                        },
                    }
                }
            }
            assert forall|user: Address| #[trigger] armed_map(armed@).contains_key(
                user,
            ) implies expected.contains_key(user) by {
                let i = choose|i: int| 0 <= i < armed@.len() && (#[trigger] armed@[i]).0 == user;
                if user != request.user {
                    assert(armed@[i] == entries[i]);
                }
            }
            assert(armed_map(armed@) =~= expected);
        }
        self.armed = armed;
    }

    /// The pool's flash-loan callback. Consumes the arming, so it is one-shot and
    /// cannot be replayed inside or after the transaction. An arming that another
    /// transaction made is not heeded. The fee is always nil and plays no part.
    ///
    /// `me` is the receiver's own address. The session that begins here sells the
    /// loan and hands everything to `caller`.
    pub fn exec_op(
        &mut self,
        me: Address,
        caller: Address,
        token_in: Address,
        amount: i128,
        _fee: i128,
    ) -> (callback: Result<Callback, ReceiverError>)
        ensures
            match old(self)@.exec_op(me, caller, token_in, amount) {
                Ok((state, session)) => {
                    &&& callback matches Ok(callback)
                    &&& callback@ == session
                    &&& final(self)@ == state
                },
                Err(error) => {
                    &&& callback == Err::<Callback, _>(error)
                    &&& final(self)@ == old(self)@
                },
            },
    {
        proof {
            use_type_invariant(&*self);
            lemma_armed_map(self.armed@);
        }
        let i: usize = match self.find(caller) {
            Some(i) => i,
            None => {
                return Err(ReceiverError::NotArmed);
            },
        };
        let armed: Armed = self.armed[i].1;
        if armed.armed_in != self.now {
            return Err(ReceiverError::NotArmed);
        }
        let arming: Arming = armed.arming;
        if token_in != arming.collateral || amount != arming.flash_amount {
            return Err(ReceiverError::ArmingMismatch);
        }
        let mut armed: Vec<(Address, Armed)> = Vec::new();
        std::mem::swap(&mut armed, &mut self.armed);
        let ghost entries = armed@;
        armed.remove(i);
        proof {
            assert(armed@ =~= entries.remove(i as int));
            assert(distinct(armed@)) by {
                assert forall|j: int, k: int| 0 <= j < k < armed@.len() implies (#[trigger]
                armed@[j]).0 != (#[trigger] armed@[k]).0 by {
                    let j0 = if j < i { j } else { j + 1 };
                    let k0 = if k < i { k } else { k + 1 };
                    assert(entries[j0].0 != entries[k0].0);
                }
            }
            lemma_armed_map(armed@);
            let expected = armed_map(entries).remove(caller);
            assert forall|user: Address| #[trigger] expected.contains_key(user)
                implies armed_map(armed@).contains_key(user) && armed_map(armed@)[user]
                == expected[user] by {
                let j = choose|j: int|
                    0 <= j < entries.len() && (#[trigger] entries[j]).0 == user;
                let j1 = if j < i { j } else { j - 1 };
                assert(armed@[j1] == entries[j]);
            }
            assert forall|user: Address| #[trigger] armed_map(armed@).contains_key(
                user,
            ) implies expected.contains_key(user) by {
                let j = choose|j: int| 0 <= j < armed@.len() && (#[trigger] armed@[j]).0 == user;
                let j0 = if j < i { j } else { j + 1 };
                assert(armed@[j] == entries[j0]);
            }
            assert(armed_map(armed@) =~= expected);
        }
        self.armed = armed;
        Ok(Callback::begin(me, caller, arming))
    }

    /// The transfer that sweeps `balance` of `asset` from one holder to another:
    /// all of it, where there is any.
    pub open spec fn swept(asset: Address, from: Address, to: Address, balance: i128) -> Option<
        Transfer,
    > {
        if balance > 0 {
            Some(Transfer { token: asset, from, to, amount: balance })
        } else {
            None
        }
    }

    /// The transfer that sweeps `balance` of `asset` from one holder to another:
    /// all of it, where there is any.
    pub fn sweep(asset: Address, from: Address, to: Address, balance: i128) -> (transfer: Option<
        Transfer,
    >)
        ensures
            transfer == Self::swept(asset, from, to, balance),
    {
        if balance > 0 {
            Some(Transfer { token: asset, from, to, amount: balance })
        } else {
            None
        }
    }
}

} // verus!
