//! What holds of the two contracts as a whole.
use crate::callback::{CallbackStage, CallbackState, ReceiverAction, ReceiverReply};
use crate::error::{ManagerError, ReceiverError};
use crate::ledger::{Course, Holding, Ledger};
use crate::manager::{DeleverageCall, DeleverageStage, Manager, ManagerAction, ManagerReply};
use crate::receiver::{Receiver, ReceiverState};
use crate::types::{Address, Armed, Arming, Positions, Transaction};
use vstd::prelude::*;

verus! {

/// The manager's receiver is stored once and for all: whatever is tried later is
/// refused, and the first one stays.
pub proof fn law_receiver_is_stored_once(manager: Manager, first: Address, second: Address)
    requires
        manager.receiver is None,
    ensures
        manager.initialised(first) matches Ok(stored) && stored.receiver == Some(first)
            && stored.initialised(second) == Err::<Manager, _>(ManagerError::AlreadyInitialised),
{
}

/// The receiver's manager is stored once and for all: whatever is tried later is
/// refused, and the first one stays. To arm the receiver or to call it back leaves
/// the manager alone.
pub proof fn law_manager_is_stored_once(
    state: ReceiverState,
    first: Address,
    second: Address,
    me: Address,
    user: Address,
    arming: Arming,
    token_in: Address,
    amount: i128,
)
    requires
        state.manager is None,
    ensures
        state.init(first) matches Ok(stored) && {
            &&& stored.manager == Some(first)
            &&& stored.init(second) == Err::<ReceiverState, _>(ReceiverError::AlreadyInitialised)
            &&& stored.arm(user, arming).manager == Some(first)
            &&& stored.exec_op(me, user, token_in, amount) matches Ok((left, _)) ==> left.manager
                == Some(first)
        },
{
}

/// A call is accepted exactly when its amounts are positive, the unwinding covers
/// the loan, the floor covers the repayment, the assets differ, and there is a
/// receiver to arm.
pub proof fn law_accepted_calls_are_sound(call: DeleverageCall, stored: Option<Address>)
    ensures
        call.refusal(stored) is None <==> call.sound() && stored is Some,
{
}

/// Only a sound call gets past the user's authorisation: a swap without a floor
/// is never armed, at whatever stage.
pub proof fn law_only_sound_calls_proceed(
    manager: Manager,
    call: DeleverageCall,
    stage: DeleverageStage,
    reply: ManagerReply,
)
    ensures
        (DeleverageStage::Authorising { stored: manager.receiver, call }).sound(),
        stage.sound() && stage.accepts(reply) ==> (stage.next(reply) matches Ok(next)
            ==> next.sound()),
        forall|action: ManagerAction| #[trigger]
            stage.asks(action) && stage.sound() ==> {
                &&& action matches ManagerAction::Arm { arming, .. } ==> 0 < arming.min_out && 0
                    < arming.flash_amount && arming.collateral != arming.debt
                &&& action matches ManagerAction::FlashLoan { loan, .. } ==> 0 < loan.amount
            },
{
}

/// An accepted call asks for the user's authorisation, arms the receiver, asks
/// the pool for the loan, and hands back what the pool left, in that order.
pub proof fn law_course_of_a_deleverage(
    call: DeleverageCall,
    stored: Option<Address>,
    positions: Positions,
)
    requires
        call.refusal(stored) is None,
    ensures
        ({
            let authorising = DeleverageStage::Authorising { stored, call };
            let arming = DeleverageStage::Arming { receiver: stored->0, call };
            let borrowing = DeleverageStage::Borrowing { receiver: stored->0, call };
            let settled = DeleverageStage::Settled { positions };
            &&& authorising.accepts(ManagerReply::Done)
            &&& authorising.next(ManagerReply::Done) == Ok::<_, ManagerError>(arming)
            &&& arming.accepts(ManagerReply::Done)
            &&& arming.next(ManagerReply::Done) == Ok::<_, ManagerError>(borrowing)
            &&& borrowing.accepts(ManagerReply::Positions(positions))
            &&& borrowing.next(ManagerReply::Positions(positions)) == Ok::<_, ManagerError>(settled)
        }),
{
}

/// What the pool nets for a deleverage: of the collateral, the withdrawal less
/// what of it the loan takes back; of the debt asset, the repayment as far as
/// there is debt; of any other asset, nothing.
pub proof fn law_net_flows(call: DeleverageCall, owed: int, token: Address)
    requires
        call.sound(),
        owed >= 0,
    ensures
        crate::ledger::net_flow(call.requests(), owed, token) == (if token == call.collateral {
            call.unwind_amount - vstd::math::min(call.unwind_amount as int, owed)
        } else if token == call.debt {
            -vstd::math::min(call.repay_amount as int, owed)
        } else {
            0
        }),
{
    let all = call.requests();
    let tail = all.skip(1);
    let last = tail.skip(1);
    let none = last.skip(1);
    assert(all[0].address == call.debt && all[0].amount == call.repay_amount);
    assert(tail[0] == all[1]);
    assert(last[0] == all[2]);
    assert(none.len() == 0);
    let taken = vstd::math::min(call.repay_amount as int, owed);
    assert(crate::ledger::net_flow(none, owed, token) == 0);
    assert(crate::ledger::net_flow(none, owed - taken, token) == 0);
    let back = vstd::math::min(call.unwind_amount as int, owed);
    assert(crate::ledger::net_flow(none, owed - back, token) == 0);
    reveal_with_fuel(crate::ledger::net_flow, 4);
}

/// The two collateral legs cancel: where the loan takes the whole repayment, no
/// collateral moves between the pool and the user.
pub proof fn law_collateral_legs_cancel(call: DeleverageCall, owed: int)
    requires
        call.sound(),
        owed >= call.unwind_amount,
    ensures
        crate::ledger::net_flow(call.requests(), owed, call.collateral) == 0,
{
    law_net_flows(call, owed, call.collateral);
}

/// Collateral is never pulled from the user. What the loan does not take back, at
/// most the excess of the unwinding over the loan, goes to the user.
pub proof fn law_collateral_is_never_pulled(call: DeleverageCall, owed: int)
    requires
        call.sound(),
        owed >= call.flash_amount,
    ensures
        0 <= crate::ledger::net_flow(call.requests(), owed, call.collateral) <= call.unwind_amount
            - call.flash_amount,
{
    law_net_flows(call, owed, call.collateral);
}

/// The repayment that is asked for covers the loan.
pub proof fn law_repayment_covers_the_loan(call: DeleverageCall, receiver: Address)
    requires
        call.sound(),
    ensures
        call.requests().last().address == call.loan(receiver).asset,
        call.requests().last().amount >= call.loan(receiver).amount,
{
}

/// What the manager arms is what the pool calls back: the callback for the loan
/// that it asks for is never refused, follows the call's own instructions, and
/// leaves nothing armed for the user and other users' armings alone.
pub proof fn law_armed_callback_is_expected(
    state: ReceiverState,
    call: DeleverageCall,
    receiver: Address,
)
    ensures
        ({
            let loan = call.loan(receiver);
            let armed = state.arm(call.user, call.arming());
            &&& armed.exec_op(loan.contract, call.user, loan.asset, loan.amount) matches Ok(
                (left, session),
            )
            &&& session.me == receiver
            &&& session.caller == call.user
            &&& session.arming == call.arming()
            &&& session.stage == CallbackStage::FindingPair
            &&& left.manager == state.manager
            &&& left.armed == state.armed.remove(call.user)
        }),
{
    let armed = state.arm(call.user, call.arming()).armed;
    assert(armed.remove(call.user) =~= state.armed.remove(call.user));
}

/// An arming is good for one callback: once a callback has gone ahead, another
/// for the same user is refused, whatever it brings, inside the same transaction or
/// any other.
pub proof fn law_arming_is_one_shot(
    state: ReceiverState,
    me: Address,
    caller: Address,
    token_in: Address,
    amount: i128,
    token_again: Address,
    amount_again: i128,
    now: Transaction,
)
    ensures
        state.exec_op(me, caller, token_in, amount) matches Ok((left, _)) ==> left.inside(
            now,
        ).exec_op(me, caller, token_again, amount_again) == Err::<
            (ReceiverState, CallbackState),
            _,
        >(ReceiverError::NotArmed),
{
}

/// Something that may befall the receiver.
pub enum Event {
    Init { manager: Address },
    Arm { user: Address, arming: Arming },
    ExecOp { me: Address, caller: Address, token_in: Address, amount: i128 },
}

/// The receiver once all of `history` has befallen it, each event inside its
/// transaction. What is refused changes nothing.
pub open spec fn after(state: ReceiverState, history: Seq<(Transaction, Event)>) -> ReceiverState
    decreases history.len(),
{
    if history.len() == 0 {
        state
    } else {
        let before = after(state, history.drop_last()).inside(history.last().0);
        match history.last().1 {
            Event::Init { manager } => match before.init(manager) {
                Ok(left) => left,
                Err(_) => before,
            },
            Event::Arm { user, arming } => before.arm(user, arming),
            Event::ExecOp { me, caller, token_in, amount } => match before.exec_op(
                me,
                caller,
                token_in,
                amount,
            ) {
                Ok((left, _)) => left,
                Err(_) => before,
            },
        }
    }
}

/// What is kept for a user keeps the transaction that armed it, unless the user is
/// armed again.
proof fn lemma_keeps_its_transaction(
    state: ReceiverState,
    history: Seq<(Transaction, Event)>,
    user: Address,
    armed_in: Transaction,
)
    requires
        state.armed.contains_key(user) ==> state.armed[user].armed_in == armed_in,
        forall|i: int|
            0 <= i < history.len() ==> !((#[trigger] history[i]).1 matches Event::Arm {
                user: armed,
                ..
            } && armed == user),
    ensures
        after(state, history).armed.contains_key(user) ==> after(
            state,
            history,
        ).armed[user].armed_in == armed_in,
    decreases history.len(),
{
    if history.len() > 0 {
        let earlier = history.drop_last();
        assert forall|i: int| 0 <= i < earlier.len() implies !((#[trigger] earlier[i]).1
            matches Event::Arm { user: armed, .. } && armed == user) by {
            assert(earlier[i] == history[i]);
        }
        lemma_keeps_its_transaction(state, earlier, user, armed_in);
        assert(history[history.len() - 1] == history.last());
    }
}

/// An arming is valid only inside the transaction that armed it: a callback inside
/// any other is answered as if nothing had been armed, whatever has befallen the
/// receiver in between, unless the user was armed again. It makes no difference
/// whether the pool ever made use of the arming.
pub proof fn law_arming_is_valid_only_inside_its_transaction(
    state: ReceiverState,
    user: Address,
    arming: Arming,
    history: Seq<(Transaction, Event)>,
    later: Transaction,
    me: Address,
    token_in: Address,
    amount: i128,
)
    requires
        later != state.now,
        forall|i: int|
            0 <= i < history.len() ==> !((#[trigger] history[i]).1 matches Event::Arm {
                user: armed,
                ..
            } && armed == user),
    ensures
        after(state.arm(user, arming), history).inside(later).exec_op(me, user, token_in, amount)
            == Err::<(ReceiverState, CallbackState), _>(ReceiverError::NotArmed),
{
    lemma_keeps_its_transaction(state.arm(user, arming), history, user, state.now);
}

/// Inside its own transaction an arming stands until its callback comes, whatever
/// else befalls the receiver in between.
pub proof fn law_arming_stands_inside_its_transaction(
    state: ReceiverState,
    user: Address,
    arming: Arming,
    history: Seq<(Transaction, Event)>,
)
    requires
        forall|i: int|
            0 <= i < history.len() ==> match (#[trigger] history[i]).1 {
                Event::Init { .. } => true,
                Event::Arm { user: armed, .. } => armed != user,
                Event::ExecOp { caller, .. } => caller != user,
            },
    ensures
        after(state.arm(user, arming), history).inside(state.now).valid_for(user),
        after(state.arm(user, arming), history).armed[user].arming == arming,
    decreases history.len(),
{
    if history.len() > 0 {
        let earlier = history.drop_last();
        assert forall|i: int| 0 <= i < earlier.len() implies match (#[trigger] earlier[i]).1 {
            Event::Init { .. } => true,
            Event::Arm { user: armed, .. } => armed != user,
            Event::ExecOp { caller, .. } => caller != user,
        } by {
            assert(earlier[i] == history[i]);
        }
        law_arming_stands_inside_its_transaction(state, user, arming, earlier);
        assert(history[history.len() - 1] == history.last());
    }
}

/// An arming is bound to one user: it changes nothing for a callback on behalf of
/// another, and that callback does not consume it.
pub proof fn law_arming_is_bound_to_one_user(
    state: ReceiverState,
    user: Address,
    arming: Arming,
    me: Address,
    stranger: Address,
    token_in: Address,
    amount: i128,
)
    requires
        stranger != user,
    ensures
        match state.exec_op(me, stranger, token_in, amount) {
            Ok((left, session)) => state.arm(user, arming).exec_op(me, stranger, token_in, amount)
                == Ok::<_, ReceiverError>((left.arm(user, arming), session)),
            Err(error) => state.arm(user, arming).exec_op(me, stranger, token_in, amount) == Err::<
                (ReceiverState, CallbackState),
                _,
            >(error),
        },
{
    let entry = Armed { arming, armed_in: state.now };
    assert(state.armed.insert(user, entry).remove(stranger) =~= state.armed.remove(stranger).insert(
        user,
        entry,
    ));
}

/// A user has one arming at a time: the last one counts.
pub proof fn law_arming_again_replaces(
    state: ReceiverState,
    user: Address,
    first: Arming,
    second: Arming,
)
    ensures
        state.arm(user, first).arm(user, second) == state.arm(user, second),
{
    assert(state.arm(user, first).arm(user, second).armed =~= state.arm(user, second).armed);
}

/// A callback keeps the terms it began with, and every transfer that it makes is
/// from the receiver to the user, of one of the two assets. The one transfer that
/// it lets another make is of the armed amount of collateral.
pub proof fn law_funds_go_to_the_user(
    state: CallbackState,
    action: ReceiverAction,
    reply: ReceiverReply,
)
    requires
        state.asks(action),
    ensures
        action matches ReceiverAction::Send(transfer) ==> {
            &&& transfer.from == state.me
            &&& transfer.to == state.caller
            &&& transfer.token == state.arming.debt || transfer.token == state.arming.collateral
        },
        action matches ReceiverAction::AuthoriseTransfer(transfer) ==> {
            &&& transfer.from == state.me
            &&& transfer.token == state.arming.collateral
            &&& transfer.amount == state.arming.flash_amount
            &&& state.stage == (CallbackStage::Authorising { pair: transfer.to })
        },
        state.accepts(reply) ==> (state.next(reply) matches Ok(next) ==> next.me == state.me
            && next.caller == state.caller && next.arming == state.arming),
{
}

/// What the router reports of the swap plays no part.
pub proof fn law_report_plays_no_part(state: CallbackState, report: Vec<i128>, other: Vec<i128>)
    requires
        state.stage is Swapping,
    ensures
        state.accepts(ReceiverReply::Swapped(report)),
        state.next(ReceiverReply::Swapped(report)) == state.next(ReceiverReply::Swapped(other)),
{
}

/// Only what the swap brings in counts towards the floor: a balance that was there
/// before it, however large, does not change the verdict.
pub proof fn law_prior_balance_does_not_count(
    state: CallbackState,
    before: i128,
    after: i128,
    prior: i128,
)
    requires
        i128::MIN <= after - before <= i128::MAX,
        i128::MIN <= before + prior <= i128::MAX,
        i128::MIN <= after + prior <= i128::MAX,
    ensures
        ({
            let closing = state.at(CallbackStage::Closing { before });
            let with_prior = state.at(CallbackStage::Closing { before: (before + prior) as i128 });
            &&& closing.accepts(ReceiverReply::Balance(after))
            &&& with_prior.accepts(ReceiverReply::Balance((after + prior) as i128))
            &&& with_prior.next(ReceiverReply::Balance((after + prior) as i128)) == closing.next(
                ReceiverReply::Balance(after),
            )
            &&& closing.next(ReceiverReply::Balance(after)) == Err::<CallbackState, _>(
                ReceiverError::SlippageExceeded,
            ) <==> after - before < state.arming.min_out
        }),
{
}

/// `states` is a course that a callback takes on `replies`, whatever tokens and
/// router gave them.
pub open spec fn follows(states: Seq<CallbackState>, replies: Seq<ReceiverReply>) -> bool {
    &&& states.len() == replies.len() + 1
    &&& states[0].stage == CallbackStage::FindingPair
    &&& forall|i: int|
        0 <= i < replies.len() ==> {
            &&& states[i].accepts(#[trigger] replies[i])
            &&& states[i].next(replies[i]) == Ok::<CallbackState, ReceiverError>(states[i + 1])
        }
}

/// What the replies so far have shown of a callback.
spec fn shown(states: Seq<CallbackState>, replies: Seq<ReceiverReply>, i: int) -> bool {
    let floor_met = i >= 5 && replies[4]->Balance_0 - replies[2]->Balance_0
        >= states[0].arming.min_out;
    &&& states[i].arming == states[0].arming
    &&& match states[i].stage {
        CallbackStage::FindingPair => i == 0,
        CallbackStage::Authorising { .. } => i == 1,
        CallbackStage::Opening => i == 2,
        CallbackStage::Swapping { before } => i == 3 && replies[2]->Balance_0 == before,
        CallbackStage::Closing { before } => i == 4 && replies[2]->Balance_0 == before,
        CallbackStage::CheckingCollateral => floor_met && i >= 6 && replies[i - 1]
            == ReceiverReply::Balance(0),
        CallbackStage::Settled => floor_met && i >= 7 && replies[i - 1] == ReceiverReply::Balance(0)
            && replies[i - 2] == ReceiverReply::Balance(0),
        _ => floor_met,
    }
}

proof fn lemma_shown(states: Seq<CallbackState>, replies: Seq<ReceiverReply>, i: int)
    requires
        follows(states, replies),
        0 <= i < states.len(),
    ensures
        shown(states, replies, i),
    decreases i,
{
    if i > 0 {
        lemma_shown(states, replies, i - 1);
        assert(states[i - 1].accepts(replies[i - 1]));
    }
}

/// No token and no router is taken at its word: a callback settles only when the
/// balance of the debt asset rose by the floor over the swap, and when the
/// balances of both assets, read last of all, were nil.
pub proof fn law_settled_means_checked(states: Seq<CallbackState>, replies: Seq<ReceiverReply>)
    requires
        follows(states, replies),
        states.last().stage == CallbackStage::Settled,
    ensures
        replies.len() >= 7,
        states[2].stage is Opening,
        states[4].stage is Closing,
        replies[4]->Balance_0 - replies[2]->Balance_0 >= states[0].arming.min_out,
        states[replies.len() - 2].stage == CallbackStage::CheckingDebt,
        replies[replies.len() - 2] == ReceiverReply::Balance(0),
        states[replies.len() - 1].stage == CallbackStage::CheckingCollateral,
        replies[replies.len() - 1] == ReceiverReply::Balance(0),
{
    let end = states.len() - 1;
    lemma_shown(states, replies, end);
    lemma_shown(states, replies, end - 1);
    lemma_shown(states, replies, end - 2);
    assert(states[end - 1].accepts(replies[end - 1]));
    assert(states[end - 2].accepts(replies[end - 2]));
    assert(states[0].accepts(replies[0]));
    assert(states[1].accepts(replies[1]));
    assert(states[2].accepts(replies[2]));
    assert(states[3].accepts(replies[3]));
}

/// Where a callback stands, told by what has happened to the balances.
spec fn stands(course: Course, i: int) -> bool {
    let start = course.states[0];
    let state = course.states[i];
    let me = start.me;
    let debt = start.arming.debt;
    let before_swap = course.before_swap().balance(debt, me);
    let after_swap = course.after_swap().balance(debt, me);
    let debt_sent = course.after_swap().swept(debt, me, start.caller);
    let both_sent = debt_sent.swept(start.arming.collateral, me, start.caller);
    let floor_met = i >= 5 && after_swap - before_swap >= start.arming.min_out;
    &&& state.me == me
    &&& state.caller == start.caller
    &&& state.arming == start.arming
    &&& match state.stage {
        CallbackStage::FindingPair => i == 0,
        CallbackStage::Authorising { .. } => i == 1,
        CallbackStage::Opening => i == 2,
        CallbackStage::Swapping { before } => i == 3 && before == before_swap,
        CallbackStage::Closing { before } => i == 4 && before == before_swap,
        CallbackStage::CountingDebt => floor_met && course.ledgers[i] == course.after_swap(),
        CallbackStage::SendingDebt { amount } => floor_met && course.ledgers[i]
            == course.after_swap() && amount == after_swap && amount > 0,
        CallbackStage::CountingCollateral => floor_met && course.ledgers[i] == debt_sent,
        CallbackStage::SendingCollateral { amount } => floor_met && course.ledgers[i] == debt_sent
            && amount == debt_sent.balance(start.arming.collateral, me) && amount > 0,
        CallbackStage::CheckingDebt => floor_met && course.ledgers[i] == both_sent,
        CallbackStage::CheckingCollateral => floor_met && course.ledgers[i] == both_sent,
        CallbackStage::Settled => floor_met && course.ledgers[i] == both_sent,
    }
}

proof fn lemma_stands(course: Course, i: int)
    requires
        course.possible(),
        0 <= i < course.states.len(),
    ensures
        stands(course, i),
    decreases i,
{
    if i > 0 {
        lemma_stands(course, i - 1);
        assert(course.step(i - 1));
    }
}

/// What a sweep does, when the two holders differ: the one has nothing left, the
/// other has it all, and nothing else has changed.
proof fn lemma_swept(ledger: Ledger, token: Address, from: Address, to: Address)
    requires
        ledger.solvent(),
        from != to,
    ensures
        ledger.swept(token, from, to).balance(token, from) == 0,
        ledger.swept(token, from, to).balance(token, to) == ledger.balance(token, to)
            + ledger.balance(token, from),
        forall|other: Address, holder: Address|
            other != token || (holder != from && holder != to) ==> #[trigger] ledger.swept(
                token,
                from,
                to,
            ).balance(other, holder) == ledger.balance(other, holder),
        ledger.swept(token, from, to).solvent(),
{
    assert(ledger.balance(token, from) >= 0);
    assert(ledger.balance(token, to) >= 0);
    let after = ledger.swept(token, from, to);
    assert forall|other: Address, holder: Address|
        other != token || (holder != from && holder != to) implies #[trigger] after.balance(
        other,
        holder,
    ) == ledger.balance(other, holder) by {}
    assert forall|other: Address, holder: Address| #[trigger] after.balance(other, holder) >= 0 by {
        assert(ledger.balance(other, holder) >= 0);
    }
}

/// A callback that settles has sold for the floor or better, and has handed
/// everything to the user: the receiver has nothing left of either asset, the
/// user has gained all that the receiver held after the swap, whoever gave it,
/// and no other balance has changed since.
pub proof fn law_settles_to_the_user_and_keeps_nothing(course: Course)
    requires
        course.possible(),
        course.settles(),
        course.states[0].caller != course.states[0].me,
    ensures
        ({
            let me = course.states[0].me;
            let user = course.states[0].caller;
            let debt = course.states[0].arming.debt;
            let collateral = course.states[0].arming.collateral;
            let swapped = course.after_swap();
            let done = course.ledgers.last();
            &&& swapped.balance(debt, me) - course.before_swap().balance(debt, me)
                >= course.states[0].arming.min_out
            &&& done.balance(debt, me) == 0
            &&& done.balance(collateral, me) == 0
            &&& done.balance(debt, user) == swapped.balance(debt, user) + swapped.balance(debt, me)
            &&& done.balance(collateral, user) == swapped.balance(collateral, user)
                + swapped.balance(collateral, me)
            &&& forall|token: Address, holder: Address|
                (token != debt && token != collateral) || (holder != me && holder != user)
                    ==> #[trigger] done.balance(token, holder) == swapped.balance(token, holder)
        }),
{
    let start = course.states[0];
    let last = course.states.len() - 1;
    lemma_stands(course, last);
    assert(course.ledgers[4].solvent());
    let swapped = course.after_swap();
    lemma_swept(swapped, start.arming.debt, start.me, start.caller);
    let debt_sent = swapped.swept(start.arming.debt, start.me, start.caller);
    lemma_swept(debt_sent, start.arming.collateral, start.me, start.caller);
}

/// Between tokens that keep their books, a callback fails for one reason alone:
/// it is refused right after the swap, exactly when the swap brought in less than
/// the floor. Every answer is one that the callback can go on from.
pub proof fn law_only_a_short_swap_fails(
    course: Course,
    action: ReceiverAction,
    reply: ReceiverReply,
    after: Ledger,
)
    requires
        course.possible(),
        course.states[0].caller != course.states[0].me,
        course.states.last().asks(action),
        course.ledgers.last().answers(action, reply, after),
    ensures
        ({
            let state = course.states.last();
            let me = course.states[0].me;
            let debt = course.states[0].arming.debt;
            &&& state.accepts(reply)
            &&& state.next(reply) is Err <==> {
                &&& state.stage is Closing
                &&& course.after_swap().balance(debt, me) - course.before_swap().balance(debt, me)
                    < course.states[0].arming.min_out
            }
            &&& state.next(reply) matches Err(error) ==> error == ReceiverError::SlippageExceeded
        }),
{
    let start = course.states[0];
    let last = course.states.len() - 1;
    lemma_stands(course, last);
    assert(course.ledgers[last].solvent());
    if last >= 4 {
        assert(course.ledgers[3].solvent());
        assert(course.ledgers[4].solvent());
        assert(course.before_swap().balance(start.arming.debt, start.me) >= 0);
        assert(course.after_swap().balance(start.arming.debt, start.me) >= 0);
        let swapped = course.after_swap();
        lemma_swept(swapped, start.arming.debt, start.me, start.caller);
        let debt_sent = swapped.swept(start.arming.debt, start.me, start.caller);
        lemma_swept(debt_sent, start.arming.collateral, start.me, start.caller);
    }
}

/// The user brings no capital. When the callback of an accepted call settles and
/// the pool then settles the requests, the user has at least as much of both
/// assets as right after the swap, whatever is owed: the proceeds alone cover
/// what the pool pulls. Of other assets the pool moves nothing.
pub proof fn law_user_brings_no_capital(
    call: DeleverageCall,
    receiver: Address,
    course: Course,
    debt_owed: int,
    collateral_owed: int,
)
    requires
        call.sound(),
        receiver != call.user,
        course.possible(),
        course.settles(),
        course.states[0].me == receiver,
        course.states[0].caller == call.user,
        course.states[0].arming == call.arming(),
        debt_owed >= 0,
        collateral_owed >= 0,
    ensures
        ({
            let swapped = course.after_swap();
            let done = course.ledgers.last();
            &&& done.balance(call.debt, call.user) + crate::ledger::net_flow(
                call.requests(),
                debt_owed,
                call.debt,
            ) >= swapped.balance(call.debt, call.user)
            &&& done.balance(call.collateral, call.user) + crate::ledger::net_flow(
                call.requests(),
                collateral_owed,
                call.collateral,
            ) >= swapped.balance(call.collateral, call.user)
            &&& forall|token: Address, owed: int|
                token != call.debt && token != call.collateral && owed >= 0
                    ==> #[trigger] crate::ledger::net_flow(call.requests(), owed, token) == 0
        }),
{
    law_settles_to_the_user_and_keeps_nothing(course);
    lemma_stands(course, course.states.len() - 1);
    assert(course.ledgers[3].solvent());
    assert(course.ledgers[4].solvent());
    assert(course.before_swap().balance(call.debt, receiver) >= 0);
    assert(course.after_swap().balance(call.collateral, receiver) >= 0);
    law_net_flows(call, debt_owed, call.debt);
    law_net_flows(call, collateral_owed, call.collateral);
    assert forall|token: Address, owed: int|
        token != call.debt && token != call.collateral && owed >= 0 implies #[trigger]
    crate::ledger::net_flow(call.requests(), owed, token) == 0 by {
        law_net_flows(call, owed, token);
    }
}

/// What the terms that the other laws use stand for, field by field.
pub proof fn law_terms(call: DeleverageCall, receiver: Address)
    ensures
        call.arming().router == call.router,
        call.arming().collateral == call.collateral,
        call.arming().debt == call.debt,
        call.arming().flash_amount == call.flash_amount,
        call.arming().min_out == call.min_out,
        call.arming().deadline == call.deadline,
        call.loan(receiver).contract == receiver,
        call.loan(receiver).asset == call.collateral,
        call.loan(receiver).amount == call.flash_amount,
        call.sound() <==> {
            &&& call.flash_amount > 0
            &&& call.unwind_amount >= call.flash_amount
            &&& call.repay_amount > 0
            &&& call.min_out >= call.repay_amount
            &&& call.collateral != call.debt
        },
        (DeleverageStage::Arming { receiver, call }).sound() <==> call.sound(),
        (DeleverageStage::Borrowing { receiver, call }).sound() <==> call.sound(),
{
}

/// Every error goes by a number of its own, from one on.
pub proof fn law_error_numbers(a: ManagerError, b: ManagerError, c: ReceiverError, d: ReceiverError)
    ensures
        a.number() == b.number() ==> a == b,
        1 <= a.number() <= 7,
        a is AlreadyInitialised <==> a.number() == 1,
        a is NotInitialised <==> a.number() == 2,
        a is InvalidAmount <==> a.number() == 3,
        a is MissingSlippageBound <==> a.number() == 4,
        a is UnwindBelowFlash <==> a.number() == 5,
        a is SameAsset <==> a.number() == 6,
        a is ProceedsBelowRepayment <==> a.number() == 7,
        c.number() == d.number() ==> c == d,
        1 <= c.number() <= 6,
        c is AlreadyInitialised <==> c.number() == 1,
        c is NotInitialised <==> c.number() == 2,
        c is NotArmed <==> c.number() == 3,
        c is ArmingMismatch <==> c.number() == 4,
        c is SlippageExceeded <==> c.number() == 5,
        c is ResidualBalance <==> c.number() == 6,
{
}

/// A deleverage of `call` on `manager`, told by the calls that it asks for and by
/// their replies. The last call has not been answered yet.
pub open spec fn deleverages(
    manager: Manager,
    call: DeleverageCall,
    stages: Seq<DeleverageStage>,
    actions: Seq<ManagerAction>,
    replies: Seq<ManagerReply>,
) -> bool {
    &&& stages.len() == replies.len() + 1
    &&& actions.len() == stages.len()
    &&& stages[0] == (DeleverageStage::Authorising { stored: manager.receiver, call })
    &&& forall|i: int| 0 <= i < actions.len() ==> stages[i].asks(#[trigger] actions[i])
    &&& forall|i: int|
        0 <= i < replies.len() ==> {
            &&& stages[i].accepts(#[trigger] replies[i])
            &&& stages[i].next(replies[i]) == Ok::<DeleverageStage, ManagerError>(stages[i + 1])
        }
}

proof fn lemma_deleverages(
    manager: Manager,
    call: DeleverageCall,
    stages: Seq<DeleverageStage>,
    actions: Seq<ManagerAction>,
    replies: Seq<ManagerReply>,
)
    requires
        deleverages(manager, call, stages, actions, replies),
    ensures
        stages.len() <= 4,
        stages.len() > 1 ==> manager.receiver is Some && stages[1] == (DeleverageStage::Arming {
            receiver: manager.receiver->0,
            call,
        }),
        stages.len() > 2 ==> stages[2] == (DeleverageStage::Borrowing {
            receiver: manager.receiver->0,
            call,
        }),
        stages.len() > 3 ==> replies[2] is Positions && stages[3] == (DeleverageStage::Settled {
            positions: replies[2]->Positions_0,
        }),
{
    if replies.len() > 0 {
        assert(stages[0].accepts(replies[0]));
    }
    if replies.len() > 1 {
        assert(stages[1].accepts(replies[1]));
    }
    if replies.len() > 2 {
        assert(stages[2].accepts(replies[2]));
    }
    if replies.len() > 3 {
        assert(stages[3].accepts(replies[3]));
    }
}

/// Before anything else the user, and nobody else, is asked to authorise the call,
/// whatever its amounts. That same user is then armed for and borrows.
pub proof fn law_the_user_is_the_one_asked(
    manager: Manager,
    call: DeleverageCall,
    stages: Seq<DeleverageStage>,
    actions: Seq<ManagerAction>,
    replies: Seq<ManagerReply>,
    i: int,
)
    requires
        deleverages(manager, call, stages, actions, replies),
        0 <= i < actions.len(),
    ensures
        actions[0] == (ManagerAction::RequireAuth { address: call.user }),
        actions[i] is RequireAuth <==> i == 0,
        actions[i] matches ManagerAction::Arm { user, .. } ==> user == call.user,
        actions[i] matches ManagerAction::FlashLoan { from, .. } ==> from == call.user,
{
    lemma_deleverages(manager, call, stages, actions, replies);
    assert(stages[0].asks(actions[0]));
    assert(stages[i].asks(actions[i]));
}

/// What a deleverage asks for, call by call, in the terms of the user's own call:
/// the authorisation; the arming of the stored receiver, on the user's terms; the
/// loan of the collateral to that receiver, with three requests and no others; and
/// in the end nothing but to hand back what the pool replied.
pub proof fn law_what_a_deleverage_asks_for(
    manager: Manager,
    call: DeleverageCall,
    stages: Seq<DeleverageStage>,
    actions: Seq<ManagerAction>,
    replies: Seq<ManagerReply>,
)
    requires
        deleverages(manager, call, stages, actions, replies),
    ensures
        actions.len() <= 4,
        actions[0] == (ManagerAction::RequireAuth { address: call.user }),
        actions.len() > 1 ==> {
            &&& actions[1] matches ManagerAction::Arm { receiver, user, arming }
            &&& manager.receiver == Some(receiver)
            &&& user == call.user
            &&& arming.router == call.router
            &&& arming.collateral == call.collateral
            &&& arming.debt == call.debt
            &&& arming.flash_amount == call.flash_amount
            &&& arming.min_out == call.min_out
            &&& arming.deadline == call.deadline
        },
        actions.len() > 2 ==> {
            &&& actions[2] matches ManagerAction::FlashLoan { pool, from, loan, requests }
            &&& pool == call.pool
            &&& from == call.user
            &&& manager.receiver == Some(loan.contract)
            &&& loan.asset == call.collateral
            &&& loan.amount == call.flash_amount
            &&& requests@.len() == 3
            &&& requests@[0].request_type == 5
            &&& requests@[0].address == call.debt
            &&& requests@[0].amount == call.repay_amount
            &&& requests@[1].request_type == 3
            &&& requests@[1].address == call.collateral
            &&& requests@[1].amount == call.unwind_amount
            &&& requests@[2].request_type == 5
            &&& requests@[2].address == call.collateral
            &&& requests@[2].amount == call.unwind_amount
        },
        actions.len() > 3 ==> {
            &&& actions[3] is Return
            &&& replies[2] matches ManagerReply::Positions(positions)
            &&& stages[3] == (DeleverageStage::Settled { positions })
        },
{
    lemma_deleverages(manager, call, stages, actions, replies);
    assert(stages[0].asks(actions[0]));
    if actions.len() > 1 {
        assert(stages[1].asks(actions[1]));
    }
    if actions.len() > 2 {
        assert(stages[2].asks(actions[2]));
    }
    if actions.len() > 3 {
        assert(stages[3].asks(actions[3]));
        assert(stages[2].accepts(replies[2]));
    }
}

/// What the replies to a deleverage lead to. Each call takes the reply of its own
/// kind and no other. Once the user has authorised the call it is refused for the
/// first rule that it breaks, and for that alone; after that nothing is refused.
pub proof fn law_what_a_deleverage_refuses(
    manager: Manager,
    call: DeleverageCall,
    stages: Seq<DeleverageStage>,
    actions: Seq<ManagerAction>,
    replies: Seq<ManagerReply>,
    reply: ManagerReply,
)
    requires
        deleverages(manager, call, stages, actions, replies),
    ensures
        ({
            let stage = stages.last();
            let positive = call.flash_amount > 0 && call.unwind_amount > 0 && call.repay_amount > 0;
            let bounded = positive && call.min_out > 0;
            let covering = bounded && call.unwind_amount >= call.flash_amount;
            let distinct_assets = covering && call.collateral != call.debt;
            let paid_for = distinct_assets && call.min_out >= call.repay_amount;
            let sound = paid_for && manager.receiver is Some;
            &&& stage.accepts(reply) <==> match actions.last() {
                ManagerAction::RequireAuth { .. } => reply is Done,
                ManagerAction::Arm { .. } => reply is Done,
                ManagerAction::FlashLoan { .. } => reply is Positions,
                ManagerAction::Return => false,
            }
            &&& replies.len() == 0 ==> {
                &&& stage.next(ManagerReply::Done) is Ok <==> sound
                &&& stage.next(ManagerReply::Done) matches Err(error) ==> {
                    &&& error is InvalidAmount <==> !positive
                    &&& error is MissingSlippageBound <==> positive && !bounded
                    &&& error is UnwindBelowFlash <==> bounded && !covering
                    &&& error is SameAsset <==> covering && !distinct_assets
                    &&& error is ProceedsBelowRepayment <==> distinct_assets && !paid_for
                    &&& error is NotInitialised <==> paid_for && !sound
                }
            }
            &&& replies.len() > 0 ==> sound && stage.next(reply) is Ok
        }),
{
    lemma_deleverages(manager, call, stages, actions, replies);
    let end = stages.len() - 1;
    assert(stages[end].asks(actions[end]));
    if replies.len() > 0 {
        assert(stages[0].accepts(replies[0]));
    }
}

/// What the pool makes of the requests of a deleverage, by a model of the pool that
/// follows the position: the debt falls by the repayment as far as there is debt,
/// the collateral falls by what is unwound and is owed that much less, and no other
/// asset is touched. A request of another kind would have no outcome in the model,
/// and one that lends would raise the debt.
pub proof fn law_position_after_a_deleverage(
    manager: Manager,
    call: DeleverageCall,
    stages: Seq<DeleverageStage>,
    actions: Seq<ManagerAction>,
    replies: Seq<ManagerReply>,
    holding: Holding,
    token: Address,
)
    requires
        deleverages(manager, call, stages, actions, replies),
        actions.len() > 2,
    ensures
        actions[2] matches ManagerAction::FlashLoan { requests, .. } && {
            let repaid = vstd::math::min(call.repay_amount as int, holding.owed);
            let returned = vstd::math::min(call.unwind_amount as int, holding.owed);
            &&& holding.settled(requests@, token) matches Some(left)
            &&& token == call.debt ==> {
                &&& left.owed == holding.owed - repaid
                &&& left.supplied == holding.supplied
                &&& left.sent == holding.sent - repaid
            }
            &&& token == call.collateral ==> {
                &&& left.owed == holding.owed - returned
                &&& left.supplied == holding.supplied - call.unwind_amount
                &&& left.sent == holding.sent + call.unwind_amount - returned
            }
            &&& token != call.debt && token != call.collateral ==> left == holding
        },
{
    law_what_a_deleverage_asks_for(manager, call, stages, actions, replies);
    lemma_deleverages(manager, call, stages, actions, replies);
    assert(stages[0].accepts(replies[0]));
    let all = actions[2]->requests@;
    let tail = all.skip(1);
    let last = tail.skip(1);
    let none = last.skip(1);
    assert(tail[0] == all[1]);
    assert(last[0] == all[2]);
    assert(none.len() == 0);
    reveal_with_fuel(Holding::settled, 4);
}

/// What initialising the receiver does: with no manager yet, it stores the one given
/// and changes nothing else; with one, it is refused.
pub proof fn law_what_init_does(state: ReceiverState, manager: Address)
    ensures
        state.init(manager) is Ok <==> state.manager is None,
        state.init(manager) matches Ok(left) ==> left.manager == Some(manager) && left.now
            == state.now && left.armed == state.armed,
        state.init(manager) matches Err(error) ==> error is AlreadyInitialised,
{
}

/// What arming does: the user has exactly these instructions, armed in the current
/// transaction; other users, the manager and the transaction stay as they are.
pub proof fn law_what_arming_does(
    state: ReceiverState,
    user: Address,
    arming: Arming,
    other: Address,
    now: Transaction,
)
    ensures
        ({
            let left = state.arm(user, arming);
            &&& left.manager == state.manager
            &&& left.now == state.now
            &&& left.armed.contains_key(user)
            &&& left.armed[user].arming == arming
            &&& left.armed[user].armed_in == state.now
            &&& other != user ==> {
                &&& left.armed.contains_key(other) == state.armed.contains_key(other)
                &&& left.armed[other] == state.armed[other]
            }
        }),
        state.inside(now).now == now,
        state.inside(now).manager == state.manager,
        state.inside(now).armed == state.armed,
{
}

/// What a callback does: without an arming of the caller's from this transaction it
/// finds none; with one it must bring the armed asset in the armed amount; and when
/// it does, that arming is gone, nothing else has changed, and what begins is for
/// this receiver, this caller and these instructions.
pub proof fn law_what_a_callback_does(
    state: ReceiverState,
    me: Address,
    caller: Address,
    token_in: Address,
    amount: i128,
    other: Address,
)
    ensures
        ({
            let armed = state.armed.contains_key(caller) && state.armed[caller].armed_in
                == state.now;
            let arming = state.armed[caller].arming;
            let matching = token_in == arming.collateral && amount == arming.flash_amount;
            &&& state.valid_for(caller) <==> armed
            &&& state.expects(caller, token_in, amount) <==> armed && matching
            &&& match state.exec_op(me, caller, token_in, amount) {
                Ok((left, session)) => {
                    &&& armed && matching
                    &&& session.me == me
                    &&& session.caller == caller
                    &&& session.arming == arming
                    &&& session.stage is FindingPair
                    &&& left.manager == state.manager
                    &&& left.now == state.now
                    &&& !left.armed.contains_key(caller)
                    &&& other != caller ==> {
                        &&& left.armed.contains_key(other) == state.armed.contains_key(other)
                        &&& left.armed[other] == state.armed[other]
                    }
                },
                Err(error) => {
                    &&& error is NotArmed <==> !armed
                    &&& error is ArmingMismatch <==> armed && !matching
                    &&& !armed || !matching
                },
            }
        }),
{
}

/// What a sweep transfers: a positive balance whole, and otherwise nothing.
pub proof fn law_what_a_sweep_transfers(asset: Address, from: Address, to: Address, balance: i128)
    ensures
        Receiver::swept(asset, from, to, balance) is Some <==> balance > 0,
        Receiver::swept(asset, from, to, balance) matches Some(transfer) ==> {
            &&& transfer.token == asset
            &&& transfer.from == from
            &&& transfer.to == to
            &&& transfer.amount == balance
        },
{
}

/// A callback, told by the calls that it asks for and by their replies, whatever
/// tokens and router gave them. The last call has not been answered yet.
pub open spec fn calls_back(
    states: Seq<CallbackState>,
    actions: Seq<ReceiverAction>,
    replies: Seq<ReceiverReply>,
) -> bool {
    &&& follows(states, replies)
    &&& actions.len() == states.len()
    &&& forall|i: int| 0 <= i < actions.len() ==> states[i].asks(#[trigger] actions[i])
}

/// One where a reply shows a balance to hand over, and nil where it does not.
pub open spec fn sends(reply: ReceiverReply) -> int {
    if reply->Balance_0 > 0 {
        1
    } else {
        0
    }
}

/// The stage that a callback is at once it has had so many replies.
spec fn stage_after(replies: Seq<ReceiverReply>, i: int) -> CallbackStage {
    let d = sends(replies[5]);
    let c = sends(replies[6 + d]);
    if i == 0 {
        CallbackStage::FindingPair
    } else if i == 1 {
        CallbackStage::Authorising { pair: replies[0]->Pair_0 }
    } else if i == 2 {
        CallbackStage::Opening
    } else if i == 3 {
        CallbackStage::Swapping { before: replies[2]->Balance_0 }
    } else if i == 4 {
        CallbackStage::Closing { before: replies[2]->Balance_0 }
    } else if i == 5 {
        CallbackStage::CountingDebt
    } else if i == 6 && d == 1 {
        CallbackStage::SendingDebt { amount: replies[5]->Balance_0 }
    } else if i == 6 + d {
        CallbackStage::CountingCollateral
    } else if i == 7 + d && c == 1 {
        CallbackStage::SendingCollateral { amount: replies[6 + d]->Balance_0 }
    } else if i == 7 + d + c {
        CallbackStage::CheckingDebt
    } else if i == 8 + d + c {
        CallbackStage::CheckingCollateral
    } else {
        CallbackStage::Settled
    }
}

proof fn lemma_stage_after(states: Seq<CallbackState>, replies: Seq<ReceiverReply>, i: int)
    requires
        follows(states, replies),
        0 <= i < states.len(),
    ensures
        states[i].me == states[0].me,
        states[i].caller == states[0].caller,
        states[i].arming == states[0].arming,
        states[i].stage == stage_after(replies, i),
        i <= 9 + sends(replies[5]) + sends(replies[6 + sends(replies[5])]),
    decreases i,
{
    if i > 0 {
        lemma_stage_after(states, replies, i - 1);
        assert(states[i - 1].accepts(replies[i - 1]));
    }
}

/// What a callback asks for, call by call, in the terms of its instructions and of
/// the replies so far: the pair for the two assets; leave for the router's transfer
/// into the very pair that it named; the balance before; the sale; the balance
/// after; each asset's balance, and where there is any, its transfer to the caller,
/// whole; and both balances once more.
pub proof fn law_what_a_callback_asks_for(
    states: Seq<CallbackState>,
    actions: Seq<ReceiverAction>,
    replies: Seq<ReceiverReply>,
    i: int,
)
    requires
        calls_back(states, actions, replies),
        0 <= i < actions.len(),
    ensures
        ({
            let me = states[0].me;
            let caller = states[0].caller;
            let arming = states[0].arming;
            let d = sends(replies[5]);
            let c = sends(replies[6 + d]);
            let read_debt = ReceiverAction::ReadBalance { token: arming.debt, holder: me };
            let read_collateral = ReceiverAction::ReadBalance {
                token: arming.collateral,
                holder: me,
            };
            &&& i == 0 ==> {
                &&& actions[i] matches ReceiverAction::FindPair { router, token_a, token_b }
                &&& router == arming.router
                &&& token_a == arming.collateral
                &&& token_b == arming.debt
            }
            &&& i == 1 ==> {
                &&& replies[0] matches ReceiverReply::Pair(pair)
                &&& actions[i] matches ReceiverAction::AuthoriseTransfer(transfer)
                &&& transfer.token == arming.collateral
                &&& transfer.from == me
                &&& transfer.to == pair
                &&& transfer.amount == arming.flash_amount
            }
            &&& i == 2 ==> actions[i] == read_debt
            &&& i == 3 ==> {
                &&& actions[i] matches ReceiverAction::Swap {
                    router,
                    amount_in,
                    amount_out_min,
                    path,
                    to,
                    deadline,
                }
                &&& router == arming.router
                &&& amount_in == arming.flash_amount
                &&& amount_out_min == arming.min_out
                &&& path@.len() == 2
                &&& path@[0] == arming.collateral
                &&& path@[1] == arming.debt
                &&& to == me
                &&& deadline == arming.deadline
            }
            &&& i == 4 || i == 5 ==> actions[i] == read_debt
            &&& i == 6 && d == 1 ==> {
                &&& actions[i] matches ReceiverAction::Send(transfer)
                &&& transfer.token == arming.debt
                &&& transfer.from == me
                &&& transfer.to == caller
                &&& replies[5] == ReceiverReply::Balance(transfer.amount)
            }
            &&& i == 6 + d ==> actions[i] == read_collateral
            &&& i == 7 + d && c == 1 ==> {
                &&& actions[i] matches ReceiverAction::Send(transfer)
                &&& transfer.token == arming.collateral
                &&& transfer.from == me
                &&& transfer.to == caller
                &&& replies[6 + d] == ReceiverReply::Balance(transfer.amount)
            }
            &&& i == 7 + d + c ==> actions[i] == read_debt
            &&& i == 8 + d + c ==> actions[i] == read_collateral
            &&& i == 9 + d + c ==> actions[i] is Return
            &&& i <= 9 + d + c
        }),
{
    lemma_stage_after(states, replies, i);
    assert(states[i].asks(actions[i]));
    let d = sends(replies[5]);
    if i == 1 {
        assert(states[0].accepts(replies[0]));
    }
    if i > 5 {
        assert(states[5].accepts(replies[5]));
        lemma_stage_after(states, replies, 5);
    }
    if i > 6 + d {
        assert(states[6 + d].accepts(replies[6 + d]));
        lemma_stage_after(states, replies, 6 + d);
    }
}

/// What the replies to a callback lead to. Each call takes the reply of its own kind
/// and no other, and the balance after the sale must be one whose difference to the
/// one before can be counted. The callback fails at three points and no others: when
/// the sale brought in less than the floor, and when either of the two balances read
/// last is not nil.
pub proof fn law_what_a_callback_refuses(
    states: Seq<CallbackState>,
    actions: Seq<ReceiverAction>,
    replies: Seq<ReceiverReply>,
    reply: ReceiverReply,
)
    requires
        calls_back(states, actions, replies),
    ensures
        ({
            let state = states.last();
            let n = replies.len() as int;
            let d = sends(replies[5]);
            let c = sends(replies[6 + d]);
            let rise = reply->Balance_0 - replies[2]->Balance_0;
            let checking = n == 7 + d + c || n == 8 + d + c;
            &&& state.accepts(reply) <==> match actions.last() {
                ReceiverAction::FindPair { .. } => reply is Pair,
                ReceiverAction::AuthoriseTransfer(_) => reply is Done,
                ReceiverAction::ReadBalance { .. } => reply is Balance && (n == 4 ==> i128::MIN
                    <= rise <= i128::MAX),
                ReceiverAction::Swap { .. } => reply is Swapped,
                ReceiverAction::Send(_) => reply is Done,
                ReceiverAction::Return => false,
            }
            &&& state.accepts(reply) ==> match state.next(reply) {
                Ok(_) => {
                    &&& n == 4 ==> rise >= states[0].arming.min_out
                    &&& checking ==> reply->Balance_0 == 0
                },
                Err(error) => {
                    ||| n == 4 && rise < states[0].arming.min_out && error is SlippageExceeded
                    ||| checking && reply->Balance_0 != 0 && error is ResidualBalance
                },
            }
        }),
{
    let end = states.len() - 1;
    lemma_stage_after(states, replies, end);
    assert(states[end].asks(actions[end]));
}

/// From the user's call to the sale: the callback that comes for the loan that a
/// deleverage asked for, on the arming that it asked for, goes ahead, and whatever it
/// asks for is on the terms of the user's own call.
pub proof fn law_the_sale_is_on_the_terms_of_the_call(
    manager: Manager,
    call: DeleverageCall,
    stages: Seq<DeleverageStage>,
    asked: Seq<ManagerAction>,
    answered: Seq<ManagerReply>,
    state: ReceiverState,
    states: Seq<CallbackState>,
    actions: Seq<ReceiverAction>,
    replies: Seq<ReceiverReply>,
    i: int,
)
    requires
        deleverages(manager, call, stages, asked, answered),
        asked.len() > 2,
        calls_back(states, actions, replies),
        0 <= i < actions.len(),
        state.arm(asked[1]->Arm_user, asked[1]->Arm_arming).exec_op(
            asked[2]->loan.contract,
            asked[2]->from,
            asked[2]->loan.asset,
            asked[2]->loan.amount,
        ) matches Ok((_, session)) ==> states[0] == session,
    ensures
        state.arm(asked[1]->Arm_user, asked[1]->Arm_arming).exec_op(
            asked[2]->loan.contract,
            asked[2]->from,
            asked[2]->loan.asset,
            asked[2]->loan.amount,
        ) is Ok,
        manager.receiver == Some(states[0].me),
        actions[i] matches ReceiverAction::FindPair { router, token_a, token_b } ==> router
            == call.router && token_a == call.collateral && token_b == call.debt,
        actions[i] matches ReceiverAction::AuthoriseTransfer(transfer) ==> {
            &&& replies[0] == ReceiverReply::Pair(transfer.to)
            &&& transfer.token == call.collateral
            &&& manager.receiver == Some(transfer.from)
            &&& transfer.amount == call.flash_amount
        },
        actions[i] matches ReceiverAction::Swap {
            router,
            amount_in,
            amount_out_min,
            path,
            to,
            deadline,
        } ==> {
            &&& router == call.router
            &&& amount_in == call.flash_amount
            &&& amount_out_min == call.min_out
            &&& path@.len() == 2
            &&& path@[0] == call.collateral
            &&& path@[1] == call.debt
            &&& manager.receiver == Some(to)
            &&& deadline == call.deadline
        },
        actions[i] matches ReceiverAction::ReadBalance { token, holder } ==> {
            &&& token == call.debt || token == call.collateral
            &&& manager.receiver == Some(holder)
        },
        actions[i] matches ReceiverAction::Send(transfer) ==> {
            &&& transfer.token == call.debt || transfer.token == call.collateral
            &&& manager.receiver == Some(transfer.from)
            &&& transfer.to == call.user
            &&& replies[i - 1] == ReceiverReply::Balance(transfer.amount)
        },
        i > 3 ==> actions[3] is Swap,
        i > 4 ==> replies[4]->Balance_0 - replies[2]->Balance_0 >= call.min_out,
{
    law_what_a_deleverage_asks_for(manager, call, stages, asked, answered);
    law_what_arming_does(state, call.user, asked[1]->Arm_arming, call.user, state.now);
    law_what_a_callback_does(
        state.arm(call.user, asked[1]->Arm_arming),
        asked[2]->loan.contract,
        call.user,
        call.collateral,
        call.flash_amount,
        call.user,
    );
    law_what_a_callback_asks_for(states, actions, replies, i);
    if i > 3 {
        law_what_a_callback_asks_for(states, actions, replies, 3);
    }
    if i > 4 {
        lemma_shown(states, replies, i);
    }
}

/// The floor that a sale is held to is the one of the user's own call: once the sale
/// is over, the callback goes on exactly when the balance of the debt asset rose by at
/// least the call's `min_out`, and is refused otherwise.
pub proof fn law_the_calls_own_floor_decides(
    manager: Manager,
    call: DeleverageCall,
    stages: Seq<DeleverageStage>,
    asked: Seq<ManagerAction>,
    answered: Seq<ManagerReply>,
    state: ReceiverState,
    left: ReceiverState,
    states: Seq<CallbackState>,
    actions: Seq<ReceiverAction>,
    replies: Seq<ReceiverReply>,
    before: i128,
    after: i128,
)
    requires
        deleverages(manager, call, stages, asked, answered),
        asked.len() > 2,
        calls_back(states, actions, replies),
        state.arm(asked[1]->Arm_user, asked[1]->Arm_arming).exec_op(
            asked[2]->loan.contract,
            asked[2]->from,
            asked[2]->loan.asset,
            asked[2]->loan.amount,
        ) == Ok::<(ReceiverState, CallbackState), ReceiverError>((left, states[0])),
        replies.len() == 4,
        replies[2] == ReceiverReply::Balance(before),
        i128::MIN <= after - before <= i128::MAX,
    ensures
        actions[2] == (ReceiverAction::ReadBalance { token: call.debt, holder: states[0].me }),
        actions[3] is Swap,
        actions[4] == (ReceiverAction::ReadBalance { token: call.debt, holder: states[0].me }),
        states[4].accepts(ReceiverReply::Balance(after)),
        states[4].next(ReceiverReply::Balance(after)) is Ok <==> after - before >= call.min_out,
        states[4].next(ReceiverReply::Balance(after)) matches Err(error) ==> error
            is SlippageExceeded,
{
    law_what_a_deleverage_asks_for(manager, call, stages, asked, answered);
    law_what_arming_does(state, call.user, asked[1]->Arm_arming, call.user, state.now);
    law_what_a_callback_does(
        state.arm(call.user, asked[1]->Arm_arming),
        asked[2]->loan.contract,
        call.user,
        call.collateral,
        call.flash_amount,
        call.user,
    );
    law_what_a_callback_asks_for(states, actions, replies, 2);
    law_what_a_callback_asks_for(states, actions, replies, 3);
    law_what_a_callback_asks_for(states, actions, replies, 4);
    law_what_a_callback_refuses(states, actions, replies, ReceiverReply::Balance(after));
}

} // verus!
