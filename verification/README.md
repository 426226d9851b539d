# Trims

A non-custodial position manager for Blend, Stellar's lending protocol. A borrower
sells part of the collateral to repay the debt in one transaction, without
bringing capital.

The library in `src/` holds the decisions of the two contracts, verified with
Verus:

| Module | What it holds |
|---|---|
| `types` | the values that pass between the contracts |
| `error` | the errors of the two contracts, with their numbers |
| `manager` | the `Manager`, and `Deleverage`, the session that a user's call begins |
| `receiver` | the `Receiver`: its manager, and what is armed for each user |
| `callback` | `Callback`, the session that the pool's callback begins |
| `ledger` | a model of token balances and of the pool's settlement, for the laws |
| `laws` | what holds of the contracts as a whole |

A session names the call that it waits for (`action`), says whether a reply
answers it (`accepts`), and goes on from the reply (`resume`). An error aborts the
transaction, and the host discards what the transaction had changed.

`app/` holds the Soroban contracts. They load what the ledger stores, make the
calls that a session asks for, and hand the replies back. A host call reads or
changes the ledger and traps when it fails, so none is made from `src/`.

## The order of a deleverage

1. The user authorises the call.
2. The manager holds the call against its rules.
3. The manager arms the receiver for one callback.
4. The manager asks the pool for a flash loan of the collateral asset, and with it
   to repay the debt, to withdraw collateral, and to repay the loan out of it.
5. The pool calls the receiver back. The receiver consumes the arming, authorises
   the router's transfer, sells the loan, checks what arrived against the floor,
   and hands everything that it holds to the user.
6. The pool nets the flows of each asset and settles.

An arming is valid only inside the transaction that armed it. The library goes by
the mark of a transaction that it is given. The host shows a contract no identity
of its transaction, so the contracts in `app/` give the ledger's sequence number,
which transactions of one ledger share.

## What the laws rest on

The laws on balances are about tokens that keep their books: a balance read is the
balance held, and a transfer moves what it says. Of the router they take nothing
for granted. That the pool nets flows of one asset and refunds what is repaid
beyond the debt is a model of the pool, not a proof about it.
