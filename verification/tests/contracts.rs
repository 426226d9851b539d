//! The two contracts at work, on a ledger with stub counterparties, so that each
//! rule is isolated.

use std::collections::BTreeMap;
use trims::{
    Address, Armed, Arming, Callback, Deleverage, FlashLoan, Manager, ManagerAction, ManagerError,
    ManagerReply, Positions, Receiver, ReceiverAction, ReceiverError, ReceiverReply, Request,
    Transaction, Transfer,
};

/// Why a transaction was aborted.
#[derive(Clone, Copy, Debug, PartialEq, Eq)]
enum Failure {
    Manager(ManagerError),
    Receiver(ReceiverError),
    /// A counterparty, or the host, gave up.
    Trap(&'static str),
}

#[derive(Clone, Copy)]
enum Router {
    /// Sells at a fixed rate and honours `amount_out_min`.
    FixedRate { num: i128, den: i128 },
    /// Hands over a single stroop and claims that the floor was met.
    Lying,
    /// Trades along a constant product, with a fee of 0.3%.
    ConstantProduct,
}

#[derive(Clone, Copy)]
enum Pool {
    /// Hands over the loan and calls back; ignores the requests.
    Stub,
    /// Keeps the loan, never calls back, and claims to have settled.
    Silent,
    /// Settles the requests as well, netting the flows of each asset and refunding
    /// what is repaid beyond the debt.
    Settling,
}

/// A token that keeps its books, or one that invents a balance when asked.
#[derive(Clone, Copy, PartialEq, Eq)]
enum Books {
    Honest,
    /// Reports this much to any holder, and moves nothing.
    Stuck(i128),
}

#[derive(Clone)]
struct World {
    balances: BTreeMap<([u8; 56], [u8; 56]), i128>,
    books: BTreeMap<[u8; 56], Books>,
    routers: BTreeMap<[u8; 56], Router>,
    /// Who was asked for an authorisation, in order.
    auths: Vec<Address>,
    /// The transfers that the receiver lets another contract make.
    allowed: Vec<Transfer>,
    /// What the pool was asked to do.
    requests: Vec<Request>,
    /// What the user owes the pool of each asset.
    owed: BTreeMap<[u8; 56], i128>,
    /// The collateral that the user has in the pool, of each asset.
    supplied: BTreeMap<[u8; 56], i128>,
    /// The current transaction.
    transaction: Transaction,
    pool: Pool,
    manager: Address,
    receiver: Address,
}

impl World {
    fn balance(&self, token: Address, holder: Address) -> i128 {
        if let Some(Books::Stuck(balance)) = self.books.get(&token.strkey) {
            return *balance;
        }
        *self.balances.get(&(token.strkey, holder.strkey)).unwrap_or(&0)
    }

    fn mint(&mut self, token: Address, to: Address, amount: i128) {
        *self.balances.entry((token.strkey, to.strkey)).or_insert(0) += amount;
    }

    fn transfer(
        &mut self,
        token: Address,
        from: Address,
        to: Address,
        amount: i128,
    ) -> Result<(), Failure> {
        if let Some(Books::Stuck(_)) = self.books.get(&token.strkey) {
            return Ok(());
        }
        if amount < 0 || self.balance(token, from) < amount {
            return Err(Failure::Trap("balance too low"));
        }
        self.mint(token, from, -amount);
        self.mint(token, to, amount);
        Ok(())
    }

    /// The router takes its input, which the seller must have authorised.
    fn pull(
        &mut self,
        token: Address,
        from: Address,
        to: Address,
        amount: i128,
    ) -> Result<(), Failure> {
        let wanted: Transfer = Transfer { token, from, to, amount };
        match self.allowed.iter().position(|t| *t == wanted) {
            Some(i) => {
                self.allowed.remove(i);
            }
            None => return Err(Failure::Trap("transfer not authorised")),
        }
        self.transfer(token, from, to, amount)
    }

    /// The stub routers trade out of their own pocket: they are their own pair.
    fn pair_for(&self, router: Address, _a: Address, _b: Address) -> Address {
        router
    }

    fn swap(
        &mut self,
        router: Address,
        amount_in: i128,
        amount_out_min: i128,
        path: &[Address],
        to: Address,
    ) -> Result<Vec<i128>, Failure> {
        let token_in: Address = path[0];
        let token_out: Address = path[path.len() - 1];
        match self.routers[&router.strkey] {
            Router::FixedRate { num, den } => {
                let out: i128 = amount_in * num / den;
                if out < amount_out_min {
                    return Err(Failure::Trap("router: below floor"));
                }
                self.pull(token_in, to, router, amount_in)?;
                self.transfer(token_out, router, to, out)?;
                Ok(vec![amount_in, out])
            }
            Router::Lying => {
                self.pull(token_in, to, router, amount_in)?;
                self.transfer(token_out, router, to, 1)?;
                Ok(vec![amount_in, amount_out_min])
            }
            Router::ConstantProduct => {
                let reserve_in: i128 = self.balance(token_in, router);
                let reserve_out: i128 = self.balance(token_out, router);
                let counted: i128 = amount_in * 997;
                let out: i128 = counted * reserve_out / (reserve_in * 1000 + counted);
                if out < amount_out_min {
                    return Err(Failure::Trap("router: below floor"));
                }
                self.pull(token_in, to, router, amount_in)?;
                self.transfer(token_out, router, to, out)?;
                Ok(vec![amount_in, out])
            }
        }
    }

    fn drive_callback(&mut self, mut callback: Callback) -> Result<(), Failure> {
        loop {
            let reply: ReceiverReply = match callback.action() {
                ReceiverAction::FindPair { router, token_a, token_b } => {
                    ReceiverReply::Pair(self.pair_for(router, token_a, token_b))
                }
                ReceiverAction::AuthoriseTransfer(transfer) => {
                    self.allowed.push(transfer);
                    ReceiverReply::Done
                }
                ReceiverAction::ReadBalance { token, holder } => {
                    ReceiverReply::Balance(self.balance(token, holder))
                }
                ReceiverAction::Swap { router, amount_in, amount_out_min, path, to, .. } => {
                    ReceiverReply::Swapped(self.swap(
                        router,
                        amount_in,
                        amount_out_min,
                        &path,
                        to,
                    )?)
                }
                ReceiverAction::Send(t) => {
                    self.transfer(t.token, t.from, t.to, t.amount)?;
                    ReceiverReply::Done
                }
                ReceiverAction::Return => return Ok(()),
            };
            assert!(callback.accepts(&reply));
            callback = match callback.resume(reply) {
                Ok(callback) => callback,
                Err(error) => return Err(Failure::Receiver(error)),
            };
        }
    }

    /// The manager calls the receiver directly, which authorises the call on the
    /// manager's behalf and on nobody else's.
    fn arm(
        &mut self,
        rx: &mut Receiver,
        invoker: Address,
        user: Address,
        arming: Arming,
    ) -> Result<(), Failure> {
        let request = match rx.arm(user, arming) {
            Ok(request) => request,
            Err(error) => return Err(Failure::Receiver(error)),
        };
        self.auths.push(request.approver());
        if request.approver() != invoker {
            return Err(Failure::Trap("not authorised"));
        }
        rx.approve(request);
        Ok(())
    }

    fn exec_op(
        &mut self,
        rx: &mut Receiver,
        caller: Address,
        token_in: Address,
        amount: i128,
    ) -> Result<(), Failure> {
        let me: Address = self.receiver;
        match rx.exec_op(me, caller, token_in, amount, 0) {
            Ok(callback) => self.drive_callback(callback),
            Err(error) => Err(Failure::Receiver(error)),
        }
    }

    fn flash_loan(
        &mut self,
        rx: &mut Receiver,
        pool: Address,
        from: Address,
        loan: FlashLoan,
        requests: Vec<Request>,
    ) -> Result<Positions, Failure> {
        if let Pool::Silent = self.pool {
            return Ok(self.positions());
        }
        self.transfer(loan.asset, pool, loan.contract, loan.amount)?;
        self.exec_op(rx, from, loan.asset, loan.amount)?;
        self.requests = requests;
        if let Pool::Settling = self.pool {
            *self.owed.entry(loan.asset.strkey).or_insert(0) += loan.amount;
            self.settle(pool, from)?;
        }
        Ok(self.positions())
    }

    fn positions(&self) -> Positions {
        Positions {
            liabilities: reserves(&self.owed),
            collateral: reserves(&self.supplied),
            supply: BTreeMap::new(),
        }
    }

    /// Nets the flows of each asset, then sends or pulls what is left of them.
    fn settle(&mut self, pool: Address, user: Address) -> Result<(), Failure> {
        let mut net: BTreeMap<[u8; 56], i128> = BTreeMap::new();
        for request in self.requests.clone() {
            let flow: &mut i128 = net.entry(request.address.strkey).or_insert(0);
            if request.request_type == 3 {
                let supplied: &mut i128 =
                    self.supplied.entry(request.address.strkey).or_insert(0);
                if *supplied < request.amount {
                    return Err(Failure::Trap("pool: more than was supplied"));
                }
                *supplied -= request.amount;
                *flow += request.amount;
            } else if request.request_type == 5 {
                let owed: &mut i128 = self.owed.entry(request.address.strkey).or_insert(0);
                let taken: i128 = if request.amount < *owed { request.amount } else { *owed };
                *owed -= taken;
                *flow -= taken;
            }
        }
        for (strkey, flow) in net {
            let token: Address = Address { strkey };
            if flow > 0 {
                self.transfer(token, pool, user, flow)?;
            } else if flow < 0 {
                self.transfer(token, user, pool, -flow)?;
            }
        }
        Ok(())
    }

    fn drive_deleverage(
        &mut self,
        rx: &mut Receiver,
        mut deleverage: Deleverage,
    ) -> Result<Positions, Failure> {
        loop {
            let reply: ManagerReply = match deleverage.action() {
                ManagerAction::RequireAuth { address } => {
                    self.auths.push(address);
                    ManagerReply::Done
                }
                ManagerAction::Arm { receiver, user, arming } => {
                    assert_eq!(receiver, self.receiver);
                    let invoker: Address = self.manager;
                    self.arm(rx, invoker, user, arming)?;
                    ManagerReply::Done
                }
                ManagerAction::FlashLoan { pool, from, loan, requests } => {
                    ManagerReply::Positions(self.flash_loan(rx, pool, from, loan, requests)?)
                }
                ManagerAction::Return => {
                    return deleverage.finish().ok_or(Failure::Trap("unfinished"));
                }
            };
            assert!(deleverage.accepts(&reply));
            deleverage = match deleverage.resume(reply) {
                Ok(deleverage) => deleverage,
                Err(error) => return Err(Failure::Manager(error)),
            };
        }
    }
}

/// The amounts by reserve index, where there are any.
fn reserves(amounts: &BTreeMap<[u8; 56], i128>) -> BTreeMap<u32, i128> {
    let mut reserves: BTreeMap<u32, i128> = BTreeMap::new();
    let mut index: u32 = 0;
    for amount in amounts.values() {
        if *amount > 0 {
            reserves.insert(index, *amount);
        }
        index += 1;
    }
    reserves
}

const FLASH: i128 = 100_000;

fn addr(n: u8) -> Address {
    Address { strkey: [n; 56] }
}

struct Fx {
    world: World,
    mgr: Manager,
    rx: Receiver,
    pool: Address,
    router: Address,
    liar: Address,
    collateral: Address,
    debt: Address,
    user: Address,
    arming: Arming,
}

fn setup() -> Fx {
    let collateral: Address = addr(b'A');
    let debt: Address = addr(b'B');
    let manager: Address = addr(b'C');
    let receiver: Address = addr(b'D');
    let pool: Address = addr(b'E');
    let router: Address = addr(b'F');
    let liar: Address = addr(b'G');
    let user: Address = addr(b'H');

    let mut rx: Receiver = Receiver::load(None, None, Transaction { mark: 100 });
    rx.init(manager).unwrap();
    let mut mgr: Manager = Manager { receiver: None };
    mgr.init(receiver).unwrap();

    let mut world: World = World {
        balances: BTreeMap::new(),
        books: BTreeMap::new(),
        routers: BTreeMap::new(),
        auths: Vec::new(),
        allowed: Vec::new(),
        requests: Vec::new(),
        owed: BTreeMap::new(),
        supplied: BTreeMap::new(),
        transaction: Transaction { mark: 100 },
        pool: Pool::Stub,
        manager,
        receiver,
    };
    // 100 collateral -> 1 debt
    world.routers.insert(router.strkey, Router::FixedRate { num: 1, den: 100 });
    world.routers.insert(liar.strkey, Router::Lying);
    world.mint(collateral, pool, 1_000_000_000);
    world.mint(debt, router, 1_000_000_000);

    let arming: Arming = Arming {
        router,
        collateral,
        debt,
        flash_amount: FLASH,
        min_out: 900,
        deadline: u64::MAX,
    };
    Fx { world, mgr, rx, pool, router, liar, collateral, debt, user, arming }
}

impl Fx {
    fn call(
        &mut self,
        debt: Address,
        flash: i128,
        unwind: i128,
        repay: i128,
        min_out: i128,
    ) -> Result<Positions, Failure> {
        let deleverage: Deleverage = self.mgr.deleverage(
            self.user,
            self.pool,
            self.router,
            self.collateral,
            debt,
            flash,
            unwind,
            repay,
            min_out,
            u64::MAX,
        );
        let saved: World = self.world.clone();
        let armed: Option<Armed> = self.rx.armed_for(self.user);
        let done: Result<Positions, Failure> =
            self.world.drive_deleverage(&mut self.rx, deleverage);
        if done.is_err() {
            self.discard(saved, armed);
        }
        done
    }

    /// The reason why a call was rejected, or `None` if it was not.
    fn try_call(
        &mut self,
        debt: Address,
        flash: i128,
        unwind: i128,
        repay: i128,
        min_out: i128,
    ) -> Option<Failure> {
        self.call(debt, flash, unwind, repay, min_out).err()
    }

    /// What the host does when a transaction is aborted.
    fn discard(&mut self, saved: World, armed: Option<Armed>) {
        self.world = saved;
        self.reload(armed);
    }

    fn reload(&mut self, armed: Option<Armed>) {
        let manager: Option<Address> = self.rx.manager().ok();
        let now: Transaction = self.world.transaction;
        self.rx = Receiver::load(manager, armed.map(|armed| (self.user, armed)), now);
    }

    /// A later transaction finds what the storage kept.
    fn next_transaction(&mut self) {
        self.world.transaction.mark += 1;
        let armed: Option<Armed> = self.rx.armed_for(self.user);
        self.reload(armed);
    }

    fn kept(&self, arming: Arming) -> Option<Armed> {
        Some(Armed { arming, armed_in: self.world.transaction })
    }

    fn arm(&mut self, arming: Arming) {
        let manager: Address = self.world.manager;
        let user: Address = self.user;
        self.world.arm(&mut self.rx, manager, user, arming).unwrap();
    }

    /// The pool hands the receiver the flash amount.
    fn fund(&mut self) {
        let receiver: Address = self.world.receiver;
        self.world.mint(self.collateral, receiver, FLASH);
    }

    fn try_exec_op(
        &mut self,
        caller: Address,
        token_in: Address,
        amount: i128,
    ) -> Result<(), Failure> {
        let saved: World = self.world.clone();
        let armed: Option<Armed> = self.rx.armed_for(self.user);
        let done: Result<(), Failure> =
            self.world.exec_op(&mut self.rx, caller, token_in, amount);
        if done.is_err() {
            self.discard(saved, armed);
        }
        done
    }

    fn exec_op(&mut self) {
        let (user, collateral) = (self.user, self.collateral);
        assert_eq!(self.try_exec_op(user, collateral, FLASH), Ok(()));
    }

    fn of_user(&self, token: Address) -> i128 {
        self.world.balance(token, self.user)
    }

    fn of_receiver(&self, token: Address) -> i128 {
        self.world.balance(token, self.world.receiver)
    }
}

// ---------------------------------------------------------------- the manager

#[test]
fn proceeds_reach_the_user_and_nothing_is_retained() {
    let mut fx: Fx = setup();
    fx.call(fx.debt, 100_000, 100_000, 900, 900).unwrap();

    assert_eq!(fx.of_user(fx.debt), 1_000);
    assert_eq!(fx.of_receiver(fx.debt), 0);
    assert_eq!(fx.of_receiver(fx.collateral), 0);
}

#[test]
fn rejects_unbounded_swap() {
    let mut fx: Fx = setup();
    assert_eq!(
        fx.try_call(fx.debt, 100_000, 100_000, 900, 0),
        Some(Failure::Manager(ManagerError::MissingSlippageBound))
    );
}

#[test]
fn rejects_unwind_below_flash() {
    let mut fx: Fx = setup();
    assert_eq!(
        fx.try_call(fx.debt, 100_000, 99_999, 900, 900),
        Some(Failure::Manager(ManagerError::UnwindBelowFlash))
    );
}

#[test]
fn rejects_non_positive_amounts() {
    let mut fx: Fx = setup();
    for (f, u, r) in [
        (0i128, 100_000i128, 900i128),
        (100_000, 0, 900),
        (100_000, 100_000, 0),
        (-1, 100_000, 900),
        (100_000, -1, 900),
        (100_000, 100_000, -1),
    ] {
        assert_eq!(
            fx.try_call(fx.debt, f, u, r, 900),
            Some(Failure::Manager(ManagerError::InvalidAmount))
        );
    }
}

#[test]
fn rejects_same_asset_on_both_legs() {
    let mut fx: Fx = setup();
    let collateral: Address = fx.collateral;
    assert_eq!(
        fx.try_call(collateral, 100_000, 100_000, 900, 900),
        Some(Failure::Manager(ManagerError::SameAsset))
    );
}

#[test]
fn refuses_when_proceeds_would_not_cover_the_repayment() {
    let mut fx: Fx = setup();
    // Guaranteeing 899 while repaying 900 would leave a 1-unit shortfall for the
    // pool to pull from the user's own wallet.
    assert_eq!(
        fx.try_call(fx.debt, 100_000, 100_000, 900, 899),
        Some(Failure::Manager(ManagerError::ProceedsBelowRepayment))
    );
}

#[test]
fn slippage_floor_blocks_a_bad_swap() {
    // Router yields 1_000; demand 1_001.
    let mut fx: Fx = setup();
    assert!(
        fx.try_call(fx.debt, 100_000, 100_000, 900, 1_001).is_some(),
        "a swap below the floor must not settle"
    );
}

#[test]
fn a_lying_router_cannot_settle_a_deleverage() {
    let mut fx: Fx = setup();
    fx.world.mint(fx.debt, fx.liar, 1_000_000);
    fx.router = fx.liar;
    assert_eq!(
        fx.try_call(fx.debt, 100_000, 100_000, 900, 900),
        Some(Failure::Receiver(ReceiverError::SlippageExceeded))
    );
    // The transaction left no trace.
    assert_eq!(fx.of_receiver(fx.collateral), 0);
    assert_eq!(fx.world.balance(fx.collateral, fx.pool), 1_000_000_000);
    assert_eq!(fx.rx.armed_for(fx.user), None);
}

#[test]
fn the_first_broken_rule_is_the_one_reported() {
    let mut fx: Fx = setup();
    let (collateral, debt) = (fx.collateral, fx.debt);
    let cases: [(Address, i128, i128, i128, i128, ManagerError); 5] = [
        (collateral, 0, 0, 0, 0, ManagerError::InvalidAmount),
        (collateral, 10, 9, 5, -3, ManagerError::MissingSlippageBound),
        (collateral, 10, 9, 5, 4, ManagerError::UnwindBelowFlash),
        (collateral, 10, 10, 5, 4, ManagerError::SameAsset),
        (debt, 10, 10, 5, 4, ManagerError::ProceedsBelowRepayment),
    ];
    fx.mgr.receiver = None;
    for (debt, flash, unwind, repay, min_out, error) in cases {
        assert_eq!(
            fx.try_call(debt, flash, unwind, repay, min_out),
            Some(Failure::Manager(error))
        );
    }
    assert_eq!(
        fx.try_call(debt, 10, 10, 5, 5),
        Some(Failure::Manager(ManagerError::NotInitialised))
    );
}

#[test]
fn the_user_authorises_before_anything_is_decided() {
    let fx: Fx = setup();
    let deleverage: Deleverage = fx.mgr.deleverage(
        fx.user,
        fx.pool,
        fx.router,
        fx.collateral,
        fx.collateral,
        0,
        0,
        0,
        0,
        0,
    );
    assert_eq!(deleverage.action(), ManagerAction::RequireAuth { address: fx.user });
    assert!(!deleverage.accepts(&ManagerReply::Positions(Positions {
        liabilities: BTreeMap::new(),
        collateral: BTreeMap::new(),
        supply: BTreeMap::new(),
    })));
    assert!(deleverage.accepts(&ManagerReply::Done));
    assert_eq!(deleverage.resume(ManagerReply::Done).err(), Some(ManagerError::InvalidAmount));
}

#[test]
fn a_deleverage_asks_for_three_calls_and_returns_the_positions() {
    let fx: Fx = setup();
    let deleverage: Deleverage = fx.mgr.deleverage(
        fx.user,
        fx.pool,
        fx.router,
        fx.collateral,
        fx.debt,
        110,
        120,
        7,
        8,
        99,
    );
    let deleverage: Deleverage = deleverage.resume(ManagerReply::Done).unwrap();
    assert_eq!(
        deleverage.action(),
        ManagerAction::Arm {
            receiver: fx.world.receiver,
            user: fx.user,
            arming: Arming {
                router: fx.router,
                collateral: fx.collateral,
                debt: fx.debt,
                flash_amount: 110,
                min_out: 8,
                deadline: 99,
            },
        }
    );
    let deleverage: Deleverage = deleverage.resume(ManagerReply::Done).unwrap();
    assert_eq!(
        deleverage.action(),
        ManagerAction::FlashLoan {
            pool: fx.pool,
            from: fx.user,
            loan: FlashLoan { contract: fx.world.receiver, asset: fx.collateral, amount: 110 },
            requests: vec![
                Request { request_type: 5, address: fx.debt, amount: 7 },
                Request { request_type: 3, address: fx.collateral, amount: 120 },
                Request { request_type: 5, address: fx.collateral, amount: 120 },
            ],
        }
    );
    let mut collateral: BTreeMap<u32, i128> = BTreeMap::new();
    collateral.insert(1, 88_998);
    let positions: Positions =
        Positions { liabilities: BTreeMap::new(), collateral, supply: BTreeMap::new() };
    let deleverage: Deleverage =
        deleverage.resume(ManagerReply::Positions(positions.clone())).unwrap();
    assert_eq!(deleverage.action(), ManagerAction::Return);
    assert!(!deleverage.accepts(&ManagerReply::Done));
    assert_eq!(deleverage.finish(), Some(positions));
}

#[test]
fn an_unfinished_deleverage_has_no_positions() {
    let fx: Fx = setup();
    let deleverage: Deleverage = fx.mgr.deleverage(
        fx.user,
        fx.pool,
        fx.router,
        fx.collateral,
        fx.debt,
        1,
        1,
        1,
        1,
        0,
    );
    assert_eq!(deleverage.finish(), None);
}

#[test]
fn the_manager_is_initialised_once() {
    let mut mgr: Manager = Manager { receiver: None };
    assert_eq!(mgr.receiver(), Err(ManagerError::NotInitialised));
    assert_eq!(mgr.init(addr(b'R')), Ok(()));
    assert_eq!(mgr.init(addr(b'S')), Err(ManagerError::AlreadyInitialised));
    assert_eq!(mgr.receiver(), Ok(addr(b'R')));
}

/// The router trades along a constant product, as Soroswap's pairs do, and the pool
/// nets and settles as Blend does.
#[test]
fn deleverages_through_real_soroswap_from_an_empty_wallet() {
    let scalar_7: i128 = 10i128.pow(7);
    let unit6: i128 = 10i128.pow(6);
    let mut fx: Fx = setup();
    let (xlm, stable, user, pool) = (fx.collateral, fx.debt, fx.user, fx.pool);
    let (manager, receiver) = (fx.world.manager, fx.world.receiver);
    fx.world.pool = Pool::Settling;

    // Deep pair at the oracle's rate: XLM $0.10, STABLE $1.
    let amm: Address = addr(b'Q');
    fx.world.routers.insert(amm.strkey, Router::ConstantProduct);
    fx.world.mint(xlm, amm, 5_000_000 * scalar_7);
    fx.world.mint(stable, amm, 500_000 * unit6);
    fx.router = amm;

    // 100,000 XLM of collateral against 1,000 STABLE of debt.
    fx.world.mint(xlm, user, 100_000 * scalar_7);
    fx.world.transfer(xlm, user, pool, 100_000 * scalar_7).unwrap();
    fx.world.supplied.insert(xlm.strkey, 100_000 * scalar_7);
    fx.world.mint(stable, pool, 1_000 * unit6);
    fx.world.transfer(stable, pool, user, 1_000 * unit6).unwrap();
    fx.world.owed.insert(stable.strkey, 1_000 * unit6);

    // The decisive step: leave the user holding nothing at all.
    let sink: Address = addr(b'S');
    fx.world.transfer(stable, user, sink, fx.of_user(stable)).unwrap();
    fx.world.transfer(xlm, user, sink, fx.of_user(xlm)).unwrap();
    assert_eq!(fx.of_user(stable), 0, "wallet must hold no STABLE");
    assert_eq!(fx.of_user(xlm), 0, "wallet must hold no XLM");

    let flash: i128 = 11_000 * scalar_7;
    let repay: i128 = 1_005 * unit6;
    let after: Positions = fx.call(stable, flash, flash + 10_000, repay, repay).unwrap();

    // The debt is gone, paid for entirely out of collateral the user never held.
    assert_eq!(after.liabilities.len(), 0, "all debt should be cleared");
    assert!(after.collateral.len() > 0, "collateral should remain");
    assert_eq!(after.collateral.get(&0), Some(&(89_000 * scalar_7 - 10_000)));
    // Sold for 1,094.299762; 1,000 of it went to the pool, the overage stayed.
    assert_eq!(fx.of_user(stable), 1_094_299_762 - 1_000 * unit6);
    // Of the collateral only the excess of the unwinding reaches the wallet.
    assert_eq!(fx.of_user(xlm), 10_000);

    // Trims kept nothing.
    assert_eq!(fx.world.balance(xlm, receiver), 0, "receiver must not retain collateral");
    assert_eq!(fx.world.balance(stable, receiver), 0, "receiver must not retain proceeds");
    assert_eq!(fx.world.balance(xlm, manager), 0, "manager must never hold funds");
    assert_eq!(fx.world.balance(stable, manager), 0, "manager must never hold funds");
}

#[test]
fn equal_legs_move_no_collateral_to_the_wallet() {
    let mut fx: Fx = setup();
    fx.world.pool = Pool::Settling;
    fx.world.owed.insert(fx.debt.strkey, 5_000);
    fx.world.supplied.insert(fx.collateral.strkey, 1_000_000);
    fx.call(fx.debt, 100_000, 100_000, 900, 900).unwrap();
    assert_eq!(fx.of_user(fx.collateral), 0);
    // A partial deleverage: 900 of 5,000 repaid out of proceeds of 1,000.
    assert_eq!(fx.of_user(fx.debt), 100);
    assert_eq!(fx.world.owed[&fx.debt.strkey], 4_100);
    assert_eq!(fx.world.owed[&fx.collateral.strkey], 0);
    assert_eq!(fx.world.supplied[&fx.collateral.strkey], 900_000);
}

// --------------------------------------------------------------- the receiver

#[test]
fn cold_callback_is_refused() {
    let mut fx: Fx = setup();
    fx.fund();
    assert_eq!(
        fx.try_exec_op(fx.user, fx.collateral, FLASH),
        Err(Failure::Receiver(ReceiverError::NotArmed))
    );
}

#[test]
fn arming_is_one_shot() {
    let mut fx: Fx = setup();
    fx.arm(fx.arming);
    fx.fund();
    fx.exec_op();

    // A replay inside the same transaction finds nothing.
    fx.fund();
    assert_eq!(
        fx.try_exec_op(fx.user, fx.collateral, FLASH),
        Err(Failure::Receiver(ReceiverError::NotArmed))
    );
}

#[test]
fn an_arming_is_valid_only_inside_its_transaction() {
    let mut fx: Fx = setup();
    fx.arm(fx.arming);
    fx.fund();
    fx.next_transaction();
    assert_eq!(
        fx.try_exec_op(fx.user, fx.collateral, FLASH),
        Err(Failure::Receiver(ReceiverError::NotArmed))
    );
    // What does not match is not looked at either.
    assert_eq!(
        fx.try_exec_op(fx.user, fx.debt, FLASH),
        Err(Failure::Receiver(ReceiverError::NotArmed))
    );
    // Armed again, the user is served, and only once.
    fx.arm(fx.arming);
    fx.exec_op();
    fx.next_transaction();
    assert_eq!(fx.rx.armed_for(fx.user), None);
    assert_eq!(
        fx.try_exec_op(fx.user, fx.collateral, FLASH),
        Err(Failure::Receiver(ReceiverError::NotArmed))
    );
}

#[test]
fn an_arming_that_the_pool_made_no_use_of_lapses() {
    let mut fx: Fx = setup();
    fx.world.pool = Pool::Silent;
    fx.call(fx.debt, 100_000, 100_000, 900, 900).unwrap();
    assert_eq!(fx.rx.armed_for(fx.user), fx.kept(fx.arming));

    fx.next_transaction();
    fx.fund();
    assert_eq!(
        fx.try_exec_op(fx.user, fx.collateral, FLASH),
        Err(Failure::Receiver(ReceiverError::NotArmed))
    );
}

#[test]
fn arming_is_bound_to_one_user() {
    let mut fx: Fx = setup();
    fx.arm(fx.arming);
    fx.fund();
    let stranger: Address = addr(b'Z');
    assert_eq!(
        fx.try_exec_op(stranger, fx.collateral, FLASH),
        Err(Failure::Receiver(ReceiverError::NotArmed))
    );
    assert_eq!(fx.rx.armed_for(fx.user), fx.kept(fx.arming));
}

#[test]
fn callback_must_match_the_arming() {
    let mut fx: Fx = setup();

    fx.arm(fx.arming);
    fx.fund();
    assert_eq!(
        fx.try_exec_op(fx.user, fx.debt, FLASH), // wrong asset
        Err(Failure::Receiver(ReceiverError::ArmingMismatch))
    );

    fx.arm(fx.arming);
    assert_eq!(
        fx.try_exec_op(fx.user, fx.collateral, FLASH + 1), // wrong amount
        Err(Failure::Receiver(ReceiverError::ArmingMismatch))
    );
}

#[test]
fn arming_requires_the_manager() {
    let mut fx: Fx = setup();
    fx.arm(fx.arming);

    let who: &Address = fx.world.auths.first().expect("arm must require an authorisation");
    assert_eq!(*who, fx.world.manager, "only the manager may arm the receiver");

    let stranger: Address = addr(b'Z');
    assert_eq!(
        fx.world.arm(&mut fx.rx, stranger, stranger, fx.arming),
        Err(Failure::Trap("not authorised"))
    );
    assert_eq!(fx.rx.armed_for(stranger), None);
}

#[test]
fn settles_to_the_user_and_retains_nothing() {
    let mut fx: Fx = setup();
    fx.arm(fx.arming);
    fx.fund();
    fx.exec_op();

    assert_eq!(fx.of_user(fx.debt), 1_000);
    assert_eq!(fx.of_receiver(fx.debt), 0);
    assert_eq!(fx.of_receiver(fx.collateral), 0);
}

#[test]
fn a_donation_is_flushed_to_the_user_not_kept() {
    let mut fx: Fx = setup();
    fx.arm(fx.arming);
    fx.fund();
    // Someone dusts the receiver mid-flight.
    let receiver: Address = fx.world.receiver;
    fx.world.mint(fx.debt, receiver, 42);

    fx.exec_op();

    assert_eq!(fx.of_user(fx.debt), 1_042);
    assert_eq!(fx.of_receiver(fx.debt), 0);
}

#[test]
fn a_collateral_donation_is_flushed_as_well() {
    let mut fx: Fx = setup();
    fx.arm(fx.arming);
    fx.fund();
    let receiver: Address = fx.world.receiver;
    fx.world.mint(fx.collateral, receiver, 17);

    fx.exec_op();

    assert_eq!(fx.of_user(fx.collateral), 17);
    assert_eq!(fx.of_receiver(fx.collateral), 0);
}

#[test]
fn a_lying_router_cannot_under_deliver() {
    let mut fx: Fx = setup();
    fx.world.mint(fx.debt, fx.liar, 1_000_000);

    let mut arming: Arming = fx.arming;
    arming.router = fx.liar;
    fx.arm(arming);
    fx.fund();

    // The router's return value claims the floor was met; only the balance
    // delta reveals that it was not.
    assert_eq!(
        fx.try_exec_op(fx.user, fx.collateral, FLASH),
        Err(Failure::Receiver(ReceiverError::SlippageExceeded))
    );
}

#[test]
fn a_prior_donation_cannot_be_counted_as_swap_output() {
    let mut fx: Fx = setup();
    fx.world.mint(fx.debt, fx.liar, 1_000_000);

    // Seed the receiver with more than min_out before the swap. A balance
    // *snapshot* check would pass here; a delta check must not.
    let receiver: Address = fx.world.receiver;
    fx.world.mint(fx.debt, receiver, 5_000);

    let mut arming: Arming = fx.arming;
    arming.router = fx.liar;
    fx.arm(arming);
    fx.fund();

    assert_eq!(
        fx.try_exec_op(fx.user, fx.collateral, FLASH),
        Err(Failure::Receiver(ReceiverError::SlippageExceeded))
    );
}

#[test]
fn cannot_be_reinitialised() {
    let mut fx: Fx = setup();
    let other: Address = addr(b'Z');
    assert_eq!(fx.rx.init(other), Err(ReceiverError::AlreadyInitialised));
    assert_eq!(fx.rx.manager(), Ok(fx.world.manager));
}

#[test]
fn an_uninitialised_receiver_cannot_be_armed() {
    let fx: Fx = setup();
    let rx: Receiver = Receiver::load(None, None, Transaction { mark: 100 });
    assert_eq!(rx.manager(), Err(ReceiverError::NotInitialised));
    assert_eq!(rx.arm(fx.user, fx.arming).err(), Some(ReceiverError::NotInitialised));
}

#[test]
fn the_last_arming_of_a_user_counts() {
    let mut fx: Fx = setup();
    fx.arm(fx.arming);
    let mut second: Arming = fx.arming;
    second.flash_amount = 7;
    fx.arm(second);
    assert_eq!(fx.rx.armed_for(fx.user), fx.kept(second));
    assert_eq!(
        fx.try_exec_op(fx.user, fx.collateral, FLASH),
        Err(Failure::Receiver(ReceiverError::ArmingMismatch))
    );
}

#[test]
fn each_user_keeps_an_arming_of_their_own() {
    let mut fx: Fx = setup();
    let manager: Address = fx.world.manager;
    let users: [Address; 3] = [addr(b'U'), addr(b'V'), addr(b'W')];
    for (i, user) in users.iter().enumerate() {
        let mut arming: Arming = fx.arming;
        arming.min_out = i as i128;
        fx.world.arm(&mut fx.rx, manager, *user, arming).unwrap();
    }
    let me: Address = fx.world.receiver;
    assert!(fx.rx.exec_op(me, users[1], fx.collateral, FLASH, 0).is_ok());
    assert_eq!(fx.rx.armed_for(users[0]).map(|a| a.arming.min_out), Some(0));
    assert_eq!(fx.rx.armed_for(users[1]), None);
    assert_eq!(fx.rx.armed_for(users[2]).map(|a| a.arming.min_out), Some(2));
    assert_eq!(fx.rx.manager(), Ok(manager));
}

#[test]
fn a_token_that_does_not_let_go_blocks_the_callback() {
    let mut fx: Fx = setup();
    fx.arm(fx.arming);
    fx.fund();
    fx.world.books.insert(fx.collateral.strkey, Books::Stuck(FLASH));
    assert_eq!(
        fx.try_exec_op(fx.user, fx.collateral, FLASH),
        Err(Failure::Receiver(ReceiverError::ResidualBalance))
    );
    fx.world.books.insert(fx.collateral.strkey, Books::Stuck(-1));
    assert_eq!(
        fx.try_exec_op(fx.user, fx.collateral, FLASH),
        Err(Failure::Receiver(ReceiverError::ResidualBalance))
    );
}

#[test]
fn the_callback_asks_for_its_calls_in_order() {
    let mut fx: Fx = setup();
    let me: Address = fx.world.receiver;
    let pair: Address = addr(b'P');
    fx.arm(fx.arming);
    let c: Callback = fx.rx.exec_op(me, fx.user, fx.collateral, FLASH, 0).unwrap();
    let read_debt: ReceiverAction = ReceiverAction::ReadBalance { token: fx.debt, holder: me };
    let read_collateral: ReceiverAction =
        ReceiverAction::ReadBalance { token: fx.collateral, holder: me };

    assert_eq!(
        c.action(),
        ReceiverAction::FindPair { router: fx.router, token_a: fx.collateral, token_b: fx.debt }
    );
    assert!(!c.accepts(&ReceiverReply::Done));
    let c: Callback = c.resume(ReceiverReply::Pair(pair)).unwrap();
    assert_eq!(
        c.action(),
        ReceiverAction::AuthoriseTransfer(Transfer {
            token: fx.collateral,
            from: me,
            to: pair,
            amount: FLASH,
        })
    );
    let c: Callback = c.resume(ReceiverReply::Done).unwrap();
    assert_eq!(c.action(), read_debt);
    let c: Callback = c.resume(ReceiverReply::Balance(100)).unwrap();
    assert_eq!(
        c.action(),
        ReceiverAction::Swap {
            router: fx.router,
            amount_in: FLASH,
            amount_out_min: 900,
            path: vec![fx.collateral, fx.debt],
            to: me,
            deadline: u64::MAX,
        }
    );
    let c: Callback = c.resume(ReceiverReply::Swapped(vec![])).unwrap();
    assert_eq!(c.action(), read_debt);
    let c: Callback = c.resume(ReceiverReply::Balance(1_000)).unwrap();
    assert_eq!(c.action(), read_debt);
    let c: Callback = c.resume(ReceiverReply::Balance(1_000)).unwrap();
    assert_eq!(
        c.action(),
        ReceiverAction::Send(Transfer { token: fx.debt, from: me, to: fx.user, amount: 1_000 })
    );
    let c: Callback = c.resume(ReceiverReply::Done).unwrap();
    assert_eq!(c.action(), read_collateral);
    let c: Callback = c.resume(ReceiverReply::Balance(5)).unwrap();
    assert_eq!(
        c.action(),
        ReceiverAction::Send(Transfer { token: fx.collateral, from: me, to: fx.user, amount: 5 })
    );
    let c: Callback = c.resume(ReceiverReply::Done).unwrap();
    assert_eq!(c.action(), read_debt);
    let c: Callback = c.resume(ReceiverReply::Balance(0)).unwrap();
    assert_eq!(c.action(), read_collateral);
    let c: Callback = c.resume(ReceiverReply::Balance(0)).unwrap();
    assert_eq!(c.action(), ReceiverAction::Return);
    assert!(!c.accepts(&ReceiverReply::Done));
}

/// A callback that waits for the balance after the swap, which was `before`
/// ahead of it.
fn closing(fx: &mut Fx, before: i128) -> Callback {
    let me: Address = fx.world.receiver;
    fx.arm(fx.arming);
    let c: Callback = fx.rx.exec_op(me, fx.user, fx.collateral, FLASH, 0).unwrap();
    let c: Callback = c.resume(ReceiverReply::Pair(fx.router)).unwrap();
    let c: Callback = c.resume(ReceiverReply::Done).unwrap();
    let c: Callback = c.resume(ReceiverReply::Balance(before)).unwrap();
    c.resume(ReceiverReply::Swapped(vec![FLASH, 900])).unwrap()
}

#[test]
fn what_the_router_reports_changes_nothing() {
    for report in [vec![], vec![FLASH, 900], vec![0, i128::MAX], vec![-1]] {
        for (after, settles) in [(949i128, false), (950, true)] {
            let mut fx: Fx = setup();
            let me: Address = fx.world.receiver;
            fx.arm(fx.arming);
            let c: Callback = fx.rx.exec_op(me, fx.user, fx.collateral, FLASH, 0).unwrap();
            let c: Callback = c.resume(ReceiverReply::Pair(fx.router)).unwrap();
            let c: Callback = c.resume(ReceiverReply::Done).unwrap();
            let c: Callback = c.resume(ReceiverReply::Balance(50)).unwrap();
            let c: Callback = c.resume(ReceiverReply::Swapped(report.clone())).unwrap();
            assert_eq!(c.resume(ReceiverReply::Balance(after)).is_ok(), settles);
        }
    }
}

#[test]
fn the_floor_is_met_to_the_unit() {
    let mut fx: Fx = setup();
    let c: Callback = closing(&mut fx, 50);
    assert!(c.resume(ReceiverReply::Balance(950)).is_ok());
    let c: Callback = closing(&mut fx, 50);
    assert_eq!(
        c.resume(ReceiverReply::Balance(949)).err(),
        Some(ReceiverError::SlippageExceeded)
    );
}

#[test]
fn a_difference_that_cannot_be_counted_is_not_accepted() {
    let mut fx: Fx = setup();
    let c: Callback = closing(&mut fx, -1);
    assert!(!c.accepts(&ReceiverReply::Balance(i128::MAX)));
    assert!(c.accepts(&ReceiverReply::Balance(i128::MAX - 1)));
}
