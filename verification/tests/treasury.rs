//! The treasury contract: deposits, gated withdrawals, batches, allowances,
//! milestones and the emergency freeze.
use astroid::constants::MAX_BATCH_PAYMENTS;
use astroid::errors::Error;
use astroid::host::{CallEnv, Effect};
use astroid::treasury::{Holding, TreasuryContract};
use astroid::types::{Address, AddressKind, Bytes32, Payment};
use std::cell::{Cell, RefCell};
use std::collections::HashMap;
use std::rc::Rc;

/// The ledger and the token contracts around the contract under test.
struct Host {
    contract: Address,
    time: Cell<u64>,
    sequence: Cell<u32>,
    generated: Cell<u128>,
    tokens: RefCell<HashMap<(Address, Address), i128>>,
    topics: RefCell<Vec<Vec<&'static str>>>,
    auths: RefCell<Vec<Address>>,
}

impl Host {
    fn new() -> Rc<Host> {
        Rc::new(Host {
            contract: Address {
                kind: AddressKind::Contract,
                key: Bytes32 { hi: 7, lo: 7 },
            },
            time: Cell::new(0),
            sequence: Cell::new(0),
            generated: Cell::new(0),
            tokens: RefCell::new(HashMap::new()),
            topics: RefCell::new(Vec::new()),
            auths: RefCell::new(Vec::new()),
        })
    }

    /// An address that was not used before.
    fn generate(&self) -> Address {
        self.generated.set(self.generated.get() + 1);
        Address {
            kind: AddressKind::Account,
            key: Bytes32 {
                hi: 0,
                lo: self.generated.get(),
            },
        }
    }

    fn mint(&self, asset: &Address, who: &Address, amount: i128) {
        *self.tokens.borrow_mut().entry((*asset, *who)).or_insert(0) += amount;
    }

    fn balance(&self, asset: &Address, who: &Address) -> i128 {
        *self.tokens.borrow().get(&(*asset, *who)).unwrap_or(&0)
    }

    fn begin(&self) -> CallEnv {
        CallEnv::new(
            self.time.get(),
            self.sequence.get(),
            self.contract,
            Bytes32 { hi: 1, lo: 2 },
        )
    }

    /// Carries out what the invocation asked for; a failed one moves no tokens.
    fn finish(&self, env: CallEnv, ok: bool) {
        for effect in env.log {
            match effect {
                Effect::RequireAuth(who) => self.auths.borrow_mut().push(who),
                Effect::Publish(event) => self.topics.borrow_mut().push(event.topics()),
                Effect::Transfer {
                    asset,
                    from,
                    to,
                    amount,
                } => {
                    if ok {
                        assert!(
                            self.balance(&asset, &from) >= amount,
                            "the sender cannot pay"
                        );
                        self.mint(&asset, &from, -amount);
                        self.mint(&asset, &to, amount);
                    }
                }
                _ => {}
            }
        }
    }
}

fn text(s: &str) -> String {
    s.to_string()
}

/// Asserts that an event was published under the given topic.
fn assert_event(env: &Host, topic: &str) {
    let found = env
        .topics
        .borrow()
        .iter()
        .any(|topics| topics.iter().any(|t| *t == topic));
    assert!(found, "expected an event under {}", topic);
}

struct TreasuryClient {
    contract: RefCell<TreasuryContract>,
    host: Rc<Host>,
}

impl TreasuryClient {
    fn try_initialize(&self, org: &String, admin: &Address) -> Result<(), Error> {
        let mut env = self.host.begin();
        let r = self.contract.borrow_mut().initialize(&mut env, org.clone(), *admin);
        self.host.finish(env, r.is_ok());
        r
    }

    fn initialize(&self, org: &String, admin: &Address) {
        self.try_initialize(org, admin).unwrap()
    }

    fn try_set_policy(&self, caller: &Address, policy: &Address) -> Result<(), Error> {
        let mut env = self.host.begin();
        let r = self.contract.borrow_mut().set_policy(&mut env, *caller, *policy);
        self.host.finish(env, r.is_ok());
        r
    }

    fn set_policy(&self, caller: &Address, policy: &Address) {
        self.try_set_policy(caller, policy).unwrap()
    }

    fn try_set_budget(&self, caller: &Address, budget: &Address) -> Result<(), Error> {
        let mut env = self.host.begin();
        let r = self.contract.borrow_mut().set_budget(&mut env, *caller, *budget);
        self.host.finish(env, r.is_ok());
        r
    }

    fn set_budget(&self, caller: &Address, budget: &Address) {
        self.try_set_budget(caller, budget).unwrap()
    }

    fn try_freeze(&self, caller: &Address) -> Result<(), Error> {
        let mut env = self.host.begin();
        let r = self.contract.borrow_mut().freeze(&mut env, *caller);
        self.host.finish(env, r.is_ok());
        r
    }

    fn freeze(&self, caller: &Address) {
        self.try_freeze(caller).unwrap()
    }

    fn try_deposit(&self, from: &Address, asset: &Address, amount: &i128) -> Result<(), Error> {
        let mut env = self.host.begin();
        let r = self.contract.borrow_mut().deposit(&mut env, *from, *asset, *amount);
        self.host.finish(env, r.is_ok());
        r
    }

    fn deposit(&self, from: &Address, asset: &Address, amount: &i128) {
        self.try_deposit(from, asset, amount).unwrap()
    }

    fn try_allocate_budget(
        &self,
        admin: &Address,
        asset: &Address,
        budget_id: &String,
    ) -> Result<(), Error> {
        let mut env = self.host.begin();
        let r = self
            .contract
            .borrow_mut()
            .allocate_budget(&mut env, *admin, *asset, budget_id.clone());
        self.host.finish(env, r.is_ok());
        r
    }

    fn allocate_budget(&self, admin: &Address, asset: &Address, budget_id: &String) {
        self.try_allocate_budget(admin, asset, budget_id).unwrap()
    }

    fn try_withdraw(
        &self,
        caller: &Address,
        asset: &Address,
        to: &Address,
        amount: &i128,
    ) -> Result<(), Error> {
        let mut env = self.host.begin();
        let r = self.contract.borrow_mut().withdraw(&mut env, *caller, *asset, *to, *amount);
        self.host.finish(env, r.is_ok());
        r
    }

    fn withdraw(&self, caller: &Address, asset: &Address, to: &Address, amount: &i128) {
        self.try_withdraw(caller, asset, to, amount).unwrap()
    }

    fn try_batch_transfer(
        &self,
        caller: &Address,
        asset: &Address,
        payments: &Vec<Payment>,
    ) -> Result<(), Error> {
        let mut env = self.host.begin();
        let r = self.contract.borrow_mut().batch_transfer(&mut env, *caller, *asset, payments);
        self.host.finish(env, r.is_ok());
        r
    }

    fn batch_transfer(&self, caller: &Address, asset: &Address, payments: &Vec<Payment>) {
        self.try_batch_transfer(caller, asset, payments).unwrap()
    }

    fn holding(&self, asset: &Address) -> Holding {
        self.contract.borrow().holding(*asset)
    }
}

struct Harness {
    env: Rc<Host>,
    client: TreasuryClient,
    admin: Address,
    asset: Address,
}

/// A treasury plus a token, with `funded` of it minted to the admin so that
/// deposits move value.
fn setup(org: &str, funded: i128) -> Harness {
    let env = Host::new();
    let admin = env.generate();
    let client = TreasuryClient {
        contract: RefCell::new(TreasuryContract::new()),
        host: env.clone(),
    };
    client.initialize(&text(org), &admin);
    let asset = env.generate();
    if funded > 0 {
        env.mint(&asset, &admin, funded);
    }
    Harness {
        env,
        client,
        admin,
        asset,
    }
}

fn token_balance(h: &Harness, who: &Address) -> i128 {
    h.env.balance(&h.asset, who)
}

#[test]
fn full_flow_deposit_allocate_withdraw() {
    let h = setup("vault", 1_000);
    let recipient = h.env.generate();

    h.client.deposit(&h.admin, &h.asset, &1_000);
    // Internal accounting and real custody both reflect the deposit.
    assert_eq!(h.client.holding(&h.asset).total_in, 1_000);
    assert_eq!(token_balance(&h, &h.admin), 0);
    assert_eq!(token_balance(&h, &h.env.contract), 1_000);

    h.client
        .allocate_budget(&h.admin, &h.asset, &text("maint"));

    h.client.withdraw(&h.admin, &h.asset, &recipient, &400);
    let holding = h.client.holding(&h.asset);
    assert_eq!(holding.total_in, 600);
    assert_eq!(holding.total_out, 400);
    // Real tokens left custody and reached the recipient.
    assert_eq!(token_balance(&h, &recipient), 400);
    assert_eq!(token_balance(&h, &h.env.contract), 600);
}

#[test]
fn withdraw_rejected_when_not_admin() {
    let h = setup("vault", 500);
    let intruder = h.env.generate();
    h.client.deposit(&h.admin, &h.asset, &500);

    // intruder is not the admin — refused before any value moves.
    let res = h
        .client
        .try_withdraw(&intruder, &h.asset, &h.env.generate(), &100);
    assert_eq!(res, Err(Error::Unauthorized));
    assert_eq!(token_balance(&h, &h.env.contract), 500);
}

#[test]
fn withdraw_overdraws() {
    let h = setup("vault", 50);
    h.client.deposit(&h.admin, &h.asset, &50);

    let res = h
        .client
        .try_withdraw(&h.admin, &h.asset, &h.env.generate(), &100);
    assert_eq!(res, Err(Error::InsufficientFunds));
    assert_eq!(token_balance(&h, &h.env.contract), 50);
}

#[test]
fn frozen_treasury_rejects_withdrawals() {
    let h = setup("vault", 1_000);
    h.client.deposit(&h.admin, &h.asset, &1_000);
    h.client.freeze(&h.admin);

    let res = h
        .client
        .try_withdraw(&h.admin, &h.asset, &h.env.generate(), &10);
    assert_eq!(res, Err(Error::InvalidState));
    assert_eq!(token_balance(&h, &h.env.contract), 1_000);
}

#[test]
fn deposit_into_frozen_treasury_rejected() {
    let h = setup("vault", 1_000);
    h.client.freeze(&h.admin);
    let res = h.client.try_deposit(&h.admin, &h.asset, &100);
    assert_eq!(res, Err(Error::InvalidState));
    // No value moved on the rejected deposit.
    assert_eq!(token_balance(&h, &h.admin), 1_000);
}

#[test]
fn prepare_holds_state() {
    let h = setup("vault", 0);
    assert_eq!(h.client.contract.borrow().get().org, text("vault"));
}

#[test]
fn test_standard_events_emitted() {
    // Configuration changes publish a TreasuryConfigUpdated event. Setting a
    // (here placeholder) policy/budget address is enough to exercise the emit
    // path; we avoid a subsequent withdraw on this env because a real policy
    // gate is not wired up.
    let h = setup("vault", 0);
    h.client.set_policy(&h.admin, &h.admin);
    assert_event(&h.env, "TreasuryConfigUpdated");
    h.client.set_budget(&h.admin, &h.admin);
    assert_event(&h.env, "TreasuryConfigUpdated");

    // A successful withdraw (no policy/budget gates configured) publishes a
    // TransferExecuted event.
    let h2 = setup("vault", 1_000);
    let recipient = h2.env.generate();
    h2.client.deposit(&h2.admin, &h2.asset, &1_000);
    h2.client.withdraw(&h2.admin, &h2.asset, &recipient, &100);
    assert_event(&h2.env, "TransferExecuted");
}

/// Build one leg of a batch payout.
fn payment(recipient: &Address, amount: i128) -> Payment {
    Payment {
        recipient: recipient.clone(),
        amount,
    }
}

#[test]
fn batch_transfer_pays_every_recipient() {
    let h = setup("vault", 1_000);
    h.client.deposit(&h.admin, &h.asset, &1_000);

    let a = h.env.generate();
    let b = h.env.generate();
    let c = h.env.generate();
    let payments: Vec<Payment> = vec![payment(&a, 100), payment(&b, 250), payment(&c, 50)];

    h.client.batch_transfer(&h.admin, &h.asset, &payments);

    assert_eq!(token_balance(&h, &a), 100);
    assert_eq!(token_balance(&h, &b), 250);
    assert_eq!(token_balance(&h, &c), 50);
    assert_eq!(token_balance(&h, &h.env.contract), 600);

    // Internal accounting mirrors the aggregate payout exactly once.
    let holding = h.client.holding(&h.asset);
    assert_eq!(holding.total_in, 600);
    assert_eq!(holding.total_out, 400);

    assert_event(&h.env, "BatchTransferExecuted");
}

#[test]
fn batch_transfer_over_balance_pays_nobody() {
    let h = setup("vault", 300);
    h.client.deposit(&h.admin, &h.asset, &300);

    let a = h.env.generate();
    let b = h.env.generate();
    // Each leg fits on its own, but the cumulative total overdraws the treasury.
    let payments: Vec<Payment> = vec![payment(&a, 200), payment(&b, 200)];

    let res = h.client.try_batch_transfer(&h.admin, &h.asset, &payments);
    assert_eq!(res, Err(Error::InsufficientFunds));

    // Nothing partially executed: no recipient was paid and custody is intact.
    assert_eq!(token_balance(&h, &a), 0);
    assert_eq!(token_balance(&h, &b), 0);
    assert_eq!(token_balance(&h, &h.env.contract), 300);
    let holding = h.client.holding(&h.asset);
    assert_eq!(holding.total_in, 300);
    assert_eq!(holding.total_out, 0);
}

#[test]
fn batch_transfer_rolls_back_when_one_leg_is_invalid() {
    let h = setup("vault", 1_000);
    h.client.deposit(&h.admin, &h.asset, &1_000);

    let a = h.env.generate();
    let b = h.env.generate();
    let c = h.env.generate();
    // The middle leg is a zero-amount payment, which invalidates the batch.
    let payments: Vec<Payment> = vec![payment(&a, 100), payment(&b, 0), payment(&c, 100)];

    let res = h.client.try_batch_transfer(&h.admin, &h.asset, &payments);
    assert_eq!(res, Err(Error::InvalidAmount));

    // The legs preceding the bad one are rolled back with the rest of the batch.
    assert_eq!(token_balance(&h, &a), 0);
    assert_eq!(token_balance(&h, &c), 0);
    assert_eq!(token_balance(&h, &h.env.contract), 1_000);
    assert_eq!(h.client.holding(&h.asset).total_out, 0);
}

#[test]
fn batch_transfer_rejected_when_not_admin() {
    let h = setup("vault", 500);
    h.client.deposit(&h.admin, &h.asset, &500);

    let intruder = h.env.generate();
    let recipient = h.env.generate();
    let payments: Vec<Payment> = vec![payment(&recipient, 10)];

    let res = h.client.try_batch_transfer(&intruder, &h.asset, &payments);
    assert_eq!(res, Err(Error::Unauthorized));
    assert_eq!(token_balance(&h, &h.env.contract), 500);
}

#[test]
fn batch_transfer_rejected_when_frozen() {
    let h = setup("vault", 500);
    h.client.deposit(&h.admin, &h.asset, &500);
    h.client.freeze(&h.admin);

    let recipient = h.env.generate();
    let payments: Vec<Payment> = vec![payment(&recipient, 10)];

    let res = h.client.try_batch_transfer(&h.admin, &h.asset, &payments);
    assert_eq!(res, Err(Error::InvalidState));
    assert_eq!(token_balance(&h, &recipient), 0);
}

#[test]
fn batch_transfer_rejects_empty_and_oversized_batches() {
    let h = setup("vault", 1_000);
    h.client.deposit(&h.admin, &h.asset, &1_000);

    let empty: Vec<Payment> = Vec::new();
    assert_eq!(
        h.client.try_batch_transfer(&h.admin, &h.asset, &empty),
        Err(Error::InvalidInput)
    );

    let mut oversized: Vec<Payment> = Vec::new();
    for _ in 0..(MAX_BATCH_PAYMENTS + 1) {
        let r = h.env.generate();
        oversized.push(payment(&r, 1));
    }
    assert_eq!(
        h.client.try_batch_transfer(&h.admin, &h.asset, &oversized),
        Err(Error::InvalidInput)
    );
    assert_eq!(token_balance(&h, &h.env.contract), 1_000);
}

#[test]
fn batch_transfer_at_the_maximum_size_succeeds() {
    let h = setup("vault", 1_000);
    h.client.deposit(&h.admin, &h.asset, &1_000);

    let mut payments: Vec<Payment> = Vec::new();
    let mut recipients = Vec::new();
    for _ in 0..MAX_BATCH_PAYMENTS {
        let r = h.env.generate();
        payments.push(payment(&r, 5));
        recipients.push(r);
    }

    h.client.batch_transfer(&h.admin, &h.asset, &payments);

    for r in recipients.iter() {
        assert_eq!(token_balance(&h, r), 5);
    }
    let holding = h.client.holding(&h.asset);
    assert_eq!(holding.total_out, 5 * MAX_BATCH_PAYMENTS as i128);
    assert_eq!(holding.total_in, 1_000 - 5 * MAX_BATCH_PAYMENTS as i128);
}

/// Invokes an entry point and lets the host carry out its effects.
fn invoke<T>(
    h: &Harness,
    call: impl FnOnce(&mut TreasuryContract, &mut CallEnv) -> Result<T, Error>,
) -> Result<T, Error> {
    let mut env = h.env.begin();
    let r = call(&mut h.client.contract.borrow_mut(), &mut env);
    h.env.finish(env, r.is_ok());
    r
}

#[test]
fn wired_multisig_takes_over_the_freeze() {
    let h = setup("vault", 1_000);
    let multisig = h.env.generate();
    assert_eq!(
        invoke(&h, |c, e| c.unfreeze(e, h.admin)),
        Err(Error::InvalidState)
    );
    invoke(&h, |c, e| c.set_multisig(e, h.admin, multisig)).unwrap();
    assert_eq!(h.client.try_freeze(&h.admin), Err(Error::Unauthorized));
    h.client.freeze(&multisig);
    assert!(h.client.contract.borrow().frozen);
    invoke(&h, |c, e| c.unfreeze(e, multisig)).unwrap();
    assert!(!h.client.contract.borrow().frozen);
    assert_event(&h.env, "TreasuryFrozen");
    assert_event(&h.env, "TreasuryUnfrozen");
}

#[test]
fn initialization_happens_once_and_names_an_organization() {
    let host = Host::new();
    let admin = host.generate();
    let mut c = TreasuryContract::new();
    let mut env = host.begin();
    assert_eq!(
        c.initialize(&mut env, text(""), admin),
        Err(Error::InvalidInput)
    );
    assert_eq!(c.initialize(&mut env, text("acme"), admin), Ok(()));
    assert_eq!(
        c.initialize(&mut env, text("acme"), admin),
        Err(Error::AlreadyInitialized)
    );
}

#[test]
fn allowance_caps_cumulative_withdrawals() {
    let h = setup("vault", 1_000);
    let to = h.env.generate();
    h.client.deposit(&h.admin, &h.asset, &1_000);
    invoke(&h, |c, e| {
        c.set_allowance(e, h.admin, h.admin, to, h.asset, 300, 500)
    })
    .unwrap();
    h.client.withdraw(&h.admin, &h.asset, &to, &200);
    let al = h
        .client
        .contract
        .borrow()
        .allowance(h.admin, to, h.asset)
        .unwrap();
    assert_eq!(al.spent, 200);
    assert_eq!(
        h.client.try_withdraw(&h.admin, &h.asset, &to, &101),
        Err(Error::AllowanceExceeded)
    );
    h.client.withdraw(&h.admin, &h.asset, &to, &100);
    assert_eq!(
        h.client.try_withdraw(&h.admin, &h.asset, &to, &1),
        Err(Error::AllowanceExceeded)
    );
    h.env.time.set(500);
    assert_eq!(
        h.client.try_withdraw(&h.admin, &h.asset, &to, &1),
        Err(Error::AllowanceExpired)
    );
    invoke(&h, |c, e| c.remove_allowance(e, h.admin, h.admin, to, h.asset)).unwrap();
    assert_eq!(
        invoke(&h, |c, e| c.remove_allowance(e, h.admin, h.admin, to, h.asset)),
        Err(Error::NotFound)
    );
    h.client.withdraw(&h.admin, &h.asset, &to, &1);
    assert_eq!(h.client.holding(&h.asset).total_in, 699);
    assert_eq!(h.client.holding(&h.asset).total_out, 301);
}

#[test]
fn allowance_inputs_are_checked() {
    let h = setup("vault", 0);
    let to = h.env.generate();
    assert_eq!(
        invoke(&h, |c, e| c.set_allowance(e, to, h.admin, to, h.asset, 1, 0)),
        Err(Error::Unauthorized)
    );
    assert_eq!(
        invoke(&h, |c, e| c.set_allowance(e, h.admin, h.admin, to, h.asset, 0, 0)),
        Err(Error::InvalidAmount)
    );
    assert_eq!(
        invoke(&h, |c, e| c.set_allowance(e, h.admin, to, to, h.asset, 1, 0)),
        Err(Error::InvalidInput)
    );
    assert_eq!(
        invoke(&h, |c, e| c.allocate_budget(e, h.admin, h.asset, text(""))),
        Err(Error::InvalidInput)
    );
}

#[test]
fn withdrawal_asks_policy_then_budget_then_moves() {
    let h = setup("vault", 1_000);
    let (policy, budget, to) = (h.env.generate(), h.env.generate(), h.env.generate());
    h.client.set_policy(&h.admin, &policy);
    h.client.set_budget(&h.admin, &budget);
    h.client.deposit(&h.admin, &h.asset, &1_000);
    h.client
        .allocate_budget(&h.admin, &h.asset, &text("maint"));
    let mut env = h.env.begin();
    h.client
        .contract
        .borrow_mut()
        .withdraw(&mut env, h.admin, h.asset, to, 40)
        .unwrap();
    assert_eq!(env.log.len(), 7);
    assert!(matches!(env.log[0], Effect::RequireAuth(who) if who == h.admin));
    assert!(matches!(
        env.log[1],
        Effect::CheckPolicy { policy: p, policy_id: "active", amount: 40, recipient, .. }
            if p == policy && recipient == to
    ));
    match &env.log[2] {
        Effect::ConsumeBudget {
            budget: b,
            budget_id,
            amount,
            ..
        } => {
            assert_eq!(*b, budget);
            assert_eq!(budget_id, "maint");
            assert_eq!(*amount, 40);
        }
        other => panic!("unexpected effect {:?}", other),
    }
    assert!(matches!(env.log[4], Effect::Transfer { amount: 40, .. }));
}

#[test]
fn milestones_divide_the_total_and_the_last_takes_the_remainder() {
    let h = setup("vault", 1_000);
    let to = h.env.generate();
    h.client.deposit(&h.admin, &h.asset, &1_000);
    assert_eq!(
        invoke(&h, |c, e| c.init_milestone_disbursement(e, h.admin, h.asset, to, 0, 3)),
        Err(Error::InvalidAmount)
    );
    assert_eq!(
        invoke(&h, |c, e| c.init_milestone_disbursement(e, h.admin, h.asset, to, 10, 0)),
        Err(Error::InvalidInput)
    );
    let id = invoke(&h, |c, e| {
        c.init_milestone_disbursement(e, h.admin, h.asset, to, 100, 3)
    })
    .unwrap();
    assert_eq!(id, 1);
    let mut paid = Vec::new();
    for _ in 0..3 {
        let before = token_balance(&h, &to);
        invoke(&h, |c, e| c.release_next_milestone(e, h.admin, id)).unwrap();
        paid.push(token_balance(&h, &to) - before);
    }
    assert_eq!(paid, vec![33, 33, 34]);
    assert_eq!(
        invoke(&h, |c, e| c.release_next_milestone(e, h.admin, id)),
        Err(Error::InvalidState)
    );
    assert_eq!(
        invoke(&h, |c, e| c.release_next_milestone(e, h.admin, 9)),
        Err(Error::NotFound)
    );
    assert_eq!(h.client.holding(&h.asset).total_in, 900);
}

#[test]
fn milestones_stop_while_frozen_or_out_of_funds() {
    let h = setup("vault", 10);
    let to = h.env.generate();
    h.client.deposit(&h.admin, &h.asset, &10);
    let id = invoke(&h, |c, e| {
        c.init_milestone_disbursement(e, h.admin, h.asset, to, 100, 2)
    })
    .unwrap();
    assert_eq!(
        invoke(&h, |c, e| c.release_next_milestone(e, h.admin, id)),
        Err(Error::InsufficientFunds)
    );
    h.client.freeze(&h.admin);
    assert_eq!(
        invoke(&h, |c, e| c.release_next_milestone(e, h.admin, id)),
        Err(Error::InvalidState)
    );
}

#[test]
fn batch_total_must_fit() {
    let h = setup("vault", 10);
    h.client.deposit(&h.admin, &h.asset, &10);
    let a = h.env.generate();
    let payments = vec![payment(&a, i128::MAX), payment(&a, 1)];
    assert_eq!(
        h.client.try_batch_transfer(&h.admin, &h.asset, &payments),
        Err(Error::Overflow)
    );
}

#[test]
fn allowance_caps_the_legs_of_a_batch() {
    let h = setup("vault", 1_000);
    let (a, b) = (h.env.generate(), h.env.generate());
    h.client.deposit(&h.admin, &h.asset, &1_000);
    invoke(&h, |c, e| {
        c.set_allowance(e, h.admin, h.admin, a, h.asset, 100, 500)
    })
    .unwrap();
    // The two legs to the same recipient count together.
    let over = vec![payment(&a, 60), payment(&b, 300), payment(&a, 41)];
    assert_eq!(
        h.client.try_batch_transfer(&h.admin, &h.asset, &over),
        Err(Error::AllowanceExceeded)
    );
    assert_eq!(token_balance(&h, &b), 0);
    let within = vec![payment(&a, 60), payment(&b, 300), payment(&a, 30)];
    h.client.batch_transfer(&h.admin, &h.asset, &within);
    let spent = |h: &Harness| {
        let contract = h.client.contract.borrow();
        contract.allowance(h.admin, a, h.asset).unwrap().spent
    };
    assert_eq!(spent(&h), 90);
    assert_eq!(
        h.client.try_withdraw(&h.admin, &h.asset, &a, &11),
        Err(Error::AllowanceExceeded)
    );
    h.client.withdraw(&h.admin, &h.asset, &a, &10);
    assert_eq!(spent(&h), 100);
    h.client
        .batch_transfer(&h.admin, &h.asset, &vec![payment(&b, 1)]);
    h.env.time.set(500);
    assert_eq!(
        h.client
            .try_batch_transfer(&h.admin, &h.asset, &vec![payment(&a, 1)]),
        Err(Error::AllowanceExpired)
    );
}

#[test]
fn milestones_clear_policy_budget_and_allowance() {
    let h = setup("vault", 1_000);
    let (policy, budget, to) = (h.env.generate(), h.env.generate(), h.env.generate());
    h.client.set_policy(&h.admin, &policy);
    h.client.set_budget(&h.admin, &budget);
    h.client.deposit(&h.admin, &h.asset, &1_000);
    h.client
        .allocate_budget(&h.admin, &h.asset, &text("maint"));
    invoke(&h, |c, e| {
        c.set_allowance(e, h.admin, h.admin, to, h.asset, 70, 0)
    })
    .unwrap();
    let id = invoke(&h, |c, e| {
        c.init_milestone_disbursement(e, h.admin, h.asset, to, 100, 2)
    })
    .unwrap();
    let mut env = h.env.begin();
    h.client
        .contract
        .borrow_mut()
        .release_next_milestone(&mut env, h.admin, id)
        .unwrap();
    assert!(matches!(
        env.log[1],
        Effect::CheckPolicy { policy: p, policy_id: "active", amount: 50, recipient, .. }
            if p == policy && recipient == to
    ));
    assert!(matches!(
        env.log[2],
        Effect::ConsumeBudget { amount: 50, .. }
    ));
    assert!(matches!(env.log[3], Effect::Transfer { amount: 50, .. }));
    assert_eq!(
        invoke(&h, |c, e| c.release_next_milestone(e, h.admin, id)),
        Err(Error::AllowanceExceeded)
    );
}
