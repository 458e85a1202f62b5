//! The wallet contract: balances, lifecycle, roles, reserve, dispatch and the
//! emergency breaker.
use astroid::access::Role;
use astroid::errors::Error;
use astroid::host::{CallEnv, Effect};
use astroid::types::{Address, AddressKind, Bytes32, ModuleKind, ResourceState};
use astroid::wallet::{WalletAction, WalletContract, WalletData};
use std::cell::{Cell, RefCell};
use std::collections::HashMap;
use std::rc::Rc;

/// The ledger and the token contracts around the contract under test.
struct Host {
    contract: Address,
    time: Cell<u64>,
    sequence: Cell<u32>,
    generated: Cell<u128>,
    tokens: RefCell<HashMap<(Address, Address), i128>>,
    topics: RefCell<Vec<Vec<&'static str>>>,
    auths: RefCell<Vec<Address>>,
}

impl Host {
    fn new() -> Rc<Host> {
        Rc::new(Host {
            contract: Address {
                kind: AddressKind::Contract,
                key: Bytes32 { hi: 7, lo: 7 },
            },
            time: Cell::new(0),
            sequence: Cell::new(0),
            generated: Cell::new(0),
            tokens: RefCell::new(HashMap::new()),
            topics: RefCell::new(Vec::new()),
            auths: RefCell::new(Vec::new()),
        })
    }

    /// An address that was not used before.
    fn generate(&self) -> Address {
        self.generated.set(self.generated.get() + 1);
        Address {
            kind: AddressKind::Account,
            key: Bytes32 {
                hi: 0,
                lo: self.generated.get(),
            },
        }
    }

    fn mint(&self, asset: &Address, who: &Address, amount: i128) {
        *self.tokens.borrow_mut().entry((*asset, *who)).or_insert(0) += amount;
    }

    fn balance(&self, asset: &Address, who: &Address) -> i128 {
        *self.tokens.borrow().get(&(*asset, *who)).unwrap_or(&0)
    }

    fn begin(&self) -> CallEnv {
        CallEnv::new(
            self.time.get(),
            self.sequence.get(),
            self.contract,
            Bytes32 { hi: 1, lo: 2 },
        )
    }

    /// Carries out what the invocation asked for; a failed one moves no tokens.
    fn finish(&self, env: CallEnv, ok: bool) {
        for effect in env.log {
            match effect {
                Effect::RequireAuth(who) => self.auths.borrow_mut().push(who),
                Effect::Publish(event) => self.topics.borrow_mut().push(event.topics()),
                Effect::Transfer {
                    asset,
                    from,
                    to,
                    amount,
                } => {
                    if ok {
                        assert!(
                            self.balance(&asset, &from) >= amount,
                            "the sender cannot pay"
                        );
                        self.mint(&asset, &from, -amount);
                        self.mint(&asset, &to, amount);
                    }
                }
                _ => {}
            }
        }
    }
}

fn text(s: &str) -> String {
    s.to_string()
}

/// Asserts that an event was published under the given topic.
fn assert_event(env: &Host, topic: &str) {
    let found = env
        .topics
        .borrow()
        .iter()
        .any(|topics| topics.iter().any(|t| *t == topic));
    assert!(found, "expected an event under {}", topic);
}

struct WalletClient {
    contract: RefCell<WalletContract>,
    host: Rc<Host>,
}

impl WalletClient {
    fn try_initialize(
        &self,
        admin: &Address,
        registry: &Address,
        org: &String,
    ) -> Result<(), Error> {
        self.contract.borrow_mut().initialize(*admin, *registry, org.clone())
    }

    fn initialize(&self, admin: &Address, registry: &Address, org: &String) {
        self.try_initialize(admin, registry, org).unwrap()
    }

    fn try_set_guardian(&self, caller: &Address, guardian: &Address) -> Result<(), Error> {
        let mut env = self.host.begin();
        let r = self.contract.borrow_mut().set_guardian(&mut env, *caller, *guardian);
        self.host.finish(env, r.is_ok());
        r
    }

    fn set_guardian(&self, caller: &Address, guardian: &Address) {
        self.try_set_guardian(caller, guardian).unwrap()
    }

    fn try_emergency_pause(&self, caller: &Address) -> Result<(), Error> {
        let mut env = self.host.begin();
        let r = self.contract.borrow_mut().emergency_pause(&mut env, *caller);
        self.host.finish(env, r.is_ok());
        r
    }

    fn emergency_pause(&self, caller: &Address) {
        self.try_emergency_pause(caller).unwrap()
    }

    fn try_emergency_unpause(&self, caller: &Address) -> Result<(), Error> {
        let mut env = self.host.begin();
        let r = self.contract.borrow_mut().emergency_unpause(&mut env, *caller);
        self.host.finish(env, r.is_ok());
        r
    }

    fn emergency_unpause(&self, caller: &Address) {
        self.try_emergency_unpause(caller).unwrap()
    }

    fn try_create_wallet(&self, owner: &Address) -> Result<u64, Error> {
        let mut env = self.host.begin();
        let r = self.contract.borrow_mut().create_wallet(&mut env, *owner);
        self.host.finish(env, r.is_ok());
        r
    }

    fn create_wallet(&self, owner: &Address) -> u64 {
        self.try_create_wallet(owner).unwrap()
    }

    fn try_deposit(
        &self,
        id: &u64,
        from: &Address,
        asset: &Address,
        amount: &i128,
    ) -> Result<(), Error> {
        let mut env = self.host.begin();
        let r = self.contract.borrow_mut().deposit(&mut env, *id, *from, *asset, *amount);
        self.host.finish(env, r.is_ok());
        r
    }

    fn deposit(&self, id: &u64, from: &Address, asset: &Address, amount: &i128) {
        self.try_deposit(id, from, asset, amount).unwrap()
    }

    fn try_transfer(
        &self,
        caller: &Address,
        id: &u64,
        to: &Address,
        asset: &Address,
        amount: &i128,
    ) -> Result<(), Error> {
        let mut env = self.host.begin();
        let r = self.contract.borrow_mut().transfer(&mut env, *caller, *id, *to, *asset, *amount);
        self.host.finish(env, r.is_ok());
        r
    }

    fn transfer(&self, caller: &Address, id: &u64, to: &Address, asset: &Address, amount: &i128) {
        self.try_transfer(caller, id, to, asset, amount).unwrap()
    }

    fn try_withdraw(
        &self,
        caller: &Address,
        id: &u64,
        asset: &Address,
        amount: &i128,
    ) -> Result<(), Error> {
        let mut env = self.host.begin();
        let r = self.contract.borrow_mut().withdraw(&mut env, *caller, *id, *asset, *amount);
        self.host.finish(env, r.is_ok());
        r
    }

    fn withdraw(&self, caller: &Address, id: &u64, asset: &Address, amount: &i128) {
        self.try_withdraw(caller, id, asset, amount).unwrap()
    }

    fn try_freeze(&self, caller: &Address, id: &u64) -> Result<(), Error> {
        let mut env = self.host.begin();
        let r = self.contract.borrow_mut().freeze(&mut env, *caller, *id);
        self.host.finish(env, r.is_ok());
        r
    }

    fn freeze(&self, caller: &Address, id: &u64) {
        self.try_freeze(caller, id).unwrap()
    }

    fn try_unfreeze(&self, caller: &Address, id: &u64) -> Result<(), Error> {
        let mut env = self.host.begin();
        let r = self.contract.borrow_mut().unfreeze(&mut env, *caller, *id);
        self.host.finish(env, r.is_ok());
        r
    }

    fn unfreeze(&self, caller: &Address, id: &u64) {
        self.try_unfreeze(caller, id).unwrap()
    }

    fn try_pause(&self, caller: &Address, id: &u64) -> Result<(), Error> {
        let mut env = self.host.begin();
        let r = self.contract.borrow_mut().pause(&mut env, *caller, *id);
        self.host.finish(env, r.is_ok());
        r
    }

    fn pause(&self, caller: &Address, id: &u64) {
        self.try_pause(caller, id).unwrap()
    }

    fn try_unpause(&self, caller: &Address, id: &u64) -> Result<(), Error> {
        let mut env = self.host.begin();
        let r = self.contract.borrow_mut().unpause(&mut env, *caller, *id);
        self.host.finish(env, r.is_ok());
        r
    }

    fn unpause(&self, caller: &Address, id: &u64) {
        self.try_unpause(caller, id).unwrap()
    }

    fn try_archive(&self, caller: &Address, id: &u64) -> Result<(), Error> {
        let mut env = self.host.begin();
        let r = self.contract.borrow_mut().archive(&mut env, *caller, *id);
        self.host.finish(env, r.is_ok());
        r
    }

    fn archive(&self, caller: &Address, id: &u64) {
        self.try_archive(caller, id).unwrap()
    }

    fn try_set_reserve_ratio(
        &self,
        caller: &Address,
        id: &u64,
        asset: &Address,
        ratio: &u32,
    ) -> Result<(), Error> {
        let mut env = self.host.begin();
        let r = self
            .contract
            .borrow_mut()
            .set_reserve_ratio(&mut env, *caller, *id, *asset, *ratio);
        self.host.finish(env, r.is_ok());
        r
    }

    fn set_reserve_ratio(&self, caller: &Address, id: &u64, asset: &Address, ratio: &u32) {
        self.try_set_reserve_ratio(caller, id, asset, ratio).unwrap()
    }

    fn try_grant_role(
        &self,
        caller: &Address,
        id: &u64,
        account: &Address,
        role: &Role,
    ) -> Result<(), Error> {
        let mut env = self.host.begin();
        let r = self.contract.borrow_mut().grant_role(&mut env, *caller, *id, *account, *role);
        self.host.finish(env, r.is_ok());
        r
    }

    fn grant_role(&self, caller: &Address, id: &u64, account: &Address, role: &Role) {
        self.try_grant_role(caller, id, account, role).unwrap()
    }

    fn try_revoke_role(&self, caller: &Address, id: &u64, account: &Address) -> Result<(), Error> {
        let mut env = self.host.begin();
        let r = self.contract.borrow_mut().revoke_role(&mut env, *caller, *id, *account);
        self.host.finish(env, r.is_ok());
        r
    }

    fn revoke_role(&self, caller: &Address, id: &u64, account: &Address) {
        self.try_revoke_role(caller, id, account).unwrap()
    }

    fn try_execute_dispatch(&self, id: &u64, action: &WalletAction) -> Result<(), Error> {
        let mut env = self.host.begin();
        let r = self.contract.borrow_mut().execute_dispatch(&mut env, *id, *action);
        self.host.finish(env, r.is_ok());
        r
    }

    fn execute_dispatch(&self, id: &u64, action: &WalletAction) {
        self.try_execute_dispatch(id, action).unwrap()
    }

    fn try_get_role(&self, id: &u64, account: &Address) -> Result<Option<Role>, Error> {
        self.contract.borrow_mut().get_role(*id, *account)
    }

    fn get_role(&self, id: &u64, account: &Address) -> Option<Role> {
        self.try_get_role(id, account).unwrap()
    }

    fn try_has_role(&self, id: &u64, account: &Address, role: &Role) -> Result<bool, Error> {
        self.contract.borrow_mut().has_role(*id, *account, *role)
    }

    fn has_role(&self, id: &u64, account: &Address, role: &Role) -> bool {
        self.try_has_role(id, account, role).unwrap()
    }

    fn try_get_wallet(&self, id: &u64) -> Result<WalletData, Error> {
        self.contract.borrow_mut().get_wallet(*id)
    }

    fn get_wallet(&self, id: &u64) -> WalletData {
        self.try_get_wallet(id).unwrap()
    }

    fn balance(&self, id: &u64, asset: &Address) -> i128 {
        self.contract.borrow().balance(*id, *asset)
    }

    fn is_paused(&self) -> bool {
        self.contract.borrow().is_paused()
    }

    fn try_get_guardian(&self) -> Result<Address, Error> {
        self.contract.borrow_mut().get_guardian()
    }

    fn get_guardian(&self) -> Address {
        self.try_get_guardian().unwrap()
    }
}

struct Harness {
    env: Rc<Host>,
    client: WalletClient,
    token: Address,
    admin: Address,
}

fn setup() -> Harness {
    let env = Host::new();
    let admin = env.generate();
    let registry = env.generate();
    let client = WalletClient {
        contract: RefCell::new(WalletContract::new()),
        host: env.clone(),
    };
    client.initialize(&admin, &registry, &text("test-org"));
    let token = env.generate();
    Harness {
        env,
        client,
        token,
        admin,
    }
}

fn mint(h: &Harness, to: &Address, amount: i128) {
    h.env.mint(&h.token, to, amount);
}

fn token_balance(h: &Harness, who: &Address) -> i128 {
    h.env.balance(&h.token, who)
}

#[test]
fn create_wallet_starts_active() {
    let h = setup();
    let owner = h.env.generate();
    let id = h.client.create_wallet(&owner);
    let w = h.client.get_wallet(&id);
    assert_eq!(w.owner, owner);
    assert_eq!(w.state, ResourceState::Active);
}

#[test]
fn deposit_credits_internal_balance_and_moves_tokens() {
    let h = setup();
    let owner = h.env.generate();
    let id = h.client.create_wallet(&owner);
    mint(&h, &owner, 1_000);

    h.client.deposit(&id, &owner, &h.token, &400);
    assert_eq!(h.client.balance(&id, &h.token), 400);
    assert_eq!(token_balance(&h, &owner), 600);
}

#[test]
fn transfer_moves_value_and_debits_wallet() {
    let h = setup();
    let owner = h.env.generate();
    let recipient = h.env.generate();
    let id = h.client.create_wallet(&owner);
    mint(&h, &owner, 1_000);
    h.client.deposit(&id, &owner, &h.token, &1_000);

    h.client.transfer(&owner, &id, &recipient, &h.token, &250);
    assert_eq!(h.client.balance(&id, &h.token), 750);
    assert_eq!(token_balance(&h, &recipient), 250);
}

#[test]
fn withdraw_returns_to_owner() {
    let h = setup();
    let owner = h.env.generate();
    let id = h.client.create_wallet(&owner);
    mint(&h, &owner, 1_000);
    h.client.deposit(&id, &owner, &h.token, &1_000);

    h.client.withdraw(&owner, &id, &h.token, &300);
    assert_eq!(h.client.balance(&id, &h.token), 700);
    assert_eq!(token_balance(&h, &owner), 300);
}

#[test]
fn transfer_more_than_balance_fails() {
    let h = setup();
    let owner = h.env.generate();
    let recipient = h.env.generate();
    let id = h.client.create_wallet(&owner);
    mint(&h, &owner, 100);
    h.client.deposit(&id, &owner, &h.token, &100);

    let res = h
        .client
        .try_transfer(&owner, &id, &recipient, &h.token, &500);
    assert_eq!(res, Err(Error::InsufficientFunds));
}

#[test]
fn non_owner_cannot_transfer() {
    let h = setup();
    let owner = h.env.generate();
    let intruder = h.env.generate();
    let recipient = h.env.generate();
    let id = h.client.create_wallet(&owner);
    mint(&h, &owner, 100);
    h.client.deposit(&id, &owner, &h.token, &100);

    let res = h
        .client
        .try_transfer(&intruder, &id, &recipient, &h.token, &10);
    assert_eq!(res, Err(Error::Unauthorized));
}

#[test]
fn transfer_while_frozen_fails_wallet_frozen() {
    let h = setup();
    let owner = h.env.generate();
    let recipient = h.env.generate();
    let id = h.client.create_wallet(&owner);
    mint(&h, &owner, 100);
    h.client.deposit(&id, &owner, &h.token, &100);

    h.client.freeze(&owner, &id);
    assert_eq!(h.client.get_wallet(&id).state, ResourceState::Frozen);

    let res = h
        .client
        .try_transfer(&owner, &id, &recipient, &h.token, &10);
    assert_eq!(res, Err(Error::WalletFrozen));
}

#[test]
fn admin_can_freeze_then_owner_unfreezes() {
    let h = setup();
    let owner = h.env.generate();
    let id = h.client.create_wallet(&owner);

    // Owner freezes, then unfreezes back to Active.
    h.client.freeze(&owner, &id);
    h.client.unfreeze(&owner, &id);
    assert_eq!(h.client.get_wallet(&id).state, ResourceState::Active);
}

#[test]
fn transfer_while_paused_fails() {
    let h = setup();
    let owner = h.env.generate();
    let recipient = h.env.generate();
    let id = h.client.create_wallet(&owner);
    mint(&h, &owner, 100);
    h.client.deposit(&id, &owner, &h.token, &100);

    h.client.pause(&owner, &id);
    let res = h
        .client
        .try_transfer(&owner, &id, &recipient, &h.token, &10);
    assert_eq!(res, Err(Error::WalletPaused));

    h.client.unpause(&owner, &id);
    h.client.transfer(&owner, &id, &recipient, &h.token, &10);
    assert_eq!(token_balance(&h, &recipient), 10);
}

#[test]
fn archived_wallet_rejects_transfer_and_deposit() {
    let h = setup();
    let owner = h.env.generate();
    let recipient = h.env.generate();
    let id = h.client.create_wallet(&owner);
    mint(&h, &owner, 100);
    h.client.deposit(&id, &owner, &h.token, &100);

    h.client.archive(&owner, &id);
    assert_eq!(h.client.get_wallet(&id).state, ResourceState::Archived);

    assert_eq!(
        h.client
            .try_transfer(&owner, &id, &recipient, &h.token, &10),
        Err(Error::WalletArchived)
    );
    mint(&h, &owner, 100);
    assert_eq!(
        h.client.try_deposit(&id, &owner, &h.token, &10),
        Err(Error::WalletArchived)
    );
}

#[test]
fn zero_amount_transfer_rejected() {
    let h = setup();
    let owner = h.env.generate();
    let recipient = h.env.generate();
    let id = h.client.create_wallet(&owner);
    let res = h.client.try_transfer(&owner, &id, &recipient, &h.token, &0);
    assert_eq!(res, Err(Error::InvalidAmount));
}

#[test]
fn unknown_wallet_fails_not_found() {
    let h = setup();
    let stranger = h.env.generate();
    let res = h.client.try_get_wallet(&999);
    assert_eq!(res, Err(Error::NotFound));
    let res2 = h.client.try_freeze(&stranger, &999);
    assert_eq!(res2, Err(Error::NotFound));
}

#[test]
fn wallet_standard_events_emitted() {
    let h = setup();
    let owner = h.env.generate();
    let id = h.client.create_wallet(&owner);
    assert_event(&h.env, "WalletCreated");

    h.client.freeze(&owner, &id);
    assert_event(&h.env, "WalletStateChanged");
}

// ---------------------------------------------------------------------------
// Emergency pause switch / circuit breaker
// ---------------------------------------------------------------------------

/// Create a wallet holding `amount` of the harness token.
fn funded_wallet(h: &Harness, amount: i128) -> (Address, u64) {
    let owner = h.env.generate();
    let id = h.client.create_wallet(&owner);
    mint(h, &owner, amount);
    h.client.deposit(&id, &owner, &h.token, &amount);
    (owner, id)
}

#[test]
fn breaker_starts_reset_and_guardian_defaults_to_admin() {
    let h = setup();
    assert!(!h.client.is_paused());
    assert_eq!(h.client.get_guardian(), h.admin);
}

#[test]
fn paused_wallet_contract_blocks_all_outgoing_value() {
    let h = setup();
    let (owner, id) = funded_wallet(&h, 1_000);
    let recipient = h.env.generate();

    h.client.emergency_pause(&h.admin);
    assert!(h.client.is_paused());

    assert_eq!(
        h.client
            .try_transfer(&owner, &id, &recipient, &h.token, &100),
        Err(Error::WalletPaused)
    );
    assert_eq!(
        h.client.try_withdraw(&owner, &id, &h.token, &100),
        Err(Error::WalletPaused)
    );
    // No value moved on any rejected path.
    assert_eq!(h.client.balance(&id, &h.token), 1_000);
    assert_eq!(token_balance(&h, &recipient), 0);
    assert_eq!(token_balance(&h, &h.env.contract), 1_000);
}

#[test]
fn paused_wallet_contract_blocks_new_wallets() {
    let h = setup();
    h.client.emergency_pause(&h.admin);
    let owner = h.env.generate();
    assert_eq!(
        h.client.try_create_wallet(&owner),
        Err(Error::WalletPaused)
    );
}

#[test]
fn inspection_and_recovery_stay_available_while_paused() {
    let h = setup();
    let (owner, id) = funded_wallet(&h, 1_000);
    h.client.emergency_pause(&h.admin);

    // Read-only inspection is unaffected.
    assert_eq!(h.client.balance(&id, &h.token), 1_000);
    assert_eq!(h.client.get_wallet(&id).state, ResourceState::Active);
    assert!(h.client.is_paused());

    // Funding a wallet is inbound, so it stays open.
    mint(&h, &owner, 500);
    h.client.deposit(&id, &owner, &h.token, &500);
    assert_eq!(h.client.balance(&id, &h.token), 1_500);

    // Per-wallet quarantine still works, so an operator can act on a specific
    // compromised wallet while the breaker holds the line globally.
    h.client.freeze(&h.admin, &id);
    assert_eq!(h.client.get_wallet(&id).state, ResourceState::Frozen);
    h.client.unfreeze(&h.admin, &id);
    h.client.pause(&owner, &id);
    assert_eq!(h.client.get_wallet(&id).state, ResourceState::Paused);
}

#[test]
fn normal_operation_resumes_after_unpause() {
    let h = setup();
    let (owner, id) = funded_wallet(&h, 1_000);
    let recipient = h.env.generate();

    h.client.emergency_pause(&h.admin);
    h.client.emergency_unpause(&h.admin);
    assert!(!h.client.is_paused());

    h.client.transfer(&owner, &id, &recipient, &h.token, &400);
    assert_eq!(token_balance(&h, &recipient), 400);
    assert_eq!(h.client.balance(&id, &h.token), 600);
}

#[test]
fn designated_guardian_can_trip_but_not_reset_the_breaker() {
    let h = setup();
    let guardian = h.env.generate();
    h.client.set_guardian(&h.admin, &guardian);
    assert_eq!(h.client.get_guardian(), guardian);

    // Containment is fast: one guardian key is enough.
    h.client.emergency_pause(&guardian);
    assert!(h.client.is_paused());

    // Releasing funds back into motion is not.
    assert_eq!(
        h.client.try_emergency_unpause(&guardian),
        Err(Error::Unauthorized)
    );
    assert!(h.client.is_paused());

    h.client.emergency_unpause(&h.admin);
    assert!(!h.client.is_paused());
}

#[test]
fn strangers_cannot_touch_the_breaker() {
    let h = setup();
    let stranger = h.env.generate();
    let owner = h.env.generate();
    // Owning a wallet grants no emergency authority.
    h.client.create_wallet(&owner);

    assert_eq!(
        h.client.try_emergency_pause(&stranger),
        Err(Error::Unauthorized)
    );
    assert_eq!(
        h.client.try_emergency_pause(&owner),
        Err(Error::Unauthorized)
    );
    assert!(!h.client.is_paused());

    h.client.emergency_pause(&h.admin);
    assert_eq!(
        h.client.try_emergency_unpause(&stranger),
        Err(Error::Unauthorized)
    );
    assert!(h.client.is_paused());
}

#[test]
fn only_the_admin_designates_the_guardian() {
    let h = setup();
    let stranger = h.env.generate();
    let res = h.client.try_set_guardian(&stranger, &stranger);
    assert_eq!(res, Err(Error::Unauthorized));
    assert_eq!(h.client.get_guardian(), h.admin);
}

#[test]
fn redundant_breaker_transitions_are_rejected() {
    let h = setup();
    assert_eq!(
        h.client.try_emergency_unpause(&h.admin),
        Err(Error::InvalidState)
    );
    h.client.emergency_pause(&h.admin);
    assert_eq!(
        h.client.try_emergency_pause(&h.admin),
        Err(Error::InvalidState)
    );
}

#[test]
fn breaker_events_are_emitted() {
    let h = setup();
    h.client.emergency_pause(&h.admin);
    assert_event(&h.env, "WalletPaused");
    h.client.emergency_unpause(&h.admin);
    assert_event(&h.env, "WalletUnpaused");
}

// ---------------------------------------------------------------------------
// Role-based access control
// ---------------------------------------------------------------------------

#[test]
fn owner_is_implicitly_admin() {
    let h = setup();
    let owner = h.env.generate();
    let id = h.client.create_wallet(&owner);

    assert_eq!(h.client.get_role(&id, &owner), Some(Role::Admin));
    assert!(h.client.has_role(&id, &owner, &Role::Admin));
    assert!(h.client.has_role(&id, &owner, &Role::Agent));

    // A stranger holds nothing at all.
    let stranger = h.env.generate();
    assert_eq!(h.client.get_role(&id, &stranger), None);
    assert!(!h.client.has_role(&id, &stranger, &Role::Auditor));
}

#[test]
fn granted_role_is_readable_and_revocable() {
    let h = setup();
    let (owner, id) = funded_wallet(&h, 100);
    let agent = h.env.generate();

    h.client.grant_role(&owner, &id, &agent, &Role::Agent);
    assert_eq!(h.client.get_role(&id, &agent), Some(Role::Agent));

    // Re-granting replaces the role rather than stacking.
    h.client.grant_role(&owner, &id, &agent, &Role::Auditor);
    assert_eq!(h.client.get_role(&id, &agent), Some(Role::Auditor));

    h.client.revoke_role(&owner, &id, &agent);
    assert_eq!(h.client.get_role(&id, &agent), None);

    // Revoking again is an explicit failure, not a silent no-op.
    assert_eq!(
        h.client.try_revoke_role(&owner, &id, &agent),
        Err(Error::NotFound)
    );
}

#[test]
fn agent_can_transfer_but_not_withdraw() {
    let h = setup();
    let (owner, id) = funded_wallet(&h, 1_000);
    let agent = h.env.generate();
    let recipient = h.env.generate();
    h.client.grant_role(&owner, &id, &agent, &Role::Agent);

    // Routine operational spend: permitted.
    h.client.transfer(&agent, &id, &recipient, &h.token, &250);
    assert_eq!(token_balance(&h, &recipient), 250);
    assert_eq!(h.client.balance(&id, &h.token), 750);

    // Withdrawing funds to the owner is administrative: refused.
    assert_eq!(
        h.client.try_withdraw(&agent, &id, &h.token, &100),
        Err(Error::Unauthorized)
    );
    assert_eq!(h.client.balance(&id, &h.token), 750);
}

#[test]
fn agent_cannot_administer_lifecycle_or_roles() {
    let h = setup();
    let (owner, id) = funded_wallet(&h, 100);
    let agent = h.env.generate();
    let outsider = h.env.generate();
    h.client.grant_role(&owner, &id, &agent, &Role::Agent);

    assert_eq!(
        h.client.try_pause(&agent, &id),
        Err(Error::Unauthorized)
    );
    assert_eq!(
        h.client.try_archive(&agent, &id),
        Err(Error::Unauthorized)
    );
    assert_eq!(
        h.client
            .try_grant_role(&agent, &id, &outsider, &Role::Agent),
        Err(Error::Unauthorized)
    );
    assert_eq!(
        h.client.try_revoke_role(&agent, &id, &agent),
        Err(Error::Unauthorized)
    );

    // None of the rejected calls changed anything.
    assert_eq!(h.client.get_wallet(&id).state, ResourceState::Active);
    assert_eq!(h.client.get_role(&id, &outsider), None);
    assert_eq!(h.client.get_role(&id, &agent), Some(Role::Agent));
}

#[test]
fn agent_may_freeze_as_a_safety_action() {
    let h = setup();
    let (owner, id) = funded_wallet(&h, 100);
    let agent = h.env.generate();
    h.client.grant_role(&owner, &id, &agent, &Role::Agent);

    h.client.freeze(&agent, &id);
    assert_eq!(h.client.get_wallet(&id).state, ResourceState::Frozen);
    h.client.unfreeze(&agent, &id);
    assert_eq!(h.client.get_wallet(&id).state, ResourceState::Active);
}

#[test]
fn auditor_holds_no_mutating_power() {
    let h = setup();
    let (owner, id) = funded_wallet(&h, 1_000);
    let auditor = h.env.generate();
    let recipient = h.env.generate();
    h.client.grant_role(&owner, &id, &auditor, &Role::Auditor);

    // The role is recorded and readable...
    assert_eq!(h.client.get_role(&id, &auditor), Some(Role::Auditor));
    assert!(h.client.has_role(&id, &auditor, &Role::Auditor));
    // ...but satisfies no guard on a mutating entrypoint.
    assert!(!h.client.has_role(&id, &auditor, &Role::Agent));
    assert_eq!(
        h.client
            .try_transfer(&auditor, &id, &recipient, &h.token, &10),
        Err(Error::Unauthorized)
    );
    assert_eq!(
        h.client.try_withdraw(&auditor, &id, &h.token, &10),
        Err(Error::Unauthorized)
    );
    assert_eq!(
        h.client.try_freeze(&auditor, &id),
        Err(Error::Unauthorized)
    );
    assert_eq!(token_balance(&h, &recipient), 0);
    assert_eq!(h.client.balance(&id, &h.token), 1_000);
}

#[test]
fn delegated_admin_has_full_control() {
    let h = setup();
    let (owner, id) = funded_wallet(&h, 1_000);
    let manager = h.env.generate();
    let agent = h.env.generate();
    h.client.grant_role(&owner, &id, &manager, &Role::Admin);

    // A delegated admin may withdraw - and the funds still go to the owner.
    h.client.withdraw(&manager, &id, &h.token, &400);
    assert_eq!(token_balance(&h, &owner), 400);
    assert_eq!(h.client.balance(&id, &h.token), 600);

    // ...and may administer roles in turn.
    h.client.grant_role(&manager, &id, &agent, &Role::Agent);
    assert_eq!(h.client.get_role(&id, &agent), Some(Role::Agent));

    // ...and lifecycle.
    h.client.pause(&manager, &id);
    assert_eq!(h.client.get_wallet(&id).state, ResourceState::Paused);
}

#[test]
fn revoked_agent_loses_access_immediately() {
    let h = setup();
    let (owner, id) = funded_wallet(&h, 1_000);
    let agent = h.env.generate();
    let recipient = h.env.generate();
    h.client.grant_role(&owner, &id, &agent, &Role::Agent);
    h.client.transfer(&agent, &id, &recipient, &h.token, &100);

    h.client.revoke_role(&owner, &id, &agent);
    assert_eq!(
        h.client
            .try_transfer(&agent, &id, &recipient, &h.token, &100),
        Err(Error::Unauthorized)
    );
    assert_eq!(token_balance(&h, &recipient), 100);
}

#[test]
fn roles_do_not_leak_between_wallets() {
    let h = setup();
    let (owner_a, wallet_a) = funded_wallet(&h, 500);
    let (_owner_b, wallet_b) = funded_wallet(&h, 500);
    let agent = h.env.generate();
    let recipient = h.env.generate();

    h.client
        .grant_role(&owner_a, &wallet_a, &agent, &Role::Agent);

    h.client
        .transfer(&agent, &wallet_a, &recipient, &h.token, &50);
    assert_eq!(
        h.client
            .try_transfer(&agent, &wallet_b, &recipient, &h.token, &50),
        Err(Error::Unauthorized)
    );
    assert_eq!(h.client.get_role(&wallet_b, &agent), None);
}

#[test]
fn owner_cannot_be_assigned_a_role() {
    let h = setup();
    let owner = h.env.generate();
    let id = h.client.create_wallet(&owner);

    // The owner is implicitly Admin; a demotion attempt is refused outright
    // rather than recorded and then ignored by the guards.
    assert_eq!(
        h.client.try_grant_role(&owner, &id, &owner, &Role::Auditor),
        Err(Error::InvalidInput)
    );
    assert_eq!(h.client.get_role(&id, &owner), Some(Role::Admin));
}

#[test]
fn role_checks_report_unknown_wallets_as_not_found() {
    let h = setup();
    let account = h.env.generate();
    assert_eq!(
        h.client.try_get_role(&999, &account),
        Err(Error::NotFound)
    );
    assert_eq!(
        h.client
            .try_grant_role(&account, &999, &account, &Role::Agent),
        Err(Error::NotFound)
    );
}

#[test]
fn granting_on_an_archived_wallet_is_refused() {
    let h = setup();
    let owner = h.env.generate();
    let id = h.client.create_wallet(&owner);
    let agent = h.env.generate();
    h.client.grant_role(&owner, &id, &agent, &Role::Agent);
    h.client.archive(&owner, &id);

    let other = h.env.generate();
    assert_eq!(
        h.client.try_grant_role(&owner, &id, &other, &Role::Agent),
        Err(Error::WalletArchived)
    );
    // Revocation still works so stale grants can be cleaned up.
    h.client.revoke_role(&owner, &id, &agent);
    assert_eq!(h.client.get_role(&id, &agent), None);
}

// ---------------------------------------------------------------------------
// Reserve ratio
// ---------------------------------------------------------------------------

#[test]
fn reserve_ratio_keeps_a_share_behind() {
    let h = setup();
    let (owner, id) = funded_wallet(&h, 1_000);
    let to = h.env.generate();
    h.client.set_reserve_ratio(&owner, &id, &h.token, &2_500);
    assert_eq!(
        h.client.contract.borrow().reserve_ratio(id, h.token),
        2_500
    );
    assert_eq!(
        h.client.try_transfer(&owner, &id, &to, &h.token, &751),
        Err(Error::ReserveViolation)
    );
    h.client.transfer(&owner, &id, &to, &h.token, &750);
    assert_eq!(h.client.balance(&id, &h.token), 250);
    assert_eq!(
        h.client.try_withdraw(&owner, &id, &h.token, &251),
        Err(Error::InsufficientFunds)
    );
    h.client.set_reserve_ratio(&owner, &id, &h.token, &0);
    h.client.withdraw(&owner, &id, &h.token, &250);
    assert_eq!(h.client.balance(&id, &h.token), 0);
}

#[test]
fn reserve_ratio_is_bounded_and_owner_only() {
    let h = setup();
    let (owner, id) = funded_wallet(&h, 10);
    let other = h.env.generate();
    assert_eq!(
        h.client.try_set_reserve_ratio(&other, &id, &h.token, &1),
        Err(Error::Unauthorized)
    );
    assert_eq!(
        h.client
            .try_set_reserve_ratio(&owner, &id, &h.token, &10_001),
        Err(Error::InvalidInput)
    );
    h.client
        .set_reserve_ratio(&owner, &id, &h.token, &10_000);
    assert_eq!(
        h.client.try_withdraw(&owner, &id, &h.token, &1),
        Err(Error::ReserveViolation)
    );
}

#[test]
fn reserve_arithmetic_overflow_is_reported() {
    let h = setup();
    let (owner, id) = funded_wallet(&h, i128::MAX);
    h.client.set_reserve_ratio(&owner, &id, &h.token, &1);
    assert_eq!(
        h.client.try_withdraw(&owner, &id, &h.token, &1),
        Err(Error::Overflow)
    );
}

#[test]
fn deposit_past_the_amount_range_is_refused() {
    let h = setup();
    let (owner, id) = funded_wallet(&h, i128::MAX);
    assert_eq!(
        h.client.try_deposit(&id, &owner, &h.token, &1),
        Err(Error::MathOverflow)
    );
}

// ---------------------------------------------------------------------------
// Dispatch
// ---------------------------------------------------------------------------

#[test]
fn registered_modules_and_owners_may_dispatch() {
    let h = setup();
    let (owner, id) = funded_wallet(&h, 100);
    let module = h.env.generate();
    let c = h.client.contract.borrow();
    let kinds = WalletContract::dispatch_module_kinds();
    assert_eq!(kinds.len(), 6);
    assert!(!kinds.contains(&ModuleKind::Wallet));
    let mut lookups = vec![None; kinds.len()];
    let refused = Err(Error::UnauthorizedDispatch);
    assert_eq!(c.require_registered_caller(&module, id, &lookups), refused);
    lookups[5] = Some(module);
    assert_eq!(c.require_registered_caller(&module, id, &lookups), Ok(()));
    assert_eq!(c.require_registered_caller(&owner, id, &Vec::new()), Ok(()));
    assert_eq!(
        c.require_registered_caller(&h.admin, id, &Vec::new()),
        Ok(())
    );
    assert_eq!(
        c.require_registered_caller(&module, 999, &lookups),
        Err(Error::NotFound)
    );
}

#[test]
fn dispatched_actions_change_the_wallet() {
    let h = setup();
    let (owner, id) = funded_wallet(&h, 100);
    let to = h.env.generate();
    h.client
        .execute_dispatch(&id, &WalletAction::Transfer(to, h.token, 30));
    assert_eq!(token_balance(&h, &to), 30);
    h.client
        .execute_dispatch(&id, &WalletAction::Withdraw(h.token, 20));
    assert_eq!(token_balance(&h, &owner), 20);
    assert_eq!(h.client.balance(&id, &h.token), 50);
    h.client.execute_dispatch(&id, &WalletAction::Freeze);
    assert_eq!(
        h.client
            .try_execute_dispatch(&id, &WalletAction::Transfer(to, h.token, 1)),
        Err(Error::WalletFrozen)
    );
    h.client.execute_dispatch(&id, &WalletAction::Unfreeze);
    h.client.execute_dispatch(&id, &WalletAction::Pause);
    assert_eq!(h.client.get_wallet(&id).state, ResourceState::Paused);
    h.client.execute_dispatch(&id, &WalletAction::Unpause);
    assert_eq!(
        h.client
            .try_execute_dispatch(&id, &WalletAction::Withdraw(h.token, 51)),
        Err(Error::InsufficientFunds)
    );
    assert_eq!(
        h.client
            .try_execute_dispatch(&id, &WalletAction::Withdraw(h.token, 0)),
        Err(Error::InvalidAmount)
    );
}

#[test]
fn deposit_then_withdrawal_restores_the_balance() {
    let h = setup();
    let (owner, id) = funded_wallet(&h, 70);
    h.env.mint(&h.token, &owner, 40);
    h.client.deposit(&id, &owner, &h.token, &40);
    h.client.withdraw(&owner, &id, &h.token, &40);
    assert_eq!(h.client.balance(&id, &h.token), 70);
    assert_eq!(token_balance(&h, &h.env.contract), 70);
}

#[test]
fn wallets_need_an_initialized_contract() {
    let host = Host::new();
    let client = WalletClient {
        contract: RefCell::new(WalletContract::new()),
        host: host.clone(),
    };
    let owner = host.generate();
    assert_eq!(
        client.try_create_wallet(&owner),
        Err(Error::NotInitialized)
    );
    assert_eq!(client.try_get_guardian(), Err(Error::NotInitialized));
    client.initialize(&owner, &owner, &text("o"));
    assert_eq!(
        client.try_initialize(&owner, &owner, &text("o")),
        Err(Error::AlreadyInitialized)
    );
    assert_eq!(client.create_wallet(&owner), 1);
    assert_eq!(client.create_wallet(&owner), 2);
}
