//! The policy contract: limits, lists, windows, categories and the pause.
use astroid::errors::Error;
use astroid::host::{CallEnv, Effect};
use astroid::policy::PolicyContract;
use astroid::types::{Address, AddressKind, Bytes32};
use std::cell::{Cell, RefCell};
use std::collections::HashMap;
use std::rc::Rc;

/// The ledger and the token contracts around the contract under test.
struct Host {
    contract: Address,
    time: Cell<u64>,
    sequence: Cell<u32>,
    generated: Cell<u128>,
    tokens: RefCell<HashMap<(Address, Address), i128>>,
    topics: RefCell<Vec<Vec<&'static str>>>,
    auths: RefCell<Vec<Address>>,
}

impl Host {
    fn new() -> Rc<Host> {
        Rc::new(Host {
            contract: Address {
                kind: AddressKind::Contract,
                key: Bytes32 { hi: 7, lo: 7 },
            },
            time: Cell::new(0),
            sequence: Cell::new(0),
            generated: Cell::new(0),
            tokens: RefCell::new(HashMap::new()),
            topics: RefCell::new(Vec::new()),
            auths: RefCell::new(Vec::new()),
        })
    }

    /// An address that was not used before.
    fn generate(&self) -> Address {
        self.generated.set(self.generated.get() + 1);
        Address {
            kind: AddressKind::Account,
            key: Bytes32 {
                hi: 0,
                lo: self.generated.get(),
            },
        }
    }

    fn mint(&self, asset: &Address, who: &Address, amount: i128) {
        *self.tokens.borrow_mut().entry((*asset, *who)).or_insert(0) += amount;
    }

    fn balance(&self, asset: &Address, who: &Address) -> i128 {
        *self.tokens.borrow().get(&(*asset, *who)).unwrap_or(&0)
    }

    fn begin(&self) -> CallEnv {
        CallEnv::new(
            self.time.get(),
            self.sequence.get(),
            self.contract,
            Bytes32 { hi: 1, lo: 2 },
        )
    }

    /// Carries out what the invocation asked for; a failed one moves no tokens.
    fn finish(&self, env: CallEnv, ok: bool) {
        for effect in env.log {
            match effect {
                Effect::RequireAuth(who) => self.auths.borrow_mut().push(who),
                Effect::Publish(event) => self.topics.borrow_mut().push(event.topics()),
                Effect::Transfer {
                    asset,
                    from,
                    to,
                    amount,
                } => {
                    if ok {
                        assert!(
                            self.balance(&asset, &from) >= amount,
                            "the sender cannot pay"
                        );
                        self.mint(&asset, &from, -amount);
                        self.mint(&asset, &to, amount);
                    }
                }
                _ => {}
            }
        }
    }
}

fn text(s: &str) -> String {
    s.to_string()
}

/// The byte repeated over the whole width.
fn bytes32(b: u8) -> Bytes32 {
    let half = u128::from_be_bytes([b; 16]);
    Bytes32 { hi: half, lo: half }
}

/// Asserts that an event was published under the given topic.
fn assert_event(env: &Host, topic: &str) {
    let found = env
        .topics
        .borrow()
        .iter()
        .any(|topics| topics.iter().any(|t| *t == topic));
    assert!(found, "expected an event under {}", topic);
}

struct PolicyClient {
    contract: RefCell<PolicyContract>,
    host: Rc<Host>,
}

impl PolicyClient {
    fn try_initialize(&self, admin: &Address) -> Result<(), Error> {
        self.contract.borrow_mut().initialize(*admin)
    }

    fn initialize(&self, admin: &Address) {
        self.try_initialize(admin).unwrap()
    }

    fn try_register_policy(
        &self,
        owner: &Address,
        id: &String,
        hash: &Bytes32,
        max: &i128,
        allowed_recipient: &Option<Address>,
        allowed_assets: &Vec<Address>,
        window_start: &u64,
        window_end: &u64,
        expires_at: &u64,
    ) -> Result<(), Error> {
        let mut env = self.host.begin();
        let r = self.contract.borrow_mut().register_policy(
            &mut env,
            *owner,
            id.clone(),
            *hash,
            *max,
            *allowed_recipient,
            allowed_assets.clone(),
            *window_start,
            *window_end,
            *expires_at,
        );
        self.host.finish(env, r.is_ok());
        r
    }

    fn register_policy(
        &self,
        owner: &Address,
        id: &String,
        hash: &Bytes32,
        max: &i128,
        allowed_recipient: &Option<Address>,
        allowed_assets: &Vec<Address>,
        window_start: &u64,
        window_end: &u64,
        expires_at: &u64,
    ) {
        self.try_register_policy(
            owner,
            id,
            hash,
            max,
            allowed_recipient,
            allowed_assets,
            window_start,
            window_end,
            expires_at,
        )
        .unwrap()
    }

    fn try_rotate_policy(
        &self,
        owner: &Address,
        id: &String,
        hash: &Bytes32,
        max: &i128,
    ) -> Result<(), Error> {
        let mut env = self.host.begin();
        let r = self.contract.borrow_mut().rotate_policy(&mut env, *owner, id.clone(), *hash, *max);
        self.host.finish(env, r.is_ok());
        r
    }

    fn rotate_policy(&self, owner: &Address, id: &String, hash: &Bytes32, max: &i128) {
        self.try_rotate_policy(owner, id, hash, max).unwrap()
    }

    fn try_set_enabled(&self, owner: &Address, id: &String, enabled: &bool) -> Result<(), Error> {
        let mut env = self.host.begin();
        let r = self.contract.borrow_mut().set_enabled(&mut env, *owner, id.clone(), *enabled);
        self.host.finish(env, r.is_ok());
        r
    }

    fn set_enabled(&self, owner: &Address, id: &String, enabled: &bool) {
        self.try_set_enabled(owner, id, enabled).unwrap()
    }

    fn try_add_asset_to_whitelist(
        &self,
        owner: &Address,
        id: &String,
        asset: &Address,
    ) -> Result<(), Error> {
        let mut env = self.host.begin();
        let r = self
            .contract
            .borrow_mut()
            .add_asset_to_whitelist(&mut env, *owner, id.clone(), *asset);
        self.host.finish(env, r.is_ok());
        r
    }

    fn add_asset_to_whitelist(&self, owner: &Address, id: &String, asset: &Address) {
        self.try_add_asset_to_whitelist(owner, id, asset).unwrap()
    }

    fn try_remove_asset_from_whitelist(
        &self,
        owner: &Address,
        id: &String,
        asset: &Address,
    ) -> Result<(), Error> {
        let mut env = self.host.begin();
        let r = self
            .contract
            .borrow_mut()
            .remove_asset_from_whitelist(&mut env, *owner, id.clone(), *asset);
        self.host.finish(env, r.is_ok());
        r
    }

    fn remove_asset_from_whitelist(&self, owner: &Address, id: &String, asset: &Address) {
        self.try_remove_asset_from_whitelist(owner, id, asset).unwrap()
    }

    fn try_set_asset_whitelist_enabled(
        &self,
        owner: &Address,
        id: &String,
        enabled: &bool,
    ) -> Result<(), Error> {
        let mut env = self.host.begin();
        let r = self
            .contract
            .borrow_mut()
            .set_asset_whitelist_enabled(&mut env, *owner, id.clone(), *enabled);
        self.host.finish(env, r.is_ok());
        r
    }

    fn set_asset_whitelist_enabled(&self, owner: &Address, id: &String, enabled: &bool) {
        self.try_set_asset_whitelist_enabled(owner, id, enabled).unwrap()
    }

    fn try_add_whitelist(&self, owner: &Address, id: &String, who: &Address) -> Result<(), Error> {
        let mut env = self.host.begin();
        let r = self.contract.borrow_mut().add_whitelist(&mut env, *owner, id.clone(), *who);
        self.host.finish(env, r.is_ok());
        r
    }

    fn add_whitelist(&self, owner: &Address, id: &String, who: &Address) {
        self.try_add_whitelist(owner, id, who).unwrap()
    }

    fn try_remove_whitelist(
        &self,
        owner: &Address,
        id: &String,
        who: &Address,
    ) -> Result<(), Error> {
        let mut env = self.host.begin();
        let r = self.contract.borrow_mut().remove_whitelist(&mut env, *owner, id.clone(), *who);
        self.host.finish(env, r.is_ok());
        r
    }

    fn remove_whitelist(&self, owner: &Address, id: &String, who: &Address) {
        self.try_remove_whitelist(owner, id, who).unwrap()
    }

    fn try_set_whitelist_enabled(
        &self,
        owner: &Address,
        id: &String,
        enabled: &bool,
    ) -> Result<(), Error> {
        let mut env = self.host.begin();
        let r = self
            .contract
            .borrow_mut()
            .set_whitelist_enabled(&mut env, *owner, id.clone(), *enabled);
        self.host.finish(env, r.is_ok());
        r
    }

    fn set_whitelist_enabled(&self, owner: &Address, id: &String, enabled: &bool) {
        self.try_set_whitelist_enabled(owner, id, enabled).unwrap()
    }

    fn try_add_blacklist(&self, owner: &Address, id: &String, who: &Address) -> Result<(), Error> {
        let mut env = self.host.begin();
        let r = self.contract.borrow_mut().add_blacklist(&mut env, *owner, id.clone(), *who);
        self.host.finish(env, r.is_ok());
        r
    }

    fn add_blacklist(&self, owner: &Address, id: &String, who: &Address) {
        self.try_add_blacklist(owner, id, who).unwrap()
    }

    fn try_remove_blacklist(
        &self,
        owner: &Address,
        id: &String,
        who: &Address,
    ) -> Result<(), Error> {
        let mut env = self.host.begin();
        let r = self.contract.borrow_mut().remove_blacklist(&mut env, *owner, id.clone(), *who);
        self.host.finish(env, r.is_ok());
        r
    }

    fn remove_blacklist(&self, owner: &Address, id: &String, who: &Address) {
        self.try_remove_blacklist(owner, id, who).unwrap()
    }

    fn try_add_merchant_blacklist(
        &self,
        owner: &Address,
        id: &String,
        who: &Address,
    ) -> Result<(), Error> {
        let mut env = self.host.begin();
        let r = self
            .contract
            .borrow_mut()
            .add_merchant_blacklist(&mut env, *owner, id.clone(), *who);
        self.host.finish(env, r.is_ok());
        r
    }

    fn add_merchant_blacklist(&self, owner: &Address, id: &String, who: &Address) {
        self.try_add_merchant_blacklist(owner, id, who).unwrap()
    }

    fn try_remove_merchant_blacklist(
        &self,
        owner: &Address,
        id: &String,
        who: &Address,
    ) -> Result<(), Error> {
        let mut env = self.host.begin();
        let r = self
            .contract
            .borrow_mut()
            .remove_merchant_blacklist(&mut env, *owner, id.clone(), *who);
        self.host.finish(env, r.is_ok());
        r
    }

    fn remove_merchant_blacklist(&self, owner: &Address, id: &String, who: &Address) {
        self.try_remove_merchant_blacklist(owner, id, who).unwrap()
    }

    fn try_add_category_blacklist(
        &self,
        owner: &Address,
        id: &String,
        category: &String,
    ) -> Result<(), Error> {
        let mut env = self.host.begin();
        let r = self
            .contract
            .borrow_mut()
            .add_category_blacklist(&mut env, *owner, id.clone(), category.clone());
        self.host.finish(env, r.is_ok());
        r
    }

    fn add_category_blacklist(&self, owner: &Address, id: &String, category: &String) {
        self.try_add_category_blacklist(owner, id, category).unwrap()
    }

    fn try_remove_category_blacklist(
        &self,
        owner: &Address,
        id: &String,
        category: &String,
    ) -> Result<(), Error> {
        let mut env = self.host.begin();
        let r = self
            .contract
            .borrow_mut()
            .remove_category_blacklist(&mut env, *owner, id.clone(), category.clone());
        self.host.finish(env, r.is_ok());
        r
    }

    fn remove_category_blacklist(&self, owner: &Address, id: &String, category: &String) {
        self.try_remove_category_blacklist(owner, id, category).unwrap()
    }

    fn try_add_to_blocklist(
        &self,
        owner: &Address,
        id: &String,
        who: &Address,
    ) -> Result<(), Error> {
        let mut env = self.host.begin();
        let r = self.contract.borrow_mut().add_to_blocklist(&mut env, *owner, id.clone(), *who);
        self.host.finish(env, r.is_ok());
        r
    }

    fn add_to_blocklist(&self, owner: &Address, id: &String, who: &Address) {
        self.try_add_to_blocklist(owner, id, who).unwrap()
    }

    fn try_remove_from_blocklist(
        &self,
        owner: &Address,
        id: &String,
        who: &Address,
    ) -> Result<(), Error> {
        let mut env = self.host.begin();
        let r = self
            .contract
            .borrow_mut()
            .remove_from_blocklist(&mut env, *owner, id.clone(), *who);
        self.host.finish(env, r.is_ok());
        r
    }

    fn remove_from_blocklist(&self, owner: &Address, id: &String, who: &Address) {
        self.try_remove_from_blocklist(owner, id, who).unwrap()
    }

    fn try_validate_asset(&self, id: &String, asset: &Address) -> Result<(), Error> {
        let mut env = self.host.begin();
        let r = self.contract.borrow_mut().validate_asset(&mut env, id, *asset);
        self.host.finish(env, r.is_ok());
        r
    }

    fn validate_asset(&self, id: &String, asset: &Address) {
        self.try_validate_asset(id, asset).unwrap()
    }

    fn try_check_category(&self, id: &String, category: &String) -> Result<(), Error> {
        let mut env = self.host.begin();
        let r = self.contract.borrow_mut().check_category(&mut env, id, category);
        self.host.finish(env, r.is_ok());
        r
    }

    fn check_category(&self, id: &String, category: &String) {
        self.try_check_category(id, category).unwrap()
    }

    fn try_check_transfer(
        &self,
        id: &String,
        asset: &Address,
        recipient: &Address,
        amount: &i128,
    ) -> Result<(), Error> {
        let mut env = self.host.begin();
        let r = self
            .contract
            .borrow_mut()
            .check_transfer(&mut env, id, *asset, *recipient, *amount);
        self.host.finish(env, r.is_ok());
        r
    }

    fn check_transfer(&self, id: &String, asset: &Address, recipient: &Address, amount: &i128) {
        self.try_check_transfer(id, asset, recipient, amount).unwrap()
    }

    fn try_pause(&self, caller: &Address, duration: &u64) -> Result<(), Error> {
        let mut env = self.host.begin();
        let r = self.contract.borrow_mut().pause(&mut env, *caller, *duration);
        self.host.finish(env, r.is_ok());
        r
    }

    fn pause(&self, caller: &Address, duration: &u64) {
        self.try_pause(caller, duration).unwrap()
    }

    fn try_unpause(&self, caller: &Address) -> Result<(), Error> {
        let mut env = self.host.begin();
        let r = self.contract.borrow_mut().unpause(&mut env, *caller);
        self.host.finish(env, r.is_ok());
        r
    }

    fn unpause(&self, caller: &Address) {
        self.try_unpause(caller).unwrap()
    }

    fn paused(&self) -> bool {
        self.contract.borrow().paused(&self.host.begin())
    }
}

fn deploy(env: &Rc<Host>) -> PolicyClient {
    PolicyClient {
        contract: RefCell::new(PolicyContract::new()),
        host: env.clone(),
    }
}

fn setup(env: &Rc<Host>, owner: &Address) -> PolicyClient {
    let client = deploy(env);
    client.initialize(owner);
    client.register_policy(
        owner,
        &text("max_txn"),
        &bytes32(42),
        &1_000_000,
        &None,
        &vec![],
        &0,
        &0,
        &0,
    );
    client
}

/// Register an unrestricted policy and return its contract.
fn register(env: &Rc<Host>, owner: &Address, policy_id: &str) -> PolicyClient {
    let client = deploy(env);
    client.initialize(owner);
    client.register_policy(
        owner,
        &text(policy_id),
        &bytes32(9),
        &0,
        &None,
        &vec![],
        &0,
        &0,
        &0,
    );
    client
}

#[test]
fn allows_spend_below_max() {
    let env = Host::new();
    let owner = env.generate();
    let p = setup(&env, &owner);
    let asset = env.generate();
    let recip = env.generate();
    assert!(p
        .try_check_transfer(&text("max_txn"), &asset, &recip, &999_999,)
        .is_ok());
}

#[test]
fn denies_spend_above_max() {
    let env = Host::new();
    let owner = env.generate();
    let p = setup(&env, &owner);
    let asset = env.generate();
    let recip = env.generate();
    let r = p.try_check_transfer(
        &text("max_txn"),
        &asset,
        &recip,
        &1_000_001,
    );
    assert!(r.is_err());
}

#[test]
fn allowlist_recipient_enforced() {
    let env = Host::new();
    let owner = env.generate();
    let allowed = env.generate();
    let blocked = env.generate();
    let asset = env.generate();
    let client = deploy(&env);
    client.initialize(&owner);
    client.register_policy(
        &owner,
        &text("vendor_list"),
        &bytes32(7),
        &0,
        &Some(allowed.clone()),
        &vec![],
        &0,
        &0,
        &0,
    );

    assert!(client
        .try_check_transfer(&text("vendor_list"), &asset, &allowed, &1,)
        .is_ok());

    assert!(client
        .try_check_transfer(&text("vendor_list"), &asset, &blocked, &1,)
        .is_err());
}

#[test]
fn whitelist_allows_listed_and_blocks_unlisted() {
    let env = Host::new();
    let owner = env.generate();
    let client = register(&env, &owner, "wl");
    let asset = env.generate();
    let a = env.generate();
    let b = env.generate();
    let stranger = env.generate();

    client.set_whitelist_enabled(&owner, &text("wl"), &true);
    client.add_whitelist(&owner, &text("wl"), &a);
    client.add_whitelist(&owner, &text("wl"), &b);

    // Listed recipients pass.
    assert!(client
        .try_check_transfer(&text("wl"), &asset, &a, &1)
        .is_ok());
    assert!(client
        .try_check_transfer(&text("wl"), &asset, &b, &1)
        .is_ok());
    // Unlisted recipient is blocked.
    assert!(client
        .try_check_transfer(&text("wl"), &asset, &stranger, &1)
        .is_err());
}

#[test]
fn empty_whitelist_denies_all_recipients() {
    let env = Host::new();
    let owner = env.generate();
    let client = register(&env, &owner, "wl_empty");
    let asset = env.generate();
    let anyone = env.generate();

    client.set_whitelist_enabled(&owner, &text("wl_empty"), &true);
    // Whitelist mode active with no entries — fail closed, every recipient denied.
    assert!(client
        .try_check_transfer(&text("wl_empty"), &asset, &anyone, &1)
        .is_err());
}

#[test]
fn whitelist_removal_blocks_previously_allowed() {
    let env = Host::new();
    let owner = env.generate();
    let client = register(&env, &owner, "wl_rem");
    let asset = env.generate();
    let a = env.generate();

    client.set_whitelist_enabled(&owner, &text("wl_rem"), &true);
    client.add_whitelist(&owner, &text("wl_rem"), &a);
    assert!(client
        .try_check_transfer(&text("wl_rem"), &asset, &a, &1)
        .is_ok());

    client.remove_whitelist(&owner, &text("wl_rem"), &a);
    // Removing an absent entry fails with NotFound.
    assert!(client
        .try_remove_whitelist(&owner, &text("wl_rem"), &a)
        .is_err());
    // The previously allowed recipient is now blocked.
    assert!(client
        .try_check_transfer(&text("wl_rem"), &asset, &a, &1)
        .is_err());
}

#[test]
fn whitelist_disabled_allows_any_recipient() {
    let env = Host::new();
    let owner = env.generate();
    let client = register(&env, &owner, "wl_off");
    let asset = env.generate();
    let anyone = env.generate();

    // Default state: whitelist mode off, anyone passes.
    assert!(client
        .try_check_transfer(&text("wl_off"), &asset, &anyone, &1)
        .is_ok());
    // Toggle off again after enabling also lets everyone through.
    client.set_whitelist_enabled(&owner, &text("wl_off"), &true);
    client.set_whitelist_enabled(&owner, &text("wl_off"), &false);
    assert!(client
        .try_check_transfer(&text("wl_off"), &asset, &anyone, &1)
        .is_ok());
}

#[test]
fn non_owner_cannot_manage_whitelist() {
    let env = Host::new();
    let owner = env.generate();
    let intruder = env.generate();
    let client = register(&env, &owner, "wl_auth");
    let pid = text("wl_auth");
    let target = env.generate();

    assert!(client
        .try_set_whitelist_enabled(&intruder, &pid, &true)
        .is_err());
    assert!(client.try_add_whitelist(&intruder, &pid, &target).is_err());
    assert!(client
        .try_remove_whitelist(&intruder, &pid, &target)
        .is_err());
}

#[test]
fn duplicate_whitelist_add_rejected() {
    let env = Host::new();
    let owner = env.generate();
    let client = register(&env, &owner, "wl_dup");
    let pid = text("wl_dup");
    let target = env.generate();

    client.add_whitelist(&owner, &pid, &target);
    assert!(client.try_add_whitelist(&owner, &pid, &target).is_err());
}

#[test]
fn disable_denies_everything() {
    let env = Host::new();
    let owner = env.generate();
    let p = setup(&env, &owner);
    let asset = env.generate();
    p.set_enabled(&owner, &text("max_txn"), &false);
    assert!(p
        .try_check_transfer(
            &text("max_txn"),
            &asset,
            &env.generate(),
            &1,
        )
        .is_err());
}

#[test]
fn test_asset_and_window_restrictions() {
    let env = Host::new();

    let admin = env.generate();
    let client = deploy(&env);

    client.initialize(&admin);

    let p_id = text("p2");
    let asset1 = env.generate();
    let asset2 = env.generate();

    // time window: 100 to 200
    client.register_policy(
        &admin,
        &p_id,
        &bytes32(0),
        &0,
        &None,
        &vec![asset1.clone()],
        &100,
        &200,
        &0,
    );

    let recipient = env.generate();

    // Too early
    env.time.set(50);
    assert_eq!(
        client.try_check_transfer(&p_id, &asset1, &recipient, &100),
        Err(Error::PolicyDenied)
    );

    // Too late
    env.time.set(250);
    assert_eq!(
        client.try_check_transfer(&p_id, &asset1, &recipient, &100),
        Err(Error::PolicyDenied)
    );

    // In window, but wrong asset
    env.time.set(150);
    assert_eq!(
        client.try_check_transfer(&p_id, &asset2, &recipient, &100),
        Err(Error::AssetNotWhitelisted)
    );

    // Correct asset and in window
    assert_eq!(
        client.try_check_transfer(&p_id, &asset1, &recipient, &100),
        Ok(())
    );
}

#[test]
fn standard_policy_violation_event_emitted() {
    let env = Host::new();
    let owner = env.generate();
    let p = setup(&env, &owner);
    let asset = env.generate();
    let recip = env.generate();
    let _ = p.try_check_transfer(
        &text("max_txn"),
        &asset,
        &recip,
        &1_000_001,
    );
    assert_event(&env, "PolicyViolation");
}

// --- Pause tests ---

#[test]
fn pause_blocks_evaluation_and_unpause_resumes() {
    let env = Host::new();
    env.time.set(1_000);
    let owner = env.generate();
    let p = setup(&env, &owner);
    let asset = env.generate();
    let recip = env.generate();

    assert!(p
        .try_check_transfer(&text("max_txn"), &asset, &recip, &1,)
        .is_ok());
    assert!(!p.paused());

    p.pause(&owner, &500);
    assert!(p.paused());
    assert!(p
        .try_check_transfer(&text("max_txn"), &asset, &recip, &1,)
        .is_err());

    env.time.set(1_500);
    assert!(!p.paused());
    assert!(p
        .try_check_transfer(&text("max_txn"), &asset, &recip, &1,)
        .is_ok());
}

#[test]
fn indefinite_pause_requires_unpause() {
    let env = Host::new();
    env.time.set(1_000);
    let owner = env.generate();
    let p = setup(&env, &owner);
    let asset = env.generate();
    let recip = env.generate();

    p.pause(&owner, &0);
    assert!(p.paused());
    assert!(p
        .try_check_transfer(&text("max_txn"), &asset, &recip, &1,)
        .is_err());

    env.time.set(1_000_000);
    assert!(p.paused());

    p.unpause(&owner);
    assert!(!p.paused());
    assert!(p
        .try_check_transfer(&text("max_txn"), &asset, &recip, &1,)
        .is_ok());
}

#[test]
fn pause_duration_cap_enforced() {
    let env = Host::new();
    let owner = env.generate();
    let p = setup(&env, &owner);
    let res = p.try_pause(&owner, &(2_592_000 + 1));
    assert!(res.is_err());
    assert!(!p.paused());
}

#[test]
fn only_admin_can_pause() {
    let env = Host::new();
    let owner = env.generate();
    let intruder = env.generate();
    let p = setup(&env, &owner);
    let res = p.try_pause(&intruder, &100);
    assert!(res.is_err());
    assert!(!p.paused());
}

// --- Merchant blacklist tests ---

#[test]
fn merchant_blacklist_blocks_transfers() {
    let env = Host::new();
    let owner = env.generate();
    let p = setup(&env, &owner);
    let asset = env.generate();
    let blocked_merchant = env.generate();

    p.add_merchant_blacklist(
        &owner,
        &text("max_txn"),
        &blocked_merchant,
    );

    let result = p.try_check_transfer(
        &text("max_txn"),
        &asset,
        &blocked_merchant,
        &100,
    );
    assert!(result.is_err());

    let safe_merchant = env.generate();
    assert!(p
        .try_check_transfer(
            &text("max_txn"),
            &asset,
            &safe_merchant,
            &100,
        )
        .is_ok());
}

#[test]
fn merchant_blacklist_removal_allows_transfers() {
    let env = Host::new();
    let owner = env.generate();
    let p = setup(&env, &owner);
    let asset = env.generate();
    let merchant = env.generate();

    p.add_merchant_blacklist(&owner, &text("max_txn"), &merchant);
    assert!(p
        .try_check_transfer(&text("max_txn"), &asset, &merchant, &100,)
        .is_err());

    p.remove_merchant_blacklist(&owner, &text("max_txn"), &merchant);
    assert!(p
        .try_check_transfer(&text("max_txn"), &asset, &merchant, &100,)
        .is_ok());
}

#[test]
fn merchant_blacklist_unauthorized_add_fails() {
    let env = Host::new();
    let owner = env.generate();
    let unauthorized = env.generate();
    let p = setup(&env, &owner);
    let merchant = env.generate();

    let result =
        p.try_add_merchant_blacklist(&unauthorized, &text("max_txn"), &merchant);
    assert!(result.is_err());
}

#[test]
fn merchant_blacklist_duplicate_add_fails() {
    let env = Host::new();
    let owner = env.generate();
    let p = setup(&env, &owner);
    let merchant = env.generate();

    p.add_merchant_blacklist(&owner, &text("max_txn"), &merchant);
    let result =
        p.try_add_merchant_blacklist(&owner, &text("max_txn"), &merchant);
    assert!(result.is_err());
}

#[test]
fn merchant_blacklist_nonexistent_remove_fails() {
    let env = Host::new();
    let owner = env.generate();
    let p = setup(&env, &owner);
    let merchant = env.generate();

    let result =
        p.try_remove_merchant_blacklist(&owner, &text("max_txn"), &merchant);
    assert!(result.is_err());
}

#[test]
fn merchant_blocked_event_emitted() {
    let env = Host::new();
    let owner = env.generate();
    let p = setup(&env, &owner);
    let asset = env.generate();
    let blocked_merchant = env.generate();

    p.add_merchant_blacklist(
        &owner,
        &text("max_txn"),
        &blocked_merchant,
    );

    let _ = p.try_check_transfer(
        &text("max_txn"),
        &asset,
        &blocked_merchant,
        &100,
    );
    assert_event(&env, "PolicyViolation");
}

// --- Category blacklist tests ---

#[test]
fn category_blacklist_blocks_categories() {
    let env = Host::new();
    let owner = env.generate();
    let p = setup(&env, &owner);

    p.add_category_blacklist(
        &owner,
        &text("max_txn"),
        &text("gambling"),
    );

    let result = p.try_check_category(
        &text("max_txn"),
        &text("gambling"),
    );
    assert!(result.is_err());

    assert!(p
        .try_check_category(
            &text("max_txn"),
            &text("groceries"),
        )
        .is_ok());

    assert!(p
        .try_check_category(
            &text("max_txn"),
            &text(""),
        )
        .is_ok());
}

#[test]
fn category_blacklist_removal_allows_categories() {
    let env = Host::new();
    let owner = env.generate();
    let p = setup(&env, &owner);

    p.add_category_blacklist(
        &owner,
        &text("max_txn"),
        &text("gambling"),
    );
    assert!(p
        .try_check_category(
            &text("max_txn"),
            &text("gambling"),
        )
        .is_err());

    p.remove_category_blacklist(
        &owner,
        &text("max_txn"),
        &text("gambling"),
    );
    assert!(p
        .try_check_category(
            &text("max_txn"),
            &text("gambling"),
        )
        .is_ok());
}

#[test]
fn category_blacklist_unauthorized_add_fails() {
    let env = Host::new();
    let owner = env.generate();
    let unauthorized = env.generate();
    let p = setup(&env, &owner);

    let result = p.try_add_category_blacklist(
        &unauthorized,
        &text("max_txn"),
        &text("gambling"),
    );
    assert!(result.is_err());
}

#[test]
fn category_blacklist_duplicate_add_fails() {
    let env = Host::new();
    let owner = env.generate();
    let p = setup(&env, &owner);

    p.add_category_blacklist(
        &owner,
        &text("max_txn"),
        &text("gambling"),
    );
    let result = p.try_add_category_blacklist(
        &owner,
        &text("max_txn"),
        &text("gambling"),
    );
    assert!(result.is_err());
}

#[test]
fn category_blacklist_nonexistent_remove_fails() {
    let env = Host::new();
    let owner = env.generate();
    let p = setup(&env, &owner);

    let result = p.try_remove_category_blacklist(
        &owner,
        &text("max_txn"),
        &text("gambling"),
    );
    assert!(result.is_err());
}

#[test]
fn category_blacklist_empty_category_fails() {
    let env = Host::new();
    let owner = env.generate();
    let p = setup(&env, &owner);

    let result = p.try_add_category_blacklist(
        &owner,
        &text("max_txn"),
        &text(""),
    );
    assert!(result.is_err());
}

#[test]
fn category_restricted_event_emitted() {
    let env = Host::new();
    let owner = env.generate();
    let p = setup(&env, &owner);

    p.add_category_blacklist(
        &owner,
        &text("max_txn"),
        &text("gambling"),
    );

    let _ = p.try_check_category(
        &text("max_txn"),
        &text("gambling"),
    );
    assert_event(&env, "PolicyViolation");
}

// --- Blocklist tests ---

#[test]
fn blocklist_blocks_transfers() {
    let env = Host::new();
    let owner = env.generate();
    let p = setup(&env, &owner);
    let asset = env.generate();
    let blocked = env.generate();
    let safe = env.generate();

    p.add_to_blocklist(&owner, &text("max_txn"), &blocked);

    let result = p.try_check_transfer(&text("max_txn"), &asset, &blocked, &100);
    assert!(result.is_err());

    assert!(p
        .try_check_transfer(&text("max_txn"), &asset, &safe, &100,)
        .is_ok());
}

#[test]
fn blocklist_removal_allows_transfers() {
    let env = Host::new();
    let owner = env.generate();
    let p = setup(&env, &owner);
    let asset = env.generate();
    let recip = env.generate();

    p.add_to_blocklist(&owner, &text("max_txn"), &recip);
    assert!(p
        .try_check_transfer(&text("max_txn"), &asset, &recip, &100,)
        .is_err());

    p.remove_from_blocklist(&owner, &text("max_txn"), &recip);
    assert!(p
        .try_check_transfer(&text("max_txn"), &asset, &recip, &100,)
        .is_ok());
}

#[test]
fn blocklist_unauthorized_add_fails() {
    let env = Host::new();
    let owner = env.generate();
    let unauthorized = env.generate();
    let p = setup(&env, &owner);
    let addr = env.generate();

    let result = p.try_add_to_blocklist(&unauthorized, &text("max_txn"), &addr);
    assert!(result.is_err());
}

#[test]
fn blocklist_duplicate_add_fails() {
    let env = Host::new();
    let owner = env.generate();
    let p = setup(&env, &owner);
    let addr = env.generate();

    p.add_to_blocklist(&owner, &text("max_txn"), &addr);
    let result = p.try_add_to_blocklist(&owner, &text("max_txn"), &addr);
    assert!(result.is_err());
}

#[test]
fn blocklist_nonexistent_remove_fails() {
    let env = Host::new();
    let owner = env.generate();
    let p = setup(&env, &owner);
    let addr = env.generate();

    let result = p.try_remove_from_blocklist(&owner, &text("max_txn"), &addr);
    assert!(result.is_err());
}

#[test]
fn blocklist_violation_event_emitted() {
    let env = Host::new();
    let owner = env.generate();
    let p = setup(&env, &owner);
    let asset = env.generate();
    let blocked = env.generate();

    p.add_to_blocklist(&owner, &text("max_txn"), &blocked);

    let _ = p.try_check_transfer(&text("max_txn"), &asset, &blocked, &100);
    assert_event(&env, "PolicyViolation");
}

// --- Asset whitelist tests ---

#[test]
fn asset_whitelist_allows_whitelisted_asset() {
    let env = Host::new();
    let owner = env.generate();
    let p = setup(&env, &owner);
    let asset = env.generate();

    p.set_asset_whitelist_enabled(&owner, &text("max_txn"), &true);
    p.add_asset_to_whitelist(&owner, &text("max_txn"), &asset);

    let recip = env.generate();
    assert!(p
        .try_check_transfer(&text("max_txn"), &asset, &recip, &100,)
        .is_ok());
}

#[test]
fn asset_whitelist_add_remove_roundtrip() {
    let env = Host::new();
    let owner = env.generate();
    let p = setup(&env, &owner);
    let asset = env.generate();

    p.set_asset_whitelist_enabled(&owner, &text("max_txn"), &true);
    p.add_asset_to_whitelist(&owner, &text("max_txn"), &asset);

    p.remove_asset_from_whitelist(&owner, &text("max_txn"), &asset);

    assert!(p
        .try_validate_asset(&text("max_txn"), &asset)
        .is_err());
}

#[test]
fn asset_whitelist_unauthorized_add_fails() {
    let env = Host::new();
    let owner = env.generate();
    let unauthorized = env.generate();
    let p = setup(&env, &owner);
    let addr = env.generate();

    let result = p.try_add_to_blocklist(&unauthorized, &text("max_txn"), &addr);
    assert!(result.is_err());
}

#[test]
fn asset_whitelist_duplicate_add_fails() {
    let env = Host::new();
    let owner = env.generate();
    let p = setup(&env, &owner);
    let asset = env.generate();

    p.add_asset_to_whitelist(&owner, &text("max_txn"), &asset);

    let result = p.try_add_asset_to_whitelist(&owner, &text("max_txn"), &asset);
    assert!(result.is_err());
}

#[test]
fn asset_whitelist_nonexistent_remove_fails() {
    let env = Host::new();
    let owner = env.generate();
    let p = setup(&env, &owner);
    let asset = env.generate();

    let result =
        p.try_remove_asset_from_whitelist(&owner, &text("max_txn"), &asset);
    assert!(result.is_err());
}

#[test]
fn asset_whitelist_empty_default_passes_validate() {
    let env = Host::new();
    let owner = env.generate();
    let p = setup(&env, &owner);
    let asset = env.generate();

    assert!(p
        .try_validate_asset(&text("max_txn"), &asset)
        .is_ok());
}

#[test]
fn asset_whitelist_violation_event_emitted() {
    let env = Host::new();
    let owner = env.generate();
    let p = setup(&env, &owner);
    let asset = env.generate();
    let recip = env.generate();

    p.set_asset_whitelist_enabled(&owner, &text("max_txn"), &true);

    let _ = p.try_check_transfer(&text("max_txn"), &asset, &recip, &100);
    assert_event(&env, "PolicyViolation");
}

#[test]
fn gates_report_their_own_error() {
    let env = Host::new();
    let owner = env.generate();
    let p = setup(&env, &owner);
    let id = text("max_txn");
    let (asset, who) = (env.generate(), env.generate());
    let check = |amount: i128| p.try_check_transfer(&id, &asset, &who, &amount);

    assert_eq!(check(1_000_001), Err(Error::PolicyDenied));
    assert_eq!(check(1_000_000), Ok(()));
    p.set_asset_whitelist_enabled(&owner, &id, &true);
    assert_eq!(check(1), Err(Error::AssetNotWhitelisted));
    p.set_asset_whitelist_enabled(&owner, &id, &false);
    p.set_whitelist_enabled(&owner, &id, &true);
    assert_eq!(check(1), Err(Error::PolicyDenied));
    p.set_whitelist_enabled(&owner, &id, &false);
    p.add_merchant_blacklist(&owner, &id, &who);
    assert_eq!(check(1), Err(Error::PolicyMerchantBlocked));
    p.add_blacklist(&owner, &id, &who);
    assert_eq!(check(1), Err(Error::PolicyRecipientRestricted));
    assert_eq!(
        p.try_add_blacklist(&owner, &id, &who),
        Err(Error::AlreadyExists)
    );
    p.remove_merchant_blacklist(&owner, &id, &who);
    p.remove_blacklist(&owner, &id, &who);
    assert_eq!(check(1), Ok(()));
    assert_eq!(
        p.try_remove_blacklist(&owner, &id, &who),
        Err(Error::NotFound)
    );
    p.set_enabled(&owner, &id, &false);
    assert_eq!(check(1), Err(Error::PolicyDenied));
    p.add_category_blacklist(&owner, &id, &text("gambling"));
    assert_eq!(
        p.try_check_category(&id, &text("gambling")),
        Err(Error::PolicyCategoryRestricted)
    );
    assert_eq!(
        p.try_check_transfer(&text("absent"), &asset, &who, &1),
        Err(Error::NotFound)
    );
    p.pause(&owner, &0);
    assert_eq!(check(1), Err(Error::PolicyPaused));
}

#[test]
fn rotation_needs_the_owner() {
    let env = Host::new();
    let owner = env.generate();
    let p = setup(&env, &owner);
    let id = text("max_txn");
    let stranger = env.generate();
    assert_eq!(
        p.try_rotate_policy(&stranger, &id, &bytes32(1), &5),
        Err(Error::Unauthorized)
    );
    p.rotate_policy(&owner, &id, &bytes32(43), &500);
    let c = p.contract.borrow();
    let policy = c.get(&id).unwrap();
    assert_eq!(policy.config_hash, bytes32(43));
    assert_eq!(policy.max_amount, 500);
}

#[test]
fn expired_policy_denies() {
    let env = Host::new();
    let owner = env.generate();
    let p = deploy(&env);
    p.initialize(&owner);
    let id = text("temp");
    p.register_policy(
        &owner,
        &id,
        &bytes32(1),
        &0,
        &None,
        &Vec::new(),
        &0,
        &0,
        &100,
    );
    let (asset, who) = (env.generate(), env.generate());
    env.time.set(99);
    assert_eq!(p.try_check_transfer(&id, &asset, &who, &1), Ok(()));
    env.time.set(100);
    assert_eq!(
        p.try_check_transfer(&id, &asset, &who, &1),
        Err(Error::PolicyDenied)
    );
}

#[test]
fn blocklists_answer_before_a_disabled_policy() {
    let env = Host::new();
    let owner = env.generate();
    let p = setup(&env, &owner);
    let id = text("max_txn");
    let (asset, blocked, merchant) = (env.generate(), env.generate(), env.generate());
    p.add_to_blocklist(&owner, &id, &blocked);
    p.add_merchant_blacklist(&owner, &id, &merchant);
    p.set_enabled(&owner, &id, &false);
    assert_eq!(
        p.try_check_transfer(&id, &asset, &blocked, &1),
        Err(Error::PolicyRecipientRestricted)
    );
    assert_eq!(
        p.try_check_transfer(&id, &asset, &merchant, &1),
        Err(Error::PolicyMerchantBlocked)
    );
    assert_eq!(
        p.try_check_transfer(&id, &asset, &owner, &1),
        Err(Error::PolicyDenied)
    );
}
