//! The escrow contract: deposits, releases, schedules, milestones, refunds and
//! the signature override.
use astroid::errors::Error;
use astroid::escrow::storage::{EscrowState, MilestoneSpec, ReleaseSchedule, ReleaseType};
use astroid::escrow::{EscrowContract, OverrideSignature};
use astroid::host::{CallEnv, Effect};
use astroid::types::{Address, AddressKind, AssetAmount, Bytes32, Bytes64};
use ed25519_dalek::{Signature, Signer, SigningKey};
use soroban_sdk::testutils::{Address as _, EnvTestConfig};
use soroban_sdk::xdr::{AccountId, PublicKey, ScAddress, ToXdr, Uint256};
use soroban_sdk::{Bytes, BytesN, Env, TryFromVal};
use std::cell::{Cell, RefCell};
use std::collections::HashMap;
use std::rc::Rc;

const START: u64 = 1_000;
const GRACE: u64 = 1_000;

/// The ledger and the token contracts around the contract under test.
struct Host {
    contract: Address,
    time: Cell<u64>,
    sequence: Cell<u32>,
    generated: Cell<u128>,
    tokens: RefCell<HashMap<(Address, Address), i128>>,
    topics: RefCell<Vec<Vec<&'static str>>>,
    auths: RefCell<Vec<Address>>,
}

impl Host {
    fn new() -> Rc<Host> {
        Rc::new(Host {
            contract: Address {
                kind: AddressKind::Contract,
                key: Bytes32 { hi: 7, lo: 7 },
            },
            time: Cell::new(0),
            sequence: Cell::new(0),
            generated: Cell::new(0),
            tokens: RefCell::new(HashMap::new()),
            topics: RefCell::new(Vec::new()),
            auths: RefCell::new(Vec::new()),
        })
    }

    /// An address that was not used before.
    fn generate(&self) -> Address {
        self.generated.set(self.generated.get() + 1);
        Address {
            kind: AddressKind::Account,
            key: Bytes32 {
                hi: 0,
                lo: self.generated.get(),
            },
        }
    }

    fn mint(&self, asset: &Address, who: &Address, amount: i128) {
        *self.tokens.borrow_mut().entry((*asset, *who)).or_insert(0) += amount;
    }

    fn balance(&self, asset: &Address, who: &Address) -> i128 {
        *self.tokens.borrow().get(&(*asset, *who)).unwrap_or(&0)
    }

    fn begin(&self) -> CallEnv {
        CallEnv::new(
            self.time.get(),
            self.sequence.get(),
            self.contract,
            Bytes32 { hi: 1, lo: 2 },
        )
    }

    /// Carries out what the invocation asked for; a failed one moves no tokens.
    fn finish(&self, env: CallEnv, ok: bool) {
        for effect in env.log {
            match effect {
                Effect::RequireAuth(who) => self.auths.borrow_mut().push(who),
                Effect::Publish(event) => self.topics.borrow_mut().push(event.topics()),
                Effect::Transfer {
                    asset,
                    from,
                    to,
                    amount,
                } => {
                    if ok {
                        assert!(
                            self.balance(&asset, &from) >= amount,
                            "the sender cannot pay"
                        );
                        self.mint(&asset, &from, -amount);
                        self.mint(&asset, &to, amount);
                    }
                }
                _ => {}
            }
        }
    }
}

fn text(s: &str) -> String {
    s.to_string()
}

fn to_array(b: &Bytes32) -> [u8; 32] {
    let mut out = [0; 32];
    out[..16].copy_from_slice(&b.hi.to_be_bytes());
    out[16..].copy_from_slice(&b.lo.to_be_bytes());
    out
}

fn bytes32(b: &[u8]) -> Bytes32 {
    Bytes32 {
        hi: u128::from_be_bytes(b[..16].try_into().unwrap()),
        lo: u128::from_be_bytes(b[16..].try_into().unwrap()),
    }
}

fn sdk_env() -> Env {
    Env::new_with_config(EnvTestConfig {
        capture_snapshot_at_drop: false,
    })
}

struct EscrowClient {
    contract: RefCell<EscrowContract>,
    host: Rc<Host>,
    sdk: Env,
}

impl EscrowClient {
    fn try_initialize(&self) -> Result<(), Error> {
        self.contract.borrow_mut().initialize()
    }

    fn initialize(&self) {
        self.try_initialize().unwrap()
    }

    fn try_create(
        &self,
        sender: &Address,
        recipient: &Address,
        arbiter: &Address,
        assets: &Vec<AssetAmount>,
        deadline: &u64,
        grace: &u64,
        memo: &String,
        signers: &Vec<Bytes32>,
        threshold: &u32,
    ) -> Result<u64, Error> {
        let mut env = self.host.begin();
        let r = self.contract.borrow_mut().create(
            &mut env,
            *sender,
            *recipient,
            *arbiter,
            assets.clone(),
            *deadline,
            *grace,
            memo.clone(),
            signers.clone(),
            *threshold,
        );
        self.host.finish(env, r.is_ok());
        r
    }

    fn create(
        &self,
        sender: &Address,
        recipient: &Address,
        arbiter: &Address,
        assets: &Vec<AssetAmount>,
        deadline: &u64,
        grace: &u64,
        memo: &String,
        signers: &Vec<Bytes32>,
        threshold: &u32,
    ) -> u64 {
        self.try_create(
            sender,
            recipient,
            arbiter,
            assets,
            deadline,
            grace,
            memo,
            signers,
            threshold,
        )
        .unwrap()
    }

    fn try_initialize_timelock(
        &self,
        sender: &Address,
        recipient: &Address,
        arbiter: &Address,
        assets: &Vec<AssetAmount>,
        unlock: &u64,
        grace: &u64,
        memo: &String,
    ) -> Result<u64, Error> {
        let mut env = self.host.begin();
        let r = self.contract.borrow_mut().initialize_timelock(
            &mut env,
            *sender,
            *recipient,
            *arbiter,
            assets.clone(),
            *unlock,
            *grace,
            memo.clone(),
        );
        self.host.finish(env, r.is_ok());
        r
    }

    fn initialize_timelock(
        &self,
        sender: &Address,
        recipient: &Address,
        arbiter: &Address,
        assets: &Vec<AssetAmount>,
        unlock: &u64,
        grace: &u64,
        memo: &String,
    ) -> u64 {
        self.try_initialize_timelock(sender, recipient, arbiter, assets, unlock, grace, memo)
            .unwrap()
    }

    fn try_create_timelock(
        &self,
        sender: &Address,
        recipient: &Address,
        arbiter: &Address,
        assets: &Vec<AssetAmount>,
        unlock: &u64,
        memo: &String,
    ) -> Result<u64, Error> {
        let mut env = self.host.begin();
        let r = self.contract.borrow_mut().create_timelock(
            &mut env,
            *sender,
            *recipient,
            *arbiter,
            assets.clone(),
            *unlock,
            memo.clone(),
        );
        self.host.finish(env, r.is_ok());
        r
    }

    fn create_timelock(
        &self,
        sender: &Address,
        recipient: &Address,
        arbiter: &Address,
        assets: &Vec<AssetAmount>,
        unlock: &u64,
        memo: &String,
    ) -> u64 {
        self.try_create_timelock(sender, recipient, arbiter, assets, unlock, memo).unwrap()
    }

    fn try_create_scheduled(
        &self,
        sender: &Address,
        recipient: &Address,
        arbiter: &Address,
        assets: &Vec<AssetAmount>,
        schedule: &ReleaseSchedule,
        deadline: &u64,
        memo: &String,
    ) -> Result<u64, Error> {
        let mut env = self.host.begin();
        let r = self.contract.borrow_mut().create_scheduled(
            &mut env,
            *sender,
            *recipient,
            *arbiter,
            assets.clone(),
            *schedule,
            *deadline,
            memo.clone(),
        );
        self.host.finish(env, r.is_ok());
        r
    }

    fn create_scheduled(
        &self,
        sender: &Address,
        recipient: &Address,
        arbiter: &Address,
        assets: &Vec<AssetAmount>,
        schedule: &ReleaseSchedule,
        deadline: &u64,
        memo: &String,
    ) -> u64 {
        self.try_create_scheduled(sender, recipient, arbiter, assets, schedule, deadline, memo)
            .unwrap()
    }

    fn try_fund(&self, caller: &Address, id: &u64) -> Result<(), Error> {
        let mut env = self.host.begin();
        let r = self.contract.borrow_mut().fund(&mut env, *caller, *id);
        self.host.finish(env, r.is_ok());
        r
    }

    fn fund(&self, caller: &Address, id: &u64) {
        self.try_fund(caller, id).unwrap()
    }

    fn try_claim(&self, caller: &Address, id: &u64) -> Result<i128, Error> {
        let mut env = self.host.begin();
        let r = self.contract.borrow_mut().claim(&mut env, *caller, *id);
        self.host.finish(env, r.is_ok());
        r
    }

    fn claim(&self, caller: &Address, id: &u64) -> i128 {
        self.try_claim(caller, id).unwrap()
    }

    fn try_withdraw(&self, caller: &Address, id: &u64, amount: &i128) -> Result<i128, Error> {
        let mut env = self.host.begin();
        let r = self.contract.borrow_mut().withdraw(&mut env, *caller, *id, *amount);
        self.host.finish(env, r.is_ok());
        r
    }

    fn withdraw(&self, caller: &Address, id: &u64, amount: &i128) -> i128 {
        self.try_withdraw(caller, id, amount).unwrap()
    }

    fn try_release(&self, caller: &Address, id: &u64, amount: &i128) -> Result<(), Error> {
        let mut env = self.host.begin();
        let r = self.contract.borrow_mut().release(&mut env, *caller, *id, *amount);
        self.host.finish(env, r.is_ok());
        r
    }

    fn release(&self, caller: &Address, id: &u64, amount: &i128) {
        self.try_release(caller, id, amount).unwrap()
    }

    fn try_expire(&self, id: &u64) -> Result<(), Error> {
        let mut env = self.host.begin();
        let r = self.contract.borrow_mut().expire(&mut env, *id);
        self.host.finish(env, r.is_ok());
        r
    }

    fn expire(&self, id: &u64) {
        self.try_expire(id).unwrap()
    }

    fn try_refund(&self, caller: &Address, id: &u64) -> Result<(), Error> {
        let mut env = self.host.begin();
        let r = self.contract.borrow_mut().refund(&mut env, *caller, *id);
        self.host.finish(env, r.is_ok());
        r
    }

    fn refund(&self, caller: &Address, id: &u64) {
        self.try_refund(caller, id).unwrap()
    }

    fn try_reclaim(&self, caller: &Address, id: &u64) -> Result<(), Error> {
        let mut env = self.host.begin();
        let r = self.contract.borrow_mut().reclaim(&mut env, *caller, *id);
        self.host.finish(env, r.is_ok());
        r
    }

    fn reclaim(&self, caller: &Address, id: &u64) {
        self.try_reclaim(caller, id).unwrap()
    }

    fn try_refund_timelock(&self, caller: &Address, id: &u64) -> Result<(), Error> {
        let mut env = self.host.begin();
        let r = self.contract.borrow_mut().refund_timelock(&mut env, *caller, *id);
        self.host.finish(env, r.is_ok());
        r
    }

    fn refund_timelock(&self, caller: &Address, id: &u64) {
        self.try_refund_timelock(caller, id).unwrap()
    }

    fn try_cancel(&self, caller: &Address, id: &u64) -> Result<(), Error> {
        let mut env = self.host.begin();
        let r = self.contract.borrow_mut().cancel(&mut env, *caller, *id);
        self.host.finish(env, r.is_ok());
        r
    }

    fn cancel(&self, caller: &Address, id: &u64) {
        self.try_cancel(caller, id).unwrap()
    }

    fn try_close(&self, caller: &Address, id: &u64) -> Result<(), Error> {
        let mut env = self.host.begin();
        let r = self.contract.borrow_mut().close(&mut env, *caller, *id);
        self.host.finish(env, r.is_ok());
        r
    }

    fn close(&self, caller: &Address, id: &u64) {
        self.try_close(caller, id).unwrap()
    }

    fn try_deposit_with_milestones(
        &self,
        sender: &Address,
        recipient: &Address,
        arbiter: &Address,
        asset: &Address,
        amount: &i128,
        deadline: &u64,
        memo: &String,
        specs: &Vec<MilestoneSpec>,
    ) -> Result<u64, Error> {
        let mut env = self.host.begin();
        let r = self.contract.borrow_mut().deposit_with_milestones(
            &mut env,
            *sender,
            *recipient,
            *arbiter,
            *asset,
            *amount,
            *deadline,
            memo.clone(),
            specs.clone(),
        );
        self.host.finish(env, r.is_ok());
        r
    }

    fn deposit_with_milestones(
        &self,
        sender: &Address,
        recipient: &Address,
        arbiter: &Address,
        asset: &Address,
        amount: &i128,
        deadline: &u64,
        memo: &String,
        specs: &Vec<MilestoneSpec>,
    ) -> u64 {
        self.try_deposit_with_milestones(
            sender,
            recipient,
            arbiter,
            asset,
            amount,
            deadline,
            memo,
            specs,
        )
        .unwrap()
    }

    fn try_release_milestone(&self, caller: &Address, id: &u64, index: &u32) -> Result<(), Error> {
        let mut env = self.host.begin();
        let r = self.contract.borrow_mut().release_milestone(&mut env, *caller, *id, *index);
        self.host.finish(env, r.is_ok());
        r
    }

    fn release_milestone(&self, caller: &Address, id: &u64, index: &u32) {
        self.try_release_milestone(caller, id, index).unwrap()
    }

    fn state(&self, id: &u64) -> EscrowState {
        self.contract.borrow().get(*id).unwrap().state
    }

    fn get_vested_amount(&self, id: &u64) -> i128 {
        let env = self.host.begin();
        self.contract
            .borrow()
            .get_vested_amount(&env, *id)
            .unwrap()
    }

    fn get_claimable_amount(&self, id: &u64) -> i128 {
        let env = self.host.begin();
        self.contract
            .borrow()
            .get_claimable_amount(&env, *id)
            .unwrap()
    }

    /// Releases by signatures; panics where one of them does not verify.
    fn try_override_release(
        &self,
        id: &u64,
        nonce: &u64,
        signatures: &Vec<OverrideSignature>,
    ) -> Result<(), Error> {
        let mut env = self.host.begin();
        let r = self.contract.borrow_mut().override_release(
            &self.sdk, &mut env, *id, *nonce, signatures,
        );
        for effect in &env.log {
            if let Effect::VerifySignature {
                public_key,
                message,
                signature,
            } = effect
            {
                let mut sig = to_array(&signature.r).to_vec();
                sig.extend(to_array(&signature.s));
                self.sdk.crypto().ed25519_verify(
                    &BytesN::from_array(&self.sdk, &to_array(public_key)),
                    &Bytes::from_slice(&self.sdk, &to_array(message)),
                    &BytesN::from_array(&self.sdk, &sig.try_into().unwrap()),
                );
            }
        }
        self.host.finish(env, r.is_ok());
        r
    }

    fn override_release(&self, id: &u64, nonce: &u64, signatures: &Vec<OverrideSignature>) {
        self.try_override_release(id, nonce, signatures).unwrap()
    }
}

struct Harness {
    env: Rc<Host>,
    client: EscrowClient,
    asset_a: Address,
    asset_b: Address,
    sender: Address,
    recipient: Address,
    arbiter: Address,
}

fn setup(funded_a: i128, funded_b: i128) -> Harness {
    let env = Host::new();
    env.time.set(START);
    let client = EscrowClient {
        contract: RefCell::new(EscrowContract::new()),
        host: env.clone(),
        sdk: sdk_env(),
    };
    client.initialize();
    let h = Harness {
        client,
        asset_a: env.generate(),
        asset_b: env.generate(),
        sender: env.generate(),
        recipient: env.generate(),
        arbiter: env.generate(),
        env,
    };
    h.env.mint(&h.asset_a, &h.sender, funded_a);
    h.env.mint(&h.asset_b, &h.sender, funded_b);
    h
}

fn balance(h: &Harness, asset: &Address, who: &Address) -> i128 {
    h.env.balance(asset, who)
}

fn one_asset(h: &Harness, amount: i128) -> Vec<AssetAmount> {
    vec![AssetAmount {
        asset: h.asset_a,
        amount,
    }]
}

fn two_assets(h: &Harness, amount_a: i128, amount_b: i128) -> Vec<AssetAmount> {
    vec![
        AssetAmount {
            asset: h.asset_a,
            amount: amount_a,
        },
        AssetAmount {
            asset: h.asset_b,
            amount: amount_b,
        },
    ]
}

fn create(h: &Harness, assets: &Vec<AssetAmount>, deadline: u64, grace_period: u64) -> u64 {
    h.client.create(
        &h.sender,
        &h.recipient,
        &h.arbiter,
        assets,
        &deadline,
        &grace_period,
        &text("payment"),
        &Vec::new(),
        &0,
    )
}

fn keypair(seed: u8) -> SigningKey {
    SigningKey::from_bytes(&[seed; 32])
}

fn public_key(kp: &SigningKey) -> Bytes32 {
    bytes32(&kp.verifying_key().to_bytes())
}

fn sign_override(h: &Harness, kp: &SigningKey, id: u64, nonce: u64) -> OverrideSignature {
    let payload = EscrowContract::override_payload(&h.env.begin(), id, nonce);
    let digest = h
        .client
        .sdk
        .crypto()
        .sha256(&Bytes::from_slice(&h.client.sdk, &payload))
        .to_array();
    let signature = kp.sign(&digest).to_bytes();
    OverrideSignature {
        public_key: public_key(kp),
        signature: Bytes64 {
            r: bytes32(&signature[..32]),
            s: bytes32(&signature[32..]),
        },
    }
}

fn milestone_spec(description: &str, bps: u32) -> MilestoneSpec {
    MilestoneSpec {
        description: text(description),
        release_bps: bps,
    }
}

// --- Core multi-asset tests ---

#[test]
fn full_cycle_create_release() {
    let h = setup(10_000, 5_000);
    let assets = two_assets(&h, 10_000, 5_000);
    let id = create(&h, &assets, START + 86_400, 0);
    assert_eq!(id, 1);
    assert_eq!(balance(&h, &h.asset_a, &h.sender), 0);
    assert_eq!(balance(&h, &h.asset_b, &h.sender), 0);
    assert_eq!(balance(&h, &h.asset_a, &h.env.contract), 10_000);
    assert_eq!(balance(&h, &h.asset_b, &h.env.contract), 5_000);
    assert_eq!(h.client.state(&id), EscrowState::Funded);

    h.client.release(&h.arbiter, &id, &10_000);
    assert_eq!(h.client.state(&id), EscrowState::Released);
    assert_eq!(balance(&h, &h.asset_a, &h.recipient), 10_000);
    assert_eq!(balance(&h, &h.asset_b, &h.recipient), 5_000);
    assert_eq!(balance(&h, &h.asset_a, &h.env.contract), 0);
    assert_eq!(balance(&h, &h.asset_b, &h.env.contract), 0);

    h.client.close(&h.sender, &id);
    assert_eq!(h.client.state(&id), EscrowState::Closed);
}

#[test]
fn non_arbiter_cannot_release() {
    let h = setup(5_000, 0);
    let id = create(&h, &one_asset(&h, 5_000), START + 100, 0);
    let intruder = h.env.generate();

    let res = h.client.try_release(&intruder, &id, &5_000);
    assert_eq!(res, Err(Error::Unauthorized));
    assert_eq!(balance(&h, &h.asset_a, &h.env.contract), 5_000);
    assert_eq!(balance(&h, &h.asset_a, &h.recipient), 0);
}

#[test]
fn release_after_deadline_is_refused() {
    let h = setup(5_000, 0);
    let id = create(&h, &one_asset(&h, 5_000), START + 100, 0);

    h.env.time.set(START + 200);
    let res = h.client.try_release(&h.arbiter, &id, &5_000);
    assert_eq!(res, Err(Error::EscrowExpired));
    assert_eq!(h.client.state(&id), EscrowState::Funded);
    assert_eq!(balance(&h, &h.asset_a, &h.env.contract), 5_000);
}

#[test]
fn refund_returns_funds_after_deadline() {
    let h = setup(5_000, 2_000);
    let id = create(&h, &two_assets(&h, 5_000, 2_000), START + 100, 0);

    h.env.time.set(START + 200);
    h.client.refund(&h.sender, &id);
    assert_eq!(h.client.state(&id), EscrowState::Refunded);
    assert_eq!(balance(&h, &h.asset_a, &h.sender), 5_000);
    assert_eq!(balance(&h, &h.asset_b, &h.sender), 2_000);
    assert_eq!(balance(&h, &h.asset_a, &h.env.contract), 0);
    assert_eq!(balance(&h, &h.asset_b, &h.env.contract), 0);
}

#[test]
fn refund_before_deadline_rejected() {
    let h = setup(5_000, 0);
    let id = create(&h, &one_asset(&h, 5_000), START + 100, 0);

    let res = h.client.try_refund(&h.sender, &id);
    assert_eq!(res, Err(Error::InvalidState));
    assert_eq!(balance(&h, &h.asset_a, &h.env.contract), 5_000);
}

#[test]
fn expire_marks_then_refund_returns() {
    let h = setup(5_000, 0);
    let id = create(&h, &one_asset(&h, 5_000), START + 100, 0);

    let early = h.client.try_expire(&id);
    assert_eq!(early, Err(Error::InvalidState));

    h.env.time.set(START + 200);
    h.client.expire(&id);
    assert_eq!(h.client.state(&id), EscrowState::Expired);
    assert_eq!(balance(&h, &h.asset_a, &h.env.contract), 5_000);
    assert_eq!(balance(&h, &h.asset_a, &h.sender), 0);

    h.client.refund(&h.sender, &id);
    assert_eq!(h.client.state(&id), EscrowState::Refunded);
    assert_eq!(balance(&h, &h.asset_a, &h.sender), 5_000);
    assert_eq!(balance(&h, &h.asset_a, &h.env.contract), 0);
}

#[test]
fn released_escrow_cannot_be_refunded() {
    let h = setup(5_000, 0);
    let id = create(&h, &one_asset(&h, 5_000), START + 100, 0);
    h.client.release(&h.arbiter, &id, &5_000);

    h.env.time.set(START + 200);
    let res = h.client.try_refund(&h.sender, &id);
    assert_eq!(res, Err(Error::InvalidState));
    assert_eq!(balance(&h, &h.asset_a, &h.recipient), 5_000);
    assert_eq!(balance(&h, &h.asset_a, &h.env.contract), 0);
}

#[test]
fn cannot_close_while_expired() {
    let h = setup(5_000, 0);
    let id = create(&h, &one_asset(&h, 5_000), START + 100, 0);
    h.env.time.set(START + 200);
    h.client.expire(&id);

    let res = h.client.try_close(&h.sender, &id);
    assert_eq!(res, Err(Error::InvalidState));
    assert_eq!(balance(&h, &h.asset_a, &h.env.contract), 5_000);
}

#[test]
fn cancel_after_deadline_claws_back_to_depositor() {
    let h = setup(5_000, 0);
    let id = create(&h, &one_asset(&h, 5_000), START + 100, 0);

    // Premature cancellation is refused with the dedicated error.
    let early = h.client.try_cancel(&h.sender, &id);
    assert_eq!(early, Err(Error::InvalidCondition));
    assert_eq!(h.client.state(&id), EscrowState::Funded);

    // After the deadline the depositor claws the locked funds back.
    h.env.time.set(START + 200);
    h.client.cancel(&h.sender, &id);
    assert_eq!(h.client.state(&id), EscrowState::Cancelled);
    assert_eq!(balance(&h, &h.asset_a, &h.sender), 5_000);
    assert_eq!(balance(&h, &h.asset_a, &h.env.contract), 0);

    // The cancelled escrow can be closed, and cannot be refunded again.
    h.client.close(&h.sender, &id);
    assert_eq!(h.client.state(&id), EscrowState::Closed);
}

#[test]
fn cancel_after_release_is_refused_already_settled() {
    let h = setup(5_000, 0);
    let id = create(&h, &one_asset(&h, 5_000), START + 100, 0);
    h.client.release(&h.arbiter, &id, &5_000);

    h.env.time.set(START + 200);
    let res = h.client.try_cancel(&h.sender, &id);
    assert_eq!(res, Err(Error::InvalidCondition));
    // The recipient keeps the released funds; nothing was clawed back.
    assert_eq!(balance(&h, &h.asset_a, &h.recipient), 5_000);
    assert_eq!(balance(&h, &h.asset_a, &h.env.contract), 0);
}

#[test]
fn only_depositor_can_cancel() {
    let h = setup(5_000, 0);
    let id = create(&h, &one_asset(&h, 5_000), START + 100, 0);
    h.env.time.set(START + 200);

    let intruder = h.env.generate();
    let res = h.client.try_cancel(&intruder, &id);
    assert_eq!(res, Err(Error::Unauthorized));
    assert_eq!(balance(&h, &h.asset_a, &h.env.contract), 5_000);
}

#[test]
fn cancel_on_expired_escrow_returns_funds() {
    let h = setup(5_000, 0);
    let id = create(&h, &one_asset(&h, 5_000), START + 100, 0);
    h.env.time.set(START + 200);
    h.client.expire(&id);
    assert_eq!(h.client.state(&id), EscrowState::Expired);

    h.client.cancel(&h.sender, &id);
    assert_eq!(h.client.state(&id), EscrowState::Cancelled);
    assert_eq!(balance(&h, &h.asset_a, &h.sender), 5_000);
    assert_eq!(balance(&h, &h.asset_a, &h.env.contract), 0);
}

#[test]
fn create_rejects_bad_input() {
    let h = setup(5_000, 0);
    let r1 = h.client.try_create(
        &h.sender,
        &h.sender,
        &h.arbiter,
        &one_asset(&h, 1_000),
        &(START + 100),
        &0,
        &text("x"),
        &Vec::new(),
        &0,
    );
    assert_eq!(r1, Err(Error::InvalidInput));
    let r2 = h.client.try_create(
        &h.sender,
        &h.recipient,
        &h.arbiter,
        &one_asset(&h, 1_000),
        &(START - 500),
        &0,
        &text("x"),
        &Vec::new(),
        &0,
    );
    assert_eq!(r2, Err(Error::InvalidInput));
    let r3 = h.client.try_create(
        &h.sender,
        &h.recipient,
        &h.arbiter,
        &one_asset(&h, 0),
        &(START + 100),
        &0,
        &text("x"),
        &Vec::new(),
        &0,
    );
    assert_eq!(r3, Err(Error::InvalidAmount));
    let r4 = h.client.try_create(
        &h.sender,
        &h.recipient,
        &h.arbiter,
        &Vec::new(),
        &(START + 100),
        &0,
        &text("x"),
        &Vec::new(),
        &0,
    );
    assert_eq!(r4, Err(Error::InvalidInput));
    let dup = vec![AssetAmount {
            asset: h.asset_a.clone(),
            amount: 1_000,
        },
        AssetAmount {
            asset: h.asset_a.clone(),
            amount: 500,
        },
    ];
    let r5 = h.client.try_create(
        &h.sender,
        &h.recipient,
        &h.arbiter,
        &dup,
        &(START + 100),
        &0,
        &text("x"),
        &Vec::new(),
        &0,
    );
    assert_eq!(r5, Err(Error::InvalidInput));
    assert_eq!(balance(&h, &h.asset_a, &h.sender), 5_000);
}

#[test]
fn create_rejects_bad_override_config() {
    let h = setup(5_000, 0);
    let signer = public_key(&keypair(1));
    let signers = vec![signer];

    let r1 = h.client.try_create(
        &h.sender,
        &h.recipient,
        &h.arbiter,
        &one_asset(&h, 1_000),
        &(START + 100),
        &0,
        &text("x"),
        &signers,
        &0,
    );
    assert_eq!(r1, Err(Error::InvalidThreshold));

    let r2 = h.client.try_create(
        &h.sender,
        &h.recipient,
        &h.arbiter,
        &one_asset(&h, 1_000),
        &(START + 100),
        &0,
        &text("x"),
        &signers,
        &2,
    );
    assert_eq!(r2, Err(Error::InvalidThreshold));

    let r3 = h.client.try_create(
        &h.sender,
        &h.recipient,
        &h.arbiter,
        &one_asset(&h, 1_000),
        &(START + 100),
        &0,
        &text("x"),
        &Vec::new(),
        &1,
    );
    assert_eq!(r3, Err(Error::InvalidThreshold));
}

// --- Override release tests ---

#[test]
fn override_release_with_threshold_signatures_releases_funds() {
    let h = setup(5_000, 1_000);
    let kp1 = keypair(1);
    let kp2 = keypair(2);
    let signers = vec![public_key(&kp1), public_key(&kp2)];

    let id = h.client.create(
        &h.sender,
        &h.recipient,
        &h.arbiter,
        &two_assets(&h, 5_000, 1_000),
        &(START + 1_000),
        &0,
        &text("override"),
        &signers,
        &2,
    );

    let nonce = 1u64;
    let sig1 = sign_override(&h, &kp1, id, nonce);
    let sig2 = sign_override(&h, &kp2, id, nonce);
    let sigs = vec![sig1, sig2];

    h.client.override_release(&id, &nonce, &sigs);

    assert_eq!(h.client.state(&id), EscrowState::Released);
    assert_eq!(balance(&h, &h.asset_a, &h.recipient), 5_000);
    assert_eq!(balance(&h, &h.asset_b, &h.recipient), 1_000);
    assert_eq!(balance(&h, &h.asset_a, &h.env.contract), 0);
}

#[test]
fn override_release_rejects_replayed_nonce() {
    let h = setup(5_000, 0);
    let kp1 = keypair(1);
    let signers = vec![public_key(&kp1)];

    let id = h.client.create(
        &h.sender,
        &h.recipient,
        &h.arbiter,
        &one_asset(&h, 5_000),
        &(START + 1_000),
        &0,
        &text("override"),
        &signers,
        &1,
    );

    let nonce = 1u64;
    let sig = sign_override(&h, &kp1, id, nonce);
    h.client
        .override_release(&id, &nonce, &vec![sig]);
    assert_eq!(h.client.state(&id), EscrowState::Released);

    let res = h
        .client
        .try_override_release(&id, &nonce, &vec![sig]);
    assert_eq!(res, Err(Error::InvalidState));
}

#[test]
fn override_release_requires_strictly_increasing_nonce() {
    let h = setup(5_000, 0);
    let kp1 = keypair(1);
    let kp2 = keypair(2);
    let signers = vec![public_key(&kp1), public_key(&kp2)];

    let id = h.client.create(
        &h.sender,
        &h.recipient,
        &h.arbiter,
        &one_asset(&h, 5_000),
        &(START + 1_000),
        &0,
        &text("override"),
        &signers,
        &2,
    );

    let sig1 = sign_override(&h, &kp1, id, 0);
    let sig2 = sign_override(&h, &kp2, id, 0);
    let res = h
        .client
        .try_override_release(&id, &0, &vec![sig1, sig2]);
    assert_eq!(res, Err(Error::InvalidNonce));
}

#[test]
fn override_release_rejects_insufficient_signatures() {
    let h = setup(5_000, 0);
    let kp1 = keypair(1);
    let kp2 = keypair(2);
    let signers = vec![public_key(&kp1), public_key(&kp2)];

    let id = h.client.create(
        &h.sender,
        &h.recipient,
        &h.arbiter,
        &one_asset(&h, 5_000),
        &(START + 1_000),
        &0,
        &text("override"),
        &signers,
        &2,
    );

    let sig1 = sign_override(&h, &kp1, id, 1);
    let res = h
        .client
        .try_override_release(&id, &1, &vec![sig1]);
    assert_eq!(res, Err(Error::ThresholdNotMet));
    assert_eq!(h.client.state(&id), EscrowState::Funded);
}

#[test]
fn override_release_rejects_unknown_signer() {
    let h = setup(5_000, 0);
    let kp1 = keypair(1);
    let outsider = keypair(99);
    let signers = vec![public_key(&kp1)];

    let id = h.client.create(
        &h.sender,
        &h.recipient,
        &h.arbiter,
        &one_asset(&h, 5_000),
        &(START + 1_000),
        &0,
        &text("override"),
        &signers,
        &1,
    );

    let bad_sig = sign_override(&h, &outsider, id, 1);
    let res = h
        .client
        .try_override_release(&id, &1, &vec![bad_sig]);
    assert_eq!(res, Err(Error::NotASigner));
}

#[test]
fn override_release_rejects_duplicate_signer_in_one_call() {
    let h = setup(5_000, 0);
    let kp1 = keypair(1);
    let kp2 = keypair(2);
    let signers = vec![public_key(&kp1), public_key(&kp2)];

    let id = h.client.create(
        &h.sender,
        &h.recipient,
        &h.arbiter,
        &one_asset(&h, 5_000),
        &(START + 1_000),
        &0,
        &text("override"),
        &signers,
        &2,
    );

    let sig1 = sign_override(&h, &kp1, id, 1);
    let res = h
        .client
        .try_override_release(&id, &1, &vec![sig1, sig1]);
    assert_eq!(res, Err(Error::AlreadySigned));
}

#[test]
fn override_release_disabled_without_configured_signers() {
    let h = setup(5_000, 0);
    let id = create(&h, &one_asset(&h, 5_000), START + 1_000, 0);

    let kp1 = keypair(1);
    let sig1 = sign_override(&h, &kp1, id, 1);
    let res = h
        .client
        .try_override_release(&id, &1, &vec![sig1]);
    assert_eq!(res, Err(Error::Unauthorized));
}

// --- Milestone tests ---

#[test]
fn milestone_partial_then_full_release() {
    let h = setup(10_000, 0);
    let specs = vec![milestone_spec("design", 4_000),
        milestone_spec("build", 6_000),
    ];
    let id = h.client.deposit_with_milestones(
        &h.sender,
        &h.recipient,
        &h.arbiter,
        &h.asset_a,
        &10_000,
        &(START + 86_400),
        &text("project"),
        &specs,
    );
    assert_eq!(h.client.state(&id), EscrowState::Funded);
    assert_eq!(balance(&h, &h.asset_a, &h.env.contract), 10_000);

    h.client.release_milestone(&h.arbiter, &id, &0);
    {
        let contract = h.client.contract.borrow();
        let set = contract.milestones(id).unwrap();
        assert!(set.milestones[0].released);
        assert_eq!(set.released_amount, 4_000);
    }
    assert_eq!(balance(&h, &h.asset_a, &h.recipient), 4_000);
    assert_eq!(h.client.state(&id), EscrowState::Funded);

    h.client.release_milestone(&h.arbiter, &id, &1);
    assert_eq!(balance(&h, &h.asset_a, &h.recipient), 10_000);
    assert_eq!(balance(&h, &h.asset_a, &h.env.contract), 0);
    assert_eq!(h.client.state(&id), EscrowState::Released);

    h.client.close(&h.arbiter, &id);
    assert_eq!(h.client.state(&id), EscrowState::Closed);
}

#[test]
fn milestone_unauthorized_approval_rejected() {
    let h = setup(10_000, 0);
    let specs = vec![milestone_spec("m", 10_000)];
    let id = h.client.deposit_with_milestones(
        &h.sender,
        &h.recipient,
        &h.arbiter,
        &h.asset_a,
        &10_000,
        &(START + 86_400),
        &text("p"),
        &specs,
    );
    let res = h.client.try_release_milestone(&h.sender, &id, &0);
    assert_eq!(res, Err(Error::Unauthorized));
    assert_eq!(balance(&h, &h.asset_a, &h.recipient), 0);
    assert_eq!(balance(&h, &h.asset_a, &h.env.contract), 10_000);
}

#[test]
fn milestone_double_release_rejected() {
    let h = setup(10_000, 0);
    let specs = vec![milestone_spec("m", 10_000)];
    let id = h.client.deposit_with_milestones(
        &h.sender,
        &h.recipient,
        &h.arbiter,
        &h.asset_a,
        &10_000,
        &(START + 86_400),
        &text("p"),
        &specs,
    );
    h.client.release_milestone(&h.arbiter, &id, &0);
    let res = h.client.try_release_milestone(&h.arbiter, &id, &0);
    assert_eq!(res, Err(Error::InvalidState));
    assert_eq!(balance(&h, &h.asset_a, &h.recipient), 10_000);
}

#[test]
fn milestone_bps_must_total_100() {
    let h = setup(10_000, 0);
    let specs = vec![milestone_spec("a", 4_000),
        milestone_spec("b", 5_000),
    ];
    let res = h.client.try_deposit_with_milestones(
        &h.sender,
        &h.recipient,
        &h.arbiter,
        &h.asset_a,
        &10_000,
        &(START + 86_400),
        &text("p"),
        &specs,
    );
    assert_eq!(res, Err(Error::InvalidInput));
    assert_eq!(balance(&h, &h.asset_a, &h.sender), 10_000);
}

#[test]
fn plain_release_blocked_on_milestone_escrow() {
    let h = setup(10_000, 0);
    let specs = vec![milestone_spec("m", 10_000)];
    let id = h.client.deposit_with_milestones(
        &h.sender,
        &h.recipient,
        &h.arbiter,
        &h.asset_a,
        &10_000,
        &(START + 86_400),
        &text("p"),
        &specs,
    );
    let res = h.client.try_release(&h.arbiter, &id, &10_000);
    assert_eq!(res, Err(Error::InvalidState));
    assert_eq!(balance(&h, &h.asset_a, &h.recipient), 0);
}

#[test]
fn timelock_cliff_rejects_early_withdraw_and_claims_post_maturity() {
    let h = setup(10_000, 0);
    let unlock_time = START + 1_000;

    let id = h.client.create_timelock(
        &h.sender,
        &h.recipient,
        &h.arbiter,
        &one_asset(&h, 10_000),
        &unlock_time,
        &text("timelock cliff"),
    );
    assert_eq!(id, 1);
    assert_eq!(balance(&h, &h.asset_a, &h.sender), 0);
    assert_eq!(balance(&h, &h.asset_a, &h.env.contract), 10_000);

    // Pre-maturity check: withdrawal and claim must fail with TimeLockActive
    h.env.time.set(START + 500);
    assert_eq!(h.client.get_claimable_amount(&id), 0);
    assert_eq!(h.client.get_vested_amount(&id), 0);

    let early_claim = h.client.try_claim(&h.recipient, &id);
    assert_eq!(early_claim, Err(Error::TimeLockActive));

    let early_withdraw = h.client.try_withdraw(&h.recipient, &id, &5_000);
    assert_eq!(early_withdraw, Err(Error::TimeLockActive));

    // Post-maturity check: claim succeeds
    h.env.time.set(unlock_time);
    assert_eq!(h.client.get_claimable_amount(&id), 10_000);
    assert_eq!(h.client.get_vested_amount(&id), 10_000);

    let claimed = h.client.claim(&h.recipient, &id);
    assert_eq!(claimed, 10_000);
    assert_eq!(balance(&h, &h.asset_a, &h.recipient), 10_000);
    assert_eq!(balance(&h, &h.asset_a, &h.env.contract), 0);
    assert_eq!(h.client.state(&id), EscrowState::Released);
    assert_eq!(h.client.get_claimable_amount(&id), 0);
}

#[test]
fn timelock_linear_release_gradual_withdrawals() {
    let h = setup(10_000, 0);
    let start_time = START;
    let cliff_time = START + 200;
    let end_time = START + 1_000;

    let schedule = ReleaseSchedule {
        release_type: ReleaseType::Linear,
        start_time,
        cliff_time,
        end_time,
    };

    let id = h.client.create_scheduled(
        &h.sender,
        &h.recipient,
        &h.arbiter,
        &one_asset(&h, 10_000),
        &schedule,
        &end_time,
        &text("linear schedule"),
    );

    // 1. Before cliff (timestamp = START + 100): locked
    h.env.time.set(START + 100);
    assert_eq!(h.client.get_claimable_amount(&id), 0);
    assert_eq!(h.client.get_vested_amount(&id), 0);
    let res = h.client.try_withdraw(&h.recipient, &id, &1_000);
    assert_eq!(res, Err(Error::TimeLockActive));

    // 2. At 50% time (timestamp = START + 500, past cliff):
    // 50% of 10,000 = 5,000 vested.
    h.env.time.set(START + 500);
    assert_eq!(h.client.get_vested_amount(&id), 5_000);
    assert_eq!(h.client.get_claimable_amount(&id), 5_000);

    // Partial withdrawal of 3,000
    let total_released = h.client.withdraw(&h.recipient, &id, &3_000);
    assert_eq!(total_released, 3_000);
    assert_eq!(balance(&h, &h.asset_a, &h.recipient), 3_000);
    assert_eq!(balance(&h, &h.asset_a, &h.env.contract), 7_000);
    assert_eq!(h.client.get_claimable_amount(&id), 2_000);

    // Attempt to withdraw more than currently claimable (3,000 > 2,000)
    let over_withdraw = h.client.try_withdraw(&h.recipient, &id, &3_000);
    assert_eq!(over_withdraw, Err(Error::InsufficientFunds));

    // 3. At 80% time (timestamp = START + 800):
    // 80% of 10,000 = 8,000 vested; already released 3,000 => claimable = 5,000.
    h.env.time.set(START + 800);
    assert_eq!(h.client.get_vested_amount(&id), 8_000);
    assert_eq!(h.client.get_claimable_amount(&id), 5_000);

    let next_released = h.client.withdraw(&h.recipient, &id, &5_000);
    assert_eq!(next_released, 8_000);
    assert_eq!(balance(&h, &h.asset_a, &h.recipient), 8_000);
    assert_eq!(h.client.get_claimable_amount(&id), 0);

    // 4. At 100% maturity (timestamp = START + 1_000):
    // Total vested = 10,000; claimable = 2,000.
    h.env.time.set(START + 1_000);
    assert_eq!(h.client.get_vested_amount(&id), 10_000);
    assert_eq!(h.client.get_claimable_amount(&id), 2_000);

    let claimed = h.client.claim(&h.recipient, &id);
    assert_eq!(claimed, 2_000);
    assert_eq!(balance(&h, &h.asset_a, &h.recipient), 10_000);
    assert_eq!(balance(&h, &h.asset_a, &h.env.contract), 0);
    assert_eq!(h.client.state(&id), EscrowState::Released);
    assert_eq!(h.client.get_claimable_amount(&id), 0);
}

#[test]
fn scheduled_escrow_rejects_bad_schedule_inputs() {
    let h = setup(10_000, 0);

    // start_time > cliff_time
    let s1 = ReleaseSchedule {
        release_type: ReleaseType::Linear,
        start_time: START + 500,
        cliff_time: START + 200,
        end_time: START + 1_000,
    };
    let r1 = h.client.try_create_scheduled(
        &h.sender,
        &h.recipient,
        &h.arbiter,
        &one_asset(&h, 1_000),
        &s1,
        &(START + 1_000),
        &text("bad schedule"),
    );
    assert_eq!(r1, Err(Error::InvalidInput));

    // cliff_time > end_time
    let s2 = ReleaseSchedule {
        release_type: ReleaseType::Linear,
        start_time: START,
        cliff_time: START + 1_200,
        end_time: START + 1_000,
    };
    let r2 = h.client.try_create_scheduled(
        &h.sender,
        &h.recipient,
        &h.arbiter,
        &one_asset(&h, 1_000),
        &s2,
        &(START + 1_000),
        &text("bad schedule"),
    );
    assert_eq!(r2, Err(Error::InvalidInput));

    // end_time <= start_time
    let s3 = ReleaseSchedule {
        release_type: ReleaseType::Linear,
        start_time: START + 500,
        cliff_time: START + 500,
        end_time: START + 500,
    };
    let r3 = h.client.try_create_scheduled(
        &h.sender,
        &h.recipient,
        &h.arbiter,
        &one_asset(&h, 1_000),
        &s3,
        &(START + 500),
        &text("bad schedule"),
    );
    assert_eq!(r3, Err(Error::InvalidInput));

    // deadline < end_time
    let s4 = ReleaseSchedule {
        release_type: ReleaseType::Linear,
        start_time: START,
        cliff_time: START + 100,
        end_time: START + 1_000,
    };
    let r4 = h.client.try_create_scheduled(
        &h.sender,
        &h.recipient,
        &h.arbiter,
        &one_asset(&h, 1_000),
        &s4,
        &(START + 500),
        &text("bad schedule"),
    );
    assert_eq!(r4, Err(Error::InvalidInput));
}

#[test]
fn timelock_unauthorized_claim_and_withdraw() {
    let h = setup(5_000, 0);
    let id = h.client.create_timelock(
        &h.sender,
        &h.recipient,
        &h.arbiter,
        &one_asset(&h, 5_000),
        &(START + 500),
        &text("timelock"),
    );

    let intruder = h.env.generate();
    h.env.time.set(START + 600);

    let r1 = h.client.try_withdraw(&intruder, &id, &1_000);
    assert_eq!(r1, Err(Error::Unauthorized));

    let r2 = h.client.try_claim(&intruder, &id);
    assert_eq!(r2, Err(Error::Unauthorized));
}

#[test]
fn timelock_refund_rules() {
    let h = setup(5_000, 0);
    let id = h.client.create_timelock(
        &h.sender,
        &h.recipient,
        &h.arbiter,
        &one_asset(&h, 5_000),
        &(START + 500),
        &text("timelock"),
    );

    // Pre-deadline refund attempt fails
    h.env.time.set(START + 200);
    let early = h.client.try_refund_timelock(&h.sender, &id);
    assert_eq!(early, Err(Error::TimeLockActive));

    // Non-sender cannot refund
    let intruder = h.env.generate();
    let unauth = h.client.try_refund_timelock(&intruder, &id);
    assert_eq!(unauth, Err(Error::Unauthorized));

    // Post-deadline refund succeeds
    h.env.time.set(START + 600);
    h.client.refund_timelock(&h.sender, &id);
    assert_eq!(h.client.state(&id), EscrowState::Refunded);
    assert_eq!(balance(&h, &h.asset_a, &h.sender), 5_000);
    assert_eq!(balance(&h, &h.asset_a, &h.env.contract), 0);
}

#[test]
fn initialize_and_fund_timelock_lifecycle() {
    let h = setup(5_000, 0);
    let id = h.client.initialize_timelock(
        &h.sender,
        &h.recipient,
        &h.arbiter,
        &one_asset(&h, 5_000),
        &(START + 500),
        &0,
        &text("unfunded"),
    );
    assert_eq!(h.client.state(&id), EscrowState::Created);
    assert_eq!(balance(&h, &h.asset_a, &h.sender), 5_000);
    assert_eq!(balance(&h, &h.asset_a, &h.env.contract), 0);

    // Intruder cannot fund
    let intruder = h.env.generate();
    let unauth_fund = h.client.try_fund(&intruder, &id);
    assert_eq!(unauth_fund, Err(Error::Unauthorized));

    // Sender funds
    h.client.fund(&h.sender, &id);
    assert_eq!(h.client.state(&id), EscrowState::Funded);
    assert_eq!(balance(&h, &h.asset_a, &h.sender), 0);
    assert_eq!(balance(&h, &h.asset_a, &h.env.contract), 5_000);

    // Pre-maturity claim fails
    h.env.time.set(START + 200);
    let early = h.client.try_claim(&h.recipient, &id);
    assert_eq!(early, Err(Error::TimeLockActive));

    // Post-maturity claim succeeds
    h.env.time.set(START + 600);
    let claimed = h.client.claim(&h.recipient, &id);
    assert_eq!(claimed, 5_000);
    assert_eq!(balance(&h, &h.asset_a, &h.recipient), 5_000);
    assert_eq!(h.client.state(&id), EscrowState::Released);
}

// --- Grace period & cancellation ---

#[test]
fn release_after_grace_is_refused() {
    let h = setup(5_000, 0);
    let id = create(&h, &one_asset(&h, 5_000), START + 100, GRACE);

    h.env.time.set(START + 200 + GRACE);
    let res = h.client.try_release(&h.arbiter, &id, &5_000);
    assert_eq!(res, Err(Error::EscrowExpired));
    assert_eq!(h.client.state(&id), EscrowState::Funded);
    assert_eq!(balance(&h, &h.asset_a, &h.env.contract), 5_000);
}

#[test]
fn release_allowed_during_grace() {
    let h = setup(5_000, 0);
    let id = create(&h, &one_asset(&h, 5_000), START + 100, GRACE);

    h.env.time.set(START + 150);
    h.client.release(&h.arbiter, &id, &5_000);
    assert_eq!(h.client.state(&id), EscrowState::Released);
    assert_eq!(balance(&h, &h.asset_a, &h.recipient), 5_000);
}

#[test]
fn refund_returns_funds_after_grace() {
    let h = setup(5_000, 0);
    let id = create(&h, &one_asset(&h, 5_000), START + 100, GRACE);

    h.env.time.set(START + 150);
    let early = h.client.try_refund(&h.sender, &id);
    assert_eq!(early, Err(Error::GraceActive));
    assert_eq!(balance(&h, &h.asset_a, &h.env.contract), 5_000);

    h.env.time.set(START + 200 + GRACE);
    h.client.refund(&h.sender, &id);
    assert_eq!(h.client.state(&id), EscrowState::Refunded);
    assert_eq!(balance(&h, &h.asset_a, &h.sender), 5_000);
    assert_eq!(balance(&h, &h.asset_a, &h.env.contract), 0);
}

#[test]
fn cancel_by_sender_before_deadline_returns_funds() {
    let h = setup(5_000, 0);
    let id = create(&h, &one_asset(&h, 5_000), START + 100, GRACE);

    h.client.cancel(&h.sender, &id);
    assert_eq!(h.client.state(&id), EscrowState::Refunded);
    assert_eq!(balance(&h, &h.asset_a, &h.sender), 5_000);
    assert_eq!(balance(&h, &h.asset_a, &h.env.contract), 0);
}

#[test]
fn arbiter_may_also_cancel_before_deadline() {
    let h = setup(5_000, 0);
    let id = create(&h, &one_asset(&h, 5_000), START + 100, GRACE);

    h.client.cancel(&h.arbiter, &id);
    assert_eq!(h.client.state(&id), EscrowState::Refunded);
    assert_eq!(balance(&h, &h.asset_a, &h.sender), 5_000);
}

#[test]
fn cancel_rejected_after_deadline() {
    let h = setup(5_000, 0);
    let id = create(&h, &one_asset(&h, 5_000), START + 100, GRACE);

    h.env.time.set(START + 150);
    let res = h.client.try_cancel(&h.sender, &id);
    assert_eq!(res, Err(Error::InvalidState));
    assert_eq!(balance(&h, &h.asset_a, &h.env.contract), 5_000);
}

#[test]
fn cancel_rejected_for_non_party() {
    let h = setup(5_000, 0);
    let id = create(&h, &one_asset(&h, 5_000), START + 100, GRACE);
    let intruder = h.env.generate();

    let res = h.client.try_cancel(&intruder, &id);
    assert_eq!(res, Err(Error::Unauthorized));
    assert_eq!(balance(&h, &h.asset_a, &h.env.contract), 5_000);
}

#[test]
fn reclaim_after_grace_returns_funds() {
    let h = setup(5_000, 0);
    let id = create(&h, &one_asset(&h, 5_000), START + 100, GRACE);

    h.env.time.set(START + 150);
    let early = h.client.try_reclaim(&h.sender, &id);
    assert_eq!(early, Err(Error::GraceActive));
    assert_eq!(balance(&h, &h.asset_a, &h.env.contract), 5_000);

    h.env.time.set(START + 200 + GRACE);
    h.client.reclaim(&h.sender, &id);
    assert_eq!(h.client.state(&id), EscrowState::Refunded);
    assert_eq!(balance(&h, &h.asset_a, &h.sender), 5_000);
    assert_eq!(balance(&h, &h.asset_a, &h.env.contract), 0);
}

#[test]
fn reclaim_rejected_for_non_sender() {
    let h = setup(5_000, 0);
    let id = create(&h, &one_asset(&h, 5_000), START + 100, GRACE);

    h.env.time.set(START + 200 + GRACE);
    let res = h.client.try_reclaim(&h.recipient, &id);
    assert_eq!(res, Err(Error::Unauthorized));
    assert_eq!(balance(&h, &h.asset_a, &h.env.contract), 5_000);
}

#[test]
fn reclaim_rejected_after_release() {
    let h = setup(5_000, 0);
    let id = create(&h, &one_asset(&h, 5_000), START + 100, GRACE);

    h.client.release(&h.arbiter, &id, &5_000);
    let res = h.client.try_reclaim(&h.sender, &id);
    assert_eq!(res, Err(Error::InvalidState));
    assert_eq!(balance(&h, &h.asset_a, &h.recipient), 5_000);
}

// --- Encoding and digest ---

#[test]
fn payload_matches_the_sdk_encoding() {
    let sdk = sdk_env();
    for kind in [AddressKind::Contract, AddressKind::Account] {
        let mut host = Host::new();
        let theirs = match kind {
            AddressKind::Contract => soroban_sdk::Address::generate(&sdk),
            AddressKind::Account => soroban_sdk::Address::try_from_val(
                &sdk,
                &ScAddress::Account(AccountId(PublicKey::PublicKeyTypeEd25519(Uint256([9; 32])))),
            )
            .unwrap(),
        };
        let key = match ScAddress::from(&theirs) {
            ScAddress::Contract(id) => id.0 .0,
            _ => [9; 32],
        };
        Rc::get_mut(&mut host).unwrap().contract = Address {
            kind,
            key: bytes32(&key),
        };
        let mut expected: Vec<u8> = theirs.to_xdr(&sdk).iter().collect();
        expected.extend(to_array(&Bytes32 { hi: 1, lo: 2 }));
        expected.extend(3u64.to_be_bytes());
        expected.extend(4u64.to_be_bytes());
        assert_eq!(
            EscrowContract::override_payload(&host.begin(), 3, 4),
            expected
        );
    }
}

#[test]
fn digest_is_the_sha256_of_the_payload() {
    let host = Host::new();
    let sdk = sdk_env();
    // Contract address 0..07 0..07, network 0..01 0..02, escrow 1, nonce 1.
    let digest = EscrowContract::override_digest(&sdk, &host.begin(), 1, 1);
    let payload = EscrowContract::override_payload(&host.begin(), 1, 1);
    assert_eq!(payload.len(), 88);
    assert_eq!(
        to_array(&digest),
        sdk.crypto()
            .sha256(&Bytes::from_slice(&sdk, &payload))
            .to_array()
    );
    let hex: String = to_array(&digest)
        .iter()
        .map(|b| format!("{:02x}", b))
        .collect();
    assert_eq!(
        hex,
        "01cfb45c9470694fe4d0a24df2b623f38a8f8cf3417594bcd568cf23c530f87c"
    );
    assert_ne!(
        digest,
        EscrowContract::override_digest(&sdk, &host.begin(), 1, 2)
    );
}

#[test]
fn signature_for_another_nonce_does_not_verify() {
    let h = setup(5_000, 0);
    let kp = keypair(1);
    let id = h.client.create(
        &h.sender,
        &h.recipient,
        &h.arbiter,
        &one_asset(&h, 5_000),
        &(START + 1_000),
        &0,
        &text("override"),
        &vec![public_key(&kp)],
        &1,
    );
    let sig = sign_override(&h, &kp, id, 2);
    let mut env = h.env.begin();
    let r = h.client.contract.borrow_mut().override_release(
        &h.client.sdk,
        &mut env,
        id,
        1,
        &vec![sig],
    );
    assert_eq!(r, Ok(()));
    match &env.log[0] {
        Effect::VerifySignature {
            public_key: key,
            message,
            signature,
        } => {
            assert_eq!(*key, public_key(&kp));
            let mut bytes = to_array(&signature.r).to_vec();
            bytes.extend(to_array(&signature.s));
            let signature = Signature::from_bytes(&bytes.try_into().unwrap());
            assert!(kp.verify(&to_array(message), &signature).is_err());
        }
        other => panic!("unexpected effect {:?}", other),
    }
}

#[test]
fn override_over_a_digest_asks_for_each_verification() {
    let h = setup(5_000, 0);
    let kp = keypair(1);
    let id = h.client.create(
        &h.sender,
        &h.recipient,
        &h.arbiter,
        &one_asset(&h, 5_000),
        &(START + 1_000),
        &0,
        &text("override"),
        &vec![public_key(&kp)],
        &1,
    );
    let sig = sign_override(&h, &kp, id, 1);
    let digest = Bytes32 { hi: 5, lo: 6 };
    let mut env = h.env.begin();
    let r = h
        .client
        .contract
        .borrow_mut()
        .override_release_over(&mut env, id, 1, digest, &vec![sig]);
    assert_eq!(r, Ok(()));
    assert!(matches!(
        env.log[0],
        Effect::VerifySignature { message, signature, .. }
            if message == digest && signature == sig.signature
    ));
    assert_eq!(
        h.client.contract.borrow().get(id).unwrap().override_nonce,
        1
    );
}

#[test]
fn override_after_the_deadline_is_refused() {
    let h = setup(5_000, 0);
    let kp = keypair(1);
    let id = h.client.create(
        &h.sender,
        &h.recipient,
        &h.arbiter,
        &one_asset(&h, 5_000),
        &(START + 100),
        &GRACE,
        &text("override"),
        &vec![public_key(&kp)],
        &1,
    );
    let sig = sign_override(&h, &kp, id, 1);
    h.env.time.set(START + 100);
    assert_eq!(
        h.client.try_override_release(&id, &1, &vec![sig]),
        Err(Error::EscrowExpired)
    );
    assert_eq!(
        h.client.try_override_release(&9, &1, &vec![sig]),
        Err(Error::NotFound)
    );
}

// --- Further cases ---

#[test]
fn release_takes_the_whole_outstanding_amount() {
    let h = setup(5_000, 0);
    let id = create(&h, &one_asset(&h, 5_000), START + 100, 0);
    for amount in [0, 4_999, 5_001] {
        assert_eq!(
            h.client.try_release(&h.arbiter, &id, &amount),
            Err(Error::InvalidAmount)
        );
    }
    h.client.release(&h.arbiter, &id, &5_000);
    assert_eq!(
        h.client.try_release(&h.arbiter, &id, &5_000),
        Err(Error::InvalidState)
    );
}

#[test]
fn last_milestone_pays_what_rounding_left() {
    let h = setup(100, 0);
    let specs = vec![
        milestone_spec("a", 3_333),
        milestone_spec("b", 3_333),
        milestone_spec("c", 3_334),
    ];
    let id = h.client.deposit_with_milestones(
        &h.sender,
        &h.recipient,
        &h.arbiter,
        &h.asset_a,
        &100,
        &(START + 100),
        &text("p"),
        &specs,
    );
    h.client.release_milestone(&h.arbiter, &id, &2);
    assert_eq!(balance(&h, &h.asset_a, &h.recipient), 33);
    h.client.release_milestone(&h.arbiter, &id, &0);
    assert_eq!(balance(&h, &h.asset_a, &h.recipient), 66);
    assert_eq!(h.client.state(&id), EscrowState::Funded);
    h.client.release_milestone(&h.arbiter, &id, &1);
    assert_eq!(balance(&h, &h.asset_a, &h.recipient), 100);
    assert_eq!(h.client.state(&id), EscrowState::Released);
}

#[test]
fn refund_after_a_milestone_returns_the_rest() {
    let h = setup(1_000, 0);
    let specs = vec![milestone_spec("a", 2_500), milestone_spec("b", 7_500)];
    let id = h.client.deposit_with_milestones(
        &h.sender,
        &h.recipient,
        &h.arbiter,
        &h.asset_a,
        &1_000,
        &(START + 100),
        &text("p"),
        &specs,
    );
    h.client.release_milestone(&h.arbiter, &id, &0);
    assert_eq!(
        h.client.try_release_milestone(&h.arbiter, &id, &7),
        Err(Error::InvalidInput)
    );
    h.env.time.set(START + 100);
    h.client.refund(&h.sender, &id);
    assert_eq!(balance(&h, &h.asset_a, &h.sender), 750);
    assert_eq!(balance(&h, &h.asset_a, &h.recipient), 250);
    assert_eq!(balance(&h, &h.asset_a, &h.env.contract), 0);
}

#[test]
fn other_assets_follow_the_last_bit_of_the_first() {
    let h = setup(1_000, 70);
    let schedule = ReleaseSchedule {
        release_type: ReleaseType::Linear,
        start_time: START,
        cliff_time: START,
        end_time: START + 3,
    };
    let id = h.client.create_scheduled(
        &h.sender,
        &h.recipient,
        &h.arbiter,
        &two_assets(&h, 1_000, 70),
        &schedule,
        &(START + 3),
        &text("linear"),
    );
    h.env.time.set(START + 1);
    assert_eq!(h.client.get_vested_amount(&id), 333);
    assert_eq!(h.client.claim(&h.recipient, &id), 333);
    assert_eq!(balance(&h, &h.asset_b, &h.recipient), 0);
    h.env.time.set(START + 3);
    assert_eq!(h.client.claim(&h.recipient, &id), 667);
    assert_eq!(balance(&h, &h.asset_b, &h.recipient), 70);
    assert_eq!(
        h.client.try_claim(&h.recipient, &id),
        Err(Error::InvalidState)
    );
}

#[test]
fn contract_is_initialized_once_and_unknown_escrows_are_not_found() {
    let h = setup(0, 0);
    assert_eq!(h.client.try_initialize(), Err(Error::AlreadyInitialized));
    assert_eq!(
        h.client.try_refund(&h.sender, &1),
        Err(Error::NotFound)
    );
    assert_eq!(
        h.client
            .contract
            .borrow()
            .get_vested_amount(&h.env.begin(), 1),
        Err(Error::NotFound)
    );
}
