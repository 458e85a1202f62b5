//! # Policy contract
//!
//! Verifies that a proposed transfer complies with the active policy
//! configuration. The backend owns the human-facing policy graph; this contract
//! stores only a cryptographic hash of the active configuration and a small set
//! of scalar gates, so that on-chain verification is cheap, fast and
//! tamper-evident.
//!
//! The contract answers "may `amount` of `asset` flow to `recipient` right now?"
//! with a deterministic [`Error`] when it may not. Each refusal by a policy also
//! publishes a violation event with a stable reason.
//!
//! An admin may pause the evaluation of all policies, for a bounded time or until
//! it unpauses.
use crate::constants::MAX_PAUSE_DURATION;
use crate::errors::Error;
use crate::events::{policy_violation, publish, reason, ContractEvent, Event};
use crate::host::{CallEnv, Effect, EnvView};
use crate::table::Table;
use crate::types::{contains_address, Address, Bytes32};
use crate::validation::{check, require_non_empty};
use vstd::prelude::*;

verus! {

/// On-chain representation of a registered policy.
#[derive(Clone, Debug)]
pub struct Policy {
    /// Admin that controls this policy (typically the treasury or admin wallet).
    pub owner: Address,
    /// SHA-256 hash of the human-readable policy managed off-chain.
    pub config_hash: Bytes32,
    /// Largest amount of one transfer (0 = no limit).
    pub max_amount: i128,
    /// Allow-listed recipient (`None` = any recipient).
    pub allowed_recipient: Option<Address>,
    /// Assets the spend must be in (empty = any asset).
    pub allowed_assets: Vec<Address>,
    /// Timestamp from which spends are allowed (0 = always).
    pub window_start: u64,
    /// Timestamp from which spends are no longer allowed (0 = never).
    pub window_end: u64,
    /// Timestamp the policy is active until (0 = no expiry).
    pub expires_at: u64,
    /// Whether the policy is currently enabled.
    pub enabled: bool,
}

/// The policy contract's storage.
pub struct PolicyContract {
    pub admin: Option<Address>,
    /// While paused: when the pause ends (0 = only when unpaused).
    pub pause_until: Option<u64>,
    pub policies: Table<String, Policy>,
    /// Restricted recipients, with the policy that restricted each.
    pub blacklist: Table<Address, String>,
    /// Restricted merchants, with the policy that restricted each.
    pub merchant_blacklist: Table<Address, String>,
    /// Restricted categories, with the policy that restricted each.
    pub category_blacklist: Table<String, String>,
    /// Per-policy asset whitelists.
    pub asset_whitelist: Table<(String, Address), ()>,
    /// Whether a policy enforces its asset whitelist.
    pub asset_whitelist_enabled: Table<String, bool>,
    /// Per-policy recipient whitelists.
    pub whitelist: Table<(String, Address), ()>,
    /// Whether a policy enforces its recipient whitelist.
    pub whitelist_enabled: Table<String, bool>,
}

/// The policy contract's storage as a value.
#[verifier::ext_equal]
pub struct PolicyView {
    pub admin: Option<Address>,
    pub pause_until: Option<u64>,
    pub policies: Map<Seq<char>, Policy>,
    pub blacklist: Map<Address, String>,
    pub merchant_blacklist: Map<Address, String>,
    pub category_blacklist: Map<Seq<char>, String>,
    pub asset_whitelist: Map<(Seq<char>, Address), ()>,
    pub asset_whitelist_enabled: Map<Seq<char>, bool>,
    pub whitelist: Map<(Seq<char>, Address), ()>,
    pub whitelist_enabled: Map<Seq<char>, bool>,
}

impl View for PolicyContract {
    type V = PolicyView;

    open spec fn view(&self) -> PolicyView {
        PolicyView {
            admin: self.admin,
            pause_until: self.pause_until,
            policies: self.policies@,
            blacklist: self.blacklist@,
            merchant_blacklist: self.merchant_blacklist@,
            category_blacklist: self.category_blacklist@,
            asset_whitelist: self.asset_whitelist@,
            asset_whitelist_enabled: self.asset_whitelist_enabled@,
            whitelist: self.whitelist@,
            whitelist_enabled: self.whitelist_enabled@,
        }
    }
}

/// Whether a flag is set; a flag that was never written is not.
pub open spec fn flag(flags: Map<Seq<char>, bool>, id: Seq<char>) -> bool {
    flags.contains_key(id) && flags[id]
}

/// The environment after a violation was published.
pub open spec fn violation(e: EnvView, policy_id: String, why: &'static str) -> EnvView {
    e.emit(Event::PolicyViolation { policy_id, reason: why }).emit(
        Event::Contract(ContractEvent::PolicyViolation { policy_id, reason: why }),
    )
}

impl PolicyView {
    /// Evaluation is paused.
    pub open spec fn paused_at(self, now: u64) -> bool {
        match self.pause_until {
            None => false,
            Some(until) => until == 0 || now < until,
        }
    }

    /// What an admin-gated entry point answers.
    pub open spec fn admin_check(self, caller: Address) -> Result<(), Error> {
        match self.admin {
            None => Err(Error::NotInitialized),
            Some(a) => check(a == caller, Error::Unauthorized),
        }
    }

    /// What an entry point gated on a policy's owner answers.
    pub open spec fn owner_check(self, id: Seq<char>, caller: Address) -> Result<(), Error> {
        if !self.policies.contains_key(id) {
            Err(Error::NotFound)
        } else {
            check(self.policies[id].owner == caller, Error::Unauthorized)
        }
    }

    /// What adding to a list returns.
    pub open spec fn add_outcome(self, id: Seq<char>, caller: Address, present: bool) -> Result<
        (),
        Error,
    > {
        if self.owner_check(id, caller) is Err {
            self.owner_check(id, caller)
        } else {
            check(!present, Error::AlreadyExists)
        }
    }

    /// What removing from a list returns.
    pub open spec fn remove_outcome(self, id: Seq<char>, caller: Address, present: bool) -> Result<
        (),
        Error,
    > {
        if self.owner_check(id, caller) is Err {
            self.owner_check(id, caller)
        } else {
            check(present, Error::NotFound)
        }
    }

    /// The policy's asset whitelist admits an asset.
    pub open spec fn asset_admitted(self, id: Seq<char>, asset: Address) -> bool {
        !flag(self.asset_whitelist_enabled, id) || self.asset_whitelist.contains_key((id, asset))
    }

    /// The policy's recipient whitelist admits a recipient.
    pub open spec fn recipient_admitted(self, id: Seq<char>, recipient: Address) -> bool {
        !flag(self.whitelist_enabled, id) || self.whitelist.contains_key((id, recipient))
    }

    /// Why a policy refuses a transfer, and with which error; the first gate
    /// that refuses decides.
    pub open spec fn refusal(
        self,
        now: u64,
        id: Seq<char>,
        asset: Address,
        recipient: Address,
        amount: i128,
    ) -> Option<(Error, &'static str)> {
        let p = self.policies[id];
        if self.blacklist.contains_key(recipient) {
            Some((Error::PolicyRecipientRestricted, "blacklisted"))
        } else if self.merchant_blacklist.contains_key(recipient) {
            Some((Error::PolicyMerchantBlocked, "merchant_blocked"))
        } else if !p.enabled {
            Some((Error::PolicyDenied, "disabled"))
        } else if p.expires_at != 0 && now >= p.expires_at {
            Some((Error::PolicyDenied, "expired"))
        } else if (p.window_start != 0 && now < p.window_start) || (p.window_end != 0 && now
            >= p.window_end) {
            Some((Error::PolicyDenied, "outside_window"))
        } else if p.max_amount != 0 && amount > p.max_amount {
            Some((Error::PolicyDenied, "above_max"))
        } else if p.allowed_recipient is Some && p.allowed_recipient->0 != recipient {
            Some((Error::PolicyDenied, "bad_recipient"))
        } else if !self.recipient_admitted(id, recipient) {
            Some((Error::PolicyDenied, "not_whitelisted"))
        } else if p.allowed_assets@.len() > 0 && !p.allowed_assets@.contains(asset) {
            Some((Error::AssetNotWhitelisted, "bad_asset"))
        } else if !self.asset_admitted(id, asset) {
            Some((Error::AssetNotWhitelisted, "asset_not_whitelisted"))
        } else {
            None
        }
    }

    /// What evaluating a transfer returns.
    pub open spec fn transfer_outcome(
        self,
        now: u64,
        id: Seq<char>,
        asset: Address,
        recipient: Address,
        amount: i128,
    ) -> Result<(), Error> {
        if self.paused_at(now) {
            Err(Error::PolicyPaused)
        } else if !self.policies.contains_key(id) {
            Err(Error::NotFound)
        } else {
            match self.refusal(now, id, asset, recipient, amount) {
                Some((e, _)) => Err(e),
                None => Ok(()),
            }
        }
    }

    /// What pausing returns.
    pub open spec fn pause_outcome(self, now: u64, caller: Address, duration: u64) -> Result<
        (),
        Error,
    > {
        if self.admin_check(caller) is Err {
            self.admin_check(caller)
        } else if duration > MAX_PAUSE_DURATION {
            Err(Error::InvalidInput)
        } else {
            check(now + duration <= u64::MAX, Error::Overflow)
        }
    }

    /// The state after evaluation was paused.
    pub open spec fn paused_for(self, now: u64, duration: u64) -> PolicyView {
        PolicyView {
            pause_until: Some(
                if duration == 0 {
                    0
                } else {
                    (now + duration) as u64
                },
            ),
            ..self
        }
    }
}

fn is_set(flags: &Table<String, bool>, id: &String) -> (r: bool)
    ensures
        r == flag(flags@, id@),
{
    match flags.get(id) {
        Some(b) => *b,
        None => false,
    }
}

/// Publishes a violation with a stable reason, under both event schemas.
fn events_policy_violation(env: &mut CallEnv, policy_id: &String, why: &'static str)
    ensures
        final(env)@ == violation(old(env)@, *policy_id, why),
{
    let r = reason(why);
    policy_violation(env, policy_id, r);
    publish(env, ContractEvent::PolicyViolation { policy_id: policy_id.clone(), reason: r });
}

impl PolicyContract {
    /// A contract with empty storage.
    pub fn new() -> (r: Self)
        ensures
            r@ == (PolicyView {
                admin: None,
                pause_until: None,
                policies: Map::empty(),
                blacklist: Map::empty(),
                merchant_blacklist: Map::empty(),
                category_blacklist: Map::empty(),
                asset_whitelist: Map::empty(),
                asset_whitelist_enabled: Map::empty(),
                whitelist: Map::empty(),
                whitelist_enabled: Map::empty(),
            }),
    {
        PolicyContract {
            admin: None,
            pause_until: None,
            policies: Table::new(),
            blacklist: Table::new(),
            merchant_blacklist: Table::new(),
            category_blacklist: Table::new(),
            asset_whitelist: Table::new(),
            asset_whitelist_enabled: Table::new(),
            whitelist: Table::new(),
            whitelist_enabled: Table::new(),
        }
    }

    /// Initialize with the admin that may pause evaluation. Callable once.
    pub fn initialize(&mut self, admin: Address) -> (r: Result<(), Error>)
        ensures
            r == check(old(self)@.admin is None, Error::AlreadyInitialized),
            r is Err ==> *final(self) == *old(self),
            r is Ok ==> final(self)@ == (PolicyView { admin: Some(admin), ..old(self)@ }),
    {
        if self.admin.is_some() {
            return Err(Error::AlreadyInitialized);
        }
        self.admin = Some(admin);
        Ok(())
    }

    /// Register a policy. `owner` gates subsequent rotations. Cheap scalar gates
    /// are stored on-chain; the full configuration is hashed for
    /// tamper-evidence.
    pub fn register_policy(
        &mut self,
        env: &mut CallEnv,
        owner: Address,
        policy_id: String,
        config_hash: Bytes32,
        max_amount: i128,
        allowed_recipient: Option<Address>,
        allowed_assets: Vec<Address>,
        window_start: u64,
        window_end: u64,
        expires_at: u64,
    ) -> (r: Result<(), Error>)
        ensures
            r == (if policy_id@.len() == 0 {
                Err::<(), Error>(Error::InvalidInput)
            } else {
                check(!old(self)@.policies.contains_key(policy_id@), Error::AlreadyExists)
            }),
            r is Err ==> *final(self) == *old(self) && final(env)@ == old(env)@.auth(owner),
            r is Ok ==> final(self)@ == (PolicyView {
                policies: old(self)@.policies.insert(
                    policy_id@,
                    Policy {
                        owner,
                        config_hash,
                        max_amount,
                        allowed_recipient,
                        allowed_assets,
                        window_start,
                        window_end,
                        expires_at,
                        enabled: true,
                    },
                ),
                ..old(self)@
            }) && final(env)@ == old(env)@.auth(owner).emit(
                Event::PolicyRegistered { policy_id },
            ),
    {
        env.require_auth(owner);
        require_non_empty(&policy_id)?;
        if self.policies.has(&policy_id) {
            return Err(Error::AlreadyExists);
        }
        let policy = Policy {
            owner,
            config_hash,
            max_amount,
            allowed_recipient,
            allowed_assets,
            window_start,
            window_end,
            expires_at,
            enabled: true,
        };
        self.policies.set(policy_id.clone(), policy);
        env.publish(Event::PolicyRegistered { policy_id });
        Ok(())
    }

    fn require_policy_owner(&self, env: &mut CallEnv, policy_id: &String, caller: &Address) -> (r:
        Result<(), Error>)
        ensures
            r == self@.owner_check(policy_id@, *caller),
            final(env)@ == old(env)@.auth(*caller),
    {
        env.require_auth(*caller);
        match self.policies.get(policy_id) {
            None => Err(Error::NotFound),
            Some(p) => if p.owner != *caller {
                Err(Error::Unauthorized)
            } else {
                Ok(())
            },
        }
    }

    /// Rotate an existing policy hash, e.g. after the backend recomputes it.
    pub fn rotate_policy(
        &mut self,
        env: &mut CallEnv,
        caller: Address,
        policy_id: String,
        new_hash: Bytes32,
        new_max: i128,
    ) -> (r: Result<(), Error>)
        ensures
            r == old(self)@.owner_check(policy_id@, caller),
            r is Err ==> *final(self) == *old(self) && final(env)@ == old(env)@.auth(caller),
            r is Ok ==> final(self)@ == (PolicyView {
                policies: old(self)@.policies.insert(
                    policy_id@,
                    Policy {
                        config_hash: new_hash,
                        max_amount: new_max,
                        ..old(self)@.policies[policy_id@]
                    },
                ),
                ..old(self)@
            }) && final(env)@ == old(env)@.auth(caller).emit(Event::PolicyRotated { policy_id }),
    {
        self.require_policy_owner(env, &policy_id, &caller)?;
        let ghost before = self@;
        let mut policy = self.policies.take(&policy_id).unwrap();
        policy.config_hash = new_hash;
        policy.max_amount = new_max;
        self.policies.set(policy_id.clone(), policy);
        proof {
            assert(self@.policies =~= before.policies.insert(policy_id@, policy));
        }
        env.publish(Event::PolicyRotated { policy_id });
        Ok(())
    }

    /// Disable or enable a policy (owner only).
    pub fn set_enabled(
        &mut self,
        env: &mut CallEnv,
        caller: Address,
        policy_id: String,
        enabled: bool,
    ) -> (r: Result<(), Error>)
        ensures
            r == old(self)@.owner_check(policy_id@, caller),
            final(env)@ == old(env)@.auth(caller),
            r is Err ==> *final(self) == *old(self),
            r is Ok ==> final(self)@ == (PolicyView {
                policies: old(self)@.policies.insert(
                    policy_id@,
                    Policy { enabled, ..old(self)@.policies[policy_id@] },
                ),
                ..old(self)@
            }),
    {
        self.require_policy_owner(env, &policy_id, &caller)?;
        let ghost before = self@;
        let mut policy = self.policies.take(&policy_id).unwrap();
        policy.enabled = enabled;
        self.policies.set(policy_id.clone(), policy);
        proof {
            assert(self@.policies =~= before.policies.insert(policy_id@, policy));
        }
        Ok(())
    }

    /// Add an asset to the policy's whitelist (owner only). When the asset
    /// whitelist is enabled for a policy, only whitelisted assets are permitted
    /// in `check_transfer`.
    pub fn add_asset_to_whitelist(
        &mut self,
        env: &mut CallEnv,
        caller: Address,
        policy_id: String,
        asset: Address,
    ) -> (r: Result<(), Error>)
        ensures
            r == old(self)@.add_outcome(
                policy_id@,
                caller,
                old(self)@.asset_whitelist.contains_key((policy_id@, asset)),
            ),
            r is Err ==> *final(self) == *old(self) && final(env)@ == old(env)@.auth(caller),
            r is Ok ==> final(self)@ == (PolicyView {
                asset_whitelist: old(self)@.asset_whitelist.insert((policy_id@, asset), ()),
                ..old(self)@
            }) && final(env)@ == old(env)@.auth(caller).emit(
                Event::PolicyAssetAdded { policy_id, asset },
            ),
    {
        self.require_policy_owner(env, &policy_id, &caller)?;
        let key = (policy_id.clone(), asset);
        if self.asset_whitelist.has(&key) {
            return Err(Error::AlreadyExists);
        }
        self.asset_whitelist.set(key, ());
        env.publish(Event::PolicyAssetAdded { policy_id, asset });
        Ok(())
    }

    /// Remove an asset from the policy's whitelist (owner only).
    pub fn remove_asset_from_whitelist(
        &mut self,
        env: &mut CallEnv,
        caller: Address,
        policy_id: String,
        asset: Address,
    ) -> (r: Result<(), Error>)
        ensures
            r == old(self)@.remove_outcome(
                policy_id@,
                caller,
                old(self)@.asset_whitelist.contains_key((policy_id@, asset)),
            ),
            r is Err ==> *final(self) == *old(self) && final(env)@ == old(env)@.auth(caller),
            r is Ok ==> final(self)@ == (PolicyView {
                asset_whitelist: old(self)@.asset_whitelist.remove((policy_id@, asset)),
                ..old(self)@
            }) && final(env)@ == old(env)@.auth(caller).emit(
                Event::PolicyAssetRemoved { policy_id, asset },
            ),
    {
        self.require_policy_owner(env, &policy_id, &caller)?;
        let key = (policy_id.clone(), asset);
        if !self.asset_whitelist.has(&key) {
            return Err(Error::NotFound);
        }
        self.asset_whitelist.remove(&key);
        env.publish(Event::PolicyAssetRemoved { policy_id, asset });
        Ok(())
    }

    /// Enable or disable the asset whitelist for a policy (owner only). When
    /// enabled, only assets explicitly added via `add_asset_to_whitelist` are
    /// permitted.
    pub fn set_asset_whitelist_enabled(
        &mut self,
        env: &mut CallEnv,
        caller: Address,
        policy_id: String,
        enabled: bool,
    ) -> (r: Result<(), Error>)
        ensures
            r == old(self)@.owner_check(policy_id@, caller),
            final(env)@ == old(env)@.auth(caller),
            r is Err ==> *final(self) == *old(self),
            r is Ok ==> final(self)@ == (PolicyView {
                asset_whitelist_enabled: old(self)@.asset_whitelist_enabled.insert(policy_id@, enabled),
                ..old(self)@
            }),
    {
        self.require_policy_owner(env, &policy_id, &caller)?;
        self.asset_whitelist_enabled.set(policy_id, enabled);
        Ok(())
    }

    /// Add a recipient to the policy's whitelist (owner only). When the
    /// recipient whitelist is enabled for a policy, only whitelisted recipients
    /// are permitted in `check_transfer`.
    pub fn add_whitelist(
        &mut self,
        env: &mut CallEnv,
        caller: Address,
        policy_id: String,
        recipient: Address,
    ) -> (r: Result<(), Error>)
        ensures
            r == old(self)@.add_outcome(
                policy_id@,
                caller,
                old(self)@.whitelist.contains_key((policy_id@, recipient)),
            ),
            r is Err ==> *final(self) == *old(self) && final(env)@ == old(env)@.auth(caller),
            r is Ok ==> final(self)@ == (PolicyView {
                whitelist: old(self)@.whitelist.insert((policy_id@, recipient), ()),
                ..old(self)@
            }) && final(env)@ == old(env)@.auth(caller),
    {
        self.require_policy_owner(env, &policy_id, &caller)?;
        let key = (policy_id, recipient);
        if self.whitelist.has(&key) {
            return Err(Error::AlreadyExists);
        }
        self.whitelist.set(key, ());
        Ok(())
    }

    /// Remove a recipient from the policy's whitelist (owner only).
    pub fn remove_whitelist(
        &mut self,
        env: &mut CallEnv,
        caller: Address,
        policy_id: String,
        recipient: Address,
    ) -> (r: Result<(), Error>)
        ensures
            r == old(self)@.remove_outcome(
                policy_id@,
                caller,
                old(self)@.whitelist.contains_key((policy_id@, recipient)),
            ),
            r is Err ==> *final(self) == *old(self) && final(env)@ == old(env)@.auth(caller),
            r is Ok ==> final(self)@ == (PolicyView {
                whitelist: old(self)@.whitelist.remove((policy_id@, recipient)),
                ..old(self)@
            }) && final(env)@ == old(env)@.auth(caller),
    {
        self.require_policy_owner(env, &policy_id, &caller)?;
        let key = (policy_id, recipient);
        if !self.whitelist.has(&key) {
            return Err(Error::NotFound);
        }
        self.whitelist.remove(&key);
        Ok(())
    }

    /// Enable or disable the recipient whitelist for a policy (owner only). An
    /// enabled, empty whitelist denies every recipient.
    pub fn set_whitelist_enabled(
        &mut self,
        env: &mut CallEnv,
        caller: Address,
        policy_id: String,
        enabled: bool,
    ) -> (r: Result<(), Error>)
        ensures
            r == old(self)@.owner_check(policy_id@, caller),
            final(env)@ == old(env)@.auth(caller),
            r is Err ==> *final(self) == *old(self),
            r is Ok ==> final(self)@ == (PolicyView {
                whitelist_enabled: old(self)@.whitelist_enabled.insert(policy_id@, enabled),
                ..old(self)@
            }),
    {
        self.require_policy_owner(env, &policy_id, &caller)?;
        self.whitelist_enabled.set(policy_id, enabled);
        Ok(())
    }

    /// Add an address to the restricted blacklist (owner only).
    pub fn add_blacklist(
        &mut self,
        env: &mut CallEnv,
        caller: Address,
        policy_id: String,
        address: Address,
    ) -> (r: Result<(), Error>)
        ensures
            r == old(self)@.add_outcome(
                policy_id@,
                caller,
                old(self)@.blacklist.contains_key(address),
            ),
            r is Err ==> *final(self) == *old(self) && final(env)@ == old(env)@.auth(caller),
            r is Ok ==> final(self)@ == (PolicyView {
                blacklist: old(self)@.blacklist.insert(address, policy_id),
                ..old(self)@
            }) && final(env)@ == old(env)@.auth(caller).emit(
                Event::PolicyBlocked { policy_id, address },
            ),
    {
        self.require_policy_owner(env, &policy_id, &caller)?;
        let key = address;
        if self.blacklist.has(&key) {
            return Err(Error::AlreadyExists);
        }
        self.blacklist.set(key, policy_id.clone());
        env.publish(Event::PolicyBlocked { policy_id, address });
        Ok(())
    }

    /// Remove an address from the restricted blacklist (owner only).
    pub fn remove_blacklist(
        &mut self,
        env: &mut CallEnv,
        caller: Address,
        policy_id: String,
        address: Address,
    ) -> (r: Result<(), Error>)
        ensures
            r == old(self)@.remove_outcome(
                policy_id@,
                caller,
                old(self)@.blacklist.contains_key(address),
            ),
            r is Err ==> *final(self) == *old(self) && final(env)@ == old(env)@.auth(caller),
            r is Ok ==> final(self)@ == (PolicyView {
                blacklist: old(self)@.blacklist.remove(address),
                ..old(self)@
            }) && final(env)@ == old(env)@.auth(caller).emit(
                Event::PolicyUnblocked { policy_id, address },
            ),
    {
        self.require_policy_owner(env, &policy_id, &caller)?;
        let key = address;
        if !self.blacklist.has(&key) {
            return Err(Error::NotFound);
        }
        self.blacklist.remove(&key);
        env.publish(Event::PolicyUnblocked { policy_id, address });
        Ok(())
    }

    /// Add a merchant address to the merchant blacklist (owner only).
    pub fn add_merchant_blacklist(
        &mut self,
        env: &mut CallEnv,
        caller: Address,
        policy_id: String,
        merchant: Address,
    ) -> (r: Result<(), Error>)
        ensures
            r == old(self)@.add_outcome(
                policy_id@,
                caller,
                old(self)@.merchant_blacklist.contains_key(merchant),
            ),
            r is Err ==> *final(self) == *old(self) && final(env)@ == old(env)@.auth(caller),
            r is Ok ==> final(self)@ == (PolicyView {
                merchant_blacklist: old(self)@.merchant_blacklist.insert(merchant, policy_id),
                ..old(self)@
            }) && final(env)@ == old(env)@.auth(caller).emit(
                Event::PolicyMerchantBlocked { policy_id, merchant },
            ),
    {
        self.require_policy_owner(env, &policy_id, &caller)?;
        let key = merchant;
        if self.merchant_blacklist.has(&key) {
            return Err(Error::AlreadyExists);
        }
        self.merchant_blacklist.set(key, policy_id.clone());
        env.publish(Event::PolicyMerchantBlocked { policy_id, merchant });
        Ok(())
    }

    /// Remove a merchant address from the merchant blacklist (owner only).
    pub fn remove_merchant_blacklist(
        &mut self,
        env: &mut CallEnv,
        caller: Address,
        policy_id: String,
        merchant: Address,
    ) -> (r: Result<(), Error>)
        ensures
            r == old(self)@.remove_outcome(
                policy_id@,
                caller,
                old(self)@.merchant_blacklist.contains_key(merchant),
            ),
            r is Err ==> *final(self) == *old(self) && final(env)@ == old(env)@.auth(caller),
            r is Ok ==> final(self)@ == (PolicyView {
                merchant_blacklist: old(self)@.merchant_blacklist.remove(merchant),
                ..old(self)@
            }) && final(env)@ == old(env)@.auth(caller).emit(
                Event::PolicyMerchantUnblocked { policy_id, merchant },
            ),
    {
        self.require_policy_owner(env, &policy_id, &caller)?;
        let key = merchant;
        if !self.merchant_blacklist.has(&key) {
            return Err(Error::NotFound);
        }
        self.merchant_blacklist.remove(&key);
        env.publish(Event::PolicyMerchantUnblocked { policy_id, merchant });
        Ok(())
    }

    /// Add a spending category to the category blacklist (owner only).
    pub fn add_category_blacklist(
        &mut self,
        env: &mut CallEnv,
        caller: Address,
        policy_id: String,
        category: String,
    ) -> (r: Result<(), Error>)
        ensures
            r == (if old(self)@.owner_check(policy_id@, caller) is Ok && category@.len() == 0 {
                Err::<(), Error>(Error::InvalidInput)
            } else {
                old(self)@.add_outcome(
                    policy_id@,
                    caller,
                    old(self)@.category_blacklist.contains_key(category@),
                )
            }),
            r is Err ==> *final(self) == *old(self) && final(env)@ == old(env)@.auth(caller),
            r is Ok ==> final(self)@ == (PolicyView {
                category_blacklist: old(self)@.category_blacklist.insert(category@, policy_id),
                ..old(self)@
            }) && final(env)@ == old(env)@.auth(caller).emit(
                Event::PolicyCategoryBlocked { policy_id, category },
            ),
    {
        self.require_policy_owner(env, &policy_id, &caller)?;
        require_non_empty(&category)?;
        let key = category.clone();
        if self.category_blacklist.has(&key) {
            return Err(Error::AlreadyExists);
        }
        self.category_blacklist.set(key, policy_id.clone());
        env.publish(Event::PolicyCategoryBlocked { policy_id, category });
        Ok(())
    }

    /// Remove a spending category from the category blacklist (owner only).
    pub fn remove_category_blacklist(
        &mut self,
        env: &mut CallEnv,
        caller: Address,
        policy_id: String,
        category: String,
    ) -> (r: Result<(), Error>)
        ensures
            r == old(self)@.remove_outcome(
                policy_id@,
                caller,
                old(self)@.category_blacklist.contains_key(category@),
            ),
            r is Err ==> *final(self) == *old(self) && final(env)@ == old(env)@.auth(caller),
            r is Ok ==> final(self)@ == (PolicyView {
                category_blacklist: old(self)@.category_blacklist.remove(category@),
                ..old(self)@
            }) && final(env)@ == old(env)@.auth(caller).emit(
                Event::PolicyCategoryUnblocked { policy_id, category },
            ),
    {
        self.require_policy_owner(env, &policy_id, &caller)?;
        let key = category.clone();
        if !self.category_blacklist.has(&key) {
            return Err(Error::NotFound);
        }
        self.category_blacklist.remove(&key);
        env.publish(Event::PolicyCategoryUnblocked { policy_id, category });
        Ok(())
    }

    /// Add a recipient address to the blocklist (owner only). Blocked addresses
    /// are rejected in `check_transfer` before any allowance, asset or amount is
    /// evaluated.
    pub fn add_to_blocklist(
        &mut self,
        env: &mut CallEnv,
        caller: Address,
        policy_id: String,
        address: Address,
    ) -> (r: Result<(), Error>)
        ensures
            r == old(self)@.add_outcome(
                policy_id@,
                caller,
                old(self)@.blacklist.contains_key(address),
            ),
            r is Err ==> *final(self) == *old(self) && final(env)@ == old(env)@.auth(caller),
            r is Ok ==> final(self)@ == (PolicyView {
                blacklist: old(self)@.blacklist.insert(address, policy_id),
                ..old(self)@
            }) && final(env)@ == old(env)@.auth(caller).emit(
                Event::PolicyBlocked { policy_id, address },
            ),
    {
        self.require_policy_owner(env, &policy_id, &caller)?;
        let key = address;
        if self.blacklist.has(&key) {
            return Err(Error::AlreadyExists);
        }
        self.blacklist.set(key, policy_id.clone());
        env.publish(Event::PolicyBlocked { policy_id, address });
        Ok(())
    }

    /// Remove a recipient address from the blocklist (owner only).
    pub fn remove_from_blocklist(
        &mut self,
        env: &mut CallEnv,
        caller: Address,
        policy_id: String,
        address: Address,
    ) -> (r: Result<(), Error>)
        ensures
            r == old(self)@.remove_outcome(
                policy_id@,
                caller,
                old(self)@.blacklist.contains_key(address),
            ),
            r is Err ==> *final(self) == *old(self) && final(env)@ == old(env)@.auth(caller),
            r is Ok ==> final(self)@ == (PolicyView {
                blacklist: old(self)@.blacklist.remove(address),
                ..old(self)@
            }) && final(env)@ == old(env)@.auth(caller).emit(
                Event::PolicyUnblocked { policy_id, address },
            ),
    {
        self.require_policy_owner(env, &policy_id, &caller)?;
        let key = address;
        if !self.blacklist.has(&key) {
            return Err(Error::NotFound);
        }
        self.blacklist.remove(&key);
        env.publish(Event::PolicyUnblocked { policy_id, address });
        Ok(())
    }

    /// Check whether an asset is whitelisted for a given policy: `Ok` if allowed,
    /// or [`Error::AssetNotWhitelisted`] if the whitelist is enabled and the
    /// asset is not present.
    pub fn validate_asset(&self, env: &mut CallEnv, policy_id: &String, asset: Address) -> (r:
        Result<(), Error>)
        ensures
            r == check(self@.asset_admitted(policy_id@, asset), Error::AssetNotWhitelisted),
            final(env)@ == (if r is Ok {
                old(env)@
            } else {
                violation(old(env)@, *policy_id, "asset_not_whitelisted")
            }),
    {
        if !is_set(&self.asset_whitelist_enabled, policy_id) {
            return Ok(());
        }
        if !self.asset_whitelist.has(&(policy_id.clone(), asset)) {
            events_policy_violation(env, policy_id, "asset_not_whitelisted");
            return Err(Error::AssetNotWhitelisted);
        }
        Ok(())
    }

    /// Check if a spending category is restricted: `Ok` if the category is
    /// allowed, or [`Error::PolicyCategoryRestricted`] if it is blacklisted. The
    /// empty category is always allowed.
    pub fn check_category(&self, env: &mut CallEnv, policy_id: &String, category: &String) -> (r:
        Result<(), Error>)
        ensures
            r == check(
                category@.len() == 0 || !self@.category_blacklist.contains_key(category@),
                Error::PolicyCategoryRestricted,
            ),
            final(env)@ == (if r is Ok {
                old(env)@
            } else {
                violation(old(env)@, *policy_id, "category_restricted")
            }),
    {
        if require_non_empty(category).is_err() {
            return Ok(());
        }
        if self.category_blacklist.has(category) {
            events_policy_violation(env, policy_id, "category_restricted");
            return Err(Error::PolicyCategoryRestricted);
        }
        Ok(())
    }

    /// Evaluate a transfer request against the named policy. All gates must
    /// pass.
    ///
    /// The blocklists come **first**, so that compromised or malicious addresses
    /// are rejected immediately, before any other gate of the policy is
    /// evaluated. While evaluation is paused every request is refused.
    pub fn check_transfer(
        &self,
        env: &mut CallEnv,
        policy_id: &String,
        asset: Address,
        recipient: Address,
        amount: i128,
    ) -> (r: Result<(), Error>)
        ensures
            ({
                let now = old(env)@.timestamp;
                let refusal = self@.refusal(now, policy_id@, asset, recipient, amount);
                &&& r == self@.transfer_outcome(now, policy_id@, asset, recipient, amount)
                &&& final(env)@ == (if self@.paused_at(now) || !self@.policies.contains_key(
                    policy_id@,
                ) || refusal is None {
                    old(env)@
                } else {
                    violation(old(env)@, *policy_id, (refusal->0).1)
                })
            }),
    {
        if self.paused(env) {
            return Err(Error::PolicyPaused);
        }
        let policy = match self.policies.get(policy_id) {
            Some(p) => p,
            None => return Err(Error::NotFound),
        };
        let now: u64 = env.timestamp;
        // Blocklist checks.
        if self.blacklist.has(&recipient) {
            events_policy_violation(env, policy_id, "blacklisted");
            return Err(Error::PolicyRecipientRestricted);
        }
        if self.merchant_blacklist.has(&recipient) {
            events_policy_violation(env, policy_id, "merchant_blocked");
            return Err(Error::PolicyMerchantBlocked);
        }
        // Disabled policies deny every spend.
        if !policy.enabled {
            events_policy_violation(env, policy_id, "disabled");
            return Err(Error::PolicyDenied);
        }
        // Time gates.
        if policy.expires_at != 0 && now >= policy.expires_at {
            events_policy_violation(env, policy_id, "expired");
            return Err(Error::PolicyDenied);
        }
        if (policy.window_start != 0 && now < policy.window_start) || (policy.window_end != 0 && now
            >= policy.window_end) {
            events_policy_violation(env, policy_id, "outside_window");
            return Err(Error::PolicyDenied);
        }
        // Amount gate.
        if policy.max_amount != 0 && amount > policy.max_amount {
            events_policy_violation(env, policy_id, "above_max");
            return Err(Error::PolicyDenied);
        }
        // Recipient gates.
        if let Some(allowed) = policy.allowed_recipient {
            if allowed != recipient {
                events_policy_violation(env, policy_id, "bad_recipient");
                return Err(Error::PolicyDenied);
            }
        }
        if is_set(&self.whitelist_enabled, policy_id) && !self.whitelist.has(
            &(policy_id.clone(), recipient),
        ) {
            events_policy_violation(env, policy_id, "not_whitelisted");
            return Err(Error::PolicyDenied);
        }
        // Asset gates.
        if policy.allowed_assets.len() > 0 && !contains_address(&policy.allowed_assets, &asset) {
            events_policy_violation(env, policy_id, "bad_asset");
            return Err(Error::AssetNotWhitelisted);
        }
        self.validate_asset(env, policy_id, asset)
    }

    fn require_admin(&self, env: &mut CallEnv, caller: &Address) -> (r: Result<(), Error>)
        ensures
            r == self@.admin_check(*caller),
            final(env)@ == old(env)@.auth(*caller),
    {
        env.require_auth(*caller);
        let admin = match self.admin {
            Some(a) => a,
            None => return Err(Error::NotInitialized),
        };
        if admin != *caller {
            return Err(Error::Unauthorized);
        }
        Ok(())
    }

    /// Pause the evaluation of all policies (admin only): for a duration of at
    /// most [`MAX_PAUSE_DURATION`], or, with a duration of zero, until
    /// [`PolicyContract::unpause`].
    pub fn pause(&mut self, env: &mut CallEnv, caller: Address, duration: u64) -> (r: Result<
        (),
        Error,
    >)
        ensures
            r == old(self)@.pause_outcome(old(env)@.timestamp, caller, duration),
            final(env)@ == old(env)@.auth(caller),
            r is Err ==> *final(self) == *old(self),
            r is Ok ==> final(self)@ == old(self)@.paused_for(old(env)@.timestamp, duration),
    {
        self.require_admin(env, &caller)?;
        if duration > MAX_PAUSE_DURATION {
            return Err(Error::InvalidInput);
        }
        let until: u64 = match env.timestamp.checked_add(duration) {
            Some(t) => t,
            None => return Err(Error::Overflow),
        };
        self.pause_until = Some(
            if duration == 0 {
                0
            } else {
                until
            },
        );
        Ok(())
    }

    /// Resume the evaluation of policies (admin only).
    pub fn unpause(&mut self, env: &mut CallEnv, caller: Address) -> (r: Result<(), Error>)
        ensures
            r == old(self)@.admin_check(caller),
            final(env)@ == old(env)@.auth(caller),
            r is Err ==> *final(self) == *old(self),
            r is Ok ==> final(self)@ == (PolicyView { pause_until: None, ..old(self)@ }),
    {
        self.require_admin(env, &caller)?;
        self.pause_until = None;
        Ok(())
    }

    // --- views ---

    /// Whether the evaluation of policies is paused.
    pub fn paused(&self, env: &CallEnv) -> (r: bool)
        ensures
            r == self@.paused_at(env@.timestamp),
    {
        match self.pause_until {
            None => false,
            Some(until) => until == 0 || env.timestamp < until,
        }
    }

    pub fn get(&self, policy_id: &String) -> (r: Result<&Policy, Error>)
        ensures
            match r {
                Ok(p) => self@.policies.contains_key(policy_id@) && *p
                    == self@.policies[policy_id@],
                Err(e) => !self@.policies.contains_key(policy_id@) && e == Error::NotFound,
            },
    {
        match self.policies.get(policy_id) {
            Some(p) => Ok(p),
            None => Err(Error::NotFound),
        }
    }
}

// --- laws ---

/// A blocked recipient or merchant is refused whatever the transfer, with the
/// blocklist's own error, before any other gate of the policy.
pub proof fn blocklist_comes_first(
    s: PolicyView,
    now: u64,
    id: Seq<char>,
    asset: Address,
    recipient: Address,
    amount: i128,
)
    requires
        s.blacklist.contains_key(recipient) || s.merchant_blacklist.contains_key(recipient),
    ensures
        s.transfer_outcome(now, id, asset, recipient, amount) is Err,
        !s.paused_at(now) && s.policies.contains_key(id) ==> s.transfer_outcome(
            now,
            id,
            asset,
            recipient,
            amount,
        ) == Err::<(), Error>(
            if s.blacklist.contains_key(recipient) {
                Error::PolicyRecipientRestricted
            } else {
                Error::PolicyMerchantBlocked
            },
        ),
{
}

/// While evaluation is paused, every transfer is refused.
pub proof fn pause_stops_evaluation(
    s: PolicyView,
    now: u64,
    id: Seq<char>,
    asset: Address,
    recipient: Address,
    amount: i128,
)
    requires
        s.paused_at(now),
    ensures
        s.transfer_outcome(now, id, asset, recipient, amount) == Err::<(), Error>(
            Error::PolicyPaused,
        ),
{
}

/// A pause with a duration ends by itself, and no later than the longest
/// duration allowed.
pub proof fn temporary_pauses_end(
    s: PolicyView,
    now: u64,
    caller: Address,
    duration: u64,
    later: u64,
)
    requires
        s.pause_outcome(now, caller, duration) is Ok,
        duration > 0,
        later >= now + MAX_PAUSE_DURATION,
    ensures
        !(PolicyView { pause_until: Some((now + duration) as u64), ..s }).paused_at(later),
{
}

/// A transfer that passes is within every gate of its policy.
pub proof fn passing_means_every_gate_passes(
    s: PolicyView,
    now: u64,
    id: Seq<char>,
    asset: Address,
    recipient: Address,
    amount: i128,
)
    requires
        s.transfer_outcome(now, id, asset, recipient, amount) is Ok,
    ensures
        ({
            let p = s.policies[id];
            &&& p.enabled
            &&& p.max_amount == 0 || amount <= p.max_amount
            &&& p.allowed_recipient is None || p.allowed_recipient == Some(recipient)
            &&& p.allowed_assets@.len() == 0 || p.allowed_assets@.contains(asset)
            &&& p.window_start <= now
            &&& p.window_end == 0 || now < p.window_end
            &&& p.expires_at == 0 || now < p.expires_at
            &&& !s.blacklist.contains_key(recipient)
            &&& !s.merchant_blacklist.contains_key(recipient)
            &&& s.asset_admitted(id, asset)
            &&& s.recipient_admitted(id, recipient)
        }),
{
}

/// Removing what was just added to a whitelist or blocklist restores it, where
/// the entry was not there before.
pub proof fn list_changes_can_be_undone(s: PolicyView, address: Address, policy_id: String)
    requires
        !s.blacklist.contains_key(address),
        !s.whitelist.contains_key((policy_id@, address)),
        !s.asset_whitelist.contains_key((policy_id@, address)),
    ensures
        s.blacklist.insert(address, policy_id).remove(address) == s.blacklist,
        s.whitelist.insert((policy_id@, address), ()).remove((policy_id@, address)) == s.whitelist,
        s.asset_whitelist.insert((policy_id@, address), ()).remove((policy_id@, address))
            == s.asset_whitelist,
{
    assert(s.blacklist.insert(address, policy_id).remove(address) =~= s.blacklist);
    assert(s.whitelist.insert((policy_id@, address), ()).remove((policy_id@, address))
        =~= s.whitelist);
    assert(s.asset_whitelist.insert((policy_id@, address), ()).remove((policy_id@, address))
        =~= s.asset_whitelist);
}

/// A transfer passes exactly where evaluation is not paused, the policy exists
/// and is enabled, the recipient is on no blocklist, the time is before the
/// expiry and within the window, the amount is within the maximum, the recipient
/// is the allowed one and on the whitelist, and the asset is an allowed one and
/// on the asset whitelist, as far as the policy asks for each of these.
pub proof fn transfers_pass_where_every_gate_does(
    s: PolicyView,
    now: u64,
    id: Seq<char>,
    asset: Address,
    recipient: Address,
    amount: i128,
)
    ensures
        s.transfer_outcome(now, id, asset, recipient, amount) is Ok <==> {
            &&& s.pause_until is Some ==> s.pause_until->0 != 0 && s.pause_until->0 <= now
            &&& s.policies.contains_key(id)
            &&& s.policies[id].enabled
            &&& !s.blacklist.contains_key(recipient)
            &&& !s.merchant_blacklist.contains_key(recipient)
            &&& s.policies[id].expires_at == 0 || now < s.policies[id].expires_at
            &&& s.policies[id].window_start <= now
            &&& s.policies[id].window_end == 0 || now < s.policies[id].window_end
            &&& s.policies[id].max_amount == 0 || amount <= s.policies[id].max_amount
            &&& s.policies[id].allowed_recipient is None || s.policies[id].allowed_recipient->0
                == recipient
            &&& s.policies[id].allowed_assets@.len() == 0 || exists|i: int|
                0 <= i < s.policies[id].allowed_assets@.len()
                    && #[trigger] s.policies[id].allowed_assets@[i] == asset
            &&& s.whitelist_enabled.contains_key(id) && s.whitelist_enabled[id]
                ==> s.whitelist.contains_key((id, recipient))
            &&& s.asset_whitelist_enabled.contains_key(id) && s.asset_whitelist_enabled[id]
                ==> s.asset_whitelist.contains_key((id, asset))
        },
{
    let list = s.policies[id].allowed_assets@;
    assert(list.contains(asset) <==> exists|i: int| 0 <= i < list.len() && #[trigger] list[i] == asset);
}

/// What a refused transfer is answered: that evaluation is paused, that there is
/// no such policy, which blocklist the recipient is on, that the asset is not
/// admitted where all else would pass, and otherwise that the policy denies it.
pub proof fn refusals_name_their_reason(
    s: PolicyView,
    now: u64,
    id: Seq<char>,
    asset: Address,
    other_asset: Address,
    recipient: Address,
    amount: i128,
)
    requires
        s.transfer_outcome(now, id, asset, recipient, amount) is Err,
    ensures
        ({
            let e = s.transfer_outcome(now, id, asset, recipient, amount)->Err_0;
            let paused = s.pause_until is Some && (s.pause_until->0 == 0 || now < s.pause_until->0);
            &&& paused <==> e == Error::PolicyPaused
            &&& !paused && !s.policies.contains_key(id) <==> e == Error::NotFound
            &&& !paused && s.policies.contains_key(id) && s.blacklist.contains_key(recipient)
                <==> e == Error::PolicyRecipientRestricted
            &&& !paused && s.policies.contains_key(id) && !s.blacklist.contains_key(recipient)
                && s.merchant_blacklist.contains_key(recipient) <==> e
                == Error::PolicyMerchantBlocked
            &&& s.transfer_outcome(now, id, other_asset, recipient, amount) is Ok ==> e
                == Error::AssetNotWhitelisted
            &&& e == Error::PolicyPaused || e == Error::NotFound || e
                == Error::PolicyRecipientRestricted || e == Error::PolicyMerchantBlocked || e
                == Error::AssetNotWhitelisted || e == Error::PolicyDenied
            &&& e == Error::PolicyDenied ==> s.transfer_outcome(
                now,
                id,
                other_asset,
                recipient,
                amount,
            ) is Err
        }),
{
}

/// An asset is validated exactly where the policy's asset whitelist is not
/// enabled or lists it, and a recipient likewise.
pub proof fn whitelists_admit_what_they_list(
    s: PolicyView,
    id: Seq<char>,
    asset: Address,
    recipient: Address,
)
    ensures
        s.asset_admitted(id, asset) <==> !(s.asset_whitelist_enabled.contains_key(id)
            && s.asset_whitelist_enabled[id]) || s.asset_whitelist.contains_key((id, asset)),
        s.recipient_admitted(id, recipient) <==> !(s.whitelist_enabled.contains_key(id)
            && s.whitelist_enabled[id]) || s.whitelist.contains_key((id, recipient)),
{
}

/// A pause by the admin holds for exactly its duration, or, with a duration of
/// zero, for good; then transfers are evaluated as before it.
pub proof fn pauses_hold_for_their_duration(
    s: PolicyView,
    now: u64,
    caller: Address,
    duration: u64,
    later: u64,
    id: Seq<char>,
    asset: Address,
    recipient: Address,
    amount: i128,
)
    requires
        s.pause_until is None,
    ensures
        s.pause_outcome(now, caller, duration) is Ok <==> s.admin == Some(caller) && duration
            <= 30 * 24 * 60 * 60 && now + duration <= u64::MAX,
        s.pause_outcome(now, caller, duration) is Ok && now <= later ==> {
            let t = s.paused_for(now, duration);
            &&& duration == 0 || later < now + duration ==> t.transfer_outcome(
                later,
                id,
                asset,
                recipient,
                amount,
            ) == Err::<(), Error>(Error::PolicyPaused)
            &&& duration > 0 && later >= now + duration ==> t.transfer_outcome(
                later,
                id,
                asset,
                recipient,
                amount,
            ) == s.transfer_outcome(later, id, asset, recipient, amount)
        },
{
    if s.pause_outcome(now, caller, duration) is Ok && duration > 0 && later >= now + duration {
        let t = s.paused_for(now, duration);
        assert(t.refusal(later, id, asset, recipient, amount) == s.refusal(
            later,
            id,
            asset,
            recipient,
            amount,
        ));
    }
}

/// Only a policy's owner changes it or its lists, and only the admin pauses;
/// an entry is added once and removed only where it is.
pub proof fn only_the_owner_changes_a_policy(
    s: PolicyView,
    id: Seq<char>,
    caller: Address,
    present: bool,
    now: u64,
    duration: u64,
)
    ensures
        s.owner_check(id, caller) is Ok <==> s.policies.contains_key(id) && s.policies[id].owner
            == caller,
        s.add_outcome(id, caller, present) is Ok <==> s.policies.contains_key(id)
            && s.policies[id].owner == caller && !present,
        s.remove_outcome(id, caller, present) is Ok <==> s.policies.contains_key(id)
            && s.policies[id].owner == caller && present,
        s.admin_check(caller) is Ok <==> s.admin == Some(caller),
        s.admin != Some(caller) ==> s.pause_outcome(now, caller, duration) is Err,
{
}

/// A refusal by a policy is published under both schemas, with its reason, and
/// asks for nothing else.
pub proof fn violations_are_published(e: EnvView, policy_id: String, why: &'static str)
    ensures
        violation(e, policy_id, why).log == e.log.push(
            Effect::Publish(Event::PolicyViolation { policy_id, reason: why }),
        ).push(
            Effect::Publish(
                Event::Contract(ContractEvent::PolicyViolation { policy_id, reason: why }),
            ),
        ),
{
}

} // verus!
