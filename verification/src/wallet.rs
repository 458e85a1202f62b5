//! # Wallet contract
//!
//! Programmable, stateful custody wallets for AI agents. The contract is the
//! custodian: tokens are held at the contract's own address, while per-wallet
//! balances are tracked in internal bookkeeping so that an individual wallet can
//! never spend more than it holds.
//!
//! Outbound value movement is only permitted from an `Active` wallet; every
//! other state fails safely with a specific error.
//!
//! ## Emergency circuit breaker
//!
//! The contract also carries a single contract-wide breaker. While tripped,
//! `transfer`, `withdraw` and the creation of new wallets are refused with
//! [`Error::WalletPaused`]. Everything needed to inspect and recover stays live.
//! Authority is asymmetric: a designated guardian can *trip* the breaker; only
//! the admin can *reset* it.
//!
//! ## Access control
//!
//! | Entry point                                   | Minimum role |
//! |-----------------------------------------------|--------------|
//! | `withdraw`, `pause`, `unpause`, `archive`     | `Admin`      |
//! | `grant_role`, `revoke_role`                   | `Admin`      |
//! | `transfer`                                    | `Agent`      |
//! | `freeze`, `unfreeze`                          | `Agent`, or the contract admin |
//!
//! A caller whose role is below the requirement is rejected with
//! [`Error::Unauthorized`].
use crate::access::{
    clear_role, effective, effective_role, holds, require_role, set_role, Role, Roles,
};
use crate::constants::BPS_TOTAL;
use crate::custody::lemma_holds;
use crate::errors::Error;
use crate::events::{
    publish, transfer_executed, wallet_created, wallet_frozen, ContractEvent, Event,
};
use crate::host::{CallEnv, Effect, EnvView};
use crate::math::{checked_mul, in_range, next_id, SafeAdd};
use crate::table::Table;
use crate::types::{Address, ModuleKind, ResourceState};
use crate::validation::{check, require_positive_amount};
use vstd::prelude::*;

verus! {

/// A wallet dispatch action that an authorized module or signer may execute.
#[derive(Clone, Copy, Debug, PartialEq, Eq, Structural)]
pub enum WalletAction {
    /// To the first address, transfer an amount of the second.
    Transfer(Address, Address, i128),
    /// Withdraw an amount of an asset back to the wallet owner.
    Withdraw(Address, i128),
    /// Freeze the wallet, blocking all outbound movement.
    Freeze,
    /// Unfreeze the wallet back to Active.
    Unfreeze,
    /// Pause the wallet temporarily.
    Pause,
    /// Resume a paused wallet.
    Unpause,
}

/// Stored wallet record. `owner` controls the wallet; `state` gates operations.
#[derive(Clone, Copy, Debug, PartialEq, Eq, Structural)]
pub struct WalletData {
    pub owner: Address,
    pub state: ResourceState,
}

/// Maximum enforceable collateral reserve ratio, in basis points (10000 = 100%).
pub const MAX_RESERVE_RATIO_BPS: u32 = 10_000;

/// The kinds of modules that may dispatch wallet operations, in the order in
/// which they are looked up.
pub open spec fn dispatch_kinds() -> Seq<ModuleKind> {
    seq![
        ModuleKind::Multisig,
        ModuleKind::Treasury,
        ModuleKind::Policy,
        ModuleKind::Budget,
        ModuleKind::Proposal,
        ModuleKind::Escrow,
    ]
}

/// The wallet contract's storage.
pub struct WalletContract {
    /// Emergency and administrative address, able to freeze any wallet.
    pub admin: Option<Address>,
    /// Designated emergency guardian able to trip the breaker.
    pub guardian: Option<Address>,
    /// Contract-wide emergency pause flag.
    pub paused: bool,
    /// Monotonic wallet id counter.
    pub wallet_count: Option<u64>,
    pub wallets: Table<u64, WalletData>,
    /// Per-wallet, per-asset balances.
    pub balances: Table<(u64, Address), i128>,
    /// Registry contract for caller verification.
    pub registry: Option<Address>,
    /// Organization that the wallets belong to.
    pub org: Option<String>,
    /// Minimum collateral reserve ratios in basis points.
    pub min_reserve: Table<(u64, Address), u32>,
    /// Granted roles.
    pub roles: Roles,
}

/// The wallet contract's storage as a value.
#[verifier::ext_equal]
pub struct WalletView {
    pub admin: Option<Address>,
    pub guardian: Option<Address>,
    pub paused: bool,
    pub wallet_count: Option<u64>,
    pub wallets: Map<u64, WalletData>,
    pub balances: Map<(u64, Address), i128>,
    pub registry: Option<Address>,
    pub org: Option<String>,
    pub min_reserve: Map<(u64, Address), u32>,
    pub roles: Map<(u64, Address), Role>,
}

impl View for WalletContract {
    type V = WalletView;

    open spec fn view(&self) -> WalletView {
        WalletView {
            admin: self.admin,
            guardian: self.guardian,
            paused: self.paused,
            wallet_count: self.wallet_count,
            wallets: self.wallets@,
            balances: self.balances@,
            registry: self.registry,
            org: self.org,
            min_reserve: self.min_reserve@,
            roles: self.roles@,
        }
    }
}

/// Whether outbound movement is permitted in a state.
pub open spec fn active_check(state: ResourceState) -> Result<(), Error> {
    match state {
        ResourceState::Active => Ok(()),
        ResourceState::Frozen => Err(Error::WalletFrozen),
        ResourceState::Paused => Err(Error::WalletPaused),
        ResourceState::Archived => Err(Error::WalletArchived),
    }
}

/// The state that a lifecycle action leads to from a state.
pub open spec fn next_state(action: WalletAction, state: ResourceState) -> Result<
    ResourceState,
    Error,
> {
    match action {
        WalletAction::Freeze => if state == ResourceState::Archived {
            Err(Error::WalletArchived)
        } else {
            Ok(ResourceState::Frozen)
        },
        WalletAction::Unfreeze => if state == ResourceState::Frozen {
            Ok(ResourceState::Active)
        } else {
            Err(Error::InvalidState)
        },
        WalletAction::Pause => if state == ResourceState::Active {
            Ok(ResourceState::Paused)
        } else {
            Err(Error::InvalidState)
        },
        WalletAction::Unpause => if state == ResourceState::Paused {
            Ok(ResourceState::Active)
        } else {
            Err(Error::InvalidState)
        },
        _ => Ok(state),
    }
}

/// The environment after announcing a state change.
pub open spec fn announce(e: EnvView, wallet_id: u64, action: &'static str) -> EnvView {
    e.emit(Event::WalletState { wallet_id, action }).emit(
        Event::Contract(ContractEvent::WalletStateChanged { wallet_id, state: action }),
    )
}

impl WalletView {
    /// Only wallets have balances, none of them negative, reserve ratios are at most one, wallet
    /// ids are numbered from one, and no role is granted to an owner.
    pub open spec fn wf(self) -> bool {
        &&& forall|k: (u64, Address)| #[trigger]
            self.balances.contains_key(k) ==> self.balances[k] >= 0 && self.wallets.contains_key(
                k.0,
            )
        &&& forall|k: (u64, Address)| #[trigger]
            self.min_reserve.contains_key(k) ==> 0 < self.min_reserve[k] <= MAX_RESERVE_RATIO_BPS
        &&& forall|id: u64| #[trigger]
            self.wallets.contains_key(id) ==> self.wallet_count is Some && 1 <= id
                <= self.wallet_count->0
        &&& forall|k: (u64, Address)| #[trigger]
            self.roles.contains_key(k) ==> self.wallets.contains_key(k.0)
                && self.wallets[k.0].owner != k.1
    }

    /// What a wallet holds of an asset.
    pub open spec fn balance_of(self, id: u64, asset: Address) -> i128 {
        if self.balances.contains_key((id, asset)) {
            self.balances[(id, asset)]
        } else {
            0
        }
    }

    /// The reserve ratio of a wallet and asset; zero where there is none.
    pub open spec fn ratio_of(self, id: u64, asset: Address) -> u32 {
        if self.min_reserve.contains_key((id, asset)) {
            self.min_reserve[(id, asset)]
        } else {
            0
        }
    }

    /// The state after a wallet's balance of an asset changed.
    pub open spec fn with_balance(self, id: u64, asset: Address, balance: int) -> WalletView {
        WalletView { balances: self.balances.insert((id, asset), balance as i128), ..self }
    }

    /// The state after a wallet's lifecycle state changed.
    pub open spec fn with_state(self, id: u64, state: ResourceState) -> WalletView {
        WalletView {
            wallets: self.wallets.insert(id, WalletData { state, ..self.wallets[id] }),
            ..self
        }
    }

    /// What an admin-gated entry point answers.
    pub open spec fn admin_check(self, caller: Address) -> Result<(), Error> {
        match self.admin {
            None => Err(Error::NotInitialized),
            Some(a) => check(a == caller, Error::Unauthorized),
        }
    }

    /// What tripping the breaker requires of the caller.
    pub open spec fn guardian_check(self, caller: Address) -> Result<(), Error> {
        match self.admin {
            None => Err(Error::NotInitialized),
            Some(a) => check(a == caller || self.guardian == Some(caller), Error::Unauthorized),
        }
    }

    /// What an owner-gated entry point answers.
    pub open spec fn owner_check(self, id: u64, caller: Address) -> Result<(), Error> {
        if !self.wallets.contains_key(id) {
            Err(Error::NotFound)
        } else {
            check(self.wallets[id].owner == caller, Error::Unauthorized)
        }
    }

    /// What a role-gated entry point answers.
    pub open spec fn role_check(self, id: u64, caller: Address, required: Role) -> Result<
        (),
        Error,
    > {
        if !self.wallets.contains_key(id) {
            Err(Error::NotFound)
        } else {
            check(
                holds(self.roles, id, self.wallets[id].owner, caller, required),
                Error::Unauthorized,
            )
        }
    }

    /// What a role-gated entry point that also admits the contract admin answers.
    pub open spec fn role_or_admin_check(self, id: u64, caller: Address, required: Role) -> Result<
        (),
        Error,
    > {
        if !self.wallets.contains_key(id) {
            Err(Error::NotFound)
        } else if self.admin == Some(caller) {
            Ok(())
        } else {
            self.role_check(id, caller, required)
        }
    }

    /// Whether an outbound movement leaves the configured reserve behind.
    pub open spec fn reserve_check(self, id: u64, asset: Address, amount: i128) -> Result<
        (),
        Error,
    > {
        let ratio = self.ratio_of(id, asset);
        let current = self.balance_of(id, asset);
        if ratio == 0 {
            Ok(())
        } else if current < amount {
            Err(Error::InsufficientFunds)
        } else if !in_range((current - amount) * BPS_TOTAL) || !in_range(current * ratio) {
            Err(Error::Overflow)
        } else {
            check((current - amount) * BPS_TOTAL >= current * ratio, Error::ReserveViolation)
        }
    }

    /// What an outbound movement that requires a role returns.
    pub open spec fn spend_outcome(
        self,
        caller: Address,
        id: u64,
        asset: Address,
        amount: i128,
        required: Role,
    ) -> Result<(), Error> {
        if amount <= 0 {
            Err(Error::InvalidAmount)
        } else if self.paused {
            Err(Error::WalletPaused)
        } else if self.role_check(id, caller, required) is Err {
            self.role_check(id, caller, required)
        } else if active_check(self.wallets[id].state) is Err {
            active_check(self.wallets[id].state)
        } else if self.reserve_check(id, asset, amount) is Err {
            self.reserve_check(id, asset, amount)
        } else {
            check(self.balance_of(id, asset) >= amount, Error::InsufficientFunds)
        }
    }

    /// What transferring out of a wallet returns.
    pub open spec fn transfer_outcome(
        self,
        caller: Address,
        id: u64,
        asset: Address,
        amount: i128,
    ) -> Result<(), Error> {
        self.spend_outcome(caller, id, asset, amount, Role::Agent)
    }

    /// What withdrawing to a wallet's owner returns.
    pub open spec fn withdraw_outcome(
        self,
        caller: Address,
        id: u64,
        asset: Address,
        amount: i128,
    ) -> Result<(), Error> {
        self.spend_outcome(caller, id, asset, amount, Role::Admin)
    }

    /// The state after an amount was paid out of a wallet.
    pub open spec fn paid(self, id: u64, asset: Address, amount: i128) -> WalletView {
        self.with_balance(id, asset, self.balance_of(id, asset) - amount)
    }

    /// The environment after a transfer out of a wallet.
    pub open spec fn transfer_env(
        self,
        e: EnvView,
        caller: Address,
        id: u64,
        to: Address,
        asset: Address,
        amount: i128,
    ) -> EnvView {
        e.auth(caller).transfer(asset, e.contract, to, amount).emit(
            Event::TransferExecuted { from: e.contract, to, asset, amount },
        )
    }

    /// The environment after a withdrawal to a wallet's owner.
    pub open spec fn withdraw_env(
        self,
        e: EnvView,
        caller: Address,
        id: u64,
        asset: Address,
        amount: i128,
    ) -> EnvView {
        e.auth(caller).transfer(asset, e.contract, self.wallets[id].owner, amount).emit(
            Event::WalletWithdrawn { wallet_id: id, asset, amount },
        )
    }

    /// The state after a deposit into a wallet.
    pub open spec fn deposited(self, id: u64, asset: Address, amount: i128) -> WalletView {
        self.with_balance(id, asset, self.balance_of(id, asset) + amount)
    }

    /// The environment after a deposit into a wallet.
    pub open spec fn deposit_env(
        self,
        e: EnvView,
        id: u64,
        from: Address,
        asset: Address,
        amount: i128,
    ) -> EnvView {
        e.auth(from).transfer(asset, from, e.contract, amount).emit(
            Event::WalletDeposited { wallet_id: id, asset, amount },
        )
    }

    /// The environment after an outbound movement was refused.
    pub open spec fn refused(
        self,
        e: EnvView,
        caller: Address,
        id: u64,
        asset: Address,
        amount: i128,
        required: Role,
    ) -> EnvView {
        if amount <= 0 || self.paused {
            e
        } else if self.spend_outcome(caller, id, asset, amount, required) == Err::<(), Error>(
            Error::ReserveViolation,
        ) {
            e.auth(caller).emit(
                Event::ReserveFailed {
                    wallet_id: id,
                    asset,
                    amount,
                    ratio_bps: self.ratio_of(id, asset),
                },
            )
        } else {
            e.auth(caller)
        }
    }

    /// What depositing returns.
    pub open spec fn deposit_outcome(self, id: u64, asset: Address, amount: i128) -> Result<
        (),
        Error,
    > {
        if amount <= 0 {
            Err(Error::InvalidAmount)
        } else if !self.wallets.contains_key(id) {
            Err(Error::NotFound)
        } else if self.wallets[id].state == ResourceState::Archived {
            Err(Error::WalletArchived)
        } else {
            check(in_range(self.balance_of(id, asset) + amount), Error::MathOverflow)
        }
    }

    /// What a lifecycle action of a permitted caller returns.
    pub open spec fn lifecycle_outcome(
        self,
        permitted: Result<(), Error>,
        id: u64,
        action: WalletAction,
    ) -> Result<(), Error> {
        if permitted is Err {
            permitted
        } else {
            match next_state(action, self.wallets[id].state) {
                Ok(_) => Ok(()),
                Err(e) => Err(e),
            }
        }
    }

    /// Whether a caller may dispatch operations on a wallet, given what the
    /// registry answered for each of the dispatch kinds.
    pub open spec fn dispatch_check(
        self,
        caller: Address,
        id: u64,
        lookups: Seq<Option<Address>>,
    ) -> Result<(), Error> {
        if !self.wallets.contains_key(id) {
            Err(Error::NotFound)
        } else if self.wallets[id].owner == caller || self.admin == Some(caller) {
            Ok(())
        } else if self.registry is None || self.org is None {
            Err(Error::NotInitialized)
        } else {
            check(lookups.contains(Some(caller)), Error::UnauthorizedDispatch)
        }
    }

    /// What dispatching an action returns.
    pub open spec fn dispatch_outcome(self, id: u64, action: WalletAction) -> Result<(), Error> {
        match action {
            WalletAction::Transfer(_, asset, amount) => self.dispatch_spend(id, asset, amount),
            WalletAction::Withdraw(asset, amount) => self.dispatch_spend(id, asset, amount),
            _ => if !self.wallets.contains_key(id) {
                Err(Error::NotFound)
            } else {
                self.lifecycle_outcome(Ok(()), id, action)
            },
        }
    }

    /// What dispatching an outbound movement returns.
    pub open spec fn dispatch_spend(self, id: u64, asset: Address, amount: i128) -> Result<
        (),
        Error,
    > {
        if amount <= 0 {
            Err(Error::InvalidAmount)
        } else if !self.wallets.contains_key(id) {
            Err(Error::NotFound)
        } else if active_check(self.wallets[id].state) is Err {
            active_check(self.wallets[id].state)
        } else {
            check(self.balance_of(id, asset) >= amount, Error::InsufficientFunds)
        }
    }

    /// The state after dispatching an action.
    pub open spec fn dispatched(self, id: u64, action: WalletAction) -> WalletView {
        match action {
            WalletAction::Transfer(_, asset, amount) => self.with_balance(
                id,
                asset,
                self.balance_of(id, asset) - amount,
            ),
            WalletAction::Withdraw(asset, amount) => self.with_balance(
                id,
                asset,
                self.balance_of(id, asset) - amount,
            ),
            _ => self.with_state(id, next_state(action, self.wallets[id].state)->Ok_0),
        }
    }

    /// The environment after dispatching an action.
    pub open spec fn dispatched_env(self, e: EnvView, id: u64, action: WalletAction) -> EnvView {
        match action {
            WalletAction::Transfer(to, asset, amount) => e.transfer(
                asset,
                e.contract,
                to,
                amount,
            ).emit(Event::TransferExecuted { from: e.contract, to, asset, amount }),
            WalletAction::Withdraw(asset, amount) => e.transfer(
                asset,
                e.contract,
                self.wallets[id].owner,
                amount,
            ).emit(Event::WalletWithdrawn { wallet_id: id, asset, amount }),
            WalletAction::Freeze => e.emit(
                Event::WalletFrozen { wallet_id: id, by: e.contract },
            ),
            WalletAction::Unfreeze => announce(e, id, "unfrozen"),
            WalletAction::Pause => announce(e, id, "paused"),
            WalletAction::Unpause => announce(e, id, "unpaused"),
        }
    }
}

impl WalletContract {
    /// A contract with empty storage.
    pub fn new() -> (r: Self)
        ensures
            r@ == (WalletView {
                admin: None,
                guardian: None,
                paused: false,
                wallet_count: None,
                wallets: Map::empty(),
                balances: Map::empty(),
                registry: None,
                org: None,
                min_reserve: Map::empty(),
                roles: Map::empty(),
            }),
            r@.wf(),
    {
        WalletContract {
            admin: None,
            guardian: None,
            paused: false,
            wallet_count: None,
            wallets: Table::new(),
            balances: Table::new(),
            registry: None,
            org: None,
            min_reserve: Table::new(),
            roles: Table::new(),
        }
    }

    /// Initialize the contract with an emergency admin, registry address, and
    /// organization slug. Callable once. The admin is its own guardian until a
    /// dedicated one is designated.
    pub fn initialize(&mut self, admin: Address, registry: Address, org: String) -> (r: Result<
        (),
        Error,
    >)
        ensures
            r == check(old(self)@.admin is None, Error::AlreadyInitialized),
            r is Err ==> *final(self) == *old(self),
            r is Ok ==> final(self)@ == (WalletView {
                admin: Some(admin),
                guardian: Some(admin),
                wallet_count: Some(0u64),
                paused: false,
                registry: Some(registry),
                org: Some(org),
                ..old(self)@
            }),
            old(self)@.wf() && old(self)@.wallets == Map::<u64, WalletData>::empty() ==> final(self)@.wf(),
    {
        if self.admin.is_some() {
            return Err(Error::AlreadyInitialized);
        }
        self.admin = Some(admin);
        self.guardian = Some(admin);
        self.wallet_count = Some(0);
        self.paused = false;
        self.registry = Some(registry);
        self.org = Some(org);
        Ok(())
    }

    fn require_admin(&self, env: &mut CallEnv, caller: &Address) -> (r: Result<(), Error>)
        ensures
            r == self@.admin_check(*caller),
            final(env)@ == old(env)@.auth(*caller),
    {
        env.require_auth(*caller);
        let admin = match self.admin {
            Some(a) => a,
            None => return Err(Error::NotInitialized),
        };
        if admin != *caller {
            return Err(Error::Unauthorized);
        }
        Ok(())
    }

    fn require_guardian_or_admin(&self, env: &mut CallEnv, caller: &Address) -> (r: Result<
        (),
        Error,
    >)
        ensures
            r == self@.guardian_check(*caller),
            final(env)@ == old(env)@.auth(*caller),
    {
        env.require_auth(*caller);
        let admin = match self.admin {
            Some(a) => a,
            None => return Err(Error::NotInitialized),
        };
        let is_guardian = match self.guardian {
            Some(g) => g == *caller,
            None => false,
        };
        if admin != *caller && !is_guardian {
            return Err(Error::Unauthorized);
        }
        Ok(())
    }

    /// Designate the emergency guardian allowed to trip the circuit breaker
    /// (admin only).
    pub fn set_guardian(&mut self, env: &mut CallEnv, caller: Address, guardian: Address) -> (r:
        Result<(), Error>)
        ensures
            r == old(self)@.admin_check(caller),
            r is Err ==> *final(self) == *old(self) && final(env)@ == old(env)@.auth(caller),
            r is Ok ==> final(self)@ == (WalletView { guardian: Some(guardian), ..old(self)@ })
                && final(env)@ == old(env)@.auth(caller).emit(Event::GuardianSet { guardian }),
            old(self)@.wf() ==> final(self)@.wf(),
    {
        self.require_admin(env, &caller)?;
        self.guardian = Some(guardian);
        env.publish(Event::GuardianSet { guardian });
        Ok(())
    }

    /// Trip the contract-wide circuit breaker (admin or guardian).
    ///
    /// Freezes every outbound movement and the creation of new wallets at once.
    /// Reads, deposits and the per-wallet recovery transitions stay available.
    pub fn emergency_pause(&mut self, env: &mut CallEnv, caller: Address) -> (r: Result<(), Error>)
        ensures
            r == (if old(self)@.guardian_check(caller) is Err {
                old(self)@.guardian_check(caller)
            } else {
                check(!old(self)@.paused, Error::InvalidState)
            }),
            r is Err ==> *final(self) == *old(self) && final(env)@ == old(env)@.auth(caller),
            r is Ok ==> final(self)@ == (WalletView { paused: true, ..old(self)@ }) && final(env)@
                == old(env)@.auth(caller).emit(Event::WalletPaused { caller }),
            old(self)@.wf() ==> final(self)@.wf(),
    {
        self.require_guardian_or_admin(env, &caller)?;
        if self.paused {
            return Err(Error::InvalidState);
        }
        self.paused = true;
        env.publish(Event::WalletPaused { caller });
        Ok(())
    }

    /// Reset the circuit breaker and resume normal operation.
    ///
    /// Admin only: tripping the breaker is a fast, low-privilege reaction, but
    /// releasing it puts funds back in motion and must clear the higher bar.
    pub fn emergency_unpause(&mut self, env: &mut CallEnv, caller: Address) -> (r: Result<
        (),
        Error,
    >)
        ensures
            r == (if old(self)@.admin_check(caller) is Err {
                old(self)@.admin_check(caller)
            } else {
                check(old(self)@.paused, Error::InvalidState)
            }),
            r is Err ==> *final(self) == *old(self) && final(env)@ == old(env)@.auth(caller),
            r is Ok ==> final(self)@ == (WalletView { paused: false, ..old(self)@ }) && final(env)@
                == old(env)@.auth(caller).emit(Event::WalletUnpaused { caller }),
            old(self)@.wf() ==> final(self)@.wf(),
    {
        self.require_admin(env, &caller)?;
        if !self.paused {
            return Err(Error::InvalidState);
        }
        self.paused = false;
        env.publish(Event::WalletUnpaused { caller });
        Ok(())
    }

    /// The circuit breaker guard.
    fn when_not_paused(&self) -> (r: Result<(), Error>)
        ensures
            r == check(!self@.paused, Error::WalletPaused),
    {
        if self.paused {
            return Err(Error::WalletPaused);
        }
        Ok(())
    }

    /// Create a new wallet owned by `owner`. Returns the new wallet id.
    pub fn create_wallet(&mut self, env: &mut CallEnv, owner: Address) -> (r: Result<u64, Error>)
        ensures
            r == (if old(self)@.paused {
                Err::<u64, Error>(Error::WalletPaused)
            } else {
                match old(self)@.wallet_count {
                    None => Err(Error::NotInitialized),
                    Some(count) => if count == u64::MAX {
                        Err(Error::MathOverflow)
                    } else {
                        Ok((count + 1) as u64)
                    },
                }
            }),
            r is Err ==> *final(self) == *old(self) && final(env)@ == (if old(self)@.paused {
                old(env)@
            } else {
                old(env)@.auth(owner)
            }),
            r is Ok ==> final(self)@ == (WalletView {
                wallet_count: Some(r->Ok_0),
                wallets: old(self)@.wallets.insert(
                    r->Ok_0,
                    WalletData { owner, state: ResourceState::Active },
                ),
                ..old(self)@
            }) && final(env)@ == old(env)@.auth(owner).emit(
                Event::WalletCreated { wallet_id: r->Ok_0, owner },
            ).emit(Event::Contract(ContractEvent::WalletCreated { wallet_id: r->Ok_0, owner })),
            old(self)@.wf() ==> final(self)@.wf(),
    {
        self.when_not_paused()?;
        env.require_auth(owner);
        let count: u64 = match self.wallet_count {
            Some(c) => c,
            None => return Err(Error::NotInitialized),
        };
        let id: u64 = match next_id(count) {
            Ok(id) => id,
            Err(_) => return Err(Error::MathOverflow),
        };
        self.wallets.set(id, WalletData { owner, state: ResourceState::Active });
        self.wallet_count = Some(id);
        wallet_created(env, id, &owner);
        publish(env, ContractEvent::WalletCreated { wallet_id: id, owner });
        Ok(id)
    }

    fn load_wallet(&self, id: u64) -> (r: Result<WalletData, Error>)
        ensures
            r == (if self@.wallets.contains_key(id) {
                Ok::<WalletData, Error>(self@.wallets[id])
            } else {
                Err(Error::NotFound)
            }),
    {
        match self.wallets.get(&id) {
            Some(w) => Ok(*w),
            None => Err(Error::NotFound),
        }
    }

    fn credit(&mut self, id: u64, asset: &Address, amount: i128) -> (r: Result<(), Error>)
        ensures
            r == check(
                in_range(old(self)@.balance_of(id, *asset) + amount),
                Error::MathOverflow,
            ),
            r is Err ==> *final(self) == *old(self),
            r is Ok ==> final(self)@ == old(self)@.with_balance(
                id,
                *asset,
                old(self)@.balance_of(id, *asset) + amount,
            ),
    {
        let current: i128 = self.balance(id, *asset);
        let updated: i128 = current.safe_add(amount)?;
        self.balances.set((id, *asset), updated);
        Ok(())
    }

    fn debit(&mut self, id: u64, asset: &Address, amount: i128) -> (r: Result<(), Error>)
        requires
            amount > 0,
        ensures
            r == check(old(self)@.balance_of(id, *asset) >= amount, Error::InsufficientFunds),
            r is Err ==> *final(self) == *old(self),
            r is Ok ==> final(self)@ == old(self)@.with_balance(
                id,
                *asset,
                old(self)@.balance_of(id, *asset) - amount,
            ),
    {
        let current: i128 = self.balance(id, *asset);
        if current < amount {
            return Err(Error::InsufficientFunds);
        }
        self.balances.set((id, *asset), current - amount);
        Ok(())
    }

    /// Fund a wallet: pulls `amount` of `asset` from `from` into custody and
    /// credits the wallet's internal balance. Requires `from` authorization.
    /// Refused into archived wallets; other states may receive.
    pub fn deposit(
        &mut self,
        env: &mut CallEnv,
        wallet_id: u64,
        from: Address,
        asset: Address,
        amount: i128,
    ) -> (r: Result<(), Error>)
        ensures
            r == old(self)@.deposit_outcome(wallet_id, asset, amount),
            r is Err ==> *final(self) == *old(self),
            r is Ok ==> final(self)@ == old(self)@.deposited(wallet_id, asset, amount),
            final(env)@ == (if amount <= 0 {
                old(env)@
            } else if r is Ok {
                old(self)@.deposit_env(old(env)@, wallet_id, from, asset, amount)
            } else if r == Err::<(), Error>(Error::MathOverflow) {
                old(env)@.auth(from).transfer(asset, from, old(env)@.contract, amount)
            } else {
                old(env)@.auth(from)
            }),
            old(self)@.wf() ==> final(self)@.wf(),
    {
        require_positive_amount(amount)?;
        env.require_auth(from);
        let wallet = self.load_wallet(wallet_id)?;
        if wallet.state == ResourceState::Archived {
            return Err(Error::WalletArchived);
        }
        let custody = env.contract;
        env.transfer(asset, from, custody, amount);
        self.credit(wallet_id, &asset, amount)?;
        env.publish(Event::WalletDeposited { wallet_id, asset, amount });
        Ok(())
    }

    /// Authenticate `caller`, then require it to hold at least `required` on the
    /// wallet. The wallet is loaded first so that an unknown id reports
    /// [`Error::NotFound`] rather than an authorization failure.
    fn require_wallet_role(
        &self,
        env: &mut CallEnv,
        id: u64,
        caller: &Address,
        required: Role,
    ) -> (r: Result<WalletData, Error>)
        ensures
            final(env)@ == old(env)@.auth(*caller),
            match r {
                Ok(w) => self@.role_check(id, *caller, required) is Ok && w == self@.wallets[id],
                Err(e) => self@.role_check(id, *caller, required) == Err::<(), Error>(e),
            },
    {
        env.require_auth(*caller);
        let wallet = self.load_wallet(id)?;
        require_role(&self.roles, id, &wallet.owner, caller, required)?;
        Ok(wallet)
    }

    /// As `require_wallet_role`, but the contract-level emergency admin also
    /// passes regardless of any per-wallet role.
    fn require_wallet_role_or_admin(
        &self,
        env: &mut CallEnv,
        id: u64,
        caller: &Address,
        required: Role,
    ) -> (r: Result<WalletData, Error>)
        ensures
            final(env)@ == old(env)@.auth(*caller),
            match r {
                Ok(w) => self@.role_or_admin_check(id, *caller, required) is Ok && w
                    == self@.wallets[id],
                Err(e) => self@.role_or_admin_check(id, *caller, required) == Err::<(), Error>(e),
            },
    {
        env.require_auth(*caller);
        let wallet = self.load_wallet(id)?;
        if let Some(admin) = self.admin {
            if admin == *caller {
                return Ok(wallet);
            }
        }
        require_role(&self.roles, id, &wallet.owner, caller, required)?;
        Ok(wallet)
    }

    fn require_owner(&self, env: &mut CallEnv, wallet_id: u64, caller: &Address) -> (r: Result<
        (),
        Error,
    >)
        ensures
            r == self@.owner_check(wallet_id, *caller),
            final(env)@ == old(env)@.auth(*caller),
    {
        env.require_auth(*caller);
        let wallet = self.load_wallet(wallet_id)?;
        if wallet.owner != *caller {
            return Err(Error::Unauthorized);
        }
        Ok(())
    }

    fn require_active(wallet: &WalletData) -> (r: Result<(), Error>)
        ensures
            r == active_check(wallet.state),
    {
        match wallet.state {
            ResourceState::Active => Ok(()),
            ResourceState::Frozen => Err(Error::WalletFrozen),
            ResourceState::Paused => Err(Error::WalletPaused),
            ResourceState::Archived => Err(Error::WalletArchived),
        }
    }

    /// Reserve hook: verify that a planned outbound movement keeps the wallet's
    /// remaining balance at or above the configured minimum reserve ratio. Uses
    /// cross-multiplication (`projected * 10000 >= current * bps`), so no
    /// division is ever performed. Publishes an event on failure.
    fn require_reserve_ok(&self, env: &mut CallEnv, id: u64, asset: &Address, amount: i128) -> (r:
        Result<(), Error>)
        requires
            amount > 0,
        ensures
            r == self@.reserve_check(id, *asset, amount),
            final(env)@ == (if r == Err::<(), Error>(Error::ReserveViolation) {
                old(env)@.emit(
                    Event::ReserveFailed {
                        wallet_id: id,
                        asset: *asset,
                        amount,
                        ratio_bps: self@.ratio_of(id, *asset),
                    },
                )
            } else {
                old(env)@
            }),
    {
        let ratio_bps: u32 = self.reserve_ratio(id, *asset);
        if ratio_bps == 0 {
            return Ok(());
        }
        let current: i128 = self.balance(id, *asset);
        if current < amount {
            return Err(Error::InsufficientFunds);
        }
        let projected: i128 = current - amount;
        let kept: i128 = checked_mul(projected, BPS_TOTAL as i128)?;
        let needed: i128 = checked_mul(current, ratio_bps as i128)?;
        if kept < needed {
            env.publish(
                Event::ReserveFailed { wallet_id: id, asset: *asset, amount, ratio_bps },
            );
            return Err(Error::ReserveViolation);
        }
        Ok(())
    }

    /// Pay `amount` of `asset` from a wallet to an arbitrary recipient. This is
    /// the routine operational spend, so [`Role::Agent`] is enough; it is still
    /// only permitted while the wallet is `Active`.
    pub fn transfer(
        &mut self,
        env: &mut CallEnv,
        caller: Address,
        wallet_id: u64,
        to: Address,
        asset: Address,
        amount: i128,
    ) -> (r: Result<(), Error>)
        ensures
            r == old(self)@.transfer_outcome(caller, wallet_id, asset, amount),
            r is Err ==> *final(self) == *old(self) && final(env)@ == old(self)@.refused(
                old(env)@,
                caller,
                wallet_id,
                asset,
                amount,
                Role::Agent,
            ),
            r is Ok ==> final(self)@ == old(self)@.paid(wallet_id, asset, amount) && final(env)@
                == old(self)@.transfer_env(old(env)@, caller, wallet_id, to, asset, amount),
            old(self)@.wf() ==> final(self)@.wf(),
    {
        require_positive_amount(amount)?;
        self.when_not_paused()?;
        let wallet = self.require_wallet_role(env, wallet_id, &caller, Role::Agent)?;
        Self::require_active(&wallet)?;
        self.require_reserve_ok(env, wallet_id, &asset, amount)?;
        self.debit(wallet_id, &asset, amount)?;
        let custody = env.contract;
        env.transfer(asset, custody, to, amount);
        transfer_executed(env, &custody, &to, &asset, amount);
        Ok(())
    }

    /// Withdraw `amount` of `asset` from a wallet back to its owner. This
    /// requires [`Role::Admin`]; agents are deliberately excluded. Only
    /// permitted while the wallet is `Active`, and the destination is always the
    /// recorded owner regardless of who calls.
    pub fn withdraw(
        &mut self,
        env: &mut CallEnv,
        caller: Address,
        wallet_id: u64,
        asset: Address,
        amount: i128,
    ) -> (r: Result<(), Error>)
        ensures
            r == old(self)@.withdraw_outcome(caller, wallet_id, asset, amount),
            r is Err ==> *final(self) == *old(self) && final(env)@ == old(self)@.refused(
                old(env)@,
                caller,
                wallet_id,
                asset,
                amount,
                Role::Admin,
            ),
            r is Ok ==> final(self)@ == old(self)@.paid(wallet_id, asset, amount) && final(env)@
                == old(self)@.withdraw_env(old(env)@, caller, wallet_id, asset, amount),
            old(self)@.wf() ==> final(self)@.wf(),
    {
        require_positive_amount(amount)?;
        self.when_not_paused()?;
        let wallet = self.require_wallet_role(env, wallet_id, &caller, Role::Admin)?;
        Self::require_active(&wallet)?;
        self.require_reserve_ok(env, wallet_id, &asset, amount)?;
        self.debit(wallet_id, &asset, amount)?;
        let custody = env.contract;
        env.transfer(asset, custody, wallet.owner, amount);
        env.publish(Event::WalletWithdrawn { wallet_id, asset, amount });
        Ok(())
    }

    fn emit_state(env: &mut CallEnv, id: u64, action: &'static str)
        ensures
            final(env)@ == announce(old(env)@, id, action),
    {
        env.publish(Event::WalletState { wallet_id: id, action });
        publish(env, ContractEvent::WalletStateChanged { wallet_id: id, state: action });
    }

    /// The state that a lifecycle action leads to.
    fn transition(action: WalletAction, state: ResourceState) -> (r: Result<ResourceState, Error>)
        ensures
            r == next_state(action, state),
    {
        match action {
            WalletAction::Freeze => if state == ResourceState::Archived {
                Err(Error::WalletArchived)
            } else {
                Ok(ResourceState::Frozen)
            },
            WalletAction::Unfreeze => if state == ResourceState::Frozen {
                Ok(ResourceState::Active)
            } else {
                Err(Error::InvalidState)
            },
            WalletAction::Pause => if state == ResourceState::Active {
                Ok(ResourceState::Paused)
            } else {
                Err(Error::InvalidState)
            },
            WalletAction::Unpause => if state == ResourceState::Paused {
                Ok(ResourceState::Active)
            } else {
                Err(Error::InvalidState)
            },
            _ => Ok(state),
        }
    }

    /// Freeze a wallet. Blocks all outbound movement. Freezing is a safety
    /// action, so [`Role::Agent`] is enough, as is the contract-level emergency
    /// admin.
    pub fn freeze(&mut self, env: &mut CallEnv, caller: Address, wallet_id: u64) -> (r: Result<
        (),
        Error,
    >)
        ensures
            r == old(self)@.lifecycle_outcome(
                old(self)@.role_or_admin_check(wallet_id, caller, Role::Agent),
                wallet_id,
                WalletAction::Freeze,
            ),
            r is Err ==> *final(self) == *old(self) && final(env)@ == old(env)@.auth(caller),
            r is Ok ==> final(self)@ == old(self)@.with_state(wallet_id, ResourceState::Frozen)
                && final(env)@ == old(env)@.auth(caller).emit(
                Event::WalletFrozen { wallet_id, by: caller },
            ).emit(
                Event::Contract(ContractEvent::WalletStateChanged { wallet_id, state: "frozen" }),
            ),
            old(self)@.wf() ==> final(self)@.wf(),
    {
        let mut wallet = self.require_wallet_role_or_admin(env, wallet_id, &caller, Role::Agent)?;
        wallet.state = Self::transition(WalletAction::Freeze, wallet.state)?;
        self.wallets.set(wallet_id, wallet);
        wallet_frozen(env, wallet_id, &caller);
        publish(env, ContractEvent::WalletStateChanged { wallet_id, state: "frozen" });
        Ok(())
    }

    /// Unfreeze a wallet back to `Active`. Same gate as `freeze`.
    pub fn unfreeze(&mut self, env: &mut CallEnv, caller: Address, wallet_id: u64) -> (r: Result<
        (),
        Error,
    >)
        ensures
            r == old(self)@.lifecycle_outcome(
                old(self)@.role_or_admin_check(wallet_id, caller, Role::Agent),
                wallet_id,
                WalletAction::Unfreeze,
            ),
            r is Err ==> *final(self) == *old(self) && final(env)@ == old(env)@.auth(caller),
            r is Ok ==> final(self)@ == old(self)@.with_state(wallet_id, ResourceState::Active)
                && final(env)@ == announce(old(env)@.auth(caller), wallet_id, "unfrozen"),
            old(self)@.wf() ==> final(self)@.wf(),
    {
        let mut wallet = self.require_wallet_role_or_admin(env, wallet_id, &caller, Role::Agent)?;
        wallet.state = Self::transition(WalletAction::Unfreeze, wallet.state)?;
        self.wallets.set(wallet_id, wallet);
        Self::emit_state(env, wallet_id, "unfrozen");
        Ok(())
    }

    /// Pause a wallet ([`Role::Admin`]). Temporarily blocks outbound movement.
    pub fn pause(&mut self, env: &mut CallEnv, caller: Address, wallet_id: u64) -> (r: Result<
        (),
        Error,
    >)
        ensures
            r == old(self)@.lifecycle_outcome(
                old(self)@.role_check(wallet_id, caller, Role::Admin),
                wallet_id,
                WalletAction::Pause,
            ),
            r is Err ==> *final(self) == *old(self) && final(env)@ == old(env)@.auth(caller),
            r is Ok ==> final(self)@ == old(self)@.with_state(wallet_id, ResourceState::Paused)
                && final(env)@ == announce(old(env)@.auth(caller), wallet_id, "paused"),
            old(self)@.wf() ==> final(self)@.wf(),
    {
        let mut wallet = self.require_wallet_role(env, wallet_id, &caller, Role::Admin)?;
        wallet.state = Self::transition(WalletAction::Pause, wallet.state)?;
        self.wallets.set(wallet_id, wallet);
        Self::emit_state(env, wallet_id, "paused");
        Ok(())
    }

    /// Resume a paused wallet ([`Role::Admin`]).
    pub fn unpause(&mut self, env: &mut CallEnv, caller: Address, wallet_id: u64) -> (r: Result<
        (),
        Error,
    >)
        ensures
            r == old(self)@.lifecycle_outcome(
                old(self)@.role_check(wallet_id, caller, Role::Admin),
                wallet_id,
                WalletAction::Unpause,
            ),
            r is Err ==> *final(self) == *old(self) && final(env)@ == old(env)@.auth(caller),
            r is Ok ==> final(self)@ == old(self)@.with_state(wallet_id, ResourceState::Active)
                && final(env)@ == announce(old(env)@.auth(caller), wallet_id, "unpaused"),
            old(self)@.wf() ==> final(self)@.wf(),
    {
        let mut wallet = self.require_wallet_role(env, wallet_id, &caller, Role::Admin)?;
        wallet.state = Self::transition(WalletAction::Unpause, wallet.state)?;
        self.wallets.set(wallet_id, wallet);
        Self::emit_state(env, wallet_id, "unpaused");
        Ok(())
    }

    /// Set the minimum collateral reserve ratio for a wallet and asset (owner
    /// only). `ratio_bps` is in basis points (0..=10000); 0 disables the check.
    /// Once set, every outbound transfer or withdrawal must leave at least
    /// `ratio_bps/10000` of the current balance behind.
    pub fn set_reserve_ratio(
        &mut self,
        env: &mut CallEnv,
        caller: Address,
        wallet_id: u64,
        asset: Address,
        ratio_bps: u32,
    ) -> (r: Result<(), Error>)
        ensures
            r == (if old(self)@.owner_check(wallet_id, caller) is Err {
                old(self)@.owner_check(wallet_id, caller)
            } else {
                check(ratio_bps <= MAX_RESERVE_RATIO_BPS, Error::InvalidInput)
            }),
            r is Err ==> *final(self) == *old(self) && final(env)@ == old(env)@.auth(caller),
            r is Ok ==> final(self)@ == (WalletView {
                min_reserve: if ratio_bps == 0 {
                    old(self)@.min_reserve.remove((wallet_id, asset))
                } else {
                    old(self)@.min_reserve.insert((wallet_id, asset), ratio_bps)
                },
                ..old(self)@
            }) && final(env)@ == old(env)@.auth(caller).emit(
                Event::ReserveSet { wallet_id, asset, ratio_bps },
            ),
            old(self)@.wf() ==> final(self)@.wf(),
    {
        self.require_owner(env, wallet_id, &caller)?;
        if ratio_bps > MAX_RESERVE_RATIO_BPS {
            return Err(Error::InvalidInput);
        }
        if ratio_bps == 0 {
            self.min_reserve.remove(&(wallet_id, asset));
        } else {
            self.min_reserve.set((wallet_id, asset), ratio_bps);
        }
        env.publish(Event::ReserveSet { wallet_id, asset, ratio_bps });
        Ok(())
    }

    /// Archive a wallet ([`Role::Admin`]). Terminal state; no further
    /// transactions.
    pub fn archive(&mut self, env: &mut CallEnv, caller: Address, wallet_id: u64) -> (r: Result<
        (),
        Error,
    >)
        ensures
            r == (if old(self)@.role_check(wallet_id, caller, Role::Admin) is Err {
                old(self)@.role_check(wallet_id, caller, Role::Admin)
            } else {
                check(
                    old(self)@.wallets[wallet_id].state != ResourceState::Archived,
                    Error::WalletArchived,
                )
            }),
            r is Err ==> *final(self) == *old(self) && final(env)@ == old(env)@.auth(caller),
            r is Ok ==> final(self)@ == old(self)@.with_state(wallet_id, ResourceState::Archived)
                && final(env)@ == announce(old(env)@.auth(caller), wallet_id, "archived"),
            old(self)@.wf() ==> final(self)@.wf(),
    {
        let mut wallet = self.require_wallet_role(env, wallet_id, &caller, Role::Admin)?;
        if wallet.state == ResourceState::Archived {
            return Err(Error::WalletArchived);
        }
        wallet.state = ResourceState::Archived;
        self.wallets.set(wallet_id, wallet);
        Self::emit_state(env, wallet_id, "archived");
        Ok(())
    }

    /// Delegate `role` on a wallet to `account`, replacing any role it already
    /// held. Requires [`Role::Admin`], so the owner (implicitly `Admin`) or an
    /// admin it has already delegated to may administer roles.
    ///
    /// Granting to the owner is refused: the owner is implicitly `Admin`, so the
    /// grant would either be redundant or an attempted demotion that the guards
    /// would ignore anyway.
    pub fn grant_role(
        &mut self,
        env: &mut CallEnv,
        caller: Address,
        wallet_id: u64,
        account: Address,
        role: Role,
    ) -> (r: Result<(), Error>)
        ensures
            r == (if old(self)@.role_check(wallet_id, caller, Role::Admin) is Err {
                old(self)@.role_check(wallet_id, caller, Role::Admin)
            } else if old(self)@.wallets[wallet_id].state == ResourceState::Archived {
                Err(Error::WalletArchived)
            } else {
                check(account != old(self)@.wallets[wallet_id].owner, Error::InvalidInput)
            }),
            r is Err ==> *final(self) == *old(self) && final(env)@ == old(env)@.auth(caller),
            r is Ok ==> final(self)@ == (WalletView {
                roles: old(self)@.roles.insert((wallet_id, account), role),
                ..old(self)@
            }) && final(env)@ == old(env)@.auth(caller).emit(
                Event::RoleGranted { wallet_id, account, role },
            ),
            old(self)@.wf() ==> final(self)@.wf(),
    {
        let wallet = self.require_wallet_role(env, wallet_id, &caller, Role::Admin)?;
        if wallet.state == ResourceState::Archived {
            return Err(Error::WalletArchived);
        }
        if account == wallet.owner {
            return Err(Error::InvalidInput);
        }
        set_role(&mut self.roles, wallet_id, &account, role);
        env.publish(Event::RoleGranted { wallet_id, account, role });
        Ok(())
    }

    /// Revoke whatever role `account` holds on a wallet. Requires
    /// [`Role::Admin`]. Fails with [`Error::NotFound`] when the account holds no
    /// granted role, so a revocation is never silently a no-op.
    ///
    /// Permitted on an archived wallet so that role records can still be cleaned
    /// up.
    pub fn revoke_role(
        &mut self,
        env: &mut CallEnv,
        caller: Address,
        wallet_id: u64,
        account: Address,
    ) -> (r: Result<(), Error>)
        ensures
            r == (if old(self)@.role_check(wallet_id, caller, Role::Admin) is Err {
                old(self)@.role_check(wallet_id, caller, Role::Admin)
            } else {
                check(old(self)@.roles.contains_key((wallet_id, account)), Error::NotFound)
            }),
            r is Err ==> *final(self) == *old(self) && final(env)@ == old(env)@.auth(caller),
            r is Ok ==> final(self)@ == (WalletView {
                roles: old(self)@.roles.remove((wallet_id, account)),
                ..old(self)@
            }) && final(env)@ == old(env)@.auth(caller).emit(
                Event::RoleRevoked { wallet_id, account },
            ),
            old(self)@.wf() ==> final(self)@.wf(),
    {
        self.require_wallet_role(env, wallet_id, &caller, Role::Admin)?;
        clear_role(&mut self.roles, wallet_id, &account)?;
        env.publish(Event::RoleRevoked { wallet_id, account });
        Ok(())
    }

    // --- dispatch ---

    /// The module kinds whose registered addresses may dispatch.
    pub fn dispatch_module_kinds() -> (r: Vec<ModuleKind>)
        ensures
            r@ == dispatch_kinds(),
    {
        vec![
            ModuleKind::Multisig,
            ModuleKind::Treasury,
            ModuleKind::Policy,
            ModuleKind::Budget,
            ModuleKind::Proposal,
            ModuleKind::Escrow,
        ]
    }

    /// Verify that `caller` is authorized to dispatch operations on this wallet.
    ///
    /// Authorization succeeds when **any** of the following hold:
    /// 1. `caller` is the wallet's registered owner.
    /// 2. `caller` is the contract-level admin.
    /// 3. `caller` is a registered module address for this wallet's organization
    ///    in the on-chain registry: `lookups` holds what the registry answered
    ///    for each of [`WalletContract::dispatch_module_kinds`], `None` where it
    ///    answered nothing.
    ///
    /// Returns [`Error::UnauthorizedDispatch`] when none of the above apply.
    pub fn require_registered_caller(
        &self,
        caller: &Address,
        wallet_id: u64,
        lookups: &Vec<Option<Address>>,
    ) -> (r: Result<(), Error>)
        ensures
            r == self@.dispatch_check(*caller, wallet_id, lookups@),
    {
        // Fast path: owner or admin.
        let wallet = self.load_wallet(wallet_id)?;
        let is_owner = wallet.owner == *caller;
        let is_admin = match self.admin {
            Some(a) => a == *caller,
            None => false,
        };
        if is_owner || is_admin {
            return Ok(());
        }
        // Registry path: a registered module for this organization.
        if self.registry.is_none() || self.org.is_none() {
            return Err(Error::NotInitialized);
        }
        let mut i: usize = 0;
        while i < lookups.len()
            invariant
                i <= lookups@.len(),
                self@.wallets.contains_key(wallet_id),
                self@.wallets[wallet_id].owner != *caller,
                self@.admin != Some(*caller),
                self@.registry is Some,
                self@.org is Some,
                forall|j: int| 0 <= j < i ==> lookups@[j] != Some(*caller),
            decreases lookups@.len() - i,
        {
            if let Some(address) = lookups[i] {
                if address == *caller {
                    assert(lookups@[i as int] == Some(*caller));
                    return Ok(());
                }
            }
            i = i + 1;
        }
        Err(Error::UnauthorizedDispatch)
    }

    /// Execute a dispatch action against the specified wallet. The caller has
    /// already been authorized by
    /// [`WalletContract::require_registered_caller`].
    pub fn execute_dispatch(&mut self, env: &mut CallEnv, wallet_id: u64, action: WalletAction) -> (r:
        Result<(), Error>)
        ensures
            r == old(self)@.dispatch_outcome(wallet_id, action),
            r is Err ==> *final(self) == *old(self) && final(env)@ == old(env)@,
            r is Ok ==> final(self)@ == old(self)@.dispatched(wallet_id, action) && final(env)@
                == old(self)@.dispatched_env(old(env)@, wallet_id, action),
            old(self)@.wf() ==> final(self)@.wf(),
    {
        let custody = env.contract;
        match action {
            WalletAction::Transfer(to, asset, amount) => {
                require_positive_amount(amount)?;
                let wallet = self.load_wallet(wallet_id)?;
                Self::require_active(&wallet)?;
                self.debit(wallet_id, &asset, amount)?;
                env.transfer(asset, custody, to, amount);
                transfer_executed(env, &custody, &to, &asset, amount);
            },
            WalletAction::Withdraw(asset, amount) => {
                require_positive_amount(amount)?;
                let wallet = self.load_wallet(wallet_id)?;
                Self::require_active(&wallet)?;
                self.debit(wallet_id, &asset, amount)?;
                env.transfer(asset, custody, wallet.owner, amount);
                env.publish(Event::WalletWithdrawn { wallet_id, asset, amount });
            },
            WalletAction::Freeze => {
                let mut wallet = self.load_wallet(wallet_id)?;
                wallet.state = Self::transition(action, wallet.state)?;
                self.wallets.set(wallet_id, wallet);
                wallet_frozen(env, wallet_id, &custody);
            },
            WalletAction::Unfreeze => {
                let mut wallet = self.load_wallet(wallet_id)?;
                wallet.state = Self::transition(action, wallet.state)?;
                self.wallets.set(wallet_id, wallet);
                Self::emit_state(env, wallet_id, "unfrozen");
            },
            WalletAction::Pause => {
                let mut wallet = self.load_wallet(wallet_id)?;
                wallet.state = Self::transition(action, wallet.state)?;
                self.wallets.set(wallet_id, wallet);
                Self::emit_state(env, wallet_id, "paused");
            },
            WalletAction::Unpause => {
                let mut wallet = self.load_wallet(wallet_id)?;
                wallet.state = Self::transition(action, wallet.state)?;
                self.wallets.set(wallet_id, wallet);
                Self::emit_state(env, wallet_id, "unpaused");
            },
        }
        Ok(())
    }

    // --- views ---

    /// Read the role `account` effectively holds on a wallet, or `None` if it
    /// holds none. The wallet owner always resolves to [`Role::Admin`].
    pub fn get_role(&self, wallet_id: u64, account: Address) -> (r: Result<Option<Role>, Error>)
        ensures
            r == (if self@.wallets.contains_key(wallet_id) {
                Ok::<Option<Role>, Error>(
                    effective(
                        self@.roles,
                        wallet_id,
                        self@.wallets[wallet_id].owner,
                        account,
                    ),
                )
            } else {
                Err(Error::NotFound)
            }),
    {
        let wallet = self.load_wallet(wallet_id)?;
        Ok(effective_role(&self.roles, wallet_id, &wallet.owner, &account))
    }

    /// Whether `account` holds at least `role` on a wallet: the same question
    /// the entry point guards ask.
    pub fn has_role(&self, wallet_id: u64, account: Address, role: Role) -> (r: Result<bool, Error>)
        ensures
            r == (if self@.wallets.contains_key(wallet_id) {
                Ok::<bool, Error>(
                    holds(
                        self@.roles,
                        wallet_id,
                        self@.wallets[wallet_id].owner,
                        account,
                        role,
                    ),
                )
            } else {
                Err(Error::NotFound)
            }),
    {
        let wallet = self.load_wallet(wallet_id)?;
        Ok(require_role(&self.roles, wallet_id, &wallet.owner, &account, role).is_ok())
    }

    /// Read a wallet's owner and state.
    pub fn get_wallet(&self, wallet_id: u64) -> (r: Result<WalletData, Error>)
        ensures
            r == (if self@.wallets.contains_key(wallet_id) {
                Ok::<WalletData, Error>(self@.wallets[wallet_id])
            } else {
                Err(Error::NotFound)
            }),
    {
        self.load_wallet(wallet_id)
    }

    /// Read a wallet's internal balance for an asset (0 if none recorded).
    pub fn balance(&self, wallet_id: u64, asset: Address) -> (r: i128)
        ensures
            r == self@.balance_of(wallet_id, asset),
    {
        match self.balances.get(&(wallet_id, asset)) {
            Some(b) => *b,
            None => 0,
        }
    }

    /// Read the configured minimum reserve ratio for a wallet and asset in basis
    /// points (0 when no reserve requirement is set).
    pub fn reserve_ratio(&self, wallet_id: u64, asset: Address) -> (r: u32)
        ensures
            r == self@.ratio_of(wallet_id, asset),
    {
        match self.min_reserve.get(&(wallet_id, asset)) {
            Some(bps) => *bps,
            None => 0,
        }
    }

    /// Whether the contract-wide circuit breaker is currently tripped.
    pub fn is_paused(&self) -> (r: bool)
        ensures
            r == self@.paused,
    {
        self.paused
    }

    /// The address currently designated as emergency guardian.
    pub fn get_guardian(&self) -> (r: Result<Address, Error>)
        ensures
            r == (match self@.guardian {
                Some(g) => Ok::<Address, Error>(g),
                None => Err(Error::NotInitialized),
            }),
    {
        match self.guardian {
            Some(g) => Ok(g),
            None => Err(Error::NotInitialized),
        }
    }
}

// --- laws ---

/// A wallet never spends more than it holds, whoever spends and in whatever way,
/// and spending touches no other balance.
pub proof fn wallets_spend_what_they_hold(
    s: WalletView,
    caller: Address,
    id: u64,
    asset: Address,
    amount: i128,
    required: Role,
    other: (u64, Address),
)
    requires
        s.spend_outcome(caller, id, asset, amount, required) is Ok || s.dispatch_spend(
            id,
            asset,
            amount,
        ) is Ok,
    ensures
        ({
            let t = s.with_balance(id, asset, s.balance_of(id, asset) - amount);
            &&& 0 <= t.balance_of(id, asset) == s.balance_of(id, asset) - amount
            &&& other != (id, asset) ==> t.balance_of(other.0, other.1) == s.balance_of(
                other.0,
                other.1,
            )
        }),
{
}

/// Depositing an amount and then spending it restores the balance.
pub proof fn deposit_then_spend_restores_the_balance(
    s: WalletView,
    id: u64,
    asset: Address,
    amount: i128,
)
    requires
        s.deposit_outcome(id, asset, amount) is Ok,
    ensures
        ({
            let t = s.with_balance(id, asset, s.balance_of(id, asset) + amount);
            t.with_balance(id, asset, t.balance_of(id, asset) - amount).balance_of(id, asset)
                == s.balance_of(id, asset)
        }),
{
}

/// While the breaker is tripped no value leaves any wallet by transfer or
/// withdrawal, whoever calls.
pub proof fn breaker_stops_spending(
    s: WalletView,
    caller: Address,
    id: u64,
    asset: Address,
    amount: i128,
    required: Role,
)
    requires
        s.paused,
    ensures
        s.spend_outcome(caller, id, asset, amount, required) is Err,
        amount > 0 ==> s.spend_outcome(caller, id, asset, amount, required) == Err::<(), Error>(
            Error::WalletPaused,
        ),
{
}

/// Whoever may reset the breaker may also trip it; a guardian that is not the
/// admin may only trip it.
pub proof fn breaker_authority_is_asymmetric(s: WalletView, caller: Address)
    ensures
        s.admin_check(caller) is Ok ==> s.guardian_check(caller) is Ok,
        s.guardian_check(caller) is Ok && s.admin != Some(caller) ==> s.admin_check(caller) is Err,
{
}

/// A transfer or withdrawal leaves the configured share of the balance behind.
pub proof fn reserve_stays_behind(
    s: WalletView,
    caller: Address,
    id: u64,
    asset: Address,
    amount: i128,
    required: Role,
)
    requires
        s.wf(),
        s.spend_outcome(caller, id, asset, amount, required) is Ok,
    ensures
        (s.balance_of(id, asset) - amount) * BPS_TOTAL >= s.balance_of(id, asset) * s.ratio_of(
            id,
            asset,
        ),
{
    if s.ratio_of(id, asset) == 0 {
        assert(s.balance_of(id, asset) * s.ratio_of(id, asset) == 0) by (nonlinear_arith)
            requires
                s.ratio_of(id, asset) == 0,
        ;
    }
}

/// Only an active wallet moves value out, and an archived one never changes
/// state again.
pub proof fn only_active_wallets_spend(
    s: WalletView,
    caller: Address,
    id: u64,
    asset: Address,
    amount: i128,
    required: Role,
    action: WalletAction,
)
    requires
        s.wallets.contains_key(id),
        s.wallets[id].state != ResourceState::Active,
    ensures
        s.spend_outcome(caller, id, asset, amount, required) is Err,
        s.dispatch_spend(id, asset, amount) is Err,
        s.wallets[id].state == ResourceState::Archived ==> s.dispatch_outcome(id, action) is Err
            && s.deposit_outcome(id, asset, amount) is Err,
{
}

/// The owner of a wallet passes every role guard on it.
pub proof fn owners_pass_every_guard(s: WalletView, id: u64, required: Role)
    requires
        s.wallets.contains_key(id),
    ensures
        s.role_check(id, s.wallets[id].owner, required) is Ok,
        s.role_or_admin_check(id, s.wallets[id].owner, required) is Ok,
{
}

/// What the first `n` wallets hold of an asset together.
pub open spec fn total_balance(s: WalletView, asset: Address, n: nat) -> int
    decreases n,
{
    if n == 0 {
        0
    } else {
        total_balance(s, asset, (n - 1) as nat) + s.balance_of(n as u64, asset)
    }
}

/// What all wallets hold of an asset together.
pub open spec fn all_balances(s: WalletView, asset: Address) -> int {
    match s.wallet_count {
        Some(count) => total_balance(s, asset, count as nat),
        None => 0,
    }
}

/// The balances of all wallets together claim no more than the contract holds in
/// custody.
pub open spec fn covered(s: WalletView, e: EnvView) -> bool {
    forall|asset: Address| #[trigger] all_balances(s, asset) <= e.holds(asset)
}

proof fn lemma_total_update(s: WalletView, id: u64, asset: Address, balance: i128, n: nat)
    requires
        1 <= id,
        n <= u64::MAX,
    ensures
        ({
            let t = s.with_balance(id, asset, balance as int);
            &&& total_balance(t, asset, n) == total_balance(s, asset, n) + (if id <= n {
                balance - s.balance_of(id, asset)
            } else {
                0
            })
            &&& forall|other: Address|
                other != asset ==> #[trigger] total_balance(t, other, n) == total_balance(
                    s,
                    other,
                    n,
                )
        }),
    decreases n,
{
    if n > 0 {
        lemma_total_update(s, id, asset, balance, (n - 1) as nat);
        let t = s.with_balance(id, asset, balance as int);
        assert forall|other: Address| other != asset implies #[trigger] total_balance(t, other, n)
            == total_balance(s, other, n) by {
            assert(total_balance(t, other, (n - 1) as nat) == total_balance(
                s,
                other,
                (n - 1) as nat,
            ));
        }
    }
}

/// A deposit from outside keeps all balances covered.
pub proof fn deposits_are_covered(
    s: WalletView,
    e: EnvView,
    id: u64,
    from: Address,
    asset: Address,
    amount: i128,
)
    requires
        s.wf(),
        covered(s, e),
        s.deposit_outcome(id, asset, amount) is Ok,
        from != e.contract,
    ensures
        covered(
            s.with_balance(id, asset, s.balance_of(id, asset) + amount),
            e.auth(from).transfer(asset, from, e.contract, amount).emit(
                Event::WalletDeposited { wallet_id: id, asset, amount },
            ),
        ),
{
    broadcast use lemma_holds;

    let balance = (s.balance_of(id, asset) + amount) as i128;
    let t = s.with_balance(id, asset, balance as int);
    let n = s.wallet_count->0 as nat;
    lemma_total_update(s, id, asset, balance, n);
    assert forall|other: Address| #[trigger] all_balances(t, other) <= e.auth(from).transfer(
        asset,
        from,
        e.contract,
        amount,
    ).emit(Event::WalletDeposited { wallet_id: id, asset, amount }).holds(other) by {
        assert(all_balances(s, other) <= e.holds(other));
        assert(total_balance(t, other, n) == all_balances(t, other));
    }
}

/// Paying out of a wallet keeps all balances covered, whoever is paid and
/// whatever event follows.
pub proof fn payments_are_covered(
    s: WalletView,
    e: EnvView,
    id: u64,
    to: Address,
    asset: Address,
    amount: i128,
    event: Event,
)
    requires
        s.wf(),
        covered(s, e),
        s.dispatch_spend(id, asset, amount) is Ok,
    ensures
        covered(
            s.with_balance(id, asset, s.balance_of(id, asset) - amount),
            e.transfer(asset, e.contract, to, amount).emit(event),
        ),
{
    broadcast use lemma_holds;

    let balance = (s.balance_of(id, asset) - amount) as i128;
    let t = s.with_balance(id, asset, balance as int);
    let n = s.wallet_count->0 as nat;
    lemma_total_update(s, id, asset, balance, n);
    assert forall|other: Address| #[trigger] all_balances(t, other) <= e.transfer(
        asset,
        e.contract,
        to,
        amount,
    ).emit(event).holds(other) by {
        assert(all_balances(s, other) <= e.holds(other));
        assert(total_balance(t, other, n) == all_balances(t, other));
    }
}

/// Whatever a caller with a role may spend, a dispatch may spend too, and so what
/// holds of payments holds of transfers and withdrawals.
pub proof fn role_spends_are_payments(
    s: WalletView,
    e: EnvView,
    caller: Address,
    id: u64,
    asset: Address,
    amount: i128,
    required: Role,
)
    requires
        s.spend_outcome(caller, id, asset, amount, required) is Ok,
        covered(s, e),
    ensures
        s.dispatch_spend(id, asset, amount) is Ok,
        covered(s, e.auth(caller)),
{
    broadcast use lemma_holds;

    assert forall|other: Address| #[trigger] all_balances(s, other) <= e.auth(caller).holds(
        other,
    ) by {
        assert(all_balances(s, other) <= e.holds(other));
    }
}

/// A new wallet starts without any balance, so that opening one keeps all
/// balances covered.
pub proof fn new_wallets_are_covered(s: WalletView, e: EnvView, owner: Address)
    requires
        s.wf(),
        covered(s, e),
        s.wallet_count is Some,
        s.wallet_count->0 < u64::MAX,
    ensures
        ({
            let id = (s.wallet_count->0 + 1) as u64;
            let t = WalletView {
                wallet_count: Some(id),
                wallets: s.wallets.insert(id, WalletData { owner, state: ResourceState::Active }),
                ..s
            };
            forall|asset: Address| #[trigger] all_balances(t, asset) == all_balances(s, asset)
        }),
{
    let n = s.wallet_count->0 as nat;
    let id = (n + 1) as u64;
    let t = WalletView {
        wallet_count: Some(id),
        wallets: s.wallets.insert(id, WalletData { owner, state: ResourceState::Active }),
        ..s
    };
    assert forall|asset: Address| #[trigger] all_balances(t, asset) == all_balances(s, asset) by {
        lemma_total_same(s, t, asset, n);
        assert(s.balance_of(id, asset) == 0);
        assert(total_balance(t, asset, n + 1) == total_balance(t, asset, n) + t.balance_of(
            id,
            asset,
        ));
    }
}

proof fn lemma_total_same(s: WalletView, t: WalletView, asset: Address, n: nat)
    requires
        s.balances == t.balances,
    ensures
        total_balance(s, asset, n) == total_balance(t, asset, n),
    decreases n,
{
    if n > 0 {
        lemma_total_same(s, t, asset, (n - 1) as nat);
    }
}

/// A caller passes a guard for admins exactly as the owner or an admin of the
/// wallet, and a guard for agents as an agent too; an auditor passes neither.
pub proof fn guards_admit_the_privileged(s: WalletView, id: u64, caller: Address)
    requires
        s.wallets.contains_key(id),
    ensures
        ({
            let owner = s.wallets[id].owner == caller;
            let admin = s.roles.contains_key((id, caller)) && s.roles[(id, caller)] == Role::Admin;
            let agent = s.roles.contains_key((id, caller)) && s.roles[(id, caller)] == Role::Agent;
            &&& s.role_check(id, caller, Role::Admin) is Ok <==> owner || admin
            &&& s.role_check(id, caller, Role::Agent) is Ok <==> owner || admin || agent
            &&& s.role_or_admin_check(id, caller, Role::Agent) is Ok <==> owner || admin || agent
                || s.admin == Some(caller)
            &&& s.owner_check(id, caller) is Ok <==> owner
        }),
{
}

/// Who may send a positive amount out of a wallet, and when: its owner, its
/// admins and its agents to anyone, its owner and its admins to the owner; while
/// the breaker is not tripped and the wallet is active, up to its balance, of
/// which the reserve stays behind.
pub proof fn spending_is_for_the_privileged(
    s: WalletView,
    caller: Address,
    id: u64,
    asset: Address,
    amount: i128,
)
    requires
        s.wf(),
        s.wallets.contains_key(id),
        s.balances.contains_key((id, asset)),
        s.balances[(id, asset)] * 10_000 <= i128::MAX,
    ensures
        ({
            let balance = s.balances[(id, asset)];
            let owner = s.wallets[id].owner == caller;
            let role = s.roles[(id, caller)];
            let admin = s.roles.contains_key((id, caller)) && role == Role::Admin;
            let agent = s.roles.contains_key((id, caller)) && role == Role::Agent;
            let can = amount > 0 && !s.paused && s.wallets[id].state == ResourceState::Active
                && amount <= balance && (s.min_reserve.contains_key((id, asset)) ==> (balance
                - amount) * 10_000 >= balance * s.min_reserve[(id, asset)]);
            &&& s.transfer_outcome(caller, id, asset, amount) is Ok <==> can && (owner || admin
                || agent)
            &&& s.withdraw_outcome(caller, id, asset, amount) is Ok <==> can && (owner || admin)
        }),
{
    let balance = s.balances[(id, asset)] as int;
    let ratio = s.ratio_of(id, asset) as int;
    assert(0 <= balance * ratio <= balance * 10_000) by (nonlinear_arith)
        requires
            0 <= balance,
            0 <= ratio <= 10_000,
    ;
}

/// Nothing can be spent of what a wallet does not have.
pub proof fn empty_wallets_spend_nothing(
    s: WalletView,
    caller: Address,
    id: u64,
    asset: Address,
    amount: i128,
)
    requires
        !s.balances.contains_key((id, asset)) || !s.wallets.contains_key(id),
    ensures
        s.transfer_outcome(caller, id, asset, amount) is Err,
        s.withdraw_outcome(caller, id, asset, amount) is Err,
        s.dispatch_spend(id, asset, amount) is Err,
{
}

/// A payment takes exactly its amount from the one balance, and moves it once,
/// out of custody: a transfer to whom it names, a withdrawal to the owner. The
/// caller has to authorize it.
pub proof fn payments_move_what_they_take(
    s: WalletView,
    e: EnvView,
    caller: Address,
    id: u64,
    to: Address,
    asset: Address,
    amount: i128,
    other: (u64, Address),
)
    requires
        s.wf(),
        s.balances.contains_key((id, asset)),
        0 < amount <= s.balances[(id, asset)],
    ensures
        ({
            let t = s.paid(id, asset, amount);
            let transfer = s.transfer_env(e, caller, id, to, asset, amount).log;
            let withdrawal = s.withdraw_env(e, caller, id, asset, amount).log;
            let n = e.log.len() as int;
            &&& t.balances.contains_key((id, asset))
            &&& t.balances[(id, asset)] == s.balances[(id, asset)] - amount
            &&& other != (id, asset) ==> (t.balances.contains_key(other)
                <==> s.balances.contains_key(other)) && t.balances[other] == s.balances[other]
            &&& t.wallets == s.wallets && t.roles == s.roles && t.paused == s.paused
            &&& t.min_reserve == s.min_reserve && t.admin == s.admin
            &&& transfer.len() == n + 3 && withdrawal.len() == n + 3
            &&& transfer.take(n) == e.log && withdrawal.take(n) == e.log
            &&& transfer[n] == Effect::RequireAuth(caller)
            &&& withdrawal[n] == Effect::RequireAuth(caller)
            &&& transfer[n + 1] == (Effect::Transfer { asset, from: e.contract, to, amount })
            &&& withdrawal[n + 1] == (Effect::Transfer {
                asset,
                from: e.contract,
                to: s.wallets[id].owner,
                amount,
            })
            &&& transfer[n + 2] is Publish && withdrawal[n + 2] is Publish
        }),
{
    let n = e.log.len() as int;
    assert(s.transfer_env(e, caller, id, to, asset, amount).log.take(n) =~= e.log);
    assert(s.withdraw_env(e, caller, id, asset, amount).log.take(n) =~= e.log);
}

/// Any wallet but an archived one takes any positive deposit, from whoever
/// authorizes it; the balance rises by it.
pub proof fn deposits_raise_the_balance(
    s: WalletView,
    e: EnvView,
    id: u64,
    from: Address,
    asset: Address,
    amount: i128,
    other: (u64, Address),
)
    requires
        s.wf(),
    ensures
        ({
            let balance = if s.balances.contains_key((id, asset)) {
                s.balances[(id, asset)] as int
            } else {
                0
            };
            let t = s.deposited(id, asset, amount);
            let log = s.deposit_env(e, id, from, asset, amount).log;
            let n = e.log.len() as int;
            &&& s.deposit_outcome(id, asset, amount) is Ok <==> {
                &&& amount > 0
                &&& s.wallets.contains_key(id)
                &&& s.wallets[id].state != ResourceState::Archived
                &&& balance + amount <= i128::MAX
            }
            &&& s.deposit_outcome(id, asset, amount) is Ok ==> {
                &&& t.balances.contains_key((id, asset))
                &&& t.balances[(id, asset)] == balance + amount
                &&& other != (id, asset) ==> (t.balances.contains_key(other)
                    <==> s.balances.contains_key(other)) && t.balances[other] == s.balances[other]
                &&& t.wallets == s.wallets && t.roles == s.roles && t.paused == s.paused
                &&& log.len() == n + 3
                &&& log[n] == Effect::RequireAuth(from)
                &&& log[n + 1] == (Effect::Transfer { asset, from, to: e.contract, amount })
            }
        }),
{
}

/// The lifecycle of a wallet: anything but an archived one can be frozen, only a
/// frozen one unfrozen, only an active one paused, only a paused one unpaused;
/// agents and the contract's admin freeze and unfreeze, admins of the wallet
/// pause and unpause.
pub proof fn lifecycles_follow_their_order(
    s: WalletView,
    id: u64,
    permitted: Result<(), Error>,
)
    requires
        s.wallets.contains_key(id),
    ensures
        ({
            let state = s.wallets[id].state;
            &&& permitted is Err ==> forall|a: WalletAction| #[trigger]
                s.lifecycle_outcome(permitted, id, a) == permitted
            &&& permitted is Ok ==> {
                &&& s.lifecycle_outcome(permitted, id, WalletAction::Freeze) is Ok <==> state
                    != ResourceState::Archived
                &&& s.lifecycle_outcome(permitted, id, WalletAction::Unfreeze) is Ok <==> state
                    == ResourceState::Frozen
                &&& s.lifecycle_outcome(permitted, id, WalletAction::Pause) is Ok <==> state
                    == ResourceState::Active
                &&& s.lifecycle_outcome(permitted, id, WalletAction::Unpause) is Ok <==> state
                    == ResourceState::Paused
            }
            &&& next_state(WalletAction::Freeze, state) is Ok ==> next_state(
                WalletAction::Freeze,
                state,
            )->Ok_0 == ResourceState::Frozen
            &&& next_state(WalletAction::Unfreeze, state) is Ok ==> next_state(
                WalletAction::Unfreeze,
                state,
            )->Ok_0 == ResourceState::Active
            &&& next_state(WalletAction::Pause, state) is Ok ==> next_state(
                WalletAction::Pause,
                state,
            )->Ok_0 == ResourceState::Paused
            &&& next_state(WalletAction::Unpause, state) is Ok ==> next_state(
                WalletAction::Unpause,
                state,
            )->Ok_0 == ResourceState::Active
        }),
{
}

/// A change of state changes the state of that wallet and nothing else.
pub proof fn state_changes_are_local(s: WalletView, id: u64, state: ResourceState, other: u64)
    requires
        s.wallets.contains_key(id),
    ensures
        ({
            let t = s.with_state(id, state);
            &&& t.wallets.contains_key(id)
            &&& t.wallets[id].state == state && t.wallets[id].owner == s.wallets[id].owner
            &&& other != id ==> (t.wallets.contains_key(other) <==> s.wallets.contains_key(other))
                && t.wallets[other] == s.wallets[other]
            &&& t.balances == s.balances && t.roles == s.roles && t.min_reserve == s.min_reserve
            &&& t.paused == s.paused && t.admin == s.admin && t.guardian == s.guardian
        }),
{
}

/// Whoever owns a wallet, is the contract's admin or is listed by the registry
/// may dispatch on it, and nobody else.
pub proof fn dispatch_is_for_the_listed(
    s: WalletView,
    caller: Address,
    id: u64,
    lookups: Seq<Option<Address>>,
)
    requires
        s.wallets.contains_key(id),
        s.registry is Some,
        s.org is Some,
    ensures
        s.dispatch_check(caller, id, lookups) is Ok <==> {
            ||| s.wallets[id].owner == caller
            ||| s.admin == Some(caller)
            ||| exists|i: int| 0 <= i < lookups.len() && #[trigger] lookups[i] == Some(caller)
        },
{
}

/// A dispatched payment is a payment: of a positive amount that an active wallet
/// holds, taken from its balance and moved out of custody once, to whom it names
/// or to the owner.
pub proof fn dispatched_payments_are_payments(
    s: WalletView,
    e: EnvView,
    id: u64,
    to: Address,
    asset: Address,
    amount: i128,
)
    requires
        s.wf(),
        s.wallets.contains_key(id),
        s.balances.contains_key((id, asset)),
    ensures
        ({
            let transfer = WalletAction::Transfer(to, asset, amount);
            let withdrawal = WalletAction::Withdraw(asset, amount);
            let can = 0 < amount <= s.balances[(id, asset)] && s.wallets[id].state
                == ResourceState::Active;
            let n = e.log.len() as int;
            &&& s.dispatch_outcome(id, transfer) is Ok <==> can
            &&& s.dispatch_outcome(id, withdrawal) is Ok <==> can
            &&& can ==> {
                &&& s.dispatched(id, transfer) == s.paid(id, asset, amount)
                &&& s.dispatched(id, withdrawal) == s.paid(id, asset, amount)
                &&& s.dispatched_env(e, id, transfer).log[n] == (Effect::Transfer {
                    asset,
                    from: e.contract,
                    to,
                    amount,
                })
                &&& s.dispatched_env(e, id, withdrawal).log[n] == (Effect::Transfer {
                    asset,
                    from: e.contract,
                    to: s.wallets[id].owner,
                    amount,
                })
            }
        }),
{
}

/// Guardian and admin trip the breaker, the admin alone resets it.
pub proof fn breaker_is_for_guardian_and_admin(s: WalletView, caller: Address)
    ensures
        s.guardian_check(caller) is Ok <==> s.admin == Some(caller) || (s.admin is Some
            && s.guardian == Some(caller)),
        s.admin_check(caller) is Ok <==> s.admin == Some(caller),
{
}

/// Every kind of module may dispatch but wallets and organizations.
pub proof fn modules_may_dispatch(kind: ModuleKind)
    ensures
        dispatch_kinds().contains(kind) <==> kind != ModuleKind::Wallet && kind
            != ModuleKind::Organization,
        dispatch_kinds().no_duplicates(),
{
    let k = dispatch_kinds();
    assert(k[0] == ModuleKind::Multisig && k[1] == ModuleKind::Treasury && k[2]
        == ModuleKind::Policy && k[3] == ModuleKind::Budget && k[4] == ModuleKind::Proposal && k[5]
        == ModuleKind::Escrow);
}

/// A refused payment moves nothing: at most the caller's authorization is asked
/// for, and the reserve that stood in the way is reported.
pub proof fn refused_payments_move_nothing(
    s: WalletView,
    e: EnvView,
    caller: Address,
    id: u64,
    asset: Address,
    amount: i128,
    required: Role,
)
    ensures
        ({
            let log = s.refused(e, caller, id, asset, amount, required).log;
            let r = s.spend_outcome(caller, id, asset, amount, required);
            &&& amount <= 0 || s.paused ==> log == e.log
            &&& amount > 0 && !s.paused && r != Err::<(), Error>(Error::ReserveViolation) ==> log
                == e.log.push(Effect::RequireAuth(caller))
            &&& amount > 0 && !s.paused && r == Err::<(), Error>(Error::ReserveViolation) ==> log
                == e.log.push(Effect::RequireAuth(caller)).push(
                Effect::Publish(
                    Event::ReserveFailed {
                        wallet_id: id,
                        asset,
                        amount,
                        ratio_bps: s.min_reserve[(id, asset)],
                    },
                ),
            )
        }),
{
}

/// A wallet holds what was recorded of an asset and otherwise nothing, and keeps
/// back the ratio that was set and otherwise nothing.
pub proof fn balances_start_at_zero(s: WalletView, id: u64, asset: Address)
    ensures
        s.balances.contains_key((id, asset)) ==> s.balance_of(id, asset) == s.balances[(id, asset)],
        !s.balances.contains_key((id, asset)) ==> s.balance_of(id, asset) == 0,
        s.min_reserve.contains_key((id, asset)) ==> s.ratio_of(id, asset) == s.min_reserve[(
            id,
            asset,
        )],
        !s.min_reserve.contains_key((id, asset)) ==> s.ratio_of(id, asset) == 0,
{
}

} // verus!
