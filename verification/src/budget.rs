//! # Budget contract
//!
//! Enforces spending limits. Every spend calls [`BudgetContract::consume`],
//! which debits the remaining allocation and fails with
//! [`Error::BudgetExceeded`] when a spend would push spending past the limit.
//! Budgets support recurring windows (daily, weekly, monthly or of any custom
//! length), optional rollover of the unspent allowance into the next period up
//! to a cap, optional carrying forward of a deficit, an expiration timestamp,
//! freezing, archiving and moving allocation between two budgets. Windows stay
//! anchored to their period boundaries, and all periods that have gone by are
//! settled at once.
//!
//! Budgets are keyed by a string id and are scoped to an owner address which
//! authorizes consumption and administration.
use crate::constants::{SECONDS_PER_DAY, SECONDS_PER_MONTH, SECONDS_PER_WEEK};
use crate::errors::Error;
use crate::events::{budget_exceeded, publish, ContractEvent, Event};
use crate::host::{CallEnv, Effect, EnvView};
use crate::math::{checked_add, checked_sub, in_range};
use crate::table::Table;
use crate::types::{Address, ResourceState};
use crate::validation::{
    check, require_non_empty, require_non_negative_amount, require_positive_amount,
};
use vstd::prelude::*;

verus! {

/// Reset period for a recurring budget.
#[derive(Clone, Copy, Debug, PartialEq, Eq, Structural)]
pub enum Period {
    /// One-shot: no auto-reset.
    OneOff,
    Daily,
    Weekly,
    Monthly,
    /// Every `period_seconds`.
    Custom,
}

/// Stored budget record.
#[derive(Clone, Copy, Debug, PartialEq, Eq, Structural)]
pub struct Budget {
    pub owner: Address,
    pub limit: i128,
    pub spent: i128,
    pub period: Period,
    /// The length of a custom period.
    pub period_seconds: u64,
    /// Start of the current window (unix seconds). Used for auto-reset.
    pub window_start: u64,
    /// Whether unspent allowance carries into the next period.
    pub rollover_enabled: bool,
    /// Accumulated unspent allowance carried from prior periods.
    pub rollover_credit: i128,
    /// Ceiling of the accumulated unspent allowance (0 = none).
    pub rollover_cap: i128,
    /// Whether spending may exceed the capacity of a period, at the expense of
    /// the next.
    pub allow_deficit: bool,
    /// Overspending of prior periods, still to be made up for.
    pub deficit_amount: i128,
    /// Timestamp from which the budget is expired (0 = never expires).
    pub expires_at: u64,
    pub state: ResourceState,
}

/// Per-asset budget tracking.
#[derive(Clone, Copy, Debug, PartialEq, Eq, Structural)]
pub struct AssetBudget {
    pub limit: i128,
    pub spent: i128,
    pub window_start: u64,
    /// The length of the window (0 = never resets).
    pub window_seconds: u64,
}

// --- windows ---

/// How many whole windows lie between two times.
pub open spec fn windows_between(start: u64, now: u64, window: u64) -> int {
    if window == 0 || now < start {
        0
    } else {
        (now - start) / (window as int)
    }
}

fn count_windows(start: u64, now: u64, window: u64) -> (r: u64)
    ensures
        r == windows_between(start, now, window),
        r > 0 ==> start + r * window <= now,
{
    if window == 0 || now < start {
        return 0;
    }
    let n: u64 = (now - start) / window;
    proof {
        vstd::arithmetic::div_mod::lemma_fundamental_div_mod((now - start) as int, window as int);
        assert(n * window == window * n) by (nonlinear_arith);
    }
    n
}

/// The smaller of a number and a ceiling, if there is one.
pub open spec fn capped(x: int, ceiling: Option<i128>) -> int {
    match ceiling {
        Some(c) => if x > c {
            c as int
        } else {
            x
        },
        None => x,
    }
}

/// `leftover` plus `idle` times `limit`, up to a ceiling; `None` where it does
/// not fit, which a ceiling prevents.
fn accrue(leftover: i128, idle: u64, limit: i128, ceiling: Option<i128>) -> (r: Option<i128>)
    requires
        limit >= 0,
        leftover > i128::MIN,
        ceiling is Some ==> ceiling->0 >= 0,
    ensures
        ({
            let sum = capped(leftover + idle * limit, ceiling);
            match r {
                Some(v) => v == sum && v > i128::MIN,
                None => ceiling is None && sum > i128::MAX,
            }
        }),
{
    let max: u128 = i128::MAX as u128;
    proof {
        assert(0 <= idle * limit) by (nonlinear_arith)
            requires
                limit >= 0,
        ;
    }
    if let Some(c) = ceiling {
        if leftover >= c {
            return Some(c);
        }
    }
    let added: u128 = match (idle as u128).checked_mul(limit as u128) {
        Some(p) => p,
        None => {
            return ceiling;
        },
    };
    let sum: i128;
    if leftover >= 0 {
        let room: u128 = max - leftover as u128;
        if added > room {
            return ceiling;
        }
        sum = leftover + added as i128;
    } else {
        let owed: u128 = (-leftover) as u128;
        if added >= owed {
            if added - owed > max {
                return ceiling;
            }
            sum = (added - owed) as i128;
        } else {
            sum = -((owed - added) as i128);
        }
    }
    match ceiling {
        Some(c) => if sum > c {
            Some(c)
        } else {
            Some(sum)
        },
        None => Some(sum),
    }
}

impl Budget {
    /// The length of the budget's window in seconds (0 = never resets).
    pub open spec fn window(self) -> u64 {
        match self.period {
            Period::OneOff => 0,
            Period::Daily => SECONDS_PER_DAY,
            Period::Weekly => SECONDS_PER_WEEK,
            Period::Monthly => SECONDS_PER_MONTH,
            Period::Custom => self.period_seconds,
        }
    }

    /// What may be spent in a period.
    pub open spec fn capacity(self) -> int {
        self.limit + self.rollover_credit - self.deficit_amount
    }

    /// What is left of the current period, negative where it is overspent.
    pub open spec fn leftover(self) -> int {
        self.capacity() - self.spent
    }

    /// How much unspent allowance may accumulate: nothing without rollover.
    pub open spec fn ceiling(self) -> Option<i128> {
        if !self.rollover_enabled {
            Some(0i128)
        } else if self.rollover_cap != 0 {
            Some(self.rollover_cap)
        } else {
            None
        }
    }

    /// What the current period leaves behind: what is left of it, or, where
    /// deficits are allowed, by how much it is overspent.
    pub open spec fn left_behind(self) -> int {
        if !self.allow_deficit && self.leftover() < 0 {
            0
        } else {
            self.leftover()
        }
    }

    /// The amount carried over after `n` periods, of which each after the first
    /// leaves a whole limit.
    pub open spec fn carried(self, n: int) -> int {
        capped(self.left_behind() + (n - 1) * self.limit, self.ceiling())
    }

    /// The budget after `n` periods were settled.
    pub open spec fn settled(self, n: int) -> Budget {
        let net = self.carried(n);
        Budget {
            spent: 0,
            rollover_credit: if net > 0 {
                net as i128
            } else {
                0
            },
            deficit_amount: if net < 0 {
                (-net) as i128
            } else {
                0
            },
            window_start: (self.window_start + n * self.window()) as u64,
            ..self
        }
    }

    /// The budget has expired.
    pub open spec fn expired(self, now: u64) -> bool {
        self.expires_at != 0 && now >= self.expires_at
    }

    /// The numbers of the budget are consistent.
    pub open spec fn valid(self) -> bool {
        &&& self.limit >= 0
        &&& self.spent >= 0
        &&& self.rollover_credit >= 0
        &&& self.rollover_cap >= 0
        &&& self.deficit_amount >= 0
        &&& self.rollover_credit == 0 || self.deficit_amount == 0
        &&& !self.rollover_enabled ==> self.rollover_credit == 0
        &&& self.rollover_cap != 0 ==> self.rollover_credit <= self.rollover_cap
        &&& self.period == Period::Custom ==> self.period_seconds > 0
        &&& self.allow_deficit ==> self.period != Period::OneOff
        &&& !self.allow_deficit ==> self.deficit_amount == 0
    }

    /// The budget with all periods settled that have gone by.
    pub open spec fn transition(self, now: u64) -> Result<Budget, Error> {
        let n = windows_between(self.window_start, now, self.window());
        if self.expired(now) {
            Err(Error::BudgetExpired)
        } else if n == 0 {
            Ok(self)
        } else if self.limit + self.rollover_credit > i128::MAX {
            Err(Error::Overflow)
        } else if self.leftover() <= i128::MIN {
            Err(Error::Underflow)
        } else if self.carried(n) > i128::MAX {
            Err(Error::Overflow)
        } else {
            Ok(self.settled(n))
        }
    }

    /// The environment after a transition whose events are published.
    pub open spec fn transition_env(self, e: EnvView, now: u64, budget_id: String) -> EnvView {
        let n = windows_between(self.window_start, now, self.window());
        if self.expired(now) {
            e.emit(Event::BudgetExpired { budget_id })
        } else if n == 0 || self.transition(now) is Err {
            e
        } else {
            let leftover = self.leftover() as i128;
            let action = if self.rollover_enabled {
                "rollover"
            } else {
                "reset"
            };
            let event = if self.rollover_enabled {
                Event::BudgetRolledOver { budget_id, leftover }
            } else {
                Event::BudgetWindowReset { budget_id, leftover }
            };
            e.emit(event).emit(
                Event::Contract(
                    ContractEvent::BudgetUpdated { budget_id, action, amount: leftover },
                ),
            )
        }
    }

    /// Whether the budget accepts spending.
    pub open spec fn active_check(self) -> Result<(), Error> {
        match self.state {
            ResourceState::Active => Ok(()),
            ResourceState::Frozen => Err(Error::InvalidState),
            ResourceState::Paused => Err(Error::InvalidState),
            ResourceState::Archived => Err(Error::BudgetArchived),
        }
    }

    /// Whether an amount may be spent on top of what is spent: up to the
    /// capacity, or past it where deficits are allowed and none is outstanding.
    pub open spec fn can_spend(self, amount: i128) -> bool {
        self.spent + amount <= self.capacity() || (self.allow_deficit && self.deficit_amount == 0)
    }
}

impl AssetBudget {
    /// The asset budget with all windows settled that have gone by.
    pub open spec fn settled(self, now: u64) -> AssetBudget {
        let n = windows_between(self.window_start, now, self.window_seconds);
        if n == 0 {
            self
        } else {
            AssetBudget {
                spent: 0,
                window_start: (self.window_start + n * self.window_seconds) as u64,
                ..self
            }
        }
    }
}

// --- the contract ---

/// The budget contract's storage.
pub struct BudgetContract {
    pub admin: Option<Address>,
    pub budgets: Table<String, Budget>,
    pub asset_budgets: Table<(String, Address), AssetBudget>,
}

/// The budget contract's storage as a value.
#[verifier::ext_equal]
pub struct BudgetView {
    pub admin: Option<Address>,
    pub budgets: Map<Seq<char>, Budget>,
    pub asset_budgets: Map<(Seq<char>, Address), AssetBudget>,
}

impl View for BudgetContract {
    type V = BudgetView;

    open spec fn view(&self) -> BudgetView {
        BudgetView {
            admin: self.admin,
            budgets: self.budgets@,
            asset_budgets: self.asset_budgets@,
        }
    }
}

impl BudgetView {
    /// Every record is consistent.
    pub open spec fn wf(self) -> bool {
        &&& forall|id: Seq<char>| #[trigger]
            self.budgets.contains_key(id) ==> self.budgets[id].valid()
        &&& forall|k: (Seq<char>, Address)| #[trigger]
            self.asset_budgets.contains_key(k) ==> 0 <= self.asset_budgets[k].spent
                <= self.asset_budgets[k].limit
    }

    /// The state after a budget's record changed.
    pub open spec fn with_budget(self, id: Seq<char>, b: Budget) -> BudgetView {
        BudgetView { budgets: self.budgets.insert(id, b), ..self }
    }

    /// What an owner-gated entry point answers.
    pub open spec fn owner_check(self, id: Seq<char>, caller: Address) -> Result<(), Error> {
        if !self.budgets.contains_key(id) {
            Err(Error::NotFound)
        } else {
            check(self.budgets[id].owner == caller, Error::Unauthorized)
        }
    }

    /// What allocating a budget returns.
    pub open spec fn allocate_outcome(
        self,
        id: Seq<char>,
        limit: i128,
        period: Period,
        allow_deficit: bool,
    ) -> Result<(), Error> {
        if id.len() == 0 {
            Err(Error::InvalidInput)
        } else if limit < 0 {
            Err(Error::InvalidAmount)
        } else if period == Period::Custom || (allow_deficit && period == Period::OneOff) {
            Err(Error::InvalidInput)
        } else {
            check(!self.budgets.contains_key(id), Error::AlreadyExists)
        }
    }

    /// An owner-gated check followed by a transition: the settled record.
    pub open spec fn owned_transition(self, now: u64, id: Seq<char>, caller: Address) -> Result<
        Budget,
        Error,
    > {
        if self.owner_check(id, caller) is Err {
            Err(self.owner_check(id, caller)->Err_0)
        } else {
            self.budgets[id].transition(now)
        }
    }

    /// The environment after an owner-gated transition.
    pub open spec fn owned_transition_env(
        self,
        e: EnvView,
        id: String,
        caller: Address,
    ) -> EnvView {
        let e1 = e.auth(caller);
        if self.owner_check(id@, caller) is Err {
            e1
        } else {
            self.budgets[id@].transition_env(e1, e.timestamp, id)
        }
    }

    /// What consuming returns: what is left.
    pub open spec fn consume_outcome(
        self,
        now: u64,
        id: Seq<char>,
        caller: Address,
        amount: i128,
    ) -> Result<i128, Error> {
        if amount <= 0 {
            Err(Error::InvalidAmount)
        } else if self.owner_check(id, caller) is Err {
            Err(self.owner_check(id, caller)->Err_0)
        } else if self.budgets[id].active_check() is Err {
            Err(self.budgets[id].active_check()->Err_0)
        } else if self.budgets[id].transition(now) is Err {
            Err(self.budgets[id].transition(now)->Err_0)
        } else {
            let b = self.budgets[id].transition(now)->Ok_0;
            if b.limit + b.rollover_credit > i128::MAX || b.spent + amount > i128::MAX {
                Err(Error::Overflow)
            } else if !b.can_spend(amount) {
                if b.leftover() < i128::MIN {
                    Err(Error::Underflow)
                } else {
                    Err(Error::BudgetExceeded)
                }
            } else if b.leftover() - amount < i128::MIN {
                Err(Error::Underflow)
            } else {
                Ok((b.leftover() - amount) as i128)
            }
        }
    }

    /// The state after an amount was consumed.
    pub open spec fn consumed(self, now: u64, id: Seq<char>, amount: i128) -> BudgetView {
        let b = self.budgets[id].transition(now)->Ok_0;
        self.with_budget(id, Budget { spent: (b.spent + amount) as i128, ..b })
    }

    /// What reading the remaining allocation returns.
    pub open spec fn remaining_outcome(self, now: u64, id: Seq<char>) -> Result<i128, Error> {
        if !self.budgets.contains_key(id) {
            Err(Error::NotFound)
        } else if self.budgets[id].transition(now) is Err {
            Ok(0)
        } else {
            let b = self.budgets[id].transition(now)->Ok_0;
            if b.limit + b.rollover_credit > i128::MAX {
                Err(Error::Overflow)
            } else if b.leftover() < i128::MIN {
                Err(Error::Underflow)
            } else {
                Ok(b.leftover() as i128)
            }
        }
    }

    /// What moving allocation between two budgets returns.
    pub open spec fn transfer_outcome(
        self,
        caller: Address,
        from: Seq<char>,
        to: Seq<char>,
        amount: i128,
    ) -> Result<(), Error> {
        if amount <= 0 {
            Err(Error::InvalidAmount)
        } else if from == to {
            Err(Error::InvalidInput)
        } else if self.owner_check(from, caller) is Err {
            self.owner_check(from, caller)
        } else if self.owner_check(to, caller) is Err {
            self.owner_check(to, caller)
        } else if self.budgets[from].active_check() is Err {
            self.budgets[from].active_check()
        } else if self.budgets[to].active_check() is Err {
            self.budgets[to].active_check()
        } else if amount > self.budgets[from].limit - self.budgets[from].spent {
            Err(Error::BudgetExceeded)
        } else {
            check(in_range(self.budgets[to].limit + amount), Error::Overflow)
        }
    }

    /// The state after moving allocation between two budgets.
    pub open spec fn transferred(self, from: Seq<char>, to: Seq<char>, amount: i128) -> BudgetView {
        let a = self.budgets[from];
        let b = self.budgets[to];
        self.with_budget(from, Budget { limit: (a.limit - amount) as i128, ..a }).with_budget(
            to,
            Budget { limit: (b.limit + amount) as i128, ..b },
        )
    }

    /// What setting a recurrence returns.
    pub open spec fn set_recurrence_outcome(
        self,
        now: u64,
        id: Seq<char>,
        caller: Address,
        period: Period,
        period_seconds: u64,
        rollover_cap: i128,
    ) -> Result<(), Error> {
        if period == Period::Custom && period_seconds == 0 {
            Err(Error::InvalidInput)
        } else if rollover_cap < 0 {
            Err(Error::InvalidAmount)
        } else if self.owner_check(id, caller) is Err {
            self.owner_check(id, caller)
        } else if self.budgets[id].allow_deficit && period == Period::OneOff {
            Err(Error::InvalidInput)
        } else {
            match self.budgets[id].transition(now) {
                Ok(_) => Ok(()),
                Err(e) => Err(e),
            }
        }
    }

    /// What recording a spend of one token returns.
    pub open spec fn spend_outcome(
        self,
        now: u64,
        id: Seq<char>,
        caller: Address,
        token: Address,
        amount: i128,
    ) -> Result<(), Error> {
        if amount <= 0 {
            Err(Error::InvalidAmount)
        } else if self.owner_check(id, caller) is Err {
            self.owner_check(id, caller)
        } else if self.budgets[id].active_check() is Err {
            self.budgets[id].active_check()
        } else if !self.asset_budgets.contains_key((id, token)) {
            Err(Error::AssetNotAuthorized)
        } else {
            let a = self.asset_budgets[(id, token)].settled(now);
            if a.spent + amount > i128::MAX {
                Err(Error::Overflow)
            } else {
                check(a.spent + amount <= a.limit, Error::BudgetExceeded)
            }
        }
    }

    /// The state after a spend of one token was recorded.
    pub open spec fn token_spent(
        self,
        now: u64,
        id: Seq<char>,
        token: Address,
        amount: i128,
    ) -> BudgetView {
        let a = self.asset_budgets[(id, token)].settled(now);
        BudgetView {
            asset_budgets: self.asset_budgets.insert(
                (id, token),
                AssetBudget { spent: (a.spent + amount) as i128, ..a },
            ),
            ..self
        }
    }
}

/// The record after its recurrence was changed.
pub open spec fn with_recurrence(
    b: Budget,
    now: u64,
    period: Period,
    period_seconds: u64,
    rollover_enabled: bool,
    rollover_cap: i128,
) -> Budget {
    Budget {
        period,
        period_seconds,
        rollover_enabled,
        rollover_cap,
        rollover_credit: if !rollover_enabled {
            0
        } else if rollover_cap != 0 && b.rollover_credit > rollover_cap {
            rollover_cap
        } else {
            b.rollover_credit
        },
        window_start: now,
        ..b
    }
}

impl BudgetContract {
    /// A contract with empty storage.
    pub fn new() -> (r: Self)
        ensures
            r@ == (BudgetView {
                admin: None,
                budgets: Map::empty(),
                asset_budgets: Map::empty(),
            }),
            r@.wf(),
    {
        BudgetContract { admin: None, budgets: Table::new(), asset_budgets: Table::new() }
    }

    /// Initialize with an admin (used only for protocol-level bookkeeping; all
    /// budget operations are owner-gated).
    pub fn initialize(&mut self, admin: Address) -> (r: Result<(), Error>)
        ensures
            r == check(old(self)@.admin is None, Error::AlreadyInitialized),
            r is Err ==> *final(self) == *old(self),
            r is Ok ==> final(self)@ == (BudgetView { admin: Some(admin), ..old(self)@ }),
            old(self)@.wf() ==> final(self)@.wf(),
    {
        if self.admin.is_some() {
            return Err(Error::AlreadyInitialized);
        }
        self.admin = Some(admin);
        Ok(())
    }

    /// Allocate (create) a budget with a spending `limit` and optional reset
    /// `period`. `owner` authorizes and becomes the budget's controller.
    /// `rollover_enabled` carries unspent allowance into the next period;
    /// `expires_at` (unix seconds, 0 = never) marks the budget expired after a
    /// given time, after which consumption is rejected.
    pub fn allocate(
        &mut self,
        env: &mut CallEnv,
        owner: Address,
        budget_id: String,
        limit: i128,
        period: Period,
        rollover_enabled: bool,
        expires_at: u64,
    ) -> (r: Result<(), Error>)
        ensures
            allocates(
                *old(self),
                *final(self),
                old(env)@,
                final(env)@,
                owner,
                budget_id,
                limit,
                period,
                rollover_enabled,
                false,
                expires_at,
                r,
            ),
    {
        self.allocate_with_deficit(
            env,
            owner,
            budget_id,
            limit,
            period,
            rollover_enabled,
            false,
            expires_at,
        )
    }

    /// Allocate a budget that may carry a deficit forward: spending may exceed a
    /// period's capacity, and the excess reduces the next period's. That takes a
    /// recurring period.
    pub fn allocate_with_deficit(
        &mut self,
        env: &mut CallEnv,
        owner: Address,
        budget_id: String,
        limit: i128,
        period: Period,
        rollover_enabled: bool,
        allow_deficit: bool,
        expires_at: u64,
    ) -> (r: Result<(), Error>)
        ensures
            allocates(
                *old(self),
                *final(self),
                old(env)@,
                final(env)@,
                owner,
                budget_id,
                limit,
                period,
                rollover_enabled,
                allow_deficit,
                expires_at,
                r,
            ),
    {
        env.require_auth(owner);
        require_non_empty(&budget_id)?;
        require_non_negative_amount(limit)?;
        if period == Period::Custom || (allow_deficit && period == Period::OneOff) {
            return Err(Error::InvalidInput);
        }
        if self.budgets.has(&budget_id) {
            return Err(Error::AlreadyExists);
        }
        let budget = Budget {
            owner,
            limit,
            spent: 0,
            period,
            period_seconds: 0,
            window_start: env.timestamp,
            rollover_enabled,
            rollover_credit: 0,
            rollover_cap: 0,
            allow_deficit,
            deficit_amount: 0,
            expires_at,
            state: ResourceState::Active,
        };
        self.budgets.set(budget_id.clone(), budget);
        env.publish(Event::BudgetAllocated { budget_id: budget_id.clone(), owner, limit });
        publish(env, ContractEvent::BudgetUpdated { budget_id, action: "allocated", amount: limit });
        Ok(())
    }

    fn require_owner(&self, env: &mut CallEnv, id: &String, caller: &Address) -> (r: Result<
        Budget,
        Error,
    >)
        ensures
            final(env)@ == old(env)@.auth(*caller),
            match r {
                Ok(b) => self@.owner_check(id@, *caller) is Ok && b == self@.budgets[id@],
                Err(e) => self@.owner_check(id@, *caller) == Err::<(), Error>(e),
            },
    {
        env.require_auth(*caller);
        let budget = match self.budgets.get(id) {
            Some(b) => *b,
            None => return Err(Error::NotFound),
        };
        if budget.owner != *caller {
            return Err(Error::Unauthorized);
        }
        Ok(budget)
    }

    fn require_active(budget: &Budget) -> (r: Result<(), Error>)
        ensures
            r == budget.active_check(),
    {
        match budget.state {
            ResourceState::Active => Ok(()),
            ResourceState::Frozen => Err(Error::InvalidState),
            ResourceState::Paused => Err(Error::InvalidState),
            ResourceState::Archived => Err(Error::BudgetArchived),
        }
    }

    /// Guard that rejects an expired budget.
    fn require_not_expired(env: &CallEnv, budget: &Budget) -> (r: Result<(), Error>)
        ensures
            r == check(!budget.expired(env@.timestamp), Error::BudgetExpired),
    {
        if budget.expires_at != 0 && env.timestamp >= budget.expires_at {
            return Err(Error::BudgetExpired);
        }
        Ok(())
    }

    fn window_length(budget: &Budget) -> (r: u64)
        ensures
            r == budget.window(),
    {
        match budget.period {
            Period::OneOff => 0,
            Period::Daily => SECONDS_PER_DAY,
            Period::Weekly => SECONDS_PER_WEEK,
            Period::Monthly => SECONDS_PER_MONTH,
            Period::Custom => budget.period_seconds,
        }
    }

    fn compute_capacity(budget: &Budget) -> (r: Result<i128, Error>)
        requires
            budget.valid(),
        ensures
            r == (if budget.limit + budget.rollover_credit > i128::MAX {
                Err::<i128, Error>(Error::Overflow)
            } else {
                Ok(budget.capacity() as i128)
            }),
            r is Ok ==> r->Ok_0 == budget.capacity(),
    {
        let total: i128 = checked_add(budget.limit, budget.rollover_credit)?;
        Ok(total - budget.deficit_amount)
    }

    /// Apply the pending period transition (auto-reset or rollover) and check
    /// expiration. All periods that have gone by are settled at once: the first
    /// leaves what is unspent of it (or a deficit), each later one a whole limit.
    /// With rollover, what is left is carried over up to the cap; without, only
    /// a deficit is. The window is re-anchored to the period boundary. With
    /// `publishing`, the matching events are published. Returns
    /// [`Error::BudgetExpired`] if the budget has expired.
    fn window_transition(
        env: &mut CallEnv,
        budget: &mut Budget,
        budget_id: &String,
        publishing: bool,
    ) -> (r: Result<(), Error>)
        requires
            old(budget).valid(),
        ensures
            match old(budget).transition(old(env)@.timestamp) {
                Ok(b) => r is Ok && *final(budget) == b && b.valid(),
                Err(e) => r == Err::<(), Error>(e) && *final(budget) == *old(budget),
            },
            final(env)@ == (if publishing {
                old(budget).transition_env(old(env)@, old(env)@.timestamp, *budget_id)
            } else {
                old(env)@
            }),
    {
        let now: u64 = env.timestamp;
        if let Err(e) = Self::require_not_expired(env, budget) {
            if publishing {
                env.publish(Event::BudgetExpired { budget_id: budget_id.clone() });
            }
            return Err(e);
        }
        let window: u64 = Self::window_length(budget);
        let elapsed: u64 = count_windows(budget.window_start, now, window);
        if elapsed == 0 {
            return Ok(());
        }
        let capacity: i128 = Self::compute_capacity(budget)?;
        let leftover: i128 = checked_sub(capacity, budget.spent)?;
        if leftover == i128::MIN {
            return Err(Error::Underflow);
        }
        let ceiling: Option<i128> = if !budget.rollover_enabled {
            Some(0)
        } else if budget.rollover_cap != 0 {
            Some(budget.rollover_cap)
        } else {
            None
        };
        let left_behind: i128 = if !budget.allow_deficit && leftover < 0 {
            0
        } else {
            leftover
        };
        let net: i128 = match accrue(left_behind, elapsed - 1, budget.limit, ceiling) {
            Some(v) => v,
            None => return Err(Error::Overflow),
        };
        proof {
            assert(0 <= (elapsed - 1) * budget.limit) by (nonlinear_arith)
                requires
                    elapsed >= 1,
                    budget.limit >= 0,
            ;
        }
        budget.rollover_credit = if net > 0 {
            net
        } else {
            0
        };
        budget.deficit_amount = if net < 0 {
            -net
        } else {
            0
        };
        budget.spent = 0;
        budget.window_start = budget.window_start + elapsed * window;
        if publishing {
            let action = if budget.rollover_enabled {
                "rollover"
            } else {
                "reset"
            };
            if budget.rollover_enabled {
                env.publish(Event::BudgetRolledOver { budget_id: budget_id.clone(), leftover });
            } else {
                env.publish(Event::BudgetWindowReset { budget_id: budget_id.clone(), leftover });
            }
            publish(
                env,
                ContractEvent::BudgetUpdated {
                    budget_id: budget_id.clone(),
                    action,
                    amount: leftover,
                },
            );
        }
        Ok(())
    }

    /// Reset the spent counter to zero (owner-gated), with what was carried over
    /// from earlier periods. Also refreshes the window. Rejects expired budgets.
    pub fn reset(&mut self, env: &mut CallEnv, caller: Address, budget_id: String) -> (r: Result<
        (),
        Error,
    >)
        requires
            old(self)@.wf(),
        ensures
            final(self)@.wf(),
            r == (if old(self)@.owner_check(budget_id@, caller) is Err {
                old(self)@.owner_check(budget_id@, caller)
            } else {
                check(
                    !old(self)@.budgets[budget_id@].expired(old(env)@.timestamp),
                    Error::BudgetExpired,
                )
            }),
            r is Err ==> *final(self) == *old(self) && final(env)@ == old(env)@.auth(caller),
            r is Ok ==> final(self)@ == old(self)@.with_budget(
                budget_id@,
                Budget {
                    spent: 0,
                    rollover_credit: 0,
                    deficit_amount: 0,
                    window_start: old(env)@.timestamp,
                    ..old(self)@.budgets[budget_id@]
                },
            ) && final(env)@ == old(env)@.auth(caller).emit(Event::BudgetReset { budget_id }),
    {
        let mut budget = self.require_owner(env, &budget_id, &caller)?;
        Self::require_not_expired(env, &budget)?;
        budget.spent = 0;
        budget.rollover_credit = 0;
        budget.deficit_amount = 0;
        budget.window_start = env.timestamp;
        self.budgets.set(budget_id.clone(), budget);
        env.publish(Event::BudgetReset { budget_id });
        Ok(())
    }

    /// Force a period transition for a budget (owner-gated). Rolls unspent
    /// allowance over into the next period when `rollover_enabled`, otherwise
    /// clears it. Rejects expired budgets.
    pub fn rollover(&mut self, env: &mut CallEnv, caller: Address, budget_id: String) -> (r: Result<
        (),
        Error,
    >)
        requires
            old(self)@.wf(),
        ensures
            final(self)@.wf(),
            final(env)@ == old(self)@.owned_transition_env(old(env)@, budget_id, caller),
            match old(self)@.owned_transition(old(env)@.timestamp, budget_id@, caller) {
                Ok(b) => r is Ok && final(self)@ == old(self)@.with_budget(budget_id@, b),
                Err(e) => r == Err::<(), Error>(e) && *final(self) == *old(self),
            },
    {
        let mut budget = self.require_owner(env, &budget_id, &caller)?;
        Self::window_transition(env, &mut budget, &budget_id, true)?;
        self.budgets.set(budget_id, budget);
        Ok(())
    }

    /// Change a budget's limit (owner-gated). The new limit must be at least the
    /// amount spent in the current window. Applies any pending period transition
    /// first.
    pub fn set_limit(
        &mut self,
        env: &mut CallEnv,
        caller: Address,
        budget_id: String,
        new_limit: i128,
    ) -> (r: Result<(), Error>)
        requires
            old(self)@.wf(),
        ensures
            final(self)@.wf(),
            ({
                let settled = old(self)@.owned_transition(
                    old(env)@.timestamp,
                    budget_id@,
                    caller,
                );
                let e1 = old(self)@.owned_transition_env(old(env)@, budget_id, caller);
                if new_limit < 0 {
                    &&& r == Err::<(), Error>(Error::InvalidAmount)
                    &&& *final(self) == *old(self)
                    &&& final(env)@ == old(env)@
                } else if settled is Err {
                    &&& r == Err::<(), Error>(settled->Err_0)
                    &&& *final(self) == *old(self)
                    &&& final(env)@ == e1
                } else if new_limit < settled->Ok_0.spent {
                    &&& r == Err::<(), Error>(Error::InvalidInput)
                    &&& *final(self) == *old(self)
                    &&& final(env)@ == e1
                } else {
                    &&& r is Ok
                    &&& final(self)@ == old(self)@.with_budget(
                        budget_id@,
                        Budget { limit: new_limit, ..settled->Ok_0 },
                    )
                    &&& final(env)@ == e1.emit(
                        Event::BudgetLimitSet { budget_id, limit: new_limit },
                    )
                }
            }),
    {
        require_non_negative_amount(new_limit)?;
        let mut budget = self.require_owner(env, &budget_id, &caller)?;
        Self::window_transition(env, &mut budget, &budget_id, true)?;
        if new_limit < budget.spent {
            return Err(Error::InvalidInput);
        }
        budget.limit = new_limit;
        self.budgets.set(budget_id.clone(), budget);
        env.publish(Event::BudgetLimitSet { budget_id, limit: new_limit });
        Ok(())
    }

    /// Change how a budget recurs (owner-gated). The periods owed under the old
    /// recurrence are settled first; the new one counts from now. Disabling
    /// rollover drops the accumulated credit, and a cap limits it (0 = no cap).
    pub fn set_recurrence(
        &mut self,
        env: &mut CallEnv,
        caller: Address,
        budget_id: String,
        period: Period,
        period_seconds: u64,
        rollover_enabled: bool,
        rollover_cap: i128,
    ) -> (r: Result<(), Error>)
        requires
            old(self)@.wf(),
        ensures
            final(self)@.wf(),
            r == old(self)@.set_recurrence_outcome(
                old(env)@.timestamp,
                budget_id@,
                caller,
                period,
                period_seconds,
                rollover_cap,
            ),
            r is Err ==> *final(self) == *old(self),
            r is Ok ==> final(self)@ == old(self)@.with_budget(
                budget_id@,
                with_recurrence(
                    old(self)@.budgets[budget_id@].transition(old(env)@.timestamp)->Ok_0,
                    old(env)@.timestamp,
                    period,
                    period_seconds,
                    rollover_enabled,
                    rollover_cap,
                ),
            ),
            final(env)@ == (if (period == Period::Custom && period_seconds == 0) || rollover_cap
                < 0 {
                old(env)@
            } else if old(self)@.owner_check(budget_id@, caller) is Ok
                && old(self)@.budgets[budget_id@].allow_deficit && period == Period::OneOff {
                old(env)@.auth(caller)
            } else {
                old(self)@.owned_transition_env(old(env)@, budget_id, caller)
            }),
    {
        if period == Period::Custom && period_seconds == 0 {
            return Err(Error::InvalidInput);
        }
        require_non_negative_amount(rollover_cap)?;
        let mut budget = self.require_owner(env, &budget_id, &caller)?;
        if budget.allow_deficit && period == Period::OneOff {
            return Err(Error::InvalidInput);
        }
        Self::window_transition(env, &mut budget, &budget_id, true)?;
        budget.period = period;
        budget.period_seconds = period_seconds;
        budget.rollover_enabled = rollover_enabled;
        budget.rollover_cap = rollover_cap;
        if !rollover_enabled {
            budget.rollover_credit = 0;
        } else if rollover_cap != 0 && budget.rollover_credit > rollover_cap {
            budget.rollover_credit = rollover_cap;
        }
        budget.window_start = env.timestamp;
        self.budgets.set(budget_id, budget);
        Ok(())
    }

    /// Freeze a budget (owner-gated). Frozen budgets reject consumption.
    pub fn freeze(&mut self, env: &mut CallEnv, caller: Address, budget_id: String) -> (r: Result<
        (),
        Error,
    >)
        requires
            old(self)@.wf(),
        ensures
            final(self)@.wf(),
            r == (if old(self)@.owner_check(budget_id@, caller) is Err {
                old(self)@.owner_check(budget_id@, caller)
            } else {
                check(
                    old(self)@.budgets[budget_id@].state != ResourceState::Archived,
                    Error::BudgetArchived,
                )
            }),
            r is Err ==> *final(self) == *old(self) && final(env)@ == old(env)@.auth(caller),
            r is Ok ==> final(self)@ == old(self)@.with_budget(
                budget_id@,
                Budget { state: ResourceState::Frozen, ..old(self)@.budgets[budget_id@] },
            ) && final(env)@ == old(env)@.auth(caller).emit(Event::BudgetFrozen { budget_id }),
    {
        let mut budget = self.require_owner(env, &budget_id, &caller)?;
        if budget.state == ResourceState::Archived {
            return Err(Error::BudgetArchived);
        }
        budget.state = ResourceState::Frozen;
        self.budgets.set(budget_id.clone(), budget);
        env.publish(Event::BudgetFrozen { budget_id });
        Ok(())
    }

    /// Unfreeze a budget back to active (owner-gated).
    pub fn unfreeze(&mut self, env: &mut CallEnv, caller: Address, budget_id: String) -> (r: Result<
        (),
        Error,
    >)
        requires
            old(self)@.wf(),
        ensures
            final(self)@.wf(),
            r == (if old(self)@.owner_check(budget_id@, caller) is Err {
                old(self)@.owner_check(budget_id@, caller)
            } else {
                check(
                    old(self)@.budgets[budget_id@].state == ResourceState::Frozen,
                    Error::InvalidState,
                )
            }),
            r is Err ==> *final(self) == *old(self) && final(env)@ == old(env)@.auth(caller),
            r is Ok ==> final(self)@ == old(self)@.with_budget(
                budget_id@,
                Budget { state: ResourceState::Active, ..old(self)@.budgets[budget_id@] },
            ) && final(env)@ == old(env)@.auth(caller).emit(Event::BudgetUnfrozen { budget_id }),
    {
        let mut budget = self.require_owner(env, &budget_id, &caller)?;
        if budget.state != ResourceState::Frozen {
            return Err(Error::InvalidState);
        }
        budget.state = ResourceState::Active;
        self.budgets.set(budget_id.clone(), budget);
        env.publish(Event::BudgetUnfrozen { budget_id });
        Ok(())
    }

    /// Archive a budget (owner-gated, terminal). Rejects further consumption.
    pub fn archive(&mut self, env: &mut CallEnv, caller: Address, budget_id: String) -> (r: Result<
        (),
        Error,
    >)
        requires
            old(self)@.wf(),
        ensures
            final(self)@.wf(),
            r == old(self)@.owner_check(budget_id@, caller),
            r is Err ==> *final(self) == *old(self) && final(env)@ == old(env)@.auth(caller),
            r is Ok ==> final(self)@ == old(self)@.with_budget(
                budget_id@,
                Budget { state: ResourceState::Archived, ..old(self)@.budgets[budget_id@] },
            ) && final(env)@ == old(env)@.auth(caller).emit(Event::BudgetArchived { budget_id }),
    {
        let mut budget = self.require_owner(env, &budget_id, &caller)?;
        budget.state = ResourceState::Archived;
        self.budgets.set(budget_id.clone(), budget);
        env.publish(Event::BudgetArchived { budget_id });
        Ok(())
    }

    /// Move unused allocation from one budget to another. Both must share the
    /// same owner, who authorizes. Reduces `from`'s limit and increases `to`'s.
    pub fn transfer_allocation(
        &mut self,
        env: &mut CallEnv,
        caller: Address,
        from_id: String,
        to_id: String,
        amount: i128,
    ) -> (r: Result<(), Error>)
        requires
            old(self)@.wf(),
        ensures
            final(self)@.wf(),
            r == old(self)@.transfer_outcome(caller, from_id@, to_id@, amount),
            r is Err ==> *final(self) == *old(self) && final(env)@ == (if amount <= 0 || from_id@
                == to_id@ {
                old(env)@
            } else {
                old(env)@.auth(caller)
            }),
            r is Ok ==> final(self)@ == old(self)@.transferred(from_id@, to_id@, amount)
                && final(env)@ == old(env)@.auth(caller).emit(
                Event::BudgetReallocated { from_id, to_id, amount },
            ),
    {
        require_positive_amount(amount)?;
        if from_id == to_id {
            return Err(Error::InvalidInput);
        }
        let mut from = self.require_owner(env, &from_id, &caller)?;
        // `to` must exist and share the owner; the caller already authorized.
        let mut to = match self.budgets.get(&to_id) {
            Some(b) => *b,
            None => return Err(Error::NotFound),
        };
        if to.owner != caller {
            return Err(Error::Unauthorized);
        }
        Self::require_active(&from)?;
        Self::require_active(&to)?;
        // Only the unspent portion of `from` may be reallocated.
        let available: i128 = from.limit - from.spent;
        if amount > available {
            return Err(Error::BudgetExceeded);
        }
        from.limit = from.limit - amount;
        to.limit = checked_add(to.limit, amount)?;
        self.budgets.set(from_id.clone(), from);
        self.budgets.set(to_id.clone(), to);
        env.publish(Event::BudgetReallocated { from_id, to_id, amount });
        Ok(())
    }

    /// Set the limit of a specific token (owner-gated), per window of
    /// `window_seconds` (0 = the limit never resets).
    pub fn set_budget_limit(
        &mut self,
        env: &mut CallEnv,
        caller: Address,
        budget_id: String,
        token: Address,
        limit: i128,
        window_seconds: u64,
    ) -> (r: Result<(), Error>)
        requires
            old(self)@.wf(),
        ensures
            final(self)@.wf(),
            r == (if old(self)@.owner_check(budget_id@, caller) is Err {
                old(self)@.owner_check(budget_id@, caller)
            } else if old(self)@.budgets[budget_id@].active_check() is Err {
                old(self)@.budgets[budget_id@].active_check()
            } else {
                check(limit >= 0, Error::InvalidAmount)
            }),
            r is Err ==> *final(self) == *old(self) && final(env)@ == old(env)@.auth(caller),
            r is Ok ==> final(self)@ == (BudgetView {
                asset_budgets: old(self)@.asset_budgets.insert(
                    (budget_id@, token),
                    AssetBudget {
                        limit,
                        spent: 0,
                        window_start: old(env)@.timestamp,
                        window_seconds,
                    },
                ),
                ..old(self)@
            }) && final(env)@ == old(env)@.auth(caller).emit(
                Event::AssetLimitSet { budget_id, token, limit },
            ),
    {
        let budget = self.require_owner(env, &budget_id, &caller)?;
        Self::require_active(&budget)?;
        require_non_negative_amount(limit)?;
        self.asset_budgets.set(
            (budget_id.clone(), token),
            AssetBudget { limit, spent: 0, window_start: env.timestamp, window_seconds },
        );
        env.publish(Event::AssetLimitSet { budget_id, token, limit });
        Ok(())
    }

    fn settle_asset(a: &AssetBudget, now: u64) -> (r: AssetBudget)
        ensures
            r == a.settled(now),
    {
        let elapsed: u64 = count_windows(a.window_start, now, a.window_seconds);
        if elapsed == 0 {
            return *a;
        }
        AssetBudget {
            limit: a.limit,
            spent: 0,
            window_start: a.window_start + elapsed * a.window_seconds,
            window_seconds: a.window_seconds,
        }
    }

    /// Check and record a spend of a specific token.
    pub fn check_and_record_spend(
        &mut self,
        env: &mut CallEnv,
        caller: Address,
        budget_id: String,
        token: Address,
        amount: i128,
    ) -> (r: Result<(), Error>)
        requires
            old(self)@.wf(),
        ensures
            final(self)@.wf(),
            r == old(self)@.spend_outcome(
                old(env)@.timestamp,
                budget_id@,
                caller,
                token,
                amount,
            ),
            r is Err ==> *final(self) == *old(self) && final(env)@ == (if amount <= 0 {
                old(env)@
            } else {
                old(env)@.auth(caller)
            }),
            r is Ok ==> {
                &&& final(self)@ == old(self)@.token_spent(
                    old(env)@.timestamp,
                    budget_id@,
                    token,
                    amount,
                )
                &&& final(env)@ == old(env)@.auth(caller).emit(
                    Event::AssetSpent { budget_id, token, amount },
                )
            },
    {
        require_positive_amount(amount)?;
        let budget = self.require_owner(env, &budget_id, &caller)?;
        Self::require_active(&budget)?;
        let key = (budget_id.clone(), token);
        let mut asset_budget = match self.asset_budgets.get(&key) {
            Some(a) => Self::settle_asset(a, env.timestamp),
            None => return Err(Error::AssetNotAuthorized),
        };
        let new_spent: i128 = checked_add(asset_budget.spent, amount)?;
        if new_spent > asset_budget.limit {
            return Err(Error::BudgetExceeded);
        }
        asset_budget.spent = new_spent;
        self.asset_budgets.set(key, asset_budget);
        env.publish(Event::AssetSpent { budget_id, token, amount });
        Ok(())
    }

    /// What is left of a token's limit. Windows that have gone by are settled.
    pub fn asset_remaining(&mut self, env: &CallEnv, budget_id: String, token: Address) -> (r:
        Result<i128, Error>)
        requires
            old(self)@.wf(),
        ensures
            final(self)@.wf(),
            ({
                let key = (budget_id@, token);
                if !old(self)@.asset_budgets.contains_key(key) {
                    &&& r == Err::<i128, Error>(Error::AssetNotAuthorized)
                    &&& *final(self) == *old(self)
                } else {
                    let a = old(self)@.asset_budgets[key].settled(env@.timestamp);
                    &&& r == Ok::<i128, Error>((a.limit - a.spent) as i128)
                    &&& final(self)@ == (BudgetView {
                        asset_budgets: old(self)@.asset_budgets.insert(key, a),
                        ..old(self)@
                    })
                }
            }),
    {
        let key = (budget_id, token);
        let a = match self.asset_budgets.get(&key) {
            Some(a) => Self::settle_asset(a, env.timestamp),
            None => return Err(Error::AssetNotAuthorized),
        };
        self.asset_budgets.set(key, a);
        Ok(a.limit - a.spent)
    }

    /// Debit `amount` from the budget and return what is left. Applies any
    /// pending period transition first, then enforces that spending stays within
    /// the limit plus the accumulated credit less an outstanding deficit, else
    /// [`Error::BudgetExceeded`]. A budget that allows deficits may be overspent
    /// while it has none outstanding; what is left is then negative.
    pub fn consume(
        &mut self,
        env: &mut CallEnv,
        caller: Address,
        budget_id: String,
        amount: i128,
    ) -> (r: Result<i128, Error>)
        requires
            old(self)@.wf(),
        ensures
            final(self)@.wf(),
            r == old(self)@.consume_outcome(old(env)@.timestamp, budget_id@, caller, amount),
            r is Err ==> *final(self) == *old(self),
            ({
                let now = old(env)@.timestamp;
                let b = old(self)@.budgets[budget_id@].transition(now)->Ok_0;
                let e1 = old(self)@.owned_transition_env(old(env)@, budget_id, caller);
                if amount <= 0 {
                    final(env)@ == old(env)@
                } else if old(self)@.owner_check(budget_id@, caller) is Err
                    || old(self)@.budgets[budget_id@].active_check() is Err {
                    final(env)@ == old(env)@.auth(caller)
                } else if r == Err::<i128, Error>(Error::BudgetExceeded) {
                    final(env)@ == e1.emit(
                        Event::BudgetExceeded {
                            budget_id,
                            requested: amount,
                            remaining: b.leftover() as i128,
                        },
                    )
                } else if r is Err {
                    final(env)@ == e1
                } else {
                    &&& final(self)@ == old(self)@.consumed(now, budget_id@, amount)
                    &&& final(env)@ == e1.emit(
                        Event::BudgetConsumed { budget_id, amount, remaining: r->Ok_0 },
                    ).emit(
                        Event::Contract(
                            ContractEvent::BudgetUpdated { budget_id, action: "consumed", amount },
                        ),
                    )
                }
            }),
    {
        require_positive_amount(amount)?;
        let mut budget = self.require_owner(env, &budget_id, &caller)?;
        Self::require_active(&budget)?;
        Self::window_transition(env, &mut budget, &budget_id, true)?;
        let capacity: i128 = Self::compute_capacity(&budget)?;
        let new_spent: i128 = checked_add(budget.spent, amount)?;
        if new_spent > capacity && !(budget.allow_deficit && budget.deficit_amount == 0) {
            let remaining: i128 = checked_sub(capacity, budget.spent)?;
            budget_exceeded(env, &budget_id, amount, remaining);
            return Err(Error::BudgetExceeded);
        }
        budget.spent = new_spent;
        let remaining: i128 = checked_sub(capacity, budget.spent)?;
        self.budgets.set(budget_id.clone(), budget);
        env.publish(Event::BudgetConsumed { budget_id: budget_id.clone(), amount, remaining });
        publish(env, ContractEvent::BudgetUpdated { budget_id, action: "consumed", amount });
        Ok(remaining)
    }

    /// Read the remaining allocation, accounting for a pending period
    /// transition. Publishes nothing, but persists the transition so that the
    /// rolled-over state is observable. An expired budget has nothing remaining.
    pub fn remaining(&mut self, env: &mut CallEnv, budget_id: String) -> (r: Result<i128, Error>)
        requires
            old(self)@.wf(),
        ensures
            final(self)@.wf(),
            final(env)@ == old(env)@,
            r == old(self)@.remaining_outcome(old(env)@.timestamp, budget_id@),
            final(self)@ == (if r is Ok && old(self)@.budgets[budget_id@].transition(
                old(env)@.timestamp,
            ) is Ok {
                old(self)@.with_budget(
                    budget_id@,
                    old(self)@.budgets[budget_id@].transition(old(env)@.timestamp)->Ok_0,
                )
            } else {
                old(self)@
            }),
    {
        let mut budget = match self.budgets.get(&budget_id) {
            Some(b) => *b,
            None => return Err(Error::NotFound),
        };
        if Self::window_transition(env, &mut budget, &budget_id, false).is_err() {
            return Ok(0);
        }
        let capacity: i128 = Self::compute_capacity(&budget)?;
        let left: i128 = checked_sub(capacity, budget.spent)?;
        self.budgets.set(budget_id, budget);
        Ok(left)
    }

    // --- views ---

    pub fn get(&self, budget_id: &String) -> (r: Result<Budget, Error>)
        ensures
            r == (if self@.budgets.contains_key(budget_id@) {
                Ok::<Budget, Error>(self@.budgets[budget_id@])
            } else {
                Err(Error::NotFound)
            }),
    {
        match self.budgets.get(budget_id) {
            Some(b) => Ok(*b),
            None => Err(Error::NotFound),
        }
    }

    pub fn get_asset_budget(&self, budget_id: &String, token: &Address) -> (r: Result<
        AssetBudget,
        Error,
    >)
        ensures
            r == (if self@.asset_budgets.contains_key((budget_id@, *token)) {
                Ok::<AssetBudget, Error>(self@.asset_budgets[(budget_id@, *token)])
            } else {
                Err(Error::AssetNotAuthorized)
            }),
    {
        match self.asset_budgets.get(&(budget_id.clone(), *token)) {
            Some(a) => Ok(*a),
            None => Err(Error::AssetNotAuthorized),
        }
    }
}

/// What allocating a budget does.
pub open spec fn allocates(
    before: BudgetContract,
    after: BudgetContract,
    e0: EnvView,
    e1: EnvView,
    owner: Address,
    budget_id: String,
    limit: i128,
    period: Period,
    rollover_enabled: bool,
    allow_deficit: bool,
    expires_at: u64,
    r: Result<(), Error>,
) -> bool {
    &&& r == before@.allocate_outcome(budget_id@, limit, period, allow_deficit)
    &&& r is Err ==> after == before && e1 == e0.auth(owner)
    &&& r is Ok ==> {
        &&& after@ == before@.with_budget(
            budget_id@,
            Budget {
                owner,
                limit,
                spent: 0,
                period,
                period_seconds: 0,
                window_start: e0.timestamp,
                rollover_enabled,
                rollover_credit: 0,
                rollover_cap: 0,
                allow_deficit,
                deficit_amount: 0,
                expires_at,
                state: ResourceState::Active,
            },
        )
        &&& e1 == e0.auth(owner).emit(Event::BudgetAllocated { budget_id, owner, limit }).emit(
            Event::Contract(
                ContractEvent::BudgetUpdated { budget_id, action: "allocated", amount: limit },
            ),
        )
    }
    &&& before@.wf() ==> after@.wf()
}

// --- laws ---

/// A spend goes through only within the capacity of the current period, or,
/// where deficits are allowed, while none is outstanding.
pub proof fn spending_stays_within_capacity(
    s: BudgetView,
    now: u64,
    id: Seq<char>,
    caller: Address,
    amount: i128,
)
    requires
        s.wf(),
        s.consume_outcome(now, id, caller, amount) is Ok,
    ensures
        ({
            let b = s.budgets[id].transition(now)->Ok_0;
            &&& b.spent + amount <= b.capacity() || (b.allow_deficit && b.deficit_amount == 0)
            &&& s.consume_outcome(now, id, caller, amount)->Ok_0 == b.capacity() - b.spent - amount
        }),
{
    assert(s.budgets[id].valid());
}

/// A frozen or archived budget, or one that has expired, is spent by nobody.
pub proof fn inactive_budgets_are_not_spent(
    s: BudgetView,
    now: u64,
    id: Seq<char>,
    caller: Address,
    amount: i128,
)
    requires
        s.budgets.contains_key(id),
        s.budgets[id].state != ResourceState::Active || s.budgets[id].expired(now),
    ensures
        s.consume_outcome(now, id, caller, amount) is Err,
{
}

/// Moving allocation between two budgets keeps the sum of their limits, takes no
/// more than what is unspent, and leaves every other budget alone.
pub proof fn reallocation_conserves_limits(
    s: BudgetView,
    caller: Address,
    from: Seq<char>,
    to: Seq<char>,
    amount: i128,
    other: Seq<char>,
)
    requires
        s.wf(),
        s.transfer_outcome(caller, from, to, amount) is Ok,
    ensures
        ({
            let t = s.transferred(from, to, amount);
            &&& t.budgets[from].limit + t.budgets[to].limit == s.budgets[from].limit
                + s.budgets[to].limit
            &&& t.budgets[from].limit >= t.budgets[from].spent
            &&& other != from && other != to && s.budgets.contains_key(other)
                ==> t.budgets.contains_key(other) && t.budgets[other] == s.budgets[other]
        }),
{
}

/// Settling leaves the window anchored to its period boundary: a whole number of
/// periods after where it was, and less than one period before now.
pub proof fn windows_do_not_drift(b: Budget, now: u64)
    requires
        b.valid(),
        b.window() > 0,
        b.window_start <= now,
        b.transition(now) is Ok,
    ensures
        ({
            let start = b.transition(now)->Ok_0.window_start;
            &&& (start - b.window_start) % (b.window() as int) == 0
            &&& start <= now < start + b.window()
        }),
{
    let w = b.window() as int;
    let n = windows_between(b.window_start, now, b.window());
    vstd::arithmetic::div_mod::lemma_fundamental_div_mod((now - b.window_start) as int, w);
    assert(w * n == n * w) by (nonlinear_arith);
    assert((n * w) % w == 0) by {
        vstd::arithmetic::div_mod::lemma_mod_multiples_basic(n, w);
    }
    assert(0 <= n) by {
        vstd::arithmetic::div_mod::lemma_div_pos_is_pos((now - b.window_start) as int, w);
    }
    assert(0 <= n * w) by (nonlinear_arith)
        requires
            0 <= n,
            0 < w,
    ;
}

/// Settling several periods at once is the same as settling some of them first
/// and the others later.
pub proof fn settlement_can_be_split(b: Budget, earlier: u64, later: u64)
    requires
        b.valid(),
        earlier <= later,
        b.transition(earlier) is Ok,
        b.transition(later) is Ok,
        b.transition(earlier)->Ok_0.transition(later) is Ok,
    ensures
        b.transition(earlier)->Ok_0.transition(later) == b.transition(later),
{
    let w = b.window();
    let k = windows_between(b.window_start, earlier, w);
    let n = windows_between(b.window_start, later, w);
    let mid = b.transition(earlier)->Ok_0;
    if k > 0 {
        let wi = w as int;
        let d1 = (earlier - b.window_start) as int;
        let d2 = (later - b.window_start) as int;
        vstd::arithmetic::div_mod::lemma_fundamental_div_mod(d1, wi);
        vstd::arithmetic::div_mod::lemma_fundamental_div_mod(d2, wi);
        vstd::arithmetic::div_mod::lemma_div_is_ordered(d1, d2, wi);
        assert(wi * k == k * wi) by (nonlinear_arith);
        assert(mid.window_start == b.window_start + k * wi) by {
            assert(0 <= k * wi) by (nonlinear_arith)
                requires
                    0 <= k,
                    0 < wi,
            ;
        }
        let m = windows_between(mid.window_start, later, w);
        assert(m == n - k) by {
            assert(d2 - k * wi == (n - k) * wi + d2 % wi) by (nonlinear_arith)
                requires
                    d2 == wi * n + d2 % wi,
            ;
            vstd::arithmetic::div_mod::lemma_fundamental_div_mod_converse(
                d2 - k * wi,
                wi,
                n - k,
                d2 % wi,
            );
        }
        if m > 0 {
            let limit = b.limit as int;
            assert(mid.leftover() == limit + b.carried(k));
            let base = b.left_behind();
            assert((k - 1) * limit + limit + (m - 1) * limit == (n - 1) * limit) by (nonlinear_arith)
                requires
                    m == n - k,
            ;
            assert(0 <= (m - 1) * limit) by (nonlinear_arith)
                requires
                    m >= 1,
                    limit >= 0,
            ;
            assert(0 <= (k - 1) * limit) by (nonlinear_arith)
                requires
                    k >= 1,
                    limit >= 0,
            ;
            assert(mid.left_behind() == limit + b.carried(k));
            assert(mid.carried(m) == b.carried(n));
            assert(mid.window_start + m * wi == b.window_start + n * wi) by (nonlinear_arith)
                requires
                    mid.window_start == b.window_start + k * wi,
                    m == n - k,
            ;
        } else {
            assert(n == k);
        }
    } else {
        assert(mid == b);
    }
}

/// A token's limit is never overspent within a window.
pub proof fn token_limit_is_a_ceiling(
    s: BudgetView,
    now: u64,
    id: Seq<char>,
    caller: Address,
    token: Address,
    amount: i128,
)
    requires
        s.spend_outcome(now, id, caller, token, amount) is Ok,
    ensures
        ({
            let a = s.asset_budgets[(id, token)].settled(now);
            a.spent + amount <= a.limit
        }),
{
}

/// How long each period lasts, in seconds (0 = it never ends).
pub open spec fn lasts(b: Budget, seconds: int) -> bool {
    match b.period {
        Period::OneOff => seconds == 0,
        Period::Daily => seconds == 24 * 60 * 60,
        Period::Weekly => seconds == 7 * 24 * 60 * 60,
        Period::Monthly => seconds == 30 * 24 * 60 * 60,
        Period::Custom => seconds == b.period_seconds,
    }
}

/// A period lasts exactly as long as its name says: before it is over nothing of
/// the budget changes, and a one-shot budget never starts over.
pub proof fn periods_last_as_long_as_named(b: Budget, seconds: int, now: u64)
    requires
        b.valid(),
        lasts(b, seconds),
        b.expires_at == 0 || now < b.expires_at,
        seconds == 0 || now < b.window_start + seconds,
    ensures
        b.transition(now) == Ok::<Budget, Error>(b),
{
    if seconds > 0 && now >= b.window_start {
        vstd::arithmetic::div_mod::lemma_basic_div((now - b.window_start) as int, seconds);
    }
}

/// An expired budget is settled no more.
pub proof fn expiry_ends_a_budget(b: Budget, now: u64)
    requires
        b.expires_at != 0,
        now >= b.expires_at,
    ensures
        b.transition(now) == Err::<Budget, Error>(Error::BudgetExpired),
{
}

/// What is carried out of `n` periods that are over: what was unspent of the
/// first and a whole limit of each later one, up to the cap, where rollover is
/// enabled; what was overspent, where deficits are allowed and it was not made
/// up for; nothing otherwise. The new window starts `n` periods later.
pub proof fn periods_carry_over_what_is_left(b: Budget, seconds: int, now: u64, n: int)
    requires
        b.valid(),
        lasts(b, seconds),
        seconds > 0,
        n >= 1,
        b.window_start + n * seconds <= now < b.window_start + (n + 1) * seconds,
        b.expires_at == 0 || now < b.expires_at,
    ensures
        ({
            let unspent = b.limit + b.rollover_credit - b.deficit_amount - b.spent;
            let kept = if unspent < 0 && !b.allow_deficit {
                0
            } else {
                unspent
            };
            let net = kept + (n - 1) * b.limit;
            &&& b.limit + b.rollover_credit <= i128::MAX && unspent > i128::MIN && net <= i128::MAX
                ==> b.transition(now) is Ok
            &&& b.transition(now) is Ok ==> {
                let t = b.transition(now)->Ok_0;
                &&& t.spent == 0
                &&& t.window_start == b.window_start + n * seconds
                &&& t.deficit_amount == (if net < 0 {
                    -net
                } else {
                    0
                })
                &&& t.rollover_credit == (if net <= 0 || !b.rollover_enabled {
                    0
                } else if b.rollover_cap != 0 && net > b.rollover_cap {
                    b.rollover_cap as int
                } else {
                    net
                })
                &&& t.owner == b.owner && t.limit == b.limit && t.period == b.period
                &&& t.period_seconds == b.period_seconds && t.rollover_enabled == b.rollover_enabled
                &&& t.rollover_cap == b.rollover_cap && t.allow_deficit == b.allow_deficit
                &&& t.expires_at == b.expires_at && t.state == b.state
            }
        }),
{
    let d = now - b.window_start;
    assert(n * seconds >= 0) by (nonlinear_arith)
        requires
            n >= 1,
            seconds > 0,
    ;
    assert((n + 1) * seconds == n * seconds + seconds) by (nonlinear_arith);
    vstd::arithmetic::div_mod::lemma_fundamental_div_mod_converse(
        d,
        seconds,
        n,
        d - n * seconds,
    );
    assert(b.window() == seconds);
    assert(windows_between(b.window_start, now, b.window()) == n);
    assert(0 <= (n - 1) * b.limit) by (nonlinear_arith)
        requires
            n >= 1,
            b.limit >= 0,
    ;
}

/// The owner of an active budget can spend any positive amount that the current
/// period has left (or any at all, where deficits are allowed and none is
/// outstanding), and nobody can spend anything else. What comes back is what is
/// left, and exactly the amount is recorded, in that budget alone.
pub proof fn spending_takes_from_what_is_left(
    s: BudgetView,
    now: u64,
    id: Seq<char>,
    caller: Address,
    amount: i128,
    t: Budget,
    other: Seq<char>,
)
    requires
        s.wf(),
        s.budgets.contains_key(id),
        s.budgets[id].transition(now) == Ok::<Budget, Error>(t),
        t.limit + t.rollover_credit <= i128::MAX,
        t.spent + amount <= i128::MAX,
        t.limit + t.rollover_credit - t.deficit_amount - t.spent - amount >= i128::MIN,
    ensures
        s.consume_outcome(now, id, caller, amount) is Ok <==> {
            &&& amount > 0
            &&& s.budgets[id].owner == caller
            &&& s.budgets[id].state == ResourceState::Active
            &&& amount <= t.limit + t.rollover_credit - t.deficit_amount - t.spent || (
            t.allow_deficit && t.deficit_amount == 0)
        },
        s.consume_outcome(now, id, caller, amount) is Ok ==> {
            let u = s.consumed(now, id, amount);
            &&& s.consume_outcome(now, id, caller, amount)->Ok_0 == t.limit + t.rollover_credit
                - t.deficit_amount - t.spent - amount
            &&& u.budgets.contains_key(id)
            &&& u.budgets[id] == (Budget { spent: (t.spent + amount) as i128, ..t })
            &&& other != id ==> (u.budgets.contains_key(other) <==> s.budgets.contains_key(other))
                && u.budgets[other] == s.budgets[other]
            &&& u.asset_budgets == s.asset_budgets
        },
        amount > 0 && s.budgets[id].owner == caller && s.budgets[id].state == ResourceState::Active
            && s.consume_outcome(now, id, caller, amount) is Err ==> s.consume_outcome(
            now,
            id,
            caller,
            amount,
        ) == Err::<i128, Error>(Error::BudgetExceeded),
{
}

/// Within one period the spends of a budget without deficits add up: a second
/// spend goes through only where both together are within what the limit and the
/// credit gave at first, less what was already spent.
pub proof fn spends_of_a_period_add_up(
    s: BudgetView,
    id: Seq<char>,
    caller: Address,
    seconds: int,
    first: u64,
    amount: i128,
    second: u64,
    more: i128,
)
    requires
        s.wf(),
        s.budgets.contains_key(id),
        !s.budgets[id].allow_deficit,
        lasts(s.budgets[id], seconds),
        seconds == 0 || (first < s.budgets[id].window_start + seconds && second
            < s.budgets[id].window_start + seconds),
        s.consume_outcome(first, id, caller, amount) is Ok,
        s.consumed(first, id, amount).consume_outcome(second, id, caller, more) is Ok,
    ensures
        amount > 0 && more > 0,
        s.budgets[id].spent + amount + more <= s.budgets[id].limit + s.budgets[id].rollover_credit,
{
    let b = s.budgets[id];
    assert(b.valid());
    if b.expires_at == 0 || first < b.expires_at {
        periods_last_as_long_as_named(b, seconds, first);
    }
    let c = Budget { spent: (b.spent + amount) as i128, ..b };
    assert(s.consumed(first, id, amount).budgets[id] == c);
    if c.expires_at == 0 || second < c.expires_at {
        periods_last_as_long_as_named(c, seconds, second);
    }
}

/// What is remaining is what could be spent: the limit and the credit, less the
/// deficit and what is spent, of the settled record; nothing once expired.
pub proof fn remaining_is_what_is_left(s: BudgetView, now: u64, id: Seq<char>)
    requires
        s.wf(),
        s.budgets.contains_key(id),
    ensures
        s.budgets[id].transition(now) is Err ==> s.remaining_outcome(now, id) == Ok::<i128, Error>(0),
        s.remaining_outcome(now, id) is Ok && s.budgets[id].transition(now) is Ok ==> {
            let t = s.budgets[id].transition(now)->Ok_0;
            s.remaining_outcome(now, id)->Ok_0 == t.limit + t.rollover_credit - t.deficit_amount
                - t.spent
        },
{
}

/// Only its owner acts on a budget.
pub proof fn only_the_owner_acts(
    s: BudgetView,
    now: u64,
    id: Seq<char>,
    stranger: Address,
    amount: i128,
    to: Seq<char>,
    token: Address,
    period: Period,
    seconds: u64,
    cap: i128,
)
    requires
        !s.budgets.contains_key(id) || s.budgets[id].owner != stranger,
    ensures
        s.owner_check(id, stranger) is Err,
        s.owned_transition(now, id, stranger) is Err,
        s.consume_outcome(now, id, stranger, amount) is Err,
        s.transfer_outcome(stranger, id, to, amount) is Err,
        s.transfer_outcome(stranger, to, id, amount) is Err,
        s.set_recurrence_outcome(now, id, stranger, period, seconds, cap) is Err,
        s.spend_outcome(now, id, stranger, token, amount) is Err,
{
}

/// Unspent allocation, and no more, moves between two active budgets of one
/// owner: one limit falls by the amount and the other rises by it.
pub proof fn unspent_allocation_can_move(
    s: BudgetView,
    caller: Address,
    from: Seq<char>,
    to: Seq<char>,
    amount: i128,
)
    requires
        s.wf(),
        s.budgets.contains_key(from),
        s.budgets.contains_key(to),
    ensures
        s.transfer_outcome(caller, from, to, amount) is Ok <==> {
            &&& amount > 0
            &&& from != to
            &&& s.budgets[from].owner == caller && s.budgets[to].owner == caller
            &&& s.budgets[from].state == ResourceState::Active
            &&& s.budgets[to].state == ResourceState::Active
            &&& s.budgets[from].spent + amount <= s.budgets[from].limit
            &&& s.budgets[to].limit + amount <= i128::MAX
        },
        s.transfer_outcome(caller, from, to, amount) is Ok ==> {
            let t = s.transferred(from, to, amount);
            &&& t.budgets[from].limit == s.budgets[from].limit - amount
            &&& t.budgets[to].limit == s.budgets[to].limit + amount
            &&& t.budgets[from] == (Budget { limit: t.budgets[from].limit, ..s.budgets[from] })
            &&& t.budgets[to] == (Budget { limit: t.budgets[to].limit, ..s.budgets[to] })
            &&& t.asset_budgets == s.asset_budgets
        },
{
}

/// A token's window lasts its number of seconds, after which all of the limit is
/// there again; a window of zero seconds never ends. The owner of an active
/// budget can spend what is left of the limit and no more.
pub proof fn token_limits_come_back_with_the_window(
    s: BudgetView,
    now: u64,
    id: Seq<char>,
    caller: Address,
    token: Address,
    amount: i128,
    n: int,
)
    requires
        s.wf(),
        s.budgets.contains_key(id),
        s.asset_budgets.contains_key((id, token)),
        s.asset_budgets[(id, token)].spent + amount <= i128::MAX,
        n >= 0,
        s.asset_budgets[(id, token)].window_seconds == 0 ==> n == 0,
        s.asset_budgets[(id, token)].window_seconds > 0 ==> {
            let a = s.asset_budgets[(id, token)];
            now < a.window_start + (n + 1) * a.window_seconds && (n > 0 ==> a.window_start + n
                * a.window_seconds <= now)
        },
    ensures
        ({
            let a = s.asset_budgets[(id, token)];
            let spent = if n == 0 {
                a.spent as int
            } else {
                0
            };
            &&& a.settled(now).spent == spent
            &&& a.settled(now).limit == a.limit
            &&& a.settled(now).window_seconds == a.window_seconds
            &&& a.settled(now).window_start == a.window_start + n * a.window_seconds
            &&& s.spend_outcome(now, id, caller, token, amount) is Ok <==> {
                &&& amount > 0
                &&& s.budgets[id].owner == caller
                &&& s.budgets[id].state == ResourceState::Active
                &&& spent + amount <= a.limit
            }
            &&& s.spend_outcome(now, id, caller, token, amount) is Ok ==> {
                let t = s.token_spent(now, id, token, amount);
                &&& t.asset_budgets[(id, token)].spent == spent + amount
                &&& t.asset_budgets[(id, token)].limit == a.limit
                &&& t.budgets == s.budgets
            }
        }),
{
    let a = s.asset_budgets[(id, token)];
    let w = a.window_seconds as int;
    if w > 0 && now >= a.window_start {
        let d = now - a.window_start;
        assert((n + 1) * w == n * w + w) by (nonlinear_arith);
        if n == 0 {
            assert(n * w == 0) by (nonlinear_arith)
                requires
                    n == 0,
            ;
            vstd::arithmetic::div_mod::lemma_basic_div(d, w);
        } else {
            vstd::arithmetic::div_mod::lemma_fundamental_div_mod_converse(d, w, n, d - n * w);
        }
    } else if w > 0 {
        assert(n == 0) by {
            if n > 0 {
                assert(n * w > 0) by (nonlinear_arith)
                    requires
                        n > 0,
                        w > 0,
                ;
            }
        }
    }
    assert(n == 0 ==> n * w == 0) by (nonlinear_arith);
}

/// A new budget belongs to who allocated it, starts now with nothing spent,
/// carried or owed, and is active, with the limit and the terms asked for. It
/// takes a name that is not in use and a limit that is not negative.
pub proof fn new_budgets_start_fresh(
    before: BudgetContract,
    after: BudgetContract,
    e0: EnvView,
    e1: EnvView,
    owner: Address,
    budget_id: String,
    limit: i128,
    period: Period,
    rollover_enabled: bool,
    allow_deficit: bool,
    expires_at: u64,
    r: Result<(), Error>,
    other: Seq<char>,
)
    requires
        allocates(
            before,
            after,
            e0,
            e1,
            owner,
            budget_id,
            limit,
            period,
            rollover_enabled,
            allow_deficit,
            expires_at,
            r,
        ),
    ensures
        r is Ok <==> {
            &&& budget_id@.len() > 0
            &&& limit >= 0
            &&& period != Period::Custom
            &&& !(allow_deficit && period == Period::OneOff)
            &&& !before@.budgets.contains_key(budget_id@)
        },
        r is Ok ==> {
            let b = after@.budgets[budget_id@];
            &&& after@.budgets.contains_key(budget_id@)
            &&& b.owner == owner && b.limit == limit && b.period == period
            &&& b.rollover_enabled == rollover_enabled && b.allow_deficit == allow_deficit
            &&& b.expires_at == expires_at && b.window_start == e0.timestamp
            &&& b.spent == 0 && b.rollover_credit == 0 && b.deficit_amount == 0
            &&& b.rollover_cap == 0 && b.state == ResourceState::Active
            &&& other != budget_id@ ==> (after@.budgets.contains_key(other)
                <==> before@.budgets.contains_key(other)) && after@.budgets[other]
                == before@.budgets[other]
            &&& after@.asset_budgets == before@.asset_budgets
        },
        e1.log.len() > e0.log.len() && e1.log[e0.log.len() as int] == Effect::RequireAuth(owner),
{
}

/// A new recurrence counts from now; it drops the credit that it does not admit
/// and keeps everything else.
pub proof fn recurrence_counts_from_now(
    b: Budget,
    now: u64,
    period: Period,
    period_seconds: u64,
    rollover_enabled: bool,
    rollover_cap: i128,
)
    requires
        b.valid(),
        rollover_cap >= 0,
    ensures
        ({
            let t = with_recurrence(b, now, period, period_seconds, rollover_enabled, rollover_cap);
            &&& t.window_start == now && t.period == period && t.period_seconds == period_seconds
            &&& t.rollover_enabled == rollover_enabled && t.rollover_cap == rollover_cap
            &&& !rollover_enabled ==> t.rollover_credit == 0
            &&& rollover_enabled && (rollover_cap == 0 || b.rollover_credit <= rollover_cap)
                ==> t.rollover_credit == b.rollover_credit
            &&& rollover_enabled && 0 < rollover_cap < b.rollover_credit ==> t.rollover_credit
                == rollover_cap
            &&& t.owner == b.owner && t.limit == b.limit && t.spent == b.spent
            &&& t.deficit_amount == b.deficit_amount && t.allow_deficit == b.allow_deficit
            &&& t.expires_at == b.expires_at && t.state == b.state
        }),
{
}

/// Settling publishes what it did: nothing while the period lasts, the expiry of
/// an expired budget, and otherwise what the period left unspent, as rolled over
/// or as reset.
pub proof fn settlements_are_announced(b: Budget, seconds: int, e: EnvView, now: u64, id: String)
    requires
        b.valid(),
        lasts(b, seconds),
    ensures
        b.expires_at != 0 && now >= b.expires_at ==> b.transition_env(e, now, id).log == e.log.push(
            Effect::Publish(Event::BudgetExpired { budget_id: id }),
        ),
        (b.expires_at == 0 || now < b.expires_at) && (seconds == 0 || now < b.window_start + seconds)
            ==> b.transition_env(e, now, id) == e,
        (b.expires_at == 0 || now < b.expires_at) && seconds > 0 && now >= b.window_start + seconds
            && b.transition(now) is Ok ==> {
            let leftover = (b.limit + b.rollover_credit - b.deficit_amount - b.spent) as i128;
            let log = b.transition_env(e, now, id).log;
            &&& log.len() == e.log.len() + 2
            &&& log[e.log.len() as int] == Effect::Publish(
                if b.rollover_enabled {
                    Event::BudgetRolledOver { budget_id: id, leftover }
                } else {
                    Event::BudgetWindowReset { budget_id: id, leftover }
                },
            )
        },
{
    if seconds > 0 && now >= b.window_start {
        let d = now - b.window_start;
        if d < seconds {
            vstd::arithmetic::div_mod::lemma_basic_div(d, seconds);
        } else {
            vstd::arithmetic::div_mod::lemma_div_is_ordered(seconds, d, seconds);
            vstd::arithmetic::div_mod::lemma_div_by_self(seconds);
        }
    }
}

/// The owner can change how a budget recurs to any period of a length, with any
/// cap that is not negative, while it has not expired; a budget that allows
/// deficits has to recur.
pub proof fn recurrence_is_set_by_the_owner(
    s: BudgetView,
    now: u64,
    id: Seq<char>,
    caller: Address,
    period: Period,
    period_seconds: u64,
    rollover_cap: i128,
)
    requires
        s.budgets.contains_key(id),
        s.budgets[id].transition(now) is Ok,
    ensures
        s.set_recurrence_outcome(now, id, caller, period, period_seconds, rollover_cap) is Ok <==> {
            &&& s.budgets[id].owner == caller
            &&& period == Period::Custom ==> period_seconds > 0
            &&& rollover_cap >= 0
            &&& s.budgets[id].allow_deficit ==> period != Period::OneOff
        },
{
}

/// What is remaining can always be read where it fits.
pub proof fn remaining_can_be_read(s: BudgetView, now: u64, id: Seq<char>)
    requires
        s.wf(),
        s.budgets.contains_key(id),
        s.budgets[id].transition(now) is Ok,
    ensures
        ({
            let t = s.budgets[id].transition(now)->Ok_0;
            t.limit + t.rollover_credit <= i128::MAX && t.limit + t.rollover_credit
                - t.deficit_amount - t.spent >= i128::MIN ==> s.remaining_outcome(now, id) is Ok
        }),
        s.remaining_outcome(now, id) is Err ==> s.remaining_outcome(now, id)->Err_0
            != Error::NotFound,
{
}

} // verus!
