//! # Treasury contract
//!
//! Custodies organizational funds and enforces governance on every outbound
//! movement. Every spend resolves the organization's policy and budget contracts
//! and has them called before the ledger is debited:
//!
//! ```text
//! admin auth -> policy.check_transfer -> budget.consume -> allowance -> assets move
//! ```
//!
//! [`TreasuryContract::batch_transfer`] applies the same gate chain to a whole
//! list of payouts in a single, atomic invocation: the cumulative amount is
//! accumulated with checked math and validated against the treasury balance
//! before any value moves. [`TreasuryContract::release_next_milestone`] applies
//! it to each milestone.
use crate::constants::MAX_BATCH_PAYMENTS;
use crate::custody::lemma_holds;
use crate::errors::Error;
use crate::events::{publish, transfer_executed, treasury_created, ContractEvent, Event};
use crate::host::{CallEnv, Effect, EnvView};
use crate::math::{checked_add, in_range, next_id};
use crate::table::{Key, Table};
use crate::types::{Address, Payment, ResourceState};
use crate::validation::{
    check, leading, lemma_leading_all, lemma_leading_stops, require_non_empty,
    require_positive_amount,
};
use vstd::prelude::*;

verus! {

/// Stored treasury record.
#[derive(Clone, Debug)]
pub struct Treasury {
    pub org: String,
    pub admin: Address,
    /// Organization's multisig contract, authorized for emergency freeze and
    /// unfreeze. While none is wired, the admin is.
    pub multisig: Option<Address>,
    /// Organization's policy contract, consulted on every spend.
    pub policy: Option<Address>,
    /// Organization's budget contract.
    pub budget: Option<Address>,
    /// Lifecycle state shared with wallets.
    pub state: ResourceState,
}

/// A payout in equal milestones; the last one takes the remainder.
#[derive(Clone, Copy, Debug, PartialEq, Eq, Structural)]
pub struct MilestoneDisbursement {
    pub total_amount: i128,
    pub milestones: u32,
    pub disbursed: u32,
    pub amount_per_milestone: i128,
    pub asset: Address,
    pub to: Address,
}

/// Per-asset accounting within the treasury.
#[derive(Clone, Debug)]
pub struct Holding {
    pub asset: Address,
    /// What the treasury holds.
    pub total_in: i128,
    /// What has left the treasury.
    pub total_out: i128,
    /// Budget envelope backing this asset, if any.
    pub budget_id: Option<String>,
}

/// Identifies a withdrawal allowance scoped to an agent (the caller that may
/// spend), a recipient and an asset.
#[derive(Clone, Copy, Debug, PartialEq, Eq, Structural)]
pub struct AllowanceId {
    pub agent: Address,
    pub recipient: Address,
    pub asset: Address,
}

impl View for AllowanceId {
    type V = AllowanceId;

    open spec fn view(&self) -> AllowanceId {
        *self
    }
}

impl Key for AllowanceId {
    fn same(&self, other: &Self) -> bool {
        *self == *other
    }
}

/// Active withdrawal allowance restricting agent-driven expenditures against a
/// recipient and asset to a pre-approved `limit` over a time window.
#[derive(Clone, Copy, Debug, PartialEq, Eq, Structural)]
pub struct Allowance {
    pub agent: Address,
    pub recipient: Address,
    pub asset: Address,
    /// Maximum cumulative amount that may be withdrawn under this allowance.
    pub limit: i128,
    /// Amount already consumed against the allowance.
    pub spent: i128,
    /// Timestamp from which the allowance can no longer be used (0 = never).
    pub expires_at: u64,
}

/// The treasury's storage.
pub struct TreasuryContract {
    pub treasury: Option<Treasury>,
    pub holdings: Table<Address, Holding>,
    pub reentrancy_lock: bool,
    /// Emergency circuit breaker.
    pub frozen: bool,
    pub milestones: Table<u64, MilestoneDisbursement>,
    pub milestone_count: u64,
    pub allowances: Table<AllowanceId, Allowance>,
}

/// The treasury's storage as a value.
#[verifier::ext_equal]
pub struct TreasuryView {
    pub treasury: Option<Treasury>,
    pub holdings: Map<Address, Holding>,
    pub reentrancy_lock: bool,
    pub frozen: bool,
    pub milestones: Map<u64, MilestoneDisbursement>,
    pub milestone_count: u64,
    pub allowances: Map<AllowanceId, Allowance>,
}

impl View for TreasuryContract {
    type V = TreasuryView;

    open spec fn view(&self) -> TreasuryView {
        TreasuryView {
            treasury: self.treasury,
            holdings: self.holdings@,
            reentrancy_lock: self.reentrancy_lock,
            frozen: self.frozen,
            milestones: self.milestones@,
            milestone_count: self.milestone_count,
            allowances: self.allowances@,
        }
    }
}

/// The total of a list of payments.
pub open spec fn payment_sum(payments: Seq<Payment>) -> int
    decreases payments.len(),
{
    if payments.len() == 0 {
        0
    } else {
        payment_sum(payments.drop_last()) + payments.last().amount
    }
}

/// A leg has a positive amount, and the total up to it fits.
pub open spec fn leg_ok(payments: Seq<Payment>) -> spec_fn(int) -> bool {
    |i: int| payments[i].amount > 0 && in_range(payment_sum(payments.take(i + 1)))
}

/// The legs of a batch are valid; the first bad one decides the error.
pub open spec fn legs_check(payments: Seq<Payment>) -> Result<(), Error> {
    let k = leading(leg_ok(payments), payments.len());
    if k == payments.len() {
        Ok(())
    } else if payments[k as int].amount <= 0 {
        Err(Error::InvalidAmount)
    } else {
        Err(Error::Overflow)
    }
}

/// What a list of payments sends to one recipient.
pub open spec fn sent_to(payments: Seq<Payment>, recipient: Address) -> int
    decreases payments.len(),
{
    if payments.len() == 0 {
        0
    } else {
        sent_to(payments.drop_last(), recipient) + (if payments.last().recipient == recipient {
            payments.last().amount as int
        } else {
            0
        })
    }
}

proof fn lemma_sent_to(payments: Seq<Payment>, recipient: Address)
    requires
        forall|i: int| 0 <= i < payments.len() ==> #[trigger] payments[i].amount > 0,
    ensures
        0 <= sent_to(payments, recipient) <= payment_sum(payments),
    decreases payments.len(),
{
    if payments.len() > 0 {
        let front = payments.drop_last();
        assert forall|i: int| 0 <= i < front.len() implies #[trigger] front[i].amount > 0 by {
            assert(payments[i].amount > 0);
        }
        lemma_sent_to(front, recipient);
        assert(payments[payments.len() - 1].amount > 0);
    }
}

/// The environment after the policy contract was asked about each leg.
pub open spec fn check_legs(
    e: EnvView,
    policy: Address,
    asset: Address,
    payments: Seq<Payment>,
) -> EnvView
    decreases payments.len(),
{
    if payments.len() == 0 {
        e
    } else {
        check_legs(e, policy, asset, payments.drop_last()).with(
            Effect::CheckPolicy {
                policy,
                policy_id: "active",
                asset,
                recipient: payments.last().recipient,
                amount: payments.last().amount,
            },
        )
    }
}

/// The environment after paying each leg.
pub open spec fn pay_legs(
    e: EnvView,
    asset: Address,
    from: Address,
    payments: Seq<Payment>,
) -> EnvView
    decreases payments.len(),
{
    if payments.len() == 0 {
        e
    } else {
        pay_legs(e, asset, from, payments.drop_last()).transfer(
            asset,
            from,
            payments.last().recipient,
            payments.last().amount,
        )
    }
}

/// What the milestone at an index pays.
pub open spec fn milestone_amount(d: MilestoneDisbursement, index: int) -> int {
    if index == d.milestones - 1 {
        d.total_amount - d.amount_per_milestone * (d.milestones - 1)
    } else {
        d.amount_per_milestone as int
    }
}

/// A milestone disbursement's numbers fit together.
pub open spec fn milestone_ok(d: MilestoneDisbursement) -> bool {
    &&& d.total_amount > 0
    &&& 0 < d.milestones
    &&& d.disbursed <= d.milestones
    &&& d.amount_per_milestone == d.total_amount as int / d.milestones as int
}

/// A holding after an amount came in.
pub open spec fn credited(h: Holding, amount: i128) -> Holding {
    Holding { total_in: (h.total_in + amount) as i128, ..h }
}

/// A holding after an amount went out.
pub open spec fn debited(h: Holding, amount: int) -> Holding {
    Holding {
        total_in: (h.total_in - amount) as i128,
        total_out: (h.total_out + amount) as i128,
        ..h
    }
}

impl TreasuryView {
    /// Amounts are never negative, an allowance is never overspent, and
    /// milestone disbursements are consistent.
    pub open spec fn wf(self) -> bool {
        &&& forall|a: Address| #[trigger]
            self.holdings.contains_key(a) ==> self.holdings[a].total_in >= 0
                && self.holdings[a].total_out >= 0
        &&& forall|id: AllowanceId| #[trigger]
            self.allowances.contains_key(id) ==> 0 <= self.allowances[id].spent
                <= self.allowances[id].limit
        &&& forall|id: u64| #[trigger]
            self.milestones.contains_key(id) ==> milestone_ok(self.milestones[id]) && 1 <= id
                <= self.milestone_count
    }

    /// The accounting of an asset; all zero where there is none yet.
    pub open spec fn holding_of(self, asset: Address) -> Holding {
        if self.holdings.contains_key(asset) {
            self.holdings[asset]
        } else {
            Holding { asset, total_in: 0, total_out: 0, budget_id: None }
        }
    }

    /// The state after an asset's accounting changed.
    pub open spec fn with_holding(self, asset: Address, h: Holding) -> TreasuryView {
        TreasuryView { holdings: self.holdings.insert(asset, h), reentrancy_lock: false, ..self }
    }

    /// What an admin-gated entry point answers.
    pub open spec fn admin_check(self, caller: Address) -> Result<(), Error> {
        check(self.treasury->0.admin == caller, Error::Unauthorized)
    }

    /// Who may freeze and unfreeze: the multisig, or the admin while none is
    /// wired.
    pub open spec fn freezer(self) -> Address {
        match self.treasury->0.multisig {
            Some(m) => m,
            None => self.treasury->0.admin,
        }
    }

    /// What depositing returns.
    pub open spec fn deposit_outcome(self, asset: Address, amount: i128) -> Result<(), Error> {
        if amount <= 0 {
            Err(Error::InvalidAmount)
        } else if self.frozen || self.treasury->0.state != ResourceState::Active
            || self.reentrancy_lock {
            Err(Error::InvalidState)
        } else {
            check(in_range(self.holding_of(asset).total_in + amount), Error::Overflow)
        }
    }

    /// The state after a deposit.
    pub open spec fn deposited(self, asset: Address, amount: i128) -> TreasuryView {
        self.with_holding(asset, credited(self.holding_of(asset), amount))
    }

    /// The environment after a deposit.
    pub open spec fn deposit_env(
        self,
        e: EnvView,
        from: Address,
        asset: Address,
        amount: i128,
    ) -> EnvView {
        e.auth(from).emit(Event::TreasuryDeposited { asset, amount }).transfer(
            asset,
            from,
            e.contract,
            amount,
        )
    }

    /// The gates of every spend that come before any contract is called.
    pub open spec fn spend_check(self, caller: Address) -> Result<(), Error> {
        if self.frozen || self.treasury->0.state != ResourceState::Active {
            Err(Error::InvalidState)
        } else {
            check(self.treasury->0.admin == caller, Error::Unauthorized)
        }
    }

    /// The environment after the policy contract, where one is wired, was asked
    /// about a spend.
    pub open spec fn ask_policy(
        self,
        e: EnvView,
        asset: Address,
        recipient: Address,
        amount: i128,
    ) -> EnvView {
        match self.treasury->0.policy {
            Some(policy) => e.with(
                Effect::CheckPolicy { policy, policy_id: "active", asset, recipient, amount },
            ),
            None => e,
        }
    }

    /// The environment after the budget contract, where one backs the asset,
    /// was asked to consume an amount.
    pub open spec fn consume_budget(
        self,
        e: EnvView,
        caller: Address,
        asset: Address,
        amount: i128,
    ) -> EnvView {
        match (self.treasury->0.budget, self.holding_of(asset).budget_id) {
            (Some(budget), Some(budget_id)) => e.with(
                Effect::ConsumeBudget { budget, caller, budget_id, amount },
            ),
            _ => e,
        }
    }

    /// Whether an agent's allowance for a recipient and an asset, where there is
    /// one, covers an amount.
    pub open spec fn allowance_check(
        self,
        now: u64,
        id: AllowanceId,
        amount: int,
    ) -> Result<(), Error> {
        if !self.allowances.contains_key(id) {
            Ok(())
        } else if self.allowances[id].expires_at != 0 && now >= self.allowances[id].expires_at {
            Err(Error::AllowanceExpired)
        } else {
            check(
                amount <= self.allowances[id].limit - self.allowances[id].spent,
                Error::AllowanceExceeded,
            )
        }
    }

    /// The state after an amount was spent under an allowance, where there is
    /// one.
    pub open spec fn allowance_used(self, id: AllowanceId, amount: int) -> TreasuryView {
        if self.allowances.contains_key(id) {
            TreasuryView {
                allowances: self.allowances.insert(
                    id,
                    Allowance {
                        spent: (self.allowances[id].spent + amount) as i128,
                        ..self.allowances[id]
                    },
                ),
                ..self
            }
        } else {
            self
        }
    }

    /// The agent's allowance covers what the legs up to this one send to its
    /// recipient.
    pub open spec fn leg_allowed(
        self,
        now: u64,
        agent: Address,
        asset: Address,
        payments: Seq<Payment>,
    ) -> spec_fn(int) -> bool {
        |i: int|
            self.allowance_check(
                now,
                AllowanceId { agent, recipient: payments[i].recipient, asset },
                sent_to(payments.take(i + 1), payments[i].recipient),
            ) is Ok
    }

    /// Whether the agent's allowances cover a batch; the first leg that is not
    /// covered decides the error.
    pub open spec fn allowances_check(
        self,
        now: u64,
        agent: Address,
        asset: Address,
        payments: Seq<Payment>,
    ) -> Result<(), Error> {
        let k = leading(self.leg_allowed(now, agent, asset, payments), payments.len());
        if k == payments.len() {
            Ok(())
        } else {
            self.allowance_check(
                now,
                AllowanceId { agent, recipient: payments[k as int].recipient, asset },
                sent_to(payments.take(k as int + 1), payments[k as int].recipient),
            )
        }
    }

    /// No allowance of the agent is exceeded by what the legs of a batch, up to
    /// any of them, send to one recipient.
    pub open spec fn legs_covered(
        self,
        agent: Address,
        asset: Address,
        payments: Seq<Payment>,
    ) -> bool {
        forall|i: int|
            #![trigger payments[i]]
            0 <= i < payments.len() ==> {
                let id = AllowanceId { agent, recipient: payments[i].recipient, asset };
                self.allowances.contains_key(id) ==> sent_to(
                    payments.take(i + 1),
                    payments[i].recipient,
                ) <= self.allowances[id].limit - self.allowances[id].spent
            }
    }

    /// The state after a batch was spent under the agent's allowances.
    pub open spec fn allowances_used(
        self,
        agent: Address,
        asset: Address,
        payments: Seq<Payment>,
    ) -> TreasuryView {
        TreasuryView {
            allowances: Map::new(
                |id: AllowanceId| self.allowances.contains_key(id),
                |id: AllowanceId|
                    if id.agent == agent && id.asset == asset {
                        Allowance {
                            spent: (self.allowances[id].spent + sent_to(
                                payments,
                                id.recipient,
                            )) as i128,
                            ..self.allowances[id]
                        }
                    } else {
                        self.allowances[id]
                    },
            ),
            ..self
        }
    }

    /// The environment after the calls that every single spend makes.
    pub open spec fn withdraw_gates(
        self,
        e: EnvView,
        caller: Address,
        asset: Address,
        to: Address,
        amount: i128,
    ) -> EnvView {
        self.consume_budget(
            self.ask_policy(e.auth(caller), asset, to, amount),
            caller,
            asset,
            amount,
        )
    }

    /// The environment after a withdrawal.
    pub open spec fn withdraw_env(
        self,
        e: EnvView,
        caller: Address,
        asset: Address,
        to: Address,
        amount: i128,
    ) -> EnvView {
        let report = Event::TransferExecuted { from: caller, to, asset, amount };
        self.withdraw_gates(e, caller, asset, to, amount).emit(report).transfer(
            asset,
            e.contract,
            to,
            amount,
        ).emit(report).emit(
            Event::Contract(ContractEvent::TransferExecuted { from: caller, to, asset, amount }),
        )
    }

    /// What withdrawing returns, its policy and budget agreeing.
    pub open spec fn withdraw_outcome(
        self,
        now: u64,
        caller: Address,
        asset: Address,
        to: Address,
        amount: i128,
    ) -> Result<(), Error> {
        let id = AllowanceId { agent: caller, recipient: to, asset };
        if amount <= 0 {
            Err(Error::InvalidAmount)
        } else if self.spend_check(caller) is Err {
            self.spend_check(caller)
        } else if self.allowance_check(now, id, amount as int) is Err {
            self.allowance_check(now, id, amount as int)
        } else if self.holding_of(asset).total_in < amount {
            Err(Error::InsufficientFunds)
        } else {
            check(in_range(self.holding_of(asset).total_out + amount), Error::Overflow)
        }
    }

    /// The state after a withdrawal.
    pub open spec fn withdrawn(
        self,
        caller: Address,
        asset: Address,
        to: Address,
        amount: i128,
    ) -> TreasuryView {
        let id = AllowanceId { agent: caller, recipient: to, asset };
        self.allowance_used(id, amount as int).with_holding(
            asset,
            debited(self.holding_of(asset), amount as int),
        )
    }

    /// The checks of a batch payout that come before any contract is called but
    /// after the caller's authorization.
    pub open spec fn batch_balance_check(self, asset: Address, payments: Seq<Payment>) -> Result<
        (),
        Error,
    > {
        if legs_check(payments) is Err {
            legs_check(payments)
        } else {
            check(
                self.holding_of(asset).total_in >= payment_sum(payments),
                Error::InsufficientFunds,
            )
        }
    }

    /// What a batch payout returns, its policy and budget agreeing.
    pub open spec fn batch_outcome(
        self,
        now: u64,
        caller: Address,
        asset: Address,
        payments: Seq<Payment>,
    ) -> Result<(), Error> {
        if payments.len() == 0 || payments.len() > MAX_BATCH_PAYMENTS {
            Err(Error::InvalidInput)
        } else if self.spend_check(caller) is Err {
            self.spend_check(caller)
        } else if self.batch_balance_check(asset, payments) is Err {
            self.batch_balance_check(asset, payments)
        } else if self.allowances_check(now, caller, asset, payments) is Err {
            self.allowances_check(now, caller, asset, payments)
        } else {
            check(
                in_range(self.holding_of(asset).total_out + payment_sum(payments)),
                Error::Overflow,
            )
        }
    }

    /// The state after a batch payout.
    pub open spec fn batch_paid(
        self,
        caller: Address,
        asset: Address,
        payments: Seq<Payment>,
    ) -> TreasuryView {
        self.allowances_used(caller, asset, payments).with_holding(
            asset,
            debited(self.holding_of(asset), payment_sum(payments)),
        )
    }

    /// The environment after the calls that every batch payout makes.
    pub open spec fn batch_gates(
        self,
        e: EnvView,
        caller: Address,
        asset: Address,
        payments: Seq<Payment>,
    ) -> EnvView {
        let e1 = e.auth(caller);
        let e2 = match self.treasury->0.policy {
            Some(policy) => check_legs(e1, policy, asset, payments),
            None => e1,
        };
        self.consume_budget(e2, caller, asset, payment_sum(payments) as i128)
    }

    /// The environment after a batch payout.
    pub open spec fn batch_env(
        self,
        e: EnvView,
        caller: Address,
        asset: Address,
        payments: Seq<Payment>,
    ) -> EnvView {
        let total = payment_sum(payments) as i128;
        let count = payments.len() as u32;
        pay_legs(
            self.batch_gates(e, caller, asset, payments),
            asset,
            e.contract,
            payments,
        ).emit(
            Event::Contract(
                ContractEvent::BatchTransferExecuted { from: caller, asset, count, total },
            ),
        ).emit(Event::TreasuryBatchPaid { asset, count, total })
    }

    /// What setting up a milestone disbursement returns.
    pub open spec fn init_milestone_outcome(
        self,
        caller: Address,
        total_amount: i128,
        milestones: u32,
    ) -> Result<u64, Error> {
        if self.treasury->0.admin != caller {
            Err(Error::Unauthorized)
        } else if total_amount <= 0 {
            Err(Error::InvalidAmount)
        } else if milestones == 0 {
            Err(Error::InvalidInput)
        } else if self.milestone_count == u64::MAX {
            Err(Error::Overflow)
        } else {
            Ok((self.milestone_count + 1) as u64)
        }
    }

    /// The checks of a milestone payout that come before any contract is called.
    pub open spec fn milestone_check(self, caller: Address, id: u64) -> Result<(), Error> {
        if self.treasury->0.admin != caller {
            Err(Error::Unauthorized)
        } else if self.frozen {
            Err(Error::InvalidState)
        } else if !self.milestones.contains_key(id) {
            Err(Error::NotFound)
        } else {
            check(
                self.milestones[id].disbursed < self.milestones[id].milestones,
                Error::InvalidState,
            )
        }
    }

    /// What the next milestone of a disbursement pays.
    pub open spec fn next_amount(self, id: u64) -> int {
        milestone_amount(self.milestones[id], self.milestones[id].disbursed as int)
    }

    /// The environment after the next milestone of a disbursement was paid.
    pub open spec fn milestone_env(self, e: EnvView, caller: Address, id: u64) -> EnvView {
        let d = self.milestones[id];
        let amount = self.next_amount(id) as i128;
        self.withdraw_gates(e, caller, d.asset, d.to, amount).transfer(
            d.asset,
            e.contract,
            d.to,
            amount,
        ).emit(Event::MilestoneDisbursed { id, disbursed: (d.disbursed + 1) as u32, amount })
    }

    /// What a milestone payout returns, its policy and budget agreeing.
    pub open spec fn release_milestone_outcome(self, now: u64, caller: Address, id: u64) -> Result<
        (),
        Error,
    > {
        if self.milestone_check(caller, id) is Err {
            self.milestone_check(caller, id)
        } else {
            let d = self.milestones[id];
            let h = self.holding_of(d.asset);
            let allowance = AllowanceId { agent: caller, recipient: d.to, asset: d.asset };
            if self.allowance_check(now, allowance, self.next_amount(id)) is Err {
                self.allowance_check(now, allowance, self.next_amount(id))
            } else if h.total_in < self.next_amount(id) {
                Err(Error::InsufficientFunds)
            } else {
                check(in_range(h.total_out + self.next_amount(id)), Error::Overflow)
            }
        }
    }

    /// The state after the next milestone of a disbursement was paid.
    pub open spec fn milestone_released(self, caller: Address, id: u64) -> TreasuryView {
        let d = self.milestones[id];
        let allowance = AllowanceId { agent: caller, recipient: d.to, asset: d.asset };
        let s = self.allowance_used(allowance, self.next_amount(id)).with_holding(
            d.asset,
            debited(self.holding_of(d.asset), self.next_amount(id)),
        );
        TreasuryView {
            milestones: self.milestones.insert(
                id,
                MilestoneDisbursement { disbursed: (d.disbursed + 1) as u32, ..d },
            ),
            ..s
        }
    }
}

proof fn lemma_milestone(d: MilestoneDisbursement)
    requires
        milestone_ok(d),
    ensures
        0 <= d.amount_per_milestone,
        0 <= d.amount_per_milestone * (d.milestones - 1) <= d.total_amount,
        d.amount_per_milestone * d.milestones <= d.total_amount,
{
    let q = d.amount_per_milestone as int;
    let m = d.milestones as int;
    vstd::arithmetic::div_mod::lemma_fundamental_div_mod(d.total_amount as int, m);
    vstd::arithmetic::div_mod::lemma_div_pos_is_pos(d.total_amount as int, m);
    assert(0 <= q * (m - 1) <= q * m && m * q == q * m) by (nonlinear_arith)
        requires
            0 <= q,
            0 < m,
    ;
}

impl TreasuryContract {
    /// A contract with empty storage.
    pub fn new() -> (r: Self)
        ensures
            r@ == (TreasuryView {
                treasury: None,
                holdings: Map::empty(),
                reentrancy_lock: false,
                frozen: false,
                milestones: Map::empty(),
                milestone_count: 0,
                allowances: Map::empty(),
            }),
            r@.wf(),
    {
        TreasuryContract {
            treasury: None,
            holdings: Table::new(),
            reentrancy_lock: false,
            frozen: false,
            milestones: Table::new(),
            milestone_count: 0,
            allowances: Table::new(),
        }
    }

    fn lock(&mut self) -> (r: Result<(), Error>)
        ensures
            r == check(!old(self)@.reentrancy_lock, Error::InvalidState),
            final(self)@ == (if r is Err {
                old(self)@
            } else {
                TreasuryView { reentrancy_lock: false, ..old(self)@ }
            }),
            r is Err ==> *final(self) == *old(self),
    {
        if self.reentrancy_lock {
            return Err(Error::InvalidState);
        }
        self.reentrancy_lock = true;
        self.unlock();
        Ok(())
    }

    fn unlock(&mut self)
        ensures
            final(self)@ == (TreasuryView { reentrancy_lock: false, ..old(self)@ }),
    {
        self.reentrancy_lock = false;
    }

    /// Create a treasury for `org`, gated on the admin's signature.
    pub fn initialize(&mut self, env: &mut CallEnv, org: String, admin: Address) -> (r: Result<
        (),
        Error,
    >)
        ensures
            r == (if old(self)@.treasury is Some {
                Err::<(), Error>(Error::AlreadyInitialized)
            } else {
                check(org@.len() > 0, Error::InvalidInput)
            }),
            r is Err ==> *final(self) == *old(self) && final(env)@ == old(env)@,
            r is Ok ==> final(self)@ == (TreasuryView {
                treasury: Some(
                    Treasury {
                        org,
                        admin,
                        multisig: None,
                        policy: None,
                        budget: None,
                        state: ResourceState::Active,
                    },
                ),
                reentrancy_lock: false,
                ..old(self)@
            }) && final(env)@ == old(env)@.auth(admin).emit(Event::TreasuryCreated { org, admin }),
            old(self)@.wf() ==> final(self)@.wf(),
    {
        if self.treasury.is_some() {
            return Err(Error::AlreadyInitialized);
        }
        require_non_empty(&org)?;
        env.require_auth(admin);
        treasury_created(env, &org, &admin);
        self.treasury = Some(
            Treasury {
                org,
                admin,
                multisig: None,
                policy: None,
                budget: None,
                state: ResourceState::Active,
            },
        );
        self.unlock();
        Ok(())
    }

    fn require_admin(&self, env: &mut CallEnv, caller: &Address) -> (r: Result<(), Error>)
        requires
            self@.treasury is Some,
        ensures
            r == self@.admin_check(*caller),
            final(env)@ == (if r is Ok {
                old(env)@.auth(*caller)
            } else {
                old(env)@
            }),
    {
        if self.load().admin != *caller {
            return Err(Error::Unauthorized);
        }
        env.require_auth(*caller);
        Ok(())
    }

    fn require_freezer(&self, env: &mut CallEnv, caller: &Address) -> (r: Result<(), Error>)
        requires
            self@.treasury is Some,
        ensures
            r == check(self@.freezer() == *caller, Error::Unauthorized),
            final(env)@ == (if r is Ok {
                old(env)@.auth(*caller)
            } else {
                old(env)@
            }),
    {
        let t = self.load();
        let freezer = match t.multisig {
            Some(m) => m,
            None => t.admin,
        };
        if freezer != *caller {
            return Err(Error::Unauthorized);
        }
        env.require_auth(*caller);
        Ok(())
    }

    fn load(&self) -> (r: &Treasury)
        requires
            self@.treasury is Some,
        ensures
            *r == self@.treasury->0,
    {
        match &self.treasury {
            Some(t) => t,
            None => {
                proof {
                    assert(false);
                }
                vstd::pervasive::unreached()
            },
        }
    }

    /// Wire the policy-enforcement contract consulted before every spend.
    pub fn set_policy(&mut self, env: &mut CallEnv, caller: Address, policy: Address) -> (r: Result<
        (),
        Error,
    >)
        requires
            old(self)@.treasury is Some,
        ensures
            r == old(self)@.admin_check(caller),
            r is Err ==> *final(self) == *old(self) && final(env)@ == old(env)@,
            r is Ok ==> {
                let t = old(self)@.treasury->0;
                &&& final(self)@ == (TreasuryView {
                    treasury: Some(Treasury { policy: Some(policy), ..t }),
                    reentrancy_lock: false,
                    ..old(self)@
                })
                &&& final(env)@ == old(env)@.auth(caller).emit(
                    Event::Contract(
                        ContractEvent::TreasuryConfigUpdated { org: t.org, action: "policy" },
                    ),
                ).emit(Event::TreasuryPolicySet)
            },
            old(self)@.wf() ==> final(self)@.wf(),
    {
        self.require_admin(env, &caller)?;
        let mut t = self.treasury.take().unwrap();
        t.policy = Some(policy);
        publish(
            env,
            ContractEvent::TreasuryConfigUpdated { org: t.org.clone(), action: "policy" },
        );
        env.publish(Event::TreasuryPolicySet);
        self.treasury = Some(t);
        self.unlock();
        Ok(())
    }

    /// Wire the budget-tracking contract backing this treasury.
    pub fn set_budget(&mut self, env: &mut CallEnv, caller: Address, budget: Address) -> (r: Result<
        (),
        Error,
    >)
        requires
            old(self)@.treasury is Some,
        ensures
            r == old(self)@.admin_check(caller),
            r is Err ==> *final(self) == *old(self) && final(env)@ == old(env)@,
            r is Ok ==> {
                let t = old(self)@.treasury->0;
                &&& final(self)@ == (TreasuryView {
                    treasury: Some(Treasury { budget: Some(budget), ..t }),
                    reentrancy_lock: false,
                    ..old(self)@
                })
                &&& final(env)@ == old(env)@.auth(caller).emit(
                    Event::Contract(
                        ContractEvent::TreasuryConfigUpdated { org: t.org, action: "budget" },
                    ),
                ).emit(Event::TreasuryBudgetSet)
            },
            old(self)@.wf() ==> final(self)@.wf(),
    {
        self.require_admin(env, &caller)?;
        let mut t = self.treasury.take().unwrap();
        t.budget = Some(budget);
        publish(
            env,
            ContractEvent::TreasuryConfigUpdated { org: t.org.clone(), action: "budget" },
        );
        env.publish(Event::TreasuryBudgetSet);
        self.treasury = Some(t);
        self.unlock();
        Ok(())
    }

    /// Wire the multisig contract authorized for emergency freeze and unfreeze.
    pub fn set_multisig(&mut self, env: &mut CallEnv, caller: Address, multisig: Address) -> (r:
        Result<(), Error>)
        requires
            old(self)@.treasury is Some,
        ensures
            r == old(self)@.admin_check(caller),
            r is Err ==> *final(self) == *old(self) && final(env)@ == old(env)@,
            r is Ok ==> {
                let t = old(self)@.treasury->0;
                &&& final(self)@ == (TreasuryView {
                    treasury: Some(Treasury { multisig: Some(multisig), ..t }),
                    reentrancy_lock: false,
                    ..old(self)@
                })
                &&& final(env)@ == old(env)@.auth(caller).emit(
                    Event::Contract(
                        ContractEvent::TreasuryConfigUpdated { org: t.org, action: "multisig" },
                    ),
                ).emit(Event::TreasuryMultisigSet)
            },
            old(self)@.wf() ==> final(self)@.wf(),
    {
        self.require_admin(env, &caller)?;
        let mut t = self.treasury.take().unwrap();
        t.multisig = Some(multisig);
        publish(
            env,
            ContractEvent::TreasuryConfigUpdated { org: t.org.clone(), action: "multisig" },
        );
        env.publish(Event::TreasuryMultisigSet);
        self.treasury = Some(t);
        self.unlock();
        Ok(())
    }

    /// Emergency freeze by the organization's multisig (by the admin while none
    /// is wired). Sets a flag that blocks all outbound transfers and deposits.
    pub fn freeze(&mut self, env: &mut CallEnv, caller: Address) -> (r: Result<(), Error>)
        requires
            old(self)@.treasury is Some,
        ensures
            r == check(old(self)@.freezer() == caller, Error::Unauthorized),
            r is Err ==> *final(self) == *old(self) && final(env)@ == old(env)@,
            r is Ok ==> final(self)@ == (TreasuryView {
                frozen: true,
                reentrancy_lock: false,
                ..old(self)@
            }) && final(env)@ == old(env)@.auth(caller).emit(
                Event::Contract(
                    ContractEvent::TreasuryFrozen { org: old(self)@.treasury->0.org },
                ),
            ).emit(Event::TreasuryFrozen),
            old(self)@.wf() ==> final(self)@.wf(),
    {
        self.require_freezer(env, &caller)?;
        publish(env, ContractEvent::TreasuryFrozen { org: self.load().org.clone() });
        env.publish(Event::TreasuryFrozen);
        self.frozen = true;
        self.unlock();
        Ok(())
    }

    /// Emergency unfreeze by the organization's multisig (by the admin while
    /// none is wired). Clears the flag to restore transfers.
    pub fn unfreeze(&mut self, env: &mut CallEnv, caller: Address) -> (r: Result<(), Error>)
        requires
            old(self)@.treasury is Some,
        ensures
            r == (if old(self)@.freezer() != caller {
                Err::<(), Error>(Error::Unauthorized)
            } else {
                check(old(self)@.frozen, Error::InvalidState)
            }),
            r is Err ==> *final(self) == *old(self) && final(env)@ == (if old(self)@.freezer()
                == caller {
                old(env)@.auth(caller)
            } else {
                old(env)@
            }),
            r is Ok ==> final(self)@ == (TreasuryView {
                frozen: false,
                reentrancy_lock: false,
                ..old(self)@
            }) && final(env)@ == old(env)@.auth(caller).emit(
                Event::Contract(
                    ContractEvent::TreasuryUnfrozen { org: old(self)@.treasury->0.org },
                ),
            ).emit(Event::TreasuryUnfrozen),
            old(self)@.wf() ==> final(self)@.wf(),
    {
        self.require_freezer(env, &caller)?;
        if !self.frozen {
            return Err(Error::InvalidState);
        }
        publish(env, ContractEvent::TreasuryUnfrozen { org: self.load().org.clone() });
        env.publish(Event::TreasuryUnfrozen);
        self.frozen = false;
        self.unlock();
        Ok(())
    }

    fn check_frozen(&self) -> (r: Result<(), Error>)
        ensures
            r == check(!self@.frozen, Error::InvalidState),
    {
        if self.frozen {
            return Err(Error::InvalidState);
        }
        Ok(())
    }

    fn require_active(&self) -> (r: Result<(), Error>)
        requires
            self@.treasury is Some,
        ensures
            r == check(
                self@.treasury->0.state == ResourceState::Active,
                Error::InvalidState,
            ),
    {
        match self.load().state {
            ResourceState::Active => Ok(()),
            _ => Err(Error::InvalidState),
        }
    }

    fn load_holding(&self, asset: &Address) -> (r: Holding)
        ensures
            r == self@.holding_of(*asset),
    {
        match self.holdings.get(asset) {
            Some(h) => Holding {
                asset: h.asset,
                total_in: h.total_in,
                total_out: h.total_out,
                budget_id: match &h.budget_id {
                    Some(id) => Some(id.clone()),
                    None => None,
                },
            },
            None => Holding { asset: *asset, total_in: 0, total_out: 0, budget_id: None },
        }
    }

    /// Deposit assets into the treasury (any funder may authorize). Moves tokens
    /// from `from` into the treasury's custody and credits the accounting.
    pub fn deposit(&mut self, env: &mut CallEnv, from: Address, asset: Address, amount: i128) -> (r:
        Result<(), Error>)
        requires
            old(self)@.treasury is Some,
        ensures
            r == old(self)@.deposit_outcome(asset, amount),
            r is Err ==> *final(self) == *old(self) && final(env)@ == (if amount > 0 {
                old(env)@.auth(from)
            } else {
                old(env)@
            }),
            r is Ok ==> final(self)@ == old(self)@.deposited(asset, amount) && final(env)@
                == old(self)@.deposit_env(old(env)@, from, asset, amount),
            old(self)@.wf() ==> final(self)@.wf(),
    {
        require_positive_amount(amount)?;
        env.require_auth(from);
        self.check_frozen()?;
        self.require_active()?;
        let mut h = self.load_holding(&asset);
        if self.reentrancy_lock {
            return Err(Error::InvalidState);
        }
        h.total_in = checked_add(h.total_in, amount)?;
        self.lock()?;
        self.holdings.set(asset, h);
        env.publish(Event::TreasuryDeposited { asset, amount });
        let custody = env.contract;
        env.transfer(asset, from, custody, amount);
        self.unlock();
        Ok(())
    }

    /// Attach a budget envelope to an asset (admin).
    pub fn allocate_budget(
        &mut self,
        env: &mut CallEnv,
        admin: Address,
        asset: Address,
        budget_id: String,
    ) -> (r: Result<(), Error>)
        requires
            old(self)@.treasury is Some,
        ensures
            r == (if old(self)@.treasury->0.admin != admin {
                Err::<(), Error>(Error::Unauthorized)
            } else {
                check(budget_id@.len() > 0, Error::InvalidInput)
            }),
            final(env)@ == (if old(self)@.treasury->0.admin == admin {
                old(env)@.auth(admin)
            } else {
                old(env)@
            }),
            r is Err ==> *final(self) == *old(self),
            r is Ok ==> final(self)@ == old(self)@.with_holding(
                asset,
                Holding { budget_id: Some(budget_id), ..old(self)@.holding_of(asset) },
            ),
            old(self)@.wf() ==> final(self)@.wf(),
    {
        self.require_admin(env, &admin)?;
        require_non_empty(&budget_id)?;
        let mut h = self.load_holding(&asset);
        h.budget_id = Some(budget_id);
        self.holdings.set(asset, h);
        self.unlock();
        Ok(())
    }

    /// Create or update a withdrawal allowance capping how much `agent` may send
    /// to `recipient` in `asset`. `limit` is the cumulative ceiling; `expires_at`
    /// is an optional expiry (0 = no expiry). Admin only.
    pub fn set_allowance(
        &mut self,
        env: &mut CallEnv,
        admin: Address,
        agent: Address,
        recipient: Address,
        asset: Address,
        limit: i128,
        expires_at: u64,
    ) -> (r: Result<(), Error>)
        requires
            old(self)@.treasury is Some,
        ensures
            r == (if old(self)@.treasury->0.admin != admin {
                Err::<(), Error>(Error::Unauthorized)
            } else if limit <= 0 {
                Err(Error::InvalidAmount)
            } else {
                check(agent != recipient, Error::InvalidInput)
            }),
            r is Err ==> *final(self) == *old(self) && final(env)@ == (if old(self)@.treasury->0.admin == admin {
                old(env)@.auth(admin)
            } else {
                old(env)@
            }),
            r is Ok ==> final(self)@ == (TreasuryView {
                allowances: old(self)@.allowances.insert(
                    AllowanceId { agent, recipient, asset },
                    Allowance { agent, recipient, asset, limit, spent: 0, expires_at },
                ),
                reentrancy_lock: false,
                ..old(self)@
            }) && final(env)@ == old(env)@.auth(admin).emit(Event::AllowanceSet),
            old(self)@.wf() ==> final(self)@.wf(),
    {
        self.require_admin(env, &admin)?;
        require_positive_amount(limit)?;
        if agent == recipient {
            return Err(Error::InvalidInput);
        }
        self.allowances.set(
            AllowanceId { agent, recipient, asset },
            Allowance { agent, recipient, asset, limit, spent: 0, expires_at },
        );
        env.publish(Event::AllowanceSet);
        self.unlock();
        Ok(())
    }

    /// Remove an active withdrawal allowance (admin only).
    pub fn remove_allowance(
        &mut self,
        env: &mut CallEnv,
        admin: Address,
        agent: Address,
        recipient: Address,
        asset: Address,
    ) -> (r: Result<(), Error>)
        requires
            old(self)@.treasury is Some,
        ensures
            r == (if old(self)@.treasury->0.admin != admin {
                Err::<(), Error>(Error::Unauthorized)
            } else {
                check(
                    old(self)@.allowances.contains_key(AllowanceId { agent, recipient, asset }),
                    Error::NotFound,
                )
            }),
            r is Err ==> *final(self) == *old(self) && final(env)@ == (if old(self)@.treasury->0.admin == admin {
                old(env)@.auth(admin)
            } else {
                old(env)@
            }),
            r is Ok ==> final(self)@ == (TreasuryView {
                allowances: old(self)@.allowances.remove(AllowanceId { agent, recipient, asset }),
                reentrancy_lock: false,
                ..old(self)@
            }) && final(env)@ == old(env)@.auth(admin).emit(Event::AllowanceRemoved),
            old(self)@.wf() ==> final(self)@.wf(),
    {
        self.require_admin(env, &admin)?;
        let id = AllowanceId { agent, recipient, asset };
        if !self.allowances.has(&id) {
            return Err(Error::NotFound);
        }
        self.allowances.remove(&id);
        env.publish(Event::AllowanceRemoved);
        self.unlock();
        Ok(())
    }

    /// Read the current state of a withdrawal allowance.
    pub fn allowance(&self, agent: Address, recipient: Address, asset: Address) -> (r: Result<
        Allowance,
        Error,
    >)
        ensures
            ({
                let id = AllowanceId { agent, recipient, asset };
                r == (if self@.allowances.contains_key(id) {
                    Ok::<Allowance, Error>(self@.allowances[id])
                } else {
                    Err(Error::NotFound)
                })
            }),
    {
        match self.allowances.get(&AllowanceId { agent, recipient, asset }) {
            Some(a) => Ok(*a),
            None => Err(Error::NotFound),
        }
    }

    /// Has the budget contract consume an amount, where one backs the asset.
    fn record_budget(
        &self,
        env: &mut CallEnv,
        caller: Address,
        asset: &Address,
        amount: i128,
    )
        requires
            self@.treasury is Some,
        ensures
            final(env)@ == self@.consume_budget(old(env)@, caller, *asset, amount),
    {
        let holding = self.load_holding(asset);
        if let (Some(budget), Some(budget_id)) = (self.load().budget, holding.budget_id) {
            env.record(Effect::ConsumeBudget { budget, caller, budget_id, amount });
        }
    }

    /// Has the policy contract, where one is wired, asked about a spend.
    fn record_policy(
        &self,
        env: &mut CallEnv,
        asset: Address,
        recipient: Address,
        amount: i128,
    )
        requires
            self@.treasury is Some,
        ensures
            final(env)@ == self@.ask_policy(old(env)@, asset, recipient, amount),
    {
        if let Some(policy) = self.load().policy {
            env.record(
                Effect::CheckPolicy { policy, policy_id: "active", asset, recipient, amount },
            );
        }
    }

    /// The allowance as it is after an amount was spent under it, where there is
    /// one.
    fn spend_allowance(&self, now: u64, id: &AllowanceId, amount: i128) -> (r: Result<
        Option<Allowance>,
        Error,
    >)
        requires
            self@.wf(),
            amount >= 0,
        ensures
            match r {
                Ok(a) => {
                    &&& self@.allowance_check(now, *id, amount as int) is Ok
                    &&& a is Some <==> self@.allowances.contains_key(*id)
                    &&& a is Some ==> self@.allowance_used(*id, amount as int).allowances
                        == self@.allowances.insert(*id, a->0) && 0 <= a->0.spent <= a->0.limit
                },
                Err(e) => self@.allowance_check(now, *id, amount as int) == Err::<(), Error>(e),
            },
    {
        let mut al = match self.allowances.get(id) {
            Some(found) => *found,
            None => return Ok(None),
        };
        if al.expires_at != 0 && now >= al.expires_at {
            return Err(Error::AllowanceExpired);
        }
        if amount > al.limit - al.spent {
            return Err(Error::AllowanceExceeded);
        }
        al.spent = al.spent + amount;
        Ok(Some(al))
    }

    fn require_spender(&self, caller: &Address) -> (r: Result<(), Error>)
        requires
            self@.treasury is Some,
        ensures
            r == self@.spend_check(*caller),
    {
        self.check_frozen()?;
        self.require_active()?;
        if self.load().admin != *caller {
            return Err(Error::Unauthorized);
        }
        Ok(())
    }

    /// Withdraw assets to a recipient. Only the admin may call, and the spend
    /// must clear policy and budget gates before the ledger is debited. An
    /// allowance for the caller, the recipient and the asset caps the spend.
    pub fn withdraw(
        &mut self,
        env: &mut CallEnv,
        caller: Address,
        asset: Address,
        to: Address,
        amount: i128,
    ) -> (r: Result<(), Error>)
        requires
            old(self)@.treasury is Some,
            old(self)@.wf(),
        ensures
            final(self)@.wf(),
            r == old(self)@.withdraw_outcome(old(env)@.timestamp, caller, asset, to, amount),
            r is Err ==> *final(self) == *old(self) && final(env)@ == (if amount <= 0 || old(self)@.spend_check(caller) is Err {
                old(env)@
            } else {
                old(self)@.withdraw_gates(old(env)@, caller, asset, to, amount)
            }),
            r is Ok ==> final(self)@ == old(self)@.withdrawn(caller, asset, to, amount)
                && final(env)@ == old(self)@.withdraw_env(old(env)@, caller, asset, to, amount),
    {
        require_positive_amount(amount)?;
        self.require_spender(&caller)?;
        env.require_auth(caller);

        // 1. Policy verification: the policy contract evaluates the spend.
        self.record_policy(env, asset, to, amount);

        // 2. Budget consumption: aborts if the envelope lacks headroom.
        self.record_budget(env, caller, &asset, amount);

        // 3. Withdrawal allowance enforcement per (agent, recipient, asset).
        let id = AllowanceId { agent: caller, recipient: to, asset };
        let allowance = self.spend_allowance(env.timestamp, &id, amount)?;

        // 4. Debit the internal ledger, then move tokens out of custody.
        let mut holding = self.load_holding(&asset);
        if holding.total_in < amount {
            return Err(Error::InsufficientFunds);
        }
        holding.total_in = holding.total_in - amount;
        holding.total_out = checked_add(holding.total_out, amount)?;
        self.unlock();
        if let Some(al) = allowance {
            self.allowances.set(id, al);
        }
        self.holdings.set(asset, holding);
        transfer_executed(env, &caller, &to, &asset, amount);
        let custody = env.contract;
        env.transfer(asset, custody, to, amount);
        transfer_executed(env, &caller, &to, &asset, amount);
        publish(env, ContractEvent::TransferExecuted { from: caller, to, asset, amount });
        Ok(())
    }

    /// The total of a batch, every leg being valid.
    fn batch_total(payments: &Vec<Payment>) -> (r: Result<i128, Error>)
        ensures
            match r {
                Ok(total) => legs_check(payments@) is Ok && total == payment_sum(payments@) && total
                    >= 0,
                Err(e) => legs_check(payments@) == Err::<(), Error>(e),
            },
    {
        let n: usize = payments.len();
        let ghost f = leg_ok(payments@);
        let mut total: i128 = 0;
        let mut i: usize = 0;
        assert(payments@.take(0) =~= Seq::<Payment>::empty());
        while i < n
            invariant
                i <= n,
                n == payments@.len(),
                f == leg_ok(payments@),
                leading(f, i as nat) == i,
                total == payment_sum(payments@.take(i as int)),
                total >= 0,
            decreases n - i,
        {
            assert(payments@.take(i + 1).drop_last() =~= payments@.take(i as int));
            if let Err(e) = require_positive_amount(payments[i].amount) {
                proof {
                    assert(!f(i as int));
                    lemma_leading_stops(f, i as nat, n as nat);
                }
                return Err(e);
            }
            total = match checked_add(total, payments[i].amount) {
                Ok(t) => t,
                Err(e) => {
                    proof {
                        assert(!f(i as int));
                        lemma_leading_stops(f, i as nat, n as nat);
                    }
                    return Err(e);
                },
            };
            assert(f(i as int));
            i = i + 1;
        }
        assert(payments@.take(i as int) =~= payments@);
        Ok(total)
    }

    /// What the legs up to and including one send to its recipient.
    fn sent_by(payments: &Vec<Payment>, index: usize) -> (r: i128)
        requires
            index < payments@.len(),
            legs_check(payments@) is Ok,
        ensures
            r == sent_to(payments@.take(index + 1), payments@[index as int].recipient),
            r > 0,
    {
        let recipient = payments[index].recipient;
        let n: usize = payments.len();
        let ghost f = leg_ok(payments@);
        let mut sent: i128 = 0;
        let mut i: usize = 0;
        proof {
            lemma_leading_all(f, payments@.len());
        }
        assert(payments@.take(0) =~= Seq::<Payment>::empty());
        while i <= index
            invariant
                i <= index + 1,
                index < n == payments@.len(),
                f == leg_ok(payments@),
                forall|j: int| 0 <= j < payments@.len() ==> #[trigger] f(j),
                recipient == payments@[index as int].recipient,
                sent == sent_to(payments@.take(i as int), recipient),
                sent >= 0,
                i > index ==> sent > 0,
            decreases index + 1 - i,
        {
            proof {
                let upto = payments@.take(i + 1);
                assert(f(i as int));
                assert(upto.drop_last() =~= payments@.take(i as int));
                assert forall|j: int| 0 <= j < upto.len() implies #[trigger] upto[j].amount > 0 by {
                    assert(f(j));
                }
                lemma_sent_to(upto, recipient);
            }
            if payments[i].recipient == recipient {
                sent = sent + payments[i].amount;
            }
            i = i + 1;
        }
        sent
    }

    /// Whether the caller's allowances cover a batch.
    fn require_allowances(
        &self,
        now: u64,
        caller: Address,
        asset: Address,
        payments: &Vec<Payment>,
    ) -> (r: Result<(), Error>)
        requires
            self@.wf(),
            legs_check(payments@) is Ok,
        ensures
            r == self@.allowances_check(now, caller, asset, payments@),
            r is Ok ==> self@.legs_covered(caller, asset, payments@),
    {
        let n: usize = payments.len();
        let ghost f = self@.leg_allowed(now, caller, asset, payments@);
        let mut i: usize = 0;
        while i < n
            invariant
                i <= n,
                n == payments@.len(),
                self@.wf(),
                legs_check(payments@) is Ok,
                f == self@.leg_allowed(now, caller, asset, payments@),
                leading(f, i as nat) == i,
            decreases n - i,
        {
            let id = AllowanceId { agent: caller, recipient: payments[i].recipient, asset };
            if let Err(e) = self.spend_allowance(now, &id, Self::sent_by(payments, i)) {
                proof {
                    assert(!f(i as int));
                    lemma_leading_stops(f, i as nat, n as nat);
                }
                return Err(e);
            }
            assert(f(i as int));
            i = i + 1;
        }
        proof {
            lemma_leading_all(f, payments@.len());
            assert forall|j: int| #![trigger payments@[j]] 0 <= j < n implies f(j) by {}
        }
        Ok(())
    }

    /// Spends a batch under the caller's allowances, which cover it.
    fn use_allowances(&mut self, caller: Address, asset: Address, payments: &Vec<Payment>)
        requires
            old(self)@.wf(),
            legs_check(payments@) is Ok,
            old(self)@.legs_covered(caller, asset, payments@),
        ensures
            final(self)@ == old(self)@.allowances_used(caller, asset, payments@),
            final(self)@.wf(),
    {
        let n: usize = payments.len();
        let ghost f = leg_ok(payments@);
        let ghost before = self@;
        let mut i: usize = 0;
        proof {
            lemma_leading_all(f, payments@.len());
        }
        assert(payments@.take(0) =~= Seq::<Payment>::empty());
        assert(self@ =~= before.allowances_used(caller, asset, payments@.take(0)));
        while i < n
            invariant
                i <= n,
                n == payments@.len(),
                f == leg_ok(payments@),
                forall|j: int| 0 <= j < payments@.len() ==> #[trigger] f(j),
                before.wf(),
                before.legs_covered(caller, asset, payments@),
                self@ == before.allowances_used(caller, asset, payments@.take(i as int)),
                self@.wf(),
            decreases n - i,
        {
            let ghost now = self@;
            let leg = payments[i];
            let id = AllowanceId { agent: caller, recipient: leg.recipient, asset };
            proof {
                let upto = payments@.take(i + 1);
                assert(f(i as int));
                assert(upto.drop_last() =~= payments@.take(i as int));
                assert forall|j: int| 0 <= j < upto.len() implies #[trigger] upto[j].amount > 0 by {
                    assert(f(j));
                }
                assert forall|j: int| 0 <= j < i implies #[trigger] payments@.take(
                    i as int,
                )[j].amount > 0 by {
                    assert(f(j));
                }
                lemma_sent_to(upto, leg.recipient);
                lemma_sent_to(payments@.take(i as int), leg.recipient);
                assert(payments@[i as int] == leg);
            }
            let mut changed: Option<Allowance> = None;
            if let Some(found) = self.allowances.get(&id) {
                let mut al = *found;
                al.spent = al.spent + leg.amount;
                changed = Some(al);
            }
            if let Some(al) = changed {
                self.allowances.set(id, al);
            }
            assert(self@ =~= before.allowances_used(caller, asset, payments@.take(i + 1)));
            i = i + 1;
        }
        assert(payments@.take(i as int) =~= payments@);
    }

    fn record_policy_checks(
        env: &mut CallEnv,
        policy: Address,
        asset: Address,
        payments: &Vec<Payment>,
    )
        ensures
            final(env)@ == check_legs(old(env)@, policy, asset, payments@),
    {
        let ghost start = env@;
        let mut i: usize = 0;
        assert(payments@.take(0) =~= Seq::<Payment>::empty());
        while i < payments.len()
            invariant
                i <= payments@.len(),
                start == old(env)@,
                env@ == check_legs(start, policy, asset, payments@.take(i as int)),
            decreases payments@.len() - i,
        {
            assert(payments@.take(i + 1).drop_last() =~= payments@.take(i as int));
            env.record(
                Effect::CheckPolicy {
                    policy,
                    policy_id: "active",
                    asset,
                    recipient: payments[i].recipient,
                    amount: payments[i].amount,
                },
            );
            i = i + 1;
        }
        assert(payments@.take(i as int) =~= payments@);
    }

    fn pay(env: &mut CallEnv, asset: Address, from: Address, payments: &Vec<Payment>)
        ensures
            final(env)@ == pay_legs(old(env)@, asset, from, payments@),
    {
        let ghost start = env@;
        let mut i: usize = 0;
        assert(payments@.take(0) =~= Seq::<Payment>::empty());
        while i < payments.len()
            invariant
                i <= payments@.len(),
                start == old(env)@,
                env@ == pay_legs(start, asset, from, payments@.take(i as int)),
            decreases payments@.len() - i,
        {
            assert(payments@.take(i + 1).drop_last() =~= payments@.take(i as int));
            env.transfer(asset, from, payments[i].recipient, payments[i].amount);
            i = i + 1;
        }
        assert(payments@.take(i as int) =~= payments@);
    }

    /// Disburse `payments` of a single `asset` to many recipients in one atomic
    /// transaction. Only the admin may call, and the batch clears exactly the
    /// same gates as [`TreasuryContract::withdraw`] (policy and allowance per leg,
    /// budget for the aggregate) before the ledger is debited.
    ///
    /// The total is accumulated with checked math and verified against the
    /// treasury's recorded balance up front, so an over-drawing batch is
    /// rejected before any token moves: a batch either pays every recipient or
    /// none of them.
    pub fn batch_transfer(
        &mut self,
        env: &mut CallEnv,
        caller: Address,
        asset: Address,
        payments: &Vec<Payment>,
    ) -> (r: Result<(), Error>)
        requires
            old(self)@.treasury is Some,
            old(self)@.wf(),
        ensures
            final(self)@.wf(),
            r == old(self)@.batch_outcome(old(env)@.timestamp, caller, asset, payments@),
            r is Err ==> *final(self) == *old(self) && final(env)@ == (if payments@.len() == 0
                || payments@.len() > MAX_BATCH_PAYMENTS || old(self)@.spend_check(caller) is Err {
                old(env)@
            } else if old(self)@.batch_balance_check(asset, payments@) is Err {
                old(env)@.auth(caller)
            } else {
                old(self)@.batch_gates(old(env)@, caller, asset, payments@)
            }),
            r is Ok ==> final(self)@ == old(self)@.batch_paid(caller, asset, payments@)
                && final(env)@ == old(self)@.batch_env(old(env)@, caller, asset, payments@),
    {
        if payments.len() == 0 || payments.len() > MAX_BATCH_PAYMENTS as usize {
            return Err(Error::InvalidInput);
        }
        self.require_spender(&caller)?;
        env.require_auth(caller);

        // 1. Validate every leg and accumulate the payout with checked math.
        let total: i128 = Self::batch_total(payments)?;

        // 2. Cumulative balance check against the recorded holding.
        let mut holding = self.load_holding(&asset);
        if holding.total_in < total {
            return Err(Error::InsufficientFunds);
        }

        // 3. Policy verification: each leg is evaluated on its own.
        let now: u64 = env.timestamp;
        let custody = env.contract;
        if let Some(policy) = self.load().policy {
            Self::record_policy_checks(env, policy, asset, payments);
        }

        // 4. Budget consumption: one debit for the aggregate.
        self.record_budget(env, caller, &asset, total);

        // 5. Withdrawal allowance enforcement: each leg on its own, together
        //    with the legs before it that go to the same recipient.
        self.require_allowances(now, caller, asset, payments)?;

        // 6. Debit the internal ledger once, then move tokens per recipient.
        holding.total_in = holding.total_in - total;
        holding.total_out = checked_add(holding.total_out, total)?;
        self.unlock();
        self.use_allowances(caller, asset, payments);
        self.holdings.set(asset, holding);
        Self::pay(env, asset, custody, payments);
        let count: u32 = payments.len() as u32;
        publish(env, ContractEvent::BatchTransferExecuted { from: caller, asset, count, total });
        env.publish(Event::TreasuryBatchPaid { asset, count, total });
        Ok(())
    }

    /// Initialize a milestone-based disbursement.
    pub fn init_milestone_disbursement(
        &mut self,
        env: &mut CallEnv,
        caller: Address,
        asset: Address,
        to: Address,
        total_amount: i128,
        milestones: u32,
    ) -> (r: Result<u64, Error>)
        requires
            old(self)@.treasury is Some,
        ensures
            r == old(self)@.init_milestone_outcome(caller, total_amount, milestones),
            r is Err ==> *final(self) == *old(self) && final(env)@ == (if old(self)@.treasury->0.admin == caller {
                old(env)@.auth(caller)
            } else {
                old(env)@
            }),
            r is Ok ==> final(self)@ == (TreasuryView {
                milestones: old(self)@.milestones.insert(
                    r->Ok_0,
                    MilestoneDisbursement {
                        total_amount,
                        milestones,
                        disbursed: 0,
                        amount_per_milestone: (total_amount as int / milestones as int) as i128,
                        asset,
                        to,
                    },
                ),
                milestone_count: r->Ok_0,
                ..old(self)@
            }) && final(env)@ == old(env)@.auth(caller).emit(
                Event::MilestoneInitialized { id: r->Ok_0, total_amount, milestones },
            ),
            old(self)@.wf() ==> final(self)@.wf(),
    {
        self.require_admin(env, &caller)?;
        require_positive_amount(total_amount)?;
        if milestones == 0 {
            return Err(Error::InvalidInput);
        }
        let amount_per_milestone: i128 = (total_amount as u128 / milestones as u128) as i128;
        let id: u64 = next_id(self.milestone_count)?;
        self.milestones.set(
            id,
            MilestoneDisbursement {
                total_amount,
                milestones,
                disbursed: 0,
                amount_per_milestone,
                asset,
                to,
            },
        );
        self.milestone_count = id;
        env.publish(Event::MilestoneInitialized { id, total_amount, milestones });
        Ok(id)
    }

    /// Release the next milestone payout, which must clear the policy, budget and
    /// allowance gates as a withdrawal does. Blocked while the treasury is frozen.
    pub fn release_next_milestone(
        &mut self,
        env: &mut CallEnv,
        caller: Address,
        milestone_id: u64,
    ) -> (r: Result<(), Error>)
        requires
            old(self)@.treasury is Some,
            old(self)@.wf(),
        ensures
            final(self)@.wf(),
            r == old(self)@.release_milestone_outcome(old(env)@.timestamp, caller, milestone_id),
            r is Err ==> *final(self) == *old(self) && final(env)@ == (if old(self)@.treasury->0.admin != caller {
                old(env)@
            } else if old(self)@.milestone_check(caller, milestone_id) is Err {
                old(env)@.auth(caller)
            } else {
                old(self)@.withdraw_gates(
                    old(env)@,
                    caller,
                    old(self)@.milestones[milestone_id].asset,
                    old(self)@.milestones[milestone_id].to,
                    old(self)@.next_amount(milestone_id) as i128,
                )
            }),
            r is Ok ==> final(self)@ == old(self)@.milestone_released(caller, milestone_id)
                && final(env)@ == old(self)@.milestone_env(old(env)@, caller, milestone_id),
    {
        self.require_admin(env, &caller)?;
        self.check_frozen()?;
        let mut d = match self.milestones.get(&milestone_id) {
            Some(d) => *d,
            None => return Err(Error::NotFound),
        };
        if d.disbursed >= d.milestones {
            return Err(Error::InvalidState);
        }
        proof {
            lemma_milestone(d);
        }
        let mut amount: i128 = d.amount_per_milestone;
        if d.disbursed == d.milestones - 1 {
            let so_far: i128 = d.amount_per_milestone * (d.milestones - 1) as i128;
            amount = d.total_amount - so_far;
        }
        let custody = env.contract;
        self.record_policy(env, d.asset, d.to, amount);
        self.record_budget(env, caller, &d.asset, amount);
        let id = AllowanceId { agent: caller, recipient: d.to, asset: d.asset };
        let allowance = self.spend_allowance(env.timestamp, &id, amount)?;
        let mut holding = self.load_holding(&d.asset);
        if holding.total_in < amount {
            return Err(Error::InsufficientFunds);
        }
        holding.total_in = holding.total_in - amount;
        holding.total_out = checked_add(holding.total_out, amount)?;
        d.disbursed = d.disbursed + 1;
        self.milestones.set(milestone_id, d);
        if let Some(al) = allowance {
            self.allowances.set(id, al);
        }
        self.holdings.set(d.asset, holding);
        env.transfer(d.asset, custody, d.to, amount);
        env.publish(
            Event::MilestoneDisbursed { id: milestone_id, disbursed: d.disbursed, amount },
        );
        self.unlock();
        Ok(())
    }

    // --- views ---

    /// The treasury record. The treasury must have been initialized.
    pub fn get(&self) -> (r: &Treasury)
        requires
            self@.treasury is Some,
        ensures
            *r == self@.treasury->0,
    {
        self.load()
    }

    /// The accounting of an asset.
    pub fn holding(&self, asset: Address) -> (r: Holding)
        ensures
            r == self@.holding_of(asset),
    {
        self.load_holding(&asset)
    }
}

// --- laws ---

/// The sum of the first `k` milestone payouts.
pub open spec fn paid_by(d: MilestoneDisbursement, k: nat) -> int
    decreases k,
{
    if k == 0 {
        0
    } else {
        paid_by(d, (k - 1) as nat) + milestone_amount(d, k - 1)
    }
}

/// A disbursement pays exactly its total, however it divides into milestones,
/// and no single milestone pays a negative amount.
pub proof fn milestones_pay_the_total(d: MilestoneDisbursement, index: int)
    requires
        milestone_ok(d),
        0 <= index < d.milestones,
    ensures
        paid_by(d, d.milestones as nat) == d.total_amount,
        milestone_amount(d, index) >= 0,
{
    lemma_milestone(d);
    lemma_paid_by(d, (d.milestones - 1) as nat);
}

proof fn lemma_paid_by(d: MilestoneDisbursement, k: nat)
    requires
        k < d.milestones,
    ensures
        paid_by(d, k) == d.amount_per_milestone * k,
    decreases k,
{
    let q = d.amount_per_milestone;
    if k > 0 {
        lemma_paid_by(d, (k - 1) as nat);
        assert(q * k == q * (k - 1) + q) by (nonlinear_arith);
    } else {
        assert(q * k == 0) by (nonlinear_arith)
            requires
                k == 0,
        ;
    }
}

/// Withdrawals move value between the two counters of an asset and create or
/// destroy none; other assets are untouched.
pub proof fn withdrawal_conserves_value(
    s: TreasuryView,
    now: u64,
    caller: Address,
    asset: Address,
    to: Address,
    amount: i128,
    other: Address,
)
    requires
        s.wf(),
        s.withdraw_outcome(now, caller, asset, to, amount) is Ok,
    ensures
        ({
            let before = s.holding_of(asset);
            let after = s.withdrawn(caller, asset, to, amount).holding_of(asset);
            &&& after.total_in + after.total_out == before.total_in + before.total_out
            &&& after.total_out == before.total_out + amount
            &&& after.total_in >= 0
        }),
        other != asset ==> s.withdrawn(caller, asset, to, amount).holding_of(other)
            == s.holding_of(other),
{
}

/// An allowance caps what an agent sends to a recipient, by withdrawals, by
/// batches and by milestones together: no spend brings the amount spent over the
/// limit, each adds to it exactly what it sends to the recipient, and once the
/// limit is spent nothing more goes out under it.
pub proof fn allowance_is_a_ceiling(
    s: TreasuryView,
    now: u64,
    caller: Address,
    asset: Address,
    to: Address,
    amount: i128,
    payments: Seq<Payment>,
    milestone: u64,
)
    requires
        s.wf(),
        s.allowances.contains_key(AllowanceId { agent: caller, recipient: to, asset }),
    ensures
        ({
            let id = AllowanceId { agent: caller, recipient: to, asset };
            let al = s.allowances[id];
            let withdrawal = s.withdraw_outcome(now, caller, asset, to, amount);
            let batch = s.batch_outcome(now, caller, asset, payments);
            let release = s.release_milestone_outcome(now, caller, milestone);
            let d = s.milestones[milestone];
            &&& withdrawal is Ok ==> s.withdrawn(caller, asset, to, amount).allowances[id].spent
                == al.spent + amount <= al.limit
            &&& batch is Ok ==> s.batch_paid(caller, asset, payments).allowances[id].spent
                == al.spent + sent_to(payments, to) <= al.limit
            &&& release is Ok && d.asset == asset && d.to == to ==> s.milestone_released(
                caller,
                milestone,
            ).allowances[id].spent == al.spent + s.next_amount(milestone) <= al.limit
            &&& al.spent == al.limit ==> {
                &&& withdrawal is Err
                &&& batch is Ok ==> sent_to(payments, to) == 0
                &&& release is Ok && d.asset == asset && d.to == to ==> s.next_amount(milestone)
                    == 0
            }
        }),
{
    let id = AllowanceId { agent: caller, recipient: to, asset };
    if s.batch_outcome(now, caller, asset, payments) is Ok {
        batch_stays_within_the_holding(s, now, caller, asset, payments);
        lemma_leading_all(s.leg_allowed(now, caller, asset, payments), payments.len());
        lemma_sent_to(payments, to);
        lemma_batch_spend(s, now, caller, asset, to, payments, payments.len());
        assert(payments.take(payments.len() as int) =~= payments);
    }
    if s.release_milestone_outcome(now, caller, milestone) is Ok {
        let d = s.milestones[milestone];
        milestones_pay_the_total(d, d.disbursed as int);
    }
}

/// What the first legs of a covered batch send to a recipient is within the
/// allowance.
proof fn lemma_batch_spend(
    s: TreasuryView,
    now: u64,
    caller: Address,
    asset: Address,
    to: Address,
    payments: Seq<Payment>,
    n: nat,
)
    requires
        s.wf(),
        s.allowances.contains_key(AllowanceId { agent: caller, recipient: to, asset }),
        n <= payments.len(),
        forall|i: int|
            0 <= i < payments.len() ==> #[trigger] s.leg_allowed(now, caller, asset, payments)(i),
    ensures
        ({
            let al = s.allowances[AllowanceId { agent: caller, recipient: to, asset }];
            sent_to(payments.take(n as int), to) <= al.limit - al.spent
        }),
    decreases n,
{
    if n > 0 {
        let upto = payments.take(n as int);
        assert(upto.drop_last() =~= payments.take(n - 1));
        lemma_batch_spend(s, now, caller, asset, to, payments, (n - 1) as nat);
        assert(s.leg_allowed(now, caller, asset, payments)(n - 1));
    }
}

/// While the treasury is frozen no value leaves it and none comes in.
pub proof fn frozen_treasury_moves_nothing(
    s: TreasuryView,
    now: u64,
    caller: Address,
    asset: Address,
    to: Address,
    amount: i128,
    payments: Seq<Payment>,
    id: u64,
)
    requires
        s.frozen,
    ensures
        s.deposit_outcome(asset, amount) is Err,
        s.withdraw_outcome(now, caller, asset, to, amount) is Err,
        s.batch_outcome(now, caller, asset, payments) is Err,
        s.release_milestone_outcome(now, caller, id) is Err,
{
}

/// A batch payout never overdraws: its total, every leg of which is positive,
/// is within what the treasury holds.
pub proof fn batch_stays_within_the_holding(
    s: TreasuryView,
    now: u64,
    caller: Address,
    asset: Address,
    payments: Seq<Payment>,
)
    requires
        s.batch_outcome(now, caller, asset, payments) is Ok,
    ensures
        payment_sum(payments) <= s.holding_of(asset).total_in,
        forall|i: int| 0 <= i < payments.len() ==> #[trigger] payments[i].amount > 0,
{
    let f = leg_ok(payments);
    lemma_leading_all(f, payments.len());
    assert forall|i: int| 0 <= i < payments.len() implies #[trigger] payments[i].amount > 0 by {
        assert(f(i));
    }
}

/// The treasury's books claim no more than it holds in custody.
pub open spec fn covered(s: TreasuryView, e: EnvView) -> bool {
    forall|asset: Address|
        #![trigger s.holding_of(asset)]
        s.holding_of(asset).total_in <= e.holds(asset)
}

/// A deposit from outside keeps the books covered.
pub proof fn deposits_are_covered(
    s: TreasuryView,
    e: EnvView,
    from: Address,
    asset: Address,
    amount: i128,
)
    requires
        covered(s, e),
        s.deposit_outcome(asset, amount) is Ok,
        from != e.contract,
    ensures
        covered(
            s.with_holding(asset, credited(s.holding_of(asset), amount)),
            e.auth(from).emit(Event::TreasuryDeposited { asset, amount }).transfer(
                asset,
                from,
                e.contract,
                amount,
            ),
        ),
{
    broadcast use lemma_holds;

    let t = s.with_holding(asset, credited(s.holding_of(asset), amount));
    assert forall|other: Address|
        #![trigger t.holding_of(other)]
        t.holding_of(other).total_in <= e.auth(from).emit(
            Event::TreasuryDeposited { asset, amount },
        ).transfer(asset, from, e.contract, amount).holds(other) by {
        let before = s.holding_of(other);
    }
}

/// A withdrawal keeps the books covered.
pub proof fn withdrawals_are_covered(
    s: TreasuryView,
    e: EnvView,
    now: u64,
    caller: Address,
    asset: Address,
    to: Address,
    amount: i128,
)
    requires
        s.wf(),
        covered(s, e),
        s.withdraw_outcome(now, caller, asset, to, amount) is Ok,
    ensures
        ({
            let report = Event::TransferExecuted { from: caller, to, asset, amount };
            covered(
                s.withdrawn(caller, asset, to, amount),
                s.withdraw_gates(e, caller, asset, to, amount).emit(report).transfer(
                    asset,
                    e.contract,
                    to,
                    amount,
                ).emit(report).emit(
                    Event::Contract(
                        ContractEvent::TransferExecuted { from: caller, to, asset, amount },
                    ),
                ),
            )
        }),
{
    broadcast use lemma_holds;

    let report = Event::TransferExecuted { from: caller, to, asset, amount };
    let last = Event::Contract(ContractEvent::TransferExecuted { from: caller, to, asset, amount });
    let t = s.withdrawn(caller, asset, to, amount);
    let gated = s.withdraw_gates(e, caller, asset, to, amount);
    assert forall|other: Address|
        #![trigger t.holding_of(other)]
        t.holding_of(other).total_in <= gated.emit(report).transfer(
            asset,
            e.contract,
            to,
            amount,
        ).emit(report).emit(last).holds(other) by {
        let before = s.holding_of(other);
        lemma_gates_hold(s, e, caller, asset, to, amount, other);
    }
}

proof fn lemma_gates_hold(
    s: TreasuryView,
    e: EnvView,
    caller: Address,
    asset: Address,
    to: Address,
    amount: i128,
    other: Address,
)
    ensures
        s.withdraw_gates(e, caller, asset, to, amount).holds(other) == e.holds(other),
        s.withdraw_gates(e, caller, asset, to, amount).contract == e.contract,
        s.consume_budget(e, caller, asset, amount).holds(other) == e.holds(other),
        s.consume_budget(e, caller, asset, amount).contract == e.contract,
        e.auth(caller).holds(other) == e.holds(other),
{
    broadcast use lemma_holds;

}

proof fn lemma_check_legs_hold(
    e: EnvView,
    policy: Address,
    asset: Address,
    payments: Seq<Payment>,
    other: Address,
)
    ensures
        check_legs(e, policy, asset, payments).holds(other) == e.holds(other),
        check_legs(e, policy, asset, payments).contract == e.contract,
    decreases payments.len(),
{
    broadcast use lemma_holds;

    if payments.len() > 0 {
        lemma_check_legs_hold(e, policy, asset, payments.drop_last(), other);
    }
}

proof fn lemma_pay_legs_hold(e: EnvView, asset: Address, payments: Seq<Payment>, other: Address)
    requires
        forall|i: int| 0 <= i < payments.len() ==> #[trigger] payments[i].amount > 0,
    ensures
        ({
            let paid = pay_legs(e, asset, e.contract, payments);
            &&& paid.contract == e.contract
            &&& other != asset ==> paid.holds(other) == e.holds(other)
            &&& paid.holds(asset) >= e.holds(asset) - payment_sum(payments)
        }),
    decreases payments.len(),
{
    broadcast use lemma_holds;

    if payments.len() > 0 {
        let front = payments.drop_last();
        assert forall|i: int| 0 <= i < front.len() implies #[trigger] front[i].amount > 0 by {
            assert(payments[i].amount > 0);
        }
        lemma_pay_legs_hold(e, asset, front, other);
        assert(payments[payments.len() - 1].amount > 0);
    }
}

/// A batch payout keeps the books covered.
pub proof fn batches_are_covered(
    s: TreasuryView,
    e: EnvView,
    now: u64,
    caller: Address,
    asset: Address,
    payments: Seq<Payment>,
)
    requires
        s.wf(),
        covered(s, e),
        s.batch_outcome(now, caller, asset, payments) is Ok,
    ensures
        ({
            let total = payment_sum(payments) as i128;
            let count = payments.len() as u32;
            covered(
                s.batch_paid(caller, asset, payments),
                pay_legs(
                    s.batch_gates(e, caller, asset, payments),
                    asset,
                    e.contract,
                    payments,
                ).emit(
                    Event::Contract(
                        ContractEvent::BatchTransferExecuted { from: caller, asset, count, total },
                    ),
                ).emit(Event::TreasuryBatchPaid { asset, count, total }),
            )
        }),
{
    broadcast use lemma_holds;

    let total = payment_sum(payments) as i128;
    let count = payments.len() as u32;
    let t = s.batch_paid(caller, asset, payments);
    let gated = s.batch_gates(e, caller, asset, payments);
    let paid = pay_legs(gated, asset, e.contract, payments);
    let e2 = match s.treasury->0.policy {
        Some(policy) => check_legs(e.auth(caller), policy, asset, payments),
        None => e.auth(caller),
    };
    batch_stays_within_the_holding(s, now, caller, asset, payments);
    lemma_payment_sum(payments);
    assert forall|other: Address|
        #![trigger t.holding_of(other)]
        t.holding_of(other).total_in <= paid.emit(
            Event::Contract(
                ContractEvent::BatchTransferExecuted { from: caller, asset, count, total },
            ),
        ).emit(Event::TreasuryBatchPaid { asset, count, total }).holds(other) by {
        let before = s.holding_of(other);
        lemma_gates_hold(s, e2, caller, asset, asset, total, other);
        lemma_gates_hold(s, e2, caller, asset, asset, total, asset);
        if let Some(policy) = s.treasury->0.policy {
            lemma_check_legs_hold(e.auth(caller), policy, asset, payments, other);
            lemma_check_legs_hold(e.auth(caller), policy, asset, payments, asset);
        }
        lemma_pay_legs_hold(gated, asset, payments, other);
    }
}

proof fn lemma_payment_sum(payments: Seq<Payment>)
    requires
        forall|i: int| 0 <= i < payments.len() ==> #[trigger] payments[i].amount > 0,
    ensures
        payment_sum(payments) >= 0,
    decreases payments.len(),
{
    if payments.len() > 0 {
        let front = payments.drop_last();
        assert forall|i: int| 0 <= i < front.len() implies #[trigger] front[i].amount > 0 by {
            assert(payments[i].amount > 0);
        }
        lemma_payment_sum(front);
        assert(payments[payments.len() - 1].amount > 0);
    }
}

/// A milestone payout keeps the books covered.
pub proof fn milestone_payouts_are_covered(
    s: TreasuryView,
    e: EnvView,
    now: u64,
    caller: Address,
    id: u64,
)
    requires
        s.wf(),
        covered(s, e),
        s.release_milestone_outcome(now, caller, id) is Ok,
    ensures
        ({
            let d = s.milestones[id];
            let amount = s.next_amount(id) as i128;
            covered(
                s.milestone_released(caller, id),
                s.withdraw_gates(e, caller, d.asset, d.to, amount).transfer(
                    d.asset,
                    e.contract,
                    d.to,
                    amount,
                ).emit(
                    Event::MilestoneDisbursed {
                        id,
                        disbursed: (d.disbursed + 1) as u32,
                        amount,
                    },
                ),
            )
        }),
{
    broadcast use lemma_holds;

    let d = s.milestones[id];
    let amount = s.next_amount(id) as i128;
    let t = s.milestone_released(caller, id);
    let event = Event::MilestoneDisbursed { id, disbursed: (d.disbursed + 1) as u32, amount };
    milestones_pay_the_total(d, d.disbursed as int);
    assert forall|other: Address|
        #![trigger t.holding_of(other)]
        t.holding_of(other).total_in <= s.withdraw_gates(
            e,
            caller,
            d.asset,
            d.to,
            amount,
        ).transfer(d.asset, e.contract, d.to, amount).emit(event).holds(other) by {
        let before = s.holding_of(other);
        lemma_gates_hold(s, e, caller, d.asset, d.to, amount, other);
    }
}

/// The total of a batch is the sum of its amounts, and what it sends to a
/// recipient the sum of the amounts of the legs that go there.
pub proof fn batch_totals_are_sums(payments: Seq<Payment>, recipient: Address)
    ensures
        payment_sum(payments) == payments.fold_left(0int, |sum: int, p: Payment| sum + p.amount),
        sent_to(payments, recipient) == payments.filter(
            |p: Payment| p.recipient == recipient,
        ).fold_left(0int, |sum: int, p: Payment| sum + p.amount),
    decreases payments.len(),
{
    reveal(Seq::filter);
    if payments.len() > 0 {
        let front = payments.drop_last();
        let here = |p: Payment| p.recipient == recipient;
        batch_totals_are_sums(front, recipient);
        if here(payments.last()) {
            assert(payments.filter(here) == front.filter(here).push(payments.last()));
            assert(front.filter(here).push(payments.last()).drop_last() =~= front.filter(here));
        } else {
            assert(payments.filter(here) == front.filter(here));
        }
    }
}

proof fn lemma_check_legs_log(e: EnvView, policy: Address, asset: Address, payments: Seq<Payment>)
    ensures
        ({
            let log = check_legs(e, policy, asset, payments).log;
            &&& log.len() == e.log.len() + payments.len()
            &&& forall|j: int| 0 <= j < e.log.len() ==> #[trigger] log[j] == e.log[j]
            &&& forall|i: int|
                0 <= i < payments.len() ==> #[trigger] log[e.log.len() + i] == (Effect::CheckPolicy {
                    policy,
                    policy_id: "active",
                    asset,
                    recipient: payments[i].recipient,
                    amount: payments[i].amount,
                })
        }),
    decreases payments.len(),
{
    if payments.len() > 0 {
        lemma_check_legs_log(e, policy, asset, payments.drop_last());
    }
}

proof fn lemma_pay_legs_log(e: EnvView, asset: Address, from: Address, payments: Seq<Payment>)
    ensures
        ({
            let log = pay_legs(e, asset, from, payments).log;
            &&& log.len() == e.log.len() + payments.len()
            &&& forall|j: int| 0 <= j < e.log.len() ==> #[trigger] log[j] == e.log[j]
            &&& forall|i: int|
                0 <= i < payments.len() ==> #[trigger] log[e.log.len() + i] == (Effect::Transfer {
                    asset,
                    from,
                    to: payments[i].recipient,
                    amount: payments[i].amount,
                })
        }),
    decreases payments.len(),
{
    if payments.len() > 0 {
        lemma_pay_legs_log(e, asset, from, payments.drop_last());
    }
}

/// The transfer at an index was put to the policy contract, under the active
/// policy, between two points of the log: the same asset, recipient and amount.
pub open spec fn checked_between(
    policy: Address,
    log: Seq<Effect>,
    start: int,
    end: int,
    j: int,
) -> bool {
    exists|k: int|
        start <= k < end && #[trigger] log[k] == (Effect::CheckPolicy {
            policy,
            policy_id: "active",
            asset: log[j]->Transfer_asset,
            recipient: log[j]->Transfer_to,
            amount: log[j]->Transfer_amount,
        })
}

/// What a batch asks of the host: the caller's authorization first; then, before
/// any token moves, the policy's word on every single leg, where a policy is
/// wired, and one debit of the whole sum from the budget, where one backs the
/// asset; then each leg is paid out of custody, in order and once.
pub proof fn batches_are_checked_and_then_paid(
    s: TreasuryView,
    e: EnvView,
    caller: Address,
    asset: Address,
    payments: Seq<Payment>,
)
    ensures
        ({
            let log = s.batch_env(e, caller, asset, payments).log;
            let start = e.log.len() as int;
            let first = log.len() - 2 - payments.len();
            let t = s.treasury->0;
            let h = s.holdings[asset];
            &&& start < first
            &&& log.take(start) == e.log
            &&& log[start] == Effect::RequireAuth(caller)
            &&& forall|i: int|
                0 <= i < payments.len() ==> #[trigger] log[first + i] == (Effect::Transfer {
                    asset,
                    from: e.contract,
                    to: payments[i].recipient,
                    amount: payments[i].amount,
                })
            &&& forall|j: int|
                start <= j < log.len() && (#[trigger] log[j]) is Transfer ==> first <= j < first
                    + payments.len()
            &&& t.policy is Some ==> forall|j: int|
                first <= j < first + payments.len() ==> #[trigger] checked_between(
                    t.policy->0,
                    log,
                    start,
                    first,
                    j,
                )
            &&& t.budget is Some && s.holdings.contains_key(asset) && h.budget_id is Some
                ==> exists|k: int|
                start <= k < first && #[trigger] log[k] == (Effect::ConsumeBudget {
                    budget: t.budget->0,
                    caller,
                    budget_id: h.budget_id->0,
                    amount: payment_sum(payments) as i128,
                })
        }),
{
    let t = s.treasury->0;
    let start = e.log.len() as int;
    let e1 = e.auth(caller);
    let e2 = match t.policy {
        Some(policy) => check_legs(e1, policy, asset, payments),
        None => e1,
    };
    if let Some(policy) = t.policy {
        lemma_check_legs_log(e1, policy, asset, payments);
    }
    let gated = s.batch_gates(e, caller, asset, payments);
    lemma_pay_legs_log(gated, asset, e.contract, payments);
    let paid = pay_legs(gated, asset, e.contract, payments);
    let log = s.batch_env(e, caller, asset, payments).log;
    let first = gated.log.len() as int;
    assert(first == log.len() - 2 - payments.len());
    assert forall|j: int| 0 <= j < first implies #[trigger] log[j] == gated.log[j] by {
        assert(paid.log[j] == gated.log[j]);
    }
    assert forall|j: int| 0 <= j < e2.log.len() implies #[trigger] log[j] == e2.log[j] by {}
    assert(log.take(start) =~= e.log) by {
        assert forall|j: int| 0 <= j < start implies log[j] == e.log[j] by {
            assert(e2.log[j] == e1.log[j]);
        }
    }
    assert(e2.log[start] == e1.log[start]);
    assert forall|i: int| 0 <= i < payments.len() implies #[trigger] log[first + i] == (
    Effect::Transfer {
        asset,
        from: e.contract,
        to: payments[i].recipient,
        amount: payments[i].amount,
    }) by {
        assert(paid.log[first + i] == log[first + i]);
    }
    assert forall|j: int| start <= j < log.len() && (#[trigger] log[j]) is Transfer implies first
        <= j < first + payments.len() by {
        if j < first {
            assert(log[j] == gated.log[j]);
            if j < e2.log.len() && j > start {
                assert(e2.log[j] == log[j]);
                let i = j - e1.log.len();
                assert(e2.log[e1.log.len() + i] is CheckPolicy);
            }
        }
    }
    if t.policy is Some {
        assert forall|j: int| first <= j < first + payments.len() implies #[trigger] checked_between(
            t.policy->0,
            log,
            start,
            first,
            j,
        ) by {
            let i = j - first;
            let k = e1.log.len() + i;
            assert(log[first + i] is Transfer);
            assert(e2.log[e1.log.len() + i] is CheckPolicy);
            assert(log[k] == e2.log[k]);
        }
    }
    if t.budget is Some && s.holdings.contains_key(asset) && s.holdings[asset].budget_id is Some {
        assert(gated.log[first - 1] == log[first - 1]);
    }
}

/// What a withdrawal asks of the host: the caller's authorization, the policy's
/// word on exactly this transfer, where a policy is wired, the debit from the
/// budget, where one backs the asset, and then the one transfer out of custody.
pub proof fn withdrawals_are_checked_and_then_paid(
    s: TreasuryView,
    e: EnvView,
    caller: Address,
    asset: Address,
    to: Address,
    amount: i128,
)
    ensures
        ({
            let log = s.withdraw_env(e, caller, asset, to, amount).log;
            let start = e.log.len() as int;
            let pay = log.len() - 3;
            let t = s.treasury->0;
            let h = s.holdings[asset];
            &&& start < pay
            &&& log.take(start) == e.log
            &&& log[start] == Effect::RequireAuth(caller)
            &&& log[pay] == (Effect::Transfer { asset, from: e.contract, to, amount })
            &&& forall|j: int| start <= j < log.len() && (#[trigger] log[j]) is Transfer ==> j == pay
            &&& t.policy is Some ==> checked_between(t.policy->0, log, start, pay, pay)
            &&& t.budget is Some && s.holdings.contains_key(asset) && h.budget_id is Some
                ==> exists|k: int|
                start <= k < pay && #[trigger] log[k] == (Effect::ConsumeBudget {
                    budget: t.budget->0,
                    caller,
                    budget_id: h.budget_id->0,
                    amount,
                })
        }),
{
    let t = s.treasury->0;
    let log = s.withdraw_env(e, caller, asset, to, amount).log;
    let start = e.log.len() as int;
    assert(log.take(start) =~= e.log);
    if t.policy is Some {
        assert(log[start + 1] is CheckPolicy);
    }
    if t.budget is Some && s.holdings.contains_key(asset) && s.holdings[asset].budget_id is Some {
        assert(log[log.len() - 5] is ConsumeBudget);
    }
}

/// What a milestone payout asks of the host: the same as a withdrawal of the
/// milestone's amount to the recipient of the disbursement.
pub proof fn milestones_are_checked_and_then_paid(
    s: TreasuryView,
    e: EnvView,
    caller: Address,
    id: u64,
)
    ensures
        ({
            let d = s.milestones[id];
            let amount = s.next_amount(id) as i128;
            let log = s.milestone_env(e, caller, id).log;
            let start = e.log.len() as int;
            let pay = log.len() - 2;
            let t = s.treasury->0;
            let h = s.holdings[d.asset];
            &&& start < pay
            &&& log.take(start) == e.log
            &&& log[start] == Effect::RequireAuth(caller)
            &&& log[pay] == (Effect::Transfer { asset: d.asset, from: e.contract, to: d.to, amount })
            &&& forall|j: int| start <= j < log.len() && (#[trigger] log[j]) is Transfer ==> j == pay
            &&& t.policy is Some ==> checked_between(t.policy->0, log, start, pay, pay)
            &&& t.budget is Some && s.holdings.contains_key(d.asset) && h.budget_id is Some
                ==> exists|k: int|
                start <= k < pay && #[trigger] log[k] == (Effect::ConsumeBudget {
                    budget: t.budget->0,
                    caller,
                    budget_id: h.budget_id->0,
                    amount,
                })
        }),
{
    let d = s.milestones[id];
    let t = s.treasury->0;
    let log = s.milestone_env(e, caller, id).log;
    let start = e.log.len() as int;
    assert(log.take(start) =~= e.log);
    if t.policy is Some {
        assert(log[start + 1] is CheckPolicy);
    }
    if t.budget is Some && s.holdings.contains_key(d.asset) && s.holdings[d.asset].budget_id is Some {
        assert(log[log.len() - 3] is ConsumeBudget);
    }
}

/// An allowance stands in the way of a spend only where there is one for the
/// agent, the recipient and the asset, and it has expired or has not enough
/// left.
pub open spec fn allows(
    s: TreasuryView,
    now: u64,
    agent: Address,
    recipient: Address,
    asset: Address,
    amount: int,
) -> bool {
    let id = AllowanceId { agent, recipient, asset };
    s.allowances.contains_key(id) ==> {
        &&& s.allowances[id].expires_at == 0 || now < s.allowances[id].expires_at
        &&& s.allowances[id].spent + amount <= s.allowances[id].limit
    }
}

/// The admin of a treasury that is active and not frozen can withdraw any
/// positive amount that it holds and that no allowance forbids; nobody can
/// withdraw anything else. The amount moves from what is held to what has left,
/// and counts against the allowance.
pub proof fn withdrawals_take_what_is_held(
    s: TreasuryView,
    now: u64,
    caller: Address,
    asset: Address,
    to: Address,
    amount: i128,
    other: AllowanceId,
)
    requires
        s.wf(),
        s.holdings.contains_key(asset),
        s.holdings[asset].total_out + amount <= i128::MAX,
    ensures
        s.withdraw_outcome(now, caller, asset, to, amount) is Ok <==> {
            &&& amount > 0
            &&& !s.frozen
            &&& s.treasury->0.state == ResourceState::Active
            &&& s.treasury->0.admin == caller
            &&& allows(s, now, caller, to, asset, amount as int)
            &&& amount <= s.holdings[asset].total_in
        },
        s.withdraw_outcome(now, caller, asset, to, amount) is Ok ==> {
            let t = s.withdrawn(caller, asset, to, amount);
            let id = AllowanceId { agent: caller, recipient: to, asset };
            &&& t.holdings[asset].total_in == s.holdings[asset].total_in - amount
            &&& t.holdings[asset].total_out == s.holdings[asset].total_out + amount
            &&& t.holdings[asset].budget_id == s.holdings[asset].budget_id
            &&& t.holdings.contains_key(asset)
            &&& s.allowances.contains_key(id) ==> t.allowances.contains_key(id)
                && t.allowances[id].spent == s.allowances[id].spent + amount
                && t.allowances[id].limit == s.allowances[id].limit && t.allowances[id].expires_at
                == s.allowances[id].expires_at
            &&& other != id ==> (t.allowances.contains_key(other) <==> s.allowances.contains_key(
                other,
            )) && t.allowances[other] == s.allowances[other]
            &&& t.treasury == s.treasury && t.frozen == s.frozen && t.milestones == s.milestones
        },
{
}

/// Nothing can be withdrawn of an asset that the treasury never held.
pub proof fn unknown_assets_pay_nothing(
    s: TreasuryView,
    now: u64,
    caller: Address,
    asset: Address,
    to: Address,
    amount: i128,
    payments: Seq<Payment>,
)
    requires
        !s.holdings.contains_key(asset),
    ensures
        s.withdraw_outcome(now, caller, asset, to, amount) is Err,
        s.batch_outcome(now, caller, asset, payments) is Err,
{
    if s.batch_outcome(now, caller, asset, payments) is Ok {
        batch_stays_within_the_holding(s, now, caller, asset, payments);
        assert(payments[0].amount > 0);
        lemma_payment_sum(payments.drop_first());
        lemma_sum_positive(payments);
    }
}

proof fn lemma_sum_positive(payments: Seq<Payment>)
    requires
        payments.len() > 0,
        forall|i: int| 0 <= i < payments.len() ==> #[trigger] payments[i].amount > 0,
    ensures
        payment_sum(payments) > 0,
{
    let front = payments.drop_last();
    assert forall|i: int| 0 <= i < front.len() implies #[trigger] front[i].amount > 0 by {
        assert(payments[i].amount > 0);
    }
    lemma_payment_sum(front);
    assert(payments[payments.len() - 1].amount > 0);
}

/// The admin of a treasury that is active and not frozen can pay any batch of one
/// to thirty-two positive amounts whose sum is held and whose legs no allowance
/// forbids, the legs to one recipient taken together; nobody can pay any other.
/// The sum moves from what is held to what has left, and what goes to a recipient
/// counts against the allowance for it.
pub proof fn batches_take_what_is_held(
    s: TreasuryView,
    now: u64,
    caller: Address,
    asset: Address,
    payments: Seq<Payment>,
    id: AllowanceId,
)
    requires
        s.wf(),
        s.holdings.contains_key(asset),
        s.holdings[asset].total_out + payment_sum(payments) <= i128::MAX,
    ensures
        s.batch_outcome(now, caller, asset, payments) is Ok <==> {
            &&& 0 < payments.len() <= 32
            &&& !s.frozen
            &&& s.treasury->0.state == ResourceState::Active
            &&& s.treasury->0.admin == caller
            &&& forall|i: int| 0 <= i < payments.len() ==> #[trigger] payments[i].amount > 0
            &&& payment_sum(payments) <= s.holdings[asset].total_in
            &&& forall|i: int|
                #![trigger payments[i]]
                0 <= i < payments.len() ==> allows(
                    s,
                    now,
                    caller,
                    payments[i].recipient,
                    asset,
                    sent_to(payments, payments[i].recipient),
                )
        },
        s.batch_outcome(now, caller, asset, payments) is Ok ==> {
            let t = s.batch_paid(caller, asset, payments);
            &&& t.holdings[asset].total_in == s.holdings[asset].total_in - payment_sum(payments)
            &&& t.holdings[asset].total_out == s.holdings[asset].total_out + payment_sum(payments)
            &&& t.holdings[asset].budget_id == s.holdings[asset].budget_id
            &&& t.holdings.contains_key(asset)
            &&& t.allowances.contains_key(id) <==> s.allowances.contains_key(id)
            &&& s.allowances.contains_key(id) ==> t.allowances[id].limit == s.allowances[id].limit
                && t.allowances[id].expires_at == s.allowances[id].expires_at
                && t.allowances[id].spent == s.allowances[id].spent + (if id.agent == caller
                && id.asset == asset {
                sent_to(payments, id.recipient)
            } else {
                0
            })
            &&& t.treasury == s.treasury && t.frozen == s.frozen && t.milestones == s.milestones
        },
{
    let f = leg_ok(payments);
    let g = s.leg_allowed(now, caller, asset, payments);
    let n = payments.len();
    lemma_leading_all(f, n);
    lemma_leading_all(g, n);
    if forall|i: int| 0 <= i < n ==> #[trigger] payments[i].amount > 0 {
        lemma_payment_sum(payments);
        if payment_sum(payments) <= i128::MAX {
            assert forall|i: int| 0 <= i < n implies #[trigger] f(i) by {
                lemma_prefix_sum(payments, i + 1);
                assert(payments[i].amount > 0);
            }
        }
        assert forall|i: int| #![trigger payments[i]] 0 <= i < n implies 0 < sent_to(
            payments.take(i + 1),
            payments[i].recipient,
        ) <= sent_to(payments, payments[i].recipient) by {
            lemma_prefix_sent(payments, i + 1, payments[i].recipient);
            lemma_prefix_sent(payments, i, payments[i].recipient);
            assert(payments.take(i + 1).drop_last() =~= payments.take(i));
        }
        if forall|i: int|
            #![trigger payments[i]]
            0 <= i < n ==> allows(
                s,
                now,
                caller,
                payments[i].recipient,
                asset,
                sent_to(payments, payments[i].recipient),
            ) {
            assert forall|i: int| 0 <= i < n implies #[trigger] g(i) by {
                let r = payments[i].recipient;
                assert(allows(s, now, caller, r, asset, sent_to(payments, r)));
            }
        }
        if s.batch_outcome(now, caller, asset, payments) is Ok {
            assert forall|i: int| #![trigger payments[i]] 0 <= i < n implies allows(
                s,
                now,
                caller,
                payments[i].recipient,
                asset,
                sent_to(payments, payments[i].recipient),
            ) by {
                assert(g(i));
                let r = payments[i].recipient;
                if s.allowances.contains_key(AllowanceId { agent: caller, recipient: r, asset }) {
                    lemma_batch_spend(s, now, caller, asset, r, payments, n);
                    assert(payments.take(n as int) =~= payments);
                }
            }
            if s.allowances.contains_key(id) && id.agent == caller && id.asset == asset {
                lemma_batch_spend(s, now, caller, asset, id.recipient, payments, n);
                assert(payments.take(n as int) =~= payments);
                lemma_sent_to(payments, id.recipient);
            }
        }
    } else if s.batch_outcome(now, caller, asset, payments) is Ok {
        batch_stays_within_the_holding(s, now, caller, asset, payments);
    }
}

proof fn lemma_prefix_sum(payments: Seq<Payment>, n: int)
    requires
        0 <= n <= payments.len(),
        forall|i: int| 0 <= i < payments.len() ==> #[trigger] payments[i].amount > 0,
    ensures
        0 <= payment_sum(payments.take(n)) <= payment_sum(payments),
    decreases payments.len(),
{
    if n < payments.len() {
        let front = payments.drop_last();
        assert forall|i: int| 0 <= i < front.len() implies #[trigger] front[i].amount > 0 by {
            assert(payments[i].amount > 0);
        }
        lemma_prefix_sum(front, n);
        assert(front.take(n) =~= payments.take(n));
        assert(payments[payments.len() - 1].amount > 0);
    } else {
        assert(payments.take(n) =~= payments);
        lemma_payment_sum(payments);
    }
}

proof fn lemma_prefix_sent(payments: Seq<Payment>, n: int, recipient: Address)
    requires
        0 <= n <= payments.len(),
        forall|i: int| 0 <= i < payments.len() ==> #[trigger] payments[i].amount > 0,
    ensures
        0 <= sent_to(payments.take(n), recipient) <= sent_to(payments, recipient),
    decreases payments.len(),
{
    if n < payments.len() {
        let front = payments.drop_last();
        assert forall|i: int| 0 <= i < front.len() implies #[trigger] front[i].amount > 0 by {
            assert(payments[i].amount > 0);
        }
        lemma_prefix_sent(front, n, recipient);
        assert(front.take(n) =~= payments.take(n));
        assert(payments[payments.len() - 1].amount > 0);
    } else {
        assert(payments.take(n) =~= payments);
        lemma_sent_to(payments, recipient);
    }
}

/// The admin can release the next milestone while there is one, the treasury is
/// not frozen, holds the amount and no allowance forbids it; nobody else can. It
/// pays the total divided by the number of milestones, and the last one all that
/// is then still to be paid.
pub proof fn milestones_are_paid_one_by_one(
    s: TreasuryView,
    now: u64,
    caller: Address,
    id: u64,
    amount: int,
)
    requires
        s.wf(),
        s.milestones.contains_key(id),
        s.holdings.contains_key(s.milestones[id].asset),
        s.holdings[s.milestones[id].asset].total_out + amount <= i128::MAX,
        ({
            let d = s.milestones[id];
            let each = d.total_amount as int / d.milestones as int;
            amount == (if d.disbursed + 1 == d.milestones {
                d.total_amount - each * (d.milestones - 1)
            } else {
                each
            })
        }),
    ensures
        ({
            let d = s.milestones[id];
            let h = s.holdings[d.asset];
            &&& s.next_amount(id) == amount
            &&& s.release_milestone_outcome(now, caller, id) is Ok <==> {
                &&& s.treasury->0.admin == caller
                &&& !s.frozen
                &&& d.disbursed < d.milestones
                &&& allows(s, now, caller, d.to, d.asset, amount)
                &&& amount <= h.total_in
            }
            &&& s.release_milestone_outcome(now, caller, id) is Ok ==> {
                let t = s.milestone_released(caller, id);
                &&& t.milestones[id].disbursed == d.disbursed + 1
                &&& t.milestones[id].total_amount == d.total_amount
                &&& t.milestones[id].milestones == d.milestones
                &&& t.milestones[id].to == d.to && t.milestones[id].asset == d.asset
                &&& t.holdings[d.asset].total_in == h.total_in - amount
                &&& t.holdings[d.asset].total_out == h.total_out + amount
                &&& t.treasury == s.treasury && t.frozen == s.frozen
            }
        }),
{
    let d = s.milestones[id];
    lemma_milestone(d);
    if d.disbursed < d.milestones {
        milestones_pay_the_total(d, d.disbursed as int);
    }
}

/// Any positive deposit into a treasury that is active and not frozen is taken
/// from the depositor, who authorizes it, and added to what is held.
pub proof fn deposits_add_to_what_is_held(
    s: TreasuryView,
    e: EnvView,
    from: Address,
    asset: Address,
    amount: i128,
    other: Address,
)
    requires
        s.wf(),
        !s.reentrancy_lock,
    ensures
        ({
            let held = if s.holdings.contains_key(asset) {
                s.holdings[asset].total_in as int
            } else {
                0
            };
            let t = s.deposited(asset, amount);
            let log = s.deposit_env(e, from, asset, amount).log;
            &&& s.deposit_outcome(asset, amount) is Ok <==> {
                &&& amount > 0
                &&& !s.frozen
                &&& s.treasury->0.state == ResourceState::Active
                &&& held + amount <= i128::MAX
            }
            &&& s.deposit_outcome(asset, amount) is Ok ==> {
                &&& t.holdings.contains_key(asset)
                &&& t.holdings[asset].total_in == held + amount
                &&& s.holdings.contains_key(asset) ==> t.holdings[asset].total_out
                    == s.holdings[asset].total_out && t.holdings[asset].budget_id
                    == s.holdings[asset].budget_id
                &&& other != asset ==> (t.holdings.contains_key(other)
                    <==> s.holdings.contains_key(other)) && t.holdings[other] == s.holdings[other]
                &&& t.allowances == s.allowances && t.treasury == s.treasury
                &&& log.len() == e.log.len() + 3
                &&& log[e.log.len() as int] == Effect::RequireAuth(from)
                &&& log[e.log.len() as int + 2] == (Effect::Transfer {
                    asset,
                    from,
                    to: e.contract,
                    amount,
                })
            }
        }),
{
}

/// The multisig freezes and unfreezes; the admin does while none is wired, and
/// only then.
pub proof fn multisig_holds_the_freeze(s: TreasuryView, caller: Address)
    requires
        s.treasury is Some,
    ensures
        s.treasury->0.multisig is Some ==> (s.freezer() == caller <==> s.treasury->0.multisig
            == Some(caller)),
        s.treasury->0.multisig is None ==> (s.freezer() == caller <==> s.treasury->0.admin == caller),
        s.admin_check(caller) is Ok <==> s.treasury->0.admin == caller,
{
}

/// The admin can set up any positive disbursement in at least one milestone; it
/// gets the next number.
pub proof fn disbursements_are_set_up_by_the_admin(
    s: TreasuryView,
    caller: Address,
    total_amount: i128,
    milestones: u32,
)
    ensures
        s.init_milestone_outcome(caller, total_amount, milestones) is Ok <==> {
            &&& s.treasury->0.admin == caller
            &&& total_amount > 0
            &&& milestones > 0
            &&& s.milestone_count < u64::MAX
        },
        s.init_milestone_outcome(caller, total_amount, milestones) is Ok
            ==> s.init_milestone_outcome(caller, total_amount, milestones)->Ok_0
            == s.milestone_count + 1,
{
}

/// The books of an asset are those that were kept of it, and empty where none
/// were.
pub proof fn books_start_empty(s: TreasuryView, asset: Address)
    ensures
        s.holdings.contains_key(asset) ==> s.holding_of(asset) == s.holdings[asset],
        !s.holdings.contains_key(asset) ==> {
            let h = s.holding_of(asset);
            h.asset == asset && h.total_in == 0 && h.total_out == 0 && h.budget_id is None
        },
{
}

} // verus!
