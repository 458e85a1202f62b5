//! The events that contracts publish.
//!
//! Two layers are provided. [`ContractEvent`] is the canonical, structured
//! schema for off-chain indexers: each variant is published under one topic, the
//! variant's name. The other variants of [`Event`] are published under a
//! `(category, action)` pair of topics. On key state transitions both layers are
//! emitted together.
use crate::access::Role;
use crate::host::CallEnv;
use crate::types::{Address, AssetAmount, ModuleKind};
use vstd::prelude::*;

verus! {

/// An event, with its payload. [`Event::topics`] gives the topics it is
/// published under.
#[derive(Debug)]
pub enum Event {
    /// An event of the canonical schema.
    Contract(ContractEvent),
    // --- multisig ---
    SignerAdded { signer: Address, weight: u32 },
    SignerRemoved { signer: Address },
    SignerWeightChanged { signer: Address, weight: u32 },
    ThresholdPending { threshold: u32, sequence: u32 },
    ThresholdChanged { threshold: u32 },
    TimelockChanged { delay: u64 },
    ChangeProposed { id: u64, caller: Address, kind: &'static str, eta: u64 },
    ChangeExecuted { id: u64, caller: Address, kind: &'static str },
    ChangeCancelled { id: u64, caller: Address, kind: &'static str },
    EmergencyLock { locked: bool },
    BatchExecuted { nonce: u64, caller: Address, calls: u32 },
    // --- proposals ---
    ProposalCreated { id: u64, proposer: Address },
    ProposalApproved { id: u64, approver: Address, approvals: u32 },
    ProposalExecuted { id: u64 },
    // --- policy ---
    PolicyRegistered { policy_id: String },
    PolicyRotated { policy_id: String },
    PolicyAssetAdded { policy_id: String, asset: Address },
    PolicyAssetRemoved { policy_id: String, asset: Address },
    PolicyBlocked { policy_id: String, address: Address },
    PolicyUnblocked { policy_id: String, address: Address },
    PolicyMerchantBlocked { policy_id: String, merchant: Address },
    PolicyMerchantUnblocked { policy_id: String, merchant: Address },
    PolicyCategoryBlocked { policy_id: String, category: String },
    PolicyCategoryUnblocked { policy_id: String, category: String },
    PolicyViolation { policy_id: String, reason: &'static str },
    // --- wallet ---
    WalletCreated { wallet_id: u64, owner: Address },
    WalletFrozen { wallet_id: u64, by: Address },
    /// A wallet changed state; the action is the event's second topic.
    WalletState { wallet_id: u64, action: &'static str },
    GuardianSet { guardian: Address },
    WalletPaused { caller: Address },
    WalletUnpaused { caller: Address },
    WalletDeposited { wallet_id: u64, asset: Address, amount: i128 },
    WalletWithdrawn { wallet_id: u64, asset: Address, amount: i128 },
    ReserveSet { wallet_id: u64, asset: Address, ratio_bps: u32 },
    ReserveFailed { wallet_id: u64, asset: Address, amount: i128, ratio_bps: u32 },
    RoleGranted { wallet_id: u64, account: Address, role: Role },
    RoleRevoked { wallet_id: u64, account: Address },
    ProposalRejected { id: u64, caller: Address },
    ProposalCancelled { id: u64 },
    ProposalExpired { id: u64 },
    ProposalCleaned { id: u64 },
    ProposalFailed { id: u64 },
    ProposalClosed { id: u64 },
    // --- budget ---
    BudgetAllocated { budget_id: String, owner: Address, limit: i128 },
    BudgetReset { budget_id: String },
    BudgetLimitSet { budget_id: String, limit: i128 },
    BudgetFrozen { budget_id: String },
    BudgetUnfrozen { budget_id: String },
    BudgetArchived { budget_id: String },
    BudgetReallocated { from_id: String, to_id: String, amount: i128 },
    AssetLimitSet { budget_id: String, token: Address, limit: i128 },
    AssetSpent { budget_id: String, token: Address, amount: i128 },
    BudgetExpired { budget_id: String },
    BudgetRolledOver { budget_id: String, leftover: i128 },
    BudgetWindowReset { budget_id: String, leftover: i128 },
    BudgetConsumed { budget_id: String, amount: i128, remaining: i128 },
    BudgetExceeded { budget_id: String, requested: i128, remaining: i128 },
    // --- treasury ---
    TreasuryCreated { org: String, admin: Address },
    TreasuryPolicySet,
    TreasuryBudgetSet,
    TreasuryMultisigSet,
    TreasuryFrozen,
    TreasuryUnfrozen,
    TreasuryDeposited { asset: Address, amount: i128 },
    AllowanceSet,
    AllowanceRemoved,
    TreasuryBatchPaid { asset: Address, count: u32, total: i128 },
    MilestoneInitialized { id: u64, total_amount: i128, milestones: u32 },
    MilestoneDisbursed { id: u64, disbursed: u32, amount: i128 },
    // --- transfers ---
    TransferExecuted { from: Address, to: Address, asset: Address, amount: i128 },
    // --- escrow ---
    EscrowFunded { id: u64, sender: Address, recipient: Address, assets: Vec<AssetAmount> },
    EscrowTimelocked {
        id: u64,
        sender: Address,
        recipient: Address,
        assets: Vec<AssetAmount>,
        unlock_time: u64,
    },
    EscrowClaimed { id: u64, caller: Address },
    EscrowReleased { id: u64, arbiter: Address },
    EscrowOverridden { id: u64, nonce: u64 },
    EscrowExpired { id: u64 },
    EscrowRefunded { id: u64, caller: Address },
    EscrowTimelockRefunded { id: u64, caller: Address },
}

/// Canonical, structured event schema emitted by every contract, giving
/// off-chain indexers one stable schema to track state changes.
#[derive(Debug)]
pub enum ContractEvent {
    /// A module was registered or updated in the registry.
    RegistryModuleUpdated { org: String, kind: ModuleKind, address: Address },
    /// An organization's owner changed.
    OrgOwnerChanged { org: String, new_owner: Address },
    /// The registry was frozen (`frozen = true`) or unfrozen (`frozen = false`).
    RegistryFrozen { org: String, frozen: bool },
    /// A wallet was created.
    WalletCreated { wallet_id: u64, owner: Address },
    /// A wallet changed lifecycle state (`state` is e.g. `frozen` or `paused`).
    WalletStateChanged { wallet_id: u64, state: &'static str },
    /// Value moved out of a contract to a recipient.
    TransferExecuted { from: Address, to: Address, asset: Address, amount: i128 },
    /// Value moved out of a contract to several recipients in one atomic batch.
    /// Emitted once per batch (not once per leg) to keep the log concise.
    BatchTransferExecuted { from: Address, asset: Address, count: u32, total: i128 },
    /// A treasury configuration field was updated (`action` is e.g. `policy`).
    TreasuryConfigUpdated { org: String, action: &'static str },
    /// The treasury was frozen.
    TreasuryFrozen { org: String },
    /// The treasury was unfrozen.
    TreasuryUnfrozen { org: String },
    /// A budget was allocated, consumed or rolled over (`action` describes which).
    BudgetUpdated { budget_id: String, action: &'static str, amount: i128 },
    /// A policy rejected a transfer.
    PolicyViolation { policy_id: String, reason: &'static str },
    /// An escrow released its assets to the recipient.
    EscrowReleased { escrow_id: u64, recipient: Address, assets: Vec<AssetAmount> },
}

/// The topics of each event.
pub open spec fn event_topics(e: Event) -> Seq<&'static str> {
    match e {
        Event::Contract(c) => seq![contract_topic(c)],
        Event::SignerAdded { .. } => seq!["signer", "added"],
        Event::SignerRemoved { .. } => seq!["signer", "removed"],
        Event::SignerWeightChanged { .. } => seq!["signer", "weight"],
        Event::ThresholdPending { .. } => seq!["threshold", "pending"],
        Event::ThresholdChanged { .. } => seq!["threshold", "changed"],
        Event::TimelockChanged { .. } => seq!["timelock", "changed"],
        Event::ChangeProposed { .. } => seq!["govchange", "proposed"],
        Event::ChangeExecuted { .. } => seq!["govchange", "executed"],
        Event::ChangeCancelled { .. } => seq!["govchange", "cancelled"],
        Event::EmergencyLock { .. } => seq!["emergency", "lock"],
        Event::BatchExecuted { .. } => seq!["batch", "executed"],
        Event::ProposalCreated { .. } => seq!["proposal", "created"],
        Event::ProposalApproved { .. } => seq!["proposal", "approved"],
        Event::ProposalExecuted { .. } => seq!["proposal", "executed"],
        Event::PolicyRegistered { .. } => seq!["policy", "registd"],
        Event::PolicyRotated { .. } => seq!["policy", "rotated"],
        Event::PolicyAssetAdded { .. } => seq!["policy", "asset_add"],
        Event::PolicyAssetRemoved { .. } => seq!["policy", "asset_rem"],
        Event::PolicyBlocked { .. } => seq!["policy", "blk_add"],
        Event::PolicyUnblocked { .. } => seq!["policy", "blk_rem"],
        Event::PolicyMerchantBlocked { .. } => seq!["policy", "merch_add"],
        Event::PolicyMerchantUnblocked { .. } => seq!["policy", "merch_rem"],
        Event::PolicyCategoryBlocked { .. } => seq!["policy", "cat_add"],
        Event::PolicyCategoryUnblocked { .. } => seq!["policy", "cat_rem"],
        Event::PolicyViolation { .. } => seq!["policy", "violation"],
        Event::WalletState { action, .. } => seq!["wallet", action],
        Event::WalletCreated { .. } => seq!["wallet", "created"],
        Event::WalletFrozen { .. } => seq!["wallet", "frozen"],
        Event::GuardianSet { .. } => seq!["wallet", "guardian"],
        Event::WalletDeposited { .. } => seq!["wallet", "deposit"],
        Event::WalletWithdrawn { .. } => seq!["wallet", "withdraw"],
        Event::ReserveSet { .. } => seq!["wallet", "resv_set"],
        Event::ReserveFailed { .. } => seq!["wallet", "resv_fail"],
        Event::RoleGranted { .. } => seq!["role", "granted"],
        Event::RoleRevoked { .. } => seq!["role", "revoked"],
        Event::WalletPaused { .. } => seq!["WalletPaused"],
        Event::WalletUnpaused { .. } => seq!["WalletUnpaused"],
        Event::ProposalRejected { .. } => seq!["proposal", "rejected"],
        Event::ProposalCancelled { .. } => seq!["proposal", "cancelled"],
        Event::ProposalExpired { .. } => seq!["proposal", "expired"],
        Event::ProposalCleaned { .. } => seq!["proposal", "cleaned"],
        Event::ProposalFailed { .. } => seq!["proposal", "failed"],
        Event::ProposalClosed { .. } => seq!["proposal", "closed"],
        Event::BudgetAllocated { .. } => seq!["budget", "allocated"],
        Event::BudgetReset { .. } => seq!["budget", "reset"],
        Event::BudgetLimitSet { .. } => seq!["budget", "setlimit"],
        Event::BudgetFrozen { .. } => seq!["budget", "frozen"],
        Event::BudgetUnfrozen { .. } => seq!["budget", "unfrozen"],
        Event::BudgetArchived { .. } => seq!["budget", "archived"],
        Event::BudgetReallocated { .. } => seq!["budget", "realloc"],
        Event::AssetLimitSet { .. } => seq!["budget", "set_ast"],
        Event::AssetSpent { .. } => seq!["budget", "ast_spend"],
        Event::BudgetExpired { .. } => seq!["budget", "expired"],
        Event::BudgetRolledOver { .. } => seq!["budget", "rollover"],
        Event::BudgetWindowReset { .. } => seq!["budget", "reset"],
        Event::BudgetConsumed { .. } => seq!["budget", "consumed"],
        Event::BudgetExceeded { .. } => seq!["budget", "exceeded"],
        Event::TreasuryCreated { .. } => seq!["treasury", "created"],
        Event::TreasuryPolicySet { .. } => seq!["treasury", "policy"],
        Event::TreasuryBudgetSet { .. } => seq!["treasury", "budget"],
        Event::TreasuryMultisigSet { .. } => seq!["treasury", "multisig"],
        Event::TreasuryFrozen { .. } => seq!["treasury", "frozen"],
        Event::TreasuryUnfrozen { .. } => seq!["treasury", "unfrozen"],
        Event::TreasuryDeposited { .. } => seq!["treasury", "deposited"],
        Event::AllowanceSet { .. } => seq!["treasury", "allow"],
        Event::AllowanceRemoved { .. } => seq!["treasury", "allowrm"],
        Event::TreasuryBatchPaid { .. } => seq!["treasury", "batchpay"],
        Event::MilestoneInitialized { .. } => seq!["milestone", "init"],
        Event::MilestoneDisbursed { .. } => seq!["milestone", "disbursed"],
        Event::TransferExecuted { .. } => seq!["transfer", "executed"],
        Event::EscrowFunded { .. } => seq!["escrow", "funded"],
        Event::EscrowTimelocked { .. } => seq!["escrow", "init_tl"],
        Event::EscrowClaimed { .. } => seq!["escrow", "claimed"],
        Event::EscrowReleased { .. } => seq!["escrow", "released"],
        Event::EscrowOverridden { .. } => seq!["escrow", "override"],
        Event::EscrowExpired { .. } => seq!["escrow", "expired"],
        Event::EscrowRefunded { .. } => seq!["escrow", "refunded"],
        Event::EscrowTimelockRefunded { .. } => seq!["escrow", "ref_tl"],
    }
}

/// The single topic of each event of the canonical schema.
pub open spec fn contract_topic(e: ContractEvent) -> &'static str {
    match e {
        ContractEvent::RegistryModuleUpdated { .. } => "RegistryModuleUpdated",
        ContractEvent::OrgOwnerChanged { .. } => "OrgOwnerChanged",
        ContractEvent::RegistryFrozen { .. } => "RegistryFrozen",
        ContractEvent::WalletCreated { .. } => "WalletCreated",
        ContractEvent::WalletStateChanged { .. } => "WalletStateChanged",
        ContractEvent::TransferExecuted { .. } => "TransferExecuted",
        ContractEvent::BatchTransferExecuted { .. } => "BatchTransferExecuted",
        ContractEvent::TreasuryConfigUpdated { .. } => "TreasuryConfigUpdated",
        ContractEvent::TreasuryFrozen { .. } => "TreasuryFrozen",
        ContractEvent::TreasuryUnfrozen { .. } => "TreasuryUnfrozen",
        ContractEvent::BudgetUpdated { .. } => "BudgetUpdated",
        ContractEvent::PolicyViolation { .. } => "PolicyViolation",
        ContractEvent::EscrowReleased { .. } => "EscrowReleased",
    }
}

impl ContractEvent {
    /// The topic that this event is published under.
    pub fn topic(&self) -> (r: &'static str)
        ensures
            r == contract_topic(*self),
    {
        match self {
            ContractEvent::RegistryModuleUpdated { .. } => "RegistryModuleUpdated",
            ContractEvent::OrgOwnerChanged { .. } => "OrgOwnerChanged",
            ContractEvent::RegistryFrozen { .. } => "RegistryFrozen",
            ContractEvent::WalletCreated { .. } => "WalletCreated",
            ContractEvent::WalletStateChanged { .. } => "WalletStateChanged",
            ContractEvent::TransferExecuted { .. } => "TransferExecuted",
            ContractEvent::BatchTransferExecuted { .. } => "BatchTransferExecuted",
            ContractEvent::TreasuryConfigUpdated { .. } => "TreasuryConfigUpdated",
            ContractEvent::TreasuryFrozen { .. } => "TreasuryFrozen",
            ContractEvent::TreasuryUnfrozen { .. } => "TreasuryUnfrozen",
            ContractEvent::BudgetUpdated { .. } => "BudgetUpdated",
            ContractEvent::PolicyViolation { .. } => "PolicyViolation",
            ContractEvent::EscrowReleased { .. } => "EscrowReleased",
        }
    }
}

impl Event {
    /// The topics that this event is published under.
    pub fn topics(&self) -> (r: Vec<&'static str>)
        ensures
            r@ == event_topics(*self),
    {
        match self {
            Event::Contract(c) => vec![c.topic()],
            Event::SignerAdded { .. } => vec!["signer", "added"],
            Event::SignerRemoved { .. } => vec!["signer", "removed"],
            Event::SignerWeightChanged { .. } => vec!["signer", "weight"],
            Event::ThresholdPending { .. } => vec!["threshold", "pending"],
            Event::ThresholdChanged { .. } => vec!["threshold", "changed"],
            Event::TimelockChanged { .. } => vec!["timelock", "changed"],
            Event::ChangeProposed { .. } => vec!["govchange", "proposed"],
            Event::ChangeExecuted { .. } => vec!["govchange", "executed"],
            Event::ChangeCancelled { .. } => vec!["govchange", "cancelled"],
            Event::EmergencyLock { .. } => vec!["emergency", "lock"],
            Event::BatchExecuted { .. } => vec!["batch", "executed"],
            Event::ProposalCreated { .. } => vec!["proposal", "created"],
            Event::ProposalApproved { .. } => vec!["proposal", "approved"],
            Event::ProposalExecuted { .. } => vec!["proposal", "executed"],
            Event::PolicyRegistered { .. } => vec!["policy", "registd"],
            Event::PolicyRotated { .. } => vec!["policy", "rotated"],
            Event::PolicyAssetAdded { .. } => vec!["policy", "asset_add"],
            Event::PolicyAssetRemoved { .. } => vec!["policy", "asset_rem"],
            Event::PolicyBlocked { .. } => vec!["policy", "blk_add"],
            Event::PolicyUnblocked { .. } => vec!["policy", "blk_rem"],
            Event::PolicyMerchantBlocked { .. } => vec!["policy", "merch_add"],
            Event::PolicyMerchantUnblocked { .. } => vec!["policy", "merch_rem"],
            Event::PolicyCategoryBlocked { .. } => vec!["policy", "cat_add"],
            Event::PolicyCategoryUnblocked { .. } => vec!["policy", "cat_rem"],
            Event::PolicyViolation { .. } => vec!["policy", "violation"],
            Event::WalletState { action, .. } => vec!["wallet", *action],
            Event::WalletCreated { .. } => vec!["wallet", "created"],
            Event::WalletFrozen { .. } => vec!["wallet", "frozen"],
            Event::GuardianSet { .. } => vec!["wallet", "guardian"],
            Event::WalletDeposited { .. } => vec!["wallet", "deposit"],
            Event::WalletWithdrawn { .. } => vec!["wallet", "withdraw"],
            Event::ReserveSet { .. } => vec!["wallet", "resv_set"],
            Event::ReserveFailed { .. } => vec!["wallet", "resv_fail"],
            Event::RoleGranted { .. } => vec!["role", "granted"],
            Event::RoleRevoked { .. } => vec!["role", "revoked"],
            Event::WalletPaused { .. } => vec!["WalletPaused"],
            Event::WalletUnpaused { .. } => vec!["WalletUnpaused"],
            Event::ProposalRejected { .. } => vec!["proposal", "rejected"],
            Event::ProposalCancelled { .. } => vec!["proposal", "cancelled"],
            Event::ProposalExpired { .. } => vec!["proposal", "expired"],
            Event::ProposalCleaned { .. } => vec!["proposal", "cleaned"],
            Event::ProposalFailed { .. } => vec!["proposal", "failed"],
            Event::ProposalClosed { .. } => vec!["proposal", "closed"],
            Event::BudgetAllocated { .. } => vec!["budget", "allocated"],
            Event::BudgetReset { .. } => vec!["budget", "reset"],
            Event::BudgetLimitSet { .. } => vec!["budget", "setlimit"],
            Event::BudgetFrozen { .. } => vec!["budget", "frozen"],
            Event::BudgetUnfrozen { .. } => vec!["budget", "unfrozen"],
            Event::BudgetArchived { .. } => vec!["budget", "archived"],
            Event::BudgetReallocated { .. } => vec!["budget", "realloc"],
            Event::AssetLimitSet { .. } => vec!["budget", "set_ast"],
            Event::AssetSpent { .. } => vec!["budget", "ast_spend"],
            Event::BudgetExpired { .. } => vec!["budget", "expired"],
            Event::BudgetRolledOver { .. } => vec!["budget", "rollover"],
            Event::BudgetWindowReset { .. } => vec!["budget", "reset"],
            Event::BudgetConsumed { .. } => vec!["budget", "consumed"],
            Event::BudgetExceeded { .. } => vec!["budget", "exceeded"],
            Event::TreasuryCreated { .. } => vec!["treasury", "created"],
            Event::TreasuryPolicySet { .. } => vec!["treasury", "policy"],
            Event::TreasuryBudgetSet { .. } => vec!["treasury", "budget"],
            Event::TreasuryMultisigSet { .. } => vec!["treasury", "multisig"],
            Event::TreasuryFrozen { .. } => vec!["treasury", "frozen"],
            Event::TreasuryUnfrozen { .. } => vec!["treasury", "unfrozen"],
            Event::TreasuryDeposited { .. } => vec!["treasury", "deposited"],
            Event::AllowanceSet { .. } => vec!["treasury", "allow"],
            Event::AllowanceRemoved { .. } => vec!["treasury", "allowrm"],
            Event::TreasuryBatchPaid { .. } => vec!["treasury", "batchpay"],
            Event::MilestoneInitialized { .. } => vec!["milestone", "init"],
            Event::MilestoneDisbursed { .. } => vec!["milestone", "disbursed"],
            Event::TransferExecuted { .. } => vec!["transfer", "executed"],
            Event::EscrowFunded { .. } => vec!["escrow", "funded"],
            Event::EscrowTimelocked { .. } => vec!["escrow", "init_tl"],
            Event::EscrowClaimed { .. } => vec!["escrow", "claimed"],
            Event::EscrowReleased { .. } => vec!["escrow", "released"],
            Event::EscrowOverridden { .. } => vec!["escrow", "override"],
            Event::EscrowExpired { .. } => vec!["escrow", "expired"],
            Event::EscrowRefunded { .. } => vec!["escrow", "refunded"],
            Event::EscrowTimelockRefunded { .. } => vec!["escrow", "ref_tl"],
        }
    }
}

/// Publishes an event of the canonical schema.
pub fn publish(env: &mut CallEnv, event: ContractEvent)
    ensures
        final(env)@ == old(env)@.emit(Event::Contract(event)),
{
    env.publish(Event::Contract(event));
}

/// `ProposalCreated`: topics `("proposal", "created")`.
pub fn proposal_created(env: &mut CallEnv, proposal_id: u64, proposer: &Address)
    ensures
        final(env)@ == old(env)@.emit(Event::ProposalCreated { id: proposal_id, proposer: *proposer }),
{
    env.publish(Event::ProposalCreated { id: proposal_id, proposer: *proposer });
}

/// `ProposalApproved`: topics `("proposal", "approved")`.
pub fn proposal_approved(env: &mut CallEnv, proposal_id: u64, approver: &Address, approvals: u32)
    ensures
        final(env)@ == old(env)@.emit(
            Event::ProposalApproved { id: proposal_id, approver: *approver, approvals },
        ),
{
    env.publish(Event::ProposalApproved { id: proposal_id, approver: *approver, approvals });
}

/// `TransferExecuted`: topics `("transfer", "executed")`.
pub fn transfer_executed(
    env: &mut CallEnv,
    from: &Address,
    to: &Address,
    asset: &Address,
    amount: i128,
)
    ensures
        final(env)@ == old(env)@.emit(
            Event::TransferExecuted { from: *from, to: *to, asset: *asset, amount },
        ),
{
    env.publish(Event::TransferExecuted { from: *from, to: *to, asset: *asset, amount });
}

/// `TreasuryCreated`: topics `("treasury", "created")`.
pub fn treasury_created(env: &mut CallEnv, org: &String, admin: &Address)
    ensures
        final(env)@ == old(env)@.emit(Event::TreasuryCreated { org: *org, admin: *admin }),
{
    env.publish(Event::TreasuryCreated { org: org.clone(), admin: *admin });
}

/// `BudgetExceeded`: topics `("budget", "exceeded")`.
pub fn budget_exceeded(env: &mut CallEnv, budget_id: &String, requested: i128, remaining: i128)
    ensures
        final(env)@ == old(env)@.emit(
            Event::BudgetExceeded { budget_id: *budget_id, requested, remaining },
        ),
{
    env.publish(Event::BudgetExceeded { budget_id: budget_id.clone(), requested, remaining });
}

/// `WalletCreated`: topics `("wallet", "created")`.
pub fn wallet_created(env: &mut CallEnv, wallet_id: u64, owner: &Address)
    ensures
        final(env)@ == old(env)@.emit(Event::WalletCreated { wallet_id, owner: *owner }),
{
    env.publish(Event::WalletCreated { wallet_id, owner: *owner });
}

/// `WalletFrozen`: topics `("wallet", "frozen")`.
pub fn wallet_frozen(env: &mut CallEnv, wallet_id: u64, by: &Address)
    ensures
        final(env)@ == old(env)@.emit(Event::WalletFrozen { wallet_id, by: *by }),
{
    env.publish(Event::WalletFrozen { wallet_id, by: *by });
}

/// `PolicyViolation`: topics `("policy", "violation")`.
pub fn policy_violation(env: &mut CallEnv, policy_id: &String, reason: &'static str)
    ensures
        final(env)@ == old(env)@.emit(Event::PolicyViolation { policy_id: *policy_id, reason }),
{
    env.publish(Event::PolicyViolation { policy_id: policy_id.clone(), reason });
}

/// The reason code of a violation, from its name: the one place where call sites
/// get it from.
pub fn reason(name: &'static str) -> (r: &'static str)
    ensures
        r == name,
{
    name
}

/// The topics are stable: indexers find each event under the same names.
pub proof fn topics_are_stable(e: Event, c: ContractEvent)
    ensures
        event_topics(Event::Contract(c)) == seq![contract_topic(c)],
        e is WalletState ==> event_topics(e) == seq!["wallet", e->WalletState_action],
        e is SignerAdded ==> event_topics(e) == seq!["signer", "added"],
        e is SignerRemoved ==> event_topics(e) == seq!["signer", "removed"],
        e is SignerWeightChanged ==> event_topics(e) == seq!["signer", "weight"],
        e is ThresholdPending ==> event_topics(e) == seq!["threshold", "pending"],
        e is ThresholdChanged ==> event_topics(e) == seq!["threshold", "changed"],
        e is TimelockChanged ==> event_topics(e) == seq!["timelock", "changed"],
        e is ChangeProposed ==> event_topics(e) == seq!["govchange", "proposed"],
        e is ChangeExecuted ==> event_topics(e) == seq!["govchange", "executed"],
        e is ChangeCancelled ==> event_topics(e) == seq!["govchange", "cancelled"],
        e is EmergencyLock ==> event_topics(e) == seq!["emergency", "lock"],
        e is BatchExecuted ==> event_topics(e) == seq!["batch", "executed"],
        e is ProposalCreated ==> event_topics(e) == seq!["proposal", "created"],
        e is ProposalApproved ==> event_topics(e) == seq!["proposal", "approved"],
        e is ProposalExecuted ==> event_topics(e) == seq!["proposal", "executed"],
        e is PolicyRegistered ==> event_topics(e) == seq!["policy", "registd"],
        e is PolicyRotated ==> event_topics(e) == seq!["policy", "rotated"],
        e is PolicyAssetAdded ==> event_topics(e) == seq!["policy", "asset_add"],
        e is PolicyAssetRemoved ==> event_topics(e) == seq!["policy", "asset_rem"],
        e is PolicyBlocked ==> event_topics(e) == seq!["policy", "blk_add"],
        e is PolicyUnblocked ==> event_topics(e) == seq!["policy", "blk_rem"],
        e is PolicyMerchantBlocked ==> event_topics(e) == seq!["policy", "merch_add"],
        e is PolicyMerchantUnblocked ==> event_topics(e) == seq!["policy", "merch_rem"],
        e is PolicyCategoryBlocked ==> event_topics(e) == seq!["policy", "cat_add"],
        e is PolicyCategoryUnblocked ==> event_topics(e) == seq!["policy", "cat_rem"],
        e is PolicyViolation ==> event_topics(e) == seq!["policy", "violation"],
        e is WalletCreated ==> event_topics(e) == seq!["wallet", "created"],
        e is WalletFrozen ==> event_topics(e) == seq!["wallet", "frozen"],
        e is GuardianSet ==> event_topics(e) == seq!["wallet", "guardian"],
        e is WalletDeposited ==> event_topics(e) == seq!["wallet", "deposit"],
        e is WalletWithdrawn ==> event_topics(e) == seq!["wallet", "withdraw"],
        e is ReserveSet ==> event_topics(e) == seq!["wallet", "resv_set"],
        e is ReserveFailed ==> event_topics(e) == seq!["wallet", "resv_fail"],
        e is RoleGranted ==> event_topics(e) == seq!["role", "granted"],
        e is RoleRevoked ==> event_topics(e) == seq!["role", "revoked"],
        e is WalletPaused ==> event_topics(e) == seq!["WalletPaused"],
        e is WalletUnpaused ==> event_topics(e) == seq!["WalletUnpaused"],
        e is ProposalRejected ==> event_topics(e) == seq!["proposal", "rejected"],
        e is ProposalCancelled ==> event_topics(e) == seq!["proposal", "cancelled"],
        e is ProposalExpired ==> event_topics(e) == seq!["proposal", "expired"],
        e is ProposalCleaned ==> event_topics(e) == seq!["proposal", "cleaned"],
        e is ProposalFailed ==> event_topics(e) == seq!["proposal", "failed"],
        e is ProposalClosed ==> event_topics(e) == seq!["proposal", "closed"],
        e is BudgetAllocated ==> event_topics(e) == seq!["budget", "allocated"],
        e is BudgetReset ==> event_topics(e) == seq!["budget", "reset"],
        e is BudgetLimitSet ==> event_topics(e) == seq!["budget", "setlimit"],
        e is BudgetFrozen ==> event_topics(e) == seq!["budget", "frozen"],
        e is BudgetUnfrozen ==> event_topics(e) == seq!["budget", "unfrozen"],
        e is BudgetArchived ==> event_topics(e) == seq!["budget", "archived"],
        e is BudgetReallocated ==> event_topics(e) == seq!["budget", "realloc"],
        e is AssetLimitSet ==> event_topics(e) == seq!["budget", "set_ast"],
        e is AssetSpent ==> event_topics(e) == seq!["budget", "ast_spend"],
        e is BudgetExpired ==> event_topics(e) == seq!["budget", "expired"],
        e is BudgetRolledOver ==> event_topics(e) == seq!["budget", "rollover"],
        e is BudgetWindowReset ==> event_topics(e) == seq!["budget", "reset"],
        e is BudgetConsumed ==> event_topics(e) == seq!["budget", "consumed"],
        e is BudgetExceeded ==> event_topics(e) == seq!["budget", "exceeded"],
        e is TreasuryCreated ==> event_topics(e) == seq!["treasury", "created"],
        e is TreasuryPolicySet ==> event_topics(e) == seq!["treasury", "policy"],
        e is TreasuryBudgetSet ==> event_topics(e) == seq!["treasury", "budget"],
        e is TreasuryMultisigSet ==> event_topics(e) == seq!["treasury", "multisig"],
        e is TreasuryFrozen ==> event_topics(e) == seq!["treasury", "frozen"],
        e is TreasuryUnfrozen ==> event_topics(e) == seq!["treasury", "unfrozen"],
        e is TreasuryDeposited ==> event_topics(e) == seq!["treasury", "deposited"],
        e is AllowanceSet ==> event_topics(e) == seq!["treasury", "allow"],
        e is AllowanceRemoved ==> event_topics(e) == seq!["treasury", "allowrm"],
        e is TreasuryBatchPaid ==> event_topics(e) == seq!["treasury", "batchpay"],
        e is MilestoneInitialized ==> event_topics(e) == seq!["milestone", "init"],
        e is MilestoneDisbursed ==> event_topics(e) == seq!["milestone", "disbursed"],
        e is TransferExecuted ==> event_topics(e) == seq!["transfer", "executed"],
        e is EscrowFunded ==> event_topics(e) == seq!["escrow", "funded"],
        e is EscrowTimelocked ==> event_topics(e) == seq!["escrow", "init_tl"],
        e is EscrowClaimed ==> event_topics(e) == seq!["escrow", "claimed"],
        e is EscrowReleased ==> event_topics(e) == seq!["escrow", "released"],
        e is EscrowOverridden ==> event_topics(e) == seq!["escrow", "override"],
        e is EscrowExpired ==> event_topics(e) == seq!["escrow", "expired"],
        e is EscrowRefunded ==> event_topics(e) == seq!["escrow", "refunded"],
        e is EscrowTimelockRefunded ==> event_topics(e) == seq!["escrow", "ref_tl"],
        c is RegistryModuleUpdated ==> contract_topic(c) == "RegistryModuleUpdated",
        c is OrgOwnerChanged ==> contract_topic(c) == "OrgOwnerChanged",
        c is RegistryFrozen ==> contract_topic(c) == "RegistryFrozen",
        c is WalletCreated ==> contract_topic(c) == "WalletCreated",
        c is WalletStateChanged ==> contract_topic(c) == "WalletStateChanged",
        c is TransferExecuted ==> contract_topic(c) == "TransferExecuted",
        c is BatchTransferExecuted ==> contract_topic(c) == "BatchTransferExecuted",
        c is TreasuryConfigUpdated ==> contract_topic(c) == "TreasuryConfigUpdated",
        c is TreasuryFrozen ==> contract_topic(c) == "TreasuryFrozen",
        c is TreasuryUnfrozen ==> contract_topic(c) == "TreasuryUnfrozen",
        c is BudgetUpdated ==> contract_topic(c) == "BudgetUpdated",
        c is PolicyViolation ==> contract_topic(c) == "PolicyViolation",
        c is EscrowReleased ==> contract_topic(c) == "EscrowReleased",
{
}

} // verus!
