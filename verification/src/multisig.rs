//! # MultiSig contract
//!
//! Prevents unilateral spending by requiring an approval **weight** threshold
//! before an action executes. Each signer is assigned a positive voting weight
//! and the contract tracks the accumulated weight of approvals against a
//! configurable `threshold`, expressed in weight units, not raw signer count.
//!
//! Internal proposals go through an approve, then execute flow with an optional
//! per-proposal time lock and a global emergency lock.
//!
//! [`MultiSigContract::execute_batch`] bundles several contract calls: each
//! contributing signer authorizes the exact batch payload `(nonce, calls)`, the
//! number of distinct signers must meet the threshold, and the nonce makes
//! batches replay-proof. If any sub-call fails the whole batch is undone.
//!
//! ## Timelocked governance
//!
//! Changes to who can sign, how much a vote is worth, or the threshold can be
//! parked behind a timelock:
//!
//! ```text
//! propose_* -> (>= timelock delay elapses) -> execute_threshold_change
//!                   \ cancel_threshold_change (any signer, any time)
//! ```
//!
//! The pending change is stored with the `eta` computed at proposal time, so
//! shortening the delay later never accelerates an in-flight change. A matured
//! change stays executable for [`GOVERNANCE_GRACE_PERIOD`] and then expires.
//! The delay itself is governed the same way and stays within
//! `[MIN_TIMELOCK_DELAY, MAX_TIMELOCK_DELAY]`.
use crate::constants::{
    GOVERNANCE_GRACE_PERIOD, MAX_BATCH_CALLS, MAX_SIGNERS, MAX_TIMELOCK_DELAY, MIN_THRESHOLD,
    MIN_TIMELOCK_DELAY, THRESHOLD_CHANGE_DELAY_LEDGERS,
};
use crate::errors::Error;
use crate::events::{proposal_approved, proposal_created, Event};
use crate::host::{Effect, CallEnv, EnvView};
use crate::math::next_id;
use crate::table::Table;
use crate::types::{contains_address, Address};
use crate::validation::check;
use std::rc::Rc;
use vstd::prelude::*;

verus! {

/// A registered signer and its positive voting weight.
#[derive(Clone, Copy, Debug, PartialEq, Eq, Structural)]
pub struct SignerWeight {
    pub address: Address,
    pub weight: u32,
}

/// A pending threshold change that must wait a delay before finalization.
#[derive(Clone, Copy, Debug, PartialEq, Eq, Structural)]
pub struct PendingThresholdChange {
    pub new_threshold: u32,
    /// Ledger sequence when the change was submitted.
    pub effective_from: u32,
}

/// Internal multisig proposal. `action` and `payload` describe the intended
/// change or call; the multisig only records weighted approvals and marks the
/// proposal executed once the accumulated weight meets the threshold.
#[derive(Clone, Debug)]
pub struct MsProposal {
    pub proposer: Address,
    /// A short action tag, e.g. `payment`, `config`.
    pub action: String,
    /// Opaque payload (e.g. serialized transfer intent or hash).
    pub payload: Vec<u8>,
    /// Accumulated approval weight (sum of approver weights).
    pub approval_weight: u32,
    pub executed: bool,
    /// Earliest timestamp at which execution is allowed (time lock; 0 = none).
    pub unlock_at: u64,
}

/// A governance modification awaiting the timelock. Each variant carries the
/// exact post-state it will apply, so what was proposed is what executes.
#[derive(Clone, Copy, Debug, PartialEq, Eq, Structural)]
pub enum GovernanceChange {
    /// Set the approval weight threshold to the given value.
    Threshold(u32),
    /// Set an existing signer's voting weight.
    SignerWeight(Address, u32),
    /// Admit a new signer with the given positive weight.
    AddSigner(Address, u32),
    /// Drop an existing signer.
    RemoveSigner(Address),
    /// Change the timelock delay applied to future governance proposals.
    TimelockDelay(u64),
}

/// A proposed governance change parked behind the timelock.
///
/// `eta` is fixed at proposal time and is the earliest timestamp at which the
/// change can be applied; `expires_at` bounds how long the matured change stays
/// executable.
#[derive(Clone, Copy, Debug, PartialEq, Eq, Structural)]
pub struct PendingChange {
    /// Signer that raised the change.
    pub proposer: Address,
    /// The modification that will be applied on execution.
    pub change: GovernanceChange,
    /// Ledger timestamp at which the change was proposed.
    pub proposed_at: u64,
    /// Earliest timestamp at which execution is permitted.
    pub eta: u64,
    /// Timestamp at (and after) which the change can no longer be executed.
    pub expires_at: u64,
    pub executed: bool,
    pub cancelled: bool,
}

/// A single discrete contract call inside a batch.
#[derive(Clone, Debug)]
pub struct BatchCall {
    /// Contract to invoke.
    pub contract: Address,
    /// Function to invoke on the target contract.
    pub func: String,
    /// The serialized list of arguments.
    pub args: Vec<u8>,
}

/// How one call of a batch ended.
#[derive(Clone, Copy, Debug, PartialEq, Eq, Structural)]
pub enum CallOutcome {
    /// The call returned.
    Returned,
    /// The call returned a value that could not be decoded.
    Undecodable,
    /// The callee exited with a contract error.
    Failed(Error),
    /// A system-level failure: a panic, an abort or an unknown error code.
    Aborted,
}

// --- signer sets ---

/// Whether an address is in a signer set.
pub open spec fn is_in(signers: Seq<SignerWeight>, who: Address) -> bool {
    exists|i: int| 0 <= i < signers.len() && #[trigger] signers[i].address == who
}

/// Whether `i` is the first position of an address in a signer set.
pub open spec fn is_first(signers: Seq<SignerWeight>, who: Address, i: int) -> bool {
    &&& 0 <= i < signers.len()
    &&& signers[i].address == who
    &&& forall|j: int| 0 <= j < i ==> #[trigger] signers[j].address != who
}

/// The first position of an address in a signer set.
pub open spec fn position(signers: Seq<SignerWeight>, who: Address) -> int {
    choose|i: int| is_first(signers, who, i)
}

/// The sum of all voting weights.
pub open spec fn weight_sum(signers: Seq<SignerWeight>) -> int
    decreases signers.len(),
{
    if signers.len() == 0 {
        0
    } else {
        weight_sum(signers.drop_last()) + signers.last().weight
    }
}

/// No address occurs twice.
pub open spec fn all_distinct(signers: Seq<SignerWeight>) -> bool {
    forall|i: int, j: int|
        0 <= i < j < signers.len() ==> #[trigger] signers[i].address != #[trigger] signers[j].address
}

/// Every weight is positive.
pub open spec fn all_positive(signers: Seq<SignerWeight>) -> bool {
    forall|i: int| 0 <= i < signers.len() ==> #[trigger] signers[i].weight > 0
}

/// A signer set that a multisig can work with under a threshold: some signers
/// but not too many, no address twice, every weight positive, and a threshold
/// that all signers together reach.
pub open spec fn is_usable(signers: Seq<SignerWeight>, threshold: u32) -> bool {
    &&& 0 < signers.len() <= MAX_SIGNERS
    &&& all_distinct(signers)
    &&& all_positive(signers)
    &&& MIN_THRESHOLD <= threshold <= weight_sum(signers)
}

proof fn lemma_sum_bounds(signers: Seq<SignerWeight>)
    ensures
        0 <= weight_sum(signers) <= signers.len() * u32::MAX,
    decreases signers.len(),
{
    if signers.len() > 0 {
        lemma_sum_bounds(signers.drop_last());
        assert(signers.len() * u32::MAX == (signers.len() - 1) * u32::MAX + u32::MAX)
            by (nonlinear_arith);
    }
}

proof fn lemma_sum_push(signers: Seq<SignerWeight>, s: SignerWeight)
    ensures
        weight_sum(signers.push(s)) == weight_sum(signers) + s.weight,
{
    assert(signers.push(s).drop_last() =~= signers);
}

proof fn lemma_sum_at(signers: Seq<SignerWeight>, i: int, s: SignerWeight)
    requires
        0 <= i < signers.len(),
    ensures
        signers[i].weight <= weight_sum(signers),
        weight_sum(signers.remove(i)) == weight_sum(signers) - signers[i].weight,
        weight_sum(signers.update(i, s)) == weight_sum(signers) - signers[i].weight + s.weight,
    decreases signers.len(),
{
    let front = signers.drop_last();
    lemma_sum_bounds(front);
    if i == signers.len() - 1 {
        assert(signers.remove(i) =~= front);
        assert(signers.update(i, s).drop_last() =~= front);
    } else {
        lemma_sum_at(front, i, s);
        assert(signers.remove(i).drop_last() =~= front.remove(i));
        assert(signers.remove(i).last() == signers.last());
        assert(signers.update(i, s).drop_last() =~= front.update(i, s));
        assert(signers.update(i, s).last() == signers.last());
    }
}

fn find_signer(signers: &Vec<SignerWeight>, who: &Address) -> (r: Option<usize>)
    ensures
        match r {
            Some(i) => is_in(signers@, *who) && i == position(signers@, *who) && is_first(
                signers@,
                *who,
                i as int,
            ),
            None => !is_in(signers@, *who),
        },
{
    let mut i: usize = 0;
    while i < signers.len()
        invariant
            i <= signers@.len(),
            forall|j: int| 0 <= j < i ==> #[trigger] signers@[j].address != *who,
        decreases signers@.len() - i,
    {
        if signers[i].address == *who {
            assert(is_first(signers@, *who, i as int));
            let ghost p = position(signers@, *who);
            assert(is_first(signers@, *who, p));
            assert(p == i) by {
                if p < i {
                    assert(signers@[p].address != *who);
                } else if i < p {
                    assert(signers@[i as int].address != *who);
                }
            }
            return Some(i);
        }
        i = i + 1;
    }
    None
}

// --- batches ---

/// The distinct addresses among a caller and a list of approvers, in order of
/// their first appearance.
pub open spec fn backers(caller: Address, approvers: Seq<Address>) -> Seq<Address>
    decreases approvers.len(),
{
    if approvers.len() == 0 {
        seq![caller]
    } else {
        let earlier = backers(caller, approvers.drop_last());
        if earlier.contains(approvers.last()) {
            earlier
        } else {
            earlier.push(approvers.last())
        }
    }
}

/// The longest prefix of a list of approvers that holds signers only.
pub open spec fn signing_prefix(
    signers: Seq<SignerWeight>,
    approvers: Seq<Address>,
) -> Seq<Address>
    decreases approvers.len(),
{
    if approvers.len() == 0 {
        approvers
    } else {
        let earlier = signing_prefix(signers, approvers.drop_last());
        if earlier.len() == approvers.len() - 1 && is_in(signers, approvers.last()) {
            approvers
        } else {
            earlier
        }
    }
}

/// The environment after demanding that each address has authorized the batch.
pub open spec fn authorize_all(
    e: EnvView,
    who: Seq<Address>,
    nonce: u64,
    calls: Rc<Vec<BatchCall>>,
) -> EnvView
    decreases who.len(),
{
    if who.len() == 0 {
        e
    } else {
        authorize_all(e, who.drop_last(), nonce, calls).with(
            Effect::AuthorizeBatch { signer: who.last(), nonce, calls },
        )
    }
}

/// The environment after making the first `n` calls of a batch.
pub open spec fn invoke_all(e: EnvView, calls: Rc<Vec<BatchCall>>, n: nat) -> EnvView
    decreases n,
{
    if n == 0 {
        e
    } else {
        invoke_all(e, calls, (n - 1) as nat).with(
            Effect::Invoke { calls, index: (n - 1) as usize },
        )
    }
}

/// What one call's outcome means for the batch.
pub open spec fn call_result(outcome: CallOutcome) -> Result<(), Error> {
    match outcome {
        CallOutcome::Returned => Ok(()),
        CallOutcome::Undecodable => Err(Error::BatchCallFailed),
        CallOutcome::Failed(e) => Err(e),
        CallOutcome::Aborted => Err(Error::BatchCallFailed),
    }
}

/// The result of the call at an index: a call without an outcome has failed.
pub open spec fn nth_result(outcomes: Seq<CallOutcome>, i: int) -> Result<(), Error> {
    if i < outcomes.len() {
        call_result(outcomes[i])
    } else {
        Err(Error::BatchCallFailed)
    }
}

/// How many of `n` calls succeed before the first failure.
pub open spec fn calls_ok(outcomes: Seq<CallOutcome>, n: nat) -> nat
    decreases n,
{
    if n == 0 {
        0
    } else {
        let earlier = calls_ok(outcomes, (n - 1) as nat);
        if earlier == n - 1 && nth_result(outcomes, n - 1) is Ok {
            n
        } else {
            earlier
        }
    }
}

proof fn lemma_prefix_len(signers: Seq<SignerWeight>, approvers: Seq<Address>)
    ensures
        signing_prefix(signers, approvers).len() <= approvers.len(),
    decreases approvers.len(),
{
    if approvers.len() > 0 {
        lemma_prefix_len(signers, approvers.drop_last());
    }
}

/// Once the prefix is shorter than the list, later entries change nothing.
proof fn lemma_prefix_stops(signers: Seq<SignerWeight>, approvers: Seq<Address>, k: int)
    requires
        0 <= k <= approvers.len(),
        signing_prefix(signers, approvers.take(k)).len() < k,
    ensures
        signing_prefix(signers, approvers) == signing_prefix(signers, approvers.take(k)),
    decreases approvers.len(),
{
    if k < approvers.len() {
        let front = approvers.drop_last();
        assert(front.take(k) =~= approvers.take(k));
        lemma_prefix_stops(signers, front, k);
    } else {
        assert(approvers.take(k) =~= approvers);
    }
}

/// The prefix is the whole list exactly where every approver is a signer.
proof fn lemma_prefix_whole(signers: Seq<SignerWeight>, approvers: Seq<Address>)
    ensures
        (signing_prefix(signers, approvers).len() == approvers.len()) <==> (forall|i: int|
            0 <= i < approvers.len() ==> is_in(signers, #[trigger] approvers[i])),
        signing_prefix(signers, approvers).len() == approvers.len() ==> signing_prefix(
            signers,
            approvers,
        ) == approvers,
    decreases approvers.len(),
{
    if approvers.len() > 0 {
        let front = approvers.drop_last();
        lemma_prefix_len(signers, front);
        lemma_prefix_whole(signers, front);
        if forall|i: int| 0 <= i < front.len() ==> is_in(signers, #[trigger] front[i]) {
            if is_in(signers, approvers.last()) {
                assert forall|i: int| 0 <= i < approvers.len() implies is_in(
                    signers,
                    #[trigger] approvers[i],
                ) by {
                    if i < front.len() {
                        assert(is_in(signers, front[i]));
                    }
                }
            } else {
                assert(!is_in(signers, approvers[approvers.len() - 1]));
            }
        } else {
            let i = choose|i: int| 0 <= i < front.len() && !is_in(signers, #[trigger] front[i]);
            assert(!is_in(signers, approvers[i]));
        }
    }
}

proof fn lemma_backers_len(caller: Address, approvers: Seq<Address>)
    ensures
        1 <= backers(caller, approvers).len() <= approvers.len() + 1,
    decreases approvers.len(),
{
    if approvers.len() > 0 {
        lemma_backers_len(caller, approvers.drop_last());
    }
}

proof fn lemma_calls_ok(outcomes: Seq<CallOutcome>, k: nat, n: nat)
    requires
        k < n,
        calls_ok(outcomes, k) == k,
        nth_result(outcomes, k as int) is Err,
    ensures
        calls_ok(outcomes, n) == k,
    decreases n,
{
    if n > k + 1 {
        lemma_calls_ok(outcomes, k, (n - 1) as nat);
    }
}

// --- the contract ---

/// The multisig's storage.
pub struct MultiSigContract {
    /// Current weighted signer set.
    pub signers: Option<Vec<SignerWeight>>,
    /// Current approval weight threshold.
    pub threshold: Option<u32>,
    /// Global emergency lock flag.
    pub emergency_lock: bool,
    /// Monotonic proposal id counter.
    pub proposal_count: Option<u64>,
    /// Last used batch nonce; batches must use a greater one.
    pub last_batch_nonce: u64,
    /// Timelock delay applied to governance changes, in seconds.
    pub timelock_delay: u64,
    /// Monotonic governance-change id counter.
    pub change_count: u64,
    /// Pending threshold change awaiting finalization.
    pub pending_threshold: Option<PendingThresholdChange>,
    /// Proposals by id.
    pub proposals: Table<u64, MsProposal>,
    /// The signers that approved each proposal.
    pub approvals: Table<(u64, Address), ()>,
    /// Governance changes by id.
    pub changes: Table<u64, PendingChange>,
}

/// The multisig's storage as a value.
#[verifier::ext_equal]
pub struct MultiSigView {
    pub signers: Option<Seq<SignerWeight>>,
    pub threshold: Option<u32>,
    pub emergency_lock: bool,
    pub proposal_count: Option<u64>,
    pub last_batch_nonce: u64,
    pub timelock_delay: u64,
    pub change_count: u64,
    pub pending_threshold: Option<PendingThresholdChange>,
    pub proposals: Map<u64, MsProposal>,
    pub approvals: Map<(u64, Address), ()>,
    pub changes: Map<u64, PendingChange>,
}

impl View for MultiSigContract {
    type V = MultiSigView;

    open spec fn view(&self) -> MultiSigView {
        MultiSigView {
            signers: match self.signers {
                Some(s) => Some(s@),
                None => None,
            },
            threshold: self.threshold,
            emergency_lock: self.emergency_lock,
            proposal_count: self.proposal_count,
            last_batch_nonce: self.last_batch_nonce,
            timelock_delay: self.timelock_delay,
            change_count: self.change_count,
            pending_threshold: self.pending_threshold,
            proposals: self.proposals@,
            approvals: self.approvals@,
            changes: self.changes@,
        }
    }
}

impl MultiSigView {
    /// The multisig is either not initialized, or has a usable signer set under
    /// its threshold and a delay within the allowed bounds; governance changes
    /// are numbered `1..=change_count` and each waits at least the shortest
    /// delay and expires a grace period after it matures.
    pub open spec fn wf(self) -> bool {
        &&& self.signers is Some <==> self.threshold is Some
        &&& self.signers is Some ==> is_usable(self.signers->0, self.threshold->0)
        &&& MIN_TIMELOCK_DELAY <= self.timelock_delay <= MAX_TIMELOCK_DELAY
        &&& forall|id: u64| #[trigger]
            self.changes.contains_key(id) ==> {
                let c = self.changes[id];
                &&& 1 <= id <= self.change_count
                &&& c.proposed_at + MIN_TIMELOCK_DELAY <= c.eta <= c.proposed_at
                    + MAX_TIMELOCK_DELAY
                &&& c.expires_at == c.eta + GOVERNANCE_GRACE_PERIOD
                &&& !(c.executed && c.cancelled)
            }
    }

    /// What a signer-gated entry point answers an address, with the error for
    /// an outsider.
    pub open spec fn gate(self, who: Address, denied: Error) -> Result<(), Error> {
        match self.signers {
            None => Err(Error::NotInitialized),
            Some(s) => check(is_in(s, who), denied),
        }
    }

    /// The threshold must lie in `[MIN_THRESHOLD, sum of weights]`.
    pub open spec fn threshold_check(threshold: u32, total: int) -> Result<(), Error> {
        check(MIN_THRESHOLD <= threshold <= total, Error::InvalidThreshold)
    }

    /// Whether a governance change is valid against this state.
    pub open spec fn change_check(self, change: GovernanceChange) -> Result<(), Error> {
        if self.signers is None || self.threshold is None {
            Err(Error::NotInitialized)
        } else {
            let signers = self.signers->0;
            let threshold = self.threshold->0;
            let total = weight_sum(signers);
            if total > u32::MAX {
                Err(Error::Overflow)
            } else {
                match change {
                    GovernanceChange::Threshold(t) => Self::threshold_check(t, total),
                    GovernanceChange::SignerWeight(signer, weight) => if weight == 0 {
                        Err(Error::InvalidSignerWeight)
                    } else if !is_in(signers, signer) {
                        Err(Error::NotASigner)
                    } else {
                        let new_total = total - signers[position(signers, signer)].weight + weight;
                        if new_total > u32::MAX {
                            Err(Error::Overflow)
                        } else {
                            check(new_total >= threshold, Error::InvalidThreshold)
                        }
                    },
                    GovernanceChange::AddSigner(signer, weight) => if weight == 0 {
                        Err(Error::InvalidSignerWeight)
                    } else if is_in(signers, signer) {
                        Err(Error::AlreadyExists)
                    } else if signers.len() >= MAX_SIGNERS {
                        Err(Error::TooManySigners)
                    } else {
                        check(total + weight <= u32::MAX, Error::Overflow)
                    },
                    GovernanceChange::RemoveSigner(signer) => if !is_in(signers, signer) {
                        Err(Error::NotASigner)
                    } else {
                        check(
                            total - signers[position(signers, signer)].weight >= threshold,
                            Error::InvalidThreshold,
                        )
                    },
                    GovernanceChange::TimelockDelay(delay) => check(
                        MIN_TIMELOCK_DELAY <= delay <= MAX_TIMELOCK_DELAY,
                        Error::InvalidInput,
                    ),
                }
            }
        }
    }

    /// The state after a governance change took effect.
    pub open spec fn applied(self, change: GovernanceChange) -> MultiSigView {
        let signers = self.signers->0;
        match change {
            GovernanceChange::Threshold(t) => MultiSigView { threshold: Some(t), ..self },
            GovernanceChange::SignerWeight(signer, weight) => MultiSigView {
                signers: Some(
                    signers.update(
                        position(signers, signer),
                        SignerWeight { address: signer, weight },
                    ),
                ),
                ..self
            },
            GovernanceChange::AddSigner(signer, weight) => MultiSigView {
                signers: Some(signers.push(SignerWeight { address: signer, weight })),
                ..self
            },
            GovernanceChange::RemoveSigner(signer) => MultiSigView {
                signers: Some(signers.remove(position(signers, signer))),
                ..self
            },
            GovernanceChange::TimelockDelay(delay) => MultiSigView {
                timelock_delay: delay,
                ..self
            },
        }
    }

    /// What proposing a governance change returns.
    pub open spec fn propose_change_outcome(
        self,
        now: u64,
        caller: Address,
        change: GovernanceChange,
    ) -> Result<u64, Error> {
        if self.emergency_lock {
            Err(Error::EmergencyLock)
        } else if self.gate(caller, Error::UnauthorizedModification) is Err {
            Err(self.gate(caller, Error::UnauthorizedModification)->Err_0)
        } else if self.change_check(change) is Err {
            Err(self.change_check(change)->Err_0)
        } else if self.change_count == u64::MAX || now + self.timelock_delay
            + GOVERNANCE_GRACE_PERIOD > u64::MAX {
            Err(Error::Overflow)
        } else {
            Ok((self.change_count + 1) as u64)
        }
    }

    /// The record that proposing a governance change stores.
    pub open spec fn parked(
        self,
        now: u64,
        caller: Address,
        change: GovernanceChange,
    ) -> PendingChange {
        PendingChange {
            proposer: caller,
            change,
            proposed_at: now,
            eta: (now + self.timelock_delay) as u64,
            expires_at: (now + self.timelock_delay + GOVERNANCE_GRACE_PERIOD) as u64,
            executed: false,
            cancelled: false,
        }
    }

    /// The state after a governance change was proposed.
    pub open spec fn with_parked(
        self,
        now: u64,
        caller: Address,
        change: GovernanceChange,
    ) -> MultiSigView {
        let id = (self.change_count + 1) as u64;
        MultiSigView {
            change_count: id,
            changes: self.changes.insert(id, self.parked(now, caller, change)),
            ..self
        }
    }

    /// What executing a governance change returns.
    pub open spec fn execute_change_outcome(
        self,
        now: u64,
        caller: Address,
        id: u64,
    ) -> Result<(), Error> {
        if self.emergency_lock {
            Err(Error::EmergencyLock)
        } else if self.gate(caller, Error::UnauthorizedModification) is Err {
            self.gate(caller, Error::UnauthorizedModification)
        } else if !self.changes.contains_key(id) {
            Err(Error::NotFound)
        } else if self.changes[id].executed || self.changes[id].cancelled {
            Err(Error::InvalidProposalState)
        } else if now < self.changes[id].eta {
            Err(Error::TimelockNotExpired)
        } else if now >= self.changes[id].expires_at {
            Err(Error::ProposalExpired)
        } else {
            self.change_check(self.changes[id].change)
        }
    }

    /// The state after a governance change was executed.
    pub open spec fn with_executed(self, id: u64) -> MultiSigView {
        let pending = self.changes[id];
        let after = self.applied(pending.change);
        MultiSigView {
            changes: after.changes.insert(id, PendingChange { executed: true, ..pending }),
            ..after
        }
    }

    /// What cancelling a governance change returns.
    pub open spec fn cancel_change_outcome(self, caller: Address, id: u64) -> Result<(), Error> {
        if self.gate(caller, Error::UnauthorizedModification) is Err {
            self.gate(caller, Error::UnauthorizedModification)
        } else if !self.changes.contains_key(id) {
            Err(Error::NotFound)
        } else {
            check(
                !self.changes[id].executed && !self.changes[id].cancelled,
                Error::InvalidProposalState,
            )
        }
    }

    /// What adding a signer directly returns.
    pub open spec fn add_signer_outcome(
        self,
        caller: Address,
        signer: Address,
        weight: u32,
    ) -> Result<(), Error> {
        if self.gate(caller, Error::NotASigner) is Err {
            self.gate(caller, Error::NotASigner)
        } else if weight == 0 {
            Err(Error::InvalidSignerWeight)
        } else if is_in(self.signers->0, signer) {
            Err(Error::AlreadyExists)
        } else {
            check(self.signers->0.len() < MAX_SIGNERS, Error::TooManySigners)
        }
    }

    /// What removing a signer directly returns.
    pub open spec fn remove_signer_outcome(self, caller: Address, signer: Address) -> Result<
        (),
        Error,
    > {
        if self.gate(caller, Error::NotASigner) is Err {
            self.gate(caller, Error::NotASigner)
        } else if self.threshold is None {
            Err(Error::NotInitialized)
        } else if !is_in(self.signers->0, signer) {
            Err(Error::NotASigner)
        } else {
            let signers = self.signers->0;
            let total = weight_sum(signers);
            if total > u32::MAX {
                Err(Error::Overflow)
            } else {
                check(
                    total - signers[position(signers, signer)].weight >= self.threshold->0,
                    Error::InvalidThreshold,
                )
            }
        }
    }

    /// What submitting a direct threshold change returns.
    pub open spec fn set_threshold_outcome(self, caller: Address, threshold: u32) -> Result<
        (),
        Error,
    > {
        if self.gate(caller, Error::NotASigner) is Err {
            self.gate(caller, Error::NotASigner)
        } else if weight_sum(self.signers->0) > u32::MAX {
            Err(Error::Overflow)
        } else if !(MIN_THRESHOLD <= threshold <= weight_sum(self.signers->0)) {
            Err(Error::InvalidThreshold)
        } else if self.threshold is None {
            Err(Error::NotInitialized)
        } else {
            check(self.threshold->0 != threshold, Error::InvalidThreshold)
        }
    }

    /// What finalizing a direct threshold change returns.
    pub open spec fn finalize_threshold_outcome(self, sequence: u32, caller: Address) -> Result<
        (),
        Error,
    > {
        if self.gate(caller, Error::NotASigner) is Err {
            self.gate(caller, Error::NotASigner)
        } else if self.pending_threshold is None {
            Err(Error::NotFound)
        } else if sequence < self.pending_threshold->0.effective_from
            + THRESHOLD_CHANGE_DELAY_LEDGERS {
            Err(Error::TimelockNotExpired)
        } else {
            Self::threshold_check(
                self.pending_threshold->0.new_threshold,
                weight_sum(self.signers->0),
            )
        }
    }

    /// What creating a proposal returns.
    pub open spec fn propose_outcome(self, proposer: Address) -> Result<u64, Error> {
        if self.emergency_lock {
            Err(Error::EmergencyLock)
        } else if self.gate(proposer, Error::NotASigner) is Err {
            Err(self.gate(proposer, Error::NotASigner)->Err_0)
        } else {
            match self.proposal_count {
                None => Err(Error::NotInitialized),
                Some(count) => if count == u64::MAX {
                    Err(Error::Overflow)
                } else {
                    Ok((count + 1) as u64)
                },
            }
        }
    }

    /// The voting weight of a signer.
    pub open spec fn weight_of(self, who: Address) -> u32 {
        self.signers->0[position(self.signers->0, who)].weight
    }

    /// The state after a proposal was created.
    pub open spec fn with_proposal(
        self,
        proposer: Address,
        action: String,
        payload: Vec<u8>,
        unlock_at: u64,
    ) -> MultiSigView {
        let id = (self.proposal_count->0 + 1) as u64;
        MultiSigView {
            proposal_count: Some(id),
            proposals: self.proposals.insert(
                id,
                MsProposal {
                    proposer,
                    action,
                    payload,
                    approval_weight: self.weight_of(proposer),
                    executed: false,
                    unlock_at,
                },
            ),
            approvals: self.approvals.insert((id, proposer), ()),
            ..self
        }
    }

    /// What approving a proposal returns: the accumulated weight.
    pub open spec fn approve_outcome(self, caller: Address, id: u64) -> Result<u32, Error> {
        if self.emergency_lock {
            Err(Error::EmergencyLock)
        } else if self.gate(caller, Error::NotASigner) is Err {
            Err(self.gate(caller, Error::NotASigner)->Err_0)
        } else if !self.proposals.contains_key(id) {
            Err(Error::NotFound)
        } else if self.proposals[id].executed {
            Err(Error::InvalidProposalState)
        } else if self.approvals.contains_key((id, caller)) {
            Err(Error::AlreadySigned)
        } else {
            let weight = self.proposals[id].approval_weight + self.weight_of(caller);
            if weight > u32::MAX {
                Err(Error::Overflow)
            } else {
                Ok(weight as u32)
            }
        }
    }

    /// The state after a proposal was approved.
    pub open spec fn with_approval(self, caller: Address, id: u64) -> MultiSigView {
        let weight = (self.proposals[id].approval_weight + self.weight_of(caller)) as u32;
        MultiSigView {
            proposals: self.proposals.insert(
                id,
                MsProposal { approval_weight: weight, ..self.proposals[id] },
            ),
            approvals: self.approvals.insert((id, caller), ()),
            ..self
        }
    }

    /// What executing a proposal returns.
    pub open spec fn execute_outcome(self, now: u64, caller: Address, id: u64) -> Result<
        (),
        Error,
    > {
        if self.emergency_lock {
            Err(Error::EmergencyLock)
        } else if self.gate(caller, Error::NotASigner) is Err {
            self.gate(caller, Error::NotASigner)
        } else if !self.proposals.contains_key(id) {
            Err(Error::NotFound)
        } else if self.proposals[id].executed {
            Err(Error::InvalidProposalState)
        } else if self.threshold is None {
            Err(Error::NotInitialized)
        } else if self.proposals[id].approval_weight < self.threshold->0 {
            Err(Error::InsufficientWeight)
        } else {
            check(
                self.proposals[id].unlock_at == 0 || self.proposals[id].unlock_at <= now,
                Error::TimelockNotExpired,
            )
        }
    }

    /// The state after a proposal was executed.
    pub open spec fn with_proposal_executed(self, id: u64) -> MultiSigView {
        MultiSigView {
            proposals: self.proposals.insert(
                id,
                MsProposal { executed: true, ..self.proposals[id] },
            ),
            ..self
        }
    }

    /// The checks on a batch that come before any authorization is demanded.
    pub open spec fn batch_check(
        self,
        caller: Address,
        nonce: u64,
        calls: nat,
        approvers: nat,
    ) -> Result<(), Error> {
        if self.emergency_lock {
            Err(Error::EmergencyLock)
        } else if self.signers is None || self.threshold is None {
            Err(Error::NotInitialized)
        } else if !is_in(self.signers->0, caller) {
            Err(Error::NotASigner)
        } else if calls == 0 || calls > MAX_BATCH_CALLS || approvers > MAX_SIGNERS {
            Err(Error::InvalidInput)
        } else {
            check(nonce > self.last_batch_nonce, Error::InvalidNonce)
        }
    }

    /// Whether a batch may run: every approver is a signer, and the distinct
    /// signers behind it reach the threshold, each counting one.
    pub open spec fn batch_outcome(
        self,
        caller: Address,
        nonce: u64,
        calls: nat,
        approvers: Seq<Address>,
    ) -> Result<(), Error> {
        if self.batch_check(caller, nonce, calls, approvers.len()) is Err {
            self.batch_check(caller, nonce, calls, approvers.len())
        } else if exists|i: int|
            0 <= i < approvers.len() && !is_in(self.signers->0, #[trigger] approvers[i]) {
            Err(Error::NotASigner)
        } else {
            check(backers(caller, approvers).len() >= self.threshold->0, Error::ThresholdNotMet)
        }
    }

    /// The environment after the authorizations that a batch demands: of every
    /// distinct signer up to the first approver that is none.
    pub open spec fn batch_auth(
        self,
        e: EnvView,
        caller: Address,
        nonce: u64,
        calls: Rc<Vec<BatchCall>>,
        approvers: Seq<Address>,
    ) -> EnvView {
        if self.batch_check(caller, nonce, calls@.len(), approvers.len()) is Err {
            e
        } else {
            authorize_all(
                e,
                backers(caller, signing_prefix(self.signers->0, approvers)),
                nonce,
                calls,
            )
        }
    }

    /// The state after a governance change was cancelled.
    pub open spec fn with_cancelled(self, id: u64) -> MultiSigView {
        MultiSigView {
            changes: self.changes.insert(
                id,
                PendingChange { cancelled: true, ..self.changes[id] },
            ),
            ..self
        }
    }
}

/// The event published when a governance change takes effect.
pub open spec fn effect_event(change: GovernanceChange) -> Event {
    match change {
        GovernanceChange::Threshold(threshold) => Event::ThresholdChanged { threshold },
        GovernanceChange::SignerWeight(signer, weight) => Event::SignerWeightChanged {
            signer,
            weight,
        },
        GovernanceChange::AddSigner(signer, weight) => Event::SignerAdded { signer, weight },
        GovernanceChange::RemoveSigner(signer) => Event::SignerRemoved { signer },
        GovernanceChange::TimelockDelay(delay) => Event::TimelockChanged { delay },
    }
}

/// The short tag of a governance change.
pub open spec fn kind_of(change: GovernanceChange) -> &'static str {
    match change {
        GovernanceChange::Threshold(_) => "threshold",
        GovernanceChange::SignerWeight(_, _) => "weight",
        GovernanceChange::AddSigner(_, _) => "addsigner",
        GovernanceChange::RemoveSigner(_) => "rmsigner",
        GovernanceChange::TimelockDelay(_) => "timelock",
    }
}

/// A valid governance change leaves a usable multisig usable.
pub proof fn valid_change_keeps_multisig_usable(s: MultiSigView, change: GovernanceChange)
    requires
        s.wf(),
        s.change_check(change) is Ok,
    ensures
        s.applied(change).wf(),
{
    let signers = s.signers->0;
    let after = s.applied(change).signers->0;
    match change {
        GovernanceChange::Threshold(_) => {},
        GovernanceChange::SignerWeight(signer, weight) => {
            lemma_position(signers, signer);
            let p = position(signers, signer);
            lemma_sum_at(signers, p, SignerWeight { address: signer, weight });
            assert forall|i: int, j: int| 0 <= i < j < after.len() implies #[trigger] after[i].address
                != #[trigger] after[j].address by {
                assert(signers[i].address != signers[j].address);
            }
        },
        GovernanceChange::AddSigner(signer, weight) => {
            lemma_sum_push(signers, SignerWeight { address: signer, weight });
            assert forall|i: int, j: int| 0 <= i < j < after.len() implies #[trigger] after[i].address
                != #[trigger] after[j].address by {
                if j < signers.len() {
                    assert(signers[i].address != signers[j].address);
                } else {
                    assert(signers[i].address != signer);
                }
            }
        },
        GovernanceChange::RemoveSigner(signer) => {
            lemma_position(signers, signer);
            let p = position(signers, signer);
            lemma_sum_at(signers, p, signers[p]);
            lemma_removal_usable(signers, p, s.threshold->0);
        },
        GovernanceChange::TimelockDelay(_) => {},
    }
}

proof fn lemma_removal_usable(signers: Seq<SignerWeight>, p: int, threshold: u32)
    requires
        is_usable(signers, threshold),
        0 <= p < signers.len(),
        weight_sum(signers) - signers[p].weight >= threshold,
    ensures
        is_usable(signers.remove(p), threshold),
{
    let after = signers.remove(p);
    lemma_sum_at(signers, p, signers[p]);
    assert forall|i: int, j: int| 0 <= i < j < after.len() implies #[trigger] after[i].address
        != #[trigger] after[j].address by {
        let a = if i < p { i } else { i + 1 };
        let b = if j < p { j } else { j + 1 };
        assert(signers[a].address != signers[b].address);
    }
    assert forall|i: int| 0 <= i < after.len() implies #[trigger] after[i].weight > 0 by {
        let a = if i < p { i } else { i + 1 };
        assert(signers[a].weight > 0);
    }
    if after.len() == 0 {
        assert(weight_sum(after) == 0);
    }
}

proof fn lemma_position(signers: Seq<SignerWeight>, who: Address)
    requires
        is_in(signers, who),
    ensures
        is_first(signers, who, position(signers, who)),
{
    let i = choose|i: int| 0 <= i < signers.len() && #[trigger] signers[i].address == who;
    lemma_first_exists(signers, who, i);
}

proof fn lemma_first_exists(signers: Seq<SignerWeight>, who: Address, i: int)
    requires
        0 <= i < signers.len(),
        signers[i].address == who,
    ensures
        exists|k: int| is_first(signers, who, k),
    decreases i,
{
    if exists|j: int| 0 <= j < i && #[trigger] signers[j].address == who {
        let j = choose|j: int| 0 <= j < i && #[trigger] signers[j].address == who;
        lemma_first_exists(signers, who, j);
    } else {
        assert(is_first(signers, who, i));
    }
}

impl MultiSigContract {
    /// A contract with empty storage.
    pub fn new() -> (r: Self)
        ensures
            r@ == (MultiSigView {
                signers: None,
                threshold: None,
                emergency_lock: false,
                proposal_count: None,
                last_batch_nonce: 0,
                timelock_delay: MIN_TIMELOCK_DELAY,
                change_count: 0,
                pending_threshold: None,
                proposals: Map::empty(),
                approvals: Map::empty(),
                changes: Map::empty(),
            }),
            r@.wf(),
    {
        MultiSigContract {
            signers: None,
            threshold: None,
            emergency_lock: false,
            proposal_count: None,
            last_batch_nonce: 0,
            timelock_delay: MIN_TIMELOCK_DELAY,
            change_count: 0,
            pending_threshold: None,
            proposals: Table::new(),
            approvals: Table::new(),
            changes: Table::new(),
        }
    }

    /// Narrow an accumulated weight back to `u32`, refusing to truncate.
    fn to_weight(total: i128) -> (r: Result<u32, Error>)
        requires
            total >= 0,
        ensures
            r == (if total > u32::MAX {
                Err::<u32, Error>(Error::Overflow)
            } else {
                Ok(total as u32)
            }),
    {
        if total > 0xffff_ffff {
            return Err(Error::Overflow);
        }
        Ok(total as u32)
    }

    fn total_weight(signers: &Vec<SignerWeight>) -> (r: Result<u32, Error>)
        ensures
            r == (if weight_sum(signers@) > u32::MAX {
                Err::<u32, Error>(Error::Overflow)
            } else {
                Ok(weight_sum(signers@) as u32)
            }),
            weight_sum(signers@) >= 0,
    {
        let mut total: i128 = 0;
        let mut i: usize = 0;
        while i < signers.len()
            invariant
                i <= signers@.len(),
                total == weight_sum(signers@.take(i as int)),
                0 <= total <= i * u32::MAX,
            decreases signers@.len() - i,
        {
            proof {
                assert(signers@.take(i + 1).drop_last() =~= signers@.take(i as int));
                assert((i + 1) * u32::MAX == i * u32::MAX + u32::MAX) by (nonlinear_arith);
                assert(i * u32::MAX <= 0xffff_ffff_ffff_ffff * 0xffff_ffff) by (nonlinear_arith)
                    requires
                        i <= 0xffff_ffff_ffff_ffff,
                ;
            }
            total = total + signers[i].weight as i128;
            i = i + 1;
        }
        assert(signers@.take(i as int) =~= signers@);
        Self::to_weight(total)
    }

    fn validate_threshold(threshold: u32, total: u32) -> (r: Result<(), Error>)
        ensures
            r == MultiSigView::threshold_check(threshold, total as int),
    {
        if threshold < MIN_THRESHOLD || threshold > total {
            return Err(Error::InvalidThreshold);
        }
        Ok(())
    }

    fn assert_unique(signers: &Vec<SignerWeight>) -> (r: Result<(), Error>)
        ensures
            r == check(all_distinct(signers@), Error::InvalidInput),
    {
        let len: usize = signers.len();
        let mut i: usize = 0;
        while i < len
            invariant
                i <= len,
                len == signers@.len(),
                forall|a: int, b: int|
                    0 <= a < i && a < b < len ==> #[trigger] signers@[a].address
                        != #[trigger] signers@[b].address,
            decreases len - i,
        {
            let mut j: usize = i + 1;
            while j < len
                invariant
                    i < j <= len,
                    len == signers@.len(),
                    forall|b: int|
                        i < b < j ==> #[trigger] signers@[b].address != signers@[i as int].address,
                decreases len - j,
            {
                if signers[i].address == signers[j].address {
                    return Err(Error::InvalidInput);
                }
                j = j + 1;
            }
            i = i + 1;
        }
        Ok(())
    }

    /// Initialize with an initial weighted signer set and a weight threshold.
    /// `threshold` must be within `[MIN_THRESHOLD, total weight]` and the signer
    /// set within `MAX_SIGNERS`, with all weights positive and addresses unique.
    pub fn initialize(&mut self, signers: Vec<SignerWeight>, threshold: u32) -> (r: Result<
        (),
        Error,
    >)
        ensures
            r == (if old(self)@.threshold is Some {
                Err::<(), Error>(Error::AlreadyInitialized)
            } else if signers@.len() == 0 || signers@.len() > MAX_SIGNERS {
                Err(Error::InvalidInput)
            } else if !all_positive(signers@) {
                Err(Error::InsufficientWeight)
            } else if weight_sum(signers@) > u32::MAX {
                Err(Error::Overflow)
            } else if !(MIN_THRESHOLD <= threshold <= weight_sum(signers@)) {
                Err(Error::InvalidThreshold)
            } else if !all_distinct(signers@) {
                Err(Error::InvalidInput)
            } else {
                Ok(())
            }),
            r is Err ==> *final(self) == *old(self),
            r is Ok ==> final(self)@ == (MultiSigView {
                signers: Some(signers@),
                threshold: Some(threshold),
                emergency_lock: false,
                proposal_count: Some(0u64),
                last_batch_nonce: 0,
                change_count: 0,
                timelock_delay: MIN_TIMELOCK_DELAY,
                ..old(self)@
            }),
            old(self)@.wf() && old(self)@.changes.dom() =~= Set::empty() ==> final(self)@.wf(),
    {
        if self.threshold.is_some() {
            return Err(Error::AlreadyInitialized);
        }
        let n: usize = signers.len();
        if n == 0 || n > MAX_SIGNERS as usize {
            return Err(Error::InvalidInput);
        }
        let mut i: usize = 0;
        while i < n
            invariant
                n == signers@.len(),
                i <= n,
                forall|j: int| 0 <= j < i ==> #[trigger] signers@[j].weight > 0,
                *self == *old(self),
                old(self)@.threshold is None,
                0 < n <= MAX_SIGNERS,
            decreases n - i,
        {
            if signers[i].weight == 0 {
                return Err(Error::InsufficientWeight);
            }
            i = i + 1;
        }
        let total: u32 = match Self::total_weight(&signers) {
            Ok(t) => t,
            Err(e) => return Err(e),
        };
        if let Err(e) = Self::validate_threshold(threshold, total) {
            return Err(e);
        }
        if let Err(e) = Self::assert_unique(&signers) {
            return Err(e);
        }
        self.signers = Some(signers);
        self.threshold = Some(threshold);
        self.emergency_lock = false;
        self.proposal_count = Some(0);
        self.last_batch_nonce = 0;
        self.change_count = 0;
        self.timelock_delay = MIN_TIMELOCK_DELAY;
        Ok(())
    }

    /// Demands the caller's authorization, and that it is a signer.
    fn require_signer(&self, env: &mut CallEnv, caller: &Address) -> (r: Result<(), Error>)
        ensures
            r == self@.gate(*caller, Error::NotASigner),
            final(env)@ == old(env)@.auth(*caller),
    {
        env.require_auth(*caller);
        match &self.signers {
            None => Err(Error::NotInitialized),
            Some(signers) => match find_signer(signers, caller) {
                Some(_) => Ok(()),
                None => Err(Error::NotASigner),
            },
        }
    }

    /// Demands a governance caller's authorization. Distinct from
    /// `require_signer` so that governance denials have a dedicated code.
    fn require_governor(&self, env: &mut CallEnv, caller: &Address) -> (r: Result<(), Error>)
        ensures
            r == self@.gate(*caller, Error::UnauthorizedModification),
            final(env)@ == old(env)@.auth(*caller),
    {
        env.require_auth(*caller);
        match &self.signers {
            None => Err(Error::NotInitialized),
            Some(signers) => match find_signer(signers, caller) {
                Some(_) => Ok(()),
                None => Err(Error::UnauthorizedModification),
            },
        }
    }

    fn require_not_locked(&self) -> (r: Result<(), Error>)
        ensures
            r == check(!self@.emergency_lock, Error::EmergencyLock),
    {
        if self.emergency_lock {
            return Err(Error::EmergencyLock);
        }
        Ok(())
    }

    /// Check a governance change against the live signer set and threshold.
    /// Run both at proposal time and immediately before execution.
    fn validate_change(&self, change: &GovernanceChange) -> (r: Result<(), Error>)
        ensures
            r == self@.change_check(*change),
    {
        let signers = match &self.signers {
            Some(s) => s,
            None => return Err(Error::NotInitialized),
        };
        let threshold: u32 = match self.threshold {
            Some(t) => t,
            None => return Err(Error::NotInitialized),
        };
        let total: u32 = Self::total_weight(signers)?;
        match *change {
            GovernanceChange::Threshold(new_threshold) => Self::validate_threshold(
                new_threshold,
                total,
            ),
            GovernanceChange::SignerWeight(signer, weight) => {
                if weight == 0 {
                    return Err(Error::InvalidSignerWeight);
                }
                let current: u32 = match find_signer(signers, &signer) {
                    Some(i) => {
                        proof {
                            lemma_sum_at(signers@, i as int, signers@[i as int]);
                        }
                        signers[i].weight
                    },
                    None => return Err(Error::NotASigner),
                };
                let new_total: i128 = total as i128 - current as i128 + weight as i128;
                Self::to_weight(new_total)?;
                if new_total < threshold as i128 {
                    return Err(Error::InvalidThreshold);
                }
                Ok(())
            },
            GovernanceChange::AddSigner(signer, weight) => {
                if weight == 0 {
                    return Err(Error::InvalidSignerWeight);
                }
                if find_signer(signers, &signer).is_some() {
                    return Err(Error::AlreadyExists);
                }
                if signers.len() >= MAX_SIGNERS as usize {
                    return Err(Error::TooManySigners);
                }
                // The total only grows here, so the threshold stays reachable.
                Self::to_weight(total as i128 + weight as i128)?;
                Ok(())
            },
            GovernanceChange::RemoveSigner(signer) => {
                let removed: u32 = match find_signer(signers, &signer) {
                    Some(i) => {
                        proof {
                            lemma_sum_at(signers@, i as int, signers@[i as int]);
                        }
                        signers[i].weight
                    },
                    None => return Err(Error::NotASigner),
                };
                if total - removed < threshold {
                    return Err(Error::InvalidThreshold);
                }
                Ok(())
            },
            GovernanceChange::TimelockDelay(delay) => {
                if delay < MIN_TIMELOCK_DELAY || delay > MAX_TIMELOCK_DELAY {
                    return Err(Error::InvalidInput);
                }
                Ok(())
            },
        }
    }

    /// Commit a validated governance change and publish the matching event.
    fn apply_change(&mut self, env: &mut CallEnv, change: &GovernanceChange)
        requires
            old(self)@.change_check(*change) is Ok,
        ensures
            final(self)@ == old(self)@.applied(*change),
            final(env)@ == old(env)@.emit(effect_event(*change)),
    {
        match *change {
            GovernanceChange::Threshold(threshold) => {
                self.threshold = Some(threshold);
                env.publish(Event::ThresholdChanged { threshold });
            },
            GovernanceChange::SignerWeight(signer, weight) => {
                if let Some(mut signers) = self.signers.take() {
                    if let Some(i) = find_signer(&signers, &signer) {
                        signers.set(i, SignerWeight { address: signer, weight });
                    }
                    self.signers = Some(signers);
                }
                env.publish(Event::SignerWeightChanged { signer, weight });
            },
            GovernanceChange::AddSigner(signer, weight) => {
                if let Some(mut signers) = self.signers.take() {
                    signers.push(SignerWeight { address: signer, weight });
                    self.signers = Some(signers);
                }
                env.publish(Event::SignerAdded { signer, weight });
            },
            GovernanceChange::RemoveSigner(signer) => {
                if let Some(mut signers) = self.signers.take() {
                    if let Some(i) = find_signer(&signers, &signer) {
                        signers.remove(i);
                    }
                    self.signers = Some(signers);
                }
                env.publish(Event::SignerRemoved { signer });
            },
            GovernanceChange::TimelockDelay(delay) => {
                self.timelock_delay = delay;
                env.publish(Event::TimelockChanged { delay });
            },
        }
    }

    /// Short tag describing a change, published with every governance event so
    /// that indexers can filter without decoding the payload.
    fn change_kind(change: &GovernanceChange) -> (r: &'static str)
        ensures
            r == kind_of(*change),
    {
        match change {
            GovernanceChange::Threshold(_) => "threshold",
            GovernanceChange::SignerWeight(_, _) => "weight",
            GovernanceChange::AddSigner(_, _) => "addsigner",
            GovernanceChange::RemoveSigner(_) => "rmsigner",
            GovernanceChange::TimelockDelay(_) => "timelock",
        }
    }

    /// Shared path of every governance proposal: authorize, validate against
    /// live state, then park the change behind the timelock.
    fn propose_change(&mut self, env: &mut CallEnv, caller: &Address, change: GovernanceChange) -> (r:
        Result<u64, Error>)
        ensures
            r == old(self)@.propose_change_outcome(old(env)@.timestamp, *caller, change),
            r is Err ==> *final(self) == *old(self),
            r is Ok ==> final(self)@ == old(self)@.with_parked(
                old(env)@.timestamp,
                *caller,
                change,
            ),
            final(env)@ == (if old(self)@.emergency_lock {
                old(env)@
            } else if r is Err {
                old(env)@.auth(*caller)
            } else {
                old(env)@.auth(*caller).emit(
                    Event::ChangeProposed {
                        id: r->Ok_0,
                        caller: *caller,
                        kind: kind_of(change),
                        eta: (old(env)@.timestamp + old(self)@.timelock_delay) as u64,
                    },
                )
            }),
            old(self)@.wf() ==> final(self)@.wf(),
    {
        self.require_not_locked()?;
        self.require_governor(env, caller)?;
        self.validate_change(&change)?;
        let id: u64 = next_id(self.change_count)?;
        let now: u64 = env.timestamp;
        let eta: u64 = match now.checked_add(self.timelock_delay) {
            Some(t) => t,
            None => return Err(Error::Overflow),
        };
        let expires_at: u64 = match eta.checked_add(GOVERNANCE_GRACE_PERIOD) {
            Some(t) => t,
            None => return Err(Error::Overflow),
        };
        let kind = Self::change_kind(&change);
        let pending = PendingChange {
            proposer: *caller,
            change,
            proposed_at: now,
            eta,
            expires_at,
            executed: false,
            cancelled: false,
        };
        self.changes.set(id, pending);
        self.change_count = id;
        env.publish(Event::ChangeProposed { id, caller: *caller, kind, eta });
        Ok(id)
    }

    /// Add a signer. Signer-gated. Rejects duplicates, zero weights, and
    /// over-capacity signer sets.
    pub fn add_signer(
        &mut self,
        env: &mut CallEnv,
        caller: Address,
        signer: Address,
        weight: u32,
    ) -> (r: Result<(), Error>)
        ensures
            r == old(self)@.add_signer_outcome(caller, signer, weight),
            r is Err ==> *final(self) == *old(self) && final(env)@ == old(env)@.auth(caller),
            r is Ok ==> final(self)@ == old(self)@.applied(
                GovernanceChange::AddSigner(signer, weight),
            ) && final(env)@ == old(env)@.auth(caller).emit(Event::SignerAdded { signer, weight }),
            old(self)@.wf() ==> final(self)@.wf(),
    {
        self.require_signer(env, &caller)?;
        if weight == 0 {
            return Err(Error::InvalidSignerWeight);
        }
        match &self.signers {
            None => return Err(Error::NotInitialized),
            Some(signers) => {
                if find_signer(signers, &signer).is_some() {
                    return Err(Error::AlreadyExists);
                }
                if signers.len() >= MAX_SIGNERS as usize {
                    return Err(Error::TooManySigners);
                }
            },
        }
        proof {
            let s = self.signers->0@;
            let added = SignerWeight { address: signer, weight };
            lemma_sum_push(s, added);
            let after = s.push(added);
            if self@.wf() {
                assert forall|i: int, j: int|
                    0 <= i < j < after.len() implies #[trigger] after[i].address
                    != #[trigger] after[j].address by {
                    if j < s.len() {
                        assert(s[i].address != s[j].address);
                    } else {
                        assert(s[i].address != signer);
                    }
                }
                assert(is_usable(after, self@.threshold->0));
            }
        }
        if let Some(mut signers) = self.signers.take() {
            signers.push(SignerWeight { address: signer, weight });
            self.signers = Some(signers);
        }
        env.publish(Event::SignerAdded { signer, weight });
        Ok(())
    }

    /// Remove a signer. Signer-gated. Refuses to drop below the threshold or to
    /// empty the set, so the multisig can never become unusable.
    pub fn remove_signer(&mut self, env: &mut CallEnv, caller: Address, signer: Address) -> (r: Result<
        (),
        Error,
    >)
        ensures
            r == old(self)@.remove_signer_outcome(caller, signer),
            r is Err ==> *final(self) == *old(self) && final(env)@ == old(env)@.auth(caller),
            r is Ok ==> final(self)@ == old(self)@.applied(GovernanceChange::RemoveSigner(signer))
                && final(env)@ == old(env)@.auth(caller).emit(Event::SignerRemoved { signer }),
            old(self)@.wf() ==> final(self)@.wf(),
    {
        self.require_signer(env, &caller)?;
        let threshold: u32 = match self.threshold {
            Some(t) => t,
            None => return Err(Error::NotInitialized),
        };
        match &self.signers {
            None => return Err(Error::NotInitialized),
            Some(signers) => {
                let i: usize = match find_signer(signers, &signer) {
                    Some(i) => i,
                    None => return Err(Error::NotASigner),
                };
                proof {
                    lemma_sum_at(signers@, i as int, signers@[i as int]);
                }
                let remaining: u32 = Self::total_weight(signers)? - signers[i].weight;
                if remaining < threshold {
                    return Err(Error::InvalidThreshold);
                }
            },
        }
        proof {
            let s = self.signers->0@;
            let p = position(s, signer);
            lemma_position(s, signer);
            if self@.wf() {
                lemma_removal_usable(s, p, threshold);
            }
        }
        if let Some(mut signers) = self.signers.take() {
            if let Some(i) = find_signer(&signers, &signer) {
                signers.remove(i);
            }
            self.signers = Some(signers);
        }
        env.publish(Event::SignerRemoved { signer });
        Ok(())
    }

    /// Propose a pending threshold change. Signer-gated. Must stay within
    /// `[MIN_THRESHOLD, total weight]`. The change is stored but not applied
    /// until [`MultiSigContract::finalize_threshold`] is called after the delay.
    pub fn set_threshold(&mut self, env: &mut CallEnv, caller: Address, threshold: u32) -> (r: Result<
        (),
        Error,
    >)
        ensures
            r == old(self)@.set_threshold_outcome(caller, threshold),
            r is Err ==> *final(self) == *old(self) && final(env)@ == old(env)@.auth(caller),
            r is Ok ==> final(self)@ == (MultiSigView {
                pending_threshold: Some(
                    PendingThresholdChange {
                        new_threshold: threshold,
                        effective_from: old(env)@.sequence,
                    },
                ),
                ..old(self)@
            }) && final(env)@ == old(env)@.auth(caller).emit(
                Event::ThresholdPending { threshold, sequence: old(env)@.sequence },
            ),
            old(self)@.wf() ==> final(self)@.wf(),
    {
        self.require_signer(env, &caller)?;
        let total: u32 = match &self.signers {
            None => return Err(Error::NotInitialized),
            Some(signers) => Self::total_weight(signers)?,
        };
        Self::validate_threshold(threshold, total)?;
        let current: u32 = match self.threshold {
            Some(t) => t,
            None => return Err(Error::NotInitialized),
        };
        if current == threshold {
            return Err(Error::InvalidThreshold);
        }
        let sequence: u32 = env.sequence;
        self.pending_threshold = Some(
            PendingThresholdChange { new_threshold: threshold, effective_from: sequence },
        );
        env.publish(Event::ThresholdPending { threshold, sequence });
        Ok(())
    }

    /// Finalize a pending threshold change. The change only takes effect after
    /// at least [`THRESHOLD_CHANGE_DELAY_LEDGERS`] ledgers have passed since it
    /// was submitted via [`MultiSigContract::set_threshold`]. The value is
    /// re-validated against the live total weight, in case the signer set moved
    /// meanwhile, so that the multisig can never become unusable.
    pub fn finalize_threshold(&mut self, env: &mut CallEnv, caller: Address) -> (r: Result<(), Error>)
        ensures
            r == old(self)@.finalize_threshold_outcome(old(env)@.sequence, caller),
            r is Err ==> *final(self) == *old(self) && final(env)@ == old(env)@.auth(caller),
            r is Ok ==> final(self)@ == (MultiSigView {
                threshold: Some(old(self)@.pending_threshold->0.new_threshold),
                pending_threshold: None,
                ..old(self)@
            }) && final(env)@ == old(env)@.auth(caller).emit(
                Event::ThresholdChanged { threshold: old(self)@.pending_threshold->0.new_threshold },
            ),
            old(self)@.wf() ==> final(self)@.wf(),
    {
        self.require_signer(env, &caller)?;
        let pending = match self.pending_threshold {
            Some(p) => p,
            None => return Err(Error::NotFound),
        };
        let elapsed: u32 = match env.sequence.checked_sub(pending.effective_from) {
            Some(n) => n,
            None => return Err(Error::TimelockNotExpired),
        };
        if elapsed < THRESHOLD_CHANGE_DELAY_LEDGERS {
            return Err(Error::TimelockNotExpired);
        }
        let signers = match &self.signers {
            Some(s) => s,
            None => return Err(Error::NotInitialized),
        };
        // A total too large to narrow reaches every threshold.
        let total: u32 = match Self::total_weight(signers) {
            Ok(t) => t,
            Err(_) => u32::MAX,
        };
        Self::validate_threshold(pending.new_threshold, total)?;
        self.threshold = Some(pending.new_threshold);
        self.pending_threshold = None;
        env.publish(Event::ThresholdChanged { threshold: pending.new_threshold });
        Ok(())
    }

    /// Propose raising or lowering the approval weight threshold.
    ///
    /// Signer-gated. The value is validated against the current total signer
    /// weight up front so that an unsatisfiable threshold is never parked, and
    /// re-validated on execution in case the signer set moved meanwhile.
    /// Returns the id used to execute or cancel the change.
    pub fn propose_threshold_change(
        &mut self,
        env: &mut CallEnv,
        caller: Address,
        new_threshold: u32,
    ) -> (r: Result<u64, Error>)
        ensures
            proposes(
                *old(self),
                *final(self),
                old(env)@,
                final(env)@,
                caller,
                GovernanceChange::Threshold(new_threshold),
                r,
            ),
    {
        self.propose_change(env, &caller, GovernanceChange::Threshold(new_threshold))
    }

    /// Propose changing an existing signer's voting weight. Signer-gated. The
    /// resulting total weight must stay at or above the threshold.
    pub fn propose_weight_change(
        &mut self,
        env: &mut CallEnv,
        caller: Address,
        signer: Address,
        new_weight: u32,
    ) -> (r: Result<u64, Error>)
        ensures
            proposes(
                *old(self),
                *final(self),
                old(env)@,
                final(env)@,
                caller,
                GovernanceChange::SignerWeight(signer, new_weight),
                r,
            ),
    {
        self.propose_change(env, &caller, GovernanceChange::SignerWeight(signer, new_weight))
    }

    /// Propose admitting a new signer with a positive weight. Signer-gated.
    /// Rejects duplicates, zero weights and over-capacity signer sets.
    pub fn propose_signer_addition(
        &mut self,
        env: &mut CallEnv,
        caller: Address,
        signer: Address,
        weight: u32,
    ) -> (r: Result<u64, Error>)
        ensures
            proposes(
                *old(self),
                *final(self),
                old(env)@,
                final(env)@,
                caller,
                GovernanceChange::AddSigner(signer, weight),
                r,
            ),
    {
        self.propose_change(env, &caller, GovernanceChange::AddSigner(signer, weight))
    }

    /// Propose removing a signer. Signer-gated. Refuses to drop the remaining
    /// total weight below the threshold, so the multisig can never be bricked.
    pub fn propose_signer_removal(
        &mut self,
        env: &mut CallEnv,
        caller: Address,
        signer: Address,
    ) -> (r: Result<u64, Error>)
        ensures
            proposes(
                *old(self),
                *final(self),
                old(env)@,
                final(env)@,
                caller,
                GovernanceChange::RemoveSigner(signer),
                r,
            ),
    {
        self.propose_change(env, &caller, GovernanceChange::RemoveSigner(signer))
    }

    /// Propose a new timelock delay for *future* governance proposals.
    ///
    /// Signer-gated and itself timelocked, so the review window cannot be
    /// shortened without first surviving the current one. The value must lie in
    /// `[MIN_TIMELOCK_DELAY, MAX_TIMELOCK_DELAY]`.
    pub fn propose_timelock_delay_change(
        &mut self,
        env: &mut CallEnv,
        caller: Address,
        new_delay: u64,
    ) -> (r: Result<u64, Error>)
        ensures
            proposes(
                *old(self),
                *final(self),
                old(env)@,
                final(env)@,
                caller,
                GovernanceChange::TimelockDelay(new_delay),
                r,
            ),
    {
        self.propose_change(env, &caller, GovernanceChange::TimelockDelay(new_delay))
    }

    /// Execute a pending governance change once its timelock has elapsed.
    ///
    /// Signer-gated. Fails with [`Error::TimelockNotExpired`] before `eta`,
    /// [`Error::ProposalExpired`] once the grace period lapsed, and
    /// [`Error::InvalidProposalState`] if the change was already executed or
    /// cancelled. The change is re-validated against live state immediately
    /// before it is applied.
    pub fn execute_threshold_change(
        &mut self,
        env: &mut CallEnv,
        caller: Address,
        proposal_id: u64,
    ) -> (r: Result<(), Error>)
        ensures
            r == old(self)@.execute_change_outcome(old(env)@.timestamp, caller, proposal_id),
            r is Err ==> *final(self) == *old(self),
            r is Ok ==> final(self)@ == old(self)@.with_executed(proposal_id),
            final(env)@ == (if old(self)@.emergency_lock {
                old(env)@
            } else if r is Err {
                old(env)@.auth(caller)
            } else {
                let change = old(self)@.changes[proposal_id].change;
                old(env)@.auth(caller).emit(effect_event(change)).emit(
                    Event::ChangeExecuted { id: proposal_id, caller, kind: kind_of(change) },
                )
            }),
            old(self)@.wf() ==> final(self)@.wf(),
    {
        self.require_not_locked()?;
        self.require_governor(env, &caller)?;
        let mut pending = match self.changes.get(&proposal_id) {
            Some(c) => *c,
            None => return Err(Error::NotFound),
        };
        Self::require_change_open(&pending)?;
        let now: u64 = env.timestamp;
        if now < pending.eta {
            return Err(Error::TimelockNotExpired);
        }
        if now >= pending.expires_at {
            return Err(Error::ProposalExpired);
        }
        // The signer set may have moved since the proposal was raised; only
        // apply a change that is still valid against live state.
        self.validate_change(&pending.change)?;
        proof {
            if self@.wf() {
                valid_change_keeps_multisig_usable(self@, pending.change);
            }
        }
        self.apply_change(env, &pending.change);
        pending.executed = true;
        let kind = Self::change_kind(&pending.change);
        self.changes.set(proposal_id, pending);
        env.publish(Event::ChangeExecuted { id: proposal_id, caller, kind });
        Ok(())
    }

    /// A change may only be executed or cancelled once.
    fn require_change_open(pending: &PendingChange) -> (r: Result<(), Error>)
        ensures
            r == check(!pending.executed && !pending.cancelled, Error::InvalidProposalState),
    {
        if pending.executed || pending.cancelled {
            return Err(Error::InvalidProposalState);
        }
        Ok(())
    }

    /// Veto a pending governance change. Any signer may cancel: honest key
    /// holders get a window to stop a malicious modification raised by a
    /// compromised key.
    ///
    /// Deliberately callable while the emergency lock is engaged: freezing the
    /// multisig must not also freeze the ability to withdraw a hostile change.
    pub fn cancel_threshold_change(
        &mut self,
        env: &mut CallEnv,
        caller: Address,
        proposal_id: u64,
    ) -> (r: Result<(), Error>)
        ensures
            r == old(self)@.cancel_change_outcome(caller, proposal_id),
            r is Err ==> *final(self) == *old(self) && final(env)@ == old(env)@.auth(caller),
            r is Ok ==> final(self)@ == old(self)@.with_cancelled(proposal_id) && final(env)@
                == old(env)@.auth(caller).emit(
                Event::ChangeCancelled {
                    id: proposal_id,
                    caller,
                    kind: kind_of(old(self)@.changes[proposal_id].change),
                },
            ),
            old(self)@.wf() ==> final(self)@.wf(),
    {
        self.require_governor(env, &caller)?;
        let mut pending = match self.changes.get(&proposal_id) {
            Some(c) => *c,
            None => return Err(Error::NotFound),
        };
        Self::require_change_open(&pending)?;
        pending.cancelled = true;
        let kind = Self::change_kind(&pending.change);
        self.changes.set(proposal_id, pending);
        env.publish(Event::ChangeCancelled { id: proposal_id, caller, kind });
        Ok(())
    }

    /// Toggle the global emergency lock (signer-gated). While locked, proposals
    /// cannot be created, approved or executed.
    pub fn set_emergency_lock(&mut self, env: &mut CallEnv, caller: Address, locked: bool) -> (r: Result<
        (),
        Error,
    >)
        ensures
            r == old(self)@.gate(caller, Error::NotASigner),
            r is Err ==> *final(self) == *old(self) && final(env)@ == old(env)@.auth(caller),
            r is Ok ==> final(self)@ == (MultiSigView { emergency_lock: locked, ..old(self)@ })
                && final(env)@ == old(env)@.auth(caller).emit(Event::EmergencyLock { locked }),
            old(self)@.wf() ==> final(self)@.wf(),
    {
        self.require_signer(env, &caller)?;
        self.emergency_lock = locked;
        env.publish(Event::EmergencyLock { locked });
        Ok(())
    }

    fn load_weight(&self, who: &Address) -> (r: Result<u32, Error>)
        ensures
            r == (match self@.signers {
                None => Err::<u32, Error>(Error::NotInitialized),
                Some(s) => if is_in(s, *who) {
                    Ok(self@.weight_of(*who))
                } else {
                    Err(Error::NotASigner)
                },
            }),
    {
        match &self.signers {
            None => Err(Error::NotInitialized),
            Some(signers) => match find_signer(signers, who) {
                Some(i) => Ok(signers[i].weight),
                None => Err(Error::NotASigner),
            },
        }
    }

    /// Create a proposal. Only a signer may propose. `unlock_at` sets an
    /// optional time lock (0 = immediately executable once the threshold is
    /// met). The proposer's weight is counted automatically.
    pub fn propose(
        &mut self,
        env: &mut CallEnv,
        proposer: Address,
        action: String,
        payload: Vec<u8>,
        unlock_at: u64,
    ) -> (r: Result<u64, Error>)
        ensures
            r == old(self)@.propose_outcome(proposer),
            r is Err ==> *final(self) == *old(self),
            r is Ok ==> final(self)@ == old(self)@.with_proposal(
                proposer,
                action,
                payload,
                unlock_at,
            ),
            final(env)@ == (if old(self)@.emergency_lock {
                old(env)@
            } else if r is Err {
                old(env)@.auth(proposer)
            } else {
                old(env)@.auth(proposer).emit(Event::ProposalCreated { id: r->Ok_0, proposer })
            }),
            old(self)@.wf() ==> final(self)@.wf(),
    {
        self.require_not_locked()?;
        self.require_signer(env, &proposer)?;
        let count: u64 = match self.proposal_count {
            Some(c) => c,
            None => return Err(Error::NotInitialized),
        };
        let id: u64 = next_id(count)?;
        let approval_weight: u32 = self.load_weight(&proposer)?;
        let proposal = MsProposal {
            proposer,
            action,
            payload,
            approval_weight,
            executed: false,
            unlock_at,
        };
        self.proposals.set(id, proposal);
        self.approvals.set((id, proposer), ());
        self.proposal_count = Some(id);
        proposal_created(env, id, &proposer);
        Ok(id)
    }

    /// Approve a proposal. Only signers may approve, once each. Their weight is
    /// added to the accumulated total. Publishes the running weight.
    pub fn approve(&mut self, env: &mut CallEnv, caller: Address, proposal_id: u64) -> (r: Result<
        u32,
        Error,
    >)
        ensures
            r == old(self)@.approve_outcome(caller, proposal_id),
            r is Err ==> *final(self) == *old(self),
            r is Ok ==> final(self)@ == old(self)@.with_approval(caller, proposal_id),
            final(env)@ == (if old(self)@.emergency_lock {
                old(env)@
            } else if r is Err {
                old(env)@.auth(caller)
            } else {
                old(env)@.auth(caller).emit(
                    Event::ProposalApproved {
                        id: proposal_id,
                        approver: caller,
                        approvals: r->Ok_0,
                    },
                )
            }),
            old(self)@.wf() ==> final(self)@.wf(),
    {
        self.require_not_locked()?;
        self.require_signer(env, &caller)?;
        let earlier: u32 = match self.proposals.get(&proposal_id) {
            None => return Err(Error::NotFound),
            Some(p) => {
                if p.executed {
                    return Err(Error::InvalidProposalState);
                }
                p.approval_weight
            },
        };
        if self.approvals.has(&(proposal_id, caller)) {
            return Err(Error::AlreadySigned);
        }
        let weight: u32 = self.load_weight(&caller)?;
        let approval_weight: u32 = match earlier.checked_add(weight) {
            Some(w) => w,
            None => return Err(Error::Overflow),
        };
        let ghost before = self@;
        if let Some(mut proposal) = self.proposals.take(&proposal_id) {
            proposal.approval_weight = approval_weight;
            self.proposals.set(proposal_id, proposal);
        }
        self.approvals.set((proposal_id, caller), ());
        proof {
            assert(self@.proposals =~= before.with_approval(caller, proposal_id).proposals);
        }
        proposal_approved(env, proposal_id, &caller, approval_weight);
        Ok(approval_weight)
    }

    /// Execute a proposal once the accumulated approval weight meets the
    /// threshold and any time lock has elapsed. Rejects with
    /// [`Error::InsufficientWeight`] when the accumulated weight is below the
    /// threshold.
    pub fn execute(&mut self, env: &mut CallEnv, caller: Address, proposal_id: u64) -> (r: Result<
        (),
        Error,
    >)
        ensures
            r == old(self)@.execute_outcome(old(env)@.timestamp, caller, proposal_id),
            r is Err ==> *final(self) == *old(self),
            r is Ok ==> final(self)@ == old(self)@.with_proposal_executed(proposal_id),
            final(env)@ == (if old(self)@.emergency_lock {
                old(env)@
            } else if r is Err {
                old(env)@.auth(caller)
            } else {
                old(env)@.auth(caller).emit(Event::ProposalExecuted { id: proposal_id })
            }),
            old(self)@.wf() ==> final(self)@.wf(),
    {
        self.require_not_locked()?;
        self.require_signer(env, &caller)?;
        match self.proposals.get(&proposal_id) {
            None => return Err(Error::NotFound),
            Some(p) => {
                if p.executed {
                    return Err(Error::InvalidProposalState);
                }
                let threshold: u32 = match self.threshold {
                    Some(t) => t,
                    None => return Err(Error::NotInitialized),
                };
                if p.approval_weight < threshold {
                    return Err(Error::InsufficientWeight);
                }
                if p.unlock_at != 0 && env.timestamp < p.unlock_at {
                    return Err(Error::TimelockNotExpired);
                }
            },
        }
        let ghost before = self@;
        if let Some(mut proposal) = self.proposals.take(&proposal_id) {
            proposal.executed = true;
            self.proposals.set(proposal_id, proposal);
        }
        proof {
            assert(self@.proposals =~= before.with_proposal_executed(proposal_id).proposals);
        }
        env.publish(Event::ProposalExecuted { id: proposal_id });
        Ok(())
    }

    /// Checks a batch and demands the authorization of every distinct signer
    /// behind it over the payload `(nonce, calls)`. The calls may be made once
    /// this has returned `Ok`; their outcomes go to
    /// [`MultiSigContract::execute_batch`].
    pub fn authorize_batch(
        &self,
        env: &mut CallEnv,
        caller: Address,
        nonce: u64,
        calls: &Rc<Vec<BatchCall>>,
        approvers: &Vec<Address>,
    ) -> (r: Result<(), Error>)
        ensures
            r == self@.batch_outcome(caller, nonce, calls@.len(), approvers@),
            final(env)@ == self@.batch_auth(old(env)@, caller, nonce, *calls, approvers@),
    {
        self.require_not_locked()?;
        let signers = match &self.signers {
            Some(s) => s,
            None => return Err(Error::NotInitialized),
        };
        let threshold: u32 = match self.threshold {
            Some(t) => t,
            None => return Err(Error::NotInitialized),
        };
        if find_signer(signers, &caller).is_none() {
            return Err(Error::NotASigner);
        }
        if calls.len() == 0 || calls.len() > MAX_BATCH_CALLS as usize {
            return Err(Error::InvalidInput);
        }
        // A list longer than the maximum signer set can only hold duplicates or
        // non-signers.
        if approvers.len() > MAX_SIGNERS as usize {
            return Err(Error::InvalidInput);
        }
        // Replay protection: batch nonces must be strictly increasing.
        if nonce <= self.last_batch_nonce {
            return Err(Error::InvalidNonce);
        }
        let ghost start = env@;
        let mut seen: Vec<Address> = Vec::new();
        seen.push(caller);
        env.record(Effect::AuthorizeBatch { signer: caller, nonce, calls: calls.clone() });
        proof {
            assert(seen@ =~= seq![caller]);
            assert(seq![caller].drop_last() =~= Seq::<Address>::empty());
            reveal_with_fuel(authorize_all, 2);
            assert(env@ == authorize_all(start, seen@, nonce, *calls));
            assert(approvers@.take(0) =~= Seq::<Address>::empty());
        }
        let mut i: usize = 0;
        while i < approvers.len()
            invariant
                i <= approvers@.len() <= MAX_SIGNERS,
                self.signers is Some,
                self.signers->0 == *signers,
                self@.batch_check(caller, nonce, calls@.len(), approvers@.len()) is Ok,
                start == old(env)@,
                seen@ == backers(caller, approvers@.take(i as int)),
                signing_prefix(signers@, approvers@.take(i as int)) == approvers@.take(i as int),
                env@ == authorize_all(start, seen@, nonce, *calls),
            decreases approvers@.len() - i,
        {
            let approver = approvers[i];
            let ghost done = approvers@.take(i as int);
            let ghost next = approvers@.take(i + 1);
            proof {
                assert(next.drop_last() =~= done);
                assert(next.last() == approver);
            }
            if find_signer(signers, &approver).is_none() {
                proof {
                    lemma_prefix_stops(signers@, approvers@, i + 1);
                    assert(signing_prefix(signers@, approvers@) == done);
                    assert(!is_in(signers@, approvers@[i as int]));
                }
                return Err(Error::NotASigner);
            }
            if !contains_address(&seen, &approver) {
                let ghost before = seen@;
                seen.push(approver);
                env.record(Effect::AuthorizeBatch { signer: approver, nonce, calls: calls.clone() });
                proof {
                    assert(seen@.drop_last() =~= before);
                }
            }
            i = i + 1;
        }
        proof {
            assert(approvers@.take(i as int) =~= approvers@);
            lemma_prefix_whole(signers@, approvers@);
            lemma_backers_len(caller, approvers@);
        }
        if seen.len() < threshold as usize {
            return Err(Error::ThresholdNotMet);
        }
        Ok(())
    }

    /// What the outcome of one batch call means: the callee's own contract
    /// error where it exited with one, otherwise [`Error::BatchCallFailed`].
    pub fn execute_call(outcome: CallOutcome) -> (r: Result<(), Error>)
        ensures
            r == call_result(outcome),
    {
        match outcome {
            CallOutcome::Returned => Ok(()),
            CallOutcome::Undecodable => Err(Error::BatchCallFailed),
            CallOutcome::Failed(e) => Err(e),
            CallOutcome::Aborted => Err(Error::BatchCallFailed),
        }
    }

    /// Execute a batch of discrete contract calls under a single threshold
    /// verification.
    ///
    /// - `caller` must be a current signer. It authorizes the batch payload and
    ///   counts toward the threshold.
    /// - `nonce` must be strictly greater than the last used batch nonce, which
    ///   makes batches replay-proof; it is part of the authorized payload.
    /// - `calls` must be non-empty and within [`MAX_BATCH_CALLS`].
    /// - `approvers` lists any additional signers backing the batch. Every
    ///   listed approver must be a current signer and must authorize the exact
    ///   payload `(nonce, calls)`. Duplicate entries (the caller among them)
    ///   count once. Each signer carries weight 1, so the number of distinct
    ///   signers must meet the threshold.
    /// - `outcomes[i]` is how `calls[i]` ended; the calls are made in order, up
    ///   to the first failure.
    ///
    /// Execution is atomic: if any sub-call fails the whole batch is undone, the
    /// nonce too, and the failing call's own contract error is returned when
    /// known, otherwise [`Error::BatchCallFailed`].
    pub fn execute_batch(
        &mut self,
        env: &mut CallEnv,
        caller: Address,
        nonce: u64,
        calls: &Rc<Vec<BatchCall>>,
        approvers: &Vec<Address>,
        outcomes: &Vec<CallOutcome>,
    ) -> (r: Result<(), Error>)
        ensures
            ({
                let n = calls@.len();
                let allowed = old(self)@.batch_outcome(caller, nonce, n, approvers@);
                let authorized = old(self)@.batch_auth(
                    old(env)@,
                    caller,
                    nonce,
                    *calls,
                    approvers@,
                );
                let done = calls_ok(outcomes@, n);
                if allowed is Err {
                    &&& r == allowed
                    &&& *final(self) == *old(self)
                    &&& final(env)@ == authorized
                } else if done < n {
                    &&& r == nth_result(outcomes@, done as int)
                    &&& *final(self) == *old(self)
                    &&& final(env)@ == invoke_all(authorized, *calls, done + 1)
                } else {
                    &&& r is Ok
                    &&& final(self)@ == (MultiSigView { last_batch_nonce: nonce, ..old(self)@ })
                    &&& final(env)@ == invoke_all(authorized, *calls, n).emit(
                        Event::BatchExecuted { nonce, caller, calls: n as u32 },
                    )
                }
            }),
            old(self)@.wf() ==> final(self)@.wf(),
    {
        self.authorize_batch(env, caller, nonce, calls, approvers)?;
        let n: usize = calls.len();
        let ghost authorized = env@;
        let mut i: usize = 0;
        while i < n
            invariant
                i <= n,
                n == calls@.len(),
                n <= MAX_BATCH_CALLS,
                *self == *old(self),
                old(self)@.batch_outcome(caller, nonce, n as nat, approvers@) is Ok,
                authorized == old(self)@.batch_auth(
                    old(env)@,
                    caller,
                    nonce,
                    *calls,
                    approvers@,
                ),
                calls_ok(outcomes@, i as nat) == i,
                env@ == invoke_all(authorized, *calls, i as nat),
            decreases n - i,
        {
            env.record(Effect::Invoke { calls: calls.clone(), index: i });
            let outcome = if i < outcomes.len() {
                outcomes[i]
            } else {
                CallOutcome::Aborted
            };
            if let Err(e) = Self::execute_call(outcome) {
                proof {
                    lemma_calls_ok(outcomes@, i as nat, n as nat);
                }
                return Err(e);
            }
            i = i + 1;
        }
        self.last_batch_nonce = nonce;
        env.publish(Event::BatchExecuted { nonce, caller, calls: n as u32 });
        Ok(())
    }

    // --- views ---

    pub fn get_proposal(&self, proposal_id: u64) -> (r: Result<&MsProposal, Error>)
        ensures
            match r {
                Ok(p) => self@.proposals.contains_key(proposal_id) && *p
                    == self@.proposals[proposal_id],
                Err(e) => !self@.proposals.contains_key(proposal_id) && e == Error::NotFound,
            },
    {
        match self.proposals.get(&proposal_id) {
            Some(p) => Ok(p),
            None => Err(Error::NotFound),
        }
    }

    /// Last used batch nonce. The next `execute_batch` call must pass a strictly
    /// greater nonce.
    pub fn get_last_batch_nonce(&self) -> (r: u64)
        ensures
            r == self@.last_batch_nonce,
    {
        self.last_batch_nonce
    }

    /// The signer set; empty before initialization.
    pub fn get_signers(&self) -> (r: Vec<SignerWeight>)
        ensures
            r@ == (match self@.signers {
                Some(s) => s,
                None => Seq::empty(),
            }),
    {
        match &self.signers {
            Some(s) => {
                let r = s.clone();
                assert(r@ =~= s@);
                r
            },
            None => Vec::new(),
        }
    }

    pub fn get_threshold(&self) -> (r: Result<u32, Error>)
        ensures
            r == (match self@.threshold {
                Some(t) => Ok::<u32, Error>(t),
                None => Err(Error::NotInitialized),
            }),
    {
        match self.threshold {
            Some(t) => Ok(t),
            None => Err(Error::NotInitialized),
        }
    }

    pub fn get_pending_threshold(&self) -> (r: Result<PendingThresholdChange, Error>)
        ensures
            r == (match self@.pending_threshold {
                Some(p) => Ok::<PendingThresholdChange, Error>(p),
                None => Err(Error::NotFound),
            }),
    {
        match self.pending_threshold {
            Some(p) => Ok(p),
            None => Err(Error::NotFound),
        }
    }

    pub fn is_signer(&self, who: Address) -> (r: bool)
        ensures
            r == (self@.signers is Some && is_in(self@.signers->0, who)),
    {
        match &self.signers {
            Some(s) => find_signer(s, &who).is_some(),
            None => false,
        }
    }

    pub fn is_locked(&self) -> (r: bool)
        ensures
            r == self@.emergency_lock,
    {
        self.emergency_lock
    }

    /// Read a pending (or already executed or cancelled) governance change.
    pub fn get_pending_change(&self, proposal_id: u64) -> (r: Result<PendingChange, Error>)
        ensures
            r == (if self@.changes.contains_key(proposal_id) {
                Ok::<PendingChange, Error>(self@.changes[proposal_id])
            } else {
                Err(Error::NotFound)
            }),
    {
        match self.changes.get(&proposal_id) {
            Some(c) => Ok(*c),
            None => Err(Error::NotFound),
        }
    }

    /// The timelock delay currently applied to newly proposed governance
    /// changes, in seconds.
    pub fn get_timelock_delay(&self) -> (r: u64)
        ensures
            r == self@.timelock_delay,
    {
        self.timelock_delay
    }

    /// Number of governance changes ever proposed; ids run `1..=count`.
    pub fn get_change_count(&self) -> (r: u64)
        ensures
            r == self@.change_count,
    {
        self.change_count
    }
}

/// What each `propose_*` entry point does.
pub open spec fn proposes(
    before: MultiSigContract,
    after: MultiSigContract,
    e0: EnvView,
    e1: EnvView,
    caller: Address,
    change: GovernanceChange,
    r: Result<u64, Error>,
) -> bool {
    &&& r == before@.propose_change_outcome(e0.timestamp, caller, change)
    &&& r is Err ==> after == before
    &&& r is Ok ==> after@ == before@.with_parked(e0.timestamp, caller, change)
    &&& e1 == (if before@.emergency_lock {
        e0
    } else if r is Err {
        e0.auth(caller)
    } else {
        e0.auth(caller).emit(
            Event::ChangeProposed {
                id: r->Ok_0,
                caller,
                kind: kind_of(change),
                eta: (e0.timestamp + before@.timelock_delay) as u64,
            },
        )
    })
    &&& before@.wf() ==> after@.wf()
}

// --- laws ---

/// A governance change never takes effect before the shortest delay has passed
/// since it was proposed, nor once its grace period is over.
pub proof fn changes_wait_for_the_timelock(s: MultiSigView, now: u64, caller: Address, id: u64)
    requires
        s.wf(),
        s.execute_change_outcome(now, caller, id) is Ok,
    ensures
        now >= s.changes[id].proposed_at + MIN_TIMELOCK_DELAY,
        now < s.changes[id].proposed_at + MAX_TIMELOCK_DELAY + GOVERNANCE_GRACE_PERIOD,
{
}

/// Executing one change, a new timelock delay among them, leaves every other
/// pending change as it was: its `eta` is fixed when it is proposed.
pub proof fn executing_a_change_moves_no_other(s: MultiSigView, id: u64, other: u64)
    requires
        s.changes.contains_key(other),
        other != id,
    ensures
        s.with_executed(id).changes.contains_key(other),
        s.with_executed(id).changes[other] == s.changes[other],
{
}

/// A change that was executed can be neither executed again nor cancelled.
pub proof fn executed_change_is_final(
    s: MultiSigView,
    id: u64,
    now: u64,
    caller: Address,
)
    requires
        s.changes.contains_key(id),
    ensures
        s.with_executed(id).execute_change_outcome(now, caller, id) is Err,
        s.with_executed(id).cancel_change_outcome(caller, id) is Err,
{
}

/// A change that was cancelled can be neither executed nor cancelled again.
pub proof fn cancelled_change_is_final(
    s: MultiSigView,
    id: u64,
    now: u64,
    caller: Address,
)
    requires
        s.changes.contains_key(id),
    ensures
        s.with_cancelled(id).execute_change_outcome(now, caller, id) is Err,
        s.with_cancelled(id).cancel_change_outcome(caller, id) is Err,
{
}

/// Any signer can veto any change that is still open, whether or not the
/// emergency lock is engaged.
pub proof fn any_signer_can_veto(s: MultiSigView, caller: Address, id: u64)
    requires
        s.signers is Some,
        is_in(s.signers->0, caller),
        s.changes.contains_key(id),
        !s.changes[id].executed,
        !s.changes[id].cancelled,
    ensures
        s.cancel_change_outcome(caller, id) is Ok,
{
}

/// While the emergency lock is engaged nothing is proposed, approved or
/// executed.
pub proof fn lock_stops_everything(
    s: MultiSigView,
    now: u64,
    caller: Address,
    id: u64,
    change: GovernanceChange,
    nonce: u64,
    calls: nat,
    approvers: Seq<Address>,
)
    requires
        s.emergency_lock,
    ensures
        s.propose_outcome(caller) == Err::<u64, Error>(Error::EmergencyLock),
        s.approve_outcome(caller, id) == Err::<u32, Error>(Error::EmergencyLock),
        s.execute_outcome(now, caller, id) == Err::<(), Error>(Error::EmergencyLock),
        s.batch_outcome(caller, nonce, calls, approvers) == Err::<(), Error>(Error::EmergencyLock),
        s.propose_change_outcome(now, caller, change) == Err::<u64, Error>(Error::EmergencyLock),
        s.execute_change_outcome(now, caller, id) == Err::<(), Error>(Error::EmergencyLock),
{
}

/// A signer's weight counts at most once toward a proposal.
pub proof fn no_double_approval(s: MultiSigView, caller: Address, id: u64)
    requires
        s.approve_outcome(caller, id) is Ok,
    ensures
        s.with_approval(caller, id).approve_outcome(caller, id) == Err::<u32, Error>(
            Error::AlreadySigned,
        ),
{
}

/// A proposal executes only with approvals that weigh at least the threshold,
/// and only once.
pub proof fn execution_needs_the_threshold(s: MultiSigView, now: u64, caller: Address, id: u64)
    requires
        s.execute_outcome(now, caller, id) is Ok,
    ensures
        s.proposals[id].approval_weight >= s.threshold->0,
        s.with_proposal_executed(id).execute_outcome(now, caller, id) == Err::<(), Error>(
            Error::InvalidProposalState,
        ),
{
}

/// Once a batch has run, no batch with the same or a smaller nonce runs.
pub proof fn batches_cannot_be_replayed(
    s: MultiSigView,
    nonce: u64,
    caller: Address,
    other: u64,
    calls: nat,
    approvers: Seq<Address>,
)
    requires
        other <= nonce,
    ensures
        (MultiSigView { last_batch_nonce: nonce, ..s }).batch_outcome(
            caller,
            other,
            calls,
            approvers,
        ) is Err,
{
}

/// A batch that may run is backed by at least a threshold of distinct signers.
pub proof fn batch_backers_are_distinct_signers(
    s: MultiSigView,
    caller: Address,
    nonce: u64,
    calls: nat,
    approvers: Seq<Address>,
)
    requires
        s.batch_outcome(caller, nonce, calls, approvers) is Ok,
    ensures
        backers(caller, approvers).len() >= s.threshold->0,
        backers(caller, approvers).no_duplicates(),
        forall|i: int|
            0 <= i < backers(caller, approvers).len() ==> is_in(
                s.signers->0,
                #[trigger] backers(caller, approvers)[i],
            ),
{
    lemma_backers(s.signers->0, caller, approvers);
}

proof fn lemma_backers(signers: Seq<SignerWeight>, caller: Address, approvers: Seq<Address>)
    requires
        is_in(signers, caller),
        forall|i: int| 0 <= i < approvers.len() ==> is_in(signers, #[trigger] approvers[i]),
    ensures
        backers(caller, approvers).no_duplicates(),
        forall|i: int|
            0 <= i < backers(caller, approvers).len() ==> is_in(
                signers,
                #[trigger] backers(caller, approvers)[i],
            ),
    decreases approvers.len(),
{
    if approvers.len() > 0 {
        let front = approvers.drop_last();
        assert forall|i: int| 0 <= i < front.len() implies is_in(signers, #[trigger] front[i]) by {
            assert(is_in(signers, approvers[i]));
        }
        lemma_backers(signers, caller, front);
        assert(is_in(signers, approvers[approvers.len() - 1]));
    }
}

/// The total of a signer set is the sum of the weights of its signers.
pub proof fn total_is_the_sum_of_the_weights(signers: Seq<SignerWeight>)
    ensures
        weight_sum(signers) == signers.fold_left(0int, |total: int, s: SignerWeight| total + s.weight),
    decreases signers.len(),
{
    if signers.len() > 0 {
        total_is_the_sum_of_the_weights(signers.drop_last());
    }
}

/// Where an address stands in a signer set, its position and weight are found.
proof fn lemma_at(s: MultiSigView, who: Address, i: int)
    requires
        s.wf(),
        s.signers is Some,
        0 <= i < s.signers->0.len(),
        s.signers->0[i].address == who,
    ensures
        is_in(s.signers->0, who),
        position(s.signers->0, who) == i,
        s.weight_of(who) == s.signers->0[i].weight,
{
    let signers = s.signers->0;
    lemma_position(signers, who);
    let p = position(signers, who);
    if p < i {
        assert(signers[p].address != signers[i].address);
    } else if i < p {
        assert(signers[i].address != signers[p].address);
    }
}

/// Whoever is not in the signer set can do nothing.
pub proof fn outsiders_can_do_nothing(
    s: MultiSigView,
    now: u64,
    sequence: u32,
    outsider: Address,
    id: u64,
    change: GovernanceChange,
    signer: Address,
    number: u32,
    nonce: u64,
    calls: nat,
    approvers: Seq<Address>,
)
    requires
        s.signers is Some ==> forall|i: int|
            0 <= i < s.signers->0.len() ==> (#[trigger] s.signers->0[i]).address != outsider,
    ensures
        s.propose_outcome(outsider) is Err,
        s.approve_outcome(outsider, id) is Err,
        s.execute_outcome(now, outsider, id) is Err,
        s.batch_outcome(outsider, nonce, calls, approvers) is Err,
        s.propose_change_outcome(now, outsider, change) is Err,
        s.execute_change_outcome(now, outsider, id) is Err,
        s.cancel_change_outcome(outsider, id) is Err,
        s.add_signer_outcome(outsider, signer, number) is Err,
        s.remove_signer_outcome(outsider, signer) is Err,
        s.set_threshold_outcome(outsider, number) is Err,
        s.finalize_threshold_outcome(sequence, outsider) is Err,
        s.gate(outsider, Error::NotASigner) is Err,
{
    if s.signers is Some {
        assert(!is_in(s.signers->0, outsider));
    }
}

/// A signer can propose while the multisig is not locked. The proposal is open,
/// carries what was proposed, and counts the proposer's own weight and nobody
/// else's.
pub proof fn proposing_counts_the_proposer(
    s: MultiSigView,
    proposer: Address,
    i: int,
    action: String,
    payload: Vec<u8>,
    unlock_at: u64,
    other: (u64, Address),
)
    requires
        s.wf(),
        s.signers is Some,
        s.proposal_count is Some,
        0 <= i < s.signers->0.len(),
        s.signers->0[i].address == proposer,
    ensures
        s.propose_outcome(proposer) is Ok <==> !s.emergency_lock && s.proposal_count->0 < u64::MAX,
        s.propose_outcome(proposer) is Ok ==> {
            let id = s.propose_outcome(proposer)->Ok_0;
            let t = s.with_proposal(proposer, action, payload, unlock_at);
            let p = t.proposals[id];
            &&& id == s.proposal_count->0 + 1
            &&& t.proposal_count == Some(id)
            &&& t.proposals.contains_key(id)
            &&& p.approval_weight == s.signers->0[i].weight
            &&& p.proposer == proposer && p.action == action && p.payload == payload
            &&& p.unlock_at == unlock_at && !p.executed
            &&& t.approvals.contains_key((id, proposer))
            &&& other != (id, proposer) ==> (t.approvals.contains_key(other)
                <==> s.approvals.contains_key(other))
            &&& other.0 != id ==> (t.proposals.contains_key(other.0)
                <==> s.proposals.contains_key(other.0)) && t.proposals[other.0]
                == s.proposals[other.0]
            &&& t.signers == s.signers && t.threshold == s.threshold
            &&& t.emergency_lock == s.emergency_lock && t.changes == s.changes
        },
{
    lemma_at(s, proposer, i);
}

/// A signer that has not approved yet can approve any open proposal; that adds
/// exactly the signer's weight, to that proposal alone.
pub proof fn approving_adds_the_approvers_weight(
    s: MultiSigView,
    caller: Address,
    i: int,
    id: u64,
    other: (u64, Address),
)
    requires
        s.wf(),
        s.signers is Some,
        0 <= i < s.signers->0.len(),
        s.signers->0[i].address == caller,
    ensures
        s.approve_outcome(caller, id) is Ok <==> {
            &&& !s.emergency_lock
            &&& s.proposals.contains_key(id)
            &&& !s.proposals[id].executed
            &&& !s.approvals.contains_key((id, caller))
            &&& s.proposals[id].approval_weight + s.signers->0[i].weight <= u32::MAX
        },
        s.approve_outcome(caller, id) is Ok ==> {
            let t = s.with_approval(caller, id);
            let p = s.proposals[id];
            &&& s.approve_outcome(caller, id)->Ok_0 == p.approval_weight + s.signers->0[i].weight
            &&& t.proposals.contains_key(id)
            &&& t.proposals[id].approval_weight == p.approval_weight + s.signers->0[i].weight
            &&& t.proposals[id].proposer == p.proposer && t.proposals[id].action == p.action
            &&& t.proposals[id].payload == p.payload && t.proposals[id].unlock_at == p.unlock_at
            &&& !t.proposals[id].executed
            &&& t.approvals.contains_key((id, caller))
            &&& other != (id, caller) ==> (t.approvals.contains_key(other)
                <==> s.approvals.contains_key(other))
            &&& other.0 != id ==> (t.proposals.contains_key(other.0)
                <==> s.proposals.contains_key(other.0)) && t.proposals[other.0]
                == s.proposals[other.0]
            &&& t.signers == s.signers && t.threshold == s.threshold
            &&& t.emergency_lock == s.emergency_lock && t.changes == s.changes
        },
{
    lemma_at(s, caller, i);
}

/// Any signer can execute a proposal as soon as its weight reaches the threshold
/// and its time lock has passed, and not before; that marks it and nothing else.
pub proof fn execution_is_due_at_the_threshold(
    s: MultiSigView,
    now: u64,
    caller: Address,
    i: int,
    id: u64,
    other: u64,
)
    requires
        s.wf(),
        s.signers is Some,
        0 <= i < s.signers->0.len(),
        s.signers->0[i].address == caller,
    ensures
        s.execute_outcome(now, caller, id) is Ok <==> {
            &&& !s.emergency_lock
            &&& s.proposals.contains_key(id)
            &&& !s.proposals[id].executed
            &&& s.proposals[id].approval_weight >= s.threshold->0
            &&& now >= s.proposals[id].unlock_at
        },
        s.execute_outcome(now, caller, id) is Ok ==> {
            let t = s.with_proposal_executed(id);
            let p = s.proposals[id];
            &&& t.proposals.contains_key(id)
            &&& t.proposals[id].executed
            &&& t.proposals[id].approval_weight == p.approval_weight
            &&& t.proposals[id].proposer == p.proposer && t.proposals[id].action == p.action
            &&& t.proposals[id].payload == p.payload && t.proposals[id].unlock_at == p.unlock_at
            &&& other != id ==> (t.proposals.contains_key(other) <==> s.proposals.contains_key(
                other,
            )) && t.proposals[other] == s.proposals[other]
            &&& t.approvals == s.approvals && t.signers == s.signers && t.threshold == s.threshold
            &&& t.emergency_lock == s.emergency_lock && t.changes == s.changes
        },
{
    lemma_at(s, caller, i);
}

/// A vote: the proposal, the signer, and the weight it had when it voted.
pub struct Vote {
    pub proposal: u64,
    pub signer: Address,
    pub weight: u32,
}

/// The weight of the votes for a proposal.
pub open spec fn tally(votes: Seq<Vote>, id: u64) -> int {
    votes.filter(|v: Vote| v.proposal == id).fold_left(0int, |sum: int, v: Vote| sum + v.weight)
}

/// The votes account for a state: every proposal weighs what was voted for it,
/// and its approvals are exactly those of the signers that voted, each once.
pub open spec fn accounts_for(votes: Seq<Vote>, s: MultiSigView) -> bool {
    &&& forall|id: u64| #[trigger]
        s.proposals.contains_key(id) ==> s.proposals[id].approval_weight == tally(votes, id)
            && s.proposal_count is Some && id <= s.proposal_count->0
    &&& forall|k: (u64, Address)| #[trigger]
        s.approvals.contains_key(k) <==> exists|j: int|
            0 <= j < votes.len() && (#[trigger] votes[j]).proposal == k.0 && votes[j].signer == k.1
    &&& forall|j: int, k: int|
        0 <= j < k < votes.len() ==> !((#[trigger] votes[j]).proposal == (#[trigger] votes[k]).proposal
            && votes[j].signer == votes[k].signer)
    &&& forall|j: int|
        0 <= j < votes.len() ==> s.proposal_count is Some && (#[trigger] votes[j]).proposal
            <= s.proposal_count->0
}

proof fn lemma_tally_push(votes: Seq<Vote>, v: Vote, id: u64)
    ensures
        tally(votes.push(v), id) == tally(votes, id) + (if v.proposal == id {
            v.weight as int
        } else {
            0
        }),
{
    let p = |v: Vote| v.proposal == id;
    let all = votes.push(v);
    reveal(Seq::filter);
    assert(all.drop_last() =~= votes);
    assert(all.last() == v);
    let f = |sum: int, v: Vote| sum + v.weight;
    if v.proposal == id {
        assert(all.filter(p) == votes.filter(p).push(v));
        assert(votes.filter(p).push(v).drop_last() =~= votes.filter(p));
    } else {
        assert(all.filter(p) == votes.filter(p));
    }
}

proof fn lemma_no_votes(votes: Seq<Vote>, id: u64)
    requires
        forall|j: int| 0 <= j < votes.len() ==> (#[trigger] votes[j]).proposal != id,
    ensures
        tally(votes, id) == 0,
    decreases votes.len(),
{
    if votes.len() > 0 {
        let front = votes.drop_last();
        assert forall|j: int| 0 <= j < front.len() implies (#[trigger] front[j]).proposal != id by {
            assert(votes[j].proposal != id);
        }
        lemma_no_votes(front, id);
        lemma_tally_push(front, votes.last(), id);
        assert(front.push(votes.last()) =~= votes);
    } else {
        reveal(Seq::filter);
    }
}

/// In every state a proposal's weight is the sum of the weights that the signers
/// recorded for it had when they approved, the proposer among them: the votes
/// account for the empty state, and every step that proposes, approves or
/// executes keeps them accounting for it, with the one vote that it casts.
pub proof fn weight_is_what_the_approvers_weighed(
    s: MultiSigView,
    votes: Seq<Vote>,
    now: u64,
    caller: Address,
    i: int,
    id: u64,
    action: String,
    payload: Vec<u8>,
    unlock_at: u64,
)
    requires
        s.wf(),
        accounts_for(votes, s),
        s.signers is Some,
        0 <= i < s.signers->0.len(),
        s.signers->0[i].address == caller,
    ensures
        s.propose_outcome(caller) is Ok ==> accounts_for(
            votes.push(
                Vote {
                    proposal: s.propose_outcome(caller)->Ok_0,
                    signer: caller,
                    weight: s.signers->0[i].weight,
                },
            ),
            s.with_proposal(caller, action, payload, unlock_at),
        ),
        s.approve_outcome(caller, id) is Ok ==> accounts_for(
            votes.push(Vote { proposal: id, signer: caller, weight: s.signers->0[i].weight }),
            s.with_approval(caller, id),
        ),
        s.execute_outcome(now, caller, id) is Ok ==> accounts_for(
            votes,
            s.with_proposal_executed(id),
        ),
{
    lemma_at(s, caller, i);
    let w = s.signers->0[i].weight;
    if s.propose_outcome(caller) is Ok {
        let n = s.propose_outcome(caller)->Ok_0;
        let v = Vote { proposal: n, signer: caller, weight: w };
        lemma_no_votes(votes, n);
        lemma_vote(s, s.with_proposal(caller, action, payload, unlock_at), votes, v);
    }
    if s.approve_outcome(caller, id) is Ok {
        let v = Vote { proposal: id, signer: caller, weight: w };
        lemma_vote(s, s.with_approval(caller, id), votes, v);
    }
}

/// Before the first proposal nothing was voted, and a step that touches neither
/// proposals nor approvals casts no vote.
pub proof fn other_steps_cast_no_vote(s: MultiSigView, t: MultiSigView, votes: Seq<Vote>)
    ensures
        s.proposals == Map::<u64, MsProposal>::empty() && s.approvals == Map::<
            (u64, Address),
            (),
        >::empty() ==> accounts_for(Seq::empty(), s),
        accounts_for(votes, s) && t.proposals == s.proposals && t.approvals == s.approvals
            && t.proposal_count == s.proposal_count ==> accounts_for(votes, t),
{
}

/// A multisig that works has some signers but no more than twenty, none of them
/// twice and each with a weight, and a threshold that they reach together.
pub proof fn working_multisig_is_reachable(s: MultiSigView, i: int, j: int)
    requires
        s.wf(),
        s.signers is Some,
        0 <= i < j < s.signers->0.len(),
    ensures
        s.signers->0.len() <= 20,
        s.signers->0[i].address != s.signers->0[j].address,
        s.signers->0[i].weight > 0 && s.signers->0[j].weight > 0,
        1 <= s.threshold->0 <= s.signers->0.fold_left(
            0int,
            |total: int, s: SignerWeight| total + s.weight,
        ),
{
    total_is_the_sum_of_the_weights(s.signers->0);
}

proof fn lemma_vote(s: MultiSigView, t: MultiSigView, votes: Seq<Vote>, v: Vote)
    requires
        accounts_for(votes, s),
        !s.approvals.contains_key((v.proposal, v.signer)) || v.proposal > s.proposal_count->0,
        t.approvals == s.approvals.insert((v.proposal, v.signer), ()),
        t.proposal_count is Some,
        s.proposal_count is Some ==> s.proposal_count->0 <= t.proposal_count->0,
        v.proposal <= t.proposal_count->0,
        t.proposals == s.proposals.insert(v.proposal, t.proposals[v.proposal]),
        t.proposals[v.proposal].approval_weight == tally(votes, v.proposal) + v.weight,
    ensures
        accounts_for(votes.push(v), t),
{
    let all = votes.push(v);
    assert forall|id: u64| #[trigger] t.proposals.contains_key(id) implies
        t.proposals[id].approval_weight == tally(all, id) && id <= t.proposal_count->0 by {
        lemma_tally_push(votes, v, id);
        if id != v.proposal {
            assert(s.proposals.contains_key(id));
        }
    }
    assert forall|k: (u64, Address)| #[trigger] t.approvals.contains_key(k) <==> exists|j: int|
        0 <= j < all.len() && (#[trigger] all[j]).proposal == k.0 && all[j].signer == k.1 by {
        if s.approvals.contains_key(k) {
            let j = choose|j: int|
                0 <= j < votes.len() && (#[trigger] votes[j]).proposal == k.0 && votes[j].signer
                    == k.1;
            assert(all[j] == votes[j]);
        }
        if k == (v.proposal, v.signer) {
            assert(all[votes.len() as int] == v);
        }
        if exists|j: int|
            0 <= j < all.len() && (#[trigger] all[j]).proposal == k.0 && all[j].signer == k.1 {
            let j = choose|j: int|
                0 <= j < all.len() && (#[trigger] all[j]).proposal == k.0 && all[j].signer == k.1;
            if j < votes.len() {
                assert(votes[j] == all[j]);
                assert(s.approvals.contains_key(k));
            } else {
                assert(k == (v.proposal, v.signer));
            }
        }
    }
    assert forall|j: int, k: int| 0 <= j < k < all.len() implies !((#[trigger] all[j]).proposal == (
    #[trigger] all[k]).proposal && all[j].signer == all[k].signer) by {
        assert(all[j] == votes[j]);
        if k < votes.len() {
            assert(all[k] == votes[k]);
        } else if votes[j].proposal == v.proposal && votes[j].signer == v.signer {
            assert(s.approvals.contains_key((v.proposal, v.signer)));
        }
    }
    assert forall|j: int| 0 <= j < all.len() implies (#[trigger] all[j]).proposal
        <= t.proposal_count->0 by {
        if j < votes.len() {
            assert(all[j] == votes[j]);
        }
    }
}

/// A batch may run exactly where its nonce is new, the lists are within their
/// bounds, the caller and all approvers are signers, and the different signers
/// among them are at least as many as the threshold.
pub proof fn batch_needs_as_many_signers_as_the_threshold(
    s: MultiSigView,
    caller: Address,
    nonce: u64,
    calls: nat,
    approvers: Seq<Address>,
)
    requires
        s.wf(),
        s.signers is Some,
    ensures
        s.batch_outcome(caller, nonce, calls, approvers) is Ok <==> {
            &&& !s.emergency_lock
            &&& s.last_batch_nonce < nonce
            &&& 0 < calls <= MAX_BATCH_CALLS
            &&& approvers.len() <= MAX_SIGNERS
            &&& exists|j: int|
                0 <= j < s.signers->0.len() && (#[trigger] s.signers->0[j]).address == caller
            &&& forall|k: int|
                0 <= k < approvers.len() ==> exists|j: int|
                    0 <= j < s.signers->0.len() && (#[trigger] s.signers->0[j]).address
                        == #[trigger] approvers[k]
            &&& approvers.to_set().insert(caller).len() >= s.threshold->0
        },
{
    lemma_backers_set(caller, approvers);
    let b = backers(caller, approvers);
    b.unique_seq_to_set();
    assert(b.to_set() =~= approvers.to_set().insert(caller));
    assert forall|k: int| 0 <= k < approvers.len() implies (is_in(s.signers->0, #[trigger] approvers[k])
        <==> exists|j: int|
        0 <= j < s.signers->0.len() && (#[trigger] s.signers->0[j]).address == approvers[k]) by {
    }
}

proof fn lemma_backers_set(caller: Address, approvers: Seq<Address>)
    ensures
        backers(caller, approvers).no_duplicates(),
        forall|a: Address| #[trigger]
            backers(caller, approvers).contains(a) <==> a == caller || approvers.contains(a),
    decreases approvers.len(),
{
    let b = backers(caller, approvers);
    if approvers.len() > 0 {
        let front = approvers.drop_last();
        let last = approvers.last();
        let earlier = backers(caller, front);
        lemma_backers_set(caller, front);
        assert forall|a: Address| #[trigger] b.contains(a) <==> a == caller || approvers.contains(
            a,
        ) by {
            if b.contains(a) && !earlier.contains(a) {
                assert(a == last);
                assert(approvers[approvers.len() - 1] == a);
            }
            if earlier.contains(a) {
                let j = choose|j: int| 0 <= j < earlier.len() && earlier[j] == a;
                assert(b[j] == a);
                if a != caller {
                    let k = choose|k: int| 0 <= k < front.len() && front[k] == a;
                    assert(approvers[k] == a);
                }
            }
            if approvers.contains(a) {
                let k = choose|k: int| 0 <= k < approvers.len() && approvers[k] == a;
                if k < front.len() {
                    assert(front[k] == a);
                } else if !earlier.contains(a) {
                    assert(b[b.len() - 1] == a);
                }
            }
        }
        assert forall|i: int, j: int| 0 <= i < b.len() && 0 <= j < b.len() && i != j implies b[i]
            != b[j] by {
            if i < earlier.len() && j < earlier.len() {
                assert(earlier[i] != earlier[j]);
            } else if i < earlier.len() {
                assert(earlier.contains(earlier[i]));
            } else if j < earlier.len() {
                assert(earlier.contains(earlier[j]));
            }
        }
    } else {
        assert(b[0] == caller);
    }
}

/// Before a batch makes its calls, the caller and every approver have had to
/// authorize exactly its nonce and its calls, and nothing else was asked for.
pub proof fn every_backer_authorizes_the_batch(
    s: MultiSigView,
    e: EnvView,
    caller: Address,
    nonce: u64,
    calls: Rc<Vec<BatchCall>>,
    approvers: Seq<Address>,
    backer: Address,
)
    requires
        s.batch_outcome(caller, nonce, calls@.len(), approvers) is Ok,
    ensures
        ({
            let log = s.batch_auth(e, caller, nonce, calls, approvers).log;
            &&& log.take(e.log.len() as int) == e.log
            &&& (backer == caller || approvers.contains(backer)) <==> exists|j: int|
                e.log.len() <= j < log.len() && #[trigger] log[j] == (Effect::AuthorizeBatch {
                    signer: backer,
                    nonce,
                    calls,
                })
            &&& forall|j: int|
                e.log.len() <= j < log.len() ==> (#[trigger] log[j]) is AuthorizeBatch
        }),
{
    lemma_prefix_whole(s.signers->0, approvers);
    lemma_backers_set(caller, approvers);
    let who = backers(caller, approvers);
    lemma_authorize_all(e, who, nonce, calls);
    let log = authorize_all(e, who, nonce, calls).log;
    assert(log.take(e.log.len() as int) =~= e.log);
    if who.contains(backer) {
        let k = choose|k: int| 0 <= k < who.len() && who[k] == backer;
        assert(log[e.log.len() + k] == (Effect::AuthorizeBatch { signer: who[k], nonce, calls }));
    }
    if exists|j: int|
        e.log.len() <= j < log.len() && #[trigger] log[j] == (Effect::AuthorizeBatch {
            signer: backer,
            nonce,
            calls,
        }) {
        let j = choose|j: int|
            e.log.len() <= j < log.len() && #[trigger] log[j] == (Effect::AuthorizeBatch {
                signer: backer,
                nonce,
                calls,
            });
        let k = j - e.log.len();
        assert(log[e.log.len() + k] == (Effect::AuthorizeBatch { signer: who[k], nonce, calls }));
        assert(who[k] == backer);
    }
    assert forall|j: int| e.log.len() <= j < log.len() implies (#[trigger] log[j]) is AuthorizeBatch by {
        let k = j - e.log.len();
        assert(log[e.log.len() + k] is AuthorizeBatch);
    }
}

proof fn lemma_authorize_all(
    e: EnvView,
    who: Seq<Address>,
    nonce: u64,
    calls: Rc<Vec<BatchCall>>,
)
    ensures
        ({
            let log = authorize_all(e, who, nonce, calls).log;
            &&& log.len() == e.log.len() + who.len()
            &&& forall|j: int| 0 <= j < e.log.len() ==> #[trigger] log[j] == e.log[j]
            &&& forall|k: int|
                0 <= k < who.len() ==> #[trigger] log[e.log.len() + k] == (Effect::AuthorizeBatch {
                    signer: who[k],
                    nonce,
                    calls,
                })
        }),
    decreases who.len(),
{
    if who.len() > 0 {
        lemma_authorize_all(e, who.drop_last(), nonce, calls);
    }
}

/// A batch makes its calls in order, each once, and succeeds exactly where every
/// one of them returned. The first that did not decides: its own contract error
/// where it exited with one, otherwise `BatchCallFailed`.
pub proof fn batch_succeeds_where_every_call_returns(
    e: EnvView,
    calls: Rc<Vec<BatchCall>>,
    outcomes: Seq<CallOutcome>,
    n: nat,
)
    requires
        n <= MAX_BATCH_CALLS,
    ensures
        calls_ok(outcomes, n) <= n,
        calls_ok(outcomes, n) == n <==> outcomes.len() >= n && forall|j: int|
            0 <= j < n ==> #[trigger] outcomes[j] == CallOutcome::Returned,
        calls_ok(outcomes, n) < n ==> {
            let k = calls_ok(outcomes, n) as int;
            &&& forall|j: int|
                0 <= j < k ==> j < outcomes.len() && #[trigger] outcomes[j] == CallOutcome::Returned
            &&& k < outcomes.len() ==> outcomes[k] != CallOutcome::Returned
            &&& nth_result(outcomes, k) == Err::<(), Error>(
                if k < outcomes.len() && outcomes[k] is Failed {
                    outcomes[k]->Failed_0
                } else {
                    Error::BatchCallFailed
                },
            )
        },
        ({
            let log = invoke_all(e, calls, n).log;
            &&& log.len() == e.log.len() + n
            &&& forall|j: int| 0 <= j < e.log.len() ==> #[trigger] log[j] == e.log[j]
            &&& forall|k: int|
                0 <= k < n ==> #[trigger] log[e.log.len() + k] == (Effect::Invoke {
                    calls,
                    index: k as usize,
                })
        }),
    decreases n,
{
    if n > 0 {
        batch_succeeds_where_every_call_returns(e, calls, outcomes, (n - 1) as nat);
    }
}

/// What a governance change asks of the state that it is applied to, and what it
/// does there: it changes what it names and nothing else.
pub proof fn changes_do_what_they_name(
    s: MultiSigView,
    change: GovernanceChange,
    who: Address,
    i: int,
)
    requires
        s.wf(),
        s.signers is Some,
        weight_sum(s.signers->0) <= u32::MAX,
        0 <= i < s.signers->0.len(),
        s.signers->0[i].address == who,
    ensures
        ({
            let signers = s.signers->0;
            let total = weight_sum(signers);
            let t = s.applied(change);
            let ok = s.change_check(change) is Ok;
            &&& t.proposals == s.proposals && t.approvals == s.approvals && t.changes == s.changes
            &&& t.emergency_lock == s.emergency_lock && t.last_batch_nonce == s.last_batch_nonce
            &&& t.proposal_count == s.proposal_count && t.change_count == s.change_count
            &&& t.pending_threshold == s.pending_threshold
            &&& match change {
                GovernanceChange::Threshold(value) => {
                    &&& ok <==> 1 <= value <= total
                    &&& t.threshold == Some(value)
                    &&& t.signers == s.signers && t.timelock_delay == s.timelock_delay
                },
                GovernanceChange::SignerWeight(signer, weight) => signer == who ==> {
                    &&& ok <==> weight > 0 && s.threshold->0 <= total - signers[i].weight + weight
                        <= u32::MAX
                    &&& t.signers == Some(signers.update(i, SignerWeight { address: who, weight }))
                    &&& t.threshold == s.threshold && t.timelock_delay == s.timelock_delay
                },
                GovernanceChange::AddSigner(signer, weight) => {
                    &&& signer == who ==> !ok
                    &&& (forall|j: int|
                        0 <= j < signers.len() ==> (#[trigger] signers[j]).address != signer) ==> (ok
                        <==> weight > 0 && signers.len() < MAX_SIGNERS && total + weight
                        <= u32::MAX)
                    &&& t.signers == Some(signers.push(SignerWeight { address: signer, weight }))
                    &&& t.threshold == s.threshold && t.timelock_delay == s.timelock_delay
                },
                GovernanceChange::RemoveSigner(signer) => signer == who ==> {
                    &&& ok <==> total - signers[i].weight >= s.threshold->0
                    &&& t.signers == Some(signers.remove(i))
                    &&& t.threshold == s.threshold && t.timelock_delay == s.timelock_delay
                },
                GovernanceChange::TimelockDelay(delay) => {
                    &&& ok <==> MIN_TIMELOCK_DELAY <= delay <= MAX_TIMELOCK_DELAY
                    &&& t.timelock_delay == delay
                    &&& t.signers == s.signers && t.threshold == s.threshold
                },
            }
        }),
{
    lemma_at(s, who, i);
}

/// A signer can park any valid change, which matures after the delay in force
/// and expires a grace period later.
pub proof fn changes_are_parked_for_the_delay(
    s: MultiSigView,
    now: u64,
    caller: Address,
    i: int,
    change: GovernanceChange,
    other: u64,
)
    requires
        s.wf(),
        s.signers is Some,
        0 <= i < s.signers->0.len(),
        s.signers->0[i].address == caller,
    ensures
        s.propose_change_outcome(now, caller, change) is Ok <==> {
            &&& !s.emergency_lock
            &&& s.change_check(change) is Ok
            &&& s.change_count < u64::MAX
            &&& now + s.timelock_delay + GOVERNANCE_GRACE_PERIOD <= u64::MAX
        },
        s.propose_change_outcome(now, caller, change) is Ok ==> {
            let id = s.propose_change_outcome(now, caller, change)->Ok_0;
            let t = s.with_parked(now, caller, change);
            let c = t.changes[id];
            &&& id == s.change_count + 1 == t.change_count
            &&& t.changes.contains_key(id)
            &&& c.proposer == caller && c.change == change && c.proposed_at == now
            &&& c.eta == now + s.timelock_delay
            &&& c.expires_at == c.eta + GOVERNANCE_GRACE_PERIOD
            &&& !c.executed && !c.cancelled
            &&& other != id ==> (t.changes.contains_key(other) <==> s.changes.contains_key(other))
                && t.changes[other] == s.changes[other]
            &&& t.signers == s.signers && t.threshold == s.threshold
            &&& t.timelock_delay == s.timelock_delay && t.proposals == s.proposals
        },
{
    lemma_at(s, caller, i);
}

/// A signer can execute an open change exactly from its `eta` on until it
/// expires, where it is still valid; then it is applied and marked.
pub proof fn matured_changes_can_be_executed(
    s: MultiSigView,
    now: u64,
    caller: Address,
    i: int,
    id: u64,
)
    requires
        s.wf(),
        s.signers is Some,
        0 <= i < s.signers->0.len(),
        s.signers->0[i].address == caller,
    ensures
        s.execute_change_outcome(now, caller, id) is Ok <==> {
            &&& !s.emergency_lock
            &&& s.changes.contains_key(id)
            &&& !s.changes[id].executed && !s.changes[id].cancelled
            &&& s.changes[id].eta <= now < s.changes[id].expires_at
            &&& s.change_check(s.changes[id].change) is Ok
        },
        s.execute_change_outcome(now, caller, id) is Ok ==> {
            let t = s.with_executed(id);
            let applied = s.applied(s.changes[id].change);
            &&& t.signers == applied.signers && t.threshold == applied.threshold
            &&& t.timelock_delay == applied.timelock_delay
            &&& t.changes[id].executed && !t.changes[id].cancelled
            &&& t.changes[id].change == s.changes[id].change
            &&& t.changes[id].eta == s.changes[id].eta
            &&& t.proposals == s.proposals && t.approvals == s.approvals
            &&& t.emergency_lock == s.emergency_lock
        },
        s.cancel_change_outcome(caller, id) is Ok <==> {
            &&& s.changes.contains_key(id)
            &&& !s.changes[id].executed && !s.changes[id].cancelled
        },
        s.cancel_change_outcome(caller, id) is Ok ==> {
            let t = s.with_cancelled(id);
            &&& t.changes[id].cancelled && !t.changes[id].executed
            &&& t.signers == s.signers && t.threshold == s.threshold
            &&& t.timelock_delay == s.timelock_delay
        },
{
    lemma_at(s, caller, i);
}

/// What a signer may change directly: the signer set within its bounds, as long
/// as the threshold stays reachable, and the threshold itself, to a reachable
/// value, after its delay in ledgers.
pub proof fn direct_changes_stay_reachable(
    s: MultiSigView,
    sequence: u32,
    caller: Address,
    i: int,
    signer: Address,
    k: int,
    weight: u32,
    threshold: u32,
)
    requires
        s.wf(),
        s.signers is Some,
        weight_sum(s.signers->0) <= u32::MAX,
        0 <= i < s.signers->0.len(),
        s.signers->0[i].address == caller,
        0 <= k < s.signers->0.len(),
    ensures
        (forall|j: int| 0 <= j < s.signers->0.len() ==> (#[trigger] s.signers->0[j]).address != signer)
            ==> (s.add_signer_outcome(caller, signer, weight) is Ok <==> weight > 0
            && s.signers->0.len() < MAX_SIGNERS),
        s.signers->0[k].address == signer ==> s.add_signer_outcome(caller, signer, weight) is Err && (
        s.remove_signer_outcome(caller, signer) is Ok <==> weight_sum(s.signers->0)
            - s.signers->0[k].weight >= s.threshold->0),
        s.set_threshold_outcome(caller, threshold) is Ok <==> 1 <= threshold <= weight_sum(
            s.signers->0,
        ) && s.threshold != Some(threshold),
        s.finalize_threshold_outcome(sequence, caller) is Ok <==> {
            &&& s.pending_threshold is Some
            &&& sequence >= s.pending_threshold->0.effective_from + THRESHOLD_CHANGE_DELAY_LEDGERS
            &&& 1 <= s.pending_threshold->0.new_threshold <= weight_sum(s.signers->0)
        },
{
    lemma_at(s, caller, i);
    if s.signers->0[k].address == signer {
        lemma_at(s, signer, k);
    }
}

/// A proposal of a change is answered, parked and announced as one: the caller
/// has to authorize it, the same change is stored that was asked for, and
/// nothing happens where it is refused.
pub proof fn proposed_changes_are_stored(
    before: MultiSigContract,
    after: MultiSigContract,
    e0: EnvView,
    e1: EnvView,
    caller: Address,
    change: GovernanceChange,
    r: Result<u64, Error>,
)
    requires
        proposes(before, after, e0, e1, caller, change, r),
    ensures
        r is Err ==> after == before,
        r is Ok ==> {
            let c = after@.changes[r->Ok_0];
            &&& after@.changes.contains_key(r->Ok_0)
            &&& c.change == change && c.proposer == caller && !c.executed && !c.cancelled
            &&& c.proposed_at == e0.timestamp
            &&& c.eta == e0.timestamp + before@.timelock_delay
            &&& after@.signers == before@.signers && after@.threshold == before@.threshold
            &&& e1.log.len() == e0.log.len() + 2
            &&& e1.log[e0.log.len() as int] == Effect::RequireAuth(caller)
        },
        before@.emergency_lock ==> r is Err && e1 == e0,
{
}

/// What is announced of a change is the change itself.
pub proof fn changes_are_announced(change: GovernanceChange)
    ensures
        match change {
            GovernanceChange::Threshold(t) => effect_event(change) == (Event::ThresholdChanged {
                threshold: t,
            }) && kind_of(change) == "threshold",
            GovernanceChange::SignerWeight(s, w) => effect_event(change) == (
            Event::SignerWeightChanged { signer: s, weight: w }) && kind_of(change) == "weight",
            GovernanceChange::AddSigner(s, w) => effect_event(change) == (Event::SignerAdded {
                signer: s,
                weight: w,
            }) && kind_of(change) == "addsigner",
            GovernanceChange::RemoveSigner(s) => effect_event(change) == (Event::SignerRemoved {
                signer: s,
            }) && kind_of(change) == "rmsigner",
            GovernanceChange::TimelockDelay(d) => effect_event(change) == (Event::TimelockChanged {
                delay: d,
            }) && kind_of(change) == "timelock",
        },
{
}

} // verus!
