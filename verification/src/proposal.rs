//! # Proposal contract
//!
//! Represents an action awaiting approval and drives it through the lifecycle:
//!
//! ```text
//! Created -> Pending -> Approved -> Executed -> Closed
//!    |          |           |
//!    v          v           v
//!  Cancelled  Rejected    Failed
//!            / Expired
//! ```
//!
//! A proposal links off-chain context (`wallet`, `policy`, `org` and a
//! transaction reference) so that the backend can reconstruct why money moved.
//! The contract records an explicit approver allow-list and an approval
//! threshold; reaching the threshold moves the proposal to `Approved`, after
//! which it may be `Executed` and finally `Closed`. An approved proposal whose
//! off-chain action did not go through is marked `Failed`. `Rejected`,
//! `Cancelled`, `Expired`, `Failed` and `Closed` are terminal.
//!
//! ## Dependency chaining
//!
//! A proposal may declare prerequisite proposals. `execute` refuses to run until
//! every prerequisite has executed. The graph is acyclic by construction: every
//! dependency points to a proposal with a smaller id, and one that would close a
//! cycle is rejected with [`Error::CircularDependencyDetected`].
use crate::constants::{MAX_APPROVERS, MAX_DEPENDENCIES};
use crate::custody::lemma_holds;
use crate::errors::Error;
use crate::events::{proposal_approved, proposal_created, Event};
use crate::host::{CallEnv, Effect, EnvView};
use crate::math::next_id;
use crate::table::Table;
use crate::types::{contains_address, Address, AssetAmount};
use crate::validation::{
    check, leading, lemma_leading_all, lemma_leading_stops, require_non_empty,
};
use vstd::prelude::*;

verus! {

/// Proposal lifecycle state.
#[derive(Clone, Copy, Debug, PartialEq, Eq, Structural)]
pub enum ProposalState {
    Created,
    Pending,
    Approved,
    Executed,
    Closed,
    Rejected,
    Cancelled,
    Expired,
    /// Approved, but the action it authorized did not go through. Terminal, and
    /// deliberately distinct from `Executed` so that a dependent proposal stays
    /// blocked rather than inheriting a broken prerequisite.
    Failed,
}

/// A proposal in this state has carried out its action.
pub open spec fn executed(state: ProposalState) -> bool {
    state == ProposalState::Executed || state == ProposalState::Closed
}

/// A proposal in this state can still change its course.
pub open spec fn open_state(state: ProposalState) -> bool {
    state == ProposalState::Created || state == ProposalState::Pending || state
        == ProposalState::Approved
}

impl ProposalState {
    /// Whether a proposal in this state has carried out its action, and so can
    /// satisfy a dependent proposal's prerequisite.
    ///
    /// `Closed` counts: it is only reachable from `Executed`, and tidying an
    /// executed proposal away must not retroactively block its dependents.
    pub fn has_executed(self) -> (r: bool)
        ensures
            r == executed(self),
    {
        match self {
            ProposalState::Executed => true,
            ProposalState::Closed => true,
            _ => false,
        }
    }
}

/// Stored proposal record. `approvers` is the allow-list of addresses eligible
/// to approve; `threshold` approvals move it to `Approved`. `dependencies` are
/// the ids of proposals that must have executed before this one may execute.
#[derive(Clone, Debug)]
pub struct Proposal {
    pub proposer: Address,
    pub org: String,
    /// Links (opaque references owned by the backend or other contracts).
    pub wallet: String,
    pub policy: String,
    pub tx_ref: String,
    pub approvers: Vec<Address>,
    /// Prerequisite proposal ids, deduplicated and each strictly less than this
    /// proposal's own id. Empty for a proposal with no dependencies.
    pub dependencies: Vec<u64>,
    pub threshold: u32,
    pub approvals: u32,
    pub state: ProposalState,
    pub created_at: u64,
    /// The first entry is held in custody until the proposal is settled.
    pub deposit: Vec<AssetAmount>,
    pub expires_at: u64,
    /// How long after creation the proposer may cancel (0 = no limit).
    pub grace_period: u64,
}

impl Proposal {
    /// The deadline has passed.
    pub open spec fn expired_at(self, now: u64) -> bool {
        self.expires_at != 0 && now >= self.expires_at
    }

    pub fn is_expired(&self, env: &CallEnv) -> (r: bool)
        ensures
            r == self.expired_at(env@.timestamp),
    {
        self.expires_at != 0 && env.timestamp >= self.expires_at
    }

    pub fn is_active(&self, env: &CallEnv) -> (r: bool)
        ensures
            r == (!self.expired_at(env@.timestamp) && (self.state == ProposalState::Pending
                || self.state == ProposalState::Approved)),
    {
        !self.is_expired(env) && (self.state == ProposalState::Pending || self.state
            == ProposalState::Approved)
    }

    pub fn can_execute(&self, env: &CallEnv) -> (r: bool)
        ensures
            r == (!self.expired_at(env@.timestamp) && self.state == ProposalState::Approved),
    {
        self.is_active(env) && self.state == ProposalState::Approved
    }

    /// The record is consistent.
    pub open spec fn valid(self, id: u64) -> bool {
        &&& 0 < self.approvers@.len() <= MAX_APPROVERS
        &&& 0 < self.threshold <= self.approvers@.len()
        &&& self.dependencies@.no_duplicates()
        &&& forall|i: int|
            0 <= i < self.dependencies@.len() ==> #[trigger] self.dependencies@[i] < id
        &&& self.state == ProposalState::Pending ==> self.approvals < self.threshold
        &&& self.state == ProposalState::Approved ==> self.approvals >= self.threshold
        &&& self.deposit@.len() > 0 ==> self.deposit@[0].amount > 0
    }
}

/// The distinct numbers of a list, in order of their first appearance.
pub open spec fn distinct(list: Seq<u64>) -> Seq<u64>
    decreases list.len(),
{
    if list.len() == 0 {
        list
    } else {
        let earlier = distinct(list.drop_last());
        if earlier.contains(list.last()) {
            earlier
        } else {
            earlier.push(list.last())
        }
    }
}

proof fn lemma_distinct(list: Seq<u64>)
    ensures
        distinct(list).no_duplicates(),
        forall|x: u64|
            #![trigger distinct(list).contains(x)]
            #![trigger list.contains(x)]
            distinct(list).contains(x) <==> list.contains(x),
        distinct(list).len() <= list.len(),
    decreases list.len(),
{
    if list.len() > 0 {
        let front = list.drop_last();
        let last = list.last();
        lemma_distinct(front);
        let d = distinct(list);
        let e = distinct(front);
        assert forall|x: u64|
            #![trigger d.contains(x)]
            #![trigger list.contains(x)]
            d.contains(x) <==> list.contains(x) by {
            if list.contains(x) {
                let i = choose|i: int| 0 <= i < list.len() && list[i] == x;
                if i < front.len() {
                    assert(front[i] == x);
                    assert(front.contains(x));
                    assert(e.contains(x));
                    let j = choose|j: int| 0 <= j < e.len() && e[j] == x;
                    assert(d[j] == x);
                } else if e.contains(last) {
                    assert(d.contains(x));
                } else {
                    assert(d[d.len() - 1] == x);
                }
            }
            if d.contains(x) {
                let j = choose|j: int| 0 <= j < d.len() && d[j] == x;
                if j < e.len() {
                    assert(e[j] == x);
                    assert(front.contains(x));
                    let i = choose|i: int| 0 <= i < front.len() && front[i] == x;
                    assert(list[i] == x);
                } else {
                    assert(list[list.len() - 1] == x);
                }
            }
        }
        if !e.contains(last) {
            assert forall|i: int, j: int| 0 <= i < d.len() && 0 <= j < d.len() && i != j implies d[i]
                != d[j] by {
                if i < e.len() && j < e.len() {
                    assert(e[i] != e[j]);
                } else if i < e.len() {
                    assert(e.contains(e[i]));
                } else if j < e.len() {
                    assert(e.contains(e[j]));
                }
            }
        }
    }
}

/// The environment after the deposit, if there is one, moved.
pub open spec fn move_deposit(
    e: EnvView,
    deposit: Seq<AssetAmount>,
    from: Address,
    to: Address,
) -> EnvView {
    if deposit.len() > 0 {
        e.transfer(deposit[0].asset, from, to, deposit[0].amount)
    } else {
        e
    }
}

fn transfer_deposit(env: &mut CallEnv, deposit: &Vec<AssetAmount>, from: Address, to: Address)
    ensures
        final(env)@ == move_deposit(old(env)@, deposit@, from, to),
{
    if deposit.len() > 0 {
        env.transfer(deposit[0].asset, from, to, deposit[0].amount);
    }
}

/// The proposal contract's storage.
pub struct ProposalContract {
    pub proposal_count: Option<u64>,
    pub proposals: Table<u64, Proposal>,
    /// The approvers that approved each proposal.
    pub approvals: Table<(u64, Address), ()>,
}

/// The proposal contract's storage as a value.
#[verifier::ext_equal]
pub struct ProposalView {
    pub proposal_count: Option<u64>,
    pub proposals: Map<u64, Proposal>,
    pub approvals: Map<(u64, Address), ()>,
}

impl View for ProposalContract {
    type V = ProposalView;

    open spec fn view(&self) -> ProposalView {
        ProposalView {
            proposal_count: self.proposal_count,
            proposals: self.proposals@,
            approvals: self.approvals@,
        }
    }
}

/// A dependency points strictly backwards, to a proposal that exists.
pub open spec fn dependency_ok(
    s: ProposalView,
    id: u64,
    dependencies: Seq<u64>,
) -> spec_fn(int) -> bool {
    |i: int| dependencies[i] < id && s.proposals.contains_key(dependencies[i])
}

/// A dependency has executed.
pub open spec fn dependency_met(s: ProposalView, dependencies: Seq<u64>) -> spec_fn(int) -> bool {
    |i: int| s.proposals.contains_key(dependencies[i]) && executed(
        s.proposals[dependencies[i]].state,
    )
}

impl ProposalView {
    /// Who approved a proposal.
    pub open spec fn approvers_of(self, id: u64) -> Set<Address> {
        Set::new(|a: Address| self.approvals.contains_key((id, a)))
    }

    /// Every record is consistent, ids are numbered `1..=count`, and a proposal
    /// counts exactly the distinct approvers that approved it.
    pub open spec fn wf(self) -> bool {
        &&& self.proposal_count is None ==> self.proposals == Map::<u64, Proposal>::empty()
            && self.approvals == Map::<(u64, Address), ()>::empty()
        &&& forall|id: u64| #[trigger]
            self.proposals.contains_key(id) ==> {
                &&& 1 <= id <= self.proposal_count->0
                &&& self.proposals[id].valid(id)
                &&& self.approvers_of(id).finite()
                &&& self.approvers_of(id).len() == self.proposals[id].approvals
                &&& forall|a: Address| #[trigger]
                    self.approvals.contains_key((id, a)) ==> self.proposals[id].approvers@.contains(
                        a,
                    )
            }
        &&& forall|k: (u64, Address)| #[trigger]
            self.approvals.contains_key(k) ==> k.0 <= self.proposal_count->0
    }

    /// The state after a proposal's record changed.
    pub open spec fn with_proposal(self, id: u64, p: Proposal) -> ProposalView {
        ProposalView { proposals: self.proposals.insert(id, p), ..self }
    }

    /// The checks on a new proposal that come before its deposit moves.
    pub open spec fn create_check(
        org: Seq<char>,
        approvers: Seq<Address>,
        threshold: u32,
        deposit: Seq<AssetAmount>,
    ) -> Result<(), Error> {
        if org.len() == 0 || approvers.len() == 0 || approvers.len() > MAX_APPROVERS {
            Err(Error::InvalidInput)
        } else if threshold == 0 || threshold > approvers.len() {
            Err(Error::InvalidThreshold)
        } else {
            check(deposit.len() > 0 ==> deposit[0].amount > 0, Error::InvalidAmount)
        }
    }

    /// What creating a proposal returns; the first bad dependency decides the
    /// error.
    pub open spec fn create_outcome(
        self,
        now: u64,
        org: Seq<char>,
        approvers: Seq<Address>,
        dependencies: Seq<u64>,
        threshold: u32,
        deposit: Seq<AssetAmount>,
        expires_at: u64,
    ) -> Result<u64, Error> {
        if Self::create_check(org, approvers, threshold, deposit) is Err {
            Err(Self::create_check(org, approvers, threshold, deposit)->Err_0)
        } else if expires_at != 0 && expires_at <= now {
            Err(Error::InvalidInput)
        } else if dependencies.len() > MAX_DEPENDENCIES {
            Err(Error::InvalidInput)
        } else if self.proposal_count is None {
            Err(Error::NotInitialized)
        } else if self.proposal_count->0 == u64::MAX {
            Err(Error::Overflow)
        } else {
            let id = (self.proposal_count->0 + 1) as u64;
            let k = leading(dependency_ok(self, id, dependencies), dependencies.len());
            if k == dependencies.len() {
                Ok(id)
            } else if dependencies[k as int] >= id {
                Err(Error::CircularDependencyDetected)
            } else {
                Err(Error::NotFound)
            }
        }
    }

    /// What approving returns: the number of approvals.
    pub open spec fn approve_outcome(self, now: u64, caller: Address, id: u64) -> Result<
        u32,
        Error,
    > {
        if !self.proposals.contains_key(id) {
            Err(Error::NotFound)
        } else if self.proposals[id].expired_at(now) {
            Err(Error::ProposalExpired)
        } else if self.proposals[id].state != ProposalState::Pending {
            Err(Error::InvalidProposalState)
        } else if !self.proposals[id].approvers@.contains(caller) {
            Err(Error::NotAnApprover)
        } else if self.approvals.contains_key((id, caller)) {
            Err(Error::AlreadySigned)
        } else if self.proposals[id].approvals == u32::MAX {
            Err(Error::Overflow)
        } else {
            Ok((self.proposals[id].approvals + 1) as u32)
        }
    }

    /// The state after an approval.
    pub open spec fn approved(self, caller: Address, id: u64) -> ProposalView {
        let p = self.proposals[id];
        let approvals = (p.approvals + 1) as u32;
        ProposalView {
            proposals: self.proposals.insert(
                id,
                Proposal {
                    approvals,
                    state: if approvals >= p.threshold {
                        ProposalState::Approved
                    } else {
                        p.state
                    },
                    ..p
                },
            ),
            approvals: self.approvals.insert((id, caller), ()),
            ..self
        }
    }

    /// What rejecting returns.
    pub open spec fn reject_outcome(self, caller: Address, id: u64) -> Result<(), Error> {
        if !self.proposals.contains_key(id) {
            Err(Error::NotFound)
        } else if self.proposals[id].state != ProposalState::Pending {
            Err(Error::InvalidProposalState)
        } else {
            check(self.proposals[id].approvers@.contains(caller), Error::Unauthorized)
        }
    }

    /// What cancelling returns.
    pub open spec fn cancel_outcome(self, now: u64, caller: Address, id: u64) -> Result<
        (),
        Error,
    > {
        if !self.proposals.contains_key(id) {
            Err(Error::NotFound)
        } else {
            let p = self.proposals[id];
            if caller != p.proposer {
                Err(Error::Unauthorized)
            } else if !open_state(p.state) {
                Err(Error::InvalidProposalState)
            } else {
                check(
                    p.grace_period == 0 || now <= p.created_at + p.grace_period,
                    Error::CancellationWindowClosed,
                )
            }
        }
    }

    /// What marking a proposal expired returns.
    pub open spec fn expire_outcome(self, now: u64, id: u64) -> Result<(), Error> {
        if !self.proposals.contains_key(id) {
            Err(Error::NotFound)
        } else {
            let p = self.proposals[id];
            check(
                (p.state == ProposalState::Pending || p.state == ProposalState::Approved)
                    && p.expired_at(now),
                Error::InvalidProposalState,
            )
        }
    }

    /// What purging an expired proposal returns.
    pub open spec fn cleanup_outcome(self, now: u64, id: u64) -> Result<(), Error> {
        if !self.proposals.contains_key(id) {
            Err(Error::NotFound)
        } else {
            check(
                self.proposals[id].expired_at(now) && !executed(self.proposals[id].state),
                Error::InvalidProposalState,
            )
        }
    }

    /// The state after a proposal was purged.
    pub open spec fn purged(self, id: u64) -> ProposalView {
        ProposalView { proposals: self.proposals.remove(id), ..self }
    }

    /// Whether every prerequisite has executed; the first one that has not
    /// decides the error.
    pub open spec fn dependencies_check(self, dependencies: Seq<u64>) -> Result<(), Error> {
        let k = leading(dependency_met(self, dependencies), dependencies.len());
        if k == dependencies.len() {
            Ok(())
        } else if !self.proposals.contains_key(dependencies[k as int]) {
            Err(Error::NotFound)
        } else {
            Err(Error::PrerequisiteNotMet)
        }
    }

    /// What executing returns.
    pub open spec fn execute_outcome(self, now: u64, caller: Address, id: u64) -> Result<
        (),
        Error,
    > {
        if !self.proposals.contains_key(id) {
            Err(Error::NotFound)
        } else {
            let p = self.proposals[id];
            if p.expired_at(now) {
                Err(Error::ProposalExpired)
            } else if caller != p.proposer {
                Err(Error::Unauthorized)
            } else if p.state != ProposalState::Approved {
                Err(Error::ProposalNotApproved)
            } else {
                self.dependencies_check(p.dependencies@)
            }
        }
    }

    /// What marking a proposal failed returns.
    pub open spec fn fail_outcome(self, caller: Address, id: u64) -> Result<(), Error> {
        if !self.proposals.contains_key(id) {
            Err(Error::NotFound)
        } else if caller != self.proposals[id].proposer {
            Err(Error::Unauthorized)
        } else {
            check(
                self.proposals[id].state == ProposalState::Approved,
                Error::ProposalNotApproved,
            )
        }
    }

    /// What closing returns.
    pub open spec fn close_outcome(self, caller: Address, id: u64) -> Result<(), Error> {
        if !self.proposals.contains_key(id) {
            Err(Error::NotFound)
        } else if caller != self.proposals[id].proposer {
            Err(Error::Unauthorized)
        } else {
            check(
                self.proposals[id].state == ProposalState::Executed,
                Error::InvalidProposalState,
            )
        }
    }
}

/// Moving a proposal to another state keeps the storage consistent.
proof fn lemma_state_change(s: ProposalView, id: u64, state: ProposalState)
    requires
        s.wf(),
        s.proposals.contains_key(id),
        state != ProposalState::Pending && state != ProposalState::Approved,
    ensures
        s.with_proposal(id, Proposal { state, ..s.proposals[id] }).wf(),
{
    let t = s.with_proposal(id, Proposal { state, ..s.proposals[id] });
    assert forall|k: u64| #[trigger] t.proposals.contains_key(k) implies t.approvers_of(k)
        == s.approvers_of(k) && s.proposals.contains_key(k) by {
        assert(t.approvers_of(k) =~= s.approvers_of(k));
    }
    assert(s.proposals[id].valid(id));
}

fn contains_id(list: &Vec<u64>, id: u64) -> (r: bool)
    ensures
        r == list@.contains(id),
{
    let mut i: usize = 0;
    while i < list.len()
        invariant
            i <= list@.len(),
            forall|j: int| 0 <= j < i ==> list@[j] != id,
        decreases list@.len() - i,
    {
        if list[i] == id {
            return true;
        }
        i = i + 1;
    }
    false
}

impl ProposalContract {
    /// A contract with empty storage.
    pub fn new() -> (r: Self)
        ensures
            r@ == (ProposalView {
                proposal_count: None,
                proposals: Map::empty(),
                approvals: Map::empty(),
            }),
            r@.wf(),
    {
        ProposalContract {
            proposal_count: None,
            proposals: Table::new(),
            approvals: Table::new(),
        }
    }

    /// Initialize the id counter, once.
    pub fn initialize(&mut self) -> (r: Result<(), Error>)
        ensures
            r == check(old(self)@.proposal_count is None, Error::AlreadyInitialized),
            r is Err ==> *final(self) == *old(self),
            r is Ok ==> final(self)@ == (ProposalView {
                proposal_count: Some(0u64),
                ..old(self)@
            }),
            old(self)@.wf() ==> final(self)@.wf(),
    {
        if self.proposal_count.is_some() {
            return Err(Error::AlreadyInitialized);
        }
        self.proposal_count = Some(0);
        Ok(())
    }

    /// Create a proposal in `Pending` state. `proposer` must authorize. The
    /// approver allow-list must be non-empty and `threshold` within its size.
    ///
    /// `dependencies` lists prerequisite proposals that must have executed
    /// before this one may execute; pass an empty list for an independent
    /// proposal. Each entry must name an existing proposal, and duplicates are
    /// collapsed.
    ///
    /// Proposal ids are assigned from a monotonic counter, and a dependency must
    /// name a proposal that already exists, so every edge of the dependency
    /// graph points from a higher id to a strictly lower one. An edge that does
    /// not is rejected with [`Error::CircularDependencyDetected`].
    pub fn create(
        &mut self,
        env: &mut CallEnv,
        proposer: Address,
        org: String,
        wallet: String,
        policy: String,
        tx_ref: String,
        approvers: Vec<Address>,
        dependencies: Vec<u64>,
        threshold: u32,
        deposit: Vec<AssetAmount>,
        expires_at: u64,
        grace_period: u64,
    ) -> (r: Result<u64, Error>)
        requires
            old(self)@.wf(),
        ensures
            final(self)@.wf(),
            r == old(self)@.create_outcome(
                old(env)@.timestamp,
                org@,
                approvers@,
                dependencies@,
                threshold,
                deposit@,
                expires_at,
            ),
            r is Err ==> *final(self) == *old(self) && final(env)@ == (
            if ProposalView::create_check(org@, approvers@, threshold, deposit@) is Err {
                old(env)@.auth(proposer)
            } else {
                move_deposit(old(env)@.auth(proposer), deposit@, proposer, old(env)@.contract)
            }),
            r is Ok ==> {
                let p = final(self)@.proposals[r->Ok_0];
                &&& final(self)@ == (ProposalView {
                    proposal_count: Some(r->Ok_0),
                    proposals: old(self)@.proposals.insert(r->Ok_0, p),
                    ..old(self)@
                })
                &&& p == (Proposal {
                    proposer,
                    org,
                    wallet,
                    policy,
                    tx_ref,
                    approvers,
                    dependencies: p.dependencies,
                    threshold,
                    approvals: 0,
                    state: ProposalState::Pending,
                    created_at: old(env)@.timestamp,
                    deposit,
                    expires_at,
                    grace_period,
                })
                &&& p.dependencies@ == distinct(dependencies@)
                &&& final(env)@ == move_deposit(
                    old(env)@.auth(proposer),
                    deposit@,
                    proposer,
                    old(env)@.contract,
                ).emit(Event::ProposalCreated { id: r->Ok_0, proposer })
            },
    {
        env.require_auth(proposer);
        require_non_empty(&org)?;
        let n: usize = approvers.len();
        if n == 0 || n > MAX_APPROVERS as usize {
            return Err(Error::InvalidInput);
        }
        if threshold == 0 || threshold as usize > n {
            return Err(Error::InvalidThreshold);
        }
        if deposit.len() > 0 && deposit[0].amount <= 0 {
            return Err(Error::InvalidAmount);
        }
        let custody = env.contract;
        transfer_deposit(env, &deposit, proposer, custody);
        if expires_at != 0 && expires_at <= env.timestamp {
            return Err(Error::InvalidInput);
        }
        if dependencies.len() > MAX_DEPENDENCIES as usize {
            return Err(Error::InvalidInput);
        }
        let count: u64 = match self.proposal_count {
            Some(c) => c,
            None => return Err(Error::NotInitialized),
        };
        let id: u64 = next_id(count)?;
        let deps = self.checked_dependencies(id, &dependencies)?;
        proof {
            lemma_distinct(dependencies@);
            let f = dependency_ok(self@, id, dependencies@);
            lemma_leading_all(f, dependencies@.len());
            assert forall|i: int| 0 <= i < deps@.len() implies #[trigger] deps@[i] < id by {
                assert(deps@.contains(deps@[i]));
                assert(dependencies@.contains(deps@[i]));
                let j = choose|j: int|
                    0 <= j < dependencies@.len() && dependencies@[j] == deps@[i];
                assert(f(j));
            }
        }
        let proposal = Proposal {
            proposer,
            org,
            wallet,
            policy,
            tx_ref,
            approvers,
            dependencies: deps,
            threshold,
            approvals: 0,
            state: ProposalState::Pending,
            created_at: env.timestamp,
            deposit,
            expires_at,
            grace_period,
        };
        let ghost before = self@;
        self.proposals.set(id, proposal);
        self.proposal_count = Some(id);
        proof {
            assert(before.approvers_of(id) =~= Set::empty());
            assert forall|k: u64| #[trigger] self@.proposals.contains_key(k) implies
                self@.approvers_of(k) == before.approvers_of(k) by {
                assert(self@.approvers_of(k) =~= before.approvers_of(k));
            }
        }
        proposal_created(env, id, &proposer);
        Ok(id)
    }

    /// Validates declared prerequisites and collapses duplicates.
    fn checked_dependencies(&self, id: u64, dependencies: &Vec<u64>) -> (r: Result<
        Vec<u64>,
        Error,
    >)
        ensures
            ({
                let k = leading(
                    dependency_ok(self@, id, dependencies@),
                    dependencies@.len(),
                );
                match r {
                    Ok(deps) => k == dependencies@.len() && deps@ == distinct(dependencies@),
                    Err(e) => k < dependencies@.len() && e == (if dependencies@[k as int] >= id {
                        Error::CircularDependencyDetected
                    } else {
                        Error::NotFound
                    }),
                }
            }),
    {
        let n: usize = dependencies.len();
        let ghost f = dependency_ok(self@, id, dependencies@);
        let mut deps: Vec<u64> = Vec::new();
        let mut i: usize = 0;
        assert(dependencies@.take(0) =~= Seq::<u64>::empty());
        while i < n
            invariant
                i <= n,
                n == dependencies@.len(),
                f == dependency_ok(self@, id, dependencies@),
                leading(f, i as nat) == i,
                deps@ == distinct(dependencies@.take(i as int)),
            decreases n - i,
        {
            let dep: u64 = dependencies[i];
            if dep >= id {
                proof {
                    assert(!f(i as int));
                    lemma_leading_stops(f, i as nat, n as nat);
                }
                return Err(Error::CircularDependencyDetected);
            }
            if !self.proposals.has(&dep) {
                proof {
                    assert(!f(i as int));
                    lemma_leading_stops(f, i as nat, n as nat);
                }
                return Err(Error::NotFound);
            }
            assert(f(i as int));
            assert(dependencies@.take(i + 1).drop_last() =~= dependencies@.take(i as int));
            if !contains_id(&deps, dep) {
                deps.push(dep);
            }
            i = i + 1;
        }
        assert(dependencies@.take(i as int) =~= dependencies@);
        Ok(deps)
    }

    fn checkout(&mut self, id: u64) -> (r: Proposal)
        requires
            old(self)@.proposals.contains_key(id),
        ensures
            r == old(self)@.proposals[id],
            final(self)@ == (ProposalView {
                proposals: old(self)@.proposals.remove(id),
                ..old(self)@
            }),
    {
        self.proposals.take(&id).unwrap()
    }

    /// Approve a proposal. The caller must be on the approver allow-list and may
    /// approve only once. Reaching `threshold` transitions to `Approved`.
    pub fn approve(&mut self, env: &mut CallEnv, caller: Address, id: u64) -> (r: Result<
        u32,
        Error,
    >)
        requires
            old(self)@.wf(),
        ensures
            final(self)@.wf(),
            r == old(self)@.approve_outcome(old(env)@.timestamp, caller, id),
            r is Err ==> *final(self) == *old(self) && final(env)@ == old(env)@.auth(caller),
            r is Ok ==> final(self)@ == old(self)@.approved(caller, id) && final(env)@ == old(env)@.auth(caller).emit(
                Event::ProposalApproved { id, approver: caller, approvals: r->Ok_0 },
            ),
    {
        env.require_auth(caller);
        let approvals: u32 = match self.proposals.get(&id) {
            None => return Err(Error::NotFound),
            Some(p) => {
                if p.is_expired(env) {
                    return Err(Error::ProposalExpired);
                }
                if p.state != ProposalState::Pending {
                    return Err(Error::InvalidProposalState);
                }
                if !contains_address(&p.approvers, &caller) {
                    return Err(Error::NotAnApprover);
                }
                if self.approvals.has(&(id, caller)) {
                    return Err(Error::AlreadySigned);
                }
                match p.approvals.checked_add(1) {
                    Some(n) => n,
                    None => return Err(Error::Overflow),
                }
            },
        };
        let ghost before = self@;
        let mut proposal = self.checkout(id);
        proposal.approvals = approvals;
        if approvals >= proposal.threshold {
            proposal.state = ProposalState::Approved;
        }
        self.proposals.set(id, proposal);
        self.approvals.set((id, caller), ());
        proof {
            assert(self@ =~= before.approved(caller, id));
            assert(before.proposals[id].valid(id));
            assert(self@.approvers_of(id) =~= before.approvers_of(id).insert(caller));
            assert forall|k: u64| k != id && #[trigger] self@.proposals.contains_key(k) implies
                self@.approvers_of(k) == before.approvers_of(k) by {
                assert(self@.approvers_of(k) =~= before.approvers_of(k));
            }
        }
        proposal_approved(env, id, &caller, approvals);
        Ok(approvals)
    }

    /// Settles a proposal in a terminal state and returns its deposit.
    fn settle(&mut self, env: &mut CallEnv, id: u64, state: ProposalState)
        requires
            old(self)@.wf(),
            old(self)@.proposals.contains_key(id),
            state != ProposalState::Pending && state != ProposalState::Approved,
        ensures
            final(self)@.wf(),
            final(self)@ == old(self)@.with_proposal(
                id,
                Proposal { state, ..old(self)@.proposals[id] },
            ),
            final(env)@ == move_deposit(
                old(env)@,
                old(self)@.proposals[id].deposit@,
                old(env)@.contract,
                old(self)@.proposals[id].proposer,
            ),
    {
        let ghost before = self@;
        let mut proposal = self.checkout(id);
        proposal.state = state;
        let custody = env.contract;
        transfer_deposit(env, &proposal.deposit, custody, proposal.proposer);
        self.proposals.set(id, proposal);
        proof {
            assert(self@ =~= before.with_proposal(id, proposal));
            lemma_state_change(before, id, state);
        }
    }

    /// Reject a proposal. Any approver may reject a pending proposal, which
    /// moves it to the terminal `Rejected` state and returns its deposit.
    pub fn reject(&mut self, env: &mut CallEnv, caller: Address, id: u64) -> (r: Result<(), Error>)
        requires
            old(self)@.wf(),
        ensures
            final(self)@.wf(),
            r == old(self)@.reject_outcome(caller, id),
            settles(
                *old(self),
                *final(self),
                old(env)@.auth(caller),
                final(env)@,
                id,
                ProposalState::Rejected,
                Event::ProposalRejected { id, caller },
                r,
            ),
    {
        env.require_auth(caller);
        match self.proposals.get(&id) {
            None => return Err(Error::NotFound),
            Some(p) => {
                if p.state != ProposalState::Pending {
                    return Err(Error::InvalidProposalState);
                }
                if !contains_address(&p.approvers, &caller) {
                    return Err(Error::Unauthorized);
                }
            },
        }
        self.settle(env, id, ProposalState::Rejected);
        env.publish(Event::ProposalRejected { id, caller });
        Ok(())
    }

    /// Cancel a proposal and return its deposit. Only the original proposer may
    /// cancel, only while the proposal is open, and, where it has a grace
    /// period, only within it.
    pub fn cancel(&mut self, env: &mut CallEnv, caller: Address, id: u64) -> (r: Result<(), Error>)
        requires
            old(self)@.wf(),
        ensures
            final(self)@.wf(),
            r == old(self)@.cancel_outcome(old(env)@.timestamp, caller, id),
            settles(
                *old(self),
                *final(self),
                old(env)@.auth(caller),
                final(env)@,
                id,
                ProposalState::Cancelled,
                Event::ProposalCancelled { id },
                r,
            ),
    {
        env.require_auth(caller);
        match self.proposals.get(&id) {
            None => return Err(Error::NotFound),
            Some(p) => {
                if caller != p.proposer {
                    return Err(Error::Unauthorized);
                }
                match p.state {
                    ProposalState::Created | ProposalState::Pending | ProposalState::Approved => {},
                    _ => return Err(Error::InvalidProposalState),
                }
                if p.grace_period != 0 && env.timestamp as u128 > p.created_at as u128
                    + p.grace_period as u128 {
                    return Err(Error::CancellationWindowClosed);
                }
            },
        }
        self.settle(env, id, ProposalState::Cancelled);
        env.publish(Event::ProposalCancelled { id });
        Ok(())
    }

    /// Mark a proposal expired if its deadline has passed, and return its
    /// deposit. Permissionless.
    pub fn expire(&mut self, env: &mut CallEnv, id: u64) -> (r: Result<(), Error>)
        requires
            old(self)@.wf(),
        ensures
            final(self)@.wf(),
            r == old(self)@.expire_outcome(old(env)@.timestamp, id),
            settles(
                *old(self),
                *final(self),
                old(env)@,
                final(env)@,
                id,
                ProposalState::Expired,
                Event::ProposalExpired { id },
                r,
            ),
    {
        match self.proposals.get(&id) {
            None => return Err(Error::NotFound),
            Some(p) => {
                match p.state {
                    ProposalState::Pending | ProposalState::Approved => {},
                    _ => return Err(Error::InvalidProposalState),
                }
                if !p.is_expired(env) {
                    return Err(Error::InvalidProposalState);
                }
            },
        }
        self.settle(env, id, ProposalState::Expired);
        env.publish(Event::ProposalExpired { id });
        Ok(())
    }

    /// Purge an expired proposal from storage to reclaim space. What has executed
    /// stays, since its dependents still ask for it. Purging moves no tokens:
    /// [`ProposalContract::expire`] is what returns a deposit.
    pub fn cleanup_expired(&mut self, env: &mut CallEnv, id: u64) -> (r: Result<(), Error>)
        requires
            old(self)@.wf(),
        ensures
            final(self)@.wf(),
            r == old(self)@.cleanup_outcome(old(env)@.timestamp, id),
            r is Err ==> *final(self) == *old(self) && final(env)@ == old(env)@,
            r is Ok ==> final(self)@ == old(self)@.purged(id) && final(env)@ == old(env)@.emit(
                Event::ProposalCleaned { id },
            ),
    {
        match self.proposals.get(&id) {
            None => return Err(Error::NotFound),
            Some(p) => {
                if !p.is_expired(env) || p.state.has_executed() {
                    return Err(Error::InvalidProposalState);
                }
            },
        }
        let ghost before = self@;
        self.proposals.remove(&id);
        proof {
            assert forall|k: u64| #[trigger] self@.proposals.contains_key(k) implies
                self@.approvers_of(k) == before.approvers_of(k) && before.proposals.contains_key(
                k,
            ) by {
                assert(self@.approvers_of(k) =~= before.approvers_of(k));
            }
        }
        env.publish(Event::ProposalCleaned { id });
        Ok(())
    }

    /// Require that every prerequisite proposal has executed. A prerequisite
    /// that was cancelled, rejected, expired or marked `Failed` can never become
    /// executed, but it is reported the same way.
    fn ensure_dependencies_met(&self, dependencies: &Vec<u64>) -> (r: Result<(), Error>)
        ensures
            r == self@.dependencies_check(dependencies@),
    {
        let n: usize = dependencies.len();
        let ghost f = dependency_met(self@, dependencies@);
        let mut i: usize = 0;
        while i < n
            invariant
                i <= n,
                n == dependencies@.len(),
                f == dependency_met(self@, dependencies@),
                leading(f, i as nat) == i,
            decreases n - i,
        {
            match self.proposals.get(&dependencies[i]) {
                None => {
                    proof {
                        assert(!f(i as int));
                        lemma_leading_stops(f, i as nat, n as nat);
                    }
                    return Err(Error::NotFound);
                },
                Some(p) => {
                    if !p.state.has_executed() {
                        proof {
                            assert(!f(i as int));
                            lemma_leading_stops(f, i as nat, n as nat);
                        }
                        return Err(Error::PrerequisiteNotMet);
                    }
                },
            }
            assert(f(i as int));
            i = i + 1;
        }
        Ok(())
    }

    /// Execute an approved proposal and return its deposit. Only the proposer
    /// may execute (the actual value movement happens in the wallet or treasury;
    /// this records completion).
    ///
    /// Every declared prerequisite must have executed first, otherwise the call
    /// fails with [`Error::PrerequisiteNotMet`] and nothing changes. This is
    /// checked after approval and expiry so that a proposal blocked only by its
    /// chain reports the dependency rather than a less specific error.
    pub fn execute(&mut self, env: &mut CallEnv, caller: Address, id: u64) -> (r: Result<(), Error>)
        requires
            old(self)@.wf(),
        ensures
            final(self)@.wf(),
            r == old(self)@.execute_outcome(old(env)@.timestamp, caller, id),
            settles(
                *old(self),
                *final(self),
                old(env)@.auth(caller),
                final(env)@,
                id,
                ProposalState::Executed,
                Event::ProposalExecuted { id },
                r,
            ),
    {
        env.require_auth(caller);
        match self.proposals.get(&id) {
            None => return Err(Error::NotFound),
            Some(p) => {
                if p.is_expired(env) {
                    return Err(Error::ProposalExpired);
                }
                if caller != p.proposer {
                    return Err(Error::Unauthorized);
                }
                if p.state != ProposalState::Approved {
                    return Err(Error::ProposalNotApproved);
                }
                self.ensure_dependencies_met(&p.dependencies)?;
            },
        }
        self.settle(env, id, ProposalState::Executed);
        env.publish(Event::ProposalExecuted { id });
        Ok(())
    }

    /// Mark an approved proposal as `Failed` (terminal). Only the proposer may
    /// do so. A `Failed` prerequisite never satisfies a dependent proposal, so
    /// the chain stops instead of silently continuing.
    pub fn fail(&mut self, env: &mut CallEnv, caller: Address, id: u64) -> (r: Result<(), Error>)
        requires
            old(self)@.wf(),
        ensures
            final(self)@.wf(),
            r == old(self)@.fail_outcome(caller, id),
            r is Err ==> *final(self) == *old(self) && final(env)@ == old(env)@.auth(caller),
            r is Ok ==> final(self)@ == old(self)@.with_proposal(
                id,
                Proposal { state: ProposalState::Failed, ..old(self)@.proposals[id] },
            ) && final(env)@ == old(env)@.auth(caller).emit(Event::ProposalFailed { id }),
    {
        env.require_auth(caller);
        match self.proposals.get(&id) {
            None => return Err(Error::NotFound),
            Some(p) => {
                if caller != p.proposer {
                    return Err(Error::Unauthorized);
                }
                if p.state != ProposalState::Approved {
                    return Err(Error::ProposalNotApproved);
                }
            },
        }
        let ghost before = self@;
        let mut proposal = self.checkout(id);
        proposal.state = ProposalState::Failed;
        self.proposals.set(id, proposal);
        proof {
            assert(self@ =~= before.with_proposal(id, proposal));
            lemma_state_change(before, id, ProposalState::Failed);
        }
        env.publish(Event::ProposalFailed { id });
        Ok(())
    }

    /// Close an executed proposal (terminal). Only the proposer may close.
    pub fn close(&mut self, env: &mut CallEnv, caller: Address, id: u64) -> (r: Result<(), Error>)
        requires
            old(self)@.wf(),
        ensures
            final(self)@.wf(),
            r == old(self)@.close_outcome(caller, id),
            r is Err ==> *final(self) == *old(self) && final(env)@ == old(env)@.auth(caller),
            r is Ok ==> final(self)@ == old(self)@.with_proposal(
                id,
                Proposal { state: ProposalState::Closed, ..old(self)@.proposals[id] },
            ) && final(env)@ == old(env)@.auth(caller).emit(Event::ProposalClosed { id }),
    {
        env.require_auth(caller);
        match self.proposals.get(&id) {
            None => return Err(Error::NotFound),
            Some(p) => {
                if caller != p.proposer {
                    return Err(Error::Unauthorized);
                }
                if p.state != ProposalState::Executed {
                    return Err(Error::InvalidProposalState);
                }
            },
        }
        let ghost before = self@;
        let mut proposal = self.checkout(id);
        proposal.state = ProposalState::Closed;
        self.proposals.set(id, proposal);
        proof {
            assert(self@ =~= before.with_proposal(id, proposal));
            lemma_state_change(before, id, ProposalState::Closed);
        }
        env.publish(Event::ProposalClosed { id });
        Ok(())
    }

    // --- views ---

    pub fn get(&self, id: u64) -> (r: Result<&Proposal, Error>)
        ensures
            match r {
                Ok(p) => self@.proposals.contains_key(id) && *p == self@.proposals[id],
                Err(e) => !self@.proposals.contains_key(id) && e == Error::NotFound,
            },
    {
        match self.proposals.get(&id) {
            Some(p) => Ok(p),
            None => Err(Error::NotFound),
        }
    }

    pub fn state(&self, id: u64) -> (r: Result<ProposalState, Error>)
        ensures
            r == (if self@.proposals.contains_key(id) {
                Ok::<ProposalState, Error>(self@.proposals[id].state)
            } else {
                Err(Error::NotFound)
            }),
    {
        match self.proposals.get(&id) {
            Some(p) => Ok(p.state),
            None => Err(Error::NotFound),
        }
    }

    /// The prerequisite proposal ids this proposal declares.
    pub fn dependencies(&self, id: u64) -> (r: Result<Vec<u64>, Error>)
        ensures
            match r {
                Ok(d) => self@.proposals.contains_key(id) && d@
                    == self@.proposals[id].dependencies@,
                Err(e) => !self@.proposals.contains_key(id) && e == Error::NotFound,
            },
    {
        match self.proposals.get(&id) {
            Some(p) => {
                let d = p.dependencies.clone();
                assert(d@ =~= p.dependencies@);
                Ok(d)
            },
            None => Err(Error::NotFound),
        }
    }

    /// Whether every prerequisite has executed: the same question `execute`
    /// asks, exposed so that callers can check before spending a transaction.
    pub fn dependencies_met(&self, id: u64) -> (r: Result<bool, Error>)
        ensures
            r == (if self@.proposals.contains_key(id) {
                Ok::<bool, Error>(
                    self@.dependencies_check(self@.proposals[id].dependencies@) is Ok,
                )
            } else {
                Err(Error::NotFound)
            }),
    {
        match self.proposals.get(&id) {
            Some(p) => Ok(self.ensure_dependencies_met(&p.dependencies).is_ok()),
            None => Err(Error::NotFound),
        }
    }
}

/// What settling a proposal does once the caller's authorization was demanded.
pub open spec fn settles(
    before: ProposalContract,
    after: ProposalContract,
    e0: EnvView,
    e1: EnvView,
    id: u64,
    state: ProposalState,
    event: Event,
    r: Result<(), Error>,
) -> bool {
    &&& r is Err ==> after == before && e1 == e0
    &&& r is Ok ==> {
        let p = before@.proposals[id];
        &&& after@ == before@.with_proposal(id, Proposal { state, ..p })
        &&& e1 == move_deposit(e0, p.deposit@, e0.contract, p.proposer).emit(event)
    }
}

// --- laws ---

/// A walk along the dependency graph: each proposal depends on the next.
pub open spec fn is_walk(s: ProposalView, walk: Seq<u64>) -> bool {
    forall|i: int|
        0 <= i < walk.len() - 1 ==> s.proposals.contains_key(#[trigger] walk[i])
            && s.proposals[walk[i]].dependencies@.contains(walk[i + 1])
}

/// The dependency graph has no cycles: every walk along it leads to strictly
/// smaller ids, so none returns to where it started.
pub proof fn dependencies_are_acyclic(s: ProposalView, walk: Seq<u64>)
    requires
        s.wf(),
        is_walk(s, walk),
        walk.len() >= 2,
    ensures
        walk.last() < walk.first(),
    decreases walk.len(),
{
    let n = walk.len() as int;
    let p = s.proposals[walk[n - 2]];
    assert(s.proposals.contains_key(walk[n - 2]));
    assert(p.valid(walk[n - 2]));
    let j = choose|j: int| 0 <= j < p.dependencies@.len() && p.dependencies@[j] == walk[n - 1];
    assert(p.dependencies@[j] < walk[n - 2]);
    if n > 2 {
        let front = walk.drop_last();
        assert forall|i: int| 0 <= i < front.len() - 1 implies s.proposals.contains_key(
            #[trigger] front[i],
        ) && s.proposals[front[i]].dependencies@.contains(front[i + 1]) by {
            assert(s.proposals.contains_key(walk[i]));
        }
        dependencies_are_acyclic(s, front);
    }
}

/// A proposal executes only after each of its prerequisites.
pub proof fn execution_follows_the_chain(
    s: ProposalView,
    now: u64,
    caller: Address,
    id: u64,
    prerequisite: u64,
)
    requires
        s.execute_outcome(now, caller, id) is Ok,
        s.proposals[id].dependencies@.contains(prerequisite),
    ensures
        s.proposals.contains_key(prerequisite),
        executed(s.proposals[prerequisite].state),
{
    let d = s.proposals[id].dependencies@;
    let f = dependency_met(s, d);
    lemma_leading_all(f, d.len());
    let i = choose|i: int| 0 <= i < d.len() && d[i] == prerequisite;
    assert(f(i));
}

/// Purging expired proposals blocks nothing that could run: prerequisites that
/// were met stay met.
pub proof fn purging_keeps_prerequisites_met(
    s: ProposalView,
    now: u64,
    id: u64,
    dependencies: Seq<u64>,
)
    requires
        s.cleanup_outcome(now, id) is Ok,
        s.dependencies_check(dependencies) is Ok,
    ensures
        s.purged(id).dependencies_check(dependencies) is Ok,
{
    let f = dependency_met(s, dependencies);
    let g = dependency_met(s.purged(id), dependencies);
    lemma_leading_all(f, dependencies.len());
    lemma_leading_kept(f, g, dependencies.len());
}

proof fn lemma_leading_kept(f: spec_fn(int) -> bool, g: spec_fn(int) -> bool, n: nat)
    requires
        forall|i: int| 0 <= i < n ==> #[trigger] f(i),
        forall|i: int| 0 <= i < n && f(i) ==> #[trigger] g(i),
    ensures
        leading(g, n) == n,
    decreases n,
{
    if n > 0 {
        lemma_leading_kept(f, g, (n - 1) as nat);
        assert(f(n - 1));
    }
}

/// A proposal is approved only by at least a threshold of distinct eligible
/// approvers.
pub proof fn approval_needs_the_threshold(s: ProposalView, id: u64)
    requires
        s.wf(),
        s.proposals.contains_key(id),
        s.proposals[id].state == ProposalState::Approved,
    ensures
        s.approvers_of(id).len() >= s.proposals[id].threshold,
        forall|a: Address| #[trigger]
            s.approvers_of(id).contains(a) ==> s.proposals[id].approvers@.contains(a),
{
    assert(s.proposals[id].valid(id));
    assert forall|a: Address| #[trigger] s.approvers_of(id).contains(a) implies s.proposals[id].approvers@.contains(
        a,
    ) by {
        assert(s.approvals.contains_key((id, a)));
    }
}

/// A proposal that has reached a terminal state is never approved, rejected,
/// cancelled, expired, executed or failed again, so that its deposit is returned
/// at most once.
pub proof fn terminal_states_are_final(s: ProposalView, now: u64, caller: Address, id: u64)
    requires
        s.proposals.contains_key(id),
        !open_state(s.proposals[id].state),
    ensures
        s.approve_outcome(now, caller, id) is Err,
        s.reject_outcome(caller, id) is Err,
        s.cancel_outcome(now, caller, id) is Err,
        s.expire_outcome(now, id) is Err,
        s.execute_outcome(now, caller, id) is Err,
        s.fail_outcome(caller, id) is Err,
        s.close_outcome(caller, id) is Ok ==> s.proposals[id].state == ProposalState::Executed,
{
}

/// No approver is counted twice.
pub proof fn no_double_approval(s: ProposalView, now: u64, caller: Address, id: u64)
    requires
        s.approve_outcome(now, caller, id) is Ok,
    ensures
        s.approved(caller, id).approve_outcome(now, caller, id) is Err,
{
}

/// The deposit of a proposal, of an asset, that is still in custody.
pub open spec fn deposit_held(s: ProposalView, id: u64, asset: Address) -> int {
    if s.proposals.contains_key(id) && open_state(s.proposals[id].state)
        && s.proposals[id].deposit@.len() > 0 && s.proposals[id].deposit@[0].asset == asset {
        s.proposals[id].deposit@[0].amount as int
    } else {
        0
    }
}

/// The deposits of the first `n` proposals that are still in custody.
pub open spec fn deposits_held(s: ProposalView, asset: Address, n: nat) -> int
    decreases n,
{
    if n == 0 {
        0
    } else {
        deposits_held(s, asset, (n - 1) as nat) + deposit_held(s, n as u64, asset)
    }
}

/// All deposits that are still in custody.
pub open spec fn all_deposits(s: ProposalView, asset: Address) -> int {
    match s.proposal_count {
        Some(count) => deposits_held(s, asset, count as nat),
        None => 0,
    }
}

/// The contract holds every deposit that it still owes.
pub open spec fn covered(s: ProposalView, e: EnvView) -> bool {
    forall|asset: Address| #[trigger] all_deposits(s, asset) <= e.holds(asset)
}

proof fn lemma_deposits_change(s: ProposalView, t: ProposalView, id: u64, asset: Address, n: nat)
    requires
        1 <= id,
        n <= u64::MAX,
        forall|k: u64| k != id ==> #[trigger] deposit_held(t, k, asset) == deposit_held(s, k, asset),
    ensures
        deposits_held(t, asset, n) == deposits_held(s, asset, n) + (if id <= n {
            deposit_held(t, id, asset) - deposit_held(s, id, asset)
        } else {
            0
        }),
    decreases n,
{
    if n > 0 {
        lemma_deposits_change(s, t, id, asset, (n - 1) as nat);
        if n != id {
            assert(deposit_held(t, n as u64, asset) == deposit_held(s, n as u64, asset));
        }
    }
}

/// Taking a new proposal's deposit keeps every deposit covered.
pub proof fn new_deposits_are_covered(
    s: ProposalView,
    e: EnvView,
    id: u64,
    p: Proposal,
    event: Event,
)
    requires
        s.wf(),
        covered(s, e),
        s.proposal_count is Some,
        id == s.proposal_count->0 + 1,
        p.state == ProposalState::Pending,
        p.proposer != e.contract,
    ensures
        covered(
            ProposalView {
                proposal_count: Some(id),
                proposals: s.proposals.insert(id, p),
                ..s
            },
            move_deposit(e.auth(p.proposer), p.deposit@, p.proposer, e.contract).emit(event),
        ),
{
    broadcast use lemma_holds;

    let t = ProposalView { proposal_count: Some(id), proposals: s.proposals.insert(id, p), ..s };
    let after = move_deposit(e.auth(p.proposer), p.deposit@, p.proposer, e.contract).emit(event);
    assert forall|asset: Address| #[trigger] all_deposits(t, asset) <= after.holds(asset) by {
        assert(all_deposits(s, asset) <= e.holds(asset));
        lemma_deposits_change(s, t, id, asset, (id - 1) as nat);
        assert(deposits_held(t, asset, id as nat) == deposits_held(t, asset, (id - 1) as nat)
            + deposit_held(t, id, asset));
    }
}

/// Returning an open proposal's deposit while settling it keeps every other
/// deposit covered.
pub proof fn returned_deposits_are_covered(
    s: ProposalView,
    e: EnvView,
    id: u64,
    state: ProposalState,
    event: Event,
)
    requires
        s.wf(),
        covered(s, e),
        s.proposals.contains_key(id),
        open_state(s.proposals[id].state),
        !open_state(state),
    ensures
        ({
            let p = s.proposals[id];
            covered(
                s.with_proposal(id, Proposal { state, ..p }),
                move_deposit(e, p.deposit@, e.contract, p.proposer).emit(event),
            )
        }),
{
    broadcast use lemma_holds;

    let p = s.proposals[id];
    let t = s.with_proposal(id, Proposal { state, ..p });
    let after = move_deposit(e, p.deposit@, e.contract, p.proposer).emit(event);
    assert(p.valid(id));
    assert forall|asset: Address| #[trigger] all_deposits(t, asset) <= after.holds(asset) by {
        assert(all_deposits(s, asset) <= e.holds(asset));
        lemma_deposits_change(s, t, id, asset, s.proposal_count->0 as nat);
    }
}

/// Purging a proposal keeps the deposit of every other one covered.
pub proof fn purges_are_covered(s: ProposalView, e: EnvView, now: u64, id: u64)
    requires
        s.wf(),
        covered(s, e),
        s.cleanup_outcome(now, id) is Ok,
    ensures
        covered(s.purged(id), e.emit(Event::ProposalCleaned { id })),
{
    broadcast use lemma_holds;

    let p = s.proposals[id];
    let t = s.purged(id);
    let after = e.emit(Event::ProposalCleaned { id });
    assert(p.valid(id));
    assert forall|asset: Address| #[trigger] all_deposits(t, asset) <= after.holds(asset) by {
        assert(all_deposits(s, asset) <= e.holds(asset));
        lemma_deposits_change(s, t, id, asset, s.proposal_count->0 as nat);
    }
}

/// A proposal is accepted exactly where it names an organization, one to
/// thirty-two approvers, a threshold among them, a positive deposit, if any, a
/// deadline to come, if any, and at most eight prerequisites, all of them earlier
/// proposals that exist. It gets the next number.
pub proof fn sound_proposals_are_accepted(
    s: ProposalView,
    now: u64,
    org: Seq<char>,
    approvers: Seq<Address>,
    dependencies: Seq<u64>,
    threshold: u32,
    deposit: Seq<AssetAmount>,
    expires_at: u64,
)
    requires
        s.wf(),
        s.proposal_count is Some,
        s.proposal_count->0 < u64::MAX,
    ensures
        ({
            let r = s.create_outcome(
                now,
                org,
                approvers,
                dependencies,
                threshold,
                deposit,
                expires_at,
            );
            &&& r is Ok <==> {
                &&& org.len() > 0
                &&& 1 <= threshold <= approvers.len() <= 32
                &&& deposit.len() > 0 ==> deposit[0].amount > 0
                &&& expires_at == 0 || now < expires_at
                &&& dependencies.len() <= 8
                &&& forall|i: int|
                    0 <= i < dependencies.len() ==> s.proposals.contains_key(
                        #[trigger] dependencies[i],
                    )
            }
            &&& r is Ok ==> r->Ok_0 == s.proposal_count->0 + 1
        }),
{
    let id = (s.proposal_count->0 + 1) as u64;
    let f = dependency_ok(s, id, dependencies);
    lemma_leading_all(f, dependencies.len());
    if forall|i: int| 0 <= i < dependencies.len() ==> s.proposals.contains_key(#[trigger] dependencies[i]) {
        assert forall|i: int| 0 <= i < dependencies.len() implies #[trigger] f(i) by {
            assert(s.proposals.contains_key(dependencies[i]));
        }
    }
    if forall|i: int| 0 <= i < dependencies.len() ==> #[trigger] f(i) {
        assert forall|i: int| 0 <= i < dependencies.len() implies s.proposals.contains_key(
            #[trigger] dependencies[i],
        ) by {
            assert(f(i));
        }
    }
}

/// A proposal keeps each of the prerequisites that it was given, once.
pub proof fn prerequisites_are_kept_once(given: Seq<u64>, id: u64)
    ensures
        distinct(given).no_duplicates(),
        distinct(given).contains(id) <==> given.contains(id),
        given.no_duplicates() ==> distinct(given) == given,
    decreases given.len(),
{
    lemma_distinct(given);
    if given.len() > 0 && given.no_duplicates() {
        let front = given.drop_last();
        assert(front.no_duplicates()) by {
            assert forall|i: int, j: int|
                0 <= i < front.len() && 0 <= j < front.len() && i != j implies front[i]
                != front[j] by {
                assert(given[i] != given[j]);
            }
        }
        prerequisites_are_kept_once(front, id);
        assert(!front.contains(given.last())) by {
            if front.contains(given.last()) {
                let i = choose|i: int| 0 <= i < front.len() && front[i] == given.last();
                assert(given[i] != given[given.len() - 1]);
            }
        }
        assert(distinct(given) =~= given);
    }
}

/// Each approver can approve a pending proposal once before it expires, and
/// nobody else can. That counts one more, and the proposal is approved as soon
/// as as many as its threshold have.
pub proof fn approvals_are_counted_one_by_one(
    s: ProposalView,
    now: u64,
    caller: Address,
    id: u64,
    other: (u64, Address),
)
    requires
        s.wf(),
        s.proposals.contains_key(id),
    ensures
        ({
            let p = s.proposals[id];
            let r = s.approve_outcome(now, caller, id);
            let t = s.approved(caller, id);
            &&& r is Ok <==> {
                &&& p.state == ProposalState::Pending
                &&& p.expires_at == 0 || now < p.expires_at
                &&& p.approvers@.contains(caller)
                &&& !s.approvals.contains_key((id, caller))
            }
            &&& r is Ok ==> {
                &&& r->Ok_0 == p.approvals + 1
                &&& t.proposals[id].approvals == p.approvals + 1
                &&& t.proposals[id].state == (if p.approvals + 1 >= p.threshold {
                    ProposalState::Approved
                } else {
                    ProposalState::Pending
                })
                &&& t.proposals[id].proposer == p.proposer && t.proposals[id].deposit == p.deposit
                &&& t.proposals[id].threshold == p.threshold && t.proposals[id].approvers
                    == p.approvers
                &&& t.proposals[id].dependencies == p.dependencies && t.proposals[id].expires_at
                    == p.expires_at
                &&& t.approvals.contains_key((id, caller))
                &&& other != (id, caller) ==> (t.approvals.contains_key(other)
                    <==> s.approvals.contains_key(other))
                &&& other.0 != id ==> (t.proposals.contains_key(other.0)
                    <==> s.proposals.contains_key(other.0)) && t.proposals[other.0]
                    == s.proposals[other.0]
            }
        }),
{
    let p = s.proposals[id];
    assert(p.valid(id));
}

/// Who may end a pending or approved proposal, and when: any approver rejects a
/// pending one; the proposer cancels an open one within the grace period; anyone
/// expires one whose deadline is over; the proposer executes an approved one in
/// time, once its prerequisites have executed, or marks it failed, and closes an
/// executed one.
pub proof fn proposals_end_as_documented(s: ProposalView, now: u64, caller: Address, id: u64)
    requires
        s.proposals.contains_key(id),
    ensures
        ({
            let p = s.proposals[id];
            let pending = p.state == ProposalState::Pending;
            let approved = p.state == ProposalState::Approved;
            let expired = p.expires_at != 0 && now >= p.expires_at;
            &&& s.reject_outcome(caller, id) is Ok <==> pending && p.approvers@.contains(caller)
            &&& s.cancel_outcome(now, caller, id) is Ok <==> (pending || approved || p.state
                == ProposalState::Created) && p.proposer == caller && (p.grace_period == 0 || now
                <= p.created_at + p.grace_period)
            &&& s.expire_outcome(now, id) is Ok <==> (pending || approved) && expired
            &&& s.execute_outcome(now, caller, id) is Ok <==> approved && !expired && p.proposer
                == caller && forall|i: int|
                #![trigger p.dependencies@[i]]
                0 <= i < p.dependencies@.len() ==> {
                    let q = p.dependencies@[i];
                    s.proposals.contains_key(q) && (s.proposals[q].state == ProposalState::Executed
                        || s.proposals[q].state == ProposalState::Closed)
                }
            &&& s.fail_outcome(caller, id) is Ok <==> approved && p.proposer == caller
            &&& s.close_outcome(caller, id) is Ok <==> p.state == ProposalState::Executed
                && p.proposer == caller
            &&& s.cleanup_outcome(now, id) is Ok <==> expired && p.state != ProposalState::Executed
                && p.state != ProposalState::Closed
        }),
{
    let p = s.proposals[id];
    let f = dependency_met(s, p.dependencies@);
    lemma_leading_all(f, p.dependencies@.len());
    if forall|i: int| 0 <= i < p.dependencies@.len() ==> #[trigger] f(i) {
        assert forall|i: int| #![trigger p.dependencies@[i]] 0 <= i < p.dependencies@.len() implies {
            let q = p.dependencies@[i];
            s.proposals.contains_key(q) && (s.proposals[q].state == ProposalState::Executed
                || s.proposals[q].state == ProposalState::Closed)
        } by {
            assert(f(i));
        }
    }
    if forall|i: int|
        #![trigger p.dependencies@[i]]
        0 <= i < p.dependencies@.len() ==> {
            let q = p.dependencies@[i];
            s.proposals.contains_key(q) && (s.proposals[q].state == ProposalState::Executed
                || s.proposals[q].state == ProposalState::Closed)
        } {
        assert forall|i: int| 0 <= i < p.dependencies@.len() implies #[trigger] f(i) by {
            let q = p.dependencies@[i];
            assert(s.proposals.contains_key(q));
        }
    }
}

/// A deposit moves as a whole, from one to the other, and where there is none
/// nothing moves.
pub proof fn deposits_move_as_a_whole(
    e: EnvView,
    deposit: Seq<AssetAmount>,
    from: Address,
    to: Address,
)
    ensures
        deposit.len() == 0 ==> move_deposit(e, deposit, from, to) == e,
        deposit.len() > 0 ==> move_deposit(e, deposit, from, to).log == e.log.push(
            Effect::Transfer { asset: deposit[0].asset, from, to, amount: deposit[0].amount },
        ),
{
}

/// Settling a proposal puts it into its final state, keeps everything else about
/// it, and sends its deposit from custody back to its proposer.
pub proof fn settling_returns_the_deposit(
    before: ProposalContract,
    after: ProposalContract,
    e0: EnvView,
    e1: EnvView,
    id: u64,
    state: ProposalState,
    event: Event,
    r: Result<(), Error>,
    other: u64,
)
    requires
        settles(before, after, e0, e1, id, state, event, r),
        r is Ok,
    ensures
        ({
            let p = before@.proposals[id];
            let q = after@.proposals[id];
            let n = e0.log.len() as int;
            &&& after@.proposals.contains_key(id)
            &&& q.state == state
            &&& q.proposer == p.proposer && q.deposit == p.deposit && q.approvals == p.approvals
            &&& q.dependencies == p.dependencies && q.approvers == p.approvers
            &&& other != id ==> (after@.proposals.contains_key(other)
                <==> before@.proposals.contains_key(other)) && after@.proposals[other]
                == before@.proposals[other]
            &&& after@.approvals == before@.approvals
            &&& p.deposit@.len() > 0 ==> e1.log.len() == n + 2 && e1.log[n] == (Effect::Transfer {
                asset: p.deposit@[0].asset,
                from: e0.contract,
                to: p.proposer,
                amount: p.deposit@[0].amount,
            })
            &&& p.deposit@.len() == 0 ==> e1.log.len() == n + 1
            &&& e1.log.last() == Effect::Publish(event)
        }),
{
}

} // verus!
