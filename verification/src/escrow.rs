//! # Escrow contract
//!
//! Temporary custody: `sender -> escrow -> (conditions) -> recipient`. The
//! contract never decides whether work was satisfactory: a designated arbiter
//! signs the release, and a deadline provides a default outcome. A single
//! agreement may hold several distinct assets at once.
//!
//! ```text
//! Funded --(arbiter, before the deadline and its grace)--> Released -> Closed
//! Funded --(signature override, before the deadline)-----> Released -> Closed
//! Funded --(after the deadline and its grace)------------> Refunded -> Closed
//!    \----(after the deadline, marker)-------> Expired --(refund)--> Refunded
//! ```
//!
//! `Expired` is a permissionless status marker; funds stay in custody until they
//! are returned to the sender, so no escrow can be closed with money still
//! locked.
//!
//! An escrow can instead release on a schedule (everything at a cliff, or
//! linearly over time), which the recipient draws from, or milestone by
//! milestone as the arbiter approves each.
//!
//! ## Signature-based release override
//!
//! An escrow may name a set of ed25519 public keys and a threshold. Anyone may
//! call [`EscrowContract::override_release`] with a nonce and signatures; the
//! escrow releases once enough of them verify against its keys. Every signature
//! covers a deterministic payload (the contract address, the network id, the
//! escrow id and the nonce) hashed with SHA-256. The escrow only accepts a
//! strictly greater nonce than the last one used, so that a captured signature
//! cannot be used a second time.
pub mod storage;

use crate::constants::{BPS_TOTAL, MAX_ESCROW_ASSETS, MAX_SIGNERS};
use crate::custody::lemma_holds;
use crate::encoding::{
    address_xdr, address_xdr_is_injective, be_bytes, be_bytes8_are_injective, bytes32,
    bytes32_are_injective, lemma_encoded_lengths, push_address_xdr, push_be, push_bytes32,
};
use crate::errors::Error;
use crate::events::{publish, transfer_executed, ContractEvent, Event};
use crate::host::{Effect, CallEnv, EnvView};
use crate::math::mul_div;
use crate::table::Table;
use crate::types::{Address, AssetAmount, Bytes32, Bytes64};
use crate::validation::{
    check, leading, lemma_leading_all, lemma_leading_stops, require_positive_amount,
};
use storage::{
    increment_count, load_escrow, store_escrow, Escrow, EscrowState, Milestone, MilestoneSet,
    MilestoneSpec, ReleaseSchedule, ReleaseType, Storage, StorageView,
};
use vstd::prelude::*;

verus! {

/// One signer's ed25519 signature over an override payload.
#[derive(Clone, Copy, Debug, PartialEq, Eq, Structural)]
pub struct OverrideSignature {
    pub public_key: Bytes32,
    pub signature: Bytes64,
}

/// The host environment of the Soroban SDK.
#[verifier::external_type_specification]
#[verifier::external_body]
pub struct ExHostEnv(soroban_sdk::Env);

/// The SHA-256 digest of a byte string.
pub uninterp spec fn sha256_digest(data: Seq<u8>) -> Bytes32;

/// Calls `Crypto::sha256` of the Soroban SDK. Claimed of it: the digest is a
/// function of the bytes alone.
#[verifier::external_body]
fn sha256(host: &soroban_sdk::Env, data: &Vec<u8>) -> (r: Bytes32)
    requires
        data@.len() <= u32::MAX,
    ensures
        r == sha256_digest(data@),
{
    let bytes = soroban_sdk::Bytes::from_slice(host, data.as_slice());
    let digest = host.crypto().sha256(&bytes).to_array();
    let (hi, lo) = digest.split_at(16);
    Bytes32 {
        hi: u128::from_be_bytes(hi.try_into().unwrap()),
        lo: u128::from_be_bytes(lo.try_into().unwrap()),
    }
}

// --- asset lists ---

/// An entry has a positive amount, and no later entry has its asset.
pub open spec fn entry_ok(assets: Seq<AssetAmount>) -> spec_fn(int) -> bool {
    |i: int|
        assets[i].amount > 0 && forall|j: int|
            i < j < assets.len() ==> #[trigger] assets[j].asset != assets[i].asset
}

/// A list of assets that an escrow may hold.
pub open spec fn assets_ok(assets: Seq<AssetAmount>) -> bool {
    &&& 0 < assets.len() <= MAX_ESCROW_ASSETS
    &&& forall|i: int| 0 <= i < assets.len() ==> #[trigger] assets[i].amount > 0
    &&& forall|i: int, j: int|
        0 <= i < j < assets.len() ==> #[trigger] assets[i].asset != #[trigger] assets[j].asset
}

/// Non-empty, within the size cap, every amount positive and no asset twice;
/// the first bad entry decides the error.
pub open spec fn assets_check(assets: Seq<AssetAmount>) -> Result<(), Error> {
    if assets.len() == 0 || assets.len() > MAX_ESCROW_ASSETS {
        Err(Error::InvalidInput)
    } else {
        let k = leading(entry_ok(assets), assets.len());
        if k == assets.len() {
            Ok(())
        } else if assets[k as int].amount <= 0 {
            Err(Error::InvalidAmount)
        } else {
            Err(Error::InvalidInput)
        }
    }
}

proof fn lemma_assets_ok(assets: Seq<AssetAmount>)
    ensures
        assets_check(assets) is Ok <==> assets_ok(assets),
{
    let f = entry_ok(assets);
    lemma_leading_all(f, assets.len());
    if assets_check(assets) is Ok {
        assert forall|i: int| 0 <= i < assets.len() implies #[trigger] assets[i].amount > 0 by {
            assert(f(i));
        }
        assert forall|i: int, j: int|
            0 <= i < j < assets.len() implies #[trigger] assets[i].asset
            != #[trigger] assets[j].asset by {
            assert(f(i));
        }
    }
    if assets_ok(assets) {
        assert forall|i: int| 0 <= i < assets.len() implies #[trigger] f(i) by {}
    }
}

/// Either no signers and a zero threshold (the override is off), or a bounded,
/// duplicate-free signer set and a threshold between one and its size.
pub open spec fn signers_check(signers: Seq<Bytes32>, threshold: u32) -> Result<(), Error> {
    if signers.len() == 0 {
        check(threshold == 0, Error::InvalidThreshold)
    } else if signers.len() > MAX_SIGNERS {
        Err(Error::TooManySigners)
    } else if threshold == 0 || threshold > signers.len() {
        Err(Error::InvalidThreshold)
    } else {
        check(signers.no_duplicates(), Error::InvalidInput)
    }
}

/// The environment after moving every listed amount.
pub open spec fn pay_all(
    e: EnvView,
    assets: Seq<AssetAmount>,
    from: Address,
    to: Address,
) -> EnvView
    decreases assets.len(),
{
    if assets.len() == 0 {
        e
    } else {
        pay_all(e, assets.drop_last(), from, to).transfer(
            assets.last().asset,
            from,
            to,
            assets.last().amount,
        )
    }
}

/// The environment after publishing one transfer event per listed amount.
pub open spec fn report_all(
    e: EnvView,
    assets: Seq<AssetAmount>,
    from: Address,
    to: Address,
) -> EnvView
    decreases assets.len(),
{
    if assets.len() == 0 {
        e
    } else {
        report_all(e, assets.drop_last(), from, to).emit(
            Event::TransferExecuted {
                from,
                to,
                asset: assets.last().asset,
                amount: assets.last().amount,
            },
        )
    }
}

fn transfer_all(env: &mut CallEnv, assets: &Vec<AssetAmount>, from: Address, to: Address)
    ensures
        final(env)@ == pay_all(old(env)@, assets@, from, to),
{
    let ghost start = env@;
    let mut i: usize = 0;
    assert(assets@.take(0) =~= Seq::<AssetAmount>::empty());
    while i < assets.len()
        invariant
            i <= assets@.len(),
            start == old(env)@,
            env@ == pay_all(start, assets@.take(i as int), from, to),
        decreases assets@.len() - i,
    {
        assert(assets@.take(i + 1).drop_last() =~= assets@.take(i as int));
        env.transfer(assets[i].asset, from, to, assets[i].amount);
        i = i + 1;
    }
    assert(assets@.take(i as int) =~= assets@);
}

fn publish_transfers(env: &mut CallEnv, assets: &Vec<AssetAmount>, from: Address, to: Address)
    ensures
        final(env)@ == report_all(old(env)@, assets@, from, to),
{
    let ghost start = env@;
    let mut i: usize = 0;
    assert(assets@.take(0) =~= Seq::<AssetAmount>::empty());
    while i < assets.len()
        invariant
            i <= assets@.len(),
            start == old(env)@,
            env@ == report_all(start, assets@.take(i as int), from, to),
        decreases assets@.len() - i,
    {
        assert(assets@.take(i + 1).drop_last() =~= assets@.take(i as int));
        transfer_executed(env, &from, &to, &assets[i].asset, assets[i].amount);
        i = i + 1;
    }
    assert(assets@.take(i as int) =~= assets@);
}

fn copy_assets(assets: &Vec<AssetAmount>) -> (r: Vec<AssetAmount>)
    ensures
        r@ == assets@,
{
    let r = assets.clone();
    assert(r@ =~= assets@);
    r
}

// --- schedules ---

/// A schedule whose times are in order.
pub open spec fn schedule_ok(s: ReleaseSchedule) -> bool {
    s.release_type == ReleaseType::Unscheduled || (s.start_time <= s.cliff_time <= s.end_time
        && s.start_time < s.end_time)
}

/// How much of an amount a schedule has unlocked at a time.
pub open spec fn vested(s: ReleaseSchedule, amount: int, now: u64) -> int {
    match s.release_type {
        ReleaseType::Unscheduled => 0,
        ReleaseType::Cliff => if now >= s.cliff_time {
            amount
        } else {
            0
        },
        ReleaseType::Linear => if now < s.cliff_time {
            0
        } else if now >= s.end_time {
            amount
        } else {
            amount * (now - s.start_time) / (s.end_time - s.start_time)
        },
    }
}

impl Escrow {
    /// The escrow releases on a schedule.
    pub open spec fn scheduled(self) -> bool {
        self.schedule.release_type != ReleaseType::Unscheduled
    }

    /// The contract holds this escrow's assets.
    pub open spec fn in_custody(self) -> bool {
        self.state == EscrowState::Funded || self.state == EscrowState::Expired
    }

    /// What the contract still holds for this escrow.
    pub open spec fn held(self) -> Seq<AssetAmount> {
        if self.in_custody() {
            self.assets@.update(
                0,
                AssetAmount {
                    asset: self.assets@[0].asset,
                    amount: (self.funded_amount - self.released_amount) as i128,
                },
            )
        } else {
            Seq::empty()
        }
    }

    /// What the schedule has unlocked at a time.
    pub open spec fn vested_at(self, now: u64) -> int {
        vested(self.schedule, self.funded_amount as int, now)
    }

    /// What the recipient can draw at a time.
    pub open spec fn claimable_at(self, now: u64) -> int {
        if self.state == EscrowState::Funded && self.vested_at(now) > self.released_amount {
            self.vested_at(now) - self.released_amount
        } else {
            0
        }
    }

    /// The record is consistent.
    pub open spec fn valid(self) -> bool {
        &&& self.sender != self.recipient
        &&& assets_ok(self.assets@)
        &&& signers_check(self.override_signers@, self.override_threshold) is Ok
        &&& schedule_ok(self.schedule)
        &&& self.scheduled() ==> self.override_signers@.len() == 0
        &&& 0 <= self.released_amount <= self.funded_amount
        &&& self.funded_amount == 0 || self.funded_amount == self.assets@[0].amount
        &&& self.in_custody() ==> self.funded_amount == self.assets@[0].amount
        &&& self.state == EscrowState::Created ==> self.funded_amount == 0 && self.scheduled()
        &&& self.state == EscrowState::Released ==> self.released_amount == self.funded_amount
            == self.assets@[0].amount
    }
}

// --- milestones ---

/// The share of an amount that a number of basis points stands for.
pub open spec fn share(amount: int, bps: u32) -> int {
    amount * bps / (BPS_TOTAL as int)
}

/// The basis points of all milestones.
pub open spec fn bps_sum(ms: Seq<Milestone>) -> int
    decreases ms.len(),
{
    if ms.len() == 0 {
        0
    } else {
        bps_sum(ms.drop_last()) + ms.last().release_bps
    }
}

/// The basis points of the released milestones.
pub open spec fn bps_released(ms: Seq<Milestone>) -> int
    decreases ms.len(),
{
    if ms.len() == 0 {
        0
    } else {
        bps_released(ms.drop_last()) + if ms.last().released {
            ms.last().release_bps as int
        } else {
            0
        }
    }
}

/// The shares of the released milestones.
pub open spec fn paid(ms: Seq<Milestone>, amount: int) -> int
    decreases ms.len(),
{
    if ms.len() == 0 {
        0
    } else {
        paid(ms.drop_last(), amount) + if ms.last().released {
            share(amount, ms.last().release_bps)
        } else {
            0
        }
    }
}

/// Every milestone but one at an index is released.
pub open spec fn others_released(ms: Seq<Milestone>, i: int) -> bool {
    forall|j: int| 0 <= j < ms.len() && j != i ==> #[trigger] ms[j].released
}

/// Milestones that fit their escrow.
pub open spec fn milestones_ok(e: Escrow, set: MilestoneSet) -> bool {
    &&& !e.scheduled()
    &&& e.override_signers@.len() == 0
    &&& e.assets@.len() == 1
    &&& bps_sum(set.milestones@) == BPS_TOTAL
    &&& set.released_amount == e.released_amount
    &&& e.in_custody() ==> e.released_amount == paid(set.milestones@, e.funded_amount as int)
}

proof fn lemma_share(amount: int, bps: u32)
    requires
        amount >= 0,
    ensures
        share(amount, bps) >= 0,
        share(amount, bps) * BPS_TOTAL <= amount * bps,
{
    assert(amount * bps >= 0) by (nonlinear_arith)
        requires
            amount >= 0,
    ;
    vstd::arithmetic::div_mod::lemma_fundamental_div_mod(amount * bps, BPS_TOTAL as int);
}

/// Rounding down, the released shares never exceed the released fraction.
proof fn lemma_paid_bound(ms: Seq<Milestone>, amount: int)
    requires
        amount >= 0,
    ensures
        0 <= paid(ms, amount),
        paid(ms, amount) * BPS_TOTAL <= amount * bps_released(ms),
        0 <= bps_released(ms) <= bps_sum(ms),
    decreases ms.len(),
{
    if ms.len() > 0 {
        let front = ms.drop_last();
        let last = ms.last();
        lemma_paid_bound(front, amount);
        lemma_share(amount, last.release_bps);
        if last.released {
            assert(amount * (bps_released(front) + last.release_bps) == amount * bps_released(front)
                + amount * last.release_bps) by (nonlinear_arith);
        }
    }
}

/// The released shares never exceed the whole amount.
proof fn lemma_paid_at_most(ms: Seq<Milestone>, amount: int)
    requires
        amount >= 0,
        bps_sum(ms) == BPS_TOTAL,
    ensures
        0 <= paid(ms, amount) <= amount,
{
    lemma_paid_bound(ms, amount);
    assert(amount * bps_released(ms) <= amount * BPS_TOTAL) by (nonlinear_arith)
        requires
            amount >= 0,
            bps_released(ms) <= BPS_TOTAL,
    ;
}

/// Releasing one more milestone adds its share.
proof fn lemma_paid_update(ms: Seq<Milestone>, i: int, amount: int)
    requires
        0 <= i < ms.len(),
        !ms[i].released,
    ensures
        ({
            let after = ms.update(i, Milestone { released: true, ..ms[i] });
            &&& paid(after, amount) == paid(ms, amount) + share(amount, ms[i].release_bps)
            &&& bps_sum(after) == bps_sum(ms)
        }),
    decreases ms.len(),
{
    let after = ms.update(i, Milestone { released: true, ..ms[i] });
    let front = ms.drop_last();
    if i == ms.len() - 1 {
        assert(after.drop_last() =~= front);
    } else {
        lemma_paid_update(front, i, amount);
        assert(after.drop_last() =~= front.update(i, Milestone { released: true, ..front[i] }));
        assert(after.last() == ms.last());
    }
}

impl StorageView {
    /// Every record is consistent, ids are numbered from one, and an escrow
    /// without schedule or milestones has released nothing while it is funded.
    pub open spec fn wf(self) -> bool {
        &&& forall|id: u64| #[trigger]
            self.escrows.contains_key(id) ==> self.escrows[id].valid() && 1 <= id <= self.total()
        &&& forall|id: u64| #[trigger]
            self.milestones.contains_key(id) ==> self.escrows.contains_key(id) && milestones_ok(
                self.escrows[id],
                self.milestones[id],
            )
        &&& forall|id: u64| #[trigger]
            self.escrows.contains_key(id) && self.escrows[id].in_custody()
                && !self.escrows[id].scheduled() && !self.milestones.contains_key(id)
                ==> self.escrows[id].released_amount == 0
    }
}

/// The escrow contract.
pub struct EscrowContract {
    pub storage: Storage,
}

impl View for EscrowContract {
    type V = StorageView;

    open spec fn view(&self) -> StorageView {
        self.storage@
    }
}

/// The checks that every new agreement passes first.
pub open spec fn terms_check(
    now: u64,
    sender: Address,
    recipient: Address,
    assets: Seq<AssetAmount>,
    deadline: u64,
) -> Result<(), Error> {
    if recipient == sender || deadline <= now {
        Err(Error::InvalidInput)
    } else {
        assets_check(assets)
    }
}

/// The schedule of an agreement that unlocks everything at a time.
pub open spec fn cliff_schedule(now: u64, unlock_time: u64) -> ReleaseSchedule {
    ReleaseSchedule {
        release_type: ReleaseType::Cliff,
        start_time: now,
        cliff_time: unlock_time,
        end_time: unlock_time,
    }
}

/// A schedule that an agreement may be created with.
pub open spec fn schedule_check(s: ReleaseSchedule, deadline: u64) -> Result<(), Error> {
    check(
        s.release_type != ReleaseType::Unscheduled && schedule_ok(s) && deadline >= s.end_time,
        Error::InvalidInput,
    )
}

/// The record of a new agreement.
pub open spec fn is_new_escrow(
    e: Escrow,
    sender: Address,
    recipient: Address,
    arbiter: Address,
    assets: Seq<AssetAmount>,
    funded: bool,
    deadline: u64,
    grace_period: u64,
    memo: Seq<char>,
    schedule: ReleaseSchedule,
    signers: Seq<Bytes32>,
    threshold: u32,
) -> bool {
    &&& e.sender == sender
    &&& e.recipient == recipient
    &&& e.arbiter == arbiter
    &&& e.assets@ == assets
    &&& e.state == (if funded {
        EscrowState::Funded
    } else {
        EscrowState::Created
    })
    &&& e.deadline == deadline
    &&& e.grace_period == grace_period
    &&& e.funded_amount == (if funded {
        assets[0].amount
    } else {
        0
    })
    &&& e.memo@ == memo
    &&& e.schedule == schedule
    &&& e.released_amount == 0
    &&& e.override_signers@ == signers
    &&& e.override_threshold == threshold
    &&& e.override_nonce == 0
}

/// The environment after an escrow's assets were taken into custody.
pub open spec fn is_funding(
    e0: EnvView,
    e1: EnvView,
    id: u64,
    sender: Address,
    recipient: Address,
    assets: Seq<AssetAmount>,
) -> bool {
    exists|listed: Vec<AssetAmount>|
        {
            &&& #[trigger] listed@ == assets
            &&& e1 == pay_all(e0.auth(sender), assets, sender, e0.contract).emit(
                Event::EscrowFunded { id, sender, recipient, assets: listed },
            )
        }
}

impl StorageView {
    /// What creating an agreement returns: its id, unless some check fails.
    pub open spec fn create_outcome(self, terms: Result<(), Error>, rest: Result<(), Error>) -> Result<
        u64,
        Error,
    > {
        if terms is Err {
            Err(terms->Err_0)
        } else if rest is Err {
            Err(rest->Err_0)
        } else if self.total() == u64::MAX {
            Err(Error::Overflow)
        } else {
            Ok((self.total() + 1) as u64)
        }
    }

    /// The state after an agreement was stored.
    pub open spec fn with_new(self, id: u64, e: Escrow) -> StorageView {
        StorageView { count: Some(id), escrows: self.escrows.insert(id, e), ..self }
    }

    /// The state after an escrow's record changed.
    pub open spec fn with_escrow(self, id: u64, e: Escrow) -> StorageView {
        StorageView { escrows: self.escrows.insert(id, e), ..self }
    }

    /// What drawing from a schedule requires of the caller and the escrow.
    pub open spec fn draw_check(self, now: u64, caller: Address, id: u64) -> Result<(), Error> {
        if !self.escrows.contains_key(id) {
            Err(Error::NotFound)
        } else if self.escrows[id].recipient != caller {
            Err(Error::Unauthorized)
        } else if self.escrows[id].state != EscrowState::Funded || !self.escrows[id].scheduled() {
            Err(Error::InvalidState)
        } else {
            check(self.escrows[id].claimable_at(now) > 0, Error::TimeLockActive)
        }
    }

    /// What claiming returns: everything that can be drawn.
    pub open spec fn claim_outcome(self, now: u64, caller: Address, id: u64) -> Result<
        i128,
        Error,
    > {
        if self.draw_check(now, caller, id) is Err {
            Err(self.draw_check(now, caller, id)->Err_0)
        } else {
            Ok(self.escrows[id].claimable_at(now) as i128)
        }
    }

    /// What withdrawing returns: how much has been released in total.
    pub open spec fn withdraw_outcome(
        self,
        now: u64,
        caller: Address,
        id: u64,
        amount: i128,
    ) -> Result<i128, Error> {
        if amount <= 0 {
            Err(Error::InvalidAmount)
        } else if self.draw_check(now, caller, id) is Err {
            Err(self.draw_check(now, caller, id)->Err_0)
        } else if amount > self.escrows[id].claimable_at(now) {
            Err(Error::InsufficientFunds)
        } else {
            Ok((self.escrows[id].released_amount + amount) as i128)
        }
    }

    /// What the arbiter's release returns. `amount` restates the primary
    /// asset's amount.
    pub open spec fn release_outcome(
        self,
        now: u64,
        arbiter: Address,
        id: u64,
        amount: i128,
    ) -> Result<(), Error> {
        if !self.escrows.contains_key(id) {
            Err(Error::NotFound)
        } else if self.escrows[id].arbiter != arbiter {
            Err(Error::Unauthorized)
        } else if self.milestones.contains_key(id) || self.escrows[id].scheduled()
            || self.escrows[id].state != EscrowState::Funded {
            Err(Error::InvalidState)
        } else if now >= self.escrows[id].deadline + self.escrows[id].grace_period {
            Err(Error::EscrowExpired)
        } else {
            check(
                amount == self.escrows[id].funded_amount - self.escrows[id].released_amount,
                Error::InvalidAmount,
            )
        }
    }

    /// The checks on an override release that come before any signature is
    /// looked at.
    pub open spec fn override_check(self, now: u64, id: u64, nonce: u64, signatures: nat) -> Result<
        (),
        Error,
    > {
        if !self.escrows.contains_key(id) {
            Err(Error::NotFound)
        } else {
            let e = self.escrows[id];
            if e.override_signers@.len() == 0 || e.override_threshold == 0 {
                Err(Error::Unauthorized)
            } else if e.state != EscrowState::Funded {
                Err(Error::InvalidState)
            } else if now >= e.deadline {
                Err(Error::EscrowExpired)
            } else if nonce <= e.override_nonce {
                Err(Error::InvalidNonce)
            } else {
                check(signatures >= e.override_threshold, Error::ThresholdNotMet)
            }
        }
    }

    /// What an override release returns, its signatures verifying: the first
    /// signature by an unknown or repeated key decides the error.
    pub open spec fn override_outcome(
        self,
        now: u64,
        id: u64,
        nonce: u64,
        signatures: Seq<OverrideSignature>,
    ) -> Result<(), Error> {
        if self.override_check(now, id, nonce, signatures.len()) is Err {
            self.override_check(now, id, nonce, signatures.len())
        } else {
            let signers = self.escrows[id].override_signers@;
            let k = leading(key_ok(signers, signatures), signatures.len());
            if k == signatures.len() {
                Ok(())
            } else if !signers.contains(signatures[k as int].public_key) {
                Err(Error::NotASigner)
            } else {
                Err(Error::AlreadySigned)
            }
        }
    }

    /// When the assets of an escrow may go back to its sender.
    pub open spec fn return_check(self, now: u64, id: u64) -> Result<(), Error> {
        let e = self.escrows[id];
        if !e.in_custody() || e.scheduled() || now < e.deadline {
            Err(Error::InvalidState)
        } else {
            check(now >= e.deadline + e.grace_period, Error::GraceActive)
        }
    }

    /// What marking an escrow expired returns.
    pub open spec fn expire_outcome(self, now: u64, id: u64) -> Result<(), Error> {
        if !self.escrows.contains_key(id) {
            Err(Error::NotFound)
        } else if self.escrows[id].state == EscrowState::Expired {
            Err(Error::InvalidState)
        } else {
            self.return_check(now, id)
        }
    }

    /// What refunding an escrow returns.
    pub open spec fn refund_outcome(self, now: u64, id: u64) -> Result<(), Error> {
        if !self.escrows.contains_key(id) {
            Err(Error::NotFound)
        } else {
            self.return_check(now, id)
        }
    }

    /// What the sender's reclaim returns.
    pub open spec fn reclaim_outcome(self, now: u64, caller: Address, id: u64) -> Result<
        (),
        Error,
    > {
        if !self.escrows.contains_key(id) {
            Err(Error::NotFound)
        } else if self.escrows[id].sender != caller {
            Err(Error::Unauthorized)
        } else {
            self.return_check(now, id)
        }
    }

    /// What refunding a time-locked escrow returns.
    pub open spec fn refund_timelock_outcome(self, now: u64, caller: Address, id: u64) -> Result<
        (),
        Error,
    > {
        if !self.escrows.contains_key(id) {
            Err(Error::NotFound)
        } else {
            let e = self.escrows[id];
            if e.sender != caller {
                Err(Error::Unauthorized)
            } else if !e.scheduled() || (e.state != EscrowState::Created && e.state
                != EscrowState::Funded) {
                Err(Error::InvalidState)
            } else if now < e.deadline {
                Err(Error::TimeLockActive)
            } else {
                check(now >= e.deadline + e.grace_period, Error::GraceActive)
            }
        }
    }

    /// What cancelling returns: the state that the escrow ends in. An escrow
    /// with a grace period may be cancelled by its sender or arbiter up to its
    /// deadline; one without may be clawed back by its sender from its deadline
    /// on.
    pub open spec fn cancel_outcome(self, now: u64, caller: Address, id: u64) -> Result<
        EscrowState,
        Error,
    > {
        if !self.escrows.contains_key(id) {
            Err(Error::NotFound)
        } else {
            let e = self.escrows[id];
            if e.grace_period != 0 {
                if caller != e.sender && caller != e.arbiter {
                    Err(Error::Unauthorized)
                } else if e.scheduled() || e.state != EscrowState::Funded || now >= e.deadline {
                    Err(Error::InvalidState)
                } else {
                    Ok(EscrowState::Refunded)
                }
            } else {
                if caller != e.sender {
                    Err(Error::Unauthorized)
                } else if e.scheduled() || !e.in_custody() || now < e.deadline {
                    Err(Error::InvalidCondition)
                } else {
                    Ok(EscrowState::Cancelled)
                }
            }
        }
    }

    /// What releasing a milestone returns.
    pub open spec fn release_milestone_outcome(
        self,
        now: u64,
        arbiter: Address,
        id: u64,
        index: u32,
    ) -> Result<(), Error> {
        if !self.escrows.contains_key(id) {
            Err(Error::NotFound)
        } else if self.escrows[id].arbiter != arbiter {
            Err(Error::Unauthorized)
        } else if !self.milestones.contains_key(id) {
            Err(Error::NotFound)
        } else if self.escrows[id].state != EscrowState::Funded {
            Err(Error::InvalidState)
        } else if now >= self.escrows[id].deadline + self.escrows[id].grace_period {
            Err(Error::EscrowExpired)
        } else if index >= self.milestones[id].milestones@.len() {
            Err(Error::InvalidInput)
        } else {
            check(!self.milestones[id].milestones@[index as int].released, Error::InvalidState)
        }
    }

    /// What releasing a milestone pays: its share, or with the last open
    /// milestone all that is left.
    pub open spec fn milestone_payment(self, id: u64, index: u32) -> int {
        let e = self.escrows[id];
        let ms = self.milestones[id].milestones@;
        if others_released(ms, index as int) {
            e.funded_amount - e.released_amount
        } else {
            share(e.funded_amount as int, ms[index as int].release_bps)
        }
    }

    /// The record of an escrow after one of its milestones was released.
    pub open spec fn milestone_record(self, id: u64, index: u32) -> Escrow {
        let e = self.escrows[id];
        Escrow {
            released_amount: (e.released_amount + self.milestone_payment(id, index)) as i128,
            state: if others_released(self.milestones[id].milestones@, index as int) {
                EscrowState::Released
            } else {
                EscrowState::Funded
            },
            ..e
        }
    }

    /// What closing an escrow returns.
    pub open spec fn close_outcome(self, caller: Address, id: u64) -> Result<(), Error> {
        if !self.escrows.contains_key(id) {
            Err(Error::NotFound)
        } else {
            let e = self.escrows[id];
            if e.state != EscrowState::Released && e.state != EscrowState::Refunded && e.state
                != EscrowState::Cancelled {
                Err(Error::InvalidState)
            } else {
                check(
                    caller == e.sender || caller == e.recipient || caller == e.arbiter,
                    Error::Unauthorized,
                )
            }
        }
    }

    /// What funding an agreement returns.
    pub open spec fn fund_outcome(self, caller: Address, id: u64) -> Result<(), Error> {
        if !self.escrows.contains_key(id) {
            Err(Error::NotFound)
        } else if self.escrows[id].sender != caller {
            Err(Error::Unauthorized)
        } else {
            check(self.escrows[id].state == EscrowState::Created, Error::InvalidState)
        }
    }
}

/// A signature is by one of the signers, and none before it by the same one.
pub open spec fn key_ok(signers: Seq<Bytes32>, signatures: Seq<OverrideSignature>) -> spec_fn(
    int,
) -> bool {
    |i: int|
        signers.contains(signatures[i].public_key) && forall|j: int|
            0 <= j < i ==> #[trigger] signatures[j].public_key != signatures[i].public_key
}

/// The environment after having the host verify signatures of a message.
pub open spec fn verify_all(
    e: EnvView,
    signatures: Seq<OverrideSignature>,
    message: Bytes32,
) -> EnvView
    decreases signatures.len(),
{
    if signatures.len() == 0 {
        e
    } else {
        verify_all(e, signatures.drop_last(), message).with(
            Effect::VerifySignature {
                public_key: signatures.last().public_key,
                message,
                signature: signatures.last().signature,
            },
        )
    }
}

/// What an override release over a digest does: nothing before the signatures
/// are looked at; verifications up to the first unacceptable key; or every
/// verification and the release.
pub open spec fn is_override(
    before: StorageView,
    after: StorageView,
    e0: EnvView,
    e1: EnvView,
    id: u64,
    nonce: u64,
    digest: Bytes32,
    signatures: Seq<OverrideSignature>,
) -> bool {
    let e = before.escrows[id];
    if before.override_check(e0.timestamp, id, nonce, signatures.len()) is Err {
        e1 == e0
    } else if before.override_outcome(e0.timestamp, id, nonce, signatures) is Err {
        let k = leading(key_ok(e.override_signers@, signatures), signatures.len());
        e1 == verify_all(e0, signatures.take(k as int), digest)
    } else {
        &&& after == before.with_escrow(
            id,
            Escrow {
                state: EscrowState::Released,
                released_amount: e.funded_amount,
                override_nonce: nonce,
                ..e
            },
        )
        &&& is_release(
            verify_all(e0, signatures, digest),
            e1,
            id,
            e,
            Event::EscrowOverridden { id, nonce },
        )
    }
}

/// The payload that override signers sign: the contract address, the network
/// id, the escrow id and the nonce.
pub open spec fn payload(contract: Address, network_id: Bytes32, id: u64, nonce: u64) -> Seq<u8> {
    address_xdr(contract) + bytes32(network_id) + be_bytes(id as nat, 8) + be_bytes(
        nonce as nat,
        8,
    )
}

/// What drawing an amount pays out: of the primary asset, and with its last
/// bit everything else.
pub open spec fn drawn(e: Escrow, amount: int) -> Seq<AssetAmount> {
    let first = seq![AssetAmount { asset: e.assets@[0].asset, amount: amount as i128 }];
    if e.released_amount + amount == e.funded_amount {
        first + e.assets@.skip(1)
    } else {
        first
    }
}

/// The record after drawing an amount.
pub open spec fn after_draw(e: Escrow, amount: int) -> Escrow {
    Escrow {
        released_amount: (e.released_amount + amount) as i128,
        state: if e.released_amount + amount == e.funded_amount {
            EscrowState::Released
        } else {
            e.state
        },
        ..e
    }
}

/// The environment after paying a list of amounts to the recipient.
pub open spec fn paid_out(e0: EnvView, e: Escrow, amounts: Seq<AssetAmount>) -> EnvView {
    report_all(
        pay_all(e0, amounts, e0.contract, e.recipient),
        amounts,
        e.sender,
        e.recipient,
    )
}

/// The environment after what an escrow holds went back to its sender.
pub open spec fn returned_env(e0: EnvView, e: Escrow, event: Event) -> EnvView {
    pay_all(e0, e.held(), e0.contract, e.sender).emit(event)
}

/// The environment after a full release, whose last event is given.
pub open spec fn is_release(e0: EnvView, e1: EnvView, id: u64, e: Escrow, last: Event) -> bool {
    exists|listed: Vec<AssetAmount>|
        {
            &&& #[trigger] listed@ == e.assets@
            &&& e1 == paid_out(e0, e, e.held()).emit(
                Event::Contract(
                    ContractEvent::EscrowReleased {
                        escrow_id: id,
                        recipient: e.recipient,
                        assets: listed,
                    },
                ),
            ).emit(last)
        }
}

impl EscrowContract {
    /// A contract with empty storage.
    pub fn new() -> (r: Self)
        ensures
            r@ == (StorageView { count: None, escrows: Map::empty(), milestones: Map::empty() }),
            r@.wf(),
    {
        EscrowContract {
            storage: Storage {
                count: None,
                escrows: Table::new(),
                milestones: Table::new(),
            },
        }
    }

    /// Sets the contract up, once.
    pub fn initialize(&mut self) -> (r: Result<(), Error>)
        ensures
            r == check(old(self)@.count is None, Error::AlreadyInitialized),
            r is Err ==> *final(self) == *old(self),
            r is Ok ==> final(self)@ == (StorageView { count: Some(0u64), ..old(self)@ }),
            old(self)@.wf() ==> final(self)@.wf(),
    {
        if self.storage.count.is_some() {
            return Err(Error::AlreadyInitialized);
        }
        self.storage.count = Some(0);
        Ok(())
    }

    /// Validate a multi-asset list: non-empty, within the size cap, every
    /// amount strictly positive, and no asset listed more than once.
    fn validate_assets(assets: &Vec<AssetAmount>) -> (r: Result<(), Error>)
        ensures
            r == assets_check(assets@),
    {
        let n: usize = assets.len();
        if n == 0 || n > MAX_ESCROW_ASSETS as usize {
            return Err(Error::InvalidInput);
        }
        let ghost f = entry_ok(assets@);
        let mut i: usize = 0;
        while i < n
            invariant
                i <= n,
                n == assets@.len(),
                0 < n <= MAX_ESCROW_ASSETS,
                f == entry_ok(assets@),
                leading(f, i as nat) == i,
            decreases n - i,
        {
            if let Err(e) = require_positive_amount(assets[i].amount) {
                proof {
                    assert(!f(i as int));
                    lemma_leading_stops(f, i as nat, n as nat);
                }
                return Err(e);
            }
            let mut j: usize = i + 1;
            while j < n
                invariant
                    i < j <= n,
                    n == assets@.len(),
                    0 < n <= MAX_ESCROW_ASSETS,
                    f == entry_ok(assets@),
                    leading(f, i as nat) == i,
                    assets@[i as int].amount > 0,
                    forall|k: int|
                        i < k < j ==> #[trigger] assets@[k].asset != assets@[i as int].asset,
                decreases n - j,
            {
                if assets[j].asset == assets[i].asset {
                    proof {
                        assert(!f(i as int));
                        lemma_leading_stops(f, i as nat, n as nat);
                    }
                    return Err(Error::InvalidInput);
                }
                j = j + 1;
            }
            assert(f(i as int));
            i = i + 1;
        }
        Ok(())
    }

    /// Validate an override signer set and threshold: either both empty and
    /// zero (override disabled), or a non-empty, size-capped, duplicate-free
    /// signer set with a threshold in `[1, signers.len()]`.
    fn validate_override_config(signers: &Vec<Bytes32>, threshold: u32) -> (r: Result<(), Error>)
        ensures
            r == signers_check(signers@, threshold),
    {
        let n: usize = signers.len();
        if n == 0 {
            if threshold != 0 {
                return Err(Error::InvalidThreshold);
            }
            return Ok(());
        }
        if n > MAX_SIGNERS as usize {
            return Err(Error::TooManySigners);
        }
        if threshold == 0 || threshold as usize > n {
            return Err(Error::InvalidThreshold);
        }
        let mut i: usize = 0;
        while i < n
            invariant
                i <= n,
                n == signers@.len(),
                0 < n <= MAX_SIGNERS,
                0 < threshold <= n,
                forall|a: int, b: int| 0 <= a < i && a < b < n ==> signers@[a] != signers@[b],
            decreases n - i,
        {
            let mut j: usize = i + 1;
            while j < n
                invariant
                    i < j <= n,
                    n == signers@.len(),
                    0 < n <= MAX_SIGNERS,
                    0 < threshold <= n,
                    forall|b: int| i < b < j ==> signers@[i as int] != signers@[b],
                decreases n - j,
            {
                if signers[j] == signers[i] {
                    return Err(Error::InvalidInput);
                }
                j = j + 1;
            }
            i = i + 1;
        }
        Ok(())
    }

    fn validate_terms(
        env: &CallEnv,
        sender: &Address,
        recipient: &Address,
        assets: &Vec<AssetAmount>,
        deadline: u64,
    ) -> (r: Result<(), Error>)
        ensures
            r == terms_check(env@.timestamp, *sender, *recipient, assets@, deadline),
    {
        if *recipient == *sender {
            return Err(Error::InvalidInput);
        }
        // A live release window is required: a past deadline would make the
        // escrow un-releasable and instantly refundable.
        if deadline <= env.timestamp {
            return Err(Error::InvalidInput);
        }
        Self::validate_assets(assets)
    }

    /// Stores a funded agreement and takes its assets into custody.
    fn open_funded(&mut self, env: &mut CallEnv, escrow: Escrow) -> (r: Result<u64, Error>)
        requires
            old(self)@.wf(),
            escrow.valid(),
            escrow.state == EscrowState::Funded,
            escrow.released_amount == 0,
        ensures
            final(self)@.wf(),
            match r {
                Err(e) => e == Error::Overflow && old(self)@.total() == u64::MAX && *final(self)
                    == *old(self) && *final(env) == *old(env),
                Ok(id) => {
                    &&& old(self)@.total() < u64::MAX
                    &&& id == old(self)@.total() + 1
                    &&& final(self)@ == old(self)@.with_new(id, escrow)
                    &&& exists|listed: Vec<AssetAmount>|
                        {
                            &&& #[trigger] listed@ == escrow.assets@
                            &&& final(env)@ == pay_all(
                                old(env)@,
                                escrow.assets@,
                                escrow.sender,
                                old(env)@.contract,
                            ).emit(
                                Event::EscrowFunded {
                                    id,
                                    sender: escrow.sender,
                                    recipient: escrow.recipient,
                                    assets: listed,
                                },
                            )
                        }
                },
            },
    {
        let id: u64 = increment_count(&mut self.storage)?;
        let custody = env.contract;
        transfer_all(env, &escrow.assets, escrow.sender, custody);
        let listed = copy_assets(&escrow.assets);
        let (sender, recipient) = (escrow.sender, escrow.recipient);
        store_escrow(&mut self.storage, id, escrow);
        env.publish(Event::EscrowFunded { id, sender, recipient, assets: listed });
        proof {
            assert(listed@ == escrow.assets@);
        }
        Ok(id)
    }

    /// Create and fund an escrow in one call. `sender` locks every listed asset
    /// amount until `deadline` and names a `recipient` and an `arbiter`; the
    /// tokens are moved into the contract's custody here. `grace_period` is the
    /// extra time after the deadline in which the arbiter may still release.
    ///
    /// `release_signers` and `release_threshold` optionally configure the manual
    /// signature override; pass an empty list and a zero threshold to disable it.
    pub fn create(
        &mut self,
        env: &mut CallEnv,
        sender: Address,
        recipient: Address,
        arbiter: Address,
        assets: Vec<AssetAmount>,
        deadline: u64,
        grace_period: u64,
        memo: String,
        release_signers: Vec<Bytes32>,
        release_threshold: u32,
    ) -> (r: Result<u64, Error>)
        requires
            old(self)@.wf(),
        ensures
            final(self)@.wf(),
            r == old(self)@.create_outcome(
                terms_check(old(env)@.timestamp, sender, recipient, assets@, deadline),
                signers_check(release_signers@, release_threshold),
            ),
            r is Err ==> *final(self) == *old(self) && final(env)@ == old(env)@.auth(sender),
            r is Ok ==> {
                let e = final(self)@.escrows[r->Ok_0];
                &&& final(self)@ == old(self)@.with_new(r->Ok_0, e)
                &&& is_new_escrow(
                    e,
                    sender,
                    recipient,
                    arbiter,
                    assets@,
                    true,
                    deadline,
                    grace_period,
                    memo@,
                    unscheduled(),
                    release_signers@,
                    release_threshold,
                )
                &&& is_funding(old(env)@, final(env)@, r->Ok_0, sender, recipient, assets@)
            },
    {
        env.require_auth(sender);
        Self::validate_terms(env, &sender, &recipient, &assets, deadline)?;
        Self::validate_override_config(&release_signers, release_threshold)?;
        proof {
            lemma_assets_ok(assets@);
        }
        let funded_amount: i128 = assets[0].amount;
        let escrow = Escrow {
            sender,
            recipient,
            arbiter,
            assets,
            state: EscrowState::Funded,
            deadline,
            grace_period,
            funded_amount,
            memo,
            schedule: ReleaseSchedule::none(),
            released_amount: 0,
            override_signers: release_signers,
            override_threshold: release_threshold,
            override_nonce: 0,
        };
        self.open_funded(env, escrow)
    }

    /// Agree on a time-locked escrow without funding it yet. Everything unlocks
    /// at `unlock_time`. Manual signature override is not available on this path.
    pub fn initialize_timelock(
        &mut self,
        env: &mut CallEnv,
        sender: Address,
        recipient: Address,
        arbiter: Address,
        assets: Vec<AssetAmount>,
        unlock_time: u64,
        grace_period: u64,
        memo: String,
    ) -> (r: Result<u64, Error>)
        requires
            old(self)@.wf(),
        ensures
            final(self)@.wf(),
            r == old(self)@.create_outcome(
                terms_check(old(env)@.timestamp, sender, recipient, assets@, unlock_time),
                Ok(()),
            ),
            r is Err ==> *final(self) == *old(self) && final(env)@ == old(env)@.auth(sender),
            r is Ok ==> {
                let e = final(self)@.escrows[r->Ok_0];
                &&& final(self)@ == old(self)@.with_new(r->Ok_0, e)
                &&& is_new_escrow(
                    e,
                    sender,
                    recipient,
                    arbiter,
                    assets@,
                    false,
                    unlock_time,
                    grace_period,
                    memo@,
                    cliff_schedule(old(env)@.timestamp, unlock_time),
                    Seq::empty(),
                    0,
                )
                &&& exists|listed: Vec<AssetAmount>|
                    {
                        &&& #[trigger] listed@ == assets@
                        &&& final(env)@ == old(env)@.auth(sender).emit(
                            Event::EscrowTimelocked {
                                id: r->Ok_0,
                                sender,
                                recipient,
                                assets: listed,
                                unlock_time,
                            },
                        )
                    }
            },
    {
        env.require_auth(sender);
        Self::validate_terms(env, &sender, &recipient, &assets, unlock_time)?;
        proof {
            lemma_assets_ok(assets@);
        }
        let id: u64 = increment_count(&mut self.storage)?;
        let listed = copy_assets(&assets);
        let now: u64 = env.timestamp;
        let escrow = Escrow {
            sender,
            recipient,
            arbiter,
            assets,
            state: EscrowState::Created,
            deadline: unlock_time,
            grace_period,
            funded_amount: 0,
            memo,
            schedule: ReleaseSchedule {
                release_type: ReleaseType::Cliff,
                start_time: now,
                cliff_time: unlock_time,
                end_time: unlock_time,
            },
            released_amount: 0,
            override_signers: Vec::new(),
            override_threshold: 0,
            override_nonce: 0,
        };
        store_escrow(&mut self.storage, id, escrow);
        env.publish(
            Event::EscrowTimelocked { id, sender, recipient, assets: listed, unlock_time },
        );
        proof {
            assert(listed@ == assets@);
        }
        Ok(id)
    }

    /// Create and fund an escrow that unlocks everything at `unlock_time`.
    pub fn create_timelock(
        &mut self,
        env: &mut CallEnv,
        sender: Address,
        recipient: Address,
        arbiter: Address,
        assets: Vec<AssetAmount>,
        unlock_time: u64,
        memo: String,
    ) -> (r: Result<u64, Error>)
        requires
            old(self)@.wf(),
        ensures
            final(self)@.wf(),
            r == old(self)@.create_outcome(
                terms_check(old(env)@.timestamp, sender, recipient, assets@, unlock_time),
                Ok(()),
            ),
            r is Err ==> *final(self) == *old(self) && final(env)@ == old(env)@.auth(sender),
            r is Ok ==> {
                let e = final(self)@.escrows[r->Ok_0];
                &&& final(self)@ == old(self)@.with_new(r->Ok_0, e)
                &&& is_new_escrow(
                    e,
                    sender,
                    recipient,
                    arbiter,
                    assets@,
                    true,
                    unlock_time,
                    0,
                    memo@,
                    cliff_schedule(old(env)@.timestamp, unlock_time),
                    Seq::empty(),
                    0,
                )
                &&& is_funding(old(env)@, final(env)@, r->Ok_0, sender, recipient, assets@)
            },
    {
        let now: u64 = env.timestamp;
        let schedule = ReleaseSchedule {
            release_type: ReleaseType::Cliff,
            start_time: now,
            cliff_time: unlock_time,
            end_time: unlock_time,
        };
        self.create_scheduled(
            env,
            sender,
            recipient,
            arbiter,
            assets,
            schedule,
            unlock_time,
            memo,
        )
    }

    /// Create and fund an escrow that releases on a schedule. The schedule's
    /// times must be in order, and `deadline` must not come before its end.
    pub fn create_scheduled(
        &mut self,
        env: &mut CallEnv,
        sender: Address,
        recipient: Address,
        arbiter: Address,
        assets: Vec<AssetAmount>,
        schedule: ReleaseSchedule,
        deadline: u64,
        memo: String,
    ) -> (r: Result<u64, Error>)
        requires
            old(self)@.wf(),
        ensures
            final(self)@.wf(),
            r == old(self)@.create_outcome(
                terms_check(old(env)@.timestamp, sender, recipient, assets@, deadline),
                schedule_check(schedule, deadline),
            ),
            r is Err ==> *final(self) == *old(self) && final(env)@ == old(env)@.auth(sender),
            r is Ok ==> {
                let e = final(self)@.escrows[r->Ok_0];
                &&& final(self)@ == old(self)@.with_new(r->Ok_0, e)
                &&& is_new_escrow(
                    e,
                    sender,
                    recipient,
                    arbiter,
                    assets@,
                    true,
                    deadline,
                    0,
                    memo@,
                    schedule,
                    Seq::empty(),
                    0,
                )
                &&& is_funding(old(env)@, final(env)@, r->Ok_0, sender, recipient, assets@)
            },
    {
        env.require_auth(sender);
        Self::validate_terms(env, &sender, &recipient, &assets, deadline)?;
        if schedule.release_type == ReleaseType::Unscheduled {
            return Err(Error::InvalidInput);
        }
        if schedule.start_time > schedule.cliff_time || schedule.cliff_time > schedule.end_time {
            return Err(Error::InvalidInput);
        }
        if schedule.end_time <= schedule.start_time || deadline < schedule.end_time {
            return Err(Error::InvalidInput);
        }
        proof {
            lemma_assets_ok(assets@);
        }
        let funded_amount: i128 = assets[0].amount;
        let escrow = Escrow {
            sender,
            recipient,
            arbiter,
            assets,
            state: EscrowState::Funded,
            deadline,
            grace_period: 0,
            funded_amount,
            memo,
            schedule,
            released_amount: 0,
            override_signers: Vec::new(),
            override_threshold: 0,
            override_nonce: 0,
        };
        self.open_funded(env, escrow)
    }

    /// Fund an agreement that was made without funding. Only its sender may.
    pub fn fund(&mut self, env: &mut CallEnv, caller: Address, id: u64) -> (r: Result<(), Error>)
        requires
            old(self)@.wf(),
        ensures
            final(self)@.wf(),
            r == old(self)@.fund_outcome(caller, id),
            r is Err ==> *final(self) == *old(self) && final(env)@ == old(env)@.auth(caller),
            r is Ok ==> {
                let e = old(self)@.escrows[id];
                &&& final(self)@.escrows == old(self)@.escrows.insert(
                    id,
                    Escrow {
                        state: EscrowState::Funded,
                        funded_amount: e.assets@[0].amount,
                        ..e
                    },
                )
                &&& final(self)@.count == old(self)@.count
                &&& final(self)@.milestones == old(self)@.milestones
                &&& is_funding(
                    old(env)@,
                    final(env)@,
                    id,
                    e.sender,
                    e.recipient,
                    e.assets@,
                )
            },
    {
        env.require_auth(caller);
        let ghost before = self@;
        {
            let e = load_escrow(&self.storage, id)?;
            if e.sender != caller {
                return Err(Error::Unauthorized);
            }
            if e.state != EscrowState::Created {
                return Err(Error::InvalidState);
            }
        }
        let mut escrow = self.checkout(id);
        let custody = env.contract;
        transfer_all(env, &escrow.assets, escrow.sender, custody);
        let listed = copy_assets(&escrow.assets);
        let (sender, recipient) = (escrow.sender, escrow.recipient);
        escrow.state = EscrowState::Funded;
        escrow.funded_amount = escrow.assets[0].amount;
        store_escrow(&mut self.storage, id, escrow);
        env.publish(Event::EscrowFunded { id, sender, recipient, assets: listed });
        proof {
            assert(listed@ == before.escrows[id].assets@);
            assert(self@.escrows =~= before.escrows.insert(id, escrow));
        }
        Ok(())
    }

    /// Takes a stored escrow out, to be stored again changed.
    fn checkout(&mut self, id: u64) -> (r: Escrow)
        requires
            old(self)@.escrows.contains_key(id),
        ensures
            r == old(self)@.escrows[id],
            final(self)@ == (StorageView {
                escrows: old(self)@.escrows.remove(id),
                ..old(self)@
            }),
    {
        self.storage.escrows.take(&id).unwrap()
    }

    fn held_assets(e: &Escrow) -> (r: Vec<AssetAmount>)
        requires
            e.valid(),
            e.in_custody(),
        ensures
            r@ == e.held(),
    {
        let mut held = copy_assets(&e.assets);
        let amount: i128 = e.funded_amount - e.released_amount;
        held.set(0, AssetAmount { asset: e.assets[0].asset, amount });
        held
    }

    fn compute_vested(e: &Escrow, now: u64) -> (r: i128)
        requires
            e.valid(),
        ensures
            r == e.vested_at(now),
            0 <= r <= e.funded_amount,
    {
        let s = &e.schedule;
        match s.release_type {
            ReleaseType::Unscheduled => 0,
            ReleaseType::Cliff => if now >= s.cliff_time {
                e.funded_amount
            } else {
                0
            },
            ReleaseType::Linear => if now < s.cliff_time {
                0
            } else if now >= s.end_time {
                e.funded_amount
            } else {
                mul_div(e.funded_amount, now - s.start_time, s.end_time - s.start_time)
            },
        }
    }

    fn compute_claimable(e: &Escrow, now: u64) -> (r: i128)
        requires
            e.valid(),
        ensures
            r == e.claimable_at(now),
            0 <= r <= e.funded_amount - e.released_amount,
    {
        let vested: i128 = Self::compute_vested(e, now);
        if e.state == EscrowState::Funded && vested > e.released_amount {
            vested - e.released_amount
        } else {
            0
        }
    }

    /// Whether the caller can draw from a schedule, and how much.
    fn require_claimable(&self, now: u64, caller: &Address, id: u64) -> (r: Result<i128, Error>)
        requires
            self@.wf(),
        ensures
            r == self@.claim_outcome(now, *caller, id),
            r is Ok ==> r->Ok_0 == self@.escrows[id].claimable_at(now) && 0 < r->Ok_0
                <= self@.escrows[id].funded_amount - self@.escrows[id].released_amount,
    {
        let e = load_escrow(&self.storage, id)?;
        if e.recipient != *caller {
            return Err(Error::Unauthorized);
        }
        if e.state != EscrowState::Funded || e.schedule.release_type == ReleaseType::Unscheduled {
            return Err(Error::InvalidState);
        }
        let claimable: i128 = Self::compute_claimable(e, now);
        if claimable == 0 {
            return Err(Error::TimeLockActive);
        }
        Ok(claimable)
    }

    /// Pays an amount of a scheduled escrow to its recipient.
    fn draw(&mut self, env: &mut CallEnv, id: u64, amount: i128) -> (r: i128)
        requires
            old(self)@.wf(),
            old(self)@.escrows.contains_key(id),
            old(self)@.escrows[id].scheduled(),
            old(self)@.escrows[id].state == EscrowState::Funded,
            0 < amount <= old(self)@.escrows[id].funded_amount
                - old(self)@.escrows[id].released_amount,
        ensures
            final(self)@.wf(),
            r == old(self)@.escrows[id].released_amount + amount,
            final(self)@ == old(self)@.with_escrow(
                id,
                after_draw(old(self)@.escrows[id], amount as int),
            ),
            final(env)@ == paid_out(
                old(env)@,
                old(self)@.escrows[id],
                drawn(old(self)@.escrows[id], amount as int),
            ),
    {
        let ghost before = self@;
        let mut escrow = self.checkout(id);
        let ghost e = escrow;
        let released: i128 = escrow.released_amount + amount;
        let mut due: Vec<AssetAmount> = Vec::new();
        due.push(AssetAmount { asset: escrow.assets[0].asset, amount });
        assert(due@ =~= seq![AssetAmount { asset: e.assets@[0].asset, amount }]);
        if released == escrow.funded_amount {
            let mut i: usize = 1;
            while i < escrow.assets.len()
                invariant
                    1 <= i <= escrow.assets@.len(),
                    escrow == e,
                    due@ == seq![AssetAmount { asset: e.assets@[0].asset, amount }]
                        + e.assets@.subrange(1, i as int),
                decreases escrow.assets@.len() - i,
            {
                due.push(escrow.assets[i]);
                i = i + 1;
                assert(due@ =~= seq![AssetAmount { asset: e.assets@[0].asset, amount }]
                    + e.assets@.subrange(1, i as int));
            }
            assert(e.assets@.subrange(1, i as int) =~= e.assets@.skip(1));
            escrow.state = EscrowState::Released;
        }
        assert(due@ =~= drawn(e, amount as int));
        escrow.released_amount = released;
        let custody = env.contract;
        let (sender, recipient) = (escrow.sender, escrow.recipient);
        store_escrow(&mut self.storage, id, escrow);
        proof {
            assert(self@ =~= before.with_escrow(id, after_draw(e, amount as int)));
        }
        transfer_all(env, &due, custody, recipient);
        publish_transfers(env, &due, sender, recipient);
        released
    }

    /// Claim everything that a scheduled escrow has unlocked. Only the recipient
    /// may. Returns the claimed amount of the primary asset.
    pub fn claim(&mut self, env: &mut CallEnv, caller: Address, id: u64) -> (r: Result<i128, Error>)
        requires
            old(self)@.wf(),
        ensures
            final(self)@.wf(),
            r == old(self)@.claim_outcome(old(env)@.timestamp, caller, id),
            r is Err ==> *final(self) == *old(self) && final(env)@ == old(env)@.auth(caller),
            r is Ok ==> {
                let e = old(self)@.escrows[id];
                &&& final(self)@ == old(self)@.with_escrow(id, after_draw(e, r->Ok_0 as int))
                &&& final(env)@ == paid_out(
                    old(env)@.auth(caller),
                    e,
                    drawn(e, r->Ok_0 as int),
                ).emit(Event::EscrowClaimed { id, caller })
            },
    {
        env.require_auth(caller);
        let amount: i128 = self.require_claimable(env.timestamp, &caller, id)?;
        self.draw(env, id, amount);
        env.publish(Event::EscrowClaimed { id, caller });
        Ok(amount)
    }

    /// Withdraw part of what a scheduled escrow has unlocked. Only the recipient
    /// may. Returns how much of the primary asset has been released in total.
    pub fn withdraw(&mut self, env: &mut CallEnv, caller: Address, id: u64, amount: i128) -> (r:
        Result<i128, Error>)
        requires
            old(self)@.wf(),
        ensures
            final(self)@.wf(),
            r == old(self)@.withdraw_outcome(old(env)@.timestamp, caller, id, amount),
            r is Err ==> *final(self) == *old(self) && final(env)@ == old(env)@.auth(caller),
            r is Ok ==> {
                let e = old(self)@.escrows[id];
                &&& final(self)@ == old(self)@.with_escrow(id, after_draw(e, amount as int))
                &&& final(env)@ == paid_out(old(env)@.auth(caller), e, drawn(e, amount as int))
            },
    {
        env.require_auth(caller);
        require_positive_amount(amount)?;
        let claimable: i128 = self.require_claimable(env.timestamp, &caller, id)?;
        if amount > claimable {
            return Err(Error::InsufficientFunds);
        }
        Ok(self.draw(env, id, amount))
    }

    /// How much of the primary asset the schedule has unlocked.
    pub fn get_vested_amount(&self, env: &CallEnv, id: u64) -> (r: Result<i128, Error>)
        requires
            self@.wf(),
        ensures
            r == (if self@.escrows.contains_key(id) {
                Ok::<i128, Error>(self@.escrows[id].vested_at(env@.timestamp) as i128)
            } else {
                Err(Error::NotFound)
            }),
    {
        let e = load_escrow(&self.storage, id)?;
        Ok(Self::compute_vested(e, env.timestamp))
    }

    /// How much of the primary asset the recipient can draw now.
    pub fn get_claimable_amount(&self, env: &CallEnv, id: u64) -> (r: Result<i128, Error>)
        requires
            self@.wf(),
        ensures
            r == (if self@.escrows.contains_key(id) {
                Ok::<i128, Error>(self@.escrows[id].claimable_at(env@.timestamp) as i128)
            } else {
                Err(Error::NotFound)
            }),
    {
        let e = load_escrow(&self.storage, id)?;
        Ok(Self::compute_claimable(e, env.timestamp))
    }

    /// Pays everything an escrow holds to its recipient.
    fn release_all(&mut self, env: &mut CallEnv, id: u64, nonce: u64, last: Event)
        requires
            old(self)@.wf(),
            old(self)@.escrows.contains_key(id),
            old(self)@.escrows[id].state == EscrowState::Funded,
            !old(self)@.milestones.contains_key(id),
        ensures
            final(self)@.wf(),
            final(self)@ == old(self)@.with_escrow(
                id,
                Escrow {
                    state: EscrowState::Released,
                    released_amount: old(self)@.escrows[id].funded_amount,
                    override_nonce: nonce,
                    ..old(self)@.escrows[id]
                },
            ),
            is_release(old(env)@, final(env)@, id, old(self)@.escrows[id], last),
    {
        let ghost before = self@;
        let mut escrow = self.checkout(id);
        let ghost e = escrow;
        let held = Self::held_assets(&escrow);
        let listed = copy_assets(&escrow.assets);
        let custody = env.contract;
        let (sender, recipient) = (escrow.sender, escrow.recipient);
        escrow.state = EscrowState::Released;
        escrow.released_amount = escrow.funded_amount;
        escrow.override_nonce = nonce;
        store_escrow(&mut self.storage, id, escrow);
        proof {
            assert(self@ =~= before.with_escrow(id, escrow));
        }
        transfer_all(env, &held, custody, recipient);
        publish_transfers(env, &held, sender, recipient);
        publish(env, ContractEvent::EscrowReleased { escrow_id: id, recipient, assets: listed });
        env.publish(last);
        proof {
            assert(listed@ == e.assets@);
        }
    }

    /// Release the escrowed assets to the recipient. Only the arbiter may call,
    /// and only before the deadline and its grace period are over; afterward the
    /// assets go back to the sender. `amount` restates how much of the primary
    /// asset is released: all of it, and the other assets with it.
    pub fn release(&mut self, env: &mut CallEnv, arbiter: Address, id: u64, amount: i128) -> (r:
        Result<(), Error>)
        requires
            old(self)@.wf(),
        ensures
            final(self)@.wf(),
            r == old(self)@.release_outcome(old(env)@.timestamp, arbiter, id, amount),
            r is Err ==> *final(self) == *old(self) && final(env)@ == old(env)@.auth(arbiter),
            r is Ok ==> {
                let e = old(self)@.escrows[id];
                &&& final(self)@ == old(self)@.with_escrow(
                    id,
                    Escrow {
                        state: EscrowState::Released,
                        released_amount: e.funded_amount,
                        ..e
                    },
                )
                &&& is_release(
                    old(env)@.auth(arbiter),
                    final(env)@,
                    id,
                    e,
                    Event::EscrowReleased { id, arbiter },
                )
            },
    {
        env.require_auth(arbiter);
        let nonce: u64;
        {
            let e = load_escrow(&self.storage, id)?;
            if e.arbiter != arbiter {
                return Err(Error::Unauthorized);
            }
            if self.storage.milestones.has(&id) || e.schedule.release_type
                != ReleaseType::Unscheduled || e.state != EscrowState::Funded {
                return Err(Error::InvalidState);
            }
            if env.timestamp as u128 >= e.deadline as u128 + e.grace_period as u128 {
                return Err(Error::EscrowExpired);
            }
            if amount != e.funded_amount - e.released_amount {
                return Err(Error::InvalidAmount);
            }
            nonce = e.override_nonce;
        }
        self.release_all(env, id, nonce, Event::EscrowReleased { id, arbiter });
        Ok(())
    }

    /// The payload signed by override signers: the contract address, the network
    /// id, the escrow id and the nonce. Binding the contract address and network
    /// id prevents a signature from one deployment or network being replayed on
    /// another; binding the escrow id prevents cross-escrow replay; the strictly
    /// increasing nonce prevents same-escrow replay.
    pub fn override_payload(env: &CallEnv, id: u64, nonce: u64) -> (r: Vec<u8>)
        ensures
            r@ == payload(env@.contract, env@.network_id, id, nonce),
    {
        let mut out: Vec<u8> = Vec::new();
        push_address_xdr(&mut out, &env.contract);
        push_bytes32(&mut out, &env.network_id);
        push_be(&mut out, id as u128, 8);
        push_be(&mut out, nonce as u128, 8);
        assert(out@ =~= payload(env@.contract, env@.network_id, id, nonce));
        out
    }

    /// The digest that override signers sign.
    pub fn override_digest(host: &soroban_sdk::Env, env: &CallEnv, id: u64, nonce: u64) -> (r:
        Bytes32)
        ensures
            r == sha256_digest(payload(env@.contract, env@.network_id, id, nonce)),
    {
        let data = Self::override_payload(env, id, nonce);
        proof {
            lemma_encoded_lengths(env@.contract, env@.network_id, id);
            lemma_encoded_lengths(env@.contract, env@.network_id, nonce);
        }
        sha256(host, &data)
    }

    /// Release the escrowed assets to the recipient via the manual signature
    /// override instead of the named arbiter. Requires at least
    /// `override_threshold` distinct, valid ed25519 signatures from the escrow's
    /// `override_signers`, each covering the digest of the payload built from
    /// the contract address, network id, escrow id and `nonce`. `nonce` must be
    /// strictly greater than the last nonce this escrow consumed.
    ///
    /// Every signer must be a distinct, pre-configured key, and every signature
    /// must verify: any single bad signature fails the whole call. Permissionless
    /// by design: the signatures are the authorization.
    pub fn override_release(
        &mut self,
        host: &soroban_sdk::Env,
        env: &mut CallEnv,
        id: u64,
        nonce: u64,
        signatures: &Vec<OverrideSignature>,
    ) -> (r: Result<(), Error>)
        requires
            old(self)@.wf(),
        ensures
            final(self)@.wf(),
            r == old(self)@.override_outcome(old(env)@.timestamp, id, nonce, signatures@),
            r is Err ==> *final(self) == *old(self),
            is_override(
                old(self)@,
                final(self)@,
                old(env)@,
                final(env)@,
                id,
                nonce,
                sha256_digest(payload(old(env)@.contract, old(env)@.network_id, id, nonce)),
                signatures@,
            ),
    {
        let digest = Self::override_digest(host, env, id, nonce);
        self.override_release_over(env, id, nonce, digest, signatures)
    }

    /// [`EscrowContract::override_release`] over a digest that the signatures are
    /// to cover.
    pub fn override_release_over(
        &mut self,
        env: &mut CallEnv,
        id: u64,
        nonce: u64,
        digest: Bytes32,
        signatures: &Vec<OverrideSignature>,
    ) -> (r: Result<(), Error>)
        requires
            old(self)@.wf(),
        ensures
            final(self)@.wf(),
            r == old(self)@.override_outcome(old(env)@.timestamp, id, nonce, signatures@),
            r is Err ==> *final(self) == *old(self),
            is_override(
                old(self)@,
                final(self)@,
                old(env)@,
                final(env)@,
                id,
                nonce,
                digest,
                signatures@,
            ),
    {
        {
            let e = load_escrow(&self.storage, id)?;
            if e.override_signers.len() == 0 || e.override_threshold == 0 {
                return Err(Error::Unauthorized);
            }
            if e.state != EscrowState::Funded {
                return Err(Error::InvalidState);
            }
            if env.timestamp >= e.deadline {
                return Err(Error::EscrowExpired);
            }
            if nonce <= e.override_nonce {
                return Err(Error::InvalidNonce);
            }
            let n: usize = signatures.len();
            if n < e.override_threshold as usize {
                return Err(Error::ThresholdNotMet);
            }
            let ghost start = env@;
            let ghost f = key_ok(e.override_signers@, signatures@);
            let mut i: usize = 0;
            assert(signatures@.take(0) =~= Seq::<OverrideSignature>::empty());
            while i < n
                invariant
                    i <= n,
                    n == signatures@.len(),
                    *self == *old(self),
                    old(self)@.wf(),
                    old(self)@.escrows.contains_key(id),
                    *e == old(self)@.escrows[id],
                    start == old(env)@,
                    old(self)@.override_check(old(env)@.timestamp, id, nonce, n as nat) is Ok,
                    f == key_ok(e.override_signers@, signatures@),
                    leading(f, i as nat) == i,
                    env@ == verify_all(start, signatures@.take(i as int), digest),
                decreases n - i,
            {
                let sig = signatures[i];
                if !Self::contains_key(&e.override_signers, &sig.public_key) {
                    proof {
                        assert(!f(i as int));
                        lemma_leading_stops(f, i as nat, n as nat);
                    }
                    return Err(Error::NotASigner);
                }
                if Self::already_signed(signatures, i) {
                    proof {
                        assert(!f(i as int));
                        lemma_leading_stops(f, i as nat, n as nat);
                    }
                    return Err(Error::AlreadySigned);
                }
                assert(f(i as int));
                assert(signatures@.take(i + 1).drop_last() =~= signatures@.take(i as int));
                env.record(
                    Effect::VerifySignature {
                        public_key: sig.public_key,
                        message: digest,
                        signature: sig.signature,
                    },
                );
                i = i + 1;
            }
            assert(signatures@.take(i as int) =~= signatures@);
        }
        self.release_all(env, id, nonce, Event::EscrowOverridden { id, nonce });
        Ok(())
    }

    fn contains_key(signers: &Vec<Bytes32>, key: &Bytes32) -> (r: bool)
        ensures
            r == signers@.contains(*key),
    {
        let mut i: usize = 0;
        while i < signers.len()
            invariant
                i <= signers@.len(),
                forall|j: int| 0 <= j < i ==> signers@[j] != *key,
            decreases signers@.len() - i,
        {
            if signers[i] == *key {
                return true;
            }
            i = i + 1;
        }
        false
    }

    fn already_signed(signatures: &Vec<OverrideSignature>, i: usize) -> (r: bool)
        requires
            i < signatures@.len(),
        ensures
            r == exists|j: int|
                0 <= j < i && #[trigger] signatures@[j].public_key
                    == signatures@[i as int].public_key,
    {
        let mut j: usize = 0;
        while j < i
            invariant
                j <= i < signatures@.len(),
                forall|k: int|
                    0 <= k < j ==> #[trigger] signatures@[k].public_key
                        != signatures@[i as int].public_key,
            decreases i - j,
        {
            if signatures[j].public_key == signatures[i].public_key {
                return true;
            }
            j = j + 1;
        }
        false
    }

    /// Whether the assets of a stored escrow may go back to its sender.
    fn require_returnable(&self, now: u64, id: u64) -> (r: Result<(), Error>)
        requires
            self@.escrows.contains_key(id),
        ensures
            r == self@.return_check(now, id),
    {
        let e = load_escrow(&self.storage, id)?;
        if e.state != EscrowState::Funded && e.state != EscrowState::Expired {
            return Err(Error::InvalidState);
        }
        if e.schedule.release_type != ReleaseType::Unscheduled {
            return Err(Error::InvalidState);
        }
        if now < e.deadline {
            return Err(Error::InvalidState);
        }
        if (now as u128) < e.deadline as u128 + e.grace_period as u128 {
            return Err(Error::GraceActive);
        }
        Ok(())
    }

    /// Mark a timed-out escrow `Expired`. Permissionless status transition.
    /// Funds are not moved here: they remain in custody until they go back to
    /// the sender.
    pub fn expire(&mut self, env: &mut CallEnv, id: u64) -> (r: Result<(), Error>)
        requires
            old(self)@.wf(),
        ensures
            final(self)@.wf(),
            r == old(self)@.expire_outcome(old(env)@.timestamp, id),
            r is Err ==> *final(self) == *old(self) && final(env)@ == old(env)@,
            r is Ok ==> final(self)@ == old(self)@.with_escrow(
                id,
                Escrow { state: EscrowState::Expired, ..old(self)@.escrows[id] },
            ) && final(env)@ == old(env)@.emit(Event::EscrowExpired { id }),
    {
        {
            let e = load_escrow(&self.storage, id)?;
            if e.state == EscrowState::Expired {
                return Err(Error::InvalidState);
            }
        }
        self.require_returnable(env.timestamp, id)?;
        let ghost before = self@;
        let mut escrow = self.checkout(id);
        escrow.state = EscrowState::Expired;
        store_escrow(&mut self.storage, id, escrow);
        proof {
            assert(self@ =~= before.with_escrow(id, escrow));
        }
        env.publish(Event::EscrowExpired { id });
        Ok(())
    }

    /// Returns everything an escrow holds to its sender, and settles it.
    fn return_all(&mut self, env: &mut CallEnv, id: u64, state: EscrowState)
        requires
            old(self)@.wf(),
            old(self)@.escrows.contains_key(id),
            old(self)@.escrows[id].in_custody(),
            state == EscrowState::Refunded || state == EscrowState::Cancelled,
        ensures
            final(self)@.wf(),
            final(self)@ == old(self)@.with_escrow(
                id,
                Escrow { state, ..old(self)@.escrows[id] },
            ),
            final(env)@ == pay_all(
                old(env)@,
                old(self)@.escrows[id].held(),
                old(env)@.contract,
                old(self)@.escrows[id].sender,
            ),
    {
        let ghost before = self@;
        let mut escrow = self.checkout(id);
        let held = Self::held_assets(&escrow);
        let sender = escrow.sender;
        escrow.state = state;
        store_escrow(&mut self.storage, id, escrow);
        proof {
            assert(self@ =~= before.with_escrow(id, escrow));
        }
        let custody = env.contract;
        transfer_all(env, &held, custody, sender);
    }

    /// Refund the escrow back to the sender once the deadline and its grace
    /// period are over (permissionless settlement path used when the escrow was
    /// never released: either still `Funded`, or already marked `Expired`).
    pub fn refund(&mut self, env: &mut CallEnv, caller: Address, id: u64) -> (r: Result<(), Error>)
        requires
            old(self)@.wf(),
        ensures
            final(self)@.wf(),
            r == old(self)@.refund_outcome(old(env)@.timestamp, id),
            r is Err ==> *final(self) == *old(self) && final(env)@ == old(env)@.auth(caller),
            r is Ok ==> {
                let e = old(self)@.escrows[id];
                &&& final(self)@ == old(self)@.with_escrow(
                    id,
                    Escrow { state: EscrowState::Refunded, ..e },
                )
                &&& final(env)@ == returned_env(
                    old(env)@.auth(caller),
                    e,
                    Event::EscrowRefunded { id, caller },
                )
            },
    {
        env.require_auth(caller);
        load_escrow(&self.storage, id)?;
        self.require_returnable(env.timestamp, id)?;
        self.return_all(env, id, EscrowState::Refunded);
        env.publish(Event::EscrowRefunded { id, caller });
        Ok(())
    }

    /// Take the escrowed assets back once the deadline and its grace period are
    /// over. Only the sender may.
    pub fn reclaim(&mut self, env: &mut CallEnv, caller: Address, id: u64) -> (r: Result<
        (),
        Error,
    >)
        requires
            old(self)@.wf(),
        ensures
            final(self)@.wf(),
            r == old(self)@.reclaim_outcome(old(env)@.timestamp, caller, id),
            r is Err ==> *final(self) == *old(self) && final(env)@ == old(env)@.auth(caller),
            r is Ok ==> {
                let e = old(self)@.escrows[id];
                &&& final(self)@ == old(self)@.with_escrow(
                    id,
                    Escrow { state: EscrowState::Refunded, ..e },
                )
                &&& final(env)@ == returned_env(
                    old(env)@.auth(caller),
                    e,
                    Event::EscrowRefunded { id, caller },
                )
            },
    {
        env.require_auth(caller);
        {
            let e = load_escrow(&self.storage, id)?;
            if e.sender != caller {
                return Err(Error::Unauthorized);
            }
        }
        self.require_returnable(env.timestamp, id)?;
        self.return_all(env, id, EscrowState::Refunded);
        env.publish(Event::EscrowRefunded { id, caller });
        Ok(())
    }

    /// Take a time-locked escrow back after its deadline. Only the sender may.
    /// An escrow that was never funded is settled without moving anything.
    pub fn refund_timelock(&mut self, env: &mut CallEnv, caller: Address, id: u64) -> (r: Result<
        (),
        Error,
    >)
        requires
            old(self)@.wf(),
        ensures
            final(self)@.wf(),
            r == old(self)@.refund_timelock_outcome(old(env)@.timestamp, caller, id),
            r is Err ==> *final(self) == *old(self) && final(env)@ == old(env)@.auth(caller),
            r is Ok ==> {
                let e = old(self)@.escrows[id];
                &&& final(self)@ == old(self)@.with_escrow(
                    id,
                    Escrow { state: EscrowState::Refunded, ..e },
                )
                &&& final(env)@ == returned_env(
                    old(env)@.auth(caller),
                    e,
                    Event::EscrowTimelockRefunded { id, caller },
                )
            },
    {
        env.require_auth(caller);
        let funded: bool;
        {
            let e = load_escrow(&self.storage, id)?;
            if e.sender != caller {
                return Err(Error::Unauthorized);
            }
            if e.schedule.release_type == ReleaseType::Unscheduled || (e.state
                != EscrowState::Created && e.state != EscrowState::Funded) {
                return Err(Error::InvalidState);
            }
            let now: u64 = env.timestamp;
            if now < e.deadline {
                return Err(Error::TimeLockActive);
            }
            if (now as u128) < e.deadline as u128 + e.grace_period as u128 {
                return Err(Error::GraceActive);
            }
            funded = e.state == EscrowState::Funded;
        }
        if funded {
            self.return_all(env, id, EscrowState::Refunded);
        } else {
            let ghost before = self@;
            let mut escrow = self.checkout(id);
            escrow.state = EscrowState::Refunded;
            store_escrow(&mut self.storage, id, escrow);
            proof {
                assert(self@ =~= before.with_escrow(id, escrow));
            }
        }
        env.publish(Event::EscrowTimelockRefunded { id, caller });
        Ok(())
    }

    /// Call an escrow off and return its assets to the sender. An escrow with a
    /// grace period can be cancelled by its sender or its arbiter before the
    /// deadline, and ends `Refunded`. One without a grace period can be clawed
    /// back by its sender from the deadline on, and ends `Cancelled`.
    pub fn cancel(&mut self, env: &mut CallEnv, caller: Address, id: u64) -> (r: Result<(), Error>)
        requires
            old(self)@.wf(),
        ensures
            final(self)@.wf(),
            ({
                let outcome = old(self)@.cancel_outcome(old(env)@.timestamp, caller, id);
                match r {
                    Err(x) => outcome == Err::<EscrowState, Error>(x) && *final(self) == *old(self)
                        && final(env)@ == old(env)@.auth(caller),
                    Ok(_) => {
                        let e = old(self)@.escrows[id];
                        &&& outcome is Ok
                        &&& final(self)@ == old(self)@.with_escrow(
                            id,
                            Escrow { state: outcome->Ok_0, ..e },
                        )
                        &&& final(env)@ == returned_env(
                            old(env)@.auth(caller),
                            e,
                            Event::EscrowRefunded { id, caller },
                        )
                    },
                }
            }),
    {
        env.require_auth(caller);
        let state: EscrowState;
        {
            let e = load_escrow(&self.storage, id)?;
            let now: u64 = env.timestamp;
            let scheduled = e.schedule.release_type != ReleaseType::Unscheduled;
            if e.grace_period != 0 {
                if caller != e.sender && caller != e.arbiter {
                    return Err(Error::Unauthorized);
                }
                if scheduled || e.state != EscrowState::Funded || now >= e.deadline {
                    return Err(Error::InvalidState);
                }
                state = EscrowState::Refunded;
            } else {
                if caller != e.sender {
                    return Err(Error::Unauthorized);
                }
                if scheduled || (e.state != EscrowState::Funded && e.state != EscrowState::Expired)
                    || now < e.deadline {
                    return Err(Error::InvalidCondition);
                }
                state = EscrowState::Cancelled;
            }
        }
        self.return_all(env, id, state);
        env.publish(Event::EscrowRefunded { id, caller });
        Ok(())
    }

    /// Create and fund an escrow of one asset that releases milestone by
    /// milestone. The milestones' shares must add up to the whole.
    pub fn deposit_with_milestones(
        &mut self,
        env: &mut CallEnv,
        sender: Address,
        recipient: Address,
        arbiter: Address,
        asset: Address,
        amount: i128,
        deadline: u64,
        memo: String,
        specs: Vec<MilestoneSpec>,
    ) -> (r: Result<u64, Error>)
        requires
            old(self)@.wf(),
        ensures
            final(self)@.wf(),
            r == old(self)@.create_outcome(
                terms_check(
                    old(env)@.timestamp,
                    sender,
                    recipient,
                    seq![AssetAmount { asset, amount }],
                    deadline,
                ),
                check(spec_bps(specs@) == BPS_TOTAL, Error::InvalidInput),
            ),
            r is Err ==> *final(self) == *old(self) && final(env)@ == old(env)@.auth(sender),
            r is Ok ==> {
                let id = r->Ok_0;
                let e = final(self)@.escrows[id];
                let set = final(self)@.milestones[id];
                let assets = seq![AssetAmount { asset, amount }];
                &&& final(self)@ == (StorageView {
                    count: Some(id),
                    escrows: old(self)@.escrows.insert(id, e),
                    milestones: old(self)@.milestones.insert(id, set),
                })
                &&& is_new_escrow(
                    e,
                    sender,
                    recipient,
                    arbiter,
                    assets,
                    true,
                    deadline,
                    0,
                    memo@,
                    unscheduled(),
                    Seq::empty(),
                    0,
                )
                &&& set.released_amount == 0
                &&& set.milestones@ == open_milestones(specs@)
                &&& is_funding(old(env)@, final(env)@, id, sender, recipient, assets)
            },
    {
        env.require_auth(sender);
        let mut assets: Vec<AssetAmount> = Vec::new();
        assets.push(AssetAmount { asset, amount });
        assert(assets@ =~= seq![AssetAmount { asset, amount }]);
        Self::validate_terms(env, &sender, &recipient, &assets, deadline)?;
        Self::validate_shares(&specs)?;
        proof {
            lemma_assets_ok(assets@);
        }
        let escrow = Escrow {
            sender,
            recipient,
            arbiter,
            assets,
            state: EscrowState::Funded,
            deadline,
            grace_period: 0,
            funded_amount: amount,
            memo,
            schedule: ReleaseSchedule::none(),
            released_amount: 0,
            override_signers: Vec::new(),
            override_threshold: 0,
            override_nonce: 0,
        };
        let ghost before = self@;
        let id: u64 = self.open_funded(env, escrow)?;
        let milestones = Self::open_all(specs);
        self.storage.milestones.set(id, MilestoneSet { milestones, released_amount: 0 });
        proof {
            assert(!before.milestones.contains_key(id));
            lemma_open_milestones(specs@, amount as int);
        }
        Ok(id)
    }

    fn validate_shares(specs: &Vec<MilestoneSpec>) -> (r: Result<(), Error>)
        ensures
            r == check(spec_bps(specs@) == BPS_TOTAL, Error::InvalidInput),
    {
        let mut total: u128 = 0;
        let mut i: usize = 0;
        assert(specs@.take(0) =~= Seq::<MilestoneSpec>::empty());
        while i < specs.len()
            invariant
                i <= specs@.len(),
                total == spec_bps(specs@.take(i as int)),
                total <= i * u32::MAX,
            decreases specs@.len() - i,
        {
            proof {
                assert(specs@.take(i + 1).drop_last() =~= specs@.take(i as int));
                assert((i + 1) * u32::MAX == i * u32::MAX + u32::MAX) by (nonlinear_arith);
                assert(i * u32::MAX <= 0xffff_ffff_ffff_ffff * 0xffff_ffff) by (nonlinear_arith)
                    requires
                        i <= 0xffff_ffff_ffff_ffff,
                ;
            }
            total = total + specs[i].release_bps as u128;
            i = i + 1;
        }
        assert(specs@.take(i as int) =~= specs@);
        if total != BPS_TOTAL as u128 {
            return Err(Error::InvalidInput);
        }
        Ok(())
    }

    fn open_all(specs: Vec<MilestoneSpec>) -> (r: Vec<Milestone>)
        ensures
            r@ == open_milestones(specs@),
    {
        let mut rest = specs;
        let mut reversed: Vec<Milestone> = Vec::new();
        while rest.len() > 0
            invariant
                rest@.len() <= specs@.len(),
                rest@ == specs@.take(rest@.len() as int),
                reversed@ == open_milestones(specs@.skip(rest@.len() as int)).reverse(),
            decreases rest@.len(),
        {
            let ghost n = rest@.len();
            let spec = rest.pop().unwrap();
            reversed.push(
                Milestone {
                    description: spec.description,
                    release_bps: spec.release_bps,
                    released: false,
                },
            );
            proof {
                assert(rest@ =~= specs@.take(n - 1));
                assert(specs@.skip(n - 1) =~= seq![specs@[n - 1]] + specs@.skip(n as int));
                assert(reversed@ =~= open_milestones(specs@.skip(n - 1)).reverse());
            }
        }
        assert(specs@.skip(0) =~= specs@);
        let mut out: Vec<Milestone> = Vec::new();
        let ghost all = reversed@;
        while reversed.len() > 0
            invariant
                reversed@.len() <= all.len(),
                reversed@ == all.take(reversed@.len() as int),
                out@ == all.skip(reversed@.len() as int).reverse(),
            decreases reversed@.len(),
        {
            let ghost n = reversed@.len();
            let m = reversed.pop().unwrap();
            out.push(m);
            proof {
                assert(reversed@ =~= all.take(n - 1));
                assert(out@ =~= all.skip(n - 1).reverse());
            }
        }
        assert(all.skip(0).reverse() =~= open_milestones(specs@));
        out
    }

    /// Release one milestone to the recipient. Only the arbiter may, and only
    /// before the deadline and its grace period are over. The last open
    /// milestone pays out all that is left.
    pub fn release_milestone(
        &mut self,
        env: &mut CallEnv,
        arbiter: Address,
        id: u64,
        index: u32,
    ) -> (r: Result<(), Error>)
        requires
            old(self)@.wf(),
        ensures
            final(self)@.wf(),
            r == old(self)@.release_milestone_outcome(old(env)@.timestamp, arbiter, id, index),
            r is Err ==> *final(self) == *old(self) && final(env)@ == old(env)@.auth(arbiter),
            r is Ok ==> {
                let e = old(self)@.escrows[id];
                let ms = old(self)@.milestones[id].milestones@;
                let payment = old(self)@.milestone_payment(id, index);
                let released = (e.released_amount + payment) as i128;
                let set = final(self)@.milestones[id];
                &&& 0 <= payment <= e.funded_amount - e.released_amount
                &&& final(self)@ == (StorageView {
                    escrows: old(self)@.escrows.insert(
                        id,
                        old(self)@.milestone_record(id, index),
                    ),
                    milestones: old(self)@.milestones.insert(id, set),
                    ..old(self)@
                })
                &&& set.released_amount == released
                &&& set.milestones@ == ms.update(
                    index as int,
                    Milestone { released: true, ..ms[index as int] },
                )
                &&& final(env)@ == paid_out(
                    old(env)@.auth(arbiter),
                    e,
                    seq![AssetAmount { asset: e.assets@[0].asset, amount: payment as i128 }],
                )
            },
    {
        env.require_auth(arbiter);
        let share_bps: u32;
        let last: bool;
        {
            let e = load_escrow(&self.storage, id)?;
            if e.arbiter != arbiter {
                return Err(Error::Unauthorized);
            }
            let set = match self.storage.milestones.get(&id) {
                Some(s) => s,
                None => return Err(Error::NotFound),
            };
            if e.state != EscrowState::Funded {
                return Err(Error::InvalidState);
            }
            if env.timestamp as u128 >= e.deadline as u128 + e.grace_period as u128 {
                return Err(Error::EscrowExpired);
            }
            if index as usize >= set.milestones.len() {
                return Err(Error::InvalidInput);
            }
            if set.milestones[index as usize].released {
                return Err(Error::InvalidState);
            }
            share_bps = set.milestones[index as usize].release_bps;
            last = Self::is_last_open(&set.milestones, index as usize);
        }
        let ghost before = self@;
        let mut escrow = self.checkout(id);
        let mut set = self.storage.milestones.take(&id).unwrap();
        let ghost e = escrow;
        let ghost ms = set.milestones@;
        proof {
            lemma_paid_update(ms, index as int, e.funded_amount as int);
            let after = ms.update(index as int, Milestone { released: true, ..ms[index as int] });
            lemma_paid_at_most(after, e.funded_amount as int);
            lemma_paid_at_most(ms, e.funded_amount as int);
            lemma_bps_at(ms, index as int);
        }
        let payment: i128 = if last {
            escrow.funded_amount - escrow.released_amount
        } else {
            mul_div(escrow.funded_amount, share_bps as u64, BPS_TOTAL as u64)
        };
        let released: i128 = escrow.released_amount + payment;
        set.milestones[index as usize].released = true;
        set.released_amount = released;
        escrow.released_amount = released;
        if last {
            escrow.state = EscrowState::Released;
        }
        let custody = env.contract;
        let (sender, recipient) = (escrow.sender, escrow.recipient);
        let mut due: Vec<AssetAmount> = Vec::new();
        due.push(AssetAmount { asset: escrow.assets[0].asset, amount: payment });
        assert(due@ =~= seq![AssetAmount { asset: e.assets@[0].asset, amount: payment }]);
        store_escrow(&mut self.storage, id, escrow);
        self.storage.milestones.set(id, set);
        proof {
            assert(self@.escrows =~= before.escrows.insert(id, escrow));
            assert(self@.milestones =~= before.milestones.insert(id, set));
        }
        transfer_all(env, &due, custody, recipient);
        publish_transfers(env, &due, sender, recipient);
        Ok(())
    }

    fn is_last_open(ms: &Vec<Milestone>, index: usize) -> (r: bool)
        ensures
            r == others_released(ms@, index as int),
    {
        let mut i: usize = 0;
        while i < ms.len()
            invariant
                i <= ms@.len(),
                forall|j: int| 0 <= j < i && j != index ==> #[trigger] ms@[j].released,
            decreases ms@.len() - i,
        {
            if i != index && !ms[i].released {
                return false;
            }
            i = i + 1;
        }
        true
    }

    /// The milestones of a milestone escrow.
    pub fn milestones(&self, id: u64) -> (r: Result<&MilestoneSet, Error>)
        ensures
            match r {
                Ok(m) => self@.milestones.contains_key(id) && *m == self@.milestones[id],
                Err(e) => !self@.milestones.contains_key(id) && e == Error::NotFound,
            },
    {
        match self.storage.milestones.get(&id) {
            Some(m) => Ok(m),
            None => Err(Error::NotFound),
        }
    }

    /// Close a settled escrow (terminal). Callable only once the funds have
    /// actually moved. An `Expired` escrow must be refunded first, so that
    /// custody is emptied before it can be closed.
    pub fn close(&mut self, env: &mut CallEnv, caller: Address, id: u64) -> (r: Result<(), Error>)
        requires
            old(self)@.wf(),
        ensures
            final(self)@.wf(),
            r == old(self)@.close_outcome(caller, id),
            final(env)@ == old(env)@.auth(caller),
            r is Err ==> *final(self) == *old(self),
            r is Ok ==> final(self)@ == old(self)@.with_escrow(
                id,
                Escrow { state: EscrowState::Closed, ..old(self)@.escrows[id] },
            ),
    {
        env.require_auth(caller);
        {
            let e = load_escrow(&self.storage, id)?;
            if e.state != EscrowState::Released && e.state != EscrowState::Refunded && e.state
                != EscrowState::Cancelled {
                return Err(Error::InvalidState);
            }
            if caller != e.sender && caller != e.recipient && caller != e.arbiter {
                return Err(Error::Unauthorized);
            }
        }
        let ghost before = self@;
        let mut escrow = self.checkout(id);
        escrow.state = EscrowState::Closed;
        store_escrow(&mut self.storage, id, escrow);
        proof {
            assert(self@ =~= before.with_escrow(id, escrow));
        }
        Ok(())
    }

    // --- views ---

    pub fn get(&self, id: u64) -> (r: Result<&Escrow, Error>)
        ensures
            match r {
                Ok(e) => self@.escrows.contains_key(id) && *e == self@.escrows[id],
                Err(e) => !self@.escrows.contains_key(id) && e == Error::NotFound,
            },
    {
        load_escrow(&self.storage, id)
    }
}

/// The basis points of the milestones that are agreed on.
pub open spec fn spec_bps(specs: Seq<MilestoneSpec>) -> int
    decreases specs.len(),
{
    if specs.len() == 0 {
        0
    } else {
        spec_bps(specs.drop_last()) + specs.last().release_bps
    }
}

/// The milestones that are agreed on, none released.
pub open spec fn open_milestones(specs: Seq<MilestoneSpec>) -> Seq<Milestone> {
    Seq::new(
        specs.len(),
        |i: int|
            Milestone {
                description: specs[i].description,
                release_bps: specs[i].release_bps,
                released: false,
            },
    )
}

proof fn lemma_open_milestones(specs: Seq<MilestoneSpec>, amount: int)
    ensures
        bps_sum(open_milestones(specs)) == spec_bps(specs),
        paid(open_milestones(specs), amount) == 0,
    decreases specs.len(),
{
    if specs.len() > 0 {
        lemma_open_milestones(specs.drop_last(), amount);
        assert(open_milestones(specs).drop_last() =~= open_milestones(specs.drop_last()));
    }
}

proof fn lemma_bps_at(ms: Seq<Milestone>, i: int)
    requires
        0 <= i < ms.len(),
    ensures
        ms[i].release_bps <= bps_sum(ms),
        0 <= bps_sum(ms),
    decreases ms.len(),
{
    let front = ms.drop_last();
    if front.len() > 0 {
        lemma_bps_at(front, if i < front.len() { i } else { 0 });
    } else {
        assert(bps_sum(front) == 0);
    }
}

/// The schedule of an escrow without one.
pub open spec fn unscheduled() -> ReleaseSchedule {
    ReleaseSchedule {
        release_type: ReleaseType::Unscheduled,
        start_time: 0,
        cliff_time: 0,
        end_time: 0,
    }
}

// --- laws ---

/// Override signatures bind the deployment, the network, the escrow and the
/// nonce: two payloads are equal only where all four are.
pub proof fn payload_binds_everything(
    contract1: Address,
    network1: Bytes32,
    id1: u64,
    nonce1: u64,
    contract2: Address,
    network2: Bytes32,
    id2: u64,
    nonce2: u64,
)
    requires
        payload(contract1, network1, id1, nonce1) == payload(contract2, network2, id2, nonce2),
    ensures
        contract1 == contract2,
        network1 == network2,
        id1 == id2,
        nonce1 == nonce2,
{
    let p = payload(contract1, network1, id1, nonce1);
    let q = payload(contract2, network2, id2, nonce2);
    lemma_encoded_lengths(contract1, network1, id1);
    lemma_encoded_lengths(contract2, network2, id2);
    lemma_encoded_lengths(contract1, network1, nonce1);
    lemma_encoded_lengths(contract2, network2, nonce2);
    let n = address_xdr(contract1).len() as int;
    assert(p.len() == n + 48);
    assert(q.len() == address_xdr(contract2).len() + 48);
    assert(p.subrange(0, n) =~= address_xdr(contract1));
    assert(q.subrange(0, n) =~= address_xdr(contract2));
    assert(p.subrange(n, n + 32) =~= bytes32(network1));
    assert(q.subrange(n, n + 32) =~= bytes32(network2));
    assert(p.subrange(n + 32, n + 40) =~= be_bytes(id1 as nat, 8));
    assert(q.subrange(n + 32, n + 40) =~= be_bytes(id2 as nat, 8));
    assert(p.subrange(n + 40, n + 48) =~= be_bytes(nonce1 as nat, 8));
    assert(q.subrange(n + 40, n + 48) =~= be_bytes(nonce2 as nat, 8));
    address_xdr_is_injective(contract1, contract2);
    bytes32_are_injective(network1, network2);
    be_bytes8_are_injective(id1, id2);
    be_bytes8_are_injective(nonce1, nonce2);
}

/// The signature override is not available on escrows with a schedule or with
/// milestones.
pub proof fn only_plain_escrows_can_be_overridden(
    s: StorageView,
    now: u64,
    id: u64,
    nonce: u64,
    signatures: Seq<OverrideSignature>,
)
    requires
        s.wf(),
        s.escrows.contains_key(id),
        s.escrows[id].scheduled() || s.milestones.contains_key(id),
    ensures
        s.override_outcome(now, id, nonce, signatures) == Err::<(), Error>(Error::Unauthorized),
{
    assert(s.escrows[id].valid());
}

/// A nonce that an escrow has consumed releases nothing again, nor does any
/// smaller one, whatever state the escrow is in.
pub proof fn override_nonces_cannot_be_replayed(
    s: StorageView,
    now: u64,
    id: u64,
    nonce: u64,
    signatures: Seq<OverrideSignature>,
)
    requires
        s.escrows.contains_key(id),
        nonce <= s.escrows[id].override_nonce,
    ensures
        s.override_outcome(now, id, nonce, signatures) is Err,
{
}

/// An override release carries at least a threshold of signatures, by distinct
/// keys that are all among the escrow's signers.
pub proof fn override_needs_a_threshold_of_signers(
    s: StorageView,
    now: u64,
    id: u64,
    nonce: u64,
    signatures: Seq<OverrideSignature>,
)
    requires
        s.override_outcome(now, id, nonce, signatures) is Ok,
    ensures
        signatures.len() >= s.escrows[id].override_threshold,
        forall|i: int|
            0 <= i < signatures.len() ==> s.escrows[id].override_signers@.contains(
                #[trigger] signatures[i].public_key,
            ),
        forall|i: int, j: int|
            0 <= i < j < signatures.len() ==> #[trigger] signatures[i].public_key
                != #[trigger] signatures[j].public_key,
{
    let f = key_ok(s.escrows[id].override_signers@, signatures);
    lemma_leading_all(f, signatures.len());
    assert forall|i: int| 0 <= i < signatures.len() implies s.escrows[id].override_signers@.contains(
        #[trigger] signatures[i].public_key,
    ) by {
        assert(f(i));
    }
    assert forall|i: int, j: int|
        0 <= i < j < signatures.len() implies #[trigger] signatures[i].public_key
        != #[trigger] signatures[j].public_key by {
        assert(f(j));
    }
}

/// A schedule unlocks between nothing and everything, and never takes back what
/// it has unlocked.
pub proof fn vesting_is_monotone(s: ReleaseSchedule, amount: int, earlier: u64, later: u64)
    requires
        schedule_ok(s),
        amount >= 0,
        earlier <= later,
    ensures
        0 <= vested(s, amount, earlier) <= vested(s, amount, later) <= amount,
{
    if s.release_type == ReleaseType::Linear {
        lemma_fraction(amount, earlier - s.start_time, s.end_time - s.start_time);
        lemma_fraction(amount, later - s.start_time, s.end_time - s.start_time);
        if s.cliff_time <= earlier && later < s.end_time {
            let d = s.end_time - s.start_time;
            assert(amount * (earlier - s.start_time) <= amount * (later - s.start_time))
                by (nonlinear_arith)
                requires
                    amount >= 0,
                    earlier <= later,
            ;
            vstd::arithmetic::div_mod::lemma_div_is_ordered(
                amount * (earlier - s.start_time),
                amount * (later - s.start_time),
                d,
            );
        }
    }
}

proof fn lemma_fraction(amount: int, part: int, whole: int)
    requires
        amount >= 0,
        whole > 0,
    ensures
        0 <= part ==> 0 <= amount * part / whole,
        0 <= part <= whole ==> amount * part / whole <= amount,
{
    if 0 <= part {
        assert(0 <= amount * part) by (nonlinear_arith)
            requires
                0 <= amount,
                0 <= part,
        ;
        vstd::arithmetic::div_mod::lemma_div_pos_is_pos(amount * part, whole);
        if part <= whole {
            assert(amount * part <= amount * whole) by (nonlinear_arith)
                requires
                    0 <= amount,
                    part <= whole,
            ;
            vstd::arithmetic::div_mod::lemma_div_is_ordered(amount * part, amount * whole, whole);
            vstd::arithmetic::div_mod::lemma_div_by_multiple(amount, whole);
        }
    }
}

/// What the recipient draws never exceeds what the schedule has unlocked.
pub proof fn draws_stay_within_the_schedule(
    s: StorageView,
    now: u64,
    caller: Address,
    id: u64,
    amount: i128,
)
    requires
        s.wf(),
        s.withdraw_outcome(now, caller, id, amount) is Ok,
    ensures
        s.withdraw_outcome(now, caller, id, amount)->Ok_0 <= s.escrows[id].vested_at(now),
        after_draw(s.escrows[id], amount as int).released_amount <= s.escrows[id].vested_at(now),
{
    let e = s.escrows[id];
    vesting_is_monotone(e.schedule, e.funded_amount as int, now, now);
}

/// Once an escrow is settled it holds nothing, and no call pays anything out of
/// it again.
pub proof fn settled_escrow_pays_nothing_more(
    s: StorageView,
    now: u64,
    caller: Address,
    id: u64,
    amount: i128,
    nonce: u64,
    signatures: Seq<OverrideSignature>,
    index: u32,
)
    requires
        s.escrows.contains_key(id),
        ({
            let state = s.escrows[id].state;
            state == EscrowState::Released || state == EscrowState::Refunded || state
                == EscrowState::Cancelled || state == EscrowState::Closed
        }),
    ensures
        s.escrows[id].held().len() == 0,
        s.release_outcome(now, caller, id, amount) is Err,
        s.override_outcome(now, id, nonce, signatures) is Err,
        s.claim_outcome(now, caller, id) is Err,
        s.withdraw_outcome(now, caller, id, amount) is Err,
        s.release_milestone_outcome(now, caller, id, index) is Err,
        s.refund_outcome(now, id) is Err,
        s.reclaim_outcome(now, caller, id) is Err,
        s.refund_timelock_outcome(now, caller, id) is Err,
        s.cancel_outcome(now, caller, id) is Err,
        s.fund_outcome(caller, id) is Err,
        s.expire_outcome(now, id) is Err,
{
}

/// A closed escrow was settled first, and stays closed.
pub proof fn closing_needs_settlement(s: StorageView, caller: Address, id: u64, who: Address)
    requires
        s.close_outcome(caller, id) is Ok,
    ensures
        s.escrows[id].held().len() == 0,
        s.with_escrow(
            id,
            Escrow { state: EscrowState::Closed, ..s.escrows[id] },
        ).close_outcome(who, id) is Err,
{
}

/// At no time can an escrow both go to the recipient and back to the sender:
/// the arbiter's window ends where the refund's begins.
pub proof fn release_and_refund_exclude_each_other(
    s: StorageView,
    now: u64,
    arbiter: Address,
    id: u64,
    amount: i128,
    index: u32,
)
    requires
        s.release_outcome(now, arbiter, id, amount) is Ok || s.release_milestone_outcome(
            now,
            arbiter,
            id,
            index,
        ) is Ok,
    ensures
        s.refund_outcome(now, id) is Err,
        s.expire_outcome(now, id) is Err,
{
}

/// A milestone escrow that has released its last milestone has paid out the
/// whole amount, and one still funded has paid out the released shares.
pub proof fn milestone_payouts_add_up(s: StorageView, id: u64)
    requires
        s.wf(),
        s.milestones.contains_key(id),
    ensures
        s.milestones[id].released_amount == s.escrows[id].released_amount,
        s.escrows[id].state == EscrowState::Released ==> s.milestones[id].released_amount
            == s.escrows[id].assets@[0].amount,
        s.escrows[id].state == EscrowState::Funded ==> s.milestones[id].released_amount == paid(
            s.milestones[id].milestones@,
            s.escrows[id].assets@[0].amount as int,
        ),
{
    assert(s.escrows[id].valid());
}

/// How much of an asset a list holds.
pub open spec fn amount_of(assets: Seq<AssetAmount>, asset: Address) -> int
    decreases assets.len(),
{
    if assets.len() == 0 {
        0
    } else {
        amount_of(assets.drop_last(), asset) + if assets.last().asset == asset {
            assets.last().amount as int
        } else {
            0
        }
    }
}

/// What an escrow still holds of an asset.
pub open spec fn held_of(s: StorageView, id: u64, asset: Address) -> int {
    if s.escrows.contains_key(id) {
        amount_of(s.escrows[id].held(), asset)
    } else {
        0
    }
}

/// What the first `n` escrows still hold of an asset.
pub open spec fn total_held(s: StorageView, asset: Address, n: nat) -> int
    decreases n,
{
    if n == 0 {
        0
    } else {
        total_held(s, asset, (n - 1) as nat) + held_of(s, n as u64, asset)
    }
}

/// The contract holds everything that its escrows still owe.
pub open spec fn covered(s: StorageView, e: EnvView) -> bool {
    forall|asset: Address| #[trigger] total_held(s, asset, s.total() as nat) <= e.holds(asset)
}

proof fn lemma_held_change(s: StorageView, t: StorageView, id: u64, asset: Address, n: nat)
    requires
        1 <= id,
        n <= u64::MAX,
        forall|k: u64| k != id ==> #[trigger] held_of(t, k, asset) == held_of(s, k, asset),
    ensures
        total_held(t, asset, n) == total_held(s, asset, n) + (if id <= n {
            held_of(t, id, asset) - held_of(s, id, asset)
        } else {
            0
        }),
    decreases n,
{
    if n > 0 {
        lemma_held_change(s, t, id, asset, (n - 1) as nat);
        if n != id {
            assert(held_of(t, n as u64, asset) == held_of(s, n as u64, asset));
        }
    }
}

proof fn lemma_amount_split(x: AssetAmount, rest: Seq<AssetAmount>, asset: Address)
    ensures
        amount_of(seq![x] + rest, asset) == amount_of(rest, asset) + (if x.asset == asset {
            x.amount as int
        } else {
            0
        }),
    decreases rest.len(),
{
    let all = seq![x] + rest;
    if rest.len() == 0 {
        assert(all.drop_last() =~= Seq::<AssetAmount>::empty());
        assert(all.last() == x);
        assert(amount_of(all.drop_last(), asset) == 0);
    } else {
        lemma_amount_split(x, rest.drop_last(), asset);
        assert(all.drop_last() =~= seq![x] + rest.drop_last());
        assert(all.last() == rest.last());
    }
}

proof fn lemma_amount_nonneg(assets: Seq<AssetAmount>, asset: Address)
    requires
        forall|i: int| 0 <= i < assets.len() ==> #[trigger] assets[i].amount >= 0,
    ensures
        amount_of(assets, asset) >= 0,
    decreases assets.len(),
{
    if assets.len() > 0 {
        let front = assets.drop_last();
        assert forall|i: int| 0 <= i < front.len() implies #[trigger] front[i].amount >= 0 by {
            assert(assets[i].amount >= 0);
        }
        lemma_amount_nonneg(front, asset);
        assert(assets[assets.len() - 1].amount >= 0);
    }
}

proof fn lemma_pay_holds(
    e: EnvView,
    assets: Seq<AssetAmount>,
    from: Address,
    to: Address,
    asset: Address,
)
    ensures
        ({
            let paid = pay_all(e, assets, from, to);
            &&& paid.contract == e.contract
            &&& paid.holds(asset) == e.holds(asset) + (if to == e.contract {
                amount_of(assets, asset)
            } else {
                0
            }) - (if from == e.contract {
                amount_of(assets, asset)
            } else {
                0
            })
        }),
    decreases assets.len(),
{
    broadcast use lemma_holds;

    if assets.len() > 0 {
        lemma_pay_holds(e, assets.drop_last(), from, to, asset);
    }
}

proof fn lemma_report_holds(
    e: EnvView,
    assets: Seq<AssetAmount>,
    from: Address,
    to: Address,
    asset: Address,
)
    ensures
        report_all(e, assets, from, to).contract == e.contract,
        report_all(e, assets, from, to).holds(asset) == e.holds(asset),
    decreases assets.len(),
{
    broadcast use lemma_holds;

    if assets.len() > 0 {
        lemma_report_holds(e, assets.drop_last(), from, to, asset);
    }
}

/// Taking a new escrow's assets into custody keeps every escrow covered.
pub proof fn funding_is_covered(s: StorageView, e: EnvView, id: u64, escrow: Escrow, event: Event)
    requires
        s.wf(),
        covered(s, e),
        id == s.total() + 1,
        escrow.valid(),
        escrow.state == EscrowState::Funded,
        escrow.released_amount == 0,
        escrow.sender != e.contract,
    ensures
        covered(
            s.with_new(id, escrow),
            pay_all(e.auth(escrow.sender), escrow.assets@, escrow.sender, e.contract).emit(event),
        ),
{
    broadcast use lemma_holds;

    let t = s.with_new(id, escrow);
    let e1 = e.auth(escrow.sender);
    let after = pay_all(e1, escrow.assets@, escrow.sender, e.contract).emit(event);
    assert(escrow.held() =~= escrow.assets@);
    assert forall|asset: Address| #[trigger] total_held(t, asset, t.total() as nat) <= after.holds(
        asset,
    ) by {
        assert(total_held(s, asset, s.total() as nat) <= e.holds(asset));
        lemma_held_change(s, t, id, asset, (id - 1) as nat);
        assert(total_held(t, asset, id as nat) == total_held(t, asset, (id - 1) as nat) + held_of(
            t,
            id,
            asset,
        ));
        lemma_pay_holds(e1, escrow.assets@, escrow.sender, e.contract, asset);
    }
}

/// Paying everything an escrow holds to anyone, while settling it, keeps every
/// other escrow covered.
pub proof fn settlements_are_covered(
    s: StorageView,
    e: EnvView,
    id: u64,
    settled: Escrow,
    to: Address,
)
    requires
        s.wf(),
        covered(s, e),
        s.escrows.contains_key(id),
        s.escrows[id].in_custody(),
        !settled.in_custody(),
    ensures
        covered(
            s.with_escrow(id, settled),
            pay_all(e, s.escrows[id].held(), e.contract, to),
        ),
{
    let t = s.with_escrow(id, settled);
    let before = s.escrows[id];
    let after = pay_all(e, before.held(), e.contract, to);
    assert(before.valid());
    assert forall|asset: Address| #[trigger] total_held(t, asset, t.total() as nat) <= after.holds(
        asset,
    ) by {
        assert(total_held(s, asset, s.total() as nat) <= e.holds(asset));
        lemma_held_change(s, t, id, asset, s.total() as nat);
        lemma_pay_holds(e, before.held(), e.contract, to, asset);
        assert(amount_of(settled.held(), asset) == 0);
        assert forall|i: int| 0 <= i < before.held().len() implies #[trigger] before.held()[i].amount
            >= 0 by {
            assert(before.assets@[i].amount > 0);
        }
        lemma_amount_nonneg(before.held(), asset);
    }
}

/// Drawing from a schedule keeps every escrow covered: what is paid is exactly
/// what the escrow holds less.
pub proof fn draws_are_covered(s: StorageView, e: EnvView, id: u64, amount: i128)
    requires
        s.wf(),
        covered(s, e),
        s.escrows.contains_key(id),
        s.escrows[id].state == EscrowState::Funded,
        0 < amount <= s.escrows[id].funded_amount - s.escrows[id].released_amount,
        s.escrows[id].recipient != e.contract,
    ensures
        covered(
            s.with_escrow(id, after_draw(s.escrows[id], amount as int)),
            paid_out(e, s.escrows[id], drawn(s.escrows[id], amount as int)),
        ),
{
    let x = s.escrows[id];
    let y = after_draw(x, amount as int);
    let t = s.with_escrow(id, y);
    let due = drawn(x, amount as int);
    let paid = pay_all(e, due, e.contract, x.recipient);
    let after = paid_out(e, x, due);
    assert(x.valid());
    assert forall|asset: Address| #[trigger] total_held(t, asset, t.total() as nat) <= after.holds(
        asset,
    ) by {
        assert(total_held(s, asset, s.total() as nat) <= e.holds(asset));
        lemma_held_change(s, t, id, asset, s.total() as nat);
        lemma_pay_holds(e, due, e.contract, x.recipient, asset);
        lemma_report_holds(paid, due, x.sender, x.recipient, asset);
        lemma_draw_amounts(x, amount, asset);
    }
}

/// What is drawn is exactly what the escrow holds less.
proof fn lemma_draw_amounts(x: Escrow, amount: i128, asset: Address)
    requires
        x.valid(),
        x.state == EscrowState::Funded,
        0 < amount <= x.funded_amount - x.released_amount,
    ensures
        amount_of(after_draw(x, amount as int).held(), asset) == amount_of(x.held(), asset)
            - amount_of(drawn(x, amount as int), asset),
{
    let y = after_draw(x, amount as int);
    let all = x.assets@;
    let left = AssetAmount {
        asset: all[0].asset,
        amount: (x.funded_amount - x.released_amount) as i128,
    };
    let first = AssetAmount { asset: all[0].asset, amount };
    let rest = all.skip(1);
    assert(x.held() =~= seq![left] + rest);
    lemma_amount_split(left, rest, asset);
    if x.released_amount + amount == x.funded_amount {
        lemma_amount_split(first, rest, asset);
        assert(y.held() =~= Seq::<AssetAmount>::empty());
    } else {
        let after = AssetAmount {
            asset: all[0].asset,
            amount: (x.funded_amount - x.released_amount - amount) as i128,
        };
        assert(y.held() =~= seq![after] + rest);
        lemma_amount_split(after, rest, asset);
        assert(drawn(x, amount as int) =~= seq![first] + Seq::<AssetAmount>::empty());
        lemma_amount_split(first, Seq::empty(), asset);
    }
}

/// A milestone payment keeps every escrow covered.
pub proof fn milestone_payments_are_covered(
    s: StorageView,
    e: EnvView,
    id: u64,
    payment: i128,
    last: bool,
)
    requires
        s.wf(),
        covered(s, e),
        s.milestones.contains_key(id),
        s.escrows[id].state == EscrowState::Funded,
        0 <= payment <= s.escrows[id].funded_amount - s.escrows[id].released_amount,
        last ==> payment == s.escrows[id].funded_amount - s.escrows[id].released_amount,
        s.escrows[id].recipient != e.contract,
    ensures
        ({
            let x = s.escrows[id];
            covered(
                s.with_escrow(
                    id,
                    Escrow {
                        released_amount: (x.released_amount + payment) as i128,
                        state: if last {
                            EscrowState::Released
                        } else {
                            EscrowState::Funded
                        },
                        ..x
                    },
                ),
                paid_out(
                    e,
                    x,
                    seq![AssetAmount { asset: x.assets@[0].asset, amount: payment }],
                ),
            )
        }),
{
    let x = s.escrows[id];
    let y = Escrow {
        released_amount: (x.released_amount + payment) as i128,
        state: if last {
            EscrowState::Released
        } else {
            EscrowState::Funded
        },
        ..x
    };
    let t = s.with_escrow(id, y);
    let first = AssetAmount { asset: x.assets@[0].asset, amount: payment };
    let due = seq![first];
    let paid = pay_all(e, due, e.contract, x.recipient);
    let after = paid_out(e, x, due);
    assert(x.valid());
    assert forall|asset: Address| #[trigger] total_held(t, asset, t.total() as nat) <= after.holds(
        asset,
    ) by {
        assert(total_held(s, asset, s.total() as nat) <= e.holds(asset));
        lemma_held_change(s, t, id, asset, s.total() as nat);
        lemma_pay_holds(e, due, e.contract, x.recipient, asset);
        lemma_report_holds(paid, due, x.sender, x.recipient, asset);
        let none = Seq::<AssetAmount>::empty();
        let left = AssetAmount {
            asset: x.assets@[0].asset,
            amount: (x.funded_amount - x.released_amount) as i128,
        };
        assert(x.held() =~= seq![left] + none);
        lemma_amount_split(left, none, asset);
        assert(due =~= seq![first] + none);
        lemma_amount_split(first, none, asset);
        if last {
            assert(y.held() =~= none);
        } else {
            let rest = AssetAmount {
                asset: x.assets@[0].asset,
                amount: (x.funded_amount - x.released_amount - payment) as i128,
            };
            assert(y.held() =~= seq![rest] + none);
            lemma_amount_split(rest, none, asset);
        }
    }
}

proof fn lemma_pay_log(e: EnvView, assets: Seq<AssetAmount>, from: Address, to: Address)
    ensures
        ({
            let log = pay_all(e, assets, from, to).log;
            &&& log.len() == e.log.len() + assets.len()
            &&& pay_all(e, assets, from, to).contract == e.contract
            &&& forall|j: int| 0 <= j < e.log.len() ==> #[trigger] log[j] == e.log[j]
            &&& forall|i: int|
                0 <= i < assets.len() ==> #[trigger] log[e.log.len() + i] == (Effect::Transfer {
                    asset: assets[i].asset,
                    from,
                    to,
                    amount: assets[i].amount,
                })
        }),
    decreases assets.len(),
{
    if assets.len() > 0 {
        lemma_pay_log(e, assets.drop_last(), from, to);
    }
}

proof fn lemma_report_log(e: EnvView, assets: Seq<AssetAmount>, from: Address, to: Address)
    ensures
        ({
            let log = report_all(e, assets, from, to).log;
            &&& log.len() == e.log.len() + assets.len()
            &&& forall|j: int| 0 <= j < e.log.len() ==> #[trigger] log[j] == e.log[j]
            &&& forall|j: int|
                e.log.len() <= j < log.len() ==> (#[trigger] log[j]) is Publish
        }),
    decreases assets.len(),
{
    if assets.len() > 0 {
        lemma_report_log(e, assets.drop_last(), from, to);
    }
}

/// The log goes on, after a point, by moving exactly these amounts from one
/// address to another, in order, and moves nothing else after it.
pub open spec fn moves(
    before: Seq<Effect>,
    after: Seq<Effect>,
    at: int,
    amounts: Seq<AssetAmount>,
    from: Address,
    to: Address,
) -> bool {
    &&& before.len() <= at
    &&& at + amounts.len() <= after.len()
    &&& after.take(before.len() as int) == before
    &&& forall|i: int|
        0 <= i < amounts.len() ==> #[trigger] after[at + i] == (Effect::Transfer {
            asset: amounts[i].asset,
            from,
            to,
            amount: amounts[i].amount,
        })
    &&& forall|j: int|
        before.len() <= j < after.len() && (#[trigger] after[j]) is Transfer ==> at <= j < at
            + amounts.len()
}

/// While an escrow is in custody it holds all of its assets, the first less what
/// has been released of it; otherwise it holds nothing.
pub proof fn escrows_hold_what_was_not_released(e: Escrow, i: int)
    requires
        e.valid(),
    ensures
        e.state == EscrowState::Funded || e.state == EscrowState::Expired ==> {
            &&& e.held().len() == e.assets@.len()
            &&& e.held()[0].asset == e.assets@[0].asset
            &&& e.held()[0].amount == e.assets@[0].amount - e.released_amount
            &&& 0 < i < e.assets@.len() ==> e.held()[i] == e.assets@[i]
        },
        e.state != EscrowState::Funded && e.state != EscrowState::Expired ==> e.held().len() == 0,
{
}

/// What comes back to the sender is all that the escrow holds, out of custody,
/// to the sender and nobody else.
pub proof fn refunds_go_to_the_sender(e0: EnvView, e: Escrow, event: Event)
    requires
        !(event is Contract),
    ensures
        moves(
            e0.log,
            returned_env(e0, e, event).log,
            e0.log.len() as int,
            e.held(),
            e0.contract,
            e.sender,
        ),
{
    lemma_pay_log(e0, e.held(), e0.contract, e.sender);
    let log = returned_env(e0, e, event).log;
    let paid = pay_all(e0, e.held(), e0.contract, e.sender).log;
    assert(log.take(e0.log.len() as int) =~= e0.log) by {
        assert forall|j: int| 0 <= j < e0.log.len() implies log[j] == e0.log[j] by {
            assert(paid[j] == e0.log[j]);
        }
    }
    assert forall|i: int| 0 <= i < e.held().len() implies #[trigger] log[e0.log.len() as int + i] == (
    Effect::Transfer {
        asset: e.held()[i].asset,
        from: e0.contract,
        to: e.sender,
        amount: e.held()[i].amount,
    }) by {
        assert(paid[e0.log.len() + i] == log[e0.log.len() + i]);
    }
}

/// What is paid out goes out of custody to the recipient and nobody else, and is
/// exactly the amounts that are due.
pub proof fn payouts_go_to_the_recipient(e0: EnvView, e: Escrow, amounts: Seq<AssetAmount>)
    ensures
        moves(
            e0.log,
            paid_out(e0, e, amounts).log,
            e0.log.len() as int,
            amounts,
            e0.contract,
            e.recipient,
        ),
{
    lemma_pay_log(e0, amounts, e0.contract, e.recipient);
    let p = pay_all(e0, amounts, e0.contract, e.recipient);
    lemma_report_log(p, amounts, e.sender, e.recipient);
    let log = paid_out(e0, e, amounts).log;
    assert(log.take(e0.log.len() as int) =~= e0.log) by {
        assert forall|j: int| 0 <= j < e0.log.len() implies log[j] == e0.log[j] by {
            assert(p.log[j] == e0.log[j]);
        }
    }
    assert forall|i: int| 0 <= i < amounts.len() implies #[trigger] log[e0.log.len() as int + i] == (
    Effect::Transfer {
        asset: amounts[i].asset,
        from: e0.contract,
        to: e.recipient,
        amount: amounts[i].amount,
    }) by {
        assert(log[e0.log.len() + i] == p.log[e0.log.len() + i]);
    }
    assert forall|j: int| e0.log.len() <= j < log.len() && (#[trigger] log[j]) is Transfer implies
        e0.log.len() <= j < e0.log.len() + amounts.len() by {
        if j >= p.log.len() {
            assert(log[j] is Publish);
        }
    }
}

/// A release pays the recipient everything that the escrow holds.
pub proof fn releases_pay_everything_held(
    e0: EnvView,
    e1: EnvView,
    id: u64,
    e: Escrow,
    last: Event,
)
    requires
        is_release(e0, e1, id, e, last),
    ensures
        moves(e0.log, e1.log, e0.log.len() as int, e.held(), e0.contract, e.recipient),
        e1.log.last() == Effect::Publish(last),
{
    payouts_go_to_the_recipient(e0, e, e.held());
    let paid = paid_out(e0, e, e.held()).log;
    assert(e1.log.take(paid.len() as int) =~= paid);
    assert(e1.log.take(e0.log.len() as int) =~= paid.take(e0.log.len() as int));
    assert forall|i: int| 0 <= i < e.held().len() implies #[trigger] e1.log[e0.log.len() as int + i]
        == (Effect::Transfer {
        asset: e.held()[i].asset,
        from: e0.contract,
        to: e.recipient,
        amount: e.held()[i].amount,
    }) by {
        assert(paid[e0.log.len() as int + i] == e1.log[e0.log.len() as int + i]);
    }
    assert forall|j: int| e0.log.len() <= j < e1.log.len() && (#[trigger] e1.log[j]) is Transfer implies
        e0.log.len() <= j < e0.log.len() + e.held().len() by {
        if j < paid.len() {
            assert(paid[j] == e1.log[j]);
        }
    }
}

/// Funding takes every listed amount from the sender, who has to authorize it,
/// into custody.
pub proof fn funding_comes_from_the_sender(
    e0: EnvView,
    e1: EnvView,
    id: u64,
    sender: Address,
    recipient: Address,
    assets: Seq<AssetAmount>,
)
    requires
        is_funding(e0, e1, id, sender, recipient, assets),
    ensures
        e1.log[e0.log.len() as int] == Effect::RequireAuth(sender),
        moves(e0.log, e1.log, e0.log.len() as int + 1, assets, sender, e0.contract),
{
    let a = e0.auth(sender);
    lemma_pay_log(a, assets, sender, e0.contract);
    let paid = pay_all(a, assets, sender, e0.contract).log;
    let log = e1.log;
    assert(log.take(paid.len() as int) =~= paid);
    assert(paid[e0.log.len() as int] == a.log[e0.log.len() as int]);
    assert(log.take(e0.log.len() as int) =~= e0.log) by {
        assert forall|j: int| 0 <= j < e0.log.len() implies log[j] == e0.log[j] by {
            assert(paid[j] == a.log[j]);
        }
    }
    assert forall|i: int| 0 <= i < assets.len() implies #[trigger] log[e0.log.len() as int + 1 + i]
        == (Effect::Transfer {
        asset: assets[i].asset,
        from: sender,
        to: e0.contract,
        amount: assets[i].amount,
    }) by {
        assert(paid[a.log.len() + i] == log[a.log.len() + i]);
    }
    assert forall|j: int| e0.log.len() <= j < log.len() && (#[trigger] log[j]) is Transfer implies
        e0.log.len() + 1 <= j < e0.log.len() + 1 + assets.len() by {
        if j == e0.log.len() {
            assert(paid[j] == a.log[j]);
        }
    }
}

/// An override release is owed exactly where the escrow is funded, has signers
/// and a threshold, is before its deadline, the nonce is new, and the signatures
/// are at least as many as the threshold, by different keys, all of them among
/// the signers: more signatures than needed do no harm.
pub proof fn enough_signatures_release(
    s: StorageView,
    now: u64,
    id: u64,
    nonce: u64,
    signatures: Seq<OverrideSignature>,
)
    requires
        s.escrows.contains_key(id),
    ensures
        s.override_outcome(now, id, nonce, signatures) is Ok <==> {
            let e = s.escrows[id];
            &&& e.state == EscrowState::Funded
            &&& e.override_signers@.len() > 0 && e.override_threshold > 0
            &&& now < e.deadline
            &&& nonce > e.override_nonce
            &&& signatures.len() >= e.override_threshold
            &&& forall|i: int|
                0 <= i < signatures.len() ==> e.override_signers@.contains(
                    #[trigger] signatures[i].public_key,
                )
            &&& forall|i: int, j: int|
                0 <= i < j < signatures.len() ==> #[trigger] signatures[i].public_key
                    != #[trigger] signatures[j].public_key
        },
{
    let f = key_ok(s.escrows[id].override_signers@, signatures);
    lemma_leading_all(f, signatures.len());
    if s.override_outcome(now, id, nonce, signatures) is Ok {
        override_needs_a_threshold_of_signers(s, now, id, nonce, signatures);
    }
    if (forall|i: int|
        0 <= i < signatures.len() ==> s.escrows[id].override_signers@.contains(
            #[trigger] signatures[i].public_key,
        )) && (forall|i: int, j: int|
        0 <= i < j < signatures.len() ==> #[trigger] signatures[i].public_key
            != #[trigger] signatures[j].public_key) {
        assert forall|i: int| 0 <= i < signatures.len() implies #[trigger] f(i) by {
            assert(s.escrows[id].override_signers@.contains(signatures[i].public_key));
        }
    }
}

proof fn lemma_verify_log(e: EnvView, signatures: Seq<OverrideSignature>, message: Bytes32)
    ensures
        ({
            let log = verify_all(e, signatures, message).log;
            &&& log.len() == e.log.len() + signatures.len()
            &&& verify_all(e, signatures, message).contract == e.contract
            &&& forall|j: int| 0 <= j < e.log.len() ==> #[trigger] log[j] == e.log[j]
            &&& forall|i: int|
                0 <= i < signatures.len() ==> #[trigger] log[e.log.len() + i] == (
                Effect::VerifySignature {
                    public_key: signatures[i].public_key,
                    message,
                    signature: signatures[i].signature,
                })
        }),
    decreases signatures.len(),
{
    if signatures.len() > 0 {
        lemma_verify_log(e, signatures.drop_last(), message);
    }
}

/// An override release that is owed has every one of the signatures verified
/// over the digest, and then pays the recipient all that the escrow holds; the
/// escrow is released and the nonce consumed.
pub proof fn overrides_verify_and_then_pay(
    before: StorageView,
    after: StorageView,
    e0: EnvView,
    e1: EnvView,
    id: u64,
    nonce: u64,
    digest: Bytes32,
    signatures: Seq<OverrideSignature>,
)
    requires
        is_override(before, after, e0, e1, id, nonce, digest, signatures),
        before.override_outcome(e0.timestamp, id, nonce, signatures) is Ok,
    ensures
        ({
            let e = before.escrows[id];
            let start = e0.log.len() as int;
            &&& after.escrows[id].state == EscrowState::Released
            &&& after.escrows[id].released_amount == e.funded_amount
            &&& after.escrows[id].override_nonce == nonce
            &&& after.escrows[id].recipient == e.recipient && after.escrows[id].assets == e.assets
            &&& forall|i: int|
                0 <= i < signatures.len() ==> #[trigger] e1.log[start + i] == (
                Effect::VerifySignature {
                    public_key: signatures[i].public_key,
                    message: digest,
                    signature: signatures[i].signature,
                })
            &&& moves(
                e0.log,
                e1.log,
                start + signatures.len(),
                e.held(),
                e0.contract,
                e.recipient,
            )
        }),
{
    let e = before.escrows[id];
    let v = verify_all(e0, signatures, digest);
    lemma_verify_log(e0, signatures, digest);
    releases_pay_everything_held(v, e1, id, e, Event::EscrowOverridden { id, nonce });
    let start = e0.log.len() as int;
    let log = e1.log;
    assert forall|j: int| 0 <= j < v.log.len() implies #[trigger] log[j] == v.log[j] by {
        assert(log.take(v.log.len() as int)[j] == v.log[j]);
    }
    assert(log.take(start) =~= e0.log) by {
        assert forall|j: int| 0 <= j < start implies log[j] == e0.log[j] by {
            assert(v.log[j] == e0.log[j]);
        }
    }
    assert forall|i: int| 0 <= i < signatures.len() implies #[trigger] log[start + i] == (
    Effect::VerifySignature {
        public_key: signatures[i].public_key,
        message: digest,
        signature: signatures[i].signature,
    }) by {
        assert(log[start + i] == v.log[e0.log.len() + i]);
    }
    assert forall|i: int| 0 <= i < e.held().len() implies #[trigger] log[start + signatures.len() + i]
        == (Effect::Transfer {
        asset: e.held()[i].asset,
        from: e0.contract,
        to: e.recipient,
        amount: e.held()[i].amount,
    }) by {
        assert(log[v.log.len() as int + i] is Transfer);
    }
    assert forall|j: int| start <= j < log.len() && (#[trigger] log[j]) is Transfer implies start
        + signatures.len() <= j < start + signatures.len() + e.held().len() by {
        if j < v.log.len() {
            let i = j - start;
            assert(v.log[e0.log.len() + i] is VerifySignature);
        }
    }
}

/// The arbiter can release a funded escrow without schedule or milestones before
/// its deadline and grace period are over, naming the amount; nobody else can,
/// and at no other time.
pub proof fn arbiter_releases_in_time(
    s: StorageView,
    now: u64,
    arbiter: Address,
    id: u64,
    amount: i128,
)
    requires
        s.escrows.contains_key(id),
    ensures
        s.release_outcome(now, arbiter, id, amount) is Ok <==> {
            let e = s.escrows[id];
            &&& e.arbiter == arbiter
            &&& e.state == EscrowState::Funded
            &&& e.schedule.release_type == ReleaseType::Unscheduled
            &&& !s.milestones.contains_key(id)
            &&& now < e.deadline + e.grace_period
            &&& amount == e.funded_amount - e.released_amount
        },
        now >= s.escrows[id].deadline + s.escrows[id].grace_period ==> s.release_outcome(
            now,
            arbiter,
            id,
            amount,
        ) is Err,
{
}

/// A cliff unlocks everything at its time and nothing before; a linear schedule
/// unlocks nothing before its cliff, everything at its end, and in between the
/// fraction of the time that has gone by, rounded down.
pub proof fn schedules_unlock_on_time(s: ReleaseSchedule, amount: int, now: u64)
    requires
        schedule_ok(s),
        amount >= 0,
    ensures
        s.release_type == ReleaseType::Unscheduled ==> vested(s, amount, now) == 0,
        s.release_type == ReleaseType::Cliff && now < s.cliff_time ==> vested(s, amount, now) == 0,
        s.release_type == ReleaseType::Cliff && now >= s.cliff_time ==> vested(s, amount, now)
            == amount,
        s.release_type == ReleaseType::Linear && now < s.cliff_time ==> vested(s, amount, now) == 0,
        s.release_type == ReleaseType::Linear && now >= s.end_time ==> vested(s, amount, now)
            == amount,
        s.release_type == ReleaseType::Linear && s.cliff_time <= now < s.end_time ==> {
            let v = vested(s, amount, now);
            let whole = s.end_time - s.start_time;
            v * whole <= amount * (now - s.start_time) < (v + 1) * whole
        },
{
    if s.release_type == ReleaseType::Linear && s.cliff_time <= now < s.end_time {
        let v = vested(s, amount, now);
        let whole = s.end_time - s.start_time;
        let x = amount * (now - s.start_time);
        vstd::arithmetic::div_mod::lemma_fundamental_div_mod(x, whole);
        assert((v + 1) * whole == v * whole + whole && v * whole == whole * v) by (nonlinear_arith);
    }
}

/// The recipient of a funded, scheduled escrow can draw what is unlocked and not
/// drawn yet, all of it or any part, and no more; nobody else can. With the last
/// of the first asset all others are paid, and the escrow is released.
pub proof fn unlocked_amounts_can_be_drawn(
    s: StorageView,
    now: u64,
    caller: Address,
    id: u64,
    amount: i128,
)
    requires
        s.wf(),
        s.escrows.contains_key(id),
    ensures
        ({
            let e = s.escrows[id];
            let open = vested(e.schedule, e.assets@[0].amount as int, now) - e.released_amount;
            let may = e.recipient == caller && e.state == EscrowState::Funded
                && e.schedule.release_type != ReleaseType::Unscheduled;
            let t = after_draw(e, amount as int);
            let due = drawn(e, amount as int);
            &&& s.claim_outcome(now, caller, id) is Ok <==> may && open > 0
            &&& s.claim_outcome(now, caller, id) is Ok ==> s.claim_outcome(now, caller, id)->Ok_0
                == open
            &&& s.withdraw_outcome(now, caller, id, amount) is Ok <==> may && 0 < amount <= open
            &&& s.withdraw_outcome(now, caller, id, amount) is Ok ==> {
                &&& s.withdraw_outcome(now, caller, id, amount)->Ok_0 == e.released_amount + amount
                &&& t.released_amount == e.released_amount + amount
                &&& t.state == (if e.released_amount + amount == e.assets@[0].amount {
                    EscrowState::Released
                } else {
                    EscrowState::Funded
                })
                &&& t.sender == e.sender && t.recipient == e.recipient && t.assets == e.assets
                &&& t.schedule == e.schedule && t.deadline == e.deadline
                &&& due[0].asset == e.assets@[0].asset && due[0].amount == amount
                &&& e.released_amount + amount < e.assets@[0].amount ==> due.len() == 1
                &&& e.released_amount + amount == e.assets@[0].amount ==> due.skip(1)
                    == e.assets@.skip(1)
            }
        }),
{
    let e = s.escrows[id];
    assert(e.valid());
    if e.state == EscrowState::Funded {
        vesting_is_monotone(e.schedule, e.funded_amount as int, now, now);
    }
    if e.released_amount + amount == e.funded_amount {
        let due = drawn(e, amount as int);
        assert(due.skip(1) =~= e.assets@.skip(1));
    }
}

/// An escrow without schedule goes back to its sender, or is marked expired,
/// exactly from the end of its deadline and grace period on, while it is in
/// custody; the sender alone may reclaim it.
pub proof fn refunds_wait_for_the_deadline(s: StorageView, now: u64, caller: Address, id: u64)
    requires
        s.escrows.contains_key(id),
    ensures
        ({
            let e = s.escrows[id];
            let due = e.schedule.release_type == ReleaseType::Unscheduled && now >= e.deadline
                + e.grace_period;
            let funded = e.state == EscrowState::Funded;
            let expired = e.state == EscrowState::Expired;
            &&& s.refund_outcome(now, id) is Ok <==> due && (funded || expired)
            &&& s.reclaim_outcome(now, caller, id) is Ok <==> due && (funded || expired) && e.sender
                == caller
            &&& s.expire_outcome(now, id) is Ok <==> due && funded
        }),
{
}

/// The sender of a scheduled escrow gets back what was not drawn from the end of
/// its deadline and grace period on.
pub proof fn timelocks_can_be_refunded(s: StorageView, now: u64, caller: Address, id: u64)
    requires
        s.escrows.contains_key(id),
    ensures
        s.refund_timelock_outcome(now, caller, id) is Ok <==> {
            let e = s.escrows[id];
            &&& e.sender == caller
            &&& e.schedule.release_type != ReleaseType::Unscheduled
            &&& e.state == EscrowState::Created || e.state == EscrowState::Funded
            &&& now >= e.deadline + e.grace_period
        },
{
}

/// With a grace period, sender or arbiter may cancel a funded escrow before its
/// deadline; without, the sender may from the deadline on, in custody. It ends
/// refunded or cancelled.
pub proof fn cancelling_depends_on_the_grace(s: StorageView, now: u64, caller: Address, id: u64)
    requires
        s.escrows.contains_key(id),
    ensures
        ({
            let e = s.escrows[id];
            let plain = e.schedule.release_type == ReleaseType::Unscheduled;
            let r = s.cancel_outcome(now, caller, id);
            &&& e.grace_period > 0 ==> {
                &&& r is Ok <==> plain && (caller == e.sender || caller == e.arbiter) && e.state
                    == EscrowState::Funded && now < e.deadline
                &&& r is Ok ==> r->Ok_0 == EscrowState::Refunded
            }
            &&& e.grace_period == 0 ==> {
                &&& r is Ok <==> plain && caller == e.sender && (e.state == EscrowState::Funded
                    || e.state == EscrowState::Expired) && now >= e.deadline
                &&& r is Ok ==> r->Ok_0 == EscrowState::Cancelled
            }
        }),
{
}

/// The sender funds what was agreed on once; any party closes what is settled.
pub proof fn funding_and_closing_are_for_the_parties(s: StorageView, caller: Address, id: u64)
    requires
        s.escrows.contains_key(id),
    ensures
        s.fund_outcome(caller, id) is Ok <==> s.escrows[id].sender == caller && s.escrows[id].state
            == EscrowState::Created,
        s.close_outcome(caller, id) is Ok <==> {
            let e = s.escrows[id];
            &&& e.state == EscrowState::Released || e.state == EscrowState::Refunded || e.state
                == EscrowState::Cancelled
            &&& caller == e.sender || caller == e.recipient || caller == e.arbiter
        },
{
}

/// No operation answers for an escrow that does not exist.
pub proof fn unknown_escrows_are_not_found(
    s: StorageView,
    now: u64,
    caller: Address,
    id: u64,
    amount: i128,
    nonce: u64,
    signatures: Seq<OverrideSignature>,
    index: u32,
)
    requires
        !s.escrows.contains_key(id),
    ensures
        s.release_outcome(now, caller, id, amount) is Err,
        s.override_outcome(now, id, nonce, signatures) is Err,
        s.claim_outcome(now, caller, id) is Err,
        s.withdraw_outcome(now, caller, id, amount) is Err,
        s.release_milestone_outcome(now, caller, id, index) is Err,
        s.refund_outcome(now, id) is Err,
        s.reclaim_outcome(now, caller, id) is Err,
        s.refund_timelock_outcome(now, caller, id) is Err,
        s.cancel_outcome(now, caller, id) is Err,
        s.fund_outcome(caller, id) is Err,
        s.expire_outcome(now, id) is Err,
        s.close_outcome(caller, id) is Err,
{
}

/// The arbiter can release any milestone of a funded escrow, once, before its
/// deadline and grace period are over. It pays its share in basis points,
/// rounded down, and the last open one all that is left.
pub proof fn milestones_pay_their_share(
    s: StorageView,
    now: u64,
    arbiter: Address,
    id: u64,
    index: u32,
)
    requires
        s.wf(),
        s.milestones.contains_key(id),
    ensures
        ({
            let e = s.escrows[id];
            let ms = s.milestones[id].milestones@;
            let r = s.release_milestone_outcome(now, arbiter, id, index);
            let payment = s.milestone_payment(id, index);
            let t = s.milestone_record(id, index);
            let last = forall|j: int| 0 <= j < ms.len() && j != index ==> #[trigger] ms[j].released;
            &&& r is Ok <==> {
                &&& e.arbiter == arbiter
                &&& e.state == EscrowState::Funded
                &&& now < e.deadline + e.grace_period
                &&& index < ms.len()
                &&& !ms[index as int].released
            }
            &&& r is Ok && last ==> payment == e.assets@[0].amount - e.released_amount && t.state
                == EscrowState::Released
            &&& r is Ok && !last ==> payment * 10_000 <= e.assets@[0].amount
                * ms[index as int].release_bps < (payment + 1) * 10_000 && t.state
                == EscrowState::Funded
            &&& r is Ok ==> t.released_amount == e.released_amount + payment
            &&& t.sender == e.sender && t.recipient == e.recipient && t.assets == e.assets
            &&& t.deadline == e.deadline && t.funded_amount == e.funded_amount
        }),
{
    let e = s.escrows[id];
    let ms = s.milestones[id].milestones@;
    assert(e.valid());
    if s.release_milestone_outcome(now, arbiter, id, index) is Ok {
        let x = e.funded_amount * ms[index as int].release_bps;
        vstd::arithmetic::div_mod::lemma_fundamental_div_mod(x, 10_000);
        let after = ms.update(index as int, Milestone { released: true, ..ms[index as int] });
        lemma_paid_update(ms, index as int, e.funded_amount as int);
        lemma_paid_at_most(after, e.funded_amount as int);
        lemma_paid_at_most(ms, e.funded_amount as int);
        lemma_share(e.funded_amount as int, ms[index as int].release_bps);
        if others_released(ms, index as int) {
            assert forall|j: int| 0 <= j < ms.len() && j != index implies #[trigger] ms[j].released by {}
        }
    }
}

/// The basis points of milestones are added up.
pub proof fn basis_points_are_sums(specs: Seq<MilestoneSpec>, ms: Seq<Milestone>)
    ensures
        spec_bps(specs) == specs.fold_left(0int, |sum: int, m: MilestoneSpec| sum + m.release_bps),
        bps_sum(ms) == ms.fold_left(0int, |sum: int, m: Milestone| sum + m.release_bps),
    decreases specs.len() + ms.len(),
{
    if specs.len() > 0 {
        basis_points_are_sums(specs.drop_last(), ms);
    } else if ms.len() > 0 {
        basis_points_are_sums(specs, ms.drop_last());
    }
}

/// The terms of a new escrow are accepted exactly where sender and recipient
/// differ, the deadline is to come, and one to ten different assets are listed
/// with positive amounts; its override signers where there are none and no
/// threshold, or up to twenty different ones with a threshold among them; a
/// schedule where its times are in order and end by the deadline. The escrow gets
/// the next number.
pub proof fn sound_terms_are_accepted(
    s: StorageView,
    now: u64,
    sender: Address,
    recipient: Address,
    assets: Seq<AssetAmount>,
    deadline: u64,
    signers: Seq<Bytes32>,
    threshold: u32,
    schedule: ReleaseSchedule,
    terms: Result<(), Error>,
    rest: Result<(), Error>,
)
    ensures
        terms_check(now, sender, recipient, assets, deadline) is Ok <==> {
            &&& sender != recipient
            &&& now < deadline
            &&& 0 < assets.len() <= 10
            &&& forall|i: int| 0 <= i < assets.len() ==> #[trigger] assets[i].amount > 0
            &&& forall|i: int, j: int|
                0 <= i < j < assets.len() ==> #[trigger] assets[i].asset
                    != #[trigger] assets[j].asset
        },
        signers_check(signers, threshold) is Ok <==> {
            ||| signers.len() == 0 && threshold == 0
            ||| {
                &&& 1 <= threshold <= signers.len() <= 20
                &&& forall|i: int, j: int|
                    0 <= i < j < signers.len() ==> #[trigger] signers[i] != #[trigger] signers[j]
            }
        },
        schedule_check(schedule, deadline) is Ok <==> {
            &&& schedule.release_type == ReleaseType::Cliff || schedule.release_type
                == ReleaseType::Linear
            &&& schedule.start_time <= schedule.cliff_time <= schedule.end_time <= deadline
            &&& schedule.start_time < schedule.end_time
        },
        s.create_outcome(terms, rest) is Ok <==> terms is Ok && rest is Ok && (s.count is Some
            ==> s.count->0 < u64::MAX),
        s.create_outcome(terms, rest) is Ok ==> s.create_outcome(terms, rest)->Ok_0 == (
        match s.count {
            Some(n) => n + 1,
            None => 1int,
        }),
{
    lemma_assets_ok(assets);
    if signers.no_duplicates() {
        assert forall|i: int, j: int| 0 <= i < j < signers.len() implies #[trigger] signers[i]
            != #[trigger] signers[j] by {}
    }
    if forall|i: int, j: int|
        0 <= i < j < signers.len() ==> #[trigger] signers[i] != #[trigger] signers[j] {
        assert forall|i: int, j: int|
            0 <= i < signers.len() && 0 <= j < signers.len() && i != j implies signers[i]
            != signers[j] by {
            if i < j {
                assert(signers[i] != signers[j]);
            } else {
                assert(signers[j] != signers[i]);
            }
        }
    }
}

/// A new escrow is what was agreed on: between these parties, over these assets,
/// with this deadline and these signers, with nothing released and no nonce
/// consumed, and funded in full or not at all.
pub proof fn new_escrows_are_as_agreed(
    e: Escrow,
    sender: Address,
    recipient: Address,
    arbiter: Address,
    assets: Seq<AssetAmount>,
    funded: bool,
    deadline: u64,
    grace_period: u64,
    memo: Seq<char>,
    schedule: ReleaseSchedule,
    signers: Seq<Bytes32>,
    threshold: u32,
)
    requires
        is_new_escrow(
            e,
            sender,
            recipient,
            arbiter,
            assets,
            funded,
            deadline,
            grace_period,
            memo,
            schedule,
            signers,
            threshold,
        ),
    ensures
        e.sender == sender && e.recipient == recipient && e.arbiter == arbiter,
        e.assets@ == assets && e.deadline == deadline && e.grace_period == grace_period,
        e.memo@ == memo && e.schedule == schedule,
        e.override_signers@ == signers && e.override_threshold == threshold,
        e.released_amount == 0 && e.override_nonce == 0,
        funded ==> e.state == EscrowState::Funded && e.funded_amount == assets[0].amount,
        !funded ==> e.state == EscrowState::Created && e.funded_amount == 0,
{
}

/// The schedule of a time lock unlocks everything at the unlock time and nothing
/// before.
pub proof fn time_locks_unlock_at_their_time(now: u64, unlock_time: u64, amount: int, later: u64)
    requires
        now < unlock_time,
        amount >= 0,
    ensures
        schedule_ok(cliff_schedule(now, unlock_time)),
        vested(cliff_schedule(now, unlock_time), amount, later) == (if later >= unlock_time {
            amount
        } else {
            0
        }),
        vested(unscheduled(), amount, later) == 0,
{
}

/// The milestones of a new escrow are those agreed on, in order, none released.
pub proof fn agreed_milestones_start_open(specs: Seq<MilestoneSpec>, i: int)
    requires
        0 <= i < specs.len(),
    ensures
        open_milestones(specs).len() == specs.len(),
        open_milestones(specs)[i].release_bps == specs[i].release_bps,
        open_milestones(specs)[i].description == specs[i].description,
        !open_milestones(specs)[i].released,
{
}

/// What can be claimed is what is unlocked and not released yet, while the escrow
/// is funded, and nothing otherwise.
pub proof fn claimable_is_unlocked_and_not_released(e: Escrow, now: u64)
    requires
        e.valid(),
    ensures
        e.vested_at(now) == vested(e.schedule, e.funded_amount as int, now),
        e.state != EscrowState::Funded ==> e.claimable_at(now) == 0,
        e.state == EscrowState::Funded ==> {
            let open = vested(e.schedule, e.assets@[0].amount as int, now) - e.released_amount;
            e.claimable_at(now) == (if open > 0 {
                open
            } else {
                0
            })
        },
{
}

} // verus!
