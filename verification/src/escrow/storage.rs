//! The escrow contract's records and their storage.
use crate::errors::Error;
use crate::math::next_id;
use crate::table::Table;
use crate::types::{Address, AssetAmount, Bytes32};
use vstd::prelude::*;

verus! {

/// Release type for time-locked escrow schedules.
#[derive(Clone, Copy, Debug, PartialEq, Eq, Structural)]
pub enum ReleaseType {
    /// Standard escrow without automated schedule.
    Unscheduled,
    /// 100% unlocked at `cliff_time` (bullet release).
    Cliff,
    /// Linearly unlocked between `start_time` and `end_time` (with optional cliff).
    Linear,
}

/// Release schedule configuration.
#[derive(Clone, Copy, Debug, PartialEq, Eq, Structural)]
pub struct ReleaseSchedule {
    pub release_type: ReleaseType,
    pub start_time: u64,
    pub cliff_time: u64,
    pub end_time: u64,
}

impl ReleaseSchedule {
    /// The schedule of an escrow without one.
    pub fn none() -> (r: Self)
        ensures
            r == (ReleaseSchedule {
                release_type: ReleaseType::Unscheduled,
                start_time: 0,
                cliff_time: 0,
                end_time: 0,
            }),
    {
        ReleaseSchedule {
            release_type: ReleaseType::Unscheduled,
            start_time: 0,
            cliff_time: 0,
            end_time: 0,
        }
    }
}

#[derive(Clone, Copy, Debug, PartialEq, Eq, Structural)]
pub enum EscrowState {
    /// Agreed but not funded yet.
    Created,
    /// The assets are in custody.
    Funded,
    /// The assets went to the recipient.
    Released,
    /// The assets went back to the sender.
    Refunded,
    /// Timed out; the assets are still in custody.
    Expired,
    /// Settled and closed.
    Closed,
    /// Clawed back by the sender after the deadline.
    Cancelled,
}

#[derive(Clone, Debug)]
pub struct Escrow {
    pub sender: Address,
    pub recipient: Address,
    pub arbiter: Address,
    /// The assets (and per-asset amounts) of this agreement. The first one is
    /// the primary asset: schedules and milestones release it bit by bit, and
    /// the other assets follow with its last bit.
    pub assets: Vec<AssetAmount>,
    pub state: EscrowState,
    pub deadline: u64,
    /// Extra time after `deadline` during which the arbiter may still release
    /// and before the sender may reclaim. 0 means no grace beyond the deadline.
    pub grace_period: u64,
    /// How much of the primary asset was taken into custody.
    pub funded_amount: i128,
    pub memo: String,
    pub schedule: ReleaseSchedule,
    /// How much of the primary asset has been released to the recipient.
    pub released_amount: i128,
    /// Pre-configured ed25519 public keys allowed to co-sign a manual release
    /// override. Empty disables the override mechanism for this escrow.
    pub override_signers: Vec<Bytes32>,
    /// Minimum number of distinct, valid signatures required for an override.
    pub override_threshold: u32,
    /// The last nonce consumed by a successful override release. A subsequent
    /// override call must supply a strictly greater nonce.
    pub override_nonce: u64,
}

/// One step of a milestone escrow, as agreed on.
#[derive(Clone, Debug)]
pub struct MilestoneSpec {
    pub description: String,
    /// Share of the escrowed amount, in basis points.
    pub release_bps: u32,
}

/// One step of a milestone escrow.
#[derive(Clone, Debug)]
pub struct Milestone {
    pub description: String,
    /// Share of the escrowed amount, in basis points.
    pub release_bps: u32,
    pub released: bool,
}

/// The steps of a milestone escrow and what they have released so far.
#[derive(Clone, Debug)]
pub struct MilestoneSet {
    pub milestones: Vec<Milestone>,
    pub released_amount: i128,
}

/// The escrow contract's storage.
pub struct Storage {
    /// The number of escrows ever created.
    pub count: Option<u64>,
    /// Escrows by id.
    pub escrows: Table<u64, Escrow>,
    /// The milestones of milestone escrows, by escrow id.
    pub milestones: Table<u64, MilestoneSet>,
}

/// The storage as a value.
#[verifier::ext_equal]
pub struct StorageView {
    pub count: Option<u64>,
    pub escrows: Map<u64, Escrow>,
    pub milestones: Map<u64, MilestoneSet>,
}

impl View for Storage {
    type V = StorageView;

    open spec fn view(&self) -> StorageView {
        StorageView {
            count: self.count,
            escrows: self.escrows@,
            milestones: self.milestones@,
        }
    }
}

impl StorageView {
    /// The number of escrows ever created.
    pub open spec fn total(self) -> u64 {
        match self.count {
            Some(c) => c,
            None => 0,
        }
    }
}

/// The number of escrows ever created; zero before initialization.
pub fn get_count(storage: &Storage) -> (r: u64)
    ensures
        r == storage@.total(),
{
    match storage.count {
        Some(c) => c,
        None => 0,
    }
}

/// Takes the next escrow id.
pub fn increment_count(storage: &mut Storage) -> (r: Result<u64, Error>)
    ensures
        match r {
            Ok(id) => old(storage)@.total() < u64::MAX && id == old(storage)@.total() + 1
                && final(storage)@ == (StorageView { count: Some(id), ..old(storage)@ }),
            Err(e) => old(storage)@.total() == u64::MAX && e == Error::Overflow && *final(storage)
                == *old(storage),
        },
{
    let next: u64 = next_id(get_count(storage))?;
    storage.count = Some(next);
    Ok(next)
}

/// The escrow stored under an id.
pub fn load_escrow(storage: &Storage, id: u64) -> (r: Result<&Escrow, Error>)
    ensures
        match r {
            Ok(e) => storage@.escrows.contains_key(id) && *e == storage@.escrows[id],
            Err(e) => !storage@.escrows.contains_key(id) && e == Error::NotFound,
        },
{
    match storage.escrows.get(&id) {
        Some(e) => Ok(e),
        None => Err(Error::NotFound),
    }
}

/// Stores an escrow under an id.
pub fn store_escrow(storage: &mut Storage, id: u64, escrow: Escrow)
    ensures
        final(storage)@ == (StorageView {
            escrows: old(storage)@.escrows.insert(id, escrow),
            ..old(storage)@
        }),
{
    storage.escrows.set(id, escrow);
}

} // verus!
