//! Protocol-wide constants: time units, storage TTL bumps and safety limits.
use vstd::prelude::*;

verus! {

/// Seconds in a day: used for daily policy and budget windows.
pub const SECONDS_PER_DAY: u64 = 86_400;

/// Seconds in a week.
pub const SECONDS_PER_WEEK: u64 = 604_800;

/// Seconds in a (30-day) month: used for monthly policy and budget windows.
pub const SECONDS_PER_MONTH: u64 = 2_592_000;

/// Approximate number of ledgers closed per day on Stellar (about 5 s each).
pub const DAY_IN_LEDGERS: u32 = 17_280;

/// Instance storage TTL bump (7 days).
pub const INSTANCE_BUMP_AMOUNT: u32 = 7 * DAY_IN_LEDGERS;

/// The remaining lifetime below which instance storage is bumped.
pub const INSTANCE_LIFETIME_THRESHOLD: u32 = INSTANCE_BUMP_AMOUNT - DAY_IN_LEDGERS;

/// Persistent storage TTL bump (30 days).
pub const PERSISTENT_BUMP_AMOUNT: u32 = 30 * DAY_IN_LEDGERS;

/// The remaining lifetime below which persistent storage is bumped.
pub const PERSISTENT_LIFETIME_THRESHOLD: u32 = PERSISTENT_BUMP_AMOUNT - DAY_IN_LEDGERS;

/// Upper bound on the number of signers a multisig may hold.
pub const MAX_SIGNERS: u32 = 20;

/// Minimum allowed multisig threshold.
pub const MIN_THRESHOLD: u32 = 1;

/// Ledgers that must close between `set_threshold` and `finalize_threshold`.
pub const THRESHOLD_CHANGE_DELAY_LEDGERS: u32 = DAY_IN_LEDGERS;

/// Shortest timelock delay (in seconds) that may be configured for multisig
/// governance changes. Signer-set, weight and threshold modifications always
/// sit in a pending state for at least this long, so that the organization has
/// a window to review and veto them.
pub const MIN_TIMELOCK_DELAY: u64 = SECONDS_PER_DAY;

/// Longest timelock delay (in seconds) that may be configured, so that a
/// hostile signer cannot park governance behind an effectively infinite delay.
pub const MAX_TIMELOCK_DELAY: u64 = 30 * SECONDS_PER_DAY;

/// How long a matured governance change stays executable before it expires.
/// Stale changes must be re-proposed rather than lie dormant indefinitely.
pub const GOVERNANCE_GRACE_PERIOD: u64 = SECONDS_PER_WEEK;

/// Upper bound on how many eligible approvers a proposal may declare.
pub const MAX_APPROVERS: u32 = 32;

/// Upper bound on how many prerequisite proposals one proposal may depend on.
/// Every prerequisite is read once when the dependent proposal executes, so
/// this caps the storage reads of a single execution.
pub const MAX_DEPENDENCIES: u32 = 8;

/// Upper bound on how many discrete calls a single batch may contain.
pub const MAX_BATCH_CALLS: u32 = 16;

/// Upper bound on how many recipients a single batch payment may pay out to.
/// Batches are executed atomically, so this caps the worst-case cost of one
/// invocation.
pub const MAX_BATCH_PAYMENTS: u32 = 32;

/// Upper bound on how many distinct assets a single escrow agreement may hold.
pub const MAX_ESCROW_ASSETS: u32 = 10;

/// Maximum duration (seconds) allowed for a single temporary emergency pause.
pub const MAX_PAUSE_DURATION: u64 = SECONDS_PER_MONTH;

/// Basis points in a whole.
pub const BPS_TOTAL: u32 = 10_000;

/// The units of time and the limits are what they are named after.
pub proof fn limits_have_their_values()
    ensures
        SECONDS_PER_DAY == 24 * 60 * 60,
        SECONDS_PER_WEEK == 7 * 24 * 60 * 60,
        SECONDS_PER_MONTH == 30 * 24 * 60 * 60,
        DAY_IN_LEDGERS * 5 == 24 * 60 * 60,
        INSTANCE_BUMP_AMOUNT == 7 * 17_280 && INSTANCE_LIFETIME_THRESHOLD == 6 * 17_280,
        PERSISTENT_BUMP_AMOUNT == 30 * 17_280 && PERSISTENT_LIFETIME_THRESHOLD == 29 * 17_280,
        MAX_SIGNERS == 20 && MIN_THRESHOLD == 1 && THRESHOLD_CHANGE_DELAY_LEDGERS == 17_280,
        MIN_TIMELOCK_DELAY == 24 * 60 * 60 && MAX_TIMELOCK_DELAY == 30 * 24 * 60 * 60,
        GOVERNANCE_GRACE_PERIOD == 7 * 24 * 60 * 60,
        MAX_APPROVERS == 32 && MAX_DEPENDENCIES == 8,
        MAX_BATCH_CALLS == 16 && MAX_BATCH_PAYMENTS == 32 && MAX_ESCROW_ASSETS == 10,
        MAX_PAUSE_DURATION == 30 * 24 * 60 * 60,
        BPS_TOTAL == 100 * 100,
{
}

} // verus!
