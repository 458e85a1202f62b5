//! Input checks shared by every contract.
use crate::errors::Error;
use crate::host::CallEnv;
use vstd::prelude::*;

verus! {

/// The check's outcome as a result.
pub open spec fn check(ok: bool, e: Error) -> Result<(), Error> {
    if ok {
        Ok(())
    } else {
        Err(e)
    }
}

/// How many of the first `n` entries of a list pass a test before the first one
/// that fails it.
pub open spec fn leading(passes: spec_fn(int) -> bool, n: nat) -> nat
    decreases n,
{
    if n == 0 {
        0
    } else {
        let earlier = leading(passes, (n - 1) as nat);
        if earlier == n - 1 && passes(n - 1) {
            n
        } else {
            earlier
        }
    }
}

/// The count stops at the first entry that fails.
pub proof fn lemma_leading_stops(passes: spec_fn(int) -> bool, k: nat, n: nat)
    requires
        k < n,
        leading(passes, k) == k,
        !passes(k as int),
    ensures
        leading(passes, n) == k,
    decreases n,
{
    if n > k + 1 {
        lemma_leading_stops(passes, k, (n - 1) as nat);
    }
}

/// The count is complete exactly where every entry passes.
pub proof fn lemma_leading_all(passes: spec_fn(int) -> bool, n: nat)
    ensures
        leading(passes, n) <= n,
        leading(passes, n) == n <==> forall|i: int| 0 <= i < n ==> #[trigger] passes(i),
        leading(passes, n) < n ==> !passes(leading(passes, n) as int),
    decreases n,
{
    if n > 0 {
        lemma_leading_all(passes, (n - 1) as nat);
        if leading(passes, n) == n {
            assert forall|i: int| 0 <= i < n implies #[trigger] passes(i) by {
                if i < n - 1 {
                }
            }
        }
    }
}

/// An amount that moves must be strictly positive.
pub fn require_positive_amount(amount: i128) -> (r: Result<(), Error>)
    ensures
        r == check(amount > 0, Error::InvalidAmount),
{
    if amount > 0 {
        Ok(())
    } else {
        Err(Error::InvalidAmount)
    }
}

/// A limit may be zero but not negative.
pub fn require_non_negative_amount(amount: i128) -> (r: Result<(), Error>)
    ensures
        r == check(amount >= 0, Error::InvalidAmount),
{
    if amount >= 0 {
        Ok(())
    } else {
        Err(Error::InvalidAmount)
    }
}

/// The amount must lie in `[min, max]`; a `max` of zero means no upper bound.
pub fn require_within_amount_bounds(amount: i128, min: i128, max: i128) -> (r: Result<(), Error>)
    ensures
        r == check(min <= amount && (max == 0 || amount <= max), Error::PolicyDenied),
{
    if amount < min {
        return Err(Error::PolicyDenied);
    }
    if max != 0 && amount > max {
        return Err(Error::PolicyDenied);
    }
    Ok(())
}

/// `expires_at` must still lie in the future.
pub fn require_not_expired(env: &CallEnv, expires_at: u64) -> (r: Result<(), Error>)
    ensures
        r == check(env@.timestamp < expires_at, Error::ProposalExpired),
{
    if env.timestamp < expires_at {
        Ok(())
    } else {
        Err(Error::ProposalExpired)
    }
}

/// `unlock_at` must have been reached.
pub fn require_time_reached(env: &CallEnv, unlock_at: u64) -> (r: Result<(), Error>)
    ensures
        r == check(env@.timestamp >= unlock_at, Error::TimeLocked),
{
    if env.timestamp >= unlock_at {
        Ok(())
    } else {
        Err(Error::TimeLocked)
    }
}

/// An identifier must not be the empty string.
pub fn require_non_empty(s: &String) -> (r: Result<(), Error>)
    ensures
        r == check(s@.len() > 0, Error::InvalidInput),
{
    let empty = String::new();
    proof {
        if s@.len() == 0 {
            assert(s@ =~= Seq::<char>::empty());
        }
    }
    if *s == empty {
        Err(Error::InvalidInput)
    } else {
        Ok(())
    }
}

/// A check passes exactly where its condition holds, and names its error where
/// it does not.
pub proof fn checks_pass_where_they_hold(ok: bool, e: Error)
    ensures
        check(ok, e) is Ok <==> ok,
        !ok ==> check(ok, e)->Err_0 == e,
{
}

} // verus!
