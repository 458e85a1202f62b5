//! Role-based access control for wallet actions.
//!
//! An organization owner, the human managers acting on its behalf, the
//! autonomous agents executing routine spends, and read-only auditors are
//! distinct principals with distinct powers over the same wallet. This module
//! stores an explicit role per `(wallet, account)` pair and holds the guards that
//! the wallet's entry points use. Roles are **totally ordered by privilege**
//! ([`Role::rank`]), so a guard asks for the *minimum* role an action needs and
//! any more privileged role also satisfies it:
//!
//! ```text
//! Admin (2)   - full control: withdrawals, lifecycle, role administration
//! Agent (1)   - routine operational spends (transfers), subject to wallet state
//! Auditor (0) - read-only; never satisfies a guard on a mutating entry point
//! ```
//!
//! The wallet's `owner` is implicitly [`Role::Admin`] and cannot be demoted, so
//! a wallet can never be locked out of its own administration by a bad grant.
use crate::errors::Error;
use crate::table::Table;
use crate::types::Address;
use crate::validation::check;
use vstd::prelude::*;

verus! {

/// A principal's role on a specific wallet.
#[derive(Clone, Copy, Debug, PartialEq, Eq, Structural)]
pub enum Role {
    /// Read-only observer. Satisfies no guard on a mutating entry point.
    Auditor,
    /// Autonomous executor. May move value out of an active wallet, but may
    /// not withdraw to the owner, change lifecycle state or administer roles.
    Agent,
    /// Full control, equivalent to the wallet owner.
    Admin,
}

/// The privilege rank of a role.
pub open spec fn rank_of(role: Role) -> u32 {
    match role {
        Role::Auditor => 0,
        Role::Agent => 1,
        Role::Admin => 2,
    }
}

/// Whether a role is enough where another one is required.
pub open spec fn suffices(role: Role, required: Role) -> bool {
    rank_of(role) >= rank_of(required)
}

impl Role {
    /// Privilege rank. A granted role satisfies a required role when its rank
    /// is greater than or equal to the required rank.
    pub fn rank(self) -> (r: u32)
        ensures
            r == rank_of(self),
    {
        match self {
            Role::Auditor => 0,
            Role::Agent => 1,
            Role::Admin => 2,
        }
    }

    /// Whether holding `self` is enough to perform an action requiring
    /// `required`.
    pub fn satisfies(self, required: Role) -> (r: bool)
        ensures
            r == suffices(self, required),
    {
        self.rank() >= required.rank()
    }
}

/// The granted roles, by wallet id and account.
pub type Roles = Table<(u64, Address), Role>;

/// The role explicitly granted to an account on a wallet.
pub open spec fn granted(roles: Map<(u64, Address), Role>, wallet_id: u64, account: Address) -> Option<
    Role,
> {
    if roles.contains_key((wallet_id, account)) {
        Some(roles[(wallet_id, account)])
    } else {
        None
    }
}

/// The role an account effectively holds on a wallet: the owner is an admin.
pub open spec fn effective(
    roles: Map<(u64, Address), Role>,
    wallet_id: u64,
    owner: Address,
    account: Address,
) -> Option<Role> {
    if owner == account {
        Some(Role::Admin)
    } else {
        granted(roles, wallet_id, account)
    }
}

/// Whether an account holds at least a role on a wallet.
pub open spec fn holds(
    roles: Map<(u64, Address), Role>,
    wallet_id: u64,
    owner: Address,
    account: Address,
    required: Role,
) -> bool {
    match effective(roles, wallet_id, owner, account) {
        Some(role) => suffices(role, required),
        None => false,
    }
}

/// Read the role explicitly granted to `account` on a wallet, if any. The
/// wallet owner is deliberately not synthesized here; see [`effective_role`].
pub fn granted_role(roles: &Roles, wallet_id: u64, account: &Address) -> (r: Option<Role>)
    ensures
        r == granted(roles@, wallet_id, *account),
{
    match roles.get(&(wallet_id, *account)) {
        Some(role) => Some(*role),
        None => None,
    }
}

/// Resolve the role `account` effectively holds on a wallet, treating the
/// wallet `owner` as an implicit [`Role::Admin`].
pub fn effective_role(roles: &Roles, wallet_id: u64, owner: &Address, account: &Address) -> (r:
    Option<Role>)
    ensures
        r == effective(roles@, wallet_id, *owner, *account),
{
    if *owner == *account {
        return Some(Role::Admin);
    }
    granted_role(roles, wallet_id, account)
}

/// Guard: require that `caller` holds at least `required` on the wallet.
///
/// Returns [`Error::Unauthorized`] when the caller holds no role at all or a
/// role below `required`. This guard answers authorization only.
pub fn require_role(
    roles: &Roles,
    wallet_id: u64,
    owner: &Address,
    caller: &Address,
    required: Role,
) -> (r: Result<(), Error>)
    ensures
        r == check(holds(roles@, wallet_id, *owner, *caller, required), Error::Unauthorized),
{
    match effective_role(roles, wallet_id, owner, caller) {
        Some(role) => if role.satisfies(required) {
            Ok(())
        } else {
            Err(Error::Unauthorized)
        },
        None => Err(Error::Unauthorized),
    }
}

/// Record a role grant, replacing any role the account already held.
pub fn set_role(roles: &mut Roles, wallet_id: u64, account: &Address, role: Role)
    ensures
        final(roles)@ == old(roles)@.insert((wallet_id, *account), role),
{
    roles.set((wallet_id, *account), role);
}

/// Remove a role grant. Returns [`Error::NotFound`] when nothing was granted,
/// so revoking is not silently a no-op.
pub fn clear_role(roles: &mut Roles, wallet_id: u64, account: &Address) -> (r: Result<(), Error>)
    ensures
        r == check(old(roles)@.contains_key((wallet_id, *account)), Error::NotFound),
        r is Err ==> *final(roles) == *old(roles),
        r is Ok ==> final(roles)@ == old(roles)@.remove((wallet_id, *account)),
{
    let key = (wallet_id, *account);
    if !roles.has(&key) {
        return Err(Error::NotFound);
    }
    roles.remove(&key);
    Ok(())
}

// --- laws ---

/// Roles are totally ordered by privilege: any two compare, mutual sufficiency
/// means the same role, and sufficiency is transitive.
pub proof fn roles_are_totally_ordered(a: Role, b: Role, c: Role)
    ensures
        suffices(a, a),
        suffices(a, b) || suffices(b, a),
        suffices(a, b) && suffices(b, a) ==> a == b,
        suffices(a, b) && suffices(b, c) ==> suffices(a, c),
{
}

/// The owner satisfies every guard, whatever roles are granted.
pub proof fn owner_cannot_be_locked_out(
    roles: Map<(u64, Address), Role>,
    wallet_id: u64,
    owner: Address,
    required: Role,
)
    ensures
        holds(roles, wallet_id, owner, owner, required),
{
}

/// An auditor satisfies no guard that asks for more than an auditor.
pub proof fn auditors_are_read_only(
    roles: Map<(u64, Address), Role>,
    wallet_id: u64,
    owner: Address,
    account: Address,
    required: Role,
)
    requires
        account != owner,
        granted(roles, wallet_id, account) == Some(Role::Auditor),
        required != Role::Auditor,
    ensures
        !holds(roles, wallet_id, owner, account, required),
{
}

/// Granting and then revoking a role leaves the account without one, and touches
/// no other account or wallet.
pub proof fn revoking_undoes_a_grant(
    roles: Map<(u64, Address), Role>,
    wallet_id: u64,
    account: Address,
    role: Role,
    other: (u64, Address),
)
    ensures
        granted(roles.insert((wallet_id, account), role), wallet_id, account) == Some(role),
        granted(
            roles.insert((wallet_id, account), role).remove((wallet_id, account)),
            wallet_id,
            account,
        ) is None,
        other != (wallet_id, account) ==> granted(
            roles.insert((wallet_id, account), role),
            other.0,
            other.1,
        ) == granted(roles, other.0, other.1),
{
}

/// Who passes a guard: the owner always; anyone else only with a granted role of
/// at least the required rank, where admins rank above agents and agents above
/// auditors.
pub proof fn guards_ask_for_rank(
    roles: Map<(u64, Address), Role>,
    wallet_id: u64,
    owner: Address,
    account: Address,
)
    ensures
        ({
            let role = roles[(wallet_id, account)];
            let given = roles.contains_key((wallet_id, account));
            &&& holds(roles, wallet_id, owner, account, Role::Auditor) <==> owner == account || given
            &&& holds(roles, wallet_id, owner, account, Role::Agent) <==> owner == account || (given
                && (role == Role::Agent || role == Role::Admin))
            &&& holds(roles, wallet_id, owner, account, Role::Admin) <==> owner == account || (given
                && role == Role::Admin)
            &&& owner == account ==> effective(roles, wallet_id, owner, account) == Some(
                Role::Admin,
            )
            &&& owner != account && given ==> effective(roles, wallet_id, owner, account) == Some(
                role,
            )
            &&& owner != account && !given ==> effective(roles, wallet_id, owner, account) is None
        }),
{
}

} // verus!
