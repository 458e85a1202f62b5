//! # Registry contract
//!
//! Records which organizations exist and who owns each, which module addresses
//! each organization uses, and which versions of each kind of module have been
//! released. The admin registers organizations and versions; an organization's
//! owner manages its modules, hands the organization over, and may freeze its
//! records.
use crate::errors::Error;
use crate::events::{publish, ContractEvent, Event};
use crate::host::{CallEnv, EnvView};
use crate::table::Table;
use crate::types::{Address, ModuleKind};
use crate::validation::{check, require_non_empty};
use vstd::prelude::*;

verus! {

/// The registry's storage.
pub struct RegistryContract {
    pub admin: Option<Address>,
    /// The owner of each organization.
    pub owners: Table<String, Address>,
    /// Whether an organization's records are frozen.
    pub frozen: Table<String, bool>,
    /// The module addresses of each organization.
    pub modules: Table<(String, ModuleKind), Address>,
    /// Released module versions.
    pub versions: Table<(ModuleKind, u32), Address>,
    /// The highest released version of each kind.
    pub latest: Table<ModuleKind, u32>,
}

/// The registry's storage as a value.
#[verifier::ext_equal]
pub struct RegistryView {
    pub admin: Option<Address>,
    pub owners: Map<Seq<char>, Address>,
    pub frozen: Map<Seq<char>, bool>,
    pub modules: Map<(Seq<char>, ModuleKind), Address>,
    pub versions: Map<(ModuleKind, u32), Address>,
    pub latest: Map<ModuleKind, u32>,
}

impl View for RegistryContract {
    type V = RegistryView;

    open spec fn view(&self) -> RegistryView {
        RegistryView {
            admin: self.admin,
            owners: self.owners@,
            frozen: self.frozen@,
            modules: self.modules@,
            versions: self.versions@,
            latest: self.latest@,
        }
    }
}

impl RegistryView {
    /// The recorded latest version of each kind is released, and none is higher.
    pub open spec fn wf(self) -> bool {
        &&& forall|kind: ModuleKind| #[trigger]
            self.latest.contains_key(kind) ==> self.versions.contains_key(
                (kind, self.latest[kind]),
            )
        &&& forall|kind: ModuleKind, version: u32| #[trigger]
            self.versions.contains_key((kind, version)) ==> self.latest.contains_key(kind)
                && version <= self.latest[kind]
    }

    /// An organization's records are frozen.
    pub open spec fn is_frozen(self, org: Seq<char>) -> bool {
        self.frozen.contains_key(org) && self.frozen[org]
    }

    /// What an admin-gated entry point answers.
    pub open spec fn admin_check(self, caller: Address) -> Result<(), Error> {
        match self.admin {
            None => Err(Error::NotInitialized),
            Some(a) => check(a == caller, Error::Unauthorized),
        }
    }

    /// What an entry point gated on an organization's owner answers.
    pub open spec fn owner_check(self, org: Seq<char>, caller: Address) -> Result<(), Error> {
        if !self.owners.contains_key(org) {
            Err(Error::NotFound)
        } else {
            check(self.owners[org] == caller, Error::Unauthorized)
        }
    }

    /// What changing an organization's records requires.
    pub open spec fn change_check(self, org: Seq<char>, caller: Address) -> Result<(), Error> {
        if self.owner_check(org, caller) is Err {
            self.owner_check(org, caller)
        } else {
            check(!self.is_frozen(org), Error::RegistryFrozen)
        }
    }

    /// What registering an organization returns.
    pub open spec fn register_org_outcome(self, caller: Address, org: Seq<char>) -> Result<
        (),
        Error,
    > {
        if self.admin_check(caller) is Err {
            self.admin_check(caller)
        } else if org.len() == 0 {
            Err(Error::InvalidInput)
        } else {
            check(!self.owners.contains_key(org), Error::AlreadyExists)
        }
    }

    /// What looking a module up returns.
    pub open spec fn lookup_outcome(self, org: Seq<char>, kind: ModuleKind) -> Result<
        Address,
        Error,
    > {
        if self.modules.contains_key((org, kind)) {
            Ok(self.modules[(org, kind)])
        } else {
            Err(Error::NotFound)
        }
    }

    /// What registering a version returns.
    pub open spec fn register_version_outcome(
        self,
        caller: Address,
        kind: ModuleKind,
        version: u32,
    ) -> Result<(), Error> {
        if self.admin_check(caller) is Err {
            self.admin_check(caller)
        } else if version == 0 {
            Err(Error::InvalidInput)
        } else {
            check(!self.versions.contains_key((kind, version)), Error::AlreadyExists)
        }
    }

    /// The state after registering a version.
    pub open spec fn with_version(
        self,
        kind: ModuleKind,
        version: u32,
        address: Address,
    ) -> RegistryView {
        RegistryView {
            versions: self.versions.insert((kind, version), address),
            latest: if self.latest.contains_key(kind) && self.latest[kind] > version {
                self.latest
            } else {
                self.latest.insert(kind, version)
            },
            ..self
        }
    }
}

/// The environment after announcing a freeze or an unfreeze.
pub open spec fn announce_frozen(e: EnvView, org: String, frozen: bool) -> EnvView {
    e.emit(Event::Contract(ContractEvent::RegistryFrozen { org, frozen }))
}

impl RegistryContract {
    /// A contract with empty storage.
    pub fn new() -> (r: Self)
        ensures
            r@ == (RegistryView {
                admin: None,
                owners: Map::empty(),
                frozen: Map::empty(),
                modules: Map::empty(),
                versions: Map::empty(),
                latest: Map::empty(),
            }),
            r@.wf(),
    {
        RegistryContract {
            admin: None,
            owners: Table::new(),
            frozen: Table::new(),
            modules: Table::new(),
            versions: Table::new(),
            latest: Table::new(),
        }
    }

    /// Set the registry up with its admin. Callable once.
    pub fn initialize(&mut self, admin: Address) -> (r: Result<(), Error>)
        ensures
            r == check(old(self)@.admin is None, Error::AlreadyInitialized),
            r is Err ==> *final(self) == *old(self),
            r is Ok ==> final(self)@ == (RegistryView { admin: Some(admin), ..old(self)@ }),
            old(self)@.wf() ==> final(self)@.wf(),
    {
        if self.admin.is_some() {
            return Err(Error::AlreadyInitialized);
        }
        self.admin = Some(admin);
        Ok(())
    }

    fn require_admin(&self, env: &mut CallEnv, caller: &Address) -> (r: Result<(), Error>)
        ensures
            r == self@.admin_check(*caller),
            final(env)@ == old(env)@.auth(*caller),
    {
        env.require_auth(*caller);
        let admin = match self.admin {
            Some(a) => a,
            None => return Err(Error::NotInitialized),
        };
        if admin != *caller {
            return Err(Error::Unauthorized);
        }
        Ok(())
    }

    fn require_owner(&self, env: &mut CallEnv, org: &String, caller: &Address) -> (r: Result<
        (),
        Error,
    >)
        ensures
            r == self@.owner_check(org@, *caller),
            final(env)@ == old(env)@.auth(*caller),
    {
        env.require_auth(*caller);
        match self.owners.get(org) {
            None => Err(Error::NotFound),
            Some(owner) => if *owner != *caller {
                Err(Error::Unauthorized)
            } else {
                Ok(())
            },
        }
    }

    fn require_changeable(&self, env: &mut CallEnv, org: &String, caller: &Address) -> (r: Result<
        (),
        Error,
    >)
        ensures
            r == self@.change_check(org@, *caller),
            final(env)@ == old(env)@.auth(*caller),
    {
        self.require_owner(env, org, caller)?;
        if let Some(frozen) = self.frozen.get(org) {
            if *frozen {
                return Err(Error::RegistryFrozen);
            }
        }
        Ok(())
    }

    /// Hand the registry over to another admin (admin only).
    pub fn set_admin(&mut self, env: &mut CallEnv, caller: Address, new_admin: Address) -> (r:
        Result<(), Error>)
        ensures
            r == old(self)@.admin_check(caller),
            final(env)@ == old(env)@.auth(caller),
            r is Err ==> *final(self) == *old(self),
            r is Ok ==> final(self)@ == (RegistryView { admin: Some(new_admin), ..old(self)@ }),
            old(self)@.wf() ==> final(self)@.wf(),
    {
        self.require_admin(env, &caller)?;
        self.admin = Some(new_admin);
        Ok(())
    }

    /// Register an organization with its owner (admin only).
    pub fn register_org(&mut self, env: &mut CallEnv, caller: Address, org: String, owner: Address) -> (r:
        Result<(), Error>)
        ensures
            r == old(self)@.register_org_outcome(caller, org@),
            final(env)@ == old(env)@.auth(caller),
            r is Err ==> *final(self) == *old(self),
            r is Ok ==> final(self)@ == (RegistryView {
                owners: old(self)@.owners.insert(org@, owner),
                ..old(self)@
            }),
            old(self)@.wf() ==> final(self)@.wf(),
    {
        self.require_admin(env, &caller)?;
        require_non_empty(&org)?;
        if self.owners.has(&org) {
            return Err(Error::AlreadyExists);
        }
        self.owners.set(org, owner);
        Ok(())
    }

    /// Hand an organization over to another owner (owner only).
    pub fn set_org_owner(
        &mut self,
        env: &mut CallEnv,
        caller: Address,
        org: String,
        new_owner: Address,
    ) -> (r: Result<(), Error>)
        ensures
            r == old(self)@.change_check(org@, caller),
            r is Err ==> *final(self) == *old(self) && final(env)@ == old(env)@.auth(caller),
            r is Ok ==> final(self)@ == (RegistryView {
                owners: old(self)@.owners.insert(org@, new_owner),
                ..old(self)@
            }) && final(env)@ == old(env)@.auth(caller).emit(
                Event::Contract(ContractEvent::OrgOwnerChanged { org, new_owner }),
            ),
            old(self)@.wf() ==> final(self)@.wf(),
    {
        self.require_changeable(env, &org, &caller)?;
        self.owners.set(org.clone(), new_owner);
        publish(env, ContractEvent::OrgOwnerChanged { org, new_owner });
        Ok(())
    }

    /// Register or update a module of an organization (owner only).
    pub fn register_module(
        &mut self,
        env: &mut CallEnv,
        caller: Address,
        org: String,
        kind: ModuleKind,
        address: Address,
    ) -> (r: Result<(), Error>)
        ensures
            r == old(self)@.change_check(org@, caller),
            r is Err ==> *final(self) == *old(self) && final(env)@ == old(env)@.auth(caller),
            r is Ok ==> final(self)@ == (RegistryView {
                modules: old(self)@.modules.insert((org@, kind), address),
                ..old(self)@
            }) && final(env)@ == old(env)@.auth(caller).emit(
                Event::Contract(ContractEvent::RegistryModuleUpdated { org, kind, address }),
            ),
            old(self)@.wf() ==> final(self)@.wf(),
    {
        self.require_changeable(env, &org, &caller)?;
        self.modules.set((org.clone(), kind), address);
        publish(env, ContractEvent::RegistryModuleUpdated { org, kind, address });
        Ok(())
    }

    /// Remove a module of an organization (owner only).
    pub fn remove_module(
        &mut self,
        env: &mut CallEnv,
        caller: Address,
        org: String,
        kind: ModuleKind,
    ) -> (r: Result<(), Error>)
        ensures
            r == (if old(self)@.change_check(org@, caller) is Err {
                old(self)@.change_check(org@, caller)
            } else {
                check(old(self)@.modules.contains_key((org@, kind)), Error::NotFound)
            }),
            final(env)@ == old(env)@.auth(caller),
            r is Err ==> *final(self) == *old(self),
            r is Ok ==> final(self)@ == (RegistryView {
                modules: old(self)@.modules.remove((org@, kind)),
                ..old(self)@
            }),
            old(self)@.wf() ==> final(self)@.wf(),
    {
        self.require_changeable(env, &org, &caller)?;
        let key = (org, kind);
        if !self.modules.has(&key) {
            return Err(Error::NotFound);
        }
        self.modules.remove(&key);
        Ok(())
    }

    /// Freeze an organization's records (owner only).
    pub fn freeze(&mut self, env: &mut CallEnv, caller: Address, org: String) -> (r: Result<
        (),
        Error,
    >)
        ensures
            r == old(self)@.owner_check(org@, caller),
            r is Err ==> *final(self) == *old(self) && final(env)@ == old(env)@.auth(caller),
            r is Ok ==> final(self)@ == (RegistryView {
                frozen: old(self)@.frozen.insert(org@, true),
                ..old(self)@
            }) && final(env)@ == announce_frozen(old(env)@.auth(caller), org, true),
            old(self)@.wf() ==> final(self)@.wf(),
    {
        self.require_owner(env, &org, &caller)?;
        self.frozen.set(org.clone(), true);
        publish(env, ContractEvent::RegistryFrozen { org, frozen: true });
        Ok(())
    }

    /// Unfreeze an organization's records (owner only).
    pub fn unfreeze(&mut self, env: &mut CallEnv, caller: Address, org: String) -> (r: Result<
        (),
        Error,
    >)
        ensures
            r == old(self)@.owner_check(org@, caller),
            r is Err ==> *final(self) == *old(self) && final(env)@ == old(env)@.auth(caller),
            r is Ok ==> final(self)@ == (RegistryView {
                frozen: old(self)@.frozen.insert(org@, false),
                ..old(self)@
            }) && final(env)@ == announce_frozen(old(env)@.auth(caller), org, false),
            old(self)@.wf() ==> final(self)@.wf(),
    {
        self.require_owner(env, &org, &caller)?;
        self.frozen.set(org.clone(), false);
        publish(env, ContractEvent::RegistryFrozen { org, frozen: false });
        Ok(())
    }

    /// Release a version of a kind of module (admin only). Versions start at one.
    pub fn register_version(
        &mut self,
        env: &mut CallEnv,
        caller: Address,
        kind: ModuleKind,
        version: u32,
        address: Address,
    ) -> (r: Result<(), Error>)
        ensures
            r == old(self)@.register_version_outcome(caller, kind, version),
            final(env)@ == old(env)@.auth(caller),
            r is Err ==> *final(self) == *old(self),
            r is Ok ==> final(self)@ == old(self)@.with_version(kind, version, address),
            old(self)@.wf() ==> final(self)@.wf(),
    {
        self.require_admin(env, &caller)?;
        if version == 0 {
            return Err(Error::InvalidInput);
        }
        if self.versions.has(&(kind, version)) {
            return Err(Error::AlreadyExists);
        }
        let newer = match self.latest.get(&kind) {
            Some(v) => *v > version,
            None => false,
        };
        self.versions.set((kind, version), address);
        if !newer {
            self.latest.set(kind, version);
        }
        Ok(())
    }

    // --- views ---

    pub fn get_admin(&self) -> (r: Result<Address, Error>)
        ensures
            r == (match self@.admin {
                Some(a) => Ok::<Address, Error>(a),
                None => Err(Error::NotInitialized),
            }),
    {
        match self.admin {
            Some(a) => Ok(a),
            None => Err(Error::NotInitialized),
        }
    }

    pub fn get_org_owner(&self, org: &String) -> (r: Result<Address, Error>)
        ensures
            r == (if self@.owners.contains_key(org@) {
                Ok::<Address, Error>(self@.owners[org@])
            } else {
                Err(Error::NotFound)
            }),
    {
        match self.owners.get(org) {
            Some(o) => Ok(*o),
            None => Err(Error::NotFound),
        }
    }

    /// Whether an address owns an organization.
    pub fn verify_owner(&self, org: &String, owner: Address) -> (r: bool)
        ensures
            r == (self@.owners.contains_key(org@) && self@.owners[org@] == owner),
    {
        match self.owners.get(org) {
            Some(o) => *o == owner,
            None => false,
        }
    }

    /// The address of an organization's module.
    pub fn lookup(&self, org: &String, kind: ModuleKind) -> (r: Result<Address, Error>)
        ensures
            r == self@.lookup_outcome(org@, kind),
    {
        match self.modules.get(&(org.clone(), kind)) {
            Some(a) => Ok(*a),
            None => Err(Error::NotFound),
        }
    }

    /// The address of a released version.
    pub fn get_version(&self, kind: ModuleKind, version: u32) -> (r: Result<Address, Error>)
        ensures
            r == (if self@.versions.contains_key((kind, version)) {
                Ok::<Address, Error>(self@.versions[(kind, version)])
            } else {
                Err(Error::NotFound)
            }),
    {
        match self.versions.get(&(kind, version)) {
            Some(a) => Ok(*a),
            None => Err(Error::NotFound),
        }
    }

    /// The address of the highest released version of a kind.
    pub fn get_latest(&self, kind: ModuleKind) -> (r: Result<Address, Error>)
        requires
            self@.wf(),
        ensures
            r == (if self@.latest.contains_key(kind) {
                Ok::<Address, Error>(self@.versions[(kind, self@.latest[kind])])
            } else {
                Err(Error::NotFound)
            }),
    {
        match self.latest.get(&kind) {
            Some(version) => self.get_version(kind, *version),
            None => Err(Error::NotFound),
        }
    }
}

// --- laws ---

/// The latest version of a kind is the highest one that was released.
pub proof fn latest_is_the_highest(s: RegistryView, kind: ModuleKind, version: u32)
    requires
        s.wf(),
        s.versions.contains_key((kind, version)),
    ensures
        s.latest.contains_key(kind),
        version <= s.latest[kind],
        s.versions.contains_key((kind, s.latest[kind])),
{
}

/// A lookup gives back what was registered, until it is removed, and modules of
/// other organizations or kinds are not affected.
pub proof fn lookup_gives_back_what_was_registered(
    s: RegistryView,
    org: Seq<char>,
    kind: ModuleKind,
    address: Address,
    other: (Seq<char>, ModuleKind),
)
    ensures
        ({
            let t = RegistryView { modules: s.modules.insert((org, kind), address), ..s };
            let u = RegistryView { modules: t.modules.remove((org, kind)), ..t };
            &&& t.lookup_outcome(org, kind) == Ok::<Address, Error>(address)
            &&& u.lookup_outcome(org, kind) == Err::<Address, Error>(Error::NotFound)
            &&& other != (org, kind) ==> t.lookup_outcome(other.0, other.1) == s.lookup_outcome(
                other.0,
                other.1,
            )
        }),
{
}

/// The admin registers organizations under names that are not in use, and
/// versions from one on that are not in use; an organization's owner changes its
/// records while they are not frozen. Nobody else does.
pub proof fn records_change_by_their_owners(
    s: RegistryView,
    caller: Address,
    org: Seq<char>,
    kind: ModuleKind,
    version: u32,
)
    ensures
        s.admin_check(caller) is Ok <==> s.admin == Some(caller),
        s.owner_check(org, caller) is Ok <==> s.owners.contains_key(org) && s.owners[org] == caller,
        s.change_check(org, caller) is Ok <==> s.owners.contains_key(org) && s.owners[org] == caller
            && !(s.frozen.contains_key(org) && s.frozen[org]),
        s.register_org_outcome(caller, org) is Ok <==> s.admin == Some(caller) && org.len() > 0
            && !s.owners.contains_key(org),
        s.register_version_outcome(caller, kind, version) is Ok <==> s.admin == Some(caller)
            && version > 0 && !s.versions.contains_key((kind, version)),
{
}

/// A released version is found under its number, and is the latest exactly where
/// no higher one was released before; other versions and kinds stay as they were.
pub proof fn higher_versions_become_the_latest(
    s: RegistryView,
    kind: ModuleKind,
    version: u32,
    address: Address,
    other: (ModuleKind, u32),
)
    ensures
        ({
            let t = s.with_version(kind, version, address);
            &&& t.versions.contains_key((kind, version)) && t.versions[(kind, version)] == address
            &&& other != (kind, version) ==> (t.versions.contains_key(other)
                <==> s.versions.contains_key(other)) && t.versions[other] == s.versions[other]
            &&& t.latest.contains_key(kind)
            &&& !s.latest.contains_key(kind) ==> t.latest[kind] == version
            &&& s.latest.contains_key(kind) ==> t.latest[kind] == (if version > s.latest[kind] {
                version
            } else {
                s.latest[kind]
            })
            &&& other.0 != kind ==> (t.latest.contains_key(other.0) <==> s.latest.contains_key(
                other.0,
            )) && t.latest[other.0] == s.latest[other.0]
            &&& t.owners == s.owners && t.modules == s.modules && t.frozen == s.frozen
        }),
{
}

} // verus!
