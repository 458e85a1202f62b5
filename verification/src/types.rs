//! Vocabulary shared by more than one contract.
use vstd::prelude::*;

verus! {

/// A 32-byte value (a key, a digest, a network id) as two big-endian halves.
#[derive(Clone, Copy, Debug, PartialEq, Eq, Hash, Structural)]
pub struct Bytes32 {
    pub hi: u128,
    pub lo: u128,
}

/// A 64-byte value (a signature) as two 32-byte halves.
#[derive(Clone, Copy, Debug, PartialEq, Eq, Structural)]
pub struct Bytes64 {
    pub r: Bytes32,
    pub s: Bytes32,
}

/// What an [`Address`] names.
#[derive(Clone, Copy, Debug, PartialEq, Eq, Hash, Structural)]
pub enum AddressKind {
    /// A Stellar account, by its ed25519 public key.
    Account,
    /// A contract, by its hash.
    Contract,
}

/// The address of an account or of a contract on the ledger.
#[derive(Clone, Copy, Debug, PartialEq, Eq, Hash, Structural)]
pub struct Address {
    pub kind: AddressKind,
    pub key: Bytes32,
}

impl View for Address {
    type V = Address;

    open spec fn view(&self) -> Address {
        *self
    }
}

/// Whether a list holds an address.
pub(crate) fn contains_address(list: &Vec<Address>, who: &Address) -> (r: bool)
    ensures
        r == list@.contains(*who),
{
    let mut i: usize = 0;
    while i < list.len()
        invariant
            i <= list@.len(),
            forall|j: int| 0 <= j < i ==> list@[j] != *who,
        decreases list@.len() - i,
    {
        if list[i] == *who {
            return true;
        }
        i = i + 1;
    }
    false
}

/// A single asset amount. `asset` is the asset's token contract; `amount` is in
/// the token's smallest unit. Amounts are never negative on valid paths.
#[derive(Clone, Copy, Debug, PartialEq, Eq, Structural)]
pub struct AssetAmount {
    pub asset: Address,
    pub amount: i128,
}

/// Coarse lifecycle state shared by wallets and other stateful resources.
/// Individual contracts may narrow which transitions are legal.
#[derive(Clone, Copy, Debug, PartialEq, Eq, Structural)]
pub enum ResourceState {
    Active,
    Frozen,
    Paused,
    Archived,
}

/// The kind of module an address represents inside the registry.
#[derive(Clone, Copy, Debug, PartialEq, Eq, Structural)]
pub enum ModuleKind {
    Wallet,
    Treasury,
    Multisig,
    Proposal,
    Policy,
    Budget,
    Escrow,
    Organization,
}

impl View for ModuleKind {
    type V = ModuleKind;

    open spec fn view(&self) -> ModuleKind {
        *self
    }
}

/// An organization-scoped identifier. The protocol is multi-tenant, so most
/// records are keyed by the organization they belong to.
#[derive(Clone, Debug)]
pub struct OrgRef {
    pub org: String,
}

/// A single leg of a batch payout: how much to send to whom. The asset is
/// carried once by the enclosing call, so a batch always disburses one asset
/// and its total can be checked against one holding.
#[derive(Clone, Copy, Debug, PartialEq, Eq, Structural)]
pub struct Payment {
    pub recipient: Address,
    pub amount: i128,
}

} // verus!
