//! Treasury-management contracts: wallets, treasuries, budgets, policies,
//! proposals, multisigs and escrows, as verified state machines.
//!
//! Each contract is a struct that holds its storage, with one method per entry
//! point. An entry point takes the invocation's [`host::CallEnv`], decides from the
//! stored records and its arguments, updates the storage, and appends to the
//! environment's log what the host still has to carry out: authorizations to
//! demand, token transfers to make, contracts to call and events to publish.
//! An entry point that returns an error leaves the storage as it was.
pub mod access;
pub mod budget;
pub mod constants;
pub mod custody;
pub mod encoding;
pub mod errors;
pub mod escrow;
pub mod events;
pub mod host;
pub mod math;
pub mod multisig;
pub mod policy;
pub mod proposal;
pub mod registry;
pub mod table;
pub mod treasury;
pub mod types;
pub mod validation;
pub mod wallet;
