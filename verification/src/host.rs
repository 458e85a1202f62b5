//! The environment of one contract invocation: what the contract reads from the
//! ledger, and what it asks the host to carry out.
use crate::events::Event;
use crate::multisig::BatchCall;
use crate::types::{Address, Bytes32, Bytes64};
use std::rc::Rc;
use vstd::prelude::*;

verus! {

/// One thing that the host carries out for the contract.
#[derive(Debug)]
pub enum Effect {
    /// The address must have authorized this invocation; the host aborts the
    /// whole invocation where it has not.
    RequireAuth(Address),
    /// The address must have authorized the batch payload: the nonce together
    /// with the whole list of calls.
    AuthorizeBatch { signer: Address, nonce: u64, calls: Rc<Vec<BatchCall>> },
    /// Make the call at an index of a batch, catching its failure.
    Invoke { calls: Rc<Vec<BatchCall>>, index: usize },
    /// Move tokens of `asset`; the host aborts where `from` cannot pay.
    Transfer { asset: Address, from: Address, to: Address, amount: i128 },
    /// Call `check_transfer` of a policy contract; the host aborts where the
    /// policy refuses.
    CheckPolicy {
        policy: Address,
        policy_id: &'static str,
        asset: Address,
        recipient: Address,
        amount: i128,
    },
    /// Call `consume` of a budget contract; the host aborts where it refuses.
    ConsumeBudget { budget: Address, caller: Address, budget_id: String, amount: i128 },
    /// Verify an ed25519 signature over a message digest; the host aborts where
    /// it does not verify.
    VerifySignature { public_key: Bytes32, message: Bytes32, signature: Bytes64 },
    /// Publish an event.
    Publish(Event),
}

/// The environment of one invocation. The host fills in what it knows, runs one
/// entry point, and then carries out `log` in order.
pub struct CallEnv {
    /// Ledger close time, in seconds.
    pub timestamp: u64,
    /// Ledger sequence number.
    pub sequence: u32,
    /// The address of the running contract.
    pub contract: Address,
    /// The identifier of the network.
    pub network_id: Bytes32,
    /// What the host has to carry out, in order.
    pub log: Vec<Effect>,
}

/// The environment as a value.
pub struct EnvView {
    pub timestamp: u64,
    pub sequence: u32,
    pub contract: Address,
    pub network_id: Bytes32,
    pub log: Seq<Effect>,
}

impl View for CallEnv {
    type V = EnvView;

    open spec fn view(&self) -> EnvView {
        EnvView {
            timestamp: self.timestamp,
            sequence: self.sequence,
            contract: self.contract,
            network_id: self.network_id,
            log: self.log@,
        }
    }
}

impl EnvView {
    /// The environment after one more effect.
    pub open spec fn with(self, e: Effect) -> EnvView {
        EnvView { log: self.log.push(e), ..self }
    }

    /// The environment after demanding an address's authorization.
    pub open spec fn auth(self, who: Address) -> EnvView {
        self.with(Effect::RequireAuth(who))
    }

    /// The environment after publishing an event.
    pub open spec fn emit(self, event: Event) -> EnvView {
        self.with(Effect::Publish(event))
    }

    /// The environment after a token transfer.
    pub open spec fn transfer(
        self,
        asset: Address,
        from: Address,
        to: Address,
        amount: i128,
    ) -> EnvView {
        self.with(Effect::Transfer { asset, from, to, amount })
    }
}

impl CallEnv {
    /// The environment of a fresh invocation.
    pub fn new(timestamp: u64, sequence: u32, contract: Address, network_id: Bytes32) -> (r: Self)
        ensures
            r@ == (EnvView { timestamp, sequence, contract, network_id, log: Seq::empty() }),
    {
        CallEnv { timestamp, sequence, contract, network_id, log: Vec::new() }
    }

    /// Demands that an address has authorized the invocation.
    pub fn require_auth(&mut self, who: Address)
        ensures
            final(self)@ == old(self)@.auth(who),
    {
        self.log.push(Effect::RequireAuth(who));
    }

    /// Publishes an event.
    pub fn publish(&mut self, event: Event)
        ensures
            final(self)@ == old(self)@.emit(event),
    {
        self.log.push(Effect::Publish(event));
    }

    /// Moves tokens.
    pub fn transfer(&mut self, asset: Address, from: Address, to: Address, amount: i128)
        ensures
            final(self)@ == old(self)@.transfer(asset, from, to, amount),
    {
        self.log.push(Effect::Transfer { asset, from, to, amount });
    }

    /// Asks the host for some other effect.
    pub fn record(&mut self, effect: Effect)
        ensures
            final(self)@ == old(self)@.with(effect),
    {
        self.log.push(effect);
    }
}

/// Each effect is recorded after those before it, and changes nothing else.
pub proof fn effects_are_recorded_last(
    e: EnvView,
    effect: Effect,
    who: Address,
    event: Event,
    asset: Address,
    from: Address,
    to: Address,
    amount: i128,
)
    ensures
        e.with(effect).log == e.log.push(effect),
        e.auth(who).log == e.log.push(Effect::RequireAuth(who)),
        e.emit(event).log == e.log.push(Effect::Publish(event)),
        e.transfer(asset, from, to, amount).log == e.log.push(
            Effect::Transfer { asset, from, to, amount },
        ),
        e.with(effect).timestamp == e.timestamp && e.with(effect).sequence == e.sequence,
        e.with(effect).contract == e.contract && e.with(effect).network_id == e.network_id,
{
}

} // verus!
