//! What a contract holds in custody, as the effects it has asked for add up.
//!
//! The log of a contract, from its first call on, says which tokens it has had
//! moved in and out. A contract that keeps books is *covered* while its books
//! never claim more than that; the laws of each contract state that its entry
//! points keep it so.
use crate::host::{Effect, EnvView};
use crate::types::Address;
use vstd::prelude::*;

verus! {

/// What one effect adds to what an address holds of an asset.
pub open spec fn inflow(effect: Effect, asset: Address, who: Address) -> int {
    match effect {
        Effect::Transfer { asset: moved, from, to, amount } => if moved == asset {
            (if to == who {
                amount as int
            } else {
                0
            }) - (if from == who {
                amount as int
            } else {
                0
            })
        } else {
            0
        },
        _ => 0,
    }
}

/// What a log adds to what an address holds of an asset.
pub open spec fn net_inflow(log: Seq<Effect>, asset: Address, who: Address) -> int
    decreases log.len(),
{
    if log.len() == 0 {
        0
    } else {
        net_inflow(log.drop_last(), asset, who) + inflow(log.last(), asset, who)
    }
}

impl EnvView {
    /// What the contract has received of an asset, less what it has sent.
    pub open spec fn holds(self, asset: Address) -> int {
        net_inflow(self.log, asset, self.contract)
    }
}

/// One more effect adds its own inflow.
pub broadcast proof fn lemma_holds(e: EnvView, effect: Effect, asset: Address)
    ensures
        (#[trigger] e.with(effect).holds(asset)) == e.holds(asset) + inflow(
            effect,
            asset,
            e.contract,
        ),
{
    assert(e.log.push(effect).drop_last() =~= e.log);
}

/// A contract comes to hold what is transferred to it, and holds less of what it
/// transfers; what others move among themselves, and any other effect, changes
/// nothing.
pub proof fn transfers_change_custody(
    e: EnvView,
    asset: Address,
    from: Address,
    to: Address,
    amount: i128,
    other: Address,
    who: Address,
)
    requires
        from != to,
    ensures
        to == e.contract ==> e.transfer(asset, from, to, amount).holds(asset) == e.holds(asset)
            + amount,
        from == e.contract ==> e.transfer(asset, from, to, amount).holds(asset) == e.holds(asset)
            - amount,
        from != e.contract && to != e.contract ==> e.transfer(asset, from, to, amount).holds(asset)
            == e.holds(asset),
        other != asset ==> e.transfer(asset, from, to, amount).holds(other) == e.holds(other),
        e.auth(who).holds(asset) == e.holds(asset),
        e.log.len() == 0 ==> e.holds(asset) == 0,
{
    broadcast use lemma_holds;

}

} // verus!
