//! The events of a Serai block.
use crate::auxiliary_keys::EmbeddedEllipticCurveKeys;
use crate::network_id::{ExternalCoin, ExternalNetworkId, NetworkId};
use crate::primitives::{
    BlockHash, ExternalAddress, ExternalValidatorSet, KeyPair, KeyShares, SeraiAddress, Session,
    ValidatorSet,
};
use vstd::prelude::*;

verus! {

/// A set of validators was decided.
#[derive(Clone, PartialEq, Eq, Debug)]
pub struct SetDecided {
    /// The set decided.
    pub set: ValidatorSet,
    /// Its validators, and the key shares each is to have.
    pub validators: Vec<(SeraiAddress, KeyShares)>,
}

/// A set of validators set its keys.
#[derive(Clone, PartialEq, Eq, Debug)]
pub struct SetKeys {
    /// The set whose keys were set.
    pub set: ExternalValidatorSet,
    /// The keys set.
    pub key_pair: KeyPair,
}

/// Who slashes were reported of.
#[derive(Clone, Copy, PartialEq, Eq, Debug)]
pub enum ReportedSlashes {
    /// A validator for Serai itself.
    SeraiValidator(SeraiAddress),
    /// The validators of a set for an external network.
    ExternalValidatorSet(ExternalValidatorSet),
}

/// A validator declared its auxiliary keys for a network.
#[derive(Clone, Copy, PartialEq, Eq, Debug)]
pub struct SetEmbeddedEllipticCurveKeys {
    /// The validator.
    pub validator: SeraiAddress,
    /// The keys declared.
    pub keys: EmbeddedEllipticCurveKeys,
}

/// A set of validators accepted the handover to it.
#[derive(Clone, Copy, PartialEq, Eq, Structural, Debug)]
pub struct AcceptedHandover {
    /// The set which accepted the handover.
    pub set: ValidatorSet,
}

/// A batch of instructions from an external network was executed.
#[derive(Clone, PartialEq, Eq, Debug)]
pub struct Batch {
    /// The network the batch is from.
    pub network: ExternalNetworkId,
    /// The session which published the batch.
    pub publishing_session: Session,
    /// The ID of the batch.
    pub id: u32,
    /// The hash of the external network's block which caused the batch.
    pub external_network_block_hash: BlockHash,
    /// The hash of the batch's instructions.
    pub in_instructions_hash: [u8; 32],
    /// Whether each of the batch's instructions succeeded.
    pub in_instruction_results: Vec<bool>,
}

/// An amount of a coin of an external network.
#[derive(Clone, Copy, PartialEq, Eq, Structural, Debug)]
pub struct ExternalBalance {
    /// The coin.
    pub coin: ExternalCoin,
    /// The amount of it.
    pub amount: u64,
}

/// An instruction to send coins out, to an external network.
#[derive(PartialEq, Eq, Debug)]
pub struct OutInstructionWithBalance {
    /// The address to send to.
    pub address: ExternalAddress,
    /// What to send.
    pub balance: ExternalBalance,
}

impl Clone for OutInstructionWithBalance {
    fn clone(&self) -> (copy: Self)
        ensures
            copy.address@ == self.address@,
            copy.balance == self.balance,
    {
        OutInstructionWithBalance { address: self.address.clone(), balance: self.balance }
    }
}

/// Coins were burnt, with an instruction to send them out.
#[derive(Clone, PartialEq, Eq, Debug)]
pub struct BurnWithInstruction {
    /// The account whose coins were burnt.
    pub from: SeraiAddress,
    /// The instruction.
    pub instruction: OutInstructionWithBalance,
}

/// An event of a Serai block.
#[derive(Clone, PartialEq, Eq, Debug)]
pub enum Event {
    /// A validator allocated stake.
    Allocation {
        /// The validator.
        validator: SeraiAddress,
        /// The network the stake is for.
        network: NetworkId,
        /// The amount.
        amount: u64,
    },
    /// A validator deallocated stake.
    Deallocation {
        /// The validator.
        validator: SeraiAddress,
        /// The network the stake was for.
        network: NetworkId,
        /// The amount.
        amount: u64,
    },
    /// A set of validators was decided.
    SetDecided(SetDecided),
    /// A set of validators set its keys.
    SetKeys(SetKeys),
    /// Slashes were reported.
    Slashes(ReportedSlashes),
    /// A validator declared its auxiliary keys for a network.
    SetEmbeddedEllipticCurveKeys(SetEmbeddedEllipticCurveKeys),
    /// A set of validators accepted the handover to it.
    AcceptedHandover(AcceptedHandover),
    /// A batch of instructions from an external network was executed.
    Batch(Batch),
    /// Coins were burnt, with an instruction to send them out.
    BurnWithInstruction(BurnWithInstruction),
    /// Any other event.
    Other,
}

/// The events of a block, given by transaction, one after the other.
pub open spec fn in_order(events: Seq<Vec<Event>>) -> Seq<Event> {
    events.map_values(|e: Vec<Event>| e@).flatten()
}

/// The events of no transactions.
pub proof fn lemma_in_order_none()
    ensures
        in_order(Seq::<Vec<Event>>::empty()) == Seq::<Event>::empty(),
{
    let none = Seq::<Vec<Event>>::empty().map_values(|e: Vec<Event>| e@);
    assert(none =~= Seq::<Seq<Event>>::empty());
}

/// The events of one more transaction.
pub proof fn lemma_in_order_push(events: Seq<Vec<Event>>, transaction: Vec<Event>)
    ensures
        in_order(events.push(transaction)) == in_order(events) + transaction@,
{
    let view = |e: Vec<Event>| e@;
    assert(events.push(transaction).map_values(view) =~= events.map_values(view).push(
        transaction@,
    ));
    events.map_values(view).lemma_flatten_push(transaction@);
}

} // verus!
