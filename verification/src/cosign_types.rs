//! Cosigns, and the intents to cosign.
use crate::keypair::{verifies, Keypair};
use crate::network_id::ExternalNetworkId;
use crate::primitives::BlockHash;
use crate::random::{next_u32, next_u64};
use crate::test_helpers::{
    network_for_draw, random_block_hash, random_global_session,
};
use rand_core::OsRng;
use vstd::prelude::*;

verus! {

/// The intent to cosign a block.
#[derive(Clone, Copy, PartialEq, Eq, Debug)]
pub struct CosignIntent {
    /// The global session the block is to be cosigned with.
    pub global_session: [u8; 32],
    /// The number of the block.
    pub block_number: u64,
    /// The hash of the block.
    pub block_hash: BlockHash,
    /// Whether the block is notable.
    pub notable: bool,
}

/// A cosign of a block.
#[derive(Clone, Copy, PartialEq, Eq, Debug)]
pub struct Cosign {
    /// The global session the block is cosigned with.
    pub global_session: [u8; 32],
    /// The number of the block.
    pub block_number: u64,
    /// The hash of the block.
    pub block_hash: BlockHash,
    /// The network whose validators cosign the block.
    pub cosigner: ExternalNetworkId,
}

/// A cosign of a block, with the signature of it.
#[derive(Clone, Copy, PartialEq, Eq, Debug)]
pub struct SignedCosign {
    /// The cosign.
    pub cosign: Cosign,
    /// The signature.
    pub signature: [u8; 64],
}

/// Sign a [`Cosign`] with a keypair, producing a [`SignedCosign`]. The message is the one which the
/// cosign is signed by.
pub fn sign_cosign(
    cosign: Cosign,
    context: &[u8],
    message: &[u8],
    keypair: &Keypair,
) -> (signed: SignedCosign)
    requires
        context@.len() <= u32::MAX,
        message@.len() <= u32::MAX,
    ensures
        signed.cosign == cosign,
        verifies(keypair.public().0@, context@, message@, signed.signature@),
{
    SignedCosign { signature: keypair.sign(context, message), cosign }
}

/// The cosign of a block, by the network which a random draw decides on.
pub fn cosign_for_draws(
    global_session: [u8; 32],
    block_number: u64,
    block_hash: BlockHash,
    draw: u64,
) -> (cosign: Cosign)
    ensures
        cosign.global_session == global_session,
        cosign.block_number == block_number,
        cosign.block_hash == block_hash,
        cosign.cosigner == network_for_draw(draw),
{
    Cosign { global_session, block_number, block_hash, cosigner: network_for_draw(draw) }
}

/// Generate a random [`Cosign`] for testing, which may be any.
pub fn random_cosign(rng: &mut OsRng) -> (cosign: Cosign) {
    let global_session = random_global_session(rng);
    let block_number: u64 = next_u64(rng);
    let block_hash = random_block_hash(rng);
    let draw: u64 = next_u64(rng);
    cosign_for_draws(global_session, block_number, block_hash, draw)
}

/// The intent to cosign a block, which is notable if the random draw is even.
pub fn cosign_intent_for_draw(
    global_session: [u8; 32],
    block_number: u64,
    block_hash: BlockHash,
    draw: u32,
) -> (intent: CosignIntent)
    ensures
        intent.global_session == global_session,
        intent.block_number == block_number,
        intent.block_hash == block_hash,
        intent.notable == (draw % 2 == 0),
{
    CosignIntent { global_session, block_number, block_hash, notable: draw % 2 == 0 }
}

/// Generate a random [`CosignIntent`] for testing, which may be any.
pub fn random_cosign_intent(rng: &mut OsRng) -> (intent: CosignIntent) {
    let global_session = random_global_session(rng);
    let block_number: u64 = next_u64(rng);
    let block_hash = random_block_hash(rng);
    let draw: u32 = next_u32(rng);
    cosign_intent_for_draw(global_session, block_number, block_hash, draw)
}

} // verus!
