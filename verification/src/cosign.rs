//! The cosigned blocks of Serai.
use crate::primitives::BlockHash;
use std::collections::HashMap;
use vstd::prelude::*;

verus! {

broadcast use vstd::std_specs::hash::group_hash_axioms;

/// A session faulted.
#[derive(Clone, Copy, PartialEq, Eq, Structural, Debug)]
pub struct Faulted;

/// Why there's no answer to which block was cosigned.
#[derive(Clone, Copy, PartialEq, Eq, Structural, Debug)]
pub enum CosignedBlockError {
    /// A session faulted.
    Faulted,
    /// The block was cosigned yet its hash wasn't indexed.
    NotIndexed,
}

/// What's known of which blocks were cosigned.
#[derive(PartialEq, Eq, Debug)]
pub struct Cosigning {
    /// The hashes of the blocks which were indexed, by their number.
    pub substrate_block_hashes: HashMap<u64, BlockHash>,
    /// The number of the latest block which was cosigned.
    pub latest_cosigned_block_number: Option<u64>,
    /// The session which faulted, if one did.
    pub faulted_session: Option<[u8; 32]>,
}

impl Cosigning {
    /// Nothing has been cosigned.
    pub fn new() -> (cosigning: Self)
        ensures
            cosigning.substrate_block_hashes@ == Map::<u64, BlockHash>::empty(),
            cosigning.latest_cosigned_block_number is None,
            cosigning.faulted_session is None,
    {
        Cosigning {
            substrate_block_hashes: HashMap::new(),
            latest_cosigned_block_number: None,
            faulted_session: None,
        }
    }

    /// The latest cosigned block, unless a session faulted.
    pub open spec fn latest(&self) -> Result<Option<u64>, Faulted> {
        if self.faulted_session is Some {
            Err(Faulted)
        } else {
            Ok(self.latest_cosigned_block_number)
        }
    }

    /// The latest cosigned block, unless a session faulted.
    pub fn latest_cosigned_block_number(&self) -> (latest: Result<Option<u64>, Faulted>)
        ensures
            latest == self.latest(),
    {
        match self.faulted_session {
            Some(_) => Err(Faulted),
            None => Ok(self.latest_cosigned_block_number),
        }
    }

    /// The hash of a block, where it's been cosigned.
    pub open spec fn cosigned(&self, block_number: u64) -> Result<
        Option<BlockHash>,
        CosignedBlockError,
    > {
        match self.latest() {
            Err(_) => Err(CosignedBlockError::Faulted),
            Ok(None) => Ok(None),
            Ok(Some(latest)) => if block_number > latest {
                Ok(None)
            } else if self.substrate_block_hashes@.contains_key(block_number) {
                Ok(Some(self.substrate_block_hashes@[block_number]))
            } else {
                Err(CosignedBlockError::NotIndexed)
            },
        }
    }

    /// The hash of a block, where it's been cosigned. Every block through the latest cosigned one
    /// is expected to be indexed.
    pub fn cosigned_block(&self, block_number: u64) -> (hash: Result<
        Option<BlockHash>,
        CosignedBlockError,
    >)
        ensures
            hash == self.cosigned(block_number),
    {
        match self.latest_cosigned_block_number() {
            Err(_) => Err(CosignedBlockError::Faulted),
            Ok(None) => Ok(None),
            Ok(Some(latest)) => if block_number > latest {
                Ok(None)
            } else {
                match self.substrate_block_hashes.get(&block_number) {
                    Some(hash) => Ok(Some(*hash)),
                    None => Err(CosignedBlockError::NotIndexed),
                }
            },
        }
    }
}

/// Seed the DB with the hash for a cosigned Substrate block number.
pub fn set_substrate_block_hash(txn: &mut Cosigning, block_number: u64, hash: &BlockHash)
    ensures
        final(txn).substrate_block_hashes@ == old(txn).substrate_block_hashes@.insert(
            block_number,
            *hash,
        ),
        final(txn).latest_cosigned_block_number == old(txn).latest_cosigned_block_number,
        final(txn).faulted_session == old(txn).faulted_session,
{
    txn.substrate_block_hashes.insert(block_number, *hash);
}

/// Seed the DB with the latest cosigned block number.
pub fn set_latest_cosigned_block_number(txn: &mut Cosigning, block_number: u64)
    ensures
        final(txn).latest_cosigned_block_number == Some(block_number),
        final(txn).substrate_block_hashes == old(txn).substrate_block_hashes,
        final(txn).faulted_session == old(txn).faulted_session,
{
    txn.latest_cosigned_block_number = Some(block_number);
}

/// Seed the DB to mark a global session as faulted.
pub fn set_faulted_session(txn: &mut Cosigning, global_session: [u8; 32])
    ensures
        final(txn).faulted_session == Some(global_session),
        final(txn).substrate_block_hashes == old(txn).substrate_block_hashes,
        final(txn).latest_cosigned_block_number == old(txn).latest_cosigned_block_number,
{
    txn.faulted_session = Some(global_session);
}

/// Delete the hash for a cosigned Substrate block number.
pub fn del_substrate_block_hash(txn: &mut Cosigning, block_number: u64)
    ensures
        final(txn).substrate_block_hashes@ == old(txn).substrate_block_hashes@.remove(block_number),
        final(txn).latest_cosigned_block_number == old(txn).latest_cosigned_block_number,
        final(txn).faulted_session == old(txn).faulted_session,
{
    txn.substrate_block_hashes.remove(&block_number);
}

/// Delete the latest cosigned block number.
pub fn del_latest_cosigned_block_number(txn: &mut Cosigning)
    ensures
        final(txn).latest_cosigned_block_number is None,
        final(txn).substrate_block_hashes == old(txn).substrate_block_hashes,
        final(txn).faulted_session == old(txn).faulted_session,
{
    txn.latest_cosigned_block_number = None;
}

/// A seeded hash is the one found, so long as the block isn't past the latest cosigned one and no
/// session faulted.
pub proof fn seeded_hash_is_found(before: Cosigning, after: Cosigning, block_number: u64, hash: BlockHash)
    requires
        after.substrate_block_hashes@ == before.substrate_block_hashes@.insert(block_number, hash),
        after.faulted_session is None,
        after.latest_cosigned_block_number matches Some(latest) && block_number <= latest,
    ensures
        after.cosigned(block_number) == Ok::<Option<BlockHash>, CosignedBlockError>(Some(hash)),
{
}

} // verus!
