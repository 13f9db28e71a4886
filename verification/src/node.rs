//! What a Serai node answers with.
use crate::cosign::{CosignedBlockError, Cosigning};
use crate::errors::StreamError;
use crate::events::{in_order, Event};
use crate::primitives::BlockHash;
use vstd::prelude::*;

verus! {

/// A Serai block.
#[derive(Clone, Copy, PartialEq, Eq, Structural, Debug)]
pub struct SeraiBlock {
    /// The time of the block, in milliseconds.
    pub unix_time_in_millis: u64,
}

impl SeraiBlock {
    /// The time of this block, in seconds, rounded down.
    pub open spec fn spec_time(self) -> u64 {
        self.unix_time_in_millis / 1000
    }

    /// The time of this block, in seconds, rounded down.
    #[verifier::when_used_as_spec(spec_time)]
    pub fn time(self) -> (time: u64)
        ensures
            time == self.spec_time(),
    {
        self.unix_time_in_millis / 1000
    }
}

/// The answer to a request for the events of a block: the events, by transaction, or what the
/// request failed with.
pub type EventsReply = Result<Vec<Vec<Event>>, String>;

/// The answer to a request for a block: the block, where there is one, or what the request failed
/// with.
pub type BlockReply = Result<Option<SeraiBlock>, String>;

/// All answers the node gives, or would give, of a block.
pub struct Replies {
    /// The answer to the request for its events.
    pub events: EventsReply,
    /// The answer to the request for the block.
    pub block: BlockReply,
}

/// The hash by which a block is to be requested.
pub open spec fn hash_to_fetch(cosigning: Cosigning, block_number: u64) -> Result<
    BlockHash,
    StreamError,
> {
    match cosigning.cosigned(block_number) {
        Ok(Some(hash)) => Ok(hash),
        Ok(None) => Err(StreamError::NotCosigned { block_number }),
        Err(CosignedBlockError::Faulted) => Err(StreamError::CosigningFaulted),
        Err(CosignedBlockError::NotIndexed) => Err(StreamError::NotIndexed { block_number }),
    }
}

/// Get the hash by which a block is to be requested.
pub fn get_hash_to_fetch(cosigning: &Cosigning, block_number: u64) -> (hash: Result<
    BlockHash,
    StreamError,
>)
    ensures
        hash == hash_to_fetch(*cosigning, block_number),
{
    match cosigning.cosigned_block(block_number) {
        Ok(Some(hash)) => Ok(hash),
        Ok(None) => Err(StreamError::NotCosigned { block_number }),
        Err(CosignedBlockError::Faulted) => Err(StreamError::CosigningFaulted),
        Err(CosignedBlockError::NotIndexed) => Err(StreamError::NotIndexed { block_number }),
    }
}

/// The events which were answered with.
pub open spec fn events_fetched(block_hash: BlockHash, reply: EventsReply) -> Result<
    Seq<Event>,
    StreamError,
> {
    match reply {
        Ok(events) => Ok(in_order(events@)),
        Err(error) => Err(StreamError::EventsRpc { block_hash, error }),
    }
}

/// Get the events which were answered with.
pub(crate) fn get_events(block_hash: BlockHash, reply: EventsReply) -> (events: Result<
    Vec<Vec<Event>>,
    StreamError,
>)
    ensures
        match events {
            Ok(events) => events_fetched(block_hash, reply) == Ok::<Seq<Event>, StreamError>(
                in_order(events@),
            ),
            Err(error) => events_fetched(block_hash, reply) == Err::<Seq<Event>, StreamError>(
                error,
            ),
        },
{
    match reply {
        Ok(events) => Ok(events),
        Err(error) => Err(StreamError::EventsRpc { block_hash, error }),
    }
}

/// The block which was answered with. A cosigned block is expected to exist.
pub open spec fn block_fetched(
    block_number: u64,
    block_hash: BlockHash,
    reply: BlockReply,
) -> Result<SeraiBlock, StreamError> {
    match reply {
        Ok(Some(block)) => Ok(block),
        Ok(None) => Err(StreamError::MissingBlock { block_number }),
        Err(error) => Err(StreamError::BlockRpc { block_hash, error }),
    }
}

/// Get the block which was answered with.
pub(crate) fn get_block(
    block_number: u64,
    block_hash: BlockHash,
    reply: BlockReply,
) -> (block: Result<SeraiBlock, StreamError>)
    ensures
        block == block_fetched(block_number, block_hash, reply),
{
    match reply {
        Ok(Some(block)) => Ok(block),
        Ok(None) => Err(StreamError::MissingBlock { block_number }),
        Err(error) => Err(StreamError::BlockRpc { block_hash, error }),
    }
}

} // verus!
