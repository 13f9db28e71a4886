//! Why an event stream couldn't go on.
use crate::network_id::ExternalNetworkId;
use crate::primitives::{BlockHash, ExternalValidatorSet, MAX_KEY_SHARES_PER_SET};
use crate::text::{decimal, hex, push_decimal, push_hex};
use vstd::prelude::*;
use vstd::string::*;

verus! {

/// Why an event stream couldn't go on.
#[derive(PartialEq, Eq, Debug)]
pub enum StreamError {
    /// A session faulted, so there's no latest cosigned block.
    LatestCosignedBlockNumber,
    /// A session faulted, so there are no cosigned blocks.
    CosigningFaulted,
    /// A block to iterate to wasn't cosigned.
    NotCosigned {
        /// The number of the block.
        block_number: u64,
    },
    /// A block was cosigned yet its hash wasn't indexed.
    NotIndexed {
        /// The number of the block.
        block_number: u64,
    },
    /// The Serai node failed to answer with a block.
    BlockRpc {
        /// The hash of the block.
        block_hash: BlockHash,
        /// What the request failed with.
        error: String,
    },
    /// The Serai node failed to answer with a block's events.
    EventsRpc {
        /// The hash of the block.
        block_hash: BlockHash,
        /// What the request failed with.
        error: String,
    },
    /// The Serai node doesn't have a block which was cosigned.
    MissingBlock {
        /// The number of the block.
        block_number: u64,
    },
    /// A block had multiple batches for one network.
    MultipleBatches,
    /// A batch's ID doesn't follow the one of the network's last batch.
    BatchIdNotIncrement,
    /// A set was decided to have more validators than a `u16` counts.
    TooManyValidators,
    /// A set was decided to have more key shares than a set may have.
    TooManyKeyShares {
        /// The set decided.
        set: ExternalValidatorSet,
        /// The key shares it has.
        key_shares: u32,
    },
    /// A validator was selected without having auxiliary keys.
    MissingAuxiliaryKeys,
}

/// The name of an external network.
pub open spec fn network_name(network: ExternalNetworkId) -> Seq<char> {
    match network {
        ExternalNetworkId::Bitcoin => "Bitcoin"@,
        ExternalNetworkId::Ethereum => "Ethereum"@,
        ExternalNetworkId::Monero => "Monero"@,
    }
}

/// A validator set, with the names of its fields.
pub open spec fn set_text(set: ExternalValidatorSet) -> Seq<char> {
    "ExternalValidatorSet { network: "@ + network_name(set.network) + ", session: Session("@
        + decimal(set.session.0 as nat) + ") }"@
}

impl StreamError {
    /// Whether this breaks what the streams are built on, so that the process must be halted.
    /// Anything else is returned by the task, which is to be run again.
    pub open spec fn spec_halts(&self) -> bool {
        match self {
            StreamError::NotCosigned { .. } => true,
            StreamError::NotIndexed { .. } => true,
            StreamError::MissingBlock { .. } => true,
            StreamError::BatchIdNotIncrement => true,
            StreamError::MissingAuxiliaryKeys => true,
            _ => false,
        }
    }

    /// Whether this breaks what the streams are built on, so that the process must be halted.
    /// Anything else is returned by the task, which is to be run again.
    #[verifier::when_used_as_spec(spec_halts)]
    pub fn halts(&self) -> (halts: bool)
        ensures
            halts == self.spec_halts(),
    {
        match self {
            StreamError::NotCosigned { .. } => true,
            StreamError::NotIndexed { .. } => true,
            StreamError::MissingBlock { .. } => true,
            StreamError::BatchIdNotIncrement => true,
            StreamError::MissingAuxiliaryKeys => true,
            _ => false,
        }
    }

    /// The text of the description.
    pub open spec fn text(&self) -> Seq<char> {
        match self {
            StreamError::LatestCosignedBlockNumber => {
                "Error getting latest cosigned block number: Faulted"@
            },
            StreamError::CosigningFaulted => "cosigning process faulted"@,
            StreamError::NotCosigned { block_number } => {
                "iterating to latest cosigned block but couldn't get cosigned block number "@
                    + decimal(*block_number as nat)
            },
            StreamError::NotIndexed { block_number } => {
                "cosigned block "@ + decimal(*block_number as nat) + " but didn't index it"@
            },
            StreamError::BlockRpc { block_hash, error } => {
                "RPC error fetching block #"@ + hex(block_hash.0@) + ": "@ + error@
            },
            StreamError::EventsRpc { block_hash, error } => {
                "RPC error fetching block events #"@ + hex(block_hash.0@) + ": "@ + error@
            },
            StreamError::MissingBlock { block_number } => {
                "Serai node didn't have block #"@ + decimal(*block_number as nat)
                    + " which should've been finalized and cosigned"@
            },
            StreamError::MultipleBatches => {
                "Serai block had multiple batches for the same network"@
            },
            StreamError::BatchIdNotIncrement => {
                "next batch from Serai's ID was not an increment of the last indexed batch's ID"@
            },
            StreamError::TooManyValidators => "more than u16::MAX validators sent"@,
            StreamError::TooManyKeyShares { set, key_shares } => {
                set_text(*set) + " has "@ + decimal(*key_shares as nat)
                    + " key shares when the max is "@ + decimal(MAX_KEY_SHARES_PER_SET as nat)
            },
            StreamError::MissingAuxiliaryKeys => "selected validator lacked auxiliary keys"@,
        }
    }

    /// A description of this error.
    pub fn message(&self) -> (message: String)
        ensures
            message@ == self.text(),
    {
        match self {
            StreamError::LatestCosignedBlockNumber => {
                "Error getting latest cosigned block number: Faulted".to_owned()
            },
            StreamError::CosigningFaulted => "cosigning process faulted".to_owned(),
            StreamError::NotCosigned { block_number } => {
                let mut message =
                    "iterating to latest cosigned block but couldn't get cosigned block number ".to_owned();
                push_decimal(&mut message, *block_number);
                message
            },
            StreamError::NotIndexed { block_number } => {
                let mut message = "cosigned block ".to_owned();
                push_decimal(&mut message, *block_number);
                message.append(" but didn't index it");
                message
            },
            StreamError::BlockRpc { block_hash, error } => {
                let mut message = "RPC error fetching block #".to_owned();
                push_hex(&mut message, block_hash.0.as_slice());
                message.append(": ");
                message.append(error.as_str());
                message
            },
            StreamError::EventsRpc { block_hash, error } => {
                let mut message = "RPC error fetching block events #".to_owned();
                push_hex(&mut message, block_hash.0.as_slice());
                message.append(": ");
                message.append(error.as_str());
                message
            },
            StreamError::MissingBlock { block_number } => {
                let mut message = "Serai node didn't have block #".to_owned();
                push_decimal(&mut message, *block_number);
                message.append(" which should've been finalized and cosigned");
                message
            },
            StreamError::MultipleBatches => {
                "Serai block had multiple batches for the same network".to_owned()
            },
            StreamError::BatchIdNotIncrement => {
                "next batch from Serai's ID was not an increment of the last indexed batch's ID".to_owned()
            },
            StreamError::TooManyValidators => "more than u16::MAX validators sent".to_owned(),
            StreamError::TooManyKeyShares { set, key_shares } => {
                let mut message = "ExternalValidatorSet { network: ".to_owned();
                message.append(
                    match set.network {
                        ExternalNetworkId::Bitcoin => "Bitcoin",
                        ExternalNetworkId::Ethereum => "Ethereum",
                        ExternalNetworkId::Monero => "Monero",
                    },
                );
                message.append(", session: Session(");
                push_decimal(&mut message, set.session.0 as u64);
                message.append(") }");
                message.append(" has ");
                push_decimal(&mut message, *key_shares as u64);
                message.append(" key shares when the max is ");
                push_decimal(&mut message, MAX_KEY_SHARES_PER_SET as u64);
                message
            },
            StreamError::MissingAuxiliaryKeys => {
                "selected validator lacked auxiliary keys".to_owned()
            },
        }
    }
}

} // verus!
