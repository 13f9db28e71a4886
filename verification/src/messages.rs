//! The messages for the processors of external networks.
use crate::events::{Batch, OutInstructionWithBalance};
use crate::primitives::{KeyPair, Session};
use vstd::prelude::*;

verus! {

/// What became of an instruction of a batch.
#[derive(Clone, Copy, PartialEq, Eq, Structural, Debug)]
pub enum InInstructionResult {
    /// It was executed.
    Succeeded,
    /// It failed.
    Failed,
}

/// A batch which was executed.
#[derive(PartialEq, Eq, Debug)]
pub struct ExecutedBatch {
    /// The ID of the batch.
    pub id: u32,
    /// The session which published the batch.
    pub publisher: Session,
    /// The hash of the external network's block which caused the batch.
    pub external_network_block_hash: [u8; 32],
    /// The hash of the batch's instructions.
    pub in_instructions_hash: [u8; 32],
    /// What became of each of the batch's instructions.
    pub in_instruction_results: Vec<InInstructionResult>,
}

/// The content of an [`ExecutedBatch`].
pub struct ExecutedBatchModel {
    pub id: u32,
    pub publisher: Session,
    pub external_network_block_hash: [u8; 32],
    pub in_instructions_hash: [u8; 32],
    pub in_instruction_results: Seq<InInstructionResult>,
}

impl View for ExecutedBatch {
    type V = ExecutedBatchModel;

    open spec fn view(&self) -> ExecutedBatchModel {
        ExecutedBatchModel {
            id: self.id,
            publisher: self.publisher,
            external_network_block_hash: self.external_network_block_hash,
            in_instructions_hash: self.in_instructions_hash,
            in_instruction_results: self.in_instruction_results@,
        }
    }
}

/// What became of an instruction whose bit in the results is `bit`.
pub open spec fn result_of(bit: bool) -> InInstructionResult {
    if bit {
        InInstructionResult::Succeeded
    } else {
        InInstructionResult::Failed
    }
}

/// A batch event, as the batch executed.
pub open spec fn executed(batch: Batch) -> ExecutedBatchModel {
    ExecutedBatchModel {
        id: batch.id,
        publisher: batch.publishing_session,
        external_network_block_hash: batch.external_network_block_hash.0,
        in_instructions_hash: batch.in_instructions_hash,
        in_instruction_results: batch.in_instruction_results@.map_values(
            |bit: bool| result_of(bit),
        ),
    }
}

impl ExecutedBatch {
    /// The batch which a batch event is of.
    pub fn from_event(batch: &Batch) -> (executed_batch: Self)
        ensures
            executed_batch@ == executed(*batch),
    {
        let mut results: Vec<InInstructionResult> = Vec::with_capacity(
            batch.in_instruction_results.len(),
        );
        let mut i: usize = 0;
        while i < batch.in_instruction_results.len()
            invariant
                i <= batch.in_instruction_results.len(),
                results@.len() == i,
                forall|j: int|
                    0 <= j < i ==> #[trigger] results@[j] == result_of(
                        batch.in_instruction_results@[j],
                    ),
            decreases batch.in_instruction_results.len() - i,
        {
            results.push(
                if batch.in_instruction_results[i] {
                    InInstructionResult::Succeeded
                } else {
                    InInstructionResult::Failed
                },
            );
            i += 1;
        }
        assert(results@ =~= executed(*batch).in_instruction_results);
        ExecutedBatch {
            id: batch.id,
            publisher: batch.publishing_session,
            external_network_block_hash: batch.external_network_block_hash.0,
            in_instructions_hash: batch.in_instructions_hash,
            in_instruction_results: results,
        }
    }
}

/// A message for the processor of an external network.
#[derive(PartialEq, Eq, Debug)]
pub enum CoordinatorMessage {
    /// Keys were set.
    SetKeys {
        /// The time of the Serai block, in seconds.
        serai_time: u64,
        /// The session whose keys were set.
        session: Session,
        /// The keys set.
        key_pair: KeyPair,
    },
    /// The slashes of a session were reported.
    SlashesReported {
        /// The session.
        session: Session,
    },
    /// What a Serai block has for the network.
    Block {
        /// The number of the Serai block.
        serai_block_number: u64,
        /// The batch executed, if one was.
        batch: Option<ExecutedBatch>,
        /// The burns with an instruction for the network.
        burns: Vec<OutInstructionWithBalance>,
    },
}

/// The content of a [`CoordinatorMessage`].
pub enum MessageModel {
    SetKeys { serai_time: u64, session: Session, key_pair: KeyPair },
    SlashesReported { session: Session },
    Block {
        serai_block_number: u64,
        batch: Option<ExecutedBatchModel>,
        burns: Seq<OutInstructionWithBalance>,
    },
}

impl View for CoordinatorMessage {
    type V = MessageModel;

    open spec fn view(&self) -> MessageModel {
        match self {
            CoordinatorMessage::SetKeys { serai_time, session, key_pair } => {
                MessageModel::SetKeys {
                    serai_time: *serai_time,
                    session: *session,
                    key_pair: *key_pair,
                }
            },
            CoordinatorMessage::SlashesReported { session } => {
                MessageModel::SlashesReported { session: *session }
            },
            CoordinatorMessage::Block { serai_block_number, batch, burns } => {
                MessageModel::Block {
                    serai_block_number: *serai_block_number,
                    batch: match batch {
                        Some(b) => Some(b@),
                        None => None,
                    },
                    burns: burns@,
                }
            },
        }
    }
}

} // verus!
