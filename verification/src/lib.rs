//! The coordinator's streams of the events of Serai blocks.
//!
//! Each block which was cosigned is indexed once, in order. The canonical event stream tells the
//! processors of external networks of the keys which were set, the slashes which were reported, the
//! batches which were executed, and the burns which are to be fulfilled. The ephemeral event stream
//! announces the validator sets this coordinator is in, and which sets are to sign a slash report.
//!
//! What a block means is decided here. Requests to the Serai node are left to the caller, who hands
//! over what the node answered with.
pub mod auxiliary_keys;
pub mod bytes;
pub mod canonical;
pub mod canonical_laws;
pub mod canonical_stream;
pub mod cosign;
pub mod cosign_types;
pub mod db;
pub mod ephemeral;
pub mod ephemeral_laws;
pub mod ephemeral_stream;
pub mod errors;
pub mod events;
pub mod keypair;
pub mod laws;
pub mod messages;
pub mod network_id;
pub mod node;
pub mod primitives;
pub mod random;
pub mod seqs;
pub mod task;
pub mod task_test;
pub mod test_helpers;
pub mod text;
pub mod validator_set;
