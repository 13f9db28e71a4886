//! Test helpers for generating random instances of primitive types.
use crate::auxiliary_keys::EmbeddedEllipticCurveKeys;
use crate::ephemeral::NewSetInformation;
use crate::keypair::{is_public_key, Keypair};
use crate::network_id::{ExternalNetworkId, NetworkId};
use crate::primitives::{
    BlockHash, ExternalAddress, ExternalKey, ExternalValidatorSet, Public, SeraiAddress, Session,
    EXTERNAL_ADDRESS_MAX_SIZE, EXTERNAL_KEY_MAX_SIZE,
};
use crate::random::{fill_bytes, next_u32, next_u64};
use crate::validator_set::{weight_of, TributaryValidatorSet};
use rand_core::OsRng;
use vstd::prelude::*;

verus! {

/// Generate a random byte array.
pub fn random_bytes<const N: usize>(rng: &mut OsRng) -> (bytes: [u8; N])
    ensures
        bytes@.len() == N,
{
    let mut bytes: [u8; N] = [0u8; N];
    fill_bytes(rng, &mut bytes);
    bytes
}

/// A bound on a length.
#[derive(Clone, Copy, PartialEq, Eq, Structural, Debug)]
pub enum LengthBound {
    /// The length may be this.
    Included(usize),
    /// The length may be up to this, yet may not be this.
    Excluded(usize),
    /// There is no bound.
    Unbounded,
}

/// The least length allowed by a lower bound.
pub open spec fn least_len(start: LengthBound) -> int {
    match start {
        LengthBound::Included(start) => start as int,
        LengthBound::Excluded(start) => start + 1,
        LengthBound::Unbounded => 0,
    }
}

/// The greatest length allowed by an upper bound.
pub open spec fn greatest_len(end: LengthBound) -> Option<int> {
    match end {
        LengthBound::Included(end) => Some(end as int),
        LengthBound::Excluded(end) => Some(end - 1),
        LengthBound::Unbounded => None,
    }
}

/// Whether bounds allow any length, and only lengths which a vector may have.
pub open spec fn is_length_range(start: LengthBound, end: LengthBound) -> bool {
    greatest_len(end) matches Some(greatest) && least_len(start) <= greatest <= isize::MAX
}

/// Get the length within a range which a random draw decides on.
pub fn length_for_draw(start: LengthBound, end: LengthBound, draw: u64) -> (len: usize)
    requires
        is_length_range(start, end),
    ensures
        len == least_len(start) + draw as int % (greatest_len(end)->Some_0 - least_len(start) + 1),
        least_len(start) <= len <= greatest_len(end)->Some_0,
{
    let inclusive_start: usize = match start {
        LengthBound::Included(start) => start,
        LengthBound::Excluded(start) => start + 1,
        LengthBound::Unbounded => 0,
    };
    let inclusive_end: usize = match end {
        LengthBound::Included(end) => end,
        LengthBound::Excluded(end) => end - 1,
        LengthBound::Unbounded => 0,
    };
    let range_len: usize = inclusive_end - inclusive_start + 1;
    let i: u64 = draw % (range_len as u64);
    inclusive_start + i as usize
}

/// Generate a random byte vector of a length within a range.
pub fn random_vec_u8(rng: &mut OsRng, start: LengthBound, end: LengthBound) -> (bytes: Vec<u8>)
    requires
        is_length_range(start, end),
    ensures
        least_len(start) <= bytes@.len() <= greatest_len(end)->Some_0,
{
    let draw: u64 = next_u64(rng);
    let len: usize = length_for_draw(start, end, draw);
    random_vec_of_len(rng, len)
}

/// Generate a random `Vec<u8>` with a random length between 1 and 128.
pub fn random_short_vec_u8(rng: &mut OsRng) -> (bytes: Vec<u8>)
    ensures
        1 <= bytes@.len() <= 128,
{
    let draw: u32 = next_u32(rng);
    let len: usize = length_for_draw(
        LengthBound::Included(1),
        LengthBound::Included(128),
        draw as u64,
    );
    random_vec_of_len(rng, len)
}

/// Generate a random byte vector of a specific length.
pub fn random_vec_of_len(rng: &mut OsRng, len: usize) -> (bytes: Vec<u8>)
    requires
        len <= isize::MAX,
    ensures
        bytes@.len() == len,
{
    let mut bytes: Vec<u8> = vec![0u8; len];
    fill_bytes(rng, &mut bytes);
    bytes
}

/// Generate a random [`ExternalAddress`].
pub fn random_external_address(rng: &mut OsRng) -> (address: ExternalAddress)
    ensures
        address@.len() < EXTERNAL_ADDRESS_MAX_SIZE,
{
    let draw: u32 = next_u32(rng);
    let len: usize = length_for_draw(
        LengthBound::Included(0),
        LengthBound::Excluded(EXTERNAL_ADDRESS_MAX_SIZE as usize),
        draw as u64,
    );
    let bytes = random_vec_of_len(rng, len);
    ExternalAddress::new(bytes).unwrap()
}

/// Generate a random [`SeraiAddress`].
pub fn random_serai_address(rng: &mut OsRng) -> (address: SeraiAddress)
    ensures
        address.0@.len() == 32,
{
    SeraiAddress(random_bytes(rng))
}

/// Generate a random [`Public`].
pub fn random_public(rng: &mut OsRng) -> (public: Public)
    ensures
        public.0@.len() == 32,
{
    Public(random_bytes(rng))
}

/// Generate a random keypair and its [`Public`] wrapper.
pub fn random_keypair(rng: &mut OsRng) -> (keys: (Keypair, Public))
    ensures
        keys.1 == keys.0.public(),
        is_public_key(keys.1.0@),
{
    let keypair = Keypair::generate(rng);
    let public = keypair.public();
    (keypair, public)
}

/// Generate a random [`ExternalKey`].
pub fn random_external_key(rng: &mut OsRng) -> (key: ExternalKey)
    ensures
        key@.len() < EXTERNAL_KEY_MAX_SIZE,
{
    let draw: u32 = next_u32(rng);
    let len: usize = length_for_draw(
        LengthBound::Included(0),
        LengthBound::Excluded(EXTERNAL_KEY_MAX_SIZE as usize),
        draw as u64,
    );
    let bytes = random_vec_of_len(rng, len);
    ExternalKey::new(bytes).unwrap()
}

/// Generate a random [`BlockHash`].
pub fn random_block_hash(rng: &mut OsRng) -> (hash: BlockHash)
    ensures
        hash.0@.len() == 32,
{
    BlockHash(random_bytes(rng))
}

/// The external network which a random draw decides on.
pub open spec fn spec_network_for_draw(draw: u64) -> ExternalNetworkId {
    if draw % 3 == 0 {
        ExternalNetworkId::Bitcoin
    } else if draw % 3 == 1 {
        ExternalNetworkId::Ethereum
    } else {
        ExternalNetworkId::Monero
    }
}

/// Get the external network which a random draw decides on.
#[verifier::when_used_as_spec(spec_network_for_draw)]
pub fn network_for_draw(draw: u64) -> (network: ExternalNetworkId)
    ensures
        network == spec_network_for_draw(draw),
{
    let all = ExternalNetworkId::all();
    all[(draw % (all.len() as u64)) as usize]
}

/// Generate a random [`ExternalNetworkId`], which may be any.
pub fn random_external_network_id(rng: &mut OsRng) -> (network: ExternalNetworkId) {
    let draw: u64 = next_u64(rng);
    network_for_draw(draw)
}

/// Get the [`ExternalValidatorSet`] which random draws decide on.
pub fn validator_set_for_draws(network_draw: u64, session_draw: u32) -> (set: ExternalValidatorSet)
    ensures
        set.network == network_for_draw(network_draw),
        set.session == Session(session_draw),
{
    ExternalValidatorSet {
        network: network_for_draw(network_draw),
        session: Session(session_draw),
    }
}

/// Generate a random [`ExternalValidatorSet`], which may be any.
pub fn random_validator_set(rng: &mut OsRng) -> (set: ExternalValidatorSet) {
    let network_draw: u64 = next_u64(rng);
    let session_draw: u32 = next_u32(rng);
    validator_set_for_draws(network_draw, session_draw)
}

/// Generate a random global session ID (`[u8; 32]`).
pub fn random_global_session(rng: &mut OsRng) -> (session: [u8; 32])
    ensures
        session@.len() == 32,
{
    random_bytes(rng)
}

/// Generate a random genesis
pub fn random_genesis(rng: &mut OsRng) -> (genesis: [u8; 32])
    ensures
        genesis@.len() == 32,
{
    random_bytes(rng)
}

/// Generate a random block number, which may be any.
pub fn random_block_number(rng: &mut OsRng) -> (block_number: u64) {
    next_u64(rng)
}

/// A default [`ExternalValidatorSet`] for tests where the set value doesn't matter.
pub fn default_test_validator_set() -> (set: ExternalValidatorSet)
    ensures
        set.network == ExternalNetworkId::Bitcoin,
        set.session == Session(0),
{
    ExternalValidatorSet { network: ExternalNetworkId::Bitcoin, session: Session(0) }
}

/// Generate a random Ristretto public key, by its encoding.
pub fn random_ristretto_public_key(rng: &mut OsRng) -> (key: [u8; 32])
    ensures
        is_public_key(key@),
{
    Keypair::generate(rng).public().0
}

/// Generate a random auxiliary public key for Serai, by its encoding.
pub fn random_serai_auxiliary_pubkey(rng: &mut OsRng) -> (key: [u8; 32])
    ensures
        is_public_key(key@),
{
    Keypair::generate(rng).public().0
}

/// Generate a random [`EmbeddedEllipticCurveKeys`] for `NetworkId::Serai`.
pub fn random_serai_embedded_elliptic_curve_keys(rng: &mut OsRng) -> (keys:
    EmbeddedEllipticCurveKeys)
    ensures
        keys matches EmbeddedEllipticCurveKeys::Serai(key) && is_public_key(key@),
{
    EmbeddedEllipticCurveKeys::Serai(random_serai_auxiliary_pubkey(rng))
}

/// Get the [`EmbeddedEllipticCurveKeys`] for the given network, of points which were randomly
/// generated, on Embedwards25519 and secq256k1, by their encodings.
pub fn random_embedded_elliptic_curve_keys(
    embedwards_point: [u8; 32],
    secq_point: [u8; 33],
    network: ExternalNetworkId,
) -> (keys: EmbeddedEllipticCurveKeys)
    ensures
        keys.network() == NetworkId::External(network),
        keys.substrate_key() == embedwards_point,
        keys.network_key_bytes() == match network {
            ExternalNetworkId::Monero => embedwards_point@,
            _ => secq_point@,
        },
{
    match network {
        ExternalNetworkId::Bitcoin => {
            EmbeddedEllipticCurveKeys::Bitcoin(embedwards_point, secq_point)
        },
        ExternalNetworkId::Ethereum => {
            EmbeddedEllipticCurveKeys::Ethereum(embedwards_point, secq_point)
        },
        ExternalNetworkId::Monero => EmbeddedEllipticCurveKeys::Monero(embedwards_point),
    }
}

/// A [`NewSetInformation`] for tests, of what was randomly drawn.
pub fn test_set_info_for_draws(
    set: ExternalValidatorSet,
    serai_block: [u8; 32],
    declaration_time: u64,
    validators: TributaryValidatorSet,
) -> (new_set: NewSetInformation)
    requires
        weight_of(validators.validator_models()) <= u16::MAX,
    ensures
        new_set.set == set,
        new_set.serai_block == serai_block,
        new_set.declaration_time == declaration_time,
        new_set.tributary_validators.validators == validators.validators,
        new_set.tributary_validators.in_sync(),
{
    let mut tributary_validators = validators;
    tributary_validators.init_participant_indexes();
    NewSetInformation { set, serai_block, declaration_time, tributary_validators }
}

/// A random [`NewSetInformation`] for tests. The set, the block and the time may be any.
pub fn random_test_set_info(rng: &mut OsRng, validators: TributaryValidatorSet) -> (new_set:
    NewSetInformation)
    requires
        weight_of(validators.validator_models()) <= u16::MAX,
    ensures
        new_set.tributary_validators.validators == validators.validators,
        new_set.tributary_validators.in_sync(),
{
    let set = random_validator_set(rng);
    let serai_block: [u8; 32] = random_bytes(rng);
    let declaration_time: u64 = next_u64(rng);
    test_set_info_for_draws(set, serai_block, declaration_time, validators)
}

/// A default [`NewSetInformation`] for tests. The block and the time may be any.
pub fn new_test_set_info(rng: &mut OsRng, validators: TributaryValidatorSet) -> (new_set:
    NewSetInformation)
    requires
        weight_of(validators.validator_models()) <= u16::MAX,
    ensures
        new_set.set.network == ExternalNetworkId::Bitcoin,
        new_set.set.session == Session(0),
        new_set.tributary_validators.validators == validators.validators,
        new_set.tributary_validators.in_sync(),
{
    let serai_block: [u8; 32] = random_bytes(rng);
    let declaration_time: u64 = next_u64(rng);
    test_set_info_for_draws(
        default_test_validator_set(),
        serai_block,
        declaration_time,
        validators,
    )
}

} // verus!
