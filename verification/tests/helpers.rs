//! Random instances, signatures, and the smaller parts.
use rand_core::OsRng;

use coordinator_substrate::auxiliary_keys::{AuxiliaryKeys, EmbeddedEllipticCurveKeys};
use coordinator_substrate::canonical::{CanonicalDb, CanonicalEvents};
use coordinator_substrate::cosign::{
    del_latest_cosigned_block_number, del_substrate_block_hash, set_faulted_session,
    set_latest_cosigned_block_number, set_substrate_block_hash, CosignedBlockError, Cosigning,
    Faulted,
};
use coordinator_substrate::cosign_types::{
    cosign_for_draws, cosign_intent_for_draw, random_cosign, random_cosign_intent, sign_cosign,
};
use coordinator_substrate::errors::StreamError;
use coordinator_substrate::events::{
    Batch, BurnWithInstruction, Event, ExternalBalance, OutInstructionWithBalance, ReportedSlashes,
    SetEmbeddedEllipticCurveKeys, SetKeys,
};
use coordinator_substrate::ephemeral::{EphemeralDb, EphemeralEvents};
use coordinator_substrate::events::{AcceptedHandover, SetDecided};
use coordinator_substrate::keypair::verify_signature;
use coordinator_substrate::messages::CoordinatorMessage;
use coordinator_substrate::network_id::{ExternalCoin, ExternalNetworkId, NetworkId};
use coordinator_substrate::node::SeraiBlock;
use coordinator_substrate::primitives::{
    BlockHash, ExternalAddress, ExternalKey, ExternalValidatorSet, KeyPair, KeyShares, Public,
    SeraiAddress, Session, ValidatorSet, EXTERNAL_ADDRESS_MAX_SIZE, EXTERNAL_KEY_MAX_SIZE,
};
use coordinator_substrate::task::{RangeProgress, RangeStep};
use coordinator_substrate::task_test::formatted_contains;
use coordinator_substrate::test_helpers::{
    default_test_validator_set, length_for_draw, network_for_draw, new_test_set_info,
    random_block_hash, random_block_number, random_bytes, random_embedded_elliptic_curve_keys,
    random_external_address, random_external_key, random_external_network_id, random_genesis,
    random_global_session, random_keypair, random_public, random_ristretto_public_key,
    random_serai_address, random_serai_auxiliary_pubkey,
    random_serai_embedded_elliptic_curve_keys, random_short_vec_u8, random_test_set_info,
    random_validator_set, random_vec_of_len, random_vec_u8, test_set_info_for_draws,
    validator_set_for_draws, LengthBound,
};
use coordinator_substrate::validator_set::{TributaryValidator, TributaryValidatorSet};

#[test]
fn random_vec_u8_handles_ranges_correctly() {
    for _ in 0..128 {
        for (start, end) in [
            (LengthBound::Included(0), LengthBound::Included(0)),
            (LengthBound::Included(0), LengthBound::Excluded(1)),
            (LengthBound::Unbounded, LengthBound::Included(0)),
            (LengthBound::Unbounded, LengthBound::Excluded(1)),
        ] {
            assert_eq!(random_vec_u8(&mut OsRng, start, end).len(), 0);
        }
    }
}

#[test]
fn random_external_address_is_in_range() {
    for _ in 0..(128 * EXTERNAL_ADDRESS_MAX_SIZE) {
        let address = random_external_address(&mut OsRng);
        assert!(address.as_slice().len() < usize::try_from(EXTERNAL_ADDRESS_MAX_SIZE).unwrap());
    }
}

#[test]
fn random_external_key_is_in_range() {
    for _ in 0..(128 * EXTERNAL_KEY_MAX_SIZE) {
        let key = random_external_key(&mut OsRng);
        assert!(key.as_slice().len() < usize::try_from(EXTERNAL_KEY_MAX_SIZE).unwrap());
    }
}

#[test]
fn lengths_are_drawn_from_the_range() {
    let start = LengthBound::Included(2);
    let end = LengthBound::Included(5);
    let lengths: Vec<usize> = (0..6).map(|draw| length_for_draw(start, end, draw)).collect();
    assert_eq!(lengths, vec![2, 3, 4, 5, 2, 3]);
    assert_eq!(length_for_draw(LengthBound::Excluded(2), LengthBound::Excluded(5), 1), 4);
    assert_eq!(length_for_draw(LengthBound::Excluded(2), LengthBound::Excluded(5), 2), 3);
    assert_eq!(length_for_draw(LengthBound::Unbounded, LengthBound::Included(9), u64::MAX), 5);

    let mut seen = [false; 3];
    for _ in 0..1024 {
        let len = random_vec_u8(
            &mut OsRng,
            LengthBound::Excluded(6),
            LengthBound::Excluded(10),
        )
        .len();
        seen[len - 7] = true;
    }
    assert_eq!(seen, [true; 3]);
}

#[test]
fn short_vectors_have_one_through_128_bytes() {
    let mut lengths = vec![];
    for _ in 0..1024 {
        let len = random_short_vec_u8(&mut OsRng).len();
        assert!((1..=128).contains(&len));
        lengths.push(len);
    }
    lengths.sort();
    lengths.dedup();
    assert!(lengths.len() > 1);
}

#[test]
fn bytes_are_random() {
    assert_ne!(random_bytes::<32>(&mut OsRng), random_bytes::<32>(&mut OsRng));
    assert_ne!(random_bytes::<32>(&mut OsRng), [0; 32]);
    assert_eq!(random_bytes::<0>(&mut OsRng), [0u8; 0]);
    assert_ne!(random_vec_of_len(&mut OsRng, 64), vec![0; 64]);
    assert_eq!(random_vec_of_len(&mut OsRng, 0), Vec::<u8>::new());
    assert_ne!(random_serai_address(&mut OsRng), random_serai_address(&mut OsRng));
    assert_ne!(random_public(&mut OsRng), random_public(&mut OsRng));
    assert_ne!(random_block_hash(&mut OsRng), random_block_hash(&mut OsRng));
    assert_ne!(random_global_session(&mut OsRng), random_global_session(&mut OsRng));
    assert_ne!(random_genesis(&mut OsRng), random_genesis(&mut OsRng));
}

#[test]
fn numbers_are_random() {
    // Four draws of 64, respectively 32, bits aren't all the same
    let numbers: Vec<u64> = (0..4).map(|_| random_block_number(&mut OsRng)).collect();
    assert!(numbers.iter().any(|number| *number != numbers[0]));
    let sessions: Vec<Session> = (0..4).map(|_| random_validator_set(&mut OsRng).session).collect();
    assert!(sessions.iter().any(|session| *session != sessions[0]));
}

#[test]
fn networks_are_drawn_from_all() {
    assert_eq!(network_for_draw(0), ExternalNetworkId::Bitcoin);
    assert_eq!(network_for_draw(1), ExternalNetworkId::Ethereum);
    assert_eq!(network_for_draw(2), ExternalNetworkId::Monero);
    assert_eq!(network_for_draw(3), ExternalNetworkId::Bitcoin);
    for network in ExternalNetworkId::all() {
        assert!((0..1024).any(|_| random_external_network_id(&mut OsRng) == network));
        assert!((0..1024).any(|_| random_validator_set(&mut OsRng).network == network));
    }
}

#[test]
fn default_set() {
    let set = default_test_validator_set();
    assert_eq!(set.network, ExternalNetworkId::Bitcoin);
    assert_eq!(set.session, Session(0));
}

#[test]
fn ristretto_keys_are_points() {
    for _ in 0..16 {
        let mut keys = vec![
            random_ristretto_public_key(&mut OsRng),
            random_serai_auxiliary_pubkey(&mut OsRng),
        ];
        match random_serai_embedded_elliptic_curve_keys(&mut OsRng) {
            EmbeddedEllipticCurveKeys::Serai(key) => keys.push(key),
            _ => panic!("keys weren't for Serai"),
        }
        assert_ne!(keys[0], keys[1]);
        for key in keys {
            schnorrkel::PublicKey::from_bytes(&key).unwrap();
        }
    }
}

#[test]
fn embedded_keys_are_for_their_network() {
    let keys = |network| random_embedded_elliptic_curve_keys([1; 32], [2; 33], network);
    assert_eq!(
        keys(ExternalNetworkId::Bitcoin),
        EmbeddedEllipticCurveKeys::Bitcoin([1; 32], [2; 33])
    );
    assert_eq!(
        keys(ExternalNetworkId::Ethereum),
        EmbeddedEllipticCurveKeys::Ethereum([1; 32], [2; 33])
    );
    assert_eq!(keys(ExternalNetworkId::Monero), EmbeddedEllipticCurveKeys::Monero([1; 32]));
    for network in ExternalNetworkId::all() {
        assert_eq!(keys(network).network(), NetworkId::External(network));
        assert_eq!(keys(network).substrate_key(), [1; 32]);
    }
    assert_eq!(keys(ExternalNetworkId::Ethereum).network_key(), vec![2; 33]);
    assert_eq!(keys(ExternalNetworkId::Monero).network_key(), vec![1; 32]);
}

#[test]
fn cosigns_are_signed_by_the_keypair() {
    let (keypair, public) = random_keypair(&mut OsRng);
    assert_eq!(keypair.public(), public);
    let (_, other) = random_keypair(&mut OsRng);
    assert_ne!(public, other);

    let cosign = random_cosign(&mut OsRng);
    let signed = sign_cosign(cosign, b"context", b"message", &keypair);
    assert_eq!(signed.cosign, cosign);

    let signature = schnorrkel::Signature::from_bytes(&signed.signature).unwrap();
    let verifies = |public: Public, context: &[u8], message: &[u8]| {
        schnorrkel::PublicKey::from_bytes(&public.0)
            .unwrap()
            .verify_simple(context, message, &signature)
            .is_ok()
    };
    for (key, context, message) in [
        (public, &b"context"[..], &b"message"[..]),
        (public, &b"context"[..], &b"another message"[..]),
        (public, &b"another context"[..], &b"message"[..]),
        (other, &b"context"[..], &b"message"[..]),
    ] {
        assert_eq!(
            verify_signature(&key, context, message, &signed.signature),
            verifies(key, context, message)
        );
    }
    // Neither a signature nor a key can be read from these
    assert!(!verify_signature(&public, b"context", b"message", &[0; 64]));
    assert!(!verify_signature(&Public([255; 32]), b"context", b"message", &signed.signature));
    assert!(verifies(public, b"context", b"message"));
    assert!(!verifies(public, b"context", b"another message"));
    assert!(!verifies(public, b"another context", b"message"));
    assert!(!verifies(other, b"context", b"message"));
}

#[test]
fn intents_are_notable_by_an_even_draw() {
    let hash = BlockHash([3; 32]);
    let intent = cosign_intent_for_draw([1; 32], 2, hash, 4);
    assert_eq!(intent.global_session, [1; 32]);
    assert_eq!(intent.block_number, 2);
    assert_eq!(intent.block_hash, hash);
    assert!(intent.notable);
    assert!(!cosign_intent_for_draw([1; 32], 2, hash, 5).notable);
    assert!((0..128).any(|_| random_cosign_intent(&mut OsRng).notable));
    assert!((0..128).any(|_| !random_cosign_intent(&mut OsRng).notable));
}

#[test]
fn cosigns_are_of_what_was_drawn() {
    let cosign = cosign_for_draws([1; 32], 2, BlockHash([3; 32]), 4);
    assert_eq!(cosign.global_session, [1; 32]);
    assert_eq!(cosign.block_number, 2);
    assert_eq!(cosign.block_hash, BlockHash([3; 32]));
    assert_eq!(cosign.cosigner, ExternalNetworkId::Ethereum);
    for network in ExternalNetworkId::all() {
        assert!((0..1024).any(|_| random_cosign(&mut OsRng).cosigner == network));
    }
    assert_ne!(random_cosign(&mut OsRng), random_cosign(&mut OsRng));
}

#[test]
fn sets_are_of_what_was_drawn() {
    let set = validator_set_for_draws(5, 6);
    assert_eq!(set.network, ExternalNetworkId::Monero);
    assert_eq!(set.session, Session(6));

    let mut validators = TributaryValidatorSet::new();
    validators.validators.push(TributaryValidator::new([1; 32], vec![2], 3));
    let info = test_set_info_for_draws(set, [7; 32], 8, validators.clone());
    assert_eq!(info.set, set);
    assert_eq!(info.serai_block, [7; 32]);
    assert_eq!(info.declaration_time, 8);
    assert_eq!(info.tributary_validators.validators, validators.validators);
    assert_eq!(info.tributary_validators.participant_indexes_reverse_lookup.len(), 3);
}

#[test]
fn set_infos_have_their_indexes_initialized() {
    let validators = || {
        let mut set = TributaryValidatorSet::new();
        set.validators.push(TributaryValidator::new([1; 32], vec![2], 3));
        set
    };
    let info = new_test_set_info(&mut OsRng, validators());
    assert_eq!(info.set, default_test_validator_set());
    assert_eq!(info.tributary_validators.validators, validators().validators);
    assert_eq!(info.tributary_validators.participant_indexes_reverse_lookup.len(), 3);
    assert_ne!(info.serai_block, [0; 32]);

    let info = random_test_set_info(&mut OsRng, validators());
    assert_eq!(info.tributary_validators.validators, validators().validators);
    assert_eq!(info.tributary_validators.participant_indexes_reverse_lookup.len(), 3);
    assert_ne!(info.serai_block, random_test_set_info(&mut OsRng, validators()).serai_block);
}

#[test]
fn errors_are_formatted_for_debugging() {
    assert!(formatted_contains("an error", "\"an error\""));
    assert!(formatted_contains("an error", "err"));
    assert!(formatted_contains("an error", ""));
    assert!(formatted_contains("a \"b\"", "a \\\"b\\\""));
    assert!(!formatted_contains("a \"b\"", "a \"b\""));
    assert!(!formatted_contains("an error", "another error"));
}

#[test]
fn addresses_and_keys_are_bounded() {
    let max = usize::try_from(EXTERNAL_ADDRESS_MAX_SIZE).unwrap();
    assert_eq!(ExternalAddress::new(vec![1; max]).unwrap().as_slice(), &vec![1; max][..]);
    assert!(ExternalAddress::new(vec![1; max + 1]).is_none());
    let max = usize::try_from(EXTERNAL_KEY_MAX_SIZE).unwrap();
    assert_eq!(ExternalKey::new(vec![1; max]).unwrap().as_slice(), &vec![1; max][..]);
    assert!(ExternalKey::new(vec![1; max + 1]).is_none());
}

#[test]
fn messages_of_errors() {
    let set = ExternalValidatorSet { network: ExternalNetworkId::Monero, session: Session(12) };
    let hash = "0".repeat(62) + "ab";
    let mut block_hash = BlockHash([0; 32]);
    block_hash.0[31] = 0xab;
    let error = "connection refused".to_string();
    let cases = vec![
        (
            StreamError::LatestCosignedBlockNumber,
            "Error getting latest cosigned block number: Faulted".to_string(),
            false,
        ),
        (StreamError::CosigningFaulted, "cosigning process faulted".to_string(), false),
        (
            StreamError::NotCosigned { block_number: 10 },
            "iterating to latest cosigned block but couldn't get cosigned block number 10"
                .to_string(),
            true,
        ),
        (
            StreamError::NotIndexed { block_number: 1 },
            "cosigned block 1 but didn't index it".to_string(),
            true,
        ),
        (
            StreamError::BlockRpc { block_hash, error: error.clone() },
            format!("RPC error fetching block #{hash}: {error}"),
            false,
        ),
        (
            StreamError::EventsRpc { block_hash, error: error.clone() },
            format!("RPC error fetching block events #{hash}: {error}"),
            false,
        ),
        (
            StreamError::MissingBlock { block_number: u64::MAX },
            "Serai node didn't have block #18446744073709551615 which should've been finalized and \
             cosigned"
                .to_string(),
            true,
        ),
        (
            StreamError::MultipleBatches,
            "Serai block had multiple batches for the same network".to_string(),
            false,
        ),
        (
            StreamError::BatchIdNotIncrement,
            "next batch from Serai's ID was not an increment of the last indexed batch's ID"
                .to_string(),
            true,
        ),
        (
            StreamError::TooManyValidators,
            "more than u16::MAX validators sent".to_string(),
            false,
        ),
        (
            StreamError::TooManyKeyShares { set, key_shares: 128 },
            "ExternalValidatorSet { network: Monero, session: Session(12) } has 128 key shares \
             when the max is 127"
                .to_string(),
            false,
        ),
        (
            StreamError::MissingAuxiliaryKeys,
            "selected validator lacked auxiliary keys".to_string(),
            true,
        ),
    ];
    for (error, message, halts) in cases {
        assert_eq!(error.message(), message);
        assert_eq!(error.halts(), halts);
    }
}

#[test]
fn cosigned_blocks() {
    let mut cosigning = Cosigning::new();
    assert_eq!(cosigning.latest_cosigned_block_number(), Ok(None));
    assert_eq!(cosigning.cosigned_block(0), Ok(None));

    let hash = BlockHash([9; 32]);
    set_substrate_block_hash(&mut cosigning, 3, &hash);
    assert_eq!(cosigning.cosigned_block(3), Ok(None));
    set_latest_cosigned_block_number(&mut cosigning, 3);
    assert_eq!(cosigning.latest_cosigned_block_number(), Ok(Some(3)));
    assert_eq!(cosigning.cosigned_block(3), Ok(Some(hash)));
    assert_eq!(cosigning.cosigned_block(4), Ok(None));
    assert_eq!(cosigning.cosigned_block(2), Err(CosignedBlockError::NotIndexed));

    del_substrate_block_hash(&mut cosigning, 3);
    assert_eq!(cosigning.cosigned_block(3), Err(CosignedBlockError::NotIndexed));
    del_latest_cosigned_block_number(&mut cosigning);
    assert_eq!(cosigning.latest_cosigned_block_number(), Ok(None));

    set_faulted_session(&mut cosigning, [1; 32]);
    assert_eq!(cosigning.latest_cosigned_block_number(), Err(Faulted));
    assert_eq!(cosigning.cosigned_block(3), Err(CosignedBlockError::Faulted));
}

#[test]
fn last_declared_keys_are_found() {
    let address = SeraiAddress([1; 32]);
    let bitcoin = NetworkId::External(ExternalNetworkId::Bitcoin);
    let mut keys = AuxiliaryKeys::new();
    assert_eq!(keys.get(bitcoin, &address), None);
    let first = EmbeddedEllipticCurveKeys::Bitcoin([2; 32], [3; 33]);
    let second = EmbeddedEllipticCurveKeys::Bitcoin([4; 32], [5; 33]);
    keys.set(address, first);
    keys.set(address, EmbeddedEllipticCurveKeys::Serai([6; 32]));
    assert_eq!(keys.get(bitcoin, &address), Some(first));
    keys.set(address, second);
    assert_eq!(keys.get(bitcoin, &address), Some(second));
    assert_eq!(
        keys.get(NetworkId::Serai, &address),
        Some(EmbeddedEllipticCurveKeys::Serai([6; 32]))
    );
    assert_eq!(keys.get(bitcoin, &SeraiAddress([2; 32])), None);
}

#[test]
fn time_is_in_seconds() {
    assert_eq!(SeraiBlock { unix_time_in_millis: 1999 }.time(), 1);
    assert_eq!(SeraiBlock { unix_time_in_millis: 999 }.time(), 0);
}

fn batch(network: ExternalNetworkId, id: u32) -> Batch {
    Batch {
        network,
        publishing_session: Session(1),
        id,
        external_network_block_hash: BlockHash([2; 32]),
        in_instructions_hash: [3; 32],
        in_instruction_results: vec![true, false],
    }
}

fn burn(coin: ExternalCoin, amount: u64) -> BurnWithInstruction {
    BurnWithInstruction {
        from: SeraiAddress([4; 32]),
        instruction: OutInstructionWithBalance {
            address: ExternalAddress::new(vec![5]).unwrap(),
            balance: ExternalBalance { coin, amount },
        },
    }
}

fn no_events() -> CanonicalEvents {
    CanonicalEvents {
        time: 7,
        set_keys_events: vec![],
        slash_report_events: vec![],
        batch_events: vec![],
        burn_events: vec![],
    }
}

#[test]
fn messages_are_sent_in_order() {
    let set = |network| ExternalValidatorSet { network, session: Session(8) };
    let key_pair = || KeyPair(Public([9; 32]), ExternalKey::new(vec![10]).unwrap());
    let monero = ExternalNetworkId::Monero;
    let events = CanonicalEvents::of_block(
        SeraiBlock { unix_time_in_millis: 7999 },
        vec![
            vec![
                Event::BurnWithInstruction(burn(ExternalCoin::Monero, 1)),
                Event::Other,
                Event::Batch(batch(monero, 0)),
                Event::Slashes(ReportedSlashes::ExternalValidatorSet(set(monero))),
            ],
            vec![],
            vec![
                Event::Slashes(ReportedSlashes::SeraiValidator(SeraiAddress([0; 32]))),
                Event::SetKeys(SetKeys { set: set(monero), key_pair: key_pair() }),
                Event::BurnWithInstruction(burn(ExternalCoin::Bitcoin, 2)),
                Event::BurnWithInstruction(burn(ExternalCoin::Monero, 3)),
            ],
        ],
    );
    assert_eq!(events.time, 7);
    let mut db = CanonicalDb::new();
    db.index(20, events).unwrap();
    assert_eq!(db.scan_from, Some(21));

    let messages = db.messages.get(monero);
    assert_eq!(messages.len(), 3);
    assert_eq!(
        messages[0],
        CoordinatorMessage::SetKeys {
            serai_time: 7,
            session: Session(8),
            key_pair: key_pair()
        }
    );
    assert_eq!(messages[1], CoordinatorMessage::SlashesReported { session: Session(8) });
    let CoordinatorMessage::Block { serai_block_number, batch, burns } = &messages[2] else {
        panic!("last message wasn't for the block");
    };
    assert_eq!(*serai_block_number, 20);
    assert_eq!(batch.as_ref().unwrap().id, 0);
    assert_eq!(burns.iter().map(|b| b.balance.amount).collect::<Vec<_>>(), vec![1, 3]);

    let messages = db.messages.get(ExternalNetworkId::Bitcoin);
    assert_eq!(messages.len(), 1);
    let CoordinatorMessage::Block { batch, burns, .. } = &messages[0] else {
        panic!("message wasn't for the block");
    };
    assert!(batch.is_none());
    assert_eq!(burns.len(), 1);

    assert!(db.messages.get(ExternalNetworkId::Ethereum).is_empty());
}

#[test]
fn burns_keep_their_coin() {
    assert_eq!(ExternalCoin::Bitcoin.network(), ExternalNetworkId::Bitcoin);
    assert_eq!(ExternalCoin::Ether.network(), ExternalNetworkId::Ethereum);
    assert_eq!(ExternalCoin::Dai.network(), ExternalNetworkId::Ethereum);
    assert_eq!(ExternalCoin::Monero.network(), ExternalNetworkId::Monero);

    let burn_events = vec![
        burn(ExternalCoin::Dai, 1),
        burn(ExternalCoin::Monero, 2),
        burn(ExternalCoin::Ether, 1),
    ];
    let mut db = CanonicalDb::new();
    db.index(0, CanonicalEvents { burn_events: burn_events.clone(), ..no_events() }).unwrap();
    let sent = |network| match &db.messages.get(network)[..] {
        [CoordinatorMessage::Block { burns, .. }] => burns,
        _ => panic!("network wasn't sent one message for the block"),
    };
    let ethereum = sent(ExternalNetworkId::Ethereum);
    assert_eq!(ethereum[0], burn_events[0].instruction);
    assert_eq!(ethereum[1], burn_events[2].instruction);
    assert_ne!(ethereum[0], ethereum[1]);
    assert_eq!(sent(ExternalNetworkId::Monero)[0], burn_events[1].instruction);
    assert!(db.messages.get(ExternalNetworkId::Bitcoin).is_empty());
}

#[test]
fn interleaving_of_networks_is_irrelevant() {
    let set = |network, session| ExternalValidatorSet { network, session: Session(session) };
    let bitcoin = ExternalNetworkId::Bitcoin;
    let monero = ExternalNetworkId::Monero;
    let keys = |network, session| SetKeys {
        set: set(network, session),
        key_pair: KeyPair(Public([session as u8; 32]), ExternalKey::new(vec![10]).unwrap()),
    };
    let slashes = |network, session| ReportedSlashes::ExternalValidatorSet(set(network, session));
    let first = CanonicalEvents {
        time: 7,
        set_keys_events: vec![keys(bitcoin, 1), keys(monero, 2), keys(bitcoin, 3)],
        slash_report_events: vec![slashes(monero, 4), slashes(bitcoin, 5), slashes(monero, 6)],
        batch_events: vec![batch(bitcoin, 0), batch(monero, 0)],
        burn_events: vec![
            burn(ExternalCoin::Bitcoin, 1),
            burn(ExternalCoin::Monero, 2),
            burn(ExternalCoin::Bitcoin, 3),
        ],
    };
    let second = CanonicalEvents {
        time: 7,
        set_keys_events: vec![keys(monero, 2), keys(bitcoin, 1), keys(bitcoin, 3)],
        slash_report_events: vec![slashes(monero, 4), slashes(monero, 6), slashes(bitcoin, 5)],
        batch_events: vec![batch(monero, 0), batch(bitcoin, 0)],
        burn_events: vec![
            burn(ExternalCoin::Bitcoin, 1),
            burn(ExternalCoin::Bitcoin, 3),
            burn(ExternalCoin::Monero, 2),
        ],
    };
    assert_ne!(first, second);
    let mut a = CanonicalDb::new();
    let mut b = CanonicalDb::new();
    a.index(3, first).unwrap();
    b.index(3, second).unwrap();
    assert_eq!(a, b);
    assert_eq!(a.messages.get(bitcoin).len(), 4);
}

#[test]
fn batches_are_contiguous() {
    let ethereum = ExternalNetworkId::Ethereum;
    let with = |batches| CanonicalEvents { batch_events: batches, ..no_events() };
    let mut db = CanonicalDb::new();
    assert_eq!(
        db.index(0, with(vec![batch(ethereum, 1)])),
        Err(StreamError::BatchIdNotIncrement)
    );
    db.index(0, with(vec![batch(ethereum, 0), batch(ExternalNetworkId::Monero, 0)])).unwrap();
    db.index(1, with(vec![batch(ethereum, 1)])).unwrap();
    assert_eq!(
        db.index(2, with(vec![batch(ethereum, 1)])),
        Err(StreamError::BatchIdNotIncrement)
    );
    assert_eq!(
        db.index(2, with(vec![batch(ethereum, 2), batch(ethereum, 3)])),
        Err(StreamError::MultipleBatches)
    );
    // The networks are gone through in order, and the first batch's ID is checked first
    assert_eq!(
        db.index(2, with(vec![batch(ethereum, 5), batch(ethereum, 6)])),
        Err(StreamError::BatchIdNotIncrement)
    );
    assert_eq!(
        db.index(
            2,
            with(vec![
                batch(ExternalNetworkId::Monero, 9),
                batch(ethereum, 2),
                batch(ethereum, 2)
            ])
        ),
        Err(StreamError::MultipleBatches)
    );
    // None of what failed left anything behind
    assert_eq!(db.scan_from, Some(2));
    assert_eq!(db.last_indexed_batch_id.get(ethereum), &Some(1));
    assert_eq!(db.last_indexed_batch_id.get(ExternalNetworkId::Monero), &Some(0));
    assert_eq!(db.last_indexed_batch_id.get(ExternalNetworkId::Bitcoin), &None);
    assert_eq!(db.messages.get(ethereum).len(), 2);
    db.index(2, no_events()).unwrap();
    assert_eq!(db.scan_from, Some(3));
    assert_eq!(db.messages.get(ethereum).len(), 2);
}

#[test]
fn sets_are_announced_to_their_validators() {
    let ours = [1; 32];
    let address = SeraiAddress([2; 32]);
    let other = SeraiAddress([3; 32]);
    let declared = |validator, keys| SetEmbeddedEllipticCurveKeys { validator, keys };
    let decided = |network, session, validators| SetDecided {
        set: ValidatorSet { network, session: Session(session) },
        validators,
    };
    let bitcoin = NetworkId::External(ExternalNetworkId::Bitcoin);
    let block = |keys, sets, handovers| EphemeralEvents {
        block_hash: BlockHash([4; 32]),
        time: 5,
        embedded_elliptic_curve_keys_events: keys,
        set_decided_events: sets,
        accepted_handover_events: handovers,
    };
    let mut keys = AuxiliaryKeys::new();
    let mut db = EphemeralDb::new();

    // A validator without keys, even if the set isn't ours
    let lacking = block(
        vec![declared(address, EmbeddedEllipticCurveKeys::Serai(ours))],
        vec![decided(bitcoin, 0, vec![(other, KeyShares(1))])],
        vec![],
    );
    assert_eq!(
        db.index(&mut keys, &ours, 0, lacking),
        Err(StreamError::MissingAuxiliaryKeys)
    );
    // What the block declared wasn't kept
    assert_eq!(keys.get(NetworkId::Serai, &address), None);
    assert_eq!(db.scan_from, None);

    let fine = block(
        vec![
            declared(address, EmbeddedEllipticCurveKeys::Serai([9; 32])),
            declared(address, EmbeddedEllipticCurveKeys::Bitcoin([6; 32], [7; 33])),
            declared(other, EmbeddedEllipticCurveKeys::Bitcoin([8; 32], [9; 33])),
            declared(address, EmbeddedEllipticCurveKeys::Serai(ours)),
        ],
        vec![
            decided(NetworkId::Serai, 0, vec![(address, KeyShares(1)); 70000]),
            decided(bitcoin, 0, vec![(other, KeyShares(200))]),
            decided(bitcoin, 1, vec![(other, KeyShares(120)), (address, KeyShares(7))]),
            decided(bitcoin, 2, vec![]),
        ],
        vec![
            AcceptedHandover { set: ValidatorSet { network: bitcoin, session: Session(1) } },
            AcceptedHandover {
                set: ValidatorSet { network: NetworkId::Serai, session: Session(0) },
            },
        ],
    );
    db.index(&mut keys, &ours, 0, fine).unwrap();
    assert_eq!(db.scan_from, Some(1));
    assert_eq!(db.new_sets.len(), 1);
    let set = &db.new_sets[0];
    assert_eq!(
        set.set,
        ExternalValidatorSet { network: ExternalNetworkId::Bitcoin, session: Session(1) }
    );
    assert_eq!(set.serai_block, [4; 32]);
    assert_eq!(set.declaration_time, 5);
    assert_eq!(
        set.tributary_validators.validators,
        vec![
            TributaryValidator::new([8; 32], vec![9; 33], 120),
            TributaryValidator::new([6; 32], vec![7; 33], 7)
        ]
    );
    assert_eq!(set.tributary_validators.total_weight(), 127);
    assert_eq!(
        db.sign_slash_reports,
        vec![ExternalValidatorSet { network: ExternalNetworkId::Bitcoin, session: Session(1) }]
    );

    // One key share more than a set may have, in a set which is ours
    let exceeding = block(
        vec![],
        vec![decided(bitcoin, 3, vec![(other, KeyShares(121)), (address, KeyShares(7))])],
        vec![],
    );
    assert_eq!(
        db.index(&mut keys, &ours, 1, exceeding),
        Err(StreamError::TooManyKeyShares {
            set: ExternalValidatorSet { network: ExternalNetworkId::Bitcoin, session: Session(3) },
            key_shares: 128
        })
    );
    let crowded = block(
        vec![],
        vec![decided(bitcoin, 3, vec![(other, KeyShares(1)); 65536])],
        vec![],
    );
    assert_eq!(db.index(&mut keys, &ours, 1, crowded), Err(StreamError::TooManyValidators));
    assert_eq!(db.scan_from, Some(1));
}

#[test]
fn ranges_are_fetched_ahead_and_processed_in_order() {
    let mut progress = RangeProgress::new(3, 6, 2);
    let mut steps = vec![];
    loop {
        let step = progress.step();
        steps.push(step);
        if matches!(step, RangeStep::Done(_)) {
            break;
        }
    }
    assert_eq!(
        steps,
        vec![
            RangeStep::Fetch(3),
            RangeStep::Fetch(4),
            RangeStep::Process(3),
            RangeStep::Fetch(5),
            RangeStep::Process(4),
            RangeStep::Fetch(6),
            RangeStep::Process(5),
            RangeStep::Process(6),
            RangeStep::Done(true),
        ]
    );
    assert_eq!(progress.step(), RangeStep::Done(true));
    assert_eq!(RangeProgress::new(7, 6, 2).step(), RangeStep::Done(false));
}
