//! The event streams, run against a shim of a Serai node.
use std::collections::{HashMap, HashSet};

use rand_core::{OsRng, RngCore};

use coordinator_substrate::auxiliary_keys::EmbeddedEllipticCurveKeys;
use coordinator_substrate::canonical_stream::{last_indexed_batch_id, CanonicalEventStream};
use coordinator_substrate::cosign::{
    del_latest_cosigned_block_number, del_substrate_block_hash, set_faulted_session,
    set_latest_cosigned_block_number, set_substrate_block_hash, Faulted,
};
use coordinator_substrate::db::MemDb;
use coordinator_substrate::ephemeral_stream::EphemeralEventStream;
use coordinator_substrate::errors::StreamError;
use coordinator_substrate::events::{
    AcceptedHandover, Batch, BurnWithInstruction, Event, ExternalBalance,
    OutInstructionWithBalance, ReportedSlashes, SetDecided, SetEmbeddedEllipticCurveKeys, SetKeys,
};
use coordinator_substrate::messages::{CoordinatorMessage, ExecutedBatch, InInstructionResult};
use coordinator_substrate::network_id::{ExternalCoin, ExternalNetworkId, NetworkId};
use coordinator_substrate::node::{Replies, SeraiBlock};
use coordinator_substrate::primitives::{
    BlockHash, ExternalValidatorSet, KeyPair, KeyShares, SeraiAddress, Session, ValidatorSet,
    MAX_KEY_SHARES_PER_SET,
};
use coordinator_substrate::task::{
    plan_iteration, run_iteration, RangeProcessor, RangeProgress, RangeStep,
};
use coordinator_substrate::task_test::{
    IntoTask, SeraiTaskTestState, SeraiTaskTestStruct, TaskTest,
};
use coordinator_substrate::test_helpers::{
    random_block_hash, random_bytes, random_embedded_elliptic_curve_keys, random_external_address,
    random_external_key, random_external_network_id, random_global_session, random_keypair,
    random_ristretto_public_key, random_serai_address, random_serai_embedded_elliptic_curve_keys,
};

fn random_keys(network: ExternalNetworkId) -> EmbeddedEllipticCurveKeys {
    random_embedded_elliptic_curve_keys(
        random_bytes(&mut OsRng),
        random_bytes(&mut OsRng),
        network,
    )
}

fn batch(network: ExternalNetworkId, publishing_session: Session, id: u32) -> Event {
    let num_results = OsRng.next_u64() % 20;
    let mut results = vec![];
    for _ in 0..num_results {
        results.push(OsRng.next_u64() % 2 == 0);
    }
    Event::Batch(Batch {
        network,
        publishing_session,
        id,
        external_network_block_hash: random_block_hash(&mut OsRng),
        in_instructions_hash: random_block_hash(&mut OsRng).0,
        in_instruction_results: results,
    })
}

/// Random event, state, and block generator.
struct EventFuzzer {
    validators: Vec<SeraiAddress>,
    stakes: HashMap<(ExternalNetworkId, SeraiAddress), u64>,
    pending_keys: HashMap<ExternalValidatorSet, Vec<SeraiAddress>>,
    next_session: HashMap<ExternalNetworkId, u32>,
    batches_this_block: HashSet<ExternalNetworkId>,
    batch_ids: HashMap<ExternalNetworkId, u32>,
    aux_key_cache: HashMap<(ExternalNetworkId, SeraiAddress), EmbeddedEllipticCurveKeys>,
    serai_key_cache: HashMap<SeraiAddress, EmbeddedEllipticCurveKeys>,
    completed_sets: Vec<ExternalValidatorSet>,
    next_serai_session: u32,
    completed_serai_sessions: Vec<u32>,
}

fn pick<T: Copy>(slice: &[T]) -> T {
    slice[usize::try_from(OsRng.next_u64() % u64::try_from(slice.len()).unwrap()).unwrap()]
}

impl EventFuzzer {
    fn new(extra_validators: &[SeraiAddress]) -> Self {
        let num_validators = (OsRng.next_u64() % 17) + 4;
        let mut validators: Vec<SeraiAddress> =
            (0..num_validators).map(|_| random_serai_address(&mut OsRng)).collect();
        validators.extend_from_slice(extra_validators);
        EventFuzzer {
            validators,
            stakes: HashMap::new(),
            pending_keys: HashMap::new(),
            next_session: HashMap::new(),
            batches_this_block: HashSet::new(),
            batch_ids: HashMap::new(),
            aux_key_cache: HashMap::new(),
            serai_key_cache: HashMap::new(),
            completed_sets: vec![],
            next_serai_session: 0,
            completed_serai_sessions: vec![],
        }
    }

    fn random_amount() -> u64 {
        match OsRng.next_u64() % 100 {
            0..=24 => (OsRng.next_u64() % 10) + 1,
            25..=59 => (OsRng.next_u64() % 990) + 11,
            60..=84 => (OsRng.next_u64() % 99_000) + 1_001,
            _ => (OsRng.next_u64() % 9_900_000) + 100_001,
        }
    }

    fn random_allocation(&mut self) -> Event {
        let validator = pick(&self.validators);
        let network = pick(&NetworkId::all());
        let amount = Self::random_amount();
        if let Some(external) = network.external() {
            *self.stakes.entry((external, validator)).or_default() += amount;
        }
        Event::Allocation { validator, network, amount }
    }

    fn random_deallocation(&mut self) -> Option<Event> {
        if OsRng.next_u64() % 4 == 0 {
            return Some(Event::Deallocation {
                validator: pick(&self.validators),
                network: NetworkId::Serai,
                amount: Self::random_amount(),
            });
        }
        let candidates: Vec<((ExternalNetworkId, SeraiAddress), u64)> =
            self.stakes.iter().filter(|(_, s)| **s > 0).map(|(v, s)| (*v, *s)).collect();
        if candidates.is_empty() {
            return None;
        }
        let ((network, validator), stake) = pick(&candidates);
        let amount = Self::random_amount().min(stake);
        *self.stakes.entry((network, validator)).or_default() -= amount;
        Some(Event::Deallocation { validator, network: NetworkId::External(network), amount })
    }

    fn choose_validators(&self) -> Vec<SeraiAddress> {
        let max_count = self.validators.len().min(3);
        let count = (OsRng.next_u64() % u64::try_from(max_count).unwrap()) + 1;
        let mut pool = self.validators.clone();
        let mut chosen = vec![];
        for _ in 0..count {
            let i = usize::try_from(OsRng.next_u64() % u64::try_from(pool.len()).unwrap()).unwrap();
            chosen.push(pool.swap_remove(i));
        }
        chosen
    }

    fn random_set_decided(&mut self) -> Vec<Event> {
        if OsRng.next_u64() % 4 == 0 {
            let session = self.next_serai_session;
            self.next_serai_session += 1;
            self.completed_serai_sessions.push(session);
            return vec![Event::SetDecided(SetDecided {
                set: ValidatorSet { network: NetworkId::Serai, session: Session(session) },
                validators: self.choose_validators().into_iter().map(|v| (v, KeyShares(1))).collect(),
            })];
        }

        let network = pick(&ExternalNetworkId::all());
        let session = *self.next_session.entry(network).or_insert(0);
        let set = ExternalValidatorSet { network, session: Session(session) };
        // Don't double-decide a set that's already pending keys
        if self.pending_keys.contains_key(&set) {
            return vec![];
        }
        let chosen = self.choose_validators();
        self.pending_keys.insert(set, chosen.clone());

        let mut events = vec![];
        for validator in &chosen {
            let keys = *self
                .aux_key_cache
                .entry((network, *validator))
                .or_insert_with(|| random_keys(network));
            events.push(Event::SetEmbeddedEllipticCurveKeys(SetEmbeddedEllipticCurveKeys {
                validator: *validator,
                keys,
            }));
        }
        events.push(Event::SetDecided(SetDecided {
            set: ValidatorSet { network: NetworkId::External(network), session: Session(session) },
            validators: chosen.into_iter().map(|v| (v, KeyShares(1))).collect(),
        }));
        events
    }

    fn random_set_keys(&mut self) -> Option<Event> {
        let sets: Vec<ExternalValidatorSet> = self.pending_keys.keys().copied().collect();
        if sets.is_empty() {
            return None;
        }
        let set = pick(&sets);
        self.pending_keys.remove(&set);
        *self.next_session.entry(set.network).or_insert(0) += 1;
        self.completed_sets.push(set);
        let (_, public) = random_keypair(&mut OsRng);
        Some(Event::SetKeys(SetKeys {
            set,
            key_pair: KeyPair(public, random_external_key(&mut OsRng)),
        }))
    }

    fn random_embedded_key_event(&mut self) -> Event {
        let validator = pick(&self.validators);
        let keys = match pick(&NetworkId::all()).external() {
            Some(network) => *self
                .aux_key_cache
                .entry((network, validator))
                .or_insert_with(|| random_keys(network)),
            None => *self
                .serai_key_cache
                .entry(validator)
                .or_insert_with(|| random_serai_embedded_elliptic_curve_keys(&mut OsRng)),
        };
        Event::SetEmbeddedEllipticCurveKeys(SetEmbeddedEllipticCurveKeys { validator, keys })
    }

    fn random_accepted_handover(&self) -> Option<Event> {
        let mut sets: Vec<ValidatorSet> = vec![];
        for set in &self.completed_sets {
            sets.push(ValidatorSet {
                network: NetworkId::External(set.network),
                session: set.session,
            });
        }
        for session in &self.completed_serai_sessions {
            sets.push(ValidatorSet { network: NetworkId::Serai, session: Session(*session) });
        }
        if sets.is_empty() {
            return None;
        }
        Some(Event::AcceptedHandover(AcceptedHandover { set: pick(&sets) }))
    }

    fn random_burn(&mut self) -> Event {
        Event::BurnWithInstruction(BurnWithInstruction {
            from: random_serai_address(&mut OsRng),
            instruction: OutInstructionWithBalance {
                address: random_external_address(&mut OsRng),
                balance: ExternalBalance {
                    coin: pick(&[
                        ExternalCoin::Bitcoin,
                        ExternalCoin::Ether,
                        ExternalCoin::Dai,
                        ExternalCoin::Monero,
                    ]),
                    amount: Self::random_amount(),
                },
            },
        })
    }

    fn random_batch(&mut self) -> Option<Event> {
        let network = pick(&ExternalNetworkId::all());
        if !self.batches_this_block.insert(network) {
            return None;
        }
        let session = *self.next_session.entry(network).or_insert(0);
        let id = *self.batch_ids.entry(network).and_modify(|id| *id += 1).or_insert(0);
        Some(batch(network, Session(session), id))
    }

    fn random_slash_report(&mut self) -> Option<Event> {
        let eligible: Vec<ExternalNetworkId> = ExternalNetworkId::all()
            .into_iter()
            .filter(|n| self.next_session.get(n).copied().unwrap_or(0) > 0)
            .collect();
        if eligible.is_empty() {
            return None;
        }
        let network = pick(&eligible);
        let set =
            ExternalValidatorSet { network, session: Session(self.next_session[&network] - 1) };
        Some(Event::Slashes(ReportedSlashes::ExternalValidatorSet(set)))
    }

    fn generate_block_events(&mut self) -> Vec<Vec<Event>> {
        self.batches_this_block.clear();
        let mut kinds: Vec<u64> = (0..(OsRng.next_u64() % 8)).map(|_| OsRng.next_u64() % 9).collect();
        kinds.sort();
        let mut events = vec![];
        for kind in kinds {
            match kind {
                0 => events.push(self.random_allocation()),
                1 => events.extend(self.random_deallocation()),
                2 => events.extend(self.random_set_decided()),
                3 => events.extend(self.random_set_keys()),
                4 => events.push(self.random_burn()),
                5 => events.extend(self.random_batch()),
                6 => events.extend(self.random_slash_report()),
                7 => events.push(self.random_embedded_key_event()),
                8 => events.extend(self.random_accepted_handover()),
                _ => unreachable!(),
            }
        }
        // Shuffle the events to test order-independence
        for i in (1..events.len()).rev() {
            let j = usize::try_from(OsRng.next_u64() % u64::try_from(i + 1).unwrap()).unwrap();
            events.swap(i, j);
        }
        if events.is_empty() {
            vec![]
        } else {
            vec![events]
        }
    }
}

/// A shim of a Serai node.
#[derive(Default)]
struct Shim {
    numbers: HashMap<u64, BlockHash>,
    events: HashMap<BlockHash, Vec<Vec<Event>>>,
    blocks: HashMap<BlockHash, SeraiBlock>,
    block_errors: HashMap<BlockHash, String>,
    events_errors: HashMap<BlockHash, String>,
}

type FuzzedBlocks = (Vec<(u64, BlockHash)>, Vec<Vec<Event>>, Vec<(BlockHash, SeraiBlock)>);

impl Shim {
    fn make_block(&mut self, number: u64, events: Vec<Vec<Event>>) -> (BlockHash, SeraiBlock) {
        let hash = random_block_hash(&mut OsRng);
        let block = SeraiBlock { unix_time_in_millis: OsRng.next_u64() };
        self.numbers.insert(number, hash);
        self.events.insert(hash, events);
        self.blocks.insert(hash, block);
        (hash, block)
    }

    fn fuzz_blocks_with_validators(&mut self, count: u64, extra: &[SeraiAddress]) -> FuzzedBlocks {
        let mut fuzzer = EventFuzzer::new(extra);
        let mut hashes = vec![];
        let mut all_events = vec![];
        let mut blocks = vec![];
        for number in 0..count {
            let events = fuzzer.generate_block_events();
            all_events.push(events.clone().into_iter().flatten().collect());
            let (hash, block) = self.make_block(number, events);
            hashes.push((number, hash));
            blocks.push((hash, block));
        }
        (hashes, all_events, blocks)
    }

    fn fuzz_blocks(&mut self, count: u64) -> FuzzedBlocks {
        self.fuzz_blocks_with_validators(count, &[])
    }

    fn remove_block(&mut self, number: u64) {
        self.blocks.remove(&self.numbers[&number]);
    }

    fn clear_all_errors(&mut self) {
        self.block_errors.clear();
        self.events_errors.clear();
    }

    fn replies(&self, hash: BlockHash) -> Replies {
        Replies {
            events: match self.events_errors.get(&hash) {
                Some(error) => Err(error.clone()),
                None => Ok(self.events.get(&hash).cloned().unwrap_or_default()),
            },
            block: match self.block_errors.get(&hash) {
                Some(error) => Err(error.clone()),
                None => Ok(self.blocks.get(&hash).copied()),
            },
        }
    }

    /// The node's answers of all blocks which a task is to process.
    fn replies_to<T: RangeProcessor>(&self, task: &T) -> Vec<Replies> {
        let (start, end) = match plan_iteration(task) {
            Ok(Some(range)) => range,
            _ => return vec![],
        };
        let mut replies = vec![];
        for number in start..=end {
            replies.push(match task.cosigning().cosigned_block(number) {
                Ok(Some(hash)) => self.replies(hash),
                _ => Replies { events: Err("not found".into()), block: Err("not found".into()) },
            });
        }
        replies
    }
}

fn seed_cosigned_blocks(db: &mut MemDb, block_hashes: &[(u64, BlockHash)]) {
    for (number, hash) in block_hashes {
        set_substrate_block_hash(&mut db.cosigning, *number, hash);
    }
    if let Some((max_number, _)) = block_hashes.last() {
        set_latest_cosigned_block_number(&mut db.cosigning, *max_number);
    }
}

fn task_runs_once_and_matches_progress<T: RangeProcessor>(task: &mut T, shim: &Shim, made_progress: bool) {
    let replies = shim.replies_to(task);
    assert!(TaskTest::task_runs_once_and_matches_progress(task, replies, made_progress));
}

fn task_runs_and_fails_with<T: RangeProcessor>(task: &mut T, shim: &Shim, error: &str) {
    let replies = shim.replies_to(task);
    assert!(TaskTest::task_runs_and_fails_with(task, replies, error));
}

/// Run a task which is to halt, and get what it halts with.
fn halts_with<T: RangeProcessor>(task: &mut T, shim: &Shim) -> String {
    let replies = shim.replies_to(task);
    let error = run_iteration(task, replies).unwrap_err();
    assert!(error.halts());
    error.message()
}

struct CanonicalTestStruct {
    db: MemDb,
}

impl SeraiTaskTestStruct<Shim> for CanonicalTestStruct {
    fn from_state(state: SeraiTaskTestState<Shim>) -> Self {
        CanonicalTestStruct { db: state.db }
    }
}

impl IntoTask<Shim> for CanonicalTestStruct {
    type Task = CanonicalEventStream;

    fn task(self) -> Self::Task {
        CanonicalEventStream::new(self.db)
    }
}

struct EphemeralTestStruct {
    db: MemDb,
    public_serai_auxiliary_key: [u8; 32],
}

impl SeraiTaskTestStruct<Shim> for EphemeralTestStruct {
    fn from_state(state: SeraiTaskTestState<Shim>) -> Self {
        EphemeralTestStruct {
            db: state.db,
            public_serai_auxiliary_key: random_ristretto_public_key(&mut OsRng),
        }
    }
}

impl IntoTask<Shim> for EphemeralTestStruct {
    type Task = EphemeralEventStream;

    fn task(self) -> Self::Task {
        EphemeralEventStream::new(self.db, self.public_serai_auxiliary_key)
    }
}

fn setup_canonical() -> (Shim, CanonicalEventStream) {
    let state = SeraiTaskTestState { serai: Shim::default(), db: MemDb::new() };
    (Shim::default(), CanonicalTestStruct::from_state(state).task())
}

fn setup_ephemeral() -> (Shim, EphemeralEventStream) {
    let state = SeraiTaskTestState { serai: Shim::default(), db: MemDb::new() };
    (Shim::default(), EphemeralTestStruct::from_state(state).task())
}

/// Check all which was written for blocks, from the first on.
fn verify_canonical(db: &MemDb, events: &[Vec<Event>], blocks: &[(BlockHash, SeraiBlock)]) {
    if events.is_empty() {
        assert_eq!(db.canonical.scan_from, None);
    } else {
        assert_eq!(db.canonical.scan_from, Some(u64::try_from(events.len()).unwrap()));
    }
    for network in ExternalNetworkId::all() {
        let messages = db.canonical.messages.get(network);
        let mut next = 0;
        let mut last_batch_id = None;
        for (block_number, block_events) in events.iter().enumerate() {
            let serai_time = blocks[block_number].1.unix_time_in_millis / 1000;
            for event in block_events {
                if let Event::SetKeys(SetKeys { set, key_pair }) = event {
                    if set.network == network {
                        let expected = CoordinatorMessage::SetKeys {
                            serai_time,
                            session: set.session,
                            key_pair: key_pair.clone(),
                        };
                        assert_eq!(messages[next], expected);
                        next += 1;
                    }
                }
            }
            for event in block_events {
                if let Event::Slashes(ReportedSlashes::ExternalValidatorSet(set)) = event {
                    if set.network == network {
                        let expected = CoordinatorMessage::SlashesReported { session: set.session };
                        assert_eq!(messages[next], expected);
                        next += 1;
                    }
                }
            }
            let mut batch = None;
            let mut burns = vec![];
            for event in block_events {
                match event {
                    Event::Batch(this_batch) if this_batch.network == network => {
                        assert!(batch.is_none(), "double batch");
                        last_batch_id = Some(this_batch.id);
                        batch = Some(ExecutedBatch {
                            id: this_batch.id,
                            publisher: this_batch.publishing_session,
                            external_network_block_hash: this_batch.external_network_block_hash.0,
                            in_instructions_hash: this_batch.in_instructions_hash,
                            in_instruction_results: this_batch
                                .in_instruction_results
                                .iter()
                                .map(|bit| {
                                    if *bit {
                                        InInstructionResult::Succeeded
                                    } else {
                                        InInstructionResult::Failed
                                    }
                                })
                                .collect(),
                        });
                    }
                    Event::BurnWithInstruction(burn) if burn.instruction.balance.coin.network() == network => {
                        burns.push(burn.instruction.clone());
                    }
                    _ => {}
                }
            }
            if batch.is_some() || !burns.is_empty() {
                let serai_block_number = u64::try_from(block_number).unwrap();
                let expected = CoordinatorMessage::Block { serai_block_number, batch, burns };
                assert_eq!(messages[next], expected);
                next += 1;
            }
        }
        assert_eq!(last_indexed_batch_id(db, network), last_batch_id);
        assert_eq!(messages.len(), next);
    }
}

/// Check all which was written for blocks, from the first on.
fn verify_ephemeral(
    stream: &EphemeralEventStream,
    events: &[Vec<Event>],
    blocks: &[(BlockHash, SeraiBlock)],
) {
    let db = &stream.db;
    if events.is_empty() {
        assert_eq!(db.ephemeral.scan_from, None);
    } else {
        assert_eq!(db.ephemeral.scan_from, Some(u64::try_from(events.len()).unwrap()));
    }
    let mut new_sets = 0;
    let mut handovers = vec![];
    for (block_number, block_events) in events.iter().enumerate() {
        for event in block_events {
            match event {
                Event::SetEmbeddedEllipticCurveKeys(e) => {
                    assert_eq!(
                        db.auxiliary_keys.get(e.keys.network(), &e.validator),
                        Some(e.keys),
                        "auxiliary keys from event and DB don't match"
                    );
                }
                Event::SetDecided(e) => {
                    let Some(set) = e.set.external() else { continue };
                    let in_set = e.validators.iter().any(|(validator, _)| {
                        db.auxiliary_keys.get(NetworkId::Serai, validator)
                            == Some(EmbeddedEllipticCurveKeys::Serai(
                                stream.public_serai_auxiliary_key,
                            ))
                    });
                    if !in_set {
                        continue;
                    }
                    let new_set = &db.ephemeral.new_sets[new_sets];
                    new_sets += 1;
                    assert_eq!(new_set.set, set);
                    assert_eq!(new_set.serai_block, blocks[block_number].0 .0);
                    assert_eq!(
                        new_set.declaration_time,
                        blocks[block_number].1.unix_time_in_millis / 1000
                    );
                    let validators = new_set.tributary_validators.as_slice();
                    assert_eq!(validators.len(), e.validators.len());
                    let mut index = 1;
                    for (i, (address, weight)) in e.validators.iter().enumerate() {
                        let keys = db
                            .auxiliary_keys
                            .get(NetworkId::External(set.network), address)
                            .expect("selected validator lacked auxiliary keys");
                        assert_eq!(validators[i].substrate_key, keys.substrate_key());
                        assert_eq!(validators[i].network_key, keys.network_key());
                        assert_eq!(validators[i].weight, weight.0);
                        for _ in 0..weight.0 {
                            let (participant, validator) = &new_set
                                .tributary_validators
                                .participant_indexes_reverse_lookup[index - 1];
                            assert_eq!(usize::from(participant.index()), index);
                            assert_eq!(validator, &validators[i]);
                            index += 1;
                        }
                    }
                }
                Event::AcceptedHandover(e) => handovers.extend(e.set.external()),
                _ => {}
            }
        }
    }
    assert_eq!(db.ephemeral.new_sets.len(), new_sets);
    assert_eq!(db.ephemeral.sign_slash_reports, handovers);
}

#[test]
fn canonical_handles_faulted_session() {
    let (mut shim, mut task) = setup_canonical();
    let (block_hashes, _, _) = shim.fuzz_blocks(1);
    seed_cosigned_blocks(&mut task.db, &block_hashes);
    set_faulted_session(&mut task.db.cosigning, random_global_session(&mut OsRng));

    // Does not progress on existing FaultedSession for block
    task_runs_and_fails_with(&mut task, &shim, "Error getting latest cosigned block number");
    verify_canonical(&task.db, &[], &[]);
}

#[test]
#[should_panic(
    expected = "iterating to latest cosigned block but couldn't get cosigned block number"
)]
fn canonical_panics_on_cosigned_block_no_latest_is_none() {
    let (mut shim, mut task) = setup_canonical();
    let (block_hashes, _, _) = shim.fuzz_blocks(1);
    seed_cosigned_blocks(&mut task.db, &block_hashes);

    task.db
        .cosigning
        .latest_cosigned_block_number()
        .expect("Latest cosigned block number should not Error yet");

    // Delete the seeded block so cosigned_block(n) returns Ok(None)
    del_substrate_block_hash(&mut task.db.cosigning, 0);
    del_latest_cosigned_block_number(&mut task.db.cosigning);

    let error = task.fetch_item(0, shim.replies(block_hashes[0].1)).unwrap_err();
    if error.halts() {
        panic!("{}", error.message());
    }
}

#[test]
#[should_panic(
    expected = "iterating to latest cosigned block but couldn't get cosigned block number"
)]
fn canonical_panics_on_cosigned_block_greater_than_latest_is_none() {
    let (shim, mut task) = setup_canonical();

    // Seed only block 0 = latest is 0
    seed_cosigned_blocks(&mut task.db, &[(0, BlockHash([0u8; 32]))]);

    task.db
        .cosigning
        .latest_cosigned_block_number()
        .expect("Latest cosigned block number should not Error yet");

    // fetch_item is called for block_number=1, but latest=0
    let error = task.fetch_item(1, shim.replies(BlockHash([0u8; 32]))).unwrap_err();
    if error.halts() {
        panic!("{}", error.message());
    }
}

#[test]
fn canonical_panics_on_cosigned_block_no_substrate_blockhash() {
    let (mut shim, mut task) = setup_canonical();
    // Block 1 is missing from being indexed as cosigned, here it skips from 0 to 2
    let block_hashes = [(0, shim.make_block(0, vec![]).0), (2, shim.make_block(2, vec![]).0)];
    seed_cosigned_blocks(&mut task.db, &block_hashes);
    assert!(halts_with(&mut task, &shim).contains("cosigned block 1 but didn't index it"));
}

#[test]
fn canonical_fetch_item_errors_when_session_faults_after_first_check() {
    let (mut shim, mut task) = setup_canonical();
    let (block_hashes, _, _) = shim.fuzz_blocks(1);
    seed_cosigned_blocks(&mut task.db, &block_hashes);
    task.db
        .cosigning
        .latest_cosigned_block_number()
        .expect("Latest cosigned block number should not Error yet");

    // Inject the fault after the iteration was started, simulating the race
    set_faulted_session(&mut task.db.cosigning, random_global_session(&mut OsRng));
    let error = task.fetch_item(0, shim.replies(block_hashes[0].1)).unwrap_err();
    assert_eq!(error, StreamError::CosigningFaulted);
    assert_eq!(error.message(), "cosigning process faulted");
    assert!(!error.halts());

    // Task continues failing on next iterations
    task_runs_and_fails_with(&mut task, &shim, "Error getting latest cosigned block number");
    verify_canonical(&task.db, &[], &[]);
}

#[test]
fn canonical_handles_serai_block_rpc_error() {
    let (mut shim, mut task) = setup_canonical();
    let (block_hashes, all_events, all_blocks) = shim.fuzz_blocks(3);
    seed_cosigned_blocks(&mut task.db, &block_hashes);

    shim.block_errors.insert(block_hashes[1].1, "connection refused".into());
    task_runs_and_fails_with(&mut task, &shim, "RPC error fetching block");
    // current latest is block 1
    verify_canonical(&task.db, &all_events[..1], &all_blocks[..1]);

    shim.clear_all_errors();
    // No more errors, progresses normally
    task_runs_once_and_matches_progress(&mut task, &shim, true);
    verify_canonical(&task.db, &all_events, &all_blocks);
}

#[test]
fn canonical_panics_on_serai_block_none_from_serai() {
    let (mut shim, mut task) = setup_canonical();
    let (block_hashes, _, _) = shim.fuzz_blocks(1);
    seed_cosigned_blocks(&mut task.db, &block_hashes);
    shim.remove_block(0);
    assert!(halts_with(&mut task, &shim).contains("Serai node didn't have block"));
}

#[test]
fn canonical_handles_serai_events_rpc_error() {
    let (mut shim, mut task) = setup_canonical();
    let (block_hashes, all_events, all_blocks) = shim.fuzz_blocks(3);
    seed_cosigned_blocks(&mut task.db, &block_hashes);

    shim.events_errors.insert(block_hashes[1].1, "timeout".into());
    task_runs_and_fails_with(&mut task, &shim, "RPC error fetching block events");
    verify_canonical(&task.db, &all_events[..1], &all_blocks[..1]);

    shim.clear_all_errors();
    task_runs_once_and_matches_progress(&mut task, &shim, true);
    verify_canonical(&task.db, &all_events, &all_blocks);
}

#[test]
fn panics_on_multiple_batches_per_network_on_block() {
    let (mut shim, mut task) = setup_canonical();
    let network = random_external_network_id(&mut OsRng);
    let (hash, _) = shim.make_block(
        0,
        vec![vec![batch(network, Session(0), 0), batch(network, Session(0), 0)]],
    );
    seed_cosigned_blocks(&mut task.db, &[(0, hash)]);

    let replies = shim.replies_to(&task);
    let error = task.run_iteration(replies).unwrap_err();
    assert_eq!(error, StreamError::MultipleBatches);
    assert!(error.message().contains("Serai block had multiple batches for the same network"));
    verify_canonical(&task.db, &[], &[]);
}

#[test]
fn panics_on_next_batch_non_increment() {
    let random = OsRng.next_u32();
    for (first, second) in [(5, 10), (10, 5), (random, random)] {
        let (mut shim, mut task) = setup_canonical();
        let network = random_external_network_id(&mut OsRng);
        let hash0 = shim.make_block(0, vec![vec![batch(network, Session(0), first)]]).0;
        let hash1 = shim.make_block(1, vec![vec![batch(network, Session(0), second)]]).0;
        seed_cosigned_blocks(&mut task.db, &[(0, hash0), (1, hash1)]);
        assert!(halts_with(&mut task, &shim)
            .contains("not an increment of the last indexed batch's ID"));
    }
}

#[test]
fn canonical_processes_cosigned_blocks() {
    // Does not progress on empty cosign DB
    {
        let (shim, mut task) = setup_canonical();
        task_runs_once_and_matches_progress(&mut task, &shim, false);
        verify_canonical(&task.db, &[], &[]);
    }

    // Returns made_progress = true with one or more cosigned blocks
    {
        let (mut shim, mut task) = setup_canonical();
        let (block_hashes, all_events, all_blocks) = shim.fuzz_blocks(1);
        seed_cosigned_blocks(&mut task.db, &block_hashes);
        task_runs_once_and_matches_progress(&mut task, &shim, true);
        verify_canonical(&task.db, &all_events, &all_blocks);
    }

    {
        let (mut shim, mut task) = setup_canonical();
        let (block_hashes, all_events, all_blocks) = shim.fuzz_blocks(10);
        seed_cosigned_blocks(&mut task.db, &block_hashes);
        task_runs_once_and_matches_progress(&mut task, &shim, true);
        verify_canonical(&task.db, &all_events, &all_blocks);

        // Attempting to seed a previous block does not regress its state
        let (hash, _) = shim.make_block(1, vec![]);
        seed_cosigned_blocks(&mut task.db, &[(1u64, hash)]);
        task_runs_once_and_matches_progress(&mut task, &shim, false);
        verify_canonical(&task.db, &all_events, &all_blocks);
    }
}

#[test]
fn canonical_fuzzed_event_processing() {
    let (mut shim, mut task) = setup_canonical();
    let (block_hashes, all_events, all_blocks) = shim.fuzz_blocks(1000);
    seed_cosigned_blocks(&mut task.db, &block_hashes);
    task_runs_once_and_matches_progress(&mut task, &shim, true);
    verify_canonical(&task.db, &all_events, &all_blocks);
}

#[test]
fn ephemeral_handles_faulted_session() {
    let (mut shim, mut task) = setup_ephemeral();
    let (block_hashes, _, _) = shim.fuzz_blocks(1);
    seed_cosigned_blocks(&mut task.db, &block_hashes);
    set_faulted_session(&mut task.db.cosigning, random_global_session(&mut OsRng));
    task_runs_and_fails_with(&mut task, &shim, "Error getting latest cosigned block number");
    verify_ephemeral(&task, &[], &[]);
}

#[test]
#[should_panic(
    expected = "iterating to latest cosigned block but couldn't get cosigned block number"
)]
fn ephemeral_panics_on_cosigned_block_no_latest_is_none() {
    let (mut shim, mut task) = setup_ephemeral();
    let (block_hashes, _, _) = shim.fuzz_blocks(1);
    seed_cosigned_blocks(&mut task.db, &block_hashes);
    task.db
        .cosigning
        .latest_cosigned_block_number()
        .expect("Latest cosigned block number should not Error yet");
    del_substrate_block_hash(&mut task.db.cosigning, 0);
    del_latest_cosigned_block_number(&mut task.db.cosigning);

    let error = task.fetch_item(0, shim.replies(block_hashes[0].1)).unwrap_err();
    if error.halts() {
        panic!("{}", error.message());
    }
}

#[test]
#[should_panic(
    expected = "iterating to latest cosigned block but couldn't get cosigned block number"
)]
fn ephemeral_panics_on_cosigned_block_greater_than_latest_is_none() {
    let (shim, mut task) = setup_ephemeral();
    seed_cosigned_blocks(&mut task.db, &[(0, BlockHash([0u8; 32]))]);
    task.db
        .cosigning
        .latest_cosigned_block_number()
        .expect("Latest cosigned block number should not Error yet");
    let error = task.fetch_item(1, shim.replies(BlockHash([0u8; 32]))).unwrap_err();
    if error.halts() {
        panic!("{}", error.message());
    }
}

#[test]
fn ephemeral_panics_on_cosigned_block_no_substrate_blockhash() {
    let (mut shim, mut task) = setup_ephemeral();
    let block_hashes = [(0, shim.make_block(0, vec![]).0), (2, shim.make_block(2, vec![]).0)];
    seed_cosigned_blocks(&mut task.db, &block_hashes);
    assert!(halts_with(&mut task, &shim).contains("cosigned block 1 but didn't index it"));
}

#[test]
fn ephemeral_fetch_item_errors_when_session_faults_after_first_check() {
    let (mut shim, mut task) = setup_ephemeral();
    let (block_hashes, _, _) = shim.fuzz_blocks(1);
    seed_cosigned_blocks(&mut task.db, &block_hashes);
    task.db
        .cosigning
        .latest_cosigned_block_number()
        .expect("Latest cosigned block number should not Error yet");

    set_faulted_session(&mut task.db.cosigning, random_global_session(&mut OsRng));
    assert_eq!(task.db.cosigning.latest_cosigned_block_number(), Err(Faulted));
    let error = task.fetch_item(0, shim.replies(block_hashes[0].1)).unwrap_err();
    assert_eq!(error.message(), "cosigning process faulted");

    task_runs_and_fails_with(&mut task, &shim, "Error getting latest cosigned block number");
    verify_ephemeral(&task, &[], &[]);
}

#[test]
fn ephemeral_handles_serai_block_rpc_error() {
    let (mut shim, mut task) = setup_ephemeral();
    let (block_hashes, all_events, all_blocks) = shim.fuzz_blocks(3);
    seed_cosigned_blocks(&mut task.db, &block_hashes);

    shim.block_errors.insert(block_hashes[1].1, "connection refused".into());
    task_runs_and_fails_with(&mut task, &shim, "RPC error fetching block");
    verify_ephemeral(&task, &all_events[..1], &all_blocks[..1]);

    shim.clear_all_errors();
    task_runs_once_and_matches_progress(&mut task, &shim, true);
    verify_ephemeral(&task, &all_events, &all_blocks);
}

#[test]
fn ephemeral_panics_on_serai_block_none_from_serai() {
    let (mut shim, mut task) = setup_ephemeral();
    let (block_hashes, _, _) = shim.fuzz_blocks(1);
    seed_cosigned_blocks(&mut task.db, &block_hashes);
    shim.remove_block(0);
    assert!(halts_with(&mut task, &shim).contains("Serai node didn't have block"));
}

#[test]
fn ephemeral_handles_serai_events_rpc_error() {
    let (mut shim, mut task) = setup_ephemeral();
    let (block_hashes, all_events, all_blocks) = shim.fuzz_blocks(3);
    seed_cosigned_blocks(&mut task.db, &block_hashes);

    shim.events_errors.insert(block_hashes[1].1, "timeout".into());
    task_runs_and_fails_with(&mut task, &shim, "RPC error fetching block events");
    verify_ephemeral(&task, &all_events[..1], &all_blocks[..1]);

    shim.clear_all_errors();
    task_runs_once_and_matches_progress(&mut task, &shim, true);
    verify_ephemeral(&task, &all_events, &all_blocks);
}

#[test]
fn rejects_set_decided_with_too_many_validators() {
    let (mut shim, mut task) = setup_ephemeral();
    let num_validators = usize::from(u16::MAX) + 1;
    let validators: Vec<(SeraiAddress, KeyShares)> =
        (0..num_validators).map(|_| (random_serai_address(&mut OsRng), KeyShares(1))).collect();

    // Ensure our coordinator's validator is in the set.
    let ours = EmbeddedEllipticCurveKeys::Serai(task.public_serai_auxiliary_key);
    task.db.auxiliary_keys.set(validators[0].0, ours);

    let event = Event::SetDecided(SetDecided {
        set: ValidatorSet {
            network: NetworkId::External(ExternalNetworkId::Bitcoin),
            session: Session(0),
        },
        validators,
    });
    let (hash, _) = shim.make_block(0, vec![vec![event]]);
    seed_cosigned_blocks(&mut task.db, &[(0, hash)]);
    task_runs_and_fails_with(&mut task, &shim, "more than u16::MAX validators sent");
    assert_eq!(task.db.ephemeral.scan_from, None);
}

#[test]
fn rejects_set_decided_exceeding_max_key_shares() {
    let (mut shim, mut task) = setup_ephemeral();
    let validators = vec![
        (random_serai_address(&mut OsRng), KeyShares(64)),
        (random_serai_address(&mut OsRng), KeyShares(64)),
    ];
    let ours = EmbeddedEllipticCurveKeys::Serai(task.public_serai_auxiliary_key);
    task.db.auxiliary_keys.set(validators[0].0, ours);

    let event = Event::SetDecided(SetDecided {
        set: ValidatorSet {
            network: NetworkId::External(ExternalNetworkId::Monero),
            session: Session(0),
        },
        validators,
    });
    let (hash, _) = shim.make_block(0, vec![vec![event]]);
    seed_cosigned_blocks(&mut task.db, &[(0, hash)]);
    task_runs_and_fails_with(
        &mut task,
        &shim,
        &format!("key shares when the max is {}", MAX_KEY_SHARES_PER_SET),
    );
    assert_eq!(task.db.ephemeral.scan_from, None);
}

#[test]
fn ephemeral_processes_cosigned_blocks() {
    {
        let (shim, mut task) = setup_ephemeral();
        task_runs_once_and_matches_progress(&mut task, &shim, false);
        verify_ephemeral(&task, &[], &[]);
    }
    {
        let (mut shim, mut task) = setup_ephemeral();
        let (block_hashes, all_events, all_blocks) = shim.fuzz_blocks(1);
        seed_cosigned_blocks(&mut task.db, &block_hashes);
        task_runs_once_and_matches_progress(&mut task, &shim, true);
        verify_ephemeral(&task, &all_events, &all_blocks);
    }
    {
        let (mut shim, mut task) = setup_ephemeral();
        let (block_hashes, all_events, all_blocks) = shim.fuzz_blocks(10);
        seed_cosigned_blocks(&mut task.db, &block_hashes);
        task_runs_once_and_matches_progress(&mut task, &shim, true);
        verify_ephemeral(&task, &all_events, &all_blocks);

        let (hash, _) = shim.make_block(1, vec![]);
        seed_cosigned_blocks(&mut task.db, &[(1u64, hash)]);
        task_runs_once_and_matches_progress(&mut task, &shim, false);
        verify_ephemeral(&task, &all_events, &all_blocks);
    }
}

#[test]
fn processes_our_validator() {
    let (mut shim, mut task) = setup_ephemeral();
    let our_auxiliary_key = task.public_serai_auxiliary_key;
    let our_identity = random_serai_address(&mut OsRng);

    let embedded_keys_event = Event::SetEmbeddedEllipticCurveKeys(SetEmbeddedEllipticCurveKeys {
        validator: our_identity,
        keys: EmbeddedEllipticCurveKeys::Monero(our_auxiliary_key),
    });
    let (hash0, block0) = shim.make_block(0, vec![vec![embedded_keys_event.clone()]]);
    seed_cosigned_blocks(&mut task.db, &[(0, hash0)]);
    task_runs_once_and_matches_progress(&mut task, &shim, true);

    // Verify our auxiliary key was stored in the DB for our validator identity
    let stored =
        task.db.auxiliary_keys.get(NetworkId::External(ExternalNetworkId::Monero), &our_identity);
    let Some(EmbeddedEllipticCurveKeys::Monero(stored_bytes)) = stored else {
        panic!("our auxiliary key should be stored in DB");
    };
    assert_eq!(stored_bytes, our_auxiliary_key);

    // Second block: emit SetDecided with our validator in the set
    let external_keys_event = Event::SetEmbeddedEllipticCurveKeys(SetEmbeddedEllipticCurveKeys {
        validator: our_identity,
        keys: random_keys(ExternalNetworkId::Bitcoin),
    });
    let set_decided = Event::SetDecided(SetDecided {
        set: ValidatorSet {
            network: NetworkId::External(ExternalNetworkId::Bitcoin),
            session: Session(0),
        },
        validators: vec![(our_identity, KeyShares(1))],
    });
    let (hash1, block1) =
        shim.make_block(1, vec![vec![external_keys_event, set_decided.clone()]]);
    seed_cosigned_blocks(&mut task.db, &[(1, hash1)]);
    task_runs_once_and_matches_progress(&mut task, &shim, true);

    verify_ephemeral(
        &task,
        &[vec![embedded_keys_event], vec![set_decided]],
        &[(hash0, block0), (hash1, block1)],
    );
}

#[test]
fn ephemeral_fuzzed_event_processing() {
    let (mut shim, mut task) = setup_ephemeral();
    let our_validator = random_serai_address(&mut OsRng);
    let ours = EmbeddedEllipticCurveKeys::Serai(task.public_serai_auxiliary_key);
    task.db.auxiliary_keys.set(our_validator, ours);

    // The events which declare our auxiliary key for Serai declare the same one
    let (block_hashes, all_events, all_blocks) = {
        let mut fuzzer = EventFuzzer::new(&[our_validator]);
        fuzzer.serai_key_cache.insert(our_validator, ours);
        let mut hashes = vec![];
        let mut all_events = vec![];
        let mut blocks = vec![];
        for number in 0..1000 {
            let events = fuzzer.generate_block_events();
            all_events.push(events.clone().into_iter().flatten().collect());
            let (hash, block) = shim.make_block(number, events);
            hashes.push((number, hash));
            blocks.push((hash, block));
        }
        (hashes, all_events, blocks)
    };
    seed_cosigned_blocks(&mut task.db, &block_hashes);
    task_runs_once_and_matches_progress(&mut task, &shim, true);
    verify_ephemeral(&task, &all_events, &all_blocks);
    assert!(!task.db.ephemeral.new_sets.is_empty());
}

/// Run a task by performing the steps of the range which is due.
fn perform_steps<T: RangeProcessor>(task: &mut T, shim: &Shim, at_once: u64) -> Result<bool, StreamError> {
    let Some((start, latest)) = plan_iteration(task)? else { return Ok(false) };
    let mut progress = RangeProgress::new(start, latest, at_once);
    let mut fetching = vec![];
    loop {
        match progress.step() {
            RangeStep::Fetch(number) => {
                let hash = task.cosigning().cosigned_block(number).unwrap().unwrap();
                fetching.push(task.fetch_item(number, shim.replies(hash)));
                assert!(u64::try_from(fetching.len()).unwrap() <= at_once);
            }
            RangeStep::Process(number) => {
                let (fetched_number, item) = fetching.remove(0)?;
                assert_eq!(fetched_number, number);
                task.process_item(number, item)?;
            }
            RangeStep::Done(made_progress) => return Ok(made_progress),
        }
    }
}

#[test]
fn steps_result_in_iteration() {
    for at_once in [1, 2, CanonicalEventStream::items_to_process_at_once(), 100] {
        let (mut shim, mut once) = setup_canonical();
        let (_, mut stepped) = setup_canonical();
        let (block_hashes, _, _) = shim.fuzz_blocks(30);
        seed_cosigned_blocks(&mut once.db, &block_hashes);
        seed_cosigned_blocks(&mut stepped.db, &block_hashes);
        shim.block_errors.insert(block_hashes[20].1, "timeout".into());
        for _ in 0..2 {
            let replies = shim.replies_to(&once);
            assert_eq!(once.run_iteration(replies), perform_steps(&mut stepped, &shim, at_once));
            assert_eq!(once.db.canonical, stepped.db.canonical);
            shim.clear_all_errors();
        }
        assert_eq!(once.db.canonical.scan_from, Some(30));

        let (mut shim, mut once) = setup_ephemeral();
        let mut stepped = EphemeralEventStream::new(MemDb::new(), once.public_serai_auxiliary_key);
        let (block_hashes, _, _) = shim.fuzz_blocks(30);
        seed_cosigned_blocks(&mut once.db, &block_hashes);
        seed_cosigned_blocks(&mut stepped.db, &block_hashes);
        let replies = shim.replies_to(&once);
        assert_eq!(once.run_iteration(replies), perform_steps(&mut stepped, &shim, at_once));
        assert_eq!(once.db.ephemeral, stepped.db.ephemeral);
    }
    assert_eq!(EphemeralEventStream::items_to_process_at_once(), 50);
    assert_eq!(CanonicalEventStream::items_to_process_at_once(), 10);
}
