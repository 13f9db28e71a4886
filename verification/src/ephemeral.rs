//! The stream of ephemeral events: what the coordinator itself acts on of each Serai block.
use crate::auxiliary_keys::{AuxiliaryKeys, AuxiliaryKeysModel, EmbeddedEllipticCurveKeys};
use crate::bytes::same_bytes;
use crate::errors::StreamError;
use crate::events::{AcceptedHandover, SetDecided, SetEmbeddedEllipticCurveKeys};
use crate::network_id::NetworkId;
use crate::primitives::{
    BlockHash, ExternalValidatorSet, KeyShares, SeraiAddress, MAX_KEY_SHARES_PER_SET,
};
use crate::seqs::lemma_filter_map_push;
use crate::validator_set::{
    models, weight_of, TributaryValidator, TributaryValidatorSet, ValidatorModel,
};
use vstd::prelude::*;

verus! {

/// These are all the events which generate ephemeral messages
#[derive(PartialEq, Eq, Debug)]
pub struct EphemeralEvents {
    /// The hash of the block.
    pub block_hash: BlockHash,
    /// The time of the block, in seconds.
    pub time: u64,
    /// The auxiliary keys declared in the block.
    pub embedded_elliptic_curve_keys_events: Vec<SetEmbeddedEllipticCurveKeys>,
    /// The sets decided in the block.
    pub set_decided_events: Vec<SetDecided>,
    /// The handovers accepted in the block.
    pub accepted_handover_events: Vec<AcceptedHandover>,
}

/// The content of [`EphemeralEvents`].
pub struct EphemeralEventsModel {
    pub block_hash: BlockHash,
    pub time: u64,
    pub embedded_elliptic_curve_keys_events: Seq<SetEmbeddedEllipticCurveKeys>,
    pub set_decided_events: Seq<SetDecided>,
    pub accepted_handover_events: Seq<AcceptedHandover>,
}

impl View for EphemeralEvents {
    type V = EphemeralEventsModel;

    open spec fn view(&self) -> EphemeralEventsModel {
        EphemeralEventsModel {
            block_hash: self.block_hash,
            time: self.time,
            embedded_elliptic_curve_keys_events: self.embedded_elliptic_curve_keys_events@,
            set_decided_events: self.set_decided_events@,
            accepted_handover_events: self.accepted_handover_events@,
        }
    }
}

/// A set which was decided, and which we're in.
#[derive(PartialEq, Eq, Debug)]
pub struct NewSetInformation {
    /// The set.
    pub set: ExternalValidatorSet,
    /// The hash of the Serai block which decided it.
    pub serai_block: [u8; 32],
    /// The time of the block which decided it, in seconds.
    pub declaration_time: u64,
    /// The set's validators.
    pub tributary_validators: TributaryValidatorSet,
}

/// The content of a [`NewSetInformation`].
pub struct NewSetModel {
    pub set: ExternalValidatorSet,
    pub serai_block: [u8; 32],
    pub declaration_time: u64,
    pub validators: Seq<ValidatorModel>,
}

impl View for NewSetInformation {
    type V = NewSetModel;

    open spec fn view(&self) -> NewSetModel {
        NewSetModel {
            set: self.set,
            serai_block: self.serai_block,
            declaration_time: self.declaration_time,
            validators: self.tributary_validators.validator_models(),
        }
    }
}

/// The auxiliary keys, once those declared are set, the last a validator declares for a network
/// deciding.
pub open spec fn keys_after(
    keys: AuxiliaryKeysModel,
    events: Seq<SetEmbeddedEllipticCurveKeys>,
) -> AuxiliaryKeysModel
    decreases events.len(),
{
    if events.len() == 0 {
        keys
    } else {
        keys_after(keys, events.drop_last()).insert(
            (events.last().keys.network(), events.last().validator.0@),
            events.last().keys,
        )
    }
}

/// Whether a validator is the one with an auxiliary key for Serai.
pub open spec fn is_validator(
    keys: AuxiliaryKeysModel,
    auxiliary_key: Seq<u8>,
    validator: SeraiAddress,
) -> bool {
    &&& keys.contains_key((NetworkId::Serai, validator.0@))
    &&& keys[(NetworkId::Serai, validator.0@)] matches EmbeddedEllipticCurveKeys::Serai(key)
        && key@ == auxiliary_key
}

/// Whether one of a set's validators is the one with an auxiliary key for Serai.
pub open spec fn in_set(
    keys: AuxiliaryKeysModel,
    auxiliary_key: Seq<u8>,
    validators: Seq<(SeraiAddress, KeyShares)>,
) -> bool {
    exists|i: int|
        0 <= i < validators.len() && is_validator(keys, auxiliary_key, #[trigger] validators[i].0)
}

/// The key shares of all of the validators together.
pub open spec fn total_key_shares(validators: Seq<(SeraiAddress, KeyShares)>) -> nat
    decreases validators.len(),
{
    if validators.len() == 0 {
        0
    } else {
        total_key_shares(validators.drop_last()) + validators.last().1.0 as nat
    }
}

/// Whether each of a set's validators has auxiliary keys for the set's network.
pub open spec fn have_keys(
    keys: AuxiliaryKeysModel,
    network: NetworkId,
    validators: Seq<(SeraiAddress, KeyShares)>,
) -> bool {
    forall|i: int|
        0 <= i < validators.len() ==> keys.contains_key(
            (network, (#[trigger] validators[i]).0.0@),
        )
}

/// A validator with its key shares, by its auxiliary keys for a network.
pub open spec fn validator_of(
    keys: AuxiliaryKeysModel,
    network: NetworkId,
    validator: (SeraiAddress, KeyShares),
) -> ValidatorModel {
    let auxiliary_keys = keys[(network, validator.0.0@)];
    ValidatorModel {
        substrate_key: auxiliary_keys.substrate_key()@,
        network_key: auxiliary_keys.network_key_bytes(),
        weight: validator.1.0 as nat,
    }
}

/// What's wrong with a set which was decided. We only coordinate over external networks, so there's
/// nothing wrong with another's set.
pub open spec fn decided_failure(
    keys: AuxiliaryKeysModel,
    auxiliary_key: Seq<u8>,
    event: SetDecided,
) -> Option<StreamError> {
    match event.set.external() {
        None => None,
        Some(set) => if event.validators@.len() > u16::MAX {
            Some(StreamError::TooManyValidators)
        } else if in_set(keys, auxiliary_key, event.validators@) && total_key_shares(
            event.validators@,
        ) > MAX_KEY_SHARES_PER_SET {
            Some(
                StreamError::TooManyKeyShares {
                    set,
                    key_shares: total_key_shares(event.validators@) as u32,
                },
            )
        } else if !have_keys(keys, NetworkId::External(set.network), event.validators@) {
            Some(StreamError::MissingAuxiliaryKeys)
        } else {
            None
        },
    }
}

/// What's wrong with the first of the sets decided with which anything's wrong.
pub open spec fn failure(
    keys: AuxiliaryKeysModel,
    auxiliary_key: Seq<u8>,
    events: Seq<SetDecided>,
) -> Option<StreamError>
    decreases events.len(),
{
    if events.len() == 0 {
        None
    } else {
        match failure(keys, auxiliary_key, events.drop_last()) {
            Some(error) => Some(error),
            None => decided_failure(keys, auxiliary_key, events.last()),
        }
    }
}

/// What's announced of a set which was decided: nothing, unless it's for an external network and
/// we're in it.
pub open spec fn new_set(
    keys: AuxiliaryKeysModel,
    auxiliary_key: Seq<u8>,
    block_hash: BlockHash,
    time: u64,
    event: SetDecided,
) -> Option<NewSetModel> {
    match event.set.external() {
        None => None,
        Some(set) => if in_set(keys, auxiliary_key, event.validators@) {
            Some(
                NewSetModel {
                    set,
                    serai_block: block_hash.0,
                    declaration_time: time,
                    validators: event.validators@.map_values(
                        |v: (SeraiAddress, KeyShares)|
                            validator_of(keys, NetworkId::External(set.network), v),
                    ),
                },
            )
        } else {
            None
        },
    }
}

/// What's announced of a set which was decided in a block.
pub open spec fn announced(
    keys: AuxiliaryKeysModel,
    auxiliary_key: Seq<u8>,
    block_hash: BlockHash,
    time: u64,
) -> spec_fn(SetDecided) -> Option<NewSetModel> {
    |event: SetDecided| new_set(keys, auxiliary_key, block_hash, time, event)
}

/// The sets which accepted a handover, of those for external networks.
pub open spec fn handovers(events: Seq<AcceptedHandover>) -> Seq<ExternalValidatorSet> {
    events.filter_map(|e: AcceptedHandover| e.set.external())
}

/// The auxiliary keys of a validator, with those declared in the block set.
fn declared_keys(
    keys: &AuxiliaryKeys,
    events: &Vec<SetEmbeddedEllipticCurveKeys>,
    network: NetworkId,
    validator: &SeraiAddress,
) -> (found: Option<EmbeddedEllipticCurveKeys>)
    requires
        keys.wf(),
    ensures
        ({
            let all = keys_after(keys@, events@);
            found == if all.contains_key((network, validator.0@)) {
                Some(all[(network, validator.0@)])
            } else {
                None
            }
        }),
{
    let mut i: usize = events.len();
    let ghost key = (network, validator.0@);
    assert(events@.take(i as int) =~= events@);
    while i > 0
        invariant
            i <= events.len(),
            key == (network, validator.0@),
            keys_after(keys@, events@).contains_key(key) == keys_after(
                keys@,
                events@.take(i as int),
            ).contains_key(key),
            keys_after(keys@, events@).contains_key(key) ==> keys_after(keys@, events@)[key]
                == keys_after(keys@, events@.take(i as int))[key],
        decreases i,
    {
        i -= 1;
        assert(events@.take(i + 1).drop_last() =~= events@.take(i as int));
        let event: &SetEmbeddedEllipticCurveKeys = &events[i];
        if event.keys.network() == network && same_bytes(
            event.validator.0.as_slice(),
            validator.0.as_slice(),
        ) {
            return Some(event.keys);
        }
    }
    keys.get(network, validator)
}

/// Whether we're one of a set's validators.
fn are_we_in_set(
    keys: &AuxiliaryKeys,
    events: &Vec<SetEmbeddedEllipticCurveKeys>,
    auxiliary_key: &[u8; 32],
    validators: &Vec<(SeraiAddress, KeyShares)>,
) -> (found: bool)
    requires
        keys.wf(),
    ensures
        found == in_set(keys_after(keys@, events@), auxiliary_key@, validators@),
{
    let mut i: usize = 0;
    while i < validators.len()
        invariant
            i <= validators.len(),
            keys.wf(),
            forall|j: int|
                0 <= j < i ==> !is_validator(
                    keys_after(keys@, events@),
                    auxiliary_key@,
                    #[trigger] validators@[j].0,
                ),
        decreases validators.len() - i,
    {
        if let Some(EmbeddedEllipticCurveKeys::Serai(key)) = declared_keys(
            keys,
            events,
            NetworkId::Serai,
            &validators[i].0,
        ) {
            if same_bytes(key.as_slice(), auxiliary_key.as_slice()) {
                assert(is_validator(
                    keys_after(keys@, events@),
                    auxiliary_key@,
                    validators@[i as int].0,
                ));
                return true;
            }
        }
        i += 1;
    }
    false
}

/// Each validator adds no more key shares than it can have.
pub proof fn lemma_total_bound(validators: Seq<(SeraiAddress, KeyShares)>)
    ensures
        total_key_shares(validators) <= validators.len() * u16::MAX,
    decreases validators.len(),
{
    if validators.len() > 0 {
        lemma_total_bound(validators.drop_last());
        assert((validators.len() - 1) * u16::MAX + u16::MAX == validators.len() * u16::MAX)
            by (nonlinear_arith);
    }
}

/// Sum the key shares of validators. The summation is done in `u32`, which a `u16`'s worth of `u16`s
/// doesn't overflow.
fn sum_key_shares(validators: &Vec<(SeraiAddress, KeyShares)>) -> (total: u32)
    requires
        validators@.len() <= u16::MAX,
    ensures
        total == total_key_shares(validators@),
{
    let mut total: u32 = 0;
    let mut i: usize = 0;
    while i < validators.len()
        invariant
            i <= validators.len() <= u16::MAX,
            total == total_key_shares(validators@.take(i as int)),
        decreases validators.len() - i,
    {
        proof {
            assert(validators@.take(i + 1).drop_last() =~= validators@.take(i as int));
            lemma_total_bound(validators@.take(i + 1));
            let next: int = i + 1;
            assert(next * 65535 <= 65535 * 65535) by (nonlinear_arith)
                requires
                    0 <= next <= 65535,
            ;
        }
        total += validators[i].1.0 as u32;
        i += 1;
    }
    assert(validators@.take(i as int) =~= validators@);
    total
}

/// Fetch all of the validators' auxiliary keys.
fn fetch_validators(
    keys: &AuxiliaryKeys,
    events: &Vec<SetEmbeddedEllipticCurveKeys>,
    network: NetworkId,
    validators: &Vec<(SeraiAddress, KeyShares)>,
) -> (fetched: Option<Vec<TributaryValidator>>)
    requires
        keys.wf(),
    ensures
        fetched is Some <==> have_keys(keys_after(keys@, events@), network, validators@),
        fetched matches Some(f) ==> models(f@) == validators@.map_values(
            |v: (SeraiAddress, KeyShares)| validator_of(keys_after(keys@, events@), network, v),
        ),
{
    let ghost all = keys_after(keys@, events@);
    let mut fetched: Vec<TributaryValidator> = Vec::with_capacity(validators.len());
    let mut i: usize = 0;
    while i < validators.len()
        invariant
            i <= validators.len(),
            keys.wf(),
            all == keys_after(keys@, events@),
            fetched@.len() == i,
            forall|j: int|
                0 <= j < i ==> all.contains_key((network, (#[trigger] validators@[j]).0.0@)),
            forall|j: int|
                0 <= j < i ==> (#[trigger] fetched@[j])@ == validator_of(
                    all,
                    network,
                    validators@[j],
                ),
        decreases validators.len() - i,
    {
        match declared_keys(keys, events, network, &validators[i].0) {
            Some(auxiliary_keys) => {
                let validator = TributaryValidator::new(
                    auxiliary_keys.substrate_key(),
                    auxiliary_keys.network_key(),
                    validators[i].1.0,
                );
                assert(validator@ == validator_of(all, network, validators@[i as int]));
                fetched.push(validator);
            },
            None => {
                assert(!all.contains_key((network, validators@[i as int].0.0@)));
                return None;
            },
        }
        i += 1;
    }
    assert(models(fetched@) =~= validators@.map_values(
        |v: (SeraiAddress, KeyShares)| validator_of(all, network, v),
    ));
    Some(fetched)
}

/// The weight of validators is that of the key shares they're decided to have.
proof fn lemma_weight(
    keys: AuxiliaryKeysModel,
    network: NetworkId,
    validators: Seq<(SeraiAddress, KeyShares)>,
)
    ensures
        weight_of(
            validators.map_values(
                |v: (SeraiAddress, KeyShares)| validator_of(keys, network, v),
            ),
        ) == total_key_shares(validators),
    decreases validators.len(),
{
    let of = |v: (SeraiAddress, KeyShares)| validator_of(keys, network, v);
    if validators.len() > 0 {
        lemma_weight(keys, network, validators.drop_last());
        assert(validators.map_values(of).drop_last() =~= validators.drop_last().map_values(of));
    }
}

/// Handle a set which was decided.
fn handle_set_decided(
    keys: &AuxiliaryKeys,
    events: &Vec<SetEmbeddedEllipticCurveKeys>,
    auxiliary_key: &[u8; 32],
    block_hash: BlockHash,
    time: u64,
    event: &SetDecided,
) -> (res: Result<Option<NewSetInformation>, StreamError>)
    requires
        keys.wf(),
    ensures
        match res {
            Ok(set) => {
                let all = keys_after(keys@, events@);
                let announced = new_set(all, auxiliary_key@, block_hash, time, *event);
                &&& decided_failure(all, auxiliary_key@, *event) is None
                &&& set is Some <==> announced is Some
                &&& set matches Some(s) ==> Some(s@) == announced
                    && s.tributary_validators.in_sync()
            },
            Err(error) => decided_failure(
                keys_after(keys@, events@),
                auxiliary_key@,
                *event,
            ) == Some(error),
        },
{
    let set = match event.set.external() {
        Some(set) => set,
        None => return Ok(None),
    };
    if event.validators.len() > u16::MAX as usize {
        return Err(StreamError::TooManyValidators);
    }
    let in_set: bool = are_we_in_set(keys, events, auxiliary_key, &event.validators);
    let total_weight: u32 = sum_key_shares(&event.validators);
    if in_set && total_weight > MAX_KEY_SHARES_PER_SET as u32 {
        return Err(StreamError::TooManyKeyShares { set, key_shares: total_weight });
    }
    match fetch_validators(keys, events, NetworkId::External(set.network), &event.validators) {
        Some(validators) => {
            if !in_set {
                return Ok(None);
            }
            let mut tributary_validators = TributaryValidatorSet {
                validators,
                participant_indexes: Vec::new(),
                participant_indexes_reverse_lookup: Vec::new(),
            };
            proof {
                lemma_weight(
                    keys_after(keys@, events@),
                    NetworkId::External(set.network),
                    event.validators@,
                );
            }
            tributary_validators.init_participant_indexes();
            Ok(
                Some(
                    NewSetInformation {
                        set,
                        serai_block: block_hash.0,
                        declaration_time: time,
                        tributary_validators,
                    },
                ),
            )
        },
        None => Err(StreamError::MissingAuxiliaryKeys),
    }
}

/// Sets announced, by their content.
pub open spec fn new_set_models(sets: Seq<NewSetInformation>) -> Seq<NewSetModel> {
    sets.map_values(|s: NewSetInformation| s@)
}

/// Handle all sets which were decided, in order.
fn handle_sets_decided(
    keys: &AuxiliaryKeys,
    events: &Vec<SetEmbeddedEllipticCurveKeys>,
    auxiliary_key: &[u8; 32],
    block_hash: BlockHash,
    time: u64,
    set_decided_events: &Vec<SetDecided>,
) -> (res: Result<Vec<NewSetInformation>, StreamError>)
    requires
        keys.wf(),
    ensures
        match res {
            Ok(sets) => {
                let all = keys_after(keys@, events@);
                &&& failure(all, auxiliary_key@, set_decided_events@) is None
                &&& new_set_models(sets@) == set_decided_events@.filter_map(
                    announced(all, auxiliary_key@, block_hash, time),
                )
                &&& forall|i: int|
                    0 <= i < sets@.len() ==> (#[trigger] sets@[i]).tributary_validators.in_sync()
            },
            Err(error) => failure(
                keys_after(keys@, events@),
                auxiliary_key@,
                set_decided_events@,
            ) == Some(error),
        },
{
    let ghost all = keys_after(keys@, events@);
    let ghost pick = announced(all, auxiliary_key@, block_hash, time);
    let mut sets: Vec<NewSetInformation> = Vec::new();
    let mut i: usize = 0;
    assert(set_decided_events@.take(0) =~= seq![]);
    assert(new_set_models(sets@) =~= set_decided_events@.take(0).filter_map(pick));
    while i < set_decided_events.len()
        invariant
            i <= set_decided_events.len(),
            keys.wf(),
            all == keys_after(keys@, events@),
            pick == announced(all, auxiliary_key@, block_hash, time),
            failure(all, auxiliary_key@, set_decided_events@.take(i as int)) is None,
            new_set_models(sets@) == set_decided_events@.take(i as int).filter_map(pick),
            forall|j: int|
                0 <= j < sets@.len() ==> (#[trigger] sets@[j]).tributary_validators.in_sync(),
        decreases set_decided_events.len() - i,
    {
        let ghost before = set_decided_events@.take(i as int);
        let ghost event = set_decided_events@[i as int];
        proof {
            assert(set_decided_events@.take(i + 1) =~= before.push(event));
            assert(before.push(event).drop_last() =~= before);
            lemma_filter_map_push(before, event, pick);
        }
        match handle_set_decided(
            keys,
            events,
            auxiliary_key,
            block_hash,
            time,
            &set_decided_events[i],
        ) {
            Ok(Some(set)) => {
                let ghost old_sets = sets@;
                sets.push(set);
                assert(new_set_models(sets@) =~= new_set_models(old_sets).push(set@));
            },
            Ok(None) => {},
            Err(error) => {
                proof {
                    lemma_first_failure(
                        all,
                        auxiliary_key@,
                        set_decided_events@,
                        i + 1,
                    );
                }
                return Err(error);
            },
        }
        i += 1;
    }
    assert(set_decided_events@.take(i as int) =~= set_decided_events@);
    Ok(sets)
}

/// What's wrong with the first of some sets decided is what's wrong with them all.
proof fn lemma_first_failure(
    keys: AuxiliaryKeysModel,
    auxiliary_key: Seq<u8>,
    events: Seq<SetDecided>,
    n: int,
)
    requires
        0 <= n <= events.len(),
        failure(keys, auxiliary_key, events.take(n)) is Some,
    ensures
        failure(keys, auxiliary_key, events) == failure(keys, auxiliary_key, events.take(n)),
    decreases events.len() - n,
{
    if n < events.len() {
        assert(events.take(n + 1).drop_last() =~= events.take(n));
        lemma_first_failure(keys, auxiliary_key, events, n + 1);
    } else {
        assert(events.take(n) =~= events);
    }
}

/// Set all keys which were declared, in order.
fn set_declared_keys(keys: &mut AuxiliaryKeys, events: &Vec<SetEmbeddedEllipticCurveKeys>)
    requires
        old(keys).wf(),
    ensures
        final(keys).wf(),
        final(keys)@ == keys_after(old(keys)@, events@),
{
    let ghost before = keys@;
    let mut i: usize = 0;
    while i < events.len()
        invariant
            i <= events.len(),
            keys.wf(),
            keys@ == keys_after(before, events@.take(i as int)),
        decreases events.len() - i,
    {
        assert(events@.take(i + 1).drop_last() =~= events@.take(i as int));
        keys.set(events[i].validator, events[i].keys);
        i += 1;
    }
    assert(events@.take(i as int) =~= events@);
}

/// Get the sets which are to sign a slash report, for having accepted a handover.
fn handle_accepted_handovers(events: &Vec<AcceptedHandover>) -> (sets: Vec<ExternalValidatorSet>)
    ensures
        sets@ == handovers(events@),
{
    let mut sets: Vec<ExternalValidatorSet> = Vec::new();
    let mut i: usize = 0;
    while i < events.len()
        invariant
            i <= events.len(),
            sets@ == handovers(events@.take(i as int)),
        decreases events.len() - i,
    {
        proof {
            assert(events@.take(i + 1) =~= events@.take(i as int).push(events@[i as int]));
            lemma_filter_map_push(
                events@.take(i as int),
                events@[i as int],
                |e: AcceptedHandover| e.set.external(),
            );
        }
        if let Some(set) = events[i].set.external() {
            sets.push(set);
        }
        i += 1;
    }
    assert(events@.take(i as int) =~= events@);
    sets
}

/// What this stream keeps in the DB.
#[derive(PartialEq, Eq, Debug)]
pub struct EphemeralDb {
    /// The block to scan from.
    pub scan_from: Option<u64>,
    /// The sets announced, in order.
    pub new_sets: Vec<NewSetInformation>,
    /// The sets which were notified to sign a slash report, in order.
    pub sign_slash_reports: Vec<ExternalValidatorSet>,
}

/// The content of an [`EphemeralDb`].
#[verifier::ext_equal]
pub struct EphemeralModel {
    pub scan_from: Option<u64>,
    pub new_sets: Seq<NewSetModel>,
    pub sign_slash_reports: Seq<ExternalValidatorSet>,
}

impl View for EphemeralDb {
    type V = EphemeralModel;

    open spec fn view(&self) -> EphemeralModel {
        EphemeralModel {
            scan_from: self.scan_from,
            new_sets: new_set_models(self.new_sets@),
            sign_slash_reports: self.sign_slash_reports@,
        }
    }
}

impl EphemeralModel {
    /// Whether nothing was written.
    pub open spec fn is_new(self) -> bool {
        &&& self.scan_from is None
        &&& self.new_sets.len() == 0
        &&& self.sign_slash_reports.len() == 0
    }

    /// The block scanning starts from.
    pub open spec fn start(self) -> u64 {
        match self.scan_from {
            Some(number) => number,
            None => 0,
        }
    }

    /// This, once a block with nothing wrong was indexed, the auxiliary keys being those after the
    /// block.
    pub open spec fn indexed(
        self,
        keys: AuxiliaryKeysModel,
        auxiliary_key: Seq<u8>,
        block_number: u64,
        block: EphemeralEventsModel,
    ) -> EphemeralModel {
        EphemeralModel {
            scan_from: Some((block_number + 1) as u64),
            new_sets: self.new_sets + block.set_decided_events.filter_map(
                announced(keys, auxiliary_key, block.block_hash, block.time),
            ),
            sign_slash_reports: self.sign_slash_reports + handovers(block.accepted_handover_events),
        }
    }
}

impl EphemeralDb {
    /// The participant indexes of every set announced are those of its validators.
    pub open spec fn wf(&self) -> bool {
        forall|i: int|
            0 <= i < self.new_sets@.len() ==> (
            #[trigger] self.new_sets@[i]).tributary_validators.in_sync()
    }

    /// A DB which nothing was written to.
    pub fn new() -> (db: Self)
        ensures
            db.wf(),
            db@.is_new(),
    {
        EphemeralDb { scan_from: None, new_sets: Vec::new(), sign_slash_reports: Vec::new() }
    }

    /// Index a block, unless something's wrong with it.
    pub fn index(
        &mut self,
        keys: &mut AuxiliaryKeys,
        auxiliary_key: &[u8; 32],
        block_number: u64,
        block: EphemeralEvents,
    ) -> (res: Result<(), StreamError>)
        requires
            old(self).wf(),
            old(keys).wf(),
            block_number < u64::MAX,
        ensures
            final(self).wf(),
            final(keys).wf(),
            match res {
                Ok(()) => {
                    let all = keys_after(
                        old(keys)@,
                        block@.embedded_elliptic_curve_keys_events,
                    );
                    &&& failure(all, auxiliary_key@, block@.set_decided_events) is None
                    &&& final(keys)@ == all
                    &&& final(self)@ == old(self)@.indexed(
                        all,
                        auxiliary_key@,
                        block_number,
                        block@,
                    )
                },
                Err(error) => {
                    let all = keys_after(
                        old(keys)@,
                        block@.embedded_elliptic_curve_keys_events,
                    );
                    &&& failure(all, auxiliary_key@, block@.set_decided_events) == Some(error)
                    &&& *final(keys) == *old(keys)
                    &&& *final(self) == *old(self)
                },
            },
    {
        let ghost before = *self;
        let mut sets = match handle_sets_decided(
            keys,
            &block.embedded_elliptic_curve_keys_events,
            auxiliary_key,
            block.block_hash,
            block.time,
            &block.set_decided_events,
        ) {
            Ok(sets) => sets,
            Err(error) => return Err(error),
        };
        let mut reports = handle_accepted_handovers(&block.accepted_handover_events);
        let ghost announced_sets = sets@;
        set_declared_keys(keys, &block.embedded_elliptic_curve_keys_events);
        self.new_sets.append(&mut sets);
        self.sign_slash_reports.append(&mut reports);
        self.scan_from = Some(block_number + 1);
        proof {
            assert(self.new_sets@ =~= before.new_sets@ + announced_sets);
            assert(new_set_models(self.new_sets@) =~= new_set_models(before.new_sets@)
                + new_set_models(announced_sets));
            assert forall|i: int| 0 <= i < self.new_sets@.len() implies (
            #[trigger] self.new_sets@[i]).tributary_validators.in_sync() by {
                if i < before.new_sets@.len() {
                    assert(self.new_sets@[i] == before.new_sets@[i]);
                } else {
                    assert(self.new_sets@[i] == announced_sets[i - before.new_sets@.len()]);
                }
            }
        }
        Ok(())
    }
}

/// Only sets which we're in are announced, each with all of its validators, by the block's hash and
/// time.
pub proof fn announced_sets_are_ours(
    keys: AuxiliaryKeysModel,
    auxiliary_key: Seq<u8>,
    block: EphemeralEventsModel,
    i: int,
)
    requires
        0 <= i < block.set_decided_events.filter_map(
            announced(keys, auxiliary_key, block.block_hash, block.time),
        ).len(),
    ensures
        ({
            let set = block.set_decided_events.filter_map(
                announced(keys, auxiliary_key, block.block_hash, block.time),
            )[i];
            &&& set.serai_block == block.block_hash.0
            &&& set.declaration_time == block.time
            &&& exists|j: int|
                {
                    let event = #[trigger] block.set_decided_events[j];
                    &&& 0 <= j < block.set_decided_events.len()
                    &&& event.set.external() == Some(set.set)
                    &&& in_set(keys, auxiliary_key, event.validators@)
                    &&& set.validators.len() == event.validators@.len()
                }
        }),
{
    lemma_announced(keys, auxiliary_key, block.block_hash, block.time, block.set_decided_events, i);
}

/// What's announced is of one of the sets decided.
proof fn lemma_announced(
    keys: AuxiliaryKeysModel,
    auxiliary_key: Seq<u8>,
    block_hash: BlockHash,
    time: u64,
    events: Seq<SetDecided>,
    i: int,
)
    requires
        0 <= i < events.filter_map(announced(keys, auxiliary_key, block_hash, time)).len(),
    ensures
        exists|j: int|
            0 <= j < events.len() && new_set(
                keys,
                auxiliary_key,
                block_hash,
                time,
                #[trigger] events[j],
            ) == Some(
                events.filter_map(announced(keys, auxiliary_key, block_hash, time))[i],
            ),
    decreases events.len(),
{
    let pick = announced(keys, auxiliary_key, block_hash, time);
    if events.len() > 0 {
        let rest = events.drop_last();
        assert(events =~= rest.push(events.last()));
        lemma_filter_map_push(rest, events.last(), pick);
        if i < rest.filter_map(pick).len() {
            lemma_announced(keys, auxiliary_key, block_hash, time, rest, i);
            let j = choose|j: int|
                0 <= j < rest.len() && new_set(
                    keys,
                    auxiliary_key,
                    block_hash,
                    time,
                    #[trigger] rest[j],
                ) == Some(rest.filter_map(pick)[i]);
            assert(events[j] == rest[j]);
        } else {
            assert(events[events.len() - 1] == events.last());
        }
    }
}

/// The keys a validator last declared for a network are the ones found, and all keys found which
/// weren't declared in the block are the ones from before it.
pub proof fn declared_keys_are_found(
    keys: AuxiliaryKeysModel,
    events: Seq<SetEmbeddedEllipticCurveKeys>,
    network: NetworkId,
    validator: Seq<u8>,
    i: int,
)
    requires
        -1 <= i < events.len(),
        i >= 0 ==> events[i].keys.network() == network && events[i].validator.0@ == validator,
        forall|j: int|
            i < j < events.len() ==> !((#[trigger] events[j]).keys.network() == network
                && events[j].validator.0@ == validator),
    ensures
        i >= 0 ==> keys_after(keys, events).contains_key((network, validator)) && keys_after(
            keys,
            events,
        )[(network, validator)] == events[i].keys,
        i == -1 ==> keys_after(keys, events).contains_key((network, validator))
            == keys.contains_key((network, validator)),
        i == -1 && keys.contains_key((network, validator)) ==> keys_after(keys, events)[(
            network,
            validator,
        )] == keys[(network, validator)],
    decreases events.len(),
{
    if events.len() > 0 {
        let rest = events.drop_last();
        if i < events.len() - 1 {
            assert(events[events.len() - 1] == events.last());
            assert forall|j: int| i < j < rest.len() implies !((
            #[trigger] rest[j]).keys.network() == network && rest[j].validator.0@ == validator) by {
                assert(rest[j] == events[j]);
            }
            declared_keys_are_found(keys, rest, network, validator, i);
        }
    }
}

/// The keys found for a network always are for that network, so a set for an external network never
/// has a validator with a key for Serai.
pub proof fn keys_are_for_their_network(
    keys: AuxiliaryKeysModel,
    events: Seq<SetEmbeddedEllipticCurveKeys>,
    key: (NetworkId, Seq<u8>),
)
    requires
        keys_after(keys, events).contains_key(key),
        keys.contains_key(key) ==> keys[key].network() == key.0,
    ensures
        keys_after(keys, events)[key].network() == key.0,
    decreases events.len(),
{
    if events.len() > 0 {
        if key != (events.last().keys.network(), events.last().validator.0@) {
            keys_are_for_their_network(keys, events.drop_last(), key);
        }
    }
}

/// Where nothing's wrong with the sets decided, each set announced has no more key shares than a set
/// may have, and the key shares of its validators are those they were decided to have.
pub proof fn announced_sets_fit(
    keys: AuxiliaryKeysModel,
    auxiliary_key: Seq<u8>,
    block: EphemeralEventsModel,
    i: int,
)
    requires
        failure(keys, auxiliary_key, block.set_decided_events) is None,
        0 <= i < block.set_decided_events.filter_map(
            announced(keys, auxiliary_key, block.block_hash, block.time),
        ).len(),
    ensures
        weight_of(
            block.set_decided_events.filter_map(
                announced(keys, auxiliary_key, block.block_hash, block.time),
            )[i].validators,
        ) <= MAX_KEY_SHARES_PER_SET,
{
    let events = block.set_decided_events;
    let pick = announced(keys, auxiliary_key, block.block_hash, block.time);
    lemma_announced(keys, auxiliary_key, block.block_hash, block.time, events, i);
    let j = choose|j: int|
        0 <= j < events.len() && new_set(
            keys,
            auxiliary_key,
            block.block_hash,
            block.time,
            #[trigger] events[j],
        ) == Some(events.filter_map(pick)[i]);
    nothing_wrong_with_any_set(keys, auxiliary_key, events, j);
    let set = events[j].set.external()->Some_0;
    lemma_weight(keys, NetworkId::External(set.network), events[j].validators@);
}

/// Where nothing's wrong with the sets decided, there's nothing wrong with any of them.
pub proof fn nothing_wrong_with_any_set(
    keys: AuxiliaryKeysModel,
    auxiliary_key: Seq<u8>,
    events: Seq<SetDecided>,
    j: int,
)
    requires
        failure(keys, auxiliary_key, events) is None,
        0 <= j < events.len(),
    ensures
        decided_failure(keys, auxiliary_key, events[j]) is None,
    decreases events.len(),
{
    if j < events.len() - 1 {
        nothing_wrong_with_any_set(keys, auxiliary_key, events.drop_last(), j);
    }
}

} // verus!
