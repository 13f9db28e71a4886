//! What the ephemeral event stream is for: what's fetched of a block, which validator sets are
//! announced, and which are notified to sign a slash report, in terms of the node's answers, the
//! block's events, and the auxiliary keys.
use crate::auxiliary_keys::{AuxiliaryKeysModel, EmbeddedEllipticCurveKeys};
use crate::canonical_laws::{all_events, is_cosigned, lemma_all_events_contains, not_cosigned_error};
use crate::cosign::Cosigning;
use crate::ephemeral::{
    announced, decided_failure, declared_keys_are_found, failure, in_set, new_set,
    total_key_shares, EphemeralEventsModel,
};
use crate::ephemeral_stream::{
    accepted_handover_event, keys_event, set_decided_event, EphemeralEventStream, EphemeralState,
};
use crate::errors::StreamError;
use crate::events::{AcceptedHandover, Event, SetDecided, SetEmbeddedEllipticCurveKeys};
use crate::network_id::{ExternalNetworkId, NetworkId};
use crate::node::Replies;
use crate::primitives::{ExternalValidatorSet, KeyShares, SeraiAddress};
use crate::seqs::lemma_filter_map_is_filter;
use crate::task::RangeProcessor;
use vstd::prelude::*;

verus! {

/// The network which auxiliary keys are for.
pub open spec fn network_of(keys: EmbeddedEllipticCurveKeys) -> NetworkId {
    if keys is Serai {
        NetworkId::Serai
    } else if keys is Bitcoin {
        NetworkId::External(ExternalNetworkId::Bitcoin)
    } else if keys is Ethereum {
        NetworkId::External(ExternalNetworkId::Ethereum)
    } else {
        NetworkId::External(ExternalNetworkId::Monero)
    }
}

/// Whether a key is the one which auxiliary keys hold for Substrate: the first.
pub open spec fn is_substrate_key_of(key: Seq<u8>, keys: EmbeddedEllipticCurveKeys) -> bool {
    match keys {
        EmbeddedEllipticCurveKeys::Serai(substrate) => key == substrate@,
        EmbeddedEllipticCurveKeys::Bitcoin(substrate, _) => key == substrate@,
        EmbeddedEllipticCurveKeys::Ethereum(substrate, _) => key == substrate@,
        EmbeddedEllipticCurveKeys::Monero(substrate) => key == substrate@,
    }
}

/// Whether a key is the one which auxiliary keys hold for their network: the last.
pub open spec fn is_network_key_of(key: Seq<u8>, keys: EmbeddedEllipticCurveKeys) -> bool {
    match keys {
        EmbeddedEllipticCurveKeys::Serai(only) => key == only@,
        EmbeddedEllipticCurveKeys::Bitcoin(_, external) => key == external@,
        EmbeddedEllipticCurveKeys::Ethereum(_, external) => key == external@,
        EmbeddedEllipticCurveKeys::Monero(only) => key == only@,
    }
}

/// Whether the keys held for a validator, for Serai, are our auxiliary key.
pub open spec fn holds_our_key(
    keys: AuxiliaryKeysModel,
    ours: Seq<u8>,
    validator: SeraiAddress,
) -> bool {
    &&& keys.contains_key((NetworkId::Serai, validator.0@))
    &&& keys[(NetworkId::Serai, validator.0@)] is Serai
    &&& keys[(NetworkId::Serai, validator.0@)]->Serai_0@ == ours
}

/// A set decided for an external network, one of whose validators is ours, wherever it's listed.
pub open spec fn is_our_set(keys: AuxiliaryKeysModel, ours: Seq<u8>) -> spec_fn(SetDecided) -> bool {
    |e: SetDecided|
        {
            &&& !(e.set.network is Serai)
            &&& exists|k: int|
                0 <= k < e.validators@.len() && holds_our_key(
                    keys,
                    ours,
                    (#[trigger] e.validators@[k]).0,
                )
        }
}

/// The sum of all of the validators' key shares.
pub open spec fn sum_of_shares(validators: Seq<(SeraiAddress, KeyShares)>) -> int {
    validators.map_values(|v: (SeraiAddress, KeyShares)| v.1.0 as int).fold_left(
        0,
        |sum: int, shares: int| sum + shares,
    )
}

/// Whether nothing's wrong with a set decided: it's for Serai itself, or it has no more than 65535
/// validators, no more than 127 key shares if it's ours, and each of its validators has auxiliary keys
/// for the set's network.
pub open spec fn set_is_fine(keys: AuxiliaryKeysModel, ours: Seq<u8>, event: SetDecided) -> bool {
    event.set.network is Serai || {
        &&& event.validators@.len() <= 65535
        &&& is_our_set(keys, ours)(event) ==> sum_of_shares(event.validators@) <= 127
        &&& forall|k: int|
            0 <= k < event.validators@.len() ==> keys.contains_key(
                (event.set.network, (#[trigger] event.validators@[k]).0.0@),
            )
    }
}

/// The total is the sum.
proof fn lemma_total_is_sum(validators: Seq<(SeraiAddress, KeyShares)>)
    ensures
        total_key_shares(validators) == sum_of_shares(validators),
    decreases validators.len(),
{
    let shares = |v: (SeraiAddress, KeyShares)| v.1.0 as int;
    if validators.len() > 0 {
        lemma_total_is_sum(validators.drop_last());
        assert(validators.map_values(shares).drop_last() =~= validators.drop_last().map_values(
            shares,
        ));
    }
}

/// To be in a set is to have our key held for any of its validators.
proof fn lemma_in_set(keys: AuxiliaryKeysModel, ours: Seq<u8>, event: SetDecided)
    ensures
        !(event.set.network is Serai) ==> (in_set(keys, ours, event.validators@) <==> is_our_set(
            keys,
            ours,
        )(event)),
        event.set.network is Serai <==> event.set.external() is None,
        event.set.network matches NetworkId::External(network) ==> event.set.external() == Some(
            ExternalValidatorSet { network, session: event.set.session },
        ),
{
    let validators = event.validators@;
    if in_set(keys, ours, validators) {
        let k = choose|k: int|
            0 <= k < validators.len() && crate::ephemeral::is_validator(
                keys,
                ours,
                #[trigger] validators[k].0,
            );
        assert(holds_our_key(keys, ours, validators[k].0));
    }
    if exists|k: int|
        0 <= k < validators.len() && holds_our_key(keys, ours, (#[trigger] validators[k]).0) {
        let k = choose|k: int|
            0 <= k < validators.len() && holds_our_key(keys, ours, (#[trigger] validators[k]).0);
        assert(crate::ephemeral::is_validator(keys, ours, validators[k].0));
    }
}

/// Nothing's wrong with a set exactly if it's fine.
proof fn lemma_set_is_fine(keys: AuxiliaryKeysModel, ours: Seq<u8>, event: SetDecided)
    ensures
        decided_failure(keys, ours, event) is None <==> set_is_fine(keys, ours, event),
{
    lemma_in_set(keys, ours, event);
    lemma_total_is_sum(event.validators@);
}

/// Nothing's wrong with sets exactly if each is fine.
proof fn lemma_all_fine(keys: AuxiliaryKeysModel, ours: Seq<u8>, events: Seq<SetDecided>)
    ensures
        failure(keys, ours, events) is None <==> (forall|j: int|
            0 <= j < events.len() ==> set_is_fine(keys, ours, #[trigger] events[j])),
    decreases events.len(),
{
    if events.len() > 0 {
        let rest = events.drop_last();
        lemma_all_fine(keys, ours, rest);
        lemma_set_is_fine(keys, ours, events.last());
        assert(events[events.len() - 1] == events.last());
        if failure(keys, ours, events) is None {
            assert forall|j: int| 0 <= j < events.len() implies set_is_fine(
                keys,
                ours,
                #[trigger] events[j],
            ) by {
                if j < rest.len() {
                    assert(rest[j] == events[j]);
                }
            }
        }
        if forall|j: int| 0 <= j < events.len() ==> set_is_fine(keys, ours, #[trigger] events[j]) {
            assert forall|j: int| 0 <= j < rest.len() implies set_is_fine(
                keys,
                ours,
                #[trigger] rest[j],
            ) by {
                assert(rest[j] == events[j]);
            }
            assert(set_is_fine(keys, ours, events[events.len() - 1]));
        }
    }
}

/// The first of the sets which isn't fine decides on the error.
proof fn lemma_first_wrong(keys: AuxiliaryKeysModel, ours: Seq<u8>, events: Seq<SetDecided>) -> (j:
    int)
    requires
        failure(keys, ours, events) is Some,
    ensures
        0 <= j < events.len(),
        failure(keys, ours, events) == decided_failure(keys, ours, events[j]),
        forall|i: int| 0 <= i < j ==> set_is_fine(keys, ours, #[trigger] events[i]),
    decreases events.len(),
{
    let rest = events.drop_last();
    if failure(keys, ours, rest) is Some {
        let j = lemma_first_wrong(keys, ours, rest);
        assert forall|i: int| 0 <= i < j implies set_is_fine(keys, ours, #[trigger] events[i]) by {
            assert(rest[i] == events[i]);
        }
        j
    } else {
        lemma_all_fine(keys, ours, rest);
        assert forall|i: int| 0 <= i < rest.len() implies set_is_fine(
            keys,
            ours,
            #[trigger] events[i],
        ) by {
            assert(rest[i] == events[i]);
        }
        events.len() - 1
    }
}

/// A block is processed exactly if each set it decided is fine, by the auxiliary keys held after the
/// block. Where a block isn't, the first set which isn't fine is why: there are too many validators;
/// or there aren't, and it's ours and has too many key shares, which are summed up in the error; or
/// neither holds, and a validator lacks keys for the set's network.
pub proof fn only_wrong_sets_are_rejected(
    state: EphemeralState,
    number: u64,
    block: EphemeralEventsModel,
) -> (j: int)
    ensures
        ({
            let keys = EphemeralEventStream::processed(state, number, block).db.auxiliary_keys;
            let ours = state.public_serai_auxiliary_key;
            let events = block.set_decided_events;
            let rejects = EphemeralEventStream::rejects(state, number, block);
            &&& rejects is None <==> (forall|i: int|
                0 <= i < events.len() ==> set_is_fine(keys, ours, #[trigger] events[i]))
            &&& rejects matches Some(error) ==> {
                let validators = events[j].validators@;
                let too_many_shares = is_our_set(keys, ours)(events[j]) && sum_of_shares(
                    validators,
                ) > 127;
                &&& 0 <= j < events.len()
                &&& forall|i: int| 0 <= i < j ==> set_is_fine(keys, ours, #[trigger] events[i])
                &&& !set_is_fine(keys, ours, events[j])
                &&& validators.len() > 65535 ==> error is TooManyValidators
                &&& validators.len() <= 65535 && too_many_shares ==> (error matches
                    StreamError::TooManyKeyShares { set, key_shares } && key_shares
                    == sum_of_shares(validators) && events[j].set.network == NetworkId::External(
                    set.network,
                ) && set.session == events[j].set.session)
                &&& validators.len() <= 65535 && !too_many_shares ==> error is MissingAuxiliaryKeys
            }
        }),
{
    let keys = EphemeralEventStream::processed(state, number, block).db.auxiliary_keys;
    let ours = state.public_serai_auxiliary_key;
    let events = block.set_decided_events;
    lemma_all_fine(keys, ours, events);
    if EphemeralEventStream::rejects(state, number, block) is Some {
        let j = lemma_first_wrong(keys, ours, events);
        lemma_in_set(keys, ours, events[j]);
        lemma_set_is_fine(keys, ours, events[j]);
        lemma_total_is_sum(events[j].validators@);
        if events[j].validators@.len() <= 65535 {
            crate::ephemeral::lemma_total_bound(events[j].validators@);
            let len = events[j].validators@.len();
            assert(len * 65535 <= 65535 * 65535) by (nonlinear_arith)
                requires
                    0 <= len <= 65535,
            ;
        }
        j
    } else {
        0
    }
}

/// Of a processed block, exactly the sets decided for an external network which have our validator
/// anywhere among theirs are announced, each once, in order, after all which were before. What's
/// announced is the set's network and session, the block's hash and time, and each of the set's
/// validators, in order, by the keys held for it after the block, with its key shares.
pub proof fn our_sets_are_announced(
    state: EphemeralState,
    number: u64,
    block: EphemeralEventsModel,
)
    ensures
        ({
            let after = EphemeralEventStream::processed(state, number, block).db;
            let keys = after.auxiliary_keys;
            let before = state.db.ephemeral.new_sets;
            let sets = block.set_decided_events.filter(
                is_our_set(keys, state.public_serai_auxiliary_key),
            );
            let told = after.ephemeral.new_sets;
            &&& told.len() == before.len() + sets.len()
            &&& forall|i: int| 0 <= i < before.len() ==> #[trigger] told[i] == before[i]
            &&& forall|i: int|
                0 <= i < sets.len() ==> {
                    let told_set = #[trigger] told[before.len() + i];
                    &&& sets[i].set.network == NetworkId::External(told_set.set.network)
                    &&& told_set.set.session == sets[i].set.session
                    &&& told_set.serai_block == block.block_hash.0
                    &&& told_set.declaration_time == block.time
                    &&& told_set.validators.len() == sets[i].validators@.len()
                    &&& forall|k: int|
                        0 <= k < sets[i].validators@.len() ==> {
                            let (address, shares) = sets[i].validators@[k];
                            let held = keys[(sets[i].set.network, address.0@)];
                            &&& (#[trigger] told_set.validators[k]).weight == shares.0
                            &&& is_substrate_key_of(told_set.validators[k].substrate_key, held)
                            &&& is_network_key_of(told_set.validators[k].network_key, held)
                        }
                }
        }),
{
    let after = EphemeralEventStream::processed(state, number, block).db;
    let keys = after.auxiliary_keys;
    let ours = state.public_serai_auxiliary_key;
    let before = state.db.ephemeral.new_sets;
    let events = block.set_decided_events;
    let pick = announced(keys, ours, block.block_hash, block.time);
    let keep = is_our_set(keys, ours);
    let map = |e: SetDecided| pick(e)->Some_0;
    let sets = events.filter(keep);
    assert forall|i: int| 0 <= i < events.len() implies pick(#[trigger] events[i]) == if keep(
        events[i],
    ) {
        Some(map(events[i]))
    } else {
        None
    } by {
        lemma_in_set(keys, ours, events[i]);
    }
    lemma_filter_map_is_filter(events, pick, keep, map);
    let told = after.ephemeral.new_sets;
    assert(told =~= before + sets.map_values(map));
    assert forall|i: int| 0 <= i < sets.len() implies {
        let told_set = #[trigger] told[before.len() + i];
        &&& sets[i].set.network == NetworkId::External(told_set.set.network)
        &&& told_set.set.session == sets[i].set.session
        &&& told_set.serai_block == block.block_hash.0
        &&& told_set.declaration_time == block.time
        &&& told_set.validators.len() == sets[i].validators@.len()
        &&& forall|k: int|
            0 <= k < sets[i].validators@.len() ==> {
                let (address, shares) = sets[i].validators@[k];
                let held = keys[(sets[i].set.network, address.0@)];
                &&& (#[trigger] told_set.validators[k]).weight == shares.0
                &&& is_substrate_key_of(told_set.validators[k].substrate_key, held)
                &&& is_network_key_of(told_set.validators[k].network_key, held)
            }
    } by {
        events.lemma_filter_pred(keep, i);
        lemma_in_set(keys, ours, sets[i]);
        assert(told[before.len() + i] == map(sets[i]));
    }
}

/// Whichever position our validator is listed at, the set is announced.
pub proof fn a_set_with_us_at_any_position_is_announced(
    state: EphemeralState,
    number: u64,
    block: EphemeralEventsModel,
    j: int,
    k: int,
)
    requires
        0 <= j < block.set_decided_events.len(),
        0 <= k < block.set_decided_events[j].validators@.len(),
        !(block.set_decided_events[j].set.network is Serai),
        ({
            let keys = EphemeralEventStream::processed(state, number, block).db.auxiliary_keys;
            let key = (NetworkId::Serai, block.set_decided_events[j].validators@[k].0.0@);
            &&& keys.contains_key(key)
            &&& keys[key] is Serai
            &&& keys[key]->Serai_0@ == state.public_serai_auxiliary_key
        }),
    ensures
        ({
            let after = EphemeralEventStream::processed(state, number, block).db;
            let event = block.set_decided_events[j];
            let before = state.db.ephemeral.new_sets.len();
            &&& new_set(
                after.auxiliary_keys,
                state.public_serai_auxiliary_key,
                block.block_hash,
                block.time,
                event,
            ) is Some
            &&& exists|i: int|
                {
                    &&& before <= i < after.ephemeral.new_sets.len()
                    &&& event.set.network == NetworkId::External(
                        (#[trigger] after.ephemeral.new_sets[i]).set.network,
                    )
                    &&& after.ephemeral.new_sets[i].set.session == event.set.session
                    &&& after.ephemeral.new_sets[i].validators.len() == event.validators@.len()
                }
        }),
{
    let after = EphemeralEventStream::processed(state, number, block).db;
    let keys = after.auxiliary_keys;
    let ours = state.public_serai_auxiliary_key;
    let events = block.set_decided_events;
    let keep = is_our_set(keys, ours);
    assert(holds_our_key(keys, ours, events[j].validators@[k].0));
    lemma_in_set(keys, ours, events[j]);
    our_sets_are_announced(state, number, block);
    events.lemma_filter_contains(keep, j);
    let sets = events.filter(keep);
    let i = choose|i: int| 0 <= i < sets.len() && sets[i] == events[j];
    let at = state.db.ephemeral.new_sets.len() + i;
    assert(after.ephemeral.new_sets[at].set.session == sets[i].set.session);
}

/// A handover which an external network's set accepted.
pub open spec fn is_external_handover() -> spec_fn(AcceptedHandover) -> bool {
    |e: AcceptedHandover| !(e.set.network is Serai)
}

/// Of a processed block, each set which accepted a handover, of any network but Serai itself, is
/// notified to sign a slash report, by its network and session, once for each handover, in order, after
/// all which were before. Scanning goes on with the following block.
pub proof fn sets_with_a_handover_are_notified(
    state: EphemeralState,
    number: u64,
    block: EphemeralEventsModel,
)
    requires
        number < u64::MAX,
    ensures
        ({
            let after = EphemeralEventStream::processed(state, number, block).db;
            let before = state.db.ephemeral.sign_slash_reports;
            let accepted = block.accepted_handover_events.filter(is_external_handover());
            let notified = after.ephemeral.sign_slash_reports;
            &&& notified.len() == before.len() + accepted.len()
            &&& forall|i: int| 0 <= i < before.len() ==> #[trigger] notified[i] == before[i]
            &&& forall|i: int|
                0 <= i < accepted.len() ==> {
                    &&& accepted[i].set.network == NetworkId::External(
                        (#[trigger] notified[before.len() + i]).network,
                    )
                    &&& notified[before.len() + i].session == accepted[i].set.session
                }
            &&& after.ephemeral.scan_from == Some((number + 1) as u64)
            &&& after.cosigning == state.db.cosigning
            &&& after.canonical == state.db.canonical
        }),
{
    let after = EphemeralEventStream::processed(state, number, block).db;
    let before = state.db.ephemeral.sign_slash_reports;
    let events = block.accepted_handover_events;
    let map = |e: AcceptedHandover| e.set.external()->Some_0;
    lemma_filter_map_is_filter(
        events,
        |e: AcceptedHandover| e.set.external(),
        is_external_handover(),
        map,
    );
    let accepted = events.filter(is_external_handover());
    let notified = after.ephemeral.sign_slash_reports;
    assert(notified =~= before + accepted.map_values(map));
    assert forall|i: int| 0 <= i < accepted.len() implies {
        &&& accepted[i].set.network == NetworkId::External(
            (#[trigger] notified[before.len() + i]).network,
        )
        &&& notified[before.len() + i].session == accepted[i].set.session
    } by {
        events.lemma_filter_pred(is_external_handover(), i);
        assert(notified[before.len() + i] == map(accepted[i]));
    }
}

/// After a processed block, the keys held for a validator and a network are the last which the
/// validator declared for the network in the block. Where it declared none, they're what was held
/// before, if anything was. `i` is the position of the last such declaration, or `-1`.
pub proof fn last_declared_keys_are_held(
    state: EphemeralState,
    number: u64,
    block: EphemeralEventsModel,
    network: NetworkId,
    validator: Seq<u8>,
    i: int,
)
    requires
        -1 <= i < block.embedded_elliptic_curve_keys_events.len(),
        i >= 0 ==> network_of(block.embedded_elliptic_curve_keys_events[i].keys) == network
            && block.embedded_elliptic_curve_keys_events[i].validator.0@ == validator,
        forall|j: int|
            i < j < block.embedded_elliptic_curve_keys_events.len() ==> !(network_of(
                (#[trigger] block.embedded_elliptic_curve_keys_events[j]).keys,
            ) == network && block.embedded_elliptic_curve_keys_events[j].validator.0@
                == validator),
    ensures
        ({
            let held = EphemeralEventStream::processed(state, number, block).db.auxiliary_keys;
            let before = state.db.auxiliary_keys;
            let key = (network, validator);
            &&& i >= 0 ==> held.contains_key(key) && held[key]
                == block.embedded_elliptic_curve_keys_events[i].keys
            &&& i == -1 ==> held.contains_key(key) == before.contains_key(key)
            &&& i == -1 && before.contains_key(key) ==> held[key] == before[key]
        }),
{
    let events = block.embedded_elliptic_curve_keys_events;
    assert forall|j: int| i < j < events.len() implies !((#[trigger] events[j]).keys.network()
        == network && events[j].validator.0@ == validator) by {
        assert(network_of(events[j].keys) == events[j].keys.network());
    }
    declared_keys_are_found(state.db.auxiliary_keys, events, network, validator, i);
}

/// An event of auxiliary keys having been declared.
pub open spec fn is_keys_declared() -> spec_fn(Event) -> bool {
    |e: Event| e is SetEmbeddedEllipticCurveKeys
}

/// An event of a set having been decided.
pub open spec fn is_set_decided() -> spec_fn(Event) -> bool {
    |e: Event| e is SetDecided
}

/// An event of a handover having been accepted.
pub open spec fn is_accepted_handover() -> spec_fn(Event) -> bool {
    |e: Event| e is AcceptedHandover
}

/// A block's item is fetched exactly if the block is cosigned and the node answers both requests, with
/// a block. It has the block's number and hash, the time in whole seconds, and every event of each kind,
/// of every transaction, in order. Else, the error says what was missing, the block being requested
/// before its events.
pub proof fn all_ephemeral_events_are_fetched(cosigning: Cosigning, number: u64, replies: Replies)
    ensures
        ({
            let res = EphemeralEventStream::fetch(cosigning, number, replies);
            let hash = cosigning.substrate_block_hashes@[number];
            &&& !is_cosigned(cosigning, number) ==> (res matches Err(error) && error
                == not_cosigned_error(cosigning, number))
            &&& is_cosigned(cosigning, number) ==> match replies.block {
                Err(message) => res matches Err(error) && error == (StreamError::BlockRpc {
                    block_hash: hash,
                    error: message,
                }),
                Ok(None) => res matches Err(error) && error == (StreamError::MissingBlock {
                    block_number: number,
                }),
                Ok(Some(block)) => match replies.events {
                    Err(message) => res matches Err(error) && error == (StreamError::EventsRpc {
                        block_hash: hash,
                        error: message,
                    }),
                    Ok(transactions) => res matches Ok((fetched, item)) && {
                        let events = all_events(transactions@);
                        &&& fetched == number
                        &&& item.block_hash == hash
                        &&& 1000 * item.time <= block.unix_time_in_millis < 1000 * item.time + 1000
                        &&& item.embedded_elliptic_curve_keys_events == events.filter(
                            is_keys_declared(),
                        ).map_values(|e: Event| e->SetEmbeddedEllipticCurveKeys_0)
                        &&& item.set_decided_events == events.filter(is_set_decided()).map_values(
                            |e: Event| e->SetDecided_0,
                        )
                        &&& item.accepted_handover_events == events.filter(
                            is_accepted_handover(),
                        ).map_values(|e: Event| e->AcceptedHandover_0)
                    },
                },
            }
        }),
{
    if is_cosigned(cosigning, number) {
        if let Ok(transactions) = replies.events {
            let events = all_events(transactions@);
            lemma_filter_map_is_filter(
                events,
                |e: Event| keys_event(e),
                is_keys_declared(),
                |e: Event| e->SetEmbeddedEllipticCurveKeys_0,
            );
            lemma_filter_map_is_filter(
                events,
                |e: Event| set_decided_event(e),
                is_set_decided(),
                |e: Event| e->SetDecided_0,
            );
            lemma_filter_map_is_filter(
                events,
                |e: Event| accepted_handover_event(e),
                is_accepted_handover(),
                |e: Event| e->AcceptedHandover_0,
            );
        }
    }
}

/// An event which this coordinator may act on.
pub open spec fn is_ephemeral() -> spec_fn(Event) -> bool {
    |e: Event| e is SetEmbeddedEllipticCurveKeys || e is SetDecided || e is AcceptedHandover
}

/// The events of each kind add up.
proof fn lemma_kinds_add_up(events: Seq<Event>)
    ensures
        events.filter(is_keys_declared()).len() + events.filter(is_set_decided()).len()
            + events.filter(is_accepted_handover()).len() == events.filter(is_ephemeral()).len(),
    decreases events.len(),
{
    reveal(Seq::filter);
    if events.len() > 0 {
        lemma_kinds_add_up(events.drop_last());
    }
}

/// Whichever transaction an event is of, and wherever in it, the item fetched for the block has it. The
/// item has as many events as the transactions together have of these kinds.
pub proof fn every_ephemeral_event_is_fetched(
    cosigning: Cosigning,
    number: u64,
    replies: Replies,
    i: int,
    j: int,
)
    requires
        EphemeralEventStream::fetch(cosigning, number, replies) is Ok,
        replies.events is Ok,
        0 <= i < replies.events->Ok_0@.len(),
        0 <= j < replies.events->Ok_0@[i]@.len(),
    ensures
        ({
            let item = EphemeralEventStream::fetch(cosigning, number, replies)->Ok_0.1;
            let events = all_events(replies.events->Ok_0@);
            &&& match replies.events->Ok_0@[i]@[j] {
                Event::SetEmbeddedEllipticCurveKeys(e) => {
                    item.embedded_elliptic_curve_keys_events.contains(e)
                },
                Event::SetDecided(e) => item.set_decided_events.contains(e),
                Event::AcceptedHandover(e) => item.accepted_handover_events.contains(e),
                _ => true,
            }
            &&& item.embedded_elliptic_curve_keys_events.len() + item.set_decided_events.len()
                + item.accepted_handover_events.len() == events.filter(is_ephemeral()).len()
        }),
{
    all_ephemeral_events_are_fetched(cosigning, number, replies);
    let item = EphemeralEventStream::fetch(cosigning, number, replies)->Ok_0.1;
    let transactions = replies.events->Ok_0@;
    let events = all_events(transactions);
    let event = transactions[i]@[j];
    lemma_all_events_contains(transactions, i, j);
    let k = choose|k: int| 0 <= k < events.len() && events[k] == event;
    lemma_kinds_add_up(events);
    match event {
        Event::SetEmbeddedEllipticCurveKeys(e) => {
            events.lemma_filter_contains(is_keys_declared(), k);
            let kept = events.filter(is_keys_declared());
            let at = choose|at: int| 0 <= at < kept.len() && kept[at] == event;
            assert(item.embedded_elliptic_curve_keys_events[at] == e);
        },
        Event::SetDecided(e) => {
            events.lemma_filter_contains(is_set_decided(), k);
            let kept = events.filter(is_set_decided());
            let at = choose|at: int| 0 <= at < kept.len() && kept[at] == event;
            assert(item.set_decided_events[at] == e);
        },
        Event::AcceptedHandover(e) => {
            events.lemma_filter_contains(is_accepted_handover(), k);
            let kept = events.filter(is_accepted_handover());
            let at = choose|at: int| 0 <= at < kept.len() && kept[at] == event;
            assert(item.accepted_handover_events[at] == e);
        },
        _ => {},
    }
}

/// The ephemeral event stream scans from where it got to, or from the first block.
pub proof fn ephemeral_scanning_starts_where_it_got_to(state: EphemeralState)
    ensures
        state.db.ephemeral.scan_from matches Some(number) ==> EphemeralEventStream::start_of(state)
            == number,
        state.db.ephemeral.scan_from is None ==> EphemeralEventStream::start_of(state) == 0,
        EphemeralEventStream::cosigning_of(state) == state.db.cosigning,
{
}

} // verus!
