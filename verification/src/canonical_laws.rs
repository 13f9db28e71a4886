//! What the canonical event stream is for: what's fetched of a block, and what each network's
//! processor is told of it, in terms of the node's answers and the block's events.
use crate::canonical::{
    batch_failure, batches_from, block_messages, block_sends, burns_for, lemma_set_keys_messages,
    lemma_slashes_messages, messages_for, messages_keep_order, sends, set_keys_for, set_keys_send,
    slashes_for, slashes_of, CanonicalEventsModel, Delivery,
};
use crate::canonical_stream::{
    batch_event, burn_event, set_keys_event, slashes_event, CanonicalEventStream,
};
use crate::cosign::Cosigning;
use crate::db::DbModel;
use crate::errors::StreamError;
use crate::events::{
    lemma_in_order_push, Batch, BurnWithInstruction, Event, ReportedSlashes, SetKeys,
};
use crate::messages::{ExecutedBatchModel, MessageModel};
use crate::network_id::{ExternalCoin, ExternalNetworkId};
use crate::node::Replies;
use crate::primitives::ExternalValidatorSet;
use crate::seqs::lemma_filter_map_is_filter;
use crate::task::RangeProcessor;
use vstd::prelude::*;

verus! {

/// Whether a coin is one of a network's.
pub open spec fn is_coin_of(coin: ExternalCoin, network: ExternalNetworkId) -> bool {
    match network {
        ExternalNetworkId::Bitcoin => coin is Bitcoin,
        ExternalNetworkId::Ethereum => coin is Ether || coin is Dai,
        ExternalNetworkId::Monero => coin is Monero,
    }
}

/// Keys which were set for a network.
pub open spec fn keys_are_for(network: ExternalNetworkId) -> spec_fn(SetKeys) -> bool {
    |e: SetKeys| e.set.network == network
}

/// Slashes which were reported of a network's validators.
pub open spec fn slashes_are_for(network: ExternalNetworkId) -> spec_fn(ReportedSlashes) -> bool {
    |e: ReportedSlashes|
        e matches ReportedSlashes::ExternalValidatorSet(set) && set.network == network
}

/// Batches which are from a network.
pub open spec fn batch_is_from(network: ExternalNetworkId) -> spec_fn(Batch) -> bool {
    |e: Batch| e.network == network
}

/// Burns of a coin of a network.
pub open spec fn burn_is_for(network: ExternalNetworkId) -> spec_fn(BurnWithInstruction) -> bool {
    |e: BurnWithInstruction| is_coin_of(e.instruction.balance.coin, network)
}

/// Whether a batch as it's sent is the batch of an event: every field is the event's, and each of the
/// instructions succeeded exactly if its bit is set.
pub open spec fn is_batch_of(sent: ExecutedBatchModel, event: Batch) -> bool {
    &&& sent.id == event.id
    &&& sent.publisher == event.publishing_session
    &&& sent.external_network_block_hash == event.external_network_block_hash.0
    &&& sent.in_instructions_hash == event.in_instructions_hash
    &&& sent.in_instruction_results.len() == event.in_instruction_results@.len()
    &&& forall|i: int|
        0 <= i < event.in_instruction_results@.len() ==> (
        #[trigger] sent.in_instruction_results[i] is Succeeded <==>
            event.in_instruction_results@[i])
}

/// The batches are selected by their network.
proof fn lemma_batches(batches: Seq<Batch>, network: ExternalNetworkId)
    ensures
        batches_from(batches, network) == batches.filter(batch_is_from(network)),
{
    let pick = |b: Batch|
        if b.network == network {
            Some(b)
        } else {
            None
        };
    lemma_filter_map_is_filter(batches, pick, batch_is_from(network), |b: Batch| b);
    let kept = batches.filter(batch_is_from(network));
    assert(kept.map_values(|b: Batch| b) =~= kept);
}

/// The burns are selected by their coin.
proof fn lemma_burns(burns: Seq<BurnWithInstruction>, network: ExternalNetworkId)
    ensures
        burns_for(burns, network) == burns.filter(burn_is_for(network)).map_values(
            |b: BurnWithInstruction| b.instruction,
        ),
{
    let pick = |b: BurnWithInstruction|
        if b.instruction.balance.coin.network() == network {
            Some(b.instruction)
        } else {
            None
        };
    lemma_filter_map_is_filter(
        burns,
        pick,
        burn_is_for(network),
        |b: BurnWithInstruction| b.instruction,
    );
}

/// The keys are selected by their set's network.
proof fn lemma_keys(events: Seq<SetKeys>, network: ExternalNetworkId)
    ensures
        set_keys_for(events, network) == events.filter(keys_are_for(network)),
{
    let pick = |e: SetKeys|
        if e.set.network == network {
            Some(e)
        } else {
            None
        };
    lemma_filter_map_is_filter(events, pick, keys_are_for(network), |e: SetKeys| e);
    let kept = events.filter(keys_are_for(network));
    assert(kept.map_values(|e: SetKeys| e) =~= kept);
}

/// The slashes are selected by their set's network.
proof fn lemma_slashes(events: Seq<ReportedSlashes>, network: ExternalNetworkId)
    ensures
        slashes_for(events, network) == events.filter(slashes_are_for(network)).map_values(
            |e: ReportedSlashes| e->ExternalValidatorSet_0,
        ),
{
    lemma_filter_map_is_filter(
        events,
        slashes_of(network),
        slashes_are_for(network),
        |e: ReportedSlashes| e->ExternalValidatorSet_0,
    );
}

/// Of a block which was processed, each network's processor is told, after all it was told before and
/// in this order:
///
/// - of each keys set for the network, with the block's time, the set's session, and the keys,
/// - of each set of the network whose slashes were reported,
/// - where the block has a batch from the network, or a burn of one of its coins, of the block's number
///   with the whole batch and every one of the burns, in order, unchanged.
///
/// Nothing else is sent. The last batch's ID is the block's batch's, where it has one, and scanning goes
/// on with the following block.
pub proof fn processors_are_told_of_all_of_a_block(
    state: DbModel,
    number: u64,
    block: CanonicalEventsModel,
    network: ExternalNetworkId,
)
    requires
        number < u64::MAX,
    ensures
        ({
            let after = CanonicalEventStream::processed(state, number, block);
            let told = after.canonical.messages.of(network);
            let before = state.canonical.messages.of(network);
            let keys = block.set_keys_events.filter(keys_are_for(network));
            let slashes = block.slash_report_events.filter(slashes_are_for(network));
            let batches = block.batch_events.filter(batch_is_from(network));
            let burns = block.burn_events.filter(burn_is_for(network));
            let of_block: int = if batches.len() > 0 || burns.len() > 0 {
                1
            } else {
                0
            };
            &&& told.len() == before.len() + keys.len() + slashes.len() + of_block
            &&& forall|i: int| 0 <= i < before.len() ==> #[trigger] told[i] == before[i]
            &&& forall|i: int|
                0 <= i < keys.len() ==> (#[trigger] told[before.len() + i] matches
                    MessageModel::SetKeys { serai_time, session, key_pair } && serai_time
                    == block.time && session == keys[i].set.session && key_pair
                    == keys[i].key_pair)
            &&& forall|i: int|
                0 <= i < slashes.len() ==> (#[trigger] told[before.len() + keys.len() + i] matches
                    MessageModel::SlashesReported { session } && slashes[i] matches
                    ReportedSlashes::ExternalValidatorSet(set) && session == set.session)
            &&& of_block == 1 ==> (told.last() matches MessageModel::Block {
                serai_block_number,
                batch,
                burns: sent,
            } && {
                &&& serai_block_number == number
                &&& batch is Some <==> batches.len() > 0
                &&& batch matches Some(batch) ==> is_batch_of(batch, batches[0])
                &&& sent.len() == burns.len()
                &&& forall|k: int|
                    0 <= k < burns.len() ==> #[trigger] sent[k] == burns[k].instruction
            })
            &&& after.canonical.last_indexed_batch_id.of(network) == if batches.len() > 0 {
                Some(batches[0].id)
            } else {
                state.canonical.last_indexed_batch_id.of(network)
            }
            &&& after.canonical.scan_from == Some((number + 1) as u64)
            &&& after.cosigning == state.cosigning
            &&& after.auxiliary_keys == state.auxiliary_keys
            &&& after.ephemeral == state.ephemeral
        }),
{
    let sent = messages_for(sends(number, block), network);
    let after = CanonicalEventStream::processed(state, number, block);
    let before = state.canonical.messages.of(network);
    assert(after.canonical.messages.of(network) == before + sent);
    messages_keep_order(number, block, network);
    lemma_set_keys_messages(block, network);
    lemma_slashes_messages(block.slash_report_events, network);
    lemma_keys(block.set_keys_events, network);
    lemma_slashes(block.slash_report_events, network);
    lemma_batches(block.batch_events, network);
    lemma_burns(block.burn_events, network);
    let keys = block.set_keys_events.filter(keys_are_for(network));
    let slashes = block.slash_report_events.filter(slashes_are_for(network));
    let batches = block.batch_events.filter(batch_is_from(network));
    let burns = block.burn_events.filter(burn_is_for(network));
    let a = messages_for(set_keys_sends_of(block), network);
    let b = slashes_for(block.slash_report_events, network).map_values(
        |set: ExternalValidatorSet| MessageModel::SlashesReported { session: set.session },
    );
    let c = block_messages(number, block, network);
    assert(a =~= keys.map_values(|e: SetKeys| set_keys_send(block.time, e).1));
    assert(b.len() == slashes.len());
    assert(sent =~= a + b + c);
    assert(c.len() == if batches.len() > 0 || burns.len() > 0 {
        1int
    } else {
        0int
    });
    let told = before + sent;
    assert forall|i: int| 0 <= i < keys.len() implies (#[trigger] told[before.len() + i] matches
        MessageModel::SetKeys { serai_time, session, key_pair } && serai_time == block.time
        && session == keys[i].set.session && key_pair == keys[i].key_pair) by {
        assert(told[before.len() + i] == a[i]);
    }
    assert forall|i: int| 0 <= i < slashes.len() implies (#[trigger] told[before.len() + keys.len()
        + i] matches MessageModel::SlashesReported { session } && slashes[i] matches
        ReportedSlashes::ExternalValidatorSet(set) && session == set.session) by {
        assert(told[before.len() + keys.len() + i] == b[i]);
        block.slash_report_events.lemma_filter_pred(slashes_are_for(network), i);
    }
    if batches.len() > 0 || burns.len() > 0 {
        assert(told.last() == c[0]);
        assert(c[0] == block_sends(number, block, network)[0].1);
    }
}

/// What's sent for the keys set in a block.
spec fn set_keys_sends_of(block: CanonicalEventsModel) -> Seq<Delivery> {
    block.set_keys_events.map_values(|e: SetKeys| set_keys_send(block.time, e))
}

/// Each burn of a block is of a coin of exactly one network, so there are as many burns in the messages
/// to the three processors as there are in the block.
pub proof fn no_burn_is_lost_or_sent_twice(burns: Seq<BurnWithInstruction>)
    ensures
        burns.filter(burn_is_for(ExternalNetworkId::Bitcoin)).len() + burns.filter(
            burn_is_for(ExternalNetworkId::Ethereum),
        ).len() + burns.filter(burn_is_for(ExternalNetworkId::Monero)).len() == burns.len(),
    decreases burns.len(),
{
    reveal(Seq::filter);
    if burns.len() > 0 {
        no_burn_is_lost_or_sent_twice(burns.drop_last());
    }
}

/// Each burn of a processed block is in the last message to the processor of its coin's network, and
/// that processor alone: all messages for the block together have as many burns as the block.
pub proof fn every_burn_is_sent(state: DbModel, number: u64, block: CanonicalEventsModel, i: int)
    requires
        number < u64::MAX,
        0 <= i < block.burn_events.len(),
    ensures
        forall|network: ExternalNetworkId|
            #![trigger CanonicalEventStream::processed(state, number, block).canonical.messages.of(network)]
            is_coin_of(block.burn_events[i].instruction.balance.coin, network) ==> (
            CanonicalEventStream::processed(state, number, block).canonical.messages.of(
                network,
            ).last() matches MessageModel::Block { serai_block_number, batch, burns }
                && serai_block_number == number && burns.contains(
                block.burn_events[i].instruction,
            )),
{
    assert forall|network: ExternalNetworkId|
        #![trigger CanonicalEventStream::processed(state, number, block).canonical.messages.of(network)]
        is_coin_of(block.burn_events[i].instruction.balance.coin, network) implies (
    CanonicalEventStream::processed(state, number, block).canonical.messages.of(
        network,
    ).last() matches MessageModel::Block { serai_block_number, batch, burns } && serai_block_number
        == number && burns.contains(block.burn_events[i].instruction)) by {
        processors_are_told_of_all_of_a_block(state, number, block, network);
        let kept = block.burn_events.filter(burn_is_for(network));
        block.burn_events.lemma_filter_contains(burn_is_for(network), i);
        let k = choose|k: int| 0 <= k < kept.len() && kept[k] == block.burn_events[i];
        let message = CanonicalEventStream::processed(
            state,
            number,
            block,
        ).canonical.messages.of(network).last();
        assert(message->Block_burns[k] == kept[k].instruction);
    }
}

/// Whether nothing's wrong with the batches a block has from a network: there's at most one, and its ID
/// follows the last one's, the first being zero.
pub open spec fn batches_are_fine(
    last: Option<u32>,
    batches: Seq<Batch>,
    network: ExternalNetworkId,
) -> bool {
    let own = batches.filter(batch_is_from(network));
    &&& own.len() <= 1
    &&& own.len() == 1 ==> id_follows(last, own[0].id)
}

/// Whether an ID is one more than the last, or zero where there's none.
pub open spec fn id_follows(last: Option<u32>, id: u32) -> bool {
    match last {
        Some(last) => id as int == last as int + 1,
        None => id as int == 0,
    }
}

/// The position of a network in the order in which the networks are gone through.
pub open spec fn position(network: ExternalNetworkId) -> int {
    match network {
        ExternalNetworkId::Bitcoin => 0,
        ExternalNetworkId::Ethereum => 1,
        ExternalNetworkId::Monero => 2,
    }
}

/// A block is processed exactly if each network has at most one batch in it, whose ID follows the last
/// one's. Where a block isn't, there's a network which is the first with anything wrong. Its first
/// batch's ID doesn't follow the last one's, or it does and there's another batch.
pub proof fn only_wrong_batches_are_rejected(
    state: DbModel,
    number: u64,
    block: CanonicalEventsModel,
) -> (network: ExternalNetworkId)
    ensures
        CanonicalEventStream::rejects(state, number, block) is None <==> (forall|
            n: ExternalNetworkId,
        | #[trigger]
            batches_are_fine(
                state.canonical.last_indexed_batch_id.of(n),
                block.batch_events,
                n,
            )),
        CanonicalEventStream::rejects(state, number, block) matches Some(error) ==> {
            let own = block.batch_events.filter(batch_is_from(network));
            let last = state.canonical.last_indexed_batch_id.of(network);
            &&& forall|n: ExternalNetworkId|
                position(n) < position(network) ==> #[trigger] batches_are_fine(
                    state.canonical.last_indexed_batch_id.of(n),
                    block.batch_events,
                    n,
                )
            &&& own.len() > 0
            &&& error == if id_follows(last, own[0].id) {
                StreamError::MultipleBatches
            } else {
                StreamError::BatchIdNotIncrement
            }
            &&& id_follows(last, own[0].id) ==> own.len() > 1
        },
{
    let last = state.canonical.last_indexed_batch_id;
    let batches = block.batch_events;
    lemma_batches(batches, ExternalNetworkId::Bitcoin);
    lemma_batches(batches, ExternalNetworkId::Ethereum);
    lemma_batches(batches, ExternalNetworkId::Monero);
    let bitcoin = batches_are_fine(last.of(ExternalNetworkId::Bitcoin), batches, ExternalNetworkId::Bitcoin);
    let ethereum = batches_are_fine(last.of(ExternalNetworkId::Ethereum), batches, ExternalNetworkId::Ethereum);
    let monero = batches_are_fine(last.of(ExternalNetworkId::Monero), batches, ExternalNetworkId::Monero);
    assert(bitcoin <==> batch_failure(
        last.bitcoin,
        batches_from(batches, ExternalNetworkId::Bitcoin),
    ) is None);
    assert(ethereum <==> batch_failure(
        last.ethereum,
        batches_from(batches, ExternalNetworkId::Ethereum),
    ) is None);
    assert(monero <==> batch_failure(
        last.monero,
        batches_from(batches, ExternalNetworkId::Monero),
    ) is None);
    if !bitcoin {
        ExternalNetworkId::Bitcoin
    } else if !ethereum {
        ExternalNetworkId::Ethereum
    } else {
        ExternalNetworkId::Monero
    }
}

/// All events of a block, of every transaction, in order.
pub open spec fn all_events(transactions: Seq<Vec<Event>>) -> Seq<Event> {
    transactions.map_values(|transaction: Vec<Event>| transaction@).flatten()
}

/// Each event of each transaction is one of the block's.
pub proof fn lemma_all_events_contains(transactions: Seq<Vec<Event>>, i: int, j: int)
    requires
        0 <= i < transactions.len(),
        0 <= j < transactions[i]@.len(),
    ensures
        all_events(transactions).contains(transactions[i]@[j]),
    decreases transactions.len(),
{
    let rest = transactions.drop_last();
    let last = transactions.last();
    assert(transactions =~= rest.push(last));
    lemma_in_order_push(rest, last);
    assert(all_events(transactions) =~= all_events(rest) + last@);
    if i < rest.len() {
        lemma_all_events_contains(rest, i, j);
        let k = choose|k: int|
            0 <= k < all_events(rest).len() && all_events(rest)[k] == rest[i]@[j];
        assert(all_events(transactions)[k] == transactions[i]@[j]);
    } else {
        assert(all_events(transactions)[all_events(rest).len() + j] == transactions[i]@[j]);
    }
}

/// An event of keys having been set.
pub open spec fn is_set_keys() -> spec_fn(Event) -> bool {
    |e: Event| e is SetKeys
}

/// An event of slashes having been reported.
pub open spec fn is_slashes() -> spec_fn(Event) -> bool {
    |e: Event| e is Slashes
}

/// An event of a batch having been executed.
pub open spec fn is_batch() -> spec_fn(Event) -> bool {
    |e: Event| e is Batch
}

/// An event of a burn with an instruction.
pub open spec fn is_burn() -> spec_fn(Event) -> bool {
    |e: Event| e is BurnWithInstruction
}

/// The hash by which a block is known, where it's cosigned: no session faulted, the block isn't after
/// the latest which was cosigned, and it was indexed.
pub open spec fn is_cosigned(cosigning: Cosigning, number: u64) -> bool {
    &&& cosigning.faulted_session is None
    &&& cosigning.latest_cosigned_block_number matches Some(latest) && number <= latest
    &&& cosigning.substrate_block_hashes@.contains_key(number)
}

/// What's wrong with fetching a block which isn't cosigned.
pub open spec fn not_cosigned_error(cosigning: Cosigning, number: u64) -> StreamError {
    if cosigning.faulted_session is Some {
        StreamError::CosigningFaulted
    } else if cosigning.latest_cosigned_block_number matches Some(latest) && number <= latest {
        StreamError::NotIndexed { block_number: number }
    } else {
        StreamError::NotCosigned { block_number: number }
    }
}

/// A block's item is fetched exactly if the block is cosigned and the node answers both requests, with
/// a block. It has the block's number, the time in whole seconds, and every event of each kind, of
/// every transaction, in order. Else, the error says what was missing, the events' being requested
/// before the block.
pub proof fn all_canonical_events_are_fetched(cosigning: Cosigning, number: u64, replies: Replies)
    ensures
        ({
            let res = CanonicalEventStream::fetch(cosigning, number, replies);
            let hash = cosigning.substrate_block_hashes@[number];
            &&& !is_cosigned(cosigning, number) ==> (res matches Err(error) && error
                == not_cosigned_error(cosigning, number))
            &&& is_cosigned(cosigning, number) ==> match replies.events {
                Err(message) => res matches Err(error) && error == (StreamError::EventsRpc {
                    block_hash: hash,
                    error: message,
                }),
                Ok(transactions) => match replies.block {
                    Err(message) => res matches Err(error) && error == (StreamError::BlockRpc {
                        block_hash: hash,
                        error: message,
                    }),
                    Ok(None) => res matches Err(error) && error == (StreamError::MissingBlock {
                        block_number: number,
                    }),
                    Ok(Some(block)) => res matches Ok((fetched, item)) && {
                        let events = all_events(transactions@);
                        &&& fetched == number
                        &&& 1000 * item.time <= block.unix_time_in_millis < 1000 * item.time + 1000
                        &&& item.set_keys_events == events.filter(is_set_keys()).map_values(
                            |e: Event| e->SetKeys_0,
                        )
                        &&& item.slash_report_events == events.filter(is_slashes()).map_values(
                            |e: Event| e->Slashes_0,
                        )
                        &&& item.batch_events == events.filter(is_batch()).map_values(
                            |e: Event| e->Batch_0,
                        )
                        &&& item.burn_events == events.filter(is_burn()).map_values(
                            |e: Event| e->BurnWithInstruction_0,
                        )
                    },
                },
            }
        }),
{
    if is_cosigned(cosigning, number) {
        if let Ok(transactions) = replies.events {
            let events = all_events(transactions@);
            lemma_filter_map_is_filter(
                events,
                |e: Event| set_keys_event(e),
                is_set_keys(),
                |e: Event| e->SetKeys_0,
            );
            lemma_filter_map_is_filter(
                events,
                |e: Event| slashes_event(e),
                is_slashes(),
                |e: Event| e->Slashes_0,
            );
            lemma_filter_map_is_filter(
                events,
                |e: Event| batch_event(e),
                is_batch(),
                |e: Event| e->Batch_0,
            );
            lemma_filter_map_is_filter(
                events,
                |e: Event| burn_event(e),
                is_burn(),
                |e: Event| e->BurnWithInstruction_0,
            );
        }
    }
}

/// Whichever transaction an event is of, and wherever in it, the item fetched for the block has it. The
/// item has as many events as the transactions together have of these kinds.
pub proof fn every_canonical_event_is_fetched(
    cosigning: Cosigning,
    number: u64,
    replies: Replies,
    i: int,
    j: int,
)
    requires
        CanonicalEventStream::fetch(cosigning, number, replies) is Ok,
        replies.events is Ok,
        0 <= i < replies.events->Ok_0@.len(),
        0 <= j < replies.events->Ok_0@[i]@.len(),
    ensures
        ({
            let item = CanonicalEventStream::fetch(cosigning, number, replies)->Ok_0.1;
            let events = all_events(replies.events->Ok_0@);
            &&& match replies.events->Ok_0@[i]@[j] {
                Event::SetKeys(e) => item.set_keys_events.contains(e),
                Event::Slashes(e) => item.slash_report_events.contains(e),
                Event::Batch(e) => item.batch_events.contains(e),
                Event::BurnWithInstruction(e) => item.burn_events.contains(e),
                _ => true,
            }
            &&& item.set_keys_events.len() + item.slash_report_events.len()
                + item.batch_events.len() + item.burn_events.len() == events.filter(
                is_canonical(),
            ).len()
        }),
{
    all_canonical_events_are_fetched(cosigning, number, replies);
    let item = CanonicalEventStream::fetch(cosigning, number, replies)->Ok_0.1;
    let transactions = replies.events->Ok_0@;
    let events = all_events(transactions);
    let event = transactions[i]@[j];
    lemma_all_events_contains(transactions, i, j);
    let k = choose|k: int| 0 <= k < events.len() && events[k] == event;
    lemma_kinds_add_up(events);
    match event {
        Event::SetKeys(e) => {
            events.lemma_filter_contains(is_set_keys(), k);
            let kept = events.filter(is_set_keys());
            let at = choose|at: int| 0 <= at < kept.len() && kept[at] == event;
            assert(item.set_keys_events[at] == e);
        },
        Event::Slashes(e) => {
            events.lemma_filter_contains(is_slashes(), k);
            let kept = events.filter(is_slashes());
            let at = choose|at: int| 0 <= at < kept.len() && kept[at] == event;
            assert(item.slash_report_events[at] == e);
        },
        Event::Batch(e) => {
            events.lemma_filter_contains(is_batch(), k);
            let kept = events.filter(is_batch());
            let at = choose|at: int| 0 <= at < kept.len() && kept[at] == event;
            assert(item.batch_events[at] == e);
        },
        Event::BurnWithInstruction(e) => {
            events.lemma_filter_contains(is_burn(), k);
            let kept = events.filter(is_burn());
            let at = choose|at: int| 0 <= at < kept.len() && kept[at] == event;
            assert(item.burn_events[at] == e);
        },
        _ => {},
    }
}

/// An event which a processor may be told of.
pub open spec fn is_canonical() -> spec_fn(Event) -> bool {
    |e: Event| e is SetKeys || e is Slashes || e is Batch || e is BurnWithInstruction
}

/// The events of each kind add up.
proof fn lemma_kinds_add_up(events: Seq<Event>)
    ensures
        events.filter(is_set_keys()).len() + events.filter(is_slashes()).len() + events.filter(
            is_batch(),
        ).len() + events.filter(is_burn()).len() == events.filter(is_canonical()).len(),
    decreases events.len(),
{
    reveal(Seq::filter);
    if events.len() > 0 {
        lemma_kinds_add_up(events.drop_last());
    }
}

/// The canonical event stream scans from where it got to, or from the first block.
pub proof fn canonical_scanning_starts_where_it_got_to(state: DbModel)
    ensures
        state.canonical.scan_from matches Some(number) ==> CanonicalEventStream::start_of(state)
            == number,
        state.canonical.scan_from is None ==> CanonicalEventStream::start_of(state) == 0,
        CanonicalEventStream::cosigning_of(state) == state.cosigning,
{
}

} // verus!
