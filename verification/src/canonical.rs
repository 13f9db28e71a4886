//! The stream of canonical events: what the processors of external networks are told of each
//! Serai block.
use crate::errors::StreamError;
use crate::events::{Batch, BurnWithInstruction, OutInstructionWithBalance, ReportedSlashes, SetKeys};
use crate::messages::{executed, CoordinatorMessage, ExecutedBatch, MessageModel};
use crate::network_id::{ExternalNetworkId, PerNetwork};
use crate::primitives::ExternalValidatorSet;
use crate::seqs::{lemma_filter_map_add, lemma_filter_map_push};
use vstd::prelude::*;

verus! {

/// These are all the events which generate canonical messages
#[derive(PartialEq, Eq, Debug)]
pub struct CanonicalEvents {
    /// The time of the block, in seconds.
    pub time: u64,
    /// The keys set in the block.
    pub set_keys_events: Vec<SetKeys>,
    /// The slashes reported in the block.
    pub slash_report_events: Vec<ReportedSlashes>,
    /// The batches executed in the block.
    pub batch_events: Vec<Batch>,
    /// The burns with an instruction in the block.
    pub burn_events: Vec<BurnWithInstruction>,
}

/// The content of [`CanonicalEvents`].
pub struct CanonicalEventsModel {
    pub time: u64,
    pub set_keys_events: Seq<SetKeys>,
    pub slash_report_events: Seq<ReportedSlashes>,
    pub batch_events: Seq<Batch>,
    pub burn_events: Seq<BurnWithInstruction>,
}

impl View for CanonicalEvents {
    type V = CanonicalEventsModel;

    open spec fn view(&self) -> CanonicalEventsModel {
        CanonicalEventsModel {
            time: self.time,
            set_keys_events: self.set_keys_events@,
            slash_report_events: self.slash_report_events@,
            batch_events: self.batch_events@,
            burn_events: self.burn_events@,
        }
    }
}

/// A message, with the network whose processor it's for.
pub type Delivery = (ExternalNetworkId, MessageModel);

/// What's sent for keys which were set at a time.
pub open spec fn set_keys_send(time: u64, event: SetKeys) -> Delivery {
    (
        event.set.network,
        MessageModel::SetKeys {
            serai_time: time,
            session: event.set.session,
            key_pair: event.key_pair,
        },
    )
}

/// What's sent for slashes which were reported: nothing, where they aren't of a set for an external
/// network.
pub open spec fn slashes_send(event: ReportedSlashes) -> Option<Delivery> {
    match event {
        ReportedSlashes::SeraiValidator(_) => None,
        ReportedSlashes::ExternalValidatorSet(set) => Some(
            (set.network, MessageModel::SlashesReported { session: set.session }),
        ),
    }
}

/// The batches from a network.
pub open spec fn batches_from(batches: Seq<Batch>, network: ExternalNetworkId) -> Seq<Batch> {
    batches.filter_map(
        |b: Batch|
            if b.network == network {
                Some(b)
            } else {
                None
            },
    )
}

/// The instructions of the burns for a network.
pub open spec fn burns_for(
    burns: Seq<BurnWithInstruction>,
    network: ExternalNetworkId,
) -> Seq<OutInstructionWithBalance> {
    burns.filter_map(
        |b: BurnWithInstruction|
            if b.instruction.balance.coin.network() == network {
                Some(b.instruction)
            } else {
                None
            },
    )
}

/// What's sent for what a block has for a network: its batch and burns, where it has either.
pub open spec fn block_sends(
    block_number: u64,
    block: CanonicalEventsModel,
    network: ExternalNetworkId,
) -> Seq<Delivery> {
    let batches = batches_from(block.batch_events, network);
    let burns = burns_for(block.burn_events, network);
    if batches.len() == 0 && burns.len() == 0 {
        seq![]
    } else {
        seq![
            (
                network,
                MessageModel::Block {
                    serai_block_number: block_number,
                    batch: if batches.len() == 0 {
                        None
                    } else {
                        Some(executed(batches[0]))
                    },
                    burns,
                },
            ),
        ]
    }
}

/// What's sent for the keys set in a block.
pub open spec fn set_keys_sends(block: CanonicalEventsModel) -> Seq<Delivery> {
    block.set_keys_events.map_values(|e: SetKeys| set_keys_send(block.time, e))
}

/// What's sent for slashes which were reported, in their order.
pub open spec fn slashes_sends(events: Seq<ReportedSlashes>) -> Seq<Delivery> {
    events.filter_map(|e: ReportedSlashes| slashes_send(e))
}

/// All which is sent for a block, in the order in which it's sent.
pub open spec fn sends(block_number: u64, block: CanonicalEventsModel) -> Seq<Delivery> {
    set_keys_sends(block) + slashes_sends(block.slash_report_events) + block_sends(
        block_number,
        block,
        ExternalNetworkId::Bitcoin,
    ) + block_sends(block_number, block, ExternalNetworkId::Ethereum) + block_sends(
        block_number,
        block,
        ExternalNetworkId::Monero,
    )
}

/// Whether an ID is the one which comes after the last batch's, the first being zero.
pub open spec fn increments(last: Option<u32>, id: u32) -> bool {
    match last {
        None => id == 0,
        Some(last) => id == last + 1,
    }
}

/// What's wrong with the batches a block has from a network, whose last batch had an ID.
pub open spec fn batch_failure(last: Option<u32>, batches: Seq<Batch>) -> Option<StreamError> {
    if batches.len() > 0 && !increments(last, batches[0].id) {
        Some(StreamError::BatchIdNotIncrement)
    } else if batches.len() > 1 {
        Some(StreamError::MultipleBatches)
    } else {
        None
    }
}

/// What's wrong with the batches of a block, going through the networks one by one.
pub open spec fn failure(
    last: PerNetwork<Option<u32>>,
    batches: Seq<Batch>,
) -> Option<StreamError> {
    match batch_failure(last.bitcoin, batches_from(batches, ExternalNetworkId::Bitcoin)) {
        Some(error) => Some(error),
        None => match batch_failure(
            last.ethereum,
            batches_from(batches, ExternalNetworkId::Ethereum),
        ) {
            Some(error) => Some(error),
            None => batch_failure(last.monero, batches_from(batches, ExternalNetworkId::Monero)),
        },
    }
}

/// The ID of the last batch from a network, once the block's are indexed.
pub open spec fn last_id_after(last: Option<u32>, batches: Seq<Batch>) -> Option<u32> {
    if batches.len() == 0 {
        last
    } else {
        Some(batches[0].id)
    }
}

/// What's to be written to the DB, all at once, for a block.
#[derive(PartialEq, Eq, Debug)]
pub struct CanonicalTxn {
    /// The messages to send.
    pub sends: Vec<(ExternalNetworkId, CoordinatorMessage)>,
    /// The ID of the last batch indexed for each network.
    pub last_indexed_batch_id: PerNetwork<Option<u32>>,
    /// The block to scan from.
    pub scan_from: u64,
}

/// Messages to send, by their content.
pub open spec fn send_models(sends: Seq<(ExternalNetworkId, CoordinatorMessage)>) -> Seq<Delivery> {
    sends.map_values(|s: (ExternalNetworkId, CoordinatorMessage)| (s.0, s.1@))
}

/// Get the batch a block has from a network.
fn network_batch(
    network: ExternalNetworkId,
    last: Option<u32>,
    batch_events: &Vec<Batch>,
) -> (batch: Result<Option<ExecutedBatch>, StreamError>)
    ensures
        match batch {
            Ok(batch) => {
                let batches = batches_from(batch_events@, network);
                &&& batch_failure(last, batches) is None
                &&& batch is Some <==> batches.len() > 0
                &&& batch matches Some(b) ==> b@ == executed(batches[0])
            },
            Err(error) => batch_failure(last, batches_from(batch_events@, network)) == Some(error),
        },
{
    let ghost pick = |b: Batch|
        if b.network == network {
            Some(b)
        } else {
            None
        };
    let mut batch: Option<ExecutedBatch> = None;
    let mut i: usize = 0;
    while i < batch_events.len()
        invariant
            i <= batch_events.len(),
            pick == (|b: Batch|
                if b.network == network {
                    Some(b)
                } else {
                    None
                }),
            batch is Some <==> batches_from(batch_events@.take(i as int), network).len() > 0,
            batch matches Some(b) ==> b@ == executed(
                batches_from(batch_events@.take(i as int), network)[0],
            ),
            batch_failure(last, batches_from(batch_events@.take(i as int), network)) is None,
        decreases batch_events.len() - i,
    {
        let ghost before = batch_events@.take(i as int);
        let ghost after = batch_events@.take(i + 1);
        proof {
            assert(after =~= before.push(batch_events@[i as int]));
            lemma_filter_map_push(before, batch_events@[i as int], pick);
            assert(batch_events@ =~= after + batch_events@.skip(i + 1));
            lemma_filter_map_add(after, batch_events@.skip(i + 1), pick);
        }
        if batch_events[i].network == network {
            if batch.is_some() {
                return Err(StreamError::MultipleBatches);
            }
            let id: u32 = batch_events[i].id;
            let increment: bool = match last {
                None => id == 0,
                Some(last) => id > 0 && last == id - 1,
            };
            if !increment {
                return Err(StreamError::BatchIdNotIncrement);
            }
            batch = Some(ExecutedBatch::from_event(&batch_events[i]));
        }
        i += 1;
    }
    assert(batch_events@.take(i as int) =~= batch_events@);
    Ok(batch)
}

/// Sort the instructions of burns by the network they're for.
fn network_burns(burn_events: Vec<BurnWithInstruction>) -> (burns: PerNetwork<
    Vec<OutInstructionWithBalance>,
>)
    ensures
        forall|network: ExternalNetworkId| #[trigger]
            burns.of(network)@ == burns_for(burn_events@, network),
{
    let mut bitcoin: Vec<OutInstructionWithBalance> = Vec::new();
    let mut ethereum: Vec<OutInstructionWithBalance> = Vec::new();
    let mut monero: Vec<OutInstructionWithBalance> = Vec::new();
    for burn in it: burn_events
        invariant
            it.seq() == burn_events@,
            bitcoin@ == burns_for(burn_events@.take(it.index()), ExternalNetworkId::Bitcoin),
            ethereum@ == burns_for(burn_events@.take(it.index()), ExternalNetworkId::Ethereum),
            monero@ == burns_for(burn_events@.take(it.index()), ExternalNetworkId::Monero),
    {
        proof {
            let i = it.index();
            let before = burn_events@.take(i);
            assert(burn_events@.take(i + 1) =~= before.push(burn));
            lemma_burns_for_push(before, burn, ExternalNetworkId::Bitcoin);
            lemma_burns_for_push(before, burn, ExternalNetworkId::Ethereum);
            lemma_burns_for_push(before, burn, ExternalNetworkId::Monero);
        }
        let instruction = burn.instruction;
        match instruction.balance.coin.network() {
            ExternalNetworkId::Bitcoin => bitcoin.push(instruction),
            ExternalNetworkId::Ethereum => ethereum.push(instruction),
            ExternalNetworkId::Monero => monero.push(instruction),
        }
    }
    assert(burn_events@.take(burn_events@.len() as int) =~= burn_events@);
    PerNetwork { bitcoin, ethereum, monero }
}

/// The instructions for a network of one more burn.
proof fn lemma_burns_for_push(
    burns: Seq<BurnWithInstruction>,
    burn: BurnWithInstruction,
    network: ExternalNetworkId,
)
    ensures
        burns_for(burns.push(burn), network) == if burn.instruction.balance.coin.network() == network {
            burns_for(burns, network).push(burn.instruction)
        } else {
            burns_for(burns, network)
        },
{
    lemma_filter_map_push(
        burns,
        burn,
        |b: BurnWithInstruction|
            if b.instruction.balance.coin.network() == network {
                Some(b.instruction)
            } else {
                None
            },
    );
}

/// Sending one more message.
proof fn lemma_send_models_push(
    sends: Seq<(ExternalNetworkId, CoordinatorMessage)>,
    network: ExternalNetworkId,
    message: CoordinatorMessage,
)
    ensures
        send_models(sends.push((network, message))) == send_models(sends).push(
            (network, message@),
        ),
{
    assert(send_models(sends.push((network, message))) =~= send_models(sends).push(
        (network, message@),
    ));
}

/// Send the keys which were set.
fn send_set_keys(
    sends: &mut Vec<(ExternalNetworkId, CoordinatorMessage)>,
    time: u64,
    set_keys_events: Vec<SetKeys>,
)
    ensures
        send_models(final(sends)@) == send_models(old(sends)@) + set_keys_events@.map_values(
            |e: SetKeys| set_keys_send(time, e),
        ),
{
    let ghost before = send_models(sends@);
    let ghost all = set_keys_events@;
    let ghost send = |e: SetKeys| set_keys_send(time, e);
    assert(before =~= before + all.take(0).map_values(send));
    for set_keys in it: set_keys_events
        invariant
            it.seq() == all,
            send == (|e: SetKeys| set_keys_send(time, e)),
            send_models(sends@) == before + all.take(it.index()).map_values(send),
    {
        let ghost i = it.index();
        let ghost event = set_keys;
        let message = CoordinatorMessage::SetKeys {
            serai_time: time,
            session: set_keys.set.session,
            key_pair: set_keys.key_pair,
        };
        proof {
            lemma_send_models_push(sends@, set_keys.set.network, message);
            assert(all.take(i + 1) =~= all.take(i).push(event));
            assert(all.take(i + 1).map_values(send) =~= all.take(i).map_values(send).push(
                set_keys_send(time, event),
            ));
            assert(before + all.take(i + 1).map_values(send) =~= (before + all.take(i).map_values(
                send,
            )).push(set_keys_send(time, event)));
        }
        sends.push((set_keys.set.network, message));
    }
    assert(all.take(all.len() as int) =~= all);
}

/// Send the slashes which were reported.
fn send_slashes(
    sends: &mut Vec<(ExternalNetworkId, CoordinatorMessage)>,
    slash_report_events: &Vec<ReportedSlashes>,
)
    ensures
        send_models(final(sends)@) == send_models(old(sends)@) + slashes_sends(
            slash_report_events@,
        ),
{
    let ghost before = send_models(sends@);
    let ghost all = slash_report_events@;
    let ghost send = |e: ReportedSlashes| slashes_send(e);
    assert(before =~= before + all.take(0).filter_map(send));
    let mut i: usize = 0;
    while i < slash_report_events.len()
        invariant
            i <= slash_report_events.len(),
            slash_report_events@ == all,
            send == (|e: ReportedSlashes| slashes_send(e)),
            send_models(sends@) == before + all.take(i as int).filter_map(send),
        decreases slash_report_events.len() - i,
    {
        let ghost event = all[i as int];
        proof {
            assert(all.take(i + 1) =~= all.take(i as int).push(event));
            lemma_filter_map_push(all.take(i as int), event, send);
        }
        if let ReportedSlashes::ExternalValidatorSet(set) = slash_report_events[i] {
            let message = CoordinatorMessage::SlashesReported { session: set.session };
            proof {
                lemma_send_models_push(sends@, set.network, message);
                assert(before + all.take(i + 1).filter_map(send) =~= (before + all.take(
                    i as int,
                ).filter_map(send)).push((set.network, message@)));
            }
            sends.push((set.network, message));
        }
        i += 1;
    }
    assert(all.take(i as int) =~= all);
}

/// Send what a block has for a network, where it has anything.
fn send_block(
    sends: &mut Vec<(ExternalNetworkId, CoordinatorMessage)>,
    block_number: u64,
    network: ExternalNetworkId,
    batch: Option<ExecutedBatch>,
    burns: Vec<OutInstructionWithBalance>,
    Ghost(block): Ghost<CanonicalEventsModel>,
)
    requires
        batch is Some <==> batches_from(block.batch_events, network).len() > 0,
        batch matches Some(b) ==> b@ == executed(batches_from(block.batch_events, network)[0]),
        burns@ == burns_for(block.burn_events, network),
    ensures
        send_models(final(sends)@) == send_models(old(sends)@) + block_sends(
            block_number,
            block,
            network,
        ),
{
    let ghost before = send_models(sends@);
    if batch.is_some() || burns.len() > 0 {
        let message = CoordinatorMessage::Block { serai_block_number: block_number, batch, burns };
        sends.push((network, message));
        assert(message@ == block_sends(block_number, block, network)[0].1);
    }
    assert(send_models(sends@) =~= before + block_sends(block_number, block, network));
}

/// Decide what's to be written to the DB for a block, given the ID of the last batch indexed for
/// each network.
pub fn canonical_txn(
    last_indexed_batch_id: &PerNetwork<Option<u32>>,
    block_number: u64,
    block: CanonicalEvents,
) -> (txn: Result<CanonicalTxn, StreamError>)
    requires
        block_number < u64::MAX,
    ensures
        match txn {
            Ok(txn) => {
                &&& failure(*last_indexed_batch_id, block@.batch_events) is None
                &&& send_models(txn.sends@) == sends(block_number, block@)
                &&& forall|network: ExternalNetworkId| #[trigger]
                    txn.last_indexed_batch_id.of(network) == last_id_after(
                        last_indexed_batch_id.of(network),
                        batches_from(block@.batch_events, network),
                    )
                &&& txn.scan_from == block_number + 1
            },
            Err(error) => failure(*last_indexed_batch_id, block@.batch_events) == Some(error),
        },
{
    let ghost all = block@;
    let bitcoin_batch = match network_batch(
        ExternalNetworkId::Bitcoin,
        last_indexed_batch_id.bitcoin,
        &block.batch_events,
    ) {
        Ok(batch) => batch,
        Err(error) => return Err(error),
    };
    let ethereum_batch = match network_batch(
        ExternalNetworkId::Ethereum,
        last_indexed_batch_id.ethereum,
        &block.batch_events,
    ) {
        Ok(batch) => batch,
        Err(error) => return Err(error),
    };
    let monero_batch = match network_batch(
        ExternalNetworkId::Monero,
        last_indexed_batch_id.monero,
        &block.batch_events,
    ) {
        Ok(batch) => batch,
        Err(error) => return Err(error),
    };
    let last = PerNetwork {
        bitcoin: match &bitcoin_batch {
            Some(batch) => Some(batch.id),
            None => last_indexed_batch_id.bitcoin,
        },
        ethereum: match &ethereum_batch {
            Some(batch) => Some(batch.id),
            None => last_indexed_batch_id.ethereum,
        },
        monero: match &monero_batch {
            Some(batch) => Some(batch.id),
            None => last_indexed_batch_id.monero,
        },
    };

    let mut messages: Vec<(ExternalNetworkId, CoordinatorMessage)> = Vec::new();
    send_set_keys(&mut messages, block.time, block.set_keys_events);
    send_slashes(&mut messages, &block.slash_report_events);
    let burns = network_burns(block.burn_events);
    proof {
        assert(burns.of(ExternalNetworkId::Bitcoin)@ == burns_for(
            all.burn_events,
            ExternalNetworkId::Bitcoin,
        ));
        assert(burns.of(ExternalNetworkId::Ethereum)@ == burns_for(
            all.burn_events,
            ExternalNetworkId::Ethereum,
        ));
        assert(burns.of(ExternalNetworkId::Monero)@ == burns_for(
            all.burn_events,
            ExternalNetworkId::Monero,
        ));
    }
    send_block(
        &mut messages,
        block_number,
        ExternalNetworkId::Bitcoin,
        bitcoin_batch,
        burns.bitcoin,
        Ghost(all),
    );
    send_block(
        &mut messages,
        block_number,
        ExternalNetworkId::Ethereum,
        ethereum_batch,
        burns.ethereum,
        Ghost(all),
    );
    send_block(
        &mut messages,
        block_number,
        ExternalNetworkId::Monero,
        monero_batch,
        burns.monero,
        Ghost(all),
    );
    Ok(
        CanonicalTxn {
            sends: messages,
            last_indexed_batch_id: last,
            scan_from: block_number + 1,
        },
    )
}

/// The message of a delivery, where it's for a network's processor.
pub open spec fn message_for(network: ExternalNetworkId) -> spec_fn(Delivery) -> Option<
    MessageModel,
> {
    |delivery: Delivery|
        if delivery.0 == network {
            Some(delivery.1)
        } else {
            None
        }
}

/// The messages a network's processor is sent.
pub open spec fn messages_for(sends: Seq<Delivery>, network: ExternalNetworkId) -> Seq<
    MessageModel,
> {
    sends.filter_map(message_for(network))
}

/// What this stream keeps in the DB.
#[derive(PartialEq, Eq, Debug)]
pub struct CanonicalDb {
    /// The block to scan from.
    pub scan_from: Option<u64>,
    /// The ID of the last batch indexed for each network.
    pub last_indexed_batch_id: PerNetwork<Option<u32>>,
    /// The messages sent to each network's processor, in order.
    pub messages: PerNetwork<Vec<CoordinatorMessage>>,
}

/// The content of a [`CanonicalDb`].
#[verifier::ext_equal]
pub struct CanonicalModel {
    pub scan_from: Option<u64>,
    pub last_indexed_batch_id: PerNetwork<Option<u32>>,
    pub messages: PerNetwork<Seq<MessageModel>>,
}

/// Messages, by their content.
pub open spec fn message_models(messages: Seq<CoordinatorMessage>) -> Seq<MessageModel> {
    messages.map_values(|m: CoordinatorMessage| m@)
}

impl View for CanonicalDb {
    type V = CanonicalModel;

    open spec fn view(&self) -> CanonicalModel {
        CanonicalModel {
            scan_from: self.scan_from,
            last_indexed_batch_id: self.last_indexed_batch_id,
            messages: PerNetwork {
                bitcoin: message_models(self.messages.bitcoin@),
                ethereum: message_models(self.messages.ethereum@),
                monero: message_models(self.messages.monero@),
            },
        }
    }
}

impl CanonicalModel {
    /// Whether nothing was written.
    pub open spec fn is_new(self) -> bool {
        &&& self.scan_from is None
        &&& forall|network: ExternalNetworkId| #[trigger]
            self.last_indexed_batch_id.of(network) is None
        &&& forall|network: ExternalNetworkId| #[trigger] self.messages.of(network).len() == 0
    }

    /// The block scanning starts from.
    pub open spec fn start(self) -> u64 {
        match self.scan_from {
            Some(number) => number,
            None => 0,
        }
    }

    /// This, once a block with nothing wrong was indexed.
    pub open spec fn indexed(self, block_number: u64, block: CanonicalEventsModel) -> CanonicalModel {
        let batches = block.batch_events;
        let sent = sends(block_number, block);
        let last = self.last_indexed_batch_id;
        CanonicalModel {
            scan_from: Some((block_number + 1) as u64),
            last_indexed_batch_id: PerNetwork {
                bitcoin: last_id_after(
                    last.bitcoin,
                    batches_from(batches, ExternalNetworkId::Bitcoin),
                ),
                ethereum: last_id_after(
                    last.ethereum,
                    batches_from(batches, ExternalNetworkId::Ethereum),
                ),
                monero: last_id_after(
                    last.monero,
                    batches_from(batches, ExternalNetworkId::Monero),
                ),
            },
            messages: PerNetwork {
                bitcoin: self.messages.bitcoin + messages_for(sent, ExternalNetworkId::Bitcoin),
                ethereum: self.messages.ethereum + messages_for(sent, ExternalNetworkId::Ethereum),
                monero: self.messages.monero + messages_for(sent, ExternalNetworkId::Monero),
            },
        }
    }
}

/// The messages of one more delivery.
proof fn lemma_messages_for_push(
    sends: Seq<Delivery>,
    delivery: Delivery,
    network: ExternalNetworkId,
)
    ensures
        messages_for(sends.push(delivery), network) == if delivery.0 == network {
            messages_for(sends, network).push(delivery.1)
        } else {
            messages_for(sends, network)
        },
{
    lemma_filter_map_push(sends, delivery, message_for(network));
}

/// Messages to a network's processor, with what's sent by one more delivery.
proof fn lemma_messages_push(
    messages: Seq<CoordinatorMessage>,
    message: CoordinatorMessage,
    before: Seq<MessageModel>,
    sent: Seq<MessageModel>,
)
    requires
        message_models(messages) == before + sent,
    ensures
        message_models(messages.push(message)) == before + sent.push(message@),
{
    assert(message_models(messages.push(message)) =~= message_models(messages).push(message@));
    assert((before + sent).push(message@) =~= before + sent.push(message@));
}

impl CanonicalDb {
    /// A DB which nothing was written to.
    pub fn new() -> (db: Self)
        ensures
            db@.is_new(),
    {
        CanonicalDb {
            scan_from: None,
            last_indexed_batch_id: PerNetwork { bitcoin: None, ethereum: None, monero: None },
            messages: PerNetwork { bitcoin: Vec::new(), ethereum: Vec::new(), monero: Vec::new() },
        }
    }

    /// Write all of a transaction.
    fn commit(&mut self, txn: CanonicalTxn)
        ensures
            final(self)@.scan_from == Some(txn.scan_from),
            final(self)@.last_indexed_batch_id == txn.last_indexed_batch_id,
            final(self)@.messages.bitcoin == old(self)@.messages.bitcoin + messages_for(
                send_models(txn.sends@),
                ExternalNetworkId::Bitcoin,
            ),
            final(self)@.messages.ethereum == old(self)@.messages.ethereum + messages_for(
                send_models(txn.sends@),
                ExternalNetworkId::Ethereum,
            ),
            final(self)@.messages.monero == old(self)@.messages.monero + messages_for(
                send_models(txn.sends@),
                ExternalNetworkId::Monero,
            ),
    {
        let ghost before = self@.messages;
        let ghost all = txn.sends@;
        self.scan_from = Some(txn.scan_from);
        self.last_indexed_batch_id = txn.last_indexed_batch_id;
        proof {
            let none = send_models(all.take(0));
            assert(none =~= seq![]);
            assert(before.bitcoin + messages_for(none, ExternalNetworkId::Bitcoin)
                =~= before.bitcoin);
            assert(before.ethereum + messages_for(none, ExternalNetworkId::Ethereum)
                =~= before.ethereum);
            assert(before.monero + messages_for(none, ExternalNetworkId::Monero)
                =~= before.monero);
        }
        for send in it: txn.sends
            invariant
                it.seq() == all,
                self.scan_from == Some(txn.scan_from),
                self.last_indexed_batch_id == txn.last_indexed_batch_id,
                message_models(self.messages.bitcoin@) == before.bitcoin + messages_for(
                    send_models(all.take(it.index())),
                    ExternalNetworkId::Bitcoin,
                ),
                message_models(self.messages.ethereum@) == before.ethereum + messages_for(
                    send_models(all.take(it.index())),
                    ExternalNetworkId::Ethereum,
                ),
                message_models(self.messages.monero@) == before.monero + messages_for(
                    send_models(all.take(it.index())),
                    ExternalNetworkId::Monero,
                ),
        {
            let (network, message) = send;
            proof {
                let i = it.index();
                let done = send_models(all.take(i));
                assert(all.take(i + 1) =~= all.take(i).push(send));
                lemma_send_models_push(all.take(i), network, message);
                lemma_messages_for_push(done, (network, message@), ExternalNetworkId::Bitcoin);
                lemma_messages_for_push(done, (network, message@), ExternalNetworkId::Ethereum);
                lemma_messages_for_push(done, (network, message@), ExternalNetworkId::Monero);
                match network {
                    ExternalNetworkId::Bitcoin => lemma_messages_push(
                        self.messages.bitcoin@,
                        message,
                        before.bitcoin,
                        messages_for(done, network),
                    ),
                    ExternalNetworkId::Ethereum => lemma_messages_push(
                        self.messages.ethereum@,
                        message,
                        before.ethereum,
                        messages_for(done, network),
                    ),
                    ExternalNetworkId::Monero => lemma_messages_push(
                        self.messages.monero@,
                        message,
                        before.monero,
                        messages_for(done, network),
                    ),
                }
            }
            match network {
                ExternalNetworkId::Bitcoin => self.messages.bitcoin.push(message),
                ExternalNetworkId::Ethereum => self.messages.ethereum.push(message),
                ExternalNetworkId::Monero => self.messages.monero.push(message),
            }
        }
        assert(all.take(all.len() as int) =~= all);
    }

    /// Index a block, unless something's wrong with it.
    pub fn index(&mut self, block_number: u64, block: CanonicalEvents) -> (res: Result<
        (),
        StreamError,
    >)
        requires
            block_number < u64::MAX,
        ensures
            match res {
                Ok(()) => {
                    &&& failure(old(self)@.last_indexed_batch_id, block@.batch_events) is None
                    &&& final(self)@ == old(self)@.indexed(block_number, block@)
                },
                Err(error) => {
                    &&& failure(old(self)@.last_indexed_batch_id, block@.batch_events) == Some(
                        error,
                    )
                    &&& *final(self) == *old(self)
                },
            },
    {
        match canonical_txn(&self.last_indexed_batch_id, block_number, block) {
            Ok(txn) => {
                proof {
                    let last = txn.last_indexed_batch_id;
                    assert(last.of(ExternalNetworkId::Bitcoin) == last.bitcoin);
                    assert(last.of(ExternalNetworkId::Ethereum) == last.ethereum);
                    assert(last.of(ExternalNetworkId::Monero) == last.monero);
                }
                self.commit(txn);
                Ok(())
            },
            Err(error) => Err(error),
        }
    }
}

/// What's sent for what a block has for a network is only sent to that network.
proof fn lemma_block_messages(
    block_number: u64,
    block: CanonicalEventsModel,
    of: ExternalNetworkId,
    network: ExternalNetworkId,
)
    ensures
        messages_for(block_sends(block_number, block, of), network) == if of == network {
            block_messages(block_number, block, network)
        } else {
            seq![]
        },
{
    let sent = block_sends(block_number, block, of);
    let none = Seq::<Delivery>::empty();
    assert(messages_for(none, network) =~= seq![]);
    if sent.len() == 0 {
        assert(sent =~= none);
    } else {
        assert(sent =~= none.push(sent[0]));
        lemma_messages_for_push(none, sent[0], network);
    }
    assert(block_messages(block_number, block, of) =~= if sent.len() == 0 {
        seq![]
    } else {
        seq![sent[0].1]
    });
    if of == network {
        assert(messages_for(sent, network) =~= block_messages(block_number, block, network));
    }
}

/// The message which a network's processor is sent for what a block has for the network.
pub open spec fn block_messages(
    block_number: u64,
    block: CanonicalEventsModel,
    network: ExternalNetworkId,
) -> Seq<MessageModel> {
    block_sends(block_number, block, network).map_values(|d: Delivery| d.1)
}

/// Of a block, a network's processor is first sent the keys which were set, and the slashes which
/// were reported, for that network, each in the order of the block's events. The last message is
/// the one for the block's batch and burns.
pub proof fn messages_keep_order(
    block_number: u64,
    block: CanonicalEventsModel,
    network: ExternalNetworkId,
)
    ensures
        messages_for(sends(block_number, block), network) == messages_for(
            set_keys_sends(block),
            network,
        ) + messages_for(slashes_sends(block.slash_report_events), network) + block_messages(
            block_number,
            block,
            network,
        ),
{
    let a = set_keys_sends(block);
    let b = slashes_sends(block.slash_report_events);
    let bitcoin = block_sends(block_number, block, ExternalNetworkId::Bitcoin);
    let ethereum = block_sends(block_number, block, ExternalNetworkId::Ethereum);
    let monero = block_sends(block_number, block, ExternalNetworkId::Monero);
    lemma_filter_map_add(a, b, message_for(network));
    lemma_filter_map_add(a + b, bitcoin, message_for(network));
    lemma_filter_map_add(a + b + bitcoin, ethereum, message_for(network));
    lemma_filter_map_add(a + b + bitcoin + ethereum, monero, message_for(network));
    lemma_block_messages(block_number, block, ExternalNetworkId::Bitcoin, network);
    lemma_block_messages(block_number, block, ExternalNetworkId::Ethereum, network);
    lemma_block_messages(block_number, block, ExternalNetworkId::Monero, network);
    assert(messages_for(sends(block_number, block), network) =~= messages_for(a, network)
        + messages_for(b, network) + block_messages(block_number, block, network));
}

/// The ID of the batch a message is of, if it's of one.
pub open spec fn batch_id(message: MessageModel) -> Option<u32> {
    match message {
        MessageModel::Block { batch: Some(batch), .. } => Some(batch.id),
        _ => None,
    }
}

/// The number of the block whose batch and burns a message has, if it's such a message.
pub open spec fn block_number(message: MessageModel) -> Option<u64> {
    match message {
        MessageModel::Block { serai_block_number, .. } => Some(serai_block_number),
        _ => None,
    }
}

/// The IDs of the batches in messages.
pub open spec fn batch_ids(messages: Seq<MessageModel>) -> Seq<u32> {
    messages.filter_map(|m: MessageModel| batch_id(m))
}

/// The numbers of the blocks whose batch and burns are in messages.
pub open spec fn block_numbers(messages: Seq<MessageModel>) -> Seq<u64> {
    messages.filter_map(|m: MessageModel| block_number(m))
}

/// What's picked only of messages with a batch and burns isn't picked of deliveries without any.
proof fn lemma_none_picked<B>(
    sends: Seq<Delivery>,
    network: ExternalNetworkId,
    pick: spec_fn(MessageModel) -> Option<B>,
)
    requires
        forall|m: MessageModel| m !is Block ==> #[trigger] pick(m) is None,
        forall|i: int| 0 <= i < sends.len() ==> (#[trigger] sends[i]).1 !is Block,
    ensures
        messages_for(sends, network).filter_map(pick) == Seq::<B>::empty(),
    decreases sends.len(),
{
    if sends.len() > 0 {
        let rest = sends.drop_last();
        assert(sends =~= rest.push(sends.last()));
        assert(sends[sends.len() - 1].1 !is Block);
        assert forall|i: int| 0 <= i < rest.len() implies (#[trigger] rest[i]).1 !is Block by {
            assert(rest[i] == sends[i]);
        }
        lemma_none_picked(rest, network, pick);
        lemma_messages_for_push(rest, sends.last(), network);
        lemma_filter_map_push(messages_for(rest, network), sends.last().1, pick);
    }
}

/// What's reported of slashes are messages with neither a batch nor burns.
proof fn lemma_slashes_sends(events: Seq<ReportedSlashes>)
    ensures
        forall|i: int|
            0 <= i < slashes_sends(events).len() ==> (#[trigger] slashes_sends(
                events,
            )[i]).1 !is Block,
    decreases events.len(),
{
    if events.len() > 0 {
        let rest = events.drop_last();
        lemma_slashes_sends(rest);
        assert(events =~= rest.push(events.last()));
        lemma_filter_map_push(rest, events.last(), |e: ReportedSlashes| slashes_send(e));
    }
}

/// What's picked only of messages with a batch and burns is picked of that one message.
proof fn lemma_picked<B>(
    block_number: u64,
    block: CanonicalEventsModel,
    network: ExternalNetworkId,
    pick: spec_fn(MessageModel) -> Option<B>,
)
    requires
        forall|m: MessageModel| m !is Block ==> #[trigger] pick(m) is None,
    ensures
        messages_for(sends(block_number, block), network).filter_map(pick) == block_messages(
            block_number,
            block,
            network,
        ).filter_map(pick),
{
    let a = set_keys_sends(block);
    let b = slashes_sends(block.slash_report_events);
    messages_keep_order(block_number, block, network);
    lemma_slashes_sends(block.slash_report_events);
    assert forall|i: int| 0 <= i < b.len() implies (#[trigger] b[i]).1 !is Block by {}
    assert forall|i: int| 0 <= i < a.len() implies (#[trigger] a[i]).1 !is Block by {
        assert(a[i] == set_keys_send(block.time, block.set_keys_events[i]));
    }
    lemma_none_picked(a, network, pick);
    lemma_none_picked(b, network, pick);
    let first = messages_for(a, network);
    let second = messages_for(b, network);
    let third = block_messages(block_number, block, network);
    lemma_filter_map_add(first, second, pick);
    lemma_filter_map_add(first + second, third, pick);
    assert((first + second + third).filter_map(pick) =~= third.filter_map(pick));
}

impl CanonicalModel {
    /// The batches sent to each network's processor have the IDs zero through the last indexed, in
    /// order.
    pub open spec fn batches_contiguous(self) -> bool {
        forall|network: ExternalNetworkId|
            {
                let ids = batch_ids(#[trigger] self.messages.of(network));
                &&& ids.len() == match self.last_indexed_batch_id.of(network) {
                    None => 0,
                    Some(last) => last + 1,
                }
                &&& forall|i: int| 0 <= i < ids.len() ==> #[trigger] ids[i] == i
            }
    }

    /// The blocks whose batch and burns were sent to each network's processor are ascending, and all
    /// before the block to scan from.
    pub open spec fn blocks_ascending(self) -> bool {
        forall|network: ExternalNetworkId|
            {
                let numbers = block_numbers(#[trigger] self.messages.of(network));
                &&& forall|i: int|
                    0 <= i < numbers.len() ==> #[trigger] numbers[i] < self.start()
                &&& forall|i: int, j: int|
                    0 <= i < j < numbers.len() ==> #[trigger] numbers[i] < #[trigger] numbers[j]
            }
    }
}

/// Nothing's wrong with any network's batches where nothing's wrong with the block's.
pub proof fn no_failure_for_any_network(
    last: PerNetwork<Option<u32>>,
    batches: Seq<Batch>,
    network: ExternalNetworkId,
)
    requires
        failure(last, batches) is None,
    ensures
        batch_failure(last.of(network), batches_from(batches, network)) is None,
{
}

/// The batches sent to a network's processor always have the IDs zero through the last indexed, each
/// once, in order: indexing a block keeps this.
pub proof fn batches_stay_contiguous(
    db: CanonicalModel,
    number: u64,
    block: CanonicalEventsModel,
)
    requires
        db.batches_contiguous(),
        failure(db.last_indexed_batch_id, block.batch_events) is None,
    ensures
        db.indexed(number, block).batches_contiguous(),
{
    let after = db.indexed(number, block);
    let pick = |m: MessageModel| batch_id(m);
    assert forall|network: ExternalNetworkId|
        {
            let ids = batch_ids(#[trigger] after.messages.of(network));
            &&& ids.len() == match after.last_indexed_batch_id.of(network) {
                None => 0,
                Some(last) => last + 1,
            }
            &&& forall|i: int| 0 <= i < ids.len() ==> #[trigger] ids[i] == i
        } by {
        let batches = batches_from(block.batch_events, network);
        let sent = messages_for(sends(number, block), network);
        let own = block_messages(number, block, network);
        assert(after.messages.of(network) == db.messages.of(network) + sent);
        lemma_filter_map_add(db.messages.of(network), sent, pick);
        lemma_picked(number, block, network, pick);
        no_failure_for_any_network(db.last_indexed_batch_id, block.batch_events, network);
        let none = Seq::<MessageModel>::empty();
        assert(none.filter_map(pick) =~= seq![]);
        if own.len() == 0 {
            assert(own =~= none);
        } else {
            assert(own =~= none.push(own[0]));
            lemma_filter_map_push(none, own[0], pick);
        }
    }
}

/// The batch and burns of blocks are always sent in the order of the blocks, each block's once:
/// indexing a block which is still to be scanned keeps this.
pub proof fn blocks_stay_ascending(db: CanonicalModel, number: u64, block: CanonicalEventsModel)
    requires
        db.blocks_ascending(),
        db.start() <= number < u64::MAX,
    ensures
        db.indexed(number, block).blocks_ascending(),
{
    let after = db.indexed(number, block);
    let pick = |m: MessageModel| block_number(m);
    assert forall|network: ExternalNetworkId|
        {
            let numbers = block_numbers(#[trigger] after.messages.of(network));
            &&& forall|i: int| 0 <= i < numbers.len() ==> #[trigger] numbers[i] < after.start()
            &&& forall|i: int, j: int|
                0 <= i < j < numbers.len() ==> #[trigger] numbers[i] < #[trigger] numbers[j]
        } by {
        let sent = messages_for(sends(number, block), network);
        let own = block_messages(number, block, network);
        assert(after.messages.of(network) == db.messages.of(network) + sent);
        lemma_filter_map_add(db.messages.of(network), sent, pick);
        lemma_picked(number, block, network, pick);
        let none = Seq::<MessageModel>::empty();
        assert(none.filter_map(pick) =~= seq![]);
        if own.len() == 0 {
            assert(own =~= none);
        } else {
            assert(own =~= none.push(own[0]));
            lemma_filter_map_push(none, own[0], pick);
        }
        let before = block_numbers(db.messages.of(network));
        assert(forall|i: int| 0 <= i < before.len() ==> #[trigger] before[i] < db.start());
    }
}

/// A DB which nothing was written to has what every block indexed keeps.
pub proof fn new_db_is_contiguous_and_ascending(db: CanonicalModel)
    requires
        db.is_new(),
    ensures
        db.batches_contiguous(),
        db.blocks_ascending(),
{
    assert forall|network: ExternalNetworkId|
        batch_ids(#[trigger] db.messages.of(network)).len() == 0 && block_numbers(
            db.messages.of(network),
        ).len() == 0 && db.last_indexed_batch_id.of(network) is None by {
        assert(db.messages.of(network) =~= seq![]);
    }
}

/// The keys set for a network.
pub open spec fn set_keys_for(events: Seq<SetKeys>, network: ExternalNetworkId) -> Seq<SetKeys> {
    events.filter_map(
        |e: SetKeys|
            if e.set.network == network {
                Some(e)
            } else {
                None
            },
    )
}

/// The sets for a network whose slashes were reported.
pub open spec fn slashes_for(
    events: Seq<ReportedSlashes>,
    network: ExternalNetworkId,
) -> Seq<ExternalValidatorSet> {
    events.filter_map(slashes_of(network))
}

/// The set slashes were reported of, where it's for a network.
pub open spec fn slashes_of(network: ExternalNetworkId) -> spec_fn(ReportedSlashes) -> Option<
    ExternalValidatorSet,
> {
    |e: ReportedSlashes|
        match e {
            ReportedSlashes::ExternalValidatorSet(set) => if set.network == network {
                Some(set)
            } else {
                None
            },
            ReportedSlashes::SeraiValidator(_) => None,
        }
}

/// Whether two blocks are of one time, and have the same events, in the same order, for each
/// network. How the events of different networks are interleaved may differ.
pub open spec fn same_by_network(a: CanonicalEventsModel, b: CanonicalEventsModel) -> bool {
    &&& a.time == b.time
    &&& forall|network: ExternalNetworkId|
        {
            &&& #[trigger] set_keys_for(a.set_keys_events, network) == set_keys_for(
                b.set_keys_events,
                network,
            )
            &&& slashes_for(a.slash_report_events, network) == slashes_for(
                b.slash_report_events,
                network,
            )
            &&& batches_from(a.batch_events, network) == batches_from(b.batch_events, network)
            &&& burns_for(a.burn_events, network) == burns_for(b.burn_events, network)
        }
}

/// What a network's processor is sent for keys follows from the keys set for the network.
pub proof fn lemma_set_keys_messages(block: CanonicalEventsModel, network: ExternalNetworkId)
    ensures
        messages_for(set_keys_sends(block), network) == set_keys_for(
            block.set_keys_events,
            network,
        ).map_values(|e: SetKeys| set_keys_send(block.time, e).1),
    decreases block.set_keys_events.len(),
{
    let events = block.set_keys_events;
    let message = |e: SetKeys| set_keys_send(block.time, e).1;
    if events.len() == 0 {
        assert(set_keys_sends(block) =~= seq![]);
        assert(messages_for(set_keys_sends(block), network) =~= set_keys_for(
            events,
            network,
        ).map_values(message));
    } else {
        let rest = CanonicalEventsModel { set_keys_events: events.drop_last(), ..block };
        lemma_set_keys_messages(rest, network);
        let last = events.last();
        let picked = set_keys_for(rest.set_keys_events, network);
        assert(events =~= rest.set_keys_events.push(last));
        assert(set_keys_sends(block) =~= set_keys_sends(rest).push(
            set_keys_send(block.time, last),
        ));
        lemma_messages_for_push(set_keys_sends(rest), set_keys_send(block.time, last), network);
        lemma_filter_map_push(
            rest.set_keys_events,
            last,
            |e: SetKeys|
                if e.set.network == network {
                    Some(e)
                } else {
                    None
                },
        );
        assert(picked.push(last).map_values(message) =~= picked.map_values(message).push(
            message(last),
        ));
    }
}

/// What a network's processor is sent for slashes follows from the slashes reported for the network.
pub proof fn lemma_slashes_messages(events: Seq<ReportedSlashes>, network: ExternalNetworkId)
    ensures
        messages_for(slashes_sends(events), network) == slashes_for(events, network).map_values(
            |set: ExternalValidatorSet| MessageModel::SlashesReported { session: set.session },
        ),
    decreases events.len(),
{
    let message = |set: ExternalValidatorSet|
        MessageModel::SlashesReported { session: set.session };
    if events.len() == 0 {
        assert(slashes_sends(events) =~= seq![]);
        assert(messages_for(slashes_sends(events), network) =~= slashes_for(
            events,
            network,
        ).map_values(message));
    } else {
        let rest = events.drop_last();
        let last = events.last();
        lemma_slashes_messages(rest, network);
        assert(events =~= rest.push(last));
        lemma_filter_map_push(rest, last, |e: ReportedSlashes| slashes_send(e));
        lemma_filter_map_push(rest, last, slashes_of(network));
        if let ReportedSlashes::ExternalValidatorSet(set) = last {
            let send = (set.network, MessageModel::SlashesReported { session: set.session });
            lemma_messages_for_push(slashes_sends(rest), send, network);
            let picked = slashes_for(rest, network);
            assert(picked.push(set).map_values(message) =~= picked.map_values(message).push(
                message(set),
            ));
        }
    }
}

/// How the events of different networks are interleaved in a block changes neither what's wrong with
/// the block, nor what's indexed of it: each network's messages, the ID of its last batch, and the
/// block to scan from are the same.
pub proof fn interleaving_of_networks_is_irrelevant(
    db: CanonicalModel,
    number: u64,
    a: CanonicalEventsModel,
    b: CanonicalEventsModel,
)
    requires
        same_by_network(a, b),
    ensures
        failure(db.last_indexed_batch_id, a.batch_events) == failure(
            db.last_indexed_batch_id,
            b.batch_events,
        ),
        db.indexed(number, a) == db.indexed(number, b),
{
    lemma_same_messages(number, a, b, ExternalNetworkId::Bitcoin);
    lemma_same_messages(number, a, b, ExternalNetworkId::Ethereum);
    lemma_same_messages(number, a, b, ExternalNetworkId::Monero);
}

/// What a network's processor is sent follows from the events for the network.
proof fn lemma_same_messages(
    number: u64,
    a: CanonicalEventsModel,
    b: CanonicalEventsModel,
    network: ExternalNetworkId,
)
    requires
        same_by_network(a, b),
    ensures
        messages_for(sends(number, a), network) == messages_for(sends(number, b), network),
        batches_from(a.batch_events, network) == batches_from(b.batch_events, network),
{
    assert(set_keys_for(a.set_keys_events, network) == set_keys_for(b.set_keys_events, network));
    messages_keep_order(number, a, network);
    messages_keep_order(number, b, network);
    lemma_set_keys_messages(a, network);
    lemma_set_keys_messages(b, network);
    lemma_slashes_messages(a.slash_report_events, network);
    lemma_slashes_messages(b.slash_report_events, network);
}

} // verus!
