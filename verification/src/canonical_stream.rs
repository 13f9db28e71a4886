//! The task which streams canonical events.
use crate::canonical::{
    batches_stay_contiguous, blocks_stay_ascending, failure,
    interleaving_of_networks_is_irrelevant, same_by_network, CanonicalEvents,
    CanonicalEventsModel,
};
use crate::cosign::Cosigning;
use crate::db::{DbModel, MemDb};
use crate::errors::StreamError;
use crate::events::{
    in_order, lemma_in_order_none, lemma_in_order_push, Batch, BurnWithInstruction, Event,
    ReportedSlashes, SetKeys,
};
use crate::network_id::ExternalNetworkId;
use crate::node::{
    block_fetched, events_fetched, get_block, get_events, get_hash_to_fetch, hash_to_fetch,
    BlockReply, EventsReply, Replies, SeraiBlock,
};
use crate::primitives::BlockHash;
use crate::seqs::lemma_filter_map_push;
use crate::task::{
    due, fetched_model, fetches, iteration, lemma_scanned, lemma_stops_after, ran, run_iteration,
    Fetched, RangeProcessor,
};
use vstd::prelude::*;

verus! {

/// An event, where it's of keys having been set.
pub open spec fn set_keys_event(event: Event) -> Option<SetKeys> {
    match event {
        Event::SetKeys(e) => Some(e),
        _ => None,
    }
}

/// An event, where it's of slashes having been reported.
pub open spec fn slashes_event(event: Event) -> Option<ReportedSlashes> {
    match event {
        Event::Slashes(e) => Some(e),
        _ => None,
    }
}

/// An event, where it's of a batch having been executed.
pub open spec fn batch_event(event: Event) -> Option<Batch> {
    match event {
        Event::Batch(e) => Some(e),
        _ => None,
    }
}

/// An event, where it's of a burn with an instruction.
pub open spec fn burn_event(event: Event) -> Option<BurnWithInstruction> {
    match event {
        Event::BurnWithInstruction(e) => Some(e),
        _ => None,
    }
}

/// The canonical events among a block's events, each kind in the order of the block.
pub open spec fn canonical_events(time: u64, events: Seq<Event>) -> CanonicalEventsModel {
    CanonicalEventsModel {
        time,
        set_keys_events: events.filter_map(|e: Event| set_keys_event(e)),
        slash_report_events: events.filter_map(|e: Event| slashes_event(e)),
        batch_events: events.filter_map(|e: Event| batch_event(e)),
        burn_events: events.filter_map(|e: Event| burn_event(e)),
    }
}

/// The canonical events among one more event.
proof fn lemma_canonical_events_push(time: u64, events: Seq<Event>, event: Event)
    ensures
        ({
            let before = canonical_events(time, events);
            let after = canonical_events(time, events.push(event));
            &&& after.set_keys_events == match set_keys_event(event) {
                Some(e) => before.set_keys_events.push(e),
                None => before.set_keys_events,
            }
            &&& after.slash_report_events == match slashes_event(event) {
                Some(e) => before.slash_report_events.push(e),
                None => before.slash_report_events,
            }
            &&& after.batch_events == match batch_event(event) {
                Some(e) => before.batch_events.push(e),
                None => before.batch_events,
            }
            &&& after.burn_events == match burn_event(event) {
                Some(e) => before.burn_events.push(e),
                None => before.burn_events,
            }
        }),
{
    lemma_filter_map_push(events, event, |e: Event| set_keys_event(e));
    lemma_filter_map_push(events, event, |e: Event| slashes_event(e));
    lemma_filter_map_push(events, event, |e: Event| batch_event(e));
    lemma_filter_map_push(events, event, |e: Event| burn_event(e));
}

impl CanonicalEvents {
    /// Add the canonical events of a transaction.
    fn extend(&mut self, transaction: Vec<Event>, Ghost(done): Ghost<Seq<Event>>)
        requires
            old(self)@ == canonical_events(old(self).time, done),
        ensures
            final(self)@ == canonical_events(old(self).time, done + transaction@),
    {
        let ghost time = self.time;
        let ghost all = transaction@;
        assert(done + all.take(0) =~= done);
        for event in it: transaction
            invariant
                it.seq() == all,
                self.time == time,
                self@ == canonical_events(time, done + all.take(it.index())),
        {
            proof {
                let i = it.index();
                assert(done + all.take(i + 1) =~= (done + all.take(i)).push(event));
                lemma_canonical_events_push(time, done + all.take(i), event);
            }
            match event {
                Event::SetKeys(e) => self.set_keys_events.push(e),
                Event::Slashes(e) => self.slash_report_events.push(e),
                Event::Batch(e) => self.batch_events.push(e),
                Event::BurnWithInstruction(e) => self.burn_events.push(e),
                _ => {},
            }
        }
        assert(all.take(all.len() as int) =~= all);
    }

    /// Get the canonical events among a block's events, which are given by transaction.
    pub fn of_block(block: SeraiBlock, events: Vec<Vec<Event>>) -> (selected: Self)
        ensures
            selected@ == canonical_events(block.time(), in_order(events@)),
    {
        let mut selected = CanonicalEvents {
            time: block.time(),
            set_keys_events: Vec::new(),
            slash_report_events: Vec::new(),
            batch_events: Vec::new(),
            burn_events: Vec::new(),
        };
        let ghost all = events@;
        proof {
            lemma_in_order_none();
            assert(all.take(0) =~= seq![]);
            assert(selected@ =~= canonical_events(block.time(), seq![]));
        }
        for transaction in it: events
            invariant
                it.seq() == all,
                selected@ == canonical_events(block.time(), in_order(all.take(it.index()))),
        {
            proof {
                let i = it.index();
                assert(all.take(i + 1) =~= all.take(i).push(transaction));
                lemma_in_order_push(all.take(i), transaction);
            }
            let ghost done = in_order(all.take(it.index()));
            selected.extend(transaction, Ghost(done));
        }
        assert(all.take(all.len() as int) =~= all);
        selected
    }
}

/// A block whose events are to be requested from the node.
#[derive(Clone, Copy, PartialEq, Eq, Debug)]
pub struct CanonicalFetch {
    /// The number of the block.
    pub block_number: u64,
    /// The hash of the block.
    pub block_hash: BlockHash,
}

/// A block whose events were fetched, and which is to be requested from the node itself.
#[derive(PartialEq, Eq, Debug)]
pub struct CanonicalBlockFetch {
    /// The number of the block.
    pub block_number: u64,
    /// The hash of the block.
    pub block_hash: BlockHash,
    /// The events of the block, by transaction.
    pub events: Vec<Vec<Event>>,
}

impl CanonicalFetch {
    /// Go on with the node's answer to the request for the block's events.
    pub fn on_events(self, reply: EventsReply) -> (next: Result<CanonicalBlockFetch, StreamError>)
        ensures
            match next {
                Ok(next) => {
                    &&& next.block_number == self.block_number
                    &&& next.block_hash == self.block_hash
                    &&& events_fetched(self.block_hash, reply) == Ok::<_, StreamError>(
                        in_order(next.events@),
                    )
                },
                Err(error) => events_fetched(self.block_hash, reply) == Err::<
                    Seq<Event>,
                    _,
                >(error),
            },
    {
        match get_events(self.block_hash, reply) {
            Ok(events) => Ok(
                CanonicalBlockFetch {
                    block_number: self.block_number,
                    block_hash: self.block_hash,
                    events,
                },
            ),
            Err(error) => Err(error),
        }
    }
}

impl CanonicalBlockFetch {
    /// Go on with the node's answer to the request for the block.
    pub fn on_block(self, reply: BlockReply) -> (item: Result<(u64, CanonicalEvents), StreamError>)
        ensures
            fetched_model(item) == match block_fetched(self.block_number, self.block_hash, reply) {
                Ok(block) => Ok(
                    (
                        self.block_number,
                        canonical_events(block.time(), in_order(self.events@)),
                    ),
                ),
                Err(error) => Err(error),
            },
    {
        match get_block(self.block_number, self.block_hash, reply) {
            Ok(block) => Ok((self.block_number, CanonicalEvents::of_block(block, self.events))),
            Err(error) => Err(error),
        }
    }
}

/// What's fetched for a block: its hash is looked up, then its events are requested, and last the
/// block is.
pub open spec fn fetch_canonical(
    cosigning: Cosigning,
    block_number: u64,
    replies: Replies,
) -> Fetched<CanonicalEventsModel> {
    match hash_to_fetch(cosigning, block_number) {
        Err(error) => Err(error),
        Ok(block_hash) => match events_fetched(block_hash, replies.events) {
            Err(error) => Err(error),
            Ok(events) => match block_fetched(block_number, block_hash, replies.block) {
                Err(error) => Err(error),
                Ok(block) => Ok((block_number, canonical_events(block.time(), events))),
            },
        },
    }
}

/// The event stream for canonical events.
#[derive(Debug)]
pub struct CanonicalEventStream {
    /// The database this reads from and writes to.
    pub db: MemDb,
}

impl CanonicalEventStream {
    /// Create a new canonical event stream.
    ///
    /// Only one of these may exist over the provided database.
    pub fn new(db: MemDb) -> (stream: Self)
        ensures
            stream.db == db,
    {
        CanonicalEventStream { db }
    }

    /// Start to fetch the item for a block.
    pub fn begin_fetch(&self, block_number: u64) -> (fetch: Result<CanonicalFetch, StreamError>)
        ensures
            fetch == match hash_to_fetch(self.db.cosigning, block_number) {
                Ok(block_hash) => Ok(CanonicalFetch { block_number, block_hash }),
                Err(error) => Err::<CanonicalFetch, StreamError>(error),
            },
    {
        match get_hash_to_fetch(&self.db.cosigning, block_number) {
            Ok(block_hash) => Ok(CanonicalFetch { block_number, block_hash }),
            Err(error) => Err(error),
        }
    }

    /// Run this once, on what the node answers of each block there is to process.
    pub fn run_iteration(&mut self, replies: Vec<Replies>) -> (res: Result<bool, StreamError>)
        requires
            old(self).wf(),
            old(self).db.cosigning.latest_cosigned_block_number matches Some(latest) ==> latest
                < u64::MAX,
            replies@.len() == due(old(self).db.cosigning, old(self).db@.canonical.start()),
        ensures
            final(self).wf(),
            (final(self).db@, res) == iteration::<CanonicalEventStream>(old(self).db@, replies@),
    {
        run_iteration(self, replies)
    }
}

impl RangeProcessor for CanonicalEventStream {
    type Item = CanonicalEvents;

    type State = DbModel;

    open spec fn wf(&self) -> bool {
        self.db.wf()
    }

    open spec fn state(&self) -> DbModel {
        self.db@
    }

    open spec fn cosigning_of(state: DbModel) -> Cosigning {
        state.cosigning
    }

    open spec fn start_of(state: DbModel) -> u64 {
        state.canonical.start()
    }

    open spec fn fetch(cosigning: Cosigning, block_number: u64, replies: Replies) -> Fetched<
        CanonicalEventsModel,
    > {
        fetch_canonical(cosigning, block_number, replies)
    }

    open spec fn rejects(
        state: DbModel,
        block_number: u64,
        item: CanonicalEventsModel,
    ) -> Option<StreamError> {
        failure(state.canonical.last_indexed_batch_id, item.batch_events)
    }

    open spec fn processed(
        state: DbModel,
        block_number: u64,
        item: CanonicalEventsModel,
    ) -> DbModel {
        DbModel { canonical: state.canonical.indexed(block_number, item), ..state }
    }

    proof fn processing_moves_on(state: DbModel, block_number: u64, item: CanonicalEventsModel) {
    }

    proof fn fetching_is_for_the_block(cosigning: Cosigning, block_number: u64, replies: Replies) {
    }

    open spec fn at_once() -> u64 {
        10
    }

    fn items_to_process_at_once() -> (items: u64)
        ensures
            items == 10,
    {
        10
    }

    fn cosigning(&self) -> (cosigning: &Cosigning) {
        &self.db.cosigning
    }

    fn start(&self) -> (start: u64) {
        match self.db.canonical.scan_from {
            Some(number) => number,
            None => 0,
        }
    }

    fn fetch_item(&self, block_number: u64, replies: Replies) -> (item: Result<
        (u64, CanonicalEvents),
        StreamError,
    >) {
        let fetch = match self.begin_fetch(block_number) {
            Ok(fetch) => fetch,
            Err(error) => return Err(error),
        };
        let fetch = match fetch.on_events(replies.events) {
            Ok(fetch) => fetch,
            Err(error) => return Err(error),
        };
        fetch.on_block(replies.block)
    }

    fn process_item(&mut self, block_number: u64, block: CanonicalEvents) -> (res: Result<
        (),
        StreamError,
    >)
        ensures
            final(self).db.cosigning == old(self).db.cosigning,
            final(self).db.auxiliary_keys == old(self).db.auxiliary_keys,
            final(self).db.ephemeral == old(self).db.ephemeral,
    {
        self.db.canonical.index(block_number, block)
    }
}

/// Get the ID of the last batch indexed for a network.
pub fn last_indexed_batch_id(db: &MemDb, network: ExternalNetworkId) -> (id: Option<u32>)
    ensures
        id == db.canonical.last_indexed_batch_id.of(network),
{
    *db.canonical.last_indexed_batch_id.get(network)
}

/// What indexing blocks one by one keeps, processing a range of them does.
proof fn lemma_range_keeps(state: DbModel, replies: Seq<Replies>, i: int)
    requires
        0 <= i <= replies.len(),
        state.canonical.start() + replies.len() <= u64::MAX,
        state.canonical.batches_contiguous(),
        state.canonical.blocks_ascending(),
        ran::<CanonicalEventStream>(
            state,
            fetches::<CanonicalEventStream>(
                state.cosigning,
                state.canonical.start(),
                replies,
            ).take(i),
        ).1 is None,
    ensures
        ({
            let items = fetches::<CanonicalEventStream>(
                state.cosigning,
                state.canonical.start(),
                replies,
            );
            let after = ran::<CanonicalEventStream>(state, items.take(i)).0;
            &&& after.canonical.batches_contiguous()
            &&& after.canonical.blocks_ascending()
        }),
    decreases i,
{
    let items = fetches::<CanonicalEventStream>(
        state.cosigning,
        state.canonical.start(),
        replies,
    );
    if i > 0 {
        assert(items.take(i).drop_last() =~= items.take(i - 1));
        assert(items.take(i).last() == items[i - 1]);
        lemma_range_keeps(state, replies, i - 1);
        lemma_scanned::<CanonicalEventStream>(state, replies, i - 1);
        let before = ran::<CanonicalEventStream>(state, items.take(i - 1)).0;
        let (number, item) = items[i - 1]->Ok_0;
        batches_stay_contiguous(before.canonical, number, item);
        blocks_stay_ascending(before.canonical, number, item);
    }
}

/// However often this stream is run, and whatever the node answers, each network's processor is
/// sent the network's batches with the IDs zero through the last indexed, in order, and the batches
/// and burns of blocks in the order of the blocks.
pub proof fn iterations_keep_messages_in_order(state: DbModel, replies: Seq<Replies>)
    requires
        state.cosigning.latest_cosigned_block_number matches Some(latest) ==> latest < u64::MAX,
        replies.len() == due(state.cosigning, state.canonical.start()),
        state.canonical.batches_contiguous(),
        state.canonical.blocks_ascending(),
    ensures
        ({
            let after = iteration::<CanonicalEventStream>(state, replies).0;
            &&& after.canonical.batches_contiguous()
            &&& after.canonical.blocks_ascending()
        }),
{
    if replies.len() > 0 {
        let items = fetches::<CanonicalEventStream>(
            state.cosigning,
            state.canonical.start(),
            replies,
        );
        if ran::<CanonicalEventStream>(state, items).1 is Some {
            let i = lemma_stops_after::<CanonicalEventStream>(state, items);
            lemma_range_keeps(state, replies, i);
        } else {
            assert(items.take(items.len() as int) =~= items);
            lemma_range_keeps(state, replies, replies.len() as int);
        }
    }
}

/// Processing items only adds messages, and only changes what this stream writes.
proof fn lemma_ran_only_adds(
    state: DbModel,
    items: Seq<Fetched<CanonicalEventsModel>>,
    network: ExternalNetworkId,
)
    ensures
        ({
            let after = ran::<CanonicalEventStream>(state, items).0;
            &&& state.canonical.messages.of(network).is_prefix_of(
                after.canonical.messages.of(network),
            )
            &&& after == DbModel { canonical: after.canonical, ..state }
        }),
    decreases items.len(),
{
    if items.len() > 0 {
        lemma_ran_only_adds(state, items.drop_last(), network);
        let before = ran::<CanonicalEventStream>(state, items.drop_last()).0;
        if let Ok((number, item)) = items.last() {
            let next = before.canonical.indexed(number, item);
            assert(before.canonical.messages.of(network).is_prefix_of(next.messages.of(network)));
        }
    }
}

/// No message which was sent is taken back or changed, and nothing is changed but what this stream
/// writes, the ephemeral event stream's progress included.
pub proof fn iterations_only_add_messages(
    state: DbModel,
    replies: Seq<Replies>,
    network: ExternalNetworkId,
)
    ensures
        ({
            let after = iteration::<CanonicalEventStream>(state, replies).0;
            &&& state.canonical.messages.of(network).is_prefix_of(
                after.canonical.messages.of(network),
            )
            &&& after == DbModel { canonical: after.canonical, ..state }
        }),
{
    let items = fetches::<CanonicalEventStream>(state.cosigning, state.canonical.start(), replies);
    lemma_ran_only_adds(state, items, network);
}

/// However the events of different networks are interleaved in a block, processing it has the same
/// result and leaves the same database.
pub proof fn processing_ignores_interleaving(
    state: DbModel,
    block_number: u64,
    a: CanonicalEventsModel,
    b: CanonicalEventsModel,
)
    requires
        same_by_network(a, b),
    ensures
        CanonicalEventStream::rejects(state, block_number, a) == CanonicalEventStream::rejects(
            state,
            block_number,
            b,
        ),
        CanonicalEventStream::processed(state, block_number, a) == CanonicalEventStream::processed(
            state,
            block_number,
            b,
        ),
{
    interleaving_of_networks_is_irrelevant(state.canonical, block_number, a, b);
}

} // verus!
