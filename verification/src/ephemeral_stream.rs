//! The task which streams ephemeral events.
use crate::auxiliary_keys::AuxiliaryKeysModel;
use crate::cosign::Cosigning;
use crate::db::{DbModel, MemDb};
use crate::ephemeral::{failure, keys_after, EphemeralEvents, EphemeralEventsModel};
use crate::errors::StreamError;
use crate::events::{
    in_order, lemma_in_order_none, lemma_in_order_push, AcceptedHandover, Event, SetDecided,
    SetEmbeddedEllipticCurveKeys,
};
use crate::node::{
    block_fetched, events_fetched, get_block, get_events, get_hash_to_fetch, hash_to_fetch,
    BlockReply, EventsReply, Replies, SeraiBlock,
};
use crate::primitives::BlockHash;
use crate::seqs::lemma_filter_map_push;
use crate::task::{
    due, fetched_model, fetches, iteration, ran, run_iteration, Fetched, RangeProcessor,
};
use vstd::prelude::*;

verus! {

/// An event, where it's of auxiliary keys having been declared.
pub open spec fn keys_event(event: Event) -> Option<SetEmbeddedEllipticCurveKeys> {
    match event {
        Event::SetEmbeddedEllipticCurveKeys(e) => Some(e),
        _ => None,
    }
}

/// An event, where it's of a set having been decided.
pub open spec fn set_decided_event(event: Event) -> Option<SetDecided> {
    match event {
        Event::SetDecided(e) => Some(e),
        _ => None,
    }
}

/// An event, where it's of a handover having been accepted.
pub open spec fn accepted_handover_event(event: Event) -> Option<AcceptedHandover> {
    match event {
        Event::AcceptedHandover(e) => Some(e),
        _ => None,
    }
}

/// The ephemeral events among a block's events, each kind in the order of the block.
pub open spec fn ephemeral_events(
    block_hash: BlockHash,
    time: u64,
    events: Seq<Event>,
) -> EphemeralEventsModel {
    EphemeralEventsModel {
        block_hash,
        time,
        embedded_elliptic_curve_keys_events: events.filter_map(|e: Event| keys_event(e)),
        set_decided_events: events.filter_map(|e: Event| set_decided_event(e)),
        accepted_handover_events: events.filter_map(|e: Event| accepted_handover_event(e)),
    }
}

/// The ephemeral events among one more event.
proof fn lemma_ephemeral_events_push(
    block_hash: BlockHash,
    time: u64,
    events: Seq<Event>,
    event: Event,
)
    ensures
        ({
            let before = ephemeral_events(block_hash, time, events);
            let after = ephemeral_events(block_hash, time, events.push(event));
            &&& after.embedded_elliptic_curve_keys_events == match keys_event(event) {
                Some(e) => before.embedded_elliptic_curve_keys_events.push(e),
                None => before.embedded_elliptic_curve_keys_events,
            }
            &&& after.set_decided_events == match set_decided_event(event) {
                Some(e) => before.set_decided_events.push(e),
                None => before.set_decided_events,
            }
            &&& after.accepted_handover_events == match accepted_handover_event(event) {
                Some(e) => before.accepted_handover_events.push(e),
                None => before.accepted_handover_events,
            }
        }),
{
    lemma_filter_map_push(events, event, |e: Event| keys_event(e));
    lemma_filter_map_push(events, event, |e: Event| set_decided_event(e));
    lemma_filter_map_push(events, event, |e: Event| accepted_handover_event(e));
}

impl EphemeralEvents {
    /// Add the ephemeral events of a transaction.
    fn extend(&mut self, transaction: Vec<Event>, Ghost(done): Ghost<Seq<Event>>)
        requires
            old(self)@ == ephemeral_events(old(self).block_hash, old(self).time, done),
        ensures
            final(self)@ == ephemeral_events(
                old(self).block_hash,
                old(self).time,
                done + transaction@,
            ),
    {
        let ghost block_hash = self.block_hash;
        let ghost time = self.time;
        let ghost all = transaction@;
        assert(done + all.take(0) =~= done);
        for event in it: transaction
            invariant
                it.seq() == all,
                self.block_hash == block_hash,
                self.time == time,
                self@ == ephemeral_events(block_hash, time, done + all.take(it.index())),
        {
            proof {
                let i = it.index();
                assert(done + all.take(i + 1) =~= (done + all.take(i)).push(event));
                lemma_ephemeral_events_push(block_hash, time, done + all.take(i), event);
            }
            match event {
                Event::SetEmbeddedEllipticCurveKeys(e) => {
                    self.embedded_elliptic_curve_keys_events.push(e)
                },
                Event::SetDecided(e) => self.set_decided_events.push(e),
                Event::AcceptedHandover(e) => self.accepted_handover_events.push(e),
                _ => {},
            }
        }
        assert(all.take(all.len() as int) =~= all);
    }

    /// Get the ephemeral events among a block's events, which are given by transaction.
    pub fn of_block(
        block_hash: BlockHash,
        block: SeraiBlock,
        events: Vec<Vec<Event>>,
    ) -> (selected: Self)
        ensures
            selected@ == ephemeral_events(block_hash, block.time(), in_order(events@)),
    {
        let mut selected = EphemeralEvents {
            block_hash,
            time: block.time(),
            embedded_elliptic_curve_keys_events: Vec::new(),
            set_decided_events: Vec::new(),
            accepted_handover_events: Vec::new(),
        };
        let ghost all = events@;
        proof {
            lemma_in_order_none();
            assert(all.take(0) =~= seq![]);
            assert(selected@ =~= ephemeral_events(block_hash, block.time(), seq![]));
        }
        for transaction in it: events
            invariant
                it.seq() == all,
                selected@ == ephemeral_events(
                    block_hash,
                    block.time(),
                    in_order(all.take(it.index())),
                ),
        {
            proof {
                let i = it.index();
                assert(all.take(i + 1) =~= all.take(i).push(transaction));
                lemma_in_order_push(all.take(i), transaction);
            }
            let ghost done = in_order(all.take(it.index()));
            selected.extend(transaction, Ghost(done));
        }
        assert(all.take(all.len() as int) =~= all);
        selected
    }
}

/// A block which is to be requested from the node.
#[derive(Clone, Copy, PartialEq, Eq, Debug)]
pub struct EphemeralFetch {
    /// The number of the block.
    pub block_number: u64,
    /// The hash of the block.
    pub block_hash: BlockHash,
}

/// A block which was fetched, and whose events are to be requested from the node.
#[derive(Clone, Copy, PartialEq, Eq, Debug)]
pub struct EphemeralEventsFetch {
    /// The number of the block.
    pub block_number: u64,
    /// The hash of the block.
    pub block_hash: BlockHash,
    /// The block.
    pub block: SeraiBlock,
}

impl EphemeralFetch {
    /// Go on with the node's answer to the request for the block.
    pub fn on_block(self, reply: BlockReply) -> (next: Result<EphemeralEventsFetch, StreamError>)
        ensures
            next == match block_fetched(self.block_number, self.block_hash, reply) {
                Ok(block) => Ok(
                    EphemeralEventsFetch {
                        block_number: self.block_number,
                        block_hash: self.block_hash,
                        block,
                    },
                ),
                Err(error) => Err::<EphemeralEventsFetch, StreamError>(error),
            },
    {
        match get_block(self.block_number, self.block_hash, reply) {
            Ok(block) => Ok(
                EphemeralEventsFetch {
                    block_number: self.block_number,
                    block_hash: self.block_hash,
                    block,
                },
            ),
            Err(error) => Err(error),
        }
    }
}

impl EphemeralEventsFetch {
    /// Go on with the node's answer to the request for the block's events.
    pub fn on_events(self, reply: EventsReply) -> (item: Result<
        (u64, EphemeralEvents),
        StreamError,
    >)
        ensures
            fetched_model(item) == match events_fetched(self.block_hash, reply) {
                Ok(events) => Ok(
                    (
                        self.block_number,
                        ephemeral_events(self.block_hash, self.block.time(), events),
                    ),
                ),
                Err(error) => Err(error),
            },
    {
        match get_events(self.block_hash, reply) {
            Ok(events) => Ok(
                (
                    self.block_number,
                    EphemeralEvents::of_block(self.block_hash, self.block, events),
                ),
            ),
            Err(error) => Err(error),
        }
    }
}

/// What's fetched for a block: its hash is looked up, then the block is requested, and last its
/// events are.
pub open spec fn fetch_ephemeral(
    cosigning: Cosigning,
    block_number: u64,
    replies: Replies,
) -> Fetched<EphemeralEventsModel> {
    match hash_to_fetch(cosigning, block_number) {
        Err(error) => Err(error),
        Ok(block_hash) => match block_fetched(block_number, block_hash, replies.block) {
            Err(error) => Err(error),
            Ok(block) => match events_fetched(block_hash, replies.events) {
                Err(error) => Err(error),
                Ok(events) => Ok(
                    (block_number, ephemeral_events(block_hash, block.time(), events)),
                ),
            },
        },
    }
}

/// The event stream for ephemeral events.
#[derive(Debug)]
pub struct EphemeralEventStream {
    /// The database this reads from and writes to.
    pub db: MemDb,
    /// Our auxiliary key for Serai, by its encoding.
    pub public_serai_auxiliary_key: [u8; 32],
}

/// What the ephemeral event stream works on, and with.
pub struct EphemeralState {
    pub db: DbModel,
    pub public_serai_auxiliary_key: Seq<u8>,
}

impl EphemeralEventStream {
    /// Create a new ephemeral event stream.
    ///
    /// Only one of these may exist over the provided database.
    pub fn new(db: MemDb, public_serai_auxiliary_key: [u8; 32]) -> (stream: Self)
        ensures
            stream.db == db,
            stream.public_serai_auxiliary_key == public_serai_auxiliary_key,
    {
        EphemeralEventStream { db, public_serai_auxiliary_key }
    }

    /// Start to fetch the item for a block.
    pub fn begin_fetch(&self, block_number: u64) -> (fetch: Result<EphemeralFetch, StreamError>)
        ensures
            fetch == match hash_to_fetch(self.db.cosigning, block_number) {
                Ok(block_hash) => Ok(EphemeralFetch { block_number, block_hash }),
                Err(error) => Err::<EphemeralFetch, StreamError>(error),
            },
    {
        match get_hash_to_fetch(&self.db.cosigning, block_number) {
            Ok(block_hash) => Ok(EphemeralFetch { block_number, block_hash }),
            Err(error) => Err(error),
        }
    }

    /// Run this once, on what the node answers of each block there is to process.
    pub fn run_iteration(&mut self, replies: Vec<Replies>) -> (res: Result<bool, StreamError>)
        requires
            old(self).wf(),
            old(self).db.cosigning.latest_cosigned_block_number matches Some(latest) ==> latest
                < u64::MAX,
            replies@.len() == due(old(self).db.cosigning, old(self).db@.ephemeral.start()),
        ensures
            final(self).wf(),
            (final(self).state(), res) == iteration::<EphemeralEventStream>(
                old(self).state(),
                replies@,
            ),
    {
        run_iteration(self, replies)
    }
}

impl RangeProcessor for EphemeralEventStream {
    type Item = EphemeralEvents;

    type State = EphemeralState;

    open spec fn wf(&self) -> bool {
        self.db.wf()
    }

    open spec fn state(&self) -> EphemeralState {
        EphemeralState {
            db: self.db@,
            public_serai_auxiliary_key: self.public_serai_auxiliary_key@,
        }
    }

    open spec fn cosigning_of(state: EphemeralState) -> Cosigning {
        state.db.cosigning
    }

    open spec fn start_of(state: EphemeralState) -> u64 {
        state.db.ephemeral.start()
    }

    open spec fn fetch(cosigning: Cosigning, block_number: u64, replies: Replies) -> Fetched<
        EphemeralEventsModel,
    > {
        fetch_ephemeral(cosigning, block_number, replies)
    }

    open spec fn rejects(
        state: EphemeralState,
        block_number: u64,
        item: EphemeralEventsModel,
    ) -> Option<StreamError> {
        failure(
            keys_after(state.db.auxiliary_keys, item.embedded_elliptic_curve_keys_events),
            state.public_serai_auxiliary_key,
            item.set_decided_events,
        )
    }

    open spec fn processed(
        state: EphemeralState,
        block_number: u64,
        item: EphemeralEventsModel,
    ) -> EphemeralState {
        let keys = keys_after(
            state.db.auxiliary_keys,
            item.embedded_elliptic_curve_keys_events,
        );
        EphemeralState {
            db: DbModel {
                auxiliary_keys: keys,
                ephemeral: state.db.ephemeral.indexed(
                    keys,
                    state.public_serai_auxiliary_key,
                    block_number,
                    item,
                ),
                ..state.db
            },
            ..state
        }
    }

    proof fn processing_moves_on(
        state: EphemeralState,
        block_number: u64,
        item: EphemeralEventsModel,
    ) {
    }

    proof fn fetching_is_for_the_block(cosigning: Cosigning, block_number: u64, replies: Replies) {
    }

    open spec fn at_once() -> u64 {
        50
    }

    fn items_to_process_at_once() -> (items: u64)
        ensures
            items == 50,
    {
        50
    }

    fn cosigning(&self) -> (cosigning: &Cosigning) {
        &self.db.cosigning
    }

    fn start(&self) -> (start: u64) {
        match self.db.ephemeral.scan_from {
            Some(number) => number,
            None => 0,
        }
    }

    fn fetch_item(&self, block_number: u64, replies: Replies) -> (item: Result<
        (u64, EphemeralEvents),
        StreamError,
    >) {
        let fetch = match self.begin_fetch(block_number) {
            Ok(fetch) => fetch,
            Err(error) => return Err(error),
        };
        let fetch = match fetch.on_block(replies.block) {
            Ok(fetch) => fetch,
            Err(error) => return Err(error),
        };
        fetch.on_events(replies.events)
    }

    fn process_item(&mut self, block_number: u64, block: EphemeralEvents) -> (res: Result<
        (),
        StreamError,
    >)
        ensures
            final(self).db.cosigning == old(self).db.cosigning,
            final(self).db.canonical == old(self).db.canonical,
            final(self).public_serai_auxiliary_key == old(self).public_serai_auxiliary_key,
    {
        self.db.ephemeral.index(
            &mut self.db.auxiliary_keys,
            &self.public_serai_auxiliary_key,
            block_number,
            block,
        )
    }
}

/// Processing items only adds what's announced, and only changes what this stream writes.
proof fn lemma_ran_only_adds(state: EphemeralState, items: Seq<Fetched<EphemeralEventsModel>>)
    ensures
        ({
            let after = ran::<EphemeralEventStream>(state, items).0;
            &&& state.db.ephemeral.new_sets.is_prefix_of(after.db.ephemeral.new_sets)
            &&& state.db.ephemeral.sign_slash_reports.is_prefix_of(
                after.db.ephemeral.sign_slash_reports,
            )
            &&& state.db.auxiliary_keys.dom().subset_of(after.db.auxiliary_keys.dom())
            &&& after.db.cosigning == state.db.cosigning
            &&& after.db.canonical == state.db.canonical
            &&& after.public_serai_auxiliary_key == state.public_serai_auxiliary_key
        }),
    decreases items.len(),
{
    if items.len() > 0 {
        lemma_ran_only_adds(state, items.drop_last());
        let before = ran::<EphemeralEventStream>(state, items.drop_last()).0;
        if let Ok((number, item)) = items.last() {
            let next = EphemeralEventStream::processed(before, number, item);
            lemma_keys_remain(
                before.db.auxiliary_keys,
                item.embedded_elliptic_curve_keys_events,
            );
            assert(before.db.ephemeral.new_sets.is_prefix_of(next.db.ephemeral.new_sets));
            assert(before.db.ephemeral.sign_slash_reports.is_prefix_of(
                next.db.ephemeral.sign_slash_reports,
            ));
        }
    }
}

/// A validator which has keys keeps having keys.
proof fn lemma_keys_remain(
    keys: AuxiliaryKeysModel,
    events: Seq<SetEmbeddedEllipticCurveKeys>,
)
    ensures
        keys.dom().subset_of(keys_after(keys, events).dom()),
    decreases events.len(),
{
    if events.len() > 0 {
        lemma_keys_remain(keys, events.drop_last());
    }
}

/// No set which was announced, nor any which was notified to sign a slash report, is taken back or
/// changed, no validator loses its keys, and nothing is changed but what this stream writes, the
/// canonical event stream's progress included.
pub proof fn iterations_only_add_announcements(state: EphemeralState, replies: Seq<Replies>)
    ensures
        ({
            let after = iteration::<EphemeralEventStream>(state, replies).0;
            &&& state.db.ephemeral.new_sets.is_prefix_of(after.db.ephemeral.new_sets)
            &&& state.db.ephemeral.sign_slash_reports.is_prefix_of(
                after.db.ephemeral.sign_slash_reports,
            )
            &&& state.db.auxiliary_keys.dom().subset_of(after.db.auxiliary_keys.dom())
            &&& after.db.cosigning == state.db.cosigning
            &&& after.db.canonical == state.db.canonical
            &&& after.public_serai_auxiliary_key == state.public_serai_auxiliary_key
        }),
{
    let items = fetches::<EphemeralEventStream>(
        state.db.cosigning,
        state.db.ephemeral.start(),
        replies,
    );
    lemma_ran_only_adds(state, items);
}

} // verus!
