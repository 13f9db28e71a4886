//! Tasks which process a range of blocks, in order, each time they're run.
use crate::cosign::Cosigning;
use crate::errors::StreamError;
use crate::node::Replies;
use vstd::prelude::*;

verus! {

/// The result of fetching an item: the number of its block, and its content.
pub type Fetched<M> = Result<(u64, M), StreamError>;

/// A task which fetches an item for each block of a range, and processes the items in order.
pub trait RangeProcessor: Sized {
    /// What's fetched for a block.
    type Item: View;

    /// What this works on, and with.
    type State;

    /// Whether this is well-formed.
    spec fn wf(&self) -> bool;

    /// What this works on, and with.
    spec fn state(&self) -> Self::State;

    /// What's known of which blocks were cosigned.
    spec fn cosigning_of(state: Self::State) -> Cosigning;

    /// The block which scanning starts from.
    spec fn start_of(state: Self::State) -> u64;

    /// What fetching the item for a block results in, by what the node answers.
    spec fn fetch(cosigning: Cosigning, block_number: u64, replies: Replies) -> Fetched<
        <Self::Item as View>::V,
    >;

    /// Why a block's item can't be processed.
    spec fn rejects(
        state: Self::State,
        block_number: u64,
        item: <Self::Item as View>::V,
    ) -> Option<StreamError>;

    /// The state once a block's item was processed.
    spec fn processed(
        state: Self::State,
        block_number: u64,
        item: <Self::Item as View>::V,
    ) -> Self::State;

    /// Processing changes nothing of which blocks were cosigned, and has scanning start from the
    /// following block.
    proof fn processing_moves_on(
        state: Self::State,
        block_number: u64,
        item: <Self::Item as View>::V,
    )
        requires
            block_number < u64::MAX,
        ensures
            Self::cosigning_of(Self::processed(state, block_number, item)) == Self::cosigning_of(
                state,
            ),
            Self::start_of(Self::processed(state, block_number, item)) == block_number + 1,
    ;

    /// What's fetched is for the block it was fetched for.
    proof fn fetching_is_for_the_block(cosigning: Cosigning, block_number: u64, replies: Replies)
        ensures
            Self::fetch(cosigning, block_number, replies) matches Ok(item) ==> item.0
                == block_number,
    ;

    /// How many items to fetch at once.
    spec fn at_once() -> u64;

    /// How many items to fetch at once.
    fn items_to_process_at_once() -> (items: u64)
        ensures
            items > 0,
            items == Self::at_once(),
    ;

    /// What's known of which blocks were cosigned.
    fn cosigning(&self) -> (cosigning: &Cosigning)
        ensures
            *cosigning == Self::cosigning_of(self.state()),
    ;

    /// The block which scanning starts from.
    fn start(&self) -> (start: u64)
        ensures
            start == Self::start_of(self.state()),
    ;

    /// For a cosigned block, fetch all relevant events.
    fn fetch_item(&self, block_number: u64, replies: Replies) -> (item: Result<
        (u64, Self::Item),
        StreamError,
    >)
        ensures
            fetched_model(item) == Self::fetch(
                Self::cosigning_of(self.state()),
                block_number,
                replies,
            ),
    ;

    /// Process a block's item. Where it can't be, nothing changes.
    fn process_item(&mut self, block_number: u64, block: Self::Item) -> (res: Result<
        (),
        StreamError,
    >)
        requires
            old(self).wf(),
            block_number < u64::MAX,
        ensures
            final(self).wf(),
            match res {
                Ok(()) => {
                    &&& Self::rejects(old(self).state(), block_number, block@) is None
                    &&& final(self).state() == Self::processed(
                        old(self).state(),
                        block_number,
                        block@,
                    )
                },
                Err(error) => {
                    &&& Self::rejects(old(self).state(), block_number, block@) == Some(error)
                    &&& final(self).state() == old(self).state()
                },
            },
    ;
}

/// The result of fetching an item, by the item's content.
pub open spec fn fetched_model<I: View>(fetched: Result<(u64, I), StreamError>) -> Fetched<I::V> {
    match fetched {
        Ok((block_number, item)) => Ok((block_number, item@)),
        Err(error) => Err(error),
    }
}

/// The state once the items which were fetched are processed, and why that stopped, if it did.
/// Processing stops with the first item which wasn't fetched, or can't be processed.
pub open spec fn ran<P: RangeProcessor>(
    state: P::State,
    fetched: Seq<Fetched<<P::Item as View>::V>>,
) -> (P::State, Option<StreamError>)
    decreases fetched.len(),
{
    if fetched.len() == 0 {
        (state, None)
    } else {
        let (before, stopped) = ran::<P>(state, fetched.drop_last());
        if stopped is Some {
            (before, stopped)
        } else {
            match fetched.last() {
                Err(error) => (before, Some(error)),
                Ok((block_number, item)) => match P::rejects(before, block_number, item) {
                    Some(error) => (before, Some(error)),
                    None => (P::processed(before, block_number, item), None),
                },
            }
        }
    }
}

/// The blocks to process: from where scanning starts, through the latest which was cosigned. There
/// are none where none was cosigned.
pub open spec fn plan(cosigning: Cosigning, start: u64) -> Result<Option<(u64, u64)>, StreamError> {
    match cosigning.latest() {
        Err(_) => Err(StreamError::LatestCosignedBlockNumber),
        Ok(None) => Ok(None),
        Ok(Some(latest)) => Ok(Some((start, latest))),
    }
}

/// How many blocks there are to process.
pub open spec fn due(cosigning: Cosigning, start: u64) -> nat {
    match plan(cosigning, start) {
        Ok(Some((start, latest))) => if start <= latest {
            (latest - start + 1) as nat
        } else {
            0
        },
        _ => 0,
    }
}

/// What's fetched for consecutive blocks.
pub open spec fn fetches<P: RangeProcessor>(
    cosigning: Cosigning,
    start: u64,
    replies: Seq<Replies>,
) -> Seq<Fetched<<P::Item as View>::V>> {
    Seq::new(replies.len(), |i: int| P::fetch(cosigning, (start + i) as u64, replies[i]))
}

/// The state after one run of a task, and what that run results in: whether it made progress, or
/// why it stopped.
pub open spec fn iteration<P: RangeProcessor>(state: P::State, replies: Seq<Replies>) -> (
    P::State,
    Result<bool, StreamError>,
) {
    match plan(P::cosigning_of(state), P::start_of(state)) {
        Err(error) => (state, Err(error)),
        Ok(None) => (state, Ok(false)),
        Ok(Some((start, latest))) => if start > latest {
            (state, Ok(false))
        } else {
            let (after, stopped) = ran::<P>(
                state,
                fetches::<P>(P::cosigning_of(state), start, replies),
            );
            (
                after,
                match stopped {
                    Some(error) => Err(error),
                    None => Ok(true),
                },
            )
        },
    }
}

/// Get the blocks to process: from where scanning starts, through the latest which was cosigned.
pub fn plan_iteration<P: RangeProcessor>(task: &P) -> (blocks: Result<
    Option<(u64, u64)>,
    StreamError,
>)
    ensures
        blocks == plan(P::cosigning_of(task.state()), P::start_of(task.state())),
{
    match task.cosigning().latest_cosigned_block_number() {
        Err(_) => Err(StreamError::LatestCosignedBlockNumber),
        Ok(None) => Ok(None),
        Ok(Some(latest)) => Ok(Some((task.start(), latest))),
    }
}

/// Process the items of consecutive blocks, in order, and get whether there were any.
pub fn process_range<P: RangeProcessor>(
    task: &mut P,
    fetched: Vec<Result<(u64, P::Item), StreamError>>,
) -> (res: Result<bool, StreamError>)
    requires
        old(task).wf(),
        forall|i: int|
            0 <= i < fetched@.len() ==> (#[trigger] fetched@[i] matches Ok(item) ==> item.0
                < u64::MAX),
    ensures
        final(task).wf(),
        ({
            let (after, stopped) = ran::<P>(
                old(task).state(),
                fetched@.map_values(|f: Result<(u64, P::Item), StreamError>| fetched_model(f)),
            );
            &&& final(task).state() == after
            &&& res == match stopped {
                Some(error) => Err::<bool, StreamError>(error),
                None => Ok(fetched@.len() > 0),
            }
        }),
{
    let ghost state = task.state();
    let ghost all = fetched@;
    let ghost items = all.map_values(|f: Result<(u64, P::Item), StreamError>| fetched_model(f));
    let any: bool = fetched.len() > 0;
    for item in it: fetched
        invariant
            it.seq() == all,
            all == fetched@,
            state == old(task).state(),
            task.wf(),
            forall|i: int|
                0 <= i < all.len() ==> (#[trigger] all[i] matches Ok(item) ==> item.0 < u64::MAX),
            items == all.map_values(
                |f: Result<(u64, P::Item), StreamError>| fetched_model(f),
            ),
            ran::<P>(state, items.take(it.index())) == (task.state(), None::<StreamError>),
    {
        proof {
            let i = it.index();
            assert(item == all[i]);
            assert(items[i] == fetched_model(item));
            lemma_ran_step::<P>(state, items, i);
        }
        match item {
            Err(error) => {
                return Err(error);
            },
            Ok((block_number, block)) => match task.process_item(block_number, block) {
                Ok(()) => {},
                Err(error) => {
                    return Err(error);
                },
            },
        }
    }
    assert(items.take(items.len() as int) =~= items);
    Ok(any)
}

/// Run a task once, on what the node answers of each block there is to process.
pub fn run_iteration<P: RangeProcessor>(task: &mut P, replies: Vec<Replies>) -> (res: Result<
    bool,
    StreamError,
>)
    requires
        old(task).wf(),
        P::cosigning_of(old(task).state()).latest_cosigned_block_number matches Some(latest)
            ==> latest < u64::MAX,
        replies@.len() == due(
            P::cosigning_of(old(task).state()),
            P::start_of(old(task).state()),
        ),
    ensures
        final(task).wf(),
        (final(task).state(), res) == iteration::<P>(old(task).state(), replies@),
{
    let ghost state = task.state();
    let ghost cosigning = P::cosigning_of(state);
    let (start, latest): (u64, u64) = match plan_iteration(task) {
        Err(error) => return Err(error),
        Ok(None) => return Ok(false),
        Ok(Some(blocks)) => blocks,
    };
    if start > latest {
        return Ok(false);
    }
    let ghost all = replies@;
    let ghost model = |f: Result<(u64, P::Item), StreamError>| fetched_model(f);
    let mut fetched: Vec<Result<(u64, P::Item), StreamError>> = Vec::with_capacity(replies.len());
    let mut block_number: u64 = start;
    for reply in it: replies
        invariant
            it.seq() == all,
            all.len() == latest - start + 1,
            latest < u64::MAX,
            block_number == start + it.index(),
            model == (|f: Result<(u64, P::Item), StreamError>| fetched_model(f)),
            P::cosigning_of(task.state()) == cosigning,
            fetched@.len() == it.index(),
            forall|i: int|
                0 <= i < fetched@.len() ==> fetched_model(#[trigger] fetched@[i]) == P::fetch(
                    cosigning,
                    (start + i) as u64,
                    all[i],
                ),
            forall|i: int|
                0 <= i < fetched@.len() ==> (#[trigger] fetched@[i] matches Ok(item) ==> item.0
                    < u64::MAX),
    {
        proof {
            assert(reply == all[it.index()]);
            P::fetching_is_for_the_block(cosigning, block_number, reply);
        }
        let item = task.fetch_item(block_number, reply);
        fetched.push(item);
        block_number += 1;
    }
    assert(fetched@.map_values(model) =~= fetches::<P>(cosigning, start, all));
    process_range(task, fetched)
}

/// What one more item does, and that where it stops the processing, nothing after it matters.
proof fn lemma_ran_step<P: RangeProcessor>(
    state: P::State,
    items: Seq<Fetched<<P::Item as View>::V>>,
    i: int,
)
    requires
        0 <= i < items.len(),
    ensures
        ran::<P>(state, items.take(i)).1 is None ==> ran::<P>(state, items.take(i + 1)) == ({
            let before = ran::<P>(state, items.take(i)).0;
            match items[i] {
                Err(error) => (before, Some(error)),
                Ok((block_number, item)) => match P::rejects(before, block_number, item) {
                    Some(error) => (before, Some(error)),
                    None => (P::processed(before, block_number, item), None),
                },
            }
        }),
        ran::<P>(state, items.take(i + 1)).1 is Some ==> ran::<P>(state, items) == ran::<P>(
            state,
            items.take(i + 1),
        ),
{
    assert(items.take(i + 1).drop_last() =~= items.take(i));
    if ran::<P>(state, items.take(i + 1)).1 is Some {
        lemma_stopped::<P>(state, items, i + 1);
    }
}

/// Once stopped, nothing more is processed.
proof fn lemma_stopped<P: RangeProcessor>(
    state: P::State,
    items: Seq<Fetched<<P::Item as View>::V>>,
    i: int,
)
    requires
        0 <= i <= items.len(),
        ran::<P>(state, items.take(i)).1 is Some,
    ensures
        ran::<P>(state, items) == ran::<P>(state, items.take(i)),
    decreases items.len() - i,
{
    if i < items.len() {
        assert(items.take(i + 1).drop_last() =~= items.take(i));
        lemma_stopped::<P>(state, items, i + 1);
    } else {
        assert(items.take(i) =~= items);
    }
}

/// Where scanning got to, once the items of some blocks were processed.
pub proof fn lemma_scanned<P: RangeProcessor>(state: P::State, replies: Seq<Replies>, i: int)
    requires
        0 <= i <= replies.len(),
        P::start_of(state) + replies.len() <= u64::MAX,
        ran::<P>(
            state,
            fetches::<P>(P::cosigning_of(state), P::start_of(state), replies).take(i),
        ).1 is None,
    ensures
        ({
            let items = fetches::<P>(P::cosigning_of(state), P::start_of(state), replies);
            let after = ran::<P>(state, items.take(i)).0;
            &&& P::start_of(after) == P::start_of(state) + i
            &&& P::cosigning_of(after) == P::cosigning_of(state)
        }),
    decreases i,
{
    let cosigning = P::cosigning_of(state);
    let items = fetches::<P>(cosigning, P::start_of(state), replies);
    if i > 0 {
        assert(items.take(i).drop_last() =~= items.take(i - 1));
        lemma_scanned::<P>(state, replies, i - 1);
        let number = (P::start_of(state) + i - 1) as u64;
        P::fetching_is_for_the_block(cosigning, number, replies[i - 1]);
        assert(items.take(i).last() == items[i - 1]);
        let before = ran::<P>(state, items.take(i - 1)).0;
        P::processing_moves_on(before, number, items[i - 1]->Ok_0.1);
    }
}

/// Where processing stops, all before what it stopped at was processed.
pub proof fn lemma_stops_after<P: RangeProcessor>(
    state: P::State,
    items: Seq<Fetched<<P::Item as View>::V>>,
) -> (i: int)
    requires
        ran::<P>(state, items).1 is Some,
    ensures
        0 <= i < items.len(),
        ran::<P>(state, items.take(i)) == (ran::<P>(state, items).0, None::<StreamError>),
    decreases items.len(),
{
    let rest = items.drop_last();
    if ran::<P>(state, rest).1 is Some {
        let i = lemma_stops_after::<P>(state, rest);
        assert(rest.take(i) =~= items.take(i));
        i
    } else {
        assert(items.take(items.len() - 1) =~= rest);
        items.len() - 1
    }
}

/// Where a session faulted, a task only fails: it doesn't make any progress.
pub proof fn faulted_session_halts_progress<P: RangeProcessor>(
    state: P::State,
    replies: Seq<Replies>,
)
    requires
        P::cosigning_of(state).faulted_session is Some,
    ensures
        iteration::<P>(state, replies) == (
            state,
            Err::<bool, StreamError>(StreamError::LatestCosignedBlockNumber),
        ),
{
}

/// Where no block was cosigned, or all which were are processed already, a task changes nothing, even
/// if a block from before the latest was cosigned again.
pub proof fn nothing_due_changes_nothing<P: RangeProcessor>(
    state: P::State,
    replies: Seq<Replies>,
)
    requires
        P::cosigning_of(state).faulted_session is None,
        P::cosigning_of(state).latest_cosigned_block_number matches Some(latest) ==> latest
            < P::start_of(state),
    ensures
        iteration::<P>(state, replies) == (state, Ok::<bool, StreamError>(false)),
{
}

/// Where a task succeeds, it made progress exactly if there was a block to process, all through the
/// latest cosigned block were, and it has nothing to do until another block is cosigned.
pub proof fn success_reaches_latest_cosigned<P: RangeProcessor>(
    state: P::State,
    replies: Seq<Replies>,
    latest: u64,
)
    requires
        P::cosigning_of(state).latest_cosigned_block_number == Some(latest),
        latest < u64::MAX,
        replies.len() == due(P::cosigning_of(state), P::start_of(state)),
        iteration::<P>(state, replies).1 is Ok,
    ensures
        ({
            let (after, res) = iteration::<P>(state, replies);
            &&& res == Ok::<bool, StreamError>(P::start_of(state) <= latest)
            &&& P::start_of(after) == if P::start_of(state) <= latest {
                latest + 1
            } else {
                P::start_of(state) as int
            }
            &&& P::cosigning_of(after) == P::cosigning_of(state)
            &&& forall|more: Seq<Replies>| #[trigger]
                iteration::<P>(after, more) == (after, Ok::<bool, StreamError>(false))
        }),
{
    let start = P::start_of(state);
    if start <= latest {
        let items = fetches::<P>(P::cosigning_of(state), start, replies);
        assert(items.take(items.len() as int) =~= items);
        lemma_scanned::<P>(state, replies, replies.len() as int);
    }
}

/// Where a task fails, what it processed before failing is kept, and scanning is to start from the
/// block it failed at: no block is skipped, nor processed twice.
pub proof fn failure_keeps_what_was_processed<P: RangeProcessor>(
    state: P::State,
    replies: Seq<Replies>,
    latest: u64,
) -> (i: int)
    requires
        P::cosigning_of(state).latest() == Ok::<_, crate::cosign::Faulted>(Some(latest)),
        latest < u64::MAX,
        replies.len() == due(P::cosigning_of(state), P::start_of(state)),
        iteration::<P>(state, replies).1 is Err,
    ensures
        0 <= i < replies.len(),
        ({
            let after = iteration::<P>(state, replies).0;
            &&& P::start_of(after) == P::start_of(state) + i
            &&& P::cosigning_of(after) == P::cosigning_of(state)
            &&& ran::<P>(
                state,
                fetches::<P>(P::cosigning_of(state), P::start_of(state), replies.take(i)),
            ) == (after, None::<StreamError>)
        }),
{
    let cosigning = P::cosigning_of(state);
    let start = P::start_of(state);
    let items = fetches::<P>(cosigning, start, replies);
    let i = lemma_stops_after::<P>(state, items);
    lemma_scanned::<P>(state, replies, i);
    assert(items.take(i) =~= fetches::<P>(cosigning, start, replies.take(i)));
    i
}

/// Scanning never goes back to a block which was processed already.
pub proof fn scanning_never_regresses<P: RangeProcessor>(state: P::State, replies: Seq<Replies>)
    requires
        P::cosigning_of(state).latest_cosigned_block_number matches Some(latest) ==> latest
            < u64::MAX,
        replies.len() == due(P::cosigning_of(state), P::start_of(state)),
    ensures
        P::start_of(iteration::<P>(state, replies).0) >= P::start_of(state),
{
    if let Ok(Some(latest)) = P::cosigning_of(state).latest() {
        if iteration::<P>(state, replies).1 is Ok {
            success_reaches_latest_cosigned::<P>(state, replies, latest);
        } else {
            let i = failure_keeps_what_was_processed::<P>(state, replies, latest);
        }
    }
}

/// To process items in two ranges, one after the other, is to process them in one.
pub proof fn ranges_chain<P: RangeProcessor>(
    state: P::State,
    first: Seq<Fetched<<P::Item as View>::V>>,
    second: Seq<Fetched<<P::Item as View>::V>>,
)
    ensures
        ran::<P>(state, first + second) == if ran::<P>(state, first).1 is Some {
            ran::<P>(state, first)
        } else {
            ran::<P>(ran::<P>(state, first).0, second)
        },
    decreases second.len(),
{
    if second.len() == 0 {
        assert(first + second =~= first);
    } else {
        ranges_chain::<P>(state, first, second.drop_last());
        assert((first + second).drop_last() =~= first + second.drop_last());
    }
}

/// What's next to do to process a range of blocks.
#[derive(Clone, Copy, PartialEq, Eq, Structural, Debug)]
pub enum RangeStep {
    /// Start fetching the item for a block.
    Fetch(u64),
    /// Process the item for a block, which is the first of those whose fetching was started and
    /// which weren't processed yet.
    Process(u64),
    /// All was processed. This is whether that was anything.
    Done(bool),
}

/// How far the processing of a range of blocks got, fetching a limited amount of items at once.
#[derive(PartialEq, Eq, Debug)]
pub struct RangeProgress {
    start: u64,
    end: u64,
    at_once: u64,
    next_to_fetch: u64,
    next_to_process: u64,
}

/// The content of a [`RangeProgress`].
pub struct RangeModel {
    /// The first block of the range.
    pub start: int,
    /// The last block of the range.
    pub end: int,
    /// How many items are fetched at once, at most.
    pub at_once: int,
    /// The next block to fetch the item for.
    pub next_to_fetch: int,
    /// The next block to process the item of.
    pub next_to_process: int,
}

impl View for RangeProgress {
    type V = RangeModel;

    closed spec fn view(&self) -> RangeModel {
        RangeModel {
            start: self.start as int,
            end: self.end as int,
            at_once: self.at_once as int,
            next_to_fetch: self.next_to_fetch as int,
            next_to_process: self.next_to_process as int,
        }
    }
}

impl RangeModel {
    /// The processing of a range which nothing was done of yet.
    pub open spec fn begun(start: u64, end: u64, at_once: u64) -> RangeModel {
        RangeModel {
            start: start as int,
            end: end as int,
            at_once: at_once as int,
            next_to_fetch: start as int,
            next_to_process: start as int,
        }
    }

    /// What's processed was fetched, all of it is in the range, and no more is fetched at once than
    /// is allowed.
    pub open spec fn wf(self) -> bool {
        &&& 0 <= self.start <= self.next_to_process <= self.next_to_fetch
        &&& 0 <= self.end < u64::MAX
        &&& self.at_once > 0
        &&& self.next_to_fetch - self.next_to_process <= self.at_once
        &&& self.next_to_fetch <= self.end + 1 || self.next_to_fetch == self.start
    }

    /// What's next to do: to fetch, as long as there's more and the limit allows, and else to
    /// process.
    pub open spec fn next(self) -> RangeStep {
        if self.next_to_process > self.end {
            RangeStep::Done(self.start <= self.end)
        } else if self.next_to_fetch <= self.end && self.next_to_fetch - self.next_to_process
            < self.at_once {
            RangeStep::Fetch(self.next_to_fetch as u64)
        } else {
            RangeStep::Process(self.next_to_process as u64)
        }
    }

    /// This, once what was next was done.
    pub open spec fn advanced(self) -> RangeModel {
        match self.next() {
            RangeStep::Fetch(_) => RangeModel { next_to_fetch: self.next_to_fetch + 1, ..self },
            RangeStep::Process(_) => RangeModel {
                next_to_process: self.next_to_process + 1,
                ..self
            },
            RangeStep::Done(_) => self,
        }
    }

    /// How many steps there are until all is done.
    pub open spec fn remaining(self) -> nat {
        if self.start > self.end {
            0
        } else {
            ((self.end + 1 - self.next_to_fetch) + (self.end + 1 - self.next_to_process)) as nat
        }
    }
}

impl RangeProgress {
    #[verifier::type_invariant]
    spec fn inv(self) -> bool {
        self@.wf()
    }

    /// Start to process a range of blocks, its last one included.
    pub fn new(start: u64, end: u64, at_once: u64) -> (progress: Self)
        requires
            end < u64::MAX,
            at_once > 0,
        ensures
            progress@ == RangeModel::begun(start, end, at_once),
            progress@.wf(),
    {
        RangeProgress { start, end, at_once, next_to_fetch: start, next_to_process: start }
    }

    /// Get what's next to do, on the premise it'll be done. Items are fetched as soon as the limit
    /// allows.
    pub fn step(&mut self) -> (step: RangeStep)
        ensures
            old(self)@.wf(),
            final(self)@.wf(),
            step == old(self)@.next(),
            final(self)@ == old(self)@.advanced(),
    {
        proof {
            use_type_invariant(&*self);
        }
        if self.next_to_process > self.end {
            return RangeStep::Done(self.start <= self.end);
        }
        if self.next_to_fetch <= self.end && self.next_to_fetch - self.next_to_process
            < self.at_once {
            let number: u64 = self.next_to_fetch;
            self.next_to_fetch = number + 1;
            return RangeStep::Fetch(number);
        }
        let number: u64 = self.next_to_process;
        self.next_to_process = number + 1;
        RangeStep::Process(number)
    }
}

/// Each step but the last leaves one step less. What's processed was fetched, and is in the range, and
/// as much as is allowed is fetched first.
pub proof fn steps_are_finite_and_in_range(progress: RangeModel)
    requires
        progress.wf(),
    ensures
        progress.advanced().wf(),
        match progress.next() {
            RangeStep::Fetch(number) => {
                &&& number == progress.next_to_fetch
                &&& progress.start <= number <= progress.end
                &&& progress.advanced().remaining() == progress.remaining() - 1
            },
            RangeStep::Process(number) => {
                &&& number == progress.next_to_process
                &&& progress.start <= number <= progress.end
                &&& number < progress.next_to_fetch
                &&& progress.next_to_fetch > progress.end || progress.next_to_fetch - number
                    == progress.at_once
                &&& progress.advanced().remaining() == progress.remaining() - 1
            },
            RangeStep::Done(made_progress) => {
                &&& progress.remaining() == 0
                &&& made_progress == (progress.start <= progress.end)
            },
        },
{
}

/// The state after performing all steps of a range which are left, and what that results in.
/// `fetching` is what was fetched and wasn't processed yet. To fetch an item is to keep what's
/// fetched for its block, by what's known of which blocks were cosigned at that time. To process one
/// is to process the first kept, and to stop if it wasn't fetched or can't be processed.
pub open spec fn performed<P: RangeProcessor>(
    progress: RangeModel,
    state: P::State,
    fetching: Seq<Fetched<<P::Item as View>::V>>,
    replies: Seq<Replies>,
) -> (P::State, Result<bool, StreamError>)
    decreases progress.remaining(),
    when progress.wf()
{
    match progress.next() {
        RangeStep::Fetch(number) => {
            let item = P::fetch(
                P::cosigning_of(state),
                number,
                replies[number - progress.start],
            );
            performed::<P>(progress.advanced(), state, fetching.push(item), replies)
        },
        RangeStep::Process(_) => match fetching.first() {
            Err(error) => (state, Err(error)),
            Ok((number, item)) => match P::rejects(state, number, item) {
                Some(error) => (state, Err(error)),
                None => performed::<P>(
                    progress.advanced(),
                    P::processed(state, number, item),
                    fetching.drop_first(),
                    replies,
                ),
            },
        },
        RangeStep::Done(made_progress) => (state, Ok(made_progress)),
    }
}

/// Performing the steps of the range which is due, in order, results in one run of the task: however
/// many items are fetched at once, the outcome is that of fetching and processing block by block.
pub proof fn steps_result_in_iteration<P: RangeProcessor>(
    state: P::State,
    replies: Seq<Replies>,
    latest: u64,
    at_once: u64,
)
    requires
        P::cosigning_of(state).latest() == Ok::<_, crate::cosign::Faulted>(Some(latest)),
        latest < u64::MAX,
        at_once > 0,
        replies.len() == due(P::cosigning_of(state), P::start_of(state)),
    ensures
        performed::<P>(
            RangeModel::begun(P::start_of(state), latest, at_once),
            state,
            seq![],
            replies,
        ) == iteration::<P>(state, replies),
{
    let start = P::start_of(state);
    let begun = RangeModel::begun(start, latest, at_once);
    if start <= latest {
        let items = fetches::<P>(P::cosigning_of(state), start, replies);
        assert(items.take(0) =~= seq![]);
        assert(items.subrange(0, 0) =~= seq![]);
        lemma_performed::<P>(begun, state, state, replies);
    }
}

/// Performing the steps which are left, after the items of some blocks were processed and those of
/// some more were fetched, results in what processing all of the range results in.
proof fn lemma_performed<P: RangeProcessor>(
    progress: RangeModel,
    first: P::State,
    state: P::State,
    replies: Seq<Replies>,
)
    requires
        progress.wf(),
        progress.start <= progress.end,
        progress.start == P::start_of(first),
        replies.len() == progress.end - progress.start + 1,
        P::cosigning_of(state) == P::cosigning_of(first),
        ran::<P>(
            first,
            fetches::<P>(P::cosigning_of(first), P::start_of(first), replies).take(
                progress.next_to_process - progress.start,
            ),
        ) == (state, None::<StreamError>),
    ensures
        ({
            let items = fetches::<P>(P::cosigning_of(first), P::start_of(first), replies);
            let fetching = items.subrange(
                progress.next_to_process - progress.start,
                progress.next_to_fetch - progress.start,
            );
            let (after, stopped) = ran::<P>(first, items);
            performed::<P>(progress, state, fetching, replies) == (
                after,
                match stopped {
                    Some(error) => Err::<bool, StreamError>(error),
                    None => Ok(true),
                },
            )
        }),
    decreases progress.remaining(),
{
    let cosigning = P::cosigning_of(first);
    let start = P::start_of(first);
    let items = fetches::<P>(cosigning, start, replies);
    let i = progress.next_to_process - progress.start;
    let j = progress.next_to_fetch - progress.start;
    let fetching = items.subrange(i, j);
    steps_are_finite_and_in_range(progress);
    match progress.next() {
        RangeStep::Fetch(number) => {
            assert(items[j] == P::fetch(cosigning, number, replies[j]));
            assert(items.subrange(i, j + 1) =~= fetching.push(items[j]));
            lemma_performed::<P>(progress.advanced(), first, state, replies);
        },
        RangeStep::Process(number) => {
            assert(fetching.first() == items[i]);
            lemma_ran_step::<P>(first, items, i);
            if let Ok((fetched_number, item)) = items[i] {
                P::fetching_is_for_the_block(cosigning, number, replies[i]);
                if P::rejects(state, fetched_number, item) is None {
                    P::processing_moves_on(state, fetched_number, item);
                    assert(items.subrange(i + 1, j) =~= fetching.drop_first());
                    lemma_performed::<P>(
                        progress.advanced(),
                        first,
                        P::processed(state, fetched_number, item),
                        replies,
                    );
                }
            }
        },
        RangeStep::Done(_) => {
            assert(items.take(i) =~= items);
        },
    }
}

/// Items are processed one by one, each on the state the one before left, skipping none. `trace` is the
/// states between them. Where one wasn't fetched, or is rejected, processing stops with that very error,
/// on the state the one before left.
pub proof fn items_are_processed_one_by_one<P: RangeProcessor>(
    state: P::State,
    items: Seq<Fetched<<P::Item as View>::V>>,
) -> (trace: Seq<P::State>)
    ensures
        0 < trace.len() <= items.len() + 1,
        trace[0] == state,
        trace.last() == ran::<P>(state, items).0,
        forall|i: int|
            0 <= i < trace.len() - 1 ==> {
                &&& items[i] is Ok
                &&& P::rejects(#[trigger] trace[i], items[i]->Ok_0.0, items[i]->Ok_0.1) is None
                &&& trace[i + 1] == P::processed(trace[i], items[i]->Ok_0.0, items[i]->Ok_0.1)
            },
        match ran::<P>(state, items).1 {
            None => trace.len() == items.len() + 1,
            Some(error) => {
                &&& trace.len() <= items.len()
                &&& match items[trace.len() - 1] {
                    Err(fetching) => fetching == error,
                    Ok((number, item)) => P::rejects(trace.last(), number, item) == Some(error),
                }
            },
        },
    decreases items.len(),
{
    if items.len() == 0 {
        seq![state]
    } else {
        let rest = items.drop_last();
        let trace = items_are_processed_one_by_one::<P>(state, rest);
        let (before, stopped) = ran::<P>(state, rest);
        assert forall|i: int| 0 <= i < trace.len() - 1 implies {
            &&& items[i] is Ok
            &&& P::rejects(#[trigger] trace[i], items[i]->Ok_0.0, items[i]->Ok_0.1) is None
            &&& trace[i + 1] == P::processed(trace[i], items[i]->Ok_0.0, items[i]->Ok_0.1)
        } by {
            assert(rest[i] == items[i]);
        }
        if stopped is Some {
            assert(rest[trace.len() - 1] == items[trace.len() - 1]);
            trace
        } else if let Ok((number, item)) = items.last() {
            if P::rejects(before, number, item) is None {
                let longer = trace.push(P::processed(before, number, item));
                assert forall|i: int| 0 <= i < longer.len() - 1 implies {
                    &&& items[i] is Ok
                    &&& P::rejects(
                        #[trigger] longer[i],
                        items[i]->Ok_0.0,
                        items[i]->Ok_0.1,
                    ) is None
                    &&& longer[i + 1] == P::processed(
                        longer[i],
                        items[i]->Ok_0.0,
                        items[i]->Ok_0.1,
                    )
                } by {
                    if i < trace.len() - 1 {
                        assert(trace[i] == longer[i]);
                    }
                }
                longer
            } else {
                trace
            }
        } else {
            trace
        }
    }
}

/// A run goes through the blocks from where scanning starts, through the latest which was cosigned, one
/// by one, skipping none. `trace` is the states between them. Of each block, the item is fetched, and
/// processed on the state the block before left. Where all are, the run succeeds, having made progress
/// exactly if there was any block. Where one can't be fetched, or is rejected, the run fails with that
/// very error, on the state the block before left.
pub proof fn runs_go_block_by_block<P: RangeProcessor>(
    state: P::State,
    replies: Seq<Replies>,
    latest: u64,
) -> (trace: Seq<P::State>)
    requires
        P::cosigning_of(state).faulted_session is None,
        P::cosigning_of(state).latest_cosigned_block_number == Some(latest),
        replies.len() == if P::start_of(state) <= latest {
            latest - P::start_of(state) + 1
        } else {
            0
        },
    ensures
        ({
            let cosigning = P::cosigning_of(state);
            let start = P::start_of(state);
            let (after, res) = iteration::<P>(state, replies);
            &&& 0 < trace.len() <= replies.len() + 1
            &&& trace[0] == state
            &&& trace.last() == after
            &&& forall|i: int|
                0 <= i < trace.len() - 1 ==> {
                    let fetched = P::fetch(cosigning, (start + i) as u64, replies[i]);
                    &&& fetched is Ok
                    &&& P::rejects(#[trigger] trace[i], fetched->Ok_0.0, fetched->Ok_0.1) is None
                    &&& trace[i + 1] == P::processed(trace[i], fetched->Ok_0.0, fetched->Ok_0.1)
                }
            &&& match res {
                Ok(made_progress) => {
                    &&& trace.len() == replies.len() + 1
                    &&& made_progress == (replies.len() > 0)
                },
                Err(error) => {
                    let i = trace.len() - 1;
                    &&& i < replies.len()
                    &&& match P::fetch(cosigning, (start + i) as u64, replies[i]) {
                        Err(fetching) => fetching == error,
                        Ok((number, item)) => P::rejects(after, number, item) == Some(error),
                    }
                },
            }
        }),
{
    if P::start_of(state) <= latest {
        items_are_processed_one_by_one::<P>(
            state,
            fetches::<P>(P::cosigning_of(state), P::start_of(state), replies),
        )
    } else {
        seq![state]
    }
}

/// Where no block was cosigned, and no session faulted, a run does nothing.
pub proof fn runs_do_nothing_without_cosigned_blocks<P: RangeProcessor>(
    state: P::State,
    replies: Seq<Replies>,
)
    requires
        P::cosigning_of(state).faulted_session is None,
        P::cosigning_of(state).latest_cosigned_block_number is None,
    ensures
        iteration::<P>(state, replies) == (state, Ok::<bool, StreamError>(false)),
{
}

/// The blocks which are due are those from where scanning starts, through the latest which was
/// cosigned, unless a session faulted.
pub proof fn due_blocks_are_through_the_latest(cosigning: Cosigning, start: u64)
    ensures
        cosigning.faulted_session is Some ==> (plan(cosigning, start) matches Err(error) && error
            is LatestCosignedBlockNumber) && due(cosigning, start) == 0,
        cosigning.faulted_session is None ==> match cosigning.latest_cosigned_block_number {
            None => plan(cosigning, start) matches Ok(None) && due(cosigning, start) == 0,
            Some(latest) => {
                &&& plan(cosigning, start) matches Ok(Some((first, last))) && first == start
                    && last == latest
                &&& due(cosigning, start) == if start <= latest {
                    latest - start + 1
                } else {
                    0
                }
            },
        },
{
}

/// A range which was begun is the one given, and nothing of it was done.
pub proof fn begun_ranges_are_as_given(start: u64, end: u64, at_once: u64)
    ensures
        ({
            let begun = RangeModel::begun(start, end, at_once);
            &&& begun.start == start
            &&& begun.end == end
            &&& begun.at_once == at_once
            &&& begun.next_to_fetch == start
            &&& begun.next_to_process == start
        }),
{
}

/// What's fetched is known by its block's number and all of its content, and an error as it is.
pub proof fn content_of_what_is_fetched_is_all_of_it<I: View>(
    fetched: Result<(u64, I), StreamError>,
)
    ensures
        match fetched {
            Ok((number, item)) => fetched_model(fetched) matches Ok((n, content)) && n == number
                && content == item@,
            Err(error) => fetched_model(fetched) matches Err(e) && e == error,
        },
{
}

} // verus!
