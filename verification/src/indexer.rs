//! The engine: what to do next, given what happened last.
use vstd::prelude::*;
use std::time::Duration;
use crate::builder::IndexerBuilder;
use crate::filter::Filter;
use crate::fingerprint::{filter_id, fingerprint};
use crate::range::{block_range, first_block, lemma_range_bounded, tick_range, BlockRange};

verus! {

/// Where the engine stands. The first two states are its initialisation, the
/// next four are its running, in which at most one tick is under way.
#[derive(Clone, Copy, Debug, PartialEq, Eq, Structural)]
pub enum State {
    /// The chain id has been asked for.
    AwaitingChainId,
    /// The checkpoint store has been asked for the filter's record.
    AwaitingCheckpoint,
    /// No tick is under way; the engine waits for the timer or for a push.
    Waiting,
    /// A tick has begun: the finalized height has been asked for.
    AwaitingHeight,
    /// The logs of `range` have been asked for.
    AwaitingLogs { range: BlockRange },
    /// The logs of `range` are being applied and the checkpoint advanced.
    AwaitingCommit { range: BlockRange },
    /// The engine has ended, by a failure or because its triggers ran out.
    Stopped { failed: bool },
}

/// What the program around the engine reports to it.
#[derive(Clone, Copy, Debug, PartialEq, Eq, Structural)]
pub enum Event {
    /// The log source named its chain.
    ChainId(u64),
    /// The checkpoint store returned the record of the filter, which it
    /// `created` just now or found.
    Checkpoint { last_observed_block: u64, created: bool },
    /// The timer fired, or the push subscription delivered something.
    Trigger,
    /// Neither the timer nor the subscription will fire again.
    TriggersExhausted,
    /// The log source named its finalized height.
    FinalizedHeight(u64),
    /// The logs of the range asked for have arrived.
    LogsFetched,
    /// The logs were applied and the checkpoint advanced, in one transaction
    /// that is now committed.
    Committed,
    /// What was asked for last has failed; nothing of it was kept.
    Failed,
}

/// What the engine asks the program around it to do.
#[derive(Clone, Copy, Debug, PartialEq, Eq, Structural)]
pub enum Action {
    /// Look up the record of the filter, creating it if there is none.
    GetOrCreate { chain_id: u64 },
    /// Wait for the timer or for a push.
    Wait,
    /// Ask the log source for its finalized height.
    QueryFinalizedHeight,
    /// Ask the log source for the logs of the blocks `from` to `to`.
    FetchLogs { from: u64, to: u64 },
    /// Apply the logs that were fetched and move the checkpoint from
    /// `prev_checkpoint` to `new_checkpoint`, in one transaction.
    Apply { prev_checkpoint: u64, new_checkpoint: u64, chain_id: u64 },
    /// End the loop, with an error if `failed`.
    Stop { failed: bool },
}

/// The part of the engine that its decisions depend on.
pub struct Model {
    pub state: State,
    pub chain_id: u64,
    pub last_observed_block: u64,
    pub fresh: bool,
    pub limit: Option<u64>,
}

impl Model {
    /// Whether the chain is known and the engine has not stopped.
    pub open spec fn identified(self) -> bool {
        match self.state {
            State::AwaitingChainId | State::Stopped { .. } => false,
            _ => true,
        }
    }

    /// What holds of the engine at all times: before the record is known the
    /// checkpoint is 0, and a tick under way covers the blocks from the first
    /// one that has not been applied.
    pub open spec fn wf(self) -> bool {
        match self.state {
            State::AwaitingChainId | State::AwaitingCheckpoint => self.last_observed_block == 0,
            State::AwaitingLogs { range } | State::AwaitingCommit { range } => {
                &&& range.from == first_block(self.last_observed_block, self.fresh)
                &&& range.from <= range.to
            },
            _ => true,
        }
    }
}

/// The engine after `event`, and what it asks for.
pub open spec fn transition(m: Model, event: Event) -> (Model, Action) {
    match (m.state, event) {
        (State::Stopped { failed }, _) => (m, Action::Stop { failed }),
        (State::AwaitingChainId, Event::ChainId(chain_id)) => (
            Model { state: State::AwaitingCheckpoint, chain_id, ..m },
            Action::GetOrCreate { chain_id },
        ),
        (State::AwaitingCheckpoint, Event::Checkpoint { last_observed_block, created }) => (
            Model { state: State::Waiting, last_observed_block, fresh: created, ..m },
            Action::Wait,
        ),
        (State::Waiting, Event::Trigger) => (
            Model { state: State::AwaitingHeight, ..m },
            Action::QueryFinalizedHeight,
        ),
        (State::Waiting, Event::TriggersExhausted) => (
            Model { state: State::Stopped { failed: false }, ..m },
            Action::Stop { failed: false },
        ),
        (State::AwaitingHeight, Event::FinalizedHeight(height)) => match tick_range(
            m.last_observed_block,
            m.fresh,
            height,
            m.limit,
        ) {
            Some(range) => (
                Model { state: State::AwaitingLogs { range }, ..m },
                Action::FetchLogs { from: range.from, to: range.to },
            ),
            None => (Model { state: State::Waiting, ..m }, Action::Wait),
        },
        (State::AwaitingLogs { range }, Event::LogsFetched) => (
            Model { state: State::AwaitingCommit { range }, ..m },
            Action::Apply {
                prev_checkpoint: m.last_observed_block,
                new_checkpoint: range.to,
                chain_id: m.chain_id,
            },
        ),
        (State::AwaitingCommit { range }, Event::Committed) => (
            Model { state: State::Waiting, last_observed_block: range.to, fresh: false, ..m },
            Action::Wait,
        ),
        _ => (Model { state: State::Stopped { failed: true }, ..m }, Action::Stop { failed: true }),
    }
}

/// The engine after each of `events` in turn.
pub open spec fn run(m: Model, events: Seq<Event>) -> Model
    decreases events.len(),
{
    if events.len() == 0 {
        m
    } else {
        transition(run(m, events.drop_last()), events.last()).0
    }
}

/// No event moves the checkpoint back, and what holds of the engine at all
/// times holds after it.
pub proof fn lemma_checkpoint_never_decreases(m: Model, event: Event)
    requires
        m.wf(),
    ensures
        transition(m, event).0.wf(),
        transition(m, event).0.last_observed_block >= m.last_observed_block,
        transition(m, event).0.limit == m.limit,
{
    match (m.state, event) {
        (State::AwaitingHeight, Event::FinalizedHeight(height)) => {
            lemma_range_bounded(m.last_observed_block, m.fresh, height, m.limit);
        },
        _ => {},
    }
}

/// Over any course of events the checkpoint never decreases.
pub proof fn lemma_checkpoint_monotone(m: Model, events: Seq<Event>)
    requires
        m.wf(),
    ensures
        run(m, events).wf(),
        run(m, events).last_observed_block >= m.last_observed_block,
    decreases events.len(),
{
    if events.len() > 0 {
        lemma_checkpoint_monotone(m, events.drop_last());
        lemma_checkpoint_never_decreases(run(m, events.drop_last()), events.last());
    }
}

/// The ranges of the ticks that were committed in the course of `events`, in
/// the order in which they were committed.
pub open spec fn applied(m: Model, events: Seq<Event>) -> Seq<BlockRange>
    decreases events.len(),
{
    if events.len() == 0 {
        Seq::empty()
    } else {
        let ranges = applied(m, events.drop_last());
        match (run(m, events.drop_last()).state, events.last()) {
            (State::AwaitingCommit { range }, Event::Committed) => ranges.push(range),
            _ => ranges,
        }
    }
}

/// The block after the last of `ranges`; `start` where there is none.
pub open spec fn next_block(ranges: Seq<BlockRange>, start: int) -> int {
    if ranges.len() == 0 {
        start
    } else {
        ranges.last().to + 1
    }
}

/// Whether `ranges` cover the blocks from `start` on one after the other:
/// the first begins at `start`, each of the others at the block after the
/// one before it, and none is empty.
pub open spec fn adjoining(ranges: Seq<BlockRange>, start: int) -> bool
    decreases ranges.len(),
{
    ranges.len() == 0 || {
        &&& adjoining(ranges.drop_last(), start)
        &&& ranges.last().from == next_block(ranges.drop_last(), start)
        &&& ranges.last().from <= ranges.last().to
    }
}

/// Whatever happens to a running engine, the ranges that it has applied
/// cover the blocks from the first one that was due when it began to wait,
/// without a gap and without a block twice, and the next tick begins at the
/// block after them.
pub proof fn lemma_no_gap_no_repeat(m: Model, events: Seq<Event>)
    requires
        m.wf(),
        m.state == State::Waiting,
    ensures
        adjoining(applied(m, events), first_block(m.last_observed_block, m.fresh)),
        first_block(run(m, events).last_observed_block, run(m, events).fresh) == next_block(
            applied(m, events),
            first_block(m.last_observed_block, m.fresh),
        ),
        run(m, events).wf(),
        !(run(m, events).state is AwaitingChainId),
        !(run(m, events).state is AwaitingCheckpoint),
    decreases events.len(),
{
    if events.len() > 0 {
        let earlier = events.drop_last();
        lemma_no_gap_no_repeat(m, earlier);
        let before = run(m, earlier);
        lemma_checkpoint_never_decreases(before, events.last());
        match (before.state, events.last()) {
            (State::AwaitingCommit { range }, Event::Committed) => {
                assert(applied(m, events).drop_last() =~= applied(m, earlier));
            },
            _ => {},
        }
    }
}

/// An engine that starts on a record that the store already held with the
/// checkpoint `checkpoint` asks on its first tick for the blocks from
/// `checkpoint + 1` on, up to the finalized height at most and, where no
/// limit is set, exactly up to it; where no such block is finalized it asks
/// for none.
pub proof fn lemma_resume_starts_after_checkpoint(m: Model, checkpoint: u64, height: u64)
    requires
        m.state == State::AwaitingCheckpoint,
    ensures
        ({
            let resumed = transition(
                m,
                Event::Checkpoint { last_observed_block: checkpoint, created: false },
            ).0;
            let ticking = transition(resumed, Event::Trigger).0;
            let action = transition(ticking, Event::FinalizedHeight(height)).1;
            &&& resumed.last_observed_block == checkpoint
            &&& checkpoint >= height ==> action == Action::Wait
            &&& checkpoint < height ==> match action {
                Action::FetchLogs { from, to } => {
                    &&& from == checkpoint + 1
                    &&& from <= to <= height
                    &&& m.limit is None ==> to == height
                },
                _ => false,
            }
        }),
{
    lemma_range_bounded(checkpoint, false, height, m.limit);
}

/// The tick after a committed one begins at the block after the last block
/// of that one: between two ticks no block is left out and none comes twice.
pub proof fn lemma_ticks_adjoin(m: Model, range: BlockRange, height: u64)
    requires
        m.wf(),
        m.state == (State::AwaitingCommit { range }),
    ensures
        ({
            let committed = transition(m, Event::Committed).0;
            let ticking = transition(committed, Event::Trigger).0;
            let action = transition(ticking, Event::FinalizedHeight(height)).1;
            &&& committed.last_observed_block == range.to
            &&& range.to >= height ==> action == Action::Wait
            &&& range.to < height ==> match action {
                Action::FetchLogs { from, to } => from == range.to + 1 && from <= to <= height,
                _ => false,
            }
        }),
{
    lemma_range_bounded(range.to, false, height, m.limit);
}

/// A failure stops the engine and leaves the checkpoint where it was.
pub proof fn lemma_failure_keeps_checkpoint(m: Model)
    ensures
        ({
            let (after, action) = transition(m, Event::Failed);
            &&& after.last_observed_block == m.last_observed_block
            &&& after.fresh == m.fresh
            &&& after.state is Stopped
            &&& action is Stop
            &&& !(m.state is Stopped) ==> after.state == (State::Stopped { failed: true })
                && action == (Action::Stop { failed: true })
        }),
{
}

/// Where a tick over `range` fails on a record that the store held before
/// this start, an engine that starts again on the checkpoint as it was asks
/// at the same finalized height for the same range.
pub proof fn lemma_retry_covers_same_range(
    m: Model,
    range: BlockRange,
    height: u64,
    restarted: Model,
)
    requires
        !m.fresh,
        tick_range(m.last_observed_block, m.fresh, height, m.limit) == Some(range),
        restarted.state == State::AwaitingCheckpoint,
        restarted.limit == m.limit,
    ensures
        ({
            let resumed = transition(
                restarted,
                Event::Checkpoint { last_observed_block: m.last_observed_block, created: false },
            ).0;
            let ticking = transition(resumed, Event::Trigger).0;
            transition(ticking, Event::FinalizedHeight(height)).1 == (Action::FetchLogs {
                from: range.from,
                to: range.to,
            })
        }),
{
}

/// Where the first tick on a record that the store made at this start fails,
/// the engine that starts again finds that record, with the filter's start
/// block as its checkpoint, and begins at the block after it: the failed tick
/// began at the start block, the next one does not ask for that block again.
/// The record does not tell whether its start block has been applied.
pub proof fn lemma_failed_first_tick_resumes_after_start(
    m: Model,
    range: BlockRange,
    height: u64,
    restarted: Model,
)
    requires
        m.fresh,
        tick_range(m.last_observed_block, m.fresh, height, m.limit) == Some(range),
        restarted.state == State::AwaitingCheckpoint,
        restarted.limit == m.limit,
    ensures
        range.from == m.last_observed_block,
        ({
            let resumed = transition(
                restarted,
                Event::Checkpoint { last_observed_block: m.last_observed_block, created: false },
            ).0;
            let ticking = transition(resumed, Event::Trigger).0;
            let action = transition(ticking, Event::FinalizedHeight(height)).1;
            &&& m.last_observed_block >= height ==> action == Action::Wait
            &&& m.last_observed_block < height ==> match action {
                Action::FetchLogs { from, to } => from == range.from + 1 && from <= to <= height,
                _ => false,
            }
        }),
{
    lemma_range_bounded(m.last_observed_block, false, height, m.limit);
}

/// What happens in one tick that meets no failure while the finalized height
/// is `height`: the trigger and the height, and then, unless the tick is
/// idle, the logs and the commit.
pub open spec fn tick_events(m: Model, height: u64) -> Seq<Event> {
    if tick_range(m.last_observed_block, m.fresh, height, m.limit) is Some {
        seq![Event::Trigger, Event::FinalizedHeight(height), Event::LogsFetched, Event::Committed]
    } else {
        seq![Event::Trigger, Event::FinalizedHeight(height)]
    }
}

/// What happens in `n` such ticks, one after the other.
pub open spec fn ticks(m: Model, height: u64, n: nat) -> Seq<Event>
    decreases n,
{
    if n == 0 {
        Seq::empty()
    } else {
        let earlier = ticks(m, height, (n - 1) as nat);
        earlier + tick_events(run(m, earlier), height)
    }
}

/// The engine after two courses of events is the engine after the second,
/// begun where the first left it.
pub proof fn lemma_run_concat(m: Model, first: Seq<Event>, second: Seq<Event>)
    ensures
        run(m, first + second) == run(run(m, first), second),
    decreases second.len(),
{
    if second.len() == 0 {
        assert(first + second =~= first);
    } else {
        lemma_run_concat(m, first, second.drop_last());
        assert((first + second).drop_last() =~= first + second.drop_last());
        assert((first + second).last() == second.last());
    }
}

/// A tick that meets no failure leaves the engine waiting, with the
/// checkpoint at the last block of its range, or where it was if the tick
/// was idle.
pub proof fn lemma_one_tick(m: Model, height: u64)
    requires
        m.wf(),
        m.state == State::Waiting,
    ensures
        ({
            let end = run(m, tick_events(m, height));
            &&& end.wf()
            &&& end.state == State::Waiting
            &&& end.limit == m.limit
            &&& match tick_range(m.last_observed_block, m.fresh, height, m.limit) {
                Some(range) => end.last_observed_block == range.to && !end.fresh,
                None => end.last_observed_block == m.last_observed_block && end.fresh == m.fresh,
            }
        }),
{
    lemma_range_bounded(m.last_observed_block, m.fresh, height, m.limit);
    let s0 = Seq::<Event>::empty();
    let s1 = seq![Event::Trigger];
    let s2 = seq![Event::Trigger, Event::FinalizedHeight(height)];
    let s3 = seq![Event::Trigger, Event::FinalizedHeight(height), Event::LogsFetched];
    let s4 = seq![
        Event::Trigger,
        Event::FinalizedHeight(height),
        Event::LogsFetched,
        Event::Committed,
    ];
    assert(s1.drop_last() =~= s0);
    assert(s2.drop_last() =~= s1);
    assert(s3.drop_last() =~= s2);
    assert(s4.drop_last() =~= s3);
    assert(run(m, s0) == m);
    assert(run(m, s1) == transition(m, Event::Trigger).0);
    assert(run(m, s2) == transition(run(m, s1), Event::FinalizedHeight(height)).0);
    assert(run(m, s3) == transition(run(m, s2), Event::LogsFetched).0);
    assert(run(m, s4) == transition(run(m, s3), Event::Committed).0);
}

/// Each tick that meets no failure moves the first block that is due forward
/// by one at least, until no finalized block is left.
pub proof fn lemma_ticks_progress(m: Model, height: u64, n: nat)
    requires
        m.wf(),
        m.state == State::Waiting,
        first_block(m.last_observed_block, m.fresh) <= height,
    ensures
        ({
            let end = run(m, ticks(m, height, n));
            let due = first_block(end.last_observed_block, end.fresh);
            &&& end.wf()
            &&& end.state == State::Waiting
            &&& end.limit == m.limit
            &&& due <= height + 1
            &&& due == height + 1 || due >= first_block(m.last_observed_block, m.fresh) + n
            &&& n > 0 ==> !end.fresh
        }),
    decreases n,
{
    if n > 0 {
        let earlier = ticks(m, height, (n - 1) as nat);
        lemma_ticks_progress(m, height, (n - 1) as nat);
        let before = run(m, earlier);
        lemma_run_concat(m, earlier, tick_events(before, height));
        lemma_one_tick(before, height);
        lemma_range_bounded(before.last_observed_block, before.fresh, height, before.limit);
    }
}

/// After enough ticks that meet no failure the engine has applied every
/// finalized block once: the ranges that it has applied begin at the first
/// block that was due, follow one another without a gap and without a block
/// twice, and end at the finalized height, where the checkpoint then stands.
/// As many ticks as blocks were due are enough.
pub proof fn lemma_ticks_reach_finalized(m: Model, height: u64, n: nat)
    requires
        m.wf(),
        m.state == State::Waiting,
        first_block(m.last_observed_block, m.fresh) <= height,
        n >= height - first_block(m.last_observed_block, m.fresh) + 1,
    ensures
        ({
            let events = ticks(m, height, n);
            let start = first_block(m.last_observed_block, m.fresh);
            &&& run(m, events).state == State::Waiting
            &&& run(m, events).last_observed_block == height
            &&& adjoining(applied(m, events), start)
            &&& applied(m, events).len() > 0
            &&& applied(m, events).first().from == start
            &&& applied(m, events).last().to == height
        }),
{
    let events = ticks(m, height, n);
    let start = first_block(m.last_observed_block, m.fresh);
    lemma_ticks_progress(m, height, n);
    lemma_no_gap_no_repeat(m, events);
    lemma_adjoining_begins_at(applied(m, events), start);
}

/// Ranges that adjoin from `start` on begin at `start`.
pub proof fn lemma_adjoining_begins_at(ranges: Seq<BlockRange>, start: int)
    requires
        adjoining(ranges, start),
        ranges.len() > 0,
    ensures
        ranges.first().from == start,
    decreases ranges.len(),
{
    if ranges.len() > 1 {
        lemma_adjoining_begins_at(ranges.drop_last(), start);
        assert(ranges.drop_last().first() == ranges.first());
    }
}

/// A tick that finds no finalized block beyond the checkpoint asks for
/// nothing: no logs are fetched, nothing is applied, and the engine waits
/// again as it was.
pub proof fn lemma_idle_tick(m: Model, height: u64)
    requires
        m.state == State::AwaitingHeight,
        first_block(m.last_observed_block, m.fresh) > height,
    ensures
        transition(m, Event::FinalizedHeight(height)) == (
            Model { state: State::Waiting, ..m },
            Action::Wait,
        ),
{
}

/// A tick begins only while none is under way; logs are fetched only for a
/// range that the finalized height and the limit bound; and a transaction is
/// asked for only once its logs have arrived.
pub proof fn lemma_actions_in_order(m: Model, event: Event)
    requires
        m.wf(),
    ensures
        match transition(m, event).1 {
            Action::QueryFinalizedHeight => m.state == State::Waiting && event == Event::Trigger,
            Action::FetchLogs { from, to } => {
                &&& m.state == State::AwaitingHeight
                &&& exists|height: u64|
                    event == Event::FinalizedHeight(height) && tick_range(
                        m.last_observed_block,
                        m.fresh,
                        height,
                        m.limit,
                    ) == Some(BlockRange { from, to })
            },
            Action::Apply { prev_checkpoint, new_checkpoint, chain_id } => {
                &&& event == Event::LogsFetched
                &&& m.state is AwaitingLogs
                &&& prev_checkpoint == m.last_observed_block
                &&& new_checkpoint >= prev_checkpoint
            },
            _ => true,
        },
{
    match (m.state, event) {
        (State::AwaitingHeight, Event::FinalizedHeight(height)) => {
            lemma_range_bounded(m.last_observed_block, m.fresh, height, m.limit);
        },
        _ => {},
    }
}

/// The indexing engine of one filter on one chain.
pub struct Indexer {
    chain_id: u64,
    filter_id: String,
    filter: Filter,
    last_observed_block: u64,
    fresh: bool,
    fetch_interval: Duration,
    block_range_limit: Option<u64>,
    state: State,
}

impl Indexer {
    #[verifier::type_invariant]
    spec fn well_formed(self) -> bool {
        &&& self.model().wf()
        &&& self.model().identified() ==> self.filter_id@ == fingerprint(
            self.filter@,
            self.chain_id,
        )
    }

    /// The part of the engine that its decisions depend on.
    pub closed spec fn model(self) -> Model {
        Model {
            state: self.state,
            chain_id: self.chain_id,
            last_observed_block: self.last_observed_block,
            fresh: self.fresh,
            limit: self.block_range_limit,
        }
    }

    /// The filter that the engine indexes.
    pub closed spec fn spec_filter(self) -> Filter {
        self.filter
    }

    /// The identity of the filter on the chain, once the chain is known.
    pub closed spec fn spec_filter_id(self) -> Seq<char> {
        self.filter_id@
    }

    /// The period of the timer.
    pub closed spec fn spec_fetch_interval(self) -> Duration {
        self.fetch_interval
    }

    /// A builder that has been given nothing yet.
    pub fn builder<S, P>() -> (builder: IndexerBuilder<S, P>)
        ensures
            builder.http_provider is None,
            builder.ws_provider is None,
            builder.poll_interval is None,
            builder.filter is None,
            builder.processor is None,
            builder.storage is None,
            builder.block_range_limit is None,
    {
        IndexerBuilder::default()
    }

    /// An engine for `filter` that waits for the chain id.
    pub fn new(filter: Filter, fetch_interval: Duration, block_range_limit: Option<u64>) -> (indexer:
        Indexer)
        ensures
            indexer.model() == (Model {
                state: State::AwaitingChainId,
                chain_id: 0,
                last_observed_block: 0,
                fresh: false,
                limit: block_range_limit,
            }),
            indexer.spec_filter() == filter,
            indexer.spec_fetch_interval() == fetch_interval,
    {
        Indexer {
            chain_id: 0,
            filter_id: String::new(),
            filter,
            last_observed_block: 0,
            fresh: false,
            fetch_interval,
            block_range_limit,
            state: State::AwaitingChainId,
        }
    }

    /// Takes in what happened and says what to do next. An event that the
    /// state does not wait for, a failure among them, stops the engine; once
    /// stopped it stays so. The checkpoint moves only when a tick has been
    /// committed, and then to the last block of its range.
    pub fn step(&mut self, event: Event) -> (action: Action)
        ensures
            (final(self).model(), action) == transition(old(self).model(), event),
            final(self).model().wf(),
            final(self).spec_filter() == old(self).spec_filter(),
            final(self).spec_fetch_interval() == old(self).spec_fetch_interval(),
            final(self).model().identified() ==> final(self).spec_filter_id() == fingerprint(
                final(self).spec_filter()@,
                final(self).model().chain_id,
            ),
    {
        proof {
            use_type_invariant(&*self);
        }
        match (self.state, event) {
            (State::Stopped { failed }, _) => Action::Stop { failed },
            (State::AwaitingChainId, Event::ChainId(chain_id)) => {
                self.filter_id = filter_id(&self.filter, chain_id);
                self.chain_id = chain_id;
                self.state = State::AwaitingCheckpoint;
                Action::GetOrCreate { chain_id }
            },
            (State::AwaitingCheckpoint, Event::Checkpoint { last_observed_block, created }) => {
                self.state = State::Waiting;
                self.last_observed_block = last_observed_block;
                self.fresh = created;
                Action::Wait
            },
            (State::Waiting, Event::Trigger) => {
                self.state = State::AwaitingHeight;
                Action::QueryFinalizedHeight
            },
            (State::Waiting, Event::TriggersExhausted) => {
                self.state = State::Stopped { failed: false };
                Action::Stop { failed: false }
            },
            (State::AwaitingHeight, Event::FinalizedHeight(height)) => {
                match block_range(
                    self.last_observed_block,
                    self.fresh,
                    height,
                    self.block_range_limit,
                ) {
                    Some(range) => {
                        self.state = State::AwaitingLogs { range };
                        Action::FetchLogs { from: range.from, to: range.to }
                    },
                    None => {
                        self.state = State::Waiting;
                        Action::Wait
                    },
                }
            },
            (State::AwaitingLogs { range }, Event::LogsFetched) => {
                self.state = State::AwaitingCommit { range };
                Action::Apply {
                    prev_checkpoint: self.last_observed_block,
                    new_checkpoint: range.to,
                    chain_id: self.chain_id,
                }
            },
            (State::AwaitingCommit { range }, Event::Committed) => {
                self.state = State::Waiting;
                self.last_observed_block = range.to;
                self.fresh = false;
                Action::Wait
            },
            _ => {
                self.state = State::Stopped { failed: true };
                Action::Stop { failed: true }
            },
        }
    }

    /// Where the engine stands.
    pub fn state(&self) -> (state: State)
        ensures
            state == self.model().state,
    {
        self.state
    }

    /// The chain, once the log source has named it; 0 before.
    pub fn chain_id(&self) -> (chain_id: u64)
        ensures
            chain_id == self.model().chain_id,
    {
        self.chain_id
    }

    /// The last block whose logs have been applied.
    pub fn last_observed_block(&self) -> (block: u64)
        ensures
            block == self.model().last_observed_block,
    {
        self.last_observed_block
    }

    /// The most blocks that one tick may reach beyond its first, if limited.
    pub fn block_range_limit(&self) -> (limit: Option<u64>)
        ensures
            limit == self.model().limit,
    {
        self.block_range_limit
    }

    /// The period of the timer.
    pub fn fetch_interval(&self) -> (interval: Duration)
        ensures
            interval == self.spec_fetch_interval(),
    {
        self.fetch_interval
    }

    /// The filter that the engine indexes.
    pub fn filter(&self) -> (filter: &Filter)
        ensures
            *filter == self.spec_filter(),
    {
        &self.filter
    }

    /// The text held as the identity of the filter: its identity on the
    /// chain from the moment the chain is known and while the engine has not
    /// stopped.
    pub fn filter_id(&self) -> (id: &String)
        ensures
            id@ == self.spec_filter_id(),
            self.model().identified() ==> id@ == fingerprint(
                self.spec_filter()@,
                self.model().chain_id,
            ),
    {
        proof {
            use_type_invariant(self);
        }
        &self.filter_id
    }
}

} // verus!
