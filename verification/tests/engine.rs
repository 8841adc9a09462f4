use indexer1::filter::Filter;
use indexer1::fingerprint::filter_id;
use indexer1::indexer::{Action, Event, Indexer, State};
use indexer1::storage::{GetOrCreate, LookupAction, LookupEvent};
use std::time::Duration;

fn running(filter: Filter, limit: Option<u64>, checkpoint: u64, created: bool) -> Indexer {
    let mut engine = Indexer::new(filter, Duration::from_secs(10), limit);
    assert_eq!(engine.step(Event::ChainId(1)), Action::GetOrCreate { chain_id: 1 });
    assert_eq!(
        engine.step(Event::Checkpoint { last_observed_block: checkpoint, created }),
        Action::Wait
    );
    engine
}

fn tick(engine: &mut Indexer, height: u64) -> Action {
    assert_eq!(engine.step(Event::Trigger), Action::QueryFinalizedHeight);
    engine.step(Event::FinalizedHeight(height))
}

fn apply(engine: &mut Indexer, prev: u64, new: u64) {
    assert_eq!(
        engine.step(Event::LogsFetched),
        Action::Apply { prev_checkpoint: prev, new_checkpoint: new, chain_id: 1 }
    );
    assert_eq!(engine.step(Event::Committed), Action::Wait);
    assert_eq!(engine.last_observed_block(), new);
}

#[test]
fn new_engine_waits_for_the_chain() {
    let engine = Indexer::new(Filter::new(), Duration::from_secs(3), Some(7));
    assert_eq!(engine.state(), State::AwaitingChainId);
    assert_eq!(engine.chain_id(), 0);
    assert_eq!(engine.last_observed_block(), 0);
    assert_eq!(engine.block_range_limit(), Some(7));
    assert_eq!(engine.fetch_interval(), Duration::from_secs(3));
    assert_eq!(engine.filter().start_block(), 1);
}

#[test]
fn engine_knows_its_filter_identity_once_the_chain_is_known() {
    let filter = Filter::new().from_block(100);
    let expected = filter_id(&filter, 1);
    let engine = running(filter, None, 100, true);
    assert_eq!(engine.filter_id(), &expected);
    assert_eq!(
        engine.filter_id(),
        "0xf5a9c84fc1946bdd6f012ab9585d70ae04f6ecf2c911354be28277aa7a095523"
    );
    assert_eq!(engine.chain_id(), 1);
    assert_eq!(engine.state(), State::Waiting);
}

#[test]
fn fresh_filter_is_indexed_in_bounded_ticks() {
    let mut engine = running(Filter::new().from_block(100), Some(20), 100, true);
    assert_eq!(tick(&mut engine, 150), Action::FetchLogs { from: 100, to: 120 });
    apply(&mut engine, 100, 120);
    assert_eq!(tick(&mut engine, 150), Action::FetchLogs { from: 121, to: 141 });
    apply(&mut engine, 120, 141);
    assert_eq!(tick(&mut engine, 150), Action::FetchLogs { from: 142, to: 150 });
    apply(&mut engine, 141, 150);
    assert_eq!(tick(&mut engine, 150), Action::Wait);
    assert_eq!(engine.state(), State::Waiting);
    assert_eq!(engine.last_observed_block(), 150);
}

#[test]
fn restart_resumes_after_the_persisted_checkpoint() {
    let mut engine = running(Filter::new().from_block(100), None, 120, false);
    assert_eq!(engine.last_observed_block(), 120);
    assert_eq!(tick(&mut engine, 150), Action::FetchLogs { from: 121, to: 150 });
    apply(&mut engine, 120, 150);
    assert_eq!(tick(&mut engine, 150), Action::Wait);
}

#[test]
fn idle_tick_asks_for_nothing() {
    let mut engine = running(Filter::new(), Some(20), 150, false);
    assert_eq!(tick(&mut engine, 150), Action::Wait);
    assert_eq!(tick(&mut engine, 149), Action::Wait);
    assert_eq!(engine.last_observed_block(), 150);
    assert_eq!(engine.state(), State::Waiting);
}

#[test]
fn failed_apply_stops_and_keeps_the_checkpoint() {
    let mut engine = running(Filter::new(), Some(20), 120, false);
    assert_eq!(tick(&mut engine, 150), Action::FetchLogs { from: 121, to: 141 });
    assert_eq!(
        engine.step(Event::LogsFetched),
        Action::Apply { prev_checkpoint: 120, new_checkpoint: 141, chain_id: 1 }
    );
    assert_eq!(engine.step(Event::Failed), Action::Stop { failed: true });
    assert_eq!(engine.state(), State::Stopped { failed: true });
    assert_eq!(engine.last_observed_block(), 120);
    assert_eq!(engine.step(Event::Trigger), Action::Stop { failed: true });
    assert_eq!(engine.step(Event::Committed), Action::Stop { failed: true });
    assert_eq!(engine.last_observed_block(), 120);

    let mut again = running(Filter::new(), Some(20), 120, false);
    assert_eq!(tick(&mut again, 150), Action::FetchLogs { from: 121, to: 141 });
}

#[test]
fn failure_at_any_step_stops_the_engine() {
    let mut engine = Indexer::new(Filter::new(), Duration::from_secs(1), None);
    assert_eq!(engine.step(Event::Failed), Action::Stop { failed: true });

    let mut engine = Indexer::new(Filter::new(), Duration::from_secs(1), None);
    engine.step(Event::ChainId(1));
    assert_eq!(engine.step(Event::Failed), Action::Stop { failed: true });

    let mut engine = running(Filter::new(), None, 5, false);
    engine.step(Event::Trigger);
    assert_eq!(engine.step(Event::Failed), Action::Stop { failed: true });

    let mut engine = running(Filter::new(), None, 5, false);
    assert_eq!(tick(&mut engine, 9), Action::FetchLogs { from: 6, to: 9 });
    assert_eq!(engine.step(Event::Failed), Action::Stop { failed: true });
    assert_eq!(engine.last_observed_block(), 5);
}

#[test]
fn exhausted_triggers_end_the_engine_without_error() {
    let mut engine = running(Filter::new(), None, 5, false);
    assert_eq!(engine.step(Event::TriggersExhausted), Action::Stop { failed: false });
    assert_eq!(engine.state(), State::Stopped { failed: false });
    assert_eq!(engine.step(Event::Trigger), Action::Stop { failed: false });
}

#[test]
fn event_out_of_turn_stops_the_engine() {
    let mut engine = running(Filter::new(), None, 5, false);
    assert_eq!(engine.step(Event::Committed), Action::Stop { failed: true });
    assert_eq!(engine.last_observed_block(), 5);

    let mut engine = running(Filter::new(), None, 5, false);
    engine.step(Event::Trigger);
    assert_eq!(engine.step(Event::Trigger), Action::Stop { failed: true });
}

#[test]
fn checkpoint_never_decreases_over_ticks() {
    let mut engine = running(Filter::new().from_block(10), Some(3), 10, true);
    let mut previous = engine.last_observed_block();
    for height in [9u64, 10, 12, 12, 30, 20, 31] {
        if let Action::FetchLogs { from, to } = tick(&mut engine, height) {
            assert!(from <= to && to <= height && to <= from + 3);
            engine.step(Event::LogsFetched);
            engine.step(Event::Committed);
            assert_eq!(engine.last_observed_block(), to);
        }
        assert!(engine.last_observed_block() >= previous);
        previous = engine.last_observed_block();
    }
    assert_eq!(previous, 24);
}

#[test]
fn restart_with_the_same_filter_finds_the_same_record() {
    let topic = [7u8; 32];
    let other = [9u8; 32];
    let first = Filter::new().from_block(100).with_topic(0, topic).with_topic(0, other);
    let second = Filter::new().with_topic(0, other).with_topic(0, topic).from_block(100);
    assert_eq!(filter_id(&first, 1), filter_id(&second, 1));

    let (mut lookup, _) = GetOrCreate::new(second.start_block());
    lookup.step(LookupEvent::SchemaReady);
    let found = lookup.step(LookupEvent::Found { column: 120 });
    assert_eq!(found, LookupAction::Return { last_observed_block: 120, created: false });

    let mut engine = running(second, Some(20), 120, false);
    assert_eq!(engine.last_observed_block(), 120);
    assert_eq!(tick(&mut engine, 150), Action::FetchLogs { from: 121, to: 141 });
}

#[test]
fn ticks_apply_every_finalized_block_once() {
    for (checkpoint, created, limit, height) in [
        (100u64, true, Some(20u64), 150u64),
        (100, false, Some(20), 150),
        (0, false, Some(0), 7),
        (5, true, None, 9),
        (9, true, Some(3), 9),
    ] {
        let mut engine = running(Filter::new().from_block(checkpoint), limit, checkpoint, created);
        let first_due = if created { checkpoint } else { checkpoint + 1 };
        let mut next = first_due;
        let mut ticks = 0;
        while let Action::FetchLogs { from, to } = tick(&mut engine, height) {
            assert_eq!(from, next);
            assert!(from <= to && to <= height);
            engine.step(Event::LogsFetched);
            assert_eq!(engine.step(Event::Committed), Action::Wait);
            next = to + 1;
            ticks += 1;
        }
        assert_eq!(next, height + 1);
        assert_eq!(engine.last_observed_block(), height);
        assert!(ticks <= height - first_due + 1);
        assert_eq!(engine.state(), State::Waiting);
    }
}

#[test]
fn failed_first_tick_of_a_new_record_resumes_after_the_start_block() {
    let mut engine = running(Filter::new().from_block(100), Some(20), 100, true);
    assert_eq!(tick(&mut engine, 150), Action::FetchLogs { from: 100, to: 120 });
    engine.step(Event::LogsFetched);
    assert_eq!(engine.step(Event::Failed), Action::Stop { failed: true });
    assert_eq!(engine.last_observed_block(), 100);

    let mut again = running(Filter::new().from_block(100), Some(20), 100, false);
    assert_eq!(tick(&mut again, 150), Action::FetchLogs { from: 101, to: 121 });
}
