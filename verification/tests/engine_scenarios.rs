use nekotimer::engine::{simulate, EngineNext, TimerEngine};
use nekotimer::events::{CountdownPhase, CountdownRun, CueKind, Event, Outcome, ProgressReport};
use nekotimer::model::{CountdownBlock, TimerBlock, TimerConfig, WaitBlock};

fn wait_block(minutes: u32, seconds: u32) -> TimerBlock {
    TimerBlock::Wait(WaitBlock { name: "w".to_string(), minutes, seconds })
}

fn countdown_block(
    minutes: u32,
    seconds: u32,
    repeat_count: u32,
    interval_minutes: u32,
    interval_seconds: u32,
) -> TimerBlock {
    TimerBlock::Countdown(CountdownBlock {
        name: "c".to_string(),
        minutes,
        seconds,
        repeat_count,
        interval_minutes,
        interval_seconds,
    })
}

fn config(blocks: Vec<TimerBlock>) -> TimerConfig {
    TimerConfig { id: "t1".to_string(), name: "timer".to_string(), blocks }
}

fn rep(block_ix: usize, remaining_secs: u64) -> Event {
    Event::Report(ProgressReport { block_ix, remaining_secs, countdown_run: None, countdown_phase: None })
}

fn crep(block_ix: usize, remaining_secs: u64, current: u32, total: u32, phase: CountdownPhase) -> Event {
    Event::Report(ProgressReport {
        block_ix,
        remaining_secs,
        countdown_run: Some(CountdownRun { current, total }),
        countdown_phase: Some(phase),
    })
}

fn cue(kind: CueKind) -> Event {
    Event::Cue(kind)
}

#[test]
fn single_wait_block_uncancelled() {
    let cfg = config(vec![wait_block(0, 10)]);
    let (outcome, events) = simulate(&cfg, None);
    assert_eq!(outcome, Outcome::Completed);
    let t = CueKind::Tick;
    let expected = vec![
        rep(0, 10),
        rep(0, 9),
        rep(0, 8),
        rep(0, 7),
        rep(0, 6),
        cue(t),
        rep(0, 5),
        cue(t),
        rep(0, 4),
        cue(t),
        rep(0, 3),
        cue(t),
        rep(0, 2),
        cue(t),
        rep(0, 1),
        rep(0, 0),
        cue(CueKind::AllEnd),
    ];
    assert_eq!(events, expected);
    let reports = events.iter().filter(|e| matches!(e, Event::Report(_))).count();
    assert_eq!(reports, 11);
    let block_ends = events.iter().filter(|e| matches!(e, Event::Cue(CueKind::BlockEnd))).count();
    assert_eq!(block_ends, 0);
}

#[test]
fn single_countdown_two_runs_uncancelled() {
    let cfg = config(vec![countdown_block(0, 5, 2, 0, 3)]);
    let (outcome, events) = simulate(&cfg, None);
    assert_eq!(outcome, Outcome::Completed);
    let t = CueKind::Tick;
    let cd = CountdownPhase::Countdown;
    let iv = CountdownPhase::Interval;
    let expected = vec![
        rep(0, 5),
        crep(0, 5, 1, 2, cd),
        cue(t),
        crep(0, 4, 1, 2, cd),
        cue(t),
        crep(0, 3, 1, 2, cd),
        cue(t),
        crep(0, 2, 1, 2, cd),
        cue(t),
        crep(0, 1, 1, 2, cd),
        crep(0, 0, 1, 2, cd),
        cue(CueKind::Transition),
        crep(0, 3, 1, 2, iv),
        cue(t),
        crep(0, 2, 1, 2, iv),
        cue(t),
        crep(0, 1, 1, 2, iv),
        crep(0, 0, 1, 2, iv),
        cue(CueKind::Transition),
        crep(0, 5, 2, 2, cd),
        cue(t),
        crep(0, 4, 2, 2, cd),
        cue(t),
        crep(0, 3, 2, 2, cd),
        cue(t),
        crep(0, 2, 2, 2, cd),
        cue(t),
        crep(0, 1, 2, 2, cd),
        crep(0, 0, 2, 2, cd),
        cue(CueKind::AllEnd),
    ];
    assert_eq!(events, expected);
    let transitions = events.iter().filter(|e| matches!(e, Event::Cue(CueKind::Transition))).count();
    assert_eq!(transitions, 2);
    let tagged_reports = events
        .iter()
        .filter(|e| matches!(e, Event::Report(r) if r.countdown_run.is_some()))
        .count();
    assert_eq!(tagged_reports, 16);
    let all_reports = events.iter().filter(|e| matches!(e, Event::Report(_))).count();
    assert_eq!(all_reports, 17);
}

#[test]
fn countdown_cancelled_at_remaining_three() {
    // Same configuration as the uncancelled two-run scenario, with
    // cancellation requested while remaining 3 of run 1 is on show,
    // that is during the third sleep of the whole run: the run stops
    // on waking, and the remaining-2 tick and report never go out.
    let cfg = config(vec![countdown_block(0, 5, 2, 0, 3)]);
    let (outcome, events) = simulate(&cfg, Some(3));
    assert_eq!(outcome, Outcome::Stopped);
    let cd = CountdownPhase::Countdown;
    let expected = vec![
        rep(0, 5),
        crep(0, 5, 1, 2, cd),
        cue(CueKind::Tick),
        crep(0, 4, 1, 2, cd),
        cue(CueKind::Tick),
        crep(0, 3, 1, 2, cd),
    ];
    assert_eq!(events, expected);
    assert!(!events.iter().any(|e| matches!(e, Event::Cue(CueKind::Transition))));
    assert!(!events.iter().any(|e| matches!(e, Event::Cue(CueKind::AllEnd))));
    assert!(!events.iter().any(|e| matches!(e, Event::Cue(CueKind::BlockEnd))));
}

#[test]
fn empty_config_stops_without_events() {
    let cfg = config(vec![]);
    let (outcome, events) = simulate(&cfg, None);
    assert_eq!(outcome, Outcome::Stopped);
    assert!(events.is_empty());
}

#[test]
fn zero_duration_wait_completes_with_one_report() {
    let cfg = config(vec![wait_block(0, 0)]);
    let (outcome, events) = simulate(&cfg, None);
    assert_eq!(outcome, Outcome::Completed);
    assert_eq!(events, vec![rep(0, 0), cue(CueKind::AllEnd)]);
}

#[test]
fn repeat_count_zero_runs_once() {
    let cfg = config(vec![countdown_block(0, 1, 0, 0, 30)]);
    let (outcome, events) = simulate(&cfg, None);
    assert_eq!(outcome, Outcome::Completed);
    let cd = CountdownPhase::Countdown;
    let expected = vec![rep(0, 1), crep(0, 1, 1, 1, cd), crep(0, 0, 1, 1, cd), cue(CueKind::AllEnd)];
    assert_eq!(events, expected);
}

#[test]
fn cancellation_before_start_emits_only_initial_report() {
    let cfg = config(vec![wait_block(0, 10)]);
    let (outcome, events) = simulate(&cfg, Some(0));
    assert_eq!(outcome, Outcome::Stopped);
    assert_eq!(events, vec![rep(0, 10)]);
}

#[test]
fn cancellation_during_interval_keeps_leading_transition() {
    // Runs of 5 seconds, interval of 3: sleeps 1..=5 cover run 1,
    // sleeps 6..=8 the interval. Cancellation during sleep 7 stops the
    // run on waking: the last event is the interval report at 2, and
    // the transition cue that opened the interval stays.
    let cfg = config(vec![countdown_block(0, 5, 2, 0, 3)]);
    let (outcome, events) = simulate(&cfg, Some(7));
    assert_eq!(outcome, Outcome::Stopped);
    assert_eq!(
        events.last(),
        Some(&crep(0, 2, 1, 2, CountdownPhase::Interval))
    );
    let transitions = events.iter().filter(|e| matches!(e, Event::Cue(CueKind::Transition))).count();
    assert_eq!(transitions, 1);
    assert!(!events.iter().any(|e| matches!(e, Event::Cue(CueKind::AllEnd))));
}

#[test]
fn two_blocks_play_block_end_between_them() {
    let cfg = config(vec![wait_block(0, 2), wait_block(0, 1)]);
    let (outcome, events) = simulate(&cfg, None);
    assert_eq!(outcome, Outcome::Completed);
    let expected = vec![
        rep(0, 2),
        cue(CueKind::Tick),
        rep(0, 1),
        rep(0, 0),
        cue(CueKind::BlockEnd),
        rep(1, 1),
        rep(1, 0),
        cue(CueKind::AllEnd),
    ];
    assert_eq!(events, expected);
}

#[test]
fn cancellation_after_last_sleep_still_completes() {
    // The flag first reads true only after every sleep is over: the
    // run has already completed.
    let cfg = config(vec![wait_block(0, 2)]);
    let (outcome, events) = simulate(&cfg, Some(3));
    assert_eq!(outcome, Outcome::Completed);
    assert_eq!(events.last(), Some(&cue(CueKind::AllEnd)));
}

#[test]
fn cancellation_at_last_sleep_suppresses_all_end() {
    // Cancellation during the final sleep withholds the last report
    // and the all-end cue alike.
    let cfg = config(vec![wait_block(0, 2)]);
    let (outcome, events) = simulate(&cfg, Some(2));
    assert_eq!(outcome, Outcome::Stopped);
    assert_eq!(events, vec![rep(0, 2), cue(CueKind::Tick), rep(0, 1)]);
}

#[test]
fn engine_steps_request_one_sleep_per_second() {
    let cfg = config(vec![wait_block(0, 3)]);
    let mut engine = TimerEngine::new(&cfg);
    let mut sleeps = 0;
    let mut events = Vec::new();
    let mut out = engine.step(false);
    loop {
        events.extend(out.events.iter().cloned());
        match out.next {
            EngineNext::Sleep => {
                sleeps += 1;
                out = engine.step(false);
            }
            EngineNext::Done(outcome) => {
                assert_eq!(outcome, Outcome::Completed);
                break;
            }
        }
    }
    assert_eq!(sleeps, 3);
    let (_, simulated) = simulate(&cfg, None);
    assert_eq!(events, simulated);
}

#[test]
fn cancellation_in_a_later_block_keeps_earlier_block_end_cues() {
    // Block 0 completes (sleeps 1 and 2), its block-end cue plays and
    // block 1 starts; cancellation during block 1's first sleep stops
    // the run without retracting the cue or adding another.
    let cfg = config(vec![wait_block(0, 2), wait_block(0, 2)]);
    let (outcome, events) = simulate(&cfg, Some(3));
    assert_eq!(outcome, Outcome::Stopped);
    let expected = vec![
        rep(0, 2),
        cue(CueKind::Tick),
        rep(0, 1),
        rep(0, 0),
        cue(CueKind::BlockEnd),
        rep(1, 2),
    ];
    assert_eq!(events, expected);
    let block_ends = events.iter().filter(|e| matches!(e, Event::Cue(CueKind::BlockEnd))).count();
    assert_eq!(block_ends, 1);
    assert!(!events.iter().any(|e| matches!(e, Event::Cue(CueKind::AllEnd))));
}
