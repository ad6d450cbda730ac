//! The mathematical model of a timer run.
//!
//! A run is modelled as a *script*: the events emitted before the
//! first one-second sleep (`start`), followed by one entry per sleep.
//! Each entry splits its events in two: `wake`, the tick cue and the
//! per-second progress report of that second, and `after`, the
//! boundary events that follow (transition and end-of-block cues,
//! snapshot reports, the next block's initial report).
//!
//! This grouping makes cancellation exact: a sleep during which
//! cancellation was requested aborts the phase on waking, before the
//! tick cue and the report of that second, so a run cancelled during
//! sleep `k` emits `start`, the full entries before `k`, and nothing
//! else.

use vstd::prelude::*;

use crate::events::{CountdownPhase, CountdownRun, CueKind, Event, Outcome, ProgressReport};
use crate::model::{
    block_initial, countdown_total, effective_repeats, interval_total, wait_total, CountdownBlock,
    TimerBlock, WaitBlock,
};

verus! {

/// The events around one sleep: `wake` on waking uncancelled, then
/// `after` when a boundary follows.
#[verifier::ext_equal]
pub struct StepModel {
    pub wake: Seq<Event>,
    pub after: Seq<Event>,
}

/// A whole run: the events before the first sleep, and one step per
/// sleep.
#[verifier::ext_equal]
pub struct ScriptModel {
    pub start: Seq<Event>,
    pub steps: Seq<StepModel>,
}

pub open spec fn sm_empty() -> ScriptModel {
    ScriptModel { start: Seq::empty(), steps: Seq::empty() }
}

/// A script of boundary events only, with no sleep.
pub open spec fn sm_events(evts: Seq<Event>) -> ScriptModel {
    ScriptModel { start: evts, steps: Seq::empty() }
}

/// Sequential composition of two scripts: the second script's
/// pre-sleep events become boundary events of the first script's last
/// sleep (or more pre-sleep events, if the first script has no sleep).
pub open spec fn sm_join(a: ScriptModel, b: ScriptModel) -> ScriptModel {
    if a.steps.len() == 0 {
        ScriptModel { start: a.start + b.start, steps: b.steps }
    } else {
        let last = a.steps.last();
        ScriptModel {
            start: a.start,
            steps: a.steps.update(
                a.steps.len() - 1,
                StepModel { wake: last.wake, after: last.after + b.start },
            ) + b.steps,
        }
    }
}

/// Joining a steps-only script appends its steps unchanged.
pub proof fn lemma_join_steps_only(a: ScriptModel, ss: Seq<StepModel>)
    ensures
        sm_join(a, ScriptModel { start: Seq::empty(), steps: ss })
            == (ScriptModel { start: a.start, steps: a.steps + ss }),
{
    if a.steps.len() == 0 {
        assert(a.start + Seq::<Event>::empty() =~= a.start);
        assert(a.steps + ss =~= ss);
    } else {
        let last = a.steps.last();
        assert(last.after + Seq::<Event>::empty() =~= last.after);
        assert(StepModel { wake: last.wake, after: last.after + Seq::<Event>::empty() } =~= last);
        assert(a.steps.update(a.steps.len() - 1, a.steps.last()) =~= a.steps);
        assert(sm_join(a, ScriptModel { start: Seq::empty(), steps: ss }).steps =~= a.steps + ss);
    }
}

// ---------------------------------------------------------------------
// Flattening a script into a single event sequence (with sleep markers)
// and into the observed sequence (without them).
// ---------------------------------------------------------------------

pub open spec fn step_flat(st: StepModel) -> Seq<Event> {
    seq![Event::Sleep] + st.wake + st.after
}

pub open spec fn step_obs(st: StepModel) -> Seq<Event> {
    st.wake + st.after
}

pub open spec fn cat_steps(ss: Seq<StepModel>) -> Seq<Event>
    decreases ss.len(),
{
    if ss.len() == 0 {
        Seq::empty()
    } else {
        cat_steps(ss.drop_last()) + step_flat(ss.last())
    }
}

pub open spec fn obs_steps(ss: Seq<StepModel>) -> Seq<Event>
    decreases ss.len(),
{
    if ss.len() == 0 {
        Seq::empty()
    } else {
        obs_steps(ss.drop_last()) + step_obs(ss.last())
    }
}

/// All events of a script, sleep markers included.
pub open spec fn sm_flat(s: ScriptModel) -> Seq<Event> {
    s.start + cat_steps(s.steps)
}

/// All events a progress sink and cue player observe in an
/// uncancelled run: everything but the sleeps.
pub open spec fn sm_obs(s: ScriptModel) -> Seq<Event> {
    s.start + obs_steps(s.steps)
}

pub proof fn lemma_cat_steps_add(x: Seq<StepModel>, y: Seq<StepModel>)
    ensures
        cat_steps(x + y) == cat_steps(x) + cat_steps(y),
    decreases y.len(),
{
    if y.len() == 0 {
        assert(x + y =~= x);
        assert(cat_steps(x) + cat_steps(y) =~= cat_steps(x));
    } else {
        lemma_cat_steps_add(x, y.drop_last());
        assert((x + y).drop_last() =~= x + y.drop_last());
        assert((x + y).last() == y.last());
        assert(cat_steps(x) + cat_steps(y.drop_last()) + step_flat(y.last())
            =~= cat_steps(x) + (cat_steps(y.drop_last()) + step_flat(y.last())));
    }
}

pub proof fn lemma_obs_steps_add(x: Seq<StepModel>, y: Seq<StepModel>)
    ensures
        obs_steps(x + y) == obs_steps(x) + obs_steps(y),
    decreases y.len(),
{
    if y.len() == 0 {
        assert(x + y =~= x);
        assert(obs_steps(x) + obs_steps(y) =~= obs_steps(x));
    } else {
        lemma_obs_steps_add(x, y.drop_last());
        assert((x + y).drop_last() =~= x + y.drop_last());
        assert((x + y).last() == y.last());
        assert(obs_steps(x) + obs_steps(y.drop_last()) + step_obs(y.last())
            =~= obs_steps(x) + (obs_steps(y.drop_last()) + step_obs(y.last())));
    }
}

/// Flattening distributes over composition.
pub proof fn lemma_flat_join(a: ScriptModel, b: ScriptModel)
    ensures
        sm_flat(sm_join(a, b)) == sm_flat(a) + sm_flat(b),
{
    if a.steps.len() == 0 {
        assert((a.start + b.start) + cat_steps(b.steps)
            =~= (a.start + cat_steps(a.steps)) + (b.start + cat_steps(b.steps)));
    } else {
        let n = a.steps.len();
        let last = a.steps.last();
        let upd = a.steps.update(
            n - 1,
            StepModel { wake: last.wake, after: last.after + b.start },
        );
        lemma_cat_steps_add(upd, b.steps);
        assert(upd.drop_last() =~= a.steps.drop_last());
        assert(step_flat(upd.last()) =~= step_flat(last) + b.start);
        assert(cat_steps(upd) == cat_steps(a.steps.drop_last()) + (step_flat(last) + b.start));
        assert(a.start + (cat_steps(a.steps.drop_last()) + (step_flat(last) + b.start)
            + cat_steps(b.steps))
            =~= (a.start + (cat_steps(a.steps.drop_last()) + step_flat(last)))
                + (b.start + cat_steps(b.steps)));
    }
}

/// The observed events also distribute over composition.
pub proof fn lemma_obs_join(a: ScriptModel, b: ScriptModel)
    ensures
        sm_obs(sm_join(a, b)) == sm_obs(a) + sm_obs(b),
{
    if a.steps.len() == 0 {
        assert((a.start + b.start) + obs_steps(b.steps)
            =~= (a.start + obs_steps(a.steps)) + (b.start + obs_steps(b.steps)));
    } else {
        let n = a.steps.len();
        let last = a.steps.last();
        let upd = a.steps.update(
            n - 1,
            StepModel { wake: last.wake, after: last.after + b.start },
        );
        lemma_obs_steps_add(upd, b.steps);
        assert(upd.drop_last() =~= a.steps.drop_last());
        assert(step_obs(upd.last()) =~= step_obs(last) + b.start);
        assert(obs_steps(upd) == obs_steps(a.steps.drop_last()) + (step_obs(last) + b.start));
        assert(a.start + (obs_steps(a.steps.drop_last()) + (step_obs(last) + b.start)
            + obs_steps(b.steps))
            =~= (a.start + (obs_steps(a.steps.drop_last()) + step_obs(last)))
                + (b.start + obs_steps(b.steps)));
    }
}

pub proof fn lemma_obs_steps_take_snoc(ss: Seq<StepModel>, j: int)
    requires
        0 <= j < ss.len(),
    ensures
        obs_steps(ss.take(j + 1)) == obs_steps(ss.take(j)) + step_obs(ss[j]),
{
    assert(ss.take(j + 1).drop_last() =~= ss.take(j));
    assert(ss.take(j + 1).last() == ss[j]);
}

// ---------------------------------------------------------------------
// The script of a timer configuration.
// ---------------------------------------------------------------------

pub open spec fn report_event(
    bix: usize,
    remaining: int,
    run: Option<CountdownRun>,
    phase: Option<CountdownPhase>,
) -> Event {
    Event::Report(
        ProgressReport {
            block_ix: bix,
            remaining_secs: remaining as u64,
            countdown_run: run,
            countdown_phase: phase,
        },
    )
}

pub open spec fn cue_event(kind: CueKind) -> Event {
    Event::Cue(kind)
}

/// The entry for the `j`-th second (1-based) of a phase of `total`
/// seconds: on waking, a tick cue while five or fewer seconds remain
/// (but not at zero), then the progress report.
pub open spec fn phase_step(
    bix: usize,
    total: int,
    j: int,
    run: Option<CountdownRun>,
    phase: Option<CountdownPhase>,
) -> StepModel {
    let remaining = total - j;
    StepModel {
        wake: (if 1 <= remaining <= 5 {
            seq![cue_event(CueKind::Tick)]
        } else {
            Seq::<Event>::empty()
        }) + seq![report_event(bix, remaining, run, phase)],
        after: Seq::empty(),
    }
}

/// One per-second tick loop over `total` seconds: a zero-length phase
/// sleeps not at all and emits nothing.
pub open spec fn phase_model(
    bix: usize,
    total: int,
    run: Option<CountdownRun>,
    phase: Option<CountdownPhase>,
) -> ScriptModel {
    ScriptModel {
        start: Seq::empty(),
        steps: if total <= 0 {
            Seq::empty()
        } else {
            Seq::new(total as nat, |j: int| phase_step(bix, total, j + 1, run, phase))
        },
    }
}

/// A wait block is a single untagged phase.
pub open spec fn wait_model(bix: usize, w: WaitBlock) -> ScriptModel {
    phase_model(bix, wait_total(w), None, None)
}

/// Run `r` (1-based) of a countdown block: a snapshot report, the
/// countdown phase, and, before the last run, a transition cue, the
/// interval phase with its own snapshot report, and a second
/// transition cue.
pub open spec fn iteration_model(bix: usize, c: CountdownBlock, r: u32) -> ScriptModel {
    let reps = effective_repeats(c);
    let run = Some(CountdownRun { current: r, total: reps });
    let cd = sm_join(
        sm_events(
            seq![report_event(bix, countdown_total(c), run, Some(CountdownPhase::Countdown))],
        ),
        phase_model(bix, countdown_total(c), run, Some(CountdownPhase::Countdown)),
    );
    if r < reps {
        sm_join(
            sm_join(
                sm_join(
                    cd,
                    sm_events(
                        seq![
                            cue_event(CueKind::Transition),
                            report_event(
                                bix,
                                interval_total(c),
                                run,
                                Some(CountdownPhase::Interval),
                            ),
                        ],
                    ),
                ),
                phase_model(bix, interval_total(c), run, Some(CountdownPhase::Interval)),
            ),
            sm_events(seq![cue_event(CueKind::Transition)]),
        )
    } else {
        cd
    }
}

/// The first `n` runs of a countdown block.
pub open spec fn countdown_upto(bix: usize, c: CountdownBlock, n: int) -> ScriptModel
    decreases n,
{
    if n <= 0 {
        sm_empty()
    } else {
        sm_join(countdown_upto(bix, c, n - 1), iteration_model(bix, c, n as u32))
    }
}

/// A whole countdown block.
pub open spec fn countdown_model(bix: usize, c: CountdownBlock) -> ScriptModel {
    countdown_upto(bix, c, effective_repeats(c) as int)
}

pub open spec fn block_model(bix: usize, b: TimerBlock) -> ScriptModel {
    match b {
        TimerBlock::Wait(w) => wait_model(bix, w),
        TimerBlock::Countdown(c) => countdown_model(bix, c),
    }
}

/// The boundary events after block `i` completes: the all-end cue for
/// the final block, or the block-end cue and the next block's initial
/// report.
pub open spec fn block_tail(blocks: Seq<TimerBlock>, i: int) -> Seq<Event> {
    if i + 1 == blocks.len() {
        seq![cue_event(CueKind::AllEnd)]
    } else {
        seq![
            cue_event(CueKind::BlockEnd),
            report_event((i + 1) as usize, block_initial(blocks[i + 1]), None, None),
        ]
    }
}

/// The run over the first `n` blocks of a non-empty sequence, starting
/// with block 0's initial report.
pub open spec fn run_upto(blocks: Seq<TimerBlock>, n: int) -> ScriptModel
    decreases n,
{
    if n <= 0 {
        sm_events(seq![report_event(0, block_initial(blocks[0]), None, None)])
    } else {
        sm_join(
            run_upto(blocks, n - 1),
            sm_join(
                block_model((n - 1) as usize, blocks[n - 1]),
                sm_events(block_tail(blocks, n - 1)),
            ),
        )
    }
}

/// The script of a whole configuration. An empty block sequence has an
/// empty script: no reports, no cues, no sleeps.
pub open spec fn config_model(blocks: Seq<TimerBlock>) -> ScriptModel {
    if blocks.len() == 0 {
        sm_empty()
    } else {
        run_upto(blocks, blocks.len() as int)
    }
}

// ---------------------------------------------------------------------
// What a run emits and how it ends, as a function of when cancellation
// is first observed. `None` means never; `Some(0)` means before the
// run's first sleep; `Some(k)` with `k >= 1` means on waking from the
// `k`-th sleep.
// ---------------------------------------------------------------------

pub open spec fn observed_events(s: ScriptModel, cancel_at: Option<int>) -> Seq<Event> {
    match cancel_at {
        Option::None => sm_obs(s),
        Option::Some(k) => if k <= 0 {
            if s.start.len() == 0 {
                Seq::empty()
            } else {
                seq![s.start[0]]
            }
        } else if k > s.steps.len() {
            sm_obs(s)
        } else {
            s.start + obs_steps(s.steps.take(k - 1))
        },
    }
}

pub open spec fn observed_outcome(s: ScriptModel, cancel_at: Option<int>) -> Outcome {
    if s.start.len() == 0 {
        Outcome::Stopped
    } else {
        match cancel_at {
            Option::None => Outcome::Completed,
            Option::Some(k) => if k <= s.steps.len() {
                Outcome::Stopped
            } else {
                Outcome::Completed
            },
        }
    }
}

/// A non-empty configuration always has a script whose first event is
/// block 0's initial report; an empty one has an empty script.
pub proof fn lemma_config_model_start(blocks: Seq<TimerBlock>)
    ensures
        blocks.len() == 0 ==> config_model(blocks) == sm_empty(),
        blocks.len() > 0 ==> config_model(blocks).start.len() >= 1
            && config_model(blocks).start[0]
                == report_event(0, block_initial(blocks[0]), None, None),
{
    if blocks.len() > 0 {
        lemma_run_upto_start(blocks, blocks.len() as int);
    }
}

pub proof fn lemma_run_upto_start(blocks: Seq<TimerBlock>, n: int)
    ensures
        run_upto(blocks, n).start.len() >= 1,
        run_upto(blocks, n).start[0] == report_event(0, block_initial(blocks[0]), None, None),
    decreases n,
{
    if n > 0 {
        lemma_run_upto_start(blocks, n - 1);
    }
}

} // verus!
