//! Executable form of a run script, and its construction from a timer
//! configuration.

use vstd::prelude::*;

use crate::events::{CountdownPhase, CountdownRun, CueKind, Event, ProgressReport};
use crate::model::{
    block_initial_remaining, countdown_total, effective_repeats, interval_total,
    wait_total, CountdownBlock, TimerBlock, TimerConfig,
};
use crate::trace::{
    block_model, block_tail, config_model, countdown_model, countdown_upto, cue_event,
    iteration_model, lemma_join_steps_only, phase_model, phase_step, report_event, run_upto,
    sm_empty, sm_events, sm_join, wait_model, ScriptModel, StepModel,
};

verus! {

/// The events around one sleep of a run.
pub struct ScriptStep {
    pub wake: Vec<Event>,
    pub after: Vec<Event>,
}

impl View for ScriptStep {
    type V = StepModel;

    open spec fn view(&self) -> StepModel {
        StepModel { wake: self.wake@, after: self.after@ }
    }
}

/// A fully computed run script.
pub struct Script {
    pub start: Vec<Event>,
    pub steps: Vec<ScriptStep>,
}

impl View for Script {
    type V = ScriptModel;

    open spec fn view(&self) -> ScriptModel {
        ScriptModel {
            start: self.start@,
            steps: Seq::new(self.steps@.len(), |i: int| self.steps@[i]@),
        }
    }
}

impl Script {
    /// A script holding boundary events only.
    pub fn from_events(evts: Vec<Event>) -> (s: Script)
        ensures
            s@ == sm_events(evts@),
    {
        let s = Script { start: evts, steps: Vec::new() };
        proof {
            assert(s@.steps =~= Seq::<StepModel>::empty());
        }
        s
    }

    /// Appends one sleep entry.
    fn push_step(&mut self, st: ScriptStep)
        ensures
            final(self)@.start == old(self)@.start,
            final(self)@.steps == old(self)@.steps.push(st@),
    {
        let ghost prev = self@.steps;
        let ghost stv = st@;
        self.steps.push(st);
        proof {
            assert(self@.steps =~= prev.push(stv));
        }
    }

    /// Appends boundary events after the last sleep (or before the
    /// first, if there is none yet).
    pub fn append_events(&mut self, mut evts: Vec<Event>)
        ensures
            final(self)@ == sm_join(old(self)@, sm_events(evts@)),
    {
        let ghost evv = evts@;
        if self.steps.len() == 0 {
            self.start.append(&mut evts);
            proof {
                assert(self@.steps =~= sm_join(old(self)@, sm_events(evv)).steps);
            }
        } else {
            let mut last = self.steps.pop().unwrap();
            last.after.append(&mut evts);
            let ghost lastv = last@;
            self.steps.push(last);
            proof {
                let pre = old(self)@;
                let n = pre.steps.len();
                assert(self@.steps =~= pre.steps.update(
                    n - 1,
                    StepModel { wake: pre.steps.last().wake, after: pre.steps.last().after + evv },
                ));
            }
        }
    }

    /// Appends a whole script after this one.
    pub fn join(&mut self, other: Script)
        ensures
            final(self)@ == sm_join(old(self)@, other@),
    {
        let ghost pre = self@;
        let ghost otherv = other@;
        let Script { start: ostart, steps: mut osteps } = other;
        self.append_events(ostart);
        let ghost mid = self@;
        self.steps.append(&mut osteps);
        proof {
            assert(self@.steps =~= mid.steps + otherv.steps);
            assert(self@.start == mid.start);
            assert(sm_join(pre, otherv).steps =~= self@.steps);
        }
    }
}

/// Appends the per-second tick loop of one phase: for each elapsed
/// second, one sleep entry whose wake events are a tick cue while five
/// or fewer seconds remain (but not at zero) and the progress report.
fn build_phase(
    s: &mut Script,
    bix: usize,
    total: u64,
    run: Option<CountdownRun>,
    phase: Option<CountdownPhase>,
)
    ensures
        final(s)@ == sm_join(old(s)@, phase_model(bix, total as int, run, phase)),
{
    let ghost base = s@;
    let mut j: u64 = 0;
    while j < total
        invariant
            j <= total,
            s@.start == base.start,
            s@.steps == base.steps + Seq::new(
                j as nat,
                |i: int| phase_step(bix, total as int, i + 1, run, phase),
            ),
        decreases total - j,
    {
        j = j + 1;
        let remaining = total - j;
        let mut wake: Vec<Event> = Vec::new();
        if 1 <= remaining && remaining <= 5 {
            wake.push(Event::Cue(CueKind::Tick));
        }
        wake.push(Event::Report(ProgressReport {
            block_ix: bix,
            remaining_secs: remaining,
            countdown_run: run,
            countdown_phase: phase,
        }));
        let st = ScriptStep { wake, after: Vec::new() };
        proof {
            assert(st@ =~= phase_step(bix, total as int, j as int, run, phase));
        }
        s.push_step(st);
        proof {
            assert(base.steps + Seq::new(
                j as nat,
                |i: int| phase_step(bix, total as int, i + 1, run, phase),
            ) =~= (base.steps + Seq::new(
                (j - 1) as nat,
                |i: int| phase_step(bix, total as int, i + 1, run, phase),
            )).push(phase_step(bix, total as int, j as int, run, phase)));
        }
    }
    proof {
        lemma_join_steps_only(base, phase_model(bix, total as int, run, phase).steps);
        if total == 0 {
            assert(base.steps + phase_model(bix, total as int, run, phase).steps =~= base.steps);
            assert(s@.steps =~= base.steps);
        }
        assert(s@ =~= sm_join(base, phase_model(bix, total as int, run, phase)));
    }
}

/// Appends a whole countdown block: `max(1, repeat_count)` runs, each
/// a snapshot report and a countdown phase, with transition cues and
/// an interval phase between consecutive runs.
fn build_countdown(s: &mut Script, bix: usize, c: &CountdownBlock)
    ensures
        final(s)@ == sm_join(old(s)@, countdown_model(bix, *c)),
{
    let ghost base = s@;
    let cd_total: u64 = c.minutes as u64 * 60 + c.seconds as u64;
    let iv_total: u64 = c.interval_minutes as u64 * 60 + c.interval_seconds as u64;
    let reps: u32 = if c.repeat_count == 0 {
        1
    } else {
        c.repeat_count
    };
    let mut block = Script::from_events(Vec::new());
    proof {
        assert(block@ =~= sm_empty());
        assert(block@ == countdown_upto(bix, *c, 0));
    }
    let mut r: u32 = 0;
    while r < reps
        invariant
            r <= reps,
            reps == effective_repeats(*c),
            cd_total == countdown_total(*c),
            iv_total == interval_total(*c),
            block@ == countdown_upto(bix, *c, r as int),
        decreases reps - r,
    {
        r = r + 1;
        let run = Some(CountdownRun { current: r, total: reps });
        let mut snap: Vec<Event> = Vec::new();
        snap.push(Event::Report(ProgressReport {
            block_ix: bix,
            remaining_secs: cd_total,
            countdown_run: run,
            countdown_phase: Some(CountdownPhase::Countdown),
        }));
        proof {
            assert(snap@ =~= seq![
                report_event(bix, countdown_total(*c), run, Some(CountdownPhase::Countdown)),
            ]);
        }
        let mut it = Script::from_events(snap);
        build_phase(&mut it, bix, cd_total, run, Some(CountdownPhase::Countdown));
        let ghost cd_part = sm_join(
            sm_events(
                seq![report_event(bix, countdown_total(*c), run, Some(CountdownPhase::Countdown))],
            ),
            phase_model(bix, countdown_total(*c), run, Some(CountdownPhase::Countdown)),
        );
        proof {
            assert(it@ == cd_part);
        }
        if r < reps {
            let mut mid: Vec<Event> = Vec::new();
            mid.push(Event::Cue(CueKind::Transition));
            mid.push(Event::Report(ProgressReport {
                block_ix: bix,
                remaining_secs: iv_total,
                countdown_run: run,
                countdown_phase: Some(CountdownPhase::Interval),
            }));
            proof {
                assert(mid@ =~= seq![
                    cue_event(CueKind::Transition),
                    report_event(bix, interval_total(*c), run, Some(CountdownPhase::Interval)),
                ]);
            }
            it.append_events(mid);
            let ghost mid_part = sm_join(
                cd_part,
                sm_events(
                    seq![
                        cue_event(CueKind::Transition),
                        report_event(bix, interval_total(*c), run, Some(CountdownPhase::Interval)),
                    ],
                ),
            );
            proof {
                assert(it@ == mid_part);
            }
            build_phase(&mut it, bix, iv_total, run, Some(CountdownPhase::Interval));
            let ghost iv_part = sm_join(
                mid_part,
                phase_model(bix, interval_total(*c), run, Some(CountdownPhase::Interval)),
            );
            proof {
                assert(it@ == iv_part);
            }
            let mut trail: Vec<Event> = Vec::new();
            trail.push(Event::Cue(CueKind::Transition));
            proof {
                assert(trail@ =~= seq![cue_event(CueKind::Transition)]);
            }
            it.append_events(trail);
            proof {
                assert(it@ == sm_join(iv_part, sm_events(seq![cue_event(CueKind::Transition)])));
                assert(it@ == iteration_model(bix, *c, r));
            }
        } else {
            proof {
                assert(it@ == iteration_model(bix, *c, r));
            }
        }
        block.join(it);
    }
    s.join(block);
}

/// Computes the full script of a configuration: block 0's initial
/// report, then each block's events, each followed by its end-of-block
/// cue and, for non-final blocks, the next block's initial report.
pub fn build_script(config: &TimerConfig) -> (s: Script)
    ensures
        s@ == config_model(config.blocks@),
{
    let n = config.blocks.len();
    if n == 0 {
        let s = Script::from_events(Vec::new());
        proof {
            assert(s@ =~= sm_empty());
        }
        return s;
    }
    let mut init: Vec<Event> = Vec::new();
    init.push(Event::Report(ProgressReport {
        block_ix: 0,
        remaining_secs: block_initial_remaining(&config.blocks[0]),
        countdown_run: None,
        countdown_phase: None,
    }));
    let mut s = Script::from_events(init);
    proof {
        assert(s@ =~= run_upto(config.blocks@, 0));
    }
    let mut i: usize = 0;
    while i < n
        invariant
            i <= n,
            n == config.blocks@.len(),
            s@ == run_upto(config.blocks@, i as int),
        decreases n - i,
    {
        let mut bs = Script::from_events(Vec::new());
        proof {
            assert(bs@ =~= sm_empty());
        }
        match &config.blocks[i] {
            TimerBlock::Wait(w) => {
                let total: u64 = w.minutes as u64 * 60 + w.seconds as u64;
                build_phase(&mut bs, i, total, None, None);
                proof {
                    assert(sm_join(sm_empty(), wait_model(i, *w))
                        =~= wait_model(i, *w));
                    assert(bs@ == block_model(i, config.blocks@[i as int]));
                }
            },
            TimerBlock::Countdown(c) => {
                build_countdown(&mut bs, i, c);
                proof {
                    assert(sm_join(sm_empty(), countdown_model(i, *c)).start
                        =~= countdown_model(i, *c).start);
                    assert(sm_join(sm_empty(), countdown_model(i, *c))
                        =~= countdown_model(i, *c));
                    assert(bs@ == block_model(i, config.blocks@[i as int]));
                }
            },
        }
        let mut tail: Vec<Event> = Vec::new();
        if i + 1 == n {
            tail.push(Event::Cue(CueKind::AllEnd));
        } else {
            tail.push(Event::Cue(CueKind::BlockEnd));
            tail.push(Event::Report(ProgressReport {
                block_ix: i + 1,
                remaining_secs: block_initial_remaining(&config.blocks[i + 1]),
                countdown_run: None,
                countdown_phase: None,
            }));
        }
        proof {
            assert(tail@ =~= block_tail(config.blocks@, i as int));
        }
        bs.append_events(tail);
        s.join(bs);
        i = i + 1;
    }
    s
}

} // verus!
