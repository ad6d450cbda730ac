//! The timer execution engine.
//!
//! The engine never sleeps itself: it is a step machine. The caller
//! calls `step` once at the start of the run with the cancellation
//! flag's current value, and then, each time `step` asks for a sleep,
//! performs one cancelable one-second sleep and calls `step` again
//! with the flag's value on waking. Each call hands back the cues and
//! progress reports to emit, in order. `simulate` drives a whole run
//! this way without real sleeps, given the point at which the
//! cancellation flag is first seen set.

use vstd::prelude::*;

use crate::events::{Event, Outcome};
use crate::model::TimerConfig;
use crate::script::{build_script, Script};
use crate::trace::{
    config_model, lemma_config_model_start, lemma_obs_steps_take_snoc, observed_events,
    observed_outcome, sm_obs, ScriptModel,
};

verus! {

/// What the caller must do after a `step` call.
#[derive(Clone, Copy, Debug, PartialEq, Eq)]
pub enum EngineNext {
    /// Perform one cancelable one-second sleep, then call `step` again
    /// with the cancellation flag's value on waking.
    Sleep,
    /// The run is over; the engine takes no further steps.
    Done(Outcome),
}

/// The result of one engine step: the events to emit now, in order,
/// and what to do next.
pub struct StepOutput {
    pub events: Vec<Event>,
    pub next: EngineNext,
}

/// A single run of one timer configuration. The engine is not reused:
/// once `step` reports `Done`, it is finished for good.
pub struct TimerEngine {
    script: Script,
    started: bool,
    finished: bool,
    pending: usize,
}

/// Appends a copy of `src` to `dst`.
fn extend_events(dst: &mut Vec<Event>, src: &Vec<Event>)
    ensures
        final(dst)@ == old(dst)@ + src@,
{
    let mut i: usize = 0;
    while i < src.len()
        invariant
            i <= src@.len(),
            dst@ == old(dst)@ + src@.take(i as int),
        decreases src@.len() - i,
    {
        dst.push(src[i]);
        proof {
            assert(old(dst)@ + src@.take(i + 1)
                =~= (old(dst)@ + src@.take(i as int)).push(src@[i as int]));
        }
        i = i + 1;
    }
    proof {
        assert(src@.take(src@.len() as int) =~= src@);
    }
}

impl TimerEngine {
    /// The script this run follows.
    pub closed spec fn model(self) -> ScriptModel {
        self.script@
    }

    pub closed spec fn spec_started(self) -> bool {
        self.started
    }

    pub closed spec fn spec_finished(self) -> bool {
        self.finished
    }

    /// Index of the sleep entry the engine is currently sleeping in.
    pub closed spec fn spec_pending(self) -> int {
        self.pending as int
    }

    pub closed spec fn wf(self) -> bool {
        self.started && !self.finished ==> self.pending < self.model().steps.len()
    }

    /// Sets up a run of the given configuration. No events are emitted
    /// until the first `step` call.
    pub fn new(config: &TimerConfig) -> (eng: TimerEngine)
        ensures
            eng.model() == config_model(config.blocks@),
            !eng.spec_started(),
            !eng.spec_finished(),
            eng.wf(),
    {
        TimerEngine { script: build_script(config), started: false, finished: false, pending: 0 }
    }

    /// What one `step` call emits and does, as a function of the state
    /// it was called in and the cancellation flag it observed.
    pub open spec fn step_post(
        pre: TimerEngine,
        cancelled: bool,
        post: TimerEngine,
        events: Seq<Event>,
        next: EngineNext,
    ) -> bool {
        let m = pre.model();
        &&& post.model() == m
        &&& if !pre.spec_started() {
            if cancelled {
                // Cancellation seen before the first sleep: only block
                // 0's initial report (if any block exists) is emitted.
                &&& events == observed_events(m, Some(0))
                &&& next == EngineNext::Done(Outcome::Stopped)
                &&& post.spec_finished()
            } else if m.steps.len() == 0 {
                // No sleep anywhere: the run ends at once, completed
                // when there was at least one block, stopped otherwise.
                &&& events == m.start
                &&& next == EngineNext::Done(observed_outcome(m, None))
                &&& post.spec_finished()
            } else {
                &&& events == m.start
                &&& next == EngineNext::Sleep
                &&& post.spec_started() && !post.spec_finished()
                &&& post.spec_pending() == 0
            }
        } else {
            let j = pre.spec_pending();
            if cancelled {
                // Cancellation seen on waking aborts the phase at once:
                // not even this second's tick cue and report go out.
                &&& events == Seq::<Event>::empty()
                &&& next == EngineNext::Done(Outcome::Stopped)
                &&& post.spec_finished()
                &&& post.spec_pending() == j
            } else if j + 1 == m.steps.len() {
                &&& events == m.steps[j].wake + m.steps[j].after
                &&& next == EngineNext::Done(Outcome::Completed)
                &&& post.spec_finished()
                &&& post.spec_pending() == j
            } else {
                &&& events == m.steps[j].wake + m.steps[j].after
                &&& next == EngineNext::Sleep
                &&& post.spec_started() && !post.spec_finished()
                &&& post.spec_pending() == j + 1
            }
        }
    }

    /// Advances the run to its next sleep or to its end. `cancelled`
    /// is the cancellation flag's value now: at the start of the run
    /// on the first call, on waking from the requested sleep on every
    /// later call.
    pub fn step(&mut self, cancelled: bool) -> (out: StepOutput)
        requires
            old(self).wf(),
            !old(self).spec_finished(),
        ensures
            final(self).wf(),
            Self::step_post(*old(self), cancelled, *final(self), out.events@, out.next),
    {
        let mut events: Vec<Event> = Vec::new();
        if !self.started {
            if cancelled {
                if self.script.start.len() > 0 {
                    events.push(self.script.start[0]);
                }
                self.finished = true;
                proof {
                    if self.script.start@.len() > 0 {
                        assert(events@ =~= seq![self.script.start@[0]]);
                    } else {
                        assert(events@ =~= Seq::<Event>::empty());
                    }
                }
                return StepOutput { events, next: EngineNext::Done(Outcome::Stopped) };
            }
            extend_events(&mut events, &self.script.start);
            proof {
                assert(events@ =~= self.script@.start);
            }
            if self.script.steps.len() == 0 {
                self.finished = true;
                let outcome = if self.script.start.len() > 0 {
                    Outcome::Completed
                } else {
                    Outcome::Stopped
                };
                return StepOutput { events, next: EngineNext::Done(outcome) };
            }
            self.started = true;
            self.pending = 0;
            return StepOutput { events, next: EngineNext::Sleep };
        }
        let j = self.pending;
        let n = self.script.steps.len();
        if cancelled {
            self.finished = true;
            return StepOutput { events, next: EngineNext::Done(Outcome::Stopped) };
        }
        extend_events(&mut events, &self.script.steps[j].wake);
        proof {
            assert(events@ =~= self.script@.steps[j as int].wake);
        }
        extend_events(&mut events, &self.script.steps[j].after);
        proof {
            assert(events@ =~= self.script@.steps[j as int].wake
                + self.script@.steps[j as int].after);
        }
        if j + 1 == n {
            self.finished = true;
            return StepOutput { events, next: EngineNext::Done(Outcome::Completed) };
        }
        self.pending = j + 1;
        StepOutput { events, next: EngineNext::Sleep }
    }
}

/// The cancellation point as the model sees it: the index of the first
/// `step` call that observes the flag set, if any.
pub open spec fn spec_cancel_at(cancel_at: Option<usize>) -> Option<int> {
    match cancel_at {
        Option::None => None,
        Option::Some(k) => Some(k as int),
    }
}

/// Runs a whole configuration without real sleeps. `cancel_at`
/// simulates a caller that requests cancellation so that the engine
/// first observes it at `step` call number `k` (counting from zero,
/// so `Some(0)` means before the run's first sleep, and `Some(k)` with
/// `k >= 1` means on waking from the `k`-th sleep).
pub fn simulate(config: &TimerConfig, cancel_at: Option<usize>) -> (r: (Outcome, Vec<Event>))
    ensures
        r.0 == observed_outcome(config_model(config.blocks@), spec_cancel_at(cancel_at)),
        r.1@ == observed_events(config_model(config.blocks@), spec_cancel_at(cancel_at)),
{
    let ghost ck = spec_cancel_at(cancel_at);
    let mut eng = TimerEngine::new(config);
    let ghost m = eng.model();
    proof {
        lemma_config_model_start(config.blocks@);
    }
    let c0 = match cancel_at {
        Some(k) => k == 0,
        None => false,
    };
    let StepOutput { events, next } = eng.step(c0);
    let mut acc = events;
    let mut next = next;
    proof {
        if !(next is Sleep) {
            if c0 {
                assert(acc@ == observed_events(m, ck));
                assert(EngineNext::Done(Outcome::Stopped)
                    == EngineNext::Done(observed_outcome(m, ck)));
            } else {
                assert(sm_obs(m) =~= m.start);
                assert(acc@ == observed_events(m, ck));
            }
        } else {
            assert(m.steps.take(0) =~= Seq::<crate::trace::StepModel>::empty());
            assert(acc@ =~= m.start + crate::trace::obs_steps(m.steps.take(0)));
        }
    }
    while matches!(next, EngineNext::Sleep)
        invariant
            eng.wf(),
            eng.model() == m,
            m == config_model(config.blocks@),
            ck == spec_cancel_at(cancel_at),
            matches!(next, EngineNext::Sleep) ==> {
                &&& eng.spec_started() && !eng.spec_finished()
                &&& acc@ == m.start + crate::trace::obs_steps(m.steps.take(eng.spec_pending()))
                &&& (ck matches Some(k) ==> k >= eng.spec_pending() + 1)
            },
            !matches!(next, EngineNext::Sleep) ==> {
                &&& acc@ == observed_events(m, ck)
                &&& next == EngineNext::Done(observed_outcome(m, ck))
            },
        decreases m.steps.len() - eng.spec_pending(), (if matches!(next, EngineNext::Sleep) { 1int } else { 0int }),
    {
        let ghost j = eng.spec_pending();
        // This is `step` call number `pending + 1`: the wake of sleep
        // number `pending + 1`. The caller's flag reads true here when
        // the cancellation point is at or before this call.
        let c = match cancel_at {
            Some(k) => k >= 1 && eng.pending >= k - 1,
            None => false,
        };
        let StepOutput { events: ev, next: n2 } = eng.step(c);
        let mut ev = ev;
        acc.append(&mut ev);
        proof {
            lemma_config_model_start(config.blocks@);
            if c {
                // Cancellation first observed on waking from sleep
                // `j + 1`: the run stops with nothing more emitted.
                assert(ck == Some(j + 1));
                assert(1 <= j + 1 <= m.steps.len());
                assert(acc@ =~= m.start + crate::trace::obs_steps(m.steps.take(j)));
                assert(acc@ == observed_events(m, ck));
                assert(observed_outcome(m, ck) == Outcome::Stopped);
            } else {
                lemma_obs_steps_take_snoc(m.steps, j);
                assert(acc@ =~= m.start + crate::trace::obs_steps(m.steps.take(j + 1)));
                if j + 1 == m.steps.len() {
                    assert(m.steps.take(j + 1) =~= m.steps);
                    assert(acc@ == sm_obs(m));
                    assert(acc@ == observed_events(m, ck));
                    // A sleeping engine means the script has at least
                    // one step, so the configuration was not empty.
                    assert(m.start.len() >= 1);
                    assert(observed_outcome(m, ck) == Outcome::Completed);
                }
            }
        }
        next = n2;
    }
    match next {
        EngineNext::Done(outcome) => (outcome, acc),
        EngineNext::Sleep => {
            proof {
                assert(false);
            }
            (Outcome::Stopped, acc)
        },
    }
}

} // verus!
