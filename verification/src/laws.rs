//! What holds of every run: counting laws over the run model, and the
//! exact shape of a cancelled run.

use vstd::prelude::*;

use crate::events::{CountdownPhase, CountdownRun, CueKind, Event, Outcome};
use crate::model::{
    block_initial, countdown_total, effective_repeats, interval_total, wait_total, CountdownBlock,
    TimerBlock, WaitBlock,
};
use crate::trace::{
    block_model, block_tail, cat_steps, config_model, countdown_model, countdown_upto, cue_event,
    iteration_model, lemma_cat_steps_add, lemma_config_model_start, lemma_flat_join,
    lemma_obs_join, lemma_obs_steps_add,
    lemma_run_upto_start, obs_steps, observed_events, observed_outcome, phase_model, phase_step,
    report_event, run_upto, sm_events, sm_flat, sm_join, sm_obs, step_flat, step_obs,
    wait_model, ScriptModel, StepModel,
};

verus! {

// ---------------------------------------------------------------------
// Counting events.
// ---------------------------------------------------------------------

/// How many events of a sequence satisfy a predicate.
pub open spec fn ev_count(t: Seq<Event>, p: spec_fn(Event) -> bool) -> int {
    t.filter(p).len() as int
}

/// Any progress report.
pub open spec fn report_pred() -> spec_fn(Event) -> bool {
    |e: Event| e is Report
}

/// A progress report for block `b`.
pub open spec fn block_report_pred(b: usize) -> spec_fn(Event) -> bool {
    |e: Event| e matches Event::Report(r) && r.block_ix == b
}

/// A cue of the given kind.
pub open spec fn cue_pred(k: CueKind) -> spec_fn(Event) -> bool {
    |e: Event| e matches Event::Cue(c) && c == k
}

pub proof fn lemma_ev_count_add(a: Seq<Event>, b: Seq<Event>, p: spec_fn(Event) -> bool)
    ensures
        ev_count(a + b, p) == ev_count(a, p) + ev_count(b, p),
{
    Seq::<Event>::filter_distributes_over_add(a, b, p);
}

pub proof fn lemma_ev_count_empty(p: spec_fn(Event) -> bool)
    ensures
        ev_count(Seq::empty(), p) == 0,
{
    reveal_with_fuel(Seq::<Event>::filter, 1);
}

pub proof fn lemma_ev_count_single(e: Event, p: spec_fn(Event) -> bool)
    ensures
        ev_count(seq![e], p) == if p(e) {
            1int
        } else {
            0int
        },
{
    reveal_with_fuel(Seq::<Event>::filter, 2);
    assert(seq![e].drop_last() =~= Seq::<Event>::empty());
}

/// A non-negative count, and one that sees its last element.
pub proof fn lemma_ev_count_basics(t: Seq<Event>, p: spec_fn(Event) -> bool)
    ensures
        ev_count(t, p) >= 0,
        t.len() > 0 && p(t.last()) ==> ev_count(t, p) >= 1,
{
    reveal_with_fuel(Seq::<Event>::filter, 1);
}

// ---------------------------------------------------------------------
// Decomposition helpers.
// ---------------------------------------------------------------------

pub proof fn lemma_cat_steps_first(ss: Seq<StepModel>)
    requires
        ss.len() > 0,
    ensures
        cat_steps(ss) == step_flat(ss[0]) + cat_steps(ss.skip(1)),
{
    reveal_with_fuel(cat_steps, 2);
    assert(ss =~= seq![ss[0]] + ss.skip(1));
    lemma_cat_steps_add(seq![ss[0]], ss.skip(1));
    assert(seq![ss[0]].drop_last() =~= Seq::<StepModel>::empty());
    assert(cat_steps(seq![ss[0]]) =~= Seq::<Event>::empty() + step_flat(ss[0]));
    assert(Seq::<Event>::empty() + step_flat(ss[0]) =~= step_flat(ss[0]));
}

pub proof fn lemma_obs_steps_first(ss: Seq<StepModel>)
    requires
        ss.len() > 0,
    ensures
        obs_steps(ss) == step_obs(ss[0]) + obs_steps(ss.skip(1)),
{
    reveal_with_fuel(obs_steps, 2);
    assert(ss =~= seq![ss[0]] + ss.skip(1));
    lemma_obs_steps_add(seq![ss[0]], ss.skip(1));
    assert(seq![ss[0]].drop_last() =~= Seq::<StepModel>::empty());
    assert(obs_steps(seq![ss[0]]) =~= Seq::<Event>::empty() + step_obs(ss[0]));
    assert(Seq::<Event>::empty() + step_obs(ss[0]) =~= step_obs(ss[0]));
}

/// Sleeps aside, the flattened script and the observed events hold the
/// same events, so they count alike.
pub proof fn lemma_count_obs_steps(ss: Seq<StepModel>, p: spec_fn(Event) -> bool)
    requires
        !p(Event::Sleep),
    ensures
        ev_count(obs_steps(ss), p) == ev_count(cat_steps(ss), p),
    decreases ss.len(),
{
    if ss.len() == 0 {
        lemma_ev_count_empty(p);
    } else {
        lemma_count_obs_steps(ss.drop_last(), p);
        let last = ss.last();
        lemma_ev_count_add(obs_steps(ss.drop_last()), step_obs(last), p);
        lemma_ev_count_add(cat_steps(ss.drop_last()), step_flat(last), p);
        lemma_ev_count_single(Event::Sleep, p);
        lemma_ev_count_add(seq![Event::Sleep], last.wake + last.after, p);
        assert(step_flat(last) =~= seq![Event::Sleep] + (last.wake + last.after));
        assert(ev_count(step_flat(last), p) == ev_count(step_obs(last), p));
    }
}

pub proof fn lemma_count_obs(s: ScriptModel, p: spec_fn(Event) -> bool)
    requires
        !p(Event::Sleep),
    ensures
        ev_count(sm_obs(s), p) == ev_count(sm_flat(s), p),
{
    lemma_count_obs_steps(s.steps, p);
    lemma_ev_count_add(s.start, obs_steps(s.steps), p);
    lemma_ev_count_add(s.start, cat_steps(s.steps), p);
}

// ---------------------------------------------------------------------
// Counts of one phase.
// ---------------------------------------------------------------------

/// The tick cues of a phase of `total` seconds: one for each of its
/// last five seconds, except none at zero.
pub open spec fn phase_ticks(total: int) -> int {
    if total <= 0 {
        0
    } else if total - 1 <= 5 {
        total - 1
    } else {
        5
    }
}

pub proof fn lemma_phase_flat_counts(
    bix: usize,
    total: int,
    run: Option<CountdownRun>,
    phase: Option<CountdownPhase>,
)
    requires
        total >= 0,
    ensures
        ev_count(sm_flat(phase_model(bix, total, run, phase)), block_report_pred(bix)) == total,
        forall|b2: usize|
            b2 != bix ==> ev_count(
                sm_flat(phase_model(bix, total, run, phase)),
                block_report_pred(b2),
            ) == 0,
        ev_count(sm_flat(phase_model(bix, total, run, phase)), cue_pred(CueKind::Tick))
            == phase_ticks(total),
        ev_count(sm_flat(phase_model(bix, total, run, phase)), cue_pred(CueKind::BlockEnd)) == 0,
        ev_count(sm_flat(phase_model(bix, total, run, phase)), cue_pred(CueKind::AllEnd)) == 0,
        ev_count(sm_flat(phase_model(bix, total, run, phase)), cue_pred(CueKind::Transition)) == 0,
    decreases total,
{
    let m = phase_model(bix, total, run, phase);
    if total == 0 {
        assert(sm_flat(m) =~= Seq::<Event>::empty());
        assert forall|p: spec_fn(Event) -> bool| ev_count(sm_flat(m), p) == 0 by {
            lemma_ev_count_empty(p);
        }
    } else {
        lemma_phase_flat_counts(bix, total - 1, run, phase);
        let ss = m.steps;
        let rest = phase_model(bix, total - 1, run, phase);
        lemma_cat_steps_first(ss);
        assert(ss[0] == phase_step(bix, total, 1, run, phase));
        assert(ss.skip(1) =~= rest.steps) by {
            assert forall|q: int| 0 <= q < total - 1 implies ss.skip(1)[q] == rest.steps[q] by {
                assert(ss.skip(1)[q] == phase_step(bix, total, q + 2, run, phase));
                assert(rest.steps[q] == phase_step(bix, total - 1, q + 1, run, phase));
                assert(total - (q + 2) == (total - 1) - (q + 1));
            }
        }
        let head = step_flat(ss[0]);
        assert(sm_flat(m) =~= head + sm_flat(rest));
        let remaining = total - 1;
        let rep = report_event(bix, remaining, run, phase);
        assert forall|p: spec_fn(Event) -> bool|
            ev_count(sm_flat(m), p) == ev_count(head, p) + ev_count(sm_flat(rest), p) by {
            lemma_ev_count_add(head, sm_flat(rest), p);
        }
        assert forall|p: spec_fn(Event) -> bool|
            ev_count(head, p) == (if p(Event::Sleep) {
                1int
            } else {
                0int
            }) + (if 1 <= remaining <= 5 && p(cue_event(CueKind::Tick)) {
                1int
            } else {
                0int
            }) + (if p(rep) {
                1int
            } else {
                0int
            }) by {
            if 1 <= remaining <= 5 {
                assert(head =~= seq![Event::Sleep] + (seq![cue_event(CueKind::Tick)]
                    + seq![rep]));
                lemma_ev_count_add(seq![Event::Sleep], seq![cue_event(CueKind::Tick)] + seq![rep], p);
                lemma_ev_count_add(seq![cue_event(CueKind::Tick)], seq![rep], p);
                lemma_ev_count_single(Event::Sleep, p);
                lemma_ev_count_single(cue_event(CueKind::Tick), p);
                lemma_ev_count_single(rep, p);
            } else {
                assert(head =~= seq![Event::Sleep] + (Seq::<Event>::empty() + seq![rep]));
                lemma_ev_count_add(seq![Event::Sleep], Seq::<Event>::empty() + seq![rep], p);
                lemma_ev_count_add(Seq::empty(), seq![rep], p);
                lemma_ev_count_single(Event::Sleep, p);
                lemma_ev_count_empty(p);
                lemma_ev_count_single(rep, p);
            }
        }
    }
}

// ---------------------------------------------------------------------
// Counts of one countdown run, a whole countdown block, and any block.
// ---------------------------------------------------------------------

pub proof fn lemma_flat_events(evts: Seq<Event>)
    ensures
        sm_flat(sm_events(evts)) == evts,
{
    assert(sm_flat(sm_events(evts)) =~= evts);
}

pub proof fn lemma_iteration_flat_counts(bix: usize, c: CountdownBlock, r: u32)
    requires
        1 <= r <= effective_repeats(c),
    ensures
        ev_count(sm_flat(iteration_model(bix, c, r)), block_report_pred(bix)) == countdown_total(c)
            + 1 + (if r < effective_repeats(c) {
            interval_total(c) + 1
        } else {
            0int
        }),
        forall|b2: usize|
            b2 != bix ==> ev_count(sm_flat(iteration_model(bix, c, r)), block_report_pred(b2))
                == 0,
        ev_count(sm_flat(iteration_model(bix, c, r)), cue_pred(CueKind::Transition)) == if r
            < effective_repeats(c) {
            2int
        } else {
            0int
        },
        ev_count(sm_flat(iteration_model(bix, c, r)), cue_pred(CueKind::BlockEnd)) == 0,
        ev_count(sm_flat(iteration_model(bix, c, r)), cue_pred(CueKind::AllEnd)) == 0,
        ev_count(sm_flat(iteration_model(bix, c, r)), cue_pred(CueKind::Tick)) == phase_ticks(
            countdown_total(c),
        ) + (if r < effective_repeats(c) {
            phase_ticks(interval_total(c))
        } else {
            0int
        }),
{
    let reps = effective_repeats(c);
    let run = Some(CountdownRun { current: r, total: reps });
    let snap = seq![report_event(bix, countdown_total(c), run, Some(CountdownPhase::Countdown))];
    let pcd = phase_model(bix, countdown_total(c), run, Some(CountdownPhase::Countdown));
    let cd = sm_join(sm_events(snap), pcd);
    lemma_flat_join(sm_events(snap), pcd);
    lemma_flat_events(snap);
    lemma_phase_flat_counts(bix, countdown_total(c), run, Some(CountdownPhase::Countdown));
    if r < reps {
        let tr = cue_event(CueKind::Transition);
        let ivrep = report_event(bix, interval_total(c), run, Some(CountdownPhase::Interval));
        let mid = seq![tr, ivrep];
        let piv = phase_model(bix, interval_total(c), run, Some(CountdownPhase::Interval));
        let trail = seq![tr];
        let s1 = sm_join(cd, sm_events(mid));
        let s2 = sm_join(s1, piv);
        let s3 = sm_join(s2, sm_events(trail));
        assert(iteration_model(bix, c, r) == s3);
        lemma_flat_join(cd, sm_events(mid));
        lemma_flat_events(mid);
        lemma_flat_join(s1, piv);
        lemma_flat_join(s2, sm_events(trail));
        lemma_flat_events(trail);
        lemma_phase_flat_counts(bix, interval_total(c), run, Some(CountdownPhase::Interval));
        assert(mid =~= seq![tr] + seq![ivrep]);
        assert forall|p: spec_fn(Event) -> bool|
            ev_count(sm_flat(s3), p) == ev_count(snap, p) + ev_count(sm_flat(pcd), p) + ev_count(
                seq![tr],
                p,
            ) + ev_count(seq![ivrep], p) + ev_count(sm_flat(piv), p) + ev_count(trail, p) by {
            lemma_ev_count_add(sm_flat(s2), trail, p);
            lemma_ev_count_add(sm_flat(s1), sm_flat(piv), p);
            lemma_ev_count_add(sm_flat(cd), mid, p);
            lemma_ev_count_add(snap, sm_flat(pcd), p);
            lemma_ev_count_add(seq![tr], seq![ivrep], p);
        }
        lemma_ev_count_single(snap[0], block_report_pred(bix));
        lemma_ev_count_single(tr, block_report_pred(bix));
        lemma_ev_count_single(ivrep, block_report_pred(bix));
        assert forall|b2: usize| b2 != bix implies ev_count(
            sm_flat(iteration_model(bix, c, r)),
            block_report_pred(b2),
        ) == 0 by {
            lemma_ev_count_single(snap[0], block_report_pred(b2));
            lemma_ev_count_single(tr, block_report_pred(b2));
            lemma_ev_count_single(ivrep, block_report_pred(b2));
            lemma_ev_count_single(trail[0], block_report_pred(b2));
        }
        lemma_ev_count_single(snap[0], cue_pred(CueKind::Transition));
        lemma_ev_count_single(tr, cue_pred(CueKind::Transition));
        lemma_ev_count_single(ivrep, cue_pred(CueKind::Transition));
        lemma_ev_count_single(snap[0], cue_pred(CueKind::BlockEnd));
        lemma_ev_count_single(tr, cue_pred(CueKind::BlockEnd));
        lemma_ev_count_single(ivrep, cue_pred(CueKind::BlockEnd));
        lemma_ev_count_single(snap[0], cue_pred(CueKind::AllEnd));
        lemma_ev_count_single(tr, cue_pred(CueKind::AllEnd));
        lemma_ev_count_single(ivrep, cue_pred(CueKind::AllEnd));
        lemma_ev_count_single(snap[0], cue_pred(CueKind::Tick));
        lemma_ev_count_single(tr, cue_pred(CueKind::Tick));
        lemma_ev_count_single(ivrep, cue_pred(CueKind::Tick));
    } else {
        assert(iteration_model(bix, c, r) == cd);
        assert forall|p: spec_fn(Event) -> bool|
            ev_count(sm_flat(cd), p) == ev_count(snap, p) + ev_count(sm_flat(pcd), p) by {
            lemma_ev_count_add(snap, sm_flat(pcd), p);
        }
        lemma_ev_count_single(snap[0], block_report_pred(bix));
        assert forall|b2: usize| b2 != bix implies ev_count(
            sm_flat(iteration_model(bix, c, r)),
            block_report_pred(b2),
        ) == 0 by {
            lemma_ev_count_single(snap[0], block_report_pred(b2));
        }
        lemma_ev_count_single(snap[0], cue_pred(CueKind::Transition));
        lemma_ev_count_single(snap[0], cue_pred(CueKind::BlockEnd));
        lemma_ev_count_single(snap[0], cue_pred(CueKind::AllEnd));
        lemma_ev_count_single(snap[0], cue_pred(CueKind::Tick));
    }
}

/// The progress reports the first `n` runs of a countdown block emit
/// for themselves: a snapshot plus one per second for each phase run.
pub open spec fn countdown_inner_reports(c: CountdownBlock, n: int) -> int {
    let nf = if n == effective_repeats(c) as int {
        n - 1
    } else {
        n
    };
    n * (countdown_total(c) + 1) + nf * (interval_total(c) + 1)
}

pub open spec fn countdown_inner_ticks(c: CountdownBlock, n: int) -> int {
    let nf = if n == effective_repeats(c) as int {
        n - 1
    } else {
        n
    };
    n * phase_ticks(countdown_total(c)) + nf * phase_ticks(interval_total(c))
}

pub proof fn lemma_countdown_upto_counts(bix: usize, c: CountdownBlock, n: int)
    requires
        0 <= n <= effective_repeats(c),
    ensures
        ev_count(sm_flat(countdown_upto(bix, c, n)), block_report_pred(bix))
            == countdown_inner_reports(c, n),
        forall|b2: usize|
            b2 != bix ==> ev_count(sm_flat(countdown_upto(bix, c, n)), block_report_pred(b2))
                == 0,
        ev_count(sm_flat(countdown_upto(bix, c, n)), cue_pred(CueKind::Transition)) == if n
            == effective_repeats(c) as int {
            2 * (n - 1)
        } else {
            2 * n
        },
        ev_count(sm_flat(countdown_upto(bix, c, n)), cue_pred(CueKind::BlockEnd)) == 0,
        ev_count(sm_flat(countdown_upto(bix, c, n)), cue_pred(CueKind::AllEnd)) == 0,
        ev_count(sm_flat(countdown_upto(bix, c, n)), cue_pred(CueKind::Tick))
            == countdown_inner_ticks(c, n),
    decreases n,
{
    let reps = effective_repeats(c) as int;
    if n == 0 {
        assert(sm_flat(countdown_upto(bix, c, 0)) =~= Seq::<Event>::empty());
        assert forall|p: spec_fn(Event) -> bool|
            ev_count(sm_flat(countdown_upto(bix, c, 0)), p) == 0 by {
            lemma_ev_count_empty(p);
        }
    } else {
        lemma_countdown_upto_counts(bix, c, n - 1);
        let prev = countdown_upto(bix, c, n - 1);
        let it = iteration_model(bix, c, n as u32);
        lemma_flat_join(prev, it);
        lemma_iteration_flat_counts(bix, c, n as u32);
        assert forall|p: spec_fn(Event) -> bool|
            ev_count(sm_flat(countdown_upto(bix, c, n)), p) == ev_count(sm_flat(prev), p)
                + ev_count(sm_flat(it), p) by {
            lemma_ev_count_add(sm_flat(prev), sm_flat(it), p);
        }
        assert((n as u32) < effective_repeats(c) <==> n < reps);
        let cdr = countdown_total(c) + 1;
        let ivr = interval_total(c) + 1;
        assert(n * cdr == (n - 1) * cdr + cdr) by (nonlinear_arith);
        assert(n * ivr == (n - 1) * ivr + ivr) by (nonlinear_arith);
        let tcd = phase_ticks(countdown_total(c));
        let tiv = phase_ticks(interval_total(c));
        assert(n * tcd == (n - 1) * tcd + tcd) by (nonlinear_arith);
        assert(n * tiv == (n - 1) * tiv + tiv) by (nonlinear_arith);
    }
}

/// The progress reports a block's own script emits (its initial report
/// at run level not included).
pub open spec fn block_inner_reports(b: TimerBlock) -> int {
    match b {
        TimerBlock::Wait(w) => wait_total(w),
        TimerBlock::Countdown(c) => countdown_inner_reports(c, effective_repeats(c) as int),
    }
}

/// The transition cues a block emits: none for a wait block, two per
/// non-final run for a countdown block.
pub open spec fn block_transitions(b: TimerBlock) -> int {
    match b {
        TimerBlock::Wait(w) => 0,
        TimerBlock::Countdown(c) => 2 * (effective_repeats(c) - 1),
    }
}

pub proof fn lemma_block_flat_counts(bix: usize, b: TimerBlock)
    ensures
        ev_count(sm_flat(block_model(bix, b)), block_report_pred(bix)) == block_inner_reports(b),
        forall|b2: usize|
            b2 != bix ==> ev_count(sm_flat(block_model(bix, b)), block_report_pred(b2)) == 0,
        ev_count(sm_flat(block_model(bix, b)), cue_pred(CueKind::Transition))
            == block_transitions(b),
        ev_count(sm_flat(block_model(bix, b)), cue_pred(CueKind::BlockEnd)) == 0,
        ev_count(sm_flat(block_model(bix, b)), cue_pred(CueKind::AllEnd)) == 0,
{
    match b {
        TimerBlock::Wait(w) => {
            lemma_phase_flat_counts(bix, wait_total(w), None, None);
        },
        TimerBlock::Countdown(c) => {
            lemma_countdown_upto_counts(bix, c, effective_repeats(c) as int);
        },
    }
}


// ---------------------------------------------------------------------
// Counts over a whole run.
// ---------------------------------------------------------------------

/// The progress reports a run's first `n` blocks produce for block `i`:
/// the block's own reports, plus its initial report, which block 0 gets
/// at the start of the run and every later block gets when its
/// predecessor completes.
pub open spec fn run_report_count(blocks: Seq<TimerBlock>, n: int, i: usize) -> int {
    (if i == 0 {
        1int
    } else {
        0int
    }) + (if (i as int) < n {
        block_inner_reports(blocks[i as int])
    } else {
        0int
    }) + (if 1 <= i as int <= n {
        1int
    } else {
        0int
    })
}

pub proof fn lemma_run_upto_counts(blocks: Seq<TimerBlock>, n: int, i: usize)
    requires
        1 <= blocks.len() <= usize::MAX,
        0 <= n <= blocks.len(),
        i < blocks.len(),
    ensures
        ev_count(sm_flat(run_upto(blocks, n)), cue_pred(CueKind::AllEnd)) == if n == blocks.len() {
            1int
        } else {
            0int
        },
        ev_count(sm_flat(run_upto(blocks, n)), cue_pred(CueKind::BlockEnd)) == if n
            < blocks.len() {
            n
        } else {
            n - 1
        },
        ev_count(sm_flat(run_upto(blocks, n)), block_report_pred(i)) == run_report_count(
            blocks,
            n,
            i,
        ),
    decreases n,
{
    if n == 0 {
        let rep0 = report_event(0, block_initial(blocks[0]), None, None);
        assert(sm_flat(run_upto(blocks, 0)) =~= seq![rep0]);
        lemma_ev_count_single(rep0, cue_pred(CueKind::AllEnd));
        lemma_ev_count_single(rep0, cue_pred(CueKind::BlockEnd));
        lemma_ev_count_single(rep0, block_report_pred(i));
    } else {
        lemma_run_upto_counts(blocks, n - 1, i);
        let prev = run_upto(blocks, n - 1);
        let bm = block_model((n - 1) as usize, blocks[n - 1]);
        let tail = block_tail(blocks, n - 1);
        let inner = sm_join(bm, sm_events(tail));
        lemma_flat_join(prev, inner);
        lemma_flat_join(bm, sm_events(tail));
        lemma_flat_events(tail);
        lemma_block_flat_counts((n - 1) as usize, blocks[n - 1]);
        assert forall|p: spec_fn(Event) -> bool|
            ev_count(sm_flat(run_upto(blocks, n)), p) == ev_count(sm_flat(prev), p) + ev_count(
                sm_flat(bm),
                p,
            ) + ev_count(tail, p) by {
            lemma_ev_count_add(sm_flat(prev), sm_flat(inner), p);
            lemma_ev_count_add(sm_flat(bm), tail, p);
        }
        if n == blocks.len() {
            let ae = cue_event(CueKind::AllEnd);
            assert(tail =~= seq![ae]);
            lemma_ev_count_single(ae, cue_pred(CueKind::AllEnd));
            lemma_ev_count_single(ae, cue_pred(CueKind::BlockEnd));
            lemma_ev_count_single(ae, block_report_pred(i));
            assert((n - 1) as usize != i || i as int == n - 1);
        } else {
            let be = cue_event(CueKind::BlockEnd);
            let nrep = report_event(n as usize, block_initial(blocks[n]), None, None);
            assert(tail =~= seq![be] + seq![nrep]);
            assert forall|p: spec_fn(Event) -> bool|
                ev_count(tail, p) == ev_count(seq![be], p) + ev_count(seq![nrep], p) by {
                lemma_ev_count_add(seq![be], seq![nrep], p);
            }
            lemma_ev_count_single(be, cue_pred(CueKind::AllEnd));
            lemma_ev_count_single(nrep, cue_pred(CueKind::AllEnd));
            lemma_ev_count_single(be, cue_pred(CueKind::BlockEnd));
            lemma_ev_count_single(nrep, cue_pred(CueKind::BlockEnd));
            lemma_ev_count_single(be, block_report_pred(i));
            lemma_ev_count_single(nrep, block_report_pred(i));
            assert(((n as usize) == i) <==> (i as int == n));
        }
    }
}


// ---------------------------------------------------------------------
// The shape of a wake: at most one tick cue, then the report.
// ---------------------------------------------------------------------

/// What an uncancelled wake emits before the run's next decision:
/// possibly tick cues, then exactly one progress report, and nothing
/// else — in particular no transition, block-end, or all-end cue.
pub open spec fn wake_shaped(wake: Seq<Event>) -> bool {
    &&& wake.len() >= 1
    &&& wake.last() is Report
    &&& forall|q: int| 0 <= q < wake.len() - 1 ==> wake[q] == cue_event(CueKind::Tick)
}

pub open spec fn wakes_shaped(s: ScriptModel) -> bool {
    forall|j: int| 0 <= j < s.steps.len() ==> wake_shaped(#[trigger] s.steps[j].wake)
}

pub proof fn lemma_join_wakes_shaped(a: ScriptModel, b: ScriptModel)
    requires
        wakes_shaped(a),
        wakes_shaped(b),
    ensures
        wakes_shaped(sm_join(a, b)),
{
    let s = sm_join(a, b);
    if a.steps.len() > 0 {
        assert forall|j: int| 0 <= j < s.steps.len() implies wake_shaped(s.steps[j].wake) by {
            if j < a.steps.len() {
                assert(s.steps[j].wake == a.steps[j].wake);
            } else {
                assert(s.steps[j] == b.steps[j - a.steps.len()]);
            }
        }
    }
}

pub proof fn lemma_phase_wakes_shaped(
    bix: usize,
    total: int,
    run: Option<CountdownRun>,
    phase: Option<CountdownPhase>,
)
    ensures
        wakes_shaped(phase_model(bix, total, run, phase)),
{
    let m = phase_model(bix, total, run, phase);
    assert forall|j: int| 0 <= j < m.steps.len() implies wake_shaped(m.steps[j].wake) by {
        let st = phase_step(bix, total, j + 1, run, phase);
        let rep = report_event(bix, total - (j + 1), run, phase);
        if 1 <= total - (j + 1) <= 5 {
            assert(st.wake =~= seq![cue_event(CueKind::Tick), rep]);
        } else {
            assert(st.wake =~= seq![rep]);
        }
    }
}

pub proof fn lemma_iteration_wakes_shaped(bix: usize, c: CountdownBlock, r: u32)
    ensures
        wakes_shaped(iteration_model(bix, c, r)),
{
    let reps = effective_repeats(c);
    let run = Some(CountdownRun { current: r, total: reps });
    lemma_phase_wakes_shaped(bix, countdown_total(c), run, Some(CountdownPhase::Countdown));
    lemma_phase_wakes_shaped(bix, interval_total(c), run, Some(CountdownPhase::Interval));
    let snap = seq![report_event(bix, countdown_total(c), run, Some(CountdownPhase::Countdown))];
    let pcd = phase_model(bix, countdown_total(c), run, Some(CountdownPhase::Countdown));
    let cd = sm_join(sm_events(snap), pcd);
    lemma_join_wakes_shaped(sm_events(snap), pcd);
    if r < reps {
        let tr = cue_event(CueKind::Transition);
        let ivrep = report_event(bix, interval_total(c), run, Some(CountdownPhase::Interval));
        let piv = phase_model(bix, interval_total(c), run, Some(CountdownPhase::Interval));
        let s1 = sm_join(cd, sm_events(seq![tr, ivrep]));
        let s2 = sm_join(s1, piv);
        lemma_join_wakes_shaped(cd, sm_events(seq![tr, ivrep]));
        lemma_join_wakes_shaped(s1, piv);
        lemma_join_wakes_shaped(s2, sm_events(seq![tr]));
    }
}

pub proof fn lemma_countdown_wakes_shaped(bix: usize, c: CountdownBlock, n: int)
    ensures
        wakes_shaped(countdown_upto(bix, c, n)),
    decreases n,
{
    if n <= 0 {
    } else {
        lemma_countdown_wakes_shaped(bix, c, n - 1);
        lemma_iteration_wakes_shaped(bix, c, n as u32);
        lemma_join_wakes_shaped(countdown_upto(bix, c, n - 1), iteration_model(bix, c, n as u32));
    }
}

pub proof fn lemma_block_wakes_shaped(bix: usize, b: TimerBlock)
    ensures
        wakes_shaped(block_model(bix, b)),
{
    match b {
        TimerBlock::Wait(w) => {
            lemma_phase_wakes_shaped(bix, wait_total(w), None, None);
        },
        TimerBlock::Countdown(c) => {
            lemma_countdown_wakes_shaped(bix, c, effective_repeats(c) as int);
        },
    }
}

pub proof fn lemma_run_wakes_shaped(blocks: Seq<TimerBlock>, n: int)
    ensures
        wakes_shaped(run_upto(blocks, n)),
    decreases n,
{
    if n <= 0 {
    } else {
        lemma_run_wakes_shaped(blocks, n - 1);
        lemma_block_wakes_shaped((n - 1) as usize, blocks[n - 1]);
        let bm = block_model((n - 1) as usize, blocks[n - 1]);
        let inner = sm_join(bm, sm_events(block_tail(blocks, n - 1)));
        lemma_join_wakes_shaped(bm, sm_events(block_tail(blocks, n - 1)));
        lemma_join_wakes_shaped(run_upto(blocks, n - 1), inner);
    }
}

pub proof fn lemma_config_wakes_shaped(blocks: Seq<TimerBlock>)
    ensures
        wakes_shaped(config_model(blocks)),
{
    if blocks.len() > 0 {
        lemma_run_wakes_shaped(blocks, blocks.len() as int);
    }
}

// ---------------------------------------------------------------------
// Cancellation truncates the run.
// ---------------------------------------------------------------------

/// What a run cancelled at sleep `k` does not get to emit: everything
/// from the interrupted second on, its tick cue and report included.
pub open spec fn cancel_remainder(s: ScriptModel, k: int) -> Seq<Event> {
    obs_steps(s.steps.skip(k - 1))
}

pub proof fn lemma_cancel_split(s: ScriptModel, k: int)
    requires
        1 <= k <= s.steps.len(),
    ensures
        observed_events(s, None) == observed_events(s, Some(k)) + cancel_remainder(s, k),
{
    assert(s.steps =~= s.steps.take(k - 1) + s.steps.skip(k - 1));
    lemma_obs_steps_add(s.steps.take(k - 1), s.steps.skip(k - 1));
    assert(sm_obs(s) =~= (s.start + obs_steps(s.steps.take(k - 1))) + cancel_remainder(s, k));
}

// ---------------------------------------------------------------------
// The laws of a run.
// ---------------------------------------------------------------------

/// An uncancelled run reports exactly `total + 1` times for a wait
/// block of duration `total`: once when the block becomes current, at
/// the full duration, and once per second down to zero.
pub proof fn law_wait_block_report_count(blocks: Seq<TimerBlock>, i: usize, w: WaitBlock)
    requires
        1 <= blocks.len() <= usize::MAX,
        i < blocks.len(),
        blocks[i as int] == TimerBlock::Wait(w),
    ensures
        ev_count(observed_events(config_model(blocks), None), block_report_pred(i)) == wait_total(
            w,
        ) + 1,
{
    lemma_run_upto_counts(blocks, blocks.len() as int, i);
    lemma_count_obs(config_model(blocks), block_report_pred(i));
}

/// A wait block of duration `total` plays the tick cue once per second
/// over its last five seconds — `min(5, total - 1)` times in all, and
/// never for a zero-duration block.
pub proof fn law_wait_block_tick_count(bix: usize, w: WaitBlock)
    ensures
        ev_count(sm_flat(wait_model(bix, w)), cue_pred(CueKind::Tick)) == phase_ticks(
            wait_total(w),
        ),
        wait_total(w) == 0 ==> phase_ticks(wait_total(w)) == 0,
        wait_total(w) >= 1 && wait_total(w) - 1 <= 5 ==> phase_ticks(wait_total(w)) == wait_total(
            w,
        ) - 1,
        wait_total(w) - 1 > 5 ==> phase_ticks(wait_total(w)) == 5,
{
    lemma_phase_flat_counts(bix, wait_total(w), None, None);
}

/// An uncancelled run reports `repeats * (countdown + 1)
/// + (repeats - 1) * (interval + 1) + 1` times for a countdown block:
/// its initial report, then a snapshot and one report per second for
/// each countdown run and each of the `repeats - 1` intervals.
pub proof fn law_countdown_block_report_count(blocks: Seq<TimerBlock>, i: usize, c: CountdownBlock)
    requires
        1 <= blocks.len() <= usize::MAX,
        i < blocks.len(),
        blocks[i as int] == TimerBlock::Countdown(c),
    ensures
        ev_count(observed_events(config_model(blocks), None), block_report_pred(i))
            == countdown_inner_reports(c, effective_repeats(c) as int) + 1,
{
    lemma_run_upto_counts(blocks, blocks.len() as int, i);
    lemma_count_obs(config_model(blocks), block_report_pred(i));
}

/// A countdown block plays the transition cue exactly
/// `2 * (max(1, repeat_count) - 1)` times — once after each non-final
/// countdown and once after each non-final interval — and its final
/// run plays none.
pub proof fn law_countdown_transition_count(bix: usize, c: CountdownBlock)
    ensures
        ev_count(sm_flat(countdown_model(bix, c)), cue_pred(CueKind::Transition)) == 2 * (
        effective_repeats(c) - 1),
        ev_count(
            sm_flat(iteration_model(bix, c, effective_repeats(c))),
            cue_pred(CueKind::Transition),
        ) == 0,
{
    lemma_countdown_upto_counts(bix, c, effective_repeats(c) as int);
    lemma_iteration_flat_counts(bix, c, effective_repeats(c));
}

/// An uncancelled run of a non-empty configuration plays the all-end
/// cue exactly once, as its very last event.
pub proof fn law_all_end_exactly_once(blocks: Seq<TimerBlock>)
    requires
        1 <= blocks.len() <= usize::MAX,
    ensures
        ev_count(observed_events(config_model(blocks), None), cue_pred(CueKind::AllEnd)) == 1,
        observed_events(config_model(blocks), None).len() >= 1,
        observed_events(config_model(blocks), None).last() == cue_event(CueKind::AllEnd),
{
    let n = blocks.len() as int;
    lemma_run_upto_counts(blocks, n, 0);
    lemma_count_obs(config_model(blocks), cue_pred(CueKind::AllEnd));
    let prev = run_upto(blocks, n - 1);
    let bm = block_model((n - 1) as usize, blocks[n - 1]);
    let tail = block_tail(blocks, n - 1);
    lemma_obs_join(prev, sm_join(bm, sm_events(tail)));
    lemma_obs_join(bm, sm_events(tail));
    assert(sm_obs(sm_events(tail)) =~= tail);
    assert(tail =~= seq![cue_event(CueKind::AllEnd)]);
    assert(observed_events(config_model(blocks), None) == sm_obs(prev) + (sm_obs(bm) + tail));
    assert((sm_obs(bm) + tail).last() == cue_event(CueKind::AllEnd));
}

/// An uncancelled run of a non-empty configuration plays the block-end
/// cue exactly once per non-final block, and never for the final one.
pub proof fn law_block_end_count(blocks: Seq<TimerBlock>)
    requires
        1 <= blocks.len() <= usize::MAX,
    ensures
        ev_count(observed_events(config_model(blocks), None), cue_pred(CueKind::BlockEnd))
            == blocks.len() - 1,
{
    lemma_run_upto_counts(blocks, blocks.len() as int, 0);
    lemma_count_obs(config_model(blocks), cue_pred(CueKind::BlockEnd));
}

/// Cancellation observed during sleep `k` ends the run within that
/// second and before any further event: the outcome is Stopped, what
/// was observed is a prefix of the uncancelled run cut at that sleep,
/// and the interrupted second's own events — at most one tick cue and
/// its report, never a transition, block-end, or all-end cue — are
/// withheld along with everything after them.
pub proof fn law_cancellation_truncates(blocks: Seq<TimerBlock>, k: int)
    requires
        1 <= k <= config_model(blocks).steps.len(),
    ensures
        ({
            let m = config_model(blocks);
            &&& observed_outcome(m, Some(k)) == Outcome::Stopped
            &&& observed_events(m, Some(k)) == m.start + obs_steps(m.steps.take(k - 1))
            &&& observed_events(m, None) == observed_events(m, Some(k)) + cancel_remainder(m, k)
            &&& observed_events(m, Some(k)).is_prefix_of(observed_events(m, None))
            &&& observed_events(m, Some(k)).len() >= 1
            &&& wake_shaped(m.steps[k - 1].wake)
        }),
{
    let m = config_model(blocks);
    lemma_cancel_split(m, k);
    lemma_config_wakes_shaped(blocks);
    lemma_config_model_start(blocks);
    let pre = observed_events(m, Some(k));
    let full = observed_events(m, None);
    assert(blocks.len() > 0);
    assert(pre =~= full.subrange(0, pre.len() as int));
}

/// A stopped run never plays the all-end cue, wherever cancellation
/// was first observed.
pub proof fn law_stopped_run_has_no_all_end(blocks: Seq<TimerBlock>, k: int)
    requires
        1 <= blocks.len() <= usize::MAX,
        0 <= k <= config_model(blocks).steps.len(),
    ensures
        observed_outcome(config_model(blocks), Some(k)) == Outcome::Stopped,
        ev_count(observed_events(config_model(blocks), Some(k)), cue_pred(CueKind::AllEnd)) == 0,
{
    let m = config_model(blocks);
    lemma_run_upto_start(blocks, blocks.len() as int);
    if k == 0 {
        let rep0 = report_event(0, block_initial(blocks[0]), None, None);
        assert(observed_events(m, Some(0)) =~= seq![rep0]);
        lemma_ev_count_single(rep0, cue_pred(CueKind::AllEnd));
    } else {
        law_all_end_exactly_once(blocks);
        law_cancellation_truncates(blocks, k);
        let pre = observed_events(m, Some(k));
        let rem = cancel_remainder(m, k);
        let full = observed_events(m, None);
        // The remainder holds at least the interrupted second's report.
        lemma_obs_steps_first(m.steps.skip(k - 1));
        assert(m.steps.skip(k - 1)[0] == m.steps[k - 1]);
        assert(rem.len() >= 1);
        assert(full.last() == rem.last());
        lemma_ev_count_add(pre, rem, cue_pred(CueKind::AllEnd));
        lemma_ev_count_basics(rem, cue_pred(CueKind::AllEnd));
        lemma_ev_count_basics(pre, cue_pred(CueKind::AllEnd));
    }
}


/// A run of a single wait block plays exactly the block's own tick
/// cues: `min(5, total - 1)` of them, none when the duration is zero.
pub proof fn law_single_wait_run_tick_count(w: WaitBlock)
    ensures
        ev_count(
            observed_events(config_model(seq![TimerBlock::Wait(w)]), None),
            cue_pred(CueKind::Tick),
        ) == phase_ticks(wait_total(w)),
{
    let blocks: Seq<TimerBlock> = seq![TimerBlock::Wait(w)];
    lemma_single_block_cue_count(blocks, cue_pred(CueKind::Tick));
    lemma_phase_flat_counts(0, wait_total(w), None, None);
}

/// A run of a single countdown block plays exactly the block's own
/// transition cues: two per non-final countdown run.
pub proof fn law_single_countdown_run_transition_count(c: CountdownBlock)
    ensures
        ev_count(
            observed_events(config_model(seq![TimerBlock::Countdown(c)]), None),
            cue_pred(CueKind::Transition),
        ) == 2 * (effective_repeats(c) - 1),
{
    let blocks: Seq<TimerBlock> = seq![TimerBlock::Countdown(c)];
    lemma_single_block_cue_count(blocks, cue_pred(CueKind::Transition));
    lemma_countdown_upto_counts(0, c, effective_repeats(c) as int);
}

/// In a single-block run, a cue that is neither the initial report nor
/// the all-end cue is counted by the block's own script alone.
proof fn lemma_single_block_cue_count(blocks: Seq<TimerBlock>, p: spec_fn(Event) -> bool)
    requires
        blocks.len() == 1,
        !p(Event::Sleep),
        !p(cue_event(CueKind::AllEnd)),
        !p(report_event(0, block_initial(blocks[0]), None, None)),
    ensures
        ev_count(observed_events(config_model(blocks), None), p) == ev_count(
            sm_flat(block_model(0, blocks[0])),
            p,
        ),
{
    let m = config_model(blocks);
    lemma_count_obs(m, p);
    let bm = block_model(0, blocks[0]);
    let tail = block_tail(blocks, 0);
    let inner = sm_join(bm, sm_events(tail));
    lemma_flat_join(run_upto(blocks, 0), inner);
    lemma_flat_join(bm, sm_events(tail));
    lemma_flat_events(tail);
    let rep0 = report_event(0, block_initial(blocks[0]), None, None);
    assert(sm_flat(run_upto(blocks, 0)) =~= seq![rep0]);
    assert(tail =~= seq![cue_event(CueKind::AllEnd)]);
    lemma_ev_count_single(rep0, p);
    lemma_ev_count_single(cue_event(CueKind::AllEnd), p);
    lemma_ev_count_add(sm_flat(run_upto(blocks, 0)), sm_flat(inner), p);
    lemma_ev_count_add(sm_flat(bm), tail, p);
}



// ---------------------------------------------------------------------
// How long a run sleeps, and what a later cancellation keeps.
// ---------------------------------------------------------------------

/// The one-second sleeps one block takes: its whole duration, with a
/// countdown block sleeping through every run and every interval.
pub open spec fn block_sleep_count(b: TimerBlock) -> int {
    match b {
        TimerBlock::Wait(w) => wait_total(w),
        TimerBlock::Countdown(c) => effective_repeats(c) * countdown_total(c) + (effective_repeats(
            c,
        ) - 1) * interval_total(c),
    }
}

/// The one-second sleeps of the first `n` blocks together.
pub open spec fn run_sleep_count(blocks: Seq<TimerBlock>, n: int) -> int
    decreases n,
{
    if n <= 0 {
        0
    } else {
        run_sleep_count(blocks, n - 1) + block_sleep_count(blocks[n - 1])
    }
}

pub proof fn lemma_join_step_len(a: ScriptModel, b: ScriptModel)
    ensures
        sm_join(a, b).steps.len() == a.steps.len() + b.steps.len(),
{
}

pub proof fn lemma_iteration_step_len(bix: usize, c: CountdownBlock, r: u32)
    ensures
        iteration_model(bix, c, r).steps.len() == countdown_total(c) + (if r < effective_repeats(
            c,
        ) {
            interval_total(c)
        } else {
            0int
        }),
{
}

pub proof fn lemma_countdown_step_len(bix: usize, c: CountdownBlock, n: int)
    requires
        0 <= n <= effective_repeats(c),
    ensures
        countdown_upto(bix, c, n).steps.len() == n * countdown_total(c) + (if n
            == effective_repeats(c) as int {
            n - 1
        } else {
            n
        }) * interval_total(c),
    decreases n,
{
    let cd = countdown_total(c);
    let iv = interval_total(c);
    if n <= 0 {
        assert(0 * cd == 0) by (nonlinear_arith);
        assert(0 * iv == 0) by (nonlinear_arith);
        assert(effective_repeats(c) >= 1);
    } else {
        lemma_countdown_step_len(bix, c, n - 1);
        lemma_iteration_step_len(bix, c, n as u32);
        lemma_join_step_len(countdown_upto(bix, c, n - 1), iteration_model(bix, c, n as u32));
        assert(((n as u32) < effective_repeats(c)) == (n < effective_repeats(c) as int));
        assert(n * cd == (n - 1) * cd + cd) by (nonlinear_arith);
        assert(n * iv == (n - 1) * iv + iv) by (nonlinear_arith);
        assert(countdown_upto(bix, c, n).steps.len() == countdown_upto(bix, c, n - 1).steps.len()
            + iteration_model(bix, c, n as u32).steps.len());
        assert(countdown_upto(bix, c, n - 1).steps.len() == (n - 1) * cd + (n - 1) * iv);
        if n < effective_repeats(c) as int {
            assert(countdown_upto(bix, c, n).steps.len() == n * cd + n * iv);
        } else {
            assert(countdown_upto(bix, c, n).steps.len() == n * cd + (n - 1) * iv);
        }
    }
}

pub proof fn lemma_block_step_len(bix: usize, b: TimerBlock)
    ensures
        block_model(bix, b).steps.len() == block_sleep_count(b),
{
    match b {
        TimerBlock::Wait(w) => {
        },
        TimerBlock::Countdown(c) => {
            lemma_countdown_step_len(bix, c, effective_repeats(c) as int);
        },
    }
}

pub proof fn lemma_run_upto_step_len(blocks: Seq<TimerBlock>, n: int)
    requires
        0 <= n,
    ensures
        run_upto(blocks, n).steps.len() == run_sleep_count(blocks, n),
    decreases n,
{
    if n > 0 {
        lemma_run_upto_step_len(blocks, n - 1);
        lemma_block_step_len((n - 1) as usize, blocks[n - 1]);
    }
}

/// A run sleeps exactly once per second of its configuration's total
/// duration: the engine requests one sleep per script entry, and there
/// are as many entries as the blocks' durations add up to.
pub proof fn law_total_sleep_count(blocks: Seq<TimerBlock>)
    ensures
        config_model(blocks).steps.len() == if blocks.len() == 0 {
            0int
        } else {
            run_sleep_count(blocks, blocks.len() as int)
        },
{
    if blocks.len() > 0 {
        lemma_run_upto_step_len(blocks, blocks.len() as int);
    }
}

/// A later cancellation point only extends what was observed: every
/// event already emitted — block-end cues of completed blocks included
/// — stays in the trace, whatever point the run is cut at afterwards.
pub proof fn law_cancellation_monotone(blocks: Seq<TimerBlock>, k: int, k2: int)
    requires
        1 <= k <= k2 <= config_model(blocks).steps.len(),
    ensures
        observed_events(config_model(blocks), Some(k)).is_prefix_of(
            observed_events(config_model(blocks), Some(k2)),
        ),
{
    let m = config_model(blocks);
    let pre = observed_events(m, Some(k));
    let ext = observed_events(m, Some(k2));
    assert(m.steps.take(k2 - 1) =~= m.steps.take(k - 1) + m.steps.take(k2 - 1).skip(k - 1));
    lemma_obs_steps_add(m.steps.take(k - 1), m.steps.take(k2 - 1).skip(k - 1));
    assert(ext =~= pre + obs_steps(m.steps.take(k2 - 1).skip(k - 1)));
    assert(pre =~= ext.subrange(0, pre.len() as int));
}


// ---------------------------------------------------------------------
// Block-end cues of a cancelled run: one per block whose end-of-block
// boundary was reached before the interrupted sleep.
// ---------------------------------------------------------------------

/// The events a run has observed once `c` sleeps have completed
/// uncancelled and the next sleep (if any) has not yet ended.
pub open spec fn cut_obs(s: ScriptModel, c: int) -> Seq<Event> {
    s.start + obs_steps(s.steps.take(c))
}

pub proof fn lemma_cut_join_low(a: ScriptModel, b: ScriptModel, c: int)
    requires
        0 <= c < a.steps.len(),
    ensures
        cut_obs(sm_join(a, b), c) == cut_obs(a, c),
{
    assert(sm_join(a, b).steps.take(c) =~= a.steps.take(c));
}

pub proof fn lemma_cut_join_high(a: ScriptModel, b: ScriptModel, c: int)
    requires
        a.steps.len() <= c <= a.steps.len() + b.steps.len(),
    ensures
        cut_obs(sm_join(a, b), c) == sm_obs(a) + cut_obs(b, c - a.steps.len()),
{
    let s = sm_join(a, b);
    if a.steps.len() == 0 {
        assert(s.steps.take(c) =~= b.steps.take(c));
        assert(cut_obs(s, c) =~= sm_obs(a) + cut_obs(b, c));
    } else {
        let n = a.steps.len();
        let last = a.steps.last();
        let upd = a.steps.update(
            n - 1,
            StepModel { wake: last.wake, after: last.after + b.start },
        );
        assert(s.steps.take(c) =~= upd + b.steps.take(c - n));
        lemma_obs_steps_add(upd, b.steps.take(c - n));
        assert(upd.drop_last() =~= a.steps.drop_last());
        assert(step_obs(upd.last()) =~= step_obs(last) + b.start);
        assert(obs_steps(upd) == obs_steps(a.steps.drop_last()) + (step_obs(last) + b.start));
        assert(cut_obs(s, c) =~= sm_obs(a) + cut_obs(b, c - n));
    }
}

/// A script whose whole event stream never matches the predicate has
/// no match in any cut of it either.
pub proof fn lemma_cut_count_zero(s: ScriptModel, c: int, p: spec_fn(Event) -> bool)
    requires
        0 <= c <= s.steps.len(),
        !p(Event::Sleep),
        ev_count(sm_flat(s), p) == 0,
    ensures
        ev_count(cut_obs(s, c), p) == 0,
{
    lemma_count_obs(s, p);
    assert(s.steps =~= s.steps.take(c) + s.steps.skip(c));
    lemma_obs_steps_add(s.steps.take(c), s.steps.skip(c));
    assert(sm_obs(s) =~= cut_obs(s, c) + obs_steps(s.steps.skip(c)));
    lemma_ev_count_add(cut_obs(s, c), obs_steps(s.steps.skip(c)), p);
    lemma_ev_count_basics(cut_obs(s, c), p);
    lemma_ev_count_basics(obs_steps(s.steps.skip(c)), p);
}

pub proof fn lemma_block_sleep_count_nonneg(b: TimerBlock)
    ensures
        block_sleep_count(b) >= 0,
{
    match b {
        TimerBlock::Wait(w) => {
        },
        TimerBlock::Countdown(c) => {
            let reps = effective_repeats(c) as int;
            assert(reps * countdown_total(c) >= 0) by (nonlinear_arith)
                requires
                    reps >= 1,
                    countdown_total(c) >= 0,
            ;
            assert((reps - 1) * interval_total(c) >= 0) by (nonlinear_arith)
                requires
                    reps >= 1,
                    interval_total(c) >= 0,
            ;
        },
    }
}

pub proof fn lemma_run_sleep_count_mono(blocks: Seq<TimerBlock>, i: int, j: int)
    requires
        0 <= i <= j,
    ensures
        run_sleep_count(blocks, i) <= run_sleep_count(blocks, j),
    decreases j,
{
    if i < j {
        lemma_run_sleep_count_mono(blocks, i, j - 1);
        lemma_block_sleep_count_nonneg(blocks[j - 1]);
    }
}

/// How many of the first `n` blocks are non-final and have reached
/// their end-of-block boundary once `c` sleeps have completed.
pub open spec fn blocks_ended_by(blocks: Seq<TimerBlock>, n: int, c: int) -> int
    decreases n,
{
    if n <= 0 {
        0
    } else {
        blocks_ended_by(blocks, n - 1, c) + if n - 1 < blocks.len() - 1 && run_sleep_count(
            blocks,
            n,
        ) <= c {
            1int
        } else {
            0int
        }
    }
}

/// Once every sleep of the first `j` blocks is over, each of them that
/// is non-final has ended.
pub proof fn lemma_blocks_ended_all(blocks: Seq<TimerBlock>, j: int, c: int)
    requires
        blocks.len() >= 1,
        0 <= j <= blocks.len(),
        run_sleep_count(blocks, j) <= c,
    ensures
        blocks_ended_by(blocks, j, c) == if j < blocks.len() {
            j
        } else {
            j - 1
        },
    decreases j,
{
    if j > 0 {
        lemma_block_sleep_count_nonneg(blocks[j - 1]);
        lemma_blocks_ended_all(blocks, j - 1, c);
    }
}

pub proof fn lemma_cut_block_end_count(blocks: Seq<TimerBlock>, n: int, c: int)
    requires
        1 <= blocks.len() <= usize::MAX,
        0 <= n <= blocks.len(),
        0 <= c <= run_sleep_count(blocks, n),
    ensures
        ev_count(cut_obs(run_upto(blocks, n), c), cue_pred(CueKind::BlockEnd)) == blocks_ended_by(
            blocks,
            n,
            c,
        ),
    decreases n,
{
    let be = cue_pred(CueKind::BlockEnd);
    if n == 0 {
        let rep0 = report_event(0, block_initial(blocks[0]), None, None);
        assert(run_upto(blocks, 0).steps.take(c) =~= Seq::<StepModel>::empty());
        assert(cut_obs(run_upto(blocks, 0), c) =~= seq![rep0]);
        lemma_ev_count_single(rep0, be);
    } else {
        let prev = run_upto(blocks, n - 1);
        let bm = block_model((n - 1) as usize, blocks[n - 1]);
        let tail = block_tail(blocks, n - 1);
        let inner = sm_join(bm, sm_events(tail));
        let cum = run_sleep_count(blocks, n - 1);
        let bsc = block_sleep_count(blocks[n - 1]);
        lemma_run_upto_step_len(blocks, n - 1);
        lemma_block_step_len((n - 1) as usize, blocks[n - 1]);
        lemma_join_step_len(bm, sm_events(tail));
        lemma_block_sleep_count_nonneg(blocks[n - 1]);
        lemma_block_flat_counts((n - 1) as usize, blocks[n - 1]);
        if c < cum {
            lemma_cut_join_low(prev, inner, c);
            lemma_cut_block_end_count(blocks, n - 1, c);
        } else {
            let c2 = c - cum;
            lemma_cut_join_high(prev, inner, c);
            lemma_ev_count_add(sm_obs(prev), cut_obs(inner, c2), be);
            lemma_run_upto_counts(blocks, n - 1, 0);
            lemma_count_obs(prev, be);
            lemma_blocks_ended_all(blocks, n - 1, c);
            if c2 < bsc {
                lemma_cut_join_low(bm, sm_events(tail), c2);
                lemma_cut_count_zero(bm, c2, be);
            } else {
                lemma_cut_join_high(bm, sm_events(tail), c2);
                lemma_ev_count_add(sm_obs(bm), cut_obs(sm_events(tail), 0), be);
                lemma_count_obs(bm, be);
                assert(cut_obs(sm_events(tail), 0) =~= tail);
                if n == blocks.len() {
                    assert(tail =~= seq![cue_event(CueKind::AllEnd)]);
                    lemma_ev_count_single(cue_event(CueKind::AllEnd), be);
                } else {
                    let nrep = report_event(n as usize, block_initial(blocks[n]), None, None);
                    assert(tail =~= seq![cue_event(CueKind::BlockEnd)] + seq![nrep]);
                    lemma_ev_count_add(seq![cue_event(CueKind::BlockEnd)], seq![nrep], be);
                    lemma_ev_count_single(cue_event(CueKind::BlockEnd), be);
                    lemma_ev_count_single(nrep, be);
                }
            }
        }
    }
}

/// A run cancelled at sleep `k` has played the block-end cue exactly
/// once per non-final block whose boundary the completed sleeps had
/// reached — a cue already played is never retracted, and the
/// interrupted block gets none.
pub proof fn law_stopped_run_block_end_count(blocks: Seq<TimerBlock>, k: int)
    requires
        1 <= blocks.len() <= usize::MAX,
        1 <= k <= config_model(blocks).steps.len(),
    ensures
        ev_count(observed_events(config_model(blocks), Some(k)), cue_pred(CueKind::BlockEnd))
            == blocks_ended_by(blocks, blocks.len() as int, k - 1),
{
    let m = config_model(blocks);
    lemma_run_upto_step_len(blocks, blocks.len() as int);
    lemma_cut_block_end_count(blocks, blocks.len() as int, k - 1);
    assert(observed_events(m, Some(k)) == cut_obs(m, k - 1));
}

} // verus!
