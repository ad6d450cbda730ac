//! The observable vocabulary of a timer run: progress reports, audio
//! cues, sleeps, and the terminal outcome.

use vstd::prelude::*;

verus! {

/// Which half of a countdown block is active.
#[derive(Clone, Copy, Debug, PartialEq, Eq)]
pub enum CountdownPhase {
    Countdown,
    Interval,
}

/// Position within a countdown block: the current run (1-based) out of
/// the effective repeat count.
#[derive(Clone, Copy, Debug, PartialEq, Eq)]
pub struct CountdownRun {
    pub current: u32,
    pub total: u32,
}

/// One progress report handed to the progress sink: which block is
/// active, how many seconds remain in the current phase, and, for
/// countdown blocks, the run and phase tags.
#[derive(Clone, Copy, Debug, PartialEq, Eq)]
pub struct ProgressReport {
    pub block_ix: usize,
    pub remaining_secs: u64,
    pub countdown_run: Option<CountdownRun>,
    pub countdown_phase: Option<CountdownPhase>,
}

/// The fixed four-cue audio vocabulary.
#[derive(Clone, Copy, Debug, PartialEq, Eq)]
pub enum CueKind {
    /// Played once per second while five or fewer seconds remain.
    Tick,
    /// Played when a non-final block completes.
    BlockEnd,
    /// Played when the final block completes.
    AllEnd,
    /// Played on both sides of each interval within a countdown block.
    Transition,
}

/// One step of a run as the engine sees it: a cancelable one-second
/// sleep, an audio cue, or a progress report.
#[derive(Clone, Copy, Debug, PartialEq, Eq)]
pub enum Event {
    Sleep,
    Cue(CueKind),
    Report(ProgressReport),
}

/// How a run ended.
#[derive(Clone, Copy, Debug, PartialEq, Eq)]
pub enum Outcome {
    Completed,
    Stopped,
}

/// The sound asset behind each cue.
pub open spec fn spec_cue_sound_path(kind: CueKind) -> Seq<char> {
    match kind {
        CueKind::Tick => "/sound/tick.mp3"@,
        CueKind::BlockEnd => "/sound/block_end.mp3"@,
        CueKind::AllEnd => "/sound/all_end.mp3"@,
        CueKind::Transition => "/sound/countdown_blk_next.mp3"@,
    }
}

/// Maps a cue to the path of its sound asset.
pub fn cue_sound_path(kind: CueKind) -> (r: &'static str)
    ensures
        r@ == spec_cue_sound_path(kind),
{
    match kind {
        CueKind::Tick => "/sound/tick.mp3",
        CueKind::BlockEnd => "/sound/block_end.mp3",
        CueKind::AllEnd => "/sound/all_end.mp3",
        CueKind::Transition => "/sound/countdown_blk_next.mp3",
    }
}

} // verus!
