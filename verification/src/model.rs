//! The timer configuration data model: blocks, timers, and the
//! surrounding value types shared with callers.

use vstd::prelude::*;

verus! {

/// A flat wait segment: counts down once from its configured duration.
#[derive(Clone, Debug, PartialEq)]
pub struct WaitBlock {
    pub name: String,
    pub minutes: u32,
    pub seconds: u32,
}

/// A repeating countdown segment: the countdown duration runs
/// `max(1, repeat_count)` times, with an interval wait between
/// non-final repeats.
#[derive(Clone, Debug, PartialEq)]
pub struct CountdownBlock {
    pub name: String,
    pub minutes: u32,
    pub seconds: u32,
    pub repeat_count: u32,
    pub interval_minutes: u32,
    pub interval_seconds: u32,
}

/// One timed segment of a timer.
#[derive(Clone, Debug, PartialEq)]
pub enum TimerBlock {
    Wait(WaitBlock),
    Countdown(CountdownBlock),
}

/// A named, ordered sequence of blocks.
#[derive(Clone, Debug, PartialEq)]
pub struct TimerConfig {
    pub id: String,
    pub name: String,
    pub blocks: Vec<TimerBlock>,
}

/// The stored collection of timers.
#[derive(Clone, Debug)]
pub struct TimerConfigFile {
    pub timers: Vec<TimerConfig>,
}

/// One field-level problem found while checking a timer.
#[derive(Clone, Debug)]
pub struct ValidationError {
    pub field: String,
    pub message: String,
}

/// The envelope in which results and errors travel to callers.
#[derive(Clone, Debug)]
pub struct ApiResponse<T> {
    pub success: bool,
    pub data: Option<T>,
    pub errors: Option<Vec<ValidationError>>,
}

/// Duration of a wait block, in seconds.
pub open spec fn wait_total(w: WaitBlock) -> int {
    w.minutes * 60 + w.seconds
}

/// Duration of one countdown run of a countdown block, in seconds.
pub open spec fn countdown_total(c: CountdownBlock) -> int {
    c.minutes * 60 + c.seconds
}

/// Duration of the interval between countdown runs, in seconds.
pub open spec fn interval_total(c: CountdownBlock) -> int {
    c.interval_minutes * 60 + c.interval_seconds
}

/// How many countdown runs a countdown block performs: a repeat count
/// of zero still runs once.
pub open spec fn effective_repeats(c: CountdownBlock) -> u32 {
    if c.repeat_count == 0 {
        1u32
    } else {
        c.repeat_count
    }
}

/// The number of seconds shown for a block before it starts: its wait
/// duration, or the duration of one countdown run.
pub open spec fn block_initial(b: TimerBlock) -> int {
    match b {
        TimerBlock::Wait(w) => wait_total(w),
        TimerBlock::Countdown(c) => countdown_total(c),
    }
}

/// Seconds remaining for a block at its start, as the engine reports it.
pub fn block_initial_remaining(block: &TimerBlock) -> (r: u64)
    ensures
        r == block_initial(*block),
{
    match block {
        TimerBlock::Wait(w) => w.minutes as u64 * 60 + w.seconds as u64,
        TimerBlock::Countdown(c) => c.minutes as u64 * 60 + c.seconds as u64,
    }
}

/// Whether a block is a countdown block.
pub fn is_countdown_block(block: &TimerBlock) -> (r: bool)
    ensures
        r == (block matches TimerBlock::Countdown(_)),
{
    match block {
        TimerBlock::Wait(_) => false,
        TimerBlock::Countdown(_) => true,
    }
}

/// The block's own display name.
pub fn block_name(block: &TimerBlock) -> (r: &str)
    ensures
        r@ == (match *block {
            TimerBlock::Wait(w) => w.name@,
            TimerBlock::Countdown(c) => c.name@,
        }),
{
    match block {
        TimerBlock::Wait(w) => w.name.as_str(),
        TimerBlock::Countdown(c) => c.name.as_str(),
    }
}

} // verus!
