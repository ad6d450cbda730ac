//! The editor's block-list operations: what adding, removing,
//! replacing, and drag-reordering a block do to the edited timer, and
//! how a saved timer lands in the stored list.

use vstd::prelude::*;

use crate::model::{TimerBlock, TimerConfig};

verus! {

/// Inserts a block at the given position, clamped to the end of the
/// list.
pub fn add_block(blocks: &mut Vec<TimerBlock>, block: TimerBlock, index: usize)
    ensures
        final(blocks)@ == old(blocks)@.insert(
            if index <= old(blocks)@.len() {
                index as int
            } else {
                old(blocks)@.len() as int
            },
            block,
        ),
{
    let idx = if index < blocks.len() {
        index
    } else {
        blocks.len()
    };
    blocks.insert(idx, block);
}

/// Removes the block at the given position, unless the position is out
/// of range or it is the last block left: a timer keeps at least one
/// block.
pub fn remove_block(blocks: &mut Vec<TimerBlock>, index: usize) -> (r: bool)
    ensures
        r == (index < old(blocks)@.len() && old(blocks)@.len() > 1),
        r ==> final(blocks)@ == old(blocks)@.remove(index as int),
        !r ==> final(blocks)@ == old(blocks)@,
{
    if index < blocks.len() && blocks.len() > 1 {
        blocks.remove(index);
        true
    } else {
        false
    }
}

/// Replaces the block at the given position, if it exists.
pub fn update_block(blocks: &mut Vec<TimerBlock>, index: usize, block: TimerBlock) -> (r: bool)
    ensures
        r == (index < old(blocks)@.len()),
        r ==> final(blocks)@ == old(blocks)@.update(index as int, block),
        !r ==> final(blocks)@ == old(blocks)@,
{
    if index < blocks.len() {
        blocks[index] = block;
        true
    } else {
        false
    }
}

/// Where a block dragged from `from` to drop position `to` lands once
/// the dragged block has been taken out: a drop past the source sees
/// the list shifted down by one.
pub open spec fn adjusted_move_target(from: int, to: int, len_after: int) -> int {
    if from < to {
        if to - 1 <= len_after {
            to - 1
        } else {
            len_after
        }
    } else {
        if to <= len_after {
            to
        } else {
            len_after
        }
    }
}

/// Moves the block at `from` to drop position `to`, as the drag-drop
/// canvas does: the block is taken out, the target position is
/// adjusted for the removal, and the block is put back there. Does
/// nothing when `from` is out of range.
pub fn move_block(blocks: &mut Vec<TimerBlock>, from: usize, to: usize) -> (r: bool)
    ensures
        r == (from < old(blocks)@.len()),
        r ==> final(blocks)@ == old(blocks)@.remove(from as int).insert(
            adjusted_move_target(from as int, to as int, old(blocks)@.len() - 1),
            old(blocks)@[from as int],
        ),
        !r ==> final(blocks)@ == old(blocks)@,
{
    if from < blocks.len() {
        let block = blocks.remove(from);
        let adjusted_to = if from < to {
            let t = to - 1;
            if t < blocks.len() {
                t
            } else {
                blocks.len()
            }
        } else {
            if to < blocks.len() {
                to
            } else {
                blocks.len()
            }
        };
        blocks.insert(adjusted_to, block);
        true
    } else {
        false
    }
}

/// Stores a saved timer: replaces the stored timer with the same id,
/// or appends the timer when its id is new.
pub fn store_saved_timer(timers: &mut Vec<TimerConfig>, timer: TimerConfig) -> (r: Option<usize>)
    ensures
        match r {
            Some(i) => i < old(timers)@.len() && old(timers)@[i as int].id@ == timer.id@ && (
            forall|j: int| 0 <= j < i ==> old(timers)@[j].id@ != timer.id@) && final(timers)@
                == old(timers)@.update(i as int, timer),
            None => (forall|j: int|
                0 <= j < old(timers)@.len() ==> old(timers)@[j].id@ != timer.id@) && final(timers)@
                == old(timers)@.push(timer),
        },
{
    let n = timers.len();
    let mut i: usize = 0;
    while i < n
        invariant
            i <= n,
            n == timers@.len(),
            *timers == *old(timers),
            forall|j: int| 0 <= j < i ==> timers@[j].id@ != timer.id@,
        decreases n - i,
    {
        if timers[i].id == timer.id {
            timers[i] = timer;
            return Some(i);
        }
        i = i + 1;
    }
    timers.push(timer);
    None
}

} // verus!
