//! Human-readable one-line descriptions of blocks, and the default
//! blocks the editor starts from.

use vstd::prelude::*;

use crate::model::{CountdownBlock, TimerBlock, ValidationError, WaitBlock};
use crate::text::{dec_of, u64_dec_string};

verus! {

pub open spec fn spec_wait_line(w: WaitBlock) -> Seq<char> {
    dec_of(w.minutes as int) + "分"@ + dec_of(w.seconds as int) + "秒 待機"@
}

/// The view line of a wait block: its minutes and seconds.
pub fn format_wait_line(w: &WaitBlock) -> (r: String)
    ensures
        r@ == spec_wait_line(*w),
{
    let mut s = u64_dec_string(w.minutes as u64);
    s.append("分");
    let sec = u64_dec_string(w.seconds as u64);
    s.append(sec.as_str());
    s.append("秒 待機");
    s
}

pub open spec fn spec_countdown_line(c: CountdownBlock) -> Seq<char> {
    dec_of(c.minutes as int) + "分"@ + dec_of(c.seconds as int) + "秒 カウントダウン、"@ + dec_of(
        c.repeat_count as int,
    ) + "回繰り返し (インターバル待機: "@ + dec_of(c.interval_minutes as int) + "分"@ + dec_of(
        c.interval_seconds as int,
    ) + "秒)"@
}

/// The view line of a countdown block: durations, repeats, and
/// interval.
pub fn format_countdown_line(c: &CountdownBlock) -> (r: String)
    ensures
        r@ == spec_countdown_line(*c),
{
    let mut s = u64_dec_string(c.minutes as u64);
    s.append("分");
    let sec = u64_dec_string(c.seconds as u64);
    s.append(sec.as_str());
    s.append("秒 カウントダウン、");
    let rep = u64_dec_string(c.repeat_count as u64);
    s.append(rep.as_str());
    s.append("回繰り返し (インターバル待機: ");
    let ivm = u64_dec_string(c.interval_minutes as u64);
    s.append(ivm.as_str());
    s.append("分");
    let ivs = u64_dec_string(c.interval_seconds as u64);
    s.append(ivs.as_str());
    s.append("秒)");
    s
}

pub open spec fn spec_block_config_line(b: TimerBlock) -> Seq<char> {
    match b {
        TimerBlock::Wait(w) => dec_of(w.minutes as int) + "分"@ + dec_of(w.seconds as int)
            + "秒 ウェイト"@,
        TimerBlock::Countdown(c) => dec_of(c.minutes as int) + "分"@ + dec_of(c.seconds as int)
            + "秒 カウントダウン (繰り返し"@ + dec_of(c.repeat_count as int)
            + "回, インターバル "@ + dec_of(c.interval_minutes as int) + "分"@ + dec_of(
            c.interval_seconds as int,
        ) + "秒)"@,
    }
}

/// The configuration line shown for a block while a timer runs.
pub fn block_config_line(block: &TimerBlock) -> (r: String)
    ensures
        r@ == spec_block_config_line(*block),
{
    match block {
        TimerBlock::Wait(w) => {
            let mut s = u64_dec_string(w.minutes as u64);
            s.append("分");
            let sec = u64_dec_string(w.seconds as u64);
            s.append(sec.as_str());
            s.append("秒 ウェイト");
            s
        },
        TimerBlock::Countdown(c) => {
            let mut s = u64_dec_string(c.minutes as u64);
            s.append("分");
            let sec = u64_dec_string(c.seconds as u64);
            s.append(sec.as_str());
            s.append("秒 カウントダウン (繰り返し");
            let rep = u64_dec_string(c.repeat_count as u64);
            s.append(rep.as_str());
            s.append("回, インターバル ");
            let ivm = u64_dec_string(c.interval_minutes as u64);
            s.append(ivm.as_str());
            s.append("分");
            let ivs = u64_dec_string(c.interval_seconds as u64);
            s.append(ivs.as_str());
            s.append("秒)");
            s
        },
    }
}

/// The detail line shown for a block in the timer view.
pub fn block_detail_line(block: &TimerBlock) -> (r: String)
    ensures
        r@ == (match *block {
            TimerBlock::Wait(w) => spec_wait_line(w),
            TimerBlock::Countdown(c) => spec_countdown_line(c),
        }),
{
    match block {
        TimerBlock::Wait(w) => format_wait_line(w),
        TimerBlock::Countdown(c) => format_countdown_line(c),
    }
}

/// The kind label of a block.
pub fn block_type_name(block: &TimerBlock) -> (r: &'static str)
    ensures
        r@ == (match *block {
            TimerBlock::Wait(_) => "待機"@,
            TimerBlock::Countdown(_) => "カウントダウン"@,
        }),
{
    match block {
        TimerBlock::Wait(_) => "待機",
        TimerBlock::Countdown(_) => "カウントダウン",
    }
}

/// The wait block the editor palette inserts: ten seconds, unnamed.
pub fn default_wait_block() -> (r: TimerBlock)
    ensures
        r matches TimerBlock::Wait(w) && w.name@ == Seq::<char>::empty() && w.minutes == 0
            && w.seconds == 10,
{
    TimerBlock::Wait(WaitBlock { name: String::new(), minutes: 0, seconds: 10 })
}

/// The countdown block the editor palette inserts: one minute, one
/// run, a ten-second interval, unnamed.
pub fn default_countdown_block() -> (r: TimerBlock)
    ensures
        r matches TimerBlock::Countdown(c) && c.name@ == Seq::<char>::empty() && c.minutes == 1
            && c.seconds == 0 && c.repeat_count == 1 && c.interval_minutes == 0
            && c.interval_seconds == 10,
{
    TimerBlock::Countdown(
        CountdownBlock {
            name: String::new(),
            minutes: 1,
            seconds: 0,
            repeat_count: 1,
            interval_minutes: 0,
            interval_seconds: 10,
        },
    )
}


/// The messages of an optional error list, in order.
pub fn extract_errors(errors: Option<Vec<ValidationError>>) -> (r: Vec<String>)
    ensures
        match errors {
            Some(v) => r@.len() == v@.len() && forall|i: int|
                0 <= i < v@.len() ==> r@[i]@ == v@[i].message@,
            None => r@.len() == 0,
        },
{
    match errors {
        None => Vec::new(),
        Some(v) => {
            let mut out: Vec<String> = Vec::new();
            let mut i: usize = 0;
            while i < v.len()
                invariant
                    i <= v@.len(),
                    out@.len() == i,
                    forall|j: int| 0 <= j < i ==> out@[j]@ == v@[j].message@,
                decreases v@.len() - i,
            {
                out.push(v[i].message.clone());
                i = i + 1;
            }
            out
        },
    }
}

/// The messages of an error list joined with a comma and a space.
pub open spec fn spec_joined_messages(errs: Seq<ValidationError>) -> Seq<char>
    decreases errs.len(),
{
    if errs.len() == 0 {
        Seq::empty()
    } else if errs.len() == 1 {
        errs[0].message@
    } else {
        spec_joined_messages(errs.drop_last()) + ", "@ + errs.last().message@
    }
}

/// One line holding every message of an optional error list, separated
/// by commas.
pub fn format_errors(errors: Option<Vec<ValidationError>>) -> (r: String)
    ensures
        match errors {
            Some(v) => r@ == spec_joined_messages(v@),
            None => r@ == Seq::<char>::empty(),
        },
{
    match errors {
        None => {
            let s = String::new();
            s
        },
        Some(v) => {
            let mut s = String::new();
            let mut i: usize = 0;
            proof {
                assert(v@.take(0) =~= Seq::<ValidationError>::empty());
            }
            while i < v.len()
                invariant
                    i <= v@.len(),
                    s@ == spec_joined_messages(v@.take(i as int)),
                decreases v@.len() - i,
            {
                if i > 0 {
                    s.append(", ");
                }
                s.append(v[i].message.as_str());
                proof {
                    assert(v@.take(i + 1).drop_last() =~= v@.take(i as int));
                    assert(v@.take(i + 1).last() == v@[i as int]);
                    if i == 0 {
                        assert(s@ =~= spec_joined_messages(v@.take(1)));
                    }
                }
                i = i + 1;
            }
            proof {
                assert(v@.take(v@.len() as int) =~= v@);
            }
            s
        },
    }
}

} // verus!
