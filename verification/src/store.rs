//! The stored timer collection: lookup, creation, update, and removal,
//! as the persistence layer's handlers perform them, with and without
//! the validation gate in front.

use vstd::prelude::*;

use crate::model::{TimerConfig, TimerConfigFile, ValidationError};
use crate::validate::{config_valid, errs_view, spec_validation_errors};

verus! {

/// Whether some stored timer has this id.
pub open spec fn has_timer_id(timers: Seq<TimerConfig>, id: Seq<char>) -> bool {
    exists|j: int| 0 <= j < timers.len() && #[trigger] timers[j].id@ == id
}

/// Whether some stored timer has this name.
pub open spec fn has_timer_name(timers: Seq<TimerConfig>, name: Seq<char>) -> bool {
    exists|j: int| 0 <= j < timers.len() && #[trigger] timers[j].name@ == name
}

/// Position of the first timer with the given id.
pub fn find_timer(timers: &Vec<TimerConfig>, id: &String) -> (r: Option<usize>)
    ensures
        match r {
            Some(i) => i < timers@.len() && timers@[i as int].id@ == id@ && forall|j: int|
                0 <= j < i ==> timers@[j].id@ != id@,
            None => !has_timer_id(timers@, id@),
        },
{
    let n = timers.len();
    let mut i: usize = 0;
    while i < n
        invariant
            i <= n,
            n == timers@.len(),
            forall|j: int| 0 <= j < i ==> timers@[j].id@ != id@,
        decreases n - i,
    {
        if timers[i].id == *id {
            return Some(i);
        }
        i = i + 1;
    }
    None
}

/// The first stored timer with the given id, if any.
pub fn get_timer<'a>(file: &'a TimerConfigFile, id: &String) -> (r: Option<&'a TimerConfig>)
    ensures
        match r {
            Some(t) => t.id@ == id@ && (exists|i: int|
                {
                    &&& 0 <= i < file.timers@.len()
                    &&& *t == #[trigger] file.timers@[i]
                    &&& (forall|j: int| 0 <= j < i ==> file.timers@[j].id@ != id@)
                }),
            None => !has_timer_id(file.timers@, id@),
        },
{
    match find_timer(&file.timers, id) {
        Some(i) => {
            let t = &file.timers[i];
            proof {
                assert(file.timers@[i as int].id@ == id@);
                assert(exists|w: int|
                    {
                        &&& 0 <= w < file.timers@.len()
                        &&& *t == #[trigger] file.timers@[w]
                        &&& (forall|j: int| 0 <= j < w ==> file.timers@[j].id@ != id@)
                    }) by {
                    assert(*t == file.timers@[i as int]);
                }
            }
            Some(t)
        },
        None => None,
    }
}

/// Adds a new timer. Fails without storing anything when another timer
/// already has the same name.
pub fn create_timer(file: &mut TimerConfigFile, timer: TimerConfig) -> (r: bool)
    ensures
        r == !has_timer_name(old(file).timers@, timer.name@),
        r ==> final(file).timers@ == old(file).timers@.push(timer),
        !r ==> final(file).timers@ == old(file).timers@,
{
    let n = file.timers.len();
    let mut i: usize = 0;
    while i < n
        invariant
            i <= n,
            n == file.timers@.len(),
            *file == *old(file),
            forall|j: int| 0 <= j < i ==> file.timers@[j].name@ != timer.name@,
        decreases n - i,
    {
        if file.timers[i].name == timer.name {
            return false;
        }
        i = i + 1;
    }
    file.timers.push(timer);
    true
}

/// Replaces the stored timer with the given id. Fails without storing
/// anything when no timer has that id.
pub fn update_timer(file: &mut TimerConfigFile, id: &String, timer: TimerConfig) -> (r: bool)
    ensures
        r == has_timer_id(old(file).timers@, id@),
        !r ==> final(file).timers@ == old(file).timers@,
        r ==> (exists|i: int|
            {
                &&& 0 <= i < old(file).timers@.len()
                &&& old(file).timers@[i].id@ == id@
                &&& (forall|j: int| 0 <= j < i ==> old(file).timers@[j].id@ != id@)
                &&& final(file).timers@ == old(file).timers@.update(i, timer)
            }),
{
    match find_timer(&file.timers, id) {
        Some(i) => {
            let ghost pre = file.timers@;
            file.timers[i] = timer;
            proof {
                let iv = i as int;
                assert(0 <= iv && iv < pre.len());
                assert(pre[iv].id@ == id@);
                assert(forall|j: int| 0 <= j < iv ==> pre[j].id@ != id@);
                assert(file.timers@ == pre.update(iv, timer));
            }
            true
        },
        None => false,
    }
}

/// Removes every timer with the given id, reporting whether any was
/// stored.
pub fn delete_timer(file: &mut TimerConfigFile, id: &String) -> (r: bool)
    ensures
        final(file).timers@ == old(file).timers@.filter(|t: TimerConfig| t.id@ != id@),
        r == has_timer_id(old(file).timers@, id@),
{
    let ghost orig = file.timers@;
    let ghost p = |t: TimerConfig| t.id@ != id@;
    let mut removed = false;
    let mut i: usize = 0;
    let ghost mut done: int = 0;
    proof {
        assert(orig.take(0) =~= Seq::<TimerConfig>::empty());
        reveal_with_fuel(Seq::<TimerConfig>::filter, 1);
        assert(orig.take(0).filter(p) + orig.skip(0) =~= orig);
    }
    while i < file.timers.len()
        invariant
            0 <= done <= orig.len(),
            file.timers@ == orig.take(done).filter(p) + orig.skip(done),
            i as int == orig.take(done).filter(p).len(),
            removed == (exists|j: int| 0 <= j < done && #[trigger] orig[j].id@ == id@),
            p == (|t: TimerConfig| t.id@ != id@),
        decreases orig.len() - done,
    {
        proof {
            reveal_with_fuel(Seq::<TimerConfig>::filter, 2);
            assert(orig.skip(done).len() > 0);
            assert(file.timers@[i as int] == orig.skip(done)[0]);
            assert(orig.skip(done)[0] == orig[done]);
            assert(orig.take(done + 1).drop_last() =~= orig.take(done));
            assert(orig.take(done + 1).last() == orig[done]);
        }
        if file.timers[i].id == *id {
            removed = true;
            file.timers.remove(i);
            proof {
                assert(!p(orig[done]));
                assert(orig.take(done + 1).filter(p) == orig.take(done).filter(p));
                assert(file.timers@ =~= orig.take(done + 1).filter(p) + orig.skip(done + 1));
            }
        } else {
            proof {
                assert(p(orig[done]));
                assert(orig.take(done + 1).filter(p) == orig.take(done).filter(p).push(
                    orig[done],
                ));
                assert(file.timers@ =~= orig.take(done + 1).filter(p) + orig.skip(done + 1));
            }
            i = i + 1;
        }
        proof {
            done = done + 1;
        }
    }
    proof {
        assert(orig.skip(done).len() == 0);
        assert(done == orig.len());
        assert(orig.take(done) =~= orig);
        assert(file.timers@ =~= orig.filter(p));
        if removed {
            assert(has_timer_id(orig, id@));
        }
        if has_timer_id(orig, id@) {
            assert(removed);
        }
    }
    removed
}


/// Validates and then stores a new timer, as the creation handler
/// does. An invalid configuration is refused with its exact error
/// list; a valid one whose name another stored timer already bears is
/// refused with a single name error; either refusal stores nothing.
pub fn create_validated_timer(file: &mut TimerConfigFile, timer: TimerConfig) -> (r: Result<
    (),
    Vec<ValidationError>,
>)
    ensures
        (r is Ok) == (config_valid(timer.name@, timer.blocks@) && !has_timer_name(
            old(file).timers@,
            timer.name@,
        )),
        r is Ok ==> final(file).timers@ == old(file).timers@.push(timer),
        r matches Err(errs) ==> final(file).timers@ == old(file).timers@ && errs_view(errs@) == (
        if !config_valid(timer.name@, timer.blocks@) {
            spec_validation_errors(timer.name@, timer.blocks@)
        } else {
            seq![("name"@, "同じ名前のタイマーが既に存在します"@)]
        }),
{
    match timer.validate() {
        Err(errs) => Err(errs),
        Ok(()) => {
            if create_timer(file, timer) {
                Ok(())
            } else {
                let mut errs: Vec<ValidationError> = Vec::new();
                errs.push(ValidationError {
                    field: String::from_str("name"),
                    message: String::from_str("同じ名前のタイマーが既に存在します"),
                });
                proof {
                    assert(errs_view(errs@) =~= seq![
                        ("name"@, "同じ名前のタイマーが既に存在します"@),
                    ]);
                }
                Err(errs)
            }
        },
    }
}

/// Validates a candidate and then stores it under the given id, as the
/// update handler does: the candidate's own id is overwritten first.
/// An invalid candidate is refused with its exact error list; an
/// unknown id is refused with a single id error; either refusal stores
/// nothing.
pub fn update_validated_timer(file: &mut TimerConfigFile, id: &String, timer: TimerConfig) -> (r:
    Result<(), Vec<ValidationError>>)
    ensures
        (r is Ok) == (config_valid(timer.name@, timer.blocks@) && has_timer_id(
            old(file).timers@,
            id@,
        )),
        r is Ok ==> (exists|i: int|
            {
                &&& 0 <= i < old(file).timers@.len()
                &&& old(file).timers@[i].id@ == id@
                &&& (forall|j: int| 0 <= j < i ==> old(file).timers@[j].id@ != id@)
                &&& final(file).timers@ == old(file).timers@.update(
                    i,
                    TimerConfig { id: *id, ..timer },
                )
            }),
        r matches Err(errs) ==> final(file).timers@ == old(file).timers@ && errs_view(errs@) == (
        if !config_valid(timer.name@, timer.blocks@) {
            spec_validation_errors(timer.name@, timer.blocks@)
        } else {
            seq![("id"@, "タイマーが見つかりません"@)]
        }),
{
    let mut candidate = timer;
    candidate.id = id.clone();
    proof {
        assert(candidate == (TimerConfig { id: *id, ..timer }));
    }
    match candidate.validate() {
        Err(errs) => Err(errs),
        Ok(()) => {
            if update_timer(file, id, candidate) {
                Ok(())
            } else {
                let mut errs: Vec<ValidationError> = Vec::new();
                errs.push(ValidationError {
                    field: String::from_str("id"),
                    message: String::from_str("タイマーが見つかりません"),
                });
                proof {
                    assert(errs_view(errs@) =~= seq![("id"@, "タイマーが見つかりません"@)]);
                }
                Err(errs)
            }
        },
    }
}

} // verus!
