//! The editor's application state and its reducer: one pure transition
//! function from a state and an action to the next state, plus a flag
//! telling the caller to request cancellation of the running timer.

use vstd::prelude::*;

use crate::editing::{
    add_block, adjusted_move_target, move_block, remove_block, store_saved_timer, update_block,
};
use crate::events::{CountdownPhase, CountdownRun};
use crate::model::{TimerBlock, TimerConfig, WaitBlock};
use crate::store::find_timer;

verus! {

/// What the content pane shows.
#[derive(Clone, Debug)]
pub enum ViewMode {
    NoContent,
    Builder,
    /// Read-only preview of the timer with this id.
    ViewTimer(String),
}

/// Where the user wanted to go when the unsaved-changes prompt opened.
#[derive(Clone, Debug)]
pub enum PendingNavigation {
    ToViewTimer(String),
    ToEditTimer(String),
    ToNewTimer,
}

/// What the running-timer modal shows. The cancellation flag itself is
/// owned by the caller that drives the engine.
#[derive(Clone, Debug)]
pub struct RunningInfo {
    pub timer: TimerConfig,
    pub current_block_index: usize,
    pub remaining_secs: u64,
    pub is_complete: bool,
    pub countdown_run: Option<CountdownRun>,
    pub countdown_phase: Option<CountdownPhase>,
}

#[derive(Clone, Debug)]
pub struct AppState {
    pub timers: Vec<TimerConfig>,
    pub view: ViewMode,
    pub editing_timer: Option<TimerConfig>,
    pub dragging_block_index: Option<usize>,
    pub dragging_new_block: Option<String>,
    pub validation_errors: Vec<String>,
    pub last_saved_id: Option<String>,
    pub form_dirty: bool,
    /// Navigation held back by the unsaved-changes prompt.
    pub pending_navigation: Option<PendingNavigation>,
    /// Whether the builder's name input should take focus.
    pub focus_builder_name: bool,
    /// The running-timer modal, when a run is active or just finished.
    pub running: Option<RunningInfo>,
}

pub enum AppAction {
    SetTimers(Vec<TimerConfig>),
    StartNewTimer,
    /// Preview the timer with this id, or clear the preview on `None`.
    PreviewTimer(Option<String>),
    EditTimer(String),
    SetTimerName(String),
    AddBlock(TimerBlock, usize),
    RemoveBlock(usize),
    UpdateBlock(usize, TimerBlock),
    MoveBlock { from: usize, to: usize },
    StartDraggingBlock(usize),
    StartDraggingNewBlock(String),
    StopDragging,
    SaveSuccess(TimerConfig),
    SetValidationErrors(Vec<String>),
    /// The unsaved-changes prompt's "discard" choice.
    ConfirmDiscard,
    /// The unsaved-changes prompt's "keep editing" choice.
    CancelNavigate,
    ClearFocusBuilderName,
    StartTimerExecution(TimerConfig),
    SetRunningProgress {
        block_ix: usize,
        remaining_secs: u64,
        countdown_run: Option<CountdownRun>,
        countdown_phase: Option<CountdownPhase>,
    },
    TimerExecutionComplete,
    CloseRunningModal,
    TimerExecutionStopped,
}

impl Default for AppState {
    /// The state the application starts in: nothing loaded, nothing
    /// edited, nothing running.
    fn default() -> (s: AppState)
        ensures
            s.timers@.len() == 0,
            s.view is NoContent,
            s.editing_timer is None,
            s.dragging_block_index is None,
            s.dragging_new_block is None,
            s.validation_errors@.len() == 0,
            s.last_saved_id is None,
            !s.form_dirty,
            s.pending_navigation is None,
            !s.focus_builder_name,
            s.running is None,
    {
        AppState {
            timers: Vec::new(),
            view: ViewMode::NoContent,
            editing_timer: None,
            dragging_block_index: None,
            dragging_new_block: None,
            validation_errors: Vec::new(),
            last_saved_id: None,
            form_dirty: false,
            pending_navigation: None,
            focus_builder_name: false,
            running: None,
        }
    }
}

/// The timer a fresh builder session starts from: unnamed, with a
/// single ten-second wait block.
pub open spec fn is_default_new_timer(t: TimerConfig) -> bool {
    &&& t.id@ == Seq::<char>::empty()
    &&& t.name@ == Seq::<char>::empty()
    &&& t.blocks@.len() == 1
    &&& t.blocks@[0] matches TimerBlock::Wait(w) && w.name@ == "default"@ && w.minutes == 0
        && w.seconds == 10
}

/// Same timer up to container identity: the same id, name, and blocks.
pub open spec fn config_like(a: TimerConfig, b: TimerConfig) -> bool {
    a.id == b.id && a.name == b.name && a.blocks@ == b.blocks@
}

/// Whether the unsaved-changes prompt intercepts a navigation: only
/// when the builder is open with unsaved edits.
pub open spec fn guards_navigation(s: AppState) -> bool {
    s.view is Builder && s.form_dirty
}

/// The first stored timer with the given id, if any.
pub open spec fn found_timer(timers: Seq<TimerConfig>, id: Seq<char>) -> Option<TimerConfig>
    decreases timers.len(),
{
    if timers.len() == 0 {
        None
    } else if timers[0].id@ == id {
        Some(timers[0])
    } else {
        found_timer(timers.skip(1), id)
    }
}

fn clone_blocks(blocks: &Vec<TimerBlock>) -> (r: Vec<TimerBlock>)
    ensures
        r@ == blocks@,
{
    let mut out: Vec<TimerBlock> = Vec::new();
    let mut i: usize = 0;
    while i < blocks.len()
        invariant
            i <= blocks@.len(),
            out@ == blocks@.take(i as int),
        decreases blocks@.len() - i,
    {
        let b = match &blocks[i] {
            TimerBlock::Wait(w) => TimerBlock::Wait(
                WaitBlock { name: w.name.clone(), minutes: w.minutes, seconds: w.seconds },
            ),
            TimerBlock::Countdown(c) => TimerBlock::Countdown(
                crate::model::CountdownBlock {
                    name: c.name.clone(),
                    minutes: c.minutes,
                    seconds: c.seconds,
                    repeat_count: c.repeat_count,
                    interval_minutes: c.interval_minutes,
                    interval_seconds: c.interval_seconds,
                },
            ),
        };
        proof {
            assert(b == blocks@[i as int]);
            assert(blocks@.take(i + 1).drop_last() =~= blocks@.take(i as int));
            assert(blocks@.take(i + 1).last() == blocks@[i as int]);
        }
        out.push(b);
        proof {
            assert(out@ =~= blocks@.take(i + 1));
        }
        i = i + 1;
    }
    proof {
        assert(blocks@.take(blocks@.len() as int) =~= blocks@);
    }
    out
}

fn clone_config(t: &TimerConfig) -> (r: TimerConfig)
    ensures
        config_like(r, *t),
{
    TimerConfig { id: t.id.clone(), name: t.name.clone(), blocks: clone_blocks(&t.blocks) }
}

fn default_new_timer() -> (t: TimerConfig)
    ensures
        is_default_new_timer(t),
{
    let mut blocks: Vec<TimerBlock> = Vec::new();
    blocks.push(TimerBlock::Wait(WaitBlock {
        name: String::from_str("default"),
        minutes: 0,
        seconds: 10,
    }));
    TimerConfig { id: String::new(), name: String::new(), blocks }
}

impl AppState {
    /// What `reduce` does for each action. The second result is true
    /// when the caller must request cancellation of the running timer.
    pub open spec fn reduce_post(pre: AppState, action: AppAction, post: AppState, cancel: bool) -> bool {
        &&& (cancel <==> action is CloseRunningModal && pre.running is Some)
        &&& match action {
            AppAction::SetTimers(timers) => post == AppState { timers, ..pre },
            AppAction::StartNewTimer => {
                if guards_navigation(pre) {
                    post == AppState {
                        pending_navigation: Some(PendingNavigation::ToNewTimer),
                        ..pre
                    }
                } else {
                    &&& post.editing_timer matches Some(t) && is_default_new_timer(t)
                    &&& post.view is Builder
                    &&& post.validation_errors@.len() == 0
                    &&& !post.form_dirty
                    &&& post == AppState {
                        view: post.view,
                        editing_timer: post.editing_timer,
                        validation_errors: post.validation_errors,
                        form_dirty: false,
                        ..pre
                    }
                }
            },
            AppAction::PreviewTimer(opt_id) => match opt_id {
                Some(id) => {
                    if guards_navigation(pre) {
                        post == AppState {
                            pending_navigation: Some(PendingNavigation::ToViewTimer(id)),
                            ..pre
                        }
                    } else {
                        post == AppState { view: ViewMode::ViewTimer(id), ..pre }
                    }
                },
                None => post == AppState { view: ViewMode::NoContent, ..pre },
            },
            AppAction::EditTimer(id) => {
                if guards_navigation(pre) {
                    post == AppState {
                        pending_navigation: Some(PendingNavigation::ToEditTimer(id)),
                        ..pre
                    }
                } else {
                    match found_timer(pre.timers@, id@) {
                        Some(stored) => {
                            &&& post.editing_timer matches Some(t) && config_like(t, stored)
                            &&& post.view is Builder
                            &&& post.validation_errors@.len() == 0
                            &&& !post.form_dirty
                            &&& post == AppState {
                                view: post.view,
                                editing_timer: post.editing_timer,
                                validation_errors: post.validation_errors,
                                form_dirty: false,
                                ..pre
                            }
                        },
                        None => post == pre,
                    }
                }
            },
            AppAction::SetTimerName(name) => match pre.editing_timer {
                Some(t0) => post == AppState {
                    editing_timer: Some(TimerConfig { name, ..t0 }),
                    form_dirty: true,
                    ..pre
                },
                None => post == pre,
            },
            AppAction::AddBlock(block, index) => match pre.editing_timer {
                Some(t0) => {
                    &&& post.editing_timer matches Some(t) && t.id == t0.id && t.name == t0.name
                        && t.blocks@ == t0.blocks@.insert(
                        if index <= t0.blocks@.len() {
                            index as int
                        } else {
                            t0.blocks@.len() as int
                        },
                        block,
                    )
                    &&& post == AppState {
                        editing_timer: post.editing_timer,
                        form_dirty: true,
                        ..pre
                    }
                },
                None => post == pre,
            },
            AppAction::RemoveBlock(index) => match pre.editing_timer {
                Some(t0) => {
                    if index < t0.blocks@.len() && t0.blocks@.len() > 1 {
                        &&& post.editing_timer matches Some(t) && t.id == t0.id && t.name
                            == t0.name && t.blocks@ == t0.blocks@.remove(index as int)
                        &&& post == AppState {
                            editing_timer: post.editing_timer,
                            form_dirty: true,
                            ..pre
                        }
                    } else {
                        &&& post.editing_timer matches Some(t) && t.id == t0.id && t.name
                            == t0.name && t.blocks@ == t0.blocks@
                        &&& post == AppState { editing_timer: post.editing_timer, ..pre }
                    }
                },
                None => post == pre,
            },
            AppAction::UpdateBlock(index, block) => match pre.editing_timer {
                Some(t0) => {
                    if index < t0.blocks@.len() {
                        &&& post.editing_timer matches Some(t) && t.id == t0.id && t.name
                            == t0.name && t.blocks@ == t0.blocks@.update(index as int, block)
                        &&& post == AppState {
                            editing_timer: post.editing_timer,
                            form_dirty: true,
                            ..pre
                        }
                    } else {
                        &&& post.editing_timer matches Some(t) && t.id == t0.id && t.name
                            == t0.name && t.blocks@ == t0.blocks@
                        &&& post == AppState { editing_timer: post.editing_timer, ..pre }
                    }
                },
                None => post == pre,
            },
            AppAction::MoveBlock { from, to } => match pre.editing_timer {
                Some(t0) => {
                    if from < t0.blocks@.len() {
                        &&& post.editing_timer matches Some(t) && t.id == t0.id && t.name
                            == t0.name && t.blocks@ == t0.blocks@.remove(from as int).insert(
                            adjusted_move_target(from as int, to as int, t0.blocks@.len() - 1),
                            t0.blocks@[from as int],
                        )
                        &&& post == AppState {
                            editing_timer: post.editing_timer,
                            form_dirty: true,
                            ..pre
                        }
                    } else {
                        &&& post.editing_timer matches Some(t) && t.id == t0.id && t.name
                            == t0.name && t.blocks@ == t0.blocks@
                        &&& post == AppState { editing_timer: post.editing_timer, ..pre }
                    }
                },
                None => post == pre,
            },
            AppAction::StartDraggingBlock(index) => post == AppState {
                dragging_block_index: Some(index),
                dragging_new_block: None,
                ..pre
            },
            AppAction::StartDraggingNewBlock(block_type) => post == AppState {
                dragging_new_block: Some(block_type),
                dragging_block_index: None,
                ..pre
            },
            AppAction::StopDragging => post == AppState {
                dragging_block_index: None,
                dragging_new_block: None,
                ..pre
            },
            AppAction::SaveSuccess(timer) => {
                &&& post.last_saved_id matches Some(saved) && saved == timer.id
                &&& (match found_timer(pre.timers@, timer.id@) {
                    Some(_) => exists|i: int|
                        {
                            &&& 0 <= i < pre.timers@.len()
                            &&& pre.timers@[i].id@ == timer.id@
                            &&& (forall|j: int| 0 <= j < i ==> pre.timers@[j].id@ != timer.id@)
                            &&& post.timers@.len() == pre.timers@.len()
                            &&& config_like(#[trigger] post.timers@[i], timer)
                            &&& (forall|j: int|
                                0 <= j < pre.timers@.len() && j != i
                                    ==> post.timers@[j] == pre.timers@[j])
                        },
                    None => post.timers@.len() == pre.timers@.len() + 1 && config_like(
                        post.timers@.last(),
                        timer,
                    ) && (forall|j: int|
                        0 <= j < pre.timers@.len() ==> post.timers@[j] == pre.timers@[j]),
                })
                &&& post.editing_timer == Some(timer)
                &&& post.validation_errors@.len() == 0
                &&& !post.form_dirty
                &&& post == AppState {
                    timers: post.timers,
                    last_saved_id: post.last_saved_id,
                    editing_timer: post.editing_timer,
                    validation_errors: post.validation_errors,
                    form_dirty: false,
                    ..pre
                }
            },
            AppAction::SetValidationErrors(errors) => post == AppState {
                validation_errors: errors,
                ..pre
            },
            AppAction::ConfirmDiscard => match pre.pending_navigation {
                Some(pending) => {
                    &&& post.pending_navigation is None
                    &&& !post.form_dirty
                    &&& post.validation_errors@.len() == 0
                    &&& match pending {
                        PendingNavigation::ToViewTimer(id) => {
                            &&& post.view matches ViewMode::ViewTimer(v) && v == id
                            &&& post == AppState {
                                view: post.view,
                                pending_navigation: None,
                                form_dirty: false,
                                validation_errors: post.validation_errors,
                                ..pre
                            }
                        },
                        PendingNavigation::ToEditTimer(id) => match found_timer(
                            pre.timers@,
                            id@,
                        ) {
                            Some(stored) => {
                                &&& post.editing_timer matches Some(t) && config_like(t, stored)
                                &&& post.view is Builder
                                &&& post == AppState {
                                    view: post.view,
                                    editing_timer: post.editing_timer,
                                    pending_navigation: None,
                                    form_dirty: false,
                                    validation_errors: post.validation_errors,
                                    ..pre
                                }
                            },
                            None => post == AppState {
                                pending_navigation: None,
                                form_dirty: false,
                                validation_errors: post.validation_errors,
                                ..pre
                            },
                        },
                        PendingNavigation::ToNewTimer => {
                            &&& post.editing_timer matches Some(t) && is_default_new_timer(t)
                            &&& post.view is Builder
                            &&& post == AppState {
                                view: post.view,
                                editing_timer: post.editing_timer,
                                pending_navigation: None,
                                form_dirty: false,
                                validation_errors: post.validation_errors,
                                ..pre
                            }
                        },
                    }
                },
                None => post == pre,
            },
            AppAction::CancelNavigate => post == AppState {
                pending_navigation: None,
                focus_builder_name: true,
                ..pre
            },
            AppAction::ClearFocusBuilderName => post == AppState {
                focus_builder_name: false,
                ..pre
            },
            AppAction::StartTimerExecution(timer) => post == AppState {
                running: Some(
                    RunningInfo {
                        timer,
                        current_block_index: 0,
                        remaining_secs: 0,
                        is_complete: false,
                        countdown_run: None,
                        countdown_phase: None,
                    },
                ),
                ..pre
            },
            AppAction::SetRunningProgress { block_ix, remaining_secs, countdown_run, countdown_phase } => match pre.running {
                Some(r0) => post == AppState {
                    running: Some(
                        RunningInfo {
                            current_block_index: block_ix,
                            remaining_secs,
                            countdown_run,
                            countdown_phase,
                            ..r0
                        },
                    ),
                    ..pre
                },
                None => post == pre,
            },
            AppAction::TimerExecutionComplete => match pre.running {
                Some(r0) => post == AppState {
                    running: Some(RunningInfo { is_complete: true, ..r0 }),
                    ..pre
                },
                None => post == pre,
            },
            AppAction::CloseRunningModal => post == AppState { running: None, ..pre },
            AppAction::TimerExecutionStopped => post == AppState { running: None, ..pre },
        }
    }

    /// Applies one action. The boolean result tells the caller to set
    /// the running timer's cancellation flag: the modal was closed
    /// while a run was shown.
    pub fn reduce(self, action: AppAction) -> (r: (AppState, bool))
        ensures
            Self::reduce_post(self, action, r.0, r.1),
    {
        let mut next = self;
        let mut cancel = false;
        match action {
            AppAction::SetTimers(timers) => {
                next.timers = timers;
            },
            AppAction::StartNewTimer => {
                if matches!(next.view, ViewMode::Builder) && next.form_dirty {
                    next.pending_navigation = Some(PendingNavigation::ToNewTimer);
                } else {
                    next.view = ViewMode::Builder;
                    next.validation_errors = Vec::new();
                    next.form_dirty = false;
                    next.editing_timer = Some(default_new_timer());
                }
            },
            AppAction::PreviewTimer(opt_id) => match opt_id {
                Some(id) => {
                    if matches!(next.view, ViewMode::Builder) && next.form_dirty {
                        next.pending_navigation = Some(PendingNavigation::ToViewTimer(id));
                    } else {
                        next.view = ViewMode::ViewTimer(id);
                    }
                },
                None => {
                    next.view = ViewMode::NoContent;
                },
            },
            AppAction::EditTimer(id) => {
                if matches!(next.view, ViewMode::Builder) && next.form_dirty {
                    next.pending_navigation = Some(PendingNavigation::ToEditTimer(id));
                } else {
                    match find_timer(&next.timers, &id) {
                        Some(i) => {
                            proof {
                                lemma_found_is_first(next.timers@, id@, i as int);
                            }
                            next.view = ViewMode::Builder;
                            next.validation_errors = Vec::new();
                            next.form_dirty = false;
                            next.editing_timer = Some(clone_config(&next.timers[i]));
                        },
                        None => {
                            proof {
                                lemma_found_none(next.timers@, id@);
                            }
                        },
                    }
                }
            },
            AppAction::SetTimerName(name) => match &mut next.editing_timer {
                Some(t) => {
                    t.name = name;
                    next.form_dirty = true;
                },
                None => {},
            },
            AppAction::AddBlock(block, index) => match &mut next.editing_timer {
                Some(t) => {
                    add_block(&mut t.blocks, block, index);
                    next.form_dirty = true;
                },
                None => {},
            },
            AppAction::RemoveBlock(index) => match &mut next.editing_timer {
                Some(t) => {
                    if remove_block(&mut t.blocks, index) {
                        next.form_dirty = true;
                    }
                },
                None => {},
            },
            AppAction::UpdateBlock(index, block) => match &mut next.editing_timer {
                Some(t) => {
                    if update_block(&mut t.blocks, index, block) {
                        next.form_dirty = true;
                    }
                },
                None => {},
            },
            AppAction::MoveBlock { from, to } => match &mut next.editing_timer {
                Some(t) => {
                    if move_block(&mut t.blocks, from, to) {
                        next.form_dirty = true;
                    }
                },
                None => {},
            },
            AppAction::StartDraggingBlock(index) => {
                next.dragging_block_index = Some(index);
                next.dragging_new_block = None;
            },
            AppAction::StartDraggingNewBlock(block_type) => {
                next.dragging_new_block = Some(block_type);
                next.dragging_block_index = None;
            },
            AppAction::StopDragging => {
                next.dragging_block_index = None;
                next.dragging_new_block = None;
            },
            AppAction::SaveSuccess(timer) => {
                next.last_saved_id = Some(timer.id.clone());
                let stored = clone_config(&timer);
                let ghost pretimers = next.timers@;
                let found = store_saved_timer(&mut next.timers, stored);
                proof {
                    match found {
                        Some(i) => {
                            lemma_found_is_first(pretimers, timer.id@, i as int);
                            assert(next.timers@[i as int] == stored);
                            assert(config_like(next.timers@[i as int], timer));
                            assert(exists|w: int|
                                {
                                    &&& 0 <= w < pretimers.len()
                                    &&& pretimers[w].id@ == timer.id@
                                    &&& (forall|j: int|
                                        0 <= j < w ==> pretimers[j].id@ != timer.id@)
                                    &&& next.timers@.len() == pretimers.len()
                                    &&& config_like(#[trigger] next.timers@[w], timer)
                                    &&& (forall|j: int|
                                        0 <= j < pretimers.len() && j != w
                                            ==> next.timers@[j] == pretimers[j])
                                }) by {
                                assert((i as int) < pretimers.len());
                            }
                        },
                        None => {
                            lemma_found_none(pretimers, timer.id@);
                        },
                    }
                }
                next.editing_timer = Some(timer);
                next.validation_errors = Vec::new();
                next.form_dirty = false;
            },
            AppAction::SetValidationErrors(errors) => {
                next.validation_errors = errors;
            },
            AppAction::ConfirmDiscard => {
                let pending = next.pending_navigation.take();
                match pending {
                    Some(p) => {
                        next.form_dirty = false;
                        next.validation_errors = Vec::new();
                        match p {
                            PendingNavigation::ToViewTimer(id) => {
                                next.view = ViewMode::ViewTimer(id);
                            },
                            PendingNavigation::ToEditTimer(id) => {
                                match find_timer(&next.timers, &id) {
                                    Some(i) => {
                                        proof {
                                            lemma_found_is_first(next.timers@, id@, i as int);
                                        }
                                        next.view = ViewMode::Builder;
                                        next.editing_timer = Some(
                                            clone_config(&next.timers[i]),
                                        );
                                    },
                                    None => {
                                        proof {
                                            lemma_found_none(next.timers@, id@);
                                        }
                                    },
                                }
                            },
                            PendingNavigation::ToNewTimer => {
                                next.view = ViewMode::Builder;
                                next.editing_timer = Some(default_new_timer());
                            },
                        }
                    },
                    None => {},
                }
            },
            AppAction::CancelNavigate => {
                next.pending_navigation = None;
                next.focus_builder_name = true;
            },
            AppAction::ClearFocusBuilderName => {
                next.focus_builder_name = false;
            },
            AppAction::StartTimerExecution(timer) => {
                next.running = Some(
                    RunningInfo {
                        timer,
                        current_block_index: 0,
                        remaining_secs: 0,
                        is_complete: false,
                        countdown_run: None,
                        countdown_phase: None,
                    },
                );
            },
            AppAction::SetRunningProgress {
                block_ix,
                remaining_secs,
                countdown_run,
                countdown_phase,
            } => match &mut next.running {
                Some(r) => {
                    r.current_block_index = block_ix;
                    r.remaining_secs = remaining_secs;
                    r.countdown_run = countdown_run;
                    r.countdown_phase = countdown_phase;
                },
                None => {},
            },
            AppAction::TimerExecutionComplete => match &mut next.running {
                Some(r) => {
                    r.is_complete = true;
                },
                None => {},
            },
            AppAction::CloseRunningModal => {
                if next.running.is_some() {
                    cancel = true;
                }
                next.running = None;
            },
            AppAction::TimerExecutionStopped => {
                next.running = None;
            },
        }
        (next, cancel)
    }
}

/// A linear search that stops at the first position whose timer has
/// the id finds exactly what `found_timer` names.
proof fn lemma_found_is_first(timers: Seq<TimerConfig>, id: Seq<char>, i: int)
    requires
        0 <= i < timers.len(),
        timers[i].id@ == id,
        forall|j: int| 0 <= j < i ==> timers[j].id@ != id,
    ensures
        found_timer(timers, id) == Some(timers[i]),
    decreases i,
{
    if i > 0 {
        let rest = timers.skip(1);
        assert forall|j: int| 0 <= j < i - 1 implies rest[j].id@ != id by {
            assert(rest[j] == timers[j + 1]);
        }
        assert(rest[i - 1] == timers[i]);
        lemma_found_is_first(rest, id, i - 1);
    }
}

/// A search that matched nothing means `found_timer` names nothing.
proof fn lemma_found_none(timers: Seq<TimerConfig>, id: Seq<char>)
    requires
        forall|j: int| 0 <= j < timers.len() ==> timers[j].id@ != id,
    ensures
        found_timer(timers, id) is None,
    decreases timers.len(),
{
    if timers.len() > 0 {
        let rest = timers.skip(1);
        assert forall|j: int| 0 <= j < rest.len() implies rest[j].id@ != id by {
            assert(rest[j] == timers[j + 1]);
        }
        lemma_found_none(rest, id);
    }
}

} // verus!
