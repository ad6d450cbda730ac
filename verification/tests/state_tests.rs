use nekotimer::events::{CountdownPhase, CountdownRun};
use nekotimer::model::{TimerBlock, TimerConfig, WaitBlock};
use nekotimer::state::{AppAction, AppState, PendingNavigation, ViewMode};

fn wsec(seconds: u32) -> TimerBlock {
    TimerBlock::Wait(WaitBlock { name: String::new(), minutes: 0, seconds })
}

fn mk_timer(id: &str, name: &str) -> TimerConfig {
    TimerConfig { id: id.to_string(), name: name.to_string(), blocks: vec![wsec(10)] }
}

fn apply(state: AppState, action: AppAction) -> AppState {
    let (next, _) = state.reduce(action);
    next
}

#[test]
fn default_state_is_empty() {
    let s = AppState::default();
    assert!(s.timers.is_empty());
    assert!(matches!(s.view, ViewMode::NoContent));
    assert!(s.editing_timer.is_none());
    assert!(!s.form_dirty);
    assert!(s.running.is_none());
}

#[test]
fn start_new_timer_opens_the_builder_with_a_default_block() {
    let s = apply(AppState::default(), AppAction::StartNewTimer);
    assert!(matches!(s.view, ViewMode::Builder));
    let t = s.editing_timer.expect("builder should edit a timer");
    assert_eq!(t.id, "");
    assert_eq!(t.name, "");
    assert_eq!(t.blocks.len(), 1);
    match &t.blocks[0] {
        TimerBlock::Wait(w) => {
            assert_eq!(w.name, "default");
            assert_eq!(w.minutes, 0);
            assert_eq!(w.seconds, 10);
        }
        _ => panic!("expected a wait block"),
    }
}

#[test]
fn dirty_builder_holds_navigation_until_discard() {
    let mut s = apply(AppState::default(), AppAction::StartNewTimer);
    s = apply(s, AppAction::SetTimerName("draft".to_string()));
    assert!(s.form_dirty);
    s = apply(s, AppAction::PreviewTimer(Some("x".to_string())));
    assert!(matches!(s.view, ViewMode::Builder));
    assert!(matches!(s.pending_navigation, Some(PendingNavigation::ToViewTimer(ref id)) if id == "x"));
    s = apply(s, AppAction::ConfirmDiscard);
    assert!(s.pending_navigation.is_none());
    assert!(!s.form_dirty);
    assert!(matches!(s.view, ViewMode::ViewTimer(ref id) if id == "x"));
}

#[test]
fn cancel_navigate_keeps_the_builder_and_focuses_the_name() {
    let mut s = apply(AppState::default(), AppAction::StartNewTimer);
    s = apply(s, AppAction::SetTimerName("draft".to_string()));
    s = apply(s, AppAction::EditTimer("a".to_string()));
    assert!(matches!(s.pending_navigation, Some(PendingNavigation::ToEditTimer(_))));
    s = apply(s, AppAction::CancelNavigate);
    assert!(s.pending_navigation.is_none());
    assert!(s.focus_builder_name);
    let s2 = apply(s, AppAction::ClearFocusBuilderName);
    assert!(!s2.focus_builder_name);
}

#[test]
fn edit_timer_clones_the_stored_timer() {
    let mut s = AppState::default();
    s = apply(s, AppAction::SetTimers(vec![mk_timer("a", "first"), mk_timer("b", "second")]));
    s = apply(s, AppAction::EditTimer("b".to_string()));
    assert!(matches!(s.view, ViewMode::Builder));
    assert_eq!(s.editing_timer.as_ref().unwrap().name, "second");
    let before = s.clone();
    let after = apply(s, AppAction::EditTimer("missing".to_string()));
    assert_eq!(before.editing_timer, after.editing_timer);
}

#[test]
fn block_edits_mark_the_form_dirty() {
    let mut s = apply(AppState::default(), AppAction::StartNewTimer);
    s = apply(s, AppAction::AddBlock(wsec(3), 99));
    assert!(s.form_dirty);
    assert_eq!(s.editing_timer.as_ref().unwrap().blocks.len(), 2);
    s = apply(s, AppAction::UpdateBlock(0, wsec(7)));
    assert!(
        matches!(&s.editing_timer.as_ref().unwrap().blocks[0], TimerBlock::Wait(w) if w.seconds == 7)
    );
    s = apply(s, AppAction::MoveBlock { from: 0, to: 2 });
    assert!(
        matches!(&s.editing_timer.as_ref().unwrap().blocks[1], TimerBlock::Wait(w) if w.seconds == 7)
    );
    s = apply(s, AppAction::RemoveBlock(0));
    assert_eq!(s.editing_timer.as_ref().unwrap().blocks.len(), 1);
    // The last block stays.
    s = apply(s, AppAction::RemoveBlock(0));
    assert_eq!(s.editing_timer.as_ref().unwrap().blocks.len(), 1);
}

#[test]
fn save_success_stores_and_keeps_editing() {
    let mut s = AppState::default();
    s = apply(s, AppAction::SetTimers(vec![mk_timer("a", "first")]));
    s = apply(s, AppAction::SaveSuccess(mk_timer("a", "renamed")));
    assert_eq!(s.timers.len(), 1);
    assert_eq!(s.timers[0].name, "renamed");
    assert_eq!(s.last_saved_id.as_deref(), Some("a"));
    assert_eq!(s.editing_timer.as_ref().unwrap().name, "renamed");
    assert!(!s.form_dirty);
    s = apply(s, AppAction::SaveSuccess(mk_timer("b", "new one")));
    assert_eq!(s.timers.len(), 2);
    assert_eq!(s.timers[1].id, "b");
}

#[test]
fn dragging_state_is_exclusive() {
    let mut s = AppState::default();
    s = apply(s, AppAction::StartDraggingBlock(2));
    assert_eq!(s.dragging_block_index, Some(2));
    assert!(s.dragging_new_block.is_none());
    s = apply(s, AppAction::StartDraggingNewBlock("wait".to_string()));
    assert!(s.dragging_block_index.is_none());
    assert_eq!(s.dragging_new_block.as_deref(), Some("wait"));
    s = apply(s, AppAction::StopDragging);
    assert!(s.dragging_block_index.is_none());
    assert!(s.dragging_new_block.is_none());
}

#[test]
fn running_modal_lifecycle_signals_cancellation_once() {
    let mut s = AppState::default();
    s = apply(s, AppAction::StartTimerExecution(mk_timer("a", "run me")));
    assert!(s.running.is_some());
    s = apply(
        s,
        AppAction::SetRunningProgress {
            block_ix: 1,
            remaining_secs: 42,
            countdown_run: Some(CountdownRun { current: 1, total: 3 }),
            countdown_phase: Some(CountdownPhase::Interval),
        },
    );
    let r = s.running.as_ref().unwrap();
    assert_eq!(r.current_block_index, 1);
    assert_eq!(r.remaining_secs, 42);
    assert_eq!(r.countdown_run, Some(CountdownRun { current: 1, total: 3 }));
    assert_eq!(r.countdown_phase, Some(CountdownPhase::Interval));
    let (closed, cancel) = s.reduce(AppAction::CloseRunningModal);
    assert!(cancel);
    assert!(closed.running.is_none());
    let (again, cancel_again) = closed.reduce(AppAction::CloseRunningModal);
    assert!(!cancel_again);
    assert!(again.running.is_none());
}

#[test]
fn completion_marks_the_modal_and_stopped_clears_it() {
    let mut s = AppState::default();
    s = apply(s, AppAction::StartTimerExecution(mk_timer("a", "run me")));
    s = apply(s, AppAction::TimerExecutionComplete);
    assert!(s.running.as_ref().unwrap().is_complete);
    let (stopped, cancel) = s.reduce(AppAction::TimerExecutionStopped);
    assert!(!cancel);
    assert!(stopped.running.is_none());
}
