use nekotimer::editing::{add_block, move_block, remove_block, store_saved_timer, update_block};
use nekotimer::model::{TimerBlock, TimerConfig, TimerConfigFile, WaitBlock};
use nekotimer::store::{
    create_timer, create_validated_timer, delete_timer, find_timer, get_timer, update_timer,
    update_validated_timer,
};

fn stimer(id: &str, name: &str) -> TimerConfig {
    TimerConfig { id: id.to_string(), name: name.to_string(), blocks: vec![swait(0, 10)] }
}

fn swait(minutes: u32, seconds: u32) -> TimerBlock {
    TimerBlock::Wait(WaitBlock { name: String::new(), minutes, seconds })
}

#[test]
fn create_then_get_round_trip() {
    let mut file = TimerConfigFile { timers: Vec::new() };
    assert!(create_timer(&mut file, stimer("a", "first")));
    assert!(create_timer(&mut file, stimer("b", "second")));
    let id = "b".to_string();
    let found = get_timer(&file, &id).unwrap();
    assert_eq!(found.name, "second");
    let missing = "c".to_string();
    assert!(get_timer(&file, &missing).is_none());
}

#[test]
fn create_rejects_a_duplicate_name() {
    let mut file = TimerConfigFile { timers: Vec::new() };
    assert!(create_timer(&mut file, stimer("a", "same")));
    assert!(!create_timer(&mut file, stimer("b", "same")));
    assert_eq!(file.timers.len(), 1);
}

#[test]
fn update_replaces_by_id() {
    let mut file = TimerConfigFile { timers: vec![stimer("a", "old"), stimer("b", "other")] };
    let id = "a".to_string();
    assert!(update_timer(&mut file, &id, stimer("a", "new")));
    assert_eq!(file.timers[0].name, "new");
    assert_eq!(file.timers[1].name, "other");
    let missing = "zzz".to_string();
    assert!(!update_timer(&mut file, &missing, stimer("zzz", "nothing")));
    assert_eq!(file.timers.len(), 2);
}

#[test]
fn delete_removes_by_id() {
    let mut file = TimerConfigFile { timers: vec![stimer("a", "one"), stimer("b", "two")] };
    let id = "a".to_string();
    assert!(delete_timer(&mut file, &id));
    assert_eq!(file.timers.len(), 1);
    assert_eq!(file.timers[0].id, "b");
    assert!(!delete_timer(&mut file, &id));
    assert_eq!(file.timers.len(), 1);
}

#[test]
fn find_returns_the_first_match() {
    let file = TimerConfigFile { timers: vec![stimer("a", "one"), stimer("b", "two")] };
    let id = "b".to_string();
    assert_eq!(find_timer(&file.timers, &id), Some(1));
}

#[test]
fn add_block_clamps_the_index() {
    let mut blocks = vec![swait(0, 1), swait(0, 2)];
    add_block(&mut blocks, swait(0, 3), 99);
    assert_eq!(blocks.len(), 3);
    assert!(matches!(&blocks[2], TimerBlock::Wait(w) if w.seconds == 3));
    add_block(&mut blocks, swait(0, 4), 0);
    assert!(matches!(&blocks[0], TimerBlock::Wait(w) if w.seconds == 4));
}

#[test]
fn remove_block_keeps_at_least_one() {
    let mut blocks = vec![swait(0, 1), swait(0, 2)];
    assert!(remove_block(&mut blocks, 0));
    assert_eq!(blocks.len(), 1);
    assert!(!remove_block(&mut blocks, 0));
    assert_eq!(blocks.len(), 1);
    assert!(!remove_block(&mut blocks, 5));
}

#[test]
fn update_block_replaces_in_place() {
    let mut blocks = vec![swait(0, 1), swait(0, 2)];
    assert!(update_block(&mut blocks, 1, swait(0, 9)));
    assert!(matches!(&blocks[1], TimerBlock::Wait(w) if w.seconds == 9));
    assert!(!update_block(&mut blocks, 7, swait(0, 9)));
}

#[test]
fn move_block_adjusts_for_the_removed_slot() {
    // Dragging block 0 to drop position 2 puts it after the old block 1.
    let mut blocks = vec![swait(0, 1), swait(0, 2), swait(0, 3)];
    assert!(move_block(&mut blocks, 0, 2));
    let secs: Vec<u32> = blocks
        .iter()
        .map(|b| match b {
            TimerBlock::Wait(w) => w.seconds,
            _ => 0,
        })
        .collect();
    assert_eq!(secs, vec![2, 1, 3]);
    // Dragging block 2 to drop position 0 puts it first.
    let mut blocks2 = vec![swait(0, 1), swait(0, 2), swait(0, 3)];
    assert!(move_block(&mut blocks2, 2, 0));
    let secs2: Vec<u32> = blocks2
        .iter()
        .map(|b| match b {
            TimerBlock::Wait(w) => w.seconds,
            _ => 0,
        })
        .collect();
    assert_eq!(secs2, vec![3, 1, 2]);
    assert!(!move_block(&mut blocks2, 9, 0));
}

#[test]
fn store_saved_timer_replaces_or_appends() {
    let mut timers = vec![stimer("a", "one")];
    assert_eq!(store_saved_timer(&mut timers, stimer("a", "renamed")), Some(0));
    assert_eq!(timers.len(), 1);
    assert_eq!(timers[0].name, "renamed");
    assert_eq!(store_saved_timer(&mut timers, stimer("b", "two")), None);
    assert_eq!(timers.len(), 2);
    assert_eq!(timers[1].id, "b");
}

#[test]
fn validated_create_refuses_invalid_configs() {
    let mut file = TimerConfigFile { timers: Vec::new() };
    let bad = TimerConfig { id: "x".to_string(), name: String::new(), blocks: vec![swait(0, 10)] };
    let errs = create_validated_timer(&mut file, bad).unwrap_err();
    assert_eq!(errs.len(), 1);
    assert_eq!(errs[0].field, "name");
    assert_eq!(errs[0].message, "タイマー名は必須です");
    assert!(file.timers.is_empty());
}

#[test]
fn validated_create_refuses_duplicate_names_and_stores_valid_ones() {
    let mut file = TimerConfigFile { timers: Vec::new() };
    assert!(create_validated_timer(&mut file, stimer("a", "same")).is_ok());
    let errs = create_validated_timer(&mut file, stimer("b", "same")).unwrap_err();
    assert_eq!(errs.len(), 1);
    assert_eq!(errs[0].field, "name");
    assert_eq!(errs[0].message, "同じ名前のタイマーが既に存在します");
    assert_eq!(file.timers.len(), 1);
}

#[test]
fn validated_update_overwrites_the_id_and_gates_on_validation() {
    let mut file = TimerConfigFile { timers: vec![stimer("a", "old")] };
    let id = "a".to_string();
    let bad = TimerConfig { id: "whatever".to_string(), name: "x".to_string(), blocks: vec![] };
    let errs = update_validated_timer(&mut file, &id, bad).unwrap_err();
    assert_eq!(errs[0].field, "blocks");
    assert_eq!(file.timers[0].name, "old");
    assert!(update_validated_timer(&mut file, &id, stimer("ignored", "new")).is_ok());
    assert_eq!(file.timers.len(), 1);
    assert_eq!(file.timers[0].id, "a");
    assert_eq!(file.timers[0].name, "new");
    let missing = "zzz".to_string();
    let errs2 = update_validated_timer(&mut file, &missing, stimer("zzz", "nothing")).unwrap_err();
    assert_eq!(errs2.len(), 1);
    assert_eq!(errs2[0].field, "id");
    assert_eq!(errs2[0].message, "タイマーが見つかりません");
    assert_eq!(file.timers.len(), 1);
}
