use nekotimer::model::{CountdownBlock, TimerBlock, TimerConfig, WaitBlock};
use nekotimer::validate::is_japanese;

fn wblock(minutes: u32, seconds: u32) -> TimerBlock {
    TimerBlock::Wait(WaitBlock { name: "w".to_string(), minutes, seconds })
}

fn cblock(
    minutes: u32,
    seconds: u32,
    repeat_count: u32,
    interval_minutes: u32,
    interval_seconds: u32,
) -> TimerBlock {
    TimerBlock::Countdown(CountdownBlock {
        name: "c".to_string(),
        minutes,
        seconds,
        repeat_count,
        interval_minutes,
        interval_seconds,
    })
}

fn make_config(name: &str, blocks: Vec<TimerBlock>) -> TimerConfig {
    TimerConfig { id: "t1".to_string(), name: name.to_string(), blocks }
}

#[test]
fn accepts_a_plain_valid_config() {
    let cfg = make_config("My Timer_1", vec![wblock(0, 10)]);
    assert!(cfg.validate().is_ok());
}

#[test]
fn accepts_japanese_names() {
    let cfg = make_config("タイマー１", vec![wblock(0, 10)]);
    assert!(cfg.validate().is_ok());
}

#[test]
fn rejects_an_empty_name() {
    let cfg = make_config("", vec![wblock(0, 10)]);
    let errs = cfg.validate().unwrap_err();
    assert_eq!(errs.len(), 1);
    assert_eq!(errs[0].field, "name");
    assert_eq!(errs[0].message, "タイマー名は必須です");
}

#[test]
fn rejects_a_name_longer_than_64_chars() {
    let cfg = make_config(&"あ".repeat(65), vec![wblock(0, 10)]);
    let errs = cfg.validate().unwrap_err();
    assert_eq!(errs.len(), 1);
    assert_eq!(errs[0].field, "name");
    assert_eq!(errs[0].message, "タイマー名は64文字以内にしてください");
}

#[test]
fn accepts_a_name_of_exactly_64_chars() {
    let cfg = make_config(&"a".repeat(64), vec![wblock(0, 10)]);
    assert!(cfg.validate().is_ok());
}

#[test]
fn rejects_the_first_invalid_character_only() {
    let cfg = make_config("ab!cd%", vec![wblock(0, 10)]);
    let errs = cfg.validate().unwrap_err();
    assert_eq!(errs.len(), 1);
    assert_eq!(errs[0].field, "name");
    assert_eq!(errs[0].message, "タイマー名に無効な文字が含まれています: '!'");
}

#[test]
fn rejects_an_empty_block_list() {
    let cfg = make_config("timer", vec![]);
    let errs = cfg.validate().unwrap_err();
    assert_eq!(errs.len(), 1);
    assert_eq!(errs[0].field, "blocks");
    assert_eq!(errs[0].message, "最低1つのブロックが必要です");
}

#[test]
fn rejects_out_of_range_wait_fields() {
    let cfg = make_config("timer", vec![wblock(1441, 0)]);
    let errs = cfg.validate().unwrap_err();
    assert_eq!(errs.len(), 2);
    assert_eq!(errs[0].field, "blocks[0].seconds");
    assert_eq!(errs[0].message, "待機秒は1〜59の範囲で入力してください");
    assert_eq!(errs[1].field, "blocks[0].minutes");
    assert_eq!(errs[1].message, "待機分は0〜1440の範囲で入力してください");
}

#[test]
fn rejects_wait_seconds_of_sixty() {
    let cfg = make_config("timer", vec![wblock(0, 60)]);
    let errs = cfg.validate().unwrap_err();
    assert_eq!(errs.len(), 1);
    assert_eq!(errs[0].field, "blocks[0].seconds");
}

#[test]
fn rejects_every_out_of_range_countdown_field() {
    let cfg = make_config("timer", vec![cblock(1441, 60, 101, 1441, 60)]);
    let errs = cfg.validate().unwrap_err();
    let fields: Vec<&str> = errs.iter().map(|e| e.field.as_str()).collect();
    assert_eq!(
        fields,
        vec![
            "blocks[0].seconds",
            "blocks[0].minutes",
            "blocks[0].repeat_count",
            "blocks[0].interval_minutes",
            "blocks[0].interval_seconds",
        ]
    );
    assert_eq!(errs[2].message, "繰り返し回数は0〜100の範囲で入力してください");
    assert_eq!(errs[3].message, "インターバル分は0〜1440の範囲で入力してください");
    assert_eq!(errs[4].message, "インターバル秒は0〜59の範囲で入力してください");
    assert_eq!(errs[1].message, "カウントダウン分は0〜1440の範囲で入力してください");
    assert_eq!(errs[0].message, "カウントダウン秒は1〜59の範囲で入力してください");
}

#[test]
fn accepts_boundary_countdown_values() {
    let cfg = make_config("timer", vec![cblock(1440, 59, 100, 1440, 59)]);
    assert!(cfg.validate().is_ok());
    let cfg0 = make_config("timer", vec![cblock(0, 1, 0, 0, 0)]);
    assert!(cfg0.validate().is_ok());
}

#[test]
fn reports_block_errors_with_their_index() {
    let mut blocks = Vec::new();
    for _ in 0..10 {
        blocks.push(wblock(0, 10));
    }
    blocks.push(wblock(0, 0));
    let cfg = make_config("timer", blocks);
    let errs = cfg.validate().unwrap_err();
    assert_eq!(errs.len(), 1);
    assert_eq!(errs[0].field, "blocks[10].seconds");
}

#[test]
fn collects_name_and_block_errors_in_order() {
    let cfg = make_config("", vec![wblock(0, 0)]);
    let errs = cfg.validate().unwrap_err();
    assert_eq!(errs.len(), 2);
    assert_eq!(errs[0].field, "name");
    assert_eq!(errs[1].field, "blocks[0].seconds");
}

#[test]
fn japanese_ranges_cover_kana_and_ideographs() {
    assert!(is_japanese('あ'));
    assert!(is_japanese('ン'));
    assert!(is_japanese('猫'));
    assert!(is_japanese('１'));
    assert!(!is_japanese('a'));
    assert!(!is_japanese('!'));
}
