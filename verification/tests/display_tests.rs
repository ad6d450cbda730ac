use nekotimer::display::{
    block_config_line, block_detail_line, block_type_name, default_countdown_block,
    default_wait_block, extract_errors, format_countdown_line, format_errors, format_wait_line,
};
use nekotimer::events::CueKind;
use nekotimer::events::cue_sound_path;
use nekotimer::model::{
    block_initial_remaining, block_name, is_countdown_block, ApiResponse, CountdownBlock,
    TimerBlock, TimerConfig, ValidationError, WaitBlock,
};
use nekotimer::text::u64_dec_string;

fn wait(minutes: u32, seconds: u32) -> WaitBlock {
    WaitBlock { name: "朝の待機".to_string(), minutes, seconds }
}

fn countdown() -> CountdownBlock {
    CountdownBlock {
        name: "運動".to_string(),
        minutes: 1,
        seconds: 30,
        repeat_count: 4,
        interval_minutes: 0,
        interval_seconds: 15,
    }
}

#[test]
fn decimal_rendering_matches_std() {
    assert_eq!(u64_dec_string(0), "0");
    assert_eq!(u64_dec_string(7), "7");
    assert_eq!(u64_dec_string(10), "10");
    assert_eq!(u64_dec_string(1440), "1440");
    assert_eq!(u64_dec_string(1234567890), "1234567890");
    assert_eq!(u64_dec_string(u64::MAX), u64::MAX.to_string());
}

#[test]
fn wait_line_shows_minutes_and_seconds() {
    assert_eq!(format_wait_line(&wait(2, 5)), "2分5秒 待機");
}

#[test]
fn countdown_line_shows_all_fields() {
    assert_eq!(
        format_countdown_line(&countdown()),
        "1分30秒 カウントダウン、4回繰り返し (インターバル待機: 0分15秒)"
    );
}

#[test]
fn config_line_differs_by_block_kind() {
    assert_eq!(block_config_line(&TimerBlock::Wait(wait(0, 45))), "0分45秒 ウェイト");
    assert_eq!(
        block_config_line(&TimerBlock::Countdown(countdown())),
        "1分30秒 カウントダウン (繰り返し4回, インターバル 0分15秒)"
    );
}

#[test]
fn detail_line_follows_the_block_kind() {
    assert_eq!(block_detail_line(&TimerBlock::Wait(wait(2, 5))), "2分5秒 待機");
    assert_eq!(
        block_detail_line(&TimerBlock::Countdown(countdown())),
        "1分30秒 カウントダウン、4回繰り返し (インターバル待機: 0分15秒)"
    );
}

#[test]
fn type_names_and_block_names() {
    let w = TimerBlock::Wait(wait(0, 1));
    let c = TimerBlock::Countdown(countdown());
    assert_eq!(block_type_name(&w), "待機");
    assert_eq!(block_type_name(&c), "カウントダウン");
    assert_eq!(block_name(&w), "朝の待機");
    assert_eq!(block_name(&c), "運動");
    assert!(!is_countdown_block(&w));
    assert!(is_countdown_block(&c));
}

#[test]
fn initial_remaining_is_the_first_phase_duration() {
    assert_eq!(block_initial_remaining(&TimerBlock::Wait(wait(2, 5))), 125);
    assert_eq!(block_initial_remaining(&TimerBlock::Countdown(countdown())), 90);
    assert_eq!(
        block_initial_remaining(&TimerBlock::Wait(WaitBlock {
            name: String::new(),
            minutes: u32::MAX,
            seconds: u32::MAX,
        })),
        u32::MAX as u64 * 60 + u32::MAX as u64
    );
}

#[test]
fn default_blocks_match_the_palette() {
    match default_wait_block() {
        TimerBlock::Wait(w) => {
            assert_eq!(w.name, "");
            assert_eq!(w.minutes, 0);
            assert_eq!(w.seconds, 10);
        }
        _ => panic!("expected a wait block"),
    }
    match default_countdown_block() {
        TimerBlock::Countdown(c) => {
            assert_eq!(c.name, "");
            assert_eq!(c.minutes, 1);
            assert_eq!(c.seconds, 0);
            assert_eq!(c.repeat_count, 1);
            assert_eq!(c.interval_minutes, 0);
            assert_eq!(c.interval_seconds, 10);
        }
        _ => panic!("expected a countdown block"),
    }
}

#[test]
fn cue_sound_paths_are_fixed() {
    assert_eq!(cue_sound_path(CueKind::Tick), "/sound/tick.mp3");
    assert_eq!(cue_sound_path(CueKind::BlockEnd), "/sound/block_end.mp3");
    assert_eq!(cue_sound_path(CueKind::AllEnd), "/sound/all_end.mp3");
    assert_eq!(cue_sound_path(CueKind::Transition), "/sound/countdown_blk_next.mp3");
}

#[test]
fn api_response_errors_format_into_one_line() {
    let resp: ApiResponse<TimerConfig> = ApiResponse {
        success: false,
        data: None,
        errors: Some(vec![
            ValidationError { field: "name".to_string(), message: "一つ目".to_string() },
            ValidationError { field: "blocks".to_string(), message: "二つ目".to_string() },
        ]),
    };
    assert_eq!(format_errors(resp.errors.clone()), "一つ目, 二つ目");
    assert_eq!(extract_errors(resp.errors), vec!["一つ目", "二つ目"]);
    assert_eq!(format_errors(None), "");
    assert!(extract_errors(None).is_empty());
}
