use smabrog::capture::{
    CaptureBase, CaptureDC, CaptureFromEmpty, CaptureLabels, CaptureMode, Codec, DcSource, Frame, MatStep, Rect,
    WrappedCodec, CAP_ANY, CAP_IMAGES,
};
use smabrog::data::{BattleRule, PlayerGroup, SmashbrosData};
use smabrog::engine::{check_capture_mode, Refresh, SmashBrogEngine};
use smabrog::frame_store::{CaptureFrameStore, RecordStep};
use smabrog::guesser::ValueGuesser;
use smabrog::parse::{parse_i32, parse_u64, usize_text};
use smabrog::reading::{
    capture_result_stock, capture_result_stock_from_counts, captured_character_name, captured_convert_number,
    captured_order, captured_power, captured_power_from_readings, captured_rule, captured_rule_clauses,
    captured_stamina, captured_stock, captured_stock_number, captured_stock_number_from_readings, captured_time,
    captured_time_from_reading, captured_time_with_sec, character_name_reading, rule_areas, RuleTexts,
};
use smabrog::scene::{
    continue_match, game_playing_reads_stock, stock_alert_due, ham_vs_spam_found, ham_vs_spam_reads, matching_found, result_found,
    result_reads, to_scene, GameStartGate, ReadyToFightGate, RecordAction, SceneList, SceneManager, UnknownScene,
};
use smabrog::sound::{is_playable_extension, SoundManager};
use smabrog::stats::{count_wins_by_character, count_wins_by_data_list, last_power, win_lose_by_data_list, win_streak};
use smabrog::style::{get_small_caption, Pane, PaneType, Rgb, TitleBar};
use smabrog::wasapi::{
    available_space_in_frames, check_read_length, check_write_length, find_device_by_name, take_queued_bytes, next_packet_frames, share_mode_value, stream_flags, BufferFlags, Direction,
    SampleType, SessionState, ShareMode, WasapiError,
};

fn battle(player_count: i32) -> SmashbrosData {
    let mut d = SmashbrosData::new();
    d.initialize_battle_at(player_count, 0, None);
    d
}

fn finished_battle(opponent: &str, order0: i32, order1: i32) -> SmashbrosData {
    let mut d = battle(2);
    d.set_character(0, "MARIO".to_string());
    d.set_character(1, opponent.to_string());
    d.set_order(0, order0);
    d.set_order(1, order1);
    d
}

fn frame(rows: Vec<Vec<u8>>, width: i32) -> Frame {
    Frame { width, height: rows.len() as i32, channels: 1, rows }
}

fn labels() -> CaptureLabels {
    CaptureLabels {
        empty: "Empty".to_string(),
        desktop: "Desktop".to_string(),
        video_device: "Video device".to_string(),
        window: "Window".to_string(),
    }
}

// ---- the value guesser ----

#[test]
fn guesser_keeps_most_frequent_value() {
    let mut g = ValueGuesser::new(-1);
    g.guess(&1);
    g.guess(&2);
    g.guess(&2);
    assert_eq!(g.get(), 2);
    assert!(!g.is_decided());
}

#[test]
fn guesser_decides_at_border() {
    let mut g = ValueGuesser::new(-1);
    for _ in 0..4 {
        g.guess(&7);
    }
    assert!(!g.is_decided());
    g.guess(&7);
    assert!(g.is_decided());
    assert_eq!(g.get(), 7);
}

#[test]
fn guesser_decided_ignores_observations() {
    let mut g = ValueGuesser::new(-1).set_border(2);
    g.set(3);
    assert!(g.is_decided());
    for _ in 0..10 {
        g.guess(&4);
    }
    assert_eq!(g.get(), 3);
}

#[test]
fn guesser_first_to_reach_top_count_stays() {
    let mut g = ValueGuesser::new(-1);
    g.guess(&1);
    g.guess(&2);
    assert_eq!(g.get(), 1);
}

// ---- parsing ----

#[test]
fn parse_numbers_like_std() {
    assert_eq!(parse_u64("42"), Some(42));
    assert_eq!(parse_u64("+7"), Some(7));
    assert_eq!(parse_u64(""), None);
    assert_eq!(parse_u64("4a"), None);
    assert_eq!(parse_u64("18446744073709551615"), Some(u64::MAX));
    assert_eq!(parse_u64("18446744073709551616"), None);
    assert_eq!(parse_i32("-5"), Some(-5));
    assert_eq!(parse_i32("2147483647"), Some(i32::MAX));
    assert_eq!(parse_i32("-2147483648"), Some(i32::MIN));
    assert_eq!(parse_i32("2147483648"), None);
    assert_eq!(parse_i32("-"), None);
}

// ---- the battle record ----

#[test]
fn initialize_battle_sets_up_players() {
    let d = battle(2);
    assert_eq!(d.get_player_count(), 2);
    assert_eq!(d.get_character(0), "unknown");
    assert_eq!(d.get_group(0), PlayerGroup::Red);
    assert_eq!(d.get_group(1), PlayerGroup::Blue);
    assert_eq!(d.get_stock(0), -1);
    assert_eq!(d.get_order(1), -1);
    assert_eq!(d.get_max_stock(0), -1);
    assert!(d.get_id().is_none());
}

#[test]
fn time_limit_once_known_is_kept() {
    let mut d = battle(2);
    d.set_rule(BattleRule::Stock);
    d.guess_max_time(300);
    assert_eq!(d.get_max_time(), 300);
    d.guess_max_time(400);
    assert_eq!(d.get_max_time(), 300);
}

#[test]
fn time_limit_outside_rule_is_refused() {
    let mut d = battle(2);
    d.set_rule(BattleRule::Time);
    d.guess_max_time(600);
    assert!(!d.is_decided_max_time());
    d.guess_max_time(150);
    assert_eq!(d.get_max_time(), 150);
}

#[test]
fn stock_outside_rule_is_refused() {
    let mut d = battle(2);
    d.set_rule(BattleRule::Stock);
    d.guess_stock(0, 5);
    assert_eq!(d.get_stock(0), -1);
    d.guess_stock(0, 2);
    assert_eq!(d.get_stock(0), 2);
}

#[test]
fn one_on_one_orders_complement() {
    let mut d = battle(2);
    for _ in 0..5 {
        d.guess_order(0, 1);
    }
    assert!(d.is_decided_order(0));
    assert!(d.is_decided_order(1));
    assert_eq!(d.get_order(0), 1);
    assert_eq!(d.get_order(1), 2);
    // the last placed player has no stock left
    assert_eq!(d.get_stock(1), 0);
}

#[test]
fn finished_battle_is_saved_on_finalize() {
    let mut d = battle(2);
    d.start_battle_at(10);
    d.finish_battle_at(20);
    assert!(d.is_finished_battle_at(20));
    assert!(!d.is_playing_battle_at(20));
    assert!(d.is_playing_battle_at(15));
    d.save_battle_at(30, Some("abc".to_string()));
    assert_eq!(d.get_id(), Some("abc".to_string()));
    assert_eq!(d.get_saved_time(), Some(30));
}

#[test]
fn duplicate_copies_record() {
    let d = finished_battle("FOX", 1, 2);
    let c = d.duplicate();
    assert_eq!(c.get_character(1), "FOX");
    assert_eq!(c.get_order(0), 1);
    assert_eq!(c.get_player_count(), 2);
}

#[test]
fn initial_stocks_follow_stock_limit() {
    let mut d = battle(2);
    d.set_rule(BattleRule::Stock);
    d.set_max_stock(0, 3);
    d.set_max_stock(1, 2);
    d.set_initial_stocks();
    assert_eq!(d.get_stock(0), 3);
    assert_eq!(d.get_stock(1), 2);
}

// ---- reading recognised text ----

#[test]
fn convert_number_takes_first_group() {
    assert_eq!(captured_convert_number("  3 ", "\\s*(\\d)\\s*"), Some("3".to_string()));
    assert_eq!(captured_convert_number("abc", "\\s*(\\d)\\s*"), None);
    assert_eq!(captured_convert_number(" 250 ", "\\s*(\\d+)\\s*"), Some("250".to_string()));
}

#[test]
fn time_from_minutes_text() {
    let mut d = battle(2);
    d.set_rule(BattleRule::Stock);
    captured_time(&mut d, " 5 ");
    assert_eq!(d.get_max_time(), 300);
}

#[test]
fn time_from_reading() {
    let mut d = battle(2);
    d.set_rule(BattleRule::Stock);
    captured_time_from_reading(&mut d, &Some("4".to_string()));
    assert_eq!(d.get_max_time(), 240);
}

#[test]
fn time_with_seconds() {
    let mut d = battle(2);
    d.set_rule(BattleRule::Time);
    captured_time_with_sec(&mut d, "2", "30");
    assert_eq!(d.get_max_time(), 150);
}

#[test]
fn stock_limit_for_all_players() {
    let mut d = battle(2);
    d.set_rule(BattleRule::Stock);
    captured_stock(&mut d, " 3 ");
    assert_eq!(d.get_max_stock(0), 3);
    assert_eq!(d.get_max_stock(1), 3);
    assert!(!d.is_decided_max_stock(0) || d.get_max_stock(0) == 3);
}

#[test]
fn stamina_limit_is_ten_times_reading() {
    let mut d = battle(2);
    d.set_rule(BattleRule::Stamina);
    captured_stamina(&mut d, "15");
    assert_eq!(d.get_max_hp(0), 150);
    assert_eq!(d.get_max_hp(1), 150);
}

#[test]
fn power_drops_non_digits() {
    let mut d = battle(2);
    let texts = vec!["12,345".to_string(), "abc".to_string()];
    let all = captured_power(&mut d, &texts);
    assert!(!all);
    assert_eq!(d.get_power(0), 12345);
    assert_eq!(d.get_power(1), -1);
}

#[test]
fn power_of_one_digit_is_ignored() {
    let mut d = battle(2);
    captured_power_from_readings(&mut d, &vec![9, 10]);
    assert_eq!(d.get_power(0), -1);
    assert_eq!(d.get_power(1), 10);
    let mut e = battle(2);
    e.guess_power(0, 50);
    assert_eq!(e.get_power(0), 50);
}

#[test]
fn hit_points_guessed_while_stock_limit_known() {
    let mut d = battle(2);
    d.set_rule(BattleRule::Stamina);
    d.set_max_stock(0, 2);
    assert_eq!(d.get_max_hp(0), -1);
    for _ in 0..5 {
        d.guess_max_hp(0, 150);
    }
    assert_eq!(d.get_max_hp(0), 150);
    // a known hit-point limit is not guessed again
    d.guess_max_hp(0, 200);
    assert_eq!(d.get_max_hp(0), 150);
}

#[test]
fn stock_numbers_during_battle() {
    let mut d = battle(2);
    let skipped = captured_stock_number(&mut d, &vec![" 2 ".to_string(), "x".to_string()]);
    assert!(!skipped);
    assert_eq!(d.get_stock(0), 2);
    assert_eq!(d.get_stock(1), -1);
    captured_stock_number_from_readings(&mut d, &vec![Some("2".to_string()), None]);
    assert!(d.is_decided_stock(0) || d.get_stock(0) == 2);
}

#[test]
fn stock_number_one_is_final() {
    let mut d = battle(2);
    d.set_stock(0, 1);
    d.set_stock(1, 1);
    assert!(captured_stock_number(&mut d, &vec!["3".to_string(), "3".to_string()]));
    assert_eq!(d.get_stock(0), 1);
}

#[test]
fn result_stock_needs_stock_limits_and_screen() {
    let mut d = battle(2);
    let texts = vec![
        ("1".to_string(), "0".to_string(), "0".to_string()),
        ("0".to_string(), "1".to_string(), "0".to_string()),
    ];
    assert!(!capture_result_stock(&mut d, true, &texts));
    assert_eq!(d.get_stock(0), -1);
    d.set_max_stock(0, 2);
    d.set_max_stock(1, 2);
    assert!(!capture_result_stock(&mut d, false, &texts));
    assert_eq!(d.get_stock(0), -1);
    capture_result_stock(&mut d, true, &texts);
    assert_eq!(d.get_stock(0), 2);
    assert_eq!(d.get_stock(1), 1);
}

#[test]
fn result_stock_counts_that_disagree_are_only_counted() {
    let mut d = battle(2);
    d.set_max_stock(0, 3);
    d.set_max_stock(1, 3);
    capture_result_stock_from_counts(&mut d, true, &vec![(1, 1, 0), (0, 0, 0)]);
    assert_eq!(d.get_stock(0), 2);
    assert_eq!(d.get_stock(1), 3);
    assert!(!d.is_decided_stock(0));
}

#[test]
fn result_stock_self_destructs_are_lost() {
    let mut d = battle(2);
    d.set_max_stock(0, 3);
    d.set_max_stock(1, 3);
    capture_result_stock_from_counts(&mut d, true, &vec![(0, 1, 1), (2, 0, 0)]);
    assert_eq!(d.get_stock(0), 1);
    assert_eq!(d.get_stock(1), 3);
}

#[test]
fn placings_from_found_marks() {
    let mut d = battle(2);
    let found = vec![vec![true, false], vec![false, true]];
    assert!(!captured_order(&mut d, &found));
    assert_eq!(d.get_order(0), 1);
    assert_eq!(d.get_order(1), 2);
    for _ in 0..4 {
        captured_order(&mut d, &found);
    }
    assert!(d.is_decided_order(0));
    assert!(d.is_decided_order(1));
}

#[test]
fn character_names_from_readings() {
    assert_eq!(character_name_reading("  MARIO  "), Some("MARIO".to_string()));
    assert_eq!(character_name_reading("   "), None);
    let mut d = battle(2);
    let list = vec!["MARIO".to_string(), "LUIGI".to_string()];
    let names = vec![Some("MARIO".to_string()), Some("LUIGl".to_string())];
    let best = vec![None, Some("LUIGI".to_string())];
    assert!(!captured_character_name(&mut d, &names, &list, &best));
    assert_eq!(d.get_character(0), "MARIO");
    assert!(d.is_decided_character_name(0));
    assert_eq!(d.get_character(1), "LUIGI");
    assert!(!d.is_decided_character_name(1));
}

#[test]
fn character_unknown_best_match_is_ignored() {
    let mut d = battle(2);
    let list = vec!["MARIO".to_string()];
    let names = vec![Some("XYZ".to_string()), None];
    let best = vec![Some("unknown".to_string()), None];
    captured_character_name(&mut d, &names, &list, &best);
    assert_eq!(d.get_character(0), "unknown");
}

#[test]
fn all_characters_decided_changes_nothing() {
    let mut d = battle(2);
    d.set_character(0, "MARIO".to_string());
    d.set_character(1, "FOX".to_string());
    let list = vec!["LUIGI".to_string()];
    let names = vec![Some("LUIGI".to_string()), Some("LUIGI".to_string())];
    assert!(captured_character_name(&mut d, &names, &list, &vec![None, None]));
    assert_eq!(d.get_character(0), "MARIO");
}

#[test]
fn rule_from_first_mark_found() {
    let mut d = battle(2);
    captured_rule(&mut d, false, true, true);
    assert_eq!(d.get_rule(), BattleRule::Time);
    captured_rule(&mut d, true, false, false);
    assert_eq!(d.get_rule(), BattleRule::Time);
    let areas = rule_areas(BattleRule::Time);
    assert_eq!(areas.sec_time, Some(Rect { x: 325, y: 332, width: 18, height: 20 }));
    assert_eq!(areas.stock, None);
    let stamina = rule_areas(BattleRule::Stamina);
    assert_eq!(stamina.hp, Some(Rect { x: 380, y: 332, width: 18, height: 20 }));
    assert_eq!(rule_areas(BattleRule::Unknown).time, None);
}

#[test]
fn rule_clauses_read_in_turn() {
    let mut d = battle(2);
    d.set_rule(BattleRule::Time);
    let texts = RuleTexts { time: Some("2".to_string()), sec_time: Some("30".to_string()), stock: None, hp: None };
    captured_rule_clauses(&mut d, &texts);
    assert_eq!(d.get_max_time(), 150);
    let mut s = battle(2);
    s.set_rule(BattleRule::Stock);
    let texts = RuleTexts { time: Some("7".to_string()), sec_time: None, stock: Some("2".to_string()), hp: None };
    captured_rule_clauses(&mut s, &texts);
    assert_eq!(s.get_max_time(), 420);
    assert_eq!(s.get_max_stock(1), 2);
}

// ---- statistics ----

#[test]
fn wins_and_battles() {
    let list = vec![
        finished_battle("KIRBY", 1, 2),
        finished_battle("KIRBY", 2, 1),
        finished_battle("FOX", 1, 2),
        battle(2),
    ];
    let (wins, battles) = count_wins_by_data_list(&list);
    assert_eq!((wins, battles), (2, 3));
    assert!(wins <= battles);
    // the record with unknown placings counts neither way
    assert_eq!(win_lose_by_data_list(&list), (2, 1));
    let by_chara = count_wins_by_character(&list);
    assert_eq!(
        by_chara,
        vec![
            ("KIRBY".to_string(), 1, 2),
            ("FOX".to_string(), 1, 1),
            ("unknown".to_string(), 0, 0),
        ]
    );
    let total: u64 = by_chara.iter().map(|e| e.2).sum();
    assert!(total <= battles);
}

#[test]
fn draws_are_not_counted() {
    let list = vec![finished_battle("FOX", 1, 1)];
    assert_eq!(count_wins_by_data_list(&list), (0, 0));
    assert_eq!(count_wins_by_data_list(&vec![]), (0, 0));
}

// ---- frames and capture ----

#[test]
fn frame_roi_cuts_rows() {
    let f = frame(vec![vec![1, 2, 3], vec![4, 5, 6]], 3);
    let cut = f.roi(Rect { x: 1, y: 0, width: 2, height: 2 }).unwrap();
    assert_eq!(cut.rows, vec![vec![2, 3], vec![5, 6]]);
    assert_eq!(cut.width, 2);
    assert!(f.roi(Rect { x: 2, y: 0, width: 2, height: 1 }).is_none());
    assert!(f.roi(Rect { x: -1, y: 0, width: 1, height: 1 }).is_none());
    let whole = f.roi(Rect { x: 0, y: 0, width: 3, height: 2 }).unwrap();
    assert_eq!(whole.rows, f.rows);
}

#[test]
fn zeroed_frame_and_empty_frame() {
    let z = Frame::new_zeroed(2, 3, 3);
    assert_eq!(z.rows, vec![vec![0u8; 9], vec![0u8; 9]]);
    assert!(!z.is_empty());
    assert!(Frame::new_empty().is_empty());
}

#[test]
fn capture_base_cuts_area() {
    let base = CaptureBase::new();
    assert_eq!(base.resolution, 40);
    assert_eq!(base.content_area, Rect { x: 0, y: 0, width: 640, height: 360 });
    let mut base = CaptureBase::with_area(40, Rect { x: 1, y: 0, width: 2, height: 2 }, false);
    let f = frame(vec![vec![1, 2, 3], vec![4, 5, 6]], 3);
    match base.get_mat(f) {
        MatStep::Ready(out) => assert_eq!(out.rows, vec![vec![2, 3], vec![5, 6]]),
        MatStep::Scale(_) => panic!("no scaling was asked for"),
    }
    assert_eq!(base.prev_image.rows, vec![vec![2, 3], vec![5, 6]]);
    // a frame the area does not fit in gives the last frame again
    let small = frame(vec![vec![9]], 1);
    match base.get_mat(small) {
        MatStep::Ready(out) => assert_eq!(out.rows, vec![vec![2, 3], vec![5, 6]]),
        MatStep::Scale(_) => panic!("no scaling was asked for"),
    }
}

#[test]
fn capture_base_empty_cut_gives_blank_frame() {
    let mut base = CaptureBase::with_area(40, Rect { x: 0, y: 0, width: 0, height: 1 }, false);
    match base.get_mat(frame(vec![vec![1]], 1)) {
        MatStep::Ready(out) => {
            assert_eq!(out.width, 640);
            assert_eq!(out.height, 360);
        },
        MatStep::Scale(_) => panic!("no scaling was asked for"),
    }
}

#[test]
fn capture_base_scaling_goes_through_caller() {
    let mut base = CaptureBase::with_area(80, Rect { x: 0, y: 0, width: 2, height: 1 }, true);
    let step = base.get_mat(frame(vec![vec![1, 2]], 2));
    let cut = match step {
        MatStep::Scale(cut) => cut,
        MatStep::Ready(_) => panic!("scaling was asked for"),
    };
    assert_eq!(cut.rows, vec![vec![1, 2]]);
    assert!(base.prev_image.is_empty());
    let shown = base.finish_resize(frame(vec![vec![7]], 1));
    assert_eq!(shown.rows, vec![vec![7]]);
}

#[test]
fn empty_source_repeats_its_frame() {
    let mut source = CaptureFromEmpty::new(frame(vec![vec![4, 2]], 2));
    assert_eq!(source.get_mat().rows, vec![vec![4, 2]]);
    assert_eq!(source.get_mat().rows, vec![vec![4, 2]]);
}

#[test]
fn device_context_source() {
    let mut dc = CaptureDC::new();
    assert_eq!(dc.source(), DcSource::Window);
    let got = dc.store_from_window(frame(vec![vec![1, 2], vec![3, 4]], 2), Some(Rect { x: 1, y: 1, width: 1, height: 1 }));
    assert_eq!(got.unwrap().rows, vec![vec![4]]);
    assert_eq!(dc.source(), DcSource::Dc);
    let again = dc.store_from_dc(frame(vec![vec![8]], 1), Some(Rect { x: 5, y: 5, width: 1, height: 1 }));
    assert_eq!(again.unwrap().rows, vec![vec![8]]);
    assert!(dc.store_from_window(frame(vec![vec![1]], 1), Some(Rect { x: 1, y: 0, width: 1, height: 1 })).is_none());
    dc.release();
    assert_eq!(dc.source(), DcSource::Window);
}

#[test]
fn codec_candidates_in_order() {
    let backends = vec![CAP_ANY, CAP_IMAGES, 1400];
    let cands = Codec::candidates(&None, &backends);
    assert_eq!(cands.len(), 28);
    assert_eq!(cands[0].backend, CAP_ANY);
    assert_eq!(cands[0].file_name, Some("temp.mp4".to_string()));
    assert_eq!(cands[1].file_name, Some("temp.avi".to_string()));
    let hevc = cands[0].fourcc;
    assert!(hevc == i32::from_le_bytes(*b"HEVC") || hevc == i32::from_be_bytes(*b"HEVC"));
    assert_eq!(cands[2].fourcc, cands[3].fourcc);
    assert_ne!(cands[0].fourcc, cands[2].fourcc);
    assert_eq!(cands[14].backend, 1400);
    assert_eq!(cands[27].file_name, Some("temp.avi".to_string()));
}

#[test]
fn codec_found_or_default() {
    let backends = vec![CAP_ANY];
    let c = Codec::find_codec(Some("rec".to_string()), &backends, Some(3));
    assert_eq!(c.backend, CAP_ANY);
    assert_eq!(c.file_name, Some("rec.avi".to_string()));
    let h265 = c.fourcc;
    assert!(h265 == i32::from_le_bytes(*b"H265") || h265 == i32::from_be_bytes(*b"H265"));
    let none = Codec::find_codec(None, &backends, None);
    assert_eq!(none.fourcc, -1);
    assert_eq!(none.file_name, Some("temp.avi".to_string()));
    let out_of_range = Codec::find_codec(None, &vec![], Some(0));
    assert_eq!(out_of_range.backend, CAP_ANY);
    assert_eq!(Codec::new().file_name, None);
}

#[test]
fn wrapped_codec_is_found_once() {
    let mut w = WrappedCodec::new();
    assert!(!w.is_found());
    let first = w.get(&vec![CAP_ANY], Some(0)).file_name.clone();
    assert_eq!(first, Some("temp.mp4".to_string()));
    let second = w.get(&vec![], None).file_name.clone();
    assert_eq!(second, first);
    assert!(w.is_found());
}

#[test]
fn capture_modes() {
    let l = labels();
    assert!(CaptureMode::new_video_device(&l, -1).is_default(&l));
    assert!(!CaptureMode::new_video_device(&l, 0).is_default(&l));
    assert!(CaptureMode::new_empty(&l).is_default(&l));
    let w = CaptureMode::new_window(&l, "OBS".to_string());
    assert!(w.is_window());
    assert!(!w.is_default(&l));
    assert!(CaptureMode::new_window(&l, String::new()).is_default(&l));
    assert_eq!(w.label(), "Window");
    assert!(CaptureMode::new_desktop(&l).is_desktop());
    assert!(!CaptureMode::Desktop("Other".to_string()).is_default(&l));
}

// ---- audio ----

#[test]
fn wasapi_error_text() {
    assert_eq!(WasapiError::new("broken").description(), "broken");
}

#[test]
fn session_states() {
    assert!(matches!(SessionState::from_state(0), Ok(SessionState::Inactive)));
    assert!(matches!(SessionState::from_state(1), Ok(SessionState::Active)));
    assert!(matches!(SessionState::from_state(2), Ok(SessionState::Expired)));
    match SessionState::from_state(7) {
        Err(e) => assert_eq!(e.description(), "Got an illegal state"),
        Ok(_) => panic!("7 is no state"),
    }
}

#[test]
fn stream_flags_for_directions() {
    assert_eq!(stream_flags(Direction::Render, Direction::Capture, ShareMode::Shared, false).ok(), Some(0x0006_0000));
    assert_eq!(stream_flags(Direction::Render, Direction::Render, ShareMode::Exclusive, false).ok(), Some(0x0004_0000));
    assert_eq!(
        stream_flags(Direction::Capture, Direction::Capture, ShareMode::Shared, true).ok(),
        Some(0x0004_0000 | 0x8000_0000 | 0x0800_0000)
    );
    match stream_flags(Direction::Render, Direction::Capture, ShareMode::Exclusive, false) {
        Err(e) => assert_eq!(e.description(), "Cant use Loopback with exclusive mode"),
        Ok(_) => panic!("loopback needs the shared mode"),
    }
    match stream_flags(Direction::Capture, Direction::Render, ShareMode::Shared, false) {
        Err(e) => assert_eq!(e.description(), "Cant render to a capture device"),
        Ok(_) => panic!("a capture device cannot play"),
    }
    assert_eq!(share_mode_value(ShareMode::Exclusive), 1);
    assert_eq!(share_mode_value(ShareMode::Shared), 0);
    assert_eq!(SampleType::Float, SampleType::Float);
}

#[test]
fn buffer_space_and_packets() {
    assert_eq!(available_space_in_frames(Some(ShareMode::Shared), 100, 30).ok(), Some(70));
    assert_eq!(available_space_in_frames(Some(ShareMode::Exclusive), 100, 30).ok(), Some(100));
    match available_space_in_frames(None, 100, 30) {
        Err(e) => assert_eq!(e.description(), "Client has not been initialized"),
        Ok(_) => panic!("no client was set up"),
    }
    assert_eq!(next_packet_frames(Some(ShareMode::Exclusive), 5), None);
    assert_eq!(next_packet_frames(Some(ShareMode::Shared), 5), Some(5));
    assert_eq!(next_packet_frames(None, 5), Some(5));
}

#[test]
fn buffer_flags_round_trip() {
    let f = BufferFlags::new(5);
    assert!(f.data_discontinuity && !f.silent && f.timestamp_error);
    assert_eq!(f.to_u32(), 5);
    assert_eq!(BufferFlags::new(0xff).to_u32(), 7);
    assert_eq!(BufferFlags::new(8).to_u32(), 0);
    for bits in 0..8u32 {
        assert_eq!(BufferFlags::new(bits).to_u32(), bits);
    }
}

#[test]
fn music_list_and_random_choice() {
    let mut sound = SoundManager::new();
    assert!(sound.bgm_list.is_empty());
    let entries = vec![
        ("a.mp3".to_string(), Some("mp3".to_string())),
        ("b.txt".to_string(), Some("txt".to_string())),
        ("c".to_string(), None),
        ("d.ogg".to_string(), Some("ogg".to_string())),
    ];
    sound.load(&entries);
    assert_eq!(sound.bgm_list, vec!["a.mp3".to_string(), "d.ogg".to_string()]);
    for _ in 0..20 {
        let i = sound.play_bgm_random();
        assert!(i < 2);
    }
    assert!(is_playable_extension("flac"));
    assert!(!is_playable_extension("FLAC"));
}

// ---- look of the window ----

#[test]
fn pane_styles() {
    let pane = Pane { pane_type: PaneType::History };
    assert_eq!(pane.style().border_color, Some(Rgb { r: 228, g: 38, b: 111 }));
    assert_eq!(pane.style().background, Some(Rgb { r: 255, g: 255, b: 255 }));
    assert_eq!(pane.style().border_radius, 4);
    let title = TitleBar { pane_type: PaneType::Tile };
    assert_eq!(title.style().background, Some(Rgb { r: 221, g: 159, b: 0 }));
    assert_eq!(title.style().text_color, Some(Rgb { r: 222, g: 222, b: 222 }));
    assert_eq!(PaneType::Information.color(), Rgb { r: 200, g: 0, b: 0 });
    assert_eq!(PaneType::Settings.color(), Rgb { r: 0, g: 103, b: 221 });
}

// ---- scenes ----

#[test]
fn scene_numbers_round_trip() {
    let all = [
        SceneList::ReadyToFight,
        SceneList::Matching,
        SceneList::HamVsSpam,
        SceneList::GameStart,
        SceneList::GamePlaying,
        SceneList::GameEnd,
        SceneList::Result,
        SceneList::Dialog,
        SceneList::Loading,
        SceneList::Unknown,
        SceneList::DecidedRules,
        SceneList::DecidedBgm,
        SceneList::EndResultReplay,
    ];
    for (i, s) in all.iter().enumerate() {
        assert_eq!(s.id(), i as i32);
        assert_eq!(SceneList::to_scene_list(s.id()), *s);
    }
    assert_eq!(SceneList::to_scene_list(99), SceneList::Unknown);
    assert_eq!(SceneList::to_scene_list(-1), SceneList::Unknown);
    assert_eq!(SceneList::default(), SceneList::Unknown);
}

#[test]
fn scene_rules() {
    assert!(continue_match(SceneList::GameEnd, SceneList::GamePlaying));
    assert!(!continue_match(SceneList::GameEnd, SceneList::Result));
    assert!(!continue_match(SceneList::ReadyToFight, SceneList::ReadyToFight));
    assert!(continue_match(SceneList::Matching, SceneList::Result));
    assert!(continue_match(SceneList::Loading, SceneList::Unknown));
    assert_eq!(to_scene(SceneList::GameStart, SceneList::HamVsSpam), SceneList::GamePlaying);
    assert_eq!(to_scene(SceneList::Dialog, SceneList::Result), SceneList::Unknown);
    assert_eq!(to_scene(SceneList::Loading, SceneList::Result), SceneList::Result);
    let unknown = UnknownScene {};
    assert_eq!(unknown.get_id(), 9);
    assert!(!unknown.continue_match(SceneList::Unknown));
    assert!(!unknown.is_scene());
    assert!(!unknown.is_recoded());
    assert_eq!(unknown.to_scene(SceneList::GameEnd), SceneList::GameEnd);
}

#[test]
fn scene_manager_follows_a_battle() {
    let mut m = SceneManager::new();
    assert_eq!(m.get_now_scene(), SceneList::Unknown);
    // a scene not looked for changes nothing
    m.scene_found(SceneList::GameEnd, 1);
    assert_eq!(m.get_now_scene(), SceneList::Unknown);
    m.scene_found(SceneList::Matching, 0);
    assert_eq!(m.get_now_scene(), SceneList::Matching);
    m.scene_found(SceneList::HamVsSpam, 0);
    m.scene_found(SceneList::GameStart, 1000);
    assert_eq!(m.get_now_scene(), SceneList::GamePlaying);
    assert_eq!(m.smashbros_data.get_start_time(), Some(1000));
    m.scene_found(SceneList::GameEnd, 5000);
    assert_eq!(m.get_now_scene(), SceneList::GameEnd);
    assert_eq!(m.smashbros_data.get_end_time(), Some(5000));
    assert_eq!(m.sub_smashbros_data.as_ref().unwrap().get_end_time(), Some(5000));
    m.scene_found(SceneList::Result, 6000);
    assert_eq!(m.get_now_scene(), SceneList::Result);
    assert_eq!(m.ref_now_data().get_end_time(), Some(5000));
    // the result replay: armed by a recording, fired when it ended
    assert_eq!(m.update_replay_event(false, true), RecordAction::Nothing);
    assert_eq!(m.update_replay_event(true, false), RecordAction::Nothing);
    assert_eq!(m.update_replay_event(false, true), RecordAction::Store);
    m.finish_replay(7000, None);
    assert!(m.sub_smashbros_data.is_none());
    assert_eq!(m.smashbros_data.get_saved_time(), Some(7000));
    m.scene_found(SceneList::Dialog, 8000);
    assert_eq!(m.get_now_scene(), SceneList::Unknown);
}

// ---- recording scenes ----

#[test]
fn recording_by_frames_then_replay() {
    let mut store = CaptureFrameStore::new();
    assert!(!store.is_recoding_started(0));
    assert_eq!(store.recoding_frame(0), RecordStep::Skip);
    assert!(store.start_recoding_by_frame(0, 2));
    assert!(!store.start_recoding_by_frame(0, 5));
    assert!(store.is_recoding_started(0));
    assert_eq!(store.recoding_frame(0), RecordStep::Write);
    assert_eq!(store.recoding_frame(0), RecordStep::WriteAndReplay);
    store.reader_opened(true);
    assert!(store.is_filled());
    assert!(store.can_replay());
    assert_eq!(store.recoding_frame(0), RecordStep::Skip);
    assert!(!store.replayed(false));
    assert!(store.replayed(false));
    assert!(store.is_replay_end());
    assert!(!store.is_filled());
}

#[test]
fn recording_by_time() {
    let mut store = CaptureFrameStore::new();
    assert!(store.start_recoding_by_time(100, 3000));
    assert!(!store.is_recoding_started(99));
    assert!(store.is_recoding_started(100));
    assert!(!store.is_recoding_end(3099));
    assert!(store.is_recoding_end(3100));
    assert_eq!(store.recoding_frame(200), RecordStep::Write);
    assert_eq!(store.recoding_frame(3100), RecordStep::WriteAndReplay);
    store.reader_opened(false);
    assert!(!store.is_filled());
    assert!(!store.is_recoding_started(3200));
}

#[test]
fn replay_stops_on_request() {
    let mut store = CaptureFrameStore::new();
    store.start_recoding_by_frame(0, 3);
    for _ in 0..3 {
        store.recoding_frame(0);
    }
    store.reader_opened(true);
    assert!(store.replayed(true));
    assert!(store.is_replay_end());
}

// ---- history refresh ----

#[test]
fn history_refresh_decisions() {
    let mut engine = SmashBrogEngine::new(&vec![]);
    assert!(engine.prev_find_chara_list.is_empty());
    let mut d = battle(2);
    assert_eq!(engine.update_now_data(&d), Refresh { latest: true, by_chara: false });
    assert_eq!(engine.update_now_data(&d), Refresh { latest: false, by_chara: false });
    d.save_battle_at(5, None);
    assert_eq!(engine.update_now_data(&d), Refresh { latest: true, by_chara: false });
    assert_eq!(engine.update_now_data(&d), Refresh { latest: false, by_chara: false });

    let latest = vec![finished_battle("FOX", 1, 2)];
    let mut engine = SmashBrogEngine::new(&latest);
    assert_eq!(engine.prev_find_chara_list, vec!["MARIO".to_string(), "FOX".to_string()]);
    let other = finished_battle("PIT", 1, 2);
    assert_eq!(engine.update_now_data(&other), Refresh { latest: true, by_chara: true });
    assert_eq!(engine.prev_find_chara_list, vec!["MARIO".to_string(), "PIT".to_string()]);
}

// ---- scene detectors' decisions ----

#[test]
fn ready_to_fight_paced_during_play() {
    let mut gate = ReadyToFightGate::new();
    assert!(gate.should_match(false));
    assert!(gate.should_match(true));
    for _ in 0..10 {
        assert!(!gate.should_match(true));
    }
    assert!(gate.should_match(true));
    assert!(!gate.should_match(true));
    assert!(gate.should_match(false));
    assert_eq!(gate.scene_judgment_skip_wait, 0);
}

#[test]
fn game_start_when_count_down_mark_is_gone() {
    let mut gate = GameStartGate::new();
    assert!(!gate.step(false));
    assert!(!gate.step(true));
    assert!(!gate.step(true));
    assert!(gate.step(false));
    assert!(!gate.step(false));
}

#[test]
fn matching_sets_up_players() {
    let mut d = SmashbrosData::new();
    assert!(!matching_found(&mut d, false, false, false, false, 0, None));
    assert_eq!(d.get_player_count(), 0);
    assert!(matching_found(&mut d, false, true, false, false, 0, None));
    assert_eq!(d.get_player_count(), 4);
    let mut e = SmashbrosData::new();
    assert!(matching_found(&mut e, true, true, false, false, 0, None));
    assert_eq!(e.get_player_count(), 2);
    let mut t = SmashbrosData::new();
    assert!(matching_found(&mut t, false, false, false, true, 0, None));
    assert_eq!(t.get_player_count(), 4);
}

#[test]
fn detectors_skip_decided_records() {
    let mut d = battle(2);
    assert!(!game_playing_reads_stock(&d));
    d.set_rule(BattleRule::Stock);
    assert!(game_playing_reads_stock(&d));
    d.set_stock(0, 1);
    d.set_stock(1, 1);
    assert!(!game_playing_reads_stock(&d));
    assert!(ham_vs_spam_reads(&d));
    d.set_character(0, "MARIO".to_string());
    d.set_character(1, "FOX".to_string());
    assert!(!ham_vs_spam_reads(&d));
    assert!(result_reads(&d));
    d.set_order(0, 1);
    d.set_order(1, 2);
    d.set_power(0, 1000);
    d.set_power(1, 2000);
    assert!(!result_reads(&d));
}

#[test]
fn default_capture_modes_are_refused() {
    let l = labels();
    assert_eq!(check_capture_mode(&CaptureMode::new_desktop(&l), &l), Err("is default capture mode".to_string()));
    assert_eq!(check_capture_mode(&CaptureMode::new_video_device(&l, 2), &l), Ok(()));
    assert_eq!(check_capture_mode(&CaptureMode::new_window(&l, "OBS".to_string()), &l), Ok(()));
}

#[test]
fn versus_screen_recording() {
    let mut store = CaptureFrameStore::new();
    let none = ham_vs_spam_found(&mut store, 0, false);
    assert!(!none.open_writer);
    assert!(none.steps.is_empty());
    let found = ham_vs_spam_found(&mut store, 0, true);
    assert!(found.open_writer);
    assert_eq!(found.steps, vec![RecordStep::Write]);
    let again = ham_vs_spam_found(&mut store, 100, true);
    assert!(!again.open_writer);
    assert_eq!(again.steps, vec![RecordStep::Write]);
    let end = ham_vs_spam_found(&mut store, 2500, true);
    assert_eq!(end.steps, vec![RecordStep::WriteAndReplay]);
}

#[test]
fn result_screen_recording() {
    let mut store = CaptureFrameStore::new();
    let d = battle(2);
    let first = result_found(&mut store, &d, 0, false);
    assert!(first.open_writer);
    assert_eq!(first.steps, vec![RecordStep::Write]);
    let mark = result_found(&mut store, &d, 10, true);
    assert!(!mark.open_writer);
    assert_eq!(mark.steps, vec![RecordStep::Write]);
    assert_eq!(store.recoded_frame, 2);
    let mut fresh = CaptureFrameStore::new();
    let both = result_found(&mut fresh, &d, 0, true);
    assert_eq!(both.steps, vec![RecordStep::Write, RecordStep::Write]);
    let mut decided = finished_battle("FOX", 1, 2);
    decided.set_power(0, 1000);
    decided.set_power(1, 1000);
    let mut idle = CaptureFrameStore::new();
    assert!(result_found(&mut idle, &decided, 0, true).steps.is_empty());
}

#[test]
fn scene_manager_now_data_is_a_marked_copy() {
    let mut m = SceneManager::new();
    m.scene_found(SceneList::Matching, 0);
    m.smashbros_data.initialize_battle_at(2, 0, None);
    let copy = m.get_now_data();
    assert_eq!(copy.get_id(), Some("dummy_id".to_string()));
    assert_eq!(copy.get_player_count(), 2);
    // the manager's own record keeps its id
    assert_eq!(m.ref_now_data().get_id(), None);
}

#[test]
fn win_streak_counts_latest_wins() {
    // newest first
    let list = vec![
        finished_battle("KIRBY", 1, 2),
        finished_battle("FOX", 1, 2),
        finished_battle("FOX", 2, 1),
        finished_battle("MARIO", 1, 2),
    ];
    assert_eq!(win_streak(&list), 2);
    let unknown_first = vec![battle(2), finished_battle("FOX", 1, 2)];
    assert_eq!(win_streak(&unknown_first), 0);
    assert_eq!(win_streak(&Vec::new()), 0);
}

#[test]
fn last_power_of_latest_record() {
    let mut now = battle(2);
    now.set_power(0, 777);
    let mut latest = finished_battle("FOX", 1, 2);
    latest.set_power(0, 1_500_000);
    assert_eq!(last_power(&now, &vec![latest, finished_battle("FOX", 2, 1)]), 1_500_000);
    assert_eq!(last_power(&now, &Vec::new()), 777);
    assert_eq!(last_power(&battle(2), &Vec::new()), -1);
}

#[test]
fn win_lose_ignores_unknown_results() {
    let mut d = battle(2);
    d.set_order(0, 1);
    // second placing unknown: neither a win nor a loss
    assert_eq!(win_lose_by_data_list(&vec![d]), (0, 0));
}

#[test]
fn small_caption_cuts_at_a_character_boundary() {
    assert_eq!(get_small_caption("abcdef".to_string(), 3), "abc...");
    assert_eq!(get_small_caption("abc".to_string(), 3), "abc");
    assert_eq!(get_small_caption("abc".to_string(), 40), "abc");
    // three bytes a character: a cut at four bytes keeps two characters
    assert_eq!(get_small_caption("あいう".to_string(), 4), "あい...");
    assert_eq!(get_small_caption("あいう".to_string(), 6), "あい...");
    assert_eq!(get_small_caption("あいう".to_string(), 9), "あいう");
    assert_eq!(get_small_caption("abc".to_string(), 0), "...");
    assert_eq!(get_small_caption(String::new(), 0), "");
}

#[test]
fn rules_decided_needs_rule_time_and_stock_limits() {
    let mut d = battle(2);
    assert!(!d.is_decided_rule_all_clause());
    d.set_rule(BattleRule::Time);
    assert!(!d.is_decided_rule_all_clause());
    d.set_max_time(180);
    assert!(d.is_decided_rule_all_clause());
    let mut s = battle(2);
    s.set_rule(BattleRule::Stock);
    s.set_max_time(420);
    s.set_max_stock(0, 3);
    assert!(!s.is_decided_rule_all_clause());
    s.set_max_stock(1, 3);
    assert!(s.is_decided_rule_all_clause());
}

#[test]
fn rules_event_sets_initial_stocks_once_armed() {
    let mut m = SceneManager::new();
    assert_eq!(m.smashbros_data.get_rule(), BattleRule::Unknown);
    assert_eq!(m.smashbros_data.get_max_time(), 0);
    // fired at the start: nothing until the matching screen arms it
    assert!(!m.update_rules_event());
    m.scene_found(SceneList::Matching, 0);
    assert!(!m.update_rules_event());
    m.smashbros_data.initialize_battle_at(2, 0, None);
    // armed, rules not known yet
    assert!(!m.update_rules_event());
    m.smashbros_data.set_rule(BattleRule::Stock);
    m.smashbros_data.set_max_time(420);
    m.smashbros_data.set_max_stock(0, 3);
    m.smashbros_data.set_max_stock(1, 2);
    assert!(m.update_rules_event());
    assert_eq!(m.smashbros_data.get_stock(0), 3);
    assert_eq!(m.smashbros_data.get_stock(1), 2);
    // fired: the next check only arms it again
    assert!(!m.update_rules_event());
}

#[test]
fn numbers_written_in_decimal() {
    assert_eq!(usize_text(0), "0");
    assert_eq!(usize_text(7), "7");
    assert_eq!(usize_text(10), "10");
    assert_eq!(usize_text(4096), "4096");
}

#[test]
fn device_buffer_checks() {
    assert_eq!(check_write_length(4, 8, 32).unwrap(), 32);
    let e = check_write_length(4, 8, 30).unwrap_err();
    assert_eq!(e.description(), "Wrong length of data, got 30, expected 32");
    assert_eq!(check_read_length(4, 100, 0).unwrap(), 0);
    assert_eq!(check_read_length(4, 100, 25).unwrap(), 100);
    let e = check_read_length(4, 100, 26).unwrap_err();
    assert_eq!(e.description(), "Wrong length of data, got 25 frames, expected at least 26 frames");
}

#[test]
fn queued_bytes_are_taken_from_the_front() {
    let mut q: std::collections::VecDeque<u8> = (1..=10).collect();
    let bytes = take_queued_bytes(2, 3, &mut q).unwrap();
    assert_eq!(bytes, vec![1, 2, 3, 4, 5, 6]);
    assert_eq!(q, vec![7, 8, 9, 10]);
    let e = take_queued_bytes(5, 1, &mut q).unwrap_err();
    assert_eq!(e.description(), "To little data, got 4, need 5");
    assert_eq!(q.len(), 4);
}

#[test]
fn device_found_by_name() {
    let names = vec!["Speakers".to_string(), "Headset".to_string(), "Headset".to_string()];
    assert_eq!(find_device_by_name(&names, "Headset").unwrap(), 1);
    let e = find_device_by_name(&names, "Line").unwrap_err();
    assert_eq!(e.description(), "Unable to find device Line");
}

#[test]
fn stock_warning_when_limit_below_threshold() {
    let mut d = battle(2);
    assert!(!stock_alert_due(&d, 3));
    d.set_max_stock(0, 2);
    assert!(stock_alert_due(&d, 3));
    assert!(!stock_alert_due(&d, 2));
}
