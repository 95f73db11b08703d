use overmax::geometry::{Difficulty, SceneType};
use overmax::ocr_text::{needs_recognition, nonblank_reading, score_from_readings};
use overmax::play_state::{
    combine_rate, select_record, ResultRateWindow,
    context_of, Mode, PatternRecord, PlayContext, PlayStateDetector, MIN_VALID_RATE_CENTI,
};
use overmax::record_db::RecordChanges;
use overmax::sheet_meta::sheet_key;
use overmax::varchive::{labels_match_dlc, Dlc};
use overmax::varchive_db::note_bonus;
use overmax::windows_capture::{
    dxgi_init_due, select_output, CaptureEngineSettings, OutputBounds, PreferredCaptureEngine,
};
use overmax::geometry::WindowRect;
use overmax::settings::SettingsPaths;

#[test]
fn nonblank_reading_keeps_only_text_with_content() {
    assert_eq!(nonblank_reading(Ok("FREESTYLE".to_string())), Some("FREESTYLE".to_string()));
    assert_eq!(nonblank_reading(Ok(" 4B ".to_string())), Some(" 4B ".to_string()));
    assert_eq!(nonblank_reading(Ok("  \t\n".to_string())), None);
    assert_eq!(nonblank_reading(Ok(String::new())), None);
    assert_eq!(nonblank_reading(Err("no engine".to_string())), None);
}

#[test]
fn score_falls_back_to_recognised_text() {
    assert!(needs_recognition(""));
    assert!(needs_recognition("99?800"));
    assert!(!needs_recognition("999800"));
    assert_eq!(score_from_readings(Some("999,800"), Ok("123456".to_string())), Some(999800));
    assert_eq!(score_from_readings(Some("99?800"), Ok("987,654".to_string())), Some(987654));
    assert_eq!(score_from_readings(Some(""), Ok("1,000,000".to_string())), Some(1000000));
    assert_eq!(score_from_readings(Some("99?800"), Err("failed".to_string())), None);
    assert_eq!(score_from_readings(Some("99?800"), Ok("12".to_string())), None);
    assert_eq!(score_from_readings(None, Ok("987,654".to_string())), None);
}

#[test]
fn normalized_labels_match_packs() {
    let dlcs = vec![Dlc { dlc_code: "CE".to_string(), dlc_name: "Clazziquai Edition".to_string() }];
    assert!(labels_match_dlc("respect", "respectv", &[]));
    assert!(labels_match_dlc("clazziquaiedition", "ce", &dlcs));
    assert!(labels_match_dlc("trilogy", "tr", &[]));
    assert!(!labels_match_dlc("trilogy", "bs", &dlcs));
}

#[test]
fn note_bonus_needs_both_and_containment() {
    assert_eq!(note_bonus("xeon", "xeon & ne!n"), 150);
    assert_eq!(note_bonus("", "xeon"), 0);
    assert_eq!(note_bonus("nauts", "xeon"), 0);
}

#[test]
fn sheet_key_ignores_case_and_white_space_of_the_difficulty() {
    assert_eq!(sheet_key("42", "4B", " Hard "), "42|4B|hard");
    assert_eq!(sheet_key("42", "4B", "HA RD"), sheet_key("42", "4B", "hard"));
}

fn ctx(rate_centi: u32, is_max_combo: bool) -> PlayContext {
    PlayContext { song_id: 7, mode: Mode::B4, diff: Difficulty::MX, rate_centi, is_max_combo }
}

#[test]
fn context_drops_invalid_result_rates() {
    let played = PatternRecord::Played { rate_centi: 7999, is_max_combo: true };
    let c = context_of(7, Mode::B4, Difficulty::MX, played, true);
    assert_eq!(c.rate_centi, 0);
    assert!(!c.is_max_combo);
    let c = context_of(7, Mode::B4, Difficulty::MX, played, false);
    assert_eq!(c.rate_centi, 7999);
    assert!(c.is_max_combo);
    let c = context_of(7, Mode::B4, Difficulty::MX, PatternRecord::Unplayed, false);
    assert_eq!(c.rate_centi, 0);
    assert_eq!(MIN_VALID_RATE_CENTI, 8000);
}

#[test]
fn play_state_becomes_stable_after_a_full_history() {
    let mut d = PlayStateDetector::new(3);
    let c = ctx(9876, false);
    let (s, e) = d.commit(SceneType::Freestyle, false, Some(c));
    assert!(!s.is_stable && e.is_none());
    let (s, _) = d.commit(SceneType::Freestyle, false, Some(c));
    assert!(!s.is_stable);
    assert_eq!(d.stable_hits(), 2);
    let (s, e) = d.commit(SceneType::Freestyle, false, Some(c));
    assert!(s.is_stable);
    assert_eq!(s.context, Some(c));
    let e = e.unwrap();
    assert_eq!(e.rate_centi, 9876);
    assert!(!e.is_result_screen);
    // The same record is not published again.
    let (_, e) = d.commit(SceneType::Freestyle, false, Some(c));
    assert!(e.is_none());
    // A frame without a context breaks stability.
    let (s, e) = d.commit(SceneType::Freestyle, false, None);
    assert!(!s.is_stable && e.is_none());
    assert_eq!(d.stable_hits(), 2);
}

#[test]
fn result_screen_republishes_only_improvements() {
    let mut d = PlayStateDetector::new(1);
    let (_, e) = d.commit(SceneType::ResultFreestyle, true, Some(ctx(9500, false)));
    assert!(e.is_some());
    let (_, e) = d.commit(SceneType::ResultFreestyle, true, Some(ctx(9400, false)));
    assert!(e.is_none());
    let (_, e) = d.commit(SceneType::ResultFreestyle, true, Some(ctx(9400, true)));
    assert!(e.is_some());
    let (_, e) = d.commit(SceneType::ResultFreestyle, true, Some(ctx(9600, true)));
    assert!(e.is_some());
    // A rate below the least valid one is never published on a result screen.
    let mut d = PlayStateDetector::new(1);
    let (s, e) = d.commit(SceneType::ResultFreestyle, true, Some(ctx(0, false)));
    assert!(s.is_stable && e.is_none());
}

#[test]
fn result_latch_holds_and_reset_keeps_it() {
    let mut d = PlayStateDetector::new(2);
    assert_eq!(d.latch_result_mode_diff(Some(Mode::B6), None), (Some(Mode::B6), None));
    assert_eq!(d.latch_result_mode_diff(None, Some(Difficulty::SC)), (Some(Mode::B6), Some(Difficulty::SC)));
    d.reset();
    assert_eq!(d.latch_result_mode_diff(None, None), (Some(Mode::B6), Some(Difficulty::SC)));
    d.clear_detected_cache();
    assert_eq!(d.latch_result_mode_diff(None, None), (None, None));
    d.latch_result_mode_diff(Some(Mode::B8), Some(Difficulty::NM));
    d.release_result_latch();
    assert_eq!(d.latch_result_mode_diff(None, None), (None, None));
}

#[test]
fn capture_settings_choose_the_backend() {
    let mut s = CaptureEngineSettings::new();
    assert!(!s.try_dxgi(false));
    assert!(!s.enable_gpu_atlas());
    s.set_enable_gpu_atlas(true);
    assert!(s.enable_gpu_atlas());
    s.set_preferred_engine(PreferredCaptureEngine::Auto);
    assert!(s.try_dxgi(false));
    assert!(!s.try_dxgi(true));
    s.set_preferred_engine(PreferredCaptureEngine::Dxgi);
    assert!(s.try_dxgi(true));
    assert!(!dxgi_init_due(2_999_999_999));
    assert!(dxgi_init_due(3_000_000_000));
}

#[test]
fn record_changes_hand_out_each_key_once() {
    let mut c = RecordChanges::new();
    let (full, keys) = c.consume_dirty_info();
    assert!(full);
    assert!(keys.is_empty());
    c.note_change(1, "4B", "MX");
    c.note_change(1, "4B", "MX");
    c.note_change(2, "5B", "SC");
    assert_eq!(c.data_revision(), 3);
    let (full, keys) = c.consume_dirty_info();
    assert!(!full);
    assert_eq!(keys, vec![(1, "4B".to_string(), "MX".to_string()), (2, "5B".to_string(), "SC".to_string())]);
    let (full, keys) = c.consume_dirty_info();
    assert!(!full && keys.is_empty());
    c.refresh();
    let (full, _) = c.consume_dirty_info();
    assert!(full);
    assert_eq!(c.data_revision(), 4);
}

#[test]
fn score_and_rate_combine_in_hundredths() {
    // 987,654 points give 98.76 %; a rate read within 0.02 % keeps the score's.
    assert_eq!(combine_rate(Some(987654), Some(9878), false), Some(9876));
    assert_eq!(combine_rate(Some(987654), Some(9879), false), Some(9879));
    assert_eq!(combine_rate(Some(987654), None, false), Some(9876));
    assert_eq!(combine_rate(Some(700000), None, false), None);
    assert_eq!(combine_rate(Some(700000), None, true), Some(7000));
    assert_eq!(combine_rate(Some(1_500_000), None, true), None);
    assert_eq!(combine_rate(None, Some(9500), true), Some(9500));
    assert_eq!(combine_rate(None, None, true), None);
    assert_eq!(select_record(Some(9500), true, true), PatternRecord::Played { rate_centi: 9500, is_max_combo: true });
    assert_eq!(select_record(Some(9500), false, true), PatternRecord::Unplayed);
    assert_eq!(select_record(Some(7999), true, false), PatternRecord::Unplayed);
    assert_eq!(select_record(None, true, false), PatternRecord::Unplayed);
}

#[test]
fn result_rate_median_of_the_last_seven() {
    let mut w = ResultRateWindow::new();
    assert_eq!(w.median(), None);
    w.push(9000);
    assert_eq!(w.median(), Some(9000));
    w.push(9500);
    assert_eq!(w.median(), Some(9500));
    for r in [1000, 9400, 9400, 9600, 9300] {
        w.push(r);
    }
    assert_eq!(w.median(), Some(9400));
    // An eighth rate pushes out the first.
    w.push(100);
    assert_eq!(w.median(), Some(9400));
    w.clear();
    assert_eq!(w.median(), None);
}

#[test]
fn dxgi_duplicates_the_output_holding_the_window() {
    let left = OutputBounds { left: 0, top: 0, right: 1920, bottom: 1080 };
    let right = OutputBounds { left: 1920, top: 0, right: 3840, bottom: 1080 };
    let rect = WindowRect { left: 2000, top: 100, width: 1280, height: 720 };
    assert_eq!(select_output(&[left, right], Some(rect)), Some(1));
    assert_eq!(select_output(&[left, right], None), Some(0));
    let far = WindowRect { left: 9000, top: 100, width: 100, height: 100 };
    assert_eq!(select_output(&[left, right], Some(far)), Some(0));
    assert_eq!(select_output(&[], Some(rect)), None);
}

#[test]
fn settings_files_are_joined_to_the_directory() {
    let paths = SettingsPaths::in_dir("data");
    assert!(paths.settings_json.starts_with("data"));
    assert!(paths.settings_json.ends_with("settings.json"));
    assert_eq!(paths.settings_json.len(), "data".len() + 1 + "settings.json".len());
}
