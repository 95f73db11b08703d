use overmax::capture_layout::{snapshot_window, target_transition, PixelLayout, SnapshotWindowError, TargetTransition, IMAGE_ORDER_LSB_FIRST, VISUAL_CLASS_TRUE_COLOR};
use overmax::geometry::WindowSnapshot;
use overmax::shm_capture::{
    check_window_info, generation_plan, lifecycle_action, pixel_layout, shm_reply_matches,
    transient_error_kind, DepthVisuals, GenerationError, LifecycleAction, LifecycleEvent,
    PixelLayoutError, PixelSetup, PixmapFormat, VisualType, WindowInfo, WindowInfoError,
    X11ErrorKind, MAP_STATE_VIEWABLE,
};
use overmax::capture_layout::CaptureErrorAction;
use overmax::detection_session::{
    DetectionSession, InterruptReason, LinuxTickState, LinuxTickStep, SleepHint, SleepPlan,
    TickResult,
};
use overmax::focus::{FocusObservation, FocusSource, FocusState, PresentationObservation};
use overmax::geometry::WindowRect;
use overmax::jacket_matcher::{
    centroid_gate, count_ones, hamming_sum, hash_mask, hist_sad, passes_hash_gate, ImageHashes,
    MatchCache, HAMMING_EARLY_EXIT_THRESHOLD, RECENT_CAPACITY,
};
use overmax::json::JsonValue;
use overmax::numbers::{int_text, parse_i32, parse_i64, parse_u64};
use overmax::varchive_cache::{
    delete_cache_records, parse_song_id, record_max_combo, upsert_cache_record, upsert_record,
};
use overmax::windows_capture::{
    acquire_timeout_ms, classify_acquire_error, AcquireFailure, AtlasStaging,
    DXGI_ERROR_WAIT_TIMEOUT,
};
use overmax::x11_window::{
    active_window, active_window_from, focus_walk_start, focus_walk_step, fullscreen_from,
    lists_fullscreen, net_wm_name_verdict, parse_window_list, snapshot_rect, unique_window,
    window_list_from, wm_name_matches, FocusWalk, PropertyReply, WindowListError, ATOM_ATOM,
    reply_or_window_gone, ReplyFailure, ReplyFailureKind,
    ATOM_STRING, ATOM_WINDOW, FOCUS_WALK_LIMIT, POINTER_ROOT,
};

fn empty_reply() -> PropertyReply {
    PropertyReply { type_: 0, format: 0, value_len: 0, bytes_after: 0, value: Vec::new() }
}

fn window_list(windows: &[u32]) -> PropertyReply {
    PropertyReply {
        format: 32,
        type_: ATOM_WINDOW,
        value_len: windows.len() as u32,
        bytes_after: 0,
        value: windows.iter().flat_map(|window| window.to_ne_bytes()).collect(),
    }
}

fn text(s: &str) -> JsonValue {
    JsonValue::String(s.to_string())
}

fn num(s: &str) -> JsonValue {
    JsonValue::Number(s.to_string())
}

fn obj(entries: Vec<(&str, JsonValue)>) -> JsonValue {
    JsonValue::Object(entries.into_iter().map(|(k, v)| (k.to_string(), v)).collect())
}

fn record(title: JsonValue, pattern: &str, score: &str) -> JsonValue {
    obj(vec![("title", title), ("pattern", text(pattern)), ("score", num(score))])
}

#[test]
fn parses_present_and_absent_client_lists() {
    assert_eq!(parse_window_list(&window_list(&[7, 9])).unwrap(), Some(vec![7, 9]));
    assert_eq!(parse_window_list(&empty_reply()).unwrap(), None);
    assert_eq!(parse_window_list(&window_list(&[])).unwrap(), None);
}

#[test]
fn rejects_malformed_client_list() {
    let mut reply = window_list(&[7]);
    reply.format = 8;
    assert!(parse_window_list(&reply).is_err());
}

#[test]
fn duplicate_match_fails_closed() {
    assert_eq!(unique_window(&[7]), Some(7));
    assert_eq!(unique_window(&[7, 9]), None);
    assert_eq!(unique_window(&[]), None);
}

#[test]
fn client_list_errors_name_their_cause() {
    let mut wrong_type = window_list(&[7]);
    wrong_type.type_ = ATOM_ATOM;
    assert_eq!(parse_window_list(&wrong_type), Err(WindowListError::Malformed));
    let mut cut = window_list(&[7, 9]);
    cut.value.pop();
    assert_eq!(parse_window_list(&cut), Err(WindowListError::Truncated));
    let mut more = window_list(&[7]);
    more.bytes_after = 4;
    assert_eq!(parse_window_list(&more), Err(WindowListError::Truncated));
    assert_eq!(
        window_list_from(&window_list(&[7]), None),
        Err(WindowListError::Malformed)
    );
    assert_eq!(window_list_from(&window_list(&[5]), Some(vec![5])), Ok(Some(vec![5])));
    assert_eq!(WindowListError::Truncated.message(), "truncated _NET_CLIENT_LIST property");
}

#[test]
fn window_names_match_only_complete_equal_strings() {
    let utf8 = 300;
    let mut name = PropertyReply {
        type_: utf8,
        format: 8,
        value_len: 5,
        bytes_after: 0,
        value: b"DJMAX".to_vec(),
    };
    assert_eq!(net_wm_name_verdict(&name, utf8, b"DJMAX"), Some(true));
    assert_eq!(net_wm_name_verdict(&name, utf8, b"DJMA"), Some(false));
    name.bytes_after = 1;
    assert_eq!(net_wm_name_verdict(&name, utf8, b"DJMAX"), Some(false));
    name.type_ = ATOM_STRING;
    assert_eq!(net_wm_name_verdict(&name, utf8, b"DJMAX"), None);
    assert!(!wm_name_matches(&name, b"DJMAX"));
    name.bytes_after = 0;
    assert!(wm_name_matches(&name, b"DJMAX"));
}

#[test]
fn active_window_and_fullscreen_read_32_bit_values() {
    assert_eq!(active_window(&window_list(&[42])), Some(42));
    assert_eq!(active_window(&window_list(&[POINTER_ROOT])), None);
    assert_eq!(active_window(&window_list(&[])), None);
    assert_eq!(active_window_from(&window_list(&[1]), Some(vec![77])), Some(77));
    let mut state = window_list(&[10, 11]);
    state.type_ = ATOM_ATOM;
    assert!(lists_fullscreen(&state, 11));
    assert!(!lists_fullscreen(&state, 12));
    assert!(!fullscreen_from(&window_list(&[11]), Some(vec![11]), 11));
    state.format = 8;
    assert!(!lists_fullscreen(&state, 11));
}

#[test]
fn focus_walk_climbs_to_the_game_window() {
    assert_eq!(focus_walk_start(5, 5), FocusWalk::Done(true));
    assert_eq!(focus_walk_start(4, 5), FocusWalk::QueryParent(4));
    assert_eq!(focus_walk_step(4, 5, 1, 5, 0), FocusWalk::Done(true));
    assert_eq!(focus_walk_step(4, 6, 1, 5, 0), FocusWalk::QueryParent(6));
    assert_eq!(focus_walk_step(4, 1, 1, 5, 0), FocusWalk::Done(false));
    assert_eq!(focus_walk_step(4, 0, 1, 5, 0), FocusWalk::Done(false));
    assert_eq!(focus_walk_step(4, 4, 1, 5, 0), FocusWalk::Done(false));
    assert_eq!(focus_walk_step(4, 5, 1, 5, FOCUS_WALK_LIMIT - 1), FocusWalk::Done(false));
    assert_eq!(snapshot_rect(-5, 10, 0, 20), None);
    assert_eq!(
        snapshot_rect(-5, 10, 30, 20),
        Some(WindowRect { left: -5, top: 10, width: 30, height: 20 })
    );
}

#[test]
fn hash_distances_count_masked_bits() {
    assert_eq!(count_ones(0), 0);
    assert_eq!(count_ones(u64::MAX), 64);
    assert_eq!(count_ones(0b1011), 3);
    let a = ImageHashes { phash: 0b1111, dhash: 0, ahash: 0 };
    let b = ImageHashes { phash: 0, dhash: u64::MAX, ahash: 1 };
    let mask = hash_mask();
    assert_eq!(hamming_sum(a, b, u64::MAX), 4 + 64 + 1);
    assert_eq!(hamming_sum(a, a, mask), 0);
    assert_eq!(count_ones(mask), 48);
    assert_eq!(mask, !(0xffu64 | 0x8080_8080_8080_8080 | 0x100));
    assert_eq!(hamming_sum(a, b, mask), 4 + 48);
    assert!(passes_hash_gate(HAMMING_EARLY_EXIT_THRESHOLD));
    assert!(!passes_hash_gate(HAMMING_EARLY_EXIT_THRESHOLD + 1));
}

#[test]
fn histogram_gate_compares_common_bins() {
    assert_eq!(hist_sad(&[10, 0, 5], &[0, 10, 5, 99]), 20);
    assert!(centroid_gate(&[1, 2], None, 0));
    assert!(centroid_gate(&[1, 2], Some(&[2, 2]), 1));
    assert!(!centroid_gate(&[1, 2], Some(&[3, 2]), 1));
}

#[test]
fn match_cache_keeps_recent_indices_first() {
    let mut cache = MatchCache::new();
    assert!(cache.recent_indices().is_empty());
    for i in 0..10 {
        cache.update(i);
    }
    assert_eq!(cache.recent_indices(), vec![9, 8, 7, 6, 5, 4, 3, 2]);
    assert_eq!(cache.recent_indices().len(), RECENT_CAPACITY);
    cache.update(5);
    assert_eq!(cache.recent_indices(), vec![5, 9, 8, 7, 6, 4, 3, 2]);
    cache.update(5);
    assert_eq!(cache.recent_indices(), vec![5, 9, 8, 7, 6, 4, 3, 2]);
}

#[test]
fn numbers_print_and_parse_in_decimal() {
    assert_eq!(int_text(0), "0");
    assert_eq!(int_text(-2147483648), "-2147483648");
    assert_eq!(int_text(441), "441");
    assert_eq!(parse_i32("42"), Some(42));
    assert_eq!(parse_i32("+42"), Some(42));
    assert_eq!(parse_i32("-2147483648"), Some(i32::MIN));
    assert_eq!(parse_i32("2147483648"), None);
    assert_eq!(parse_i32(""), None);
    assert_eq!(parse_i32("4 2"), None);
    assert_eq!(parse_i64("+1", false), None);
    assert_eq!(parse_i64("-9223372036854775808", false), Some(i64::MIN));
    assert_eq!(parse_u64("18446744073709551615"), Some(u64::MAX));
    assert_eq!(parse_u64("18446744073709551616"), None);
    assert_eq!(parse_u64("-1"), None);
}

#[test]
fn cached_records_name_their_song() {
    assert_eq!(parse_song_id(&text("0")), Some(0));
    assert_eq!(parse_song_id(&num("42")), Some(42));
    assert_eq!(parse_song_id(&num("42.5")), None);
    assert_eq!(parse_song_id(&num("4294967296")), None);
    assert_eq!(parse_song_id(&JsonValue::Bool(true)), None);
    assert!(record_max_combo(&obj(vec![("maxCombo", JsonValue::Bool(true))])));
    assert!(record_max_combo(&obj(vec![("maxCombo", num("1"))])));
    assert!(!record_max_combo(&obj(vec![("maxCombo", num("0"))])));
    assert!(!record_max_combo(&obj(vec![("maxCombo", text("1"))])));
    assert!(!record_max_combo(&obj(vec![])));
}

#[test]
fn upserting_a_record_replaces_or_appends() {
    let mut records = vec![record(text("42"), "MX", "90"), record(num("7"), "SC", "80")];
    upsert_record(&mut records, 42, "MX", num("99.5"), true);
    assert_eq!(records.len(), 2);
    assert!(records[0].get("score").unwrap().same_as(&num("99.5")));
    assert!(records[0].get("maxCombo").unwrap().same_as(&JsonValue::Bool(true)));
    upsert_record(&mut records, 7, "NM", num("50"), false);
    assert_eq!(records.len(), 3);
    assert!(records[2].get("title").unwrap().same_as(&text("7")));
    assert!(records[2].get("pattern").unwrap().same_as(&text("NM")));
}

#[test]
fn cache_file_upsert_and_delete() {
    let root = obj(vec![("records", JsonValue::Array(vec![record(text("42"), "MX", "90")]))]);
    let updated = upsert_cache_record(root, 42, "MX", num("95"), false).unwrap();
    let recs = updated.get("records").unwrap();
    match recs {
        JsonValue::Array(items) => {
            assert_eq!(items.len(), 1);
            assert!(items[0].get("score").unwrap().same_as(&num("95")));
        },
        _ => panic!("records must stay an array"),
    }
    assert!(upsert_cache_record(text("oops"), 42, "MX", num("95"), false).is_err());
    let pruned = delete_cache_records(updated, 42, "MX");
    match pruned.get("records").unwrap() {
        JsonValue::Array(items) => assert!(items.is_empty()),
        _ => panic!("records must stay an array"),
    }
}

#[test]
fn dxgi_acquire_timeouts_and_staging_buffers() {
    assert_eq!(acquire_timeout_ms(true), 50);
    assert_eq!(acquire_timeout_ms(false), 0);
    assert_eq!(classify_acquire_error(DXGI_ERROR_WAIT_TIMEOUT, true), AcquireFailure::InitialTimeout);
    assert_eq!(classify_acquire_error(DXGI_ERROR_WAIT_TIMEOUT, false), AcquireFailure::KeepLastFrame);
    assert_eq!(classify_acquire_error(5, false), AcquireFailure::Failed(5));
    let mut staging = AtlasStaging::new();
    assert_eq!(staging.write_index(), 0);
    // the first copy is read back at once; later ones a frame late
    assert_eq!(staging.after_copy(), 0);
    assert_eq!(staging.write_index(), 1);
    assert_eq!(staging.after_copy(), 0);
    assert_eq!(staging.write_index(), 0);
    assert_eq!(staging.after_copy(), 1);
    assert_eq!(staging.without_new_frame(), 0);
    staging.reset();
    assert_eq!(staging.write_index(), 0);
}

#[test]
fn sleep_follows_window_state() {
    let mut session = DetectionSession::new();
    assert_eq!(session.sleep_plan(SleepHint::Active, 5, 300), SleepPlan::Idle);
    session.was_found = true;
    session.is_foreground = true;
    assert_eq!(session.sleep_plan(SleepHint::Active, 5, 300), SleepPlan::Millis(5));
    assert_eq!(session.sleep_plan(SleepHint::Relaxed, 5, 300), SleepPlan::Millis(1000));
    session.is_foreground = false;
    assert_eq!(session.sleep_plan(SleepHint::Active, 5, 300), SleepPlan::Millis(300));
}

#[test]
fn same_target_is_idempotent() {
    assert_eq!(target_transition(Some(7), Some(7)), TargetTransition::Keep);
    assert_eq!(target_transition(None, None), TargetTransition::Keep);
    assert_eq!(target_transition(Some(7), None), TargetTransition::Clear);
    assert_eq!(target_transition(Some(7), Some(8)), TargetTransition::Replace(8));
}

fn bgra_visual(id: u32) -> VisualType {
    VisualType {
        visual_id: id,
        class: VISUAL_CLASS_TRUE_COLOR,
        red_mask: 0x00ff_0000,
        green_mask: 0x0000_ff00,
        blue_mask: 0x0000_00ff,
    }
}

fn setup() -> PixelSetup {
    PixelSetup {
        image_byte_order: IMAGE_ORDER_LSB_FIRST,
        pixmap_formats: vec![
            PixmapFormat { depth: 24, bits_per_pixel: 24, scanline_pad: 32 },
            PixmapFormat { depth: 24, bits_per_pixel: 32, scanline_pad: 32 },
            PixmapFormat { depth: 24, bits_per_pixel: 32, scanline_pad: 8 },
        ],
        depths: vec![
            DepthVisuals { depth: 32, visuals: vec![bgra_visual(0x21)] },
            DepthVisuals {
                depth: 24,
                visuals: vec![
                    VisualType { class: 3, ..bgra_visual(0x21) },
                    bgra_visual(0x22),
                ],
            },
            DepthVisuals { depth: 24, visuals: vec![bgra_visual(0x21)] },
        ],
    }
}

fn info(visual: u32, depth: u8) -> WindowInfo {
    WindowInfo { window: 9, visual, width: 1920, height: 1080, depth }
}

#[test]
fn pixel_layout_comes_from_the_first_format_and_visual() {
    let layout = PixelLayout { stride: 7680, size: 8294400, frame_len: 8294400 };
    assert_eq!(pixel_layout(&setup(), info(0x22, 24)), Ok(layout));
    assert_eq!(pixel_layout(&setup(), info(0x22, 16)), Err(PixelLayoutError::NoFormat { depth: 16 }));
    assert_eq!(pixel_layout(&setup(), info(0x99, 24)), Err(PixelLayoutError::NoVisual { visual: 0x99 }));
    // the first visual 0x21 of depth 24 is not true colour
    assert_eq!(
        pixel_layout(&setup(), info(0x21, 24)),
        Err(PixelLayoutError::Unsupported {
            depth: 24,
            bits_per_pixel: 32,
            image_order: IMAGE_ORDER_LSB_FIRST,
            class: 3,
            red_mask: 0x00ff_0000,
            green_mask: 0x0000_ff00,
            blue_mask: 0x0000_00ff,
        })
    );
    let mut msb = setup();
    msb.image_byte_order = 1;
    assert!(matches!(pixel_layout(&msb, info(0x22, 24)), Err(PixelLayoutError::Unsupported { .. })));
    let huge = WindowInfo { width: 65535, height: 65535, ..info(0x22, 24) };
    assert!(pixel_layout(&setup(), huge).is_ok());
    // rows padded to 12 bits are not a layout the capture knows
    let mut odd = setup();
    odd.pixmap_formats = vec![PixmapFormat { depth: 24, bits_per_pixel: 32, scanline_pad: 12 }];
    assert_eq!(
        pixel_layout(&odd, info(0x22, 24)),
        Err(PixelLayoutError::Overflow { width: 1920, height: 1080, scanline_pad: 12 })
    );
}

#[test]
fn generation_plan_checks_the_named_pixmap() {
    let (layout, size) = generation_plan(&setup(), info(0x22, 24), 1920, 1080, 24).unwrap();
    assert_eq!(layout.stride, 7680);
    assert_eq!(size, 8294400);
    let err = generation_plan(&setup(), info(0x22, 24), 1920, 1000, 24).unwrap_err();
    assert_eq!(err, GenerationError::GeometryMismatch { width: 1920, height: 1000, depth: 24 });
    assert!(err.is_transient());
    let big = WindowInfo { width: 65535, height: 65535, ..info(0x22, 24) };
    let err = generation_plan(&setup(), big, 65535, 65535, 24).unwrap_err();
    assert_eq!(err, GenerationError::TooLarge { size: 65535 * 4 * 65535 });
    assert!(!err.is_transient());
    let err = generation_plan(&setup(), info(0x99, 24), 1920, 1080, 24).unwrap_err();
    assert_eq!(err, GenerationError::Layout(PixelLayoutError::NoVisual { visual: 0x99 }));
}

#[test]
fn window_info_requires_a_viewable_borderless_area() {
    assert_eq!(
        check_window_info(9, MAP_STATE_VIEWABLE, 0x22, 0, 640, 480, 24),
        Ok(WindowInfo { window: 9, visual: 0x22, width: 640, height: 480, depth: 24 })
    );
    assert_eq!(check_window_info(9, 1, 0x22, 0, 640, 480, 24), Err(WindowInfoError::NotViewable));
    assert_eq!(check_window_info(9, MAP_STATE_VIEWABLE, 0x22, 2, 640, 480, 24), Err(WindowInfoError::Border(2)));
    assert_eq!(check_window_info(9, MAP_STATE_VIEWABLE, 0x22, 0, 0, 480, 24), Err(WindowInfoError::ZeroSize));
    assert!(shm_reply_matches(24, 100, 24, 100));
    assert!(!shm_reply_matches(32, 100, 24, 100));
    assert!(!shm_reply_matches(24, 99, 24, 100));
}

#[test]
fn lifecycle_events_of_the_bound_window() {
    let resize = LifecycleEvent::Configured { window: 9, width: 800, height: 600 };
    assert_eq!(lifecycle_action(resize, Some(9), Some((800, 600))), LifecycleAction::Ignore);
    assert_eq!(lifecycle_action(resize, Some(9), Some((640, 480))), LifecycleAction::Invalidate);
    assert_eq!(lifecycle_action(resize, Some(9), None), LifecycleAction::Ignore);
    assert_eq!(lifecycle_action(resize, Some(8), Some((640, 480))), LifecycleAction::Ignore);
    assert_eq!(lifecycle_action(LifecycleEvent::Unmapped { window: 9 }, Some(9), None), LifecycleAction::Invalidate);
    assert_eq!(lifecycle_action(LifecycleEvent::Mapped { window: 9 }, Some(9), None), LifecycleAction::Invalidate);
    assert_eq!(lifecycle_action(LifecycleEvent::Destroyed { window: 9 }, Some(9), None), LifecycleAction::Destroy);
    assert_eq!(lifecycle_action(LifecycleEvent::Destroyed { window: 9 }, None, None), LifecycleAction::Ignore);
    assert_eq!(lifecycle_action(LifecycleEvent::Other, Some(9), None), LifecycleAction::Ignore);
    assert!(transient_error_kind(X11ErrorKind::Pixmap));
    assert!(transient_error_kind(X11ErrorKind::Match));
    assert!(!transient_error_kind(X11ErrorKind::Other));
}

#[test]
fn detecting_is_published_once_per_capture_failure_streak() {
    let mut session = DetectionSession::new();
    let first = session.on_capture_interrupted();
    let same = session.on_capture_interrupted();
    assert!(first.send_detecting && first.reset_pipeline);
    assert!(!same.send_detecting && same.reset_pipeline);
    session.capture_failure_active = false;
    assert!(session.on_capture_interrupted().send_detecting);
}

#[test]
fn a_permanent_capture_error_stops_the_loop() {
    let mut session = DetectionSession::new();
    let (result, actions) = session.handle_capture_error(CaptureErrorAction::Stop);
    assert_eq!(result, TickResult::Stop);
    assert!(actions.send_detecting && actions.reset_pipeline);
    assert_eq!(session.handle_capture_error(CaptureErrorAction::Reconnect).0, TickResult::Reconnect);
    assert_eq!(session.handle_capture_error(CaptureErrorAction::Retry).0, TickResult::Continue);
}

#[test]
fn snapshot_windows_must_be_nonzero_32_bit_ids() {
    let rect = WindowRect { left: 0, top: 0, width: 10, height: 10 };
    let snap = |window: u64| Some(WindowSnapshot { window, rect, foreground: true, fullscreen: false });
    assert_eq!(snapshot_window(None), Ok(None));
    assert_eq!(snapshot_window(snap(5)), Ok(Some(5)));
    assert_eq!(snapshot_window(snap(0)), Err(SnapshotWindowError::Zero));
    assert_eq!(snapshot_window(snap(1 << 32)), Err(SnapshotWindowError::OutOfRange(1 << 32)));
}

fn tick_window(window: u64, width: i32) -> WindowSnapshot {
    WindowSnapshot {
        window,
        rect: WindowRect { left: 0, top: 0, width, height: 720 },
        foreground: false,
        fullscreen: false,
    }
}

fn x11_focus(state: FocusState, generation: u64) -> FocusObservation {
    FocusObservation { state, source: FocusSource::EwmhActiveWindow, generation }
}

#[test]
fn linux_tick_captures_a_focused_window_and_stops_after_a_debounced_background() {
    let start: u64 = 10_000_000_000;
    let mut state = LinuxTickState::new(start);
    let window = tick_window(7, 1280);
    let plan = state.step(Some(Some((window, x11_focus(FocusState::Focused, 1)))), None, start);
    assert_eq!(plan.interrupt, None);
    assert_eq!(plan.step, LinuxTickStep::Capture(window.rect));
    assert!(plan.step_actions.game_found);
    assert!(plan.overlay_snapshot_changed);
    assert!(state.window_snapshot.unwrap().foreground);

    // A background observation younger than the debounce keeps capturing.
    let background = x11_focus(FocusState::Background, 2);
    let plan = state.step(Some(Some((window, background))), None, start + 100_000_000);
    assert_eq!(plan.interrupt, None);
    assert_eq!(plan.step, LinuxTickStep::Capture(window.rect));

    // Once it has lasted the debounce, capture is interrupted and stops.
    let plan = state.step(None, None, start + 400_000_000);
    assert_eq!(plan.interrupt, Some(InterruptReason::Background));
    assert!(plan.interrupt_actions.reset_pipeline);
    assert!(plan.interrupt_actions.send_detecting);
    assert_eq!(plan.step, LinuxTickStep::Background);
    assert!(!state.window_snapshot.unwrap().foreground);
}

#[test]
fn linux_tick_interrupts_on_a_new_target_and_on_a_resize() {
    let start: u64 = 10_000_000_000;
    let mut state = LinuxTickState::new(start);
    let focused = x11_focus(FocusState::Focused, 1);
    state.step(Some(Some((tick_window(7, 1280), focused))), None, start);

    let plan = state.step(Some(Some((tick_window(9, 1280), focused))), None, start + 1_000_000_000);
    assert_eq!(plan.interrupt, Some(InterruptReason::TargetChanged));

    let plan = state.step(Some(Some((tick_window(9, 1600), focused))), None, start + 2_000_000_000);
    assert_eq!(plan.interrupt, Some(InterruptReason::TargetResized));
    assert_eq!(plan.step, LinuxTickStep::Capture(tick_window(9, 1600).rect));
}

#[test]
fn linux_tick_takes_focus_and_fullscreen_from_the_compositor() {
    let start: u64 = 10_000_000_000;
    let mut state = LinuxTickState::new(start);
    let presentation = PresentationObservation {
        focus: FocusState::Focused,
        fullscreen: Some(true),
        generation: 4,
        committed_at_ns: start,
    };
    let plan = state.step(
        Some(Some((tick_window(7, 1280), x11_focus(FocusState::Unknown, 1)))),
        Some(presentation),
        start,
    );
    assert_eq!(plan.step, LinuxTickStep::Capture(tick_window(7, 1280).rect));
    let snapshot = state.window_snapshot.unwrap();
    assert!(snapshot.foreground);
    assert!(snapshot.fullscreen);
}

#[test]
fn linux_tick_reports_a_lost_window_and_failed_queries() {
    let start: u64 = 10_000_000_000;
    let mut state = LinuxTickState::new(start);
    state.step(Some(Some((tick_window(7, 1280), x11_focus(FocusState::Focused, 1)))), None, start);
    let plan = state.step(Some(None), None, start + 1_000_000_000);
    assert_eq!(plan.step, LinuxTickStep::WindowMissing);
    assert!(plan.step_actions.reset_pipeline);
    assert!(!state.session.was_found);

    let (result, actions) = state.on_query_failed();
    assert_eq!(result, TickResult::Reconnect);
    assert!(actions.send_detecting);

    let (result, _) = state.on_capture_result(Some(CaptureErrorAction::Stop));
    assert_eq!(result, TickResult::Stop);
    let (result, actions) = state.on_capture_result(None);
    assert_eq!(result, TickResult::Continue);
    assert!(!actions.request_repaint);
    assert!(!state.session.capture_failure_active);
}

#[test]
fn transport_error_is_not_window_missing() {
    let error = x11rb::errors::ReplyError::ConnectionError(x11rb::errors::ConnectionError::UnknownError);
    let reply: Result<(), ReplyFailure> =
        Err(ReplyFailure { kind: ReplyFailureKind::Connection, message: error.to_string() });
    assert!(reply_or_window_gone(reply).is_err());
}

#[test]
fn window_error_means_the_window_is_gone() {
    let gone: Result<u32, ReplyFailure> =
        Err(ReplyFailure { kind: ReplyFailureKind::BadWindow, message: "BadWindow".to_string() });
    assert_eq!(reply_or_window_gone(gone).unwrap(), None);
    let other: Result<u32, ReplyFailure> =
        Err(ReplyFailure { kind: ReplyFailureKind::OtherX11Error, message: "BadAtom".to_string() });
    assert_eq!(reply_or_window_gone(other).unwrap_err(), "BadAtom");
    assert_eq!(reply_or_window_gone::<u32>(Ok(5)).unwrap(), Some(5));
}

#[test]
fn little_endian_word_is_read_from_bytes() {
    let reply = PropertyReply { type_: ATOM_WINDOW, format: 32, value_len: 1, bytes_after: 0, value: vec![5, 0, 0, 0] };
    let active = active_window(&reply).unwrap();
    assert!(active == 5 || active == 0x0500_0000);
}
