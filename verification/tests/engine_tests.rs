use overmax::atlas::{atlas_slots, build_virtual_atlas, ATLAS_HEIGHT, ATLAS_WIDTH};
use overmax::atlas_translator::AtlasTranslator;
use overmax::geometry::{Difficulty, RawRoiRect, RoiRect};
use overmax::capture_layout::{
    calculate_layout, pixel_format_supported, prefer_cleanup_error, remember_failure,
    CaptureErrorAction, CaptureErrorState, CaptureFailure, X11CaptureEngine,
    IMAGE_ORDER_LSB_FIRST, VISUAL_CLASS_TRUE_COLOR,
};
use overmax::focus::{
    capture_target_resized, effective_focus, FocusLoss, FocusObservation, FocusSource, FocusState,
    LinuxFocusPolicy, PresentationObservation,
};
use overmax::gameplay::{gray, gray_crops, view_of};
use overmax::gameplay_scene::{GameplaySceneReader, ShapeTemplate};
use overmax::geometry::{CapturedFrame, ImageRegion, SceneType, WindowRect, WindowSnapshot};
use overmax::ocr_text::{
    is_logo_keyword_match, normalize_alnum, parse_score_text, resize_binary, OcrDetector,
};
use overmax::play_state::RateInputChecksums;
use overmax::roi_config::GlobalRoiConfig;
use overmax::windows_capture::{encode_wide, output_contains_center, OutputBounds, PreferredCaptureEngine};

const MS: u64 = 1_000_000;

fn snapshot(rect: WindowRect) -> WindowSnapshot {
    WindowSnapshot {
        window: 7,
        rect,
        foreground: true,
        fullscreen: false,
    }
}

fn focus(state: FocusState, generation: u64) -> FocusObservation {
    FocusObservation {
        state,
        source: FocusSource::EwmhActiveWindow,
        generation,
    }
}

#[test]
fn calculates_checked_bgra_layout() {
    let layout = calculate_layout(1920, 1080, 32, 32).unwrap();
    assert_eq!(layout.stride, 7680);
    assert_eq!(layout.size, 8_294_400);
    assert_eq!(layout.frame_len, 8_294_400);
    assert!(calculate_layout(u32::MAX, 1080, 32, 32).is_none());
    assert!(calculate_layout(1920, 1080, 24, 32).is_none());
}

#[test]
fn accepts_only_native_bgra_truecolor() {
    assert!(pixel_format_supported(
        24,
        32,
        IMAGE_ORDER_LSB_FIRST,
        VISUAL_CLASS_TRUE_COLOR,
        0x00ff_0000,
        0x0000_ff00,
        0x0000_00ff,
    ));
    assert!(!pixel_format_supported(
        24,
        32,
        1,
        VISUAL_CLASS_TRUE_COLOR,
        0x00ff_0000,
        0x0000_ff00,
        0x0000_00ff,
    ));
}

#[test]
fn test_all_slots_within_atlas_bounds() {
    for slot in &atlas_slots() {
        assert!(slot.atlas_rect.x >= 0, "Slot {} ({:?}) negative atlas x: {}", slot.name(), slot.scene, slot.atlas_rect.x);
        assert!(slot.atlas_rect.y >= 0, "Slot {} ({:?}) negative atlas y: {}", slot.name(), slot.scene, slot.atlas_rect.y);
        assert!(
            slot.atlas_rect.x + slot.atlas_rect.width <= ATLAS_WIDTH as i32,
            "Slot {} ({:?}) exceeds ATLAS_WIDTH: {} + {} = {} > {}",
            slot.name(),
            slot.scene,
            slot.atlas_rect.x,
            slot.atlas_rect.width,
            slot.atlas_rect.x + slot.atlas_rect.width,
            ATLAS_WIDTH
        );
        assert!(
            slot.atlas_rect.y + slot.atlas_rect.height <= ATLAS_HEIGHT as i32,
            "Slot {} ({:?}) exceeds ATLAS_HEIGHT: {} + {} = {} > {}",
            slot.name(),
            slot.scene,
            slot.atlas_rect.y,
            slot.atlas_rect.height,
            slot.atlas_rect.y + slot.atlas_rect.height,
            ATLAS_HEIGHT
        );
    }
}

#[test]
fn test_no_overlapping_slots_in_atlas() {
    let slots = atlas_slots();
    for (i, s1) in slots.iter().enumerate() {
        let r1 = s1.atlas_rect;
        for s2 in slots.iter().skip(i + 1) {
            let r2 = s2.atlas_rect;

            let overlap = !(r1.x + r1.width <= r2.x
                || r2.x + r2.width <= r1.x
                || r1.y + r1.height <= r2.y
                || r2.y + r2.height <= r1.y);

            assert!(
                !overlap,
                "Overlap detected between slot {} ({:?}) at {:?} and slot {} ({:?}) at {:?}",
                s1.name(),
                s1.scene,
                r1,
                s2.name(),
                s2.scene,
                r2
            );
        }
    }
}

#[test]
fn test_positive_slot_dimensions() {
    for slot in &atlas_slots() {
        assert!(slot.src_rect.width > 0);
        assert!(slot.src_rect.height > 0);
        assert_eq!(slot.src_rect.width, slot.atlas_rect.width);
        assert_eq!(slot.src_rect.height, slot.atlas_rect.height);
    }
}

#[test]
fn atlas_copies_each_slot_and_leaves_the_rest_black() {
    let mut bgra = vec![0u8; 1920 * 1080 * 4];
    for (i, b) in bgra.iter_mut().enumerate() {
        *b = (i % 251) as u8 + 1;
    }
    let frame = CapturedFrame { width: 1920, height: 1080, bgra };
    let atlas = build_virtual_atlas(&frame);
    assert_eq!((atlas.width, atlas.height), (512, 512));
    let slot = atlas_slots()[0];
    let src = ((slot.src_rect.y as usize) * 1920 + slot.src_rect.x as usize) * 4;
    let dst = ((slot.atlas_rect.y as usize) * 512 + slot.atlas_rect.x as usize) * 4;
    assert_eq!(atlas.bgra[dst..dst + 4], frame.bgra[src..src + 4]);
    assert_eq!(atlas.bgra[511 * 512 * 4 + 511 * 4], 0);
}

#[test]
fn resets_only_when_the_capture_size_changes() {
    let initial = snapshot(WindowRect {
        left: 20,
        top: 30,
        width: 1280,
        height: 720,
    });
    let moved = snapshot(WindowRect {
        left: 50,
        top: 60,
        ..initial.rect
    });
    let resized = snapshot(WindowRect {
        width: 1600,
        height: 900,
        ..initial.rect
    });

    assert!(!capture_target_resized(Some(initial), Some(moved)));
    assert!(capture_target_resized(Some(initial), Some(resized)));
}

#[test]
fn debounces_background_and_graces_unknown_once() {
    let start = 5_000 * MS;
    let mut policy = LinuxFocusPolicy::new();

    assert_eq!(policy.update(focus(FocusState::Focused, 1), start, start), (true, None));
    let background_commit = start + 100 * MS;
    assert_eq!(
        policy.update(focus(FocusState::Background, 2), background_commit, background_commit + 299 * MS),
        (true, None)
    );
    assert_eq!(
        policy.update(focus(FocusState::Background, 2), background_commit, background_commit + 300 * MS),
        (false, Some(FocusLoss::Background))
    );
    assert_eq!(
        policy.update(focus(FocusState::Background, 2), background_commit, start + 2_000 * MS),
        (false, None)
    );

    let focused_commit = start + 3_000 * MS;
    assert_eq!(
        policy.update(focus(FocusState::Focused, 3), focused_commit, focused_commit),
        (true, None)
    );
    let unknown_commit = focused_commit + 100 * MS;
    assert_eq!(
        policy.update(focus(FocusState::Unknown, 4), unknown_commit, unknown_commit),
        (true, None)
    );
    assert_eq!(
        policy.update(focus(FocusState::Unknown, 4), unknown_commit, unknown_commit + 999 * MS),
        (true, None)
    );
    assert_eq!(
        policy.update(focus(FocusState::Unknown, 4), unknown_commit, unknown_commit + 1_000 * MS),
        (false, Some(FocusLoss::Unknown))
    );
    assert_eq!(
        policy.update(focus(FocusState::Unknown, 4), unknown_commit, unknown_commit + 2_000 * MS),
        (false, None)
    );
}

#[test]
fn cold_start_non_foreground_is_fail_closed() {
    let now = 1_000 * MS;
    for state in [FocusState::Background, FocusState::Unknown] {
        let mut policy = LinuxFocusPolicy::new();
        assert_eq!(policy.update(focus(state, 1), now, now), (false, None));
    }
}

#[test]
fn wayland_focus_overrides_x11_fallback() {
    let x11 = focus(FocusState::Background, 4);
    let presentation = PresentationObservation {
        focus: FocusState::Focused,
        fullscreen: Some(true),
        generation: 7,
        committed_at_ns: 0,
    };

    assert_eq!(effective_focus(x11, None), x11);
    assert_eq!(
        effective_focus(x11, Some(presentation)),
        FocusObservation {
            state: FocusState::Focused,
            source: FocusSource::WaylandForeignToplevel,
            generation: 7,
        }
    );
}

#[test]
fn parses_score_text_correctly() {
    assert_eq!(parse_score_text("999,800"), Some(999800));
    assert_eq!(parse_score_text("1,000,000"), Some(1000000));
    assert_eq!(parse_score_text("abc"), None);
}

#[test]
fn normalizes_logo_text_to_alnum_uppercase() {
    assert_eq!(normalize_alnum("free style!"), "FREESTYLE");
}

#[test]
fn matches_logo_keyword_by_substring_partial_or_ratio() {
    assert!(is_logo_keyword_match("FREESTYLE", "DJMAXFREESTYLE"));
    assert!(is_logo_keyword_match("FREESTYLE", "FREEST"));
    assert!(is_logo_keyword_match("FREESTYLE", "FREESTY1E"));
    assert!(is_logo_keyword_match("ONLINE", "DJMAXONLINE"));
    assert!(is_logo_keyword_match("ONLINE", "ONL1NE"));
    assert!(!is_logo_keyword_match("FREESTYLE", "MISSION"));
}

#[test]
fn score_falls_back_to_recognition_when_digits_are_missing() {
    let detector = OcrDetector::new();
    let region = ImageRegion { width: 0, height: 0, bgra: Vec::new() };
    assert_eq!(detector.detect_score(Some("999,800"), &region), Some(999800));
    assert_eq!(detector.detect_score(Some("99?800"), &region), None);
    assert_eq!(detector.detect_score(Some(""), &region), None);
    assert_eq!(detector.detect_score(None, &region), None);
    assert!(!detector.is_available());
    assert!(detector.contains_mode_keyword("Mode 5B"));
    assert!(!detector.contains_mode_keyword("Mode X"));
    assert_eq!(detector.parse_mode_from_text("8b"), Some("8B".to_string()));
}

#[test]
fn resizes_binary_images_by_nearest_neighbour() {
    let src = vec![1u8, 2, 3, 4];
    assert_eq!(resize_binary(&src, 2, 2, 2, 2), src);
    assert_eq!(resize_binary(&src, 2, 2, 4, 2), vec![1, 1, 2, 2, 3, 3, 4, 4]);
    assert_eq!(resize_binary(&src, 2, 2, 1, 1), vec![1]);
}

#[test]
fn rate_checksum_cache_only_refreshes_on_meaningful_input_change() {
    let previous = RateInputChecksums {
        score: 2_000,
        badge: 500,
    };

    assert_eq!(
        previous,
        RateInputChecksums {
            score: 2_049,
            badge: 549,
        }
    );
    assert_ne!(
        previous,
        RateInputChecksums {
            score: 2_051,
            badge: 500,
        }
    );
    assert_ne!(
        previous,
        RateInputChecksums {
            score: 2_000,
            badge: 551,
        }
    );
}

#[test]
fn capture_errors_latch_and_keep_the_first_transient_message() {
    let mut state = CaptureErrorState::new(None);
    assert_eq!(state.fatal_error(), None);
    assert_eq!(state.finish_capture(Err(CaptureFailure::Transient("a".into()))), Err("a".to_string()));
    assert_eq!(state.finish_capture(Err(CaptureFailure::Transient("b".into()))), Err("a".to_string()));
    assert_eq!(state.finish_capture(Ok(())), Ok(()));
    assert_eq!(state.finish_set_target(Err(CaptureFailure::Permanent("gone".into()))), Err("gone".to_string()));
    assert_eq!(state.fatal_error(), Some("gone".to_string()));

    let mut first = None;
    remember_failure(&mut first, Ok(()));
    remember_failure(&mut first, Err(CaptureFailure::Transient("one".into())));
    remember_failure(&mut first, Err(CaptureFailure::Permanent("two".into())));
    assert!(matches!(first, Some(CaptureFailure::Transient(ref m)) if m == "one"));
    let chosen = prefer_cleanup_error(CaptureFailure::Transient("step".into()), Err(CaptureFailure::Permanent("cleanup".into())));
    assert!(matches!(chosen, CaptureFailure::Permanent(ref m) if m == "cleanup"));
}

#[test]
fn x11_backend_reports_that_it_cannot_capture() {
    let mut engine = X11CaptureEngine::new().unwrap();
    let rect = WindowRect { left: 0, top: 0, width: 10, height: 10 };
    assert_eq!(engine.capture_bgra(rect).unwrap_err(), "X11 capture is not implemented yet");
    assert_eq!(engine.error_action(), CaptureErrorAction::Retry);
}

#[test]
fn windows_helpers_encode_and_parse() {
    assert_eq!(encode_wide("A\u{1F600}"), vec![0x41, 0xd83d, 0xde00, 0]);
    assert_eq!(PreferredCaptureEngine::parse("DXGI"), PreferredCaptureEngine::Dxgi);
    assert_eq!("Auto".parse::<PreferredCaptureEngine>().unwrap(), PreferredCaptureEngine::Auto);
    assert_eq!(PreferredCaptureEngine::parse("other"), PreferredCaptureEngine::Gdi);
    let bounds = OutputBounds { left: 0, top: 0, right: 1920, bottom: 1080 };
    assert!(output_contains_center(WindowRect { left: 100, top: 100, width: 800, height: 600 }, bounds));
    assert!(!output_contains_center(WindowRect { left: 1800, top: 100, width: 800, height: 600 }, bounds));
}

#[test]
fn roi_table_names_scenes_and_regions() {
    let config = GlobalRoiConfig::default();
    assert_eq!((config.logo.x, config.logo.y, config.logo.width, config.logo.height), (10, 10, 100, 100));
    assert!(config.has_scene(SceneType::Online));
    assert!(!config.has_scene(SceneType::Unknown));
    let rate = config.roi(SceneType::Freestyle, "rate").unwrap();
    assert_eq!((rate.x, rate.y, rate.width, rate.height), (172, 583, 104, 22));
    assert_eq!(config.roi(SceneType::LadderMatch, "jacket"), config.roi(SceneType::OpenMatch, "jacket"));
    assert!(config.roi(SceneType::Online, "rate").is_none());
    assert!(config.roi(SceneType::Freestyle, "nothing").is_none());
}

#[test]
fn gameplay_reader_reads_gear_frames_and_pause_title() {
    let mut frame = CapturedFrame { width: 1920, height: 1080, bgra: vec![0; 1920 * 1080 * 4] };
    let title: Vec<u8> = (0..148 * 28).map(|i| ((i * 37) % 256) as u8).collect();
    let mut reader = GameplaySceneReader::new(vec![ShapeTemplate::new(title.clone())]);
    assert_eq!(reader.read(&frame), SceneType::Unknown);

    for x in [702 + 6, 1211 + 6] {
        for row in 0..9 {
            frame.bgra[((80 + row * 32) * 1920 + x) * 4 + 2] = 255;
        }
    }
    assert_eq!(reader.read(&frame), SceneType::Gameplay);

    let mut k = 0;
    for y in 177..177 + 28 {
        for x in 731..731 + 148 {
            let p = (y * 1920 + x) * 4;
            frame.bgra[p] = title[k];
            frame.bgra[p + 1] = title[k];
            frame.bgra[p + 2] = title[k];
            k += 1;
        }
    }
    assert_eq!(reader.read(&frame), SceneType::Paused);

    let small = CapturedFrame { width: 512, height: 512, bgra: vec![0; 512 * 512 * 4] };
    assert_eq!(reader.read(&small), SceneType::Unknown);
}

#[test]
fn gray_crops_reads_luma_row_by_row() {
    let frame = CapturedFrame { width: 2, height: 1, bgra: vec![0, 0, 255, 0, 255, 255, 255, 0] };
    let view = view_of(&frame, 0, 0, 2, 1);
    let mut out = vec![9];
    gray_crops(&[view], &mut out);
    assert_eq!(out, vec![gray(&[0, 0, 255]), 255]);
    assert_eq!(gray(&[0, 0, 255]), 77);
}

/// The rows of the region `r` of `frame`, or nothing where it is empty or
/// outside the frame.
fn crop_rows(frame: &CapturedFrame, r: RoiRect) -> Option<Vec<Vec<u8>>> {
    if r.x1 < 0 || r.y1 < 0 || r.x2 > frame.width || r.y2 > frame.height || r.x1 >= r.x2 || r.y1 >= r.y2 {
        return None;
    }
    let w = frame.width as usize;
    let rows = (r.y1..r.y2)
        .map(|y| {
            let start = (y as usize * w + r.x1 as usize) * 4;
            let end = (y as usize * w + r.x2 as usize) * 4;
            frame.bgra[start..end].to_vec()
        })
        .collect();
    Some(rows)
}

fn corners(r: RawRoiRect) -> RoiRect {
    RoiRect::from_raw(r)
}

#[test]
fn test_src_rect_matches_global_roi_config() {
    let global_config = GlobalRoiConfig::default();

    for slot in &atlas_slots() {
        assert!(global_config.has_scene(slot.scene), "Scene {:?} not found in GlobalRoiConfig", slot.scene);
        let name = slot.name();

        if name.starts_with("diff_panel_") {
            let diff_name = name.strip_prefix("diff_panel_").unwrap();
            let diff = match diff_name {
                "NM" => Difficulty::NM,
                "HD" => Difficulty::HD,
                "MX" => Difficulty::MX,
                "SC" => Difficulty::SC,
                _ => panic!("Unknown diff: {}", diff_name),
            };
            let base_diff_rect = global_config
                .roi(slot.scene, "diff_panel")
                .unwrap_or_else(|| panic!("diff_panel not found in {:?}", slot.scene));
            let offset = match diff {
                Difficulty::NM => 0,
                Difficulty::HD => 120,
                Difficulty::MX => 240,
                Difficulty::SC => 360,
            };
            assert_eq!(slot.src_rect.x, base_diff_rect.x + offset, "Slot {} diff x mismatch", name);
            assert_eq!(slot.src_rect.y, base_diff_rect.y, "Slot {} diff y mismatch", name);
            assert_eq!(slot.src_rect.width, base_diff_rect.width, "Slot {} diff width mismatch", name);
            assert_eq!(slot.src_rect.height, base_diff_rect.height, "Slot {} diff height mismatch", name);
        } else {
            let expected = global_config
                .roi(slot.scene, name)
                .unwrap_or_else(|| panic!("ROI {} not found in scene {:?}", name, slot.scene));
            if (slot.scene == SceneType::Freestyle || slot.scene == SceneType::OpenMatch) && name == "jacket" {
                assert_eq!(slot.src_rect.x, expected.x);
                assert_eq!(slot.src_rect.y, expected.y);
                assert_eq!(slot.src_rect.width, expected.width + 4);
                assert_eq!(slot.src_rect.height, expected.height);
            } else if slot.scene == SceneType::ResultFreestyle && name == "mode_colorbar" {
                assert_eq!(slot.src_rect.x, expected.x - 8);
                assert_eq!(slot.src_rect.y, expected.y);
                assert_eq!(slot.src_rect.width, expected.width + 16);
                assert_eq!(slot.src_rect.height, expected.height);
            } else {
                assert_eq!(slot.src_rect, expected, "Src rect mismatch for {} in {:?}", name, slot.scene);
            }
        }
    }
}

#[test]
fn test_virtual_atlas_pixel_perfect_identity() {
    let w = 1920;
    let h = 1080;
    let mut bgra = Vec::with_capacity((w * h * 4) as usize);
    for y in 0..h {
        for x in 0..w {
            bgra.push((x & 0xFF) as u8);
            bgra.push((y & 0xFF) as u8);
            bgra.push(((x ^ y) & 0xFF) as u8);
            bgra.push(255);
        }
    }
    let original_frame = CapturedFrame { width: w, height: h, bgra };

    let atlas_frame = build_virtual_atlas(&original_frame);
    assert_eq!(atlas_frame.width, ATLAS_WIDTH as i32);
    assert_eq!(atlas_frame.height, ATLAS_HEIGHT as i32);

    for slot in &atlas_slots() {
        let orig_crop = crop_rows(&original_frame, corners(slot.src_rect))
            .unwrap_or_else(|| panic!("Failed to crop original for {}", slot.name()));
        let atlas_slot_crop = crop_rows(&atlas_frame, corners(slot.atlas_rect))
            .unwrap_or_else(|| panic!("Failed to crop atlas slot for {}", slot.name()));

        assert_eq!(orig_crop.len(), atlas_slot_crop.len());
        for (y, (a, b)) in orig_crop.iter().zip(atlas_slot_crop.iter()).enumerate() {
            assert_eq!(a, b, "Pixel mismatch at row {} for slot {} in {:?}", y, slot.name(), slot.scene);
        }

        let atlas_roi = AtlasTranslator::get_roi_for_scene(slot.name(), slot.scene)
            .unwrap_or_else(|| panic!("Failed to resolve atlas roi for {}", slot.name()));
        let atlas_crop = crop_rows(&atlas_frame, atlas_roi)
            .unwrap_or_else(|| panic!("Failed to crop atlas for {}", slot.name()));
        assert!(!atlas_crop.is_empty() && !atlas_crop[0].is_empty());
    }
}

#[test]
fn test_all_slots_resolvable_via_translator() {
    for slot in &atlas_slots() {
        let translated = AtlasTranslator::get_roi_for_scene(slot.name(), slot.scene)
            .unwrap_or_else(|| panic!("Failed to resolve slot {} in {:?}", slot.name(), slot.scene));

        assert!(translated.x1 >= slot.atlas_rect.x, "x1 out of bounds for {} in {:?}", slot.name(), slot.scene);
        assert!(translated.y1 >= slot.atlas_rect.y, "y1 out of bounds for {} in {:?}", slot.name(), slot.scene);
        assert!(
            translated.x2 <= slot.atlas_rect.x + slot.atlas_rect.width,
            "x2 out of bounds for {} in {:?}",
            slot.name(),
            slot.scene
        );
        assert!(
            translated.y2 <= slot.atlas_rect.y + slot.atlas_rect.height,
            "y2 out of bounds for {} in {:?}",
            slot.name(),
            slot.scene
        );
    }
}

#[test]
fn test_diff_panel_translator_consistency() {
    for scene in [SceneType::Freestyle, SceneType::OpenMatch, SceneType::LadderMatch, SceneType::ResultFreestyle] {
        for diff in Difficulty::all() {
            let direct = AtlasTranslator::get_diff_panel_roi_for_scene(diff, scene)
                .unwrap_or_else(|| panic!("Diff {:?} missing for {:?}", diff, scene));

            let name = match diff {
                Difficulty::NM => "diff_panel_NM",
                Difficulty::HD => "diff_panel_HD",
                Difficulty::MX => "diff_panel_MX",
                Difficulty::SC => "diff_panel_SC",
            };
            let by_name = AtlasTranslator::get_roi_for_scene(name, scene)
                .unwrap_or_else(|| panic!("Named diff {} missing for {:?}", name, scene));

            assert_eq!(direct, by_name);
            assert!(direct.x1 >= 0 && direct.x2 <= ATLAS_WIDTH as i32);
            assert!(direct.y1 >= 0 && direct.y2 <= ATLAS_HEIGHT as i32);
        }
    }
}

#[test]
fn test_ladder_match_shares_open_match_atlas_coordinates() {
    for name in [
        "jacket",
        "rate",
        "score",
        "btn_mode",
        "max_combo_badge",
        "diff_panel_NM",
        "diff_panel_HD",
        "diff_panel_MX",
        "diff_panel_SC",
    ] {
        let open_match_roi = AtlasTranslator::get_roi_for_scene(name, SceneType::OpenMatch).unwrap();
        let ladder_match_roi = AtlasTranslator::get_roi_for_scene(name, SceneType::LadderMatch).unwrap();

        assert_eq!(open_match_roi, ladder_match_roi, "LadderMatch ROI mismatch with OpenMatch for {}", name);
    }
}

const GAMEPLAY_RECTS: [(i32, i32, i32, i32); 7] = [
    (702, 80, 7, 257),
    (1211, 80, 7, 257),
    (102, 80, 7, 257),
    (611, 80, 7, 257),
    (1342, 80, 7, 257),
    (1851, 80, 7, 257),
    (731, 177, 148, 28),
];

fn blank_1080p() -> CapturedFrame {
    CapturedFrame { width: 1920, height: 1080, bgra: vec![0; 1920 * 1080 * 4] }
}

fn paint(frame: &mut CapturedFrame, indices: &[usize], pixels: &[u8]) {
    let mut cursor = 0;
    for &i in indices {
        let (x, y, width, height) = GAMEPLAY_RECTS[i];
        for row in y..y + height {
            for col in x..x + width {
                let start = (row as usize * 1920 + col as usize) * 4;
                frame.bgra[start..start + 3].fill(pixels[cursor]);
                cursor += 1;
            }
        }
    }
    assert_eq!(cursor, pixels.len());
}

fn stripe(frame: &mut CapturedFrame, index: usize, rows: usize, contrast: u8) {
    let (x, y, width, _) = GAMEPLAY_RECTS[index];
    for row in 0..rows {
        let pixel = ((y + row as i32 * 32) * 1920 + x + width - 1) as usize * 4;
        frame.bgra[pixel + 2] = contrast;
    }
}

#[test]
fn gameplay_requires_distributed_support_on_both_sides_at_one_placement() {
    let mut reader = GameplaySceneReader::new(Vec::new());
    for start in [0, 2, 4] {
        let mut frame = blank_1080p();
        stripe(&mut frame, start, 9, 255);
        stripe(&mut frame, start + 1, 6, 255);
        assert_eq!(reader.read(&frame), SceneType::Unknown);
        stripe(&mut frame, start + 1, 7, 15);
        assert_eq!(reader.read(&frame), SceneType::Gameplay);
    }
    let mut frame = blank_1080p();
    stripe(&mut frame, 0, 9, 255);
    stripe(&mut frame, 5, 9, 255);
    assert_eq!(reader.read(&frame), SceneType::Unknown);
}

#[test]
fn sparse_text_and_exterior_or_judgment_contrast_do_not_establish_gameplay() {
    let mut reader = GameplaySceneReader::new(Vec::new());
    let mut frame = blank_1080p();
    stripe(&mut frame, 0, 2, 255);
    stripe(&mut frame, 1, 2, 255);
    for y in 0..1080 {
        frame.bgra[(y * 1920 + 1219) * 4..(y * 1920 + 1223) * 4].fill(255);
    }
    for x in 710..1210 {
        frame.bgra[(750 * 1920 + x) * 4..(750 * 1920 + x + 1) * 4].fill(255);
    }
    assert_eq!(reader.read(&frame), SceneType::Unknown);
    stripe(&mut frame, 0, 9, 14);
    stripe(&mut frame, 1, 9, 14);
    assert_eq!(reader.read(&frame), SceneType::Unknown);
    stripe(&mut frame, 0, 7, 15);
    stripe(&mut frame, 1, 7, 15);
    assert_eq!(reader.read(&frame), SceneType::Gameplay);
}

#[test]
fn settings_preview_and_lower_structure_are_not_gameplay_evidence() {
    let mut reader = GameplaySceneReader::new(Vec::new());
    let mut frame = blank_1080p();
    for x in [1188, 1697] {
        for row in 0..9 {
            frame.bgra[((80 + row * 32) * 1920 + x) * 4 + 2] = 255;
        }
    }
    for x in [708, 1217] {
        for row in 9..17 {
            frame.bgra[((80 + row * 32) * 1920 + x) * 4 + 2] = 255;
        }
    }
    assert_eq!(reader.read(&frame), SceneType::Unknown);
}

#[test]
fn gear_visible_loading_is_gameplay_and_title_alone_takes_priority() {
    // A title template of the pause screen's size stands for the game's own.
    let title: Vec<u8> = (0..148 * 28).map(|i| ((i * 53 + i / 148 * 7) % 256) as u8).collect();
    let mut reader = GameplaySceneReader::new(vec![ShapeTemplate::new(title.clone())]);
    for start in [0, 2, 4] {
        let mut frame = blank_1080p();
        for y in 573..577 {
            frame.bgra[y * 1920 * 4..(y + 1) * 1920 * 4].fill(255);
        }
        assert_eq!(reader.read(&frame), SceneType::Unknown);
        stripe(&mut frame, start, 9, 30);
        stripe(&mut frame, start + 1, 9, 30);
        assert_eq!(reader.read(&frame), SceneType::Gameplay);
        paint(&mut frame, &[6], &title);
        assert_eq!(reader.read(&frame), SceneType::Paused);
    }
    let mut frame = blank_1080p();
    paint(&mut frame, &[6], &title);
    assert_eq!(reader.read(&frame), SceneType::Paused);
}

#[test]
fn incomplete_or_unsupported_capture_never_produces_a_scene() {
    let mut reader = GameplaySceneReader::new(Vec::new());
    for (width, height, len) in [(512, 512, 512 * 512 * 4), (1920, 1080, 16), (0, 0, 0)] {
        let frame = CapturedFrame { width, height, bgra: vec![0; len] };
        assert_eq!(reader.read(&frame), SceneType::Unknown);
    }
}

/// The region of `name` in `scene` at 1080p, where the reference coordinates are
/// the screen's.
fn reference_roi_1080p(name: &str, scene: SceneType) -> Option<RoiRect> {
    GlobalRoiConfig::default().roi(scene, name).map(RoiRect::from_raw)
}

/// The panel of `diff` in `scene` at 1080p: the `diff_panel` region moved right by
/// the panel's offset.
fn reference_diff_panel_1080p(diff: Difficulty, scene: SceneType) -> Option<RoiRect> {
    let roi = GlobalRoiConfig::default().roi(scene, "diff_panel")?;
    let offset = diff.panel_offset();
    Some(RoiRect {
        x1: roi.x + offset,
        y1: roi.y,
        x2: roi.x + roi.width + offset,
        y2: roi.y + roi.height,
    })
}

#[test]
fn test_virtual_atlas_diff_panel_pixel_perfect_identity() {
    let w = 1920;
    let h = 1080;
    let mut bgra = Vec::with_capacity((w * h * 4) as usize);
    for y in 0..h {
        for x in 0..w {
            bgra.push(((x * 7) & 0xFF) as u8);
            bgra.push(((y * 13) & 0xFF) as u8);
            bgra.push(((x + y) & 0xFF) as u8);
            bgra.push(255);
        }
    }
    let original_frame = CapturedFrame { width: w, height: h, bgra };

    let atlas_frame = build_virtual_atlas(&original_frame);

    for scene in [SceneType::Freestyle, SceneType::OpenMatch, SceneType::LadderMatch, SceneType::ResultFreestyle] {
        for diff in Difficulty::all() {
            let orig_roi = reference_diff_panel_1080p(diff, scene).unwrap();
            let orig_crop = crop_rows(&original_frame, orig_roi).unwrap();

            let atlas_roi = AtlasTranslator::get_diff_panel_roi_for_scene(diff, scene).unwrap();
            let atlas_crop = crop_rows(&atlas_frame, atlas_roi).unwrap();

            assert_eq!(orig_roi.width(), atlas_roi.width());
            assert_eq!(orig_roi.height(), atlas_roi.height());

            for (y, (a, b)) in orig_crop.iter().zip(atlas_crop.iter()).enumerate() {
                assert_eq!(a, b, "Diff panel pixel mismatch at row {} for diff {:?} in {:?}", y, diff, scene);
            }
        }
    }
}

#[test]
fn test_dimensions_match_roi_manager_1080p() {
    for slot in &atlas_slots() {
        let name = slot.name();
        let translated = AtlasTranslator::get_roi_for_scene(name, slot.scene).unwrap();

        let original_roi = if name.starts_with("diff_panel_") {
            let diff_name = name.strip_prefix("diff_panel_").unwrap();
            let diff = match diff_name {
                "NM" => Difficulty::NM,
                "HD" => Difficulty::HD,
                "MX" => Difficulty::MX,
                "SC" => Difficulty::SC,
                _ => panic!("Unknown diff: {}", diff_name),
            };
            reference_diff_panel_1080p(diff, slot.scene).unwrap()
        } else {
            reference_roi_1080p(name, slot.scene).unwrap()
        };

        assert_eq!(
            translated.width(),
            original_roi.width(),
            "Width mismatch for {} in {:?}: atlas={}, original={}",
            name,
            slot.scene,
            translated.width(),
            original_roi.width()
        );
        assert_eq!(
            translated.height(),
            original_roi.height(),
            "Height mismatch for {} in {:?}: atlas={}, original={}",
            name,
            slot.scene,
            translated.height(),
            original_roi.height()
        );
    }
}
