use overmax::compatibility::DataCompatibility;
use overmax::image_index::parse_hash;
use overmax::json::JsonValue;
use overmax::record_db::RecordDB;
use overmax::settings::{
    default_active_sleep, default_background_sleep, default_db_path, default_dlcs_cache,
    default_dlcs_url, default_max_level_idx, default_min_level_idx, default_snap,
    default_songs_cache, default_songs_url, default_timeout, default_true, default_ttl,
    default_window_title, AppUpdateSettings, DebugWindowSettings, SettingsPaths, VArchiveSettings,
};
use overmax::settings_layers::{diff_settings, empty_object, merge_settings_layers};
use overmax::settings_normalize::normalize_links_and_levels;
use overmax::sheet_meta::{is_false, legacy_key_parts, sheet_key, PatternSheetMeta, PatternSheetMetaItem};
use overmax::varchive::{category_matches_dlc, Dlc};
use overmax::varchive_db::{PatternInfo, Song, VArchiveDB};

fn num(text: &str) -> JsonValue {
    JsonValue::Number(text.to_string())
}

fn obj(entries: Vec<(&str, JsonValue)>) -> JsonValue {
    JsonValue::Object(entries.into_iter().map(|(k, v)| (k.to_string(), v)).collect())
}

fn lookup<'a>(value: &'a JsonValue, path: &[&str]) -> Option<&'a JsonValue> {
    let mut cur = value;
    for key in path {
        cur = cur.get(key)?;
    }
    Some(cur)
}

#[test]
fn preserves_python_file_contracts() {
    let compat = DataCompatibility::current();

    assert_eq!(compat.settings_user_json, "settings.user.json");
    assert_eq!(compat.record_db, "cache/record.db");
    assert_eq!(compat.image_index_db, "cache/image_index.db");
    assert_eq!(compat.songs_json, "cache/songs.json");
}

#[test]
fn settings_uses_python_compatible_file_names() {
    let paths = SettingsPaths::in_dir("data");

    assert!(paths.settings_json.ends_with("settings.json"));
    assert!(paths.settings_user_json.ends_with("settings.user.json"));
}

#[test]
fn uses_python_compatible_file_names() {
    let paths = SettingsPaths::in_dir("data");

    assert!(paths.settings_json.ends_with("settings.json"));
    assert!(paths.settings_user_json.ends_with("settings.user.json"));
}

#[test]
fn settings_paths_join_with_one_separator() {
    assert_eq!(SettingsPaths::in_dir("data").settings_json, "data/settings.json");
    assert_eq!(SettingsPaths::in_dir("data/").settings_user_json, "data/settings.user.json");
    assert_eq!(SettingsPaths::in_dir("").settings_json, "settings.json");
}

#[test]
fn settings_defaults_match_the_documented_values() {
    assert_eq!(default_window_title(), "DJMAX RESPECT V");
    assert_eq!(default_active_sleep(), 120);
    assert_eq!(default_background_sleep(), 500);
    assert_eq!(default_snap(), "manual");
    assert_eq!(default_db_path(), "cache/image_index.db");
    assert!(default_true());
    assert_eq!(default_songs_url(), "https://v-archive.net/db/v2/songs.json");
    assert_eq!(default_songs_cache(), "cache/songs.json");
    assert_eq!(default_dlcs_url(), "https://v-archive.net/db/dlcs.json");
    assert_eq!(default_dlcs_cache(), "cache/dlcs.json");
    assert_eq!(default_ttl(), 86400);
    assert_eq!(default_timeout(), 10);
    assert_eq!(default_min_level_idx(), 0);
    assert_eq!(default_max_level_idx(), 29);
    let debug = DebugWindowSettings::default();
    assert_eq!(debug.max_lines, 500);
    assert_eq!(debug.title, "Overmax Debug Log");
    let update = AppUpdateSettings::default();
    assert!(update.enabled);
    assert!(update.owner.is_none());
    let varchive = VArchiveSettings::default();
    assert_eq!(varchive.cache_path, "cache/songs.json");
    assert!(varchive.user_map.is_empty());
}

#[test]
fn user_settings_override_packaged_settings_and_defaults() {
    let merged = merge_settings_layers(
        obj(vec![
            ("overlay", obj(vec![("scale", num("1.0")), ("base_opacity", num("0.8"))])),
            ("varchive", obj(vec![("cache_ttl_sec", num("86400"))])),
        ]),
        obj(vec![
            ("overlay", obj(vec![("base_opacity", num("0.6"))])),
            ("varchive", obj(vec![("cache_ttl_sec", num("60"))])),
        ]),
        obj(vec![("overlay", obj(vec![("scale", num("1.25"))]))]),
    );

    assert!(lookup(&merged, &["overlay", "scale"]).unwrap().same_as(&num("1.25")));
    assert!(lookup(&merged, &["overlay", "base_opacity"]).unwrap().same_as(&num("0.6")));
    assert!(lookup(&merged, &["varchive", "cache_ttl_sec"]).unwrap().same_as(&num("60")));
}

#[test]
fn non_object_layers_are_ignored() {
    let merged = merge_settings_layers(
        obj(vec![("overlay", obj(vec![("scale", num("1.0"))]))]),
        JsonValue::Null,
        JsonValue::Array(vec![JsonValue::String("invalid".to_string())]),
    );

    assert!(merged.same_as(&obj(vec![("overlay", obj(vec![("scale", num("1.0"))]))])));
}

#[test]
fn non_object_defaults_give_an_empty_object() {
    let merged = merge_settings_layers(JsonValue::Bool(true), JsonValue::Null, JsonValue::Null);
    assert!(merged.same_as(&empty_object()));
}

#[test]
fn test_diff_settings() {
    let base = obj(vec![
        ("a", num("1")),
        ("b", obj(vec![("x", num("10")), ("y", num("20"))])),
        ("c", num("3")),
    ]);
    let current = obj(vec![
        ("a", num("1")),
        ("b", obj(vec![("x", num("10")), ("y", num("25")), ("z", num("30"))])),
        ("d", num("4")),
    ]);

    let diff = diff_settings(&base, &current);
    assert!(diff.same_as(&obj(vec![
        ("b", obj(vec![("y", num("25")), ("z", num("30"))])),
        ("d", num("4")),
    ])));
}

#[test]
fn diff_of_non_objects_is_the_current_value() {
    let diff = diff_settings(&num("1"), &JsonValue::String("x".to_string()));
    assert!(diff.same_as(&JsonValue::String("x".to_string())));
}

#[test]
fn unchanged_settings_differ_in_nothing() {
    let settings = obj(vec![
        ("overlay", obj(vec![("scale", num("1.0"))])),
        ("debug", JsonValue::Bool(false)),
    ]);
    assert!(diff_settings(&settings, &settings).same_as(&empty_object()));
}

#[test]
fn saved_difference_restores_the_current_settings() {
    let defaults = obj(vec![
        ("overlay", obj(vec![("scale", num("1.0")), ("base_opacity", num("0.8"))])),
        ("varchive", obj(vec![("cache_ttl_sec", num("86400"))])),
    ]);
    let packaged = obj(vec![("overlay", obj(vec![("scale", num("1.25"))]))]);
    let base = merge_settings_layers(defaults.duplicate(), packaged.duplicate(), empty_object());
    let current = obj(vec![
        ("overlay", obj(vec![("scale", num("1.25")), ("base_opacity", num("0.5"))])),
        ("varchive", obj(vec![("cache_ttl_sec", num("86400")), ("user", JsonValue::Null)])),
        ("extra", JsonValue::Bool(true)),
    ]);
    let saved = diff_settings(&base, &current);
    let restored = merge_settings_layers(defaults, packaged, saved);
    assert!(restored.same_as(&current));
}

#[test]
fn later_entries_of_a_key_count() {
    let value = obj(vec![("k", num("1")), ("k", num("2"))]);
    assert!(value.get("k").unwrap().same_as(&num("2")));
    assert!(value.same_as(&obj(vec![("k", num("2"))])));
    assert!(value.get("missing").is_none());
    assert!(num("1").get("k").is_none());
}

#[test]
fn objects_compare_as_maps() {
    let a = obj(vec![("x", num("1")), ("y", num("2"))]);
    let b = obj(vec![("y", num("2")), ("x", num("1"))]);
    let c = obj(vec![("y", num("2"))]);
    assert!(a.same_as(&b));
    assert!(!a.same_as(&c));
    assert!(!c.same_as(&a));
    assert!(!num("1").same_as(&num("1.0")));
}

fn item(gold: &str, note: &str, assist_key: &str, keypart: bool) -> PatternSheetMetaItem {
    PatternSheetMetaItem {
        gold: gold.into(),
        note: note.into(),
        assist_key: assist_key.into(),
        keypart,
    }
}

#[test]
fn lookup_uses_new_sheet_meta_key_shape() {
    let mut meta = PatternSheetMeta::new();
    meta.insert("123|5B|sc".into(), item("O", "개인차", "Y", false));

    assert_eq!(meta.get("123", "5B", "SC"), item("O", "개인차", "Y", false));
}

#[test]
fn sheet_lookup_normalizes_difficulty_and_defaults_to_empty() {
    let mut meta = PatternSheetMeta::new();
    meta.insert("7|4B|hd".into(), item("X", "", "", true));
    meta.insert("7|4B|hd".into(), item("Y", "", "", false));
    assert_eq!(meta.get("7", "4B", "  H D "), item("Y", "", "", false));
    assert_eq!(meta.get("7", "5B", "HD"), PatternSheetMetaItem::default());
    assert_eq!(sheet_key("1", "8B", " M X"), "1|8B|mx");
    assert!(is_false(&false));
    assert!(!is_false(&true));
}

#[test]
fn old_sheet_keys_are_recognised() {
    assert_eq!(
        legacy_key_parts("5b|Kamui|sc"),
        Some(("Kamui".to_string(), "5B".to_string(), "SC".to_string()))
    );
    assert_eq!(legacy_key_parts("123|5B|sc"), None);
    assert_eq!(legacy_key_parts("5b|a|b|c"), None);
}

#[test]
fn record_db_normalizes_and_masks_steam_ids() {
    let db = RecordDB::new("cache/record.db", Some("  76561198000000000 "));
    assert_eq!(db.get_steam_id(), "76561198000000000");
    assert_eq!(db.masked_steam_id(), "7656...0000");
    assert_eq!(db.db_path(), "cache/record.db");
    assert!(!db.is_ready);

    let unknown = RecordDB::new("x.db", Some("   "));
    assert_eq!(unknown.get_steam_id(), "__unknown__");
    assert_eq!(unknown.masked_steam_id(), "__unknown__");

    let short = RecordDB::new("x.db", Some("12345678"));
    assert_eq!(short.masked_steam_id(), "***");
}

#[test]
fn record_db_reports_steam_id_changes() {
    let mut db = RecordDB::new("x.db", None);
    let (changed, old, new) = db.set_steam_id(Some("765611980000000001"));
    assert!(changed);
    assert_eq!(old, "__unknown__");
    assert_eq!(new, "7656...0001");
    let (changed, _, _) = db.set_steam_id(Some(" 765611980000000001 "));
    assert!(!changed);
}

#[test]
fn category_matches_dlc_codes_names_and_aliases() {
    let dlcs = vec![Dlc { dlc_code: "CE".into(), dlc_name: "Clazziquai Edition".into() }];
    assert!(category_matches_dlc("RESPECT/V", "RV", &[]));
    assert!(category_matches_dlc("Clazziquai Edition", "CE", &dlcs));
    assert!(category_matches_dlc("TECHNIKA 3", "T3", &[]));
    assert!(category_matches_dlc("ve", "VE", &[]));
    assert!(!category_matches_dlc("TRILOGY", "BS", &[]));
}

#[test]
fn parses_hexadecimal_hashes() {
    assert_eq!(parse_hash("ff"), Some(255));
    assert_eq!(parse_hash("+1A"), Some(26));
    assert_eq!(parse_hash("ffffffffffffffff"), Some(u64::MAX));
    assert_eq!(parse_hash("10000000000000000"), None);
    assert_eq!(parse_hash(""), None);
    assert_eq!(parse_hash("+"), None);
    assert_eq!(parse_hash("-1"), None);
    assert_eq!(parse_hash("0x10"), None);
}

#[test]
fn cache_items_move_old_keys_to_song_ids() {
    let mut db = VArchiveDB::new();
    let mut alone = Song {
        title: "441".into(),
        name: "Alone".into(),
        composer: "Nauts".into(),
        dlc_code: "RV".into(),
        patterns: Vec::new(),
    };
    alone.patterns.push(("5B".into(), vec![("SC".into(), PatternInfo { level: Some(6), floor: None, floor_name: None, rating: None })]));
    db.songs.push(alone);
    db.build_index();

    let raw = vec![
        ("5b|Alone|sc".to_string(), item("O", "", "", false)),
        ("8B|Unknown Song|NM".to_string(), item("X", "", "", true)),
        ("7|4B|hd".to_string(), item("", "note", "", false)),
    ];
    let (sheet, moved) = PatternSheetMeta::from_cache_items(raw, &db);
    assert!(moved);
    assert_eq!(sheet.get("441", "5B", "SC"), item("O", "", "", false));
    assert_eq!(sheet.get("7", "4B", "HD"), item("", "note", "", false));
    let mut keys: Vec<String> = sheet.items().into_iter().map(|(k, _)| k).collect();
    keys.sort();
    assert_eq!(keys, vec!["441|5B|sc", "7|4B|hd", "8B|Unknown Song|NM"]);

    let (_, moved) = PatternSheetMeta::from_cache_items(vec![("7|4B|hd".to_string(), item("", "", "", false))], &db);
    assert!(!moved);
}

#[test]
fn links_become_entries_and_levels_are_capped() {
    let settings = obj(vec![
        ("varchive", obj(vec![("user_map", obj(vec![
            ("some_id", JsonValue::String("some_v_id".into())),
            ("other", obj(vec![("v_id", JsonValue::String("x".into()))])),
        ]))])),
        ("sync_filter", obj(vec![
            ("min_level_idx", num("35")),
            ("max_level_idx", num("12")),
            ("min_rate", num("-5.5")),
        ])),
        ("overlay", obj(vec![("scale", num("1.1"))])),
    ]);
    let out = normalize_links_and_levels(settings);
    let entry = lookup(&out, &["varchive", "user_map", "some_id"]).unwrap();
    assert!(entry.same_as(&obj(vec![
        ("v_id", JsonValue::String("some_v_id".into())),
        ("account_path", JsonValue::String(String::new())),
    ])));
    assert!(lookup(&out, &["varchive", "user_map", "other", "v_id"]).unwrap().same_as(&JsonValue::String("x".into())));
    assert!(lookup(&out, &["sync_filter", "min_level_idx"]).unwrap().same_as(&num("29")));
    assert!(lookup(&out, &["sync_filter", "max_level_idx"]).unwrap().same_as(&num("12")));
    assert!(lookup(&out, &["sync_filter", "min_rate"]).unwrap().same_as(&num("-5.5")));
    assert!(lookup(&out, &["overlay", "scale"]).unwrap().same_as(&num("1.1")));
    assert!(normalize_links_and_levels(JsonValue::Null).same_as(&JsonValue::Null));
}
