use overmax::varchive::Dlc;
use overmax::json::JsonValue;
use overmax::varchive_db::{song_id_text, PatternInfo, Song, VArchiveDB};

fn create_mock_song(title: &str, name: &str, composer: &str) -> Song {
    Song {
        title: title.to_string(),
        name: name.to_string(),
        composer: composer.to_string(),
        dlc_code: String::new(),
        patterns: Vec::new(),
    }
}

fn chart(level: u32) -> PatternInfo {
    PatternInfo { level: Some(level), floor: None, floor_name: None, rating: None }
}

fn alone_db() -> VArchiveDB {
    let mut db = VArchiveDB::new();
    let mut s1 = create_mock_song("2", "Alone", "Marshmello");
    s1.dlc_code = "RV".into();
    s1.patterns.push(("5B".into(), vec![("SC".into(), chart(5))]));
    let mut s2 = create_mock_song("441", "Alone", "Nauts");
    s2.dlc_code = "RV".into();
    s2.patterns.push(("5B".into(), vec![("SC".into(), chart(6))]));
    db.songs.push(s1);
    db.songs.push(s2);
    db.build_index();
    db
}

#[test]
fn exact_match_finds_song() {
    let mut db = VArchiveDB::new();
    db.songs.push(create_mock_song("1", "Kamui", "tj.hangneil"));
    db.build_index();

    let song = db.find_exact("kamui", "");
    assert!(song.is_some());
    assert_eq!(song.unwrap().name, "Kamui");
}

#[test]
fn fuzzy_match_finds_typo() {
    let mut db = VArchiveDB::new();
    db.songs.push(create_mock_song("1", "OBLIVION", "ESTi"));
    db.build_index();

    // typo "oblvion"
    let song = db.find_fuzzy("oblvion", "", 80);
    assert!(song.is_some());
    assert_eq!(song.unwrap().name, "OBLIVION");
}

#[test]
fn composer_disambiguation() {
    let mut db = VArchiveDB::new();
    db.songs.push(create_mock_song("1", "End of the Moonlight", "Forte Escape"));
    db.songs.push(create_mock_song("2", "End of the Moonlight", "BEXTER"));
    db.build_index();

    let song1 = db.find_exact("End of the Moonlight", "bexter");
    assert_eq!(song1.unwrap().title, "2");

    let song2 = db.find_exact("End of the Moonlight", "forte");
    assert_eq!(song2.unwrap().title, "1");
}

#[test]
fn test_find_best_match_disambiguation() {
    let db = alone_db();

    // 1. Marshmello (SC level 5, note has Marshmello)
    let match1 = db.find_best_match("Alone", "5B", "SC", Some(5), "RESPECT/V", "Marshmello 작곡");
    assert!(match1.is_some());
    assert_eq!(match1.unwrap().title, "2");

    // 2. Nauts (SC level 6, note has Nauts)
    let match2 = db.find_best_match("Alone", "5B", "SC", Some(6), "RESPECT/V", "Nauts 작곡");
    assert!(match2.is_some());
    assert_eq!(match2.unwrap().title, "441");
}

#[test]
fn fuzzy_match_below_threshold_finds_nothing() {
    let mut db = VArchiveDB::new();
    db.songs.push(create_mock_song("1", "OBLIVION", "ESTi"));
    db.build_index();

    // one edit in eight characters: 87.5 % similar
    assert!(db.find_fuzzy("oblvion", "", 88).is_none());
    assert!(db.find_fuzzy("oblvion", "", 87).is_some());
    assert!(db.find_fuzzy("zzz", "", 0).is_none());
}

#[test]
fn empty_index_finds_nothing() {
    let db = VArchiveDB::new();
    assert!(db.find_exact("kamui", "").is_none());
    assert!(db.find_fuzzy("kamui", "", 0).is_none());
    assert!(db.search("kamui", "", 0).is_none());
    assert!(db.find_best_match("kamui", "5B", "SC", None, "", "").is_none());
}

#[test]
fn index_is_built_on_request() {
    let mut db = VArchiveDB::new();
    db.songs.push(create_mock_song("1", "Kamui", "tj.hangneil"));
    assert!(db.find_exact("Kamui", "").is_none());
    db.build_index();
    assert_eq!(db.find_exact("  KAMUI ", "").unwrap().title, "1");
}

#[test]
fn composer_containment_beats_similarity() {
    let mut db = VArchiveDB::new();
    db.songs.push(create_mock_song("1", "Voyage", "Makou"));
    db.songs.push(create_mock_song("2", "Voyage", "Forte Escape"));
    db.build_index();
    assert_eq!(db.find_exact("voyage", "escape").unwrap().title, "2");
    assert_eq!(db.find_exact("voyage", "makou").unwrap().title, "1");
    // nothing contains the query: the closer spelling wins
    assert_eq!(db.find_exact("voyage", "makuo").unwrap().title, "1");
    // no composer: the first song of the title
    assert_eq!(db.find_exact("voyage", "   ").unwrap().title, "1");
}

#[test]
fn search_prefers_exact_then_fuzzy() {
    let mut db = VArchiveDB::new();
    db.songs.push(create_mock_song("1", "OBLIVION", "ESTi"));
    db.songs.push(create_mock_song("2", "OBLIVIO", "Other"));
    db.build_index();
    assert_eq!(db.search("oblivio", "", 80).unwrap().title, "2");
    assert_eq!(db.search("oblivion", "", 80).unwrap().title, "1");
    assert_eq!(db.search("obliviion", "", 80).unwrap().title, "1");
    assert!(db.search("something else", "", 80).is_none());
}

#[test]
fn search_by_id_finds_the_decimal_id() {
    let db = alone_db();
    assert_eq!(db.search_by_id(441).unwrap().composer, "Nauts");
    assert_eq!(db.search_by_id(2).unwrap().composer, "Marshmello");
    assert!(db.search_by_id(-2).is_none());
    assert!(db.search_by_id(7).is_none());
}

#[test]
fn best_match_falls_back_to_the_part_before_a_slash() {
    let mut db = VArchiveDB::new();
    db.songs.push(create_mock_song("5", "Zero", "x"));
    db.build_index();
    // "zero" begins "zero/remix" but is shorter than five bytes: only the part
    // before the slash matches
    assert_eq!(db.find_best_match("Zero/Remix", "5B", "SC", None, "", "").unwrap().title, "5");
    assert!(db.find_best_match("Zer", "5B", "SC", None, "", "").is_none());
    let db = alone_db();
    assert!(db.find_best_match("Alo", "5B", "SC", None, "", "").is_none());
    assert!(db.find_best_match("Kamui", "5B", "SC", None, "", "").is_none());
}

#[test]
fn best_match_weighs_category_against_title() {
    let mut db = VArchiveDB::new();
    let mut a = create_mock_song("10", "Grid System", "A");
    a.dlc_code = "VL".into();
    let mut b = create_mock_song("11", "Grid System Zero", "B");
    b.dlc_code = "X1".into();
    db.songs.push(a);
    db.songs.push(b);
    db.dlcs.push(Dlc { dlc_code: "X1".into(), dlc_name: "Mystery Pack".into() });
    db.build_index();
    // exact title (100) and pack (80) against a long prefix (80)
    let m = db.find_best_match("Grid System", "5B", "SC", None, "V LIBERTY", "");
    assert_eq!(m.unwrap().title, "10");
    // the pack named in dlcs.json outweighs the exact title
    let m = db.find_best_match("Grid System", "5B", "SC", None, "Mystery Pack", "");
    assert_eq!(m.unwrap().title, "11");
    // an empty category names every pack
    let m = db.find_best_match("Grid System", "5B", "SC", None, "", "");
    assert_eq!(m.unwrap().title, "10");
    // the composer named in the note
    let m = db.find_best_match("Grid System", "5B", "SC", None, "", "by B");
    assert_eq!(m.unwrap().title, "11");
}

#[test]
fn every_song_is_found_by_its_own_name() {
    let mut db = VArchiveDB::new();
    for (id, name) in [("1", "Kamui"), ("2", " kamui"), ("3", "OBLIVION"), ("4", "腦擊")] {
        db.songs.push(create_mock_song(id, name, "x"));
    }
    db.build_index();
    for song in db.songs.clone() {
        let found = db.find_exact(&song.name, "").unwrap();
        assert_eq!(found.name.to_lowercase().trim(), song.name.to_lowercase().trim());
    }
    assert_eq!(db.find_exact("KAMUI", "").unwrap().title, "1");
}

#[test]
fn duplicate_keeps_every_field() {
    let db = alone_db();
    let song = db.songs[0].duplicate();
    assert_eq!(song.title, "2");
    assert_eq!(song.dlc_code, "RV");
    assert_eq!(song.patterns.len(), 1);
    assert_eq!(song.patterns[0].0, "5B");
    assert_eq!(song.patterns[0].1[0].1.level, Some(5));
}

/// A JSON scalar as the library's document holds it; numbers keep their text.
fn scalar_document(value: &serde_json::Value) -> JsonValue {
    match value {
        serde_json::Value::Number(n) => JsonValue::Number(n.to_string()),
        serde_json::Value::String(s) => JsonValue::String(s.clone()),
        serde_json::Value::Bool(b) => JsonValue::Bool(*b),
        _ => JsonValue::Null,
    }
}

#[test]
fn parses_numeric_song_id_title_from_cache_json() {
    let value: serde_json::Value = serde_json::from_str(
        r#"{
            "title": 0,
            "name": "비상 ~Stay With Me~",
            "composer": "Mycin.T",
            "patterns": {}
        }"#,
    )
    .unwrap();
    let song = Song {
        title: song_id_text(&scalar_document(&value["title"])).unwrap(),
        name: value["name"].as_str().unwrap().to_string(),
        composer: value["composer"].as_str().unwrap().to_string(),
        dlc_code: String::new(),
        patterns: Vec::new(),
    };

    assert_eq!(song.title, "0");
    assert_eq!(song.name, "비상 ~Stay With Me~");
}

#[test]
fn song_id_is_a_string_or_a_number() {
    assert_eq!(song_id_text(&JsonValue::String("42".to_string())), Some("42".to_string()));
    assert_eq!(song_id_text(&JsonValue::Number("7".to_string())), Some("7".to_string()));
    assert_eq!(song_id_text(&JsonValue::Bool(true)), None);
    assert_eq!(song_id_text(&JsonValue::Null), None);
}
