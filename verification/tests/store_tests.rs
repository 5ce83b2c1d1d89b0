use songbook::controller::FilterController;
use songbook::store::{open_outcome, Database, StoreOpenError};

fn create_catalog(path: &str) {
    let conn = sqlite::Connection::open(path).unwrap();
    conn.execute("DROP TABLE IF EXISTS song;").unwrap();
    conn.execute("CREATE TABLE song (number INTEGER, title TEXT, file TEXT);").unwrap();
    conn.execute(
        "INSERT INTO song (number, title, file) VALUES \
         (1, 'Amazing Grace', 'amazing_grace.mp3'), \
         (12, 'Ave Maria', 'ave_maria.flac'), \
         (100, 'Zion', 'zion.wav');",
    )
    .unwrap();
}

fn numbers(v: &Vec<songbook::song::Song>) -> Vec<i64> {
    v.iter().map(|s| s.number).collect()
}

#[test]
fn opening_missing_file_fails_before_any_query() {
    let r = Database::new("/tmp/songbook_definitely_absent.sqlite3");
    assert!(matches!(r, Err(StoreOpenError::NotFound(p))
        if p == "/tmp/songbook_definitely_absent.sqlite3"));
}

#[test]
fn opening_unreadable_database_is_a_connection_failure() {
    // A directory exists but cannot be opened as a database.
    let r = Database::new("/tmp");
    assert!(matches!(r, Err(StoreOpenError::ConnectFailed(_))));
}

#[test]
fn missing_catalog_table_is_a_schema_error() {
    let path = "/tmp/songbook_test_noschema.sqlite3";
    let conn = sqlite::Connection::open(path).unwrap();
    conn.execute("DROP TABLE IF EXISTS song;").unwrap();
    drop(conn);
    let r = Database::new(path);
    assert!(matches!(r, Err(StoreOpenError::SchemaInvalid(_))));
    assert!(!matches!(Database::new(path), Err(StoreOpenError::ConnectFailed(_))));
}

#[test]
fn end_to_end_search_scenario() {
    let path = "/tmp/songbook_test_e2e.sqlite3";
    create_catalog(path);
    let db = Database::new(path).unwrap();
    assert_eq!(numbers(&db.search_songs("a").unwrap()), vec![1, 12]);
    assert_eq!(numbers(&db.search_songs("1").unwrap()), vec![1, 12, 100]);
    assert_eq!(numbers(&db.search_songs("").unwrap()), Vec::<i64>::new());
}

#[test]
fn search_twice_against_unchanged_store() {
    let path = "/tmp/songbook_test_twice.sqlite3";
    create_catalog(path);
    let db = Database::new(path).unwrap();
    let a = db.search_songs("a").unwrap();
    let b = db.search_songs("a").unwrap();
    assert_eq!(a.len(), b.len());
    for (x, y) in a.iter().zip(b.iter()) {
        assert_eq!(x.number, y.number);
        assert_eq!(x.title, y.title);
        assert_eq!(x.file, y.file);
    }
}

#[test]
fn lookup_count_and_listing() {
    let path = "/tmp/songbook_test_lookup.sqlite3";
    create_catalog(path);
    let db = Database::new(path).unwrap();
    match db.get_song_by_number(12).unwrap() {
        Some(s) => {
            assert_eq!(s.number, 12);
            assert_eq!(s.title, "Ave Maria");
            assert_eq!(s.file, "ave_maria.flac");
        }
        None => panic!("expected a match"),
    }
    assert!(db.get_song_by_number(7).unwrap().is_none());
    assert_eq!(db.count_songs().unwrap(), 3);
    assert_eq!(numbers(&db.get_all_songs().unwrap()), vec![1, 12, 100]);
}

#[test]
fn controller_tracks_the_latest_query() {
    let path = "/tmp/songbook_test_controller.sqlite3";
    create_catalog(path);
    let db = Database::new(path).unwrap();
    let mut controller = FilterController::new();
    assert_eq!(controller.rendered.len(), 0);
    assert!(controller.on_input_change(&db, "a".to_string()).is_ok());
    assert_eq!(controller.query, "a");
    assert_eq!(numbers(&controller.rendered), vec![1, 12]);
    assert!(controller.on_input_change(&db, "zion".to_string()).is_ok());
    assert_eq!(numbers(&controller.rendered), vec![100]);
    assert!(controller.on_input_change(&db, "  ".to_string()).is_ok());
    assert_eq!(controller.rendered.len(), 0);
}

#[test]
fn query_failure_is_an_error_not_a_truncated_result() {
    let path = "/tmp/songbook_test_queryfail.sqlite3";
    create_catalog(path);
    let db = Database::new(path).unwrap();
    assert_eq!(numbers(&db.search_songs("a").unwrap()), vec![1, 12]);
    // Pull the table out from under the open store: the next search
    // fails loudly instead of yielding a truncated row set.
    let saboteur = sqlite::Connection::open(path).unwrap();
    saboteur.execute("DROP TABLE song;").unwrap();
    drop(saboteur);
    match db.search_songs("a") {
        Err(e) => assert!(!e.detail.is_empty()),
        Ok(_) => panic!("expected a query error"),
    }
    assert!(db.count_songs().is_err());
    // The failure is recoverable: a blank query still answers without
    // touching the store, and a fresh open reports the missing schema.
    assert_eq!(db.search_songs("  ").unwrap().len(), 0);
    assert!(matches!(Database::new(path), Err(StoreOpenError::SchemaInvalid(_))));
}

#[test]
fn open_outcome_decides_each_case() {
    assert!(matches!(open_outcome(false, false, "/x"), Err(StoreOpenError::NotFound(p)) if p == "/x"));
    assert!(matches!(open_outcome(false, true, "/x"), Err(StoreOpenError::NotFound(p)) if p == "/x"));
    assert!(matches!(open_outcome(true, false, "/x"), Err(StoreOpenError::SchemaInvalid(p)) if p == "/x"));
    assert!(open_outcome(true, true, "/x").is_ok());
}

#[test]
fn unicode_whitespace_queries_are_blank() {
    let path = "/tmp/songbook_test_uniws.sqlite3";
    create_catalog(path);
    let db = Database::new(path).unwrap();
    // U+00A0 no-break space, U+2003 em space, U+3000 ideographic space.
    assert_eq!(db.search_songs("\u{00A0}").unwrap().len(), 0);
    assert_eq!(db.search_songs(" \u{2003}\u{3000}").unwrap().len(), 0);
    let mut controller = FilterController::new();
    assert!(controller.on_input_change(&db, "\u{00A0}".to_string()).is_ok());
    assert_eq!(controller.rendered.len(), 0);
}

#[test]
fn apply_result_installs_exactly_the_given_rows() {
    let mut controller = FilterController::new();
    let rows = vec![
        songbook::song::Song {
            number: 3,
            title: "Trio".to_string(),
            file: "trio.mp3".to_string(),
        },
        songbook::song::Song {
            number: 9,
            title: "Nonet".to_string(),
            file: "nonet.mp3".to_string(),
        },
    ];
    controller.apply_result("trio".to_string(), rows);
    assert_eq!(controller.query, "trio");
    assert_eq!(numbers(&controller.rendered), vec![3, 9]);
    assert_eq!(controller.rendered[0].title, "Trio");
    controller.apply_result("x".to_string(), Vec::new());
    assert_eq!(controller.rendered.len(), 0);
}

#[test]
fn search_input_is_taken_literally() {
    // A query holding pattern metacharacters matches only literally.
    let path = "/tmp/songbook_test_literal.sqlite3";
    let conn = sqlite::Connection::open(path).unwrap();
    conn.execute("DROP TABLE IF EXISTS song;").unwrap();
    conn.execute("CREATE TABLE song (number INTEGER, title TEXT, file TEXT);").unwrap();
    conn.execute(
        "INSERT INTO song (number, title, file) VALUES \
         (1, '100% Pure', 'pure.mp3'), \
         (2, 'Plain', 'plain.mp3');",
    )
    .unwrap();
    drop(conn);
    let db = Database::new(path).unwrap();
    assert_eq!(numbers(&db.search_songs("%").unwrap()), vec![1]);
    assert_eq!(numbers(&db.search_songs("100%").unwrap()), vec![1]);
    assert_eq!(numbers(&db.search_songs("_").unwrap()), Vec::<i64>::new());
}
