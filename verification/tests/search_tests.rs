use songbook::search::{find_by_number, select_matches, sort_by_number_vec};
use songbook::song::Song;
use songbook::text::{number_text, prefix_check, substring_check, to_lower};

fn song(number: i64, title: &str, file: &str) -> Song {
    Song { number, title: title.to_string(), file: file.to_string() }
}

fn catalog() -> Vec<Song> {
    vec![
        song(1, "Amazing Grace", "amazing_grace.mp3"),
        song(12, "Ave Maria", "ave_maria.flac"),
        song(100, "Zion", "zion.wav"),
    ]
}

fn numbers(v: &Vec<Song>) -> Vec<i64> {
    v.iter().map(|s| s.number).collect()
}

#[test]
fn empty_and_whitespace_queries_return_nothing() {
    let rows = catalog();
    assert_eq!(numbers(&select_matches(&rows, "")), Vec::<i64>::new());
    assert_eq!(numbers(&select_matches(&rows, "   ")), Vec::<i64>::new());
    assert_eq!(numbers(&select_matches(&rows, "\t\n ")), Vec::<i64>::new());
    assert_eq!(numbers(&select_matches(&rows, "\u{00A0}\u{2003}")), Vec::<i64>::new());
}

#[test]
fn title_substring_scenario() {
    let rows = catalog();
    assert_eq!(numbers(&select_matches(&rows, "a")), vec![1, 12]);
}

#[test]
fn number_prefix_scenario() {
    let rows = catalog();
    assert_eq!(numbers(&select_matches(&rows, "1")), vec![1, 12, 100]);
    assert_eq!(numbers(&select_matches(&rows, "10")), vec![100]);
    assert_eq!(numbers(&select_matches(&rows, "2")), Vec::<i64>::new());
}

#[test]
fn title_match_is_case_insensitive() {
    let rows = catalog();
    assert_eq!(numbers(&select_matches(&rows, "AMAZ")), vec![1]);
    assert_eq!(numbers(&select_matches(&rows, "grace")), vec![1]);
    assert_eq!(numbers(&select_matches(&rows, "zIoN")), vec![100]);
}

#[test]
fn results_are_sorted_even_when_rows_are_not() {
    let rows = vec![
        song(100, "Zion", "zion.wav"),
        song(1, "Amazing Grace", "amazing_grace.mp3"),
        song(12, "Ave Maria", "ave_maria.flac"),
    ];
    assert_eq!(numbers(&select_matches(&rows, "1")), vec![1, 12, 100]);
}

#[test]
fn result_is_capped_at_ten_smallest() {
    let mut rows = Vec::new();
    for n in 0..15i64 {
        rows.push(song(14 - n, "Common Title", "x.mp3"));
    }
    let out = select_matches(&rows, "common");
    assert_eq!(numbers(&out), vec![0, 1, 2, 3, 4, 5, 6, 7, 8, 9]);
}

#[test]
fn search_twice_gives_identical_results() {
    let rows = catalog();
    let a = select_matches(&rows, "a");
    let b = select_matches(&rows, "a");
    assert_eq!(a.len(), b.len());
    for (x, y) in a.iter().zip(b.iter()) {
        assert_eq!(x.number, y.number);
        assert_eq!(x.title, y.title);
        assert_eq!(x.file, y.file);
    }
}

#[test]
fn negative_numbers_match_by_text_form() {
    let rows = vec![song(-5, "Prelude", "p.mp3"), song(5, "Fugue", "f.mp3")];
    assert_eq!(numbers(&select_matches(&rows, "-5")), vec![-5]);
    assert_eq!(numbers(&select_matches(&rows, "5")), vec![5]);
}

#[test]
fn sort_by_number_keeps_entries() {
    let rows = vec![song(3, "C", "c.mp3"), song(1, "A", "a.mp3"), song(2, "B", "b.mp3")];
    let sorted = sort_by_number_vec(rows);
    assert_eq!(numbers(&sorted), vec![1, 2, 3]);
    assert_eq!(sorted[0].title, "A");
    assert_eq!(sorted[1].title, "B");
    assert_eq!(sorted[2].title, "C");
}

#[test]
fn find_by_number_cases() {
    let rows = catalog();
    let hit = find_by_number(&rows, 12);
    match hit {
        Some(s) => {
            assert_eq!(s.number, 12);
            assert_eq!(s.title, "Ave Maria");
        }
        None => panic!("expected a match"),
    }
    assert!(find_by_number(&rows, 7).is_none());
}

#[test]
fn find_by_number_returns_first_of_duplicates() {
    let rows = vec![song(4, "First", "1.mp3"), song(4, "Second", "2.mp3")];
    match find_by_number(&rows, 4) {
        Some(s) => assert_eq!(s.title, "First"),
        None => panic!("expected a match"),
    }
}

#[test]
fn number_text_forms() {
    assert_eq!(number_text(0), "0".as_bytes().to_vec());
    assert_eq!(number_text(7), "7".as_bytes().to_vec());
    assert_eq!(number_text(123), "123".as_bytes().to_vec());
    assert_eq!(number_text(-45), "-45".as_bytes().to_vec());
    assert_eq!(
        number_text(i64::MIN),
        "-9223372036854775808".as_bytes().to_vec()
    );
}

#[test]
fn text_primitives() {
    let s = "Hello World".as_bytes().to_vec();
    let lowered = to_lower(&s);
    assert_eq!(lowered, "hello world".as_bytes().to_vec());
    assert!(prefix_check(&"hel".as_bytes().to_vec(), &lowered));
    assert!(!prefix_check(&"ell".as_bytes().to_vec(), &lowered));
    assert!(substring_check(&lowered, &"o w".as_bytes().to_vec()));
    assert!(!substring_check(&lowered, &"worlds".as_bytes().to_vec()));
    assert!(substring_check(&lowered, &"".as_bytes().to_vec()));
}
