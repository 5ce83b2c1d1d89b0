use songbook::player::{PlaybackError, Player, PlayerUnavailableError};
use songbook::song::Song;

fn song(number: i64, title: &str, file: &str) -> Song {
    Song { number, title: title.to_string(), file: file.to_string() }
}

#[test]
fn test_supported_formats() {
    assert!(Player::is_supported_format("mp3"));
    assert!(Player::is_supported_format("mp4"));
    assert!(!Player::is_supported_format("txt"));
    assert!(!Player::is_supported_format(""));
}

#[test]
fn supported_formats_whole_list() {
    for ext in ["mp3", "flac", "wav", "ogg", "m4a", "aac", "wma", "opus", "mp4", "avi", "mkv"] {
        assert!(Player::is_supported_format(ext));
    }
    for ext in ["doc", "png", "MP3", "mp", "mp33"] {
        assert!(!Player::is_supported_format(ext));
    }
}

#[test]
fn missing_file_refused_regardless_of_extension() {
    let ok_ext = song(1, "A", "tune.mp3");
    let bad_ext = song(2, "B", "notes.txt");
    let r1 = Player::decide_play(&ok_ext, "/media", false);
    let r2 = Player::decide_play(&bad_ext, "/media", false);
    assert!(matches!(r1, Err(PlaybackError::FileMissing(p)) if p == "/media/tune.mp3"));
    assert!(matches!(r2, Err(PlaybackError::FileMissing(p)) if p == "/media/notes.txt"));
}

#[test]
fn unsupported_format_refused_before_spawn() {
    let s = song(3, "C", "notes.txt");
    let r = Player::decide_play(&s, "/media", true);
    assert!(matches!(r, Err(PlaybackError::UnsupportedFormat(p)) if p == "/media/notes.txt"));
}

#[test]
fn extension_is_case_insensitive() {
    let s = song(4, "D", "LOUD.MP3");
    let r = Player::decide_play(&s, "/media", true);
    match r {
        Ok(req) => {
            assert_eq!(req.path, "/media/LOUD.MP3");
            assert_eq!(req.title, "D");
        }
        Err(_) => panic!("expected a playback request"),
    }
}

#[test]
fn no_extension_and_hidden_file_refused() {
    let bare = song(5, "E", "README");
    let hidden = song(6, "F", ".mp3");
    let trailing_dot = song(7, "G", "half.");
    assert!(matches!(
        Player::decide_play(&bare, "/media", true),
        Err(PlaybackError::UnsupportedFormat(_))
    ));
    assert!(matches!(
        Player::decide_play(&hidden, "/media", true),
        Err(PlaybackError::UnsupportedFormat(_))
    ));
    assert!(matches!(
        Player::decide_play(&trailing_dot, "/media", true),
        Err(PlaybackError::UnsupportedFormat(_))
    ));
}

#[test]
fn prepare_play_missing_file() {
    let player = Player::new();
    let s = song(8, "H", "no_such_file_anywhere.mp3");
    let r = player.prepare_play(&s, "/tmp/songbook_no_such_dir");
    assert!(matches!(r, Err(PlaybackError::FileMissing(p))
        if p == "/tmp/songbook_no_such_dir/no_such_file_anywhere.mp3"));
}

#[test]
fn prepare_play_existing_files() {
    // Opening a connection creates an empty file, which is all the
    // presence check looks at.
    let _ = sqlite::Connection::open("/tmp/songbook_fake_media.mp3").unwrap();
    let _ = sqlite::Connection::open("/tmp/songbook_fake_media.txt").unwrap();
    let player = Player::new();
    let good = song(9, "I", "songbook_fake_media.mp3");
    let bad = song(10, "J", "songbook_fake_media.txt");
    match player.prepare_play(&good, "/tmp") {
        Ok(req) => {
            assert_eq!(req.path, "/tmp/songbook_fake_media.mp3");
            assert_eq!(req.title, "I");
        }
        Err(_) => panic!("expected a playback request"),
    }
    assert!(matches!(
        player.prepare_play(&bad, "/tmp"),
        Err(PlaybackError::UnsupportedFormat(p)) if p == "/tmp/songbook_fake_media.txt"
    ));
}

#[test]
fn availability_outcome_cases() {
    assert!(Player::availability_outcome(Some(true)).is_ok());
    assert!(matches!(
        Player::availability_outcome(Some(false)),
        Err(PlayerUnavailableError::NonZeroExit)
    ));
    assert!(matches!(
        Player::availability_outcome(None),
        Err(PlayerUnavailableError::ProbeFailed)
    ));
}
