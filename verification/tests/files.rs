use seiri::config::Config;
use seiri::paths::{
    get_iterative_filename, get_source, get_track_directory, get_track_filename,
    is_hidden_file, is_in_hidden_path, is_invalid_for_path, is_whitespace_only, join,
    sanitize_file_name, same_texts, track_warrants_move, trim,
};
use seiri::track::{Track, TrackFileType};
use seiri::watcher::{should_process, watchdog_step, WatchStatus, WatchdogAction};

fn s(text: &str) -> String {
    text.to_owned()
}

fn track() -> Track {
    Track {
        file_path: s("/music/a.flac"),
        file_type: TrackFileType::FLAC16,
        title: s("What? A Title."),
        artist: s("Artist"),
        album_artists: vec![s(" One"), s("Two/Three ")],
        album: s("  An Album: Part 1. "),
        year: 2001,
        track_number: 3,
        musicbrainz_track_id: None,
        has_front_cover: false,
        front_cover_height: 0,
        front_cover_width: 0,
        bitrate: 900,
        sample_rate: 44100,
        source: s("None"),
        disc_number: 1,
        duration: 1000,
        updated: s("2020-01-01"),
    }
}

#[test]
fn characters_that_names_do_not_take() {
    for c in ['"', '<', '>', '|', '\0', ':', '*', '?', '\\', '/'] {
        assert!(is_invalid_for_path(c));
    }
    for c in ['a', '.', ' ', '_', '-', 'é', '!'] {
        assert!(!is_invalid_for_path(c));
    }
}

#[test]
fn sanitized_names() {
    assert_eq!(sanitize_file_name("a/b\\c:d"), "a_b_c_d");
    assert_eq!(sanitize_file_name("name..."), "name");
    assert_eq!(sanitize_file_name("what?."), "what_");
    assert_eq!(sanitize_file_name("..."), "");
    assert_eq!(sanitize_file_name(""), "");
    assert_eq!(sanitize_file_name(".hidden"), ".hidden");
    assert_eq!(sanitize_file_name("a.b"), "a.b");
}

#[test]
fn trimmed_and_joined_text() {
    assert_eq!(trim("  a b \t\n"), "a b");
    assert_eq!(trim("\u{a0}x\u{2003}"), "x");
    assert_eq!(trim("   "), "");
    assert_eq!(trim(""), "");
    assert_eq!(trim("x"), "x");
    assert_eq!(join(&vec![s("a"), s("b"), s("c")], ", "), "a, b, c");
    assert_eq!(join(&vec![s("a")], ", "), "a");
    assert_eq!(join(&vec![], ", "), "");
    assert_eq!(join(&vec![s(""), s("")], ";"), ";");
}

#[test]
fn folders_and_file_names_of_a_track() {
    let t = track();
    assert_eq!(get_track_directory(&t), (s("One, Two_Three"), s("An Album_ Part 1")));
    assert_eq!(get_track_filename(&t), "1-03 What_ A Title");
    let mut t = track();
    t.disc_number = 12;
    t.track_number = 10;
    t.title = s("x");
    assert_eq!(get_track_filename(&t), "12-10 x");
    t.disc_number = -1;
    t.track_number = -5;
    assert_eq!(get_track_filename(&t), "-1--5 x");
    t.disc_number = 0;
    t.track_number = 0;
    assert_eq!(get_track_filename(&t), "0-00 x");
    t.track_number = 123;
    assert_eq!(get_track_filename(&t), "0-123 x");
}

#[test]
fn numbered_names() {
    assert_eq!(get_iterative_filename("a", "flac", 0), "a.flac");
    assert_eq!(get_iterative_filename("a", "flac", 1), "a (1).flac");
    assert_eq!(get_iterative_filename("a b", "", 12), "a b (12).");
}

#[test]
fn sources() {
    assert_eq!(get_source(None), "None");
    assert_eq!(get_source(Some("")), "None");
    assert_eq!(get_source(Some("  ")), "None");
    assert_eq!(get_source(Some("cd")), "cd");
    assert_eq!(get_source(Some("cd/rips/a")), "cd");
    assert_eq!(get_source(Some("web_store")), "web");
    assert_eq!(get_source(Some("_x")), "");
    assert_eq!(get_source(Some(".notadded/2020-01-01")), ".notadded");
    assert!(is_whitespace_only(" \t"));
    assert!(!is_whitespace_only(" a "));
}

#[test]
fn hidden_files_and_folders() {
    assert!(is_hidden_file(Some(".DS_Store")));
    assert!(!is_hidden_file(Some("a.flac")));
    assert!(!is_hidden_file(Some("")));
    assert!(!is_hidden_file(None));
    assert!(is_in_hidden_path(Some(".notadded/2020-01-01")));
    assert!(!is_in_hidden_path(Some("cd/.hidden")));
    assert!(!is_in_hidden_path(Some("")));
    assert!(!is_in_hidden_path(None));
}

#[test]
fn what_the_watcher_takes_up() {
    assert!(should_process(true, Some("cd"), Some("a.flac")));
    assert!(!should_process(false, Some("cd"), Some("a.flac")));
    assert!(!should_process(true, Some(".cd"), Some("a.flac")));
    assert!(!should_process(true, Some("cd"), Some(".a.flac")));
    assert!(should_process(true, None, None));
}

#[test]
fn what_the_watchdog_does() {
    assert_eq!(
        watchdog_step(true, true),
        WatchdogAction { wait_for_folder: false, send_exit: false, restart: false }
    );
    assert_eq!(
        watchdog_step(false, true),
        WatchdogAction { wait_for_folder: false, send_exit: false, restart: true }
    );
    assert_eq!(
        watchdog_step(true, false),
        WatchdogAction { wait_for_folder: true, send_exit: true, restart: true }
    );
    assert_eq!(
        watchdog_step(false, false),
        WatchdogAction { wait_for_folder: true, send_exit: true, restart: true }
    );
    assert_ne!(WatchStatus::KeepAlive, WatchStatus::Exit);
}

#[test]
fn when_a_track_moves() {
    let saved = track();
    assert!(!track_warrants_move(&saved, &track()));
    let mut read = track();
    read.bitrate = 1;
    read.file_path = s("/elsewhere");
    assert!(!track_warrants_move(&saved, &read));
    let mut read = track();
    read.title = s("Other");
    assert!(track_warrants_move(&saved, &read));
    let mut read = track();
    read.track_number = 4;
    assert!(track_warrants_move(&saved, &read));
    let mut read = track();
    read.album_artists = vec![s(" One")];
    assert!(track_warrants_move(&saved, &read));
    let mut read = track();
    read.album_artists = vec![s(" One"), s("Two/Three")];
    assert!(track_warrants_move(&saved, &read));
    assert!(same_texts(&vec![], &vec![]));
    assert!(!same_texts(&vec![s("a")], &vec![s("b")]));
}

#[test]
fn configuration() {
    assert_eq!(Config::new("/home/me/Music/seiri").music_folder, "/home/me/Music/seiri");
}
