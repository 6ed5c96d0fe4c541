use seiri::error::Error;
use seiri::numbers::{bool_text, decimal_text, parse_bool, parse_i32};
use seiri::dates::{normalize_date, write_date, Date};
use seiri::ticks::{
    check_span_text, ms_to_ticks, parse_ticks, ticks_of_span, ticks_to_ms, Span, TickRepr,
};
use seiri::track::{check_required_tags, Track, TrackFileType};

fn s(text: &str) -> String {
    text.to_owned()
}

fn track() -> Track {
    Track {
        file_path: s("/music/a.flac"),
        file_type: TrackFileType::FLAC16,
        title: s("Title"),
        artist: s("Artist"),
        album_artists: vec![s("One"), s("Two")],
        album: s("Album"),
        year: 2001,
        track_number: 3,
        musicbrainz_track_id: None,
        has_front_cover: false,
        front_cover_height: 0,
        front_cover_width: 0,
        bitrate: 900,
        sample_rate: 44100,
        source: s("None"),
        disc_number: 1,
        duration: 1000,
        updated: s("2020-01-01"),
    }
}

#[test]
fn ticks_and_milliseconds() {
    assert_eq!(ms_to_ticks(1), 10000);
    assert_eq!(ms_to_ticks(-2), -20000);
    assert_eq!(ms_to_ticks(i32::MAX), 21474836470000);
    assert_eq!(ms_to_ticks(i32::MIN), -21474836480000);
    assert_eq!(ticks_to_ms(10000), 1);
    assert_eq!(ticks_to_ms(19999), 1);
    assert_eq!(ticks_to_ms(-19999), -1);
    assert_eq!(ticks_to_ms(-1), 0);
    assert_eq!(ticks_to_ms(0), 0);
    assert_eq!(ticks_to_ms(21474836470000), i32::MAX);
    assert_eq!(ticks_to_ms(21474836480000), i32::MIN);
    assert_eq!(ticks_to_ms(i64::MAX), ((i64::MAX / 10000) as i32));
    assert_eq!(ticks_to_ms(i64::MIN), ((i64::MIN / 10000) as i32));
    assert_eq!(ticks_to_ms(ms_to_ticks(123456)), 123456);
}

#[test]
fn spans_in_ticks() {
    assert_eq!(Span { secs: 1, nanos: 0 }.to_ticks(), 10000000);
    assert_eq!(Span { secs: 2, nanos: 150 }.to_ticks(), 20000001);
    assert_eq!(Span { secs: 0, nanos: 99 }.to_ticks(), 0);
    assert_eq!(Span { secs: 330, nanos: 0 }.checked_ticks(), Some(3300000000));
    assert_eq!(
        Span { secs: 922337203685, nanos: 477580700 }.checked_ticks(),
        Some(i64::MAX)
    );
    assert_eq!(Span { secs: 922337203685, nanos: 477580800 }.checked_ticks(), None);
    assert_eq!(Span { secs: u64::MAX, nanos: u32::MAX }.checked_ticks(), None);
    assert_eq!(ticks_of_span(None), None);
    assert_eq!(ticks_of_span(Some(Span { secs: 3, nanos: 0 })), Some(30000000));
}

#[test]
fn spelled_spans() {
    assert_eq!(parse_ticks("2h 37min"), Some(94200000000));
    assert_eq!(parse_ticks("32ms"), Some(320000));
    assert_eq!(parse_ticks("0"), Some(0));
    assert_eq!(parse_ticks(""), None);
    assert_eq!(parse_ticks("5"), None);
    assert_eq!(parse_ticks("five minutes"), None);
}

#[test]
fn numbers_from_text() {
    assert_eq!(parse_i32("0"), Some(0));
    assert_eq!(parse_i32("-0"), Some(0));
    assert_eq!(parse_i32("+17"), Some(17));
    assert_eq!(parse_i32("0000000000000000000012"), Some(12));
    assert_eq!(parse_i32("2147483647"), Some(i32::MAX));
    assert_eq!(parse_i32("-2147483648"), Some(i32::MIN));
    assert_eq!(parse_i32("2147483648"), None);
    assert_eq!(parse_i32("-2147483649"), None);
    assert_eq!(parse_i32("99999999999999999999999999"), None);
    assert_eq!(parse_i32(""), None);
    assert_eq!(parse_i32("-"), None);
    assert_eq!(parse_i32("+"), None);
    assert_eq!(parse_i32("+-1"), None);
    assert_eq!(parse_i32("1_000"), None);
    assert_eq!(parse_i32("12a"), None);
    assert_eq!(parse_i32("１２"), None);
    for text in ["0", "-0", "+17", "007", "2147483648", "", "-", "1 ", "٣"] {
        assert_eq!(parse_i32(text), text.parse::<i32>().ok());
    }
}

#[test]
fn truth_values_from_text() {
    assert_eq!(parse_bool("true"), Some(true));
    assert_eq!(parse_bool("false"), Some(false));
    assert_eq!(parse_bool("TRUE"), None);
    assert_eq!(parse_bool(""), None);
    assert_eq!(parse_bool("true "), None);
}

#[test]
fn numbers_as_text() {
    assert_eq!(decimal_text(0), "0");
    assert_eq!(decimal_text(9), "9");
    assert_eq!(decimal_text(10), "10");
    assert_eq!(decimal_text(-10), "-10");
    assert_eq!(decimal_text(1234567890), "1234567890");
    assert_eq!(decimal_text(i64::MAX), "9223372036854775807");
    assert_eq!(decimal_text(i64::MIN), "-9223372036854775808");
    assert_eq!(bool_text(true), "true");
    assert_eq!(bool_text(false), "false");
}

#[test]
fn file_type_codes() {
    assert_eq!(TrackFileType::Unknown.value(), 0);
    assert_eq!(TrackFileType::FLAC4.value(), 1);
    assert_eq!(TrackFileType::FLAC16.value(), 3);
    assert_eq!(TrackFileType::FLAC32.value(), 5);
    assert_eq!(TrackFileType::FLAC.value(), 6);
    assert_eq!(TrackFileType::MP3CBR.value(), 7);
    assert_eq!(TrackFileType::MP3VBR.value(), 8);
    assert_eq!(TrackFileType::AAC.value(), 9);
    assert_eq!(TrackFileType::ALAC.value(), 14);
    assert_eq!(TrackFileType::AIFF.value(), 20);
    assert_eq!(TrackFileType::MonkeysAudio.value(), 24);
    assert_eq!(TrackFileType::MP3.value(), 780);
    for code in -5..800 {
        match TrackFileType::from_value(code) {
            Some(t) => assert_eq!(t.value(), code),
            None => assert!(!((0..=24).contains(&code) || code == 780)),
        }
    }
    assert_eq!(TrackFileType::from_value(780), Some(TrackFileType::MP3));
    assert_eq!(TrackFileType::from_value(25), None);
}

#[test]
fn file_type_names() {
    assert_eq!(TrackFileType::from_name("flac"), TrackFileType::FLAC);
    assert_eq!(TrackFileType::from_name("FLAC"), TrackFileType::FLAC);
    assert_eq!(TrackFileType::from_name("Ape16"), TrackFileType::MonkeysAudio16);
    assert_eq!(TrackFileType::from_name("cbr"), TrackFileType::MP3CBR);
    assert_eq!(TrackFileType::from_name("vbr"), TrackFileType::MP3VBR);
    assert_eq!(TrackFileType::from_name("mp3"), TrackFileType::MP3);
    assert_eq!(TrackFileType::from_name("aiff32"), TrackFileType::AIFF32);
    assert_eq!(TrackFileType::from_name("alac24"), TrackFileType::ALAC24);
    assert_eq!(TrackFileType::from_name("vorbis"), TrackFileType::Vorbis);
    assert_eq!(TrackFileType::from_name("wav"), TrackFileType::Unknown);
    assert_eq!(TrackFileType::from_name(""), TrackFileType::Unknown);
    assert_eq!(TrackFileType::from_lowercase_name("opus"), TrackFileType::Opus);
    assert_eq!(TrackFileType::from_lowercase_name("OPUS"), TrackFileType::Unknown);
    assert_eq!("aac".parse::<TrackFileType>(), Ok(TrackFileType::AAC));
}

#[test]
fn required_tags() {
    assert_eq!(check_required_tags(&track()), Ok(()));
    let mut t = track();
    t.album = s("");
    assert_eq!(
        check_required_tags(&t),
        Err(Error::MissingRequiredTag(s("/music/a.flac"), "Album"))
    );
    t.artist = s("");
    assert_eq!(
        check_required_tags(&t),
        Err(Error::MissingRequiredTag(s("/music/a.flac"), "Artist"))
    );
    t.title = s("");
    assert_eq!(
        check_required_tags(&t),
        Err(Error::MissingRequiredTag(s("/music/a.flac"), "Title"))
    );
    let mut t = track();
    t.album_artists = vec![];
    assert_eq!(
        check_required_tags(&t),
        Err(Error::MissingRequiredTag(s("/music/a.flac"), "AlbumArtists"))
    );
}

#[test]
fn spans_with_long_numbers_are_not_read() {
    assert_eq!(parse_ticks("18446744073709551615s 1000ms"), None);
    assert_eq!(parse_ticks("18446744073709551615s 999ms 1000us"), None);
    assert_eq!(parse_ticks("18446744073709551615s"), None);
    assert_eq!(parse_ticks("999999999s"), Some(9999999990000000));
    assert_eq!(parse_ticks("1000000000s"), None);
    assert_eq!(parse_ticks("1 000 000 000s"), None);
    assert_eq!(parse_ticks("12 345s"), Some(123450000000));
    assert_eq!(parse_ticks("999999999y"), None);
    assert_eq!(parse_ticks("123456789.123456789s"), Some(1234567891234567));
    assert_eq!(parse_ticks("1h 30m 15s 500ms 250us 125ns"), Some(54155002501));
    assert!(check_span_text("1h 30m 15s 500ms 250us 125ns"));
    assert!(check_span_text("123456789.123456789s"));
    assert!(check_span_text(""));
    assert!(check_span_text("no digits at all"));
    assert!(!check_span_text("1234567890"));
    assert!(!check_span_text("12345 67890ms"));
    assert!(!check_span_text("1s 0000000001s"));
}

#[test]
fn long_spans_are_not_read() {
    let longest = format!("{}1s", " ".repeat(254));
    assert_eq!(longest.chars().count(), 256);
    assert!(check_span_text(&longest));
    assert_eq!(parse_ticks(&longest), Some(10000000));
    let longer = format!("{}1s", " ".repeat(255));
    assert!(!check_span_text(&longer));
    assert_eq!(parse_ticks(&longer), None);
    let many = "999999999y ".repeat(23);
    assert!(check_span_text(&many));
    assert_eq!(parse_ticks(&many), None);
}

#[test]
fn dates_as_stored() {
    assert_eq!(normalize_date("2020-1-2"), Some(s("2020-01-02")));
    assert_eq!(normalize_date("1999-12-31"), Some(s("1999-12-31")));
    assert_eq!(normalize_date("0042-03-04"), Some(s("0042-03-04")));
    assert_eq!(normalize_date("+12345-6-7"), Some(s("+12345-06-07")));
    assert_eq!(normalize_date("2020-02-30"), None);
    assert_eq!(normalize_date("2020-13-01"), None);
    assert_eq!(normalize_date("yesterday"), None);
    assert_eq!(normalize_date(""), None);
}

#[test]
fn dates_are_written_as_the_calendar_writes_them() {
    assert_eq!(write_date(Date { year: 2020, month: 1, day: 2 }), "2020-01-02");
    assert_eq!(write_date(Date { year: 0, month: 1, day: 1 }), "0000-01-01");
    assert_eq!(write_date(Date { year: 9999, month: 12, day: 31 }), "9999-12-31");
    assert_eq!(write_date(Date { year: 10000, month: 1, day: 1 }), "+10000-01-01");
    assert_eq!(write_date(Date { year: -1, month: 1, day: 1 }), "-0001-01-01");
    assert_eq!(write_date(Date { year: -262143, month: 1, day: 1 }), "-262143-01-01");
    for year in [-262143, -10000, -9999, -1, 0, 1, 999, 1000, 2024, 9999, 10000, 99999, 262142] {
        for (month, day) in [(1, 1), (2, 28), (10, 9), (12, 31)] {
            let date = chrono::NaiveDate::from_ymd_opt(year, month, day).unwrap();
            assert_eq!(
                write_date(Date { year, month, day }),
                date.format("%Y-%m-%d").to_string()
            );
        }
    }
}

#[test]
fn names_of_file_types_in_any_case() {
    assert_eq!(TrackFileType::from_name("FlAc24"), TrackFileType::FLAC24);
    assert_eq!(TrackFileType::from_name("OPUS"), TrackFileType::Opus);
    assert_eq!(TrackFileType::from_name("Mp3"), TrackFileType::MP3);
    assert_eq!(TrackFileType::from_name("FL\u{c4}C"), TrackFileType::Unknown);
    assert_eq!("AAC".parse::<TrackFileType>(), Ok(TrackFileType::AAC));
}
