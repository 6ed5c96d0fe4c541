use seiri::bang::Bang;
use seiri::names::{first_free_name, fresh_name, name_of_number, position_of};
use seiri::sql::{escape_regex_search, get_rand_param, param_name, select_statement, to_query_string};
use seiri::track::TrackFileType;

fn s(text: &str) -> String {
    text.to_owned()
}

fn names(n: usize) -> Vec<String> {
    (1..=n).map(|i| format!(":p{}", i)).collect()
}

fn compile(bang: &Bang, n: usize) -> (String, Vec<(String, String)>) {
    bang.to_sql_with(&names(n)).unwrap()
}

const ORDER: &str =
    " ORDER BY CASE WHEN AlbumArtists = 'Various Artists' THEN 1 END, AlbumArtists,Album,TrackNumber";

#[test]
fn all_compiles_to_tautology() {
    let (text, params) = compile(&Bang::All, 0);
    assert_eq!(text, "(FilePath = FilePath)");
    assert!(params.is_empty());
    let (text, params) = Bang::All.to_sql();
    assert_eq!(text, "(FilePath = FilePath)");
    assert!(params.is_empty());
}

#[test]
fn text_leaves() {
    assert_eq!(
        compile(&Bang::TitleSearch(s("a b")), 1),
        (s("(Title LIKE :p1)"), vec![(s(":p1"), s("%a b%"))])
    );
    assert_eq!(
        compile(&Bang::TitleSearchExact(s("a b")), 1),
        (s("(Title = :p1)"), vec![(s(":p1"), s("a b"))])
    );
    assert_eq!(
        compile(&Bang::AlbumTitle(s("x")), 1),
        (s("(Album LIKE :p1)"), vec![(s(":p1"), s("%x%"))])
    );
    assert_eq!(
        compile(&Bang::AlbumTitleExact(s("x")), 1),
        (s("(Album = :p1)"), vec![(s(":p1"), s("x"))])
    );
    assert_eq!(
        compile(&Bang::Artist(s("x")), 1),
        (s("(Artist LIKE :p1)"), vec![(s(":p1"), s("%x%"))])
    );
    assert_eq!(
        compile(&Bang::ArtistExact(s("x")), 1),
        (s("(Artist = :p1)"), vec![(s(":p1"), s("x"))])
    );
    assert_eq!(
        compile(&Bang::Source(s("cd")), 1),
        (s("(Source = :p1 COLLATE NOCASE)"), vec![(s(":p1"), s("cd"))])
    );
    assert_eq!(
        compile(&Bang::FilePath(s("/m/a.flac")), 1),
        (s("(FilePath = :p1)"), vec![(s(":p1"), s("/m/a.flac"))])
    );
    assert_eq!(
        compile(&Bang::UpdatedBefore(s("2020-01-02")), 1),
        (s("(Updated < :p1)"), vec![(s(":p1"), s("2020-01-02"))])
    );
    assert_eq!(
        compile(&Bang::UpdatedAfter(s("2020-01-02")), 1),
        (s("(Updated > :p1)"), vec![(s(":p1"), s("2020-01-02"))])
    );
}

#[test]
fn album_artists_are_matched_by_pattern() {
    assert_eq!(
        compile(&Bang::AlbumArtists(s("a.b")), 1),
        (
            s("(AlbumArtists REGEXP :p1)"),
            vec![(s(":p1"), s("(?:^|;)(?:.*?)((?i)a\\.b)(?:.*?)(?:;|$)"))]
        )
    );
    assert_eq!(
        compile(&Bang::AlbumArtistsExact(s("a(b)")), 1),
        (
            s("(AlbumArtists REGEXP :p1)"),
            vec![(s(":p1"), s("(?:^|;)(a\\(b\\))(?:;|$)"))]
        )
    );
}

#[test]
fn full_text_search_takes_two_placeholders() {
    assert_eq!(
        compile(&Bang::FullTextSearch(s("x")), 2),
        (
            s("(Title LIKE :p1 OR Album LIKE :p1 OR Artist LIKE :p1 OR AlbumArtists REGEXP :p2 COLLATE NOCASE)"),
            vec![
                (s(":p1"), s("%x%")),
                (s(":p2"), s("(?:^|;)(?:.*?)((?i)x)(?:.*?)(?:;|$)")),
            ]
        )
    );
    assert_eq!(
        compile(&Bang::FullTextSearchExact(s("x")), 2),
        (
            s("(Title = :p1 OR Album = :p1 OR Artist = :p1 OR AlbumArtists REGEXP :p2 COLLATE NOCASE)"),
            vec![(s(":p1"), s("x")), (s(":p2"), s("(?:^|;)(x)(?:;|$)"))]
        )
    );
}

#[test]
fn number_leaves() {
    assert_eq!(
        compile(&Bang::BitrateLessThan(320), 1),
        (s("(Bitrate < :p1)"), vec![(s(":p1"), s("320"))])
    );
    assert_eq!(
        compile(&Bang::BitrateGreaterThan(-1), 1),
        (s("(Bitrate > :p1)"), vec![(s(":p1"), s("-1"))])
    );
    assert_eq!(
        compile(&Bang::CoverArtWidthLessThan(0), 1),
        (s("(FrontCoverWidth < :p1)"), vec![(s(":p1"), s("0"))])
    );
    assert_eq!(
        compile(&Bang::CoverArtWidthGreaterThan(500), 1),
        (s("(FrontCoverWidth > :p1)"), vec![(s(":p1"), s("500"))])
    );
    assert_eq!(
        compile(&Bang::CoverArtHeightLessThan(i32::MIN), 1),
        (s("(FrontCoverHeight < :p1)"), vec![(s(":p1"), s("-2147483648"))])
    );
    assert_eq!(
        compile(&Bang::CoverArtHeightGreaterThan(i32::MAX), 1),
        (s("(FrontCoverHeight > :p1)"), vec![(s(":p1"), s("2147483647"))])
    );
    assert_eq!(
        compile(&Bang::DurationLessThan(3300000000), 1),
        (s("(Duration < :p1)"), vec![(s(":p1"), s("3300000000"))])
    );
    assert_eq!(
        compile(&Bang::DurationGreaterThan(i64::MIN), 1),
        (s("(Duration > :p1)"), vec![(s(":p1"), s("-9223372036854775808"))])
    );
}

#[test]
fn flag_leaves() {
    assert_eq!(
        compile(&Bang::HasCoverArt(true), 1),
        (s("(HasFrontCover = :p1)"), vec![(s(":p1"), s("true"))])
    );
    assert_eq!(
        compile(&Bang::HasCoverArt(false), 1),
        (s("(HasFrontCover = :p1)"), vec![(s(":p1"), s("false"))])
    );
    assert_eq!(compile(&Bang::HasMusicbrainzId(true), 0), (s("(MusicBrainzTrackId IS NOT NULL)"), vec![]));
    assert_eq!(compile(&Bang::HasMusicbrainzId(false), 0), (s("(MusicBrainzTrackId IS NULL)"), vec![]));
    assert_eq!(
        compile(&Bang::HasDuplicates(true), 0),
        (
            s("(Title, AlbumArtists) in (select Title, AlbumArtists from tracks group by Title, AlbumArtists having count(*) > 1)"),
            vec![]
        )
    );
    assert_eq!(
        compile(&Bang::HasDuplicates(false), 0),
        (
            s("(Title, AlbumArtists) not in (select Title, AlbumArtists from tracks group by Title, AlbumArtists having count(*) > 1)"),
            vec![]
        )
    );
}

#[test]
fn format_families_compile_to_ranges() {
    let range = |t: TrackFileType, lo: &str, hi: &str| {
        assert_eq!(
            compile(&Bang::Format(t), 2),
            (
                s("(FileType BETWEEN :p1 AND :p2)"),
                vec![(s(":p1"), s(lo)), (s(":p2"), s(hi))]
            )
        );
    };
    range(TrackFileType::FLAC, "1", "6");
    range(TrackFileType::ALAC, "12", "14");
    range(TrackFileType::AIFF, "15", "20");
    range(TrackFileType::MonkeysAudio, "21", "24");
    assert_eq!(
        compile(&Bang::Format(TrackFileType::MP3), 2),
        (
            s("(FileType = :p1 OR FileType = :p2)"),
            vec![(s(":p1"), s("7")), (s(":p2"), s("8"))]
        )
    );
}

#[test]
fn single_formats_compile_to_equality() {
    assert_eq!(
        compile(&Bang::Format(TrackFileType::FLAC16), 1),
        (s("(FileType = :p1)"), vec![(s(":p1"), s("3"))])
    );
    assert_eq!(
        compile(&Bang::Format(TrackFileType::Unknown), 1),
        (s("(FileType = :p1)"), vec![(s(":p1"), s("0"))])
    );
    assert_eq!(
        compile(&Bang::Format(TrackFileType::Opus), 1),
        (s("(FileType = :p1)"), vec![(s(":p1"), s("11"))])
    );
}

#[test]
fn combinators_parenthesize() {
    let a = || Box::new(Bang::TitleSearch(s("a")));
    let b = || Box::new(Bang::HasMusicbrainzId(true));
    let c = || Box::new(Bang::FullTextSearch(s("c")));
    assert_eq!(
        compile(&Bang::LogicalAnd(a(), b()), 1),
        (
            s("((Title LIKE :p1)) AND ((MusicBrainzTrackId IS NOT NULL))"),
            vec![(s(":p1"), s("%a%"))]
        )
    );
    assert_eq!(
        compile(&Bang::LogicalOr(a(), Box::new(Bang::Grouping(c()))), 3).0,
        "((Title LIKE :p1)) OR (((Title LIKE :p2 OR Album LIKE :p2 OR Artist LIKE :p2 OR AlbumArtists REGEXP :p3 COLLATE NOCASE)))"
    );
    assert_eq!(compile(&Bang::Grouping(a()), 1).0, "((Title LIKE :p1))");
}

#[test]
fn the_number_of_names_must_fit() {
    let bang = Bang::LogicalAnd(
        Box::new(Bang::TitleSearch(s("a"))),
        Box::new(Bang::Format(TrackFileType::FLAC)),
    );
    assert!(bang.to_sql_with(&names(2)).is_none());
    assert!(bang.to_sql_with(&names(4)).is_none());
    assert!(bang.to_sql_with(&names(3)).is_some());
    assert!(Bang::All.to_sql_with(&names(1)).is_none());
}

#[test]
fn fresh_names_are_placeholders() {
    for _ in 0..20 {
        let name = get_rand_param();
        assert_eq!(name.chars().count(), 11);
        assert!(name.starts_with(':'));
        assert!(name[1..].chars().all(|c| c.is_ascii_alphanumeric()));
    }
    assert_eq!(param_name("abcDEF0123"), ":abcDEF0123");
}

#[test]
fn compiled_text_holds_names_only() {
    let bang = Bang::LogicalOr(
        Box::new(Bang::Artist(s("Boards of Canada"))),
        Box::new(Bang::BitrateGreaterThan(98765)),
    );
    let (text, params) = bang.to_sql();
    assert_eq!(params.len(), 2);
    assert_eq!(
        text,
        format!("((Artist LIKE {})) OR ((Bitrate > {}))", params[0].0, params[1].0)
    );
    assert_eq!(params[0].1, "%Boards of Canada%");
    assert_eq!(params[1].1, "98765");
    assert!(!text.contains("Boards"));
    assert!(!text.contains("98765"));
}

#[test]
fn to_query_string_appends_bindings() {
    let mut params = vec![(s(":old"), s("kept"))];
    let text = to_query_string(Bang::TitleSearchExact(s("x")), &mut params);
    assert_eq!(params.len(), 2);
    assert_eq!(params[0], (s(":old"), s("kept")));
    assert_eq!(params[1].1, "x");
    assert_eq!(text, format!("(Title = {})", params[1].0));
}

#[test]
fn escaping_for_patterns() {
    assert_eq!(
        escape_regex_search("a\\b?c.d+e[f]g(h)i*j^k"),
        "a\\\\b\\?c\\.d\\+e\\[f\\]g\\(h\\)i\\*j\\^k"
    );
    assert_eq!(escape_regex_search("a|b"), "a\\|b");
    assert_eq!(escape_regex_search("x{2}$"), "x\\{2\\}\\$");
    assert_eq!(escape_regex_search("plain text, #&-~ too"), "plain text, #&-~ too");
    assert_eq!(escape_regex_search(""), "");
    for text in ["a|b", "x{2}$", "(a.b)*[c]+?^\\", "Ümlaut & Co."] {
        let pattern = regex::Regex::new(&format!("^{}$", escape_regex_search(text))).unwrap();
        assert!(pattern.is_match(text));
        assert!(!pattern.is_match("a"));
    }
}

#[test]
fn empty_query_selects_everything() {
    let (text, params) = select_statement(Bang::new("").unwrap(), None, None);
    assert_eq!(text, format!("SELECT * FROM tracks{}", ORDER));
    assert!(params.is_empty());
}

#[test]
fn select_with_condition_limit_and_offset() {
    let (text, params) = select_statement(Bang::TitleSearch(s("a")), Some(10), Some(20));
    assert_eq!(params.len(), 1);
    assert_eq!(
        text,
        format!(
            "SELECT * FROM tracks WHERE ((Title LIKE {})) LIMIT 10 OFFSET 20{}",
            params[0].0, ORDER
        )
    );
    let (text, _) = select_statement(Bang::All, Some(5), None);
    assert_eq!(text, format!("SELECT * FROM tracks LIMIT 5{}", ORDER));
    let (text, _) = select_statement(Bang::All, None, Some(-3));
    assert_eq!(text, format!("SELECT * FROM tracks OFFSET -3{}", ORDER));
}

#[test]
fn names_in_counting_order() {
    assert_eq!(name_of_number(0), ":0000000000");
    assert_eq!(name_of_number(42), ":0000000042");
    assert_eq!(name_of_number(9999999999), ":9999999999");
    let taken = vec![s(":0000000001"), s(":0000000000"), s(":abc")];
    assert_eq!(first_free_name(&taken), Some(s(":0000000002")));
    assert_eq!(first_free_name(&Vec::new()), Some(s(":0000000000")));
    assert_eq!(position_of(&taken, &s(":0000000000")), Some(1));
    assert_eq!(position_of(&taken, &s(":zzz")), None);
}

#[test]
fn fresh_names_differ_from_those_taken() {
    let mut taken: Vec<String> = Vec::new();
    for _ in 0..200 {
        let name = fresh_name(&taken);
        assert_eq!(name.chars().count(), 11);
        assert!(name.starts_with(':'));
        assert!(!taken.contains(&name));
        taken.push(name);
    }
}

fn chain(links: usize) -> Bang {
    let mut bang = Bang::FullTextSearch(s("x"));
    for i in 0..links {
        bang = Bang::LogicalAnd(Box::new(Bang::TitleSearch(format!("t{}", i))), Box::new(bang));
    }
    bang
}

#[test]
fn compiled_names_differ() {
    let (_, params) = chain(200).to_sql();
    assert_eq!(params.len(), 202);
    for (i, (name, _)) in params.iter().enumerate() {
        for (other, _) in &params[..i] {
            assert_ne!(name, other);
        }
    }
    let mut bound: Vec<(String, String)> = Vec::new();
    to_query_string(chain(50), &mut bound);
    assert_eq!(bound.len(), 52);
    for (i, (name, _)) in bound.iter().enumerate() {
        for (other, _) in &bound[..i] {
            assert_ne!(name, other);
        }
    }
}
