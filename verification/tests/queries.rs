use seiri::bang::Bang;
use seiri::error::Error;
use seiri::lexer::lex_query;
use seiri::token::{LexerMode, Token};
use seiri::track::TrackFileType;

fn s(text: &str) -> String {
    text.to_owned()
}

fn names(n: usize) -> Vec<String> {
    (1..=n).map(|i| format!(":p{}", i)).collect()
}

#[test]
fn empty_query_matches_all() {
    assert_eq!(lex_query(""), Ok(vec![Token::MatchAll, Token::InputEnd]));
    assert_eq!(Bang::new(""), Ok(Bang::All));
}

#[test]
fn bare_text_is_full_text_search() {
    assert_eq!(Bang::new("hello world"), Ok(Bang::FullTextSearch(s("hello world"))));
    assert_eq!(
        lex_query("hello world"),
        Ok(vec![
            Token::BangPrefix('!'),
            Token::BangIdentifier(s("q")),
            Token::ArgumentBegin,
            Token::Argument(s("hello world")),
            Token::ArgumentEnd,
            Token::InputEnd,
        ])
    );
}

#[test]
fn unconfirmed_bang_is_text() {
    assert_eq!(Bang::new("!{abc}"), Ok(Bang::FullTextSearch(s("!{abc}"))));
    assert_eq!(Bang::new("!abc"), Ok(Bang::FullTextSearch(s("!abc"))));
    assert_eq!(Bang::new("!t |"), Ok(Bang::FullTextSearch(s("!t |"))));
    assert_eq!(Bang::new(" !t{a}"), Ok(Bang::FullTextSearch(s(" !t{a}"))));
}

#[test]
fn single_bang() {
    assert_eq!(
        lex_query("!t{abc}"),
        Ok(vec![
            Token::BangPrefix('!'),
            Token::BangIdentifier(s("t")),
            Token::ArgumentBegin,
            Token::Argument(s("abc")),
            Token::ArgumentEnd,
            Token::InputEnd,
        ])
    );
    assert_eq!(Bang::new("!t{abc}"), Ok(Bang::TitleSearch(s("abc"))));
}

#[test]
fn operators_associate_to_the_right() {
    assert_eq!(
        Bang::new("!t{a}|!t{b}&!t{c}"),
        Ok(Bang::LogicalOr(
            Box::new(Bang::TitleSearch(s("a"))),
            Box::new(Bang::LogicalAnd(
                Box::new(Bang::TitleSearch(s("b"))),
                Box::new(Bang::TitleSearch(s("c"))),
            )),
        ))
    );
}

#[test]
fn grouping_round_trip() {
    assert_eq!(
        Bang::new("!!{!t{a}|!t{b}}"),
        Ok(Bang::Grouping(Box::new(Bang::LogicalOr(
            Box::new(Bang::TitleSearch(s("a"))),
            Box::new(Bang::TitleSearch(s("b"))),
        ))))
    );
}

#[test]
fn escaped_brace_is_text() {
    assert_eq!(Bang::new("!t{a\\{b}"), Ok(Bang::TitleSearch(s("a{b"))));
    assert_eq!(Bang::new("!t{a\\}b}"), Ok(Bang::TitleSearch(s("a}b"))));
}

#[test]
fn unknown_bang() {
    assert_eq!(Bang::new("!zzz{x}"), Err(Error::ParserUnknownBang(s("zzz"))));
}

#[test]
fn missing_closing_brace() {
    assert_eq!(Bang::new("!t{a"), Err(Error::LexerUnexpectedEndOfInput));
    assert_eq!(lex_query("!t{a}|!t{b"), Err(Error::LexerUnexpectedEndOfInput));
}

#[test]
fn dangling_escape() {
    assert_eq!(
        lex_query("!t{a\\"),
        Err(Error::LexerUnexpectedEscapeCharacter(LexerMode::Argument))
    );
}

#[test]
fn format_family() {
    let flac = Bang::new("!f{flac}").unwrap();
    assert_eq!(flac, Bang::Format(TrackFileType::FLAC));
    let (text, params) = flac.to_sql_with(&names(2)).unwrap();
    assert_eq!(text, "(FileType BETWEEN :p1 AND :p2)");
    assert_eq!(params, vec![(s(":p1"), s("1")), (s(":p2"), s("6"))]);
    let flac16 = Bang::new("!f{flac16}").unwrap();
    assert_eq!(flac16, Bang::Format(TrackFileType::FLAC16));
    let (text, params) = flac16.to_sql_with(&names(1)).unwrap();
    assert_eq!(text, "(FileType = :p1)");
    assert_eq!(params, vec![(s(":p1"), s("3"))]);
}

#[test]
fn artist_and_format() {
    let bang = Bang::new("!ar{Boards of Canada}&!f{flac}").unwrap();
    assert_eq!(
        bang,
        Bang::LogicalAnd(
            Box::new(Bang::Artist(s("Boards of Canada"))),
            Box::new(Bang::Format(TrackFileType::FLAC)),
        )
    );
    let (text, params) = bang.to_sql_with(&names(3)).unwrap();
    assert_eq!(text, "((Artist LIKE :p1)) AND ((FileType BETWEEN :p2 AND :p3))");
    assert_eq!(
        params,
        vec![(s(":p1"), s("%Boards of Canada%")), (s(":p2"), s("1")), (s(":p3"), s("6"))]
    );
}
