use seiri::bang::Bang;
use seiri::error::Error;
use seiri::parser::{as_bang_type, parse_bang, parse_token_stream, take_until_braces_balanced, BangType};
use seiri::token::Token;
use seiri::track::TrackFileType;

fn s(text: &str) -> String {
    text.to_owned()
}

fn bang(name: &str, argument: &str) -> Vec<Token> {
    vec![
        Token::BangPrefix('!'),
        Token::BangIdentifier(s(name)),
        Token::ArgumentBegin,
        Token::Argument(s(argument)),
        Token::ArgumentEnd,
    ]
}

fn single(name: &str, argument: &str) -> Result<Bang, Error> {
    let mut tokens = bang(name, argument);
    tokens.push(Token::InputEnd);
    parse_token_stream(&tokens)
}

#[test]
fn every_name_has_its_kind() {
    assert_eq!(single("t", "x"), Ok(Bang::TitleSearch(s("x"))));
    assert_eq!(single("T", "x"), Ok(Bang::TitleSearchExact(s("x"))));
    assert_eq!(single("q", "x"), Ok(Bang::FullTextSearch(s("x"))));
    assert_eq!(single("Q", "x"), Ok(Bang::FullTextSearchExact(s("x"))));
    assert_eq!(single("al", "x"), Ok(Bang::AlbumTitle(s("x"))));
    assert_eq!(single("AL", "x"), Ok(Bang::AlbumTitleExact(s("x"))));
    assert_eq!(single("alar", "x"), Ok(Bang::AlbumArtists(s("x"))));
    assert_eq!(single("ALAR", "x"), Ok(Bang::AlbumArtistsExact(s("x"))));
    assert_eq!(single("ar", "x"), Ok(Bang::Artist(s("x"))));
    assert_eq!(single("AR", "x"), Ok(Bang::ArtistExact(s("x"))));
    assert_eq!(single("s", "x"), Ok(Bang::Source(s("x"))));
    assert_eq!(single("f", "Flac24"), Ok(Bang::Format(TrackFileType::FLAC24)));
    assert_eq!(single("f", "nothing"), Ok(Bang::Format(TrackFileType::Unknown)));
    assert_eq!(single("dlt", "5m 30s"), Ok(Bang::DurationLessThan(3300000000)));
    assert_eq!(single("dgt", "1ms"), Ok(Bang::DurationGreaterThan(10000)));
    assert_eq!(single("brlt", "320"), Ok(Bang::BitrateLessThan(320)));
    assert_eq!(single("brgt", "+128"), Ok(Bang::BitrateGreaterThan(128)));
    assert_eq!(single("cwlt", "-1"), Ok(Bang::CoverArtWidthLessThan(-1)));
    assert_eq!(single("cwgt", "007"), Ok(Bang::CoverArtWidthGreaterThan(7)));
    assert_eq!(single("chlt", "2147483647"), Ok(Bang::CoverArtHeightLessThan(i32::MAX)));
    assert_eq!(single("chgt", "-2147483648"), Ok(Bang::CoverArtHeightGreaterThan(i32::MIN)));
    assert_eq!(single("c", "true"), Ok(Bang::HasCoverArt(true)));
    assert_eq!(single("mb", "false"), Ok(Bang::HasMusicbrainzId(false)));
    assert_eq!(single("dup", "true"), Ok(Bang::HasDuplicates(true)));
    assert_eq!(single("ubf", "2020-1-2"), Ok(Bang::UpdatedBefore(s("2020-01-02"))));
    assert_eq!(single("uaf", "1999-12-31"), Ok(Bang::UpdatedAfter(s("1999-12-31"))));
}

#[test]
fn arguments_of_the_wrong_type_are_invalid() {
    assert_eq!(single("brlt", "abc"), Err(Error::ParserInvalidInput(s("abc"))));
    assert_eq!(single("brlt", ""), Err(Error::ParserInvalidInput(s(""))));
    assert_eq!(single("brlt", "2147483648"), Err(Error::ParserInvalidInput(s("2147483648"))));
    assert_eq!(single("brlt", " 1"), Err(Error::ParserInvalidInput(s(" 1"))));
    assert_eq!(single("c", "yes"), Err(Error::ParserInvalidInput(s("yes"))));
    assert_eq!(single("c", "True"), Err(Error::ParserInvalidInput(s("True"))));
    assert_eq!(single("dlt", "soon"), Err(Error::ParserInvalidInput(s("soon"))));
    assert_eq!(single("ubf", "2020-13-01"), Err(Error::ParserInvalidInput(s("2020-13-01"))));
    assert_eq!(
        single("dlt", "99999999999999 years"),
        Err(Error::ParserInvalidInput(s("99999999999999 years")))
    );
}

#[test]
fn unknown_names() {
    assert_eq!(single("zzz", "x"), Err(Error::ParserUnknownBang(s("zzz"))));
    assert_eq!(single("", "x"), Err(Error::ParserUnknownBang(s(""))));
    assert_eq!(as_bang_type("zzz"), BangType::Unknown);
    assert_eq!(as_bang_type("!"), BangType::Grouping);
    assert_eq!(as_bang_type("dup"), BangType::HasDuplicates);
}

#[test]
fn first_token() {
    assert_eq!(parse_token_stream(&vec![]), Err(Error::LexerUnexpectedEndOfInput));
    assert_eq!(parse_token_stream(&vec![Token::MatchAll]), Ok(Bang::All));
    assert_eq!(
        parse_token_stream(&vec![Token::MatchAll, Token::ArgumentEnd]),
        Ok(Bang::All)
    );
    assert_eq!(
        parse_token_stream(&vec![Token::InputEnd]),
        Err(Error::ParserUnexpectedToken(Token::InputEnd))
    );
    assert_eq!(
        parse_token_stream(&vec![Token::Argument(s("a"))]),
        Err(Error::ParserUnexpectedToken(Token::Argument(s("a"))))
    );
}

#[test]
fn incomplete_bangs() {
    assert_eq!(
        parse_token_stream(&vec![Token::BangPrefix('!')]),
        Err(Error::LexerUnexpectedEndOfInput)
    );
    assert_eq!(
        parse_token_stream(&vec![Token::BangPrefix('!'), Token::ArgumentBegin]),
        Err(Error::LexerUnexpectedEndOfInput)
    );
    assert_eq!(
        parse_token_stream(&vec![
            Token::BangPrefix('!'),
            Token::BangIdentifier(s("t")),
            Token::ArgumentBegin,
        ]),
        Err(Error::LexerUnexpectedEndOfInput)
    );
    assert_eq!(
        parse_token_stream(&vec![
            Token::BangPrefix('!'),
            Token::BangIdentifier(s("t")),
            Token::ArgumentBegin,
            Token::ArgumentEnd,
            Token::InputEnd,
        ]),
        Err(Error::LexerUnexpectedEndOfInput)
    );
    assert_eq!(parse_token_stream(&bang("t", "a")), Err(Error::LexerUnexpectedEndOfInput));
}

#[test]
fn what_follows_a_bang() {
    let mut tokens = bang("t", "a");
    tokens.push(Token::ArgumentBegin);
    assert_eq!(
        parse_token_stream(&tokens),
        Err(Error::ParserUnexpectedToken(Token::ArgumentBegin))
    );
    let mut tokens = bang("t", "a");
    tokens.push(Token::LogicalOperator('^'));
    tokens.extend(bang("t", "b"));
    tokens.push(Token::InputEnd);
    assert_eq!(parse_token_stream(&tokens), Err(Error::ParserUnknownBang(s("^"))));
    let mut tokens = bang("t", "a");
    tokens.push(Token::LogicalOperator('&'));
    assert_eq!(parse_token_stream(&tokens), Err(Error::LexerUnexpectedEndOfInput));
    let mut tokens = bang("t", "a");
    tokens.push(Token::LogicalOperator('&'));
    tokens.push(Token::InputEnd);
    assert_eq!(
        parse_token_stream(&tokens),
        Err(Error::ParserUnexpectedToken(Token::InputEnd))
    );
}

#[test]
fn the_first_error_wins() {
    let mut tokens = bang("brlt", "x");
    tokens.push(Token::LogicalOperator('|'));
    tokens.extend(bang("zzz", "y"));
    tokens.push(Token::InputEnd);
    assert_eq!(parse_token_stream(&tokens), Err(Error::ParserInvalidInput(s("x"))));
    let mut tokens = bang("t", "x");
    tokens.push(Token::LogicalOperator('|'));
    tokens.extend(bang("zzz", "y"));
    tokens.push(Token::InputEnd);
    assert_eq!(parse_token_stream(&tokens), Err(Error::ParserUnknownBang(s("zzz"))));
}

#[test]
fn three_in_a_chain() {
    assert_eq!(
        Bang::new("!t{a}&!t{b}|!t{c}"),
        Ok(Bang::LogicalAnd(
            Box::new(Bang::TitleSearch(s("a"))),
            Box::new(Bang::LogicalOr(
                Box::new(Bang::TitleSearch(s("b"))),
                Box::new(Bang::TitleSearch(s("c"))),
            )),
        ))
    );
}

#[test]
fn groups() {
    assert_eq!(
        Bang::new("!!{!t{a}&!t{b}}|!t{c}"),
        Ok(Bang::LogicalOr(
            Box::new(Bang::Grouping(Box::new(Bang::LogicalAnd(
                Box::new(Bang::TitleSearch(s("a"))),
                Box::new(Bang::TitleSearch(s("b"))),
            )))),
            Box::new(Bang::TitleSearch(s("c"))),
        ))
    );
    assert_eq!(
        Bang::new("!!{!!{!c{true}}}"),
        Ok(Bang::Grouping(Box::new(Bang::Grouping(Box::new(Bang::HasCoverArt(true))))))
    );
    assert_eq!(
        Bang::new("!!{!c`}"),
        Ok(Bang::Grouping(Box::new(Bang::HasCoverArt(true))))
    );
    assert_eq!(
        Bang::new("!!{!c`&!mb`}|!dup`"),
        Ok(Bang::LogicalOr(
            Box::new(Bang::Grouping(Box::new(Bang::LogicalAnd(
                Box::new(Bang::HasCoverArt(true)),
                Box::new(Bang::HasMusicbrainzId(true)),
            )))),
            Box::new(Bang::HasDuplicates(true)),
        ))
    );
    assert_eq!(
        Bang::new("!!{!!}{x}"),
        Err(Error::ParserUnexpectedToken(Token::InputEnd))
    );
    assert_eq!(
        Bang::new("!!`"),
        Err(Error::ParserUnexpectedToken(Token::Argument(s("true"))))
    );
}

#[test]
fn taking_a_group() {
    let mut inner = bang("t", "a");
    let mut tokens = vec![Token::ArgumentBegin];
    tokens.extend(inner.clone());
    tokens.push(Token::ArgumentEnd);
    tokens.push(Token::InputEnd);
    inner.push(Token::InputEnd);
    assert_eq!(take_until_braces_balanced(&tokens, 0), Ok((inner, 7)));
    assert_eq!(
        take_until_braces_balanced(&tokens, 3),
        Ok((vec![Token::Argument(s("a")), Token::InputEnd], 6))
    );
    assert_eq!(
        take_until_braces_balanced(&vec![Token::ArgumentBegin, Token::ArgumentBegin, Token::ArgumentEnd], 0),
        Err(Error::LexerUnexpectedEndOfInput)
    );
    assert_eq!(
        take_until_braces_balanced(&vec![Token::ArgumentBegin], 0),
        Err(Error::LexerUnexpectedEndOfInput)
    );
    assert_eq!(
        take_until_braces_balanced(&vec![Token::ArgumentBegin, Token::ArgumentEnd], 0),
        Ok((vec![Token::InputEnd], 2))
    );
}

#[test]
fn group_without_opening_brace() {
    let group = vec![Token::BangPrefix('!'), Token::BangIdentifier(s("!"))];
    assert_eq!(parse_token_stream(&group), Err(Error::LexerUnexpectedEndOfInput));
    let mut followed = group.clone();
    followed.push(Token::Argument(s("x")));
    followed.push(Token::InputEnd);
    assert_eq!(
        parse_token_stream(&followed),
        Err(Error::ParserUnexpectedToken(Token::Argument(s("x"))))
    );
    let mut ended = group.clone();
    ended.push(Token::InputEnd);
    assert_eq!(parse_token_stream(&ended), Err(Error::ParserUnexpectedToken(Token::InputEnd)));
    let mut open = group;
    open.push(Token::ArgumentBegin);
    open.extend(bang("t", "a"));
    open.push(Token::InputEnd);
    assert_eq!(parse_token_stream(&open), Err(Error::LexerUnexpectedEndOfInput));
}

#[test]
fn arguments_by_kind() {
    assert_eq!(parse_bang(BangType::Artist, &s("x")), Ok(Bang::Artist(s("x"))));
    assert_eq!(parse_bang(BangType::HasDuplicates, &s("false")), Ok(Bang::HasDuplicates(false)));
    assert_eq!(parse_bang(BangType::Grouping, &s("x")), Err(Error::ParserInvalidInput(s("x"))));
    assert_eq!(parse_bang(BangType::Unknown, &s("x")), Err(Error::ParserInvalidInput(s("x"))));
}

#[test]
fn file_path_filter() {
    assert_eq!(Bang::from_path("/m/a.flac"), Bang::FilePath(s("/m/a.flac")));
}
