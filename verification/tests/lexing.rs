use seiri::error::Error;
use seiri::lexer::{ensure_arguments_balanced, is_closed_by_brace, lex_query};
use seiri::token::{LexerMode, Token};

fn s(text: &str) -> String {
    text.to_owned()
}

fn bang(name: &str, argument: &str) -> Vec<Token> {
    vec![
        Token::BangPrefix('!'),
        Token::BangIdentifier(s(name)),
        Token::ArgumentBegin,
        Token::Argument(s(argument)),
        Token::ArgumentEnd,
    ]
}

fn closed(mut tokens: Vec<Token>) -> Result<Vec<Token>, Error> {
    tokens.push(Token::InputEnd);
    Ok(tokens)
}

#[test]
fn backtick_stands_for_true() {
    assert_eq!(lex_query("!c`"), closed(bang("c", "true")));
}

#[test]
fn backtick_is_a_whole_argument() {
    let mut tokens = bang("c", "true");
    tokens.push(Token::LogicalOperator('&'));
    tokens.extend(bang("mb", "true"));
    let lexed = lex_query("!c`&!mb`");
    assert_eq!(lexed, closed(tokens));
    assert_eq!(lexed.as_ref().map(|tokens| tokens.len()), Ok(12));
    assert_eq!(lexed, lex_query("!c{true}&!mb{true}"));
    assert_eq!(lex_query("!c` | !t{a}"), lex_query("!c{true} | !t{a}"));
    assert_eq!(lex_query("!t{a}|!c`"), lex_query("!t{a}|!c{true}"));
    assert_eq!(
        lex_query("!c`x"),
        Err(Error::LexerUnexpectedCharacter('x', LexerMode::ArgumentEdge))
    );
}

#[test]
fn streams_that_break_off_are_refused() {
    assert_eq!(lex_query("!c`|"), Err(Error::LexerUnexpectedEndOfInput));
    assert_eq!(lex_query("!c`& "), Err(Error::LexerUnexpectedEndOfInput));
    assert_eq!(lex_query("!!{!c`}|"), Err(Error::LexerUnexpectedEndOfInput));
    assert_eq!(lex_query("!a`}&!b{x"), Err(Error::LexerUnexpectedEndOfInput));
    assert_eq!(lex_query("!c`}"), Err(Error::LexerUnexpectedEndOfInput));
}

#[test]
fn accepted_streams_are_well_formed() {
    let queries = [
        "",
        "plain text",
        "!t{a}",
        "!c`",
        "!c`&!mb`",
        "!!{!t{a}|!t{b}}",
        "!!{!c`}",
        "!t{a} |  !t{b}",
        "!t{a\\{b}",
        "!q{}",
        "! not a bang",
        "!!{!!}{x}",
    ];
    for query in queries {
        let tokens = lex_query(query).unwrap();
        let n = tokens.len();
        assert_eq!(tokens[n - 1], Token::InputEnd);
        assert_eq!(tokens.iter().filter(|t| **t == Token::InputEnd).count(), 1);
        assert!(!tokens.iter().any(|t| matches!(t, Token::PreprocessTokenExpand(_))));
        if tokens[0] == Token::MatchAll {
            assert_eq!(n, 2);
        } else {
            assert!(matches!(tokens[0], Token::BangPrefix(_)));
            assert!(matches!(tokens[1], Token::BangIdentifier(_)));
            assert_eq!(tokens[2], Token::ArgumentBegin);
            assert_eq!(tokens[n - 2], Token::ArgumentEnd);
            assert!(ensure_arguments_balanced(&tokens));
            assert!(is_closed_by_brace(&tokens[..n - 1].to_vec()));
            assert!(!is_closed_by_brace(&tokens));
        }
    }
}

#[test]
fn two_bangs_with_operator() {
    let mut tokens = bang("t", "a");
    tokens.push(Token::LogicalOperator('&'));
    tokens.extend(bang("ar", "b c"));
    assert_eq!(lex_query("!t{a}&!ar{b c}"), closed(tokens));
}

#[test]
fn spaces_around_operator() {
    let mut tokens = bang("t", "a");
    tokens.push(Token::LogicalOperator('|'));
    tokens.extend(bang("t", "b"));
    assert_eq!(lex_query("!t{a} |  !t{b}"), closed(tokens.clone()));
    assert_eq!(lex_query("!t{a}\t|\n!t{b} "), closed(bang("t", "a}\t|\n!t{b")));
    assert_eq!(lex_query("!t{a}\t|!t{b} "), closed(tokens));
}

#[test]
fn brace_before_text_is_text() {
    assert_eq!(lex_query("!t{a}b}"), closed(bang("t", "a}b")));
    assert_eq!(lex_query("!t{a}|b}"), closed(bang("t", "a}|b")));
    assert_eq!(lex_query("!t{a}|!b}"), closed(bang("t", "a}|!b")));
    assert_eq!(lex_query("!t{a}|!{b}"), closed(bang("t", "a}|!{b")));
    assert_eq!(lex_query("!t{{a}}"), Err(Error::LexerUnexpectedEndOfInput));
    assert_eq!(lex_query("!t{{a\\}}"), closed(bang("t", "{a}")));
}

#[test]
fn group_tokens() {
    let mut tokens = vec![
        Token::BangPrefix('!'),
        Token::BangIdentifier(s("!")),
        Token::ArgumentBegin,
    ];
    tokens.extend(bang("t", "a"));
    tokens.push(Token::LogicalOperator('|'));
    tokens.extend(bang("t", "b"));
    tokens.push(Token::ArgumentEnd);
    assert_eq!(lex_query("!!{!t{a}|!t{b}}"), closed(tokens.clone()));
    assert_eq!(lex_query("!!{ !t{a}|!t{b} } "), closed(tokens));
}

#[test]
fn empty_argument() {
    assert_eq!(lex_query("!t{}"), closed(bang("t", "")));
}

#[test]
fn escapes() {
    assert_eq!(lex_query("!t{a\\\\b}"), closed(bang("t", "a\\b")));
    assert_eq!(lex_query("!t{\\!\\}}"), closed(bang("t", "!}")));
    assert_eq!(
        lex_query("!t{a}|!t{b\\"),
        Err(Error::LexerUnexpectedEscapeCharacter(LexerMode::Argument))
    );
}

#[test]
fn unexpected_characters() {
    assert_eq!(
        lex_query("!!{x}"),
        Err(Error::LexerUnexpectedCharacter('x', LexerMode::Bang))
    );
    assert_eq!(
        lex_query("!a!{x}"),
        Err(Error::LexerUnexpectedCharacter('!', LexerMode::ArgumentEdge))
    );
    assert_eq!(
        lex_query("!!a{x}"),
        Err(Error::LexerUnexpectedCharacter('a', LexerMode::ArgumentEdge))
    );
    assert_eq!(
        lex_query("!!{!{x}}"),
        Err(Error::LexerUnexpectedCharacter('{', LexerMode::BangIdentifier))
    );
}

#[test]
fn unbalanced_streams_are_refused() {
    assert_eq!(lex_query("!t{a}}"), Err(Error::LexerUnexpectedEndOfInput));
    assert_eq!(lex_query("!t{"), Err(Error::LexerUnexpectedEndOfInput));
    assert_eq!(lex_query("!!{!t{a}"), Err(Error::LexerUnexpectedEndOfInput));
}

#[test]
fn non_ascii_names_and_text() {
    assert_eq!(lex_query("!é{ü}"), closed(bang("é", "ü")));
    assert_eq!(lex_query("日本語"), closed(bang("q", "日本語")));
}

#[test]
fn balance_counts_tokens() {
    assert!(ensure_arguments_balanced(&bang("t", "a")));
    assert!(ensure_arguments_balanced(&vec![]));
    assert!(ensure_arguments_balanced(&vec![Token::MatchAll, Token::InputEnd]));
    assert!(!ensure_arguments_balanced(&vec![Token::ArgumentBegin, Token::ArgumentEnd]));
    assert!(!ensure_arguments_balanced(&vec![
        Token::BangPrefix('!'),
        Token::BangIdentifier(s("t")),
        Token::ArgumentBegin,
    ]));
    assert!(ensure_arguments_balanced(&vec![
        Token::ArgumentEnd,
        Token::BangIdentifier(s("t")),
        Token::ArgumentBegin,
        Token::BangPrefix('?'),
    ]));
}

#[test]
fn tokens_clone_to_equal_tokens() {
    let token = Token::PreprocessTokenExpand(bang("t", "a"));
    assert_eq!(token.clone(), token);
    assert_ne!(token.clone(), Token::PreprocessTokenExpand(bang("t", "b")));
}
