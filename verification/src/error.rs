//! What can go wrong, in one type.

use crate::token::{token_view, LexerMode, Token, TokenView};
use vstd::prelude::*;

verus! {

/// Why the configuration could not be had.
#[derive(Debug, PartialEq, Eq)]
pub enum ConfigErrorType {
    /// The file at this path could not be read or written.
    IOError(String),
    /// The file does not hold a configuration.
    Invalid,
}

/// An error of the library.
#[derive(Debug, PartialEq, Eq)]
pub enum Error {
    /// The file is no music file, or none that is supported.
    UnsupportedFile(String),
    /// There is no file at this path.
    FileNotFound(String),
    /// The file could not be moved to this path.
    UnableToMove(String),
    /// The file could not be processed.
    FileIOError(String),
    /// The directory could not be created.
    UnableToCreateDirectory(String),
    /// The operating system is not supported.
    UnsupportedOS,
    /// The track at this path lacks the tag of this name.
    MissingRequiredTag(String, &'static str),
    /// The lexer met this character where its mode has no use for it.
    LexerUnexpectedCharacter(char, LexerMode),
    /// An escape with nothing after it.
    LexerUnexpectedEscapeCharacter(LexerMode),
    /// The query ended before its bangs and arguments were complete.
    LexerUnexpectedEndOfInput,
    /// The parser met this token where another was due.
    ParserUnexpectedToken(Token),
    /// No bang has this name.
    ParserUnknownBang(String),
    /// The argument is not of the type that its bang takes.
    ParserInvalidInput(String),
    /// The configuration could not be had.
    ConfigError(ConfigErrorType),
}

/// `ConfigErrorType` as a mathematical value.
pub enum ConfigErrorTypeView {
    IOError(Seq<char>),
    Invalid,
}

/// `Error` as a mathematical value.
pub enum ErrorView {
    UnsupportedFile(Seq<char>),
    FileNotFound(Seq<char>),
    UnableToMove(Seq<char>),
    FileIOError(Seq<char>),
    UnableToCreateDirectory(Seq<char>),
    UnsupportedOS,
    MissingRequiredTag(Seq<char>, Seq<char>),
    LexerUnexpectedCharacter(char, LexerMode),
    LexerUnexpectedEscapeCharacter(LexerMode),
    LexerUnexpectedEndOfInput,
    ParserUnexpectedToken(TokenView),
    ParserUnknownBang(Seq<char>),
    ParserInvalidInput(Seq<char>),
    ConfigError(ConfigErrorTypeView),
}

impl View for ConfigErrorType {
    type V = ConfigErrorTypeView;

    open spec fn view(&self) -> ConfigErrorTypeView {
        match self {
            ConfigErrorType::IOError(path) => ConfigErrorTypeView::IOError(path@),
            ConfigErrorType::Invalid => ConfigErrorTypeView::Invalid,
        }
    }
}

impl View for Error {
    type V = ErrorView;

    open spec fn view(&self) -> ErrorView {
        match self {
            Error::UnsupportedFile(path) => ErrorView::UnsupportedFile(path@),
            Error::FileNotFound(path) => ErrorView::FileNotFound(path@),
            Error::UnableToMove(path) => ErrorView::UnableToMove(path@),
            Error::FileIOError(path) => ErrorView::FileIOError(path@),
            Error::UnableToCreateDirectory(path) => ErrorView::UnableToCreateDirectory(path@),
            Error::UnsupportedOS => ErrorView::UnsupportedOS,
            Error::MissingRequiredTag(path, tag) => ErrorView::MissingRequiredTag(path@, tag@),
            Error::LexerUnexpectedCharacter(c, mode) => ErrorView::LexerUnexpectedCharacter(
                *c,
                *mode,
            ),
            Error::LexerUnexpectedEscapeCharacter(mode) => ErrorView::LexerUnexpectedEscapeCharacter(
                *mode,
            ),
            Error::LexerUnexpectedEndOfInput => ErrorView::LexerUnexpectedEndOfInput,
            Error::ParserUnexpectedToken(t) => ErrorView::ParserUnexpectedToken(token_view(*t)),
            Error::ParserUnknownBang(name) => ErrorView::ParserUnknownBang(name@),
            Error::ParserInvalidInput(text) => ErrorView::ParserInvalidInput(text@),
            Error::ConfigError(e) => ErrorView::ConfigError(e@),
        }
    }
}

} // verus!
