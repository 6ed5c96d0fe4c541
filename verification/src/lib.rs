//! A query language for a music library: short filter expressions ("bangs")
//! are lexed, parsed into a tree and compiled to a parameterized SQL
//! predicate.

pub mod bang;
pub mod config;
pub mod dates;
pub mod error;
pub mod laws;
pub mod lexer;
pub mod names;
pub mod numbers;
pub mod parser;
pub mod paths;
pub mod sql;
pub mod text;
pub mod ticks;
pub mod token;
pub mod track;
pub mod watcher;

pub use crate::bang::Bang;
pub use crate::config::Config;
pub use crate::error::{ConfigErrorType, Error};
pub use crate::lexer::lex_query;
pub use crate::parser::{parse_token_stream, take_until_braces_balanced};
pub use crate::sql::to_query_string;
pub use crate::token::{LexerMode, Token};
pub use crate::ticks::{ms_to_ticks, ticks_to_ms, TickRepr};
pub use crate::track::{Track, TrackFileType};
pub use crate::watcher::WatchStatus;
