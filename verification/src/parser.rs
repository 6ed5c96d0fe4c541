//! The parser: from the tokens of a query to its tree.
//!
//! A query is a chain of bangs joined by operators. The chain is read from
//! left to right and built from the right: in `a|b&c` the operator `|` joins
//! `a` to all that follows it.

use crate::bang::{parsed_view, Bang, BangView};
use crate::dates::{normalize_date, normalized_date};
use crate::error::{Error, ErrorView};
use crate::numbers::{boolean, decimal_i32, parse_bool, parse_i32};
use crate::text::{chars_of, spells};
use crate::ticks::{parse_ticks, spelled_ticks};
use crate::token::{lemma_tokens_view_push, tokens_view, Token, TokenView};
use crate::track::{lowercase, TrackFileType};
use vstd::prelude::*;

verus! {

/// The kinds of bangs, one for each name.
#[derive(Debug, Clone, Copy, PartialEq, Eq, Structural)]
pub enum BangType {
    TitleSearch,
    TitleSearchExact,
    FullTextSearch,
    FullTextSearchExact,
    AlbumTitle,
    AlbumTitleExact,
    AlbumArtists,
    AlbumArtistsExact,
    Artist,
    ArtistExact,
    Source,
    Format,
    BitrateLessThan,
    BitrateGreaterThan,
    DurationLessThan,
    DurationGreaterThan,
    CoverArtWidthLessThan,
    CoverArtWidthGreaterThan,
    CoverArtHeightLessThan,
    CoverArtHeightGreaterThan,
    HasCoverArt,
    HasMusicbrainzId,
    HasDuplicates,
    UpdatedBefore,
    UpdatedAfter,
    /// A group of bangs in braces.
    Grouping,
    /// No kind: the name is not that of a bang.
    Unknown,
}

/// The kind of bang that `name` stands for.
pub open spec fn bang_type(name: Seq<char>) -> BangType {
    if name == "t"@ {
        BangType::TitleSearch
    } else if name == "T"@ {
        BangType::TitleSearchExact
    } else if name == "q"@ {
        BangType::FullTextSearch
    } else if name == "Q"@ {
        BangType::FullTextSearchExact
    } else if name == "al"@ {
        BangType::AlbumTitle
    } else if name == "AL"@ {
        BangType::AlbumTitleExact
    } else if name == "alar"@ {
        BangType::AlbumArtists
    } else if name == "ALAR"@ {
        BangType::AlbumArtistsExact
    } else if name == "ar"@ {
        BangType::Artist
    } else if name == "AR"@ {
        BangType::ArtistExact
    } else if name == "s"@ {
        BangType::Source
    } else if name == "f"@ {
        BangType::Format
    } else if name == "dlt"@ {
        BangType::DurationLessThan
    } else if name == "dgt"@ {
        BangType::DurationGreaterThan
    } else if name == "brlt"@ {
        BangType::BitrateLessThan
    } else if name == "brgt"@ {
        BangType::BitrateGreaterThan
    } else if name == "cwlt"@ {
        BangType::CoverArtWidthLessThan
    } else if name == "cwgt"@ {
        BangType::CoverArtWidthGreaterThan
    } else if name == "chlt"@ {
        BangType::CoverArtHeightLessThan
    } else if name == "chgt"@ {
        BangType::CoverArtHeightGreaterThan
    } else if name == "c"@ {
        BangType::HasCoverArt
    } else if name == "mb"@ {
        BangType::HasMusicbrainzId
    } else if name == "dup"@ {
        BangType::HasDuplicates
    } else if name == "ubf"@ {
        BangType::UpdatedBefore
    } else if name == "uaf"@ {
        BangType::UpdatedAfter
    } else if name == "!"@ {
        BangType::Grouping
    } else {
        BangType::Unknown
    }
}

/// The bang of kind `kind` with the argument `text`: the text itself, or the
/// number, truth value, file type, count of ticks or date that it spells. An
/// argument that does not spell what the kind takes is an invalid input.
pub open spec fn leaf(kind: BangType, text: Seq<char>) -> Result<BangView, ErrorView>
    recommends
        kind != BangType::Grouping,
        kind != BangType::Unknown,
{
    let invalid = Err::<BangView, ErrorView>(ErrorView::ParserInvalidInput(text));
    match kind {
        BangType::TitleSearch => Ok(BangView::TitleSearch(text)),
        BangType::TitleSearchExact => Ok(BangView::TitleSearchExact(text)),
        BangType::FullTextSearch => Ok(BangView::FullTextSearch(text)),
        BangType::FullTextSearchExact => Ok(BangView::FullTextSearchExact(text)),
        BangType::AlbumTitle => Ok(BangView::AlbumTitle(text)),
        BangType::AlbumTitleExact => Ok(BangView::AlbumTitleExact(text)),
        BangType::AlbumArtists => Ok(BangView::AlbumArtists(text)),
        BangType::AlbumArtistsExact => Ok(BangView::AlbumArtistsExact(text)),
        BangType::Artist => Ok(BangView::Artist(text)),
        BangType::ArtistExact => Ok(BangView::ArtistExact(text)),
        BangType::Source => Ok(BangView::Source(text)),
        BangType::Format => Ok(BangView::Format(TrackFileType::named(lowercase(text)))),
        BangType::DurationLessThan => match spelled_ticks(text) {
            Some(ticks) => Ok(BangView::DurationLessThan(ticks)),
            None => invalid,
        },
        BangType::DurationGreaterThan => match spelled_ticks(text) {
            Some(ticks) => Ok(BangView::DurationGreaterThan(ticks)),
            None => invalid,
        },
        BangType::BitrateLessThan => match decimal_i32(text) {
            Some(n) => Ok(BangView::BitrateLessThan(n)),
            None => invalid,
        },
        BangType::BitrateGreaterThan => match decimal_i32(text) {
            Some(n) => Ok(BangView::BitrateGreaterThan(n)),
            None => invalid,
        },
        BangType::CoverArtWidthLessThan => match decimal_i32(text) {
            Some(n) => Ok(BangView::CoverArtWidthLessThan(n)),
            None => invalid,
        },
        BangType::CoverArtWidthGreaterThan => match decimal_i32(text) {
            Some(n) => Ok(BangView::CoverArtWidthGreaterThan(n)),
            None => invalid,
        },
        BangType::CoverArtHeightLessThan => match decimal_i32(text) {
            Some(n) => Ok(BangView::CoverArtHeightLessThan(n)),
            None => invalid,
        },
        BangType::CoverArtHeightGreaterThan => match decimal_i32(text) {
            Some(n) => Ok(BangView::CoverArtHeightGreaterThan(n)),
            None => invalid,
        },
        BangType::HasCoverArt => match boolean(text) {
            Some(b) => Ok(BangView::HasCoverArt(b)),
            None => invalid,
        },
        BangType::HasMusicbrainzId => match boolean(text) {
            Some(b) => Ok(BangView::HasMusicbrainzId(b)),
            None => invalid,
        },
        BangType::HasDuplicates => match boolean(text) {
            Some(b) => Ok(BangView::HasDuplicates(b)),
            None => invalid,
        },
        BangType::UpdatedBefore => match normalized_date(text) {
            Some(date) => Ok(BangView::UpdatedBefore(date)),
            None => invalid,
        },
        BangType::UpdatedAfter => match normalized_date(text) {
            Some(date) => Ok(BangView::UpdatedAfter(date)),
            None => invalid,
        },
        BangType::Grouping => invalid,
        BangType::Unknown => invalid,
    }
}

/// The index of the brace that closes a group, looked for from index `pos`
/// with `depth` braces open: each opening brace on the way adds one to the
/// depth, each closing one takes one off, and the brace that brings the depth
/// to zero is the one. `None` if the tokens end before it.
pub open spec fn group_end(ts: Seq<TokenView>, pos: int, depth: int) -> Option<int>
    decreases ts.len() - pos,
{
    if !(0 <= pos < ts.len()) {
        None
    } else {
        let d = match ts[pos] {
            TokenView::ArgumentBegin => depth + 1,
            TokenView::ArgumentEnd => depth - 1,
            _ => depth,
        };
        if d == 0 {
            Some(pos)
        } else {
            group_end(ts, pos + 1, d)
        }
    }
}

/// The tokens of the group whose opening brace is at index `at`, closed by an
/// `InputEnd` of their own, and the index behind the group's closing brace.
pub open spec fn take_group(ts: Seq<TokenView>, at: int) -> Result<(Seq<TokenView>, int), ErrorView> {
    if !(0 <= at < ts.len()) {
        Err(ErrorView::LexerUnexpectedEndOfInput)
    } else if !(ts[at] is ArgumentBegin) {
        Err(ErrorView::ParserUnexpectedToken(ts[at]))
    } else {
        match group_end(ts, at + 1, 1) {
            None => Err(ErrorView::LexerUnexpectedEndOfInput),
            Some(end) => Ok((ts.subrange(at + 1, end).push(TokenView::InputEnd), end + 1)),
        }
    }
}

/// What follows a bang `lhs`, at index `after`: the end of the input, which
/// leaves `lhs` as it is, or an operator, which joins `lhs` to `rest`, the tree
/// of all that follows the operator.
pub open spec fn join(
    ts: Seq<TokenView>,
    after: int,
    lhs: BangView,
    rest: Result<BangView, ErrorView>,
) -> Result<BangView, ErrorView> {
    if !(0 <= after < ts.len()) {
        Err(ErrorView::LexerUnexpectedEndOfInput)
    } else {
        match ts[after] {
            TokenView::InputEnd => Ok(lhs),
            TokenView::LogicalOperator(op) => if op == '|' {
                match rest {
                    Ok(rhs) => Ok(BangView::LogicalOr(Box::new(lhs), Box::new(rhs))),
                    Err(e) => Err(e),
                }
            } else if op == '&' {
                match rest {
                    Ok(rhs) => Ok(BangView::LogicalAnd(Box::new(lhs), Box::new(rhs))),
                    Err(e) => Err(e),
                }
            } else {
                Err(ErrorView::ParserUnknownBang(seq![op]))
            },
            t => Err(ErrorView::ParserUnexpectedToken(t)),
        }
    }
}

/// The tree of the tokens from index `pos` on, or the first error met.
///
/// A bang is a prefix, a name and an argument. The argument of a group is the
/// tokens up to the brace that closes it, parsed on their own. The argument of
/// every other bang is the second of the three tokens behind the name.
pub open spec fn parse_at(ts: Seq<TokenView>, pos: int) -> Result<BangView, ErrorView>
    decreases ts.len() - pos,
{
    if !(0 <= pos < ts.len()) {
        Err(ErrorView::LexerUnexpectedEndOfInput)
    } else {
        match ts[pos] {
            TokenView::MatchAll => Ok(BangView::All),
            TokenView::BangPrefix(_) => {
                if pos + 1 < ts.len() && ts[pos + 1] is BangIdentifier {
                    let name = ts[pos + 1]->BangIdentifier_0;
                    let kind = bang_type(name);
                    if kind == BangType::Unknown {
                        Err(ErrorView::ParserUnknownBang(name))
                    } else if kind == BangType::Grouping {
                        match take_group(ts, pos + 2) {
                            Err(e) => Err(e),
                            Ok((group, after)) => {
                                proof {
                                    lemma_group_end_bounds(ts, pos + 3, 1);
                                }
                                match parse_at(group, 0) {
                                    Err(e) => Err(e),
                                    Ok(inner) => join(
                                        ts,
                                        after,
                                        BangView::Grouping(Box::new(inner)),
                                        if after < ts.len() {
                                            parse_at(ts, after + 1)
                                        } else {
                                            Err(ErrorView::LexerUnexpectedEndOfInput)
                                        },
                                    ),
                                }
                            },
                        }
                    } else if pos + 3 < ts.len() && ts[pos + 3] is Argument {
                        match leaf(kind, ts[pos + 3]->Argument_0) {
                            Err(e) => Err(e),
                            Ok(lhs) => join(
                                ts,
                                pos + 5,
                                lhs,
                                if pos + 5 < ts.len() {
                                    parse_at(ts, pos + 6)
                                } else {
                                    Err(ErrorView::LexerUnexpectedEndOfInput)
                                },
                            ),
                        }
                    } else {
                        Err(ErrorView::LexerUnexpectedEndOfInput)
                    }
                } else {
                    Err(ErrorView::LexerUnexpectedEndOfInput)
                }
            },
            t => Err(ErrorView::ParserUnexpectedToken(t)),
        }
    }
}

/// The tree of a token stream, or the first error met.
pub open spec fn parse(ts: Seq<TokenView>) -> Result<BangView, ErrorView> {
    parse_at(ts, 0)
}

/// The brace that closes a group lies at or behind the index from which it is
/// looked for, and within the tokens.
pub proof fn lemma_group_end_bounds(ts: Seq<TokenView>, pos: int, depth: int)
    ensures
        group_end(ts, pos, depth) matches Some(end) ==> pos <= end < ts.len(),
    decreases ts.len() - pos,
{
    if 0 <= pos < ts.len() {
        let d = match ts[pos] {
            TokenView::ArgumentBegin => depth + 1,
            TokenView::ArgumentEnd => depth - 1,
            _ => depth,
        };
        if d != 0 {
            lemma_group_end_bounds(ts, pos + 1, d);
        }
    }
}

/// The kind of bang that `name` stands for.
pub fn as_bang_type(name: &str) -> (kind: BangType)
    ensures
        kind == bang_type(name@),
{
    let chars = chars_of(name);
    if spells(&chars, "t") {
        BangType::TitleSearch
    } else if spells(&chars, "T") {
        BangType::TitleSearchExact
    } else if spells(&chars, "q") {
        BangType::FullTextSearch
    } else if spells(&chars, "Q") {
        BangType::FullTextSearchExact
    } else if spells(&chars, "al") {
        BangType::AlbumTitle
    } else if spells(&chars, "AL") {
        BangType::AlbumTitleExact
    } else if spells(&chars, "alar") {
        BangType::AlbumArtists
    } else if spells(&chars, "ALAR") {
        BangType::AlbumArtistsExact
    } else if spells(&chars, "ar") {
        BangType::Artist
    } else if spells(&chars, "AR") {
        BangType::ArtistExact
    } else if spells(&chars, "s") {
        BangType::Source
    } else if spells(&chars, "f") {
        BangType::Format
    } else if spells(&chars, "dlt") {
        BangType::DurationLessThan
    } else if spells(&chars, "dgt") {
        BangType::DurationGreaterThan
    } else if spells(&chars, "brlt") {
        BangType::BitrateLessThan
    } else if spells(&chars, "brgt") {
        BangType::BitrateGreaterThan
    } else if spells(&chars, "cwlt") {
        BangType::CoverArtWidthLessThan
    } else if spells(&chars, "cwgt") {
        BangType::CoverArtWidthGreaterThan
    } else if spells(&chars, "chlt") {
        BangType::CoverArtHeightLessThan
    } else if spells(&chars, "chgt") {
        BangType::CoverArtHeightGreaterThan
    } else if spells(&chars, "c") {
        BangType::HasCoverArt
    } else if spells(&chars, "mb") {
        BangType::HasMusicbrainzId
    } else if spells(&chars, "dup") {
        BangType::HasDuplicates
    } else if spells(&chars, "ubf") {
        BangType::UpdatedBefore
    } else if spells(&chars, "uaf") {
        BangType::UpdatedAfter
    } else if spells(&chars, "!") {
        BangType::Grouping
    } else {
        BangType::Unknown
    }
}

/// The bang of kind `kind` with the argument `text`.
pub fn parse_bang(kind: BangType, text: &String) -> (r: Result<Bang, Error>)
    ensures
        parsed_view(r) == leaf(kind, text@),
{
    match kind {
        BangType::TitleSearch => Ok(Bang::TitleSearch(text.clone())),
        BangType::TitleSearchExact => Ok(Bang::TitleSearchExact(text.clone())),
        BangType::FullTextSearch => Ok(Bang::FullTextSearch(text.clone())),
        BangType::FullTextSearchExact => Ok(Bang::FullTextSearchExact(text.clone())),
        BangType::AlbumTitle => Ok(Bang::AlbumTitle(text.clone())),
        BangType::AlbumTitleExact => Ok(Bang::AlbumTitleExact(text.clone())),
        BangType::AlbumArtists => Ok(Bang::AlbumArtists(text.clone())),
        BangType::AlbumArtistsExact => Ok(Bang::AlbumArtistsExact(text.clone())),
        BangType::Artist => Ok(Bang::Artist(text.clone())),
        BangType::ArtistExact => Ok(Bang::ArtistExact(text.clone())),
        BangType::Source => Ok(Bang::Source(text.clone())),
        BangType::Format => Ok(Bang::Format(TrackFileType::from_name(text.as_str()))),
        BangType::DurationLessThan => match parse_ticks(text.as_str()) {
            Some(ticks) => Ok(Bang::DurationLessThan(ticks)),
            None => Err(Error::ParserInvalidInput(text.clone())),
        },
        BangType::DurationGreaterThan => match parse_ticks(text.as_str()) {
            Some(ticks) => Ok(Bang::DurationGreaterThan(ticks)),
            None => Err(Error::ParserInvalidInput(text.clone())),
        },
        BangType::BitrateLessThan => match parse_i32(text.as_str()) {
            Some(n) => Ok(Bang::BitrateLessThan(n)),
            None => Err(Error::ParserInvalidInput(text.clone())),
        },
        BangType::BitrateGreaterThan => match parse_i32(text.as_str()) {
            Some(n) => Ok(Bang::BitrateGreaterThan(n)),
            None => Err(Error::ParserInvalidInput(text.clone())),
        },
        BangType::CoverArtWidthLessThan => match parse_i32(text.as_str()) {
            Some(n) => Ok(Bang::CoverArtWidthLessThan(n)),
            None => Err(Error::ParserInvalidInput(text.clone())),
        },
        BangType::CoverArtWidthGreaterThan => match parse_i32(text.as_str()) {
            Some(n) => Ok(Bang::CoverArtWidthGreaterThan(n)),
            None => Err(Error::ParserInvalidInput(text.clone())),
        },
        BangType::CoverArtHeightLessThan => match parse_i32(text.as_str()) {
            Some(n) => Ok(Bang::CoverArtHeightLessThan(n)),
            None => Err(Error::ParserInvalidInput(text.clone())),
        },
        BangType::CoverArtHeightGreaterThan => match parse_i32(text.as_str()) {
            Some(n) => Ok(Bang::CoverArtHeightGreaterThan(n)),
            None => Err(Error::ParserInvalidInput(text.clone())),
        },
        BangType::HasCoverArt => match parse_bool(text.as_str()) {
            Some(b) => Ok(Bang::HasCoverArt(b)),
            None => Err(Error::ParserInvalidInput(text.clone())),
        },
        BangType::HasMusicbrainzId => match parse_bool(text.as_str()) {
            Some(b) => Ok(Bang::HasMusicbrainzId(b)),
            None => Err(Error::ParserInvalidInput(text.clone())),
        },
        BangType::HasDuplicates => match parse_bool(text.as_str()) {
            Some(b) => Ok(Bang::HasDuplicates(b)),
            None => Err(Error::ParserInvalidInput(text.clone())),
        },
        BangType::UpdatedBefore => match normalize_date(text.as_str()) {
            Some(date) => Ok(Bang::UpdatedBefore(date)),
            None => Err(Error::ParserInvalidInput(text.clone())),
        },
        BangType::UpdatedAfter => match normalize_date(text.as_str()) {
            Some(date) => Ok(Bang::UpdatedAfter(date)),
            None => Err(Error::ParserInvalidInput(text.clone())),
        },
        BangType::Grouping => Err(Error::ParserInvalidInput(text.clone())),
        BangType::Unknown => Err(Error::ParserInvalidInput(text.clone())),
    }
}

/// The view of a group and the index behind it, or of the error in their place.
pub open spec fn group_view(r: Result<(Vec<Token>, usize), Error>) -> Result<
    (Seq<TokenView>, int),
    ErrorView,
> {
    match r {
        Ok((group, after)) => Ok((tokens_view(group@), after as int)),
        Err(e) => Err(e@),
    }
}

/// Takes the tokens of the group whose opening brace is at index `at`: all up
/// to the brace that closes it, and an `InputEnd` behind them. Also gives the
/// index behind the closing brace. A group that is never closed is an
/// unexpected end of the input.
pub fn take_until_braces_balanced(tokens: &Vec<Token>, at: usize) -> (r: Result<
    (Vec<Token>, usize),
    Error,
>)
    requires
        at < tokens.len(),
        tokens[at as int]@ is ArgumentBegin,
    ensures
        group_view(r) == take_group(tokens_view(tokens@), at as int),
        r is Ok <==> group_end(tokens_view(tokens@), at + 1, 1) is Some,
        r matches Err(e) ==> e == Error::LexerUnexpectedEndOfInput,
        r matches Ok((group, after)) ==> at + 1 < after <= tokens.len() && group.len() + 1 + at
            == after,
{
    let ghost ts = tokens_view(tokens@);
    let mut group: Vec<Token> = Vec::new();
    let mut depth: usize = 1;
    let mut i: usize = at + 1;
    assert(tokens_view(group@) =~= ts.subrange(at + 1, i as int));
    while i < tokens.len()
        invariant
            at + 1 <= i <= tokens.len(),
            ts == tokens_view(tokens@),
            ts[at as int] is ArgumentBegin,
            1 <= depth <= i - at,
            group.len() == i - (at + 1),
            tokens_view(group@) == ts.subrange(at + 1, i as int),
            group_end(ts, i as int, depth as int) == group_end(ts, at + 1, 1),
        decreases tokens.len() - i,
    {
        match &tokens[i] {
            Token::ArgumentBegin => {
                depth += 1;
            },
            Token::ArgumentEnd => {
                depth -= 1;
            },
            _ => {},
        }
        if depth == 0 {
            proof {
                lemma_tokens_view_push(group@, Token::InputEnd);
            }
            group.push(Token::InputEnd);
            return Ok((group, i + 1));
        }
        let t = tokens[i].clone();
        proof {
            lemma_tokens_view_push(group@, t);
            assert(ts.subrange(at + 1, i + 1) =~= ts.subrange(at + 1, i as int).push(t@));
        }
        group.push(t);
        i += 1;
    }
    Err(Error::LexerUnexpectedEndOfInput)
}

/// Joins the bang `lhs` to what follows it at index `after`.
fn parse_rest(tokens: &Vec<Token>, after: usize, lhs: Bang, Ghost(pos): Ghost<int>) -> (r: Result<
    Bang,
    Error,
>)
    requires
        0 <= pos < after,
        pos < tokens.len(),
    ensures
        parsed_view(r) == join(
            tokens_view(tokens@),
            after as int,
            lhs@,
            if after < tokens.len() {
                parse_at(tokens_view(tokens@), after + 1)
            } else {
                Err(ErrorView::LexerUnexpectedEndOfInput)
            },
        ),
    decreases tokens.len() - pos, 0int,
{
    if after >= tokens.len() {
        return Err(Error::LexerUnexpectedEndOfInput);
    }
    match &tokens[after] {
        Token::InputEnd => Ok(lhs),
        Token::LogicalOperator(op) => {
            if *op == '|' {
                match parse_from(tokens, after + 1) {
                    Ok(rhs) => Ok(Bang::LogicalOr(Box::new(lhs), Box::new(rhs))),
                    Err(e) => Err(e),
                }
            } else if *op == '&' {
                match parse_from(tokens, after + 1) {
                    Ok(rhs) => Ok(Bang::LogicalAnd(Box::new(lhs), Box::new(rhs))),
                    Err(e) => Err(e),
                }
            } else {
                let mut name = String::new();
                name.push(*op);
                assert(name@ =~= seq![*op]);
                Err(Error::ParserUnknownBang(name))
            }
        },
        other => Err(Error::ParserUnexpectedToken(other.clone())),
    }
}

/// Parses the tokens from index `pos` on.
fn parse_from(tokens: &Vec<Token>, pos: usize) -> (r: Result<Bang, Error>)
    ensures
        parsed_view(r) == parse_at(tokens_view(tokens@), pos as int),
    decreases tokens.len() - pos, 1int,
{
    if pos >= tokens.len() {
        return Err(Error::LexerUnexpectedEndOfInput);
    }
    match &tokens[pos] {
        Token::MatchAll => {
            return Ok(Bang::All);
        },
        Token::BangPrefix(_) => {},
        other => {
            return Err(Error::ParserUnexpectedToken(other.clone()));
        },
    }
    if pos + 1 >= tokens.len() {
        return Err(Error::LexerUnexpectedEndOfInput);
    }
    let name = match &tokens[pos + 1] {
        Token::BangIdentifier(name) => name,
        _ => {
            return Err(Error::LexerUnexpectedEndOfInput);
        },
    };
    let kind = as_bang_type(name.as_str());
    match kind {
        BangType::Unknown => Err(Error::ParserUnknownBang(name.clone())),
        BangType::Grouping => {
            if tokens.len() - pos <= 2 {
                return Err(Error::LexerUnexpectedEndOfInput);
            }
            match &tokens[pos + 2] {
                Token::ArgumentBegin => {},
                other => {
                    return Err(Error::ParserUnexpectedToken(other.clone()));
                },
            }
            match take_until_braces_balanced(tokens, pos + 2) {
                Err(e) => Err(e),
                Ok((group, after)) => {
                    match parse_from(&group, 0) {
                        Err(e) => Err(e),
                        Ok(inner) => parse_rest(
                            tokens,
                            after,
                            Bang::Grouping(Box::new(inner)),
                            Ghost(pos as int),
                        ),
                    }
                },
            }
        },
        _ => {
            if tokens.len() - pos <= 3 {
                return Err(Error::LexerUnexpectedEndOfInput);
            }
            let text = match &tokens[pos + 3] {
                Token::Argument(text) => text,
                _ => {
                    return Err(Error::LexerUnexpectedEndOfInput);
                },
            };
            match parse_bang(kind, text) {
                Err(e) => Err(e),
                Ok(lhs) => if tokens.len() - pos <= 5 {
                    Err(Error::LexerUnexpectedEndOfInput)
                } else {
                    parse_rest(tokens, pos + 5, lhs, Ghost(pos as int))
                },
            }
        },
    }
}

/// Parses a token stream into its tree.
///
/// The stream is `MatchAll`, which gives `Bang::All`, or a chain of bangs
/// joined by operators and closed by `InputEnd`. The first error ends the
/// parse.
pub fn parse_token_stream(tokens: &Vec<Token>) -> (r: Result<Bang, Error>)
    ensures
        parsed_view(r) == parse(tokens_view(tokens@)),
{
    parse_from(tokens, 0)
}

} // verus!
