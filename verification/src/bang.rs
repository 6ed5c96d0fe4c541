//! The tree that a query is parsed into.

use crate::error::{Error, ErrorView};
use crate::lexer::{lex, lex_query};
use crate::parser::{parse, parse_token_stream};
use crate::track::TrackFileType;
use vstd::prelude::*;

verus! {

/// A filter on tracks: one condition, or conditions joined by `&` and `|`.
#[derive(Debug, PartialEq, Eq)]
pub enum Bang {
    /// Every track.
    All,
    /// The title holds the text.
    TitleSearch(String),
    /// The title is the text.
    TitleSearchExact(String),
    /// Title, album, artist or an album artist holds the text.
    FullTextSearch(String),
    /// Title, album, artist or an album artist is the text.
    FullTextSearchExact(String),
    /// The album title holds the text.
    AlbumTitle(String),
    /// The album title is the text.
    AlbumTitleExact(String),
    /// One of the album artists holds the text.
    AlbumArtists(String),
    /// One of the album artists is the text.
    AlbumArtistsExact(String),
    /// The artist holds the text.
    Artist(String),
    /// The artist is the text.
    ArtistExact(String),
    /// The track came from this source.
    Source(String),
    /// The file is of this type or, for the root of a family, of this family.
    Format(TrackFileType),
    /// The bit rate is below the number.
    BitrateLessThan(i32),
    /// The bit rate is above the number.
    BitrateGreaterThan(i32),
    /// The front cover is narrower than the number of pixels.
    CoverArtWidthLessThan(i32),
    /// The front cover is wider than the number of pixels.
    CoverArtWidthGreaterThan(i32),
    /// The front cover is lower than the number of pixels.
    CoverArtHeightLessThan(i32),
    /// The front cover is higher than the number of pixels.
    CoverArtHeightGreaterThan(i32),
    /// The track is shorter than the number of ticks.
    DurationLessThan(i64),
    /// The track is longer than the number of ticks.
    DurationGreaterThan(i64),
    /// Whether the file holds a front cover.
    HasCoverArt(bool),
    /// Whether the track has a MusicBrainz identifier.
    HasMusicbrainzId(bool),
    /// Whether another track has the same title and album artists.
    HasDuplicates(bool),
    /// Both conditions hold.
    LogicalAnd(Box<Bang>, Box<Bang>),
    /// One of the conditions holds.
    LogicalOr(Box<Bang>, Box<Bang>),
    /// A condition in braces.
    Grouping(Box<Bang>),
    /// The track was last changed before the day.
    UpdatedBefore(String),
    /// The track was last changed after the day.
    UpdatedAfter(String),
    /// The file is at this path.
    FilePath(String),
}

/// A `Bang` as a mathematical value: text is a sequence of characters and
/// numbers are integers.
pub enum BangView {
    All,
    TitleSearch(Seq<char>),
    TitleSearchExact(Seq<char>),
    FullTextSearch(Seq<char>),
    FullTextSearchExact(Seq<char>),
    AlbumTitle(Seq<char>),
    AlbumTitleExact(Seq<char>),
    AlbumArtists(Seq<char>),
    AlbumArtistsExact(Seq<char>),
    Artist(Seq<char>),
    ArtistExact(Seq<char>),
    Source(Seq<char>),
    Format(TrackFileType),
    BitrateLessThan(int),
    BitrateGreaterThan(int),
    CoverArtWidthLessThan(int),
    CoverArtWidthGreaterThan(int),
    CoverArtHeightLessThan(int),
    CoverArtHeightGreaterThan(int),
    DurationLessThan(int),
    DurationGreaterThan(int),
    HasCoverArt(bool),
    HasMusicbrainzId(bool),
    HasDuplicates(bool),
    LogicalAnd(Box<BangView>, Box<BangView>),
    LogicalOr(Box<BangView>, Box<BangView>),
    Grouping(Box<BangView>),
    UpdatedBefore(Seq<char>),
    UpdatedAfter(Seq<char>),
    FilePath(Seq<char>),
}

/// The mathematical value of a `Bang`.
pub open spec fn bang_view(bang: Bang) -> BangView
    decreases bang,
{
    match bang {
        Bang::All => BangView::All,
        Bang::TitleSearch(s) => BangView::TitleSearch(s@),
        Bang::TitleSearchExact(s) => BangView::TitleSearchExact(s@),
        Bang::FullTextSearch(s) => BangView::FullTextSearch(s@),
        Bang::FullTextSearchExact(s) => BangView::FullTextSearchExact(s@),
        Bang::AlbumTitle(s) => BangView::AlbumTitle(s@),
        Bang::AlbumTitleExact(s) => BangView::AlbumTitleExact(s@),
        Bang::AlbumArtists(s) => BangView::AlbumArtists(s@),
        Bang::AlbumArtistsExact(s) => BangView::AlbumArtistsExact(s@),
        Bang::Artist(s) => BangView::Artist(s@),
        Bang::ArtistExact(s) => BangView::ArtistExact(s@),
        Bang::Source(s) => BangView::Source(s@),
        Bang::Format(t) => BangView::Format(t),
        Bang::BitrateLessThan(n) => BangView::BitrateLessThan(n as int),
        Bang::BitrateGreaterThan(n) => BangView::BitrateGreaterThan(n as int),
        Bang::CoverArtWidthLessThan(n) => BangView::CoverArtWidthLessThan(n as int),
        Bang::CoverArtWidthGreaterThan(n) => BangView::CoverArtWidthGreaterThan(n as int),
        Bang::CoverArtHeightLessThan(n) => BangView::CoverArtHeightLessThan(n as int),
        Bang::CoverArtHeightGreaterThan(n) => BangView::CoverArtHeightGreaterThan(n as int),
        Bang::DurationLessThan(n) => BangView::DurationLessThan(n as int),
        Bang::DurationGreaterThan(n) => BangView::DurationGreaterThan(n as int),
        Bang::HasCoverArt(b) => BangView::HasCoverArt(b),
        Bang::HasMusicbrainzId(b) => BangView::HasMusicbrainzId(b),
        Bang::HasDuplicates(b) => BangView::HasDuplicates(b),
        Bang::LogicalAnd(l, r) => BangView::LogicalAnd(
            Box::new(bang_view(*l)),
            Box::new(bang_view(*r)),
        ),
        Bang::LogicalOr(l, r) => BangView::LogicalOr(
            Box::new(bang_view(*l)),
            Box::new(bang_view(*r)),
        ),
        Bang::Grouping(b) => BangView::Grouping(Box::new(bang_view(*b))),
        Bang::UpdatedBefore(s) => BangView::UpdatedBefore(s@),
        Bang::UpdatedAfter(s) => BangView::UpdatedAfter(s@),
        Bang::FilePath(s) => BangView::FilePath(s@),
    }
}

impl View for Bang {
    type V = BangView;

    open spec fn view(&self) -> BangView {
        bang_view(*self)
    }
}

/// The view of a `Bang` or the error in its place.
pub open spec fn parsed_view(r: Result<Bang, Error>) -> Result<BangView, ErrorView> {
    match r {
        Ok(bang) => Ok(bang@),
        Err(e) => Err(e@),
    }
}

/// The tree of a query: that of its tokens, or the error that lexing or
/// parsing ends with.
pub open spec fn parse_query(query: Seq<char>) -> Result<BangView, ErrorView> {
    match lex(query) {
        Ok(tokens) => parse(tokens),
        Err(e) => Err(e),
    }
}

impl Bang {
    /// Parses a query.
    pub fn new(query: &str) -> (r: Result<Bang, Error>)
        ensures
            parsed_view(r) == parse_query(query@),
    {
        match lex_query(query) {
            Ok(tokens) => parse_token_stream(&tokens),
            Err(e) => Err(e),
        }
    }

    /// The filter for the file at `path`.
    pub fn from_path(path: &str) -> (bang: Bang)
        ensures
            bang@ == BangView::FilePath(path@),
    {
        Bang::FilePath(path.to_owned())
    }
}

} // verus!
