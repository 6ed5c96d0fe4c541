//! The compiler: from the tree of a query to a condition in SQL.
//!
//! The condition is text with placeholders, and a list that binds each
//! placeholder to a value. What the user wrote reaches the database in the
//! list only: the text is made of column names, keywords, operators and the
//! names of placeholders.

use crate::bang::{Bang, BangView};
use crate::names::{fresh_name, pairwise_different, COUNTED_NAMES};
use crate::numbers::{bool_text, boolean_text, decimal, decimal_text};
use crate::text::{ascii_alphanumeric, chars_of};
use crate::track::{family_range, Family, TrackFileType};
use rand::Rng;
use vstd::prelude::*;

verus! {

/// The number of placeholders that the condition for `bang` takes.
pub open spec fn placeholders(bang: BangView) -> nat
    decreases bang,
{
    match bang {
        BangView::All => 0,
        BangView::HasMusicbrainzId(_) => 0,
        BangView::HasDuplicates(_) => 0,
        BangView::FullTextSearch(_) => 2,
        BangView::FullTextSearchExact(_) => 2,
        BangView::Format(t) => if t.root_of() is Some {
            2
        } else {
            1
        },
        BangView::LogicalAnd(l, r) => placeholders(*l) + placeholders(*r),
        BangView::LogicalOr(l, r) => placeholders(*l) + placeholders(*r),
        BangView::Grouping(inner) => placeholders(*inner),
        _ => 1,
    }
}

/// Whether `c` has a meaning of its own in a regular expression, where it
/// stands outside a character class, and is therefore escaped: the backslash,
/// the quantifiers `?`, `+`, `*`, `{` and `}`, the dot, the brackets and
/// parentheses, the bar, and the anchors `^` and `$`.
pub open spec fn is_regex_special(c: char) -> bool {
    c == '\\' || c == '?' || c == '.' || c == '+' || c == '[' || c == ']' || c == '(' || c == ')'
        || c == '*' || c == '^' || c == '|' || c == '$' || c == '{' || c == '}'
}

/// `text` with a backslash in front of each character that has a meaning of
/// its own in a regular expression.
pub open spec fn escape_regex(text: Seq<char>) -> Seq<char>
    decreases text.len(),
{
    if text.len() == 0 {
        Seq::empty()
    } else if is_regex_special(text.last()) {
        escape_regex(text.drop_last()).push('\\').push(text.last())
    } else {
        escape_regex(text.drop_last()).push(text.last())
    }
}

/// The regular expression for a list of names joined by `;` of which one holds
/// `text`, in whatever case.
pub open spec fn holds_pattern(text: Seq<char>) -> Seq<char> {
    "(?:^|;)(?:.*?)((?i)"@ + escape_regex(text) + ")(?:.*?)(?:;|$)"@
}

/// The regular expression for a list of names joined by `;` of which one is
/// `text`.
pub open spec fn is_pattern(text: Seq<char>) -> Seq<char> {
    "(?:^|;)("@ + escape_regex(text) + ")(?:;|$)"@
}

/// `text` between two `%`: the pattern of `LIKE` for text that holds it.
pub open spec fn like_pattern(text: Seq<char>) -> Seq<char> {
    "%"@ + text + "%"@
}

/// What stands before and behind the placeholder in the condition of a bang
/// that takes one placeholder.
pub open spec fn template(bang: BangView) -> (Seq<char>, Seq<char>) {
    match bang {
        BangView::FilePath(_) => ("(FilePath = "@, ")"@),
        BangView::TitleSearch(_) => ("(Title LIKE "@, ")"@),
        BangView::TitleSearchExact(_) => ("(Title = "@, ")"@),
        BangView::AlbumTitle(_) => ("(Album LIKE "@, ")"@),
        BangView::AlbumTitleExact(_) => ("(Album = "@, ")"@),
        BangView::Artist(_) => ("(Artist LIKE "@, ")"@),
        BangView::ArtistExact(_) => ("(Artist = "@, ")"@),
        BangView::AlbumArtists(_) => ("(AlbumArtists REGEXP "@, ")"@),
        BangView::AlbumArtistsExact(_) => ("(AlbumArtists REGEXP "@, ")"@),
        BangView::Source(_) => ("(Source = "@, " COLLATE NOCASE)"@),
        BangView::BitrateLessThan(_) => ("(Bitrate < "@, ")"@),
        BangView::BitrateGreaterThan(_) => ("(Bitrate > "@, ")"@),
        BangView::CoverArtWidthLessThan(_) => ("(FrontCoverWidth < "@, ")"@),
        BangView::CoverArtWidthGreaterThan(_) => ("(FrontCoverWidth > "@, ")"@),
        BangView::CoverArtHeightLessThan(_) => ("(FrontCoverHeight < "@, ")"@),
        BangView::CoverArtHeightGreaterThan(_) => ("(FrontCoverHeight > "@, ")"@),
        BangView::DurationLessThan(_) => ("(Duration < "@, ")"@),
        BangView::DurationGreaterThan(_) => ("(Duration > "@, ")"@),
        BangView::UpdatedBefore(_) => ("(Updated < "@, ")"@),
        BangView::UpdatedAfter(_) => ("(Updated > "@, ")"@),
        BangView::HasCoverArt(_) => ("(HasFrontCover = "@, ")"@),
        _ => ("(FileType = "@, ")"@),
    }
}

/// The value that the placeholder is bound to in the condition of a bang that
/// takes one placeholder.
pub open spec fn bound_value(bang: BangView) -> Seq<char> {
    match bang {
        BangView::FilePath(text) => text,
        BangView::TitleSearch(text) => like_pattern(text),
        BangView::TitleSearchExact(text) => text,
        BangView::AlbumTitle(text) => like_pattern(text),
        BangView::AlbumTitleExact(text) => text,
        BangView::Artist(text) => like_pattern(text),
        BangView::ArtistExact(text) => text,
        BangView::AlbumArtists(text) => holds_pattern(text),
        BangView::AlbumArtistsExact(text) => is_pattern(text),
        BangView::Source(text) => text,
        BangView::BitrateLessThan(n) => decimal(n),
        BangView::BitrateGreaterThan(n) => decimal(n),
        BangView::CoverArtWidthLessThan(n) => decimal(n),
        BangView::CoverArtWidthGreaterThan(n) => decimal(n),
        BangView::CoverArtHeightLessThan(n) => decimal(n),
        BangView::CoverArtHeightGreaterThan(n) => decimal(n),
        BangView::DurationLessThan(n) => decimal(n),
        BangView::DurationGreaterThan(n) => decimal(n),
        BangView::UpdatedBefore(date) => date,
        BangView::UpdatedAfter(date) => date,
        BangView::HasCoverArt(has) => boolean_text(has),
        BangView::Format(t) => decimal(t.code()),
        _ => Seq::empty(),
    }
}

/// The condition for a full-text search with the placeholders `p` and `q`.
pub open spec fn full_text_fragment(exact: bool, p: Seq<char>, q: Seq<char>) -> Seq<char> {
    if exact {
        "(Title = "@ + p + " OR Album = "@ + p + " OR Artist = "@ + p + " OR AlbumArtists REGEXP "@
            + q + " COLLATE NOCASE)"@
    } else {
        "(Title LIKE "@ + p + " OR Album LIKE "@ + p + " OR Artist LIKE "@ + p
            + " OR AlbumArtists REGEXP "@ + q + " COLLATE NOCASE)"@
    }
}

/// The condition for the family `family` with the placeholders `p` and `q`:
/// a range of codes, or for MP3, whose family has two members, either of two
/// codes.
pub open spec fn family_fragment(family: Family, p: Seq<char>, q: Seq<char>) -> Seq<char> {
    if family == Family::Mp3 {
        "(FileType = "@ + p + " OR FileType = "@ + q + ")"@
    } else {
        "(FileType BETWEEN "@ + p + " AND "@ + q + ")"@
    }
}

/// The condition for a track that has, or has not, a MusicBrainz identifier.
pub open spec fn musicbrainz_fragment(has: bool) -> Seq<char> {
    if has {
        "(MusicBrainzTrackId IS NOT NULL)"@
    } else {
        "(MusicBrainzTrackId IS NULL)"@
    }
}

/// The condition for a track that has, or has not, a duplicate.
pub open spec fn duplicates_fragment(has: bool) -> Seq<char> {
    if has {
        "(Title, AlbumArtists) in (select Title, AlbumArtists from tracks group by Title, AlbumArtists having count(*) > 1)"@
    } else {
        "(Title, AlbumArtists) not in (select Title, AlbumArtists from tracks group by Title, AlbumArtists having count(*) > 1)"@
    }
}

/// The condition that holds of every track: a column compared with itself.
pub open spec fn tautology() -> Seq<char> {
    "(FilePath = FilePath)"@
}

/// The text of the condition for `bang`, with `names` as its placeholders in
/// the order in which the bangs that take them stand in the tree.
pub open spec fn fragment(bang: BangView, names: Seq<Seq<char>>) -> Seq<char>
    recommends
        names.len() == placeholders(bang),
    decreases bang,
{
    match bang {
        BangView::All => tautology(),
        BangView::HasMusicbrainzId(has) => musicbrainz_fragment(has),
        BangView::HasDuplicates(has) => duplicates_fragment(has),
        BangView::FullTextSearch(_) => full_text_fragment(false, names[0], names[1]),
        BangView::FullTextSearchExact(_) => full_text_fragment(true, names[0], names[1]),
        BangView::LogicalAnd(l, r) => "("@ + fragment(*l, names.take(placeholders(*l) as int))
            + ") AND ("@ + fragment(*r, names.skip(placeholders(*l) as int)) + ")"@,
        BangView::LogicalOr(l, r) => "("@ + fragment(*l, names.take(placeholders(*l) as int))
            + ") OR ("@ + fragment(*r, names.skip(placeholders(*l) as int)) + ")"@,
        BangView::Grouping(inner) => "("@ + fragment(*inner, names) + ")"@,
        BangView::Format(t) => match t.root_of() {
            Some(family) => family_fragment(family, names[0], names[1]),
            None => template(bang).0 + names[0] + template(bang).1,
        },
        _ => template(bang).0 + names[0] + template(bang).1,
    }
}

/// The values that the placeholders of the condition for `bang` are bound to:
/// pairs of a name and a value, in the order of the placeholders.
pub open spec fn bindings(bang: BangView, names: Seq<Seq<char>>) -> Seq<(Seq<char>, Seq<char>)>
    recommends
        names.len() == placeholders(bang),
    decreases bang,
{
    match bang {
        BangView::All => Seq::empty(),
        BangView::HasMusicbrainzId(_) => Seq::empty(),
        BangView::HasDuplicates(_) => Seq::empty(),
        BangView::FullTextSearch(text) => seq![
            (names[0], like_pattern(text)),
            (names[1], holds_pattern(text)),
        ],
        BangView::FullTextSearchExact(text) => seq![(names[0], text), (names[1], is_pattern(text))],
        BangView::LogicalAnd(l, r) => bindings(*l, names.take(placeholders(*l) as int)) + bindings(
            *r,
            names.skip(placeholders(*l) as int),
        ),
        BangView::LogicalOr(l, r) => bindings(*l, names.take(placeholders(*l) as int)) + bindings(
            *r,
            names.skip(placeholders(*l) as int),
        ),
        BangView::Grouping(inner) => bindings(*inner, names),
        BangView::Format(t) => match t.root_of() {
            Some(family) => seq![
                (names[0], decimal(family_range(family).0)),
                (names[1], decimal(family_range(family).1)),
            ],
            None => seq![(names[0], bound_value(bang))],
        },
        _ => seq![(names[0], bound_value(bang))],
    }
}

/// The views of a list of names.
pub open spec fn names_view(names: Seq<String>) -> Seq<Seq<char>> {
    Seq::new(names.len(), |i: int| names[i]@)
}

/// The views of a list of bound values.
pub open spec fn bindings_view(params: Seq<(String, String)>) -> Seq<(Seq<char>, Seq<char>)> {
    Seq::new(params.len(), |i: int| (params[i].0@, params[i].1@))
}

/// Whether `name` is the name of a placeholder as the compiler draws them: a
/// colon and ten letters or digits of ASCII.
pub open spec fn is_placeholder_name(name: Seq<char>) -> bool {
    &&& name.len() == 11
    &&& name[0] == ':'
    &&& forall|i: int| 1 <= i < 11 ==> ascii_alphanumeric(#[trigger] name[i])
}

/// Whether `text` and `bound` are the condition for `bang` and its bound
/// values under the placeholders `names`, each of which is a name as the
/// compiler draws them, and no two of which are the same. Beyond
/// `COUNTED_NAMES` placeholders the names may repeat.
pub open spec fn compiles_to(
    bang: BangView,
    names: Seq<Seq<char>>,
    text: Seq<char>,
    bound: Seq<(Seq<char>, Seq<char>)>,
) -> bool {
    &&& names.len() == placeholders(bang)
    &&& forall|i: int| 0 <= i < names.len() ==> is_placeholder_name(#[trigger] names[i])
    &&& names.len() <= COUNTED_NAMES ==> pairwise_different(names)
    &&& text == fragment(bang, names)
    &&& bound == bindings(bang, names)
}

/// The bound values after one more.
pub proof fn lemma_bindings_view_push(params: Seq<(String, String)>, name: String, value: String)
    ensures
        bindings_view(params.push((name, value))) == bindings_view(params).push((name@, value@)),
{
    assert(bindings_view(params.push((name, value))) =~= bindings_view(params).push(
        (name@, value@),
    ));
}

/// `rand::Rng::sample_iter` with `rand::distributions::Alphanumeric` on the
/// generator of the thread. Trusted: the text has `n` characters, each a letter
/// or a digit of ASCII. Which ones is left open: they are drawn at random. The
/// generator is seeded by the system, and stops the program where the system
/// has no entropy to give.
#[verifier::external_body]
pub(crate) fn random_alphanumeric(n: usize) -> (text: String)
    ensures
        text@.len() == n,
        forall|i: int| 0 <= i < n ==> ascii_alphanumeric(#[trigger] text@[i]),
{
    rand::thread_rng().sample_iter(&rand::distributions::Alphanumeric).take(n).map(
        char::from,
    ).collect()
}

/// What `get_rand_param` makes of the ten characters drawn: the name of a
/// placeholder, a colon and the characters.
pub fn param_name(drawn: &str) -> (name: String)
    ensures
        name@ == seq![':'] + drawn@,
{
    let mut name = String::new();
    name.push(':');
    name.append(drawn);
    name
}

/// Draws a fresh name for a placeholder.
pub fn get_rand_param() -> (name: String)
    ensures
        is_placeholder_name(name@),
{
    let drawn = random_alphanumeric(10);
    param_name(drawn.as_str())
}

/// `text` with a backslash in front of each character that has a meaning of
/// its own in a regular expression.
pub fn escape_regex_search(text: &str) -> (escaped: String)
    ensures
        escaped@ == escape_regex(text@),
{
    let chars = chars_of(text);
    let mut escaped = String::new();
    let mut i: usize = 0;
    while i < chars.len()
        invariant
            i <= chars.len(),
            chars@ == text@,
            escaped@ == escape_regex(chars@.take(i as int)),
        decreases chars.len() - i,
    {
        let c = chars[i];
        proof {
            assert(chars@.take(i + 1).drop_last() == chars@.take(i as int));
            assert(chars@.take(i + 1).last() == c);
        }
        if c == '\\' || c == '?' || c == '.' || c == '+' || c == '[' || c == ']' || c == '('
            || c == ')' || c == '*' || c == '^' || c == '|' || c == '$' || c == '{' || c == '}' {
            escaped.push('\\');
        }
        escaped.push(c);
        i += 1;
    }
    assert(chars@.take(i as int) == chars@);
    escaped
}

/// The regular expression for a list of names of which one holds `text`.
fn holds_pattern_text(text: &str) -> (pattern: String)
    ensures
        pattern@ == holds_pattern(text@),
{
    let mut pattern = "(?:^|;)(?:.*?)((?i)".to_owned();
    let escaped = escape_regex_search(text);
    pattern.append(escaped.as_str());
    pattern.append(")(?:.*?)(?:;|$)");
    pattern
}

/// The regular expression for a list of names of which one is `text`.
fn is_pattern_text(text: &str) -> (pattern: String)
    ensures
        pattern@ == is_pattern(text@),
{
    let mut pattern = "(?:^|;)(".to_owned();
    let escaped = escape_regex_search(text);
    pattern.append(escaped.as_str());
    pattern.append(")(?:;|$)");
    pattern
}

/// `text` between two `%`.
fn like_pattern_text(text: &str) -> (pattern: String)
    ensures
        pattern@ == like_pattern(text@),
{
    let mut pattern = "%".to_owned();
    pattern.append(text);
    pattern.append("%");
    pattern
}

/// What stands before and behind the placeholder in the condition of `bang`.
fn template_of(bang: &Bang) -> (t: (&'static str, &'static str))
    ensures
        t.0@ == template(bang@).0,
        t.1@ == template(bang@).1,
{
    match bang {
        Bang::FilePath(_) => ("(FilePath = ", ")"),
        Bang::TitleSearch(_) => ("(Title LIKE ", ")"),
        Bang::TitleSearchExact(_) => ("(Title = ", ")"),
        Bang::AlbumTitle(_) => ("(Album LIKE ", ")"),
        Bang::AlbumTitleExact(_) => ("(Album = ", ")"),
        Bang::Artist(_) => ("(Artist LIKE ", ")"),
        Bang::ArtistExact(_) => ("(Artist = ", ")"),
        Bang::AlbumArtists(_) => ("(AlbumArtists REGEXP ", ")"),
        Bang::AlbumArtistsExact(_) => ("(AlbumArtists REGEXP ", ")"),
        Bang::Source(_) => ("(Source = ", " COLLATE NOCASE)"),
        Bang::BitrateLessThan(_) => ("(Bitrate < ", ")"),
        Bang::BitrateGreaterThan(_) => ("(Bitrate > ", ")"),
        Bang::CoverArtWidthLessThan(_) => ("(FrontCoverWidth < ", ")"),
        Bang::CoverArtWidthGreaterThan(_) => ("(FrontCoverWidth > ", ")"),
        Bang::CoverArtHeightLessThan(_) => ("(FrontCoverHeight < ", ")"),
        Bang::CoverArtHeightGreaterThan(_) => ("(FrontCoverHeight > ", ")"),
        Bang::DurationLessThan(_) => ("(Duration < ", ")"),
        Bang::DurationGreaterThan(_) => ("(Duration > ", ")"),
        Bang::UpdatedBefore(_) => ("(Updated < ", ")"),
        Bang::UpdatedAfter(_) => ("(Updated > ", ")"),
        Bang::HasCoverArt(_) => ("(HasFrontCover = ", ")"),
        _ => ("(FileType = ", ")"),
    }
}

/// The value that the placeholder is bound to in the condition of `bang`.
fn bound_value_of(bang: &Bang) -> (value: String)
    ensures
        value@ == bound_value(bang@),
{
    match bang {
        Bang::FilePath(text) => text.clone(),
        Bang::TitleSearch(text) => like_pattern_text(text.as_str()),
        Bang::TitleSearchExact(text) => text.clone(),
        Bang::AlbumTitle(text) => like_pattern_text(text.as_str()),
        Bang::AlbumTitleExact(text) => text.clone(),
        Bang::Artist(text) => like_pattern_text(text.as_str()),
        Bang::ArtistExact(text) => text.clone(),
        Bang::AlbumArtists(text) => holds_pattern_text(text.as_str()),
        Bang::AlbumArtistsExact(text) => is_pattern_text(text.as_str()),
        Bang::Source(text) => text.clone(),
        Bang::BitrateLessThan(n) => decimal_text(*n as i64),
        Bang::BitrateGreaterThan(n) => decimal_text(*n as i64),
        Bang::CoverArtWidthLessThan(n) => decimal_text(*n as i64),
        Bang::CoverArtWidthGreaterThan(n) => decimal_text(*n as i64),
        Bang::CoverArtHeightLessThan(n) => decimal_text(*n as i64),
        Bang::CoverArtHeightGreaterThan(n) => decimal_text(*n as i64),
        Bang::DurationLessThan(n) => decimal_text(*n),
        Bang::DurationGreaterThan(n) => decimal_text(*n),
        Bang::UpdatedBefore(date) => date.clone(),
        Bang::UpdatedAfter(date) => date.clone(),
        Bang::HasCoverArt(has) => bool_text(*has),
        Bang::Format(t) => decimal_text(t.value() as i64),
        _ => String::new(),
    }
}

/// The family that `t` is the root of, if it is one, with the lowest and the
/// highest code of the family.
fn root_range(t: TrackFileType) -> (r: Option<(Family, i32, i32)>)
    ensures
        match t.root_of() {
            Some(family) => r == Some(
                (family, family_range(family).0 as i32, family_range(family).1 as i32),
            ),
            None => r is None,
        },
{
    match t {
        TrackFileType::FLAC => Some(
            (Family::Flac, TrackFileType::FLAC4.value(), TrackFileType::FLAC.value()),
        ),
        TrackFileType::AIFF => Some(
            (Family::Aiff, TrackFileType::AIFF4.value(), TrackFileType::AIFF.value()),
        ),
        TrackFileType::ALAC => Some(
            (Family::Alac, TrackFileType::ALAC16.value(), TrackFileType::ALAC.value()),
        ),
        TrackFileType::MonkeysAudio => Some(
            (
                Family::MonkeysAudio,
                TrackFileType::MonkeysAudio8.value(),
                TrackFileType::MonkeysAudio.value(),
            ),
        ),
        TrackFileType::MP3 => Some(
            (Family::Mp3, TrackFileType::MP3CBR.value(), TrackFileType::MP3VBR.value()),
        ),
        _ => None,
    }
}

/// The condition for a full-text search with the placeholders `p` and `q`.
fn full_text_text(exact: bool, p: &str, q: &str) -> (text: String)
    ensures
        text@ == full_text_fragment(exact, p@, q@),
{
    if exact {
        let mut text = "(Title = ".to_owned();
        text.append(p);
        text.append(" OR Album = ");
        text.append(p);
        text.append(" OR Artist = ");
        text.append(p);
        text.append(" OR AlbumArtists REGEXP ");
        text.append(q);
        text.append(" COLLATE NOCASE)");
        text
    } else {
        let mut text = "(Title LIKE ".to_owned();
        text.append(p);
        text.append(" OR Album LIKE ");
        text.append(p);
        text.append(" OR Artist LIKE ");
        text.append(p);
        text.append(" OR AlbumArtists REGEXP ");
        text.append(q);
        text.append(" COLLATE NOCASE)");
        text
    }
}

/// The condition for the family `family` with the placeholders `p` and `q`.
fn family_text(family: Family, p: &str, q: &str) -> (text: String)
    ensures
        text@ == family_fragment(family, p@, q@),
{
    if family == Family::Mp3 {
        let mut text = "(FileType = ".to_owned();
        text.append(p);
        text.append(" OR FileType = ");
        text.append(q);
        text.append(")");
        text
    } else {
        let mut text = "(FileType BETWEEN ".to_owned();
        text.append(p);
        text.append(" AND ");
        text.append(q);
        text.append(")");
        text
    }
}

/// Two conditions, each in parentheses, joined by `operator`.
fn joined_text(lhs: &str, operator: &str, rhs: &str) -> (text: String)
    ensures
        text@ == "("@ + lhs@ + operator@ + rhs@ + ")"@,
{
    let mut text = "(".to_owned();
    text.append(lhs);
    text.append(operator);
    text.append(rhs);
    text.append(")");
    text
}

/// Binds the placeholder `name` to `value`.
fn bind(params: &mut Vec<(String, String)>, name: &String, value: String)
    ensures
        bindings_view(final(params)@) == bindings_view(old(params)@).push((name@, value@)),
{
    let name = name.clone();
    proof {
        lemma_bindings_view_push(params@, name, value);
    }
    params.push((name, value));
}

/// Compiles `bang` with the names from index `next` of `names` on as its
/// placeholders. Gives the text of the condition and the index behind the
/// last name used, and adds the bound values to `params`; gives `None` if
/// `names` holds too few names.
fn render(bang: &Bang, names: &Vec<String>, next: usize, params: &mut Vec<(String, String)>) -> (r:
    Option<(String, usize)>)
    requires
        next <= names.len(),
    ensures
        match r {
            Some((text, end)) => {
                &&& end == next + placeholders(bang@)
                &&& end <= names.len()
                &&& text@ == fragment(bang@, names_view(names@).subrange(next as int, end as int))
                &&& bindings_view(final(params)@) == bindings_view(old(params)@) + bindings(
                    bang@,
                    names_view(names@).subrange(next as int, end as int),
                )
            },
            None => next + placeholders(bang@) > names.len(),
        },
    decreases bang,
{
    let ghost all = names_view(names@);
    let ghost before = bindings_view(params@);
    match bang {
        Bang::All => {
            assert(before + Seq::<(Seq<char>, Seq<char>)>::empty() =~= before);
            Some(("(FilePath = FilePath)".to_owned(), next))
        },
        Bang::HasMusicbrainzId(has) => {
            assert(before + Seq::<(Seq<char>, Seq<char>)>::empty() =~= before);
            let text = if *has {
                "(MusicBrainzTrackId IS NOT NULL)"
            } else {
                "(MusicBrainzTrackId IS NULL)"
            };
            Some((text.to_owned(), next))
        },
        Bang::HasDuplicates(has) => {
            assert(before + Seq::<(Seq<char>, Seq<char>)>::empty() =~= before);
            let text = if *has {
                "(Title, AlbumArtists) in (select Title, AlbumArtists from tracks group by Title, AlbumArtists having count(*) > 1)"
            } else {
                "(Title, AlbumArtists) not in (select Title, AlbumArtists from tracks group by Title, AlbumArtists having count(*) > 1)"
            };
            Some((text.to_owned(), next))
        },
        Bang::FullTextSearch(search) => {
            if names.len() - next < 2 {
                return None;
            }
            let p = &names[next];
            let q = &names[next + 1];
            let text = full_text_text(false, p.as_str(), q.as_str());
            bind(params, p, like_pattern_text(search.as_str()));
            bind(params, q, holds_pattern_text(search.as_str()));
            proof {
                let used = all.subrange(next as int, next + 2);
                assert(bindings_view(params@) =~= before + bindings(bang@, used));
            }
            Some((text, next + 2))
        },
        Bang::FullTextSearchExact(search) => {
            if names.len() - next < 2 {
                return None;
            }
            let p = &names[next];
            let q = &names[next + 1];
            let text = full_text_text(true, p.as_str(), q.as_str());
            bind(params, p, search.clone());
            bind(params, q, is_pattern_text(search.as_str()));
            proof {
                let used = all.subrange(next as int, next + 2);
                assert(bindings_view(params@) =~= before + bindings(bang@, used));
            }
            Some((text, next + 2))
        },
        Bang::LogicalAnd(lhs, rhs) => {
            let (left, mid) = match render(lhs, names, next, params) {
                Some(done) => done,
                None => {
                    return None;
                },
            };
            let (right, end) = match render(rhs, names, mid, params) {
                Some(done) => done,
                None => {
                    return None;
                },
            };
            proof {
                let used = all.subrange(next as int, end as int);
                assert(used.take(placeholders(lhs@) as int) =~= all.subrange(next as int, mid as int));
                assert(used.skip(placeholders(lhs@) as int) =~= all.subrange(mid as int, end as int));
                assert(bindings_view(params@) =~= before + bindings(bang@, used));
            }
            let text = joined_text(left.as_str(), ") AND (", right.as_str());
            Some((text, end))
        },
        Bang::LogicalOr(lhs, rhs) => {
            let (left, mid) = match render(lhs, names, next, params) {
                Some(done) => done,
                None => {
                    return None;
                },
            };
            let (right, end) = match render(rhs, names, mid, params) {
                Some(done) => done,
                None => {
                    return None;
                },
            };
            proof {
                let used = all.subrange(next as int, end as int);
                assert(used.take(placeholders(lhs@) as int) =~= all.subrange(next as int, mid as int));
                assert(used.skip(placeholders(lhs@) as int) =~= all.subrange(mid as int, end as int));
                assert(bindings_view(params@) =~= before + bindings(bang@, used));
            }
            let text = joined_text(left.as_str(), ") OR (", right.as_str());
            Some((text, end))
        },
        Bang::Grouping(inner) => {
            let (body, end) = match render(inner, names, next, params) {
                Some(done) => done,
                None => {
                    return None;
                },
            };
            let mut text = "(".to_owned();
            text.append(body.as_str());
            text.append(")");
            Some((text, end))
        },
        _ => {
            let family = match bang {
                Bang::Format(t) => root_range(*t),
                _ => None,
            };
            match family {
                Some((family, low, high)) => {
                    if names.len() - next < 2 {
                        return None;
                    }
                    let p = &names[next];
                    let q = &names[next + 1];
                    let text = family_text(family, p.as_str(), q.as_str());
                    bind(params, p, decimal_text(low as i64));
                    bind(params, q, decimal_text(high as i64));
                    proof {
                        let used = all.subrange(next as int, next + 2);
                        assert(bindings_view(params@) =~= before + bindings(bang@, used));
                    }
                    Some((text, next + 2))
                },
                None => {
                    if names.len() - next < 1 {
                        return None;
                    }
                    let p = &names[next];
                    let (open, close) = template_of(bang);
                    let mut text = open.to_owned();
                    text.append(p.as_str());
                    text.append(close);
                    bind(params, p, bound_value_of(bang));
                    proof {
                        let used = all.subrange(next as int, next + 1);
                        assert(bindings_view(params@) =~= before + bindings(bang@, used));
                    }
                    Some((text, next + 1))
                },
            }
        },
    }
}

/// Adds to `names` a fresh name for each placeholder of the condition for
/// `bang`. Each name is tested against all that stand before it, so that names
/// that differ from one another stay so.
fn draw_names(bang: &Bang, names: &mut Vec<String>)
    ensures
        final(names)@.len() == old(names)@.len() + placeholders(bang@),
        names_view(final(names)@).take(old(names)@.len() as int) == names_view(old(names)@),
        forall|i: int|
            old(names)@.len() <= i < final(names)@.len() ==> is_placeholder_name(
                #[trigger] names_view(final(names)@)[i],
            ),
        final(names)@.len() <= COUNTED_NAMES && pairwise_different(names_view(old(names)@))
            ==> pairwise_different(names_view(final(names)@)),
    decreases bang,
{
    let ghost before = names_view(names@);
    match bang {
        Bang::All | Bang::HasMusicbrainzId(_) | Bang::HasDuplicates(_) => {
            assert(names_view(names@).take(names@.len() as int) =~= before);
            assert(names_view(names@) =~= before);
        },
        Bang::LogicalAnd(lhs, rhs) | Bang::LogicalOr(lhs, rhs) => {
            draw_names(lhs, names);
            let ghost between = names_view(names@);
            draw_names(rhs, names);
            let ghost after = names_view(names@);
            assert(after.take(before.len() as int) =~= between.take(before.len() as int));
            assert forall|i: int| before.len() <= i < after.len() implies is_placeholder_name(
                #[trigger] after[i],
            ) by {
                if i < between.len() {
                    assert(after[i] == after.take(between.len() as int)[i]);
                }
            }
        },
        Bang::Grouping(inner) => {
            draw_names(inner, names);
        },
        _ => {
            let two = match bang {
                Bang::FullTextSearch(_) | Bang::FullTextSearchExact(_) => true,
                Bang::Format(t) => root_range(*t).is_some(),
                _ => false,
            };
            push_fresh_name(names);
            if two {
                push_fresh_name(names);
            }
            assert(names_view(names@).take(before.len() as int) =~= before);
        },
    }
}

/// Adds to `names` a name that is not among them.
fn push_fresh_name(names: &mut Vec<String>)
    ensures
        final(names)@.len() == old(names)@.len() + 1,
        names_view(final(names)@).take(old(names)@.len() as int) == names_view(old(names)@),
        is_placeholder_name(names_view(final(names)@)[old(names)@.len() as int]),
        final(names)@.len() <= COUNTED_NAMES && pairwise_different(names_view(old(names)@))
            ==> pairwise_different(names_view(final(names)@)),
{
    let ghost before = names_view(names@);
    let name = fresh_name(names);
    names.push(name);
    proof {
        let after = names_view(names@);
        assert(after.take(before.len() as int) =~= before);
        if after.len() <= COUNTED_NAMES && pairwise_different(before) {
            assert forall|i: int, j: int| 0 <= i < j < after.len() implies #[trigger] after[i]
                != #[trigger] after[j] by {
                if j < before.len() {
                    assert(after[i] == before[i] && after[j] == before[j]);
                } else {
                    assert(after[i] == before[i]);
                }
            }
        }
    }
}

impl Bang {
    /// Compiles the filter with `names` as the names of its placeholders, in
    /// the order in which the bangs that take them stand in the tree. Gives
    /// the text of the condition and the values that the placeholders are
    /// bound to; gives `None` unless there are as many names as placeholders.
    pub fn to_sql_with(&self, names: &Vec<String>) -> (r: Option<(String, Vec<(String, String)>)>)
        ensures
            match r {
                Some((text, params)) => {
                    &&& names.len() == placeholders(self@)
                    &&& text@ == fragment(self@, names_view(names@))
                    &&& bindings_view(params@) == bindings(self@, names_view(names@))
                },
                None => names.len() != placeholders(self@),
            },
    {
        let mut params: Vec<(String, String)> = Vec::new();
        match render(self, names, 0, &mut params) {
            Some((text, end)) => {
                if end == names.len() {
                    proof {
                        let all = names_view(names@);
                        assert(all.subrange(0, end as int) =~= all);
                        assert(bindings_view(Seq::<(String, String)>::empty()) + bindings(
                            self@,
                            all,
                        ) =~= bindings(self@, all));
                    }
                    Some((text, params))
                } else {
                    None
                }
            },
            None => None,
        }
    }

    /// Compiles the filter with fresh names for its placeholders. Gives the
    /// text of the condition and the values that the placeholders are bound to.
    pub fn to_sql(&self) -> (r: (String, Vec<(String, String)>))
        ensures
            exists|names: Seq<Seq<char>>|
                compiles_to(self@, names, r.0@, bindings_view(r.1@)),
    {
        let mut names: Vec<String> = Vec::new();
        draw_names(self, &mut names);
        match self.to_sql_with(&names) {
            Some((text, params)) => {
                assert(compiles_to(self@, names_view(names@), text@, bindings_view(params@)));
                (text, params)
            },
            None => {
                assert(false);
                (String::new(), Vec::new())
            },
        }
    }
}

/// Compiles `bang` with fresh names for its placeholders. Gives the text of
/// the condition and adds to `params` the values that the placeholders are
/// bound to.
pub fn to_query_string(bang: Bang, params: &mut Vec<(String, String)>) -> (text: String)
    ensures
        exists|names: Seq<Seq<char>>, bound: Seq<(Seq<char>, Seq<char>)>|
            #![trigger compiles_to(bang@, names, text@, bound)]
            compiles_to(bang@, names, text@, bound) && bindings_view(final(params)@)
                == bindings_view(old(params)@) + bound,
{
    let ghost before = bindings_view(params@);
    let mut names: Vec<String> = Vec::new();
    draw_names(&bang, &mut names);
    match render(&bang, &names, 0, params) {
        Some((text, end)) => {
            proof {
                let all = names_view(names@);
                assert(all.subrange(0, end as int) =~= all);
                assert(compiles_to(bang@, all, text@, bindings(bang@, all)));
            }
            text
        },
        None => {
            assert(false);
            String::new()
        },
    }
}

/// The order in which the tracks of an answer stand: albums of various
/// artists last, the others by album artists, album and number.
pub open spec fn ordering() -> Seq<char> {
    " ORDER BY CASE WHEN AlbumArtists = 'Various Artists' THEN 1 END, AlbumArtists,Album,TrackNumber"@
}

/// The statement that selects the tracks for which the condition `condition`
/// holds, or all tracks where there is no condition; at most `limit` of them
/// if a limit is given, without the first `offset` if an offset is given. The
/// limit and the offset stand before the order.
pub open spec fn statement(
    condition: Option<Seq<char>>,
    limit: Option<int>,
    offset: Option<int>,
) -> Seq<char> {
    let selection = match condition {
        Some(text) => "SELECT * FROM tracks WHERE ("@ + text + ")"@,
        None => "SELECT * FROM tracks"@,
    };
    let limited = match limit {
        Some(n) => selection + " LIMIT "@ + decimal(n),
        None => selection,
    };
    let skipped = match offset {
        Some(n) => limited + " OFFSET "@ + decimal(n),
        None => limited,
    };
    skipped + ordering()
}

/// Whether `text` and `bound` are the statement that selects the tracks that
/// `bang` lets through, and the values of its placeholders, under the
/// placeholders `names`. `Bang::All` alone takes no condition.
pub open spec fn selects(
    bang: BangView,
    names: Seq<Seq<char>>,
    limit: Option<int>,
    offset: Option<int>,
    text: Seq<char>,
    bound: Seq<(Seq<char>, Seq<char>)>,
) -> bool {
    &&& compiles_to(bang, names, fragment(bang, names), bound)
    &&& text == statement(
        if bang is All {
            None
        } else {
            Some(fragment(bang, names))
        },
        limit,
        offset,
    )
}

/// A number of 32 bits, if there is one, as an integer.
pub open spec fn as_int(n: Option<i32>) -> Option<int> {
    match n {
        Some(v) => Some(v as int),
        None => None,
    }
}

/// The statement that selects the tracks that `bang` lets through, and the
/// values that its placeholders are bound to.
pub fn select_statement(bang: Bang, limit: Option<i32>, offset: Option<i32>) -> (r: (
    String,
    Vec<(String, String)>,
))
    ensures
        exists|names: Seq<Seq<char>>|
            #![trigger selects(bang@, names, as_int(limit), as_int(offset), r.0@, bindings_view(r.1@))]
            selects(bang@, names, as_int(limit), as_int(offset), r.0@, bindings_view(r.1@)),
{
    let ghost tree = bang@;
    let ghost names: Seq<Seq<char>>;
    let ghost selection: Seq<char>;
    let mut params: Vec<(String, String)> = Vec::new();
    let mut query = if let Bang::All = bang {
        proof {
            names = Seq::empty();
            selection = "SELECT * FROM tracks"@;
            assert(bindings_view(params@) =~= bindings(tree, names));
        }
        "SELECT * FROM tracks".to_owned()
    } else {
        let mut query = "SELECT * FROM tracks WHERE (".to_owned();
        let text = to_query_string(bang, &mut params);
        query.append(text.as_str());
        query.append(")");
        proof {
            let (chosen, bound) = choose|chosen: Seq<Seq<char>>, bound: Seq<(Seq<char>, Seq<char>)>|
                #![trigger compiles_to(tree, chosen, text@, bound)]
                compiles_to(tree, chosen, text@, bound) && bindings_view(params@) == bindings_view(
                    Seq::<(String, String)>::empty(),
                ) + bound;
            assert(bindings_view(Seq::<(String, String)>::empty()) + bound =~= bound);
            names = chosen;
            selection = "SELECT * FROM tracks WHERE ("@ + text@ + ")"@;
        }
        query
    };
    let ghost limited = match limit {
        Some(n) => selection + " LIMIT "@ + decimal(n as int),
        None => selection,
    };
    if let Some(n) = limit {
        query.append(" LIMIT ");
        let number = decimal_text(n as i64);
        query.append(number.as_str());
    }
    let ghost skipped = match offset {
        Some(n) => limited + " OFFSET "@ + decimal(n as int),
        None => limited,
    };
    if let Some(n) = offset {
        query.append(" OFFSET ");
        let number = decimal_text(n as i64);
        query.append(number.as_str());
    }
    query.append(
        " ORDER BY CASE WHEN AlbumArtists = 'Various Artists' THEN 1 END, AlbumArtists,Album,TrackNumber",
    );
    let r = (query, params);
    proof {
        assert(r.0@ == skipped + ordering());
        assert(selects(tree, names, as_int(limit), as_int(offset), r.0@, bindings_view(r.1@)));
    }
    r
}

} // verus!
