//! The names under which the files of the library are kept.
//!
//! A track lies in a folder named after its album artists, in a folder named
//! after its album, under a name made of its disc, its number and its title.
//! What a file system does not take in a name is replaced.

use crate::numbers::{decimal, decimal_text, digit_char, push_natural};
use crate::text::{chars_of, is_whitespace, string_of_range, whitespace};
use crate::track::Track;
use vstd::prelude::*;

verus! {

/// Whether a file name may not hold `c`.
pub open spec fn invalid_for_path(c: char) -> bool {
    c == '"' || c == '<' || c == '>' || c == '|' || c == '\0' || c == ':' || c == '*' || c == '?'
        || c == '\\' || c == '/'
}

/// `c`, or `_` in its place if a file name may not hold it.
pub open spec fn path_char(c: char) -> char {
    if invalid_for_path(c) {
        '_'
    } else {
        c
    }
}

/// `s` without the characters at its end of which `unwanted` holds.
pub open spec fn drop_trailing(s: Seq<char>, unwanted: spec_fn(char) -> bool) -> Seq<char>
    decreases s.len(),
{
    if s.len() > 0 && unwanted(s.last()) {
        drop_trailing(s.drop_last(), unwanted)
    } else {
        s
    }
}

/// `s` without the characters at its start of which `unwanted` holds.
pub open spec fn drop_leading(s: Seq<char>, unwanted: spec_fn(char) -> bool) -> Seq<char>
    decreases s.len(),
{
    if s.len() > 0 && unwanted(s.first()) {
        drop_leading(s.drop_first(), unwanted)
    } else {
        s
    }
}

/// `s` without the white space at its start and at its end.
pub open spec fn trimmed(s: Seq<char>) -> Seq<char> {
    drop_trailing(drop_leading(s, |c: char| whitespace(c)), |c: char| whitespace(c))
}

/// `s` as a file name: each character that a file name may not hold is
/// replaced by `_`, and the dots at the end are taken off.
pub open spec fn sanitized(s: Seq<char>) -> Seq<char> {
    drop_trailing(s.map_values(|c: char| path_char(c)), |c: char| c == '.')
}

/// The texts of `parts` with `separator` between each two of them.
pub open spec fn joined(parts: Seq<Seq<char>>, separator: Seq<char>) -> Seq<char>
    decreases parts.len(),
{
    if parts.len() == 0 {
        Seq::empty()
    } else if parts.len() == 1 {
        parts[0]
    } else {
        joined(parts.drop_last(), separator) + separator + parts.last()
    }
}

/// `s` up to its first `_`, or all of it if it holds none.
pub open spec fn first_segment(s: Seq<char>) -> Seq<char>
    decreases s.len(),
{
    if s.len() == 0 || s.first() == '_' {
        Seq::empty()
    } else {
        seq![s.first()] + first_segment(s.drop_first())
    }
}

/// Whether `s` holds white space only.
pub open spec fn all_whitespace(s: Seq<char>) -> bool {
    forall|i: int| 0 <= i < s.len() ==> whitespace(#[trigger] s[i])
}

/// `n` in base ten, with a zero in front if it is a single digit.
pub open spec fn two_digits(n: int) -> Seq<char> {
    if 0 <= n < 10 {
        seq!['0', digit_char(n)]
    } else {
        decimal(n)
    }
}

/// The name of the file of a track, before its extension: the disc, a hyphen,
/// the number in two digits, a space and the title, as a file name.
pub open spec fn track_filename(disc: int, number: int, title: Seq<char>) -> Seq<char> {
    sanitized(decimal(disc) + seq!['-'] + two_digits(number) + seq![' '] + title)
}

/// The name that is tried for a file at the `counter`-th attempt: the name and
/// the extension, and from the second attempt on the number of the attempt in
/// parentheses between them.
pub open spec fn numbered_filename(name: Seq<char>, extension: Seq<char>, counter: nat) -> Seq<
    char,
> {
    if counter == 0 {
        name + seq!['.'] + extension
    } else {
        name + seq![' ', '('] + crate::numbers::natural_digits(counter) + seq![')', '.']
            + extension
    }
}

/// Where a track came from, told from the folder it was found in, relative to
/// the folder that is watched: the first part of that path, up to the first
/// character that a file name may not hold or the first `_`. `None` stands for
/// a file that lies elsewhere. A track right in the watched folder has the
/// source `None`.
pub open spec fn source_of(relative: Option<Seq<char>>) -> Seq<char> {
    match relative {
        Some(folder) => if all_whitespace(folder) {
            "None"@
        } else {
            first_segment(sanitized(folder))
        },
        None => "None"@,
    }
}

/// Whether a file name may not hold `c`.
pub fn is_invalid_for_path(c: char) -> (b: bool)
    ensures
        b == invalid_for_path(c),
{
    c == '"' || c == '<' || c == '>' || c == '|' || c == '\0' || c == ':' || c == '*' || c == '?'
        || c == '\\' || c == '/'
}

/// The index behind the last character of `chars` that is no dot.
fn end_without_dots(chars: &Vec<char>) -> (end: usize)
    ensures
        end <= chars.len(),
        drop_trailing(chars@, |c: char| c == '.') == chars@.take(end as int),
{
    let mut end: usize = chars.len();
    assert(chars@.take(end as int) == chars@);
    while end > 0 && chars[end - 1] == '.'
        invariant
            end <= chars.len(),
            drop_trailing(chars@, |c: char| c == '.') == drop_trailing(
                chars@.take(end as int),
                |c: char| c == '.',
            ),
        decreases end,
    {
        assert(chars@.take(end as int).drop_last() == chars@.take(end - 1));
        end -= 1;
    }
    end
}

/// `path` as a file name: each character that a file name may not hold is
/// replaced by `_`, and the dots at the end are taken off.
pub fn sanitize_file_name(path: &str) -> (name: String)
    ensures
        name@ == sanitized(path@),
{
    let chars = chars_of(path);
    let mut replaced: Vec<char> = Vec::new();
    let mut i: usize = 0;
    while i < chars.len()
        invariant
            i <= chars.len(),
            chars@ == path@,
            replaced@ == chars@.take(i as int).map_values(|c: char| path_char(c)),
        decreases chars.len() - i,
    {
        let c = chars[i];
        replaced.push(
            if is_invalid_for_path(c) {
                '_'
            } else {
                c
            },
        );
        assert(replaced@ =~= chars@.take(i + 1).map_values(|c: char| path_char(c)));
        i += 1;
    }
    assert(chars@.take(i as int) == chars@);
    let end = end_without_dots(&replaced);
    let name = string_of_range(&replaced, 0, end);
    assert(replaced@.subrange(0, end as int) == replaced@.take(end as int));
    name
}

/// `text` without the white space at its start and at its end.
pub fn trim(text: &str) -> (r: String)
    ensures
        r@ == trimmed(text@),
{
    let chars = chars_of(text);
    let n = chars.len();
    let mut start: usize = 0;
    assert(chars@.subrange(0, n as int) == chars@);
    while start < n && is_whitespace(chars[start])
        invariant
            start <= n,
            n == chars.len(),
            drop_leading(chars@, |c: char| whitespace(c)) == drop_leading(
                chars@.subrange(start as int, n as int),
                |c: char| whitespace(c),
            ),
        decreases n - start,
    {
        assert(chars@.subrange(start as int, n as int).drop_first() == chars@.subrange(
            start + 1,
            n as int,
        ));
        start += 1;
    }
    let ghost front = chars@.subrange(start as int, n as int);
    assert(drop_leading(chars@, |c: char| whitespace(c)) == front);
    let mut end: usize = n;
    while end > start && is_whitespace(chars[end - 1])
        invariant
            start <= end <= n,
            n == chars.len(),
            front == chars@.subrange(start as int, n as int),
            drop_trailing(front, |c: char| whitespace(c)) == drop_trailing(
                chars@.subrange(start as int, end as int),
                |c: char| whitespace(c),
            ),
        decreases end,
    {
        assert(chars@.subrange(start as int, end as int).drop_last() == chars@.subrange(
            start as int,
            end - 1,
        ));
        end -= 1;
    }
    string_of_range(&chars, start, end)
}

/// The views of a list of texts.
pub open spec fn texts_view(texts: Seq<String>) -> Seq<Seq<char>> {
    Seq::new(texts.len(), |i: int| texts[i]@)
}

/// The texts of `parts` with `separator` between each two of them.
pub fn join(parts: &Vec<String>, separator: &str) -> (r: String)
    ensures
        r@ == joined(texts_view(parts@), separator@),
{
    let ghost all = texts_view(parts@);
    let mut r = String::new();
    let mut i: usize = 0;
    while i < parts.len()
        invariant
            i <= parts.len(),
            all == texts_view(parts@),
            r@ == joined(all.take(i as int), separator@),
        decreases parts.len() - i,
    {
        proof {
            assert(all.take(i + 1).drop_last() == all.take(i as int));
            assert(all.take(i + 1).last() == parts@[i as int]@);
            if i == 0 {
                assert(all.take(1)[0] == parts@[0]@);
                assert(Seq::<char>::empty() + parts@[0]@ =~= parts@[0]@);
            }
        }
        if i > 0 {
            r.append(separator);
        }
        r.append(parts[i].as_str());
        i += 1;
    }
    assert(all.take(i as int) == all);
    r
}

/// The folder of the album artists and, in it, the folder of the album in
/// which a track lies: the artists joined by a comma and a space, and the
/// album, each without white space around it and as a file name.
pub fn get_track_directory(track: &Track) -> (folders: (String, String))
    ensures
        folders.0@ == sanitized(trimmed(joined(texts_view(track.album_artists@), ", "@))),
        folders.1@ == sanitized(trimmed(track.album@)),
{
    let artists = join(&track.album_artists, ", ");
    let artist_folder = trim(artists.as_str());
    let album_folder = trim(track.album.as_str());
    (sanitize_file_name(artist_folder.as_str()), sanitize_file_name(album_folder.as_str()))
}

/// `n` in base ten, with a zero in front if it is a single digit.
fn two_digit_text(n: i32) -> (text: String)
    ensures
        text@ == two_digits(n as int),
{
    if 0 <= n && n < 10 {
        let mut text = String::new();
        text.push('0');
        push_natural(&mut text, n as u64);
        assert(text@ =~= two_digits(n as int));
        text
    } else {
        decimal_text(n as i64)
    }
}

/// The name of the file of a track, before its extension.
pub fn get_track_filename(track: &Track) -> (name: String)
    ensures
        name@ == track_filename(track.disc_number as int, track.track_number as int, track.title@),
{
    let mut name = decimal_text(track.disc_number as i64);
    name.push('-');
    let number = two_digit_text(track.track_number);
    name.append(number.as_str());
    name.push(' ');
    name.append(track.title.as_str());
    assert(name@ =~= decimal(track.disc_number as int) + seq!['-'] + two_digits(
        track.track_number as int,
    ) + seq![' '] + track.title@);
    sanitize_file_name(name.as_str())
}

/// The name that is tried for a file at the `counter`-th attempt.
pub fn get_iterative_filename(filename: &str, extension: &str, counter: u64) -> (name: String)
    ensures
        name@ == numbered_filename(filename@, extension@, counter as nat),
{
    let mut name = filename.to_owned();
    if counter == 0 {
        name.push('.');
        name.append(extension);
        assert(name@ =~= numbered_filename(filename@, extension@, 0));
    } else {
        name.push(' ');
        name.push('(');
        push_natural(&mut name, counter);
        name.push(')');
        name.push('.');
        name.append(extension);
        assert(name@ =~= numbered_filename(filename@, extension@, counter as nat));
    }
    name
}

/// Whether `text` holds white space only.
pub fn is_whitespace_only(text: &str) -> (b: bool)
    ensures
        b == all_whitespace(text@),
{
    let chars = chars_of(text);
    let mut i: usize = 0;
    while i < chars.len()
        invariant
            i <= chars.len(),
            chars@ == text@,
            forall|j: int| 0 <= j < i ==> whitespace(#[trigger] chars@[j]),
        decreases chars.len() - i,
    {
        if !is_whitespace(chars[i]) {
            return false;
        }
        i += 1;
    }
    true
}

/// `text` up to its first `_`.
fn first_segment_of(text: &str) -> (segment: String)
    ensures
        segment@ == first_segment(text@),
{
    let chars = chars_of(text);
    let mut end: usize = 0;
    assert(chars@.subrange(0, chars.len() as int) == chars@);
    while end < chars.len() && chars[end] != '_'
        invariant
            end <= chars.len(),
            chars@ == text@,
            first_segment(chars@) == chars@.take(end as int) + first_segment(
                chars@.subrange(end as int, chars.len() as int),
            ),
        decreases chars.len() - end,
    {
        proof {
            let rest = chars@.subrange(end as int, chars.len() as int);
            assert(rest.drop_first() == chars@.subrange(end + 1, chars.len() as int));
            assert(chars@.take(end as int) + (seq![rest.first()] + first_segment(rest.drop_first()))
                =~= chars@.take(end + 1) + first_segment(rest.drop_first()));
        }
        end += 1;
    }
    let segment = string_of_range(&chars, 0, end);
    assert(chars@.subrange(0, end as int) + Seq::<char>::empty() =~= chars@.take(end as int));
    segment
}

/// Where a track came from, told from the folder it was found in, relative to
/// the folder that is watched; `None` stands for a file that lies elsewhere.
pub fn get_source(relative: Option<&str>) -> (source: String)
    ensures
        source@ == source_of(
            match relative {
                Some(folder) => Some(folder@),
                None => None,
            },
        ),
{
    match relative {
        Some(folder) => {
            if is_whitespace_only(folder) {
                "None".to_owned()
            } else {
                let name = sanitize_file_name(folder);
                first_segment_of(name.as_str())
            }
        },
        None => "None".to_owned(),
    }
}

/// Whether `name` starts with a dot: the mark of a hidden file or folder.
pub fn starts_with_dot(name: &str) -> (b: bool)
    ensures
        b == (name@.len() > 0 && name@[0] == '.'),
{
    let chars = chars_of(name);
    chars.len() > 0 && chars[0] == '.'
}

/// Whether a file with the name `name` is hidden; a file without a name that
/// is text is not.
pub fn is_hidden_file(name: Option<&str>) -> (b: bool)
    ensures
        b == match name {
            Some(n) => n@.len() > 0 && n@[0] == '.',
            None => false,
        },
{
    match name {
        Some(n) => starts_with_dot(n),
        None => false,
    }
}

/// Whether a file lies in a hidden folder, told from the folder it was found
/// in, relative to the folder that is watched.
pub fn is_in_hidden_path(relative: Option<&str>) -> (b: bool)
    ensures
        b == ({
            let source = source_of(
                match relative {
                    Some(folder) => Some(folder@),
                    None => None,
                },
            );
            source.len() > 0 && source[0] == '.'
        }),
{
    let source = get_source(relative);
    starts_with_dot(source.as_str())
}

/// Whether two lists hold the same texts in the same order.
pub fn same_texts(a: &Vec<String>, b: &Vec<String>) -> (same: bool)
    ensures
        same == (texts_view(a@) == texts_view(b@)),
{
    if a.len() != b.len() {
        assert(texts_view(a@).len() != texts_view(b@).len());
        return false;
    }
    let mut i: usize = 0;
    while i < a.len()
        invariant
            i <= a.len(),
            a.len() == b.len(),
            forall|j: int| 0 <= j < i ==> a@[j]@ == b@[j]@,
        decreases a.len() - i,
    {
        if a[i] != b[i] {
            assert(texts_view(a@)[i as int] != texts_view(b@)[i as int]);
            return false;
        }
        i += 1;
    }
    assert(texts_view(a@) =~= texts_view(b@));
    true
}

/// Whether the tags by which a track is filed are the same in two readings of
/// the track: title, album, artist, number and album artists.
pub open spec fn same_filing(saved: Track, read: Track) -> bool {
    &&& saved.title@ == read.title@
    &&& saved.album@ == read.album@
    &&& saved.artist@ == read.artist@
    &&& saved.track_number == read.track_number
    &&& texts_view(saved.album_artists@) == texts_view(read.album_artists@)
}

/// Whether a track has to be moved: whether one of the tags by which it is
/// filed differs between the track as it was saved and as it is read now.
pub fn track_warrants_move(track_as_saved: &Track, track_as_read: &Track) -> (moves: bool)
    ensures
        moves == !same_filing(*track_as_saved, *track_as_read),
{
    !(track_as_saved.title == track_as_read.title && track_as_saved.album == track_as_read.album
        && track_as_saved.artist == track_as_read.artist && track_as_saved.track_number
        == track_as_read.track_number && same_texts(
        &track_as_saved.album_artists,
        &track_as_read.album_artists,
    ))
}

} // verus!
