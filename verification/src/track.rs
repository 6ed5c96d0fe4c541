//! Tracks and their file types.

use crate::error::Error;
use crate::text::{chars_of, is_ascii_char, spells};
use vstd::prelude::*;

verus! {

/// The file type of a track. Lossless formats are told apart by their bit
/// depth, lossy ones are not.
///
/// Each format with several bit depths is a family. Its members have
/// consecutive codes, the last of which belongs to the family's root: the
/// member that leaves the bit depth open.
#[derive(Debug, Clone, Copy, PartialEq, Eq, Structural)]
pub enum TrackFileType {
    /// An unknown file type.
    Unknown,
    /// FLAC with 4 bits per sample.
    FLAC4,
    /// FLAC with 8 bits per sample.
    FLAC8,
    /// FLAC with 16 bits per sample.
    FLAC16,
    /// FLAC with 24 bits per sample.
    FLAC24,
    /// FLAC with 32 bits per sample.
    FLAC32,
    /// FLAC of any bit depth.
    FLAC,
    /// MP3 with a constant bit rate.
    MP3CBR,
    /// MP3 with a variable bit rate.
    MP3VBR,
    /// AAC.
    AAC,
    /// Vorbis.
    Vorbis,
    /// Opus.
    Opus,
    /// ALAC with 16 bits per sample.
    ALAC16,
    /// ALAC with 24 bits per sample.
    ALAC24,
    /// ALAC of any bit depth.
    ALAC,
    /// AIFF with 4 bits per sample.
    AIFF4,
    /// AIFF with 8 bits per sample.
    AIFF8,
    /// AIFF with 16 bits per sample.
    AIFF16,
    /// AIFF with 24 bits per sample.
    AIFF24,
    /// AIFF with 32 bits per sample.
    AIFF32,
    /// AIFF of any bit depth.
    AIFF,
    /// Monkey's Audio with 8 bits per sample.
    MonkeysAudio8,
    /// Monkey's Audio with 16 bits per sample.
    MonkeysAudio16,
    /// Monkey's Audio with 24 bits per sample.
    MonkeysAudio24,
    /// Monkey's Audio of any bit depth.
    MonkeysAudio,
    /// MP3 of either kind. No file has this type; it is there to be asked for.
    MP3,
}

/// The families of file types.
#[derive(Debug, Clone, Copy, PartialEq, Eq, Structural)]
pub enum Family {
    Flac,
    Alac,
    Aiff,
    MonkeysAudio,
    Mp3,
}

impl TrackFileType {
    /// The numeric code under which the file type is stored.
    pub open spec fn code(self) -> int {
        match self {
            TrackFileType::Unknown => 0,
            TrackFileType::FLAC4 => 1,
            TrackFileType::FLAC8 => 2,
            TrackFileType::FLAC16 => 3,
            TrackFileType::FLAC24 => 4,
            TrackFileType::FLAC32 => 5,
            TrackFileType::FLAC => 6,
            TrackFileType::MP3CBR => 7,
            TrackFileType::MP3VBR => 8,
            TrackFileType::AAC => 9,
            TrackFileType::Vorbis => 10,
            TrackFileType::Opus => 11,
            TrackFileType::ALAC16 => 12,
            TrackFileType::ALAC24 => 13,
            TrackFileType::ALAC => 14,
            TrackFileType::AIFF4 => 15,
            TrackFileType::AIFF8 => 16,
            TrackFileType::AIFF16 => 17,
            TrackFileType::AIFF24 => 18,
            TrackFileType::AIFF32 => 19,
            TrackFileType::AIFF => 20,
            TrackFileType::MonkeysAudio8 => 21,
            TrackFileType::MonkeysAudio16 => 22,
            TrackFileType::MonkeysAudio24 => 23,
            TrackFileType::MonkeysAudio => 24,
            TrackFileType::MP3 => 780,
        }
    }

    /// The family that a file type with a stored code belongs to, if any. The
    /// generic `MP3` is in no family: it has no stored code of its own.
    pub open spec fn family(self) -> Option<Family> {
        match self {
            TrackFileType::FLAC4
            | TrackFileType::FLAC8
            | TrackFileType::FLAC16
            | TrackFileType::FLAC24
            | TrackFileType::FLAC32
            | TrackFileType::FLAC => Some(Family::Flac),
            TrackFileType::ALAC16 | TrackFileType::ALAC24 | TrackFileType::ALAC => Some(
                Family::Alac,
            ),
            TrackFileType::AIFF4
            | TrackFileType::AIFF8
            | TrackFileType::AIFF16
            | TrackFileType::AIFF24
            | TrackFileType::AIFF32
            | TrackFileType::AIFF => Some(Family::Aiff),
            TrackFileType::MonkeysAudio8
            | TrackFileType::MonkeysAudio16
            | TrackFileType::MonkeysAudio24
            | TrackFileType::MonkeysAudio => Some(Family::MonkeysAudio),
            TrackFileType::MP3CBR | TrackFileType::MP3VBR => Some(Family::Mp3),
            _ => None,
        }
    }

    /// The family that a file type stands for as a whole, if it is a root.
    pub open spec fn root_of(self) -> Option<Family> {
        match self {
            TrackFileType::FLAC => Some(Family::Flac),
            TrackFileType::ALAC => Some(Family::Alac),
            TrackFileType::AIFF => Some(Family::Aiff),
            TrackFileType::MonkeysAudio => Some(Family::MonkeysAudio),
            TrackFileType::MP3 => Some(Family::Mp3),
            _ => None,
        }
    }

    /// The file type with the name `name`, which is in lower case; `Unknown` if
    /// no file type has that name.
    pub open spec fn named(name: Seq<char>) -> TrackFileType {
        if name == "flac"@ {
            TrackFileType::FLAC
        } else if name == "flac4"@ {
            TrackFileType::FLAC4
        } else if name == "flac8"@ {
            TrackFileType::FLAC8
        } else if name == "flac16"@ {
            TrackFileType::FLAC16
        } else if name == "flac24"@ {
            TrackFileType::FLAC24
        } else if name == "flac32"@ {
            TrackFileType::FLAC32
        } else if name == "alac"@ {
            TrackFileType::ALAC
        } else if name == "alac16"@ {
            TrackFileType::ALAC16
        } else if name == "alac24"@ {
            TrackFileType::ALAC24
        } else if name == "cbr"@ {
            TrackFileType::MP3CBR
        } else if name == "vbr"@ {
            TrackFileType::MP3VBR
        } else if name == "aac"@ {
            TrackFileType::AAC
        } else if name == "vorbis"@ {
            TrackFileType::Vorbis
        } else if name == "opus"@ {
            TrackFileType::Opus
        } else if name == "aiff"@ {
            TrackFileType::AIFF
        } else if name == "aiff4"@ {
            TrackFileType::AIFF4
        } else if name == "aiff8"@ {
            TrackFileType::AIFF8
        } else if name == "aiff16"@ {
            TrackFileType::AIFF16
        } else if name == "aiff24"@ {
            TrackFileType::AIFF24
        } else if name == "aiff32"@ {
            TrackFileType::AIFF32
        } else if name == "ape"@ {
            TrackFileType::MonkeysAudio
        } else if name == "ape8"@ {
            TrackFileType::MonkeysAudio8
        } else if name == "ape16"@ {
            TrackFileType::MonkeysAudio16
        } else if name == "ape24"@ {
            TrackFileType::MonkeysAudio24
        } else if name == "mp3"@ {
            TrackFileType::MP3
        } else {
            TrackFileType::Unknown
        }
    }

    /// The numeric code under which the file type is stored.
    pub fn value(&self) -> (code: i32)
        ensures
            code == self.code(),
    {
        match self {
            TrackFileType::Unknown => 0,
            TrackFileType::FLAC4 => 1,
            TrackFileType::FLAC8 => 2,
            TrackFileType::FLAC16 => 3,
            TrackFileType::FLAC24 => 4,
            TrackFileType::FLAC32 => 5,
            TrackFileType::FLAC => 6,
            TrackFileType::MP3CBR => 7,
            TrackFileType::MP3VBR => 8,
            TrackFileType::AAC => 9,
            TrackFileType::Vorbis => 10,
            TrackFileType::Opus => 11,
            TrackFileType::ALAC16 => 12,
            TrackFileType::ALAC24 => 13,
            TrackFileType::ALAC => 14,
            TrackFileType::AIFF4 => 15,
            TrackFileType::AIFF8 => 16,
            TrackFileType::AIFF16 => 17,
            TrackFileType::AIFF24 => 18,
            TrackFileType::AIFF32 => 19,
            TrackFileType::AIFF => 20,
            TrackFileType::MonkeysAudio8 => 21,
            TrackFileType::MonkeysAudio16 => 22,
            TrackFileType::MonkeysAudio24 => 23,
            TrackFileType::MonkeysAudio => 24,
            TrackFileType::MP3 => 780,
        }
    }

    /// The file type with the code `code`, if there is one.
    pub fn from_value(code: i32) -> (r: Option<TrackFileType>)
        ensures
            r matches Some(t) ==> t.code() == code,
            r is None ==> forall|t: TrackFileType| t.code() != code,
    {
        match code {
            0 => Some(TrackFileType::Unknown),
            1 => Some(TrackFileType::FLAC4),
            2 => Some(TrackFileType::FLAC8),
            3 => Some(TrackFileType::FLAC16),
            4 => Some(TrackFileType::FLAC24),
            5 => Some(TrackFileType::FLAC32),
            6 => Some(TrackFileType::FLAC),
            7 => Some(TrackFileType::MP3CBR),
            8 => Some(TrackFileType::MP3VBR),
            9 => Some(TrackFileType::AAC),
            10 => Some(TrackFileType::Vorbis),
            11 => Some(TrackFileType::Opus),
            12 => Some(TrackFileType::ALAC16),
            13 => Some(TrackFileType::ALAC24),
            14 => Some(TrackFileType::ALAC),
            15 => Some(TrackFileType::AIFF4),
            16 => Some(TrackFileType::AIFF8),
            17 => Some(TrackFileType::AIFF16),
            18 => Some(TrackFileType::AIFF24),
            19 => Some(TrackFileType::AIFF32),
            20 => Some(TrackFileType::AIFF),
            21 => Some(TrackFileType::MonkeysAudio8),
            22 => Some(TrackFileType::MonkeysAudio16),
            23 => Some(TrackFileType::MonkeysAudio24),
            24 => Some(TrackFileType::MonkeysAudio),
            780 => Some(TrackFileType::MP3),
            _ => None,
        }
    }

    /// The file type with the name `name`, which is in lower case; `Unknown` if
    /// no file type has that name.
    pub fn from_lowercase_name(name: &str) -> (t: TrackFileType)
        ensures
            t == TrackFileType::named(name@),
    {
        let chars = chars_of(name);
        if spells(&chars, "flac") {
            TrackFileType::FLAC
        } else if spells(&chars, "flac4") {
            TrackFileType::FLAC4
        } else if spells(&chars, "flac8") {
            TrackFileType::FLAC8
        } else if spells(&chars, "flac16") {
            TrackFileType::FLAC16
        } else if spells(&chars, "flac24") {
            TrackFileType::FLAC24
        } else if spells(&chars, "flac32") {
            TrackFileType::FLAC32
        } else if spells(&chars, "alac") {
            TrackFileType::ALAC
        } else if spells(&chars, "alac16") {
            TrackFileType::ALAC16
        } else if spells(&chars, "alac24") {
            TrackFileType::ALAC24
        } else if spells(&chars, "cbr") {
            TrackFileType::MP3CBR
        } else if spells(&chars, "vbr") {
            TrackFileType::MP3VBR
        } else if spells(&chars, "aac") {
            TrackFileType::AAC
        } else if spells(&chars, "vorbis") {
            TrackFileType::Vorbis
        } else if spells(&chars, "opus") {
            TrackFileType::Opus
        } else if spells(&chars, "aiff") {
            TrackFileType::AIFF
        } else if spells(&chars, "aiff4") {
            TrackFileType::AIFF4
        } else if spells(&chars, "aiff8") {
            TrackFileType::AIFF8
        } else if spells(&chars, "aiff16") {
            TrackFileType::AIFF16
        } else if spells(&chars, "aiff24") {
            TrackFileType::AIFF24
        } else if spells(&chars, "aiff32") {
            TrackFileType::AIFF32
        } else if spells(&chars, "ape") {
            TrackFileType::MonkeysAudio
        } else if spells(&chars, "ape8") {
            TrackFileType::MonkeysAudio8
        } else if spells(&chars, "ape16") {
            TrackFileType::MonkeysAudio16
        } else if spells(&chars, "ape24") {
            TrackFileType::MonkeysAudio24
        } else if spells(&chars, "mp3") {
            TrackFileType::MP3
        } else {
            TrackFileType::Unknown
        }
    }

    /// The file type with the name `name`, in whatever case it is written;
    /// `Unknown` if no file type has that name.
    pub fn from_name(name: &str) -> (t: TrackFileType)
        ensures
            t == TrackFileType::named(lowercase(name@)),
    {
        let lowered = to_lowercase(name);
        TrackFileType::from_lowercase_name(lowered.as_str())
    }
}

impl core::str::FromStr for TrackFileType {
    type Err = ();

    /// The file type with the name `s`, in whatever case it is written. The
    /// result is never an error: an unknown name gives `Unknown`.
    fn from_str(s: &str) -> (r: Result<TrackFileType, ()>)
        ensures
            r == Ok::<TrackFileType, ()>(TrackFileType::named(lowercase(s@))),
    {
        Ok(TrackFileType::from_name(s))
    }
}

/// The small letter of a capital letter of ASCII, and any other character
/// itself.
pub open spec fn ascii_lower(c: char) -> char {
    if 'A' <= c <= 'Z' {
        ((c as u32) + 32) as char
    } else {
        c
    }
}

/// Whether `text` holds characters of ASCII only.
pub open spec fn is_ascii_text(text: Seq<char>) -> bool {
    forall|i: int| 0 <= i < text.len() ==> is_ascii_char(#[trigger] text[i])
}

/// A text in lower case as Unicode has it.
pub uninterp spec fn unicode_lowercase(text: Seq<char>) -> Seq<char>;

/// The text in lower case: a text of ASCII with a small letter in place of
/// each capital, any other as Unicode has it.
pub open spec fn lowercase(text: Seq<char>) -> Seq<char> {
    if is_ascii_text(text) {
        Seq::new(text.len(), |i: int| ascii_lower(text[i]))
    } else {
        unicode_lowercase(text)
    }
}

/// `str::to_lowercase`. Trusted: the result is a function of the text alone,
/// and in a text of ASCII each capital letter gives way to its small letter
/// while everything else stays.
#[verifier::external_body]
pub(crate) fn to_lowercase(text: &str) -> (lowered: String)
    ensures
        lowered@ == lowercase(text@),
        !is_ascii_text(text@) ==> lowered@ == unicode_lowercase(text@),
{
    text.to_lowercase()
}

/// The lowest and the highest code of a family.
pub open spec fn family_range(family: Family) -> (int, int) {
    match family {
        Family::Flac => (1, 6),
        Family::Mp3 => (7, 8),
        Family::Alac => (12, 14),
        Family::Aiff => (15, 20),
        Family::MonkeysAudio => (21, 24),
    }
}

/// The codes of a family are exactly those of its range: a file type is in the
/// family if and only if its code lies between the family's lowest and highest.
pub proof fn lemma_family_codes_contiguous(family: Family, t: TrackFileType)
    ensures
        t.family() == Some(family) <==> family_range(family).0 <= t.code() <= family_range(
            family,
        ).1,
{
}

/// File types differ in their codes.
pub proof fn lemma_code_injective(a: TrackFileType, b: TrackFileType)
    ensures
        a.code() == b.code() ==> a == b,
{
}

/// A track of the library.
#[derive(Debug, Clone, PartialEq, Eq)]
pub struct Track {
    /// Where the file is.
    pub file_path: String,
    /// The type of the file.
    pub file_type: TrackFileType,
    /// The title.
    pub title: String,
    /// The artist.
    pub artist: String,
    /// The artists of the album.
    pub album_artists: Vec<String>,
    /// The title of the album.
    pub album: String,
    /// The year of release.
    pub year: i32,
    /// The number of the track on its disc.
    pub track_number: i32,
    /// The MusicBrainz identifier of the track, if it has one.
    pub musicbrainz_track_id: Option<String>,
    /// Whether the file holds a front cover.
    pub has_front_cover: bool,
    /// The height of the front cover in pixels.
    pub front_cover_height: i32,
    /// The width of the front cover in pixels.
    pub front_cover_width: i32,
    /// The bit rate.
    pub bitrate: i32,
    /// The sample rate.
    pub sample_rate: i32,
    /// Where the track came from.
    pub source: String,
    /// The number of the disc.
    pub disc_number: i32,
    /// The duration in milliseconds.
    pub duration: i32,
    /// The day of the last change, as year, month and day.
    pub updated: String,
}

/// The tag that a track must have and lacks: the first of title, artist, album
/// and album artists that is empty; `None` if the track has them all.
pub open spec fn missing_tag(track: Track) -> Option<Seq<char>> {
    if track.title@.len() == 0 {
        Some("Title"@)
    } else if track.artist@.len() == 0 {
        Some("Artist"@)
    } else if track.album@.len() == 0 {
        Some("Album"@)
    } else if track.album_artists@.len() == 0 {
        Some("AlbumArtists"@)
    } else {
        None
    }
}

/// Checks that a track has the tags that the library cannot do without.
pub fn check_required_tags(track: &Track) -> (r: Result<(), Error>)
    ensures
        match missing_tag(*track) {
            None => r is Ok,
            Some(tag) => r matches Err(e) && e@ == crate::error::ErrorView::MissingRequiredTag(
                track.file_path@,
                tag,
            ),
        },
{
    if track.title.as_str().is_empty() {
        Err(Error::MissingRequiredTag(track.file_path.clone(), "Title"))
    } else if track.artist.as_str().is_empty() {
        Err(Error::MissingRequiredTag(track.file_path.clone(), "Artist"))
    } else if track.album.as_str().is_empty() {
        Err(Error::MissingRequiredTag(track.file_path.clone(), "Album"))
    } else if track.album_artists.len() == 0 {
        Err(Error::MissingRequiredTag(track.file_path.clone(), "AlbumArtists"))
    } else {
        Ok(())
    }
}

} // verus!
