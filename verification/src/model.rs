//! The records that flow through identification, lookup and tagging.

use vstd::prelude::*;

verus! {

/// An MP3 file found by a scan.
#[derive(Clone, Debug)]
pub struct AudioFile {
    pub path: String,
    pub size_bytes: u64,
    pub extension: String,
}

/// What audio recognition says a recording is.
#[derive(Clone, Debug)]
pub struct TrackIdentity {
    pub title: String,
    pub artist: String,
    pub album: Option<String>,
    pub album_artist: Option<String>,
    pub duration_ms: Option<u64>,
    pub isrc: Option<String>,
}

/// Where a metadata candidate came from.
#[derive(Clone, Copy, Debug, PartialEq, Eq, Structural)]
pub enum MetadataSource {
    SongRec,
    Apple,
    MusicBrainz,
    Manual,
}

/// One metadata record proposed for a recording. `confidence` is its match
/// score in points (0 to 100; see `scoring`).
#[derive(Clone, Debug)]
pub struct MetadataCandidate {
    pub source: MetadataSource,
    pub title: String,
    pub artist: String,
    pub album: Option<String>,
    pub album_artist: Option<String>,
    pub track_number: Option<u16>,
    pub track_total: Option<u16>,
    pub disc_number: Option<u16>,
    pub disc_total: Option<u16>,
    pub release_date: Option<String>,
    pub genre: Option<String>,
    pub composer: Option<String>,
    pub explicit: Option<bool>,
    pub artwork_url: Option<String>,
    pub duration_ms: Option<u64>,
    pub confidence: u32,
}

/// The tags a file already carries.
#[derive(Clone, Debug)]
pub struct ExistingTags {
    pub title: Option<String>,
    pub artist: Option<String>,
    pub album: Option<String>,
    pub album_artist: Option<String>,
    pub composer: Option<String>,
    pub genre: Option<String>,
    pub release_date: Option<String>,
    pub track_number: Option<u16>,
    pub disc_number: Option<u16>,
    pub has_artwork: bool,
    pub has_lyrics: bool,
}

/// Lyrics to embed.
#[derive(Clone, Debug)]
pub struct Lyrics {
    pub language: String,
    pub description: Option<String>,
    pub text: String,
}

/// The tags decided for a file.
#[derive(Clone, Debug)]
pub struct ResolvedTags {
    pub title: String,
    pub artist: String,
    pub album: Option<String>,
    pub album_artist: Option<String>,
    pub track_number: Option<u16>,
    pub track_total: Option<u16>,
    pub disc_number: Option<u16>,
    pub disc_total: Option<u16>,
    pub release_date: Option<String>,
    pub genre: Option<String>,
    pub composer: Option<String>,
    pub sort_artist: Option<String>,
    pub sort_album: Option<String>,
    pub sort_album_artist: Option<String>,
    pub lyrics: Option<Lyrics>,
}

/// How far the processing of a file got.
#[derive(Clone, Copy, Debug, PartialEq, Eq, Structural)]
pub enum ProcessingStatus {
    Pending,
    Recognized,
    Matched,
    Tagged,
    NeedsReview,
    Failed,
}

/// The audit record kept for one processed file.
#[derive(Clone, Debug)]
pub struct ProcessingAudit {
    pub source_path: String,
    pub output_path: Option<String>,
    pub identity: Option<TrackIdentity>,
    pub selected_candidate: Option<MetadataCandidate>,
    pub proposed_tags: Option<ResolvedTags>,
    pub status: ProcessingStatus,
    pub messages: Vec<String>,
}

/// Lyrics read from a text file, in the given language, without a
/// description.
pub fn lyrics_from_text(language: String, text: String) -> (r: Lyrics)
    ensures
        r.language == language,
        r.description is None,
        r.text == text,
{
    Lyrics { language, description: None, text }
}

} // verus!
