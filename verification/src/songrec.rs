//! Recognition results and failures, and how they are classified.

use vstd::prelude::*;
use crate::errors::TuneTaggerError;
use crate::model::TrackIdentity;
use crate::text::{ascii_lowercase, ascii_lowercase_chars, chars_eq, chars_of, contains, contains_chars};

verus! {

/// Why recognizing a file failed, as the recognizer reports it.
#[derive(Clone, Debug)]
pub enum SongRecFailure {
    AudioError(String),
    NetworkError(String),
    FingerprintingError(String),
    InvalidInput(String),
    ConfigError(String),
}

/// The recognizer's "nothing found" answer, compared ignoring ASCII case.
pub open spec fn is_no_match_message(m: Seq<char>) -> bool {
    ascii_lowercase(m) == ascii_lowercase("No track found in response"@)
}

/// Classifies a recognition failure: an empty match is "no match" rather
/// than a network error; a malformed service answer and a configuration
/// problem are service errors; other network failures stay network errors;
/// audio, fingerprinting and input failures keep their kind.
pub fn map_songrec_error(error: SongRecFailure) -> (r: TuneTaggerError)
    ensures
        match error {
            SongRecFailure::NetworkError(m) => if is_no_match_message(m@) {
                r matches TuneTaggerError::RecognitionNoMatch(t)
                    && t@ == "the recognition service returned no matching track"@
            } else if contains(ascii_lowercase(m@), "invalid response format"@) {
                r == TuneTaggerError::RecognitionService(m)
            } else {
                r == TuneTaggerError::Network(m)
            },
            SongRecFailure::AudioError(m) => r == TuneTaggerError::RecognitionAudio(m),
            SongRecFailure::FingerprintingError(m) => r == TuneTaggerError::RecognitionFingerprint(
                m,
            ),
            SongRecFailure::InvalidInput(m) => r == TuneTaggerError::Validation(m),
            SongRecFailure::ConfigError(m) => r == TuneTaggerError::RecognitionService(m),
        },
{
    match error {
        SongRecFailure::NetworkError(m) => {
            let mc = chars_of(m.as_str());
            let ml = ascii_lowercase_chars(&mc);
            let nm = chars_of("No track found in response");
            let nml = ascii_lowercase_chars(&nm);
            if chars_eq(&ml, &nml) {
                let mut t = String::new();
                t.append("the recognition service returned no matching track");
                TuneTaggerError::RecognitionNoMatch(t)
            } else {
                let pat = chars_of("invalid response format");
                if contains_chars(&ml, &pat) {
                    TuneTaggerError::RecognitionService(m)
                } else {
                    TuneTaggerError::Network(m)
                }
            }
        },
        SongRecFailure::AudioError(m) => TuneTaggerError::RecognitionAudio(m),
        SongRecFailure::FingerprintingError(m) => TuneTaggerError::RecognitionFingerprint(m),
        SongRecFailure::InvalidInput(m) => TuneTaggerError::Validation(m),
        SongRecFailure::ConfigError(m) => TuneTaggerError::RecognitionService(m),
    }
}

/// The identity a recognition result stands for: its song, artist and
/// album; album artist, duration and ISRC are not reported.
pub fn identity_from_recognition(
    song_name: String,
    artist_name: String,
    album_name: Option<String>,
) -> (r: TrackIdentity)
    ensures
        r.title == song_name,
        r.artist == artist_name,
        r.album == album_name,
        r.album_artist is None,
        r.duration_ms is None,
        r.isrc is None,
{
    TrackIdentity {
        title: song_name,
        artist: artist_name,
        album: album_name,
        album_artist: None,
        duration_ms: None,
        isrc: None,
    }
}


/// The recognizer that identifies recordings from their audio.
#[derive(Clone, Copy, Debug)]
pub struct SongRecRecognizer;

impl Default for SongRecRecognizer {
    fn default() -> (r: SongRecRecognizer)
        ensures
            r == SongRecRecognizer,
    {
        SongRecRecognizer
    }
}

} // verus!
