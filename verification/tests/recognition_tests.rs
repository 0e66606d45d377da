use tunetagger::errors::TuneTaggerError;
use tunetagger::songrec::{identity_from_recognition, map_songrec_error, SongRecFailure};

#[test]
fn maps_empty_match_response_to_no_match() {
    let error = map_songrec_error(SongRecFailure::NetworkError(
        "No track found in response".to_owned(),
    ));

    assert!(matches!(error, TuneTaggerError::RecognitionNoMatch(_)));
    assert!(!error.message().contains("Network error"));
}

#[test]
fn preserves_actual_network_failures() {
    let error = map_songrec_error(SongRecFailure::NetworkError(
        "connection timed out".to_owned(),
    ));

    assert!(matches!(error, TuneTaggerError::Network(_)));
    assert!(error.message().contains("connection timed out"));
}

#[test]
fn distinguishes_audio_and_fingerprinting_failures() {
    let audio = map_songrec_error(SongRecFailure::AudioError("bad stream".to_owned()));
    let fingerprint =
        map_songrec_error(SongRecFailure::FingerprintingError("too short".to_owned()));

    assert!(matches!(audio, TuneTaggerError::RecognitionAudio(_)));
    assert!(matches!(
        fingerprint,
        TuneTaggerError::RecognitionFingerprint(_)
    ));
}

#[test]
fn no_match_is_recognized_in_any_ascii_case() {
    let error = map_songrec_error(SongRecFailure::NetworkError(
        "no TRACK found in Response".to_owned(),
    ));
    match error {
        TuneTaggerError::RecognitionNoMatch(text) => {
            assert_eq!(text, "the recognition service returned no matching track")
        }
        other => panic!("unexpected {:?}", other),
    }
}

#[test]
fn service_and_input_failures_are_classified() {
    let bad = map_songrec_error(SongRecFailure::NetworkError(
        "Invalid Response Format: missing matches".to_owned(),
    ));
    assert!(matches!(bad, TuneTaggerError::RecognitionService(_)));
    let config = map_songrec_error(SongRecFailure::ConfigError("no key".to_owned()));
    assert!(matches!(config, TuneTaggerError::RecognitionService(_)));
    let input = map_songrec_error(SongRecFailure::InvalidInput("empty path".to_owned()));
    assert_eq!(input.message(), "validation failed: empty path");
}

#[test]
fn error_messages() {
    assert_eq!(TuneTaggerError::Network("x".into()).message(), "network error: x");
    assert_eq!(TuneTaggerError::Io("gone".into()).message(), "I/O error: gone");
    assert_eq!(
        TuneTaggerError::Metadata("none".into()).message(),
        "metadata lookup failed: none"
    );
}

#[test]
fn recognition_result_becomes_an_identity() {
    let id = identity_from_recognition("No Controles".into(), "Flans".into(), Some("Flans".into()));
    assert_eq!(id.title, "No Controles");
    assert_eq!(id.artist, "Flans");
    assert_eq!(id.album.as_deref(), Some("Flans"));
    assert!(id.album_artist.is_none() && id.duration_ms.is_none() && id.isrc.is_none());
}
