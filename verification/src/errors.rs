//! The library's error type.

use vstd::prelude::*;

verus! {

/// What went wrong. Errors of outside libraries are kept as their message.
#[derive(Clone, Debug)]
pub enum TuneTaggerError {
    Io(String),
    WalkDir(String),
    ConfigParse(String),
    Recognition(String),
    /// The recognition service found no matching track.
    RecognitionNoMatch(String),
    /// The audio could not be decoded.
    RecognitionAudio(String),
    /// No fingerprint could be made from the audio.
    RecognitionFingerprint(String),
    /// The recognition service answered with something unusable.
    RecognitionService(String),
    /// A network connection failed.
    Network(String),
    Metadata(String),
    Tagging(String),
    UnsupportedFileType(String),
    Validation(String),
}

/// The text an error is shown as.
pub open spec fn error_message(e: TuneTaggerError) -> Seq<char> {
    match e {
        TuneTaggerError::Io(m) => "I/O error: "@ + m@,
        TuneTaggerError::WalkDir(m) => "directory walk error: "@ + m@,
        TuneTaggerError::ConfigParse(m) => "config parse error: "@ + m@,
        TuneTaggerError::Recognition(m) => "recognition failed: "@ + m@,
        TuneTaggerError::RecognitionNoMatch(m) => "recognition / no match: "@ + m@,
        TuneTaggerError::RecognitionAudio(m) => "recognition / audio decoding failed: "@ + m@,
        TuneTaggerError::RecognitionFingerprint(m) => "recognition / fingerprinting failed: "@ + m@,
        TuneTaggerError::RecognitionService(m) => "recognition / invalid service response: "@
            + m@,
        TuneTaggerError::Network(m) => "network error: "@ + m@,
        TuneTaggerError::Metadata(m) => "metadata lookup failed: "@ + m@,
        TuneTaggerError::Tagging(m) => "tagging failed: "@ + m@,
        TuneTaggerError::UnsupportedFileType(m) => "unsupported file type: "@ + m@,
        TuneTaggerError::Validation(m) => "validation failed: "@ + m@,
    }
}

fn labelled(label: &str, m: &String) -> (r: String)
    ensures
        r@ == label@ + m@,
{
    let mut s = String::new();
    s.append(label);
    s.append(m.as_str());
    s
}

impl TuneTaggerError {
    /// The text the error is shown as.
    pub fn message(&self) -> (r: String)
        ensures
            r@ == error_message(*self),
    {
        match self {
            TuneTaggerError::Io(m) => labelled("I/O error: ", m),
            TuneTaggerError::WalkDir(m) => labelled("directory walk error: ", m),
            TuneTaggerError::ConfigParse(m) => labelled("config parse error: ", m),
            TuneTaggerError::Recognition(m) => labelled("recognition failed: ", m),
            TuneTaggerError::RecognitionNoMatch(m) => labelled("recognition / no match: ", m),
            TuneTaggerError::RecognitionAudio(m) => labelled(
                "recognition / audio decoding failed: ",
                m,
            ),
            TuneTaggerError::RecognitionFingerprint(m) => labelled(
                "recognition / fingerprinting failed: ",
                m,
            ),
            TuneTaggerError::RecognitionService(m) => labelled(
                "recognition / invalid service response: ",
                m,
            ),
            TuneTaggerError::Network(m) => labelled("network error: ", m),
            TuneTaggerError::Metadata(m) => labelled("metadata lookup failed: ", m),
            TuneTaggerError::Tagging(m) => labelled("tagging failed: ", m),
            TuneTaggerError::UnsupportedFileType(m) => labelled("unsupported file type: ", m),
            TuneTaggerError::Validation(m) => labelled("validation failed: ", m),
        }
    }
}

} // verus!
