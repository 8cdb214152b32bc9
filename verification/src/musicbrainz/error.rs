//! Why a track could not be identified.
use vstd::prelude::*;

use crate::text::{append_str, NumberError};

verus! {

/// Why a track could not be identified; a text says what another program or a
/// service reported.
#[derive(Debug)]
pub enum Error {
    FpcalcNotFound,
    FpcalcFailed(String),
    FpcalcOutputEncoding(String),
    FpcalcMissingDuration,
    FpcalcBadDuration(NumberError),
    FpcalcMissingFingerprint,
    Sha256(String),
    AcoustId(String),
    AcoustIdNoResults,
    AcoustIdNoRecordings,
    MusicBrainz(String),
    MusicBrainzNoReleases,
    MusicBrainzNoTrackNumber,
}

/// The words for why a text is no number.
pub open spec fn number_error_words(e: NumberError) -> Seq<char> {
    match e {
        NumberError::Empty => "cannot parse integer from empty string"@,
        NumberError::InvalidDigit => "invalid digit found in string"@,
        NumberError::TooLarge => "number too large to fit in target type"@,
    }
}

/// The words that describe an error.
pub open spec fn error_words(e: Error) -> Seq<char> {
    match e {
        Error::FpcalcNotFound =>
            "fpcalc not found in PATH \u{2014} install Chromaprint and ensure fpcalc is available"@,
        Error::FpcalcFailed(s) => "fpcalc failed: "@ + s@,
        Error::FpcalcOutputEncoding(s) => "fpcalc output was not valid UTF-8: "@ + s@,
        Error::FpcalcMissingDuration => "fpcalc output missing DURATION field"@,
        Error::FpcalcBadDuration(n) => "fpcalc DURATION value could not be parsed: "@
            + number_error_words(n),
        Error::FpcalcMissingFingerprint => "fpcalc output missing FINGERPRINT field"@,
        Error::Sha256(s) => "failed to compute SHA-256: "@ + s@,
        Error::AcoustId(s) => "AcoustID request failed: "@ + s@,
        Error::AcoustIdNoResults => "AcoustID returned no results"@,
        Error::AcoustIdNoRecordings => "AcoustID results contained no recordings"@,
        Error::MusicBrainz(s) => "MusicBrainz request failed: "@ + s@,
        Error::MusicBrainzNoReleases => "MusicBrainz recording has no releases"@,
        Error::MusicBrainzNoTrackNumber => "track number not found in MusicBrainz release"@,
    }
}

impl Error {
    /// The error in words.
    pub fn message(&self) -> (r: String)
        ensures
            r@ == error_words(*self),
    {
        match self {
            Error::FpcalcNotFound =>
                "fpcalc not found in PATH \u{2014} install Chromaprint and ensure fpcalc is available".to_owned(),
            Error::FpcalcFailed(s) => append_str("fpcalc failed: ", s.as_str()),
            Error::FpcalcOutputEncoding(s) => append_str(
                "fpcalc output was not valid UTF-8: ",
                s.as_str(),
            ),
            Error::FpcalcMissingDuration => "fpcalc output missing DURATION field".to_owned(),
            Error::FpcalcBadDuration(n) => append_str(
                "fpcalc DURATION value could not be parsed: ",
                n.message(),
            ),
            Error::FpcalcMissingFingerprint => "fpcalc output missing FINGERPRINT field".to_owned(),
            Error::Sha256(s) => append_str("failed to compute SHA-256: ", s.as_str()),
            Error::AcoustId(s) => append_str("AcoustID request failed: ", s.as_str()),
            Error::AcoustIdNoResults => "AcoustID returned no results".to_owned(),
            Error::AcoustIdNoRecordings => "AcoustID results contained no recordings".to_owned(),
            Error::MusicBrainz(s) => append_str("MusicBrainz request failed: ", s.as_str()),
            Error::MusicBrainzNoReleases => "MusicBrainz recording has no releases".to_owned(),
            Error::MusicBrainzNoTrackNumber =>
                "track number not found in MusicBrainz release".to_owned(),
        }
    }
}

} // verus!
