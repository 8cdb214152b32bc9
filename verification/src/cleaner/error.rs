//! What can go wrong when a collection is cleaned.
use vstd::prelude::*;

use crate::cover_art::CoverArtArchiveError;
use crate::musicbrainz::error::Error;
use crate::text::append_str;

verus! {

/// What went wrong; a text says what the system, a tag or the terminal reported.
#[derive(Debug)]
pub enum MusicCleanerError {
    Io(String),
    MusicBrainz(Error),
    CoverArt(CoverArtArchiveError),
    Tag(String),
    Template(String),
    Prompt(String),
}

/// The words that describe what went wrong.
pub open spec fn error_words(e: MusicCleanerError) -> Seq<char> {
    match e {
        MusicCleanerError::Io(s) => "I/O error: "@ + s@,
        MusicCleanerError::MusicBrainz(e) => "MusicBrainz lookup failed: "@
            + crate::musicbrainz::error::error_words(e),
        MusicCleanerError::CoverArt(e) => "Cover Art Archive error: "@
            + crate::cover_art::error_words(e),
        MusicCleanerError::Tag(s) => "Audio tag error: "@ + s@,
        MusicCleanerError::Template(s) => "Template rendering error: "@ + s@,
        MusicCleanerError::Prompt(s) => "Interactive prompt error: "@ + s@,
    }
}

impl MusicCleanerError {
    /// The error in words.
    pub fn message(&self) -> (r: String)
        ensures
            r@ == error_words(*self),
    {
        match self {
            MusicCleanerError::Io(s) => append_str("I/O error: ", s.as_str()),
            MusicCleanerError::MusicBrainz(e) => append_str(
                "MusicBrainz lookup failed: ",
                e.message().as_str(),
            ),
            MusicCleanerError::CoverArt(e) => append_str(
                "Cover Art Archive error: ",
                e.message().as_str(),
            ),
            MusicCleanerError::Tag(s) => append_str("Audio tag error: ", s.as_str()),
            MusicCleanerError::Template(s) => append_str("Template rendering error: ", s.as_str()),
            MusicCleanerError::Prompt(s) => append_str("Interactive prompt error: ", s.as_str()),
        }
    }
}

} // verus!
