//! What is known of a track, and from where.
use vstd::prelude::*;

use crate::musicbrainz::TrackMetadata;

verus! {

/// What the tags of a file say.
#[derive(Debug)]
pub struct FileTagMetadata {
    pub track_title: String,
    pub track_number: Option<i32>,
    pub album_title: String,
    pub album_year: Option<i32>,
    pub track_artists: Vec<String>,
    pub album_artists: Vec<String>,
}

/// Where what is known of a track comes from.
#[derive(Debug)]
pub enum ResolvedTrackMetadata {
    MusicBrainz(TrackMetadata),
    ExistingFile(FileTagMetadata),
}

} // verus!
