//! Identifying a track: by its fingerprint with AcoustID, and from there with
//! MusicBrainz.
use vstd::prelude::*;

use crate::time::Duration;

pub mod acoustid;
pub mod chromaprint;
pub mod error;
pub mod file_hash;
pub mod identify_laws;
pub mod lookup;
pub mod lookup_laws;

verus! {

/// An artist, with the identifier that MusicBrainz gives it where it is known.
#[derive(Debug)]
pub struct Artist {
    pub name: String,
    pub musicbrainz_id: Option<String>,
}

/// What is known of a track.
#[derive(Debug)]
pub struct TrackMetadata {
    pub sha256: String,
    pub track_title: String,
    pub track_number: i32,
    pub duration: Duration,
    pub track_musicbrainz_id: Option<String>,
    pub release_mbid: String,
    pub album_title: String,
    pub album_musicbrainz_id: Option<String>,
    pub album_year: Option<i32>,
    pub track_artists: Vec<Artist>,
    pub album_artists: Vec<Artist>,
}

} // verus!
