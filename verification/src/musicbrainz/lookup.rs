//! Putting together what MusicBrainz knows of a track.
use vstd::prelude::*;

use super::error::Error;
use super::{Artist, TrackMetadata};
use crate::text::{parse_number, split_chars, str_eq, to_chars};
use crate::time::Duration;

verus! {

/// An artist to whom something is credited.
#[derive(Debug)]
pub struct Credit {
    pub name: String,
    pub artist_id: String,
}

/// A recording as MusicBrainz describes it.
#[derive(Debug)]
pub struct RecordingInfo {
    pub title: String,
    pub artist_credit: Option<Vec<Credit>>,
    /// The identifiers of the releases it is on.
    pub releases: Option<Vec<String>>,
}

/// What a release is an edition of.
#[derive(Debug)]
pub struct ReleaseGroupInfo {
    pub id: String,
    pub title: String,
    pub artist_credit: Option<Vec<Credit>>,
}

/// A track of a disc.
#[derive(Debug)]
pub struct TrackInfo {
    pub position: u32,
    pub recording_id: Option<String>,
}

/// A disc.
#[derive(Debug)]
pub struct MediumInfo {
    pub tracks: Option<Vec<TrackInfo>>,
}

/// A release as MusicBrainz describes it.
#[derive(Debug)]
pub struct ReleaseInfo {
    pub id: String,
    pub title: String,
    pub date: Option<String>,
    pub release_group: Option<ReleaseGroupInfo>,
    pub media: Option<Vec<MediumInfo>>,
}

/// The first release that a recording is on; an error where it is on none.
pub fn choose_release(recording: &RecordingInfo) -> (r: Result<String, Error>)
    ensures
        match r {
            Ok(id) => {
                &&& recording.releases matches Some(releases)
                &&& releases@.len() > 0
                &&& id == releases@[0]
            },
            Err(e) => {
                &&& e == Error::MusicBrainzNoReleases
                &&& match recording.releases {
                    Some(releases) => releases@.len() == 0,
                    None => true,
                }
            },
        },
{
    match &recording.releases {
        Some(releases) => if releases.len() > 0 {
            Ok(releases[0].clone())
        } else {
            Err(Error::MusicBrainzNoReleases)
        },
        None => Err(Error::MusicBrainzNoReleases),
    }
}

/// The artists to whom something is credited.
pub open spec fn credited(credit: Option<Vec<Credit>>) -> Seq<Artist> {
    match credit {
        Some(credits) => credits@.map_values(
            |c: Credit| Artist { name: c.name, musicbrainz_id: Some(c.artist_id) },
        ),
        None => Seq::empty(),
    }
}

fn artists_of(credit: &Option<Vec<Credit>>) -> (r: Vec<Artist>)
    ensures
        r@ == credited(*credit),
{
    let mut out: Vec<Artist> = Vec::new();
    match credit {
        Some(credits) => {
            let ghost made = |c: Credit| Artist { name: c.name, musicbrainz_id: Some(c.artist_id) };
            let mut i: usize = 0;
            assert(out@ =~= credits@.take(0).map_values(made));
            while i < credits.len()
                invariant
                    i <= credits@.len(),
                    made == (|c: Credit|
                        Artist { name: c.name, musicbrainz_id: Some(c.artist_id) }),
                    out@ == credits@.take(i as int).map_values(made),
                decreases credits@.len() - i,
            {
                out.push(
                    Artist {
                        name: credits[i].name.clone(),
                        musicbrainz_id: Some(credits[i].artist_id.clone()),
                    },
                );
                i += 1;
                assert(out@ =~= credits@.take(i as int).map_values(made));
            }
            assert(credits@.take(i as int) =~= credits@);
        },
        None => {},
    }
    assert(out@ =~= credited(*credit));
    out
}

/// The year of a date that starts with it.
pub open spec fn year_of(date: Seq<char>) -> Option<i32> {
    match crate::text::number_value(crate::text::split_on(date, '-')[0], i32::MAX as nat) {
        Ok(n) => Some(n as i32),
        Err(_) => None,
    }
}

fn parse_year(date: &str) -> (r: Option<i32>)
    ensures
        r == year_of(date@),
{
    let parts = split_chars(&to_chars(date), '-');
    assert(crate::text::parts_view(parts@)[0] == parts@[0]@);
    match parse_number(&parts[0], 0x7fff_ffff) {
        Ok(n) => {
            proof {
                crate::text::lemma_number_bounded(parts@[0]@, 0x7fff_ffff);
            }
            Some(n as i32)
        },
        Err(_) => None,
    }
}

/// The track plays the recording.
pub open spec fn plays(recording_id: Seq<char>) -> spec_fn(TrackInfo) -> bool {
    |t: TrackInfo| t.recording_id matches Some(id) && id@ == recording_id
}

/// The tracks of a disc.
pub open spec fn tracks_of(medium: MediumInfo) -> Seq<TrackInfo> {
    match medium.tracks {
        Some(tracks) => tracks@,
        None => Seq::empty(),
    }
}

/// The place of a recording counted over all discs: its place on the first disc
/// that has it, after the tracks of the discs before.
pub open spec fn place_in(media: Seq<MediumInfo>, recording_id: Seq<char>) -> Option<int>
    decreases media.len(),
{
    if media.len() == 0 {
        None
    } else {
        let tracks = tracks_of(media[0]);
        match crate::lists::first_where(tracks, plays(recording_id)) {
            Some(i) => Some(tracks[i].position as int),
            None => match place_in(media.skip(1), recording_id) {
                Some(place) => Some(tracks.len() + place),
                None => None,
            },
        }
    }
}

/// The place of a recording on a release, as a track number. It wraps where it
/// does not fit.
pub open spec fn track_number_of(media: Option<Vec<MediumInfo>>, recording_id: Seq<char>) -> Option<
    i32,
> {
    match media {
        Some(media) => match place_in(media@, recording_id) {
            Some(place) => Some((place % 0x1_0000_0000) as u32 as i32),
            None => None,
        },
        None => None,
    }
}

fn position_of(tracks: &Vec<TrackInfo>, recording_id: &str) -> (r: Option<usize>)
    ensures
        match r {
            Some(i) => {
                &&& i < tracks@.len()
                &&& crate::lists::first_where(tracks@, plays(recording_id@)) == Some(i as int)
            },
            None => crate::lists::first_where(tracks@, plays(recording_id@)) is None,
        },
{
    let ghost p = plays(recording_id@);
    let mut i: usize = 0;
    while i < tracks.len()
        invariant
            i <= tracks@.len(),
            p == plays(recording_id@),
            forall|j: int| 0 <= j < i ==> !p(#[trigger] tracks@[j]),
        decreases tracks@.len() - i,
    {
        let found: bool = match &tracks[i].recording_id {
            Some(id) => str_eq(id.as_str(), recording_id),
            None => false,
        };
        if found {
            proof {
                crate::lists::lemma_first_where_is(tracks@, p, i as int);
            }
            return Some(i);
        }
        i += 1;
    }
    proof {
        crate::lists::lemma_first_where_none(tracks@, p);
    }
    None
}

fn find_track_number(media: &Option<Vec<MediumInfo>>, recording_id: &str) -> (r: Option<i32>)
    ensures
        r == track_number_of(*media, recording_id@),
{
    match media {
        Some(discs) => {
            let ghost all = discs@;
            let ghost id = recording_id@;
            let mut offset: u32 = 0;
            let ghost mut sum: nat = 0;
            let mut k: usize = 0;
            assert(all.skip(0) =~= all);
            while k < discs.len()
                invariant
                    k <= discs@.len(),
                    *media == Some(*discs),
                    all == discs@,
                    id == recording_id@,
                    offset == sum % 0x1_0000_0000,
                    place_in(all, id) == match place_in(all.skip(k as int), id) {
                        Some(place) => Some(sum + place),
                        None => None,
                    },
                decreases discs@.len() - k,
            {
                let ghost rest = all.skip(k as int);
                assert(rest.skip(1) =~= all.skip(k + 1));
                assert(rest[0] == all[k as int]);
                match &discs[k].tracks {
                    Some(tracks) => {
                        match position_of(tracks, recording_id) {
                            Some(i) => {
                                let n: u32 = offset.wrapping_add(tracks[i].position);
                                proof {
                                    let place = sum + tracks@[i as int].position;
                                    assert(place_in(all, id) == Some(place));
                                    assert(n == place % 0x1_0000_0000);
                                    assert((place % 0x1_0000_0000) as u32 == n);
                                }
                                return Some(#[verifier::truncate] (n as i32));
                            },
                            None => {
                                let len: usize = tracks.len();
                                let low: u32 = (len as u64 % 0x1_0000_0000) as u32;
                                offset = offset.wrapping_add(low);
                                proof {
                                    sum = sum + tracks@.len();
                                }
                            },
                        }
                    },
                    None => {
                        proof {
                            crate::lists::lemma_first_where_none(
                                Seq::<TrackInfo>::empty(),
                                plays(id),
                            );
                        }
                    },
                }
                k += 1;
            }
            None
        },
        None => None,
    }
}

/// What is known of a track is put together from what MusicBrainz says of it.
pub open spec fn is_assembled(
    r: TrackMetadata,
    sha256: String,
    duration_secs: u32,
    recording_id: String,
    recording: RecordingInfo,
    release: ReleaseInfo,
) -> bool {
    &&& r.sha256 == sha256
    &&& r.track_title == recording.title
    &&& Some(r.track_number) == track_number_of(release.media, recording_id@)
    &&& r.duration@ == duration_secs * 1_000_000_000
    &&& r.track_musicbrainz_id == Some(recording_id)
    &&& r.release_mbid == release.id
    &&& r.album_title == match release.release_group {
        Some(group) => group.title,
        None => release.title,
    }
    &&& r.album_musicbrainz_id == match release.release_group {
        Some(group) => Some(group.id),
        None => None,
    }
    &&& r.album_year == match release.date {
        Some(date) => year_of(date@),
        None => None,
    }
    &&& r.track_artists@ == credited(recording.artist_credit)
    &&& r.album_artists@ == match release.release_group {
        Some(group) => credited(group.artist_credit),
        None => Seq::empty(),
    }
}

/// Put together what is known of a track; an error where the release does not
/// have the recording.
pub fn lookup_track(
    sha256: String,
    duration_secs: u32,
    recording_id: String,
    recording: RecordingInfo,
    release: ReleaseInfo,
) -> (r: Result<TrackMetadata, Error>)
    ensures
        match r {
            Ok(meta) => is_assembled(
                meta,
                sha256,
                duration_secs,
                recording_id,
                recording,
                release,
            ),
            Err(e) => {
                &&& track_number_of(release.media, recording_id@) is None
                &&& e == Error::MusicBrainzNoTrackNumber
            },
        },
{
    let track_artists = artists_of(&recording.artist_credit);
    let album_artists = match &release.release_group {
        Some(group) => artists_of(&group.artist_credit),
        None => Vec::new(),
    };
    let album_year = match &release.date {
        Some(date) => parse_year(date.as_str()),
        None => None,
    };
    let track_number: i32 = match find_track_number(&release.media, recording_id.as_str()) {
        Some(n) => n,
        None => {
            return Err(Error::MusicBrainzNoTrackNumber);
        },
    };
    let (album_title, album_musicbrainz_id) = match release.release_group {
        Some(group) => (group.title, Some(group.id)),
        None => (release.title, None),
    };
    Ok(
        TrackMetadata {
            sha256,
            track_title: recording.title,
            track_number,
            duration: Duration::from_secs(duration_secs as u64),
            track_musicbrainz_id: Some(recording_id),
            release_mbid: release.id,
            album_title,
            album_musicbrainz_id,
            album_year,
            track_artists,
            album_artists,
        },
    )
}

/// Discs that come after one that has the recording do not change its number.
pub proof fn lemma_later_discs_do_not_matter(
    media: Seq<MediumInfo>,
    more: Seq<MediumInfo>,
    recording_id: Seq<char>,
)
    requires
        place_in(media, recording_id) is Some,
    ensures
        place_in(media + more, recording_id) == place_in(media, recording_id),
    decreases media.len(),
{
    assert((media + more)[0] == media[0]);
    if crate::lists::first_where(tracks_of(media[0]), plays(recording_id)) is None {
        assert((media + more).skip(1) =~= media.skip(1) + more);
        lemma_later_discs_do_not_matter(media.skip(1), more, recording_id);
    }
}

/// A disc in front that does not have the recording adds the number of its tracks
/// to its place.
pub proof fn lemma_earlier_disc_shifts(
    disc: MediumInfo,
    media: Seq<MediumInfo>,
    recording_id: Seq<char>,
)
    requires
        crate::lists::first_where(tracks_of(disc), plays(recording_id)) is None,
        place_in(media, recording_id) is Some,
    ensures
        place_in(seq![disc] + media, recording_id) == Some(
            tracks_of(disc).len() + place_in(media, recording_id)->0,
        ),
{
    let all = seq![disc] + media;
    assert(all[0] == disc);
    assert(all.skip(1) =~= media);
}

} // verus!
