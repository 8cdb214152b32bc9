//! What is asked to identify a track, and what is taken from the answers.
use vstd::prelude::*;

use super::acoustid::Response;
use super::error::Error;
use super::lookup::{RecordingInfo, ReleaseInfo};
use super::TrackMetadata;

verus! {

/// The release that a track is taken to be from is the first of its recording; a recording
/// without releases is an error.
pub proof fn lemma_first_release_is_chosen(recording: RecordingInfo, r: Result<String, Error>)
    requires
        call_ensures(super::lookup::choose_release, (&recording,), r),
    ensures
        recording.releases matches Some(releases) ==> (releases@.len() > 0 ==> r == Ok::<
            String,
            Error,
        >(releases@[0])),
        recording.releases is None ==> r == Err::<String, Error>(Error::MusicBrainzNoReleases),
        recording.releases matches Some(releases) ==> (releases@.len() == 0 ==> r == Err::<
            String,
            Error,
        >(Error::MusicBrainzNoReleases)),
{
}

/// The recording that a fingerprint is taken to be of is of the result that scores highest
/// and the nearest in length of its recordings. That there are no results, and that the best
/// of them has no recordings, are told apart.
pub proof fn lemma_best_recording_is_chosen(
    response: Response,
    i: int,
    j: int,
    r: Result<String, Error>,
)
    requires
        call_ensures(super::acoustid::choose_recording, (&response,), r),
        0 <= i < response.results@.len(),
        forall|k: int|
            0 <= k < response.results@.len() && k != i ==> (#[trigger] response.results@[k]).score
                < response.results@[i].score,
    ensures
        response.results@[i].recordings@.len() == 0 ==> r == Err::<String, Error>(
            Error::AcoustIdNoRecordings,
        ),
        0 <= j < response.results@[i].recordings@.len() && (
        response.results@[i].recordings@[j].duration_gap matches Some(gap) && (forall|k: int|
            0 <= k < response.results@[i].recordings@.len() && k != j ==> (
            (#[trigger] response.results@[i].recordings@[k]).duration_gap matches Some(other)
                ==> gap < other))) ==> r == Ok::<String, Error>(
            response.results@[i].recordings@[j].id,
        ),
{
    let results = response.results@;
    assert forall|k: int| #[trigger] super::acoustid::is_best_result(results, k) implies k == i by {
        super::lookup_laws::lemma_best_result_scores_highest(results, k, i);
    }
    let recordings = results[i].recordings@;
    if 0 <= j < recordings.len() && recordings[j].duration_gap is Some && (forall|k: int|
        0 <= k < recordings.len() && k != j ==> ((
        #[trigger] recordings[k]).duration_gap matches Some(other)
            ==> recordings[j].duration_gap->0 < other)) {
        assert forall|k: int| #[trigger]
            super::acoustid::is_best_recording(recordings, k) implies k == j by {
            super::lookup_laws::lemma_best_recording_is_nearest(recordings, k, j);
        }
        match r {
            Ok(id) => {
                let (a, b) = choose|a: int, b: int|
                    {
                        &&& #[trigger] super::acoustid::is_best_result(results, a)
                        &&& #[trigger] super::acoustid::is_best_recording(
                            results[a].recordings@,
                            b,
                        )
                        &&& id == results[a].recordings@[b].id
                    };
                assert(a == i);
                assert(b == j);
            },
            Err(_) => {},
        }
    }
    if recordings.len() == 0 {
        match r {
            Ok(id) => {
                let (a, b) = choose|a: int, b: int|
                    {
                        &&& #[trigger] super::acoustid::is_best_result(results, a)
                        &&& #[trigger] super::acoustid::is_best_recording(
                            results[a].recordings@,
                            b,
                        )
                        &&& id == results[a].recordings@[b].id
                    };
                assert(a == i);
            },
            Err(_) => {},
        }
    }
}

/// Without results no recording is chosen.
pub proof fn lemma_no_results_no_recording(response: Response, r: Result<String, Error>)
    requires
        call_ensures(super::acoustid::choose_recording, (&response,), r),
        response.results@.len() == 0,
    ensures
        r == Err::<String, Error>(Error::AcoustIdNoResults),
{
}

/// AcoustID is asked with the key, the duration in seconds and the fingerprint, for the
/// recordings.
pub proof fn lemma_fingerprint_is_looked_up(
    key: &str,
    fingerprint: &str,
    duration: u32,
    r: String,
)
    requires
        call_ensures(super::acoustid::lookup_url, (key, fingerprint, duration), r),
    ensures
        r@ == "https://api.acoustid.org/v2/lookup?client="@ + key@ + "&meta=recordings&duration="@
            + crate::text::decimal(duration as nat) + "&fingerprint="@ + fingerprint@,
{
}

/// What is known of a track that was identified says what MusicBrainz says of its recording
/// and its release; a track that is on none of the release's discs is an error.
pub proof fn lemma_identified_track_is_described(
    sha256: String,
    duration_secs: u32,
    recording_id: String,
    recording: RecordingInfo,
    release: ReleaseInfo,
    r: Result<TrackMetadata, Error>,
)
    requires
        call_ensures(
            super::lookup::lookup_track,
            (sha256, duration_secs, recording_id, recording, release),
            r,
        ),
    ensures
        release.media is None ==> r is Err,
        r matches Err(e) ==> e == Error::MusicBrainzNoTrackNumber,
        r matches Ok(m) ==> {
            &&& m.sha256 == sha256
            &&& m.track_title == recording.title
            &&& m.track_musicbrainz_id == Some(recording_id)
            &&& m.release_mbid == release.id
            &&& m.duration@ == duration_secs * 1_000_000_000
            &&& recording.artist_credit matches Some(credits) ==> {
                &&& m.track_artists@.len() == credits@.len()
                &&& forall|i: int|
                    0 <= i < credits@.len() ==> (#[trigger] m.track_artists@[i]).name
                        == credits@[i].name && m.track_artists@[i].musicbrainz_id == Some(
                        credits@[i].artist_id,
                    )
            }
            &&& release.release_group matches Some(group) ==> {
                &&& m.album_title == group.title
                &&& m.album_musicbrainz_id == Some(group.id)
                &&& group.artist_credit matches Some(credits) ==> {
                    &&& m.album_artists@.len() == credits@.len()
                    &&& forall|i: int|
                        0 <= i < credits@.len() ==> (#[trigger] m.album_artists@[i]).name
                            == credits@[i].name && m.album_artists@[i].musicbrainz_id == Some(
                            credits@[i].artist_id,
                        )
                }
            }
            &&& release.release_group is None ==> m.album_title == release.title
                && m.album_musicbrainz_id is None && m.album_artists@.len() == 0
        },
{
    match r {
        Ok(m) => {
            super::lookup_laws::lemma_metadata_say_what_musicbrainz_says(
                m,
                sha256,
                duration_secs,
                recording_id,
                recording,
                release,
            );
        },
        Err(_) => {},
    }
}

/// Output of the fingerprinter that gives a duration and a fingerprint, in either order, is
/// read as these.
pub proof fn lemma_fingerprinter_is_understood(
    stdout: &str,
    duration: nat,
    fingerprint: Seq<char>,
    r: Result<(String, u32), Error>,
)
    requires
        call_ensures(super::chromaprint::fingerprint, (stdout,), r),
        duration <= u32::MAX,
        !fingerprint.contains('\n'),
        fingerprint.len() > 0,
        fingerprint.last() != '\r',
        ({
            let d = "DURATION="@ + crate::text::decimal(duration);
            let f = "FINGERPRINT="@ + fingerprint;
            ||| stdout@ == d + seq!['\n'] + (f + seq!['\n'] + Seq::empty())
            ||| stdout@ == f + seq!['\n'] + (d + seq!['\n'] + Seq::empty())
        }),
    ensures
        r matches Ok(found) && found.0@ == fingerprint && found.1 == duration,
{
    super::lookup_laws::lemma_fingerprint_is_read(duration, fingerprint);
}

} // verus!
