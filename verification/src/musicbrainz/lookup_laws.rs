//! What identifying a track comes to, told by what the services say.
use vstd::prelude::*;

use super::acoustid::{Recording, ResultItem};
use super::lookup::{Credit, MediumInfo, RecordingInfo, ReleaseInfo, TrackInfo};
use super::TrackMetadata;
use crate::text::NumberError;

verus! {

/// There is one artist for each credit, in the order of the credits, with the name of the
/// credit and the identifier of its artist; so the first artist is the first one credited.
/// Without credits there are no artists.
pub proof fn lemma_every_credit_is_kept(credit: Option<Vec<Credit>>)
    ensures
        ({
            let artists = super::lookup::credited(credit);
            match credit {
                Some(credits) => {
                    &&& artists.len() == credits@.len()
                    &&& forall|i: int|
                        0 <= i < credits@.len() ==> {
                            &&& (#[trigger] artists[i]).name == credits@[i].name
                            &&& artists[i].musicbrainz_id == Some(credits@[i].artist_id)
                        }
                },
                None => artists.len() == 0,
            }
        }),
{
}

/// The metadata of a track say, field by field, what MusicBrainz says of its recording and
/// its release: the album is named and credited after the release group where there is
/// one, and after the release otherwise, which then has no artists of its own.
pub proof fn lemma_metadata_say_what_musicbrainz_says(
    r: TrackMetadata,
    sha256: String,
    duration_secs: u32,
    recording_id: String,
    recording: RecordingInfo,
    release: ReleaseInfo,
)
    requires
        super::lookup::is_assembled(r, sha256, duration_secs, recording_id, recording, release),
    ensures
        r.sha256 == sha256,
        r.track_title == recording.title,
        r.track_musicbrainz_id == Some(recording_id),
        r.release_mbid == release.id,
        r.duration@ == duration_secs * 1_000_000_000,
        recording.artist_credit matches Some(credits) ==> {
            &&& r.track_artists@.len() == credits@.len()
            &&& forall|i: int|
                0 <= i < credits@.len() ==> {
                    &&& (#[trigger] r.track_artists@[i]).name == credits@[i].name
                    &&& r.track_artists@[i].musicbrainz_id == Some(credits@[i].artist_id)
                }
        },
        recording.artist_credit is None ==> r.track_artists@.len() == 0,
        release.release_group matches Some(group) ==> {
            &&& r.album_title == group.title
            &&& r.album_musicbrainz_id == Some(group.id)
            &&& group.artist_credit matches Some(credits) ==> {
                &&& r.album_artists@.len() == credits@.len()
                &&& forall|i: int|
                    0 <= i < credits@.len() ==> {
                        &&& (#[trigger] r.album_artists@[i]).name == credits@[i].name
                        &&& r.album_artists@[i].musicbrainz_id == Some(credits@[i].artist_id)
                    }
            }
            &&& group.artist_credit is None ==> r.album_artists@.len() == 0
        },
        release.release_group is None ==> {
            &&& r.album_title == release.title
            &&& r.album_musicbrainz_id is None
            &&& r.album_artists@.len() == 0
        },
        release.date is None ==> r.album_year is None,
{
    lemma_every_credit_is_kept(recording.artist_credit);
    match release.release_group {
        Some(group) => {
            lemma_every_credit_is_kept(group.artist_credit);
        },
        None => {},
    }
}

/// The year of an album is the number in front of its date's first hyphen, or the whole
/// date where there is none.
pub proof fn lemma_album_year_is_read(
    r: TrackMetadata,
    sha256: String,
    duration_secs: u32,
    recording_id: String,
    recording: RecordingInfo,
    release: ReleaseInfo,
    date: String,
    year: nat,
    rest: Seq<char>,
)
    requires
        super::lookup::is_assembled(r, sha256, duration_secs, recording_id, recording, release),
        release.date == Some(date),
        year <= i32::MAX,
        date@ == crate::text::decimal(year) || date@ == crate::text::decimal(year) + seq!['-']
            + rest,
    ensures
        r.album_year == Some(year as i32),
{
    lemma_year_of_a_date(year, rest);
}

proof fn lemma_year_of_a_date(year: nat, rest: Seq<char>)
    requires
        year <= i32::MAX,
    ensures
        super::lookup::year_of(crate::text::decimal(year)) == Some(year as i32),
        super::lookup::year_of(crate::text::decimal(year) + seq!['-'] + rest) == Some(year as i32),
{
    let digits = crate::text::decimal(year);
    crate::text_laws::lemma_decimal_is_digits(year);
    assert(!digits.contains('-')) by {
        if digits.contains('-') {
            let k = choose|k: int| 0 <= k < digits.len() && digits[k] == '-';
            assert('0' <= digits[k]);
        }
    }
    crate::text_laws::lemma_split_whole(digits, '-');
    crate::text_laws::lemma_split_concat(digits, rest, '-');
    crate::text::lemma_decimal_reads_back(year, i32::MAX as nat);
    assert('0' <= digits[0]);
    assert((seq![digits] + crate::text::split_on(rest, '-'))[0] == digits);
}

/// How many tracks the discs have together.
pub open spec fn tracks_on(media: Seq<MediumInfo>) -> nat
    decreases media.len(),
{
    if media.len() == 0 {
        0
    } else {
        tracks_on(media.drop_last()) + match media.last().tracks {
            Some(tracks) => tracks@.len(),
            None => 0,
        }
    }
}

/// The track plays the recording.
pub open spec fn is_of(track: TrackInfo, recording_id: Seq<char>) -> bool {
    track.recording_id matches Some(id) && id@ == recording_id
}

/// The number of a track is its position on its disc, after all the tracks of the discs
/// before: the disc is the first that has the recording, and the track the first on it.
pub proof fn lemma_track_is_counted_over_discs(
    r: TrackMetadata,
    sha256: String,
    duration_secs: u32,
    recording_id: String,
    recording: RecordingInfo,
    release: ReleaseInfo,
    discs: Vec<MediumInfo>,
    tracks: Vec<TrackInfo>,
    k: int,
    i: int,
)
    requires
        super::lookup::is_assembled(r, sha256, duration_secs, recording_id, recording, release),
        release.media == Some(discs),
        0 <= k < discs@.len(),
        discs@[k].tracks == Some(tracks),
        0 <= i < tracks@.len(),
        is_of(tracks@[i], recording_id@),
        forall|j: int| 0 <= j < i ==> !is_of(#[trigger] tracks@[j], recording_id@),
        forall|d: int, j: int|
            0 <= d < k && (discs@[d].tracks matches Some(ts) && 0 <= j < ts@.len()) ==> !is_of(
                #[trigger] discs@[d].tracks->0@[j],
                recording_id@,
            ),
        tracks_on(discs@.take(k)) + tracks@[i].position <= i32::MAX,
    ensures
        r.track_number == tracks_on(discs@.take(k)) + tracks@[i].position,
{
    lemma_place(discs@, recording_id@, k, i);
}

proof fn lemma_place(media: Seq<MediumInfo>, id: Seq<char>, k: int, i: int)
    requires
        0 <= k < media.len(),
        media[k].tracks is Some,
        0 <= i < media[k].tracks->0@.len(),
        is_of(media[k].tracks->0@[i], id),
        forall|j: int| 0 <= j < i ==> !is_of(#[trigger] media[k].tracks->0@[j], id),
        forall|d: int, j: int|
            0 <= d < k && (media[d].tracks matches Some(ts) && 0 <= j < ts@.len()) ==> !is_of(
                #[trigger] media[d].tracks->0@[j],
                id,
            ),
    ensures
        super::lookup::place_in(media, id) == Some(
            tracks_on(media.take(k)) + media[k].tracks->0@[i].position,
        ),
    decreases k,
{
    let p = super::lookup::plays(id);
    if k == 0 {
        crate::lists::lemma_first_where_is(media[0].tracks->0@, p, i);
        assert(tracks_on(media.take(0)) == 0);
    } else {
        let front = super::lookup::tracks_of(media[0]);
        assert forall|j: int| 0 <= j < front.len() implies !p(#[trigger] front[j]) by {
            assert(!is_of(media[0].tracks->0@[j], id));
        }
        crate::lists::lemma_first_where_none(front, p);
        let rest = media.skip(1);
        assert forall|d: int, j: int|
            0 <= d < k - 1 && (rest[d].tracks matches Some(ts) && 0 <= j < ts@.len()) implies !is_of(
            #[trigger] rest[d].tracks->0@[j],
            id,
        ) by {
            assert(!is_of(media[d + 1].tracks->0@[j], id));
        }
        assert(rest[k - 1] == media[k]);
        assert forall|j: int| 0 <= j < i implies !is_of(
            #[trigger] rest[k - 1].tracks->0@[j],
            id,
        ) by {
            assert(!is_of(media[k].tracks->0@[j], id));
        }
        lemma_place(rest, id, k - 1, i);
        lemma_tracks_on_front(media.take(k));
        assert(media.take(k).skip(1) =~= rest.take(k - 1));
    }
}

proof fn lemma_tracks_on_front(media: Seq<MediumInfo>)
    requires
        media.len() > 0,
    ensures
        tracks_on(media) == super::lookup::tracks_of(media[0]).len() + tracks_on(media.skip(1)),
    decreases media.len(),
{
    if media.len() == 1 {
        assert(media.drop_last() =~= Seq::empty());
        assert(media.skip(1) =~= Seq::empty());
        assert(tracks_on(media.drop_last()) == 0);
    } else {
        lemma_tracks_on_front(media.drop_last());
        assert(media.drop_last().skip(1) =~= media.skip(1).drop_last());
        assert(media.skip(1).last() == media.last());
    }
}

/// No result scores higher than the one that is gone by, and none after it scores as high.
pub proof fn lemma_best_result_scores_highest(results: Seq<ResultItem>, i: int, j: int)
    requires
        super::acoustid::is_best_result(results, i),
        0 <= j < results.len(),
    ensures
        results[j].score <= results[i].score,
        results[j].score == results[i].score ==> j <= i,
{
}

/// No recording is nearer in length than the one that is gone by, none before it is as
/// near, and one of unknown length is gone by only where no length is known.
pub proof fn lemma_best_recording_is_nearest(recordings: Seq<Recording>, i: int, j: int)
    requires
        super::acoustid::is_best_recording(recordings, i),
        0 <= j < recordings.len(),
    ensures
        match (recordings[i].duration_gap, recordings[j].duration_gap) {
            (Some(chosen), Some(other)) => chosen <= other && (chosen == other ==> i <= j),
            (Some(_), None) => true,
            (None, Some(_)) => false,
            (None, None) => i <= j,
        },
{
    assert(!super::acoustid::nearer(recordings[j], recordings[i]));
    if j < i {
        assert(super::acoustid::nearer(recordings[i], recordings[j]));
    }
}

/// Output that gives a duration and a fingerprint, in either order, is read as that
/// duration and that fingerprint.
pub proof fn lemma_fingerprint_is_read(duration: nat, fingerprint: Seq<char>)
    requires
        duration <= u32::MAX,
        !fingerprint.contains('\n'),
        fingerprint.len() > 0,
        fingerprint.last() != '\r',
    ensures
        ({
            let d = "DURATION="@ + crate::text::decimal(duration);
            let f = "FINGERPRINT="@ + fingerprint;
            let found = super::chromaprint::Found {
                fingerprint: Some(fingerprint),
                duration: Some(duration),
            };
            &&& super::chromaprint::fingerprint_in(
                d + seq!['\n'] + (f + seq!['\n'] + Seq::empty()),
            ) == Ok::<super::chromaprint::Found, NumberError>(found)
            &&& super::chromaprint::fingerprint_in(
                f + seq!['\n'] + (d + seq!['\n'] + Seq::empty()),
            ) == Ok::<super::chromaprint::Found, NumberError>(found)
        }),
{
    reveal_strlit("DURATION=");
    reveal_strlit("FINGERPRINT=");
    let digits = crate::text::decimal(duration);
    let d = "DURATION="@ + digits;
    let f = "FINGERPRINT="@ + fingerprint;
    crate::text_laws::lemma_decimal_is_digits(duration);
    crate::text::lemma_decimal_reads_back(duration, u32::MAX as nat);
    assert('0' <= digits[0]);
    assert('0' <= digits[digits.len() - 1]);
    assert(!d.contains('\n')) by {
        if d.contains('\n') {
            let k = choose|k: int| 0 <= k < d.len() && d[k] == '\n';
            if k >= 9 {
                assert('0' <= digits[k - 9]);
            }
        }
    }
    assert(!f.contains('\n')) by {
        if f.contains('\n') {
            let k = choose|k: int| 0 <= k < f.len() && f[k] == '\n';
            if k >= 12 {
                assert(fingerprint[k - 12] == '\n');
            }
        }
    }
    crate::text_laws::lemma_two_lines(d, f);
    crate::text_laws::lemma_two_lines(f, d);
    crate::text_laws::lemma_after_prefix("DURATION="@, digits);
    crate::text_laws::lemma_after_prefix("FINGERPRINT="@, fingerprint);
    assert(d[0] == 'D' && "FINGERPRINT="@[0] == 'F');
    assert(crate::text::after_prefix(d, "FINGERPRINT="@) is None) by {
        if crate::text::after_prefix(d, "FINGERPRINT="@) is Some {
            assert(d.take(12)[0] == "FINGERPRINT="@[0]);
        }
    }
    reveal_with_fuel(super::chromaprint::found_in, 3);
}

} // verus!
