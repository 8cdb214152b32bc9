use soulseek_rs::cover_art::{after_front, after_image, front_url, CoverArtArchiveError};
use soulseek_rs::musicbrainz::acoustid::{
    best_recording, best_result, choose_recording, lookup_url, Recording, Response, ResultItem,
};
use soulseek_rs::musicbrainz::chromaprint::fingerprint;
use soulseek_rs::musicbrainz::error::Error;
use soulseek_rs::musicbrainz::file_hash::compute_sha256;
use soulseek_rs::musicbrainz::lookup::{
    choose_release, lookup_track, Credit, MediumInfo, RecordingInfo, ReleaseGroupInfo, ReleaseInfo,
    TrackInfo,
};
use soulseek_rs::text::NumberError;

#[test]
fn digest_of_a_file() {
    assert_eq!(
        compute_sha256(&b"abc".to_vec()),
        "ba7816bf8f01cfea414140de5dae2223b00361a396177a9cb410ff61f20015ad"
    );
}

#[test]
fn output_of_fpcalc() {
    assert_eq!(
        fingerprint("DURATION=221\nFINGERPRINT=AQAD\n").unwrap(),
        ("AQAD".to_string(), 221)
    );
    assert_eq!(
        fingerprint("FINGERPRINT=A\r\nDURATION=1\nFINGERPRINT=B").unwrap(),
        ("B".to_string(), 1)
    );
    assert!(matches!(fingerprint("DURATION=1\n"), Err(Error::FpcalcMissingFingerprint)));
    assert!(matches!(fingerprint("FINGERPRINT=A\n"), Err(Error::FpcalcMissingDuration)));
    assert!(matches!(
        fingerprint("DURATION=x\nFINGERPRINT=A"),
        Err(Error::FpcalcBadDuration(NumberError::InvalidDigit))
    ));
}

#[test]
fn address_of_a_lookup() {
    assert_eq!(
        lookup_url("K", "FP", 12),
        "https://api.acoustid.org/v2/lookup?client=K&meta=recordings&duration=12&fingerprint=FP"
    );
}

fn recording(id: &str, gap: Option<u64>) -> Recording {
    Recording { id: id.to_string(), duration_gap: gap }
}

fn item(score: u64, recordings: Vec<Recording>) -> ResultItem {
    ResultItem { id: "i".to_string(), recordings, score }
}

#[test]
fn best_of_what_acoustid_answers() {
    assert!(matches!(best_result(&Vec::new()), Err(Error::AcoustIdNoResults)));
    assert!(matches!(best_recording(&Vec::new()), Err(Error::AcoustIdNoRecordings)));
    let results = vec![item(3, vec![]), item(5, vec![]), item(5, vec![])];
    assert_eq!(best_result(&results).unwrap(), 2);
    let recordings = vec![
        recording("a", None),
        recording("b", Some(4)),
        recording("c", Some(2)),
        recording("d", Some(2)),
    ];
    assert_eq!(best_recording(&recordings).unwrap(), 2);
    let response = Response {
        results: vec![item(1, vec![]), item(9, recordings)],
        status: "ok".to_string(),
    };
    assert_eq!(choose_recording(&response).unwrap(), "c");
    let response = Response { results: vec![item(1, vec![])], status: "ok".to_string() };
    assert!(matches!(choose_recording(&response), Err(Error::AcoustIdNoRecordings)));
}

fn disc(tracks: Vec<(u32, &str)>) -> MediumInfo {
    MediumInfo {
        tracks: Some(
            tracks
                .into_iter()
                .map(|(position, id)| TrackInfo { position, recording_id: Some(id.to_string()) })
                .collect(),
        ),
    }
}

fn release(media: Option<Vec<MediumInfo>>) -> ReleaseInfo {
    ReleaseInfo {
        id: "rel".to_string(),
        title: "Release".to_string(),
        date: Some("1975-11-21".to_string()),
        release_group: Some(ReleaseGroupInfo {
            id: "grp".to_string(),
            title: "Group".to_string(),
            artist_credit: Some(vec![Credit {
                name: "Queen".to_string(),
                artist_id: "q".to_string(),
            }]),
        }),
        media,
    }
}

fn info(releases: Option<Vec<String>>) -> RecordingInfo {
    RecordingInfo {
        title: "Song".to_string(),
        artist_credit: Some(vec![Credit { name: "Queen".to_string(), artist_id: "q".to_string() }]),
        releases,
    }
}

#[test]
fn first_release_is_taken() {
    let r = info(Some(vec!["x".to_string(), "y".to_string()]));
    assert_eq!(choose_release(&r).unwrap(), "x");
    assert!(matches!(choose_release(&info(None)), Err(Error::MusicBrainzNoReleases)));
    assert!(matches!(choose_release(&info(Some(vec![]))), Err(Error::MusicBrainzNoReleases)));
}

#[test]
fn track_on_a_later_disc() {
    let media = vec![disc(vec![(1, "a"), (2, "b")]), disc(vec![(1, "c"), (2, "me")])];
    let t = lookup_track(
        "hash".to_string(),
        200,
        "me".to_string(),
        info(None),
        release(Some(media)),
    )
    .unwrap();
    assert_eq!(t.track_number, 4);
    assert_eq!(t.track_title, "Song");
    assert_eq!(t.album_title, "Group");
    assert_eq!(t.album_musicbrainz_id.as_deref(), Some("grp"));
    assert_eq!(t.release_mbid, "rel");
    assert_eq!(t.album_year, Some(1975));
    assert_eq!(t.duration.as_secs(), 200);
    assert_eq!(t.track_artists[0].name, "Queen");
    assert_eq!(t.album_artists[0].musicbrainz_id.as_deref(), Some("q"));
    assert_eq!(t.track_musicbrainz_id.as_deref(), Some("me"));
    assert_eq!(t.sha256, "hash");
}

#[test]
fn discs_after_the_track_do_not_matter() {
    let number = |media| {
        lookup_track(String::new(), 1, "me".to_string(), info(None), release(Some(media)))
            .unwrap()
            .track_number
    };
    assert_eq!(number(vec![disc(vec![(3, "me")])]), 3);
    assert_eq!(number(vec![disc(vec![(3, "me")]), disc(vec![(1, "z")])]), 3);
}

#[test]
fn track_that_is_on_no_disc() {
    let missing = lookup_track(
        String::new(),
        1,
        "me".to_string(),
        info(None),
        release(Some(vec![disc(vec![(1, "a")]), MediumInfo { tracks: None }])),
    );
    assert!(matches!(missing, Err(Error::MusicBrainzNoTrackNumber)));
    let missing =
        lookup_track(String::new(), 1, "me".to_string(), info(None), release(None));
    assert!(matches!(missing, Err(Error::MusicBrainzNoTrackNumber)));
}

#[test]
fn reasons_in_words() {
    assert_eq!(Error::AcoustIdNoRecordings.message(), "AcoustID results contained no recordings");
    assert_eq!(Error::FpcalcFailed("x".to_string()).message(), "fpcalc failed: x");
    assert_eq!(
        Error::FpcalcBadDuration(NumberError::TooLarge).message(),
        "fpcalc DURATION value could not be parsed: number too large to fit in target type"
    );
    assert_eq!(
        CoverArtArchiveError::UnexpectedStatus(500).message(),
        "unexpected status: 500"
    );
    assert_eq!(CoverArtArchiveError::RateLimitExceeded.message(), "rate limit exceeded");
}

#[test]
fn address_of_a_cover() {
    assert_eq!(
        front_url("76df3287-6cda-33eb-8e9a-044b5e15ffdd").unwrap(),
        "https://coverartarchive.org/release/76df3287-6cda-33eb-8e9a-044b5e15ffdd/front"
    );
    assert_eq!(front_url("a b").unwrap(), "https://coverartarchive.org/release/a%20b/front");
}

#[test]
fn what_the_archive_answers() {
    assert_eq!(after_front(307, Some("u".to_string())), Ok("u".to_string()));
    assert_eq!(after_front(307, None), Err(CoverArtArchiveError::UnexpectedError));
    assert_eq!(after_front(400, None), Err(CoverArtArchiveError::InvalidMBID));
    assert_eq!(after_front(404, None), Err(CoverArtArchiveError::NotFound));
    assert_eq!(after_front(503, None), Err(CoverArtArchiveError::RateLimitExceeded));
    assert_eq!(after_front(418, None), Err(CoverArtArchiveError::UnexpectedStatus(418)));
    let art = after_image("http://x/y/z.jpg", 200, Some(vec![1])).unwrap();
    assert_eq!((art.data, art.extension.as_str()), (vec![1], "jpg"));
    assert_eq!(
        after_image("u", 200, None).unwrap_err(),
        CoverArtArchiveError::UnexpectedError
    );
    assert_eq!(after_image("u", 404, None).unwrap_err(), CoverArtArchiveError::NotFound);
    assert_eq!(
        after_image("u", 500, None).unwrap_err(),
        CoverArtArchiveError::UnexpectedImageStatus(500)
    );
}
