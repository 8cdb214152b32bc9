use soulseek_rs::song::client::{all_files, best_result, text_query, Client};
use soulseek_rs::song::error::Error;
use soulseek_rs::song::parser::{
    parse_artist_title_from_filename, parse_soulseek_filename, strip_track_number,
};
use soulseek_rs::song::ranker::{
    candidates, compare_tracks, rank_results, ranking, score_format_quality, MatchScore,
    MIN_SCORE_BITS,
};
use soulseek_rs::song::types::{FileType, SongQuery, WantedFileTypes};
use soulseek_rs::soulseek::actor::server_actor::ServerMessage;
use soulseek_rs::soulseek::client::context::{OperationChannel, ServerChannel};
use soulseek_rs::soulseek::client::slot_client::ActiveConnection;
use soulseek_rs::soulseek::client::slots::{CancelFlag, SlotOperation};
use soulseek_rs::soulseek::error::SoulseekRs;
use soulseek_rs::soulseek::path::SoulseekPath;
use soulseek_rs::soulseek::token::{DownloadToken, SearchToken};
use soulseek_rs::soulseek::types::{File, FileAttributes, SearchResult, StatusChannel};
use soulseek_rs::text_match::Score;

fn query() -> SongQuery {
    SongQuery {
        title: "Bohemian Rhapsody".to_string(),
        artist: "Queen".to_string(),
        album: None,
        duration_secs: Some(354),
        min_bitrate_kbps: None,
    }
}

fn file(name: &str, bitrate: Option<u32>) -> File {
    File {
        username: "peer".to_string(),
        name: SoulseekPath(name.to_string()),
        size: 1000,
        attributes: FileAttributes {
            bitrate,
            duration: Some(354),
            vbr: None,
            sample_rate: Some(44100),
            bit_depth: None,
        },
    }
}

fn score(x: f64) -> MatchScore {
    MatchScore { bits: x.to_bits() }
}

#[test]
fn test_strip_track_number_dash() {
    assert_eq!(strip_track_number("01 - Song Title"), "Song Title");
}

#[test]
fn test_strip_track_number_dot() {
    assert_eq!(strip_track_number("02. Song Title"), "Song Title");
}

#[test]
fn test_strip_track_number_no_sep() {
    assert_eq!(strip_track_number("03 Song Title"), "Song Title");
}

#[test]
fn test_strip_track_number_none() {
    assert_eq!(strip_track_number("Song Title"), "Song Title");
}

#[test]
fn test_parse_artist_title() {
    let r = parse_artist_title_from_filename("Queen - Bohemian Rhapsody");
    assert_eq!(r, Some(("Queen".into(), "Bohemian Rhapsody".into())));
}

#[test]
fn artist_and_title_must_both_be_there() {
    assert_eq!(parse_artist_title_from_filename(" - Title"), None);
    assert_eq!(parse_artist_title_from_filename("Artist"), None);
    assert_eq!(
        parse_artist_title_from_filename("a - b - c"),
        Some(("a".into(), "b - c".into()))
    );
}

#[test]
fn test_parse_soulseek_path() {
    let m =
        parse_soulseek_filename("@@share\\Queen\\A Night at the Opera\\05 - Bohemian Rhapsody.flac");
    assert_eq!(m.title, "Bohemian Rhapsody");
    assert_eq!(m.artist, "Queen");
    assert_eq!(m.album.as_deref(), Some("A Night at the Opera"));
}

#[test]
fn test_parse_artist_title_from_filename_in_stem() {
    let m = parse_soulseek_filename("@@share\\misc\\Queen - Bohemian Rhapsody.mp3");
    assert_eq!(m.title, "Bohemian Rhapsody");
    assert_eq!(m.artist, "Queen");
}

#[test]
fn path_without_directories() {
    let m = parse_soulseek_filename("Song.mp3");
    assert_eq!(m.title, "Song");
    assert_eq!(m.artist, "");
    assert_eq!(m.album, None);
}

#[test]
fn test_score_format_lossless() {
    assert!((score_format_quality(&FileType::Flac, None) as f64 / 100.0 - 1.0).abs() < 1e-10);
}

#[test]
fn test_score_format_mp3_320() {
    assert!((score_format_quality(&FileType::Mp3, Some(320)) as f64 / 100.0 - 0.85).abs() < 1e-10);
}

#[test]
fn score_format_steps() {
    assert_eq!(score_format_quality(&FileType::Mp3, Some(319)), 70);
    assert_eq!(score_format_quality(&FileType::Mp3, Some(256)), 70);
    assert_eq!(score_format_quality(&FileType::Mp3, Some(192)), 55);
    assert_eq!(score_format_quality(&FileType::Mp3, Some(191)), 35);
    assert_eq!(score_format_quality(&FileType::Mp3, None), 35);
}

#[test]
fn file_types_by_extension() {
    assert_eq!(FileType::from_extension("FLAC"), FileType::Flac);
    for ext in ["mp3", "flac", "wav", "aac", "m4a", "ogg", "alac", "aiff", "opus"] {
        let kind = FileType::from_extension(ext);
        assert!(!matches!(kind, FileType::Other(_)));
        assert_eq!(kind.display(), ext);
        assert_eq!(FileType::from_extension(&ext.to_ascii_uppercase()), kind);
    }
    assert_eq!(FileType::from_extension("aif"), FileType::Aiff);
    assert_eq!(FileType::from_extension("Xyz"), FileType::Other("xyz".to_string()));
    assert_eq!(FileType::from_extension("aif").display(), "aiff");
    assert_eq!(FileType::from_extension("Xyz").display(), "xyz");
    assert!(FileType::Wav.is_lossless());
    assert!(!FileType::Opus.is_lossless());
}

#[test]
fn wanted_types() {
    assert!(WantedFileTypes::lossless().is_compatible(&FileType::Alac));
    assert!(!WantedFileTypes::lossless().is_compatible(&FileType::Mp3));
    assert!(WantedFileTypes::lossy().is_compatible(&FileType::Opus));
    assert!(!WantedFileTypes::lossy().is_compatible(&FileType::Other("txt".to_string())));
    assert!(WantedFileTypes::all().is_compatible(&FileType::Other("txt".to_string())));
    let some = WantedFileTypes::specific(vec![FileType::Mp3, FileType::Flac]);
    assert_eq!(some.priority_index(&FileType::Flac), Some(1));
    assert_eq!(some.priority_index(&FileType::Ogg), None);
    assert_eq!(WantedFileTypes::all().priority_index(&FileType::Flac), None);
}

#[test]
fn comparison_of_a_track() {
    let path = "@@s\\Queen\\Opera\\05 - Bohemian Rapsody.mp3";
    let f = file(path, Some(256));
    let c = compare_tracks(
        &query(),
        &parse_soulseek_filename(path),
        &f.attributes,
        &FileType::Mp3,
        &WantedFileTypes::specific(vec![FileType::Flac, FileType::Mp3]),
    );
    assert_eq!(c.title, Score { lost: 1, out_of: 17 });
    assert_eq!(c.artist, Some(Score { lost: 0, out_of: 1 }));
    assert_eq!(c.duration, Some(Score { lost: 0, out_of: 1 }));
    assert_eq!(c.format, 70);
    assert_eq!(c.priority, Some(1));
}

#[test]
fn comparison_of_what_is_not_known() {
    let attributes = FileAttributes {
        bitrate: None,
        duration: None,
        vbr: None,
        sample_rate: None,
        bit_depth: None,
    };
    let c = compare_tracks(
        &query(),
        &parse_soulseek_filename("Bohemian Rhapsody.flac"),
        &attributes,
        &FileType::Flac,
        &WantedFileTypes::all(),
    );
    assert_eq!(c.artist, None);
    assert_eq!(c.duration, None);
    assert_eq!(c.priority, None);
    assert_eq!(c.format, 100);
}

#[test]
fn candidates_are_of_a_wanted_type_and_fast_enough() {
    let mut q = query();
    q.min_bitrate_kbps = Some(256);
    let files = vec![
        file("@@s\\Queen\\Opera\\a.mp3", Some(128)),
        file("@@s\\Queen\\Opera\\b.flac", None),
        file("@@s\\Queen\\Opera\\c.txt", Some(999)),
        file("@@s\\Queen\\Opera\\d.mp3", Some(256)),
        file("@@s\\Queen\\Opera\\e.mp3", None),
    ];
    let wanted = WantedFileTypes::specific(vec![FileType::Mp3, FileType::Flac]);
    let places: Vec<usize> = candidates(&q, &files, &wanted).iter().map(|c| c.file).collect();
    assert_eq!(places, vec![1, 3]);
}

#[test]
fn best_comes_first_and_equal_ones_stay_in_order() {
    let scores = vec![score(0.6), score(0.49), score(0.9), score(0.6), score(0.5)];
    assert_eq!(ranking(&scores), vec![2, 0, 3, 4]);
    assert_eq!(MIN_SCORE_BITS, 0.5f64.to_bits());
    assert_eq!(ranking(&vec![score(0.0), score(0.4999)]), Vec::<usize>::new());
}

#[test]
fn ranked_results() {
    let files = vec![
        file("@@s\\Queen\\Opera\\a.mp3", Some(320)),
        file("@@s\\Queen\\Opera\\b.flac", None),
        file("@@s\\Queen\\Opera\\c.mp3", Some(128)),
    ];
    let found = candidates(&query(), &files, &WantedFileTypes::all());
    assert_eq!(found.len(), 3);
    let results = rank_results(&files, &found, &vec![score(0.7), score(0.8), score(0.2)]);
    assert_eq!(results.len(), 2);
    assert_eq!(results[0].filename.as_str(), "@@s\\Queen\\Opera\\b.flac");
    assert_eq!(results[0].file_type, FileType::Flac);
    assert_eq!(results[0].score, score(0.8));
    assert_eq!(results[1].bitrate, Some(320));
    assert_eq!(results[1].username, "peer");
    assert_eq!(results[1].size, 1000);
    let best = best_result(results).unwrap();
    assert_eq!(best.filename.filename(), "b.flac");
}

#[test]
fn nothing_found() {
    let e = best_result(Vec::new()).unwrap_err();
    assert!(matches!(e, Error::NoResults));
    assert_eq!(e.message(), "no results found for query");
    assert_eq!(Error::DownloadFailed.message(), "download failed");
    assert_eq!(
        Error::from(SoulseekRs::NotConnected).message(),
        format!("soulseek error: {}", SoulseekRs::NotConnected.message())
    );
}

#[test]
fn files_of_all_answers() {
    let answer = |names: Vec<&str>| SearchResult {
        token: SearchToken(1),
        files: names.into_iter().map(|n| file(n, None)).collect(),
        slots: 1,
        speed: 1,
        username: "peer".to_string(),
    };
    let files = all_files(&vec![answer(vec!["a", "b"]), answer(vec![]), answer(vec!["c"])]);
    let names: Vec<String> = files.iter().map(|f| f.name.as_str().to_string()).collect();
    assert_eq!(names, vec!["a", "b", "c"]);
}

#[test]
fn searching_and_asking() {
    assert_eq!(text_query(&query()), "Bohemian Rhapsody Queen");
    let mut client = Client::new("me".to_string(), "secret".to_string());
    assert!(matches!(client.search(&query()), Err(Error::Soulseek(SoulseekRs::NotConnected))));
    client.inner.started(ActiveConnection {
        server_handle: ServerChannel(1),
        op_tx: OperationChannel(2),
    });
    let plan = client.search(&query()).unwrap();
    assert_eq!(plan.active.op_tx, OperationChannel(2));
    match plan.to_server {
        ServerMessage::FileSearch { query, .. } => assert_eq!(query, "Bohemian Rhapsody Queen"),
        other => panic!("{other:?}"),
    }
    let files = vec![file("abc", None)];
    let found = candidates(&query(), &files, &WantedFileTypes::all());
    let results = rank_results(&files, &found, &vec![score(1.0)]);
    let plan = client.download(
        &results[0],
        "dir".to_string(),
        None,
        None,
        StatusChannel(3),
        CancelFlag(4),
    );
    assert_eq!(plan.download.download.token, DownloadToken(0x90015));
    assert!(matches!(plan.to_worker, Some((OperationChannel(2), SlotOperation::RequestDownload(_)))));
}
