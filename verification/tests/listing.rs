use soulseek_rs::downloader::{
    attempt_label, given_up_message, label, query_for, search_message, skip_message,
    wanted_file_types, DownloadRun, FileTypeArg, Phase, RunAction, RunEvent, SkipReason, TrackRow,
};
use soulseek_rs::song::types::FileType;

fn row(title: &str, is_downloaded: bool) -> TrackRow {
    TrackRow {
        title: title.to_string(),
        album: "Album".to_string(),
        artist: "Artist".to_string(),
        duration_seconds: 200,
        is_downloaded,
    }
}

fn searched(actions: &[RunAction]) -> Vec<usize> {
    actions
        .iter()
        .filter_map(|a| match a {
            RunAction::Search { track } => Some(*track),
            _ => None,
        })
        .collect()
}

#[test]
fn wanted_types_of_a_run() {
    assert!(wanted_file_types(FileTypeArg::Lossless).is_compatible(&FileType::Flac));
    assert!(!wanted_file_types(FileTypeArg::Lossless).is_compatible(&FileType::Mp3));
    assert!(wanted_file_types(FileTypeArg::Lossy).is_compatible(&FileType::Mp3));
    assert!(wanted_file_types(FileTypeArg::All).is_compatible(&FileType::Other("x".to_string())));
}

#[test]
fn query_of_a_row() {
    let q = query_for(&row("Song", false));
    assert_eq!(q.title, "Song");
    assert_eq!(q.artist, "Artist");
    assert_eq!(q.album.as_deref(), Some("Album"));
    assert_eq!(q.duration_secs, Some(200));
    assert_eq!(q.min_bitrate_kbps, None);
}

#[test]
fn what_the_user_reads() {
    let l = label(&row("Song", false));
    assert_eq!(l, "\"Song\" \u{2014} Artist");
    assert_eq!(search_message("L", 0, 3), "Searching for L");
    assert_eq!(search_message("L", 2, 3), "Retry 2/2 for L");
    assert_eq!(attempt_label("L", 0, 9, 1, 4, 0), "[1/9] L  (candidate 2/4)");
    assert_eq!(attempt_label("L", 0, 9, 1, 4, 2), "[1/9] L  (candidate 2/4, retry 2)");
    assert_eq!(skip_message("f", &SkipReason::TimedOut), "  \u{21b3} skip f (timed out)");
    assert_eq!(skip_message("f", &SkipReason::Cancelled), "  \u{21b3} skip f (cancelled)");
    assert_eq!(
        skip_message("f", &SkipReason::DownloadFailed),
        "  \u{21b3} skip f (download failed)"
    );
    assert_eq!(
        skip_message("f", &SkipReason::CouldNotInitiate { error: "e".to_string() }),
        "  \u{21b3} skip f (could not initiate download: e)"
    );
    assert_eq!(given_up_message("L", &None), "\u{2717} No results  \u{2014} L");
    assert_eq!(
        given_up_message("L", &Some("e".to_string())),
        "\u{2717} Search error (e)  \u{2014} L"
    );
}

#[test]
fn tracks_that_are_there_are_passed_over() {
    let (run, actions) = DownloadRun::new(vec![row("a", true), row("b", false)], 3);
    assert_eq!(searched(&actions), vec![1]);
    assert_eq!(run.track, 1);
    let (run, actions) = DownloadRun::new(vec![row("a", true)], 3);
    assert_eq!(searched(&actions), Vec::<usize>::new());
    assert!(matches!(actions.last(), Some(RunAction::Finish)));
    assert_eq!(run.phase, Phase::Over);
}

#[test]
fn no_search_is_allowed() {
    let (run, actions) = DownloadRun::new(vec![row("a", false)], 0);
    assert_eq!(searched(&actions), Vec::<usize>::new());
    assert_eq!(run.phase, Phase::Over);
}

#[test]
fn whole_download() {
    let (mut run, _) = DownloadRun::new(vec![row("a", false), row("b", false)], 2);
    let actions = run.handle(RunEvent::Found { count: 2 });
    assert!(matches!(
        actions[..],
        [
            RunAction::ShowCandidate { candidate: 0, count: 2 },
            RunAction::Request { candidate: 0 }
        ]
    ));
    let actions = run.handle(RunEvent::Requested);
    assert!(matches!(actions[..], [RunAction::Receive]));
    let actions = run.handle(RunEvent::QueuedLocally);
    assert!(matches!(actions[..], [RunAction::ShowQueuedLocally, RunAction::Receive]));
    let actions = run.handle(RunEvent::QueuedRemotely { place: Some(3) });
    assert!(matches!(
        actions[..],
        [RunAction::ShowQueuedRemotely { place: Some(3) }, RunAction::Receive]
    ));
    let progress = || RunEvent::InProgress { bytes_downloaded: 5, total_bytes: 10 };
    let actions = run.handle(progress());
    assert!(matches!(actions[..], [RunAction::OpenBar, RunAction::Receive]));
    let actions = run.handle(progress());
    assert!(matches!(
        actions[..],
        [RunAction::MoveBar { bytes_downloaded: 5, total_bytes: 10 }, RunAction::Receive]
    ));
    let actions = run.handle(RunEvent::Completed);
    assert!(matches!(
        actions[..],
        [
            RunAction::SaveTracks,
            RunAction::CompleteBar { track: 0 },
            RunAction::HideSearch,
            RunAction::TrackOver,
            RunAction::ShowTrack { track: 1 },
            RunAction::ShowSearch { track: 1, retry: 0 },
            RunAction::Search { track: 1 }
        ]
    ));
    assert!(run.tracks[0].is_downloaded);
    assert!(!run.tracks[1].is_downloaded);
    assert_eq!(run.tracks[0].title, "a");
}

#[test]
fn failed_download_ends_the_search() {
    let (mut run, _) = DownloadRun::new(vec![row("a", false)], 2);
    run.handle(RunEvent::Found { count: 2 });
    run.handle(RunEvent::Requested);
    let actions = run.handle(RunEvent::Failed);
    assert!(matches!(
        actions[..],
        [
            RunAction::SkipCandidate { candidate: 0, reason: SkipReason::DownloadFailed },
            RunAction::HideSearch,
            RunAction::ShowSearch { track: 0, retry: 1 },
            RunAction::Search { track: 0 }
        ]
    ));
}

#[test]
fn late_download_gives_way_to_the_next() {
    let (mut run, _) = DownloadRun::new(vec![row("a", false)], 1);
    run.handle(RunEvent::Found { count: 3 });
    let actions = run.handle(RunEvent::RequestFailed { error: "e".to_string() });
    assert!(matches!(
        actions[..],
        [
            RunAction::SkipCandidate { candidate: 0, reason: SkipReason::CouldNotInitiate { .. } },
            RunAction::ShowCandidate { candidate: 1, count: 3 },
            RunAction::Request { candidate: 1 }
        ]
    ));
    run.handle(RunEvent::Requested);
    run.handle(RunEvent::InProgress { bytes_downloaded: 1, total_bytes: 2 });
    let actions = run.handle(RunEvent::TimedOut);
    assert!(matches!(
        actions[..],
        [
            RunAction::SkipCandidate { candidate: 1, reason: SkipReason::TimedOut },
            RunAction::CloseBar,
            RunAction::ShowCandidate { candidate: 2, count: 3 },
            RunAction::Request { candidate: 2 }
        ]
    ));
    run.handle(RunEvent::Requested);
    let actions = run.handle(RunEvent::Closed);
    assert!(matches!(
        actions[..],
        [RunAction::HideSearch, RunAction::TrackOver, RunAction::Finish]
    ));
    assert_eq!(run.phase, Phase::Over);
}

#[test]
fn track_is_given_up_after_its_last_search() {
    let (mut run, _) = DownloadRun::new(vec![row("a", false), row("b", false)], 2);
    let actions = run.handle(RunEvent::Found { count: 0 });
    assert_eq!(searched(&actions), vec![0]);
    assert!(!actions.iter().any(|a| matches!(a, RunAction::SayGivenUp { .. })));
    let actions = run.handle(RunEvent::SearchFailed { error: "e".to_string() });
    assert_eq!(searched(&actions), vec![1]);
    assert!(actions
        .iter()
        .any(|a| matches!(a, RunAction::SayGivenUp { track: 0, error: Some(e) } if e == "e")));
}
