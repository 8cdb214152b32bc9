//! Fetching a list of tracks one after another: what is searched for, which of the
//! files found are tried, and when a track is given up.
use vstd::prelude::*;

use crate::song::types::{SongQuery, WantedFileTypes};
use crate::text::{append_str, decimal_chars, from_chars};

verus! {

/// Which kinds of file the user wants.
#[derive(Debug, Clone, Copy, PartialEq, Eq, Structural)]
pub enum FileTypeArg {
    Lossless,
    Lossy,
    All,
}

/// The kinds of file that are wanted.
pub fn wanted_file_types(v: FileTypeArg) -> (r: WantedFileTypes)
    ensures
        forall|kind: crate::song::types::FileKind| #[trigger]
            r.accepts(kind) == match v {
                FileTypeArg::Lossless => crate::song::types::kind_is_lossless(kind),
                FileTypeArg::Lossy => !crate::song::types::kind_is_lossless(kind) && !(
                kind is Other),
                FileTypeArg::All => true,
            },
{
    match v {
        FileTypeArg::Lossless => {
            let r = WantedFileTypes::lossless();
            let lossy = WantedFileTypes::lossy();
            assert forall|kind: crate::song::types::FileKind| #[trigger]
                r.accepts(kind) == crate::song::types::kind_is_lossless(kind) by {
                crate::song::types::lemma_lossless_and_lossy(r, lossy, kind);
            }
            r
        },
        FileTypeArg::Lossy => {
            let lossless = WantedFileTypes::lossless();
            let r = WantedFileTypes::lossy();
            assert forall|kind: crate::song::types::FileKind| #[trigger]
                r.accepts(kind) == (!crate::song::types::kind_is_lossless(kind) && !(
                kind is Other)) by {
                crate::song::types::lemma_lossless_and_lossy(lossless, r, kind);
            }
            r
        },
        FileTypeArg::All => WantedFileTypes::all(),
    }
}

/// A track of the list.
#[derive(Debug)]
pub struct TrackRow {
    pub title: String,
    pub album: String,
    pub artist: String,
    pub duration_seconds: u32,
    /// Such a track is not fetched again.
    pub is_downloaded: bool,
}

/// What is looked for to get a track.
pub fn query_for(row: &TrackRow) -> (r: SongQuery)
    ensures
        r == (SongQuery {
            title: row.title,
            artist: row.artist,
            album: Some(row.album),
            duration_secs: Some(row.duration_seconds),
            min_bitrate_kbps: None,
        }),
{
    SongQuery {
        title: row.title.clone(),
        artist: row.artist.clone(),
        album: Some(row.album.clone()),
        duration_secs: Some(row.duration_seconds),
        min_bitrate_kbps: None,
    }
}

// ---- what the user reads ------------------------------------------------------------------

/// A track in words.
pub open spec fn label_of(row: TrackRow) -> Seq<char> {
    "\""@ + row.title@ + "\" \u{2014} "@ + row.artist@
}

/// A track in words.
pub fn label(row: &TrackRow) -> (r: String)
    ensures
        r@ == label_of(*row),
{
    let mut out = append_str("\"", row.title.as_str());
    out.append("\" \u{2014} ");
    out.append(row.artist.as_str());
    out
}

/// What is read while a track is searched for.
pub fn search_message(label: &str, retry: u32, max_retries: u32) -> (r: String)
    requires
        retry < max_retries,
    ensures
        r@ == if retry == 0 {
            "Searching for "@ + label@
        } else {
            "Retry "@ + crate::text::decimal(retry as nat) + "/"@ + crate::text::decimal(
                (max_retries - 1) as nat,
            ) + " for "@ + label@
        },
{
    if retry == 0 {
        append_str("Searching for ", label)
    } else {
        let mut out = append_str("Retry ", from_chars(&decimal_chars(retry as u64)).as_str());
        out.append("/");
        out.append(from_chars(&decimal_chars((max_retries - 1) as u64)).as_str());
        out.append(" for ");
        out.append(label);
        out
    }
}

/// What is read while a candidate is tried.
pub open spec fn attempt_words(
    label: Seq<char>,
    track: nat,
    total: nat,
    candidate: nat,
    count: nat,
    retry: nat,
) -> Seq<char> {
    "["@ + crate::text::decimal(track + 1) + "/"@ + crate::text::decimal(total) + "] "@ + label
        + "  (candidate "@ + crate::text::decimal(candidate + 1) + "/"@ + crate::text::decimal(
        count,
    ) + (if retry > 0 {
        ", retry "@ + crate::text::decimal(retry)
    } else {
        Seq::empty()
    }) + ")"@
}

/// What is read while a candidate is tried.
pub fn attempt_label(
    label: &str,
    track: usize,
    total: usize,
    candidate: usize,
    count: usize,
    retry: u32,
) -> (r: String)
    requires
        track < total,
        candidate < count,
    ensures
        r@ == attempt_words(
            label@,
            track as nat,
            total as nat,
            candidate as nat,
            count as nat,
            retry as nat,
        ),
{
    let mut out = append_str("[", from_chars(&decimal_chars((track + 1) as u64)).as_str());
    out.append("/");
    out.append(from_chars(&decimal_chars(total as u64)).as_str());
    out.append("] ");
    out.append(label);
    out.append("  (candidate ");
    out.append(from_chars(&decimal_chars((candidate + 1) as u64)).as_str());
    out.append("/");
    out.append(from_chars(&decimal_chars(count as u64)).as_str());
    if retry > 0 {
        let again = append_str(", retry ", from_chars(&decimal_chars(retry as u64)).as_str());
        out.append(again.as_str());
    } else {
        assert(out@ + Seq::<char>::empty() =~= out@);
    }
    out.append(")");
    out
}

/// Why a candidate is left.
#[derive(Debug)]
pub enum SkipReason {
    CouldNotInitiate { error: String },
    DownloadFailed,
    TimedOut,
    Cancelled,
}

/// What is read where a candidate is left.
pub fn skip_message(filename: &str, reason: &SkipReason) -> (r: String)
    ensures
        r@ == "  \u{21b3} skip "@ + filename@ + " ("@ + match *reason {
            SkipReason::CouldNotInitiate { error } => "could not initiate download: "@ + error@,
            SkipReason::DownloadFailed => "download failed"@,
            SkipReason::TimedOut => "timed out"@,
            SkipReason::Cancelled => "cancelled"@,
        } + ")"@,
{
    let mut out = append_str("  \u{21b3} skip ", filename);
    out.append(" (");
    let why = match reason {
        SkipReason::CouldNotInitiate { error } => append_str(
            "could not initiate download: ",
            error.as_str(),
        ),
        SkipReason::DownloadFailed => "download failed".to_owned(),
        SkipReason::TimedOut => "timed out".to_owned(),
        SkipReason::Cancelled => "cancelled".to_owned(),
    };
    out.append(why.as_str());
    out.append(")");
    out
}

/// What is read where a track is given up since nothing was found, or the search
/// failed.
pub fn given_up_message(label: &str, error: &Option<String>) -> (r: String)
    ensures
        r@ == match *error {
            None => "\u{2717} No results  \u{2014} "@ + label@,
            Some(e) => "\u{2717} Search error ("@ + e@ + ")  \u{2014} "@ + label@,
        },
{
    match error {
        None => append_str("\u{2717} No results  \u{2014} ", label),
        Some(e) => {
            let mut out = append_str("\u{2717} Search error (", e.as_str());
            out.append(")  \u{2014} ");
            out.append(label);
            out
        },
    }
}

// ---- the run ----------------------------------------------------------------------------

/// What a track waits for.
#[derive(Debug, Clone, Copy, PartialEq, Eq, Structural)]
pub enum Phase {
    /// For what a search finds.
    Searching,
    /// For a candidate to be asked for.
    Requesting { candidate: usize, count: usize },
    /// For news of a candidate; `bar` where its progress is shown.
    Receiving { candidate: usize, count: usize, bar: bool },
    /// For nothing: all tracks are done.
    Over,
}

/// What has happened.
#[derive(Debug)]
pub enum RunEvent {
    /// A search has ended with this many candidates.
    Found { count: usize },
    SearchFailed { error: String },
    /// A candidate was asked for.
    Requested,
    /// A candidate could not be asked for.
    RequestFailed { error: String },
    QueuedLocally,
    QueuedRemotely { place: Option<u32> },
    InProgress { bytes_downloaded: u64, total_bytes: u64 },
    Completed,
    Failed,
    TimedOut,
    Cancelled,
    /// No more news of the candidate will come.
    Closed,
}

/// What is done.
#[derive(Debug)]
pub enum RunAction {
    ShowTrack { track: usize },
    TrackOver,
    ShowSearch { track: usize, retry: u32 },
    Search { track: usize },
    HideSearch,
    SayGivenUp { track: usize, error: Option<String> },
    ShowCandidate { candidate: usize, count: usize },
    Request { candidate: usize },
    SkipCandidate { candidate: usize, reason: SkipReason },
    Receive,
    ShowQueuedLocally,
    ShowQueuedRemotely { place: Option<u32> },
    OpenBar,
    MoveBar { bytes_downloaded: u64, total_bytes: u64 },
    CloseBar,
    CompleteBar { track: usize },
    SaveTracks,
    Finish,
}

/// The state of a run as values.
#[verifier::ext_equal]
pub struct RunModel {
    /// Which tracks are there.
    pub done: Seq<bool>,
    pub track: int,
    pub retry: int,
    pub max_retries: int,
    pub phase: Phase,
}

impl RunModel {
    /// A track is worked on only while it is not there, and is searched for only as
    /// often as is allowed.
    pub open spec fn sound(self) -> bool {
        &&& self.done.len() <= usize::MAX
        &&& self.max_retries <= u32::MAX
        &&& if self.phase is Over {
            true
        } else {
            &&& 0 <= self.track < self.done.len()
            &&& !self.done[self.track]
            &&& 0 <= self.retry < self.max_retries
            &&& match self.phase {
                Phase::Requesting { candidate, count } => candidate < count,
                Phase::Receiving { candidate, count, .. } => candidate < count,
                _ => true,
            }
        }
    }

    /// The tracks from the given one on: those that are there are passed over.
    pub open spec fn from_track(self, track: int) -> (RunModel, Seq<RunAction>)
        decreases self.done.len() - track,
    {
        if track >= self.done.len() {
            (RunModel { track, phase: Phase::Over, ..self }, seq![RunAction::Finish])
        } else if self.done[track] || self.max_retries == 0 {
            let (m, a) = self.from_track(track + 1);
            (m, seq![RunAction::ShowTrack { track: track as usize }, RunAction::TrackOver] + a)
        } else {
            (
                RunModel { track, retry: 0, phase: Phase::Searching, ..self },
                seq![
                    RunAction::ShowTrack { track: track as usize },
                    RunAction::ShowSearch { track: track as usize, retry: 0 },
                    RunAction::Search { track: track as usize },
                ],
            )
        }
    }

    /// A search has led to nothing: the track is searched for again, or the next one
    /// has its turn.
    pub open spec fn search_over(self) -> (RunModel, Seq<RunAction>) {
        if self.retry + 1 < self.max_retries {
            (
                RunModel { retry: self.retry + 1, phase: Phase::Searching, ..self },
                seq![
                    RunAction::ShowSearch {
                        track: self.track as usize,
                        retry: (self.retry + 1) as u32,
                    },
                    RunAction::Search { track: self.track as usize },
                ],
            )
        } else {
            let (m, a) = self.from_track(self.track + 1);
            (m, seq![RunAction::TrackOver] + a)
        }
    }

    /// The given candidate has its turn, or the search has led to nothing.
    pub open spec fn from_candidate(self, candidate: int, count: int) -> (
        RunModel,
        Seq<RunAction>,
    ) {
        if candidate < count {
            (
                RunModel {
                    phase: Phase::Requesting {
                        candidate: candidate as usize,
                        count: count as usize,
                    },
                    ..self
                },
                seq![
                    RunAction::ShowCandidate {
                        candidate: candidate as usize,
                        count: count as usize,
                    },
                    RunAction::Request { candidate: candidate as usize },
                ],
            )
        } else {
            let (m, a) = self.search_over();
            (m, seq![RunAction::HideSearch] + a)
        }
    }

    /// A search has found nothing: that is said when it was the last.
    pub open spec fn found_nothing(self, error: Option<String>) -> (RunModel, Seq<RunAction>) {
        let (m, a) = self.search_over();
        (
            m,
            seq![RunAction::HideSearch] + if self.retry + 1 == self.max_retries {
                seq![RunAction::SayGivenUp { track: self.track as usize, error }]
            } else {
                Seq::empty()
            } + a,
        )
    }

    /// The event is one that can come now.
    pub open spec fn expects(self, event: RunEvent) -> bool {
        match self.phase {
            Phase::Searching => event is Found || event is SearchFailed,
            Phase::Requesting { .. } => event is Requested || event is RequestFailed,
            Phase::Receiving { .. } => !(event is Found) && !(event is SearchFailed) && !(
            event is Requested) && !(event is RequestFailed),
            Phase::Over => false,
        }
    }

    /// What an event leads to.
    pub open spec fn step(self, event: RunEvent) -> (RunModel, Seq<RunAction>) {
        match (self.phase, event) {
            (Phase::Searching, RunEvent::Found { count }) => if count > 0 {
                self.from_candidate(0, count as int)
            } else {
                self.found_nothing(None)
            },
            (Phase::Searching, RunEvent::SearchFailed { error }) => self.found_nothing(
                Some(error),
            ),
            (Phase::Requesting { candidate, count }, RunEvent::Requested) => (
                RunModel { phase: Phase::Receiving { candidate, count, bar: false }, ..self },
                seq![RunAction::Receive],
            ),
            (Phase::Requesting { candidate, count }, RunEvent::RequestFailed { error }) => {
                let (m, a) = self.from_candidate(candidate + 1, count as int);
                (
                    m,
                    seq![
                        RunAction::SkipCandidate {
                            candidate,
                            reason: SkipReason::CouldNotInitiate { error },
                        },
                    ] + a,
                )
            },
            (Phase::Receiving { candidate, count, bar }, e) => self.news(
                candidate,
                count,
                bar,
                e,
            ),
            _ => (self, Seq::empty()),
        }
    }

    /// What news of a candidate lead to. A peer that fails ends the search; one that
    /// does not answer in time, or was cancelled, gives way to the next.
    pub open spec fn news(self, candidate: usize, count: usize, bar: bool, event: RunEvent) -> (
        RunModel,
        Seq<RunAction>,
    ) {
        let close = if bar {
            seq![RunAction::CloseBar]
        } else {
            Seq::empty()
        };
        match event {
            RunEvent::QueuedLocally => (
                self,
                seq![RunAction::ShowQueuedLocally, RunAction::Receive],
            ),
            RunEvent::QueuedRemotely { place } => (
                self,
                seq![RunAction::ShowQueuedRemotely { place }, RunAction::Receive],
            ),
            RunEvent::InProgress { bytes_downloaded, total_bytes } => if bar {
                (
                    self,
                    seq![RunAction::MoveBar { bytes_downloaded, total_bytes }, RunAction::Receive],
                )
            } else {
                (
                    RunModel { phase: Phase::Receiving { candidate, count, bar: true }, ..self },
                    seq![RunAction::OpenBar, RunAction::Receive],
                )
            },
            RunEvent::Completed => {
                let marked = RunModel { done: self.done.update(self.track, true), ..self };
                let (m, a) = marked.from_track(self.track + 1);
                (
                    m,
                    seq![RunAction::SaveTracks] + if bar {
                        seq![RunAction::CompleteBar { track: self.track as usize }]
                    } else {
                        Seq::empty()
                    } + seq![RunAction::HideSearch, RunAction::TrackOver] + a,
                )
            },
            RunEvent::Failed => {
                let (m, a) = self.search_over();
                (
                    m,
                    seq![
                        RunAction::SkipCandidate { candidate, reason: SkipReason::DownloadFailed },
                    ] + close + seq![RunAction::HideSearch] + a,
                )
            },
            RunEvent::TimedOut => {
                let (m, a) = self.from_candidate(candidate + 1, count as int);
                (
                    m,
                    seq![RunAction::SkipCandidate { candidate, reason: SkipReason::TimedOut }]
                        + close + a,
                )
            },
            RunEvent::Cancelled => {
                let (m, a) = self.from_candidate(candidate + 1, count as int);
                (
                    m,
                    seq![RunAction::SkipCandidate { candidate, reason: SkipReason::Cancelled }]
                        + close + a,
                )
            },
            RunEvent::Closed => self.from_candidate(candidate + 1, count as int),
            _ => (self, Seq::empty()),
        }
    }
}

/// Which tracks of a list are there.
pub open spec fn marks(tracks: Seq<TrackRow>) -> Seq<bool> {
    tracks.map_values(|t: TrackRow| t.is_downloaded)
}

/// A list of tracks being fetched.
#[derive(Debug)]
pub struct DownloadRun {
    pub tracks: Vec<TrackRow>,
    pub track: usize,
    pub retry: u32,
    pub max_retries: u32,
    pub phase: Phase,
}

impl View for DownloadRun {
    type V = RunModel;

    open spec fn view(&self) -> RunModel {
        RunModel {
            done: marks(self.tracks@),
            track: self.track as int,
            retry: self.retry as int,
            max_retries: self.max_retries as int,
            phase: self.phase,
        }
    }
}

/// Only the mark of a track may change.
pub open spec fn same_but_marks(a: Seq<TrackRow>, b: Seq<TrackRow>) -> bool {
    &&& a.len() == b.len()
    &&& forall|i: int|
        0 <= i < a.len() ==> #[trigger] a[i] == (TrackRow {
            is_downloaded: a[i].is_downloaded,
            ..b[i]
        })
}

impl DownloadRun {
    /// A run over the given tracks, and what is done first.
    pub fn new(tracks: Vec<TrackRow>, max_retries: u32) -> (r: (DownloadRun, Vec<RunAction>))
        ensures
            ({
                let start = RunModel {
                    done: marks(tracks@),
                    track: 0,
                    retry: 0,
                    max_retries: max_retries as int,
                    phase: Phase::Over,
                };
                &&& r.0@ == start.from_track(0).0
                &&& r.1@ == start.from_track(0).1
            }),
            r.0.tracks == tracks,
            r.0@.sound(),
    {
        let mut run = DownloadRun { tracks, track: 0, retry: 0, max_retries, phase: Phase::Over };
        let actions = run.go_from(0);
        (run, actions)
    }

    fn go_from(&mut self, track: usize) -> (r: Vec<RunAction>)
        requires
            track <= old(self).tracks@.len(),
        ensures
            final(self)@ == old(self)@.from_track(track as int).0,
            r@ == old(self)@.from_track(track as int).1,
            final(self).tracks == old(self).tracks,
            final(self)@.sound(),
    {
        let ghost start = self@;
        let ghost wanted = start.from_track(track as int);
        let mut actions: Vec<RunAction> = Vec::new();
        let mut t: usize = track;
        assert(actions@ + start.from_track(t as int).1 =~= wanted.1);
        while t < self.tracks.len()
            invariant
                t <= self.tracks@.len(),
                *self == *old(self),
                start == self@,
                wanted == old(self)@.from_track(track as int),
                wanted.0 == start.from_track(t as int).0,
                wanted.1 == actions@ + start.from_track(t as int).1,
            decreases self.tracks.len() - t,
        {
            let ghost before = actions@;
            actions.push(RunAction::ShowTrack { track: t });
            if self.tracks[t].is_downloaded || self.max_retries == 0 {
                actions.push(RunAction::TrackOver);
                let ghost rest = start.from_track(t + 1).1;
                assert(before + (seq![RunAction::ShowTrack { track: t }, RunAction::TrackOver]
                    + rest) =~= actions@ + rest);
                t += 1;
            } else {
                actions.push(RunAction::ShowSearch { track: t, retry: 0 });
                actions.push(RunAction::Search { track: t });
                self.track = t;
                self.retry = 0;
                self.phase = Phase::Searching;
                assert(actions@ =~= wanted.1);
                assert(self@ =~= wanted.0);
                return actions;
            }
        }
        self.track = t;
        self.phase = Phase::Over;
        actions.push(RunAction::Finish);
        assert(actions@ =~= wanted.1);
        assert(self@ =~= wanted.0);
        actions
    }

    fn end_search(&mut self, actions: &mut Vec<RunAction>)
        requires
            old(self)@.sound(),
            !(old(self).phase is Over),
        ensures
            final(self)@ == old(self)@.search_over().0,
            final(actions)@ == old(actions)@ + old(self)@.search_over().1,
            final(self).tracks == old(self).tracks,
            final(self)@.sound(),
    {
        let ghost wanted = self@.search_over();
        let ghost before = actions@;
        if self.retry + 1 < self.max_retries {
            self.retry = self.retry + 1;
            self.phase = Phase::Searching;
            actions.push(RunAction::ShowSearch { track: self.track, retry: self.retry });
            actions.push(RunAction::Search { track: self.track });
            assert(self@ =~= wanted.0);
        } else {
            actions.push(RunAction::TrackOver);
            let mut rest = self.go_from(self.track + 1);
            actions.append(&mut rest);
        }
        assert(actions@ =~= before + wanted.1);
    }

    fn try_candidate(&mut self, candidate: usize, count: usize, actions: &mut Vec<RunAction>)
        requires
            old(self)@.sound(),
            !(old(self).phase is Over),
        ensures
            final(self)@ == old(self)@.from_candidate(candidate as int, count as int).0,
            final(actions)@ == old(actions)@ + old(self)@.from_candidate(
                candidate as int,
                count as int,
            ).1,
            final(self).tracks == old(self).tracks,
            final(self)@.sound(),
    {
        let ghost wanted = self@.from_candidate(candidate as int, count as int);
        let ghost before = actions@;
        if candidate < count {
            self.phase = Phase::Requesting { candidate, count };
            actions.push(RunAction::ShowCandidate { candidate, count });
            actions.push(RunAction::Request { candidate });
            assert(self@ =~= wanted.0);
        } else {
            actions.push(RunAction::HideSearch);
            self.end_search(actions);
        }
        assert(actions@ =~= before + wanted.1);
    }

    fn nothing_found(&mut self, error: Option<String>, actions: &mut Vec<RunAction>)
        requires
            old(self)@.sound(),
            !(old(self).phase is Over),
        ensures
            final(self)@ == old(self)@.found_nothing(error).0,
            final(actions)@ == old(actions)@ + old(self)@.found_nothing(error).1,
            final(self).tracks == old(self).tracks,
            final(self)@.sound(),
    {
        let ghost wanted = self@.found_nothing(error);
        let ghost before = actions@;
        actions.push(RunAction::HideSearch);
        if self.retry + 1 == self.max_retries {
            actions.push(RunAction::SayGivenUp { track: self.track, error });
        }
        self.end_search(actions);
        assert(actions@ =~= before + wanted.1);
    }

    /// Take note of what has happened, and say what is done.
    pub fn handle(&mut self, event: RunEvent) -> (r: Vec<RunAction>)
        requires
            old(self)@.sound(),
            old(self)@.expects(event),
        ensures
            final(self)@ == old(self)@.step(event).0,
            r@ == old(self)@.step(event).1,
            same_but_marks(final(self).tracks@, old(self).tracks@),
            final(self)@.sound(),
    {
        let ghost wanted = self@.step(event);
        let mut actions: Vec<RunAction> = Vec::new();
        match (self.phase, event) {
            (Phase::Searching, RunEvent::Found { count }) => {
                if count > 0 {
                    self.try_candidate(0, count, &mut actions);
                } else {
                    self.nothing_found(None, &mut actions);
                }
            },
            (Phase::Searching, RunEvent::SearchFailed { error }) => {
                self.nothing_found(Some(error), &mut actions);
            },
            (Phase::Requesting { candidate, count }, RunEvent::Requested) => {
                self.phase = Phase::Receiving { candidate, count, bar: false };
                actions.push(RunAction::Receive);
            },
            (Phase::Requesting { candidate, count }, RunEvent::RequestFailed { error }) => {
                actions.push(
                    RunAction::SkipCandidate {
                        candidate,
                        reason: SkipReason::CouldNotInitiate { error },
                    },
                );
                self.try_candidate(candidate + 1, count, &mut actions);
            },
            (Phase::Receiving { candidate, count, bar }, e) => {
                self.hear(candidate, count, bar, e, &mut actions);
            },
            _ => {},
        }
        assert(self@ =~= wanted.0);
        assert(actions@ =~= wanted.1);
        actions
    }

    fn skip(candidate: usize, reason: SkipReason, bar: bool, actions: &mut Vec<RunAction>)
        ensures
            final(actions)@ == old(actions)@ + seq![
                RunAction::SkipCandidate { candidate, reason },
            ] + if bar {
                seq![RunAction::CloseBar]
            } else {
                Seq::empty()
            },
    {
        actions.push(RunAction::SkipCandidate { candidate, reason });
        if bar {
            actions.push(RunAction::CloseBar);
        }
        assert(actions@ =~= old(actions)@ + seq![RunAction::SkipCandidate { candidate, reason }]
            + if bar {
            seq![RunAction::CloseBar]
        } else {
            Seq::empty()
        });
    }

    fn hear(
        &mut self,
        candidate: usize,
        count: usize,
        bar: bool,
        event: RunEvent,
        actions: &mut Vec<RunAction>,
    )
        requires
            old(self)@.sound(),
            old(self)@.expects(event),
            old(self).phase == (Phase::Receiving { candidate, count, bar }),
            old(actions)@.len() == 0,
        ensures
            final(self)@ == old(self)@.news(candidate, count, bar, event).0,
            final(actions)@ == old(self)@.news(candidate, count, bar, event).1,
            same_but_marks(final(self).tracks@, old(self).tracks@),
            final(self)@.sound(),
    {
        let ghost wanted = self@.news(candidate, count, bar, event);
        let ghost before = self@;
        match event {
            RunEvent::QueuedLocally => {
                actions.push(RunAction::ShowQueuedLocally);
                actions.push(RunAction::Receive);
            },
            RunEvent::QueuedRemotely { place } => {
                actions.push(RunAction::ShowQueuedRemotely { place });
                actions.push(RunAction::Receive);
            },
            RunEvent::InProgress { bytes_downloaded, total_bytes } => {
                if bar {
                    actions.push(RunAction::MoveBar { bytes_downloaded, total_bytes });
                } else {
                    self.phase = Phase::Receiving { candidate, count, bar: true };
                    actions.push(RunAction::OpenBar);
                }
                actions.push(RunAction::Receive);
            },
            RunEvent::Completed => {
                let t: usize = self.track;
                let row = &self.tracks[t];
                let marked = TrackRow {
                    title: row.title.clone(),
                    album: row.album.clone(),
                    artist: row.artist.clone(),
                    duration_seconds: row.duration_seconds,
                    is_downloaded: true,
                };
                self.tracks.set(t, marked);
                assert(marks(self.tracks@) =~= before.done.update(t as int, true));
                actions.push(RunAction::SaveTracks);
                if bar {
                    actions.push(RunAction::CompleteBar { track: t });
                }
                actions.push(RunAction::HideSearch);
                actions.push(RunAction::TrackOver);
                let mut rest = self.go_from(t + 1);
                actions.append(&mut rest);
            },
            RunEvent::Failed => {
                DownloadRun::skip(candidate, SkipReason::DownloadFailed, bar, actions);
                actions.push(RunAction::HideSearch);
                self.end_search(actions);
            },
            RunEvent::TimedOut => {
                DownloadRun::skip(candidate, SkipReason::TimedOut, bar, actions);
                self.try_candidate(candidate + 1, count, actions);
            },
            RunEvent::Cancelled => {
                DownloadRun::skip(candidate, SkipReason::Cancelled, bar, actions);
                self.try_candidate(candidate + 1, count, actions);
            },
            RunEvent::Closed => {
                self.try_candidate(candidate + 1, count, actions);
            },
            _ => {},
        }
        assert(self@ =~= wanted.0);
        assert(actions@ =~= wanted.1);
    }
}

// ---- laws ------------------------------------------------------------------------------------

/// The action searches for the given track.
pub open spec fn searches(a: RunAction, track: int) -> bool {
    a matches RunAction::Search { track: t } && t == track
}

proof fn lemma_from_track_searches(m: RunModel, track: int, i: int, t: int)
    requires
        0 <= track <= m.done.len() <= usize::MAX,
        0 <= i < m.from_track(track).1.len(),
        searches(m.from_track(track).1[i], t),
    ensures
        track <= t < m.done.len(),
        !m.done[t],
        m.from_track(track).0.track == t,
    decreases m.done.len() - track,
{
    if track < m.done.len() && (m.done[track] || m.max_retries == 0) {
        let rest = m.from_track(track + 1).1;
        assert(i >= 2);
        assert(m.from_track(track).1[i] == rest[i - 2]);
        lemma_from_track_searches(m, track + 1, i - 2, t);
    }
}

/// A track that is there is not searched for, so that a second run goes on where
/// the first one stopped.
pub proof fn lemma_first_search_is_needed(m: RunModel, i: int, track: int)
    requires
        m.done.len() <= usize::MAX,
        0 <= i < m.from_track(0).1.len(),
        searches(m.from_track(0).1[i], track),
    ensures
        0 <= track < m.done.len(),
        !m.done[track],
{
    lemma_from_track_searches(m, 0, i, track);
}

proof fn lemma_from_track(m: RunModel, track: int)
    requires
        0 <= track <= m.done.len(),
    ensures
        m.from_track(track).0.done == m.done,
        m.from_track(track).0.max_retries == m.max_retries,
        m.from_track(track).0.phase is Over || m.from_track(track).0.phase is Searching,
        m.from_track(track).0.phase is Searching ==> {
            &&& m.from_track(track).0.retry == 0
            &&& track <= m.from_track(track).0.track < m.done.len()
            &&& !m.done[m.from_track(track).0.track]
            &&& m.max_retries != 0
        },
    decreases m.done.len() - track,
{
    if track < m.done.len() && (m.done[track] || m.max_retries == 0) {
        lemma_from_track(m, track + 1);
    }
}

/// A run stays sound: only tracks that are not there are worked on, and none is
/// searched for more often than is allowed.
pub proof fn lemma_soundness_is_kept(m: RunModel, event: RunEvent)
    requires
        m.sound(),
        m.expects(event),
    ensures
        m.step(event).0.sound(),
{
    lemma_from_track(m, m.track + 1);
    let marked = RunModel { done: m.done.update(m.track, true), ..m };
    lemma_from_track(marked, m.track + 1);
}

/// A track that is there stays there, and none but the one being fetched, when it
/// has come whole, is marked.
pub proof fn lemma_marks_only_grow(m: RunModel, event: RunEvent, i: int)
    requires
        m.sound(),
        m.expects(event),
        0 <= i < m.done.len(),
    ensures
        m.step(event).0.done.len() == m.done.len(),
        m.done[i] ==> m.step(event).0.done[i],
        !m.done[i] && m.step(event).0.done[i] ==> i == m.track && event is Completed,
        event is Completed ==> m.step(event).0.done[m.track],
{
    lemma_from_track(m, m.track + 1);
    let marked = RunModel { done: m.done.update(m.track, true), ..m };
    lemma_from_track(marked, m.track + 1);
}

/// How far a run is: the tracks, the searches and the candidates that are left.
pub open spec fn left(m: RunModel) -> (int, int, int) {
    if m.phase is Over {
        (0, 0, 0)
    } else {
        (
            m.done.len() - m.track + 1,
            m.max_retries - m.retry,
            match m.phase {
                Phase::Requesting { candidate, count } => 2 * (count - candidate),
                Phase::Receiving { candidate, count, .. } => 2 * (count - candidate) - 1,
                _ => 2 * (usize::MAX + 1),
            },
        )
    }
}

/// A run does not go on for ever: what ends a search, a request or a download
/// leaves fewer tracks, or as many and fewer searches, or as many of both and fewer
/// candidates.
pub proof fn lemma_run_gets_on(m: RunModel, event: RunEvent)
    requires
        m.sound(),
        m.expects(event),
        !(event is QueuedLocally) && !(event is QueuedRemotely) && !(event is InProgress),
    ensures
        ({
            let (a, b, c) = left(m);
            let (x, y, z) = left(m.step(event).0);
            &&& x >= 0 && y >= 0 && z >= 0
            &&& x < a || (x == a && (y < b || (y == b && z < c)))
        }),
{
    lemma_soundness_is_kept(m, event);
    lemma_from_track(m, m.track + 1);
    let marked = RunModel { done: m.done.update(m.track, true), ..m };
    lemma_from_track(marked, m.track + 1);
}

} // verus!
