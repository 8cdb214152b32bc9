//! What is done with each file, step by step.
use vstd::prelude::*;

use super::art::{maybe_resize_art, ArtError};
use super::bad_file::AudioError;
use super::cli::Args;
use super::template::render;
use super::track::{FileTagMetadata, ResolvedTrackMetadata};
use crate::cover_art::AlbumArt;
use crate::musicbrainz::TrackMetadata;
use crate::text::{append_str, decimal_chars, from_chars, str_eq, to_lowercase};

verus! {

/// An extension of audio files, in small letters.
pub open spec fn is_audio_extension(lower: Seq<char>) -> bool {
    lower == "mp3"@ || lower == "flac"@ || lower == "ogg"@ || lower == "m4a"@ || lower == "wav"@
        || lower == "aiff"@ || lower == "aif"@ || lower == "opus"@
}

/// Whether an extension, in small letters, is one of audio files.
pub fn has_audio_extension(lower: &str) -> (r: bool)
    ensures
        r == is_audio_extension(lower@),
{
    str_eq(lower, "mp3") || str_eq(lower, "flac") || str_eq(lower, "ogg") || str_eq(lower, "m4a")
        || str_eq(lower, "wav") || str_eq(lower, "aiff") || str_eq(lower, "aif") || str_eq(
        lower,
        "opus",
    )
}

/// Whether a file with the given extension is an audio file.
pub fn is_audio_file(extension: Option<String>) -> (r: bool)
    ensures
        r == match extension {
            Some(e) => is_audio_extension(crate::text::lowercase(e@)),
            None => false,
        },
{
    match extension {
        Some(e) => {
            let lower = to_lowercase(e.as_str());
            has_audio_extension(lower.as_str())
        },
        None => false,
    }
}

/// Why a file was left as it is.
#[derive(Debug, Clone, Copy, PartialEq, Eq, Structural)]
pub enum SkipReason {
    AlreadyProcessed,
    OutputExists,
}

impl SkipReason {
    /// The reason in words, for the given path.
    pub fn message(&self, output_path: &str) -> (r: String)
        ensures
            r@ == match *self {
                SkipReason::AlreadyProcessed =>
                    "already processed (KYLE_PROCESSED_AT present; use --overwrite-metadata to re-run)"@,
                SkipReason::OutputExists => "output already exists: "@ + output_path@,
            },
    {
        match self {
            SkipReason::AlreadyProcessed =>
                "already processed (KYLE_PROCESSED_AT present; use --overwrite-metadata to re-run)".to_owned(),
            SkipReason::OutputExists => append_str("output already exists: ", output_path),
        }
    }
}

/// What came of a file.
#[derive(Debug)]
pub enum ProcessOutcome {
    Done,
    Skipped(SkipReason),
    RoutedToUnknownDirectory,
    BadFile(AudioError),
}

/// How far a file is.
#[derive(Debug)]
pub enum Stage {
    Checking,
    ReadingMark,
    LookingUp { already_processed: bool },
    ReadingTags { already_processed: bool },
    FetchingArt { already_processed: bool, meta: ResolvedTrackMetadata },
    Applying { meta: ResolvedTrackMetadata },
    Comparing,
    CheckingDestination,
    Asking,
    Transferring,
    RoutingToUnknown,
    Ended,
}

/// What has come of the last step.
#[derive(Debug)]
pub enum Event {
    AudioChecked { failure: Option<AudioError> },
    MarkRead { already_processed: bool },
    LookedUp { found: Option<TrackMetadata> },
    TagsRead { tags: Option<FileTagMetadata> },
    ArtFetched { art: Option<AlbumArt> },
    Applied,
    Compared { same: bool },
    DestinationChecked { occupied: bool },
    Answered { overwrite: bool },
    Transferred,
}

/// What is done next.
#[derive(Debug)]
pub enum Step {
    /// See whether the file can be decoded.
    CheckAudio,
    /// See whether the file has been processed before.
    ReadMark,
    /// Identify the track.
    LookUp,
    /// Read the tags of the file.
    ReadTags,
    /// Fetch the cover of a release; that it cannot be had is no failure.
    FetchArt { release_mbid: String },
    /// Write the tags.
    Apply { art: Option<AlbumArt>, already_processed: bool },
    /// See whether the file is where it is to go already.
    ComparePaths,
    /// Make the directories, and see whether a file is in the way.
    PrepareDestination,
    /// Ask whether the file that is in the way is overwritten.
    Ask,
    /// Copy or move the file to where it is to go.
    Transfer { move_file: bool },
    /// Copy or move the file, under its own name, to where files go of which
    /// nothing is known.
    RouteToUnknown { move_file: bool },
    Finish { outcome: ProcessOutcome },
    /// The file has failed: its cover could not be made to fit.
    Fail { error: ArtError },
}

/// The event is one that can come at that stage.
pub open spec fn expected(stage: Stage, event: Event) -> bool {
    match stage {
        Stage::Checking => event is AudioChecked,
        Stage::ReadingMark => event is MarkRead,
        Stage::LookingUp { .. } => event is LookedUp,
        Stage::ReadingTags { .. } => event is TagsRead,
        Stage::FetchingArt { .. } => event is ArtFetched,
        Stage::Applying { .. } => event is Applied,
        Stage::Comparing => event is Compared,
        Stage::CheckingDestination => event is DestinationChecked,
        Stage::Asking => event is Answered,
        Stage::Transferring => event is Transferred,
        Stage::RoutingToUnknown => event is Transferred,
        Stage::Ended => false,
    }
}

/// The file has ended.
pub open spec fn ended(outcome: ProcessOutcome) -> (Stage, Step) {
    (Stage::Ended, Step::Finish { outcome })
}

/// The file is copied or moved.
pub open spec fn transferring(args: Args) -> (Stage, Step) {
    (Stage::Transferring, Step::Transfer { move_file: args.move_files })
}

/// What is known of the track is known: where MusicBrainz was asked, the cover of
/// what it found is fetched, or the tags are marked; where it was not, no tag is
/// written.
pub open spec fn resolved(args: Args, already_processed: bool, meta: ResolvedTrackMetadata) -> (
    Stage,
    Step,
) {
    if args.no_musicbrainz {
        (Stage::Comparing, Step::ComparePaths)
    } else {
        match meta {
            ResolvedTrackMetadata::MusicBrainz(m) => (
                Stage::FetchingArt { already_processed, meta },
                Step::FetchArt { release_mbid: m.release_mbid },
            ),
            ResolvedTrackMetadata::ExistingFile(_) => (
                Stage::Applying { meta },
                Step::Apply { art: None, already_processed },
            ),
        }
    }
}

/// Covers are to be made to fit.
pub open spec fn bounds_covers(args: Args) -> bool {
    args.max_image_width is Some || args.max_image_height is Some
}

/// Where an event brings a cover that is to be made to fit, `fit` is what that came
/// to.
pub open spec fn cover_fitted(args: Args, event: Event, fit: Result<AlbumArt, ArtError>) -> bool {
    match event {
        Event::ArtFetched { art: Some(a) } => bounds_covers(args) ==> super::art::is_fitted(
            a,
            args.max_image_width,
            args.max_image_height,
            fit,
        ),
        _ => true,
    }
}

/// What an event leads to: how far the file is then, and what is done next. Where a
/// cover is to be made to fit, `fit` is what that came to.
pub open spec fn advanced(
    args: Args,
    stage: Stage,
    event: Event,
    fit: Result<AlbumArt, ArtError>,
) -> (Stage, Step) {
    match (stage, event) {
        (Stage::Checking, Event::AudioChecked { failure }) => match failure {
            Some(e) => ended(ProcessOutcome::BadFile(e)),
            None => (Stage::ReadingMark, Step::ReadMark),
        },
        (Stage::ReadingMark, Event::MarkRead { already_processed }) => if already_processed
            && !args.overwrite_metadata {
            ended(ProcessOutcome::Skipped(SkipReason::AlreadyProcessed))
        } else if args.no_musicbrainz {
            (Stage::ReadingTags { already_processed }, Step::ReadTags)
        } else {
            (Stage::LookingUp { already_processed }, Step::LookUp)
        },
        (Stage::LookingUp { already_processed }, Event::LookedUp { found }) => match found {
            Some(m) => resolved(args, already_processed, ResolvedTrackMetadata::MusicBrainz(m)),
            None => (Stage::ReadingTags { already_processed }, Step::ReadTags),
        },
        (Stage::ReadingTags { already_processed }, Event::TagsRead { tags }) => match tags {
            Some(t) => resolved(args, already_processed, ResolvedTrackMetadata::ExistingFile(t)),
            None => (
                Stage::RoutingToUnknown,
                Step::RouteToUnknown { move_file: args.move_files },
            ),
        },
        (Stage::FetchingArt { already_processed, meta }, Event::ArtFetched { art }) => match art {
            Some(a) => if bounds_covers(args) {
                match fit {
                    Ok(b) => (
                        Stage::Applying { meta },
                        Step::Apply { art: Some(b), already_processed },
                    ),
                    Err(error) => (Stage::Ended, Step::Fail { error }),
                }
            } else {
                (Stage::Applying { meta }, Step::Apply { art: Some(a), already_processed })
            },
            None => (Stage::Applying { meta }, Step::Apply { art: None, already_processed }),
        },
        (Stage::Applying { .. }, Event::Applied) => (Stage::Comparing, Step::ComparePaths),
        (Stage::Comparing, Event::Compared { same }) => if same {
            ended(ProcessOutcome::Done)
        } else {
            (Stage::CheckingDestination, Step::PrepareDestination)
        },
        (Stage::CheckingDestination, Event::DestinationChecked { occupied }) => if !occupied
            || args.overwrite_files {
            transferring(args)
        } else if args.non_interactive {
            ended(ProcessOutcome::Skipped(SkipReason::OutputExists))
        } else {
            (Stage::Asking, Step::Ask)
        },
        (Stage::Asking, Event::Answered { overwrite }) => if overwrite {
            transferring(args)
        } else {
            ended(ProcessOutcome::Skipped(SkipReason::OutputExists))
        },
        (Stage::Transferring, Event::Transferred) => ended(ProcessOutcome::Done),
        (Stage::RoutingToUnknown, Event::Transferred) => ended(
            ProcessOutcome::RoutedToUnknownDirectory,
        ),
        _ => ended(ProcessOutcome::Done),
    }
}

/// What the name of the file is made from, where an event settles it.
pub open spec fn named_after(args: Args, stage: Stage, event: Event) -> Option<
    ResolvedTrackMetadata,
> {
    match (stage, event) {
        (Stage::LookingUp { .. }, Event::LookedUp { found: Some(m) }) => if args.no_musicbrainz {
            Some(ResolvedTrackMetadata::MusicBrainz(m))
        } else {
            None
        },
        (Stage::ReadingTags { .. }, Event::TagsRead { tags: Some(t) }) => if args.no_musicbrainz {
            Some(ResolvedTrackMetadata::ExistingFile(t))
        } else {
            None
        },
        (Stage::Applying { meta }, Event::Applied) => Some(meta),
        _ => None,
    }
}

/// The extension that goes into the name of a file, where it has one that is
/// text.
pub open spec fn extension_of(extension: Option<String>) -> Seq<char> {
    match extension {
        Some(e) => e@,
        None => "bin"@,
    }
}

/// A file under way.
#[derive(Debug)]
pub struct FileProcess {
    pub stage: Stage,
    /// The extension of the file.
    pub extension: Option<String>,
    /// The path it is to have, once that is settled, below where files go.
    pub relative: String,
}

impl FileProcess {
    /// A file with the given extension, and what is done with it first.
    pub fn new(extension: Option<String>) -> (r: (FileProcess, Step))
        ensures
            r.0.stage == Stage::Checking,
            r.0.extension == extension,
            r.0.relative@.len() == 0,
            r.1 == Step::CheckAudio,
    {
        (
            FileProcess { stage: Stage::Checking, extension, relative: String::new() },
            Step::CheckAudio,
        )
    }

    fn resolve(&mut self, args: &Args, already_processed: bool, meta: ResolvedTrackMetadata) -> (r:
        Step)
        ensures
            final(self).stage == resolved(*args, already_processed, meta).0,
            r == resolved(*args, already_processed, meta).1,
            final(self).extension == old(self).extension,
            if args.no_musicbrainz {
                final(self).relative@ == super::template::rendered(
                    args.template@,
                    super::template::names_of(meta),
                    extension_of(old(self).extension),
                )
            } else {
                final(self).relative == old(self).relative
            },
    {
        if args.no_musicbrainz {
            self.name(args, &meta);
            self.stage = Stage::Comparing;
            return Step::ComparePaths;
        }
        match &meta {
            ResolvedTrackMetadata::MusicBrainz(m) => {
                let release_mbid = m.release_mbid.clone();
                self.stage = Stage::FetchingArt { already_processed, meta };
                Step::FetchArt { release_mbid }
            },
            ResolvedTrackMetadata::ExistingFile(_) => {
                self.stage = Stage::Applying { meta };
                Step::Apply { art: None, already_processed }
            },
        }
    }

    fn name(&mut self, args: &Args, meta: &ResolvedTrackMetadata)
        ensures
            final(self).relative@ == super::template::rendered(
                args.template@,
                super::template::names_of(*meta),
                extension_of(old(self).extension),
            ),
            final(self).stage == old(self).stage,
            final(self).extension == old(self).extension,
    {
        let ext = match &self.extension {
            Some(e) => e.clone(),
            None => "bin".to_owned(),
        };
        self.relative = render(args.template.as_str(), meta, ext.as_str());
    }

    fn end(&mut self, outcome: ProcessOutcome) -> (r: Step)
        ensures
            final(self).stage == ended(outcome).0,
            r == ended(outcome).1,
            final(self).extension == old(self).extension,
            final(self).relative == old(self).relative,
    {
        self.stage = Stage::Ended;
        Step::Finish { outcome }
    }

    fn transfer(&mut self, args: &Args) -> (r: Step)
        ensures
            final(self).stage == transferring(*args).0,
            r == transferring(*args).1,
            final(self).extension == old(self).extension,
            final(self).relative == old(self).relative,
    {
        self.stage = Stage::Transferring;
        Step::Transfer { move_file: args.move_files }
    }

    /// Take note of what has come of the last step, and say what is done next.
    pub fn process_file(&mut self, args: &Args, event: Event) -> (r: Step)
        requires
            expected(old(self).stage, event),
        ensures
            exists|fit: Result<AlbumArt, ArtError>|
                cover_fitted(*args, event, fit) && (final(self).stage, r) == #[trigger] advanced(
                    *args,
                    old(self).stage,
                    event,
                    fit,
                ),
            final(self).extension == old(self).extension,
            match named_after(*args, old(self).stage, event) {
                Some(meta) => final(self).relative@ == super::template::rendered(
                    args.template@,
                    super::template::names_of(meta),
                    extension_of(old(self).extension),
                ),
                None => final(self).relative == old(self).relative,
            },
    {
        let ghost before = self.stage;
        let ghost event0 = event;
        let ghost mut fit: Result<AlbumArt, ArtError> = Err(ArtError::Unreadable);
        let mut stage = Stage::Ended;
        core::mem::swap(&mut stage, &mut self.stage);
        let step = match (stage, event) {
            (Stage::Checking, Event::AudioChecked { failure }) => match failure {
                Some(e) => self.end(ProcessOutcome::BadFile(e)),
                None => {
                    self.stage = Stage::ReadingMark;
                    Step::ReadMark
                },
            },
            (Stage::ReadingMark, Event::MarkRead { already_processed }) => {
                if already_processed && !args.overwrite_metadata {
                    self.end(ProcessOutcome::Skipped(SkipReason::AlreadyProcessed))
                } else if args.no_musicbrainz {
                    self.stage = Stage::ReadingTags { already_processed };
                    Step::ReadTags
                } else {
                    self.stage = Stage::LookingUp { already_processed };
                    Step::LookUp
                }
            },
            (Stage::LookingUp { already_processed }, Event::LookedUp { found }) => match found {
                Some(m) => self.resolve(
                    args,
                    already_processed,
                    ResolvedTrackMetadata::MusicBrainz(m),
                ),
                None => {
                    self.stage = Stage::ReadingTags { already_processed };
                    Step::ReadTags
                },
            },
            (Stage::ReadingTags { already_processed }, Event::TagsRead { tags }) => match tags {
                Some(t) => self.resolve(
                    args,
                    already_processed,
                    ResolvedTrackMetadata::ExistingFile(t),
                ),
                None => {
                    self.stage = Stage::RoutingToUnknown;
                    Step::RouteToUnknown { move_file: args.move_files }
                },
            },
            (Stage::FetchingArt { already_processed, meta }, Event::ArtFetched { art }) => {
                match art {
                    Some(a) => {
                        if args.max_image_width.is_some() || args.max_image_height.is_some() {
                            let fitted = maybe_resize_art(
                                a,
                                args.max_image_width,
                                args.max_image_height,
                            );
                            proof {
                                fit = fitted;
                            }
                            match fitted {
                                Ok(b) => {
                                    self.stage = Stage::Applying { meta };
                                    Step::Apply { art: Some(b), already_processed }
                                },
                                Err(error) => Step::Fail { error },
                            }
                        } else {
                            self.stage = Stage::Applying { meta };
                            Step::Apply { art: Some(a), already_processed }
                        }
                    },
                    None => {
                        self.stage = Stage::Applying { meta };
                        Step::Apply { art: None, already_processed }
                    },
                }
            },
            (Stage::Applying { meta }, Event::Applied) => {
                self.name(args, &meta);
                self.stage = Stage::Comparing;
                Step::ComparePaths
            },
            (Stage::Comparing, Event::Compared { same }) => {
                if same {
                    self.end(ProcessOutcome::Done)
                } else {
                    self.stage = Stage::CheckingDestination;
                    Step::PrepareDestination
                }
            },
            (Stage::CheckingDestination, Event::DestinationChecked { occupied }) => {
                if !occupied {
                    self.transfer(args)
                } else {
                    match resolve_file_conflict(args) {
                        Some(true) => self.transfer(args),
                        Some(false) => self.end(
                            ProcessOutcome::Skipped(SkipReason::OutputExists),
                        ),
                        None => {
                            self.stage = Stage::Asking;
                            Step::Ask
                        },
                    }
                }
            },
            (Stage::Asking, Event::Answered { overwrite }) => {
                if overwrite {
                    self.transfer(args)
                } else {
                    self.end(ProcessOutcome::Skipped(SkipReason::OutputExists))
                }
            },
            (Stage::Transferring, Event::Transferred) => self.end(ProcessOutcome::Done),
            (Stage::RoutingToUnknown, Event::Transferred) => self.end(
                ProcessOutcome::RoutedToUnknownDirectory,
            ),
            _ => self.end(ProcessOutcome::Done),
        };
        assert(cover_fitted(*args, event0, fit));
        assert((self.stage, step) == advanced(*args, before, event0, fit));
        step
    }
}

/// Whether a file that is in the way is overwritten; `None` where the user is to
/// be asked.
pub fn resolve_file_conflict(args: &Args) -> (r: Option<bool>)
    ensures
        r == if args.overwrite_files {
            Some(true)
        } else if args.non_interactive {
            Some(false)
        } else {
            None
        },
{
    if args.overwrite_files {
        Some(true)
    } else if args.non_interactive {
        Some(false)
    } else {
        None
    }
}

/// Where files go of which nothing is known: to the directory that was asked for;
/// `None` for the directory `unknown` below where files go.
pub fn unknown_dir(args: &Args) -> (r: Option<String>)
    ensures
        r == args.unknown_dir,
{
    match &args.unknown_dir {
        Some(d) => Some(d.clone()),
        None => None,
    }
}

// ---- the whole run ------------------------------------------------------------------------

/// What came of the files so far.
#[derive(Debug, Clone, Copy, PartialEq, Eq, Structural)]
pub struct Tally {
    pub succeeded: u64,
    pub skipped: u64,
    pub failed: u64,
    pub bad_files: u64,
    pub unknown: u64,
}

/// The tally with one file more; `None` is a file that failed.
pub open spec fn counted(t: Tally, outcome: Option<ProcessOutcome>) -> Tally {
    match outcome {
        Some(ProcessOutcome::Done) => Tally { succeeded: (t.succeeded + 1) as u64, ..t },
        Some(ProcessOutcome::BadFile(_)) => Tally { bad_files: (t.bad_files + 1) as u64, ..t },
        Some(ProcessOutcome::Skipped(_)) => Tally { skipped: (t.skipped + 1) as u64, ..t },
        Some(ProcessOutcome::RoutedToUnknownDirectory) => Tally {
            unknown: (t.unknown + 1) as u64,
            ..t
        },
        None => Tally { failed: (t.failed + 1) as u64, ..t },
    }
}

impl Tally {
    /// How many files have been counted.
    pub open spec fn total(self) -> int {
        self.succeeded + self.skipped + self.failed + self.bad_files + self.unknown
    }

    /// A tally of no files.
    pub fn new() -> (r: Self)
        ensures
            r == (Tally { succeeded: 0, skipped: 0, failed: 0, bad_files: 0, unknown: 0 }),
            r.total() == 0,
    {
        Tally { succeeded: 0, skipped: 0, failed: 0, bad_files: 0, unknown: 0 }
    }

    /// Count a file; `None` is one that failed.
    pub fn count(&mut self, outcome: &Option<ProcessOutcome>)
        requires
            old(self).total() < u64::MAX,
        ensures
            *final(self) == counted(*old(self), *outcome),
            final(self).total() == old(self).total() + 1,
    {
        match outcome {
            Some(ProcessOutcome::Done) => {
                self.succeeded = self.succeeded + 1;
            },
            Some(ProcessOutcome::BadFile(_)) => {
                self.bad_files = self.bad_files + 1;
            },
            Some(ProcessOutcome::Skipped(_)) => {
                self.skipped = self.skipped + 1;
            },
            Some(ProcessOutcome::RoutedToUnknownDirectory) => {
                self.unknown = self.unknown + 1;
            },
            None => {
                self.failed = self.failed + 1;
            },
        }
    }

    /// What the user is told at the end.
    pub fn summary(&self) -> (r: String)
        ensures
            r@ == "\nProcessed "@ + crate::text::decimal(self.succeeded as nat)
                + " file(s), skipped "@ + crate::text::decimal(self.skipped as nat) + ", failed "@
                + crate::text::decimal(self.failed as nat) + ".\nFound "@ + crate::text::decimal(
                self.bad_files as nat,
            ) + " bad files."@ + if self.unknown > 0 {
                "\n"@ + crate::text::decimal(self.unknown as nat)
                    + " file(s) with no metadata copied to unknown directory."@
            } else {
                Seq::empty()
            },
    {
        let mut out = append_str(
            "\nProcessed ",
            from_chars(&decimal_chars(self.succeeded)).as_str(),
        );
        out.append(" file(s), skipped ");
        out.append(from_chars(&decimal_chars(self.skipped)).as_str());
        out.append(", failed ");
        out.append(from_chars(&decimal_chars(self.failed)).as_str());
        out.append(".\nFound ");
        out.append(from_chars(&decimal_chars(self.bad_files)).as_str());
        out.append(" bad files.");
        let ghost before = out@;
        if self.unknown > 0 {
            let mut last = append_str("\n", from_chars(&decimal_chars(self.unknown)).as_str());
            last.append(" file(s) with no metadata copied to unknown directory.");
            out.append(last.as_str());
        } else {
            assert(before + Seq::<char>::empty() =~= before);
        }
        out
    }
}

// ---- laws ------------------------------------------------------------------------------------

/// Where MusicBrainz is not asked, a file is never at a stage that leads to its
/// tags being written.
pub open spec fn reachable(args: Args, stage: Stage) -> bool {
    args.no_musicbrainz ==> !(stage is LookingUp) && !(stage is FetchingArt) && !(
    stage is Applying)
}

/// Where MusicBrainz is not asked, no tag is ever written.
pub proof fn lemma_no_musicbrainz_writes_no_tags(
    args: Args,
    stage: Stage,
    event: Event,
    fit: Result<AlbumArt, ArtError>,
)
    requires
        reachable(args, stage),
        expected(stage, event),
    ensures
        reachable(args, advanced(args, stage, event, fit).0),
        args.no_musicbrainz ==> !(advanced(args, stage, event, fit).1 is Apply),
{
}

/// A file that was processed before is left as it is, unless it is to be processed
/// again.
pub proof fn lemma_processed_file_is_left(
    args: Args,
    event: Event,
    fit: Result<AlbumArt, ArtError>,
)
    requires
        event == (Event::MarkRead { already_processed: true }),
        !args.overwrite_metadata,
    ensures
        advanced(args, Stage::ReadingMark, event, fit) == ended(
            ProcessOutcome::Skipped(SkipReason::AlreadyProcessed),
        ),
{
}

/// A file that is in the way is overwritten only where that was asked for or the
/// user says so.
pub proof fn lemma_nothing_overwritten_unasked(
    args: Args,
    stage: Stage,
    event: Event,
    fit: Result<AlbumArt, ArtError>,
)
    requires
        expected(stage, event),
        !args.overwrite_files,
        stage is CheckingDestination || stage is Asking,
        advanced(args, stage, event, fit).1 is Transfer,
    ensures
        event == (Event::DestinationChecked { occupied: false }) || event == (Event::Answered {
            overwrite: true,
        }),
{
}

/// How many steps are left at most.
pub open spec fn steps_left(stage: Stage) -> nat {
    match stage {
        Stage::Checking => 10,
        Stage::ReadingMark => 9,
        Stage::LookingUp { .. } => 8,
        Stage::ReadingTags { .. } => 7,
        Stage::FetchingArt { .. } => 6,
        Stage::Applying { .. } => 5,
        Stage::Comparing => 4,
        Stage::CheckingDestination => 3,
        Stage::Asking => 2,
        Stage::Transferring => 1,
        Stage::RoutingToUnknown => 1,
        Stage::Ended => 0,
    }
}

/// Every event brings a file nearer to its end, so none is worked on for ever, and
/// it ends with an outcome or a failure.
pub proof fn lemma_every_file_ends(
    args: Args,
    stage: Stage,
    event: Event,
    fit: Result<AlbumArt, ArtError>,
)
    requires
        expected(stage, event),
    ensures
        steps_left(advanced(args, stage, event, fit).0) < steps_left(stage),
        advanced(args, stage, event, fit).0 is Ended <==> advanced(args, stage, event, fit).1 is Finish
            || advanced(args, stage, event, fit).1 is Fail,
{
}

/// The cover that is embedded is within its bounds: where covers are bounded, the one
/// that goes into the tags is the one that was made to fit.
pub proof fn lemma_embedded_cover_fits(
    args: Args,
    stage: Stage,
    event: Event,
    fit: Result<AlbumArt, ArtError>,
    art: AlbumArt,
    already_processed: bool,
)
    requires
        stage is FetchingArt,
        bounds_covers(args),
        super::art::bound(args.max_image_width) > 0,
        super::art::bound(args.max_image_height) > 0,
        cover_fitted(args, event, fit),
        expected(stage, event),
        advanced(args, stage, event, fit).1 == (Step::Apply { art: Some(art), already_processed }),
    ensures
        fit == Ok::<AlbumArt, ArtError>(art),
        super::art::dimensions(art.data@) matches Some(t) && super::art::fits(
            t,
            args.max_image_width,
            args.max_image_height,
        ),
{
    super::art::lemma_fitted_within_bounds(
        event->ArtFetched_art->0,
        args.max_image_width,
        args.max_image_height,
        art,
    );
}

} // verus!
