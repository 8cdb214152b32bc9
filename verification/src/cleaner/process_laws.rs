//! What becomes of a file, told from its beginning to its end.
use vstd::prelude::*;

use super::art::ArtError;
use super::bad_file::AudioError;
use super::cli::Args;
use super::processor::{Event, FileProcess, ProcessOutcome, SkipReason, Stage, Step, Tally};
use super::track::{FileTagMetadata, ResolvedTrackMetadata};
use crate::cover_art::AlbumArt;
use crate::musicbrainz::TrackMetadata;

verus! {

/// What the events of a list lead to, one after another: how far the file is after them,
/// and what is done after each.
pub open spec fn followed(
    args: Args,
    stage: Stage,
    events: Seq<Event>,
    fit: Result<AlbumArt, ArtError>,
) -> (Stage, Seq<Step>)
    decreases events.len(),
{
    if events.len() == 0 {
        (stage, Seq::empty())
    } else {
        let (next, step) = super::processor::advanced(args, stage, events[0], fit);
        let (last, steps) = followed(args, next, events.skip(1), fit);
        (last, seq![step] + steps)
    }
}

proof fn lemma_one_step(
    args: Args,
    stage: Stage,
    event: Event,
    rest: Seq<Event>,
    fit: Result<AlbumArt, ArtError>,
)
    ensures
        ({
            let (next, step) = super::processor::advanced(args, stage, event, fit);
            let (last, steps) = followed(args, next, rest, fit);
            followed(args, stage, seq![event] + rest, fit) == (last, seq![step] + steps)
        }),
{
    let events = seq![event] + rest;
    assert(events.skip(1) =~= rest);
    assert(events[0] == event);
}

/// A file that cannot be decoded ends at once, as bad, for the reason that was found.
pub proof fn lemma_bad_file_ends(args: Args, e: AudioError, fit: Result<AlbumArt, ArtError>)
    ensures
        ({
            let (stage, step) = super::processor::advanced(
                args,
                Stage::Checking,
                Event::AudioChecked { failure: Some(e) },
                fit,
            );
            stage is Ended && step == (Step::Finish { outcome: ProcessOutcome::BadFile(e) })
        }),
{
}

/// A file that was processed before is left alone unless its tags are to be overwritten;
/// any other is looked up, or has its tags read where MusicBrainz is not to be asked.
pub proof fn lemma_good_file_is_identified(
    args: Args,
    already_processed: bool,
    fit: Result<AlbumArt, ArtError>,
)
    ensures
        ({
            let (stage, step) = super::processor::advanced(
                args,
                Stage::Checking,
                Event::AudioChecked { failure: None },
                fit,
            );
            let (next, then) = super::processor::advanced(
                args,
                stage,
                Event::MarkRead { already_processed },
                fit,
            );
            &&& step is ReadMark
            &&& then is LookUp <==> (!already_processed || args.overwrite_metadata)
                && !args.no_musicbrainz
            &&& then is ReadTags <==> (!already_processed || args.overwrite_metadata)
                && args.no_musicbrainz
            &&& already_processed && !args.overwrite_metadata ==> next is Ended && then == (
            Step::Finish { outcome: ProcessOutcome::Skipped(SkipReason::AlreadyProcessed) })
        }),
{
}

/// A track that is found has the cover of its release fetched, and then its tags written,
/// with the cover where there is one; and it is named after what was found.
pub proof fn lemma_found_track_is_tagged(
    args: Args,
    already_processed: bool,
    m: TrackMetadata,
    art: Option<AlbumArt>,
    fit: Result<AlbumArt, ArtError>,
)
    requires
        !args.no_musicbrainz,
        args.max_image_width is None,
        args.max_image_height is None,
    ensures
        ({
            let (s1, step1) = super::processor::advanced(
                args,
                Stage::LookingUp { already_processed },
                Event::LookedUp { found: Some(m) },
                fit,
            );
            let (s2, step2) = super::processor::advanced(args, s1, Event::ArtFetched { art }, fit);
            let (s3, step3) = super::processor::advanced(args, s2, Event::Applied, fit);
            &&& step1 == (Step::FetchArt { release_mbid: m.release_mbid })
            &&& step2 == (Step::Apply { art, already_processed })
            &&& s2 == (Stage::Applying { meta: ResolvedTrackMetadata::MusicBrainz(m) })
            &&& step3 is ComparePaths
            &&& super::processor::named_after(args, s2, Event::Applied) == Some(
                ResolvedTrackMetadata::MusicBrainz(m),
            )
        }),
{
}

/// Where covers are to fit, the cover that fits is embedded in place of the one that came;
/// a file whose cover cannot be made to fit fails.
pub proof fn lemma_cover_is_made_to_fit(
    args: Args,
    already_processed: bool,
    meta: ResolvedTrackMetadata,
    art: AlbumArt,
    fit: Result<AlbumArt, ArtError>,
)
    requires
        args.max_image_width is Some || args.max_image_height is Some,
    ensures
        ({
            let (stage, step) = super::processor::advanced(
                args,
                Stage::FetchingArt { already_processed, meta },
                Event::ArtFetched { art: Some(art) },
                fit,
            );
            match fit {
                Ok(b) => step == (Step::Apply { art: Some(b), already_processed }) && stage == (
                Stage::Applying { meta }),
                Err(error) => step == (Step::Fail { error }) && stage is Ended,
            }
        }),
{
}

/// A track that is not found has its tags read. With tags it is marked, without a cover, and
/// named after them; without it goes, under its own name, to where files go of which nothing
/// is known, copied or moved as was asked, and ends there.
pub proof fn lemma_unknown_track_is_set_aside(
    args: Args,
    already_processed: bool,
    tags: FileTagMetadata,
    fit: Result<AlbumArt, ArtError>,
)
    requires
        !args.no_musicbrainz,
    ensures
        ({
            let (s1, step1) = super::processor::advanced(
                args,
                Stage::LookingUp { already_processed },
                Event::LookedUp { found: None },
                fit,
            );
            let (s2, step2) = super::processor::advanced(
                args,
                s1,
                Event::TagsRead { tags: Some(tags) },
                fit,
            );
            let (t2, other2) = super::processor::advanced(
                args,
                s1,
                Event::TagsRead { tags: None },
                fit,
            );
            let (t3, other3) = super::processor::advanced(args, t2, Event::Transferred, fit);
            &&& step1 is ReadTags
            &&& step2 == (Step::Apply { art: None, already_processed })
            &&& super::processor::named_after(args, s2, Event::Applied) == Some(
                ResolvedTrackMetadata::ExistingFile(tags),
            )
            &&& other2 == (Step::RouteToUnknown { move_file: args.move_files })
            &&& t3 is Ended
            &&& other3 == (Step::Finish { outcome: ProcessOutcome::RoutedToUnknownDirectory })
        }),
{
}

/// Where MusicBrainz is not asked, a file with tags is named after them at once.
pub proof fn lemma_tags_name_the_file(
    args: Args,
    already_processed: bool,
    tags: FileTagMetadata,
    fit: Result<AlbumArt, ArtError>,
)
    requires
        args.no_musicbrainz,
    ensures
        ({
            let (stage, step) = super::processor::advanced(
                args,
                Stage::ReadingTags { already_processed },
                Event::TagsRead { tags: Some(tags) },
                fit,
            );
            stage is Comparing && step is ComparePaths
        }),
        super::processor::named_after(
            args,
            Stage::ReadingTags { already_processed },
            Event::TagsRead { tags: Some(tags) },
        ) == Some(ResolvedTrackMetadata::ExistingFile(tags)),
{
}

/// A file that is named ends well where it is in its place already, or once it has been
/// copied or moved there, as was asked; a file that is in the way is overwritten exactly
/// where that was asked for, or where the user, who can be asked, agrees, and otherwise the
/// file is left.
pub proof fn lemma_named_file_is_put_in_its_place(
    args: Args,
    occupied: bool,
    overwrite: bool,
    fit: Result<AlbumArt, ArtError>,
)
    ensures
        ({
            let (stage, steps) = followed(
                args,
                Stage::Comparing,
                seq![Event::Compared { same: true }],
                fit,
            );
            stage is Ended && steps == seq![Step::Finish { outcome: ProcessOutcome::Done }]
        }),
        ({
            let (stage, steps) = followed(
                args,
                Stage::Comparing,
                seq![Event::Compared { same: false }] + seq![Event::DestinationChecked { occupied }],
                fit,
            );
            &&& steps.len() == 2
            &&& steps[0] is PrepareDestination
            &&& steps[1] == (Step::Transfer { move_file: args.move_files }) <==> !occupied
                || args.overwrite_files
            &&& steps[1] is Ask <==> occupied && !args.overwrite_files && !args.non_interactive
            &&& steps[1] == (Step::Finish {
                outcome: ProcessOutcome::Skipped(SkipReason::OutputExists),
            }) <==> occupied && !args.overwrite_files && args.non_interactive
        }),
        ({
            let (stage, step) = super::processor::advanced(
                args,
                Stage::Asking,
                Event::Answered { overwrite },
                fit,
            );
            if overwrite {
                step == (Step::Transfer { move_file: args.move_files })
            } else {
                stage is Ended && step == (Step::Finish {
                    outcome: ProcessOutcome::Skipped(SkipReason::OutputExists),
                })
            }
        }),
        ({
            let (stage, step) = super::processor::advanced(
                args,
                Stage::Transferring,
                Event::Transferred,
                fit,
            );
            stage is Ended && step == (Step::Finish { outcome: ProcessOutcome::Done })
        }),
        super::processor::advanced(
            args,
            Stage::CheckingDestination,
            Event::DestinationChecked { occupied: false },
            fit,
        ).0 is Transferring,
{
    let none = Seq::<Event>::empty();
    let e1 = Event::Compared { same: true };
    lemma_one_step(args, Stage::Comparing, e1, none, fit);
    assert(seq![e1] + none =~= seq![e1]);
    let e2 = Event::Compared { same: false };
    let e3 = Event::DestinationChecked { occupied };
    lemma_one_step(args, Stage::Comparing, e2, seq![e3], fit);
    lemma_one_step(args, Stage::CheckingDestination, e3, none, fit);
    assert(seq![e3] + none =~= seq![e3]);
}

/// A tally counts each file once, in its own place: a file that is done as one that
/// succeeded, one that was left as skipped, one that was set aside as unknown, a bad one as
/// bad, and any other as failed.
pub proof fn lemma_file_is_counted_in_its_place(t: Tally, outcome: Option<ProcessOutcome>)
    requires
        t.succeeded < u64::MAX,
        t.skipped < u64::MAX,
        t.failed < u64::MAX,
        t.bad_files < u64::MAX,
        t.unknown < u64::MAX,
    ensures
        ({
            let after = super::processor::counted(t, outcome);
            &&& after.succeeded == t.succeeded + if outcome == Some(ProcessOutcome::Done) {
                1int
            } else {
                0int
            }
            &&& after.skipped == t.skipped + if outcome matches Some(o) && o is Skipped {
                1int
            } else {
                0int
            }
            &&& after.bad_files == t.bad_files + if outcome matches Some(o) && o is BadFile {
                1int
            } else {
                0int
            }
            &&& after.unknown == t.unknown + if outcome == Some(
                ProcessOutcome::RoutedToUnknownDirectory,
            ) {
                1int
            } else {
                0int
            }
            &&& after.failed == t.failed + if outcome is None {
                1int
            } else {
                0int
            }
        }),
{
}

/// The name of a file ends as the file itself does; one without an extension counts as
/// binary.
pub proof fn lemma_extension_is_kept(extension: Option<String>)
    ensures
        extension matches Some(e) ==> super::processor::extension_of(extension) == e@,
        extension is None ==> super::processor::extension_of(extension) == "bin"@,
{
}

/// The extensions of audio files, in small letters, and no others.
pub proof fn lemma_audio_extensions(lower: Seq<char>)
    ensures
        super::processor::is_audio_extension(lower) <==> lower == seq!['m', 'p', '3'] || lower
            == seq!['f', 'l', 'a', 'c'] || lower == seq!['o', 'g', 'g'] || lower
            == seq!['m', '4', 'a'] || lower == seq!['w', 'a', 'v'] || lower
            == seq!['a', 'i', 'f', 'f'] || lower == seq!['a', 'i', 'f'] || lower
            == seq!['o', 'p', 'u', 's'],
{
    reveal_strlit("mp3");
    reveal_strlit("flac");
    reveal_strlit("ogg");
    reveal_strlit("m4a");
    reveal_strlit("wav");
    reveal_strlit("aiff");
    reveal_strlit("aif");
    reveal_strlit("opus");
    assert("mp3"@ =~= seq!['m', 'p', '3']);
    assert("flac"@ =~= seq!['f', 'l', 'a', 'c']);
    assert("ogg"@ =~= seq!['o', 'g', 'g']);
    assert("m4a"@ =~= seq!['m', '4', 'a']);
    assert("wav"@ =~= seq!['w', 'a', 'v']);
    assert("aiff"@ =~= seq!['a', 'i', 'f', 'f']);
    assert("aif"@ =~= seq!['a', 'i', 'f']);
    assert("opus"@ =~= seq!['o', 'p', 'u', 's']);
}

/// What is done next with a file follows from what has come of the last step: a file that
/// cannot be decoded is bad, one that was processed before is left unless its tags are to be
/// overwritten, the cover of a track that was found is fetched, and a file that is in its
/// place is done.
pub proof fn lemma_file_is_processed(
    p: &mut FileProcess,
    args: Args,
    e: AudioError,
    m: TrackMetadata,
    checked: Step,
    marked: Step,
    found: Step,
    moved: Step,
)
    requires
        call_ensures(
            FileProcess::process_file,
            (p, &args, Event::AudioChecked { failure: Some(e) }),
            checked,
        ),
        call_ensures(
            FileProcess::process_file,
            (p, &args, Event::MarkRead { already_processed: true }),
            marked,
        ),
        call_ensures(
            FileProcess::process_file,
            (p, &args, Event::LookedUp { found: Some(m) }),
            found,
        ),
        call_ensures(FileProcess::process_file, (p, &args, Event::Transferred), moved),
    ensures
        old(p).stage is Checking ==> checked == (Step::Finish {
            outcome: ProcessOutcome::BadFile(e),
        }),
        old(p).stage is ReadingMark && !args.overwrite_metadata ==> marked == (Step::Finish {
            outcome: ProcessOutcome::Skipped(SkipReason::AlreadyProcessed),
        }),
        old(p).stage is ReadingMark && args.overwrite_metadata && !args.no_musicbrainz ==> marked
            is LookUp,
        old(p).stage is LookingUp && !args.no_musicbrainz ==> found == (Step::FetchArt {
            release_mbid: m.release_mbid,
        }),
        old(p).stage is Transferring ==> moved == (Step::Finish { outcome: ProcessOutcome::Done }),
        old(p).stage is RoutingToUnknown ==> moved == (Step::Finish {
            outcome: ProcessOutcome::RoutedToUnknownDirectory,
        }),
{
}

} // verus!
