//! What is made of a file's tags, its name and its cover, told by what goes in and what
//! comes out.
use vstd::prelude::*;

use super::art::ArtError;
use super::bad_file::{AudioError, AudioInfo, Hertz, ReaderCheck};
use super::cli::Args;
use super::metadata::{MimeType, TagEdit, TagField, TagKey, TagPlan, TagSummary};
use super::track::{FileTagMetadata, ResolvedTrackMetadata};
use crate::cover_art::AlbumArt;
use crate::musicbrainz::TrackMetadata;
use crate::time::Duration;

verus! {

/// The tags of a track that MusicBrainz knows are set to what it says: once the changes are
/// carried out, the title is that of the track, the album that of the album, and the artist
/// its first artist. The cover that is embedded is the one that was given.
pub proof fn lemma_known_track_is_tagged(
    fields: Vec<TagField>,
    m: TrackMetadata,
    art: Option<AlbumArt>,
    already_processed: bool,
    now: String,
    r: TagPlan,
    t: super::tag_laws::Tags,
)
    requires
        call_ensures(
            super::metadata::apply_metadata_at,
            (&fields, &ResolvedTrackMetadata::MusicBrainz(m), art, already_processed, now),
            r,
        ),
    ensures
        ({
            let after = super::tag_laws::carried_out(t, super::metadata::changes_view(r.edits@));
            &&& after.title == Some(m.track_title@)
            &&& after.album == Some(m.album_title@)
            &&& m.track_artists@.len() > 0 ==> after.artist == Some(m.track_artists@[0].name@)
            &&& m.album_artists@.len() > 0 ==> after.album_artist == Some(
                m.album_artists@[0].name@,
            )
            &&& after.release_id == Some(m.release_mbid@)
        }),
        art is None ==> r.cover is None,
        art matches Some(a) ==> (r.cover matches Some(c) && c.data@ == a.data@),
{
    super::tag_laws::lemma_tags_say_what_is_known(t, fields@, m, already_processed, now@);
}

/// A change of a tag is of the field that it names, to the text or number that it holds.
pub proof fn lemma_change_is_what_it_says(edits: Seq<TagEdit>, i: int)
    requires
        0 <= i < edits.len(),
    ensures
        ({
            let c = super::metadata::changes_view(edits)[i];
            match edits[i] {
                TagEdit::Custom { key, value } => c == (super::metadata::TagChange::Custom {
                    key: key@,
                    value: value@,
                }),
                TagEdit::Title(s) => c == super::metadata::TagChange::Title(s@),
                TagEdit::Artist(s) => c == super::metadata::TagChange::Artist(s@),
                TagEdit::Album(s) => c == super::metadata::TagChange::Album(s@),
                TagEdit::AlbumArtist(s) => c == super::metadata::TagChange::AlbumArtist(s@),
                TagEdit::Track(n) => c == super::metadata::TagChange::Track(n),
                TagEdit::Year(n) => c == super::metadata::TagChange::Year(n),
                TagEdit::ReleaseId(s) => c == super::metadata::TagChange::ReleaseId(s@),
                TagEdit::RecordingId(s) => c == super::metadata::TagChange::RecordingId(s@),
                TagEdit::ReleaseGroupId(s) => c == super::metadata::TagChange::ReleaseGroupId(s@),
            }
        }),
        super::metadata::changes_view(edits).len() == edits.len(),
{
}

/// The tags of a file are read as they are, where they have a title; a file without a tag or
/// without a title counts as having none.
pub proof fn lemma_tags_are_taken(tag: Option<TagSummary>, r: Option<FileTagMetadata>)
    requires
        call_ensures(super::metadata::read_existing_tags, (tag,), r),
    ensures
        r is Some <==> (tag matches Some(t) && (t.title matches Some(s) && s@.len() > 0)),
        r matches Some(meta) ==> (tag matches Some(t) && (t.title matches Some(s)
            && meta.track_title@ == s@)),
        r matches Some(meta) ==> (tag matches Some(t) ==> (t.album matches Some(s)
            ==> meta.album_title@ == s@)),
        r matches Some(meta) ==> (tag matches Some(t) ==> (t.artist matches Some(a) ==> (a@.len()
            > 0 ==> meta.track_artists@.len() == 1 && meta.track_artists@[0]@ == a@))),
        r matches Some(meta) ==> (tag matches Some(t) ==> (t.album_artist matches Some(a) ==> (
        a@.len() > 0 ==> meta.album_artists@.len() == 1 && meta.album_artists@[0]@ == a@))),
        r matches Some(meta) ==> (tag matches Some(t) ==> (t.track matches Some(n)
            ==> meta.track_number == Some(n as i32))),
        r matches Some(meta) ==> (tag matches Some(t) ==> (t.year matches Some(n)
            ==> meta.album_year == Some(n as i32))),
{
    match (tag, r) {
        (Some(t), Some(meta)) => {
            super::tag_laws::lemma_tags_are_read(t, meta);
        },
        _ => {},
    }
}

/// The names under which the fields of a tag are copied.
pub proof fn lemma_names_of_copied_fields(name: String)
    ensures
        super::metadata::backup_name(TagKey::TrackTitle) == "TITLE"@,
        super::metadata::backup_name(TagKey::TrackArtist) == "ARTIST"@,
        super::metadata::backup_name(TagKey::AlbumTitle) == "ALBUM"@,
        super::metadata::backup_name(TagKey::AlbumArtist) == "ALBUMARTIST"@,
        super::metadata::backup_name(TagKey::TrackNumber) == "TRACKNUMBER"@,
        super::metadata::backup_name(TagKey::TrackTotal) == "TRACKTOTAL"@,
        super::metadata::backup_name(TagKey::DiscNumber) == "DISCNUMBER"@,
        super::metadata::backup_name(TagKey::DiscTotal) == "DISCTOTAL"@,
        super::metadata::backup_name(TagKey::Year) == "YEAR"@,
        super::metadata::backup_name(TagKey::RecordingDate) == "DATE"@,
        super::metadata::backup_name(TagKey::Genre) == "GENRE"@,
        super::metadata::backup_name(TagKey::Comment) == "COMMENT"@,
        super::metadata::backup_name(TagKey::Composer) == "COMPOSER"@,
        super::metadata::backup_name(TagKey::MusicBrainzRecordingId) == "MUSICBRAINZ_TRACKID"@,
        super::metadata::backup_name(TagKey::MusicBrainzTrackId) == "MUSICBRAINZ_RELEASETRACKID"@,
        super::metadata::backup_name(TagKey::MusicBrainzReleaseId) == "MUSICBRAINZ_ALBUMID"@,
        super::metadata::backup_name(TagKey::MusicBrainzReleaseGroupId)
            == "MUSICBRAINZ_RELEASEGROUPID"@,
        super::metadata::backup_name(TagKey::MusicBrainzArtistId) == "MUSICBRAINZ_ARTISTID"@,
        super::metadata::backup_name(TagKey::MusicBrainzReleaseArtistId)
            == "MUSICBRAINZ_ALBUMARTISTID"@,
        super::metadata::backup_name(TagKey::Unknown(name)) == name@,
        super::metadata::backup_name(TagKey::Other(name)) == name@,
{
}

/// An image is of the kind that its extension names; any other extension names its own.
pub proof fn lemma_image_kind(ext: &str, r: MimeType)
    requires
        call_ensures(super::metadata::mime_of, (ext,), r),
    ensures
        r is Jpeg <==> ext@ == "jpg"@ || ext@ == "jpeg"@,
        r is Png <==> ext@ == "png"@,
        r is Gif <==> ext@ == "gif"@,
        r is Bmp <==> ext@ == "bmp"@,
        r is Tiff <==> ext@ == "tiff"@ || ext@ == "tif"@,
        r matches MimeType::Unknown(name) ==> name@ == "image/"@ + ext@,
{
    reveal_strlit("jpg");
    reveal_strlit("jpeg");
    reveal_strlit("png");
    reveal_strlit("gif");
    reveal_strlit("bmp");
    reveal_strlit("tiff");
    reveal_strlit("tif");
    let (jpg, jpeg, png, gif, bmp, tiff, tif) = (
        "jpg"@,
        "jpeg"@,
        "png"@,
        "gif"@,
        "bmp"@,
        "tiff"@,
        "tif"@,
    );
    assert(jpg[0] == 'j' && jpeg[0] == 'j' && png[0] == 'p' && gif[0] == 'g' && bmp[0] == 'b'
        && tiff[0] == 't' && tif[0] == 't');
}

/// A file goes to the directory that was asked for; where none was, to its own; and where it
/// has none, to the current one.
pub proof fn lemma_where_files_go(args: Args, parent: Option<String>, r: String)
    requires
        call_ensures(Args::output_root, (&args, parent), r),
    ensures
        args.output_dir matches Some(d) ==> r == d,
        args.output_dir is None ==> (parent matches Some(p) ==> r == p),
        args.output_dir is None && parent is None ==> r@ == "."@,
{
}

/// What a check shows is the frames, the errors and the sample rate that it counted; a file
/// without frames is empty, and without a sample rate the frames last no time.
pub proof fn lemma_what_a_check_shows(
    c: ReaderCheck,
    played: Duration,
    r: Result<AudioInfo, AudioError>,
)
    requires
        call_ensures(ReaderCheck::finish, (&c, played), r),
    ensures
        r is Ok <==> c.total_frames > 0,
        r matches Err(e) ==> e is Empty,
        r matches Ok(info) ==> {
            &&& info.total_frames == c.total_frames
            &&& info.soft_errors == c.soft_errors
            &&& c.sample_rate matches Some(h) ==> info.sample_rate == h
            &&& c.sample_rate is None ==> info.sample_rate == Hertz(0)
            &&& info.sample_rate.0 > 0 ==> info.duration == played
            &&& info.sample_rate.0 == 0 ==> info.duration@ == 0
        },
{
}

/// A cover that is within its bounds is left as it is, and one of which the size cannot be
/// told is refused; any other is replaced by the scaled one, as JPEG.
pub proof fn lemma_cover_is_left_or_replaced(
    art: AlbumArt,
    size: Option<(u32, u32)>,
    scaled: Option<Vec<u8>>,
    max_w: Option<u32>,
    max_h: Option<u32>,
    r: Result<AlbumArt, ArtError>,
)
    requires
        call_ensures(super::art::fitted_art, (art, size, scaled, max_w, max_h), r),
    ensures
        size is None ==> r is Err,
        size matches Some(s) ==> ({
            let within = (max_w matches Some(w) ==> s.0 <= w) && (max_h matches Some(h) ==> s.1
                <= h);
            &&& within ==> r == Ok::<AlbumArt, ArtError>(art)
            &&& !within && scaled is None ==> r is Err
            &&& !within ==> (scaled matches Some(data) ==> (r matches Ok(a) && a.data == data
                && a.extension@ == "jpg"@))
        }),
{
}

} // verus!
