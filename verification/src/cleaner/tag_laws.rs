//! What the planned changes make of the tags of a file, told by the tags before and
//! after.
use vstd::prelude::*;

use super::metadata::{CoverEdit, MimeType, TagChange, TagField, TagKey, TagSummary};
use super::track::{FileTagMetadata, ResolvedTrackMetadata};
use crate::cover_art::AlbumArt;
use crate::musicbrainz::TrackMetadata;

verus! {

/// The tags of a file: the fields that players read, and the fields that have only a
/// name.
#[verifier::ext_equal]
pub struct Tags {
    pub title: Option<Seq<char>>,
    pub artist: Option<Seq<char>>,
    pub album: Option<Seq<char>>,
    pub album_artist: Option<Seq<char>>,
    pub track: Option<u32>,
    pub year: Option<u32>,
    pub release_id: Option<Seq<char>>,
    pub recording_id: Option<Seq<char>>,
    pub release_group_id: Option<Seq<char>>,
    pub custom: Map<Seq<char>, Seq<char>>,
}

/// The tags once a change is carried out: the field holds what the change says.
pub open spec fn changed(t: Tags, change: TagChange) -> Tags {
    match change {
        TagChange::Custom { key, value } => Tags { custom: t.custom.insert(key, value), ..t },
        TagChange::Title(s) => Tags { title: Some(s), ..t },
        TagChange::Artist(s) => Tags { artist: Some(s), ..t },
        TagChange::Album(s) => Tags { album: Some(s), ..t },
        TagChange::AlbumArtist(s) => Tags { album_artist: Some(s), ..t },
        TagChange::Track(n) => Tags { track: Some(n), ..t },
        TagChange::Year(n) => Tags { year: Some(n), ..t },
        TagChange::ReleaseId(s) => Tags { release_id: Some(s), ..t },
        TagChange::RecordingId(s) => Tags { recording_id: Some(s), ..t },
        TagChange::ReleaseGroupId(s) => Tags { release_group_id: Some(s), ..t },
    }
}

/// The tags once changes are carried out, one after another.
pub open spec fn carried_out(t: Tags, changes: Seq<TagChange>) -> Tags
    decreases changes.len(),
{
    if changes.len() == 0 {
        t
    } else {
        changed(carried_out(t, changes.drop_last()), changes.last())
    }
}

proof fn lemma_carried_out_sum(t: Tags, a: Seq<TagChange>, b: Seq<TagChange>)
    ensures
        carried_out(t, a + b) == carried_out(carried_out(t, a), b),
    decreases b.len(),
{
    if b.len() == 0 {
        assert(a + b =~= a);
    } else {
        lemma_carried_out_sum(t, a, b.drop_last());
        assert((a + b).drop_last() =~= a + b.drop_last());
    }
}

proof fn lemma_customs_leave_the_rest(t: Tags, changes: Seq<TagChange>)
    requires
        forall|i: int| 0 <= i < changes.len() ==> (#[trigger] changes[i]) is Custom,
    ensures
        carried_out(t, changes) == (Tags { custom: carried_out(t, changes).custom, ..t }),
    decreases changes.len(),
{
    if changes.len() > 0 {
        let init = changes.drop_last();
        assert forall|i: int| 0 <= i < init.len() implies (#[trigger] init[i]) is Custom by {
            assert(changes[i] is Custom);
        }
        lemma_customs_leave_the_rest(t, init);
        assert(changes[changes.len() - 1] is Custom);
    }
}

proof fn lemma_backups_are_custom(fields: Seq<TagField>, n: nat)
    requires
        n <= fields.len(),
    ensures
        forall|i: int|
            0 <= i < super::metadata::backups(fields, n).len()
                ==> (#[trigger] super::metadata::backups(fields, n)[i]) is Custom,
    decreases n,
{
    if n > 0 {
        lemma_backups_are_custom(fields, (n - 1) as nat);
    }
}

proof fn lemma_kyle_backup_is_custom(fields: Seq<TagField>, now: Seq<char>)
    ensures
        forall|i: int|
            0 <= i < super::metadata::kyle_backup(fields, now).len()
                ==> (#[trigger] super::metadata::kyle_backup(fields, now)[i]) is Custom,
{
    lemma_backups_are_custom(fields, fields.len());
}

/// The changes of a run in which MusicBrainz knows the track: the copies, then what it
/// knows, then where it comes from.
proof fn lemma_three_parts(
    t: Tags,
    fields: Seq<TagField>,
    meta: ResolvedTrackMetadata,
    already_processed: bool,
    now: Seq<char>,
)
    ensures
        ({
            let after = carried_out(
                t,
                super::metadata::all_changes(fields, meta, already_processed, now),
            );
            let copied = carried_out(t, super::metadata::kyle_backup(fields, now));
            let start = if already_processed {
                t
            } else {
                copied
            };
            let written = carried_out(start, super::metadata::metadata_changes(meta));
            &&& copied == (Tags { custom: copied.custom, ..t })
            &&& if already_processed {
                after == written
            } else {
                after == (Tags {
                    custom: written.custom.insert(
                        super::metadata::source_key(),
                        super::metadata::source_of(meta),
                    ),
                    ..written
                })
            }
        }),
{
    let first = super::metadata::kyle_backup(fields, now);
    let second = super::metadata::metadata_changes(meta);
    lemma_kyle_backup_is_custom(fields, now);
    lemma_customs_leave_the_rest(t, first);
    lemma_carried_out_sum(t, first, second);
    let last = TagChange::Custom {
        key: super::metadata::source_key(),
        value: super::metadata::source_of(meta),
    };
    assert((first + second).push(last).drop_last() =~= first + second);
}

proof fn lemma_known_fields(t: Tags, m: TrackMetadata)
    ensures
        ({
            let after = carried_out(t, super::metadata::musicbrainz_changes(m));
            &&& after.custom == t.custom
            &&& after.title == Some(m.track_title@)
            &&& after.album == Some(m.album_title@)
            &&& after.artist == Some(
                if m.track_artists@.len() > 0 {
                    m.track_artists@[0].name@
                } else {
                    Seq::empty()
                },
            )
            &&& after.album_artist == Some(
                if m.album_artists@.len() > 0 {
                    m.album_artists@[0].name@
                } else if m.track_artists@.len() > 0 {
                    m.track_artists@[0].name@
                } else {
                    Seq::empty()
                },
            )
            &&& after.track == Some(m.track_number as u32)
            &&& after.year == match m.album_year {
                Some(y) => Some(y as u32),
                None => t.year,
            }
            &&& after.release_id == Some(m.release_mbid@)
            &&& after.recording_id == match m.track_musicbrainz_id {
                Some(id) => Some(id@),
                None => t.recording_id,
            }
            &&& after.release_group_id == match m.album_musicbrainz_id {
                Some(id) => Some(id@),
                None => t.release_group_id,
            }
        }),
{
    let artist = super::metadata::first_artist(m.track_artists@, Seq::empty());
    let always = seq![
        TagChange::Title(m.track_title@),
        TagChange::Artist(artist),
        TagChange::Album(m.album_title@),
        TagChange::AlbumArtist(super::metadata::first_artist(m.album_artists@, artist)),
        TagChange::Track(m.track_number as u32),
    ];
    let year: Seq<TagChange> = match m.album_year {
        Some(y) => seq![TagChange::Year(y as u32)],
        None => Seq::empty(),
    };
    let release = seq![TagChange::ReleaseId(m.release_mbid@)];
    let recording: Seq<TagChange> = match m.track_musicbrainz_id {
        Some(id) => seq![TagChange::RecordingId(id@)],
        None => Seq::empty(),
    };
    let group: Seq<TagChange> = match m.album_musicbrainz_id {
        Some(id) => seq![TagChange::ReleaseGroupId(id@)],
        None => Seq::empty(),
    };
    assert(super::metadata::musicbrainz_changes(m) == always + year + release + recording + group);
    lemma_carried_out_sum(t, always + year + release + recording, group);
    lemma_carried_out_sum(t, always + year + release, recording);
    lemma_carried_out_sum(t, always + year, release);
    lemma_carried_out_sum(t, always, year);
    lemma_five(t, always);
    let t1 = carried_out(t, always);
    lemma_at_most_one(t1, year);
    let t2 = carried_out(t1, year);
    lemma_at_most_one(t2, release);
    let t3 = carried_out(t2, release);
    lemma_at_most_one(t3, recording);
    let t4 = carried_out(t3, recording);
    lemma_at_most_one(t4, group);
}

proof fn lemma_at_most_one(t: Tags, c: Seq<TagChange>)
    requires
        c.len() <= 1,
    ensures
        carried_out(t, c) == if c.len() == 1 {
            changed(t, c[0])
        } else {
            t
        },
{
    if c.len() == 1 {
        assert(carried_out(t, c.drop_last()) == t);
    }
}

proof fn lemma_five(t: Tags, c: Seq<TagChange>)
    requires
        c.len() == 5,
    ensures
        carried_out(t, c) == changed(
            changed(changed(changed(changed(t, c[0]), c[1]), c[2]), c[3]),
            c[4],
        ),
{
    lemma_take_step(t, c, 0);
    lemma_take_step(t, c, 1);
    lemma_take_step(t, c, 2);
    lemma_take_step(t, c, 3);
    lemma_take_step(t, c, 4);
    assert(carried_out(t, c.take(0)) == t);
    assert(c.take(5) =~= c);
}

proof fn lemma_take_step(t: Tags, c: Seq<TagChange>, k: int)
    requires
        0 <= k < c.len(),
    ensures
        carried_out(t, c.take(k + 1)) == changed(carried_out(t, c.take(k)), c[k]),
{
    assert(c.take(k + 1).drop_last() =~= c.take(k));
}

/// After the planned changes the tags of a track that MusicBrainz knows say, field by
/// field, what MusicBrainz says: the title and the number of the track, the album it is
/// on, the first artist of the track and of the album, and the identifiers; a field of
/// which nothing is known is left.
pub proof fn lemma_tags_say_what_is_known(
    t: Tags,
    fields: Seq<TagField>,
    m: TrackMetadata,
    already_processed: bool,
    now: Seq<char>,
)
    ensures
        ({
            let after = carried_out(
                t,
                super::metadata::all_changes(
                    fields,
                    ResolvedTrackMetadata::MusicBrainz(m),
                    already_processed,
                    now,
                ),
            );
            &&& after.title == Some(m.track_title@)
            &&& after.album == Some(m.album_title@)
            &&& after.artist == Some(
                if m.track_artists@.len() > 0 {
                    m.track_artists@[0].name@
                } else {
                    Seq::empty()
                },
            )
            &&& after.album_artist == Some(
                if m.album_artists@.len() > 0 {
                    m.album_artists@[0].name@
                } else if m.track_artists@.len() > 0 {
                    m.track_artists@[0].name@
                } else {
                    Seq::empty()
                },
            )
            &&& after.track == Some(m.track_number as u32)
            &&& after.year == match m.album_year {
                Some(y) => Some(y as u32),
                None => t.year,
            }
            &&& after.release_id == Some(m.release_mbid@)
            &&& after.recording_id == match m.track_musicbrainz_id {
                Some(id) => Some(id@),
                None => t.recording_id,
            }
            &&& after.release_group_id == match m.album_musicbrainz_id {
                Some(id) => Some(id@),
                None => t.release_group_id,
            }
        }),
{
    let meta = ResolvedTrackMetadata::MusicBrainz(m);
    lemma_three_parts(t, fields, meta, already_processed, now);
    lemma_known_fields(t, m);
    lemma_known_fields(carried_out(t, super::metadata::kyle_backup(fields, now)), m);
}

/// Both changes set the same field that players read.
pub open spec fn same_field(a: TagChange, b: TagChange) -> bool {
    ||| a is Title && b is Title
    ||| a is Artist && b is Artist
    ||| a is Album && b is Album
    ||| a is AlbumArtist && b is AlbumArtist
    ||| a is Track && b is Track
    ||| a is Year && b is Year
    ||| a is ReleaseId && b is ReleaseId
    ||| a is RecordingId && b is RecordingId
    ||| a is ReleaseGroupId && b is ReleaseGroupId
}

/// No field that players read is set twice.
pub proof fn lemma_no_field_is_set_twice(m: TrackMetadata, i: int, j: int)
    requires
        0 <= i < j < super::metadata::musicbrainz_changes(m).len(),
    ensures
        !same_field(
            super::metadata::musicbrainz_changes(m)[i],
            super::metadata::musicbrainz_changes(m)[j],
        ),
{
}

/// The tags of a track that MusicBrainz does not know keep what players read.
pub proof fn lemma_unknown_track_keeps_its_tags(
    t: Tags,
    fields: Seq<TagField>,
    tags: FileTagMetadata,
    already_processed: bool,
    now: Seq<char>,
)
    ensures
        ({
            let after = carried_out(
                t,
                super::metadata::all_changes(
                    fields,
                    ResolvedTrackMetadata::ExistingFile(tags),
                    already_processed,
                    now,
                ),
            );
            &&& after == (Tags { custom: after.custom, ..t })
            &&& already_processed ==> after == t
        }),
{
    lemma_three_parts(
        t,
        fields,
        ResolvedTrackMetadata::ExistingFile(tags),
        already_processed,
        now,
    );
}

/// The name does not start with `KYLE_`.
pub open spec fn is_not_ours(name: Seq<char>) -> bool {
    name.len() < 5 || name.take(5) != seq!['K', 'Y', 'L', 'E', '_']
}

proof fn lemma_copied(t: Tags, fields: Seq<TagField>, n: nat, j: int)
    requires
        0 <= j < n <= fields.len(),
        super::metadata::is_backed_up(fields[j]),
        forall|l: int|
            j < l < n ==> super::metadata::backup_name((#[trigger] fields[l]).key)
                != super::metadata::backup_name(fields[j].key),
    ensures
        ({
            let after = carried_out(t, super::metadata::backups(fields, n)).custom;
            let key = super::metadata::kyle_prefix() + super::metadata::backup_name(fields[j].key);
            after.dom().contains(key) && after[key] == fields[j].text->0@
        }),
    decreases n,
{
    let key = super::metadata::kyle_prefix() + super::metadata::backup_name(fields[j].key);
    let prev = super::metadata::backups(fields, (n - 1) as nat);
    let f = fields[n - 1];
    if super::metadata::is_backed_up(f) {
        assert(prev.push(super::metadata::backup_of(f)).drop_last() =~= prev);
    }
    if j < n - 1 {
        lemma_copied(t, fields, (n - 1) as nat, j);
        let other = super::metadata::kyle_prefix() + super::metadata::backup_name(f.key);
        assert(other != key) by {
            let p = super::metadata::kyle_prefix().len() as int;
            assert(other.skip(p) =~= super::metadata::backup_name(f.key));
            assert(key.skip(p) =~= super::metadata::backup_name(fields[j].key));
            assert(super::metadata::backup_name(fields[n - 1].key)
                != super::metadata::backup_name(fields[j].key));
        }
    }
}

/// The first run copies every field that holds text and is not our own: the copy stands
/// under the field's name with `KYLE_` in front and holds the field's text, that of the
/// last field where several have one name.
pub proof fn lemma_old_tags_are_kept(
    t: Tags,
    fields: Seq<TagField>,
    meta: ResolvedTrackMetadata,
    now: Seq<char>,
    j: int,
)
    requires
        0 <= j < fields.len(),
        fields[j].text is Some,
        is_not_ours(super::metadata::backup_name(fields[j].key)),
        forall|l: int|
            j < l < fields.len() ==> super::metadata::backup_name((#[trigger] fields[l]).key)
                != super::metadata::backup_name(fields[j].key),
        super::metadata::backup_name(fields[j].key) != "PROCESSED_AT"@,
        super::metadata::backup_name(fields[j].key) != "MUSICBRAINZ_SOURCE"@,
    ensures
        ({
            let after = carried_out(t, super::metadata::all_changes(fields, meta, false, now));
            let key = seq!['K', 'Y', 'L', 'E', '_'] + super::metadata::backup_name(fields[j].key);
            after.custom.dom().contains(key) && after.custom[key] == fields[j].text->0@
        }),
{
    reveal_strlit("KYLE_");
    reveal_strlit("KYLE_PROCESSED_AT");
    reveal_strlit("KYLE_MUSICBRAINZ_SOURCE");
    reveal_strlit("PROCESSED_AT");
    reveal_strlit("MUSICBRAINZ_SOURCE");
    let name = super::metadata::backup_name(fields[j].key);
    let prefix = seq!['K', 'Y', 'L', 'E', '_'];
    assert("KYLE_"@ =~= prefix);
    assert("KYLE_PROCESSED_AT"@ =~= prefix + "PROCESSED_AT"@);
    assert("KYLE_MUSICBRAINZ_SOURCE"@ =~= prefix + "MUSICBRAINZ_SOURCE"@);
    let key = prefix + name;
    assert(key.skip(5) =~= name);
    assert((prefix + "PROCESSED_AT"@).skip(5) =~= "PROCESSED_AT"@);
    assert((prefix + "MUSICBRAINZ_SOURCE"@).skip(5) =~= "MUSICBRAINZ_SOURCE"@);
    assert(super::metadata::is_backed_up(fields[j]));
    lemma_copied(t, fields, fields.len(), j);
    lemma_three_parts(t, fields, meta, false, now);
    let first = super::metadata::kyle_backup(fields, now);
    assert(first.drop_last() =~= super::metadata::backups(fields, fields.len()));
    let copied = carried_out(t, first);
    match meta {
        ResolvedTrackMetadata::MusicBrainz(m) => {
            lemma_known_fields(copied, m);
        },
        ResolvedTrackMetadata::ExistingFile(_) => {},
    }
}

/// The first run notes when it was and where the tags come from, and a file so noted
/// counts as processed.
pub proof fn lemma_run_is_noted(
    t: Tags,
    fields: Seq<TagField>,
    meta: ResolvedTrackMetadata,
    now: Seq<char>,
)
    ensures
        ({
            let after = carried_out(t, super::metadata::all_changes(fields, meta, false, now));
            &&& after.custom.dom().contains("KYLE_PROCESSED_AT"@)
            &&& after.custom["KYLE_PROCESSED_AT"@] == now
            &&& after.custom.dom().contains("KYLE_MUSICBRAINZ_SOURCE"@)
            &&& after.custom["KYLE_MUSICBRAINZ_SOURCE"@] == match meta {
                ResolvedTrackMetadata::MusicBrainz(_) => "musicbrainz"@,
                ResolvedTrackMetadata::ExistingFile(_) => "existing_tags"@,
            }
        }),
{
    reveal_strlit("KYLE_PROCESSED_AT");
    reveal_strlit("KYLE_MUSICBRAINZ_SOURCE");
    assert("KYLE_PROCESSED_AT"@.len() != "KYLE_MUSICBRAINZ_SOURCE"@.len());
    lemma_three_parts(t, fields, meta, false, now);
    let first = super::metadata::kyle_backup(fields, now);
    assert(first.drop_last() =~= super::metadata::backups(fields, fields.len()));
    match meta {
        ResolvedTrackMetadata::MusicBrainz(m) => {
            lemma_known_fields(carried_out(t, first), m);
        },
        ResolvedTrackMetadata::ExistingFile(_) => {},
    }
}

/// A later run leaves every field of our own as it is.
pub proof fn lemma_later_run_keeps_our_fields(
    t: Tags,
    fields: Seq<TagField>,
    meta: ResolvedTrackMetadata,
    now: Seq<char>,
)
    ensures
        carried_out(t, super::metadata::all_changes(fields, meta, true, now)).custom == t.custom,
{
    lemma_three_parts(t, fields, meta, true, now);
    match meta {
        ResolvedTrackMetadata::MusicBrainz(m) => {
            lemma_known_fields(t, m);
        },
        ResolvedTrackMetadata::ExistingFile(_) => {},
    }
}

/// A file counts as processed exactly where the first field named `KYLE_PROCESSED_AT`
/// holds text.
pub proof fn lemma_processed_by_its_mark(fields: Seq<TagField>, i: int)
    ensures
        0 <= i < fields.len() && (fields[i].key matches TagKey::Unknown(s) && s@
            == "KYLE_PROCESSED_AT"@) && (forall|j: int|
            0 <= j < i ==> !((#[trigger] fields[j]).key matches TagKey::Unknown(s) && s@
                == "KYLE_PROCESSED_AT"@)) ==> super::metadata::processed(fields)
            == fields[i].text is Some,
        (forall|j: int|
            0 <= j < fields.len() ==> !((#[trigger] fields[j]).key matches TagKey::Unknown(s) && s@
                == "KYLE_PROCESSED_AT"@)) ==> !super::metadata::processed(fields),
{
    let p = super::metadata::is_mark();
    crate::lists::lemma_first_where(fields, p);
    if 0 <= i < fields.len() && (fields[i].key matches TagKey::Unknown(s) && s@
        == "KYLE_PROCESSED_AT"@) && (forall|j: int|
        0 <= j < i ==> !((#[trigger] fields[j]).key matches TagKey::Unknown(s) && s@
            == "KYLE_PROCESSED_AT"@)) {
        crate::lists::lemma_first_where_is(fields, p, i);
    }
    if forall|j: int|
        0 <= j < fields.len() ==> !((#[trigger] fields[j]).key matches TagKey::Unknown(s) && s@
            == "KYLE_PROCESSED_AT"@) {
        crate::lists::lemma_first_where_none(fields, p);
    }
}

/// What is read of the tags of a file is what its fields hold: a missing text is empty, a
/// missing artist is none, and the album has the artist of the track where it has none of
/// its own.
pub proof fn lemma_tags_are_read(tag: TagSummary, meta: FileTagMetadata)
    requires
        super::metadata::says(tag, meta),
    ensures
        tag.title matches Some(s) ==> meta.track_title@ == s@,
        tag.album matches Some(s) ==> meta.album_title@ == s@,
        tag.album is None ==> meta.album_title@.len() == 0,
        tag.track matches Some(n) ==> meta.track_number == Some(n as i32),
        tag.track is None ==> meta.track_number is None,
        tag.year matches Some(n) ==> meta.album_year == Some(n as i32),
        tag.year is None ==> meta.album_year is None,
        tag.artist matches Some(a) ==> (if a@.len() > 0 {
            meta.track_artists@.len() == 1 && meta.track_artists@[0]@ == a@
        } else {
            meta.track_artists@.len() == 0
        }),
        tag.artist is None ==> meta.track_artists@.len() == 0,
        tag.album_artist matches Some(a) ==> (if a@.len() > 0 {
            meta.album_artists@.len() == 1 && meta.album_artists@[0]@ == a@
        } else {
            meta.album_artists@.len() == 0
        }),
        tag.album_artist is None ==> meta.album_artists@.len() == meta.track_artists@.len() && (
        meta.track_artists@.len() == 1 ==> meta.album_artists@[0]@ == meta.track_artists@[0]@),
{
    let track = super::metadata::names_view(meta.track_artists@);
    let album = super::metadata::names_view(meta.album_artists@);
    assert(track.len() == meta.track_artists@.len());
    assert(album.len() == meta.album_artists@.len());
    if meta.track_artists@.len() > 0 {
        assert(track[0] == meta.track_artists@[0]@);
    }
    if meta.album_artists@.len() > 0 {
        assert(album[0] == meta.album_artists@[0]@);
    }
}

/// The cover that is embedded is the given one, byte for byte, under the kind that its
/// extension names in any letter case.
pub proof fn lemma_cover_is_embedded(art: AlbumArt, cover: CoverEdit)
    requires
        super::metadata::is_cover(Some(art), Some(cover)),
    ensures
        cover.data@ == art.data@,
        art.extension@ == "jpg"@ || art.extension@ == "jpeg"@ ==> cover.mime == MimeType::Jpeg,
        art.extension@ == "png"@ ==> cover.mime == MimeType::Png,
        art.extension@ == "gif"@ ==> cover.mime == MimeType::Gif,
        art.extension@ == "bmp"@ ==> cover.mime == MimeType::Bmp,
        art.extension@ == "tiff"@ || art.extension@ == "tif"@ ==> cover.mime == MimeType::Tiff,
{
    reveal_strlit("jpg");
    reveal_strlit("jpeg");
    reveal_strlit("png");
    reveal_strlit("gif");
    reveal_strlit("bmp");
    reveal_strlit("tiff");
    reveal_strlit("tif");
    let e = art.extension@;
    if e == "jpg"@ || e == "jpeg"@ || e == "png"@ || e == "gif"@ || e == "bmp"@ || e == "tiff"@ || e
        == "tif"@ {
        assert(crate::text::ascii(e));
        crate::text::lemma_lowercase_ascii(e);
        assert(crate::text::ascii_lowercase(e) =~= e);
    }
    assert("jpg"@[0] == 'j' && "jpeg"@[0] == 'j' && "png"@[0] == 'p' && "gif"@[0] == 'g' && "bmp"@[0]
        == 'b' && "tiff"@[0] == 't' && "tif"@[0] == 't');
}

/// Fields of our own are not copied: no copy has the name of one of ours behind our prefix.
pub proof fn lemma_our_fields_are_not_copied(fields: Seq<TagField>, n: nat, k: int)
    requires
        n <= fields.len(),
        0 <= k < super::metadata::backups(fields, n).len(),
    ensures
        super::metadata::backups(fields, n)[k] matches TagChange::Custom { key, .. } && key.len()
            >= 5 && key.take(5) == seq!['K', 'Y', 'L', 'E', '_'] && is_not_ours(key.skip(5)),
    decreases n,
{
    reveal_strlit("KYLE_");
    let prefix = super::metadata::kyle_prefix();
    assert(prefix =~= seq!['K', 'Y', 'L', 'E', '_']);
    if n > 0 {
        let last = (n - 1) as nat;
        let before = super::metadata::backups(fields, last);
        let f = fields[n - 1];
        if k < before.len() {
            lemma_our_fields_are_not_copied(fields, last, k);
        } else {
            let name = super::metadata::backup_name(f.key);
            assert((prefix + name).take(5) =~= prefix);
            assert((prefix + name).skip(5) =~= name);
            if !is_not_ours(name) {
                assert(name.take(5) == prefix);
                assert(super::metadata::starts_with(name, prefix));
            }
        }
    }
}

} // verus!
