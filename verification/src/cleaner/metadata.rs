//! The tags of a file: what they say, and how they are changed.
//!
//! The first time a file is processed its tags are copied to fields of their own,
//! whose names start with `KYLE_`, and the time is noted. These copies are never
//! changed again.
use vstd::prelude::*;

use super::track::{FileTagMetadata, ResolvedTrackMetadata};
use crate::cover_art::AlbumArt;
use crate::musicbrainz::TrackMetadata;
use crate::text::{append_str, str_eq, strip_prefix_chars, to_chars, to_lowercase};

verus! {

/// The field that says when a file was processed.
pub open spec fn processed_at_key() -> Seq<char> {
    "KYLE_PROCESSED_AT"@
}

/// The field that says where the metadata of a file comes from.
pub open spec fn source_key() -> Seq<char> {
    "KYLE_MUSICBRAINZ_SOURCE"@
}

/// What the names of our own fields start with.
pub open spec fn kyle_prefix() -> Seq<char> {
    "KYLE_"@
}

/// A text starts with another.
pub open spec fn starts_with(s: Seq<char>, prefix: Seq<char>) -> bool {
    crate::text::after_prefix(s, prefix) is Some
}

/// What a field of a tag is for.
#[derive(Debug)]
pub enum TagKey {
    TrackTitle,
    TrackArtist,
    AlbumTitle,
    AlbumArtist,
    TrackNumber,
    TrackTotal,
    DiscNumber,
    DiscTotal,
    Year,
    RecordingDate,
    Genre,
    Comment,
    Composer,
    MusicBrainzRecordingId,
    MusicBrainzTrackId,
    MusicBrainzReleaseId,
    MusicBrainzReleaseGroupId,
    MusicBrainzArtistId,
    MusicBrainzReleaseArtistId,
    /// A field that has only a name.
    Unknown(String),
    /// Any other field, under the name it goes by.
    Other(String),
}

/// A field of a tag, with its text where it holds text.
#[derive(Debug)]
pub struct TagField {
    pub key: TagKey,
    pub text: Option<String>,
}

/// The name under which a field is copied.
pub open spec fn backup_name(key: TagKey) -> Seq<char> {
    match key {
        TagKey::TrackTitle => "TITLE"@,
        TagKey::TrackArtist => "ARTIST"@,
        TagKey::AlbumTitle => "ALBUM"@,
        TagKey::AlbumArtist => "ALBUMARTIST"@,
        TagKey::TrackNumber => "TRACKNUMBER"@,
        TagKey::TrackTotal => "TRACKTOTAL"@,
        TagKey::DiscNumber => "DISCNUMBER"@,
        TagKey::DiscTotal => "DISCTOTAL"@,
        TagKey::Year => "YEAR"@,
        TagKey::RecordingDate => "DATE"@,
        TagKey::Genre => "GENRE"@,
        TagKey::Comment => "COMMENT"@,
        TagKey::Composer => "COMPOSER"@,
        TagKey::MusicBrainzRecordingId => "MUSICBRAINZ_TRACKID"@,
        TagKey::MusicBrainzTrackId => "MUSICBRAINZ_RELEASETRACKID"@,
        TagKey::MusicBrainzReleaseId => "MUSICBRAINZ_ALBUMID"@,
        TagKey::MusicBrainzReleaseGroupId => "MUSICBRAINZ_RELEASEGROUPID"@,
        TagKey::MusicBrainzArtistId => "MUSICBRAINZ_ARTISTID"@,
        TagKey::MusicBrainzReleaseArtistId => "MUSICBRAINZ_ALBUMARTISTID"@,
        TagKey::Unknown(s) => s@,
        TagKey::Other(s) => s@,
    }
}

/// The name under which a field is copied.
pub fn item_key_to_backup_name(key: &TagKey) -> (r: String)
    ensures
        r@ == backup_name(*key),
{
    match key {
        TagKey::TrackTitle => "TITLE".to_owned(),
        TagKey::TrackArtist => "ARTIST".to_owned(),
        TagKey::AlbumTitle => "ALBUM".to_owned(),
        TagKey::AlbumArtist => "ALBUMARTIST".to_owned(),
        TagKey::TrackNumber => "TRACKNUMBER".to_owned(),
        TagKey::TrackTotal => "TRACKTOTAL".to_owned(),
        TagKey::DiscNumber => "DISCNUMBER".to_owned(),
        TagKey::DiscTotal => "DISCTOTAL".to_owned(),
        TagKey::Year => "YEAR".to_owned(),
        TagKey::RecordingDate => "DATE".to_owned(),
        TagKey::Genre => "GENRE".to_owned(),
        TagKey::Comment => "COMMENT".to_owned(),
        TagKey::Composer => "COMPOSER".to_owned(),
        TagKey::MusicBrainzRecordingId => "MUSICBRAINZ_TRACKID".to_owned(),
        TagKey::MusicBrainzTrackId => "MUSICBRAINZ_RELEASETRACKID".to_owned(),
        TagKey::MusicBrainzReleaseId => "MUSICBRAINZ_ALBUMID".to_owned(),
        TagKey::MusicBrainzReleaseGroupId => "MUSICBRAINZ_RELEASEGROUPID".to_owned(),
        TagKey::MusicBrainzArtistId => "MUSICBRAINZ_ARTISTID".to_owned(),
        TagKey::MusicBrainzReleaseArtistId => "MUSICBRAINZ_ALBUMARTISTID".to_owned(),
        TagKey::Unknown(s) => s.clone(),
        TagKey::Other(s) => s.clone(),
    }
}

// ---- reading ---------------------------------------------------------------------------

/// The field says when the file was processed.
pub open spec fn is_mark() -> spec_fn(TagField) -> bool {
    |f: TagField| f.key matches TagKey::Unknown(s) && s@ == processed_at_key()
}

/// The file has been processed: the first field of that name holds text.
pub open spec fn processed(fields: Seq<TagField>) -> bool {
    crate::lists::first_where(fields, is_mark()) matches Some(i) && fields[i].text is Some
}

/// Whether the file with these fields has been processed.
pub fn is_already_processed(fields: &Vec<TagField>) -> (r: bool)
    ensures
        r == processed(fields@),
{
    let ghost p = is_mark();
    let mut i: usize = 0;
    while i < fields.len()
        invariant
            i <= fields@.len(),
            p == is_mark(),
            forall|j: int| 0 <= j < i ==> !p(#[trigger] fields@[j]),
        decreases fields@.len() - i,
    {
        let found: bool = match &fields[i].key {
            TagKey::Unknown(s) => str_eq(s.as_str(), "KYLE_PROCESSED_AT"),
            _ => false,
        };
        if found {
            proof {
                crate::lists::lemma_first_where_is(fields@, p, i as int);
            }
            return fields[i].text.is_some();
        }
        i += 1;
    }
    proof {
        crate::lists::lemma_first_where_none(fields@, p);
    }
    false
}

/// What the common fields of a tag hold.
#[derive(Debug)]
pub struct TagSummary {
    pub title: Option<String>,
    pub artist: Option<String>,
    pub album: Option<String>,
    pub album_artist: Option<String>,
    pub track: Option<u32>,
    pub year: Option<u32>,
}

/// A text, or none.
pub open spec fn text_or_empty(s: Option<String>) -> Seq<char> {
    match s {
        Some(s) => s@,
        None => Seq::empty(),
    }
}

/// The names of a list.
pub open spec fn names_view(names: Seq<String>) -> Seq<Seq<char>> {
    names.map_values(|s: String| s@)
}

/// A list of a name, or an empty one where the name is empty.
pub open spec fn name_list(name: Seq<char>) -> Seq<Seq<char>> {
    if name.len() == 0 {
        Seq::empty()
    } else {
        seq![name]
    }
}

/// A number of a tag as a signed one.
pub open spec fn as_signed(n: Option<u32>) -> Option<i32> {
    match n {
        Some(n) => Some(n as i32),
        None => None,
    }
}

/// What the tags of a file say is what the common fields hold. An album without
/// an artist of its own has that of the track.
pub open spec fn says(tag: TagSummary, meta: FileTagMetadata) -> bool {
    let artist = text_or_empty(tag.artist);
    let album_artist = match tag.album_artist {
        Some(a) => a@,
        None => artist,
    };
    &&& meta.track_title@ == text_or_empty(tag.title)
    &&& meta.track_number == as_signed(tag.track)
    &&& meta.album_title@ == text_or_empty(tag.album)
    &&& meta.album_year == as_signed(tag.year)
    &&& names_view(meta.track_artists@) == name_list(artist)
    &&& names_view(meta.album_artists@) == name_list(album_artist)
}

fn take_text(s: Option<String>) -> (r: String)
    ensures
        r@ == text_or_empty(s),
{
    match s {
        Some(s) => s,
        None => String::new(),
    }
}

fn listed(name: String) -> (r: Vec<String>)
    ensures
        names_view(r@) == name_list(name@),
{
    let mut out: Vec<String> = Vec::new();
    if to_chars(name.as_str()).len() > 0 {
        out.push(name);
    }
    assert(names_view(out@) =~= name_list(name@));
    out
}

fn to_signed(n: Option<u32>) -> (r: Option<i32>)
    ensures
        r == as_signed(n),
{
    match n {
        Some(n) => Some(#[verifier::truncate] (n as i32)),
        None => None,
    }
}

/// What the tags of a file say; `None` where it has none or they give no title.
pub fn read_existing_tags(tag: Option<TagSummary>) -> (r: Option<FileTagMetadata>)
    ensures
        match r {
            Some(meta) => {
                &&& tag matches Some(t)
                &&& text_or_empty(t.title).len() > 0
                &&& says(t, meta)
            },
            None => match tag {
                Some(t) => text_or_empty(t.title).len() == 0,
                None => true,
            },
        },
{
    match tag {
        Some(tag) => {
            let title = take_text(tag.title);
            if to_chars(title.as_str()).len() == 0 {
                return None;
            }
            let artist = take_text(tag.artist);
            let album_artist = match tag.album_artist {
                Some(a) => a,
                None => artist.clone(),
            };
            Some(
                FileTagMetadata {
                    track_title: title,
                    track_number: to_signed(tag.track),
                    album_title: take_text(tag.album),
                    album_year: to_signed(tag.year),
                    track_artists: listed(artist),
                    album_artists: listed(album_artist),
                },
            )
        },
        None => None,
    }
}

// ---- changing ----------------------------------------------------------------------------

/// The kind of an image.
#[derive(Debug)]
pub enum MimeType {
    Jpeg,
    Png,
    Gif,
    Bmp,
    Tiff,
    Unknown(String),
}

/// The kind of an image that an extension stands for.
pub open spec fn mime_for(lower_ext: Seq<char>, mime: MimeType) -> bool {
    if lower_ext == "jpg"@ || lower_ext == "jpeg"@ {
        mime == MimeType::Jpeg
    } else if lower_ext == "png"@ {
        mime == MimeType::Png
    } else if lower_ext == "gif"@ {
        mime == MimeType::Gif
    } else if lower_ext == "bmp"@ {
        mime == MimeType::Bmp
    } else if lower_ext == "tiff"@ || lower_ext == "tif"@ {
        mime == MimeType::Tiff
    } else {
        mime matches MimeType::Unknown(name) && name@ == "image/"@ + lower_ext
    }
}

/// The kind of an image whose name had the given extension, in small letters.
pub fn mime_of(lower_ext: &str) -> (r: MimeType)
    ensures
        mime_for(lower_ext@, r),
{
    if str_eq(lower_ext, "jpg") || str_eq(lower_ext, "jpeg") {
        MimeType::Jpeg
    } else if str_eq(lower_ext, "png") {
        MimeType::Png
    } else if str_eq(lower_ext, "gif") {
        MimeType::Gif
    } else if str_eq(lower_ext, "bmp") {
        MimeType::Bmp
    } else if str_eq(lower_ext, "tiff") || str_eq(lower_ext, "tif") {
        MimeType::Tiff
    } else {
        MimeType::Unknown(append_str("image/", lower_ext))
    }
}

/// A change to a tag. Each takes the place of what the field held.
#[derive(Debug)]
pub enum TagEdit {
    /// A field that has only a name.
    Custom { key: String, value: String },
    Title(String),
    Artist(String),
    Album(String),
    AlbumArtist(String),
    Track(u32),
    Year(u32),
    ReleaseId(String),
    RecordingId(String),
    ReleaseGroupId(String),
}

/// A change to a tag as a value.
pub enum TagChange {
    Custom { key: Seq<char>, value: Seq<char> },
    Title(Seq<char>),
    Artist(Seq<char>),
    Album(Seq<char>),
    AlbumArtist(Seq<char>),
    Track(u32),
    Year(u32),
    ReleaseId(Seq<char>),
    RecordingId(Seq<char>),
    ReleaseGroupId(Seq<char>),
}

impl View for TagEdit {
    type V = TagChange;

    open spec fn view(&self) -> TagChange {
        match *self {
            TagEdit::Custom { key, value } => TagChange::Custom { key: key@, value: value@ },
            TagEdit::Title(s) => TagChange::Title(s@),
            TagEdit::Artist(s) => TagChange::Artist(s@),
            TagEdit::Album(s) => TagChange::Album(s@),
            TagEdit::AlbumArtist(s) => TagChange::AlbumArtist(s@),
            TagEdit::Track(n) => TagChange::Track(n),
            TagEdit::Year(n) => TagChange::Year(n),
            TagEdit::ReleaseId(s) => TagChange::ReleaseId(s@),
            TagEdit::RecordingId(s) => TagChange::RecordingId(s@),
            TagEdit::ReleaseGroupId(s) => TagChange::ReleaseGroupId(s@),
        }
    }
}

/// Changes as values.
pub open spec fn changes_view(edits: Seq<TagEdit>) -> Seq<TagChange> {
    edits.map_values(|e: TagEdit| e@)
}

/// The field is copied: it holds text and is not one of our own.
pub open spec fn is_backed_up(f: TagField) -> bool {
    f.text is Some && !starts_with(backup_name(f.key), kyle_prefix())
}

/// The copy of a field.
pub open spec fn backup_of(f: TagField) -> TagChange {
    TagChange::Custom { key: kyle_prefix() + backup_name(f.key), value: f.text->0@ }
}

/// The copies of the first `n` fields.
pub open spec fn backups(fields: Seq<TagField>, n: nat) -> Seq<TagChange>
    decreases n,
{
    if n == 0 {
        Seq::empty()
    } else if is_backed_up(fields[n - 1]) {
        backups(fields, (n - 1) as nat).push(backup_of(fields[n - 1]))
    } else {
        backups(fields, (n - 1) as nat)
    }
}

/// What is done the first time: the fields are copied and the time is noted.
pub open spec fn kyle_backup(fields: Seq<TagField>, now: Seq<char>) -> Seq<TagChange> {
    backups(fields, fields.len()).push(TagChange::Custom { key: processed_at_key(), value: now })
}

/// The name of the first artist, or the given one where there is none.
pub open spec fn first_artist(artists: Seq<crate::musicbrainz::Artist>, otherwise: Seq<char>)
    -> Seq<char> {
    if artists.len() > 0 {
        artists[0].name@
    } else {
        otherwise
    }
}

/// What MusicBrainz knows of a track, as changes.
pub open spec fn musicbrainz_changes(m: TrackMetadata) -> Seq<TagChange> {
    let artist = first_artist(m.track_artists@, Seq::empty());
    let always = seq![
        TagChange::Title(m.track_title@),
        TagChange::Artist(artist),
        TagChange::Album(m.album_title@),
        TagChange::AlbumArtist(first_artist(m.album_artists@, artist)),
        TagChange::Track(m.track_number as u32),
    ];
    let year = match m.album_year {
        Some(y) => seq![TagChange::Year(y as u32)],
        None => Seq::empty(),
    };
    let recording = match m.track_musicbrainz_id {
        Some(id) => seq![TagChange::RecordingId(id@)],
        None => Seq::empty(),
    };
    let group = match m.album_musicbrainz_id {
        Some(id) => seq![TagChange::ReleaseGroupId(id@)],
        None => Seq::empty(),
    };
    always + year + seq![TagChange::ReleaseId(m.release_mbid@)] + recording + group
}

/// What is written of a track: what MusicBrainz knows, or nothing where its tags
/// stay as they are.
pub open spec fn metadata_changes(meta: ResolvedTrackMetadata) -> Seq<TagChange> {
    match meta {
        ResolvedTrackMetadata::MusicBrainz(m) => musicbrainz_changes(m),
        ResolvedTrackMetadata::ExistingFile(_) => Seq::empty(),
    }
}

/// Where the tags of a track come from.
pub open spec fn source_of(meta: ResolvedTrackMetadata) -> Seq<char> {
    match meta {
        ResolvedTrackMetadata::MusicBrainz(_) => "musicbrainz"@,
        ResolvedTrackMetadata::ExistingFile(_) => "existing_tags"@,
    }
}

/// What is done to the tags of a file. Our own fields, the copies and the notes of
/// when and from what the tags were written, are written the first time only.
pub open spec fn all_changes(
    fields: Seq<TagField>,
    meta: ResolvedTrackMetadata,
    already_processed: bool,
    now: Seq<char>,
) -> Seq<TagChange> {
    if already_processed {
        metadata_changes(meta)
    } else {
        (kyle_backup(fields, now) + metadata_changes(meta)).push(
            TagChange::Custom { key: source_key(), value: source_of(meta) },
        )
    }
}

/// A cover to embed, in place of the front cover that was there.
#[derive(Debug)]
pub struct CoverEdit {
    pub mime: MimeType,
    pub data: Vec<u8>,
}

/// The cover to embed is the given one.
pub open spec fn is_cover(art: Option<AlbumArt>, cover: Option<CoverEdit>) -> bool {
    match (art, cover) {
        (Some(art), Some(cover)) => {
            &&& cover.data@ == art.data@
            &&& mime_for(crate::text::lowercase(art.extension@), cover.mime)
        },
        (None, None) => true,
        _ => false,
    }
}

/// What is done to a file: the changes to its tags, in order, and the cover.
#[derive(Debug)]
pub struct TagPlan {
    pub edits: Vec<TagEdit>,
    pub cover: Option<CoverEdit>,
}

/// Two decimal digits.
pub open spec fn two_digits(n: nat) -> Seq<char> {
    seq![crate::text::digit_char(n / 10), crate::text::digit_char(n % 10)]
}

/// A year: four digits, or more after a plus sign.
pub open spec fn year_digits(y: nat) -> Seq<char> {
    if y <= 9999 {
        two_digits(y / 100) + two_digits(y % 100)
    } else {
        seq!['+'] + crate::text::decimal(y)
    }
}

/// A part of a second: nothing, or a point and three, six or nine digits.
pub open spec fn is_fraction(s: Seq<char>) -> bool {
    ||| s.len() == 0
    ||| {
        &&& s.len() == 4 || s.len() == 7 || s.len() == 10
        &&& s[0] == '.'
        &&& forall|i: int| 0 < i < s.len() ==> crate::text::is_digit(#[trigger] s[i])
    }
}

/// A time in the form of RFC 3339, in UTC.
pub open spec fn stamp(
    date: (nat, nat, nat),
    time: (nat, nat, nat),
    fraction: Seq<char>,
) -> Seq<char> {
    year_digits(date.0) + seq!['-'] + two_digits(date.1) + seq!['-'] + two_digits(date.2)
        + seq!['T'] + two_digits(time.0) + seq![':'] + two_digits(time.1) + seq![':'] + two_digits(
        time.2,
    ) + fraction + "+00:00"@
}

/// The text is a time in the form of RFC 3339, in UTC, since the year 1970.
pub open spec fn is_rfc3339(s: Seq<char>) -> bool {
    exists|date: (nat, nat, nat), time: (nat, nat, nat), fraction: Seq<char>|
        {
            &&& s == #[trigger] stamp(date, time, fraction)
            &&& 1970 <= date.0
            &&& 1 <= date.1 <= 12
            &&& 1 <= date.2 <= 31
            &&& time.0 < 24
            &&& time.1 < 60
            &&& time.2 < 60
            &&& is_fraction(fraction)
        }
}

/// `chrono::Utc::now`, written by `chrono::DateTime::to_rfc3339`: a time in the form of
/// RFC 3339. Nothing is claimed of which time the clock shows.
#[verifier::external_body]
fn utc_now() -> (r: String)
    ensures
        is_rfc3339(r@),
{
    chrono::Utc::now().to_rfc3339()
}

/// Copy the fields, and note the time.
fn write_kyle_backup(fields: &Vec<TagField>, now: String) -> (r: Vec<TagEdit>)
    ensures
        changes_view(r@) == kyle_backup(fields@, now@),
{
    let prefix = to_chars("KYLE_");
    let mut out: Vec<TagEdit> = Vec::new();
    let mut i: usize = 0;
    assert(changes_view(out@) =~= Seq::empty());
    while i < fields.len()
        invariant
            i <= fields@.len(),
            prefix@ == kyle_prefix(),
            changes_view(out@) == backups(fields@, i as nat),
        decreases fields@.len() - i,
    {
        let ghost before = out@;
        let name = item_key_to_backup_name(&fields[i].key);
        if strip_prefix_chars(&to_chars(name.as_str()), &prefix).is_none() {
            match &fields[i].text {
                Some(text) => {
                    let edit = TagEdit::Custom {
                        key: append_str("KYLE_", name.as_str()),
                        value: text.clone(),
                    };
                    let ghost change = edit@;
                    out.push(edit);
                    assert(change == backup_of(fields@[i as int]));
                    assert(changes_view(out@) =~= changes_view(before).push(change));
                },
                None => {},
            }
        }
        i += 1;
    }
    let ghost before = out@;
    let edit = TagEdit::Custom { key: "KYLE_PROCESSED_AT".to_owned(), value: now };
    let ghost change = edit@;
    out.push(edit);
    assert(changes_view(out@) =~= changes_view(before).push(change));
    out
}

/// What MusicBrainz knows of a track, as changes.
fn write_musicbrainz_tags(m: &TrackMetadata) -> (r: Vec<TagEdit>)
    ensures
        changes_view(r@) == musicbrainz_changes(*m),
{
    let artist = if m.track_artists.len() > 0 {
        m.track_artists[0].name.clone()
    } else {
        String::new()
    };
    let album_artist = if m.album_artists.len() > 0 {
        m.album_artists[0].name.clone()
    } else {
        artist.clone()
    };
    let mut out: Vec<TagEdit> = Vec::new();
    out.push(TagEdit::Title(m.track_title.clone()));
    out.push(TagEdit::Artist(artist));
    out.push(TagEdit::Album(m.album_title.clone()));
    out.push(TagEdit::AlbumArtist(album_artist));
    out.push(TagEdit::Track(#[verifier::truncate] (m.track_number as u32)));
    match m.album_year {
        Some(y) => {
            out.push(TagEdit::Year(#[verifier::truncate] (y as u32)));
        },
        None => {},
    }
    out.push(TagEdit::ReleaseId(m.release_mbid.clone()));
    match &m.track_musicbrainz_id {
        Some(id) => {
            out.push(TagEdit::RecordingId(id.clone()));
        },
        None => {},
    }
    match &m.album_musicbrainz_id {
        Some(id) => {
            out.push(TagEdit::ReleaseGroupId(id.clone()));
        },
        None => {},
    }
    assert(changes_view(out@) =~= musicbrainz_changes(*m));
    out
}

/// The cover to embed.
fn embed_cover_art(art: Option<AlbumArt>) -> (r: Option<CoverEdit>)
    ensures
        is_cover(art, r),
{
    match art {
        Some(art) => {
            let lower = to_lowercase(art.extension.as_str());
            Some(CoverEdit { mime: mime_of(lower.as_str()), data: art.data })
        },
        None => None,
    }
}

/// What is done to a file at the given time.
pub fn apply_metadata_at(
    fields: &Vec<TagField>,
    meta: &ResolvedTrackMetadata,
    art: Option<AlbumArt>,
    already_processed: bool,
    now: String,
) -> (r: TagPlan)
    ensures
        changes_view(r.edits@) == all_changes(fields@, *meta, already_processed, now@),
        is_cover(art, r.cover),
{
    let mut edits: Vec<TagEdit> = if already_processed {
        Vec::new()
    } else {
        write_kyle_backup(fields, now.clone())
    };
    let ghost first = edits@;
    assert(already_processed ==> changes_view(first) =~= Seq::empty());
    let source = match meta {
        ResolvedTrackMetadata::MusicBrainz(m) => {
            let mut more = write_musicbrainz_tags(m);
            let ghost second = more@;
            edits.append(&mut more);
            assert(changes_view(edits@) =~= changes_view(first) + changes_view(second));
            "musicbrainz".to_owned()
        },
        ResolvedTrackMetadata::ExistingFile(_) => "existing_tags".to_owned(),
    };
    assert(changes_view(edits@) =~= changes_view(first) + metadata_changes(*meta));
    if !already_processed {
        let ghost written = edits@;
        let edit = TagEdit::Custom { key: "KYLE_MUSICBRAINZ_SOURCE".to_owned(), value: source };
        let ghost change = edit@;
        edits.push(edit);
        assert(changes_view(edits@) =~= changes_view(written).push(change));
    }
    assert(changes_view(edits@) =~= all_changes(fields@, *meta, already_processed, now@));
    TagPlan { edits, cover: embed_cover_art(art) }
}

/// What is done to a file now: the time that is noted is in the form of RFC 3339.
pub fn apply_metadata(
    fields: &Vec<TagField>,
    meta: &ResolvedTrackMetadata,
    art: Option<AlbumArt>,
    already_processed: bool,
) -> (r: TagPlan)
    ensures
        exists|now: Seq<char>|
            is_rfc3339(now) && changes_view(r.edits@) == #[trigger] all_changes(
                fields@,
                *meta,
                already_processed,
                now,
            ),
        is_cover(art, r.cover),
{
    let now = utc_now();
    apply_metadata_at(fields, meta, art, already_processed, now)
}

// ---- laws -----------------------------------------------------------------------------------

/// The change is to the given field of our own.
pub open spec fn touches(change: TagChange, key: Seq<char>) -> bool {
    change matches TagChange::Custom { key: k, .. } && k == key
}

/// Processing a file again never touches a field of our own: not a copy that was
/// made the first time, nor what was noted then.
pub proof fn lemma_copies_are_kept(
    fields: Seq<TagField>,
    meta: ResolvedTrackMetadata,
    now: Seq<char>,
    key: Seq<char>,
)
    ensures
        forall|i: int|
            0 <= i < all_changes(fields, meta, true, now).len() ==> !touches(
                #[trigger] all_changes(fields, meta, true, now)[i],
                key,
            ),
{
}

proof fn lemma_backups_keys(fields: Seq<TagField>, n: nat)
    requires
        n <= fields.len(),
    ensures
        forall|i: int|
            0 <= i < backups(fields, n).len() ==> exists|j: int|
                0 <= j < n && is_backed_up(#[trigger] fields[j]) && (#[trigger] backups(
                    fields,
                    n,
                )[i]) == backup_of(fields[j]),
    decreases n,
{
    if n > 0 {
        lemma_backups_keys(fields, (n - 1) as nat);
        let b = backups(fields, n);
        let prev = backups(fields, (n - 1) as nat);
        assert forall|i: int| 0 <= i < b.len() implies exists|j: int|
            0 <= j < n && is_backed_up(#[trigger] fields[j]) && (#[trigger] b[i]) == backup_of(
                fields[j],
            ) by {
            if i < prev.len() {
                assert(b[i] == prev[i]);
                let j = choose|j: int|
                    0 <= j < n - 1 && is_backed_up(#[trigger] fields[j]) && prev[i] == backup_of(
                        fields[j],
                    );
                assert(is_backed_up(fields[j]));
            } else {
                assert(is_backed_up(fields[n - 1]));
            }
        }
    }
}

/// A copy is never copied again: no field is copied whose name starts with
/// `KYLE_`, so no name starts with it twice.
pub proof fn lemma_no_double_prefix(fields: Seq<TagField>, i: int)
    requires
        0 <= i < backups(fields, fields.len()).len(),
    ensures
        ({
            let change = backups(fields, fields.len())[i];
            &&& change matches TagChange::Custom { key, .. }
            &&& starts_with(key, kyle_prefix())
            &&& !starts_with(key, kyle_prefix() + kyle_prefix())
        }),
{
    lemma_backups_keys(fields, fields.len());
    let change = backups(fields, fields.len())[i];
    let j = choose|j: int|
        0 <= j < fields.len() && is_backed_up(#[trigger] fields[j]) && change == backup_of(
            fields[j],
        );
    let name = backup_name(fields[j].key);
    let key = kyle_prefix() + name;
    let p = kyle_prefix();
    assert(key.take(p.len() as int) =~= p);
    if starts_with(key, p + p) {
        assert(key.take((p + p).len() as int) == p + p);
        assert(name.take(p.len() as int) =~= p) by {
            assert forall|k: int| 0 <= k < p.len() implies name[k] == p[k] by {
                assert(key.take((p + p).len() as int)[p.len() + k] == (p + p)[p.len() + k]);
            }
        }
        assert(starts_with(name, p));
    }
}

/// Every field that holds text and is not our own is copied the first time.
pub proof fn lemma_everything_is_copied(fields: Seq<TagField>, j: int, n: nat)
    requires
        0 <= j < n <= fields.len(),
        is_backed_up(fields[j]),
    ensures
        backups(fields, n).contains(backup_of(fields[j])),
    decreases n,
{
    let b = backups(fields, n);
    if j == n - 1 {
        assert(b[b.len() - 1] == backup_of(fields[j]));
    } else {
        lemma_everything_is_copied(fields, j, (n - 1) as nat);
        let prev = backups(fields, (n - 1) as nat);
        let i = choose|i: int| 0 <= i < prev.len() && prev[i] == backup_of(fields[j]);
        assert(b[i] == backup_of(fields[j]));
    }
}

/// After the first run a file counts as processed, whatever its tags were: the
/// time is noted in the field that is looked for.
pub proof fn lemma_first_run_is_noted(
    fields: Seq<TagField>,
    meta: ResolvedTrackMetadata,
    now: Seq<char>,
)
    ensures
        all_changes(fields, meta, false, now).contains(
            TagChange::Custom { key: processed_at_key(), value: now },
        ),
{
    let n = backups(fields, fields.len()).len() as int;
    assert(all_changes(fields, meta, false, now)[n] == (TagChange::Custom {
        key: processed_at_key(),
        value: now,
    }));
}

} // verus!
