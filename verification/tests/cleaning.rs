use soulseek_rs::cleaner::art::{fitted_art, maybe_resize_art, ArtError};
use soulseek_rs::cleaner::bad_file::{
    check_reader_by_bytes, AudioError, CheckOptions, CheckStep, Hertz, MediaError, PacketEvent,
    ReaderCheck,
};
use soulseek_rs::cleaner::cli::Args;
use soulseek_rs::cleaner::error::MusicCleanerError;
use soulseek_rs::cleaner::metadata::{
    apply_metadata, apply_metadata_at, is_already_processed, item_key_to_backup_name, mime_of,
    read_existing_tags, MimeType, TagEdit, TagField, TagKey, TagPlan, TagSummary,
};
use soulseek_rs::cleaner::processor::{
    has_audio_extension, is_audio_file, resolve_file_conflict, unknown_dir, Event, FileProcess,
    ProcessOutcome, SkipReason, Stage, Step, Tally,
};
use soulseek_rs::cleaner::template::{render, sanitize_component};
use soulseek_rs::cleaner::track::{FileTagMetadata, ResolvedTrackMetadata};
use soulseek_rs::cover_art::{AlbumArt, CoverArtArchiveError};
use soulseek_rs::musicbrainz::error::Error;
use soulseek_rs::musicbrainz::{Artist, TrackMetadata};
use soulseek_rs::time::Duration;

fn track(title: &str, album: &str, artist: &str, track_number: i32) -> TrackMetadata {
    TrackMetadata {
        sha256: String::new(),
        track_title: title.to_string(),
        track_number,
        duration: Duration::from_secs(180),
        track_musicbrainz_id: None,
        release_mbid: "release-id".to_string(),
        album_title: album.to_string(),
        album_musicbrainz_id: None,
        album_year: Some(2024),
        track_artists: vec![Artist { name: artist.to_string(), musicbrainz_id: None }],
        album_artists: vec![Artist { name: artist.to_string(), musicbrainz_id: None }],
    }
}

fn make_mb_meta(title: &str, album: &str, artist: &str, n: i32) -> ResolvedTrackMetadata {
    ResolvedTrackMetadata::MusicBrainz(track(title, album, artist, n))
}

fn tags(title: &str, album: &str, artist: &str, track_number: i32) -> FileTagMetadata {
    FileTagMetadata {
        track_title: title.to_string(),
        track_number: Some(track_number),
        album_title: album.to_string(),
        album_year: Some(2024),
        track_artists: vec![artist.to_string()],
        album_artists: vec![artist.to_string()],
    }
}

fn make_file_meta(title: &str, album: &str, artist: &str, n: i32) -> ResolvedTrackMetadata {
    ResolvedTrackMetadata::ExistingFile(tags(title, album, artist, n))
}

fn args() -> Args {
    Args {
        input: "in".to_string(),
        output_dir: None,
        template: "{artist}/{title}.{ext}".to_string(),
        recursive: false,
        move_files: false,
        overwrite_files: false,
        overwrite_metadata: false,
        non_interactive: true,
        acoustid_api_key: Some("key".to_string()),
        no_musicbrainz: false,
        unknown_dir: None,
        max_image_width: None,
        max_image_height: None,
    }
}

// ---- names ---------------------------------------------------------------------------------

#[test]
fn flat_template() {
    let meta = make_mb_meta("My Song", "My Album", "My Artist", 3);
    let path = render("{track_number} - {title}.{ext}", &meta, "flac");
    assert_eq!(path, "03 - My Song.flac");
}

#[test]
fn nested_template_creates_components() {
    let meta = make_mb_meta("My Song", "My Album", "My Artist", 7);
    let path = render("{artist}/{album}/{track_number} - {title}.{ext}", &meta, "mp3");
    assert_eq!(path, "My Artist/My Album/07 - My Song.mp3");
}

#[test]
fn sanitizes_special_characters() {
    let meta = make_mb_meta("Song: Part 1", "Album?", "Artist*Name", 1);
    let path = render("{artist}/{album}/{title}.{ext}", &meta, "flac");
    assert_eq!(path, "Artist-Name/Album-/Song- Part 1.flac");
}

#[test]
fn existing_file_fallback_renders() {
    let meta = make_file_meta("My Song", "My Album", "My Artist", 3);
    let path = render("{track_number} - {title}.{ext}", &meta, "flac");
    assert_eq!(path, "03 - My Song.flac");
}

#[test]
fn sanitizes_slashes() {
    let meta = make_mb_meta("My Song (a/b)", "My Album (c/d)", "My Artist (e/f)", 3);
    let path = render("{artist}/{album}/{track_number} - {title}.{ext}", &meta, "mp3");
    assert_eq!(path, "My Artist (e-f)/My Album (c-d)/03 - My Song (a-b).mp3");
}

#[test]
fn sanitizing_again_changes_nothing() {
    let once = sanitize_component("a<b>c:d\"e/f\\g|h?i*j");
    assert!(!once.contains('/') && !once.contains('\\') && !once.contains('?'));
    assert_eq!(sanitize_component(&once), once);
}

#[test]
fn names_of_a_path_come_from_the_template() {
    let meta = make_mb_meta("../../x", "y", "z", 1);
    let path = render("{title}.{ext}", &meta, "mp3");
    assert!(!path.contains('/'));
}

#[test]
fn year_and_album_artist() {
    let meta = make_mb_meta("t", "al", "ar", 12);
    assert_eq!(render("{year}/{album_artist}/{track_number}", &meta, "mp3"), "2024/ar/12");
}

// ---- tags ------------------------------------------------------------------------------------

fn field(key: TagKey, text: Option<&str>) -> TagField {
    TagField { key, text: text.map(|t| t.to_string()) }
}

fn customs(plan: &TagPlan) -> Vec<(String, String)> {
    plan.edits
        .iter()
        .filter_map(|e| match e {
            TagEdit::Custom { key, value } => Some((key.clone(), value.clone())),
            _ => None,
        })
        .collect()
}

#[test]
fn names_of_copies() {
    assert_eq!(item_key_to_backup_name(&TagKey::TrackTitle), "TITLE");
    assert_eq!(item_key_to_backup_name(&TagKey::RecordingDate), "DATE");
    assert_eq!(item_key_to_backup_name(&TagKey::MusicBrainzRecordingId), "MUSICBRAINZ_TRACKID");
    assert_eq!(item_key_to_backup_name(&TagKey::Unknown("FOO".to_string())), "FOO");
}

#[test]
fn first_run_copies_every_text_and_notes_the_time() {
    let fields = vec![
        field(TagKey::TrackTitle, Some("Old")),
        field(TagKey::Genre, None),
        field(TagKey::Unknown("KYLE_TITLE".to_string()), Some("older")),
    ];
    let meta = make_mb_meta("New", "Album", "Artist", 4);
    let plan = apply_metadata_at(&fields, &meta, None, false, "now".to_string());
    assert_eq!(
        customs(&plan),
        vec![
            ("KYLE_TITLE".to_string(), "Old".to_string()),
            ("KYLE_PROCESSED_AT".to_string(), "now".to_string()),
            ("KYLE_MUSICBRAINZ_SOURCE".to_string(), "musicbrainz".to_string()),
        ]
    );
    assert!(plan.edits.iter().any(|e| matches!(e, TagEdit::Title(t) if t == "New")));
    assert!(plan.edits.iter().any(|e| matches!(e, TagEdit::Track(4))));
    assert!(plan.edits.iter().any(|e| matches!(e, TagEdit::Year(2024))));
    assert!(plan.edits.iter().any(|e| matches!(e, TagEdit::ReleaseId(i) if i == "release-id")));
    assert!(plan.cover.is_none());
}

#[test]
fn second_run_makes_no_copies() {
    let fields = vec![field(TagKey::TrackTitle, Some("Old"))];
    let meta = make_file_meta("T", "A", "R", 1);
    let plan = apply_metadata_at(&fields, &meta, None, true, "now".to_string());
    assert!(plan.edits.is_empty());
    let meta = make_mb_meta("T", "A", "R", 1);
    let plan = apply_metadata_at(&fields, &meta, None, true, "now".to_string());
    assert!(customs(&plan).is_empty());
    assert!(plan.edits.iter().any(|e| matches!(e, TagEdit::Title(t) if t == "T")));
}

#[test]
fn time_of_processing_is_a_time() {
    let meta = make_file_meta("T", "A", "R", 1);
    let plan = apply_metadata(&Vec::new(), &meta, None, false);
    let at = customs(&plan)
        .into_iter()
        .find(|(k, _)| k == "KYLE_PROCESSED_AT")
        .map(|(_, v)| v)
        .unwrap();
    let shape: String =
        at.chars().take(19).map(|c| if c.is_ascii_digit() { '0' } else { c }).collect();
    assert_eq!(shape, "0000-00-00T00:00:00");
    assert!(at.starts_with("2") && at.ends_with("+00:00"), "{at}");
    let fraction = &at[19..at.len() - 6];
    assert!([0, 4, 7, 10].contains(&fraction.len()), "{at}");
    assert!(fraction.chars().skip(1).all(|c| c.is_ascii_digit()), "{at}");
}

#[test]
fn cover_with_its_kind() {
    let meta = make_mb_meta("T", "A", "R", 1);
    let art = AlbumArt { data: vec![1, 2], extension: "PNG".to_string() };
    let plan = apply_metadata_at(&Vec::new(), &meta, Some(art), true, "now".to_string());
    let cover = plan.cover.unwrap();
    assert!(matches!(cover.mime, MimeType::Png));
    assert_eq!(cover.data, vec![1, 2]);
    assert!(matches!(mime_of("jpeg"), MimeType::Jpeg));
    assert!(matches!(mime_of("tif"), MimeType::Tiff));
    assert!(matches!(mime_of("webp"), MimeType::Unknown(m) if m == "image/webp"));
}

#[test]
fn mark_of_processed_files() {
    let mark = |text| field(TagKey::Unknown("KYLE_PROCESSED_AT".to_string()), text);
    assert!(is_already_processed(&vec![field(TagKey::Genre, Some("x")), mark(Some("t"))]));
    assert!(!is_already_processed(&vec![mark(None)]));
    assert!(!is_already_processed(&Vec::new()));
}

#[test]
fn tags_of_a_file() {
    assert!(read_existing_tags(None).is_none());
    let tag = TagSummary {
        title: Some("T".to_string()),
        artist: Some("R".to_string()),
        album: None,
        album_artist: None,
        track: Some(2),
        year: None,
    };
    let meta = read_existing_tags(Some(tag)).unwrap();
    assert_eq!(meta.track_title, "T");
    assert_eq!(meta.album_title, "");
    assert_eq!(meta.track_number, Some(2));
    assert_eq!(meta.track_artists, vec!["R"]);
    assert_eq!(meta.album_artists, vec!["R"]);
    assert_eq!(meta.album_year, None);
}

// ---- broken files --------------------------------------------------------------------------

#[test]
fn whole_file() {
    let mut check = ReaderCheck::new(&CheckOptions::default());
    assert!(matches!(check.check_reader(PacketEvent::OtherTrack), CheckStep::NextPacket));
    assert!(matches!(
        check.check_reader(PacketEvent::Decoded { frames: 100, rate: 44100 }),
        CheckStep::NextPacket
    ));
    assert!(matches!(
        check.check_reader(PacketEvent::Decoded { frames: 50, rate: 48000 }),
        CheckStep::NextPacket
    ));
    assert!(matches!(check.check_reader(PacketEvent::ResetRequired), CheckStep::ResetDecoder));
    assert!(matches!(check.check_reader(PacketEvent::EndOfStream), CheckStep::Finish));
    let info = check.finish(Duration::from_millis(3)).unwrap();
    assert_eq!(info.total_frames, 150);
    assert_eq!(info.sample_rate, Hertz(44100));
    assert_eq!(info.duration.as_nanos(), 3_000_000);
    assert_eq!(info.soft_errors, 0);
}

#[test]
fn empty_file() {
    let check = ReaderCheck::new(&CheckOptions::default());
    assert!(matches!(check.finish(Duration::from_secs(1)), Err(AudioError::Empty)));
}

#[test]
fn errors_in_a_row() {
    let mut check = ReaderCheck::new(&CheckOptions { max_soft_errors: 2 });
    for _ in 0..5 {
        let bad = check.check_reader(PacketEvent::DecodeError("x".to_string()));
        assert!(matches!(bad, CheckStep::NextPacket));
        let good = check.check_reader(PacketEvent::Decoded { frames: 1, rate: 8000 });
        assert!(matches!(good, CheckStep::NextPacket));
    }
    assert_eq!(check.soft_errors, 5);
    check.check_reader(PacketEvent::DecodeError("x".to_string()));
    check.check_reader(PacketEvent::DecodeError("x".to_string()));
    let last = check.check_reader(PacketEvent::DecodeError("y".to_string()));
    assert!(matches!(
        last,
        CheckStep::Fail(AudioError::TooManyDecodeErrors { count: 3, last }) if last == "y"
    ));
}

#[test]
fn fatal_errors() {
    let blame = |e| {
        let mut check = ReaderCheck::new(&CheckOptions::default());
        match check.check_reader(PacketEvent::ReadFailed(e)) {
            CheckStep::Fail(e) => e.message(),
            other => panic!("{other:?}"),
        }
    };
    assert_eq!(blame(MediaError::Io("gone".to_string())), "I/O error: gone");
    assert_eq!(blame(MediaError::EndOfStream("end".to_string())), "I/O error: end");
    assert_eq!(blame(MediaError::Unsupported("x".to_string())), "Unknown format: x");
    assert_eq!(blame(MediaError::Decode("x".to_string())), "Packet error");
    assert_eq!(blame(MediaError::Seek), "Packet error");
    assert_eq!(blame(MediaError::Limit), "Unknown error");
    assert_eq!(blame(MediaError::ResetRequired), "Unknown error");
    assert_eq!(blame(MediaError::Panicked), "Unknown error");
    assert_eq!(AudioError::NoTracks.message(), "No tracks");
    assert_eq!(AudioError::Empty.message(), "Empty");
    let mut check = ReaderCheck::new(&CheckOptions::default());
    assert!(matches!(
        check.check_reader(PacketEvent::DecodeFailed),
        CheckStep::Fail(AudioError::PacketError)
    ));
}

/// A WAV file of one channel and 16 bits a sample.
fn wav(frames: u32, rate: u32) -> Vec<u8> {
    let mut out = Vec::new();
    out.extend(b"RIFF");
    out.extend((36 + 2 * frames).to_le_bytes());
    out.extend(b"WAVEfmt ");
    out.extend(16u32.to_le_bytes());
    out.extend(1u16.to_le_bytes());
    out.extend(1u16.to_le_bytes());
    out.extend(rate.to_le_bytes());
    out.extend((2 * rate).to_le_bytes());
    out.extend(2u16.to_le_bytes());
    out.extend(16u16.to_le_bytes());
    out.extend(b"data");
    out.extend((2 * frames).to_le_bytes());
    for i in 0..frames {
        out.extend(((i % 100) as u16).to_le_bytes());
    }
    out
}

/// A WAV file in IMA ADPCM, of blocks that hold nothing but zeros.
fn adpcm(channels: u16, block: u16, blocks: u32) -> Vec<u8> {
    let mut out = Vec::new();
    out.extend(b"RIFF");
    out.extend((40 + block as u32 * blocks).to_le_bytes());
    out.extend(b"WAVEfmt ");
    out.extend(20u32.to_le_bytes());
    out.extend(0x11u16.to_le_bytes());
    out.extend(channels.to_le_bytes());
    out.extend(8000u32.to_le_bytes());
    out.extend(4000u32.to_le_bytes());
    out.extend(block.to_le_bytes());
    out.extend(4u16.to_le_bytes());
    out.extend(2u16.to_le_bytes());
    out.extend(17u16.to_le_bytes());
    out.extend(b"data");
    out.extend((block as u32 * blocks).to_le_bytes());
    out.extend(vec![0; block as usize * blocks as usize]);
    out
}

#[test]
fn reader_that_panics_is_no_reader() {
    match check_reader_by_bytes(&wav(100, 0), Some("wav"), &CheckOptions::default()) {
        Err(AudioError::UnknownFormat(s)) => assert_eq!(s, "unknown format"),
        other => panic!("{other:?}"),
    }
}

#[test]
fn decoder_that_panics_has_failed() {
    let options = CheckOptions::default();
    let sound = check_reader_by_bytes(&adpcm(2, 24, 4), Some("wav"), &options).unwrap();
    assert_eq!(sound.sample_rate, Some(Hertz(8000)));
    assert!(sound.total_frames > 0);
    let broken = check_reader_by_bytes(&adpcm(3, 36, 4), Some("wav"), &options);
    assert!(matches!(broken, Err(AudioError::PacketError)));
}

#[test]
fn files_are_checked_within_a_runtime() {
    let runtime = tokio::runtime::Builder::new_current_thread().build().unwrap();
    let found = runtime.block_on(std::future::poll_fn(|_| {
        let sound = check_reader_by_bytes(&wav(100, 8000), None, &CheckOptions::default());
        let broken = check_reader_by_bytes(&wav(100, 0), None, &CheckOptions::default());
        std::task::Poll::Ready((sound.unwrap().total_frames, broken.is_err()))
    }));
    assert_eq!(found, (100, true));
}

#[test]
fn every_packet_of_a_file_is_decoded() {
    let options = CheckOptions::default();
    let check = check_reader_by_bytes(&wav(5000, 8000), Some("wav"), &options).unwrap();
    assert_eq!(check.total_frames, 5000);
    assert_eq!(check.sample_rate, Some(Hertz(8000)));
    assert_eq!((check.soft_errors, check.in_a_row), (0, 0));
    assert_eq!(check.max_soft_errors, 10);
    let info = check.finish(Duration::from_millis(625)).unwrap();
    assert_eq!(info.duration.as_nanos(), 625_000_000);
    let again = check_reader_by_bytes(&wav(5000, 8000), None, &options).unwrap();
    assert_eq!(again, check);
}

#[test]
fn file_without_frames() {
    let check = check_reader_by_bytes(&wav(0, 8000), Some("wav"), &CheckOptions::default()).unwrap();
    assert!(matches!(check.finish(Duration::from_secs(1)), Err(AudioError::Empty)));
}

#[test]
fn bytes_that_are_no_audio() {
    match check_reader_by_bytes(&[7; 64], Some("mp3"), &CheckOptions::default()) {
        Err(AudioError::UnknownFormat(s)) => assert_eq!(s, "unknown format"),
        other => panic!("{other:?}"),
    }
}

// ---- covers ----------------------------------------------------------------------------------

fn png(w: u32, h: u32) -> AlbumArt {
    let img = image::DynamicImage::new_rgb8(w, h);
    let mut data = Vec::new();
    img.write_to(&mut std::io::Cursor::new(&mut data), image::ImageFormat::Png).unwrap();
    AlbumArt { data, extension: "png".to_string() }
}

fn size(art: &AlbumArt) -> (u32, u32) {
    let img = image::load_from_memory(&art.data).unwrap();
    (img.width(), img.height())
}

#[test]
fn small_cover_stays() {
    let art = png(20, 10);
    let data = art.data.clone();
    let same = maybe_resize_art(art, Some(20), Some(10)).unwrap();
    assert_eq!(same.data, data);
    assert_eq!(same.extension, "png");
}

#[test]
fn large_cover_is_scaled_down() {
    let scaled = maybe_resize_art(png(200, 100), Some(50), Some(50)).unwrap();
    assert_eq!(size(&scaled), (50, 25));
    assert_eq!(scaled.extension, "jpg");
}

#[test]
fn odd_cover_keeps_its_proportions() {
    let scaled = maybe_resize_art(png(301, 200), Some(100), Some(100)).unwrap();
    assert_eq!(size(&scaled), (100, 66));
    let scaled = maybe_resize_art(png(1000, 1), Some(10), Some(10)).unwrap();
    assert_eq!(size(&scaled), (10, 1));
}

#[test]
fn cover_too_long_for_a_jpeg() {
    let too_wide = maybe_resize_art(png(70_000, 2), None, Some(1));
    assert_eq!(size(&too_wide.unwrap()), (35_000, 1));
    let tall = maybe_resize_art(png(20, 70_000), Some(2), None);
    assert_eq!(size(&tall.unwrap()), (2, 7_000));
    let too_wide = maybe_resize_art(png(70_000, 2), Some(69_000), None);
    assert_eq!(too_wide.unwrap_err(), ArtError::Unwritable);
}

#[test]
fn one_bound_is_enough() {
    let scaled = maybe_resize_art(png(200, 100), Some(50), None).unwrap();
    assert_eq!(size(&scaled), (50, 25));
    let scaled = maybe_resize_art(png(200, 100), None, Some(10)).unwrap();
    assert_eq!(size(&scaled), (20, 10));
}

#[test]
fn covers_that_are_none() {
    let art = AlbumArt { data: vec![1, 2, 3], extension: "png".to_string() };
    assert_eq!(maybe_resize_art(art, Some(5), Some(5)).unwrap_err(), ArtError::Unreadable);
    let art = AlbumArt { data: vec![1], extension: "png".to_string() };
    assert_eq!(
        fitted_art(art, Some((10, 10)), None, Some(5), None).unwrap_err(),
        ArtError::Unwritable
    );
}

// ---- files -----------------------------------------------------------------------------------

#[test]
fn audio_extensions() {
    assert!(is_audio_file(Some("FLAC".to_string())));
    assert!(is_audio_file(Some("aif".to_string())));
    assert!(!is_audio_file(Some("txt".to_string())));
    assert!(!is_audio_file(None));
    assert!(has_audio_extension("opus"));
    assert!(!has_audio_extension("MP3"));
}

#[test]
fn identified_file_is_tagged_and_filed() {
    let args = args();
    let (mut file, first) = FileProcess::new(Some("mp3".to_string()));
    assert!(matches!(first, Step::CheckAudio));
    let step = file.process_file(&args, Event::AudioChecked { failure: None });
    assert!(matches!(step, Step::ReadMark));
    let step = file.process_file(&args, Event::MarkRead { already_processed: false });
    assert!(matches!(step, Step::LookUp));
    let found = Some(track("Song", "Album", "Artist", 1));
    let step = file.process_file(&args, Event::LookedUp { found });
    assert!(matches!(step, Step::FetchArt { release_mbid } if release_mbid == "release-id"));
    let step = file.process_file(&args, Event::ArtFetched { art: Some(png(4, 4)) });
    assert!(matches!(step, Step::Apply { art: Some(_), already_processed: false }));
    let step = file.process_file(&args, Event::Applied);
    assert!(matches!(step, Step::ComparePaths));
    assert_eq!(file.relative, "Artist/Song.mp3");
    let step = file.process_file(&args, Event::Compared { same: false });
    assert!(matches!(step, Step::PrepareDestination));
    let step = file.process_file(&args, Event::DestinationChecked { occupied: false });
    assert!(matches!(step, Step::Transfer { move_file: false }));
    let step = file.process_file(&args, Event::Transferred);
    assert!(matches!(step, Step::Finish { outcome: ProcessOutcome::Done }));
    assert!(matches!(file.stage, Stage::Ended));
}

#[test]
fn covers_are_resized_where_a_bound_is_given() {
    let mut args = args();
    args.max_image_height = Some(100);
    let meta = make_mb_meta("Song", "Album", "Artist", 1);
    let mut file = FileProcess {
        stage: Stage::FetchingArt { already_processed: true, meta },
        extension: None,
        relative: String::new(),
    };
    let step = file.process_file(&args, Event::ArtFetched { art: Some(png(50, 200)) });
    match step {
        Step::Apply { art: Some(art), already_processed: true } => {
            assert_eq!(size(&art), (25, 100));
            assert_eq!(art.extension, "jpg");
        }
        other => panic!("{other:?}"),
    }
    file.process_file(&args, Event::Applied);
    assert_eq!(file.relative, "Artist/Song.bin");
}

#[test]
fn file_whose_cover_cannot_be_read_fails() {
    let mut args = args();
    args.max_image_width = Some(100);
    let mut file = FileProcess {
        stage: Stage::FetchingArt {
            already_processed: false,
            meta: make_mb_meta("Song", "Album", "Artist", 1),
        },
        extension: None,
        relative: String::new(),
    };
    let art = AlbumArt { data: vec![1, 2, 3], extension: "png".to_string() };
    let step = file.process_file(&args, Event::ArtFetched { art: Some(art) });
    assert!(matches!(step, Step::Fail { error: ArtError::Unreadable }));
    assert!(matches!(file.stage, Stage::Ended));
}

#[test]
fn no_tag_is_written_without_musicbrainz() {
    let mut args = args();
    args.no_musicbrainz = true;
    let (mut file, _) = FileProcess::new(Some("ogg".to_string()));
    file.process_file(&args, Event::AudioChecked { failure: None });
    let step = file.process_file(&args, Event::MarkRead { already_processed: false });
    assert!(matches!(step, Step::ReadTags));
    let tags = Some(tags("Song", "Album", "Artist", 1));
    let step = file.process_file(&args, Event::TagsRead { tags });
    assert!(matches!(step, Step::ComparePaths));
    assert_eq!(file.relative, "Artist/Song.ogg");
    let step = file.process_file(&args, Event::Compared { same: true });
    assert!(matches!(step, Step::Finish { outcome: ProcessOutcome::Done }));
}

#[test]
fn unidentified_file_falls_back_to_its_tags() {
    let args = args();
    let (mut file, _) = FileProcess::new(Some("ogg".to_string()));
    file.process_file(&args, Event::AudioChecked { failure: None });
    file.process_file(&args, Event::MarkRead { already_processed: false });
    let step = file.process_file(&args, Event::LookedUp { found: None });
    assert!(matches!(step, Step::ReadTags));
    let tags = Some(tags("Song", "Album", "Artist", 1));
    let step = file.process_file(&args, Event::TagsRead { tags });
    assert!(matches!(step, Step::Apply { art: None, already_processed: false }));
}

#[test]
fn unknown_file_keeps_its_name() {
    let mut args = args();
    args.move_files = true;
    let (mut file, _) = FileProcess::new(None);
    file.process_file(&args, Event::AudioChecked { failure: None });
    file.process_file(&args, Event::MarkRead { already_processed: false });
    file.process_file(&args, Event::LookedUp { found: None });
    let step = file.process_file(&args, Event::TagsRead { tags: None });
    assert!(matches!(step, Step::RouteToUnknown { move_file: true }));
    let step = file.process_file(&args, Event::Transferred);
    assert!(matches!(step, Step::Finish { outcome: ProcessOutcome::RoutedToUnknownDirectory }));
    assert!(unknown_dir(&args).is_none());
    args.unknown_dir = Some("u".to_string());
    assert_eq!(unknown_dir(&args), Some("u".to_string()));
}

#[test]
fn processed_file_is_left_unless_asked() {
    let mut args = args();
    let mark = |args: &Args| {
        let (mut file, _) = FileProcess::new(None);
        file.process_file(args, Event::AudioChecked { failure: None });
        file.process_file(args, Event::MarkRead { already_processed: true })
    };
    match mark(&args) {
        Step::Finish { outcome: ProcessOutcome::Skipped(reason) } => assert_eq!(
            reason.message("p"),
            "already processed (KYLE_PROCESSED_AT present; use --overwrite-metadata to re-run)"
        ),
        other => panic!("{other:?}"),
    }
    args.overwrite_metadata = true;
    assert!(matches!(mark(&args), Step::LookUp));
}

#[test]
fn broken_file_ends_at_once() {
    let args = args();
    let (mut file, _) = FileProcess::new(None);
    let step = file.process_file(&args, Event::AudioChecked { failure: Some(AudioError::Empty) });
    assert!(matches!(
        step,
        Step::Finish { outcome: ProcessOutcome::BadFile(AudioError::Empty) }
    ));
}

#[test]
fn file_in_the_way() {
    let mut args = args();
    let occupied = |args: &Args| {
        let mut file = FileProcess {
            stage: Stage::CheckingDestination,
            extension: None,
            relative: String::new(),
        };
        let step = file.process_file(args, Event::DestinationChecked { occupied: true });
        (file, step)
    };
    assert_eq!(resolve_file_conflict(&args), Some(false));
    assert!(matches!(
        occupied(&args).1,
        Step::Finish { outcome: ProcessOutcome::Skipped(SkipReason::OutputExists) }
    ));
    args.overwrite_files = true;
    assert_eq!(resolve_file_conflict(&args), Some(true));
    assert!(matches!(occupied(&args).1, Step::Transfer { .. }));
    args.overwrite_files = false;
    args.non_interactive = false;
    assert_eq!(resolve_file_conflict(&args), None);
    let (mut file, step) = occupied(&args);
    assert!(matches!(step, Step::Ask));
    assert!(matches!(
        file.process_file(&args, Event::Answered { overwrite: true }),
        Step::Transfer { .. }
    ));
    let (mut file, _) = occupied(&args);
    assert!(matches!(
        file.process_file(&args, Event::Answered { overwrite: false }),
        Step::Finish { outcome: ProcessOutcome::Skipped(SkipReason::OutputExists) }
    ));
    assert_eq!(SkipReason::OutputExists.message("a/b"), "output already exists: a/b");
}

#[test]
fn where_files_go() {
    let mut args = args();
    assert_eq!(args.output_root(Some("dir".to_string())), "dir");
    assert_eq!(args.output_root(None), ".");
    args.output_dir = Some("out".to_string());
    assert_eq!(args.output_root(Some("dir".to_string())), "out");
    assert_eq!(args.max_depth(), 1);
    args.recursive = true;
    assert_eq!(args.max_depth(), usize::MAX);
    assert_eq!(args.api_key(), "key");
    args.acoustid_api_key = None;
    assert_eq!(args.api_key(), "");
}

#[test]
fn what_came_of_the_files() {
    let mut tally = Tally::new();
    tally.count(&Some(ProcessOutcome::Done));
    tally.count(&Some(ProcessOutcome::Done));
    tally.count(&Some(ProcessOutcome::Skipped(SkipReason::OutputExists)));
    tally.count(&Some(ProcessOutcome::BadFile(AudioError::Empty)));
    tally.count(&None);
    assert_eq!(
        tally.summary(),
        "\nProcessed 2 file(s), skipped 1, failed 1.\nFound 1 bad files."
    );
    tally.count(&Some(ProcessOutcome::RoutedToUnknownDirectory));
    assert!(tally
        .summary()
        .ends_with("\n1 file(s) with no metadata copied to unknown directory."));
}

#[test]
fn what_can_go_wrong() {
    let words = |e: MusicCleanerError| e.message();
    assert_eq!(words(MusicCleanerError::Io("x".to_string())), "I/O error: x");
    assert_eq!(
        words(MusicCleanerError::MusicBrainz(Error::AcoustIdNoResults)),
        "MusicBrainz lookup failed: AcoustID returned no results"
    );
    assert_eq!(
        words(MusicCleanerError::CoverArt(CoverArtArchiveError::NotFound)),
        "Cover Art Archive error: not found"
    );
    assert_eq!(words(MusicCleanerError::Tag("x".to_string())), "Audio tag error: x");
    assert_eq!(words(MusicCleanerError::Template("x".to_string())), "Template rendering error: x");
    assert_eq!(words(MusicCleanerError::Prompt("x".to_string())), "Interactive prompt error: x");
}
