//! Whether an audio file can be decoded from end to end.
use std::future::{poll_fn, Future};
use std::io::Cursor;
use std::pin::Pin;
use std::sync::mpsc::channel;
use std::task::{Context, Poll, Waker};

use tokio::task::LocalSet;
use vstd::prelude::*;

use crate::text::append_str;
use crate::time::Duration;

verus! {

/// A sample rate.
#[derive(Debug, Clone, Copy, PartialEq, Eq, Structural)]
pub struct Hertz(pub u32);

impl Hertz {
    /// A sample rate.
    pub fn new(value: u32) -> (r: Self)
        ensures
            r == Hertz(value),
    {
        Hertz(value)
    }
}

/// What decoding a file showed.
#[derive(Debug, Clone, Copy, PartialEq, Eq, Structural)]
pub struct AudioInfo {
    pub duration: Duration,
    /// The number of frames of all packets.
    pub total_frames: usize,
    pub sample_rate: Hertz,
    /// The number of errors that did not end the decoding, common in damaged MP3
    /// files.
    pub soft_errors: usize,
}

/// Why a file is bad; a text says what was reported.
#[derive(Debug)]
pub enum AudioError {
    Io(String),
    UnknownFormat(String),
    NoTracks,
    PacketError,
    TooManyDecodeErrors { count: usize, last: String },
    Unknown,
    Empty,
}

/// The words that describe why a file is bad.
pub open spec fn audio_error_words(e: AudioError) -> Seq<char> {
    match e {
        AudioError::Io(s) => "I/O error: "@ + s@,
        AudioError::UnknownFormat(s) => "Unknown format: "@ + s@,
        AudioError::NoTracks => "No tracks"@,
        AudioError::PacketError => "Packet error"@,
        AudioError::TooManyDecodeErrors { .. } => "Too many decode errors"@,
        AudioError::Unknown => "Unknown error"@,
        AudioError::Empty => "Empty"@,
    }
}

impl AudioError {
    /// The error in words.
    pub fn message(&self) -> (r: String)
        ensures
            r@ == audio_error_words(*self),
    {
        match self {
            AudioError::Io(s) => append_str("I/O error: ", s.as_str()),
            AudioError::UnknownFormat(s) => append_str("Unknown format: ", s.as_str()),
            AudioError::NoTracks => "No tracks".to_owned(),
            AudioError::PacketError => "Packet error".to_owned(),
            AudioError::TooManyDecodeErrors { .. } => "Too many decode errors".to_owned(),
            AudioError::Unknown => "Unknown error".to_owned(),
            AudioError::Empty => "Empty".to_owned(),
        }
    }
}

/// What the reader of a container or a decoder can report.
#[derive(Debug)]
pub enum MediaError {
    /// The stream has come to its end.
    EndOfStream(String),
    Io(String),
    Unsupported(String),
    Decode(String),
    Seek,
    Limit,
    ResetRequired,
    /// The reader or the decoder panicked, and is gone.
    Panicked,
}

/// Why a file is bad, after what the reader or the decoder reported.
pub open spec fn blamed(e: MediaError) -> AudioError {
    match e {
        MediaError::EndOfStream(s) => AudioError::Io(s),
        MediaError::Io(s) => AudioError::Io(s),
        MediaError::Unsupported(s) => AudioError::UnknownFormat(s),
        MediaError::Decode(_) => AudioError::PacketError,
        MediaError::Seek => AudioError::PacketError,
        MediaError::Limit => AudioError::Unknown,
        MediaError::ResetRequired => AudioError::Unknown,
        MediaError::Panicked => AudioError::Unknown,
    }
}

impl From<MediaError> for AudioError {
    fn from(error: MediaError) -> (r: AudioError) {
        match error {
            MediaError::EndOfStream(s) => AudioError::Io(s),
            MediaError::Io(s) => AudioError::Io(s),
            MediaError::Unsupported(s) => AudioError::UnknownFormat(s),
            MediaError::Decode(_) => AudioError::PacketError,
            MediaError::Seek => AudioError::PacketError,
            MediaError::Limit => AudioError::Unknown,
            MediaError::ResetRequired => AudioError::Unknown,
            MediaError::Panicked => AudioError::Unknown,
        }
    }
}

impl vstd::std_specs::convert::FromSpecImpl<MediaError> for AudioError {
    open spec fn obeys_from_spec() -> bool {
        true
    }

    open spec fn from_spec(error: MediaError) -> AudioError {
        blamed(error)
    }
}

/// How strict a check is.
#[derive(Debug, Clone, Copy, PartialEq, Eq, Structural)]
pub struct CheckOptions {
    /// How many decode errors in a row are allowed before the file counts as
    /// damaged. MP3 files often have minor errors at boundaries.
    pub max_soft_errors: usize,
}

impl Default for CheckOptions {
    fn default() -> (r: Self)
        ensures
            r == (CheckOptions { max_soft_errors: 10 }),
    {
        CheckOptions { max_soft_errors: 10 }
    }
}

/// What comes of asking for the next packet, and of decoding it.
#[derive(Debug)]
pub enum PacketEvent {
    /// There are no more packets.
    EndOfStream,
    /// The tracks have changed; the decoder starts afresh.
    ResetRequired,
    /// There should be a packet, but it cannot be had.
    ReadFailed(MediaError),
    /// A packet of another track.
    OtherTrack,
    Decoded { frames: usize, rate: u32 },
    /// A packet that cannot be decoded, though the next may be.
    DecodeError(String),
    /// The decoder has failed.
    DecodeFailed,
}

/// What is done next.
#[derive(Debug)]
pub enum CheckStep {
    NextPacket,
    ResetDecoder,
    Finish,
    Fail(AudioError),
}

/// A check under way.
#[derive(Debug, Clone, Copy, PartialEq, Eq, Structural)]
pub struct ReaderCheck {
    pub total_frames: usize,
    pub sample_rate: Option<Hertz>,
    pub soft_errors: usize,
    /// How many packets in a row could not be decoded.
    pub in_a_row: usize,
    pub max_soft_errors: usize,
}

/// What an event does to a check.
pub open spec fn checked(c: ReaderCheck, event: PacketEvent) -> (ReaderCheck, CheckStep) {
    match event {
        PacketEvent::EndOfStream => (c, CheckStep::Finish),
        PacketEvent::ResetRequired => (c, CheckStep::ResetDecoder),
        PacketEvent::ReadFailed(e) => (c, CheckStep::Fail(blamed(e))),
        PacketEvent::OtherTrack => (c, CheckStep::NextPacket),
        PacketEvent::Decoded { frames, rate } => (
            ReaderCheck {
                total_frames: (c.total_frames + frames) as usize,
                sample_rate: match c.sample_rate {
                    Some(r) => Some(r),
                    None => Some(Hertz(rate)),
                },
                in_a_row: 0,
                ..c
            },
            CheckStep::NextPacket,
        ),
        PacketEvent::DecodeError(last) => {
            let after = ReaderCheck {
                soft_errors: (c.soft_errors + 1) as usize,
                in_a_row: (c.in_a_row + 1) as usize,
                ..c
            };
            if after.in_a_row > c.max_soft_errors {
                (
                    after,
                    CheckStep::Fail(
                        AudioError::TooManyDecodeErrors { count: after.in_a_row, last },
                    ),
                )
            } else {
                (after, CheckStep::NextPacket)
            }
        },
        PacketEvent::DecodeFailed => (c, CheckStep::Fail(AudioError::PacketError)),
    }
}

impl ReaderCheck {
    /// A check that has seen nothing.
    pub fn new(options: &CheckOptions) -> (r: Self)
        ensures
            r == unchecked(*options),
    {
        ReaderCheck {
            total_frames: 0,
            sample_rate: None,
            soft_errors: 0,
            in_a_row: 0,
            max_soft_errors: options.max_soft_errors,
        }
    }

    /// Take an event, and say what is done next.
    pub fn check_reader(&mut self, event: PacketEvent) -> (r: CheckStep)
        requires
            has_room(*old(self), event),
        ensures
            *final(self) == checked(*old(self), event).0,
            r == checked(*old(self), event).1,
    {
        match event {
            PacketEvent::EndOfStream => CheckStep::Finish,
            PacketEvent::ResetRequired => CheckStep::ResetDecoder,
            PacketEvent::ReadFailed(e) => CheckStep::Fail(AudioError::from(e)),
            PacketEvent::OtherTrack => CheckStep::NextPacket,
            PacketEvent::Decoded { frames, rate } => {
                self.total_frames = self.total_frames + frames;
                if self.sample_rate.is_none() {
                    self.sample_rate = Some(Hertz(rate));
                }
                self.in_a_row = 0;
                CheckStep::NextPacket
            },
            PacketEvent::DecodeError(last) => {
                self.soft_errors = self.soft_errors + 1;
                self.in_a_row = self.in_a_row + 1;
                if self.in_a_row > self.max_soft_errors {
                    CheckStep::Fail(
                        AudioError::TooManyDecodeErrors { count: self.in_a_row, last },
                    )
                } else {
                    CheckStep::NextPacket
                }
            },
            PacketEvent::DecodeFailed => CheckStep::Fail(AudioError::PacketError),
        }
    }

    /// The sample rate, 0 where no packet gave one.
    pub fn rate(&self) -> (r: Hertz)
        ensures
            r == match self.sample_rate {
                Some(h) => h,
                None => Hertz(0),
            },
    {
        match self.sample_rate {
            Some(h) => h,
            None => Hertz(0),
        }
    }

    /// What the check showed, with how long the frames last at the sample rate;
    /// without a sample rate they last no time.
    pub fn finish(&self, played: Duration) -> (r: Result<AudioInfo, AudioError>)
        ensures
            match r {
                Ok(info) => {
                    &&& self.total_frames > 0
                    &&& info.total_frames == self.total_frames
                    &&& info.soft_errors == self.soft_errors
                    &&& match self.sample_rate {
                        Some(h) => info.sample_rate == h && (h.0 > 0 ==> info.duration == played),
                        None => info.sample_rate == Hertz(0),
                    }
                    &&& info.sample_rate.0 == 0 ==> info.duration@ == 0
                },
                Err(e) => self.total_frames == 0 && e == AudioError::Empty,
            },
    {
        if self.total_frames == 0 {
            return Err(AudioError::Empty);
        }
        let sample_rate = self.rate();
        let duration = if sample_rate.0 > 0 {
            played
        } else {
            Duration::from_secs(0)
        };
        Ok(
            AudioInfo {
                duration,
                total_frames: self.total_frames,
                sample_rate,
                soft_errors: self.soft_errors,
            },
        )
    }
}

// ---- reading and decoding -----------------------------------------------------------------

/// `symphonia`'s source of bytes.
type MediaSourceStream = symphonia::core::io::MediaSourceStream;

/// `symphonia`'s word on what a file may be.
type Hint = symphonia::core::probe::Hint;

/// `symphonia::core::probe::ProbeResult`: the reader of a container.
#[verifier::external_type_specification]
#[verifier::external_body]
pub struct ExProbeResult(symphonia::core::probe::ProbeResult);

/// `symphonia::core::formats::Packet`: a piece of a track.
#[verifier::external_type_specification]
#[verifier::external_body]
pub struct ExPacket(symphonia::core::formats::Packet);

/// A decoder of `symphonia`, which hands it out as a trait object.
#[verifier::external_body]
pub struct AudioDecoder {
    decoder: Box<dyn symphonia::core::codecs::Decoder>,
}

/// What a reader or a decoder of `symphonia` reports when it fails.
#[verifier::external_body]
pub struct SymphoniaError {
    error: symphonia::core::errors::Error,
}

/// Where the reader of a container stands.
#[verifier::ext_equal]
pub struct ReaderAt {
    /// The bytes of the file.
    pub data: Seq<u8>,
    /// The extension of the file's name.
    pub hint: Option<Seq<char>>,
    /// How many packets have been asked for.
    pub asked: nat,
}

/// What a decoder has been asked to do.
pub enum DecoderUse {
    /// To decode the packet that was asked for after so many others.
    Decode(nat),
    Reset,
}

/// Where a decoder stands.
#[verifier::ext_equal]
pub struct DecoderAt {
    pub data: Seq<u8>,
    pub hint: Option<Seq<char>>,
    pub uses: Seq<DecoderUse>,
}

/// Where a reader stands.
pub uninterp spec fn reader_at(reader: symphonia::core::probe::ProbeResult) -> ReaderAt;

/// Where the reader stood that gave a packet.
pub uninterp spec fn packet_at(packet: symphonia::core::formats::Packet) -> ReaderAt;

/// Where a decoder stands.
pub uninterp spec fn decoder_at(decoder: AudioDecoder) -> DecoderAt;

/// What an error of `symphonia` says.
pub uninterp spec fn reported(e: SymphoniaError) -> MediaError;

/// The bytes are a container of a format that is known, and its reader does not panic
/// when it opens them.
pub uninterp spec fn is_container(data: Seq<u8>, hint: Option<Seq<char>>) -> bool;

/// The track of a container that is played by default.
pub uninterp spec fn default_track_of(data: Seq<u8>, hint: Option<Seq<char>>) -> Option<u32>;

/// Why there is no decoder for the default track of a container.
pub uninterp spec fn decoder_refusal(data: Seq<u8>, hint: Option<Seq<char>>) -> Option<MediaError>;

/// The track of the packet that comes after `n` others, or why it cannot be had.
pub uninterp spec fn read_outcome(data: Seq<u8>, hint: Option<Seq<char>>, n: nat) -> Result<
    u32,
    MediaError,
>;

/// The frames and the sample rate that a decoder makes of the packet that comes
/// after `n` others, or why it makes nothing of it.
pub uninterp spec fn decode_outcome(
    data: Seq<u8>,
    hint: Option<Seq<char>>,
    uses: Seq<DecoderUse>,
    n: nat,
) -> Result<(usize, u32), MediaError>;

/// A text that may be missing.
pub open spec fn text_of(s: Option<&str>) -> Option<Seq<char>> {
    match s {
        Some(t) => Some(t@),
        None => None,
    }
}

/// The variants of `symphonia::core::errors::Error`, with their texts; an error of
/// the system that tells of the end of the stream is told apart. What comes out is a
/// function of the error.
#[verifier::external_body]
fn media_error(e: SymphoniaError) -> (r: MediaError)
    ensures
        r == reported(e),
{
    match e.error {
        symphonia::core::errors::Error::IoError(e) => match e.kind() {
            std::io::ErrorKind::UnexpectedEof => MediaError::EndOfStream(e.to_string()),
            _ => MediaError::Io(e.to_string()),
        },
        symphonia::core::errors::Error::Unsupported(s) => MediaError::Unsupported(s.to_string()),
        symphonia::core::errors::Error::DecodeError(s) => MediaError::Decode(s.to_string()),
        symphonia::core::errors::Error::SeekError(_) => MediaError::Seek,
        symphonia::core::errors::Error::LimitError(_) => MediaError::Limit,
        symphonia::core::errors::Error::ResetRequired => MediaError::ResetRequired,
    }
}

/// `symphonia::core::probe::Probe::format` of the default probe, on bytes in
/// memory and without gapless playback, which is off by default. The call is a task
/// of a `tokio::task::LocalSet` that is polled once, so that a panic ends the task
/// alone; then nothing comes over the channel. Whether a reader comes is a function
/// of the bytes and the extension.
#[verifier::external_body]
fn probe_audio(data: &[u8], hint: Option<&str>) -> (r: Option<symphonia::core::probe::ProbeResult>)
    ensures
        match r {
            Some(reader) => is_container(data@, text_of(hint)) && reader_at(reader) == (ReaderAt {
                data: data@,
                hint: text_of(hint),
                asked: 0,
            }),
            None => !is_container(data@, text_of(hint)),
        },
{
    let mut extension = Hint::new();
    if let Some(e) = hint {
        extension.with_extension(e);
    }
    let mut bytes = Cursor::new(data.to_vec());
    let (answer, came) = channel();
    let mut tasks = LocalSet::new();
    tasks.spawn_local(poll_fn(move |_| {
        let source = Box::new(std::mem::take(&mut bytes));
        let stream = MediaSourceStream::new(source, Default::default());
        let probe = symphonia::default::get_probe();
        Poll::Ready(answer.send(probe.format(&extension, stream, &Default::default(), &Default::default())))
    }));
    let _ = Pin::new(&mut tasks).poll(&mut Context::from_waker(Waker::noop()));
    came.try_recv().ok()?.ok()
}

/// `symphonia::core::formats::FormatReader::default_track` of a reader that has
/// given no packet yet: its number is a function of the file.
#[verifier::external_body]
fn default_track(reader: &symphonia::core::probe::ProbeResult) -> (r: Option<u32>)
    requires
        reader_at(*reader).asked == 0,
    ensures
        r == default_track_of(reader_at(*reader).data, reader_at(*reader).hint),
{
    reader.format.default_track().map(|track| track.id)
}

/// `symphonia::core::codecs::CodecRegistry::make` of the default codecs, for the
/// default track; `None` where it panics, which ends a task of its own alone. Whether
/// there is a decoder is a function of the file.
#[verifier::external_body]
fn open_decoder(reader: &symphonia::core::probe::ProbeResult) -> (r: Option<
    Result<AudioDecoder, SymphoniaError>,
>)
    requires
        reader_at(*reader).asked == 0,
        default_track_of(reader_at(*reader).data, reader_at(*reader).hint) is Some,
    ensures
        ({
            let at = reader_at(*reader);
            match r {
                Some(Ok(decoder)) => decoder_refusal(at.data, at.hint) is None && decoder_at(
                    decoder,
                ) == (DecoderAt { data: at.data, hint: at.hint, uses: Seq::empty() }),
                Some(Err(e)) => decoder_refusal(at.data, at.hint) == Some(reported(e)),
                None => decoder_refusal(at.data, at.hint) == Some(MediaError::Panicked),
            }
        }),
{
    let params = reader.format.default_track().unwrap().codec_params.clone();
    let (answer, came) = channel();
    let mut tasks = LocalSet::new();
    tasks.spawn_local(poll_fn(move |_| {
        let made = symphonia::default::get_codecs().make(&params, &Default::default());
        let decoder = made.map(|decoder| AudioDecoder { decoder });
        Poll::Ready(answer.send(decoder.map_err(|error| SymphoniaError { error })))
    }));
    let _ = Pin::new(&mut tasks).poll(&mut Context::from_waker(Waker::noop()));
    came.try_recv().ok()
}

/// `symphonia::core::formats::FormatReader::next_packet`, and the number of the
/// packet's track; `None` where it panics, which ends a task of its own alone, and
/// the reader with it. What comes is a function of the file and of how many packets
/// were asked for before.
#[verifier::external_body]
fn next_packet(reader: symphonia::core::probe::ProbeResult) -> (r: Option<
    (
        symphonia::core::probe::ProbeResult,
        Result<(u32, symphonia::core::formats::Packet), SymphoniaError>,
    ),
>)
    ensures
        ({
            let at = reader_at(reader);
            let outcome = read_outcome(at.data, at.hint, at.asked);
            match r {
                Some((after, came)) => reader_at(after) == (ReaderAt { asked: at.asked + 1, ..at })
                    && match came {
                    Ok((track, packet)) => outcome == Ok::<u32, MediaError>(track) && packet_at(
                        packet,
                    ) == at,
                    Err(e) => outcome == Err::<u32, MediaError>(reported(e)),
                },
                None => outcome == Err::<u32, MediaError>(MediaError::Panicked),
            }
        }),
{
    let (answer, came) = channel();
    let mut tasks = LocalSet::new();
    let mut held = Some(reader);
    tasks.spawn_local(poll_fn(move |_| {
        Poll::Ready(held.take().map(|mut reader| {
            let next = reader.format.next_packet().map(|packet| (packet.track_id(), packet));
            answer.send((reader, next.map_err(|error| SymphoniaError { error })))
        }))
    }));
    let _ = Pin::new(&mut tasks).poll(&mut Context::from_waker(Waker::noop()));
    came.try_recv().ok()
}

/// `symphonia::core::codecs::Decoder::decode`, and the number of frames and the
/// sample rate of what it gives; `None` where it panics, which ends a task of its own
/// alone, and the decoder with it. What comes is a function of the file, of what the
/// decoder was asked to do before, and of the packet.
#[verifier::external_body]
fn decode_packet(decoder: AudioDecoder, packet: symphonia::core::formats::Packet) -> (r: Option<
    (AudioDecoder, Result<(usize, u32), SymphoniaError>),
>)
    requires
        packet_at(packet).data == decoder_at(decoder).data,
        packet_at(packet).hint == decoder_at(decoder).hint,
    ensures
        ({
            let at = decoder_at(decoder);
            let n = packet_at(packet).asked;
            let outcome = decode_outcome(at.data, at.hint, at.uses, n);
            match r {
                Some((after, came)) => decoder_at(after) == (DecoderAt {
                    uses: at.uses.push(DecoderUse::Decode(n)),
                    ..at
                }) && match came {
                    Ok(decoded) => outcome == Ok::<(usize, u32), MediaError>(decoded),
                    Err(e) => outcome == Err::<(usize, u32), MediaError>(reported(e)),
                },
                None => outcome == Err::<(usize, u32), MediaError>(MediaError::Panicked),
            }
        }),
{
    let (answer, came) = channel();
    let mut tasks = LocalSet::new();
    let mut held = Some(decoder);
    tasks.spawn_local(poll_fn(move |_| {
        Poll::Ready(held.take().map(|mut owner| {
            let decoded = owner.decoder.decode(&packet).map(|b| (b.frames(), b.spec().rate));
            let decoded = decoded.map_err(|error| SymphoniaError { error });
            answer.send((owner, decoded))
        }))
    }));
    let _ = Pin::new(&mut tasks).poll(&mut Context::from_waker(Waker::noop()));
    came.try_recv().ok()
}

/// `symphonia::core::codecs::Decoder::reset`.
#[verifier::external_body]
fn reset_decoder(decoder: &mut AudioDecoder)
    ensures
        decoder_at(*final(decoder)) == (DecoderAt {
            uses: decoder_at(*old(decoder)).uses.push(DecoderUse::Reset),
            ..decoder_at(*old(decoder))
        }),
{
    decoder.decoder.reset()
}

/// What the decoder has been asked to do once `n` packets have been asked for: it
/// decodes the packets of its track, and starts afresh where the tracks change.
pub open spec fn uses_after(data: Seq<u8>, hint: Option<Seq<char>>, track: u32, n: nat) -> Seq<
    DecoderUse,
>
    decreases n,
{
    if n == 0 {
        Seq::empty()
    } else {
        let last = (n - 1) as nat;
        let before = uses_after(data, hint, track, last);
        match read_outcome(data, hint, last) {
            Ok(t) => if t == track {
                before.push(DecoderUse::Decode(last))
            } else {
                before
            },
            Err(MediaError::ResetRequired) => before.push(DecoderUse::Reset),
            Err(_) => before,
        }
    }
}

/// What comes of asking for the packet after `n` others, and of decoding it.
pub open spec fn packet_event(
    data: Seq<u8>,
    hint: Option<Seq<char>>,
    track: u32,
    n: nat,
) -> PacketEvent {
    match read_outcome(data, hint, n) {
        Ok(t) => if t != track {
            PacketEvent::OtherTrack
        } else {
            match decode_outcome(data, hint, uses_after(data, hint, track, n), n) {
                Ok((frames, rate)) => PacketEvent::Decoded { frames, rate },
                Err(MediaError::Decode(last)) => PacketEvent::DecodeError(last),
                Err(_) => PacketEvent::DecodeFailed,
            }
        },
        Err(MediaError::EndOfStream(_)) => PacketEvent::EndOfStream,
        Err(MediaError::ResetRequired) => PacketEvent::ResetRequired,
        Err(e) => PacketEvent::ReadFailed(e),
    }
}

/// A check that has seen nothing.
pub open spec fn unchecked(options: CheckOptions) -> ReaderCheck {
    ReaderCheck {
        total_frames: 0,
        sample_rate: None,
        soft_errors: 0,
        in_a_row: 0,
        max_soft_errors: options.max_soft_errors,
    }
}

/// The check of a file once it has seen `n` events.
pub open spec fn check_after(
    data: Seq<u8>,
    hint: Option<Seq<char>>,
    track: u32,
    options: CheckOptions,
    n: nat,
) -> ReaderCheck
    decreases n,
{
    if n == 0 {
        unchecked(options)
    } else {
        let last = (n - 1) as nat;
        checked(
            check_after(data, hint, track, options, last),
            packet_event(data, hint, track, last),
        ).0
    }
}

/// The counters of a check have room for an event.
pub open spec fn has_room(c: ReaderCheck, event: PacketEvent) -> bool {
    match event {
        PacketEvent::Decoded { frames, .. } => c.total_frames + frames <= usize::MAX,
        PacketEvent::DecodeError(_) => c.soft_errors < usize::MAX && c.in_a_row < usize::MAX,
        _ => true,
    }
}

/// After the event the check goes on.
pub open spec fn goes_on(c: ReaderCheck, event: PacketEvent) -> bool {
    has_room(c, event) && (checked(c, event).1 is NextPacket || checked(c, event).1
        is ResetDecoder)
}

/// The check of a file goes on for `n` events.
pub open spec fn goes_on_for(
    data: Seq<u8>,
    hint: Option<Seq<char>>,
    track: u32,
    options: CheckOptions,
    n: nat,
) -> bool
    decreases n,
{
    n == 0 || {
        let last = (n - 1) as nat;
        &&& goes_on_for(data, hint, track, options, last)
        &&& goes_on(
            check_after(data, hint, track, options, last),
            packet_event(data, hint, track, last),
        )
    }
}

/// The check of a file goes on for `n` events and stops at the next, or at the
/// greatest number of packets that is counted.
pub open spec fn stops_at(
    data: Seq<u8>,
    hint: Option<Seq<char>>,
    track: u32,
    options: CheckOptions,
    n: nat,
) -> bool {
    &&& goes_on_for(data, hint, track, options, n)
    &&& n == u64::MAX || n < u64::MAX && !goes_on(
        check_after(data, hint, track, options, n),
        packet_event(data, hint, track, n),
    )
}

/// What a check shows that stops after `n` events: at the end of the stream what
/// it has seen, otherwise what is wrong with the file.
pub open spec fn shown_at(
    data: Seq<u8>,
    hint: Option<Seq<char>>,
    track: u32,
    options: CheckOptions,
    n: nat,
) -> Result<ReaderCheck, AudioError> {
    let c = check_after(data, hint, track, options, n);
    let event = packet_event(data, hint, track, n);
    if n == u64::MAX || !has_room(c, event) {
        Err(AudioError::Unknown)
    } else {
        match checked(c, event).1 {
            CheckStep::Fail(e) => Err(e),
            _ => Ok(c),
        }
    }
}

/// What checking a file comes to: why it cannot be opened, or what the check of its
/// default track shows.
pub open spec fn is_check_of(
    data: Seq<u8>,
    hint: Option<Seq<char>>,
    options: CheckOptions,
    r: Result<ReaderCheck, AudioError>,
) -> bool {
    if !is_container(data, hint) {
        r matches Err(AudioError::UnknownFormat(s)) && s@ == "unknown format"@
    } else {
        match default_track_of(data, hint) {
            None => r == Err::<ReaderCheck, AudioError>(AudioError::NoTracks),
            Some(track) => match decoder_refusal(data, hint) {
                Some(e) => r == Err::<ReaderCheck, AudioError>(blamed(e)),
                None => exists|n: nat| #[trigger]
                    stops_at(data, hint, track, options, n) && r == shown_at(
                        data,
                        hint,
                        track,
                        options,
                        n,
                    ),
            },
        }
    }
}

/// Ask for the next packet, and decode it where it is of the track. The reader and the
/// decoder come back, unless one of them panicked.
fn next_event(
    reader: symphonia::core::probe::ProbeResult,
    decoder: AudioDecoder,
    track: u32,
) -> (r: (PacketEvent, Option<(symphonia::core::probe::ProbeResult, AudioDecoder)>))
    requires
        decoder_at(decoder) == (DecoderAt {
            data: reader_at(reader).data,
            hint: reader_at(reader).hint,
            uses: uses_after(
                reader_at(reader).data,
                reader_at(reader).hint,
                track,
                reader_at(reader).asked,
            ),
        }),
    ensures
        ({
            let at = reader_at(reader);
            let before = decoder_at(decoder);
            &&& r.0 == packet_event(at.data, at.hint, track, at.asked)
            &&& match r.1 {
                Some((next_reader, next_decoder)) => {
                    &&& reader_at(next_reader) == (ReaderAt { asked: at.asked + 1, ..at })
                    &&& if r.0 is ResetRequired {
                        &&& decoder_at(next_decoder) == before
                        &&& uses_after(at.data, at.hint, track, at.asked + 1) == before.uses.push(
                            DecoderUse::Reset,
                        )
                    } else {
                        decoder_at(next_decoder) == (DecoderAt {
                            uses: uses_after(at.data, at.hint, track, at.asked + 1),
                            ..before
                        })
                    }
                },
                None => r.0 is ReadFailed || r.0 is DecodeFailed,
            }
        }),
{
    match next_packet(reader) {
        Some((reader, Ok((t, packet)))) => {
            if t != track {
                (PacketEvent::OtherTrack, Some((reader, decoder)))
            } else {
                match decode_packet(decoder, packet) {
                    Some((decoder, Ok((frames, rate)))) => (
                        PacketEvent::Decoded { frames, rate },
                        Some((reader, decoder)),
                    ),
                    Some((decoder, Err(e))) => {
                        let event = match media_error(e) {
                            MediaError::Decode(last) => PacketEvent::DecodeError(last),
                            _ => PacketEvent::DecodeFailed,
                        };
                        (event, Some((reader, decoder)))
                    },
                    None => (PacketEvent::DecodeFailed, None),
                }
            }
        },
        Some((reader, Err(e))) => {
            let event = match media_error(e) {
                MediaError::EndOfStream(_) => PacketEvent::EndOfStream,
                MediaError::ResetRequired => PacketEvent::ResetRequired,
                e => PacketEvent::ReadFailed(e),
            };
            (event, Some((reader, decoder)))
        },
        None => (PacketEvent::ReadFailed(MediaError::Panicked), None),
    }
}

/// Decode the default track of a file from end to end. A packet that cannot be
/// decoded is passed over, unless more than the options allow come in a row.
///
/// [`ReaderCheck::finish`] makes of the result what is reported of the file, once it is
/// known how long the frames last.
pub fn check_reader_by_bytes(
    data: &[u8],
    extension_hint: Option<&str>,
    options: &CheckOptions,
) -> (r: Result<ReaderCheck, AudioError>)
    ensures
        is_check_of(data@, text_of(extension_hint), *options, r),
{
    let ghost bytes = data@;
    let ghost hint = text_of(extension_hint);
    let mut reader = match probe_audio(data, extension_hint) {
        Some(reader) => reader,
        None => {
            return Err(AudioError::UnknownFormat("unknown format".to_owned()));
        },
    };
    let track: u32 = match default_track(&reader) {
        Some(track) => track,
        None => {
            return Err(AudioError::NoTracks);
        },
    };
    let mut decoder = match open_decoder(&reader) {
        Some(Ok(decoder)) => decoder,
        Some(Err(e)) => {
            return Err(AudioError::from(media_error(e)));
        },
        None => {
            return Err(AudioError::from(MediaError::Panicked));
        },
    };
    let mut check = ReaderCheck::new(options);
    let mut asked: u64 = 0;
    while asked < u64::MAX
        invariant
            bytes == data@,
            hint == text_of(extension_hint),
            is_container(bytes, hint),
            default_track_of(bytes, hint) == Some(track),
            decoder_refusal(bytes, hint) is None,
            reader_at(reader) == (ReaderAt { data: bytes, hint, asked: asked as nat }),
            decoder_at(decoder) == (DecoderAt {
                data: bytes,
                hint,
                uses: uses_after(bytes, hint, track, asked as nat),
            }),
            check == check_after(bytes, hint, track, *options, asked as nat),
            goes_on_for(bytes, hint, track, *options, asked as nat),
        decreases u64::MAX - asked,
    {
        let (event, rest) = next_event(reader, decoder, track);
        let ghost n = asked as nat;
        let ghost before = check;
        let ghost seen = event;
        let room: bool = match &event {
            PacketEvent::Decoded { frames, .. } => *frames <= usize::MAX - check.total_frames,
            PacketEvent::DecodeError(_) => check.soft_errors < usize::MAX && check.in_a_row
                < usize::MAX,
            _ => true,
        };
        if !room {
            assert(stops_at(bytes, hint, track, *options, n));
            return Err(AudioError::Unknown);
        }
        let mut reset: bool = false;
        match check.check_reader(event) {
            CheckStep::NextPacket => {},
            CheckStep::ResetDecoder => {
                reset = true;
            },
            CheckStep::Finish => {
                assert(stops_at(bytes, hint, track, *options, n));
                return Ok(check);
            },
            CheckStep::Fail(e) => {
                assert(stops_at(bytes, hint, track, *options, n));
                return Err(e);
            },
        }
        assert(goes_on(before, seen));
        match rest {
            Some((next_reader, next_decoder)) => {
                reader = next_reader;
                decoder = next_decoder;
            },
            None => {
                return Err(AudioError::Unknown);
            },
        }
        if reset {
            reset_decoder(&mut decoder);
        }
        asked += 1;
    }
    assert(stops_at(bytes, hint, track, *options, asked as nat));
    Err(AudioError::Unknown)
}

// ---- laws -------------------------------------------------------------------------------

/// A packet that is decoded clears the run of errors: after it a file fails for
/// decode errors only once more than are allowed have come in a row again.
pub proof fn lemma_good_packet_clears_errors(
    c: ReaderCheck,
    frames: usize,
    rate: u32,
    last: String,
)
    requires
        c.total_frames + frames <= usize::MAX,
        c.max_soft_errors > 0,
    ensures
        checked(
            checked(c, PacketEvent::Decoded { frames, rate }).0,
            PacketEvent::DecodeError(last),
        ).1 is NextPacket,
{
}

/// What has been decoded is never forgotten, and the sample rate is that of the
/// first packet that was decoded.
pub proof fn lemma_progress_is_kept(c: ReaderCheck, event: PacketEvent)
    requires
        has_room(c, event),
    ensures
        checked(c, event).0.total_frames >= c.total_frames,
        checked(c, event).0.soft_errors >= c.soft_errors,
        c.sample_rate is Some ==> checked(c, event).0.sample_rate == c.sample_rate,
{
}

/// A check stops in one place only, so what it shows is determined by the file and
/// the options.
pub proof fn lemma_check_stops_once(
    data: Seq<u8>,
    hint: Option<Seq<char>>,
    track: u32,
    options: CheckOptions,
    n: nat,
    m: nat,
)
    requires
        stops_at(data, hint, track, options, n),
        stops_at(data, hint, track, options, m),
    ensures
        n == m,
{
    if n < m {
        lemma_went_on(data, hint, track, options, n, m);
    }
    if m < n {
        lemma_went_on(data, hint, track, options, m, n);
    }
}

proof fn lemma_went_on(
    data: Seq<u8>,
    hint: Option<Seq<char>>,
    track: u32,
    options: CheckOptions,
    k: nat,
    n: nat,
)
    requires
        k < n,
        goes_on_for(data, hint, track, options, n),
    ensures
        goes_on(check_after(data, hint, track, options, k), packet_event(data, hint, track, k)),
    decreases n,
{
    if k < n - 1 {
        lemma_went_on(data, hint, track, options, k, (n - 1) as nat);
    }
}

} // verus!
