//! What a check shows of a file, told by what its reader and its decoder say.
use vstd::prelude::*;

use super::bad_file::{
    AudioError, CheckOptions, CheckStep, DecoderUse, Hertz, MediaError, PacketEvent, ReaderCheck,
};

verus! {

/// The frames of the packet that comes after `n` others, where it is of the track and can
/// be decoded.
pub open spec fn frames_at(data: Seq<u8>, hint: Option<Seq<char>>, track: u32, n: nat) -> nat {
    if super::bad_file::read_outcome(data, hint, n) == Ok::<u32, MediaError>(track) {
        match super::bad_file::decode_outcome(
            data,
            hint,
            super::bad_file::uses_after(data, hint, track, n),
            n,
        ) {
            Ok((frames, _)) => frames as nat,
            Err(_) => 0,
        }
    } else {
        0
    }
}

/// The frames of the first `n` packets.
pub open spec fn frames_of(data: Seq<u8>, hint: Option<Seq<char>>, track: u32, n: nat) -> nat
    decreases n,
{
    if n == 0 {
        0
    } else {
        frames_of(data, hint, track, (n - 1) as nat) + frames_at(
            data,
            hint,
            track,
            (n - 1) as nat,
        )
    }
}

/// The frames that a check has counted are those of the packets that it has seen.
pub proof fn lemma_frames_add_up(
    data: Seq<u8>,
    hint: Option<Seq<char>>,
    track: u32,
    options: CheckOptions,
    n: nat,
)
    requires
        super::bad_file::goes_on_for(data, hint, track, options, n),
    ensures
        super::bad_file::check_after(data, hint, track, options, n).total_frames == frames_of(
            data,
            hint,
            track,
            n,
        ),
    decreases n,
{
    if n > 0 {
        lemma_frames_add_up(data, hint, track, options, (n - 1) as nat);
    }
}

/// A file of which every packet can be read, and decoded where it is of the default track,
/// up to the end, is good: the check shows all its frames and no error.
pub proof fn lemma_good_file_is_shown(
    data: Seq<u8>,
    hint: Option<Seq<char>>,
    track: u32,
    options: CheckOptions,
    n: nat,
    end: String,
    r: Result<ReaderCheck, AudioError>,
)
    requires
        super::bad_file::is_container(data, hint),
        super::bad_file::default_track_of(data, hint) == Some(track),
        super::bad_file::decoder_refusal(data, hint) is None,
        n < u64::MAX,
        forall|k: nat|
            k < n ==> #[trigger] super::bad_file::read_outcome(data, hint, k) is Ok && (
            super::bad_file::read_outcome(data, hint, k) == Ok::<u32, MediaError>(track)
                ==> super::bad_file::decode_outcome(
                data,
                hint,
                super::bad_file::uses_after(data, hint, track, k),
                k,
            ) is Ok),
        super::bad_file::read_outcome(data, hint, n) == Err::<u32, MediaError>(
            MediaError::EndOfStream(end),
        ),
        frames_of(data, hint, track, n) <= usize::MAX,
        super::bad_file::is_check_of(data, hint, options, r),
    ensures
        r matches Ok(c) && c.total_frames == frames_of(data, hint, track, n) && c.soft_errors == 0,
{
    lemma_good_so_far(data, hint, track, options, n, n);
    lemma_frames_add_up(data, hint, track, options, n);
    assert(super::bad_file::stops_at(data, hint, track, options, n));
    let m = choose|m: nat| #[trigger]
        super::bad_file::stops_at(data, hint, track, options, m) && r
            == super::bad_file::shown_at(data, hint, track, options, m);
    super::bad_file::lemma_check_stops_once(data, hint, track, options, n, m);
}

proof fn lemma_good_so_far(
    data: Seq<u8>,
    hint: Option<Seq<char>>,
    track: u32,
    options: CheckOptions,
    k: nat,
    n: nat,
)
    requires
        k <= n,
        forall|j: nat|
            j < n ==> #[trigger] super::bad_file::read_outcome(data, hint, j) is Ok && (
            super::bad_file::read_outcome(data, hint, j) == Ok::<u32, MediaError>(track)
                ==> super::bad_file::decode_outcome(
                data,
                hint,
                super::bad_file::uses_after(data, hint, track, j),
                j,
            ) is Ok),
        frames_of(data, hint, track, n) <= usize::MAX,
    ensures
        super::bad_file::goes_on_for(data, hint, track, options, k),
        super::bad_file::check_after(data, hint, track, options, k).soft_errors == 0,
    decreases k,
{
    if k > 0 {
        let last = (k - 1) as nat;
        lemma_good_so_far(data, hint, track, options, last, n);
        lemma_frames_add_up(data, hint, track, options, last);
        lemma_frames_grow(data, hint, track, k, n);
        let o = super::bad_file::read_outcome(data, hint, last);
        assert(o is Ok);
    }
}

proof fn lemma_frames_grow(
    data: Seq<u8>,
    hint: Option<Seq<char>>,
    track: u32,
    k: nat,
    n: nat,
)
    requires
        k <= n,
    ensures
        frames_of(data, hint, track, k) <= frames_of(data, hint, track, n),
    decreases n,
{
    if k < n {
        lemma_frames_grow(data, hint, track, k, (n - 1) as nat);
    }
}

/// A file that is no container is of unknown format; one without a default track has none;
/// and one whose default track has no decoder is bad for the reason that is given.
pub proof fn lemma_unreadable_file_is_bad(
    data: Seq<u8>,
    hint: Option<Seq<char>>,
    options: CheckOptions,
    r: Result<ReaderCheck, AudioError>,
)
    requires
        super::bad_file::is_check_of(data, hint, options, r),
    ensures
        !super::bad_file::is_container(data, hint) ==> (r matches Err(e) && e is UnknownFormat),
        super::bad_file::is_container(data, hint) && super::bad_file::default_track_of(data, hint)
            is None ==> r == Err::<ReaderCheck, AudioError>(AudioError::NoTracks),
        super::bad_file::is_container(data, hint) && super::bad_file::default_track_of(data, hint)
            is Some ==> (super::bad_file::decoder_refusal(data, hint) matches Some(
            MediaError::Unsupported(s),
        ) ==> r == Err::<ReaderCheck, AudioError>(AudioError::UnknownFormat(s))),
{
}

/// What a reader or a decoder reports is told in our own words: an error of the system with
/// its text, a format that is not supported as unknown, a packet that cannot be had as a
/// packet error, and anything else as unknown.
pub proof fn lemma_report_is_told(e: MediaError)
    ensures
        ({
            let told = super::bad_file::blamed(e);
            &&& e matches MediaError::EndOfStream(s) ==> told == AudioError::Io(s)
            &&& e matches MediaError::Io(s) ==> told == AudioError::Io(s)
            &&& e matches MediaError::Unsupported(s) ==> told == AudioError::UnknownFormat(s)
            &&& told is PacketError <==> e is Decode || e is Seek
            &&& told is Unknown <==> e is Limit || e is ResetRequired || e is Panicked
        }),
{
}

/// A packet that cannot be had ends the check: the file is bad, for the reason that the
/// reader gives. The end of the stream is no such reason, nor that the tracks have changed.
pub proof fn lemma_unreadable_packet_ends_the_check(
    data: Seq<u8>,
    hint: Option<Seq<char>>,
    track: u32,
    options: CheckOptions,
    n: nat,
    r: Result<ReaderCheck, AudioError>,
)
    requires
        super::bad_file::is_container(data, hint),
        super::bad_file::default_track_of(data, hint) == Some(track),
        super::bad_file::decoder_refusal(data, hint) is None,
        n < u64::MAX,
        super::bad_file::goes_on_for(data, hint, track, options, n),
        super::bad_file::is_check_of(data, hint, options, r),
    ensures
        super::bad_file::read_outcome(data, hint, n) matches Err(e) ==> match e {
            MediaError::EndOfStream(_) => r == Ok::<ReaderCheck, AudioError>(
                super::bad_file::check_after(data, hint, track, options, n),
            ),
            MediaError::Io(s) => r == Err::<ReaderCheck, AudioError>(AudioError::Io(s)),
            MediaError::Unsupported(s) => r == Err::<ReaderCheck, AudioError>(
                AudioError::UnknownFormat(s),
            ),
            MediaError::Decode(_) => r == Err::<ReaderCheck, AudioError>(AudioError::PacketError),
            MediaError::Seek => r == Err::<ReaderCheck, AudioError>(AudioError::PacketError),
            MediaError::Limit => r == Err::<ReaderCheck, AudioError>(AudioError::Unknown),
            MediaError::Panicked => r == Err::<ReaderCheck, AudioError>(AudioError::Unknown),
            MediaError::ResetRequired => super::bad_file::goes_on_for(
                data,
                hint,
                track,
                options,
                n + 1,
            ),
        },
{
    match super::bad_file::read_outcome(data, hint, n) {
        Err(MediaError::ResetRequired) => {},
        Err(_) => {
            assert(super::bad_file::stops_at(data, hint, track, options, n));
            let m = choose|m: nat| #[trigger]
                super::bad_file::stops_at(data, hint, track, options, m) && r
                    == super::bad_file::shown_at(data, hint, track, options, m);
            super::bad_file::lemma_check_stops_once(data, hint, track, options, n, m);
        },
        Ok(_) => {},
    }
}

/// A packet of another track is passed over: the decoder is not asked, and nothing is
/// counted.
pub proof fn lemma_other_tracks_are_passed_over(
    data: Seq<u8>,
    hint: Option<Seq<char>>,
    track: u32,
    other: u32,
    options: CheckOptions,
    n: nat,
)
    requires
        other != track,
        super::bad_file::read_outcome(data, hint, n) == Ok::<u32, MediaError>(other),
        super::bad_file::goes_on_for(data, hint, track, options, n),
    ensures
        super::bad_file::goes_on_for(data, hint, track, options, n + 1),
        super::bad_file::check_after(data, hint, track, options, n + 1)
            == super::bad_file::check_after(data, hint, track, options, n),
        super::bad_file::uses_after(data, hint, track, n + 1) == super::bad_file::uses_after(
            data,
            hint,
            track,
            n,
        ),
{
}

/// The decoder is asked to decode every packet of its track, and no other, and to start
/// afresh where the tracks have changed.
pub proof fn lemma_decoder_is_asked(
    data: Seq<u8>,
    hint: Option<Seq<char>>,
    track: u32,
    n: nat,
    k: nat,
)
    ensures
        super::bad_file::uses_after(data, hint, track, n).contains(DecoderUse::Decode(k)) <==> k < n
            && super::bad_file::read_outcome(data, hint, k) == Ok::<u32, MediaError>(track),
    decreases n,
{
    let uses = super::bad_file::uses_after(data, hint, track, n);
    if n > 0 {
        let last = (n - 1) as nat;
        lemma_decoder_is_asked(data, hint, track, last, k);
        let before = super::bad_file::uses_after(data, hint, track, last);
        if before.contains(DecoderUse::Decode(k)) {
            let i = choose|i: int| 0 <= i < before.len() && before[i] == DecoderUse::Decode(k);
            assert(uses[i] == DecoderUse::Decode(k));
        }
        if uses.contains(DecoderUse::Decode(k)) && !before.contains(DecoderUse::Decode(k)) {
            let i = choose|i: int| 0 <= i < uses.len() && uses[i] == DecoderUse::Decode(k);
            if i < before.len() {
                assert(before[i] == uses[i]);
            }
        }
        if k == last && super::bad_file::read_outcome(data, hint, k) == Ok::<u32, MediaError>(
            track,
        ) {
            assert(uses[before.len() as int] == DecoderUse::Decode(k));
        }
    }
}

/// The decoder starts afresh exactly as often as the tracks change.
pub proof fn lemma_decoder_starts_afresh(
    data: Seq<u8>,
    hint: Option<Seq<char>>,
    track: u32,
    n: nat,
)
    ensures
        super::bad_file::uses_after(data, hint, track, n + 1) == match super::bad_file::read_outcome(
            data,
            hint,
            n,
        ) {
            Err(MediaError::ResetRequired) => super::bad_file::uses_after(
                data,
                hint,
                track,
                n,
            ).push(DecoderUse::Reset),
            Ok(t) => if t == track {
                super::bad_file::uses_after(data, hint, track, n).push(DecoderUse::Decode(n))
            } else {
                super::bad_file::uses_after(data, hint, track, n)
            },
            _ => super::bad_file::uses_after(data, hint, track, n),
        },
{
}

/// A packet that the decoder fails on altogether ends the check with a packet error.
pub proof fn lemma_failed_decoder_makes_the_file_bad(
    data: Seq<u8>,
    hint: Option<Seq<char>>,
    track: u32,
    options: CheckOptions,
    n: nat,
    e: MediaError,
    r: Result<ReaderCheck, AudioError>,
)
    requires
        super::bad_file::is_container(data, hint),
        super::bad_file::default_track_of(data, hint) == Some(track),
        super::bad_file::decoder_refusal(data, hint) is None,
        n < u64::MAX,
        super::bad_file::goes_on_for(data, hint, track, options, n),
        super::bad_file::is_check_of(data, hint, options, r),
        super::bad_file::read_outcome(data, hint, n) == Ok::<u32, MediaError>(track),
        super::bad_file::decode_outcome(
            data,
            hint,
            super::bad_file::uses_after(data, hint, track, n),
            n,
        ) == Err::<(usize, u32), MediaError>(e),
        !(e is Decode),
    ensures
        r == Err::<ReaderCheck, AudioError>(AudioError::PacketError),
{
    assert(super::bad_file::stops_at(data, hint, track, options, n));
    let m = choose|m: nat| #[trigger]
        super::bad_file::stops_at(data, hint, track, options, m) && r
            == super::bad_file::shown_at(data, hint, track, options, m);
    super::bad_file::lemma_check_stops_once(data, hint, track, options, n, m);
}

/// The check once it has taken the events of a list.
pub open spec fn after_events(c: ReaderCheck, events: Seq<PacketEvent>) -> ReaderCheck
    decreases events.len(),
{
    if events.len() == 0 {
        c
    } else {
        super::bad_file::checked(after_events(c, events.drop_last()), events.last()).0
    }
}

/// Packets that cannot be decoded are borne as long as no more come in a row than are
/// allowed: after a packet that could be decoded, the first such errors are let pass, and
/// the one that makes it too many ends the check, with how many they were and what the last
/// said.
pub proof fn lemma_too_many_errors_in_a_row(
    c: ReaderCheck,
    frames: usize,
    rate: u32,
    errors: Seq<PacketEvent>,
    last: String,
)
    requires
        c.total_frames + frames <= usize::MAX,
        c.soft_errors + errors.len() < usize::MAX,
        forall|k: int| 0 <= k < errors.len() ==> (#[trigger] errors[k]) is DecodeError,
    ensures
        ({
            let start = super::bad_file::checked(c, PacketEvent::Decoded { frames, rate }).0;
            let before = after_events(start, errors);
            let (after, step) = super::bad_file::checked(before, PacketEvent::DecodeError(last));
            &&& start.total_frames == c.total_frames + frames
            &&& c.sample_rate is None ==> start.sample_rate == Some(Hertz(rate))
            &&& before.total_frames == start.total_frames
            &&& after.soft_errors == c.soft_errors + errors.len() + 1
            &&& if errors.len() + 1 > c.max_soft_errors {
                step == CheckStep::Fail(
                    AudioError::TooManyDecodeErrors { count: (errors.len() + 1) as usize, last },
                )
            } else {
                step is NextPacket
            }
        }),
{
    let start = super::bad_file::checked(c, PacketEvent::Decoded { frames, rate }).0;
    lemma_errors_are_counted(start, errors);
}

proof fn lemma_errors_are_counted(c: ReaderCheck, errors: Seq<PacketEvent>)
    requires
        c.soft_errors + errors.len() < usize::MAX,
        c.in_a_row == 0,
        forall|k: int| 0 <= k < errors.len() ==> (#[trigger] errors[k]) is DecodeError,
    ensures
        ({
            let after = after_events(c, errors);
            &&& after.in_a_row == errors.len()
            &&& after.soft_errors == c.soft_errors + errors.len()
            &&& after.max_soft_errors == c.max_soft_errors
            &&& after.total_frames == c.total_frames
        }),
    decreases errors.len(),
{
    if errors.len() > 0 {
        let init = errors.drop_last();
        assert forall|k: int| 0 <= k < init.len() implies (#[trigger] init[k]) is DecodeError by {
            assert(init[k] == errors[k]);
        }
        lemma_errors_are_counted(c, init);
        assert(errors[errors.len() - 1] is DecodeError);
    }
}

/// A decoder that fails altogether ends the check with a packet error.
pub proof fn lemma_failed_decoder_ends_the_check(c: ReaderCheck)
    ensures
        super::bad_file::checked(c, PacketEvent::DecodeFailed).1 == CheckStep::Fail(
            AudioError::PacketError,
        ),
{
}

} // verus!
