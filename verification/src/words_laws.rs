//! What users read, told by what it is about.
use vstd::prelude::*;

use crate::cleaner::error::MusicCleanerError;
use crate::cover_art::CoverArtArchiveError;
use crate::downloader::{SkipReason, TrackRow};
use crate::musicbrainz::error::Error;
use crate::soulseek::error::SoulseekRs;
use crate::text::NumberError;

verus! {

/// An error of the network in words: what failed, and after it the reason where there is
/// one.
pub proof fn lemma_network_errors_in_words(e: SoulseekRs, r: String)
    requires
        call_ensures(SoulseekRs::message, (&e,), r),
    ensures
        e matches SoulseekRs::NetworkError(s) ==> r@ == "Network error: "@ + s@,
        e matches SoulseekRs::ParseError(s) ==> r@ == "Parse error: "@ + s@,
        e matches SoulseekRs::InvalidMessage(s) ==> r@ == "Invalid message: "@ + s@,
        e matches SoulseekRs::CompressionError(s) ==> r@ == "Compression error: "@ + s@,
        e is AuthenticationFailed ==> r@ == "Authentication failed"@,
        e is Timeout ==> r@ == "Operation timed out"@,
        e is ConnectionClosed ==> r@ == "Connection closed"@,
        e is NotConnected ==> r@ == "Not connected to server"@,
        e is LockPoisoned ==> r@ == "Lock poisoned"@,
        e is DownloadCancelled ==> r@ == "Download cancelled"@,
        e is DownloadTimedOut ==> r@ == "Download timed out"@,
{
}

/// Why a track could not be identified in words: what failed, and after it what was reported
/// where something was.
pub proof fn lemma_lookup_errors_in_words(e: Error, r: String)
    requires
        call_ensures(Error::message, (&e,), r),
    ensures
        e matches Error::FpcalcFailed(s) ==> r@ == "fpcalc failed: "@ + s@,
        e matches Error::FpcalcOutputEncoding(s) ==> r@ == "fpcalc output was not valid UTF-8: "@
            + s@,
        e matches Error::Sha256(s) ==> r@ == "failed to compute SHA-256: "@ + s@,
        e matches Error::AcoustId(s) ==> r@ == "AcoustID request failed: "@ + s@,
        e matches Error::MusicBrainz(s) ==> r@ == "MusicBrainz request failed: "@ + s@,
        e == Error::FpcalcBadDuration(NumberError::Empty) ==> r@
            == "fpcalc DURATION value could not be parsed: "@
            + "cannot parse integer from empty string"@,
        e == Error::FpcalcBadDuration(NumberError::InvalidDigit) ==> r@
            == "fpcalc DURATION value could not be parsed: "@ + "invalid digit found in string"@,
        e == Error::FpcalcBadDuration(NumberError::TooLarge) ==> r@
            == "fpcalc DURATION value could not be parsed: "@
            + "number too large to fit in target type"@,
        e is FpcalcMissingDuration ==> r@ == "fpcalc output missing DURATION field"@,
        e is FpcalcMissingFingerprint ==> r@ == "fpcalc output missing FINGERPRINT field"@,
        e is AcoustIdNoResults ==> r@ == "AcoustID returned no results"@,
        e is AcoustIdNoRecordings ==> r@ == "AcoustID results contained no recordings"@,
        e is MusicBrainzNoReleases ==> r@ == "MusicBrainz recording has no releases"@,
        e is MusicBrainzNoTrackNumber ==> r@ == "track number not found in MusicBrainz release"@,
{
}

/// Why there is no cover in words, with the status where it was unexpected.
pub proof fn lemma_cover_errors_in_words(e: CoverArtArchiveError, r: String)
    requires
        call_ensures(CoverArtArchiveError::message, (&e,), r),
    ensures
        e matches CoverArtArchiveError::UnexpectedStatus(n) ==> r@ == "unexpected status: "@
            + crate::text::decimal(n as nat),
        e matches CoverArtArchiveError::UnexpectedImageStatus(n) ==> r@
            == "unexpected image status: "@ + crate::text::decimal(n as nat),
        e is InvalidMBID ==> r@ == "invalid MBID"@,
        e is NotFound ==> r@ == "not found"@,
        e is RateLimitExceeded ==> r@ == "rate limit exceeded"@,
        e is NetworkError ==> r@ == "network error"@,
        e is UnexpectedError ==> r@ == "unexpected error"@,
{
}

/// Why a file failed in words: what failed, and after it the words of what made it fail.
pub proof fn lemma_cleaner_errors_in_words(
    e: MusicCleanerError,
    r: String,
    lookup: Error,
    told: String,
    cover: CoverArtArchiveError,
    said: String,
)
    requires
        call_ensures(MusicCleanerError::message, (&e,), r),
        call_ensures(Error::message, (&lookup,), told),
        call_ensures(CoverArtArchiveError::message, (&cover,), said),
    ensures
        e matches MusicCleanerError::Io(s) ==> r@ == "I/O error: "@ + s@,
        e == MusicCleanerError::MusicBrainz(lookup) ==> r@ == "MusicBrainz lookup failed: "@
            + told@,
        e == MusicCleanerError::CoverArt(cover) ==> r@ == "Cover Art Archive error: "@ + said@,
        e matches MusicCleanerError::Tag(s) ==> r@ == "Audio tag error: "@ + s@,
        e matches MusicCleanerError::Template(s) ==> r@ == "Template rendering error: "@ + s@,
        e matches MusicCleanerError::Prompt(s) ==> r@ == "Interactive prompt error: "@ + s@,
{
}

/// Why no song came in words; what the network says is said after it.
pub proof fn lemma_song_errors_in_words(
    e: crate::song::error::Error,
    r: String,
    network: SoulseekRs,
    said: String,
)
    requires
        call_ensures(crate::song::error::Error::message, (&e,), r),
        call_ensures(SoulseekRs::message, (&network,), said),
    ensures
        e == crate::song::error::Error::Soulseek(network) ==> r@ == "soulseek error: "@ + said@,
        e is NoResults ==> r@ == "no results found for query"@,
        e is DownloadFailed ==> r@ == "download failed"@,
{
}

/// A track goes by its title, in quotation marks, and its artist.
pub proof fn lemma_track_in_words(row: TrackRow, r: String)
    requires
        call_ensures(crate::downloader::label, (&row,), r),
    ensures
        r@ == "\""@ + row.title@ + "\" \u{2014} "@ + row.artist@,
{
}

/// While a track is searched for the user reads which, and how often it was searched for
/// again, out of how often it may be.
pub proof fn lemma_search_in_words(label: &str, retry: u32, max_retries: u32, r: String)
    requires
        call_ensures(crate::downloader::search_message, (label, retry, max_retries), r),
        retry < max_retries,
    ensures
        retry == 0 ==> r@ == "Searching for "@ + label@,
        retry > 0 ==> r@ == "Retry "@ + crate::text::decimal(retry as nat) + "/"@
            + crate::text::decimal((max_retries - 1) as nat) + " for "@ + label@,
{
}

/// While a candidate is tried the user reads, counted from one, which track it is of how
/// many, and which candidate of how many; and how often the search was made again, where it
/// was.
pub proof fn lemma_attempt_in_words(
    label: &str,
    track: usize,
    total: usize,
    candidate: usize,
    count: usize,
    retry: u32,
    r: String,
)
    requires
        call_ensures(
            crate::downloader::attempt_label,
            (label, track, total, candidate, count, retry),
            r,
        ),
    ensures
        ({
            let which = "["@ + crate::text::decimal((track + 1) as nat) + "/"@
                + crate::text::decimal(total as nat) + "] "@ + label@ + "  (candidate "@
                + crate::text::decimal((candidate + 1) as nat) + "/"@ + crate::text::decimal(
                count as nat,
            );
            &&& retry == 0 ==> r@ == which + ")"@
            &&& retry > 0 ==> r@ == which + (", retry "@ + crate::text::decimal(retry as nat))
                + ")"@
        }),
{
    let which = "["@ + crate::text::decimal((track + 1) as nat) + "/"@ + crate::text::decimal(
        total as nat,
    ) + "] "@ + label@ + "  (candidate "@ + crate::text::decimal((candidate + 1) as nat) + "/"@
        + crate::text::decimal(count as nat);
    assert(which + Seq::<char>::empty() =~= which);
}

/// Where a candidate is left the user reads which and why.
pub proof fn lemma_skipped_candidate_in_words(filename: &str, reason: SkipReason, r: String)
    requires
        call_ensures(crate::downloader::skip_message, (filename, &reason), r),
    ensures
        ({
            let which = "  \u{21b3} skip "@ + filename@ + " ("@;
            &&& reason matches SkipReason::CouldNotInitiate { error } ==> r@ == which + (
            "could not initiate download: "@ + error@) + ")"@
            &&& reason is DownloadFailed ==> r@ == which + "download failed"@ + ")"@
            &&& reason is TimedOut ==> r@ == which + "timed out"@ + ")"@
            &&& reason is Cancelled ==> r@ == which + "cancelled"@ + ")"@
        }),
{
}

/// Where a track is given up the user reads which, and whether nothing was found or the
/// search failed.
pub proof fn lemma_given_up_track_in_words(label: &str, error: Option<String>, r: String)
    requires
        call_ensures(crate::downloader::given_up_message, (label, &error), r),
    ensures
        error is None ==> r@ == "\u{2717} No results  \u{2014} "@ + label@,
        error matches Some(e) ==> r@ == "\u{2717} Search error ("@ + e@ + ")  \u{2014} "@ + label@,
{
}

} // verus!
