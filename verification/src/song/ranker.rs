//! Which of the offered files match a song, and which match it best.
//!
//! What a file is compared by is worked out here as exact values. Their weighted sum
//! is a floating-point number, less a share for each type that is preferred to that
//! of the file; it comes back as a [`MatchScore`].
use vstd::prelude::*;

use super::parser::parse_soulseek_filename;
use super::types::{FileType, SongQuery, WantedFileTypes};
use crate::soulseek::path::SoulseekPath;
use crate::soulseek::types::{File, FileAttributes};
use crate::text::{after_last_chars, from_chars, to_chars};
use crate::text_match::{duration_score, normalize_str, similarity, Score};

verus! {

/// The difference in seconds up to which two durations are the same.
pub const DURATION_TOLERANCE_SECS: u32 = 5;

/// The difference in seconds from which two durations have nothing in common.
pub const DURATION_FALLOFF_SECS: u32 = 30;

/// What the title weighs in a score, in hundredths.
pub const TITLE_WEIGHT: u32 = 45;

/// What the artist weighs in a score, in hundredths.
pub const ARTIST_WEIGHT: u32 = 30;

/// What the duration weighs in a score, in hundredths.
pub const DURATION_WEIGHT: u32 = 10;

/// What the format weighs in a score, in hundredths.
pub const FORMAT_WEIGHT: u32 = 15;

/// What an artist or a duration that is not known counts for, in hundredths.
pub const UNKNOWN_WORTH: u32 = 50;

/// What a file loses of its score for each type that is preferred to its own, in
/// hundredths.
pub const PRIORITY_STEP: u32 = 5;

/// The most that a file loses of its score for its type, in hundredths.
pub const PRIORITY_CAP: u32 = 40;

/// How well a file matches: the bits of a double-precision number that is not
/// negative. Such bits are ordered as the numbers are.
#[derive(Debug, Clone, Copy, PartialEq, Eq, Structural)]
pub struct MatchScore {
    pub bits: u64,
}

/// The bits of one half, below which a file does not match.
pub const MIN_SCORE_BITS: u64 = 0x3FE0_0000_0000_0000;

/// A file that matches.
#[derive(Debug)]
pub struct SongResult {
    pub username: String,
    pub filename: SoulseekPath,
    pub file_type: FileType,
    pub size: u64,
    pub bitrate: Option<u32>,
    pub duration: Option<u32>,
    pub sample_rate: Option<u32>,
    pub bit_depth: Option<u32>,
    pub vbr: Option<bool>,
    pub score: MatchScore,
}

/// What a file is compared by.
#[derive(Debug, Clone, Copy, PartialEq, Eq, Structural)]
pub struct Comparison {
    pub title: Score,
    /// None where the path does not tell the artist.
    pub artist: Option<Score>,
    /// None where the file or the query has no duration.
    pub duration: Option<Score>,
    /// In hundredths.
    pub format: u32,
    /// Where its type stands among the preferred ones.
    pub priority: Option<usize>,
}

/// A file that may match.
#[derive(Debug)]
pub struct Candidate {
    /// Where the file stands in the list of files.
    pub file: usize,
    pub file_type: FileType,
    pub comparison: Comparison,
}

/// The kind of a shared file, by what stands behind the last dot of its name.
pub open spec fn kind_of(path: Seq<char>) -> super::types::FileKind {
    super::types::kind_named(
        crate::text::lowercase(
            crate::text::after_last(crate::text::after_last(path, '\\'), '.'),
        ),
    )
}

/// A file is of a kind that is wanted, and its bit rate is high enough. That of a
/// file that loses nothing says nothing and is not asked.
pub open spec fn eligible(query: SongQuery, file: File, wanted: WantedFileTypes) -> bool {
    &&& wanted.accepts(kind_of(file.name@))
    &&& match query.min_bitrate_kbps {
        Some(min) => super::types::kind_is_lossless(kind_of(file.name@)) || match
            file.attributes.bitrate {
            Some(br) => br >= min,
            None => false,
        },
        None => true,
    }
}

/// What the format of a file is worth, in hundredths.
pub open spec fn format_worth(kind: super::types::FileKind, bitrate: Option<u32>) -> int {
    if super::types::kind_is_lossless(kind) {
        100
    } else {
        match bitrate {
            Some(br) => if br >= 320 {
                85
            } else if br >= 256 {
                70
            } else if br >= 192 {
                55
            } else {
                35
            },
            None => 35,
        }
    }
}

/// What the format of a file is worth, in hundredths.
pub fn score_format_quality(file_type: &FileType, bitrate: Option<u32>) -> (r: u32)
    ensures
        r == format_worth(file_type@, bitrate),
{
    if file_type.is_lossless() {
        return 100;
    }
    match bitrate {
        Some(br) => if br >= 320 {
            85
        } else if br >= 256 {
            70
        } else if br >= 192 {
            55
        } else {
            35
        },
        None => 35,
    }
}

/// A score is the given fraction.
pub open spec fn score_is(score: Score, fraction: (nat, nat)) -> bool {
    score.valid() && (score.lost as nat, score.out_of as nat) == fraction
}

/// A comparison of a file with a query says what the file's names, attributes and
/// type say.
pub open spec fn compares(
    query: SongQuery,
    names: super::parser::TrackNames,
    attributes: FileAttributes,
    kind: super::types::FileKind,
    wanted: WantedFileTypes,
    c: Comparison,
) -> bool {
    &&& score_is(
        c.title,
        crate::text_match::similarity_of(
            crate::text_match::normalized(query.title@),
            crate::text_match::normalized(names.title),
        ),
    )
    &&& match c.artist {
        Some(s) => names.artist.len() > 0 && score_is(
            s,
            crate::text_match::similarity_of(
                crate::text_match::normalized(query.artist@),
                crate::text_match::normalized(names.artist),
            ),
        ),
        None => names.artist.len() == 0,
    }
    &&& match c.duration {
        Some(s) => {
            &&& attributes.duration is Some
            &&& query.duration_secs is Some
            &&& s.valid()
            &&& (s.lost as int, s.out_of as int) == crate::text_match::duration_loss(
                crate::text_match::gap(
                    attributes.duration->0 as int,
                    query.duration_secs->0 as int,
                ),
                DURATION_TOLERANCE_SECS as int,
                DURATION_FALLOFF_SECS as int,
            )
        },
        None => attributes.duration is None || query.duration_secs is None,
    }
    &&& c.format == format_worth(kind, attributes.bitrate)
    &&& match (wanted, c.priority) {
        (WantedFileTypes::All, p) => p is None,
        (WantedFileTypes::Specific(types), Some(i)) => {
            &&& i < types@.len()
            &&& types@[i as int]@ == kind
            &&& forall|k: int| 0 <= k < i ==> (#[trigger] types@[k])@ != kind
        },
        (WantedFileTypes::Specific(types), None) => !super::types::kinds(types@).contains(kind),
    }
}

/// Compare a file with a query.
pub fn compare_tracks(
    query: &SongQuery,
    parsed: &super::parser::ParsedSoulseekMetadata,
    attributes: &FileAttributes,
    file_type: &FileType,
    wanted: &WantedFileTypes,
) -> (r: Comparison)
    ensures
        compares(*query, parsed@, *attributes, file_type@, *wanted, r),
{
    let title = similarity(
        normalize_str(query.title.as_str()).as_str(),
        normalize_str(parsed.title.as_str()).as_str(),
    );
    let artist_chars = to_chars(parsed.artist.as_str());
    let artist = if artist_chars.len() == 0 {
        None
    } else {
        Some(
            similarity(
                normalize_str(query.artist.as_str()).as_str(),
                normalize_str(parsed.artist.as_str()).as_str(),
            ),
        )
    };
    let duration = match (attributes.duration, query.duration_secs) {
        (Some(actual), Some(target)) => Some(
            duration_score(actual, target, DURATION_TOLERANCE_SECS, DURATION_FALLOFF_SECS),
        ),
        _ => None,
    };
    let format = score_format_quality(file_type, attributes.bitrate);
    let priority = wanted.priority_index(file_type);
    Comparison { title, artist, duration, format, priority }
}

/// A candidate stands for the file at its place.
pub open spec fn stands_for(
    query: SongQuery,
    files: Seq<File>,
    wanted: WantedFileTypes,
    c: Candidate,
) -> bool {
    &&& c.file < files.len()
    &&& c.file_type@ == kind_of(files[c.file as int].name@)
    &&& compares(
        query,
        super::parser::track_names(files[c.file as int].name@),
        files[c.file as int].attributes,
        c.file_type@,
        wanted,
        c.comparison,
    )
}

/// The files that may match: those that are eligible, in their order.
pub open spec fn are_candidates(
    query: SongQuery,
    files: Seq<File>,
    wanted: WantedFileTypes,
    candidates: Seq<Candidate>,
) -> bool {
    &&& forall|i: int|
        0 <= i < candidates.len() ==> stands_for(query, files, wanted, #[trigger] candidates[i])
    &&& forall|i: int|
        0 <= i < candidates.len() ==> eligible(
            query,
            files[(#[trigger] candidates[i]).file as int],
            wanted,
        )
    &&& forall|i: int, j: int|
        0 <= i < j < candidates.len() ==> (#[trigger] candidates[i]).file < (
        #[trigger] candidates[j]).file
    &&& forall|f: int|
        0 <= f < files.len() && eligible(query, #[trigger] files[f], wanted) ==> exists|i: int|
            0 <= i < candidates.len() && (#[trigger] candidates[i]).file == f
}

/// The files that may match a query, with what they are compared by.
pub fn candidates(query: &SongQuery, files: &Vec<File>, wanted: &WantedFileTypes) -> (r: Vec<
    Candidate,
>)
    ensures
        are_candidates(*query, files@, *wanted, r@),
{
    let mut out: Vec<Candidate> = Vec::new();
    let mut i: usize = 0;
    while i < files.len()
        invariant
            i <= files.len(),
            forall|k: int|
                0 <= k < out@.len() ==> stands_for(*query, files@, *wanted, #[trigger] out@[k]),
            forall|k: int|
                0 <= k < out@.len() ==> eligible(
                    *query,
                    files@[(#[trigger] out@[k]).file as int],
                    *wanted,
                ),
            forall|k: int| 0 <= k < out@.len() ==> (#[trigger] out@[k]).file < i,
            forall|j: int, k: int|
                0 <= j < k < out@.len() ==> (#[trigger] out@[j]).file < (#[trigger] out@[k]).file,
            forall|f: int|
                0 <= f < i && eligible(*query, #[trigger] files@[f], *wanted) ==> exists|k: int|
                    0 <= k < out@.len() && (#[trigger] out@[k]).file == f,
        decreases files.len() - i,
    {
        let file = &files[i];
        let ghost out0 = out@;
        let name = file.name.filename();
        let ext = from_chars(&after_last_chars(&to_chars(name.as_str()), '.'));
        let file_type = FileType::from_extension(ext.as_str());
        let fast_enough = match query.min_bitrate_kbps {
            Some(min) => file_type.is_lossless() || match file.attributes.bitrate {
                Some(br) => br >= min,
                None => false,
            },
            None => true,
        };
        let accepted = wanted.is_compatible(&file_type);
        assert(eligible(*query, files@[i as int], *wanted) == (accepted && fast_enough));
        if accepted && fast_enough {
            let parsed = parse_soulseek_filename(file.name.as_str());
            let comparison = compare_tracks(query, &parsed, &file.attributes, &file_type, wanted);
            out.push(Candidate { file: i, file_type, comparison });
            assert(out@[out0.len() as int].file == i);
        }
        assert forall|f: int|
            0 <= f < i + 1 && eligible(*query, #[trigger] files@[f], *wanted) implies exists|
            k: int,
        | 0 <= k < out@.len() && (#[trigger] out@[k]).file == f by {
            if f < i {
                let k = choose|k: int| 0 <= k < out0.len() && (#[trigger] out0[k]).file == f;
                assert(out@[k] == out0[k]);
            } else {
                assert(out@[out0.len() as int].file == f);
            }
        }
        i += 1;
    }
    out
}

// ---- the order --------------------------------------------------------------------------

/// A score is high enough.
pub open spec fn high_enough(score: MatchScore) -> bool {
    score.bits >= MIN_SCORE_BITS
}

/// One place comes before another: its score is higher, or they are equal and it
/// comes first in the list.
pub open spec fn before(scores: Seq<MatchScore>, a: int, b: int) -> bool {
    scores[a].bits > scores[b].bits || (scores[a].bits == scores[b].bits && a < b)
}

/// The places of the scores that are high enough, the best first.
pub open spec fn is_ranking(order: Seq<usize>, scores: Seq<MatchScore>) -> bool {
    &&& forall|i: int|
        0 <= i < order.len() ==> (#[trigger] order[i]) < scores.len() && high_enough(
            scores[order[i] as int],
        )
    &&& forall|i: int, j: int|
        0 <= i < j < order.len() ==> before(
            scores,
            (#[trigger] order[i]) as int,
            (#[trigger] order[j]) as int,
        )
    &&& forall|c: int|
        0 <= c < scores.len() && high_enough(#[trigger] scores[c]) ==> exists|i: int|
            0 <= i < order.len() && (#[trigger] order[i]) == c
}

/// The places of the scores that are high enough, the best first.
pub fn ranking(scores: &Vec<MatchScore>) -> (r: Vec<usize>)
    ensures
        is_ranking(r@, scores@),
{
    let mut order: Vec<usize> = Vec::new();
    let mut c: usize = 0;
    while c < scores.len()
        invariant
            c <= scores.len(),
            is_ranking(order@, scores@.take(c as int)),
        decreases scores.len() - c,
    {
        let ghost seen = scores@.take(c as int);
        let ghost more = scores@.take(c + 1);
        let ghost order0 = order@;
        assert(forall|k: int| 0 <= k < c ==> seen[k] == more[k]);
        assert(more[c as int] == scores@[c as int]);
        if scores[c].bits >= MIN_SCORE_BITS {
            let mut at: usize = order.len();
            while at > 0 && scores[order[at - 1]].bits < scores[c].bits
                invariant
                    at <= order.len(),
                    c < scores.len(),
                    seen == scores@.take(c as int),
                    is_ranking(order@, seen),
                    order@ == order0,
                    forall|k: int|
                        at <= k < order@.len() ==> seen[(#[trigger] order@[k]) as int].bits
                            < scores@[c as int].bits,
                decreases at,
            {
                at = at - 1;
            }
            order.insert(at, c);
            assert(order@ == order0.insert(at as int, c));
            proof {
                lemma_inserted(order0, scores@, c as int, at as int);
            }
        } else {
            assert forall|k: int|
                0 <= k < more.len() && high_enough(#[trigger] more[k]) implies exists|i: int|
                0 <= i < order@.len() && (#[trigger] order@[i]) == k by {
                assert(k < c);
                assert(high_enough(seen[k]));
            }
            assert forall|i: int, j: int| 0 <= i < j < order@.len() implies before(
                more,
                (#[trigger] order@[i]) as int,
                (#[trigger] order@[j]) as int,
            ) by {
                assert(before(seen, order@[i] as int, order@[j] as int));
            }
            assert(is_ranking(order@, more));
        }
        c += 1;
    }
    assert(scores@.take(c as int) =~= scores@);
    order
}

proof fn lemma_inserted(order: Seq<usize>, scores: Seq<MatchScore>, c: int, at: int)
    requires
        0 <= c < scores.len() <= usize::MAX,
        is_ranking(order, scores.take(c)),
        high_enough(scores[c]),
        0 <= at <= order.len(),
        forall|k: int|
            at <= k < order.len() ==> scores.take(c)[(#[trigger] order[k]) as int].bits
                < scores[c].bits,
        at > 0 ==> scores.take(c)[order[at - 1] as int].bits >= scores[c].bits,
    ensures
        is_ranking(order.insert(at, c as usize), scores.take(c + 1)),
{
    let seen = scores.take(c);
    let more = scores.take(c + 1);
    let next = order.insert(at, c as usize);
    assert(forall|k: int| 0 <= k < c ==> seen[k] == more[k]);
    assert(more[c] == scores[c]);
    assert forall|i: int| 0 <= i < next.len() implies (#[trigger] next[i]) < more.len()
        && high_enough(more[next[i] as int]) by {
        if i < at {
            assert(next[i] == order[i]);
        } else if i > at {
            assert(next[i] == order[i - 1]);
        }
    }
    assert forall|i: int, j: int| 0 <= i < j < next.len() implies before(
        more,
        (#[trigger] next[i]) as int,
        (#[trigger] next[j]) as int,
    ) by {
        let oi = if i < at {
            i
        } else {
            i - 1
        };
        let oj = if j < at {
            j
        } else {
            j - 1
        };
        if i != at && j != at {
            assert(next[i] == order[oi] && next[j] == order[oj]);
            assert(before(seen, order[oi] as int, order[oj] as int));
        } else if i == at {
            assert(next[j] == order[j - 1]);
        } else {
            assert(next[i] == order[i]);
            if i < at - 1 {
                assert(before(seen, order[i] as int, order[at - 1] as int));
            }
        }
    }
    assert forall|k: int|
        0 <= k < more.len() && high_enough(#[trigger] more[k]) implies exists|i: int|
        0 <= i < next.len() && (#[trigger] next[i]) == k by {
        if k < c {
            assert(high_enough(seen[k]));
            let i = choose|i: int| 0 <= i < order.len() && (#[trigger] order[i]) == k;
            if i < at {
                assert(next[i] == k);
            } else {
                assert(next[i + 1] == k);
            }
        } else {
            assert(next[at] == k);
        }
    }
}

/// There is but one ranking of given scores.
pub proof fn lemma_ranking_unique(a: Seq<usize>, b: Seq<usize>, scores: Seq<MatchScore>)
    requires
        is_ranking(a, scores),
        is_ranking(b, scores),
    ensures
        a == b,
    decreases a.len(),
{
    lemma_ranking_within(a, b, scores, a.len() as int);
    lemma_ranking_within(b, a, scores, b.len() as int);
    assert(a =~= b);
}

/// The first places of one ranking are those of another.
proof fn lemma_ranking_within(a: Seq<usize>, b: Seq<usize>, scores: Seq<MatchScore>, n: int)
    requires
        is_ranking(a, scores),
        is_ranking(b, scores),
        0 <= n <= a.len(),
    ensures
        n <= b.len(),
        forall|i: int| 0 <= i < n ==> #[trigger] a[i] == b[i],
    decreases n,
{
    if n > 0 {
        lemma_ranking_within(a, b, scores, n - 1);
        let p = a[n - 1];
        assert(high_enough(scores[p as int]));
        let j = choose|j: int| 0 <= j < b.len() && (#[trigger] b[j]) == p as int;
        assert(b[j] == p);
        if j < n - 1 {
            assert(a[j] == b[j]);
            assert(before(scores, a[j] as int, a[n - 1] as int));
        } else if j > n - 1 {
            let q = b[n - 1];
            assert(before(scores, q as int, p as int));
            assert(high_enough(scores[q as int]));
            let i = choose|i: int| 0 <= i < a.len() && (#[trigger] a[i]) == q as int;
            assert(a[i] == q);
            if i < n - 1 {
                assert(a[i] == b[i]);
                assert(before(scores, b[i] as int, b[n - 1] as int));
            } else if i > n - 1 {
                assert(before(scores, a[n - 1] as int, a[i] as int));
            }
        }
    }
}

/// A result is about a candidate's file, with its score.
pub open spec fn is_result(r: SongResult, file: File, c: Candidate, score: MatchScore) -> bool {
    &&& r.username == file.username
    &&& r.filename == file.name
    &&& r.file_type == c.file_type
    &&& r.size == file.size
    &&& r.bitrate == file.attributes.bitrate
    &&& r.duration == file.attributes.duration
    &&& r.sample_rate == file.attributes.sample_rate
    &&& r.bit_depth == file.attributes.bit_depth
    &&& r.vbr == file.attributes.vbr
    &&& r.score == score
}

/// The results are those of the candidates whose score is high enough, the best
/// first, and of equal ones the earlier first.
pub open spec fn are_results(
    results: Seq<SongResult>,
    files: Seq<File>,
    candidates: Seq<Candidate>,
    scores: Seq<MatchScore>,
    order: Seq<usize>,
) -> bool {
    &&& is_ranking(order, scores)
    &&& results.len() == order.len()
    &&& forall|i: int|
        0 <= i < results.len() ==> is_result(
            #[trigger] results[i],
            files[candidates[order[i] as int].file as int],
            candidates[order[i] as int],
            scores[order[i] as int],
        )
}

/// The files that match, the best first.
pub fn rank_results(
    files: &Vec<File>,
    candidates: &Vec<Candidate>,
    scores: &Vec<MatchScore>,
) -> (r: Vec<SongResult>)
    requires
        candidates@.len() == scores@.len(),
        forall|i: int|
            0 <= i < candidates@.len() ==> (#[trigger] candidates@[i]).file < files@.len(),
    ensures
        exists|order: Seq<usize>|
            are_results(r@, files@, candidates@, scores@, order),
{
    let order = ranking(scores);
    let mut out: Vec<SongResult> = Vec::new();
    let mut i: usize = 0;
    while i < order.len()
        invariant
            i <= order.len(),
            candidates@.len() == scores@.len(),
            is_ranking(order@, scores@),
            forall|i: int|
                0 <= i < candidates@.len() ==> (#[trigger] candidates@[i]).file < files@.len(),
            out@.len() == i,
            forall|k: int|
                0 <= k < i ==> is_result(
                    #[trigger] out@[k],
                    files@[candidates@[order@[k] as int].file as int],
                    candidates@[order@[k] as int],
                    scores@[order@[k] as int],
                ),
        decreases order.len() - i,
    {
        let c = &candidates[order[i]];
        let file = &files[c.file];
        out.push(
            SongResult {
                username: file.username.clone(),
                filename: file.name.clone(),
                file_type: c.file_type.clone(),
                size: file.size,
                bitrate: file.attributes.bitrate,
                duration: file.attributes.duration,
                sample_rate: file.attributes.sample_rate,
                bit_depth: file.attributes.bit_depth,
                vbr: file.attributes.vbr,
                score: scores[order[i]],
            },
        );
        i += 1;
    }
    assert(are_results(out@, files@, candidates@, scores@, order@));
    out
}

// ---- laws ---------------------------------------------------------------------------------

/// No result scores lower than one half, and none scores higher than one before
/// it.
pub proof fn lemma_best_comes_first(
    results: Seq<SongResult>,
    files: Seq<File>,
    candidates: Seq<Candidate>,
    scores: Seq<MatchScore>,
    order: Seq<usize>,
    i: int,
    j: int,
)
    requires
        are_results(results, files, candidates, scores, order),
        0 <= i <= j < results.len(),
    ensures
        results[i].score.bits >= results[j].score.bits,
        results[j].score.bits >= MIN_SCORE_BITS,
{
    let a = order[i] as int;
    let b = order[j] as int;
    assert(is_result(results[i], files[candidates[a].file as int], candidates[a], scores[a]));
    assert(is_result(results[j], files[candidates[b].file as int], candidates[b], scores[b]));
    if i < j {
        assert(before(scores, order[i] as int, order[j] as int));
    }
}

/// The weights add up to one, so that a file that matches in every way, in the best
/// format, scores one.
pub proof fn lemma_weights_add_up()
    ensures
        TITLE_WEIGHT + ARTIST_WEIGHT + DURATION_WEIGHT + FORMAT_WEIGHT == 100,
        forall|kind: super::types::FileKind| #[trigger]
            super::types::kind_is_lossless(kind) ==> format_worth(kind, None) == 100,
{
}

/// A better bit rate never makes a format worth less, and a format that loses
/// nothing is worth most.
pub proof fn lemma_format_worth_monotone(
    kind: super::types::FileKind,
    other: super::types::FileKind,
    low: u32,
    high: u32,
)
    requires
        low <= high,
    ensures
        format_worth(kind, None) <= format_worth(kind, Some(low)),
        format_worth(kind, Some(low)) <= format_worth(kind, Some(high)),
        super::types::kind_is_lossless(other) ==> format_worth(kind, Some(high)) <= format_worth(
            other,
            None,
        ),
{
}

/// A file that loses nothing is kept whatever its bit rate, where its kind is wanted.
pub proof fn lemma_lossless_is_kept(query: SongQuery, file: File, wanted: WantedFileTypes)
    requires
        super::types::kind_is_lossless(kind_of(file.name@)),
        wanted.accepts(kind_of(file.name@)),
    ensures
        eligible(query, file, wanted),
{
}

} // verus!
