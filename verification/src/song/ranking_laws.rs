//! What ranking the offered files comes to, told by the files and the query.
use vstd::prelude::*;

use super::parser::TrackNames;
use super::ranker::{Candidate, Comparison, MatchScore, SongResult};
use super::types::{FileKind, SongQuery, WantedFileTypes};
use crate::soulseek::types::{File, FileAttributes, SearchResult};

verus! {

/// The network is asked for the title and the artist, with a space between them.
pub proof fn lemma_asked_for_title_and_artist(query: SongQuery)
    ensures
        super::client::search_text(query) == query.title@ + seq![' '] + query.artist@,
{
    reveal_strlit(" ");
    assert(" "@ =~= seq![' ']);
}

/// All files of all answers are ranked, in the order of the answers: those of one answer
/// are that answer's, and those of more answers follow those of the answers before.
pub proof fn lemma_every_offered_file_counts(
    one: SearchResult,
    results: Seq<SearchResult>,
    more: Seq<SearchResult>,
)
    ensures
        super::client::offered(seq![one]) == one.files@,
        super::client::offered(results + more) == super::client::offered(results)
            + super::client::offered(more),
    decreases more.len(),
{
    let single = seq![one];
    assert(single.drop_last() =~= Seq::empty());
    assert(super::client::offered(single.drop_last()) =~= Seq::empty());
    assert(Seq::<File>::empty() + one.files@ =~= one.files@);
    if more.len() == 0 {
        assert(results + more =~= results);
        assert(super::client::offered(results) + super::client::offered(more)
            =~= super::client::offered(results));
    } else {
        lemma_every_offered_file_counts(one, results, more.drop_last());
        assert((results + more).drop_last() =~= results + more.drop_last());
        assert(super::client::offered(results + more) =~= super::client::offered(results)
            + super::client::offered(more));
    }
}

/// Each extension names its kind.
pub proof fn lemma_extensions_name_kinds()
    ensures
        super::types::kind_named("mp3"@) == FileKind::Mp3,
        super::types::kind_named("flac"@) == FileKind::Flac,
        super::types::kind_named("wav"@) == FileKind::Wav,
        super::types::kind_named("aac"@) == FileKind::Aac,
        super::types::kind_named("m4a"@) == FileKind::M4a,
        super::types::kind_named("ogg"@) == FileKind::Ogg,
        super::types::kind_named("alac"@) == FileKind::Alac,
        super::types::kind_named("aiff"@) == FileKind::Aiff,
        super::types::kind_named("aif"@) == FileKind::Aiff,
        super::types::kind_named("opus"@) == FileKind::Opus,
{
    super::types::lemma_name_names_kind(FileKind::Mp3);
    super::types::lemma_name_names_kind(FileKind::Flac);
    super::types::lemma_name_names_kind(FileKind::Wav);
    super::types::lemma_name_names_kind(FileKind::Aac);
    super::types::lemma_name_names_kind(FileKind::M4a);
    super::types::lemma_name_names_kind(FileKind::Ogg);
    super::types::lemma_name_names_kind(FileKind::Alac);
    super::types::lemma_name_names_kind(FileKind::Aiff);
    super::types::lemma_name_names_kind(FileKind::Opus);
}

/// Exactly FLAC, ALAC, WAV and AIFF keep every sample.
pub proof fn lemma_lossless_kinds(kind: FileKind)
    ensures
        super::types::kind_is_lossless(kind) == match kind {
            FileKind::Flac => true,
            FileKind::Alac => true,
            FileKind::Wav => true,
            FileKind::Aiff => true,
            FileKind::Mp3 => false,
            FileKind::Aac => false,
            FileKind::M4a => false,
            FileKind::Ogg => false,
            FileKind::Opus => false,
            FileKind::Other(_) => false,
        },
{
}

/// The kind of a file goes by the extension of its name, in any letter case, and not by
/// the directories it lies in.
pub proof fn lemma_kind_goes_by_the_extension(dirs: Seq<char>, stem: Seq<char>, ext: Seq<char>)
    requires
        !stem.contains('\\'),
        !ext.contains('\\'),
        !ext.contains('.'),
        crate::text::ascii(ext),
    ensures
        super::ranker::kind_of(dirs + seq!['\\'] + (stem + seq!['.'] + ext))
            == super::types::kind_named(crate::text::ascii_lowercase(ext)),
{
    let file = stem + seq!['.'] + ext;
    assert(!file.contains('\\')) by {
        if file.contains('\\') {
            let k = choose|k: int| 0 <= k < file.len() && file[k] == '\\';
            if k < stem.len() {
                assert(stem[k] == '\\');
            } else if k > stem.len() {
                assert(ext[k - stem.len() - 1] == '\\');
            }
        }
    }
    crate::text_laws::lemma_around_last(dirs, file, '\\');
    crate::text_laws::lemma_around_last(stem, ext, '.');
    crate::text::lemma_lowercase_ascii(ext);
}

/// Which files may match: where every kind is wanted and no bit rate is asked for, every
/// file; a kind that is not wanted, never; and of the kinds that lose something only files
/// whose bit rate is known and high enough.
pub proof fn lemma_what_may_match(query: SongQuery, file: File, wanted: WantedFileTypes)
    ensures
        ({
            let kind = super::ranker::kind_of(file.name@);
            let may = super::ranker::eligible(query, file, wanted);
            &&& wanted is All && query.min_bitrate_kbps is None ==> may
            &&& wanted matches WantedFileTypes::Specific(types) ==> {
                &&& may ==> exists|k: int| 0 <= k < types@.len() && (#[trigger] types@[k])@ == kind
                &&& query.min_bitrate_kbps is None && (exists|k: int|
                    0 <= k < types@.len() && (#[trigger] types@[k])@ == kind) ==> may
            }
            &&& query.min_bitrate_kbps matches Some(min) ==> (!super::types::kind_is_lossless(kind)
                ==> {
                &&& file.attributes.bitrate is None ==> !may
                &&& file.attributes.bitrate matches Some(rate) ==> (rate < min ==> !may)
                &&& file.attributes.bitrate matches Some(rate) ==> (wanted is All && rate >= min
                    ==> may)
            })
            &&& wanted is All && super::types::kind_is_lossless(kind) ==> may
        }),
{
    let kind = super::ranker::kind_of(file.name@);
    match wanted {
        WantedFileTypes::Specific(types) => {
            let all = super::types::kinds(types@);
            if all.contains(kind) {
                let k = choose|k: int| 0 <= k < all.len() && all[k] == kind;
                assert(types@[k]@ == kind);
            }
            if exists|k: int| 0 <= k < types@.len() && (#[trigger] types@[k])@ == kind {
                let k = choose|k: int| 0 <= k < types@.len() && (#[trigger] types@[k])@ == kind;
                assert(all[k] == kind);
            }
        },
        WantedFileTypes::All => {},
    }
}

/// What the format of a file is worth: all of it where nothing is lost, and otherwise the
/// less the lower its bit rate; one that is not known counts as the lowest.
pub proof fn lemma_worth_of_formats(kind: FileKind, bitrate: Option<u32>)
    ensures
        ({
            let worth = super::ranker::format_worth(kind, bitrate);
            &&& kind is Flac || kind is Alac || kind is Wav || kind is Aiff ==> worth == 100
            &&& !(kind is Flac || kind is Alac || kind is Wav || kind is Aiff) ==> match bitrate {
                Some(rate) => {
                    &&& rate >= 320 <==> worth == 85
                    &&& 256 <= rate < 320 <==> worth == 70
                    &&& 192 <= rate < 256 <==> worth == 55
                    &&& rate < 192 <==> worth == 35
                },
                None => worth == 35,
            }
        }),
{
}

/// A comparison loses nothing for a title or an artist that are the same in their normal
/// form and something for any other; the artist counts only where the path tells it; and
/// a duration loses nothing within five seconds, everything from thirty on, and in between
/// a share that grows evenly.
pub proof fn lemma_comparison_says_how_near(
    query: SongQuery,
    names: TrackNames,
    attributes: FileAttributes,
    kind: FileKind,
    wanted: WantedFileTypes,
    c: Comparison,
)
    requires
        super::ranker::compares(query, names, attributes, kind, wanted, c),
    ensures
        c.title.lost == 0 <==> crate::text_match::normalized(query.title@)
            == crate::text_match::normalized(names.title),
        c.title.lost <= c.title.out_of,
        c.artist is Some <==> names.artist.len() > 0,
        c.artist matches Some(s) ==> (s.lost == 0 <==> crate::text_match::normalized(query.artist@)
            == crate::text_match::normalized(names.artist)),
        c.duration is Some <==> attributes.duration is Some && query.duration_secs is Some,
        c.duration matches Some(s) ==> {
            let actual = attributes.duration->0 as int;
            let asked = query.duration_secs->0 as int;
            let apart = if actual >= asked {
                actual - asked
            } else {
                asked - actual
            };
            &&& apart <= 5 ==> s.lost == 0
            &&& apart >= 30 ==> s.lost == s.out_of
            &&& 5 < apart < 30 ==> s.lost * 25 == s.out_of * (apart - 5)
        },
        c.format == super::ranker::format_worth(kind, attributes.bitrate),
        wanted is All ==> c.priority is None,
        wanted matches WantedFileTypes::Specific(types) ==> match c.priority {
            Some(i) => i < types@.len() && types@[i as int]@ == kind && (forall|k: int|
                0 <= k < i ==> (#[trigger] types@[k])@ != kind),
            None => forall|k: int| 0 <= k < types@.len() ==> (#[trigger] types@[k])@ != kind,
        },
{
    if c.duration is Some {
        let s = c.duration->0;
        let apart = crate::text_match::gap(
            attributes.duration->0 as int,
            query.duration_secs->0 as int,
        );
        if 5 < apart < 30 {
            assert(s.lost == apart - 5 && s.out_of == 25);
            assert(s.lost * 25 == s.out_of * (apart - 5)) by (nonlinear_arith)
                requires
                    s.lost == apart - 5,
                    s.out_of == 25,
            ;
        }
    }
    match wanted {
        WantedFileTypes::Specific(types) => {
            if c.priority is None {
                assert forall|k: int| 0 <= k < types@.len() implies (#[trigger] types@[k])@
                    != kind by {
                    if types@[k]@ == kind {
                        assert(super::types::kinds(types@)[k] == kind);
                    }
                }
            }
        },
        WantedFileTypes::All => {},
    }
    let a = crate::text_match::normalized(query.title@);
    let b = crate::text_match::normalized(names.title);
    if a != b {
        if crate::edit_distance::distance(a, b) == 0 {
            crate::edit_distance::lemma_distance_zero(a, b);
        }
    }
    if c.artist is Some {
        let x = crate::text_match::normalized(query.artist@);
        let y = crate::text_match::normalized(names.artist);
        if x != y {
            if crate::edit_distance::distance(x, y) == 0 {
                crate::edit_distance::lemma_distance_zero(x, y);
            }
        }
    }
}

/// A file that lies where its artist and album say, under its number and title, is compared
/// as the track it is: asked for by that title and that artist, it loses nothing for
/// either.
pub proof fn lemma_filed_track_matches_in_full(
    query: SongQuery,
    files: Seq<File>,
    wanted: WantedFileTypes,
    c: Candidate,
    share: Seq<char>,
    album: Seq<char>,
    number: Seq<char>,
    separators: Seq<char>,
    ext: Seq<char>,
)
    requires
        super::ranker::stands_for(query, files, wanted, c),
        files[c.file as int].name@ == share + seq!['\\'] + (query.artist@ + seq!['\\'] + (album
            + seq!['\\'] + (number + separators + query.title@ + seq!['.'] + ext))),
        !query.artist@.contains('\\'),
        !album.contains('\\'),
        !(number + separators + query.title@ + seq!['.'] + ext).contains('\\'),
        query.artist@.len() > 0,
        1 <= number.len() <= 3,
        forall|k: int| 0 <= k < number.len() ==> '0' <= #[trigger] number[k] && number[k] <= '9',
        forall|k: int|
            0 <= k < separators.len() ==> (#[trigger] separators[k] == '-' || separators[k] == '.'
                || separators[k] == ' '),
        super::parser_laws::is_name(query.title@),
        !query.title@.contains('-'),
        !ext.contains('.'),
    ensures
        c.comparison.title.lost == 0,
        c.comparison.artist matches Some(s) && s.lost == 0,
{
    super::parser_laws::lemma_filed_track_is_read(
        share,
        query.artist@,
        album,
        number,
        separators,
        query.title@,
        ext,
    );
}

/// The candidates are exactly the files that may match, each once and in the order in
/// which they are offered.
pub proof fn lemma_candidates_are_what_may_match(
    query: SongQuery,
    files: Seq<File>,
    wanted: WantedFileTypes,
    candidates: Seq<Candidate>,
    f: int,
)
    requires
        super::ranker::are_candidates(query, files, wanted, candidates),
        0 <= f < files.len(),
    ensures
        super::ranker::eligible(query, files[f], wanted) <==> exists|i: int|
            0 <= i < candidates.len() && (#[trigger] candidates[i]).file == f,
        forall|i: int, j: int|
            0 <= i < candidates.len() && 0 <= j < candidates.len() && i != j ==> (
            #[trigger] candidates[i]).file != (#[trigger] candidates[j]).file,
        forall|i: int, j: int|
            0 <= i < j < candidates.len() ==> (#[trigger] candidates[i]).file < (
            #[trigger] candidates[j]).file,
{
    if exists|i: int| 0 <= i < candidates.len() && (#[trigger] candidates[i]).file == f {
        let i = choose|i: int| 0 <= i < candidates.len() && (#[trigger] candidates[i]).file == f;
        assert(super::ranker::eligible(query, files[candidates[i].file as int], wanted));
    }
    assert forall|i: int, j: int|
        0 <= i < candidates.len() && 0 <= j < candidates.len() && i != j implies (
    #[trigger] candidates[i]).file != (#[trigger] candidates[j]).file by {
        if i < j {
            assert(candidates[i].file < candidates[j].file);
        } else {
            assert(candidates[j].file < candidates[i].file);
        }
    }
}

/// A result tells of the file it is: whose it is, its path, its size, its attributes and
/// its score.
pub proof fn lemma_result_tells_of_its_file(
    results: Seq<SongResult>,
    files: Seq<File>,
    candidates: Seq<Candidate>,
    scores: Seq<MatchScore>,
    order: Seq<usize>,
    i: int,
)
    requires
        super::ranker::are_results(results, files, candidates, scores, order),
        0 <= i < results.len(),
    ensures
        ({
            let c = order[i] as int;
            let file = files[candidates[c].file as int];
            &&& results[i].username == file.username
            &&& results[i].filename == file.name
            &&& results[i].size == file.size
            &&& results[i].file_type == candidates[c].file_type
            &&& results[i].bitrate == file.attributes.bitrate
            &&& results[i].duration == file.attributes.duration
            &&& results[i].sample_rate == file.attributes.sample_rate
            &&& results[i].bit_depth == file.attributes.bit_depth
            &&& results[i].vbr == file.attributes.vbr
            &&& results[i].score == scores[c]
        }),
{
    let c = order[i] as int;
    assert(super::ranker::is_result(
        results[i],
        files[candidates[c].file as int],
        candidates[c],
        scores[c],
    ));
}

/// A candidate is among the results exactly where it scores at least one half, and then
/// once; of two results the one with the higher score comes first, and of equal ones the
/// one that was offered first.
pub proof fn lemma_ranked_by_score(
    results: Seq<SongResult>,
    files: Seq<File>,
    candidates: Seq<Candidate>,
    scores: Seq<MatchScore>,
    order: Seq<usize>,
    c: int,
)
    requires
        super::ranker::are_results(results, files, candidates, scores, order),
        0 <= c < scores.len(),
    ensures
        scores[c].bits >= 0x3FE0_0000_0000_0000 <==> exists|i: int|
            0 <= i < results.len() && (#[trigger] order[i]) == c,
        forall|i: int, j: int|
            0 <= i < j < results.len() ==> {
                let a = (#[trigger] order[i]) as int;
                let b = (#[trigger] order[j]) as int;
                scores[a].bits > scores[b].bits || scores[a].bits == scores[b].bits && a < b
            },
{
    if exists|i: int| 0 <= i < results.len() && (#[trigger] order[i]) == c {
        let i = choose|i: int| 0 <= i < results.len() && (#[trigger] order[i]) == c;
        assert(super::ranker::high_enough(scores[order[i] as int]));
    }
    if scores[c].bits >= 0x3FE0_0000_0000_0000 {
        assert(super::ranker::high_enough(scores[c]));
    }
    assert forall|i: int, j: int| 0 <= i < j < results.len() implies {
        let a = (#[trigger] order[i]) as int;
        let b = (#[trigger] order[j]) as int;
        scores[a].bits > scores[b].bits || scores[a].bits == scores[b].bits && a < b
    } by {
        assert(super::ranker::before(scores, order[i] as int, order[j] as int));
    }
}

/// What each part of a comparison weighs: the title most, then the artist, then the
/// format, then the duration.
pub proof fn lemma_what_the_parts_weigh()
    ensures
        super::ranker::TITLE_WEIGHT == 45,
        super::ranker::ARTIST_WEIGHT == 30,
        super::ranker::FORMAT_WEIGHT == 15,
        super::ranker::DURATION_WEIGHT == 10,
        super::ranker::UNKNOWN_WORTH == 50,
        super::ranker::PRIORITY_STEP == 5,
        super::ranker::PRIORITY_CAP == 40,
        super::ranker::MIN_SCORE_BITS == 0x3FE0_0000_0000_0000,
{
}

/// What is offered is ranked by score: no result scores less than one half or more than one
/// before it, each tells of the file of a candidate with its score, and no candidate that
/// scores one half or more is left out.
pub proof fn lemma_results_are_ranked(
    files: Vec<File>,
    candidates: Vec<Candidate>,
    scores: Vec<MatchScore>,
    r: Vec<SongResult>,
    i: int,
    j: int,
    c: int,
)
    requires
        call_ensures(super::ranker::rank_results, (&files, &candidates, &scores), r),
        candidates@.len() == scores@.len(),
        0 <= i < j < r@.len(),
        0 <= c < scores@.len(),
    ensures
        r@[i].score.bits >= r@[j].score.bits,
        r@[j].score.bits >= 0x3FE0_0000_0000_0000,
        exists|k: int|
            0 <= k < candidates@.len() && r@[i].filename == files@[(
            #[trigger] candidates@[k]).file as int].name && r@[i].username
                == files@[candidates@[k].file as int].username && r@[i].score == scores@[k],
        scores@[c].bits >= 0x3FE0_0000_0000_0000 ==> exists|k: int|
            0 <= k < r@.len() && (#[trigger] r@[k]).score == scores@[c] && r@[k].filename
                == files@[candidates@[c].file as int].name,
{
    let order = choose|order: Seq<usize>|
        super::ranker::are_results(r@, files@, candidates@, scores@, order);
    lemma_ranked_by_score(r@, files@, candidates@, scores@, order, c);
    lemma_result_tells_of_its_file(r@, files@, candidates@, scores@, order, i);
    lemma_result_tells_of_its_file(r@, files@, candidates@, scores@, order, j);
    assert(order[i] < scores@.len() && order[j] < scores@.len());
    let k = order[i] as int;
    assert(r@[i].filename == files@[candidates@[k].file as int].name);
    if scores@[c].bits >= 0x3FE0_0000_0000_0000 {
        let l = choose|l: int| 0 <= l < r@.len() && (#[trigger] order[l]) == c;
        lemma_result_tells_of_its_file(r@, files@, candidates@, scores@, order, l);
        assert(r@[l].score == scores@[c]);
    }
}

} // verus!
