//! Asking AcoustID, and choosing among what it answers.
use vstd::prelude::*;

use super::error::Error;
use crate::text::{append_str, decimal_chars, from_chars};

verus! {

/// What AcoustID answers.
#[derive(Debug)]
pub struct Response {
    pub results: Vec<ResultItem>,
    pub status: String,
}

/// A track that may be the one asked for. The greater the score, the better the
/// match; only the order of scores matters.
#[derive(Debug)]
pub struct ResultItem {
    pub id: String,
    pub recordings: Vec<Recording>,
    pub score: u64,
}

/// A recording of a track.
#[derive(Debug)]
pub struct Recording {
    pub id: String,
    /// By how much its length misses that of the file, where its length is known;
    /// only the order matters.
    pub duration_gap: Option<u64>,
}

/// The address that answers for a fingerprint.
pub fn lookup_url(api_key: &str, fingerprint: &str, duration: u32) -> (r: String)
    ensures
        r@ == "https://api.acoustid.org/v2/lookup?client="@ + api_key@
            + "&meta=recordings&duration="@ + crate::text::decimal(duration as nat)
            + "&fingerprint="@ + fingerprint@,
{
    let mut out = append_str("https://api.acoustid.org/v2/lookup?client=", api_key);
    out.append("&meta=recordings&duration=");
    out.append(from_chars(&decimal_chars(duration as u64)).as_str());
    out.append("&fingerprint=");
    out.append(fingerprint);
    out
}

/// The result with the greatest score, the last of those that share it.
pub open spec fn is_best_result(results: Seq<ResultItem>, i: int) -> bool {
    &&& 0 <= i < results.len()
    &&& forall|j: int|
        0 <= j < results.len() ==> (#[trigger] results[j]).score <= results[i].score
    &&& forall|j: int| i < j < results.len() ==> (#[trigger] results[j]).score < results[i].score
}

/// One recording is nearer in length than another; one of unknown length is
/// farther than any of known length.
pub open spec fn nearer(a: Recording, b: Recording) -> bool {
    match (a.duration_gap, b.duration_gap) {
        (Some(x), Some(y)) => x < y,
        (Some(_), None) => true,
        (None, _) => false,
    }
}

/// The nearest recording, the first of those that are as near.
pub open spec fn is_best_recording(recordings: Seq<Recording>, i: int) -> bool {
    &&& 0 <= i < recordings.len()
    &&& forall|j: int|
        0 <= j < recordings.len() ==> !nearer(#[trigger] recordings[j], recordings[i])
    &&& forall|j: int| 0 <= j < i ==> nearer(recordings[i], #[trigger] recordings[j])
}

/// The best result; an error where there is none.
pub fn best_result(results: &Vec<ResultItem>) -> (r: Result<usize, Error>)
    ensures
        match r {
            Ok(i) => is_best_result(results@, i as int),
            Err(e) => results@.len() == 0 && e == Error::AcoustIdNoResults,
        },
{
    let n: usize = results.len();
    if n == 0 {
        return Err(Error::AcoustIdNoResults);
    }
    let mut best: usize = 0;
    let mut i: usize = 1;
    while i < n
        invariant
            n == results@.len(),
            1 <= i <= n,
            best < i,
            is_best_result(results@.take(i as int), best as int),
        decreases n - i,
    {
        let ghost so_far = results@.take(i as int);
        let ghost next = results@.take(i + 1);
        assert(forall|j: int| 0 <= j < i ==> next[j] == so_far[j]);
        assert(next[i as int] == results@[i as int]);
        let ghost old_best = best;
        if results[best].score <= results[i].score {
            best = i;
        }
        proof {
            assert forall|j: int| 0 <= j < next.len() implies (#[trigger] next[j]).score
                <= next[best as int].score by {
                if j < i {
                    assert(so_far[j].score <= so_far[old_best as int].score);
                }
            }
            assert forall|j: int| best < j < next.len() implies (#[trigger] next[j]).score
                < next[best as int].score by {
                if j < i {
                    assert(so_far[j].score < so_far[old_best as int].score);
                }
            }
        }
        i += 1;
    }
    assert(results@.take(i as int) =~= results@);
    Ok(best)
}

fn is_nearer(a: &Recording, b: &Recording) -> (r: bool)
    ensures
        r == nearer(*a, *b),
{
    match (a.duration_gap, b.duration_gap) {
        (Some(x), Some(y)) => x < y,
        (Some(_), None) => true,
        (None, _) => false,
    }
}

/// The nearest recording; an error where there is none.
pub fn best_recording(recordings: &Vec<Recording>) -> (r: Result<usize, Error>)
    ensures
        match r {
            Ok(i) => is_best_recording(recordings@, i as int),
            Err(e) => recordings@.len() == 0 && e == Error::AcoustIdNoRecordings,
        },
{
    let n: usize = recordings.len();
    if n == 0 {
        return Err(Error::AcoustIdNoRecordings);
    }
    let mut best: usize = 0;
    let mut i: usize = 1;
    while i < n
        invariant
            n == recordings@.len(),
            1 <= i <= n,
            best < i,
            is_best_recording(recordings@.take(i as int), best as int),
        decreases n - i,
    {
        let ghost so_far = recordings@.take(i as int);
        let ghost next = recordings@.take(i + 1);
        assert(forall|j: int| 0 <= j < i ==> next[j] == so_far[j]);
        assert(next[i as int] == recordings@[i as int]);
        let ghost old_best = best;
        if is_nearer(&recordings[i], &recordings[best]) {
            best = i;
        }
        proof {
            assert forall|j: int| 0 <= j < next.len() implies !nearer(
                #[trigger] next[j],
                next[best as int],
            ) by {
                if j < i {
                    assert(!nearer(so_far[j], so_far[old_best as int]));
                }
            }
            assert forall|j: int| 0 <= j < best implies nearer(
                next[best as int],
                #[trigger] next[j],
            ) by {
                if j < i {
                    assert(!nearer(so_far[j], so_far[old_best as int]));
                    if j < old_best {
                        assert(nearer(so_far[old_best as int], so_far[j]));
                    }
                }
            }
        }
        i += 1;
    }
    assert(recordings@.take(i as int) =~= recordings@);
    Ok(best)
}

/// The identifier of the recording to go by: the nearest recording of the best
/// result.
pub fn choose_recording(response: &Response) -> (r: Result<String, Error>)
    ensures
        match r {
            Ok(id) => exists|i: int, j: int|
                {
                    &&& #[trigger] is_best_result(response.results@, i)
                    &&& #[trigger] is_best_recording(response.results@[i].recordings@, j)
                    &&& id == response.results@[i].recordings@[j].id
                },
            Err(e) => {
                ||| response.results@.len() == 0 && e == Error::AcoustIdNoResults
                ||| {
                    &&& e == Error::AcoustIdNoRecordings
                    &&& exists|i: int|
                        #[trigger] is_best_result(response.results@, i)
                            && response.results@[i].recordings@.len() == 0
                }
            },
        },
{
    match best_result(&response.results) {
        Ok(i) => match best_recording(&response.results[i].recordings) {
            Ok(j) => Ok(response.results[i].recordings[j].id.clone()),
            Err(e) => Err(e),
        },
        Err(e) => Err(e),
    }
}

/// There is only one best result, and only one nearest recording.
pub proof fn lemma_choice_is_unique(
    results: Seq<ResultItem>,
    recordings: Seq<Recording>,
    i: int,
    j: int,
)
    ensures
        is_best_result(results, i) && is_best_result(results, j) ==> i == j,
        is_best_recording(recordings, i) && is_best_recording(recordings, j) ==> i == j,
{
    if is_best_result(results, i) && is_best_result(results, j) {
        if i < j {
            assert(results[j].score < results[i].score);
            assert(results[i].score <= results[j].score);
        }
        if j < i {
            assert(results[i].score < results[j].score);
            assert(results[j].score <= results[i].score);
        }
    }
    if is_best_recording(recordings, i) && is_best_recording(recordings, j) {
        if i < j {
            assert(nearer(recordings[j], recordings[i]));
            assert(!nearer(recordings[j], recordings[i]));
        }
        if j < i {
            assert(nearer(recordings[i], recordings[j]));
            assert(!nearer(recordings[i], recordings[j]));
        }
    }
}

} // verus!
