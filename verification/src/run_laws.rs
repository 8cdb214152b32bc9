//! What fetching a list of tracks comes to, told by what happens and what is done.
use vstd::prelude::*;

use crate::downloader::{Phase, RunAction, RunEvent, RunModel, SkipReason};

verus! {

/// A run begins with the first track that is not there yet, and with none where all are
/// there.
pub proof fn lemma_first_missing_track_comes_first(m: RunModel, from: int, t: int)
    requires
        0 <= from <= m.done.len() <= usize::MAX,
        m.max_retries > 0,
    ensures
        from <= t < m.done.len() && !m.done[t] && (forall|k: int|
            from <= k < t ==> #[trigger] m.done[k]) ==> {
            let (after, actions) = m.from_track(from);
            &&& after.track == t
            &&& after.retry == 0
            &&& after.phase == Phase::Searching
            &&& after.done == m.done
            &&& actions.last() == (RunAction::Search { track: t as usize })
        },
        (forall|k: int| from <= k < m.done.len() ==> #[trigger] m.done[k]) ==> {
            let (after, actions) = m.from_track(from);
            &&& after.phase == Phase::Over
            &&& after.done == m.done
            &&& actions.last() == RunAction::Finish
        },
    decreases m.done.len() - from,
{
    if from < m.done.len() && m.done[from] {
        lemma_first_missing_track_comes_first(m, from + 1, t);
        let (after, rest) = m.from_track(from + 1);
        lemma_something_is_done(m, from + 1);
        let actions = m.from_track(from).1;
        assert(actions.last() == rest.last());
    }
}

proof fn lemma_something_is_done(m: RunModel, from: int)
    ensures
        m.from_track(from).1.len() > 0,
    decreases m.done.len() - from,
{
    if from < m.done.len() && (m.done[from] || m.max_retries == 0) {
        lemma_something_is_done(m, from + 1);
    }
}

/// What a search finds is tried from the best candidate on.
pub proof fn lemma_best_candidate_is_tried_first(m: RunModel, count: usize)
    requires
        m.phase == Phase::Searching,
        count > 0,
    ensures
        ({
            let (after, actions) = m.step(RunEvent::Found { count });
            &&& after == (RunModel { phase: Phase::Requesting { candidate: 0, count }, ..m })
            &&& actions.last() == (RunAction::Request { candidate: 0 })
        }),
{
}

/// A candidate that cannot be asked for, takes too long, is cancelled or falls silent gives
/// way to the next best; the track is not marked.
pub proof fn lemma_next_candidate_has_its_turn(
    m: RunModel,
    candidate: usize,
    count: usize,
    event: RunEvent,
)
    requires
        candidate + 1 < count,
        (m.phase == (Phase::Requesting { candidate, count }) && event is RequestFailed) || ((m.phase
            == (Phase::Receiving { candidate, count, bar: true }) || m.phase == (
        Phase::Receiving { candidate, count, bar: false })) && (event is TimedOut || event
            is Cancelled || event is Closed)),
    ensures
        ({
            let (after, actions) = m.step(event);
            &&& after.phase == (Phase::Requesting { candidate: (candidate + 1) as usize, count })
            &&& after.track == m.track
            &&& after.retry == m.retry
            &&& after.done == m.done
            &&& actions.last() == (RunAction::Request { candidate: (candidate + 1) as usize })
        }),
{
}

/// A candidate that was asked for is waited for.
pub proof fn lemma_requested_candidate_is_awaited(m: RunModel, candidate: usize, count: usize)
    requires
        m.phase == (Phase::Requesting { candidate, count }),
    ensures
        ({
            let (after, actions) = m.step(RunEvent::Requested);
            &&& after.phase == (Phase::Receiving { candidate, count, bar: false })
            &&& after.done == m.done
            &&& actions == seq![RunAction::Receive]
        }),
{
}

/// A track that has come is marked, and it alone; the list is saved before anything else is
/// done, and the next missing track has its turn.
pub proof fn lemma_complete_track_is_marked(
    m: RunModel,
    candidate: usize,
    count: usize,
    bar: bool,
)
    requires
        m.phase == (Phase::Receiving { candidate, count, bar }),
        0 <= m.track < m.done.len() <= usize::MAX,
        m.max_retries > 0,
    ensures
        ({
            let (after, actions) = m.step(RunEvent::Completed);
            &&& after.done.len() == m.done.len()
            &&& after.done[m.track]
            &&& forall|k: int|
                0 <= k < m.done.len() && k != m.track ==> #[trigger] after.done[k] == m.done[k]
            &&& actions[0] == RunAction::SaveTracks
            &&& after.track > m.track
            &&& after.phase == Phase::Searching ==> !after.done[after.track] && (forall|k: int|
                m.track <= k < after.track ==> #[trigger] after.done[k])
            &&& after.phase == Phase::Searching || after.phase == Phase::Over
            &&& after.phase == Phase::Over ==> forall|k: int|
                m.track <= k < m.done.len() ==> #[trigger] after.done[k]
        }),
{
    let marked = RunModel { done: m.done.update(m.track, true), ..m };
    lemma_goes_to_the_next_missing(marked, m.track + 1);
    let (after, actions) = m.step(RunEvent::Completed);
    assert(after == marked.from_track(m.track + 1).0);
    assert forall|k: int|
        0 <= k < m.done.len() && k != m.track implies #[trigger] after.done[k] == m.done[k] by {
        assert(marked.done[k] == m.done[k]);
    }
    assert(marked.done[m.track]);
}

proof fn lemma_goes_to_the_next_missing(m: RunModel, from: int)
    requires
        0 <= from <= m.done.len() <= usize::MAX,
        m.max_retries > 0,
    ensures
        ({
            let after = m.from_track(from).0;
            &&& after.done == m.done
            &&& after.track >= from
            &&& after.phase == Phase::Searching || after.phase == Phase::Over
            &&& after.phase == Phase::Searching ==> after.track < m.done.len()
                && !m.done[after.track]
            &&& forall|k: int| from <= k < after.track && k < m.done.len() ==> #[trigger] m.done[k]
            &&& after.phase == Phase::Over ==> after.track >= m.done.len()
        }),
    decreases m.done.len() - from,
{
    if from < m.done.len() && m.done[from] {
        lemma_goes_to_the_next_missing(m, from + 1);
    }
}

/// A search that leads to nothing, since nothing was found or the peer failed, is made
/// again as often as is allowed, for the same track; the track is not marked.
pub proof fn lemma_search_is_made_again(m: RunModel, event: RunEvent)
    requires
        0 <= m.track < m.done.len() <= usize::MAX,
        0 <= m.retry,
        m.retry + 1 < m.max_retries <= u32::MAX,
        (m.phase == Phase::Searching && (event is SearchFailed || (event matches RunEvent::Found {
            count,
        } && count == 0))) || (m.phase is Receiving && event is Failed),
    ensures
        ({
            let (after, actions) = m.step(event);
            &&& after.track == m.track
            &&& after.retry == m.retry + 1
            &&& after.phase == Phase::Searching
            &&& after.done == m.done
            &&& actions.last() == (RunAction::Search { track: m.track as usize })
        }),
{
}

/// After as many searches as are allowed a track is given up, unmarked, and the next has
/// its turn; that nothing was found is said.
pub proof fn lemma_track_is_given_up(m: RunModel, event: RunEvent)
    requires
        0 <= m.track < m.done.len() <= usize::MAX,
        m.retry + 1 == m.max_retries,
        m.max_retries > 0,
        m.phase == Phase::Searching,
        event is SearchFailed || (event matches RunEvent::Found { count } && count == 0),
    ensures
        ({
            let (after, actions) = m.step(event);
            &&& after.done == m.done
            &&& after.track > m.track
            &&& actions.len() > 1
            &&& actions[1] == (RunAction::SayGivenUp {
                track: m.track as usize,
                error: match event {
                    RunEvent::SearchFailed { error } => Some(error),
                    _ => None,
                },
            })
        }),
{
    lemma_goes_to_the_next_missing(m, m.track + 1);
}

/// Why a candidate is left is said as it was.
pub proof fn lemma_reason_is_said(m: RunModel, candidate: usize, count: usize, bar: bool)
    requires
        m.phase == (Phase::Receiving { candidate, count, bar }),
    ensures
        m.step(RunEvent::Failed).1[0] == (RunAction::SkipCandidate {
            candidate,
            reason: SkipReason::DownloadFailed,
        }),
        m.step(RunEvent::TimedOut).1[0] == (RunAction::SkipCandidate {
            candidate,
            reason: SkipReason::TimedOut,
        }),
        m.step(RunEvent::Cancelled).1[0] == (RunAction::SkipCandidate {
            candidate,
            reason: SkipReason::Cancelled,
        }),
{
}

/// News of a candidate that is under way change nothing but what is shown: it is waited on.
pub proof fn lemma_news_are_waited_on(
    m: RunModel,
    candidate: usize,
    count: usize,
    bar: bool,
    event: RunEvent,
)
    requires
        m.phase == (Phase::Receiving { candidate, count, bar }),
        event is QueuedLocally || event is QueuedRemotely || event is InProgress,
    ensures
        ({
            let (after, actions) = m.step(event);
            &&& after.track == m.track && after.retry == m.retry && after.done == m.done
            &&& after.phase matches Phase::Receiving { candidate: c, count: n, .. }
            &&& c == candidate && n == count
            &&& actions.last() == RunAction::Receive
            &&& event matches RunEvent::InProgress { bytes_downloaded, total_bytes } ==> (bar
                ==> actions[0] == (RunAction::MoveBar { bytes_downloaded, total_bytes }))
            &&& event matches RunEvent::QueuedRemotely { place } ==> actions[0] == (
            RunAction::ShowQueuedRemotely { place })
        }),
{
}

/// What the user sees follows what happens: a bar is opened at the first progress, and closed
/// when its candidate is left or completed when its track has come, and is not shown
/// otherwise; a candidate that cannot be asked for is left with what was reported.
pub proof fn lemma_what_is_shown(
    m: RunModel,
    candidate: usize,
    count: usize,
    bar: bool,
    bytes_downloaded: u64,
    total_bytes: u64,
)
    requires
        m.phase == (Phase::Receiving { candidate, count, bar }),
        0 <= m.track < m.done.len() <= usize::MAX,
        candidate + 1 < count,
    ensures
        m.step(RunEvent::QueuedLocally).1 == seq![
            RunAction::ShowQueuedLocally,
            RunAction::Receive,
        ],
        !bar ==> ({
            let (after, actions) = m.step(RunEvent::InProgress { bytes_downloaded, total_bytes });
            &&& after.phase == (Phase::Receiving { candidate, count, bar: true })
            &&& actions == seq![RunAction::OpenBar, RunAction::Receive]
        }),
        bar ==> m.step(RunEvent::InProgress { bytes_downloaded, total_bytes }).0 == m,
        bar <==> m.step(RunEvent::Failed).1[1] is CloseBar,
        bar <==> m.step(RunEvent::TimedOut).1[1] is CloseBar,
        bar <==> m.step(RunEvent::Cancelled).1[1] is CloseBar,
        bar ==> m.step(RunEvent::Completed).1[1] == (RunAction::CompleteBar {
            track: m.track as usize,
        }),
        ({
            let actions = m.step(RunEvent::Completed).1;
            let n = if bar {
                2int
            } else {
                1int
            };
            &&& actions.len() > n + 2
            &&& actions[n] is HideSearch
            &&& actions[n + 1] is TrackOver
        }),
        m.step(RunEvent::Closed).1 == seq![
            RunAction::ShowCandidate { candidate: (candidate + 1) as usize, count },
            RunAction::Request { candidate: (candidate + 1) as usize },
        ],
{
    let marked = RunModel { done: m.done.update(m.track, true), ..m };
    lemma_something_is_done(marked, m.track + 1);
    let actions = m.step(RunEvent::Completed).1;
    let rest = marked.from_track(m.track + 1).1;
    let head = seq![RunAction::SaveTracks] + if bar {
        seq![RunAction::CompleteBar { track: m.track as usize }]
    } else {
        Seq::empty()
    };
    assert(actions =~= head + seq![RunAction::HideSearch, RunAction::TrackOver] + rest);
}

/// A candidate that cannot be asked for is left, and what was reported is said; what is
/// found is shown before it is asked for.
pub proof fn lemma_what_cannot_be_asked_for_is_said(
    m: RunModel,
    candidate: usize,
    count: usize,
    error: String,
)
    requires
        candidate < count,
    ensures
        m.phase == (Phase::Requesting { candidate, count }) ==> ({
            let actions = m.step(RunEvent::RequestFailed { error }).1;
            actions.len() > 0 && actions[0] == (RunAction::SkipCandidate {
                candidate,
                reason: SkipReason::CouldNotInitiate { error },
            })
        }),
        m.phase == Phase::Searching ==> m.step(RunEvent::Found { count }).1 == seq![
            RunAction::ShowCandidate { candidate: 0, count },
            RunAction::Request { candidate: 0 },
        ],
{
}

/// A search that is made again is shown with how often it has been, after the one before is
/// hidden.
pub proof fn lemma_search_again_is_shown(m: RunModel, error: String)
    requires
        m.phase == Phase::Searching,
        0 <= m.track < m.done.len() <= usize::MAX,
        0 <= m.retry,
        m.retry + 1 < m.max_retries <= u32::MAX,
    ensures
        m.step(RunEvent::SearchFailed { error }).1 == seq![
            RunAction::HideSearch,
            RunAction::ShowSearch { track: m.track as usize, retry: (m.retry + 1) as u32 },
            RunAction::Search { track: m.track as usize },
        ],
{
    assert(m.step(RunEvent::SearchFailed { error }).1 =~= seq![
        RunAction::HideSearch,
        RunAction::ShowSearch { track: m.track as usize, retry: (m.retry + 1) as u32 },
        RunAction::Search { track: m.track as usize },
    ]);
}

} // verus!
