//! What clients and workers hand back, told by what they are asked.
use vstd::prelude::*;

use super::counted::WorkerOperation;
use super::operation::{ClientAction, ClientOperation};
use super::session::ClientState;
use super::slots::{SlotAction, SlotOperation, TrackedDownload};
use crate::soulseek::actor::server_actor::ServerMessage;
use crate::soulseek::download_peer::DownloadError;
use crate::soulseek::error::{Result, SoulseekRs};
use crate::soulseek::path::SoulseekPath;
use crate::soulseek::token::{DownloadToken, PeerTransferToken};
use crate::soulseek::types::{Download, DownloadStatus, SearchResult, StatusChannel};

verus! {

// ---- downloads that have ended ------------------------------------------------------------

/// The caller of a download that has ended hears of it first from the worker that holds its
/// slot: that it is complete exactly where it ended well, and otherwise what stopped it.
pub proof fn lemma_slot_worker_tells_the_caller(
    w: &mut super::slots::ConnectedWorker,
    token: DownloadToken,
    outcome: Result<String>,
    peer_known: bool,
    i: int,
    r: Vec<SlotAction>,
)
    requires
        call_ensures(
            super::slots::ConnectedWorker::handle_operation,
            (w, SlotOperation::DownloadCompleted(token, outcome), peer_known),
            r,
        ),
        0 <= i < old(w)@.downloads.len(),
        old(w)@.downloads[i].download.token == token,
        forall|j: int| 0 <= j < i ==> (#[trigger] old(w)@.downloads[j]).download.token != token,
    ensures
        r@.len() > 0,
        r@[0] matches SlotAction::Notify { channel, status } && channel
            == old(w)@.downloads[i].download.sender && (status == DownloadStatus::Completed
            <==> outcome is Ok) && (status == DownloadStatus::Cancelled <==> outcome == Err::<
            String,
            SoulseekRs,
        >(SoulseekRs::DownloadCancelled)) && (status == DownloadStatus::TimedOut <==> outcome
            == Err::<String, SoulseekRs>(SoulseekRs::DownloadTimedOut)),
{
    super::slot_laws::lemma_caller_is_told_how_it_ended(old(w)@, token, outcome, peer_known, i);
}

/// The caller of a download that has ended hears of it first from the worker that counts:
/// that it is complete exactly where it ended well, and that it failed otherwise.
pub proof fn lemma_counting_worker_tells_the_caller(
    w: &mut super::counted::ConnectedWorker,
    token: DownloadToken,
    outcome: Result<String>,
    peer_known: bool,
    i: int,
    r: Vec<ClientAction>,
)
    requires
        call_ensures(
            super::counted::ConnectedWorker::handle_operation,
            (w, WorkerOperation::DownloadCompleted(token, outcome), peer_known),
            r,
        ),
        0 <= i < old(w)@.context.downloads.len(),
        old(w)@.context.downloads[i].token == token,
        forall|j: int| 0 <= j < i ==> (#[trigger] old(w)@.context.downloads[j]).token != token,
    ensures
        r@.len() > 0,
        r@[0] matches ClientAction::Notify { channel, status } && channel
            == old(w)@.context.downloads[i].sender && (status == DownloadStatus::Completed
            <==> outcome is Ok) && (status == DownloadStatus::Failed <==> outcome is Err),
{
    super::counted_laws::lemma_caller_is_told_how_it_ended(old(w)@, token, outcome, peer_known, i);
}

/// A file that was known and has been fetched is complete; one that could not be fetched has
/// failed. Its caller is told so, and then the slot is free.
pub proof fn lemma_direct_fetch_is_told(
    c: &mut super::session::Client,
    asked: Download,
    fetched: Option<Download>,
    r: Vec<ClientAction>,
)
    requires
        call_ensures(super::session::Client::direct_fetch_ended, (c, &asked, fetched), r),
    ensures
        r@.len() >= 1,
        fetched matches Some(d) ==> r@[0] == (ClientAction::Notify {
            channel: d.sender,
            status: DownloadStatus::Completed,
        }),
        fetched is None ==> r@[0] == (ClientAction::Notify {
            channel: asked.sender,
            status: DownloadStatus::Failed,
        }),
        old(c)@.context.sender matches Some(operations) ==> r@.len() == 2 && r@[1] == (
        ClientAction::FreeSlot { operations }),
        old(c)@.context.sender is None ==> r@.len() == 1,
{
}

/// A file that the peer named and that has been fetched is complete, and its caller is told;
/// of one that could not be fetched nobody is told. Either way the slot is free.
pub proof fn lemma_pierced_fetch_is_told(
    c: &mut super::session::Client,
    fetched: Option<Download>,
    r: Vec<ClientAction>,
)
    requires
        call_ensures(super::session::Client::pierced_fetch_ended, (c, fetched), r),
        old(c)@.context.sender is Some,
    ensures
        r@.len() > 0,
        r@.last() == (ClientAction::FreeSlot { operations: old(c)@.context.sender->0 }),
        fetched matches Some(d) ==> r@.len() == 2 && r@[0] == (ClientAction::Notify {
            channel: d.sender,
            status: DownloadStatus::Completed,
        }),
        fetched is None ==> r@.len() == 1,
{
}

/// A request that could not be passed on has failed, and its caller is told.
pub proof fn lemma_refused_request_is_told(
    c: &mut super::session::Client,
    download: Download,
    r: Vec<ClientAction>,
)
    requires
        call_ensures(super::session::Client::upload_refused, (c, &download), r),
    ensures
        r@.len() == 1,
        r@[0] == (ClientAction::Notify {
            channel: download.sender,
            status: DownloadStatus::Failed,
        }),
{
}

/// The worker that counts is told of the end of a fetch under the token of its download,
/// with the path where it went well and with an error where it did not; of a file that the
/// peer never named, that it no longer counts.
pub proof fn lemma_counting_worker_is_told(
    token: DownloadToken,
    fetched: core::result::Result<String, DownloadError>,
    named: core::result::Result<(DownloadToken, String), DownloadError>,
    direct: WorkerOperation,
    pierced: WorkerOperation,
)
    requires
        call_ensures(super::counted::direct_fetch_ended, (token, fetched), direct),
        call_ensures(super::counted::pierced_fetch_ended, (named,), pierced),
    ensures
        direct matches WorkerOperation::DownloadCompleted(t, outcome) && t == token && (outcome
            is Ok <==> fetched is Ok),
        fetched matches Ok(path) ==> direct == WorkerOperation::DownloadCompleted(token, Ok(path)),
        named matches Ok(n) ==> pierced == WorkerOperation::DownloadCompleted(n.0, Ok(n.1)),
        named is Err ==> pierced is PierceFirewallPreTokenFailed,
{
}

/// A file that came over a connection that the peer made is complete, and its caller is
/// told.
pub proof fn lemma_incoming_fetch_is_told(
    context: &mut super::context::ClientContext,
    fetched: Option<Download>,
    r: Option<(StatusChannel, DownloadStatus)>,
)
    requires
        call_ensures(
            crate::soulseek::listen::incoming_fetch_ended,
            (context, &fetched),
            r,
        ),
    ensures
        fetched matches Some(d) ==> r == Some((d.sender, DownloadStatus::Completed)),
        fetched is None ==> r is None,
{
}

/// A file that a worker was asked for is complete where it was fetched: its caller is told,
/// and the worker with its token and path. Where it was not, the worker alone is told, with
/// the token that was asked for.
pub proof fn lemma_asked_fetch_is_told(
    asked: DownloadToken,
    outcome: core::result::Result<(Download, String), DownloadError>,
    r: (Option<(StatusChannel, DownloadStatus)>, WorkerOperation),
)
    requires
        call_ensures(crate::soulseek::listen::asked_fetch_ended, (asked, outcome), r),
    ensures
        outcome matches Ok(o) ==> r.0 == Some((o.0.sender, DownloadStatus::Completed)) && r.1
            == WorkerOperation::DownloadCompleted(o.0.token, Ok(o.1)),
        outcome is Err ==> r.0 is None && (r.1 matches WorkerOperation::DownloadCompleted(t, e) && t
            == asked && e is Err),
{
}

// ---- what is asked for --------------------------------------------------------------------

/// A download that a connected client is asked for is entered as it was asked for, and its
/// peer is asked for the file where a slot is free.
pub proof fn lemma_download_is_asked_for(
    c: &mut super::session::Client,
    filename: SoulseekPath,
    username: String,
    size: u64,
    download_directory: String,
    channel: StatusChannel,
    r: (Download, Vec<ClientAction>),
)
    requires
        call_ensures(
            super::session::Client::download,
            (c, filename, username, size, download_directory, channel),
            r,
        ),
    ensures
        r.0.filename == filename,
        r.0.username == username,
        r.0.size == size,
        r.0.download_directory == download_directory,
        r.0.sender == channel,
        r.0.status == DownloadStatus::Queued,
        old(c)@.state != ClientState::Connected ==> r.1@.len() == 0,
        old(c)@.state == ClientState::Connected && old(c)@.context.peer_registry is Some
            && old(c)@.slots is None ==> r.1@ == seq![
            ClientAction::QueueUpload { username, filename },
        ],
        old(c)@.state == ClientState::Connected && old(c)@.context.peer_registry is Some ==> (
        old(c)@.slots matches Some(s) ==> r.1@ == if s.active < s.max_concurrent {
            seq![ClientAction::QueueUpload { username, filename }]
        } else {
            Seq::empty()
        }),
        old(c)@.state == ClientState::Connected && old(c)@.context.peer_registry is None ==> r.1@
            == seq![ClientAction::Notify { channel, status: DownloadStatus::Failed }],
{
}

/// A search is asked of the server with its words, where there is a connection, and refused
/// where there is none.
pub proof fn lemma_search_is_asked_for(
    c: &mut super::session::Client,
    query: &str,
    r: Result<ServerMessage>,
)
    requires
        call_ensures(super::session::Client::search, (c, query), r),
    ensures
        r is Ok <==> old(c)@.server_handle is Some,
        r matches Ok(m) ==> (m matches ServerMessage::FileSearch { query: words, .. } && words@
            == query@),
        r matches Err(e) ==> e == SoulseekRs::NotConnected,
{
}

/// The answers to a search are those of the first search with its words, and their number is
/// how many there are; of a search that was not made there are none.
pub proof fn lemma_answers_are_found(
    c: super::session::Client,
    words: &str,
    i: int,
    count: usize,
    found: Vec<SearchResult>,
    tried: Option<Vec<SearchResult>>,
)
    requires
        call_ensures(super::session::Client::get_search_results_count, (&c, words), count),
        call_ensures(super::session::Client::get_search_results, (&c, words), found),
        call_ensures(super::session::Client::try_get_search_results, (&c, words), tried),
    ensures
        0 <= i < c@.context.searches.len() && c@.context.searches[i].query == words@ && (forall|
            j: int,
        |
            0 <= j < i ==> (#[trigger] c@.context.searches[j]).query != words@) ==> {
            let results = c@.context.searches[i].results;
            &&& count == results.len()
            &&& found@.len() == results.len()
            &&& forall|k: int| 0 <= k < results.len() ==> (#[trigger] found@[k])@ == results[k]@
            &&& tried matches Some(t)
            &&& t@.len() == results.len()
            &&& forall|k: int| 0 <= k < results.len() ==> (#[trigger] t@[k])@ == results[k]@
        },
        (forall|j: int|
            0 <= j < c@.context.searches.len() ==> (#[trigger] c@.context.searches[j]).query
                != words@) ==> count == 0 && found@.len() == 0 && tried is None,
{
    let searches = c@.context.searches;
    let p = super::session::asked_with(words@);
    if 0 <= i < searches.len() && searches[i].query == words@ && (forall|j: int|
        0 <= j < i ==> (#[trigger] searches[j]).query != words@) {
        crate::lists::lemma_first_where_is(searches, p, i);
        let results = searches[i].results;
        lemma_same_answers(found@, results);
        lemma_same_answers(tried->0@, results);
    }
    if forall|j: int| 0 <= j < searches.len() ==> (#[trigger] searches[j]).query != words@ {
        crate::lists::lemma_first_where_none(searches, p);
        assert(super::session::answers(found@).len() == found@.len());
    }
}

proof fn lemma_same_answers(a: Seq<SearchResult>, b: Seq<SearchResult>)
    requires
        super::session::answers(a) == super::session::answers(b),
    ensures
        a.len() == b.len(),
        forall|k: int| 0 <= k < b.len() ==> (#[trigger] a[k])@ == b[k]@,
{
    assert(super::session::answers(a).len() == a.len());
    assert(super::session::answers(b).len() == b.len());
    assert forall|k: int| 0 <= k < b.len() implies (#[trigger] a[k])@ == b[k]@ by {
        assert(super::session::answers(a)[k] == a[k]@);
        assert(super::session::answers(b)[k] == b[k]@);
    }
}

/// A peer is stopped by its name where peers are registered at all.
pub proof fn lemma_peer_is_stopped(
    c: super::session::Client,
    username: String,
    r: Vec<ClientAction>,
)
    requires
        call_ensures(super::session::Client::remove_peer, (&c, &username), r),
    ensures
        c@.context.peer_registry is Some ==> r@.len() == 1 && r@[0] == (ClientAction::StopPeer {
            username,
        }),
        c@.context.peer_registry is None ==> r@.len() == 0,
{
}

/// The worker that holds slots knows a download by the number that its peer gave it.
pub proof fn lemma_download_is_known_by_its_number(
    w: super::slots::ConnectedWorker,
    number: PeerTransferToken,
    i: int,
    r: Option<TrackedDownload>,
)
    requires
        call_ensures(super::slots::ConnectedWorker::query_download_by_token, (&w, number), r),
    ensures
        0 <= i < w@.downloads.len() && w@.downloads[i].peer_token == Some(number) && (forall|
            j: int,
        |
            0 <= j < i ==> (#[trigger] w@.downloads[j]).peer_token != Some(number)) ==> r == Some(
            w@.downloads[i],
        ),
        (forall|j: int|
            0 <= j < w@.downloads.len() ==> (#[trigger] w@.downloads[j]).peer_token != Some(number))
            ==> r is None,
{
    let p = super::slots::has_peer_token(number);
    if 0 <= i < w@.downloads.len() && w@.downloads[i].peer_token == Some(number) && (forall|j: int|
        0 <= j < i ==> (#[trigger] w@.downloads[j]).peer_token != Some(number)) {
        crate::lists::lemma_first_where_is(w@.downloads, p, i);
    }
    if forall|j: int|
        0 <= j < w@.downloads.len() ==> (#[trigger] w@.downloads[j]).peer_token != Some(number) {
        crate::lists::lemma_first_where_none(w@.downloads, p);
    }
}

/// The client that keeps all its state in one place lets a peer that failed take its
/// downloads with it: the peer is stopped first, and the caller of each of them is told.
pub proof fn lemma_client_tells_of_a_lost_peer(
    c: &mut super::session::Client,
    username: String,
    why: SoulseekRs,
    peer_known: bool,
    i: int,
    r: Vec<ClientAction>,
)
    requires
        call_ensures(
            super::session::Client::handle_client_operation,
            (c, ClientOperation::PeerDisconnected(username, Some(why)), peer_known),
            r,
        ),
        old(c)@.context.peer_registry is Some,
        0 <= i < old(c)@.context.downloads.len(),
        old(c)@.context.downloads[i].username@ == username@,
    ensures
        r@.len() > 0,
        r@[0] == (ClientAction::StopPeer { username }),
        r@.contains(
            ClientAction::Notify {
                channel: old(c)@.context.downloads[i].sender,
                status: DownloadStatus::Failed,
            },
        ),
{
    let downloads = old(c)@.context.downloads;
    super::operation_laws::lemma_callers_are_told_of_failure(downloads, username@, None);
    let notices = super::operation::failure_notices(
        super::operation::failing(downloads, username@, None),
    );
    let told = ClientAction::Notify {
        channel: downloads[i].sender,
        status: DownloadStatus::Failed,
    };
    assert(r@ =~= seq![ClientAction::StopPeer { username }] + notices);
    assert(notices.contains(told));
    let k = choose|k: int| 0 <= k < notices.len() && notices[k] == told;
    assert(r@[k + 1] == told);
}

} // verus!
