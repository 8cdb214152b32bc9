//! What the worker that counts its downloads promises, told by what goes in and what comes
//! out.
use vstd::prelude::*;

use super::context::ServerChannel;
use super::counted::{WorkerModel, WorkerOperation};
use super::limiter::PendingDownload;
use super::operation::{ClientAction, WorkerEvent};
use crate::soulseek::actor::server_actor::ServerMessage;
use crate::soulseek::error::{Result, SoulseekRs};
use crate::soulseek::path::SoulseekPath;
use crate::soulseek::peer::{ConnectionType, NewPeer, Peer};
use crate::soulseek::token::DownloadToken;
use crate::soulseek::types::{DownloadStatus, SearchResult, Transfer};

verus! {

/// The caller of a download that has ended is told first: that it is complete exactly where
/// it ended well, and that it failed where it did not. Where nothing waits, its status is
/// set and one download less runs.
pub proof fn lemma_caller_is_told_how_it_ended(
    m: WorkerModel,
    token: DownloadToken,
    outcome: Result<String>,
    peer_known: bool,
    i: int,
)
    requires
        0 <= i < m.context.downloads.len(),
        m.context.downloads[i].token == token,
        forall|j: int| 0 <= j < i ==> (#[trigger] m.context.downloads[j]).token != token,
    ensures
        ({
            let (after, actions) = m.step(
                WorkerOperation::DownloadCompleted(token, outcome),
                peer_known,
            );
            &&& actions.len() > 0
            &&& actions[0] matches ClientAction::Notify { channel, status }
            &&& channel == m.context.downloads[i].sender
            &&& status == DownloadStatus::Completed <==> outcome is Ok
            &&& status == DownloadStatus::Failed <==> outcome is Err
            &&& after.context.downloads[i].status == status
            &&& after.context.downloads[i].token == token
            &&& forall|j: int|
                0 <= j < m.context.downloads.len() && j != i ==> #[trigger] after.context.downloads[j]
                    == m.context.downloads[j]
            &&& m.pending.len() == 0 ==> actions.len() == 1 && after.active == if m.active > 0 {
                m.active - 1
            } else {
                0
            } && after.context.downloads.len() == m.context.downloads.len()
        }),
{
    crate::lists::lemma_first_where_is(
        m.context.downloads,
        super::context::has_token(token),
        i,
    );
}

/// When a download ends, or is lost before it is known which it was, the one that has
/// waited longest begins in its place: it is entered, queued, and its peer is asked for it,
/// and as many run as before.
pub proof fn lemma_next_begins_in_its_place(
    m: WorkerModel,
    token: DownloadToken,
    outcome: Result<String>,
    peer_known: bool,
)
    requires
        m.logged_in,
        m.pending.len() > 0,
        m.active > 0,
        m.max_concurrent matches Some(max) ==> m.active <= max,
    ensures
        ({
            let (after, actions) = m.step(
                WorkerOperation::DownloadCompleted(token, outcome),
                peer_known,
            );
            let next = m.pending[0];
            &&& actions.len() > 0
            &&& actions.last() == (ClientAction::QueueUpload {
                username: next.username,
                filename: next.filename,
            })
            &&& after.pending == m.pending.skip(1)
            &&& after.active == m.active
            &&& after.context.downloads.len() == m.context.downloads.len() + 1
            &&& after.context.downloads.last().token == next.token
            &&& after.context.downloads.last().filename == next.filename
            &&& after.context.downloads.last().username == next.username
            &&& after.context.downloads.last().size == next.size
            &&& after.context.downloads.last().download_directory == next.download_directory
            &&& after.context.downloads.last().sender == next.status_sender
            &&& after.context.downloads.last().status == DownloadStatus::Queued
        }),
        ({
            let (after, actions) = m.step(
                WorkerOperation::PierceFirewallPreTokenFailed,
                peer_known,
            );
            let next = m.pending[0];
            &&& actions.len() == 1
            &&& actions[0] == (ClientAction::QueueUpload {
                username: next.username,
                filename: next.filename,
            })
            &&& after.pending == m.pending.skip(1)
            &&& after.active == m.active
        }),
{
    super::operation_laws::lemma_status_is_set(
        m.context.downloads,
        token,
        super::counted::outcome_status(outcome),
        0,
    );
}

/// A download that is asked for begins at once where we are logged in and another may run:
/// it is entered, queued, counted, and its peer is asked for it. Otherwise it waits, last.
pub proof fn lemma_request_begins_or_waits(m: WorkerModel, pd: PendingDownload, peer_known: bool)
    requires
        m.active < u32::MAX,
    ensures
        ({
            let (after, actions) = m.step(WorkerOperation::RequestDownload(pd), peer_known);
            if m.logged_in && (m.max_concurrent matches Some(max) ==> m.active < max) {
                &&& actions.len() == 1
                &&& actions[0] == (ClientAction::QueueUpload {
                    username: pd.username,
                    filename: pd.filename,
                })
                &&& after.active == m.active + 1
                &&& after.pending == m.pending
                &&& after.context.downloads.len() == m.context.downloads.len() + 1
                &&& after.context.downloads.drop_last() == m.context.downloads
                &&& after.context.downloads.last().token == pd.token
                &&& after.context.downloads.last().filename == pd.filename
                &&& after.context.downloads.last().username == pd.username
                &&& after.context.downloads.last().size == pd.size
                &&& after.context.downloads.last().download_directory == pd.download_directory
                &&& after.context.downloads.last().sender == pd.status_sender
                &&& after.context.downloads.last().status == DownloadStatus::Queued
            } else {
                &&& actions.len() == 0
                &&& after.active == m.active
                &&& after.pending == m.pending.push(pd)
                &&& after.context == m.context
            }
        }),
{
    assert(m.context.downloads.push(pd.download()).drop_last() =~= m.context.downloads);
}

/// Once logged in, the downloads that wait begin in the order in which they were asked for,
/// as many as may run; then whoever keeps the client's state is told of the login.
pub proof fn lemma_login_starts_what_waits(m: WorkerModel, peer_known: bool)
    requires
        m.active + m.pending.len() <= u32::MAX,
    ensures
        ({
            let (after, actions) = m.step(WorkerOperation::LoginSucceeded, peer_known);
            let n = actions.len() - 1;
            &&& n >= 0
            &&& actions[n] == ClientAction::Forward(WorkerEvent::LoginSucceeded)
            &&& after.logged_in
            &&& n <= m.pending.len()
            &&& forall|k: int|
                0 <= k < n ==> #[trigger] actions[k] == (ClientAction::QueueUpload {
                    username: m.pending[k].username,
                    filename: m.pending[k].filename,
                })
            &&& after.pending == m.pending.skip(n)
            &&& after.active == m.active + n
            &&& after.context.downloads.len() == m.context.downloads.len() + n
            &&& after.pending.len() == 0 || (m.max_concurrent matches Some(max) && after.active
                >= max)
        }),
{
    lemma_drained(WorkerModel { logged_in: true, ..m });
}

proof fn lemma_drained(m: WorkerModel)
    requires
        m.active + m.pending.len() <= u32::MAX,
    ensures
        ({
            let (after, actions) = m.drained();
            let n = actions.len() as int;
            &&& after.logged_in == m.logged_in
            &&& after.max_concurrent == m.max_concurrent
            &&& n <= m.pending.len()
            &&& forall|k: int|
                0 <= k < n ==> #[trigger] actions[k] == (ClientAction::QueueUpload {
                    username: m.pending[k].username,
                    filename: m.pending[k].filename,
                })
            &&& after.pending == m.pending.skip(n)
            &&& after.active == m.active + n
            &&& after.context.downloads.len() == m.context.downloads.len() + n
            &&& after.pending.len() == 0 || (m.max_concurrent matches Some(max) && after.active
                >= max)
        }),
    decreases m.pending.len(),
{
    if m.has_room() && m.pending.len() > 0 {
        let pd = m.pending[0];
        let next = m.without_first().initiated(pd);
        lemma_drained(next);
        let (after, rest) = next.drained();
        let actions = m.drained().1;
        assert(actions =~= seq![super::operation::ask_for(pd)] + rest);
        assert(m.pending.skip(1).skip(rest.len() as int) =~= m.pending.skip(1 + rest.len() as int));
        assert forall|k: int| 0 <= k < actions.len() implies #[trigger] actions[k] == (
        ClientAction::QueueUpload {
            username: m.pending[k].username,
            filename: m.pending[k].filename,
        }) by {
            if k > 0 {
                assert(actions[k] == rest[k - 1]);
                assert(m.pending.skip(1)[k - 1] == m.pending[k]);
            }
        }
    } else {
        assert(m.pending.skip(0) =~= m.pending);
    }
}

/// When the server is lost we are no longer logged in, and whoever keeps the client's state
/// is told; what runs and what waits is kept.
pub proof fn lemma_loss_of_the_server(m: WorkerModel, peer_known: bool)
    ensures
        ({
            let (after, actions) = m.step(WorkerOperation::ServerDisconnected, peer_known);
            &&& actions.len() == 1
            &&& actions[0] == ClientAction::Forward(WorkerEvent::ServerDisconnected)
            &&& !after.logged_in
            &&& after.context == m.context
            &&& after.pending == m.pending
            &&& after.active == m.active
            &&& after.server_sender == m.server_sender
        }),
{
}

/// A peer to connect to for messages is registered as it was told; one for a file is
/// fetched from, under its token and in our own name; one for anything else is left alone.
/// Where a firewall is to be pierced, the server is told the token first.
pub proof fn lemma_told_to_connect(
    m: WorkerModel,
    peer: Peer,
    server: ServerChannel,
    peer_known: bool,
)
    requires
        peer.token is Some,
        m.server_sender == Some(server),
    ensures
        ({
            let (after, actions) = m.step(WorkerOperation::ConnectToPeer(peer), peer_known);
            &&& after == m
            &&& match peer.connection_type {
                ConnectionType::P => {
                    &&& actions.len() == 1
                    &&& actions[0] matches ClientAction::RegisterPeer { peer: p, stream }
                    &&& p == peer
                    &&& stream is None
                },
                ConnectionType::F => {
                    &&& actions.len() == 1
                    &&& actions[0] matches ClientAction::FetchPierced { from, stream }
                    &&& from.username == peer.username
                    &&& from.host == peer.host
                    &&& from.port == peer.port
                    &&& from.own_username == m.own_username
                    &&& from.token == (peer.token->0).0
                    &&& stream is None
                },
                ConnectionType::D => actions.len() == 0,
            }
        }),
        ({
            let (after, actions) = m.step(WorkerOperation::PierceFireWall(peer), peer_known);
            &&& after == m
            &&& actions.len() > 0
            &&& actions[0] == (ClientAction::SendToServer {
                server,
                message: ServerMessage::PierceFirewall(peer.token->0),
            })
            &&& actions.skip(1) == m.step(WorkerOperation::ConnectToPeer(peer), peer_known).1
        }),
{
    let more = m.step(WorkerOperation::ConnectToPeer(peer), peer_known).1;
    let actions = m.step(WorkerOperation::PierceFireWall(peer), peer_known).1;
    assert(actions.skip(1) =~= more);
}

/// A peer that connects to us is served over its own stream, under the name and from the
/// place that it gave; the server is asked where it is exactly where we did not know it.
pub proof fn lemma_new_peer_is_served(
    m: WorkerModel,
    new_peer: NewPeer,
    server: ServerChannel,
    peer_known: bool,
)
    requires
        m.server_sender == Some(server),
    ensures
        ({
            let (after, actions) = m.step(WorkerOperation::NewPeer(new_peer), peer_known);
            let n = if peer_known {
                0int
            } else {
                1int
            };
            &&& after == m
            &&& !peer_known ==> actions.len() > 0 && actions[0] == (ClientAction::SendToServer {
                server,
                message: ServerMessage::GetPeerAddress(new_peer.username),
            })
            &&& match new_peer.connection_type {
                ConnectionType::P => {
                    &&& actions.len() == n + 1
                    &&& actions[n] matches ClientAction::RegisterPeer { peer, stream }
                    &&& peer.username == new_peer.username
                    &&& peer.host == new_peer.host
                    &&& peer.port == new_peer.port
                    &&& peer.connection_type == ConnectionType::P
                    &&& peer.token == Some(new_peer.token)
                    &&& stream == Some(new_peer.stream)
                },
                ConnectionType::F => {
                    &&& actions.len() == n + 1
                    &&& actions[n] matches ClientAction::FetchPierced { from, stream }
                    &&& from.username == new_peer.username
                    &&& from.host == new_peer.host
                    &&& from.port == new_peer.port
                    &&& from.token == new_peer.token.0
                    &&& from.own_username == m.own_username
                    &&& stream == Some(new_peer.stream)
                },
                ConnectionType::D => actions.len() == n,
            }
        }),
{
}

/// A peer whose address the server has found is registered for messages, there, unless we
/// know it already.
pub proof fn lemma_found_peer_is_registered(
    m: WorkerModel,
    username: String,
    host: String,
    port: u32,
    obfuscation_type: u32,
    obfuscated_port: u16,
    peer_known: bool,
)
    ensures
        ({
            let (after, actions) = m.step(
                WorkerOperation::GetPeerAddressResponse {
                    username,
                    host,
                    port,
                    obfuscation_type,
                    obfuscated_port,
                },
                peer_known,
            );
            &&& after == m
            &&& if peer_known {
                actions.len() == 0
            } else {
                &&& actions.len() == 1
                &&& actions[0] matches ClientAction::RegisterPeer { peer, stream }
                &&& peer.username == username
                &&& peer.host == host
                &&& peer.port == port
                &&& peer.connection_type == ConnectionType::P
                &&& peer.token is None
                &&& stream is None
            }
        }),
{
}

/// A file that a peer is ready to send is fetched from where the peer is, as the first
/// download with its token; without such a download nothing is fetched.
pub proof fn lemma_offered_file_is_fetched(
    m: WorkerModel,
    token: DownloadToken,
    peer: Peer,
    allowed: bool,
    peer_known: bool,
    i: int,
)
    ensures
        ({
            let (after, actions) = m.step(
                WorkerOperation::DownloadFromPeer(token, peer, allowed),
                peer_known,
            );
            let downloads = m.context.downloads;
            &&& after == m
            &&& 0 <= i < downloads.len() && downloads[i].token == token && (forall|j: int|
                0 <= j < i ==> (#[trigger] downloads[j]).token != token) ==> {
                &&& actions.len() == 1
                &&& actions[0] matches ClientAction::FetchDirect { download, from, allowed: a }
                &&& download == downloads[i]
                &&& from.username == downloads[i].username
                &&& from.host == peer.host
                &&& from.port == peer.port
                &&& from.own_username == m.own_username
                &&& from.token == token.0
                &&& a
            }
            &&& (forall|j: int|
                0 <= j < downloads.len() ==> (#[trigger] downloads[j]).token != token)
                ==> actions.len() == 0
        }),
{
    let downloads = m.context.downloads;
    let p = super::context::has_token(token);
    if 0 <= i < downloads.len() && downloads[i].token == token && (forall|j: int|
        0 <= j < i ==> (#[trigger] downloads[j]).token != token) {
        crate::lists::lemma_first_where_is(downloads, p, i);
    }
    if forall|j: int| 0 <= j < downloads.len() ==> (#[trigger] downloads[j]).token != token {
        crate::lists::lemma_first_where_none(downloads, p);
    }
}

/// A peer that went away in good order is stopped, and its downloads stay. One that failed
/// takes its downloads with it, and their callers are told.
pub proof fn lemma_downloads_fail_with_their_peer(
    m: WorkerModel,
    username: String,
    why: Option<SoulseekRs>,
    peer_known: bool,
    i: int,
)
    requires
        0 <= i < m.context.downloads.len(),
        forall|j: int|
            0 <= j < m.context.downloads.len() && j != i ==> (
            #[trigger] m.context.downloads[j]).token != m.context.downloads[i].token,
    ensures
        ({
            let (after, actions) = m.step(
                WorkerOperation::PeerDisconnected(username, why),
                peer_known,
            );
            let d = m.context.downloads[i];
            let told = ClientAction::Notify { channel: d.sender, status: DownloadStatus::Failed };
            &&& actions.len() > 0
            &&& actions[0] == (ClientAction::StopPeer { username })
            &&& why is None ==> actions.len() == 1 && after == m
            &&& why is Some ==> {
                &&& d.username@ == username@ ==> actions.contains(told)
                &&& after.context.downloads.contains(d) <==> d.username@ != username@
                &&& forall|k: int|
                    1 <= k < actions.len() ==> (#[trigger] actions[k] matches ClientAction::Notify {
                        status,
                        ..
                    } && status == DownloadStatus::Failed)
            }
            &&& after.pending == m.pending && after.active == m.active && after.context.searches
                == m.context.searches
        }),
{
    let downloads = m.context.downloads;
    super::operation_laws::lemma_download_fails_or_stays(downloads, username@, None, i);
    let notices = super::operation::failure_notices(
        super::operation::failing(downloads, username@, None),
    );
    let actions = m.step(WorkerOperation::PeerDisconnected(username, why), peer_known).1;
    let d = downloads[i];
    let told = ClientAction::Notify { channel: d.sender, status: DownloadStatus::Failed };
    if why is Some {
        assert(actions =~= seq![ClientAction::StopPeer { username }] + notices);
        if d.username@ == username@ {
            assert(notices.contains(told));
            let k = choose|k: int| 0 <= k < notices.len() && notices[k] == told;
            assert(actions[k + 1] == told);
        }
        assert forall|k: int| 1 <= k < actions.len() implies (
        #[trigger] actions[k] matches ClientAction::Notify { status, .. } && status
            == DownloadStatus::Failed) by {
            assert(actions[k] == notices[k - 1]);
        }
    }
}

/// A file that a peer will not send fails: the caller of every download of that file from
/// that peer is told so, and only these downloads are forgotten.
pub proof fn lemma_refused_file_fails(
    m: WorkerModel,
    username: String,
    filename: SoulseekPath,
    peer_known: bool,
    i: int,
)
    requires
        0 <= i < m.context.downloads.len(),
        forall|j: int|
            0 <= j < m.context.downloads.len() && j != i ==> (
            #[trigger] m.context.downloads[j]).token != m.context.downloads[i].token,
    ensures
        ({
            let (after, actions) = m.step(
                WorkerOperation::UploadFailed(username, filename),
                peer_known,
            );
            let d = m.context.downloads[i];
            let fails = d.username@ == username@ && d.filename@ == filename@;
            &&& fails ==> actions.contains(
                ClientAction::Notify { channel: d.sender, status: DownloadStatus::Failed },
            )
            &&& after.context.downloads.contains(d) <==> !fails
            &&& forall|k: int|
                0 <= k < actions.len() ==> (#[trigger] actions[k] matches ClientAction::Notify {
                    status,
                    ..
                } && status == DownloadStatus::Failed)
        }),
{
    super::operation_laws::lemma_download_fails_or_stays(
        m.context.downloads,
        username@,
        Some(filename@),
        i,
    );
}

/// A peer that proposes to send a file gives its token and its size to the first download
/// of that file from it; nothing is done, and nothing but the downloads changes.
pub proof fn lemma_proposed_file_takes_its_token(
    m: WorkerModel,
    transfer: Transfer,
    username: String,
    peer_known: bool,
    i: int,
)
    requires
        0 <= i < m.context.downloads.len(),
        m.context.downloads[i].username@ == username@,
        m.context.downloads[i].filename@ == transfer.filename@,
        forall|j: int|
            0 <= j < i ==> !((#[trigger] m.context.downloads[j]).username@ == username@
                && m.context.downloads[j].filename@ == transfer.filename@),
        transfer.token != m.context.downloads[i].token,
        forall|j: int|
            0 <= j < m.context.downloads.len() && j != i ==> (
            #[trigger] m.context.downloads[j]).token != m.context.downloads[i].token,
    ensures
        ({
            let (after, actions) = m.step(
                WorkerOperation::UpdateDownloadTokens(transfer, username),
                peer_known,
            );
            let entry = after.context.downloads.last();
            &&& actions.len() == 0
            &&& after.context.downloads.len() == m.context.downloads.len()
            &&& after.context.downloads.drop_last() == m.context.downloads.remove(i)
            &&& entry.token == transfer.token
            &&& entry.size == transfer.size
            &&& entry.filename@ == transfer.filename@
            &&& entry.username@ == username@
            &&& entry.sender == m.context.downloads[i].sender
            &&& entry.download_directory == m.context.downloads[i].download_directory
            &&& entry.status == m.context.downloads[i].status
            &&& after.pending == m.pending && after.active == m.active && after.logged_in
                == m.logged_in
        }),
{
    super::operation_laws::lemma_proposed_file_takes_its_token(
        m.context.downloads,
        transfer,
        username,
        i,
    );
}

/// An answer to a search changes nothing but the answers of that search, and nothing is
/// done.
pub proof fn lemma_answer_is_kept(m: WorkerModel, result: SearchResult, peer_known: bool, i: int)
    requires
        0 <= i < m.context.searches.len(),
        m.context.searches[i].token == result.token,
        forall|j: int| 0 <= j < i ==> (#[trigger] m.context.searches[j]).token != result.token,
    ensures
        ({
            let (after, actions) = m.step(WorkerOperation::SearchResult(result), peer_known);
            &&& actions.len() == 0
            &&& after.context.searches[i].results == m.context.searches[i].results.push(result)
            &&& after.context.searches[i].query == m.context.searches[i].query
            &&& after.context.downloads == m.context.downloads
            &&& after.pending == m.pending && after.active == m.active && after.logged_in
                == m.logged_in
        }),
{
    super::operation_laws::lemma_answer_is_entered(m.context, result, i);
}

} // verus!
