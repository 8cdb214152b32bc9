//! What a client that keeps all its state in one place promises, told by what goes in and
//! what comes out.
use vstd::prelude::*;

use super::context::ServerChannel;
use super::limiter::PendingDownload;
use super::operation::{ClientAction, ClientOperation};
use super::session::{ClientModel, ClientState, LoginAnswer};
use crate::soulseek::actor::server_actor::ServerMessage;
use crate::soulseek::download_peer::DownloadPeer;
use crate::soulseek::error::SoulseekRs;
use crate::soulseek::path::SoulseekPath;
use crate::soulseek::peer::{ConnectionType, NewPeer, Peer};
use crate::soulseek::token::{DownloadToken, SearchToken};
use crate::soulseek::types::{Download, DownloadStatus, SearchResult, StatusChannel, Transfer};

verus! {

/// Whoever connects is told that it went well exactly where the server accepted the login,
/// that the login was refused exactly where the server refused it, and otherwise the error,
/// or that it took too long where no answer came.
pub proof fn lemma_login_is_answered(answer: LoginAnswer)
    ensures
        super::session::login_result(answer) is Ok <==> (answer matches LoginAnswer::Answered(a)
            && a == Ok::<bool, SoulseekRs>(true)),
        answer matches LoginAnswer::Answered(Ok(false)) ==> super::session::login_result(answer)
            == Err::<(), SoulseekRs>(SoulseekRs::AuthenticationFailed),
        answer matches LoginAnswer::Answered(Err(e)) ==> super::session::login_result(answer)
            == Err::<(), SoulseekRs>(e),
        answer is Dropped ==> super::session::login_result(answer) == Err::<(), SoulseekRs>(
            SoulseekRs::Timeout,
        ),
{
}

/// A download that is asked for is entered last, queued, with all that was asked. Connected
/// and with a slot free, its peer is asked for it and it takes the slot; with none free it
/// waits behind the others; not connected, it waits for the login.
pub proof fn lemma_request_is_taken(m: ClientModel, pd: PendingDownload)
    requires
        m.state == ClientState::Connected ==> m.context.peer_registry is Some,
    ensures
        ({
            let (after, actions) = m.requested(pd);
            let entry = after.context.downloads.last();
            &&& after.context.downloads.len() == m.context.downloads.len() + 1
            &&& after.context.downloads.drop_last() == m.context.downloads
            &&& entry.username == pd.username
            &&& entry.filename == pd.filename
            &&& entry.size == pd.size
            &&& entry.download_directory == pd.download_directory
            &&& entry.token == pd.token
            &&& entry.sender == pd.status_sender
            &&& entry.status == DownloadStatus::Queued
            &&& after.state == m.state
            &&& after.context.searches == m.context.searches
            &&& if m.state != ClientState::Connected {
                &&& actions.len() == 0
                &&& after.pending == m.pending.push(pd)
                &&& after.slots == m.slots
            } else {
                &&& after.pending == m.pending
                &&& match m.slots {
                    Some(s) => if s.active < s.max_concurrent {
                        &&& actions.len() == 1
                        &&& actions[0] == (ClientAction::QueueUpload {
                            username: pd.username,
                            filename: pd.filename,
                        })
                        &&& after.slots matches Some(t)
                        &&& t.active == s.active + 1
                        &&& t.queue == s.queue
                        &&& t.max_concurrent == s.max_concurrent
                    } else {
                        &&& actions.len() == 0
                        &&& after.slots matches Some(t)
                        &&& t.active == s.active
                        &&& t.queue == s.queue.push(pd)
                        &&& t.max_concurrent == s.max_concurrent
                    },
                    None => {
                        &&& actions.len() == 1
                        &&& actions[0] == (ClientAction::QueueUpload {
                            username: pd.username,
                            filename: pd.filename,
                        })
                        &&& after.slots is None
                    },
                }
            }
        }),
{
    assert(m.context.downloads.push(pd.download()).drop_last() =~= m.context.downloads);
}

/// A download that is asked for where no peer can be reached fails at once: its caller is
/// told so.
pub proof fn lemma_request_without_peers_fails(m: ClientModel, pd: PendingDownload)
    requires
        m.state == ClientState::Connected,
        m.context.peer_registry is None,
    ensures
        ({
            let (after, actions) = m.requested(pd);
            &&& actions.len() == 1
            &&& actions[0] == (ClientAction::Notify {
                channel: pd.status_sender,
                status: DownloadStatus::Failed,
            })
            &&& after.pending == m.pending
            &&& after.slots == m.slots
            &&& after.context.downloads.len() == m.context.downloads.len() + 1
        }),
{
    super::operation_laws::lemma_status_is_set(
        m.context.downloads.push(pd.download()),
        pd.token,
        DownloadStatus::Failed,
        0,
    );
}

/// A slot that is freed is taken at once by the download that has waited longest, whose
/// peer is asked for it; where none waits, the slot stays free.
pub proof fn lemma_freed_slot_is_taken(m: ClientModel, peer_known: bool, own_username: String)
    requires
        m.context.peer_registry is Some,
        m.slots matches Some(s) ==> s.active > 0,
    ensures
        ({
            let (after, actions) = m.step(
                ClientOperation::DownloadSlotFreed,
                peer_known,
                own_username,
            );
            &&& after.context == m.context && after.state == m.state && after.pending == m.pending
            &&& match m.slots {
                Some(s) => if s.queue.len() > 0 {
                    &&& actions.len() == 1
                    &&& actions[0] == (ClientAction::QueueUpload {
                        username: s.queue[0].username,
                        filename: s.queue[0].filename,
                    })
                    &&& after.slots matches Some(t)
                    &&& t.active == s.active
                    &&& t.queue == s.queue.skip(1)
                    &&& t.max_concurrent == s.max_concurrent
                } else {
                    &&& actions.len() == 0
                    &&& after.slots matches Some(t)
                    &&& t.active == s.active - 1
                    &&& t.queue.len() == 0
                    &&& t.max_concurrent == s.max_concurrent
                },
                None => actions.len() == 0 && after.slots is None,
            }
        }),
{
}

/// Once logged in, the client is connected and nothing waits for the login any more; the
/// downloads that did are asked of their peers, in order, as many as there are slots for.
pub proof fn lemma_login_begins_what_waits(m: ClientModel, peer_known: bool, own_username: String)
    requires
        m.context.peer_registry is Some,
        m.slots matches Some(s) ==> s.active <= s.max_concurrent,
    ensures
        ({
            let (after, actions) = m.step(
                ClientOperation::LoginSucceeded,
                peer_known,
                own_username,
            );
            let n = m.pending.len() as int;
            &&& after.state == ClientState::Connected
            &&& after.pending.len() == 0
            &&& actions.len() == match m.slots {
                Some(s) => if n <= s.max_concurrent - s.active {
                    n
                } else {
                    s.max_concurrent - s.active
                },
                None => n,
            }
            &&& forall|k: int|
                0 <= k < actions.len() ==> #[trigger] actions[k] == (ClientAction::QueueUpload {
                    username: m.pending[k].username,
                    filename: m.pending[k].filename,
                })
            &&& m.slots matches Some(s) ==> (after.slots matches Some(t) && t.active == s.active
                + actions.len() && t.queue == s.queue + m.pending.skip(actions.len() as int))
        }),
{
    let start = ClientModel { state: ClientState::Connected, pending: Seq::empty(), ..m };
    super::session::lemma_replay_in_order(start, m.pending, m.pending.len());
    let (after, actions) = m.step(ClientOperation::LoginSucceeded, peer_known, own_username);
    assert(m.pending.subrange(actions.len() as int, m.pending.len() as int) =~= m.pending.skip(
        actions.len() as int,
    ));
}

/// When the server is lost the client is disconnected, and keeps everything else.
pub proof fn lemma_loss_of_the_server(m: ClientModel, peer_known: bool, own_username: String)
    ensures
        ({
            let (after, actions) = m.step(
                ClientOperation::ServerDisconnected,
                peer_known,
                own_username,
            );
            &&& actions.len() == 0
            &&& after.state == ClientState::Disconnected
            &&& after.context == m.context
            &&& after.pending == m.pending
            &&& after.slots == m.slots
            &&& after.server_handle == m.server_handle
        }),
{
}

/// A peer to connect to for messages is registered as it was told; one for a file is
/// fetched from, under its token and in our own name; one for anything else is left alone.
pub proof fn lemma_told_to_connect(
    m: ClientModel,
    peer: Peer,
    peer_known: bool,
    own_username: String,
)
    requires
        m.context.peer_registry is Some,
        peer.connection_type == ConnectionType::F ==> peer.token is Some,
    ensures
        ({
            let (after, actions) = m.step(
                ClientOperation::ConnectToPeer(peer),
                peer_known,
                own_username,
            );
            &&& after == m
            &&& match peer.connection_type {
                ConnectionType::P => {
                    &&& actions.len() == 1
                    &&& actions[0] matches ClientAction::RegisterPeer { peer: p, stream }
                    &&& p == peer
                    &&& stream is None
                },
                ConnectionType::F => {
                    &&& actions.len() == 1
                    &&& actions[0] matches ClientAction::FetchPierced { from, stream }
                    &&& from.username == peer.username
                    &&& from.host == peer.host
                    &&& from.port == peer.port
                    &&& from.own_username == own_username
                    &&& peer.token matches Some(t)
                    &&& from.token == t.0
                    &&& stream is None
                },
                ConnectionType::D => actions.len() == 0,
            }
        }),
{
}

/// A peer whose firewall cannot be reached is connected to as any other, once the server
/// has been told the token that pierces it.
pub proof fn lemma_pierce_is_told_first(
    m: ClientModel,
    peer: Peer,
    server: ServerChannel,
    peer_known: bool,
    own_username: String,
)
    requires
        m.context.server_sender == Some(server),
        peer.token is Some,
    ensures
        ({
            let (after, actions) = m.step(
                ClientOperation::PierceFireWall(peer),
                peer_known,
                own_username,
            );
            &&& after == m
            &&& actions.len() > 0
            &&& actions[0] == (ClientAction::SendToServer {
                server,
                message: ServerMessage::PierceFirewall(peer.token->0),
            })
            &&& actions.skip(1) == m.step(
                ClientOperation::ConnectToPeer(peer),
                peer_known,
                own_username,
            ).1
        }),
{
    let more = m.step(ClientOperation::ConnectToPeer(peer), peer_known, own_username).1;
    let actions = m.step(ClientOperation::PierceFireWall(peer), peer_known, own_username).1;
    assert(actions.skip(1) =~= more);
}

/// A peer that connects to us is served over its own stream, under the name and from the
/// place that it gave; the server is asked where it is exactly where we did not know it.
pub proof fn lemma_new_peer_is_served(
    m: ClientModel,
    new_peer: NewPeer,
    server: ServerChannel,
    peer_known: bool,
    own_username: String,
)
    requires
        m.context.peer_registry is Some,
        m.context.server_sender == Some(server),
    ensures
        ({
            let (after, actions) = m.step(
                ClientOperation::NewPeer(new_peer),
                peer_known,
                own_username,
            );
            let n = if peer_known {
                0int
            } else {
                1int
            };
            &&& after == m
            &&& !peer_known ==> actions.len() > 0 && actions[0] == (ClientAction::SendToServer {
                server,
                message: ServerMessage::GetPeerAddress(new_peer.username),
            })
            &&& match new_peer.connection_type {
                ConnectionType::P => {
                    &&& actions.len() == n + 1
                    &&& actions[n] matches ClientAction::RegisterPeer { peer, stream }
                    &&& peer.username == new_peer.username
                    &&& peer.host == new_peer.host
                    &&& peer.port == new_peer.port
                    &&& peer.connection_type == ConnectionType::P
                    &&& peer.token == Some(new_peer.token)
                    &&& stream == Some(new_peer.stream)
                },
                ConnectionType::F => {
                    &&& actions.len() == n + 1
                    &&& actions[n] matches ClientAction::FetchPierced { from, stream }
                    &&& from.username == new_peer.username
                    &&& from.host == new_peer.host
                    &&& from.port == new_peer.port
                    &&& from.token == new_peer.token.0
                    &&& from.own_username == own_username
                    &&& stream == Some(new_peer.stream)
                },
                ConnectionType::D => actions.len() == n,
            }
        }),
{
}

/// A peer whose address the server has found is registered for messages, there, unless we
/// know it already.
pub proof fn lemma_found_peer_is_registered(
    m: ClientModel,
    username: String,
    host: String,
    port: u32,
    obfuscation_type: u32,
    obfuscated_port: u16,
    peer_known: bool,
    own_username: String,
)
    requires
        m.context.peer_registry is Some,
    ensures
        ({
            let (after, actions) = m.step(
                ClientOperation::GetPeerAddressResponse {
                    username,
                    host,
                    port,
                    obfuscation_type,
                    obfuscated_port,
                },
                peer_known,
                own_username,
            );
            &&& after == m
            &&& if peer_known {
                actions.len() == 0
            } else {
                &&& actions.len() == 1
                &&& actions[0] matches ClientAction::RegisterPeer { peer, stream }
                &&& peer.username == username
                &&& peer.host == host
                &&& peer.port == port
                &&& peer.connection_type == ConnectionType::P
                &&& peer.token is None
                &&& stream is None
            }
        }),
{
}

/// A file that a peer is ready to send is fetched from where the peer is, as the first
/// download with its token; without such a download nothing is fetched.
pub proof fn lemma_offered_file_is_fetched(
    m: ClientModel,
    token: DownloadToken,
    peer: Peer,
    allowed: bool,
    peer_known: bool,
    own_username: String,
    i: int,
)
    ensures
        ({
            let (after, actions) = m.step(
                ClientOperation::DownloadFromPeer(token, peer, allowed),
                peer_known,
                own_username,
            );
            let downloads = m.context.downloads;
            &&& after == m
            &&& 0 <= i < downloads.len() && downloads[i].token == token && (forall|j: int|
                0 <= j < i ==> (#[trigger] downloads[j]).token != token) ==> {
                &&& actions.len() == 1
                &&& actions[0] matches ClientAction::FetchDirect { download, from, allowed: a }
                &&& download == downloads[i]
                &&& from.username == downloads[i].username
                &&& from.host == peer.host
                &&& from.port == peer.port
                &&& from.own_username == own_username
                &&& from.token == token.0
                &&& a == allowed
            }
            &&& (forall|j: int|
                0 <= j < downloads.len() ==> (#[trigger] downloads[j]).token != token)
                ==> actions.len() == 0
        }),
{
    let downloads = m.context.downloads;
    let p = super::context::has_token(token);
    if 0 <= i < downloads.len() && downloads[i].token == token && (forall|j: int|
        0 <= j < i ==> (#[trigger] downloads[j]).token != token) {
        crate::lists::lemma_first_where_is(downloads, p, i);
    }
    if forall|j: int| 0 <= j < downloads.len() ==> (#[trigger] downloads[j]).token != token {
        crate::lists::lemma_first_where_none(downloads, p);
    }
}

/// A peer that went away in good order is stopped, and its downloads stay. One that failed
/// takes its downloads with it, and their callers are told.
pub proof fn lemma_downloads_fail_with_their_peer(
    m: ClientModel,
    username: String,
    why: Option<SoulseekRs>,
    peer_known: bool,
    own_username: String,
    i: int,
)
    requires
        m.context.peer_registry is Some,
        0 <= i < m.context.downloads.len(),
        forall|j: int|
            0 <= j < m.context.downloads.len() && j != i ==> (
            #[trigger] m.context.downloads[j]).token != m.context.downloads[i].token,
    ensures
        ({
            let (after, actions) = m.step(
                ClientOperation::PeerDisconnected(username, why),
                peer_known,
                own_username,
            );
            let d = m.context.downloads[i];
            let told = ClientAction::Notify { channel: d.sender, status: DownloadStatus::Failed };
            &&& actions.len() > 0
            &&& actions[0] == (ClientAction::StopPeer { username })
            &&& why is None ==> actions.len() == 1 && after == m
            &&& why is Some ==> {
                &&& d.username@ == username@ ==> actions.contains(told)
                &&& after.context.downloads.contains(d) <==> d.username@ != username@
                &&& forall|k: int|
                    1 <= k < actions.len() ==> (#[trigger] actions[k] matches ClientAction::Notify {
                        status,
                        ..
                    } && status == DownloadStatus::Failed)
            }
            &&& after.pending == m.pending && after.slots == m.slots && after.context.searches
                == m.context.searches
        }),
{
    let downloads = m.context.downloads;
    super::operation_laws::lemma_download_fails_or_stays(downloads, username@, None, i);
    let notices = super::operation::failure_notices(
        super::operation::failing(downloads, username@, None),
    );
    let actions = m.step(
        ClientOperation::PeerDisconnected(username, why),
        peer_known,
        own_username,
    ).1;
    let d = downloads[i];
    let told = ClientAction::Notify { channel: d.sender, status: DownloadStatus::Failed };
    if why is Some {
        assert(actions =~= seq![ClientAction::StopPeer { username }] + notices);
        if d.username@ == username@ {
            assert(notices.contains(told));
            let k = choose|k: int| 0 <= k < notices.len() && notices[k] == told;
            assert(actions[k + 1] == told);
        }
        assert forall|k: int| 1 <= k < actions.len() implies (
        #[trigger] actions[k] matches ClientAction::Notify { status, .. } && status
            == DownloadStatus::Failed) by {
            assert(actions[k] == notices[k - 1]);
        }
    }
}

/// A file that a peer will not send fails: the caller of every download of that file from
/// that peer is told so, and only these downloads are forgotten.
pub proof fn lemma_refused_file_fails(
    m: ClientModel,
    username: String,
    filename: SoulseekPath,
    peer_known: bool,
    own_username: String,
    i: int,
)
    requires
        0 <= i < m.context.downloads.len(),
        forall|j: int|
            0 <= j < m.context.downloads.len() && j != i ==> (
            #[trigger] m.context.downloads[j]).token != m.context.downloads[i].token,
    ensures
        ({
            let (after, actions) = m.step(
                ClientOperation::UploadFailed(username, filename),
                peer_known,
                own_username,
            );
            let d = m.context.downloads[i];
            let fails = d.username@ == username@ && d.filename@ == filename@;
            &&& fails ==> actions.contains(
                ClientAction::Notify { channel: d.sender, status: DownloadStatus::Failed },
            )
            &&& after.context.downloads.contains(d) <==> !fails
            &&& forall|k: int|
                0 <= k < actions.len() ==> (#[trigger] actions[k] matches ClientAction::Notify {
                    status,
                    ..
                } && status == DownloadStatus::Failed)
        }),
{
    super::operation_laws::lemma_download_fails_or_stays(
        m.context.downloads,
        username@,
        Some(filename@),
        i,
    );
}

/// A peer that proposes to send a file gives its token and its size to the first download
/// of that file from it; nothing is done, and nothing but the downloads changes.
pub proof fn lemma_proposed_file_takes_its_token(
    m: ClientModel,
    transfer: Transfer,
    username: String,
    peer_known: bool,
    own_username: String,
    i: int,
)
    requires
        0 <= i < m.context.downloads.len(),
        m.context.downloads[i].username@ == username@,
        m.context.downloads[i].filename@ == transfer.filename@,
        forall|j: int|
            0 <= j < i ==> !((#[trigger] m.context.downloads[j]).username@ == username@
                && m.context.downloads[j].filename@ == transfer.filename@),
        transfer.token != m.context.downloads[i].token,
        forall|j: int|
            0 <= j < m.context.downloads.len() && j != i ==> (
            #[trigger] m.context.downloads[j]).token != m.context.downloads[i].token,
    ensures
        ({
            let (after, actions) = m.step(
                ClientOperation::UpdateDownloadTokens(transfer, username),
                peer_known,
                own_username,
            );
            let entry = after.context.downloads.last();
            &&& actions.len() == 0
            &&& after.context.downloads.len() == m.context.downloads.len()
            &&& after.context.downloads.drop_last() == m.context.downloads.remove(i)
            &&& entry.token == transfer.token
            &&& entry.size == transfer.size
            &&& entry.filename@ == transfer.filename@
            &&& entry.username@ == username@
            &&& entry.sender == m.context.downloads[i].sender
            &&& entry.download_directory == m.context.downloads[i].download_directory
            &&& entry.status == m.context.downloads[i].status
            &&& after.pending == m.pending && after.slots == m.slots && after.state == m.state
        }),
{
    super::operation_laws::lemma_proposed_file_takes_its_token(
        m.context.downloads,
        transfer,
        username,
        i,
    );
}

/// The caller of a download that has ended is told how, and the status of the first
/// download with its token says so from then on.
pub proof fn lemma_end_is_told(
    m: ClientModel,
    token: DownloadToken,
    channel: StatusChannel,
    status: DownloadStatus,
    i: int,
)
    requires
        0 <= i < m.context.downloads.len(),
        m.context.downloads[i].token == token,
        forall|j: int| 0 <= j < i ==> (#[trigger] m.context.downloads[j]).token != token,
    ensures
        ({
            let (after, actions) = m.ended(token, channel, status);
            &&& actions.len() == 1
            &&& actions[0] == (ClientAction::Notify { channel, status })
            &&& after.context.downloads.len() == m.context.downloads.len()
            &&& after.context.downloads[i].status == status
            &&& forall|j: int|
                0 <= j < m.context.downloads.len() && j != i ==> (
                #[trigger] after.context.downloads[j]).status == m.context.downloads[j].status
            &&& after.slots == m.slots && after.pending == m.pending
        }),
{
    super::operation_laws::lemma_status_is_set(m.context.downloads, token, status, i);
    let after = m.ended(token, channel, status).0;
    assert forall|j: int| 0 <= j < m.context.downloads.len() && j != i implies (
    #[trigger] after.context.downloads[j]).status == m.context.downloads[j].status by {
        super::operation_laws::lemma_status_is_set(m.context.downloads, token, status, j);
    }
}

/// A search is entered with its words and its token, without answers. One with the same
/// words takes the place of the older; any other comes last, and no other changes.
pub proof fn lemma_search_is_entered(
    searches: Seq<super::context::SearchModel>,
    query: Seq<char>,
    token: SearchToken,
    i: int,
)
    ensures
        ({
            let after = super::session::with_new_search(searches, query, token);
            &&& 0 <= i < searches.len() && searches[i].query == query && (forall|j: int|
                0 <= j < i ==> (#[trigger] searches[j]).query != query) ==> {
                &&& after.len() == searches.len()
                &&& after[i].query == query
                &&& after[i].token == token
                &&& after[i].results.len() == 0
                &&& forall|j: int|
                    0 <= j < searches.len() && j != i ==> #[trigger] after[j] == searches[j]
            }
            &&& (forall|j: int| 0 <= j < searches.len() ==> (#[trigger] searches[j]).query != query)
                ==> {
                &&& after.drop_last() == searches
                &&& after.len() == searches.len() + 1
                &&& after.last().query == query
                &&& after.last().token == token
                &&& after.last().results.len() == 0
            }
        }),
{
    let p = super::session::asked_with(query);
    if 0 <= i < searches.len() && searches[i].query == query && (forall|j: int|
        0 <= j < i ==> (#[trigger] searches[j]).query != query) {
        crate::lists::lemma_first_where_is(searches, p, i);
    }
    if forall|j: int| 0 <= j < searches.len() ==> (#[trigger] searches[j]).query != query {
        crate::lists::lemma_first_where_none(searches, p);
        assert(super::session::with_new_search(searches, query, token).drop_last() =~= searches);
    }
}

/// An answer to a search changes nothing but the answers of that search, and nothing is
/// done.
pub proof fn lemma_answer_is_kept(
    m: ClientModel,
    result: SearchResult,
    peer_known: bool,
    own_username: String,
    i: int,
)
    requires
        0 <= i < m.context.searches.len(),
        m.context.searches[i].token == result.token,
        forall|j: int| 0 <= j < i ==> (#[trigger] m.context.searches[j]).token != result.token,
    ensures
        ({
            let (after, actions) = m.step(
                ClientOperation::SearchResult(result),
                peer_known,
                own_username,
            );
            &&& actions.len() == 0
            &&& after.context.searches[i].results == m.context.searches[i].results.push(result)
            &&& after.context.searches[i].query == m.context.searches[i].query
            &&& after.context.downloads == m.context.downloads
            &&& after.state == m.state && after.pending == m.pending && after.slots == m.slots
        }),
{
    super::operation_laws::lemma_answer_is_entered(m.context, result, i);
}

} // verus!
