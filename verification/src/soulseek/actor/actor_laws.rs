//! What the actors that own the connections do, told by what they are asked and what comes
//! of it.
use vstd::prelude::*;

use super::peer_actor::{PeerAction, PeerEvent, PeerModel};
use super::peer_message::PeerMessage;
use super::server_actor::{
    ConnectionModel, LoginChannel, LoginState, ServerAction, ServerEvent, ServerMessage, ServerModel,
};
use crate::soulseek::client::settings::ReconnectSettings;
use crate::soulseek::error::SoulseekRs;
use crate::soulseek::path::SoulseekPath;
use crate::soulseek::peer::{ConnectionType, Peer};
use crate::soulseek::request::Request;
use crate::soulseek::token::{PierceToken, SearchToken};
use crate::soulseek::types::{Download, SearchResult, Transfer};

verus! {

/// A login is sent with its name and password, and its caller waits at most five seconds
/// for the answer.
pub proof fn lemma_login_is_sent(
    m: ServerModel,
    username: String,
    password: String,
    response: LoginChannel,
    now: u128,
)
    requires
        m.is_connected(),
        !(m.login is Pending),
        now <= crate::time::MAX_NANOS,
    ensures
        ({
            let (after, actions) = m.handled(
                ServerMessage::Login { username, password, response },
                now,
            );
            &&& actions.len() == 0
            &&& after.login == (LoginState::Pending {
                username,
                password,
                response,
                deadline: (now + 5_000_000_000) as u128,
            })
            &&& after.connection matches ConnectionModel::Connected { inbox }
            &&& inbox.last() == ServerMessage::SendMessage(Request::Login { username, password })
        }),
{
}

/// A login that the server accepts is answered with success: we count as logged in with
/// that name and password, the client is told, and the server learns what we share, that
/// we have no parent, that we are online, and where we listen if we do.
pub proof fn lemma_accepted_login(m: ServerModel, now: u128)
    requires
        m.connection matches ConnectionModel::Connected { inbox } && inbox.len() == 0,
        m.login is Pending,
    ensures
        ({
            let (after, actions) = m.handled(ServerMessage::LoginStatus(true), now);
            &&& after.login == (LoginState::LoggedIn {
                username: m.login->Pending_username,
                password: m.login->Pending_password,
            })
            &&& actions.len() == 2
            &&& actions[0] == (ServerAction::Reply { response: m.login->response, answer: Ok(true) })
            &&& actions[1] == (ServerAction::Event { event: ServerEvent::LoginSucceeded })
            &&& after.connection matches ConnectionModel::Connected { inbox }
            &&& inbox[0] == ServerMessage::SendMessage(
                Request::SharedFolders { folders: 1, files: 499 },
            )
            &&& inbox[1] == ServerMessage::SendMessage(Request::NoParent)
            &&& inbox[2] == ServerMessage::SendMessage(Request::SetStatus { status: 2 })
            &&& m.enable_listen ==> inbox.len() == 4 && inbox[3] == ServerMessage::SendMessage(
                Request::SetWaitPort { port: m.listen_port },
            )
            &&& !m.enable_listen ==> inbox.len() == 3
        }),
{
}

/// A login that the server refuses is answered with that error, and leaves us logged out.
pub proof fn lemma_refused_login(m: ServerModel, now: u128)
    requires
        m.is_connected(),
        m.login is Pending,
    ensures
        ({
            let (after, actions) = m.handled(ServerMessage::LoginStatus(false), now);
            &&& after == (ServerModel { login: LoginState::NotAttempted, ..m })
            &&& actions.len() == 1
            &&& actions[0] == (ServerAction::Reply {
                response: m.login->response,
                answer: Err(SoulseekRs::AuthenticationFailed),
            })
        }),
{
}

/// A login that is not answered within its time is answered with that error, at the first
/// tick after it, and not before.
pub proof fn lemma_login_takes_too_long(m: ServerModel, now: u128)
    requires
        m.is_connected(),
        m.login is Pending,
    ensures
        ({
            let (after, actions) = m.ticked(now);
            if now >= m.login->deadline {
                &&& after.login == LoginState::NotAttempted
                &&& actions[0] == (ServerAction::Reply {
                    response: m.login->response,
                    answer: Err(SoulseekRs::Timeout),
                })
            } else {
                &&& after.login == m.login
                &&& actions == seq![ServerAction::Read]
            }
        }),
{
}

/// What is sent over a connection that stands is what was asked: a request as it is, a
/// search with its number and words, a question for an address with the name, and a
/// pierced firewall with its token.
pub proof fn lemma_what_is_asked_is_sent(
    m: ServerModel,
    request: Request,
    token: SearchToken,
    query: String,
    username: String,
    pierce: PierceToken,
    now: u128,
)
    requires
        m.is_connected(),
    ensures
        m.handled(ServerMessage::SendMessage(request), now) == (
            m,
            seq![ServerAction::Write { request }],
        ),
        m.handled(ServerMessage::GetPeerAddress(username), now) == (
            m,
            seq![ServerAction::Write { request: Request::GetPeerAddress { username } }],
        ),
        m.handled(ServerMessage::PierceFirewall(pierce), now) == (
            m,
            seq![ServerAction::Write { request: Request::PierceFirewall { token: pierce.0 } }],
        ),
        ({
            let (after, actions) = m.handled(ServerMessage::FileSearch { token, query }, now);
            &&& actions.len() == 0
            &&& after.login == m.login
            &&& after.connection->inbox == m.connection->inbox.push(
                ServerMessage::SendMessage(Request::FileSearch { token: token.0, query }),
            )
        }),
{
    let (after, _) = m.handled(ServerMessage::FileSearch { token, query }, now);
    assert(after.connection->inbox =~= m.connection->inbox.push(
        ServerMessage::SendMessage(Request::FileSearch { token: token.0, query }),
    ));
}

/// What the server tells of peers reaches the client as it is: whom to connect to, unless
/// it is for the distributed network, and where a peer is.
pub proof fn lemma_what_the_server_tells_is_passed_on(
    m: ServerModel,
    peer: Peer,
    username: String,
    host: String,
    port: u32,
    obfuscation_type: u32,
    obfuscated_port: u16,
    now: u128,
)
    requires
        m.is_connected(),
    ensures
        ({
            let (after, actions) = m.handled(ServerMessage::ConnectToPeer(peer), now);
            &&& after == m
            &&& match peer.connection_type {
                ConnectionType::P => actions == seq![
                    ServerAction::Event { event: ServerEvent::ConnectToPeer(peer) },
                ],
                ConnectionType::F => actions == seq![
                    ServerAction::Event { event: ServerEvent::ConnectToPeer(peer) },
                ],
                ConnectionType::D => actions.len() == 0,
            }
        }),
        m.handled(
            ServerMessage::GetPeerAddressResponse {
                username,
                host,
                port,
                obfuscation_type,
                obfuscated_port,
            },
            now,
        ) == (
            m,
            seq![
                ServerAction::Event {
                    event: ServerEvent::GetPeerAddressResponse {
                        username,
                        host,
                        port,
                        obfuscation_type,
                        obfuscated_port,
                    },
                },
            ],
        ),
{
}

/// A connection that is lost is counted as the first attempt, and each attempt that fails
/// as one more; the client is told of the loss.
pub proof fn lemma_losses_are_counted(m: ServerModel, now: u128)
    ensures
        ({
            let (after, actions) = m.disconnected(now);
            &&& after.connection matches ConnectionModel::Disconnected { attempt, last }
            &&& last == Some(now)
            &&& m.connection is Connected ==> attempt == 1
            &&& m.connection matches ConnectionModel::Connecting { attempt: n, .. } ==> (n
                < u32::MAX ==> attempt == n + 1)
            &&& m.connection matches ConnectionModel::Disconnected { attempt: n, .. } ==> (n
                < u32::MAX ==> attempt == n + 1)
            &&& !(m.connection is Disconnected) && !(m.login is Pending) ==> actions.len() > 0
                && actions[0] == (ServerAction::Event { event: ServerEvent::ServerDisconnected })
            &&& m.login is LoggedIn ==> after.login == m.login
        }),
{
}

/// A lost connection is tried again when the wait is over and not before: the least delay
/// at first, and twice as long with each attempt, up to the greatest.
pub proof fn lemma_when_it_is_tried_again(m: ServerModel, then: u128, attempt: u32, now: u128)
    requires
        m.connection == (ConnectionModel::Disconnected { attempt, last: Some(then) }),
        then <= now,
        attempt >= 1,
    ensures
        ({
            let (after, actions) = m.ticked(now);
            &&& !(m.login is LoggedIn) ==> !actions.contains(ServerAction::Dial)
            &&& m.reconnect is Disabled ==> !actions.contains(ServerAction::Dial)
            &&& m.reconnect matches ReconnectSettings::EnabledExponentialBackoff {
                min_delay,
                max_delay,
                max_attempts,
            } ==> {
                let wait = super::server_actor::backoff_secs(
                    min_delay@ / 1_000_000_000,
                    max_delay@ / 1_000_000_000,
                    attempt as nat,
                );
                &&& max_attempts matches Some(max) ==> (attempt > max ==> !actions.contains(
                    ServerAction::Dial,
                ))
                &&& now - then < 1_000_000_000 * wait ==> !actions.contains(ServerAction::Dial)
                &&& m.login is LoggedIn && now - then >= 1_000_000_000 * wait && (
                max_attempts matches Some(max) ==> attempt <= max) ==> actions.contains(
                    ServerAction::Dial,
                )
            }
        }),
{
    let (after, actions) = m.ticked(now);
    if m.reconnect_due(now) {
        assert(actions.last() == ServerAction::Dial);
    } else {
        assert forall|i: int| 0 <= i < actions.len() implies actions[i] != ServerAction::Dial by {}
    }
}

/// The wait is the least delay at the first attempt, doubles with each, and is never more
/// than the greatest.
pub proof fn lemma_waits(min_secs: nat, max_secs: nat)
    requires
        4 * min_secs <= max_secs,
    ensures
        super::server_actor::backoff_secs(min_secs, max_secs, 1) == min_secs,
        super::server_actor::backoff_secs(min_secs, max_secs, 2) == 2 * min_secs,
        super::server_actor::backoff_secs(min_secs, max_secs, 3) == 4 * min_secs,
{
    reveal_with_fuel(super::server_actor::power_of_two, 4);
    assert(super::server_actor::power_of_two(0) == 1);
    assert(super::server_actor::power_of_two(1) == 2);
    assert(super::server_actor::power_of_two(2) == 4);
    assert(min_secs * 1 == min_secs && min_secs * 2 == 2 * min_secs && min_secs * 4 == 4
        * min_secs);
}

/// What a peer sends reaches the client as it is: its answer to a search, the file it
/// proposes to send, and the file it refuses.
pub proof fn lemma_what_a_peer_sends_is_passed_on(
    m: PeerModel,
    result: SearchResult,
    transfer: Transfer,
    username: String,
    filename: SoulseekPath,
)
    requires
        !(m.state is Connecting),
    ensures
        m.handled(PeerMessage::FileSearchResult(result)) == (
            m,
            seq![PeerAction::Event { event: PeerEvent::SearchResult(result) }],
        ),
        m.handled(PeerMessage::UploadFailed(username, filename)) == (
            m,
            seq![PeerAction::Event { event: PeerEvent::UploadFailed(username, filename) }],
        ),
        ({
            let (after, actions) = m.handled(PeerMessage::TransferRequest(transfer));
            &&& after == m
            &&& actions[0] == (PeerAction::Event {
                event: PeerEvent::UpdateDownloadTokens(transfer, m.peer.username),
            })
            &&& m.self_handle ==> actions.len() == 2 && actions[1] == (PeerAction::SendSelf {
                message: PeerMessage::SendMessage(Request::TransferResponse { transfer }),
            })
            &&& !m.self_handle ==> actions.len() == 1
        }),
{
}

/// A transfer that a peer allows is fetched from that peer, with the peer's token; one that
/// it does not allow is not.
pub proof fn lemma_allowed_transfer_is_fetched(m: PeerModel, token: u32, reason: Option<String>)
    requires
        !(m.state is Connecting),
    ensures
        m.handled(PeerMessage::TransferResponse { token, allowed: true, reason }) == (
            m,
            seq![
                PeerAction::Event {
                    event: PeerEvent::DownloadFromPeer { token, peer: m.peer, allowed: true },
                },
            ],
        ),
        m.handled(PeerMessage::TransferResponse { token, allowed: false, reason }).1.len() == 0,
{
}

/// What a peer is asked is written to it, where there is a stream: to queue a file, to
/// transfer one under our token, or any other request.
pub proof fn lemma_what_a_peer_is_asked_is_written(
    m: PeerModel,
    filename: SoulseekPath,
    download: Download,
    request: Request,
)
    requires
        !(m.state is Connecting),
        m.stream,
    ensures
        m.handled(PeerMessage::QueueUpload(filename)) == (
            m,
            seq![PeerAction::Write { request: Request::QueueUpload { filename } }],
        ),
        m.handled(PeerMessage::RequestTransfer(download)) == (
            m,
            seq![
                PeerAction::Write {
                    request: Request::TransferRequest {
                        filename: download.filename,
                        token: download.token.0,
                    },
                },
            ],
        ),
        m.handled(PeerMessage::SendMessage(request)) == (
            m,
            seq![PeerAction::Write { request }],
        ),
{
}

/// A peer that names itself goes by that name from then on; nothing else of it changes.
pub proof fn lemma_peer_names_itself(m: PeerModel, username: String)
    ensures
        ({
            let (after, actions) = m.handled(PeerMessage::SetUsername(username));
            &&& actions.len() == 0
            &&& after.peer.username == username
            &&& after.peer.host == m.peer.host && after.peer.port == m.peer.port
                && after.peer.token == m.peer.token
            &&& after.queued == m.queued && after.stream == m.stream && after.state == m.state
        }),
{
}

/// When a peer is lost the client is told which, and why where that is known.
pub proof fn lemma_lost_peer_is_told_of(m: PeerModel, error: Option<SoulseekRs>)
    ensures
        ({
            let (after, actions) = m.disconnected(error);
            &&& !after.stream
            &&& actions.len() == 1
            &&& actions[0] == (PeerAction::Event {
                event: PeerEvent::PeerDisconnected(m.peer.username, error),
            })
        }),
{
}

} // verus!
