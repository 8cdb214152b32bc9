use std::collections::{HashSet, VecDeque};

use soulseek_rs::soulseek::client::context::{
    ClientContext, OperationChannel, RegistryHandle, ServerChannel,
};
use soulseek_rs::soulseek::client::counted::{
    self, state_monitor, ConnectedWorker as CountedWorker, WorkerOperation,
};
use soulseek_rs::soulseek::client::handle::{DownloadHandle, RecvOutcome};
use soulseek_rs::soulseek::client::limiter::{PendingDownload, SearchRateLimiter};
use soulseek_rs::soulseek::client::operation::{
    process_failed_uploads, update_download_tokens, ClientAction, ClientOperation, WorkerEvent,
};
use soulseek_rs::soulseek::client::session::{Client, ClientState, LoginAnswer};
use soulseek_rs::soulseek::client::settings::{
    ClientSettings, DownloadRateLimitSettings, PlainTextUnencrypted, ReconnectSettings,
};
use soulseek_rs::soulseek::client::slot_client::{ActiveConnection, Client as SlotClient};
use soulseek_rs::soulseek::client::slots::{
    self, CancelFlag, ConnectedWorker as SlotWorker, PiercedFailure, QueuedDownload, SlotAction,
    SlotOperation,
};
use soulseek_rs::soulseek::actor::server_actor::ServerMessage;
use soulseek_rs::soulseek::download_peer::DownloadError;
use soulseek_rs::soulseek::error::SoulseekRs;
use soulseek_rs::soulseek::path::SoulseekPath;
use soulseek_rs::soulseek::peer::{ConnectionType, NewPeer, Peer, StreamHandle};
use soulseek_rs::soulseek::token::{DownloadToken, PeerTransferToken, PierceToken, SearchToken};
use soulseek_rs::soulseek::types::{
    Download, DownloadStatus, SearchResult, StatusChannel, Transfer,
};
use soulseek_rs::time::Duration;

fn download(token: u32, user: &str, file: &str) -> Download {
    Download {
        username: user.to_string(),
        filename: SoulseekPath(file.to_string()),
        token: DownloadToken(token),
        size: 100,
        download_directory: "test".to_string(),
        status: DownloadStatus::Queued,
        sender: StatusChannel(token as u64),
    }
}

fn pending(token: u32, user: &str) -> PendingDownload {
    PendingDownload {
        filename: SoulseekPath(format!("file{token}")),
        username: user.to_string(),
        size: 100,
        download_directory: "dir".to_string(),
        token: DownloadToken(token),
        status_sender: StatusChannel(token as u64),
    }
}

fn queued(token: u32, user: &str) -> QueuedDownload {
    QueuedDownload { pending: pending(token, user), cancel: CancelFlag(1), progress_timeout: None }
}

fn peer(connection_type: ConnectionType, token: Option<u32>) -> Peer {
    Peer {
        username: "peer".to_string(),
        connection_type,
        host: "1.2.3.4".to_string(),
        port: 5,
        token: token.map(PierceToken),
        privileged: None,
        unknown: None,
        obfuscated_port: None,
    }
}

fn result(token: u32) -> SearchResult {
    SearchResult {
        token: SearchToken(token),
        files: Vec::new(),
        slots: 1,
        speed: 2,
        username: "peer".to_string(),
    }
}

fn exercise_context() {
    let mut context = ClientContext::new();
    let token = DownloadToken(123);
    let new_token = DownloadToken(1234);
    let download = Download {
        username: "test".to_string(),
        filename: SoulseekPath("test.txt".to_string()),
        token,
        size: 100,
        download_directory: "test".to_string(),
        status: DownloadStatus::Queued,
        sender: StatusChannel(0),
    };
    context.add_download(download);
    assert!(context.get_download_by_token(DownloadToken(123)).is_some());
    assert_eq!(context.get_download_tokens(), vec![DownloadToken(123)]);
    assert_eq!(context.get_downloads().len(), 1);
    if let Some(download) = context.get_download_by_token_mut(token) {
        assert_eq!(download.token, token);
        download.token = new_token
    }
    assert!(context.get_download_by_token(new_token).is_some());
    assert_eq!(context.get_download_tokens(), vec![new_token]);
    context.remove_download(new_token);
    assert_eq!(context.get_downloads().len(), 0);
    assert!(context.get_download_by_token(DownloadToken(1234)).is_none());
}

#[test]
fn client_test_client_context_downloads() {
    exercise_context();
}

#[test]
fn mod_test_client_context_downloads() {
    exercise_context();
}

#[test]
fn test_client_context_construction() {
    let mut context = ClientContext::new();
    context.peer_registry = Some(RegistryHandle(1));
    drop(context);
}

#[test]
fn mod_test_client_settings_default_compiles() {
    let settings = ClientSettings::default();
    assert_eq!(settings.listen_port, 2234);
    assert!(settings.search_rate_limit_settings.is_some());
    assert!(settings.download_rate_limit_settings.is_some());
}

#[test]
fn test_client_settings_default_compiles() {
    let settings = ClientSettings::default();
    assert_eq!(settings.listen_port, 2234);
    assert!(settings.search_rate_limit_settings.is_some());
    assert!(settings.download_rate_limit_settings.is_some());
}

#[test]
fn client_test_client_settings_default_compiles() {
    let settings = ClientSettings::default();
    assert_eq!(settings.listen_port, 2234);
    assert!(settings.search_rate_limit_settings.is_some());
    assert!(settings.download_rate_limit_settings.is_some());
}

#[test]
fn default_settings() {
    let settings = ClientSettings::default();
    assert!(settings.enable_listen);
    assert_eq!(settings.server_address.display(), "server.slsknet.org:2416");
    assert!(matches!(
        settings.reconnect_settings,
        ReconnectSettings::EnabledExponentialBackoff { .. }
    ));
}

#[test]
fn test_search_rate_limiter() {
    let mut lim = SearchRateLimiter::new(2, Duration::from_secs(10));
    assert!(lim.wait_duration().is_none());
    lim.record();
    assert!(lim.wait_duration().is_none());
    lim.record();
    assert!(lim.wait_duration().is_some());
}

#[test]
fn waiting_as_long_as_told_helps() {
    let mut lim = SearchRateLimiter::new(2, Duration::from_nanos(100));
    lim.record_at(10);
    lim.record_at(30);
    let wait = lim.wait_duration_at(50).unwrap();
    assert_eq!(wait.as_nanos(), 60);
    assert!(lim.wait_duration_at(109).is_some());
    assert!(lim.wait_duration_at(110).is_none());
}

// ---- the session --------------------------------------------------------------------------

fn session(limit: Option<u32>) -> Client {
    let mut settings = ClientSettings::new(
        PlainTextUnencrypted("me".to_string()),
        PlainTextUnencrypted("secret".to_string()),
    );
    settings.download_rate_limit_settings =
        limit.map(|n| DownloadRateLimitSettings { concurrent_downloads: n });
    Client::with_settings(settings)
}

fn connected(limit: Option<u32>) -> Client {
    let mut client = session(limit);
    let request = client.connect(OperationChannel(1), RegistryHandle(2)).unwrap();
    assert_eq!(request.username, "me");
    assert_eq!(request.password, "secret");
    client.server_started(ServerChannel(3));
    client.login_answered(LoginAnswer::Answered(Ok(true))).unwrap();
    client.handle_client_operation(ClientOperation::SetServerSender(ServerChannel(3)), false);
    client.handle_client_operation(ClientOperation::LoginSucceeded, false);
    client
}

fn ask(client: &mut Client, name: &str) -> Vec<ClientAction> {
    client
        .download(
            SoulseekPath(name.to_string()),
            "peer".to_string(),
            10,
            "dir".to_string(),
            StatusChannel(9),
        )
        .1
}

#[test]
fn login_of_a_session() {
    let mut client = session(None);
    client.connect(OperationChannel(1), RegistryHandle(2));
    assert_eq!(client.state, ClientState::Connecting);
    assert!(matches!(
        client.login_answered(LoginAnswer::Answered(Ok(false))),
        Err(SoulseekRs::AuthenticationFailed)
    ));
    assert!(matches!(client.login_answered(LoginAnswer::Dropped), Err(SoulseekRs::Timeout)));
    let mut client = connected(None);
    assert_eq!(client.state, ClientState::Connected);
    assert!(client.connect(OperationChannel(1), RegistryHandle(2)).is_none());
    client.handle_client_operation(ClientOperation::ServerDisconnected, false);
    assert_eq!(client.state, ClientState::Disconnected);
}

#[test]
fn downloads_that_wait_begin_in_order() {
    let mut client = session(None);
    client.connect(OperationChannel(1), RegistryHandle(2));
    assert!(!ask(&mut client, "a").iter().any(|a| matches!(a, ClientAction::QueueUpload { .. })));
    ask(&mut client, "b");
    let actions = client.handle_client_operation(ClientOperation::LoginSucceeded, false);
    let names: Vec<String> = actions
        .iter()
        .filter_map(|a| match a {
            ClientAction::QueueUpload { filename, .. } => Some(filename.as_str().to_string()),
            _ => None,
        })
        .collect();
    assert_eq!(names, vec!["a", "b"]);
}

#[test]
fn no_more_downloads_than_allowed() {
    let mut client = connected(Some(1));
    let first = ask(&mut client, "a");
    assert!(first.iter().any(|a| matches!(a, ClientAction::QueueUpload { .. })));
    let second = ask(&mut client, "b");
    assert!(!second.iter().any(|a| matches!(a, ClientAction::QueueUpload { .. })));
    assert_eq!(client.download_limiter.as_ref().unwrap().active, 1);
    let freed = client.handle_client_operation(ClientOperation::DownloadSlotFreed, false);
    assert!(matches!(
        &freed[..],
        [ClientAction::QueueUpload { filename, .. }] if filename.as_str() == "b"
    ));
    assert_eq!(client.download_limiter.as_ref().unwrap().active, 1);
    assert_eq!(client.get_all_downloads().len(), 2);
}

#[test]
fn searches_of_a_session() {
    let mut client = session(None);
    assert!(matches!(client.search("abc"), Err(SoulseekRs::NotConnected)));
    let mut client = connected(None);
    match client.search("abc") {
        Ok(ServerMessage::FileSearch { token, query }) => {
            assert_eq!(token, SearchToken(0x90015));
            assert_eq!(query, "abc");
        },
        other => panic!("{other:?}"),
    }
    client.handle_client_operation(ClientOperation::SearchResult(result(0x90015)), false);
    client.handle_client_operation(ClientOperation::SearchResult(result(1)), false);
    assert_eq!(client.get_search_results_count("abc"), 1);
    assert_eq!(client.get_search_results("abc").len(), 1);
    assert_eq!(client.get_search_results_count("other"), 0);
    assert!(client.try_get_search_results("other").is_none());
    assert_eq!(client.get_all_searches().len(), 1);
    client.search("abc").unwrap();
    assert_eq!(client.get_search_results_count("abc"), 0);
}

#[test]
fn when_a_search_is_over() {
    let s = Duration::from_secs;
    assert!(Client::search_over(true, s(0), s(5)));
    assert!(!Client::search_over(false, s(4), s(5)));
    assert!(Client::search_over(false, s(5), s(5)));
}

#[test]
fn peers_of_a_session() {
    let mut client = connected(None);
    let actions = client.handle_client_operation(
        ClientOperation::ConnectToPeer(peer(ConnectionType::P, None)),
        false,
    );
    assert!(matches!(&actions[..], [ClientAction::RegisterPeer { stream: None, .. }]));
    let actions = client.handle_client_operation(
        ClientOperation::PierceFireWall(peer(ConnectionType::F, Some(7))),
        false,
    );
    assert!(matches!(
        &actions[..],
        [
            ClientAction::SendToServer {
                message: ServerMessage::PierceFirewall(PierceToken(7)),
                ..
            },
            ClientAction::FetchPierced { .. }
        ]
    ));
    let new_peer = |stream| {
        ClientOperation::NewPeer(NewPeer {
            username: "peer".to_string(),
            connection_type: ConnectionType::P,
            token: PierceToken(1),
            host: "h".to_string(),
            port: 1,
            stream: StreamHandle(stream),
        })
    };
    let actions = client.handle_client_operation(new_peer(4), false);
    assert!(matches!(
        &actions[..],
        [
            ClientAction::SendToServer { message: ServerMessage::GetPeerAddress(_), .. },
            ClientAction::RegisterPeer { stream: Some(StreamHandle(4)), .. }
        ]
    ));
    let actions = client.handle_client_operation(new_peer(5), true);
    assert!(matches!(&actions[..], [ClientAction::RegisterPeer { .. }]));
    assert!(!ClientOperation::ConnectToPeer(peer(ConnectionType::F, None)).is_ok());
    assert!(ClientOperation::ConnectToPeer(peer(ConnectionType::F, Some(1))).is_ok());
}

#[test]
fn failure_spares_others() {
    let mut downloads = vec![
        download(1, "peer", "a"),
        download(2, "other", "a"),
        download(3, "peer", "b"),
    ];
    let notices = process_failed_uploads(
        &mut downloads,
        "peer",
        &Some(SoulseekPath("a".to_string())),
    );
    assert!(matches!(
        &notices[..],
        [ClientAction::Notify { channel: StatusChannel(1), status: DownloadStatus::Failed }]
    ));
    let left: Vec<u32> = downloads.iter().map(|d| d.token.0).collect();
    assert_eq!(left, vec![2, 3]);
    process_failed_uploads(&mut downloads, "peer", &None);
    assert_eq!(downloads.len(), 1);
}

#[test]
fn proposed_transfer_renumbers_the_download() {
    let mut downloads = vec![download(1, "peer", "a"), download(2, "other", "a")];
    let transfer = Transfer {
        direction: 1,
        token: DownloadToken(77),
        filename: SoulseekPath("a".to_string()),
        size: 5,
    };
    update_download_tokens(&mut downloads, transfer, "peer".to_string());
    assert!(downloads.iter().any(|d| d.token == DownloadToken(77) && d.size == 5));
    assert!(downloads.iter().any(|d| d.token == DownloadToken(2)));
    assert!(!downloads.iter().any(|d| d.token == DownloadToken(1)));
}

// ---- the worker that counts ----------------------------------------------------------------

#[test]
fn counted_worker_keeps_its_limit() {
    let mut w = CountedWorker::new("me".to_string(), VecDeque::new(), Some(1));
    let actions = w.handle_operation(WorkerOperation::RequestDownload(pending(1, "p")), false);
    assert!(!actions.iter().any(|a| matches!(a, ClientAction::QueueUpload { .. })));
    w.handle_operation(WorkerOperation::RequestDownload(pending(2, "p")), false);
    let actions = w.handle_operation(WorkerOperation::LoginSucceeded, false);
    let begun =
        actions.iter().filter(|a| matches!(a, ClientAction::QueueUpload { .. })).count();
    assert_eq!(begun, 1);
    assert_eq!(w.active_downloads, 1);
    assert_eq!(w.pending.len(), 1);
    let actions = w.handle_operation(
        WorkerOperation::DownloadCompleted(DownloadToken(1), Ok("path".to_string())),
        false,
    );
    assert!(actions.iter().any(|a| matches!(a, ClientAction::QueueUpload { .. })));
    assert_eq!(w.active_downloads, 1);
    assert_eq!(w.pending.len(), 0);
    w.handle_operation(WorkerOperation::PierceFirewallPreTokenFailed, false);
    assert_eq!(w.active_downloads, 0);
}

#[test]
fn counted_worker_tells_what_became_of_a_fetch() {
    assert!(matches!(
        counted::direct_fetch_ended(DownloadToken(1), Ok("p".to_string())),
        WorkerOperation::DownloadCompleted(DownloadToken(1), Ok(_))
    ));
    assert!(matches!(
        counted::direct_fetch_ended(DownloadToken(1), Err(DownloadError::DownloadInfoMissing)),
        WorkerOperation::DownloadCompleted(DownloadToken(1), Err(_))
    ));
    assert!(matches!(
        counted::pierced_fetch_ended(Err(DownloadError::InvalidTokenBytes)),
        WorkerOperation::PierceFirewallPreTokenFailed
    ));
    let mut state = ClientState::Connecting;
    state_monitor(&mut state, WorkerEvent::LoginSucceeded);
    assert_eq!(state, ClientState::Connected);
    state_monitor(&mut state, WorkerEvent::ServerDisconnected);
    assert_eq!(state, ClientState::Disconnected);
}

// ---- the worker with slots -----------------------------------------------------------------

#[test]
fn slot_worker_keeps_its_limit() {
    let mut w = SlotWorker::new("me".to_string(), VecDeque::from([queued(1, "p")]), Some(1));
    let actions = w.handle_operation(SlotOperation::LoginSucceeded, false);
    assert!(matches!(&actions[..], [SlotAction::QueueUpload { .. }]));
    let actions = w.handle_operation(SlotOperation::RequestDownload(queued(2, "q")), false);
    assert!(matches!(
        &actions[..],
        [SlotAction::Notify { channel: StatusChannel(2), status: DownloadStatus::Queued }]
    ));
    assert_eq!(w.active_slots, HashSet::from([1]));
    let actions = w.handle_operation(
        SlotOperation::DownloadCompleted(DownloadToken(1), Err(SoulseekRs::DownloadTimedOut)),
        false,
    );
    assert!(matches!(
        &actions[..],
        [
            SlotAction::Notify { channel: StatusChannel(1), status: DownloadStatus::TimedOut },
            SlotAction::QueueUpload { .. }
        ]
    ));
    assert_eq!(w.active_slots, HashSet::from([2]));
    assert_eq!(w.query_downloads().len(), 2);
}

#[test]
fn slot_worker_forgets_what_is_cancelled() {
    let mut w = SlotWorker::new("me".to_string(), VecDeque::new(), Some(1));
    w.handle_operation(SlotOperation::LoginSucceeded, false);
    w.handle_operation(SlotOperation::RequestDownload(queued(1, "p")), false);
    w.handle_operation(SlotOperation::RequestDownload(queued(2, "p")), false);
    let actions = w.handle_operation(SlotOperation::CancelDownload(DownloadToken(1)), false);
    assert!(matches!(
        &actions[..],
        [
            SlotAction::Notify { channel: StatusChannel(1), status: DownloadStatus::Cancelled },
            SlotAction::QueueUpload { .. }
        ]
    ));
    assert!(!w.query_downloads().iter().any(|d| d.download.token == DownloadToken(1)));
    w.handle_operation(SlotOperation::PeerDisconnected("p".to_string(), None), false);
    assert!(w.query_downloads().is_empty());
    assert!(w.active_slots.is_empty());
}

#[test]
fn slot_worker_knows_downloads_by_the_number_of_the_peer() {
    let mut w = SlotWorker::new("me".to_string(), VecDeque::new(), None);
    w.handle_operation(SlotOperation::RequestDownload(queued(1, "peer")), false);
    let transfer = Transfer {
        direction: 1,
        token: DownloadToken(55),
        filename: SoulseekPath("file1".to_string()),
        size: 9,
    };
    w.handle_operation(
        SlotOperation::UpdateDownloadTokens(transfer, "peer".to_string()),
        false,
    );
    let found = w.query_download_by_token(PeerTransferToken(55)).unwrap();
    assert_eq!(found.download.token, DownloadToken(1));
    assert_eq!(found.download.size, 9);
    assert!(w.query_download_by_token(PeerTransferToken(1)).is_none());
    let actions = w.handle_operation(
        SlotOperation::DownloadFromPeer(
            PeerTransferToken(55),
            peer(ConnectionType::P, None),
            true,
        ),
        false,
    );
    assert!(matches!(&actions[..], [SlotAction::FetchDirect { .. }]));
    let candidates = w.pierce_candidates();
    let failure = PiercedFailure {
        peer_token: Some(PeerTransferToken(55)),
        error: DownloadError::Cancelled,
    };
    assert!(matches!(
        slots::pierced_fetch_ended(&candidates, None, Err(failure)),
        Some(SlotOperation::DownloadCompleted(
            DownloadToken(1),
            Err(SoulseekRs::DownloadCancelled)
        ))
    ));
    let failure = PiercedFailure { peer_token: None, error: DownloadError::InvalidTokenBytes };
    assert!(slots::pierced_fetch_ended(&candidates, None, Err(failure)).is_none());
}

#[test]
fn slot_worker_searches() {
    let mut w = SlotWorker::new("me".to_string(), VecDeque::new(), None);
    w.handle_operation(SlotOperation::InitiateSearch(SearchToken(1), "q".to_string()), false);
    w.handle_operation(SlotOperation::SearchResult(result(1)), false);
    w.handle_operation(SlotOperation::SearchResult(result(2)), false);
    assert_eq!(w.query_search_results("q").len(), 1);
    assert_eq!(w.query_search_results("r").len(), 0);
}

#[test]
fn slot_worker_does_not_begin_before_login() {
    let mut w = SlotWorker::new("me".to_string(), VecDeque::new(), None);
    let actions = w.handle_operation(SlotOperation::RequestDownload(queued(1, "p")), false);
    assert!(!actions.iter().any(|a| matches!(a, SlotAction::QueueUpload { .. })));
    w.handle_operation(SlotOperation::LoginSucceeded, false);
    w.handle_operation(SlotOperation::ServerDisconnected, false);
    assert_eq!(w.state, ClientState::Disconnected);
    assert!(!w.logged_in);
}

// ---- handles ---------------------------------------------------------------------------------

#[test]
fn handle_of_a_download() {
    let mut h = DownloadHandle::new(None, None, Some(OperationChannel(3)), DownloadToken(4));
    assert_eq!(h.recv_limit().as_secs(), 180);
    assert!(matches!(
        h.recv_typed(Some(Some(DownloadStatus::Completed))),
        RecvOutcome::Status(DownloadStatus::Completed)
    ));
    assert!(matches!(h.recv_typed(Some(None)), RecvOutcome::Closed));
    assert!(!h.cancelled);
    assert!(matches!(h.recv_typed(None), RecvOutcome::Timeout));
    assert!(h.cancelled);
    assert_eq!(h.recv(None), Some(DownloadStatus::Cancelled));
    assert_eq!(h.recv(Some(None)), None);
    assert!(matches!(
        h.dropped(),
        Some((OperationChannel(3), SlotOperation::CancelDownload(DownloadToken(4))))
    ));
    let mut h = DownloadHandle::new(None, Some(Duration::from_secs(7)), None, DownloadToken(4));
    assert_eq!(h.recv_limit().as_secs(), 7);
    h.cancel();
    assert!(h.cancelled);
    assert!(h.dropped().is_none());
}

#[test]
fn client_with_slots() {
    let mut client = SlotClient::new(
        PlainTextUnencrypted("me".to_string()),
        PlainTextUnencrypted("secret".to_string()),
    );
    assert!(matches!(client.search("abc"), Err(SoulseekRs::NotConnected)));
    assert!(client.wait_for_search_rate_limit().is_none());
    let plan = client.download(
        SoulseekPath("abc".to_string()),
        "peer".to_string(),
        1,
        "dir".to_string(),
        None,
        None,
        StatusChannel(1),
        CancelFlag(2),
    );
    assert!(plan.to_worker.is_none());
    assert_eq!(client.inner.pending_downloads.len(), 1);
    let connect = client.connect().unwrap();
    assert_eq!(connect.pre_pending.len(), 1);
    assert_eq!(connect.request.username, "me");
    assert_eq!(client.inner.pending_downloads.len(), 0);
    client.started(ActiveConnection {
        server_handle: ServerChannel(1),
        op_tx: OperationChannel(2),
    });
    let search = client.search("abc").unwrap();
    assert!(matches!(
        search.to_worker,
        SlotOperation::InitiateSearch(SearchToken(0x90015), q) if q == "abc"
    ));
    assert!(SlotClient::login_answered(LoginAnswer::Answered(Ok(true))).is_ok());
    assert!(matches!(
        SlotClient::login_answered(LoginAnswer::Answered(Ok(false))),
        Err(SoulseekRs::AuthenticationFailed)
    ));
}
