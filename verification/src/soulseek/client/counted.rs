//! A worker that takes the operations of a connection one by one and counts the
//! downloads that run.
use std::collections::VecDeque;

use vstd::prelude::*;

use super::context::{ClientContext, ServerChannel};
use super::limiter::PendingDownload;
use super::operation::{
    connect_to_peer, peer_of, process_failed_uploads, update_download_tokens, ClientAction,
    WorkerEvent,
};
use super::session::ClientState;
use crate::soulseek::actor::server_actor::ServerMessage;
use crate::soulseek::download_peer::{DownloadError, DownloadPeer};
use crate::soulseek::error::{Result, SoulseekRs};
use crate::soulseek::path::SoulseekPath;
use crate::soulseek::peer::{ConnectionType, NewPeer, Peer};
use crate::soulseek::token::DownloadToken;
use crate::soulseek::types::{DownloadStatus, SearchResult, Transfer};

verus! {

/// What the actors and the listener tell the worker.
#[derive(Debug)]
pub enum WorkerOperation {
    NewPeer(NewPeer),
    ConnectToPeer(Peer),
    SearchResult(SearchResult),
    PeerDisconnected(String, Option<SoulseekRs>),
    PierceFireWall(Peer),
    DownloadFromPeer(DownloadToken, Peer, bool),
    UpdateDownloadTokens(Transfer, String),
    GetPeerAddressResponse {
        username: String,
        host: String,
        port: u32,
        obfuscation_type: u32,
        obfuscated_port: u16,
    },
    UploadFailed(String, SoulseekPath),
    SetServerSender(ServerChannel),
    /// The connection to the server was lost; its actor connects again.
    ServerDisconnected,
    /// The login was confirmed; downloads that wait may begin.
    LoginSucceeded,
    /// A download has ended, with the path of the file or an error.
    DownloadCompleted(DownloadToken, Result<String>),
    /// A download is asked for.
    RequestDownload(PendingDownload),
    /// The fetch of a file that the peer was to name failed before it was known
    /// which; it no longer counts as running.
    PierceFirewallPreTokenFailed,
}

/// A file connection carries a token.
pub open spec fn operation_ok(op: WorkerOperation) -> bool {
    match op {
        WorkerOperation::ConnectToPeer(peer) => super::operation::peer_has_token(peer),
        WorkerOperation::PierceFireWall(peer) => super::operation::peer_has_token(peer),
        _ => true,
    }
}

impl WorkerOperation {
    /// Whether a file connection carries a token.
    pub fn is_ok(&self) -> (r: bool)
        ensures
            r == operation_ok(*self),
    {
        match self {
            WorkerOperation::ConnectToPeer(peer) => peer.connection_type != ConnectionType::F
                || peer.token.is_some(),
            WorkerOperation::PierceFireWall(peer) => peer.connection_type != ConnectionType::F
                || peer.token.is_some(),
            _ => true,
        }
    }
}

/// The worker of a connection.
#[derive(Debug)]
pub struct ConnectedWorker {
    pub own_username: String,
    pub context: ClientContext,
    /// The actor of the server connection, once it is known.
    pub server_sender: Option<ServerChannel>,
    pub logged_in: bool,
    /// Downloads that wait for the login or for others to end.
    pub pending: VecDeque<PendingDownload>,
    pub max_concurrent: Option<u32>,
    pub active_downloads: u32,
}

/// A worker as a value.
#[verifier::ext_equal]
pub struct WorkerModel {
    pub own_username: String,
    pub context: super::context::ContextModel,
    pub server_sender: Option<ServerChannel>,
    pub logged_in: bool,
    pub pending: Seq<PendingDownload>,
    pub max_concurrent: Option<u32>,
    pub active: u32,
}

impl View for ConnectedWorker {
    type V = WorkerModel;

    open spec fn view(&self) -> WorkerModel {
        WorkerModel {
            own_username: self.own_username,
            context: self.context@,
            server_sender: self.server_sender,
            logged_in: self.logged_in,
            pending: self.pending@,
            max_concurrent: self.max_concurrent,
            active: self.active_downloads,
        }
    }
}

/// The status that the outcome of a download amounts to.
pub open spec fn outcome_status(outcome: Result<String>) -> DownloadStatus {
    match outcome {
        Ok(_) => DownloadStatus::Completed,
        Err(_) => DownloadStatus::Failed,
    }
}

impl WorkerModel {
    /// Another download may run.
    pub open spec fn has_room(self) -> bool {
        match self.max_concurrent {
            Some(max) => self.active < max,
            None => true,
        }
    }

    pub open spec fn with_downloads(
        self,
        downloads: Seq<crate::soulseek::types::Download>,
    ) -> WorkerModel {
        WorkerModel {
            context: super::context::ContextModel { downloads, ..self.context },
            ..self
        }
    }

    /// A download begins: it is noted, counted and asked for.
    pub open spec fn initiated(self, pd: PendingDownload) -> WorkerModel {
        WorkerModel {
            active: (self.active + 1) as u32,
            ..self.with_downloads(self.context.downloads.push(pd.download()))
        }
    }

    /// The download that waits longest no longer waits.
    pub open spec fn without_first(self) -> WorkerModel {
        WorkerModel { pending: self.pending.skip(1), ..self }
    }

    /// Downloads that wait begin as long as another may run.
    pub open spec fn drained(self) -> (WorkerModel, Seq<ClientAction>)
        decreases self.pending.len(),
    {
        if self.has_room() && self.pending.len() > 0 {
            let pd = self.pending[0];
            let (after, rest) = self.without_first().initiated(pd).drained();
            (after, seq![super::operation::ask_for(pd)] + rest)
        } else {
            (self, Seq::empty())
        }
    }

    /// The download that waits longest begins, where we are logged in and another
    /// may run.
    pub open spec fn dequeued(self) -> (WorkerModel, Seq<ClientAction>) {
        if self.logged_in && self.has_room() && self.pending.len() > 0 {
            let pd = self.pending[0];
            (self.without_first().initiated(pd), seq![super::operation::ask_for(pd)])
        } else {
            (self, Seq::empty())
        }
    }

    /// One download less runs, if any did.
    pub open spec fn released(self) -> WorkerModel {
        WorkerModel {
            active: if self.active > 0 {
                (self.active - 1) as u32
            } else {
                0
            },
            ..self
        }
    }

    /// The first download with the token has ended: its caller is told, its status
    /// is set, and the next may begin.
    pub open spec fn completed(self, token: DownloadToken, status: DownloadStatus) -> (
        WorkerModel,
        Seq<ClientAction>,
    ) {
        let downloads = self.context.downloads;
        let notice = match crate::lists::first_where(downloads, super::context::has_token(token)) {
            Some(i) => seq![ClientAction::Notify { channel: downloads[i].sender, status }],
            None => Seq::empty(),
        };
        let (after, begun) = self.with_downloads(
            super::context::with_status(downloads, token, status),
        ).released().dequeued();
        (after, notice + begun)
    }

    /// The downloads of a user, or the one of a file, fail.
    pub open spec fn failing(self, username: Seq<char>, filename: Option<Seq<char>>) -> (
        WorkerModel,
        Seq<ClientAction>,
    ) {
        let downloads = self.context.downloads;
        (
            self.with_downloads(super::operation::surviving(downloads, username, filename)),
            super::operation::failure_notices(
                super::operation::failing(downloads, username, filename),
            ),
        )
    }

    /// A message to the server's actor, where it can be reached.
    pub open spec fn to_server(self, message: ServerMessage) -> Seq<ClientAction> {
        match self.server_sender {
            Some(server) => seq![ClientAction::SendToServer { server, message }],
            None => Seq::empty(),
        }
    }

    /// What an operation does. `peer_known` says whether the registry holds the
    /// peer that the operation is about.
    pub open spec fn step(self, op: WorkerOperation, peer_known: bool) -> (
        WorkerModel,
        Seq<ClientAction>,
    ) {
        match op {
            WorkerOperation::ServerDisconnected => (
                WorkerModel { logged_in: false, ..self },
                seq![ClientAction::Forward(WorkerEvent::ServerDisconnected)],
            ),
            WorkerOperation::LoginSucceeded => {
                let (after, begun) = WorkerModel { logged_in: true, ..self }.drained();
                (after, begun + seq![ClientAction::Forward(WorkerEvent::LoginSucceeded)])
            },
            WorkerOperation::DownloadCompleted(token, outcome) => self.completed(
                token,
                outcome_status(outcome),
            ),
            WorkerOperation::RequestDownload(pd) => if self.logged_in && self.has_room() {
                (self.initiated(pd), seq![super::operation::ask_for(pd)])
            } else {
                (WorkerModel { pending: self.pending.push(pd), ..self }, Seq::empty())
            },
            WorkerOperation::PierceFirewallPreTokenFailed => self.released().dequeued(),
            WorkerOperation::ConnectToPeer(peer) => (
                self,
                super::operation::connecting(peer, None, self.own_username),
            ),
            WorkerOperation::SearchResult(result) => (
                WorkerModel { context: self.context.with_result(result), ..self },
                Seq::empty(),
            ),
            WorkerOperation::PeerDisconnected(username, error) => {
                let stop = seq![ClientAction::StopPeer { username }];
                match error {
                    Some(_) => {
                        let (after, notices) = self.failing(username@, None);
                        (after, stop + notices)
                    },
                    None => (self, stop),
                }
            },
            WorkerOperation::PierceFireWall(peer) => {
                let pierce = match peer.token {
                    Some(token) => self.to_server(ServerMessage::PierceFirewall(token)),
                    None => Seq::empty(),
                };
                (self, pierce + super::operation::connecting(peer, None, self.own_username))
            },
            WorkerOperation::DownloadFromPeer(token, peer, _) => {
                let downloads = self.context.downloads;
                match crate::lists::first_where(downloads, super::context::has_token(token)) {
                    Some(i) => (
                        self,
                        seq![
                            ClientAction::FetchDirect {
                                download: downloads[i],
                                from: DownloadPeer {
                                    username: downloads[i].username,
                                    host: peer.host,
                                    port: peer.port,
                                    own_username: self.own_username,
                                    token: token.0,
                                },
                                allowed: true,
                            },
                        ],
                    ),
                    None => (self, Seq::empty()),
                }
            },
            WorkerOperation::NewPeer(new_peer) => {
                let ask = if peer_known {
                    Seq::empty()
                } else {
                    self.to_server(ServerMessage::GetPeerAddress(new_peer.username))
                };
                (
                    self,
                    ask + super::operation::connecting(
                        super::operation::connected_peer(new_peer),
                        Some(new_peer.stream),
                        self.own_username,
                    ),
                )
            },
            WorkerOperation::GetPeerAddressResponse {
                username,
                host,
                port,
                obfuscation_type,
                obfuscated_port,
            } => if peer_known {
                (self, Seq::empty())
            } else {
                let peer = Peer {
                    username,
                    connection_type: ConnectionType::P,
                    host,
                    port,
                    token: None,
                    privileged: Some(0),
                    unknown: Some(obfuscation_type),
                    obfuscated_port: Some(obfuscated_port as u32),
                };
                (self, super::operation::connecting(peer, None, self.own_username))
            },
            WorkerOperation::UpdateDownloadTokens(transfer, username) => (
                self.with_downloads(
                    super::operation::retokened(self.context.downloads, transfer, username),
                ),
                Seq::empty(),
            ),
            WorkerOperation::UploadFailed(username, filename) => self.failing(
                username@,
                Some(filename@),
            ),
            WorkerOperation::SetServerSender(server) => (
                WorkerModel { server_sender: Some(server), ..self },
                Seq::empty(),
            ),
        }
    }
}

impl ConnectedWorker {
    /// A worker that is not logged in, with downloads that wait already.
    pub fn new(
        own_username: String,
        pending: VecDeque<PendingDownload>,
        max_concurrent: Option<u32>,
    ) -> (r: Self)
        ensures
            r@.own_username == own_username,
            r@.pending == pending@,
            r@.max_concurrent == max_concurrent,
            r@.active == 0,
            !r@.logged_in,
            r@.server_sender is None,
            r@.context == (super::context::ContextModel {
                peer_registry: None,
                sender: None,
                server_sender: None,
                searches: Seq::empty(),
                downloads: Seq::empty(),
            }),
    {
        ConnectedWorker {
            own_username,
            context: ClientContext::new(),
            server_sender: None,
            logged_in: false,
            pending,
            max_concurrent,
            active_downloads: 0,
        }
    }

    fn has_room(&self) -> (r: bool)
        ensures
            r == self@.has_room(),
    {
        match self.max_concurrent {
            Some(max) => self.active_downloads < max,
            None => true,
        }
    }

    /// Let a download begin.
    fn try_initiate(&mut self, pd: PendingDownload, actions: &mut Vec<ClientAction>)
        requires
            old(self)@.active < u32::MAX,
        ensures
            final(self)@ == old(self)@.initiated(pd),
            final(actions)@ == old(actions)@.push(super::operation::ask_for(pd)),
    {
        let ghost pd0 = pd;
        self.context.add_download(pd.to_download());
        actions.push(ClientAction::QueueUpload { username: pd.username, filename: pd.filename });
        self.active_downloads = self.active_downloads + 1;
        assert(self@ =~= old(self)@.initiated(pd0));
    }

    /// Let downloads that wait begin as long as another may run.
    fn drain_pending_queue(&mut self) -> (r: Vec<ClientAction>)
        requires
            old(self)@.active + old(self)@.pending.len() <= u32::MAX,
        ensures
            final(self)@ == old(self)@.drained().0,
            r@ == old(self)@.drained().1,
    {
        let mut actions: Vec<ClientAction> = Vec::new();
        assert(actions@ + self@.drained().1 =~= self@.drained().1);
        while self.has_room() && self.pending.len() > 0
            invariant
                self@.active + self@.pending.len() <= u32::MAX,
                old(self)@.drained().0 == self@.drained().0,
                old(self)@.drained().1 == actions@ + self@.drained().1,
            decreases self.pending@.len(),
        {
            let ghost before = self@;
            let ghost done = actions@;
            match self.pending.pop_front() {
                Some(pd) => {
                    assert(self@ =~= before.without_first());
                    self.try_initiate(pd, &mut actions);
                    assert(done + before.drained().1 =~= actions@ + self@.drained().1);
                },
                None => {},
            }
        }
        assert(actions@ + Seq::<ClientAction>::empty() =~= actions@);
        actions
    }

    /// Let the download that waits longest begin, where we are logged in and
    /// another may run.
    fn try_dequeue_next(&mut self, actions: &mut Vec<ClientAction>)
        requires
            old(self)@.active < u32::MAX,
        ensures
            final(self)@ == old(self)@.dequeued().0,
            final(actions)@ == old(actions)@ + old(self)@.dequeued().1,
    {
        let ghost before = self@;
        let ghost done = actions@;
        if self.logged_in && self.has_room() {
            match self.pending.pop_front() {
                Some(pd) => {
                    assert(self@ =~= before.without_first());
                    self.try_initiate(pd, actions);
                },
                None => {},
            }
        }
        assert(self@ =~= before.dequeued().0);
        assert(actions@ =~= done + before.dequeued().1);
    }

    fn send_to_server(&self, message: ServerMessage, actions: &mut Vec<ClientAction>)
        ensures
            final(actions)@ == old(actions)@ + self@.to_server(message),
    {
        let ghost message0 = message;
        match self.server_sender {
            Some(server) => {
                actions.push(ClientAction::SendToServer { server, message });
            },
            None => {},
        }
        assert(actions@ =~= old(actions)@ + self@.to_server(message0));
    }

    /// Take note of how a download has ended.
    fn complete(&mut self, token: DownloadToken, status: DownloadStatus) -> (r: Vec<ClientAction>)
        ensures
            final(self)@ == old(self)@.completed(token, status).0,
            r@ == old(self)@.completed(token, status).1,
    {
        let ghost before = self@;
        let mut actions: Vec<ClientAction> = Vec::new();
        match self.context.get_download_by_token(token) {
            Some(download) => {
                actions.push(ClientAction::Notify { channel: download.sender, status });
            },
            None => {},
        }
        let ghost notice = actions@;
        self.context.update_download_with_status(token, status);
        self.active_downloads = self.active_downloads.saturating_sub(1);
        proof {
            let middle = before.with_downloads(
                super::context::with_status(before.context.downloads, token, status),
            ).released();
            assert(self@ =~= middle);
        }
        self.try_dequeue_next(&mut actions);
        assert(actions@ =~= before.completed(token, status).1);
        actions
    }

    /// Take an operation. `peer_known` says whether the registry holds the peer
    /// that the operation is about. What comes back is for others to do, in
    /// order.
    pub fn handle_operation(&mut self, op: WorkerOperation, peer_known: bool) -> (r: Vec<
        ClientAction,
    >)
        requires
            operation_ok(op),
            old(self)@.active + old(self)@.pending.len() < u32::MAX,
        ensures
            final(self)@ == old(self)@.step(op, peer_known).0,
            r@ == old(self)@.step(op, peer_known).1,
    {
        let ghost op0 = op;
        let ghost before = self@;
        let own_username = self.own_username.clone();
        let mut actions: Vec<ClientAction> = Vec::new();
        match op {
            WorkerOperation::ServerDisconnected => {
                self.logged_in = false;
                actions.push(ClientAction::Forward(WorkerEvent::ServerDisconnected));
            },
            WorkerOperation::LoginSucceeded => {
                self.logged_in = true;
                assert(self@ =~= WorkerModel { logged_in: true, ..before });
                actions = self.drain_pending_queue();
                actions.push(ClientAction::Forward(WorkerEvent::LoginSucceeded));
            },
            WorkerOperation::DownloadCompleted(token, outcome) => {
                let status = match outcome {
                    Ok(_) => DownloadStatus::Completed,
                    Err(_) => DownloadStatus::Failed,
                };
                actions = self.complete(token, status);
            },
            WorkerOperation::RequestDownload(pd) => {
                if self.logged_in && self.has_room() {
                    self.try_initiate(pd, &mut actions);
                } else {
                    self.pending.push_back(pd);
                }
            },
            WorkerOperation::PierceFirewallPreTokenFailed => {
                self.active_downloads = self.active_downloads.saturating_sub(1);
                assert(self@ =~= before.released());
                self.try_dequeue_next(&mut actions);
            },
            WorkerOperation::ConnectToPeer(peer) => {
                connect_to_peer(peer, None, &own_username, &mut actions);
            },
            WorkerOperation::SearchResult(result) => {
                self.context.take_result(result);
            },
            WorkerOperation::PeerDisconnected(username, error) => {
                let name = username.clone();
                actions.push(ClientAction::StopPeer { username });
                if error.is_some() {
                    let mut notices = process_failed_uploads(
                        &mut self.context.downloads,
                        name.as_str(),
                        &None,
                    );
                    actions.append(&mut notices);
                }
            },
            WorkerOperation::PierceFireWall(peer) => {
                match peer.token {
                    Some(token) => {
                        self.send_to_server(ServerMessage::PierceFirewall(token), &mut actions);
                    },
                    None => {},
                }
                connect_to_peer(peer, None, &own_username, &mut actions);
            },
            WorkerOperation::DownloadFromPeer(token, peer, _) => {
                match self.context.get_download_by_token(token) {
                    Some(download) => {
                        let from = DownloadPeer::new(
                            download.username.clone(),
                            peer.host,
                            peer.port,
                            token.0,
                            own_username,
                        );
                        actions.push(
                            ClientAction::FetchDirect {
                                download: download.clone(),
                                from,
                                allowed: true,
                            },
                        );
                    },
                    None => {},
                }
            },
            WorkerOperation::NewPeer(new_peer) => {
                if !peer_known {
                    self.send_to_server(
                        ServerMessage::GetPeerAddress(new_peer.username.clone()),
                        &mut actions,
                    );
                }
                let stream = new_peer.stream;
                connect_to_peer(peer_of(new_peer), Some(stream), &own_username, &mut actions);
            },
            WorkerOperation::GetPeerAddressResponse {
                username,
                host,
                port,
                obfuscation_type,
                obfuscated_port,
            } => {
                if !peer_known {
                    let peer = Peer::new(
                        username,
                        ConnectionType::P,
                        host,
                        port,
                        None,
                        0,
                        obfuscation_type,
                        obfuscated_port as u32,
                    );
                    connect_to_peer(peer, None, &own_username, &mut actions);
                }
            },
            WorkerOperation::UpdateDownloadTokens(transfer, username) => {
                update_download_tokens(&mut self.context.downloads, transfer, username);
            },
            WorkerOperation::UploadFailed(username, filename) => {
                actions = process_failed_uploads(
                    &mut self.context.downloads,
                    username.as_str(),
                    &Some(filename),
                );
            },
            WorkerOperation::SetServerSender(server) => {
                self.server_sender = Some(server);
            },
        }
        proof {
            let (after, wanted) = before.step(op0, peer_known);
            assert(self@ =~= after);
            assert(actions@ =~= wanted);
        }
        actions
    }
}

/// What the worker is told when a file that was known has been fetched, or could
/// not be.
pub fn direct_fetch_ended(
    token: DownloadToken,
    fetched: core::result::Result<String, DownloadError>,
) -> (r: WorkerOperation)
    ensures
        r matches WorkerOperation::DownloadCompleted(t, outcome) && t == token && match fetched {
            Ok(path) => outcome == Ok::<String, SoulseekRs>(path),
            Err(e) => outcome matches Err(SoulseekRs::InvalidMessage(words)) && words@
                == crate::soulseek::download_peer::download_error_words(e),
        },
{
    match fetched {
        Ok(path) => WorkerOperation::DownloadCompleted(token, Ok(path)),
        Err(e) => WorkerOperation::DownloadCompleted(
            token,
            Err(SoulseekRs::InvalidMessage(e.message())),
        ),
    }
}

/// What the worker is told when a file that the peer was to name has been fetched,
/// or could not be; then its token is unknown.
pub fn pierced_fetch_ended(
    fetched: core::result::Result<(DownloadToken, String), DownloadError>,
) -> (r: WorkerOperation)
    ensures
        r == match fetched {
            Ok((token, path)) => WorkerOperation::DownloadCompleted(token, Ok(path)),
            Err(_) => WorkerOperation::PierceFirewallPreTokenFailed,
        },
{
    match fetched {
        Ok((token, path)) => WorkerOperation::DownloadCompleted(token, Ok(path)),
        Err(_) => WorkerOperation::PierceFirewallPreTokenFailed,
    }
}

/// Whoever keeps the client's state hears from the worker.
pub fn state_monitor(state: &mut ClientState, event: WorkerEvent)
    ensures
        *final(state) == match event {
            WorkerEvent::ServerDisconnected => ClientState::Disconnected,
            WorkerEvent::LoginSucceeded => ClientState::Connected,
            WorkerEvent::DownloadSlotFreed => *old(state),
        },
{
    match event {
        WorkerEvent::ServerDisconnected => {
            *state = ClientState::Disconnected;
        },
        WorkerEvent::LoginSucceeded => {
            *state = ClientState::Connected;
        },
        WorkerEvent::DownloadSlotFreed => {},
    }
}

// ---- laws ---------------------------------------------------------------------------

impl WorkerModel {
    /// The number of running downloads is within the limit.
    pub open spec fn within_limit(self) -> bool {
        match self.max_concurrent {
            Some(max) => self.active <= max,
            None => true,
        }
    }

    /// No download waits while another could run.
    pub open spec fn is_busy(self) -> bool {
        self.logged_in && self.pending.len() > 0 ==> !self.has_room()
    }
}

/// Draining starts only what the limit allows, and stops only where nothing
/// waits or nothing more may run.
proof fn lemma_drained(m: WorkerModel)
    requires
        m.within_limit(),
        m.active + m.pending.len() <= u32::MAX,
    ensures
        m.drained().0.within_limit(),
        m.drained().0.is_busy(),
    decreases m.pending.len(),
{
    if m.has_room() && m.pending.len() > 0 {
        lemma_drained(m.without_first().initiated(m.pending[0]));
    }
}

/// No operation lets more downloads run than the limit allows.
pub proof fn lemma_limit_is_kept(m: WorkerModel, op: WorkerOperation, peer_known: bool)
    requires
        m.within_limit(),
        m.active + m.pending.len() < u32::MAX,
    ensures
        m.step(op, peer_known).0.within_limit(),
{
    if op is LoginSucceeded {
        lemma_drained(WorkerModel { logged_in: true, ..m });
    }
}

/// After every operation no download waits while another could run, if that was
/// so before.
pub proof fn lemma_no_slot_idles(m: WorkerModel, op: WorkerOperation, peer_known: bool)
    requires
        m.within_limit(),
        m.is_busy(),
        m.active + m.pending.len() < u32::MAX,
    ensures
        m.step(op, peer_known).0.is_busy(),
{
    if op is LoginSucceeded {
        lemma_drained(WorkerModel { logged_in: true, ..m });
    }
}

/// Nothing begins before the login: while we are not logged in, no operation but
/// the login itself asks a peer for a file.
pub proof fn lemma_nothing_begins_before_login(
    m: WorkerModel,
    op: WorkerOperation,
    peer_known: bool,
)
    requires
        !m.logged_in,
        !(op is LoginSucceeded),
    ensures
        forall|i: int|
            0 <= i < m.step(op, peer_known).1.len() ==> !(#[trigger] m.step(op, peer_known).1[i]
                is QueueUpload),
{
}

} // verus!
