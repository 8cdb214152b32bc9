//! A client that keeps all its state in one place and takes operations one by
//! one.
use std::collections::VecDeque;

use vstd::prelude::*;

use super::context::{
    ClientContext, OperationChannel, RegistryHandle, SearchEntry, ServerChannel,
};
use super::limiter::{DownloadConcurrencyLimiter, PendingDownload, SearchRateLimiter};
use super::operation::{
    connect_to_peer, peer_of, process_failed_uploads, update_download_tokens, ClientAction,
    ClientOperation,
};
use super::settings::{ClientSettings, KeepAliveSettings, PlainTextUnencrypted, ReconnectSettings};
use crate::md5::token_of;
use crate::soulseek::actor::server_actor::ServerMessage;
use crate::soulseek::download_peer::DownloadPeer;
use crate::soulseek::error::{Result, SoulseekRs};
use crate::soulseek::path::SoulseekPath;
use crate::soulseek::peer::{ConnectionType, Peer, StreamHandle};
use crate::soulseek::server_address::PeerAddress;
use crate::soulseek::token::{DownloadToken, SearchToken};
use crate::soulseek::types::{Download, DownloadStatus, Search, SearchResult, StatusChannel};
use crate::text::str_eq;
use crate::time::Duration;

verus! {

/// Whether the client is connected to the server and logged in.
#[derive(Debug, Clone, Copy, PartialEq, Eq, Structural)]
pub enum ClientState {
    Disconnected,
    Connecting,
    Connected,
}

/// A client.
#[derive(Debug)]
pub struct Client {
    pub settings: ClientSettings,
    pub state: ClientState,
    pub context: ClientContext,
    pub server_handle: Option<ServerChannel>,
    pub pending_downloads: VecDeque<PendingDownload>,
    pub search_limiter: Option<SearchRateLimiter>,
    pub download_limiter: Option<DownloadConcurrencyLimiter>,
}

/// What operations change of a client, as a value.
#[verifier::ext_equal]
pub struct ClientModel {
    pub state: ClientState,
    pub context: super::context::ContextModel,
    pub server_handle: Option<ServerChannel>,
    pub pending: Seq<PendingDownload>,
    pub slots: Option<super::limiter::SlotsModel>,
}

impl View for Client {
    type V = ClientModel;

    open spec fn view(&self) -> ClientModel {
        ClientModel {
            state: self.state,
            context: self.context@,
            server_handle: self.server_handle,
            pending: self.pending_downloads@,
            slots: match self.download_limiter {
                Some(l) => Some(l@),
                None => None,
            },
        }
    }
}

impl ClientModel {
    /// The number of running downloads is within the limit.
    pub open spec fn within_limit(self) -> bool {
        match self.slots {
            Some(s) => s.within_limit(),
            None => true,
        }
    }

    /// A download begins where a slot is free, and waits for one otherwise.
    pub open spec fn begin_or_wait(self, pd: PendingDownload) -> (ClientModel, Seq<ClientAction>) {
        match self.slots {
            Some(s) => if s.free() {
                (ClientModel { slots: Some(s.taken()), ..self }, seq![super::operation::ask_for(pd)])
            } else {
                (ClientModel { slots: Some(s.queued(pd)), ..self }, Seq::empty())
            },
            None => (self, seq![super::operation::ask_for(pd)]),
        }
    }

    /// The first `n` of the downloads that wait for the login begin or wait for a
    /// slot. Without a registry they are dropped.
    pub open spec fn replay(self, pending: Seq<PendingDownload>, n: nat) -> (
        ClientModel,
        Seq<ClientAction>,
    )
        decreases n,
    {
        if n == 0 {
            (self, Seq::empty())
        } else {
            let (before, actions) = self.replay(pending, (n - 1) as nat);
            if self.context.peer_registry is Some {
                let (after, more) = before.begin_or_wait(pending[n - 1]);
                (after, actions + more)
            } else {
                (before, actions)
            }
        }
    }

    /// A slot is free again, and the download that waited longest takes it.
    pub open spec fn slot_freed(self) -> (ClientModel, Seq<ClientAction>) {
        match self.slots {
            Some(s) => {
                let free = s.released();
                if free.queue.len() > 0 {
                    let pd = free.queue[0];
                    let rest = super::limiter::SlotsModel { queue: free.queue.skip(1), ..free };
                    if self.context.peer_registry is Some {
                        (ClientModel { slots: Some(rest.taken()), ..self }, seq![super::operation::ask_for(pd)])
                    } else {
                        (ClientModel { slots: Some(rest), ..self }, Seq::empty())
                    }
                } else {
                    (ClientModel { slots: Some(free), ..self }, Seq::empty())
                }
            },
            None => (self, Seq::empty()),
        }
    }

    /// Connecting to a peer: for messages it is registered, for a file the file
    /// is fetched.
    pub open spec fn connecting(
        self,
        peer: Peer,
        stream: Option<StreamHandle>,
        own_username: String,
    ) -> Seq<ClientAction> {
        if peer.connection_type == ConnectionType::P && self.context.peer_registry is None {
            Seq::empty()
        } else {
            super::operation::connecting(peer, stream, own_username)
        }
    }

    pub open spec fn with_searches(self, searches: Seq<super::context::SearchModel>) -> ClientModel {
        ClientModel {
            context: super::context::ContextModel { searches, ..self.context },
            ..self
        }
    }

    pub open spec fn with_downloads(self, downloads: Seq<Download>) -> ClientModel {
        ClientModel {
            context: super::context::ContextModel { downloads, ..self.context },
            ..self
        }
    }

    /// The downloads of a user, or the one of a file, fail.
    pub open spec fn failing(self, username: Seq<char>, filename: Option<Seq<char>>) -> (
        ClientModel,
        Seq<ClientAction>,
    ) {
        let downloads = self.context.downloads;
        (
            self.with_downloads(super::operation::surviving(downloads, username, filename)),
            super::operation::failure_notices(
                super::operation::failing(downloads, username, filename),
            ),
        )
    }

    /// The registry is there and holds the peer.
    pub open spec fn knows(self, peer_known: bool) -> bool {
        self.context.peer_registry is Some && peer_known
    }

    /// A message to the server's actor, where it can be reached.
    pub open spec fn to_server(self, message: ServerMessage) -> Seq<ClientAction> {
        match self.context.server_sender {
            Some(channel) => seq![ClientAction::SendToServer { server: channel, message }],
            None => Seq::empty(),
        }
    }

    /// What an operation does. `peer_known` says whether the registry holds the
    /// peer that the operation is about.
    pub open spec fn step(self, op: ClientOperation, peer_known: bool, own_username: String) -> (
        ClientModel,
        Seq<ClientAction>,
    ) {
        match op {
            ClientOperation::ServerDisconnected => (
                ClientModel { state: ClientState::Disconnected, ..self },
                Seq::empty(),
            ),
            ClientOperation::LoginSucceeded => ClientModel {
                state: ClientState::Connected,
                pending: Seq::empty(),
                ..self
            }.replay(self.pending, self.pending.len()),
            ClientOperation::DownloadSlotFreed => self.slot_freed(),
            ClientOperation::ConnectToPeer(peer) => (
                self,
                self.connecting(peer, None, own_username),
            ),
            ClientOperation::SearchResult(result) => (
                ClientModel { context: self.context.with_result(result), ..self },
                Seq::empty(),
            ),
            ClientOperation::PeerDisconnected(username, error) => {
                let stop = if self.context.peer_registry is Some {
                    seq![ClientAction::StopPeer { username }]
                } else {
                    Seq::empty()
                };
                match error {
                    Some(_) => {
                        let (after, notices) = self.failing(username@, None);
                        (after, stop + notices)
                    },
                    None => (self, stop),
                }
            },
            ClientOperation::PierceFireWall(peer) => {
                let pierce = match peer.token {
                    Some(token) => self.to_server(ServerMessage::PierceFirewall(token)),
                    None => Seq::empty(),
                };
                (self, pierce + self.connecting(peer, None, own_username))
            },
            ClientOperation::DownloadFromPeer(token, peer, allowed) => {
                let downloads = self.context.downloads;
                match crate::lists::first_where(downloads, super::context::has_token(token)) {
                    Some(i) => (
                        self,
                        seq![
                            ClientAction::FetchDirect {
                                download: downloads[i],
                                from: DownloadPeer {
                                    username: downloads[i].username,
                                    host: peer.host,
                                    port: peer.port,
                                    own_username,
                                    token: token.0,
                                },
                                allowed,
                            },
                        ],
                    ),
                    None => (self, Seq::empty()),
                }
            },
            ClientOperation::NewPeer(new_peer) => {
                let ask = if self.knows(peer_known) {
                    Seq::empty()
                } else {
                    self.to_server(ServerMessage::GetPeerAddress(new_peer.username))
                };
                let peer = super::operation::connected_peer(new_peer);
                (self, ask + self.connecting(peer, Some(new_peer.stream), own_username))
            },
            ClientOperation::GetPeerAddressResponse {
                username,
                host,
                port,
                obfuscation_type,
                obfuscated_port,
            } => if self.knows(peer_known) {
                (self, Seq::empty())
            } else {
                let peer = Peer {
                    username,
                    connection_type: ConnectionType::P,
                    host,
                    port,
                    token: None,
                    privileged: Some(0),
                    unknown: Some(obfuscation_type),
                    obfuscated_port: Some(obfuscated_port as u32),
                };
                (self, self.connecting(peer, None, own_username))
            },
            ClientOperation::UpdateDownloadTokens(transfer, username) => (
                self.with_downloads(
                    super::operation::retokened(self.context.downloads, transfer, username),
                ),
                Seq::empty(),
            ),
            ClientOperation::UploadFailed(username, filename) => self.failing(
                username@,
                Some(filename@),
            ),
            ClientOperation::SetServerSender(channel) => (
                ClientModel {
                    context: super::context::ContextModel {
                        server_sender: Some(channel),
                        ..self.context
                    },
                    ..self
                },
                Seq::empty(),
            ),
        }
    }
}

impl Client {
    /// Let a download begin where a slot is free, and wait for one otherwise.
    fn begin_or_wait(&mut self, pd: PendingDownload, actions: &mut Vec<ClientAction>)
        ensures
            ({
                let (after, more) = old(self)@.begin_or_wait(pd);
                &&& final(self)@ == after
                &&& final(actions)@ == old(actions)@ + more
                &&& final(self).rest_as(*old(self))
            }),
    {
        let ghost before = self@;
        let ghost pd0 = pd;
        let begins: bool = match &mut self.download_limiter {
            Some(limiter) => if limiter.active < limiter.max_concurrent {
                limiter.active = limiter.active + 1;
                true
            } else {
                false
            },
            None => true,
        };
        if begins {
            actions.push(
                ClientAction::QueueUpload { username: pd.username, filename: pd.filename },
            );
            assert(actions@ =~= old(actions)@ + before.begin_or_wait(pd0).1);
        } else {
            match &mut self.download_limiter {
                Some(limiter) => {
                    limiter.queue.push_back(pd);
                },
                None => {},
            }
            assert(actions@ =~= old(actions)@ + before.begin_or_wait(pd0).1);
        }
        assert(self@ =~= before.begin_or_wait(pd0).0);
    }

    /// The settings and the limit on searches are the same.
    pub open spec fn rest_as(self, other: Client) -> bool {
        &&& self.settings == other.settings
        &&& self.search_limiter == other.search_limiter
    }

    /// Let the downloads that waited for the login begin.
    fn replay_pending(&mut self) -> (r: Vec<ClientAction>)
        ensures
            ({
                let start = ClientModel { pending: Seq::empty(), ..old(self)@ };
                let (after, actions) = start.replay(old(self)@.pending, old(self)@.pending.len());
                &&& final(self)@ == after
                &&& r@ == actions
                &&& final(self).rest_as(*old(self))
            }),
    {
        let ghost all = self.pending_downloads@;
        let ghost start = ClientModel { pending: Seq::empty(), ..self@ };
        let mut pending: VecDeque<PendingDownload> = VecDeque::new();
        core::mem::swap(&mut pending, &mut self.pending_downloads);
        let mut actions: Vec<ClientAction> = Vec::new();
        let ghost mut k: nat = 0;
        assert(self@ =~= start);
        assert(pending@ =~= all.skip(0));
        while pending.len() > 0
            invariant
                k <= all.len(),
                pending@ == all.skip(k as int),
                start.replay(all, k) == (self@, actions@),
                self@.context == start.context,
                self.rest_as(*old(self)),
            decreases all.len() - k,
        {
            match pending.pop_front() {
                Some(pd) => {
                    assert(pd == all[k as int]);
                    assert(pending@ =~= all.skip((k + 1) as int));
                    if self.context.peer_registry.is_some() {
                        self.begin_or_wait(pd, &mut actions);
                    }
                },
                None => {},
            }
            proof {
                k = k + 1;
            }
        }
        assert(k == all.len());
        actions
    }

    /// Free a slot, and let the download that waited longest take it.
    fn free_slot(&mut self) -> (r: Vec<ClientAction>)
        ensures
            ({
                let (after, actions) = old(self)@.slot_freed();
                &&& final(self)@ == after
                &&& r@ == actions
                &&& final(self).rest_as(*old(self))
            }),
    {
        let ghost before = self@;
        let registered: bool = self.context.peer_registry.is_some();
        let mut actions: Vec<ClientAction> = Vec::new();
        match &mut self.download_limiter {
            Some(limiter) => {
                limiter.active = limiter.active.saturating_sub(1);
                match limiter.queue.pop_front() {
                    Some(pd) => {
                        if registered {
                            limiter.active = limiter.active + 1;
                            actions.push(
                                ClientAction::QueueUpload {
                                    username: pd.username,
                                    filename: pd.filename,
                                },
                            );
                        }
                    },
                    None => {},
                }
            },
            None => {},
        }
        assert(self@ =~= before.slot_freed().0);
        assert(actions@ =~= before.slot_freed().1);
        actions
    }

    /// What connecting to a peer takes.
    fn connect_to_peer(
        &self,
        peer: Peer,
        stream: Option<StreamHandle>,
        own_username: &String,
        actions: &mut Vec<ClientAction>,
    )
        requires
            super::operation::peer_has_token(peer),
        ensures
            final(actions)@ == old(actions)@ + self@.connecting(peer, stream, *own_username),
    {
        if peer.connection_type == ConnectionType::P && self.context.peer_registry.is_none() {
            assert(actions@ =~= old(actions)@ + Seq::<ClientAction>::empty());
            return;
        }
        connect_to_peer(peer, stream, own_username, actions);
    }

    /// A message to the server's actor, where it can be reached.
    fn send_to_server(&self, message: ServerMessage, actions: &mut Vec<ClientAction>)
        ensures
            final(actions)@ == old(actions)@ + self@.to_server(message),
    {
        let ghost message0 = message;
        match self.context.server_sender {
            Some(channel) => {
                actions.push(ClientAction::SendToServer { server: channel, message });
            },
            None => {},
        }
        assert(actions@ =~= old(actions)@ + self@.to_server(message0));
    }

    /// Take an operation. `peer_known` says whether the registry holds the peer
    /// that the operation is about. What comes back is for others to do, in
    /// order.
    pub fn handle_client_operation(&mut self, op: ClientOperation, peer_known: bool) -> (r: Vec<
        ClientAction,
    >)
        requires
            super::operation::operation_ok(op),
        ensures
            ({
                let (after, actions) = old(self)@.step(
                    op,
                    peer_known,
                    old(self).settings.username.0,
                );
                &&& final(self)@ == after
                &&& r@ == actions
                &&& final(self).rest_as(*old(self))
            }),
    {
        let ghost op0 = op;
        let ghost before = self@;
        let own_username = self.settings.username.0.clone();
        let mut actions: Vec<ClientAction> = Vec::new();
        match op {
            ClientOperation::ServerDisconnected => {
                self.state = ClientState::Disconnected;
            },
            ClientOperation::LoginSucceeded => {
                self.state = ClientState::Connected;
                let ghost start = ClientModel { pending: Seq::empty(), ..self@ };
                actions = self.replay_pending();
                assert(start =~= ClientModel {
                    state: ClientState::Connected,
                    pending: Seq::empty(),
                    ..before
                });
            },
            ClientOperation::DownloadSlotFreed => {
                actions = self.free_slot();
            },
            ClientOperation::ConnectToPeer(peer) => {
                self.connect_to_peer(peer, None, &own_username, &mut actions);
            },
            ClientOperation::SearchResult(result) => {
                self.context.take_result(result);
            },
            ClientOperation::PeerDisconnected(username, error) => {
                let name = username.clone();
                if self.context.peer_registry.is_some() {
                    actions.push(ClientAction::StopPeer { username });
                }
                if error.is_some() {
                    let mut notices = process_failed_uploads(
                        &mut self.context.downloads,
                        name.as_str(),
                        &None,
                    );
                    actions.append(&mut notices);
                }
            },
            ClientOperation::PierceFireWall(peer) => {
                match peer.token {
                    Some(token) => {
                        self.send_to_server(ServerMessage::PierceFirewall(token), &mut actions);
                    },
                    None => {},
                }
                self.connect_to_peer(peer, None, &own_username, &mut actions);
            },
            ClientOperation::DownloadFromPeer(token, peer, allowed) => {
                match self.context.get_download_by_token(token) {
                    Some(download) => {
                        let from = DownloadPeer::new(
                            download.username.clone(),
                            peer.host,
                            peer.port,
                            token.0,
                            own_username,
                        );
                        actions.push(
                            ClientAction::FetchDirect { download: download.clone(), from, allowed },
                        );
                    },
                    None => {},
                }
            },
            ClientOperation::NewPeer(new_peer) => {
                let known: bool = self.context.peer_registry.is_some() && peer_known;
                if !known {
                    self.send_to_server(
                        ServerMessage::GetPeerAddress(new_peer.username.clone()),
                        &mut actions,
                    );
                }
                let stream = new_peer.stream;
                self.connect_to_peer(
                    peer_of(new_peer),
                    Some(stream),
                    &own_username,
                    &mut actions,
                );
            },
            ClientOperation::GetPeerAddressResponse {
                username,
                host,
                port,
                obfuscation_type,
                obfuscated_port,
            } => {
                let known: bool = self.context.peer_registry.is_some() && peer_known;
                if !known {
                    let peer = Peer::new(
                        username,
                        ConnectionType::P,
                        host,
                        port,
                        None,
                        0,
                        obfuscation_type,
                        obfuscated_port as u32,
                    );
                    self.connect_to_peer(peer, None, &own_username, &mut actions);
                }
            },
            ClientOperation::UpdateDownloadTokens(transfer, username) => {
                update_download_tokens(&mut self.context.downloads, transfer, username);
            },
            ClientOperation::UploadFailed(username, filename) => {
                actions = process_failed_uploads(
                    &mut self.context.downloads,
                    username.as_str(),
                    &Some(filename),
                );
            },
            ClientOperation::SetServerSender(channel) => {
                self.context.server_sender = Some(channel);
            },
        }
        proof {
            let (after, wanted) = before.step(op0, peer_known, self.settings.username.0);
            assert(self@ =~= after);
            assert(actions@ =~= wanted);
        }
        actions
    }
}

// ---- life of a client ----------------------------------------------------------------

/// What it takes to connect: the connection to the server, the login, and the
/// listener where one is wanted.
#[derive(Debug)]
pub struct ConnectRequest {
    pub username: String,
    pub password: String,
    pub server_address: PeerAddress,
    pub listen_port: u32,
    pub enable_listen: bool,
    pub tcp_keepalive: KeepAliveSettings,
    pub reconnect: ReconnectSettings,
}

/// How a login ended.
#[derive(Debug)]
pub enum LoginAnswer {
    /// The server's actor answered.
    Answered(Result<bool>),
    /// The actor went away without an answer.
    Dropped,
}

/// What is returned to the one who connects.
pub open spec fn login_result(answer: LoginAnswer) -> Result<()> {
    match answer {
        LoginAnswer::Answered(Ok(true)) => Ok(()),
        LoginAnswer::Answered(Ok(false)) => Err(SoulseekRs::AuthenticationFailed),
        LoginAnswer::Answered(Err(e)) => Err(e),
        LoginAnswer::Dropped => Err(SoulseekRs::Timeout),
    }
}

impl Client {
    /// A client with the default settings.
    pub fn new(username: PlainTextUnencrypted, password: PlainTextUnencrypted) -> (r: Client)
        ensures
            r.settings.username == username,
            r.settings.password == password,
            r.settings.has_defaults(),
            r.is_fresh(),
    {
        Client::with_settings(ClientSettings::new(username, password))
    }

    /// The client is as it was made: disconnected, with nothing to do and every
    /// limit as the settings say.
    pub open spec fn is_fresh(self) -> bool {
        &&& self@.state == ClientState::Disconnected
        &&& self@.server_handle is None
        &&& self@.pending.len() == 0
        &&& self@.context.downloads.len() == 0
        &&& self@.context.searches.len() == 0
        &&& self@.context.peer_registry is None
        &&& self@.context.sender is None
        &&& self@.context.server_sender is None
        &&& match self.settings.download_rate_limit_settings {
            Some(s) => self@.slots == Some(
                super::limiter::SlotsModel {
                    max_concurrent: s.concurrent_downloads,
                    active: 0,
                    queue: Seq::empty(),
                },
            ),
            None => self@.slots is None,
        }
        &&& match self.settings.search_rate_limit_settings {
            Some(s) => self.search_limiter matches Some(l) && l@ == (super::limiter::RateModel {
                limit: s.searches as nat,
                period: s.per_period@,
                issued: Seq::empty(),
            }),
            None => self.search_limiter is None,
        }
    }

    /// A client that is not connected.
    pub fn with_settings(settings: ClientSettings) -> (r: Client)
        ensures
            r.settings == settings,
            r.is_fresh(),
    {
        let search_limiter = match &settings.search_rate_limit_settings {
            Some(s) => Some(SearchRateLimiter::new(s.searches, s.per_period)),
            None => None,
        };
        let download_limiter = match &settings.download_rate_limit_settings {
            Some(s) => Some(DownloadConcurrencyLimiter::new(s.concurrent_downloads)),
            None => None,
        };
        Client {
            settings,
            state: ClientState::Disconnected,
            context: ClientContext::new(),
            server_handle: None,
            pending_downloads: VecDeque::new(),
            search_limiter,
            download_limiter,
        }
    }

    /// Begin to connect, with the channel on which operations will come and the
    /// registry of peers. `None` where the client is connected already.
    pub fn connect(&mut self, sender: OperationChannel, registry: RegistryHandle) -> (r: Option<
        ConnectRequest,
    >)
        ensures
            final(self).rest_as(*old(self)),
            match r {
                None => {
                    &&& old(self)@.state == ClientState::Connected
                    &&& final(self)@ == old(self)@
                },
                Some(request) => {
                    &&& old(self)@.state != ClientState::Connected
                    &&& final(self)@ == (ClientModel {
                        state: ClientState::Connecting,
                        context: super::context::ContextModel {
                            sender: Some(sender),
                            peer_registry: Some(registry),
                            ..old(self)@.context
                        },
                        ..old(self)@
                    })
                    &&& request == (ConnectRequest {
                        username: old(self).settings.username.0,
                        password: old(self).settings.password.0,
                        server_address: old(self).settings.server_address,
                        listen_port: old(self).settings.listen_port,
                        enable_listen: old(self).settings.enable_listen,
                        tcp_keepalive: old(self).settings.tcp_keepalive_settings,
                        reconnect: old(self).settings.reconnect_settings,
                    })
                },
            },
    {
        if self.state == ClientState::Connected {
            return None;
        }
        self.state = ClientState::Connecting;
        self.context.sender = Some(sender);
        self.context.peer_registry = Some(registry);
        Some(
            ConnectRequest {
                username: self.settings.username.0.clone(),
                password: self.settings.password.0.clone(),
                server_address: self.settings.server_address.clone(),
                listen_port: self.settings.listen_port,
                enable_listen: self.settings.enable_listen,
                tcp_keepalive: self.settings.tcp_keepalive_settings,
                reconnect: self.settings.reconnect_settings,
            },
        )
    }

    /// The actor of the server connection runs.
    pub fn server_started(&mut self, handle: ServerChannel)
        ensures
            final(self)@ == (ClientModel { server_handle: Some(handle), ..old(self)@ }),
            final(self).rest_as(*old(self)),
    {
        self.server_handle = Some(handle);
    }

    /// The login has ended; the client is connected where it succeeded.
    pub fn login_answered(&mut self, answer: LoginAnswer) -> (r: Result<()>)
        ensures
            r == login_result(answer),
            final(self)@ == (ClientModel {
                state: if login_result(answer) is Ok {
                    ClientState::Connected
                } else {
                    old(self)@.state
                },
                ..old(self)@
            }),
            final(self).rest_as(*old(self)),
    {
        match answer {
            LoginAnswer::Answered(Ok(true)) => {
                self.state = ClientState::Connected;
                Ok(())
            },
            LoginAnswer::Answered(Ok(false)) => Err(SoulseekRs::AuthenticationFailed),
            LoginAnswer::Answered(Err(e)) => Err(e),
            LoginAnswer::Dropped => Err(SoulseekRs::Timeout),
        }
    }

    /// Have a peer taken out of the registry and stopped.
    pub fn remove_peer(&self, username: &String) -> (r: Vec<ClientAction>)
        ensures
            r@ == if self@.context.peer_registry is Some {
                seq![ClientAction::StopPeer { username: *username }]
            } else {
                Seq::empty()
            },
    {
        let mut actions: Vec<ClientAction> = Vec::new();
        if self.context.peer_registry.is_some() {
            actions.push(ClientAction::StopPeer { username: username.clone() });
        }
        assert(actions@ =~= if self@.context.peer_registry is Some {
            seq![ClientAction::StopPeer { username: *username }]
        } else {
            Seq::empty()
        });
        actions
    }
}

// ---- searching ------------------------------------------------------------------------

/// The search was made with the words.
pub open spec fn asked_with(query: Seq<char>) -> spec_fn(super::context::SearchModel) -> bool {
    |s: super::context::SearchModel| s.query == query
}

/// The searches with a new one, without results; it replaces one with the same
/// words.
pub open spec fn with_new_search(
    searches: Seq<super::context::SearchModel>,
    query: Seq<char>,
    token: SearchToken,
) -> Seq<super::context::SearchModel> {
    let entry = super::context::SearchModel { query, token, results: Seq::empty() };
    match crate::lists::first_where(searches, asked_with(query)) {
        Some(i) => searches.update(i, entry),
        None => searches.push(entry),
    }
}

/// The results of a search as values.
pub open spec fn answers(results: Seq<SearchResult>) -> Seq<crate::soulseek::types::Answer> {
    results.map_values(|r: SearchResult| r@)
}

fn position_of_search(searches: &Vec<SearchEntry>, query: &str) -> (r: Option<usize>)
    ensures
        match r {
            Some(i) => {
                &&& i < searches@.len()
                &&& crate::lists::first_where(
                    super::context::search_models(searches@),
                    asked_with(query@),
                ) == Some(i as int)
            },
            None => crate::lists::first_where(
                super::context::search_models(searches@),
                asked_with(query@),
            ) is None,
        },
{
    let ghost models = super::context::search_models(searches@);
    let ghost p = asked_with(query@);
    let mut i: usize = 0;
    while i < searches.len()
        invariant
            i <= searches@.len(),
            models == super::context::search_models(searches@),
            p == asked_with(query@),
            forall|j: int| 0 <= j < i ==> !p(#[trigger] models[j]),
        decreases searches@.len() - i,
    {
        assert(models[i as int] == searches@[i as int]@);
        if str_eq(searches[i].query.as_str(), query) {
            proof {
                crate::lists::lemma_first_where_is(models, p, i as int);
            }
            return Some(i);
        }
        i += 1;
    }
    proof {
        crate::lists::lemma_first_where_none(models, p);
    }
    None
}

/// The results of a search, copied.
pub fn clone_results(results: &Vec<SearchResult>) -> (r: Vec<SearchResult>)
    ensures
        answers(r@) == answers(results@),
{
    let mut out: Vec<SearchResult> = Vec::new();
    let mut i: usize = 0;
    while i < results.len()
        invariant
            i <= results@.len(),
            answers(out@) == answers(results@.take(i as int)),
        decreases results@.len() - i,
    {
        let ghost before = out@;
        let copy = results[i].clone();
        out.push(copy);
        assert(answers(out@) =~= answers(before).push(copy@));
        assert(answers(results@.take(i + 1)) =~= answers(results@.take(i as int)).push(copy@));
        i += 1;
    }
    assert(results@.take(i as int) =~= results@);
    out
}

impl Client {
    /// How long the limit on searches makes us wait; `None` where a search may go
    /// ahead.
    pub fn search_wait(&mut self) -> (r: Option<Duration>)
        requires
            old(self).search_limiter matches Some(l) ==> l@.limit > 0,
        ensures
            final(self)@ == old(self)@,
            final(self).settings == old(self).settings,
            match old(self).search_limiter {
                Some(l) => final(self).search_limiter matches Some(l2) && exists|now: u128|
                    {
                        &&& l2@ == #[trigger] l@.pruned(now)
                        &&& match r {
                            Some(d) => l@.wait(now) == Some(d@),
                            None => l@.wait(now) is None,
                        }
                    },
                None => final(self).search_limiter is None && r is None,
            },
    {
        match &mut self.search_limiter {
            Some(limiter) => limiter.wait_duration(),
            None => None,
        }
    }

    /// Begin a search that need not wait: it is counted, and where the client has
    /// a connection it is entered and the server is asked.
    pub fn search(&mut self, query: &str) -> (r: Result<ServerMessage>)
        requires
            vstd::utf8::encode_utf8(query@).len() <= usize::MAX - 128,
        ensures
            final(self).settings == old(self).settings,
            match old(self).search_limiter {
                Some(l) => final(self).search_limiter matches Some(l2) && exists|now: u128|
                    l2@ == (super::limiter::RateModel {
                        issued: #[trigger] l@.issued.push(now),
                        ..l@
                    }),
                None => final(self).search_limiter is None,
            },
            match r {
                Ok(message) => {
                    let token = SearchToken(crate::md5::md5_token(query@) as u32);
                    &&& old(self)@.server_handle is Some
                    &&& message matches ServerMessage::FileSearch { token: t, query: q }
                    &&& t == token
                    &&& q@ == query@
                    &&& final(self)@ == old(self)@.with_searches(
                        with_new_search(old(self)@.context.searches, query@, token),
                    )
                },
                Err(e) => {
                    &&& old(self)@.server_handle is None
                    &&& e == SoulseekRs::NotConnected
                    &&& final(self)@ == old(self)@
                },
            },
    {
        match &mut self.search_limiter {
            Some(limiter) => {
                limiter.record();
            },
            None => {},
        }
        if self.server_handle.is_none() {
            return Err(SoulseekRs::NotConnected);
        }
        let token = SearchToken(token_of(query));
        let entry = SearchEntry {
            query: query.to_owned(),
            search: Search { token, results: Vec::new() },
        };
        let ghost models = self@.context.searches;
        let ghost before = self@;
        let ghost entry0 = entry;
        assert(entry@ =~= super::context::SearchModel { query: query@, token, results: Seq::empty() });
        match position_of_search(&self.context.searches, query) {
            Some(i) => {
                self.context.searches.set(i, entry);
                assert(self@.context.searches =~= models.update(i as int, entry0@));
            },
            None => {
                self.context.searches.push(entry);
                assert(self@.context.searches =~= models.push(entry0@));
            },
        }
        assert(self@ =~= before.with_searches(with_new_search(models, query@, token)));
        Ok(ServerMessage::FileSearch { token, query: query.to_owned() })
    }

    /// Whether a search that has run for a while is over.
    pub fn search_over(cancelled: bool, elapsed: Duration, timeout: Duration) -> (r: bool)
        ensures
            r == (cancelled || elapsed@ >= timeout@),
    {
        cancelled || elapsed.as_nanos() >= timeout.as_nanos()
    }

    /// How many answers a search has had.
    pub fn get_search_results_count(&self, search_key: &str) -> (r: usize)
        ensures
            r == match crate::lists::first_where(
                self@.context.searches,
                asked_with(search_key@),
            ) {
                Some(i) => self@.context.searches[i].results.len(),
                None => 0,
            },
    {
        match position_of_search(&self.context.searches, search_key) {
            Some(i) => {
                assert(self@.context.searches[i as int] == self.context.searches@[i as int]@);
                self.context.searches[i].search.results.len()
            },
            None => 0,
        }
    }

    /// The answers that a search has had.
    pub fn get_search_results(&self, search_key: &str) -> (r: Vec<SearchResult>)
        ensures
            answers(r@) == match crate::lists::first_where(
                self@.context.searches,
                asked_with(search_key@),
            ) {
                Some(i) => answers(self@.context.searches[i].results),
                None => Seq::empty(),
            },
    {
        match self.try_get_search_results(search_key) {
            Some(results) => results,
            None => {
                let none: Vec<SearchResult> = Vec::new();
                assert(answers(none@) =~= Seq::empty());
                none
            },
        }
    }

    /// The answers that a search has had; `None` where there is no such search.
    pub fn try_get_search_results(&self, search_key: &str) -> (r: Option<Vec<SearchResult>>)
        ensures
            match crate::lists::first_where(self@.context.searches, asked_with(search_key@)) {
                Some(i) => r matches Some(results) && answers(results@) == answers(
                    self@.context.searches[i].results,
                ),
                None => r is None,
            },
    {
        match position_of_search(&self.context.searches, search_key) {
            Some(i) => {
                assert(self@.context.searches[i as int] == self.context.searches@[i as int]@);
                Some(clone_results(&self.context.searches[i].search.results))
            },
            None => None,
        }
    }

    /// The searches.
    pub fn get_all_searches(&self) -> (r: &Vec<SearchEntry>)
        ensures
            super::context::search_models(r@) == self@.context.searches,
    {
        &self.context.searches
    }

    /// The downloads.
    pub fn get_all_downloads(&self) -> (r: Vec<Download>)
        ensures
            r@ == self@.context.downloads,
    {
        let mut out: Vec<Download> = Vec::new();
        let mut i: usize = 0;
        while i < self.context.downloads.len()
            invariant
                i <= self.context.downloads@.len(),
                out@ == self.context.downloads@.take(i as int),
            decreases self.context.downloads@.len() - i,
        {
            out.push(self.context.downloads[i].clone());
            i += 1;
            assert(out@ =~= self.context.downloads@.take(i as int));
        }
        assert(out@ =~= self.context.downloads@);
        out
    }
}

// ---- downloading ------------------------------------------------------------------------

impl ClientModel {
    /// A download is asked for: it is noted, and it begins, waits for a slot,
    /// waits for the login, or fails for want of a registry.
    pub open spec fn requested(self, pd: PendingDownload) -> (ClientModel, Seq<ClientAction>) {
        let noted = self.with_downloads(self.context.downloads.push(pd.download()));
        if self.state != ClientState::Connected {
            (ClientModel { pending: self.pending.push(pd), ..noted }, Seq::empty())
        } else if self.context.peer_registry is Some {
            noted.begin_or_wait(pd)
        } else {
            noted.ended(pd.token, pd.status_sender, DownloadStatus::Failed)
        }
    }

    /// A download has ended: its caller is told and its status is set.
    pub open spec fn ended(
        self,
        token: DownloadToken,
        channel: StatusChannel,
        status: DownloadStatus,
    ) -> (ClientModel, Seq<ClientAction>) {
        (
            self.with_downloads(
                super::context::with_status(self.context.downloads, token, status),
            ),
            seq![ClientAction::Notify { channel, status }],
        )
    }

    /// The word that a slot is free, where the client can be reached.
    pub open spec fn freeing(self) -> Seq<ClientAction> {
        match self.context.sender {
            Some(operations) => seq![ClientAction::FreeSlot { operations }],
            None => Seq::empty(),
        }
    }
}

impl Client {
    fn end_download(
        &mut self,
        token: DownloadToken,
        channel: StatusChannel,
        status: DownloadStatus,
        actions: &mut Vec<ClientAction>,
    )
        ensures
            ({
                let (after, more) = old(self)@.ended(token, channel, status);
                &&& final(self)@ == after
                &&& final(actions)@ == old(actions)@ + more
                &&& final(self).rest_as(*old(self))
            }),
    {
        actions.push(ClientAction::Notify { channel, status });
        self.context.update_download_with_status(token, status);
        assert(actions@ =~= old(actions)@ + old(self)@.ended(token, channel, status).1);
    }

    fn push_free_slot(&self, actions: &mut Vec<ClientAction>)
        ensures
            final(actions)@ == old(actions)@ + self@.freeing(),
    {
        match self.context.sender {
            Some(operations) => {
                actions.push(ClientAction::FreeSlot { operations });
            },
            None => {},
        }
        assert(actions@ =~= old(actions)@ + self@.freeing());
    }

    /// Ask for a file. The caller hears of its progress on `channel`. A
    /// [`ClientAction::QueueUpload`] that fails is to be reported with
    /// [`Client::upload_refused`].
    pub fn download(
        &mut self,
        filename: SoulseekPath,
        username: String,
        size: u64,
        download_directory: String,
        channel: StatusChannel,
    ) -> (r: (Download, Vec<ClientAction>))
        requires
            vstd::utf8::encode_utf8(filename@).len() <= usize::MAX - 128,
        ensures
            ({
                let pd = PendingDownload {
                    filename,
                    username,
                    size,
                    download_directory,
                    token: DownloadToken(crate::md5::md5_token(filename@) as u32),
                    status_sender: channel,
                };
                let (after, actions) = old(self)@.requested(pd);
                &&& r.0 == pd.download()
                &&& final(self)@ == after
                &&& r.1@ == actions
                &&& final(self).rest_as(*old(self))
            }),
    {
        let ghost before = self@;
        let token = DownloadToken(token_of(filename.as_str()));
        let pd = PendingDownload {
            filename,
            username,
            size,
            download_directory,
            token,
            status_sender: channel,
        };
        let ghost pd0 = pd;
        let download = pd.to_download();
        let mut actions: Vec<ClientAction> = Vec::new();
        self.context.add_download(pd.to_download());
        assert(self@ =~= before.with_downloads(before.context.downloads.push(pd0.download())));
        if self.state == ClientState::Connected {
            if self.context.peer_registry.is_some() {
                self.begin_or_wait(pd, &mut actions);
            } else {
                self.end_download(token, channel, DownloadStatus::Failed, &mut actions);
            }
        } else {
            self.pending_downloads.push_back(pd);
        }
        assert(self@ =~= before.requested(pd0).0);
        assert(actions@ =~= before.requested(pd0).1);
        (download, actions)
    }

    /// The registry could not pass a request for a file on.
    pub fn upload_refused(&mut self, download: &Download) -> (r: Vec<ClientAction>)
        ensures
            ({
                let (after, actions) = old(self)@.ended(
                    download.token,
                    download.sender,
                    DownloadStatus::Failed,
                );
                &&& final(self)@ == after
                &&& r@ == actions
                &&& final(self).rest_as(*old(self))
            }),
    {
        let mut actions: Vec<ClientAction> = Vec::new();
        self.end_download(
            download.token,
            download.sender,
            DownloadStatus::Failed,
            &mut actions,
        );
        assert(actions@ =~= old(self)@.ended(
            download.token,
            download.sender,
            DownloadStatus::Failed,
        ).1);
        actions
    }

    /// A file that was known has been fetched, or could not be. Either way a slot
    /// is free.
    pub fn direct_fetch_ended(&mut self, asked: &Download, fetched: Option<Download>) -> (r: Vec<
        ClientAction,
    >)
        ensures
            ({
                let (after, notice) = match fetched {
                    Some(d) => old(self)@.ended(d.token, d.sender, DownloadStatus::Completed),
                    None => old(self)@.ended(asked.token, asked.sender, DownloadStatus::Failed),
                };
                &&& final(self)@ == after
                &&& r@ == notice + old(self)@.freeing()
                &&& final(self).rest_as(*old(self))
            }),
    {
        let ghost before = self@;
        let mut actions: Vec<ClientAction> = Vec::new();
        match &fetched {
            Some(d) => {
                self.end_download(d.token, d.sender, DownloadStatus::Completed, &mut actions);
            },
            None => {
                self.end_download(
                    asked.token,
                    asked.sender,
                    DownloadStatus::Failed,
                    &mut actions,
                );
            },
        }
        self.push_free_slot(&mut actions);
        assert(self@.freeing() == before.freeing());
        proof {
            let notice = match fetched {
                Some(d) => before.ended(d.token, d.sender, DownloadStatus::Completed).1,
                None => before.ended(asked.token, asked.sender, DownloadStatus::Failed).1,
            };
            assert(actions@ =~= notice + before.freeing());
        }
        actions
    }

    /// A file that the peer named has been fetched, or could not be. Either way a
    /// slot is free.
    pub fn pierced_fetch_ended(&mut self, fetched: Option<Download>) -> (r: Vec<ClientAction>)
        ensures
            ({
                let (after, notice) = match fetched {
                    Some(d) => old(self)@.ended(d.token, d.sender, DownloadStatus::Completed),
                    None => (old(self)@, Seq::empty()),
                };
                &&& final(self)@ == after
                &&& r@ == notice + old(self)@.freeing()
                &&& final(self).rest_as(*old(self))
            }),
    {
        let ghost before = self@;
        let mut actions: Vec<ClientAction> = Vec::new();
        match &fetched {
            Some(d) => {
                self.end_download(d.token, d.sender, DownloadStatus::Completed, &mut actions);
            },
            None => {},
        }
        self.push_free_slot(&mut actions);
        assert(self@.freeing() == before.freeing());
        proof {
            let notice = match fetched {
                Some(d) => before.ended(d.token, d.sender, DownloadStatus::Completed).1,
                None => Seq::empty(),
            };
            assert(actions@ =~= notice + before.freeing());
        }
        actions
    }
}

// ---- laws ---------------------------------------------------------------------------------

/// Downloads that waited for the login begin in the order in which they were
/// asked for, as many as there are slots, and the rest wait in that order.
pub proof fn lemma_replay_in_order(m: ClientModel, pending: Seq<PendingDownload>, n: nat)
    requires
        m.context.peer_registry is Some,
        m.within_limit(),
        n <= pending.len(),
    ensures
        ({
            let (after, actions) = m.replay(pending, n);
            let k = match m.slots {
                Some(s) => if n <= s.max_concurrent - s.active {
                    n as int
                } else {
                    s.max_concurrent - s.active
                },
                None => n as int,
            };
            &&& actions == pending.take(k).map_values(|pd: PendingDownload| super::operation::ask_for(pd))
            &&& after == (ClientModel {
                slots: match m.slots {
                    Some(s) => Some(
                        super::limiter::SlotsModel {
                            active: (s.active + k) as u32,
                            queue: s.queue + pending.subrange(k, n as int),
                            ..s
                        },
                    ),
                    None => None,
                },
                ..m
            })
        }),
    decreases n,
{
    let asked = |pd: PendingDownload| super::operation::ask_for(pd);
    if n == 0 {
        assert(pending.take(0).map_values(asked) =~= Seq::empty());
        match m.slots {
            Some(s) => {
                assert(s.queue + pending.subrange(0, 0) =~= s.queue);
            },
            None => {},
        }
    } else {
        lemma_replay_in_order(m, pending, (n - 1) as nat);
        let pd = pending[n - 1];
        match m.slots {
            Some(s) => {
                let room = s.max_concurrent - s.active;
                if n <= room {
                    assert(pending.take(n as int).map_values(asked) =~= pending.take(
                        n - 1,
                    ).map_values(asked) + seq![super::operation::ask_for(pd)]);
                    assert(s.queue + pending.subrange(n as int, n as int) =~= s.queue
                        + pending.subrange(n - 1, n - 1));
                } else {
                    assert(pending.subrange(room, n as int) =~= pending.subrange(
                        room,
                        n - 1,
                    ).push(pd));
                    assert(s.queue + pending.subrange(room, n as int) =~= (s.queue
                        + pending.subrange(room, n - 1)).push(pd));
                    assert(pending.take(room).map_values(asked) =~= pending.take(room).map_values(
                        asked,
                    ) + Seq::<ClientAction>::empty());
                }
            },
            None => {
                assert(pending.take(n as int).map_values(asked) =~= pending.take(
                    n - 1,
                ).map_values(asked) + seq![super::operation::ask_for(pd)]);
            },
        }
    }
}

/// Replaying without a registry only drops.
proof fn lemma_replay_without_registry(m: ClientModel, pending: Seq<PendingDownload>, n: nat)
    requires
        m.context.peer_registry is None,
    ensures
        m.replay(pending, n).0 == m,
    decreases n,
{
    if n > 0 {
        lemma_replay_without_registry(m, pending, (n - 1) as nat);
    }
}

/// No operation lets more downloads run than the limit allows, where the limit
/// allows one at all.
pub proof fn lemma_limit_is_kept(
    m: ClientModel,
    op: ClientOperation,
    peer_known: bool,
    own_username: String,
)
    requires
        m.within_limit(),
        m.slots matches Some(s) ==> s.max_concurrent > 0,
    ensures
        m.step(op, peer_known, own_username).0.within_limit(),
{
    if op is LoginSucceeded {
        let start = ClientModel { state: ClientState::Connected, pending: Seq::empty(), ..m };
        if m.context.peer_registry is Some {
            lemma_replay_in_order(start, m.pending, m.pending.len());
        } else {
            lemma_replay_without_registry(start, m.pending, m.pending.len());
        }
    }
}

/// Asking for a download keeps the limit too.
pub proof fn lemma_request_keeps_limit(m: ClientModel, pd: PendingDownload)
    requires
        m.within_limit(),
    ensures
        m.requested(pd).0.within_limit(),
{
}

/// A download that is asked for is known from then on, by its token.
pub proof fn lemma_request_is_known(m: ClientModel, pd: PendingDownload)
    ensures
        crate::lists::first_where(
            m.requested(pd).0.context.downloads,
            super::context::has_token(pd.token),
        ) is Some,
{
    let noted = m.context.downloads.push(pd.download());
    let p = super::context::has_token(pd.token);
    let after = m.requested(pd).0.context.downloads;
    crate::lists::lemma_first_where(noted, p);
    assert(noted[noted.len() - 1] == pd.download());
    assert(after.len() == noted.len());
    assert(p(after[noted.len() - 1]));
    crate::lists::lemma_first_where(after, p);
}

/// An answer is among the results of the search that it answers, after those that
/// came before it, and no other search is touched, as long as no other search has the
/// same token.
pub proof fn lemma_answer_reaches_its_search(
    context: super::context::ContextModel,
    query: Seq<char>,
    result: SearchResult,
)
    requires
        crate::lists::first_where(context.searches, asked_with(query)) matches Some(i)
            && context.searches[i].token == result.token && forall|j: int|
            0 <= j < context.searches.len() && j != i ==> (#[trigger] context.searches[j]).token
                != result.token,
    ensures
        ({
            let i = crate::lists::first_where(context.searches, asked_with(query))->0;
            let after = context.with_result(result);
            &&& crate::lists::first_where(after.searches, asked_with(query)) == Some(i)
            &&& after.searches[i].results == context.searches[i].results.push(result)
            &&& forall|j: int|
                0 <= j < context.searches.len() && j != i ==> #[trigger] after.searches[j]
                    == context.searches[j]
        }),
{
    let p = asked_with(query);
    let i = crate::lists::first_where(context.searches, p)->0;
    let t = |s: super::context::SearchModel| s.token == result.token;
    crate::lists::lemma_first_where(context.searches, p);
    crate::lists::lemma_first_where_is(context.searches, t, i);
    let after = context.with_result(result);
    assert forall|j: int| 0 <= j < i implies !p(#[trigger] after.searches[j]) by {
        assert(!p(context.searches[j]));
    }
    crate::lists::lemma_first_where_is(after.searches, p, i);
}

} // verus!
