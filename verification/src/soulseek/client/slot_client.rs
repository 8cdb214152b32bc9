//! A client whose downloads and searches are kept by a worker.
use std::collections::VecDeque;

use vstd::prelude::*;

use super::context::{OperationChannel, ServerChannel};
use super::handle::DownloadHandle;
use super::limiter::{PendingDownload, SearchRateLimiter};
use super::session::{ClientState, ConnectRequest, LoginAnswer};
use super::settings::{ClientSettings, PlainTextUnencrypted};
use super::slots::{CancelFlag, QueuedDownload, SlotOperation, TrackedDownload};
use crate::md5::token_of;
use crate::soulseek::actor::server_actor::ServerMessage;
use crate::soulseek::error::{Result, SoulseekRs};
use crate::soulseek::path::SoulseekPath;
use crate::soulseek::token::{DownloadToken, SearchToken};
use crate::soulseek::types::StatusChannel;
use crate::time::Duration;

verus! {

/// What a connection gives: the actor of the server connection and the worker.
#[derive(Debug, Clone, Copy, PartialEq, Eq, Structural)]
pub struct ActiveConnection {
    pub server_handle: ServerChannel,
    pub op_tx: OperationChannel,
}

/// What of a client changes.
#[derive(Debug)]
pub struct ClientInner {
    pub state: ClientState,
    /// There from the first connection on; it stays when the connection is lost.
    pub active: Option<ActiveConnection>,
    /// Downloads that were asked for before the first connection.
    pub pending_downloads: VecDeque<QueuedDownload>,
}

/// A client.
#[derive(Debug)]
pub struct Client {
    pub settings: ClientSettings,
    pub inner: ClientInner,
    pub search_limiter: Option<SearchRateLimiter>,
}

/// What it takes to connect: besides the request, the downloads and the limit
/// with which the worker starts.
#[derive(Debug)]
pub struct ConnectPlan {
    pub request: ConnectRequest,
    pub pre_pending: VecDeque<QueuedDownload>,
    pub max_concurrent: Option<u32>,
}

/// What it takes to search: what the worker and the server's actor are told.
#[derive(Debug)]
pub struct SearchPlan {
    pub active: ActiveConnection,
    pub to_worker: SlotOperation,
    pub to_server: ServerMessage,
}

/// What a request for a file leads to.
#[derive(Debug)]
pub struct DownloadPlan {
    pub download: TrackedDownload,
    pub handle: DownloadHandle,
    /// What the worker is told, where there is one.
    pub to_worker: Option<(OperationChannel, SlotOperation)>,
}

/// A plan has the worker and the server search for a text, under the token that
/// belongs to it.
pub open spec fn searches_for(plan: SearchPlan, query: Seq<char>) -> bool {
    let token = SearchToken(crate::md5::md5_token(query) as u32);
    &&& plan.to_worker matches SlotOperation::InitiateSearch(t, q)
    &&& t == token
    &&& q@ == query
    &&& plan.to_server matches ServerMessage::FileSearch { token: t2, query: q2 }
    &&& t2 == token
    &&& q2@ == query
}

/// A search has been counted, where searches are limited; nothing else has changed.
pub open spec fn search_counted(before: Client, after: Client) -> bool {
    &&& after.inner == before.inner
    &&& after.settings == before.settings
    &&& match before.search_limiter {
        Some(l) => after.search_limiter matches Some(l2) && exists|now: u128|
            l2@ == (super::limiter::RateModel {
                issued: #[trigger] l@.issued.push(now),
                ..l@
            }),
        None => after.search_limiter is None,
    }
}

/// The request for a file, under the token that belongs to its path.
pub open spec fn request_for(
    filename: SoulseekPath,
    username: String,
    size: u64,
    download_directory: String,
    progress_timeout: Option<Duration>,
    channel: StatusChannel,
    cancel: CancelFlag,
) -> QueuedDownload {
    QueuedDownload {
        pending: PendingDownload {
            filename,
            username,
            size,
            download_directory,
            token: DownloadToken(crate::md5::md5_token(filename@) as u32),
            status_sender: channel,
        },
        cancel,
        progress_timeout,
    }
}

/// A request has been made: the worker is told of it, or it waits for the first
/// connection.
pub open spec fn download_begun(
    before: Client,
    after: Client,
    q: QueuedDownload,
    recv_timeout: Option<Duration>,
    r: DownloadPlan,
) -> bool {
    &&& r.download == q.followed()
    &&& r.handle == (DownloadHandle {
        cancelled: false,
        progress_timeout: q.progress_timeout,
        recv_timeout,
        op_tx: match before.inner.active {
            Some(a) => Some(a.op_tx),
            None => None,
        },
        token: q.pending.token,
    })
    &&& match before.inner.active {
        Some(a) => {
            &&& r.to_worker == Some((a.op_tx, SlotOperation::RequestDownload(q)))
            &&& after.inner == before.inner
        },
        None => {
            &&& r.to_worker is None
            &&& after.inner.pending_downloads@ == before.inner.pending_downloads@.push(q)
            &&& after.inner.state == before.inner.state
            &&& after.inner.active is None
        },
    }
    &&& after.settings == before.settings
    &&& after.search_limiter == before.search_limiter
}

/// The limiter is the one that the settings ask for, and has seen no search.
pub open spec fn limits_searches(limiter: Option<SearchRateLimiter>, settings: ClientSettings) -> bool {
    match settings.search_rate_limit_settings {
        Some(s) => limiter matches Some(l) && l@ == (super::limiter::RateModel {
            limit: s.searches as nat,
            period: s.per_period@,
            issued: Seq::empty(),
        }),
        None => limiter is None,
    }
}

impl Client {
    /// A client with the default settings.
    pub fn new(username: PlainTextUnencrypted, password: PlainTextUnencrypted) -> (r: Client)
        ensures
            r.settings.username == username,
            r.settings.password == password,
            r.settings.has_defaults(),
            r.inner.state == ClientState::Disconnected,
            r.inner.active is None,
            r.inner.pending_downloads@.len() == 0,
            limits_searches(r.search_limiter, r.settings),
    {
        Client::with_settings(ClientSettings::new(username, password))
    }

    /// A client that is not connected.
    pub fn with_settings(settings: ClientSettings) -> (r: Client)
        ensures
            r.settings == settings,
            r.inner.state == ClientState::Disconnected,
            r.inner.active is None,
            r.inner.pending_downloads@.len() == 0,
            limits_searches(r.search_limiter, settings),
    {
        let search_limiter = match &settings.search_rate_limit_settings {
            Some(s) => Some(SearchRateLimiter::new(s.searches, s.per_period)),
            None => None,
        };
        Client {
            settings,
            inner: ClientInner {
                state: ClientState::Disconnected,
                active: None,
                pending_downloads: VecDeque::new(),
            },
            search_limiter,
        }
    }

    /// Begin to connect. `None` where the client is connected already. The worker
    /// takes over the downloads that were asked for so far.
    pub fn connect(&mut self) -> (r: Option<ConnectPlan>)
        ensures
            final(self).settings == old(self).settings,
            final(self).search_limiter == old(self).search_limiter,
            final(self).inner.active == old(self).inner.active,
            match r {
                None => {
                    &&& old(self).inner.state == ClientState::Connected
                    &&& final(self).inner == old(self).inner
                },
                Some(plan) => {
                    &&& old(self).inner.state != ClientState::Connected
                    &&& final(self).inner.state == ClientState::Connecting
                    &&& final(self).inner.pending_downloads@.len() == 0
                    &&& plan.pre_pending@ == old(self).inner.pending_downloads@
                    &&& plan.max_concurrent
                        == match old(self).settings.download_rate_limit_settings {
                        Some(s) => Some(s.concurrent_downloads),
                        None => None,
                    }
                    &&& plan.request == (ConnectRequest {
                        username: old(self).settings.username.0,
                        password: old(self).settings.password.0,
                        server_address: old(self).settings.server_address,
                        listen_port: old(self).settings.listen_port,
                        enable_listen: old(self).settings.enable_listen,
                        tcp_keepalive: old(self).settings.tcp_keepalive_settings,
                        reconnect: old(self).settings.reconnect_settings,
                    })
                },
            },
    {
        if self.inner.state == ClientState::Connected {
            return None;
        }
        self.inner.state = ClientState::Connecting;
        let mut pre_pending: VecDeque<QueuedDownload> = VecDeque::new();
        core::mem::swap(&mut pre_pending, &mut self.inner.pending_downloads);
        let max_concurrent = match &self.settings.download_rate_limit_settings {
            Some(s) => Some(s.concurrent_downloads),
            None => None,
        };
        Some(
            ConnectPlan {
                request: ConnectRequest {
                    username: self.settings.username.0.clone(),
                    password: self.settings.password.0.clone(),
                    server_address: self.settings.server_address.clone(),
                    listen_port: self.settings.listen_port,
                    enable_listen: self.settings.enable_listen,
                    tcp_keepalive: self.settings.tcp_keepalive_settings,
                    reconnect: self.settings.reconnect_settings,
                },
                pre_pending,
                max_concurrent,
            },
        )
    }

    /// The worker and the actor of the server connection run.
    pub fn started(&mut self, active: ActiveConnection)
        ensures
            final(self).inner.active == Some(active),
            final(self).inner.state == old(self).inner.state,
            final(self).inner.pending_downloads == old(self).inner.pending_downloads,
            final(self).settings == old(self).settings,
            final(self).search_limiter == old(self).search_limiter,
    {
        self.inner.active = Some(active);
    }

    /// The login has ended. That the client is connected is for the worker to say.
    pub fn login_answered(answer: LoginAnswer) -> (r: Result<()>)
        ensures
            r == super::session::login_result(answer),
    {
        match answer {
            LoginAnswer::Answered(Ok(true)) => Ok(()),
            LoginAnswer::Answered(Ok(false)) => Err(SoulseekRs::AuthenticationFailed),
            LoginAnswer::Answered(Err(e)) => Err(e),
            LoginAnswer::Dropped => Err(SoulseekRs::Timeout),
        }
    }

    /// How long the limit on searches makes us wait; `None` where a search may go
    /// ahead.
    pub fn wait_for_search_rate_limit(&mut self) -> (r: Option<Duration>)
        requires
            old(self).search_limiter matches Some(l) ==> l@.limit > 0,
        ensures
            final(self).inner == old(self).inner,
            final(self).settings == old(self).settings,
            match old(self).search_limiter {
                Some(l) => final(self).search_limiter matches Some(l2) && exists|now: u128|
                    {
                        &&& l2@ == #[trigger] l@.pruned(now)
                        &&& match r {
                            Some(d) => l@.wait(now) == Some(d@),
                            None => l@.wait(now) is None,
                        }
                    },
                None => final(self).search_limiter is None && r is None,
            },
    {
        match &mut self.search_limiter {
            Some(limiter) => limiter.wait_duration(),
            None => None,
        }
    }

    /// Begin a search that need not wait: it is counted; an error where there never
    /// was a connection.
    pub fn search(&mut self, query: &str) -> (r: Result<SearchPlan>)
        requires
            vstd::utf8::encode_utf8(query@).len() <= usize::MAX - 128,
        ensures
            search_counted(*old(self), *final(self)),
            match r {
                Ok(plan) => old(self).inner.active == Some(plan.active) && searches_for(
                    plan,
                    query@,
                ),
                Err(e) => old(self).inner.active is None && e == SoulseekRs::NotConnected,
            },
    {
        match &mut self.search_limiter {
            Some(limiter) => {
                limiter.record();
            },
            None => {},
        }
        match self.inner.active {
            Some(active) => {
                let token = SearchToken(token_of(query));
                Ok(
                    SearchPlan {
                        active,
                        to_worker: SlotOperation::InitiateSearch(token, query.to_owned()),
                        to_server: ServerMessage::FileSearch { token, query: query.to_owned() },
                    },
                )
            },
            None => Err(SoulseekRs::NotConnected),
        }
    }

    /// Ask for a file: the worker is told, or the request waits for the first
    /// connection.
    pub fn download(
        &mut self,
        filename: SoulseekPath,
        username: String,
        size: u64,
        download_directory: String,
        progress_timeout: Option<Duration>,
        recv_timeout: Option<Duration>,
        channel: StatusChannel,
        cancel: CancelFlag,
    ) -> (r: DownloadPlan)
        requires
            vstd::utf8::encode_utf8(filename@).len() <= usize::MAX - 128,
        ensures
            download_begun(
                *old(self),
                *final(self),
                request_for(
                    filename,
                    username,
                    size,
                    download_directory,
                    progress_timeout,
                    channel,
                    cancel,
                ),
                recv_timeout,
                r,
            ),
    {
        let token = DownloadToken(token_of(filename.as_str()));
        let queued = QueuedDownload {
            pending: PendingDownload {
                filename,
                username,
                size,
                download_directory,
                token,
                status_sender: channel,
            },
            cancel,
            progress_timeout,
        };
        let download = queued.to_download();
        match self.inner.active {
            Some(active) => DownloadPlan {
                download,
                handle: DownloadHandle::new(
                    progress_timeout,
                    recv_timeout,
                    Some(active.op_tx),
                    token,
                ),
                to_worker: Some((active.op_tx, SlotOperation::RequestDownload(queued))),
            },
            None => {
                self.inner.pending_downloads.push_back(queued);
                DownloadPlan {
                    download,
                    handle: DownloadHandle::new(progress_timeout, recv_timeout, None, token),
                    to_worker: None,
                }
            },
        }
    }
}

} // verus!
