//! A worker that owns the downloads and searches of a connection and holds one
//! slot for each download that runs.
use std::collections::{HashSet, VecDeque};

use vstd::prelude::*;

use super::limiter::PendingDownload;
use super::operation::peer_of;
use super::session::ClientState;
use crate::soulseek::actor::server_actor::ServerMessage;
use crate::soulseek::download_peer::{DownloadError, DownloadPeer};
use crate::soulseek::error::{Result, SoulseekRs};
use crate::soulseek::path::SoulseekPath;
use crate::soulseek::peer::{ConnectionType, NewPeer, Peer, StreamHandle};
use crate::soulseek::token::{DownloadToken, PeerTransferToken, PierceToken, SearchToken};
use crate::soulseek::types::{Download, DownloadStatus, SearchResult, StatusChannel, Transfer};
use crate::text::str_eq;
use crate::time::Duration;

verus! {

/// The flag by which the caller of a download cancels it.
#[derive(Debug, Clone, Copy, PartialEq, Eq, Structural)]
pub struct CancelFlag(pub u64);

/// A download that has been asked for, with what its caller wants of it.
#[derive(Debug)]
pub struct QueuedDownload {
    pub pending: PendingDownload,
    pub cancel: CancelFlag,
    pub progress_timeout: Option<Duration>,
}

/// A download that the worker keeps track of.
#[derive(Debug)]
pub struct TrackedDownload {
    pub download: Download,
    /// The number that the peer gave to the transfer, once it has.
    pub peer_token: Option<PeerTransferToken>,
    pub cancel: CancelFlag,
    pub progress_timeout: Option<Duration>,
}

impl Clone for TrackedDownload {
    fn clone(&self) -> (r: Self)
        ensures
            r == *self,
    {
        TrackedDownload {
            download: self.download.clone(),
            peer_token: self.peer_token,
            cancel: self.cancel,
            progress_timeout: self.progress_timeout,
        }
    }
}

impl QueuedDownload {
    /// The download to keep track of.
    pub open spec fn followed(self) -> TrackedDownload {
        TrackedDownload {
            download: self.pending.download(),
            peer_token: None,
            cancel: self.cancel,
            progress_timeout: self.progress_timeout,
        }
    }

    /// The download to keep track of.
    pub fn to_download(&self) -> (r: TrackedDownload)
        ensures
            r == self.followed(),
    {
        TrackedDownload {
            download: self.pending.to_download(),
            peer_token: None,
            cancel: self.cancel,
            progress_timeout: self.progress_timeout,
        }
    }
}

/// A search and its results.
#[derive(Debug)]
pub struct TokenSearch {
    pub token: SearchToken,
    pub query: String,
    pub results: Vec<SearchResult>,
}

/// A search as a value.
#[verifier::ext_equal]
pub struct TokenSearchModel {
    pub token: SearchToken,
    pub query: Seq<char>,
    pub results: Seq<SearchResult>,
}

impl View for TokenSearch {
    type V = TokenSearchModel;

    open spec fn view(&self) -> TokenSearchModel {
        TokenSearchModel { token: self.token, query: self.query@, results: self.results@ }
    }
}

/// What the actors, the listener and the callers tell the worker.
#[derive(Debug)]
pub enum SlotOperation {
    NewPeer(NewPeer),
    ConnectToPeer(Peer),
    SearchResult(SearchResult),
    PeerDisconnected(String, Option<SoulseekRs>),
    PierceFireWall(Peer),
    DownloadFromPeer(PeerTransferToken, Peer, bool),
    UpdateDownloadTokens(Transfer, String),
    GetPeerAddressResponse {
        username: String,
        host: String,
        port: u32,
        obfuscation_type: u32,
        obfuscated_port: u16,
    },
    UploadFailed(String, SoulseekPath),
    ServerDisconnected,
    LoginSucceeded,
    DownloadCompleted(DownloadToken, Result<String>),
    RequestDownload(QueuedDownload),
    InitiateSearch(SearchToken, String),
    CancelDownload(DownloadToken),
}

/// A connection that carries a file carries a token.
pub open spec fn operation_ok(op: SlotOperation) -> bool {
    match op {
        SlotOperation::ConnectToPeer(peer) => super::operation::peer_has_token(peer),
        SlotOperation::PierceFireWall(peer) => peer.token is Some,
        _ => true,
    }
}

impl SlotOperation {
    /// Whether a connection that carries a file carries a token.
    pub fn is_ok(&self) -> (r: bool)
        ensures
            r == operation_ok(*self),
    {
        match self {
            SlotOperation::ConnectToPeer(peer) => peer.connection_type != ConnectionType::F
                || peer.token.is_some(),
            SlotOperation::PierceFireWall(peer) => peer.token.is_some(),
            _ => true,
        }
    }
}

/// What the worker has done by others.
#[derive(Debug)]
pub enum SlotAction {
    /// Ask a peer, through the registry, to queue a file for us.
    QueueUpload { username: String, filename: SoulseekPath },
    /// Tell the caller of a download how far it is.
    Notify { channel: StatusChannel, status: DownloadStatus },
    /// Take a peer out of the registry and stop its actor, if it is there.
    StopPeer { username: String },
    /// Send a message to the actor of the server connection.
    SendToServer { message: ServerMessage },
    /// Enter a peer in the registry and start its actor.
    RegisterPeer { peer: Peer, stream: Option<StreamHandle> },
    /// Fetch a file that is known.
    FetchDirect { download: TrackedDownload, from: DownloadPeer },
    /// Fetch the file that the peer will name. Where it fails before the peer has,
    /// the failure is that of the given download.
    FetchPierced {
        from: DownloadPeer,
        stream: Option<StreamHandle>,
        initiating: Option<DownloadToken>,
    },
}

/// The worker of a connection.
#[derive(Debug)]
pub struct ConnectedWorker {
    pub own_username: String,
    pub state: ClientState,
    pub logged_in: bool,
    /// Downloads that wait for the login or for a slot.
    pub pending: VecDeque<QueuedDownload>,
    pub max_concurrent: Option<u32>,
    /// The tokens of the downloads that run.
    pub active_slots: HashSet<u32>,
    /// Every download that is known, in the order in which they were entered: of those
    /// of one user or one file the first counts.
    pub downloads: Vec<TrackedDownload>,
    /// Every search that runs, in the order in which they were entered: of those for one
    /// text the first counts.
    pub searches: Vec<TokenSearch>,
}

/// A worker as a value.
#[verifier::ext_equal]
pub struct SlotModel {
    pub own_username: String,
    pub state: ClientState,
    pub logged_in: bool,
    pub pending: Seq<QueuedDownload>,
    pub max_concurrent: Option<u32>,
    pub slots: Set<u32>,
    pub downloads: Seq<TrackedDownload>,
    pub searches: Seq<TokenSearchModel>,
}

/// Searches as values.
pub open spec fn search_models(searches: Seq<TokenSearch>) -> Seq<TokenSearchModel> {
    searches.map_values(|s: TokenSearch| s@)
}

impl View for ConnectedWorker {
    type V = SlotModel;

    open spec fn view(&self) -> SlotModel {
        SlotModel {
            own_username: self.own_username,
            state: self.state,
            logged_in: self.logged_in,
            pending: self.pending@,
            max_concurrent: self.max_concurrent,
            slots: self.active_slots@,
            downloads: self.downloads@,
            searches: search_models(self.searches@),
        }
    }
}

// ---- downloads by token -------------------------------------------------------------

/// The download has the token.
pub open spec fn has_token(token: DownloadToken) -> spec_fn(TrackedDownload) -> bool {
    |d: TrackedDownload| d.download.token == token
}

/// The download has the peer's token.
pub open spec fn has_peer_token(token: PeerTransferToken) -> spec_fn(TrackedDownload) -> bool {
    |d: TrackedDownload| d.peer_token == Some(token)
}

/// The download is from the user.
pub open spec fn is_from(username: Seq<char>) -> spec_fn(TrackedDownload) -> bool {
    |d: TrackedDownload| d.download.username@ == username
}

/// The download is of a file of the user, of the given file where one is given.
pub open spec fn concerns(username: Seq<char>, filename: Option<Seq<char>>) -> spec_fn(
    TrackedDownload,
) -> bool {
    |d: TrackedDownload|
        d.download.username@ == username && match filename {
            Some(f) => d.download.filename@ == f,
            None => true,
        }
}

/// The download is of another file or another user.
pub open spec fn spared(username: Seq<char>, filename: Option<Seq<char>>) -> spec_fn(
    TrackedDownload,
) -> bool {
    |d: TrackedDownload| !concerns(username, filename)(d)
}

/// The downloads with one entered under its token, in place of one that was
/// there.
pub open spec fn entered(downloads: Seq<TrackedDownload>, d: TrackedDownload) -> Seq<
    TrackedDownload,
> {
    match crate::lists::first_where(downloads, has_token(d.download.token)) {
        Some(i) => downloads.update(i, d),
        None => downloads.push(d),
    }
}

/// The tokens of downloads.
pub open spec fn tokens_of(downloads: Seq<TrackedDownload>) -> Seq<DownloadToken> {
    downloads.map_values(|d: TrackedDownload| d.download.token)
}

/// The token is none of the given.
pub open spec fn is_none_of(tokens: Seq<DownloadToken>) -> spec_fn(u32) -> bool {
    |t: u32| !tokens.contains(DownloadToken(t))
}

/// Asking a peer for a file.
pub open spec fn ask_for(q: QueuedDownload) -> SlotAction {
    SlotAction::QueueUpload { username: q.pending.username, filename: q.pending.filename }
}

/// The status that the outcome of a download amounts to.
pub open spec fn outcome_status(outcome: Result<String>) -> DownloadStatus {
    match outcome {
        Ok(_) => DownloadStatus::Completed,
        Err(SoulseekRs::DownloadCancelled) => DownloadStatus::Cancelled,
        Err(SoulseekRs::DownloadTimedOut) => DownloadStatus::TimedOut,
        Err(_) => DownloadStatus::Failed,
    }
}

/// The fetch of a file that the peer will name.
pub open spec fn pierced_fetch(
    peer: Peer,
    downloads: Seq<TrackedDownload>,
    stream: Option<StreamHandle>,
    own_username: String,
) -> SlotAction {
    SlotAction::FetchPierced {
        from: DownloadPeer {
            username: peer.username,
            host: peer.host,
            port: peer.port,
            own_username,
            token: (peer.token->0).0,
        },
        stream,
        initiating: match crate::lists::first_where(downloads, is_from(peer.username@)) {
            Some(i) => Some(downloads[i].download.token),
            None => None,
        },
    }
}

/// Connecting to a peer: for messages it is registered, for a file the file is
/// fetched.
pub open spec fn connecting(
    peer: Peer,
    downloads: Seq<TrackedDownload>,
    stream: Option<StreamHandle>,
    own_username: String,
) -> Seq<SlotAction> {
    match peer.connection_type {
        ConnectionType::P => seq![SlotAction::RegisterPeer { peer, stream }],
        ConnectionType::F => seq![pierced_fetch(peer, downloads, stream, own_username)],
        ConnectionType::D => Seq::empty(),
    }
}

impl SlotModel {
    /// A slot is free.
    pub open spec fn has_room(self) -> bool {
        match self.max_concurrent {
            Some(max) => self.slots.len() < max,
            None => true,
        }
    }

    /// A download begins: it is entered, asked for, and takes a slot.
    pub open spec fn initiated(self, q: QueuedDownload) -> SlotModel {
        SlotModel {
            downloads: entered(self.downloads, q.followed()),
            slots: self.slots.insert(q.pending.token.0),
            ..self
        }
    }

    /// The download that waits longest no longer waits.
    pub open spec fn without_first(self) -> SlotModel {
        SlotModel { pending: self.pending.skip(1), ..self }
    }

    /// Downloads that wait begin as long as a slot is free.
    pub open spec fn drained(self) -> (SlotModel, Seq<SlotAction>)
        decreases self.pending.len(),
    {
        if self.has_room() && self.pending.len() > 0 {
            let q = self.pending[0];
            let (after, rest) = self.without_first().initiated(q).drained();
            (after, seq![ask_for(q)] + rest)
        } else {
            (self, Seq::empty())
        }
    }

    /// The download that waits longest begins, where we are logged in and a slot
    /// is free.
    pub open spec fn dequeued(self) -> (SlotModel, Seq<SlotAction>) {
        if self.logged_in && self.has_room() && self.pending.len() > 0 {
            let q = self.pending[0];
            (self.without_first().initiated(q), seq![ask_for(q)])
        } else {
            (self, Seq::empty())
        }
    }

    /// A download is asked for: it is entered and its caller is told; it begins
    /// where we are logged in and a slot is free, and waits otherwise.
    pub open spec fn requested(self, q: QueuedDownload) -> (SlotModel, Seq<SlotAction>) {
        let noted = SlotModel { downloads: entered(self.downloads, q.followed()), ..self };
        let notice = SlotAction::Notify {
            channel: q.pending.status_sender,
            status: DownloadStatus::Queued,
        };
        if self.logged_in && self.has_room() {
            (noted.initiated(q), seq![notice, ask_for(q)])
        } else {
            (SlotModel { pending: self.pending.push(q), ..noted }, seq![notice])
        }
    }

    /// A download has ended: its caller is told, its status is set, its slot is
    /// free, and the next may begin.
    pub open spec fn completed(self, token: DownloadToken, status: DownloadStatus) -> (
        SlotModel,
        Seq<SlotAction>,
    ) {
        let (downloads, notice) = match crate::lists::first_where(
            self.downloads,
            has_token(token),
        ) {
            Some(i) => {
                let d = self.downloads[i];
                let ended = TrackedDownload {
                    download: Download { status, ..d.download },
                    ..d
                };
                (
                    self.downloads.update(i, ended),
                    seq![SlotAction::Notify { channel: d.download.sender, status }],
                )
            },
            None => (self.downloads, Seq::empty()),
        };
        let (after, begun) = SlotModel {
            downloads,
            slots: self.slots.remove(token.0),
            ..self
        }.dequeued();
        (after, notice + begun)
    }

    /// The downloads of a user, or the one of a file, fail: their callers are
    /// told, their slots are free, and one that waits may begin.
    pub open spec fn failing(self, username: Seq<char>, filename: Option<Seq<char>>) -> (
        SlotModel,
        Seq<SlotAction>,
    ) {
        let failed = self.downloads.filter(concerns(username, filename));
        let notices = failed.map_values(
            |d: TrackedDownload|
                SlotAction::Notify { channel: d.download.sender, status: DownloadStatus::Failed },
        );
        let left = SlotModel {
            downloads: self.downloads.filter(spared(username, filename)),
            slots: self.slots.filter(is_none_of(tokens_of(failed))),
            ..self
        };
        if failed.len() > 0 {
            let (after, begun) = left.dequeued();
            (after, notices + begun)
        } else {
            (left, notices)
        }
    }

    /// A peer proposes to send a file: the first download of that file from that
    /// user has the peer's number and size from now on.
    pub open spec fn proposed(self, transfer: Transfer, username: Seq<char>) -> SlotModel {
        match crate::lists::first_where(
            self.downloads,
            concerns(username, Some(transfer.filename@)),
        ) {
            Some(i) => {
                let d = self.downloads[i];
                let renumbered = TrackedDownload {
                    download: Download { size: transfer.size, ..d.download },
                    peer_token: Some(PeerTransferToken(transfer.token.0)),
                    ..d
                };
                SlotModel { downloads: self.downloads.update(i, renumbered), ..self }
            },
            None => self,
        }
    }

    /// A search begins, in place of one with its token.
    pub open spec fn with_search(self, token: SearchToken, query: Seq<char>) -> SlotModel {
        let entry = TokenSearchModel { token, query, results: Seq::empty() };
        match crate::lists::first_where(
            self.searches,
            |s: TokenSearchModel| s.token == token,
        ) {
            Some(i) => SlotModel { searches: self.searches.update(i, entry), ..self },
            None => SlotModel { searches: self.searches.push(entry), ..self },
        }
    }

    /// A result is entered with the search of its token.
    pub open spec fn with_result(self, result: SearchResult) -> SlotModel {
        match crate::lists::first_where(
            self.searches,
            |s: TokenSearchModel| s.token == result.token,
        ) {
            Some(i) => {
                let entry = TokenSearchModel {
                    results: self.searches[i].results.push(result),
                    ..self.searches[i]
                };
                SlotModel { searches: self.searches.update(i, entry), ..self }
            },
            None => self,
        }
    }

    /// A download is cancelled: it no longer waits, its caller is told, and where
    /// it held a slot the next may begin.
    pub open spec fn cancelled(self, token: DownloadToken) -> (SlotModel, Seq<SlotAction>) {
        let waiting = SlotModel {
            pending: self.pending.filter(|q: QueuedDownload| q.pending.token != token),
            ..self
        };
        match crate::lists::first_where(self.downloads, has_token(token)) {
            Some(i) => {
                let left = SlotModel {
                    downloads: self.downloads.remove(i),
                    slots: self.slots.remove(token.0),
                    ..waiting
                };
                let notice = seq![
                    SlotAction::Notify {
                        channel: self.downloads[i].download.sender,
                        status: DownloadStatus::Cancelled,
                    },
                ];
                if self.slots.contains(token.0) {
                    let (after, begun) = left.dequeued();
                    (after, notice + begun)
                } else {
                    (left, notice)
                }
            },
            None => (waiting, Seq::empty()),
        }
    }

    /// What an operation does. `peer_known` says whether the registry holds the
    /// peer that the operation is about.
    pub open spec fn step(self, op: SlotOperation, peer_known: bool) -> (
        SlotModel,
        Seq<SlotAction>,
    ) {
        match op {
            SlotOperation::ServerDisconnected => (
                SlotModel { logged_in: false, state: ClientState::Disconnected, ..self },
                Seq::empty(),
            ),
            SlotOperation::LoginSucceeded => SlotModel {
                logged_in: true,
                state: ClientState::Connected,
                ..self
            }.drained(),
            SlotOperation::DownloadCompleted(token, outcome) => self.completed(
                token,
                outcome_status(outcome),
            ),
            SlotOperation::RequestDownload(q) => self.requested(q),
            SlotOperation::ConnectToPeer(peer) => (
                self,
                connecting(peer, self.downloads, None, self.own_username),
            ),
            SlotOperation::SearchResult(result) => (self.with_result(result), Seq::empty()),
            SlotOperation::PeerDisconnected(username, _) => {
                let (after, rest) = self.failing(username@, None);
                (after, seq![SlotAction::StopPeer { username }] + rest)
            },
            SlotOperation::PierceFireWall(peer) => (
                self,
                seq![
                    SlotAction::SendToServer {
                        message: ServerMessage::PierceFirewall(peer.token->0),
                    },
                    pierced_fetch(peer, self.downloads, None, self.own_username),
                ],
            ),
            SlotOperation::DownloadFromPeer(token, peer, _) => match crate::lists::first_where(
                self.downloads,
                has_peer_token(token),
            ) {
                Some(i) => (
                    self,
                    seq![
                        SlotAction::FetchDirect {
                            download: self.downloads[i],
                            from: DownloadPeer {
                                username: self.downloads[i].download.username,
                                host: peer.host,
                                port: peer.port,
                                own_username: self.own_username,
                                token: token.0,
                            },
                        },
                    ],
                ),
                None => (self, Seq::empty()),
            },
            SlotOperation::NewPeer(new_peer) => {
                let ask = if peer_known {
                    Seq::empty()
                } else {
                    seq![
                        SlotAction::SendToServer {
                            message: ServerMessage::GetPeerAddress(new_peer.username),
                        },
                    ]
                };
                (
                    self,
                    ask + connecting(
                        super::operation::connected_peer(new_peer),
                        self.downloads,
                        Some(new_peer.stream),
                        self.own_username,
                    ),
                )
            },
            SlotOperation::GetPeerAddressResponse {
                username,
                host,
                port,
                obfuscation_type,
                obfuscated_port,
            } => if peer_known {
                (self, Seq::empty())
            } else {
                let peer = Peer {
                    username,
                    connection_type: ConnectionType::P,
                    host,
                    port,
                    token: None,
                    privileged: Some(0),
                    unknown: Some(obfuscation_type),
                    obfuscated_port: Some(obfuscated_port as u32),
                };
                (self, seq![SlotAction::RegisterPeer { peer, stream: None }])
            },
            SlotOperation::UpdateDownloadTokens(transfer, username) => (
                self.proposed(transfer, username@),
                Seq::empty(),
            ),
            SlotOperation::UploadFailed(username, filename) => self.failing(
                username@,
                Some(filename@),
            ),
            SlotOperation::InitiateSearch(token, query) => (
                self.with_search(token, query@),
                Seq::empty(),
            ),
            SlotOperation::CancelDownload(token) => self.cancelled(token),
        }
    }
}

// ---- the worker at work -------------------------------------------------------------

/// Where the first download with the token stands.
fn position_of(downloads: &Vec<TrackedDownload>, token: DownloadToken) -> (r: Option<usize>)
    ensures
        match r {
            Some(i) => {
                &&& i < downloads@.len()
                &&& crate::lists::first_where(downloads@, has_token(token)) == Some(i as int)
            },
            None => crate::lists::first_where(downloads@, has_token(token)) is None,
        },
{
    let ghost p = has_token(token);
    let mut i: usize = 0;
    while i < downloads.len()
        invariant
            i <= downloads@.len(),
            p == has_token(token),
            forall|j: int| 0 <= j < i ==> !p(#[trigger] downloads@[j]),
        decreases downloads@.len() - i,
    {
        if downloads[i].download.token == token {
            proof {
                crate::lists::lemma_first_where_is(downloads@, p, i as int);
            }
            return Some(i);
        }
        i += 1;
    }
    proof {
        crate::lists::lemma_first_where_none(downloads@, p);
    }
    None
}

/// Where the first download with the peer's token stands.
pub fn position_of_peer_token(downloads: &Vec<TrackedDownload>, token: PeerTransferToken) -> (r: Option<usize>)
    ensures
        match r {
            Some(i) => {
                &&& i < downloads@.len()
                &&& crate::lists::first_where(downloads@, has_peer_token(token)) == Some(i as int)
            },
            None => crate::lists::first_where(downloads@, has_peer_token(token)) is None,
        },
{
    let ghost p = has_peer_token(token);
    let mut i: usize = 0;
    while i < downloads.len()
        invariant
            i <= downloads@.len(),
            p == has_peer_token(token),
            forall|j: int| 0 <= j < i ==> !p(#[trigger] downloads@[j]),
        decreases downloads@.len() - i,
    {
        if downloads[i].peer_token == Some(token) {
            proof {
                crate::lists::lemma_first_where_is(downloads@, p, i as int);
            }
            return Some(i);
        }
        i += 1;
    }
    proof {
        crate::lists::lemma_first_where_none(downloads@, p);
    }
    None
}

/// Where the first download from the user stands.
fn position_from(downloads: &Vec<TrackedDownload>, username: &str) -> (r: Option<usize>)
    ensures
        match r {
            Some(i) => {
                &&& i < downloads@.len()
                &&& crate::lists::first_where(downloads@, is_from(username@)) == Some(i as int)
            },
            None => crate::lists::first_where(downloads@, is_from(username@)) is None,
        },
{
    let ghost p = is_from(username@);
    let mut i: usize = 0;
    while i < downloads.len()
        invariant
            i <= downloads@.len(),
            p == is_from(username@),
            forall|j: int| 0 <= j < i ==> !p(#[trigger] downloads@[j]),
        decreases downloads@.len() - i,
    {
        if str_eq(downloads[i].download.username.as_str(), username) {
            proof {
                crate::lists::lemma_first_where_is(downloads@, p, i as int);
            }
            return Some(i);
        }
        i += 1;
    }
    proof {
        crate::lists::lemma_first_where_none(downloads@, p);
    }
    None
}

/// Where the first download of the file from the user stands.
fn position_of_file(downloads: &Vec<TrackedDownload>, username: &str, filename: &SoulseekPath) -> (r: Option<usize>)
    ensures
        match r {
            Some(i) => {
                &&& i < downloads@.len()
                &&& crate::lists::first_where(downloads@, concerns(username@, Some(filename@))) == Some(i as int)
            },
            None => crate::lists::first_where(downloads@, concerns(username@, Some(filename@))) is None,
        },
{
    let ghost p = concerns(username@, Some(filename@));
    let mut i: usize = 0;
    while i < downloads.len()
        invariant
            i <= downloads@.len(),
            p == concerns(username@, Some(filename@)),
            forall|j: int| 0 <= j < i ==> !p(#[trigger] downloads@[j]),
        decreases downloads@.len() - i,
    {
        if str_eq(downloads[i].download.username.as_str(), username)
            && downloads[i].download.filename.same_as(filename) {
            proof {
                crate::lists::lemma_first_where_is(downloads@, p, i as int);
            }
            return Some(i);
        }
        i += 1;
    }
    proof {
        crate::lists::lemma_first_where_none(downloads@, p);
    }
    None
}

fn is_concerned(d: &TrackedDownload, username: &str, filename: &Option<SoulseekPath>) -> (r: bool)
    ensures
        r == concerns(username@, super::operation::path_view(*filename))(*d),
{
    if !str_eq(d.download.username.as_str(), username) {
        return false;
    }
    match filename {
        Some(f) => d.download.filename.same_as(f),
        None => true,
    }
}

/// Drop the tokens that are among the given.
fn drop_tokens(slots: &mut HashSet<u32>, tokens: &Vec<DownloadToken>)
    ensures
        final(slots)@ == old(slots)@.filter(is_none_of(tokens@)),
{
    let ghost all = slots@;
    let mut i: usize = 0;
    assert(slots@ =~= all.filter(is_none_of(tokens@.take(0))));
    while i < tokens.len()
        invariant
            i <= tokens@.len(),
            slots@ == all.filter(is_none_of(tokens@.take(i as int))),
        decreases tokens@.len() - i,
    {
        let ghost before = slots@;
        slots.remove(&tokens[i].0);
        proof {
            let done = tokens@.take(i as int);
            let more = tokens@.take(i + 1);
            assert forall|t: u32| #[trigger] more.contains(DownloadToken(t)) == (done.contains(
                DownloadToken(t),
            ) || t == tokens@[i as int].0) by {
                if done.contains(DownloadToken(t)) {
                    let k = choose|k: int| 0 <= k < done.len() && done[k] == DownloadToken(t);
                    assert(more[k] == DownloadToken(t));
                }
                if t == tokens@[i as int].0 {
                    assert(more[i as int] == DownloadToken(t));
                }
                if more.contains(DownloadToken(t)) {
                    let k = choose|k: int| 0 <= k < more.len() && more[k] == DownloadToken(t);
                    if k < i {
                        assert(done[k] == DownloadToken(t));
                    }
                }
            }
            assert(slots@ =~= all.filter(is_none_of(more)));
        }
        i += 1;
    }
    assert(tokens@.take(i as int) =~= tokens@);
}

/// Drop the downloads that fail; their tokens, and the word to their callers.
fn drop_concerned(
    downloads: &mut Vec<TrackedDownload>,
    username: &str,
    filename: &Option<SoulseekPath>,
) -> (r: (Vec<DownloadToken>, Vec<SlotAction>))
    ensures
        ({
            let f = super::operation::path_view(*filename);
            let failed = old(downloads)@.filter(concerns(username@, f));
            &&& final(downloads)@ == old(downloads)@.filter(spared(username@, f))
            &&& r.0@ == tokens_of(failed)
            &&& r.1@ == failed.map_values(
                |d: TrackedDownload|
                    SlotAction::Notify {
                        channel: d.download.sender,
                        status: DownloadStatus::Failed,
                    },
            )
        }),
{
    let ghost all = downloads@;
    let ghost f = super::operation::path_view(*filename);
    let ghost p = concerns(username@, f);
    let ghost q = spared(username@, f);
    let ghost note = |d: TrackedDownload|
        SlotAction::Notify { channel: d.download.sender, status: DownloadStatus::Failed };
    let mut tokens: Vec<DownloadToken> = Vec::new();
    let mut notices: Vec<SlotAction> = Vec::new();
    let mut i: usize = 0;
    let ghost mut k: int = 0;
    proof {
        assert(all.take(0).filter(p) =~= Seq::empty() && all.take(0).filter(q) =~= Seq::empty())
            by {
            reveal(Seq::filter);
        }
        assert(tokens@ =~= tokens_of(all.take(0).filter(p)));
        assert(notices@ =~= all.take(0).filter(p).map_values(note));
        assert(downloads@ =~= all.take(0).filter(q) + all.skip(0));
    }
    while i < downloads.len()
        invariant
            0 <= k <= all.len(),
            f == super::operation::path_view(*filename),
            p == concerns(username@, f),
            q == spared(username@, f),
            note == (|d: TrackedDownload|
                SlotAction::Notify { channel: d.download.sender, status: DownloadStatus::Failed }),
            i == all.take(k).filter(q).len(),
            downloads@ == all.take(k).filter(q) + all.skip(k),
            tokens@ == tokens_of(all.take(k).filter(p)),
            notices@ == all.take(k).filter(p).map_values(note),
        decreases all.len() - k,
    {
        let ghost kept = all.take(k).filter(q);
        proof {
            crate::lists::lemma_filter_step(all, k, p);
            crate::lists::lemma_filter_step(all, k, q);
            assert(downloads@[i as int] == all[k]);
        }
        if is_concerned(&downloads[i], username, filename) {
            let gone = downloads.remove(i);
            tokens.push(gone.download.token);
            notices.push(
                SlotAction::Notify {
                    channel: gone.download.sender,
                    status: DownloadStatus::Failed,
                },
            );
            assert(downloads@ =~= kept + all.skip(k + 1));
        } else {
            i += 1;
            assert(downloads@ =~= kept.push(all[k]) + all.skip(k + 1));
        }
        proof {
            k = k + 1;
            assert(tokens@ =~= tokens_of(all.take(k).filter(p)));
            assert(notices@ =~= all.take(k).filter(p).map_values(note));
        }
    }
    proof {
        assert(all.skip(k).len() == 0);
        assert(all.take(k) =~= all);
        assert(downloads@ =~= all.filter(q));
    }
    (tokens, notices)
}

/// What it takes to reach a peer.
#[derive(Debug)]
pub struct PeerConnector {
    pub own_username: String,
}

impl PeerConnector {
    /// Register a peer for messages.
    pub fn connect_p(&self, peer: Peer, stream: Option<StreamHandle>) -> (r: SlotAction)
        ensures
            r == (SlotAction::RegisterPeer { peer, stream }),
    {
        SlotAction::RegisterPeer { peer, stream }
    }

    /// Fetch the file that a peer will name.
    pub fn connect_f(
        &self,
        peer: Peer,
        downloads: &Vec<TrackedDownload>,
        stream: Option<StreamHandle>,
    ) -> (r: SlotAction)
        requires
            peer.token is Some,
        ensures
            r == pierced_fetch(peer, downloads@, stream, self.own_username),
    {
        let initiating = match position_from(downloads, peer.username.as_str()) {
            Some(i) => Some(downloads[i].download.token),
            None => None,
        };
        let token: u32 = match peer.token {
            Some(t) => t.0,
            None => 0,
        };
        SlotAction::FetchPierced {
            from: DownloadPeer::new(
                peer.username,
                peer.host,
                peer.port,
                token,
                self.own_username.clone(),
            ),
            stream,
            initiating,
        }
    }

    /// Reach a peer as its connection type asks.
    fn connect(
        &self,
        peer: Peer,
        downloads: &Vec<TrackedDownload>,
        stream: Option<StreamHandle>,
        actions: &mut Vec<SlotAction>,
    )
        requires
            super::operation::peer_has_token(peer),
        ensures
            final(actions)@ == old(actions)@ + connecting(
                peer,
                downloads@,
                stream,
                self.own_username,
            ),
    {
        let ghost peer0 = peer;
        match peer.connection_type {
            ConnectionType::P => {
                actions.push(self.connect_p(peer, stream));
            },
            ConnectionType::F => {
                actions.push(self.connect_f(peer, downloads, stream));
            },
            ConnectionType::D => {},
        }
        assert(actions@ =~= old(actions)@ + connecting(
            peer0,
            downloads@,
            stream,
            self.own_username,
        ));
    }
}

impl ConnectedWorker {
    /// A worker that is not logged in, with downloads that wait already.
    pub fn new(
        own_username: String,
        pending: VecDeque<QueuedDownload>,
        max_concurrent: Option<u32>,
    ) -> (r: Self)
        ensures
            r@ == (SlotModel {
                own_username,
                state: ClientState::Connecting,
                logged_in: false,
                pending: pending@,
                max_concurrent,
                slots: Set::empty(),
                downloads: Seq::empty(),
                searches: Seq::empty(),
            }),
    {
        let r = ConnectedWorker {
            own_username,
            state: ClientState::Connecting,
            logged_in: false,
            pending,
            max_concurrent,
            active_slots: HashSet::new(),
            downloads: Vec::new(),
            searches: Vec::new(),
        };
        assert(search_models(r.searches@) =~= Seq::empty());
        r
    }

    fn has_room(&self) -> (r: bool)
        ensures
            r == self@.has_room(),
    {
        match self.max_concurrent {
            Some(max) => self.active_slots.len() < max as usize,
            None => true,
        }
    }

    /// Enter a download under its token.
    fn enter(&mut self, d: TrackedDownload)
        ensures
            final(self)@ == (SlotModel {
                downloads: entered(old(self)@.downloads, d),
                ..old(self)@
            }),
    {
        match position_of(&self.downloads, d.download.token) {
            Some(i) => {
                self.downloads.set(i, d);
            },
            None => {
                self.downloads.push(d);
            },
        }
    }

    /// Let a download begin.
    fn try_initiate(&mut self, q: QueuedDownload, actions: &mut Vec<SlotAction>)
        ensures
            final(self)@ == old(self)@.initiated(q),
            final(actions)@ == old(actions)@.push(ask_for(q)),
    {
        let token = q.pending.token;
        let ghost q0 = q;
        self.enter(q.to_download());
        actions.push(
            SlotAction::QueueUpload { username: q.pending.username, filename: q.pending.filename },
        );
        self.active_slots.insert(token.0);
        assert(self@ =~= old(self)@.initiated(q0));
    }

    /// Let downloads that wait begin as long as a slot is free.
    fn drain_pending_queue(&mut self) -> (r: Vec<SlotAction>)
        ensures
            final(self)@ == old(self)@.drained().0,
            r@ == old(self)@.drained().1,
    {
        let mut actions: Vec<SlotAction> = Vec::new();
        assert(actions@ + self@.drained().1 =~= self@.drained().1);
        while self.has_room() && self.pending.len() > 0
            invariant
                old(self)@.drained().0 == self@.drained().0,
                old(self)@.drained().1 == actions@ + self@.drained().1,
            decreases self.pending@.len(),
        {
            let ghost before = self@;
            let ghost done = actions@;
            match self.pending.pop_front() {
                Some(q) => {
                    assert(self@ =~= before.without_first());
                    self.try_initiate(q, &mut actions);
                    assert(done + before.drained().1 =~= actions@ + self@.drained().1);
                },
                None => {},
            }
        }
        assert(actions@ + Seq::<SlotAction>::empty() =~= actions@);
        actions
    }

    /// Let the download that waits longest begin, where we are logged in and a
    /// slot is free.
    fn try_dequeue_next(&mut self, actions: &mut Vec<SlotAction>)
        ensures
            final(self)@ == old(self)@.dequeued().0,
            final(actions)@ == old(actions)@ + old(self)@.dequeued().1,
    {
        let ghost before = self@;
        let ghost done = actions@;
        if self.logged_in && self.has_room() {
            match self.pending.pop_front() {
                Some(q) => {
                    assert(self@ =~= before.without_first());
                    self.try_initiate(q, actions);
                },
                None => {},
            }
        }
        assert(self@ =~= before.dequeued().0);
        assert(actions@ =~= done + before.dequeued().1);
    }

    /// Take note of how a download has ended.
    fn complete(&mut self, token: DownloadToken, status: DownloadStatus) -> (r: Vec<SlotAction>)
        ensures
            final(self)@ == old(self)@.completed(token, status).0,
            r@ == old(self)@.completed(token, status).1,
    {
        let ghost before = self@;
        let mut actions: Vec<SlotAction> = Vec::new();
        match position_of(&self.downloads, token) {
            Some(i) => {
                actions.push(
                    SlotAction::Notify { channel: self.downloads[i].download.sender, status },
                );
                self.downloads[i].download.status = status;
                proof {
                    let d = before.downloads[i as int];
                    assert(self.downloads@ =~= before.downloads.update(
                        i as int,
                        TrackedDownload { download: Download { status, ..d.download }, ..d },
                    ));
                }
            },
            None => {},
        }
        self.active_slots.remove(&token.0);
        let ghost middle = self@;
        let ghost notice = actions@;
        self.try_dequeue_next(&mut actions);
        proof {
            assert(middle =~= SlotModel {
                downloads: middle.downloads,
                slots: before.slots.remove(token.0),
                ..before
            });
            assert(actions@ =~= notice + middle.dequeued().1);
        }
        actions
    }

    /// Drop the downloads that fail.
    fn process_failed_uploads(
        &mut self,
        username: &str,
        filename: &Option<SoulseekPath>,
        actions: &mut Vec<SlotAction>,
    )
        ensures
            ({
                let (after, more) = old(self)@.failing(
                    username@,
                    super::operation::path_view(*filename),
                );
                &&& final(self)@ == after
                &&& final(actions)@ == old(actions)@ + more
            }),
    {
        let ghost before = self@;
        let ghost done = actions@;
        let ghost f = super::operation::path_view(*filename);
        let (tokens, mut notices) = drop_concerned(&mut self.downloads, username, filename);
        let ghost told = notices@;
        let any_failed: bool = tokens.len() > 0;
        drop_tokens(&mut self.active_slots, &tokens);
        actions.append(&mut notices);
        let ghost left = self@;
        if any_failed {
            self.try_dequeue_next(actions);
            assert(actions@ =~= done + (told + left.dequeued().1));
        } else {
            assert(actions@ =~= done + told);
        }
        assert(left =~= SlotModel {
            downloads: before.downloads.filter(spared(username@, f)),
            slots: before.slots.filter(
                is_none_of(tokens_of(before.downloads.filter(concerns(username@, f)))),
            ),
            ..before
        });
    }

    fn position_of_search(&self, token: SearchToken) -> (r: Option<usize>)
        ensures
            match r {
                Some(i) => {
                    &&& i < self.searches@.len()
                    &&& crate::lists::first_where(
                        self@.searches,
                        |s: TokenSearchModel| s.token == token,
                    ) == Some(i as int)
                },
                None => crate::lists::first_where(
                    self@.searches,
                    |s: TokenSearchModel| s.token == token,
                ) is None,
            },
    {
        let ghost models = self@.searches;
        let ghost p = |s: TokenSearchModel| s.token == token;
        let mut i: usize = 0;
        while i < self.searches.len()
            invariant
                i <= self.searches@.len(),
                models == self@.searches,
                p == (|s: TokenSearchModel| s.token == token),
                forall|j: int| 0 <= j < i ==> !p(#[trigger] models[j]),
            decreases self.searches@.len() - i,
        {
            assert(models[i as int] == self.searches@[i as int]@);
            if self.searches[i].token == token {
                proof {
                    crate::lists::lemma_first_where_is(models, p, i as int);
                }
                return Some(i);
            }
            i += 1;
        }
        proof {
            crate::lists::lemma_first_where_none(models, p);
        }
        None
    }

    fn begin_search(&mut self, token: SearchToken, query: String)
        ensures
            final(self)@ == old(self)@.with_search(token, query@),
    {
        let ghost before = self@;
        let entry = TokenSearch { token, query, results: Vec::new() };
        let ghost entry0 = entry@;
        assert(entry0 =~= TokenSearchModel { token, query: query@, results: Seq::empty() });
        match self.position_of_search(token) {
            Some(i) => {
                self.searches.set(i, entry);
                assert(self@.searches =~= before.searches.update(i as int, entry0));
            },
            None => {
                self.searches.push(entry);
                assert(self@.searches =~= before.searches.push(entry0));
            },
        }
    }

    fn take_result(&mut self, result: SearchResult)
        ensures
            final(self)@ == old(self)@.with_result(result),
    {
        let ghost before = self@;
        let ghost result0 = result;
        match self.position_of_search(result.token) {
            Some(i) => {
                assert(before.searches[i as int] == self.searches@[i as int]@);
                self.searches[i].results.push(result);
                proof {
                    let entry = TokenSearchModel {
                        results: before.searches[i as int].results.push(result0),
                        ..before.searches[i as int]
                    };
                    assert(self.searches@[i as int]@ =~= entry);
                    assert(self@.searches =~= before.searches.update(i as int, entry));
                }
            },
            None => {},
        }
    }

    fn cancel(&mut self, token: DownloadToken) -> (r: Vec<SlotAction>)
        ensures
            final(self)@ == old(self)@.cancelled(token).0,
            r@ == old(self)@.cancelled(token).1,
    {
        let ghost before = self@;
        let mut actions: Vec<SlotAction> = Vec::new();
        drop_pending(&mut self.pending, token);
        match position_of(&self.downloads, token) {
            Some(i) => {
                let gone = self.downloads.remove(i);
                actions.push(
                    SlotAction::Notify {
                        channel: gone.download.sender,
                        status: DownloadStatus::Cancelled,
                    },
                );
                let held: bool = self.active_slots.remove(&token.0);
                if held {
                    self.try_dequeue_next(&mut actions);
                }
            },
            None => {},
        }
        assert(self@ =~= before.cancelled(token).0);
        assert(actions@ =~= before.cancelled(token).1);
        actions
    }

    /// Take an operation. `peer_known` says whether the registry holds the peer
    /// that the operation is about. What comes back is for others to do, in
    /// order.
    pub fn handle_operation(&mut self, op: SlotOperation, peer_known: bool) -> (r: Vec<SlotAction>)
        requires
            operation_ok(op),
        ensures
            final(self)@ == old(self)@.step(op, peer_known).0,
            r@ == old(self)@.step(op, peer_known).1,
    {
        let ghost op0 = op;
        let ghost before = self@;
        let connector = PeerConnector { own_username: self.own_username.clone() };
        let mut actions: Vec<SlotAction> = Vec::new();
        match op {
            SlotOperation::ServerDisconnected => {
                self.logged_in = false;
                self.state = ClientState::Disconnected;
            },
            SlotOperation::LoginSucceeded => {
                self.logged_in = true;
                self.state = ClientState::Connected;
                assert(self@ =~= SlotModel {
                    logged_in: true,
                    state: ClientState::Connected,
                    ..before
                });
                actions = self.drain_pending_queue();
            },
            SlotOperation::DownloadCompleted(token, outcome) => {
                let status = match outcome {
                    Ok(_) => DownloadStatus::Completed,
                    Err(SoulseekRs::DownloadCancelled) => DownloadStatus::Cancelled,
                    Err(SoulseekRs::DownloadTimedOut) => DownloadStatus::TimedOut,
                    Err(_) => DownloadStatus::Failed,
                };
                actions = self.complete(token, status);
            },
            SlotOperation::RequestDownload(q) => {
                let ghost q0 = q;
                self.enter(q.to_download());
                actions.push(
                    SlotAction::Notify {
                        channel: q.pending.status_sender,
                        status: DownloadStatus::Queued,
                    },
                );
                if self.logged_in && self.has_room() {
                    self.try_initiate(q, &mut actions);
                } else {
                    self.pending.push_back(q);
                }
            },
            SlotOperation::ConnectToPeer(peer) => {
                connector.connect(peer, &self.downloads, None, &mut actions);
            },
            SlotOperation::SearchResult(result) => {
                self.take_result(result);
            },
            SlotOperation::PeerDisconnected(username, _) => {
                let name = username.clone();
                actions.push(SlotAction::StopPeer { username });
                self.process_failed_uploads(name.as_str(), &None, &mut actions);
            },
            SlotOperation::PierceFireWall(peer) => {
                match peer.token {
                    Some(token) => {
                        actions.push(
                            SlotAction::SendToServer {
                                message: ServerMessage::PierceFirewall(token),
                            },
                        );
                    },
                    None => {},
                }
                actions.push(connector.connect_f(peer, &self.downloads, None));
            },
            SlotOperation::DownloadFromPeer(token, peer, _) => {
                match position_of_peer_token(&self.downloads, token) {
                    Some(i) => {
                        let from = DownloadPeer::new(
                            self.downloads[i].download.username.clone(),
                            peer.host,
                            peer.port,
                            token.0,
                            self.own_username.clone(),
                        );
                        actions.push(
                            SlotAction::FetchDirect { download: self.downloads[i].clone(), from },
                        );
                    },
                    None => {},
                }
            },
            SlotOperation::NewPeer(new_peer) => {
                if !peer_known {
                    actions.push(
                        SlotAction::SendToServer {
                            message: ServerMessage::GetPeerAddress(new_peer.username.clone()),
                        },
                    );
                }
                let stream = new_peer.stream;
                connector.connect(
                    peer_of(new_peer),
                    &self.downloads,
                    Some(stream),
                    &mut actions,
                );
            },
            SlotOperation::GetPeerAddressResponse {
                username,
                host,
                port,
                obfuscation_type,
                obfuscated_port,
            } => {
                if !peer_known {
                    let peer = Peer::new(
                        username,
                        ConnectionType::P,
                        host,
                        port,
                        None,
                        0,
                        obfuscation_type,
                        obfuscated_port as u32,
                    );
                    actions.push(connector.connect_p(peer, None));
                }
            },
            SlotOperation::UpdateDownloadTokens(transfer, username) => {
                match position_of_file(&self.downloads, username.as_str(), &transfer.filename) {
                    Some(i) => {
                        self.downloads[i].peer_token = Some(PeerTransferToken(transfer.token.0));
                        self.downloads[i].download.size = transfer.size;
                    },
                    None => {},
                }
            },
            SlotOperation::UploadFailed(username, filename) => {
                self.process_failed_uploads(username.as_str(), &Some(filename), &mut actions);
            },
            SlotOperation::InitiateSearch(token, query) => {
                self.begin_search(token, query);
            },
            SlotOperation::CancelDownload(token) => {
                actions = self.cancel(token);
            },
        }
        proof {
            let (after, wanted) = before.step(op0, peer_known);
            assert(self@ =~= after);
            assert(actions@ =~= wanted);
        }
        actions
    }
}

/// Drop the downloads with the token from those that wait.
fn drop_pending(pending: &mut VecDeque<QueuedDownload>, token: DownloadToken)
    ensures
        final(pending)@ == old(pending)@.filter(|q: QueuedDownload| q.pending.token != token),
{
    let ghost all = pending@;
    let ghost p = |q: QueuedDownload| q.pending.token != token;
    let mut kept: VecDeque<QueuedDownload> = VecDeque::new();
    let ghost mut k: int = 0;
    proof {
        assert(all.take(0).filter(p) =~= Seq::empty()) by {
            reveal(Seq::filter);
        }
        assert(all.skip(0) =~= all);
    }
    while pending.len() > 0
        invariant
            0 <= k <= all.len(),
            p == (|q: QueuedDownload| q.pending.token != token),
            pending@ == all.skip(k),
            kept@ == all.take(k).filter(p),
        decreases all.len() - k,
    {
        proof {
            crate::lists::lemma_filter_step(all, k, p);
        }
        match pending.pop_front() {
            Some(q) => {
                assert(q == all[k]);
                if q.pending.token != token {
                    kept.push_back(q);
                }
            },
            None => {},
        }
        proof {
            k = k + 1;
            assert(pending@ =~= all.skip(k));
        }
    }
    assert(all.take(k) =~= all);
    *pending = kept;
}

// ---- what the worker is asked --------------------------------------------------------

impl ConnectedWorker {
    /// The first download with the peer's token.
    pub fn query_download_by_token(&self, token: PeerTransferToken) -> (r: Option<TrackedDownload>)
        ensures
            r == match crate::lists::first_where(self@.downloads, has_peer_token(token)) {
                Some(i) => Some(self@.downloads[i]),
                None => None,
            },
    {
        match position_of_peer_token(&self.downloads, token) {
            Some(i) => Some(self.downloads[i].clone()),
            None => None,
        }
    }

    /// Every download that is known.
    pub fn query_downloads(&self) -> (r: Vec<TrackedDownload>)
        ensures
            r@ == self@.downloads,
    {
        let mut out: Vec<TrackedDownload> = Vec::new();
        let mut i: usize = 0;
        while i < self.downloads.len()
            invariant
                i <= self.downloads@.len(),
                out@ == self.downloads@.take(i as int),
            decreases self.downloads@.len() - i,
        {
            out.push(self.downloads[i].clone());
            i += 1;
            assert(out@ =~= self.downloads@.take(i as int));
        }
        assert(out@ =~= self.downloads@);
        out
    }

    /// The results of the first search made with the words; none where there is no
    /// such search.
    pub fn query_search_results(&self, query: &str) -> (r: Vec<SearchResult>)
        ensures
            super::session::answers(r@) == match crate::lists::first_where(
                self@.searches,
                |s: TokenSearchModel| s.query == query@,
            ) {
                Some(i) => super::session::answers(self@.searches[i].results),
                None => Seq::empty(),
            },
    {
        let ghost models = self@.searches;
        let ghost p = |s: TokenSearchModel| s.query == query@;
        let mut i: usize = 0;
        while i < self.searches.len()
            invariant
                i <= self.searches@.len(),
                models == self@.searches,
                p == (|s: TokenSearchModel| s.query == query@),
                forall|j: int| 0 <= j < i ==> !p(#[trigger] models[j]),
            decreases self.searches@.len() - i,
        {
            assert(models[i as int] == self.searches@[i as int]@);
            if str_eq(self.searches[i].query.as_str(), query) {
                proof {
                    crate::lists::lemma_first_where_is(models, p, i as int);
                }
                return super::session::clone_results(&self.searches[i].results);
            }
            i += 1;
        }
        proof {
            crate::lists::lemma_first_where_none(models, p);
        }
        let none: Vec<SearchResult> = Vec::new();
        assert(super::session::answers(none@) =~= Seq::empty());
        none
    }

    /// The downloads to which a peer has given a number, for a fetch of the file
    /// that a peer will name.
    pub fn pierce_candidates(&self) -> (r: Vec<TrackedDownload>)
        ensures
            r@ == self@.downloads.filter(|d: TrackedDownload| d.peer_token is Some),
    {
        let ghost all = self.downloads@;
        let ghost p = |d: TrackedDownload| d.peer_token is Some;
        let mut out: Vec<TrackedDownload> = Vec::new();
        let mut i: usize = 0;
        assert(all.take(0).filter(p) =~= Seq::empty()) by {
            reveal(Seq::filter);
        }
        while i < self.downloads.len()
            invariant
                i <= self.downloads@.len(),
                all == self.downloads@,
                p == (|d: TrackedDownload| d.peer_token is Some),
                out@ == all.take(i as int).filter(p),
            decreases self.downloads@.len() - i,
        {
            proof {
                crate::lists::lemma_filter_step(all, i as int, p);
            }
            if self.downloads[i].peer_token.is_some() {
                out.push(self.downloads[i].clone());
            }
            i += 1;
        }
        assert(all.take(i as int) =~= all);
        out
    }
}

/// How a fetch of a file that the peer names fails: before it has named one, or
/// after.
#[derive(Debug)]
pub struct PiercedFailure {
    pub peer_token: Option<PeerTransferToken>,
    pub error: DownloadError,
}

/// The error that the worker is told.
pub open spec fn reported_error(e: DownloadError, reported: SoulseekRs) -> bool {
    match e {
        DownloadError::Cancelled => reported == SoulseekRs::DownloadCancelled,
        DownloadError::NoProgressTimeout => reported == SoulseekRs::DownloadTimedOut,
        _ => reported matches SoulseekRs::InvalidMessage(words) && words@
            == crate::soulseek::download_peer::download_error_words(e),
    }
}

fn report_error(e: DownloadError) -> (r: SoulseekRs)
    ensures
        reported_error(e, r),
{
    match e {
        DownloadError::Cancelled => SoulseekRs::DownloadCancelled,
        DownloadError::NoProgressTimeout => SoulseekRs::DownloadTimedOut,
        _ => SoulseekRs::InvalidMessage(e.message()),
    }
}

/// The download that a failed fetch was of: the one that the peer named, or else
/// the one that the fetch was started for.
pub open spec fn failed_download(
    candidates: Seq<TrackedDownload>,
    initiating: Option<DownloadToken>,
    peer_token: Option<PeerTransferToken>,
) -> Option<DownloadToken> {
    match peer_token {
        Some(t) => match crate::lists::first_where(candidates, has_peer_token(t)) {
            Some(i) => Some(candidates[i].download.token),
            None => initiating,
        },
        None => initiating,
    }
}

/// What the worker is told when a fetch of a file that the peer names has ended.
/// A failure before the peer has named a file is always reported in words.
pub fn pierced_fetch_ended(
    candidates: &Vec<TrackedDownload>,
    initiating: Option<DownloadToken>,
    outcome: core::result::Result<(DownloadToken, String), PiercedFailure>,
) -> (r: Option<SlotOperation>)
    ensures
        match outcome {
            Ok((token, path)) => r == Some(SlotOperation::DownloadCompleted(token, Ok(path))),
            Err(failure) => match failed_download(candidates@, initiating, failure.peer_token) {
                Some(token) => {
                    &&& r matches Some(SlotOperation::DownloadCompleted(t, Err(e)))
                    &&& t == token
                    &&& if failure.peer_token is Some {
                        reported_error(failure.error, e)
                    } else {
                        e matches SoulseekRs::InvalidMessage(words) && words@
                            == crate::soulseek::download_peer::download_error_words(failure.error)
                    }
                },
                None => r is None,
            },
        },
{
    match outcome {
        Ok((token, path)) => Some(SlotOperation::DownloadCompleted(token, Ok(path))),
        Err(failure) => {
            let token = match failure.peer_token {
                Some(t) => match position_of_peer_token(candidates, t) {
                    Some(i) => Some(candidates[i].download.token),
                    None => initiating,
                },
                None => initiating,
            };
            match token {
                Some(token) => {
                    let e = if failure.peer_token.is_some() {
                        report_error(failure.error)
                    } else {
                        SoulseekRs::InvalidMessage(failure.error.message())
                    };
                    Some(SlotOperation::DownloadCompleted(token, Err(e)))
                },
                None => None,
            }
        },
    }
}

// ---- laws --------------------------------------------------------------------------------

/// No two downloads have the same token.
pub open spec fn distinct(downloads: Seq<TrackedDownload>) -> bool {
    forall|i: int, j: int|
        0 <= i < j < downloads.len() ==> (#[trigger] downloads[i]).download.token != (
        #[trigger] downloads[j]).download.token
}

/// A download has the token.
pub open spec fn is_known(downloads: Seq<TrackedDownload>, token: DownloadToken) -> bool {
    exists|i: int| 0 <= i < downloads.len() && has_token(token)(#[trigger] downloads[i])
}

/// Every slot is that of a download.
pub open spec fn slots_known(slots: Set<u32>, downloads: Seq<TrackedDownload>) -> bool {
    forall|t: u32| #[trigger] slots.contains(t) ==> is_known(downloads, DownloadToken(t))
}

impl SlotModel {
    /// No two downloads have the same token, every slot is that of a download, and no
    /// more are taken than there are.
    pub open spec fn sound(self) -> bool {
        &&& distinct(self.downloads)
        &&& self.slots.finite()
        &&& slots_known(self.slots, self.downloads)
        &&& match self.max_concurrent {
            Some(max) => self.slots.len() <= max,
            None => true,
        }
    }
}

proof fn lemma_entered(downloads: Seq<TrackedDownload>, d: TrackedDownload)
    requires
        distinct(downloads),
    ensures
        distinct(entered(downloads, d)),
        is_known(entered(downloads, d), d.download.token),
        forall|t: DownloadToken|
            is_known(downloads, t) ==> #[trigger] is_known(entered(downloads, d), t),
{
    let p = has_token(d.download.token);
    let after = entered(downloads, d);
    crate::lists::lemma_first_where(downloads, p);
    let at = match crate::lists::first_where(downloads, p) {
        Some(i) => i,
        None => downloads.len() as int,
    };
    assert(p(after[at]));
    assert forall|t: DownloadToken| is_known(downloads, t) implies #[trigger] is_known(after, t) by {
        let i = choose|i: int| 0 <= i < downloads.len() && has_token(t)(#[trigger] downloads[i]);
        assert(has_token(t)(after[i]));
    }
    if crate::lists::first_where(downloads, p) is None {
        assert forall|i: int, j: int| 0 <= i < j < after.len() implies (
        #[trigger] after[i]).download.token != (#[trigger] after[j]).download.token by {
            assert(!p(downloads[i]));
        }
    }
}

proof fn lemma_initiated_sound(m: SlotModel, q: QueuedDownload)
    requires
        m.sound(),
        m.has_room(),
    ensures
        m.initiated(q).sound(),
{
    lemma_entered(m.downloads, q.followed());
    let after = m.initiated(q);
    assert forall|t: u32| #[trigger] after.slots.contains(t) implies is_known(
        after.downloads,
        DownloadToken(t),
    ) by {
        if m.slots.contains(t) {
            assert(is_known(m.downloads, DownloadToken(t)));
        }
    }
}

proof fn lemma_drained_sound(m: SlotModel)
    requires
        m.sound(),
    ensures
        m.drained().0.sound(),
    decreases m.pending.len(),
{
    if m.has_room() && m.pending.len() > 0 {
        let q = m.pending[0];
        lemma_initiated_sound(m.without_first(), q);
        lemma_drained_sound(m.without_first().initiated(q));
    }
}

proof fn lemma_dequeued_sound(m: SlotModel)
    requires
        m.sound(),
    ensures
        m.dequeued().0.sound(),
{
    if m.logged_in && m.has_room() && m.pending.len() > 0 {
        lemma_initiated_sound(m.without_first(), m.pending[0]);
    }
}

/// Some of the downloads, no two with the same token.
proof fn lemma_filter_distinct(downloads: Seq<TrackedDownload>, p: spec_fn(TrackedDownload) -> bool)
    requires
        distinct(downloads),
    ensures
        distinct(downloads.filter(p)),
    decreases downloads.len(),
{
    reveal(Seq::filter);
    if downloads.len() > 0 {
        let init = downloads.drop_last();
        lemma_filter_distinct(init, p);
        crate::lists::lemma_filter_keeps(init, p);
        let kept = init.filter(p);
        if p(downloads.last()) {
            assert forall|i: int, j: int| 0 <= i < j < kept.push(downloads.last()).len() implies (
            #[trigger] kept.push(downloads.last())[i]).download.token != (
            #[trigger] kept.push(downloads.last())[j]).download.token by {
                if j == kept.len() {
                    assert(init.contains(kept[i]));
                    let m = choose|m: int| 0 <= m < init.len() && init[m] == kept[i];
                    assert(downloads[m] == kept[i]);
                    assert(downloads[m].download.token != downloads[downloads.len()
                        - 1].download.token);
                }
            }
        }
    }
}

proof fn lemma_failing_sound(m: SlotModel, username: Seq<char>, filename: Option<Seq<char>>)
    requires
        m.sound(),
    ensures
        m.failing(username, filename).0.sound(),
{
    let p = concerns(username, filename);
    let q = spared(username, filename);
    let failed = m.downloads.filter(p);
    let tokens = tokens_of(failed);
    let left = SlotModel {
        downloads: m.downloads.filter(q),
        slots: m.slots.filter(is_none_of(tokens)),
        ..m
    };
    lemma_filter_distinct(m.downloads, q);
    m.slots.lemma_len_filter(is_none_of(tokens));
    crate::lists::lemma_filter_keeps(m.downloads, p);
    crate::lists::lemma_filter_keeps(m.downloads, q);
    assert forall|n: u32| #[trigger] left.slots.contains(n) implies is_known(
        left.downloads,
        DownloadToken(n),
    ) by {
        let t = DownloadToken(n);
        assert(m.slots.contains(n));
        assert(is_known(m.downloads, t));
        let i = choose|i: int|
            0 <= i < m.downloads.len() && has_token(t)(#[trigger] m.downloads[i]);
        let d = m.downloads[i];
        if p(d) {
            assert(failed.contains(d));
            let f = choose|f: int| 0 <= f < failed.len() && failed[f] == d;
            assert(tokens[f] == t);
            assert(!is_none_of(tokens)(n));
        }
        assert(q(m.downloads[i]));
        assert(left.downloads.contains(d));
        let j = choose|j: int| 0 <= j < left.downloads.len() && left.downloads[j] == d;
        assert(has_token(t)(left.downloads[j]));
    }
    assert(left.sound());
    lemma_dequeued_sound(left);
}

proof fn lemma_completed_sound(m: SlotModel, token: DownloadToken, status: DownloadStatus)
    requires
        m.sound(),
    ensures
        m.completed(token, status).0.sound(),
{
    let p = has_token(token);
    crate::lists::lemma_first_where(m.downloads, p);
    let downloads = match crate::lists::first_where(m.downloads, p) {
        Some(i) => m.downloads.update(
            i,
            TrackedDownload {
                download: Download { status, ..m.downloads[i].download },
                ..m.downloads[i]
            },
        ),
        None => m.downloads,
    };
    let left = SlotModel { downloads, slots: m.slots.remove(token.0), ..m };
    assert(distinct(downloads)) by {
        assert forall|i: int, j: int| 0 <= i < j < downloads.len() implies (
        #[trigger] downloads[i]).download.token != (#[trigger] downloads[j]).download.token by {
            assert(m.downloads[i].download.token != m.downloads[j].download.token);
        }
    }
    assert forall|n: u32| #[trigger] left.slots.contains(n) implies is_known(
        left.downloads,
        DownloadToken(n),
    ) by {
        let t = DownloadToken(n);
        assert(m.slots.contains(n));
        assert(is_known(m.downloads, t));
        let i = choose|i: int|
            0 <= i < m.downloads.len() && has_token(t)(#[trigger] m.downloads[i]);
        assert(has_token(t)(left.downloads[i]));
    }
    lemma_dequeued_sound(left);
}

proof fn lemma_cancelled_sound(m: SlotModel, token: DownloadToken)
    requires
        m.sound(),
    ensures
        m.cancelled(token).0.sound(),
{
    let p = has_token(token);
    crate::lists::lemma_first_where(m.downloads, p);
    let waiting = SlotModel {
        pending: m.pending.filter(|q: QueuedDownload| q.pending.token != token),
        ..m
    };
    match crate::lists::first_where(m.downloads, p) {
        Some(i) => {
            let left = SlotModel {
                downloads: m.downloads.remove(i),
                slots: m.slots.remove(token.0),
                ..waiting
            };
            assert(distinct(left.downloads)) by {
                assert forall|a: int, b: int| 0 <= a < b < left.downloads.len() implies (
                #[trigger] left.downloads[a]).download.token != (
                #[trigger] left.downloads[b]).download.token by {
                    let a2 = if a < i { a } else { a + 1 };
                    let b2 = if b < i { b } else { b + 1 };
                    assert(m.downloads[a2].download.token != m.downloads[b2].download.token);
                }
            }
            assert forall|n: u32| #[trigger] left.slots.contains(n) implies is_known(
                left.downloads,
                DownloadToken(n),
            ) by {
                let t = DownloadToken(n);
                assert(m.slots.contains(n));
                assert(is_known(m.downloads, t));
                let j = choose|j: int|
                    0 <= j < m.downloads.len() && has_token(t)(#[trigger] m.downloads[j]);
                assert(j != i);
                let j2 = if j < i { j } else { j - 1 };
                assert(has_token(t)(left.downloads[j2]));
            }
            assert(left.sound());
            lemma_dequeued_sound(left);
        },
        None => {},
    }
}

/// Every operation keeps the worker sound: no two downloads with one token, no
/// slot without a download, and never more slots taken than there are.
pub proof fn lemma_soundness_is_kept(m: SlotModel, op: SlotOperation, peer_known: bool)
    requires
        m.sound(),
    ensures
        m.step(op, peer_known).0.sound(),
{
    match op {
        SlotOperation::LoginSucceeded => {
            lemma_drained_sound(
                SlotModel { logged_in: true, state: ClientState::Connected, ..m },
            );
        },
        SlotOperation::DownloadCompleted(token, outcome) => {
            lemma_completed_sound(m, token, outcome_status(outcome));
        },
        SlotOperation::RequestDownload(q) => {
            lemma_entered(m.downloads, q.followed());
            let noted = SlotModel { downloads: entered(m.downloads, q.followed()), ..m };
            assert forall|n: u32| #[trigger] noted.slots.contains(n) implies is_known(
                noted.downloads,
                DownloadToken(n),
            ) by {
                assert(is_known(m.downloads, DownloadToken(n)));
            }
            assert(noted.sound());
            if m.logged_in && m.has_room() {
                lemma_initiated_sound(noted, q);
            }
        },
        SlotOperation::PeerDisconnected(username, _) => {
            lemma_failing_sound(m, username@, None);
        },
        SlotOperation::UploadFailed(username, filename) => {
            lemma_failing_sound(m, username@, Some(filename@));
        },
        SlotOperation::UpdateDownloadTokens(transfer, username) => {
            let p = concerns(username@, Some(transfer.filename@));
            crate::lists::lemma_first_where(m.downloads, p);
            let after = m.proposed(transfer, username@);
            assert forall|i: int| 0 <= i < m.downloads.len() implies (
            #[trigger] after.downloads[i]).download.token == m.downloads[i].download.token by {}
            assert forall|i: int, j: int| 0 <= i < j < after.downloads.len() implies (
            #[trigger] after.downloads[i]).download.token != (
            #[trigger] after.downloads[j]).download.token by {
                assert(m.downloads[i].download.token != m.downloads[j].download.token);
            }
            assert forall|n: u32| #[trigger] after.slots.contains(n) implies is_known(
                after.downloads,
                DownloadToken(n),
            ) by {
                let t = DownloadToken(n);
                assert(m.slots.contains(n));
                assert(is_known(m.downloads, t));
                let i = choose|i: int|
                    0 <= i < m.downloads.len() && has_token(t)(#[trigger] m.downloads[i]);
                assert(has_token(t)(after.downloads[i]));
            }
        },
        SlotOperation::CancelDownload(token) => {
            lemma_cancelled_sound(m, token);
        },
        _ => {},
    }
}

/// Nothing begins before the login: while we are not logged in, no operation but
/// the login itself asks a peer for a file.
pub proof fn lemma_nothing_begins_before_login(m: SlotModel, op: SlotOperation, peer_known: bool)
    requires
        !m.logged_in,
        !(op is LoginSucceeded),
    ensures
        forall|i: int|
            0 <= i < m.step(op, peer_known).1.len() ==> !(#[trigger] m.step(op, peer_known).1[i]
                is QueueUpload),
{
}

/// A download that is asked for is known at once, whether or not it begins.
pub proof fn lemma_request_is_known(m: SlotModel, q: QueuedDownload)
    requires
        distinct(m.downloads),
    ensures
        is_known(m.requested(q).0.downloads, q.pending.token),
{
    lemma_entered(m.downloads, q.followed());
    let noted = SlotModel { downloads: entered(m.downloads, q.followed()), ..m };
    lemma_entered(noted.downloads, q.followed());
}

/// A download that is cancelled is gone: it neither waits nor runs nor is known
/// any longer, though another may begin in its place.
pub proof fn lemma_cancelled_is_gone(m: SlotModel, token: DownloadToken)
    requires
        m.sound(),
    ensures
        ({
            let after = m.cancelled(token).0;
            &&& !is_known(after.downloads, token)
            &&& !after.slots.contains(token.0)
            &&& forall|k: int|
                0 <= k < after.pending.len() ==> (#[trigger] after.pending[k]).pending.token
                    != token
        }),
{
    let p = has_token(token);
    let other = |q: QueuedDownload| q.pending.token != token;
    crate::lists::lemma_first_where(m.downloads, p);
    crate::lists::lemma_filter_keeps(m.pending, other);
    let waiting = SlotModel { pending: m.pending.filter(other), ..m };
    assert forall|k: int| 0 <= k < waiting.pending.len() implies (
    #[trigger] waiting.pending[k]).pending.token != token by {
        assert(other(waiting.pending[k]));
    }
    match crate::lists::first_where(m.downloads, p) {
        Some(i) => {
            let left = SlotModel {
                downloads: m.downloads.remove(i),
                slots: m.slots.remove(token.0),
                ..waiting
            };
            assert forall|j: int| 0 <= j < left.downloads.len() implies !p(
                #[trigger] left.downloads[j],
            ) by {
                if j >= i {
                    assert(m.downloads[i].download.token != m.downloads[j + 1].download.token);
                }
            }
            if left.logged_in && left.has_room() && left.pending.len() > 0 {
                let q = left.pending[0];
                let after = entered(left.downloads, q.followed());
                crate::lists::lemma_first_where(left.downloads, has_token(q.pending.token));
                assert forall|j: int| 0 <= j < after.len() implies !p(#[trigger] after[j]) by {
                    if j < left.downloads.len() {
                        assert(!p(left.downloads[j]));
                    }
                }
            }
        },
        None => {
            if m.slots.contains(token.0) {
                assert(is_known(m.downloads, DownloadToken(token.0)));
            }
        },
    }
}

/// When a download ends, its caller is told how it ended before anything else is
/// done, and its status says the same from then on, unless the next download that
/// begins has its token.
pub proof fn lemma_end_is_told(
    m: SlotModel,
    token: DownloadToken,
    outcome: Result<String>,
    peer_known: bool,
    i: int,
)
    requires
        m.sound(),
        0 <= i < m.downloads.len(),
        m.downloads[i].download.token == token,
        m.pending.len() > 0 ==> m.pending[0].pending.token != token,
    ensures
        ({
            let (after, actions) = m.step(
                SlotOperation::DownloadCompleted(token, outcome),
                peer_known,
            );
            &&& actions.len() > 0
            &&& actions[0] == SlotAction::Notify {
                channel: m.downloads[i].download.sender,
                status: outcome_status(outcome),
            }
            &&& after.downloads[i].download.status == outcome_status(outcome)
            &&& after.downloads[i].download.token == token
            &&& !after.slots.contains(token.0)
        }),
{
    let p = has_token(token);
    crate::lists::lemma_first_where(m.downloads, p);
    assert(p(m.downloads[i]));
    let k = crate::lists::first_where(m.downloads, p)->0;
    assert(p(m.downloads[k]));
    assert(k == i) by {
        if k < i {
            assert(m.downloads[k].download.token != m.downloads[i].download.token);
        } else if i < k {
            assert(m.downloads[i].download.token != m.downloads[k].download.token);
        }
    }
    let status = outcome_status(outcome);
    let ended = TrackedDownload {
        download: Download { status, ..m.downloads[i].download },
        ..m.downloads[i]
    };
    let left = SlotModel {
        downloads: m.downloads.update(i, ended),
        slots: m.slots.remove(token.0),
        ..m
    };
    if left.logged_in && left.has_room() && left.pending.len() > 0 {
        let q = left.pending[0];
        let d = q.followed();
        crate::lists::lemma_first_where(left.downloads, has_token(d.download.token));
        match crate::lists::first_where(left.downloads, has_token(d.download.token)) {
            Some(j) => {
                assert(has_token(d.download.token)(left.downloads[j]));
                assert(j != i);
            },
            None => {},
        }
    }
}

/// An answer is entered with the search of its token, after those that came before
/// it.
pub proof fn lemma_answer_reaches_its_search(m: SlotModel, result: SearchResult, i: int)
    requires
        0 <= i < m.searches.len(),
        m.searches[i].token == result.token,
        forall|j: int|
            0 <= j < m.searches.len() && j != i ==> (#[trigger] m.searches[j]).token
                != result.token,
    ensures
        ({
            let after = m.step(SlotOperation::SearchResult(result), false).0;
            &&& after.searches.len() == m.searches.len()
            &&& after.searches[i].results == m.searches[i].results.push(result)
            &&& after.searches[i].query == m.searches[i].query
            &&& forall|j: int|
                0 <= j < m.searches.len() && j != i ==> #[trigger] after.searches[j]
                    == m.searches[j]
        }),
{
    let t = |s: TokenSearchModel| s.token == result.token;
    crate::lists::lemma_first_where_is(m.searches, t, i);
}

} // verus!
