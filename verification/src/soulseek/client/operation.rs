//! What the client is told, and what it does about it.
use vstd::prelude::*;

use super::context::{OperationChannel, ServerChannel};
use super::limiter::PendingDownload;
use crate::soulseek::actor::server_actor::ServerMessage;
use crate::soulseek::download_peer::DownloadPeer;
use crate::soulseek::error::SoulseekRs;
use crate::soulseek::path::SoulseekPath;
use crate::soulseek::peer::{ConnectionType, NewPeer, Peer, StreamHandle};
use crate::soulseek::token::DownloadToken;
use crate::soulseek::types::{
    Download, DownloadStatus, SearchResult, StatusChannel, Transfer,
};
use crate::text::str_eq;

verus! {

/// What the actors and the listener tell the client.
#[derive(Debug)]
pub enum ClientOperation {
    NewPeer(NewPeer),
    ConnectToPeer(Peer),
    SearchResult(SearchResult),
    PeerDisconnected(String, Option<SoulseekRs>),
    PierceFireWall(Peer),
    DownloadFromPeer(DownloadToken, Peer, bool),
    UpdateDownloadTokens(Transfer, String),
    GetPeerAddressResponse {
        username: String,
        host: String,
        port: u32,
        obfuscation_type: u32,
        obfuscated_port: u16,
    },
    UploadFailed(String, SoulseekPath),
    SetServerSender(ServerChannel),
    /// The connection to the server was lost; its actor connects again.
    ServerDisconnected,
    /// The login was confirmed; downloads that wait may begin.
    LoginSucceeded,
    /// A download has ended; the next may begin.
    DownloadSlotFreed,
}

/// What the client has done by others.
#[derive(Debug)]
pub enum ClientAction {
    /// Ask a peer, through the registry, to queue a file for us.
    QueueUpload { username: String, filename: SoulseekPath },
    /// Tell the caller of a download how far it is.
    Notify { channel: StatusChannel, status: DownloadStatus },
    /// Take a peer out of the registry and stop its actor, if it is there.
    StopPeer { username: String },
    /// Send a message to the actor of the server connection.
    SendToServer { server: ServerChannel, message: ServerMessage },
    /// Enter a peer in the registry and start its actor, over the stream where
    /// there is one.
    RegisterPeer { peer: Peer, stream: Option<StreamHandle> },
    /// Fetch a file that is known.
    FetchDirect { download: Download, from: DownloadPeer, allowed: bool },
    /// Fetch the file that the peer will name, over the stream where there is
    /// one.
    FetchPierced { from: DownloadPeer, stream: Option<StreamHandle> },
    /// Tell the client that a download has ended.
    FreeSlot { operations: OperationChannel },
    /// Tell whoever keeps the client's state.
    Forward(WorkerEvent),
}

/// What a worker tells whoever keeps the client's state.
#[derive(Debug, Clone, Copy, PartialEq, Eq, Structural)]
pub enum WorkerEvent {
    ServerDisconnected,
    LoginSucceeded,
    DownloadSlotFreed,
}

/// Asking a peer for a file.
pub open spec fn ask_for(pd: PendingDownload) -> ClientAction {
    ClientAction::QueueUpload { username: pd.username, filename: pd.filename }
}

/// Connecting to a peer: for messages it is registered, for a file the file is
/// fetched.
pub open spec fn connecting(
    peer: Peer,
    stream: Option<StreamHandle>,
    own_username: String,
) -> Seq<ClientAction> {
    match peer.connection_type {
        ConnectionType::P => seq![ClientAction::RegisterPeer { peer, stream }],
        ConnectionType::F => seq![
            ClientAction::FetchPierced {
                from: DownloadPeer {
                    username: peer.username,
                    host: peer.host,
                    port: peer.port,
                    own_username,
                    token: (peer.token->0).0,
                },
                stream,
            },
        ],
        ConnectionType::D => Seq::empty(),
    }
}

/// What connecting to a peer takes.
pub fn connect_to_peer(
    peer: Peer,
    stream: Option<StreamHandle>,
    own_username: &String,
    actions: &mut Vec<ClientAction>,
)
    requires
        peer_has_token(peer),
    ensures
        final(actions)@ == old(actions)@ + connecting(peer, stream, *own_username),
{
    let ghost peer0 = peer;
    match peer.connection_type {
        ConnectionType::P => {
            actions.push(ClientAction::RegisterPeer { peer, stream });
        },
        ConnectionType::F => {
            match peer.token {
                Some(token) => {
                    let from = DownloadPeer::new(
                        peer.username,
                        peer.host,
                        peer.port,
                        token.0,
                        own_username.clone(),
                    );
                    actions.push(ClientAction::FetchPierced { from, stream });
                },
                None => {},
            }
        },
        ConnectionType::D => {},
    }
    assert(actions@ =~= old(actions)@ + connecting(peer0, stream, *own_username));
}

/// The peer that has connected to us.
pub open spec fn connected_peer(new_peer: NewPeer) -> Peer {
    Peer {
        username: new_peer.username,
        connection_type: new_peer.connection_type,
        host: new_peer.host,
        port: new_peer.port,
        token: Some(new_peer.token),
        privileged: None,
        unknown: None,
        obfuscated_port: None,
    }
}

/// The peer that has connected to us.
pub fn peer_of(new_peer: NewPeer) -> (r: Peer)
    ensures
        r == connected_peer(new_peer),
{
    Peer {
        username: new_peer.username,
        connection_type: new_peer.connection_type,
        host: new_peer.host,
        port: new_peer.port,
        token: Some(new_peer.token),
        privileged: None,
        unknown: None,
        obfuscated_port: None,
    }
}

/// A peer that is to send a file has a token.
pub open spec fn peer_has_token(peer: Peer) -> bool {
    peer.connection_type == ConnectionType::F ==> peer.token is Some
}

/// A file connection carries a token.
pub open spec fn operation_ok(op: ClientOperation) -> bool {
    match op {
        ClientOperation::ConnectToPeer(peer) => peer_has_token(peer),
        ClientOperation::PierceFireWall(peer) => peer_has_token(peer),
        _ => true,
    }
}

impl ClientOperation {
    /// Whether a file connection carries a token.
    pub fn is_ok(&self) -> (r: bool)
        ensures
            r == operation_ok(*self),
    {
        match self {
            ClientOperation::ConnectToPeer(peer) => peer.connection_type != ConnectionType::F
                || peer.token.is_some(),
            ClientOperation::PierceFireWall(peer) => peer.connection_type != ConnectionType::F
                || peer.token.is_some(),
            _ => true,
        }
    }
}

// ---- downloads that fail ----------------------------------------------------------

/// The download is of a file of the user, of the given file where one is given.
pub open spec fn concerns(username: Seq<char>, filename: Option<Seq<char>>) -> spec_fn(
    Download,
) -> bool {
    |d: Download|
        d.username@ == username && match filename {
            Some(f) => d.filename@ == f,
            None => true,
        }
}

/// The downloads that fail, in order.
pub open spec fn failing(
    downloads: Seq<Download>,
    username: Seq<char>,
    filename: Option<Seq<char>>,
) -> Seq<Download> {
    downloads.filter(concerns(username, filename))
}

/// The tokens of downloads.
pub open spec fn tokens_of(downloads: Seq<Download>) -> Seq<DownloadToken> {
    downloads.map_values(|d: Download| d.token)
}

/// The download has none of the tokens.
pub open spec fn has_none_of(tokens: Seq<DownloadToken>) -> spec_fn(Download) -> bool {
    |d: Download| !tokens.contains(d.token)
}

/// The downloads that are left when those that fail are gone. A download goes
/// with every other that has its token.
pub open spec fn surviving(
    downloads: Seq<Download>,
    username: Seq<char>,
    filename: Option<Seq<char>>,
) -> Seq<Download> {
    downloads.filter(has_none_of(tokens_of(failing(downloads, username, filename))))
}

/// The word to the callers of downloads that they have failed.
pub open spec fn failure_notices(downloads: Seq<Download>) -> Seq<ClientAction> {
    downloads.map_values(
        |d: Download|
            ClientAction::Notify { channel: d.sender, status: DownloadStatus::Failed },
    )
}

/// A filename as a value, where there is one.
pub open spec fn path_view(filename: Option<SoulseekPath>) -> Option<Seq<char>> {
    match filename {
        Some(f) => Some(f@),
        None => None,
    }
}

fn is_concerned(d: &Download, username: &str, filename: &Option<SoulseekPath>) -> (r: bool)
    ensures
        r == concerns(username@, path_view(*filename))(*d),
{
    if !str_eq(d.username.as_str(), username) {
        return false;
    }
    match filename {
        Some(f) => d.filename.same_as(f),
        None => true,
    }
}

fn token_among(tokens: &Vec<DownloadToken>, token: DownloadToken) -> (r: bool)
    ensures
        r == tokens@.contains(token),
{
    let mut i: usize = 0;
    while i < tokens.len()
        invariant
            i <= tokens@.len(),
            forall|j: int| 0 <= j < i ==> tokens@[j] != token,
        decreases tokens@.len() - i,
    {
        if tokens[i] == token {
            return true;
        }
        i += 1;
    }
    false
}

/// Drop the downloads that fail, and tell their callers.
pub fn process_failed_uploads(
    downloads: &mut Vec<Download>,
    username: &str,
    filename: &Option<SoulseekPath>,
) -> (r: Vec<ClientAction>)
    ensures
        final(downloads)@ == surviving(old(downloads)@, username@, path_view(*filename)),
        r@ == failure_notices(failing(old(downloads)@, username@, path_view(*filename))),
{
    let ghost all = downloads@;
    let ghost p = concerns(username@, path_view(*filename));
    let mut notices: Vec<ClientAction> = Vec::new();
    let mut tokens: Vec<DownloadToken> = Vec::new();
    let mut i: usize = 0;
    proof {
        assert(all.take(0).filter(p) =~= Seq::empty()) by {
            reveal(Seq::filter);
        }
        assert(notices@ =~= failure_notices(all.take(0).filter(p)));
        assert(tokens@ =~= tokens_of(all.take(0).filter(p)));
    }
    while i < downloads.len()
        invariant
            i <= downloads@.len(),
            downloads@ == all,
            p == concerns(username@, path_view(*filename)),
            notices@ == failure_notices(all.take(i as int).filter(p)),
            tokens@ == tokens_of(all.take(i as int).filter(p)),
        decreases downloads@.len() - i,
    {
        proof {
            crate::lists::lemma_filter_step(all, i as int, p);
        }
        if is_concerned(&downloads[i], username, filename) {
            notices.push(
                ClientAction::Notify {
                    channel: downloads[i].sender,
                    status: DownloadStatus::Failed,
                },
            );
            tokens.push(downloads[i].token);
        }
        i += 1;
        assert(notices@ =~= failure_notices(all.take(i as int).filter(p)));
        assert(tokens@ =~= tokens_of(all.take(i as int).filter(p)));
    }
    assert(all.take(i as int) =~= all);
    drop_tokens(downloads, &tokens);
    notices
}

/// Drop the downloads that have one of the tokens.
pub fn drop_tokens(downloads: &mut Vec<Download>, tokens: &Vec<DownloadToken>)
    ensures
        final(downloads)@ == old(downloads)@.filter(has_none_of(tokens@)),
{
    let ghost all = downloads@;
    let ghost p = has_none_of(tokens@);
    let ghost mut k: int = 0;
    let mut i: usize = 0;
    proof {
        assert(all.take(0).filter(p) =~= Seq::empty()) by {
            reveal(Seq::filter);
        }
        assert(downloads@ =~= all.take(0).filter(p) + all.skip(0));
    }
    while i < downloads.len()
        invariant
            0 <= k <= all.len(),
            p == has_none_of(tokens@),
            i == all.take(k).filter(p).len(),
            downloads@ == all.take(k).filter(p) + all.skip(k),
        decreases all.len() - k,
    {
        let ghost kept = all.take(k).filter(p);
        proof {
            crate::lists::lemma_filter_step(all, k, p);
            assert(downloads@[i as int] == all[k]);
        }
        if token_among(tokens, downloads[i].token) {
            downloads.remove(i);
            assert(downloads@ =~= kept + all.skip(k + 1));
        } else {
            i += 1;
            assert(downloads@ =~= kept.push(all[k]) + all.skip(k + 1));
        }
        proof {
            k = k + 1;
        }
    }
    proof {
        assert(all.skip(k).len() == 0);
        assert(all.take(k) =~= all);
        assert(downloads@ =~= all.filter(p));
    }
}

// ---- transfers that a peer proposes -------------------------------------------------

/// The downloads once a peer has proposed to send one of them: the first
/// download of that file from that user is replaced by one with the token and
/// the size that the peer gave, and with it goes every download that had its
/// token.
pub open spec fn retokened(
    downloads: Seq<Download>,
    transfer: Transfer,
    username: String,
) -> Seq<Download> {
    match crate::lists::first_where(
        downloads,
        concerns(username@, Some(transfer.filename@)),
    ) {
        Some(i) => downloads.push(
            Download {
                username,
                filename: transfer.filename,
                token: transfer.token,
                size: transfer.size,
                download_directory: downloads[i].download_directory,
                status: downloads[i].status,
                sender: downloads[i].sender,
            },
        ).filter(super::context::has_other_token(downloads[i].token)),
        None => downloads,
    }
}

/// Replace the download that a peer proposes to send.
pub fn update_download_tokens(downloads: &mut Vec<Download>, transfer: Transfer, username: String)
    ensures
        final(downloads)@ == retokened(old(downloads)@, transfer, username),
{
    let ghost p = concerns(username@, Some(transfer.filename@));
    let mut i: usize = 0;
    while i < downloads.len()
        invariant
            i <= downloads@.len(),
            downloads@ == old(downloads)@,
            p == concerns(username@, Some(transfer.filename@)),
            forall|j: int| 0 <= j < i ==> !p(#[trigger] downloads@[j]),
        decreases downloads@.len() - i,
    {
        if str_eq(downloads[i].username.as_str(), username.as_str())
            && downloads[i].filename.same_as(&transfer.filename) {
            proof {
                crate::lists::lemma_first_where_is(downloads@, p, i as int);
            }
            let old_token = downloads[i].token;
            let replacement = Download {
                username,
                filename: transfer.filename,
                token: transfer.token,
                size: transfer.size,
                download_directory: downloads[i].download_directory.clone(),
                status: downloads[i].status,
                sender: downloads[i].sender,
            };
            downloads.push(replacement);
            super::context::drop_token(downloads, old_token);
            return;
        }
        i += 1;
    }
    proof {
        crate::lists::lemma_first_where_none(downloads@, p);
    }
}

/// No download of another user fails with a peer's downloads unless it shares
/// its token with one that does, and every download of the peer goes.
pub proof fn lemma_failure_spares_others(
    downloads: Seq<Download>,
    username: Seq<char>,
    filename: Option<Seq<char>>,
    d: Download,
)
    requires
        downloads.contains(d),
    ensures
        concerns(username, filename)(d) ==> !surviving(downloads, username, filename).contains(d),
        !tokens_of(failing(downloads, username, filename)).contains(d.token) ==> surviving(
            downloads,
            username,
            filename,
        ).contains(d),
{
    let p = concerns(username, filename);
    let failed = failing(downloads, username, filename);
    let q = has_none_of(tokens_of(failed));
    crate::lists::lemma_filter_keeps(downloads, p);
    crate::lists::lemma_filter_keeps(downloads, q);
    let i = choose|i: int| 0 <= i < downloads.len() && downloads[i] == d;
    if p(d) {
        assert(p(downloads[i]));
        assert(failed.contains(d));
        let k = choose|k: int| 0 <= k < failed.len() && failed[k] == d;
        assert(tokens_of(failed)[k] == d.token);
        assert(!q(d));
        if surviving(downloads, username, filename).contains(d) {
            let s = surviving(downloads, username, filename);
            let m = choose|m: int| 0 <= m < s.len() && s[m] == d;
            assert(q(s[m]));
        }
    }
    if q(d) {
        assert(q(downloads[i]));
    }
}

} // verus!
