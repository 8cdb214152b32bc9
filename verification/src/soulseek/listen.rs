//! What a peer that connects to us wants.
use vstd::prelude::*;

use super::client::context::ClientContext;
use super::client::counted::WorkerOperation;
use super::download_peer::{DownloadError, DownloadPeer};
use super::error::SoulseekRs;
use super::message::{Field, Message};
use super::peer::{ConnectionType, Peer};
use super::token::DownloadToken;
use super::types::{Download, DownloadStatus, StatusChannel};
use crate::text::append_str;

verus! {

/// The code of the message by which a peer introduces itself.
pub const PEER_INIT_MESSAGE_CODE: u8 = 1;

/// The code of the message by which a peer answers our request to connect.
pub const PIERCE_FIREWALL_MESSAGE_CODE: u8 = 0;

/// How long a peer may take to introduce itself, in seconds.
pub const PEER_INIT_TIMEOUT_SECS: u64 = 10;

/// Why we do not listen.
#[derive(Debug)]
pub enum ListenError {
    /// The port could not be had; the reason in words.
    FailedToBindListener(String),
}

impl ListenError {
    /// The error in words.
    pub fn message(&self) -> (r: String)
        ensures
            match *self {
                ListenError::FailedToBindListener(reason) => r@
                    == "failed to bind listener to port "@ + reason@,
            },
    {
        match self {
            ListenError::FailedToBindListener(reason) => append_str(
                "failed to bind listener to port ",
                reason.as_str(),
            ),
        }
    }
}

/// How a peer introduces itself.
#[derive(Debug)]
pub struct PeerInitData {
    pub username: String,
    pub connection_type: ConnectionType,
    pub token: u32,
}

/// The token that follows the code, where the code is that of a peer that answers
/// our request.
pub fn parse_pierce_firewall_token(message: &mut Message) -> (r: Option<DownloadToken>)
    requires
        old(message)@.bytes.len() >= 5,
        old(message)@.bytes[4] == PIERCE_FIREWALL_MESSAGE_CODE ==> old(message)@.bytes.len() >= 9,
    ensures
        final(message)@.bytes == old(message)@.bytes,
        match r {
            Some(token) => {
                &&& old(message)@.bytes[4] == PIERCE_FIREWALL_MESSAGE_CODE
                &&& token.0 == super::message::le32(old(message)@.bytes, 5)
            },
            None => old(message)@.bytes[4] != PIERCE_FIREWALL_MESSAGE_CODE,
        },
{
    message.set_pointer(4);
    match message.try_read_int8() {
        Some(code) => {
            if code != PIERCE_FIREWALL_MESSAGE_CODE {
                return None;
            }
            match message.try_read_int32() {
                Some(token) => Some(DownloadToken(token)),
                None => None,
            }
        },
        None => None,
    }
}

/// Where the token of an introduction stands: after the code, the name and the
/// letter of the connection type.
pub open spec fn init_token_at(bytes: Seq<u8>) -> Option<int> {
    match super::message::field_end(bytes, 5, Field::Text) {
        Some(p) => super::message::field_end(bytes, p, Field::Text),
        None => None,
    }
}

/// The letter of the connection type of an introduction.
pub open spec fn init_letter(bytes: Seq<u8>) -> Seq<char> {
    super::message::text_at(bytes, super::message::field_end(bytes, 5, Field::Text)->0)
}

/// A whole introduction stands after the length of the message.
pub open spec fn init_stands(bytes: Seq<u8>) -> bool {
    &&& bytes.len() >= 5
    &&& bytes[4] == PEER_INIT_MESSAGE_CODE
    &&& init_token_at(bytes) matches Some(p)
    &&& p + 4 <= bytes.len()
    &&& ConnectionType::named(init_letter(bytes)) is Some
}

/// The introduction that stands after the length of the message; `None` where
/// none does.
pub fn parse_peer_init_message(message: &mut Message) -> (r: Option<PeerInitData>)
    ensures
        final(message)@.bytes == old(message)@.bytes,
        match r {
            Some(data) => {
                &&& init_stands(old(message)@.bytes)
                &&& data.username@ == super::message::text_at(old(message)@.bytes, 5)
                &&& Some(data.connection_type) == ConnectionType::named(
                    init_letter(old(message)@.bytes),
                )
                &&& data.token == super::message::le32(
                    old(message)@.bytes,
                    init_token_at(old(message)@.bytes)->0,
                )
            },
            None => !init_stands(old(message)@.bytes),
        },
{
    message.set_pointer(4);
    match message.try_read_int8() {
        Some(code) => {
            if code != PEER_INIT_MESSAGE_CODE {
                return None;
            }
        },
        None => {
            return None;
        },
    }
    let username = match message.try_read_string() {
        Some(x) => x,
        None => {
            return None;
        },
    };
    let letter = match message.try_read_string() {
        Some(x) => x,
        None => {
            return None;
        },
    };
    let connection_type = match ConnectionType::from_name(letter.as_str()) {
        Some(x) => x,
        None => {
            return None;
        },
    };
    match message.try_read_int32() {
        Some(token) => Some(PeerInitData { username, connection_type, token }),
        None => None,
    }
}

/// The token with which a file connection begins, where four bytes have come.
pub open spec fn buffered_token(buffer: Seq<u8>) -> Option<DownloadToken> {
    if buffer.len() >= 4 {
        Some(DownloadToken(super::message::le32(buffer, 0) as u32))
    } else {
        None
    }
}

/// The token with which a file connection begins, where four bytes have come.
pub fn parse_token_from_buffer(buffer: &Vec<u8>) -> (r: Option<DownloadToken>)
    ensures
        r == buffered_token(buffer@),
{
    if buffer.len() < 4 {
        return None;
    }
    let n: u32 = buffer[0] as u32 + 0x100 * (buffer[1] as u32) + 0x1_0000 * (buffer[2] as u32)
        + 0x100_0000 * (buffer[3] as u32);
    Some(DownloadToken(n))
}

/// What a peer that has connected to us wants.
#[derive(Debug)]
pub enum Incoming {
    /// To send the file with the token, as we asked it to connect.
    PierceFirewall { token: DownloadToken, peer: Peer },
    /// To exchange messages.
    Messages { peer: Peer },
    /// To send a file; the token is that of the connection. The file's own token
    /// follows, where it has come already.
    File { peer: Peer, connection_token: u32, download_token: Option<DownloadToken> },
    /// What we do not offer.
    Unsupported,
    /// Nothing that can be understood.
    Invalid,
}

/// A peer of which only the name and the address are known.
pub open spec fn bare_peer(
    peer: Peer,
    name: Seq<char>,
    connection_type: ConnectionType,
    ip: Seq<char>,
    port: u16,
) -> bool {
    &&& peer.username@ == name
    &&& peer.connection_type == connection_type
    &&& peer.host@ == ip
    &&& peer.port == port
    &&& peer.token is None
    &&& peer.privileged == Some(0u8)
    &&& peer.unknown == Some(0u32)
    &&& peer.obfuscated_port == Some(0u32)
}

/// What the first message of a peer, from the given address and with what came
/// after it, says that it wants.
pub open spec fn wants(bytes: Seq<u8>, buffer: Seq<u8>, ip: Seq<char>, port: u16, r: Incoming)
    -> bool {
    if bytes.len() >= 9 && bytes[4] == PIERCE_FIREWALL_MESSAGE_CODE {
        &&& r matches Incoming::PierceFirewall { token, peer }
        &&& token.0 == super::message::le32(bytes, 5)
        &&& bare_peer(peer, ip + ":pierce"@, ConnectionType::F, ip, port)
    } else if init_stands(bytes) {
        let name = super::message::text_at(bytes, 5) + ":direct"@;
        let connection_type = ConnectionType::named(init_letter(bytes))->0;
        match connection_type {
            ConnectionType::P => {
                &&& r matches Incoming::Messages { peer }
                &&& bare_peer(peer, name, connection_type, ip, port)
            },
            ConnectionType::F => {
                &&& r matches Incoming::File { peer, connection_token, download_token }
                &&& bare_peer(peer, name, connection_type, ip, port)
                &&& connection_token == super::message::le32(bytes, init_token_at(bytes)->0)
                &&& download_token == buffered_token(buffer)
            },
            ConnectionType::D => r is Unsupported,
        }
    } else {
        r is Invalid
    }
}

/// What a peer that has connected to us wants.
pub fn handle_incoming_connection(
    message: &mut Message,
    buffer: &Vec<u8>,
    peer_ip: &str,
    peer_port: u16,
) -> (r: Incoming)
    ensures
        wants(old(message)@.bytes, buffer@, peer_ip@, peer_port, r),
{
    let n: usize = message.get_size();
    if n < 5 {
        return Incoming::Invalid;
    }
    message.set_pointer(4);
    let code: u8 = match message.try_read_int8() {
        Some(x) => x,
        None => {
            return Incoming::Invalid;
        },
    };
    if code == PIERCE_FIREWALL_MESSAGE_CODE && n < 9 {
        return Incoming::Invalid;
    }
    match parse_pierce_firewall_token(message) {
        Some(token) => {
            let peer = Peer::new(
                append_str(peer_ip, ":pierce"),
                ConnectionType::F,
                peer_ip.to_owned(),
                peer_port as u32,
                None,
                0,
                0,
                0,
            );
            return Incoming::PierceFirewall { token, peer };
        },
        None => {},
    }
    match parse_peer_init_message(message) {
        Some(data) => {
            let peer = Peer::new(
                append_str(data.username.as_str(), ":direct"),
                data.connection_type,
                peer_ip.to_owned(),
                peer_port as u32,
                None,
                0,
                0,
                0,
            );
            match data.connection_type {
                ConnectionType::P => Incoming::Messages { peer },
                ConnectionType::F => Incoming::File {
                    peer,
                    connection_token: data.token,
                    download_token: parse_token_from_buffer(buffer),
                },
                ConnectionType::D => Incoming::Unsupported,
            }
        },
        None => Incoming::Invalid,
    }
}

// ---- with the downloads at hand ---------------------------------------------------------

/// What is done about a peer that has connected to us.
#[derive(Debug)]
pub enum IncomingAction {
    /// The connection is dropped.
    Drop,
    /// The peer is entered in the registry, with its stream.
    Register { peer: Peer },
    /// A file is fetched over the stream. Where it is not known which, the peer
    /// will say.
    Fetch { download: Option<Download>, from: DownloadPeer },
}

/// The first download with the token.
pub open spec fn download_with(downloads: Seq<Download>, token: DownloadToken) -> Option<Download> {
    match crate::lists::first_where(
        downloads,
        super::client::context::has_token(token),
    ) {
        Some(i) => Some(downloads[i]),
        None => None,
    }
}

/// What is done about a peer: a file that we asked for is fetched where it is
/// known, a peer that wants to exchange messages is registered where there is a
/// registry, and a peer that wants to send a file may. A peer that sends a file over
/// its own connection goes by its name with `:direct` added once more.
pub open spec fn is_action_for(
    incoming: Incoming,
    context: super::client::context::ContextModel,
    own_username: String,
    action: IncomingAction,
) -> bool {
    match incoming {
        Incoming::PierceFirewall { token, peer } => match download_with(context.downloads, token) {
            Some(download) => action == (IncomingAction::Fetch {
                download: Some(download),
                from: DownloadPeer {
                    username: peer.username,
                    host: peer.host,
                    port: peer.port,
                    own_username,
                    token: token.0,
                },
            }),
            None => action == IncomingAction::Drop,
        },
        Incoming::Messages { peer } => action == if context.peer_registry is Some {
            IncomingAction::Register { peer }
        } else {
            IncomingAction::Drop
        },
        Incoming::File { peer, connection_token, download_token } => {
            &&& action matches IncomingAction::Fetch { download, from }
            &&& download == match download_token {
                Some(t) => download_with(context.downloads, t),
                None => None,
            }
            &&& from.username@ == peer.username@ + ":direct"@
            &&& from == (DownloadPeer {
                username: from.username,
                host: peer.host,
                port: peer.port,
                own_username,
                token: connection_token,
            })
        },
        Incoming::Unsupported => action == IncomingAction::Drop,
        Incoming::Invalid => action == IncomingAction::Drop,
    }
}

fn find_download(context: &ClientContext, token: DownloadToken) -> (r: Option<Download>)
    ensures
        r == download_with(context@.downloads, token),
{
    match context.get_download_by_token(token) {
        Some(d) => Some(d.clone()),
        None => None,
    }
}

/// What is done about a peer that has connected to us.
pub fn decide_incoming(incoming: Incoming, context: &ClientContext, own_username: &String) -> (r:
    IncomingAction)
    ensures
        is_action_for(incoming, context@, *own_username, r),
{
    match incoming {
        Incoming::PierceFirewall { token, peer } => match find_download(context, token) {
            Some(download) => IncomingAction::Fetch {
                download: Some(download),
                from: DownloadPeer::new(
                    peer.username,
                    peer.host,
                    peer.port,
                    token.0,
                    own_username.clone(),
                ),
            },
            None => IncomingAction::Drop,
        },
        Incoming::Messages { peer } => if context.peer_registry.is_some() {
            IncomingAction::Register { peer }
        } else {
            IncomingAction::Drop
        },
        Incoming::File { peer, connection_token, download_token } => IncomingAction::Fetch {
            download: match download_token {
                Some(t) => find_download(context, t),
                None => None,
            },
            from: DownloadPeer::new(
                append_str(peer.username.as_str(), ":direct"),
                peer.host,
                peer.port,
                connection_token,
                own_username.clone(),
            ),
        },
        Incoming::Unsupported => IncomingAction::Drop,
        Incoming::Invalid => IncomingAction::Drop,
    }
}

/// A file that a peer sent of its own accord has come, or has not: where it has,
/// its caller is told and its status is set.
pub fn incoming_fetch_ended(context: &mut ClientContext, fetched: &Option<Download>) -> (r: Option<
    (StatusChannel, DownloadStatus),
>)
    ensures
        match *fetched {
            Some(d) => {
                &&& r == Some((d.sender, DownloadStatus::Completed))
                &&& final(context)@ == (super::client::context::ContextModel {
                    downloads: super::client::context::with_status(
                        old(context)@.downloads,
                        d.token,
                        DownloadStatus::Completed,
                    ),
                    ..old(context)@
                })
            },
            None => r is None && final(context)@ == old(context)@,
        },
{
    match fetched {
        Some(d) => {
            context.update_download_with_status(d.token, DownloadStatus::Completed);
            Some((d.sender, DownloadStatus::Completed))
        },
        None => None,
    }
}

// ---- where a worker keeps the downloads -------------------------------------------------------

/// What is done first about a peer, where the downloads are kept by a worker.
#[derive(Debug)]
pub enum IncomingQuery {
    /// The connection is dropped.
    Drop,
    /// The peer is entered in the registry, with its stream.
    Register { peer: Peer },
    /// The worker is asked for the download with the token; where it has it, the
    /// file is fetched.
    Ask { token: DownloadToken, from: DownloadPeer },
}

/// What is done first about a peer, where the downloads are kept by a worker.
pub open spec fn query_for(incoming: Incoming, own_username: String) -> IncomingQuery {
    match incoming {
        Incoming::PierceFirewall { token, peer } => IncomingQuery::Ask {
            token,
            from: DownloadPeer {
                username: peer.username,
                host: peer.host,
                port: peer.port,
                own_username,
                token: token.0,
            },
        },
        Incoming::Messages { peer } => IncomingQuery::Register { peer },
        Incoming::File { peer, connection_token, download_token } => match download_token {
            Some(t) => IncomingQuery::Ask {
                token: t,
                from: DownloadPeer {
                    username: peer.username,
                    host: peer.host,
                    port: peer.port,
                    own_username,
                    token: connection_token,
                },
            },
            None => IncomingQuery::Drop,
        },
        Incoming::Unsupported => IncomingQuery::Drop,
        Incoming::Invalid => IncomingQuery::Drop,
    }
}

/// What is done first about a peer, where the downloads are kept by a worker.
pub fn query_incoming(incoming: Incoming, own_username: &String) -> (r: IncomingQuery)
    ensures
        r == query_for(incoming, *own_username),
{
    match incoming {
        Incoming::PierceFirewall { token, peer } => IncomingQuery::Ask {
            token,
            from: DownloadPeer::new(
                peer.username,
                peer.host,
                peer.port,
                token.0,
                own_username.clone(),
            ),
        },
        Incoming::Messages { peer } => IncomingQuery::Register { peer },
        Incoming::File { peer, connection_token, download_token } => match download_token {
            Some(t) => IncomingQuery::Ask {
                token: t,
                from: DownloadPeer::new(
                    peer.username,
                    peer.host,
                    peer.port,
                    connection_token,
                    own_username.clone(),
                ),
            },
            None => IncomingQuery::Drop,
        },
        Incoming::Unsupported => IncomingQuery::Drop,
        Incoming::Invalid => IncomingQuery::Drop,
    }
}

/// What the worker and the caller are told when a file that a peer sent has come,
/// or could not be fetched. The token is the one by which the worker was asked.
pub fn asked_fetch_ended(
    asked: DownloadToken,
    outcome: core::result::Result<(Download, String), DownloadError>,
) -> (r: (Option<(StatusChannel, DownloadStatus)>, WorkerOperation))
    ensures
        match outcome {
            Ok((d, path)) => {
                &&& r.0 == Some((d.sender, DownloadStatus::Completed))
                &&& r.1 == WorkerOperation::DownloadCompleted(d.token, Ok(path))
            },
            Err(e) => {
                &&& r.0 is None
                &&& r.1 matches WorkerOperation::DownloadCompleted(t, Err(
                    SoulseekRs::InvalidMessage(words),
                ))
                &&& t == asked
                &&& words@ == super::download_peer::download_error_words(e)
            },
        },
{
    match outcome {
        Ok((d, path)) => (
            Some((d.sender, DownloadStatus::Completed)),
            WorkerOperation::DownloadCompleted(d.token, Ok(path)),
        ),
        Err(e) => (
            None,
            WorkerOperation::DownloadCompleted(asked, Err(SoulseekRs::InvalidMessage(e.message()))),
        ),
    }
}

// ---- laws ---------------------------------------------------------------------------------

/// A message that answers our request to connect never counts as an introduction,
/// and the other way round.
pub proof fn lemma_codes_exclude_each_other(
    bytes: Seq<u8>,
    buffer: Seq<u8>,
    ip: Seq<char>,
    port: u16,
    r: Incoming,
)
    requires
        wants(bytes, buffer, ip, port, r),
    ensures
        r is PierceFirewall ==> !init_stands(bytes),
        r is Messages || r is File ==> bytes[4] == PEER_INIT_MESSAGE_CODE,
{
}

/// No file is fetched for a token that no download has.
pub proof fn lemma_unknown_token_is_dropped(
    token: DownloadToken,
    peer: Peer,
    context: super::client::context::ContextModel,
    own_username: String,
    action: IncomingAction,
)
    requires
        forall|i: int|
            0 <= i < context.downloads.len() ==> (#[trigger] context.downloads[i]).token != token,
        is_action_for(Incoming::PierceFirewall { token, peer }, context, own_username, action),
    ensures
        action is Drop,
{
    crate::lists::lemma_first_where(context.downloads, super::client::context::has_token(token));
}

/// What listens for peers.
#[derive(Debug, Clone, Copy, PartialEq, Eq, Structural)]
pub struct Listen;

impl Listen {
    /// Where to listen: every address, on the given port.
    pub fn bind_address(port: u32) -> (r: String)
        ensures
            r@ == "0.0.0.0:"@ + crate::text::decimal(port as nat),
    {
        append_str(
            "0.0.0.0:",
            crate::text::from_chars(&crate::text::decimal_chars(port as u64)).as_str(),
        )
    }
}

} // verus!
