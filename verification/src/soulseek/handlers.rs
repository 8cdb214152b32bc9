//! What messages from the server and from peers say.
use vstd::prelude::*;

use super::actor::peer_message::PeerMessage;
use super::actor::server_actor::ServerMessage;
use super::message::{Field, Message};
use super::peer::{read_address, Peer};
use super::request::Request;
use super::types::{SearchResult, Transfer, UploadFailed};

verus! {

// ---- from the server ------------------------------------------------------------------

/// The answer to a login.
#[derive(Debug, Clone, Copy, PartialEq, Eq, Structural)]
pub struct LoginHandler;

/// What follows the first byte of the answer to a login that succeeded: a
/// greeting, our address, the digest of the password and whether we support the
/// server.
pub open spec fn welcome_fields() -> Seq<Field> {
    seq![Field::Text, Field::Int32, Field::Text, Field::Int8]
}

/// A whole answer to a login stands at `at`.
pub open spec fn login_answer_at(bytes: Seq<u8>, at: int) -> bool {
    &&& at < bytes.len()
    &&& bytes[at] == 1 ==> super::message::fields_end(bytes, at + 1, welcome_fields()) is Some
}

impl LoginHandler {
    pub fn get_code(&self) -> (r: u32)
        ensures
            r == 1,
    {
        1
    }

    /// Whether we are logged in.
    pub fn handle(&self, message: &mut Message) -> (r: ServerMessage)
        requires
            login_answer_at(old(message)@.bytes, old(message)@.at),
        ensures
            r == ServerMessage::LoginStatus(old(message)@.bytes[old(message)@.at] == 1),
            final(message)@.bytes == old(message)@.bytes,
            final(message)@.at == if old(message)@.bytes[old(message)@.at] == 1 {
                super::message::fields_end(
                    old(message)@.bytes,
                    old(message)@.at + 1,
                    welcome_fields(),
                )->0
            } else {
                old(message)@.at + 1
            },
    {
        proof {
            let f = welcome_fields();
            reveal_with_fuel(super::message::fields_end, 5);
            assert(f.skip(1).skip(1) =~= f.skip(2));
            assert(f.skip(1).skip(1).skip(1) =~= f.skip(3));
            assert(f.skip(1).skip(1).skip(1).skip(1) =~= Seq::empty());
        }
        match message.try_read_int8() {
            Some(1) => {
                let _ = message.try_read_string();
                let _ = message.try_read_int32();
                let _ = message.try_read_string();
                let _ = message.try_read_int8();
                ServerMessage::LoginStatus(true)
            },
            _ => ServerMessage::LoginStatus(false),
        }
    }
}

/// The server asks us to connect to a peer.
#[derive(Debug, Clone, Copy, PartialEq, Eq, Structural)]
pub struct ConnectToPeerHandler;

impl ConnectToPeerHandler {
    pub fn get_code(&self) -> (r: u32)
        ensures
            r == 18,
    {
        18
    }

    /// The peer to connect to; `None` where it is not described in full.
    pub fn handle(&self, message: &mut Message) -> (r: Option<ServerMessage>)
        ensures
            match r {
                Some(m) => {
                    &&& super::peer::peer_described(old(message)@.bytes, old(message)@.at)
                    &&& m matches ServerMessage::ConnectToPeer(peer)
                    &&& super::peer::peer_described_as(
                        old(message)@.bytes,
                        old(message)@.at,
                        peer,
                    )
                },
                None => !super::peer::peer_described(old(message)@.bytes, old(message)@.at),
            },
    {
        match Peer::new_from_message(message) {
            Some(peer) => Some(ServerMessage::ConnectToPeer(peer)),
            None => None,
        }
    }
}

/// The server tells where a peer can be reached.
#[derive(Debug, Clone, Copy, PartialEq, Eq, Structural)]
pub struct GetPeerAddressHandler;

/// A whole answer with the address of a peer stands at `at`: its name, its address
/// of four bytes, its port, the kind of obfuscation and the obfuscated port of two
/// bytes.
pub open spec fn address_answer_at(bytes: Seq<u8>, at: int) -> bool {
    super::message::field_end(bytes, at, Field::Text) matches Some(p) && p + 14 <= bytes.len()
}

/// The address of a peer that stands at `at`.
pub open spec fn address_answer_is(bytes: Seq<u8>, at: int, m: ServerMessage) -> bool {
    let p = super::message::field_end(bytes, at, Field::Text)->0;
    &&& m matches ServerMessage::GetPeerAddressResponse {
        username,
        host,
        port,
        obfuscation_type,
        obfuscated_port,
    }
    &&& username@ == super::message::text_at(bytes, at)
    &&& host@ == super::peer::dotted(bytes.subrange(p, p + 4))
    &&& port == super::message::le32(bytes, p + 4)
    &&& obfuscation_type == super::message::le32(bytes, p + 8)
    &&& obfuscated_port == bytes[p + 12] + 0x100 * bytes[p + 13]
}

impl GetPeerAddressHandler {
    pub fn get_code(&self) -> (r: u32)
        ensures
            r == 3,
    {
        3
    }

    /// Where the peer can be reached; `None` where that is not told in full.
    pub fn handle(&self, message: &mut Message) -> (r: Option<ServerMessage>)
        ensures
            match r {
                Some(m) => {
                    &&& address_answer_at(old(message)@.bytes, old(message)@.at)
                    &&& address_answer_is(old(message)@.bytes, old(message)@.at, m)
                },
                None => !address_answer_at(old(message)@.bytes, old(message)@.at),
            },
    {
        let username = match message.try_read_string() {
            Some(x) => x,
            None => {
                return None;
            },
        };
        let host = match read_address(message) {
            Some(x) => x,
            None => {
                return None;
            },
        };
        let port: u32 = match message.try_read_int32() {
            Some(x) => x,
            None => {
                return None;
            },
        };
        let obfuscation_type: u32 = match message.try_read_int32() {
            Some(x) => x,
            None => {
                return None;
            },
        };
        let low: u8 = match message.try_read_int8() {
            Some(x) => x,
            None => {
                return None;
            },
        };
        let high: u8 = match message.try_read_int8() {
            Some(x) => x,
            None => {
                return None;
            },
        };
        Some(
            ServerMessage::GetPeerAddressResponse {
                username,
                host,
                port,
                obfuscation_type,
                obfuscated_port: low as u16 + 0x100 * (high as u16),
            },
        )
    }
}

/// Another user searches.
#[derive(Debug, Clone, Copy, PartialEq, Eq, Structural)]
pub struct FileSearchHandler;

/// A search of another user: its name, a number and the words.
#[derive(Debug)]
pub struct ForeignSearch {
    pub username: String,
    pub token: u32,
    pub query: String,
}

impl FileSearchHandler {
    pub fn get_code(&self) -> (r: u32)
        ensures
            r == 26,
    {
        26
    }

    /// Who searches for what.
    pub fn handle(&self, message: &mut Message) -> (r: ForeignSearch)
        requires
            old(message)@.holds(seq![Field::Text, Field::Int32, Field::Text]),
        ensures
            ({
                let bytes = old(message)@.bytes;
                let at = old(message)@.at;
                let after_name = super::message::field_end(bytes, at, Field::Text)->0;
                &&& r.username@ == super::message::text_at(bytes, at)
                &&& r.token == super::message::le32(bytes, after_name)
                &&& r.query@ == super::message::text_at(bytes, after_name + 4)
                &&& final(message)@ == old(message)@.at_place(
                    super::message::field_end(bytes, after_name + 4, Field::Text)->0,
                )
            }),
    {
        proof {
            let f = seq![Field::Text, Field::Int32, Field::Text];
            reveal_with_fuel(super::message::fields_end, 4);
            assert(f.skip(1).skip(1) =~= f.skip(2));
            assert(f.skip(1).skip(1).skip(1) =~= Seq::empty());
        }
        let username = match message.try_read_string() {
            Some(x) => x,
            None => String::new(),
        };
        let token: u32 = match message.try_read_int32() {
            Some(x) => x,
            None => 0,
        };
        let query = match message.try_read_string() {
            Some(x) => x,
            None => String::new(),
        };
        ForeignSearch { username, token, query }
    }
}

/// The least speed of a parent in the search network.
#[derive(Debug, Clone, Copy, PartialEq, Eq, Structural)]
pub struct ParentMinSpeedHandler;

impl ParentMinSpeedHandler {
    pub fn get_code(&self) -> (r: u32)
        ensures
            r == 83,
    {
        83
    }

    /// The speed.
    pub fn handle(&self, message: &mut Message) -> (r: u32)
        requires
            old(message)@.holds(seq![Field::Int32]),
        ensures
            r == super::message::le32(old(message)@.bytes, old(message)@.at),
            final(message)@ == old(message)@.past(Field::Int32),
    {
        message.read_int32()
    }
}

/// The users with privileges.
#[derive(Debug, Clone, Copy, PartialEq, Eq, Structural)]
pub struct PrivilegedUsersHandler;

impl PrivilegedUsersHandler {
    pub fn get_code(&self) -> (r: u32)
        ensures
            r == 69,
    {
        69
    }

    /// How many there are.
    pub fn handle(&self, message: &mut Message) -> (r: u32)
        requires
            old(message)@.holds(seq![Field::Int32]),
        ensures
            r == super::message::le32(old(message)@.bytes, old(message)@.at),
            final(message)@ == old(message)@.past(Field::Int32),
    {
        message.read_int32()
    }
}

/// What a frame from the server, its length and code included, has the actor do.
/// A frame that is cut short, or of another code, has it do nothing.
pub open spec fn server_says(frame: Seq<u8>, out: Option<ServerMessage>) -> bool {
    if frame.len() < 8 {
        out is None
    } else if super::message::le32(frame, 4) == 1 {
        if login_answer_at(frame, 8) {
            out == Some(ServerMessage::LoginStatus(frame[8] == 1))
        } else {
            out is None
        }
    } else if super::message::le32(frame, 4) == 3 {
        if address_answer_at(frame, 8) {
            out matches Some(m) && address_answer_is(frame, 8, m)
        } else {
            out is None
        }
    } else if super::message::le32(frame, 4) == 18 {
        if super::peer::peer_described(frame, 8) {
            out matches Some(ServerMessage::ConnectToPeer(peer)) && super::peer::peer_described_as(
                frame,
                8,
                peer,
            )
        } else {
            out is None
        }
    } else {
        out is None
    }
}

/// Whether a whole answer to a login stands at the place of the next read.
fn login_answer_stands(message: &mut Message) -> (r: bool)
    ensures
        r == login_answer_at(old(message)@.bytes, old(message)@.at),
        final(message)@ == old(message)@,
{
    proof {
        message.lemma_bounds();
    }
    let start: usize = message.get_pointer();
    match message.try_read_int8() {
        Some(1) => {
            let mut fields: Vec<Field> = Vec::new();
            fields.push(Field::Text);
            fields.push(Field::Int32);
            fields.push(Field::Text);
            fields.push(Field::Int8);
            assert(fields@ =~= welcome_fields());
            let whole: bool = message.holds(&fields);
            message.set_pointer(start);
            whole
        },
        Some(_) => {
            message.set_pointer(start);
            true
        },
        None => false,
    }
}

/// What a frame from the server has the actor do.
pub fn dispatch_server(message: &mut Message) -> (r: Option<ServerMessage>)
    ensures
        server_says(old(message)@.bytes, r),
{
    message.set_pointer(4);
    let code: u32 = match message.try_read_int32() {
        Some(x) => x,
        None => {
            return None;
        },
    };
    if code == 1 {
        if login_answer_stands(message) {
            Some(LoginHandler.handle(message))
        } else {
            None
        }
    } else if code == 3 {
        GetPeerAddressHandler.handle(message)
    } else if code == 18 {
        ConnectToPeerHandler.handle(message)
    } else {
        None
    }
}

// ---- from a peer ------------------------------------------------------------------------

/// A peer wants the list of our files.
#[derive(Debug, Clone, Copy, PartialEq, Eq, Structural)]
pub struct GetShareFileList;

impl GetShareFileList {
    pub fn get_code(&self) -> (r: u32)
        ensures
            r == 4,
    {
        4
    }

    /// It is told how much we share.
    pub fn handle(&self) -> (r: PeerMessage)
        ensures
            r == PeerMessage::SendMessage(Request::SharedFolders { folders: 100, files: 800 }),
    {
        PeerMessage::SendMessage(Request::SharedFolders { folders: 100, files: 800 })
    }
}

/// Our place in a peer's queue.
#[derive(Debug, Clone, Copy, PartialEq, Eq, Structural)]
pub struct PlaceInQueueResponse;

impl PlaceInQueueResponse {
    pub fn get_code(&self) -> (r: u32)
        ensures
            r == 43,
    {
        43
    }

    /// The file and our place.
    pub fn handle(&self, message: &mut Message) -> (r: PeerMessage)
        requires
            old(message)@.holds(seq![Field::Text, Field::Int32]),
        ensures
            ({
                let bytes = old(message)@.bytes;
                let at = old(message)@.at;
                let after_name = super::message::field_end(bytes, at, Field::Text)->0;
                &&& r matches PeerMessage::PlaceInQueueResponse { filename, place }
                &&& filename@ == super::message::text_at(bytes, at)
                &&& place == super::message::le32(bytes, after_name)
                &&& final(message)@ == old(message)@.at_place(after_name + 4)
            }),
    {
        proof {
            let f = seq![Field::Text, Field::Int32];
            reveal_with_fuel(super::message::fields_end, 3);
            assert(f.skip(1).skip(1) =~= Seq::empty());
        }
        let filename = match message.try_read_string() {
            Some(x) => x,
            None => String::new(),
        };
        let place: u32 = match message.try_read_int32() {
            Some(x) => x,
            None => 0,
        };
        PeerMessage::PlaceInQueueResponse { filename, place }
    }
}

/// A peer proposes a transfer.
#[derive(Debug, Clone, Copy, PartialEq, Eq, Structural)]
pub struct TransferRequest;

impl TransferRequest {
    pub fn get_code(&self) -> (r: u32)
        ensures
            r == 40,
    {
        40
    }

    /// The transfer.
    pub fn handle(&self, message: &mut Message) -> (r: PeerMessage)
        requires
            old(message)@.holds(super::types::transfer_fields()),
        ensures
            r matches PeerMessage::TransferRequest(transfer) && super::types::transfer_at(
                old(message)@.bytes,
                old(message)@.at,
                transfer,
            ),
            final(message)@ == old(message)@.at_place(
                super::message::fields_end(
                    old(message)@.bytes,
                    old(message)@.at,
                    super::types::transfer_fields(),
                )->0,
            ),
    {
        PeerMessage::TransferRequest(Transfer::new_from_message(message))
    }
}

/// A peer answers a transfer that we proposed.
#[derive(Debug, Clone, Copy, PartialEq, Eq, Structural)]
pub struct TransferResponse;

/// A whole answer to a proposed transfer stands at `at`: the token, whether it is
/// allowed and, where it is not, the reason.
pub open spec fn transfer_answer_at(bytes: Seq<u8>, at: int) -> bool {
    &&& at + 5 <= bytes.len()
    &&& bytes[at + 4] == 0 ==> super::message::field_end(bytes, at + 5, Field::Text) is Some
}

/// The answer to a proposed transfer that stands at `at`.
pub open spec fn transfer_answer_is(bytes: Seq<u8>, at: int, m: PeerMessage) -> bool {
    &&& m matches PeerMessage::TransferResponse { token, allowed, reason }
    &&& token == super::message::le32(bytes, at)
    &&& allowed == (bytes[at + 4] == 1)
    &&& match reason {
        Some(text) => bytes[at + 4] == 0 && text@ == super::message::text_at(bytes, at + 5),
        None => bytes[at + 4] != 0,
    }
}

impl TransferResponse {
    pub fn get_code(&self) -> (r: u32)
        ensures
            r == 41,
    {
        41
    }

    /// Whether the transfer is allowed.
    pub fn handle(&self, message: &mut Message) -> (r: PeerMessage)
        requires
            transfer_answer_at(old(message)@.bytes, old(message)@.at),
        ensures
            transfer_answer_is(old(message)@.bytes, old(message)@.at, r),
            final(message)@.bytes == old(message)@.bytes,
    {
        proof {
            message.lemma_bounds();
        }
        let token: u32 = match message.try_read_int32() {
            Some(x) => x,
            None => 0,
        };
        let allowed: u8 = match message.try_read_int8() {
            Some(x) => x,
            None => 0,
        };
        let reason = if allowed == 0 {
            message.try_read_string()
        } else {
            None
        };
        PeerMessage::TransferResponse { token, allowed: allowed == 1, reason }
    }
}

/// A peer could not send us a file.
#[derive(Debug, Clone, Copy, PartialEq, Eq, Structural)]
pub struct UploadFailedHandler;

impl UploadFailedHandler {
    pub fn get_code(&self) -> (r: u32)
        ensures
            r == 46,
    {
        46
    }

    /// The file; it is only logged.
    pub fn handle(&self, message: &mut Message) -> (r: UploadFailed)
        requires
            old(message)@.holds(seq![Field::Text]),
        ensures
            r.filename@ == super::message::text_at(old(message)@.bytes, old(message)@.at),
            final(message)@ == old(message)@.past(Field::Text),
    {
        UploadFailed::new_from_message(message)
    }
}

/// The code of a peer's answer to a search.
pub const FILE_SEARCH_RESPONSE: u32 = 9;

/// What a frame from a peer, its length and code included, has the actor do. A
/// frame that is cut short, or of another code, has it do nothing.
pub open spec fn peer_says(frame: Seq<u8>, out: Option<PeerMessage>) -> bool {
    if frame.len() < 8 {
        out is None
    } else {
        let code = super::message::le32(frame, 4);
        if code == 4 {
            out == Some(
                PeerMessage::SendMessage(Request::SharedFolders { folders: 100, files: 800 }),
            )
        } else if code == FILE_SEARCH_RESPONSE {
            match super::types::inflated(frame.skip(8)) {
                Some(data) => match super::types::answer_in(data) {
                    Some(answer) => out matches Some(PeerMessage::FileSearchResult(r)) && r@
                        == answer,
                    None => out is None,
                },
                None => out is None,
            }
        } else if code == 40 {
            if super::message::fields_end(frame, 8, super::types::transfer_fields()) is Some {
                out matches Some(PeerMessage::TransferRequest(t)) && super::types::transfer_at(
                    frame,
                    8,
                    t,
                )
            } else {
                out is None
            }
        } else if code == 41 {
            if transfer_answer_at(frame, 8) {
                out matches Some(m) && transfer_answer_is(frame, 8, m)
            } else {
                out is None
            }
        } else if code == 43 {
            if super::message::fields_end(frame, 8, seq![Field::Text, Field::Int32]) is Some {
                &&& out matches Some(PeerMessage::PlaceInQueueResponse { filename, place })
                &&& filename@ == super::message::text_at(frame, 8)
                &&& place == super::message::le32(
                    frame,
                    super::message::field_end(frame, 8, Field::Text)->0,
                )
            } else {
                out is None
            }
        } else {
            out is None
        }
    }
}

/// Whether a whole answer to a proposed transfer stands at the place of the next
/// read.
fn transfer_answer_stands(message: &mut Message) -> (r: bool)
    ensures
        r == transfer_answer_at(old(message)@.bytes, old(message)@.at),
        final(message)@ == old(message)@,
{
    proof {
        message.lemma_bounds();
    }
    let start: usize = message.get_pointer();
    if message.try_read_int32().is_none() {
        return false;
    }
    let whole: bool = match message.try_read_int8() {
        Some(0) => message.try_read_string().is_some(),
        Some(_) => true,
        None => false,
    };
    message.set_pointer(start);
    whole
}

/// What a frame from a peer has the actor do.
pub fn dispatch_peer(message: &mut Message) -> (r: Option<PeerMessage>)
    ensures
        peer_says(old(message)@.bytes, r),
{
    message.set_pointer(4);
    let code: u32 = match message.try_read_int32() {
        Some(x) => x,
        None => {
            return None;
        },
    };
    if code == 4 {
        Some(GetShareFileList.handle())
    } else if code == FILE_SEARCH_RESPONSE {
        assert(message@.bytes.skip(8) =~= message@.bytes.skip(message@.at));
        match SearchResult::try_new_from_message(message) {
            Some(Ok(result)) => Some(PeerMessage::FileSearchResult(result)),
            _ => None,
        }
    } else if code == 40 {
        let mut fields: Vec<Field> = Vec::new();
        fields.push(Field::Int32);
        fields.push(Field::Int32);
        fields.push(Field::Text);
        fields.push(Field::Int64);
        assert(fields@ =~= super::types::transfer_fields());
        if message.holds(&fields) {
            Some(TransferRequest.handle(message))
        } else {
            None
        }
    } else if code == 41 {
        if transfer_answer_stands(message) {
            Some(TransferResponse.handle(message))
        } else {
            None
        }
    } else if code == 43 {
        let mut fields: Vec<Field> = Vec::new();
        fields.push(Field::Text);
        fields.push(Field::Int32);
        assert(fields@ =~= seq![Field::Text, Field::Int32]);
        if message.holds(&fields) {
            Some(PlaceInQueueResponse.handle(message))
        } else {
            None
        }
    } else {
        None
    }
}

} // verus!
