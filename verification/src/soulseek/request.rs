//! What we send to the server and to peers, and its form on the wire.
use vstd::prelude::*;

use super::message::Message;
use super::path::SoulseekPath;
use super::types::Transfer;
use crate::md5::md5;
use crate::text::append_str;

verus! {

/// What we ask of the server or a peer.
#[derive(Debug)]
pub enum Request {
    Login { username: String, password: String },
    SetWaitPort { port: u32 },
    GetPeerAddress { username: String },
    FileSearch { token: u32, query: String },
    SetStatus { status: u32 },
    SharedFolders { folders: u32, files: u32 },
    NoParent,
    PierceFirewall { token: u32 },
    WatchUser { username: String },
    TransferRequest { filename: SoulseekPath, token: u32 },
    TransferResponse { transfer: Transfer },
    QueueUpload { filename: SoulseekPath },
}

/// The version of the protocol that we name at login.
pub const PROTOCOL_VERSION: u32 = 160;

/// The version of this client that we name at login.
pub const CLIENT_VERSION: u32 = 1;

/// The bytes of a request, its code first.
pub open spec fn request_bytes(request: Request) -> Seq<u8> {
    match request {
        Request::Login { username, password } => super::message::le32_bytes(1)
            + super::message::text_bytes(username@) + super::message::text_bytes(password@)
            + super::message::le32_bytes(PROTOCOL_VERSION) + super::message::text_bytes(
            crate::md5::md5_text(username@ + password@),
        ) + super::message::le32_bytes(CLIENT_VERSION),
        Request::SetWaitPort { port } => super::message::le32_bytes(2) + super::message::le32_bytes(
            port,
        ),
        Request::GetPeerAddress { username } => super::message::le32_bytes(3)
            + super::message::text_bytes(username@),
        Request::FileSearch { token, query } => super::message::le32_bytes(26)
            + super::message::le32_bytes(token) + super::message::text_bytes(query@),
        Request::SetStatus { status } => super::message::le32_bytes(28)
            + super::message::le32_bytes(status),
        Request::SharedFolders { folders, files } => super::message::le32_bytes(35)
            + super::message::le32_bytes(folders) + super::message::le32_bytes(files),
        Request::NoParent => super::message::le32_bytes(71).push(1),
        Request::PierceFirewall { token } => seq![0u8] + super::message::le32_bytes(token),
        Request::WatchUser { username } => super::message::le32_bytes(5)
            + super::message::text_bytes(username@),
        Request::TransferRequest { filename, token } => super::message::le32_bytes(40)
            + super::message::le32_bytes(0) + super::message::le32_bytes(token)
            + super::message::text_bytes(filename@),
        Request::TransferResponse { transfer } => super::message::le32_bytes(41)
            + super::message::le32_bytes(transfer.token.0) + seq![1u8]
            + super::message::le64_bytes(transfer.size),
        Request::QueueUpload { filename } => super::message::le32_bytes(43)
            + super::message::text_bytes(filename@),
    }
}

/// A text that fits on the wire.
pub open spec fn fits(s: Seq<char>) -> bool {
    vstd::utf8::encode_utf8(s).len() <= u32::MAX
}

/// The texts of a request fit on the wire.
pub open spec fn request_fits(request: Request) -> bool {
    match request {
        Request::Login { username, password } => {
            &&& fits(username@)
            &&& fits(password@)
            &&& vstd::utf8::encode_utf8(username@ + password@).len() <= usize::MAX - 128
        },
        Request::GetPeerAddress { username } => fits(username@),
        Request::FileSearch { query, .. } => fits(query@),
        Request::WatchUser { username } => fits(username@),
        Request::TransferRequest { filename, .. } => fits(filename@),
        Request::QueueUpload { filename } => fits(filename@),
        _ => true,
    }
}

impl Request {
    /// The message that carries the request.
    pub fn to_message(&self) -> (r: Message)
        requires
            request_fits(*self),
        ensures
            r@.bytes == request_bytes(*self),
            r@.at == 0,
    {
        let mut m = Message::new();
        match self {
            Request::Login { username, password } => {
                m.write_int32(1);
                m.write_string(username.as_str());
                m.write_string(password.as_str());
                m.write_int32(PROTOCOL_VERSION);
                let both = append_str(username.as_str(), password.as_str());
                proof {
                    crate::md5::lemma_md5_text_length(both@);
                }
                m.write_string(md5(both.as_str()).as_str());
                m.write_int32(CLIENT_VERSION);
            },
            Request::SetWaitPort { port } => {
                m.write_int32(2);
                m.write_int32(*port);
            },
            Request::GetPeerAddress { username } => {
                m.write_int32(3);
                m.write_string(username.as_str());
            },
            Request::FileSearch { token, query } => {
                m.write_int32(26);
                m.write_int32(*token);
                m.write_string(query.as_str());
            },
            Request::SetStatus { status } => {
                m.write_int32(28);
                m.write_int32(*status);
            },
            Request::SharedFolders { folders, files } => {
                m.write_int32(35);
                m.write_int32(*folders);
                m.write_int32(*files);
            },
            Request::NoParent => {
                m.write_int32(71);
                m.write_int8(1);
            },
            Request::PierceFirewall { token } => {
                m.write_int8(0);
                m.write_int32(*token);
            },
            Request::WatchUser { username } => {
                m.write_int32(5);
                m.write_string(username.as_str());
            },
            Request::TransferRequest { filename, token } => {
                m.write_int32(40);
                m.write_int32(0);
                m.write_int32(*token);
                m.write_string(filename.as_str());
            },
            Request::TransferResponse { transfer } => {
                m.write_int32(41);
                m.write_int32(transfer.token.0);
                m.write_int8(1);
                m.write_int64(transfer.size);
            },
            Request::QueueUpload { filename } => {
                m.write_int32(43);
                m.write_string(filename.as_str());
            },
        }
        assert(m@.bytes =~= request_bytes(*self));
        m
    }
}

} // verus!
