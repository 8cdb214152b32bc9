//! What the actor of a peer connection is asked to do.
use vstd::prelude::*;

use crate::soulseek::path::SoulseekPath;
use crate::soulseek::request::Request;
use crate::soulseek::types::{Download, SearchResult, Transfer};

verus! {

/// What the actor of a peer connection is asked to do.
#[derive(Debug)]
pub enum PeerMessage {
    SendMessage(Request),
    FileSearchResult(SearchResult),
    TransferRequest(Transfer),
    UploadFailed(String, SoulseekPath),
    TransferResponse { token: u32, allowed: bool, reason: Option<String> },
    PlaceInQueueResponse { filename: String, place: u32 },
    SetUsername(String),
    QueueUpload(SoulseekPath),
    RequestTransfer(Download),
    ProcessRead,
}

} // verus!
