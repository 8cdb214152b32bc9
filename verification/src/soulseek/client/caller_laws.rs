//! What a caller of the client can rely on, told by what it asks and what it gets.
use vstd::prelude::*;

use super::context::OperationChannel;
use super::handle::{DownloadHandle, RecvOutcome};
use super::session::LoginAnswer;
use super::slot_client::{Client, ConnectPlan, DownloadPlan, SearchPlan};
use super::slots::{CancelFlag, PiercedFailure, SlotOperation, TrackedDownload};
use crate::soulseek::actor::server_actor::ServerMessage;
use crate::soulseek::download_peer::DownloadError;
use crate::soulseek::error::{Result, SoulseekRs};
use crate::soulseek::path::SoulseekPath;
use crate::soulseek::token::{DownloadToken, PeerTransferToken};
use crate::soulseek::types::{DownloadStatus, StatusChannel};
use crate::time::Duration;

verus! {

/// A request for a file goes to the worker as it was made, where there is one; the download
/// that is followed, the handle and the request all go by one token, and nothing is
/// cancelled yet.
pub proof fn lemma_request_reaches_the_worker(
    c: &mut Client,
    filename: SoulseekPath,
    username: String,
    size: u64,
    download_directory: String,
    progress_timeout: Option<Duration>,
    recv_timeout: Option<Duration>,
    channel: StatusChannel,
    cancel: CancelFlag,
    r: DownloadPlan,
)
    requires
        call_ensures(
            Client::download,
            (
                c,
                filename,
                username,
                size,
                download_directory,
                progress_timeout,
                recv_timeout,
                channel,
                cancel,
            ),
            r,
        ),
    ensures
        r.download.download.token == r.handle.token,
        r.download.download.filename == filename,
        r.download.download.username == username,
        r.download.download.size == size,
        r.download.download.download_directory == download_directory,
        r.download.download.sender == channel,
        r.download.download.status == DownloadStatus::Queued,
        r.download.peer_token is None,
        r.download.cancel == cancel,
        r.download.progress_timeout == progress_timeout,
        !r.handle.cancelled,
        r.handle.progress_timeout == progress_timeout,
        r.handle.recv_timeout == recv_timeout,
        r.to_worker is None <==> old(c).inner.active is None,
        r.handle.op_tx is None <==> old(c).inner.active is None,
        old(c).inner.active matches Some(a) ==> {
            &&& r.handle.op_tx == Some(a.op_tx)
            &&& r.to_worker matches Some((to, op))
            &&& to == a.op_tx
            &&& op matches SlotOperation::RequestDownload(q)
            &&& q.pending.filename == filename
            &&& q.pending.username == username
            &&& q.pending.size == size
            &&& q.pending.download_directory == download_directory
            &&& q.pending.status_sender == channel
            &&& q.pending.token == r.handle.token
            &&& q.cancel == cancel
            &&& q.progress_timeout == progress_timeout
        },
{
}

/// A search goes to the worker and to the server under one token and with the same words;
/// without a connection it is refused.
pub proof fn lemma_search_reaches_worker_and_server(c: &mut Client, query: &str, r: Result<
    SearchPlan,
>)
    requires
        call_ensures(Client::search, (c, query), r),
    ensures
        match old(c).inner.active {
            Some(a) => {
                &&& r matches Ok(plan)
                &&& plan.active == a
                &&& plan.to_worker matches SlotOperation::InitiateSearch(t, q)
                &&& plan.to_server matches ServerMessage::FileSearch { token, query: words }
                &&& t == token
                &&& q@ == query@
                &&& words@ == query@
            },
            None => r == Err::<SearchPlan, SoulseekRs>(SoulseekRs::NotConnected),
        },
{
}

/// A client that connects hands on what its settings say, and every download that was asked
/// for before; one that is connected does not connect again.
pub proof fn lemma_connecting_hands_on_the_settings(c: &mut Client, r: Option<ConnectPlan>)
    requires
        call_ensures(Client::connect, (c,), r),
    ensures
        r is None <==> old(c).inner.state == super::session::ClientState::Connected,
        r matches Some(plan) ==> {
            &&& plan.request.username == old(c).settings.username.0
            &&& plan.request.password == old(c).settings.password.0
            &&& plan.request.server_address == old(c).settings.server_address
            &&& plan.request.listen_port == old(c).settings.listen_port
            &&& plan.request.enable_listen == old(c).settings.enable_listen
            &&& plan.request.tcp_keepalive == old(c).settings.tcp_keepalive_settings
            &&& plan.request.reconnect == old(c).settings.reconnect_settings
            &&& plan.pre_pending@ == old(c).inner.pending_downloads@
            &&& plan.max_concurrent is Some
                <==> old(c).settings.download_rate_limit_settings is Some
            &&& old(c).settings.download_rate_limit_settings matches Some(s)
                ==> plan.max_concurrent == Some(s.concurrent_downloads)
        },
{
}

/// Whoever connects is told that it went well exactly where the server accepted the login,
/// and that the login was refused exactly where the server refused it.
pub proof fn lemma_login_is_answered(answer: LoginAnswer, r: Result<()>)
    requires
        call_ensures(Client::login_answered, (answer,), r),
    ensures
        r is Ok <==> (answer matches LoginAnswer::Answered(Ok(accepted)) && accepted),
        answer matches LoginAnswer::Answered(Ok(false)) ==> r == Err::<(), SoulseekRs>(
            SoulseekRs::AuthenticationFailed,
        ),
        answer is Dropped ==> r == Err::<(), SoulseekRs>(SoulseekRs::Timeout),
{
}

/// A caller that waits hears what there is to hear; a wait that takes too long counts as
/// word that the download was cancelled, and a download that ended without a word as none.
pub proof fn lemma_waiting_caller_hears(
    h: &mut DownloadHandle,
    heard: Option<Option<DownloadStatus>>,
    r: Option<DownloadStatus>,
    typed: RecvOutcome,
)
    requires
        call_ensures(DownloadHandle::recv, (h, heard), r),
        call_ensures(DownloadHandle::recv_typed, (h, heard), typed),
    ensures
        heard matches Some(Some(status)) ==> r == Some(status) && typed == RecvOutcome::Status(
            status,
        ),
        heard matches Some(None) ==> r is None && typed is Closed,
        heard is None ==> r == Some(DownloadStatus::Cancelled) && typed is Timeout,
{
}

/// A caller waits as long as it said, or three minutes.
pub proof fn lemma_caller_waits_as_long_as_it_said(h: DownloadHandle, r: Duration)
    requires
        call_ensures(DownloadHandle::recv_limit, (&h,), r),
    ensures
        r@ == match h.recv_timeout {
            Some(d) => d@,
            None => 180_000_000_000,
        },
{
}

/// A caller that lets go of its download has it cancelled: the worker is told, where there
/// is one, and by the token of that download.
pub proof fn lemma_letting_go_cancels(
    h: &mut DownloadHandle,
    r: Option<(OperationChannel, SlotOperation)>,
)
    requires
        call_ensures(DownloadHandle::dropped, (h,), r),
    ensures
        r is Some <==> old(h).op_tx is Some,
        r matches Some((to, op)) ==> old(h).op_tx == Some(to) && op
            == SlotOperation::CancelDownload(old(h).token),
{
}

/// A fetch of a file that the peer named is told of under the token of the download that
/// the peer's number belongs to, or else of the one that it was started for. One that went
/// well is told of with its path; one that was cancelled or took too long as just that, and
/// any other failure in words.
pub proof fn lemma_end_of_a_pierced_fetch_is_told(
    candidates: Vec<TrackedDownload>,
    initiating: Option<DownloadToken>,
    number: PeerTransferToken,
    error: DownloadError,
    i: int,
    r: Option<SlotOperation>,
)
    requires
        0 <= i < candidates@.len(),
        candidates@[i].peer_token == Some(number),
        forall|j: int| 0 <= j < i ==> (#[trigger] candidates@[j]).peer_token != Some(number),
        call_ensures(
            super::slots::pierced_fetch_ended,
            (
                &candidates,
                initiating,
                Err::<(DownloadToken, String), PiercedFailure>(
                    PiercedFailure { peer_token: Some(number), error },
                ),
            ),
            r,
        ),
    ensures
        r matches Some(SlotOperation::DownloadCompleted(token, Err(e))) && token
            == candidates@[i].download.token && (e == SoulseekRs::DownloadCancelled <==> error
            == DownloadError::Cancelled) && (e == SoulseekRs::DownloadTimedOut <==> error
            == DownloadError::NoProgressTimeout) && (e is InvalidMessage <==> error
            != DownloadError::Cancelled && error != DownloadError::NoProgressTimeout),
{
    crate::lists::lemma_first_where_is(candidates@, super::slots::has_peer_token(number), i);
}

/// A fetch that fails before the peer has named a file is told of, in words, under the
/// token of the download that it was started for, and not at all where there is none; one
/// that went well is told of with its own token and path.
pub proof fn lemma_end_of_an_unnamed_fetch_is_told(
    candidates: Vec<TrackedDownload>,
    initiating: Option<DownloadToken>,
    error: DownloadError,
    token: DownloadToken,
    path: String,
    failed: Option<SlotOperation>,
    done: Option<SlotOperation>,
)
    requires
        call_ensures(
            super::slots::pierced_fetch_ended,
            (
                &candidates,
                initiating,
                Err::<(DownloadToken, String), PiercedFailure>(
                    PiercedFailure { peer_token: None, error },
                ),
            ),
            failed,
        ),
        call_ensures(
            super::slots::pierced_fetch_ended,
            (&candidates, initiating, Ok::<(DownloadToken, String), PiercedFailure>((token, path))),
            done,
        ),
    ensures
        failed is Some <==> initiating is Some,
        failed matches Some(op) ==> (op matches SlotOperation::DownloadCompleted(t, Err(e))
            && initiating == Some(t) && e is InvalidMessage),
        done == Some(SlotOperation::DownloadCompleted(token, Ok(path))),
{
}

} // verus!
