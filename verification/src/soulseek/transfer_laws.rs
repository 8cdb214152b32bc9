//! How files are fetched, told by what comes and what is done.
use vstd::prelude::*;

use super::download_peer::{DownloadError, DownloadPeer, Progress};
use super::fetch::{FetchEvent, FetchModel, FetchStage, Patience, StepModel};
use super::listen::{Incoming, IncomingAction, IncomingQuery};
use super::peer::Peer;
use super::token::DownloadToken;
use super::types::{Download, DownloadStatus};
use crate::time::Duration;

verus! {

// ---- peers that connect to us -------------------------------------------------------------

/// A peer that connects as we asked it to is fetched from: the first download with the
/// token, from where the peer is, in our own name.
pub proof fn lemma_pierced_file_is_fetched(
    token: DownloadToken,
    peer: Peer,
    context: super::client::context::ContextModel,
    own_username: String,
    action: IncomingAction,
    i: int,
)
    requires
        0 <= i < context.downloads.len(),
        context.downloads[i].token == token,
        forall|j: int| 0 <= j < i ==> (#[trigger] context.downloads[j]).token != token,
        super::listen::is_action_for(
            Incoming::PierceFirewall { token, peer },
            context,
            own_username,
            action,
        ),
    ensures
        action matches IncomingAction::Fetch { download, from } && download == Some(
            context.downloads[i],
        ) && from.username == peer.username && from.host == peer.host && from.port == peer.port
            && from.own_username == own_username && from.token == token.0,
{
    crate::lists::lemma_first_where_is(
        context.downloads,
        super::client::context::has_token(token),
        i,
    );
}

/// A peer that sends a file over its own connection may: the file is the first download
/// with the token that it sent, where there is one, and it is fetched from where the peer
/// is, under the token of the connection and with `:direct` after the peer's name.
pub proof fn lemma_sent_file_is_fetched(
    peer: Peer,
    connection_token: u32,
    token: DownloadToken,
    context: super::client::context::ContextModel,
    own_username: String,
    action: IncomingAction,
    i: int,
)
    requires
        super::listen::is_action_for(
            Incoming::File { peer, connection_token, download_token: Some(token) },
            context,
            own_username,
            action,
        ),
    ensures
        action matches IncomingAction::Fetch { download, from } && from.username@
            == peer.username@ + ":direct"@ && from.host == peer.host && from.port == peer.port
            && from.own_username == own_username && from.token
            == connection_token && (0 <= i < context.downloads.len() && context.downloads[i].token
            == token && (forall|j: int|
            0 <= j < i ==> (#[trigger] context.downloads[j]).token != token) ==> download == Some(
            context.downloads[i],
        )) && ((forall|j: int|
            0 <= j < context.downloads.len() ==> (#[trigger] context.downloads[j]).token != token)
            ==> download is None),
{
    let p = super::client::context::has_token(token);
    if 0 <= i < context.downloads.len() && context.downloads[i].token == token && (forall|j: int|
        0 <= j < i ==> (#[trigger] context.downloads[j]).token != token) {
        crate::lists::lemma_first_where_is(context.downloads, p, i);
    }
    if forall|j: int|
        0 <= j < context.downloads.len() ==> (#[trigger] context.downloads[j]).token != token {
        crate::lists::lemma_first_where_none(context.downloads, p);
    }
}

/// A peer that wants to exchange messages is registered where peers are registered at all;
/// one that wants what we do not know, or says nothing that can be read, is dropped.
pub proof fn lemma_other_peers_are_registered_or_dropped(
    peer: Peer,
    context: super::client::context::ContextModel,
    own_username: String,
    action: IncomingAction,
)
    ensures
        super::listen::is_action_for(Incoming::Messages { peer }, context, own_username, action)
            <==> if context.peer_registry is Some {
            action == (IncomingAction::Register { peer })
        } else {
            action == IncomingAction::Drop
        },
        super::listen::is_action_for(Incoming::Unsupported, context, own_username, action)
            <==> action == IncomingAction::Drop,
        super::listen::is_action_for(Incoming::Invalid, context, own_username, action) <==> action
            == IncomingAction::Drop,
{
}

/// Where a worker keeps the downloads, it is asked for the one with the token that the peer
/// gave; without a token a file is not fetched.
pub proof fn lemma_worker_is_asked(
    peer: Peer,
    token: DownloadToken,
    connection_token: u32,
    own_username: String,
)
    ensures
        super::listen::query_for(Incoming::PierceFirewall { token, peer }, own_username) == (
        IncomingQuery::Ask {
            token,
            from: DownloadPeer {
                username: peer.username,
                host: peer.host,
                port: peer.port,
                own_username,
                token: token.0,
            },
        }),
        super::listen::query_for(
            Incoming::File { peer, connection_token, download_token: Some(token) },
            own_username,
        ) == (IncomingQuery::Ask {
            token,
            from: DownloadPeer {
                username: peer.username,
                host: peer.host,
                port: peer.port,
                own_username,
                token: connection_token,
            },
        }),
        super::listen::query_for(
            Incoming::File { peer, connection_token, download_token: None },
            own_username,
        ) is Drop,
        super::listen::query_for(Incoming::Messages { peer }, own_username) == (
        IncomingQuery::Register { peer }),
        super::listen::query_for(Incoming::Unsupported, own_username) is Drop,
        super::listen::query_for(Incoming::Invalid, own_username) is Drop,
{
}

// ---- one fetch ----------------------------------------------------------------------------

/// A fetch that fails ends with an error that says what failed: the connection, the
/// handshake, reading from the peer, writing to it, or writing the file.
pub proof fn lemma_failure_says_what_failed(f: FetchModel, reason: String)
    requires
        f.expects(FetchEvent::Failed { reason }),
    ensures
        ({
            let (after, steps) = f.next(FetchEvent::Failed { reason });
            &&& after.stage is Over
            &&& steps.len() == 1
            &&& steps[0] matches StepModel::Finish { outcome }
            &&& outcome matches Err(e)
            &&& e == DownloadError::ConnectionFailed(reason) <==> f.stage is Connecting
            &&& e == DownloadError::HandshakeFailed(reason) <==> f.stage is Shaking
            &&& e == DownloadError::StreamReadError(reason) <==> f.stage is ReadingFirst
                || f.stage is Reading
            &&& e == DownloadError::StreamWriteError(reason) <==> f.stage is Starting
            &&& e == DownloadError::FileWriteError(reason) <==> f.stage is Opening
                || f.stage is WritingFirst || f.stage is Writing || f.stage is Flushing
        }),
{
}

/// A fetch that is cancelled, or in which nothing comes for too long, ends and says which.
pub proof fn lemma_broken_off_fetch_says_why(f: FetchModel)
    requires
        f.stage is Reading,
    ensures
        ({
            let (after, steps) = f.next(FetchEvent::Cancelled);
            &&& after.stage is Over
            &&& steps.len() == 1
            &&& steps[0] == (StepModel::Finish { outcome: Err(DownloadError::Cancelled) })
        }),
        ({
            let (after, steps) = f.next(FetchEvent::Stalled);
            &&& after.stage is Over
            &&& steps.len() == 1
            &&& steps[0] == (StepModel::Finish { outcome: Err(DownloadError::NoProgressTimeout) })
        }),
{
}

/// A file that is known is fetched so: connect, open the output, tell the peer to start,
/// read.
pub proof fn lemma_known_file_is_fetched(f: FetchModel)
    requires
        f.stage is Connecting,
        f.pierce is None,
    ensures
        ({
            let (f1, s1) = f.next(FetchEvent::Connected);
            let (f2, s2) = f1.next(FetchEvent::Opened);
            let (f3, s3) = f2.next(FetchEvent::StartSent);
            &&& s1.len() == 1 && s1[0] is OpenOutput
            &&& s2.len() == 1 && s2[0] is SendStart
            &&& s3.len() == 1 && s3[0] is Read
            &&& f3.stage is Reading
            &&& f3.progress == f.progress
        }),
{
}

/// A file that the peer names is fetched so: connect, greet the peer with the token, read
/// the token of the file, see whether it is known, tell the peer to start, open the output,
/// and write what came with the token; a file that is not known is not fetched.
pub proof fn lemma_named_file_is_fetched(f: FetchModel, token: u32, bytes: Vec<u8>, size: u64)
    requires
        f.stage is Connecting,
        f.pierce == Some(token),
        bytes@.len() > 4,
    ensures
        ({
            let named = DownloadToken(
                (bytes@[0] + 0x100 * bytes@[1] + 0x1_0000 * bytes@[2] + 0x100_0000
                    * bytes@[3]) as u32,
            );
            let (f1, s1) = f.next(FetchEvent::Connected);
            let (f2, s2) = f1.next(FetchEvent::HandshakeSent);
            let (f3, s3) = f2.next(FetchEvent::FirstRead { bytes });
            let (f4, s4) = f3.next(FetchEvent::Resolved { size: Some(size) });
            let (f5, s5) = f4.next(FetchEvent::StartSent);
            let (f6, s6) = f5.next(FetchEvent::Opened);
            let (n4, t4) = f3.next(FetchEvent::Resolved { size: None });
            &&& s1.len() == 1 && s1[0] == (StepModel::SendHandshake { token })
            &&& s2.len() == 1 && s2[0] is ReadFirst
            &&& s3.len() == 1 && s3[0] == (StepModel::Resolve { token: named })
            &&& s4.len() == 1 && s4[0] is SendStart
            &&& s5.len() == 1 && s5[0] is OpenOutput
            &&& s6.len() == 1 && s6[0] == (StepModel::WriteFirst { bytes: bytes@.skip(4) })
            &&& f6.progress.size == size
            &&& f6.progress.total_bytes == bytes@.len() - 4
            &&& n4.stage is Over
            &&& t4.len() == 1 && t4[0] == (StepModel::Finish {
                outcome: Err(DownloadError::TokenNotFound(named)),
            })
        }),
{
    assert(bytes.len() == bytes@.len());
}

/// A peer that sends fewer bytes than a token has names no file.
pub proof fn lemma_short_token_names_nothing(f: FetchModel, bytes: Vec<u8>)
    requires
        f.stage is ReadingFirst,
        bytes@.len() < 4,
    ensures
        ({
            let (after, steps) = f.next(FetchEvent::FirstRead { bytes });
            &&& after.stage is Over
            &&& steps.len() == 1
            &&& steps[0] == (StepModel::Finish { outcome: Err(DownloadError::InvalidTokenBytes) })
        }),
{
}

/// Of the reads of a fetch every fifteenth is reported, after it is counted; then the fetch
/// reads on, or ends where every byte has come.
pub proof fn lemma_every_fifteenth_read_is_reported(f: FetchModel, bytes: u64)
    requires
        f.stage == (FetchStage::Writing { bytes }),
        f.expects(FetchEvent::Written),
    ensures
        ({
            let (after, steps) = f.next(FetchEvent::Written);
            let reported = (f.progress.chunks + 1) % 15 == 0;
            let all = f.progress.total_bytes + bytes >= f.progress.size;
            &&& after.progress.total_bytes == f.progress.total_bytes + bytes
            &&& after.progress.chunks == f.progress.chunks + 1
            &&& after.progress.size == f.progress.size
            &&& steps.len() == if reported {
                2int
            } else {
                1int
            }
            &&& reported ==> steps[0] == (StepModel::Report { initial: false })
            &&& steps.last() is Flush <==> all
            &&& steps.last() is Read <==> !all
        }),
{
}

/// A read is reported exactly where it is the fifteenth, the thirtieth and so on, and the
/// transfer is done exactly where as many bytes as the file has have come.
pub proof fn lemma_reads_are_told_apart(
    p: &mut Progress,
    bytes_read: u64,
    r: super::download_peer::ChunkOutcome,
)
    requires
        call_ensures(Progress::on_chunk, (p, bytes_read), r),
    ensures
        r.report <==> (old(p).chunks + 1) % 15 == 0,
        r.done <==> old(p).total_bytes + bytes_read >= old(p).size,
{
}

/// A peer that closes its stream ends the fetch with the bytes that have come.
pub proof fn lemma_closed_stream_ends_the_fetch(f: FetchModel, bytes: Vec<u8>)
    requires
        f.stage is Reading,
        bytes@.len() == 0,
    ensures
        ({
            let (f1, s1) = f.next(FetchEvent::Read { bytes });
            let (f2, s2) = f1.next(FetchEvent::Flushed);
            &&& s1.len() == 1 && s1[0] is Flush
            &&& f2.stage is Over
            &&& s2.len() == 1
            &&& s2[0] == (StepModel::Finish { outcome: Ok(f.progress.total_bytes) })
        }),
{
}

/// A transfer that stands still is waited for until the limit that was asked for, or half a
/// minute where none was.
pub proof fn lemma_patience_has_a_limit(waited: Duration, limit: Option<Duration>, r: Patience)
    requires
        call_ensures(super::fetch::patience, (waited, limit), r),
    ensures
        r is Wait <==> waited@ < match limit {
            Some(l) => l@,
            None => 30_000_000_000,
        },
        r is Stalled <==> (limit matches Some(l) && waited@ >= l@),
{
}

// ---- where files go -----------------------------------------------------------------------

/// A path that starts with a tilde is below the home directory, with one slash between,
/// however many there were; any other path, and any path where no home directory is known,
/// stays as it is.
pub proof fn lemma_tilde_is_home(rest: Seq<char>, slashes: nat, home: Seq<char>, path: Seq<char>)
    requires
        rest.len() > 0,
        rest[0] != '/',
        home.len() > 0,
        home.last() != '/',
    ensures
        super::download_peer::expanded(
            seq!['~'] + Seq::new(slashes, |i: int| '/') + rest,
            Some(home),
        ) == home + seq!['/'] + rest,
        super::download_peer::expanded(
            seq!['~'] + Seq::new(slashes, |i: int| '/') + rest,
            Some(home.push('/')),
        ) == home + seq!['/'] + rest,
        super::download_peer::expanded(path, None) == path,
        path.len() > 0 && path[0] != '~' ==> super::download_peer::expanded(path, Some(home))
            == path,
{
    let middle = Seq::new(slashes, |i: int| '/');
    let whole = seq!['~'] + middle + rest;
    assert(whole.skip(1) =~= middle + rest);
    lemma_slashes_are_dropped(rest, slashes);
    assert(home.push('/') + rest =~= home + seq!['/'] + rest);
}

proof fn lemma_slashes_are_dropped(rest: Seq<char>, slashes: nat)
    requires
        rest.len() > 0,
        rest[0] != '/',
    ensures
        super::download_peer::trim_start_of(Seq::new(slashes, |i: int| '/') + rest, '/') == rest,
    decreases slashes,
{
    let s = Seq::new(slashes, |i: int| '/') + rest;
    if slashes == 0 {
        assert(s =~= rest);
    } else {
        let fewer = Seq::new((slashes - 1) as nat, |i: int| '/') + rest;
        assert(s.skip(1) =~= fewer);
        lemma_slashes_are_dropped(rest, (slashes - 1) as nat);
    }
}

/// A file goes to the directory that was asked for, or, where that is none, to its parent.
pub proof fn lemma_directory_is_chosen(
    path: String,
    is_dir: bool,
    parent: Option<String>,
    r: Result<String, DownloadError>,
)
    requires
        call_ensures(super::download_peer::choose_directory, (path, is_dir, parent), r),
    ensures
        is_dir ==> r == Ok::<String, DownloadError>(path),
        !is_dir ==> (parent matches Some(p) ==> r == Ok::<String, DownloadError>(p)),
        !is_dir && parent is None ==> r is Err,
{
}

// ---- what is known of a download ----------------------------------------------------------

/// A download is finished when it is complete, has failed or has taken too long. Complete,
/// all its bytes have come; under way, as many as were last reported; otherwise none.
pub proof fn lemma_bytes_of_a_download(d: Download, finished: bool, bytes: u64)
    requires
        call_ensures(Download::is_finished, (&d,), finished),
        call_ensures(Download::bytes_downloaded, (&d,), bytes),
    ensures
        finished <==> d.status == DownloadStatus::Completed || d.status == DownloadStatus::Failed
            || d.status == DownloadStatus::TimedOut,
        d.status == DownloadStatus::Completed ==> bytes == d.size,
        d.status matches DownloadStatus::InProgress { bytes_downloaded, .. } ==> bytes
            == bytes_downloaded,
        d.status == DownloadStatus::Queued || d.status == DownloadStatus::Failed ==> bytes == 0,
{
}

} // verus!
