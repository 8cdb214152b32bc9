//! What the worker that holds one slot for each download promises, told by what goes
//! in and what comes out.
use vstd::prelude::*;

use super::session::ClientState;
use super::slots::{QueuedDownload, SlotAction, SlotModel, SlotOperation, TrackedDownload};
use crate::soulseek::actor::server_actor::ServerMessage;
use crate::soulseek::download_peer::DownloadPeer;
use crate::soulseek::error::{Result, SoulseekRs};
use crate::soulseek::path::SoulseekPath;
use crate::soulseek::peer::{ConnectionType, NewPeer, Peer};
use crate::soulseek::token::{DownloadToken, PeerTransferToken, SearchToken};
use crate::soulseek::types::{Download, DownloadStatus, SearchResult, Transfer};

verus! {

/// The caller of a download is told how it ended: that it is complete exactly where it
/// ended well, that it was cancelled or took too long exactly where that is the error,
/// and that it failed for any other error. The status of the download says the same,
/// unless the download that begins next takes its place.
pub proof fn lemma_caller_is_told_how_it_ended(
    m: SlotModel,
    token: DownloadToken,
    outcome: Result<String>,
    peer_known: bool,
    i: int,
)
    requires
        0 <= i < m.downloads.len(),
        m.downloads[i].download.token == token,
        forall|j: int| 0 <= j < i ==> (#[trigger] m.downloads[j]).download.token != token,
    ensures
        ({
            let (after, actions) = m.step(
                SlotOperation::DownloadCompleted(token, outcome),
                peer_known,
            );
            &&& actions.len() > 0
            &&& actions[0] matches SlotAction::Notify { channel, status }
            &&& channel == m.downloads[i].download.sender
            &&& status == DownloadStatus::Completed <==> outcome is Ok
            &&& status == DownloadStatus::Cancelled <==> (outcome matches Err(e) && e
                == SoulseekRs::DownloadCancelled)
            &&& status == DownloadStatus::TimedOut <==> (outcome matches Err(e) && e
                == SoulseekRs::DownloadTimedOut)
            &&& status == DownloadStatus::Failed <==> (outcome matches Err(e) && e
                != SoulseekRs::DownloadCancelled && e != SoulseekRs::DownloadTimedOut)
            &&& (m.pending.len() > 0 ==> m.pending[0].pending.token != token) ==> {
                &&& after.downloads[i].download == Download { status, ..m.downloads[i].download }
                &&& after.downloads[i].peer_token == m.downloads[i].peer_token
                &&& !after.slots.contains(token.0)
            }
            &&& m.pending.len() == 0 ==> {
                &&& actions.len() == 1
                &&& after.downloads.len() == m.downloads.len()
                &&& forall|j: int|
                    0 <= j < m.downloads.len() && j != i ==> #[trigger] after.downloads[j]
                        == m.downloads[j]
            }
        }),
{
    let p = super::slots::has_token(token);
    crate::lists::lemma_first_where_is(m.downloads, p, i);
    let status = super::slots::outcome_status(outcome);
    let ended = TrackedDownload {
        download: Download { status, ..m.downloads[i].download },
        ..m.downloads[i]
    };
    let left = SlotModel {
        downloads: m.downloads.update(i, ended),
        slots: m.slots.remove(token.0),
        ..m
    };
    let (after, begun) = left.dequeued();
    let actions = m.step(SlotOperation::DownloadCompleted(token, outcome), peer_known).1;
    let told = SlotAction::Notify { channel: m.downloads[i].download.sender, status };
    assert(actions =~= seq![told] + begun);
    if m.pending.len() > 0 {
        let t = m.pending[0].pending.token;
        crate::lists::lemma_first_where(left.downloads, super::slots::has_token(t));
    }
}

/// When a download ends, the one that has waited longest begins in its place: its peer
/// is asked for its file, it waits no longer, and it holds a slot.
pub proof fn lemma_next_begins_in_its_place(
    m: SlotModel,
    token: DownloadToken,
    outcome: Result<String>,
    peer_known: bool,
)
    requires
        m.logged_in,
        m.pending.len() > 0,
        m.max_concurrent matches Some(max) ==> m.slots.remove(token.0).len() < max,
    ensures
        ({
            let (after, actions) = m.step(
                SlotOperation::DownloadCompleted(token, outcome),
                peer_known,
            );
            let next = m.pending[0].pending;
            &&& actions.len() > 0
            &&& actions.last() == (SlotAction::QueueUpload {
                username: next.username,
                filename: next.filename,
            })
            &&& after.pending == m.pending.skip(1)
            &&& after.slots == m.slots.remove(token.0).insert(next.token.0)
        }),
{
}

/// A download that a caller asks for is kept as it was asked for, queued, and not yet
/// numbered by the peer; its caller is told. It begins where we are logged in and a slot is
/// free, and waits otherwise.
pub proof fn lemma_request_is_accepted(m: SlotModel, q: QueuedDownload, peer_known: bool)
    requires
        forall|j: int|
            0 <= j < m.downloads.len() ==> (#[trigger] m.downloads[j]).download.token
                != q.pending.token,
    ensures
        ({
            let (after, actions) = m.step(SlotOperation::RequestDownload(q), peer_known);
            let entry = after.downloads[m.downloads.len() as int];
            let begins = m.logged_in && (m.max_concurrent matches Some(max) ==> m.slots.len()
                < max);
            &&& after.downloads.len() == m.downloads.len() + 1
            &&& after.downloads.take(m.downloads.len() as int) == m.downloads
            &&& entry.download.username == q.pending.username
            &&& entry.download.filename == q.pending.filename
            &&& entry.download.size == q.pending.size
            &&& entry.download.download_directory == q.pending.download_directory
            &&& entry.download.token == q.pending.token
            &&& entry.download.sender == q.pending.status_sender
            &&& entry.download.status == DownloadStatus::Queued
            &&& entry.peer_token is None
            &&& entry.cancel == q.cancel
            &&& entry.progress_timeout == q.progress_timeout
            &&& actions.len() == if begins {
                2int
            } else {
                1int
            }
            &&& actions[0] == (SlotAction::Notify {
                channel: q.pending.status_sender,
                status: DownloadStatus::Queued,
            })
            &&& if begins {
                &&& actions[1] == (SlotAction::QueueUpload {
                    username: q.pending.username,
                    filename: q.pending.filename,
                })
                &&& after.pending == m.pending
                &&& after.slots == m.slots.insert(q.pending.token.0)
            } else {
                &&& after.pending == m.pending.push(q)
                &&& after.slots == m.slots
            }
        }),
{
    let p = super::slots::has_token(q.pending.token);
    crate::lists::lemma_first_where_none(m.downloads, p);
    let noted = m.downloads.push(q.followed());
    assert forall|j: int| 0 <= j < m.downloads.len() implies !p(#[trigger] noted[j]) by {
        assert(noted[j] == m.downloads[j]);
    }
    crate::lists::lemma_first_where_is(noted, p, m.downloads.len() as int);
    assert(noted.update(m.downloads.len() as int, q.followed()) =~= noted);
    assert(noted.take(m.downloads.len() as int) =~= m.downloads);
}

/// Once logged in, the downloads that wait begin in the order in which they were asked
/// for, as many as there is room for: each is asked of its peer, and what is left waits
/// in the same order.
pub proof fn lemma_login_starts_what_waits(m: SlotModel, peer_known: bool)
    ensures
        ({
            let (after, actions) = m.step(SlotOperation::LoginSucceeded, peer_known);
            let n = actions.len() as int;
            &&& after.logged_in
            &&& after.state == ClientState::Connected
            &&& n <= m.pending.len()
            &&& forall|k: int|
                0 <= k < n ==> #[trigger] actions[k] == (SlotAction::QueueUpload {
                    username: m.pending[k].pending.username,
                    filename: m.pending[k].pending.filename,
                })
            &&& after.pending == m.pending.skip(n)
            &&& after.pending.len() == 0 || (after.max_concurrent matches Some(max)
                && after.slots.len() >= max)
            &&& forall|k: int|
                0 <= k < n ==> after.slots.contains((#[trigger] m.pending[k]).pending.token.0)
            &&& forall|t: u32| m.slots.contains(t) ==> #[trigger] after.slots.contains(t)
        }),
{
    lemma_drained(SlotModel { logged_in: true, state: ClientState::Connected, ..m });
}

proof fn lemma_drained(m: SlotModel)
    ensures
        ({
            let (after, actions) = m.drained();
            let n = actions.len() as int;
            &&& after.logged_in == m.logged_in
            &&& after.state == m.state
            &&& after.max_concurrent == m.max_concurrent
            &&& n <= m.pending.len()
            &&& forall|k: int|
                0 <= k < n ==> #[trigger] actions[k] == (SlotAction::QueueUpload {
                    username: m.pending[k].pending.username,
                    filename: m.pending[k].pending.filename,
                })
            &&& after.pending == m.pending.skip(n)
            &&& after.pending.len() == 0 || (after.max_concurrent matches Some(max)
                && after.slots.len() >= max)
            &&& forall|k: int|
                0 <= k < n ==> after.slots.contains((#[trigger] m.pending[k]).pending.token.0)
            &&& forall|t: u32| m.slots.contains(t) ==> #[trigger] after.slots.contains(t)
        }),
    decreases m.pending.len(),
{
    if m.has_room() && m.pending.len() > 0 {
        let q = m.pending[0];
        let next = m.without_first().initiated(q);
        lemma_drained(next);
        let (after, rest) = next.drained();
        let actions = m.drained().1;
        assert(actions =~= seq![super::slots::ask_for(q)] + rest);
        assert(m.pending.skip(1).skip(rest.len() as int) =~= m.pending.skip(1 + rest.len() as int));
        assert forall|k: int| 0 <= k < actions.len() implies #[trigger] actions[k] == (
        SlotAction::QueueUpload {
            username: m.pending[k].pending.username,
            filename: m.pending[k].pending.filename,
        }) by {
            if k > 0 {
                assert(actions[k] == rest[k - 1]);
                assert(m.pending.skip(1)[k - 1] == m.pending[k]);
            }
        }
        assert forall|k: int| 0 <= k < actions.len() implies after.slots.contains(
            (#[trigger] m.pending[k]).pending.token.0,
        ) by {
            if k > 0 {
                assert(m.pending.skip(1)[k - 1] == m.pending[k]);
            } else {
                assert(next.slots.contains(q.pending.token.0));
            }
        }
        assert forall|t: u32| m.slots.contains(t) implies #[trigger] after.slots.contains(t) by {
            assert(next.slots.contains(t));
        }
    } else {
        assert(m.pending.skip(0) =~= m.pending);
    }
}

/// The caller of a download that is cancelled is told so, before anything else is done;
/// a download that is not known is cancelled in silence.
pub proof fn lemma_cancelled_caller_is_told(
    m: SlotModel,
    token: DownloadToken,
    peer_known: bool,
    i: int,
)
    ensures
        ({
            let (after, actions) = m.step(SlotOperation::CancelDownload(token), peer_known);
            &&& 0 <= i < m.downloads.len() && m.downloads[i].download.token == token && (forall|
                j: int,
            |
                0 <= j < i ==> (#[trigger] m.downloads[j]).download.token != token) ==> {
                &&& actions.len() > 0
                &&& actions[0] == (SlotAction::Notify {
                    channel: m.downloads[i].download.sender,
                    status: DownloadStatus::Cancelled,
                })
                &&& !m.slots.contains(token.0) ==> actions.len() == 1 && after.downloads
                    == m.downloads.remove(i)
            }
            &&& (forall|j: int|
                0 <= j < m.downloads.len() ==> (#[trigger] m.downloads[j]).download.token
                    != token) ==> actions.len() == 0 && after.downloads == m.downloads
        }),
{
    let p = super::slots::has_token(token);
    crate::lists::lemma_first_where(m.downloads, p);
    if 0 <= i < m.downloads.len() && m.downloads[i].download.token == token && (forall|j: int|
        0 <= j < i ==> (#[trigger] m.downloads[j]).download.token != token) {
        crate::lists::lemma_first_where_is(m.downloads, p, i);
    }
    if forall|j: int|
        0 <= j < m.downloads.len() ==> (#[trigger] m.downloads[j]).download.token != token {
        crate::lists::lemma_first_where_none(m.downloads, p);
    }
}

proof fn lemma_failing(m: SlotModel, username: Seq<char>, filename: Option<Seq<char>>)
    ensures
        ({
            let (after, actions) = m.failing(username, filename);
            &&& forall|j: int|
                0 <= j < m.downloads.len() && (#[trigger] m.downloads[j]).download.username@
                    == username && (filename matches Some(f) ==> m.downloads[j].download.filename@
                    == f) ==> actions.contains(
                    SlotAction::Notify {
                        channel: m.downloads[j].download.sender,
                        status: DownloadStatus::Failed,
                    },
                )
            &&& forall|k: int|
                0 <= k < actions.len() && (#[trigger] actions[k] is Notify) ==> exists|j: int|
                    0 <= j < m.downloads.len() && (#[trigger] m.downloads[j]).download.username@
                        == username && (filename matches Some(f)
                        ==> m.downloads[j].download.filename@ == f) && actions[k]
                        == SlotAction::Notify {
                        channel: m.downloads[j].download.sender,
                        status: DownloadStatus::Failed,
                    }
            &&& m.pending.len() == 0 || !m.logged_in ==> {
                &&& forall|j: int|
                    0 <= j < m.downloads.len() ==> (after.downloads.contains(
                        #[trigger] m.downloads[j],
                    ) <==> !(m.downloads[j].download.username@ == username && (filename matches Some(
                        f,
                    ) ==> m.downloads[j].download.filename@ == f)))
                &&& forall|k: int|
                    0 <= k < after.downloads.len() ==> m.downloads.contains(
                        #[trigger] after.downloads[k],
                    )
            }
        }),
{
    let p = super::slots::concerns(username, filename);
    let q = super::slots::spared(username, filename);
    let (after, actions) = m.failing(username, filename);
    let failed = m.downloads.filter(p);
    let note = |d: TrackedDownload|
        SlotAction::Notify { channel: d.download.sender, status: DownloadStatus::Failed };
    let notices = failed.map_values(note);
    crate::lists::lemma_filter_keeps(m.downloads, p);
    crate::lists::lemma_filter_keeps(m.downloads, q);
    assert forall|j: int|
        0 <= j < m.downloads.len() && (#[trigger] m.downloads[j]).download.username@ == username
            && (filename matches Some(f) ==> m.downloads[j].download.filename@
            == f) implies actions.contains(note(m.downloads[j])) by {
        assert(p(m.downloads[j]));
        let k = choose|k: int| 0 <= k < failed.len() && failed[k] == m.downloads[j];
        assert(notices[k] == note(m.downloads[j]));
        assert(actions[k] == notices[k]);
    }
    assert forall|k: int| 0 <= k < actions.len() && (#[trigger] actions[k] is Notify) implies exists|
        j: int,
    |
        0 <= j < m.downloads.len() && (#[trigger] m.downloads[j]).download.username@ == username
            && (filename matches Some(f) ==> m.downloads[j].download.filename@ == f) && actions[k]
            == note(m.downloads[j]) by {
        assert(k < notices.len());
        assert(actions[k] == note(failed[k]));
        assert(p(failed[k]));
        let j = choose|j: int| 0 <= j < m.downloads.len() && m.downloads[j] == failed[k];
        assert(p(m.downloads[j]));
    }
    if m.pending.len() == 0 || !m.logged_in {
        assert(after.downloads == m.downloads.filter(q));
        assert forall|j: int| 0 <= j < m.downloads.len() implies (after.downloads.contains(
            #[trigger] m.downloads[j],
        ) <==> !p(m.downloads[j])) by {
            if after.downloads.contains(m.downloads[j]) {
                let k = choose|k: int|
                    0 <= k < after.downloads.len() && after.downloads[k] == m.downloads[j];
                assert(q(after.downloads[k]));
            } else {
                assert(!q(m.downloads[j]));
            }
        }
    }
}

/// When a peer is gone, its actor is stopped, the caller of each download from it is told
/// that it failed and no other caller is told anything, and the downloads from it are
/// forgotten and no others.
pub proof fn lemma_downloads_fail_with_their_peer(
    m: SlotModel,
    username: String,
    why: Option<SoulseekRs>,
    peer_known: bool,
)
    ensures
        ({
            let (after, actions) = m.step(
                SlotOperation::PeerDisconnected(username, why),
                peer_known,
            );
            &&& actions.len() > 0
            &&& actions[0] == (SlotAction::StopPeer { username })
            &&& forall|j: int|
                0 <= j < m.downloads.len() && (#[trigger] m.downloads[j]).download.username@
                    == username@ ==> actions.contains(
                    SlotAction::Notify {
                        channel: m.downloads[j].download.sender,
                        status: DownloadStatus::Failed,
                    },
                )
            &&& forall|k: int|
                0 <= k < actions.len() && (#[trigger] actions[k] is Notify) ==> exists|j: int|
                    0 <= j < m.downloads.len() && (#[trigger] m.downloads[j]).download.username@
                        == username@ && actions[k] == SlotAction::Notify {
                        channel: m.downloads[j].download.sender,
                        status: DownloadStatus::Failed,
                    }
            &&& m.pending.len() == 0 || !m.logged_in ==> forall|j: int|
                0 <= j < m.downloads.len() ==> (after.downloads.contains(#[trigger] m.downloads[j])
                    <==> m.downloads[j].download.username@ != username@)
        }),
{
    lemma_failing(m, username@, None);
    let (after, rest) = m.failing(username@, None);
    let actions = m.step(SlotOperation::PeerDisconnected(username, why), peer_known).1;
    let stop = SlotAction::StopPeer { username };
    assert(actions =~= seq![stop] + rest);
    assert forall|j: int|
        0 <= j < m.downloads.len() && (#[trigger] m.downloads[j]).download.username@
            == username@ implies actions.contains(
        SlotAction::Notify {
            channel: m.downloads[j].download.sender,
            status: DownloadStatus::Failed,
        },
    ) by {
        let a = SlotAction::Notify {
            channel: m.downloads[j].download.sender,
            status: DownloadStatus::Failed,
        };
        assert(rest.contains(a));
        let k = choose|k: int| 0 <= k < rest.len() && rest[k] == a;
        assert(actions[k + 1] == a);
    }
    assert forall|k: int| 0 <= k < actions.len() && (#[trigger] actions[k] is Notify) implies exists|
        j: int,
    |
        0 <= j < m.downloads.len() && (#[trigger] m.downloads[j]).download.username@ == username@
            && actions[k] == SlotAction::Notify {
            channel: m.downloads[j].download.sender,
            status: DownloadStatus::Failed,
        } by {
        assert(k > 0);
        assert(actions[k] == rest[k - 1]);
        assert(rest[k - 1] is Notify);
    }
}

/// When a peer refuses a file, the caller of each download of that file from that peer is
/// told that it failed and no other caller is told anything, and these downloads are
/// forgotten and no others.
pub proof fn lemma_refused_file_fails(
    m: SlotModel,
    username: String,
    filename: SoulseekPath,
    peer_known: bool,
)
    ensures
        ({
            let (after, actions) = m.step(
                SlotOperation::UploadFailed(username, filename),
                peer_known,
            );
            &&& forall|j: int|
                0 <= j < m.downloads.len() && (#[trigger] m.downloads[j]).download.username@
                    == username@ && m.downloads[j].download.filename@ == filename@
                    ==> actions.contains(
                    SlotAction::Notify {
                        channel: m.downloads[j].download.sender,
                        status: DownloadStatus::Failed,
                    },
                )
            &&& forall|k: int|
                0 <= k < actions.len() && (#[trigger] actions[k] is Notify) ==> exists|j: int|
                    0 <= j < m.downloads.len() && (#[trigger] m.downloads[j]).download.username@
                        == username@ && m.downloads[j].download.filename@ == filename@ && actions[k]
                        == SlotAction::Notify {
                        channel: m.downloads[j].download.sender,
                        status: DownloadStatus::Failed,
                    }
            &&& m.pending.len() == 0 || !m.logged_in ==> forall|j: int|
                0 <= j < m.downloads.len() ==> (after.downloads.contains(#[trigger] m.downloads[j])
                    <==> !(m.downloads[j].download.username@ == username@
                    && m.downloads[j].download.filename@ == filename@))
        }),
{
    lemma_failing(m, username@, Some(filename@));
}

/// A peer that is about to send a file names it, its size and its own number for it: the
/// first download of that file from that peer takes the number and the size, and nothing
/// else changes.
pub proof fn lemma_peer_numbers_its_file(
    m: SlotModel,
    transfer: Transfer,
    username: String,
    peer_known: bool,
    i: int,
)
    requires
        0 <= i < m.downloads.len(),
        m.downloads[i].download.username@ == username@,
        m.downloads[i].download.filename@ == transfer.filename@,
        forall|j: int|
            0 <= j < i ==> !((#[trigger] m.downloads[j]).download.username@ == username@
                && m.downloads[j].download.filename@ == transfer.filename@),
    ensures
        ({
            let (after, actions) = m.step(
                SlotOperation::UpdateDownloadTokens(transfer, username),
                peer_known,
            );
            &&& actions.len() == 0
            &&& after.downloads.len() == m.downloads.len()
            &&& after.downloads[i].peer_token == Some(PeerTransferToken(transfer.token.0))
            &&& after.downloads[i].download == Download {
                size: transfer.size,
                ..m.downloads[i].download
            }
            &&& forall|j: int|
                0 <= j < m.downloads.len() && j != i ==> #[trigger] after.downloads[j]
                    == m.downloads[j]
            &&& after.slots == m.slots && after.pending == m.pending && after.searches
                == m.searches
        }),
{
    let p = super::slots::concerns(username@, Some(transfer.filename@));
    crate::lists::lemma_first_where_is(m.downloads, p, i);
}

/// A peer that sends the file it has numbered is fetched from: the download with that
/// number, from where the peer is; without such a download nothing is fetched.
pub proof fn lemma_numbered_file_is_fetched(
    m: SlotModel,
    token: PeerTransferToken,
    peer: Peer,
    allowed: bool,
    peer_known: bool,
    i: int,
)
    ensures
        ({
            let (after, actions) = m.step(
                SlotOperation::DownloadFromPeer(token, peer, allowed),
                peer_known,
            );
            &&& after == m
            &&& 0 <= i < m.downloads.len() && m.downloads[i].peer_token == Some(token) && (forall|
                j: int,
            |
                0 <= j < i ==> (#[trigger] m.downloads[j]).peer_token != Some(token)) ==> {
                &&& actions.len() == 1
                &&& actions[0] matches SlotAction::FetchDirect { download, from }
                &&& download == m.downloads[i]
                &&& from.username == m.downloads[i].download.username
                &&& from.host == peer.host
                &&& from.port == peer.port
                &&& from.token == token.0
                &&& from.own_username == m.own_username
            }
            &&& (forall|j: int|
                0 <= j < m.downloads.len() ==> (#[trigger] m.downloads[j]).peer_token != Some(
                    token,
                )) ==> actions.len() == 0
        }),
{
    let p = super::slots::has_peer_token(token);
    crate::lists::lemma_first_where(m.downloads, p);
    if 0 <= i < m.downloads.len() && m.downloads[i].peer_token == Some(token) && (forall|j: int|
        0 <= j < i ==> (#[trigger] m.downloads[j]).peer_token != Some(token)) {
        crate::lists::lemma_first_where_is(m.downloads, p, i);
    }
    if forall|j: int|
        0 <= j < m.downloads.len() ==> (#[trigger] m.downloads[j]).peer_token != Some(token) {
        crate::lists::lemma_first_where_none(m.downloads, p);
    }
}

/// A fetch through a pierced firewall goes to the peer, with the peer's token, and stands
/// for the first download from that peer, if there is one.
pub proof fn lemma_pierced_fetch_goes_to_the_peer(m: SlotModel, peer: Peer, peer_known: bool)
    requires
        peer.token is Some,
    ensures
        ({
            let (after, actions) = m.step(SlotOperation::PierceFireWall(peer), peer_known);
            &&& after == m
            &&& actions.len() == 2
            &&& actions[0] == (SlotAction::SendToServer {
                message: ServerMessage::PierceFirewall(peer.token->0),
            })
            &&& actions[1] matches SlotAction::FetchPierced { from, stream, initiating }
            &&& from.username == peer.username
            &&& from.host == peer.host
            &&& from.port == peer.port
            &&& from.token == (peer.token->0).0
            &&& from.own_username == m.own_username
            &&& stream is None
            &&& match initiating {
                Some(t) => exists|i: int|
                    0 <= i < m.downloads.len() && (#[trigger] m.downloads[i]).download.username@
                        == peer.username@ && m.downloads[i].download.token == t && (forall|j: int|
                        0 <= j < i ==> (#[trigger] m.downloads[j]).download.username@
                            != peer.username@),
                None => forall|j: int|
                    0 <= j < m.downloads.len() ==> (#[trigger] m.downloads[j]).download.username@
                        != peer.username@,
            }
        }),
{
    let p = super::slots::is_from(peer.username@);
    crate::lists::lemma_first_where(m.downloads, p);
    match crate::lists::first_where(m.downloads, p) {
        Some(i) => {
            assert(p(m.downloads[i]));
            assert forall|j: int| 0 <= j < i implies (#[trigger] m.downloads[j]).download.username@
                != peer.username@ by {
                assert(!p(m.downloads[j]));
            }
        },
        None => {
            assert forall|j: int| 0 <= j < m.downloads.len() implies (
            #[trigger] m.downloads[j]).download.username@ != peer.username@ by {
                assert(!p(m.downloads[j]));
            }
        },
    }
}

/// A peer that the server tells us to connect to is registered where it wants to
/// exchange messages, fetched from where it wants to send a file, and left alone
/// otherwise.
pub proof fn lemma_told_to_connect(m: SlotModel, peer: Peer, peer_known: bool)
    requires
        peer.connection_type == ConnectionType::F ==> peer.token is Some,
    ensures
        ({
            let (after, actions) = m.step(SlotOperation::ConnectToPeer(peer), peer_known);
            &&& after == m
            &&& match peer.connection_type {
                ConnectionType::P => actions == seq![
                    SlotAction::RegisterPeer { peer, stream: None },
                ],
                ConnectionType::F => {
                    &&& actions.len() == 1
                    &&& actions[0] matches SlotAction::FetchPierced { from, stream, .. }
                    &&& stream is None
                    &&& from == (DownloadPeer {
                        username: peer.username,
                        host: peer.host,
                        port: peer.port,
                        own_username: m.own_username,
                        token: (peer.token->0).0,
                    })
                },
                ConnectionType::D => actions.len() == 0,
            }
        }),
{
}

/// A peer that connects to us to exchange messages is registered with its stream; the
/// server is asked for its address where it is not known yet, and not otherwise.
pub proof fn lemma_new_peer_is_registered(m: SlotModel, new_peer: NewPeer, peer_known: bool)
    requires
        new_peer.connection_type == ConnectionType::P,
    ensures
        ({
            let (after, actions) = m.step(SlotOperation::NewPeer(new_peer), peer_known);
            &&& after == m
            &&& actions.len() == if peer_known {
                1int
            } else {
                2int
            }
            &&& !peer_known ==> actions[0] == (SlotAction::SendToServer {
                message: ServerMessage::GetPeerAddress(new_peer.username),
            })
            &&& actions.last() matches SlotAction::RegisterPeer { peer, stream }
            &&& peer.username == new_peer.username
            &&& peer.connection_type == ConnectionType::P
            &&& stream == Some(new_peer.stream)
        }),
{
}

/// A peer whose address the server has found is registered at that address, unless it is
/// known already.
pub proof fn lemma_found_peer_is_registered(
    m: SlotModel,
    username: String,
    host: String,
    port: u32,
    obfuscation_type: u32,
    obfuscated_port: u16,
    peer_known: bool,
)
    ensures
        ({
            let (after, actions) = m.step(
                SlotOperation::GetPeerAddressResponse {
                    username,
                    host,
                    port,
                    obfuscation_type,
                    obfuscated_port,
                },
                peer_known,
            );
            &&& after == m
            &&& if peer_known {
                actions.len() == 0
            } else {
                &&& actions.len() == 1
                &&& actions[0] matches SlotAction::RegisterPeer { peer, stream }
                &&& peer.username == username
                &&& peer.host == host
                &&& peer.port == port
                &&& peer.connection_type == ConnectionType::P
                &&& stream is None
            }
        }),
{
}

/// When the connection to the server is lost, nothing begins any more and nothing is
/// forgotten.
pub proof fn lemma_loss_of_the_server(m: SlotModel, peer_known: bool)
    ensures
        ({
            let (after, actions) = m.step(SlotOperation::ServerDisconnected, peer_known);
            &&& actions.len() == 0
            &&& !after.logged_in
            &&& after.state == ClientState::Disconnected
            &&& after.downloads == m.downloads
            &&& after.pending == m.pending
            &&& after.slots == m.slots
            &&& after.searches == m.searches
        }),
{
}

/// A search that begins collects the answers that carry its token, in the order in which
/// they come, and no others; what other searches have collected stays.
pub proof fn lemma_search_collects_its_answers(
    m: SlotModel,
    token: SearchToken,
    query: String,
    first: SearchResult,
    second: SearchResult,
    stray: SearchResult,
    peer_known: bool,
)
    requires
        forall|j: int| 0 <= j < m.searches.len() ==> (#[trigger] m.searches[j]).token != token,
        first.token == token,
        second.token == token,
        forall|j: int|
            0 <= j < m.searches.len() ==> (#[trigger] m.searches[j]).token != stray.token,
        stray.token != token,
    ensures
        ({
            let begun = m.step(SlotOperation::InitiateSearch(token, query), peer_known).0;
            let one = begun.step(SlotOperation::SearchResult(first), peer_known).0;
            let other = one.step(SlotOperation::SearchResult(stray), peer_known).0;
            let two = other.step(SlotOperation::SearchResult(second), peer_known).0;
            let n = m.searches.len() as int;
            &&& two.searches.len() == n + 1
            &&& two.searches.take(n) == m.searches
            &&& two.searches[n].token == token
            &&& two.searches[n].query == query@
            &&& two.searches[n].results == seq![first, second]
            &&& two.downloads == m.downloads && two.pending == m.pending
        }),
{
    let n = m.searches.len() as int;
    crate::lists::lemma_first_where_none(
        m.searches,
        |s: super::slots::TokenSearchModel| s.token == token,
    );
    let begun = m.step(SlotOperation::InitiateSearch(token, query), peer_known).0;
    assert forall|j: int| 0 <= j < n implies begun.searches[j] == m.searches[j] by {}
    crate::lists::lemma_first_where_is(
        begun.searches,
        |s: super::slots::TokenSearchModel| s.token == first.token,
        n,
    );
    let one = begun.step(SlotOperation::SearchResult(first), peer_known).0;
    assert forall|j: int| 0 <= j < one.searches.len() implies (
    #[trigger] one.searches[j]).token != stray.token by {
        if j < n {
            assert(one.searches[j] == m.searches[j]);
        }
    }
    crate::lists::lemma_first_where_none(
        one.searches,
        |s: super::slots::TokenSearchModel| s.token == stray.token,
    );
    assert forall|j: int| 0 <= j < n implies (#[trigger] one.searches[j]).token != second.token by {
        assert(one.searches[j] == m.searches[j]);
    }
    crate::lists::lemma_first_where_is(
        one.searches,
        |s: super::slots::TokenSearchModel| s.token == second.token,
        n,
    );
    let two = one.step(SlotOperation::SearchResult(second), peer_known).0;
    assert(two.searches.take(n) =~= m.searches);
    assert(two.searches[n].results =~= seq![first, second]);
}

/// When a download that held a slot fails with its peer, or since the peer refuses it, the one
/// that has waited longest begins: its peer is asked for it, and it waits no longer.
pub proof fn lemma_next_begins_after_a_failure(
    m: SlotModel,
    username: String,
    filename: SoulseekPath,
    why: Option<SoulseekRs>,
    peer_known: bool,
    i: int,
)
    requires
        m.logged_in,
        m.pending.len() > 0,
        0 <= i < m.downloads.len(),
        m.downloads[i].download.username@ == username@,
        m.downloads[i].download.filename@ == filename@,
        m.slots.finite(),
        m.max_concurrent matches Some(max) ==> m.slots.len() <= max && m.slots.contains(
            m.downloads[i].download.token.0,
        ),
    ensures
        ({
            let next = SlotAction::QueueUpload {
                username: m.pending[0].pending.username,
                filename: m.pending[0].pending.filename,
            };
            let (gone, left) = m.step(SlotOperation::PeerDisconnected(username, why), peer_known);
            let (refused, told) = m.step(
                SlotOperation::UploadFailed(username, filename),
                peer_known,
            );
            &&& left.last() == next
            &&& told.last() == next
            &&& gone.pending == m.pending.skip(1)
            &&& refused.pending == m.pending.skip(1)
            &&& gone.slots.contains(m.pending[0].pending.token.0)
            &&& refused.slots.contains(m.pending[0].pending.token.0)
        }),
{
    lemma_failure_makes_room(m, username@, None, i);
    lemma_failure_makes_room(m, username@, Some(filename@), i);
    let (after, rest) = m.failing(username@, None);
    let left = m.step(SlotOperation::PeerDisconnected(username, why), peer_known).1;
    assert(left.last() == rest.last());
}

proof fn lemma_failure_makes_room(
    m: SlotModel,
    username: Seq<char>,
    filename: Option<Seq<char>>,
    i: int,
)
    requires
        m.logged_in,
        m.pending.len() > 0,
        0 <= i < m.downloads.len(),
        m.downloads[i].download.username@ == username,
        filename matches Some(f) ==> m.downloads[i].download.filename@ == f,
        m.slots.finite(),
        m.max_concurrent matches Some(max) ==> m.slots.len() <= max && m.slots.contains(
            m.downloads[i].download.token.0,
        ),
    ensures
        ({
            let (after, actions) = m.failing(username, filename);
            &&& actions.len() > 0
            &&& actions.last() == super::slots::ask_for(m.pending[0])
            &&& after.pending == m.pending.skip(1)
            &&& after.slots.contains(m.pending[0].pending.token.0)
        }),
{
    let p = super::slots::concerns(username, filename);
    let failed = m.downloads.filter(p);
    crate::lists::lemma_filter_keeps(m.downloads, p);
    assert(p(m.downloads[i]));
    let k = choose|k: int| 0 <= k < failed.len() && failed[k] == m.downloads[i];
    assert(failed[k] == m.downloads[i]);
    let tokens = super::slots::tokens_of(failed);
    let t = m.downloads[i].download.token;
    assert(tokens[k] == t);
    let left = m.slots.filter(super::slots::is_none_of(tokens));
    match m.max_concurrent {
        Some(max) => {
            assert(!left.contains(t.0)) by {
                assert(tokens.contains(DownloadToken(t.0)));
            }
            assert(left.subset_of(m.slots.remove(t.0)));
            vstd::set_lib::lemma_len_subset(left, m.slots.remove(t.0));
        },
        None => {},
    }
    let notices = failed.map_values(
        |d: TrackedDownload|
            SlotAction::Notify { channel: d.download.sender, status: DownloadStatus::Failed },
    );
    let actions = m.failing(username, filename).1;
    assert(actions =~= notices + seq![super::slots::ask_for(m.pending[0])]);
}

/// When a download that held a slot is cancelled, the one that has waited longest begins in
/// its place.
pub proof fn lemma_next_begins_after_a_cancellation(
    m: SlotModel,
    token: DownloadToken,
    peer_known: bool,
    i: int,
)
    requires
        m.logged_in,
        m.pending.len() > 0,
        m.pending[0].pending.token != token,
        0 <= i < m.downloads.len(),
        m.downloads[i].download.token == token,
        m.slots.contains(token.0),
        m.slots.finite(),
        m.max_concurrent matches Some(max) ==> m.slots.len() <= max,
    ensures
        ({
            let (after, actions) = m.step(SlotOperation::CancelDownload(token), peer_known);
            &&& actions.len() == 2
            &&& actions[1] == (SlotAction::QueueUpload {
                username: m.pending[0].pending.username,
                filename: m.pending[0].pending.filename,
            })
            &&& after.slots.contains(m.pending[0].pending.token.0)
            &&& !after.slots.contains(token.0)
        }),
{
    let p = super::slots::has_token(token);
    crate::lists::lemma_first_where(m.downloads, p);
    if crate::lists::first_where(m.downloads, p) is None {
        assert(!p(m.downloads[i]));
    }
    let q = |q: QueuedDownload| q.pending.token != token;
    lemma_first_stays_first(m.pending, q);
}

proof fn lemma_first_stays_first(s: Seq<QueuedDownload>, q: spec_fn(QueuedDownload) -> bool)
    requires
        s.len() > 0,
        q(s[0]),
    ensures
        s.filter(q).len() > 0,
        s.filter(q)[0] == s[0],
    decreases s.len(),
{
    reveal(Seq::filter);
    if s.len() > 1 {
        assert(s.drop_last()[0] == s[0]);
        lemma_first_stays_first(s.drop_last(), q);
    } else {
        assert(s.drop_last().filter(q) =~= Seq::empty()) by {
            assert(s.drop_last() =~= Seq::empty());
        }
    }
}

/// A search that begins has its token and its words and no results yet: it takes the place of
/// an older one with its token, and comes last where there is none.
pub proof fn lemma_search_begins_afresh(
    m: SlotModel,
    token: SearchToken,
    query: String,
    peer_known: bool,
    i: int,
)
    ensures
        ({
            let (after, actions) = m.step(SlotOperation::InitiateSearch(token, query), peer_known);
            &&& actions.len() == 0
            &&& after.downloads == m.downloads && after.pending == m.pending && after.slots
                == m.slots
            &&& 0 <= i < m.searches.len() && m.searches[i].token == token && (forall|j: int|
                0 <= j < i ==> (#[trigger] m.searches[j]).token != token) ==> {
                &&& after.searches.len() == m.searches.len()
                &&& after.searches[i].token == token
                &&& after.searches[i].query == query@
                &&& after.searches[i].results.len() == 0
                &&& forall|j: int|
                    0 <= j < m.searches.len() && j != i ==> #[trigger] after.searches[j]
                        == m.searches[j]
            }
            &&& (forall|j: int|
                0 <= j < m.searches.len() ==> (#[trigger] m.searches[j]).token != token) ==> {
                &&& after.searches.len() == m.searches.len() + 1
                &&& after.searches.drop_last() == m.searches
                &&& after.searches.last().token == token
                &&& after.searches.last().query == query@
                &&& after.searches.last().results.len() == 0
            }
        }),
{
    let p = |s: super::slots::TokenSearchModel| s.token == token;
    if 0 <= i < m.searches.len() && m.searches[i].token == token && (forall|j: int|
        0 <= j < i ==> (#[trigger] m.searches[j]).token != token) {
        crate::lists::lemma_first_where_is(m.searches, p, i);
    }
    if forall|j: int| 0 <= j < m.searches.len() ==> (#[trigger] m.searches[j]).token != token {
        crate::lists::lemma_first_where_none(m.searches, p);
        let (after, _) = m.step(SlotOperation::InitiateSearch(token, query), peer_known);
        assert(after.searches.drop_last() =~= m.searches);
    }
}

} // verus!
