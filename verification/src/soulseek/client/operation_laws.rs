//! What becomes of the downloads of a list, told by the downloads themselves.
use vstd::prelude::*;

use super::operation::ClientAction;
use crate::soulseek::token::DownloadToken;
use crate::soulseek::types::{Download, DownloadStatus, SearchResult, Transfer};

verus! {

/// The caller of every download of the user, or of the file where one is named, is told
/// that it failed, and no other caller is told anything.
pub proof fn lemma_callers_are_told_of_failure(
    downloads: Seq<Download>,
    username: Seq<char>,
    filename: Option<Seq<char>>,
)
    ensures
        ({
            let actions = super::operation::failure_notices(
                super::operation::failing(downloads, username, filename),
            );
            &&& forall|j: int|
                0 <= j < downloads.len() && (#[trigger] downloads[j]).username@ == username && (
                filename matches Some(f) ==> downloads[j].filename@ == f) ==> actions.contains(
                    ClientAction::Notify {
                        channel: downloads[j].sender,
                        status: DownloadStatus::Failed,
                    },
                )
            &&& forall|k: int|
                0 <= k < actions.len() ==> exists|j: int|
                    0 <= j < downloads.len() && (#[trigger] downloads[j]).username@ == username && (
                    filename matches Some(f) ==> downloads[j].filename@ == f)
                        && #[trigger] actions[k] == (ClientAction::Notify {
                        channel: downloads[j].sender,
                        status: DownloadStatus::Failed,
                    })
        }),
{
    let p = super::operation::concerns(username, filename);
    let failed = super::operation::failing(downloads, username, filename);
    let actions = super::operation::failure_notices(failed);
    let note = |d: Download|
        ClientAction::Notify { channel: d.sender, status: DownloadStatus::Failed };
    crate::lists::lemma_filter_keeps(downloads, p);
    assert forall|j: int|
        0 <= j < downloads.len() && (#[trigger] downloads[j]).username@ == username && (
        filename matches Some(f) ==> downloads[j].filename@ == f) implies actions.contains(
        note(downloads[j]),
    ) by {
        assert(p(downloads[j]));
        let k = choose|k: int| 0 <= k < failed.len() && failed[k] == downloads[j];
        assert(actions[k] == note(downloads[j]));
    }
    assert forall|k: int| 0 <= k < actions.len() implies exists|j: int|
        0 <= j < downloads.len() && (#[trigger] downloads[j]).username@ == username && (
        filename matches Some(f) ==> downloads[j].filename@ == f) && #[trigger] actions[k] == note(
            downloads[j],
        ) by {
        assert(actions[k] == note(failed[k]));
        assert(p(failed[k]));
        let j = choose|j: int| 0 <= j < downloads.len() && downloads[j] == failed[k];
        assert(p(downloads[j]));
    }
}

/// A download is forgotten exactly where it shares its token with one that failed: one of
/// the user, or of the file where one is named.
pub proof fn lemma_failed_downloads_are_forgotten(
    downloads: Seq<Download>,
    username: Seq<char>,
    filename: Option<Seq<char>>,
)
    ensures
        ({
            let left = super::operation::surviving(downloads, username, filename);
            &&& forall|k: int|
                0 <= k < left.len() ==> downloads.contains(#[trigger] left[k])
            &&& forall|i: int, j: int|
                #![trigger downloads[i], downloads[j]]
                0 <= i < downloads.len() && 0 <= j < downloads.len() && downloads[j].username@
                    == username && (filename matches Some(f) ==> downloads[j].filename@ == f)
                    && downloads[i].token == downloads[j].token ==> !left.contains(downloads[i])
            &&& forall|i: int|
                0 <= i < downloads.len() && (forall|j: int|
                    0 <= j < downloads.len() && (#[trigger] downloads[j]).username@ == username && (
                    filename matches Some(f) ==> downloads[j].filename@ == f) ==> downloads[j].token
                        != downloads[i].token) ==> left.contains(#[trigger] downloads[i])
        }),
{
    let p = super::operation::concerns(username, filename);
    let failed = super::operation::failing(downloads, username, filename);
    let tokens = super::operation::tokens_of(failed);
    let q = super::operation::has_none_of(tokens);
    let left = super::operation::surviving(downloads, username, filename);
    crate::lists::lemma_filter_keeps(downloads, p);
    crate::lists::lemma_filter_keeps(downloads, q);
    assert forall|i: int, j: int|
        #![trigger downloads[i], downloads[j]]
        0 <= i < downloads.len() && 0 <= j < downloads.len() && downloads[j].username@ == username
            && (filename matches Some(f) ==> downloads[j].filename@ == f) && downloads[i].token
            == downloads[j].token implies !left.contains(downloads[i]) by {
        assert(p(downloads[j]));
        let k = choose|k: int| 0 <= k < failed.len() && failed[k] == downloads[j];
        assert(tokens[k] == downloads[i].token);
        if left.contains(downloads[i]) {
            let l = choose|l: int| 0 <= l < left.len() && left[l] == downloads[i];
            assert(q(left[l]));
        }
    }
    assert forall|i: int|
        0 <= i < downloads.len() && (forall|j: int|
            0 <= j < downloads.len() && (#[trigger] downloads[j]).username@ == username && (
            filename matches Some(f) ==> downloads[j].filename@ == f) ==> downloads[j].token
                != downloads[i].token) implies left.contains(#[trigger] downloads[i]) by {
        if tokens.contains(downloads[i].token) {
            let k = choose|k: int| 0 <= k < tokens.len() && tokens[k] == downloads[i].token;
            assert(p(failed[k]));
            let j = choose|j: int| 0 <= j < downloads.len() && downloads[j] == failed[k];
            assert(p(downloads[j]));
        }
        assert(q(downloads[i]));
    }
}

/// Of a download that shares its token with no other: its caller is told that it failed
/// where it is of the user, and of the file where one is named, and it is forgotten just
/// then.
pub proof fn lemma_download_fails_or_stays(
    downloads: Seq<Download>,
    username: Seq<char>,
    filename: Option<Seq<char>>,
    i: int,
)
    requires
        0 <= i < downloads.len(),
        forall|j: int|
            0 <= j < downloads.len() && j != i ==> (#[trigger] downloads[j]).token
                != downloads[i].token,
    ensures
        ({
            let actions = super::operation::failure_notices(
                super::operation::failing(downloads, username, filename),
            );
            let left = super::operation::surviving(downloads, username, filename);
            let fails = downloads[i].username@ == username && (filename matches Some(f)
                ==> downloads[i].filename@ == f);
            &&& fails ==> actions.contains(
                ClientAction::Notify {
                    channel: downloads[i].sender,
                    status: DownloadStatus::Failed,
                },
            )
            &&& left.contains(downloads[i]) <==> !fails
            &&& forall|k: int|
                0 <= k < actions.len() ==> (#[trigger] actions[k] matches ClientAction::Notify {
                    status,
                    ..
                } && status == DownloadStatus::Failed)
        }),
{
    let fails = downloads[i].username@ == username && (filename matches Some(f)
        ==> downloads[i].filename@ == f);
    let left = super::operation::surviving(downloads, username, filename);
    assert(left.contains(downloads[i]) <==> !fails) by {
        lemma_failed_downloads_are_forgotten(downloads, username, filename);
    }
    lemma_callers_are_told_of_failure(downloads, username, filename);
}

/// A peer that proposes to send a file gives the first download of it from that peer its
/// token and its size; who asked, where the file goes and how far it has come are kept.
/// Where no other download has the old token, the others stay as they were, in order.
pub proof fn lemma_proposed_file_takes_its_token(
    downloads: Seq<Download>,
    transfer: Transfer,
    username: String,
    i: int,
)
    requires
        0 <= i < downloads.len(),
        downloads[i].username@ == username@,
        downloads[i].filename@ == transfer.filename@,
        forall|j: int|
            0 <= j < i ==> !((#[trigger] downloads[j]).username@ == username@
                && downloads[j].filename@ == transfer.filename@),
        transfer.token != downloads[i].token,
        forall|j: int|
            0 <= j < downloads.len() && j != i ==> (#[trigger] downloads[j]).token
                != downloads[i].token,
    ensures
        ({
            let after = super::operation::retokened(downloads, transfer, username);
            &&& after.len() == downloads.len()
            &&& after.drop_last() == downloads.remove(i)
            &&& after.last().token == transfer.token
            &&& after.last().size == transfer.size
            &&& after.last().username@ == username@
            &&& after.last().filename@ == transfer.filename@
            &&& after.last().download_directory == downloads[i].download_directory
            &&& after.last().status == downloads[i].status
            &&& after.last().sender == downloads[i].sender
        }),
{
    crate::lists::lemma_first_where_is(
        downloads,
        super::operation::concerns(username@, Some(transfer.filename@)),
        i,
    );
    let q = super::context::has_other_token(downloads[i].token);
    let entry = Download {
        username,
        filename: transfer.filename,
        token: transfer.token,
        size: transfer.size,
        download_directory: downloads[i].download_directory,
        status: downloads[i].status,
        sender: downloads[i].sender,
    };
    reveal(Seq::filter);
    assert(downloads.push(entry).drop_last() =~= downloads);
    lemma_all_but_one(downloads, q, i);
    assert(downloads.remove(i).push(entry).drop_last() =~= downloads.remove(i));
}

/// A peer that proposes to send a file that nobody asked of it changes nothing.
pub proof fn lemma_unasked_file_changes_nothing(
    downloads: Seq<Download>,
    transfer: Transfer,
    username: String,
)
    requires
        forall|j: int|
            0 <= j < downloads.len() ==> !((#[trigger] downloads[j]).username@ == username@
                && downloads[j].filename@ == transfer.filename@),
    ensures
        super::operation::retokened(downloads, transfer, username) == downloads,
{
    crate::lists::lemma_first_where_none(
        downloads,
        super::operation::concerns(username@, Some(transfer.filename@)),
    );
}

proof fn lemma_all_but_one(s: Seq<Download>, q: spec_fn(Download) -> bool, i: int)
    requires
        0 <= i < s.len(),
        !q(s[i]),
        forall|j: int| 0 <= j < s.len() && j != i ==> q(#[trigger] s[j]),
    ensures
        s.filter(q) == s.remove(i),
    decreases s.len(),
{
    reveal(Seq::filter);
    let init = s.drop_last();
    assert forall|j: int| 0 <= j < init.len() && j != i implies q(#[trigger] init[j]) by {
        assert(init[j] == s[j]);
    }
    if i == s.len() - 1 {
        lemma_all(init, q);
        assert(s.remove(i) =~= init);
    } else {
        lemma_all_but_one(init, q, i);
        assert(q(s[s.len() - 1]));
        assert(s.remove(i) =~= init.remove(i).push(s.last()));
    }
}

proof fn lemma_all(s: Seq<Download>, q: spec_fn(Download) -> bool)
    requires
        forall|j: int| 0 <= j < s.len() ==> q(#[trigger] s[j]),
    ensures
        s.filter(q) == s,
    decreases s.len(),
{
    reveal(Seq::filter);
    if s.len() > 0 {
        let init = s.drop_last();
        assert forall|j: int| 0 <= j < init.len() implies q(#[trigger] init[j]) by {
            assert(init[j] == s[j]);
        }
        lemma_all(init, q);
        assert(q(s[s.len() - 1]));
        assert(init.push(s.last()) =~= s);
    }
}

/// A status is set on the first download with the token, and nothing else changes.
pub proof fn lemma_status_is_set(
    downloads: Seq<Download>,
    token: DownloadToken,
    status: DownloadStatus,
    i: int,
)
    ensures
        ({
            let after = super::context::with_status(downloads, token, status);
            &&& after.len() == downloads.len()
            &&& 0 <= i < downloads.len() ==> after[i].username == downloads[i].username
                && after[i].filename == downloads[i].filename && after[i].token
                == downloads[i].token && after[i].size == downloads[i].size
                && after[i].download_directory == downloads[i].download_directory && after[i].sender
                == downloads[i].sender
            &&& 0 <= i < downloads.len() ==> after[i].status == if downloads[i].token == token && (
            forall|j: int| 0 <= j < i ==> (#[trigger] downloads[j]).token != token) {
                status
            } else {
                downloads[i].status
            }
        }),
{
    let p = super::context::has_token(token);
    crate::lists::lemma_first_where(downloads, p);
    match crate::lists::first_where(downloads, p) {
        Some(k) => {
            if k < i {
                assert(downloads[k].token == token);
            }
            if 0 <= i < k {
                assert(!p(downloads[i]));
            }
            assert forall|j: int| 0 <= j < k implies (#[trigger] downloads[j]).token != token by {
                assert(!p(downloads[j]));
            }
        },
        None => {
            if 0 <= i < downloads.len() {
                assert(!p(downloads[i]));
            }
        },
    }
}

/// An answer is entered, last, with the first search of its token, and no other search
/// changes; where no search has its token, nothing does.
pub proof fn lemma_answer_is_entered(
    m: super::context::ContextModel,
    result: SearchResult,
    i: int,
)
    ensures
        ({
            let after = m.with_result(result);
            &&& after.downloads == m.downloads
            &&& after.searches.len() == m.searches.len()
            &&& 0 <= i < m.searches.len() ==> after.searches[i].query == m.searches[i].query
                && after.searches[i].token == m.searches[i].token
            &&& 0 <= i < m.searches.len() ==> after.searches[i].results == if m.searches[i].token
                == result.token && (forall|j: int|
                0 <= j < i ==> (#[trigger] m.searches[j]).token != result.token) {
                m.searches[i].results.push(result)
            } else {
                m.searches[i].results
            }
        }),
{
    let p = |s: super::context::SearchModel| s.token == result.token;
    crate::lists::lemma_first_where(m.searches, p);
    match crate::lists::first_where(m.searches, p) {
        Some(k) => {
            if k < i {
                assert(m.searches[k].token == result.token);
            }
            if 0 <= i < k {
                assert(!p(m.searches[i]));
            }
            assert forall|j: int| 0 <= j < k implies (#[trigger] m.searches[j]).token
                != result.token by {
                assert(!p(m.searches[j]));
            }
        },
        None => {
            if 0 <= i < m.searches.len() {
                assert(!p(m.searches[i]));
            }
        },
    }
}

} // verus!
