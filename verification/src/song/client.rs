//! A client that looks for songs.
use vstd::prelude::*;

use super::error::Error;
use super::ranker::SongResult;
use super::types::SongQuery;
use crate::soulseek::client::settings::PlainTextUnencrypted;
use crate::soulseek::client::slot_client::{DownloadPlan, SearchPlan};
use crate::soulseek::client::slots::CancelFlag;
use crate::soulseek::types::{File, SearchResult, StatusChannel};
use crate::text::append_str;
use crate::time::Duration;

verus! {

/// A client that looks for songs.
#[derive(Debug)]
pub struct Client {
    pub inner: crate::soulseek::client::slot_client::Client,
}

/// What the network is asked for: the title and the artist.
pub open spec fn search_text(query: SongQuery) -> Seq<char> {
    query.title@ + " "@ + query.artist@
}

/// What the network is asked for: the title and the artist.
pub fn text_query(query: &SongQuery) -> (r: String)
    ensures
        r@ == search_text(*query),
{
    let mut text = append_str(query.title.as_str(), " ");
    text.append(query.artist.as_str());
    text
}

/// The files of all answers, in their order.
pub open spec fn offered(results: Seq<SearchResult>) -> Seq<File>
    decreases results.len(),
{
    if results.len() == 0 {
        Seq::empty()
    } else {
        offered(results.drop_last()) + results.last().files@
    }
}

/// The files of all answers, in their order.
pub fn all_files(results: &Vec<SearchResult>) -> (r: Vec<File>)
    ensures
        r@ == offered(results@),
{
    let mut out: Vec<File> = Vec::new();
    let mut i: usize = 0;
    while i < results.len()
        invariant
            i <= results.len(),
            out@ == offered(results@.take(i as int)),
        decreases results.len() - i,
    {
        let files = &results[i].files;
        let ghost before = out@;
        let mut k: usize = 0;
        while k < files.len()
            invariant
                k <= files.len(),
                out@ == before + files@.take(k as int),
            decreases files.len() - k,
        {
            out.push(files[k].clone());
            assert(files@.take(k + 1) =~= files@.take(k as int).push(files@[k as int]));
            assert(out@ =~= before + files@.take(k + 1));
            k += 1;
        }
        assert(files@.take(k as int) =~= files@);
        assert(results@.take(i + 1).drop_last() =~= results@.take(i as int));
        i += 1;
    }
    assert(results@.take(i as int) =~= results@);
    out
}

/// The best of ranked results; an error where there is none.
pub fn best_result(mut results: Vec<SongResult>) -> (r: Result<SongResult, Error>)
    ensures
        match r {
            Ok(best) => results@.len() > 0 && best == results@[0],
            Err(e) => results@.len() == 0 && e is NoResults,
        },
{
    if results.len() == 0 {
        Err(Error::NoResults)
    } else {
        Ok(results.remove(0))
    }
}

impl Client {
    /// A client that is not connected.
    pub fn new(username: String, password: String) -> (r: Client)
        ensures
            r.inner.settings.username == PlainTextUnencrypted(username),
            r.inner.settings.password == PlainTextUnencrypted(password),
            r.inner.settings.has_defaults(),
            r.inner.inner.state == crate::soulseek::client::session::ClientState::Disconnected,
            r.inner.inner.active is None,
            r.inner.inner.pending_downloads@.len() == 0,
            crate::soulseek::client::slot_client::limits_searches(
                r.inner.search_limiter,
                r.inner.settings,
            ),
    {
        Client {
            inner: crate::soulseek::client::slot_client::Client::new(
                PlainTextUnencrypted(username),
                PlainTextUnencrypted(password),
            ),
        }
    }

    /// Begin to look for a song, by a search that need not wait; an error where there never was a connection.
    pub fn search(&mut self, query: &SongQuery) -> (r: Result<SearchPlan, Error>)
        requires
            vstd::utf8::encode_utf8(search_text(*query)).len() <= usize::MAX - 128,
        ensures
            crate::soulseek::client::slot_client::search_counted(old(self).inner, final(self).inner),
            match r {
                Ok(plan) => old(self).inner.inner.active == Some(plan.active)
                    && crate::soulseek::client::slot_client::searches_for(
                    plan,
                    search_text(*query),
                ),
                Err(e) => old(self).inner.inner.active is None && e == Error::Soulseek(
                    crate::soulseek::error::SoulseekRs::NotConnected,
                ),
            },
    {
        match self.inner.search(text_query(query).as_str()) {
            Ok(plan) => Ok(plan),
            Err(e) => Err(Error::Soulseek(e)),
        }
    }

    /// Ask for the file of a result.
    pub fn download(
        &mut self,
        result: &SongResult,
        download_dir: String,
        progress_timeout: Option<Duration>,
        recv_timeout: Option<Duration>,
        channel: StatusChannel,
        cancel: CancelFlag,
    ) -> (r: DownloadPlan)
        requires
            vstd::utf8::encode_utf8(result.filename@).len() <= usize::MAX - 128,
        ensures
            crate::soulseek::client::slot_client::download_begun(
                old(self).inner,
                final(self).inner,
                crate::soulseek::client::slot_client::request_for(
                    result.filename,
                    result.username,
                    result.size,
                    download_dir,
                    progress_timeout,
                    channel,
                    cancel,
                ),
                recv_timeout,
                r,
            ),
    {
        self.inner.download(
            result.filename.clone(),
            result.username.clone(),
            result.size,
            download_dir,
            progress_timeout,
            recv_timeout,
            channel,
            cancel,
        )
    }
}

} // verus!
