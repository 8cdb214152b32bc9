//! What a client knows of its searches and downloads, and the handles by which
//! it reaches the rest of the program.
use vstd::prelude::*;

use crate::soulseek::token::DownloadToken;
use crate::soulseek::types::{Download, DownloadStatus, Search, SearchResult};

verus! {

/// The registry of the peers we are connected to.
#[derive(Debug, Clone, Copy, PartialEq, Eq, Structural)]
pub struct RegistryHandle(pub u64);

/// The channel on which the client takes operations.
#[derive(Debug, Clone, Copy, PartialEq, Eq, Structural)]
pub struct OperationChannel(pub u64);

/// The channel on which the connection to the server takes messages.
#[derive(Debug, Clone, Copy, PartialEq, Eq, Structural)]
pub struct ServerChannel(pub u64);

/// A search under the words it was made with.
#[derive(Debug)]
pub struct SearchEntry {
    pub query: String,
    pub search: Search,
}

/// A search as a value.
#[verifier::ext_equal]
pub struct SearchModel {
    pub query: Seq<char>,
    pub token: crate::soulseek::token::SearchToken,
    pub results: Seq<SearchResult>,
}

impl View for SearchEntry {
    type V = SearchModel;

    open spec fn view(&self) -> SearchModel {
        SearchModel {
            query: self.query@,
            token: self.search.token,
            results: self.search.results@,
        }
    }
}

/// The searches of a list as values.
pub open spec fn search_models(entries: Seq<SearchEntry>) -> Seq<SearchModel> {
    entries.map_values(|e: SearchEntry| e@)
}

/// What a client knows.
#[derive(Debug)]
pub struct ClientContext {
    pub peer_registry: Option<RegistryHandle>,
    pub sender: Option<OperationChannel>,
    pub server_sender: Option<ServerChannel>,
    pub searches: Vec<SearchEntry>,
    pub downloads: Vec<Download>,
}

/// What a client knows, as a value.
#[verifier::ext_equal]
pub struct ContextModel {
    pub peer_registry: Option<RegistryHandle>,
    pub sender: Option<OperationChannel>,
    pub server_sender: Option<ServerChannel>,
    pub searches: Seq<SearchModel>,
    pub downloads: Seq<Download>,
}

impl View for ClientContext {
    type V = ContextModel;

    open spec fn view(&self) -> ContextModel {
        ContextModel {
            peer_registry: self.peer_registry,
            sender: self.sender,
            server_sender: self.server_sender,
            searches: search_models(self.searches@),
            downloads: self.downloads@,
        }
    }
}

impl ContextModel {
    /// A result is entered with the first search of its token.
    pub open spec fn with_result(self, result: SearchResult) -> ContextModel {
        match crate::lists::first_where(
            self.searches,
            |s: SearchModel| s.token == result.token,
        ) {
            Some(i) => {
                let entry = SearchModel {
                    results: self.searches[i].results.push(result),
                    ..self.searches[i]
                };
                ContextModel { searches: self.searches.update(i, entry), ..self }
            },
            None => self,
        }
    }
}

/// The download has the token.
pub open spec fn has_token(token: DownloadToken) -> spec_fn(Download) -> bool {
    |d: Download| d.token == token
}

/// The download has another token.
pub open spec fn has_other_token(token: DownloadToken) -> spec_fn(Download) -> bool {
    |d: Download| d.token != token
}

/// The downloads with the status of the first one with the token set.
pub open spec fn with_status(
    downloads: Seq<Download>,
    token: DownloadToken,
    status: DownloadStatus,
) -> Seq<Download> {
    match crate::lists::first_where(downloads, has_token(token)) {
        Some(i) => downloads.update(i, Download { status, ..downloads[i] }),
        None => downloads,
    }
}

/// Where the first download with the token stands.
pub fn position_of(downloads: &Vec<Download>, token: DownloadToken) -> (r: Option<usize>)
    ensures
        match r {
            Some(i) => {
                &&& i < downloads@.len()
                &&& crate::lists::first_where(downloads@, has_token(token)) == Some(i as int)
            },
            None => crate::lists::first_where(downloads@, has_token(token)) is None,
        },
{
    let mut i: usize = 0;
    while i < downloads.len()
        invariant
            i <= downloads@.len(),
            forall|j: int| 0 <= j < i ==> !has_token(token)(#[trigger] downloads@[j]),
        decreases downloads@.len() - i,
    {
        if downloads[i].token == token {
            proof {
                crate::lists::lemma_first_where_is(downloads@, has_token(token), i as int);
            }
            return Some(i);
        }
        i += 1;
    }
    proof {
        crate::lists::lemma_first_where_none(downloads@, has_token(token));
    }
    None
}

/// Drop the downloads with the token.
pub fn drop_token(downloads: &mut Vec<Download>, token: DownloadToken)
    ensures
        final(downloads)@ == old(downloads)@.filter(has_other_token(token)),
{
    let ghost all = downloads@;
    let ghost p = has_other_token(token);
    let ghost mut k: int = 0;
    let mut i: usize = 0;
    proof {
        assert(all.take(0).filter(p) =~= Seq::empty()) by {
            reveal(Seq::filter);
        }
        assert(downloads@ =~= all.take(0).filter(p) + all.skip(0));
    }
    while i < downloads.len()
        invariant
            0 <= k <= all.len(),
            p == has_other_token(token),
            i == all.take(k).filter(p).len(),
            downloads@ == all.take(k).filter(p) + all.skip(k),
        decreases all.len() - k,
    {
        let ghost kept = all.take(k).filter(p);
        proof {
            crate::lists::lemma_filter_step(all, k, p);
            assert(downloads@[i as int] == all[k]);
        }
        if downloads[i].token == token {
            downloads.remove(i);
            assert(downloads@ =~= kept + all.skip(k + 1));
        } else {
            i += 1;
            assert(downloads@ =~= kept.push(all[k]) + all.skip(k + 1));
        }
        proof {
            k = k + 1;
        }
    }
    proof {
        assert(all.skip(k).len() == 0);
        assert(all.take(k) =~= all);
        assert(downloads@ =~= all.filter(p));
    }
}

impl ClientContext {
    /// A context without handles, searches or downloads.
    pub fn new() -> (r: Self)
        ensures
            r@ == (ContextModel {
                peer_registry: None,
                sender: None,
                server_sender: None,
                searches: Seq::empty(),
                downloads: Seq::empty(),
            }),
    {
        let r = ClientContext {
            peer_registry: None,
            sender: None,
            server_sender: None,
            searches: Vec::new(),
            downloads: Vec::new(),
        };
        assert(search_models(r.searches@) =~= Seq::empty());
        r
    }

    /// Take note of a download.
    pub fn add_download(&mut self, download: Download)
        ensures
            final(self)@ == (ContextModel {
                downloads: old(self)@.downloads.push(download),
                ..old(self)@
            }),
    {
        self.downloads.push(download);
    }

    /// Forget every download with the token.
    pub fn remove_download(&mut self, token: DownloadToken)
        ensures
            final(self)@ == (ContextModel {
                downloads: old(self)@.downloads.filter(has_other_token(token)),
                ..old(self)@
            }),
    {
        drop_token(&mut self.downloads, token);
    }

    /// The first download with the token.
    pub fn get_download_by_token(&self, token: DownloadToken) -> (r: Option<&Download>)
        ensures
            match r {
                Some(d) => {
                    &&& crate::lists::first_where(self@.downloads, has_token(token)) matches Some(i)
                    &&& *d == self@.downloads[i]
                },
                None => crate::lists::first_where(self@.downloads, has_token(token)) is None,
            },
    {
        match position_of(&self.downloads, token) {
            Some(i) => Some(&self.downloads[i]),
            None => None,
        }
    }

    /// The first download with the token, to change it.
    pub fn get_download_by_token_mut(&mut self, token: DownloadToken) -> (r: Option<&mut Download>)
        ensures
            match r {
                Some(d) => {
                    &&& crate::lists::first_where(old(self)@.downloads, has_token(token)) matches Some(i)
                    &&& *d == old(self)@.downloads[i]
                    &&& final(self)@ == (ContextModel {
                        downloads: old(self)@.downloads.update(i, *final(d)),
                        ..old(self)@
                    })
                },
                None => {
                    &&& crate::lists::first_where(old(self)@.downloads, has_token(token)) is None
                    &&& final(self)@ == old(self)@
                },
            },
    {
        match position_of(&self.downloads, token) {
            Some(i) => Some(&mut self.downloads[i]),
            None => None,
        }
    }

    /// The tokens of the downloads.
    pub fn get_download_tokens(&self) -> (r: Vec<DownloadToken>)
        ensures
            r@ == self@.downloads.map_values(|d: Download| d.token),
    {
        let mut out: Vec<DownloadToken> = Vec::new();
        let mut i: usize = 0;
        while i < self.downloads.len()
            invariant
                i <= self.downloads@.len(),
                out@ == self.downloads@.take(i as int).map_values(|d: Download| d.token),
            decreases self.downloads@.len() - i,
        {
            out.push(self.downloads[i].token);
            i += 1;
            assert(out@ =~= self.downloads@.take(i as int).map_values(|d: Download| d.token));
        }
        assert(self.downloads@.take(i as int) =~= self.downloads@);
        out
    }

    /// The downloads.
    pub fn get_downloads(&self) -> (r: &Vec<Download>)
        ensures
            r@ == self@.downloads,
    {
        &self.downloads
    }

    /// Enter a result with the first search of its token; where there is none, it
    /// is dropped.
    pub fn take_result(&mut self, result: SearchResult)
        ensures
            final(self)@ == old(self)@.with_result(result),
    {
        let ghost p = |s: SearchModel| s.token == result.token;
        let ghost models = self@.searches;
        let mut i: usize = 0;
        while i < self.searches.len()
            invariant
                i <= self.searches@.len(),
                *self == *old(self),
                models == self@.searches,
                p == (|s: SearchModel| s.token == result.token),
                forall|j: int| 0 <= j < i ==> !p(#[trigger] models[j]),
            decreases self.searches@.len() - i,
        {
            assert(models[i as int] == self.searches@[i as int]@);
            if self.searches[i].search.token == result.token {
                proof {
                    crate::lists::lemma_first_where_is(models, p, i as int);
                }
                let ghost result0 = result;
                self.searches[i].search.results.push(result);
                proof {
                    let entry = SearchModel {
                        results: models[i as int].results.push(result0),
                        ..models[i as int]
                    };
                    assert(self.searches@[i as int]@ =~= entry);
                    assert(self@.searches =~= models.update(i as int, entry));
                    assert(self@ =~= old(self)@.with_result(result0));
                }
                return;
            }
            i += 1;
        }
        proof {
            crate::lists::lemma_first_where_none(models, p);
        }
    }

    /// Set the status of the first download with the token, if there is one.
    pub fn update_download_with_status(&mut self, token: DownloadToken, status: DownloadStatus)
        ensures
            final(self)@ == (ContextModel {
                downloads: with_status(old(self)@.downloads, token, status),
                ..old(self)@
            }),
    {
        match position_of(&self.downloads, token) {
            Some(i) => {
                self.downloads[i].status = status;
                assert(self.downloads@ =~= with_status(old(self)@.downloads, token, status));
            },
            None => {},
        }
    }
}

impl Default for ClientContext {
    fn default() -> (r: Self)
        ensures
            r@.searches.len() == 0,
            r@.downloads.len() == 0,
            r@.peer_registry is None,
            r@.sender is None,
            r@.server_sender is None,
    {
        ClientContext::new()
    }
}

} // verus!
