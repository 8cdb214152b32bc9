//! What a song is looked for by, and what is made of what is offered.
use vstd::prelude::*;

use super::error::Error;
use super::ranker::SongResult;
use super::types::{FileKind, FileType, SongQuery, WantedFileTypes};
use crate::downloader::{FileTypeArg, TrackRow};
use crate::soulseek::actor::server_actor::ServerMessage;
use crate::soulseek::client::settings::{
    ClientSettings, KeepAliveSettings, PlainTextUnencrypted, ReconnectSettings,
};
use crate::soulseek::client::slot_client::{DownloadPlan, SearchPlan};
use crate::soulseek::client::slots::{CancelFlag, SlotOperation};
use crate::soulseek::types::StatusChannel;
use crate::time::Duration;

verus! {

/// A track is looked for by its title, its artist, its album and how long it lasts, whatever
/// its bitrate.
pub proof fn lemma_track_is_looked_for(row: TrackRow, r: SongQuery)
    requires
        call_ensures(crate::downloader::query_for, (&row,), r),
    ensures
        r.title == row.title,
        r.artist == row.artist,
        r.album == Some(row.album),
        r.duration_secs == Some(row.duration_seconds),
        r.min_bitrate_kbps is None,
{
}

/// Asked for lossless files, exactly FLAC, ALAC, WAV and AIFF are taken; for lossy ones,
/// exactly MP3, AAC, M4A, Ogg and Opus; for all, everything.
pub proof fn lemma_kinds_that_are_taken(
    lossless: WantedFileTypes,
    lossy: WantedFileTypes,
    all: WantedFileTypes,
    kind: FileKind,
)
    requires
        call_ensures(crate::downloader::wanted_file_types, (FileTypeArg::Lossless,), lossless),
        call_ensures(crate::downloader::wanted_file_types, (FileTypeArg::Lossy,), lossy),
        call_ensures(crate::downloader::wanted_file_types, (FileTypeArg::All,), all),
    ensures
        lossless.accepts(kind) <==> kind is Flac || kind is Alac || kind is Wav || kind is Aiff,
        lossy.accepts(kind) <==> kind is Mp3 || kind is Aac || kind is M4a || kind is Ogg
            || kind is Opus,
        all.accepts(kind),
{
}

/// A kind that is wanted stands in the order of those that are, at its first place; where
/// everything is wanted nothing has a place.
pub proof fn lemma_place_among_the_wanted(
    types: Vec<FileType>,
    file_type: FileType,
    i: int,
    r: Option<usize>,
    all: Option<usize>,
)
    requires
        call_ensures(
            WantedFileTypes::priority_index,
            (&WantedFileTypes::Specific(types), &file_type),
            r,
        ),
        call_ensures(WantedFileTypes::priority_index, (&WantedFileTypes::All, &file_type), all),
    ensures
        all is None,
        0 <= i < types@.len() && types@[i]@ == file_type@ && (forall|j: int|
            0 <= j < i ==> (#[trigger] types@[j])@ != file_type@) ==> r == Some(i as usize),
        (forall|j: int| 0 <= j < types@.len() ==> (#[trigger] types@[j])@ != file_type@) ==> r
            is None,
{
    if 0 <= i < types@.len() && types@[i]@ == file_type@ {
        assert(super::types::kinds(types@)[i] == file_type@);
    }
}

/// The best result is the first of those that are ranked; without results that is an error.
pub proof fn lemma_best_result_is_the_first(
    results: Vec<SongResult>,
    r: Result<SongResult, Error>,
)
    requires
        call_ensures(super::client::best_result, (results,), r),
    ensures
        results@.len() > 0 ==> r == Ok::<SongResult, Error>(results@[0]),
        results@.len() == 0 ==> (r matches Err(e) && e is NoResults),
{
}

/// A song is searched for with its title and its artist.
pub proof fn lemma_song_is_searched_for(
    c: &mut super::client::Client,
    query: SongQuery,
    r: Result<SearchPlan, Error>,
)
    requires
        call_ensures(super::client::Client::search, (c, &query), r),
    ensures
        r is Ok <==> old(c).inner.inner.active is Some,
        r matches Ok(plan) ==> {
            &&& plan.to_server matches ServerMessage::FileSearch { token, query: words }
            &&& words@ == query.title@ + seq![' '] + query.artist@
            &&& plan.to_worker matches SlotOperation::InitiateSearch(t, q)
            &&& t == token
            &&& q@ == words@
        },
{
    super::ranking_laws::lemma_asked_for_title_and_artist(query);
}

/// The file of a result is asked of the user who offered it, by the path under which it was
/// offered and with the size that was told.
pub proof fn lemma_file_of_a_result_is_asked_for(
    c: &mut super::client::Client,
    result: SongResult,
    directory: String,
    progress_timeout: Option<Duration>,
    recv_timeout: Option<Duration>,
    channel: StatusChannel,
    cancel: CancelFlag,
    r: DownloadPlan,
)
    requires
        call_ensures(
            super::client::Client::download,
            (c, &result, directory, progress_timeout, recv_timeout, channel, cancel),
            r,
        ),
    ensures
        r.download.download.username == result.username,
        r.download.download.filename == result.filename,
        r.download.download.size == result.size,
        r.download.download.download_directory == directory,
        r.download.download.sender == channel,
        r.download.download.token == r.handle.token,
        r.handle.recv_timeout == recv_timeout,
        r.handle.progress_timeout == progress_timeout,
        old(c).inner.inner.active matches Some(a) ==> (r.to_worker matches Some((to, op)) && to
            == a.op_tx && (op matches SlotOperation::RequestDownload(q) && q.pending.filename
            == result.filename && q.pending.username == result.username && q.pending.size
            == result.size)),
{
}

/// Unless it is told otherwise, a client listens, keeps its connection alive, connects again
/// after one second and then at growing intervals of at most a minute without giving up,
/// makes at most thirty-four searches in two hundred and twenty seconds, and runs two
/// downloads at once.
pub proof fn lemma_what_a_client_is_told_by_default(
    username: PlainTextUnencrypted,
    password: PlainTextUnencrypted,
    r: ClientSettings,
)
    requires
        call_ensures(ClientSettings::new, (username, password), r),
    ensures
        r.username == username,
        r.password == password,
        r.server_address.host()@ == "server.slsknet.org"@,
        r.server_address.port() == 2416,
        r.enable_listen,
        r.listen_port == 2234,
        r.tcp_keepalive_settings matches KeepAliveSettings::Enabled { idle, interval, count, .. }
            && idle@ == 10_000_000_000 && interval@ == 2_000_000_000 && count == 10,
        r.reconnect_settings matches ReconnectSettings::EnabledExponentialBackoff {
            min_delay,
            max_delay,
            max_attempts,
        } && min_delay@ == 1_000_000_000 && max_delay@ == 60_000_000_000 && max_attempts is None,
        r.search_rate_limit_settings matches Some(s) && s.searches == 34 && s.per_period@
            == 220_000_000_000,
        r.download_rate_limit_settings matches Some(d) && d.concurrent_downloads == 2,
{
}

} // verus!
