//! A peer to fetch a file from: where the file goes, and what is reported on the
//! way.
use vstd::prelude::*;

use super::token::DownloadToken;
use super::types::{DownloadStatus, Speed};
use crate::text::{append_str, decimal_chars, from_chars, to_chars};

verus! {

/// What is sent to a peer so that it starts to send the file: the offset 0.
pub fn start_download() -> (r: Vec<u8>)
    ensures
        r@ == seq![0u8, 0u8, 0u8, 0u8, 0u8, 0u8, 0u8, 0u8],
{
    let mut out: Vec<u8> = Vec::new();
    let mut i: usize = 0;
    while i < 8
        invariant
            i <= 8,
            out@ == Seq::new(i as nat, |k: int| 0u8),
        decreases 8 - i,
    {
        out.push(0);
        i += 1;
        assert(out@ =~= Seq::new(i as nat, |k: int| 0u8));
    }
    assert(out@ =~= seq![0u8, 0u8, 0u8, 0u8, 0u8, 0u8, 0u8, 0u8]);
    out
}

/// How many bytes are read at a time.
pub const READ_BUFFER_SIZE: usize = 8192;

/// After how many reads progress is reported, about 120 KB.
pub const PROGRESS_UPDATE_CHUNKS: usize = 15;

/// Why a file could not be fetched; the text says what the system reported.
#[derive(Debug)]
pub enum DownloadError {
    ConnectionFailed(String),
    InvalidAddress(String),
    HandshakeFailed(String),
    StreamReadError(String),
    StreamWriteError(String),
    TokenNotFound(DownloadToken),
    DownloadInfoMissing,
    FileWriteError(String),
    PathResolutionError(String),
    InvalidTokenBytes,
    Cancelled,
    NoProgressTimeout,
}

/// The words that describe why a file could not be fetched.
pub open spec fn download_error_words(e: DownloadError) -> Seq<char> {
    match e {
        DownloadError::ConnectionFailed(s) => "Connection failed: "@ + s@,
        DownloadError::InvalidAddress(s) => "Invalid address: "@ + s@,
        DownloadError::HandshakeFailed(s) => "Handshake failed: "@ + s@,
        DownloadError::StreamReadError(s) => "Stream read error: "@ + s@,
        DownloadError::StreamWriteError(s) => "Stream write error: "@ + s@,
        DownloadError::TokenNotFound(t) => "Token not found: "@ + crate::text::decimal(t.0 as nat),
        DownloadError::DownloadInfoMissing => "Download info missing"@,
        DownloadError::FileWriteError(s) => "File write error: "@ + s@,
        DownloadError::PathResolutionError(s) => "Path resolution error: "@ + s@,
        DownloadError::InvalidTokenBytes => "Invalid token bytes received"@,
        DownloadError::Cancelled => "Download cancelled"@,
        DownloadError::NoProgressTimeout => "Download timed out"@,
    }
}

impl DownloadError {
    /// The reason in words.
    pub fn message(&self) -> (r: String)
        ensures
            r@ == download_error_words(*self),
    {
        match self {
            DownloadError::ConnectionFailed(s) => append_str("Connection failed: ", s.as_str()),
            DownloadError::InvalidAddress(s) => append_str("Invalid address: ", s.as_str()),
            DownloadError::HandshakeFailed(s) => append_str("Handshake failed: ", s.as_str()),
            DownloadError::StreamReadError(s) => append_str("Stream read error: ", s.as_str()),
            DownloadError::StreamWriteError(s) => append_str("Stream write error: ", s.as_str()),
            DownloadError::TokenNotFound(t) => append_str(
                "Token not found: ",
                from_chars(&decimal_chars(t.0 as u64)).as_str(),
            ),
            DownloadError::DownloadInfoMissing => "Download info missing".to_owned(),
            DownloadError::FileWriteError(s) => append_str("File write error: ", s.as_str()),
            DownloadError::PathResolutionError(s) => append_str(
                "Path resolution error: ",
                s.as_str(),
            ),
            DownloadError::InvalidTokenBytes => "Invalid token bytes received".to_owned(),
            DownloadError::Cancelled => "Download cancelled".to_owned(),
            DownloadError::NoProgressTimeout => "Download timed out".to_owned(),
        }
    }
}

/// A peer to fetch a file from.
#[derive(Debug)]
pub struct DownloadPeer {
    pub username: String,
    pub host: String,
    pub port: u32,
    pub own_username: String,
    /// The number sent in the pierce-firewall handshake.
    pub token: u32,
}

impl DownloadPeer {
    /// A peer to fetch a file from.
    pub fn new(
        username: String,
        host: String,
        port: u32,
        token: u32,
        own_username: String,
    ) -> (r: Self)
        ensures
            r == (DownloadPeer { username, host, port, own_username, token }),
    {
        DownloadPeer { username, host, port, own_username, token }
    }

    /// Where to connect: the host, a colon and the port.
    pub fn address(&self) -> (r: String)
        ensures
            r@ == self.host@ + ":"@ + crate::text::decimal(self.port as nat),
    {
        let mut out = append_str(self.host.as_str(), ":");
        out.append(from_chars(&decimal_chars(self.port as u64)).as_str());
        out
    }
}

// ---- where the file goes --------------------------------------------------------

/// A text without the given character at its start.
pub open spec fn trim_start_of(s: Seq<char>, c: char) -> Seq<char>
    decreases s.len(),
{
    if s.len() > 0 && s[0] == c {
        trim_start_of(s.skip(1), c)
    } else {
        s
    }
}

/// One path below another, where the second is relative.
pub open spec fn below(base: Seq<char>, rest: Seq<char>) -> Seq<char> {
    if base.len() == 0 || base.last() == '/' {
        base + rest
    } else {
        base.push('/') + rest
    }
}

/// A path in which a tilde at the start stands for the home directory, where one
/// is known.
pub open spec fn expanded(path: Seq<char>, home: Option<Seq<char>>) -> Seq<char> {
    if path.len() > 0 && path[0] == '~' && home is Some {
        below(home->0, trim_start_of(path.skip(1), '/'))
    } else {
        path
    }
}

/// A path in which a tilde at the start stands for the home directory, where one
/// is known.
pub fn expand_path(path: &str, home: Option<String>) -> (r: String)
    ensures
        r@ == expanded(
            path@,
            match home {
                Some(h) => Some(h@),
                None => None,
            },
        ),
{
    let chars = to_chars(path);
    let n: usize = chars.len();
    match home {
        Some(home) => {
            if n > 0 && chars[0] == '~' {
                let mut i: usize = 1;
                while i < n && chars[i] == '/'
                    invariant
                        1 <= i <= n,
                        n == chars@.len(),
                        trim_start_of(chars@.skip(1), '/') == trim_start_of(
                            chars@.skip(i as int),
                            '/',
                        ),
                    decreases n - i,
                {
                    assert(chars@.skip(i as int).skip(1) =~= chars@.skip(i + 1));
                    i += 1;
                }
                let rest = crate::text::sub_chars(&chars, i, n);
                assert(rest@ =~= chars@.skip(i as int));
                let base = to_chars(home.as_str());
                let m: usize = base.len();
                if m == 0 || base[m - 1] == '/' {
                    append_str(home.as_str(), from_chars(&rest).as_str())
                } else {
                    let mut out = append_str(home.as_str(), "/");
                    out.append(from_chars(&rest).as_str());
                    proof {
                        reveal_strlit("/");
                        assert(out@ =~= home@.push('/') + rest@);
                    }
                    out
                }
            } else {
                path.to_owned()
            }
        },
        None => path.to_owned(),
    }
}

/// The directory a file goes to: the one asked for, or its parent where that is
/// no directory.
pub fn choose_directory(
    expanded_path: String,
    is_dir: bool,
    parent: Option<String>,
) -> (r: Result<String, DownloadError>)
    ensures
        match r {
            Ok(dir) => if is_dir {
                dir == expanded_path
            } else {
                parent == Some(dir)
            },
            Err(e) => {
                &&& !is_dir
                &&& parent is None
                &&& e matches DownloadError::PathResolutionError(s)
                &&& s@ == "Cannot resolve parent directory for: "@ + expanded_path@
            },
        },
{
    if is_dir {
        Ok(expanded_path)
    } else {
        match parent {
            Some(dir) => Ok(dir),
            None => Err(
                DownloadError::PathResolutionError(
                    append_str("Cannot resolve parent directory for: ", expanded_path.as_str()),
                ),
            ),
        }
    }
}

// ---- the transfer -----------------------------------------------------------------

/// The token with which a pierced stream begins; an error where fewer than four
/// bytes came first.
pub fn pierced_token(first: &Vec<u8>) -> (r: Result<DownloadToken, DownloadError>)
    ensures
        match r {
            Ok(token) => {
                &&& first@.len() >= 4
                &&& token.0 == super::message::le32(first@, 0)
            },
            Err(e) => first@.len() < 4 && e == DownloadError::InvalidTokenBytes,
        },
{
    if first.len() < 4 {
        Err(DownloadError::InvalidTokenBytes)
    } else {
        let n: u32 = first[0] as u32 + 0x100 * (first[1] as u32) + 0x1_0000 * (first[2] as u32)
            + 0x100_0000 * (first[3] as u32);
        Ok(DownloadToken(n))
    }
}

/// A transfer that runs.
#[derive(Debug, Clone, Copy, PartialEq, Eq, Structural)]
pub struct Progress {
    /// How many bytes have come.
    pub total_bytes: u64,
    /// How many reads there have been.
    pub chunks: u64,
    /// How many bytes are to come in all.
    pub size: u64,
}

/// What a read that gave bytes leads to.
#[derive(Debug, Clone, Copy, PartialEq, Eq, Structural)]
pub struct ChunkOutcome {
    /// Progress is reported.
    pub report: bool,
    /// Every byte has come.
    pub done: bool,
}

impl Progress {
    /// A transfer before the first read, with the bytes that came with the
    /// handshake.
    pub fn new(initial_bytes: u64, size: u64) -> (r: Progress)
        ensures
            r == (Progress { total_bytes: initial_bytes, chunks: 0, size }),
    {
        Progress { total_bytes: initial_bytes, chunks: 0, size }
    }

    /// Whether the bytes that came with the handshake are reported at once.
    pub fn report_initial(&self) -> (r: bool)
        ensures
            r == (self.total_bytes >= PROGRESS_UPDATE_CHUNKS * READ_BUFFER_SIZE),
    {
        self.total_bytes >= 122_880
    }

    /// Take note of a read: progress is reported after every fifteenth, and the
    /// transfer is done when as many bytes as the file has have come.
    pub fn on_chunk(&mut self, bytes_read: u64) -> (r: ChunkOutcome)
        requires
            old(self).total_bytes + bytes_read <= u64::MAX,
            old(self).chunks < u64::MAX,
        ensures
            *final(self) == (Progress {
                total_bytes: (old(self).total_bytes + bytes_read) as u64,
                chunks: (old(self).chunks + 1) as u64,
                size: old(self).size,
            }),
            r.report == ((old(self).chunks + 1) % PROGRESS_UPDATE_CHUNKS as int == 0),
            r.done == (old(self).total_bytes + bytes_read >= old(self).size),
    {
        self.total_bytes = self.total_bytes + bytes_read;
        self.chunks = self.chunks + 1;
        ChunkOutcome {
            report: self.chunks % 15 == 0,
            done: self.total_bytes >= self.size,
        }
    }

    /// What is reported, at the given speed.
    pub fn status(&self, speed: Speed) -> (r: DownloadStatus)
        ensures
            r == (DownloadStatus::InProgress {
                bytes_downloaded: self.total_bytes,
                total_bytes: self.size,
                speed_bytes_per_sec: speed,
            }),
    {
        DownloadStatus::InProgress {
            bytes_downloaded: self.total_bytes,
            total_bytes: self.size,
            speed_bytes_per_sec: speed,
        }
    }
}

/// The bytes that reads gave in all.
pub open spec fn sum_of(reads: Seq<u64>) -> nat
    decreases reads.len(),
{
    if reads.len() == 0 {
        0
    } else {
        sum_of(reads.drop_last()) + reads.last() as nat
    }
}

/// A transfer after some reads.
pub open spec fn after_reads(p: Progress, reads: Seq<u64>) -> Progress
    decreases reads.len(),
{
    if reads.len() == 0 {
        p
    } else {
        let q = after_reads(p, reads.drop_last());
        Progress {
            total_bytes: (q.total_bytes + reads.last()) as u64,
            chunks: (q.chunks + 1) as u64,
            size: q.size,
        }
    }
}

/// Whatever the sizes of the reads, their sum is counted, and each read once.
pub proof fn lemma_every_byte_counted(p: Progress, reads: Seq<u64>)
    requires
        p.total_bytes + sum_of(reads) <= u64::MAX,
        p.chunks + reads.len() <= u64::MAX,
    ensures
        after_reads(p, reads).total_bytes == p.total_bytes + sum_of(reads),
        after_reads(p, reads).chunks == p.chunks + reads.len(),
        after_reads(p, reads).size == p.size,
    decreases reads.len(),
{
    if reads.len() > 0 {
        lemma_every_byte_counted(p, reads.drop_last());
    }
}

} // verus!
