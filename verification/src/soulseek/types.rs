//! What the network tells us about files, searches and transfers.
use std::collections::HashMap;

use vstd::prelude::*;

use super::error::{Result, SoulseekRs};
use super::message::{Field, Message};
use super::path::SoulseekPath;
use super::token::{DownloadToken, SearchToken};

verus! {

broadcast use vstd::std_specs::hash::group_hash_axioms;

// ---- compressed data --------------------------------------------------------

/// What a zlib stream expands to; `None` where it is not a whole, valid stream.
pub uninterp spec fn inflated(stream: Seq<u8>) -> Option<Seq<u8>>;

/// `miniz_oxide::inflate::decompress_to_vec_zlib`. Whether it succeeds, and with
/// what bytes, is a function of the stream alone.
#[verifier::external_body]
fn inflate(stream: &Vec<u8>) -> (r: Option<Vec<u8>>)
    ensures
        match r {
            Some(data) => inflated(stream@) == Some(data@),
            None => inflated(stream@) is None,
        },
{
    miniz_oxide::inflate::decompress_to_vec_zlib(stream.as_slice()).ok()
}

// ---- files ------------------------------------------------------------------

/// What a peer says of a file's audio.
#[derive(Debug, Clone, Copy, PartialEq, Eq, Structural)]
pub struct FileAttributes {
    /// In kbit/s.
    pub bitrate: Option<u32>,
    /// In seconds.
    pub duration: Option<u32>,
    /// Whether the bit rate varies.
    pub vbr: Option<bool>,
    /// In Hz.
    pub sample_rate: Option<u32>,
    /// In bits.
    pub bit_depth: Option<u32>,
}

impl Default for FileAttributes {
    fn default() -> (r: Self)
        ensures
            r == (FileAttributes {
                bitrate: None,
                duration: None,
                vbr: None,
                sample_rate: None,
                bit_depth: None,
            }),
    {
        FileAttributes {
            bitrate: None,
            duration: None,
            vbr: None,
            sample_rate: None,
            bit_depth: None,
        }
    }
}

/// The attributes that numbered values stand for.
pub open spec fn attributes_of(values: Map<u32, u32>) -> FileAttributes {
    FileAttributes {
        bitrate: values.get(0),
        duration: values.get(1),
        vbr: match values.get(2) {
            Some(v) => Some(v != 0),
            None => None,
        },
        sample_rate: values.get(4),
        bit_depth: values.get(5),
    }
}

fn value_of(map: &HashMap<u32, u32>, code: u32) -> (r: Option<u32>)
    ensures
        r == map@.get(code),
{
    match map.get(&code) {
        Some(v) => Some(*v),
        None => None,
    }
}

impl FileAttributes {
    /// The attributes that numbered values stand for.
    pub fn from_map(map: HashMap<u32, u32>) -> (r: Self)
        ensures
            r == attributes_of(map@),
    {
        FileAttributes {
            bitrate: value_of(&map, 0),
            duration: value_of(&map, 1),
            vbr: match value_of(&map, 2) {
                Some(v) => Some(v != 0),
                None => None,
            },
            sample_rate: value_of(&map, 4),
            bit_depth: value_of(&map, 5),
        }
    }
}

/// A file that a peer offers.
#[derive(Debug)]
pub struct File {
    pub username: String,
    pub name: SoulseekPath,
    pub size: u64,
    pub attributes: FileAttributes,
}

impl Clone for File {
    fn clone(&self) -> (r: Self)
        ensures
            r == *self,
    {
        File {
            username: self.username.clone(),
            name: self.name.clone(),
            size: self.size,
            attributes: self.attributes,
        }
    }
}

/// A file as a value.
pub struct FileEntry {
    pub username: Seq<char>,
    pub name: Seq<char>,
    pub size: u64,
    pub attributes: FileAttributes,
}

impl View for File {
    type V = FileEntry;

    open spec fn view(&self) -> FileEntry {
        FileEntry {
            username: self.username@,
            name: self.name@,
            size: self.size,
            attributes: self.attributes,
        }
    }
}

/// The files of a list as values.
pub open spec fn entries(files: Seq<File>) -> Seq<FileEntry> {
    files.map_values(|f: File| f@)
}

/// A notice that an upload failed.
#[derive(Debug)]
pub struct UploadFailed {
    pub filename: SoulseekPath,
}

impl UploadFailed {
    /// Read the notice: the path of the file.
    pub fn new_from_message(message: &mut Message) -> (r: Self)
        requires
            old(message)@.holds(seq![Field::Text]),
        ensures
            r.filename@ == super::message::text_at(old(message)@.bytes, old(message)@.at),
            final(message)@ == old(message)@.past(Field::Text),
    {
        UploadFailed { filename: SoulseekPath::from_wire(message.read_string()) }
    }
}

// ---- search results -----------------------------------------------------------

/// What one peer answers to a search.
#[derive(Debug)]
pub struct SearchResult {
    pub token: SearchToken,
    pub files: Vec<File>,
    pub slots: u8,
    pub speed: u32,
    pub username: String,
}

/// A search and the answers to it so far.
#[derive(Debug)]
pub struct Search {
    pub token: SearchToken,
    pub results: Vec<SearchResult>,
}

/// An answer to a search as a value.
pub struct Answer {
    pub token: SearchToken,
    pub files: Seq<FileEntry>,
    pub slots: u8,
    pub speed: u32,
    pub username: Seq<char>,
}

impl View for SearchResult {
    type V = Answer;

    open spec fn view(&self) -> Answer {
        Answer {
            token: self.token,
            files: entries(self.files@),
            slots: self.slots,
            speed: self.speed,
            username: self.username@,
        }
    }
}

impl Clone for SearchResult {
    fn clone(&self) -> (r: Self)
        ensures
            r@ == self@,
    {
        let mut files: Vec<File> = Vec::new();
        let mut i: usize = 0;
        while i < self.files.len()
            invariant
                i <= self.files@.len(),
                files@ == self.files@.take(i as int),
            decreases self.files@.len() - i,
        {
            files.push(self.files[i].clone());
            i += 1;
            assert(files@ =~= self.files@.take(i as int));
        }
        assert(files@ =~= self.files@);
        SearchResult {
            token: self.token,
            files,
            slots: self.slots,
            speed: self.speed,
            username: self.username.clone(),
        }
    }
}

/// Where a field ends, of fields that must all be there.
pub open spec fn after(bytes: Seq<u8>, at: Option<int>, field: Field) -> Option<int> {
    match at {
        Some(i) => super::message::field_end(bytes, i, field),
        None => None,
    }
}

/// The numbered values of a file: `n` pairs of a number and a value, of which a
/// later pair replaces an earlier one with its number.
pub open spec fn values_at(bytes: Seq<u8>, at: int, n: nat) -> Map<u32, u32>
    decreases n,
{
    if n == 0 {
        Map::empty()
    } else {
        values_at(bytes, at, (n - 1) as nat).insert(
            super::message::le32(bytes, at + 8 * (n - 1)) as u32,
            super::message::le32(bytes, at + 8 * (n - 1) + 4) as u32,
        )
    }
}

/// Where the name of a file that starts at `at` ends.
pub open spec fn name_end(bytes: Seq<u8>, at: int) -> Option<int> {
    after(bytes, after(bytes, Some(at), Field::Int8), Field::Text)
}

/// Where the number of attributes of a file that starts at `at` stands: after
/// the name, the size and the extension.
pub open spec fn count_at(bytes: Seq<u8>, at: int) -> Option<int> {
    after(bytes, after(bytes, name_end(bytes, at), Field::Int64), Field::Text)
}

/// Where a file that starts at `at` ends; `None` where the bytes do not
/// suffice.
pub open spec fn file_end(bytes: Seq<u8>, at: int) -> Option<int> {
    match count_at(bytes, at) {
        Some(c) => if c + 4 <= bytes.len() && c + 4 + 8 * super::message::le32(bytes, c)
            <= bytes.len() {
            Some(c + 4 + 8 * super::message::le32(bytes, c))
        } else {
            None
        },
        None => None,
    }
}

/// The file that starts at `at`.
pub open spec fn file_at(bytes: Seq<u8>, at: int, username: Seq<char>) -> FileEntry {
    let c = count_at(bytes, at)->0;
    FileEntry {
        username,
        name: super::message::text_at(bytes, at + 1),
        size: super::message::le64(bytes, name_end(bytes, at)->0) as u64,
        attributes: attributes_of(
            values_at(bytes, c + 4, super::message::le32(bytes, c) as nat),
        ),
    }
}

/// Where `n` files that start at `at` end; `None` where the bytes do not
/// suffice.
pub open spec fn files_end(bytes: Seq<u8>, at: int, n: nat) -> Option<int>
    decreases n,
{
    if n == 0 {
        Some(at)
    } else {
        match files_end(bytes, at, (n - 1) as nat) {
            Some(end) => file_end(bytes, end),
            None => None,
        }
    }
}

/// The `n` files that start at `at`.
pub open spec fn files_at(bytes: Seq<u8>, at: int, n: nat, username: Seq<char>) -> Seq<FileEntry>
    decreases n,
{
    if n == 0 {
        Seq::empty()
    } else {
        files_at(bytes, at, (n - 1) as nat, username).push(
            file_at(bytes, files_end(bytes, at, (n - 1) as nat)->0, username),
        )
    }
}

/// The answer that bytes hold: the peer's name, the number of the search, the
/// number of files, the files, the free slots and the speed. `None` where the
/// bytes do not suffice.
pub open spec fn answer_in(bytes: Seq<u8>) -> Option<Answer> {
    match after(bytes, Some(0), Field::Text) {
        Some(u) => if u + 8 <= bytes.len() {
            let n = super::message::le32(bytes, u + 4) as nat;
            let username = super::message::text_at(bytes, 0);
            match files_end(bytes, u + 8, n) {
                Some(e) => if e + 5 <= bytes.len() {
                    Some(
                        Answer {
                            token: SearchToken(super::message::le32(bytes, u) as u32),
                            files: files_at(bytes, u + 8, n, username),
                            slots: bytes[e],
                            speed: super::message::le32(bytes, e + 1) as u32,
                            username,
                        },
                    )
                } else {
                    None
                },
                None => None,
            }
        } else {
            None
        },
        None => None,
    }
}

/// Files that do not fit do not fit with more after them.
proof fn lemma_files_end_none(bytes: Seq<u8>, at: int, k: nat, n: nat)
    requires
        k <= n,
        files_end(bytes, at, k) is None,
    ensures
        files_end(bytes, at, n) is None,
    decreases n,
{
    if k < n {
        lemma_files_end_none(bytes, at, k, (n - 1) as nat);
    }
}

/// Reading moves on.
proof fn lemma_file_end_moves(bytes: Seq<u8>, at: int)
    requires
        0 <= at,
        file_end(bytes, at) is Some,
    ensures
        at < file_end(bytes, at)->0 <= bytes.len(),
{
}

fn read_values(message: &mut Message, n: u32) -> (r: Option<HashMap<u32, u32>>)
    requires
        0 <= old(message)@.at <= old(message)@.bytes.len(),
    ensures
        final(message)@.bytes == old(message)@.bytes,
        match r {
            Some(map) => {
                &&& old(message)@.at + 8 * n <= old(message)@.bytes.len()
                &&& map@ == values_at(old(message)@.bytes, old(message)@.at, n as nat)
                &&& final(message)@.at == old(message)@.at + 8 * n
            },
            None => old(message)@.at + 8 * n > old(message)@.bytes.len(),
        },
{
    let ghost bytes = message@.bytes;
    let ghost at = message@.at;
    let mut map: HashMap<u32, u32> = HashMap::new();
    let mut i: u32 = 0;
    while i < n
        invariant
            i <= n,
            message@.bytes == bytes,
            message@.at == at + 8 * i,
            bytes == old(message)@.bytes,
            at == old(message)@.at,
            0 <= at,
            at + 8 * i <= bytes.len(),
            map@ == values_at(bytes, at, i as nat),
        decreases n - i,
    {
        let key: u32 = match message.try_read_int32() {
            Some(x) => x,
            None => {
                return None;
            },
        };
        let value: u32 = match message.try_read_int32() {
            Some(x) => x,
            None => {
                return None;
            },
        };
        map.insert(key, value);
        i += 1;
    }
    Some(map)
}

/// Read one file.
fn read_file(message: &mut Message, username: &String) -> (r: Option<File>)
    requires
        0 <= old(message)@.at <= old(message)@.bytes.len(),
    ensures
        final(message)@.bytes == old(message)@.bytes,
        match r {
            Some(file) => {
                &&& file_end(old(message)@.bytes, old(message)@.at) == Some(final(message)@.at)
                &&& file@ == file_at(old(message)@.bytes, old(message)@.at, username@)
            },
            None => file_end(old(message)@.bytes, old(message)@.at) is None,
        },
{
    let ghost bytes = message@.bytes;
    let ghost at = message@.at;
    match message.try_read_int8() {
        Some(_) => {},
        None => {
            return None;
        },
    }
    let name = match message.try_read_string() {
        Some(x) => x,
        None => {
            return None;
        },
    };
    let size: u64 = match message.try_read_int64() {
        Some(x) => x,
        None => {
            return None;
        },
    };
    match message.try_read_string() {
        Some(_) => {},
        None => {
            return None;
        },
    }
    let n: u32 = match message.try_read_int32() {
        Some(x) => x,
        None => {
            return None;
        },
    };
    match read_values(message, n) {
        Some(map) => Some(
            File {
                username: username.clone(),
                name: SoulseekPath::from_wire(name),
                size,
                attributes: FileAttributes::from_map(map),
            },
        ),
        None => None,
    }
}

impl SearchResult {
    /// Read an answer from its bytes; `None` where they do not suffice.
    pub fn parse(data: Vec<u8>) -> (r: Option<SearchResult>)
        ensures
            match r {
                Some(result) => answer_in(data@) == Some(result@),
                None => answer_in(data@) is None,
            },
    {
        let ghost bytes = data@;
        let mut message = Message::new_with_data(data);
        let username = match message.try_read_string() {
            Some(x) => x,
            None => {
                return None;
            },
        };
        let ghost u = message@.at;
        let token: u32 = match message.try_read_int32() {
            Some(x) => x,
            None => {
                return None;
            },
        };
        let n_files: u32 = match message.try_read_int32() {
            Some(x) => x,
            None => {
                return None;
            },
        };
        let mut files: Vec<File> = Vec::new();
        let mut i: u32 = 0;
        while i < n_files
            invariant
                i <= n_files,
                bytes == data@,
                message@.bytes == bytes,
                0 <= u,
                u + 8 <= bytes.len(),
                0 <= message@.at <= bytes.len(),
                after(bytes, Some(0), Field::Text) == Some(u),
                n_files == super::message::le32(bytes, u + 4),
                files_end(bytes, u + 8, i as nat) == Some(message@.at),
                username@ == super::message::text_at(bytes, 0),
                entries(files@) == files_at(bytes, u + 8, i as nat, username@),
            decreases n_files - i,
        {
            let ghost before = files@;
            match read_file(&mut message, &username) {
                Some(file) => {
                    proof {
                        lemma_file_end_moves(bytes, files_end(bytes, u + 8, i as nat)->0);
                    }
                    files.push(file);
                    assert(entries(files@) =~= entries(before).push(file@));
                },
                None => {
                    proof {
                        lemma_files_end_none(bytes, u + 8, (i + 1) as nat, n_files as nat);
                    }
                    return None;
                },
            }
            i += 1;
        }
        let slots: u8 = match message.try_read_int8() {
            Some(x) => x,
            None => {
                return None;
            },
        };
        let speed: u32 = match message.try_read_int32() {
            Some(x) => x,
            None => {
                return None;
            },
        };
        Some(SearchResult { token: SearchToken(token), files, slots, speed, username })
    }

    /// Read the answer whose compressed form fills the rest of a message.
    pub fn new_from_message(message: &mut Message) -> (r: Result<SearchResult>)
        requires
            old(message)@.at <= old(message)@.bytes.len(),
            inflated(old(message)@.bytes.skip(old(message)@.at)) matches Some(data) ==> answer_in(
                data,
            ) is Some,
        ensures
            *final(message) == *old(message),
            match r {
                Ok(result) => {
                    &&& inflated(old(message)@.bytes.skip(old(message)@.at)) matches Some(data)
                    &&& answer_in(data) == Some(result@)
                },
                Err(e) => {
                    &&& inflated(old(message)@.bytes.skip(old(message)@.at)) is None
                    &&& e is CompressionError
                },
            },
    {
        let stream = rest_of(message);
        match inflate(&stream) {
            Some(data) => match SearchResult::parse(data) {
                Some(result) => Ok(result),
                None => Err(SoulseekRs::InvalidMessage("truncated search result".to_owned())),
            },
            None => Err(SoulseekRs::CompressionError("failed to decompress the data".to_owned())),
        }
    }

    /// Read the answer whose compressed form fills the rest of a message; `None`
    /// where what it expands to is no whole answer.
    pub fn try_new_from_message(message: &mut Message) -> (r: Option<Result<SearchResult>>)
        requires
            old(message)@.at <= old(message)@.bytes.len(),
        ensures
            *final(message) == *old(message),
            match r {
                Some(Ok(result)) => {
                    &&& inflated(old(message)@.bytes.skip(old(message)@.at)) matches Some(data)
                    &&& answer_in(data) == Some(result@)
                },
                Some(Err(e)) => {
                    &&& inflated(old(message)@.bytes.skip(old(message)@.at)) is None
                    &&& e is CompressionError
                },
                None => {
                    &&& inflated(old(message)@.bytes.skip(old(message)@.at)) matches Some(data)
                    &&& answer_in(data) is None
                },
            },
    {
        let stream = rest_of(message);
        let whole: bool = match inflate(&stream) {
            Some(data) => SearchResult::parse(data).is_some(),
            None => true,
        };
        if whole {
            Some(Self::new_from_message(message))
        } else {
            None
        }
    }
}

/// What has not been read of a message.
fn rest_of(message: &Message) -> (r: Vec<u8>)
    requires
        message@.at <= message@.bytes.len(),
    ensures
        r@ == message@.bytes.skip(message@.at),
{
    let pointer: usize = message.get_pointer();
    let size: usize = message.get_size();
    let rest = message.get_slice(pointer, size);
    assert(rest@ =~= message@.bytes.skip(message@.at));
    rest
}

/// A transfer that a peer proposes.
#[derive(Debug)]
pub struct Transfer {
    pub direction: u32,
    pub token: DownloadToken,
    pub filename: SoulseekPath,
    pub size: u64,
}

impl Clone for Transfer {
    fn clone(&self) -> (r: Self)
        ensures
            r == *self,
    {
        Transfer {
            direction: self.direction,
            token: self.token,
            filename: self.filename.clone(),
            size: self.size,
        }
    }
}

/// The fields of a proposed transfer.
pub open spec fn transfer_fields() -> Seq<Field> {
    seq![Field::Int32, Field::Int32, Field::Text, Field::Int64]
}

/// Whether bytes hold the given transfer at `at`.
pub open spec fn transfer_at(bytes: Seq<u8>, at: int, t: Transfer) -> bool {
    let path_end = after(bytes, Some(at + 8), Field::Text)->0;
    &&& t.direction == super::message::le32(bytes, at)
    &&& t.token.0 == super::message::le32(bytes, at + 4)
    &&& t.filename@ == super::message::text_at(bytes, at + 8)
    &&& t.size == super::message::le64(bytes, path_end)
}

impl Transfer {
    /// Read a proposed transfer.
    pub fn new_from_message(message: &mut Message) -> (r: Self)
        requires
            old(message)@.holds(transfer_fields()),
        ensures
            transfer_at(old(message)@.bytes, old(message)@.at, r),
            final(message)@ == old(message)@.at_place(
                super::message::fields_end(
                    old(message)@.bytes,
                    old(message)@.at,
                    transfer_fields(),
                )->0,
            ),
    {
        proof {
            let f = transfer_fields();
            let w = message@;
            reveal_with_fuel(super::message::fields_end, 5);
            assert(f.skip(1).skip(1) =~= f.skip(2));
            assert(f.skip(1).skip(1).skip(1) =~= f.skip(3));
            assert(f.skip(1).skip(1).skip(1).skip(1) =~= Seq::empty());
        }
        let direction: u32 = match message.try_read_int32() {
            Some(x) => x,
            None => 0,
        };
        let token: u32 = match message.try_read_int32() {
            Some(x) => x,
            None => 0,
        };
        let filename = match message.try_read_string() {
            Some(x) => x,
            None => String::new(),
        };
        let size: u64 = match message.try_read_int64() {
            Some(x) => x,
            None => 0,
        };
        Transfer {
            direction,
            token: DownloadToken(token),
            filename: SoulseekPath::from_wire(filename),
            size,
        }
    }
}

// ---- downloads --------------------------------------------------------------------

/// A speed in bytes per second, by the bit pattern of a 64-bit floating-point
/// number.
#[derive(Debug, Clone, Copy, PartialEq, Eq, Structural)]
pub struct Speed {
    pub bits: u64,
}

/// How far a download is.
#[derive(Debug, Clone, Copy, PartialEq, Eq, Structural)]
pub enum DownloadStatus {
    Queued,
    InProgress { bytes_downloaded: u64, total_bytes: u64, speed_bytes_per_sec: Speed },
    Completed,
    Failed,
    TimedOut,
    Cancelled,
}

/// The channel over which a caller hears of the download's progress.
#[derive(Debug, Clone, Copy, PartialEq, Eq, Structural)]
pub struct StatusChannel(pub u64);

/// A file that is being fetched from a peer.
#[derive(Debug)]
pub struct Download {
    pub username: String,
    pub filename: SoulseekPath,
    pub token: DownloadToken,
    pub size: u64,
    pub download_directory: String,
    pub status: DownloadStatus,
    pub sender: StatusChannel,
}

impl Clone for Download {
    fn clone(&self) -> (r: Self)
        ensures
            r == *self,
    {
        Download {
            username: self.username.clone(),
            filename: self.filename.clone(),
            token: self.token,
            size: self.size,
            download_directory: self.download_directory.clone(),
            status: self.status,
            sender: self.sender,
        }
    }
}

impl Download {
    /// The download will make no more progress.
    pub open spec fn finished(self) -> bool {
        self.status is Completed || self.status is Failed || self.status is TimedOut
    }

    /// Whether the download will make no more progress.
    pub fn is_finished(&self) -> (r: bool)
        ensures
            r == self.finished(),
    {
        matches!(
            self.status,
            DownloadStatus::Completed | DownloadStatus::Failed | DownloadStatus::TimedOut
        )
    }

    /// How many bytes have come.
    pub fn bytes_downloaded(&self) -> (r: u64)
        ensures
            r == match self.status {
                DownloadStatus::InProgress { bytes_downloaded, .. } => bytes_downloaded,
                DownloadStatus::Completed => self.size,
                _ => 0,
            },
    {
        match &self.status {
            DownloadStatus::InProgress { bytes_downloaded, .. } => *bytes_downloaded,
            DownloadStatus::Completed => self.size,
            _ => 0,
        }
    }

    /// How fast the bytes come.
    pub fn speed_bytes_per_sec(&self) -> (r: Speed)
        ensures
            r == match self.status {
                DownloadStatus::InProgress { speed_bytes_per_sec, .. } => speed_bytes_per_sec,
                _ => Speed { bits: 0 },
            },
    {
        match &self.status {
            DownloadStatus::InProgress { speed_bytes_per_sec, .. } => *speed_bytes_per_sec,
            _ => Speed { bits: 0 },
        }
    }
}

} // verus!
