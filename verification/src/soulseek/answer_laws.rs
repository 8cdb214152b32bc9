//! What a peer writes into its answer to a search is what is read from it.
use vstd::prelude::*;

use super::message::Field;
use super::token::SearchToken;
use super::types::{FileEntry, SearchResult};

verus! {

/// A file as a peer describes it.
pub struct SharedFile {
    pub code: u8,
    pub name: Seq<char>,
    pub size: u64,
    pub extension: Seq<char>,
    /// Numbers, each with the attribute it is of.
    pub attributes: Seq<(u32, u32)>,
}

impl SharedFile {
    /// The description fits on the wire.
    pub open spec fn fits(self) -> bool {
        &&& vstd::utf8::encode_utf8(self.name).len() <= u32::MAX
        &&& vstd::utf8::encode_utf8(self.extension).len() <= u32::MAX
        &&& self.attributes.len() <= u32::MAX
    }
}

/// The bytes of numbered attributes.
pub open spec fn attribute_bytes(attributes: Seq<(u32, u32)>) -> Seq<u8>
    decreases attributes.len(),
{
    if attributes.len() == 0 {
        Seq::empty()
    } else {
        attribute_bytes(attributes.drop_last()) + super::message::le32_bytes(attributes.last().0)
            + super::message::le32_bytes(attributes.last().1)
    }
}

/// The bytes of a file.
pub open spec fn file_bytes(f: SharedFile) -> Seq<u8> {
    seq![f.code] + super::message::text_bytes(f.name) + super::message::le64_bytes(f.size)
        + super::message::text_bytes(f.extension) + super::message::le32_bytes(
        f.attributes.len() as u32,
    ) + attribute_bytes(f.attributes)
}

/// The bytes of files, one after another.
pub open spec fn files_bytes(files: Seq<SharedFile>) -> Seq<u8>
    decreases files.len(),
{
    if files.len() == 0 {
        Seq::empty()
    } else {
        files_bytes(files.drop_last()) + file_bytes(files.last())
    }
}

/// The bytes of an answer.
pub open spec fn answer_bytes(
    username: Seq<char>,
    token: u32,
    files: Seq<SharedFile>,
    slots: u8,
    speed: u32,
) -> Seq<u8> {
    super::message::text_bytes(username) + super::message::le32_bytes(token)
        + super::message::le32_bytes(files.len() as u32) + files_bytes(files) + seq![slots]
        + super::message::le32_bytes(speed)
}

/// The value that the last of the numbers with a code gives.
pub open spec fn last_value(attributes: Seq<(u32, u32)>, code: u32) -> Option<u32>
    decreases attributes.len(),
{
    if attributes.len() == 0 {
        None
    } else if attributes.last().0 == code {
        Some(attributes.last().1)
    } else {
        last_value(attributes.drop_last(), code)
    }
}

/// What is read of a file is what the peer described: its name, its size, and of its
/// attributes the bit rate (0), the duration (1), whether the bit rate varies (2), the
/// sample rate (4) and the bit depth (5).
pub open spec fn reads_as(f: SharedFile, username: Seq<char>, entry: FileEntry) -> bool {
    &&& entry.username == username
    &&& entry.name == f.name
    &&& entry.size == f.size
    &&& entry.attributes.bitrate == last_value(f.attributes, 0)
    &&& entry.attributes.duration == last_value(f.attributes, 1)
    &&& entry.attributes.vbr == match last_value(f.attributes, 2) {
        Some(v) => Some(v != 0),
        None => None,
    }
    &&& entry.attributes.sample_rate == last_value(f.attributes, 4)
    &&& entry.attributes.bit_depth == last_value(f.attributes, 5)
}

/// What numbered values say is what the attributes say.
pub open spec fn values_say(values: Map<u32, u32>, attributes: Seq<(u32, u32)>) -> bool {
    forall|code: u32| #[trigger] values.get(code) == last_value(attributes, code)
}

proof fn lemma_attribute_bytes(b: Seq<u8>, at: int, attributes: Seq<(u32, u32)>)
    requires
        super::wire_laws::stands_at(b, at, attribute_bytes(attributes)),
    ensures
        attribute_bytes(attributes).len() == 8 * attributes.len(),
        values_say(super::types::values_at(b, at, attributes.len()), attributes),
    decreases attributes.len(),
{
    if attributes.len() > 0 {
        let init = attributes.drop_last();
        let (code, value) = attributes.last();
        let c = super::message::le32_bytes(code);
        let v = super::message::le32_bytes(value);
        let front = attribute_bytes(init);
        super::wire_laws::lemma_pieces_stand(b, at, front + c, v);
        super::wire_laws::lemma_pieces_stand(b, at, front, c);
        lemma_attribute_bytes(b, at, init);
        super::wire_laws::lemma_number_is_read(b, at + front.len(), code);
        super::wire_laws::lemma_number_is_read(b, at + (front + c).len(), value);
        let before = super::types::values_at(b, at, init.len());
        let values = super::types::values_at(b, at, attributes.len());
        assert(values == before.insert(code, value));
        assert forall|k: u32| #[trigger] values.get(k) == last_value(attributes, k) by {
            assert(before.get(k) == last_value(init, k));
        }
    } else {
        assert forall|k: u32| #[trigger] Map::<u32, u32>::empty().get(k) == last_value(
            attributes,
            k,
        ) by {}
    }
}

proof fn lemma_file(b: Seq<u8>, at: int, f: SharedFile, username: Seq<char>)
    requires
        f.fits(),
        super::wire_laws::stands_at(b, at, file_bytes(f)),
    ensures
        super::types::file_end(b, at) == Some(at + file_bytes(f).len()),
        reads_as(f, username, super::types::file_at(b, at, username)),
{
    let code = seq![f.code];
    let name = super::message::text_bytes(f.name);
    let size = super::message::le64_bytes(f.size);
    let ext = super::message::text_bytes(f.extension);
    let count = super::message::le32_bytes(f.attributes.len() as u32);
    let attrs = attribute_bytes(f.attributes);
    super::wire_laws::lemma_pieces_stand(b, at, code + name + size + ext + count, attrs);
    super::wire_laws::lemma_pieces_stand(b, at, code + name + size + ext, count);
    super::wire_laws::lemma_pieces_stand(b, at, code + name + size, ext);
    super::wire_laws::lemma_pieces_stand(b, at, code + name, size);
    super::wire_laws::lemma_pieces_stand(b, at, code, name);
    let n1 = at + 1;
    let n2 = n1 + name.len();
    let n3 = n2 + 8;
    let n4 = n3 + ext.len();
    super::wire_laws::lemma_byte_is_read(b, at, f.code);
    super::wire_laws::lemma_text_is_read(b, n1, f.name);
    super::wire_laws::lemma_long_number_is_read(b, n2, f.size);
    super::wire_laws::lemma_text_is_read(b, n3, f.extension);
    super::wire_laws::lemma_number_is_read(b, n4, f.attributes.len() as u32);
    lemma_attribute_bytes(b, n4 + 4, f.attributes);
    assert(super::types::name_end(b, at) == Some(n2));
    assert(super::types::count_at(b, at) == Some(n4));
}

proof fn lemma_files(b: Seq<u8>, at: int, files: Seq<SharedFile>, username: Seq<char>)
    requires
        forall|k: int| 0 <= k < files.len() ==> (#[trigger] files[k]).fits(),
        super::wire_laws::stands_at(b, at, files_bytes(files)),
    ensures
        super::types::files_end(b, at, files.len()) == Some(at + files_bytes(files).len()),
        super::types::files_at(b, at, files.len(), username).len() == files.len(),
        forall|k: int|
            0 <= k < files.len() ==> reads_as(
                #[trigger] files[k],
                username,
                super::types::files_at(b, at, files.len(), username)[k],
            ),
    decreases files.len(),
{
    if files.len() > 0 {
        let init = files.drop_last();
        let last = files.last();
        assert forall|k: int| 0 <= k < init.len() implies (#[trigger] init[k]).fits() by {
            assert(files[k].fits());
        }
        assert(files[files.len() - 1].fits());
        super::wire_laws::lemma_pieces_stand(b, at, files_bytes(init), file_bytes(last));
        lemma_files(b, at, init, username);
        lemma_file(b, at + files_bytes(init).len(), last, username);
        let read = super::types::files_at(b, at, files.len(), username);
        let prior = super::types::files_at(b, at, init.len(), username);
        assert forall|k: int| 0 <= k < files.len() implies reads_as(
            #[trigger] files[k],
            username,
            read[k],
        ) by {
            if k < init.len() {
                assert(reads_as(init[k], username, prior[k]));
            }
        }
    }
}

/// An answer that a peer writes is read as it was written: the peer's name, the number of
/// the search, every file in its order with its name, size and attributes, the free slots
/// and the speed.
pub proof fn lemma_answer_round_trip(
    username: Seq<char>,
    token: u32,
    files: Seq<SharedFile>,
    slots: u8,
    speed: u32,
)
    requires
        vstd::utf8::encode_utf8(username).len() <= u32::MAX,
        files.len() <= u32::MAX,
        forall|k: int| 0 <= k < files.len() ==> (#[trigger] files[k]).fits(),
    ensures
        ({
            let read = super::types::answer_in(answer_bytes(username, token, files, slots, speed));
            &&& read matches Some(a)
            &&& a.username == username
            &&& a.token == SearchToken(token)
            &&& a.slots == slots
            &&& a.speed == speed
            &&& a.files.len() == files.len()
            &&& forall|k: int|
                0 <= k < files.len() ==> reads_as(#[trigger] files[k], username, a.files[k])
        }),
{
    let b = answer_bytes(username, token, files, slots, speed);
    lemma_answer_pieces(username, token, files, slots, speed);
    lemma_pieces_are_read(b, username, token, files, slots, speed);
}

proof fn lemma_answer_pieces(
    username: Seq<char>,
    token: u32,
    files: Seq<SharedFile>,
    slots: u8,
    speed: u32,
)
    ensures
        ({
            let b = answer_bytes(username, token, files, slots, speed);
            let u = super::message::text_bytes(username).len() as int;
            let e = u + 8 + files_bytes(files).len();
            &&& super::wire_laws::stands_at(b, 0, super::message::text_bytes(username))
            &&& super::wire_laws::stands_at(b, u, super::message::le32_bytes(token))
            &&& super::wire_laws::stands_at(
                b,
                u + 4,
                super::message::le32_bytes(files.len() as u32),
            )
            &&& super::wire_laws::stands_at(b, u + 8, files_bytes(files))
            &&& super::wire_laws::stands_at(b, e, seq![slots])
            &&& super::wire_laws::stands_at(b, e + 1, super::message::le32_bytes(speed))
        }),
{
    let name = super::message::text_bytes(username);
    let number = super::message::le32_bytes(token);
    let count = super::message::le32_bytes(files.len() as u32);
    let body = files_bytes(files);
    let rate = super::message::le32_bytes(speed);
    let b = answer_bytes(username, token, files, slots, speed);
    super::wire_laws::lemma_all_stands(b);
    super::wire_laws::lemma_pieces_stand(b, 0, name + number + count + body + seq![slots], rate);
    super::wire_laws::lemma_pieces_stand(b, 0, name + number + count + body, seq![slots]);
    super::wire_laws::lemma_pieces_stand(b, 0, name + number + count, body);
    super::wire_laws::lemma_pieces_stand(b, 0, name + number, count);
    super::wire_laws::lemma_pieces_stand(b, 0, name, number);
}

proof fn lemma_pieces_are_read(
    b: Seq<u8>,
    username: Seq<char>,
    token: u32,
    files: Seq<SharedFile>,
    slots: u8,
    speed: u32,
)
    requires
        vstd::utf8::encode_utf8(username).len() <= u32::MAX,
        files.len() <= u32::MAX,
        forall|k: int| 0 <= k < files.len() ==> (#[trigger] files[k]).fits(),
        ({
            let u = super::message::text_bytes(username).len() as int;
            let e = u + 8 + files_bytes(files).len();
            &&& super::wire_laws::stands_at(b, 0, super::message::text_bytes(username))
            &&& super::wire_laws::stands_at(b, u, super::message::le32_bytes(token))
            &&& super::wire_laws::stands_at(
                b,
                u + 4,
                super::message::le32_bytes(files.len() as u32),
            )
            &&& super::wire_laws::stands_at(b, u + 8, files_bytes(files))
            &&& super::wire_laws::stands_at(b, e, seq![slots])
            &&& super::wire_laws::stands_at(b, e + 1, super::message::le32_bytes(speed))
        }),
    ensures
        ({
            let read = super::types::answer_in(b);
            &&& read matches Some(a)
            &&& a.username == username
            &&& a.token == SearchToken(token)
            &&& a.slots == slots
            &&& a.speed == speed
            &&& a.files.len() == files.len()
            &&& forall|k: int|
                0 <= k < files.len() ==> reads_as(#[trigger] files[k], username, a.files[k])
        }),
{
    let u = super::message::text_bytes(username).len() as int;
    let e = u + 8 + files_bytes(files).len();
    super::wire_laws::lemma_text_is_read(b, 0, username);
    super::wire_laws::lemma_number_is_read(b, u, token);
    super::wire_laws::lemma_number_is_read(b, u + 4, files.len() as u32);
    lemma_files(b, u + 8, files, username);
    super::wire_laws::lemma_byte_is_read(b, e, slots);
    super::wire_laws::lemma_number_is_read(b, e + 1, speed);
}

/// Fewer bytes than an answer without files has are no answer.
pub proof fn lemma_too_short_for_an_answer(bytes: Seq<u8>)
    ensures
        bytes.len() < 17 ==> super::types::answer_in(bytes) is None,
{
    if super::types::answer_in(bytes) is Some {
        let u = super::types::after(bytes, Some(0), Field::Text)->0;
        let n = super::message::le32(bytes, u + 4) as nat;
        lemma_files_end_moves(bytes, u + 8, n);
    }
}

proof fn lemma_files_end_moves(bytes: Seq<u8>, at: int, n: nat)
    requires
        0 <= at,
    ensures
        super::types::files_end(bytes, at, n) matches Some(e) ==> e >= at,
    decreases n,
{
    if n > 0 {
        lemma_files_end_moves(bytes, at, (n - 1) as nat);
    }
}

/// What is read of the answer that a peer wrote is that answer, with every file in its
/// order: its name, its size and what is said of it.
pub proof fn lemma_answer_is_parsed(
    data: Vec<u8>,
    username: Seq<char>,
    token: u32,
    files: Seq<SharedFile>,
    slots: u8,
    speed: u32,
    r: Option<SearchResult>,
)
    requires
        call_ensures(SearchResult::parse, (data,), r),
        vstd::utf8::encode_utf8(username).len() <= u32::MAX,
        files.len() <= u32::MAX,
        forall|k: int| 0 <= k < files.len() ==> (#[trigger] files[k]).fits(),
        data@ == answer_bytes(username, token, files, slots, speed),
    ensures
        r matches Some(a) && a.username@ == username && a.token.0 == token && a.slots == slots
            && a.speed == speed && a.files@.len() == files.len() && (forall|k: int|
            0 <= k < files.len() ==> {
                &&& a.files@[k].username@ == username
                &&& a.files@[k].name@ == (#[trigger] files[k]).name
                &&& a.files@[k].size == files[k].size
                &&& a.files@[k].attributes.bitrate == last_value(files[k].attributes, 0)
                &&& a.files@[k].attributes.duration == last_value(files[k].attributes, 1)
            }),
{
    lemma_answer_round_trip(username, token, files, slots, speed);
    let a = r->0;
    assert(a@.files.len() == a.files@.len());
    assert forall|k: int| 0 <= k < files.len() implies {
        &&& a.files@[k].username@ == username
        &&& a.files@[k].name@ == (#[trigger] files[k]).name
        &&& a.files@[k].size == files[k].size
        &&& a.files@[k].attributes.bitrate == last_value(files[k].attributes, 0)
        &&& a.files@[k].attributes.duration == last_value(files[k].attributes, 1)
    } by {
        assert(reads_as(files[k], username, a@.files[k]));
        assert(a@.files[k] == a.files@[k]@);
    }
}

} // verus!
