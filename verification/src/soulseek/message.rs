//! The wire form of a message: little-endian integers, and texts that carry
//! their length in bytes in front.
use vstd::prelude::*;

verus! {

/// What `String::from_utf8_lossy` makes of a run of bytes.
pub uninterp spec fn lossy_text(bytes: Seq<u8>) -> Seq<char>;

/// `String::from_utf8_lossy`. Its result is a function of the bytes, and for
/// bytes that are valid UTF-8 it is the text they encode; what stands for
/// other bytes is not claimed.
#[verifier::external_body]
fn text_from_utf8_lossy(bytes: &Vec<u8>) -> (r: String)
    ensures
        r@ == lossy_text(bytes@),
        vstd::utf8::valid_utf8(bytes@) ==> r@ == vstd::utf8::decode_utf8(bytes@),
{
    String::from_utf8_lossy(bytes).into_owned()
}

/// The 32-bit number that starts at `at`.
pub open spec fn le32(b: Seq<u8>, at: int) -> int {
    b[at] + 0x100 * b[at + 1] + 0x1_0000 * b[at + 2] + 0x100_0000 * b[at + 3]
}

/// The 64-bit number that starts at `at`.
pub open spec fn le64(b: Seq<u8>, at: int) -> int {
    le32(b, at) + 0x1_0000_0000 * le32(b, at + 4)
}

/// The four bytes of a 32-bit number.
pub open spec fn le32_bytes(x: u32) -> Seq<u8> {
    seq![
        (x % 0x100) as u8,
        ((x / 0x100) % 0x100) as u8,
        ((x / 0x1_0000) % 0x100) as u8,
        (x / 0x100_0000) as u8,
    ]
}

/// The eight bytes of a 64-bit number.
pub open spec fn le64_bytes(x: u64) -> Seq<u8> {
    le32_bytes((x % 0x1_0000_0000) as u32) + le32_bytes((x / 0x1_0000_0000) as u32)
}

/// The bytes of a text: its length, then its UTF-8 form.
pub open spec fn text_bytes(s: Seq<char>) -> Seq<u8> {
    le32_bytes(vstd::utf8::encode_utf8(s).len() as u32) + vstd::utf8::encode_utf8(s)
}

/// A message's bytes and the place where the next read starts.
#[verifier::ext_equal]
pub struct Wire {
    pub bytes: Seq<u8>,
    pub at: int,
}

/// One value on the wire.
#[derive(Debug, Clone, Copy, PartialEq, Eq, Structural)]
pub enum Field {
    Int8,
    Int32,
    Int64,
    Text,
}

/// Where a field that starts at `at` ends; `None` where the bytes do not
/// suffice.
pub open spec fn field_end(bytes: Seq<u8>, at: int, field: Field) -> Option<int> {
    match field {
        Field::Int8 => if at + 1 <= bytes.len() {
            Some(at + 1)
        } else {
            None
        },
        Field::Int32 => if at + 4 <= bytes.len() {
            Some(at + 4)
        } else {
            None
        },
        Field::Int64 => if at + 8 <= bytes.len() {
            Some(at + 8)
        } else {
            None
        },
        Field::Text => if at + 4 <= bytes.len() && at + 4 + le32(bytes, at) <= bytes.len() {
            Some(at + 4 + le32(bytes, at))
        } else {
            None
        },
    }
}

/// Where a row of fields that starts at `at` ends; `None` where the bytes do
/// not suffice.
pub open spec fn fields_end(bytes: Seq<u8>, at: int, fields: Seq<Field>) -> Option<int>
    decreases fields.len(),
{
    if fields.len() == 0 {
        Some(at)
    } else {
        match field_end(bytes, at, fields[0]) {
            Some(next) => fields_end(bytes, next, fields.skip(1)),
            None => None,
        }
    }
}

/// The bytes of the text that starts at `at`, without their length.
pub open spec fn raw_text_at(bytes: Seq<u8>, at: int) -> Seq<u8> {
    bytes.subrange(at + 4, at + 4 + le32(bytes, at))
}

/// The text that starts at `at`: what its bytes encode, and what stands for them where
/// they encode nothing.
pub open spec fn text_at(bytes: Seq<u8>, at: int) -> Seq<char> {
    let raw = raw_text_at(bytes, at);
    if vstd::utf8::valid_utf8(raw) {
        vstd::utf8::decode_utf8(raw)
    } else {
        lossy_text(raw)
    }
}

impl Wire {
    /// The fields stand at the place of the next read.
    pub open spec fn holds(self, fields: Seq<Field>) -> bool {
        0 <= self.at && fields_end(self.bytes, self.at, fields) is Some
    }

    /// The same message, read up to `at`.
    pub open spec fn at_place(self, at: int) -> Wire {
        Wire { bytes: self.bytes, at }
    }

    /// The same message, read past one field.
    pub open spec fn past(self, field: Field) -> Wire {
        Wire { bytes: self.bytes, at: field_end(self.bytes, self.at, field)->0 }
    }
}

/// A message under construction, or one that is being read.
#[derive(Debug)]
pub struct Message {
    data: Vec<u8>,
    pointer: usize,
}

impl View for Message {
    type V = Wire;

    closed spec fn view(&self) -> Wire {
        Wire { bytes: self.data@, at: self.pointer as int }
    }
}

impl Message {
    /// The place of the next read is a machine number.
    pub proof fn lemma_bounds(&self)
        ensures
            0 <= self@.at <= usize::MAX,
    {
    }

    /// An empty message.
    pub fn new() -> (r: Message)
        ensures
            r@ == (Wire { bytes: Seq::empty(), at: 0 }),
    {
        Message { data: Vec::new(), pointer: 0 }
    }

    /// A message that holds the given bytes, read from their start.
    pub fn new_with_data(data: Vec<u8>) -> (r: Message)
        ensures
            r@ == (Wire { bytes: data@, at: 0 }),
    {
        Message { data, pointer: 0 }
    }

    /// Where the next read starts.
    pub fn get_pointer(&self) -> (r: usize)
        ensures
            r == self@.at,
    {
        self.pointer
    }

    /// Let the next read start at `pointer`.
    pub fn set_pointer(&mut self, pointer: usize)
        ensures
            final(self)@ == old(self)@.at_place(pointer as int),
    {
        self.pointer = pointer;
    }

    /// The number of bytes.
    pub fn get_size(&self) -> (r: usize)
        ensures
            r == self@.bytes.len(),
    {
        self.data.len()
    }

    /// The bytes from `start` up to, not including, `end`.
    pub fn get_slice(&self, start: usize, end: usize) -> (r: Vec<u8>)
        requires
            start <= end <= self@.bytes.len(),
        ensures
            r@ == self@.bytes.subrange(start as int, end as int),
    {
        let mut out: Vec<u8> = Vec::new();
        let mut i: usize = start;
        while i < end
            invariant
                start <= i <= end <= self.data@.len(),
                out@ == self.data@.subrange(start as int, i as int),
            decreases end - i,
        {
            out.push(self.data[i]);
            i += 1;
        }
        out
    }

    /// All the bytes.
    pub fn get_data(&self) -> (r: Vec<u8>)
        ensures
            r@ == self@.bytes,
    {
        let r = self.get_slice(0, self.data.len());
        assert(r@ =~= self.data@);
        r
    }

    /// Whether the fields stand at the place of the next read.
    pub fn holds(&self, fields: &Vec<Field>) -> (r: bool)
        ensures
            r == self@.holds(fields@),
    {
        let n: usize = self.data.len();
        let ghost bytes = self.data@;
        let mut at: usize = self.pointer;
        let mut i: usize = 0;
        assert(fields@.skip(0) =~= fields@);
        while i < fields.len()
            invariant
                n == self.data@.len(),
                bytes == self.data@,
                i <= fields.len(),
                fields_end(bytes, self.pointer as int, fields@) == fields_end(
                    bytes,
                    at as int,
                    fields@.skip(i as int),
                ),
            decreases fields.len() - i,
        {
            let ghost rest = fields@.skip(i as int);
            assert(rest.skip(1) =~= fields@.skip(i + 1));
            assert(rest[0] == fields@[i as int]);
            if at > n {
                return false;
            }
            let left: usize = n - at;
            match fields[i] {
                Field::Int8 => {
                    if left < 1 {
                        return false;
                    }
                    at += 1;
                },
                Field::Int32 => {
                    if left < 4 {
                        return false;
                    }
                    at += 4;
                },
                Field::Int64 => {
                    if left < 8 {
                        return false;
                    }
                    at += 8;
                },
                Field::Text => {
                    if left < 4 {
                        return false;
                    }
                    let len: usize = u32_at(&self.data, at) as usize;
                    if left - 4 < len {
                        return false;
                    }
                    at += 4 + len;
                },
            }
            i += 1;
        }
        true
    }

    /// Read one byte.
    pub fn read_int8(&mut self) -> (r: u8)
        requires
            old(self)@.holds(seq![Field::Int8]),
        ensures
            r == old(self)@.bytes[old(self)@.at],
            final(self)@ == old(self)@.past(Field::Int8),
    {
        proof {
            lemma_holds_one(self@, Field::Int8);
        }
        assert(self.data@.len() == self.data.len());
        let r = self.data[self.pointer];
        self.pointer = self.pointer + 1;
        r
    }

    /// Read one byte as a truth value.
    pub fn read_bool(&mut self) -> (r: bool)
        requires
            old(self)@.holds(seq![Field::Int8]),
        ensures
            r == (old(self)@.bytes[old(self)@.at] == 1),
            final(self)@ == old(self)@.past(Field::Int8),
    {
        self.read_int8() == 1
    }

    /// Read a 32-bit number.
    pub fn read_int32(&mut self) -> (r: u32)
        requires
            old(self)@.holds(seq![Field::Int32]),
        ensures
            r == le32(old(self)@.bytes, old(self)@.at),
            final(self)@ == old(self)@.past(Field::Int32),
    {
        proof {
            lemma_holds_one(self@, Field::Int32);
        }
        assert(self.data@.len() == self.data.len());
        let r: u32 = u32_at(&self.data, self.pointer);
        self.pointer = self.pointer + 4;
        r
    }

    /// Read a 64-bit number.
    pub fn read_int64(&mut self) -> (r: u64)
        requires
            old(self)@.holds(seq![Field::Int64]),
        ensures
            r == le64(old(self)@.bytes, old(self)@.at),
            final(self)@ == old(self)@.past(Field::Int64),
    {
        proof {
            lemma_holds_one(self@, Field::Int64);
        }
        assert(self.data@.len() == self.data.len());
        let low: u32 = u32_at(&self.data, self.pointer);
        let high: u32 = u32_at(&self.data, self.pointer + 4);
        self.pointer = self.pointer + 8;
        low as u64 + 0x1_0000_0000 * (high as u64)
    }

    /// Read a text.
    pub fn read_string(&mut self) -> (r: String)
        requires
            old(self)@.holds(seq![Field::Text]),
        ensures
            r@ == text_at(old(self)@.bytes, old(self)@.at),
            vstd::utf8::valid_utf8(raw_text_at(old(self)@.bytes, old(self)@.at)) ==> r@
                == vstd::utf8::decode_utf8(raw_text_at(old(self)@.bytes, old(self)@.at)),
            final(self)@ == old(self)@.past(Field::Text),
    {
        proof {
            lemma_holds_one(self@, Field::Text);
        }
        assert(self.data@.len() == self.data.len());
        let len: usize = u32_at(&self.data, self.pointer) as usize;
        let start: usize = self.pointer + 4;
        let raw = self.get_slice(start, start + len);
        self.pointer = start + len;
        text_from_utf8_lossy(&raw)
    }

    /// Whether one field stands at the place of the next read.
    fn has(&self, field: Field) -> (r: bool)
        ensures
            r == self@.holds(seq![field]),
            r == (field_end(self@.bytes, self@.at, field) is Some),
    {
        let mut row: Vec<Field> = Vec::new();
        row.push(field);
        assert(row@ =~= seq![field]);
        let ghost end = field_end(self@.bytes, self@.at, field);
        assert(seq![field].skip(1) =~= Seq::<Field>::empty());
        assert(fields_end(self@.bytes, end->0, Seq::<Field>::empty()) is Some);
        self.holds(&row)
    }

    /// Read one byte where it stands there whole; else nothing is read.
    pub fn try_read_int8(&mut self) -> (r: Option<u8>)
        ensures
            match r {
                Some(x) => {
                    &&& field_end(old(self)@.bytes, old(self)@.at, Field::Int8) is Some
                    &&& x == old(self)@.bytes[old(self)@.at]
                    &&& final(self)@ == old(self)@.past(Field::Int8)
                },
                None => {
                    &&& field_end(old(self)@.bytes, old(self)@.at, Field::Int8) is None
                    &&& final(self)@ == old(self)@
                },
            },
    {
        if self.has(Field::Int8) {
            Some(self.read_int8())
        } else {
            None
        }
    }

    /// Read a 32-bit number where it stands there whole; else nothing is read.
    pub fn try_read_int32(&mut self) -> (r: Option<u32>)
        ensures
            match r {
                Some(x) => {
                    &&& field_end(old(self)@.bytes, old(self)@.at, Field::Int32) is Some
                    &&& x == le32(old(self)@.bytes, old(self)@.at)
                    &&& final(self)@ == old(self)@.past(Field::Int32)
                },
                None => {
                    &&& field_end(old(self)@.bytes, old(self)@.at, Field::Int32) is None
                    &&& final(self)@ == old(self)@
                },
            },
    {
        if self.has(Field::Int32) {
            Some(self.read_int32())
        } else {
            None
        }
    }

    /// Read a 64-bit number where it stands there whole; else nothing is read.
    pub fn try_read_int64(&mut self) -> (r: Option<u64>)
        ensures
            match r {
                Some(x) => {
                    &&& field_end(old(self)@.bytes, old(self)@.at, Field::Int64) is Some
                    &&& x == le64(old(self)@.bytes, old(self)@.at)
                    &&& final(self)@ == old(self)@.past(Field::Int64)
                },
                None => {
                    &&& field_end(old(self)@.bytes, old(self)@.at, Field::Int64) is None
                    &&& final(self)@ == old(self)@
                },
            },
    {
        if self.has(Field::Int64) {
            Some(self.read_int64())
        } else {
            None
        }
    }

    /// Read a text where it stands there whole; else nothing is read.
    pub fn try_read_string(&mut self) -> (r: Option<String>)
        ensures
            match r {
                Some(x) => {
                    &&& field_end(old(self)@.bytes, old(self)@.at, Field::Text) is Some
                    &&& x@ == text_at(old(self)@.bytes, old(self)@.at)
                    &&& final(self)@ == old(self)@.past(Field::Text)
                },
                None => {
                    &&& field_end(old(self)@.bytes, old(self)@.at, Field::Text) is None
                    &&& final(self)@ == old(self)@
                },
            },
    {
        if self.has(Field::Text) {
            Some(self.read_string())
        } else {
            None
        }
    }

    /// Append one byte.
    pub fn write_int8(&mut self, x: u8)
        ensures
            final(self)@.bytes == old(self)@.bytes.push(x),
            final(self)@.at == old(self)@.at,
    {
        self.data.push(x);
    }

    /// Append a 32-bit number.
    pub fn write_int32(&mut self, x: u32)
        ensures
            final(self)@.bytes == old(self)@.bytes + le32_bytes(x),
            final(self)@.at == old(self)@.at,
    {
        push_u32(&mut self.data, x);
    }

    /// Append a 64-bit number.
    pub fn write_int64(&mut self, x: u64)
        ensures
            final(self)@.bytes == old(self)@.bytes + le64_bytes(x),
            final(self)@.at == old(self)@.at,
    {
        let low: u32 = (x % 0x1_0000_0000) as u32;
        let high: u32 = (x / 0x1_0000_0000) as u32;
        push_u32(&mut self.data, low);
        push_u32(&mut self.data, high);
        assert(self.data@ =~= old(self).data@ + le64_bytes(x));
    }

    /// Append a text.
    pub fn write_string(&mut self, s: &str)
        requires
            vstd::utf8::encode_utf8(s@).len() <= u32::MAX,
        ensures
            final(self)@.bytes == old(self)@.bytes + text_bytes(s@),
            final(self)@.at == old(self)@.at,
    {
        let raw = s.as_bytes();
        let n: usize = raw.len();
        push_u32(&mut self.data, n as u32);
        let ghost head = self.data@;
        let mut i: usize = 0;
        while i < n
            invariant
                n == raw@.len(),
                i <= n,
                self.data@ == head + raw@.take(i as int),
                self.pointer == old(self).pointer,
            decreases n - i,
        {
            self.data.push(raw[i]);
            i += 1;
            assert(self.data@ =~= head + raw@.take(i as int));
        }
        assert(raw@.take(i as int) =~= raw@);
        assert(self.data@ =~= old(self).data@ + text_bytes(s@));
    }

    /// The bytes to send: the number of bytes, then the bytes.
    pub fn get_buffer(&self) -> (r: Vec<u8>)
        requires
            self@.bytes.len() <= u32::MAX,
        ensures
            r@ == framed(self@.bytes),
    {
        let mut out: Vec<u8> = Vec::new();
        push_u32(&mut out, self.data.len() as u32);
        let mut body = self.get_data();
        out.append(&mut body);
        assert(out@ =~= framed(self.data@));
        out
    }
}

/// A row of one field that is there is a field that is there.
proof fn lemma_holds_one(w: Wire, field: Field)
    requires
        w.holds(seq![field]),
    ensures
        field_end(w.bytes, w.at, field) is Some,
{
    assert(seq![field][0] == field);
}

/// The first field of a row that is there can be read, and then the rest.
pub proof fn lemma_holds_step(w: Wire, fields: Seq<Field>)
    requires
        w.holds(fields),
        fields.len() > 0,
        w.bytes.len() <= usize::MAX,
    ensures
        w.holds(seq![fields[0]]),
        w.past(fields[0]).holds(fields.skip(1)),
        fields_end(w.bytes, w.at, fields) == fields_end(
            w.bytes,
            w.past(fields[0]).at,
            fields.skip(1),
        ),
{
    let one = seq![fields[0]];
    assert(one.skip(1) =~= Seq::empty());
    assert(fields_end(w.bytes, w.past(fields[0]).at, Seq::empty()) is Some);
}

fn u32_at(data: &Vec<u8>, at: usize) -> (r: u32)
    requires
        at + 4 <= data@.len(),
    ensures
        r == le32(data@, at as int),
{
    assert(data@.len() == data.len());
    (data[at] as u32) + 0x100 * (data[at + 1] as u32) + 0x1_0000 * (data[at + 2] as u32)
        + 0x100_0000 * (data[at + 3] as u32)
}

fn push_u32(data: &mut Vec<u8>, x: u32)
    ensures
        final(data)@ == old(data)@ + le32_bytes(x),
{
    data.push((x % 0x100) as u8);
    data.push(((x / 0x100) % 0x100) as u8);
    data.push(((x / 0x1_0000) % 0x100) as u8);
    data.push((x / 0x100_0000) as u8);
    assert(data@ =~= old(data)@ + le32_bytes(x));
}

/// A 32-bit number read from its own bytes is that number.
pub proof fn lemma_le32_round_trip(x: u32, before: Seq<u8>, after: Seq<u8>)
    ensures
        le32(before + le32_bytes(x) + after, before.len() as int) == x,
{
    let b = before + le32_bytes(x) + after;
    let n = before.len() as int;
    assert(b[n] == le32_bytes(x)[0]);
    assert(b[n + 1] == le32_bytes(x)[1]);
    assert(b[n + 2] == le32_bytes(x)[2]);
    assert(b[n + 3] == le32_bytes(x)[3]);
}

/// A 64-bit number read from its own bytes is that number.
pub proof fn lemma_le64_round_trip(x: u64, before: Seq<u8>, after: Seq<u8>)
    ensures
        le64(before + le64_bytes(x) + after, before.len() as int) == x,
{
    let low = (x % 0x1_0000_0000) as u32;
    let high = (x / 0x1_0000_0000) as u32;
    lemma_le32_round_trip(low, before, le32_bytes(high) + after);
    lemma_le32_round_trip(high, before + le32_bytes(low), after);
    assert(before + le64_bytes(x) + after =~= before + le32_bytes(low) + (le32_bytes(high) + after));
    assert(before + le64_bytes(x) + after =~= (before + le32_bytes(low)) + le32_bytes(high) + after);
}

/// A text that was written stands there whole, and its bytes decode to it: what
/// [`Message::read_string`] gives back is what [`Message::write_string`] wrote.
pub proof fn lemma_text_round_trip(s: Seq<char>, before: Seq<u8>, after: Seq<u8>)
    requires
        vstd::utf8::encode_utf8(s).len() <= u32::MAX,
    ensures
        ({
            let b = before + text_bytes(s) + after;
            let n = before.len() as int;
            &&& field_end(b, n, Field::Text) == Some(n + text_bytes(s).len())
            &&& vstd::utf8::valid_utf8(raw_text_at(b, n))
            &&& vstd::utf8::decode_utf8(raw_text_at(b, n)) == s
            &&& text_at(b, n) == s
        }),
{
    let raw = vstd::utf8::encode_utf8(s);
    let b = before + text_bytes(s) + after;
    let n = before.len() as int;
    lemma_le32_round_trip(raw.len() as u32, before, raw + after);
    assert(before + le32_bytes(raw.len() as u32) + (raw + after) =~= b);
    assert(raw_text_at(b, n) =~= raw);
    vstd::utf8::encode_utf8_valid_utf8(s);
    vstd::utf8::encode_utf8_decode_utf8(s);
}

// ---- framing --------------------------------------------------------------

/// A message as it is sent: its length, then its bytes.
pub open spec fn framed(body: Seq<u8>) -> Seq<u8> {
    le32_bytes(body.len() as u32) + body
}

/// The first whole frame of a stream of bytes, its length included.
pub open spec fn first_frame(stream: Seq<u8>) -> Option<Seq<u8>> {
    if stream.len() >= 4 && 4 + le32(stream, 0) <= stream.len() {
        Some(stream.take(4 + le32(stream, 0)))
    } else {
        None
    }
}

/// The whole frames of a stream of bytes, each with its length.
pub open spec fn frames(stream: Seq<u8>) -> Seq<Seq<u8>>
    decreases stream.len(),
{
    match first_frame(stream) {
        Some(frame) => if 4 <= frame.len() <= stream.len() {
            seq![frame] + frames(stream.skip(frame.len() as int))
        } else {
            Seq::empty()
        },
        None => Seq::empty(),
    }
}

/// What follows the last whole frame of a stream of bytes.
pub open spec fn leftover(stream: Seq<u8>) -> Seq<u8>
    decreases stream.len(),
{
    match first_frame(stream) {
        Some(frame) => if 4 <= frame.len() <= stream.len() {
            leftover(stream.skip(frame.len() as int))
        } else {
            stream
        },
        None => stream,
    }
}

/// Bytes received from a connection, cut into messages.
#[derive(Debug)]
pub struct MessageReader {
    buffer: Vec<u8>,
}

impl View for MessageReader {
    type V = Seq<u8>;

    closed spec fn view(&self) -> Seq<u8> {
        self.buffer@
    }
}

impl MessageReader {
    /// A reader that has received nothing.
    pub fn new() -> (r: MessageReader)
        ensures
            r@ == Seq::<u8>::empty(),
    {
        MessageReader { buffer: Vec::new() }
    }

    /// Take in bytes as they arrive.
    pub fn push_bytes(&mut self, bytes: &Vec<u8>)
        ensures
            final(self)@ == old(self)@ + bytes@,
    {
        let mut i: usize = 0;
        while i < bytes.len()
            invariant
                i <= bytes.len(),
                self.buffer@ == old(self).buffer@ + bytes@.take(i as int),
            decreases bytes.len() - i,
        {
            self.buffer.push(bytes[i]);
            i += 1;
            assert(self.buffer@ =~= old(self).buffer@ + bytes@.take(i as int));
        }
        assert(bytes@.take(i as int) =~= bytes@);
    }

    /// How many bytes wait.
    pub fn buffer_len(&self) -> (r: usize)
        ensures
            r == self@.len(),
    {
        self.buffer.len()
    }

    /// The bytes that wait.
    pub fn get_buffer(&self) -> (r: Vec<u8>)
        ensures
            r@ == self@,
    {
        let mut out: Vec<u8> = Vec::new();
        let mut i: usize = 0;
        while i < self.buffer.len()
            invariant
                i <= self.buffer@.len(),
                out@ == self.buffer@.take(i as int),
            decreases self.buffer@.len() - i,
        {
            out.push(self.buffer[i]);
            i += 1;
        }
        assert(out@ =~= self.buffer@);
        out
    }

    /// Take out the first whole message, its length included. Where none is
    /// whole yet, nothing changes.
    pub fn extract_message(&mut self) -> (r: Option<Message>)
        ensures
            match r {
                Some(m) => {
                    &&& first_frame(old(self)@) == Some(m@.bytes)
                    &&& m@.at == 0
                    &&& final(self)@ == old(self)@.skip(m@.bytes.len() as int)
                },
                None => first_frame(old(self)@) is None && final(self)@ == old(self)@,
            },
    {
        let n: usize = self.buffer.len();
        if n < 4 {
            return None;
        }
        let size: usize = u32_at(&self.buffer, 0) as usize;
        if n - 4 < size {
            return None;
        }
        let rest = self.buffer.split_off(4 + size);
        let mut frame = rest;
        core::mem::swap(&mut frame, &mut self.buffer);
        assert(frame@ =~= old(self).buffer@.take(4 + size));
        assert(self.buffer@ =~= old(self).buffer@.skip(4 + size));
        Some(Message::new_with_data(frame))
    }
}

/// A message that was framed and sent is the first frame of what arrives,
/// whatever follows it, and what follows is left.
pub proof fn lemma_frame_round_trip(body: Seq<u8>, after: Seq<u8>)
    requires
        body.len() <= u32::MAX,
    ensures
        first_frame(framed(body) + after) == Some(framed(body)),
        (framed(body) + after).skip(framed(body).len() as int) == after,
{
    let stream = framed(body) + after;
    lemma_le32_round_trip(body.len() as u32, Seq::empty(), body + after);
    assert(Seq::<u8>::empty() + le32_bytes(body.len() as u32) + (body + after) =~= stream);
    assert(stream.take(4 + body.len() as int) =~= framed(body));
    assert(stream.skip(framed(body).len() as int) =~= after);
}

/// Bytes of a frame that is not whole yet give no message.
pub proof fn lemma_partial_frame_waits(body: Seq<u8>, n: int)
    requires
        body.len() <= u32::MAX,
        0 <= n < framed(body).len(),
    ensures
        first_frame(framed(body).take(n)) is None,
{
    let part = framed(body).take(n);
    if n >= 4 {
        lemma_le32_round_trip(body.len() as u32, Seq::empty(), body);
        assert(Seq::<u8>::empty() + le32_bytes(body.len() as u32) + body =~= framed(body));
        assert(le32(part, 0) == le32(framed(body), 0));
    }
}

/// However a stream of bytes is cut, the same frames come out of it: those of the
/// first piece, and then those of what it left over followed by the second.
pub proof fn lemma_pieces_do_not_matter(a: Seq<u8>, b: Seq<u8>)
    ensures
        frames(a + b) == frames(a) + frames(leftover(a) + b),
        leftover(a + b) == leftover(leftover(a) + b),
    decreases a.len(),
{
    match first_frame(a) {
        Some(frame) => {
            let n = frame.len() as int;
            let rest = a.skip(n);
            lemma_pieces_do_not_matter(rest, b);
            assert(le32(a + b, 0) == le32(a, 0));
            assert((a + b).take(n) =~= a.take(n));
            assert((a + b).skip(n) =~= rest + b);
            assert(frames(a + b) == seq![frame] + frames(rest + b));
            assert(seq![frame] + (frames(rest) + frames(leftover(rest) + b)) =~= (seq![frame]
                + frames(rest)) + frames(leftover(rest) + b));
        },
        None => {
            assert(frames(a) + frames(a + b) =~= frames(a + b));
        },
    }
}

/// Messages as they are sent, one after another.
pub open spec fn sent(bodies: Seq<Seq<u8>>) -> Seq<u8>
    decreases bodies.len(),
{
    if bodies.len() == 0 {
        Seq::empty()
    } else {
        framed(bodies[0]) + sent(bodies.skip(1))
    }
}

/// Every message that is sent arrives, in order, and nothing is left over.
pub proof fn lemma_what_is_sent_arrives(bodies: Seq<Seq<u8>>)
    requires
        forall|i: int| 0 <= i < bodies.len() ==> (#[trigger] bodies[i]).len() <= u32::MAX,
    ensures
        frames(sent(bodies)) == bodies.map_values(|body: Seq<u8>| framed(body)),
        leftover(sent(bodies)).len() == 0,
    decreases bodies.len(),
{
    let f = |body: Seq<u8>| framed(body);
    if bodies.len() > 0 {
        let rest = bodies.skip(1);
        assert forall|i: int| 0 <= i < rest.len() implies (#[trigger] rest[i]).len()
            <= u32::MAX by {
            assert(rest[i] == bodies[i + 1]);
        }
        lemma_what_is_sent_arrives(rest);
        lemma_frame_round_trip(bodies[0], sent(rest));
        assert(frames(sent(bodies)) == seq![framed(bodies[0])] + frames(sent(rest)));
        assert(seq![f(bodies[0])] + rest.map_values(f) =~= bodies.map_values(f));
    } else {
        assert(frames(sent(bodies)) =~= bodies.map_values(f));
    }
}

} // verus!
