//! What is written on the wire is what is read from it, wherever it stands.
use vstd::prelude::*;

use super::message::Field;

verus! {

/// The piece stands in the bytes at the given place.
pub open spec fn stands_at(b: Seq<u8>, at: int, piece: Seq<u8>) -> bool {
    0 <= at && at + piece.len() <= b.len() && b.subrange(at, at + piece.len()) == piece
}

/// Two pieces that stand one after another stand each in its place.
pub proof fn lemma_pieces_stand(b: Seq<u8>, at: int, p: Seq<u8>, q: Seq<u8>)
    requires
        stands_at(b, at, p + q),
    ensures
        stands_at(b, at, p),
        stands_at(b, at + p.len(), q),
{
    let whole = b.subrange(at, at + (p + q).len());
    assert(b.subrange(at, at + p.len()) =~= p) by {
        assert forall|k: int| 0 <= k < p.len() implies b[at + k] == p[k] by {
            assert(whole[k] == (p + q)[k]);
        }
    }
    assert(b.subrange(at + p.len(), at + p.len() + q.len()) =~= q) by {
        assert forall|k: int| 0 <= k < q.len() implies b[at + p.len() + k] == q[k] by {
            assert(whole[p.len() + k] == (p + q)[p.len() + k]);
        }
    }
}

/// All of the bytes stand at their start.
pub proof fn lemma_all_stands(b: Seq<u8>)
    ensures
        stands_at(b, 0, b),
{
    assert(b.subrange(0, b.len() as int) =~= b);
}

/// A byte that stands in a place is read there.
pub proof fn lemma_byte_is_read(b: Seq<u8>, at: int, x: u8)
    requires
        stands_at(b, at, seq![x]),
    ensures
        b[at] == x,
        super::message::field_end(b, at, Field::Int8) == Some(at + 1),
{
    assert(b.subrange(at, at + 1)[0] == seq![x][0]);
}

/// A 32-bit number that stands in a place is read there.
pub proof fn lemma_number_is_read(b: Seq<u8>, at: int, x: u32)
    requires
        stands_at(b, at, super::message::le32_bytes(x)),
    ensures
        super::message::le32(b, at) == x,
        super::message::field_end(b, at, Field::Int32) == Some(at + 4),
{
    let piece = super::message::le32_bytes(x);
    let s = b.subrange(at, at + 4);
    assert(b[at] == s[0] && b[at + 1] == s[1] && b[at + 2] == s[2] && b[at + 3] == s[3]);
    assert(s == piece);
}

/// A 64-bit number that stands in a place is read there.
pub proof fn lemma_long_number_is_read(b: Seq<u8>, at: int, x: u64)
    requires
        stands_at(b, at, super::message::le64_bytes(x)),
    ensures
        super::message::le64(b, at) == x,
        super::message::field_end(b, at, Field::Int64) == Some(at + 8),
{
    let low = super::message::le32_bytes((x % 0x1_0000_0000) as u32);
    let high = super::message::le32_bytes((x / 0x1_0000_0000) as u32);
    lemma_pieces_stand(b, at, low, high);
    lemma_number_is_read(b, at, (x % 0x1_0000_0000) as u32);
    lemma_number_is_read(b, at + 4, (x / 0x1_0000_0000) as u32);
}

/// A text that stands in a place is read there.
pub proof fn lemma_text_is_read(b: Seq<u8>, at: int, s: Seq<char>)
    requires
        stands_at(b, at, super::message::text_bytes(s)),
        vstd::utf8::encode_utf8(s).len() <= u32::MAX,
    ensures
        super::message::text_at(b, at) == s,
        super::message::field_end(b, at, Field::Text) == Some(
            at + super::message::text_bytes(s).len(),
        ),
{
    let raw = vstd::utf8::encode_utf8(s);
    let len = super::message::le32_bytes(raw.len() as u32);
    lemma_pieces_stand(b, at, len, raw);
    lemma_number_is_read(b, at, raw.len() as u32);
    assert(super::message::raw_text_at(b, at) == raw);
    vstd::utf8::encode_utf8_valid_utf8(s);
    vstd::utf8::encode_utf8_decode_utf8(s);
}

} // verus!
