//! The MD5 digest (RFC 1321), from which searches and downloads take their
//! numbers.
use vstd::prelude::*;

verus! {

/// The amounts by which the four rounds rotate, four to a round.
pub const ROTATIONS: [u32; 16] = [7, 12, 17, 22, 5, 9, 14, 20, 4, 11, 16, 23, 6, 10, 15, 21];

/// The table of the algorithm: the whole part of 2^32 times the sine of 1 to 64.
pub const SINES: [u32; 64] = [
    0xd76aa478, 0xe8c7b756, 0x242070db, 0xc1bdceee, 0xf57c0faf, 0x4787c62a,
    0xa8304613, 0xfd469501, 0x698098d8, 0x8b44f7af, 0xffff5bb1, 0x895cd7be,
    0x6b901122, 0xfd987193, 0xa679438e, 0x49b40821, 0xf61e2562, 0xc040b340,
    0x265e5a51, 0xe9b6c7aa, 0xd62f105d, 0x02441453, 0xd8a1e681, 0xe7d3fbc8,
    0x21e1cde6, 0xc33707d6, 0xf4d50d87, 0x455a14ed, 0xa9e3e905, 0xfcefa3f8,
    0x676f02d9, 0x8d2a4c8a, 0xfffa3942, 0x8771f681, 0x6d9d6122, 0xfde5380c,
    0xa4beea44, 0x4bdecfa9, 0xf6bb4b60, 0xbebfbc70, 0x289b7ec6, 0xeaa127fa,
    0xd4ef3085, 0x04881d05, 0xd9d4d039, 0xe6db99e5, 0x1fa27cf8, 0xc4ac5665,
    0xf4292244, 0x432aff97, 0xab9423a7, 0xfc93a039, 0x655b59c3, 0x8f0ccc92,
    0xffeff47d, 0x85845dd1, 0x6fa87e4f, 0xfe2ce6e0, 0xa3014314, 0x4e0811a1,
    0xf7537e82, 0xbd3af235, 0x2ad7d2bb, 0xeb86d391,
];

/// The four registers.
#[derive(Debug, Clone, Copy, PartialEq, Eq, Structural)]
pub struct Registers {
    pub a: u32,
    pub b: u32,
    pub c: u32,
    pub d: u32,
}

/// The registers before the first block.
pub open spec fn initial() -> Registers {
    Registers { a: 0x67452301, b: 0xefcdab89, c: 0x98badcfe, d: 0x10325476 }
}

/// The message with its padding: a one bit, zero bits up to eight bytes before
/// the end of a block, and the length of the message in bits.
pub open spec fn padded(message: Seq<u8>) -> Seq<u8> {
    let zeros = (119 - message.len() % 64) % 64;
    message + seq![0x80u8] + Seq::new(zeros as nat, |i: int| 0u8) + length_bytes(message.len())
}

/// The length of a message in bits, as eight bytes, the lowest first.
pub open spec fn length_bytes(len: nat) -> Seq<u8> {
    Seq::new(8, |i: int| byte_of(8 * len, i as nat))
}

/// The byte of a number with the given weight.
pub open spec fn byte_of(n: nat, i: nat) -> u8
    decreases i,
{
    if i == 0 {
        (n % 256) as u8
    } else {
        byte_of(n / 256, (i - 1) as nat)
    }
}

/// The word that starts at `at`, its lowest byte first.
pub open spec fn word(bytes: Seq<u8>, at: int) -> u32 {
    (bytes[at] + 0x100 * bytes[at + 1] + 0x1_0000 * bytes[at + 2] + 0x100_0000 * bytes[at
        + 3]) as u32
}

/// Which word of the block a step reads.
pub open spec fn word_index(i: int) -> int {
    if i < 16 {
        i
    } else if i < 32 {
        (5 * i + 1) % 16
    } else if i < 48 {
        (3 * i + 5) % 16
    } else {
        (7 * i) % 16
    }
}

/// How a step mixes three registers.
pub open spec fn mixed(r: Registers, i: int) -> u32 {
    if i < 16 {
        (r.b & r.c) | (!r.b & r.d)
    } else if i < 32 {
        (r.d & r.b) | (!r.d & r.c)
    } else if i < 48 {
        r.b ^ r.c ^ r.d
    } else {
        r.c ^ (r.b | !r.d)
    }
}

/// The amount by which a step rotates.
pub open spec fn rotation(i: int) -> u32 {
    ROTATIONS@[4 * (i / 16) + i % 4]
}

/// A word rotated to the left.
pub open spec fn rotated(x: u32, by: u32) -> u32 {
    (x << by) | (x >> (32 - by) as u32)
}

/// One step on the block that starts at `at`.
pub open spec fn stepped(r: Registers, bytes: Seq<u8>, at: int, i: int) -> Registers {
    let sum = mixed(r, i).wrapping_add(r.a).wrapping_add(SINES@[i]).wrapping_add(
        word(bytes, at + 4 * word_index(i)),
    );
    Registers { a: r.d, b: r.b.wrapping_add(rotated(sum, rotation(i))), c: r.b, d: r.c }
}

/// The first `n` steps on the block that starts at `at`.
pub open spec fn steps(r: Registers, bytes: Seq<u8>, at: int, n: nat) -> Registers
    decreases n,
{
    if n == 0 {
        r
    } else {
        stepped(steps(r, bytes, at, (n - 1) as nat), bytes, at, n - 1)
    }
}

/// The registers after the first `n` blocks.
pub open spec fn blocks(bytes: Seq<u8>, n: nat) -> Registers
    decreases n,
{
    if n == 0 {
        initial()
    } else {
        let before = blocks(bytes, (n - 1) as nat);
        let after = steps(before, bytes, 64 * (n - 1), 64);
        Registers {
            a: before.a.wrapping_add(after.a),
            b: before.b.wrapping_add(after.b),
            c: before.c.wrapping_add(after.c),
            d: before.d.wrapping_add(after.d),
        }
    }
}

/// The registers at the end.
pub open spec fn digest(message: Seq<u8>) -> Registers {
    blocks(padded(message), padded(message).len() / 64)
}

fn word_at(bytes: &Vec<u8>, at: usize) -> (r: u32)
    requires
        at + 4 <= bytes@.len(),
    ensures
        r == word(bytes@, at as int),
{
    assert(bytes@.len() == bytes.len());
    bytes[at] as u32 + 0x100 * (bytes[at + 1] as u32) + 0x1_0000 * (bytes[at + 2] as u32)
        + 0x100_0000 * (bytes[at + 3] as u32)
}

fn rotate(x: u32, by: u32) -> (r: u32)
    requires
        0 < by < 32,
    ensures
        r == rotated(x, by),
{
    let back: u32 = 32 - by;
    (x << by) | (x >> back)
}

/// One step on the block that starts at `at`.
fn step(r: Registers, bytes: &Vec<u8>, at: usize, i: usize) -> (out: Registers)
    requires
        i < 64,
        at + 64 <= bytes@.len(),
    ensures
        out == stepped(r, bytes@, at as int, i as int),
{
    assert(bytes@.len() == bytes.len());
    let f: u32 = if i < 16 {
        (r.b & r.c) | (!r.b & r.d)
    } else if i < 32 {
        (r.d & r.b) | (!r.d & r.c)
    } else if i < 48 {
        r.b ^ r.c ^ r.d
    } else {
        r.c ^ (r.b | !r.d)
    };
    let g: usize = if i < 16 {
        i
    } else if i < 32 {
        (5 * i + 1) % 16
    } else if i < 48 {
        (3 * i + 5) % 16
    } else {
        (7 * i) % 16
    };
    let sines = SINES;
    let rotations = ROTATIONS;
    let sum: u32 = f.wrapping_add(r.a).wrapping_add(sines[i]).wrapping_add(
        word_at(bytes, at + 4 * g),
    );
    let by: u32 = rotations[4 * (i / 16) + i % 4];
    Registers { a: r.d, b: r.b.wrapping_add(rotate(sum, by)), c: r.b, d: r.c }
}

fn pad(message: &[u8]) -> (r: Vec<u8>)
    requires
        message@.len() <= usize::MAX - 128,
    ensures
        r@ == padded(message@),
{
    let n: usize = message.len();
    let mut out: Vec<u8> = Vec::new();
    let mut i: usize = 0;
    while i < n
        invariant
            n == message@.len(),
            i <= n,
            out@ == message@.take(i as int),
        decreases n - i,
    {
        out.push(message[i]);
        i += 1;
        assert(out@ =~= message@.take(i as int));
    }
    assert(out@ =~= message@);
    out.push(0x80);
    let zeros: usize = (119 - n % 64) % 64;
    let ghost head = out@;
    let mut j: usize = 0;
    while j < zeros
        invariant
            j <= zeros,
            out@ == head + Seq::new(j as nat, |i: int| 0u8),
        decreases zeros - j,
    {
        out.push(0);
        j += 1;
        assert(out@ =~= head + Seq::new(j as nat, |i: int| 0u8));
    }
    let ghost head = out@;
    let bits: u128 = 8 * (n as u128);
    let mut left: u128 = bits;
    let mut k: usize = 0;
    while k < 8
        invariant
            k <= 8,
            out@ == head + Seq::new(k as nat, |i: int| byte_of(bits as nat, i as nat)),
            forall|m: nat|
                #![trigger byte_of(left as nat, m)]
                byte_of(left as nat, m) == byte_of(bits as nat, m + k as nat),
        decreases 8 - k,
    {
        let ghost old_left = left;
        assert(byte_of(left as nat, 0) == byte_of(bits as nat, k as nat));
        out.push((left % 256) as u8);
        left = left / 256;
        k += 1;
        assert forall|m: nat|
            #![trigger byte_of(left as nat, m)]
            byte_of(left as nat, m) == byte_of(bits as nat, m + k as nat) by {
            assert(byte_of(old_left as nat, m + 1) == byte_of(left as nat, m));
        }
        assert(out@ =~= head + Seq::new(k as nat, |i: int| byte_of(bits as nat, i as nat)));
    }
    assert(out@ =~= padded(message@));
    out
}

/// The registers of the MD5 digest of a message.
pub fn md5_registers(message: &[u8]) -> (r: Registers)
    requires
        message@.len() <= usize::MAX - 128,
    ensures
        r == digest(message@),
{
    let bytes = pad(message);
    let n: usize = bytes.len();
    let mut r = Registers { a: 0x67452301, b: 0xefcdab89, c: 0x98badcfe, d: 0x10325476 };
    let mut block: usize = 0;
    while block < n / 64
        invariant
            n == bytes@.len(),
            block <= n / 64,
            r == blocks(bytes@, block as nat),
        decreases n / 64 - block,
    {
        let before = r;
        let at: usize = 64 * block;
        let mut i: usize = 0;
        while i < 64
            invariant
                i <= 64,
                at == 64 * block,
                at + 64 <= bytes@.len(),
                r == steps(before, bytes@, at as int, i as nat),
            decreases 64 - i,
        {
            r = step(r, &bytes, at, i);
            i += 1;
        }
        r = Registers {
            a: before.a.wrapping_add(r.a),
            b: before.b.wrapping_add(r.b),
            c: before.c.wrapping_add(r.c),
            d: before.d.wrapping_add(r.d),
        };
        block += 1;
    }
    r
}

/// The digit of a number below sixteen.
pub open spec fn hex_digit(n: nat) -> char {
    if n < 10 {
        ('0' as nat + n) as char
    } else {
        ('a' as nat + (n - 10)) as char
    }
}

/// The number that a digit stands for.
pub open spec fn hex_value(c: char) -> nat {
    if '0' <= c && c <= '9' {
        (c as nat - '0' as nat) as nat
    } else {
        (c as nat - 'a' as nat + 10) as nat
    }
}

/// The number that a row of digits stands for.
pub open spec fn hex_number(digits: Seq<char>) -> nat
    decreases digits.len(),
{
    if digits.len() == 0 {
        0
    } else {
        16 * hex_number(digits.drop_last()) + hex_value(digits.last())
    }
}

/// The digits of bytes, two to a byte, the higher first.
pub open spec fn hex_digits(bytes: Seq<u8>) -> Seq<char> {
    Seq::new(
        2 * bytes.len(),
        |i: int|
            hex_digit(
                if i % 2 == 0 {
                    bytes[i / 2] as nat / 16
                } else {
                    bytes[i / 2] as nat % 16
                },
            ),
    )
}

/// The digits of bytes, two to a byte, the higher first.
pub fn hex(bytes: &Vec<u8>) -> (r: String)
    ensures
        r@ == hex_digits(bytes@),
{
    let mut out = String::new();
    let mut i: usize = 0;
    while i < bytes.len()
        invariant
            i <= bytes@.len(),
            out@ == hex_digits(bytes@.take(i as int)),
        decreases bytes@.len() - i,
    {
        out.push(hex_char(bytes[i] / 16));
        out.push(hex_char(bytes[i] % 16));
        i += 1;
        assert(out@ =~= hex_digits(bytes@.take(i as int)));
    }
    assert(bytes@.take(i as int) =~= bytes@);
    out
}

fn hex_char(n: u8) -> (r: char)
    requires
        n < 16,
    ensures
        r == hex_digit(n as nat),
{
    if n < 10 {
        (48 + n) as char
    } else {
        (97 + (n - 10)) as char
    }
}

/// The four bytes of a register, the lowest first.
pub open spec fn register_bytes(x: u32) -> Seq<u8> {
    seq![
        (x % 0x100) as u8,
        ((x / 0x100) % 0x100) as u8,
        ((x / 0x1_0000) % 0x100) as u8,
        (x / 0x100_0000) as u8,
    ]
}

/// The sixteen bytes of the digest.
pub open spec fn digest_bytes(r: Registers) -> Seq<u8> {
    register_bytes(r.a) + register_bytes(r.b) + register_bytes(r.c) + register_bytes(r.d)
}

/// The digest of a text, in digits.
pub open spec fn md5_text(s: Seq<char>) -> Seq<char> {
    hex_digits(digest_bytes(digest(vstd::utf8::encode_utf8(s))))
}

/// The digest of a text is 32 digits, and takes 32 bytes.
pub proof fn lemma_md5_text_length(s: Seq<char>)
    ensures
        md5_text(s).len() == 32,
        vstd::utf8::encode_utf8(md5_text(s)).len() == 32,
{
    let text = md5_text(s);
    assert(vstd::utf8::is_ascii_chars(text)) by {
        assert forall|i: int| 0 <= i < text.len() implies '\0' <= #[trigger] text[i] <= '\u{7f}' by {}
    }
    vstd::utf8::is_ascii_chars_encode_utf8(text);
}

fn push_register(out: &mut Vec<u8>, x: u32)
    ensures
        final(out)@ == old(out)@ + register_bytes(x),
{
    out.push((x % 0x100) as u8);
    out.push(((x / 0x100) % 0x100) as u8);
    out.push(((x / 0x1_0000) % 0x100) as u8);
    out.push((x / 0x100_0000) as u8);
    assert(out@ =~= old(out)@ + register_bytes(x));
}

/// The digest of a text, in digits.
pub fn md5(s: &str) -> (r: String)
    requires
        vstd::utf8::encode_utf8(s@).len() <= usize::MAX - 128,
    ensures
        r@ == md5_text(s@),
{
    let registers = md5_registers(s.as_bytes());
    let mut bytes: Vec<u8> = Vec::new();
    push_register(&mut bytes, registers.a);
    push_register(&mut bytes, registers.b);
    push_register(&mut bytes, registers.c);
    push_register(&mut bytes, registers.d);
    assert(bytes@ =~= digest_bytes(registers));
    hex(&bytes)
}

/// The number of a text: the first five digits of its digest.
pub open spec fn md5_token(s: Seq<char>) -> nat {
    hex_number(md5_text(s).take(5))
}

/// Five digits make a number below 2^20, and two bytes and a half give it.
proof fn lemma_five_digits(bytes: Seq<u8>)
    requires
        bytes.len() >= 3,
    ensures
        hex_number(hex_digits(bytes).take(5)) == 4096 * bytes[0] + 16 * bytes[1] + bytes[2] / 16,
{
    let d = hex_digits(bytes).take(5);
    reveal_with_fuel(hex_number, 6);
    assert(d.drop_last() =~= d.take(4));
    assert(d.take(4).drop_last() =~= d.take(3));
    assert(d.take(3).drop_last() =~= d.take(2));
    assert(d.take(2).drop_last() =~= d.take(1));
    assert(d.take(1).drop_last() =~= Seq::empty());
    assert(hex_value(d[0]) == bytes[0] / 16);
    assert(hex_value(d[1]) == bytes[0] % 16);
    assert(hex_value(d[2]) == bytes[1] / 16);
    assert(hex_value(d[3]) == bytes[1] % 16);
    assert(hex_value(d[4]) == bytes[2] / 16);
}

/// The number of a text: the first five digits of its digest.
pub fn token_of(s: &str) -> (r: u32)
    requires
        vstd::utf8::encode_utf8(s@).len() <= usize::MAX - 128,
    ensures
        r == md5_token(s@),
        r < 0x10_0000,
{
    let registers = md5_registers(s.as_bytes());
    let b0: u32 = registers.a % 0x100;
    let b1: u32 = (registers.a / 0x100) % 0x100;
    let b2: u32 = (registers.a / 0x1_0000) % 0x100;
    proof {
        let bytes = digest_bytes(registers);
        lemma_five_digits(bytes);
        assert(bytes[0] == b0);
        assert(bytes[1] == b1);
        assert(bytes[2] == b2);
    }
    4096 * b0 + 16 * b1 + b2 / 16
}

} // verus!
