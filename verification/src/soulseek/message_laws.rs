//! What goes over the wire, told by what is sent and what it is read as.
use vstd::prelude::*;

use super::actor::peer_message::PeerMessage;
use super::actor::server_actor::ServerMessage;
use super::listen::Incoming;
use super::message::Field;
use super::path::SoulseekPath;
use super::peer::ConnectionType;
use super::request::Request;
use super::token::{DownloadToken, PierceToken};
use super::types::Transfer;

verus! {

/// The text fits on the wire.
pub open spec fn fits(s: Seq<char>) -> bool {
    vstd::utf8::encode_utf8(s).len() <= u32::MAX
}

proof fn lemma_four_pieces(b: Seq<u8>, at: int, p: Seq<u8>, q: Seq<u8>, r: Seq<u8>, s: Seq<u8>)
    requires
        super::wire_laws::stands_at(b, at, p + q + r + s),
    ensures
        super::wire_laws::stands_at(b, at, p),
        super::wire_laws::stands_at(b, at + p.len(), q),
        super::wire_laws::stands_at(b, at + p.len() + q.len(), r),
        super::wire_laws::stands_at(b, at + p.len() + q.len() + r.len(), s),
        (p + q + r + s).len() == p.len() + q.len() + r.len() + s.len(),
{
    super::wire_laws::lemma_pieces_stand(b, at, p + q + r, s);
    super::wire_laws::lemma_pieces_stand(b, at, p + q, r);
    super::wire_laws::lemma_pieces_stand(b, at, p, q);
}

// ---- what we send -------------------------------------------------------------------------

/// A search goes out under its code, with its number and then its words.
pub proof fn lemma_search_on_the_wire(token: u32, query: String)
    requires
        fits(query@),
    ensures
        ({
            let b = super::request::request_bytes(Request::FileSearch { token, query });
            &&& super::message::le32(b, 0) == 26
            &&& super::message::le32(b, 4) == token
            &&& super::message::text_at(b, 8) == query@
            &&& b.len() == 8 + super::message::text_bytes(query@).len()
        }),
{
    let b = super::request::request_bytes(Request::FileSearch { token, query });
    let code = super::message::le32_bytes(26);
    let number = super::message::le32_bytes(token);
    let words = super::message::text_bytes(query@);
    super::wire_laws::lemma_all_stands(b);
    super::wire_laws::lemma_pieces_stand(b, 0, code + number, words);
    super::wire_laws::lemma_pieces_stand(b, 0, code, number);
    super::wire_laws::lemma_number_is_read(b, 0, 26);
    super::wire_laws::lemma_number_is_read(b, 4, token);
    super::wire_laws::lemma_text_is_read(b, 8, query@);
}

/// A login goes out under its code with the name, then the password, the version of the
/// protocol, the digest of name and password together, and our own version.
pub proof fn lemma_login_on_the_wire(username: String, password: String)
    requires
        fits(username@),
        fits(password@),
        fits(crate::md5::md5_text(username@ + password@)),
    ensures
        ({
            let b = super::request::request_bytes(Request::Login { username, password });
            let u = 4 + super::message::text_bytes(username@).len() as int;
            let p = u + super::message::text_bytes(password@).len();
            let d = p + 4 + super::message::text_bytes(
                crate::md5::md5_text(username@ + password@),
            ).len();
            &&& super::message::le32(b, 0) == 1
            &&& super::message::text_at(b, 4) == username@
            &&& super::message::text_at(b, u) == password@
            &&& super::message::le32(b, p) == 160
            &&& super::message::text_at(b, p + 4) == crate::md5::md5_text(username@ + password@)
            &&& super::message::le32(b, d) == 1
            &&& b.len() == d + 4
        }),
{
    let b = super::request::request_bytes(Request::Login { username, password });
    let digest = crate::md5::md5_text(username@ + password@);
    let code = super::message::le32_bytes(1);
    let name = super::message::text_bytes(username@);
    let pass = super::message::text_bytes(password@);
    let version = super::message::le32_bytes(160);
    let sum = super::message::text_bytes(digest);
    let ours = super::message::le32_bytes(1);
    let first = code + name + pass + version;
    assert(b == first + sum + ours);
    super::wire_laws::lemma_all_stands(b);
    super::wire_laws::lemma_pieces_stand(b, 0, first + sum, ours);
    super::wire_laws::lemma_pieces_stand(b, 0, first, sum);
    lemma_four_pieces(b, 0, code, name, pass, version);
    let u = 4 + name.len() as int;
    let p = u + pass.len();
    lemma_login_is_read(b, u, p, p + 4 + sum.len(), username@, password@, digest);
}

proof fn lemma_login_is_read(
    b: Seq<u8>,
    u: int,
    p: int,
    d: int,
    username: Seq<char>,
    password: Seq<char>,
    digest: Seq<char>,
)
    requires
        fits(username),
        fits(password),
        fits(digest),
        super::wire_laws::stands_at(b, 0, super::message::le32_bytes(1)),
        super::wire_laws::stands_at(b, 4, super::message::text_bytes(username)),
        super::wire_laws::stands_at(b, u, super::message::text_bytes(password)),
        super::wire_laws::stands_at(b, p, super::message::le32_bytes(160)),
        super::wire_laws::stands_at(b, p + 4, super::message::text_bytes(digest)),
        super::wire_laws::stands_at(b, d, super::message::le32_bytes(1)),
    ensures
        super::message::le32(b, 0) == 1,
        super::message::text_at(b, 4) == username,
        super::message::text_at(b, u) == password,
        super::message::le32(b, p) == 160,
        super::message::text_at(b, p + 4) == digest,
        super::message::le32(b, d) == 1,
{
    super::wire_laws::lemma_number_is_read(b, 0, 1);
    super::wire_laws::lemma_text_is_read(b, 4, username);
    super::wire_laws::lemma_text_is_read(b, u, password);
    super::wire_laws::lemma_number_is_read(b, p, 160);
    super::wire_laws::lemma_text_is_read(b, p + 4, digest);
    super::wire_laws::lemma_number_is_read(b, d, 1);
}

proof fn lemma_two_numbers(b: Seq<u8>, x: u32, y: u32)
    requires
        b == super::message::le32_bytes(x) + super::message::le32_bytes(y),
    ensures
        super::message::le32(b, 0) == x,
        super::message::le32(b, 4) == y,
        b.len() == 8,
{
    super::wire_laws::lemma_all_stands(b);
    super::wire_laws::lemma_pieces_stand(
        b,
        0,
        super::message::le32_bytes(x),
        super::message::le32_bytes(y),
    );
    super::wire_laws::lemma_number_is_read(b, 0, x);
    super::wire_laws::lemma_number_is_read(b, 4, y);
}

proof fn lemma_number_and_text(b: Seq<u8>, x: u32, s: Seq<char>)
    requires
        b == super::message::le32_bytes(x) + super::message::text_bytes(s),
        fits(s),
    ensures
        super::message::le32(b, 0) == x,
        super::message::text_at(b, 4) == s,
        b.len() == 4 + super::message::text_bytes(s).len(),
{
    super::wire_laws::lemma_all_stands(b);
    super::wire_laws::lemma_pieces_stand(
        b,
        0,
        super::message::le32_bytes(x),
        super::message::text_bytes(s),
    );
    super::wire_laws::lemma_number_is_read(b, 0, x);
    super::wire_laws::lemma_text_is_read(b, 4, s);
}

/// What else the server is told: where we listen, whose address we want, our status, what
/// we share, that we have no parent, and which token pierces a firewall.
pub proof fn lemma_other_requests_on_the_wire(
    port: u32,
    username: String,
    status: u32,
    folders: u32,
    files: u32,
    token: u32,
)
    requires
        fits(username@),
    ensures
        ({
            let b = super::request::request_bytes(Request::SetWaitPort { port });
            super::message::le32(b, 0) == 2 && super::message::le32(b, 4) == port && b.len() == 8
        }),
        ({
            let b = super::request::request_bytes(Request::GetPeerAddress { username });
            super::message::le32(b, 0) == 3 && super::message::text_at(b, 4) == username@
        }),
        ({
            let b = super::request::request_bytes(Request::WatchUser { username });
            super::message::le32(b, 0) == 5 && super::message::text_at(b, 4) == username@
        }),
        ({
            let b = super::request::request_bytes(Request::SetStatus { status });
            super::message::le32(b, 0) == 28 && super::message::le32(b, 4) == status && b.len()
                == 8
        }),
        ({
            let b = super::request::request_bytes(Request::SharedFolders { folders, files });
            &&& super::message::le32(b, 0) == 35
            &&& super::message::le32(b, 4) == folders
            &&& super::message::le32(b, 8) == files
            &&& b.len() == 12
        }),
        ({
            let b = super::request::request_bytes(Request::NoParent);
            super::message::le32(b, 0) == 71 && b[4] == 1 && b.len() == 5
        }),
        ({
            let b = super::request::request_bytes(Request::PierceFirewall { token });
            b[0] == 0 && super::message::le32(b, 1) == token && b.len() == 5
        }),
{
    lemma_two_numbers(super::request::request_bytes(Request::SetWaitPort { port }), 2, port);
    lemma_two_numbers(super::request::request_bytes(Request::SetStatus { status }), 28, status);
    lemma_number_and_text(
        super::request::request_bytes(Request::GetPeerAddress { username }),
        3,
        username@,
    );
    lemma_number_and_text(
        super::request::request_bytes(Request::WatchUser { username }),
        5,
        username@,
    );
    let b = super::request::request_bytes(Request::SharedFolders { folders, files });
    let code = super::message::le32_bytes(35);
    let f = super::message::le32_bytes(folders);
    let g = super::message::le32_bytes(files);
    super::wire_laws::lemma_all_stands(b);
    super::wire_laws::lemma_pieces_stand(b, 0, code + f, g);
    super::wire_laws::lemma_pieces_stand(b, 0, code, f);
    super::wire_laws::lemma_number_is_read(b, 0, 35);
    super::wire_laws::lemma_number_is_read(b, 4, folders);
    super::wire_laws::lemma_number_is_read(b, 8, files);
    let n = super::request::request_bytes(Request::NoParent);
    super::wire_laws::lemma_all_stands(n);
    assert(n =~= super::message::le32_bytes(71) + seq![1u8]);
    super::wire_laws::lemma_pieces_stand(n, 0, super::message::le32_bytes(71), seq![1u8]);
    super::wire_laws::lemma_number_is_read(n, 0, 71);
    let p = super::request::request_bytes(Request::PierceFirewall { token });
    super::wire_laws::lemma_all_stands(p);
    super::wire_laws::lemma_pieces_stand(p, 0, seq![0u8], super::message::le32_bytes(token));
    super::wire_laws::lemma_byte_is_read(p, 0, 0);
    super::wire_laws::lemma_number_is_read(p, 1, token);
}

/// What a peer is told: which file we want queued or sent under our token, and that it may
/// send the one it proposes.
pub proof fn lemma_requests_to_peers_on_the_wire(
    filename: SoulseekPath,
    token: u32,
    transfer: Transfer,
)
    requires
        fits(filename@),
    ensures
        ({
            let b = super::request::request_bytes(Request::QueueUpload { filename });
            super::message::le32(b, 0) == 43 && super::message::text_at(b, 4) == filename@
        }),
        ({
            let b = super::request::request_bytes(Request::TransferRequest { filename, token });
            &&& super::message::le32(b, 0) == 40
            &&& super::message::le32(b, 4) == 0
            &&& super::message::le32(b, 8) == token
            &&& super::message::text_at(b, 12) == filename@
        }),
        ({
            let b = super::request::request_bytes(Request::TransferResponse { transfer });
            &&& super::message::le32(b, 0) == 41
            &&& super::message::le32(b, 4) == transfer.token.0
            &&& b[8] == 1
            &&& super::message::le64(b, 9) == transfer.size
            &&& b.len() == 17
        }),
{
    lemma_number_and_text(
        super::request::request_bytes(Request::QueueUpload { filename }),
        43,
        filename@,
    );
    lemma_transfer_request_is_read(
        super::request::request_bytes(Request::TransferRequest { filename, token }),
        token,
        filename@,
    );
    lemma_transfer_response_is_read(
        super::request::request_bytes(Request::TransferResponse { transfer }),
        transfer.token.0,
        transfer.size,
    );
}

proof fn lemma_transfer_request_is_read(b: Seq<u8>, token: u32, filename: Seq<char>)
    requires
        fits(filename),
        b == super::message::le32_bytes(40) + super::message::le32_bytes(0)
            + super::message::le32_bytes(token) + super::message::text_bytes(filename),
    ensures
        super::message::le32(b, 0) == 40,
        super::message::le32(b, 4) == 0,
        super::message::le32(b, 8) == token,
        super::message::text_at(b, 12) == filename,
{
    super::wire_laws::lemma_all_stands(b);
    lemma_four_pieces(
        b,
        0,
        super::message::le32_bytes(40),
        super::message::le32_bytes(0),
        super::message::le32_bytes(token),
        super::message::text_bytes(filename),
    );
    super::wire_laws::lemma_number_is_read(b, 0, 40);
    super::wire_laws::lemma_number_is_read(b, 4, 0);
    super::wire_laws::lemma_number_is_read(b, 8, token);
    super::wire_laws::lemma_text_is_read(b, 12, filename);
}

proof fn lemma_transfer_response_is_read(b: Seq<u8>, token: u32, size: u64)
    requires
        b == super::message::le32_bytes(41) + super::message::le32_bytes(token) + seq![1u8]
            + super::message::le64_bytes(size),
    ensures
        super::message::le32(b, 0) == 41,
        super::message::le32(b, 4) == token,
        b[8] == 1,
        super::message::le64(b, 9) == size,
        b.len() == 17,
{
    super::wire_laws::lemma_all_stands(b);
    lemma_four_pieces(
        b,
        0,
        super::message::le32_bytes(41),
        super::message::le32_bytes(token),
        seq![1u8],
        super::message::le64_bytes(size),
    );
    super::wire_laws::lemma_number_is_read(b, 0, 41);
    super::wire_laws::lemma_number_is_read(b, 4, token);
    super::wire_laws::lemma_byte_is_read(b, 8, 1);
    super::wire_laws::lemma_long_number_is_read(b, 9, size);
}

// ---- what we are sent ---------------------------------------------------------------------

/// A message as it comes: its length, its code and what it carries.
pub open spec fn frame_of(length: u32, code: u32, body: Seq<u8>) -> Seq<u8> {
    super::message::le32_bytes(length) + super::message::le32_bytes(code) + body
}

proof fn lemma_frame(length: u32, code: u32, body: Seq<u8>)
    ensures
        ({
            let f = frame_of(length, code, body);
            &&& f.len() == 8 + body.len()
            &&& super::message::le32(f, 4) == code
            &&& super::wire_laws::stands_at(f, 8, body)
        }),
{
    let f = frame_of(length, code, body);
    let l = super::message::le32_bytes(length);
    let c = super::message::le32_bytes(code);
    super::wire_laws::lemma_all_stands(f);
    super::wire_laws::lemma_pieces_stand(f, 0, l + c, body);
    super::wire_laws::lemma_pieces_stand(f, 0, l, c);
    super::wire_laws::lemma_number_is_read(f, 4, code);
}

/// A login that the server accepts, with its greeting, our address, the digest and whether
/// we support it, is read as accepted; one that it refuses as refused.
pub proof fn lemma_login_answer_is_read(
    length: u32,
    greeting: Seq<char>,
    address: u32,
    digest: Seq<char>,
    supporter: u8,
    words: Seq<char>,
    out: Option<ServerMessage>,
)
    requires
        fits(greeting),
        fits(digest),
    ensures
        super::handlers::server_says(
            frame_of(
                length,
                1,
                seq![1u8] + super::message::text_bytes(greeting) + super::message::le32_bytes(
                    address,
                ) + super::message::text_bytes(digest) + seq![supporter],
            ),
            out,
        ) <==> out == Some(ServerMessage::LoginStatus(true)),
        super::handlers::server_says(
            frame_of(length, 1, seq![0u8] + super::message::text_bytes(words)),
            out,
        ) <==> out == Some(ServerMessage::LoginStatus(false)),
{
    let body = seq![1u8] + super::message::text_bytes(greeting) + super::message::le32_bytes(
        address,
    ) + super::message::text_bytes(digest) + seq![supporter];
    let f = frame_of(length, 1, body);
    lemma_frame(length, 1, body);
    lemma_welcome_is_read(f, greeting, address, digest, supporter);
    let no = seq![0u8];
    let t = super::message::text_bytes(words);
    let r = frame_of(length, 1, no + t);
    lemma_frame(length, 1, no + t);
    super::wire_laws::lemma_pieces_stand(r, 8, no, t);
    super::wire_laws::lemma_byte_is_read(r, 8, 0);
}

proof fn lemma_welcome_is_read(
    f: Seq<u8>,
    greeting: Seq<char>,
    address: u32,
    digest: Seq<char>,
    supporter: u8,
)
    requires
        fits(greeting),
        fits(digest),
        super::wire_laws::stands_at(
            f,
            8,
            seq![1u8] + super::message::text_bytes(greeting) + super::message::le32_bytes(address)
                + super::message::text_bytes(digest) + seq![supporter],
        ),
    ensures
        f[8] == 1,
        super::message::fields_end(f, 9, super::handlers::welcome_fields()) is Some,
{
    let yes = seq![1u8];
    let g = super::message::text_bytes(greeting);
    let a = super::message::le32_bytes(address);
    let d = super::message::text_bytes(digest);
    let s = seq![supporter];
    super::wire_laws::lemma_pieces_stand(f, 8, yes + g + a + d, s);
    lemma_four_pieces(f, 8, yes, g, a, d);
    let n1 = 9 + g.len() as int;
    super::wire_laws::lemma_byte_is_read(f, 8, 1);
    lemma_welcome_fields(f, n1, n1 + 4 + d.len(), greeting, address, digest, supporter);
}

proof fn lemma_welcome_fields(
    f: Seq<u8>,
    n1: int,
    n3: int,
    greeting: Seq<char>,
    address: u32,
    digest: Seq<char>,
    supporter: u8,
)
    requires
        fits(greeting),
        fits(digest),
        n1 == 9 + super::message::text_bytes(greeting).len(),
        n3 == n1 + 4 + super::message::text_bytes(digest).len(),
        super::wire_laws::stands_at(f, 9, super::message::text_bytes(greeting)),
        super::wire_laws::stands_at(f, n1, super::message::le32_bytes(address)),
        super::wire_laws::stands_at(f, n1 + 4, super::message::text_bytes(digest)),
        super::wire_laws::stands_at(f, n3, seq![supporter]),
    ensures
        super::message::fields_end(f, 9, super::handlers::welcome_fields()) is Some,
{
    super::wire_laws::lemma_text_is_read(f, 9, greeting);
    super::wire_laws::lemma_number_is_read(f, n1, address);
    super::wire_laws::lemma_text_is_read(f, n1 + 4, digest);
    super::wire_laws::lemma_byte_is_read(f, n3, supporter);
    let w = super::handlers::welcome_fields();
    assert(w.skip(1).skip(1) =~= w.skip(2));
    assert(w.skip(2).skip(1) =~= w.skip(3));
    assert(w.skip(3).skip(1) =~= Seq::empty());
    assert(super::message::fields_end(f, n3 + 1, w.skip(3).skip(1)) == Some(n3 + 1));
    assert(super::message::fields_end(f, n3, w.skip(3)) == Some(n3 + 1));
    assert(super::message::fields_end(f, n1 + 4, w.skip(2)) == Some(n3 + 1));
    assert(super::message::fields_end(f, n1, w.skip(1)) == Some(n3 + 1));
}

/// An address in dotted form: its highest byte first.
pub open spec fn dotted_number(ip: u32) -> Seq<char> {
    crate::text::decimal((ip / 0x100_0000) as nat) + seq!['.'] + crate::text::decimal(
        ((ip / 0x1_0000) % 0x100) as nat,
    ) + seq!['.'] + crate::text::decimal(((ip / 0x100) % 0x100) as nat) + seq!['.']
        + crate::text::decimal((ip % 0x100) as nat)
}

proof fn lemma_dotted(ip: u32)
    ensures
        super::peer::dotted(super::message::le32_bytes(ip)) == dotted_number(ip),
{
    reveal_strlit(".");
    assert("."@ =~= seq!['.']);
}

/// Where a peer is, as the server tells it, is read as it was told: the peer's name, its
/// address and port, and how it obfuscates.
#[verifier::rlimit(60)]
pub proof fn lemma_peer_address_is_read(
    length: u32,
    username: Seq<char>,
    ip: u32,
    port: u32,
    obfuscation_type: u32,
    low: u8,
    high: u8,
    out: Option<ServerMessage>,
)
    requires
        fits(username),
        super::handlers::server_says(
            frame_of(
                length,
                3,
                super::message::text_bytes(username) + super::message::le32_bytes(ip)
                    + super::message::le32_bytes(port) + super::message::le32_bytes(
                    obfuscation_type,
                ) + seq![low, high],
            ),
            out,
        ),
    ensures
        out matches Some(ServerMessage::GetPeerAddressResponse {
            username: u,
            host,
            port: p,
            obfuscation_type: o,
            obfuscated_port,
        }) && u@ == username && host@ == dotted_number(ip) && p == port && o == obfuscation_type
            && obfuscated_port == low + 0x100 * high,
{
    let n = super::message::text_bytes(username);
    let i = super::message::le32_bytes(ip);
    let p = super::message::le32_bytes(port);
    let o = super::message::le32_bytes(obfuscation_type);
    let e = seq![low, high];
    let body = n + i + p + o + e;
    let f = frame_of(length, 3, body);
    lemma_frame(length, 3, body);
    super::wire_laws::lemma_pieces_stand(f, 8, n + i + p + o, e);
    super::wire_laws::lemma_pieces_stand(f, 8, n + i + p, o);
    super::wire_laws::lemma_pieces_stand(f, 8, n + i, p);
    super::wire_laws::lemma_pieces_stand(f, 8, n, i);
    let at = 8 + n.len() as int;
    super::wire_laws::lemma_text_is_read(f, 8, username);
    super::wire_laws::lemma_number_is_read(f, at + 4, port);
    super::wire_laws::lemma_number_is_read(f, at + 8, obfuscation_type);
    assert(f.subrange(at + 12, at + 14)[0] == low && f.subrange(at + 12, at + 14)[1] == high);
    assert(f[at + 12] == low && f[at + 13] == high);
    assert(f.subrange(at, at + 4) == i);
    lemma_dotted(ip);
}

/// The letter of a connection type.
pub open spec fn letter_of(t: ConnectionType) -> Seq<char> {
    match t {
        ConnectionType::P => seq!['P'],
        ConnectionType::F => seq!['F'],
        ConnectionType::D => seq!['D'],
    }
}

proof fn lemma_letters(t: ConnectionType)
    ensures
        ConnectionType::named(letter_of(t)) == Some(t),
{
    reveal_strlit("P");
    reveal_strlit("F");
    reveal_strlit("D");
    assert("P"@ =~= seq!['P'] && "F"@ =~= seq!['F'] && "D"@ =~= seq!['D']);
    assert(seq!['P'][0] != seq!['F'][0] && seq!['P'][0] != seq!['D'][0] && seq!['F'][0]
        != seq!['D'][0]);
}

/// A peer that the server tells us to connect to is read as it was told: its name, what it
/// wants to connect for, its address and port, the token to give it, and the rest.
pub proof fn lemma_peer_to_connect_to_is_read(
    length: u32,
    username: Seq<char>,
    kind: ConnectionType,
    ip: u32,
    port: u32,
    token: u32,
    privileged: u8,
    obfuscation_type: u32,
    obfuscated_port: u32,
    out: Option<ServerMessage>,
)
    requires
        fits(username),
        fits(letter_of(kind)),
        super::handlers::server_says(
            frame_of(
                length,
                18,
                super::message::text_bytes(username) + super::message::text_bytes(letter_of(kind))
                    + super::message::le32_bytes(ip) + super::message::le32_bytes(port)
                    + super::message::le32_bytes(token) + seq![privileged]
                    + super::message::le32_bytes(obfuscation_type) + super::message::le32_bytes(
                    obfuscated_port,
                ),
            ),
            out,
        ),
    ensures
        out matches Some(ServerMessage::ConnectToPeer(peer)) && peer.username@ == username
            && peer.connection_type == kind && peer.host@ == dotted_number(ip) && peer.port == port
            && peer.token == Some(PierceToken(token)) && peer.privileged == Some(privileged)
            && peer.unknown == Some(obfuscation_type) && peer.obfuscated_port == Some(obfuscated_port),
{
    let body = super::message::text_bytes(username) + super::message::text_bytes(letter_of(kind))
        + super::message::le32_bytes(ip) + super::message::le32_bytes(port)
        + super::message::le32_bytes(token) + seq![privileged] + super::message::le32_bytes(
        obfuscation_type,
    ) + super::message::le32_bytes(obfuscated_port);
    let f = frame_of(length, 18, body);
    let a = 8 + super::message::text_bytes(username).len() as int;
    let at = a + super::message::text_bytes(letter_of(kind)).len();
    assert(super::message::le32(f, 4) == 18 && super::wire_laws::stands_at(f, 8, body)) by {
        lemma_frame(length, 18, body);
    }
    lemma_peer_stands(
        f,
        a,
        at,
        username,
        kind,
        ip,
        port,
        token,
        privileged,
        obfuscation_type,
        obfuscated_port,
    );
    lemma_peer_is_told(
        f,
        a,
        at,
        username,
        kind,
        ip,
        port,
        token,
        privileged,
        obfuscation_type,
        obfuscated_port,
        out,
    );
}

proof fn lemma_peer_stands(
    f: Seq<u8>,
    a: int,
    at: int,
    username: Seq<char>,
    kind: ConnectionType,
    ip: u32,
    port: u32,
    token: u32,
    privileged: u8,
    obfuscation_type: u32,
    obfuscated_port: u32,
)
    requires
        fits(username),
        fits(letter_of(kind)),
        super::wire_laws::stands_at(
            f,
            8,
            super::message::text_bytes(username) + super::message::text_bytes(letter_of(kind))
                + super::message::le32_bytes(ip) + super::message::le32_bytes(port)
                + super::message::le32_bytes(token) + seq![privileged]
                + super::message::le32_bytes(obfuscation_type) + super::message::le32_bytes(
                obfuscated_port,
            ),
        ),
        a == 8 + super::message::text_bytes(username).len(),
        at == a + super::message::text_bytes(letter_of(kind)).len(),
    ensures
        super::message::text_at(f, 8) == username,
        super::message::text_at(f, a) == letter_of(kind),
        super::message::field_end(f, 8, Field::Text) == Some(a),
        super::message::field_end(f, a, Field::Text) == Some(at),
        ConnectionType::named(letter_of(kind)) == Some(kind),
        super::peer::dotted(f.subrange(at, at + 4)) == dotted_number(ip),
        super::message::le32(f, at + 4) == port,
        super::message::le32(f, at + 8) == token,
        f[at + 12] == privileged,
        super::message::le32(f, at + 13) == obfuscation_type,
        super::message::le32(f, at + 17) == obfuscated_port,
        at + 21 <= f.len(),
{
    lemma_eight_pieces(
        f,
        8,
        super::message::text_bytes(username),
        super::message::text_bytes(letter_of(kind)),
        super::message::le32_bytes(ip),
        super::message::le32_bytes(port),
        super::message::le32_bytes(token),
        seq![privileged],
        super::message::le32_bytes(obfuscation_type),
        super::message::le32_bytes(obfuscated_port),
    );
    super::wire_laws::lemma_byte_is_read(f, at + 12, privileged);
    super::wire_laws::lemma_number_is_read(f, at + 13, obfuscation_type);
    super::wire_laws::lemma_number_is_read(f, at + 17, obfuscated_port);
    lemma_peer_is_read(f, a, at, username, kind, ip, port, token);
}

proof fn lemma_peer_is_told(
    f: Seq<u8>,
    a: int,
    at: int,
    username: Seq<char>,
    kind: ConnectionType,
    ip: u32,
    port: u32,
    token: u32,
    privileged: u8,
    obfuscation_type: u32,
    obfuscated_port: u32,
    out: Option<ServerMessage>,
)
    requires
        super::handlers::server_says(f, out),
        super::message::le32(f, 4) == 18,
        super::message::text_at(f, 8) == username,
        super::message::text_at(f, a) == letter_of(kind),
        super::message::field_end(f, 8, Field::Text) == Some(a),
        super::message::field_end(f, a, Field::Text) == Some(at),
        ConnectionType::named(letter_of(kind)) == Some(kind),
        super::peer::dotted(f.subrange(at, at + 4)) == dotted_number(ip),
        super::message::le32(f, at + 4) == port,
        super::message::le32(f, at + 8) == token,
        f[at + 12] == privileged,
        super::message::le32(f, at + 13) == obfuscation_type,
        super::message::le32(f, at + 17) == obfuscated_port,
        at + 21 <= f.len(),
        at >= 16,
    ensures
        out matches Some(ServerMessage::ConnectToPeer(peer)) && peer.username@ == username
            && peer.connection_type == kind && peer.host@ == dotted_number(ip) && peer.port == port
            && peer.token == Some(PierceToken(token)) && peer.privileged == Some(privileged)
            && peer.unknown == Some(obfuscation_type) && peer.obfuscated_port == Some(obfuscated_port),
{
    assert(super::peer::address_at(f, 8) == Some(at));
}

proof fn lemma_eight_pieces(
    b: Seq<u8>,
    at: int,
    p: Seq<u8>,
    q: Seq<u8>,
    r: Seq<u8>,
    s: Seq<u8>,
    t: Seq<u8>,
    u: Seq<u8>,
    v: Seq<u8>,
    w: Seq<u8>,
)
    requires
        super::wire_laws::stands_at(b, at, p + q + r + s + t + u + v + w),
    ensures
        super::wire_laws::stands_at(b, at, p),
        super::wire_laws::stands_at(b, at + p.len(), q),
        super::wire_laws::stands_at(b, at + p.len() + q.len(), r),
        super::wire_laws::stands_at(b, at + p.len() + q.len() + r.len(), s),
        super::wire_laws::stands_at(b, at + p.len() + q.len() + r.len() + s.len(), t),
        super::wire_laws::stands_at(b, at + p.len() + q.len() + r.len() + s.len() + t.len(), u),
        super::wire_laws::stands_at(
            b,
            at + p.len() + q.len() + r.len() + s.len() + t.len() + u.len(),
            v,
        ),
        super::wire_laws::stands_at(
            b,
            at + p.len() + q.len() + r.len() + s.len() + t.len() + u.len() + v.len(),
            w,
        ),
        at + p.len() + q.len() + r.len() + s.len() + t.len() + u.len() + v.len() + w.len()
            <= b.len(),
{
    super::wire_laws::lemma_pieces_stand(b, at, p + q + r + s + t + u + v, w);
    super::wire_laws::lemma_pieces_stand(b, at, p + q + r + s + t + u, v);
    super::wire_laws::lemma_pieces_stand(b, at, p + q + r + s + t, u);
    super::wire_laws::lemma_pieces_stand(b, at, p + q + r + s, t);
    lemma_four_pieces(b, at, p, q, r, s);
}

proof fn lemma_peer_is_read(
    f: Seq<u8>,
    a: int,
    at: int,
    username: Seq<char>,
    kind: ConnectionType,
    ip: u32,
    port: u32,
    token: u32,
)
    requires
        fits(username),
        fits(letter_of(kind)),
        a == 8 + super::message::text_bytes(username).len(),
        at == a + super::message::text_bytes(letter_of(kind)).len(),
        super::wire_laws::stands_at(f, 8, super::message::text_bytes(username)),
        super::wire_laws::stands_at(f, a, super::message::text_bytes(letter_of(kind))),
        super::wire_laws::stands_at(f, at, super::message::le32_bytes(ip)),
        super::wire_laws::stands_at(f, at + 4, super::message::le32_bytes(port)),
        super::wire_laws::stands_at(f, at + 8, super::message::le32_bytes(token)),
    ensures
        super::message::text_at(f, 8) == username,
        super::message::text_at(f, a) == letter_of(kind),
        super::message::field_end(f, 8, Field::Text) == Some(a),
        super::message::field_end(f, a, Field::Text) == Some(at),
        ConnectionType::named(letter_of(kind)) == Some(kind),
        super::peer::dotted(f.subrange(at, at + 4)) == dotted_number(ip),
        super::message::le32(f, at + 4) == port,
        super::message::le32(f, at + 8) == token,
{
    super::wire_laws::lemma_text_is_read(f, 8, username);
    super::wire_laws::lemma_text_is_read(f, a, letter_of(kind));
    super::wire_laws::lemma_number_is_read(f, at + 4, port);
    super::wire_laws::lemma_number_is_read(f, at + 8, token);
    assert(f.subrange(at, at + 4) == super::message::le32_bytes(ip));
    lemma_dotted(ip);
    lemma_letters(kind);
}

/// A file that a peer proposes to send is read as it was proposed: the token, the path and
/// the size.
pub proof fn lemma_proposed_transfer_is_read(
    length: u32,
    direction: u32,
    token: u32,
    filename: Seq<char>,
    size: u64,
    out: Option<PeerMessage>,
)
    requires
        fits(filename),
        super::handlers::peer_says(
            frame_of(
                length,
                40,
                super::message::le32_bytes(direction) + super::message::le32_bytes(token)
                    + super::message::text_bytes(filename) + super::message::le64_bytes(size),
            ),
            out,
        ),
    ensures
        out matches Some(PeerMessage::TransferRequest(t)) && t.direction == direction && t.token
            == DownloadToken(token) && t.filename@ == filename && t.size == size,
{
    let body = super::message::le32_bytes(direction) + super::message::le32_bytes(token)
        + super::message::text_bytes(filename) + super::message::le64_bytes(size);
    let f = frame_of(length, 40, body);
    let e = 16 + super::message::text_bytes(filename).len() as int;
    assert(super::message::le32(f, 4) == 40 && super::wire_laws::stands_at(f, 8, body) && f.len()
        >= 8) by {
        lemma_frame(length, 40, body);
    }
    lemma_transfer_is_read(f, e, direction, token, filename, size);
}

proof fn lemma_transfer_is_read(
    f: Seq<u8>,
    e: int,
    direction: u32,
    token: u32,
    filename: Seq<char>,
    size: u64,
)
    requires
        fits(filename),
        e == 16 + super::message::text_bytes(filename).len(),
        super::wire_laws::stands_at(
            f,
            8,
            super::message::le32_bytes(direction) + super::message::le32_bytes(token)
                + super::message::text_bytes(filename) + super::message::le64_bytes(size),
        ),
    ensures
        super::message::le32(f, 8) == direction,
        super::message::le32(f, 12) == token,
        super::message::text_at(f, 16) == filename,
        super::message::field_end(f, 16, Field::Text) == Some(e),
        super::message::le64(f, e) == size,
        super::message::fields_end(f, 8, super::types::transfer_fields()) == Some(e + 8),
{
    lemma_four_pieces(
        f,
        8,
        super::message::le32_bytes(direction),
        super::message::le32_bytes(token),
        super::message::text_bytes(filename),
        super::message::le64_bytes(size),
    );
    lemma_transfer_fields(f, e, direction, token, filename, size);
}

proof fn lemma_transfer_fields(
    f: Seq<u8>,
    e: int,
    direction: u32,
    token: u32,
    filename: Seq<char>,
    size: u64,
)
    requires
        fits(filename),
        e == 16 + super::message::text_bytes(filename).len(),
        super::wire_laws::stands_at(f, 8, super::message::le32_bytes(direction)),
        super::wire_laws::stands_at(f, 12, super::message::le32_bytes(token)),
        super::wire_laws::stands_at(f, 16, super::message::text_bytes(filename)),
        super::wire_laws::stands_at(f, e, super::message::le64_bytes(size)),
    ensures
        super::message::le32(f, 8) == direction,
        super::message::le32(f, 12) == token,
        super::message::text_at(f, 16) == filename,
        super::message::field_end(f, 16, Field::Text) == Some(e),
        super::message::le64(f, e) == size,
        super::message::fields_end(f, 8, super::types::transfer_fields()) == Some(e + 8),
{
    super::wire_laws::lemma_number_is_read(f, 8, direction);
    super::wire_laws::lemma_number_is_read(f, 12, token);
    super::wire_laws::lemma_text_is_read(f, 16, filename);
    super::wire_laws::lemma_long_number_is_read(f, e, size);
    let w = super::types::transfer_fields();
    assert(w.skip(1).skip(1) =~= w.skip(2));
    assert(w.skip(2).skip(1) =~= w.skip(3));
    assert(w.skip(3).skip(1) =~= Seq::empty());
    assert(super::message::fields_end(f, e + 8, w.skip(3).skip(1)) == Some(e + 8));
    assert(super::message::fields_end(f, e, w.skip(3)) == Some(e + 8));
    assert(super::message::fields_end(f, 16, w.skip(2)) == Some(e + 8));
    assert(super::message::fields_end(f, 12, w.skip(1)) == Some(e + 8));
}

/// A transfer that a peer allows is read as allowed under its token, and one that it
/// refuses as refused, with the reason.
pub proof fn lemma_transfer_answer_is_read(
    length: u32,
    token: u32,
    size: u64,
    reason: Seq<char>,
    yes: Option<PeerMessage>,
    no: Option<PeerMessage>,
)
    requires
        fits(reason),
        super::handlers::peer_says(
            frame_of(
                length,
                41,
                super::message::le32_bytes(token) + seq![1u8] + super::message::le64_bytes(size),
            ),
            yes,
        ),
        super::handlers::peer_says(
            frame_of(
                length,
                41,
                super::message::le32_bytes(token) + seq![0u8] + super::message::text_bytes(reason),
            ),
            no,
        ),
    ensures
        yes matches Some(PeerMessage::TransferResponse { token: t, allowed, reason: r }) && t
            == token && allowed && r is None,
        no matches Some(PeerMessage::TransferResponse { token: t, allowed, reason: r }) && t
            == token && !allowed && (r matches Some(words) && words@ == reason),
{
    let t = super::message::le32_bytes(token);
    let z = super::message::le64_bytes(size);
    let w = super::message::text_bytes(reason);
    let f = frame_of(length, 41, t + seq![1u8] + z);
    lemma_frame(length, 41, t + seq![1u8] + z);
    super::wire_laws::lemma_pieces_stand(f, 8, t + seq![1u8], z);
    super::wire_laws::lemma_pieces_stand(f, 8, t, seq![1u8]);
    super::wire_laws::lemma_number_is_read(f, 8, token);
    super::wire_laws::lemma_byte_is_read(f, 12, 1);
    let g = frame_of(length, 41, t + seq![0u8] + w);
    lemma_frame(length, 41, t + seq![0u8] + w);
    super::wire_laws::lemma_pieces_stand(g, 8, t + seq![0u8], w);
    super::wire_laws::lemma_pieces_stand(g, 8, t, seq![0u8]);
    super::wire_laws::lemma_number_is_read(g, 8, token);
    super::wire_laws::lemma_byte_is_read(g, 12, 0);
    super::wire_laws::lemma_text_is_read(g, 13, reason);
}

/// The answer of a peer to a search, compressed, is read as the files that the peer wrote.
pub proof fn lemma_search_answer_is_read(
    length: u32,
    compressed: Seq<u8>,
    username: Seq<char>,
    token: u32,
    files: Seq<super::answer_laws::SharedFile>,
    slots: u8,
    speed: u32,
    out: Option<PeerMessage>,
)
    requires
        fits(username),
        files.len() <= u32::MAX,
        forall|k: int| 0 <= k < files.len() ==> (#[trigger] files[k]).fits(),
        super::types::inflated(compressed) == Some(
            super::answer_laws::answer_bytes(username, token, files, slots, speed),
        ),
        super::handlers::peer_says(frame_of(length, 9, compressed), out),
    ensures
        out matches Some(PeerMessage::FileSearchResult(r)) && r.username@ == username && r.token.0
            == token && r.slots == slots && r.speed == speed && r.files@.len() == files.len() && (
        forall|k: int|
            0 <= k < files.len() ==> super::answer_laws::reads_as(
                #[trigger] files[k],
                username,
                r.files@[k]@,
            )),
{
    let f = frame_of(length, 9, compressed);
    lemma_frame(length, 9, compressed);
    assert(f.skip(8) =~= compressed);
    super::answer_laws::lemma_answer_round_trip(username, token, files, slots, speed);
    let r = out->0->FileSearchResult_0;
    assert(r@.files.len() == files.len());
    assert forall|k: int| 0 <= k < files.len() implies super::answer_laws::reads_as(
        #[trigger] files[k],
        username,
        r.files@[k]@,
    ) by {
        assert(r@.files[k] == r.files@[k]@);
    }
}

/// Our place in the queue of a peer is read as the peer told it, for the file that it named.
pub proof fn lemma_place_in_queue_is_read(
    length: u32,
    filename: Seq<char>,
    place: u32,
    out: Option<PeerMessage>,
)
    requires
        fits(filename),
        super::handlers::peer_says(
            frame_of(
                length,
                43,
                super::message::text_bytes(filename) + super::message::le32_bytes(place),
            ),
            out,
        ),
    ensures
        out matches Some(PeerMessage::PlaceInQueueResponse { filename: f, place: p }) && f@
            == filename && p == place,
{
    let body = super::message::text_bytes(filename) + super::message::le32_bytes(place);
    let f = frame_of(length, 43, body);
    assert(super::message::le32(f, 4) == 43 && super::wire_laws::stands_at(f, 8, body) && f.len()
        >= 8) by {
        lemma_frame(length, 43, body);
    }
    lemma_place_is_read(f, filename, place);
}

proof fn lemma_place_is_read(f: Seq<u8>, filename: Seq<char>, place: u32)
    requires
        fits(filename),
        super::wire_laws::stands_at(
            f,
            8,
            super::message::text_bytes(filename) + super::message::le32_bytes(place),
        ),
    ensures
        super::message::text_at(f, 8) == filename,
        super::message::field_end(f, 8, Field::Text) is Some,
        super::message::le32(f, super::message::field_end(f, 8, Field::Text)->0) == place,
        super::message::fields_end(f, 8, seq![Field::Text, Field::Int32]) is Some,
{
    let n = super::message::text_bytes(filename);
    let e = 8 + n.len() as int;
    super::wire_laws::lemma_pieces_stand(f, 8, n, super::message::le32_bytes(place));
    lemma_place_fields(f, e, filename, place);
}

proof fn lemma_place_fields(f: Seq<u8>, e: int, filename: Seq<char>, place: u32)
    requires
        fits(filename),
        e == 8 + super::message::text_bytes(filename).len(),
        super::wire_laws::stands_at(f, 8, super::message::text_bytes(filename)),
        super::wire_laws::stands_at(f, e, super::message::le32_bytes(place)),
    ensures
        super::message::text_at(f, 8) == filename,
        super::message::field_end(f, 8, Field::Text) == Some(e),
        super::message::le32(f, e) == place,
        super::message::fields_end(f, 8, seq![Field::Text, Field::Int32]) is Some,
{
    super::wire_laws::lemma_text_is_read(f, 8, filename);
    super::wire_laws::lemma_number_is_read(f, e, place);
    let w = seq![Field::Text, Field::Int32];
    assert(w.skip(1).skip(1) =~= Seq::empty());
    assert(super::message::fields_end(f, e + 4, w.skip(1).skip(1)) == Some(e + 4));
    assert(super::message::fields_end(f, e, w.skip(1)) == Some(e + 4));
    assert(super::message::fields_end(f, 8, w) == Some(e + 4));
}

/// A peer that asks what we share is told of a hundred folders and eight hundred files.
pub proof fn lemma_asked_what_we_share(length: u32, body: Seq<u8>, out: Option<PeerMessage>)
    ensures
        super::handlers::peer_says(frame_of(length, 4, body), out) <==> out == Some(
            PeerMessage::SendMessage(Request::SharedFolders { folders: 100, files: 800 }),
        ),
{
    lemma_frame(length, 4, body);
}

/// A message with a code that we do not know says nothing, whatever it carries, and neither
/// does one that is too short for a code.
pub proof fn lemma_unknown_messages_say_nothing(
    length: u32,
    code: u32,
    body: Seq<u8>,
    short: Seq<u8>,
    server: Option<ServerMessage>,
    peer: Option<PeerMessage>,
)
    requires
        short.len() < 8,
    ensures
        code != 1 && code != 3 && code != 18 ==> (super::handlers::server_says(
            frame_of(length, code, body),
            server,
        ) <==> server is None),
        code != 4 && code != 9 && code != 40 && code != 41 && code != 43 ==> (
        super::handlers::peer_says(frame_of(length, code, body), peer) <==> peer is None),
        super::handlers::server_says(short, server) <==> server is None,
        super::handlers::peer_says(short, peer) <==> peer is None,
{
    lemma_frame(length, code, body);
}

// ---- who connects to us -------------------------------------------------------------------

/// A peer that connects to us and introduces itself is known by its name, for what it says
/// it connects for, from where it connects; a file that it sends goes under its token.
pub proof fn lemma_introduction_is_read(
    length: u32,
    username: Seq<char>,
    kind: ConnectionType,
    token: u32,
    buffer: Seq<u8>,
    ip: Seq<char>,
    port: u16,
    r: Incoming,
)
    requires
        fits(username),
        fits(letter_of(kind)),
        super::listen::wants(
            super::message::le32_bytes(length) + seq![1u8] + super::message::text_bytes(username)
                + super::message::text_bytes(letter_of(kind)) + super::message::le32_bytes(token),
            buffer,
            ip,
            port,
            r,
        ),
    ensures
        match kind {
            ConnectionType::P => r matches Incoming::Messages { peer } && peer.username@ == username
                + ":direct"@ && peer.host@ == ip && peer.port == port && peer.connection_type
                == ConnectionType::P,
            ConnectionType::F => r matches Incoming::File { peer, connection_token, download_token }
                && peer.username@ == username + ":direct"@ && peer.host@ == ip && peer.port == port
                && peer.connection_type == ConnectionType::F && connection_token == token && (
            buffer.len() < 4 ==> download_token is None) && (buffer.len() >= 4 ==> download_token
                == Some(DownloadToken(super::message::le32(buffer, 0) as u32))),
            ConnectionType::D => r is Unsupported,
        },
{
    let l = super::message::le32_bytes(length);
    let c = seq![1u8];
    let n = super::message::text_bytes(username);
    let k = super::message::text_bytes(letter_of(kind));
    let t = super::message::le32_bytes(token);
    let b = l + c + n + k + t;
    super::wire_laws::lemma_all_stands(b);
    super::wire_laws::lemma_pieces_stand(b, 0, l + c + n + k, t);
    super::wire_laws::lemma_pieces_stand(b, 0, l + c + n, k);
    super::wire_laws::lemma_pieces_stand(b, 0, l + c, n);
    super::wire_laws::lemma_pieces_stand(b, 0, l, c);
    let a = 5 + n.len() as int;
    let e = a + k.len();
    super::wire_laws::lemma_byte_is_read(b, 4, 1);
    super::wire_laws::lemma_text_is_read(b, 5, username);
    super::wire_laws::lemma_text_is_read(b, a, letter_of(kind));
    super::wire_laws::lemma_number_is_read(b, e, token);
    lemma_letters(kind);
    assert(super::listen::init_token_at(b) == Some(e));
}

/// A peer that connects to us to pierce our firewall is known by the token that we asked it
/// to connect with, from where it connects.
pub proof fn lemma_pierced_firewall_is_read(
    length: u32,
    token: u32,
    buffer: Seq<u8>,
    ip: Seq<char>,
    port: u16,
    r: Incoming,
)
    requires
        super::listen::wants(
            super::message::le32_bytes(length) + seq![0u8] + super::message::le32_bytes(token),
            buffer,
            ip,
            port,
            r,
        ),
    ensures
        r matches Incoming::PierceFirewall { token: t, peer } && t == DownloadToken(token)
            && peer.host@ == ip && peer.port == port,
{
    let l = super::message::le32_bytes(length);
    let c = seq![0u8];
    let t = super::message::le32_bytes(token);
    let b = l + c + t;
    super::wire_laws::lemma_all_stands(b);
    super::wire_laws::lemma_pieces_stand(b, 0, l + c, t);
    super::wire_laws::lemma_pieces_stand(b, 0, l, c);
    super::wire_laws::lemma_byte_is_read(b, 4, 0);
    super::wire_laws::lemma_number_is_read(b, 5, token);
}

} // verus!
