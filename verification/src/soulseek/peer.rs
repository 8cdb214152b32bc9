//! Peers and how to reach them.
use vstd::prelude::*;

use super::message::{Field, Message};
use super::token::PierceToken;
use crate::text::{append_str, decimal_chars, from_chars, str_eq};

verus! {

/// What a connection to a peer is for.
#[derive(Debug, Clone, Copy, PartialEq, Eq, Hash, Structural)]
pub enum ConnectionType {
    /// Messages between peers.
    P,
    /// The transfer of a file.
    F,
    /// The distributed search network.
    D,
}

impl ConnectionType {
    /// The connection type that a letter stands for.
    pub open spec fn named(name: Seq<char>) -> Option<ConnectionType> {
        if name == "P"@ {
            Some(ConnectionType::P)
        } else if name == "F"@ {
            Some(ConnectionType::F)
        } else if name == "D"@ {
            Some(ConnectionType::D)
        } else {
            None
        }
    }

    /// The connection type that a letter stands for.
    pub fn from_name(name: &str) -> (r: Option<ConnectionType>)
        ensures
            r == ConnectionType::named(name@),
    {
        if str_eq(name, "P") {
            Some(ConnectionType::P)
        } else if str_eq(name, "F") {
            Some(ConnectionType::F)
        } else if str_eq(name, "D") {
            Some(ConnectionType::D)
        } else {
            None
        }
    }
}

/// A peer, as far as it is known.
#[derive(Debug)]
pub struct Peer {
    pub username: String,
    pub connection_type: ConnectionType,
    pub host: String,
    pub port: u32,
    pub token: Option<PierceToken>,
    pub privileged: Option<u8>,
    pub unknown: Option<u32>,
    pub obfuscated_port: Option<u32>,
}

impl Clone for Peer {
    fn clone(&self) -> (r: Self)
        ensures
            r == *self,
    {
        Peer {
            username: self.username.clone(),
            connection_type: self.connection_type,
            host: self.host.clone(),
            port: self.port,
            token: self.token,
            privileged: self.privileged,
            unknown: self.unknown,
            obfuscated_port: self.obfuscated_port,
        }
    }
}

impl Peer {
    /// A peer of which everything but perhaps its token is known.
    pub fn new(
        username: String,
        connection_type: ConnectionType,
        host: String,
        port: u32,
        token: Option<PierceToken>,
        privileged: u8,
        unknown: u32,
        obfuscated_port: u32,
    ) -> (r: Peer)
        ensures
            r == (Peer {
                username,
                connection_type,
                host,
                port,
                token,
                privileged: Some(privileged),
                unknown: Some(unknown),
                obfuscated_port: Some(obfuscated_port),
            }),
    {
        Peer {
            username,
            connection_type,
            host,
            port,
            token,
            privileged: Some(privileged),
            unknown: Some(unknown),
            obfuscated_port: Some(obfuscated_port),
        }
    }
}

/// A peer that has connected to us, over a stream that waits.
#[derive(Debug)]
pub struct NewPeer {
    pub username: String,
    pub connection_type: ConnectionType,
    pub token: PierceToken,
    pub host: String,
    pub port: u32,
    pub stream: StreamHandle,
}

/// A connection that is open.
#[derive(Debug, Clone, Copy, PartialEq, Eq, Structural)]
pub struct StreamHandle(pub u64);

/// The dotted form of an address whose four bytes come lowest first.
pub open spec fn dotted(bytes: Seq<u8>) -> Seq<char> {
    crate::text::decimal(bytes[3] as nat) + "."@ + crate::text::decimal(bytes[2] as nat) + "."@
        + crate::text::decimal(bytes[1] as nat) + "."@ + crate::text::decimal(bytes[0] as nat)
}

/// The dotted form of an address whose four bytes come lowest first.
pub fn dotted_address(a: u8, b: u8, c: u8, d: u8) -> (r: String)
    ensures
        r@ == dotted(seq![a, b, c, d]),
{
    let d_text = from_chars(&decimal_chars(d as u64));
    let c_text = from_chars(&decimal_chars(c as u64));
    let b_text = from_chars(&decimal_chars(b as u64));
    let a_text = from_chars(&decimal_chars(a as u64));
    let mut out = append_str(d_text.as_str(), ".");
    out.append(c_text.as_str());
    out.append(".");
    out.append(b_text.as_str());
    out.append(".");
    out.append(a_text.as_str());
    out
}

/// Where the fixed part of a peer's description that starts at `at` begins: after
/// the name and the letter of the connection type.
pub open spec fn address_at(bytes: Seq<u8>, at: int) -> Option<int> {
    match super::message::field_end(bytes, at, Field::Text) {
        Some(p) => super::message::field_end(bytes, p, Field::Text),
        None => None,
    }
}

/// Whether a whole description of a peer starts at `at`: its name, connection
/// type, address, port, token, whether it is privileged, the obfuscation type
/// and the obfuscated port.
pub open spec fn peer_described(bytes: Seq<u8>, at: int) -> bool {
    &&& address_at(bytes, at) matches Some(p)
    &&& p + 21 <= bytes.len()
    &&& ConnectionType::named(
        super::message::text_at(bytes, super::message::field_end(bytes, at, Field::Text)->0),
    ) is Some
}

/// Whether a peer is the one whose description starts at `at`.
pub open spec fn peer_described_as(bytes: Seq<u8>, at: int, peer: Peer) -> bool {
    let p = address_at(bytes, at)->0;
    &&& peer.username@ == super::message::text_at(bytes, at)
    &&& Some(peer.connection_type) == ConnectionType::named(
        super::message::text_at(bytes, super::message::field_end(bytes, at, Field::Text)->0),
    )
    &&& peer.host@ == dotted(bytes.subrange(p, p + 4))
    &&& peer.port == super::message::le32(bytes, p + 4)
    &&& peer.token == Some(PierceToken(super::message::le32(bytes, p + 8) as u32))
    &&& peer.privileged == Some(bytes[p + 12])
    &&& peer.unknown == Some(super::message::le32(bytes, p + 13) as u32)
    &&& peer.obfuscated_port == Some(super::message::le32(bytes, p + 17) as u32)
}

/// Read an address of four bytes; `None` where they have not come.
pub fn read_address(message: &mut Message) -> (r: Option<String>)
    ensures
        final(message)@.bytes == old(message)@.bytes,
        match r {
            Some(host) => {
                let at = old(message)@.at;
                &&& at + 4 <= old(message)@.bytes.len()
                &&& final(message)@.at == at + 4
                &&& host@ == dotted(old(message)@.bytes.subrange(at, at + 4))
            },
            None => old(message)@.at + 4 > old(message)@.bytes.len(),
        },
{
    proof {
        message.lemma_bounds();
    }
    let ghost at = message@.at;
    let ghost bytes = message@.bytes;
    let a: u8 = match message.try_read_int8() {
        Some(x) => x,
        None => {
            return None;
        },
    };
    let b: u8 = match message.try_read_int8() {
        Some(x) => x,
        None => {
            return None;
        },
    };
    let c: u8 = match message.try_read_int8() {
        Some(x) => x,
        None => {
            return None;
        },
    };
    let d: u8 = match message.try_read_int8() {
        Some(x) => x,
        None => {
            return None;
        },
    };
    assert(bytes.subrange(at, at + 4) =~= seq![a, b, c, d]);
    Some(dotted_address(a, b, c, d))
}

impl Peer {
    /// Read the server's description of a peer; `None` where it is not whole or
    /// its connection type is unknown.
    pub fn new_from_message(message: &mut Message) -> (r: Option<Peer>)
        ensures
            match r {
                Some(peer) => {
                    &&& peer_described(old(message)@.bytes, old(message)@.at)
                    &&& peer_described_as(old(message)@.bytes, old(message)@.at, peer)
                },
                None => !peer_described(old(message)@.bytes, old(message)@.at),
            },
    {
        proof {
            message.lemma_bounds();
        }
        let username = match message.try_read_string() {
            Some(x) => x,
            None => {
                return None;
            },
        };
        let letter = match message.try_read_string() {
            Some(x) => x,
            None => {
                return None;
            },
        };
        let connection_type = match ConnectionType::from_name(letter.as_str()) {
            Some(x) => x,
            None => {
                return None;
            },
        };
        let host = match read_address(message) {
            Some(x) => x,
            None => {
                return None;
            },
        };
        let port: u32 = match message.try_read_int32() {
            Some(x) => x,
            None => {
                return None;
            },
        };
        let token: u32 = match message.try_read_int32() {
            Some(x) => x,
            None => {
                return None;
            },
        };
        let privileged: u8 = match message.try_read_int8() {
            Some(x) => x,
            None => {
                return None;
            },
        };
        let unknown: u32 = match message.try_read_int32() {
            Some(x) => x,
            None => {
                return None;
            },
        };
        let obfuscated_port: u32 = match message.try_read_int32() {
            Some(x) => x,
            None => {
                return None;
            },
        };
        Some(
            Peer::new(
                username,
                connection_type,
                host,
                port,
                Some(PierceToken(token)),
                privileged,
                unknown,
                obfuscated_port,
            ),
        )
    }
}

} // verus!
