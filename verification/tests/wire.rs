use std::collections::HashMap;

use soulseek_rs::soulseek::actor::peer_message::PeerMessage;
use soulseek_rs::soulseek::actor::server_actor::ServerMessage;
use soulseek_rs::soulseek::error::SoulseekRs;
use soulseek_rs::soulseek::handlers::{
    dispatch_peer, dispatch_server, ConnectToPeerHandler, FileSearchHandler,
    GetPeerAddressHandler, GetShareFileList, LoginHandler, ParentMinSpeedHandler, PlaceInQueueResponse, PrivilegedUsersHandler,
    TransferRequest, TransferResponse, UploadFailedHandler,
};
use soulseek_rs::soulseek::message::{Field, Message, MessageReader};
use soulseek_rs::soulseek::path::SoulseekPath;
use soulseek_rs::soulseek::peer::{dotted_address, ConnectionType, Peer};
use soulseek_rs::soulseek::request::Request;
use soulseek_rs::soulseek::server_address::PeerAddress;
use soulseek_rs::soulseek::token::{DownloadToken, PierceToken, SearchToken};
use soulseek_rs::soulseek::types::{
    Download, DownloadStatus, FileAttributes, SearchResult, Speed, StatusChannel, Transfer,
};

fn at_body(mut m: Message) -> Message {
    let mut framed = Message::new_with_data(m.get_buffer());
    framed.set_pointer(8);
    m.set_pointer(0);
    framed
}

fn framed(m: &Message) -> Message {
    Message::new_with_data(m.get_buffer())
}

#[test]
fn what_is_written_is_read_back() {
    let mut m = Message::new();
    m.write_int8(7);
    m.write_int32(0xdead_beef);
    m.write_int64(0x0102_0304_0506_0708);
    m.write_string("h\u{e9}llo");
    m.write_int8(1);
    assert_eq!(m.get_data()[1..5], [0xef, 0xbe, 0xad, 0xde]);
    assert!(m.holds(&vec![Field::Int8, Field::Int32, Field::Int64, Field::Text, Field::Int8]));
    assert!(!m.holds(&vec![Field::Int64, Field::Int64, Field::Int64, Field::Int8]));
    assert_eq!(m.read_int8(), 7);
    assert_eq!(m.read_int32(), 0xdead_beef);
    assert_eq!(m.read_int64(), 0x0102_0304_0506_0708);
    assert_eq!(m.read_string(), "h\u{e9}llo");
    assert!(m.read_bool());
    assert_eq!(m.get_pointer(), m.get_size());
    assert_eq!(m.try_read_int8(), None);
    assert_eq!(m.try_read_int32(), None);
    assert_eq!(m.try_read_int64(), None);
    assert_eq!(m.try_read_string(), None);
}

#[test]
fn text_that_is_no_utf8() {
    let mut m = Message::new_with_data(vec![2, 0, 0, 0, 0x61, 0xff]);
    assert_eq!(m.read_string(), "a\u{fffd}");
}

#[test]
fn text_that_is_cut_short() {
    let mut m = Message::new_with_data(vec![9, 0, 0, 0, 0x61]);
    assert_eq!(m.try_read_string(), None);
}

#[test]
fn frames_come_out_as_they_went_in() {
    let mut a = Message::new();
    a.write_int32(1);
    let mut b = Message::new();
    b.write_string("x");
    let mut stream = a.get_buffer();
    stream.extend(b.get_buffer());
    let mut reader = MessageReader::new();
    let (head, tail) = stream.split_at(5);
    reader.push_bytes(&head.to_vec());
    assert!(reader.extract_message().is_none());
    assert_eq!(reader.buffer_len(), 5);
    reader.push_bytes(&tail.to_vec());
    assert_eq!(reader.extract_message().unwrap().get_data(), a.get_buffer());
    assert_eq!(reader.extract_message().unwrap().get_data(), b.get_buffer());
    assert!(reader.extract_message().is_none());
    assert_eq!(reader.get_buffer(), Vec::<u8>::new());
}

#[test]
fn requests_on_the_wire() {
    let bytes = |r: Request| r.to_message().get_data();
    assert_eq!(bytes(Request::SetWaitPort { port: 2234 }), [2, 0, 0, 0, 0xba, 8, 0, 0]);
    assert_eq!(bytes(Request::SetStatus { status: 2 }), [28, 0, 0, 0, 2, 0, 0, 0]);
    assert_eq!(bytes(Request::NoParent), [71, 0, 0, 0, 1]);
    assert_eq!(bytes(Request::PierceFirewall { token: 5 }), [0, 5, 0, 0, 0]);
    assert_eq!(
        bytes(Request::SharedFolders { folders: 100, files: 800 }),
        [35, 0, 0, 0, 100, 0, 0, 0, 0x20, 3, 0, 0]
    );
    assert_eq!(
        bytes(Request::FileSearch { token: 9, query: "ab".to_string() }),
        [26, 0, 0, 0, 9, 0, 0, 0, 2, 0, 0, 0, 0x61, 0x62]
    );
    assert_eq!(
        bytes(Request::QueueUpload { filename: SoulseekPath("f".to_string()) }),
        [43, 0, 0, 0, 1, 0, 0, 0, 0x66]
    );
    assert_eq!(
        bytes(Request::GetPeerAddress { username: "u".to_string() }),
        [3, 0, 0, 0, 1, 0, 0, 0, 0x75]
    );
    assert_eq!(
        bytes(Request::WatchUser { username: "u".to_string() }),
        [5, 0, 0, 0, 1, 0, 0, 0, 0x75]
    );
    let transfer = Transfer {
        direction: 1,
        token: DownloadToken(3),
        filename: SoulseekPath("f".to_string()),
        size: 4,
    };
    assert_eq!(
        bytes(Request::TransferResponse { transfer }),
        [41, 0, 0, 0, 3, 0, 0, 0, 1, 4, 0, 0, 0, 0, 0, 0, 0]
    );
    assert_eq!(
        bytes(Request::TransferRequest { filename: SoulseekPath("f".to_string()), token: 3 }),
        [40, 0, 0, 0, 0, 0, 0, 0, 3, 0, 0, 0, 1, 0, 0, 0, 0x66]
    );
}

#[test]
fn login_carries_a_digest() {
    let request = Request::Login { username: "a".to_string(), password: "bc".to_string() };
    let mut m = request.to_message();
    assert_eq!(m.read_int32(), 1);
    assert_eq!(m.read_string(), "a");
    assert_eq!(m.read_string(), "bc");
    assert_eq!(m.read_int32(), 160);
    assert_eq!(m.read_string(), "900150983cd24fb0d6963f7d28e17f72");
    assert_eq!(m.read_int32(), 1);
}

#[test]
fn answer_to_a_login() {
    let mut m = Message::new();
    m.write_int32(LoginHandler.get_code());
    m.write_int8(1);
    m.write_string("welcome");
    m.write_int32(0);
    m.write_string("digest");
    m.write_int8(0);
    let mut whole = framed(&m);
    assert!(matches!(dispatch_server(&mut whole), Some(ServerMessage::LoginStatus(true))));
    let mut refused = Message::new();
    refused.write_int32(1);
    refused.write_int8(0);
    let mut whole = framed(&refused);
    assert!(matches!(dispatch_server(&mut whole), Some(ServerMessage::LoginStatus(false))));
    let mut cut = Message::new();
    cut.write_int32(1);
    cut.write_int8(1);
    assert!(dispatch_server(&mut framed(&cut)).is_none());
    let mut other = Message::new();
    other.write_int32(9999);
    assert!(dispatch_server(&mut framed(&other)).is_none());
}

#[test]
fn peer_to_connect_to() {
    let mut m = Message::new();
    m.write_int32(ConnectToPeerHandler.get_code());
    m.write_string("peer");
    m.write_string("P");
    for b in [1u8, 0, 0, 127] {
        m.write_int8(b);
    }
    m.write_int32(2234);
    m.write_int32(77);
    m.write_int8(1);
    m.write_int32(0);
    m.write_int32(0);
    match dispatch_server(&mut framed(&m)) {
        Some(ServerMessage::ConnectToPeer(peer)) => {
            assert_eq!(peer.username, "peer");
            assert_eq!(peer.connection_type, ConnectionType::P);
            assert_eq!(peer.host, "127.0.0.1");
            assert_eq!(peer.port, 2234);
            assert_eq!(peer.token, Some(PierceToken(77)));
            assert_eq!(peer.privileged, Some(1));
        },
        other => panic!("{other:?}"),
    }
    assert_eq!(dotted_address(4, 3, 2, 1), "1.2.3.4");
    assert!(Peer::new_from_message(&mut Message::new()).is_none());
    assert_eq!(ConnectionType::from_name("F"), Some(ConnectionType::F));
    assert_eq!(ConnectionType::from_name("X"), None);
}

#[test]
fn where_a_peer_can_be_reached() {
    let mut m = Message::new();
    m.write_int32(GetPeerAddressHandler.get_code());
    m.write_string("peer");
    for b in [4u8, 3, 2, 1] {
        m.write_int8(b);
    }
    m.write_int32(2234);
    m.write_int32(1);
    m.write_int8(0x34);
    let mut cut = framed(&m);
    assert!(dispatch_server(&mut cut).is_none());
    m.write_int8(0x12);
    match dispatch_server(&mut framed(&m)) {
        Some(ServerMessage::GetPeerAddressResponse {
            username,
            host,
            port,
            obfuscation_type,
            obfuscated_port,
        }) => {
            assert_eq!((username.as_str(), host.as_str()), ("peer", "1.2.3.4"));
            assert_eq!((port, obfuscation_type, obfuscated_port), (2234, 1, 0x1234));
        },
        other => panic!("{other:?}"),
    }
}

#[test]
fn other_handlers() {
    let mut m = Message::new();
    m.write_int32(FileSearchHandler.get_code());
    m.write_string("who");
    m.write_int32(3);
    m.write_string("what");
    let found = FileSearchHandler.handle(&mut at_body(m));
    assert_eq!((found.username.as_str(), found.token, found.query.as_str()), ("who", 3, "what"));
    let mut m = Message::new();
    m.write_int32(0);
    m.write_int32(50);
    let mut body = at_body(m);
    assert_eq!(ParentMinSpeedHandler.handle(&mut body), 50);
    body.set_pointer(8);
    assert_eq!(PrivilegedUsersHandler.handle(&mut body), 50);
    assert_eq!(ParentMinSpeedHandler.get_code(), 83);
    assert_eq!(PrivilegedUsersHandler.get_code(), 69);
    let mut m = Message::new();
    m.write_int32(UploadFailedHandler.get_code());
    m.write_string("a\\b.mp3");
    let failed = UploadFailedHandler.handle(&mut at_body(m));
    assert_eq!(failed.filename.filename(), "b.mp3");
}

#[test]
fn messages_of_a_peer() {
    let mut m = Message::new();
    m.write_int32(GetShareFileList.get_code());
    assert!(matches!(
        dispatch_peer(&mut framed(&m)),
        Some(PeerMessage::SendMessage(Request::SharedFolders { folders: 100, files: 800 }))
    ));
    let mut m = Message::new();
    m.write_int32(TransferRequest.get_code());
    m.write_int32(1);
    m.write_int32(12);
    m.write_string("a\\b");
    m.write_int64(99);
    match dispatch_peer(&mut framed(&m)) {
        Some(PeerMessage::TransferRequest(t)) => {
            assert_eq!((t.direction, t.token, t.size), (1, DownloadToken(12), 99));
            assert_eq!(t.filename.as_str(), "a\\b");
        },
        other => panic!("{other:?}"),
    }
    let mut m = Message::new();
    m.write_int32(TransferResponse.get_code());
    m.write_int32(12);
    m.write_int8(0);
    m.write_string("Queued");
    assert!(matches!(
        dispatch_peer(&mut framed(&m)),
        Some(PeerMessage::TransferResponse { token: 12, allowed: false, reason: Some(r) })
            if r == "Queued"
    ));
    let mut m = Message::new();
    m.write_int32(TransferResponse.get_code());
    m.write_int32(12);
    m.write_int8(1);
    assert!(matches!(
        dispatch_peer(&mut framed(&m)),
        Some(PeerMessage::TransferResponse { token: 12, allowed: true, reason: None })
    ));
    let mut m = Message::new();
    m.write_int32(43);
    m.write_string("f");
    m.write_int32(6);
    assert!(matches!(
        PlaceInQueueResponse.handle(&mut at_body(m)),
        PeerMessage::PlaceInQueueResponse { place: 6, .. }
    ));
}

fn answer() -> Message {
    let mut m = Message::new();
    m.write_string("peer");
    m.write_int32(42);
    m.write_int32(1);
    m.write_int8(1);
    m.write_string("share\\a.mp3");
    m.write_int64(1234);
    m.write_string("mp3");
    m.write_int32(2);
    m.write_int32(0);
    m.write_int32(320);
    m.write_int32(1);
    m.write_int32(200);
    m.write_int8(1);
    m.write_int32(5000);
    m
}

#[test]
fn answer_to_a_search_is_expanded() {
    let mut m = Message::new();
    m.write_int32(9);
    for b in miniz_oxide::deflate::compress_to_vec_zlib(&answer().get_data(), 6) {
        m.write_int8(b);
    }
    match dispatch_peer(&mut framed(&m)) {
        Some(PeerMessage::FileSearchResult(r)) => {
            assert_eq!(r.username, "peer");
            assert_eq!(r.token, SearchToken(42));
            assert_eq!(r.slots, 1);
            assert_eq!(r.speed, 5000);
            assert_eq!(r.files.len(), 1);
            assert_eq!(r.files[0].name.as_str(), "share\\a.mp3");
            assert_eq!(r.files[0].username, "peer");
            assert_eq!(r.files[0].size, 1234);
            assert_eq!(r.files[0].attributes.bitrate, Some(320));
            assert_eq!(r.files[0].attributes.duration, Some(200));
            assert_eq!(r.files[0].attributes.vbr, None);
        },
        other => panic!("{other:?}"),
    }
    let mut plain = Message::new_with_data(answer().get_data());
    assert!(matches!(
        SearchResult::try_new_from_message(&mut plain),
        Some(Err(SoulseekRs::CompressionError(_)))
    ));
    let mut cut = answer().get_data();
    cut.pop();
    assert!(SearchResult::parse(cut).is_none());
}

#[test]
fn attributes_by_number() {
    let map = HashMap::from([(0, 192), (2, 1), (4, 44100), (5, 16), (7, 3)]);
    assert_eq!(
        FileAttributes::from_map(map),
        FileAttributes {
            bitrate: Some(192),
            duration: None,
            vbr: Some(true),
            sample_rate: Some(44100),
            bit_depth: Some(16),
        }
    );
    assert_eq!(FileAttributes::from_map(HashMap::new()), FileAttributes::default());
}

#[test]
fn state_of_a_download() {
    let mut d = Download {
        username: "u".to_string(),
        filename: SoulseekPath("f".to_string()),
        token: DownloadToken(1),
        size: 10,
        download_directory: "d".to_string(),
        status: DownloadStatus::Queued,
        sender: StatusChannel(1),
    };
    assert!(!d.is_finished());
    assert_eq!(d.bytes_downloaded(), 0);
    let speed = Speed { bits: 2.5f64.to_bits() };
    d.status = DownloadStatus::InProgress {
        bytes_downloaded: 4,
        total_bytes: 10,
        speed_bytes_per_sec: speed,
    };
    assert_eq!(d.bytes_downloaded(), 4);
    assert_eq!(d.speed_bytes_per_sec(), speed);
    assert!(!d.is_finished());
    d.status = DownloadStatus::Completed;
    assert!(d.is_finished());
    assert_eq!(d.bytes_downloaded(), 10);
    d.status = DownloadStatus::TimedOut;
    assert!(d.is_finished());
}

#[test]
fn errors_in_words() {
    let words = |e: SoulseekRs| e.message();
    assert_eq!(words(SoulseekRs::AuthenticationFailed), "Authentication failed");
    assert!(words(SoulseekRs::ParseError("x".to_string())).ends_with('x'));
    assert!(words(SoulseekRs::from_parse_int("bad")).contains("bad"));
    assert!(matches!(SoulseekRs::from("x".to_string()), SoulseekRs::CompressionError(_)));
    assert_ne!(words(SoulseekRs::Timeout), words(SoulseekRs::NotConnected));
}

#[test]
fn addresses() {
    let a = PeerAddress::new("server.slsknet.org".to_string(), 2416);
    assert_eq!(a.get_host(), "server.slsknet.org");
    assert_eq!(a.get_port(), 2416);
    assert_eq!(a.display(), "server.slsknet.org:2416");
}

#[test]
fn paths() {
    let p = SoulseekPath::from_wire("@@s\\dir\\f.mp3".to_string());
    assert_eq!(p.filename(), "f.mp3");
    assert!(p.same_as(&SoulseekPath("@@s\\dir\\f.mp3".to_string())));
    assert!(!p.same_as(&SoulseekPath("f.mp3".to_string())));
}
