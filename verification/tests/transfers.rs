use soulseek_rs::soulseek::client::context::{ClientContext, RegistryHandle};
use soulseek_rs::soulseek::client::counted::WorkerOperation;
use soulseek_rs::soulseek::download_peer::{
    choose_directory, expand_path, pierced_token, start_download, DownloadError, DownloadPeer,
    Progress,
};
use soulseek_rs::soulseek::fetch::{patience, Fetch, FetchEvent, FetchStage, FetchStep, Patience};
use soulseek_rs::soulseek::listen::{
    asked_fetch_ended, decide_incoming, handle_incoming_connection, incoming_fetch_ended,
    parse_peer_init_message, parse_pierce_firewall_token, parse_token_from_buffer, query_incoming,
    Incoming, IncomingAction, IncomingQuery, Listen, ListenError,
};
use soulseek_rs::soulseek::message::Message;
use soulseek_rs::soulseek::path::SoulseekPath;
use soulseek_rs::soulseek::peer::ConnectionType;
use soulseek_rs::soulseek::token::DownloadToken;
use soulseek_rs::soulseek::types::{Download, DownloadStatus, Speed, StatusChannel};
use soulseek_rs::time::Duration;

fn download(token: u32) -> Download {
    Download {
        username: "peer".to_string(),
        filename: SoulseekPath("f".to_string()),
        token: DownloadToken(token),
        size: 10,
        download_directory: "d".to_string(),
        status: DownloadStatus::Queued,
        sender: StatusChannel(1),
    }
}

fn init(letter: &str) -> Message {
    let mut m = Message::new();
    m.write_int8(1);
    m.write_string("peer");
    m.write_string(letter);
    m.write_int32(77);
    Message::new_with_data(m.get_buffer())
}

fn pierce(token: u32) -> Message {
    let mut m = Message::new();
    m.write_int8(0);
    m.write_int32(token);
    Message::new_with_data(m.get_buffer())
}

#[test]
fn where_a_file_goes() {
    let home = || Some("/home/me".to_string());
    assert_eq!(expand_path("~/music", home()), "/home/me/music");
    assert_eq!(expand_path("~", home()), "/home/me/");
    assert_eq!(expand_path("/abs", home()), "/abs");
    assert_eq!(expand_path("~/music", None), "~/music");
    let dir = choose_directory("/a/b".to_string(), true, None).unwrap();
    assert_eq!(dir, "/a/b");
    let dir = choose_directory("/a/b".to_string(), false, Some("/a".to_string())).unwrap();
    assert_eq!(dir, "/a");
    let e = choose_directory("x".to_string(), false, None).unwrap_err();
    assert_eq!(
        e.message(),
        "Path resolution error: Cannot resolve parent directory for: x"
    );
}

#[test]
fn start_of_a_transfer() {
    assert_eq!(start_download(), vec![0; 8]);
    assert_eq!(pierced_token(&vec![1, 2, 0, 0, 9]).unwrap(), DownloadToken(0x201));
    assert!(matches!(pierced_token(&vec![1, 2]), Err(DownloadError::InvalidTokenBytes)));
    assert_eq!(DownloadError::TokenNotFound(DownloadToken(4)).message(), "Token not found: 4");
    let from =
        DownloadPeer::new("u".to_string(), "host".to_string(), 99, 1, "me".to_string());
    assert_eq!(from.address(), "host:99");
}

#[test]
fn progress_of_a_transfer() {
    let mut p = Progress::new(10, 100);
    assert!(!p.report_initial());
    assert!(Progress::new(15 * 8192, 1_000_000).report_initial());
    for i in 1..=14 {
        let o = p.on_chunk(1);
        assert!(!o.report && !o.done, "{i}");
    }
    let o = p.on_chunk(1);
    assert!(o.report && !o.done);
    let o = p.on_chunk(75);
    assert!(!o.report && o.done);
    let speed = Speed { bits: 1.5f64.to_bits() };
    assert_eq!(
        p.status(speed),
        DownloadStatus::InProgress {
            bytes_downloaded: 100,
            total_bytes: 100,
            speed_bytes_per_sec: speed,
        }
    );
}

#[test]
fn fetch_of_a_known_file() {
    let (mut f, first) = Fetch::download_direct(10);
    assert!(matches!(first, FetchStep::Connect));
    assert!(matches!(f.handle(FetchEvent::Connected)[..], [FetchStep::OpenOutput]));
    assert!(matches!(f.handle(FetchEvent::Opened)[..], [FetchStep::SendStart]));
    assert!(matches!(f.handle(FetchEvent::StartSent)[..], [FetchStep::Read]));
    assert!(matches!(
        &f.handle(FetchEvent::Read { bytes: vec![1, 2, 3, 4] })[..],
        [FetchStep::WriteRead { bytes }] if *bytes == [1, 2, 3, 4]
    ));
    assert!(matches!(f.handle(FetchEvent::Written)[..], [FetchStep::Read]));
    f.handle(FetchEvent::Read { bytes: vec![0; 6] });
    assert!(matches!(f.handle(FetchEvent::Written)[..], [FetchStep::Flush]));
    assert!(matches!(
        f.handle(FetchEvent::Flushed)[..],
        [FetchStep::Finish { outcome: Ok(10) }]
    ));
    assert_eq!(f.stage, FetchStage::Over);
}

#[test]
fn fetch_of_a_file_that_the_peer_names() {
    let (mut f, _) = Fetch::download_pierced(7);
    assert!(matches!(
        f.handle(FetchEvent::Connected)[..],
        [FetchStep::SendHandshake { token: 7 }]
    ));
    assert!(matches!(f.handle(FetchEvent::HandshakeSent)[..], [FetchStep::ReadFirst]));
    let steps = f.handle(FetchEvent::FirstRead { bytes: vec![5, 0, 0, 0, 1, 2] });
    assert!(matches!(steps[..], [FetchStep::Resolve { token: DownloadToken(5) }]));
    assert_eq!(f.named, Some(DownloadToken(5)));
    let mut unknown = Fetch {
        stage: f.stage,
        pierce: f.pierce,
        named: f.named,
        first: f.first.clone(),
        progress: f.progress,
    };
    assert!(matches!(
        unknown.handle(FetchEvent::Resolved { size: None })[..],
        [FetchStep::Finish { outcome: Err(DownloadError::TokenNotFound(DownloadToken(5))) }]
    ));
    let steps = f.handle(FetchEvent::Resolved { size: Some(3) });
    assert!(matches!(steps[..], [FetchStep::SendStart]));
    assert!(matches!(f.handle(FetchEvent::StartSent)[..], [FetchStep::OpenOutput]));
    assert!(matches!(
        &f.handle(FetchEvent::Opened)[..],
        [FetchStep::WriteFirst { bytes }] if *bytes == [1, 2]
    ));
    assert!(matches!(f.handle(FetchEvent::Written)[..], [FetchStep::Read]));
    assert_eq!(f.progress.total_bytes, 2);
    assert!(matches!(f.handle(FetchEvent::Read { bytes: vec![] })[..], [FetchStep::Flush]));
    assert!(matches!(f.handle(FetchEvent::Flushed)[..], [FetchStep::Finish { outcome: Ok(2) }]));
}

#[test]
fn output_is_what_came_after_the_token() {
    let (mut f, _) = Fetch::download_pierced(7);
    let mut file: Vec<u8> = Vec::new();
    let events = vec![
        FetchEvent::Connected,
        FetchEvent::HandshakeSent,
        FetchEvent::FirstRead { bytes: vec![5, 0, 0, 0, 1] },
        FetchEvent::Resolved { size: Some(4) },
        FetchEvent::StartSent,
        FetchEvent::Opened,
        FetchEvent::Written,
        FetchEvent::Read { bytes: vec![2, 3] },
        FetchEvent::Written,
        FetchEvent::Read { bytes: vec![4] },
        FetchEvent::Written,
        FetchEvent::Flushed,
    ];
    let mut last = Vec::new();
    for event in events {
        last = f.handle(event);
        for step in &last {
            match step {
                FetchStep::WriteFirst { bytes } => file.extend(bytes),
                FetchStep::WriteRead { bytes } => file.extend(bytes),
                _ => {}
            }
        }
    }
    assert_eq!(file, vec![1, 2, 3, 4]);
    assert!(matches!(last[..], [FetchStep::Finish { outcome: Ok(4) }]));
}

#[test]
fn patience_ends() {
    let secs = Duration::from_secs;
    assert_eq!(patience(secs(4), Some(secs(5))), Patience::Wait);
    assert_eq!(patience(secs(5), Some(secs(5))), Patience::Stalled);
    assert_eq!(patience(secs(40), Some(secs(50))), Patience::Wait);
    assert_eq!(patience(secs(29), None), Patience::Wait);
    assert_eq!(patience(secs(30), None), Patience::Failed);
}

#[test]
fn fetch_that_fails() {
    let (mut f, _) = Fetch::download_pierced(7);
    f.handle(FetchEvent::Connected);
    f.handle(FetchEvent::HandshakeSent);
    assert!(matches!(
        f.handle(FetchEvent::FirstRead { bytes: vec![1, 2] })[..],
        [FetchStep::Finish { outcome: Err(DownloadError::InvalidTokenBytes) }]
    ));
    let failed = |stage| {
        let (mut f, _) = Fetch::download_direct(10);
        f.stage = stage;
        match f.handle(FetchEvent::Failed { reason: "x".to_string() }).pop() {
            Some(FetchStep::Finish { outcome: Err(e) }) => e.message(),
            other => panic!("{other:?}"),
        }
    };
    assert_eq!(failed(FetchStage::Connecting), "Connection failed: x");
    assert_eq!(failed(FetchStage::Shaking), "Handshake failed: x");
    assert_eq!(failed(FetchStage::ReadingFirst), "Stream read error: x");
    assert_eq!(failed(FetchStage::Starting), "Stream write error: x");
    assert_eq!(failed(FetchStage::Opening), "File write error: x");
    assert_eq!(failed(FetchStage::Reading), "Stream read error: x");
    assert_eq!(failed(FetchStage::Flushing), "File write error: x");
    let (mut f, _) = Fetch::download_direct(10);
    f.stage = FetchStage::Reading;
    assert!(matches!(
        f.handle(FetchEvent::Stalled)[..],
        [FetchStep::Finish { outcome: Err(DownloadError::NoProgressTimeout) }]
    ));
    f.stage = FetchStage::Reading;
    assert!(matches!(
        f.handle(FetchEvent::Cancelled)[..],
        [FetchStep::Finish { outcome: Err(DownloadError::Cancelled) }]
    ));
}

#[test]
fn fetch_reports_every_fifteenth_read() {
    let (mut f, _) = Fetch::download_direct(1000);
    f.stage = FetchStage::Reading;
    for i in 1..=30 {
        f.handle(FetchEvent::Read { bytes: vec![1] });
        let steps = f.handle(FetchEvent::Written);
        let reported = steps.iter().any(|s| matches!(s, FetchStep::Report { initial: false }));
        assert_eq!(reported, i % 15 == 0);
    }
}

#[test]
fn why_a_file_was_not_fetched() {
    let words = |e: DownloadError| e.message();
    assert_eq!(words(DownloadError::ConnectionFailed("x".to_string())), "Connection failed: x");
    assert_eq!(words(DownloadError::InvalidAddress("x".to_string())), "Invalid address: x");
    assert_eq!(words(DownloadError::HandshakeFailed("x".to_string())), "Handshake failed: x");
    assert_eq!(words(DownloadError::StreamReadError("x".to_string())), "Stream read error: x");
    assert_eq!(words(DownloadError::StreamWriteError("x".to_string())), "Stream write error: x");
    assert_eq!(words(DownloadError::FileWriteError("x".to_string())), "File write error: x");
    assert_eq!(words(DownloadError::DownloadInfoMissing), "Download info missing");
    assert_eq!(words(DownloadError::InvalidTokenBytes), "Invalid token bytes received");
    assert_eq!(words(DownloadError::Cancelled), "Download cancelled");
    assert_eq!(words(DownloadError::NoProgressTimeout), "Download timed out");
}

#[test]
fn first_message_of_a_peer() {
    assert_eq!(parse_pierce_firewall_token(&mut pierce(5)), Some(DownloadToken(5)));
    assert_eq!(parse_pierce_firewall_token(&mut init("P")), None);
    let data = parse_peer_init_message(&mut init("F")).unwrap();
    assert_eq!((data.username.as_str(), data.token), ("peer", 77));
    assert_eq!(data.connection_type, ConnectionType::F);
    assert!(parse_peer_init_message(&mut init("X")).is_none());
    assert!(parse_peer_init_message(&mut pierce(5)).is_none());
    assert_eq!(parse_token_from_buffer(&vec![1, 0, 0, 0, 9]), Some(DownloadToken(1)));
    assert_eq!(parse_token_from_buffer(&vec![1, 0, 0]), None);
}

fn incoming(mut m: Message, rest: &[u8]) -> Incoming {
    handle_incoming_connection(&mut m, &rest.to_vec(), "1.2.3.4", 6)
}

#[test]
fn what_a_peer_wants() {
    match incoming(pierce(5), &[]) {
        Incoming::PierceFirewall { token, peer } => {
            assert_eq!(token, DownloadToken(5));
            assert_eq!(peer.username, "1.2.3.4:pierce");
            assert_eq!((peer.host.as_str(), peer.port), ("1.2.3.4", 6));
        },
        other => panic!("{other:?}"),
    }
    assert!(matches!(
        incoming(init("P"), &[]),
        Incoming::Messages { peer } if peer.username == "peer:direct"
    ));
    assert!(matches!(
        incoming(init("F"), &[9, 0, 0, 0]),
        Incoming::File {
            connection_token: 77,
            download_token: Some(DownloadToken(9)),
            ..
        }
    ));
    assert!(matches!(incoming(init("D"), &[]), Incoming::Unsupported));
    assert!(matches!(incoming(init("X"), &[]), Incoming::Invalid));
    assert!(matches!(incoming(Message::new_with_data(vec![1, 0]), &[]), Incoming::Invalid));
}

#[test]
fn what_is_done_about_a_peer() {
    let me = "me".to_string();
    let mut context = ClientContext::new();
    assert!(matches!(
        decide_incoming(incoming(pierce(5), &[]), &context, &me),
        IncomingAction::Drop
    ));
    assert!(matches!(
        decide_incoming(incoming(init("P"), &[]), &context, &me),
        IncomingAction::Drop
    ));
    context.peer_registry = Some(RegistryHandle(1));
    context.add_download(download(5));
    assert!(matches!(
        decide_incoming(incoming(init("P"), &[]), &context, &me),
        IncomingAction::Register { .. }
    ));
    assert!(matches!(
        decide_incoming(incoming(pierce(5), &[]), &context, &me),
        IncomingAction::Fetch { download: Some(_), .. }
    ));
    assert!(matches!(
        decide_incoming(incoming(init("F"), &[]), &context, &me),
        IncomingAction::Fetch { download: None, from } if from.username == "peer:direct:direct"
    ));
    assert_eq!(
        incoming_fetch_ended(&mut context, &Some(download(5))),
        Some((StatusChannel(1), DownloadStatus::Completed))
    );
    assert_eq!(
        context.get_download_by_token(DownloadToken(5)).unwrap().status,
        DownloadStatus::Completed
    );
    assert_eq!(incoming_fetch_ended(&mut context, &None), None);
}

#[test]
fn what_the_worker_is_asked() {
    let me = "me".to_string();
    assert!(matches!(
        query_incoming(incoming(pierce(5), &[]), &me),
        IncomingQuery::Ask { token: DownloadToken(5), .. }
    ));
    assert!(matches!(
        query_incoming(incoming(init("F"), &[]), &me),
        IncomingQuery::Drop
    ));
    assert!(matches!(
        query_incoming(incoming(init("P"), &[]), &me),
        IncomingQuery::Register { .. }
    ));
    let (told, op) = asked_fetch_ended(DownloadToken(5), Ok((download(5), "p".to_string())));
    assert_eq!(told, Some((StatusChannel(1), DownloadStatus::Completed)));
    assert!(matches!(op, WorkerOperation::DownloadCompleted(DownloadToken(5), Ok(_))));
    let (_, op) = asked_fetch_ended(DownloadToken(5), Err(DownloadError::DownloadInfoMissing));
    assert!(matches!(op, WorkerOperation::DownloadCompleted(DownloadToken(5), Err(_))));
}

#[test]
fn where_we_listen() {
    assert_eq!(Listen::bind_address(2234), "0.0.0.0:2234");
    assert!(ListenError::FailedToBindListener("x".to_string()).message().ends_with('x'));
}
