use soulseek_rs::soulseek::actor::peer_actor::{
    ConnectionState, PeerAction, PeerActor, PeerEvent, PeerProbe, PeerRead,
};
use soulseek_rs::soulseek::actor::peer_message::PeerMessage;
use soulseek_rs::soulseek::actor::server_actor::{
    backoff, LoginChannel, LoginState, ProbeOutcome, ReadOutcome, ServerAction, ServerActor,
    ServerConnection, ServerEvent, ServerMessage, UserMessage,
};
use soulseek_rs::soulseek::actor::{Actor, ActorMessage, ActorSystem, LoopEvent, LoopStep};
use soulseek_rs::soulseek::client::settings::{KeepAliveSettings, ReconnectSettings};
use soulseek_rs::soulseek::error::SoulseekRs;
use soulseek_rs::soulseek::message::Message;
use soulseek_rs::soulseek::path::SoulseekPath;
use soulseek_rs::soulseek::peer::{ConnectionType, Peer};
use soulseek_rs::soulseek::request::Request;
use soulseek_rs::soulseek::server_address::PeerAddress;
use soulseek_rs::soulseek::token::{DownloadToken, PierceToken};
use soulseek_rs::soulseek::types::Transfer;
use soulseek_rs::time::Duration;

const SEC: u128 = 1_000_000_000;

struct CounterActor {
    count: usize,
    ticks: usize,
}

impl Actor for CounterActor {
    type Message = usize;

    fn handle(&mut self, msg: usize) {
        self.count += msg;
    }

    fn tick(&mut self) {
        self.ticks += 1;
    }
}

#[test]
fn test_actor_system() {
    let mut system = ActorSystem::new();
    let mut actor = CounterActor { count: 0, ticks: 0 };
    let mut events = vec![
        LoopEvent::Received(Some(ActorMessage::UserMessage(1))),
        LoopEvent::Received(Some(ActorMessage::UserMessage(2))),
        LoopEvent::Interval,
        LoopEvent::Received(Some(ActorMessage::UserMessage(3))),
        LoopEvent::Received(Some(ActorMessage::Stop)),
        LoopEvent::Received(Some(ActorMessage::UserMessage(4))),
    ]
    .into_iter();
    actor.on_start();
    loop {
        match system.next_step(events.next().unwrap()) {
            LoopStep::Handle(n) => actor.handle(n),
            LoopStep::Tick => actor.tick(),
            LoopStep::Stop => break,
        }
    }
    actor.on_stop();
    assert_eq!(actor.count, 6);
    assert_eq!(actor.ticks, 1);
    assert_eq!((system.messages, system.ticks), (3, 1));
    assert_eq!(ActorSystem::tick_interval().as_nanos(), 100_000_000);
    assert!(matches!(system.next_step(LoopEvent::<usize>::Received(None)), LoopStep::Stop));
}

// ---- the server ------------------------------------------------------------------------------

fn server(max_attempts: Option<u32>) -> ServerActor {
    ServerActor::new(
        PeerAddress::new("host".to_string(), 2416),
        2234,
        true,
        KeepAliveSettings::Disabled,
        ReconnectSettings::EnabledExponentialBackoff {
            min_delay: Duration::from_secs(2),
            max_delay: Duration::from_secs(60),
            max_attempts,
        },
    )
}

fn login() -> ServerMessage {
    ServerMessage::Login {
        username: "me".to_string(),
        password: "secret".to_string(),
        response: LoginChannel(5),
    }
}

fn run_batch(actor: &mut ServerActor, now: u128) -> Vec<ServerAction> {
    let mut all = Vec::new();
    while let Some(actions) = actor.next_in_batch(now) {
        all.extend(actions);
    }
    all
}

fn connect(actor: &mut ServerActor, now: u128) -> Vec<ServerAction> {
    actor.on_dialed(true, now);
    actor.on_probe(ProbeOutcome::Nothing, now)
}

fn logged_in(max_attempts: Option<u32>) -> ServerActor {
    let mut actor = server(max_attempts);
    actor.on_start();
    connect(&mut actor, 0);
    actor.handle_message(login(), 0);
    actor.handle_message(ServerMessage::LoginStatus(true), 0);
    actor
}

#[test]
fn delays_double_and_stay_bounded() {
    assert_eq!(backoff(2, 60, 1), 2);
    assert_eq!(backoff(2, 60, 2), 4);
    assert_eq!(backoff(2, 60, 5), 32);
    assert_eq!(backoff(2, 60, 6), 60);
    assert_eq!(backoff(2, 60, u32::MAX), 60);
    assert_eq!(backoff(0, 60, 9), 0);
}

#[test]
fn nothing_is_lost_before_the_connection_stands() {
    let mut actor = server(None);
    assert!(matches!(&actor.on_start()[..], [ServerAction::Dial]));
    assert!(actor.handle_message(login(), 0).is_empty());
    assert!(!actor.is_connected());
    connect(&mut actor, 0);
    assert!(actor.is_connected());
    assert!(run_batch(&mut actor, 0).is_empty());
    actor.collect();
    let actions = run_batch(&mut actor, 0);
    assert!(matches!(
        &actions[..],
        [ServerAction::Write { request: Request::Login { username, .. } }] if username == "me"
    ));
    assert!(matches!(&actor.login_state, LoginState::Pending { deadline, .. } if *deadline == 5 * SEC));
}

#[test]
fn login_is_answered() {
    let mut actor = server(None);
    connect(&mut actor, 0);
    actor.handle_message(login(), 0);
    let actions = actor.handle_message(ServerMessage::LoginStatus(true), 0);
    assert!(matches!(
        &actions[..],
        [
            ServerAction::Reply { response: LoginChannel(5), answer: Ok(true) },
            ServerAction::Event { event: ServerEvent::LoginSucceeded }
        ]
    ));
    assert!(matches!(&actor.login_state, LoginState::LoggedIn { .. }));
    actor.collect();
    let actions = run_batch(&mut actor, 0);
    assert_eq!(actions.len(), 5);
    assert!(matches!(&actions[0], ServerAction::Write { request: Request::Login { .. } }));
    assert!(matches!(
        &actions[4],
        ServerAction::Write { request: Request::SetWaitPort { port: 2234 } }
    ));
}

#[test]
fn refused_login_is_final() {
    let mut actor = server(None);
    connect(&mut actor, 0);
    actor.handle_message(login(), 0);
    let actions = actor.handle_message(ServerMessage::LoginStatus(false), 0);
    assert!(matches!(
        &actions[..],
        [ServerAction::Reply { answer: Err(SoulseekRs::AuthenticationFailed), .. }]
    ));
    actor.disconnect(SEC);
    assert!(actor.tick(1000 * SEC).is_empty());
}

fn refused(actions: &[ServerAction], channel: u64) -> bool {
    actions.iter().any(|a| matches!(
        a,
        ServerAction::Reply { response: LoginChannel(c), answer: Err(SoulseekRs::ConnectionClosed) }
            if *c == channel
    ))
}

#[test]
fn refused_first_connection_answers_the_login() {
    let mut actor = server(None);
    actor.on_start();
    assert!(actor.on_dialed(false, 0).is_empty());
    let actions = actor.handle_message(login(), SEC);
    assert_eq!(actions.len(), 1);
    assert!(refused(&actions, 5));
    assert!(actor.queued_messages.is_empty());
    assert!(actor.tick(1000 * SEC).is_empty());
}

#[test]
fn login_that_waits_is_answered_when_the_first_connection_is_refused() {
    let mut actor = server(None);
    actor.on_start();
    assert!(actor.handle_message(login(), 0).is_empty());
    assert!(actor.handle_message(ServerMessage::GetPeerAddress("x".to_string()), 0).is_empty());
    let actions = actor.on_dialed(false, SEC);
    assert_eq!(actions.len(), 1);
    assert!(refused(&actions, 5));
    assert_eq!(actor.queued_messages.len(), 1);
}

#[test]
fn login_that_waits_is_answered_when_the_connection_never_stands() {
    let mut actor = server(None);
    actor.on_start();
    actor.on_dialed(true, 0);
    assert!(actor.handle_message(login(), 0).is_empty());
    let actions = actor.on_probe(ProbeOutcome::Failed, SEC);
    assert!(matches!(
        actions[0],
        ServerAction::Event { event: ServerEvent::ServerDisconnected }
    ));
    assert!(refused(&actions, 5));
    let mut actor = server(None);
    actor.on_dialed(true, 0);
    actor.handle_message(login(), 0);
    assert!(refused(&actor.tick(21 * SEC), 5));
}

#[test]
fn login_waits_while_another_attempt_may_come() {
    let mut actor = logged_in(Some(1));
    actor.disconnect(0);
    assert!(actor.handle_message(login(), SEC).is_empty());
    assert!(matches!(&actor.tick(2 * SEC)[..], [ServerAction::Dial]));
    assert!(refused(&actor.on_dialed(false, 2 * SEC), 5));
    assert!(refused(&actor.handle_message(login(), 3 * SEC), 5));
}

#[test]
fn second_login_takes_the_place_of_the_first() {
    let mut actor = server(None);
    connect(&mut actor, 0);
    actor.handle_message(login(), 0);
    let second = ServerMessage::Login {
        username: "me".to_string(),
        password: "secret".to_string(),
        response: LoginChannel(6),
    };
    let actions = actor.handle_message(second, 0);
    assert!(matches!(
        &actions[..],
        [ServerAction::Reply { response: LoginChannel(5), answer: Err(SoulseekRs::Timeout) }]
    ));
    let actions = actor.handle_message(ServerMessage::LoginStatus(true), 0);
    assert!(matches!(
        &actions[0],
        ServerAction::Reply { response: LoginChannel(6), answer: Ok(true) }
    ));
}

#[test]
fn login_times_out() {
    let mut actor = server(None);
    connect(&mut actor, 0);
    actor.handle_message(login(), 0);
    assert!(!actor.tick(4 * SEC).iter().any(|a| matches!(a, ServerAction::Reply { .. })));
    let actions = actor.tick(5 * SEC);
    assert!(matches!(
        &actions[0],
        ServerAction::Reply { answer: Err(SoulseekRs::Timeout), .. }
    ));
}

#[test]
fn lost_connection_is_tried_again() {
    let mut actor = logged_in(Some(2));
    let actions = actor.on_read(ReadOutcome::Failed, 10 * SEC);
    assert!(matches!(
        &actions[..],
        [ServerAction::Event { event: ServerEvent::ServerDisconnected }]
    ));
    assert!(actor.tick(11 * SEC).is_empty());
    assert!(matches!(&actor.tick(12 * SEC)[..], [ServerAction::Dial]));
    actor.on_dialed(false, 12 * SEC);
    assert!(actor.tick(15 * SEC).is_empty());
    assert!(matches!(&actor.tick(16 * SEC)[..], [ServerAction::Dial]));
    actor.on_dialed(false, 16 * SEC);
    assert!(actor.tick(1000 * SEC).is_empty());
}

#[test]
fn reconnection_logs_in_again() {
    let mut actor = logged_in(None);
    actor.disconnect(0);
    connect(&mut actor, 3 * SEC);
    actor.collect();
    let actions = run_batch(&mut actor, 3 * SEC);
    assert!(actions.iter().any(|a| matches!(
        a,
        ServerAction::Write { request: Request::Login { username, .. } } if username == "me"
    )));
}

#[test]
fn dial_that_takes_too_long_is_given_up() {
    let mut actor = logged_in(None);
    actor.disconnect(0);
    actor.on_dialed(true, 2 * SEC);
    assert!(matches!(&actor.tick(3 * SEC)[..], [ServerAction::Probe]));
    let actions = actor.tick(23 * SEC);
    assert!(matches!(
        &actions[..],
        [ServerAction::Event { event: ServerEvent::ServerDisconnected }]
    ));
    assert!(matches!(
        actor.connection,
        ServerConnection::Disconnected { reconnect_attempt: 2, .. }
    ));
}

#[test]
fn bytes_of_the_server_become_messages() {
    let mut actor = server(None);
    connect(&mut actor, 0);
    actor.handle_message(login(), 0);
    let mut m = Message::new();
    m.write_int32(1);
    m.write_int8(0);
    let bytes = m.get_buffer();
    actor.on_read(ReadOutcome::Bytes(bytes[..3].to_vec()), 0);
    let actions = run_batch(&mut actor, 0);
    assert!(matches!(&actions[..], [ServerAction::Write { request: Request::Login { .. } }]));
    actor.on_read(ReadOutcome::Bytes(bytes[3..].to_vec()), 0);
    let actions = run_batch(&mut actor, 0);
    assert!(matches!(
        &actions[..],
        [ServerAction::Reply { answer: Err(SoulseekRs::AuthenticationFailed), .. }]
    ));
}

#[test]
fn message_of_a_user() {
    let m = UserMessage::new(7, 100, "who".to_string(), "hello".to_string(), true);
    assert_eq!(
        m.print(),
        "Timestamp: 100. User: who, Id: #7, New message: true Message: hello"
    );
}

// ---- a peer ----------------------------------------------------------------------------------

fn peer() -> Peer {
    Peer {
        username: "peer".to_string(),
        connection_type: ConnectionType::P,
        host: "1.2.3.4".to_string(),
        port: 5,
        token: Some(PierceToken(1)),
        privileged: None,
        unknown: None,
        obfuscated_port: None,
    }
}

fn run_peer_batch(actor: &mut PeerActor) -> Vec<PeerAction> {
    let mut all = Vec::new();
    while let Some(actions) = actor.next_in_batch() {
        all.extend(actions);
    }
    all
}

#[test]
fn messages_to_a_peer_wait_for_the_connection() {
    let mut actor = PeerActor::new(peer(), false, None);
    assert!(matches!(&actor.on_start()[..], [PeerAction::Dial]));
    actor.on_dialed(None, 0);
    assert!(matches!(actor.connection_state, ConnectionState::Connecting { since: 0 }));
    let file = SoulseekPath("f".to_string());
    assert!(actor.handle_message(PeerMessage::QueueUpload(file)).is_empty());
    let actions = actor.on_probe(PeerProbe::Nothing);
    assert!(matches!(
        &actions[..],
        [PeerAction::Handshake { request: Request::WatchUser { username } }] if username == "peer"
    ));
    actor.on_handshake(None);
    let actions = run_peer_batch(&mut actor);
    assert!(matches!(
        &actions[..],
        [PeerAction::Write { request: Request::QueueUpload { filename } }]
            if filename.as_str() == "f"
    ));
}

#[test]
fn transfer_of_a_peer() {
    let mut actor = PeerActor::new(peer(), true, None);
    actor.set_self_handle();
    let transfer = Transfer {
        direction: 1,
        token: DownloadToken(3),
        filename: SoulseekPath("f".to_string()),
        size: 9,
    };
    let actions = actor.handle_message(PeerMessage::TransferRequest(transfer));
    assert!(matches!(
        &actions[..],
        [
            PeerAction::Event { event: PeerEvent::UpdateDownloadTokens(_, user) },
            PeerAction::SendSelf {
                message: PeerMessage::SendMessage(Request::TransferResponse { .. })
            }
        ] if user == "peer"
    ));
    let answer = |allowed| PeerMessage::TransferResponse { token: 3, allowed, reason: None };
    assert!(matches!(
        &actor.handle_message(answer(true))[..],
        [PeerAction::Event {
            event: PeerEvent::DownloadFromPeer { token: 3, allowed: true, .. }
        }]
    ));
    assert!(!actor
        .handle_message(answer(false))
        .iter()
        .any(|a| matches!(a, PeerAction::Event { event: PeerEvent::DownloadFromPeer { .. } })));
}

#[test]
fn peer_that_is_lost() {
    let mut actor = PeerActor::new(peer(), true, None);
    let actions = actor.on_read(PeerRead::Failed("reset".to_string()));
    assert!(matches!(
        &actions[..],
        [PeerAction::Event {
            event: PeerEvent::PeerDisconnected(user, Some(SoulseekRs::NetworkError(_)))
        }] if user == "peer"
    ));
    let request = Request::SetStatus { status: 2 };
    assert!(actor.handle_message(PeerMessage::SendMessage(request)).is_empty());
}

#[test]
fn peer_that_cannot_be_reached() {
    let mut actor = PeerActor::new(peer(), false, None);
    actor.on_dialed(None, 0);
    let actions = actor.tick(21 * SEC);
    assert!(matches!(
        &actions[..],
        [PeerAction::Event { event: PeerEvent::PeerDisconnected(_, Some(_)) }]
    ));
}

#[test]
fn bytes_of_a_peer_become_messages() {
    let mut actor = PeerActor::new(peer(), true, None);
    actor.on_start();
    actor.on_handshake(None);
    run_peer_batch(&mut actor);
    let mut m = Message::new();
    m.write_int32(4);
    actor.on_read(PeerRead::Bytes(m.get_buffer()));
    let actions = run_peer_batch(&mut actor);
    assert!(matches!(
        &actions[..],
        [PeerAction::Write { request: Request::SharedFolders { folders: 100, files: 800 } }]
    ));
}
