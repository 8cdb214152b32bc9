//! The actor that owns the connection to the server: it connects, logs in, reads
//! and writes, and connects again after the connection was lost.
use vstd::prelude::*;

use crate::soulseek::client::settings::{KeepAliveSettings, ReconnectSettings};
use crate::soulseek::error::{Result, SoulseekRs};
use crate::soulseek::handlers::dispatch_server;
use crate::soulseek::message::MessageReader;
use crate::soulseek::peer::{ConnectionType, Peer};
use crate::soulseek::request::Request;
use crate::soulseek::server_address::PeerAddress;
use crate::soulseek::token::{PierceToken, SearchToken};
use crate::text::{append_str, decimal_chars, from_chars};

verus! {

/// The channel on which a caller waits for the outcome of its login.
#[derive(Debug, Clone, Copy, PartialEq, Eq, Structural)]
pub struct LoginChannel(pub u64);

/// What the actor is asked to do.
#[derive(Debug)]
pub enum ServerMessage {
    ProcessRead,
    LoginStatus(bool),
    SendMessage(Request),
    Login { username: String, password: String, response: LoginChannel },
    FileSearch { token: SearchToken, query: String },
    ConnectToPeer(Peer),
    PierceFirewall(PierceToken),
    GetPeerAddress(String),
    GetPeerAddressResponse {
        username: String,
        host: String,
        port: u32,
        obfuscation_type: u32,
        obfuscated_port: u16,
    },
}

/// A private message of another user.
#[derive(Debug)]
pub struct UserMessage {
    pub id: u32,
    pub timestamp: u32,
    pub username: String,
    pub message: String,
    pub new_message: bool,
}

/// A truth value as text.
pub open spec fn bool_text(b: bool) -> Seq<char> {
    if b {
        "true"@
    } else {
        "false"@
    }
}

impl UserMessage {
    /// A message with everything that is known of it.
    pub fn new(
        id: u32,
        timestamp: u32,
        username: String,
        message: String,
        new_message: bool,
    ) -> (r: Self)
        ensures
            r == (UserMessage { id, timestamp, username, message, new_message }),
    {
        UserMessage { id, timestamp, username, message, new_message }
    }

    /// The line that is logged of the message.
    pub fn print(&self) -> (r: String)
        ensures
            r@ == "Timestamp: "@ + crate::text::decimal(self.timestamp as nat) + ". User: "@
                + self.username@ + ", Id: #"@ + crate::text::decimal(self.id as nat)
                + ", New message: "@ + bool_text(self.new_message) + " Message: "@ + self.message@,
    {
        let mut out = append_str(
            "Timestamp: ",
            from_chars(&decimal_chars(self.timestamp as u64)).as_str(),
        );
        out.append(". User: ");
        out.append(self.username.as_str());
        out.append(", Id: #");
        out.append(from_chars(&decimal_chars(self.id as u64)).as_str());
        out.append(", New message: ");
        if self.new_message {
            out.append("true");
        } else {
            out.append("false");
        }
        out.append(" Message: ");
        out.append(self.message.as_str());
        out
    }
}

// ---- state ------------------------------------------------------------------------------

/// How the connection stands. Times are in nanoseconds of the actor's clock.
#[derive(Debug)]
pub enum ServerConnection {
    Disconnected {
        /// How many times in a row we have failed, or 1 after the connection was
        /// lost.
        reconnect_attempt: u32,
        last_disconnect: Option<u128>,
    },
    Connecting { since: u128, reconnect_attempt: u32 },
    Connected {
        /// Messages to the actor that wait to be collected.
        inbox: Vec<ServerMessage>,
    },
}

/// How the login stands.
#[derive(Debug)]
pub enum LoginState {
    NotAttempted,
    Pending { username: String, password: String, response: LoginChannel, deadline: u128 },
    /// The login succeeded, or was under way when the connection was lost; with
    /// these we log in again.
    LoggedIn { username: String, password: String },
}

/// The actor.
#[derive(Debug)]
pub struct ServerActor {
    pub address: PeerAddress,
    pub listen_port: u32,
    pub enable_listen: bool,
    pub connection: ServerConnection,
    pub login_state: LoginState,
    pub reader: MessageReader,
    /// Whether the actor can send messages to itself.
    pub self_handle: bool,
    /// Messages that came while there was no connection.
    pub queued_messages: Vec<ServerMessage>,
    /// Messages that were collected and are to be handled next.
    pub batch: Vec<ServerMessage>,
    pub reconnect_settings: ReconnectSettings,
    pub tcp_keepalive: KeepAliveSettings,
}

/// How the connection stands, as a value.
#[verifier::ext_equal]
pub enum ConnectionModel {
    Disconnected { attempt: u32, last: Option<u128> },
    Connecting { since: u128, attempt: u32 },
    Connected { inbox: Seq<ServerMessage> },
}

/// What changes of an actor, as a value.
#[verifier::ext_equal]
pub struct ServerModel {
    pub connection: ConnectionModel,
    pub login: LoginState,
    pub buffered: Seq<u8>,
    pub self_handle: bool,
    pub queued: Seq<ServerMessage>,
    pub batch: Seq<ServerMessage>,
    pub listen_port: u32,
    pub enable_listen: bool,
    pub reconnect: ReconnectSettings,
}

impl View for ServerConnection {
    type V = ConnectionModel;

    open spec fn view(&self) -> ConnectionModel {
        match *self {
            ServerConnection::Disconnected { reconnect_attempt, last_disconnect } =>
                ConnectionModel::Disconnected { attempt: reconnect_attempt, last: last_disconnect },
            ServerConnection::Connecting { since, reconnect_attempt } =>
                ConnectionModel::Connecting { since, attempt: reconnect_attempt },
            ServerConnection::Connected { inbox } => ConnectionModel::Connected { inbox: inbox@ },
        }
    }
}

impl View for ServerActor {
    type V = ServerModel;

    open spec fn view(&self) -> ServerModel {
        ServerModel {
            connection: self.connection@,
            login: self.login_state,
            buffered: self.reader@,
            self_handle: self.self_handle,
            queued: self.queued_messages@,
            batch: self.batch@,
            listen_port: self.listen_port,
            enable_listen: self.enable_listen,
            reconnect: self.reconnect_settings,
        }
    }
}

/// What the actor has done by others, in order.
#[derive(Debug)]
pub enum ServerAction {
    /// Connect; [`ServerActor::on_dialed`] is told the outcome.
    Dial,
    /// See whether the new connection stands; [`ServerActor::on_probe`] is told
    /// the outcome.
    Probe,
    /// Read what has come; [`ServerActor::on_read`] is told the outcome.
    Read,
    /// Write a request; [`ServerActor::disconnect`] is called where that fails.
    Write { request: Request },
    /// Handle what was collected, with [`ServerActor::next_in_batch`].
    RunBatch,
    /// Send the actor [`ServerMessage::ProcessRead`].
    Poke,
    /// Give the caller of a login its answer.
    Reply { response: LoginChannel, answer: Result<bool> },
    /// Tell the client.
    Event { event: ServerEvent },
}

/// What the client is told.
#[derive(Debug)]
pub enum ServerEvent {
    ConnectToPeer(Peer),
    GetPeerAddressResponse {
        username: String,
        host: String,
        port: u32,
        obfuscation_type: u32,
        obfuscated_port: u16,
    },
    SetServerSender,
    ServerDisconnected,
    LoginSucceeded,
}

/// How long a login may take, in nanoseconds.
pub const LOGIN_TIMEOUT: u128 = 5_000_000_000;

/// How long a connection may take to stand, in nanoseconds.
pub const CONNECT_TIMEOUT: u128 = 20_000_000_000;

/// How long ago `then` was, 0 where it is yet to come.
pub open spec fn age(then: u128, now: u128) -> nat {
    if then <= now {
        (now - then) as nat
    } else {
        0
    }
}

fn elapsed(then: u128, now: u128) -> (r: u128)
    ensures
        r == age(then, now),
{
    if then <= now {
        now - then
    } else {
        0
    }
}

// ---- connecting again ---------------------------------------------------------------------

/// 2 to the power of `n`.
pub open spec fn power_of_two(n: nat) -> nat
    decreases n,
{
    if n == 0 {
        1
    } else {
        2 * power_of_two((n - 1) as nat)
    }
}

/// How many seconds to wait before an attempt: the least delay, doubled with each
/// attempt after the first, and at most the greatest delay.
pub open spec fn backoff_secs(min_secs: nat, max_secs: nat, attempt: nat) -> nat {
    let exp = if attempt > 0 {
        (attempt - 1) as nat
    } else {
        0
    };
    let delay = min_secs * power_of_two(exp);
    if delay <= max_secs {
        delay
    } else {
        max_secs
    }
}

/// Whether another attempt is allowed.
pub open spec fn attempt_allowed(attempt: u32, max_attempts: Option<u32>) -> bool {
    match max_attempts {
        Some(max) => attempt <= max,
        None => true,
    }
}

proof fn lemma_power_of_two_grows(a: nat, b: nat)
    requires
        a <= b,
    ensures
        0 < power_of_two(a) <= power_of_two(b),
    decreases b,
{
    if a < b {
        lemma_power_of_two_grows(a, (b - 1) as nat);
    } else if b > 0 {
        lemma_power_of_two_grows((b - 1) as nat, (b - 1) as nat);
    }
}

/// The wait never exceeds the greatest delay, and never shrinks from one attempt
/// to a later one.
pub proof fn lemma_backoff_bounded_and_monotone(min_secs: nat, max_secs: nat, a: nat, b: nat)
    requires
        a <= b,
    ensures
        backoff_secs(min_secs, max_secs, a) <= max_secs,
        backoff_secs(min_secs, max_secs, a) <= backoff_secs(min_secs, max_secs, b),
{
    let ea = if a > 0 {
        (a - 1) as nat
    } else {
        0
    };
    let eb = if b > 0 {
        (b - 1) as nat
    } else {
        0
    };
    lemma_power_of_two_grows(ea, eb);
    let pa = power_of_two(ea);
    let pb = power_of_two(eb);
    assert(min_secs * pa <= min_secs * pb) by (nonlinear_arith)
        requires
            pa <= pb,
    ;
}

/// The wait doubles with each attempt until it reaches the greatest delay.
pub proof fn lemma_backoff_doubles(min_secs: nat, max_secs: nat, attempt: nat)
    requires
        attempt > 0,
        2 * backoff_secs(min_secs, max_secs, attempt) <= max_secs,
    ensures
        backoff_secs(min_secs, max_secs, attempt + 1) == 2 * backoff_secs(
            min_secs,
            max_secs,
            attempt,
        ),
{
    let p = power_of_two((attempt - 1) as nat);
    assert(power_of_two(attempt) == 2 * p);
    assert(min_secs * (2 * p) == 2 * (min_secs * p)) by (nonlinear_arith);
    lemma_power_of_two_grows(0, (attempt - 1) as nat);
}

/// How many seconds to wait before an attempt.
pub fn backoff(min_secs: u64, max_secs: u64, attempt: u32) -> (r: u64)
    ensures
        r == backoff_secs(min_secs as nat, max_secs as nat, attempt as nat),
{
    let exp: u32 = attempt.saturating_sub(1);
    let mut delay: u128 = min_secs as u128;
    let mut i: u32 = 0;
    proof {
        assert(min_secs * power_of_two(0) == min_secs) by (nonlinear_arith)
            requires
                power_of_two(0) == 1,
        ;
    }
    while i < exp && delay <= max_secs as u128 && delay > 0
        invariant
            i <= exp,
            delay == min_secs * power_of_two(i as nat),
            delay <= 2 * u64::MAX,
        decreases exp - i,
    {
        proof {
            let p = power_of_two(i as nat);
            assert(power_of_two((i + 1) as nat) == 2 * p);
            assert(min_secs * (2 * p) == 2 * (min_secs * p)) by (nonlinear_arith);
        }
        delay = delay * 2;
        i += 1;
    }
    proof {
        lemma_power_of_two_grows(i as nat, exp as nat);
        let p = power_of_two(i as nat);
        let q = power_of_two(exp as nat);
        assert(min_secs * p <= min_secs * q) by (nonlinear_arith)
            requires
                p <= q,
        ;
        if delay == 0 {
            assert(min_secs == 0) by (nonlinear_arith)
                requires
                    min_secs * p == 0,
                    p > 0,
            ;
            assert(min_secs * q == 0) by (nonlinear_arith)
                requires
                    min_secs == 0,
            ;
        }
    }
    if delay <= max_secs as u128 {
        delay as u64
    } else {
        max_secs
    }
}

// ---- what the actor does --------------------------------------------------------------------

/// What frames from the server have the actor do, in order.
pub open spec fn server_says_all(frames: Seq<Seq<u8>>, messages: Seq<ServerMessage>) -> bool
    decreases frames.len(),
{
    if frames.len() == 0 {
        messages.len() == 0
    } else {
        ||| {
            &&& crate::soulseek::handlers::server_says(frames.last(), None)
            &&& server_says_all(frames.drop_last(), messages)
        }
        ||| {
            &&& messages.len() > 0
            &&& crate::soulseek::handlers::server_says(frames.last(), Some(messages.last()))
            &&& server_says_all(frames.drop_last(), messages.drop_last())
        }
    }
}

/// The requests that follow a login.
pub open spec fn introduction(listen_port: u32, enable_listen: bool) -> Seq<ServerMessage> {
    let always = seq![
        ServerMessage::SendMessage(Request::SharedFolders { folders: 1, files: 499 }),
        ServerMessage::SendMessage(Request::NoParent),
        ServerMessage::SendMessage(Request::SetStatus { status: 2 }),
    ];
    if enable_listen {
        always.push(ServerMessage::SendMessage(Request::SetWaitPort { port: listen_port }))
    } else {
        always
    }
}

/// The answers to the logins among `messages`: the connection for which they
/// waited will not come.
pub open spec fn refusals(messages: Seq<ServerMessage>) -> Seq<ServerAction>
    decreases messages.len(),
{
    if messages.len() == 0 {
        Seq::empty()
    } else {
        match messages.last() {
            ServerMessage::Login { response, .. } => refusals(messages.drop_last()).push(
                ServerAction::Reply { response, answer: Err(SoulseekRs::ConnectionClosed) },
            ),
            _ => refusals(messages.drop_last()),
        }
    }
}

/// The messages that are no logins.
pub open spec fn without_logins(messages: Seq<ServerMessage>) -> Seq<ServerMessage>
    decreases messages.len(),
{
    if messages.len() == 0 {
        messages
    } else if messages.last() is Login {
        without_logins(messages.drop_last())
    } else {
        without_logins(messages.drop_last()).push(messages.last())
    }
}

impl ServerModel {
    pub open spec fn is_connected(self) -> bool {
        self.connection is Connected
    }

    /// Whether there is a connection or one may still come: one is being made, the
    /// first has not been tried yet, or a lost one is going to be tried again.
    pub open spec fn may_connect(self) -> bool {
        match self.connection {
            ConnectionModel::Disconnected { attempt, last } => {
                ||| last is None
                ||| {
                    &&& self.login is LoggedIn
                    &&& self.reconnect matches ReconnectSettings::EnabledExponentialBackoff {
                        max_attempts,
                        ..
                    }
                    &&& attempt_allowed(attempt, max_attempts)
                }
            },
            _ => true,
        }
    }

    /// The logins that wait for a connection that will not come are answered with
    /// an error.
    pub open spec fn given_up(self) -> (ServerModel, Seq<ServerAction>) {
        if self.may_connect() {
            (self, Seq::empty())
        } else {
            (
                ServerModel { queued: without_logins(self.queued), ..self },
                refusals(self.queued),
            )
        }
    }

    /// Messages to the actor itself: they wait to be collected, or for a
    /// connection where there is none.
    pub open spec fn posted(self, messages: Seq<ServerMessage>) -> ServerModel {
        match self.connection {
            ConnectionModel::Connected { inbox } => ServerModel {
                connection: ConnectionModel::Connected { inbox: inbox + messages },
                ..self
            },
            _ => ServerModel { queued: self.queued + messages, ..self },
        }
    }

    /// The server has answered a login: its caller is told, and after a success
    /// the client is told and we introduce ourselves. After a failure we do not
    /// log in again.
    pub open spec fn login_answered(self, logged_in: bool) -> (ServerModel, Seq<ServerAction>) {
        let (login, reply) = match self.login {
            LoginState::Pending { username, password, response, .. } => if logged_in {
                (
                    LoginState::LoggedIn { username, password },
                    seq![ServerAction::Reply { response, answer: Ok(true) }],
                )
            } else {
                (
                    LoginState::NotAttempted,
                    seq![
                        ServerAction::Reply {
                            response,
                            answer: Err(SoulseekRs::AuthenticationFailed),
                        },
                    ],
                )
            },
            other => (other, Seq::empty()),
        };
        let answered = ServerModel { login, ..self };
        if logged_in {
            (
                answered.posted(introduction(self.listen_port, self.enable_listen)),
                reply.push(ServerAction::Event { event: ServerEvent::LoginSucceeded }),
            )
        } else {
            (answered, reply)
        }
    }

    /// What a message has the actor do. Without a connection every message waits
    /// but the one to read, and a login where no connection will come: that is
    /// answered with an error. A login takes the place of one that is under way,
    /// whose caller is told that it took too long.
    pub open spec fn handled(self, msg: ServerMessage, now: u128) -> (
        ServerModel,
        Seq<ServerAction>,
    ) {
        if !self.is_connected() && !(msg is ProcessRead) {
            match msg {
                ServerMessage::Login { response, .. } if !self.may_connect() => (
                    self,
                    seq![
                        ServerAction::Reply { response, answer: Err(SoulseekRs::ConnectionClosed) },
                    ],
                ),
                _ => (ServerModel { queued: self.queued.push(msg), ..self }, Seq::empty()),
            }
        } else {
            match msg {
                ServerMessage::ConnectToPeer(peer) => (
                    self,
                    if peer.connection_type == ConnectionType::D {
                        Seq::empty()
                    } else {
                        seq![ServerAction::Event { event: ServerEvent::ConnectToPeer(peer) }]
                    },
                ),
                ServerMessage::LoginStatus(logged_in) => self.login_answered(logged_in),
                ServerMessage::PierceFirewall(token) => (
                    self,
                    seq![
                        ServerAction::Write { request: Request::PierceFirewall { token: token.0 } },
                    ],
                ),
                ServerMessage::SendMessage(request) => (self, seq![ServerAction::Write { request }]),
                ServerMessage::GetPeerAddress(username) => (
                    self,
                    seq![ServerAction::Write { request: Request::GetPeerAddress { username } }],
                ),
                ServerMessage::GetPeerAddressResponse {
                    username,
                    host,
                    port,
                    obfuscation_type,
                    obfuscated_port,
                } => (
                    self,
                    seq![
                        ServerAction::Event {
                            event: ServerEvent::GetPeerAddressResponse {
                                username,
                                host,
                                port,
                                obfuscation_type,
                                obfuscated_port,
                            },
                        },
                    ],
                ),
                ServerMessage::ProcessRead => (self, seq![ServerAction::Read]),
                ServerMessage::Login { username, password, response } => (
                    ServerModel {
                        login: LoginState::Pending {
                            username,
                            password,
                            response,
                            deadline: (now + LOGIN_TIMEOUT) as u128,
                        },
                        ..self.posted(
                            seq![ServerMessage::SendMessage(Request::Login { username, password })],
                        )
                    },
                    match self.login {
                        LoginState::Pending { response: earlier, .. } => seq![
                            ServerAction::Reply {
                                response: earlier,
                                answer: Err(SoulseekRs::Timeout),
                            },
                        ],
                        _ => Seq::empty(),
                    },
                ),
                ServerMessage::FileSearch { token, query } => (
                    self.posted(
                        seq![
                            ServerMessage::SendMessage(
                                Request::FileSearch { token: token.0, query },
                            ),
                        ],
                    ),
                    Seq::empty(),
                ),
            }
        }
    }

    /// The connection is lost, or an attempt to connect has failed, which counts as
    /// one more. A login that is under way is answered with an error; the
    /// credentials are kept for the next attempt. Where there will be none, the
    /// logins that wait are answered too.
    pub open spec fn disconnected(self, now: u128) -> (ServerModel, Seq<ServerAction>) {
        let (down, actions) = match self.connection {
            ConnectionModel::Disconnected { attempt, .. } => (
                ServerModel {
                    connection: ConnectionModel::Disconnected {
                        attempt: next_attempt(attempt),
                        last: Some(now),
                    },
                    ..self
                },
                Seq::empty(),
            ),
            ConnectionModel::Connecting { attempt, .. } => self.lost(next_attempt(attempt), now),
            ConnectionModel::Connected { inbox } => {
                let (down, actions) = self.lost(1, now);
                (down, actions + refusals(inbox))
            },
        };
        let (after, more) = down.given_up();
        (after, actions + more)
    }

    pub open spec fn lost(self, attempt: u32, now: u128) -> (ServerModel, Seq<ServerAction>) {
        let (login, reply) = match self.login {
            LoginState::Pending { username, password, response, .. } => (
                LoginState::LoggedIn { username, password },
                seq![ServerAction::Reply { response, answer: Err(SoulseekRs::ConnectionClosed) }],
            ),
            other => (other, Seq::empty()),
        };
        (
            ServerModel {
                connection: ConnectionModel::Disconnected { attempt, last: Some(now) },
                login,
                ..self
            },
            reply.push(ServerAction::Event { event: ServerEvent::ServerDisconnected }),
        )
    }

    /// The connection stands: where we were logged in we log in again, and the
    /// messages that waited are handled before anything is read.
    pub open spec fn established(self) -> (ServerModel, Seq<ServerAction>) {
        if !(self.connection is Connecting) {
            (self, Seq::empty())
        } else {
            let again = match self.login {
                LoginState::LoggedIn { username, password } => seq![
                    ServerMessage::SendMessage(Request::Login { username, password }),
                ],
                _ => Seq::empty(),
            };
            let actions = seq![
                ServerAction::Event { event: ServerEvent::SetServerSender },
                ServerAction::RunBatch,
            ];
            (
                ServerModel {
                    connection: ConnectionModel::Connected { inbox: again },
                    queued: Seq::empty(),
                    batch: self.queued + self.batch,
                    ..self
                },
                if self.self_handle {
                    actions.push(ServerAction::Poke).push(ServerAction::Read)
                } else {
                    actions.push(ServerAction::Read)
                },
            )
        }
    }

    /// Whole frames are taken out of what has been read; what they have the actor
    /// do is collected with what waits, and is to be handled next. Without a
    /// connection it is dropped.
    pub open spec fn collected(self, messages: Seq<ServerMessage>) -> ServerModel {
        let rest = ServerModel {
            buffered: crate::soulseek::message::leftover(self.buffered),
            ..self
        };
        match self.connection {
            ConnectionModel::Connected { inbox } => ServerModel {
                connection: ConnectionModel::Connected { inbox: Seq::empty() },
                batch: inbox + messages + self.batch,
                ..rest
            },
            _ => rest,
        }
    }

    /// Whether it is time for another attempt to connect.
    pub open spec fn reconnect_due(self, now: u128) -> bool {
        &&& self.login is LoggedIn
        &&& self.connection matches ConnectionModel::Disconnected { attempt, last }
        &&& last matches Some(then)
        &&& self.reconnect matches ReconnectSettings::EnabledExponentialBackoff {
            min_delay,
            max_delay,
            max_attempts,
        }
        &&& attempt_allowed(attempt, max_attempts)
        &&& age(then, now) >= 1_000_000_000 * backoff_secs(
            min_delay@ / 1_000_000_000,
            max_delay@ / 1_000_000_000,
            attempt as nat,
        )
    }

    /// The number of the attempt under way.
    pub open spec fn current_attempt(self) -> u32 {
        match self.connection {
            ConnectionModel::Disconnected { attempt, .. } => attempt,
            ConnectionModel::Connecting { attempt, .. } => attempt,
            ConnectionModel::Connected { .. } => 0,
        }
    }

    /// The connection has been up for too long without standing.
    pub open spec fn connect_timed_out(self, now: u128) -> bool {
        self.connection matches ConnectionModel::Connecting { since, .. } && age(since, now)
            > CONNECT_TIMEOUT
    }

    /// A login that has taken too long is answered with an error, and we do not
    /// log in again.
    pub open spec fn login_timed_out(self, now: u128) -> (ServerModel, Seq<ServerAction>) {
        match self.login {
            LoginState::Pending { response, deadline, .. } => if now >= deadline {
                (
                    ServerModel { login: LoginState::NotAttempted, ..self },
                    seq![ServerAction::Reply { response, answer: Err(SoulseekRs::Timeout) }],
                )
            } else {
                (self, Seq::empty())
            },
            _ => (self, Seq::empty()),
        }
    }

    /// What is done at regular intervals: a login may time out, a connection that
    /// does not stand yet is probed or given up, one that stands is read, and one
    /// that is lost may be tried again.
    pub open spec fn ticked(self, now: u128) -> (ServerModel, Seq<ServerAction>) {
        let (m, reply) = self.login_timed_out(now);
        match m.connection {
            ConnectionModel::Connecting { .. } => if m.connect_timed_out(now) {
                let (after, more) = m.disconnected(now);
                (after, reply + more)
            } else {
                (m, reply.push(ServerAction::Probe))
            },
            ConnectionModel::Connected { .. } => (m, reply.push(ServerAction::Read)),
            ConnectionModel::Disconnected { .. } => if m.reconnect_due(now) {
                (m, reply.push(ServerAction::Dial))
            } else {
                (m, reply)
            },
        }
    }
}

/// One state comes from the other by collecting what has been read.
pub open spec fn collects(before: ServerModel, after: ServerModel) -> bool {
    exists|messages: Seq<ServerMessage>|
        #![trigger before.collected(messages)]
        server_says_all(crate::soulseek::message::frames(before.buffered), messages) && after
            == before.collected(messages)
}

/// The actor once bytes have come.
pub open spec fn with_bytes(m: ServerModel, outcome: ReadOutcome) -> ServerModel {
    match outcome {
        ReadOutcome::Bytes(bytes) => ServerModel { buffered: m.buffered + bytes@, ..m },
        _ => m,
    }
}

/// The actor once a byte has come, which is kept unless it is 0.
pub open spec fn with_byte(m: ServerModel, b: u8) -> ServerModel {
    if b != 0 {
        ServerModel { buffered: m.buffered.push(b), ..m }
    } else {
        m
    }
}

/// The number of the next attempt.
pub open spec fn next_attempt(attempt: u32) -> u32 {
    if attempt < u32::MAX {
        (attempt + 1) as u32
    } else {
        u32::MAX
    }
}

/// What reading came to.
#[derive(Debug)]
pub enum ReadOutcome {
    /// The other side has closed the connection.
    Closed,
    Bytes(Vec<u8>),
    /// Nothing has come yet.
    Nothing,
    Failed,
}

/// What probing a new connection came to.
#[derive(Debug, Clone, Copy, PartialEq, Eq, Structural)]
pub enum ProbeOutcome {
    /// A byte came, or the connection was closed, which counts as the byte 0.
    Byte(u8),
    /// Nothing has come yet.
    Nothing,
    Failed,
}

fn following(attempt: u32) -> (r: u32)
    ensures
        r == next_attempt(attempt),
{
    if attempt < u32::MAX {
        attempt + 1
    } else {
        u32::MAX
    }
}

/// Part the messages into those that are no logins and the answers to the logins.
fn split_logins(messages: Vec<ServerMessage>) -> (r: (Vec<ServerMessage>, Vec<ServerAction>))
    ensures
        r.0@ == without_logins(messages@),
        r.1@ == refusals(messages@),
{
    let mut rest = messages;
    let mut kept: Vec<ServerMessage> = Vec::new();
    let mut refused: Vec<ServerAction> = Vec::new();
    let ghost all = rest@;
    let ghost mut done: int = 0;
    assert(all.take(0) =~= Seq::<ServerMessage>::empty());
    assert(all.skip(0) =~= all);
    while rest.len() > 0
        invariant
            0 <= done <= all.len(),
            rest@ == all.skip(done),
            kept@ == without_logins(all.take(done)),
            refused@ == refusals(all.take(done)),
        decreases rest.len(),
    {
        proof {
            assert(all.take(done + 1).drop_last() =~= all.take(done));
            assert(all.take(done + 1).last() == rest@[0]);
            assert(rest@.skip(1) =~= all.skip(done + 1));
        }
        let msg = rest.remove(0);
        match &msg {
            ServerMessage::Login { response, .. } => {
                refused.push(
                    ServerAction::Reply {
                        response: *response,
                        answer: Err(SoulseekRs::ConnectionClosed),
                    },
                );
            },
            _ => {
                kept.push(msg);
            },
        }
        proof {
            done = done + 1;
        }
    }
    assert(all.take(done) =~= all);
    (kept, refused)
}

impl ServerActor {
    /// The settings are the same.
    pub open spec fn rest_as(self, other: ServerActor) -> bool {
        &&& self.address == other.address
        &&& self.tcp_keepalive == other.tcp_keepalive
    }

    /// An actor that is not connected.
    pub fn new(
        address: PeerAddress,
        listen_port: u32,
        enable_listen: bool,
        tcp_keepalive: KeepAliveSettings,
        reconnect_settings: ReconnectSettings,
    ) -> (r: Self)
        ensures
            r.address == address,
            r.tcp_keepalive == tcp_keepalive,
            r@ == (ServerModel {
                connection: ConnectionModel::Disconnected { attempt: 0, last: None },
                login: LoginState::NotAttempted,
                buffered: Seq::empty(),
                self_handle: false,
                queued: Seq::empty(),
                batch: Seq::empty(),
                listen_port,
                enable_listen,
                reconnect: reconnect_settings,
            }),
    {
        ServerActor {
            address,
            listen_port,
            enable_listen,
            connection: ServerConnection::Disconnected {
                reconnect_attempt: 0,
                last_disconnect: None,
            },
            login_state: LoginState::NotAttempted,
            reader: MessageReader::new(),
            self_handle: false,
            queued_messages: Vec::new(),
            batch: Vec::new(),
            reconnect_settings,
            tcp_keepalive,
        }
    }

    /// Where the server is.
    pub fn get_address(&self) -> (r: &PeerAddress)
        ensures
            *r == self.address,
    {
        &self.address
    }

    /// Whether there is a connection over which the actor takes messages.
    pub fn is_connected(&self) -> (r: bool)
        ensures
            r == self@.is_connected(),
    {
        matches!(self.connection, ServerConnection::Connected { .. })
    }

    /// The actor can send messages to itself.
    pub fn set_self_handle(&mut self)
        ensures
            final(self)@ == (ServerModel { self_handle: true, ..old(self)@ }),
            final(self).rest_as(*old(self)),
    {
        self.self_handle = true;
    }

    /// The client sends the actor a message, over the connection that stands.
    pub fn post(&mut self, msg: ServerMessage)
        ensures
            final(self)@ == old(self)@.posted(seq![msg]),
            final(self).rest_as(*old(self)),
    {
        let ghost before = self@;
        let ghost msg0 = msg;
        match &mut self.connection {
            ServerConnection::Connected { inbox } => {
                inbox.push(msg);
            },
            _ => {
                self.queued_messages.push(msg);
            },
        }
        assert(self@ =~= before.posted(seq![msg0]));
    }

    /// Ask the server for files.
    pub fn file_search(&mut self, token: u32, query: String)
        ensures
            final(self)@ == old(self)@.posted(
                seq![ServerMessage::SendMessage(Request::FileSearch { token, query })],
            ),
            final(self).rest_as(*old(self)),
    {
        self.post(ServerMessage::SendMessage(Request::FileSearch { token, query }));
    }

    /// Take note of the answer to a login.
    fn answer_login(&mut self, logged_in: bool) -> (r: Vec<ServerAction>)
        ensures
            final(self)@ == old(self)@.login_answered(logged_in).0,
            r@ == old(self)@.login_answered(logged_in).1,
            final(self).rest_as(*old(self)),
    {
        let ghost before = self@;
        let mut actions: Vec<ServerAction> = Vec::new();
        let mut state = LoginState::NotAttempted;
        core::mem::swap(&mut state, &mut self.login_state);
        match state {
            LoginState::Pending { username, password, response, .. } => {
                if logged_in {
                    actions.push(ServerAction::Reply { response, answer: Ok(true) });
                    self.login_state = LoginState::LoggedIn { username, password };
                } else {
                    actions.push(
                        ServerAction::Reply {
                            response,
                            answer: Err(SoulseekRs::AuthenticationFailed),
                        },
                    );
                }
            },
            other => {
                self.login_state = other;
            },
        }
        if logged_in {
            let ghost answered = self@;
            actions.push(ServerAction::Event { event: ServerEvent::LoginSucceeded });
            self.post(ServerMessage::SendMessage(Request::SharedFolders { folders: 1, files: 499 }));
            self.post(ServerMessage::SendMessage(Request::NoParent));
            self.post(ServerMessage::SendMessage(Request::SetStatus { status: 2 }));
            if self.enable_listen {
                let port: u32 = self.listen_port;
                self.post(ServerMessage::SendMessage(Request::SetWaitPort { port }));
            }
            assert(self@ =~= answered.posted(
                introduction(before.listen_port, before.enable_listen),
            ));
        }
        assert(self@ =~= before.login_answered(logged_in).0);
        assert(actions@ =~= before.login_answered(logged_in).1);
        actions
    }

    /// Handle a message.
    pub fn handle_message(&mut self, msg: ServerMessage, now: u128) -> (r: Vec<ServerAction>)
        requires
            now <= crate::time::MAX_NANOS,
        ensures
            final(self)@ == old(self)@.handled(msg, now).0,
            r@ == old(self)@.handled(msg, now).1,
            final(self).rest_as(*old(self)),
    {
        let ghost before = self@;
        let ghost msg0 = msg;
        let mut actions: Vec<ServerAction> = Vec::new();
        if !self.is_connected() && !matches!(msg, ServerMessage::ProcessRead) {
            match &msg {
                ServerMessage::Login { response, .. } => {
                    if !self.connection_may_come() {
                        actions.push(
                            ServerAction::Reply {
                                response: *response,
                                answer: Err(SoulseekRs::ConnectionClosed),
                            },
                        );
                        assert(actions@ =~= before.handled(msg0, now).1);
                        return actions;
                    }
                },
                _ => {},
            }
            self.queued_messages.push(msg);
        } else {
            match msg {
                ServerMessage::ConnectToPeer(peer) => {
                    if peer.connection_type != ConnectionType::D {
                        actions.push(
                            ServerAction::Event { event: ServerEvent::ConnectToPeer(peer) },
                        );
                    }
                },
                ServerMessage::LoginStatus(logged_in) => {
                    actions = self.answer_login(logged_in);
                },
                ServerMessage::PierceFirewall(token) => {
                    actions.push(
                        ServerAction::Write { request: Request::PierceFirewall { token: token.0 } },
                    );
                },
                ServerMessage::SendMessage(request) => {
                    actions.push(ServerAction::Write { request });
                },
                ServerMessage::GetPeerAddress(username) => {
                    actions.push(
                        ServerAction::Write { request: Request::GetPeerAddress { username } },
                    );
                },
                ServerMessage::GetPeerAddressResponse {
                    username,
                    host,
                    port,
                    obfuscation_type,
                    obfuscated_port,
                } => {
                    actions.push(
                        ServerAction::Event {
                            event: ServerEvent::GetPeerAddressResponse {
                                username,
                                host,
                                port,
                                obfuscation_type,
                                obfuscated_port,
                            },
                        },
                    );
                },
                ServerMessage::ProcessRead => {
                    actions.push(ServerAction::Read);
                },
                ServerMessage::Login { username, password, response } => {
                    self.post(
                        ServerMessage::SendMessage(
                            Request::Login {
                                username: username.clone(),
                                password: password.clone(),
                            },
                        ),
                    );
                    match &self.login_state {
                        LoginState::Pending { response: earlier, .. } => {
                            actions.push(
                                ServerAction::Reply {
                                    response: *earlier,
                                    answer: Err(SoulseekRs::Timeout),
                                },
                            );
                        },
                        _ => {},
                    }
                    self.login_state = LoginState::Pending {
                        username,
                        password,
                        response,
                        deadline: now + LOGIN_TIMEOUT,
                    };
                },
                ServerMessage::FileSearch { token, query } => {
                    self.file_search(token.0, query);
                },
            }
        }
        assert(self@ =~= before.handled(msg0, now).0);
        assert(actions@ =~= before.handled(msg0, now).1);
        actions
    }

    /// Handle the next message that was collected; `None` where there is none.
    pub fn next_in_batch(&mut self, now: u128) -> (r: Option<Vec<ServerAction>>)
        requires
            now <= crate::time::MAX_NANOS,
        ensures
            final(self).rest_as(*old(self)),
            match r {
                Some(actions) => {
                    let rest = ServerModel { batch: old(self)@.batch.skip(1), ..old(self)@ };
                    &&& old(self)@.batch.len() > 0
                    &&& final(self)@ == rest.handled(old(self)@.batch[0], now).0
                    &&& actions@ == rest.handled(old(self)@.batch[0], now).1
                },
                None => old(self)@.batch.len() == 0 && final(self)@ == old(self)@,
            },
    {
        if self.batch.len() == 0 {
            return None;
        }
        let ghost before = self@;
        let msg = self.batch.remove(0);
        assert(self@ =~= ServerModel { batch: before.batch.skip(1), ..before });
        Some(self.handle_message(msg, now))
    }

    /// The connection is lost, or could not be made.
    pub fn disconnect(&mut self, now: u128) -> (r: Vec<ServerAction>)
        ensures
            final(self)@ == old(self)@.disconnected(now).0,
            r@ == old(self)@.disconnected(now).1,
            final(self).rest_as(*old(self)),
    {
        let ghost before = self@;
        let mut actions: Vec<ServerAction> = Vec::new();
        let mut connection = ServerConnection::Disconnected {
            reconnect_attempt: 0,
            last_disconnect: None,
        };
        core::mem::swap(&mut connection, &mut self.connection);
        let mut inbox: Vec<ServerMessage> = Vec::new();
        let mut was_down: bool = false;
        let attempt: u32 = match connection {
            ServerConnection::Disconnected { reconnect_attempt, .. } => {
                was_down = true;
                following(reconnect_attempt)
            },
            ServerConnection::Connecting { reconnect_attempt, .. } => following(reconnect_attempt),
            ServerConnection::Connected { inbox: waiting } => {
                inbox = waiting;
                1
            },
        };
        self.connection = ServerConnection::Disconnected {
            reconnect_attempt: attempt,
            last_disconnect: Some(now),
        };
        if !was_down {
            let mut state = LoginState::NotAttempted;
            core::mem::swap(&mut state, &mut self.login_state);
            match state {
                LoginState::Pending { username, password, response, .. } => {
                    actions.push(
                        ServerAction::Reply { response, answer: Err(SoulseekRs::ConnectionClosed) },
                    );
                    self.login_state = LoginState::LoggedIn { username, password };
                },
                other => {
                    self.login_state = other;
                },
            }
            actions.push(ServerAction::Event { event: ServerEvent::ServerDisconnected });
            let (_, mut refused) = split_logins(inbox);
            actions.append(&mut refused);
        }
        let ghost down = self@;
        let ghost so_far = actions@;
        proof {
            if before.connection is Connected {
                assert(so_far =~= before.lost(1, now).1 + refusals(before.connection->inbox));
            } else if before.connection is Connecting {
                assert(refusals(Seq::<ServerMessage>::empty()) =~= Seq::empty());
                let attempt = before.connection->Connecting_attempt;
                assert(so_far =~= before.lost(next_attempt(attempt), now).1);
            }
        }
        if !self.connection_may_come() {
            let mut waiting: Vec<ServerMessage> = Vec::new();
            core::mem::swap(&mut waiting, &mut self.queued_messages);
            let (kept, mut refused) = split_logins(waiting);
            self.queued_messages = kept;
            actions.append(&mut refused);
        }
        assert(self@ =~= down.given_up().0);
        assert(actions@ =~= so_far + down.given_up().1);
        assert(self@ =~= before.disconnected(now).0);
        assert(actions@ =~= before.disconnected(now).1);
        actions
    }

    fn connection_may_come(&self) -> (r: bool)
        ensures
            r == self@.may_connect(),
    {
        match &self.connection {
            ServerConnection::Disconnected { reconnect_attempt, last_disconnect } => {
                if last_disconnect.is_none() {
                    return true;
                }
                if !matches!(self.login_state, LoginState::LoggedIn { .. }) {
                    return false;
                }
                match &self.reconnect_settings {
                    ReconnectSettings::EnabledExponentialBackoff { max_attempts, .. } => {
                        match max_attempts {
                            Some(max) => *reconnect_attempt <= *max,
                            None => true,
                        }
                    },
                    _ => false,
                }
            },
            _ => true,
        }
    }

    /// The connection stands.
    pub fn on_connection_established(&mut self) -> (r: Vec<ServerAction>)
        ensures
            final(self)@ == old(self)@.established().0,
            r@ == old(self)@.established().1,
            final(self).rest_as(*old(self)),
    {
        let ghost before = self@;
        let mut actions: Vec<ServerAction> = Vec::new();
        if !matches!(self.connection, ServerConnection::Connecting { .. }) {
            return actions;
        }
        let mut inbox: Vec<ServerMessage> = Vec::new();
        match &self.login_state {
            LoginState::LoggedIn { username, password } => {
                inbox.push(
                    ServerMessage::SendMessage(
                        Request::Login { username: username.clone(), password: password.clone() },
                    ),
                );
            },
            _ => {},
        }
        self.connection = ServerConnection::Connected { inbox };
        actions.push(ServerAction::Event { event: ServerEvent::SetServerSender });
        let mut waiting: Vec<ServerMessage> = Vec::new();
        core::mem::swap(&mut waiting, &mut self.queued_messages);
        waiting.append(&mut self.batch);
        self.batch = waiting;
        actions.push(ServerAction::RunBatch);
        if self.self_handle {
            actions.push(ServerAction::Poke);
        }
        actions.push(ServerAction::Read);
        assert(self@ =~= before.established().0);
        assert(actions@ =~= before.established().1);
        actions
    }

    /// Take whole frames out of what has been read, and collect what they have the
    /// actor do.
    pub fn collect(&mut self)
        ensures
            final(self).rest_as(*old(self)),
            collects(old(self)@, final(self)@),
    {
        let ghost before = self@;
        let ghost all = crate::soulseek::message::frames(before.buffered);
        let ghost mut done: Seq<Seq<u8>> = Seq::empty();
        let mut messages: Vec<ServerMessage> = Vec::new();
        assert(done + all =~= all);
        let mut more: bool = true;
        while more
            invariant
                self@ == (ServerModel { buffered: self@.buffered, ..before }),
                self.rest_as(*old(self)),
                done + crate::soulseek::message::frames(self@.buffered) == all,
                crate::soulseek::message::leftover(self@.buffered)
                    == crate::soulseek::message::leftover(before.buffered),
                server_says_all(done, messages@),
                !more ==> crate::soulseek::message::first_frame(self@.buffered) is None,
            decreases
                    self@.buffered.len(),
                    if more {
                        1int
                    } else {
                        0int
                    },
        {
            let ghost stream = self@.buffered;
            let ghost known = messages@;
            match self.reader.extract_message() {
                Some(mut message) => {
                    let ghost frame = message@.bytes;
                    proof {
                        assert(frame.len() >= 4);
                        assert(crate::soulseek::message::frames(stream) == seq![frame]
                            + crate::soulseek::message::frames(
                            stream.skip(frame.len() as int),
                        ));
                        assert(done.push(frame) + crate::soulseek::message::frames(
                            self@.buffered,
                        ) =~= all);
                        assert(done.push(frame).drop_last() =~= done);
                    }
                    match dispatch_server(&mut message) {
                        Some(m) => {
                            messages.push(m);
                            assert(messages@.drop_last() =~= known);
                        },
                        None => {},
                    }
                    proof {
                        done = done.push(frame);
                    }
                },
                None => {
                    more = false;
                },
            }
        }
        proof {
            assert(crate::soulseek::message::frames(self@.buffered) =~= Seq::empty());
            assert(done =~= all);
        }
        let ghost found = messages@;
        let mut posted: Vec<ServerMessage> = Vec::new();
        match &mut self.connection {
            ServerConnection::Connected { inbox } => {
                core::mem::swap(&mut posted, inbox);
                posted.append(&mut messages);
                posted.append(&mut self.batch);
                self.batch = posted;
            },
            _ => {},
        }
        assert(self@ =~= before.collected(found));
    }

    /// Collect what has been read already, if anything has; whether it has.
    pub fn collect_buffered(&mut self) -> (r: bool)
        ensures
            final(self).rest_as(*old(self)),
            r == (old(self)@.buffered.len() > 0),
            r ==> collects(old(self)@, final(self)@),
            !r ==> final(self)@ == old(self)@,
    {
        if self.reader.buffer_len() > 0 {
            self.collect();
            true
        } else {
            false
        }
    }

    /// A read has ended. What came is collected, to be handled next; a read that
    /// failed ends the connection.
    pub fn on_read(&mut self, outcome: ReadOutcome, now: u128) -> (r: Vec<ServerAction>)
        ensures
            final(self).rest_as(*old(self)),
            match outcome {
                ReadOutcome::Closed => final(self)@ == old(self)@ && r@.len() == 0,
                ReadOutcome::Failed => {
                    &&& final(self)@ == old(self)@.disconnected(now).0
                    &&& r@ == old(self)@.disconnected(now).1
                },
                _ => {
                    &&& collects(with_bytes(old(self)@, outcome), final(self)@)
                    &&& r@ == seq![ServerAction::RunBatch]
                },
            },
    {
        let ghost before = self@;
        let ghost outcome0 = outcome;
        let mut actions: Vec<ServerAction> = Vec::new();
        match outcome {
            ReadOutcome::Closed => {},
            ReadOutcome::Failed => {
                actions = self.disconnect(now);
            },
            ReadOutcome::Bytes(bytes) => {
                self.reader.push_bytes(&bytes);
                assert(self@ =~= with_bytes(before, outcome0));
                self.collect();
                actions.push(ServerAction::RunBatch);
                assert(actions@ =~= seq![ServerAction::RunBatch]);
            },
            ReadOutcome::Nothing => {
                self.collect();
                actions.push(ServerAction::RunBatch);
                assert(actions@ =~= seq![ServerAction::RunBatch]);
            },
        }
        actions
    }

    /// An attempt to connect has ended.
    pub fn on_dialed(&mut self, connected: bool, now: u128) -> (r: Vec<ServerAction>)
        ensures
            final(self).rest_as(*old(self)),
            if connected {
                &&& final(self)@ == (ServerModel {
                    connection: ConnectionModel::Connecting {
                        since: now,
                        attempt: old(self)@.current_attempt(),
                    },
                    ..old(self)@
                })
                &&& r@.len() == 0
            } else {
                &&& final(self)@ == old(self)@.disconnected(now).0
                &&& r@ == old(self)@.disconnected(now).1
            },
    {
        if connected {
            let attempt: u32 = self.current_reconnect_attempt();
            self.connection = ServerConnection::Connecting {
                since: now,
                reconnect_attempt: attempt,
            };
            Vec::new()
        } else {
            self.disconnect(now)
        }
    }

    fn current_reconnect_attempt(&self) -> (r: u32)
        ensures
            r == self@.current_attempt(),
    {
        match &self.connection {
            ServerConnection::Disconnected { reconnect_attempt, .. } => *reconnect_attempt,
            ServerConnection::Connecting { reconnect_attempt, .. } => *reconnect_attempt,
            ServerConnection::Connected { .. } => 0,
        }
    }

    /// A new connection has been probed. A byte that came is kept unless it is 0.
    pub fn on_probe(&mut self, outcome: ProbeOutcome, now: u128) -> (r: Vec<ServerAction>)
        ensures
            final(self).rest_as(*old(self)),
            match outcome {
                ProbeOutcome::Failed => {
                    &&& final(self)@ == old(self)@.disconnected(now).0
                    &&& r@ == old(self)@.disconnected(now).1
                },
                ProbeOutcome::Nothing => {
                    &&& final(self)@ == old(self)@.established().0
                    &&& r@ == old(self)@.established().1
                },
                ProbeOutcome::Byte(b) => {
                    &&& final(self)@ == with_byte(old(self)@, b).established().0
                    &&& r@ == with_byte(old(self)@, b).established().1
                },
            },
    {
        let ghost before = self@;
        match outcome {
            ProbeOutcome::Failed => self.disconnect(now),
            ProbeOutcome::Nothing => self.on_connection_established(),
            ProbeOutcome::Byte(b) => {
                if b != 0 {
                    let mut one: Vec<u8> = Vec::new();
                    one.push(b);
                    self.reader.push_bytes(&one);
                    assert(self@.buffered =~= before.buffered.push(b));
                }
                assert(self@ =~= with_byte(before, b));
                self.on_connection_established()
            },
        }
    }

    fn is_reconnect_due(&self, now: u128) -> (r: bool)
        ensures
            r == self@.reconnect_due(now),
    {
        if !matches!(self.login_state, LoginState::LoggedIn { .. }) {
            return false;
        }
        match &self.connection {
            ServerConnection::Disconnected { reconnect_attempt, last_disconnect } => {
                match (last_disconnect, &self.reconnect_settings) {
                    (
                        Some(then),
                        ReconnectSettings::EnabledExponentialBackoff {
                            min_delay,
                            max_delay,
                            max_attempts,
                        },
                    ) => {
                        match max_attempts {
                            Some(max) => {
                                if *reconnect_attempt > *max {
                                    return false;
                                }
                            },
                            None => {},
                        }
                        let wait: u64 = backoff(
                            min_delay.as_secs(),
                            max_delay.as_secs(),
                            *reconnect_attempt,
                        );
                        elapsed(*then, now) >= 1_000_000_000 * (wait as u128)
                    },
                    _ => false,
                }
            },
            _ => false,
        }
    }

    /// What is done at regular intervals.
    pub fn tick(&mut self, now: u128) -> (r: Vec<ServerAction>)
        ensures
            final(self)@ == old(self)@.ticked(now).0,
            r@ == old(self)@.ticked(now).1,
            final(self).rest_as(*old(self)),
    {
        let ghost before = self@;
        let mut actions: Vec<ServerAction> = Vec::new();
        let late: Option<LoginChannel> = match &self.login_state {
            LoginState::Pending { response, deadline, .. } => {
                if now >= *deadline {
                    Some(*response)
                } else {
                    None
                }
            },
            _ => None,
        };
        match late {
            Some(response) => {
                actions.push(ServerAction::Reply { response, answer: Err(SoulseekRs::Timeout) });
                self.login_state = LoginState::NotAttempted;
            },
            None => {},
        }
        assert(self@ =~= before.login_timed_out(now).0);
        assert(actions@ =~= before.login_timed_out(now).1);
        let since: Option<u128> = match &self.connection {
            ServerConnection::Connecting { since, .. } => Some(*since),
            _ => None,
        };
        match since {
            Some(since) => {
                if elapsed(since, now) > CONNECT_TIMEOUT {
                    let mut more = self.disconnect(now);
                    actions.append(&mut more);
                } else {
                    actions.push(ServerAction::Probe);
                }
            },
            None => {
                if self.is_connected() {
                    actions.push(ServerAction::Read);
                } else if self.is_reconnect_due(now) {
                    actions.push(ServerAction::Dial);
                }
            },
        }
        assert(self@ =~= before.ticked(now).0);
        assert(actions@ =~= before.ticked(now).1);
        actions
    }

    /// The actor starts.
    pub fn on_start(&mut self) -> (r: Vec<ServerAction>)
        ensures
            final(self).rest_as(*old(self)),
            if old(self)@.connection is Disconnected {
                &&& final(self)@ == old(self)@
                &&& r@ == seq![ServerAction::Dial]
            } else {
                &&& final(self)@ == old(self)@.established().0
                &&& r@ == old(self)@.established().1
            },
    {
        if matches!(self.connection, ServerConnection::Disconnected { .. }) {
            let mut actions: Vec<ServerAction> = Vec::new();
            actions.push(ServerAction::Dial);
            assert(actions@ =~= seq![ServerAction::Dial]);
            actions
        } else {
            self.on_connection_established()
        }
    }

    /// The actor stops, and its channels end with it: a caller that still waits for its
    /// login learns that from its channel.
    pub fn on_stop(&mut self)
        ensures
            final(self)@ == (ServerModel {
                connection: ConnectionModel::Disconnected { attempt: 0, last: None },
                ..old(self)@
            }),
            final(self).rest_as(*old(self)),
    {
        self.connection = ServerConnection::Disconnected {
            reconnect_attempt: 0,
            last_disconnect: None,
        };
    }
}

// ---- laws -------------------------------------------------------------------------------------

/// After a login succeeded, a lost connection is tried again once the first delay
/// has passed, and when it stands the first thing sent is the same login.
pub proof fn lemma_reconnects_after_loss(m: ServerModel, lost: u128, now: u128, since: u128)
    requires
        m.is_connected(),
        m.login is LoggedIn,
        m.reconnect matches ReconnectSettings::EnabledExponentialBackoff {
            min_delay,
            max_delay,
            max_attempts,
        } && attempt_allowed(1, max_attempts) && now >= lost + 1_000_000_000 * backoff_secs(
            min_delay@ / 1_000_000_000,
            max_delay@ / 1_000_000_000,
            1,
        ),
    ensures
        ({
            let down = m.disconnected(lost).0;
            let dialed = ServerModel {
                connection: ConnectionModel::Connecting { since, attempt: down.current_attempt() },
                ..down
            };
            &&& down.login == m.login
            &&& down.reconnect_due(now)
            &&& dialed.established().0.connection matches ConnectionModel::Connected { inbox }
            &&& inbox == seq![
                ServerMessage::SendMessage(
                    Request::Login {
                        username: m.login->LoggedIn_username,
                        password: m.login->LoggedIn_password,
                    },
                ),
            ]
        }),
{
}

/// A login under way when the connection is lost is answered with an error, and
/// is tried again like one that had succeeded.
pub proof fn lemma_login_under_way_is_kept(m: ServerModel, now: u128)
    requires
        !(m.connection is Disconnected),
        m.login is Pending,
    ensures
        ({
            let (down, actions) = m.disconnected(now);
            &&& actions[0] == (ServerAction::Reply {
                response: m.login->response,
                answer: Err(SoulseekRs::ConnectionClosed),
            })
            &&& down.login == (LoginState::LoggedIn {
                username: m.login->Pending_username,
                password: m.login->Pending_password,
            })
        }),
{
}

/// After a login that was refused or took too long we do not connect again.
pub proof fn lemma_refused_login_is_final(m: ServerModel, at: u128, lost: u128, now: u128)
    requires
        m.is_connected(),
        m.login is Pending,
    ensures
        !m.handled(ServerMessage::LoginStatus(false), at).0.disconnected(lost).0.reconnect_due(
            now,
        ),
        at >= m.login->deadline ==> !m.login_timed_out(at).0.disconnected(lost).0.reconnect_due(
            now,
        ),
{
}

/// Messages that come while there is no connection are handled, in their order,
/// once it stands.
pub proof fn lemma_nothing_lost_while_down(
    m: ServerModel,
    first: ServerMessage,
    second: ServerMessage,
    now: u128,
)
    requires
        m.connection is Connecting,
        !(first is ProcessRead),
        !(second is ProcessRead),
    ensures
        ({
            let up = m.handled(first, now).0.handled(second, now).0.established().0;
            let n = m.queued.len() as int;
            &&& up.is_connected()
            &&& up.queued.len() == 0
            &&& up.batch.take(n) == m.queued
            &&& up.batch[n] == first
            &&& up.batch[n + 1] == second
        }),
{
    let up = m.handled(first, now).0.handled(second, now).0.established().0;
    assert(up.batch.take(m.queued.len() as int) =~= m.queued);
}

/// After as many attempts as are allowed there is never another.
pub proof fn lemma_gives_up(m: ServerModel, failed: u128, now: u128)
    requires
        m.connection is Disconnected,
        m.current_attempt() < u32::MAX,
        m.reconnect is EnabledExponentialBackoff,
        m.reconnect->max_attempts == Some(m.current_attempt()),
    ensures
        !m.disconnected(failed).0.reconnect_due(now),
{
}

/// The login that answers on `channel` is among `messages`.
pub open spec fn login_among(messages: Seq<ServerMessage>, channel: LoginChannel) -> bool {
    exists|i: int|
        0 <= i < messages.len() && (#[trigger] messages[i] matches ServerMessage::Login {
            response,
            ..
        } && response == channel)
}

/// The login that answers on `channel` is answered by one of the actions.
pub open spec fn login_answered_by(actions: Seq<ServerAction>, channel: LoginChannel) -> bool {
    exists|i: int|
        0 <= i < actions.len() && (#[trigger] actions[i] matches ServerAction::Reply {
            response,
            ..
        } && response == channel)
}

impl ServerModel {
    /// The login that answers on `channel` waits for something that comes: for a
    /// connection that may still stand, for its turn among the messages collected,
    /// or, having been sent, for its answer or its deadline.
    pub open spec fn login_waits(self, channel: LoginChannel) -> bool {
        ||| self.may_connect() && login_among(self.queued, channel)
        ||| login_among(self.batch, channel)
        ||| self.connection matches ConnectionModel::Connected { inbox } && login_among(
            inbox,
            channel,
        )
        ||| self.login matches LoginState::Pending { response, .. } && response == channel
    }
}

proof fn lemma_refusals(messages: Seq<ServerMessage>, channel: LoginChannel)
    ensures
        login_among(messages, channel) ==> login_answered_by(refusals(messages), channel),
    decreases messages.len(),
{
    if login_among(messages, channel) {
        let i = choose|i: int|
            0 <= i < messages.len() && (#[trigger] messages[i] matches ServerMessage::Login {
                response,
                ..
            } && response == channel);
        let before = refusals(messages.drop_last());
        let all = refusals(messages);
        if i == messages.len() - 1 {
            assert(all[all.len() - 1] matches ServerAction::Reply { response, .. } && response
                == channel);
        } else {
            assert(messages.drop_last()[i] == messages[i]);
            lemma_refusals(messages.drop_last(), channel);
            let k = choose|k: int|
                0 <= k < before.len() && (#[trigger] before[k] matches ServerAction::Reply {
                    response,
                    ..
                } && response == channel);
            assert(all[k] == before[k]);
        }
    }
}

proof fn lemma_among_in_sum(
    before: Seq<ServerMessage>,
    messages: Seq<ServerMessage>,
    after: Seq<ServerMessage>,
    channel: LoginChannel,
)
    requires
        login_among(messages, channel),
    ensures
        login_among(before + messages + after, channel),
{
    let i = choose|i: int|
        0 <= i < messages.len() && (#[trigger] messages[i] matches ServerMessage::Login {
            response,
            ..
        } && response == channel);
    let all = before + messages + after;
    assert(all[before.len() + i] == messages[i]);
}

proof fn lemma_answered_in_sum(
    before: Seq<ServerAction>,
    actions: Seq<ServerAction>,
    after: Seq<ServerAction>,
    channel: LoginChannel,
)
    requires
        login_answered_by(actions, channel),
    ensures
        login_answered_by(before + actions + after, channel),
{
    let i = choose|i: int|
        0 <= i < actions.len() && (#[trigger] actions[i] matches ServerAction::Reply {
            response,
            ..
        } && response == channel);
    let all = before + actions + after;
    assert(all[before.len() + i] == actions[i]);
}

/// No login is forgotten when the connection is lost or an attempt to connect
/// fails: it goes on waiting for something that comes, or is answered at once.
pub proof fn lemma_disconnecting_answers_logins(m: ServerModel, now: u128, channel: LoginChannel)
    requires
        m.login_waits(channel),
    ensures
        m.disconnected(now).0.login_waits(channel) || login_answered_by(
            m.disconnected(now).1,
            channel,
        ),
{
    let (after, actions) = m.disconnected(now);
    let none = Seq::<ServerAction>::empty();
    let (down, first) = match m.connection {
        ConnectionModel::Disconnected { attempt, .. } => (
            ServerModel {
                connection: ConnectionModel::Disconnected {
                    attempt: next_attempt(attempt),
                    last: Some(now),
                },
                ..m
            },
            none,
        ),
        ConnectionModel::Connecting { attempt, .. } => m.lost(next_attempt(attempt), now),
        ConnectionModel::Connected { inbox } => (
            m.lost(1, now).0,
            m.lost(1, now).1 + refusals(inbox),
        ),
    };
    let more = down.given_up().1;
    assert(actions =~= first + more);
    if login_among(m.queued, channel) {
        lemma_refusals(m.queued, channel);
        if !down.may_connect() {
            lemma_answered_in_sum(first, more, none, channel);
            assert(first + more + none =~= actions);
        }
    } else if !login_among(m.batch, channel) {
        if m.login matches LoginState::Pending { response, .. } && response == channel {
            if !(m.connection is Disconnected) {
                assert(actions[0] matches ServerAction::Reply { response, .. } && response
                    == channel);
            }
        } else {
            let inbox = m.connection->inbox;
            lemma_refusals(inbox, channel);
            lemma_answered_in_sum(m.lost(1, now).1, refusals(inbox), more, channel);
        }
    }
}

/// No login is forgotten by a message: neither one that waits nor the one that the
/// message itself is. It waits for something that comes, or is answered at once.
pub proof fn lemma_messages_keep_logins(
    m: ServerModel,
    msg: ServerMessage,
    now: u128,
    channel: LoginChannel,
)
    requires
        m.login_waits(channel) || login_among(seq![msg], channel),
    ensures
        m.handled(msg, now).0.login_waits(channel) || login_answered_by(
            m.handled(msg, now).1,
            channel,
        ),
{
    let (after, actions) = m.handled(msg, now);
    let none = Seq::<ServerMessage>::empty();
    if !m.is_connected() && !(msg is ProcessRead) {
        if msg is Login && !m.may_connect() {
            if login_among(seq![msg], channel) {
                assert(actions[0] matches ServerAction::Reply { response, .. } && response
                    == channel);
            }
        } else {
            assert(after.queued =~= m.queued + seq![msg] + none);
            assert(after.queued =~= none + m.queued + seq![msg]);
            if login_among(seq![msg], channel) {
                lemma_among_in_sum(m.queued, seq![msg], none, channel);
            } else if login_among(m.queued, channel) {
                lemma_among_in_sum(none, m.queued, seq![msg], channel);
            }
        }
    } else {
        if login_among(seq![msg], channel) {
            assert(after.login matches LoginState::Pending { response, .. } && response == channel);
        } else if m.login matches LoginState::Pending { response, .. } && response == channel {
            if msg is Login || msg is LoginStatus {
                assert(actions[0] matches ServerAction::Reply { response, .. } && response
                    == channel);
            }
        } else if m.connection is Connected && login_among(m.connection->inbox, channel) {
            let inbox = m.connection->inbox;
            let grown = after.connection->inbox;
            assert(grown =~= none + inbox + grown.skip(inbox.len() as int));
            lemma_among_in_sum(none, inbox, grown.skip(inbox.len() as int), channel);
        }
    }
}

/// No login is forgotten by the other steps: when a connection is being made or
/// stands, when what has come is collected, and when time passes.
pub proof fn lemma_steps_keep_logins(
    m: ServerModel,
    messages: Seq<ServerMessage>,
    since: u128,
    now: u128,
    channel: LoginChannel,
)
    requires
        m.login_waits(channel),
    ensures
        (ServerModel {
            connection: ConnectionModel::Connecting { since, attempt: m.current_attempt() },
            ..m
        }).login_waits(channel) || m.is_connected(),
        m.established().0.login_waits(channel),
        m.collected(messages).login_waits(channel),
        m.ticked(now).0.login_waits(channel) || login_answered_by(m.ticked(now).1, channel),
        m.batch.len() > 0 ==> {
            let rest = ServerModel { batch: m.batch.skip(1), ..m };
            rest.login_waits(channel) || login_among(seq![m.batch[0]], channel)
        },
{
    let none = Seq::<ServerMessage>::empty();
    if login_among(m.queued, channel) {
        lemma_among_in_sum(none, m.queued, m.batch, channel);
        assert(none + m.queued + m.batch =~= m.queued + m.batch);
    }
    if login_among(m.batch, channel) {
        lemma_among_in_sum(m.queued, m.batch, none, channel);
        assert(m.queued + m.batch + none =~= m.queued + m.batch);
        if m.connection is Connected {
            let came = m.connection->inbox + messages;
            lemma_among_in_sum(came, m.batch, none, channel);
            assert(came + m.batch + none =~= came + m.batch);
        }
        let i = choose|i: int|
            0 <= i < m.batch.len() && (#[trigger] m.batch[i] matches ServerMessage::Login {
                response,
                ..
            } && response == channel);
        if i == 0 {
            assert(seq![m.batch[0]][0] == m.batch[i]);
        } else {
            assert(m.batch.skip(1)[i - 1] == m.batch[i]);
        }
    }
    if m.connection is Connected && login_among(m.connection->inbox, channel) {
        lemma_among_in_sum(none, m.connection->inbox, messages + m.batch, channel);
        assert(none + m.connection->inbox + (messages + m.batch) =~= m.connection->inbox + messages
            + m.batch);
    }
    let (timed, reply) = m.login_timed_out(now);
    if m.login matches LoginState::Pending { response, deadline, .. } && response == channel && now
        >= deadline {
        assert(reply[0] matches ServerAction::Reply { response, .. } && response == channel);
        assert(m.ticked(now).1[0] == reply[0]);
    } else {
        assert(timed.login_waits(channel));
        if timed.connect_timed_out(now) {
            lemma_disconnecting_answers_logins(timed, now, channel);
            let more = timed.disconnected(now).1;
            if login_answered_by(more, channel) {
                lemma_answered_in_sum(reply, more, Seq::empty(), channel);
                assert(reply + more + Seq::<ServerAction>::empty() =~= m.ticked(now).1);
            }
        }
    }
}

} // verus!
