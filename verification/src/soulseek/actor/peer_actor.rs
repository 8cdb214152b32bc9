//! The actor that owns the connection to a peer.
use vstd::prelude::*;

use super::peer_message::PeerMessage;
use crate::soulseek::error::SoulseekRs;
use crate::soulseek::handlers::dispatch_peer;
use crate::soulseek::message::MessageReader;
use crate::soulseek::path::SoulseekPath;
use crate::soulseek::peer::Peer;
use crate::soulseek::request::Request;
use crate::soulseek::types::{SearchResult, Transfer};

verus! {

/// How the connection stands. Times are in nanoseconds of the actor's clock.
#[derive(Debug, Clone, Copy, PartialEq, Eq, Structural)]
pub enum ConnectionState {
    Disconnected,
    Connecting { since: u128 },
    Connected,
}

/// The actor.
#[derive(Debug)]
pub struct PeerActor {
    pub peer: Peer,
    /// Whether there is a stream.
    pub stream: bool,
    pub connection_state: ConnectionState,
    pub reader: MessageReader,
    /// Whether the actor can send messages to itself.
    pub self_handle: bool,
    /// Whether frames are understood yet.
    pub dispatching: bool,
    /// Messages that came while the connection did not stand.
    pub queued_messages: Vec<PeerMessage>,
    /// Messages that were collected and are to be handled next.
    pub batch: Vec<PeerMessage>,
}

/// An actor as a value.
#[verifier::ext_equal]
pub struct PeerModel {
    pub peer: Peer,
    pub stream: bool,
    pub state: ConnectionState,
    pub buffered: Seq<u8>,
    pub self_handle: bool,
    pub dispatching: bool,
    pub queued: Seq<PeerMessage>,
    pub batch: Seq<PeerMessage>,
}

impl View for PeerActor {
    type V = PeerModel;

    open spec fn view(&self) -> PeerModel {
        PeerModel {
            peer: self.peer,
            stream: self.stream,
            state: self.connection_state,
            buffered: self.reader@,
            self_handle: self.self_handle,
            dispatching: self.dispatching,
            queued: self.queued_messages@,
            batch: self.batch@,
        }
    }
}

/// What the actor has done by others, in order.
#[derive(Debug)]
pub enum PeerAction {
    /// Connect; [`PeerActor::on_dialed`] is told the outcome.
    Dial,
    /// See whether the new connection stands; [`PeerActor::on_probe`] is told the
    /// outcome.
    Probe,
    /// Write a request without its length; [`PeerActor::on_handshake`] is told the
    /// outcome.
    Handshake { request: Request },
    /// Read what has come; [`PeerActor::on_read`] is told the outcome.
    Read,
    /// Write a request; [`PeerActor::disconnect_with_error`] is called where that
    /// fails.
    Write { request: Request },
    /// Handle what was collected, with [`PeerActor::next_in_batch`].
    RunBatch,
    /// Send the actor a message.
    SendSelf { message: PeerMessage },
    /// Tell the client.
    Event { event: PeerEvent },
}

/// What the client is told.
#[derive(Debug)]
pub enum PeerEvent {
    SearchResult(SearchResult),
    UpdateDownloadTokens(Transfer, String),
    DownloadFromPeer { token: u32, peer: Peer, allowed: bool },
    UploadFailed(String, SoulseekPath),
    PeerDisconnected(String, Option<SoulseekRs>),
}

/// What frames from a peer have the actor do, in order.
pub open spec fn peer_says_all(frames: Seq<Seq<u8>>, messages: Seq<PeerMessage>) -> bool
    decreases frames.len(),
{
    if frames.len() == 0 {
        messages.len() == 0
    } else {
        ||| {
            &&& crate::soulseek::handlers::peer_says(frames.last(), None)
            &&& peer_says_all(frames.drop_last(), messages)
        }
        ||| {
            &&& messages.len() > 0
            &&& crate::soulseek::handlers::peer_says(frames.last(), Some(messages.last()))
            &&& peer_says_all(frames.drop_last(), messages.drop_last())
        }
    }
}

/// What reading came to; a failure with its reason in words.
#[derive(Debug)]
pub enum PeerRead {
    /// The other side has closed the connection.
    Closed,
    Bytes(Vec<u8>),
    /// Nothing has come yet.
    Nothing,
    Failed(String),
}

/// What probing a new connection came to.
#[derive(Debug)]
pub enum PeerProbe {
    /// A byte came.
    Byte(u8),
    /// Nothing has come yet, or the connection was closed.
    Nothing,
    /// The connection does not stand yet.
    NotConnected,
    Failed(String),
}

impl PeerModel {
    /// A request is written, where there is a stream.
    pub open spec fn writing(self, request: Request) -> Seq<PeerAction> {
        if self.stream {
            seq![PeerAction::Write { request }]
        } else {
            Seq::empty()
        }
    }

    /// What a message has the actor do. While the connection does not stand yet
    /// every message waits but the one to read and the one that names the peer.
    pub open spec fn handled(self, msg: PeerMessage) -> (PeerModel, Seq<PeerAction>) {
        if self.state is Connecting && !(msg is SetUsername) && !(msg is ProcessRead) {
            (PeerModel { queued: self.queued.push(msg), ..self }, Seq::empty())
        } else {
            match msg {
                PeerMessage::SendMessage(request) => (self, self.writing(request)),
                PeerMessage::FileSearchResult(result) => (
                    self,
                    seq![PeerAction::Event { event: PeerEvent::SearchResult(result) }],
                ),
                PeerMessage::TransferRequest(transfer) => {
                    let told = seq![
                        PeerAction::Event {
                            event: PeerEvent::UpdateDownloadTokens(transfer, self.peer.username),
                        },
                    ];
                    (
                        self,
                        if self.self_handle {
                            told.push(
                                PeerAction::SendSelf {
                                    message: PeerMessage::SendMessage(
                                        Request::TransferResponse { transfer },
                                    ),
                                },
                            )
                        } else {
                            told
                        },
                    )
                },
                PeerMessage::TransferResponse { token, allowed, .. } => (
                    self,
                    if allowed {
                        seq![
                            PeerAction::Event {
                                event: PeerEvent::DownloadFromPeer {
                                    token,
                                    peer: self.peer,
                                    allowed,
                                },
                            },
                        ]
                    } else {
                        Seq::empty()
                    },
                ),
                PeerMessage::PlaceInQueueResponse { .. } => (self, Seq::empty()),
                PeerMessage::SetUsername(username) => (
                    PeerModel { peer: Peer { username, ..self.peer }, ..self },
                    Seq::empty(),
                ),
                PeerMessage::QueueUpload(filename) => (
                    self,
                    self.writing(Request::QueueUpload { filename }),
                ),
                PeerMessage::RequestTransfer(download) => (
                    self,
                    self.writing(
                        Request::TransferRequest {
                            filename: download.filename,
                            token: download.token.0,
                        },
                    ),
                ),
                PeerMessage::ProcessRead => (self, seq![PeerAction::Read]),
                PeerMessage::UploadFailed(username, filename) => (
                    self,
                    seq![PeerAction::Event { event: PeerEvent::UploadFailed(username, filename) }],
                ),
            }
        }
    }

    /// The stream is gone, and the client is told, with the reason where there is
    /// one.
    pub open spec fn disconnected(self, error: Option<SoulseekRs>) -> (
        PeerModel,
        Seq<PeerAction>,
    ) {
        (
            PeerModel { stream: false, ..self },
            seq![
                PeerAction::Event {
                    event: PeerEvent::PeerDisconnected(self.peer.username, error),
                },
            ],
        )
    }

    /// The connection stands; the peer is greeted.
    pub open spec fn established(self) -> (PeerModel, Seq<PeerAction>) {
        (
            PeerModel { state: ConnectionState::Connected, ..self },
            if self.stream {
                seq![
                    PeerAction::Handshake {
                        request: Request::WatchUser { username: self.peer.username },
                    },
                ]
            } else {
                Seq::empty()
            },
        )
    }

    /// The peer has been greeted: frames are understood from now on, and the
    /// messages that waited are handled before anything is read.
    pub open spec fn greeted(self) -> (PeerModel, Seq<PeerAction>) {
        (
            PeerModel {
                dispatching: true,
                queued: Seq::empty(),
                batch: self.queued + self.batch,
                ..self
            },
            if self.self_handle {
                seq![
                    PeerAction::RunBatch,
                    PeerAction::SendSelf { message: PeerMessage::ProcessRead },
                    PeerAction::Read,
                ]
            } else {
                seq![PeerAction::RunBatch, PeerAction::Read]
            },
        )
    }

    /// Whole frames are taken out of what has been read, and what they have the
    /// actor do is to be handled next. Before frames are understood they are
    /// dropped.
    pub open spec fn collected(self, messages: Seq<PeerMessage>) -> PeerModel {
        PeerModel {
            buffered: crate::soulseek::message::leftover(self.buffered),
            batch: if self.dispatching {
                messages + self.batch
            } else {
                self.batch
            },
            ..self
        }
    }

    /// The actor once bytes have come.
    pub open spec fn with_bytes(self, bytes: Seq<u8>) -> PeerModel {
        PeerModel { buffered: self.buffered + bytes, ..self }
    }

    /// The connection has been up for too long without standing.
    pub open spec fn connect_timed_out(self, now: u128) -> bool {
        self.state matches ConnectionState::Connecting { since } && super::server_actor::age(
            since,
            now,
        ) > super::server_actor::CONNECT_TIMEOUT
    }
}

/// One state comes from the other by collecting what has been read.
pub open spec fn collects(before: PeerModel, after: PeerModel) -> bool {
    exists|messages: Seq<PeerMessage>|
        #![trigger before.collected(messages)]
        peer_says_all(crate::soulseek::message::frames(before.buffered), messages) && after
            == before.collected(messages)
}

/// The connection ended for the reason given in words.
pub open spec fn ended_because(
    before: PeerModel,
    words: Seq<char>,
    after: PeerModel,
    actions: Seq<PeerAction>,
) -> bool {
    exists|reason: String|
        #![trigger before.disconnected(Some(SoulseekRs::NetworkError(reason)))]
        reason@ == words && (after, actions) == before.disconnected(
            Some(SoulseekRs::NetworkError(reason)),
        )
}

impl PeerActor {
    /// An actor for a peer, connected where there is a stream already, with what
    /// has been read from it.
    pub fn new(peer: Peer, stream: bool, reader: Option<MessageReader>) -> (r: Self)
        ensures
            r@ == (PeerModel {
                peer,
                stream,
                state: if stream {
                    ConnectionState::Connected
                } else {
                    ConnectionState::Disconnected
                },
                buffered: match reader {
                    Some(b) => b@,
                    None => Seq::empty(),
                },
                self_handle: false,
                dispatching: false,
                queued: Seq::empty(),
                batch: Seq::empty(),
            }),
    {
        PeerActor {
            peer,
            stream,
            connection_state: if stream {
                ConnectionState::Connected
            } else {
                ConnectionState::Disconnected
            },
            reader: match reader {
                Some(b) => b,
                None => MessageReader::new(),
            },
            self_handle: false,
            dispatching: false,
            queued_messages: Vec::new(),
            batch: Vec::new(),
        }
    }

    /// The actor can send messages to itself.
    pub fn set_self_handle(&mut self)
        ensures
            final(self)@ == (PeerModel { self_handle: true, ..old(self)@ }),
    {
        self.self_handle = true;
    }

    fn write(&self, request: Request, actions: &mut Vec<PeerAction>)
        ensures
            final(actions)@ == old(actions)@ + self@.writing(request),
    {
        let ghost request0 = request;
        if self.stream {
            actions.push(PeerAction::Write { request });
        }
        assert(actions@ =~= old(actions)@ + self@.writing(request0));
    }

    /// Handle a message.
    pub fn handle_message(&mut self, msg: PeerMessage) -> (r: Vec<PeerAction>)
        ensures
            final(self)@ == old(self)@.handled(msg).0,
            r@ == old(self)@.handled(msg).1,
    {
        let ghost before = self@;
        let ghost msg0 = msg;
        let mut actions: Vec<PeerAction> = Vec::new();
        if matches!(self.connection_state, ConnectionState::Connecting { .. }) && !matches!(
            msg,
            PeerMessage::SetUsername(_) | PeerMessage::ProcessRead
        ) {
            self.queued_messages.push(msg);
            assert(self@ =~= before.handled(msg0).0);
            assert(actions@ =~= before.handled(msg0).1);
            return actions;
        }
        match msg {
            PeerMessage::SendMessage(request) => {
                self.write(request, &mut actions);
            },
            PeerMessage::FileSearchResult(result) => {
                actions.push(PeerAction::Event { event: PeerEvent::SearchResult(result) });
            },
            PeerMessage::TransferRequest(transfer) => {
                let username = self.peer.username.clone();
                actions.push(
                    PeerAction::Event {
                        event: PeerEvent::UpdateDownloadTokens(transfer.clone(), username),
                    },
                );
                if self.self_handle {
                    actions.push(
                        PeerAction::SendSelf {
                            message: PeerMessage::SendMessage(
                                Request::TransferResponse { transfer },
                            ),
                        },
                    );
                }
            },
            PeerMessage::TransferResponse { token, allowed, .. } => {
                if allowed {
                    actions.push(
                        PeerAction::Event {
                            event: PeerEvent::DownloadFromPeer {
                                token,
                                peer: self.peer.clone(),
                                allowed,
                            },
                        },
                    );
                }
            },
            PeerMessage::PlaceInQueueResponse { .. } => {},
            PeerMessage::SetUsername(username) => {
                self.peer.username = username;
            },
            PeerMessage::QueueUpload(filename) => {
                self.write(Request::QueueUpload { filename }, &mut actions);
            },
            PeerMessage::RequestTransfer(download) => {
                self.write(
                    Request::TransferRequest {
                        filename: download.filename,
                        token: download.token.0,
                    },
                    &mut actions,
                );
            },
            PeerMessage::ProcessRead => {
                actions.push(PeerAction::Read);
            },
            PeerMessage::UploadFailed(username, filename) => {
                actions.push(
                    PeerAction::Event { event: PeerEvent::UploadFailed(username, filename) },
                );
            },
        }
        assert(self@ =~= before.handled(msg0).0);
        assert(actions@ =~= before.handled(msg0).1);
        actions
    }

    /// Handle the next message that was collected; `None` where there is none.
    pub fn next_in_batch(&mut self) -> (r: Option<Vec<PeerAction>>)
        ensures
            match r {
                Some(actions) => {
                    let rest = PeerModel { batch: old(self)@.batch.skip(1), ..old(self)@ };
                    &&& old(self)@.batch.len() > 0
                    &&& final(self)@ == rest.handled(old(self)@.batch[0]).0
                    &&& actions@ == rest.handled(old(self)@.batch[0]).1
                },
                None => old(self)@.batch.len() == 0 && final(self)@ == old(self)@,
            },
    {
        if self.batch.len() == 0 {
            return None;
        }
        let ghost before = self@;
        let msg = self.batch.remove(0);
        assert(self@ =~= PeerModel { batch: before.batch.skip(1), ..before });
        Some(self.handle_message(msg))
    }

    /// The connection has failed, for the given reason.
    pub fn disconnect_with_error(&mut self, reason: String) -> (r: Vec<PeerAction>)
        ensures
            (final(self)@, r@) == old(self)@.disconnected(
                Some(SoulseekRs::NetworkError(reason)),
            ),
    {
        let ghost before = self@;
        let ghost reason0 = reason;
        self.stream = false;
        let mut actions: Vec<PeerAction> = Vec::new();
        actions.push(
            PeerAction::Event {
                event: PeerEvent::PeerDisconnected(
                    self.peer.username.clone(),
                    Some(SoulseekRs::NetworkError(reason)),
                ),
            },
        );
        assert(self@ =~= before.disconnected(Some(SoulseekRs::NetworkError(reason0))).0);
        assert(actions@ =~= before.disconnected(Some(SoulseekRs::NetworkError(reason0))).1);
        actions
    }

    /// The actor stops.
    pub fn on_stop(&mut self) -> (r: Vec<PeerAction>)
        ensures
            (final(self)@, r@) == old(self)@.disconnected(None),
    {
        let ghost before = self@;
        self.stream = false;
        let mut actions: Vec<PeerAction> = Vec::new();
        actions.push(
            PeerAction::Event {
                event: PeerEvent::PeerDisconnected(self.peer.username.clone(), None),
            },
        );
        assert(self@ =~= before.disconnected(None).0);
        assert(actions@ =~= before.disconnected(None).1);
        actions
    }

    /// The connection stands; greet the peer.
    fn on_connection_established(&mut self) -> (r: Vec<PeerAction>)
        ensures
            (final(self)@, r@) == old(self)@.established(),
    {
        let ghost before = self@;
        self.connection_state = ConnectionState::Connected;
        let mut actions: Vec<PeerAction> = Vec::new();
        if self.stream {
            actions.push(
                PeerAction::Handshake {
                    request: Request::WatchUser { username: self.peer.username.clone() },
                },
            );
        }
        assert(self@ =~= before.established().0);
        assert(actions@ =~= before.established().1);
        actions
    }

    /// The greeting was written, or could not be for the given reason.
    pub fn on_handshake(&mut self, failure: Option<String>) -> (r: Vec<PeerAction>)
        ensures
            match failure {
                Some(reason) => (final(self)@, r@) == old(self)@.disconnected(
                    Some(SoulseekRs::NetworkError(reason)),
                ),
                None => (final(self)@, r@) == old(self)@.greeted(),
            },
    {
        let ghost before = self@;
        match failure {
            Some(reason) => self.disconnect_with_error(reason),
            None => {
                self.dispatching = true;
                let mut waiting: Vec<PeerMessage> = Vec::new();
                core::mem::swap(&mut waiting, &mut self.queued_messages);
                waiting.append(&mut self.batch);
                self.batch = waiting;
                let mut actions: Vec<PeerAction> = Vec::new();
                actions.push(PeerAction::RunBatch);
                if self.self_handle {
                    actions.push(PeerAction::SendSelf { message: PeerMessage::ProcessRead });
                }
                actions.push(PeerAction::Read);
                assert(self@ =~= before.greeted().0);
                assert(actions@ =~= before.greeted().1);
                actions
            },
        }
    }

    /// Take whole frames out of what has been read, and collect what they have the
    /// actor do.
    pub fn collect(&mut self)
        ensures
            collects(old(self)@, final(self)@),
    {
        let ghost before = self@;
        let ghost all = crate::soulseek::message::frames(before.buffered);
        let ghost mut done: Seq<Seq<u8>> = Seq::empty();
        let mut messages: Vec<PeerMessage> = Vec::new();
        assert(done + all =~= all);
        let mut more: bool = true;
        while more
            invariant
                self@ == (PeerModel { buffered: self@.buffered, ..before }),
                done + crate::soulseek::message::frames(self@.buffered) == all,
                crate::soulseek::message::leftover(self@.buffered)
                    == crate::soulseek::message::leftover(before.buffered),
                peer_says_all(done, messages@),
                !more ==> crate::soulseek::message::first_frame(self@.buffered) is None,
            decreases
                    self@.buffered.len(),
                    if more {
                        1int
                    } else {
                        0int
                    },
        {
            let ghost stream = self@.buffered;
            let ghost known = messages@;
            match self.reader.extract_message() {
                Some(mut message) => {
                    let ghost frame = message@.bytes;
                    proof {
                        assert(frame.len() >= 4);
                        assert(crate::soulseek::message::frames(stream) == seq![frame]
                            + crate::soulseek::message::frames(
                            stream.skip(frame.len() as int),
                        ));
                        assert(done.push(frame) + crate::soulseek::message::frames(
                            self@.buffered,
                        ) =~= all);
                        assert(done.push(frame).drop_last() =~= done);
                    }
                    match dispatch_peer(&mut message) {
                        Some(m) => {
                            messages.push(m);
                            assert(messages@.drop_last() =~= known);
                        },
                        None => {},
                    }
                    proof {
                        done = done.push(frame);
                    }
                },
                None => {
                    more = false;
                },
            }
        }
        proof {
            assert(crate::soulseek::message::frames(self@.buffered) =~= Seq::empty());
            assert(done =~= all);
        }
        let ghost found = messages@;
        if self.dispatching {
            messages.append(&mut self.batch);
            self.batch = messages;
        }
        assert(self@ =~= before.collected(found));
    }

    /// Collect what has been read already, if anything has; whether it has.
    pub fn collect_buffered(&mut self) -> (r: bool)
        ensures
            r == (old(self)@.buffered.len() > 0),
            r ==> collects(old(self)@, final(self)@),
            !r ==> final(self)@ == old(self)@,
    {
        if self.reader.buffer_len() > 0 {
            self.collect();
            true
        } else {
            false
        }
    }

    /// A read has ended. What came is collected, to be handled next; a read that
    /// failed ends the connection.
    pub fn on_read(&mut self, outcome: PeerRead) -> (r: Vec<PeerAction>)
        ensures
            match outcome {
                PeerRead::Closed => final(self)@ == old(self)@ && r@.len() == 0,
                PeerRead::Failed(reason) => (final(self)@, r@) == old(self)@.disconnected(
                    Some(SoulseekRs::NetworkError(reason)),
                ),
                PeerRead::Bytes(bytes) => {
                    &&& collects(old(self)@.with_bytes(bytes@), final(self)@)
                    &&& r@ == seq![PeerAction::RunBatch]
                },
                PeerRead::Nothing => {
                    &&& collects(old(self)@, final(self)@)
                    &&& r@ == seq![PeerAction::RunBatch]
                },
            },
    {
        let ghost before = self@;
        let mut actions: Vec<PeerAction> = Vec::new();
        match outcome {
            PeerRead::Closed => {},
            PeerRead::Failed(reason) => {
                actions = self.disconnect_with_error(reason);
            },
            PeerRead::Bytes(bytes) => {
                self.reader.push_bytes(&bytes);
                assert(self@ =~= before.with_bytes(bytes@));
                self.collect();
                actions.push(PeerAction::RunBatch);
                assert(actions@ =~= seq![PeerAction::RunBatch]);
            },
            PeerRead::Nothing => {
                self.collect();
                actions.push(PeerAction::RunBatch);
                assert(actions@ =~= seq![PeerAction::RunBatch]);
            },
        }
        actions
    }

    /// An attempt to connect has ended, with the reason where it failed.
    pub fn on_dialed(&mut self, failure: Option<String>, now: u128) -> (r: Vec<PeerAction>)
        ensures
            match failure {
                Some(reason) => (final(self)@, r@) == old(self)@.disconnected(
                    Some(SoulseekRs::NetworkError(reason)),
                ),
                None => {
                    &&& final(self)@ == (PeerModel {
                        stream: true,
                        state: ConnectionState::Connecting { since: now },
                        ..old(self)@
                    })
                    &&& r@.len() == 0
                },
            },
    {
        match failure {
            Some(reason) => self.disconnect_with_error(reason),
            None => {
                self.stream = true;
                self.connection_state = ConnectionState::Connecting { since: now };
                Vec::new()
            },
        }
    }

    /// A new connection has been probed.
    pub fn on_probe(&mut self, outcome: PeerProbe) -> (r: Vec<PeerAction>)
        ensures
            match outcome {
                PeerProbe::Byte(b) => (final(self)@, r@) == old(self)@.with_bytes(
                    seq![b],
                ).established(),
                PeerProbe::Nothing => (final(self)@, r@) == old(self)@.established(),
                PeerProbe::NotConnected => final(self)@ == old(self)@ && r@.len() == 0,
                PeerProbe::Failed(reason) => (final(self)@, r@) == old(self)@.disconnected(
                    Some(SoulseekRs::NetworkError(reason)),
                ),
            },
    {
        let ghost before = self@;
        match outcome {
            PeerProbe::Byte(b) => {
                let mut one: Vec<u8> = Vec::new();
                one.push(b);
                self.reader.push_bytes(&one);
                assert(one@ =~= seq![b]);
                assert(self@ =~= before.with_bytes(seq![b]));
                self.on_connection_established()
            },
            PeerProbe::Nothing => self.on_connection_established(),
            PeerProbe::NotConnected => Vec::new(),
            PeerProbe::Failed(reason) => self.disconnect_with_error(reason),
        }
    }

    /// What is done at regular intervals: a connection that does not stand yet is
    /// probed or given up, and one that stands is read.
    pub fn tick(&mut self, now: u128) -> (r: Vec<PeerAction>)
        ensures
            if old(self)@.connect_timed_out(now) {
                ended_because(old(self)@, "Connection timeout"@, final(self)@, r@)
            } else {
                &&& final(self)@ == old(self)@
                &&& r@ == if !old(self)@.stream || old(self)@.state is Disconnected {
                    Seq::empty()
                } else if old(self)@.state is Connecting {
                    seq![PeerAction::Probe]
                } else {
                    seq![PeerAction::Read]
                }
            },
    {
        let mut actions: Vec<PeerAction> = Vec::new();
        match self.connection_state {
            ConnectionState::Connecting { since } => {
                let spent: u128 = if since <= now {
                    now - since
                } else {
                    0
                };
                if spent > super::server_actor::CONNECT_TIMEOUT {
                    return self.disconnect_with_error("Connection timeout".to_owned());
                }
                if self.stream {
                    actions.push(PeerAction::Probe);
                }
            },
            ConnectionState::Connected => {
                if self.stream {
                    actions.push(PeerAction::Read);
                }
            },
            ConnectionState::Disconnected => {},
        }
        assert(actions@ =~= if !old(self)@.stream || old(self)@.state is Disconnected {
            Seq::empty()
        } else if old(self)@.state is Connecting {
            seq![PeerAction::Probe]
        } else {
            seq![PeerAction::Read]
        });
        actions
    }

    /// The actor starts.
    pub fn on_start(&mut self) -> (r: Vec<PeerAction>)
        ensures
            if old(self)@.stream {
                (final(self)@, r@) == old(self)@.established()
            } else {
                final(self)@ == old(self)@ && r@ == seq![PeerAction::Dial]
            },
    {
        if self.stream {
            self.on_connection_established()
        } else {
            let mut actions: Vec<PeerAction> = Vec::new();
            actions.push(PeerAction::Dial);
            assert(actions@ =~= seq![PeerAction::Dial]);
            actions
        }
    }
}

// ---- laws -----------------------------------------------------------------------------------

/// Messages that come while the connection does not stand yet are handled, in
/// their order, once the peer has been greeted.
pub proof fn lemma_nothing_lost_while_connecting(
    m: PeerModel,
    first: PeerMessage,
    second: PeerMessage,
)
    requires
        m.state is Connecting,
        m.stream,
        !(first is ProcessRead),
        !(first is SetUsername),
        !(second is ProcessRead),
        !(second is SetUsername),
    ensures
        ({
            let up = m.handled(first).0.handled(second).0.established().0.greeted().0;
            let n = m.queued.len() as int;
            &&& up.queued.len() == 0
            &&& up.batch.take(n) == m.queued
            &&& up.batch[n] == first
            &&& up.batch[n + 1] == second
        }),
{
    let up = m.handled(first).0.handled(second).0.established().0.greeted().0;
    assert(up.batch.take(m.queued.len() as int) =~= m.queued);
}

/// A transfer that the peer refuses starts no download.
pub proof fn lemma_refused_transfer_starts_nothing(
    m: PeerModel,
    token: u32,
    reason: Option<String>,
)
    ensures
        m.handled(
            PeerMessage::TransferResponse { token, allowed: false, reason },
        ).1.len() == 0,
{
}

/// Without a stream nothing is written.
pub proof fn lemma_no_stream_no_write(m: PeerModel, msg: PeerMessage)
    requires
        !m.stream,
    ensures
        forall|i: int|
            0 <= i < m.handled(msg).1.len() ==> !(#[trigger] m.handled(msg).1[i] is Write),
{
}

} // verus!
