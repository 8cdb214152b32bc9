//! How connections come to stand and end, and how what is read becomes messages.
use vstd::prelude::*;

use super::peer_actor::{
    ConnectionState, PeerAction, PeerActor, PeerEvent, PeerModel, PeerProbe, PeerRead,
};
use super::peer_message::PeerMessage;
use super::server_actor::{
    ConnectionModel, LoginChannel, LoginState, ReadOutcome, ServerAction, ServerActor, ServerEvent,
    ServerMessage, ServerModel,
};
use super::{ActorMessage, LoopEvent, LoopStep};
use crate::soulseek::error::SoulseekRs;
use crate::soulseek::request::Request;

verus! {

// ---- messages out of frames ---------------------------------------------------------------

/// Where each frame of a peer says something, each becomes the message that it says, in
/// order.
pub proof fn lemma_peer_frames_become_messages(
    frames: Seq<Seq<u8>>,
    messages: Seq<PeerMessage>,
    k: int,
)
    requires
        super::peer_actor::peer_says_all(frames, messages),
        forall|i: int|
            0 <= i < frames.len() ==> !crate::soulseek::handlers::peer_says(
                #[trigger] frames[i],
                None,
            ),
        0 <= k < frames.len(),
    ensures
        messages.len() == frames.len(),
        crate::soulseek::handlers::peer_says(frames[k], Some(messages[k])),
    decreases frames.len(),
{
    let init = frames.drop_last();
    assert(frames.last() == frames[frames.len() - 1]);
    assert forall|i: int| 0 <= i < init.len() implies !crate::soulseek::handlers::peer_says(
        #[trigger] init[i],
        None,
    ) by {
        assert(init[i] == frames[i]);
    }
    let last = frames[frames.len() - 1];
    assert(!crate::soulseek::handlers::peer_says(last, None));
    assert(messages.len() > 0 && super::peer_actor::peer_says_all(init, messages.drop_last()));
    if init.len() > 0 {
        let j = if k < init.len() {
            k
        } else {
            0
        };
        lemma_peer_frames_become_messages(init, messages.drop_last(), j);
        assert(messages.drop_last()[j] == messages[j] && init[j] == frames[j]);
    } else {
        assert(messages.drop_last().len() == 0);
    }
}

/// Where each frame of the server says something, each becomes the message that it says, in
/// order.
pub proof fn lemma_server_frames_become_messages(
    frames: Seq<Seq<u8>>,
    messages: Seq<ServerMessage>,
    k: int,
)
    requires
        super::server_actor::server_says_all(frames, messages),
        forall|i: int|
            0 <= i < frames.len() ==> !crate::soulseek::handlers::server_says(
                #[trigger] frames[i],
                None,
            ),
        0 <= k < frames.len(),
    ensures
        messages.len() == frames.len(),
        crate::soulseek::handlers::server_says(frames[k], Some(messages[k])),
    decreases frames.len(),
{
    let init = frames.drop_last();
    assert(frames.last() == frames[frames.len() - 1]);
    assert forall|i: int| 0 <= i < init.len() implies !crate::soulseek::handlers::server_says(
        #[trigger] init[i],
        None,
    ) by {
        assert(init[i] == frames[i]);
    }
    let last = frames[frames.len() - 1];
    assert(!crate::soulseek::handlers::server_says(last, None));
    assert(messages.len() > 0 && super::server_actor::server_says_all(init, messages.drop_last()));
    if init.len() > 0 {
        let j = if k < init.len() {
            k
        } else {
            0
        };
        lemma_server_frames_become_messages(init, messages.drop_last(), j);
        assert(messages.drop_last()[j] == messages[j] && init[j] == frames[j]);
    } else {
        assert(messages.drop_last().len() == 0);
    }
}

/// What a peer has sent is taken out of what was read, and handled before anything that
/// waits; what is left is the frame that is not whole yet. Nothing else changes. Before the
/// peer has been greeted it is dropped.
pub proof fn lemma_peer_messages_are_collected(before: PeerModel, after: PeerModel)
    requires
        super::peer_actor::collects(before, after),
    ensures
        after.buffered == crate::soulseek::message::leftover(before.buffered),
        after.peer == before.peer && after.stream == before.stream && after.state == before.state
            && after.queued == before.queued && after.dispatching == before.dispatching,
        !before.dispatching ==> after.batch == before.batch,
        before.dispatching ==> exists|messages: Seq<PeerMessage>|
            super::peer_actor::peer_says_all(
                crate::soulseek::message::frames(before.buffered),
                messages,
            ) && #[trigger] (messages + before.batch) == after.batch,
{
    let messages = choose|messages: Seq<PeerMessage>|
        #![trigger before.collected(messages)]
        super::peer_actor::peer_says_all(
            crate::soulseek::message::frames(before.buffered),
            messages,
        ) && after == before.collected(messages);
    if before.dispatching {
        assert(messages + before.batch == after.batch);
    }
}

/// What the server has sent is taken out of what was read, and handled after what came from
/// elsewhere and before anything that waits. Without a connection it is dropped.
pub proof fn lemma_server_messages_are_collected(before: ServerModel, after: ServerModel)
    requires
        super::server_actor::collects(before, after),
    ensures
        after.buffered == crate::soulseek::message::leftover(before.buffered),
        after.login == before.login && after.queued == before.queued,
        !(before.connection is Connected) ==> after.batch == before.batch && after.connection
            == before.connection,
        before.connection matches ConnectionModel::Connected { inbox } ==> exists|
            messages: Seq<ServerMessage>,
        |
            super::server_actor::server_says_all(
                crate::soulseek::message::frames(before.buffered),
                messages,
            ) && #[trigger] (inbox + messages + before.batch) == after.batch,
{
    let messages = choose|messages: Seq<ServerMessage>|
        #![trigger before.collected(messages)]
        super::server_actor::server_says_all(
            crate::soulseek::message::frames(before.buffered),
            messages,
        ) && after == before.collected(messages);
    match before.connection {
        ConnectionModel::Connected { inbox } => {
            assert(inbox + messages + before.batch == after.batch);
        },
        _ => {},
    }
}

// ---- a peer -------------------------------------------------------------------------------

/// An actor with a stream greets its peer at once, by its name; one without dials.
pub proof fn lemma_peer_is_dialed_or_greeted(a: &mut PeerActor, r: Vec<PeerAction>)
    requires
        call_ensures(PeerActor::on_start, (a,), r),
    ensures
        r@.len() == 1,
        old(a)@.stream ==> r@[0] == (PeerAction::Handshake {
            request: Request::WatchUser { username: old(a)@.peer.username },
        }),
        !old(a)@.stream ==> r@[0] is Dial,
{
}

/// A connection that could not be made, or that fails when it is probed, greeted or read, is
/// reported with its reason; one that can be probed is greeted, and once it has been greeted
/// what waited is handled and then it is read.
pub proof fn lemma_peer_connection_is_followed(
    a: &mut PeerActor,
    reason: String,
    dialed: Vec<PeerAction>,
    probed: Vec<PeerAction>,
    greeted: Vec<PeerAction>,
    read: Vec<PeerAction>,
    quiet: Vec<PeerAction>,
    ready: Vec<PeerAction>,
    now: u128,
)
    requires
        call_ensures(PeerActor::on_dialed, (a, Some(reason), now), dialed),
        call_ensures(PeerActor::on_probe, (a, PeerProbe::Failed(reason)), probed),
        call_ensures(PeerActor::on_handshake, (a, Some(reason)), greeted),
        call_ensures(PeerActor::on_read, (a, PeerRead::Failed(reason)), read),
        call_ensures(PeerActor::on_probe, (a, PeerProbe::Nothing), quiet),
        call_ensures(PeerActor::on_handshake, (a, None::<String>), ready),
    ensures
        ({
            let lost = PeerAction::Event {
                event: PeerEvent::PeerDisconnected(
                    old(a)@.peer.username,
                    Some(SoulseekRs::NetworkError(reason)),
                ),
            };
            &&& dialed@.len() == 1 && dialed@[0] == lost
            &&& probed@.len() == 1 && probed@[0] == lost
            &&& greeted@.len() == 1 && greeted@[0] == lost
            &&& read@.len() == 1 && read@[0] == lost
        }),
        old(a)@.stream ==> quiet@.len() == 1 && quiet@[0] == (PeerAction::Handshake {
            request: Request::WatchUser { username: old(a)@.peer.username },
        }),
        ready@.len() >= 2,
        ready@[0] is RunBatch,
        ready@.last() is Read,
{
}

/// A connection that does not stand is probed at every tick, and given up after twenty
/// seconds; one that stands is read; without a stream there is nothing to do.
pub proof fn lemma_peer_is_ticked(a: &mut PeerActor, now: u128, since: u128, r: Vec<PeerAction>)
    requires
        call_ensures(PeerActor::tick, (a, now), r),
    ensures
        old(a)@.state == (ConnectionState::Connecting { since }) && now > since + 20_000_000_000
            ==> r@.len() == 1 && (r@[0] matches PeerAction::Event { event } && (
        event matches PeerEvent::PeerDisconnected(name, why) && name == old(a)@.peer.username && (
        why matches Some(SoulseekRs::NetworkError(words)) && words@ == "Connection timeout"@))),
        old(a)@.state == (ConnectionState::Connecting { since }) && now <= since + 20_000_000_000
            && old(a)@.stream ==> r@.len() == 1 && r@[0] is Probe,
        old(a)@.state is Connected && old(a)@.stream ==> r@.len() == 1 && r@[0] is Read,
        old(a)@.state is Disconnected ==> r@.len() == 0,
{
}

/// An actor that is stopped says that its peer is gone, in good order.
pub proof fn lemma_stopped_peer_is_told_of(a: &mut PeerActor, r: Vec<PeerAction>)
    requires
        call_ensures(PeerActor::on_stop, (a,), r),
    ensures
        r@.len() == 1,
        r@[0] == (PeerAction::Event {
            event: PeerEvent::PeerDisconnected(old(a)@.peer.username, None),
        }),
{
}

// ---- the server ---------------------------------------------------------------------------

/// When the connection to the server stands, the client can reach it, what waited is handled
/// and it is read; where we were logged in, the same login is sent again.
pub proof fn lemma_server_connection_stands(m: ServerModel)
    requires
        m.connection is Connecting,
    ensures
        ({
            let (after, actions) = m.established();
            &&& actions.len() >= 3
            &&& actions[0] == (ServerAction::Event { event: ServerEvent::SetServerSender })
            &&& actions[1] is RunBatch
            &&& actions.last() is Read
            &&& after.batch == m.queued + m.batch
            &&& after.queued.len() == 0
            &&& after.connection matches ConnectionModel::Connected { inbox }
            &&& m.login matches LoginState::LoggedIn { username, password } ==> inbox.len() == 1
                && inbox[0] == ServerMessage::SendMessage(Request::Login { username, password })
            &&& !(m.login is LoggedIn) ==> inbox.len() == 0
        }),
{
}

/// An actor that is not connected dials at the start.
pub proof fn lemma_server_is_dialed(a: &mut ServerActor, r: Vec<ServerAction>)
    requires
        call_ensures(ServerActor::on_start, (a,), r),
    ensures
        old(a)@.connection is Disconnected ==> r@.len() == 1 && r@[0] is Dial,
{
}

/// A stream that the other side has closed leads to nothing; bytes that come, and a stream
/// on which nothing has come, to the handling of what there is.
pub proof fn lemma_server_is_read(
    a: &mut ServerActor,
    bytes: Vec<u8>,
    now: u128,
    closed: Vec<ServerAction>,
    came: Vec<ServerAction>,
    nothing: Vec<ServerAction>,
)
    requires
        call_ensures(ServerActor::on_read, (a, ReadOutcome::Closed, now), closed),
        call_ensures(ServerActor::on_read, (a, ReadOutcome::Bytes(bytes), now), came),
        call_ensures(ServerActor::on_read, (a, ReadOutcome::Nothing, now), nothing),
    ensures
        closed@.len() == 0,
        came@.len() == 1 && came@[0] is RunBatch,
        nothing@.len() == 1 && nothing@[0] is RunBatch,
{
}

/// A connection to the server that does not stand is probed at every tick, and given up
/// after twenty seconds; one that stands is read.
pub proof fn lemma_server_is_ticked(m: ServerModel, now: u128, since: u128, attempt: u32)
    requires
        m.login is LoggedIn,
    ensures
        m.connection == (ConnectionModel::Connecting { since, attempt }) && now <= since
            + 20_000_000_000 ==> m.ticked(now).0 == m && m.ticked(now).1.len() == 1 && m.ticked(
            now,
        ).1[0] is Probe,
        m.connection == (ConnectionModel::Connecting { since, attempt }) && now > since
            + 20_000_000_000 ==> m.ticked(now).0.connection is Disconnected,
        m.connection is Connected ==> m.ticked(now).0 == m && m.ticked(now).1.len() == 1
            && m.ticked(now).1[0] is Read,
{
}

/// When there is something to read, an actor reads, whether its connection stands or not.
pub proof fn lemma_there_is_something_to_read(m: PeerModel, n: ServerModel, now: u128)
    ensures
        m.handled(PeerMessage::ProcessRead) == (m, seq![PeerAction::Read]),
        n.handled(ServerMessage::ProcessRead, now) == (n, seq![ServerAction::Read]),
{
}

/// A login takes the place of one that is under way, whose caller is told that it took too
/// long; where no connection will come, a login is answered at once.
pub proof fn lemma_later_login_takes_over(
    m: ServerModel,
    username: String,
    password: String,
    response: LoginChannel,
    now: u128,
)
    ensures
        ({
            let (after, actions) = m.handled(
                ServerMessage::Login { username, password, response },
                now,
            );
            &&& m.connection is Connected ==> (m.login matches LoginState::Pending {
                response: earlier,
                ..
            } ==> actions.len() == 1 && actions[0] == (ServerAction::Reply {
                response: earlier,
                answer: Err(SoulseekRs::Timeout),
            }))
            &&& m.connection is Connected && !(m.login is Pending) ==> actions.len() == 0
            &&& m.connection is Connected ==> (after.login matches LoginState::Pending {
                username: u,
                password: p,
                response: r,
                ..
            } && u == username && p == password && r == response)
            &&& !(m.connection is Connected) && !m.may_connect() ==> after == m && actions.len()
                == 1 && actions[0] == (ServerAction::Reply {
                response,
                answer: Err(SoulseekRs::ConnectionClosed),
            })
        }),
{
}

// ---- the loop -----------------------------------------------------------------------------

/// The loop of an actor hands it every message as it came, lets it tick when it is told to
/// and when nothing comes, and stops when it is told to and when nothing can come any more.
pub proof fn lemma_loop_hands_on<M>(msg: M, event: LoopEvent<M>)
    ensures
        super::step_for(LoopEvent::Received(Some(ActorMessage::UserMessage(msg)))) == (
        LoopStep::Handle(msg)),
        super::step_for(event) is Stop <==> event == LoopEvent::<M>::Received(None) || event
            == LoopEvent::<M>::Received(Some(ActorMessage::Stop)),
        super::step_for(event) is Tick <==> event == LoopEvent::<M>::Interval || event
            == LoopEvent::<M>::Received(Some(ActorMessage::Tick)),
{
}

} // verus!
