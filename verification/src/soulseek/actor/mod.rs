//! The actors that own the connections, and the loop that runs an actor.
use vstd::prelude::*;

use crate::time::Duration;

pub mod actor_laws;
pub mod connection_laws;
pub mod peer_actor;
pub mod peer_message;
pub mod server_actor;

verus! {

/// Something that takes messages one at a time.
pub trait Actor {
    type Message;

    /// Take a message.
    fn handle(&mut self, msg: Self::Message);

    /// The actor starts.
    fn on_start(&mut self) {
    }

    /// The actor stops.
    fn on_stop(&mut self) {
    }

    /// Do what is done at regular intervals.
    fn tick(&mut self) {
    }
}

/// What comes over an actor's channel.
#[derive(Debug)]
pub enum ActorMessage<M> {
    UserMessage(M),
    Stop,
    Tick,
}

/// What wakes the loop of an actor.
#[derive(Debug)]
pub enum LoopEvent<M> {
    /// The channel gave a message, or is closed.
    Received(Option<ActorMessage<M>>),
    /// The interval has passed.
    Interval,
}

/// What the loop does next.
#[derive(Debug)]
pub enum LoopStep<M> {
    Handle(M),
    Tick,
    Stop,
}

/// What an event has the loop do.
pub open spec fn step_for<M>(event: LoopEvent<M>) -> LoopStep<M> {
    match event {
        LoopEvent::Received(Some(ActorMessage::UserMessage(msg))) => LoopStep::Handle(msg),
        LoopEvent::Received(Some(ActorMessage::Tick)) => LoopStep::Tick,
        LoopEvent::Interval => LoopStep::Tick,
        LoopEvent::Received(Some(ActorMessage::Stop)) => LoopStep::Stop,
        LoopEvent::Received(None) => LoopStep::Stop,
    }
}

/// What runs actors.
#[derive(Debug, Clone, Copy, PartialEq, Eq, Structural)]
pub struct ActorSystem {
    /// How many messages the loop has handled.
    pub messages: u64,
    /// How often it has ticked.
    pub ticks: u64,
}

impl ActorSystem {
    /// A system that has done nothing.
    pub fn new() -> (r: Self)
        ensures
            r == (ActorSystem { messages: 0, ticks: 0 }),
    {
        ActorSystem { messages: 0, ticks: 0 }
    }

    /// How long the loop waits for a message before it ticks.
    pub fn tick_interval() -> (r: Duration)
        ensures
            r@ == 100_000_000,
    {
        Duration::from_millis(100)
    }

    /// What an event has the loop do, counted.
    pub fn next_step<M>(&mut self, event: LoopEvent<M>) -> (r: LoopStep<M>)
        requires
            old(self).messages < u64::MAX,
            old(self).ticks < u64::MAX,
        ensures
            r == step_for(event),
            final(self).messages == old(self).messages + if r is Handle {
                1int
            } else {
                0
            },
            final(self).ticks == old(self).ticks + if r is Tick {
                1int
            } else {
                0
            },
    {
        match event {
            LoopEvent::Received(Some(ActorMessage::UserMessage(msg))) => {
                self.messages = self.messages + 1;
                LoopStep::Handle(msg)
            },
            LoopEvent::Received(Some(ActorMessage::Tick)) => {
                self.ticks = self.ticks + 1;
                LoopStep::Tick
            },
            LoopEvent::Interval => {
                self.ticks = self.ticks + 1;
                LoopStep::Tick
            },
            LoopEvent::Received(Some(ActorMessage::Stop)) => LoopStep::Stop,
            LoopEvent::Received(None) => LoopStep::Stop,
        }
    }
}

impl Default for ActorSystem {
    fn default() -> (r: Self)
        ensures
            r == (ActorSystem { messages: 0, ticks: 0 }),
    {
        ActorSystem::new()
    }
}

} // verus!
