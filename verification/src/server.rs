//! The decisions of the accept loop: a machine with three states that is
//! driven by the messages of one control channel.
//!
//! The loop itself, the listening socket and the channel belong to the
//! program around this library. In each round the program hands over the
//! message that waits, if any, and does what the new state asks for.

use vstd::prelude::*;

verus! {

/// A message of the control channel.
pub enum ServerMessage<H> {
    /// Leave the loop.
    Stop,
    /// Accept no connections until told to start.
    Pause,
    /// Accept connections, and hand each request to this handler.
    Start(H),
}

/// The state of the accept loop.
pub enum ServerState<H> {
    /// No connection is accepted. This is the first state.
    Paused,
    /// Each round accepts one connection and submits one job for it.
    Streaming(H),
    /// The loop has ended. No message leads out of this state.
    Stopped,
}

/// What the accept loop does in one round.
#[derive(Debug, PartialEq, Eq, Clone, Copy, Structural)]
pub enum Activity {
    /// Accept nothing, and wait for the next message.
    Wait,
    /// Accept the next connection and submit a job that reads the request
    /// and calls the handler.
    Accept,
    /// Leave the loop.
    Exit,
}

/// The state that follows `state` when `message` is what waits in the
/// control channel. The latest message decides; without one the state stays.
pub open spec fn next_state<H>(state: ServerState<H>, message: Option<ServerMessage<H>>)
    -> ServerState<H> {
    match state {
        ServerState::Stopped => ServerState::Stopped,
        _ => match message {
            None => state,
            Some(ServerMessage::Stop) => ServerState::Stopped,
            Some(ServerMessage::Pause) => ServerState::Paused,
            Some(ServerMessage::Start(handler)) => ServerState::Streaming(handler),
        },
    }
}

/// What the loop does in a round that begins in `state`.
pub open spec fn activity_of<H>(state: ServerState<H>) -> Activity {
    match state {
        ServerState::Paused => Activity::Wait,
        ServerState::Streaming(_) => Activity::Accept,
        ServerState::Stopped => Activity::Exit,
    }
}

/// The number of workers of the pool of a server that may use
/// `count_of_threads` threads: one thread is kept for the accept loop, so a
/// server needs two threads at least.
pub open spec fn pool_size_of(count_of_threads: int) -> Option<int> {
    if count_of_threads <= 1 {
        None
    } else {
        Some(count_of_threads - 1)
    }
}

/// The size of the worker pool for `count_of_threads` threads, or `None`
/// where that is too few to build a server.
pub fn pool_size(count_of_threads: usize) -> (size: Option<usize>)
    ensures
        match size {
            Some(n) => pool_size_of(count_of_threads as int) == Some(n as int) && n >= 1,
            None => pool_size_of(count_of_threads as int) is None,
        },
{
    if count_of_threads <= 1 {
        None
    } else {
        Some(count_of_threads - 1)
    }
}

impl<H> ServerState<H> {
    /// The state in which the loop begins.
    pub fn new() -> (state: ServerState<H>)
        ensures
            state == ServerState::<H>::Paused,
    {
        ServerState::Paused
    }

    /// The state after `message` was received; `None` where no message
    /// waits.
    pub fn receive(self, message: Option<ServerMessage<H>>) -> (state: ServerState<H>)
        ensures
            state == next_state(self, message),
    {
        match self {
            ServerState::Stopped => ServerState::Stopped,
            ServerState::Paused => match message {
                None => ServerState::Paused,
                Some(ServerMessage::Stop) => ServerState::Stopped,
                Some(ServerMessage::Pause) => ServerState::Paused,
                Some(ServerMessage::Start(handler)) => ServerState::Streaming(handler),
            },
            ServerState::Streaming(current) => match message {
                None => ServerState::Streaming(current),
                Some(ServerMessage::Stop) => ServerState::Stopped,
                Some(ServerMessage::Pause) => ServerState::Paused,
                Some(ServerMessage::Start(handler)) => ServerState::Streaming(handler),
            },
        }
    }

    /// What the loop does in a round that begins in this state.
    pub fn activity(&self) -> (activity: Activity)
        ensures
            activity == activity_of(*self),
    {
        match self {
            ServerState::Paused => Activity::Wait,
            ServerState::Streaming(_) => Activity::Accept,
            ServerState::Stopped => Activity::Exit,
        }
    }

    /// The handler that is active: there is one exactly while streaming.
    pub fn handler(&self) -> (handler: Option<&H>)
        ensures
            match handler {
                Some(h) => *self == ServerState::Streaming(*h),
                None => !(*self is Streaming),
            },
    {
        match self {
            ServerState::Streaming(handler) => Some(handler),
            _ => None,
        }
    }
}

/// The loop begins paused: it accepts nothing until it is told to start.
pub proof fn law_begins_paused<H>()
    ensures
        activity_of(ServerState::<H>::Paused) == Activity::Wait,
{
}

/// No message leads out of the stopped state.
pub proof fn law_stopped_is_final<H>(message: Option<ServerMessage<H>>)
    ensures
        next_state(ServerState::<H>::Stopped, message) == ServerState::<H>::Stopped,
{
}

/// A message decides the state whatever the state was, unless the loop has
/// ended: a handler that is registered while another is active replaces it.
pub proof fn law_latest_message_decides<H>(
    one: ServerState<H>,
    other: ServerState<H>,
    message: ServerMessage<H>,
)
    requires
        !(one is Stopped),
        !(other is Stopped),
    ensures
        next_state(one, Some(message)) == next_state(other, Some(message)),
        message matches ServerMessage::Start(handler) ==> next_state(one, Some(message))
            == ServerState::Streaming(handler),
{
}

/// A server with one thread or none cannot be built; with more, all threads
/// but one work in the pool.
pub proof fn law_pool_size(count_of_threads: int)
    ensures
        count_of_threads <= 1 ==> pool_size_of(count_of_threads) is None,
        count_of_threads > 1 ==> pool_size_of(count_of_threads) == Some(count_of_threads - 1),
{
}

} // verus!
