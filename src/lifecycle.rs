//! The connection to the server: the events the transport reports and the
//! state of the one connection the client keeps.
use vstd::prelude::*;

verus! {

/// Identifies one connection of the transport.
pub type ConnectionHandle = u32;

/// What the transport reports, in the order it happened.
#[derive(Clone, Debug)]
pub enum NetworkEvent {
    /// The connection with this handle is established.
    Connected(ConnectionHandle),
    /// The connection with this handle was closed.
    Disconnected(ConnectionHandle),
    /// A packet arrived on the connection with this handle.
    Packet(ConnectionHandle, Vec<u8>),
    /// The transport failed on the connection with this handle.
    Error(ConnectionHandle),
}

impl NetworkEvent {
    /// The connection that the event names.
    pub open spec fn handle_spec(&self) -> ConnectionHandle {
        match self {
            NetworkEvent::Connected(h) => *h,
            NetworkEvent::Disconnected(h) => *h,
            NetworkEvent::Packet(h, _) => *h,
            NetworkEvent::Error(h) => *h,
        }
    }

    /// The connection that the event names.
    #[verifier::when_used_as_spec(handle_spec)]
    pub fn handle(&self) -> (r: ConnectionHandle)
        ensures
            r == self.handle_spec(),
    {
        match self {
            NetworkEvent::Connected(h) => *h,
            NetworkEvent::Disconnected(h) => *h,
            NetworkEvent::Packet(h, _) => *h,
            NetworkEvent::Error(h) => *h,
        }
    }
}

/// Where the client stands with the server.
#[derive(Clone, Copy, Debug, PartialEq, Eq, Structural)]
pub enum LinkState {
    /// No connection, and none under way.
    Disconnected,
    /// A connection was asked for and has not completed yet.
    Connecting,
    /// Connected to the server over the connection with this handle.
    Connected(ConnectionHandle),
}

/// The state after `event` arrives in state `state`.
///
/// While connecting, the first connection to complete becomes the current
/// one, and a transport error ends the attempt. Once connected, only the
/// close of the current connection ends it; everything else leaves the
/// state alone. Nothing reconnects on its own.
pub open spec fn link_step(state: LinkState, event: NetworkEvent) -> LinkState {
    match state {
        LinkState::Disconnected => state,
        LinkState::Connecting => match event {
            NetworkEvent::Connected(h) => LinkState::Connected(h),
            NetworkEvent::Error(_) => LinkState::Disconnected,
            _ => state,
        },
        LinkState::Connected(current) => match event {
            NetworkEvent::Disconnected(h) => if h == current {
                LinkState::Disconnected
            } else {
                state
            },
            _ => state,
        },
    }
}

/// Whether moving from `from` to `to` when `event` arrives is a transition
/// that the lifecycle allows: staying put; completing the attempt on the
/// connection that the event reports; failing the attempt on a transport
/// error; or closing on the close of the current connection.
pub open spec fn allowed_transition(from: LinkState, event: NetworkEvent, to: LinkState) -> bool {
    ||| from == to
    ||| (from is Connecting && (event matches NetworkEvent::Connected(h) && to
        == LinkState::Connected(h)))
    ||| (from is Connecting && event is Error && to is Disconnected)
    ||| (from matches LinkState::Connected(h) && (event == NetworkEvent::Disconnected(h)
        && to is Disconnected))
}

/// The state after the events `events` arrive, in order, from `state`.
pub open spec fn link_after(state: LinkState, events: Seq<NetworkEvent>) -> LinkState
    decreases events.len(),
{
    if events.len() == 0 {
        state
    } else {
        link_step(link_after(state, events.drop_last()), events.last())
    }
}

/// Starts the one connection attempt of the client. Returns whether the
/// transport is to be asked to connect, which it is only from
/// `Disconnected`.
pub fn startup(state: &mut LinkState) -> (r: bool)
    ensures
        r == (*old(state) is Disconnected),
        *final(state) == (if r { LinkState::Connecting } else { *old(state) }),
{
    match state {
        LinkState::Disconnected => {
            *state = LinkState::Connecting;
            true
        },
        _ => false,
    }
}

/// Moves the state on for one event.
pub fn on_event(state: &mut LinkState, event: &NetworkEvent)
    ensures
        *final(state) == link_step(*old(state), *event),
{
    match *state {
        LinkState::Disconnected => {},
        LinkState::Connecting => match event {
            NetworkEvent::Connected(h) => {
                *state = LinkState::Connected(*h);
            },
            NetworkEvent::Error(_) => {
                *state = LinkState::Disconnected;
            },
            _ => {},
        },
        LinkState::Connected(current) => match event {
            NetworkEvent::Disconnected(h) => {
                if *h == current {
                    *state = LinkState::Disconnected;
                }
            },
            _ => {},
        },
    }
}

/// Every event moves the state along an allowed transition, a packet never
/// moves it, and an event that names another connection than the current
/// one leaves a connected state as it is.
pub proof fn lemma_step_allowed(state: LinkState, event: NetworkEvent)
    ensures
        allowed_transition(state, event, link_step(state, event)),
        event is Packet ==> link_step(state, event) == state,
        state matches LinkState::Connected(t) && event.handle() != t ==> link_step(state, event)
            == state,
{
}

/// Over any sequence of events, each event moves the state along an allowed
/// transition, no packet moves it, and none that names another connection
/// than the current one changes a connected state.
pub proof fn lemma_lifecycle_transitions(state: LinkState, events: Seq<NetworkEvent>)
    ensures
        forall|i: int|
            0 <= i < events.len() ==> #[trigger] allowed_transition(
                link_after(state, events.take(i)),
                events[i],
                link_after(state, events.take(i + 1)),
            ),
        forall|i: int|
            0 <= i < events.len() && events[i] is Packet ==> #[trigger] link_after(
                state,
                events.take(i + 1),
            ) == link_after(state, events.take(i)),
        forall|i: int|
            0 <= i < events.len() && (link_after(state, events.take(i)) matches LinkState::Connected(
                t,
            ) && events[i].handle() != t) ==> #[trigger] link_after(state, events.take(i + 1))
                == link_after(state, events.take(i)),
{
    assert forall|i: int| 0 <= i < events.len() implies link_after(state, events.take(i + 1))
        == link_step(link_after(state, events.take(i)), events[i]) by {
        assert(events.take(i + 1).drop_last() =~= events.take(i));
    }
    assert forall|i: int| 0 <= i < events.len() implies #[trigger] allowed_transition(
        link_after(state, events.take(i)),
        events[i],
        link_after(state, events.take(i + 1)),
    ) by {
        lemma_step_allowed(link_after(state, events.take(i)), events[i]);
    }
    assert forall|i: int|
        0 <= i < events.len() && events[i] is Packet implies #[trigger] link_after(
            state,
            events.take(i + 1),
        ) == link_after(state, events.take(i)) by {
        lemma_step_allowed(link_after(state, events.take(i)), events[i]);
    }
    assert forall|i: int|
        0 <= i < events.len() && (link_after(state, events.take(i)) matches LinkState::Connected(t)
            && events[i].handle() != t) implies #[trigger] link_after(state, events.take(i + 1))
        == link_after(state, events.take(i)) by {
        lemma_step_allowed(link_after(state, events.take(i)), events[i]);
    }
}

} // verus!
