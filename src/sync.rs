//! Per-tick dispatch of transport events: asks for the world once the
//! connection completes, and applies the snapshots that come back.
use vstd::prelude::*;
use crate::lifecycle::{link_after, link_step, on_event, LinkState, NetworkEvent};
use crate::protocol::{
    decode_response, encode_request, request_wire, response_of, DecodeError, NetworkRequest,
    NetworkResponse, ResponseModel,
};
use crate::world::{apply, WorldStore};

verus! {

/// What the driver of the transport is to do after one event.
#[derive(Clone, Debug)]
pub enum Action {
    /// Nothing beyond noting the event.
    Idle,
    /// Broadcast these bytes, the encoded world request, to the server.
    Broadcast(Vec<u8>),
    /// A snapshot arrived and replaced the world.
    Applied,
    /// A packet could not be read; it was dropped and the world kept.
    Discarded(DecodeError),
}

/// Whether `event`, arriving in state `state`, makes the client ask for the
/// world: exactly when it completes the connection.
pub open spec fn issues_request(state: LinkState, event: NetworkEvent) -> bool {
    state is Connecting && event is Connected
}

/// The world after `event` arrives: a packet that reads as a snapshot is
/// applied, anything else leaves the world as it was.
pub open spec fn world_step(world: Option<Seq<u8>>, event: NetworkEvent) -> Option<Seq<u8>> {
    match event {
        NetworkEvent::Packet(_, bytes) => match response_of(bytes@) {
            Ok(ResponseModel::ResponseWorld(payload)) => apply(world, payload),
            Err(_) => world,
        },
        _ => world,
    }
}

/// The world after the events `events` arrive, in order.
pub open spec fn world_after(world: Option<Seq<u8>>, events: Seq<NetworkEvent>) -> Option<
    Seq<u8>,
>
    decreases events.len(),
{
    if events.len() == 0 {
        world
    } else {
        world_step(world_after(world, events.drop_last()), events.last())
    }
}

/// Whether `action` is what the client owes for `event` in state `state`.
pub open spec fn action_fits(action: Action, state: LinkState, event: NetworkEvent) -> bool {
    match action {
        Action::Broadcast(bytes) => issues_request(state, event) && bytes@ == request_wire(
            NetworkRequest::RequestWorld,
        ),
        Action::Applied => event matches NetworkEvent::Packet(_, b) && response_of(b@) is Ok,
        Action::Discarded(e) => event matches NetworkEvent::Packet(_, b) && response_of(b@) == Err::<
            ResponseModel,
            DecodeError,
        >(e),
        Action::Idle => !issues_request(state, event) && !(event is Packet),
    }
}

/// Handles one event: moves the connection state on, asks for the world
/// when the connection completes, and applies a snapshot that arrives.
pub fn handle_event(state: &mut LinkState, world: &mut WorldStore, event: &NetworkEvent) -> (r:
    Action)
    ensures
        *final(state) == link_step(*old(state), *event),
        final(world)@ == world_step(old(world)@, *event),
        action_fits(r, *old(state), *event),
{
    let request = *state == LinkState::Connecting && matches!(event, NetworkEvent::Connected(_));
    on_event(state, event);
    match event {
        NetworkEvent::Packet(_, bytes) => match decode_response(bytes.as_slice()) {
            Ok(NetworkResponse::ResponseWorld(payload)) => {
                world.apply_snapshot(payload);
                Action::Applied
            },
            Err(e) => Action::Discarded(e),
        },
        _ => {
            if request {
                Action::Broadcast(encode_request(&NetworkRequest::RequestWorld))
            } else {
                Action::Idle
            }
        },
    }
}

/// Handles every event of one tick, in the order they arrived, and returns
/// one action for each.
pub fn handle_packets(state: &mut LinkState, world: &mut WorldStore, events: &Vec<NetworkEvent>) -> (r:
    Vec<Action>)
    ensures
        *final(state) == link_after(*old(state), events@),
        final(world)@ == world_after(old(world)@, events@),
        r@.len() == events@.len(),
        forall|i: int|
            0 <= i < events@.len() ==> action_fits(
                #[trigger] r@[i],
                link_after(*old(state), events@.take(i)),
                events@[i],
            ),
{
    let ghost start = *state;
    let ghost world0 = world@;
    let mut actions: Vec<Action> = Vec::new();
    let mut i: usize = 0;
    assert(events@.take(0) =~= Seq::<NetworkEvent>::empty());
    while i < events.len()
        invariant
            i <= events@.len(),
            *state == link_after(start, events@.take(i as int)),
            world@ == world_after(world0, events@.take(i as int)),
            actions@.len() == i,
            forall|j: int|
                0 <= j < i ==> action_fits(
                    #[trigger] actions@[j],
                    link_after(start, events@.take(j)),
                    events@[j],
                ),
        decreases events@.len() - i,
    {
        let action = handle_event(state, world, &events[i]);
        assert(events@.take(i + 1).drop_last() =~= events@.take(i as int));
        actions.push(action);
        i = i + 1;
    }
    assert(events@.take(events@.len() as int) =~= events@);
    actions
}

/// The number of world requests made while the events `events` arrive, in
/// order, from state `state`.
pub open spec fn requests_in(state: LinkState, events: Seq<NetworkEvent>) -> nat
    decreases events.len(),
{
    if events.len() == 0 {
        0
    } else {
        requests_in(state, events.drop_last()) + if issues_request(
            link_after(state, events.drop_last()),
            events.last(),
        ) {
            1nat
        } else {
            0nat
        }
    }
}

/// The number of times the state enters `Connected` while the events
/// `events` arrive, in order, from state `state`.
pub open spec fn entries_in(state: LinkState, events: Seq<NetworkEvent>) -> nat
    decreases events.len(),
{
    if events.len() == 0 {
        0
    } else {
        entries_in(state, events.drop_last()) + if !(link_after(
            state,
            events.drop_last(),
        ) is Connected) && link_after(state, events) is Connected {
            1nat
        } else {
            0nat
        }
    }
}

/// A world request goes out for each transition into `Connected` and for no
/// other event; since nothing leads back to `Connecting`, a run of events
/// makes at most one, however many times the connection is reported.
pub proof fn lemma_one_request_per_connection(state: LinkState, events: Seq<NetworkEvent>)
    ensures
        requests_in(state, events) == entries_in(state, events),
        requests_in(state, events) <= 1,
        requests_in(state, events) == 1 ==> state is Connecting,
        link_after(state, events) is Connecting ==> state is Connecting,
        forall|e: NetworkEvent|
            issues_request(link_after(state, events), e) <==> (!(link_after(
                state,
                events,
            ) is Connected) && #[trigger] link_step(link_after(state, events), e) is Connected),
        requests_in(state, events) + (if link_after(state, events) is Connecting {
            1nat
        } else {
            0nat
        }) <= 1,
    decreases events.len(),
{
    if events.len() > 0 {
        lemma_one_request_per_connection(state, events.drop_last());
    }
}

/// A packet that cannot be read changes neither the world nor the
/// connection state, wherever it stands among the events of a tick, and
/// the events after it are handled as if it had not come.
pub proof fn lemma_bad_packet_ignored(
    world: Option<Seq<u8>>,
    state: LinkState,
    before: Seq<NetworkEvent>,
    bad: NetworkEvent,
    after: Seq<NetworkEvent>,
)
    requires
        bad matches NetworkEvent::Packet(_, b) && response_of(b@) is Err,
    ensures
        world_after(world, before + seq![bad] + after) == world_after(world, before + after),
        link_after(state, before + seq![bad] + after) == link_after(state, before + after),
    decreases after.len(),
{
    let all = before + seq![bad] + after;
    if after.len() == 0 {
        assert(all.drop_last() =~= before);
        assert(before + after =~= before);
    } else {
        lemma_bad_packet_ignored(world, state, before, bad, after.drop_last());
        assert(all.drop_last() =~= before + seq![bad] + after.drop_last());
        assert((before + after).drop_last() =~= before + after.drop_last());
    }
}

} // verus!
