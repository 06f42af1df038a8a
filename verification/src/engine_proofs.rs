//! What is proved of every step of a search.

use vstd::prelude::*;
use crate::engine::{
    is_success, reply_bytes, reply_location, transition, ActionView, EventView, SearchPlan, State,
};
use crate::addr::SocketAddress;
use crate::errors::{ParseError, SearchError};
use crate::parsing::device::parsed_control_urls;
use crate::parsing::scpd::parsed_schema;
use crate::schema::Entry;

verus! {

/// A search that is over stays as it is: it waits for no event.
pub proof fn lemma_finished_stays(plan: SearchPlan, state: State, event: EventView, elapsed: u64)
    requires
        state is Done || state is Failed,
    ensures
        transition(plan, state, event, elapsed) is None,
{
}

/// A gateway comes only out of the last link of the chain: out of the
/// description of a service, fetched with success and read, for a responder
/// whose address and paths are the gateway's. Nothing of the gateway is
/// made up, and no gateway is made of less.
pub proof fn lemma_done_needs_schema(plan: SearchPlan, state: State, event: EventView, elapsed: u64)
    requires
        transition(plan, state, event, elapsed) matches Some(next) && next.state is Done,
    ensures
        state is ResolvingSchema,
        event is Fetched,
        is_success(event->status),
        ({
            let gateway = transition(plan, state, event, elapsed)->0.state->Done_0;
            &&& parsed_schema(event->body) == Ok::<Seq<Entry>, ParseError>(gateway.control_schema)
            &&& gateway.addr == state->ResolvingSchema_addr
            &&& gateway.root_url == state->ResolvingSchema_root_url
            &&& gateway.control_schema_url == state->ResolvingSchema_control_schema_url
            &&& gateway.control_url == state->ResolvingSchema_control_url
        }),
{
}

/// The description of a service is fetched only after the description of
/// the device was fetched with success and read, and names the service's
/// paths; the address and the path of the device are carried along.
pub proof fn lemma_schema_needs_device(plan: SearchPlan, state: State, event: EventView, elapsed: u64)
    requires
        transition(plan, state, event, elapsed) matches Some(next) && next.state is ResolvingSchema,
    ensures
        state is ResolvingDevice,
        event is Fetched,
        is_success(event->status),
        ({
            let after = transition(plan, state, event, elapsed)->0.state;
            &&& parsed_control_urls(event->body) == Ok::<(Seq<char>, Seq<char>), ParseError>(
                (after->ResolvingSchema_control_schema_url, after->ResolvingSchema_control_url),
            )
            &&& after->ResolvingSchema_addr == state->ResolvingDevice_addr
            &&& after->ResolvingSchema_root_url == state->ResolvingDevice_root_url
        }),
{
}

/// The description of a device is fetched only after a reply came that
/// says where the device is and where its description is.
pub proof fn lemma_device_needs_reply(plan: SearchPlan, state: State, event: EventView, elapsed: u64)
    requires
        transition(plan, state, event, elapsed) matches Some(next) && next.state is ResolvingDevice,
    ensures
        state is AwaitingReply,
        event is Datagram,
        ({
            let after = transition(plan, state, event, elapsed)->0.state;
            reply_location(reply_bytes(event->Datagram_0)) == Ok::<
                (SocketAddress, Seq<char>),
                SearchError,
            >((after->ResolvingDevice_addr, after->ResolvingDevice_root_url))
        }),
{
}

/// A search gives up for want of time only when its time is over.
pub proof fn lemma_gives_up_only_when_due(
    plan: SearchPlan,
    state: State,
    event: EventView,
    elapsed: u64,
)
    requires
        transition(plan, state, event, elapsed) matches Some(next) && next.state == State::Failed(
            SearchError::NoResponseWithinTimeout,
        ),
    ensures
        elapsed >= plan.max_time,
{
}

/// Once its time is over, a search that has been begun waits and fetches
/// no more: its next step ends it.
pub proof fn lemma_ends_when_due(plan: SearchPlan, state: State, event: EventView, elapsed: u64)
    requires
        elapsed >= plan.max_time,
        !(state is Idle),
        transition(plan, state, event, elapsed) is Some,
    ensures
        ({
            let next = transition(plan, state, event, elapsed)->0;
            (next.state is Done || next.state is Failed) && next.action == ActionView::Finish
        }),
{
}

/// While there is time, no reply and no responder ends the search: a step
/// that passes one over goes back to waiting for the next reply.
pub proof fn lemma_failures_are_passed_over(
    plan: SearchPlan,
    state: State,
    event: EventView,
    elapsed: u64,
)
    requires
        elapsed < plan.max_time,
        state is AwaitingReply || state is ResolvingDevice || state is ResolvingSchema,
        transition(plan, state, event, elapsed) is Some,
    ensures
        ({
            let next = transition(plan, state, event, elapsed)->0;
            &&& !(next.state is Failed)
            &&& next.skipped is Some ==> next.state is AwaitingReply && next.action is Receive
        }),
{
}

/// A search fails for two reasons only: the socket failed, or the time is
/// over. What goes wrong with a reply or a responder never becomes the
/// outcome of the search.
pub proof fn lemma_search_fails_for_two_reasons(
    plan: SearchPlan,
    state: State,
    event: EventView,
    elapsed: u64,
)
    requires
        transition(plan, state, event, elapsed) matches Some(next) && next.state is Failed,
    ensures
        ({
            let error = transition(plan, state, event, elapsed)->0.state->Failed_0;
            error is Io || error == SearchError::NoResponseWithinTimeout
        }),
{
}

/// A failure of the socket ends the search only while the search request
/// is being sent.
pub proof fn lemma_socket_failure_ends_search(
    plan: SearchPlan,
    state: State,
    event: EventView,
    elapsed: u64,
)
    requires
        transition(plan, state, event, elapsed) matches Some(next) && next.state is Failed
            && next.state->Failed_0 is Io,
    ensures
        state is Searching,
        event is SearchFailed,
        transition(plan, state, event, elapsed)->0.state == State::Failed(
            SearchError::Io(event->SearchFailed_0),
        ),
{
}

/// What a step asks to wait for fits into the time that is left: a wait for
/// a reply is no longer than the time for one reply, and neither a wait nor
/// a request is given more than what is left of the search's time. A
/// request is given all of it.
pub proof fn lemma_waits_fit(plan: SearchPlan, state: State, event: EventView, elapsed: u64)
    requires
        transition(plan, state, event, elapsed) is Some,
    ensures
        ({
            let next = transition(plan, state, event, elapsed)->0;
            &&& next.action matches ActionView::Receive { timeout, .. } ==> elapsed < plan.max_time
                && timeout <= plan.attempt_time && timeout <= plan.max_time - elapsed && (timeout
                == plan.attempt_time || timeout == plan.max_time - elapsed)
            &&& next.action matches ActionView::Fetch { timeout, .. } ==> elapsed < plan.max_time
                && timeout == plan.max_time - elapsed
        }),
{
}

} // verus!
