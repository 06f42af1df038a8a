//! The search for a gateway, as a machine that is driven from outside.
//!
//! The engine touches no socket. It says what is to be done next (send the
//! search, wait for a reply, fetch a description), and is told what came of
//! it and how much time has gone by since the search began. Whoever drives
//! it does the work: with blocking calls, or by awaiting them.

use vstd::prelude::*;
use vstd::slice::slice_subrange;
use vstd::utf8::valid_utf8;
use crate::addr::SocketAddress;
use crate::errors::{HttpError, IoFailure, SearchError};
use crate::gateway::{
    format_url, get_request, get_request_view, url_text, Gateway, GatewayView, HttpRequest,
    HttpRequestView,
};
use crate::messages::{MAX_RESPONSE_SIZE, SEARCH_REQUEST};
use crate::options::{SearchOptions, SearchOptionsView, DEFAULT_TIMEOUT, RESPONSE_TIMEOUT};
use crate::parsing::device::{parse_control_urls, parsed_control_urls};
use crate::parsing::location::{parse_search_result, search_result};
use crate::parsing::scpd::{parse_schemas, parsed_schema};
use crate::schema::{ControlSchema, Entry};
use crate::text::utf8_text;

verus! {

/// What a search goes by: the addresses, and the times in milliseconds.
#[derive(Debug, Clone, Copy, PartialEq, Eq, Structural)]
pub struct SearchPlan {
    /// The local address that the socket is bound to.
    pub bind_addr: SocketAddress,
    /// The address that the search request is sent to.
    pub broadcast_address: SocketAddress,
    /// The time after which the search gives up.
    pub max_time: u64,
    /// The longest time that the search waits for one reply.
    pub attempt_time: u64,
}

/// The plan that `options` ask for: the times that are set, and for those
/// that are not, ten seconds for the search and five for one reply.
pub open spec fn plan_of(options: SearchOptionsView) -> SearchPlan {
    SearchPlan {
        bind_addr: options.bind_addr,
        broadcast_address: options.broadcast_address,
        max_time: match options.timeout {
            Some(time) => time,
            None => DEFAULT_TIMEOUT,
        },
        attempt_time: match options.single_search_timeout {
            Some(time) => time,
            None => RESPONSE_TIMEOUT,
        },
    }
}

/// What came of the work that the engine asked for.
#[derive(Debug)]
pub enum Event {
    /// The search is to begin.
    Start,
    /// The socket is bound and the search request is sent.
    SearchSent,
    /// The socket could not be bound, or the search request could not be sent.
    SearchFailed(IoFailure),
    /// A datagram was received; these are its bytes.
    Datagram(Vec<u8>),
    /// No datagram came within the time that was given.
    ReceiveTimedOut,
    /// Receiving failed.
    ReceiveFailed,
    /// The response to the request came; these are its status and its body.
    Fetched {
        /// The status of the response.
        status: u16,
        /// The body of the response.
        body: Vec<u8>,
    },
    /// No response came to the request.
    FetchFailed,
}

/// An event as a value of mathematics.
pub ghost enum EventView {
    Start,
    SearchSent,
    SearchFailed(IoFailure),
    Datagram(Seq<u8>),
    ReceiveTimedOut,
    ReceiveFailed,
    Fetched { status: u16, body: Seq<u8> },
    FetchFailed,
}

impl View for Event {
    type V = EventView;

    open spec fn view(&self) -> EventView {
        match self {
            Event::Start => EventView::Start,
            Event::SearchSent => EventView::SearchSent,
            Event::SearchFailed(failure) => EventView::SearchFailed(*failure),
            Event::Datagram(bytes) => EventView::Datagram(bytes@),
            Event::ReceiveTimedOut => EventView::ReceiveTimedOut,
            Event::ReceiveFailed => EventView::ReceiveFailed,
            Event::Fetched { status, body } => EventView::Fetched { status: *status, body: body@ },
            Event::FetchFailed => EventView::FetchFailed,
        }
    }
}

/// What the engine asks for next.
#[derive(Debug)]
pub enum Action {
    /// Bind a socket to `bind`, and send `payload` from it to `to`. Answered
    /// by `SearchSent` or `SearchFailed`.
    Search {
        /// The local address.
        bind: SocketAddress,
        /// Where the request goes.
        to: SocketAddress,
        /// The request.
        payload: &'static str,
    },
    /// Wait for a datagram, no longer than `timeout` milliseconds, and read
    /// no more than `max_len` bytes of it. Answered by `Datagram`,
    /// `ReceiveTimedOut` or `ReceiveFailed`.
    Receive {
        /// The number of bytes that are read at most.
        max_len: usize,
        /// The time to wait at most, in milliseconds.
        timeout: u64,
    },
    /// Make `request`, and wait for the response no longer than `timeout`
    /// milliseconds. Answered by `Fetched` or `FetchFailed`.
    Fetch {
        /// The request.
        request: HttpRequest,
        /// The time to wait at most, in milliseconds.
        timeout: u64,
    },
    /// Nothing: the search is over.
    Finish,
}

/// An action as a value of mathematics.
pub ghost enum ActionView {
    Search { bind: SocketAddress, to: SocketAddress, payload: Seq<char> },
    Receive { max_len: usize, timeout: u64 },
    Fetch { request: HttpRequestView, timeout: u64 },
    Finish,
}

impl View for Action {
    type V = ActionView;

    open spec fn view(&self) -> ActionView {
        match self {
            Action::Search { bind, to, payload } => ActionView::Search {
                bind: *bind,
                to: *to,
                payload: payload@,
            },
            Action::Receive { max_len, timeout } => ActionView::Receive {
                max_len: *max_len,
                timeout: *timeout,
            },
            Action::Fetch { request, timeout } => ActionView::Fetch {
                request: request@,
                timeout: *timeout,
            },
            Action::Finish => ActionView::Finish,
        }
    }
}

/// Where a search stands.
#[derive(Debug)]
pub enum Phase {
    /// Nothing has been done yet.
    Idle,
    /// The search request is being sent.
    Searching,
    /// The search waits for a reply.
    AwaitingReply,
    /// A responder has replied, and its description is being fetched.
    ResolvingDevice {
        /// The address of the responder.
        addr: SocketAddress,
        /// The path of its description.
        root_url: String,
    },
    /// The description of the service that maps ports is being fetched.
    ResolvingSchema {
        /// The address of the responder.
        addr: SocketAddress,
        /// The path of its description.
        root_url: String,
        /// The path of the service's description.
        control_schema_url: String,
        /// The path at which the service is controlled.
        control_url: String,
    },
    /// A gateway was found.
    Done(Gateway),
    /// The search failed.
    Failed(SearchError),
}

/// Where a search stands, as a value of mathematics.
pub ghost enum State {
    Idle,
    Searching,
    AwaitingReply,
    ResolvingDevice { addr: SocketAddress, root_url: Seq<char> },
    ResolvingSchema {
        addr: SocketAddress,
        root_url: Seq<char>,
        control_schema_url: Seq<char>,
        control_url: Seq<char>,
    },
    Done(GatewayView),
    Failed(SearchError),
}

impl View for Phase {
    type V = State;

    open spec fn view(&self) -> State {
        match self {
            Phase::Idle => State::Idle,
            Phase::Searching => State::Searching,
            Phase::AwaitingReply => State::AwaitingReply,
            Phase::ResolvingDevice { addr, root_url } => State::ResolvingDevice {
                addr: *addr,
                root_url: root_url@,
            },
            Phase::ResolvingSchema { addr, root_url, control_schema_url, control_url } => {
                State::ResolvingSchema {
                    addr: *addr,
                    root_url: root_url@,
                    control_schema_url: control_schema_url@,
                    control_url: control_url@,
                }
            },
            Phase::Done(gateway) => State::Done(gateway@),
            Phase::Failed(error) => State::Failed(*error),
        }
    }
}

/// What one step of a search comes to: where the search stands after it,
/// what is to be done next, and the failure, if there was one, for which a
/// reply or a responder was passed over.
pub ghost struct Next {
    pub state: State,
    pub action: ActionView,
    pub skipped: Option<SearchError>,
}

/// The part of a datagram that is read: its first `MAX_RESPONSE_SIZE` bytes.
pub open spec fn reply_bytes(datagram: Seq<u8>) -> Seq<u8> {
    if datagram.len() > MAX_RESPONSE_SIZE {
        datagram.take(MAX_RESPONSE_SIZE as int)
    } else {
        datagram
    }
}

/// What a reply to the search says: where the responder is and where its
/// description is, or why the reply cannot be used.
pub open spec fn reply_location(reply: Seq<u8>) -> Result<(SocketAddress, Seq<char>), SearchError> {
    if !valid_utf8(reply) {
        Err(SearchError::Utf8)
    } else {
        match search_result(reply) {
            Ok(location) => Ok(location),
            Err(error) => Err(SearchError::Parse(error)),
        }
    }
}

/// Whether `status` is one of success.
pub open spec fn is_success(status: u16) -> bool {
    200 <= status <= 299
}

/// What the response to the request for a device's description says of the
/// service that maps ports, or why the response cannot be used.
pub open spec fn fetched_control_urls(status: u16, body: Seq<u8>) -> Result<
    (Seq<char>, Seq<char>),
    SearchError,
> {
    if !is_success(status) {
        Err(SearchError::Http(HttpError::Status(status)))
    } else {
        match parsed_control_urls(body) {
            Ok(urls) => Ok(urls),
            Err(error) => Err(SearchError::Parse(error)),
        }
    }
}

/// The schema that the response to the request for a service's description
/// declares, or why the response cannot be used.
pub open spec fn fetched_schema(status: u16, body: Seq<u8>) -> Result<Seq<Entry>, SearchError> {
    if !is_success(status) {
        Err(SearchError::Http(HttpError::Status(status)))
    } else {
        match parsed_schema(body) {
            Ok(schema) => Ok(schema),
            Err(error) => Err(SearchError::Parse(error)),
        }
    }
}

/// The search gives up: the time is over.
pub open spec fn timed_out(skipped: Option<SearchError>) -> Next {
    Next {
        state: State::Failed(SearchError::NoResponseWithinTimeout),
        action: ActionView::Finish,
        skipped,
    }
}

/// The search waits for the next reply, unless the time is over: for as long
/// as one reply is given, but no longer than the time that is left.
pub open spec fn await_reply(plan: SearchPlan, elapsed: u64, skipped: Option<SearchError>) -> Next {
    if elapsed >= plan.max_time {
        timed_out(skipped)
    } else {
        Next {
            state: State::AwaitingReply,
            action: ActionView::Receive {
                max_len: MAX_RESPONSE_SIZE,
                timeout: if plan.attempt_time <= plan.max_time - elapsed {
                    plan.attempt_time
                } else {
                    (plan.max_time - elapsed) as u64
                },
            },
            skipped,
        }
    }
}

/// The search fetches what `url` names and goes on to `state`, unless the
/// time is over: the request is given the time that is left.
pub open spec fn fetch(plan: SearchPlan, elapsed: u64, state: State, url: Seq<char>) -> Next {
    if elapsed >= plan.max_time {
        timed_out(None)
    } else {
        Next {
            state,
            action: ActionView::Fetch {
                request: get_request_view(url),
                timeout: (plan.max_time - elapsed) as u64,
            },
            skipped: None,
        }
    }
}

/// The step that a search takes from `state` when `event` comes, `elapsed`
/// milliseconds after its start. `None` where `state` does not wait for `event`.
pub open spec fn transition(plan: SearchPlan, state: State, event: EventView, elapsed: u64)
    -> Option<Next> {
    match (state, event) {
        (State::Idle, EventView::Start) => Some(
            Next {
                state: State::Searching,
                action: ActionView::Search {
                    bind: plan.bind_addr,
                    to: plan.broadcast_address,
                    payload: SEARCH_REQUEST@,
                },
                skipped: None,
            },
        ),
        (State::Searching, EventView::SearchSent) => Some(await_reply(plan, elapsed, None)),
        (State::Searching, EventView::SearchFailed(failure)) => Some(
            Next {
                state: State::Failed(SearchError::Io(failure)),
                action: ActionView::Finish,
                skipped: None,
            },
        ),
        (State::AwaitingReply, EventView::Datagram(bytes)) => Some(
            match reply_location(reply_bytes(bytes)) {
                Ok((addr, root_url)) => fetch(
                    plan,
                    elapsed,
                    State::ResolvingDevice { addr, root_url },
                    url_text(addr, root_url),
                ),
                Err(error) => await_reply(plan, elapsed, Some(error)),
            },
        ),
        (State::AwaitingReply, EventView::ReceiveTimedOut) => Some(
            await_reply(plan, elapsed, None),
        ),
        (State::AwaitingReply, EventView::ReceiveFailed) => Some(
            await_reply(plan, elapsed, Some(SearchError::Io(IoFailure::Receive))),
        ),
        (State::ResolvingDevice { addr, root_url }, EventView::Fetched { status, body }) => Some(
            match fetched_control_urls(status, body) {
                Ok((control_schema_url, control_url)) => fetch(
                    plan,
                    elapsed,
                    State::ResolvingSchema { addr, root_url, control_schema_url, control_url },
                    url_text(addr, control_schema_url),
                ),
                Err(error) => await_reply(plan, elapsed, Some(error)),
            },
        ),
        (State::ResolvingDevice { .. }, EventView::FetchFailed) => Some(
            await_reply(plan, elapsed, Some(SearchError::Http(HttpError::Transport))),
        ),
        (
            State::ResolvingSchema { addr, root_url, control_schema_url, control_url },
            EventView::Fetched { status, body },
        ) => Some(
            match fetched_schema(status, body) {
                Ok(control_schema) => Next {
                    state: State::Done(
                        GatewayView {
                            addr,
                            root_url,
                            control_url,
                            control_schema_url,
                            control_schema,
                        },
                    ),
                    action: ActionView::Finish,
                    skipped: None,
                },
                Err(error) => await_reply(plan, elapsed, Some(error)),
            },
        ),
        (State::ResolvingSchema { .. }, EventView::FetchFailed) => Some(
            await_reply(plan, elapsed, Some(SearchError::Http(HttpError::Transport))),
        ),
        _ => None,
    }
}

/// Reads a reply to the search: the responder's address and the path of its
/// description. `Utf8` where the reply is no text, `Parse` where it does not
/// say where the description is.
pub fn handle_broadcast_resp(data: &[u8]) -> (location: Result<(SocketAddress, String), SearchError>)
    ensures
        match location {
            Ok((addr, root_url)) => reply_location(data@) == Ok::<
                (SocketAddress, Seq<char>),
                SearchError,
            >((addr, root_url@)),
            Err(error) => reply_location(data@) == Err::<(SocketAddress, Seq<char>), SearchError>(
                error,
            ),
        },
{
    match utf8_text(data) {
        Some(text) => match parse_search_result(text) {
            Ok(location) => Ok(location),
            Err(error) => Err(SearchError::Parse(error)),
        },
        None => Err(SearchError::Utf8),
    }
}

/// Reads the response to the request for a device's description: the path
/// of the description of the service that maps ports, and the path at which
/// it is controlled. `Http` where the status is not one of success, `Parse`
/// where the body does not name such a service.
pub fn get_control_urls(status: u16, body: &[u8]) -> (urls: Result<(String, String), SearchError>)
    ensures
        match urls {
            Ok((schema_url, control_url)) => fetched_control_urls(status, body@) == Ok::<
                (Seq<char>, Seq<char>),
                SearchError,
            >((schema_url@, control_url@)),
            Err(error) => fetched_control_urls(status, body@) == Err::<
                (Seq<char>, Seq<char>),
                SearchError,
            >(error),
        },
{
    if status < 200 || status > 299 {
        return Err(SearchError::Http(HttpError::Status(status)));
    }
    match parse_control_urls(body) {
        Ok(urls) => Ok(urls),
        Err(error) => Err(SearchError::Parse(error)),
    }
}

/// Reads the response to the request for a service's description: the
/// schema that it declares. `Http` where the status is not one of success,
/// `Parse` where the body is no document.
pub fn get_schemas(status: u16, body: &[u8]) -> (schema: Result<ControlSchema, SearchError>)
    ensures
        match schema {
            Ok(found) => fetched_schema(status, body@) == Ok::<Seq<Entry>, SearchError>(found@),
            Err(error) => fetched_schema(status, body@) == Err::<Seq<Entry>, SearchError>(error),
        },
{
    if status < 200 || status > 299 {
        return Err(SearchError::Http(HttpError::Status(status)));
    }
    match parse_schemas(body) {
        Ok(schema) => Ok(schema),
        Err(error) => Err(SearchError::Parse(error)),
    }
}

/// What a step of the search asks for, and the failure, if there was one,
/// for which the step passed over a reply or a responder.
#[derive(Debug)]
pub struct Step {
    /// What is to be done next.
    pub action: Action,
    /// Why a reply or a responder was passed over.
    pub skipped: Option<SearchError>,
}

/// A search for a gateway.
#[derive(Debug)]
pub struct Engine {
    plan: SearchPlan,
    phase: Phase,
}

impl Engine {
    /// What the search goes by.
    pub closed spec fn plan(&self) -> SearchPlan {
        self.plan
    }

    /// Where the search stands.
    pub closed spec fn state(&self) -> State {
        self.phase@
    }

    /// A search that goes by `options` and has not begun.
    pub fn new(options: SearchOptions) -> (engine: Self)
        ensures
            engine.plan() == plan_of(options@),
            engine.state() == State::Idle,
    {
        let max_time: u64 = match options.timeout() {
            Some(time) => time,
            None => DEFAULT_TIMEOUT,
        };
        let attempt_time: u64 = match options.single_search_timeout() {
            Some(time) => time,
            None => RESPONSE_TIMEOUT,
        };
        Engine {
            plan: SearchPlan {
                bind_addr: options.bind_addr(),
                broadcast_address: options.broadcast_address(),
                max_time,
                attempt_time,
            },
            phase: Phase::Idle,
        }
    }

    /// What the search goes by.
    pub fn search_plan(&self) -> (plan: SearchPlan)
        ensures
            plan == self.plan(),
    {
        self.plan
    }

    /// Where the search stands.
    pub fn phase(&self) -> (phase: &Phase)
        ensures
            phase@ == self.state(),
    {
        &self.phase
    }

    /// Whether the search is over.
    pub fn is_finished(&self) -> (finished: bool)
        ensures
            finished == (self.state() is Done || self.state() is Failed),
    {
        match &self.phase {
            Phase::Done(_) => true,
            Phase::Failed(_) => true,
            _ => false,
        }
    }

    /// How the search ended: with the gateway that was found, or with the
    /// reason for which it failed. `None` while the search is not over.
    pub fn into_result(self) -> (result: Option<Result<Gateway, SearchError>>)
        ensures
            match result {
                Some(Ok(gateway)) => self.state() == State::Done(gateway@),
                Some(Err(error)) => self.state() == State::Failed(error),
                None => !(self.state() is Done || self.state() is Failed),
            },
    {
        match self.phase {
            Phase::Done(gateway) => Some(Ok(gateway)),
            Phase::Failed(error) => Some(Err(error)),
            _ => None,
        }
    }

    fn await_reply(&mut self, elapsed: u64, skipped: Option<SearchError>) -> (step: Step)
        ensures
            final(self).plan() == old(self).plan(),
            final(self).state() == await_reply(old(self).plan(), elapsed, skipped).state,
            step.action@ == await_reply(old(self).plan(), elapsed, skipped).action,
            step.skipped == skipped,
    {
        if elapsed >= self.plan.max_time {
            self.phase = Phase::Failed(SearchError::NoResponseWithinTimeout);
            Step { action: Action::Finish, skipped }
        } else {
            let left: u64 = self.plan.max_time - elapsed;
            let timeout: u64 = if self.plan.attempt_time <= left {
                self.plan.attempt_time
            } else {
                left
            };
            self.phase = Phase::AwaitingReply;
            Step { action: Action::Receive { max_len: MAX_RESPONSE_SIZE, timeout }, skipped }
        }
    }

    fn fetch(&mut self, elapsed: u64, phase: Phase, url: String) -> (step: Step)
        ensures
            final(self).plan() == old(self).plan(),
            final(self).state() == fetch(old(self).plan(), elapsed, phase@, url@).state,
            step.action@ == fetch(old(self).plan(), elapsed, phase@, url@).action,
            step.skipped is None,
    {
        if elapsed >= self.plan.max_time {
            self.phase = Phase::Failed(SearchError::NoResponseWithinTimeout);
            Step { action: Action::Finish, skipped: None }
        } else {
            let timeout: u64 = self.plan.max_time - elapsed;
            self.phase = phase;
            Step { action: Action::Fetch { request: get_request(url), timeout }, skipped: None }
        }
    }

    /// Takes the step that `event` calls for, `elapsed` milliseconds after
    /// the start of the search, and says what is to be done next. `None`,
    /// and nothing changes, where the search does not wait for `event`.
    ///
    /// A reply that cannot be read, a description that cannot be fetched or
    /// read, and a wait that ends without a reply send the search back to
    /// waiting for the next reply. Before each wait and each request the
    /// time is looked at: once `elapsed` has reached the time that the
    /// search may take, the search fails with `NoResponseWithinTimeout`.
    pub fn step(&mut self, event: Event, elapsed: u64) -> (step: Option<Step>)
        ensures
            final(self).plan() == old(self).plan(),
            match transition(old(self).plan(), old(self).state(), event@, elapsed) {
                Some(next) => {
                    &&& final(self).state() == next.state
                    &&& step matches Some(taken)
                    &&& taken.action@ == next.action
                    &&& taken.skipped == next.skipped
                },
                None => final(self).state() == old(self).state() && step is None,
            },
    {
        let mut phase = Phase::Idle;
        core::mem::swap(&mut phase, &mut self.phase);
        match phase {
            Phase::Idle => match event {
                Event::Start => {
                    self.phase = Phase::Searching;
                    Some(
                        Step {
                            action: Action::Search {
                                bind: self.plan.bind_addr,
                                to: self.plan.broadcast_address,
                                payload: SEARCH_REQUEST,
                            },
                            skipped: None,
                        },
                    )
                },
                _ => {
                    self.phase = Phase::Idle;
                    None
                },
            },
            Phase::Searching => match event {
                Event::SearchSent => Some(self.await_reply(elapsed, None)),
                Event::SearchFailed(failure) => {
                    self.phase = Phase::Failed(SearchError::Io(failure));
                    Some(Step { action: Action::Finish, skipped: None })
                },
                _ => {
                    self.phase = Phase::Searching;
                    None
                },
            },
            Phase::AwaitingReply => match event {
                Event::Datagram(bytes) => {
                    let reply = if bytes.len() > MAX_RESPONSE_SIZE {
                        slice_subrange(bytes.as_slice(), 0, MAX_RESPONSE_SIZE)
                    } else {
                        bytes.as_slice()
                    };
                    match handle_broadcast_resp(reply) {
                        Ok((addr, root_url)) => {
                            let url = format_url(addr, root_url.as_str());
                            Some(self.fetch(elapsed, Phase::ResolvingDevice { addr, root_url }, url))
                        },
                        Err(error) => Some(self.await_reply(elapsed, Some(error))),
                    }
                },
                Event::ReceiveTimedOut => Some(self.await_reply(elapsed, None)),
                Event::ReceiveFailed => Some(
                    self.await_reply(elapsed, Some(SearchError::Io(IoFailure::Receive))),
                ),
                _ => {
                    self.phase = Phase::AwaitingReply;
                    None
                },
            },
            Phase::ResolvingDevice { addr, root_url } => match event {
                Event::Fetched { status, body } => {
                    match get_control_urls(status, body.as_slice()) {
                        Ok((control_schema_url, control_url)) => {
                            let url = format_url(addr, control_schema_url.as_str());
                            Some(
                                self.fetch(
                                    elapsed,
                                    Phase::ResolvingSchema {
                                        addr,
                                        root_url,
                                        control_schema_url,
                                        control_url,
                                    },
                                    url,
                                ),
                            )
                        },
                        Err(error) => Some(self.await_reply(elapsed, Some(error))),
                    }
                },
                Event::FetchFailed => Some(
                    self.await_reply(elapsed, Some(SearchError::Http(HttpError::Transport))),
                ),
                _ => {
                    self.phase = Phase::ResolvingDevice { addr, root_url };
                    None
                },
            },
            Phase::ResolvingSchema { addr, root_url, control_schema_url, control_url } => match event {
                Event::Fetched { status, body } => {
                    match get_schemas(status, body.as_slice()) {
                        Ok(control_schema) => {
                            self.phase = Phase::Done(
                                Gateway {
                                    addr,
                                    root_url,
                                    control_url,
                                    control_schema_url,
                                    control_schema,
                                },
                            );
                            Some(Step { action: Action::Finish, skipped: None })
                        },
                        Err(error) => Some(self.await_reply(elapsed, Some(error))),
                    }
                },
                Event::FetchFailed => Some(
                    self.await_reply(elapsed, Some(SearchError::Http(HttpError::Transport))),
                ),
                _ => {
                    self.phase = Phase::ResolvingSchema {
                        addr,
                        root_url,
                        control_schema_url,
                        control_url,
                    };
                    None
                },
            },
            Phase::Done(gateway) => {
                self.phase = Phase::Done(gateway);
                None
            },
            Phase::Failed(error) => {
                self.phase = Phase::Failed(error);
                None
            },
        }
    }
}

} // verus!
