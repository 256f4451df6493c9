//! The server's side of one connection: what a request line does to the
//! store and what is answered, and whether the connection goes on after the
//! answer.
//!
//! The caller owns the transport and the lock around the store. It hands in
//! one line and the store, exclusively borrowed for the whole call, so that
//! closing an interval, changing the current topic and opening the next
//! interval happen as one step.

use vstd::prelude::*;
use vstd::string::*;
use std::time::Instant;
use crate::request::{decoded, ClientRequest, RequestView};
use crate::response::{ResponseToClient, ResponseView, BAD_REQUEST, NOT_FOUND, SERVER_ERROR};
use crate::store::{find_topic, has_topic, position_of, StateView, TimeTrackingState};

verus! {

/// Where a connection stands.
#[derive(PartialEq, Eq, Structural, Clone, Copy, Debug)]
pub enum SessionState {
    /// Requests are read and answered.
    Open,
    /// The connection is over; the server goes on.
    Closed,
    /// The connection is over and the whole server is to stop.
    ProcessExit,
}

/// The answer to a switch that was carried out.
pub open spec fn switched_details(name: Seq<char>) -> Seq<char> {
    "Switched topic to "@ + name
}

/// The answer to a request, as far as the request and the store before it
/// decide it; `None` for `GetState`, whose answer carries the encoded state.
pub open spec fn plain_answer(request: RequestView, before: StateView) -> Option<ResponseView> {
    match request {
        RequestView::GetState => None,
        RequestView::SwitchTopic { id } => if has_topic(before.topics, id) {
            Some(
                ResponseView::Success {
                    details: switched_details(before.topics[position_of(before.topics, id)].name),
                },
            )
        } else {
            Some(ResponseView::Error { error_code: NOT_FOUND, msg: "Topic not found"@ })
        },
        RequestView::Bye => Some(ResponseView::Bye),
        RequestView::Terminate => Some(ResponseView::Terminating),
        RequestView::CreateTopic { .. }
        | RequestView::UpdateTopic { .. }
        | RequestView::DeleteTopic { .. } => Some(
            ResponseView::Error { error_code: SERVER_ERROR, msg: "Server error"@ },
        ),
    }
}

/// Whether a request closes the open interval and begins a new one, given
/// the store before it.
pub open spec fn closes_interval(request: RequestView, before: StateView) -> bool {
    match request {
        RequestView::GetState => true,
        RequestView::SwitchTopic { id } => has_topic(before.topics, id),
        _ => false,
    }
}

/// The store after a request that closed an open interval of `elapsed`
/// seconds.
pub open spec fn store_after(request: RequestView, before: StateView, elapsed: u64) -> StateView {
    match request {
        RequestView::GetState => before.credited(elapsed),
        RequestView::SwitchTopic { id } => before.switched(id, elapsed),
        _ => before,
    }
}

/// Where a connection stands after an answer was made and handed to the
/// transport: a failed send closes it whatever the answer was; otherwise
/// `Bye` closes it, `Terminating` stops the server, and any other answer
/// leaves it open.
pub open spec fn session_after(response: ResponseView, delivered: bool) -> SessionState {
    if !delivered {
        SessionState::Closed
    } else {
        match response {
            ResponseView::Bye => SessionState::Closed,
            ResponseView::Terminating => SessionState::ProcessExit,
            _ => SessionState::Open,
        }
    }
}

/// An answer that reports an error.
fn error_response(error_code: u64, msg: &str) -> (response: ResponseToClient)
    ensures
        response@ == (ResponseView::Error { error_code, msg: msg@ }),
{
    ResponseToClient::Error { error_code, msg: String::from_str(msg) }
}

/// `response` is the answer that `request` is owed on the store `before`,
/// where `after` is the store once the request is served: the answer that
/// request and store decide (see `plain_answer`), or, for `GetState`, a
/// `State` answer that carries what `encode_state` makes of the store as it
/// then is.
pub open spec fn answers<F: Fn(&TimeTrackingState) -> String>(
    request: RequestView,
    before: StateView,
    after: TimeTrackingState,
    response: ResponseToClient,
    encode_state: F,
) -> bool {
    match plain_answer(request, before) {
        Some(answer) => response@ == answer,
        None => response matches ResponseToClient::State { value } && call_ensures(
            encode_state,
            (&after,),
            value,
        ),
    }
}

/// A request can be served on a store: the current topic exists wherever
/// the request closes the open interval, which needs a topic to credit.
pub open spec fn servable(request: RequestView, store: StateView) -> bool {
    closes_interval(request, store) ==> store.wf()
}

/// A line can be served on a store: it does not decode, or it decodes to a
/// request that can be served.
pub open spec fn line_servable(line: Seq<char>, store: StateView) -> bool {
    decoded(line) matches Ok(request) ==> servable(request, store)
}

/// What serving a line does, whatever the clock reads: `before` and `after`
/// are the store before and after, `response` is the answer.
///
/// - A line that does not decode is answered with error 400 and the reason,
///   and leaves the store alone.
/// - A request that closes the open interval credits some number of seconds
///   and is answered as `answers` says; any other request is answered as
///   `answers` says and leaves the store alone.
pub open spec fn served<F: Fn(&TimeTrackingState) -> String>(
    line: Seq<char>,
    before: TimeTrackingState,
    after: TimeTrackingState,
    response: ResponseToClient,
    encode_state: F,
) -> bool {
    match decoded(line) {
        Err(reason) => {
            &&& response@ == (ResponseView::Error { error_code: BAD_REQUEST, msg: reason })
            &&& after == before
        },
        Ok(request) => {
            &&& answers(request, before@, after, response, encode_state)
            &&& if closes_interval(request, before@) {
                exists|elapsed: u64| after@ == store_after(request, before@, elapsed)
            } else {
                after == before
            }
        },
    }
}

/// Whether a request closes the open interval on this store: `GetState`
/// does, and so does a switch to a topic that the store holds.
pub fn closes_open_interval(request: &ClientRequest, state: &TimeTrackingState) -> (closes: bool)
    ensures
        closes == closes_interval(request@, state@),
{
    match request {
        ClientRequest::GetState {  } => true,
        ClientRequest::SwitchTopic { id } => match find_topic(*id, &state.topics_tree) {
            Some(_) => true,
            None => false,
        },
        _ => false,
    }
}

/// Serves one request against the store, given what the clock read:
/// `elapsed` whole seconds since the open interval began, and the instant
/// `now`.
///
/// - `GetState` credits the seconds to the current topic, begins the next
///   interval at `now` and answers with the state as `encode_state` writes
///   it.
/// - `SwitchTopic` to a topic of the store credits the seconds to the topic
///   that was current, makes the topic current, begins the next interval at
///   `now` and answers with the topic's name; to any other topic it is
///   answered with error 404.
/// - `Bye` and `Terminate` are acknowledged.
/// - The requests that create, update or delete a topic are answered with
///   error 500; the store does not carry them out.
///
/// Where the request does not close the open interval, the store stays as it
/// is and the reading of the clock plays no part.
pub fn answer_request_at<F: Fn(&TimeTrackingState) -> String>(
    request: &ClientRequest,
    state: &mut TimeTrackingState,
    elapsed: u64,
    now: Instant,
    encode_state: F,
) -> (response: ResponseToClient)
    requires
        servable(request@, old(state)@),
        forall|s: &TimeTrackingState| call_requires(encode_state, (s,)),
    ensures
        old(state).wf() ==> final(state).wf(),
        answers(request@, old(state)@, *final(state), response, encode_state),
        if closes_interval(request@, old(state)@) {
            &&& final(state)@ == store_after(request@, old(state)@, elapsed)
            &&& final(state).details.current_topic_start_instant == now
        } else {
            *final(state) == *old(state)
        },
{
    match request {
        ClientRequest::GetState {  } => {
            state.roll_interval(elapsed, now);
            let value = encode_state(&*state);
            ResponseToClient::State { value }
        },
        ClientRequest::Bye {  } => ResponseToClient::Bye {  },
        ClientRequest::Terminate {  } => ResponseToClient::Terminating {  },
        ClientRequest::SwitchTopic { id } => {
            match state.switch_at(*id, elapsed, now) {
                Ok(name) => ResponseToClient::Success {
                    details: String::from_str("Switched topic to ").concat(name.as_str()),
                },
                Err(_) => error_response(NOT_FOUND, "Topic not found"),
            }
        },
        _ => error_response(SERVER_ERROR, "Server error"),
    }
}

/// Serves one request line against the store: decodes it, reads the clock,
/// and serves the request as `answer_request_at` does it with the seconds
/// since the open interval began and the present instant. A line that does
/// not decode is answered with error 400 and the reason.
///
/// Only `GET_STATE` and a switch to an existing topic touch the store, and
/// only they need the current topic to exist.
pub fn handle_request<F: Fn(&TimeTrackingState) -> String>(
    line: &str,
    state: &mut TimeTrackingState,
    encode_state: F,
) -> (response: ResponseToClient)
    requires
        line_servable(line@, old(state)@),
        forall|s: &TimeTrackingState| call_requires(encode_state, (s,)),
    ensures
        old(state).wf() ==> final(state).wf(),
        served(line@, *old(state), *final(state), response, encode_state),
{
    let request = match ClientRequest::parse(line) {
        Ok(request) => request,
        Err(reason) => {
            return ResponseToClient::Error { error_code: BAD_REQUEST, msg: reason };
        },
    };
    let elapsed = state.details.current_topic_start_instant.elapsed().as_secs();
    let now = Instant::now();
    answer_request_at(&request, state, elapsed, now, encode_state)
}

/// Serves one request line as `handle_request` does, on any store: where
/// the line cannot be served, because it asks to close the open interval and
/// the current topic does not exist, nothing is done and `None` is returned.
pub fn try_handle_request<F: Fn(&TimeTrackingState) -> String>(
    line: &str,
    state: &mut TimeTrackingState,
    encode_state: F,
) -> (outcome: Option<ResponseToClient>)
    requires
        forall|s: &TimeTrackingState| call_requires(encode_state, (s,)),
    ensures
        old(state).wf() ==> final(state).wf(),
        match outcome {
            Some(response) => {
                &&& line_servable(line@, old(state)@)
                &&& served(line@, *old(state), *final(state), response, encode_state)
            },
            None => {
                &&& !line_servable(line@, old(state)@)
                &&& *final(state) == *old(state)
            },
        },
{
    let request = match ClientRequest::parse(line) {
        Ok(request) => request,
        Err(reason) => {
            return Some(ResponseToClient::Error { error_code: BAD_REQUEST, msg: reason });
        },
    };
    if closes_open_interval(&request, state) && !state.is_well_formed() {
        return None;
    }
    let elapsed = state.details.current_topic_start_instant.elapsed().as_secs();
    let now = Instant::now();
    Some(answer_request_at(&request, state, elapsed, now, encode_state))
}

/// Where a connection stands after an answer was handed to the transport;
/// `delivered` says whether the transport took it.
pub fn after_exchange(response: &ResponseToClient, delivered: bool) -> (next: SessionState)
    ensures
        next == session_after(response@, delivered),
{
    if !delivered {
        return SessionState::Closed;
    }
    match response {
        ResponseToClient::Bye {  } => SessionState::Closed,
        ResponseToClient::Terminating {  } => SessionState::ProcessExit,
        _ => SessionState::Open,
    }
}

/// What happened on a connection.
#[derive(Debug)]
pub enum SessionEvent {
    /// A line was answered; `delivered` says whether the transport took the
    /// answer.
    Answered { response: ResponseToClient, delivered: bool },
    /// The next line could not be read.
    ReceiveFailed,
    /// The peer has gone.
    PeerClosed,
}

/// `SessionEvent` as a mathematical value.
pub enum SessionEventView {
    Answered { response: ResponseView, delivered: bool },
    ReceiveFailed,
    PeerClosed,
}

impl View for SessionEvent {
    type V = SessionEventView;

    open spec fn view(&self) -> SessionEventView {
        match *self {
            SessionEvent::Answered { response, delivered } => SessionEventView::Answered {
                response: response@,
                delivered,
            },
            SessionEvent::ReceiveFailed => SessionEventView::ReceiveFailed,
            SessionEvent::PeerClosed => SessionEventView::PeerClosed,
        }
    }
}

/// Where a connection stands after an event. An open connection follows the
/// answer (see `session_after`) and is closed by a failed read or by the
/// peer going away; a connection that is over stays as it is.
pub open spec fn session_next(state: SessionState, event: SessionEventView) -> SessionState {
    if state != SessionState::Open {
        state
    } else {
        match event {
            SessionEventView::Answered { response, delivered } => session_after(
                response,
                delivered,
            ),
            _ => SessionState::Closed,
        }
    }
}

/// Where a connection stands after an event.
pub fn advance_session(state: SessionState, event: &SessionEvent) -> (next: SessionState)
    ensures
        next == session_next(state, event@),
{
    match state {
        SessionState::Open => match event {
            SessionEvent::Answered { response, delivered } => after_exchange(
                response,
                *delivered,
            ),
            _ => SessionState::Closed,
        },
        _ => state,
    }
}

/// Only `TERMINATE` stops the server, and only `BYE` and `TERMINATE` end a
/// connection whose answers are delivered: whatever else a line holds, the
/// connection stays open after its answer.
pub proof fn lemma_session_stays_open(line: Seq<char>, before: StateView, response: ResponseView)
    requires
        match decoded(line) {
            Err(reason) => response == (ResponseView::Error {
                error_code: BAD_REQUEST,
                msg: reason,
            }),
            Ok(request) => match plain_answer(request, before) {
                Some(answer) => response == answer,
                None => response is State,
            },
        },
    ensures
        session_after(response, true) == SessionState::ProcessExit <==> decoded(line)
            == Ok::<RequestView, Seq<char>>(RequestView::Terminate),
        session_after(response, true) == SessionState::Closed <==> decoded(line) == Ok::<
            RequestView,
            Seq<char>,
        >(RequestView::Bye),
        session_after(response, false) == SessionState::Closed,
{
}

} // verus!
