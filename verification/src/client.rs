//! The client's side of a connection: which requests one command sends, in
//! which order, and what it makes of the answers.
//!
//! The caller owns the transport. It starts a command with `start`, sends the
//! request it is given, and hands what came back to `advance`, until nothing
//! is left to send. Every command that does not break off takes its leave
//! with `BYE`.

use vstd::prelude::*;
use crate::request::{ClientRequest, RequestView};
use crate::response::{ResponseToClient, ResponseView};
use crate::store::{
    placeholder_view, topic_views, StateView, TimeTrackingState, TopicView, OFF_TOPIC_ID,
};

verus! {

/// Identifier of the topic that tracking is switched to when it is enabled.
pub const IDLE_TOPIC_ID: u64 = 1;

/// What the user asked for.
#[derive(PartialEq, Eq, Structural, Clone, Copy, Debug)]
pub enum ClientCommand {
    /// Show the state.
    ShowState,
    /// Turn tracking on, unless it is on already.
    Enable,
    /// Turn tracking off.
    Disable,
    /// Make topic `id` current.
    Switch { id: u64 },
}

/// What came of one request.
#[derive(Debug)]
pub enum Reply {
    /// The server answered.
    Response { response: ResponseToClient },
    /// The request could not be sent, and no answer was waited for.
    SendFailed,
    /// The answer could not be read from the connection.
    ReceiveFailed,
    /// The connection ended before an answer came.
    Disconnected,
}

/// `Reply` as a mathematical value.
pub enum ReplyView {
    Response { response: ResponseView },
    SendFailed,
    ReceiveFailed,
    Disconnected,
}

impl View for Reply {
    type V = ReplyView;

    open spec fn view(&self) -> ReplyView {
        match *self {
            Reply::Response { response } => ReplyView::Response { response: response@ },
            Reply::SendFailed => ReplyView::SendFailed,
            Reply::ReceiveFailed => ReplyView::ReceiveFailed,
            Reply::Disconnected => ReplyView::Disconnected,
        }
    }
}

/// Why a switch is under way.
#[derive(PartialEq, Eq, Structural, Clone, Copy, Debug)]
pub enum Purpose {
    Enable,
    Disable,
    Manual,
}

/// What the driver is waiting for.
#[derive(PartialEq, Eq, Structural, Clone, Copy, Debug)]
pub enum DriverState {
    /// For the state, to see whether tracking is on already.
    Probing,
    /// For the answer to a switch.
    Switching { purpose: Purpose },
    /// For the state, to show it.
    Showing,
    /// For the acknowledgement of `BYE`.
    Leaving,
    /// For nothing: the command is through.
    Finished,
    /// For nothing: the command broke off, because the answer to a switch
    /// could not be read.
    Failed,
}

/// Something to tell the user.
#[derive(PartialEq, Eq, Structural, Clone, Copy, Debug)]
pub enum Notice {
    /// No state came back; an empty one stands in for it.
    StateUnavailable,
    /// Tracking is off.
    TrackingDisabled,
    /// Tracking was on already.
    AlreadyEnabled,
    /// Tracking is on now.
    Enabled,
    /// Tracking could not be turned on.
    EnableFailed,
    /// Tracking could not be turned off.
    DisableFailed,
    /// The topic was switched.
    Switched,
    /// The topic was not switched.
    SwitchFailed,
    /// The answer to a switch was neither a success nor an error.
    UnexpectedSwitchReply,
    /// `BYE` was not acknowledged with `Bye`.
    ByeUnacknowledged,
}

/// What the caller is to do next.
#[derive(Debug)]
pub struct DriverOutput {
    /// What to tell the user, in order.
    pub notices: Vec<Notice>,
    /// The state to show, if one is to be shown.
    pub display: Option<TimeTrackingState>,
    /// The request to send, if one is to be sent.
    pub send: Option<ClientRequest>,
    /// What the driver waits for from here on.
    pub next: DriverState,
}

/// `DriverOutput` as a mathematical value.
pub struct OutputView {
    pub notices: Seq<Notice>,
    pub display: Option<StateView>,
    pub send: Option<RequestView>,
    pub next: DriverState,
}

impl View for DriverOutput {
    type V = OutputView;

    open spec fn view(&self) -> OutputView {
        OutputView {
            notices: self.notices@,
            display: match self.display {
                Some(state) => Some(state@),
                None => None,
            },
            send: match self.send {
                Some(request) => Some(request@),
                None => None,
            },
            next: self.next,
        }
    }
}

/// The first request of a command and what the driver then waits for.
pub open spec fn opening(command: ClientCommand) -> OutputView {
    let (send, next) = match command {
        ClientCommand::ShowState => (RequestView::GetState, DriverState::Showing),
        ClientCommand::Enable => (RequestView::GetState, DriverState::Probing),
        ClientCommand::Disable => (
            RequestView::SwitchTopic { id: OFF_TOPIC_ID },
            DriverState::Switching { purpose: Purpose::Disable },
        ),
        ClientCommand::Switch { id } => (
            RequestView::SwitchTopic { id },
            DriverState::Switching { purpose: Purpose::Manual },
        ),
    };
    OutputView { notices: Seq::empty(), display: None, send: Some(send), next }
}

/// The encoded state that a reply carries, if it carries one.
pub open spec fn state_payload(reply: ReplyView) -> Option<Seq<char>> {
    match reply {
        ReplyView::Response { response: ResponseView::State { value } } => Some(value),
        _ => None,
    }
}

/// Whether a reply says that a switch was carried out: only a `Success`
/// does.
pub open spec fn switch_succeeded(reply: ReplyView) -> bool {
    reply matches ReplyView::Response { response: ResponseView::Success { .. } }
}

/// Whether a reply to a switch is an answer of a kind that a switch does not
/// have.
pub open spec fn switch_reply_unexpected(reply: ReplyView) -> bool {
    reply matches ReplyView::Response { response } && !(response is Success) && !(response
        is Error)
}

/// Whether a reply acknowledges `BYE`.
pub open spec fn bye_acknowledged(reply: ReplyView) -> bool {
    reply matches ReplyView::Response { response: ResponseView::Bye }
}

/// The notices after a fetch of the state.
pub open spec fn fetch_notices(reply: ReplyView) -> Seq<Notice> {
    if state_payload(reply) is Some {
        Seq::empty()
    } else {
        seq![Notice::StateUnavailable]
    }
}

/// What to do after a fetch that was made to show the state `fetched`.
pub open spec fn after_showing(reply: ReplyView, fetched: StateView) -> OutputView {
    OutputView {
        notices: if fetched.current_topic_id == OFF_TOPIC_ID {
            fetch_notices(reply).push(Notice::TrackingDisabled)
        } else {
            fetch_notices(reply)
        },
        display: Some(fetched),
        send: Some(RequestView::Bye),
        next: DriverState::Leaving,
    }
}

/// What to do after a fetch that was made to see whether tracking is on,
/// and that gave the state `fetched`.
pub open spec fn after_probing(reply: ReplyView, fetched: StateView) -> OutputView {
    if fetched.current_topic_id != OFF_TOPIC_ID {
        OutputView {
            notices: fetch_notices(reply).push(Notice::AlreadyEnabled),
            display: None,
            send: Some(RequestView::GetState),
            next: DriverState::Showing,
        }
    } else {
        OutputView {
            notices: fetch_notices(reply),
            display: None,
            send: Some(RequestView::SwitchTopic { id: IDLE_TOPIC_ID }),
            next: DriverState::Switching { purpose: Purpose::Enable },
        }
    }
}

/// What to do after the reply to a switch. Where the reply could not be read
/// the command breaks off. After any other reply the state is fetched and
/// shown, whether the switch was carried out or not; the notices say which.
pub open spec fn after_switching(purpose: Purpose, reply: ReplyView) -> OutputView {
    if reply is ReceiveFailed {
        OutputView { notices: Seq::empty(), display: None, send: None, next: DriverState::Failed }
    } else {
        let done = switch_succeeded(reply);
        let first = if switch_reply_unexpected(reply) {
            seq![Notice::UnexpectedSwitchReply]
        } else {
            Seq::empty()
        };
        let notices = match purpose {
            Purpose::Manual => first.push(
                if done {
                    Notice::Switched
                } else {
                    Notice::SwitchFailed
                },
            ),
            Purpose::Enable => first.push(
                if done {
                    Notice::Enabled
                } else {
                    Notice::EnableFailed
                },
            ),
            Purpose::Disable => if done {
                first
            } else {
                first.push(Notice::DisableFailed)
            },
        };
        OutputView {
            notices,
            display: None,
            send: Some(RequestView::GetState),
            next: DriverState::Showing,
        }
    }
}

/// What to do after the reply to `BYE`.
pub open spec fn after_leaving(reply: ReplyView) -> OutputView {
    OutputView {
        notices: if bye_acknowledged(reply) {
            Seq::empty()
        } else {
            seq![Notice::ByeUnacknowledged]
        },
        display: None,
        send: None,
        next: DriverState::Finished,
    }
}

/// Nothing to do: the driver stays where it is.
pub open spec fn at_rest(state: DriverState) -> OutputView {
    OutputView { notices: Seq::empty(), display: None, send: None, next: state }
}

/// What the driver does with a reply. `fetched` is the state that the reply
/// stands for where the driver waited for one: the decoded state of a
/// `State` answer, and the empty placeholder for every other reply, a
/// request that could not be sent included.
pub open spec fn step(state: DriverState, reply: ReplyView, fetched: StateView) -> OutputView {
    match state {
        DriverState::Probing => after_probing(reply, fetched),
        DriverState::Showing => after_showing(reply, fetched),
        DriverState::Switching { purpose } => after_switching(purpose, reply),
        DriverState::Leaving => after_leaving(reply),
        DriverState::Finished | DriverState::Failed => at_rest(state),
    }
}

/// How many requests the driver may still send, at most, before it comes to
/// rest.
pub open spec fn requests_left(state: DriverState) -> nat {
    match state {
        DriverState::Probing => 4,
        DriverState::Switching { .. } => 3,
        DriverState::Showing => 2,
        DriverState::Leaving => 1,
        DriverState::Finished | DriverState::Failed => 0,
    }
}

/// The driver is waiting for nothing.
pub open spec fn at_end(state: DriverState) -> bool {
    state == DriverState::Finished || state == DriverState::Failed
}

// ---------------------------------------------------------------------------
// Laws
// ---------------------------------------------------------------------------

/// Every step brings the driver nearer to rest, so a command is through
/// after at most four requests. A request is sent exactly when the driver
/// goes on waiting, and the driver takes its leave exactly by sending `BYE`:
/// a command that does not break off ends with `BYE`.
pub proof fn lemma_driver_progress(state: DriverState, reply: ReplyView, fetched: StateView)
    requires
        !at_end(state),
    ensures
        requests_left(step(state, reply, fetched).next) < requests_left(state),
        step(state, reply, fetched).send is Some <==> !at_end(step(state, reply, fetched).next),
        step(state, reply, fetched).next == DriverState::Leaving <==> step(
            state,
            reply,
            fetched,
        ).send == Some(RequestView::Bye),
        step(state, reply, fetched).next == DriverState::Finished <==> state
            == DriverState::Leaving,
        step(state, reply, fetched).display is Some ==> state == DriverState::Showing,
{
}

/// The state is shown at the end of every command that does not break off:
/// the driver takes its leave only after it has shown the state, every
/// switch whose reply could be read is followed by a fetch of the state, and
/// a fetch never breaks off, whatever became of its request. The one thing
/// that breaks a command off is a reply to a switch that could not be read.
pub proof fn lemma_display_follows(state: DriverState, reply: ReplyView, fetched: StateView)
    ensures
        step(state, reply, fetched).next == DriverState::Leaving <==> state
            == DriverState::Showing,
        state == DriverState::Showing ==> step(state, reply, fetched).display == Some(fetched),
        state is Switching && !(reply is ReceiveFailed) ==> {
            &&& step(state, reply, fetched).send == Some(RequestView::GetState)
            &&& step(state, reply, fetched).next == DriverState::Showing
        },
        step(state, reply, fetched).next == DriverState::Failed <==> state == DriverState::Failed
            || (state is Switching && reply is ReceiveFailed),
{
}

/// The first request of every command is waited for, and none is `BYE`.
pub proof fn lemma_opening(command: ClientCommand)
    ensures
        opening(command).send is Some,
        !at_end(opening(command).next),
        opening(command).next != DriverState::Leaving,
{
}

// ---------------------------------------------------------------------------
// Executable driver
// ---------------------------------------------------------------------------

/// The driver is waiting for the state.
pub open spec fn waits_for_state(state: DriverState) -> bool {
    state == DriverState::Probing || state == DriverState::Showing
}

/// `state` is what a reply to `GET_STATE` stands for: what `decode_state`
/// makes of the text of a `State` answer, and the empty placeholder for any
/// other reply.
pub open spec fn stands_for<F: Fn(&String) -> TimeTrackingState>(
    reply: Reply,
    decode_state: F,
    state: TimeTrackingState,
) -> bool {
    match reply {
        Reply::Response { response: ResponseToClient::State { value } } => call_ensures(
            decode_state,
            (&value,),
            state,
        ),
        _ => state@ == placeholder_view(),
    }
}

/// The state that a reply to `GET_STATE` stands for. A `State` answer is
/// decoded by `decode_state`; anything else stands for no state, and the
/// empty placeholder takes its place.
pub fn fetched_state<F: Fn(&String) -> TimeTrackingState>(reply: &Reply, decode_state: F) -> (state:
    TimeTrackingState)
    requires
        forall|text: &String| call_requires(decode_state, (text,)),
    ensures
        stands_for(*reply, decode_state, state),
{
    match reply {
        Reply::Response { response: ResponseToClient::State { value } } => decode_state(value),
        _ => TimeTrackingState::placeholder(),
    }
}

/// Whether a reply says that a switch was carried out.
pub fn switch_confirmed(reply: &Reply) -> (done: bool)
    ensures
        done == switch_succeeded(reply@),
{
    match reply {
        Reply::Response { response: ResponseToClient::Success { .. } } => true,
        _ => false,
    }
}

/// Begins a command: gives its first request and what the driver then waits
/// for.
pub fn start(command: ClientCommand) -> (output: DriverOutput)
    ensures
        output@ == opening(command),
{
    let (send, next) = match command {
        ClientCommand::ShowState => (ClientRequest::GetState {  }, DriverState::Showing),
        ClientCommand::Enable => (ClientRequest::GetState {  }, DriverState::Probing),
        ClientCommand::Disable => (
            ClientRequest::SwitchTopic { id: OFF_TOPIC_ID },
            DriverState::Switching { purpose: Purpose::Disable },
        ),
        ClientCommand::Switch { id } => (
            ClientRequest::SwitchTopic { id },
            DriverState::Switching { purpose: Purpose::Manual },
        ),
    };
    DriverOutput { notices: Vec::new(), display: None, send: Some(send), next }
}

/// Takes the reply to the request that was sent last and says what to do
/// next. Where the driver waited for the state, the reply is decoded with
/// `decode_state` (see `fetched_state`); a state that is shown is handed out
/// in `display`.
pub fn advance<F: Fn(&String) -> TimeTrackingState>(
    state: DriverState,
    reply: &Reply,
    decode_state: F,
) -> (output: DriverOutput)
    requires
        forall|text: &String| call_requires(decode_state, (text,)),
    ensures
        waits_for_state(state) ==> exists|fetched: TimeTrackingState|
            stands_for(*reply, decode_state, fetched) && output@ == step(state, reply@, fetched@),
        !waits_for_state(state) ==> forall|fetched: StateView|
            output@ == step(state, reply@, fetched),
{
    match state {
        DriverState::Probing => {
            let mut notices = notices_after_fetch(reply);
            let fetched = fetched_state(reply, decode_state);
            let output = if fetched.current_topic_id != OFF_TOPIC_ID {
                notices.push(Notice::AlreadyEnabled);
                DriverOutput {
                    notices,
                    display: None,
                    send: Some(ClientRequest::GetState {  }),
                    next: DriverState::Showing,
                }
            } else {
                DriverOutput {
                    notices,
                    display: None,
                    send: Some(ClientRequest::SwitchTopic { id: IDLE_TOPIC_ID }),
                    next: DriverState::Switching { purpose: Purpose::Enable },
                }
            };
            assert(output@ == step(state, reply@, fetched@));
            output
        },
        DriverState::Showing => {
            let mut notices = notices_after_fetch(reply);
            let fetched = fetched_state(reply, decode_state);
            if fetched.current_topic_id == OFF_TOPIC_ID {
                notices.push(Notice::TrackingDisabled);
            }
            let ghost shown = fetched@;
            let output = DriverOutput {
                notices,
                display: Some(fetched),
                send: Some(ClientRequest::Bye {  }),
                next: DriverState::Leaving,
            };
            assert(output@ == step(state, reply@, shown));
            output
        },
        DriverState::Switching { purpose } => {
            if let Reply::ReceiveFailed = reply {
                return rest_in(DriverState::Failed);
            }
            let done = switch_confirmed(reply);
            let mut notices: Vec<Notice> = Vec::new();
            let unexpected = match reply {
                Reply::Response { response: ResponseToClient::Success { .. } } => false,
                Reply::Response { response: ResponseToClient::Error { .. } } => false,
                Reply::Response { .. } => true,
                _ => false,
            };
            if unexpected {
                notices.push(Notice::UnexpectedSwitchReply);
            }
            match purpose {
                Purpose::Manual => {
                    notices.push(
                        if done {
                            Notice::Switched
                        } else {
                            Notice::SwitchFailed
                        },
                    );
                },
                Purpose::Enable => {
                    notices.push(
                        if done {
                            Notice::Enabled
                        } else {
                            Notice::EnableFailed
                        },
                    );
                },
                Purpose::Disable => {
                    if !done {
                        notices.push(Notice::DisableFailed);
                    }
                },
            }
            DriverOutput {
                notices,
                display: None,
                send: Some(ClientRequest::GetState {  }),
                next: DriverState::Showing,
            }
        },
        DriverState::Leaving => {
            let mut notices: Vec<Notice> = Vec::new();
            let acknowledged = match reply {
                Reply::Response { response: ResponseToClient::Bye {  } } => true,
                _ => false,
            };
            if !acknowledged {
                notices.push(Notice::ByeUnacknowledged);
            }
            DriverOutput { notices, display: None, send: None, next: DriverState::Finished }
        },
        DriverState::Finished => rest_in(DriverState::Finished),
        DriverState::Failed => rest_in(DriverState::Failed),
    }
}

/// The notices after a fetch of the state.
fn notices_after_fetch(reply: &Reply) -> (notices: Vec<Notice>)
    ensures
        notices@ == fetch_notices(reply@),
{
    let mut notices: Vec<Notice> = Vec::new();
    match reply {
        Reply::Response { response: ResponseToClient::State { .. } } => {},
        _ => {
            notices.push(Notice::StateUnavailable);
        },
    }
    notices
}

/// Nothing to tell, show or send; the driver is in `next` from here on.
fn rest_in(next: DriverState) -> (output: DriverOutput)
    ensures
        output@ == (OutputView { next, ..at_rest(next) }),
{
    DriverOutput { notices: Vec::new(), display: None, send: None, next }
}


// ---------------------------------------------------------------------------
// Showing the state
// ---------------------------------------------------------------------------

/// One topic as it is shown to the user.
#[derive(Debug)]
pub struct DisplayRow {
    /// The topic is the current one.
    pub current: bool,
    pub id: u64,
    pub name: String,
    pub duration: u64,
}

/// `DisplayRow` as a mathematical value.
pub struct RowView {
    pub current: bool,
    pub id: u64,
    pub name: Seq<char>,
    pub duration: u64,
}

impl View for DisplayRow {
    type V = RowView;

    open spec fn view(&self) -> RowView {
        RowView { current: self.current, id: self.id, name: self.name@, duration: self.duration }
    }
}

/// The views of a list of rows.
pub open spec fn row_views(rows: Seq<DisplayRow>) -> Seq<RowView> {
    Seq::new(rows.len(), |i: int| rows[i]@)
}

/// The row of a topic, where it has one: the topic that stands for
/// "tracking is off" is not shown.
pub open spec fn row_of(topic: TopicView, current_topic_id: u64) -> Option<RowView> {
    if topic.id == OFF_TOPIC_ID {
        None
    } else {
        Some(
            RowView {
                current: topic.id == current_topic_id,
                id: topic.id,
                name: topic.name,
                duration: topic.duration,
            },
        )
    }
}

/// The rows of a state: one for each topic that is shown, in the order of
/// the store.
pub open spec fn rows_of(state: StateView) -> Seq<RowView> {
    state.topics.filter_map(|topic: TopicView| row_of(topic, state.current_topic_id))
}

/// The rows in which a state is shown.
pub fn display_rows(state: &TimeTrackingState) -> (rows: Vec<DisplayRow>)
    ensures
        row_views(rows@) == rows_of(state@),
{
    let ghost pick = |topic: TopicView| row_of(topic, state@.current_topic_id);
    let ghost topics = state@.topics;
    let mut rows: Vec<DisplayRow> = Vec::new();
    let mut i: usize = 0;
    assert(topics.take(0) =~= Seq::<TopicView>::empty());
    while i < state.topics_tree.len()
        invariant
            i <= state.topics_tree.len(),
            topics == topic_views(state.topics_tree@),
            topics == state@.topics,
            pick == |topic: TopicView| row_of(topic, state@.current_topic_id),
            row_views(rows@) == topics.take(i as int).filter_map(pick),
        decreases state.topics_tree.len() - i,
    {
        let topic = &state.topics_tree[i];
        proof {
            topics.lemma_filter_map_take_succ(pick, i as int);
            assert(topics[i as int] == topic@);
        }
        if topic.id != OFF_TOPIC_ID {
            let row = DisplayRow {
                current: topic.id == state.current_topic_id,
                id: topic.id,
                name: topic.name.clone(),
                duration: topic.duration,
            };
            assert(row_views(rows@.push(row)) =~= row_views(rows@) + seq![row@]);
            rows.push(row);
        } else {
            assert(row_views(rows@) + Seq::<RowView>::empty() =~= row_views(rows@));
        }
        i = i + 1;
    }
    assert(topics.take(i as int) =~= topics);
    rows
}

} // verus!
