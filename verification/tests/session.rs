use std::time::{Duration, Instant};
use timeracker::session::{
    advance_session, after_exchange, answer_request_at, closes_open_interval, handle_request,
    try_handle_request, SessionEvent, SessionState,
};
use timeracker::{ClientRequest, ResponseToClient, TimeTrackingState};

fn interval_open_for(state: &mut TimeTrackingState, seconds: u64) {
    state.details.current_topic_start_instant =
        Instant::now().checked_sub(Duration::from_secs(seconds)).unwrap();
}

fn encode(state: &TimeTrackingState) -> String {
    let topics: Vec<String> = state
        .topics_tree
        .iter()
        .map(|t| format!("{}:{}={}", t.id, t.name, t.duration))
        .collect();
    format!(
        "last={} current={} [{}]",
        state.last_assigned_topic_id,
        state.current_topic_id,
        topics.join(",")
    )
}

fn durations(state: &TimeTrackingState) -> Vec<u64> {
    state.topics_tree.iter().map(|t| t.duration).collect()
}

fn expect_error(response: &ResponseToClient, code: u64, text: &str) {
    match response {
        ResponseToClient::Error { error_code, msg } => {
            assert_eq!(*error_code, code);
            assert_eq!(msg, text);
        }
        other => panic!("{:?}", other),
    }
}

#[test]
fn scenario_switch_then_state_after_five_seconds() {
    let mut state = TimeTrackingState::initial();
    let response = handle_request("SWITCH_TOPIC 1", &mut state, encode);
    match &response {
        ResponseToClient::Success { details } => assert_eq!(details, "Switched topic to Idle"),
        other => panic!("{:?}", other),
    }
    assert_eq!(state.current_topic_id, 1);
    assert_eq!(after_exchange(&response, true), SessionState::Open);

    interval_open_for(&mut state, 5);
    let response = handle_request("GET_STATE", &mut state, encode);
    assert_eq!(state.current_topic_id, 1);
    let idle = state.topics_tree[1].duration;
    assert!(idle >= 5 && idle <= 6);
    assert_eq!(state.topics_tree[0].duration, 0);
    assert_eq!(state.topics_tree[2].duration, 0);
    match &response {
        ResponseToClient::State { value } => {
            assert_eq!(value, &format!("last=2 current=1 [0:OFF=0,1:Idle={},2:Work=0]", idle));
        }
        other => panic!("{:?}", other),
    }
    assert_eq!(after_exchange(&response, true), SessionState::Open);
}

#[test]
fn scenario_switch_to_unknown_topic() {
    let mut state = TimeTrackingState::initial();
    handle_request("SWITCH_TOPIC 1", &mut state, encode);
    let response = handle_request("SWITCH_TOPIC 999", &mut state, encode);
    expect_error(&response, 404, "Topic not found");
    assert_eq!(after_exchange(&response, true), SessionState::Open);
    let response = handle_request("GET_STATE", &mut state, encode);
    match &response {
        ResponseToClient::State { value } => assert!(value.starts_with("last=2 current=1 ")),
        other => panic!("{:?}", other),
    }
    assert_eq!(state.current_topic_id, 1);
}

#[test]
fn scenario_create_topic_is_a_server_error() {
    let mut state = TimeTrackingState::initial();
    handle_request("SWITCH_TOPIC 1", &mut state, encode);
    interval_open_for(&mut state, 6);
    let began = state.details.current_topic_start_instant;
    let response = handle_request("CREATE_TOPIC Research 2", &mut state, encode);
    expect_error(&response, 500, "Server error");
    assert_eq!(state.current_topic_id, 1);
    assert_eq!(state.last_assigned_topic_id, 2);
    assert_eq!(state.topics_tree.len(), 3);
    assert_eq!(durations(&state), vec![0, 0, 0]);
    assert_eq!(state.details.current_topic_start_instant, began);
    assert_eq!(after_exchange(&response, true), SessionState::Open);
}

#[test]
fn scenario_malformed_line_keeps_the_connection_open() {
    let mut state = TimeTrackingState::initial();
    let response = handle_request("SWITCH_TOPIC abc", &mut state, encode);
    expect_error(&response, 400, "SWITCH_TOPIC argument must be an unsigned integer (u64)");
    assert_eq!(after_exchange(&response, true), SessionState::Open);
    assert_eq!(state.current_topic_id, 0);
    let response = handle_request("GET_STATE", &mut state, encode);
    assert!(matches!(response, ResponseToClient::State { .. }));
}

#[test]
fn scenario_terminate_stops_the_server() {
    let mut state = TimeTrackingState::initial();
    interval_open_for(&mut state, 6);
    let response = handle_request("TERMINATE", &mut state, encode);
    assert!(matches!(response, ResponseToClient::Terminating {}));
    assert_eq!(after_exchange(&response, true), SessionState::ProcessExit);
    assert_eq!(durations(&state), vec![0, 0, 0]);
}

#[test]
fn bye_closes_the_connection() {
    let mut state = TimeTrackingState::initial();
    let response = handle_request("BYE", &mut state, encode);
    assert!(matches!(response, ResponseToClient::Bye {}));
    assert_eq!(after_exchange(&response, true), SessionState::Closed);
}

#[test]
fn delete_topic_is_a_server_error() {
    let mut state = TimeTrackingState::initial();
    let response = handle_request("DELETE_TOPIC 2", &mut state, encode);
    expect_error(&response, 500, "Server error");
    assert_eq!(state.topics_tree.len(), 3);
}

#[test]
fn update_topic_line_is_a_bad_request() {
    let mut state = TimeTrackingState::initial();
    let response = handle_request("UPDATE_TOPIC 2 Work 0 60", &mut state, encode);
    expect_error(
        &response,
        400,
        "UPDATE_TOPIC must be followed by exactly four arguments (id, name, parent id, duration)",
    );
}

#[test]
fn bad_lines_are_answered_with_their_reason() {
    let mut state = TimeTrackingState::initial();
    expect_error(&handle_request("", &mut state, encode), 400, "empty input");
    expect_error(&handle_request("PING", &mut state, encode), 400, "unknown command: PING");
    expect_error(
        &handle_request("BYE BYE", &mut state, encode),
        400,
        "BYE does not take arguments",
    );
    expect_error(
        &handle_request("SWITCH_TOPIC", &mut state, encode),
        400,
        "SWITCH_TOPIC must be followed by an id",
    );
    assert_eq!(state.current_topic_id, 0);
    assert_eq!(durations(&state), vec![0, 0, 0]);
}

#[test]
fn get_state_begins_a_new_interval() {
    let mut state = TimeTrackingState::initial();
    interval_open_for(&mut state, 9);
    handle_request("GET_STATE", &mut state, encode);
    let first = state.topics_tree[0].duration;
    assert!(first >= 9 && first <= 10);
    handle_request("GET_STATE", &mut state, encode);
    assert_eq!(state.topics_tree[0].duration, first);
}

#[test]
fn switch_answers_with_the_name_of_the_topic() {
    let mut state = TimeTrackingState::initial();
    state.topics_tree[2].name = "deep work".to_string();
    match handle_request("SWITCH_TOPIC 2", &mut state, encode) {
        ResponseToClient::Success { details } => {
            assert_eq!(details, "Switched topic to deep work")
        }
        other => panic!("{:?}", other),
    }
    match handle_request("SWITCH_TOPIC +0", &mut state, encode) {
        ResponseToClient::Success { details } => assert_eq!(details, "Switched topic to OFF"),
        other => panic!("{:?}", other),
    }
    assert_eq!(state.current_topic_id, 0);
}

#[test]
fn a_failed_send_closes_whatever_the_answer() {
    let answers = vec![
        ResponseToClient::State { value: String::new() },
        ResponseToClient::Success { details: String::new() },
        ResponseToClient::Error { error_code: 400, msg: String::new() },
        ResponseToClient::Bye {},
        ResponseToClient::Terminating {},
    ];
    for answer in answers.iter() {
        assert_eq!(after_exchange(answer, false), SessionState::Closed);
    }
}

#[test]
fn delivered_answers_decide_the_session() {
    let open = vec![
        ResponseToClient::State { value: "x".to_string() },
        ResponseToClient::Success { details: "x".to_string() },
        ResponseToClient::Error { error_code: 404, msg: "x".to_string() },
    ];
    for answer in open.iter() {
        assert_eq!(after_exchange(answer, true), SessionState::Open);
    }
    assert_eq!(after_exchange(&ResponseToClient::Bye {}, true), SessionState::Closed);
    assert_eq!(after_exchange(&ResponseToClient::Terminating {}, true), SessionState::ProcessExit);
}

#[test]
fn sessions_follow_their_events() {
    let open = SessionState::Open;
    assert_eq!(advance_session(open, &SessionEvent::ReceiveFailed), SessionState::Closed);
    assert_eq!(advance_session(open, &SessionEvent::PeerClosed), SessionState::Closed);
    let answered = |response, delivered| SessionEvent::Answered { response, delivered };
    let ok = ResponseToClient::Success { details: "x".to_string() };
    assert_eq!(advance_session(open, &answered(ok, true)), SessionState::Open);
    let ok = ResponseToClient::Success { details: "x".to_string() };
    assert_eq!(advance_session(open, &answered(ok, false)), SessionState::Closed);
    assert_eq!(advance_session(open, &answered(ResponseToClient::Bye {}, true)), SessionState::Closed);
    assert_eq!(
        advance_session(open, &answered(ResponseToClient::Terminating {}, true)),
        SessionState::ProcessExit
    );
    assert_eq!(
        advance_session(open, &answered(ResponseToClient::Terminating {}, false)),
        SessionState::Closed
    );
    for over in [SessionState::Closed, SessionState::ProcessExit] {
        assert_eq!(advance_session(over, &SessionEvent::PeerClosed), over);
        assert_eq!(advance_session(over, &answered(ResponseToClient::Terminating {}, true)), over);
    }
}

fn ill_formed() -> TimeTrackingState {
    let mut state = TimeTrackingState::initial();
    state.current_topic_id = 77;
    state
}

#[test]
fn answer_request_at_credits_the_seconds_and_restarts_at_the_instant() {
    let mut state = TimeTrackingState::initial();
    state.current_topic_id = 1;
    let now = Instant::now().checked_sub(Duration::from_secs(3)).unwrap();
    let response = answer_request_at(&ClientRequest::GetState {}, &mut state, 5, now, encode);
    match &response {
        ResponseToClient::State { value } => {
            assert_eq!(value, "last=2 current=1 [0:OFF=0,1:Idle=5,2:Work=0]")
        }
        other => panic!("{:?}", other),
    }
    assert_eq!(durations(&state), vec![0, 5, 0]);
    assert_eq!(state.current_topic_id, 1);
    assert_eq!(state.details.current_topic_start_instant, now);
}

#[test]
fn answer_request_at_switches_and_restarts_at_the_instant() {
    let mut state = TimeTrackingState::initial();
    state.current_topic_id = 1;
    let now = Instant::now().checked_sub(Duration::from_secs(2)).unwrap();
    let request = ClientRequest::SwitchTopic { id: 2 };
    match answer_request_at(&request, &mut state, 40, now, encode) {
        ResponseToClient::Success { details } => assert_eq!(details, "Switched topic to Work"),
        other => panic!("{:?}", other),
    }
    assert_eq!(durations(&state), vec![0, 40, 0]);
    assert_eq!(state.current_topic_id, 2);
    assert_eq!(state.details.current_topic_start_instant, now);

    let later = Instant::now();
    let request = ClientRequest::SwitchTopic { id: 2 };
    answer_request_at(&request, &mut state, 7, later, encode);
    assert_eq!(durations(&state), vec![0, 40, 7]);
    assert_eq!(state.current_topic_id, 2);
    assert_eq!(state.details.current_topic_start_instant, later);
}

#[test]
fn answer_request_at_leaves_the_store_alone_otherwise() {
    let requests = vec![
        (ClientRequest::SwitchTopic { id: 999 }, 404, "Topic not found"),
        (ClientRequest::CreateTopic { name: "Research".to_string(), parent_id: 2 }, 500, "Server error"),
        (ClientRequest::DeleteTopic { id: 1 }, 500, "Server error"),
        (
            ClientRequest::UpdateTopic { id: 1, name: "x".to_string(), parent_id: 0, duration: 9 },
            500,
            "Server error",
        ),
    ];
    for (request, code, text) in requests.iter() {
        let mut state = TimeTrackingState::initial();
        state.current_topic_id = 1;
        let began = state.details.current_topic_start_instant;
        let now = Instant::now();
        let response = answer_request_at(request, &mut state, 60, now, encode);
        expect_error(&response, *code, text);
        assert_eq!(durations(&state), vec![0, 0, 0]);
        assert_eq!(state.current_topic_id, 1);
        assert_eq!(state.details.current_topic_start_instant, began);
    }
    let mut state = TimeTrackingState::initial();
    let began = state.details.current_topic_start_instant;
    let bye = answer_request_at(&ClientRequest::Bye {}, &mut state, 60, Instant::now(), encode);
    assert!(matches!(bye, ResponseToClient::Bye {}));
    let end =
        answer_request_at(&ClientRequest::Terminate {}, &mut state, 60, Instant::now(), encode);
    assert!(matches!(end, ResponseToClient::Terminating {}));
    assert_eq!(durations(&state), vec![0, 0, 0]);
    assert_eq!(state.details.current_topic_start_instant, began);
}

#[test]
fn handle_request_restarts_the_interval() {
    let mut state = TimeTrackingState::initial();
    interval_open_for(&mut state, 5);
    let before = Instant::now();
    handle_request("GET_STATE", &mut state, encode);
    assert!(state.details.current_topic_start_instant >= before);
    interval_open_for(&mut state, 5);
    let before = Instant::now();
    handle_request("SWITCH_TOPIC 2", &mut state, encode);
    assert!(state.details.current_topic_start_instant >= before);
    let credited = state.topics_tree[0].duration;
    assert!(credited >= 10 && credited <= 12);
    handle_request("SWITCH_TOPIC 2", &mut state, encode);
    assert_eq!(state.topics_tree[2].duration, 0);
    assert_eq!(state.topics_tree[0].duration, credited);
}

#[test]
fn closes_open_interval_for_get_state_and_known_topics() {
    let state = TimeTrackingState::initial();
    assert!(closes_open_interval(&ClientRequest::GetState {}, &state));
    assert!(closes_open_interval(&ClientRequest::SwitchTopic { id: 0 }, &state));
    assert!(closes_open_interval(&ClientRequest::SwitchTopic { id: 2 }, &state));
    assert!(!closes_open_interval(&ClientRequest::SwitchTopic { id: 3 }, &state));
    assert!(!closes_open_interval(&ClientRequest::Bye {}, &state));
    assert!(!closes_open_interval(&ClientRequest::Terminate {}, &state));
    assert!(!closes_open_interval(&ClientRequest::DeleteTopic { id: 1 }, &state));
    assert!(closes_open_interval(&ClientRequest::GetState {}, &ill_formed()));
}

#[test]
fn an_ill_formed_store_serves_what_closes_no_interval() {
    let mut state = ill_formed();
    assert!(matches!(handle_request("BYE", &mut state, encode), ResponseToClient::Bye {}));
    expect_error(&handle_request("SWITCH_TOPIC 999", &mut state, encode), 404, "Topic not found");
    expect_error(&handle_request("nonsense", &mut state, encode), 400, "unknown command: nonsense");
    expect_error(&handle_request("DELETE_TOPIC 1", &mut state, encode), 500, "Server error");
    assert_eq!(state.current_topic_id, 77);
    assert_eq!(durations(&state), vec![0, 0, 0]);
}

#[test]
fn try_handle_request_refuses_to_close_an_interval_on_an_ill_formed_store() {
    let mut state = ill_formed();
    interval_open_for(&mut state, 5);
    let began = state.details.current_topic_start_instant;
    assert!(try_handle_request("GET_STATE", &mut state, encode).is_none());
    assert!(try_handle_request("SWITCH_TOPIC 1", &mut state, encode).is_none());
    assert_eq!(state.current_topic_id, 77);
    assert_eq!(durations(&state), vec![0, 0, 0]);
    assert_eq!(state.details.current_topic_start_instant, began);
    let response = try_handle_request("SWITCH_TOPIC 999", &mut state, encode).unwrap();
    expect_error(&response, 404, "Topic not found");
    assert!(matches!(
        try_handle_request("TERMINATE", &mut state, encode),
        Some(ResponseToClient::Terminating {})
    ));
    expect_error(&try_handle_request("", &mut state, encode).unwrap(), 400, "empty input");
}

#[test]
fn try_handle_request_serves_a_well_formed_store() {
    let mut state = TimeTrackingState::initial();
    interval_open_for(&mut state, 5);
    match try_handle_request("SWITCH_TOPIC 1", &mut state, encode) {
        Some(ResponseToClient::Success { details }) => {
            assert_eq!(details, "Switched topic to Idle")
        }
        other => panic!("{:?}", other),
    }
    assert_eq!(state.current_topic_id, 1);
    assert!(state.topics_tree[0].duration >= 5 && state.topics_tree[0].duration <= 6);
    assert!(matches!(
        try_handle_request("GET_STATE", &mut state, encode),
        Some(ResponseToClient::State { .. })
    ));
}
