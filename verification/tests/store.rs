use std::time::{Duration, Instant};
use timeracker::store::{
    find_topic, find_topic_mutable, reset_current_topic_start_instant, update_duration,
};
use timeracker::{TimeTrackingImplDetails, TimeTrackingState, TimeTrackingTopic};

fn interval_open_for(state: &mut TimeTrackingState, seconds: u64) {
    state.details.current_topic_start_instant =
        Instant::now().checked_sub(Duration::from_secs(seconds)).unwrap();
}

fn durations(state: &TimeTrackingState) -> Vec<u64> {
    state.topics_tree.iter().map(|t| t.duration).collect()
}

fn total(state: &TimeTrackingState) -> u64 {
    state.topics_tree.iter().map(|t| t.duration).sum()
}

fn topic(id: u64, name: &str, duration: u64) -> TimeTrackingTopic {
    TimeTrackingTopic { id, name: name.to_string(), duration, parent: None, dependants: vec![] }
}

#[test]
fn initial_state_has_three_topics_and_tracking_off() {
    let state = TimeTrackingState::initial();
    assert_eq!(state.last_assigned_topic_id, 2);
    assert_eq!(state.current_topic_id, 0);
    let seen: Vec<(u64, &str, u64)> =
        state.topics_tree.iter().map(|t| (t.id, t.name.as_str(), t.duration)).collect();
    assert_eq!(seen, vec![(0, "OFF", 0), (1, "Idle", 0), (2, "Work", 0)]);
    assert!(state.topics_tree.iter().all(|t| t.parent.is_none() && t.dependants.is_empty()));
    assert!(state.is_well_formed());
}

#[test]
fn placeholder_state_is_empty() {
    let state = TimeTrackingState::placeholder();
    assert_eq!(state.last_assigned_topic_id, 1);
    assert_eq!(state.current_topic_id, 0);
    assert!(state.topics_tree.is_empty());
    assert!(!state.is_well_formed());
}

#[test]
fn impl_details_start_now() {
    let before = Instant::now();
    let details = TimeTrackingImplDetails::new();
    let after = Instant::now();
    assert!(before <= details.current_topic_start_instant);
    assert!(details.current_topic_start_instant <= after);
    let other = TimeTrackingImplDetails::default();
    assert!(after <= other.current_topic_start_instant);
}

#[test]
fn find_topic_finds_by_identifier() {
    let state = TimeTrackingState::initial();
    assert_eq!(find_topic(1, &state.topics_tree).unwrap().name, "Idle");
    assert_eq!(find_topic(2, &state.topics_tree).unwrap().name, "Work");
    assert!(find_topic(3, &state.topics_tree).is_none());
    assert!(find_topic(0, &Vec::new()).is_none());
}

#[test]
fn find_topic_finds_the_first_of_two() {
    let topics = vec![topic(4, "a", 1), topic(5, "b", 2), topic(4, "c", 3)];
    assert_eq!(find_topic(4, &topics).unwrap().name, "a");
}

#[test]
fn find_topic_mutable_changes_the_topic_in_place() {
    let mut topics = vec![topic(4, "a", 1), topic(5, "b", 2), topic(4, "c", 3)];
    find_topic_mutable(5, &mut topics).unwrap().duration = 20;
    find_topic_mutable(4, &mut topics).unwrap().name = "A".to_string();
    assert!(find_topic_mutable(6, &mut topics).is_none());
    let seen: Vec<(u64, &str, u64)> =
        topics.iter().map(|t| (t.id, t.name.as_str(), t.duration)).collect();
    assert_eq!(seen, vec![(4, "A", 1), (5, "b", 20), (4, "c", 3)]);
}

#[test]
fn credit_current_adds_to_the_current_topic_only() {
    let mut state = TimeTrackingState::initial();
    state.current_topic_id = 1;
    state.credit_current(7);
    assert_eq!(durations(&state), vec![0, 7, 0]);
    state.credit_current(3);
    assert_eq!(durations(&state), vec![0, 10, 0]);
    state.credit_current(0);
    assert_eq!(durations(&state), vec![0, 10, 0]);
    assert_eq!(state.current_topic_id, 1);
    assert_eq!(state.last_assigned_topic_id, 2);
}

#[test]
fn credit_current_credits_the_off_topic_while_tracking_is_off() {
    let mut state = TimeTrackingState::initial();
    state.credit_current(4);
    assert_eq!(durations(&state), vec![4, 0, 0]);
}

#[test]
fn credit_current_stops_at_the_largest_number() {
    let mut state = TimeTrackingState::initial();
    state.current_topic_id = 2;
    state.credit_current(u64::MAX - 1);
    state.credit_current(5);
    assert_eq!(durations(&state), vec![0, 0, u64::MAX]);
}

#[test]
fn credit_current_credits_the_first_of_two_topics_with_one_identifier() {
    let mut state = TimeTrackingState::initial();
    state.topics_tree.push(topic(1, "Idle again", 0));
    state.current_topic_id = 1;
    state.credit_current(9);
    assert_eq!(durations(&state), vec![0, 9, 0, 0]);
}

#[test]
fn update_duration_credits_the_open_interval() {
    let mut state = TimeTrackingState::initial();
    state.current_topic_id = 2;
    interval_open_for(&mut state, 5);
    let began = state.details.current_topic_start_instant;
    update_duration(&mut state);
    assert!(state.topics_tree[2].duration >= 5 && state.topics_tree[2].duration <= 6);
    assert_eq!(state.topics_tree[0].duration, 0);
    assert_eq!(state.topics_tree[1].duration, 0);
    assert_eq!(state.current_topic_id, 2);
    assert_eq!(state.details.current_topic_start_instant, began);
}

#[test]
fn update_duration_drops_the_fraction_of_a_second() {
    let mut state = TimeTrackingState::initial();
    state.details.current_topic_start_instant =
        Instant::now().checked_sub(Duration::from_millis(2100)).unwrap();
    update_duration(&mut state);
    assert_eq!(state.topics_tree[0].duration, 2);
}

#[test]
fn reset_begins_a_new_interval() {
    let mut state = TimeTrackingState::initial();
    interval_open_for(&mut state, 8);
    let before = Instant::now();
    reset_current_topic_start_instant(&mut state);
    assert!(state.details.current_topic_start_instant >= before);
    assert_eq!(durations(&state), vec![0, 0, 0]);
    update_duration(&mut state);
    assert_eq!(durations(&state), vec![0, 0, 0]);
}

#[test]
fn switch_to_a_topic_of_the_store_succeeds() {
    let mut state = TimeTrackingState::initial();
    interval_open_for(&mut state, 3);
    let name = state.switch(2).unwrap();
    assert_eq!(name, "Work");
    assert_eq!(state.current_topic_id, 2);
    assert!(state.topics_tree[0].duration >= 3 && state.topics_tree[0].duration <= 4);
    assert_eq!(state.topics_tree[1].duration, 0);
    assert_eq!(state.topics_tree[2].duration, 0);
    assert!(state.details.current_topic_start_instant.elapsed() < Duration::from_secs(1));
    assert!(state.is_well_formed());
}

#[test]
fn switch_to_an_unknown_topic_changes_nothing() {
    let mut state = TimeTrackingState::initial();
    state.current_topic_id = 1;
    interval_open_for(&mut state, 7);
    let began = state.details.current_topic_start_instant;
    let missing = state.switch(999).unwrap_err();
    assert_eq!(missing.id, 999);
    assert_eq!(state.current_topic_id, 1);
    assert_eq!(state.last_assigned_topic_id, 2);
    assert_eq!(durations(&state), vec![0, 0, 0]);
    assert_eq!(state.details.current_topic_start_instant, began);
}

#[test]
fn switch_to_the_current_topic_credits_the_interval_once() {
    let mut state = TimeTrackingState::initial();
    state.current_topic_id = 1;
    interval_open_for(&mut state, 5);
    let name = state.switch(1).unwrap();
    assert_eq!(name, "Idle");
    assert_eq!(state.current_topic_id, 1);
    let credited = state.topics_tree[1].duration;
    assert!(credited >= 5 && credited <= 6);
    assert_eq!(state.topics_tree[0].duration, 0);
    assert_eq!(state.topics_tree[2].duration, 0);
    state.switch(1).unwrap();
    assert_eq!(state.topics_tree[1].duration, credited);
}

#[test]
fn switch_to_off_turns_tracking_off() {
    let mut state = TimeTrackingState::initial();
    state.switch(2).unwrap();
    assert_eq!(state.switch(0).unwrap(), "OFF");
    assert_eq!(state.current_topic_id, 0);
}

#[test]
fn read_snapshot_reports_the_time_up_to_now() {
    let mut state = TimeTrackingState::initial();
    state.current_topic_id = 1;
    interval_open_for(&mut state, 5);
    let snapshot = state.read_snapshot();
    assert_eq!(snapshot.current_topic_id, 1);
    assert_eq!(snapshot.last_assigned_topic_id, 2);
    assert!(snapshot.topics_tree[1].duration >= 5 && snapshot.topics_tree[1].duration <= 6);
    assert_eq!(durations(&snapshot), durations(&state));
    assert_eq!(snapshot.topics_tree[1].name, "Idle");
    assert_eq!(
        snapshot.details.current_topic_start_instant,
        state.details.current_topic_start_instant
    );
    let again = state.read_snapshot();
    assert_eq!(durations(&again), durations(&snapshot));
}

#[test]
fn no_time_is_lost_over_a_run() {
    let mut state = TimeTrackingState::initial();
    let mut accounted = 0;
    let steps: Vec<(Option<u64>, u64)> = vec![
        (Some(1), 3),
        (None, 4),
        (Some(2), 5),
        (Some(999), 0),
        (Some(2), 6),
        (None, 7),
        (Some(0), 8),
        (Some(1), 9),
    ];
    for (target, seconds) in steps {
        interval_open_for(&mut state, seconds);
        let before = total(&state);
        match target {
            Some(id) => {
                let _ = state.switch(id);
            }
            None => {
                state.read_snapshot();
            }
        }
        let gained = total(&state) - before;
        assert!(gained == seconds || gained == seconds + 1, "{} for {}", gained, seconds);
        accounted += gained;
    }
    assert_eq!(total(&state), accounted);
    assert!(accounted >= 42 && accounted <= 50);
    assert_eq!(state.current_topic_id, 1);
}

#[test]
fn clone_copies_the_state() {
    let mut state = TimeTrackingState::initial();
    state.topics_tree[2].parent = Some(1);
    state.topics_tree[1].dependants.push(2);
    state.credit_current(11);
    let copy = state.clone();
    assert_eq!(copy.last_assigned_topic_id, 2);
    assert_eq!(copy.current_topic_id, 0);
    assert_eq!(durations(&copy), vec![11, 0, 0]);
    assert_eq!(copy.topics_tree[2].parent, Some(1));
    assert_eq!(copy.topics_tree[1].dependants, vec![2]);
    assert_eq!(copy.topics_tree[1].name, "Idle");
    let one = state.topics_tree[1].clone();
    assert_eq!((one.id, one.name.as_str(), one.duration), (1, "Idle", 0));
}

#[test]
fn starting_at_keeps_the_instant() {
    let start = Instant::now().checked_sub(Duration::from_secs(4)).unwrap();
    let details = TimeTrackingImplDetails::starting_at(start);
    assert_eq!(details.current_topic_start_instant, start);
}

#[test]
fn begin_interval_at_moves_the_start_only() {
    let mut state = TimeTrackingState::initial();
    state.current_topic_id = 2;
    state.credit_current(12);
    let start = Instant::now().checked_sub(Duration::from_secs(5)).unwrap();
    state.begin_interval_at(start);
    assert_eq!(state.details.current_topic_start_instant, start);
    assert_eq!(state.current_topic_id, 2);
    assert_eq!(state.last_assigned_topic_id, 2);
    assert_eq!(durations(&state), vec![0, 0, 12]);
    update_duration(&mut state);
    assert!(state.topics_tree[2].duration >= 17 && state.topics_tree[2].duration <= 18);
}

#[test]
fn roll_interval_credits_and_restarts() {
    let mut state = TimeTrackingState::initial();
    state.current_topic_id = 2;
    let now = Instant::now().checked_sub(Duration::from_secs(1)).unwrap();
    state.roll_interval(30, now);
    assert_eq!(durations(&state), vec![0, 0, 30]);
    assert_eq!(state.current_topic_id, 2);
    assert_eq!(state.details.current_topic_start_instant, now);
    let later = Instant::now();
    state.roll_interval(0, later);
    assert_eq!(durations(&state), vec![0, 0, 30]);
    assert_eq!(state.details.current_topic_start_instant, later);
}

#[test]
fn switch_at_credits_switches_and_restarts() {
    let mut state = TimeTrackingState::initial();
    let now = Instant::now().checked_sub(Duration::from_secs(1)).unwrap();
    assert_eq!(state.switch_at(1, 8, now).unwrap(), "Idle");
    assert_eq!(durations(&state), vec![8, 0, 0]);
    assert_eq!(state.current_topic_id, 1);
    assert_eq!(state.details.current_topic_start_instant, now);
    let later = Instant::now();
    assert_eq!(state.switch_at(1, 4, later).unwrap(), "Idle");
    assert_eq!(durations(&state), vec![8, 4, 0]);
    assert_eq!(state.current_topic_id, 1);
    assert_eq!(state.details.current_topic_start_instant, later);
}

#[test]
fn switch_at_to_an_unknown_topic_changes_nothing() {
    let mut state = TimeTrackingState::initial();
    state.current_topic_id = 2;
    let began = state.details.current_topic_start_instant;
    let missing = state.switch_at(5, 100, Instant::now()).unwrap_err();
    assert_eq!(missing.id, 5);
    assert_eq!(durations(&state), vec![0, 0, 0]);
    assert_eq!(state.current_topic_id, 2);
    assert_eq!(state.details.current_topic_start_instant, began);
}

#[test]
fn switch_to_an_unknown_topic_needs_no_current_topic() {
    let mut state = TimeTrackingState::initial();
    state.current_topic_id = 77;
    assert_eq!(state.switch(999).unwrap_err().id, 999);
    assert_eq!(state.switch_at(999, 3, Instant::now()).unwrap_err().id, 999);
    assert_eq!(state.current_topic_id, 77);
}
