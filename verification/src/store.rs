//! The time-tracking store: the topics, which of them is current, and how
//! elapsed time is credited to the current topic.
//!
//! Time is credited lazily. While a topic is current, the store only remembers
//! when its open interval began. The interval is folded into the topic's
//! duration when another topic becomes current or when the state is read out,
//! and a new interval begins at that moment.

use vstd::prelude::*;
use std::time::Instant;

verus! {

/// Identifier of the topic that stands for "tracking is off".
pub const OFF_TOPIC_ID: u64 = 0;

/// One trackable activity. Parent and children are named by identifier; the
/// store owns every topic.
#[derive(Debug)]
pub struct TimeTrackingTopic {
    pub id: u64,
    pub name: String,
    pub duration: u64,
    pub parent: Option<u64>,
    pub dependants: Vec<u64>,
}

/// A topic as a mathematical value.
pub struct TopicView {
    pub id: u64,
    pub name: Seq<char>,
    pub duration: u64,
    pub parent: Option<u64>,
    pub dependants: Seq<u64>,
}

impl View for TimeTrackingTopic {
    type V = TopicView;

    open spec fn view(&self) -> TopicView {
        TopicView {
            id: self.id,
            name: self.name@,
            duration: self.duration,
            parent: self.parent,
            dependants: self.dependants@,
        }
    }
}

impl Clone for TimeTrackingTopic {
    fn clone(&self) -> (copy: Self)
        ensures
            copy@ == self@,
    {
        let dependants = self.dependants.clone();
        assert(dependants@ =~= self.dependants@);
        TimeTrackingTopic {
            id: self.id,
            name: self.name.clone(),
            duration: self.duration,
            parent: self.parent,
            dependants,
        }
    }
}

/// When the open interval of the current topic began.
#[derive(Debug)]
pub struct TimeTrackingImplDetails {
    pub current_topic_start_instant: Instant,
}

impl TimeTrackingImplDetails {
    /// An open interval that begins now.
    pub fn new() -> TimeTrackingImplDetails {
        TimeTrackingImplDetails::starting_at(Instant::now())
    }
}

impl Default for TimeTrackingImplDetails {
    fn default() -> Self {
        Self::new()
    }
}

/// The whole store.
#[derive(Debug)]
pub struct TimeTrackingState {
    pub last_assigned_topic_id: u64,
    pub current_topic_id: u64,
    pub topics_tree: Vec<TimeTrackingTopic>,
    pub details: TimeTrackingImplDetails,
}

/// The store as a mathematical value. The start of the open interval is no
/// part of it: it is never reported.
pub struct StateView {
    pub last_assigned_topic_id: u64,
    pub current_topic_id: u64,
    pub topics: Seq<TopicView>,
}

/// The views of a list of topics.
pub open spec fn topic_views(topics: Seq<TimeTrackingTopic>) -> Seq<TopicView> {
    Seq::new(topics.len(), |i: int| topics[i]@)
}

impl View for TimeTrackingState {
    type V = StateView;

    open spec fn view(&self) -> StateView {
        StateView {
            last_assigned_topic_id: self.last_assigned_topic_id,
            current_topic_id: self.current_topic_id,
            topics: topic_views(self.topics_tree@),
        }
    }
}

/// Where a scan from the front first meets a topic with identifier `id`;
/// `topics.len()` when it meets none.
pub open spec fn position_of(topics: Seq<TopicView>, id: u64) -> int
    decreases topics.len(),
{
    if topics.len() == 0 || topics[0].id == id {
        0
    } else {
        1 + position_of(topics.drop_first(), id)
    }
}

/// Some topic has identifier `id`.
pub open spec fn has_topic(topics: Seq<TopicView>, id: u64) -> bool {
    position_of(topics, id) < topics.len()
}

/// The seconds credited to all topics together.
pub open spec fn total_duration(topics: Seq<TopicView>) -> nat
    decreases topics.len(),
{
    if topics.len() == 0 {
        0
    } else {
        total_duration(topics.drop_last()) + topics.last().duration as nat
    }
}

/// `a + b`, or the largest 64-bit number where the sum does not fit.
pub open spec fn capped_sum(a: u64, b: u64) -> u64 {
    if a + b > u64::MAX {
        u64::MAX
    } else {
        (a + b) as u64
    }
}

/// One operation on the store together with the seconds that the clock
/// measured when the operation closed the open interval.
pub enum StoreStep {
    /// A switch to topic `id`. Where no topic has that identifier the clock
    /// is not read and `elapsed` plays no part.
    Switch { id: u64, elapsed: u64 },
    /// A read-out of the state.
    Snapshot { elapsed: u64 },
}

impl StateView {
    /// The current topic exists.
    pub open spec fn wf(self) -> bool {
        has_topic(self.topics, self.current_topic_id)
    }

    /// The state once `elapsed` seconds are credited to the current topic:
    /// the duration of the first topic that carries the current identifier
    /// grows by `elapsed` (and stops at the largest 64-bit number); nothing
    /// else changes.
    pub open spec fn credited(self, elapsed: u64) -> StateView {
        let i = position_of(self.topics, self.current_topic_id);
        let topic = self.topics[i];
        StateView {
            topics: self.topics.update(
                i,
                TopicView { duration: capped_sum(topic.duration, elapsed), ..topic },
            ),
            ..self
        }
    }

    /// The state after a switch to `id` that closed an open interval of
    /// `elapsed` seconds: unchanged where no topic has that identifier;
    /// otherwise the interval is credited to the topic that was current, and
    /// `id` becomes current.
    pub open spec fn switched(self, id: u64, elapsed: u64) -> StateView {
        if has_topic(self.topics, id) {
            StateView { current_topic_id: id, ..self.credited(elapsed) }
        } else {
            self
        }
    }

    /// The state after one step.
    pub open spec fn after(self, step: StoreStep) -> StateView {
        match step {
            StoreStep::Switch { id, elapsed } => self.switched(id, elapsed),
            StoreStep::Snapshot { elapsed } => self.credited(elapsed),
        }
    }

    /// The seconds of wall-clock time that one step closes and accounts for.
    pub open spec fn accounted(self, step: StoreStep) -> nat {
        match step {
            StoreStep::Switch { id, elapsed } => if has_topic(self.topics, id) {
                elapsed as nat
            } else {
                0
            },
            StoreStep::Snapshot { elapsed } => elapsed as nat,
        }
    }

    /// The state after a run of steps, first to last.
    pub open spec fn after_all(self, steps: Seq<StoreStep>) -> StateView
        decreases steps.len(),
    {
        if steps.len() == 0 {
            self
        } else {
            self.after_all(steps.drop_last()).after(steps.last())
        }
    }

    /// The seconds of wall-clock time that a run of steps accounts for.
    pub open spec fn accounted_all(self, steps: Seq<StoreStep>) -> nat
        decreases steps.len(),
    {
        if steps.len() == 0 {
            0
        } else {
            self.accounted_all(steps.drop_last()) + self.after_all(steps.drop_last()).accounted(
                steps.last(),
            )
        }
    }
}

// ---------------------------------------------------------------------------
// Laws
// ---------------------------------------------------------------------------

/// `position_of` points at the first topic with the identifier, and past the
/// end exactly when there is none.
pub proof fn lemma_position_of(topics: Seq<TopicView>, id: u64)
    ensures
        0 <= position_of(topics, id) <= topics.len(),
        forall|j: int| 0 <= j < position_of(topics, id) ==> topics[j].id != id,
        has_topic(topics, id) ==> topics[position_of(topics, id)].id == id,
        has_topic(topics, id) <==> exists|j: int| 0 <= j < topics.len() && topics[j].id == id,
    decreases topics.len(),
{
    if topics.len() == 0 || topics[0].id == id {
        if topics.len() > 0 {
            assert(topics[0].id == id);
        }
    } else {
        let rest = topics.drop_first();
        lemma_position_of(rest, id);
        let p = position_of(topics, id);
        assert forall|j: int| 0 <= j < p implies topics[j].id != id by {
            if j > 0 {
                assert(rest[j - 1].id != id);
            }
        }
        if has_topic(topics, id) {
            assert(rest[p - 1].id == id);
            assert(topics[p].id == id);
        }
        if exists|j: int| 0 <= j < topics.len() && topics[j].id == id {
            let j = choose|j: int| 0 <= j < topics.len() && topics[j].id == id;
            assert(rest[j - 1].id == id);
        }
    }
}

/// A scan that has met no match before `k` and meets one at `k` (or the end)
/// stops at `k`.
pub proof fn lemma_position_is(topics: Seq<TopicView>, id: u64, k: int)
    requires
        0 <= k <= topics.len(),
        forall|j: int| 0 <= j < k ==> topics[j].id != id,
        k == topics.len() || topics[k].id == id,
    ensures
        position_of(topics, id) == k,
    decreases topics.len(),
{
    if k > 0 {
        lemma_position_is(topics.drop_first(), id, k - 1);
    }
}

/// Changing anything but the identifier of one topic moves no position.
pub proof fn lemma_position_after_update(topics: Seq<TopicView>, i: int, topic: TopicView, id: u64)
    requires
        0 <= i < topics.len(),
        topic.id == topics[i].id,
    ensures
        position_of(topics.update(i, topic), id) == position_of(topics, id),
{
    lemma_position_of(topics, id);
    let p = position_of(topics, id);
    let changed = topics.update(i, topic);
    assert forall|j: int| 0 <= j < p implies changed[j].id != id by {
        assert(topics[j].id != id);
    }
    lemma_position_is(changed, id, p);
}

/// Replacing one topic changes the total by the difference of the two
/// durations.
pub proof fn lemma_total_after_update(topics: Seq<TopicView>, i: int, topic: TopicView)
    requires
        0 <= i < topics.len(),
    ensures
        total_duration(topics.update(i, topic)) == total_duration(topics) - topics[i].duration
            + topic.duration,
        topics[i].duration <= total_duration(topics),
    decreases topics.len(),
{
    let changed = topics.update(i, topic);
    if i == topics.len() - 1 {
        assert(changed.drop_last() =~= topics.drop_last());
    } else {
        lemma_total_after_update(topics.drop_last(), i, topic);
        assert(changed.drop_last() =~= topics.drop_last().update(i, topic));
    }
}

/// Crediting keeps the state well formed, keeps every identifier, and adds
/// the credited seconds to the total unless the topic's duration is capped.
pub proof fn lemma_credited(s: StateView, elapsed: u64)
    requires
        s.wf(),
    ensures
        s.credited(elapsed).wf(),
        s.credited(elapsed).current_topic_id == s.current_topic_id,
        s.credited(elapsed).topics.len() == s.topics.len(),
        forall|id: u64| has_topic(s.credited(elapsed).topics, id) == has_topic(s.topics, id),
        total_duration(s.topics) + elapsed <= u64::MAX ==> total_duration(
            s.credited(elapsed).topics,
        ) == total_duration(s.topics) + elapsed,
{
    let i = position_of(s.topics, s.current_topic_id);
    let topic = s.topics[i];
    let after = TopicView { duration: capped_sum(topic.duration, elapsed), ..topic };
    lemma_position_of(s.topics, s.current_topic_id);
    lemma_total_after_update(s.topics, i, after);
    assert forall|id: u64| has_topic(s.credited(elapsed).topics, id) == has_topic(
        s.topics,
        id,
    ) by {
        lemma_position_after_update(s.topics, i, after, id);
    }
}

/// A switch ends in a well-formed state. Where the topic exists it is the
/// current one afterwards; where it does not, nothing has changed.
pub proof fn lemma_switched(s: StateView, id: u64, elapsed: u64)
    requires
        s.wf(),
    ensures
        s.switched(id, elapsed).wf(),
        has_topic(s.topics, id) ==> s.switched(id, elapsed).current_topic_id == id,
        !has_topic(s.topics, id) ==> s.switched(id, elapsed) == s,
        forall|other: u64|
            has_topic(s.switched(id, elapsed).topics, other) == has_topic(s.topics, other),
        s.switched(id, elapsed).topics.len() == s.topics.len(),
{
    lemma_credited(s, elapsed);
}

/// Switching to the topic that is current already credits the open interval
/// to it, as a read-out would, and changes nothing else: no second is added
/// beyond the interval that the switch closed.
pub proof fn lemma_switch_to_current(s: StateView, elapsed: u64)
    requires
        s.wf(),
    ensures
        s.switched(s.current_topic_id, elapsed) == s.credited(elapsed),
        s.switched(s.current_topic_id, 0) == s,
{
    lemma_position_of(s.topics, s.current_topic_id);
    let i = position_of(s.topics, s.current_topic_id);
    assert(s.credited(0).topics =~= s.topics);
}

/// No time is lost and none is counted twice: after any run of switches and
/// read-outs, the seconds credited to all topics together have grown by
/// exactly the seconds that the steps of the run accounted for, as long as
/// the total fits in 64 bits.
pub proof fn lemma_no_time_lost(s: StateView, steps: Seq<StoreStep>)
    requires
        s.wf(),
        total_duration(s.topics) + s.accounted_all(steps) <= u64::MAX,
    ensures
        s.after_all(steps).wf(),
        total_duration(s.after_all(steps).topics) == total_duration(s.topics) + s.accounted_all(
            steps,
        ),
    decreases steps.len(),
{
    if steps.len() > 0 {
        let before = s.after_all(steps.drop_last());
        lemma_no_time_lost(s, steps.drop_last());
        match steps.last() {
            StoreStep::Switch { id, elapsed } => {
                lemma_switched(before, id, elapsed);
                if has_topic(before.topics, id) {
                    lemma_credited(before, elapsed);
                }
            },
            StoreStep::Snapshot { elapsed } => {
                lemma_credited(before, elapsed);
            },
        }
    }
}

/// Only the topic that is current when an interval closes gains from it:
/// every other topic keeps its duration, and the current one gains the whole
/// interval.
pub proof fn lemma_credit_goes_to_current(s: StateView, elapsed: u64, j: int)
    requires
        s.wf(),
        0 <= j < s.topics.len(),
    ensures
        j != position_of(s.topics, s.current_topic_id) ==> s.credited(elapsed).topics[j]
            == s.topics[j],
        j == position_of(s.topics, s.current_topic_id) ==> s.credited(elapsed).topics[j].duration
            == capped_sum(s.topics[j].duration, elapsed),
{
    lemma_position_of(s.topics, s.current_topic_id);
}


// ---------------------------------------------------------------------------
// Executable store
// ---------------------------------------------------------------------------

/// The error of a switch to a topic that the store does not hold.
#[derive(Debug)]
pub struct TopicNotFound {
    pub id: u64,
}

/// The store that a server starts with.
pub open spec fn initial_view() -> StateView {
    StateView {
        last_assigned_topic_id: 2,
        current_topic_id: OFF_TOPIC_ID,
        topics: seq![
            TopicView { id: 0, name: "OFF"@, duration: 0, parent: None, dependants: Seq::empty() },
            TopicView { id: 1, name: "Idle"@, duration: 0, parent: None, dependants: Seq::empty() },
            TopicView { id: 2, name: "Work"@, duration: 0, parent: None, dependants: Seq::empty() },
        ],
    }
}

/// What a client shows while it has no state from the server.
pub open spec fn placeholder_view() -> StateView {
    StateView { last_assigned_topic_id: 1, current_topic_id: OFF_TOPIC_ID, topics: Seq::empty() }
}

/// The index at which a scan from the front first meets a topic with
/// identifier `id`; the length of the list when it meets none.
fn scan_for(id: u64, topics_tree: &Vec<TimeTrackingTopic>) -> (i: usize)
    ensures
        i == position_of(topic_views(topics_tree@), id),
        i <= topics_tree.len(),
{
    let ghost views = topic_views(topics_tree@);
    let mut i: usize = 0;
    while i < topics_tree.len()
        invariant
            i <= topics_tree.len(),
            views == topic_views(topics_tree@),
            forall|j: int| 0 <= j < i ==> views[j].id != id,
        decreases topics_tree.len() - i,
    {
        if topics_tree[i].id == id {
            proof {
                assert(views[i as int].id == id);
                lemma_position_is(views, id, i as int);
            }
            return i;
        }
        assert(views[i as int].id != id);
        i = i + 1;
    }
    proof {
        lemma_position_is(views, id, i as int);
    }
    i
}

/// Looks for a topic by identifier. Of several topics with the same
/// identifier the first is found.
pub fn find_topic(id: u64, topics_tree: &Vec<TimeTrackingTopic>) -> (found: Option<
    &TimeTrackingTopic,
>)
    ensures
        found is Some == has_topic(topic_views(topics_tree@), id),
        found matches Some(topic) ==> *topic == topics_tree@[position_of(
            topic_views(topics_tree@),
            id,
        )],
{
    let i = scan_for(id, topics_tree);
    if i < topics_tree.len() {
        Some(&topics_tree[i])
    } else {
        None
    }
}

/// Looks for a topic by identifier and hands it out for change. What the
/// caller writes through the reference is what the list holds afterwards at
/// that place; the rest of the list stays as it is.
pub fn find_topic_mutable(id: u64, topics_tree: &mut Vec<TimeTrackingTopic>) -> (found: Option<
    &mut TimeTrackingTopic,
>)
    ensures
        found is Some == has_topic(topic_views(old(topics_tree)@), id),
        found is None ==> final(topics_tree)@ == old(topics_tree)@,
        found matches Some(topic) ==> {
            let i = position_of(topic_views(old(topics_tree)@), id);
            &&& *topic == old(topics_tree)@[i]
            &&& final(topics_tree)@ == old(topics_tree)@.update(i, *final(topic))
        },
{
    let i = scan_for(id, topics_tree);
    if i < topics_tree.len() {
        Some(&mut topics_tree[i])
    } else {
        None
    }
}

/// Closes the open interval of the current topic: reads the clock and
/// credits the whole seconds since the interval began to the current topic.
/// Which topic is current does not change, and the interval is not restarted.
pub fn update_duration(state: &mut TimeTrackingState)
    requires
        old(state).wf(),
    ensures
        exists|elapsed: u64| final(state)@ == old(state)@.credited(elapsed),
        final(state).details == old(state).details,
        final(state).wf(),
{
    let elapsed = state.details.current_topic_start_instant.elapsed().as_secs();
    state.credit_current(elapsed);
}

/// Begins a new open interval now. Nothing that is reported changes.
pub fn reset_current_topic_start_instant(state: &mut TimeTrackingState)
    ensures
        final(state)@ == old(state)@,
        final(state).topics_tree == old(state).topics_tree,
{
    state.begin_interval_at(Instant::now());
}

impl TimeTrackingImplDetails {
    /// An open interval that began at `start`.
    pub fn starting_at(start: Instant) -> (details: TimeTrackingImplDetails)
        ensures
            details.current_topic_start_instant == start,
    {
        TimeTrackingImplDetails { current_topic_start_instant: start }
    }
}

impl TimeTrackingState {
    /// The current topic exists, so that elapsed time has a topic to go to.
    pub open spec fn wf(&self) -> bool {
        self@.wf()
    }

    /// Begins a new open interval at `start`. The topics, their durations and
    /// the current topic stay as they are; the interval that was open is
    /// dropped, not credited.
    pub fn begin_interval_at(&mut self, start: Instant)
        ensures
            final(self).details.current_topic_start_instant == start,
            final(self).last_assigned_topic_id == old(self).last_assigned_topic_id,
            final(self).current_topic_id == old(self).current_topic_id,
            final(self).topics_tree == old(self).topics_tree,
    {
        self.details = TimeTrackingImplDetails::starting_at(start);
    }

    /// The store that a server starts with: the topics `OFF` (0), `Idle` (1)
    /// and `Work` (2), no time credited, tracking off, and an open interval
    /// that begins now.
    pub fn initial() -> (state: TimeTrackingState)
        ensures
            state@ == initial_view(),
            state.wf(),
    {
        let mut topics_tree: Vec<TimeTrackingTopic> = Vec::new();
        topics_tree.push(root_topic(0, "OFF"));
        topics_tree.push(root_topic(1, "Idle"));
        topics_tree.push(root_topic(2, "Work"));
        let state = TimeTrackingState {
            last_assigned_topic_id: 2,
            current_topic_id: OFF_TOPIC_ID,
            topics_tree,
            details: TimeTrackingImplDetails::new(),
        };
        proof {
            assert(state@.topics =~= initial_view().topics);
            lemma_position_is(state@.topics, OFF_TOPIC_ID, 0);
        }
        state
    }

    /// What a client shows while it has no state from the server: no topics,
    /// tracking off. Its current topic does not exist, so it is for display
    /// only.
    pub fn placeholder() -> (state: TimeTrackingState)
        ensures
            state@ == placeholder_view(),
    {
        let state = TimeTrackingState {
            last_assigned_topic_id: 1,
            current_topic_id: OFF_TOPIC_ID,
            topics_tree: Vec::new(),
            details: TimeTrackingImplDetails::new(),
        };
        assert(state@.topics =~= placeholder_view().topics);
        state
    }

    /// Whether the current topic exists.
    pub fn is_well_formed(&self) -> (ok: bool)
        ensures
            ok == self.wf(),
    {
        scan_for(self.current_topic_id, &self.topics_tree) < self.topics_tree.len()
    }

    /// Credits `elapsed` seconds to the current topic. The duration stops at
    /// the largest 64-bit number instead of wrapping around.
    pub fn credit_current(&mut self, elapsed: u64)
        requires
            old(self).wf(),
        ensures
            final(self)@ == old(self)@.credited(elapsed),
            final(self).details == old(self).details,
            final(self).wf(),
    {
        let ghost before = self@;
        let ghost i = position_of(before.topics, before.current_topic_id);
        let current = self.current_topic_id;
        match find_topic_mutable(current, &mut self.topics_tree) {
            Some(topic) => {
                topic.duration = topic.duration.saturating_add(elapsed);
            },
            None => {},
        }
        proof {
            lemma_position_of(before.topics, before.current_topic_id);
            lemma_credited(before, elapsed);
            let was = old(self).topics_tree@;
            let now = self.topics_tree@;
            assert(now.len() == was.len());
            assert(before.topics[i] == was[i]@);
            assert forall|j: int| 0 <= j < now.len() implies #[trigger] self@.topics[j]
                == before.credited(elapsed).topics[j] by {
                if j != i {
                    assert(now[j] == was[j]);
                    assert(before.topics[j] == was[j]@);
                }
            }
            assert(self@.topics =~= before.credited(elapsed).topics);
        }
    }

    /// Closes the open interval with `elapsed` seconds and begins the next
    /// one at `now`: the seconds are credited to the current topic, and from
    /// here on time is measured from `now`, so that no second is credited
    /// twice.
    pub fn roll_interval(&mut self, elapsed: u64, now: Instant)
        requires
            old(self).wf(),
        ensures
            final(self)@ == old(self)@.credited(elapsed),
            final(self).details.current_topic_start_instant == now,
            final(self).wf(),
    {
        self.credit_current(elapsed);
        self.begin_interval_at(now);
    }

    /// Makes `id` the current topic, given what the clock read: `elapsed`
    /// whole seconds since the open interval began, and the instant `now`.
    /// Where the store holds no such topic the switch fails and nothing
    /// changes. Otherwise the seconds are credited to the topic that was
    /// current, `id` becomes current, the next interval begins at `now`, and
    /// the name of the new current topic is returned.
    pub fn switch_at(&mut self, id: u64, elapsed: u64, now: Instant) -> (result: Result<
        String,
        TopicNotFound,
    >)
        requires
            has_topic(old(self)@.topics, id) ==> old(self).wf(),
        ensures
            old(self).wf() ==> final(self).wf(),
            match result {
                Ok(name) => {
                    &&& has_topic(old(self)@.topics, id)
                    &&& name@ == old(self)@.topics[position_of(old(self)@.topics, id)].name
                    &&& final(self)@ == old(self)@.switched(id, elapsed)
                    &&& final(self).details.current_topic_start_instant == now
                },
                Err(missing) => {
                    &&& !has_topic(old(self)@.topics, id)
                    &&& missing.id == id
                    &&& *final(self) == *old(self)
                },
            },
    {
        let ghost before = self@;
        proof {
            lemma_position_of(before.topics, id);
        }
        let name = match find_topic(id, &self.topics_tree) {
            Some(topic) => {
                assert(topic@ == before.topics[position_of(before.topics, id)]);
                topic.name.clone()
            },
            None => {
                return Err(TopicNotFound { id });
            },
        };
        self.credit_current(elapsed);
        self.current_topic_id = id;
        self.begin_interval_at(now);
        proof {
            lemma_switched(before, id, elapsed);
            assert(self@ == before.switched(id, elapsed));
        }
        Ok(name)
    }

    /// Makes `id` the current topic. Where the store holds no such topic the
    /// switch fails and nothing changes, the open interval included; the
    /// clock is not read. Otherwise the clock is read, and the switch is
    /// carried out as `switch_at` does it with the seconds since the open
    /// interval began and the present instant. A switch to the topic that is
    /// current already does the same: it credits the interval and begins a
    /// new one.
    pub fn switch(&mut self, id: u64) -> (result: Result<String, TopicNotFound>)
        requires
            has_topic(old(self)@.topics, id) ==> old(self).wf(),
        ensures
            old(self).wf() ==> final(self).wf(),
            match result {
                Ok(name) => {
                    &&& has_topic(old(self)@.topics, id)
                    &&& name@ == old(self)@.topics[position_of(old(self)@.topics, id)].name
                    &&& final(self)@.current_topic_id == id
                    &&& exists|elapsed: u64| final(self)@ == old(self)@.switched(id, elapsed)
                },
                Err(missing) => {
                    &&& !has_topic(old(self)@.topics, id)
                    &&& missing.id == id
                    &&& *final(self) == *old(self)
                },
            },
    {
        match find_topic(id, &self.topics_tree) {
            Some(_) => {},
            None => {
                return Err(TopicNotFound { id });
            },
        }
        let elapsed = self.details.current_topic_start_instant.elapsed().as_secs();
        let now = Instant::now();
        self.switch_at(id, elapsed, now)
    }

    /// Reads the state out for reporting: reads the clock, closes the open
    /// interval and begins the next as `roll_interval` does it with the
    /// seconds since the open interval began and the present instant, and
    /// returns a copy of the state as it then is.
    pub fn read_snapshot(&mut self) -> (snapshot: TimeTrackingState)
        requires
            old(self).wf(),
        ensures
            final(self).wf(),
            exists|elapsed: u64| final(self)@ == old(self)@.credited(elapsed),
            snapshot@ == final(self)@,
            snapshot.details == final(self).details,
    {
        let elapsed = self.details.current_topic_start_instant.elapsed().as_secs();
        let now = Instant::now();
        self.roll_interval(elapsed, now);
        self.clone()
    }
}

impl Clone for TimeTrackingState {
    fn clone(&self) -> (copy: Self)
        ensures
            copy@ == self@,
            copy.details == self.details,
    {
        let mut topics_tree: Vec<TimeTrackingTopic> = Vec::new();
        let mut i: usize = 0;
        while i < self.topics_tree.len()
            invariant
                i <= self.topics_tree.len(),
                topics_tree.len() == i,
                forall|j: int| 0 <= j < i ==> topics_tree@[j]@ == self.topics_tree@[j]@,
            decreases self.topics_tree.len() - i,
        {
            topics_tree.push(self.topics_tree[i].clone());
            i = i + 1;
        }
        let copy = TimeTrackingState {
            last_assigned_topic_id: self.last_assigned_topic_id,
            current_topic_id: self.current_topic_id,
            topics_tree,
            details: TimeTrackingImplDetails {
                current_topic_start_instant: self.details.current_topic_start_instant,
            },
        };
        assert(copy@.topics =~= self@.topics);
        copy
    }
}

/// A topic without parent or children and with no time credited.
fn root_topic(id: u64, name: &str) -> (topic: TimeTrackingTopic)
    ensures
        topic@ == (TopicView {
            id,
            name: name@,
            duration: 0,
            parent: None,
            dependants: Seq::empty(),
        }),
{
    TimeTrackingTopic {
        id,
        name: name.to_owned(),
        duration: 0,
        parent: None,
        dependants: Vec::new(),
    }
}

} // verus!
