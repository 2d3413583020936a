//! What an agent's capabilities have done, folded from its own events.
//!
//! What an agent may do is answered when it is equipped and never again; what
//! it has done is here, one field for each capability that keeps something.

use crate::capabilities::fork;
use crate::capabilities::sub_agent;
use crate::capabilities::workflow;
use crate::capabilities::{Capabilities, CapabilityView};
use crate::capabilities::ask_user::{self, AskUserState, AskUserStateView};
use crate::capabilities::fork::{ForkState, ForkStateView};
use crate::capabilities::sub_agent::{SubAgentState, SubAgentStateView};
use crate::capabilities::title::{TitleState, TitleStateView};
use crate::capabilities::workflow::{WorkflowState, WorkflowStateView};
use crate::ids::RunnerId;
use crate::json::{Json, JsonView};
use crate::task_list::{TaskListState, TaskView};
use crate::text::Dup;
use crate::timers::{self, TimerId, TimerRecord, TimerRecordView, TimerState};
use vstd::prelude::*;

verus! {

/// A fact about what an agent's capabilities did.
#[derive(Debug, PartialEq, Eq)]
#[allow(inconsistent_fields)]
pub enum CapabilityEvent {
    AskUserAsked { call: String, question: String },
    AskUserAnswered { calls: Vec<String> },
    AskUserAbandoned,
    TitleAsked { call: String, name: String },
    TitleSet { call: String, name: String },
    TitleRefused { call: String },
    ForkRequested { call: String, pending: fork::Pending },
    ForkCreated { call: String },
    ForkDropped { call: String },
    ForkSeeded { fork: RunnerId },
    ForkSeedFailed { fork: RunnerId, error: String },
    SubAgentRequested { call: String, pending: sub_agent::Pending },
    SubAgentStarted { call: String },
    SubAgentDropped { call: String },
    SubAgentReported { child: RunnerId },
    WorkflowRequested { call: String, pending: workflow::Pending },
    WorkflowStarted { call: String },
    WorkflowDropped { call: String },
    WorkflowReported { child: RunnerId },
    StepResultSubmitted { output: Json },
    TaskListChanged { snapshot: TaskListState },
    TimerArmed { record: TimerRecord },
    TimersCancelled { ids: Vec<TimerId> },
    TimerFired { id: TimerId, next_fire_at_unix_ms: Option<u64> },
}

/// What a [`CapabilityEvent`] stands for.
#[verifier::ext_equal]
#[allow(inconsistent_fields)]
pub enum CapabilityEventView {
    AskUserAsked { call: Seq<char>, question: Seq<char> },
    AskUserAnswered { calls: Seq<Seq<char>> },
    AskUserAbandoned,
    TitleAsked { call: Seq<char>, name: Seq<char> },
    TitleSet { call: Seq<char>, name: Seq<char> },
    TitleRefused { call: Seq<char> },
    ForkRequested { call: Seq<char>, pending: fork::PendingView },
    ForkCreated { call: Seq<char> },
    ForkDropped { call: Seq<char> },
    ForkSeeded { fork: RunnerId },
    ForkSeedFailed { fork: RunnerId, error: Seq<char> },
    SubAgentRequested { call: Seq<char>, pending: sub_agent::PendingView },
    SubAgentStarted { call: Seq<char> },
    SubAgentDropped { call: Seq<char> },
    SubAgentReported { child: RunnerId },
    WorkflowRequested { call: Seq<char>, pending: workflow::PendingView },
    WorkflowStarted { call: Seq<char> },
    WorkflowDropped { call: Seq<char> },
    WorkflowReported { child: RunnerId },
    StepResultSubmitted { output: JsonView },
    TaskListChanged { snapshot: Seq<TaskView> },
    TimerArmed { record: TimerRecordView },
    TimersCancelled { ids: Seq<Seq<char>> },
    TimerFired { id: Seq<char>, next_fire_at_unix_ms: Option<u64> },
}

impl DeepView for CapabilityEvent {
    type V = CapabilityEventView;

    open spec fn deep_view(&self) -> CapabilityEventView {
        match self {
            CapabilityEvent::AskUserAsked { call, question } => CapabilityEventView::AskUserAsked {
                call: call.deep_view(),
                question: question.deep_view(),
            },
            CapabilityEvent::AskUserAnswered { calls } => CapabilityEventView::AskUserAnswered {
                calls: calls.deep_view(),
            },
            CapabilityEvent::AskUserAbandoned => CapabilityEventView::AskUserAbandoned,
            CapabilityEvent::TitleAsked { call, name } => CapabilityEventView::TitleAsked {
                call: call.deep_view(),
                name: name.deep_view(),
            },
            CapabilityEvent::TitleSet { call, name } => CapabilityEventView::TitleSet {
                call: call.deep_view(),
                name: name.deep_view(),
            },
            CapabilityEvent::TitleRefused { call } => CapabilityEventView::TitleRefused {
                call: call.deep_view(),
            },
            CapabilityEvent::ForkRequested { call, pending } => CapabilityEventView::ForkRequested {
                call: call.deep_view(),
                pending: pending.deep_view(),
            },
            CapabilityEvent::ForkCreated { call } => CapabilityEventView::ForkCreated {
                call: call.deep_view(),
            },
            CapabilityEvent::ForkDropped { call } => CapabilityEventView::ForkDropped {
                call: call.deep_view(),
            },
            CapabilityEvent::ForkSeeded { fork } => CapabilityEventView::ForkSeeded {
                fork: fork.deep_view(),
            },
            CapabilityEvent::ForkSeedFailed { fork, error } => CapabilityEventView::ForkSeedFailed {
                fork: fork.deep_view(),
                error: error.deep_view(),
            },
            CapabilityEvent::SubAgentRequested { call, pending } => CapabilityEventView::SubAgentRequested {
                call: call.deep_view(),
                pending: pending.deep_view(),
            },
            CapabilityEvent::SubAgentStarted { call } => CapabilityEventView::SubAgentStarted {
                call: call.deep_view(),
            },
            CapabilityEvent::SubAgentDropped { call } => CapabilityEventView::SubAgentDropped {
                call: call.deep_view(),
            },
            CapabilityEvent::SubAgentReported { child } => CapabilityEventView::SubAgentReported {
                child: child.deep_view(),
            },
            CapabilityEvent::WorkflowRequested { call, pending } => CapabilityEventView::WorkflowRequested {
                call: call.deep_view(),
                pending: pending.deep_view(),
            },
            CapabilityEvent::WorkflowStarted { call } => CapabilityEventView::WorkflowStarted {
                call: call.deep_view(),
            },
            CapabilityEvent::WorkflowDropped { call } => CapabilityEventView::WorkflowDropped {
                call: call.deep_view(),
            },
            CapabilityEvent::WorkflowReported { child } => CapabilityEventView::WorkflowReported {
                child: child.deep_view(),
            },
            CapabilityEvent::StepResultSubmitted { output } => CapabilityEventView::StepResultSubmitted {
                output: output.deep_view(),
            },
            CapabilityEvent::TaskListChanged { snapshot } => CapabilityEventView::TaskListChanged {
                snapshot: snapshot.deep_view(),
            },
            CapabilityEvent::TimerArmed { record } => CapabilityEventView::TimerArmed {
                record: record.deep_view(),
            },
            CapabilityEvent::TimersCancelled { ids } => CapabilityEventView::TimersCancelled {
                ids: ids.deep_view(),
            },
            CapabilityEvent::TimerFired { id, next_fire_at_unix_ms } => CapabilityEventView::TimerFired {
                id: id.deep_view(),
                next_fire_at_unix_ms: next_fire_at_unix_ms.deep_view(),
            },
        }
    }
}

impl Dup for CapabilityEvent {
    fn dup(&self) -> (out: Self) {
        match self {
            CapabilityEvent::AskUserAsked { call, question } => CapabilityEvent::AskUserAsked {
                call: call.dup(),
                question: question.dup(),
            },
            CapabilityEvent::AskUserAnswered { calls } => CapabilityEvent::AskUserAnswered {
                calls: calls.dup(),
            },
            CapabilityEvent::AskUserAbandoned => CapabilityEvent::AskUserAbandoned,
            CapabilityEvent::TitleAsked { call, name } => CapabilityEvent::TitleAsked {
                call: call.dup(),
                name: name.dup(),
            },
            CapabilityEvent::TitleSet { call, name } => CapabilityEvent::TitleSet {
                call: call.dup(),
                name: name.dup(),
            },
            CapabilityEvent::TitleRefused { call } => CapabilityEvent::TitleRefused {
                call: call.dup(),
            },
            CapabilityEvent::ForkRequested { call, pending } => CapabilityEvent::ForkRequested {
                call: call.dup(),
                pending: pending.dup(),
            },
            CapabilityEvent::ForkCreated { call } => CapabilityEvent::ForkCreated {
                call: call.dup(),
            },
            CapabilityEvent::ForkDropped { call } => CapabilityEvent::ForkDropped {
                call: call.dup(),
            },
            CapabilityEvent::ForkSeeded { fork } => CapabilityEvent::ForkSeeded {
                fork: fork.dup(),
            },
            CapabilityEvent::ForkSeedFailed { fork, error } => CapabilityEvent::ForkSeedFailed {
                fork: fork.dup(),
                error: error.dup(),
            },
            CapabilityEvent::SubAgentRequested { call, pending } => CapabilityEvent::SubAgentRequested {
                call: call.dup(),
                pending: pending.dup(),
            },
            CapabilityEvent::SubAgentStarted { call } => CapabilityEvent::SubAgentStarted {
                call: call.dup(),
            },
            CapabilityEvent::SubAgentDropped { call } => CapabilityEvent::SubAgentDropped {
                call: call.dup(),
            },
            CapabilityEvent::SubAgentReported { child } => CapabilityEvent::SubAgentReported {
                child: child.dup(),
            },
            CapabilityEvent::WorkflowRequested { call, pending } => CapabilityEvent::WorkflowRequested {
                call: call.dup(),
                pending: pending.dup(),
            },
            CapabilityEvent::WorkflowStarted { call } => CapabilityEvent::WorkflowStarted {
                call: call.dup(),
            },
            CapabilityEvent::WorkflowDropped { call } => CapabilityEvent::WorkflowDropped {
                call: call.dup(),
            },
            CapabilityEvent::WorkflowReported { child } => CapabilityEvent::WorkflowReported {
                child: child.dup(),
            },
            CapabilityEvent::StepResultSubmitted { output } => CapabilityEvent::StepResultSubmitted {
                output: output.dup(),
            },
            CapabilityEvent::TaskListChanged { snapshot } => CapabilityEvent::TaskListChanged {
                snapshot: snapshot.dup(),
            },
            CapabilityEvent::TimerArmed { record } => CapabilityEvent::TimerArmed {
                record: record.dup(),
            },
            CapabilityEvent::TimersCancelled { ids } => CapabilityEvent::TimersCancelled {
                ids: ids.dup(),
            },
            CapabilityEvent::TimerFired { id, next_fire_at_unix_ms } => CapabilityEvent::TimerFired {
                id: id.dup(),
                next_fire_at_unix_ms: next_fire_at_unix_ms.dup(),
            },
        }
    }
}

impl Clone for CapabilityEvent {
    fn clone(&self) -> (out: Self)
        ensures
            out.deep_view() == self.deep_view(),
    {
        self.dup()
    }
}

/// What an agent is equipped with, and what that has done.
#[derive(Debug, PartialEq, Eq)]
pub struct CapabilityState {
    pub capabilities: Capabilities,
    pub ask_user: AskUserState,
    pub title: TitleState,
    pub fork: ForkState,
    pub sub_agent: SubAgentState,
    pub workflow: WorkflowState,
    pub task_list: TaskListState,
    pub timers: TimerState,
}

/// What a [`CapabilityState`] stands for.
#[verifier::ext_equal]
pub struct CapabilityStateView {
    pub capabilities: Seq<CapabilityView>,
    pub ask_user: AskUserStateView,
    pub title: TitleStateView,
    pub fork: ForkStateView,
    pub sub_agent: SubAgentStateView,
    pub workflow: WorkflowStateView,
    pub task_list: Seq<TaskView>,
    pub timers: Seq<TimerRecordView>,
}

impl DeepView for CapabilityState {
    type V = CapabilityStateView;

    open spec fn deep_view(&self) -> CapabilityStateView {
        CapabilityStateView {
            capabilities: self.capabilities.deep_view(),
            ask_user: self.ask_user.deep_view(),
            title: self.title.deep_view(),
            fork: self.fork.deep_view(),
            sub_agent: self.sub_agent.deep_view(),
            workflow: self.workflow.deep_view(),
            task_list: self.task_list.deep_view(),
            timers: self.timers.deep_view(),
        }
    }
}

impl Dup for CapabilityState {
    fn dup(&self) -> (out: Self) {
        CapabilityState {
            capabilities: self.capabilities.dup(),
            ask_user: self.ask_user.dup(),
            title: self.title.dup(),
            fork: self.fork.dup(),
            sub_agent: self.sub_agent.dup(),
            workflow: self.workflow.dup(),
            task_list: self.task_list.dup(),
            timers: self.timers.dup(),
        }
    }
}

impl Clone for CapabilityState {
    fn clone(&self) -> (out: Self)
        ensures
            out.deep_view() == self.deep_view(),
    {
        self.dup()
    }
}

impl CapabilityStateView {
    /// An agent equipped with these that has done nothing yet.
    pub open spec fn fresh(capabilities: Seq<CapabilityView>) -> CapabilityStateView {
        CapabilityStateView {
            capabilities,
            ask_user: AskUserStateView::idle(),
            title: TitleStateView::idle(),
            fork: ForkStateView::idle(),
            sub_agent: SubAgentStateView::idle(),
            workflow: WorkflowStateView::idle(),
            task_list: seq![],
            timers: seq![],
        }
    }

    /// After one more fact.
    pub open spec fn after(self, event: CapabilityEventView) -> CapabilityStateView {
        match event {
            CapabilityEventView::AskUserAsked { call, question } => CapabilityStateView {
                ask_user: self.ask_user.asked(call, question),
                ..self
            },
            CapabilityEventView::AskUserAnswered { calls } => CapabilityStateView {
                ask_user: self.ask_user.answered(calls),
                ..self
            },
            CapabilityEventView::AskUserAbandoned => CapabilityStateView {
                ask_user: AskUserStateView::idle(),
                ..self
            },
            CapabilityEventView::TitleAsked { call, name } => CapabilityStateView {
                title: self.title.asked(call, name),
                ..self
            },
            CapabilityEventView::TitleSet { call, .. } => CapabilityStateView {
                title: self.title.answered(call),
                ..self
            },
            CapabilityEventView::TitleRefused { call } => CapabilityStateView {
                title: self.title.answered(call),
                ..self
            },
            CapabilityEventView::ForkRequested { call, pending } => CapabilityStateView {
                fork: self.fork.requested(call, pending),
                ..self
            },
            CapabilityEventView::ForkCreated { call } => CapabilityStateView {
                fork: self.fork.created(call),
                ..self
            },
            CapabilityEventView::ForkDropped { call } => CapabilityStateView {
                fork: self.fork.dropped(call),
                ..self
            },
            CapabilityEventView::ForkSeeded { fork } => CapabilityStateView {
                fork: self.fork.settled(fork),
                ..self
            },
            CapabilityEventView::ForkSeedFailed { fork, .. } => CapabilityStateView {
                fork: self.fork.settled(fork),
                ..self
            },
            CapabilityEventView::SubAgentRequested { call, pending } => CapabilityStateView {
                sub_agent: self.sub_agent.requested(call, pending),
                ..self
            },
            CapabilityEventView::SubAgentStarted { call } => CapabilityStateView {
                sub_agent: self.sub_agent.started(call),
                ..self
            },
            CapabilityEventView::SubAgentDropped { call } => CapabilityStateView {
                sub_agent: self.sub_agent.dropped(call),
                ..self
            },
            CapabilityEventView::SubAgentReported { child } => CapabilityStateView {
                sub_agent: self.sub_agent.reported(child),
                ..self
            },
            CapabilityEventView::WorkflowRequested { call, pending } => CapabilityStateView {
                workflow: self.workflow.requested(call, pending),
                ..self
            },
            CapabilityEventView::WorkflowStarted { call } => CapabilityStateView {
                workflow: self.workflow.started(call),
                ..self
            },
            CapabilityEventView::WorkflowDropped { call } => CapabilityStateView {
                workflow: self.workflow.dropped(call),
                ..self
            },
            CapabilityEventView::WorkflowReported { child } => CapabilityStateView {
                workflow: self.workflow.reported(child),
                ..self
            },
            CapabilityEventView::StepResultSubmitted { .. } => self,
            CapabilityEventView::TaskListChanged { snapshot } => CapabilityStateView {
                task_list: snapshot,
                ..self
            },
            CapabilityEventView::TimerArmed { record } => CapabilityStateView {
                timers: self.timers.push(record),
                ..self
            },
            CapabilityEventView::TimersCancelled { ids } => CapabilityStateView {
                timers: timers::without(self.timers, ids),
                ..self
            },
            CapabilityEventView::TimerFired { id, next_fire_at_unix_ms } => CapabilityStateView {
                timers: timers::after_firing(self.timers, id, next_fire_at_unix_ms),
                ..self
            },
        }
    }

    /// After these facts, in order.
    pub open spec fn after_all(self, events: Seq<CapabilityEventView>) -> CapabilityStateView
        decreases events.len(),
    {
        if events.len() == 0 {
            self
        } else {
            self.after_all(events.drop_last()).after(events.last())
        }
    }
}

impl CapabilityState {
    /// An agent equipped with these that has done nothing yet.
    pub fn new(capabilities: Capabilities) -> (r: Self)
        ensures
            r.deep_view() == CapabilityStateView::fresh(capabilities.deep_view()),
    {
        CapabilityState {
            capabilities,
            ask_user: AskUserState::default(),
            title: TitleState::default(),
            fork: ForkState::default(),
            sub_agent: SubAgentState::default(),
            workflow: WorkflowState::default(),
            task_list: TaskListState::new(),
            timers: TimerState::new(),
        }
    }

    /// Fold one fact.
    pub fn apply(self, event: CapabilityEvent) -> (r: Self)
        ensures
            r.deep_view() == self.deep_view().after(event.deep_view()),
    {
        let mut state = self;
        match event {
            CapabilityEvent::AskUserAsked { call, question } => {
                state.ask_user.asked(call, question);
            },
            CapabilityEvent::AskUserAnswered { calls } => {
                state.ask_user.answered(&calls);
            },
            CapabilityEvent::AskUserAbandoned => {
                state.ask_user.abandoned();
            },
            CapabilityEvent::TitleAsked { call, name } => {
                state.title.asked(call, name);
            },
            CapabilityEvent::TitleSet { call, name } => {
                state.title.set(call.as_str(), name);
            },
            CapabilityEvent::TitleRefused { call } => {
                state.title.refused(call.as_str());
            },
            CapabilityEvent::ForkRequested { call, pending } => {
                state.fork.requested(call, pending);
            },
            CapabilityEvent::ForkCreated { call } => {
                state.fork.created(call.as_str());
            },
            CapabilityEvent::ForkDropped { call } => {
                state.fork.dropped(call.as_str());
            },
            CapabilityEvent::ForkSeeded { fork } => {
                state.fork.settled(fork);
            },
            CapabilityEvent::ForkSeedFailed { fork, error: _ } => {
                state.fork.settled(fork);
            },
            CapabilityEvent::SubAgentRequested { call, pending } => {
                state.sub_agent.requested(call, pending);
            },
            CapabilityEvent::SubAgentStarted { call } => {
                state.sub_agent.started(call.as_str());
            },
            CapabilityEvent::SubAgentDropped { call } => {
                state.sub_agent.dropped(call.as_str());
            },
            CapabilityEvent::SubAgentReported { child } => {
                state.sub_agent.reported(child);
            },
            CapabilityEvent::WorkflowRequested { call, pending } => {
                state.workflow.requested(call, pending);
            },
            CapabilityEvent::WorkflowStarted { call } => {
                state.workflow.started(call.as_str());
            },
            CapabilityEvent::WorkflowDropped { call } => {
                state.workflow.dropped(call.as_str());
            },
            CapabilityEvent::WorkflowReported { child } => {
                state.workflow.reported(child);
            },
            CapabilityEvent::StepResultSubmitted { output: _ } => {},
            CapabilityEvent::TaskListChanged { snapshot } => {
                state.task_list = snapshot;
            },
            CapabilityEvent::TimerArmed { record } => {
                state.timers.arm(record);
            },
            CapabilityEvent::TimersCancelled { ids } => {
                state.timers.cancel(&ids);
            },
            CapabilityEvent::TimerFired { id, next_fire_at_unix_ms } => {
                state.timers.fired(&id, next_fire_at_unix_ms);
            },
        }
        state
    }

    /// Fold these facts, in order.
    pub fn apply_all(self, events: Vec<CapabilityEvent>) -> (r: Self)
        ensures
            r.deep_view() == self.deep_view().after_all(events.deep_view()),
    {
        let ghost start = self.deep_view();
        let ghost all = events.deep_view();
        let mut state = self;
        for event in iter: events
            invariant
                iter.seq() == events@,
                all == events.deep_view(),
                state.deep_view() == start.after_all(all.take(iter.index() as int)),
        {
            proof {
                let i = iter.index() as int;
                assert(all[i] == events@[i].deep_view());
                assert(all.take(i + 1).drop_last() =~= all.take(i));
            }
            state = state.apply(event);
        }
        proof {
            assert(all.take(all.len() as int) =~= all);
        }
        state
    }
}

/// No fact changes what an agent is equipped with.
pub proof fn law_equipment_is_fixed(state: CapabilityStateView, events: Seq<CapabilityEventView>)
    ensures
        state.after_all(events).capabilities == state.capabilities,
    decreases events.len(),
{
    if events.len() > 0 {
        law_equipment_is_fixed(state, events.drop_last());
    }
}

/// Folding a journal in two parts is folding it in one, so a snapshot and what
/// was written after it give the state the whole journal gives.
pub proof fn law_a_journal_folds_in_parts(
    state: CapabilityStateView,
    first: Seq<CapabilityEventView>,
    second: Seq<CapabilityEventView>,
)
    ensures
        state.after_all(first + second) == state.after_all(first).after_all(second),
    decreases second.len(),
{
    if second.len() == 0 {
        assert(first + second =~= first);
    } else {
        let all = first + second;
        assert(all.drop_last() =~= first + second.drop_last());
        law_a_journal_folds_in_parts(state, first, second.drop_last());
    }
}

/// What is in flight stays finite: a fold of facts never leaves more open than
/// there were facts.
pub proof fn law_what_is_in_flight_is_finite(
    capabilities: Seq<CapabilityView>,
    events: Seq<CapabilityEventView>,
)
    ensures
        ({
            let state = CapabilityStateView::fresh(capabilities).after_all(events);
            &&& state.ask_user.pending.dom().finite()
            &&& state.title.pending.dom().finite()
            &&& state.fork.requested.dom().finite()
            &&& state.fork.seeding.finite()
            &&& state.sub_agent.requested.dom().finite()
            &&& state.sub_agent.outstanding.finite()
            &&& state.workflow.requested.dom().finite()
            &&& state.workflow.outstanding.finite()
        }),
    decreases events.len(),
{
    if events.len() > 0 {
        law_what_is_in_flight_is_finite(capabilities, events.drop_last());
        let before = CapabilityStateView::fresh(capabilities).after_all(events.drop_last());
        if let CapabilityEventView::AskUserAnswered { calls } = events.last() {
            ask_user::lemma_answered_is_finite(before.ask_user, calls);
        }
    }
}

/// What a question, an answer or an abandoned park records changes the open
/// questions alone: a question is added under its call, answered ones go, and
/// an abandoned park has none.
pub proof fn law_asking_changes_the_open_questions_alone(
    state: CapabilityStateView,
    call: Seq<char>,
    question: Seq<char>,
    calls: Seq<Seq<char>>,
    other: Seq<char>,
)
    ensures
        ({
            let asked = state.after(CapabilityEventView::AskUserAsked { call, question });
            let answered = state.after(CapabilityEventView::AskUserAnswered { calls });
            let abandoned = state.after(CapabilityEventView::AskUserAbandoned);
            &&& asked == (CapabilityStateView { ask_user: asked.ask_user, ..state })
            &&& asked.ask_user.pending == state.ask_user.pending.insert(call, question)
            &&& answered == (CapabilityStateView { ask_user: answered.ask_user, ..state })
            &&& answered.ask_user.pending.contains_key(other)
                <==> state.ask_user.pending.contains_key(other) && !calls.contains(other)
            &&& answered.ask_user.pending.contains_key(other)
                ==> answered.ask_user.pending[other] == state.ask_user.pending[other]
            &&& abandoned == (CapabilityStateView { ask_user: abandoned.ask_user, ..state })
            &&& !abandoned.ask_user.pending.contains_key(other)
        }),
{
}

/// What a rename records changes the renames in flight alone: one that was
/// asked is in flight under its call, one that was answered is not.
pub proof fn law_renaming_changes_the_renames_alone(
    state: CapabilityStateView,
    call: Seq<char>,
    name: Seq<char>,
)
    ensures
        ({
            let asked = state.after(CapabilityEventView::TitleAsked { call, name });
            let set = state.after(CapabilityEventView::TitleSet { call, name });
            let refused = state.after(CapabilityEventView::TitleRefused { call });
            &&& asked == (CapabilityStateView { title: asked.title, ..state })
            &&& asked.title.pending == state.title.pending.insert(call, name)
            &&& set == (CapabilityStateView { title: set.title, ..state })
            &&& set.title.pending == state.title.pending.remove(call)
            &&& refused == set
        }),
{
}

/// What a branch records changes the branches alone: asked for under its call,
/// seeding once it is created, and no longer once its seed landed or failed.
pub proof fn law_branching_changes_the_branches_alone(
    state: CapabilityStateView,
    call: Seq<char>,
    pending: fork::PendingView,
    branch: RunnerId,
    error: Seq<char>,
)
    ensures
        ({
            let asked = state.after(CapabilityEventView::ForkRequested { call, pending });
            let created = asked.after(CapabilityEventView::ForkCreated { call });
            let dropped = asked.after(CapabilityEventView::ForkDropped { call });
            let seeded = state.after(CapabilityEventView::ForkSeeded { fork: branch });
            let failed = state.after(CapabilityEventView::ForkSeedFailed { fork: branch, error });
            &&& asked == (CapabilityStateView { fork: asked.fork, ..state })
            &&& asked.fork.requested == state.fork.requested.insert(call, pending)
            &&& asked.fork.seeding == state.fork.seeding
            &&& created == (CapabilityStateView { fork: created.fork, ..state })
            &&& created.fork.requested == state.fork.requested.remove(call)
            &&& created.fork.seeding == state.fork.seeding.insert(pending.fork)
            &&& dropped.fork.requested == state.fork.requested.remove(call)
            &&& dropped.fork.seeding == state.fork.seeding
            &&& seeded == (CapabilityStateView { fork: seeded.fork, ..state })
            &&& seeded.fork.seeding == state.fork.seeding.remove(branch)
            &&& seeded.fork.requested == state.fork.requested
            &&& failed == seeded
        }),
{
    assert(state.fork.requested.insert(call, pending).remove(call)
        =~= state.fork.requested.remove(call));
}

/// What spawning a worker records changes the workers alone: asked for under
/// its call, outstanding once it started, and no longer once it reported.
pub proof fn law_spawning_changes_the_workers_alone(
    state: CapabilityStateView,
    call: Seq<char>,
    pending: sub_agent::PendingView,
    child: RunnerId,
)
    ensures
        ({
            let asked = state.after(CapabilityEventView::SubAgentRequested { call, pending });
            let started = asked.after(CapabilityEventView::SubAgentStarted { call });
            let dropped = asked.after(CapabilityEventView::SubAgentDropped { call });
            let reported = state.after(CapabilityEventView::SubAgentReported { child });
            &&& asked == (CapabilityStateView { sub_agent: asked.sub_agent, ..state })
            &&& asked.sub_agent.requested == state.sub_agent.requested.insert(call, pending)
            &&& asked.sub_agent.outstanding == state.sub_agent.outstanding
            &&& started == (CapabilityStateView { sub_agent: started.sub_agent, ..state })
            &&& started.sub_agent.requested == state.sub_agent.requested.remove(call)
            &&& started.sub_agent.outstanding == state.sub_agent.outstanding.insert(pending.child)
            &&& dropped.sub_agent.requested == state.sub_agent.requested.remove(call)
            &&& dropped.sub_agent.outstanding == state.sub_agent.outstanding
            &&& reported == (CapabilityStateView { sub_agent: reported.sub_agent, ..state })
            &&& reported.sub_agent.outstanding == state.sub_agent.outstanding.remove(child)
            &&& reported.sub_agent.requested == state.sub_agent.requested
        }),
{
    assert(state.sub_agent.requested.insert(call, pending).remove(call)
        =~= state.sub_agent.requested.remove(call));
}

/// What running a workflow records changes the runs alone, as spawning does
/// the workers.
pub proof fn law_invoking_changes_the_runs_alone(
    state: CapabilityStateView,
    call: Seq<char>,
    pending: workflow::PendingView,
    child: RunnerId,
)
    ensures
        ({
            let asked = state.after(CapabilityEventView::WorkflowRequested { call, pending });
            let started = asked.after(CapabilityEventView::WorkflowStarted { call });
            let dropped = asked.after(CapabilityEventView::WorkflowDropped { call });
            let reported = state.after(CapabilityEventView::WorkflowReported { child });
            &&& asked == (CapabilityStateView { workflow: asked.workflow, ..state })
            &&& asked.workflow.requested == state.workflow.requested.insert(call, pending)
            &&& asked.workflow.outstanding == state.workflow.outstanding
            &&& started == (CapabilityStateView { workflow: started.workflow, ..state })
            &&& started.workflow.requested == state.workflow.requested.remove(call)
            &&& started.workflow.outstanding == state.workflow.outstanding.insert(pending.child)
            &&& dropped.workflow.requested == state.workflow.requested.remove(call)
            &&& dropped.workflow.outstanding == state.workflow.outstanding
            &&& reported == (CapabilityStateView { workflow: reported.workflow, ..state })
            &&& reported.workflow.outstanding == state.workflow.outstanding.remove(child)
            &&& reported.workflow.requested == state.workflow.requested
        }),
{
    assert(state.workflow.requested.insert(call, pending).remove(call)
        =~= state.workflow.requested.remove(call));
}

/// A changed task list is the task list; an armed timer is added at the end, a
/// cancelled one goes. A result that was submitted changes nothing.
pub proof fn law_lists_and_timers_change_alone(
    state: CapabilityStateView,
    snapshot: Seq<TaskView>,
    record: TimerRecordView,
    ids: Seq<Seq<char>>,
    output: JsonView,
)
    ensures
        ({
            let listed = state.after(CapabilityEventView::TaskListChanged { snapshot });
            let armed = state.after(CapabilityEventView::TimerArmed { record });
            let cancelled = state.after(CapabilityEventView::TimersCancelled { ids });
            &&& listed == (CapabilityStateView { task_list: snapshot, ..state })
            &&& armed == (CapabilityStateView { timers: state.timers.push(record), ..state })
            &&& cancelled == (CapabilityStateView { timers: cancelled.timers, ..state })
            &&& forall|t: TimerRecordView| #[trigger]
                cancelled.timers.contains(t) <==> state.timers.contains(t) && !ids.contains(t.id)
            &&& state.after(CapabilityEventView::StepResultSubmitted { output }) == state
        }),
{
    crate::timers::law_cancelled_timers_are_gone(state.timers, ids);
}

/// An agent newly equipped has its equipment and nothing in flight.
pub proof fn law_a_new_agent_has_nothing_in_flight(
    capabilities: Seq<CapabilityView>,
    call: Seq<char>,
    child: RunnerId,
)
    ensures
        ({
            let state = CapabilityStateView::fresh(capabilities);
            &&& state.capabilities == capabilities
            &&& !state.ask_user.pending.contains_key(call)
            &&& !state.title.pending.contains_key(call)
            &&& !state.fork.requested.contains_key(call) && !state.fork.seeding.contains(child)
            &&& !state.sub_agent.requested.contains_key(call)
                && !state.sub_agent.outstanding.contains(child)
            &&& !state.workflow.requested.contains_key(call)
                && !state.workflow.outstanding.contains(child)
            &&& state.task_list.len() == 0 && state.timers.len() == 0
        }),
{
}

/// Events are folded one after another, in order.
pub proof fn law_capability_events_fold_in_order(
    state: CapabilityStateView,
    events: Seq<CapabilityEventView>,
    event: CapabilityEventView,
)
    ensures
        state.after_all(Seq::empty()) == state,
        state.after_all(events.push(event)) == state.after_all(events).after(event),
{
    assert(events.push(event).drop_last() =~= events);
}

} // verus!
