//! Everything durable about an agent, and what can be read off it.

use crate::components::{
    self, ComponentState, ComponentStateView, default_parts, tasks_of, timers_of,
};
use crate::components::queue::inbox::{self, Incoming, IncomingView, Offer, OfferView, queued_offer};
use crate::components::usage::{UsageState, UsageStateView};
use crate::context::{AskedQuestion, AskedQuestionView};
use crate::events::{
    AgentDomainEvent, AgentDomainEventView, AgentHistoryEntry, AgentHistoryEntryView, StepKind,
    StepKindView, copied_event,
};
use crate::lists;
use crate::model::{
    ContentPart, ContentPartView, HookRecord, HookRecordView, LifecycleEvent, LifecycleEventView,
    Message, MessageView,
};
use crate::task_list::{TaskListState, TaskView};
use crate::text::{Dup, same};
use crate::timers::{TimerRecordView, TimerState};
use vstd::prelude::*;

verus! {

/// What one entry of the transcript says.
#[derive(Debug, PartialEq, Eq)]
pub enum AgentLogBody {
    /// A message the model was shown or wrote.
    Llm(Message),
    /// Something that happened to the session.
    Lifecycle(LifecycleEvent),
    /// What a plugin hook did.
    Hook(HookRecord),
    /// From here on the model is shown this summary in place of what came
    /// before the retained message.
    Compacted {
        summary: String,
        carried_state: String,
        retained_from_message_id: Option<String>,
    },
}

/// What a [`AgentLogBody`] stands for.
#[verifier::ext_equal]
pub enum AgentLogBodyView {
    Llm(MessageView),
    Lifecycle(LifecycleEventView),
    Hook(HookRecordView),
    Compacted { summary: Seq<char>, carried_state: Seq<char>, retained_from_message_id: Option<Seq<char>> },
}

impl DeepView for AgentLogBody {
    type V = AgentLogBodyView;

    open spec fn deep_view(&self) -> AgentLogBodyView {
        match self {
            AgentLogBody::Llm(a) => AgentLogBodyView::Llm(a.deep_view()),
            AgentLogBody::Lifecycle(a) => AgentLogBodyView::Lifecycle(a.deep_view()),
            AgentLogBody::Hook(a) => AgentLogBodyView::Hook(a.deep_view()),
            AgentLogBody::Compacted { summary, carried_state, retained_from_message_id } => AgentLogBodyView::Compacted {
                summary: summary.deep_view(),
                carried_state: carried_state.deep_view(),
                retained_from_message_id: retained_from_message_id.deep_view(),
            },
        }
    }
}

impl Dup for AgentLogBody {
    fn dup(&self) -> (out: Self) {
        match self {
            AgentLogBody::Llm(a) => AgentLogBody::Llm(a.dup()),
            AgentLogBody::Lifecycle(a) => AgentLogBody::Lifecycle(a.dup()),
            AgentLogBody::Hook(a) => AgentLogBody::Hook(a.dup()),
            AgentLogBody::Compacted { summary, carried_state, retained_from_message_id } => AgentLogBody::Compacted {
                summary: summary.dup(),
                carried_state: carried_state.dup(),
                retained_from_message_id: retained_from_message_id.dup(),
            },
        }
    }
}

impl Clone for AgentLogBody {
    fn clone(&self) -> (out: Self)
        ensures
            out.deep_view() == self.deep_view(),
    {
        self.dup()
    }
}

/// One entry of the transcript.
#[derive(Debug, PartialEq, Eq)]
pub struct AgentLogEntry {
    pub seq: u64,
    pub at_ms: u64,
    pub body: AgentLogBody,
}

/// What a [`AgentLogEntry`] stands for.
#[verifier::ext_equal]
pub struct AgentLogEntryView {
    pub seq: u64,
    pub at_ms: u64,
    pub body: AgentLogBodyView,
}

impl DeepView for AgentLogEntry {
    type V = AgentLogEntryView;

    open spec fn deep_view(&self) -> AgentLogEntryView {
        AgentLogEntryView {
            seq: self.seq.deep_view(),
            at_ms: self.at_ms.deep_view(),
            body: self.body.deep_view(),
        }
    }
}

impl Dup for AgentLogEntry {
    fn dup(&self) -> (out: Self) {
        AgentLogEntry {
            seq: self.seq.dup(),
            at_ms: self.at_ms.dup(),
            body: self.body.dup(),
        }
    }
}

impl Clone for AgentLogEntry {
    fn clone(&self) -> (out: Self)
        ensures
            out.deep_view() == self.deep_view(),
    {
        self.dup()
    }
}

/// Everything durable about an agent, moved only by the fold.
#[derive(Debug, PartialEq, Eq)]
pub struct AgentState {
    /// Every event but the adoption of another history, in order.
    pub history: Vec<AgentHistoryEntry>,
    /// The transcript.
    pub log: Vec<AgentLogEntry>,
    /// What has been accepted and not yet taken.
    pub inbox: Vec<Incoming>,
    /// The questions this agent is parked on.
    pub asks: Vec<AskedQuestion>,
    /// What each component keeps.
    pub parts: Vec<ComponentState>,
    /// What everything cost.
    pub usage: UsageState,
}

/// What an [`AgentState`] stands for.
#[verifier::ext_equal]
pub struct AgentStateView {
    pub history: Seq<AgentHistoryEntryView>,
    pub log: Seq<AgentLogEntryView>,
    pub inbox: Seq<IncomingView>,
    pub asks: Seq<AskedQuestionView>,
    pub parts: Seq<ComponentStateView>,
    pub usage: UsageStateView,
}

impl AgentState {
    /// What this stands for.
    pub open spec fn model(self) -> AgentStateView
        decreases self,
    {
        AgentStateView {
            history: Seq::new(
                self.history@.len(),
                |i: int|
                    if 0 <= i < self.history@.len() {
                        self.history@[i].model()
                    } else {
                        arbitrary()
                    },
            ),
            log: self.log.deep_view(),
            inbox: self.inbox.deep_view(),
            asks: self.asks.deep_view(),
            parts: self.parts.deep_view(),
            usage: self.usage.deep_view(),
        }
    }
}

impl DeepView for AgentState {
    type V = AgentStateView;

    open spec fn deep_view(&self) -> AgentStateView {
        self.model()
    }
}

/// A copy of a state, entry by entry.
pub fn copied_state(state: &AgentState) -> (out: AgentState)
    ensures
        out.model() == state.model(),
    decreases state,
{
    let mut history: Vec<AgentHistoryEntry> = Vec::new();
    for i in 0..state.history.len()
        invariant
            history.len() == i,
            forall|j: int|
                0 <= j < i ==> (#[trigger] history@[j]).model() == state.history@[j].model(),
    {
        proof {
            assert(decreases_to!(*state => state.history));
            assert(decreases_to!(state.history@ => state.history@[i as int]));
            assert(decreases_to!(state.history@[i as int] => state.history@[i as int].record));
        }
        history.push(
            AgentHistoryEntry {
                seq: state.history[i].seq,
                record: copied_event(&state.history[i].record),
            },
        );
    }
    let out = AgentState {
        history,
        log: state.log.dup(),
        inbox: state.inbox.dup(),
        asks: state.asks.dup(),
        parts: state.parts.dup(),
        usage: state.usage.dup(),
    };
    proof {
        assert(out.model().history =~= state.model().history);
    }
    out
}

impl Dup for AgentState {
    fn dup(&self) -> (out: Self) {
        copied_state(self)
    }
}

impl Clone for AgentState {
    fn clone(&self) -> (out: Self)
        ensures
            out.deep_view() == self.deep_view(),
    {
        self.dup()
    }
}

impl AgentStateView {
    /// An agent nothing has happened to.
    pub open spec fn empty() -> AgentStateView {
        AgentStateView {
            history: seq![],
            log: seq![],
            inbox: seq![],
            asks: seq![],
            parts: seq![
                ComponentStateView::Timers(seq![]),
                ComponentStateView::TaskList(seq![]),
            ],
            usage: UsageStateView::empty(),
        }
    }

    /// The state with one more entry in its transcript.
    pub open spec fn pushed(self, at_ms: u64, body: AgentLogBodyView) -> AgentStateView {
        AgentStateView {
            log: self.log.push(AgentLogEntryView { seq: self.log.len() as u64, at_ms, body }),
            ..self
        }
    }

    /// The state with one more event in its history.
    pub open spec fn recorded(self, record: AgentDomainEventView) -> AgentStateView {
        AgentStateView {
            history: self.history.push(
                AgentHistoryEntryView { seq: self.history.len() as u64, record },
            ),
            ..self
        }
    }

    /// The timers armed.
    pub open spec fn timers(self) -> Seq<TimerRecordView> {
        components::timers_in(self.parts)
    }

    /// The plan.
    pub open spec fn tasks(self) -> Seq<TaskView> {
        components::tasks_in(self.parts)
    }

    /// What the queue is offering.
    pub open spec fn offer(self) -> Option<OfferView> {
        inbox::offered(self.inbox, self.asks)
    }

    /// The step that has started and not ended, by its place in the history.
    pub open spec fn open_step(self) -> Option<(u64, StepKindView)> {
        open_step_in(self.history)
    }

    /// Whether the open step is the agent's own, at this place.
    pub open spec fn agent_step_is(self, marker_seq: u64) -> bool {
        self.open_step() == Some((marker_seq, StepKindView::Agent))
    }

    /// How many corrections the current run has had.
    pub open spec fn nudges(self) -> nat {
        nudges_in(self.history)
    }

    /// The system prompt last recorded; nothing before the first.
    pub open spec fn system_prompt(self) -> Seq<char> {
        match lists::find_last(self.history, |e: AgentHistoryEntryView| recorded_prompt(e)) {
            Some(content) => content,
            None => seq![],
        }
    }

    /// Whether a tool call has been made and not answered.
    pub open spec fn call_is_open(self, id: Seq<char>) -> bool {
        made_in(self.log, id) && !answered_in(self.log, id)
    }

    /// Whether the history numbers its entries from the first on.
    pub open spec fn numbered(self) -> bool {
        forall|i: int| 0 <= i < self.history.len() ==> (#[trigger] self.history[i]).seq == i
    }
}

/// Whether an event ends the step that is open.
pub open spec fn closes_step(record: AgentDomainEventView) -> bool {
    match record {
        AgentDomainEventView::AgentInitialized => true,
        AgentDomainEventView::ConnectionCompleted => true,
        AgentDomainEventView::StepFailed { .. } => true,
        AgentDomainEventView::StopHookCompleted { .. } => true,
        AgentDomainEventView::Compacted { .. } => true,
        AgentDomainEventView::SeedSummaryTaken { .. } => true,
        AgentDomainEventView::RunComplete { .. } => true,
        AgentDomainEventView::RunAborted { .. } => true,
        AgentDomainEventView::RunCancelled { .. } => true,
        AgentDomainEventView::RunEnded { .. } => true,
        _ => false,
    }
}

/// The newest step that nothing after it has ended.
pub open spec fn open_step_in(history: Seq<AgentHistoryEntryView>) -> Option<(u64, StepKindView)>
    decreases history.len(),
{
    if history.len() == 0 {
        None
    } else {
        match history.last().record {
            AgentDomainEventView::StepStarted { kind } => Some((history.last().seq, kind)),
            record => if closes_step(record) {
                None
            } else {
                open_step_in(history.drop_last())
            },
        }
    }
}

/// The corrections since the last run ended.
pub open spec fn nudges_in(history: Seq<AgentHistoryEntryView>) -> nat
    decreases history.len(),
{
    if history.len() == 0 {
        0
    } else {
        match history.last().record {
            AgentDomainEventView::RunEnded { .. } => 0,
            AgentDomainEventView::Nudged { .. } => nudges_in(history.drop_last()) + 1,
            _ => nudges_in(history.drop_last()),
        }
    }
}

/// The system prompt an entry records.
pub open spec fn recorded_prompt(entry: AgentHistoryEntryView) -> Option<Seq<char>> {
    match entry.record {
        AgentDomainEventView::SystemPromptRecorded { content, .. } => Some(content),
        _ => None,
    }
}

/// Whether a message makes a tool call of this id.
pub open spec fn makes_call(message: MessageView, id: Seq<char>) -> bool {
    exists|j: int|
        0 <= j < message.parts.len() && ((#[trigger] message.parts[j]) matches
            ContentPartView::ToolUse(call) && call.id == id)
}

/// Whether a message answers the tool call of this id.
pub open spec fn answers_call(message: MessageView, id: Seq<char>) -> bool {
    exists|j: int|
        0 <= j < message.parts.len() && ((#[trigger] message.parts[j]) matches
            ContentPartView::ToolResult(result) && result.tool_call_id == id)
}

/// Whether a tool call of this id was made.
pub open spec fn made_in(log: Seq<AgentLogEntryView>, id: Seq<char>) -> bool {
    exists|i: int|
        0 <= i < log.len() && ((#[trigger] log[i]).body matches AgentLogBodyView::Llm(message)
            && makes_call(message, id))
}

/// Whether the tool call of this id was answered.
pub open spec fn answered_in(log: Seq<AgentLogEntryView>, id: Seq<char>) -> bool {
    exists|i: int|
        0 <= i < log.len() && ((#[trigger] log[i]).body matches AgentLogBodyView::Llm(message)
            && answers_call(message, id))
}

/// Whether a message makes the tool call of this id, and whether it answers it.
fn calls_and_answers(message: &Message, id: &str) -> (r: (bool, bool))
    ensures
        r.0 == makes_call(message.deep_view(), id@),
        r.1 == answers_call(message.deep_view(), id@),
{
    let ghost parts = message.deep_view().parts;
    let mut made = false;
    let mut answered = false;
    for j in 0..message.parts.len()
        invariant
            parts == message.deep_view().parts,
            made == (exists|k: int|
                0 <= k < j && ((#[trigger] parts[k]) matches ContentPartView::ToolUse(call)
                    && call.id == id@)),
            answered == (exists|k: int|
                0 <= k < j && ((#[trigger] parts[k]) matches ContentPartView::ToolResult(result)
                    && result.tool_call_id == id@)),
    {
        proof {
            assert(parts[j as int] == message.parts@[j as int].deep_view());
        }
        match &message.parts[j] {
            ContentPart::ToolUse(call) => {
                if same(call.id.as_str(), id) {
                    made = true;
                }
            },
            ContentPart::ToolResult(result) => {
                if same(result.tool_call_id.as_str(), id) {
                    answered = true;
                }
            },
            ContentPart::Text(_) => {},
        }
    }
    (made, answered)
}

impl AgentState {
    /// An agent nothing has happened to.
    pub fn new() -> (r: Self)
        ensures
            r.deep_view() == AgentStateView::empty(),
    {
        let r = AgentState {
            history: Vec::new(),
            log: Vec::new(),
            inbox: Vec::new(),
            asks: Vec::new(),
            parts: default_parts(),
            usage: UsageState::default(),
        };
        proof {
            let view = r.deep_view();
            assert(view.history =~= seq![]);
            assert(view.log =~= seq![]);
            assert(view.inbox =~= seq![]);
            assert(view.asks =~= seq![]);
        }
        r
    }

    /// One more entry in the transcript.
    pub fn push(&mut self, at_ms: u64, body: AgentLogBody)
        ensures
            final(self).deep_view() == old(self).deep_view().pushed(at_ms, body.deep_view()),
            final(self).history == old(self).history,
    {
        let ghost had = self.deep_view();
        let seq: u64 = self.log.len() as u64;
        self.log.push(AgentLogEntry { seq, at_ms, body });
        proof {
            assert(self.deep_view() =~= had.pushed(at_ms, body.deep_view()));
        }
    }

    /// One more event in the history.
    pub fn record_history(&mut self, record: AgentDomainEvent)
        ensures
            final(self).deep_view() == old(self).deep_view().recorded(record.deep_view()),
    {
        let ghost had = self.deep_view();
        let seq: u64 = self.history.len() as u64;
        let entry = AgentHistoryEntry { seq, record };
        proof {
            assert(entry.model() == (AgentHistoryEntryView { seq, record: record.deep_view() }));
        }
        self.history.push(entry);
        proof {
            assert(self.deep_view().history =~= had.history.push(entry.model()));
            assert(self.deep_view() =~= had.recorded(record.deep_view()));
        }
    }

    /// The timers armed, oldest first; `None` when nothing keeps any.
    pub fn timers(&self) -> (r: Option<&TimerState>)
        ensures
            match r {
                Some(timers) => timers.deep_view() == self.deep_view().timers(),
                None => self.deep_view().timers() == Seq::<TimerRecordView>::empty(),
            },
    {
        timers_of(&self.parts)
    }

    /// Whether any timer is armed.
    pub fn has_timers(&self) -> (r: bool)
        ensures
            r == (self.deep_view().timers().len() > 0),
    {
        match self.timers() {
            Some(timers) => timers.records().len() > 0,
            None => false,
        }
    }

    /// A copy of the plan.
    pub fn task_list(&self) -> (r: TaskListState)
        ensures
            r.deep_view() == self.deep_view().tasks(),
    {
        match tasks_of(&self.parts) {
            Some(part) => part.list().dup(),
            None => TaskListState::new(),
        }
    }

    /// What the queue is offering now, if anything.
    pub fn queued_offer(&self) -> (r: Option<Offer>)
        ensures
            r.deep_view() == self.deep_view().offer(),
    {
        queued_offer(&self.inbox, &self.asks)
    }

    /// The step that has started and not ended, by its place in the history.
    pub fn open_step(&self) -> (r: Option<(u64, &StepKind)>)
        ensures
            match r {
                Some((seq, kind)) => self.deep_view().open_step() == Some((seq, kind.deep_view())),
                None => self.deep_view().open_step() is None,
            },
    {
        let ghost all = self.deep_view().history;
        let mut i: usize = self.history.len();
        proof {
            assert(all.take(i as int) =~= all);
        }
        while i > 0
            invariant
                i <= self.history.len(),
                all == self.deep_view().history,
                open_step_in(all.take(i as int)) == open_step_in(all),
            decreases i,
        {
            i = i - 1;
            proof {
                assert(all.take(i + 1).drop_last() =~= all.take(i as int));
                assert(all[i as int] == self.history@[i as int].deep_view());
            }
            let entry = &self.history[i];
            match &entry.record {
                AgentDomainEvent::StepStarted { kind } => {
                    return Some((entry.seq, kind));
                },
                AgentDomainEvent::AgentInitialized => {
                    return None;
                },
                AgentDomainEvent::ConnectionCompleted => {
                    return None;
                },
                AgentDomainEvent::StepFailed { .. } => {
                    return None;
                },
                AgentDomainEvent::StopHookCompleted { .. } => {
                    return None;
                },
                AgentDomainEvent::Compacted { .. } => {
                    return None;
                },
                AgentDomainEvent::SeedSummaryTaken { .. } => {
                    return None;
                },
                AgentDomainEvent::RunComplete { .. } => {
                    return None;
                },
                AgentDomainEvent::RunAborted { .. } => {
                    return None;
                },
                AgentDomainEvent::RunCancelled { .. } => {
                    return None;
                },
                AgentDomainEvent::RunEnded { .. } => {
                    return None;
                },
                _ => {},
            }
        }
        None
    }

    /// Whether the open step is the agent's own, at this place in the history.
    pub fn agent_step_is(&self, marker_seq: u64) -> (r: bool)
        ensures
            r == self.deep_view().agent_step_is(marker_seq),
    {
        match self.open_step() {
            Some((seq, StepKind::Agent)) => seq == marker_seq,
            _ => false,
        }
    }

    /// How many corrections the current run has had.
    pub fn nudges(&self) -> (r: u64)
        ensures
            r == self.deep_view().nudges(),
            r <= self.history@.len(),
    {
        let ghost all = self.deep_view().history;
        let mut i: usize = self.history.len();
        let mut count: u64 = 0;
        proof {
            assert(all.take(i as int) =~= all);
        }
        while i > 0
            invariant
                i <= self.history.len(),
                all == self.deep_view().history,
                nudges_in(all.take(i as int)) + count == nudges_in(all),
                count + i <= self.history.len(),
            decreases i,
        {
            i = i - 1;
            proof {
                assert(all.take(i + 1).drop_last() =~= all.take(i as int));
                assert(all[i as int] == self.history@[i as int].deep_view());
            }
            match &self.history[i].record {
                AgentDomainEvent::RunEnded { .. } => {
                    return count;
                },
                AgentDomainEvent::Nudged { .. } => {
                    count = count + 1;
                },
                _ => {},
            }
        }
        count
    }

    /// The system prompt last recorded; nothing before the first.
    pub fn system_prompt(&self) -> (r: String)
        ensures
            r@ == self.deep_view().system_prompt(),
    {
        let ghost all = self.deep_view().history;
        let ghost prompt = |e: AgentHistoryEntryView| recorded_prompt(e);
        let mut i: usize = self.history.len();
        proof {
            assert(all.take(i as int) =~= all);
        }
        while i > 0
            invariant
                i <= self.history.len(),
                all == self.deep_view().history,
                prompt == (|e: AgentHistoryEntryView| recorded_prompt(e)),
                lists::find_last(all.take(i as int), prompt) == lists::find_last(all, prompt),
            decreases i,
        {
            i = i - 1;
            proof {
                assert(all.take(i + 1).drop_last() =~= all.take(i as int));
                assert(all[i as int] == self.history@[i as int].deep_view());
            }
            if let AgentDomainEvent::SystemPromptRecorded { content, .. } = &self.history[i].record {
                return content.clone();
            }
        }
        String::new()
    }

    /// Whether a tool call has been made and not answered.
    pub fn call_is_open(&self, id: &str) -> (r: bool)
        ensures
            r == self.deep_view().call_is_open(id@),
    {
        let ghost log = self.deep_view().log;
        let mut made = false;
        let mut answered = false;
        for i in 0..self.log.len()
            invariant
                log == self.deep_view().log,
                made == made_in(log.take(i as int), id@),
                answered == answered_in(log.take(i as int), id@),
        {
            proof {
                assert(log[i as int] == self.log@[i as int].deep_view());
                assert(forall|k: int| 0 <= k < i ==> log.take(i + 1)[k] == log.take(i as int)[k]);
                assert(log.take(i + 1)[i as int] == log[i as int]);
                lemma_made_step(log, i as int, id@);
            }
            if let AgentLogBody::Llm(message) = &self.log[i].body {
                let (calls, answers) = calls_and_answers(message, id);
                made = made || calls;
                answered = answered || answers;
            }
        }
        proof {
            assert(log.take(self.log.len() as int) =~= log);
        }
        made && !answered
    }

    /// What has been accepted and not yet taken.
    pub fn pending_incoming(&self) -> (r: &Vec<Incoming>)
        ensures
            r.deep_view() == self.deep_view().inbox,
    {
        &self.inbox
    }
}

/// One more entry makes the calls, and gives the answers, of its message.
proof fn lemma_made_step(log: Seq<AgentLogEntryView>, i: int, id: Seq<char>)
    requires
        0 <= i < log.len(),
    ensures
        made_in(log.take(i + 1), id) == (made_in(log.take(i), id) || (log[i].body matches
            AgentLogBodyView::Llm(message) && makes_call(message, id))),
        answered_in(log.take(i + 1), id) == (answered_in(log.take(i), id) || (log[i].body matches
            AgentLogBodyView::Llm(message) && answers_call(message, id))),
{
    let a = log.take(i);
    let b = log.take(i + 1);
    assert(b[i] == log[i]);
    assert forall|k: int| 0 <= k < i implies #[trigger] a[k] == b[k] by {}
    if made_in(a, id) {
        let k = choose|k: int|
            0 <= k < a.len() && ((#[trigger] a[k]).body matches AgentLogBodyView::Llm(message)
                && makes_call(message, id));
        assert(b[k] == a[k]);
    }
    if made_in(b, id) {
        let k = choose|k: int|
            0 <= k < b.len() && ((#[trigger] b[k]).body matches AgentLogBodyView::Llm(message)
                && makes_call(message, id));
        if k < i {
            assert(b[k] == a[k]);
        }
    }
    if answered_in(a, id) {
        let k = choose|k: int|
            0 <= k < a.len() && ((#[trigger] a[k]).body matches AgentLogBodyView::Llm(message)
                && answers_call(message, id));
        assert(b[k] == a[k]);
    }
    if answered_in(b, id) {
        let k = choose|k: int|
            0 <= k < b.len() && ((#[trigger] b[k]).body matches AgentLogBodyView::Llm(message)
                && answers_call(message, id));
        if k < i {
            assert(b[k] == a[k]);
        }
    }
}

impl Default for AgentState {
    fn default() -> (r: Self)
        ensures
            r.deep_view() == AgentStateView::empty(),
    {
        AgentState::new()
    }
}

/// A step that has just started is the open one, at the place it was given.
pub proof fn law_a_started_step_is_open(state: AgentStateView, kind: StepKindView)
    requires
        state.history.len() <= u64::MAX,
    ensures
        state.recorded(AgentDomainEventView::StepStarted { kind }).open_step() == Some(
            (state.history.len() as u64, kind),
        ),
{
}

/// What ends a step leaves none open.
pub proof fn law_a_closed_step_is_not_open(state: AgentStateView, record: AgentDomainEventView)
    requires
        closes_step(record),
    ensures
        state.recorded(record).open_step() is None,
{
}

/// Recording an event keeps the history numbered, and gives the event a place
/// that no earlier one has.
pub proof fn law_places_are_unique(state: AgentStateView, record: AgentDomainEventView)
    requires
        state.numbered(),
        state.history.len() <= u64::MAX,
    ensures
        state.recorded(record).numbered(),
        forall|i: int|
            0 <= i < state.history.len() ==> (#[trigger] state.history[i]).seq != state.recorded(
                record,
            ).history.last().seq,
{
}

} // verus!
