//! The parts an agent runs, and everything that is true of all of them.
//!
//! Nothing above this module names a component, and no component names
//! another.

use crate::components::compaction::Compaction;
use crate::components::log::LogWrites;
use crate::components::queue::Queue;
use crate::components::seed::Seeding;
use crate::components::task_list::{TaskListPart, TaskLists};
use crate::components::timers::Timers;
use crate::components::turn::Turn;
use crate::events::{AgentDomainEvent, AgentDomainEventView, AgentHistoryEntryView};
use crate::state::{AgentState, AgentStateView};
use crate::task_list::TaskView;
use crate::text::Dup;
use crate::timers::{TimerRecordView, TimerState};
use vstd::prelude::*;

pub mod compaction;
pub mod laws;
pub mod log;
pub mod provision;
pub mod queue;
pub mod seed;
pub mod task_list;
pub mod timers;
pub mod turn;
pub mod usage;

verus! {

/// One component's durable state, tagged by the component that owns it.
///
/// A list of these rather than a set of named fields: adding a component adds
/// a variant here and a file, and touches nothing else.
#[derive(Debug, PartialEq, Eq)]
pub enum ComponentState {
    Timers(TimerState),
    TaskList(TaskListPart),
}

/// What a [`ComponentState`] stands for.
#[verifier::ext_equal]
pub enum ComponentStateView {
    Timers(Seq<TimerRecordView>),
    TaskList(Seq<TaskView>),
}

impl DeepView for ComponentState {
    type V = ComponentStateView;

    open spec fn deep_view(&self) -> ComponentStateView {
        match self {
            ComponentState::Timers(a) => ComponentStateView::Timers(a.deep_view()),
            ComponentState::TaskList(a) => ComponentStateView::TaskList(a.deep_view()),
        }
    }
}

impl Dup for ComponentState {
    fn dup(&self) -> (out: Self) {
        match self {
            ComponentState::Timers(a) => ComponentState::Timers(a.dup()),
            ComponentState::TaskList(a) => ComponentState::TaskList(a.dup()),
        }
    }
}

impl Clone for ComponentState {
    fn clone(&self) -> (out: Self)
        ensures
            out.deep_view() == self.deep_view(),
    {
        self.dup()
    }
}

/// Where the timers are kept, or the length.
pub open spec fn timers_place(parts: Seq<ComponentStateView>) -> int
    decreases parts.len(),
{
    if parts.len() == 0 {
        0
    } else if parts[0] is Timers {
        0
    } else {
        1 + timers_place(parts.drop_first())
    }
}

/// Where the task list is kept, or the length.
pub open spec fn tasks_place(parts: Seq<ComponentStateView>) -> int
    decreases parts.len(),
{
    if parts.len() == 0 {
        0
    } else if parts[0] is TaskList {
        0
    } else {
        1 + tasks_place(parts.drop_first())
    }
}

/// The timers kept here; none when nothing keeps any.
pub open spec fn timers_in(parts: Seq<ComponentStateView>) -> Seq<TimerRecordView> {
    let p = timers_place(parts);
    if p < parts.len() {
        parts[p]->Timers_0
    } else {
        seq![]
    }
}

/// The task list kept here; an empty one when nothing keeps any.
pub open spec fn tasks_in(parts: Seq<ComponentStateView>) -> Seq<TaskView> {
    let p = tasks_place(parts);
    if p < parts.len() {
        parts[p]->TaskList_0
    } else {
        seq![]
    }
}

/// The parts with these timers kept.
pub open spec fn with_timers(
    parts: Seq<ComponentStateView>,
    timers: Seq<TimerRecordView>,
) -> Seq<ComponentStateView> {
    let p = timers_place(parts);
    if p < parts.len() {
        parts.update(p, ComponentStateView::Timers(timers))
    } else {
        parts.push(ComponentStateView::Timers(timers))
    }
}

/// The parts with these tasks kept.
pub open spec fn with_tasks(
    parts: Seq<ComponentStateView>,
    tasks: Seq<TaskView>,
) -> Seq<ComponentStateView> {
    let p = tasks_place(parts);
    if p < parts.len() {
        parts.update(p, ComponentStateView::TaskList(tasks))
    } else {
        parts.push(ComponentStateView::TaskList(tasks))
    }
}

/// The place of the timers is the first that holds any.
proof fn lemma_timers_place(parts: Seq<ComponentStateView>)
    ensures
        0 <= timers_place(parts) <= parts.len(),
        timers_place(parts) < parts.len() ==> parts[timers_place(parts)] is Timers,
        forall|i: int| 0 <= i < timers_place(parts) ==> !((#[trigger] parts[i]) is Timers),
    decreases parts.len(),
{
    if parts.len() > 0 && !(parts[0] is Timers) {
        let rest = parts.drop_first();
        lemma_timers_place(rest);
        assert forall|i: int| 0 <= i < timers_place(parts) implies !((#[trigger] parts[i]) is
            Timers) by {
            if i > 0 {
                assert(rest[i - 1] == parts[i]);
            }
        }
    }
}

/// The place of the task list is the first that holds one.
proof fn lemma_tasks_place(parts: Seq<ComponentStateView>)
    ensures
        0 <= tasks_place(parts) <= parts.len(),
        tasks_place(parts) < parts.len() ==> parts[tasks_place(parts)] is TaskList,
        forall|i: int| 0 <= i < tasks_place(parts) ==> !((#[trigger] parts[i]) is TaskList),
    decreases parts.len(),
{
    if parts.len() > 0 && !(parts[0] is TaskList) {
        let rest = parts.drop_first();
        lemma_tasks_place(rest);
        assert forall|i: int| 0 <= i < tasks_place(parts) implies !((#[trigger] parts[i]) is
            TaskList) by {
            if i > 0 {
                assert(rest[i - 1] == parts[i]);
            }
        }
    }
}

/// A place with what it says of every place before it is the place.
proof fn lemma_is_timers_place(parts: Seq<ComponentStateView>, p: int)
    requires
        0 <= p <= parts.len(),
        p < parts.len() ==> parts[p] is Timers,
        forall|i: int| 0 <= i < p ==> !((#[trigger] parts[i]) is Timers),
    ensures
        timers_place(parts) == p,
{
    lemma_timers_place(parts);
    let q = timers_place(parts);
    if q < p {
        assert(!(parts[q] is Timers));
    }
    if p < q {
        assert(!(parts[p] is Timers));
    }
}

/// A place with what it says of every place before it is the place.
proof fn lemma_is_tasks_place(parts: Seq<ComponentStateView>, p: int)
    requires
        0 <= p <= parts.len(),
        p < parts.len() ==> parts[p] is TaskList,
        forall|i: int| 0 <= i < p ==> !((#[trigger] parts[i]) is TaskList),
    ensures
        tasks_place(parts) == p,
{
    lemma_tasks_place(parts);
    let q = tasks_place(parts);
    if q < p {
        assert(!(parts[q] is TaskList));
    }
    if p < q {
        assert(!(parts[p] is TaskList));
    }
}

/// What is kept is what is read back, and keeping one part leaves the others
/// as they were.
pub proof fn law_a_part_reads_back_what_was_kept(
    parts: Seq<ComponentStateView>,
    timers: Seq<TimerRecordView>,
    tasks: Seq<TaskView>,
)
    ensures
        timers_in(with_timers(parts, timers)) == timers,
        tasks_in(with_timers(parts, timers)) == tasks_in(parts),
        tasks_in(with_tasks(parts, tasks)) == tasks,
        timers_in(with_tasks(parts, tasks)) == timers_in(parts),
{
    lemma_timers_place(parts);
    lemma_tasks_place(parts);
    let t = with_timers(parts, timers);
    let l = with_tasks(parts, tasks);
    lemma_is_timers_place(t, timers_place(parts));
    lemma_is_tasks_place(l, tasks_place(parts));
    lemma_is_tasks_place(
        t,
        if tasks_place(parts) < parts.len() {
            tasks_place(parts)
        } else {
            t.len() as int
        },
    );
    lemma_is_timers_place(
        l,
        if timers_place(parts) < parts.len() {
            timers_place(parts)
        } else {
            l.len() as int
        },
    );
}

/// Where the timers are kept, or the length.
fn find_timers(parts: &[ComponentState]) -> (p: usize)
    ensures
        p == timers_place(parts.deep_view()),
        p <= parts@.len(),
        p < parts@.len() ==> parts@[p as int] is Timers,
{
    let mut p: usize = 0;
    while p < parts.len() && !matches!(parts[p], ComponentState::Timers(_))
        invariant
            p <= parts.len(),
            forall|i: int| 0 <= i < p ==> !((#[trigger] parts.deep_view()[i]) is Timers),
        decreases parts.len() - p,
    {
        proof {
            assert(parts.deep_view()[p as int] == parts@[p as int].deep_view());
        }
        p = p + 1;
    }
    proof {
        if p < parts.len() {
            assert(parts.deep_view()[p as int] == parts@[p as int].deep_view());
        }
        lemma_is_timers_place(parts.deep_view(), p as int);
    }
    p
}

/// Where the task list is kept, or the length.
fn find_tasks(parts: &[ComponentState]) -> (p: usize)
    ensures
        p == tasks_place(parts.deep_view()),
        p <= parts@.len(),
        p < parts@.len() ==> parts@[p as int] is TaskList,
{
    let mut p: usize = 0;
    while p < parts.len() && !matches!(parts[p], ComponentState::TaskList(_))
        invariant
            p <= parts.len(),
            forall|i: int| 0 <= i < p ==> !((#[trigger] parts.deep_view()[i]) is TaskList),
        decreases parts.len() - p,
    {
        proof {
            assert(parts.deep_view()[p as int] == parts@[p as int].deep_view());
        }
        p = p + 1;
    }
    proof {
        if p < parts.len() {
            assert(parts.deep_view()[p as int] == parts@[p as int].deep_view());
        }
        lemma_is_tasks_place(parts.deep_view(), p as int);
    }
    p
}

/// The timers, when a part keeps them.
pub fn timers_of(parts: &[ComponentState]) -> (r: Option<&TimerState>)
    ensures
        match r {
            Some(timers) => timers.deep_view() == timers_in(parts.deep_view()),
            None => timers_in(parts.deep_view()) == Seq::<TimerRecordView>::empty(),
        },
{
    let p = find_timers(parts);
    if p < parts.len() {
        match &parts[p] {
            ComponentState::Timers(timers) => {
                proof {
                    assert(parts.deep_view()[p as int] == parts@[p as int].deep_view());
                }
                Some(timers)
            },
            _ => None,
        }
    } else {
        None
    }
}

/// The task list, when a part keeps it.
pub fn tasks_of(parts: &[ComponentState]) -> (r: Option<&TaskListPart>)
    ensures
        match r {
            Some(list) => list.deep_view() == tasks_in(parts.deep_view()),
            None => tasks_in(parts.deep_view()) == Seq::<TaskView>::empty(),
        },
{
    let p = find_tasks(parts);
    if p < parts.len() {
        match &parts[p] {
            ComponentState::TaskList(list) => {
                proof {
                    assert(parts.deep_view()[p as int] == parts@[p as int].deep_view());
                }
                Some(list)
            },
            _ => None,
        }
    } else {
        None
    }
}

/// Keep these timers, in place of those kept before.
pub fn keep_timers(parts: &mut Vec<ComponentState>, timers: TimerState)
    ensures
        final(parts).deep_view() == with_timers(old(parts).deep_view(), timers.deep_view()),
{
    let ghost had = parts.deep_view();
    let p = find_timers(parts);
    let part = ComponentState::Timers(timers);
    if p < parts.len() {
        parts.set(p, part);
    } else {
        parts.push(part);
    }
    proof {
        assert(parts.deep_view() =~= with_timers(had, timers.deep_view()));
    }
}

/// Keep these tasks, in place of the ones kept before.
pub fn keep_tasks(parts: &mut Vec<ComponentState>, list: TaskListPart)
    ensures
        final(parts).deep_view() == with_tasks(old(parts).deep_view(), list.deep_view()),
{
    let ghost had = parts.deep_view();
    let p = find_tasks(parts);
    let part = ComponentState::TaskList(list);
    if p < parts.len() {
        parts.set(p, part);
    } else {
        parts.push(part);
    }
    proof {
        assert(parts.deep_view() =~= with_tasks(had, list.deep_view()));
    }
}

/// One empty state per component, in registry order.
pub fn default_parts() -> (r: Vec<ComponentState>)
    ensures
        r.deep_view() == seq![
            ComponentStateView::Timers(seq![]),
            ComponentStateView::TaskList(seq![]),
        ],
{
    let mut parts: Vec<ComponentState> = Vec::new();
    parts.push(ComponentState::Timers(TimerState::new()));
    parts.push(ComponentState::TaskList(TaskListPart::new()));
    proof {
        assert(parts.deep_view() =~= seq![
            ComponentStateView::Timers(seq![]),
            ComponentStateView::TaskList(seq![]),
        ]);
    }
    parts
}

impl ComponentStateView {
    /// This part as a sub session inherits it.
    pub open spec fn carried(self) -> Option<ComponentStateView> {
        match self {
            ComponentStateView::Timers(_) => None,
            ComponentStateView::TaskList(_) => Some(self),
        }
    }
}

impl ComponentState {
    /// This part as a sub session inherits it: the plan carries, and a timer
    /// belongs to the agent that armed it.
    pub fn carried(&self) -> (r: Option<Self>)
        ensures
            r.deep_view() == self.deep_view().carried(),
    {
        match self {
            ComponentState::Timers(_) => None,
            ComponentState::TaskList(list) => match list.carried() {
                Some(list) => Some(ComponentState::TaskList(list)),
                None => None,
            },
        }
    }
}

/// What an event does to an agent besides being recorded: each is folded by
/// exactly one component.
pub open spec fn folded(state: AgentStateView, event: AgentDomainEventView) -> AgentStateView {
    match event {
        AgentDomainEventView::SeedSummaryTaken { .. } => crate::components::seed::summary_fold(state, event),
        AgentDomainEventView::InputMessage { .. } => crate::components::queue::queue_fold(state, event),
        AgentDomainEventView::Received { .. } => crate::components::queue::queue_fold(state, event),
        AgentDomainEventView::Consumed { .. } => crate::components::queue::queue_fold(state, event),
        AgentDomainEventView::TurnBegan { .. } => crate::components::queue::queue_fold(state, event),
        AgentDomainEventView::AskRecorded { .. } => crate::components::queue::queue_fold(state, event),
        AgentDomainEventView::MessageComplete { .. } => crate::components::turn::turn_fold(state, event),
        AgentDomainEventView::MessageAborted { .. } => crate::components::turn::turn_fold(state, event),
        AgentDomainEventView::ToolComplete { .. } => crate::components::turn::turn_fold(state, event),
        AgentDomainEventView::HookRan { .. } => crate::components::log::log_fold(state, event),
        AgentDomainEventView::LifecycleRecorded { .. } => crate::components::log::log_fold(state, event),
        AgentDomainEventView::Compacted { .. } => crate::components::compaction::compaction_fold(state, event),
        AgentDomainEventView::TimerArmed { .. } => crate::components::timers::timers_fold(state, event),
        AgentDomainEventView::TimerCancelled { .. } => crate::components::timers::timers_fold(state, event),
        AgentDomainEventView::TimerFired { .. } => crate::components::timers::timers_fold(state, event),
        AgentDomainEventView::TaskListChanged { .. } => crate::components::task_list::tasks_fold(state, event),
        _ => state,
    }
}

/// An agent once an event has happened to it. Adopting a history replaces
/// everything and is not recorded in what it installs; every other event is
/// folded and recorded.
pub open spec fn applied(state: AgentStateView, event: AgentDomainEventView) -> AgentStateView {
    match event {
        AgentDomainEventView::Seeded { state: adopted, seed } => crate::components::seed::seeded(adopted, seed),
        _ => folded(state, event).recorded(event),
    }
}

/// An agent once these events have happened to it, in order.
pub open spec fn applied_all(
    state: AgentStateView,
    events: Seq<AgentDomainEventView>,
) -> AgentStateView
    decreases events.len(),
{
    if events.len() == 0 {
        state
    } else {
        applied(applied_all(state, events.drop_last()), events.last())
    }
}

/// The one state-transition function: live handling and replay both go through
/// here, so they cannot disagree.
#[derive(Debug, PartialEq, Eq)]
pub struct AgentLoop;

impl AgentLoop {
    /// Route an event to the component that owns it, and record it.
    pub fn apply(state: AgentState, event: AgentDomainEvent) -> (r: AgentState)
        ensures
            r.deep_view() == applied(state.deep_view(), event.deep_view()),
    {
        let mut state = state;
        match event {
            AgentDomainEvent::Seeded { state: adopted, seed } => {
                return Seeding::adopt(adopted, seed);
            },
            _ => {},
        }
        match &event {
            AgentDomainEvent::SeedSummaryTaken { .. } => {
                Seeding::apply(&mut state, &event);
            },
            AgentDomainEvent::InputMessage { .. } | AgentDomainEvent::Received { .. }
            | AgentDomainEvent::Consumed { .. } | AgentDomainEvent::TurnBegan { .. }
            | AgentDomainEvent::AskRecorded { .. } => {
                Queue::apply(&mut state, &event);
            },
            AgentDomainEvent::MessageComplete { .. } | AgentDomainEvent::MessageAborted { .. }
            | AgentDomainEvent::ToolComplete { .. } => {
                Turn::apply(&mut state, &event);
            },
            AgentDomainEvent::HookRan { .. } | AgentDomainEvent::LifecycleRecorded { .. } => {
                LogWrites::apply(&mut state, &event);
            },
            AgentDomainEvent::Compacted { .. } => {
                Compaction::apply(&mut state, &event);
            },
            AgentDomainEvent::TimerArmed { .. } | AgentDomainEvent::TimerCancelled { .. }
            | AgentDomainEvent::TimerFired { .. } => {
                Timers::apply(&mut state, &event);
            },
            AgentDomainEvent::TaskListChanged { .. } => {
                TaskLists::apply(&mut state, &event);
            },
            _ => {},
        }
        state.record_history(event);
        state
    }

    /// Fold several events forward, in order.
    pub fn apply_all(state: AgentState, events: Vec<AgentDomainEvent>) -> (r: AgentState)
        ensures
            r.deep_view() == applied_all(state.deep_view(), events.deep_view()),
    {
        let ghost first = state.deep_view();
        let ghost all = events.deep_view();
        let mut state = state;
        proof {
            assert(all.take(0) =~= seq![]);
        }
        for event in iter: events
            invariant
                iter.seq() == events@,
                all == events.deep_view(),
                state.deep_view() == applied_all(first, all.take(iter.index() as int)),
        {
            proof {
                let i = iter.index() as int;
                assert(all.take(i + 1).drop_last() =~= all.take(i));
                assert(event.deep_view() == all[i]);
            }
            state = AgentLoop::apply(state, event);
        }
        proof {
            assert(all.take(events.len() as int) =~= all);
        }
        state
    }
}

/// One event is folded as itself.
pub proof fn lemma_one_event(state: AgentStateView, events: Seq<AgentDomainEventView>)
    requires
        events.len() == 1,
    ensures
        applied_all(state, events) == applied(state, events[0]),
{
    assert(events.drop_last() =~= seq![]);
    assert(applied_all(state, events.drop_last()) == state);
}

/// Two events are folded one after the other.
pub proof fn lemma_two_events(state: AgentStateView, events: Seq<AgentDomainEventView>)
    requires
        events.len() == 2,
    ensures
        applied_all(state, events) == applied(applied(state, events[0]), events[1]),
{
    lemma_one_event(state, events.drop_last());
}

/// Folding a journal in two stretches is folding it in one: a recovery that
/// replays it and a live run that grows it end in the same state.
pub proof fn law_replay_agrees_with_live_handling(
    state: AgentStateView,
    before: Seq<AgentDomainEventView>,
    after: Seq<AgentDomainEventView>,
)
    ensures
        applied_all(state, before + after) == applied_all(applied_all(state, before), after),
    decreases after.len(),
{
    if after.len() == 0 {
        assert(before + after =~= before);
    } else {
        assert((before + after).drop_last() =~= before + after.drop_last());
        law_replay_agrees_with_live_handling(state, before, after.drop_last());
    }
}

/// Every event but the adoption of a history is recorded at the end of the
/// history, and what was recorded before stays.
pub proof fn law_every_event_is_recorded(state: AgentStateView, event: AgentDomainEventView)
    requires
        !(event is Seeded),
    ensures
        applied(state, event).history == state.history.push(
            AgentHistoryEntryView { seq: state.history.len() as u64, record: event },
        ),
{
}

/// No state holds the adoption of another history among its records, so
/// adopting one copies no history twice.
pub proof fn law_an_adoption_is_never_recorded(state: AgentStateView, event: AgentDomainEventView)
    requires
        no_adoption(state.history),
        event matches AgentDomainEventView::Seeded { state: adopted, .. } ==> no_adoption(
            adopted.history,
        ),
    ensures
        no_adoption(applied(state, event).history),
{
    if !(event is Seeded) {
        law_every_event_is_recorded(state, event);
    }
}

/// Whether no entry is the adoption of another history.
pub open spec fn no_adoption(history: Seq<AgentHistoryEntryView>) -> bool {
    forall|i: int| 0 <= i < history.len() ==> !((#[trigger] history[i]).record is Seeded)
}

/// A numbered history stays numbered, so a marker names one step.
pub proof fn law_histories_stay_numbered(state: AgentStateView, event: AgentDomainEventView)
    requires
        state.numbered(),
        state.history.len() <= u64::MAX,
        event matches AgentDomainEventView::Seeded { state: adopted, .. } ==> adopted.numbered(),
    ensures
        applied(state, event).numbered(),
{
    if !(event is Seeded) {
        law_every_event_is_recorded(state, event);
    }
}

} // verus!
