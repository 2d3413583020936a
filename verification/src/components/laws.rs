//! What each event does to an agent: what it appends to the transcript, what
//! it queues or takes, and all that it leaves alone.

use crate::components::{self, ComponentStateView};
use crate::components::queue;
use crate::components::queue::inbox::IncomingView;
use crate::components::timers::Timers;
use crate::components::usage::UsageStateView;
use crate::context::AskedQuestionView;
use crate::events::{AgentDomainEventView, AgentHistoryEntryView};
use crate::ids::SessionId;
use crate::model::{
    ArtifactRefView, CompactionTrigger, ContentPartView, HookRecordView, LifecycleEventView,
    MessageView, Role, ToolResultInputView, UsageView,
};
use crate::state::{self, AgentLogBodyView, AgentLogEntryView, AgentStateView};
use crate::task_list::TaskView;
use crate::timers::{self, TimerRecordView};
use vstd::prelude::*;

verus! {

/// Whether an event left everything but the transcript and the bill alone.
pub open spec fn same_but_told(a: AgentStateView, b: AgentStateView) -> bool {
    &&& b.inbox == a.inbox
    &&& b.asks == a.asks
    &&& b.parts == a.parts
}

/// A message that is put in or was cut short is appended to the transcript, as
/// it is and at the time it was made, and costs nothing.
pub proof fn law_a_message_is_appended(state: AgentStateView, message: MessageView)
    ensures
        ({
            let entry = AgentLogEntryView {
                seq: state.log.len() as u64,
                at_ms: message.created_at_ms,
                body: AgentLogBodyView::Llm(message),
            };
            let put = components::applied(state, AgentDomainEventView::InputMessage { message });
            let cut = components::applied(state, AgentDomainEventView::MessageAborted { message });
            &&& put.log == state.log.push(entry) && put.usage == state.usage && same_but_told(
                state,
                put,
            )
            &&& cut.log == state.log.push(entry) && cut.usage == state.usage && same_but_told(
                state,
                cut,
            )
        }),
{
}

/// A message the model finished is appended as it is, and its cost is added to
/// the bill and kept as the last one; what the model read is the size of the
/// context.
pub proof fn law_a_finished_message_is_billed(
    state: AgentStateView,
    message: MessageView,
    usage: UsageView,
)
    ensures
        ({
            let after = components::applied(state, AgentDomainEventView::MessageComplete { message, usage });
            let total = state.usage.total;
            &&& after.log == state.log.push(
                AgentLogEntryView {
                    seq: state.log.len() as u64,
                    at_ms: message.created_at_ms,
                    body: AgentLogBodyView::Llm(message),
                },
            )
            &&& same_but_told(state, after)
            &&& after.usage.last_turn == Some(usage)
            &&& after.usage.context_tokens == usage.input_tokens
            &&& total.input_tokens + usage.input_tokens <= u64::MAX
                ==> after.usage.total.input_tokens == total.input_tokens + usage.input_tokens
            &&& total.input_tokens + usage.input_tokens > u64::MAX
                ==> after.usage.total.input_tokens == u64::MAX
            &&& total.output_tokens + usage.output_tokens <= u64::MAX
                ==> after.usage.total.output_tokens == total.output_tokens + usage.output_tokens
            &&& total.output_tokens + usage.output_tokens > u64::MAX
                ==> after.usage.total.output_tokens == u64::MAX
        }),
{
}

/// A tool's result is appended as a tool's message under the id of its call,
/// which is open no more.
pub proof fn law_a_tool_result_answers_its_call(
    state: AgentStateView,
    tool_call_id: Seq<char>,
    output: Seq<char>,
    is_error: bool,
    artifacts: Seq<ArtifactRefView>,
    at_ms: u64,
)
    ensures
        ({
            let after = components::applied(
                state,
                AgentDomainEventView::ToolComplete {
                    tool_call_id,
                    output,
                    is_error,
                    artifacts,
                    at_ms,
                },
            );
            &&& after.log == state.log.push(
                AgentLogEntryView {
                    seq: state.log.len() as u64,
                    at_ms,
                    body: AgentLogBodyView::Llm(
                        MessageView {
                            id: tool_call_id,
                            role: Role::Tool,
                            parts: seq![
                                ContentPartView::ToolResult(
                                    ToolResultInputView {
                                        tool_call_id,
                                        output,
                                        is_error,
                                        artifacts,
                                    },
                                ),
                            ],
                            created_at_ms: at_ms,
                        },
                    ),
                },
            )
            &&& after.usage == state.usage
            &&& same_but_told(state, after)
            &&& !after.call_is_open(tool_call_id)
        }),
{
    let after = components::applied(
        state,
        AgentDomainEventView::ToolComplete { tool_call_id, output, is_error, artifacts, at_ms },
    );
    let message = MessageView::tool_result(tool_call_id, output, is_error, artifacts, at_ms);
    assert(message.parts[0] matches ContentPartView::ToolResult(result) && result.tool_call_id
        == tool_call_id);
    assert(state::answers_call(message, tool_call_id));
    assert(after.log[state.log.len() as int].body == AgentLogBodyView::Llm(message));
}

/// A call the model makes is open until a result answers it: it stays open
/// through any message that is no such result.
pub proof fn law_a_call_is_open_until_answered(
    state: AgentStateView,
    message: MessageView,
    usage: UsageView,
    id: Seq<char>,
    j: int,
)
    requires
        !state::answered_in(state.log, id),
        forall|k: int|
            0 <= k < message.parts.len() ==> !((#[trigger] message.parts[k]) matches
                ContentPartView::ToolResult(result) && result.tool_call_id == id),
    ensures
        ({
            let after = components::applied(state, AgentDomainEventView::MessageComplete { message, usage });
            &&& state.call_is_open(id) ==> after.call_is_open(id)
            &&& 0 <= j < message.parts.len() && (message.parts[j] matches ContentPartView::ToolUse(
                call,
            ) && call.id == id) ==> after.call_is_open(id)
        }),
{
    let after = components::applied(state, AgentDomainEventView::MessageComplete { message, usage });
    let n = state.log.len() as int;
    assert(after.log[n].body == AgentLogBodyView::Llm(message));
    if state::answered_in(after.log, id) {
        let i = choose|i: int|
            0 <= i < after.log.len() && ((#[trigger] after.log[i]).body matches
                AgentLogBodyView::Llm(m) && state::answers_call(m, id));
        if i < n {
            assert(state.log[i] == after.log[i]);
            assert(state::answered_in(state.log, id));
        }
    }
    if state::made_in(state.log, id) {
        let i = choose|i: int|
            0 <= i < state.log.len() && ((#[trigger] state.log[i]).body matches
                AgentLogBodyView::Llm(m) && state::makes_call(m, id));
        assert(after.log[i] == state.log[i]);
        assert(state::made_in(after.log, id));
    }
    if 0 <= j < message.parts.len() && (message.parts[j] matches ContentPartView::ToolUse(call)
        && call.id == id) {
        assert(state::makes_call(message, id));
        assert(state::made_in(after.log, id));
    }
}

/// What is received waits at the end of the queue, as it came. A person's
/// message is also noted in the transcript, by its id and its text; nothing
/// else is.
pub proof fn law_what_is_received_waits(state: AgentStateView, item: IncomingView, at_ms: u64)
    ensures
        ({
            let after = components::applied(state, AgentDomainEventView::Received { item, at_ms });
            &&& after.inbox == state.inbox.push(item)
            &&& after.asks == state.asks
            &&& after.parts == state.parts
            &&& after.usage == state.usage
            &&& item matches IncomingView::User { id, text, .. } ==> after.log == state.log.push(
                AgentLogEntryView {
                    seq: state.log.len() as u64,
                    at_ms,
                    body: AgentLogBodyView::Lifecycle(
                        LifecycleEventView::MessageQueued { id, text },
                    ),
                },
            )
            &&& !(item is User) ==> after.log == state.log
        }),
{
}

/// What a turn took leaves the queue and the rest stays in its order; the park
/// it answers is over. Work that is no turn takes its items and leaves the
/// park.
pub proof fn law_what_was_taken_leaves(
    state: AgentStateView,
    consumed: Seq<Seq<char>>,
    answered: Seq<Seq<char>>,
    at_ms: u64,
)
    ensures
        ({
            let turn = components::applied(
                state,
                AgentDomainEventView::TurnBegan { consumed, answered, at_ms },
            );
            let work = components::applied(state, AgentDomainEventView::Consumed { ids: consumed, at_ms });
            &&& turn.asks.len() == 0
            &&& work.asks == state.asks
            &&& turn.inbox == queue::left_in(state.inbox, consumed)
            &&& work.inbox == queue::left_in(state.inbox, consumed)
            &&& turn.log == state.log && turn.parts == state.parts && turn.usage == state.usage
            &&& work.log == state.log && work.parts == state.parts && work.usage == state.usage
        }),
{
}

/// What is left in a queue is what was not taken, item by item and in order.
pub proof fn law_a_queue_is_left_item_by_item(
    a: Seq<IncomingView>,
    b: Seq<IncomingView>,
    item: IncomingView,
    ids: Seq<Seq<char>>,
)
    ensures
        queue::left_in(a + b, ids) == queue::left_in(a, ids) + queue::left_in(b, ids),
        queue::left_in(seq![item], ids) == (if ids.contains(item.id()) {
            seq![]
        } else {
            seq![item]
        }),
{
    let keep = |i: IncomingView| queue::untaken(ids, i);
    crate::lists::law_a_list_is_filtered_item_by_item(a, b, item, keep);
}

/// Asking parks the agent on exactly the questions asked, in place of any it
/// was parked on.
pub proof fn law_asking_parks_on_what_was_asked(
    state: AgentStateView,
    asks: Seq<AskedQuestionView>,
    at_ms: u64,
)
    ensures
        ({
            let after = components::applied(state, AgentDomainEventView::AskRecorded { asks, at_ms });
            &&& after.asks == asks
            &&& after.inbox == state.inbox
            &&& after.log == state.log
            &&& after.parts == state.parts
            &&& after.usage == state.usage
        }),
{
}

/// A compaction is marked in the transcript with its summary, what it carried
/// and what it retained from; nothing before the mark is touched. Its cost is
/// added to the bill, and is not the cost of a turn.
pub proof fn law_a_compaction_is_marked_and_billed(
    state: AgentStateView,
    summary: Seq<char>,
    carried_state: Seq<char>,
    retained_from_message_id: Option<Seq<char>>,
    trigger: CompactionTrigger,
    instructions: Option<Seq<char>>,
    tokens_before: u32,
    tokens_after: u32,
    usage: Option<UsageView>,
    at_ms: u64,
)
    ensures
        ({
            let after = components::applied(
                state,
                AgentDomainEventView::Compacted {
                    summary,
                    carried_state,
                    retained_from_message_id,
                    trigger,
                    instructions,
                    tokens_before,
                    tokens_after,
                    usage,
                    at_ms,
                },
            );
            &&& after.log == state.log.push(
                AgentLogEntryView {
                    seq: state.log.len() as u64,
                    at_ms,
                    body: AgentLogBodyView::Compacted {
                        summary,
                        carried_state,
                        retained_from_message_id,
                    },
                },
            )
            &&& same_but_told(state, after)
            &&& after.usage.last_turn == state.usage.last_turn
            &&& after.usage.context_tokens == state.usage.context_tokens
            &&& usage is None ==> after.usage == state.usage
            &&& usage matches Some(cost) ==> (state.usage.total.input_tokens + cost.input_tokens
                <= u64::MAX ==> after.usage.total.input_tokens == state.usage.total.input_tokens
                + cost.input_tokens) && (state.usage.total.output_tokens + cost.output_tokens
                <= u64::MAX ==> after.usage.total.output_tokens == state.usage.total.output_tokens
                + cost.output_tokens)
        }),
{
}

/// A hook that ran and a thing that happened are noted in the transcript, at
/// their time, and change nothing else.
pub proof fn law_what_happened_is_noted(
    state: AgentStateView,
    record: HookRecordView,
    seq: u64,
    event: LifecycleEventView,
    at_ms: u64,
)
    ensures
        ({
            let hook = components::applied(state, AgentDomainEventView::HookRan { record, seq, at_ms });
            let happened = components::applied(
                state,
                AgentDomainEventView::LifecycleRecorded { event, at_ms },
            );
            let place = state.log.len() as u64;
            &&& hook.log == state.log.push(
                AgentLogEntryView { seq: place, at_ms, body: AgentLogBodyView::Hook(record) },
            )
            &&& happened.log == state.log.push(
                AgentLogEntryView { seq: place, at_ms, body: AgentLogBodyView::Lifecycle(event) },
            )
            &&& hook.usage == state.usage && same_but_told(state, hook)
            &&& happened.usage == state.usage && same_but_told(state, happened)
        }),
{
}

/// A summary for a sub session is billed and changes nothing else.
pub proof fn law_a_seed_summary_is_only_billed(
    state: AgentStateView,
    request_id: Seq<char>,
    sub_sessions: Seq<SessionId>,
    result: Result<Seq<char>, Seq<char>>,
    usage: Option<UsageView>,
    at_ms: u64,
)
    ensures
        ({
            let after = components::applied(
                state,
                AgentDomainEventView::SeedSummaryTaken {
                    request_id,
                    sub_sessions,
                    result,
                    usage,
                    at_ms,
                },
            );
            &&& after.log == state.log
            &&& same_but_told(state, after)
            &&& after.usage.last_turn == state.usage.last_turn
            &&& after.usage.context_tokens == state.usage.context_tokens
            &&& usage is None ==> after.usage == state.usage
            &&& usage matches Some(cost) ==> (state.usage.total.input_tokens + cost.input_tokens
                <= u64::MAX ==> after.usage.total.input_tokens == state.usage.total.input_tokens
                + cost.input_tokens) && (state.usage.total.output_tokens + cost.output_tokens
                <= u64::MAX ==> after.usage.total.output_tokens == state.usage.total.output_tokens
                + cost.output_tokens)
        }),
{
}

/// What timers and task lists record changes those alone: an armed timer is
/// added at the end, a cancelled one goes, and a changed list is the list.
pub proof fn law_timers_and_tasks_are_kept_apart(
    state: AgentStateView,
    record: TimerRecordView,
    ids: Seq<Seq<char>>,
    snapshot: Seq<TaskView>,
    at_ms: u64,
)
    ensures
        ({
            let armed = components::applied(state, AgentDomainEventView::TimerArmed { record, at_ms });
            let cancelled = components::applied(state, AgentDomainEventView::TimerCancelled { ids, at_ms });
            let listed = components::applied(state, AgentDomainEventView::TaskListChanged { snapshot, at_ms });
            &&& armed.timers() == state.timers().push(record) && armed.tasks() == state.tasks()
            &&& forall|t: TimerRecordView| #[trigger]
                cancelled.timers().contains(t) <==> state.timers().contains(t) && !ids.contains(
                    t.id,
                )
            &&& cancelled.tasks() == state.tasks()
            &&& listed.tasks() == snapshot && listed.timers() == state.timers()
            &&& armed.log == state.log && armed.inbox == state.inbox && armed.asks == state.asks
                && armed.usage == state.usage
            &&& cancelled.log == state.log && cancelled.inbox == state.inbox && cancelled.asks
                == state.asks && cancelled.usage == state.usage
            &&& listed.log == state.log && listed.inbox == state.inbox && listed.asks == state.asks
                && listed.usage == state.usage
        }),
{
    components::law_a_part_reads_back_what_was_kept(state.parts, state.timers().push(record), snapshot);
    components::law_a_part_reads_back_what_was_kept(state.parts, timers::without(state.timers(), ids), snapshot);
    crate::timers::law_cancelled_timers_are_gone(state.timers(), ids);
}

/// The markers of steps and runs are kept in the history and change nothing
/// else.
pub proof fn law_a_marker_is_only_recorded(state: AgentStateView, event: AgentDomainEventView)
    requires
        match event {
            AgentDomainEventView::SystemPromptRecorded { .. } => true,
            AgentDomainEventView::AgentInitialized => true,
            AgentDomainEventView::ConnectionCompleted => true,
            AgentDomainEventView::StepStarted { .. } => true,
            AgentDomainEventView::StepFailed { .. } => true,
            AgentDomainEventView::StopHookCompleted { .. } => true,
            AgentDomainEventView::RunEnded { .. } => true,
            AgentDomainEventView::RunComplete { .. } => true,
            AgentDomainEventView::RunAborted { .. } => true,
            AgentDomainEventView::RunCancelled { .. } => true,
            AgentDomainEventView::Parked { .. } => true,
            AgentDomainEventView::Nudged { .. } => true,
            _ => false,
        },
    ensures
        components::applied(state, event) == (AgentStateView {
            history: state.history.push(
                AgentHistoryEntryView { seq: state.history.len() as u64, record: event },
            ),
            ..state
        }),
{
}

/// An agent that is seeded is the one it adopts, with the seed's message at
/// the end of its transcript when there is one; what it was before is gone.
pub proof fn law_an_adoption_replaces_the_agent(
    state: AgentStateView,
    adopted: AgentStateView,
    message: MessageView,
)
    ensures
        components::applied(state, AgentDomainEventView::Seeded { state: adopted, seed: None }) == adopted,
        components::applied(state, AgentDomainEventView::Seeded { state: adopted, seed: Some(message) })
            == (AgentStateView {
            log: adopted.log.push(
                AgentLogEntryView {
                    seq: adopted.log.len() as u64,
                    at_ms: message.created_at_ms,
                    body: AgentLogBodyView::Llm(message),
                },
            ),
            ..adopted
        }),
{
}

/// A step that was started stays the open one until an event closes it. The
/// closing ones are the ends of its work and of the run; no other event closes
/// a step.
pub proof fn law_a_step_stays_open_until_it_is_closed(
    state: AgentStateView,
    event: AgentDomainEventView,
)
    requires
        !(event is Seeded),
        state.history.len() <= u64::MAX,
    ensures
        event matches AgentDomainEventView::StepStarted { kind } ==> components::applied(
            state,
            event,
        ).open_step() == Some((state.history.len() as u64, kind)),
        event is AgentInitialized || event is ConnectionCompleted || event is StepFailed || event
            is StopHookCompleted || event is Compacted || event is SeedSummaryTaken || event
            is RunComplete || event is RunAborted || event is RunCancelled || event is RunEnded
            ==> components::applied(state, event).open_step() is None,
        !(event is StepStarted || event is AgentInitialized || event is ConnectionCompleted || event
            is StepFailed || event is StopHookCompleted || event is Compacted || event
            is SeedSummaryTaken || event is RunComplete || event is RunAborted || event
            is RunCancelled || event is RunEnded) ==> components::applied(state, event).open_step()
            == state.open_step(),
{
    components::law_every_event_is_recorded(state, event);
    assert(components::applied(state, event).history.drop_last() =~= state.history);
}

/// A nudge is counted until the run ends; nothing else changes the count.
pub proof fn law_a_nudge_is_counted_until_the_run_ends(
    state: AgentStateView,
    event: AgentDomainEventView,
)
    requires
        !(event is Seeded),
    ensures
        event is Nudged ==> components::applied(state, event).nudges() == state.nudges() + 1,
        event is RunEnded ==> components::applied(state, event).nudges() == 0,
        !(event is Nudged) && !(event is RunEnded) ==> components::applied(state, event).nudges()
            == state.nudges(),
{
    components::law_every_event_is_recorded(state, event);
    assert(components::applied(state, event).history.drop_last() =~= state.history);
}

/// The prompt an agent runs under is the one recorded last.
pub proof fn law_the_prompt_recorded_last_is_the_prompt(
    state: AgentStateView,
    event: AgentDomainEventView,
)
    requires
        !(event is Seeded),
    ensures
        event matches AgentDomainEventView::SystemPromptRecorded { content, .. } ==> components::applied(
            state,
            event,
        ).system_prompt() == content,
        !(event is SystemPromptRecorded) ==> components::applied(state, event).system_prompt()
            == state.system_prompt(),
        AgentStateView::empty().system_prompt().len() == 0,
{
    components::law_every_event_is_recorded(state, event);
    crate::lists::law_a_search_takes_the_nearest(
        state.history,
        AgentHistoryEntryView { seq: state.history.len() as u64, record: event },
        |e: AgentHistoryEntryView| state::recorded_prompt(e),
    );
}

/// An agent that nothing has happened to has nothing: no step, no queue, no
/// park, no timers, no tasks and no bill.
pub proof fn law_a_new_agent_has_nothing()
    ensures
        ({
            let state = AgentStateView::empty();
            &&& state.history.len() == 0 && state.log.len() == 0
            &&& state.inbox.len() == 0 && state.asks.len() == 0
            &&& state.timers().len() == 0 && state.tasks().len() == 0
            &&& state.open_step() is None
            &&& state.nudges() == 0
            &&& state.usage.total.input_tokens == 0 && state.usage.total.output_tokens == 0
            &&& state.usage.last_turn is None && state.usage.context_tokens == 0
        }),
{
    let parts = AgentStateView::empty().parts;
    assert(parts[0] is Timers);
    assert(parts[1] is TaskList && parts.drop_first()[0] is TaskList);
    reveal_with_fuel(components::tasks_place, 3);
    assert(components::timers_place(parts) == 0);
    assert(components::tasks_place(parts) == 1);
}

/// What a sub session takes over of an agent's parts is its task list and not
/// its timers; of its bill it takes nothing but the size of the context.
pub proof fn law_a_sub_session_carries_tasks_and_no_timers(
    timers: Seq<TimerRecordView>,
    tasks: Seq<TaskView>,
    bill: UsageStateView,
)
    ensures
        ComponentStateView::Timers(timers).carried() is None,
        ComponentStateView::TaskList(tasks).carried() == Some(ComponentStateView::TaskList(tasks)),
        bill.carried().total.input_tokens == 0,
        bill.carried().total.output_tokens == 0,
        bill.carried().last_turn is None,
        bill.carried().context_tokens == bill.context_tokens,
{
}

/// Events are applied one after another, in order.
pub proof fn law_events_are_applied_in_order(
    state: AgentStateView,
    events: Seq<AgentDomainEventView>,
    event: AgentDomainEventView,
)
    ensures
        components::applied_all(state, Seq::empty()) == state,
        components::applied_all(state, events.push(event)) == components::applied(components::applied_all(state, events), event),
{
    assert(events.push(event).drop_last() =~= events);
}

} // verus!
