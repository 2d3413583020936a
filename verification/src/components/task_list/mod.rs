//! The agent's own task list, as a component.
//!
//! The event carries the whole resulting list rather than a delta, which is
//! what lets a replay skip re-deriving every past mutation.

use crate::commands::TaskListCommand;
use crate::component::{self, Executed, ExecutedView, RoutedToolCall, ToolAnswer, answer_tool_call};
use crate::components::{self, keep_tasks};
use crate::events::{AgentDomainEvent, AgentDomainEventView};
use crate::json::{Json, JsonView};
use crate::model::{ToolCallError, ToolCallErrorView};
use crate::state::{AgentState, AgentStateView};
use crate::task_list::{self, TaskListAction, TaskListState, TaskView};
use crate::text::Dup;
use vstd::prelude::*;

verus! {

/// The agent's plan, as the model last left it.
#[derive(Debug, PartialEq, Eq)]
pub struct TaskListPart(TaskListState);

impl DeepView for TaskListPart {
    type V = Seq<TaskView>;

    closed spec fn deep_view(&self) -> Seq<TaskView> {
        self.0.deep_view()
    }
}

impl Dup for TaskListPart {
    fn dup(&self) -> (out: Self) {
        TaskListPart(self.0.dup())
    }
}

impl Clone for TaskListPart {
    fn clone(&self) -> (out: Self)
        ensures
            out.deep_view() == self.deep_view(),
    {
        self.dup()
    }
}

impl TaskListPart {
    /// An empty plan.
    pub fn new() -> (r: Self)
        ensures
            r.deep_view() == Seq::<TaskView>::empty(),
    {
        TaskListPart(TaskListState::new())
    }

    /// This plan.
    pub fn of(list: TaskListState) -> (r: Self)
        ensures
            r.deep_view() == list.deep_view(),
    {
        TaskListPart(list)
    }

    /// The list itself.
    pub fn list(&self) -> (r: &TaskListState)
        ensures
            r.deep_view() == self.deep_view(),
    {
        &self.0
    }

    /// The plan carries. A sub session branched to continue this work inherits
    /// what the work is.
    pub fn carried(&self) -> (r: Option<Self>)
        ensures
            r matches Some(list) && list.deep_view() == self.deep_view(),
    {
        Some(self.dup())
    }
}

/// What a call to the `task_list` tool comes to.
pub open spec fn task_list_tool(tasks: Seq<TaskView>, input: JsonView, now: u64) -> ExecutedView {
    match task_list::action_of(input) {
        Err(reason) => Err(ToolCallErrorView::InvalidInput(reason)),
        Ok(action) => match task_list::list_after(tasks, action) {
            Err(reason) => Err(ToolCallErrorView::InvalidInput(reason)),
            Ok(next) => Ok(
                (
                    JsonView::String(task_list::rendered(next)),
                    seq![AgentDomainEventView::TaskListChanged { snapshot: next, at_ms: now }],
                ),
            ),
        },
    }
}

/// What the task list's own event does to an agent.
pub open spec fn tasks_fold(state: AgentStateView, event: AgentDomainEventView) -> AgentStateView {
    match event {
        AgentDomainEventView::TaskListChanged { snapshot, .. } => AgentStateView {
            parts: components::with_tasks(state.parts, snapshot),
            ..state
        },
        _ => state,
    }
}

/// Execute the `task_list` tool: the rendered list it answers and the event
/// that records the mutation.
pub fn execute_task_list_tool(state: &AgentState, input: &Json, now: u64) -> (r: Executed)
    ensures
        component::executed_view(r) == task_list_tool(state.deep_view().tasks(), input.deep_view(), now),
{
    let action = match TaskListAction::from_input(input) {
        Ok(action) => action,
        Err(reason) => {
            return Err(ToolCallError::InvalidInput(reason));
        },
    };
    let mut next = state.task_list();
    match next.apply(action) {
        Ok(()) => {
            let value = Json::String(next.render());
            let event = AgentDomainEvent::TaskListChanged { snapshot: next, at_ms: now };
            let mut events: Vec<AgentDomainEvent> = Vec::new();
            events.push(event);
            proof {
                assert(events.deep_view() =~= seq![event.deep_view()]);
            }
            Ok((value, events))
        },
        Err(reason) => Err(ToolCallError::InvalidInput(reason)),
    }
}

/// The agent's own task list.
#[derive(Debug, PartialEq, Eq)]
pub struct TaskLists;

impl TaskLists {
    /// Decide what a task-list command means.
    pub fn handle(cmd: &TaskListCommand, state: &AgentState, now: u64) -> (r: ToolAnswer)
        ensures
            match *cmd {
                TaskListCommand::ToolCall(call) => r.deep_view() == component::answered(
                    component::owed(state.deep_view(), call.tool_call_id@),
                    task_list_tool(state.deep_view().tasks(), call.input.deep_view(), now),
                ),
            },
    {
        match cmd {
            TaskListCommand::ToolCall(call) => TaskLists::tool_call(state, call, now),
        }
    }

    /// Answer a call to the `task_list` tool.
    pub fn tool_call(state: &AgentState, call: &RoutedToolCall, now: u64) -> (r: ToolAnswer)
        ensures
            r.deep_view() == component::answered(
                component::owed(state.deep_view(), call.tool_call_id@),
                task_list_tool(state.deep_view().tasks(), call.input.deep_view(), now),
            ),
    {
        let executed = execute_task_list_tool(state, &call.input, now);
        answer_tool_call(state, call.tool_call_id.as_str(), executed)
    }

    /// Fold the task list's event into state.
    pub fn apply(state: &mut AgentState, event: &AgentDomainEvent)
        ensures
            final(state).deep_view() == tasks_fold(old(state).deep_view(), event.deep_view()),
    {
        let ghost after = tasks_fold(state.deep_view(), event.deep_view());
        if let AgentDomainEvent::TaskListChanged { snapshot, .. } = event {
            keep_tasks(&mut state.parts, TaskListPart::of(snapshot.dup()));
            proof {
                assert(state.deep_view() =~= after);
            }
        }
    }
}

/// What the model was told of its list is what the folded list renders as.
pub proof fn law_the_answer_is_the_folded_list(state: AgentStateView, input: JsonView, now: u64)
    requires
        task_list_tool(state.tasks(), input, now) is Ok,
    ensures
        ({
            let (told, events) = task_list_tool(state.tasks(), input, now)->Ok_0;
            told == JsonView::String(task_list::rendered(tasks_fold(state, events[0]).tasks()))
        }),
{
    let (_, events) = task_list_tool(state.tasks(), input, now)->Ok_0;
    crate::components::law_a_part_reads_back_what_was_kept(
        state.parts,
        seq![],
        events[0]->snapshot,
    );
}

/// A call that changes the list answers with the list as it then stands and
/// records that list, at its time; a refused one records nothing.
pub proof fn law_a_change_is_answered_with_the_list(
    tasks: Seq<TaskView>,
    input: JsonView,
    now: u64,
)
    ensures
        task_list_tool(tasks, input, now) matches Ok((told, events)) ==> (task_list::action_of(input) matches
            Ok(action) && task_list::list_after(tasks, action) matches Ok(next) && told == JsonView::String(
            task_list::rendered(next),
        ) && events == seq![
            AgentDomainEventView::TaskListChanged { snapshot: next, at_ms: now },
        ]),
        task_list::action_of(input) matches Err(reason) ==> task_list_tool(tasks, input, now) == Err::<
            (JsonView, Seq<AgentDomainEventView>),
            ToolCallErrorView,
        >(ToolCallErrorView::InvalidInput(reason)),
        task_list::action_of(input) matches Ok(action) ==> (task_list::list_after(tasks, action) is Ok
            <==> task_list_tool(tasks, input, now) is Ok),
{
}

} // verus!
