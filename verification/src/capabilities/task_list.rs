//! `task_list`: the plan an agent keeps for itself.
//!
//! A call answers at once and never parks. What it records is the whole list as
//! it now stands, so a replay never has to decide again what was accepted.

use crate::capabilities::claims::{self, Claim, ClaimView, ClaimedTool, ClaimedToolView};
use crate::capabilities::state::{CapabilityEventView, CapabilityStateView};
use crate::json::{Json, JsonView};
use crate::task_list::{self, TaskListAction, TaskListState, TaskView};
use crate::text::Dup;
use vstd::prelude::*;

verus! {

/// The tool this capability answers for.
pub const TASK_LIST_TOOL: &'static str = "task_list";

/// What `task_list` takes.
pub const TASK_LIST_SCHEMA: &'static str = "{\"properties\":{\"action\":{\"enum\":[\"create\",\"insert\",\"update_status\",\"list\"],\"type\":\"string\"},\"after\":{\"type\":\"integer\"},\"ids\":{\"items\":{\"type\":\"integer\"},\"type\":\"array\"},\"status\":{\"type\":\"string\"},\"tasks\":{\"items\":{\"type\":\"string\"},\"type\":\"array\"}},\"required\":[\"action\"],\"type\":\"object\"}";

/// What the model is told `task_list` does.
pub const TASK_LIST_DESCRIPTION: &'static str = "Keep a task list for yourself: `create` one, `insert` tasks into it, `update_status` of tasks by id, or `list` it.";

/// The permission to keep a list.
#[derive(Debug, Clone, Copy, PartialEq, Eq, Structural)]
pub struct TaskListCapability;

impl DeepView for TaskListCapability {
    type V = TaskListCapability;

    open spec fn deep_view(&self) -> TaskListCapability {
        *self
    }
}

impl Dup for TaskListCapability {
    fn dup(&self) -> (out: Self) {
        *self
    }
}

/// What a call to `task_list` came to.
#[derive(Debug, PartialEq, Eq)]
pub enum Changed {
    /// The model gets a tool error. Journals nothing: nothing was changed.
    Refused(String),
    /// The list, whole, as it now stands, and what the model reads back.
    Changed { snapshot: TaskListState, told: String },
}

/// What a [`Changed`] stands for.
#[verifier::ext_equal]
pub enum ChangedView {
    Refused(Seq<char>),
    Changed { snapshot: Seq<TaskView>, told: Seq<char> },
}

impl DeepView for Changed {
    type V = ChangedView;

    open spec fn deep_view(&self) -> ChangedView {
        match self {
            Changed::Refused(a) => ChangedView::Refused(a.deep_view()),
            Changed::Changed { snapshot, told } => ChangedView::Changed {
                snapshot: snapshot.deep_view(),
                told: told.deep_view(),
            },
        }
    }
}

impl Dup for Changed {
    fn dup(&self) -> (out: Self) {
        match self {
            Changed::Refused(a) => Changed::Refused(a.dup()),
            Changed::Changed { snapshot, told } => Changed::Changed {
                snapshot: snapshot.dup(),
                told: told.dup(),
            },
        }
    }
}

impl Clone for Changed {
    fn clone(&self) -> (out: Self)
        ensures
            out.deep_view() == self.deep_view(),
    {
        self.dup()
    }
}

/// What a call to `task_list` comes to.
pub open spec fn change(tasks: Seq<TaskView>, input: JsonView) -> ChangedView {
    match task_list::action_of(input) {
        Err(reason) => ChangedView::Refused(reason),
        Ok(action) => match task_list::list_after(tasks, action) {
            Err(reason) => ChangedView::Refused(reason),
            Ok(next) => ChangedView::Changed { snapshot: next, told: task_list::rendered(next) },
        },
    }
}

/// What an agent would lose of its list to a compaction.
pub open spec fn list_carried(tasks: Seq<TaskView>) -> Option<Seq<char>> {
    if tasks.len() == 0 {
        None
    } else {
        Some(task_list::rendered(tasks))
    }
}

/// The tools this capability claims.
pub open spec fn task_list_claims() -> Seq<ClaimedToolView> {
    seq![
        claims::tool_claimed(
            TASK_LIST_TOOL@,
            TASK_LIST_DESCRIPTION@,
            TASK_LIST_SCHEMA@,
            ClaimView::TaskListChange,
        ),
    ]
}

impl TaskListCapability {
    pub fn new() -> (r: Self)
        ensures
            r == TaskListCapability,
    {
        TaskListCapability
    }

    /// What a diagnostic names this capability by.
    pub fn name(&self) -> (r: &'static str)
        ensures
            r@ == "task_list"@,
    {
        "task_list"
    }

    /// What a compaction must not lose: the list as the tool renders it, ids and
    /// all. An empty list carries nothing.
    pub fn carried_state(list: &TaskListState) -> (r: Option<String>)
        ensures
            r.deep_view() == list_carried(list.deep_view()),
    {
        let tasks = list.tasks();
        proof {
            assert(tasks.deep_view().len() == tasks.len());
        }
        if tasks.len() == 0 {
            None
        } else {
            Some(list.render())
        }
    }

    /// The model called `task_list`. A call that cannot be read is this
    /// capability's to answer too.
    pub fn changed(list: &TaskListState, input: &Json) -> (r: Changed)
        ensures
            r.deep_view() == change(list.deep_view(), input.deep_view()),
    {
        let action = match TaskListAction::from_input(input) {
            Ok(action) => action,
            Err(reason) => {
                return Changed::Refused(reason);
            },
        };
        let mut next = list.dup();
        match next.apply(action) {
            Ok(()) => {
                let told = next.render();
                Changed::Changed { snapshot: next, told }
            },
            Err(reason) => Changed::Refused(reason),
        }
    }

    /// The tools this capability claims.
    pub fn claims(&self) -> (r: Vec<ClaimedTool>)
        ensures
            r.deep_view() == task_list_claims(),
    {
        let mut out: Vec<ClaimedTool> = Vec::new();
        out.push(
            ClaimedTool::new(
                TASK_LIST_TOOL,
                TASK_LIST_DESCRIPTION.to_owned(),
                TASK_LIST_SCHEMA,
                Claim::TaskListChange,
            ),
        );
        proof {
            assert(out.deep_view() =~= task_list_claims());
        }
        out
    }
}

impl Default for TaskListCapability {
    fn default() -> (r: Self)
        ensures
            r == TaskListCapability,
    {
        TaskListCapability
    }
}

/// What the model read back is what the folded list carries.
pub proof fn law_what_was_told_is_what_is_carried(
    state: CapabilityStateView,
    input: JsonView,
)
    requires
        change(state.task_list, input) is Changed,
        change(state.task_list, input)->snapshot.len() > 0,
    ensures
        ({
            let done = change(state.task_list, input);
            let after = state.after(
                CapabilityEventView::TaskListChanged { snapshot: done->snapshot },
            );
            list_carried(after.task_list) == Some(done->told)
        }),
{
}

/// A change is answered with the list as it then stands; one that cannot be
/// read or cannot be made is refused for its reason. A list with no task is
/// not carried.
pub proof fn law_a_changed_list_is_told_as_it_stands(tasks: Seq<TaskView>, input: JsonView)
    ensures
        change(tasks, input) matches ChangedView::Changed { snapshot, told } ==> told == task_list::rendered(
            snapshot,
        ) && (task_list::action_of(input) matches Ok(action) && task_list::list_after(tasks, action) == Ok::<
            Seq<TaskView>,
            Seq<char>,
        >(snapshot)),
        task_list::action_of(input) matches Err(reason) ==> change(tasks, input) == ChangedView::Refused(
            reason,
        ),
        (task_list::action_of(input) matches Ok(action) && task_list::list_after(tasks, action) is Ok) ==> change(
            tasks,
            input,
        ) is Changed,
        tasks.len() == 0 ==> list_carried(tasks) is None,
        tasks.len() > 0 ==> list_carried(tasks) == Some(task_list::rendered(tasks)),
{
}

} // verus!
