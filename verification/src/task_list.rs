//! The plan an agent keeps for itself: a list of numbered tasks.
//!
//! A task keeps its number for as long as the list lives, so the number the
//! model read is the number it can call back with.

use crate::json::{self, Json, JsonView, NumberView};
use crate::text::{self, Dup, number, same};
use crate::timers;
use vstd::prelude::*;

verus! {

/// How far a task has got.
#[derive(Debug, Clone, Copy, PartialEq, Eq, Structural)]
pub enum TaskStatus {
    Pending,
    InProgress,
    Completed,
}

impl DeepView for TaskStatus {
    type V = TaskStatus;

    open spec fn deep_view(&self) -> TaskStatus {
        *self
    }
}

impl Dup for TaskStatus {
    fn dup(&self) -> (out: Self) {
        *self
    }
}

/// The status a word names.
pub open spec fn status_named(word: Seq<char>) -> Option<TaskStatus> {
    if word == "pending"@ {
        Some(TaskStatus::Pending)
    } else if word == "in_progress"@ {
        Some(TaskStatus::InProgress)
    } else if word == "completed"@ {
        Some(TaskStatus::Completed)
    } else {
        None
    }
}

impl TaskStatus {
    /// The status a word names.
    pub fn named(word: &str) -> (r: Option<Self>)
        ensures
            r == status_named(word@),
    {
        if same(word, "pending") {
            Some(TaskStatus::Pending)
        } else if same(word, "in_progress") {
            Some(TaskStatus::InProgress)
        } else if same(word, "completed") {
            Some(TaskStatus::Completed)
        } else {
            None
        }
    }
}

/// One task.
#[derive(Debug, PartialEq, Eq)]
pub struct Task {
    pub id: u64,
    pub content: String,
    pub status: TaskStatus,
}

/// What a [`Task`] stands for.
#[verifier::ext_equal]
pub struct TaskView {
    pub id: u64,
    pub content: Seq<char>,
    pub status: TaskStatus,
}

impl DeepView for Task {
    type V = TaskView;

    open spec fn deep_view(&self) -> TaskView {
        TaskView {
            id: self.id.deep_view(),
            content: self.content.deep_view(),
            status: self.status.deep_view(),
        }
    }
}

impl Dup for Task {
    fn dup(&self) -> (out: Self) {
        Task {
            id: self.id.dup(),
            content: self.content.dup(),
            status: self.status.dup(),
        }
    }
}

impl Clone for Task {
    fn clone(&self) -> (out: Self)
        ensures
            out.deep_view() == self.deep_view(),
    {
        self.dup()
    }
}

/// The list, in the order it is worked through.
#[derive(Debug, PartialEq, Eq)]
pub struct TaskListState {
    tasks: Vec<Task>,
}

impl DeepView for TaskListState {
    type V = Seq<TaskView>;

    closed spec fn deep_view(&self) -> Seq<TaskView> {
        self.tasks.deep_view()
    }
}

/// What the model asks of the list.
#[derive(Debug, PartialEq, Eq)]
pub enum TaskListAction {
    /// A new list in place of the old one.
    Create { tasks: Vec<String> },
    /// More tasks: after the one of this id, or at the end.
    Insert { tasks: Vec<String>, after: Option<u64> },
    /// These tasks have got this far.
    UpdateStatus { ids: Vec<u64>, status: TaskStatus },
    /// Read it back.
    List,
}

/// What a [`TaskListAction`] stands for.
#[verifier::ext_equal]
pub enum TaskListActionView {
    Create { tasks: Seq<Seq<char>> },
    Insert { tasks: Seq<Seq<char>>, after: Option<u64> },
    UpdateStatus { ids: Seq<u64>, status: TaskStatus },
    List,
}

impl DeepView for TaskListAction {
    type V = TaskListActionView;

    open spec fn deep_view(&self) -> TaskListActionView {
        match self {
            TaskListAction::Create { tasks } => TaskListActionView::Create {
                tasks: tasks.deep_view(),
            },
            TaskListAction::Insert { tasks, after } => TaskListActionView::Insert {
                tasks: tasks.deep_view(),
                after: after.deep_view(),
            },
            TaskListAction::UpdateStatus { ids, status } => TaskListActionView::UpdateStatus {
                ids: ids.deep_view(),
                status: status.deep_view(),
            },
            TaskListAction::List => TaskListActionView::List,
        }
    }
}

impl Dup for TaskListAction {
    fn dup(&self) -> (out: Self) {
        match self {
            TaskListAction::Create { tasks } => TaskListAction::Create {
                tasks: tasks.dup(),
            },
            TaskListAction::Insert { tasks, after } => TaskListAction::Insert {
                tasks: tasks.dup(),
                after: after.dup(),
            },
            TaskListAction::UpdateStatus { ids, status } => TaskListAction::UpdateStatus {
                ids: ids.dup(),
                status: status.dup(),
            },
            TaskListAction::List => TaskListAction::List,
        }
    }
}

impl Clone for TaskListAction {
    fn clone(&self) -> (out: Self)
        ensures
            out.deep_view() == self.deep_view(),
    {
        self.dup()
    }
}

/// The whole numbers among these values, in order.
pub open spec fn numbers_among(items: Seq<JsonView>) -> Seq<u64>
    decreases items.len(),
{
    if items.len() == 0 {
        seq![]
    } else {
        match items.last().as_u64() {
            Some(n) => numbers_among(items.drop_last()).push(n),
            None => numbers_among(items.drop_last()),
        }
    }
}

/// The whole numbers of an array member, none when there is no such array.
pub open spec fn numbers_in(input: JsonView, name: Seq<char>) -> Seq<u64> {
    match input.get(name) {
        Some(JsonView::Array(items)) => numbers_among(items),
        _ => seq![],
    }
}

/// What a call's arguments ask for, or why they cannot be read.
pub open spec fn action_of(input: JsonView) -> Result<TaskListActionView, Seq<char>> {
    let action = input.str_or_empty("action"@);
    if action == "create"@ {
        Ok(TaskListActionView::Create { tasks: json::strings_in(input, "tasks"@) })
    } else if action == "insert"@ {
        Ok(
            TaskListActionView::Insert {
                tasks: json::strings_in(input, "tasks"@),
                after: input.u64_at("after"@),
            },
        )
    } else if action == "update_status"@ {
        let word = input.str_or_empty("status"@);
        match status_named(word) {
            Some(status) => Ok(
                TaskListActionView::UpdateStatus { ids: numbers_in(input, "ids"@), status },
            ),
            None => Err("unknown status '"@ + word + "'"@),
        }
    } else if action == "list"@ {
        Ok(TaskListActionView::List)
    } else {
        Err("unknown action '"@ + action + "'"@)
    }
}

/// The whole numbers of the array member of this name, in order.
fn numbers_at(input: &Json, name: &str) -> (r: Vec<u64>)
    ensures
        r.deep_view() == numbers_in(input.deep_view(), name@),
{
    let mut out: Vec<u64> = Vec::new();
    if let Some(Json::Array(items)) = input.get(name) {
        let ghost all = Json::Array(*items).deep_view()->Array_0;
        for i in 0..items.len()
            invariant
                all == Json::Array(*items).deep_view()->Array_0,
                out.deep_view() == numbers_among(all.take(i as int)),
        {
            proof {
                assert(all.take(i + 1).drop_last() =~= all.take(i as int));
            }
            let ghost had = out.deep_view();
            if let Some(n) = items[i].as_u64() {
                out.push(n);
                proof {
                    assert(out.deep_view() =~= had.push(n));
                }
            }
        }
        proof {
            assert(all.take(items.len() as int) =~= all);
        }
    } else {
        proof {
            assert(out.deep_view() =~= seq![]);
        }
    }
    out
}

impl TaskListAction {
    /// What a call's arguments ask for, or why they cannot be read.
    pub fn from_input(input: &Json) -> (r: Result<Self, String>)
        ensures
            match r {
                Ok(action) => action_of(input.deep_view()) == Ok::<TaskListActionView, Seq<char>>(
                    action.deep_view(),
                ),
                Err(reason) => action_of(input.deep_view()) == Err::<TaskListActionView, Seq<char>>(
                    reason@,
                ),
            },
    {
        let action = input.str_or_empty("action");
        if same(action.as_str(), "create") {
            Ok(TaskListAction::Create { tasks: input.strings_at("tasks") })
        } else if same(action.as_str(), "insert") {
            Ok(
                TaskListAction::Insert {
                    tasks: input.strings_at("tasks"),
                    after: input.u64_at("after"),
                },
            )
        } else if same(action.as_str(), "update_status") {
            let word = input.str_or_empty("status");
            match TaskStatus::named(word.as_str()) {
                Some(status) => Ok(
                    TaskListAction::UpdateStatus { ids: numbers_at(input, "ids"), status },
                ),
                None => {
                    let mut reason = "unknown status '".to_owned();
                    reason.append(word.as_str());
                    reason.append("'");
                    Err(reason)
                },
            }
        } else if same(action.as_str(), "list") {
            Ok(TaskListAction::List)
        } else {
            let mut reason = "unknown action '".to_owned();
            reason.append(action.as_str());
            reason.append("'");
            Err(reason)
        }
    }
}

/// Pending tasks of these contents, numbered on from `count`.
pub open spec fn new_tasks(contents: Seq<Seq<char>>, count: u64) -> Seq<TaskView> {
    Seq::new(
        contents.len(),
        |i: int|
            TaskView {
                id: timers::capped_sum(count, i + 1),
                content: contents[i],
                status: TaskStatus::Pending,
            },
    )
}

/// Where the task of this number stands, or the length when there is none.
pub open spec fn place_of(tasks: Seq<TaskView>, id: u64) -> int
    decreases tasks.len(),
{
    if tasks.len() == 0 {
        0
    } else if tasks[0].id == id {
        0
    } else {
        1 + place_of(tasks.drop_first(), id)
    }
}

/// Whether a task of this number is on the list.
pub open spec fn has_task(tasks: Seq<TaskView>, id: u64) -> bool {
    exists|i: int| 0 <= i < tasks.len() && (#[trigger] tasks[i]).id == id
}

/// The first of these numbers that no task has.
pub open spec fn first_unknown(tasks: Seq<TaskView>, ids: Seq<u64>) -> Option<u64>
    decreases ids.len(),
{
    if ids.len() == 0 {
        None
    } else if !has_task(tasks, ids[0]) {
        Some(ids[0])
    } else {
        first_unknown(tasks, ids.drop_first())
    }
}

/// The tasks with every one of these numbers at this status.
pub open spec fn with_status(tasks: Seq<TaskView>, ids: Seq<u64>, status: TaskStatus) -> Seq<
    TaskView,
> {
    tasks.map_values(
        |t: TaskView|
            if ids.contains(t.id) {
                TaskView { status, ..t }
            } else {
                t
            },
    )
}

/// What is said of a number no task has.
pub open spec fn unknown_task(id: u64) -> Seq<char> {
    "unknown task id "@ + text::decimal(id as nat)
}

/// The list after an action, or why the action cannot be applied.
pub open spec fn list_after(tasks: Seq<TaskView>, action: TaskListActionView) -> Result<
    Seq<TaskView>,
    Seq<char>,
> {
    match action {
        TaskListActionView::Create { tasks: contents } => if contents.len() == 0 {
            Err("create needs at least one task"@)
        } else {
            Ok(new_tasks(contents, 0))
        },
        TaskListActionView::Insert { tasks: contents, after } => if contents.len() == 0 {
            Err("insert needs at least one task"@)
        } else {
            let more = new_tasks(contents, tasks.len() as u64);
            match after {
                None => Ok(tasks + more),
                Some(id) => if has_task(tasks, id) {
                    let p = place_of(tasks, id) + 1;
                    Ok(tasks.take(p) + more + tasks.skip(p))
                } else {
                    Err(unknown_task(id))
                },
            }
        },
        TaskListActionView::UpdateStatus { ids, status } => match first_unknown(tasks, ids) {
            Some(id) => Err(unknown_task(id)),
            None => Ok(with_status(tasks, ids, status)),
        },
        TaskListActionView::List => Ok(tasks),
    }
}

/// How a status is shown.
pub open spec fn status_mark(status: TaskStatus) -> Seq<char> {
    match status {
        TaskStatus::Pending => "[ ] "@,
        TaskStatus::InProgress => "[~] "@,
        TaskStatus::Completed => "[x] "@,
    }
}

/// How many of these tasks are completed.
pub open spec fn done_count(tasks: Seq<TaskView>) -> nat
    decreases tasks.len(),
{
    if tasks.len() == 0 {
        0
    } else {
        done_count(tasks.drop_last()) + if tasks.last().status == TaskStatus::Completed {
            1nat
        } else {
            0nat
        }
    }
}

/// The tasks, one to a line, each with its number.
pub open spec fn task_lines(tasks: Seq<TaskView>) -> Seq<char>
    decreases tasks.len(),
{
    if tasks.len() == 0 {
        seq![]
    } else {
        let t = tasks.last();
        task_lines(tasks.drop_last()) + "\n"@ + status_mark(t.status) + text::decimal(t.id as nat) + ". "@
            + t.content
    }
}

/// The list as the model reads it.
pub open spec fn rendered(tasks: Seq<TaskView>) -> Seq<char> {
    "Tasks ("@ + text::decimal(done_count(tasks)) + "/"@ + text::decimal(tasks.len()) + " done)"@ + task_lines(
        tasks,
    )
}

/// A place is that of the first task of its number.
proof fn lemma_place(tasks: Seq<TaskView>, id: u64)
    ensures
        0 <= place_of(tasks, id) <= tasks.len(),
        has_task(tasks, id) <==> place_of(tasks, id) < tasks.len(),
        place_of(tasks, id) < tasks.len() ==> tasks[place_of(tasks, id)].id == id,
        forall|i: int| 0 <= i < place_of(tasks, id) ==> (#[trigger] tasks[i]).id != id,
    decreases tasks.len(),
{
    if tasks.len() > 0 && tasks[0].id != id {
        let rest = tasks.drop_first();
        lemma_place(rest, id);
        if has_task(tasks, id) {
            let i = choose|i: int| 0 <= i < tasks.len() && (#[trigger] tasks[i]).id == id;
            assert(rest[i - 1].id == id);
        }
        assert forall|i: int| 0 <= i < place_of(tasks, id) implies (#[trigger] tasks[i]).id
            != id by {
            if i > 0 {
                assert(rest[i - 1].id != id);
            }
        }
    }
}

/// Fewer tasks are done than there are.
proof fn lemma_done_count(tasks: Seq<TaskView>)
    ensures
        done_count(tasks) <= tasks.len(),
    decreases tasks.len(),
{
    if tasks.len() > 0 {
        lemma_done_count(tasks.drop_last());
    }
}

impl TaskListState {
    /// An empty list.
    pub fn new() -> (r: Self)
        ensures
            r.deep_view() == Seq::<TaskView>::empty(),
    {
        let r = TaskListState { tasks: Vec::new() };
        proof {
            assert(r.deep_view() =~= seq![]);
        }
        r
    }

    /// The tasks, in order.
    pub fn tasks(&self) -> (r: &Vec<Task>)
        ensures
            r.deep_view() == self.deep_view(),
    {
        &self.tasks
    }

    /// Where the task of this number stands, or the length.
    fn place(&self, id: u64) -> (p: usize)
        ensures
            p == place_of(self.deep_view(), id),
            p <= self.tasks@.len(),
            has_task(self.deep_view(), id) <==> p < self.tasks@.len(),
    {
        proof {
            lemma_place(self.deep_view(), id);
        }
        let mut p: usize = 0;
        while p < self.tasks.len() && self.tasks[p].id != id
            invariant
                p <= self.tasks.len(),
                p <= place_of(self.deep_view(), id),
                forall|i: int| 0 <= i < p ==> (#[trigger] self.deep_view()[i]).id != id,
                place_of(self.deep_view(), id) < self.deep_view().len() ==> self.deep_view()[place_of(
                    self.deep_view(),
                    id,
                )].id == id,
                place_of(self.deep_view(), id) <= self.deep_view().len(),
            decreases self.tasks.len() - p,
        {
            proof {
                assert(self.deep_view()[p as int] == self.tasks@[p as int].deep_view());
            }
            p = p + 1;
        }
        proof {
            if p < self.tasks.len() {
                assert(self.deep_view()[p as int] == self.tasks@[p as int].deep_view());
            }
        }
        p
    }

    /// The first of these numbers that no task has.
    fn unknown(&self, ids: &[u64]) -> (r: Option<u64>)
        ensures
            r == first_unknown(self.deep_view(), ids@),
    {
        proof {
            assert(ids@.skip(0) =~= ids@);
        }
        for i in 0..ids.len()
            invariant
                first_unknown(self.deep_view(), ids@.skip(i as int)) == first_unknown(
                    self.deep_view(),
                    ids@,
                ),
        {
            proof {
                assert(ids@.skip(i as int).drop_first() =~= ids@.skip(i + 1));
            }
            if self.place(ids[i]) == self.tasks.len() {
                return Some(ids[i]);
            }
        }
        None
    }

    /// Apply an action, or say why it cannot be applied and change nothing.
    pub fn apply(&mut self, action: TaskListAction) -> (r: Result<(), String>)
        ensures
            match list_after(old(self).deep_view(), action.deep_view()) {
                Ok(tasks) => r is Ok && final(self).deep_view() == tasks,
                Err(reason) => {
                    &&& r matches Err(said) && said@ == reason
                    &&& final(self).deep_view() == old(self).deep_view()
                },
            },
    {
        match action {
            TaskListAction::Create { tasks } => {
                if tasks.len() == 0 {
                    return Err("create needs at least one task".to_owned());
                }
                self.tasks = numbered(&tasks, 0);
                Ok(())
            },
            TaskListAction::Insert { tasks, after } => {
                if tasks.len() == 0 {
                    return Err("insert needs at least one task".to_owned());
                }
                let ghost all = self.deep_view();
                let count: u64 = self.tasks.len() as u64;
                let mut more = numbered(&tasks, count);
                let ghost added = more.deep_view();
                match after {
                    None => {
                        self.tasks.append(&mut more);
                        proof {
                            assert(self.deep_view() =~= all + added);
                        }
                        Ok(())
                    },
                    Some(id) => {
                        let p = self.place(id);
                        if p == self.tasks.len() {
                            let mut reason = "unknown task id ".to_owned();
                            reason.append(number(id).as_str());
                            return Err(reason);
                        }
                        let mut tail = self.tasks.split_off(p + 1);
                        proof {
                            assert(self.tasks.deep_view() =~= all.take(p + 1));
                            assert(tail.deep_view() =~= all.skip(p + 1));
                        }
                        let ghost front = self.tasks.deep_view();
                        let ghost back = tail.deep_view();
                        self.tasks.append(&mut more);
                        proof {
                            assert(self.tasks.deep_view() =~= front + added);
                        }
                        self.tasks.append(&mut tail);
                        proof {
                            assert(self.deep_view() =~= front + added + back);
                        }
                        Ok(())
                    },
                }
            },
            TaskListAction::UpdateStatus { ids, status } => {
                proof {
                    assert(ids.deep_view() =~= ids@);
                }
                if let Some(id) = self.unknown(&ids) {
                    let mut reason = "unknown task id ".to_owned();
                    reason.append(number(id).as_str());
                    return Err(reason);
                }
                let ghost want = with_status(self.deep_view(), ids@, status);
                let mut out: Vec<Task> = Vec::new();
                for i in 0..self.tasks.len()
                    invariant
                        want == with_status(self.deep_view(), ids@, status),
                        want.len() == self.tasks.len(),
                        out.deep_view() == want.take(i as int),
                {
                    let ghost had = out.deep_view();
                    let mut t = self.tasks[i].dup();
                    if listed(&ids, t.id) {
                        t.status = status;
                    }
                    let ghost next = t.deep_view();
                    out.push(t);
                    proof {
                        assert(self.deep_view()[i as int] == self.tasks@[i as int].deep_view());
                        assert(next == want[i as int]);
                        assert(out.deep_view() =~= had.push(want[i as int]));
                        assert(want.take(i + 1) =~= want.take(i as int).push(want[i as int]));
                    }
                }
                proof {
                    assert(want.take(self.tasks.len() as int) =~= want);
                }
                self.tasks = out;
                Ok(())
            },
            TaskListAction::List => Ok(()),
        }
    }

    /// The list as the model reads it: ids and all, because they are what it
    /// calls back with.
    pub fn render(&self) -> (r: String)
        ensures
            r@ == rendered(self.deep_view()),
    {
        let ghost all = self.deep_view();
        let mut done: u64 = 0;
        let mut lines = String::new();
        for i in 0..self.tasks.len()
            invariant
                all == self.deep_view(),
                done == done_count(all.take(i as int)),
                done <= i,
                lines@ == task_lines(all.take(i as int)),
        {
            let t = &self.tasks[i];
            proof {
                assert(all[i as int] == self.tasks@[i as int].deep_view());
                assert(all.take(i + 1).drop_last() =~= all.take(i as int));
            }
            lines.append("\n");
            match t.status {
                TaskStatus::Pending => {
                    lines.append("[ ] ");
                },
                TaskStatus::InProgress => {
                    lines.append("[~] ");
                },
                TaskStatus::Completed => {
                    lines.append("[x] ");
                    done = done + 1;
                },
            }
            lines.append(number(t.id).as_str());
            lines.append(". ");
            lines.append(t.content.as_str());
        }
        proof {
            assert(all.take(self.tasks.len() as int) =~= all);
        }
        let mut out = "Tasks (".to_owned();
        out.append(number(done).as_str());
        out.append("/");
        out.append(number(self.tasks.len() as u64).as_str());
        out.append(" done)");
        out.append(lines.as_str());
        out
    }
}

/// Pending tasks of these contents, numbered on from `count`.
fn numbered(contents: &[String], count: u64) -> (r: Vec<Task>)
    ensures
        r.deep_view() == new_tasks(contents.deep_view(), count),
{
    let ghost want = new_tasks(contents.deep_view(), count);
    let mut out: Vec<Task> = Vec::new();
    for i in 0..contents.len()
        invariant
            want == new_tasks(contents.deep_view(), count),
            want.len() == contents.len(),
            out.deep_view() == want.take(i as int),
    {
        let ghost had = out.deep_view();
        let step: u64 = (i as u64).saturating_add(1);
        let t = Task {
            id: count.saturating_add(step),
            content: contents[i].clone(),
            status: TaskStatus::Pending,
        };
        let ghost next = t.deep_view();
        out.push(t);
        proof {
            assert(contents.deep_view()[i as int] == contents[i as int]@);
            assert(next == want[i as int]);
            assert(out.deep_view() =~= had.push(want[i as int]));
            assert(want.take(i + 1) =~= want.take(i as int).push(want[i as int]));
        }
    }
    proof {
        assert(want.take(contents.len() as int) =~= want);
    }
    out
}

/// Whether `id` is one of `ids`.
fn listed(ids: &[u64], id: u64) -> (r: bool)
    ensures
        r == ids@.contains(id),
{
    for i in 0..ids.len()
        invariant
            forall|j: int| 0 <= j < i ==> ids@[j] != id,
    {
        if ids[i] == id {
            return true;
        }
    }
    false
}

impl Dup for TaskListState {
    fn dup(&self) -> (out: Self) {
        TaskListState { tasks: self.tasks.dup() }
    }
}

impl Clone for TaskListState {
    fn clone(&self) -> (out: Self)
        ensures
            out.deep_view() == self.deep_view(),
    {
        self.dup()
    }
}

impl Default for TaskListState {
    fn default() -> (r: Self)
        ensures
            r.deep_view() == Seq::<TaskView>::empty(),
    {
        TaskListState::new()
    }
}

/// Reading the list back changes nothing.
pub proof fn law_listing_changes_nothing(tasks: Seq<TaskView>)
    ensures
        list_after(tasks, TaskListActionView::List) == Ok::<Seq<TaskView>, Seq<char>>(tasks),
{
}

/// A task keeps its number and its words through a status update, and so does
/// the list its length.
pub proof fn law_a_status_update_moves_no_task(
    tasks: Seq<TaskView>,
    ids: Seq<u64>,
    status: TaskStatus,
)
    ensures
        ({
            let next = with_status(tasks, ids, status);
            &&& next.len() == tasks.len()
            &&& forall|i: int|
                0 <= i < tasks.len() ==> {
                    &&& (#[trigger] next[i]).id == tasks[i].id
                    &&& next[i].content == tasks[i].content
                    &&& next[i].status == (if ids.contains(tasks[i].id) {
                        status
                    } else {
                        tasks[i].status
                    })
                }
        }),
{
}

/// A new list numbers its tasks from one, in order.
pub proof fn law_a_new_list_counts_from_one(contents: Seq<Seq<char>>)
    requires
        0 < contents.len() <= u64::MAX,
    ensures
        list_after(Seq::<TaskView>::empty(), TaskListActionView::Create { tasks: contents })
            == Ok::<Seq<TaskView>, Seq<char>>(new_tasks(contents, 0)),
        forall|i: int|
            0 <= i < contents.len() ==> (#[trigger] new_tasks(contents, 0)[i]).id == i + 1,
{
}

/// A request for the list is read by its action: what it lists, where it goes,
/// which tasks it moves and how far. An action or a status that is none of
/// those known is refused by its name.
pub proof fn law_an_action_is_read_by_its_name(input: JsonView, name: Seq<char>, word: Seq<char>)
    ensures
        ({
            let named = input.get("action"@) == Some(JsonView::String(name));
            let status = input.get("status"@) == Some(JsonView::String(word));
            let tasks = json::strings_in(input, "tasks"@);
            let r = action_of(input);
            &&& named && name == "create"@ ==> r == Ok::<TaskListActionView, Seq<char>>(
                TaskListActionView::Create { tasks },
            )
            &&& named && name == "insert"@ ==> (r matches Ok(
                TaskListActionView::Insert { tasks: t, after },
            ) && t == tasks && after == (match input.get("after"@) {
                Some(JsonView::Number(NumberView::PosInt(n))) => Some(n),
                _ => None,
            }))
            &&& named && name == "list"@ ==> r == Ok::<TaskListActionView, Seq<char>>(
                TaskListActionView::List,
            )
            &&& named && name == "update_status"@ && status && word == "pending"@ ==> (r matches Ok(
                TaskListActionView::UpdateStatus { ids, status: s },
            ) && s == TaskStatus::Pending && ids == numbers_in(input, "ids"@))
            &&& named && name == "update_status"@ && status && word == "in_progress"@ ==> (
            r matches Ok(TaskListActionView::UpdateStatus { ids, status: s }) && s
                == TaskStatus::InProgress && ids == numbers_in(input, "ids"@))
            &&& named && name == "update_status"@ && status && word == "completed"@ ==> (
            r matches Ok(TaskListActionView::UpdateStatus { ids, status: s }) && s
                == TaskStatus::Completed && ids == numbers_in(input, "ids"@))
            &&& named && name == "update_status"@ && status && word != "pending"@ && word
                != "in_progress"@ && word != "completed"@ ==> r == Err::<
                TaskListActionView,
                Seq<char>,
            >("unknown status '"@ + word + "'"@)
            &&& named && name != "create"@ && name != "insert"@ && name != "list"@ && name
                != "update_status"@ ==> r == Err::<TaskListActionView, Seq<char>>(
                "unknown action '"@ + name + "'"@,
            )
        }),
{
    reveal_strlit("create");
    reveal_strlit("insert");
    reveal_strlit("list");
    reveal_strlit("update_status");
    reveal_strlit("pending");
    reveal_strlit("in_progress");
    reveal_strlit("completed");
    assert("create"@[0] == 'c' && "insert"@[0] == 'i' && "list"@[0] == 'l' && "update_status"@[0]
        == 'u');
    assert("pending"@[0] == 'p' && "in_progress"@[0] == 'i' && "completed"@[0] == 'c');
}

/// The numbers of a list are read one by one, in order; what is no count is
/// left out.
pub proof fn law_the_numbers_of_a_list_are_read_in_order(items: Seq<JsonView>, item: JsonView)
    ensures
        numbers_among(Seq::empty()) == Seq::<u64>::empty(),
        numbers_among(items.push(item)) == (match item {
            JsonView::Number(NumberView::PosInt(n)) => numbers_among(items).push(n),
            _ => numbers_among(items),
        }),
{
    assert(items.push(item).drop_last() =~= items);
}

/// A new list has the tasks asked for and no other: in their words and order,
/// numbered from one and none of them begun. It takes at least one.
pub proof fn law_a_new_list_is_what_was_asked_for(
    tasks: Seq<TaskView>,
    contents: Seq<Seq<char>>,
)
    requires
        contents.len() <= u64::MAX,
    ensures
        contents.len() == 0 ==> list_after(tasks, TaskListActionView::Create { tasks: contents })
            == Err::<Seq<TaskView>, Seq<char>>("create needs at least one task"@),
        contents.len() > 0 ==> (list_after(tasks, TaskListActionView::Create { tasks: contents })
            matches Ok(next) && next.len() == contents.len() && forall|i: int|
            0 <= i < contents.len() ==> (#[trigger] next[i]).content == contents[i] && next[i].id
                == i + 1 && next[i].status == TaskStatus::Pending),
{
}

/// Tasks that are inserted go right behind the task they name, or at the end
/// when they name none, numbered on from how many there were; the tasks that
/// were there keep their order and stay as they were. A task that is not there
/// is refused by its number.
pub proof fn law_inserted_tasks_go_where_they_were_sent(
    tasks: Seq<TaskView>,
    contents: Seq<Seq<char>>,
    after: Option<u64>,
    p: int,
)
    requires
        contents.len() > 0,
        tasks.len() + contents.len() <= u64::MAX,
        after is None ==> p == tasks.len(),
        after matches Some(id) ==> 0 <= p <= tasks.len() && (forall|i: int|
            0 <= i < p - 1 ==> (#[trigger] tasks[i]).id != id) && (p > 0 ==> tasks[p - 1].id == id)
            && (p == 0 ==> forall|i: int| 0 <= i < tasks.len() ==> (#[trigger] tasks[i]).id != id),
    ensures
        after matches Some(id) && p == 0 ==> list_after(
            tasks,
            TaskListActionView::Insert { tasks: contents, after },
        ) == Err::<Seq<TaskView>, Seq<char>>("unknown task id "@ + text::decimal(after->0 as nat)),
        after is None || p > 0 ==> (list_after(
            tasks,
            TaskListActionView::Insert { tasks: contents, after },
        ) matches Ok(next) && next.len() == tasks.len() + contents.len() && (forall|i: int|
            0 <= i < p ==> (#[trigger] next[i]) == tasks[i]) && (forall|i: int|
            0 <= i < contents.len() ==> (#[trigger] next[p + i]).content == contents[i] && next[p
                + i].id == tasks.len() + i + 1 && next[p + i].status == TaskStatus::Pending) && (
        forall|i: int|
            p <= i < tasks.len() ==> next[contents.len() + i] == (#[trigger] tasks[i]))),
{
    let more = new_tasks(contents, tasks.len() as u64);
    if let Some(id) = after {
        lemma_place(tasks, id);
        if p > 0 {
            assert(tasks[p - 1].id == id);
            let q = place_of(tasks, id);
            if q < p - 1 {
                assert(tasks[q].id != id);
            }
            if p - 1 < q {
                assert(tasks[p - 1].id != id);
            }
            assert(q == p - 1);
        }
    }
}

/// Tasks move together or not at all: the first one that is not on the list
/// refuses the update by its number.
pub proof fn law_an_update_of_an_unknown_task_is_refused(
    tasks: Seq<TaskView>,
    ids: Seq<u64>,
    status: TaskStatus,
    k: int,
)
    requires
        0 <= k < ids.len(),
        forall|i: int| 0 <= i < tasks.len() ==> (#[trigger] tasks[i]).id != ids[k],
        forall|j: int| 0 <= j < k ==> has_task(tasks, #[trigger] ids[j]),
    ensures
        list_after(tasks, TaskListActionView::UpdateStatus { ids, status }) == Err::<
            Seq<TaskView>,
            Seq<char>,
        >("unknown task id "@ + text::decimal(ids[k] as nat)),
{
    lemma_first_unknown(tasks, ids, k);
}

/// The first id that is not on the list is found.
proof fn lemma_first_unknown(tasks: Seq<TaskView>, ids: Seq<u64>, k: int)
    requires
        0 <= k <= ids.len(),
        k < ids.len() ==> !has_task(tasks, ids[k]),
        forall|j: int| 0 <= j < k ==> has_task(tasks, #[trigger] ids[j]),
    ensures
        first_unknown(tasks, ids) == (if k < ids.len() {
            Some(ids[k])
        } else {
            None
        }),
    decreases k,
{
    if k > 0 {
        assert(has_task(tasks, ids[0]));
        let rest = ids.drop_first();
        assert forall|j: int| 0 <= j < k - 1 implies has_task(tasks, #[trigger] rest[j]) by {
            assert(rest[j] == ids[j + 1]);
        }
        lemma_first_unknown(tasks, rest, k - 1);
    }
}

/// An update of tasks that are all on the list moves those and no other, to
/// the status it names.
pub proof fn law_an_update_moves_the_tasks_it_names(
    tasks: Seq<TaskView>,
    ids: Seq<u64>,
    status: TaskStatus,
)
    requires
        forall|j: int| 0 <= j < ids.len() ==> has_task(tasks, #[trigger] ids[j]),
    ensures
        list_after(tasks, TaskListActionView::UpdateStatus { ids, status }) matches Ok(next)
            && next.len() == tasks.len() && forall|i: int|
            0 <= i < tasks.len() ==> (#[trigger] next[i]).id == tasks[i].id && next[i].content
                == tasks[i].content && next[i].status == (if ids.contains(tasks[i].id) {
                status
            } else {
                tasks[i].status
            }),
{
    lemma_first_unknown(tasks, ids, ids.len() as int);
}

/// A list is written as how many of its tasks are done and then a line for
/// each, in order, with its mark, its number and its words.
pub proof fn law_a_list_is_written_task_by_task(tasks: Seq<TaskView>, t: TaskView)
    ensures
        rendered(tasks) == "Tasks ("@ + text::decimal(done_count(tasks)) + "/"@ + text::decimal(tasks.len())
            + " done)"@ + task_lines(tasks),
        task_lines(Seq::empty()) == Seq::<char>::empty(),
        done_count(Seq::empty()) == 0,
        done_count(tasks.push(t)) == done_count(tasks) + (if t.status == TaskStatus::Completed {
            1int
        } else {
            0int
        }),
        t.status == TaskStatus::Pending ==> task_lines(tasks.push(t)) == task_lines(tasks) + "\n"@
            + "[ ] "@ + text::decimal(t.id as nat) + ". "@ + t.content,
        t.status == TaskStatus::InProgress ==> task_lines(tasks.push(t)) == task_lines(tasks)
            + "\n"@ + "[~] "@ + text::decimal(t.id as nat) + ". "@ + t.content,
        t.status == TaskStatus::Completed ==> task_lines(tasks.push(t)) == task_lines(tasks)
            + "\n"@ + "[x] "@ + text::decimal(t.id as nat) + ". "@ + t.content,
{
    assert(tasks.push(t).drop_last() =~= tasks);
}

} // verus!
