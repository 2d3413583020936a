//! What a compaction must carry across verbatim.
//!
//! A summary is prose and may be wrong at the edges. These are facts with ids
//! in them, and an agent that reads a paraphrase of its own task list cannot
//! call `task_list` correctly afterwards. So they are rendered from state and
//! never shown to the summariser.

use crate::context::{AskedQuestion, AskedQuestionView};
use crate::lists;
use crate::model::{LifecycleEvent, LifecycleEventView};
use crate::sorted::{self, TextMap};
use crate::state::{
    AgentLogBody, AgentLogBodyView, AgentLogEntry, AgentLogEntryView, AgentState, AgentStateView,
};
use crate::task_list;
use crate::text::{self, join, same};
use crate::timers;
use vstd::prelude::*;

verus! {

/// The label and the status each worker last had.
pub open spec fn latest(log: Seq<AgentLogEntryView>) -> Map<Seq<char>, (Seq<char>, Seq<char>)>
    decreases log.len(),
{
    if log.len() == 0 {
        Map::empty()
    } else {
        match log.last().body {
            AgentLogBodyView::Lifecycle(LifecycleEventView::SubAgent(s)) => latest(
                log.drop_last(),
            ).insert(s.id, (s.label, s.status)),
            _ => latest(log.drop_last()),
        }
    }
}

/// The id and the label of a worker that is still running.
pub open spec fn still_running(entry: (Seq<char>, (Seq<char>, Seq<char>))) -> Option<
    (Seq<char>, Seq<char>),
> {
    if entry.1.1 == "running"@ {
        Some((entry.0, entry.1.0))
    } else {
        None
    }
}

/// The workers still running, by id, each with its label.
pub open spec fn running(log: Seq<AgentLogEntryView>) -> Seq<(Seq<char>, Seq<char>)> {
    lists::filter_map(
        sorted::entries_of(latest(log)),
        |e: (Seq<char>, (Seq<char>, Seq<char>))| still_running(e),
    )
}

/// The questions waited on, one to a line.
pub open spec fn asks_block(asks: Seq<AskedQuestionView>) -> Seq<char>
    decreases asks.len(),
{
    if asks.len() == 0 {
        "Questions you are waiting on an answer to:"@
    } else {
        let a = asks.last();
        asks_block(asks.drop_last()) + "\n- ["@ + (match a.tool_call_id {
            Some(id) => id,
            None => "unknown call"@,
        }) + "] "@ + a.question
    }
}

/// The workers still running, one to a line.
pub open spec fn running_block(workers: Seq<(Seq<char>, Seq<char>)>) -> Seq<char>
    decreases workers.len(),
{
    if workers.len() == 0 {
        "Subagents still running:"@
    } else {
        let w = workers.last();
        running_block(workers.drop_last()) + "\n- "@ + w.0 + " ("@ + w.1 + ")"@
    }
}

/// One section, or none.
pub open spec fn section(present: bool, text: Seq<char>) -> Seq<Seq<char>> {
    if present {
        seq![text]
    } else {
        seq![]
    }
}

/// Every exact fact an agent must not forget, a section for each kind it has.
pub open spec fn carried_sections(state: AgentStateView) -> Seq<Seq<char>> {
    section(state.tasks().len() > 0, task_list::rendered(state.tasks())) + section(
        state.timers().len() > 0,
        timers::carried_block(state.timers()),
    ) + section(state.asks.len() > 0, asks_block(state.asks)) + section(
        running(state.log).len() > 0,
        running_block(running(state.log)),
    )
}

/// The workers this agent spawned that have not reported a terminal status, by
/// id, each with its label.
///
/// Read off the transcript, because that is where the fact lives: the newest
/// entry for an id is its current status.
pub fn running_subagents(log: &[AgentLogEntry]) -> (r: Vec<(String, String)>)
    ensures
        r.deep_view() == running(log.deep_view()),
        forall|id: Seq<char>, label: Seq<char>| #[trigger]
            r.deep_view().contains((id, label)) <==> latest(log.deep_view()).contains_key(id)
                && latest(log.deep_view())[id] == (label, "running"@),
{
    let ghost all = log.deep_view();
    let mut seen: TextMap<(String, String)> = TextMap::new();
    for i in 0..log.len()
        invariant
            all == log.deep_view(),
            seen.map() == latest(all.take(i as int)),
    {
        proof {
            assert(all[i as int] == log@[i as int].deep_view());
            assert(all.take(i + 1).drop_last() =~= all.take(i as int));
        }
        if let AgentLogBody::Lifecycle(LifecycleEvent::SubAgent(s)) = &log[i].body {
            seen.insert(s.id.clone(), (s.label.clone(), s.status.clone()));
        }
    }
    proof {
        assert(all.take(log.len() as int) =~= all);
    }
    let ghost entries = seen.deep_view();
    let ghost keep = |e: (Seq<char>, (Seq<char>, Seq<char>))| still_running(e);
    let count: usize = seen.len();
    proof {
        sorted::law_entries_are_determined(entries);
    }
    let mut out: Vec<(String, String)> = Vec::new();
    for i in 0..count
        invariant
            entries == seen.deep_view(),
            count == entries.len(),
            keep == (|e: (Seq<char>, (Seq<char>, Seq<char>))| still_running(e)),
            out.deep_view() == lists::filter_map(entries.take(i as int), keep),
    {
        let ghost had = out.deep_view();
        proof {
            lists::lemma_filter_map_step(entries, keep, i as int);
        }
        let (id, worker) = seen.at(i);
        if same(worker.1.as_str(), "running") {
            out.push((id.to_owned(), worker.0.clone()));
            proof {
                assert(out.deep_view() =~= had.push((entries[i as int].0, entries[i as int].1.0)));
            }
        }
    }
    proof {
        assert(entries.take(count as int) =~= entries);
        assert forall|id: Seq<char>, label: Seq<char>| #[trigger]
            out.deep_view().contains((id, label)) <==> latest(all).contains_key(id) && latest(
                all,
            )[id] == (label, "running"@) by {
            lemma_newest_status_decides(all, entries, id, label);
        }
    }
    out
}

/// Whether any worker this agent spawned still owes it a report.
pub fn has_outstanding_children(state: &AgentState) -> (r: bool)
    ensures
        r == (running(state.deep_view().log).len() > 0),
{
    running_subagents(&state.log).len() > 0
}

/// The questions waited on, one to a line.
fn asks_text(asks: &[AskedQuestion]) -> (r: String)
    ensures
        r@ == asks_block(asks.deep_view()),
{
    let ghost all = asks.deep_view();
    let mut block = "Questions you are waiting on an answer to:".to_owned();
    for i in 0..asks.len()
        invariant
            all == asks.deep_view(),
            block@ == asks_block(all.take(i as int)),
    {
        proof {
            assert(all[i as int] == asks@[i as int].deep_view());
            assert(all.take(i + 1).drop_last() =~= all.take(i as int));
        }
        block.append("\n- [");
        match &asks[i].tool_call_id {
            Some(id) => {
                block.append(id.as_str());
            },
            None => {
                block.append("unknown call");
            },
        }
        block.append("] ");
        block.append(asks[i].question.as_str());
    }
    proof {
        assert(all.take(asks.len() as int) =~= all);
    }
    block
}

/// The workers still running, one to a line.
fn running_text(workers: &[(String, String)]) -> (r: String)
    ensures
        r@ == running_block(workers.deep_view()),
{
    let ghost all = workers.deep_view();
    let mut block = "Subagents still running:".to_owned();
    for i in 0..workers.len()
        invariant
            all == workers.deep_view(),
            block@ == running_block(all.take(i as int)),
    {
        proof {
            assert(all[i as int] == workers@[i as int].deep_view());
            assert(all.take(i + 1).drop_last() =~= all.take(i as int));
        }
        block.append("\n- ");
        block.append(workers[i].0.as_str());
        block.append(" (");
        block.append(workers[i].1.as_str());
        block.append(")");
    }
    proof {
        assert(all.take(workers.len() as int) =~= all);
    }
    block
}

/// Every exact fact this agent must not forget, as one block.
///
/// Nothing at all when there is nothing to carry, so a session that never used
/// a task list or a timer gets no section saying so.
pub fn render_carried_state(state: &AgentState) -> (r: String)
    ensures
        r@ == text::joined(carried_sections(state.deep_view()), "\n\n"@),
{
    let ghost view = state.deep_view();
    let mut sections: Vec<String> = Vec::new();
    let list = state.task_list();
    if list.tasks().len() > 0 {
        sections.push(list.render());
    }
    let ghost tasks = section(view.tasks().len() > 0, task_list::rendered(view.tasks()));
    proof {
        assert(sections.deep_view() =~= tasks);
    }
    if let Some(timers) = state.timers() {
        if let Some(block) = timers.carried_state() {
            sections.push(block);
        }
    }
    let ghost timers = section(view.timers().len() > 0, timers::carried_block(view.timers()));
    proof {
        assert(sections.deep_view() =~= tasks + timers);
    }
    if state.asks.len() > 0 {
        sections.push(asks_text(&state.asks));
    }
    let ghost asks = section(view.asks.len() > 0, asks_block(view.asks));
    proof {
        assert(sections.deep_view() =~= tasks + timers + asks);
    }
    let workers = running_subagents(&state.log);
    if workers.len() > 0 {
        sections.push(running_text(&workers));
    }
    proof {
        assert(sections.deep_view() =~= carried_sections(view));
    }
    join(&sections, "\n\n")
}

/// A worker is carried exactly when the newest entry for it says it is
/// running.
proof fn lemma_newest_status_decides(
    log: Seq<AgentLogEntryView>,
    entries: Seq<(Seq<char>, (Seq<char>, Seq<char>))>,
    id: Seq<char>,
    label: Seq<char>,
)
    requires
        sorted::ascending(sorted::keys_of(entries)),
        sorted::map_of(entries) == latest(log),
    ensures
        running(log).contains((id, label)) <==> latest(log).contains_key(id) && latest(log)[id] == (
            label,
            "running"@,
        ),
{
    sorted::law_entries_are_determined(entries);
    let keep = |e: (Seq<char>, (Seq<char>, Seq<char>))| still_running(e);
    assert(running(log) == lists::filter_map(entries, keep));
    lists::lemma_filter_map_members(entries, keep);
    if running(log).contains((id, label)) {
        let i = choose|i: int|
            0 <= i < entries.len() && keep(#[trigger] entries[i]) == Some((id, label));
        sorted::lemma_map_of_entry(entries, i);
    }
    if latest(log).contains_key(id) && latest(log)[id] == (label, "running"@) {
        assert(sorted::keys_of(entries).contains(id));
        let i = sorted::keys_of(entries).index_of(id);
        assert(sorted::keys_of(entries)[i] == id);
        assert(keep(entries[i]) == Some((id, label)));
    }
}

/// An agent with nothing to carry is told nothing.
pub proof fn law_nothing_to_carry_renders_nothing(state: AgentStateView)
    requires
        state.tasks().len() == 0,
        state.timers().len() == 0,
        state.asks.len() == 0,
        running(state.log).len() == 0,
    ensures
        text::joined(carried_sections(state), "\n\n"@) == Seq::<char>::empty(),
{
    assert(carried_sections(state) =~= seq![]);
}

/// What is known of the workers is what was last said of each: a new word on
/// one replaces the old, and no other entry says anything of them.
pub proof fn law_the_last_word_on_a_worker_counts(
    log: Seq<AgentLogEntryView>,
    entry: AgentLogEntryView,
)
    ensures
        latest(Seq::empty()) == Map::<Seq<char>, (Seq<char>, Seq<char>)>::empty(),
        entry.body matches AgentLogBodyView::Lifecycle(LifecycleEventView::SubAgent(s)) ==> latest(
            log.push(entry),
        ) == latest(log).insert(s.id, (s.label, s.status)),
        !(entry.body matches AgentLogBodyView::Lifecycle(LifecycleEventView::SubAgent(_)))
            ==> latest(log.push(entry)) == latest(log),
{
    assert(log.push(entry).drop_last() =~= log);
}

/// What is known of the workers is finite.
proof fn lemma_latest_is_finite(log: Seq<AgentLogEntryView>)
    ensures
        latest(log).dom().finite(),
    decreases log.len(),
{
    if log.len() > 0 {
        lemma_latest_is_finite(log.drop_last());
    }
}

/// A worker is running exactly when the last word on it says so.
pub proof fn law_a_worker_runs_while_its_last_word_says_so(
    log: Seq<AgentLogEntryView>,
    id: Seq<char>,
    label: Seq<char>,
)
    ensures
        running(log).contains((id, label)) <==> latest(log).contains_key(id) && latest(log)[id] == (
            label,
            "running"@,
        ),
{
    lemma_latest_is_finite(log);
    crate::sorted::law_a_finite_map_is_listed(latest(log));
    lemma_newest_status_decides(log, sorted::entries_of(latest(log)), id, label);
}

/// The note of open questions names each by the call it was asked in and its
/// words; that of running workers each by its id and its label.
pub proof fn law_a_note_names_what_is_open(
    asks: Seq<AskedQuestionView>,
    ask: AskedQuestionView,
    workers: Seq<(Seq<char>, Seq<char>)>,
    id: Seq<char>,
    label: Seq<char>,
)
    ensures
        asks_block(Seq::empty()) == "Questions you are waiting on an answer to:"@,
        ask.tool_call_id matches Some(call) ==> asks_block(asks.push(ask)) == asks_block(asks)
            + "\n- ["@ + call + "] "@ + ask.question,
        ask.tool_call_id is None ==> asks_block(asks.push(ask)) == asks_block(asks) + "\n- ["@
            + "unknown call"@ + "] "@ + ask.question,
        running_block(Seq::empty()) == "Subagents still running:"@,
        running_block(workers.push((id, label))) == running_block(workers) + "\n- "@ + id + " ("@
            + label + ")"@,
{
    assert(asks.push(ask).drop_last() =~= asks);
    assert(workers.push((id, label)).drop_last() =~= workers);
}

/// What is carried is the task list, the timers, the open questions and the
/// running workers, in that order, each only when there is something to say.
pub proof fn law_everything_there_is_is_carried(state: AgentStateView)
    ensures
        ({
            let sections = carried_sections(state);
            let tasks = state.tasks().len() > 0;
            let timers = state.timers().len() > 0;
            let asks = state.asks.len() > 0;
            let workers = running(state.log).len() > 0;
            &&& tasks ==> sections[0] == task_list::rendered(state.tasks())
            &&& timers ==> sections.contains(timers::carried_block(state.timers()))
            &&& asks ==> sections.contains(asks_block(state.asks))
            &&& workers ==> sections.last() == running_block(running(state.log))
            &&& tasks && timers && asks && workers ==> sections == seq![
                task_list::rendered(state.tasks()),
                timers::carried_block(state.timers()),
                asks_block(state.asks),
                running_block(running(state.log)),
            ]
            &&& sections.len() == (if tasks {
                1int
            } else {
                0
            }) + (if timers {
                1int
            } else {
                0
            }) + (if asks {
                1int
            } else {
                0
            }) + (if workers {
                1int
            } else {
                0
            })
        }),
{
    let sections = carried_sections(state);
    let before = section(state.tasks().len() > 0, task_list::rendered(state.tasks()));
    let timed = section(state.timers().len() > 0, timers::carried_block(state.timers()));
    if state.timers().len() > 0 {
        assert(sections[before.len() as int] == timers::carried_block(state.timers()));
    }
    if state.asks.len() > 0 {
        assert(sections[(before.len() + timed.len()) as int] == asks_block(state.asks));
    }
}

} // verus!
