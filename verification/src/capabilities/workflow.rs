//! `invoke_workflow` and `workflow_status`: an agent starting a run, and
//! reading back the ones still going.
//!
//! A run owes its output to the agent that invoked it, as a worker owes its
//! report, and an agent may not conclude while it has one in flight.

use crate::capabilities::{SessionReply, SessionReplyView, SessionRequest, SessionRequestView};
use crate::capabilities::claims::{
    self, Claim, ClaimView, ClaimedTool, ClaimedToolView, NO_ARGUMENTS,
};
use crate::capabilities::reports::{self, list_runners, report};
use crate::capabilities::sub_agent;
use crate::ids::{self, RunnerId, RunnerKind, RunnerSet};
use crate::inbox::{Incoming, IncomingView};
use crate::json::{self, Json, JsonView, pretty};
use crate::model::{ToolResultInput, ToolResultInputView};
use crate::runners::{
    ChildMsg, ChildMsgView, ChildOutcome, ChildOutcomeView, RunnerArgs, RunnerArgsView,
    WorkflowOutcome, WorkflowOutcomeView, WorkflowSource, WorkflowSourceView,
};
use crate::sorted::{self, TextMap};
use crate::text::{self, Dup, number};
use vstd::prelude::*;

verus! {

/// The tool that starts a run.
pub const INVOKE_TOOL: &'static str = "invoke_workflow";

/// The tool that reads back what is still running.
pub const STATUS_TOOL: &'static str = "workflow_status";

/// What `invoke_workflow` takes.
pub const INVOKE_SCHEMA: &'static str = "{\"properties\":{\"input\":{\"description\":\"The run's input, complete and self-contained: a run does not see this conversation.\",\"type\":\"string\"},\"workflow\":{\"description\":\"The name of the workflow to run.\",\"type\":\"string\"}},\"required\":[\"workflow\",\"input\"],\"type\":\"object\"}";

/// What the model is told `invoke_workflow` does.
pub const INVOKE_DESCRIPTION: &'static str = "Start a run of a workflow already defined on this server. Returns immediately; the run's final output, or its failure, is automatically delivered back to you as a message. Carry on with independent work meanwhile, and use workflow_status only when asked for progress or when a result seems lost — never as a poll.";

/// What the model is told `workflow_status` does.
pub const STATUS_DESCRIPTION: &'static str = "List the workflow runs you started that are still in flight. Do not poll or call this tool repeatedly: a run's output and its failures are automatically delivered to you as messages.";

/// One agent's workflow runs.
#[derive(Debug, Clone, Copy, PartialEq, Eq, Structural)]
pub struct WorkflowCapability;

impl DeepView for WorkflowCapability {
    type V = WorkflowCapability;

    open spec fn deep_view(&self) -> WorkflowCapability {
        *self
    }
}

impl Dup for WorkflowCapability {
    fn dup(&self) -> (out: Self) {
        *self
    }
}

/// One run asked of the session and not yet answered: the whole request,
/// because asking again has to send the same one.
#[derive(Debug, PartialEq, Eq)]
pub struct Pending {
    /// The runner the run will be, and what a repeated request is recognised by.
    pub child: RunnerId,
    pub workflow: String,
    pub input: String,
}

/// What a [`Pending`] stands for.
#[verifier::ext_equal]
pub struct PendingView {
    pub child: RunnerId,
    pub workflow: Seq<char>,
    pub input: Seq<char>,
}

impl DeepView for Pending {
    type V = PendingView;

    open spec fn deep_view(&self) -> PendingView {
        PendingView {
            child: self.child.deep_view(),
            workflow: self.workflow.deep_view(),
            input: self.input.deep_view(),
        }
    }
}

impl Dup for Pending {
    fn dup(&self) -> (out: Self) {
        Pending {
            child: self.child.dup(),
            workflow: self.workflow.dup(),
            input: self.input.dup(),
        }
    }
}

impl Clone for Pending {
    fn clone(&self) -> (out: Self)
        ensures
            out.deep_view() == self.deep_view(),
    {
        self.dup()
    }
}

/// The workflow runs an agent has in flight.
#[derive(Debug, PartialEq, Eq)]
pub struct WorkflowState {
    requested: TextMap<Pending>,
    outstanding: RunnerSet,
}

/// What a [`WorkflowState`] stands for.
#[verifier::ext_equal]
pub struct WorkflowStateView {
    /// Runs asked for and not yet answered, by the model's call.
    pub requested: Map<Seq<char>, PendingView>,
    /// Runs that exist and still owe their output.
    pub outstanding: Set<RunnerId>,
}

impl DeepView for WorkflowState {
    type V = WorkflowStateView;

    closed spec fn deep_view(&self) -> WorkflowStateView {
        WorkflowStateView { requested: self.requested.map(), outstanding: self.outstanding.set() }
    }
}

impl Dup for WorkflowState {
    fn dup(&self) -> (out: Self) {
        WorkflowState { requested: self.requested.dup(), outstanding: self.outstanding.dup() }
    }
}

impl Clone for WorkflowState {
    fn clone(&self) -> (out: Self)
        ensures
            out.deep_view() == self.deep_view(),
    {
        self.dup()
    }
}

impl WorkflowStateView {
    /// Nothing in flight.
    pub open spec fn idle() -> WorkflowStateView {
        WorkflowStateView { requested: Map::empty(), outstanding: Set::empty() }
    }

    /// Whether an output is still owed.
    pub open spec fn holds_conclusion(self) -> bool {
        self.outstanding != Set::<RunnerId>::empty()
    }

    /// After a run was asked of the session.
    pub open spec fn requested(self, call: Seq<char>, pending: PendingView) -> WorkflowStateView {
        WorkflowStateView { requested: self.requested.insert(call, pending), ..self }
    }

    /// After the session created what this call asked for.
    pub open spec fn started(self, call: Seq<char>) -> WorkflowStateView {
        if self.requested.contains_key(call) {
            WorkflowStateView {
                requested: self.requested.remove(call),
                outstanding: self.outstanding.insert(self.requested[call].child),
            }
        } else {
            self
        }
    }

    /// After the session would not create it.
    pub open spec fn dropped(self, call: Seq<char>) -> WorkflowStateView {
        WorkflowStateView { requested: self.requested.remove(call), ..self }
    }

    /// After this run's output reached the queue.
    pub open spec fn reported(self, child: RunnerId) -> WorkflowStateView {
        WorkflowStateView { outstanding: self.outstanding.remove(child), ..self }
    }
}

impl Default for WorkflowState {
    fn default() -> (r: Self)
        ensures
            r.deep_view() == WorkflowStateView::idle(),
    {
        WorkflowState { requested: TextMap::new(), outstanding: RunnerSet::new() }
    }
}

impl WorkflowState {
    /// Whether an output is still owed: an agent may not conclude while one is.
    pub fn holds_conclusion(&self) -> (r: bool)
        ensures
            r == self.deep_view().holds_conclusion(),
    {
        !self.outstanding.is_empty()
    }

    /// A run was asked of the session.
    pub fn requested(&mut self, call: String, pending: Pending)
        ensures
            final(self).deep_view() == old(self).deep_view().requested(call@, pending.deep_view()),
    {
        self.requested.insert(call, pending);
    }

    /// The session created it, so an output is now owed.
    pub fn started(&mut self, call: &str)
        ensures
            final(self).deep_view() == old(self).deep_view().started(call@),
    {
        let ghost after = self.deep_view().started(call@);
        match self.requested.remove(call) {
            Some(pending) => {
                self.outstanding.insert(pending.child);
            },
            None => {},
        }
        proof {
            assert(self.deep_view() =~= after);
        }
    }

    /// The session would not create it.
    pub fn dropped(&mut self, call: &str)
        ensures
            final(self).deep_view() == old(self).deep_view().dropped(call@),
    {
        let _ = self.requested.remove(call);
    }

    /// This run's output reached the queue.
    pub fn reported(&mut self, child: RunnerId)
        ensures
            final(self).deep_view() == old(self).deep_view().reported(child),
    {
        self.outstanding.remove(child);
    }

    /// The run this call asked for, while the session has not answered it.
    pub fn pending(&self, call: &str) -> (r: Option<&Pending>)
        ensures
            match r {
                Some(p) => self.deep_view().requested.contains_key(call@)
                    && self.deep_view().requested[call@] == p.deep_view(),
                None => !self.deep_view().requested.contains_key(call@),
            },
    {
        self.requested.get(call)
    }

    /// The runs that still owe an output, in the order of their ids.
    pub fn outstanding(&self) -> (r: Vec<RunnerId>)
        ensures
            r@ == ids::in_order(self.deep_view().outstanding),
            r@.to_set() == self.deep_view().outstanding,
            self.deep_view().outstanding.finite(),
    {
        let n: usize = self.outstanding.len();
        let ghost all = self.outstanding.deep_view();
        let mut out: Vec<RunnerId> = Vec::new();
        for i in 0..n
            invariant
                n == all.len(),
                all == self.outstanding.deep_view(),
                out@ == all.take(i as int),
        {
            out.push(self.outstanding.at(i));
            proof {
                assert(all.take(i + 1) =~= all.take(i as int).push(all[i as int]));
            }
        }
        proof {
            assert(all.take(n as int) =~= all);
            ids::law_the_order_is_determined(all);
            vstd::seq_lib::seq_to_set_is_finite(all);
        }
        out
    }
}

/// The arguments of `invoke_workflow`: the model names a workflow, and never
/// writes a graph.
#[derive(Debug, PartialEq, Eq)]
pub struct Request {
    pub workflow: String,
    pub input: String,
}

/// What a [`Request`] stands for.
#[verifier::ext_equal]
pub struct RequestView {
    pub workflow: Seq<char>,
    pub input: Seq<char>,
}

impl DeepView for Request {
    type V = RequestView;

    open spec fn deep_view(&self) -> RequestView {
        RequestView {
            workflow: self.workflow.deep_view(),
            input: self.input.deep_view(),
        }
    }
}

impl Dup for Request {
    fn dup(&self) -> (out: Self) {
        Request {
            workflow: self.workflow.dup(),
            input: self.input.dup(),
        }
    }
}

impl Clone for Request {
    fn clone(&self) -> (out: Self)
        ensures
            out.deep_view() == self.deep_view(),
    {
        self.dup()
    }
}

/// What a call to `invoke_workflow` came to.
#[derive(Debug, PartialEq, Eq)]
pub enum Invoked {
    /// Told why, in words, and the run carries on. Journals nothing.
    Told(String),
    /// Journal the request, put it to the session, and park the call on it.
    Ask { pending: Pending, note: String },
}

/// What a [`Invoked`] stands for.
#[verifier::ext_equal]
pub enum InvokedView {
    Told(Seq<char>),
    Ask { pending: PendingView, note: Seq<char> },
}

impl DeepView for Invoked {
    type V = InvokedView;

    open spec fn deep_view(&self) -> InvokedView {
        match self {
            Invoked::Told(a) => InvokedView::Told(a.deep_view()),
            Invoked::Ask { pending, note } => InvokedView::Ask {
                pending: pending.deep_view(),
                note: note.deep_view(),
            },
        }
    }
}

impl Dup for Invoked {
    fn dup(&self) -> (out: Self) {
        match self {
            Invoked::Told(a) => Invoked::Told(a.dup()),
            Invoked::Ask { pending, note } => Invoked::Ask {
                pending: pending.dup(),
                note: note.dup(),
            },
        }
    }
}

impl Clone for Invoked {
    fn clone(&self) -> (out: Self)
        ensures
            out.deep_view() == self.deep_view(),
    {
        self.dup()
    }
}

/// What an invocation comes to, with this id for the run.
pub open spec fn invocation(request: Result<RequestView, Seq<char>>, child: RunnerId) -> InvokedView {
    match request {
        Err(e) => InvokedView::Told(
            "`invoke_workflow` was called with arguments it cannot read: "@ + e,
        ),
        Ok(req) => InvokedView::Ask {
            pending: PendingView { child, workflow: req.workflow, input: req.input },
            note: "starting workflow "@ + req.workflow,
        },
    }
}

/// The model called `invoke_workflow`, and this is the run's id should it be
/// asked for. A call that cannot be read is this capability's to answer too.
pub fn invoked_with(request: Result<Request, String>, child: RunnerId) -> (r: Invoked)
    ensures
        r.deep_view() == invocation(text::attempt(request), child),
{
    match request {
        Err(e) => {
            let mut out = "`invoke_workflow` was called with arguments it cannot read: ".to_owned();
            out.append(e.as_str());
            Invoked::Told(out)
        },
        Ok(req) => {
            let mut note = "starting workflow ".to_owned();
            note.append(req.workflow.as_str());
            let pending = Pending { child, workflow: req.workflow, input: req.input };
            Invoked::Ask { pending, note }
        },
    }
}

/// The model called `invoke_workflow`. The run's id is minted here rather than
/// in the fold: a decision may be non-deterministic, a fold may not.
pub fn invoked(request: Result<Request, String>) -> (r: Invoked)
    ensures
        exists|child: RunnerId|
            ids::is_version_4(child.0) && r.deep_view() == #[trigger] invocation(
                text::attempt(request),
                child,
            ),
{
    let child = RunnerId::new_v4();
    invoked_with(request, child)
}

/// The request a pending run names.
pub open spec fn run_request(call: Seq<char>, pending: PendingView) -> SessionRequestView {
    SessionRequestView::StartRunner {
        call,
        id: pending.child,
        kind: RunnerKind::Workflow,
        args: RunnerArgsView::Workflow {
            source: WorkflowSourceView::Named(pending.workflow),
            input: pending.input,
        },
    }
}

/// The request a pending run names. The invocation and the ask on load both use
/// it, because the second has to send exactly what the first sent.
pub fn request(call: &str, pending: &Pending) -> (r: SessionRequest)
    ensures
        r.deep_view() == run_request(call@, pending.deep_view()),
{
    SessionRequest::StartRunner {
        call: call.to_owned(),
        id: pending.child,
        kind: RunnerKind::Workflow,
        args: Box::new(
            RunnerArgs::Workflow {
                source: WorkflowSource::Named(pending.workflow.clone()),
                input: pending.input.clone(),
            },
        ),
    }
}

/// Every run asked for and never answered, asked again.
pub open spec fn runs_asked_again(requested: Map<Seq<char>, PendingView>) -> Seq<
    SessionRequestView,
> {
    sorted::entries_of(requested).map_values(|e: (Seq<char>, PendingView)| run_request(e.0, e.1))
}

/// Everything asked for and never answered, asked again, in the order of the
/// calls.
pub fn reloaded(state: &WorkflowState) -> (r: Vec<SessionRequest>)
    ensures
        r.deep_view() == runs_asked_again(state.deep_view().requested),
        state.deep_view().requested.dom().finite(),
{
    let n: usize = state.requested.len();
    let ghost entries = state.requested.deep_view();
    let ghost all = entries.map_values(|e: (Seq<char>, PendingView)| run_request(e.0, e.1));
    let mut out: Vec<SessionRequest> = Vec::new();
    for i in 0..n
        invariant
            n == entries.len(),
            entries == state.requested.deep_view(),
            all == entries.map_values(|e: (Seq<char>, PendingView)| run_request(e.0, e.1)),
            out.deep_view() == all.take(i as int),
    {
        let ghost had = out.deep_view();
        let (call, pending) = state.requested.at(i);
        out.push(request(call, pending));
        proof {
            assert(out.deep_view() =~= had.push(all[i as int]));
            assert(all.take(i + 1) =~= all.take(i as int).push(all[i as int]));
        }
    }
    proof {
        assert(all.take(n as int) =~= all);
        sorted::law_entries_are_determined(entries);
        sorted::lemma_entries_are_finite(entries);
    }
    out
}

/// What the session said about a run this agent asked for.
#[derive(Debug, PartialEq, Eq)]
pub enum Run {
    Started { call: String, child: RunnerId },
    Dropped { call: String, reason: String },
}

/// What a [`Run`] stands for.
#[verifier::ext_equal]
pub enum RunView {
    Started { call: Seq<char>, child: RunnerId },
    Dropped { call: Seq<char>, reason: Seq<char> },
}

impl DeepView for Run {
    type V = RunView;

    open spec fn deep_view(&self) -> RunView {
        match self {
            Run::Started { call, child } => RunView::Started {
                call: call.deep_view(),
                child: child.deep_view(),
            },
            Run::Dropped { call, reason } => RunView::Dropped {
                call: call.deep_view(),
                reason: reason.deep_view(),
            },
        }
    }
}

impl Dup for Run {
    fn dup(&self) -> (out: Self) {
        match self {
            Run::Started { call, child } => Run::Started {
                call: call.dup(),
                child: child.dup(),
            },
            Run::Dropped { call, reason } => Run::Dropped {
                call: call.dup(),
                reason: reason.dup(),
            },
        }
    }
}

impl Clone for Run {
    fn clone(&self) -> (out: Self)
        ensures
            out.deep_view() == self.deep_view(),
    {
        self.dup()
    }
}

impl RunView {
    /// The parked call this answers.
    pub open spec fn call(self) -> Seq<char> {
        match self {
            RunView::Started { call, .. } => call,
            RunView::Dropped { call, .. } => call,
        }
    }

    /// The parked call's result.
    pub open spec fn result(self) -> ToolResultInputView {
        match self {
            RunView::Started { call, child } => ToolResultInputView {
                tool_call_id: call,
                output: "Workflow run started: "@ + ids::hyphenated(child.0),
                is_error: false,
                artifacts: seq![],
            },
            RunView::Dropped { call, reason } => ToolResultInputView {
                tool_call_id: call,
                output: reason,
                is_error: true,
                artifacts: seq![],
            },
        }
    }
}

impl Run {
    /// The parked call this answers.
    pub fn call(&self) -> (r: &str)
        ensures
            r@ == self.deep_view().call(),
    {
        match self {
            Run::Started { call, .. } => call.as_str(),
            Run::Dropped { call, .. } => call.as_str(),
        }
    }

    /// The parked call's result. A refusal comes back as that result, with
    /// `is_error` set, because one the model cannot see is a call that never
    /// returns.
    pub fn result(&self) -> (r: ToolResultInput)
        ensures
            r.deep_view() == self.deep_view().result(),
    {
        let (output, is_error) = match self {
            Run::Started { child, .. } => {
                let mut out = "Workflow run started: ".to_owned();
                out.append(child.text().as_str());
                (out, false)
            },
            Run::Dropped { reason, .. } => (reason.clone(), true),
        };
        let r = ToolResultInput {
            tool_call_id: self.call().to_owned(),
            output,
            is_error,
            artifacts: Vec::new(),
        };
        proof {
            assert(r.artifacts.deep_view() =~= seq![]);
        }
        r
    }
}

/// What a reply says about a run, if it answers one of these.
pub open spec fn run_reply(requested: Map<Seq<char>, PendingView>, reply: SessionReplyView) -> Option<
    RunView,
> {
    if requested.contains_key(reply.call()) {
        Some(
            match reply {
                SessionReplyView::Done { call } => RunView::Started {
                    call,
                    child: requested[call].child,
                },
                SessionReplyView::Refused { call, reason } => RunView::Dropped { call, reason },
            },
        )
    } else {
        None
    }
}

/// The session answered a run this capability asked for; `None` when the reply
/// answers something else.
pub fn replied(state: &WorkflowState, reply: &SessionReply) -> (r: Option<Run>)
    ensures
        r.deep_view() == run_reply(state.deep_view().requested, reply.deep_view()),
{
    match state.requested.get(reply.call()) {
        None => None,
        Some(pending) => Some(
            match reply {
                SessionReply::Done { call } => Run::Started {
                    call: call.clone(),
                    child: pending.child,
                },
                SessionReply::Refused { call, reason } => Run::Dropped {
                    call: call.clone(),
                    reason: reason.clone(),
                },
            },
        ),
    }
}

/// A run reported, and this is what its output becomes in the queue.
#[derive(Debug, PartialEq, Eq)]
pub struct Reported {
    pub child: RunnerId,
    pub item: Incoming,
}

/// What a [`Reported`] stands for.
#[verifier::ext_equal]
pub struct ReportedView {
    pub child: RunnerId,
    pub item: IncomingView,
}

impl DeepView for Reported {
    type V = ReportedView;

    open spec fn deep_view(&self) -> ReportedView {
        ReportedView {
            child: self.child.deep_view(),
            item: self.item.deep_view(),
        }
    }
}

impl Dup for Reported {
    fn dup(&self) -> (out: Self) {
        Reported {
            child: self.child.dup(),
            item: self.item.dup(),
        }
    }
}

impl Clone for Reported {
    fn clone(&self) -> (out: Self)
        ensures
            out.deep_view() == self.deep_view(),
    {
        self.dup()
    }
}

/// A run's output as text: text itself as it is, so that the model is not
/// handed its own quotes back, and anything else laid out.
pub open spec fn output_text(output: JsonView) -> Seq<char> {
    match output {
        JsonView::String(s) => s,
        _ => json::pretty_text(output),
    }
}

/// A run's output as text.
pub fn render(output: &Json) -> (r: String)
    ensures
        r@ == output_text(output.deep_view()),
{
    match output {
        Json::String(s) => s.clone(),
        _ => pretty(output),
    }
}

/// An output as one more thing addressed to the agent that asked.
pub open spec fn output_delivery(child: RunnerId, status: Seq<char>, text: Seq<char>) -> ReportedView {
    ReportedView {
        child,
        item: IncomingView::SubAgent {
            id: ids::hyphenated(child.0),
            part: reports::report_part(child, "workflow"@, status, text),
        },
    }
}

/// What a child's moving means to an agent owed an output by these.
pub open spec fn run_report(outstanding: Set<RunnerId>, m: ChildMsgView) -> Option<ReportedView> {
    match m {
        ChildMsgView::Outcome { child, outcome: ChildOutcomeView::Workflow(o) } => if outstanding.contains(
            child,
        ) {
            Some(
                match o {
                    WorkflowOutcomeView::Finished { output } => output_delivery(
                        child,
                        "completed"@,
                        output_text(output),
                    ),
                    WorkflowOutcomeView::Failed { error } => output_delivery(
                        child,
                        "failed"@,
                        error,
                    ),
                },
            )
        } else {
            None
        },
        ChildMsgView::Failed { child, error } => if outstanding.contains(child) {
            Some(output_delivery(child, "failed"@, error))
        } else {
            None
        },
        _ => None,
    }
}

/// An output as one more thing addressed to the agent that asked.
fn deliver(child: RunnerId, status: &str, text: String) -> (r: Reported)
    ensures
        r.deep_view() == output_delivery(child, status@, text@),
{
    let part = report(child, "workflow".to_owned(), status, text);
    Reported { child, item: Incoming::SubAgent { id: child.text(), part: Box::new(part) } }
}

/// A child moved; `None` for anything this capability is not owed an output by.
///
/// A worker's outcome is never this capability's, even for a child id it holds,
/// and a run is runnable the moment it exists, so being ready says nothing here.
pub fn child(state: &WorkflowState, m: &ChildMsg) -> (r: Option<Reported>)
    ensures
        r.deep_view() == run_report(state.deep_view().outstanding, m.deep_view()),
{
    match m {
        ChildMsg::Outcome { child, outcome: ChildOutcome::Workflow(o) } => {
            if !state.outstanding.contains(*child) {
                return None;
            }
            Some(
                match o {
                    WorkflowOutcome::Finished { output } => deliver(
                        *child,
                        "completed",
                        render(output),
                    ),
                    WorkflowOutcome::Failed { error } => deliver(*child, "failed", error.clone()),
                },
            )
        },
        ChildMsg::Outcome { outcome: ChildOutcome::SubAgent(_), .. } => None,
        ChildMsg::Failed { child, error } => {
            if !state.outstanding.contains(*child) {
                return None;
            }
            Some(deliver(*child, "failed", error.clone()))
        },
        ChildMsg::Ready { .. } => None,
    }
}

/// What `workflow_status` shows the model: only what is still running.
pub open spec fn runs_text(outstanding: Set<RunnerId>) -> Seq<char> {
    let runners = ids::in_order(outstanding);
    if runners.len() == 0 {
        "No workflow runs are in flight."@
    } else {
        text::decimal(runners.len()) + " workflow run(s) in flight:"@ + reports::listed(runners)
    }
}

/// What `workflow_status` shows the model.
pub fn render_status(state: &WorkflowState) -> (r: String)
    ensures
        r@ == runs_text(state.deep_view().outstanding),
        state.deep_view().outstanding.finite(),
{
    let runners = state.outstanding();
    if runners.len() == 0 {
        return "No workflow runs are in flight.".to_owned();
    }
    let mut out = number(runners.len() as u64);
    out.append(" workflow run(s) in flight:");
    out.append(list_runners(&runners).as_str());
    out
}

/// Why a turn's end is not the agent finishing, while these runs are in flight.
pub open spec fn held_by_runs(outstanding: Set<RunnerId>) -> Option<Seq<char>> {
    if outstanding == Set::<RunnerId>::empty() {
        None
    } else {
        Some(text::decimal(ids::in_order(outstanding).len()) + " workflow run(s) still in flight"@)
    }
}

/// Why this turn's end is not the agent finishing, when a run is still in
/// flight.
pub fn holds(state: &WorkflowState) -> (r: Option<String>)
    ensures
        r.deep_view() == held_by_runs(state.deep_view().outstanding),
        state.deep_view().outstanding.finite(),
{
    if !state.holds_conclusion() {
        return None;
    }
    let runners = state.outstanding();
    let mut out = number(runners.len() as u64);
    out.append(" workflow run(s) still in flight");
    Some(out)
}

/// The tools this capability claims.
pub open spec fn workflow_claims() -> Seq<ClaimedToolView> {
    seq![
        claims::tool_claimed(INVOKE_TOOL@, INVOKE_DESCRIPTION@, INVOKE_SCHEMA@, ClaimView::WorkflowInvoke),
        claims::tool_claimed(STATUS_TOOL@, STATUS_DESCRIPTION@, NO_ARGUMENTS@, ClaimView::WorkflowStatus),
    ]
}

impl WorkflowCapability {
    /// What a diagnostic names this capability by.
    pub fn name(&self) -> (r: &'static str)
        ensures
            r@ == "workflow"@,
    {
        "workflow"
    }

    /// The tools this capability claims.
    pub fn claims(&self) -> (r: Vec<ClaimedTool>)
        ensures
            r.deep_view() == workflow_claims(),
    {
        let mut out: Vec<ClaimedTool> = Vec::new();
        out.push(
            ClaimedTool::new(
                INVOKE_TOOL,
                INVOKE_DESCRIPTION.to_owned(),
                INVOKE_SCHEMA,
                Claim::WorkflowInvoke,
            ),
        );
        out.push(
            ClaimedTool::new(
                STATUS_TOOL,
                STATUS_DESCRIPTION.to_owned(),
                NO_ARGUMENTS,
                Claim::WorkflowStatus,
            ),
        );
        proof {
            assert(out.deep_view() =~= workflow_claims());
        }
        out
    }
}

/// The ask on load sends the request the invocation sent: the same call, the
/// same run, the same workflow and input.
pub proof fn law_an_unanswered_run_is_asked_again(
    state: WorkflowStateView,
    call: Seq<char>,
    pending: PendingView,
)
    requires
        state.requested.dom().finite(),
    ensures
        runs_asked_again(state.requested(call, pending).requested).contains(
            run_request(call, pending),
        ),
{
    let map = state.requested(call, pending).requested;
    sorted::law_a_finite_map_is_listed(map);
    let entries = sorted::entries_of(map);
    assert(sorted::map_of(entries).contains_key(call));
    let i = sorted::keys_of(entries).index_of(call);
    sorted::lemma_map_of_entry(entries, i);
    assert(entries[i] == (call, pending));
    assert(runs_asked_again(map)[i] == run_request(call, pending));
}

/// A run the session answered, either way, is not asked for again.
pub proof fn law_an_answered_run_is_not_asked_again(
    state: WorkflowStateView,
    call: Seq<char>,
    request: SessionRequestView,
)
    requires
        state.requested.dom().finite(),
        request.call() == call,
    ensures
        !runs_asked_again(state.started(call).requested).contains(request),
        !runs_asked_again(state.dropped(call).requested).contains(request),
{
    let map = state.requested.remove(call);
    sorted::law_a_finite_map_is_listed(map);
    assert(state.started(call).requested =~= map);
    assert(state.dropped(call).requested =~= map);
    let entries = sorted::entries_of(map);
    assert forall|i: int| 0 <= i < entries.len() implies #[trigger] runs_asked_again(map)[i]
        != request by {
        sorted::lemma_map_of_entry(entries, i);
    }
}

/// A run merely asked for holds nothing; one the session created holds the
/// agent until its output has reached the queue.
pub proof fn law_an_agent_waits_for_the_runs_it_has(
    state: WorkflowStateView,
    call: Seq<char>,
    pending: PendingView,
)
    ensures
        state.requested(call, pending).holds_conclusion() == state.holds_conclusion(),
        state.requested(call, pending).started(call).holds_conclusion(),
        state.outstanding == Set::<RunnerId>::empty() ==> !state.requested(call, pending).started(
            call,
        ).reported(pending.child).holds_conclusion(),
{
    let asked = state.requested(call, pending);
    assert(asked.requested[call] == pending);
    assert(asked.started(call).outstanding.contains(pending.child));
    if state.outstanding == Set::<RunnerId>::empty() {
        assert(asked.started(call).reported(pending.child).outstanding =~= Set::empty());
    }
}

/// One outcome has one owner: no outcome is both a worker's report and a run's
/// output, whichever children the two capabilities hold.
pub proof fn law_an_outcome_has_one_owner(
    workers: Set<RunnerId>,
    runs: Set<RunnerId>,
    m: ChildMsgView,
)
    requires
        m is Outcome,
    ensures
        sub_agent::child_report(workers, m) is None || run_report(runs, m) is None,
{
}

/// An output is delivered once: after it is acknowledged, nothing the same run
/// says is delivered again.
pub proof fn law_an_output_is_delivered_once(state: WorkflowStateView, m: ChildMsgView)
    requires
        run_report(state.outstanding, m) is Some,
    ensures
        ({
            let report = run_report(state.outstanding, m)->Some_0;
            &&& state.outstanding.contains(report.child)
            &&& run_report(state.reported(report.child).outstanding, m) is None
        }),
{
}

/// A run that is invoked asks for the workflow and the input it was given,
/// under the id it was given; arguments that cannot be read are told so.
pub proof fn law_a_run_is_asked_for_as_invoked(req: RequestView, e: Seq<char>, child: RunnerId)
    ensures
        invocation(Err(e), child) == InvokedView::Told(
            "`invoke_workflow` was called with arguments it cannot read: "@ + e,
        ),
        invocation(Ok(req), child) matches InvokedView::Ask { pending, note } && pending.child
            == child && pending.workflow == req.workflow && pending.input == req.input && note
            == "starting workflow "@ + req.workflow,
{
}

/// What the session is asked for is that run: the workflow by its name and its
/// input, under the call that asked.
pub proof fn law_the_session_is_asked_for_that_run(call: Seq<char>, pending: PendingView)
    ensures
        run_request(call, pending) matches SessionRequestView::StartRunner {
            call: c,
            id,
            kind,
            args,
        } && c == call && id == pending.child && kind == RunnerKind::Workflow && args == (
        RunnerArgsView::Workflow {
            source: WorkflowSourceView::Named(pending.workflow),
            input: pending.input,
        }),
{
}

/// Only a reply to a run in flight is news. One that started answers its call
/// with the run's id; one that was refused answers it, as an error, with the
/// reason.
pub proof fn law_a_run_in_flight_is_answered(
    requested: Map<Seq<char>, PendingView>,
    call: Seq<char>,
    reason: Seq<char>,
)
    ensures
        requested.contains_key(call) ==> (run_reply(requested, SessionReplyView::Done { call })
            matches Some(told) && told.call() == call && told.result().tool_call_id == call
            && told.result().output == "Workflow run started: "@ + ids::hyphenated(
            requested[call].child.0,
        ) && !told.result().is_error && told.result().artifacts.len() == 0),
        requested.contains_key(call) ==> (run_reply(
            requested,
            SessionReplyView::Refused { call, reason },
        ) matches Some(told) && told.call() == call && told.result().tool_call_id == call
            && told.result().output == reason && told.result().is_error
            && told.result().artifacts.len() == 0),
        !requested.contains_key(call) ==> run_reply(requested, SessionReplyView::Done { call })
            is None && run_reply(requested, SessionReplyView::Refused { call, reason }) is None,
{
}

/// A run that still owes its output delivers it when it ends: its output when
/// it finished, text as it is, its error when it failed. A run that owes none
/// delivers nothing.
pub proof fn law_a_run_delivers_what_it_came_to(
    outstanding: Set<RunnerId>,
    child: RunnerId,
    text: Seq<char>,
    output: JsonView,
)
    ensures
        ({
            let finished = ChildMsgView::Outcome {
                child,
                outcome: ChildOutcomeView::Workflow(WorkflowOutcomeView::Finished { output }),
            };
            let failed = ChildMsgView::Outcome {
                child,
                outcome: ChildOutcomeView::Workflow(WorkflowOutcomeView::Failed { error: text }),
            };
            let died = ChildMsgView::Failed { child, error: text };
            let bad = IncomingView::SubAgent {
                id: ids::hyphenated(child.0),
                part: reports::report_part(child, "workflow"@, "failed"@, text),
            };
            &&& outstanding.contains(child) ==> (run_report(outstanding, finished) matches Some(r)
                && r.child == child && (r.item matches IncomingView::SubAgent { id, part } && id
                == ids::hyphenated(child.0) && part.subagent_id == ids::hyphenated(child.0) && part.label
                == "workflow"@ && part.status == "completed"@ && (output == JsonView::String(text)
                ==> part.text == text) && (!(output is String) ==> part.text == json::pretty_text(
                output,
            ))))
            &&& outstanding.contains(child) ==> (run_report(outstanding, failed) matches Some(r)
                && r.child == child && r.item == bad)
            &&& outstanding.contains(child) ==> (run_report(outstanding, died) matches Some(r)
                && r.child == child && r.item == bad)
            &&& !outstanding.contains(child) ==> run_report(outstanding, finished) is None
                && run_report(outstanding, failed) is None && run_report(outstanding, died) is None
            &&& run_report(outstanding, ChildMsgView::Ready { child }) is None
        }),
{
}

/// The runs in flight are told by number and listed in the order of their ids;
/// an agent is held by how many there are, and by nothing when there is none.
pub proof fn law_runs_in_flight_are_counted(outstanding: Set<RunnerId>)
    requires
        outstanding.finite(),
    ensures
        outstanding.len() == 0 ==> runs_text(outstanding) == "No workflow runs are in flight."@
            && held_by_runs(outstanding) is None,
        outstanding.len() > 0 ==> runs_text(outstanding) == text::decimal(outstanding.len())
            + " workflow run(s) in flight:"@ + reports::listed(ids::in_order(outstanding)) && held_by_runs(
            outstanding,
        ) == Some(text::decimal(outstanding.len()) + " workflow run(s) still in flight"@),
{
    crate::ids::law_a_finite_set_has_its_order(outstanding);
    if outstanding.len() == 0 {
        assert(outstanding =~= Set::empty());
    }
}

} // verus!
