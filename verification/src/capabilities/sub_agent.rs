//! `spawn_agent` and `subagent_status`: handing work to a worker, and being
//! told how it went.
//!
//! Creating the child is the session's, so a spawn is a request and the model's
//! call is parked on the answer. The child's ids are minted before anything is
//! recorded, so the event that is journaled, the request that is sent and the
//! same request sent again after a crash all name one child.
//!
//! An agent may not conclude while a worker owes it a report: [`holds`] is
//! where that is asked.

use crate::capabilities::{SessionReply, SessionReplyView, SessionRequest, SessionRequestView};
use crate::capabilities::claims::{
    self, Claim, ClaimView, ClaimedTool, ClaimedToolView, NO_ARGUMENTS,
};
use crate::capabilities::reports::{self, list_runners, report};
use crate::ids::{self, AgentId, RunnerId, RunnerKind, RunnerSet};
use crate::inbox::{Incoming, IncomingView};
use crate::model::{SubAgentResultPartView, ToolResultInput, ToolResultInputView};
use crate::runners::{
    AgentCatalog, AgentCatalogView, AgentFacts, AgentFactsView, AgentSettings, AgentSettingsView,
    CatalogAgent, CatalogAgentView, ChildMsg, ChildMsgView, ChildOutcome, ChildOutcomeView,
    MAX_SUBAGENT_DEPTH, RunnerArgs, RunnerArgsView, SubAgentOutcome, SubAgentOutcomeView,
};
use crate::sorted::{self, TextMap};
use crate::text::{self, Dup, join, number, trim};
use vstd::prelude::*;

verus! {

/// The tool that delegates.
pub const SPAWN_TOOL: &'static str = "spawn_agent";

/// The tool that reads back what is still running.
pub const STATUS_TOOL: &'static str = "subagent_status";

/// What `spawn_agent` takes when no agent types are installed.
pub const SPAWN_SCHEMA: &'static str = "{\"properties\":{\"label\":{\"description\":\"A short human-readable label for the subagent (a few words).\",\"type\":\"string\"},\"task\":{\"description\":\"The complete, self-contained task for the subagent. It inherits your model and tools but not your conversation — include everything it needs to know.\",\"type\":\"string\"}},\"required\":[\"label\",\"task\"],\"type\":\"object\"}";

/// What `spawn_agent` takes when agent types are installed.
pub const TYPED_SPAWN_SCHEMA: &'static str = "{\"properties\":{\"agent_type\":{\"description\":\"Name of an installed agent type, from the list above. Omit for a general-purpose subagent that inherits your own instructions and tools.\",\"type\":\"string\"},\"label\":{\"description\":\"A short human-readable label for the subagent (a few words).\",\"type\":\"string\"},\"task\":{\"description\":\"The complete, self-contained task for the subagent. It inherits your model and tools but not your conversation — include everything it needs to know.\",\"type\":\"string\"}},\"required\":[\"label\",\"task\"],\"type\":\"object\"}";

/// What the model is told `spawn_agent` does.
pub const SPAWN_DESCRIPTION: &'static str = "Spawn a subagent to work on a task independently and in parallel. Returns immediately with the subagent's id; its result or failure is automatically delivered back to you as a message. Continue with independent work, or wait if none remains; do not poll subagent_status or call it repeatedly. Spawning fails when the session's subagent limits (depth or concurrency) are reached.";

/// What stands above the installed agent types in that description.
pub const TYPES_HEADER: &'static str = "\n\nInstalled agent types, each with its own instructions, tools and expertise. Pass one as `agent_type` when its description fits the task better than a general-purpose subagent would:\n";

/// What the model is told `subagent_status` does.
pub const STATUS_DESCRIPTION: &'static str = "Inspect subagent status only for a user-requested progress update or to diagnose a suspected result-delivery problem. Do not poll or call this tool repeatedly: terminal results and failures are automatically delivered to you as messages. Lists the subagents you spawned that are still running.";

/// One spawn asked of the session and not yet answered: the whole request,
/// because asking again has to send the same one.
#[derive(Debug, PartialEq, Eq)]
pub struct Pending {
    /// The runner the worker will be.
    pub child: RunnerId,
    /// The worker's own agent.
    pub agent: AgentId,
    pub label: String,
    pub task: String,
    pub agent_type: Option<String>,
}

/// What a [`Pending`] stands for.
#[verifier::ext_equal]
pub struct PendingView {
    pub child: RunnerId,
    pub agent: AgentId,
    pub label: Seq<char>,
    pub task: Seq<char>,
    pub agent_type: Option<Seq<char>>,
}

impl DeepView for Pending {
    type V = PendingView;

    open spec fn deep_view(&self) -> PendingView {
        PendingView {
            child: self.child.deep_view(),
            agent: self.agent.deep_view(),
            label: self.label.deep_view(),
            task: self.task.deep_view(),
            agent_type: self.agent_type.deep_view(),
        }
    }
}

impl Dup for Pending {
    fn dup(&self) -> (out: Self) {
        Pending {
            child: self.child.dup(),
            agent: self.agent.dup(),
            label: self.label.dup(),
            task: self.task.dup(),
            agent_type: self.agent_type.dup(),
        }
    }
}

impl Clone for Pending {
    fn clone(&self) -> (out: Self)
        ensures
            out.deep_view() == self.deep_view(),
    {
        self.dup()
    }
}

/// The workers an agent has in flight.
#[derive(Debug, PartialEq, Eq)]
pub struct SubAgentState {
    requested: TextMap<Pending>,
    outstanding: RunnerSet,
}

/// What a [`SubAgentState`] stands for.
#[verifier::ext_equal]
pub struct SubAgentStateView {
    /// Spawns asked for and not yet answered, by the model's call.
    pub requested: Map<Seq<char>, PendingView>,
    /// Children that exist and still owe a report.
    pub outstanding: Set<RunnerId>,
}

impl DeepView for SubAgentState {
    type V = SubAgentStateView;

    closed spec fn deep_view(&self) -> SubAgentStateView {
        SubAgentStateView { requested: self.requested.map(), outstanding: self.outstanding.set() }
    }
}

impl Dup for SubAgentState {
    fn dup(&self) -> (out: Self) {
        SubAgentState { requested: self.requested.dup(), outstanding: self.outstanding.dup() }
    }
}

impl Clone for SubAgentState {
    fn clone(&self) -> (out: Self)
        ensures
            out.deep_view() == self.deep_view(),
    {
        self.dup()
    }
}

impl SubAgentStateView {
    /// Nothing in flight.
    pub open spec fn idle() -> SubAgentStateView {
        SubAgentStateView { requested: Map::empty(), outstanding: Set::empty() }
    }

    /// Whether a report is still owed.
    pub open spec fn holds_conclusion(self) -> bool {
        self.outstanding != Set::<RunnerId>::empty()
    }

    /// After a spawn was asked of the session.
    pub open spec fn requested(self, call: Seq<char>, pending: PendingView) -> SubAgentStateView {
        SubAgentStateView { requested: self.requested.insert(call, pending), ..self }
    }

    /// After the session created what this call asked for.
    pub open spec fn started(self, call: Seq<char>) -> SubAgentStateView {
        if self.requested.contains_key(call) {
            SubAgentStateView {
                requested: self.requested.remove(call),
                outstanding: self.outstanding.insert(self.requested[call].child),
            }
        } else {
            self
        }
    }

    /// After the session would not create it.
    pub open spec fn dropped(self, call: Seq<char>) -> SubAgentStateView {
        SubAgentStateView { requested: self.requested.remove(call), ..self }
    }

    /// After this child's report reached the queue.
    pub open spec fn reported(self, child: RunnerId) -> SubAgentStateView {
        SubAgentStateView { outstanding: self.outstanding.remove(child), ..self }
    }
}

impl Default for SubAgentState {
    fn default() -> (r: Self)
        ensures
            r.deep_view() == SubAgentStateView::idle(),
    {
        SubAgentState { requested: TextMap::new(), outstanding: RunnerSet::new() }
    }
}

impl SubAgentState {
    /// Whether a report is still owed: an agent may not conclude while one is.
    pub fn holds_conclusion(&self) -> (r: bool)
        ensures
            r == self.deep_view().holds_conclusion(),
    {
        !self.outstanding.is_empty()
    }

    /// A spawn was asked of the session.
    pub fn requested(&mut self, call: String, pending: Pending)
        ensures
            final(self).deep_view() == old(self).deep_view().requested(call@, pending.deep_view()),
    {
        self.requested.insert(call, pending);
    }

    /// The session created it, so a report is now owed.
    pub fn started(&mut self, call: &str)
        ensures
            final(self).deep_view() == old(self).deep_view().started(call@),
    {
        let ghost after = self.deep_view().started(call@);
        match self.requested.remove(call) {
            Some(pending) => {
                self.outstanding.insert(pending.child);
            },
            None => {},
        }
        proof {
            assert(self.deep_view() =~= after);
        }
    }

    /// The session would not create it.
    pub fn dropped(&mut self, call: &str)
        ensures
            final(self).deep_view() == old(self).deep_view().dropped(call@),
    {
        let _ = self.requested.remove(call);
    }

    /// This child's report reached the queue.
    pub fn reported(&mut self, child: RunnerId)
        ensures
            final(self).deep_view() == old(self).deep_view().reported(child),
    {
        self.outstanding.remove(child);
    }

    /// The spawn this call asked for, while the session has not answered it.
    pub fn pending(&self, call: &str) -> (r: Option<&Pending>)
        ensures
            match r {
                Some(p) => self.deep_view().requested.contains_key(call@)
                    && self.deep_view().requested[call@] == p.deep_view(),
                None => !self.deep_view().requested.contains_key(call@),
            },
    {
        self.requested.get(call)
    }

    /// The children that still owe a report, in the order of their ids.
    pub fn outstanding(&self) -> (r: Vec<RunnerId>)
        ensures
            r@ == ids::in_order(self.deep_view().outstanding),
            r@.to_set() == self.deep_view().outstanding,
            self.deep_view().outstanding.finite(),
    {
        let n: usize = self.outstanding.len();
        let ghost all = self.outstanding.deep_view();
        let mut out: Vec<RunnerId> = Vec::new();
        for i in 0..n
            invariant
                n == all.len(),
                all == self.outstanding.deep_view(),
                out@ == all.take(i as int),
        {
            out.push(self.outstanding.at(i));
            proof {
                assert(all.take(i + 1) =~= all.take(i as int).push(all[i as int]));
            }
        }
        proof {
            assert(all.take(n as int) =~= all);
            ids::law_the_order_is_determined(all);
            vstd::seq_lib::seq_to_set_is_finite(all);
        }
        out
    }
}

/// The arguments of `spawn_agent`.
#[derive(Debug, PartialEq, Eq)]
pub struct Request {
    pub label: String,
    pub task: String,
    /// A plugin-declared agent type, or `None` for a worker that inherits its
    /// parent's instructions and tools.
    pub agent_type: Option<String>,
}

/// What a [`Request`] stands for.
#[verifier::ext_equal]
pub struct RequestView {
    pub label: Seq<char>,
    pub task: Seq<char>,
    pub agent_type: Option<Seq<char>>,
}

impl DeepView for Request {
    type V = RequestView;

    open spec fn deep_view(&self) -> RequestView {
        RequestView {
            label: self.label.deep_view(),
            task: self.task.deep_view(),
            agent_type: self.agent_type.deep_view(),
        }
    }
}

impl Dup for Request {
    fn dup(&self) -> (out: Self) {
        Request {
            label: self.label.dup(),
            task: self.task.dup(),
            agent_type: self.agent_type.dup(),
        }
    }
}

impl Clone for Request {
    fn clone(&self) -> (out: Self)
        ensures
            out.deep_view() == self.deep_view(),
    {
        self.dup()
    }
}

/// What a call to `spawn_agent` came to.
#[derive(Debug, PartialEq, Eq)]
pub enum Spawned {
    /// Told why, in words, and the run carries on. Journals nothing.
    Told(String),
    /// Journal the request, put it to the session, and park the call on it.
    Ask { pending: Pending, note: String },
}

/// What a [`Spawned`] stands for.
#[verifier::ext_equal]
pub enum SpawnedView {
    Told(Seq<char>),
    Ask { pending: PendingView, note: Seq<char> },
}

impl DeepView for Spawned {
    type V = SpawnedView;

    open spec fn deep_view(&self) -> SpawnedView {
        match self {
            Spawned::Told(a) => SpawnedView::Told(a.deep_view()),
            Spawned::Ask { pending, note } => SpawnedView::Ask {
                pending: pending.deep_view(),
                note: note.deep_view(),
            },
        }
    }
}

impl Dup for Spawned {
    fn dup(&self) -> (out: Self) {
        match self {
            Spawned::Told(a) => Spawned::Told(a.dup()),
            Spawned::Ask { pending, note } => Spawned::Ask {
                pending: pending.dup(),
                note: note.dup(),
            },
        }
    }
}

impl Clone for Spawned {
    fn clone(&self) -> (out: Self)
        ensures
            out.deep_view() == self.deep_view(),
    {
        self.dup()
    }
}

/// One agent's delegated work.
#[derive(Debug, PartialEq, Eq)]
pub struct SubAgentCapability {
    /// What children inherit, fixed when this agent was equipped.
    pub child_settings: AgentSettings,
    /// How deep the agent holding this already sits.
    pub depth: u32,
}

/// What a [`SubAgentCapability`] stands for.
#[verifier::ext_equal]
pub struct SubAgentCapabilityView {
    pub child_settings: AgentSettingsView,
    pub depth: u32,
}

impl DeepView for SubAgentCapability {
    type V = SubAgentCapabilityView;

    open spec fn deep_view(&self) -> SubAgentCapabilityView {
        SubAgentCapabilityView {
            child_settings: self.child_settings.deep_view(),
            depth: self.depth.deep_view(),
        }
    }
}

impl Dup for SubAgentCapability {
    fn dup(&self) -> (out: Self) {
        SubAgentCapability {
            child_settings: self.child_settings.dup(),
            depth: self.depth.dup(),
        }
    }
}

impl Clone for SubAgentCapability {
    fn clone(&self) -> (out: Self)
        ensures
            out.deep_view() == self.deep_view(),
    {
        self.dup()
    }
}

/// A requested agent type, checked against the catalogue that was advertised:
/// an omitted or blank one is the general-purpose worker.
pub open spec fn resolved_type(
    requested: Option<Seq<char>>,
    catalog: Option<AgentCatalogView>,
) -> Result<Option<Seq<char>>, Seq<char>> {
    match requested {
        None => Ok(None),
        Some(text) => {
            let name = text::trimmed(text);
            if name.len() == 0 {
                Ok(None)
            } else {
                match catalog {
                    Some(c) if c.get(name) is Some => Ok(Some(name)),
                    Some(c) if c.agents.len() > 0 => Err(
                        "no agent type '"@ + name + "'; installed types are "@ + text::joined(
                            c.names(),
                            ", "@,
                        ),
                    ),
                    _ => Err(
                        "no agent type '"@ + name
                            + "': this session has no agent types installed"@,
                    ),
                }
            }
        },
    }
}

/// What a spawn by an agent at this depth comes to, with these ids for the
/// child.
pub open spec fn spawn_decision(
    depth: u32,
    request: Result<RequestView, Seq<char>>,
    catalog: Option<AgentCatalogView>,
    child: RunnerId,
    agent: AgentId,
) -> SpawnedView {
    match request {
        Err(e) => SpawnedView::Told(
            "`spawn_agent` was called with arguments it cannot read: "@ + e,
        ),
        Ok(req) => if depth >= MAX_SUBAGENT_DEPTH {
            SpawnedView::Told("max subagent depth 4 reached"@)
        } else {
            match resolved_type(req.agent_type, catalog) {
                Err(reason) => SpawnedView::Told(reason),
                Ok(agent_type) => SpawnedView::Ask {
                    pending: PendingView {
                        child,
                        agent,
                        label: req.label,
                        task: req.task,
                        agent_type,
                    },
                    note: "spawning subagent "@ + req.label,
                },
            }
        },
    }
}

/// A requested agent type, checked against the catalogue that was advertised.
///
/// The error is the model's to read, so it names what does exist.
pub fn resolve_type(requested: &Option<String>, catalog: &Option<AgentCatalog>) -> (r: Result<
    Option<String>,
    String,
>)
    ensures
        text::attempt(r) == resolved_type(requested.deep_view(), catalog.deep_view()),
{
    let name = match requested {
        None => {
            return Ok(None);
        },
        Some(text) => trim(text.as_str()),
    };
    if name.is_empty() {
        return Ok(None);
    }
    if let Some(c) = catalog {
        if let Some(_) = c.get(name) {
            return Ok(Some(name.to_owned()));
        }
        if c.agents.len() > 0 {
            let mut out = "no agent type '".to_owned();
            out.append(name);
            out.append("'; installed types are ");
            let names = c.names();
            out.append(join(&names, ", ").as_str());
            return Err(out);
        }
    }
    let mut out = "no agent type '".to_owned();
    out.append(name);
    out.append("': this session has no agent types installed");
    Err(out)
}

/// The request a pending spawn names.
pub open spec fn spawn_request(
    settings: AgentSettingsView,
    call: Seq<char>,
    pending: PendingView,
) -> SessionRequestView {
    SessionRequestView::StartRunner {
        call,
        id: pending.child,
        kind: RunnerKind::SubAgent,
        args: RunnerArgsView::SubAgent {
            agent: pending.agent,
            label: pending.label,
            task: pending.task,
            agent_type: pending.agent_type,
            settings,
        },
    }
}

impl SubAgentCapability {
    pub fn new(child_settings: AgentSettings, depth: u32) -> (r: Self)
        ensures
            r.child_settings == child_settings,
            r.depth == depth,
    {
        SubAgentCapability { child_settings, depth }
    }

    /// What a diagnostic names this capability by.
    pub fn name(&self) -> (r: &'static str)
        ensures
            r@ == "sub_agent"@,
    {
        "sub_agent"
    }

    /// The model called `spawn_agent`, and these are the child's ids should it
    /// be asked for.
    ///
    /// Every answer to the name is this capability's: a call it cannot read and
    /// a call over budget are both answered in words.
    pub fn spawned_with(
        &self,
        request: Result<Request, String>,
        catalog: &Option<AgentCatalog>,
        child: RunnerId,
        agent: AgentId,
    ) -> (r: Spawned)
        ensures
            r.deep_view() == spawn_decision(
                self.depth,
                text::attempt(request),
                catalog.deep_view(),
                child,
                agent,
            ),
    {
        let req = match request {
            Ok(req) => req,
            Err(e) => {
                let mut out = "`spawn_agent` was called with arguments it cannot read: ".to_owned();
                out.append(e.as_str());
                return Spawned::Told(out);
            },
        };
        if self.depth >= MAX_SUBAGENT_DEPTH {
            return Spawned::Told("max subagent depth 4 reached".to_owned());
        }
        let agent_type = match resolve_type(&req.agent_type, catalog) {
            Ok(resolved) => resolved,
            Err(reason) => {
                return Spawned::Told(reason);
            },
        };
        let mut note = "spawning subagent ".to_owned();
        note.append(req.label.as_str());
        let pending = Pending { child, agent, label: req.label, task: req.task, agent_type };
        Spawned::Ask { pending, note }
    }

    /// The model called `spawn_agent`.
    ///
    /// Both ids are minted here rather than in the fold: a decision may be
    /// non-deterministic, a fold may not.
    pub fn spawned(&self, request: Result<Request, String>, catalog: &Option<AgentCatalog>) -> (r:
        Spawned)
        ensures
            exists|child: RunnerId, agent: AgentId|
                ids::is_version_4(child.0) && ids::is_version_4(agent.0) && r.deep_view()
                    == #[trigger] spawn_decision(
                    self.depth,
                    text::attempt(request),
                    catalog.deep_view(),
                    child,
                    agent,
                ),
    {
        let child = RunnerId::new_v4();
        let agent = AgentId::new_v4();
        self.spawned_with(request, catalog, child, agent)
    }

    /// The request a pending spawn names. The spawn and the ask on load both
    /// use it, because the second has to send exactly what the first sent.
    pub fn request(&self, call: &str, pending: &Pending) -> (r: SessionRequest)
        ensures
            r.deep_view() == spawn_request(
                self.child_settings.deep_view(),
                call@,
                pending.deep_view(),
            ),
    {
        SessionRequest::StartRunner {
            call: call.to_owned(),
            id: pending.child,
            kind: RunnerKind::SubAgent,
            args: Box::new(
                RunnerArgs::SubAgent {
                    agent: pending.agent,
                    label: pending.label.clone(),
                    task: pending.task.clone(),
                    agent_type: pending.agent_type.dup(),
                    settings: Box::new(self.child_settings.dup()),
                },
            ),
        }
    }

    /// Everything asked for and never answered, asked again, in the order of
    /// the calls.
    pub fn reloaded(&self, state: &SubAgentState) -> (r: Vec<SessionRequest>)
        ensures
            r.deep_view() == asked_again(
                self.child_settings.deep_view(),
                state.deep_view().requested,
            ),
            state.deep_view().requested.dom().finite(),
    {
        let n: usize = state.requested.len();
        let ghost entries = state.requested.deep_view();
        let ghost settings = self.child_settings.deep_view();
        let ghost all = entries.map_values(
            |e: (Seq<char>, PendingView)| spawn_request(settings, e.0, e.1),
        );
        let mut out: Vec<SessionRequest> = Vec::new();
        for i in 0..n
            invariant
                n == entries.len(),
                entries == state.requested.deep_view(),
                settings == self.child_settings.deep_view(),
                all == entries.map_values(
                    |e: (Seq<char>, PendingView)| spawn_request(settings, e.0, e.1),
                ),
                out.deep_view() == all.take(i as int),
        {
            let ghost had = out.deep_view();
            let (call, pending) = state.requested.at(i);
            out.push(self.request(call, pending));
            proof {
                assert(out.deep_view() =~= had.push(all[i as int]));
                assert(all.take(i + 1) =~= all.take(i as int).push(all[i as int]));
            }
        }
        proof {
            assert(all.take(n as int) =~= all);
            sorted::law_entries_are_determined(entries);
            sorted::lemma_entries_are_finite(entries);
        }
        out
    }
}

/// Every spawn asked for and never answered, asked again.
pub open spec fn asked_again(
    settings: AgentSettingsView,
    requested: Map<Seq<char>, PendingView>,
) -> Seq<SessionRequestView> {
    sorted::entries_of(requested).map_values(
        |e: (Seq<char>, PendingView)| spawn_request(settings, e.0, e.1),
    )
}

/// The lines the installed agent types are listed by.
pub open spec fn type_lines(agents: Seq<CatalogAgentView>) -> Seq<Seq<char>> {
    agents.map_values(|a: CatalogAgentView| "- "@ + a.name + ": "@ + a.description)
}

/// The tools this capability claims. A budget the model can only ever be
/// refused by claims nothing, and the parameter for an agent type is there only
/// when there is a type to name.
pub open spec fn spawn_claims(cap: SubAgentCapabilityView, facts: AgentFactsView) -> Seq<
    ClaimedToolView,
> {
    if cap.child_settings.max_subagents() == 0 || cap.depth >= MAX_SUBAGENT_DEPTH {
        seq![]
    } else {
        let status = claims::tool_claimed(
            STATUS_TOOL@,
            STATUS_DESCRIPTION@,
            NO_ARGUMENTS@,
            ClaimView::SubAgentStatus,
        );
        match facts.agents {
            Some(c) if c.agents.len() > 0 => seq![
                claims::tool_claimed(
                    SPAWN_TOOL@,
                    SPAWN_DESCRIPTION@ + TYPES_HEADER@ + text::joined(type_lines(c.agents), "\n"@),
                    TYPED_SPAWN_SCHEMA@,
                    ClaimView::SubAgentSpawn(facts.agents),
                ),
                status,
            ],
            _ => seq![
                claims::tool_claimed(
                    SPAWN_TOOL@,
                    SPAWN_DESCRIPTION@,
                    SPAWN_SCHEMA@,
                    ClaimView::SubAgentSpawn(facts.agents),
                ),
                status,
            ],
        }
    }
}

/// The lines the installed agent types are listed by.
fn lines_of(agents: &[CatalogAgent]) -> (r: Vec<String>)
    ensures
        r.deep_view() == type_lines(agents.deep_view()),
{
    let ghost all = type_lines(agents.deep_view());
    let mut out: Vec<String> = Vec::new();
    for i in 0..agents.len()
        invariant
            all == type_lines(agents.deep_view()),
            out.deep_view() == all.take(i as int),
    {
        let ghost had = out.deep_view();
        let mut line = "- ".to_owned();
        line.append(agents[i].name.as_str());
        line.append(": ");
        line.append(agents[i].description.as_str());
        out.push(line);
        proof {
            assert(agents.deep_view()[i as int] == agents@[i as int].deep_view());
            assert(out.deep_view() =~= had.push(all[i as int]));
            assert(all.take(i + 1) =~= all.take(i as int).push(all[i as int]));
        }
    }
    proof {
        assert(all.take(agents.len() as int) =~= all);
    }
    out
}

impl SubAgentCapability {
    /// The tools this capability claims, given what loading the agent found.
    pub fn claims(&self, facts: &AgentFacts) -> (r: Vec<ClaimedTool>)
        ensures
            r.deep_view() == spawn_claims(self.deep_view(), facts.deep_view()),
    {
        let mut out: Vec<ClaimedTool> = Vec::new();
        if self.child_settings.max_subagents() == 0 || self.depth >= MAX_SUBAGENT_DEPTH {
            proof {
                assert(out.deep_view() =~= seq![]);
            }
            return out;
        }
        let mut description = SPAWN_DESCRIPTION.to_owned();
        let mut schema = SPAWN_SCHEMA;
        if let Some(c) = &facts.agents {
            if c.agents.len() > 0 {
                description.append(TYPES_HEADER);
                let lines = lines_of(&c.agents);
                description.append(join(&lines, "\n").as_str());
                schema = TYPED_SPAWN_SCHEMA;
            }
        }
        out.push(
            ClaimedTool::new(
                SPAWN_TOOL,
                description,
                schema,
                Claim::SubAgentSpawn(facts.agents.dup()),
            ),
        );
        out.push(
            ClaimedTool::new(
                STATUS_TOOL,
                STATUS_DESCRIPTION.to_owned(),
                NO_ARGUMENTS,
                Claim::SubAgentStatus,
            ),
        );
        proof {
            assert(out.deep_view() =~= spawn_claims(self.deep_view(), facts.deep_view()));
        }
        out
    }
}

/// What the session said about a spawn this agent asked for.
#[derive(Debug, PartialEq, Eq)]
pub enum Child {
    Started { call: String, child: RunnerId },
    Dropped { call: String, reason: String },
}

/// What a [`Child`] stands for.
#[verifier::ext_equal]
pub enum ChildView {
    Started { call: Seq<char>, child: RunnerId },
    Dropped { call: Seq<char>, reason: Seq<char> },
}

impl DeepView for Child {
    type V = ChildView;

    open spec fn deep_view(&self) -> ChildView {
        match self {
            Child::Started { call, child } => ChildView::Started {
                call: call.deep_view(),
                child: child.deep_view(),
            },
            Child::Dropped { call, reason } => ChildView::Dropped {
                call: call.deep_view(),
                reason: reason.deep_view(),
            },
        }
    }
}

impl Dup for Child {
    fn dup(&self) -> (out: Self) {
        match self {
            Child::Started { call, child } => Child::Started {
                call: call.dup(),
                child: child.dup(),
            },
            Child::Dropped { call, reason } => Child::Dropped {
                call: call.dup(),
                reason: reason.dup(),
            },
        }
    }
}

impl Clone for Child {
    fn clone(&self) -> (out: Self)
        ensures
            out.deep_view() == self.deep_view(),
    {
        self.dup()
    }
}

impl ChildView {
    /// The parked call this answers.
    pub open spec fn call(self) -> Seq<char> {
        match self {
            ChildView::Started { call, .. } => call,
            ChildView::Dropped { call, .. } => call,
        }
    }

    /// The parked call's result.
    pub open spec fn result(self) -> ToolResultInputView {
        match self {
            ChildView::Started { call, child } => ToolResultInputView {
                tool_call_id: call,
                output: "Subagent spawned: "@ + ids::hyphenated(child.0),
                is_error: false,
                artifacts: seq![],
            },
            ChildView::Dropped { call, reason } => ToolResultInputView {
                tool_call_id: call,
                output: reason,
                is_error: true,
                artifacts: seq![],
            },
        }
    }
}

impl Child {
    /// The parked call this answers.
    pub fn call(&self) -> (r: &str)
        ensures
            r@ == self.deep_view().call(),
    {
        match self {
            Child::Started { call, .. } => call.as_str(),
            Child::Dropped { call, .. } => call.as_str(),
        }
    }

    /// The parked call's result. A refusal comes back as that result, with
    /// `is_error` set, because one the model cannot see is a call that never
    /// returns.
    pub fn result(&self) -> (r: ToolResultInput)
        ensures
            r.deep_view() == self.deep_view().result(),
    {
        let (output, is_error) = match self {
            Child::Started { child, .. } => {
                let mut out = "Subagent spawned: ".to_owned();
                out.append(child.text().as_str());
                (out, false)
            },
            Child::Dropped { reason, .. } => (reason.clone(), true),
        };
        let r = ToolResultInput {
            tool_call_id: self.call().to_owned(),
            output,
            is_error,
            artifacts: Vec::new(),
        };
        proof {
            assert(r.artifacts.deep_view() =~= seq![]);
        }
        r
    }
}

/// What a reply says about a spawn, if it answers one of these.
pub open spec fn spawn_reply(
    requested: Map<Seq<char>, PendingView>,
    reply: SessionReplyView,
) -> Option<ChildView> {
    if requested.contains_key(reply.call()) {
        Some(
            match reply {
                SessionReplyView::Done { call } => ChildView::Started {
                    call,
                    child: requested[call].child,
                },
                SessionReplyView::Refused { call, reason } => ChildView::Dropped { call, reason },
            },
        )
    } else {
        None
    }
}

/// The session answered a spawn this capability asked for; `None` when the
/// reply answers something else.
pub fn replied(state: &SubAgentState, reply: &SessionReply) -> (r: Option<Child>)
    ensures
        r.deep_view() == spawn_reply(state.deep_view().requested, reply.deep_view()),
{
    match state.requested.get(reply.call()) {
        None => None,
        Some(pending) => Some(
            match reply {
                SessionReply::Done { call } => Child::Started {
                    call: call.clone(),
                    child: pending.child,
                },
                SessionReply::Refused { call, reason } => Child::Dropped {
                    call: call.clone(),
                    reason: reason.clone(),
                },
            },
        ),
    }
}

/// A child reported, and this is what its report becomes in the queue.
#[derive(Debug, PartialEq, Eq)]
pub struct Reported {
    pub child: RunnerId,
    pub item: Incoming,
}

/// What a [`Reported`] stands for.
#[verifier::ext_equal]
pub struct ReportedView {
    pub child: RunnerId,
    pub item: IncomingView,
}

impl DeepView for Reported {
    type V = ReportedView;

    open spec fn deep_view(&self) -> ReportedView {
        ReportedView {
            child: self.child.deep_view(),
            item: self.item.deep_view(),
        }
    }
}

impl Dup for Reported {
    fn dup(&self) -> (out: Self) {
        Reported {
            child: self.child.dup(),
            item: self.item.dup(),
        }
    }
}

impl Clone for Reported {
    fn clone(&self) -> (out: Self)
        ensures
            out.deep_view() == self.deep_view(),
    {
        self.dup()
    }
}

/// A report as one more thing addressed to the agent that asked.
pub open spec fn delivery(child: RunnerId, part: SubAgentResultPartView) -> ReportedView {
    ReportedView { child, item: IncomingView::SubAgent { id: ids::hyphenated(child.0), part } }
}

/// What a child's moving means to an agent owed a report by these.
pub open spec fn child_report(outstanding: Set<RunnerId>, m: ChildMsgView) -> Option<
    ReportedView,
> {
    match m {
        ChildMsgView::Outcome { child, outcome: ChildOutcomeView::SubAgent(o) } => if outstanding.contains(
            child,
        ) {
            Some(
                delivery(
                    child,
                    match o {
                        SubAgentOutcomeView::Completed { label, report } => reports::report_part(
                            child,
                            label,
                            "completed"@,
                            report,
                        ),
                        SubAgentOutcomeView::Failed { label, error } => reports::report_part(
                            child,
                            label,
                            "failed"@,
                            error,
                        ),
                    },
                ),
            )
        } else {
            None
        },
        ChildMsgView::Failed { child, error } => if outstanding.contains(child) {
            Some(delivery(child, reports::report_part(child, ids::hyphenated(child.0), "failed"@, error)))
        } else {
            None
        },
        _ => None,
    }
}

/// A report as one more thing addressed to the agent that asked.
fn deliver(child: RunnerId, label: String, status: &str, text: String) -> (r: Reported)
    ensures
        r.deep_view() == delivery(child, reports::report_part(child, label@, status@, text@)),
{
    let part = report(child, label, status, text);
    Reported { child, item: Incoming::SubAgent { id: child.text(), part: Box::new(part) } }
}

/// A child moved; `None` for anything this capability is not owed a report by.
///
/// A workflow's outcome is never this capability's, even for a child id it
/// holds, and a worker is runnable the moment it exists, so being ready says
/// nothing here.
pub fn child(state: &SubAgentState, m: &ChildMsg) -> (r: Option<Reported>)
    ensures
        r.deep_view() == child_report(state.deep_view().outstanding, m.deep_view()),
{
    match m {
        ChildMsg::Outcome { child, outcome: ChildOutcome::SubAgent(o) } => {
            if !state.outstanding.contains(*child) {
                return None;
            }
            Some(
                match o {
                    SubAgentOutcome::Completed { label, report } => deliver(
                        *child,
                        label.clone(),
                        "completed",
                        report.clone(),
                    ),
                    SubAgentOutcome::Failed { label, error } => deliver(
                        *child,
                        label.clone(),
                        "failed",
                        error.clone(),
                    ),
                },
            )
        },
        ChildMsg::Outcome { outcome: ChildOutcome::Workflow(_), .. } => None,
        ChildMsg::Failed { child, error } => {
            if !state.outstanding.contains(*child) {
                return None;
            }
            Some(deliver(*child, child.text(), "failed", error.clone()))
        },
        ChildMsg::Ready { .. } => None,
    }
}

/// What `subagent_status` shows the model: only what is still running.
pub open spec fn status_text(outstanding: Set<RunnerId>) -> Seq<char> {
    let runners = ids::in_order(outstanding);
    if runners.len() == 0 {
        "No subagents are running."@
    } else {
        text::decimal(runners.len()) + " subagent(s) running:"@ + reports::listed(runners)
    }
}

/// What `subagent_status` shows the model.
pub fn render_status(state: &SubAgentState) -> (r: String)
    ensures
        r@ == status_text(state.deep_view().outstanding),
        state.deep_view().outstanding.finite(),
{
    let runners = state.outstanding();
    if runners.len() == 0 {
        return "No subagents are running.".to_owned();
    }
    let mut out = number(runners.len() as u64);
    out.append(" subagent(s) running:");
    out.append(list_runners(&runners).as_str());
    out
}

/// Why a turn's end is not the agent finishing, while these reports are owed.
pub open spec fn held_by_workers(outstanding: Set<RunnerId>) -> Option<Seq<char>> {
    if outstanding == Set::<RunnerId>::empty() {
        None
    } else {
        Some(text::decimal(ids::in_order(outstanding).len()) + " subagent(s) still owe a report"@)
    }
}

/// Why this turn's end is not the agent finishing, when a report is still owed.
pub fn holds(state: &SubAgentState) -> (r: Option<String>)
    ensures
        r.deep_view() == held_by_workers(state.deep_view().outstanding),
        state.deep_view().outstanding.finite(),
{
    if !state.holds_conclusion() {
        return None;
    }
    let runners = state.outstanding();
    let mut out = number(runners.len() as u64);
    out.append(" subagent(s) still owe a report");
    Some(out)
}

/// The ask on load sends the request the spawn sent: the same call, the same
/// child, the same worker.
pub proof fn law_an_unanswered_spawn_is_asked_again(
    settings: AgentSettingsView,
    state: SubAgentStateView,
    call: Seq<char>,
    pending: PendingView,
)
    requires
        state.requested.dom().finite(),
    ensures
        asked_again(settings, state.requested(call, pending).requested).contains(
            spawn_request(settings, call, pending),
        ),
{
    let map = state.requested(call, pending).requested;
    sorted::law_a_finite_map_is_listed(map);
    let entries = sorted::entries_of(map);
    assert(sorted::map_of(entries).contains_key(call));
    let i = sorted::keys_of(entries).index_of(call);
    sorted::lemma_map_of_entry(entries, i);
    assert(entries[i] == (call, pending));
    assert(asked_again(settings, map)[i] == spawn_request(settings, call, pending));
}

/// A spawn the session answered, either way, is not asked for again.
pub proof fn law_an_answered_spawn_is_not_asked_again(
    settings: AgentSettingsView,
    state: SubAgentStateView,
    call: Seq<char>,
    request: SessionRequestView,
)
    requires
        state.requested.dom().finite(),
        request.call() == call,
    ensures
        !asked_again(settings, state.started(call).requested).contains(request),
        !asked_again(settings, state.dropped(call).requested).contains(request),
{
    let map = state.requested.remove(call);
    sorted::law_a_finite_map_is_listed(map);
    assert(state.started(call).requested =~= map);
    assert(state.dropped(call).requested =~= map);
    let entries = sorted::entries_of(map);
    assert forall|i: int| 0 <= i < entries.len() implies #[trigger] asked_again(settings, map)[i]
        != request by {
        sorted::lemma_map_of_entry(entries, i);
    }
}

/// A worker merely asked for holds nothing; one the session created holds the
/// agent until it has reported.
pub proof fn law_an_agent_waits_for_the_workers_it_has(
    state: SubAgentStateView,
    call: Seq<char>,
    pending: PendingView,
)
    ensures
        state.requested(call, pending).holds_conclusion() == state.holds_conclusion(),
        state.requested(call, pending).started(call).holds_conclusion(),
        state.outstanding == Set::<RunnerId>::empty() ==> !state.requested(call, pending).started(
            call,
        ).reported(pending.child).holds_conclusion(),
{
    let asked = state.requested(call, pending);
    assert(asked.requested[call] == pending);
    assert(asked.started(call).outstanding.contains(pending.child));
    if state.outstanding == Set::<RunnerId>::empty() {
        assert(asked.started(call).reported(pending.child).outstanding =~= Set::empty());
    }
}

/// What the model is told of a spawn is the child that then owes a report.
pub proof fn law_the_child_named_is_the_child_outstanding(
    state: SubAgentStateView,
    reply: SessionReplyView,
)
    requires
        reply is Done,
        state.requested.contains_key(reply.call()),
    ensures
        ({
            let told = spawn_reply(state.requested, reply)->Some_0;
            &&& told is Started
            &&& told.result().output == "Subagent spawned: "@ + ids::hyphenated(told->child.0)
            &&& state.started(reply.call()).outstanding.contains(told->child)
        }),
{
}

/// A report is delivered once: after it is acknowledged, nothing the same
/// child says is delivered again.
pub proof fn law_a_report_is_delivered_once(state: SubAgentStateView, m: ChildMsgView)
    requires
        child_report(state.outstanding, m) is Some,
    ensures
        ({
            let report = child_report(state.outstanding, m)->Some_0;
            &&& state.outstanding.contains(report.child)
            &&& child_report(state.reported(report.child).outstanding, m) is None
        }),
{
}

/// A type that is asked for is taken without the white space around it, when
/// it is installed; asking for none, or for nothing but white space, is a
/// worker of no type. One that is not installed is refused by its name, with
/// the names that are.
pub proof fn law_a_type_asked_for_is_an_installed_one(
    text: Seq<char>,
    catalog: Option<AgentCatalogView>,
)
    ensures
        ({
            let name = text::trimmed(text);
            let r = resolved_type(Some(text), catalog);
            &&& resolved_type(None, catalog) == Ok::<Option<Seq<char>>, Seq<char>>(None)
            &&& name.len() == 0 ==> r == Ok::<Option<Seq<char>>, Seq<char>>(None)
            &&& name.len() > 0 ==> (catalog matches Some(c) ==> (c.get(name) is Some ==> r == Ok::<
                Option<Seq<char>>,
                Seq<char>,
            >(Some(name))) && (c.get(name) is None && c.agents.len() > 0 ==> r == Err::<
                Option<Seq<char>>,
                Seq<char>,
            >("no agent type '"@ + name + "'; installed types are "@ + text::joined(c.names(), ", "@)))
                && (c.get(name) is None && c.agents.len() == 0 ==> r == Err::<
                Option<Seq<char>>,
                Seq<char>,
            >("no agent type '"@ + name + "': this session has no agent types installed"@)))
            &&& name.len() > 0 && catalog is None ==> r == Err::<Option<Seq<char>>, Seq<char>>(
                "no agent type '"@ + name + "': this session has no agent types installed"@,
            )
        }),
{
}

/// A spawn that can be made asks for a worker with the label and the task it
/// was given, of the type it was resolved to, under the ids it was given. Four
/// deep no worker is spawned; the model is told why one was not.
pub proof fn law_a_spawn_asks_for_the_worker_described(
    depth: u32,
    req: RequestView,
    e: Seq<char>,
    catalog: Option<AgentCatalogView>,
    child: RunnerId,
    agent: AgentId,
)
    ensures
        spawn_decision(depth, Err(e), catalog, child, agent) == SpawnedView::Told(
            "`spawn_agent` was called with arguments it cannot read: "@ + e,
        ),
        depth >= 4 ==> spawn_decision(depth, Ok(req), catalog, child, agent) == SpawnedView::Told(
            "max subagent depth 4 reached"@,
        ),
        depth < 4 ==> match resolved_type(req.agent_type, catalog) {
            Err(reason) => spawn_decision(depth, Ok(req), catalog, child, agent)
                == SpawnedView::Told(reason),
            Ok(agent_type) => spawn_decision(depth, Ok(req), catalog, child, agent) matches
                SpawnedView::Ask { pending, note } && pending.child == child && pending.agent
                == agent && pending.label == req.label && pending.task == req.task
                && pending.agent_type == agent_type && note == "spawning subagent "@ + req.label,
        },
{
}

/// What the session is asked for is the worker that was decided on, under the
/// call that asked and with the settings children inherit.
pub proof fn law_the_session_is_asked_for_that_worker(
    settings: AgentSettingsView,
    call: Seq<char>,
    pending: PendingView,
)
    ensures
        spawn_request(settings, call, pending) matches SessionRequestView::StartRunner {
            call: c,
            id,
            kind,
            args,
        } && c == call && id == pending.child && kind == RunnerKind::SubAgent && args == (
        RunnerArgsView::SubAgent {
            agent: pending.agent,
            label: pending.label,
            task: pending.task,
            agent_type: pending.agent_type,
            settings,
        }),
{
}

/// Only a reply to a spawn in flight is news. One that started answers its
/// call with the worker's id; one that was refused answers it, as an error,
/// with the reason.
pub proof fn law_a_spawn_in_flight_is_answered(
    requested: Map<Seq<char>, PendingView>,
    call: Seq<char>,
    reason: Seq<char>,
)
    ensures
        requested.contains_key(call) ==> (spawn_reply(requested, SessionReplyView::Done { call })
            matches Some(told) && told.call() == call && told.result().tool_call_id == call
            && told.result().output == "Subagent spawned: "@ + ids::hyphenated(requested[call].child.0)
            && !told.result().is_error && told.result().artifacts.len() == 0),
        requested.contains_key(call) ==> (spawn_reply(
            requested,
            SessionReplyView::Refused { call, reason },
        ) matches Some(told) && told.call() == call && told.result().tool_call_id == call
            && told.result().output == reason && told.result().is_error
            && told.result().artifacts.len() == 0),
        !requested.contains_key(call) ==> spawn_reply(requested, SessionReplyView::Done { call })
            is None && spawn_reply(requested, SessionReplyView::Refused { call, reason }) is None,
{
}

/// A worker that still owes a report delivers it when it ends: what it said
/// when it completed, its error when it failed, under its id. A worker that
/// owes none delivers nothing.
pub proof fn law_a_worker_reports_what_it_came_to(
    outstanding: Set<RunnerId>,
    child: RunnerId,
    label: Seq<char>,
    text: Seq<char>,
)
    ensures
        ({
            let completed = ChildMsgView::Outcome {
                child,
                outcome: ChildOutcomeView::SubAgent(
                    SubAgentOutcomeView::Completed { label, report: text },
                ),
            };
            let failed = ChildMsgView::Outcome {
                child,
                outcome: ChildOutcomeView::SubAgent(
                    SubAgentOutcomeView::Failed { label, error: text },
                ),
            };
            let died = ChildMsgView::Failed { child, error: text };
            &&& outstanding.contains(child) ==> (child_report(outstanding, completed) matches Some(
                r,
            ) && r.child == child && r.item == (IncomingView::SubAgent {
                id: ids::hyphenated(child.0),
                part: reports::report_part(child, label, "completed"@, text),
            }))
            &&& outstanding.contains(child) ==> (child_report(outstanding, failed) matches Some(r)
                && r.child == child && r.item == (IncomingView::SubAgent {
                id: ids::hyphenated(child.0),
                part: reports::report_part(child, label, "failed"@, text),
            }))
            &&& outstanding.contains(child) ==> (child_report(outstanding, died) matches Some(r)
                && r.child == child && r.item == (IncomingView::SubAgent {
                id: ids::hyphenated(child.0),
                part: reports::report_part(child, ids::hyphenated(child.0), "failed"@, text),
            }))
            &&& !outstanding.contains(child) ==> child_report(outstanding, completed) is None
                && child_report(outstanding, failed) is None && child_report(outstanding, died)
                is None
            &&& child_report(outstanding, ChildMsgView::Ready { child }) is None
        }),
{
}

/// The workers that run are told by number and listed in the order of their
/// ids; an agent is held by how many still owe a report, and by nothing when
/// none does.
pub proof fn law_running_workers_are_counted(outstanding: Set<RunnerId>)
    requires
        outstanding.finite(),
    ensures
        outstanding.len() == 0 ==> status_text(outstanding) == "No subagents are running."@
            && held_by_workers(outstanding) is None,
        outstanding.len() > 0 ==> status_text(outstanding) == text::decimal(outstanding.len())
            + " subagent(s) running:"@ + reports::listed(ids::in_order(outstanding)) && held_by_workers(
            outstanding,
        ) == Some(text::decimal(outstanding.len()) + " subagent(s) still owe a report"@),
{
    crate::ids::law_a_finite_set_has_its_order(outstanding);
    if outstanding.len() == 0 {
        assert(outstanding =~= Set::empty());
    }
}

/// An agent that may spawn is shown how, and how to ask after its workers; one
/// that may have none at a time, or sits four deep, is shown neither. Installed
/// types are listed by name and description, and can then be asked for.
pub proof fn law_only_an_agent_that_may_spawn_is_shown_how(
    cap: SubAgentCapabilityView,
    facts: AgentFactsView,
)
    ensures
        ({
            let claims = spawn_claims(cap, facts);
            let none = cap.child_settings.max_subagents() == 0 || cap.depth >= 4;
            &&& none ==> claims.len() == 0
            &&& !none ==> claims.len() == 2 && claims[0].spec.name == "spawn_agent"@
                && claims[0].claim == ClaimView::SubAgentSpawn(facts.agents) && claims[1].spec.name
                == "subagent_status"@ && claims[1].claim == ClaimView::SubAgentStatus
            &&& !none && facts.agents is None ==> claims[0].spec.input_schema == SPAWN_SCHEMA@
                && claims[0].spec.description == SPAWN_DESCRIPTION@
            &&& (facts.agents matches Some(c) && c.agents.len() > 0) && !none
                ==> claims[0].spec.input_schema == TYPED_SPAWN_SCHEMA@
                && claims[0].spec.description == SPAWN_DESCRIPTION@ + TYPES_HEADER@ + text::joined(
                type_lines(facts.agents->0.agents),
                "\n"@,
            )
        }),
{
}

/// An installed type is listed by its name and its description.
pub proof fn law_a_type_is_listed_by_name_and_description(agents: Seq<CatalogAgentView>, i: int)
    requires
        0 <= i < agents.len(),
    ensures
        type_lines(agents).len() == agents.len(),
        type_lines(agents)[i] == "- "@ + agents[i].name + ": "@ + agents[i].description,
{
}

} // verus!
