//! `/fork` and `/summary-n-fork`: branching a conversation.
//!
//! The one capability with no tool: a branch is asked for by a person typing a
//! built-in. What it creates is a conversation like any other, with a branch
//! point, and it owes nobody a result, so it never holds this agent's
//! conclusion. What is in flight is a request the session has not answered, or
//! a seed that has not landed.

use crate::capabilities::{SessionReply, SessionReplyView, SessionRequest, SessionRequestView};
use crate::ids::{self, AgentId, RunnerId, RunnerKind, RunnerSet};
use crate::runners::{
    AgentSettings, AgentSettingsView, BranchPoint, BranchPointView, ChildMsg, ChildMsgView,
    ChildOutcomeView, ForkMode, RunnerArgs, RunnerArgsView,
};
use crate::sorted::{self, TextMap};
use crate::text::{self, Dup, trim};
use vstd::prelude::*;

verus! {

/// The built-in that copies the source's log.
pub const FORK_COMMAND: &'static str = "fork";

/// The built-in that summarises it first.
pub const SUMMARY_COMMAND: &'static str = "summary-n-fork";

/// Which built-in asks for this mode.
pub open spec fn built_in_of(mode: ForkMode) -> Seq<char> {
    match mode {
        ForkMode::Copy => FORK_COMMAND@,
        ForkMode::Summary => SUMMARY_COMMAND@,
    }
}

/// Which built-in asks for this mode.
pub fn built_in(mode: ForkMode) -> (r: &'static str)
    ensures
        r@ == built_in_of(mode),
{
    match mode {
        ForkMode::Copy => FORK_COMMAND,
        ForkMode::Summary => SUMMARY_COMMAND,
    }
}

/// One branch asked of the session and not yet answered: the whole request,
/// because asking again has to send the same one.
#[derive(Debug, PartialEq, Eq)]
pub struct Pending {
    /// The conversation the branch will be.
    pub fork: RunnerId,
    /// The branch's own agent.
    pub agent: AgentId,
    pub message: String,
    pub mode: ForkMode,
}

/// What a [`Pending`] stands for.
#[verifier::ext_equal]
pub struct PendingView {
    pub fork: RunnerId,
    pub agent: AgentId,
    pub message: Seq<char>,
    pub mode: ForkMode,
}

impl DeepView for Pending {
    type V = PendingView;

    open spec fn deep_view(&self) -> PendingView {
        PendingView {
            fork: self.fork.deep_view(),
            agent: self.agent.deep_view(),
            message: self.message.deep_view(),
            mode: self.mode.deep_view(),
        }
    }
}

impl Dup for Pending {
    fn dup(&self) -> (out: Self) {
        Pending {
            fork: self.fork.dup(),
            agent: self.agent.dup(),
            message: self.message.dup(),
            mode: self.mode.dup(),
        }
    }
}

impl Clone for Pending {
    fn clone(&self) -> (out: Self)
        ensures
            out.deep_view() == self.deep_view(),
    {
        self.dup()
    }
}

/// The branches an agent has in flight.
#[derive(Debug, PartialEq, Eq)]
pub struct ForkState {
    requested: TextMap<Pending>,
    seeding: RunnerSet,
}

/// What a [`ForkState`] stands for.
#[verifier::ext_equal]
pub struct ForkStateView {
    /// Branches asked for and not yet answered, by the key the reply carries.
    pub requested: Map<Seq<char>, PendingView>,
    /// Branches that exist and cannot run yet: their seed has not landed.
    pub seeding: Set<RunnerId>,
}

impl DeepView for ForkState {
    type V = ForkStateView;

    closed spec fn deep_view(&self) -> ForkStateView {
        ForkStateView { requested: self.requested.map(), seeding: self.seeding.set() }
    }
}

impl Dup for ForkState {
    fn dup(&self) -> (out: Self) {
        ForkState { requested: self.requested.dup(), seeding: self.seeding.dup() }
    }
}

impl Clone for ForkState {
    fn clone(&self) -> (out: Self)
        ensures
            out.deep_view() == self.deep_view(),
    {
        self.dup()
    }
}

impl ForkStateView {
    /// Nothing in flight.
    pub open spec fn idle() -> ForkStateView {
        ForkStateView { requested: Map::empty(), seeding: Set::empty() }
    }

    /// After a branch was asked of the session.
    pub open spec fn requested(self, call: Seq<char>, pending: PendingView) -> ForkStateView {
        ForkStateView { requested: self.requested.insert(call, pending), ..self }
    }

    /// After the session created what this call asked for.
    pub open spec fn created(self, call: Seq<char>) -> ForkStateView {
        if self.requested.contains_key(call) {
            ForkStateView {
                requested: self.requested.remove(call),
                seeding: self.seeding.insert(self.requested[call].fork),
            }
        } else {
            self
        }
    }

    /// After the session would not create it.
    pub open spec fn dropped(self, call: Seq<char>) -> ForkStateView {
        ForkStateView { requested: self.requested.remove(call), ..self }
    }

    /// After this branch's seed landed, or failed to.
    pub open spec fn settled(self, fork: RunnerId) -> ForkStateView {
        ForkStateView { seeding: self.seeding.remove(fork), ..self }
    }
}

impl Default for ForkState {
    fn default() -> (r: Self)
        ensures
            r.deep_view() == ForkStateView::idle(),
    {
        ForkState { requested: TextMap::new(), seeding: RunnerSet::new() }
    }
}

impl ForkState {
    /// A branch was asked of the session.
    pub fn requested(&mut self, call: String, pending: Pending)
        ensures
            final(self).deep_view() == old(self).deep_view().requested(call@, pending.deep_view()),
    {
        self.requested.insert(call, pending);
    }

    /// The session created it, and its seed is now in flight.
    pub fn created(&mut self, call: &str)
        ensures
            final(self).deep_view() == old(self).deep_view().created(call@),
    {
        let ghost after = self.deep_view().created(call@);
        match self.requested.remove(call) {
            Some(pending) => {
                self.seeding.insert(pending.fork);
            },
            None => {},
        }
        proof {
            assert(self.deep_view() =~= after);
        }
    }

    /// The session would not create it.
    pub fn dropped(&mut self, call: &str)
        ensures
            final(self).deep_view() == old(self).deep_view().dropped(call@),
    {
        let _ = self.requested.remove(call);
    }

    /// The seed landed, or it never will. Both stop it being in flight.
    pub fn settled(&mut self, fork: RunnerId)
        ensures
            final(self).deep_view() == old(self).deep_view().settled(fork),
    {
        self.seeding.remove(fork);
    }

    /// The branch asked for under this key, while the session has not answered
    /// it.
    pub fn pending(&self, call: &str) -> (r: Option<&Pending>)
        ensures
            match r {
                Some(p) => self.deep_view().requested.contains_key(call@)
                    && self.deep_view().requested[call@] == p.deep_view(),
                None => !self.deep_view().requested.contains_key(call@),
            },
    {
        self.requested.get(call)
    }

    /// The branches whose seed is still in flight, in the order of their ids.
    pub fn seeding(&self) -> (r: Vec<RunnerId>)
        ensures
            r@ == ids::in_order(self.deep_view().seeding),
            r@.to_set() == self.deep_view().seeding,
            self.deep_view().seeding.finite(),
    {
        let n: usize = self.seeding.len();
        let ghost all = self.seeding.deep_view();
        let mut out: Vec<RunnerId> = Vec::new();
        for i in 0..n
            invariant
                n == all.len(),
                all == self.seeding.deep_view(),
                out@ == all.take(i as int),
        {
            out.push(self.seeding.at(i));
            proof {
                assert(all.take(i + 1) =~= all.take(i as int).push(all[i as int]));
            }
        }
        proof {
            assert(all.take(n as int) =~= all);
            ids::law_the_order_is_determined(all);
            vstd::seq_lib::seq_to_set_is_finite(all);
        }
        out
    }
}

/// One agent's branches.
#[derive(Debug, PartialEq, Eq)]
pub struct ForkCapability {
    /// The agent this belongs to, and so the log a branch is cut from.
    pub agent: AgentId,
    /// What a branch inherits, fixed when this agent was equipped.
    pub settings: AgentSettings,
}

/// What a [`ForkCapability`] stands for.
#[verifier::ext_equal]
pub struct ForkCapabilityView {
    pub agent: AgentId,
    pub settings: AgentSettingsView,
}

impl DeepView for ForkCapability {
    type V = ForkCapabilityView;

    open spec fn deep_view(&self) -> ForkCapabilityView {
        ForkCapabilityView {
            agent: self.agent.deep_view(),
            settings: self.settings.deep_view(),
        }
    }
}

impl Dup for ForkCapability {
    fn dup(&self) -> (out: Self) {
        ForkCapability {
            agent: self.agent.dup(),
            settings: self.settings.dup(),
        }
    }
}

impl Clone for ForkCapability {
    fn clone(&self) -> (out: Self)
        ensures
            out.deep_view() == self.deep_view(),
    {
        self.dup()
    }
}

/// What a typed built-in came to.
#[derive(Debug, PartialEq, Eq)]
pub enum Branched {
    /// A branch with nothing to do: the words go back to whoever typed it.
    Told { reason: String },
    /// Journal the request and put it to the session.
    Ask { call: String, pending: Pending },
}

/// What a [`Branched`] stands for.
#[verifier::ext_equal]
pub enum BranchedView {
    Told { reason: Seq<char> },
    Ask { call: Seq<char>, pending: PendingView },
}

impl DeepView for Branched {
    type V = BranchedView;

    open spec fn deep_view(&self) -> BranchedView {
        match self {
            Branched::Told { reason } => BranchedView::Told {
                reason: reason.deep_view(),
            },
            Branched::Ask { call, pending } => BranchedView::Ask {
                call: call.deep_view(),
                pending: pending.deep_view(),
            },
        }
    }
}

impl Dup for Branched {
    fn dup(&self) -> (out: Self) {
        match self {
            Branched::Told { reason } => Branched::Told {
                reason: reason.dup(),
            },
            Branched::Ask { call, pending } => Branched::Ask {
                call: call.dup(),
                pending: pending.dup(),
            },
        }
    }
}

impl Clone for Branched {
    fn clone(&self) -> (out: Self)
        ensures
            out.deep_view() == self.deep_view(),
    {
        self.dup()
    }
}

/// What a typed built-in comes to, with these ids for the branch.
pub open spec fn branching(mode: ForkMode, message: Seq<char>, fork: RunnerId, agent: AgentId) -> BranchedView {
    if text::trimmed(message).len() == 0 {
        BranchedView::Told {
            reason: "/"@ + built_in_of(mode)
                + " needs a message saying what the new conversation should do"@,
        }
    } else {
        BranchedView::Ask {
            call: ids::hyphenated(fork.0),
            pending: PendingView { fork, agent, message: text::trimmed(message), mode },
        }
    }
}

/// The request a pending branch names.
pub open spec fn branch_request(cap: ForkCapabilityView, call: Seq<char>, pending: PendingView) -> SessionRequestView {
    SessionRequestView::StartRunner {
        call,
        id: pending.fork,
        kind: RunnerKind::Conversation,
        args: RunnerArgsView::Conversation {
            agent: pending.agent,
            seed: Some(BranchPointView { source: cap.agent, source_seq: 0, mode: pending.mode }),
            message: pending.message,
            settings: cap.settings,
        },
    }
}

/// Every branch asked for and never answered, asked again.
pub open spec fn branches_asked_again(
    cap: ForkCapabilityView,
    requested: Map<Seq<char>, PendingView>,
) -> Seq<SessionRequestView> {
    sorted::entries_of(requested).map_values(|e: (Seq<char>, PendingView)| branch_request(cap, e.0, e.1))
}

impl ForkCapability {
    pub fn new(agent: AgentId, settings: AgentSettings) -> (r: Self)
        ensures
            r.agent == agent,
            r.settings == settings,
    {
        ForkCapability { agent, settings }
    }

    /// What a diagnostic names this capability by.
    pub fn name(&self) -> (r: &'static str)
        ensures
            r@ == "fork"@,
    {
        "fork"
    }

    /// Somebody typed a built-in, and these are the branch's ids should it be
    /// asked for. A branch with nothing to do is refused before anything is
    /// recorded.
    pub fn branched_with(&self, mode: ForkMode, message: &str, fork: RunnerId, agent: AgentId) -> (r:
        Branched)
        ensures
            r.deep_view() == branching(mode, message@, fork, agent),
    {
        let message = trim(message);
        if message.is_empty() {
            let mut reason = "/".to_owned();
            reason.append(built_in(mode));
            reason.append(" needs a message saying what the new conversation should do");
            return Branched::Told { reason };
        }
        let pending = Pending { fork, agent, message: message.to_owned(), mode };
        Branched::Ask { call: fork.text(), pending }
    }

    /// Somebody typed a built-in. Both ids are minted here: the answer names
    /// the branch's agent before that agent exists.
    pub fn branched(&self, mode: ForkMode, message: &str) -> (r: Branched)
        ensures
            exists|fork: RunnerId, agent: AgentId|
                ids::is_version_4(fork.0) && ids::is_version_4(agent.0) && r.deep_view()
                    == #[trigger] branching(mode, message@, fork, agent),
    {
        let fork = RunnerId::new_v4();
        let agent = AgentId::new_v4();
        self.branched_with(mode, message, fork, agent)
    }

    /// The request a pending branch names. The branch and the ask on load both
    /// use it, because the second has to send exactly what the first sent.
    pub fn request(&self, call: &str, pending: &Pending) -> (r: SessionRequest)
        ensures
            r.deep_view() == branch_request(self.deep_view(), call@, pending.deep_view()),
    {
        SessionRequest::StartRunner {
            call: call.to_owned(),
            id: pending.fork,
            kind: RunnerKind::Conversation,
            args: Box::new(
                RunnerArgs::Conversation {
                    agent: pending.agent,
                    seed: Some(
                        BranchPoint { source: self.agent, source_seq: 0, mode: pending.mode },
                    ),
                    message: pending.message.clone(),
                    settings: Box::new(self.settings.dup()),
                },
            ),
        }
    }

    /// Everything asked for and never answered, asked again, in the order of
    /// the keys.
    pub fn reloaded(&self, state: &ForkState) -> (r: Vec<SessionRequest>)
        ensures
            r.deep_view() == branches_asked_again(self.deep_view(), state.deep_view().requested),
            state.deep_view().requested.dom().finite(),
    {
        let n: usize = state.requested.len();
        let ghost entries = state.requested.deep_view();
        let ghost cap = self.deep_view();
        let ghost all = entries.map_values(
            |e: (Seq<char>, PendingView)| branch_request(cap, e.0, e.1),
        );
        let mut out: Vec<SessionRequest> = Vec::new();
        for i in 0..n
            invariant
                n == entries.len(),
                entries == state.requested.deep_view(),
                cap == self.deep_view(),
                all == entries.map_values(
                    |e: (Seq<char>, PendingView)| branch_request(cap, e.0, e.1),
                ),
                out.deep_view() == all.take(i as int),
        {
            let ghost had = out.deep_view();
            let (call, pending) = state.requested.at(i);
            out.push(self.request(call, pending));
            proof {
                assert(out.deep_view() =~= had.push(all[i as int]));
                assert(all.take(i + 1) =~= all.take(i as int).push(all[i as int]));
            }
        }
        proof {
            assert(all.take(n as int) =~= all);
            sorted::law_entries_are_determined(entries);
            sorted::lemma_entries_are_finite(entries);
        }
        out
    }
}

/// What the session said about a branch this agent asked for.
#[derive(Debug, PartialEq, Eq)]
pub enum Branch {
    Created { call: String, fork: RunnerId },
    Dropped { call: String, reason: String },
}

/// What a [`Branch`] stands for.
#[verifier::ext_equal]
pub enum BranchView {
    Created { call: Seq<char>, fork: RunnerId },
    Dropped { call: Seq<char>, reason: Seq<char> },
}

impl DeepView for Branch {
    type V = BranchView;

    open spec fn deep_view(&self) -> BranchView {
        match self {
            Branch::Created { call, fork } => BranchView::Created {
                call: call.deep_view(),
                fork: fork.deep_view(),
            },
            Branch::Dropped { call, reason } => BranchView::Dropped {
                call: call.deep_view(),
                reason: reason.deep_view(),
            },
        }
    }
}

impl Dup for Branch {
    fn dup(&self) -> (out: Self) {
        match self {
            Branch::Created { call, fork } => Branch::Created {
                call: call.dup(),
                fork: fork.dup(),
            },
            Branch::Dropped { call, reason } => Branch::Dropped {
                call: call.dup(),
                reason: reason.dup(),
            },
        }
    }
}

impl Clone for Branch {
    fn clone(&self) -> (out: Self)
        ensures
            out.deep_view() == self.deep_view(),
    {
        self.dup()
    }
}

impl BranchView {
    /// The key this answers.
    pub open spec fn call(self) -> Seq<char> {
        match self {
            BranchView::Created { call, .. } => call,
            BranchView::Dropped { call, .. } => call,
        }
    }

    /// What the person who typed the built-in is told.
    pub open spec fn told(self) -> Seq<char> {
        match self {
            BranchView::Created { fork, .. } => "Forked: "@ + ids::hyphenated(fork.0),
            BranchView::Dropped { reason, .. } => reason,
        }
    }
}

impl Branch {
    /// The key this answers.
    pub fn call(&self) -> (r: &str)
        ensures
            r@ == self.deep_view().call(),
    {
        match self {
            Branch::Created { call, .. } => call.as_str(),
            Branch::Dropped { call, .. } => call.as_str(),
        }
    }

    /// What the person who typed the built-in is told.
    pub fn told(&self) -> (r: String)
        ensures
            r@ == self.deep_view().told(),
    {
        match self {
            Branch::Created { fork, .. } => {
                let mut out = "Forked: ".to_owned();
                out.append(fork.text().as_str());
                out
            },
            Branch::Dropped { reason, .. } => reason.clone(),
        }
    }
}

/// What a reply says about a branch, if it answers one of these.
pub open spec fn branch_reply(requested: Map<Seq<char>, PendingView>, reply: SessionReplyView) -> Option<
    BranchView,
> {
    if requested.contains_key(reply.call()) {
        Some(
            match reply {
                SessionReplyView::Done { call } => BranchView::Created {
                    call,
                    fork: requested[call].fork,
                },
                SessionReplyView::Refused { call, reason } => BranchView::Dropped { call, reason },
            },
        )
    } else {
        None
    }
}

/// The session answered a branch this capability asked for; `None` when the
/// reply answers something else.
pub fn replied(state: &ForkState, reply: &SessionReply) -> (r: Option<Branch>)
    ensures
        r.deep_view() == branch_reply(state.deep_view().requested, reply.deep_view()),
{
    match state.requested.get(reply.call()) {
        None => None,
        Some(pending) => Some(
            match reply {
                SessionReply::Done { call } => Branch::Created {
                    call: call.clone(),
                    fork: pending.fork,
                },
                SessionReply::Refused { call, reason } => Branch::Dropped {
                    call: call.clone(),
                    reason: reason.clone(),
                },
            },
        ),
    }
}

/// A branch's seed settled.
#[derive(Debug, PartialEq, Eq)]
pub enum Seed {
    Landed { fork: RunnerId },
    Failed { fork: RunnerId, error: String },
}

/// What a [`Seed`] stands for.
#[verifier::ext_equal]
pub enum SeedView {
    Landed { fork: RunnerId },
    Failed { fork: RunnerId, error: Seq<char> },
}

impl DeepView for Seed {
    type V = SeedView;

    open spec fn deep_view(&self) -> SeedView {
        match self {
            Seed::Landed { fork } => SeedView::Landed {
                fork: fork.deep_view(),
            },
            Seed::Failed { fork, error } => SeedView::Failed {
                fork: fork.deep_view(),
                error: error.deep_view(),
            },
        }
    }
}

impl Dup for Seed {
    fn dup(&self) -> (out: Self) {
        match self {
            Seed::Landed { fork } => Seed::Landed {
                fork: fork.dup(),
            },
            Seed::Failed { fork, error } => Seed::Failed {
                fork: fork.dup(),
                error: error.dup(),
            },
        }
    }
}

impl Clone for Seed {
    fn clone(&self) -> (out: Self)
        ensures
            out.deep_view() == self.deep_view(),
    {
        self.dup()
    }
}

impl SeedView {
    /// The branch whose seed this is.
    pub open spec fn fork(self) -> RunnerId {
        match self {
            SeedView::Landed { fork } => fork,
            SeedView::Failed { fork, .. } => fork,
        }
    }
}

/// What a child's moving means to an agent with these seeds in flight.
pub open spec fn seed_report(seeding: Set<RunnerId>, m: ChildMsgView) -> Option<SeedView> {
    match m {
        ChildMsgView::Ready { child } => if seeding.contains(child) {
            Some(SeedView::Landed { fork: child })
        } else {
            None
        },
        ChildMsgView::Failed { child, error } => if seeding.contains(child) {
            Some(SeedView::Failed { fork: child, error })
        } else {
            None
        },
        ChildMsgView::Outcome { .. } => None,
    }
}

/// A child moved; `None` for anything this capability holds no seed for.
///
/// Nothing is delivered: a branch owes nobody a result, so an outcome is never
/// this capability's, even for a branch it holds.
pub fn child(state: &ForkState, m: &ChildMsg) -> (r: Option<Seed>)
    ensures
        r.deep_view() == seed_report(state.deep_view().seeding, m.deep_view()),
{
    match m {
        ChildMsg::Ready { child } => {
            if state.seeding.contains(*child) {
                Some(Seed::Landed { fork: *child })
            } else {
                None
            }
        },
        ChildMsg::Failed { child, error } => {
            if state.seeding.contains(*child) {
                Some(Seed::Failed { fork: *child, error: error.clone() })
            } else {
                None
            }
        },
        ChildMsg::Outcome { .. } => None,
    }
}

/// The ask on load sends the request the branch sent: the same key, the same
/// conversation, the same agent and message.
pub proof fn law_an_unanswered_branch_is_asked_again(
    cap: ForkCapabilityView,
    state: ForkStateView,
    call: Seq<char>,
    pending: PendingView,
)
    requires
        state.requested.dom().finite(),
    ensures
        branches_asked_again(cap, state.requested(call, pending).requested).contains(
            branch_request(cap, call, pending),
        ),
{
    let map = state.requested(call, pending).requested;
    sorted::law_a_finite_map_is_listed(map);
    let entries = sorted::entries_of(map);
    assert(sorted::map_of(entries).contains_key(call));
    let i = sorted::keys_of(entries).index_of(call);
    sorted::lemma_map_of_entry(entries, i);
    assert(entries[i] == (call, pending));
    assert(branches_asked_again(cap, map)[i] == branch_request(cap, call, pending));
}

/// A branch the session answered, either way, is not asked for again.
pub proof fn law_an_answered_branch_is_not_asked_again(
    cap: ForkCapabilityView,
    state: ForkStateView,
    call: Seq<char>,
    request: SessionRequestView,
)
    requires
        state.requested.dom().finite(),
        request.call() == call,
    ensures
        !branches_asked_again(cap, state.created(call).requested).contains(request),
        !branches_asked_again(cap, state.dropped(call).requested).contains(request),
{
    let map = state.requested.remove(call);
    sorted::law_a_finite_map_is_listed(map);
    assert(state.created(call).requested =~= map);
    assert(state.dropped(call).requested =~= map);
    let entries = sorted::entries_of(map);
    assert forall|i: int| 0 <= i < entries.len() implies #[trigger] branches_asked_again(cap, map)[i]
        != request by {
        sorted::lemma_map_of_entry(entries, i);
    }
}

/// A seed settles once: once it is recorded, nothing the same branch says is
/// taken for a seed again.
pub proof fn law_a_seed_settles_once(state: ForkStateView, m: ChildMsgView)
    requires
        seed_report(state.seeding, m) is Some,
    ensures
        ({
            let seed = seed_report(state.seeding, m)->Some_0;
            &&& state.seeding.contains(seed.fork())
            &&& seed_report(state.settled(seed.fork()).seeding, m) is None
        }),
{
}

/// The key a branch is asked for under names the branch, and no other one.
pub proof fn law_the_key_names_the_branch(
    mode: ForkMode,
    message: Seq<char>,
    a: RunnerId,
    b: RunnerId,
    agent: AgentId,
)
    requires
        text::trimmed(message).len() > 0,
        branching(mode, message, a, agent)->call == branching(mode, message, b, agent)->call,
    ensures
        a == b,
{
    ids::law_hyphenated_is_injective(a.0, b.0);
}

/// A branch needs something to do: with nothing but white space to say, it is
/// refused in the words of the command that was typed. Otherwise it is asked
/// for under its own id, with what was said and in the mode that was typed.
pub proof fn law_a_branch_is_asked_for_as_it_was_typed(
    mode: ForkMode,
    message: Seq<char>,
    fork: RunnerId,
    agent: AgentId,
)
    ensures
        text::trimmed(message).len() == 0 && mode == ForkMode::Copy ==> branching(
            mode,
            message,
            fork,
            agent,
        ) == (BranchedView::Told {
            reason: "/"@ + "fork"@
                + " needs a message saying what the new conversation should do"@,
        }),
        text::trimmed(message).len() == 0 && mode == ForkMode::Summary ==> branching(
            mode,
            message,
            fork,
            agent,
        ) == (BranchedView::Told {
            reason: "/"@ + "summary-n-fork"@
                + " needs a message saying what the new conversation should do"@,
        }),
        text::trimmed(message).len() > 0 ==> (branching(mode, message, fork, agent) matches
            BranchedView::Ask { call, pending } && call == ids::hyphenated(fork.0) && pending.fork
            == fork && pending.agent == agent && pending.message == text::trimmed(message)
            && pending.mode == mode),
{
}

/// What the session is asked for is a conversation of its own, seeded from the
/// agent that branches, with its message, its mode and the settings it
/// inherits.
pub proof fn law_the_session_is_asked_for_that_branch(
    cap: ForkCapabilityView,
    call: Seq<char>,
    pending: PendingView,
)
    ensures
        branch_request(cap, call, pending) matches SessionRequestView::StartRunner {
            call: c,
            id,
            kind,
            args,
        } && c == call && id == pending.fork && kind == RunnerKind::Conversation && (args matches
            RunnerArgsView::Conversation { agent, seed, message, settings } && agent
            == pending.agent && message == pending.message && settings == cap.settings && (seed
            matches Some(point) && point.source == cap.agent && point.source_seq == 0 && point.mode
            == pending.mode)),
{
}

/// Only a reply to a branch in flight is news: created, it is told by the
/// branch's id; refused, by the session's reason.
pub proof fn law_a_branch_in_flight_is_answered(
    requested: Map<Seq<char>, PendingView>,
    call: Seq<char>,
    reason: Seq<char>,
)
    ensures
        requested.contains_key(call) ==> (branch_reply(requested, SessionReplyView::Done { call })
            matches Some(b) && b == (BranchView::Created { call, fork: requested[call].fork })
            && b.call() == call && b.told() == "Forked: "@ + ids::hyphenated(requested[call].fork.0)),
        requested.contains_key(call) ==> (branch_reply(
            requested,
            SessionReplyView::Refused { call, reason },
        ) matches Some(b) && b == (BranchView::Dropped { call, reason }) && b.call() == call
            && b.told() == reason),
        !requested.contains_key(call) ==> branch_reply(requested, SessionReplyView::Done { call })
            is None && branch_reply(requested, SessionReplyView::Refused { call, reason }) is None,
{
}

/// Only a branch that is still seeding has news of its seed: that it landed,
/// or that it failed and why.
pub proof fn law_only_a_seeding_branch_has_news(
    seeding: Set<RunnerId>,
    child: RunnerId,
    error: Seq<char>,
    outcome: ChildOutcomeView,
)
    ensures
        seeding.contains(child) ==> seed_report(seeding, ChildMsgView::Ready { child }) == Some(
            SeedView::Landed { fork: child },
        ) && seed_report(seeding, ChildMsgView::Failed { child, error }) == Some(
            SeedView::Failed { fork: child, error },
        ),
        !seeding.contains(child) ==> seed_report(seeding, ChildMsgView::Ready { child }) is None
            && seed_report(seeding, ChildMsgView::Failed { child, error }) is None,
        seed_report(seeding, ChildMsgView::Outcome { child, outcome }) is None,
{
}

} // verus!
