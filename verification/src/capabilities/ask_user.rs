//! `ask_user`: the agent stopping to put a question to the person.
//!
//! A question leaves its call dangling and ends the turn; the dangling call is
//! the parked agent, and an answer arrives against it, possibly days later. An
//! agent that may not ask is told why in words, and nothing is recorded.
//!
//! Whether a person typing something else abandons a park is the queue's rule,
//! not this file's: here a turn beginning with a park still held only stops
//! holding it.

use crate::capabilities::{PromptSection, PromptSectionView};
use crate::capabilities::claims::{
    self, CapCommand, CapCommandView, Claim, ClaimView, ClaimedTool, ClaimedToolView,
};
use crate::capabilities::decision::{
    Act, ActView, AskLifecycle, AskLifecycleView, Decision, DecisionView, Msg, MsgView, TurnEvent,
};
use crate::capabilities::state::{CapabilityEvent, CapabilityEventView};
use crate::inbox::{self, AnswerError, AskAnswer, AskAnswerView, Turn, answer_ids, refusal};
use crate::json::{Json, JsonView};
use crate::lists;
use crate::model::{ToolResultInput, ToolResultInputView};
use crate::sorted::{self, TextMap};
use crate::text::{Dup, same};
use vstd::prelude::*;

verus! {

/// Appended to an unattended run's system prompt.
pub const UNATTENDED_PROMPT_SUFFIX: &'static str = "# Unattended run\nThis session was started by a routine, not by a person, and nobody is reading it while it runs. There is no ask_user tool: a question would park the run with nobody to answer it. Work from the instructions you were given — where they leave a choice open, make the reasonable one, say which you made and why, and carry on. Your final message is the report; make it self-contained.";

/// Appended for a step that did not declare itself interactive. It says nothing
/// about whether anyone is watching.
pub const NOT_INTERACTIVE_PROMPT_SUFFIX: &'static str = "# No questions in this step\nThis step has no ask_user tool. Work from the input you were given — where it leaves a choice open, make the reasonable one, say which you made and why, and carry on. Your result is what the rest of the run sees; make it self-contained.";

/// What an unattended agent that asks anyway is told.
pub const UNATTENDED_REFUSAL: &'static str = "`ask_user` is not available: this session was started by a routine and nobody is reading it, so a question would park the run for ever. Make the reasonable choice, say which you made and why, and carry on.";

/// What a step that is not interactive is told when it asks anyway.
pub const NOT_INTERACTIVE_REFUSAL: &'static str = "`ask_user` is not available in this step, which did not declare itself interactive. Work from the input you were given, make the reasonable choice, say which you made and why, and carry on.";

/// The tool this capability answers for.
pub const TOOL: &'static str = "ask_user";

/// What `ask_user` takes.
pub const ASK_SCHEMA: &'static str = "{\"properties\":{\"choices\":{\"description\":\"Optional suggested answers. The user can always reply in their own words instead, so treat these as suggestions and expect an answer that is not in the list.\",\"items\":{\"type\":\"string\"},\"type\":\"array\"},\"multiple\":{\"description\":\"Set true when the user may pick any number of the choices; omit or set false when exactly one applies. Has no effect without `choices`.\",\"type\":\"boolean\"},\"question\":{\"description\":\"The question to put to the user.\",\"type\":\"string\"}},\"required\":[\"question\"],\"type\":\"object\"}";

/// What the model is told `ask_user` does.
pub const ASK_DESCRIPTION: &'static str = "Pause and ask the user a clarifying question before continuing, when their intent is ambiguous or a decision needs their input. Optional -- for an ordinary reply, just answer normally instead of calling this. Omit `choices` for an open question; supply `choices` to suggest answers, and set `multiple` when several may be picked at once.";

/// What the model asked this capability to do.
#[derive(Debug, PartialEq, Eq)]
pub enum Command {
    /// `ask_user`, with the question still in the arguments it arrived in.
    Ask { input: Json },
}

/// What a [`Command`] stands for.
#[verifier::ext_equal]
pub enum CommandView {
    Ask { input: JsonView },
}

impl DeepView for Command {
    type V = CommandView;

    open spec fn deep_view(&self) -> CommandView {
        match self {
            Command::Ask { input } => CommandView::Ask {
                input: input.deep_view(),
            },
        }
    }
}

impl Dup for Command {
    fn dup(&self) -> (out: Self) {
        match self {
            Command::Ask { input } => Command::Ask {
                input: input.dup(),
            },
        }
    }
}

impl Clone for Command {
    fn clone(&self) -> (out: Self)
        ensures
            out.deep_view() == self.deep_view(),
    {
        self.dup()
    }
}

/// Why an agent may not ask, when it may not.
#[derive(Debug, Clone, Copy, PartialEq, Eq, Structural)]
pub enum Mute {
    /// A routine's run: nobody is reading it.
    Unattended,
    /// A workflow step that did not declare itself interactive.
    NotInteractive,
}

impl DeepView for Mute {
    type V = Mute;

    open spec fn deep_view(&self) -> Mute {
        *self
    }
}

impl Dup for Mute {
    fn dup(&self) -> (out: Self) {
        *self
    }
}

/// What the model is told when it calls a tool it was not given.
pub open spec fn mute_refusal(mute: Mute) -> Seq<char> {
    match mute {
        Mute::Unattended => UNATTENDED_REFUSAL@,
        Mute::NotInteractive => NOT_INTERACTIVE_REFUSAL@,
    }
}

impl Mute {
    /// What the model is told when it calls a tool it was not given.
    pub fn refusal(self) -> (r: &'static str)
        ensures
            r@ == mute_refusal(self),
    {
        match self {
            Mute::Unattended => UNATTENDED_REFUSAL,
            Mute::NotInteractive => NOT_INTERACTIVE_REFUSAL,
        }
    }
}

/// Whether an agent may ask, and nothing else.
#[derive(Debug, Clone, Copy, PartialEq, Eq)]
pub struct AskUserCapability {
    /// `Some` when this agent may not ask, and why.
    pub mute: Option<Mute>,
}

impl DeepView for AskUserCapability {
    type V = AskUserCapability;

    open spec fn deep_view(&self) -> AskUserCapability {
        *self
    }
}

impl Dup for AskUserCapability {
    fn dup(&self) -> (out: Self) {
        *self
    }
}

/// The park an agent is holding.
#[derive(Debug, PartialEq, Eq)]
pub struct AskUserState {
    pending: TextMap<String>,
}

/// What an [`AskUserState`] stands for.
#[verifier::ext_equal]
pub struct AskUserStateView {
    /// The questions the agent is parked on, by the call that asked.
    pub pending: Map<Seq<char>, Seq<char>>,
}

impl DeepView for AskUserState {
    type V = AskUserStateView;

    closed spec fn deep_view(&self) -> AskUserStateView {
        AskUserStateView { pending: self.pending.map() }
    }
}

impl Dup for AskUserState {
    fn dup(&self) -> (out: Self) {
        AskUserState { pending: self.pending.dup() }
    }
}

impl Clone for AskUserState {
    fn clone(&self) -> (out: Self)
        ensures
            out.deep_view() == self.deep_view(),
    {
        self.dup()
    }
}

impl AskUserStateView {
    /// Nothing asked.
    pub open spec fn idle() -> AskUserStateView {
        AskUserStateView { pending: Map::empty() }
    }

    /// After a question was asked.
    pub open spec fn asked(self, call: Seq<char>, question: Seq<char>) -> AskUserStateView {
        AskUserStateView { pending: self.pending.insert(call, question) }
    }

    /// After these calls were answered.
    pub open spec fn answered(self, calls: Seq<Seq<char>>) -> AskUserStateView {
        AskUserStateView { pending: self.pending.remove_keys(calls.to_set()) }
    }

    /// The calls the agent is parked on, in their order.
    pub open spec fn calls(self) -> Seq<Seq<char>> {
        sorted::keys_of(sorted::entries_of(self.pending))
    }
}

/// Answering calls leaves a finite park finite.
pub proof fn lemma_answered_is_finite(state: AskUserStateView, calls: Seq<Seq<char>>)
    requires
        state.pending.dom().finite(),
    ensures
        state.answered(calls).pending.dom().finite(),
{
    assert(state.answered(calls).pending.dom() =~= state.pending.dom().difference(calls.to_set()));
}

impl Default for AskUserState {
    fn default() -> (r: Self)
        ensures
            r.deep_view() == AskUserStateView::idle(),
    {
        AskUserState { pending: TextMap::new() }
    }
}

impl AskUserState {
    /// The agent asked; the run is parked on `call`.
    pub fn asked(&mut self, call: String, question: String)
        ensures
            final(self).deep_view() == old(self).deep_view().asked(call@, question@),
    {
        self.pending.insert(call, question);
    }

    /// These calls were answered.
    pub fn answered(&mut self, calls: &[String])
        ensures
            final(self).deep_view() == old(self).deep_view().answered(calls.deep_view()),
    {
        let ghost start = self.pending.map();
        let ghost all = calls.deep_view();
        proof {
            assert(start.remove_keys(all.take(0).to_set()) =~= start);
        }
        for i in 0..calls.len()
            invariant
                all == calls.deep_view(),
                self.pending.map() == start.remove_keys(all.take(i as int).to_set()),
        {
            let _ = self.pending.remove(calls[i].as_str());
            proof {
                let before = all.take(i as int);
                let after = all.take(i + 1);
                assert(all[i as int] == calls@[i as int]@);
                assert(after =~= before.push(all[i as int]));
                assert forall|k: Seq<char>| #[trigger] after.to_set().contains(k) <==> before.to_set().contains(k) || k == all[i as int] by {
                    if before.contains(k) {
                        let j = choose|j: int| 0 <= j < before.len() && before[j] == k;
                        assert(after[j] == k);
                    }
                    assert(after[i as int] == all[i as int]);
                    if after.contains(k) && k != all[i as int] {
                        let j = choose|j: int| 0 <= j < after.len() && after[j] == k;
                        assert(before[j] == k);
                    }
                }
                assert(start.remove_keys(before.to_set()).remove(all[i as int])
                    =~= start.remove_keys(after.to_set()));
            }
        }
        proof {
            assert(all.take(calls.len() as int) =~= all);
        }
    }

    /// The park did not survive the turn that began without it.
    pub fn abandoned(&mut self)
        ensures
            final(self).deep_view() == AskUserStateView::idle(),
    {
        self.pending.clear();
    }

    /// The calls the agent is parked on, in their order.
    pub fn calls(&self) -> (r: Vec<String>)
        ensures
            r.deep_view() == self.deep_view().calls(),
            r.len() == 0 <==> self.deep_view().pending == Map::<Seq<char>, Seq<char>>::empty(),
            r.deep_view().to_set() == self.deep_view().pending.dom(),
    {
        let n: usize = self.pending.len();
        let none = self.pending.is_empty();
        let ghost entries = self.pending.deep_view();
        let ghost all = sorted::keys_of(entries);
        let mut out: Vec<String> = Vec::new();
        for i in 0..n
            invariant
                n == entries.len(),
                entries == self.pending.deep_view(),
                all == sorted::keys_of(entries),
                out.deep_view() == all.take(i as int),
        {
            let ghost had = out.deep_view();
            let (call, _) = self.pending.at(i);
            out.push(call.to_owned());
            proof {
                assert(out.deep_view() =~= had.push(all[i as int]));
                assert(all.take(i + 1) =~= all.take(i as int).push(all[i as int]));
            }
        }
        proof {
            assert(all.take(n as int) =~= all);
            sorted::law_entries_are_determined(entries);
            assert(all.to_set() =~= sorted::map_of(entries).dom());
            assert(out.deep_view().len() == out.len());
        }
        out
    }

    /// The question asked under this call, while it is not answered.
    pub fn question(&self, call: &str) -> (r: Option<&String>)
        ensures
            match r {
                Some(q) => self.deep_view().pending.contains_key(call@)
                    && self.deep_view().pending[call@] == q@,
                None => !self.deep_view().pending.contains_key(call@),
            },
    {
        self.pending.get(call)
    }

    /// Why these answers cannot resume the park, if they cannot.
    ///
    /// All or nothing: a half-answered park could not resume anyway, because
    /// the next provider call would carry a `tool_use` with no result.
    pub fn answer_error(&self, answers: &[AskAnswer]) -> (r: Option<AnswerError>)
        ensures
            inbox::refused(
                self.deep_view().calls(),
                inbox::answered_calls(answers.deep_view()),
                r.deep_view(),
            ),
    {
        let pending = self.calls();
        let answered = answer_ids(answers);
        refusal(&pending, &answered)
    }
}

/// What these answers say to a call; the last one counts.
pub open spec fn text_for(answers: Seq<AskAnswerView>, call: Seq<char>) -> Seq<char> {
    match lists::find_last(
        answers,
        |a: AskAnswerView|
            if a.tool_call_id == call {
                Some(a.text)
            } else {
                None
            },
    ) {
        Some(text) => text,
        None => seq![],
    }
}

/// What these answers say to a call.
fn text_of(answers: &[AskAnswer], call: &str) -> (r: String)
    ensures
        r@ == text_for(answers.deep_view(), call@),
{
    let ghost all = answers.deep_view();
    let ghost f = |a: AskAnswerView|
        if a.tool_call_id == call@ {
            Some(a.text)
        } else {
            None
        };
    let mut i: usize = answers.len();
    proof {
        assert(all.take(i as int) =~= all);
    }
    while i > 0
        invariant
            i <= answers.len(),
            all == answers.deep_view(),
            f == (|a: AskAnswerView|
                if a.tool_call_id == call@ {
                    Some(a.text)
                } else {
                    None
                }),
            lists::find_last(all, f) == lists::find_last(all.take(i as int), f),
        decreases i,
    {
        i = i - 1;
        proof {
            assert(all[i as int] == answers@[i as int].deep_view());
            assert(all.take(i + 1).last() == all[i as int]);
            assert(all.take(i + 1).drop_last() =~= all.take(i as int));
        }
        if same(answers[i].tool_call_id.as_str(), call) {
            return answers[i].text.clone();
        }
    }
    let none = String::new();
    proof {
        assert(none@ =~= seq![]);
    }
    none
}

/// One result for every call the park holds, in its order.
pub open spec fn resumption(calls: Seq<Seq<char>>, answers: Seq<AskAnswerView>) -> Seq<
    ToolResultInputView,
> {
    calls.map_values(
        |call: Seq<char>|
            ToolResultInputView {
                tool_call_id: call,
                output: text_for(answers, call),
                is_error: false,
                artifacts: seq![],
            },
    )
}

/// What a call to `ask_user` comes to.
pub open spec fn asking(mute: Option<Mute>, call: Seq<char>, input: JsonView) -> DecisionView {
    match mute {
        Some(mute) => DecisionView::only(ActView::Answer { call, text: mute_refusal(mute) }),
        None => {
            let question = input.str_or_empty("question"@);
            DecisionView::record(seq![CapabilityEventView::AskUserAsked { call, question }]).and(
                ActView::Record(AskLifecycleView { tool_call_id: Some(call), question }),
            ).and(ActView::Park { call, note: question })
        },
    }
}

/// What a set of answers that covers a park comes to.
pub open spec fn resuming(calls: Seq<Seq<char>>, answers: Seq<AskAnswerView>) -> DecisionView {
    DecisionView::record(seq![CapabilityEventView::AskUserAnswered { calls }]).and(
        ActView::Resume { results: resumption(calls, answers) },
    )
}

/// What a message comes to for an agent holding this park.
pub open spec fn ask_user_handles(state: AskUserStateView, msg: MsgView) -> Option<DecisionView> {
    match msg {
        MsgView::Answer(answers) => if state.pending != Map::<Seq<char>, Seq<char>>::empty()
            && state.calls().to_set() == inbox::answered_calls(answers).to_set() {
            Some(resuming(state.calls(), answers))
        } else {
            None
        },
        MsgView::Turn(TurnEvent::Began) => if state.pending
            != Map::<Seq<char>, Seq<char>>::empty() {
            Some(DecisionView::record(seq![CapabilityEventView::AskUserAbandoned]))
        } else {
            None
        },
        _ => None,
    }
}

/// The paragraph an agent that may not ask is given in place of the tool.
pub open spec fn mute_prompt(mute: Option<Mute>) -> Option<PromptSectionView> {
    match mute {
        Some(Mute::Unattended) => Some(
            PromptSectionView { key: "unattended"@, body: UNATTENDED_PROMPT_SUFFIX@ },
        ),
        Some(Mute::NotInteractive) => Some(
            PromptSectionView { key: "not_interactive"@, body: NOT_INTERACTIVE_PROMPT_SUFFIX@ },
        ),
        None => None,
    }
}

/// The tools this capability claims: none for an agent that may not ask.
pub open spec fn ask_claims(mute: Option<Mute>) -> Seq<ClaimedToolView> {
    match mute {
        Some(_) => seq![],
        None => seq![claims::tool_claimed(TOOL@, ASK_DESCRIPTION@, ASK_SCHEMA@, ClaimView::AskUser)],
    }
}

impl AskUserCapability {
    /// An agent that may ask.
    pub fn new() -> (r: Self)
        ensures
            r.mute is None,
    {
        AskUserCapability { mute: None }
    }

    /// A routine's run: nobody is reading it.
    pub fn unattended() -> (r: Self)
        ensures
            r.mute == Some(Mute::Unattended),
    {
        AskUserCapability { mute: Some(Mute::Unattended) }
    }

    /// A workflow step that did not declare itself interactive.
    pub fn not_interactive() -> (r: Self)
        ensures
            r.mute == Some(Mute::NotInteractive),
    {
        AskUserCapability { mute: Some(Mute::NotInteractive) }
    }

    /// What a diagnostic names this capability by.
    pub fn name(&self) -> (r: &'static str)
        ensures
            r@ == "ask_user"@,
    {
        "ask_user"
    }

    /// The model called `ask_user`.
    fn asked(&self, call: &str, input: &Json) -> (r: Decision)
        ensures
            r.deep_view() == asking(self.mute, call@, input.deep_view()),
    {
        if let Some(mute) = self.mute {
            return Decision::reply(call, mute.refusal());
        }
        let question = input.str_or_empty("question");
        Decision::record(
            CapabilityEvent::AskUserAsked { call: call.to_owned(), question: question.clone() },
        ).and(
            Act::Record(
                Box::new(
                    AskLifecycle {
                        tool_call_id: Some(call.to_owned()),
                        question: question.clone(),
                    },
                ),
            ),
        ).and(Act::Park { call: call.to_owned(), note: question })
    }

    /// Somebody answered; `None` for anything the park cannot be resumed by.
    fn answered(state: &AskUserState, answers: &[AskAnswer]) -> (r: Option<Decision>)
        ensures
            r.deep_view() == (if state.deep_view().pending != Map::<Seq<char>, Seq<char>>::empty()
                && state.deep_view().calls().to_set() == inbox::answered_calls(
                answers.deep_view(),
            ).to_set() {
                Some(resuming(state.deep_view().calls(), answers.deep_view()))
            } else {
                None
            }),
    {
        if let Some(_) = state.answer_error(answers) {
            proof {
                assert(state.deep_view().calls().len() == 0 || state.deep_view().calls().to_set()
                    != inbox::answered_calls(answers.deep_view()).to_set());
            }
            let calls = state.calls();
            proof {
                assert(calls.deep_view().len() == calls.len());
            }
            return None;
        }
        let calls = state.calls();
        let ghost all = resumption(calls.deep_view(), answers.deep_view());
        let mut results: Vec<ToolResultInput> = Vec::new();
        for i in 0..calls.len()
            invariant
                all == resumption(calls.deep_view(), answers.deep_view()),
                results.deep_view() == all.take(i as int),
        {
            let result = ToolResultInput {
                tool_call_id: calls[i].clone(),
                output: text_of(answers, calls[i].as_str()),
                is_error: false,
                artifacts: Vec::new(),
            };
            let ghost had = results.deep_view();
            proof {
                assert(calls.deep_view()[i as int] == calls@[i as int]@);
                assert(result.artifacts.deep_view() =~= seq![]);
                assert(result.deep_view() == all[i as int]);
            }
            results.push(result);
            proof {
                assert(results.deep_view() =~= had.push(all[i as int]));
                assert(all.take(i + 1) =~= all.take(i as int).push(all[i as int]));
            }
        }
        proof {
            assert(all.take(calls.len() as int) =~= all);
            assert(calls.deep_view().len() == calls.len());
        }
        Some(Decision::record(CapabilityEvent::AskUserAnswered { calls }).and(Act::Resume { results }))
    }

    /// The tools this capability claims.
    pub fn claims(&self) -> (r: Vec<ClaimedTool>)
        ensures
            r.deep_view() == ask_claims(self.mute),
    {
        let mut out: Vec<ClaimedTool> = Vec::new();
        if let Some(_) = self.mute {
            proof {
                assert(out.deep_view() =~= seq![]);
            }
            return out;
        }
        out.push(
            ClaimedTool::new(TOOL, ASK_DESCRIPTION.to_owned(), ASK_SCHEMA, Claim::AskUser),
        );
        proof {
            assert(out.deep_view() =~= ask_claims(self.mute));
        }
        out
    }

    /// The paragraph an agent that may not ask is given in place of the tool.
    pub fn prompt(&self) -> (r: Option<PromptSection>)
        ensures
            r.deep_view() == mute_prompt(self.mute),
    {
        match self.mute {
            Some(Mute::Unattended) => Some(
                PromptSection { key: "unattended", body: UNATTENDED_PROMPT_SUFFIX.to_owned() },
            ),
            Some(Mute::NotInteractive) => Some(
                PromptSection {
                    key: "not_interactive",
                    body: NOT_INTERACTIVE_PROMPT_SUFFIX.to_owned(),
                },
            ),
            None => None,
        }
    }

    /// Answer a command, if it is this capability's. One that may not ask
    /// answers too: declining would leave the call to nobody.
    pub fn command(&self, _state: &AskUserState, cmd: &CapCommand) -> (r: Option<Decision>)
        ensures
            r.deep_view() == (match cmd.deep_view() {
                CapCommandView::AskUser(CommandView::Ask { input }, to) => Some(
                    asking(self.mute, to.call, input),
                ),
                _ => None,
            }),
    {
        match cmd {
            CapCommand::AskUser(Command::Ask { input }, to) => Some(
                self.asked(to.call.as_str(), input),
            ),
            _ => None,
        }
    }

    /// A message that may concern the park. A turn ending never does: a park
    /// ends the turn that made it.
    pub fn handle(&self, state: &AskUserState, msg: &Msg) -> (r: Option<Decision>)
        ensures
            r.deep_view() == ask_user_handles(state.deep_view(), msg.deep_view()),
    {
        match msg {
            Msg::Answer(answers) => Self::answered(state, answers),
            Msg::Turn(TurnEvent::Began) => {
                let calls = state.calls();
                if calls.len() > 0 {
                    Some(Decision::record(CapabilityEvent::AskUserAbandoned))
                } else {
                    None
                }
            },
            _ => None,
        }
    }
}

impl Default for AskUserCapability {
    fn default() -> (r: Self)
        ensures
            r.mute is None,
    {
        AskUserCapability { mute: None }
    }
}

/// An answered park is over: once the answer is folded, nothing is held.
pub proof fn law_an_answered_park_is_over(state: AskUserStateView)
    requires
        state.pending.dom().finite(),
    ensures
        state.answered(state.calls()) == AskUserStateView::idle(),
{
    sorted::law_a_finite_map_is_listed(state.pending);
    let after = state.answered(state.calls()).pending;
    assert forall|k: Seq<char>| !after.contains_key(k) by {
        if state.pending.contains_key(k) {
            assert(sorted::map_of(sorted::entries_of(state.pending)).contains_key(k));
            assert(state.calls().contains(k));
        }
    }
    assert(after =~= Map::empty());
    assert(state.answered(state.calls()) =~= AskUserStateView::idle());
}

/// Resuming a park leaves no call dangling: every call it held gets exactly one
/// result, in the park's order, and none of them an error.
pub proof fn law_a_resumed_park_leaves_nothing_dangling(
    state: AskUserStateView,
    answers: Seq<AskAnswerView>,
)
    ensures
        ({
            let results = resumption(state.calls(), answers);
            &&& results.len() == state.calls().len()
            &&& forall|i: int|
                0 <= i < results.len() ==> (#[trigger] results[i]).tool_call_id == state.calls()[i]
                    && !results[i].is_error
        }),
{
}

/// A park outlives the turn that made it: only a turn beginning ends it.
pub proof fn law_the_turn_that_parked_does_not_end_the_park(
    state: AskUserStateView,
    event: TurnEvent,
)
    requires
        event != TurnEvent::Began,
    ensures
        ask_user_handles(state, MsgView::Turn(event)) is None,
{
}

/// An agent that may not ask records nothing when it asks, and claims no tool.
pub proof fn law_a_muted_agent_parks_nothing(mute: Mute, call: Seq<char>, input: JsonView)
    ensures
        asking(Some(mute), call, input).events.len() == 0,
        ask_claims(Some(mute)).len() == 0,
{
}

/// A question that can be asked is recorded under its call in its own words,
/// shown to whoever reads along, and parks the agent on that call. A muted
/// agent is told why it cannot ask, and nothing is recorded or parked.
pub proof fn law_a_question_parks_the_agent(
    call: Seq<char>,
    input: JsonView,
    question: Seq<char>,
)
    ensures
        input.get("question"@) == Some(JsonView::String(question)) ==> {
            let d = asking(None, call, input);
            &&& d.events == seq![CapabilityEventView::AskUserAsked { call, question }]
            &&& d.acts == seq![
                ActView::Record(AskLifecycleView { tool_call_id: Some(call), question }),
                ActView::Park { call, note: question },
            ]
        },
        asking(Some(Mute::Unattended), call, input).acts == seq![
            ActView::Answer { call, text: UNATTENDED_REFUSAL@ },
        ],
        asking(Some(Mute::NotInteractive), call, input).acts == seq![
            ActView::Answer { call, text: NOT_INTERACTIVE_REFUSAL@ },
        ],
{
    if input.get("question"@) == Some(JsonView::String(question)) {
        assert(asking(None, call, input).acts =~= seq![
            ActView::Record(AskLifecycleView { tool_call_id: Some(call), question }),
            ActView::Park { call, note: question },
        ]);
    }
}

/// A question is answered with what was said to it last, and with nothing when
/// nothing was said.
pub proof fn law_a_question_gets_the_last_word_said_to_it(
    answers: Seq<AskAnswerView>,
    call: Seq<char>,
    k: int,
)
    requires
        -1 <= k < answers.len(),
        k >= 0 ==> answers[k].tool_call_id == call,
        forall|i: int| k < i < answers.len() ==> (#[trigger] answers[i]).tool_call_id != call,
    ensures
        k >= 0 ==> text_for(answers, call) == answers[k].text,
        k == -1 ==> text_for(answers, call).len() == 0,
    decreases answers.len(),
{
    if answers.len() > 0 {
        let rest = answers.drop_last();
        if k < rest.len() {
            assert(answers[answers.len() - 1].tool_call_id != call);
            assert forall|i: int| k < i < rest.len() implies (#[trigger] rest[i]).tool_call_id
                != call by {
                assert(rest[i] == answers[i]);
            }
            if k >= 0 {
                assert(rest[k] == answers[k]);
            }
            law_a_question_gets_the_last_word_said_to_it(rest, call, k);
        }
    }
}

/// Answers that cover the park, and no others, resume the agent: every open
/// call gets its own answer, none of them an error, and the questions are
/// recorded as answered. A turn that begins over an open park abandons it.
/// Nothing else moves a park.
pub proof fn law_a_park_is_moved_by_its_answers_alone(
    state: AskUserStateView,
    answers: Seq<AskAnswerView>,
    msg: MsgView,
    i: int,
)
    requires
        0 <= i < state.calls().len(),
    ensures
        ({
            let open = state.pending != Map::<Seq<char>, Seq<char>>::empty();
            let covered = state.calls().to_set() == inbox::answered_calls(answers).to_set();
            &&& open && covered ==> (ask_user_handles(state, MsgView::Answer(answers)) matches Some(
                d,
            ) && d.events == seq![
                CapabilityEventView::AskUserAnswered { calls: state.calls() },
            ] && d.acts.len() == 1 && (d.acts[0] matches ActView::Resume { results }
                && results.len() == state.calls().len() && results[i].tool_call_id
                == state.calls()[i] && results[i].output == text_for(answers, state.calls()[i])
                && !results[i].is_error && results[i].artifacts.len() == 0))
            &&& !open || !covered ==> ask_user_handles(state, MsgView::Answer(answers)) is None
            &&& open ==> (ask_user_handles(state, MsgView::Turn(TurnEvent::Began)) matches Some(d)
                && d.events == seq![CapabilityEventView::AskUserAbandoned] && d.acts.len() == 0)
            &&& !open ==> ask_user_handles(state, MsgView::Turn(TurnEvent::Began)) is None
            &&& !(msg is Answer) && !(msg is Turn) ==> ask_user_handles(state, msg) is None
        }),
{
}

/// An agent that may not ask is told so in its prompt, in the words of why;
/// one that may is told nothing.
pub proof fn law_a_muted_agent_is_told_why()
    ensures
        mute_prompt(Some(Mute::Unattended)) == Some(
            PromptSectionView { key: "unattended"@, body: UNATTENDED_PROMPT_SUFFIX@ },
        ),
        mute_prompt(Some(Mute::NotInteractive)) == Some(
            PromptSectionView { key: "not_interactive"@, body: NOT_INTERACTIVE_PROMPT_SUFFIX@ },
        ),
        mute_prompt(None) is None,
{
}

} // verus!
