//! What is addressed to an agent, and when it becomes a turn.
//!
//! An agent has one queue, and everything that arrives for it goes in the same
//! one: a person's message, a subagent's report, a timer firing, a `Stop` hook
//! saying to keep going. They differ in what they contribute to the turn, not
//! in how they are held.

use crate::context::{AskedQuestion, AskedQuestionView};
use crate::ids::SessionId;
use crate::lists;
use crate::model::{
    SubAgentResultPart, SubAgentResultPartView, ToolResultInput, ToolResultInputView,
};
use crate::sorted::{self, sorted_difference};
use crate::text::{self, Dup, join};
use vstd::prelude::*;

verus! {

/// Separator between messages merged into one turn.
pub const MERGE_SEPARATOR: &'static str = "\n\n";

/// The tool result recorded for a question the user walked away from.
pub const ABANDONED_ASK_RESULT: &'static str = "not answered — the user sent a new message instead";

/// One accepted-but-undelivered thing addressed to an agent.
///
/// Every variant carries an `id` so a turn can name exactly what it consumed.
#[derive(Debug, PartialEq, Eq)]
pub enum Incoming {
    /// A person typed something.
    User { id: String, text: String },
    /// A subagent this agent spawned finished, and owes it the report.
    SubAgent { id: String, part: Box<SubAgentResultPart> },
    /// A timer this agent armed fired.
    Timer { id: String, message: String },
    /// A `Stop` hook blocked the end of a turn, so the turn continues with the
    /// hook's reason as its input.
    Continue { id: String, reason: String },
    /// Someone typed `/compact`. It never reaches the model: `instructions`
    /// only steers the summariser.
    Compact { id: String, instructions: Option<String> },
    /// Someone typed `/summary-n-fork`, and `sub_session` is the one waiting
    /// on the summary.
    SubSession { id: String, sub_session: SessionId },
}

/// What a [`Incoming`] stands for.
#[verifier::ext_equal]
pub enum IncomingView {
    User { id: Seq<char>, text: Seq<char> },
    SubAgent { id: Seq<char>, part: SubAgentResultPartView },
    Timer { id: Seq<char>, message: Seq<char> },
    Continue { id: Seq<char>, reason: Seq<char> },
    Compact { id: Seq<char>, instructions: Option<Seq<char>> },
    SubSession { id: Seq<char>, sub_session: SessionId },
}

impl DeepView for Incoming {
    type V = IncomingView;

    open spec fn deep_view(&self) -> IncomingView {
        match self {
            Incoming::User { id, text } => IncomingView::User {
                id: id.deep_view(),
                text: text.deep_view(),
            },
            Incoming::SubAgent { id, part } => IncomingView::SubAgent {
                id: id.deep_view(),
                part: part.deep_view(),
            },
            Incoming::Timer { id, message } => IncomingView::Timer {
                id: id.deep_view(),
                message: message.deep_view(),
            },
            Incoming::Continue { id, reason } => IncomingView::Continue {
                id: id.deep_view(),
                reason: reason.deep_view(),
            },
            Incoming::Compact { id, instructions } => IncomingView::Compact {
                id: id.deep_view(),
                instructions: instructions.deep_view(),
            },
            Incoming::SubSession { id, sub_session } => IncomingView::SubSession {
                id: id.deep_view(),
                sub_session: sub_session.deep_view(),
            },
        }
    }
}

impl Dup for Incoming {
    fn dup(&self) -> (out: Self) {
        match self {
            Incoming::User { id, text } => Incoming::User {
                id: id.dup(),
                text: text.dup(),
            },
            Incoming::SubAgent { id, part } => Incoming::SubAgent {
                id: id.dup(),
                part: part.dup(),
            },
            Incoming::Timer { id, message } => Incoming::Timer {
                id: id.dup(),
                message: message.dup(),
            },
            Incoming::Continue { id, reason } => Incoming::Continue {
                id: id.dup(),
                reason: reason.dup(),
            },
            Incoming::Compact { id, instructions } => Incoming::Compact {
                id: id.dup(),
                instructions: instructions.dup(),
            },
            Incoming::SubSession { id, sub_session } => Incoming::SubSession {
                id: id.dup(),
                sub_session: sub_session.dup(),
            },
        }
    }
}

impl Clone for Incoming {
    fn clone(&self) -> (out: Self)
        ensures
            out.deep_view() == self.deep_view(),
    {
        self.dup()
    }
}

/// A summary a turn was asked for, and what becomes of it.
#[derive(Debug, PartialEq, Eq)]
pub enum Summarise {
    /// `/compact`: fold the summary back into this agent's own history.
    Compact(Option<String>),
    /// `/summary-n-fork`: the summary seeds these sub sessions.
    SubSession(Vec<SessionId>),
}

/// What a [`Summarise`] stands for.
#[verifier::ext_equal]
pub enum SummariseView {
    Compact(Option<Seq<char>>),
    SubSession(Seq<SessionId>),
}

impl DeepView for Summarise {
    type V = SummariseView;

    open spec fn deep_view(&self) -> SummariseView {
        match self {
            Summarise::Compact(a) => SummariseView::Compact(a.deep_view()),
            Summarise::SubSession(a) => SummariseView::SubSession(a.deep_view()),
        }
    }
}

impl Dup for Summarise {
    fn dup(&self) -> (out: Self) {
        match self {
            Summarise::Compact(a) => Summarise::Compact(a.dup()),
            Summarise::SubSession(a) => Summarise::SubSession(a.dup()),
        }
    }
}

impl Clone for Summarise {
    fn clone(&self) -> (out: Self)
        ensures
            out.deep_view() == self.deep_view(),
    {
        self.dup()
    }
}

/// Everything an agent is about to be resumed with, and what that consumes.
#[derive(Debug, PartialEq, Eq)]
pub struct Turn {
    /// Ids of the queue items this turn carries.
    pub consumed: Vec<String>,
    /// A summarisation this turn carries, and what becomes of the summary.
    pub summarise: Option<Summarise>,
    /// Tool-call ids of the questions this turn *answered*. Empty when the turn
    /// abandoned them instead.
    pub answered: Vec<String>,
    pub message: Option<String>,
    pub subagent_results: Vec<SubAgentResultPart>,
    pub results: Vec<ToolResultInput>,
}

/// What a [`Turn`] stands for.
#[verifier::ext_equal]
pub struct TurnView {
    pub consumed: Seq<Seq<char>>,
    pub summarise: Option<SummariseView>,
    pub answered: Seq<Seq<char>>,
    pub message: Option<Seq<char>>,
    pub subagent_results: Seq<SubAgentResultPartView>,
    pub results: Seq<ToolResultInputView>,
}

impl DeepView for Turn {
    type V = TurnView;

    open spec fn deep_view(&self) -> TurnView {
        TurnView {
            consumed: self.consumed.deep_view(),
            summarise: self.summarise.deep_view(),
            answered: self.answered.deep_view(),
            message: self.message.deep_view(),
            subagent_results: self.subagent_results.deep_view(),
            results: self.results.deep_view(),
        }
    }
}

impl Dup for Turn {
    fn dup(&self) -> (out: Self) {
        Turn {
            consumed: self.consumed.dup(),
            summarise: self.summarise.dup(),
            answered: self.answered.dup(),
            message: self.message.dup(),
            subagent_results: self.subagent_results.dup(),
            results: self.results.dup(),
        }
    }
}

impl Clone for Turn {
    fn clone(&self) -> (out: Self)
        ensures
            out.deep_view() == self.deep_view(),
    {
        self.dup()
    }
}

/// One answer to one pending question.
#[derive(Debug, PartialEq, Eq)]
pub struct AskAnswer {
    pub tool_call_id: String,
    pub text: String,
}

/// What a [`AskAnswer`] stands for.
#[verifier::ext_equal]
pub struct AskAnswerView {
    pub tool_call_id: Seq<char>,
    pub text: Seq<char>,
}

impl DeepView for AskAnswer {
    type V = AskAnswerView;

    open spec fn deep_view(&self) -> AskAnswerView {
        AskAnswerView {
            tool_call_id: self.tool_call_id.deep_view(),
            text: self.text.deep_view(),
        }
    }
}

impl Dup for AskAnswer {
    fn dup(&self) -> (out: Self) {
        AskAnswer {
            tool_call_id: self.tool_call_id.dup(),
            text: self.text.dup(),
        }
    }
}

impl Clone for AskAnswer {
    fn clone(&self) -> (out: Self)
        ensures
            out.deep_view() == self.deep_view(),
    {
        self.dup()
    }
}

/// Why a set of answers was refused.
#[derive(Debug, PartialEq, Eq)]
pub enum AnswerError {
    /// This agent is not parked on anything answerable.
    NothingPending,
    /// The answers did not cover the pending questions exactly.
    Incomplete { missing: Vec<String>, unexpected: Vec<String> },
}

/// What a [`AnswerError`] stands for.
#[verifier::ext_equal]
pub enum AnswerErrorView {
    NothingPending,
    Incomplete { missing: Seq<Seq<char>>, unexpected: Seq<Seq<char>> },
}

impl DeepView for AnswerError {
    type V = AnswerErrorView;

    open spec fn deep_view(&self) -> AnswerErrorView {
        match self {
            AnswerError::NothingPending => AnswerErrorView::NothingPending,
            AnswerError::Incomplete { missing, unexpected } => AnswerErrorView::Incomplete {
                missing: missing.deep_view(),
                unexpected: unexpected.deep_view(),
            },
        }
    }
}

impl Dup for AnswerError {
    fn dup(&self) -> (out: Self) {
        match self {
            AnswerError::NothingPending => AnswerError::NothingPending,
            AnswerError::Incomplete { missing, unexpected } => AnswerError::Incomplete {
                missing: missing.dup(),
                unexpected: unexpected.dup(),
            },
        }
    }
}

impl Clone for AnswerError {
    fn clone(&self) -> (out: Self)
        ensures
            out.deep_view() == self.deep_view(),
    {
        self.dup()
    }
}

impl AnswerErrorView {
    /// The refusal in words.
    pub open spec fn message(self) -> Seq<char> {
        match self {
            AnswerErrorView::NothingPending => "this agent is not waiting on an answer"@,
            AnswerErrorView::Incomplete { missing, unexpected } =>
                "every pending question must be answered together (missing: ["@ + text::joined(
                missing,
                ", "@,
            ) + "]; not pending: ["@ + text::joined(unexpected, ", "@) + "])"@,
        }
    }
}

impl AnswerError {
    /// The refusal in words.
    pub fn message(&self) -> (r: String)
        ensures
            r@ == self.deep_view().message(),
    {
        match self {
            AnswerError::NothingPending => "this agent is not waiting on an answer".to_owned(),
            AnswerError::Incomplete { missing, unexpected } => {
                let mut out = "every pending question must be answered together (missing: [".to_owned();
                out.append(join(missing, ", ").as_str());
                out.append("]; not pending: [");
                out.append(join(unexpected, ", ").as_str());
                out.append("])");
                out
            },
        }
    }
}

impl IncomingView {
    /// This item's identity.
    pub open spec fn id(self) -> Seq<char> {
        match self {
            IncomingView::User { id, .. } => id,
            IncomingView::SubAgent { id, .. } => id,
            IncomingView::Timer { id, .. } => id,
            IncomingView::Continue { id, .. } => id,
            IncomingView::Compact { id, .. } => id,
            IncomingView::SubSession { id, .. } => id,
        }
    }

    /// Whether this is a person speaking.
    pub open spec fn is_user(self) -> bool {
        self is User
    }

    /// What this item contributes to the turn's user message, if anything.
    pub open spec fn text(self) -> Option<Seq<char>> {
        match self {
            IncomingView::User { text, .. } => Some(text),
            IncomingView::Timer { message, .. } => Some(message),
            IncomingView::Continue { reason, .. } => Some(reason),
            _ => None,
        }
    }

    /// The report this item carries, if it is one.
    pub open spec fn report(self) -> Option<SubAgentResultPartView> {
        match self {
            IncomingView::SubAgent { part, .. } => Some(part),
            _ => None,
        }
    }

    /// The sub session this item waits on a summary for, if it is one.
    pub open spec fn sub_session(self) -> Option<SessionId> {
        match self {
            IncomingView::SubSession { sub_session, .. } => Some(sub_session),
            _ => None,
        }
    }

    /// The focus instructions of a compaction, if this is one.
    pub open spec fn compaction(self) -> Option<Option<Seq<char>>> {
        match self {
            IncomingView::Compact { instructions, .. } => Some(instructions),
            _ => None,
        }
    }
}

impl Incoming {
    /// This item's identity, for `consumed`.
    pub fn id(&self) -> (r: &str)
        ensures
            r@ == self.deep_view().id(),
    {
        match self {
            Incoming::User { id, .. } => id.as_str(),
            Incoming::SubAgent { id, .. } => id.as_str(),
            Incoming::Timer { id, .. } => id.as_str(),
            Incoming::Continue { id, .. } => id.as_str(),
            Incoming::Compact { id, .. } => id.as_str(),
            Incoming::SubSession { id, .. } => id.as_str(),
        }
    }

    /// Whether this is a person speaking.
    ///
    /// It decides a single thing: whether this item may override a park. News
    /// that merely *arrived* has no opinion about the questions and waits.
    pub fn is_user(&self) -> (r: bool)
        ensures
            r == self.deep_view().is_user(),
    {
        match self {
            Incoming::User { .. } => true,
            _ => false,
        }
    }

    /// What this item contributes to the turn's user message, if anything.
    ///
    /// A report is its own content part and never merged into the text; the
    /// two slash commands are instructions to the server.
    pub fn text(&self) -> (r: Option<&str>)
        ensures
            match r {
                Some(s) => self.deep_view().text() == Some(s@),
                None => self.deep_view().text() is None,
            },
    {
        match self {
            Incoming::User { text, .. } => Some(text.as_str()),
            Incoming::Timer { message, .. } => Some(message.as_str()),
            Incoming::Continue { reason, .. } => Some(reason.as_str()),
            _ => None,
        }
    }
}

/// The ids of everything queued, in order.
pub open spec fn ids_of(inbox: Seq<IncomingView>) -> Seq<Seq<char>> {
    inbox.map_values(|i: IncomingView| i.id())
}

/// The texts queued, in order.
pub open spec fn texts_of(inbox: Seq<IncomingView>) -> Seq<Seq<char>> {
    lists::filter_map(inbox, |i: IncomingView| i.text())
}

/// The reports queued, in order.
pub open spec fn reports_of(inbox: Seq<IncomingView>) -> Seq<SubAgentResultPartView> {
    lists::filter_map(inbox, |i: IncomingView| i.report())
}

/// The sub sessions queued, in order.
pub open spec fn sub_sessions_of(inbox: Seq<IncomingView>) -> Seq<SessionId> {
    lists::filter_map(inbox, |i: IncomingView| i.sub_session())
}

/// The texts merged into one message; no message at all when there are none.
pub open spec fn merged(texts: Seq<Seq<char>>) -> Option<Seq<char>> {
    if texts.len() == 0 {
        None
    } else {
        Some(text::joined(texts, MERGE_SEPARATOR@))
    }
}

/// The one summary a queue asks for: its sub sessions' when it has any, else
/// its newest compaction.
pub open spec fn summary_asked(inbox: Seq<IncomingView>) -> Option<SummariseView> {
    if sub_sessions_of(inbox).len() > 0 {
        Some(SummariseView::SubSession(sub_sessions_of(inbox)))
    } else {
        match lists::find_last(inbox, |i: IncomingView| i.compaction()) {
            Some(instructions) => Some(SummariseView::Compact(instructions)),
            None => None,
        }
    }
}

/// The whole queue as one turn's input.
pub open spec fn drained(inbox: Seq<IncomingView>) -> TurnView {
    TurnView {
        consumed: ids_of(inbox),
        summarise: summary_asked(inbox),
        answered: seq![],
        message: merged(texts_of(inbox)),
        subagent_results: reports_of(inbox),
        results: seq![],
    }
}

/// The calls a park is waiting on.
pub open spec fn pending_calls(asks: Seq<AskedQuestionView>) -> Seq<Seq<char>> {
    lists::filter_map(asks, |a: AskedQuestionView| a.tool_call_id)
}

/// The result of a question the user walked away from.
pub open spec fn abandoned_result(call: Seq<char>) -> ToolResultInputView {
    ToolResultInputView {
        tool_call_id: call,
        output: ABANDONED_ASK_RESULT@,
        is_error: true,
        artifacts: seq![],
    }
}

/// One result for every call a park was waiting on, saying it went unanswered.
pub open spec fn abandoned(asks: Seq<AskedQuestionView>) -> Seq<ToolResultInputView> {
    pending_calls(asks).map_values(|call: Seq<char>| abandoned_result(call))
}

/// The calls a set of answers names, in the order it names them.
pub open spec fn answered_calls(answers: Seq<AskAnswerView>) -> Seq<Seq<char>> {
    answers.map_values(|a: AskAnswerView| a.tool_call_id)
}

/// The result an answer gives its call.
pub open spec fn answer_result(answer: AskAnswerView) -> ToolResultInputView {
    ToolResultInputView {
        tool_call_id: answer.tool_call_id,
        output: answer.text,
        is_error: false,
        artifacts: seq![],
    }
}

/// The results a set of answers gives, in its order.
pub open spec fn answer_results(answers: Seq<AskAnswerView>) -> Seq<ToolResultInputView> {
    answers.map_values(|a: AskAnswerView| answer_result(a))
}

/// Whether a park holds the queue: questions are open, and nobody in the queue
/// is a person changing their mind.
pub open spec fn held(inbox: Seq<IncomingView>, asks: Seq<AskedQuestionView>) -> bool {
    asks.len() > 0 && forall|i: int|
        0 <= i < inbox.len() ==> !(#[trigger] inbox[i]).is_user()
}

/// What the queue becomes a turn of, if it may become one now.
pub open spec fn turn_offered(
    inbox: Seq<IncomingView>,
    asks: Seq<AskedQuestionView>,
) -> Option<TurnView> {
    if inbox.len() == 0 || held(inbox, asks) {
        None
    } else {
        Some(TurnView { results: abandoned(asks), ..drained(inbox) })
    }
}

/// Why a set of answers cannot resume a park waiting on `pending`, if it
/// cannot: nothing is pending, or the answers do not name exactly those calls.
pub open spec fn refused(
    pending: Seq<Seq<char>>,
    answered: Seq<Seq<char>>,
    refusal: Option<AnswerErrorView>,
) -> bool {
    let p = pending.to_set();
    let a = answered.to_set();
    if pending.len() == 0 {
        refusal == Some(AnswerErrorView::NothingPending)
    } else if p == a {
        refusal is None
    } else {
        &&& refusal matches Some(AnswerErrorView::Incomplete { missing, unexpected })
        &&& sorted::lists(missing, p.difference(a))
        &&& sorted::lists(unexpected, a.difference(p))
    }
}

/// The calls a park is waiting on.
pub fn pending_ids(asks: &[AskedQuestion]) -> (r: Vec<String>)
    ensures
        r.deep_view() == pending_calls(asks.deep_view()),
{
    let ghost all = asks.deep_view();
    let ghost f = |a: AskedQuestionView| a.tool_call_id;
    let mut out: Vec<String> = Vec::new();
    for i in 0..asks.len()
        invariant
            all == asks.deep_view(),
            f == (|a: AskedQuestionView| a.tool_call_id),
            out.deep_view() == lists::filter_map(all.take(i as int), f),
    {
        let ghost had = out.deep_view();
        proof {
            lists::lemma_filter_map_step(all, f, i as int);
        }
        if let Some(call) = &asks[i].tool_call_id {
            out.push(call.clone());
            proof {
                assert(out.deep_view() =~= had.push(call@));
            }
        }
    }
    proof {
        assert(all.take(asks.len() as int) =~= all);
    }
    out
}

/// The calls a set of answers names.
pub fn answer_ids(answers: &[AskAnswer]) -> (r: Vec<String>)
    ensures
        r.deep_view() == answered_calls(answers.deep_view()),
{
    let ghost all = answered_calls(answers.deep_view());
    let mut out: Vec<String> = Vec::new();
    for i in 0..answers.len()
        invariant
            all == answered_calls(answers.deep_view()),
            out.deep_view() == all.take(i as int),
    {
        let ghost had = out.deep_view();
        out.push(answers[i].tool_call_id.clone());
        proof {
            assert(answers.deep_view()[i as int] == answers[i as int].deep_view());
            assert(out.deep_view() =~= had.push(all[i as int]));
            assert(all.take(i + 1) =~= all.take(i as int).push(all[i as int]));
        }
    }
    proof {
        assert(all.take(answers.len() as int) =~= all);
    }
    out
}

/// One result for every call a park was waiting on, saying it went unanswered.
pub fn abandoned_results(asks: &[AskedQuestion]) -> (r: Vec<ToolResultInput>)
    ensures
        r.deep_view() == abandoned(asks.deep_view()),
{
    let calls = pending_ids(asks);
    let ghost all = abandoned(asks.deep_view());
    let mut out: Vec<ToolResultInput> = Vec::new();
    for i in 0..calls.len()
        invariant
            calls.deep_view() == pending_calls(asks.deep_view()),
            all == abandoned(asks.deep_view()),
            out.deep_view() == all.take(i as int),
    {
        let result = ToolResultInput {
            tool_call_id: calls[i].clone(),
            output: ABANDONED_ASK_RESULT.to_owned(),
            is_error: true,
            artifacts: Vec::new(),
        };
        proof {
            assert(calls.deep_view()[i as int] == calls[i as int]@);
            assert(result.artifacts.deep_view() =~= seq![]);
        }
        let ghost had = out.deep_view();
        out.push(result);
        proof {
            assert(result.deep_view() == all[i as int]);
            assert(out.deep_view() =~= had.push(all[i as int]));
            assert(all.take(i + 1) =~= all.take(i as int).push(all[i as int]));
        }
    }
    proof {
        assert(all.take(calls.len() as int) =~= all);
    }
    out
}

/// The results a set of answers gives, in its order.
pub fn results_of_answers(answers: Vec<AskAnswer>) -> (r: Vec<ToolResultInput>)
    ensures
        r.deep_view() == answer_results(answers.deep_view()),
{
    let ghost all = answer_results(answers.deep_view());
    let mut out: Vec<ToolResultInput> = Vec::new();
    for i in 0..answers.len()
        invariant
            all == answer_results(answers.deep_view()),
            out.deep_view() == all.take(i as int),
    {
        let result = ToolResultInput {
            tool_call_id: answers[i].tool_call_id.clone(),
            output: answers[i].text.clone(),
            is_error: false,
            artifacts: Vec::new(),
        };
        proof {
            assert(result.artifacts.deep_view() =~= seq![]);
        }
        let ghost had = out.deep_view();
        out.push(result);
        proof {
            assert(answers.deep_view()[i as int] == answers[i as int].deep_view());
            assert(result.deep_view() == all[i as int]);
            assert(out.deep_view() =~= had.push(all[i as int]));
            assert(all.take(i + 1) =~= all.take(i as int).push(all[i as int]));
        }
    }
    proof {
        assert(all.take(answers.len() as int) =~= all);
    }
    out
}

/// Why these answers cannot resume a park waiting on `pending`, if they cannot.
///
/// All or nothing: a half-answered park could not resume anyway, because the
/// next provider call would carry a `tool_use` with no result.
pub fn refusal(pending: &[String], answered: &[String]) -> (r: Option<AnswerError>)
    ensures
        refused(pending.deep_view(), answered.deep_view(), r.deep_view()),
{
    if pending.len() == 0 {
        return Some(AnswerError::NothingPending);
    }
    let missing = sorted_difference(pending, answered);
    let unexpected = sorted_difference(answered, pending);
    let ghost p = pending.deep_view().to_set();
    let ghost a = answered.deep_view().to_set();
    if missing.len() == 0 && unexpected.len() == 0 {
        proof {
            assert forall|x: Seq<char>| p.contains(x) <==> a.contains(x) by {
                assert(missing.deep_view().contains(x) == p.difference(a).contains(x));
                assert(unexpected.deep_view().contains(x) == a.difference(p).contains(x));
            }
            assert(p =~= a);
        }
        return None;
    }
    proof {
        if p == a {
            if missing.len() > 0 {
                assert(missing.deep_view().contains(missing.deep_view()[0]));
            } else {
                assert(unexpected.deep_view().contains(unexpected.deep_view()[0]));
            }
        }
    }
    Some(AnswerError::Incomplete { missing, unexpected })
}

/// Whether anybody in the queue is a person speaking.
fn any_user(inbox: &[Incoming]) -> (r: bool)
    ensures
        r == exists|i: int|
            0 <= i < inbox.deep_view().len() && (#[trigger] inbox.deep_view()[i]).is_user(),
{
    for i in 0..inbox.len()
        invariant
            forall|j: int| 0 <= j < i ==> !(#[trigger] inbox.deep_view()[j]).is_user(),
    {
        if inbox[i].is_user() {
            proof {
                assert(inbox.deep_view()[i as int].is_user());
            }
            return true;
        }
    }
    false
}

/// The one summary this turn takes, out of everything that asked for one.
///
/// Sub sessions win over a queued `/compact`, and every sub session in the
/// drain shares the result: a dropped compaction is an optimisation that did
/// not happen, while a dropped sub session is never provisioned at all.
pub fn summarise(inbox: &[Incoming]) -> (r: Option<Summarise>)
    ensures
        r.deep_view() == summary_asked(inbox.deep_view()),
{
    let ghost all = inbox.deep_view();
    let ghost f = |i: IncomingView| i.sub_session();
    let ghost g = |i: IncomingView| i.compaction();
    let mut sub_sessions: Vec<SessionId> = Vec::new();
    for i in 0..inbox.len()
        invariant
            all == inbox.deep_view(),
            f == (|i: IncomingView| i.sub_session()),
            sub_sessions.deep_view() == lists::filter_map(all.take(i as int), f),
    {
        let ghost had = sub_sessions.deep_view();
        proof {
            lists::lemma_filter_map_step(all, f, i as int);
        }
        if let Incoming::SubSession { sub_session, .. } = &inbox[i] {
            sub_sessions.push(*sub_session);
            proof {
                assert(sub_sessions.deep_view() =~= had.push(*sub_session));
            }
        }
    }
    proof {
        assert(all.take(inbox.len() as int) =~= all);
    }
    if sub_sessions.len() > 0 {
        return Some(Summarise::SubSession(sub_sessions));
    }
    let mut i: usize = inbox.len();
    while i > 0
        invariant
            i <= inbox.len(),
            all == inbox.deep_view(),
            g == (|i: IncomingView| i.compaction()),
            lists::find_last(all.take(i as int), g) == lists::find_last(all, g),
            sub_sessions_of(all).len() == 0,
        decreases i,
    {
        proof {
            assert(all.take(i as int).drop_last() =~= all.take(i - 1));
        }
        if let Incoming::Compact { instructions, .. } = &inbox[i - 1] {
            return Some(Summarise::Compact(instructions.dup()));
        }
        i = i - 1;
    }
    None
}

/// Fold the whole queue into one turn's input. Never partial: an agent that is
/// starting a turn at all is starting it on everything it has been told.
pub fn drain(inbox: &[Incoming]) -> (r: Turn)
    ensures
        r.deep_view() == drained(inbox.deep_view()),
{
    let ghost all = inbox.deep_view();
    let ghost ids = ids_of(all);
    let ghost text = |i: IncomingView| i.text();
    let ghost report = |i: IncomingView| i.report();
    let mut consumed: Vec<String> = Vec::new();
    let mut texts: Vec<String> = Vec::new();
    let mut reports: Vec<SubAgentResultPart> = Vec::new();
    for i in 0..inbox.len()
        invariant
            all == inbox.deep_view(),
            ids == ids_of(all),
            text == (|i: IncomingView| i.text()),
            report == (|i: IncomingView| i.report()),
            consumed.deep_view() == ids.take(i as int),
            texts.deep_view() == lists::filter_map(all.take(i as int), text),
            reports.deep_view() == lists::filter_map(all.take(i as int), report),
    {
        let ghost had = texts.deep_view();
        let ghost told = reports.deep_view();
        proof {
            lists::lemma_filter_map_step(all, text, i as int);
            lists::lemma_filter_map_step(all, report, i as int);
        }
        let ghost named = consumed.deep_view();
        consumed.push(inbox[i].id().to_owned());
        proof {
            assert(inbox.deep_view()[i as int] == inbox[i as int].deep_view());
            assert(consumed.deep_view() =~= named.push(ids[i as int]));
            assert(ids.take(i + 1) =~= ids.take(i as int).push(ids[i as int]));
        }
        if let Some(t) = inbox[i].text() {
            texts.push(t.to_owned());
            proof {
                assert(texts.deep_view() =~= had.push(t@));
            }
        }
        if let Incoming::SubAgent { part, .. } = &inbox[i] {
            reports.push((**part).dup());
            proof {
                assert(reports.deep_view() =~= told.push(part.deep_view()));
            }
        }
    }
    proof {
        assert(all.take(inbox.len() as int) =~= all);
        assert(ids.take(inbox.len() as int) =~= ids);
    }
    let message = if texts.len() == 0 {
        None
    } else {
        Some(join(&texts, MERGE_SEPARATOR))
    };
    let turn = Turn {
        consumed,
        summarise: summarise(inbox),
        answered: Vec::new(),
        message,
        subagent_results: reports,
        results: Vec::new(),
    };
    proof {
        assert(turn.answered.deep_view() =~= seq![]);
        assert(turn.results.deep_view() =~= seq![]);
    }
    turn
}

/// Whether the queue may start a turn now, and what that turn carries.
///
/// `None` means "not yet", for one of two reasons: nothing is queued, or the
/// agent is parked on questions and nothing queued is entitled to abandon
/// them. Abandoned questions still get a result each, so nothing dangles.
pub fn queued_turn(inbox: &[Incoming], asks: &[AskedQuestion]) -> (r: Option<Turn>)
    ensures
        r.deep_view() == turn_offered(inbox.deep_view(), asks.deep_view()),
{
    if inbox.len() == 0 {
        return None;
    }
    if asks.len() > 0 && !any_user(inbox) {
        return None;
    }
    let mut turn = drain(inbox);
    turn.results = abandoned_results(asks);
    Some(turn)
}

/// The turn an answered park starts: the answers, plus whatever queued behind
/// them.
pub open spec fn answered_with(inbox: Seq<IncomingView>, answers: Seq<AskAnswerView>) -> TurnView {
    TurnView {
        answered: answered_calls(answers),
        results: answer_results(answers),
        ..drained(inbox)
    }
}

/// The turn an answered park starts: the answers, plus whatever queued behind
/// them. Refused unless the answers cover the pending questions exactly.
pub fn answered_turn(
    inbox: &[Incoming],
    asks: &[AskedQuestion],
    answers: Vec<AskAnswer>,
) -> (r: Result<Turn, AnswerError>)
    ensures
        match r {
            Ok(turn) => {
                &&& refused(
                    pending_calls(asks.deep_view()),
                    answered_calls(answers.deep_view()),
                    None,
                )
                &&& turn.deep_view() == answered_with(inbox.deep_view(), answers.deep_view())
                &&& turn.deep_view() == (TurnView {
                    answered: answered_calls(answers.deep_view()),
                    results: answer_results(answers.deep_view()),
                    ..drained(inbox.deep_view())
                })
            },
            Err(e) => refused(
                pending_calls(asks.deep_view()),
                answered_calls(answers.deep_view()),
                Some(e.deep_view()),
            ),
        },
{
    let pending = pending_ids(asks);
    let answered = answer_ids(&answers);
    if let Some(e) = refusal(&pending, &answered) {
        return Err(e);
    }
    let mut turn = drain(inbox);
    turn.answered = answered;
    turn.results = results_of_answers(answers);
    Ok(turn)
}

/// A refusal is settled by what is pending and what was answered: of two
/// verdicts on the same answers, neither differs from the other.
pub proof fn law_refusal_is_determined(
    pending: Seq<Seq<char>>,
    answered: Seq<Seq<char>>,
    a: Option<AnswerErrorView>,
    b: Option<AnswerErrorView>,
)
    requires
        refused(pending, answered, a),
        refused(pending, answered, b),
    ensures
        a == b,
{
    let p = pending.to_set();
    let q = answered.to_set();
    if pending.len() > 0 && p != q {
        crate::sorted::law_listing_is_unique(
            a->Some_0->missing,
            b->Some_0->missing,
            p.difference(q),
        );
        crate::sorted::law_listing_is_unique(
            a->Some_0->unexpected,
            b->Some_0->unexpected,
            q.difference(p),
        );
    }
}

/// Nothing but a person overrides a park: a turn offered while questions are
/// open has a person's message among what it carries.
pub proof fn law_only_a_person_overrides_a_park(
    inbox: Seq<IncomingView>,
    asks: Seq<AskedQuestionView>,
)
    requires
        asks.len() > 0,
        turn_offered(inbox, asks) is Some,
    ensures
        exists|i: int| 0 <= i < inbox.len() && (#[trigger] inbox[i]).is_user(),
{
}

/// One message from a person releases everything queued beside it: the turn
/// carries every queued id, in order, and every queued report.
pub proof fn law_a_turn_carries_the_whole_queue(
    inbox: Seq<IncomingView>,
    asks: Seq<AskedQuestionView>,
)
    requires
        turn_offered(inbox, asks) is Some,
    ensures
        turn_offered(inbox, asks)->Some_0.consumed == ids_of(inbox),
        turn_offered(inbox, asks)->Some_0.consumed.len() == inbox.len(),
        turn_offered(inbox, asks)->Some_0.subagent_results == reports_of(inbox),
{
}

/// No call is left dangling by an abandoned park: the turn holds one error
/// result for each pending call, in order, and answers none of them.
pub proof fn law_an_abandoned_park_leaves_nothing_dangling(
    inbox: Seq<IncomingView>,
    asks: Seq<AskedQuestionView>,
)
    requires
        turn_offered(inbox, asks) is Some,
    ensures
        ({
            let turn = turn_offered(inbox, asks)->Some_0;
            let calls = pending_calls(asks);
            &&& turn.answered.len() == 0
            &&& turn.results.len() == calls.len()
            &&& forall|i: int|
                0 <= i < calls.len() ==> (#[trigger] turn.results[i]).tool_call_id == calls[i]
                    && turn.results[i].is_error
        }),
{
}

/// An accepted answer set gives a result to every pending call and to no other.
pub proof fn law_accepted_answers_cover_the_park(
    asks: Seq<AskedQuestionView>,
    answers: Seq<AskAnswerView>,
)
    requires
        refused(pending_calls(asks), answered_calls(answers), None),
    ensures
        forall|call: Seq<char>|
            pending_calls(asks).contains(call) <==> exists|i: int|
                0 <= i < answers.len() && (#[trigger] answer_results(answers)[i]).tool_call_id
                    == call,
        forall|i: int|
            0 <= i < answers.len() ==> !(#[trigger] answer_results(answers)[i]).is_error,
{
    let p = pending_calls(asks);
    let q = answered_calls(answers);
    assert forall|call: Seq<char>| p.contains(call) <==> exists|i: int|
        0 <= i < answers.len() && (#[trigger] answer_results(answers)[i]).tool_call_id
            == call by {
        assert(p.contains(call) == p.to_set().contains(call));
        assert(q.contains(call) == q.to_set().contains(call));
        if q.contains(call) {
            let i = choose|i: int| 0 <= i < q.len() && q[i] == call;
            assert(answer_results(answers)[i].tool_call_id == call);
        }
        if exists|i: int|
            0 <= i < answers.len() && (#[trigger] answer_results(answers)[i]).tool_call_id
                == call {
            let i = choose|i: int|
                0 <= i < answers.len() && (#[trigger] answer_results(answers)[i]).tool_call_id
                    == call;
            assert(q[i] == call);
        }
    }
}

/// A slash command never reaches the model: an item that is one adds nothing
/// to a turn's message, wherever it stands in the queue.
pub proof fn law_slash_commands_say_nothing(
    front: Seq<IncomingView>,
    item: IncomingView,
    back: Seq<IncomingView>,
)
    requires
        item is Compact || item is SubSession,
    ensures
        drained(front.push(item) + back).message == drained(front + back).message,
{
    let f = |i: IncomingView| i.text();
    crate::lists::lemma_filter_map_concat(front.push(item), back, f);
    crate::lists::lemma_filter_map_concat(front, back, f);
    assert(front.push(item).drop_last() =~= front);
}

/// A sub session is never lost to a compaction: while one is queued, the
/// summary asked for is the sub sessions', all of them.
pub proof fn law_sub_sessions_win_over_compaction(inbox: Seq<IncomingView>, i: int)
    requires
        0 <= i < inbox.len(),
        inbox[i] is SubSession,
    ensures
        summary_asked(inbox) == Some(SummariseView::SubSession(sub_sessions_of(inbox))),
        sub_sessions_of(inbox).contains(inbox[i]->sub_session),
{
    let f = |i: IncomingView| i.sub_session();
    lists::lemma_filter_map_members(inbox, f);
    assert(f(inbox[i]) == Some(inbox[i]->sub_session));
    assert(lists::filter_map(inbox, f).contains(inbox[i]->sub_session));
    assert(sub_sessions_of(inbox) == lists::filter_map(inbox, f));
}

/// Every question is told its own answer: the turn holds one result for each
/// answer, in order, under the answer's own call and in the answer's own
/// words, and none of them an error. What was queued rides along unchanged.
pub proof fn law_each_question_is_told_its_own_answer(
    inbox: Seq<IncomingView>,
    answers: Seq<AskAnswerView>,
)
    ensures
        ({
            let turn = answered_with(inbox, answers);
            let queued = drained(inbox);
            &&& turn.results.len() == answers.len()
            &&& turn.answered.len() == answers.len()
            &&& forall|i: int|
                0 <= i < answers.len() ==> {
                    &&& (#[trigger] turn.results[i]).tool_call_id == answers[i].tool_call_id
                    &&& turn.results[i].output == answers[i].text
                    &&& !turn.results[i].is_error
                    &&& turn.results[i].artifacts.len() == 0
                }
            &&& forall|i: int|
                0 <= i < answers.len() ==> (#[trigger] turn.answered[i]) == answers[i].tool_call_id
            &&& turn.consumed == queued.consumed
            &&& turn.message == queued.message
            &&& turn.subagent_results == queued.subagent_results
            &&& turn.summarise == queued.summarise
        }),
{
}

/// Answers are taken exactly when something is pending and they name the
/// pending calls and no others. A refusal names what is missing and what is
/// not pending, each once.
pub proof fn law_answers_are_taken_exactly_when_they_cover_the_park(
    pending: Seq<Seq<char>>,
    answered: Seq<Seq<char>>,
)
    ensures
        refused(pending, answered, None) <==> pending.len() > 0 && forall|call: Seq<char>|
            #![trigger pending.contains(call)]
            #![trigger answered.contains(call)]
            pending.contains(call) <==> answered.contains(call),
        refused(pending, answered, Some(AnswerErrorView::NothingPending)) <==> pending.len() == 0,
        forall|missing: Seq<Seq<char>>, unexpected: Seq<Seq<char>>| #[trigger]
            refused(
                pending,
                answered,
                Some(AnswerErrorView::Incomplete { missing, unexpected }),
            ) ==> {
                &&& pending.len() > 0
                &&& missing.no_duplicates()
                &&& unexpected.no_duplicates()
                &&& missing.len() + unexpected.len() > 0
                &&& forall|call: Seq<char>| #[trigger]
                    missing.contains(call) <==> pending.contains(call) && !answered.contains(call)
                &&& forall|call: Seq<char>| #[trigger]
                    unexpected.contains(call) <==> answered.contains(call) && !pending.contains(
                        call,
                    )
            },
{
    let p = pending.to_set();
    let a = answered.to_set();
    assert forall|call: Seq<char>| true implies p.contains(call) == pending.contains(call)
        && a.contains(call) == answered.contains(call) by {}
    if p == a {
        assert forall|call: Seq<char>| #[trigger] pending.contains(call) <==> answered.contains(
            call,
        ) by {
            assert(p.contains(call) == a.contains(call));
        }
    }
    if forall|call: Seq<char>|
        #![trigger pending.contains(call)]
        #![trigger answered.contains(call)]
        pending.contains(call) <==> answered.contains(call) {
        assert(p =~= a);
    }
    assert forall|missing: Seq<Seq<char>>, unexpected: Seq<Seq<char>>| #[trigger]
        refused(
            pending,
            answered,
            Some(AnswerErrorView::Incomplete { missing, unexpected }),
        ) implies {
        &&& pending.len() > 0
        &&& missing.no_duplicates()
        &&& unexpected.no_duplicates()
        &&& missing.len() + unexpected.len() > 0
        &&& forall|call: Seq<char>| #[trigger]
            missing.contains(call) <==> pending.contains(call) && !answered.contains(call)
        &&& forall|call: Seq<char>| #[trigger]
            unexpected.contains(call) <==> answered.contains(call) && !pending.contains(call)
    } by {
        crate::sorted::lemma_listed_once(missing, p.difference(a));
        crate::sorted::lemma_listed_once(unexpected, a.difference(p));
        if missing.len() == 0 && unexpected.len() == 0 {
            assert forall|call: Seq<char>| p.contains(call) <==> a.contains(call) by {
                assert(!missing.contains(call));
                assert(!unexpected.contains(call));
            }
            assert(p =~= a);
        }
    }
}

/// A park waits on the calls of its questions, in order; a question without a
/// call is waited on by none.
pub proof fn law_a_park_waits_on_its_questions_calls(
    asks: Seq<AskedQuestionView>,
    ask: AskedQuestionView,
)
    ensures
        pending_calls(Seq::empty()) == Seq::<Seq<char>>::empty(),
        pending_calls(asks.push(ask)) == (match ask.tool_call_id {
            Some(call) => pending_calls(asks).push(call),
            None => pending_calls(asks),
        }),
{
    assert(asks.push(ask).drop_last() =~= asks);
}

/// An abandoned question is told that it was not answered, as an error: one
/// result for each call the park waited on, in order.
pub proof fn law_an_abandoned_question_is_told_so(asks: Seq<AskedQuestionView>)
    ensures
        abandoned(asks).len() == pending_calls(asks).len(),
        forall|i: int|
            0 <= i < pending_calls(asks).len() ==> {
                &&& (#[trigger] abandoned(asks)[i]).tool_call_id == pending_calls(asks)[i]
                &&& abandoned(asks)[i].output
                    == "not answered — the user sent a new message instead"@
                &&& abandoned(asks)[i].is_error
                &&& abandoned(asks)[i].artifacts.len() == 0
            },
{
}

/// A queue becomes one turn in its own order: what two stretches of it give is
/// what the first gives followed by what the second does, and the messages are
/// parted by an empty line.
pub proof fn law_a_queue_drains_in_order(front: Seq<IncomingView>, back: Seq<IncomingView>)
    ensures
        ({
            let all = drained(front + back);
            let a = drained(front);
            let b = drained(back);
            &&& all.consumed == a.consumed + b.consumed
            &&& all.subagent_results == a.subagent_results + b.subagent_results
            &&& all.message == (match (a.message, b.message) {
                (Some(x), Some(y)) => Some(x + "\n\n"@ + y),
                (Some(x), None) => Some(x),
                (None, y) => y,
            })
            &&& all.results.len() == 0
            &&& all.answered.len() == 0
        }),
{
    crate::lists::lemma_filter_map_concat(front, back, |i: IncomingView| i.text());
    crate::lists::lemma_filter_map_concat(front, back, |i: IncomingView| i.report());
    assert(ids_of(front + back) =~= ids_of(front) + ids_of(back));
    let x = texts_of(front);
    let y = texts_of(back);
    crate::text::law_joining_goes_on(x, y, "\n\n"@);
    if x.len() == 0 {
        assert(x + y =~= y);
    }
    if y.len() == 0 {
        assert(x + y =~= x);
    }
}

/// One item is drained to what it holds: its id, what it says, the report it
/// is. A slash command says nothing and asks for its summary.
pub proof fn law_one_item_drains_to_what_it_holds(item: IncomingView)
    ensures
        ({
            let turn = drained(seq![item]);
            &&& turn.consumed == seq![item.id()]
            &&& match item {
                IncomingView::User { id, text } => turn.message == Some(text) && item.id() == id
                    && turn.subagent_results.len() == 0 && turn.summarise is None,
                IncomingView::Timer { id, message } => turn.message == Some(message) && item.id()
                    == id && turn.subagent_results.len() == 0 && turn.summarise is None,
                IncomingView::Continue { id, reason } => turn.message == Some(reason) && item.id()
                    == id && turn.subagent_results.len() == 0 && turn.summarise is None,
                IncomingView::SubAgent { id, part } => turn.message is None && item.id() == id
                    && turn.subagent_results == seq![part] && turn.summarise is None,
                IncomingView::Compact { id, instructions } => turn.message is None && item.id()
                    == id && turn.subagent_results.len() == 0 && turn.summarise == Some(
                    SummariseView::Compact(instructions),
                ),
                IncomingView::SubSession { id, sub_session } => turn.message is None && item.id()
                    == id && turn.subagent_results.len() == 0 && turn.summarise == Some(
                    SummariseView::SubSession(seq![sub_session]),
                ),
            }
        }),
{
    let one = seq![item];
    assert(one.drop_last() =~= seq![]);
    reveal_with_fuel(crate::lists::filter_map, 2);
    reveal_with_fuel(crate::lists::find_last, 2);
    assert(ids_of(one) =~= seq![item.id()]);
}

/// A queue becomes a turn exactly when it holds something and no park holds
/// it: a park does until a person speaks. The turn is the whole queue's, and
/// tells every question that was waited on that it was abandoned.
pub proof fn law_a_queue_becomes_a_turn_unless_a_park_holds_it(
    inbox: Seq<IncomingView>,
    asks: Seq<AskedQuestionView>,
)
    ensures
        turn_offered(inbox, asks) is None <==> inbox.len() == 0 || (asks.len() > 0 && forall|i: int|
            0 <= i < inbox.len() ==> !((#[trigger] inbox[i]) is User)),
        turn_offered(inbox, asks) matches Some(turn) ==> {
            &&& turn.consumed == drained(inbox).consumed
            &&& turn.message == drained(inbox).message
            &&& turn.subagent_results == drained(inbox).subagent_results
            &&& turn.summarise == drained(inbox).summarise
            &&& turn.answered.len() == 0
            &&& turn.results == abandoned(asks)
        },
{
    if asks.len() > 0 && (forall|i: int|
        0 <= i < inbox.len() ==> !((#[trigger] inbox[i]) is User)) {
        assert forall|i: int| 0 <= i < inbox.len() implies !(#[trigger] inbox[i]).is_user() by {
            assert(!(inbox[i] is User));
        }
    }
    if held(inbox, asks) {
        assert forall|i: int| 0 <= i < inbox.len() implies !((#[trigger] inbox[i]) is User) by {
            assert(!inbox[i].is_user());
        }
    }
}

/// The summary a queue asks for, item by item: a sub session joins those that
/// already wait; a compaction is the newest, unless a sub session waits; and
/// anything else asks for nothing.
pub proof fn law_a_summary_is_asked_for_item_by_item(inbox: Seq<IncomingView>, item: IncomingView)
    ensures
        summary_asked(Seq::empty()) is None,
        match item {
            IncomingView::SubSession { sub_session, .. } => summary_asked(inbox.push(item)) == Some(
                SummariseView::SubSession(
                    match summary_asked(inbox) {
                        Some(SummariseView::SubSession(waiting)) => waiting.push(sub_session),
                        _ => seq![sub_session],
                    },
                ),
            ),
            IncomingView::Compact { instructions, .. } => summary_asked(inbox.push(item)) == (
            match summary_asked(inbox) {
                Some(SummariseView::SubSession(waiting)) => Some(
                    SummariseView::SubSession(waiting),
                ),
                _ => Some(SummariseView::Compact(instructions)),
            }),
            _ => summary_asked(inbox.push(item)) == summary_asked(inbox),
        },
{
    assert(inbox.push(item).drop_last() =~= inbox);
    let waiting = sub_sessions_of(inbox);
    if waiting.len() == 0 && item is SubSession {
        assert(waiting.push(item->sub_session) =~= seq![item->sub_session]);
    }
}

} // verus!
