//! What is addressed to an agent, and what the queue offers next.
//!
//! One offer at a time, in a fixed order of precedence: the summary a sub
//! session waits on, then a compaction, then everything addressed to the model
//! merged into one input. Each is a different kind of work, and whoever takes
//! an offer journals the ids it consumed, which is what removes them.

use crate::context::{AskedQuestion, AskedQuestionView};
use crate::ids::SessionId;
use crate::inbox::{self, abandoned_results, answer_ids, pending_ids, refusal, results_of_answers};
use crate::lists;
use crate::model::{
    ArtifactRef, ArtifactRefView, SubAgentResultPart, SubAgentResultPartView, ToolResultInput,
    ToolResultInputView,
};
use crate::text::{Dup, join};
use vstd::prelude::*;

pub use crate::inbox::AnswerError;
pub use crate::inbox::AnswerErrorView;
pub use crate::inbox::AskAnswer;
pub use crate::inbox::AskAnswerView;
pub use crate::inbox::ABANDONED_ASK_RESULT;
pub use crate::inbox::MERGE_SEPARATOR;

verus! {

/// One accepted-but-undelivered thing addressed to an agent.
#[derive(Debug, PartialEq, Eq)]
pub enum Incoming {
    /// A person typed something, and possibly attached something to it.
    User { id: String, text: String, artifacts: Vec<ArtifactRef> },
    /// A subagent this agent spawned finished, and owes it the report.
    SubAgent { id: String, part: Box<SubAgentResultPart> },
    /// A timer this agent armed fired.
    Timer { id: String, message: String },
    /// A `Stop` hook blocked the end of a turn, so the turn continues with the
    /// hook's reason as its input.
    Continue { id: String, reason: String },
    /// Someone typed `/compact`.
    Compact { id: String, instructions: Option<String> },
    /// Someone typed `/summary-n-fork`, and `sub_session` is the one waiting
    /// on the summary.
    SubSession { id: String, sub_session: SessionId },
}

/// What a [`Incoming`] stands for.
#[verifier::ext_equal]
pub enum IncomingView {
    User { id: Seq<char>, text: Seq<char>, artifacts: Seq<ArtifactRefView> },
    SubAgent { id: Seq<char>, part: SubAgentResultPartView },
    Timer { id: Seq<char>, message: Seq<char> },
    Continue { id: Seq<char>, reason: Seq<char> },
    Compact { id: Seq<char>, instructions: Option<Seq<char>> },
    SubSession { id: Seq<char>, sub_session: SessionId },
}

impl DeepView for Incoming {
    type V = IncomingView;

    open spec fn deep_view(&self) -> IncomingView {
        match self {
            Incoming::User { id, text, artifacts } => IncomingView::User {
                id: id.deep_view(),
                text: text.deep_view(),
                artifacts: artifacts.deep_view(),
            },
            Incoming::SubAgent { id, part } => IncomingView::SubAgent {
                id: id.deep_view(),
                part: part.deep_view(),
            },
            Incoming::Timer { id, message } => IncomingView::Timer {
                id: id.deep_view(),
                message: message.deep_view(),
            },
            Incoming::Continue { id, reason } => IncomingView::Continue {
                id: id.deep_view(),
                reason: reason.deep_view(),
            },
            Incoming::Compact { id, instructions } => IncomingView::Compact {
                id: id.deep_view(),
                instructions: instructions.deep_view(),
            },
            Incoming::SubSession { id, sub_session } => IncomingView::SubSession {
                id: id.deep_view(),
                sub_session: sub_session.deep_view(),
            },
        }
    }
}

impl Dup for Incoming {
    fn dup(&self) -> (out: Self) {
        match self {
            Incoming::User { id, text, artifacts } => Incoming::User {
                id: id.dup(),
                text: text.dup(),
                artifacts: artifacts.dup(),
            },
            Incoming::SubAgent { id, part } => Incoming::SubAgent {
                id: id.dup(),
                part: part.dup(),
            },
            Incoming::Timer { id, message } => Incoming::Timer {
                id: id.dup(),
                message: message.dup(),
            },
            Incoming::Continue { id, reason } => Incoming::Continue {
                id: id.dup(),
                reason: reason.dup(),
            },
            Incoming::Compact { id, instructions } => Incoming::Compact {
                id: id.dup(),
                instructions: instructions.dup(),
            },
            Incoming::SubSession { id, sub_session } => Incoming::SubSession {
                id: id.dup(),
                sub_session: sub_session.dup(),
            },
        }
    }
}

impl Clone for Incoming {
    fn clone(&self) -> (out: Self)
        ensures
            out.deep_view() == self.deep_view(),
    {
        self.dup()
    }
}

/// The next thing the queue is offering, and what taking it consumes.
#[derive(Debug, PartialEq, Eq)]
pub enum Offer {
    /// `/summary-n-fork`: the summary seeds these sub sessions, and this
    /// history is left exactly as it was.
    Summary { consumed: Vec<String>, sub_sessions: Vec<SessionId> },
    /// `/compact`: fold the summary back into this agent's own history.
    Compact { consumed: Vec<String>, instructions: Option<String> },
    /// Everything queued that is *addressed to the model*, merged into one
    /// input.
    Input(Box<Turn>),
}

/// Everything an agent is about to be resumed with, and what that consumes.
#[derive(Debug, PartialEq, Eq)]
pub struct Turn {
    /// Ids of the queue items this turn carries.
    pub consumed: Vec<String>,
    /// Tool-call ids of the questions this turn *answered*. Empty when the turn
    /// abandoned them instead.
    pub answered: Vec<String>,
    pub message: Option<String>,
    /// What the people who sent this turn's messages attached, in order.
    pub artifacts: Vec<ArtifactRef>,
    pub subagent_results: Vec<SubAgentResultPart>,
    pub results: Vec<ToolResultInput>,
}

/// What a [`Turn`] stands for.
#[verifier::ext_equal]
pub struct TurnView {
    pub consumed: Seq<Seq<char>>,
    pub answered: Seq<Seq<char>>,
    pub message: Option<Seq<char>>,
    pub artifacts: Seq<ArtifactRefView>,
    pub subagent_results: Seq<SubAgentResultPartView>,
    pub results: Seq<ToolResultInputView>,
}

impl DeepView for Turn {
    type V = TurnView;

    open spec fn deep_view(&self) -> TurnView {
        TurnView {
            consumed: self.consumed.deep_view(),
            answered: self.answered.deep_view(),
            message: self.message.deep_view(),
            artifacts: self.artifacts.deep_view(),
            subagent_results: self.subagent_results.deep_view(),
            results: self.results.deep_view(),
        }
    }
}

impl Dup for Turn {
    fn dup(&self) -> (out: Self) {
        Turn {
            consumed: self.consumed.dup(),
            answered: self.answered.dup(),
            message: self.message.dup(),
            artifacts: self.artifacts.dup(),
            subagent_results: self.subagent_results.dup(),
            results: self.results.dup(),
        }
    }
}

impl Clone for Turn {
    fn clone(&self) -> (out: Self)
        ensures
            out.deep_view() == self.deep_view(),
    {
        self.dup()
    }
}

/// What a [`Offer`] stands for.
#[verifier::ext_equal]
pub enum OfferView {
    Summary { consumed: Seq<Seq<char>>, sub_sessions: Seq<SessionId> },
    Compact { consumed: Seq<Seq<char>>, instructions: Option<Seq<char>> },
    Input(TurnView),
}

impl DeepView for Offer {
    type V = OfferView;

    open spec fn deep_view(&self) -> OfferView {
        match self {
            Offer::Summary { consumed, sub_sessions } => OfferView::Summary {
                consumed: consumed.deep_view(),
                sub_sessions: sub_sessions.deep_view(),
            },
            Offer::Compact { consumed, instructions } => OfferView::Compact {
                consumed: consumed.deep_view(),
                instructions: instructions.deep_view(),
            },
            Offer::Input(a) => OfferView::Input(a.deep_view()),
        }
    }
}

impl Dup for Offer {
    fn dup(&self) -> (out: Self) {
        match self {
            Offer::Summary { consumed, sub_sessions } => Offer::Summary {
                consumed: consumed.dup(),
                sub_sessions: sub_sessions.dup(),
            },
            Offer::Compact { consumed, instructions } => Offer::Compact {
                consumed: consumed.dup(),
                instructions: instructions.dup(),
            },
            Offer::Input(a) => Offer::Input(a.dup()),
        }
    }
}

impl Clone for Offer {
    fn clone(&self) -> (out: Self)
        ensures
            out.deep_view() == self.deep_view(),
    {
        self.dup()
    }
}

impl IncomingView {
    /// This item's identity.
    pub open spec fn id(self) -> Seq<char> {
        match self {
            IncomingView::User { id, .. } => id,
            IncomingView::SubAgent { id, .. } => id,
            IncomingView::Timer { id, .. } => id,
            IncomingView::Continue { id, .. } => id,
            IncomingView::Compact { id, .. } => id,
            IncomingView::SubSession { id, .. } => id,
        }
    }

    /// Whether this is a person speaking.
    pub open spec fn is_user(self) -> bool {
        self is User
    }

    /// Whether this is addressed to the model rather than to the server.
    pub open spec fn is_input(self) -> bool {
        !(self is Compact) && !(self is SubSession)
    }

    /// What this item contributes to the turn's user message, if anything.
    pub open spec fn text(self) -> Option<Seq<char>> {
        match self {
            IncomingView::User { text, .. } => Some(text),
            IncomingView::Timer { message, .. } => Some(message),
            IncomingView::Continue { reason, .. } => Some(reason),
            _ => None,
        }
    }

    /// What was attached to this item.
    pub open spec fn artifacts(self) -> Seq<ArtifactRefView> {
        match self {
            IncomingView::User { artifacts, .. } => artifacts,
            _ => seq![],
        }
    }

    /// The report this item carries, if it is one.
    pub open spec fn report(self) -> Option<SubAgentResultPartView> {
        match self {
            IncomingView::SubAgent { part, .. } => Some(part),
            _ => None,
        }
    }

    /// This item's id, when it is addressed to the model.
    pub open spec fn input_id(self) -> Option<Seq<char>> {
        if self.is_input() {
            Some(self.id())
        } else {
            None
        }
    }

    /// The id and the sub session of a summary somebody waits on.
    pub open spec fn summary(self) -> Option<(Seq<char>, SessionId)> {
        match self {
            IncomingView::SubSession { id, sub_session } => Some((id, sub_session)),
            _ => None,
        }
    }

    /// The id and the instructions of a compaction.
    pub open spec fn compaction(self) -> Option<(Seq<char>, Option<Seq<char>>)> {
        match self {
            IncomingView::Compact { id, instructions } => Some((id, instructions)),
            _ => None,
        }
    }
}

impl Incoming {
    /// This item's identity, for `consumed`.
    pub fn id(&self) -> (r: &str)
        ensures
            r@ == self.deep_view().id(),
    {
        match self {
            Incoming::User { id, .. } => id.as_str(),
            Incoming::SubAgent { id, .. } => id.as_str(),
            Incoming::Timer { id, .. } => id.as_str(),
            Incoming::Continue { id, .. } => id.as_str(),
            Incoming::Compact { id, .. } => id.as_str(),
            Incoming::SubSession { id, .. } => id.as_str(),
        }
    }

    /// Whether this is a person speaking, and so may override a park.
    pub fn is_user(&self) -> (r: bool)
        ensures
            r == self.deep_view().is_user(),
    {
        match self {
            Incoming::User { .. } => true,
            _ => false,
        }
    }

    /// Whether this is addressed to the model rather than to the server.
    fn is_input(&self) -> (r: bool)
        ensures
            r == self.deep_view().is_input(),
    {
        match self {
            Incoming::Compact { .. } => false,
            Incoming::SubSession { .. } => false,
            _ => true,
        }
    }

    /// What this item contributes to the turn's user message, if anything.
    pub fn text(&self) -> (r: Option<&str>)
        ensures
            match r {
                Some(s) => self.deep_view().text() == Some(s@),
                None => self.deep_view().text() is None,
            },
    {
        match self {
            Incoming::User { text, .. } => Some(text.as_str()),
            Incoming::Timer { message, .. } => Some(message.as_str()),
            Incoming::Continue { reason, .. } => Some(reason.as_str()),
            _ => None,
        }
    }
}

/// The texts queued, in order.
pub open spec fn texts_of(inbox: Seq<IncomingView>) -> Seq<Seq<char>> {
    lists::filter_map(inbox, |i: IncomingView| i.text())
}

/// The ids of what is addressed to the model, in order.
pub open spec fn inputs_of(inbox: Seq<IncomingView>) -> Seq<Seq<char>> {
    lists::filter_map(inbox, |i: IncomingView| i.input_id())
}

/// The reports queued, in order.
pub open spec fn reports_of(inbox: Seq<IncomingView>) -> Seq<SubAgentResultPartView> {
    lists::filter_map(inbox, |i: IncomingView| i.report())
}

/// The summaries somebody waits on, in order.
pub open spec fn summaries_of(inbox: Seq<IncomingView>) -> Seq<(Seq<char>, SessionId)> {
    lists::filter_map(inbox, |i: IncomingView| i.summary())
}

/// The compactions queued, in order.
pub open spec fn compactions_of(inbox: Seq<IncomingView>) -> Seq<
    (Seq<char>, Option<Seq<char>>),
> {
    lists::filter_map(inbox, |i: IncomingView| i.compaction())
}

/// Everything attached to what is queued, in order.
pub open spec fn artifacts_of(inbox: Seq<IncomingView>) -> Seq<ArtifactRefView>
    decreases inbox.len(),
{
    if inbox.len() == 0 {
        seq![]
    } else {
        artifacts_of(inbox.drop_last()) + inbox.last().artifacts()
    }
}

/// What is addressed to the model, as one turn's input.
pub open spec fn drained(inbox: Seq<IncomingView>) -> TurnView {
    TurnView {
        consumed: inputs_of(inbox),
        answered: seq![],
        message: inbox::merged(texts_of(inbox)),
        artifacts: artifacts_of(inbox),
        subagent_results: reports_of(inbox),
        results: seq![],
    }
}

/// Whether a park holds the queue: questions are open, and nobody in the queue
/// is a person changing their mind.
pub open spec fn held(inbox: Seq<IncomingView>, asks: Seq<AskedQuestionView>) -> bool {
    asks.len() > 0 && forall|i: int|
        0 <= i < inbox.len() ==> !(#[trigger] inbox[i]).is_user()
}

/// The names in a list of named things.
pub open spec fn names_of<T>(pairs: Seq<(Seq<char>, T)>) -> Seq<Seq<char>> {
    pairs.map_values(|p: (Seq<char>, T)| p.0)
}

/// The things in a list of named things.
pub open spec fn values_of<T>(pairs: Seq<(Seq<char>, T)>) -> Seq<T> {
    pairs.map_values(|p: (Seq<char>, T)| p.1)
}

/// What the queue is offering.
pub open spec fn offered(
    inbox: Seq<IncomingView>,
    asks: Seq<AskedQuestionView>,
) -> Option<OfferView> {
    if inbox.len() == 0 || held(inbox, asks) {
        None
    } else if summaries_of(inbox).len() > 0 {
        Some(
            OfferView::Summary {
                consumed: names_of(summaries_of(inbox)),
                sub_sessions: values_of(summaries_of(inbox)),
            },
        )
    } else if compactions_of(inbox).len() > 0 {
        Some(
            OfferView::Compact {
                consumed: names_of(compactions_of(inbox)),
                instructions: compactions_of(inbox).last().1,
            },
        )
    } else {
        Some(OfferView::Input(TurnView { results: inbox::abandoned(asks), ..drained(inbox) }))
    }
}

/// Whether anybody in the queue is a person speaking.
fn any_user(inbox: &[Incoming]) -> (r: bool)
    ensures
        r == exists|i: int|
            0 <= i < inbox.deep_view().len() && (#[trigger] inbox.deep_view()[i]).is_user(),
{
    for i in 0..inbox.len()
        invariant
            forall|j: int| 0 <= j < i ==> !(#[trigger] inbox.deep_view()[j]).is_user(),
    {
        if inbox[i].is_user() {
            proof {
                assert(inbox.deep_view()[i as int].is_user());
            }
            return true;
        }
    }
    false
}

/// What the queue is offering now, if anything.
///
/// `None` means "nothing to take", for one of two reasons: nothing is queued,
/// or the agent is parked on questions and nothing queued is entitled to
/// abandon them.
///
/// The precedence is about what a loss costs. A sub session waiting on a
/// summary is stuck for ever if its summary is skipped, so it goes first. A
/// `/compact` goes before the message that arrived with it because the point
/// of typing it is to shrink the context the *next* turn reads. Everything
/// else is one merged input.
pub fn queued_offer(inbox: &[Incoming], asks: &[AskedQuestion]) -> (r: Option<Offer>)
    ensures
        r.deep_view() == offered(inbox.deep_view(), asks.deep_view()),
{
    if inbox.len() == 0 {
        return None;
    }
    if asks.len() > 0 && !any_user(inbox) {
        return None;
    }
    let ghost all = inbox.deep_view();
    let ghost summary = |i: IncomingView| i.summary();
    let ghost compaction = |i: IncomingView| i.compaction();
    let mut summary_ids: Vec<String> = Vec::new();
    let mut sub_sessions: Vec<SessionId> = Vec::new();
    let mut compact_ids: Vec<String> = Vec::new();
    let mut instructions: Option<String> = None;
    for i in 0..inbox.len()
        invariant
            all == inbox.deep_view(),
            summary == (|i: IncomingView| i.summary()),
            compaction == (|i: IncomingView| i.compaction()),
            summary_ids.deep_view() == names_of(lists::filter_map(all.take(i as int), summary)),
            sub_sessions.deep_view() == values_of(lists::filter_map(all.take(i as int), summary)),
            compact_ids.deep_view() == names_of(lists::filter_map(all.take(i as int), compaction)),
            lists::filter_map(all.take(i as int), compaction).len() > 0 ==> instructions.deep_view()
                == lists::filter_map(all.take(i as int), compaction).last().1,
    {
        let ghost waiting = lists::filter_map(all.take(i as int), summary);
        let ghost typed = lists::filter_map(all.take(i as int), compaction);
        let ghost had_ids = summary_ids.deep_view();
        let ghost had_sessions = sub_sessions.deep_view();
        let ghost had_compact = compact_ids.deep_view();
        proof {
            lists::lemma_filter_map_step(all, summary, i as int);
            lists::lemma_filter_map_step(all, compaction, i as int);
        }
        match &inbox[i] {
            Incoming::SubSession { id, sub_session } => {
                summary_ids.push(id.clone());
                sub_sessions.push(*sub_session);
                proof {
                    assert(names_of(waiting.push((id@, *sub_session))) =~= had_ids.push(id@));
                    assert(values_of(waiting.push((id@, *sub_session))) =~= had_sessions.push(
                        *sub_session,
                    ));
                    assert(summary_ids.deep_view() =~= had_ids.push(id@));
                    assert(sub_sessions.deep_view() =~= had_sessions.push(*sub_session));
                }
            },
            Incoming::Compact { id, instructions: focus } => {
                compact_ids.push(id.clone());
                instructions = focus.dup();
                proof {
                    assert(names_of(typed.push((id@, focus.deep_view()))) =~= had_compact.push(
                        id@,
                    ));
                    assert(compact_ids.deep_view() =~= had_compact.push(id@));
                }
            },
            _ => {},
        }
    }
    proof {
        assert(all.take(inbox.len() as int) =~= all);
    }
    if summary_ids.len() > 0 {
        return Some(Offer::Summary { consumed: summary_ids, sub_sessions });
    }
    if compact_ids.len() > 0 {
        return Some(Offer::Compact { consumed: compact_ids, instructions });
    }
    let mut turn = drain(inbox);
    turn.results = abandoned_results(asks);
    Some(Offer::Input(Box::new(turn)))
}

/// The turn an answered park starts: the answers, plus whatever queued behind
/// them.
pub open spec fn answered_with(inbox: Seq<IncomingView>, answers: Seq<AskAnswerView>) -> TurnView {
    TurnView {
        answered: inbox::answered_calls(answers),
        results: inbox::answer_results(answers),
        ..drained(inbox)
    }
}

/// The turn an answered park starts: the answers, plus whatever queued behind
/// them. Refused unless the answers cover the pending questions exactly.
pub fn answered_turn(
    inbox: &[Incoming],
    asks: &[AskedQuestion],
    answers: Vec<AskAnswer>,
) -> (r: Result<Turn, AnswerError>)
    ensures
        match r {
            Ok(turn) => {
                &&& inbox::refused(
                    inbox::pending_calls(asks.deep_view()),
                    inbox::answered_calls(answers.deep_view()),
                    None,
                )
                &&& turn.deep_view() == answered_with(inbox.deep_view(), answers.deep_view())
                &&& turn.deep_view() == (TurnView {
                    answered: inbox::answered_calls(answers.deep_view()),
                    results: inbox::answer_results(answers.deep_view()),
                    ..drained(inbox.deep_view())
                })
            },
            Err(e) => inbox::refused(
                inbox::pending_calls(asks.deep_view()),
                inbox::answered_calls(answers.deep_view()),
                Some(e.deep_view()),
            ),
        },
{
    let pending = pending_ids(asks);
    let answered = answer_ids(&answers);
    if let Some(e) = refusal(&pending, &answered) {
        return Err(e);
    }
    let mut turn = drain(inbox);
    turn.answered = answered;
    turn.results = results_of_answers(answers);
    Ok(turn)
}

/// Fold everything addressed to the model into one turn's input.
///
/// A `/compact` and a `/summary-n-fork` are instructions to the server and are
/// taken as their own offers; crossed off here they would have been done
/// nothing about.
pub fn drain(inbox: &[Incoming]) -> (r: Turn)
    ensures
        r.deep_view() == drained(inbox.deep_view()),
{
    let ghost all = inbox.deep_view();
    let ghost input = |i: IncomingView| i.input_id();
    let ghost text = |i: IncomingView| i.text();
    let ghost report = |i: IncomingView| i.report();
    let mut consumed: Vec<String> = Vec::new();
    let mut texts: Vec<String> = Vec::new();
    let mut artifacts: Vec<ArtifactRef> = Vec::new();
    let mut reports: Vec<SubAgentResultPart> = Vec::new();
    for i in 0..inbox.len()
        invariant
            all == inbox.deep_view(),
            input == (|i: IncomingView| i.input_id()),
            text == (|i: IncomingView| i.text()),
            report == (|i: IncomingView| i.report()),
            consumed.deep_view() == lists::filter_map(all.take(i as int), input),
            texts.deep_view() == lists::filter_map(all.take(i as int), text),
            artifacts.deep_view() == artifacts_of(all.take(i as int)),
            reports.deep_view() == lists::filter_map(all.take(i as int), report),
    {
        let ghost named = consumed.deep_view();
        let ghost had = texts.deep_view();
        let ghost told = reports.deep_view();
        let ghost attached = artifacts.deep_view();
        proof {
            lists::lemma_filter_map_step(all, input, i as int);
            lists::lemma_filter_map_step(all, text, i as int);
            lists::lemma_filter_map_step(all, report, i as int);
            assert(all.take(i + 1).drop_last() =~= all.take(i as int));
        }
        if inbox[i].is_input() {
            consumed.push(inbox[i].id().to_owned());
            proof {
                assert(consumed.deep_view() =~= named.push(all[i as int].id()));
            }
        }
        if let Some(t) = inbox[i].text() {
            texts.push(t.to_owned());
            proof {
                assert(texts.deep_view() =~= had.push(t@));
            }
        }
        match &inbox[i] {
            Incoming::User { artifacts: added, .. } => {
                let mut more = added.dup();
                let ghost extra = more.deep_view();
                artifacts.append(&mut more);
                proof {
                    assert(artifacts.deep_view() =~= attached + extra);
                }
            },
            Incoming::SubAgent { part, .. } => {
                reports.push((**part).dup());
                proof {
                    assert(reports.deep_view() =~= told.push(part.deep_view()));
                    assert(attached =~= attached + seq![]);
                }
            },
            _ => {
                proof {
                    assert(attached =~= attached + seq![]);
                }
            },
        }
    }
    proof {
        assert(all.take(inbox.len() as int) =~= all);
    }
    let message = if texts.len() == 0 {
        None
    } else {
        Some(join(&texts, MERGE_SEPARATOR))
    };
    let turn = Turn {
        consumed,
        answered: Vec::new(),
        message,
        artifacts,
        subagent_results: reports,
        results: Vec::new(),
    };
    proof {
        assert(turn.answered.deep_view() =~= seq![]);
        assert(turn.results.deep_view() =~= seq![]);
    }
    turn
}

/// What taking an offer consumes.
pub open spec fn consumed_by(offer: OfferView) -> Seq<Seq<char>> {
    match offer {
        OfferView::Summary { consumed, .. } => consumed,
        OfferView::Compact { consumed, .. } => consumed,
        OfferView::Input(turn) => turn.consumed,
    }
}

/// An offer that is made consumes something, and only what is queued: taking
/// offers one after another comes to an end.
pub proof fn law_an_offer_consumes_queued_items(
    inbox: Seq<IncomingView>,
    asks: Seq<AskedQuestionView>,
)
    requires
        offered(inbox, asks) is Some,
    ensures
        consumed_by(offered(inbox, asks)->Some_0).len() > 0,
        forall|k: int|
            0 <= k < consumed_by(offered(inbox, asks)->Some_0).len() ==> exists|i: int|
                0 <= i < inbox.len() && (#[trigger] inbox[i]).id() == (#[trigger] consumed_by(
                    offered(inbox, asks)->Some_0,
                )[k]),
{
    let offer = offered(inbox, asks)->Some_0;
    let ids = consumed_by(offer);
    let summary = |i: IncomingView| i.summary();
    let compaction = |i: IncomingView| i.compaction();
    let input = |i: IncomingView| i.input_id();
    lists::lemma_filter_map_members(inbox, summary);
    lists::lemma_filter_map_members(inbox, compaction);
    lists::lemma_filter_map_members(inbox, input);
    assert(summaries_of(inbox) == lists::filter_map(inbox, summary));
    assert(compactions_of(inbox) == lists::filter_map(inbox, compaction));
    assert(inputs_of(inbox) == lists::filter_map(inbox, input));
    if offer is Input {
        assert(inbox[0].is_input()) by {
            if inbox[0] is SubSession {
                assert(summary(inbox[0]) == Some((inbox[0].id(), inbox[0]->sub_session)));
                assert(summaries_of(inbox).contains((inbox[0].id(), inbox[0]->sub_session)));
            }
            if inbox[0] is Compact {
                assert(compaction(inbox[0]) == Some((inbox[0].id(), inbox[0]->instructions)));
                assert(compactions_of(inbox).contains((inbox[0].id(), inbox[0]->instructions)));
            }
        }
        assert(input(inbox[0]) == Some(inbox[0].id()));
        assert(inputs_of(inbox).contains(inbox[0].id()));
    }
    assert forall|k: int| 0 <= k < ids.len() implies exists|i: int|
        0 <= i < inbox.len() && (#[trigger] inbox[i]).id() == (#[trigger] ids[k]) by {
        match offer {
            OfferView::Summary { .. } => {
                let pair = summaries_of(inbox)[k];
                assert(summaries_of(inbox).contains(pair));
                let i = choose|i: int|
                    0 <= i < inbox.len() && summary(#[trigger] inbox[i]) == Some(pair);
                assert(inbox[i].id() == ids[k]);
            },
            OfferView::Compact { .. } => {
                let pair = compactions_of(inbox)[k];
                assert(compactions_of(inbox).contains(pair));
                let i = choose|i: int|
                    0 <= i < inbox.len() && compaction(#[trigger] inbox[i]) == Some(pair);
                assert(inbox[i].id() == ids[k]);
            },
            OfferView::Input(_) => {
                assert(inputs_of(inbox).contains(ids[k]));
                let i = choose|i: int|
                    0 <= i < inbox.len() && input(#[trigger] inbox[i]) == Some(ids[k]);
                assert(inbox[i].id() == ids[k]);
            },
        }
    }
}

/// A sub session waiting on a summary goes first, whatever else is queued.
pub proof fn law_a_waiting_sub_session_goes_first(
    inbox: Seq<IncomingView>,
    asks: Seq<AskedQuestionView>,
    i: int,
)
    requires
        0 <= i < inbox.len(),
        inbox[i] is SubSession,
        !held(inbox, asks),
    ensures
        offered(inbox, asks) matches Some(OfferView::Summary { sub_sessions, .. })
            && sub_sessions.contains(inbox[i]->sub_session),
{
    let summary = |i: IncomingView| i.summary();
    let pair = (inbox[i].id(), inbox[i]->sub_session);
    lists::lemma_filter_map_members(inbox, summary);
    assert(summaries_of(inbox) == lists::filter_map(inbox, summary));
    assert(summary(inbox[i]) == Some(pair));
    assert(summaries_of(inbox).contains(pair));
    let k = choose|k: int| 0 <= k < summaries_of(inbox).len() && summaries_of(inbox)[k] == pair;
    assert(values_of(summaries_of(inbox))[k] == pair.1);
}

/// A compaction goes before the message it was typed with, and the newest
/// instructions are the ones it runs under.
pub proof fn law_a_compaction_goes_before_input(
    front: Seq<IncomingView>,
    compact: IncomingView,
    back: Seq<IncomingView>,
    asks: Seq<AskedQuestionView>,
)
    requires
        compact is Compact,
        !held(front.push(compact) + back, asks),
        forall|i: int| 0 <= i < front.len() ==> !((#[trigger] front[i]) is SubSession),
        forall|i: int| 0 <= i < back.len() ==> (#[trigger] back[i]).is_input(),
    ensures
        offered(front.push(compact) + back, asks) matches Some(
            OfferView::Compact { instructions, .. },
        ) && instructions == compact->instructions,
{
    let inbox = front.push(compact) + back;
    let summary = |i: IncomingView| i.summary();
    let compaction = |i: IncomingView| i.compaction();
    lists::lemma_filter_map_none(inbox, summary);
    assert(summaries_of(inbox) == lists::filter_map(inbox, summary));
    crate::lists::lemma_filter_map_concat(front.push(compact), back, compaction);
    lists::lemma_filter_map_none(back, compaction);
    assert(front.push(compact).drop_last() =~= front);
    let typed = lists::filter_map(front.push(compact), compaction);
    assert(typed.last() == (compact.id(), compact->instructions));
    assert(typed + Seq::empty() =~= typed);
    assert(compactions_of(inbox) == lists::filter_map(inbox, compaction));
}

/// An answered park leaves the slash commands in the queue: what the turn
/// consumes is what is addressed to the model, and nothing else.
pub proof fn law_a_turn_leaves_slash_commands_queued(inbox: Seq<IncomingView>, i: int)
    requires
        0 <= i < inbox.len(),
        !inbox[i].is_input(),
        forall|j: int|
            0 <= j < inbox.len() && j != i ==> (#[trigger] inbox[j]).id() != inbox[i].id(),
    ensures
        !drained(inbox).consumed.contains(inbox[i].id()),
{
    let input = |i: IncomingView| i.input_id();
    lists::lemma_filter_map_members(inbox, input);
    assert(inputs_of(inbox) == lists::filter_map(inbox, input));
    if inputs_of(inbox).contains(inbox[i].id()) {
        let j = choose|j: int|
            0 <= j < inbox.len() && input(#[trigger] inbox[j]) == Some(inbox[i].id());
        assert(inbox[j].id() == inbox[i].id());
    }
}

/// Nothing but a person overrides a park.
pub proof fn law_only_a_person_overrides_a_park(
    inbox: Seq<IncomingView>,
    asks: Seq<AskedQuestionView>,
)
    requires
        asks.len() > 0,
        offered(inbox, asks) is Some,
    ensures
        exists|i: int| 0 <= i < inbox.len() && (#[trigger] inbox[i]).is_user(),
{
}

/// Every question is told its own answer: the turn holds one result for each
/// answer, in order, under the answer's own call and in the answer's own
/// words, and none of them an error. What was queued rides along unchanged.
pub proof fn law_each_question_is_told_its_own_answer(
    inbox: Seq<IncomingView>,
    answers: Seq<AskAnswerView>,
)
    ensures
        ({
            let turn = answered_with(inbox, answers);
            let queued = drained(inbox);
            &&& turn.results.len() == answers.len()
            &&& turn.answered.len() == answers.len()
            &&& forall|i: int|
                0 <= i < answers.len() ==> {
                    &&& (#[trigger] turn.results[i]).tool_call_id == answers[i].tool_call_id
                    &&& turn.results[i].output == answers[i].text
                    &&& !turn.results[i].is_error
                    &&& turn.results[i].artifacts.len() == 0
                }
            &&& forall|i: int|
                0 <= i < answers.len() ==> (#[trigger] turn.answered[i]) == answers[i].tool_call_id
            &&& turn.consumed == queued.consumed
            &&& turn.message == queued.message
            &&& turn.artifacts == queued.artifacts
            &&& turn.subagent_results == queued.subagent_results
        }),
{
}

/// What two stretches of a queue have attached is what the first has followed
/// by what the second has.
proof fn lemma_artifacts_concat(front: Seq<IncomingView>, back: Seq<IncomingView>)
    ensures
        artifacts_of(front + back) == artifacts_of(front) + artifacts_of(back),
    decreases back.len(),
{
    if back.len() == 0 {
        assert(front + back =~= front);
        assert(artifacts_of(front) + artifacts_of(back) =~= artifacts_of(front));
    } else {
        lemma_artifacts_concat(front, back.drop_last());
        assert((front + back).drop_last() =~= front + back.drop_last());
        assert(artifacts_of(front) + artifacts_of(back) =~= artifacts_of(front) + artifacts_of(
            back.drop_last(),
        ) + back.last().artifacts());
    }
}

/// A queue becomes one turn in its own order: what two stretches of it give is
/// what the first gives followed by what the second does, attachments and
/// reports included, and the messages are parted by an empty line.
pub proof fn law_a_queue_drains_in_order(front: Seq<IncomingView>, back: Seq<IncomingView>)
    ensures
        ({
            let all = drained(front + back);
            let a = drained(front);
            let b = drained(back);
            &&& all.consumed == a.consumed + b.consumed
            &&& all.artifacts == a.artifacts + b.artifacts
            &&& all.subagent_results == a.subagent_results + b.subagent_results
            &&& all.message == (match (a.message, b.message) {
                (Some(x), Some(y)) => Some(x + "\n\n"@ + y),
                (Some(x), None) => Some(x),
                (None, y) => y,
            })
            &&& all.results.len() == 0
            &&& all.answered.len() == 0
        }),
{
    crate::lists::lemma_filter_map_concat(front, back, |i: IncomingView| i.input_id());
    crate::lists::lemma_filter_map_concat(front, back, |i: IncomingView| i.text());
    crate::lists::lemma_filter_map_concat(front, back, |i: IncomingView| i.report());
    lemma_artifacts_concat(front, back);
    let x = texts_of(front);
    let y = texts_of(back);
    crate::text::law_joining_goes_on(x, y, "\n\n"@);
    if x.len() == 0 {
        assert(x + y =~= y);
    }
    if y.len() == 0 {
        assert(x + y =~= x);
    }
}

/// One item is drained to what it holds: its id, what it says, what is
/// attached to it, the report it is. A slash command is not drained at all.
pub proof fn law_one_item_drains_to_what_it_holds(item: IncomingView)
    ensures
        ({
            let turn = drained(seq![item]);
            match item {
                IncomingView::User { id, text, artifacts } => turn.consumed == seq![id]
                    && turn.message == Some(text) && turn.artifacts == artifacts
                    && turn.subagent_results.len() == 0,
                IncomingView::Timer { id, message } => turn.consumed == seq![id] && turn.message
                    == Some(message) && turn.artifacts.len() == 0
                    && turn.subagent_results.len() == 0,
                IncomingView::Continue { id, reason } => turn.consumed == seq![id] && turn.message
                    == Some(reason) && turn.artifacts.len() == 0
                    && turn.subagent_results.len() == 0,
                IncomingView::SubAgent { id, part } => turn.consumed == seq![id]
                    && turn.message is None && turn.artifacts.len() == 0
                    && turn.subagent_results == seq![part],
                _ => turn.consumed.len() == 0 && turn.message is None && turn.artifacts.len() == 0
                    && turn.subagent_results.len() == 0,
            }
        }),
{
    let one = seq![item];
    assert(one.drop_last() =~= seq![]);
    reveal_with_fuel(crate::lists::filter_map, 2);
    reveal_with_fuel(artifacts_of, 2);
    assert(inputs_of(one.drop_last()) =~= seq![]);
    assert(artifacts_of(one) =~= item.artifacts());
    if item is SubAgent {
        assert(reports_of(one) =~= seq![item->part]);
    }
    if item.is_input() {
        assert(inputs_of(one) =~= seq![item.id()]);
    }
}

/// Nothing attached to a queued message is lost: whatever a person sent along
/// with a message that the turn consumes is among what the turn carries.
pub proof fn law_no_attachment_is_lost(inbox: Seq<IncomingView>, i: int, k: int)
    requires
        0 <= i < inbox.len(),
        inbox[i] is User,
        0 <= k < inbox[i]->artifacts.len(),
    ensures
        drained(inbox).artifacts.contains(inbox[i]->artifacts[k]),
        drained(inbox).consumed.contains(inbox[i]->User_id),
{
    let front = inbox.take(i);
    let one = seq![inbox[i]];
    let back = inbox.skip(i + 1);
    assert(inbox =~= front + one + back);
    law_a_queue_drains_in_order(front + one, back);
    law_a_queue_drains_in_order(front, one);
    law_one_item_drains_to_what_it_holds(inbox[i]);
    let a = drained(front).artifacts;
    let all = drained(inbox).artifacts;
    assert(all[a.len() + k] == inbox[i]->artifacts[k]);
    let named = drained(front).consumed;
    assert(drained(inbox).consumed[named.len() as int] == inbox[i]->User_id);
}

/// The queue offers something exactly when it holds something and no park
/// holds it: a park does until a person speaks.
pub proof fn law_a_queue_offers_unless_a_park_holds_it(
    inbox: Seq<IncomingView>,
    asks: Seq<AskedQuestionView>,
)
    ensures
        offered(inbox, asks) is None <==> inbox.len() == 0 || (asks.len() > 0 && forall|i: int|
            0 <= i < inbox.len() ==> !((#[trigger] inbox[i]) is User)),
{
    if asks.len() > 0 && (forall|i: int|
        0 <= i < inbox.len() ==> !((#[trigger] inbox[i]) is User)) {
        assert forall|i: int| 0 <= i < inbox.len() implies !(#[trigger] inbox[i]).is_user() by {
            assert(!(inbox[i] is User));
        }
    }
    if held(inbox, asks) {
        assert forall|i: int| 0 <= i < inbox.len() implies !((#[trigger] inbox[i]) is User) by {
            assert(!inbox[i].is_user());
        }
    }
}

/// What is offered is what the queue holds of the first kind it holds: every
/// waiting sub session with its own id; else every compaction's id, under the
/// newest instructions; else the whole queue as one input, which tells each
/// abandoned question so. Whether questions were open changes nothing else.
pub proof fn law_an_offer_is_of_one_kind(inbox: Seq<IncomingView>, asks: Seq<AskedQuestionView>)
    requires
        offered(inbox, asks) is Some,
    ensures
        ({
            let waits = exists|i: int| 0 <= i < inbox.len() && (#[trigger] inbox[i]) is SubSession;
            let shrinks = exists|i: int| 0 <= i < inbox.len() && (#[trigger] inbox[i]) is Compact;
            match offered(inbox, asks)->Some_0 {
                OfferView::Summary { consumed, sub_sessions } => waits && consumed.len()
                    == sub_sessions.len(),
                OfferView::Compact { consumed, .. } => !waits && shrinks && consumed.len() > 0,
                OfferView::Input(turn) => {
                    &&& !waits
                    &&& !shrinks
                    &&& turn.consumed == drained(inbox).consumed
                    &&& turn.message == drained(inbox).message
                    &&& turn.artifacts == drained(inbox).artifacts
                    &&& turn.subagent_results == drained(inbox).subagent_results
                    &&& turn.answered.len() == 0
                    &&& turn.results == inbox::abandoned(asks)
                },
            }
        }),
        !(offered(inbox, asks)->Some_0 is Input) ==> offered(inbox, asks) == offered(
            inbox,
            Seq::empty(),
        ),
{
    let summary = |i: IncomingView| i.summary();
    let compaction = |i: IncomingView| i.compaction();
    lists::lemma_filter_map_members(inbox, summary);
    lists::lemma_filter_map_members(inbox, compaction);
    assert(summaries_of(inbox) == lists::filter_map(inbox, summary));
    assert(compactions_of(inbox) == lists::filter_map(inbox, compaction));
    if summaries_of(inbox).len() > 0 {
        let pair = summaries_of(inbox)[0];
        assert(summaries_of(inbox).contains(pair));
        let i = choose|i: int| 0 <= i < inbox.len() && summary(#[trigger] inbox[i]) == Some(pair);
        assert(inbox[i] is SubSession);
    }
    if compactions_of(inbox).len() > 0 {
        let pair = compactions_of(inbox)[0];
        assert(compactions_of(inbox).contains(pair));
        let i = choose|i: int|
            0 <= i < inbox.len() && compaction(#[trigger] inbox[i]) == Some(pair);
        assert(inbox[i] is Compact);
    }
    if exists|i: int| 0 <= i < inbox.len() && (#[trigger] inbox[i]) is SubSession {
        let i = choose|i: int| 0 <= i < inbox.len() && (#[trigger] inbox[i]) is SubSession;
        let pair = (inbox[i].id(), inbox[i]->sub_session);
        assert(summary(inbox[i]) == Some(pair));
        assert(summaries_of(inbox).contains(pair));
    }
    if exists|i: int| 0 <= i < inbox.len() && (#[trigger] inbox[i]) is Compact {
        let i = choose|i: int| 0 <= i < inbox.len() && (#[trigger] inbox[i]) is Compact;
        let pair = (inbox[i].id(), inbox[i]->instructions);
        assert(compaction(inbox[i]) == Some(pair));
        assert(compactions_of(inbox).contains(pair));
    }
}

/// What one item more does to an offer that nobody's questions hold: a sub
/// session joins those that wait, in order; a compaction joins the others and
/// its instructions count; a message joins the input, and waits behind
/// anything else.
pub proof fn law_an_item_joins_its_own_kind_of_offer(
    inbox: Seq<IncomingView>,
    item: IncomingView,
)
    ensures
        ({
            let none = Seq::<AskedQuestionView>::empty();
            let had = offered(inbox, none);
            let now = offered(inbox.push(item), none);
            match item {
                IncomingView::SubSession { id, sub_session } => now == (match had {
                    Some(OfferView::Summary { consumed, sub_sessions }) => Some(
                        OfferView::Summary {
                            consumed: consumed.push(id),
                            sub_sessions: sub_sessions.push(sub_session),
                        },
                    ),
                    _ => Some(
                        OfferView::Summary { consumed: seq![id], sub_sessions: seq![sub_session] },
                    ),
                }),
                IncomingView::Compact { id, instructions } => now == (match had {
                    Some(OfferView::Summary { consumed, sub_sessions }) => had,
                    Some(OfferView::Compact { consumed, .. }) => Some(
                        OfferView::Compact { consumed: consumed.push(id), instructions },
                    ),
                    _ => Some(OfferView::Compact { consumed: seq![id], instructions }),
                }),
                _ => match had {
                    Some(OfferView::Summary { .. }) => now == had,
                    Some(OfferView::Compact { .. }) => now == had,
                    _ => now matches Some(OfferView::Input(turn)) && turn == drained(
                        inbox.push(item),
                    ),
                },
            }
        }),
{
    let none = Seq::<AskedQuestionView>::empty();
    let all = inbox.push(item);
    assert(all.drop_last() =~= inbox);
    assert(inbox::abandoned(none) =~= seq![]);
    let s = summaries_of(inbox);
    let c = compactions_of(inbox);
    if inbox.len() == 0 {
        assert(s.len() == 0 && c.len() == 0);
    }
    match item {
        IncomingView::SubSession { id, sub_session } => {
            let more = s.push((id, sub_session));
            assert(summaries_of(all) == more);
            assert(names_of(more) =~= names_of(s).push(id));
            assert(values_of(more) =~= values_of(s).push(sub_session));
            if s.len() == 0 {
                assert(names_of(more) =~= seq![id]);
                assert(values_of(more) =~= seq![sub_session]);
            }
        },
        IncomingView::Compact { id, instructions } => {
            let more = c.push((id, instructions));
            assert(compactions_of(all) == more);
            assert(names_of(more) =~= names_of(c).push(id));
            if c.len() == 0 {
                assert(names_of(more) =~= seq![id]);
            }
        },
        _ => {},
    }
}

} // verus!
