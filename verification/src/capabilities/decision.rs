//! What a capability decides: facts to record, and acts to perform once they
//! are recorded.

use crate::capabilities::{SessionReply, SessionReplyView};
use crate::capabilities::state::{CapabilityEvent, CapabilityEventView};
use crate::inbox::{AskAnswer, AskAnswerView};
use crate::json::{Json, JsonView};
use crate::model::{ToolResultInput, ToolResultInputView};
use crate::runners::{ChildMsg, ChildMsgView};
use crate::text::Dup;
use vstd::prelude::*;

verus! {

/// A question, as the agent's log shows it to the person.
#[derive(Debug, PartialEq, Eq)]
pub struct AskLifecycle {
    pub tool_call_id: Option<String>,
    pub question: String,
}

/// What a [`AskLifecycle`] stands for.
#[verifier::ext_equal]
pub struct AskLifecycleView {
    pub tool_call_id: Option<Seq<char>>,
    pub question: Seq<char>,
}

impl DeepView for AskLifecycle {
    type V = AskLifecycleView;

    open spec fn deep_view(&self) -> AskLifecycleView {
        AskLifecycleView {
            tool_call_id: self.tool_call_id.deep_view(),
            question: self.question.deep_view(),
        }
    }
}

impl Dup for AskLifecycle {
    fn dup(&self) -> (out: Self) {
        AskLifecycle {
            tool_call_id: self.tool_call_id.dup(),
            question: self.question.dup(),
        }
    }
}

impl Clone for AskLifecycle {
    fn clone(&self) -> (out: Self)
        ensures
            out.deep_view() == self.deep_view(),
    {
        self.dup()
    }
}

/// Something to do once what a decision recorded is durable.
#[derive(Debug, PartialEq, Eq)]
pub enum Act {
    /// Give a call its result.
    Answer { call: String, text: String },
    /// Give a call its result, as an error.
    Refuse { call: String, reason: String },
    /// Show a question in the agent's log.
    Record(Box<AskLifecycle>),
    /// Leave a call dangling and end the turn; `note` says what is waited for.
    Park { call: String, note: String },
    /// Supply the results parked calls are waiting for, and start a turn.
    Resume { results: Vec<ToolResultInput> },
    /// End the agent's work with this output.
    Conclude { output: Json },
}

/// What a [`Act`] stands for.
#[verifier::ext_equal]
pub enum ActView {
    Answer { call: Seq<char>, text: Seq<char> },
    Refuse { call: Seq<char>, reason: Seq<char> },
    Record(AskLifecycleView),
    Park { call: Seq<char>, note: Seq<char> },
    Resume { results: Seq<ToolResultInputView> },
    Conclude { output: JsonView },
}

impl DeepView for Act {
    type V = ActView;

    open spec fn deep_view(&self) -> ActView {
        match self {
            Act::Answer { call, text } => ActView::Answer {
                call: call.deep_view(),
                text: text.deep_view(),
            },
            Act::Refuse { call, reason } => ActView::Refuse {
                call: call.deep_view(),
                reason: reason.deep_view(),
            },
            Act::Record(a) => ActView::Record(a.deep_view()),
            Act::Park { call, note } => ActView::Park {
                call: call.deep_view(),
                note: note.deep_view(),
            },
            Act::Resume { results } => ActView::Resume {
                results: results.deep_view(),
            },
            Act::Conclude { output } => ActView::Conclude {
                output: output.deep_view(),
            },
        }
    }
}

impl Dup for Act {
    fn dup(&self) -> (out: Self) {
        match self {
            Act::Answer { call, text } => Act::Answer {
                call: call.dup(),
                text: text.dup(),
            },
            Act::Refuse { call, reason } => Act::Refuse {
                call: call.dup(),
                reason: reason.dup(),
            },
            Act::Record(a) => Act::Record(a.dup()),
            Act::Park { call, note } => Act::Park {
                call: call.dup(),
                note: note.dup(),
            },
            Act::Resume { results } => Act::Resume {
                results: results.dup(),
            },
            Act::Conclude { output } => Act::Conclude {
                output: output.dup(),
            },
        }
    }
}

impl Clone for Act {
    fn clone(&self) -> (out: Self)
        ensures
            out.deep_view() == self.deep_view(),
    {
        self.dup()
    }
}

/// What a capability decided.
#[derive(Debug, PartialEq, Eq)]
pub struct Decision {
    /// The facts to record, in order.
    pub events: Vec<CapabilityEvent>,
    /// What to do once they are recorded, in order.
    pub acts: Vec<Act>,
}

/// What a [`Decision`] stands for.
#[verifier::ext_equal]
pub struct DecisionView {
    pub events: Seq<CapabilityEventView>,
    pub acts: Seq<ActView>,
}

impl DeepView for Decision {
    type V = DecisionView;

    open spec fn deep_view(&self) -> DecisionView {
        DecisionView {
            events: self.events.deep_view(),
            acts: self.acts.deep_view(),
        }
    }
}

impl Dup for Decision {
    fn dup(&self) -> (out: Self) {
        Decision {
            events: self.events.dup(),
            acts: self.acts.dup(),
        }
    }
}

impl Clone for Decision {
    fn clone(&self) -> (out: Self)
        ensures
            out.deep_view() == self.deep_view(),
    {
        self.dup()
    }
}

impl DecisionView {
    /// Record these and do nothing.
    pub open spec fn record(events: Seq<CapabilityEventView>) -> DecisionView {
        DecisionView { events, acts: seq![] }
    }

    /// Do this and record nothing.
    pub open spec fn only(act: ActView) -> DecisionView {
        DecisionView { events: seq![], acts: seq![act] }
    }

    /// And do this afterwards.
    pub open spec fn and(self, act: ActView) -> DecisionView {
        DecisionView { acts: self.acts.push(act), ..self }
    }
}

impl Decision {
    /// Record this and do nothing.
    pub fn record(event: CapabilityEvent) -> (r: Self)
        ensures
            r.deep_view() == DecisionView::record(seq![event.deep_view()]),
    {
        let ghost fact = event.deep_view();
        let mut events: Vec<CapabilityEvent> = Vec::new();
        events.push(event);
        let acts: Vec<Act> = Vec::new();
        proof {
            assert(events.deep_view() =~= seq![fact]);
            assert(acts.deep_view() =~= seq![]);
        }
        Decision { events, acts }
    }

    /// Do this and record nothing.
    fn only(act: Act) -> (r: Self)
        ensures
            r.deep_view() == DecisionView::only(act.deep_view()),
    {
        let ghost done = act.deep_view();
        let mut acts: Vec<Act> = Vec::new();
        acts.push(act);
        let events: Vec<CapabilityEvent> = Vec::new();
        proof {
            assert(acts.deep_view() =~= seq![done]);
            assert(events.deep_view() =~= seq![]);
        }
        Decision { events, acts }
    }

    /// Give a call its result and record nothing.
    pub fn reply(call: &str, text: &str) -> (r: Self)
        ensures
            r.deep_view() == DecisionView::only(ActView::Answer { call: call@, text: text@ }),
    {
        Decision::only(Act::Answer { call: call.to_owned(), text: text.to_owned() })
    }

    /// Give a call an error for its result and record nothing.
    pub fn refuse(call: &str, reason: String) -> (r: Self)
        ensures
            r.deep_view() == DecisionView::only(ActView::Refuse { call: call@, reason: reason@ }),
    {
        Decision::only(Act::Refuse { call: call.to_owned(), reason })
    }

    /// And do this afterwards.
    pub fn and(self, act: Act) -> (r: Self)
        ensures
            r.deep_view() == self.deep_view().and(act.deep_view()),
    {
        let ghost had = self.acts.deep_view();
        let ghost done = act.deep_view();
        let mut acts = self.acts;
        acts.push(act);
        proof {
            assert(acts.deep_view() =~= had.push(done));
        }
        Decision { events: self.events, acts }
    }
}

/// Where a turn is.
#[derive(Debug, Clone, Copy, PartialEq, Eq, Structural)]
pub enum TurnEvent {
    Began,
    Ended,
    Failed,
    Cancelled,
}

impl DeepView for TurnEvent {
    type V = TurnEvent;

    open spec fn deep_view(&self) -> TurnEvent {
        *self
    }
}

impl Dup for TurnEvent {
    fn dup(&self) -> (out: Self) {
        *self
    }
}

/// Something that reached the agent and may concern a capability.
#[derive(Debug, PartialEq, Eq)]
pub enum Msg {
    /// A call to a tool nobody's layer claimed.
    Tool { call: String, name: String },
    /// Somebody answered.
    Answer(Vec<AskAnswer>),
    /// A turn moved.
    Turn(TurnEvent),
    /// A child moved.
    Child(ChildMsg),
    /// The session replied.
    Reply(SessionReply),
    /// A sleep elapsed.
    Woke { id: String },
    /// The agent said its work is done.
    Concluded,
    /// The agent was loaded.
    Loaded,
    /// A turn is about to be built.
    TurnProposed,
}

/// What a [`Msg`] stands for.
#[verifier::ext_equal]
pub enum MsgView {
    Tool { call: Seq<char>, name: Seq<char> },
    Answer(Seq<AskAnswerView>),
    Turn(TurnEvent),
    Child(ChildMsgView),
    Reply(SessionReplyView),
    Woke { id: Seq<char> },
    Concluded,
    Loaded,
    TurnProposed,
}

impl DeepView for Msg {
    type V = MsgView;

    open spec fn deep_view(&self) -> MsgView {
        match self {
            Msg::Tool { call, name } => MsgView::Tool {
                call: call.deep_view(),
                name: name.deep_view(),
            },
            Msg::Answer(a) => MsgView::Answer(a.deep_view()),
            Msg::Turn(a) => MsgView::Turn(a.deep_view()),
            Msg::Child(a) => MsgView::Child(a.deep_view()),
            Msg::Reply(a) => MsgView::Reply(a.deep_view()),
            Msg::Woke { id } => MsgView::Woke {
                id: id.deep_view(),
            },
            Msg::Concluded => MsgView::Concluded,
            Msg::Loaded => MsgView::Loaded,
            Msg::TurnProposed => MsgView::TurnProposed,
        }
    }
}

impl Dup for Msg {
    fn dup(&self) -> (out: Self) {
        match self {
            Msg::Tool { call, name } => Msg::Tool {
                call: call.dup(),
                name: name.dup(),
            },
            Msg::Answer(a) => Msg::Answer(a.dup()),
            Msg::Turn(a) => Msg::Turn(a.dup()),
            Msg::Child(a) => Msg::Child(a.dup()),
            Msg::Reply(a) => Msg::Reply(a.dup()),
            Msg::Woke { id } => Msg::Woke {
                id: id.dup(),
            },
            Msg::Concluded => Msg::Concluded,
            Msg::Loaded => Msg::Loaded,
            Msg::TurnProposed => Msg::TurnProposed,
        }
    }
}

impl Clone for Msg {
    fn clone(&self) -> (out: Self)
        ensures
            out.deep_view() == self.deep_view(),
    {
        self.dup()
    }
}

/// A decision records its events and takes its acts in the order they were
/// added; recording takes no act, and acting alone records nothing.
pub proof fn law_acts_are_taken_in_order(
    events: Seq<CapabilityEventView>,
    first: ActView,
    second: ActView,
)
    ensures
        DecisionView::record(events).events == events,
        DecisionView::record(events).acts.len() == 0,
        DecisionView::only(first).events.len() == 0,
        DecisionView::only(first).acts == seq![first],
        DecisionView::record(events).and(first).and(second).events == events,
        DecisionView::record(events).and(first).and(second).acts == seq![first, second],
{
    assert(DecisionView::record(events).and(first).and(second).acts =~= seq![first, second]);
}

} // verus!
