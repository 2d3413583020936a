//! `submit_result`: how a workflow step says it is done, and what it returns.
//!
//! A submission concludes the step and carries its output. It does not route:
//! which step runs next is decided elsewhere, from the recorded output.

use crate::capabilities::{PromptSection, PromptSectionView};
use crate::capabilities::claims::{
    self, CapCommand, CapCommandView, Claim, ClaimView, ClaimedTool, ClaimedToolView,
};
use crate::capabilities::decision::{Act, ActView, Decision, DecisionView, Msg};
use crate::capabilities::state::{CapabilityEvent, CapabilityEventView};
use crate::capabilities::step_declaration::{
    self, StepField, StepFieldView, StepOutcome, StepOutcomeView, result_schema, validate_result,
};
use crate::json::{self, Json, JsonView, compact};
use crate::text::Dup;
use vstd::prelude::*;

verus! {

/// The tool this capability answers for.
pub const SUBMIT_RESULT_TOOL: &'static str = "submit_result";

/// Appended to a workflow step's system prompt.
pub const STEP_PROMPT_SUFFIX: &'static str = "# Workflow step\nYou are one step of a workflow, not a conversation. Your instruction and the previous step's result are in the message above. You share one workspace with every other step: what you change on disk is what the next step sees. You may spawn subagents with spawn_agent. You cannot rename the session.\n\nFinish by calling `submit_result`. What you submit is this step's result *and* what the workflow reads to decide which step runs next, so make it accurate and self-contained. Ending a turn without it is only safe while something will wake you — a question you asked, a timer you armed, or a subagent still running. If nothing will, and the work is done, submit.";

/// What the model is told the tool is for.
pub const TOOL_DESCRIPTION: &'static str = "Finish this step: deliver its result. Call this once the step's work is done — it ends the step, and what you submit decides which step runs next.";

/// What the model asked this capability to do.
#[derive(Debug, PartialEq, Eq)]
pub enum Command {
    /// `submit_result`, with the result not yet held to the declaration.
    Submit { input: Json },
}

/// What a [`Command`] stands for.
#[verifier::ext_equal]
pub enum CommandView {
    Submit { input: JsonView },
}

impl DeepView for Command {
    type V = CommandView;

    open spec fn deep_view(&self) -> CommandView {
        match self {
            Command::Submit { input } => CommandView::Submit {
                input: input.deep_view(),
            },
        }
    }
}

impl Dup for Command {
    fn dup(&self) -> (out: Self) {
        match self {
            Command::Submit { input } => Command::Submit {
                input: input.dup(),
            },
        }
    }
}

impl Clone for Command {
    fn clone(&self) -> (out: Self)
        ensures
            out.deep_view() == self.deep_view(),
    {
        self.dup()
    }
}

/// What a step's result is held to.
#[derive(Debug, PartialEq, Eq)]
pub struct StepResultCapability {
    /// The values this step's outcome may take.
    pub outcomes: Vec<StepOutcome>,
    /// What the result carries beyond its outcome and description.
    pub fields: Vec<StepField>,
    /// Whether this step may stop and ask the person.
    pub interactive: bool,
}

/// What a [`StepResultCapability`] stands for.
#[verifier::ext_equal]
pub struct StepResultCapabilityView {
    pub outcomes: Seq<StepOutcomeView>,
    pub fields: Seq<StepFieldView>,
    pub interactive: bool,
}

impl DeepView for StepResultCapability {
    type V = StepResultCapabilityView;

    open spec fn deep_view(&self) -> StepResultCapabilityView {
        StepResultCapabilityView {
            outcomes: self.outcomes.deep_view(),
            fields: self.fields.deep_view(),
            interactive: self.interactive.deep_view(),
        }
    }
}

impl Dup for StepResultCapability {
    fn dup(&self) -> (out: Self) {
        StepResultCapability {
            outcomes: self.outcomes.dup(),
            fields: self.fields.dup(),
            interactive: self.interactive.dup(),
        }
    }
}

impl Clone for StepResultCapability {
    fn clone(&self) -> (out: Self)
        ensures
            out.deep_view() == self.deep_view(),
    {
        self.dup()
    }
}

/// What a submission comes to. One that is accepted is recorded and concludes
/// the step with what was submitted; one that is not records nothing.
pub open spec fn submission(
    cap: StepResultCapabilityView,
    call: Seq<char>,
    input: JsonView,
) -> DecisionView {
    match step_declaration::result_error(input, cap.outcomes, cap.fields) {
        None => DecisionView::record(
            seq![CapabilityEventView::StepResultSubmitted { output: input }],
        ).and(ActView::Conclude { output: input }),
        Some(reason) => DecisionView::only(
            ActView::Refuse { call, reason: "submit_result was rejected: "@ + reason },
        ),
    }
}

/// The tools this capability claims: the step's own result tool, with the
/// schema the step declared.
pub open spec fn step_claims(cap: StepResultCapabilityView) -> Seq<ClaimedToolView> {
    seq![
        claims::tool_claimed(
            SUBMIT_RESULT_TOOL@,
            TOOL_DESCRIPTION@,
            json::compact_text(step_declaration::schema_of(cap.outcomes, cap.fields)),
            ClaimView::StepResult,
        ),
    ]
}

impl StepResultCapability {
    pub fn new(outcomes: Vec<StepOutcome>, fields: Vec<StepField>, interactive: bool) -> (r: Self)
        ensures
            r.outcomes == outcomes,
            r.fields == fields,
            r.interactive == interactive,
    {
        StepResultCapability { outcomes, fields, interactive }
    }

    /// What a diagnostic names this capability by.
    pub fn name(&self) -> (r: &'static str)
        ensures
            r@ == "step_result"@,
    {
        "step_result"
    }

    /// The model submitted this step's result.
    fn submitted(&self, call: &str, input: &Json) -> (r: Decision)
        ensures
            r.deep_view() == submission(self.deep_view(), call@, input.deep_view()),
    {
        match validate_result(input, &self.outcomes, &self.fields) {
            Ok(()) => Decision::record(
                CapabilityEvent::StepResultSubmitted { output: input.dup() },
            ).and(Act::Conclude { output: input.dup() }),
            Err(reason) => {
                let mut out = "submit_result was rejected: ".to_owned();
                out.append(reason.as_str());
                Decision::refuse(call, out)
            },
        }
    }

    /// The tools this capability claims.
    pub fn claims(&self) -> (r: Vec<ClaimedTool>)
        ensures
            r.deep_view() == step_claims(self.deep_view()),
    {
        let schema = compact(&result_schema(&self.outcomes, &self.fields));
        let mut out: Vec<ClaimedTool> = Vec::new();
        out.push(
            ClaimedTool::new(
                SUBMIT_RESULT_TOOL,
                TOOL_DESCRIPTION.to_owned(),
                schema.as_str(),
                Claim::StepResult,
            ),
        );
        proof {
            assert(out.deep_view() =~= step_claims(self.deep_view()));
        }
        out
    }

    /// The paragraph that says what a step is.
    pub fn prompt(&self) -> (r: PromptSection)
        ensures
            r.deep_view() == (PromptSectionView {
                key: "step_result"@,
                body: STEP_PROMPT_SUFFIX@,
            }),
    {
        PromptSection { key: "step_result", body: STEP_PROMPT_SUFFIX.to_owned() }
    }

    /// Answer a command, if it is this capability's.
    pub fn command(&self, cmd: &CapCommand) -> (r: Option<Decision>)
        ensures
            r.deep_view() == (match cmd.deep_view() {
                CapCommandView::StepResult(CommandView::Submit { input }, to) => Some(
                    submission(self.deep_view(), to.call, input),
                ),
                _ => None,
            }),
    {
        match cmd {
            CapCommand::StepResult(Command::Submit { input }, to) => Some(
                self.submitted(to.call.as_str(), input),
            ),
            _ => None,
        }
    }

    /// Nothing: this capability waits for nothing.
    pub fn handle(&self, _msg: &Msg) -> (r: Option<Decision>)
        ensures
            r is None,
    {
        None
    }
}

impl Default for StepResultCapability {
    fn default() -> (r: Self)
        ensures
            r.outcomes@.len() == 0,
            r.fields@.len() == 0,
            !r.interactive,
    {
        StepResultCapability { outcomes: Vec::new(), fields: Vec::new(), interactive: false }
    }
}

/// Nothing undeclared is recorded or concluded on, and what is concluded on is
/// what is recorded.
pub proof fn law_only_a_declared_result_concludes(
    cap: StepResultCapabilityView,
    call: Seq<char>,
    input: JsonView,
)
    ensures
        ({
            let d = submission(cap, call, input);
            let accepted = step_declaration::result_error(input, cap.outcomes, cap.fields) is None;
            &&& accepted <==> d.events == seq![
                CapabilityEventView::StepResultSubmitted { output: input },
            ]
            &&& accepted <==> d.acts == seq![ActView::Conclude { output: input }]
            &&& !accepted ==> d.events.len() == 0 && d.acts.len() == 1 && d.acts[0] is Refuse
        }),
{
    let d = submission(cap, call, input);
    if step_declaration::result_error(input, cap.outcomes, cap.fields) is None {
        assert(d.acts =~= seq![ActView::Conclude { output: input }]);
    } else {
        let recorded = seq![CapabilityEventView::StepResultSubmitted { output: input }];
        let concluded = seq![ActView::Conclude { output: input }];
        assert(d.events.len() == 0 && recorded.len() == 1);
        assert(d.acts[0] is Refuse && concluded[0] is Conclude);
    }
}

/// A result that is refused is refused to its call, in the words of what is
/// wrong with it; one that is accepted is recorded and concludes the step, as
/// it was submitted.
pub proof fn law_a_result_concludes_or_is_told_why(
    cap: StepResultCapabilityView,
    call: Seq<char>,
    input: JsonView,
)
    ensures
        step_declaration::result_error(input, cap.outcomes, cap.fields) matches Some(reason) ==> submission(
            cap,
            call,
            input,
        ).acts == seq![
            ActView::Refuse { call, reason: "submit_result was rejected: "@ + reason },
        ],
        step_declaration::result_error(input, cap.outcomes, cap.fields) is None ==> submission(cap, call, input).acts
            == seq![ActView::Conclude { output: input }] && submission(cap, call, input).events
            == seq![CapabilityEventView::StepResultSubmitted { output: input }],
        step_claims(cap)[0].spec.input_schema == json::compact_text(step_declaration::schema_of(cap.outcomes, cap.fields)),
{
    assert(submission(cap, call, input).acts.len() == 1);
}

} // verus!
