//! The plain data the agent loop passes around.

use crate::json::{Json, JsonView};
use crate::text::Dup;
use vstd::prelude::*;

verus! {

/// Something stored elsewhere that a message refers to, by id.
#[derive(Debug, PartialEq, Eq)]
pub struct ArtifactRef {
    pub id: String,
}

/// What a [`ArtifactRef`] stands for.
#[verifier::ext_equal]
pub struct ArtifactRefView {
    pub id: Seq<char>,
}

impl DeepView for ArtifactRef {
    type V = ArtifactRefView;

    open spec fn deep_view(&self) -> ArtifactRefView {
        ArtifactRefView {
            id: self.id.deep_view(),
        }
    }
}

impl Dup for ArtifactRef {
    fn dup(&self) -> (out: Self) {
        ArtifactRef {
            id: self.id.dup(),
        }
    }
}

impl Clone for ArtifactRef {
    fn clone(&self) -> (out: Self)
        ensures
            out.deep_view() == self.deep_view(),
    {
        self.dup()
    }
}

/// What a worker this agent spawned came back with.
#[derive(Debug, PartialEq, Eq)]
pub struct SubAgentResultPart {
    pub subagent_id: String,
    pub label: String,
    pub status: String,
    pub text: String,
    pub spawned_at_ms: u64,
    pub ended_at_ms: u64,
}

/// What a [`SubAgentResultPart`] stands for.
#[verifier::ext_equal]
pub struct SubAgentResultPartView {
    pub subagent_id: Seq<char>,
    pub label: Seq<char>,
    pub status: Seq<char>,
    pub text: Seq<char>,
    pub spawned_at_ms: u64,
    pub ended_at_ms: u64,
}

impl DeepView for SubAgentResultPart {
    type V = SubAgentResultPartView;

    open spec fn deep_view(&self) -> SubAgentResultPartView {
        SubAgentResultPartView {
            subagent_id: self.subagent_id.deep_view(),
            label: self.label.deep_view(),
            status: self.status.deep_view(),
            text: self.text.deep_view(),
            spawned_at_ms: self.spawned_at_ms.deep_view(),
            ended_at_ms: self.ended_at_ms.deep_view(),
        }
    }
}

impl Dup for SubAgentResultPart {
    fn dup(&self) -> (out: Self) {
        SubAgentResultPart {
            subagent_id: self.subagent_id.dup(),
            label: self.label.dup(),
            status: self.status.dup(),
            text: self.text.dup(),
            spawned_at_ms: self.spawned_at_ms.dup(),
            ended_at_ms: self.ended_at_ms.dup(),
        }
    }
}

impl Clone for SubAgentResultPart {
    fn clone(&self) -> (out: Self)
        ensures
            out.deep_view() == self.deep_view(),
    {
        self.dup()
    }
}

/// A result for one dangling tool call.
#[derive(Debug, PartialEq, Eq)]
pub struct ToolResultInput {
    pub tool_call_id: String,
    pub output: String,
    pub is_error: bool,
    pub artifacts: Vec<ArtifactRef>,
}

/// What a [`ToolResultInput`] stands for.
#[verifier::ext_equal]
pub struct ToolResultInputView {
    pub tool_call_id: Seq<char>,
    pub output: Seq<char>,
    pub is_error: bool,
    pub artifacts: Seq<ArtifactRefView>,
}

impl DeepView for ToolResultInput {
    type V = ToolResultInputView;

    open spec fn deep_view(&self) -> ToolResultInputView {
        ToolResultInputView {
            tool_call_id: self.tool_call_id.deep_view(),
            output: self.output.deep_view(),
            is_error: self.is_error.deep_view(),
            artifacts: self.artifacts.deep_view(),
        }
    }
}

impl Dup for ToolResultInput {
    fn dup(&self) -> (out: Self) {
        ToolResultInput {
            tool_call_id: self.tool_call_id.dup(),
            output: self.output.dup(),
            is_error: self.is_error.dup(),
            artifacts: self.artifacts.dup(),
        }
    }
}

impl Clone for ToolResultInput {
    fn clone(&self) -> (out: Self)
        ensures
            out.deep_view() == self.deep_view(),
    {
        self.dup()
    }
}

/// A tool call that ended the run it was made in.
#[derive(Debug, PartialEq, Eq)]
pub struct StoppedCall {
    pub tool_call_id: String,
    pub tool: String,
    pub input: Json,
}

/// What a [`StoppedCall`] stands for.
#[verifier::ext_equal]
pub struct StoppedCallView {
    pub tool_call_id: Seq<char>,
    pub tool: Seq<char>,
    pub input: JsonView,
}

impl DeepView for StoppedCall {
    type V = StoppedCallView;

    open spec fn deep_view(&self) -> StoppedCallView {
        StoppedCallView {
            tool_call_id: self.tool_call_id.deep_view(),
            tool: self.tool.deep_view(),
            input: self.input.deep_view(),
        }
    }
}

impl Dup for StoppedCall {
    fn dup(&self) -> (out: Self) {
        StoppedCall {
            tool_call_id: self.tool_call_id.dup(),
            tool: self.tool.dup(),
            input: self.input.dup(),
        }
    }
}

impl Clone for StoppedCall {
    fn clone(&self) -> (out: Self)
        ensures
            out.deep_view() == self.deep_view(),
    {
        self.dup()
    }
}

/// What a tool is, as a model is shown it. The schema is JSON text.
#[derive(Debug, PartialEq, Eq)]
pub struct ToolSpec {
    pub name: String,
    pub description: String,
    pub input_schema: String,
}

/// What a [`ToolSpec`] stands for.
#[verifier::ext_equal]
pub struct ToolSpecView {
    pub name: Seq<char>,
    pub description: Seq<char>,
    pub input_schema: Seq<char>,
}

impl DeepView for ToolSpec {
    type V = ToolSpecView;

    open spec fn deep_view(&self) -> ToolSpecView {
        ToolSpecView {
            name: self.name.deep_view(),
            description: self.description.deep_view(),
            input_schema: self.input_schema.deep_view(),
        }
    }
}

impl Dup for ToolSpec {
    fn dup(&self) -> (out: Self) {
        ToolSpec {
            name: self.name.dup(),
            description: self.description.dup(),
            input_schema: self.input_schema.dup(),
        }
    }
}

impl Clone for ToolSpec {
    fn clone(&self) -> (out: Self)
        ensures
            out.deep_view() == self.deep_view(),
    {
        self.dup()
    }
}

/// Why a tool call gave no value.
#[derive(Debug, PartialEq, Eq)]
pub enum ToolCallError {
    InvalidInput(String),
    ExecutionFailed(String),
}

/// What a [`ToolCallError`] stands for.
#[verifier::ext_equal]
pub enum ToolCallErrorView {
    InvalidInput(Seq<char>),
    ExecutionFailed(Seq<char>),
}

impl DeepView for ToolCallError {
    type V = ToolCallErrorView;

    open spec fn deep_view(&self) -> ToolCallErrorView {
        match self {
            ToolCallError::InvalidInput(a) => ToolCallErrorView::InvalidInput(a.deep_view()),
            ToolCallError::ExecutionFailed(a) => ToolCallErrorView::ExecutionFailed(a.deep_view()),
        }
    }
}

impl Dup for ToolCallError {
    fn dup(&self) -> (out: Self) {
        match self {
            ToolCallError::InvalidInput(a) => ToolCallError::InvalidInput(a.dup()),
            ToolCallError::ExecutionFailed(a) => ToolCallError::ExecutionFailed(a.dup()),
        }
    }
}

impl Clone for ToolCallError {
    fn clone(&self) -> (out: Self)
        ensures
            out.deep_view() == self.deep_view(),
    {
        self.dup()
    }
}

/// Who speaks a message.
#[derive(Debug, Clone, Copy, PartialEq, Eq, Structural)]
pub enum Role {
    User,
    Assistant,
    Tool,
}

impl DeepView for Role {
    type V = Role;

    open spec fn deep_view(&self) -> Role {
        *self
    }
}

impl Dup for Role {
    fn dup(&self) -> (out: Self) {
        *self
    }
}

/// One tool call, as the model made it.
#[derive(Debug, PartialEq, Eq)]
pub struct ToolUse {
    pub id: String,
    pub name: String,
    pub input: Json,
}

/// What a [`ToolUse`] stands for.
#[verifier::ext_equal]
pub struct ToolUseView {
    pub id: Seq<char>,
    pub name: Seq<char>,
    pub input: JsonView,
}

impl DeepView for ToolUse {
    type V = ToolUseView;

    open spec fn deep_view(&self) -> ToolUseView {
        ToolUseView {
            id: self.id.deep_view(),
            name: self.name.deep_view(),
            input: self.input.deep_view(),
        }
    }
}

impl Dup for ToolUse {
    fn dup(&self) -> (out: Self) {
        ToolUse {
            id: self.id.dup(),
            name: self.name.dup(),
            input: self.input.dup(),
        }
    }
}

impl Clone for ToolUse {
    fn clone(&self) -> (out: Self)
        ensures
            out.deep_view() == self.deep_view(),
    {
        self.dup()
    }
}

/// One piece of what a message says.
#[derive(Debug, PartialEq, Eq)]
pub enum ContentPart {
    Text(String),
    ToolUse(ToolUse),
    ToolResult(ToolResultInput),
}

/// What a [`ContentPart`] stands for.
#[verifier::ext_equal]
pub enum ContentPartView {
    Text(Seq<char>),
    ToolUse(ToolUseView),
    ToolResult(ToolResultInputView),
}

impl DeepView for ContentPart {
    type V = ContentPartView;

    open spec fn deep_view(&self) -> ContentPartView {
        match self {
            ContentPart::Text(a) => ContentPartView::Text(a.deep_view()),
            ContentPart::ToolUse(a) => ContentPartView::ToolUse(a.deep_view()),
            ContentPart::ToolResult(a) => ContentPartView::ToolResult(a.deep_view()),
        }
    }
}

impl Dup for ContentPart {
    fn dup(&self) -> (out: Self) {
        match self {
            ContentPart::Text(a) => ContentPart::Text(a.dup()),
            ContentPart::ToolUse(a) => ContentPart::ToolUse(a.dup()),
            ContentPart::ToolResult(a) => ContentPart::ToolResult(a.dup()),
        }
    }
}

impl Clone for ContentPart {
    fn clone(&self) -> (out: Self)
        ensures
            out.deep_view() == self.deep_view(),
    {
        self.dup()
    }
}

/// One message of a conversation.
#[derive(Debug, PartialEq, Eq)]
pub struct Message {
    pub id: String,
    pub role: Role,
    pub parts: Vec<ContentPart>,
    pub created_at_ms: u64,
}

/// What a [`Message`] stands for.
#[verifier::ext_equal]
pub struct MessageView {
    pub id: Seq<char>,
    pub role: Role,
    pub parts: Seq<ContentPartView>,
    pub created_at_ms: u64,
}

impl DeepView for Message {
    type V = MessageView;

    open spec fn deep_view(&self) -> MessageView {
        MessageView {
            id: self.id.deep_view(),
            role: self.role.deep_view(),
            parts: self.parts.deep_view(),
            created_at_ms: self.created_at_ms.deep_view(),
        }
    }
}

impl Dup for Message {
    fn dup(&self) -> (out: Self) {
        Message {
            id: self.id.dup(),
            role: self.role.dup(),
            parts: self.parts.dup(),
            created_at_ms: self.created_at_ms.dup(),
        }
    }
}

impl Clone for Message {
    fn clone(&self) -> (out: Self)
        ensures
            out.deep_view() == self.deep_view(),
    {
        self.dup()
    }
}

impl MessageView {
    /// A message of one text, spoken by the model.
    pub open spec fn assistant_text(id: Seq<char>, text: Seq<char>, at_ms: u64) -> MessageView {
        MessageView {
            id,
            role: Role::Assistant,
            parts: seq![ContentPartView::Text(text)],
            created_at_ms: at_ms,
        }
    }

    /// The result of one tool call. It has the call's id, so a replay gives it
    /// the id the live run wrote.
    pub open spec fn tool_result(
        tool_call_id: Seq<char>,
        output: Seq<char>,
        is_error: bool,
        artifacts: Seq<ArtifactRefView>,
        at_ms: u64,
    ) -> MessageView {
        MessageView {
            id: tool_call_id,
            role: Role::Tool,
            parts: seq![
                ContentPartView::ToolResult(
                    ToolResultInputView { tool_call_id, output, is_error, artifacts },
                ),
            ],
            created_at_ms: at_ms,
        }
    }
}

impl Message {
    /// A message of one text, spoken by the model.
    pub fn assistant_text(id: String, text: String, at_ms: u64) -> (r: Self)
        ensures
            r.deep_view() == MessageView::assistant_text(id@, text@, at_ms),
    {
        let mut parts: Vec<ContentPart> = Vec::new();
        parts.push(ContentPart::Text(text));
        let r = Message { id, role: Role::Assistant, parts, created_at_ms: at_ms };
        proof {
            assert(r.parts.deep_view() =~= seq![ContentPartView::Text(text@)]);
        }
        r
    }

    /// The result of one tool call.
    pub fn tool_result(
        tool_call_id: &str,
        output: String,
        is_error: bool,
        artifacts: Vec<ArtifactRef>,
        at_ms: u64,
    ) -> (r: Self)
        ensures
            r.deep_view() == MessageView::tool_result(
                tool_call_id@,
                output@,
                is_error,
                artifacts.deep_view(),
                at_ms,
            ),
    {
        let ghost part = ContentPartView::ToolResult(
            ToolResultInputView {
                tool_call_id: tool_call_id@,
                output: output@,
                is_error,
                artifacts: artifacts.deep_view(),
            },
        );
        let mut parts: Vec<ContentPart> = Vec::new();
        parts.push(
            ContentPart::ToolResult(
                ToolResultInput {
                    tool_call_id: tool_call_id.to_owned(),
                    output,
                    is_error,
                    artifacts,
                },
            ),
        );
        let r = Message {
            id: tool_call_id.to_owned(),
            role: Role::Tool,
            parts,
            created_at_ms: at_ms,
        };
        proof {
            assert(r.parts.deep_view() =~= seq![part]);
        }
        r
    }
}

/// What one provider call was charged.
#[derive(Debug, PartialEq, Eq)]
pub struct Usage {
    pub input_tokens: u32,
    pub output_tokens: u32,
}

/// What a [`Usage`] stands for.
#[verifier::ext_equal]
pub struct UsageView {
    pub input_tokens: u32,
    pub output_tokens: u32,
}

impl DeepView for Usage {
    type V = UsageView;

    open spec fn deep_view(&self) -> UsageView {
        UsageView {
            input_tokens: self.input_tokens.deep_view(),
            output_tokens: self.output_tokens.deep_view(),
        }
    }
}

impl Dup for Usage {
    fn dup(&self) -> (out: Self) {
        Usage {
            input_tokens: self.input_tokens.dup(),
            output_tokens: self.output_tokens.dup(),
        }
    }
}

impl Clone for Usage {
    fn clone(&self) -> (out: Self)
        ensures
            out.deep_view() == self.deep_view(),
    {
        self.dup()
    }
}

/// Why the model stopped writing.
#[derive(Debug, Clone, Copy, PartialEq, Eq, Structural)]
pub enum StopReason {
    EndTurn,
    MaxTokens,
    ToolUse,
}

impl DeepView for StopReason {
    type V = StopReason;

    open spec fn deep_view(&self) -> StopReason {
        *self
    }
}

/// What a provider call says about tool use.
#[derive(Debug, PartialEq, Eq)]
pub enum ToolChoice {
    /// The model decides.
    Auto,
    /// The model calls this tool and nothing else.
    Required(String),
}

/// What a [`ToolChoice`] stands for.
#[verifier::ext_equal]
pub enum ToolChoiceView {
    Auto,
    Required(Seq<char>),
}

impl DeepView for ToolChoice {
    type V = ToolChoiceView;

    open spec fn deep_view(&self) -> ToolChoiceView {
        match self {
            ToolChoice::Auto => ToolChoiceView::Auto,
            ToolChoice::Required(a) => ToolChoiceView::Required(a.deep_view()),
        }
    }
}

impl Dup for ToolChoice {
    fn dup(&self) -> (out: Self) {
        match self {
            ToolChoice::Auto => ToolChoice::Auto,
            ToolChoice::Required(a) => ToolChoice::Required(a.dup()),
        }
    }
}

impl Clone for ToolChoice {
    fn clone(&self) -> (out: Self)
        ensures
            out.deep_view() == self.deep_view(),
    {
        self.dup()
    }
}

/// How hard the model is asked to think.
#[derive(Debug, Clone, Copy, PartialEq, Eq, Structural)]
pub enum ThinkingEffort {
    Low,
    Medium,
    High,
}

impl DeepView for ThinkingEffort {
    type V = ThinkingEffort;

    open spec fn deep_view(&self) -> ThinkingEffort {
        *self
    }
}

impl Dup for ThinkingEffort {
    fn dup(&self) -> (out: Self) {
        *self
    }
}

/// Why history was folded behind a summary.
#[derive(Debug, Clone, Copy, PartialEq, Eq, Structural)]
pub enum CompactionTrigger {
    Manual,
    Auto,
}

impl DeepView for CompactionTrigger {
    type V = CompactionTrigger;

    open spec fn deep_view(&self) -> CompactionTrigger {
        *self
    }
}

impl Dup for CompactionTrigger {
    fn dup(&self) -> (out: Self) {
        *self
    }
}

/// When a run folds its history behind a summary.
#[derive(Debug, PartialEq, Eq)]
pub struct CompactionBudget {
    pub context_window: u32,
    pub trigger_at_percent: u32,
    pub retain_percent: u32,
}

/// What a [`CompactionBudget`] stands for.
#[verifier::ext_equal]
pub struct CompactionBudgetView {
    pub context_window: u32,
    pub trigger_at_percent: u32,
    pub retain_percent: u32,
}

impl DeepView for CompactionBudget {
    type V = CompactionBudgetView;

    open spec fn deep_view(&self) -> CompactionBudgetView {
        CompactionBudgetView {
            context_window: self.context_window.deep_view(),
            trigger_at_percent: self.trigger_at_percent.deep_view(),
            retain_percent: self.retain_percent.deep_view(),
        }
    }
}

impl Dup for CompactionBudget {
    fn dup(&self) -> (out: Self) {
        CompactionBudget {
            context_window: self.context_window.dup(),
            trigger_at_percent: self.trigger_at_percent.dup(),
            retain_percent: self.retain_percent.dup(),
        }
    }
}

impl Clone for CompactionBudget {
    fn clone(&self) -> (out: Self)
        ensures
            out.deep_view() == self.deep_view(),
    {
        self.dup()
    }
}

/// How far a worker has got.
#[derive(Debug, PartialEq, Eq)]
pub struct SubAgentLifecycle {
    pub id: String,
    pub label: String,
    pub status: String,
}

/// What a [`SubAgentLifecycle`] stands for.
#[verifier::ext_equal]
pub struct SubAgentLifecycleView {
    pub id: Seq<char>,
    pub label: Seq<char>,
    pub status: Seq<char>,
}

impl DeepView for SubAgentLifecycle {
    type V = SubAgentLifecycleView;

    open spec fn deep_view(&self) -> SubAgentLifecycleView {
        SubAgentLifecycleView {
            id: self.id.deep_view(),
            label: self.label.deep_view(),
            status: self.status.deep_view(),
        }
    }
}

impl Dup for SubAgentLifecycle {
    fn dup(&self) -> (out: Self) {
        SubAgentLifecycle {
            id: self.id.dup(),
            label: self.label.dup(),
            status: self.status.dup(),
        }
    }
}

impl Clone for SubAgentLifecycle {
    fn clone(&self) -> (out: Self)
        ensures
            out.deep_view() == self.deep_view(),
    {
        self.dup()
    }
}

/// Something that happened to the session an agent belongs to.
#[derive(Debug, PartialEq, Eq)]
pub enum LifecycleEvent {
    /// A worker this agent spawned moved on.
    SubAgent(SubAgentLifecycle),
    /// A person's message was accepted.
    MessageQueued { id: String, text: String },
    /// The session's runtime came or went.
    Runtime { ready: bool },
}

/// What a [`LifecycleEvent`] stands for.
#[verifier::ext_equal]
pub enum LifecycleEventView {
    SubAgent(SubAgentLifecycleView),
    MessageQueued { id: Seq<char>, text: Seq<char> },
    Runtime { ready: bool },
}

impl DeepView for LifecycleEvent {
    type V = LifecycleEventView;

    open spec fn deep_view(&self) -> LifecycleEventView {
        match self {
            LifecycleEvent::SubAgent(a) => LifecycleEventView::SubAgent(a.deep_view()),
            LifecycleEvent::MessageQueued { id, text } => LifecycleEventView::MessageQueued {
                id: id.deep_view(),
                text: text.deep_view(),
            },
            LifecycleEvent::Runtime { ready } => LifecycleEventView::Runtime {
                ready: ready.deep_view(),
            },
        }
    }
}

impl Dup for LifecycleEvent {
    fn dup(&self) -> (out: Self) {
        match self {
            LifecycleEvent::SubAgent(a) => LifecycleEvent::SubAgent(a.dup()),
            LifecycleEvent::MessageQueued { id, text } => LifecycleEvent::MessageQueued {
                id: id.dup(),
                text: text.dup(),
            },
            LifecycleEvent::Runtime { ready } => LifecycleEvent::Runtime {
                ready: ready.dup(),
            },
        }
    }
}

impl Clone for LifecycleEvent {
    fn clone(&self) -> (out: Self)
        ensures
            out.deep_view() == self.deep_view(),
    {
        self.dup()
    }
}

/// What a plugin hook did to a tool call.
#[derive(Debug, PartialEq, Eq)]
pub struct HookRecord {
    pub tool_call_id: Option<String>,
    pub hook: String,
    pub outcome: String,
}

/// What a [`HookRecord`] stands for.
#[verifier::ext_equal]
pub struct HookRecordView {
    pub tool_call_id: Option<Seq<char>>,
    pub hook: Seq<char>,
    pub outcome: Seq<char>,
}

impl DeepView for HookRecord {
    type V = HookRecordView;

    open spec fn deep_view(&self) -> HookRecordView {
        HookRecordView {
            tool_call_id: self.tool_call_id.deep_view(),
            hook: self.hook.deep_view(),
            outcome: self.outcome.deep_view(),
        }
    }
}

impl Dup for HookRecord {
    fn dup(&self) -> (out: Self) {
        HookRecord {
            tool_call_id: self.tool_call_id.dup(),
            hook: self.hook.dup(),
            outcome: self.outcome.dup(),
        }
    }
}

impl Clone for HookRecord {
    fn clone(&self) -> (out: Self)
        ensures
            out.deep_view() == self.deep_view(),
    {
        self.dup()
    }
}

/// A message of one text says that text as the model; the result of a call is
/// a tool's message under the id of that call, with its output as it came.
pub proof fn law_a_message_says_what_it_was_made_of(
    id: Seq<char>,
    text: Seq<char>,
    is_error: bool,
    artifacts: Seq<ArtifactRefView>,
    at_ms: u64,
)
    ensures
        ({
            let spoken = MessageView::assistant_text(id, text, at_ms);
            let result = MessageView::tool_result(id, text, is_error, artifacts, at_ms);
            &&& spoken.id == id && spoken.role == Role::Assistant && spoken.created_at_ms == at_ms
            &&& spoken.parts == seq![ContentPartView::Text(text)]
            &&& result.id == id && result.role == Role::Tool && result.created_at_ms == at_ms
            &&& result.parts.len() == 1
            &&& result.parts[0] matches ContentPartView::ToolResult(r) && r.tool_call_id == id
                && r.output == text && r.is_error == is_error && r.artifacts == artifacts
        }),
{
}

} // verus!
