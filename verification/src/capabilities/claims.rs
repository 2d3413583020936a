//! Tool names claimed by a capability, and what a call to one becomes.
//!
//! A name is resolved once, by the layer that claimed it: behind that layer
//! there is a command and no name. A layer answers the names it claims and
//! passes everything else through to what it wraps.

use crate::capabilities::ask_user;
use crate::capabilities::step_result;
use crate::json::{Json, JsonView};
use crate::lists;
use crate::model::{ToolSpec, ToolSpecView};
use crate::runners::{AgentCatalog, AgentCatalogView};
use crate::text::{Dup, same};
use vstd::prelude::*;

verus! {

/// The schema of a tool without arguments.
pub const NO_ARGUMENTS: &'static str = "{\"properties\":{},\"type\":\"object\"}";

/// The call a command answers. It outlives the channel an answer would be sent
/// on: a parked call is answered against it much later.
#[derive(Debug, PartialEq, Eq)]
pub struct Answering {
    pub call: String,
}

/// What a [`Answering`] stands for.
#[verifier::ext_equal]
pub struct AnsweringView {
    pub call: Seq<char>,
}

impl DeepView for Answering {
    type V = AnsweringView;

    open spec fn deep_view(&self) -> AnsweringView {
        AnsweringView {
            call: self.call.deep_view(),
        }
    }
}

impl Dup for Answering {
    fn dup(&self) -> (out: Self) {
        Answering {
            call: self.call.dup(),
        }
    }
}

impl Clone for Answering {
    fn clone(&self) -> (out: Self)
        ensures
            out.deep_view() == self.deep_view(),
    {
        self.dup()
    }
}

/// What a model asked a capability to do.
#[derive(Debug, PartialEq, Eq)]
pub enum CapCommand {
    AskUser(ask_user::Command, Answering),
    TitleRename { input: Json, answering: Answering },
    SubAgentSpawn { input: Json, catalog: Option<AgentCatalog>, answering: Answering },
    SubAgentStatus { answering: Answering },
    WorkflowInvoke { input: Json, answering: Answering },
    WorkflowStatus { answering: Answering },
    StepResult(step_result::Command, Answering),
    TaskListChange { input: Json, answering: Answering },
    TimerArm { input: Json, answering: Answering },
    TimerList { answering: Answering },
    TimerCancel { input: Json, answering: Answering },
}

/// What a [`CapCommand`] stands for.
#[verifier::ext_equal]
pub enum CapCommandView {
    AskUser(ask_user::CommandView, AnsweringView),
    TitleRename { input: JsonView, answering: AnsweringView },
    SubAgentSpawn { input: JsonView, catalog: Option<AgentCatalogView>, answering: AnsweringView },
    SubAgentStatus { answering: AnsweringView },
    WorkflowInvoke { input: JsonView, answering: AnsweringView },
    WorkflowStatus { answering: AnsweringView },
    StepResult(step_result::CommandView, AnsweringView),
    TaskListChange { input: JsonView, answering: AnsweringView },
    TimerArm { input: JsonView, answering: AnsweringView },
    TimerList { answering: AnsweringView },
    TimerCancel { input: JsonView, answering: AnsweringView },
}

impl DeepView for CapCommand {
    type V = CapCommandView;

    open spec fn deep_view(&self) -> CapCommandView {
        match self {
            CapCommand::AskUser(a, b) => CapCommandView::AskUser(a.deep_view(), b.deep_view()),
            CapCommand::TitleRename { input, answering } => CapCommandView::TitleRename {
                input: input.deep_view(),
                answering: answering.deep_view(),
            },
            CapCommand::SubAgentSpawn { input, catalog, answering } => CapCommandView::SubAgentSpawn {
                input: input.deep_view(),
                catalog: catalog.deep_view(),
                answering: answering.deep_view(),
            },
            CapCommand::SubAgentStatus { answering } => CapCommandView::SubAgentStatus {
                answering: answering.deep_view(),
            },
            CapCommand::WorkflowInvoke { input, answering } => CapCommandView::WorkflowInvoke {
                input: input.deep_view(),
                answering: answering.deep_view(),
            },
            CapCommand::WorkflowStatus { answering } => CapCommandView::WorkflowStatus {
                answering: answering.deep_view(),
            },
            CapCommand::StepResult(a, b) => CapCommandView::StepResult(a.deep_view(), b.deep_view()),
            CapCommand::TaskListChange { input, answering } => CapCommandView::TaskListChange {
                input: input.deep_view(),
                answering: answering.deep_view(),
            },
            CapCommand::TimerArm { input, answering } => CapCommandView::TimerArm {
                input: input.deep_view(),
                answering: answering.deep_view(),
            },
            CapCommand::TimerList { answering } => CapCommandView::TimerList {
                answering: answering.deep_view(),
            },
            CapCommand::TimerCancel { input, answering } => CapCommandView::TimerCancel {
                input: input.deep_view(),
                answering: answering.deep_view(),
            },
        }
    }
}

impl Dup for CapCommand {
    fn dup(&self) -> (out: Self) {
        match self {
            CapCommand::AskUser(a, b) => CapCommand::AskUser(a.dup(), b.dup()),
            CapCommand::TitleRename { input, answering } => CapCommand::TitleRename {
                input: input.dup(),
                answering: answering.dup(),
            },
            CapCommand::SubAgentSpawn { input, catalog, answering } => CapCommand::SubAgentSpawn {
                input: input.dup(),
                catalog: catalog.dup(),
                answering: answering.dup(),
            },
            CapCommand::SubAgentStatus { answering } => CapCommand::SubAgentStatus {
                answering: answering.dup(),
            },
            CapCommand::WorkflowInvoke { input, answering } => CapCommand::WorkflowInvoke {
                input: input.dup(),
                answering: answering.dup(),
            },
            CapCommand::WorkflowStatus { answering } => CapCommand::WorkflowStatus {
                answering: answering.dup(),
            },
            CapCommand::StepResult(a, b) => CapCommand::StepResult(a.dup(), b.dup()),
            CapCommand::TaskListChange { input, answering } => CapCommand::TaskListChange {
                input: input.dup(),
                answering: answering.dup(),
            },
            CapCommand::TimerArm { input, answering } => CapCommand::TimerArm {
                input: input.dup(),
                answering: answering.dup(),
            },
            CapCommand::TimerList { answering } => CapCommand::TimerList {
                answering: answering.dup(),
            },
            CapCommand::TimerCancel { input, answering } => CapCommand::TimerCancel {
                input: input.dup(),
                answering: answering.dup(),
            },
        }
    }
}

impl Clone for CapCommand {
    fn clone(&self) -> (out: Self)
        ensures
            out.deep_view() == self.deep_view(),
    {
        self.dup()
    }
}

impl CapCommandView {
    /// The capability that answers this command.
    pub open spec fn capability(self) -> Seq<char> {
        match self {
            CapCommandView::AskUser(_, _) => "ask_user"@,
            CapCommandView::TitleRename { .. } => "title"@,
            CapCommandView::SubAgentSpawn { .. } => "sub_agent"@,
            CapCommandView::SubAgentStatus { .. } => "sub_agent"@,
            CapCommandView::WorkflowInvoke { .. } => "workflow"@,
            CapCommandView::WorkflowStatus { .. } => "workflow"@,
            CapCommandView::StepResult(_, _) => "step_result"@,
            CapCommandView::TaskListChange { .. } => "task_list"@,
            CapCommandView::TimerArm { .. } => "timers"@,
            CapCommandView::TimerList { .. } => "timers"@,
            CapCommandView::TimerCancel { .. } => "timers"@,
        }
    }
}

impl CapCommand {
    /// The capability that answers this command, for the diagnostic when it is
    /// not equipped.
    pub fn capability(&self) -> (r: &'static str)
        ensures
            r@ == self.deep_view().capability(),
    {
        match self {
            CapCommand::AskUser(_, _) => "ask_user",
            CapCommand::TitleRename { .. } => "title",
            CapCommand::SubAgentSpawn { .. } => "sub_agent",
            CapCommand::SubAgentStatus { .. } => "sub_agent",
            CapCommand::WorkflowInvoke { .. } => "workflow",
            CapCommand::WorkflowStatus { .. } => "workflow",
            CapCommand::StepResult(_, _) => "step_result",
            CapCommand::TaskListChange { .. } => "task_list",
            CapCommand::TimerArm { .. } => "timers",
            CapCommand::TimerList { .. } => "timers",
            CapCommand::TimerCancel { .. } => "timers",
        }
    }
}

/// Which command a claimed call becomes.
#[derive(Debug, PartialEq, Eq)]
pub enum Claim {
    AskUser,
    TitleRename,
    /// With the agent types that were advertised, so that a refusal names the
    /// list the model was shown.
    SubAgentSpawn(Option<AgentCatalog>),
    SubAgentStatus,
    WorkflowInvoke,
    WorkflowStatus,
    StepResult,
    TaskListChange,
    TimerArm,
    TimerList,
    TimerCancel,
}

/// What a [`Claim`] stands for.
#[verifier::ext_equal]
pub enum ClaimView {
    AskUser,
    TitleRename,
    SubAgentSpawn(Option<AgentCatalogView>),
    SubAgentStatus,
    WorkflowInvoke,
    WorkflowStatus,
    StepResult,
    TaskListChange,
    TimerArm,
    TimerList,
    TimerCancel,
}

impl DeepView for Claim {
    type V = ClaimView;

    open spec fn deep_view(&self) -> ClaimView {
        match self {
            Claim::AskUser => ClaimView::AskUser,
            Claim::TitleRename => ClaimView::TitleRename,
            Claim::SubAgentSpawn(a) => ClaimView::SubAgentSpawn(a.deep_view()),
            Claim::SubAgentStatus => ClaimView::SubAgentStatus,
            Claim::WorkflowInvoke => ClaimView::WorkflowInvoke,
            Claim::WorkflowStatus => ClaimView::WorkflowStatus,
            Claim::StepResult => ClaimView::StepResult,
            Claim::TaskListChange => ClaimView::TaskListChange,
            Claim::TimerArm => ClaimView::TimerArm,
            Claim::TimerList => ClaimView::TimerList,
            Claim::TimerCancel => ClaimView::TimerCancel,
        }
    }
}

impl Dup for Claim {
    fn dup(&self) -> (out: Self) {
        match self {
            Claim::AskUser => Claim::AskUser,
            Claim::TitleRename => Claim::TitleRename,
            Claim::SubAgentSpawn(a) => Claim::SubAgentSpawn(a.dup()),
            Claim::SubAgentStatus => Claim::SubAgentStatus,
            Claim::WorkflowInvoke => Claim::WorkflowInvoke,
            Claim::WorkflowStatus => Claim::WorkflowStatus,
            Claim::StepResult => Claim::StepResult,
            Claim::TaskListChange => Claim::TaskListChange,
            Claim::TimerArm => Claim::TimerArm,
            Claim::TimerList => Claim::TimerList,
            Claim::TimerCancel => Claim::TimerCancel,
        }
    }
}

impl Clone for Claim {
    fn clone(&self) -> (out: Self)
        ensures
            out.deep_view() == self.deep_view(),
    {
        self.dup()
    }
}

impl ClaimView {
    /// The command a call with these arguments becomes.
    pub open spec fn command(self, input: JsonView, answering: AnsweringView) -> CapCommandView {
        match self {
            ClaimView::AskUser => CapCommandView::AskUser(
                ask_user::CommandView::Ask { input },
                answering,
            ),
            ClaimView::TitleRename => CapCommandView::TitleRename { input, answering },
            ClaimView::SubAgentSpawn(catalog) => CapCommandView::SubAgentSpawn {
                input,
                catalog,
                answering,
            },
            ClaimView::SubAgentStatus => CapCommandView::SubAgentStatus { answering },
            ClaimView::WorkflowInvoke => CapCommandView::WorkflowInvoke { input, answering },
            ClaimView::WorkflowStatus => CapCommandView::WorkflowStatus { answering },
            ClaimView::StepResult => CapCommandView::StepResult(
                step_result::CommandView::Submit { input },
                answering,
            ),
            ClaimView::TaskListChange => CapCommandView::TaskListChange { input, answering },
            ClaimView::TimerArm => CapCommandView::TimerArm { input, answering },
            ClaimView::TimerList => CapCommandView::TimerList { answering },
            ClaimView::TimerCancel => CapCommandView::TimerCancel { input, answering },
        }
    }
}

impl Claim {
    /// The command a call with these arguments becomes.
    pub fn command(&self, input: Json, answering: Answering) -> (r: CapCommand)
        ensures
            r.deep_view() == self.deep_view().command(input.deep_view(), answering.deep_view()),
    {
        match self {
            Claim::AskUser => CapCommand::AskUser(ask_user::Command::Ask { input }, answering),
            Claim::TitleRename => CapCommand::TitleRename { input, answering },
            Claim::SubAgentSpawn(catalog) => CapCommand::SubAgentSpawn {
                input,
                catalog: catalog.dup(),
                answering,
            },
            Claim::SubAgentStatus => CapCommand::SubAgentStatus { answering },
            Claim::WorkflowInvoke => CapCommand::WorkflowInvoke { input, answering },
            Claim::WorkflowStatus => CapCommand::WorkflowStatus { answering },
            Claim::StepResult => CapCommand::StepResult(
                step_result::Command::Submit { input },
                answering,
            ),
            Claim::TaskListChange => CapCommand::TaskListChange { input, answering },
            Claim::TimerArm => CapCommand::TimerArm { input, answering },
            Claim::TimerList => CapCommand::TimerList { answering },
            Claim::TimerCancel => CapCommand::TimerCancel { input, answering },
        }
    }
}

/// A tool a capability claims: what the model is shown of it, and what a call
/// to it becomes.
#[derive(Debug, PartialEq, Eq)]
pub struct ClaimedTool {
    pub spec: ToolSpec,
    pub claim: Claim,
}

/// What a [`ClaimedTool`] stands for.
#[verifier::ext_equal]
pub struct ClaimedToolView {
    pub spec: ToolSpecView,
    pub claim: ClaimView,
}

impl DeepView for ClaimedTool {
    type V = ClaimedToolView;

    open spec fn deep_view(&self) -> ClaimedToolView {
        ClaimedToolView {
            spec: self.spec.deep_view(),
            claim: self.claim.deep_view(),
        }
    }
}

impl Dup for ClaimedTool {
    fn dup(&self) -> (out: Self) {
        ClaimedTool {
            spec: self.spec.dup(),
            claim: self.claim.dup(),
        }
    }
}

impl Clone for ClaimedTool {
    fn clone(&self) -> (out: Self)
        ensures
            out.deep_view() == self.deep_view(),
    {
        self.dup()
    }
}

/// A claimed tool of this name, description and schema.
pub open spec fn tool_claimed(
    name: Seq<char>,
    description: Seq<char>,
    input_schema: Seq<char>,
    claim: ClaimView,
) -> ClaimedToolView {
    ClaimedToolView { spec: ToolSpecView { name, description, input_schema }, claim }
}

impl ClaimedTool {
    /// A claimed tool of this name, description and schema.
    pub fn new(name: &str, description: String, input_schema: &str, claim: Claim) -> (r: Self)
        ensures
            r.deep_view() == tool_claimed(
                name@,
                description@,
                input_schema@,
                claim.deep_view(),
            ),
    {
        ClaimedTool {
            spec: ToolSpec {
                name: name.to_owned(),
                description,
                input_schema: input_schema.to_owned(),
            },
            claim,
        }
    }
}

/// What a call to this name becomes, if one of these claims it.
pub open spec fn claim_of(claims: Seq<ClaimedToolView>, name: Seq<char>) -> Option<ClaimView> {
    lists::find_map(
        claims,
        |c: ClaimedToolView|
            if c.spec.name == name {
                Some(c.claim)
            } else {
                None
            },
    )
}

/// What these claims show the model.
pub open spec fn shown(claims: Seq<ClaimedToolView>) -> Seq<ToolSpecView> {
    claims.map_values(|c: ClaimedToolView| c.spec)
}

/// The tools of a toolbox whose names these do not claim.
pub open spec fn unclaimed(inner: Seq<ToolSpecView>, claims: Seq<ClaimedToolView>) -> Seq<
    ToolSpecView,
> {
    lists::filter_map(
        inner,
        |s: ToolSpecView|
            if claim_of(claims, s.name) is Some {
                None
            } else {
                Some(s)
            },
    )
}

/// A toolbox with these claims in front of it: the claimed tools, then what is
/// left of the tools behind them.
pub open spec fn layered(inner: Seq<ToolSpecView>, claims: Seq<ClaimedToolView>) -> Seq<
    ToolSpecView,
> {
    shown(claims) + unclaimed(inner, claims)
}

/// What a call to this name becomes, if one of these claims it.
pub fn claimed<'a>(claims: &'a [ClaimedTool], name: &str) -> (r: Option<&'a Claim>)
    ensures
        match r {
            Some(c) => claim_of(claims.deep_view(), name@) == Some(c.deep_view()),
            None => claim_of(claims.deep_view(), name@) is None,
        },
{
    let ghost all = claims.deep_view();
    let ghost f = |c: ClaimedToolView|
        if c.spec.name == name@ {
            Some(c.claim)
        } else {
            None
        };
    proof {
        assert(all.skip(0) =~= all);
    }
    for i in 0..claims.len()
        invariant
            all == claims.deep_view(),
            f == (|c: ClaimedToolView|
                if c.spec.name == name@ {
                    Some(c.claim)
                } else {
                    None
                }),
            lists::find_map(all, f) == lists::find_map(all.skip(i as int), f),
    {
        proof {
            assert(all[i as int] == claims@[i as int].deep_view());
            assert(all.skip(i as int)[0] == all[i as int]);
            assert(all.skip(i as int).drop_first() =~= all.skip(i + 1));
        }
        if same(claims[i].spec.name.as_str(), name) {
            return Some(&claims[i].claim);
        }
    }
    proof {
        assert(all.skip(claims.len() as int) =~= seq![]);
    }
    None
}

/// A toolbox with these claims in front of it. One that claims nothing hands
/// the toolbox back as it is.
pub fn claiming(inner: Vec<ToolSpec>, claims: &[ClaimedTool]) -> (r: Vec<ToolSpec>)
    ensures
        r.deep_view() == layered(inner.deep_view(), claims.deep_view()),
{
    let ghost names = claims.deep_view();
    let ghost front = shown(names);
    let ghost behind = inner.deep_view();
    let ghost keep = |s: ToolSpecView|
        if claim_of(names, s.name) is Some {
            None
        } else {
            Some(s)
        };
    let mut out: Vec<ToolSpec> = Vec::new();
    for i in 0..claims.len()
        invariant
            names == claims.deep_view(),
            front == shown(names),
            out.deep_view() == front.take(i as int),
    {
        let ghost had = out.deep_view();
        out.push(claims[i].spec.dup());
        proof {
            assert(names[i as int] == claims@[i as int].deep_view());
            assert(out.deep_view() =~= had.push(front[i as int]));
            assert(front.take(i + 1) =~= front.take(i as int).push(front[i as int]));
        }
    }
    proof {
        assert(front.take(claims.len() as int) =~= front);
        assert(front + lists::filter_map(behind.take(0), keep) =~= front);
    }
    for i in 0..inner.len()
        invariant
            names == claims.deep_view(),
            behind == inner.deep_view(),
            keep == (|s: ToolSpecView|
                if claim_of(names, s.name) is Some {
                    None
                } else {
                    Some(s)
                }),
            out.deep_view() == front + lists::filter_map(behind.take(i as int), keep),
    {
        let ghost had = out.deep_view();
        proof {
            lists::lemma_filter_map_step(behind, keep, i as int);
            assert(behind[i as int] == inner@[i as int].deep_view());
        }
        match claimed(claims, inner[i].name.as_str()) {
            Some(_) => {},
            None => {
                out.push(inner[i].dup());
                proof {
                    assert(out.deep_view() =~= had.push(behind[i as int]));
                    assert(front + lists::filter_map(behind.take(i + 1), keep) =~= had.push(
                        behind[i as int],
                    ));
                }
            },
        }
    }
    proof {
        assert(behind.take(inner.len() as int) =~= behind);
    }
    out
}

/// A claimed name is advertised once, by whoever claimed it: none of the tools
/// behind a layer that are still shown has a name the layer claims.
pub proof fn law_a_claim_hides_the_tools_behind_it(
    inner: Seq<ToolSpecView>,
    claims: Seq<ClaimedToolView>,
    i: int,
)
    requires
        0 <= i < unclaimed(inner, claims).len(),
    ensures
        claim_of(claims, unclaimed(inner, claims)[i].name) is None,
        inner.contains(unclaimed(inner, claims)[i]),
{
    let keep = |s: ToolSpecView|
        if claim_of(claims, s.name) is Some {
            None
        } else {
            Some(s)
        };
    lists::lemma_filter_map_members(inner, keep);
    let left = unclaimed(inner, claims);
    assert(left == lists::filter_map(inner, keep));
    assert(left.contains(left[i]));
    let j = choose|j: int| 0 <= j < inner.len() && keep(#[trigger] inner[j]) == Some(left[i]);
    assert(inner[j] == left[i]);
}

/// A layer that claims nothing leaves the toolbox as it is.
pub proof fn law_no_claim_no_layer(inner: Seq<ToolSpecView>)
    ensures
        layered(inner, seq![]) == inner,
    decreases inner.len(),
{
    let keep = |s: ToolSpecView|
        if claim_of(seq![], s.name) is Some {
            None
        } else {
            Some(s)
        };
    assert(shown(seq![]) =~= seq![]);
    if inner.len() > 0 {
        law_no_claim_no_layer(inner.drop_last());
        lists::lemma_filter_map_step(inner, keep, inner.len() - 1);
        assert(inner.take(inner.len() as int) =~= inner);
        assert(inner.take(inner.len() - 1) =~= inner.drop_last());
        assert(layered(inner.drop_last(), seq![]) =~= lists::filter_map(inner.drop_last(), keep));
        assert(inner.drop_last().push(inner.last()) =~= inner);
    }
    assert(layered(inner, seq![]) =~= lists::filter_map(inner, keep));
}

/// A call is claimed by the first claim on its tool's name, and by none when
/// no claim is on it.
pub proof fn law_the_first_claim_on_a_name_takes_it(
    claims: Seq<ClaimedToolView>,
    name: Seq<char>,
    k: int,
)
    requires
        0 <= k <= claims.len(),
        forall|i: int| 0 <= i < k ==> (#[trigger] claims[i]).spec.name != name,
        k < claims.len() ==> claims[k].spec.name == name,
    ensures
        k < claims.len() ==> claim_of(claims, name) == Some(claims[k].claim),
        k == claims.len() ==> claim_of(claims, name) is None,
{
    let pick = |c: ClaimedToolView|
        if c.spec.name == name {
            Some(c.claim)
        } else {
            None
        };
    assert forall|j: int| 0 <= j < k implies pick(#[trigger] claims[j]) is None by {
        assert(claims[j].spec.name != name);
    }
    crate::lists::law_a_search_ends_at_the_first_find(claims, pick, k);
}

/// A layer shows its claims first, each as it is described, and behind them
/// the tools below that it does not claim, tool by tool and in their order.
pub proof fn law_a_layer_shows_its_claims_first(
    inner: Seq<ToolSpecView>,
    more: Seq<ToolSpecView>,
    tool: ToolSpecView,
    claims: Seq<ClaimedToolView>,
)
    ensures
        ({
            let all = layered(inner, claims);
            &&& all.len() >= claims.len()
            &&& forall|i: int| 0 <= i < claims.len() ==> (#[trigger] all[i]) == claims[i].spec
            &&& all.skip(claims.len() as int) == unclaimed(inner, claims)
            &&& unclaimed(inner + more, claims) == unclaimed(inner, claims) + unclaimed(more, claims)
            &&& unclaimed(seq![tool], claims) == (if claim_of(claims, tool.name) is Some {
                seq![]
            } else {
                seq![tool]
            })
        }),
{
    let keep = |s: ToolSpecView|
        if claim_of(claims, s.name) is Some {
            None
        } else {
            Some(s)
        };
    crate::lists::law_a_list_is_filtered_item_by_item(inner, more, tool, keep);
    assert(layered(inner, claims).skip(claims.len() as int) =~= unclaimed(inner, claims));
}

/// A call that was claimed becomes the command of its claim, with its own
/// input and the call it answers, and goes to the capability of that claim.
pub proof fn law_a_claimed_call_becomes_its_command(
    input: JsonView,
    to: AnsweringView,
    catalog: Option<AgentCatalogView>,
)
    ensures
        ClaimView::AskUser.command(input, to) == CapCommandView::AskUser(
            ask_user::CommandView::Ask { input },
            to,
        ),
        ClaimView::TitleRename.command(input, to) == (CapCommandView::TitleRename {
            input,
            answering: to,
        }),
        ClaimView::SubAgentSpawn(catalog).command(input, to) == (CapCommandView::SubAgentSpawn {
            input,
            catalog,
            answering: to,
        }),
        ClaimView::SubAgentStatus.command(input, to) == (CapCommandView::SubAgentStatus {
            answering: to,
        }),
        ClaimView::WorkflowInvoke.command(input, to) == (CapCommandView::WorkflowInvoke {
            input,
            answering: to,
        }),
        ClaimView::WorkflowStatus.command(input, to) == (CapCommandView::WorkflowStatus {
            answering: to,
        }),
        ClaimView::StepResult.command(input, to) == CapCommandView::StepResult(
            step_result::CommandView::Submit { input },
            to,
        ),
        ClaimView::TaskListChange.command(input, to) == (CapCommandView::TaskListChange {
            input,
            answering: to,
        }),
        ClaimView::TimerArm.command(input, to) == (CapCommandView::TimerArm {
            input,
            answering: to,
        }),
        ClaimView::TimerList.command(input, to) == (CapCommandView::TimerList { answering: to }),
        ClaimView::TimerCancel.command(input, to) == (CapCommandView::TimerCancel {
            input,
            answering: to,
        }),
        ClaimView::AskUser.command(input, to).capability() == "ask_user"@,
        ClaimView::TitleRename.command(input, to).capability() == "title"@,
        ClaimView::SubAgentSpawn(catalog).command(input, to).capability() == "sub_agent"@,
        ClaimView::SubAgentStatus.command(input, to).capability() == "sub_agent"@,
        ClaimView::WorkflowInvoke.command(input, to).capability() == "workflow"@,
        ClaimView::WorkflowStatus.command(input, to).capability() == "workflow"@,
        ClaimView::StepResult.command(input, to).capability() == "step_result"@,
        ClaimView::TaskListChange.command(input, to).capability() == "task_list"@,
        ClaimView::TimerArm.command(input, to).capability() == "timers"@,
        ClaimView::TimerList.command(input, to).capability() == "timers"@,
        ClaimView::TimerCancel.command(input, to).capability() == "timers"@,
{
}

} // verus!
