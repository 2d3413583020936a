//! Tools from several places as one list, and where a call to one goes.
//!
//! A toolbox is known here by what it advertises. Tools of a remote server are
//! named `mcp__<server>__<tool>`, so they never collide with the runtime's own
//! and one vocabulary serves a selection, a hook matcher and the model.

use crate::json::{self, Json, JsonView, is_json_text};
use crate::lists;
use crate::model::{ToolCallError, ToolCallErrorView, ToolSpec, ToolSpecView};
use crate::text::{self, Dup, same, strip_prefix, text_before};
use vstd::prelude::*;

verus! {

/// A configured MCP server whose tools are not in this turn's toolbox, and why.
#[derive(Debug, PartialEq, Eq)]
pub enum McpUnavailable {
    /// Named by the session, but no such server is configured any more.
    Gone { server: String },
    /// Configured, but this turn could not reach it.
    Unreachable { server: String, reason: String },
    /// Configured and reachable, but it has not been authorised.
    NeedsAuth { server: String },
}

/// What a [`McpUnavailable`] stands for.
#[verifier::ext_equal]
pub enum McpUnavailableView {
    Gone { server: Seq<char> },
    Unreachable { server: Seq<char>, reason: Seq<char> },
    NeedsAuth { server: Seq<char> },
}

impl DeepView for McpUnavailable {
    type V = McpUnavailableView;

    open spec fn deep_view(&self) -> McpUnavailableView {
        match self {
            McpUnavailable::Gone { server } => McpUnavailableView::Gone {
                server: server.deep_view(),
            },
            McpUnavailable::Unreachable { server, reason } => McpUnavailableView::Unreachable {
                server: server.deep_view(),
                reason: reason.deep_view(),
            },
            McpUnavailable::NeedsAuth { server } => McpUnavailableView::NeedsAuth {
                server: server.deep_view(),
            },
        }
    }
}

impl Dup for McpUnavailable {
    fn dup(&self) -> (out: Self) {
        match self {
            McpUnavailable::Gone { server } => McpUnavailable::Gone {
                server: server.dup(),
            },
            McpUnavailable::Unreachable { server, reason } => McpUnavailable::Unreachable {
                server: server.dup(),
                reason: reason.dup(),
            },
            McpUnavailable::NeedsAuth { server } => McpUnavailable::NeedsAuth {
                server: server.dup(),
            },
        }
    }
}

impl Clone for McpUnavailable {
    fn clone(&self) -> (out: Self)
        ensures
            out.deep_view() == self.deep_view(),
    {
        self.dup()
    }
}

impl McpUnavailableView {
    /// The server this is about.
    pub open spec fn server(self) -> Seq<char> {
        match self {
            McpUnavailableView::Gone { server } => server,
            McpUnavailableView::Unreachable { server, .. } => server,
            McpUnavailableView::NeedsAuth { server } => server,
        }
    }

    /// What the agent is told when it calls one of this server's tools.
    pub open spec fn explained(self) -> Seq<char> {
        match self {
            McpUnavailableView::Gone { server } => "the MCP server '"@ + server
                + "' is no longer configured, so its tools are gone.                  Do not call them again; say so and carry on without them."@,
            McpUnavailableView::Unreachable { server, reason } => "the MCP server '"@ + server
                + "' could not be reached this turn ("@ + reason
                + "), so its                  tools are unavailable. It may recover on a later turn."@,
            McpUnavailableView::NeedsAuth { server } => "the MCP server '"@ + server
                + "' has not been authorised, so its tools are                  unavailable until someone connects it in Settings."@,
        }
    }
}

impl McpUnavailable {
    /// The server this is about.
    pub fn server(&self) -> (r: &str)
        ensures
            r@ == self.deep_view().server(),
    {
        match self {
            McpUnavailable::Gone { server } => server.as_str(),
            McpUnavailable::Unreachable { server, .. } => server.as_str(),
            McpUnavailable::NeedsAuth { server } => server.as_str(),
        }
    }

    /// What the agent is told when it calls one of this server's tools.
    pub fn explain(&self) -> (r: String)
        ensures
            r@ == self.deep_view().explained(),
    {
        let mut out = "the MCP server '".to_owned();
        out.append(self.server());
        match self {
            McpUnavailable::Gone { .. } => {
                out.append(
                    "' is no longer configured, so its tools are gone.                  Do not call them again; say so and carry on without them.",
                );
            },
            McpUnavailable::Unreachable { reason, .. } => {
                out.append("' could not be reached this turn (");
                out.append(reason.as_str());
                out.append(
                    "), so its                  tools are unavailable. It may recover on a later turn.",
                );
            },
            McpUnavailable::NeedsAuth { .. } => {
                out.append(
                    "' has not been authorised, so its tools are                  unavailable until someone connects it in Settings.",
                );
            },
        }
        out
    }
}

/// The server in `mcp__<server>__<tool>`, for a name that is one. A name with
/// nothing to part a server from a tool is none.
pub open spec fn server_of(tool: Seq<char>) -> Option<Seq<char>> {
    match text::behind(tool, "mcp__"@) {
        Some(rest) => if text::occurs(rest, "__"@) {
            Some(text::up_to(rest, "__"@))
        } else {
            None
        },
        None => None,
    }
}

/// The server in `mcp__<server>__<tool>`, for a name that is one.
pub fn mcp_server_of(tool: &str) -> (r: Option<&str>)
    ensures
        match r {
            Some(server) => server_of(tool@) == Some(server@),
            None => server_of(tool@) is None,
        },
{
    match strip_prefix(tool, "mcp__") {
        Some(rest) => text_before(rest, "__"),
        None => None,
    }
}

/// What a turn got from the MCP servers it asked for: what those that connected
/// advertise, and the servers that did not, with why.
#[derive(Debug, PartialEq, Eq)]
pub struct McpToolboxes {
    pub boxes: Vec<Vec<ToolSpec>>,
    pub unavailable: Vec<McpUnavailable>,
}

/// What a [`McpToolboxes`] stands for.
#[verifier::ext_equal]
pub struct McpToolboxesView {
    pub boxes: Seq<Seq<ToolSpecView>>,
    pub unavailable: Seq<McpUnavailableView>,
}

impl DeepView for McpToolboxes {
    type V = McpToolboxesView;

    open spec fn deep_view(&self) -> McpToolboxesView {
        McpToolboxesView {
            boxes: self.boxes.deep_view(),
            unavailable: self.unavailable.deep_view(),
        }
    }
}

impl Dup for McpToolboxes {
    fn dup(&self) -> (out: Self) {
        McpToolboxes {
            boxes: self.boxes.dup(),
            unavailable: self.unavailable.dup(),
        }
    }
}

impl Clone for McpToolboxes {
    fn clone(&self) -> (out: Self)
        ensures
            out.deep_view() == self.deep_view(),
    {
        self.dup()
    }
}

impl McpToolboxes {
    /// Nothing was asked for.
    pub fn new() -> (r: Self)
        ensures
            r.deep_view() == (McpToolboxesView { boxes: seq![], unavailable: seq![] }),
    {
        let r = McpToolboxes { boxes: Vec::new(), unavailable: Vec::new() };
        proof {
            assert(r.boxes.deep_view() =~= seq![]);
            assert(r.unavailable.deep_view() =~= seq![]);
        }
        r
    }

    /// Whether this turn has nothing to say about MCP at all.
    pub fn is_empty(&self) -> (r: bool)
        ensures
            r == (self.deep_view().boxes.len() == 0 && self.deep_view().unavailable.len() == 0),
    {
        self.boxes.len() == 0 && self.unavailable.len() == 0
    }
}

impl Default for McpToolboxes {
    fn default() -> (r: Self)
        ensures
            r.deep_view() == (McpToolboxesView { boxes: seq![], unavailable: seq![] }),
    {
        McpToolboxes::new()
    }
}

/// Whether a tool of this name is advertised.
pub open spec fn advertises(specs: Seq<ToolSpecView>, name: Seq<char>) -> bool {
    exists|i: int| 0 <= i < specs.len() && (#[trigger] specs[i]).name == name
}

/// Everything advertised, one box after the other.
pub open spec fn flattened(boxes: Seq<Seq<ToolSpecView>>) -> Seq<ToolSpecView>
    decreases boxes.len(),
{
    if boxes.len() == 0 {
        seq![]
    } else {
        flattened(boxes.drop_last()) + boxes.last()
    }
}

/// The specs, without those whose name came before.
pub open spec fn first_of_each(specs: Seq<ToolSpecView>) -> Seq<ToolSpecView>
    decreases specs.len(),
{
    if specs.len() == 0 {
        seq![]
    } else if advertises(specs.drop_last(), specs.last().name) {
        first_of_each(specs.drop_last())
    } else {
        first_of_each(specs.drop_last()).push(specs.last())
    }
}

/// The first box that advertises a name, or their number.
pub open spec fn box_of(boxes: Seq<Seq<ToolSpecView>>, name: Seq<char>) -> int
    decreases boxes.len(),
{
    if boxes.len() == 0 {
        0
    } else if advertises(boxes[0], name) {
        0
    } else {
        1 + box_of(boxes.drop_first(), name)
    }
}

/// Why the first of these servers is absent, when this is its name.
pub open spec fn absence_of(unavailable: Seq<McpUnavailableView>, server: Seq<char>) -> Option<
    McpUnavailableView,
> {
    lists::find_map(
        unavailable,
        |u: McpUnavailableView|
            if u.server() == server {
                Some(u)
            } else {
                None
            },
    )
}

/// What is said to a call for a tool nobody advertises.
pub open spec fn no_such_tool(unavailable: Seq<McpUnavailableView>, name: Seq<char>) -> Seq<char> {
    let missing = match server_of(name) {
        Some(server) => absence_of(unavailable, server),
        None => None,
    };
    match missing {
        Some(u) => u.explained(),
        None => "no tool named '"@ + name + "'"@,
    }
}

/// Whether a tool of this name is advertised.
pub fn is_advertised(specs: &[ToolSpec], name: &str) -> (r: bool)
    ensures
        r == advertises(specs.deep_view(), name@),
{
    for i in 0..specs.len()
        invariant
            forall|j: int| 0 <= j < i ==> (#[trigger] specs.deep_view()[j]).name != name@,
    {
        proof {
            assert(specs.deep_view()[i as int] == specs@[i as int].deep_view());
        }
        if same(specs[i].name.as_str(), name) {
            return true;
        }
    }
    false
}

/// Several toolboxes as one. A call goes to the first box that advertises the
/// tool; the list is every box's, the first spelling of a name winning.
#[derive(Debug, PartialEq, Eq)]
pub struct CompositeToolbox {
    boxes: Vec<Vec<ToolSpec>>,
    /// Servers this turn asked for and did not get. Advertised to nobody, and
    /// consulted when a call arrives for one anyway.
    unavailable: Vec<McpUnavailable>,
}

/// What a [`CompositeToolbox`] stands for.
#[verifier::ext_equal]
pub struct CompositeToolboxView {
    pub boxes: Seq<Seq<ToolSpecView>>,
    pub unavailable: Seq<McpUnavailableView>,
}

impl DeepView for CompositeToolbox {
    type V = CompositeToolboxView;

    closed spec fn deep_view(&self) -> CompositeToolboxView {
        CompositeToolboxView {
            boxes: self.boxes.deep_view(),
            unavailable: self.unavailable.deep_view(),
        }
    }
}

impl Dup for CompositeToolbox {
    fn dup(&self) -> (out: Self) {
        CompositeToolbox {
            boxes: self.boxes.dup(),
            unavailable: self.unavailable.dup(),
        }
    }
}

impl Clone for CompositeToolbox {
    fn clone(&self) -> (out: Self)
        ensures
            out.deep_view() == self.deep_view(),
    {
        self.dup()
    }
}

impl CompositeToolbox {
    /// These toolboxes, in order.
    pub fn new(boxes: Vec<Vec<ToolSpec>>) -> (r: Self)
        ensures
            r.deep_view() == (CompositeToolboxView {
                boxes: boxes.deep_view(),
                unavailable: seq![],
            }),
    {
        let r = CompositeToolbox { boxes, unavailable: Vec::new() };
        proof {
            assert(r.unavailable.deep_view() =~= seq![]);
        }
        r
    }

    /// And these servers, absent.
    pub fn with_unavailable(self, unavailable: Vec<McpUnavailable>) -> (r: Self)
        ensures
            r.deep_view() == (CompositeToolboxView {
                boxes: self.deep_view().boxes,
                unavailable: unavailable.deep_view(),
            }),
    {
        CompositeToolbox { boxes: self.boxes, unavailable }
    }

    /// What the model is shown: each name once, with the spec of the box a call
    /// to it goes to.
    pub fn specs(&self) -> (r: Vec<ToolSpec>)
        ensures
            r.deep_view() == first_of_each(flattened(self.deep_view().boxes)),
    {
        let ghost boxes = self.deep_view().boxes;
        let mut all: Vec<ToolSpec> = Vec::new();
        for i in 0..self.boxes.len()
            invariant
                boxes == self.deep_view().boxes,
                all.deep_view() == flattened(boxes.take(i as int)),
        {
            let ghost had = all.deep_view();
            proof {
                assert(boxes[i as int] == self.boxes@[i as int].deep_view());
                assert(boxes.take(i + 1).drop_last() =~= boxes.take(i as int));
            }
            let mut more = self.boxes[i].dup();
            let ghost extra = more.deep_view();
            all.append(&mut more);
            proof {
                assert(all.deep_view() =~= had + extra);
            }
        }
        proof {
            assert(boxes.take(self.boxes.len() as int) =~= boxes);
        }
        first_specs(&all)
    }

    /// Which box a call goes to, or what is said to it.
    pub fn route(&self, name: &str) -> (r: Result<usize, ToolCallError>)
        ensures
            match r {
                Ok(i) => i == box_of(self.deep_view().boxes, name@) && i
                    < self.deep_view().boxes.len(),
                Err(e) => {
                    &&& box_of(self.deep_view().boxes, name@) == self.deep_view().boxes.len()
                    &&& e.deep_view() == ToolCallErrorView::InvalidInput(
                        no_such_tool(self.deep_view().unavailable, name@),
                    )
                },
            },
    {
        let ghost boxes = self.deep_view().boxes;
        proof {
            assert(boxes.skip(0) =~= boxes);
        }
        for i in 0..self.boxes.len()
            invariant
                boxes == self.deep_view().boxes,
                i + box_of(boxes.skip(i as int), name@) == box_of(boxes, name@),
        {
            proof {
                assert(boxes[i as int] == self.boxes@[i as int].deep_view());
                assert(boxes.skip(i as int).drop_first() =~= boxes.skip(i + 1));
            }
            if is_advertised(&self.boxes[i], name) {
                return Ok(i);
            }
        }
        if let Some(server) = mcp_server_of(name) {
            if let Some(missing) = self.absent(server) {
                return Err(ToolCallError::InvalidInput(missing.explain()));
            }
        }
        let mut said = "no tool named '".to_owned();
        said.append(name);
        said.append("'");
        Err(ToolCallError::InvalidInput(said))
    }

    /// Why the server of this name is absent, when it is.
    fn absent(&self, server: &str) -> (r: Option<&McpUnavailable>)
        ensures
            match r {
                Some(u) => absence_of(self.deep_view().unavailable, server@) == Some(u.deep_view()),
                None => absence_of(self.deep_view().unavailable, server@) is None,
            },
    {
        let ghost all = self.deep_view().unavailable;
        let ghost pick = |u: McpUnavailableView|
            if u.server() == server@ {
                Some(u)
            } else {
                None
            };
        proof {
            assert(all.skip(0) =~= all);
        }
        for i in 0..self.unavailable.len()
            invariant
                all == self.deep_view().unavailable,
                pick == (|u: McpUnavailableView|
                    if u.server() == server@ {
                        Some(u)
                    } else {
                        None
                    }),
                lists::find_map(all.skip(i as int), pick) == lists::find_map(all, pick),
        {
            proof {
                assert(all[i as int] == self.unavailable@[i as int].deep_view());
                assert(all.skip(i as int).drop_first() =~= all.skip(i + 1));
            }
            if same(self.unavailable[i].server(), server) {
                return Some(&self.unavailable[i]);
            }
        }
        None
    }
}

/// The specs, without those whose name came before.
fn first_specs(specs: &[ToolSpec]) -> (r: Vec<ToolSpec>)
    ensures
        r.deep_view() == first_of_each(specs.deep_view()),
{
    let ghost all = specs.deep_view();
    let mut out: Vec<ToolSpec> = Vec::new();
    for i in 0..specs.len()
        invariant
            all == specs.deep_view(),
            out.deep_view() == first_of_each(all.take(i as int)),
    {
        let ghost had = out.deep_view();
        proof {
            assert(all[i as int] == specs@[i as int].deep_view());
            assert(all.take(i + 1).drop_last() =~= all.take(i as int));
            lemma_first_of_each_names(all.take(i as int), all[i as int].name);
        }
        if !is_advertised(&out, specs[i].name.as_str()) {
            out.push(specs[i].dup());
            proof {
                assert(out.deep_view() =~= had.push(all[i as int]));
            }
        }
    }
    proof {
        assert(all.take(specs.len() as int) =~= all);
    }
    out
}

/// Dropping repeats drops no name.
proof fn lemma_first_of_each_names(specs: Seq<ToolSpecView>, name: Seq<char>)
    ensures
        advertises(first_of_each(specs), name) == advertises(specs, name),
    decreases specs.len(),
{
    if specs.len() > 0 {
        let rest = specs.drop_last();
        let last = specs.last();
        lemma_first_of_each_names(rest, name);
        lemma_first_of_each_names(rest, last.name);
        let out = first_of_each(specs);
        if advertises(specs, name) {
            let i = choose|i: int| 0 <= i < specs.len() && (#[trigger] specs[i]).name == name;
            if i < rest.len() {
                assert(rest[i].name == name);
                let k = choose|k: int|
                    0 <= k < first_of_each(rest).len() && (#[trigger] first_of_each(rest)[k]).name
                        == name;
                assert(out[k].name == name);
            } else if advertises(rest, last.name) {
                assert(advertises(first_of_each(rest), name));
            } else {
                assert(out[out.len() - 1].name == name);
            }
        }
        if advertises(out, name) {
            let k = choose|k: int| 0 <= k < out.len() && (#[trigger] out[k]).name == name;
            if k < first_of_each(rest).len() {
                assert(first_of_each(rest)[k].name == name);
                let i = choose|i: int| 0 <= i < rest.len() && (#[trigger] rest[i]).name == name;
                assert(specs[i].name == name);
            } else {
                assert(specs[specs.len() - 1].name == name);
            }
        }
    }
}

/// No name is advertised twice: a provider refuses a list that repeats one.
pub proof fn law_no_name_is_advertised_twice(specs: Seq<ToolSpecView>, i: int, j: int)
    requires
        0 <= i < j < first_of_each(specs).len(),
    ensures
        first_of_each(specs)[i].name != first_of_each(specs)[j].name,
    decreases specs.len(),
{
    if specs.len() > 0 {
        let rest = specs.drop_last();
        let out = first_of_each(rest);
        if j < out.len() {
            law_no_name_is_advertised_twice(rest, i, j);
        } else if out[i].name == specs.last().name {
            lemma_first_of_each_names(rest, specs.last().name);
            assert(advertises(out, specs.last().name));
        }
    }
}

/// What is advertised is what can be called: a name is shown exactly when a
/// box takes the call.
pub proof fn law_what_is_advertised_is_routed(boxes: Seq<Seq<ToolSpecView>>, name: Seq<char>)
    ensures
        advertises(first_of_each(flattened(boxes)), name) <==> box_of(boxes, name) < boxes.len(),
        0 <= box_of(boxes, name) <= boxes.len(),
{
    lemma_first_of_each_names(flattened(boxes), name);
    lemma_box_of(boxes, name);
    if box_of(boxes, name) < boxes.len() {
        lemma_flattened_has(boxes, box_of(boxes, name), name);
    }
    if advertises(flattened(boxes), name) {
        let k = lemma_flattened_from(boxes, name);
        assert(advertises(boxes[k], name));
    }
}

/// The box of a name is the first that advertises it.
proof fn lemma_box_of(boxes: Seq<Seq<ToolSpecView>>, name: Seq<char>)
    ensures
        0 <= box_of(boxes, name) <= boxes.len(),
        box_of(boxes, name) < boxes.len() ==> advertises(boxes[box_of(boxes, name)], name),
        forall|k: int|
            0 <= k < box_of(boxes, name) && k < boxes.len() ==> !advertises(
                #[trigger] boxes[k],
                name,
            ),
    decreases boxes.len(),
{
    if boxes.len() > 0 && !advertises(boxes[0], name) {
        let rest = boxes.drop_first();
        lemma_box_of(rest, name);
        assert forall|k: int| 0 <= k < box_of(boxes, name) && k < boxes.len() implies !advertises(
            #[trigger] boxes[k],
            name,
        ) by {
            if k > 0 {
                assert(rest[k - 1] == boxes[k]);
            }
        }
    }
}

/// What a box advertises is among everything advertised.
proof fn lemma_flattened_has(boxes: Seq<Seq<ToolSpecView>>, k: int, name: Seq<char>)
    requires
        0 <= k < boxes.len(),
        advertises(boxes[k], name),
    ensures
        advertises(flattened(boxes), name),
    decreases boxes.len(),
{
    let rest = flattened(boxes.drop_last());
    let all = flattened(boxes);
    if k == boxes.len() - 1 {
        let i = choose|i: int| 0 <= i < boxes[k].len() && (#[trigger] boxes[k][i]).name == name;
        assert(all[rest.len() + i].name == name);
    } else {
        lemma_flattened_has(boxes.drop_last(), k, name);
        let i = choose|i: int| 0 <= i < rest.len() && (#[trigger] rest[i]).name == name;
        assert(all[i].name == name);
    }
}

/// Everything advertised is advertised by some box.
proof fn lemma_flattened_from(boxes: Seq<Seq<ToolSpecView>>, name: Seq<char>) -> (k: int)
    requires
        advertises(flattened(boxes), name),
    ensures
        0 <= k < boxes.len(),
        advertises(boxes[k], name),
    decreases boxes.len(),
{
    let rest = flattened(boxes.drop_last());
    let all = flattened(boxes);
    let i = choose|i: int| 0 <= i < all.len() && (#[trigger] all[i]).name == name;
    if i < rest.len() {
        assert(rest[i].name == name);
        lemma_flattened_from(boxes.drop_last(), name)
    } else {
        assert(boxes.last()[i - rest.len()].name == name);
        boxes.len() - 1
    }
}

/// A plugin cannot capture calls meant for a server the user configured: of two
/// boxes that advertise a name, the earlier takes the call.
pub proof fn law_an_earlier_box_takes_the_call(
    front: Seq<Seq<ToolSpecView>>,
    back: Seq<Seq<ToolSpecView>>,
    name: Seq<char>,
)
    requires
        box_of(front, name) < front.len(),
    ensures
        box_of(front + back, name) == box_of(front, name),
    decreases front.len(),
{
    lemma_box_of(front, name);
    if !advertises(front[0], name) {
        assert((front + back).drop_first() =~= front.drop_first() + back);
        law_an_earlier_box_takes_the_call(front.drop_first(), back, name);
    }
}

/// A tool a plugin's server published.
#[derive(Debug, PartialEq, Eq)]
pub struct PluginMcpTool {
    pub name: String,
    pub description: Option<String>,
    /// The schema, as the JSON text the server published.
    pub input_schema: String,
}

/// What a [`PluginMcpTool`] stands for.
#[verifier::ext_equal]
pub struct PluginMcpToolView {
    pub name: Seq<char>,
    pub description: Option<Seq<char>>,
    pub input_schema: Seq<char>,
}

impl DeepView for PluginMcpTool {
    type V = PluginMcpToolView;

    open spec fn deep_view(&self) -> PluginMcpToolView {
        PluginMcpToolView {
            name: self.name.deep_view(),
            description: self.description.deep_view(),
            input_schema: self.input_schema.deep_view(),
        }
    }
}

impl Dup for PluginMcpTool {
    fn dup(&self) -> (out: Self) {
        PluginMcpTool {
            name: self.name.dup(),
            description: self.description.dup(),
            input_schema: self.input_schema.dup(),
        }
    }
}

impl Clone for PluginMcpTool {
    fn clone(&self) -> (out: Self)
        ensures
            out.deep_view() == self.deep_view(),
    {
        self.dup()
    }
}

/// The schema of a tool whose own cannot be read.
pub const ANY_OBJECT: &'static str = "{\"type\":\"object\"}";

/// A published tool, as a model is shown it.
pub open spec fn plugin_spec(tool: PluginMcpToolView) -> ToolSpecView {
    ToolSpecView {
        name: tool.name,
        description: match tool.description {
            Some(text) => text,
            None => seq![],
        },
        input_schema: published_schema(tool.input_schema, json::is_json(tool.input_schema)),
    }
}

/// The schema a tool is shown with: its own when it can be read.
pub open spec fn published_schema(text: Seq<char>, readable: bool) -> Seq<char> {
    if readable {
        text
    } else {
        ANY_OBJECT@
    }
}

/// The schema a tool is shown with: its own when it can be read, or one that
/// takes any object, so that one unreadable schema does not sink a list.
pub fn schema_or_any(text: &str, readable: bool) -> (r: String)
    ensures
        r@ == published_schema(text@, readable),
{
    if readable {
        text.to_owned()
    } else {
        ANY_OBJECT.to_owned()
    }
}

/// Plugin-declared MCP tools, called through the runtime.
#[derive(Debug, PartialEq, Eq)]
pub struct PluginMcpToolbox {
    tools: Vec<PluginMcpTool>,
}

/// What a [`PluginMcpToolbox`] stands for.
#[verifier::ext_equal]
pub struct PluginMcpToolboxView {
    pub tools: Seq<PluginMcpToolView>,
}

impl DeepView for PluginMcpToolbox {
    type V = PluginMcpToolboxView;

    closed spec fn deep_view(&self) -> PluginMcpToolboxView {
        PluginMcpToolboxView {
            tools: self.tools.deep_view(),
        }
    }
}

impl Dup for PluginMcpToolbox {
    fn dup(&self) -> (out: Self) {
        PluginMcpToolbox {
            tools: self.tools.dup(),
        }
    }
}

impl Clone for PluginMcpToolbox {
    fn clone(&self) -> (out: Self)
        ensures
            out.deep_view() == self.deep_view(),
    {
        self.dup()
    }
}

impl PluginMcpToolbox {
    /// An already-discovered tool list.
    pub fn new(tools: Vec<PluginMcpTool>) -> (r: Self)
        ensures
            r.deep_view().tools == tools.deep_view(),
    {
        PluginMcpToolbox { tools }
    }

    /// What the model is shown.
    pub fn specs(&self) -> (r: Vec<ToolSpec>)
        ensures
            r.deep_view() == self.deep_view().tools.map_values(
                |t: PluginMcpToolView| plugin_spec(t),
            ),
    {
        let ghost want = self.deep_view().tools.map_values(|t: PluginMcpToolView| plugin_spec(t));
        let mut out: Vec<ToolSpec> = Vec::new();
        for i in 0..self.tools.len()
            invariant
                want == self.deep_view().tools.map_values(|t: PluginMcpToolView| plugin_spec(t)),
                want.len() == self.tools.len(),
                out.deep_view() == want.take(i as int),
        {
            let ghost had = out.deep_view();
            let tool = &self.tools[i];
            let spec = ToolSpec {
                name: tool.name.clone(),
                description: match &tool.description {
                    Some(text) => text.clone(),
                    None => String::new(),
                },
                input_schema: schema_or_any(
                    tool.input_schema.as_str(),
                    is_json_text(tool.input_schema.as_str()),
                ),
            };
            proof {
                assert(self.deep_view().tools[i as int] == self.tools@[i as int].deep_view());
                assert(spec.deep_view() == want[i as int]);
            }
            out.push(spec);
            proof {
                assert(out.deep_view() =~= had.push(want[i as int]));
                assert(want.take(i + 1) =~= want.take(i as int).push(want[i as int]));
            }
        }
        proof {
            assert(want.take(self.tools.len() as int) =~= want);
        }
        out
    }

    /// Whether a call may be sent to the runtime. A name the discovery never
    /// gave is refused here.
    pub fn accepts(&self, name: &str) -> (r: Result<(), ToolCallError>)
        ensures
            ({
                let known = exists|i: int|
                    0 <= i < self.deep_view().tools.len() && (#[trigger] self.deep_view().tools[i]).name
                        == name@;
                match r {
                    Ok(()) => known,
                    Err(e) => !known && e.deep_view() == ToolCallErrorView::InvalidInput(
                        "no plugin MCP tool named '"@ + name@ + "'"@,
                    ),
                }
            }),
    {
        for i in 0..self.tools.len()
            invariant
                forall|j: int|
                    0 <= j < i ==> (#[trigger] self.deep_view().tools[j]).name != name@,
        {
            proof {
                assert(self.deep_view().tools[i as int] == self.tools@[i as int].deep_view());
            }
            if same(self.tools[i].name.as_str(), name) {
                return Ok(());
            }
        }
        let mut said = "no plugin MCP tool named '".to_owned();
        said.append(name);
        said.append("'");
        Err(ToolCallError::InvalidInput(said))
    }
}

/// A tool a remote server advertises.
#[derive(Debug, PartialEq, Eq)]
pub struct McpToolDef {
    pub name: String,
    pub description: String,
    pub input_schema: String,
}

/// What a [`McpToolDef`] stands for.
#[verifier::ext_equal]
pub struct McpToolDefView {
    pub name: Seq<char>,
    pub description: Seq<char>,
    pub input_schema: Seq<char>,
}

impl DeepView for McpToolDef {
    type V = McpToolDefView;

    open spec fn deep_view(&self) -> McpToolDefView {
        McpToolDefView {
            name: self.name.deep_view(),
            description: self.description.deep_view(),
            input_schema: self.input_schema.deep_view(),
        }
    }
}

impl Dup for McpToolDef {
    fn dup(&self) -> (out: Self) {
        McpToolDef {
            name: self.name.dup(),
            description: self.description.dup(),
            input_schema: self.input_schema.dup(),
        }
    }
}

impl Clone for McpToolDef {
    fn clone(&self) -> (out: Self)
        ensures
            out.deep_view() == self.deep_view(),
    {
        self.dup()
    }
}

/// What a remote tool came back with.
#[derive(Debug, PartialEq, Eq)]
pub struct McpOutcome {
    pub text: String,
    pub is_error: bool,
}

/// What a [`McpOutcome`] stands for.
#[verifier::ext_equal]
pub struct McpOutcomeView {
    pub text: Seq<char>,
    pub is_error: bool,
}

impl DeepView for McpOutcome {
    type V = McpOutcomeView;

    open spec fn deep_view(&self) -> McpOutcomeView {
        McpOutcomeView {
            text: self.text.deep_view(),
            is_error: self.is_error.deep_view(),
        }
    }
}

impl Dup for McpOutcome {
    fn dup(&self) -> (out: Self) {
        McpOutcome {
            text: self.text.dup(),
            is_error: self.is_error.dup(),
        }
    }
}

impl Clone for McpOutcome {
    fn clone(&self) -> (out: Self)
        ensures
            out.deep_view() == self.deep_view(),
    {
        self.dup()
    }
}

/// What every tool of a server is named behind.
pub open spec fn server_prefix(server: Seq<char>) -> Seq<char> {
    "mcp__"@ + server + "__"@
}

/// A remote tool, as a model is shown it.
pub open spec fn remote_spec(server: Seq<char>, tool: McpToolDefView) -> ToolSpecView {
    ToolSpecView {
        name: server_prefix(server) + tool.name,
        description: tool.description,
        input_schema: tool.input_schema,
    }
}

/// The tools of a remote MCP server, named so that they never collide with the
/// runtime's.
#[derive(Debug, PartialEq, Eq)]
pub struct McpToolbox {
    server: String,
    tools: Vec<McpToolDef>,
}

/// What a [`McpToolbox`] stands for.
#[verifier::ext_equal]
pub struct McpToolboxView {
    pub server: Seq<char>,
    pub tools: Seq<McpToolDefView>,
}

impl DeepView for McpToolbox {
    type V = McpToolboxView;

    closed spec fn deep_view(&self) -> McpToolboxView {
        McpToolboxView {
            server: self.server.deep_view(),
            tools: self.tools.deep_view(),
        }
    }
}

impl Dup for McpToolbox {
    fn dup(&self) -> (out: Self) {
        McpToolbox {
            server: self.server.dup(),
            tools: self.tools.dup(),
        }
    }
}

impl Clone for McpToolbox {
    fn clone(&self) -> (out: Self)
        ensures
            out.deep_view() == self.deep_view(),
    {
        self.dup()
    }
}

impl McpToolbox {
    /// An already-fetched tool list.
    pub fn new(server: String, tools: Vec<McpToolDef>) -> (r: Self)
        ensures
            r.deep_view() == (McpToolboxView { server: server@, tools: tools.deep_view() }),
    {
        McpToolbox { server, tools }
    }

    /// What every tool of this server is named behind.
    fn prefix(&self) -> (r: String)
        ensures
            r@ == server_prefix(self.deep_view().server),
    {
        let mut out = "mcp__".to_owned();
        out.append(self.server.as_str());
        out.append("__");
        out
    }

    /// What the model is shown.
    pub fn specs(&self) -> (r: Vec<ToolSpec>)
        ensures
            r.deep_view() == self.deep_view().tools.map_values(
                |t: McpToolDefView| remote_spec(self.deep_view().server, t),
            ),
    {
        let ghost server = self.deep_view().server;
        let ghost want = self.deep_view().tools.map_values(
            |t: McpToolDefView| remote_spec(server, t),
        );
        let mut out: Vec<ToolSpec> = Vec::new();
        for i in 0..self.tools.len()
            invariant
                server == self.deep_view().server,
                want == self.deep_view().tools.map_values(
                    |t: McpToolDefView| remote_spec(server, t),
                ),
                want.len() == self.tools.len(),
                out.deep_view() == want.take(i as int),
        {
            let ghost had = out.deep_view();
            let tool = &self.tools[i];
            let mut name = self.prefix();
            name.append(tool.name.as_str());
            let spec = ToolSpec {
                name,
                description: tool.description.clone(),
                input_schema: tool.input_schema.clone(),
            };
            proof {
                assert(self.deep_view().tools[i as int] == self.tools@[i as int].deep_view());
                assert(spec.deep_view() == want[i as int]);
            }
            out.push(spec);
            proof {
                assert(out.deep_view() =~= had.push(want[i as int]));
                assert(want.take(i + 1) =~= want.take(i as int).push(want[i as int]));
            }
        }
        proof {
            assert(want.take(self.tools.len() as int) =~= want);
        }
        out
    }

    /// The server's own name for a tool. A name outside this server's
    /// namespace is refused without a call.
    pub fn tool_of<'a>(&self, name: &'a str) -> (r: Result<&'a str, ToolCallError>)
        ensures
            match r {
                Ok(tool) => text::behind(name@, server_prefix(self.deep_view().server)) == Some(tool@),
                Err(e) => {
                    &&& text::behind(name@, server_prefix(self.deep_view().server)) is None
                    &&& e.deep_view() == ToolCallErrorView::InvalidInput(
                        "'"@ + name@ + "' is not a tool of MCP server '"@ + self.deep_view().server
                            + "'"@,
                    )
                },
            },
    {
        match strip_prefix(name, self.prefix().as_str()) {
            Some(tool) => Ok(tool),
            None => {
                let mut said = "'".to_owned();
                said.append(name);
                said.append("' is not a tool of MCP server '");
                said.append(self.server.as_str());
                said.append("'");
                Err(ToolCallError::InvalidInput(said))
            },
        }
    }
}

/// What a remote call gives the run that made it.
pub fn remote_outcome(outcome: Result<McpOutcome, String>) -> (r: Result<Json, ToolCallError>)
    ensures
        match outcome {
            Ok(out) => if out.is_error {
                r matches Err(e) && e.deep_view() == ToolCallErrorView::ExecutionFailed(out.text@)
            } else {
                r matches Ok(value) && value.deep_view() == JsonView::String(out.text@)
            },
            Err(reason) => r matches Err(e) && e.deep_view() == ToolCallErrorView::ExecutionFailed(
                reason@,
            ),
        },
{
    match outcome {
        Ok(out) => if out.is_error {
            Err(ToolCallError::ExecutionFailed(out.text))
        } else {
            Ok(Json::String(out.text))
        },
        Err(reason) => Err(ToolCallError::ExecutionFailed(reason)),
    }
}

/// The name a remote tool is shown under leads back to the server's own name
/// for it.
pub proof fn law_a_remote_name_leads_back(server: Seq<char>, tool: McpToolDefView)
    ensures
        text::behind(remote_spec(server, tool).name, server_prefix(server)) == Some(tool.name),
{
    let name = remote_spec(server, tool).name;
    let prefix = server_prefix(server);
    assert(name.subrange(0, prefix.len() as int) =~= prefix);
    assert(name.skip(prefix.len() as int) =~= tool.name);
}

/// Of the tools that share a name the first is shown, as it is, and no other;
/// a tool whose name nothing before it has is always shown.
pub proof fn law_the_first_of_a_name_is_shown(specs: Seq<ToolSpecView>)
    ensures
        forall|spec: ToolSpecView| #[trigger]
            first_of_each(specs).contains(spec) <==> exists|i: int|
                0 <= i < specs.len() && (#[trigger] specs[i]) == spec && !advertises(
                    specs.take(i),
                    spec.name,
                ),
    decreases specs.len(),
{
    if specs.len() > 0 {
        let rest = specs.drop_last();
        let last = specs.last();
        let n = specs.len() - 1;
        law_the_first_of_a_name_is_shown(rest);
        assert(specs.take(n) =~= rest);
        assert forall|spec: ToolSpecView| #[trigger] first_of_each(specs).contains(spec)
            <==> exists|i: int|
            0 <= i < specs.len() && (#[trigger] specs[i]) == spec && !advertises(
                specs.take(i),
                spec.name,
            ) by {
            let out = first_of_each(specs);
            let had = first_of_each(rest);
            if out.contains(spec) {
                let k = choose|k: int| 0 <= k < out.len() && out[k] == spec;
                if k < had.len() {
                    assert(had[k] == spec);
                    assert(had.contains(spec));
                    let i = choose|i: int|
                        0 <= i < rest.len() && (#[trigger] rest[i]) == spec && !advertises(
                            rest.take(i),
                            spec.name,
                        );
                    assert(rest.take(i) =~= specs.take(i));
                    assert(specs[i] == spec);
                } else {
                    assert(specs[n] == spec);
                }
            }
            if exists|i: int|
                0 <= i < specs.len() && (#[trigger] specs[i]) == spec && !advertises(
                    specs.take(i),
                    spec.name,
                ) {
                let i = choose|i: int|
                    0 <= i < specs.len() && (#[trigger] specs[i]) == spec && !advertises(
                        specs.take(i),
                        spec.name,
                    );
                if i < n {
                    assert(rest.take(i) =~= specs.take(i));
                    assert(rest[i] == spec);
                    assert(had.contains(spec));
                    let k = choose|k: int| 0 <= k < had.len() && had[k] == spec;
                    assert(out[k] == spec);
                } else {
                    assert(out.last() == spec);
                    assert(out[out.len() - 1] == spec);
                }
            }
        }
    }
}

/// What is shown of a list stays in front of what a longer list adds.
pub proof fn law_what_comes_later_is_shown_later(a: Seq<ToolSpecView>, b: Seq<ToolSpecView>)
    ensures
        first_of_each(a).is_prefix_of(first_of_each(a + b)),
    decreases b.len(),
{
    if b.len() == 0 {
        assert(a + b =~= a);
    } else {
        law_what_comes_later_is_shown_later(a, b.drop_last());
        assert((a + b).drop_last() =~= a + b.drop_last());
        let out = first_of_each(a + b);
        assert(out.take(first_of_each(a).len() as int) =~= first_of_each(a));
    }
}

/// Boxes are laid end to end, in their order.
pub proof fn law_boxes_are_laid_end_to_end(
    a: Seq<Seq<ToolSpecView>>,
    b: Seq<Seq<ToolSpecView>>,
    one: Seq<ToolSpecView>,
)
    ensures
        flattened(Seq::empty()) == Seq::<ToolSpecView>::empty(),
        flattened(seq![one]) == one,
        flattened(a + b) == flattened(a) + flattened(b),
    decreases b.len(),
{
    assert(seq![one].drop_last() =~= seq![]);
    assert(flattened(seq![one].drop_last()) + one =~= one);
    if b.len() == 0 {
        assert(a + b =~= a);
        assert(flattened(a) + flattened(b) =~= flattened(a));
    } else {
        law_boxes_are_laid_end_to_end(a, b.drop_last(), one);
        assert((a + b).drop_last() =~= a + b.drop_last());
        assert(flattened(a) + flattened(b) =~= flattened(a) + flattened(b.drop_last()) + b.last());
    }
}

/// A call goes to the first box that advertises its tool, and to none when no
/// box does.
pub proof fn law_a_call_goes_to_the_first_box_that_has_it(
    boxes: Seq<Seq<ToolSpecView>>,
    name: Seq<char>,
    k: int,
)
    requires
        0 <= k <= boxes.len(),
        k < boxes.len() ==> exists|i: int|
            0 <= i < boxes[k].len() && (#[trigger] boxes[k][i]).name == name,
        forall|j: int, i: int|
            0 <= j < k && 0 <= i < boxes[j].len() ==> (#[trigger] boxes[j][i]).name != name,
    ensures
        box_of(boxes, name) == k,
{
    lemma_box_of(boxes, name);
    let p = box_of(boxes, name);
    if p < k {
        assert(advertises(boxes[p], name));
        let i = choose|i: int| 0 <= i < boxes[p].len() && (#[trigger] boxes[p][i]).name == name;
        assert(boxes[p][i].name != name);
    }
    if k < p {
        assert(!advertises(boxes[k], name));
        let i = choose|i: int| 0 <= i < boxes[k].len() && (#[trigger] boxes[k][i]).name == name;
        assert(boxes[k][i].name == name);
    }
}

/// A remote tool is shown under its server's own space and otherwise as the
/// server describes it.
pub proof fn law_a_remote_tool_is_shown_as_described(server: Seq<char>, tool: McpToolDefView)
    ensures
        remote_spec(server, tool).name == "mcp__"@ + server + "__"@ + tool.name,
        remote_spec(server, tool).description == tool.description,
        remote_spec(server, tool).input_schema == tool.input_schema,
{
    assert(("mcp__"@ + server + "__"@) + tool.name =~= "mcp__"@ + server + "__"@ + tool.name);
}

/// A tool's name names its server, whatever the tool is called, as long as the
/// server's own name holds no mark that parts the two.
pub proof fn law_a_tool_name_names_its_server(server: Seq<char>, tool: Seq<char>)
    requires
        forall|i: int|
            0 <= i < server.len() ==> !("__"@.is_prefix_of(#[trigger] (server + "__"@).skip(i))),
    ensures
        server_of("mcp__"@ + server + "__"@ + tool) == Some(server),
{
    reveal_strlit("__");
    reveal_strlit("mcp__");
    let name = "mcp__"@ + server + "__"@ + tool;
    let rest = server + "__"@ + tool;
    assert(name.subrange(0, 5) =~= "mcp__"@);
    assert(name.skip(5) =~= rest);
    assert(rest.skip(server.len() as int).subrange(0, 2) =~= "__"@);
    assert("__"@.is_prefix_of(rest.skip(server.len() as int)));
    assert(crate::text::occurs(rest, "__"@));
    assert forall|i: int| 0 <= i < server.len() implies !("__"@.is_prefix_of(
        #[trigger] rest.skip(i),
    )) by {
        let near = (server + "__"@).skip(i);
        assert(!("__"@.is_prefix_of(near)));
        if "__"@.is_prefix_of(rest.skip(i)) {
            assert(rest.skip(i).subrange(0, 2) =~= near.subrange(0, 2));
        }
    }
    lemma_up_to(rest, "__"@, server.len() as int);
    assert(rest.take(server.len() as int) =~= server);
}

/// What stands before a marker is cut at its first occurrence.
proof fn lemma_up_to(s: Seq<char>, marker: Seq<char>, p: int)
    requires
        0 <= p < s.len(),
        marker.is_prefix_of(s.skip(p)),
        forall|i: int| 0 <= i < p ==> !(marker.is_prefix_of(#[trigger] s.skip(i))),
    ensures
        crate::text::up_to(s, marker) == s.take(p),
    decreases p,
{
    assert(s.skip(0) =~= s);
    if p == 0 {
        assert(s.take(0) =~= seq![]);
    } else {
        assert(!(marker.is_prefix_of(s.skip(0))));
        let rest = s.drop_first();
        assert(rest.skip(p - 1) =~= s.skip(p));
        assert forall|i: int| 0 <= i < p - 1 implies !(marker.is_prefix_of(
            #[trigger] rest.skip(i),
        )) by {
            assert(rest.skip(i) =~= s.skip(i + 1));
        }
        lemma_up_to(rest, marker, p - 1);
        assert(seq![s[0]] + rest.take(p - 1) =~= s.take(p));
    }
}

/// A call for a tool of a server that is absent is told about that server, by
/// what is known of it first; any other unknown call is told there is no such
/// tool.
pub proof fn law_an_unknown_call_is_told_why(
    unavailable: Seq<McpUnavailableView>,
    name: Seq<char>,
    k: int,
)
    ensures
        server_of(name) is None ==> no_such_tool(unavailable, name) == "no tool named '"@ + name
            + "'"@,
        server_of(name) matches Some(server) ==> {
            &&& (forall|i: int|
                0 <= i < unavailable.len() ==> (#[trigger] unavailable[i]).server() != server)
                ==> no_such_tool(unavailable, name) == "no tool named '"@ + name + "'"@
            &&& 0 <= k < unavailable.len() && unavailable[k].server() == server && (forall|i: int|
                0 <= i < k ==> (#[trigger] unavailable[i]).server() != server) ==> no_such_tool(
                unavailable,
                name,
            ) == unavailable[k].explained()
        },
{
    if let Some(server) = server_of(name) {
        let pick = |u: McpUnavailableView|
            if u.server() == server {
                Some(u)
            } else {
                None
            };
        if 0 <= k < unavailable.len() && unavailable[k].server() == server && (forall|i: int|
            0 <= i < k ==> (#[trigger] unavailable[i]).server() != server) {
            assert forall|j: int| 0 <= j < k implies pick(#[trigger] unavailable[j]) is None by {
                assert(unavailable[j].server() != server);
            }
            crate::lists::lemma_found_first(unavailable, pick, k);
        }
        if forall|i: int|
            0 <= i < unavailable.len() ==> (#[trigger] unavailable[i]).server() != server {
            assert forall|j: int| 0 <= j < unavailable.len() implies pick(
                #[trigger] unavailable[j],
            ) is None by {
                assert(unavailable[j].server() != server);
            }
            crate::lists::lemma_none_found(unavailable, pick);
        }
    }
}

/// A server that is absent is explained by its name and by why: it is gone for
/// good, it could not be reached this turn for a reason, or nobody let it in.
pub proof fn law_an_absence_is_explained_by_its_reason(server: Seq<char>, reason: Seq<char>)
    ensures
        ({
            let gone = McpUnavailableView::Gone { server };
            let down = McpUnavailableView::Unreachable { server, reason };
            let shut = McpUnavailableView::NeedsAuth { server };
            &&& gone.server() == server && down.server() == server && shut.server() == server
            &&& ("the MCP server '"@ + server + "' is no longer configured, "@).is_prefix_of(
                gone.explained(),
            )
            &&& ("the MCP server '"@ + server + "' could not be reached this turn ("@ + reason
                + ")"@).is_prefix_of(down.explained())
            &&& ("the MCP server '"@ + server + "' has not been authorised, "@).is_prefix_of(
                shut.explained(),
            )
        }),
{
    reveal_strlit("the MCP server '");
    reveal_strlit("' is no longer configured, ");
    reveal_strlit("' is no longer configured, so its tools are gone.                  Do not call them again; say so and carry on without them.");
    reveal_strlit("' could not be reached this turn (");
    reveal_strlit("), so its                  tools are unavailable. It may recover on a later turn.");
    reveal_strlit(")");
    reveal_strlit("' has not been authorised, ");
    reveal_strlit("' has not been authorised, so its tools are                  unavailable until someone connects it in Settings.");
}

/// A plugin's tool is shown under its own name, as it describes itself, or as
/// nothing when it does not; its schema stands when it can be read, and is any
/// object when it cannot.
pub proof fn law_a_plugins_tool_is_shown_as_it_describes_itself(tool: PluginMcpToolView)
    ensures
        plugin_spec(tool).name == tool.name,
        tool.description matches Some(text) ==> plugin_spec(tool).description == text,
        tool.description is None ==> plugin_spec(tool).description.len() == 0,
        json::is_json(tool.input_schema) ==> plugin_spec(tool).input_schema == tool.input_schema,
        !json::is_json(tool.input_schema) ==> plugin_spec(tool).input_schema
            == "{\"type\":\"object\"}"@,
        published_schema(tool.input_schema, true) == tool.input_schema,
        published_schema(tool.input_schema, false) == "{\"type\":\"object\"}"@,
{
}

} // verus!
