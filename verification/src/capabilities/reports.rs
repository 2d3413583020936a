//! What a child's report looks like to the agent that asked for the child.

use crate::ids::{self, RunnerId};
use crate::model::{SubAgentResultPart, SubAgentResultPartView};
use vstd::prelude::*;

verus! {

/// A worker's report, in the shape the queue takes. It carries no times: they
/// are on the session's own record of the child.
pub open spec fn report_part(
    child: RunnerId,
    label: Seq<char>,
    status: Seq<char>,
    text: Seq<char>,
) -> SubAgentResultPartView {
    SubAgentResultPartView {
        subagent_id: ids::hyphenated(child.0),
        label,
        status,
        text,
        spawned_at_ms: 0,
        ended_at_ms: 0,
    }
}

/// A child's report, in the shape the queue takes.
pub fn report(child: RunnerId, label: String, status: &str, text: String) -> (r: SubAgentResultPart)
    ensures
        r.deep_view() == report_part(child, label@, status@, text@),
{
    SubAgentResultPart {
        subagent_id: child.text(),
        label,
        status: status.to_owned(),
        text,
        spawned_at_ms: 0,
        ended_at_ms: 0,
    }
}

/// A line for each of these runners.
pub open spec fn listed(runners: Seq<RunnerId>) -> Seq<char>
    decreases runners.len(),
{
    if runners.len() == 0 {
        seq![]
    } else {
        listed(runners.drop_last()) + ("\n- "@ + ids::hyphenated(runners.last().0))
    }
}

/// A line for each of these runners.
pub fn list_runners(runners: &[RunnerId]) -> (r: String)
    ensures
        r@ == listed(runners@),
{
    let mut out = String::new();
    proof {
        assert(out@ =~= seq![]);
    }
    for i in 0..runners.len()
        invariant
            out@ == listed(runners@.take(i as int)),
    {
        let mut line = "\n- ".to_owned();
        line.append(runners[i].text().as_str());
        out.append(line.as_str());
        proof {
            assert(runners@.take(i + 1).drop_last() =~= runners@.take(i as int));
        }
    }
    proof {
        assert(runners@.take(runners.len() as int) =~= runners@);
    }
    out
}

/// A report names its child by its id and says how it ended and what it said;
/// a list of children has a line for each, in order.
pub proof fn law_a_report_says_how_its_child_ended(
    child: RunnerId,
    label: Seq<char>,
    status: Seq<char>,
    text: Seq<char>,
    runners: Seq<RunnerId>,
)
    ensures
        report_part(child, label, status, text).subagent_id == ids::hyphenated(child.0),
        report_part(child, label, status, text).label == label,
        report_part(child, label, status, text).status == status,
        report_part(child, label, status, text).text == text,
        report_part(child, label, status, text).spawned_at_ms == 0,
        report_part(child, label, status, text).ended_at_ms == 0,
        listed(Seq::empty()) == Seq::<char>::empty(),
        listed(runners.push(child)) == listed(runners) + ("\n- "@ + ids::hyphenated(child.0)),
{
    assert(runners.push(child).drop_last() =~= runners);
}

} // verus!
