//! The goal judge: the prompt that asks a model whether a goal is complete,
//! and the verdict read off the plan when no model answers.

use vstd::prelude::*;

use crate::plan::{NodeStatus, PlanNode};
use crate::plan_state::{with_status_in, PlanState};
use crate::platform::push_str;
use crate::text::{decimal, push_decimal};
use crate::verdict::{verdict_view, JudgeVerdict, VerdictKind};

verus! {

/// The letter of a status in the judge prompt.
pub open spec fn status_letter(s: NodeStatus) -> Seq<char> {
    match s {
        NodeStatus::Pending => "P"@,
        NodeStatus::InProgress => "I"@,
        NodeStatus::Done => "D"@,
        NodeStatus::Failed => "F"@,
    }
}

/// `- [L] title` for each node, joined by newlines.
pub open spec fn status_lines(s: Seq<PlanNode>) -> Seq<char>
    decreases s.len(),
{
    if s.len() == 0 {
        Seq::empty()
    } else if s.len() == 1 {
        "- ["@ + status_letter(s[0].status) + "] "@ + s[0].title@
    } else {
        status_lines(s.drop_last()) + "\n- ["@ + status_letter(s.last().status) + "] "@
            + s.last().title@
    }
}

/// The start of the judge prompt, before the goal.
pub open spec fn judge_head() -> Seq<char> {
    "You are a goal completion judge. Evaluate whether the agent has completed the following goal.\n\nGOAL: "@
}

/// The judge prompt between the goal and the node lines.
pub open spec fn judge_middle() -> Seq<char> {
    "\n\nCURRENT PLAN STATUS:\n"@
}

/// The end of the judge prompt, after the node lines.
pub open spec fn judge_tail() -> Seq<char> {
    "\n\n\nConsider:\n- All nodes marked [D] (done) are completed\n- Nodes marked [F] (failed) need retry\n- Nodes marked [I] (in progress) are being worked on\n- Nodes marked [P] (pending) have not started\n\n\nRespond with JSON:\n{\"done\": true|false, \"reason\": \"explanation\"}\n\nRespond \"done\": false if:\n- There are pending [P] or in-progress [I] nodes\n- There are failed [F] nodes that need retry\n- The goal's purpose is not clearly achieved\n\nRespond \"done\": true only when ALL nodes are done [D]."@
}

/// The prompt asking whether `goal` is complete given the plan's nodes.
pub open spec fn judge_prompt(goal: Seq<char>, nodes: Seq<PlanNode>) -> Seq<char> {
    judge_head() + goal + judge_middle() + status_lines(nodes) + judge_tail()
}

/// The prompt asking the judge model whether the goal is complete.
pub fn build_judge_prompt(goal: &str, plan: &PlanState) -> (s: String)
    ensures
        s@ == judge_prompt(goal@, plan.nodes@),
{
    let ghost ns = plan.nodes@;
    let mut lines = String::new();
    let mut i: usize = 0;
    while i < plan.nodes.len()
        invariant
            ns == plan.nodes@,
            i <= ns.len(),
            lines@ == status_lines(ns.take(i as int)),
        decreases ns.len() - i,
    {
        if i > 0 {
            push_str(&mut lines, "\n- [");
        } else {
            push_str(&mut lines, "- [");
        }
        match plan.nodes[i].status {
            NodeStatus::Pending => push_str(&mut lines, "P"),
            NodeStatus::InProgress => push_str(&mut lines, "I"),
            NodeStatus::Done => push_str(&mut lines, "D"),
            NodeStatus::Failed => push_str(&mut lines, "F"),
        }
        push_str(&mut lines, "] ");
        push_str(&mut lines, plan.nodes[i].title.as_str());
        proof {
            assert(ns.take(i + 1 as int).drop_last() =~= ns.take(i as int));
            assert(ns.take(i + 1 as int).last() == ns[i as int]);
            if i == 0 {
                assert(ns.take(1)[0] == ns[0]);
                assert(lines@ =~= status_lines(ns.take(1)));
            } else {
                assert(lines@ =~= status_lines(ns.take(i + 1 as int)));
            }
        }
        i = i + 1;
    }
    proof {
        assert(ns.take(ns.len() as int) =~= ns);
    }
    let mut s = "You are a goal completion judge. Evaluate whether the agent has completed the following goal.\n\nGOAL: ".to_owned();
    push_str(&mut s, goal);
    push_str(&mut s, "\n\nCURRENT PLAN STATUS:\n");
    push_str(&mut s, lines.as_str());
    push_str(&mut s, "\n\n\nConsider:\n- All nodes marked [D] (done) are completed\n- Nodes marked [F] (failed) need retry\n- Nodes marked [I] (in progress) are being worked on\n- Nodes marked [P] (pending) have not started\n\n\nRespond with JSON:\n{\"done\": true|false, \"reason\": \"explanation\"}\n\nRespond \"done\": false if:\n- There are pending [P] or in-progress [I] nodes\n- There are failed [F] nodes that need retry\n- The goal's purpose is not clearly achieved\n\nRespond \"done\": true only when ALL nodes are done [D].");
    proof {
        assert(s@ =~= judge_prompt(goal@, ns));
    }
    s
}

/// Whether every node of `s` has status `st`.
pub open spec fn all_with(s: Seq<PlanNode>, st: NodeStatus) -> bool {
    forall|i: int| 0 <= i < s.len() ==> (#[trigger] s[i]).status == st
}

/// The verdict read off the plan: done when every top-level node is done;
/// otherwise continue, naming the failed nodes when there are any. The
/// texts differ by caller: `(all_done_tail, failed_tail)`.
pub open spec fn plan_verdict(
    s: Seq<PlanNode>,
    all_done_tail: Seq<char>,
    failed_tail: Seq<char>,
) -> (VerdictKind, Seq<char>) {
    let failed = with_status_in(s, NodeStatus::Failed).len();
    if all_with(s, NodeStatus::Done) {
        (VerdictKind::Done, "All "@ + decimal(s.len()) + all_done_tail)
    } else if failed > 0 {
        (VerdictKind::Continue, decimal(failed) + failed_tail)
    } else {
        (VerdictKind::Continue, "Plan still has pending nodes"@)
    }
}

/// Number of failed nodes and whether all are done.
fn plan_tally(plan: &PlanState) -> (r: (bool, usize))
    ensures
        r.0 == all_with(plan.nodes@, NodeStatus::Done),
        r.1 == with_status_in(plan.nodes@, NodeStatus::Failed).len(),
{
    let ghost s = plan.nodes@;
    let ghost f = |n: PlanNode| n.status == NodeStatus::Failed;
    let mut all_done = true;
    let mut failed: usize = 0;
    let mut i: usize = 0;
    while i < plan.nodes.len()
        invariant
            s == plan.nodes@,
            i <= s.len(),
            f == (|n: PlanNode| n.status == NodeStatus::Failed),
            failed == s.take(i as int).filter(f).len(),
            failed <= i,
            all_done == (forall|j: int| 0 <= j < i ==> (#[trigger] s[j]).status == NodeStatus::Done),
        decreases s.len() - i,
    {
        proof {
            assert(s.take(i + 1 as int) =~= s.take(i as int).push(s[i as int]));
            s.take(i as int).lemma_filter_push(s[i as int], f);
        }
        if plan.nodes[i].status != NodeStatus::Done {
            all_done = false;
        }
        if plan.nodes[i].status == NodeStatus::Failed {
            failed = failed + 1;
        }
        i = i + 1;
    }
    proof {
        assert(s.take(s.len() as int) =~= s);
    }
    (all_done, failed)
}

/// The verdict read off the plan with the given texts (see `plan_verdict`).
pub fn verdict_from_plan(plan: &PlanState, all_done_tail: &str, failed_tail: &str) -> (v: JudgeVerdict)
    ensures
        verdict_view(v) == plan_verdict(plan.nodes@, all_done_tail@, failed_tail@),
{
    let (all_done, failed) = plan_tally(plan);
    if all_done {
        let mut s = "All ".to_owned();
        push_decimal(&mut s, plan.nodes.len() as u64);
        push_str(&mut s, all_done_tail);
        JudgeVerdict::Done(s)
    } else if failed > 0 {
        let mut s = String::new();
        push_decimal(&mut s, failed as u64);
        push_str(&mut s, failed_tail);
        proof {
            assert(s@ =~= decimal(failed as nat) + failed_tail@);
        }
        JudgeVerdict::Continue(s)
    } else {
        JudgeVerdict::Continue("Plan still has pending nodes".to_owned())
    }
}

/// The verdict used when no judge model answers: done when all top-level
/// nodes are done ("All N nodes in the plan completed"), else continue
/// ("N node(s) failed, need to retry", or "Plan still has pending nodes").
pub fn heuristic_judge_verdict(goal: &str, plan: &PlanState) -> (v: JudgeVerdict)
    ensures
        verdict_view(v) == plan_verdict(
            plan.nodes@,
            " nodes in the plan completed"@,
            " node(s) failed, need to retry"@,
        ),
{
    verdict_from_plan(plan, " nodes in the plan completed", " node(s) failed, need to retry")
}

/// A plan whose nodes are all done is judged done, and one with a failed
/// node is not.
pub proof fn law_heuristic_done_iff_all_done(s: Seq<PlanNode>, a: Seq<char>, b: Seq<char>)
    ensures
        (plan_verdict(s, a, b).0 == VerdictKind::Done) == all_with(s, NodeStatus::Done),
        with_status_in(s, NodeStatus::Failed).len() > 0 ==> plan_verdict(s, a, b).0
            == VerdictKind::Continue,
{
    if all_with(s, NodeStatus::Done) {
        lemma_no_failed_when_all_done(s);
    }
}

/// A plan whose nodes are all done has no failed node.
proof fn lemma_no_failed_when_all_done(s: Seq<PlanNode>)
    requires
        all_with(s, NodeStatus::Done),
    ensures
        with_status_in(s, NodeStatus::Failed).len() == 0,
    decreases s.len(),
{
    reveal(Seq::filter);
    if s.len() > 0 {
        assert forall|i: int| 0 <= i < s.drop_last().len() implies (#[trigger] s.drop_last()[i]).status
            == NodeStatus::Done by {
            assert(s.drop_last()[i] == s[i]);
        }
        lemma_no_failed_when_all_done(s.drop_last());
        assert(s.last() == s[s.len() - 1]);
    }
}

} // verus!
