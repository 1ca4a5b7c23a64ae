//! The goal loop's decisions: which node to work on next, the prompt for
//! it, how a turn's reply updates the plan, and when the loop stops. The
//! caller runs the loop: it sends the prompt, hands back the reply, and
//! saves the state.

use vstd::prelude::*;

use crate::goal_state::{continues, parse_failed, GoalState, GoalStatus, MAX_PARSE_FAILURES};
use crate::judge::{all_with, plan_verdict, verdict_from_plan};
use crate::plan::{forest_count, marked_done, marked_failed, with_status, NodeStatus, PlanNode};
use crate::plan_parser::{
    node_report, parse_node_complete, parse_plan_from_markdown, report_unreadable,
};
use crate::plan_state::{first_titled, none_titled, plan_markdown, PlanState};
use crate::platform::push_str;
use crate::text::{chars_of, chars_start_with, starts_with, str_eq};
use crate::verdict::{verdict_view, JudgeVerdict, VerdictKind};

verus! {

/// Configuration of the goal loop.
#[derive(Debug)]
pub struct GoalLoopConfig {
    /// Turns before the loop pauses.
    pub max_turns: usize,
    /// Text put before each node's instructions.
    pub system_prompt: Option<String>,
    /// Whether the state is saved after each turn.
    pub auto_save: bool,
}

impl Default for GoalLoopConfig {
    fn default() -> (c: Self)
        ensures
            c.max_turns == 20,
            c.system_prompt is None,
            c.auto_save,
    {
        GoalLoopConfig { max_turns: 20, system_prompt: None, auto_save: true }
    }
}

/// What one turn of the loop did.
#[derive(Debug)]
pub struct LoopIteration {
    /// The node worked on.
    pub node_title: Option<String>,
    /// The model's reply.
    pub response: String,
    /// Whether the reply reported the node complete or failed.
    pub node_completed: bool,
    /// Whether the judge says the goal is done.
    pub goal_done: bool,
}

/// The prompt for working on the plan: the extra system prompt on a line
/// of its own (when given), the goal, the plan's checklist, and how to
/// report a node complete or failed.
pub open spec fn system_prompt_text(extra: Option<Seq<char>>, goal: Seq<char>, nodes: Seq<PlanNode>) -> Seq<char> {
    (match extra {
        Some(e) => e + "\n"@,
        None => Seq::empty(),
    }) + "\n\nYou are working on the following goal:\n\n"@ + goal + "\n\nHere is your current plan:\n\n"@
        + plan_markdown(goal, nodes) + "\n\nExecute the next pending node. When you complete it, output:"@
        + "\n### Node Complete: 'node_title' \u{2014} Result: description of what was done"@
        + "\n\nIf you fail, output:"@ + "\n### Node Failed: 'node_title' \u{2014} Reason: why it failed"@
}

/// The prompt for working on the plan (see `system_prompt_text`).
pub fn build_system_prompt(plan: &PlanState, extra_system_prompt: &Option<String>) -> (s: String)
    requires
        forest_count(plan.nodes@) <= usize::MAX,
    ensures
        s@ == system_prompt_text(
            match extra_system_prompt {
                Some(e) => Some(e@),
                None => None,
            },
            plan.goal@,
            plan.nodes@,
        ),
{
    let mut prompt = String::new();
    if let Some(sp) = extra_system_prompt {
        push_str(&mut prompt, sp.as_str());
        push_str(&mut prompt, "\n");
    }
    push_str(&mut prompt, "\n\nYou are working on the following goal:\n\n");
    push_str(&mut prompt, plan.goal.as_str());
    push_str(&mut prompt, "\n\nHere is your current plan:\n\n");
    let md = plan.to_markdown();
    push_str(&mut prompt, md.as_str());
    push_str(&mut prompt, "\n\nExecute the next pending node. When you complete it, output:");
    push_str(&mut prompt, "\n### Node Complete: 'node_title' \u{2014} Result: description of what was done");
    push_str(&mut prompt, "\n\nIf you fail, output:");
    push_str(&mut prompt, "\n### Node Failed: 'node_title' \u{2014} Reason: why it failed");
    proof {
        let e = match extra_system_prompt {
            Some(e) => Some(e@),
            None => None,
        };
        assert(prompt@ =~= system_prompt_text(e, plan.goal@, plan.nodes@));
    }
    prompt
}

/// `new` is `old` after marking the first node titled `t` done with `m`
/// (unchanged when there is none).
pub open spec fn after_mark_done(old: Seq<PlanNode>, new: Seq<PlanNode>, t: Seq<char>, m: Seq<char>) -> bool {
    &&& (none_titled(old, t) ==> new == old)
    &&& forall|i: int|
        first_titled(old, t, i) ==> new == old.update(i, new[i]) && marked_done(old[i], new[i], m)
}

/// `new` is `old` after marking the first node titled `t` failed with `m`
/// (unchanged when there is none).
pub open spec fn after_mark_failed(old: Seq<PlanNode>, new: Seq<PlanNode>, t: Seq<char>, m: Seq<char>) -> bool {
    &&& (none_titled(old, t) ==> new == old)
    &&& forall|i: int|
        first_titled(old, t, i) ==> new == old.update(i, new[i]) && marked_failed(old[i], new[i], m)
}

/// Applies a reply's node report to the plan when it names the node being
/// worked on: a completion marks it done, a failure marks it failed. Tells
/// whether the reply reported on that node.
pub fn parse_node_completion(plan: &mut PlanState, node_title: &str, response: &str) -> (b: bool)
    requires
        !report_unreadable(response@),
    ensures
        final(plan).goal == old(plan).goal,
        match node_report(response@) {
            Some((t, m)) => if t == node_title@ {
                &&& b
                &&& starts_with(response@, "### Node Complete:"@) ==> after_mark_done(
                    old(plan).nodes@,
                    final(plan).nodes@,
                    t,
                    m,
                )
                &&& !starts_with(response@, "### Node Complete:"@) ==> after_mark_failed(
                    old(plan).nodes@,
                    final(plan).nodes@,
                    t,
                    m,
                )
            } else {
                !b && final(plan).nodes@ == old(plan).nodes@
            },
            None => !b && final(plan).nodes@ == old(plan).nodes@,
        },
{
    match parse_node_complete(response) {
        Some((title, message)) => {
            if str_eq(title.as_str(), node_title) {
                let v = chars_of(response);
                let p_done = chars_of("### Node Complete:");
                proof {
                    assert(v@.skip(0) =~= v@);
                    reveal_strlit("### Node Complete:");
                    reveal_strlit("### Node Failed:");
                }
                if chars_start_with(v.as_slice(), 0, p_done.as_slice()) {
                    plan.mark_done(title.as_str(), message.as_str());
                } else {
                    plan.mark_failed(title.as_str(), message.as_str());
                }
                true
            } else {
                false
            }
        },
        None => false,
    }
}

/// The loop's own verdict on the plan: done when all nodes are done ("All
/// N nodes in the plan have been completed"), else continue ("N node(s)
/// failed, need to retry or adapt", or "Plan still has pending nodes").
pub fn call_judge(goal: &str, plan: &PlanState) -> (v: JudgeVerdict)
    ensures
        verdict_view(v) == plan_verdict(
            plan.nodes@,
            " nodes in the plan have been completed"@,
            " node(s) failed, need to retry or adapt"@,
        ),
{
    verdict_from_plan(plan, " nodes in the plan have been completed", " node(s) failed, need to retry or adapt")
}

/// What the loop does next.
#[derive(Debug)]
pub enum LoopStep {
    /// The loop ends.
    Stop,
    /// Send this prompt to work on this node, then report the reply to
    /// `after_turn`.
    Execute { node_title: String, system_prompt: String },
}

/// Whether every node is done or failed.
pub open spec fn all_settled(s: Seq<PlanNode>) -> bool {
    forall|i: int| 0 <= i < s.len() ==> (#[trigger] s[i]).status == NodeStatus::Done || s[i].status == NodeStatus::Failed
}

/// Whether `p` is the position of the first pending node of `s`.
pub open spec fn first_pending(s: Seq<PlanNode>, p: int) -> bool {
    &&& 0 <= p < s.len()
    &&& s[p].status == NodeStatus::Pending
    &&& forall|j: int| 0 <= j < p ==> (#[trigger] s[j]).status != NodeStatus::Pending
}

/// Whether some node of `s` is pending.
pub open spec fn has_pending(s: Seq<PlanNode>) -> bool {
    exists|i: int| 0 <= i < s.len() && (#[trigger] s[i]).status == NodeStatus::Pending
}

/// Decides the loop's next step. A goal that does not continue stops the
/// loop. With a pending node, the first one is marked in progress and its
/// prompt is made. Without one, the loop stops: when every node is settled
/// the judge's verdict is recorded (and a goal that is not done is paused),
/// otherwise the goal is paused.
pub fn next_step(plan: &mut PlanState, state: &mut GoalState, config: &GoalLoopConfig) -> (step: LoopStep)
    requires
        forest_count(old(plan).nodes@) <= usize::MAX,
    ensures
        final(plan).goal == old(plan).goal,
        !continues(*old(state)) ==> step is Stop && final(plan).nodes@ == old(plan).nodes@ && *final(state) == *old(state),
        continues(*old(state)) && has_pending(old(plan).nodes@) ==> step is Execute && *final(state) == *old(state),
        step matches LoopStep::Execute { node_title, system_prompt } ==> {
            &&& exists|p: int| first_pending(old(plan).nodes@, p) && old(plan).nodes@[p].title@ == node_title@
            &&& forall|k: int|
                first_titled(old(plan).nodes@, node_title@, k) ==> final(plan).nodes@ == old(plan).nodes@.update(
                    k,
                    final(plan).nodes@[k],
                ) && with_status(old(plan).nodes@[k], final(plan).nodes@[k], NodeStatus::InProgress)
            &&& system_prompt@ == system_prompt_text(
                match config.system_prompt {
                    Some(e) => Some(e@),
                    None => None,
                },
                final(plan).goal@,
                final(plan).nodes@,
            )
        },
        continues(*old(state)) && !has_pending(old(plan).nodes@) ==> step is Stop && final(plan).nodes@ == old(plan).nodes@
            && (all_settled(old(plan).nodes@) ==> (final(state).status == GoalStatus::Done <==> all_with(
            old(plan).nodes@,
            NodeStatus::Done,
        )) && (!all_with(old(plan).nodes@, NodeStatus::Done) ==> final(state).status == GoalStatus::Paused))
            && (!all_settled(old(plan).nodes@) ==> final(state).status == GoalStatus::Paused),
{
    if !state.should_continue() {
        return LoopStep::Stop;
    }
    let next = match plan.next_pending_node() {
        Some(node) => Some(node.title.clone()),
        None => None,
    };
    proof {
        if next is Some {
            let t = next->0@;
            let p = choose|p: int| 0 <= p < plan.nodes@.len() && plan.nodes@[p].title@ == t && plan.nodes@[p].status == NodeStatus::Pending && forall|j: int| 0 <= j < p ==> (#[trigger] plan.nodes@[j]).status != NodeStatus::Pending;
            lemma_first_title_exists(plan.nodes@, t, p);
            assert(first_pending(plan.nodes@, p) && plan.nodes@[p].title@ == t);
        }
    }
    match next {
        Some(title) => {
            let ghost before = plan.nodes@;
            plan.mark_in_progress(title.as_str());
            proof {
                let k = choose|k: int| 0 <= k < before.len() && before[k].title@ == title@ && (forall|j: int| 0 <= j < k ==> (#[trigger] before[j]).title@ != title@);
                assert(first_titled(before, title@, k));
                assert(plan.nodes@[k].sub_nodes == before[k].sub_nodes);
                crate::plan::lemma_forest_count_update(before, k, plan.nodes@[k]);
            }
            let prompt = build_system_prompt(plan, &config.system_prompt);
            LoopStep::Execute { node_title: title, system_prompt: prompt }
        },
        None => {
            let mut settled = true;
            let mut i: usize = 0;
            while i < plan.nodes.len()
                invariant
                    i <= plan.nodes@.len(),
                    settled == (forall|j: int| 0 <= j < i ==> (#[trigger] plan.nodes@[j]).status == NodeStatus::Done
                        || plan.nodes@[j].status == NodeStatus::Failed),
                decreases plan.nodes@.len() - i,
            {
                if plan.nodes[i].status != NodeStatus::Done && plan.nodes[i].status != NodeStatus::Failed {
                    settled = false;
                }
                i = i + 1;
            }
            if settled {
                let verdict = call_judge(state.goal.as_str(), plan);
                proof {
                    crate::judge::law_heuristic_done_iff_all_done(
                        plan.nodes@,
                        " nodes in the plan have been completed"@,
                        " node(s) failed, need to retry or adapt"@,
                    );
                }
                state.record_verdict(&verdict);
                match verdict {
                    JudgeVerdict::Done(_) => {},
                    _ => {
                        state.pause("no pending nodes and goal not satisfied");
                    },
                }
            } else {
                state.pause("no pending nodes remaining");
            }
            LoopStep::Stop
        },
    }
}

/// When a node has title `t`, some node is the first with it.
proof fn lemma_first_title_exists(s: Seq<PlanNode>, t: Seq<char>, p: int)
    requires
        0 <= p < s.len(),
        s[p].title@ == t,
    ensures
        exists|k: int| 0 <= k < s.len() && s[k].title@ == t && (forall|j: int| 0 <= j < k ==> (#[trigger] s[j]).title@ != t),
    decreases p,
{
    if exists|j: int| 0 <= j < p && (#[trigger] s[j]).title@ == t {
        let j = choose|j: int| 0 <= j < p && (#[trigger] s[j]).title@ == t;
        lemma_first_title_exists(s, t, j);
    } else {
        assert(forall|j: int| 0 <= j < p ==> (#[trigger] s[j]).title@ != t);
    }
}

/// Records a turn's reply: the turn is counted, the reply's report on the
/// node is applied, and the loop's verdict on the plan is recorded.
pub fn after_turn(plan: &mut PlanState, state: &mut GoalState, node_title: &str, response: String) -> (it: LoopIteration)
    requires
        continues(*old(state)),
        !report_unreadable(response@),
    ensures
        final(plan).goal == old(plan).goal,
        final(state).turns_used == old(state).turns_used + 1,
        it.node_title is Some && it.node_title->0@ == node_title@,
        it.response@ == response@,
        it.goal_done == all_with(final(plan).nodes@, NodeStatus::Done),
        it.goal_done == (final(state).status == GoalStatus::Done) || old(state).status != GoalStatus::Active,
        match node_report(response@) {
            Some((t, m)) => it.node_completed == (t == node_title@),
            None => !it.node_completed,
        },
{
    state.record_turn();
    let node_completed = parse_node_completion(plan, node_title, response.as_str());
    let verdict = call_judge(state.goal.as_str(), plan);
    proof {
        crate::judge::law_heuristic_done_iff_all_done(
            plan.nodes@,
            " nodes in the plan have been completed"@,
            " node(s) failed, need to retry or adapt"@,
        );
    }
    state.record_verdict(&verdict);
    let goal_done = match verdict {
        JudgeVerdict::Done(_) => true,
        _ => false,
    };
    LoopIteration {
        node_title: Some(node_title.to_owned()),
        response,
        node_completed,
        goal_done,
    }
}

/// The plan the model's planning reply describes, or why there is none.
pub fn plan_from_response(response: &str) -> (r: Result<PlanState, String>)
    ensures
        match r {
            Ok(p) => parse_plan_from_markdown_spec_some(response@, p),
            Err(e) => e@ == "Failed to parse plan from LLM response"@,
        },
{
    match parse_plan_from_markdown(response) {
        Some(p) => Ok(p),
        None => Err("Failed to parse plan from LLM response".to_owned()),
    }
}

/// `p` is a plan `parse_plan_from_markdown` can give for `text`.
pub open spec fn parse_plan_from_markdown_spec_some(text: Seq<char>, p: PlanState) -> bool {
    exists|g: int|
        crate::plan_parser::first_goal_line(crate::text::lines_of(text), g) && crate::plan_parser::goal_of(
            crate::text::lines_of(text)[g],
        ) == Some(p.goal@) && crate::plan_parser::forest_parsed(
            p.nodes@,
            crate::plan_parser::forest(crate::plan_parser::items_of(crate::text::lines_of(text).skip(g + 1)), 0, 0),
        )
}

} // verus!
