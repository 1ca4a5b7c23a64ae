use oben_gateway::goal_loop::{
    after_turn, build_system_prompt, call_judge, next_step, parse_node_completion, plan_from_response,
    GoalLoopConfig, LoopStep,
};
use oben_gateway::goal_state::{GoalState, GoalStatus};
use oben_gateway::judge::{build_judge_prompt, heuristic_judge_verdict};
use oben_gateway::plan::{NodeStatus, PlanNode};
use oben_gateway::plan_parser::parse_plan_from_markdown;
use oben_gateway::plan_state::PlanState;
use oben_gateway::verdict::{parse_judge_response, parse_judge_response_checked, JudgeVerdict};

// ---- goal state ----

#[test]
fn test_goal_state_new_active() {
    let state = GoalState::new_active("build a scraper");
    assert!(state.is_active());
    assert!(!state.is_done());
    assert_eq!(state.turns_used, 0);
    assert_eq!(state.max_turns, 20);
    assert_eq!(state.goal, "build a scraper");
}

#[test]
fn test_goal_state_custom_max_turns() {
    let state = GoalState::new("goal", Some(5));
    assert_eq!(state.max_turns, 5);
}

#[test]
fn test_goal_state_record_turn() {
    let mut state = GoalState::new_active("goal");
    state.record_turn();
    assert_eq!(state.turns_used, 1);
    assert!(state.last_turn_at.is_some());
}

#[test]
fn test_goal_state_should_continue() {
    let mut state = GoalState::new_active("goal");
    assert!(state.should_continue());
    state.record_turn();
    assert!(state.should_continue());
}

#[test]
fn test_goal_state_budget_exhausted() {
    let mut state = GoalState::new("goal", Some(2));
    state.record_turn();
    state.record_turn();
    assert!(!state.should_continue());
    assert_eq!(state.turns_used, 2);
}

#[test]
fn test_goal_state_parse_judge_done() {
    let mut state = GoalState::new_active("goal");
    state.record_verdict(&JudgeVerdict::Done("All done".to_string()));
    assert!(state.is_done());
    assert_eq!(state.last_verdict, Some("done".to_string()));
    assert_eq!(state.last_reason, Some("All done".to_string()));
}

#[test]
fn test_goal_state_parse_judge_continue() {
    let mut state = GoalState::new_active("goal");
    state.record_verdict(&JudgeVerdict::Continue("Keep going".to_string()));
    assert!(state.is_active());
    assert_eq!(state.last_verdict, Some("continue".to_string()));
}

#[test]
fn test_goal_state_parse_failures_count() {
    let mut state = GoalState::new_active("goal");
    state.record_verdict(&JudgeVerdict::Continue("not JSON".to_string()));
    state.record_verdict(&JudgeVerdict::Continue("not JSON".to_string()));
    assert_eq!(state.consecutive_parse_failures, 2);
    state.record_verdict(&JudgeVerdict::Continue("valid".to_string()));
    assert_eq!(state.consecutive_parse_failures, 0);
}

#[test]
fn test_goal_state_pause() {
    let mut state = GoalState::new_active("goal");
    state.pause("budget exhausted");
    assert!(!state.is_active());
    assert_eq!(state.paused_reason, Some("budget exhausted".to_string()));
}

#[test]
fn test_goal_state_clear() {
    let mut state = GoalState::new_active("goal");
    state.clear();
    assert!(!state.is_active());
}

#[test]
fn test_goal_state_status_line() {
    let state = GoalState::new_active("goal");
    let line = state.status_line();
    assert!(line.contains("active"));
    assert!(line.contains("0/20"));
}

#[test]
fn test_goal_state_status_line_exact() {
    let mut state = GoalState::new("goal", Some(7));
    state.record_turn();
    state.pause("later");
    assert_eq!(state.status_line(), "Goal (paused, 1/7, parse_failures=0)");
}

#[test]
fn test_goal_state_auto_pause_on_3_parse_failures() {
    let mut state = GoalState::new_active("goal");
    state.record_verdict(&JudgeVerdict::Continue("not JSON".to_string()));
    state.record_verdict(&JudgeVerdict::Continue("not JSON".to_string()));
    state.record_verdict(&JudgeVerdict::Continue("not JSON".to_string()));
    assert!(!state.should_continue());
    assert_eq!(state.consecutive_parse_failures, 3);
}

#[test]
fn test_goal_state_empty_reply_counts_as_failure() {
    let mut state = GoalState::new_active("goal");
    state.record_verdict(&JudgeVerdict::Continue("judge returned empty response".to_string()));
    assert_eq!(state.consecutive_parse_failures, 1);
}

#[test]
fn test_goal_state_resume_after_pause() {
    let mut state = GoalState::new("goal", Some(3));
    state.record_turn();
    state.pause("break");
    state.resume(true);
    assert!(state.is_active());
    assert_eq!(state.turns_used, 0);
    assert_eq!(state.paused_reason, None);
}

#[test]
fn test_goal_state_should_continue_false_when_done() {
    let mut state = GoalState::new_active("goal");
    state.record_verdict(&JudgeVerdict::Done("All done".to_string()));
    assert!(!state.should_continue());
    assert!(state.is_done());
}

#[test]
fn test_goal_state_should_continue_false_on_budget() {
    let mut state = GoalState::new("goal", Some(1));
    state.record_turn();
    assert!(!state.should_continue());
}

#[test]
fn test_goal_state_should_continue_false_on_parse_failures() {
    let mut state = GoalState::new_active("goal");
    state.record_verdict(&JudgeVerdict::Continue("not JSON".to_string()));
    state.record_verdict(&JudgeVerdict::Continue("not JSON".to_string()));
    state.record_verdict(&JudgeVerdict::Continue("not JSON".to_string()));
    assert!(!state.should_continue());
}

// ---- judge verdicts ----

#[test]
fn test_parse_judge_done() {
    let response = r#"{"done": true, "reason": "All files created."}"#;
    let verdict = parse_judge_response(response);
    assert!(matches!(verdict, JudgeVerdict::Done(ref r) if r == "All files created."));
}

#[test]
fn test_parse_judge_continue() {
    let response = r#"{"done": false, "reason": "Still need to write tests."}"#;
    let verdict = parse_judge_response(response);
    assert!(matches!(verdict, JudgeVerdict::Continue(ref r) if r == "Still need to write tests."));
}

#[test]
fn test_parse_judge_done_string_true() {
    let response = r#"{"done": "true", "reason": "It works."}"#;
    let verdict = parse_judge_response(response);
    assert!(matches!(verdict, JudgeVerdict::Done(_)));
}

#[test]
fn test_parse_judge_done_string_yes() {
    let response = r#"{"done": "yes", "reason": "Done."}"#;
    let verdict = parse_judge_response(response);
    assert!(matches!(verdict, JudgeVerdict::Done(_)));
}

#[test]
fn test_parse_judge_empty() {
    let response = "";
    let verdict = parse_judge_response(response);
    assert!(matches!(verdict, JudgeVerdict::Continue(ref r) if r.contains("empty")));
}

#[test]
fn test_parse_judge_non_json() {
    let response = "I think the agent is still working on it.";
    let verdict = parse_judge_response(response);
    assert!(matches!(verdict, JudgeVerdict::Continue(_)));
}

#[test]
fn test_parse_judge_with_code_fences() {
    let response = "```json\n{\"done\": true, \"reason\": \"File created.\"}\n```";
    let verdict = parse_judge_response(response);
    assert!(matches!(verdict, JudgeVerdict::Done(ref r) if r == "File created."));
}

#[test]
fn test_parse_judge_no_reason() {
    let response = r#"{"done": true}"#;
    let verdict = parse_judge_response(response);
    assert!(matches!(verdict, JudgeVerdict::Done(ref r) if r == "no reason provided"));
}

#[test]
fn test_parse_judge_null_reason() {
    let response = r#"{"done": true, "reason": null}"#;
    let verdict = parse_judge_response(response);
    assert!(matches!(verdict, JudgeVerdict::Done(ref r) if r == "no reason provided"));
}

#[test]
fn test_parse_judge_done_1() {
    let response = r#"{"done": 1, "reason": "done."}"#;
    let verdict = parse_judge_response(response);
    assert!(matches!(verdict, JudgeVerdict::Continue(_)));
}

#[test]
fn test_parse_judge_object_inside_prose() {
    let response = "Verdict follows: {\"done\": \"YES\", \"reason\": \"shipped\"} thanks";
    let verdict = parse_judge_response(response);
    assert!(matches!(verdict, JudgeVerdict::Done(ref r) if r == "shipped"));
}

#[test]
fn test_parse_judge_non_json_reason_text() {
    let verdict = parse_judge_response("nope");
    match verdict {
        JudgeVerdict::Continue(r) => {
            assert!(r.contains("not JSON"));
            assert!(r.contains("nope"));
        }
        _ => panic!("expected a continue verdict"),
    }
}

#[test]
fn test_parse_judge_checked_agrees() {
    let v = parse_judge_response_checked(r#"{"done": false, "reason": "x"}"#);
    assert!(matches!(v, Some(JudgeVerdict::Continue(ref r)) if r == "x"));
}

#[test]
fn test_build_judge_prompt_contains_goal_and_plan() {
    let mut plan = PlanState::new("Test goal");
    plan.add_node(PlanNode::new("Do step 1"));
    plan.add_node(PlanNode::new("Do step 2"));

    let prompt = build_judge_prompt("Test goal", &plan);

    assert!(prompt.contains("Test goal"));
    assert!(prompt.contains("Do step 1"));
    assert!(prompt.contains("Do step 2"));
    assert!(prompt.contains("{\"done\":"));
    assert!(prompt.contains("\"reason\":"));
}

#[test]
fn test_heuristic_judge_counts_failures() {
    let mut plan = PlanState::new("g");
    let mut a = PlanNode::new("a");
    a.mark_failed("x");
    let mut b = PlanNode::new("b");
    b.mark_failed("y");
    plan.add_node(a);
    plan.add_node(b);
    plan.add_node(PlanNode::new("c"));
    let v = heuristic_judge_verdict("g", &plan);
    assert!(matches!(v, JudgeVerdict::Continue(ref r) if r == "2 node(s) failed, need to retry"));
}

// ---- goal loop ----

#[test]
fn test_build_system_prompt_contains_plan() {
    let mut plan = PlanState::new("build a web scraper");
    plan.add_node(PlanNode::new("research"));
    plan.add_node(PlanNode::new("implement").status(NodeStatus::Done));
    plan.nodes[1].mark_done("done!");

    let prompt = build_system_prompt(&plan, &None);
    assert!(prompt.contains("build a web scraper"));
    assert!(prompt.contains("research"));
    assert!(prompt.contains("[x]"));
}

#[test]
fn test_build_system_prompt_includes_extra() {
    let plan = PlanState::new("test goal");
    let extra = "You are a helpful agent.";
    let prompt = build_system_prompt(&plan, &Some(extra.to_string()));
    assert!(prompt.contains("You are a helpful agent."));
    assert!(prompt.starts_with("You are a helpful agent.\n\n\nYou are working on the following goal:"));
}

#[test]
fn test_parse_node_completion_done() {
    let mut plan = PlanState::new("goal");
    plan.add_node(PlanNode::new("research"));
    plan.mark_in_progress("research");

    let response = "### Node Complete: 'research' — Result: Found 3 relevant files";
    let completed = parse_node_completion(&mut plan, "research", response);
    assert!(completed);
    assert!(matches!(plan.find_node("research").unwrap().status, NodeStatus::Done));
}

#[test]
fn test_parse_node_completion_failed() {
    let mut plan = PlanState::new("goal");
    plan.add_node(PlanNode::new("deploy"));
    plan.mark_in_progress("deploy");

    let response = "### Node Failed: 'deploy' — Reason: No SSH access";
    let completed = parse_node_completion(&mut plan, "deploy", response);
    assert!(completed);
    assert!(matches!(plan.find_node("deploy").unwrap().status, NodeStatus::Failed));
}

#[test]
fn test_parse_node_completion_mismatched_title() {
    let mut plan = PlanState::new("goal");
    plan.add_node(PlanNode::new("node-a"));
    plan.mark_in_progress("node-a");

    let response = "### Node Complete: 'node-b' — Result: done";
    let completed = parse_node_completion(&mut plan, "node-a", response);
    assert!(!completed);
    assert!(matches!(plan.find_node("node-a").unwrap().status, NodeStatus::InProgress));
}

#[test]
fn test_parse_node_completion_no_markers() {
    let mut plan = PlanState::new("goal");
    plan.add_node(PlanNode::new("task"));
    plan.mark_in_progress("task");

    let response = "I worked on the task but didn't complete it.";
    let completed = parse_node_completion(&mut plan, "task", response);
    assert!(!completed);
}

#[test]
fn test_create_plan_from_goal_parses_markdown() {
    let response = "## Plan: build a scraper\n- [ ] research existing codebase\n- [ ] implement fetcher\n  - [ ] write request handler\n- [ ] integration test";
    let plan = parse_plan_from_markdown(response).unwrap();
    assert_eq!(plan.goal, "build a scraper");
    assert_eq!(plan.nodes.len(), 3);
    assert_eq!(plan.nodes[1].sub_nodes.len(), 1);
}

#[test]
fn test_plan_from_response_error() {
    let r = plan_from_response("no plan here");
    assert_eq!(r.err(), Some("Failed to parse plan from LLM response".to_string()));
}

#[test]
fn test_plan_with_all_done_nodes_is_marked_done() {
    let mut plan = PlanState::new("deploy app");
    let mut n1 = PlanNode::new("build");
    n1.mark_done("built successfully");
    let mut n2 = PlanNode::new("test");
    n2.mark_done("tests passed");
    plan.add_node(n1);
    plan.add_node(n2);

    let verdict = call_judge("deploy app", &plan);
    assert!(matches!(verdict, JudgeVerdict::Done(_)));
}

#[test]
fn test_call_judge_done_reason_text() {
    let mut plan = PlanState::new("g");
    let mut n1 = PlanNode::new("build");
    n1.mark_done("ok");
    plan.add_node(n1);
    let verdict = call_judge("g", &plan);
    assert!(matches!(verdict, JudgeVerdict::Done(ref r) if r == "All 1 nodes in the plan have been completed"));
}

#[test]
fn test_plan_with_failed_nodes_gets_continue_verdict() {
    let mut plan = PlanState::new("deploy app");
    let mut n1 = PlanNode::new("build");
    n1.mark_done("built");
    let mut n2 = PlanNode::new("test");
    n2.mark_failed("tests failed");
    plan.add_node(n1);
    plan.add_node(n2);

    let verdict = call_judge("deploy app", &plan);
    assert!(matches!(verdict, JudgeVerdict::Continue(ref r) if r == "1 node(s) failed, need to retry or adapt"));
}

#[test]
fn test_plan_with_pending_nodes_gets_continue_verdict() {
    let mut plan = PlanState::new("deploy app");
    let mut n1 = PlanNode::new("build");
    n1.mark_done("built");
    plan.add_node(n1);
    plan.add_node(PlanNode::new("test"));

    let verdict = call_judge("deploy app", &plan);
    assert!(matches!(verdict, JudgeVerdict::Continue(ref r) if r == "Plan still has pending nodes"));
}

#[test]
fn test_next_step_marks_first_pending_in_progress() {
    let mut plan = PlanState::new("g");
    let mut n1 = PlanNode::new("a");
    n1.mark_done("ok");
    plan.add_node(n1);
    plan.add_node(PlanNode::new("b"));
    plan.add_node(PlanNode::new("c"));
    let mut state = GoalState::new_active("g");
    let config = GoalLoopConfig::default();
    match next_step(&mut plan, &mut state, &config) {
        LoopStep::Execute { node_title, system_prompt } => {
            assert_eq!(node_title, "b");
            assert!(system_prompt.contains("- [~] **b**"));
        }
        LoopStep::Stop => panic!("expected a node to execute"),
    }
    assert!(matches!(plan.nodes[1].status, NodeStatus::InProgress));
    assert!(matches!(plan.nodes[2].status, NodeStatus::Pending));
}

#[test]
fn test_next_step_stops_and_finishes_when_all_done() {
    let mut plan = PlanState::new("g");
    let mut n1 = PlanNode::new("a");
    n1.mark_done("ok");
    plan.add_node(n1);
    let mut state = GoalState::new_active("g");
    let step = next_step(&mut plan, &mut state, &GoalLoopConfig::default());
    assert!(matches!(step, LoopStep::Stop));
    assert!(matches!(state.status, GoalStatus::Done));
}

#[test]
fn test_next_step_pauses_when_a_node_failed() {
    let mut plan = PlanState::new("g");
    let mut n1 = PlanNode::new("a");
    n1.mark_failed("no");
    plan.add_node(n1);
    let mut state = GoalState::new_active("g");
    let step = next_step(&mut plan, &mut state, &GoalLoopConfig::default());
    assert!(matches!(step, LoopStep::Stop));
    assert!(matches!(state.status, GoalStatus::Paused));
    assert_eq!(state.paused_reason, Some("no pending nodes and goal not satisfied".to_string()));
}

#[test]
fn test_next_step_stops_when_budget_spent() {
    let mut plan = PlanState::new("g");
    plan.add_node(PlanNode::new("a"));
    let mut state = GoalState::new("g", Some(0));
    let step = next_step(&mut plan, &mut state, &GoalLoopConfig::default());
    assert!(matches!(step, LoopStep::Stop));
    assert!(matches!(plan.nodes[0].status, NodeStatus::Pending));
}

#[test]
fn test_after_turn_completes_goal() {
    let mut plan = PlanState::new("g");
    plan.add_node(PlanNode::new("a"));
    let mut state = GoalState::new_active("g");
    let _ = next_step(&mut plan, &mut state, &GoalLoopConfig::default());
    let it = after_turn(
        &mut plan,
        &mut state,
        "a",
        "### Node Complete: 'a' — Result: done it".to_string(),
    );
    assert!(it.node_completed);
    assert!(it.goal_done);
    assert_eq!(it.node_title, Some("a".to_string()));
    assert_eq!(state.turns_used, 1);
    assert!(state.is_done());
}
