use oben_gateway::plan::{NodeStatus, PlanNode};
use oben_gateway::plan_parser::{parse_node_complete, parse_plan_from_markdown};
use oben_gateway::plan_state::PlanState;

#[test]
fn test_plan_node_default_status() {
    let node = PlanNode::new("some task");
    assert!(matches!(node.status, NodeStatus::Pending));
}

#[test]
fn test_plan_node_transition_to_done() {
    let mut node = PlanNode::new("task");
    assert!(matches!(node.status, NodeStatus::Pending));
    node.mark_done("completed successfully");
    assert!(matches!(node.status, NodeStatus::Done));
}

#[test]
fn test_plan_node_transition_to_failed() {
    let mut node = PlanNode::new("task");
    node.mark_failed("something broke");
    assert!(matches!(node.status, NodeStatus::Failed));
}

#[test]
fn test_plan_node_completion_message() {
    let mut node = PlanNode::new("task");
    node.mark_done("created main.rs");
    assert_eq!(node.completion_message, Some("created main.rs".to_string()));
}

#[test]
fn test_plan_node_failure_reason() {
    let mut node = PlanNode::new("task");
    node.mark_failed("file not found");
    assert_eq!(node.failure_reason, Some("file not found".to_string()));
}

#[test]
fn test_plan_node_empty_sub_nodes() {
    let node = PlanNode::new("task");
    assert!(node.sub_nodes.is_empty());
}

#[test]
fn test_plan_node_is_leaf() {
    let node = PlanNode::new("leaf");
    assert!(node.is_leaf());
    let mut parent = PlanNode::new("parent");
    parent.push_sub_node(PlanNode::new("child"));
    assert!(!parent.is_leaf());
}

#[test]
fn test_plan_node_total_count() {
    let mut node = PlanNode::new("root");
    let mut child = PlanNode::new("child");
    child.push_sub_node(PlanNode::new("grandchild"));
    child.push_sub_node(PlanNode::new("grandchild2"));
    node.push_sub_node(child);
    node.push_sub_node(PlanNode::new("sibling"));
    assert_eq!(node.total_count(), 5);
}

#[test]
fn test_plan_node_markdown() {
    let mut node = PlanNode::new("task one").description("Description here");
    node.mark_done("done!");
    let md = node.to_markdown(0);
    assert!(md.contains("task one"));
    assert!(md.contains("Description here"));
    assert!(md.contains("[x]"));
}

#[test]
fn test_plan_node_markdown_indent() {
    let mut parent = PlanNode::new("parent");
    parent.push_sub_node(PlanNode::new("child"));
    let md = parent.to_markdown(0);
    assert!(md.contains("child"));
    assert!(md.contains("  - [ ] **child**"));
}

#[test]
fn node_markdown_exact() {
    let mut parent = PlanNode::new("p").description("d");
    parent.push_sub_node(PlanNode::new("c").status(NodeStatus::InProgress));
    assert_eq!(parent.to_markdown(1), "  - [ ] **p**\n    _d_\n    - [~] **c**");
    assert_eq!(PlanNode::new("x").fail("r").to_markdown(0), "- [!] **x**");
}

#[test]
fn test_plan_state_pending_count() {
    let mut plan = PlanState::new("goal");
    plan.add_node(PlanNode::new("pending 1"));
    plan.add_node(PlanNode::new("pending 2"));
    let mut done = PlanNode::new("done 1");
    done.mark_done("done!");
    plan.add_node(done);
    assert_eq!(plan.pending_count(), 2);
    assert_eq!(plan.done_count(), 1);
    assert_eq!(plan.total_count(), 3);
}

#[test]
fn test_plan_state_done_count() {
    let mut plan = PlanState::new("goal");
    let mut n1 = PlanNode::new("node 1");
    n1.mark_done("done 1");
    let mut n2 = PlanNode::new("node 2");
    n2.mark_done("done 2");
    plan.add_node(n1);
    plan.add_node(n2);
    assert_eq!(plan.done_count(), 2);
}

#[test]
fn test_plan_state_next_pending() {
    let mut plan = PlanState::new("goal");
    let mut done = PlanNode::new("skip me");
    done.mark_done("done!");
    plan.add_node(done);
    plan.add_node(PlanNode::new("do me next"));
    plan.add_node(PlanNode::new("later"));
    assert_eq!(plan.next_pending_node().map(|n| n.title.as_str()), Some("do me next"));
}

#[test]
fn test_plan_state_no_pending_nodes() {
    let mut plan = PlanState::new("goal");
    let mut n = PlanNode::new("only one");
    n.mark_done("done!");
    plan.add_node(n);
    assert!(plan.next_pending_node().is_none());
}

#[test]
fn test_plan_state_mark_in_progress() {
    let mut plan = PlanState::new("goal");
    plan.add_node(PlanNode::new("task"));
    plan.mark_in_progress("task");
    let node = plan.find_node("task").unwrap();
    assert!(matches!(node.status, NodeStatus::InProgress));
}

#[test]
fn test_plan_state_mark_done() {
    let mut plan = PlanState::new("goal");
    plan.add_node(PlanNode::new("task"));
    plan.mark_done("task", "completed successfully");
    let node = plan.find_node("task").unwrap();
    assert!(matches!(node.status, NodeStatus::Done));
    assert_eq!(node.completion_message, Some("completed successfully".to_string()));
}

#[test]
fn test_plan_state_mark_failed() {
    let mut plan = PlanState::new("goal");
    plan.add_node(PlanNode::new("task"));
    plan.mark_failed("task", "something broke");
    let node = plan.find_node("task").unwrap();
    assert!(matches!(node.status, NodeStatus::Failed));
    assert_eq!(node.failure_reason, Some("something broke".to_string()));
}

#[test]
fn test_plan_state_find_node() {
    let mut plan = PlanState::new("goal");
    plan.add_node(PlanNode::new("research"));
    plan.add_node(PlanNode::new("implement"));
    assert!(plan.find_node("research").is_some());
    assert!(plan.find_node("implement").is_some());
    assert!(plan.find_node("nonexistent").is_none());
}

#[test]
fn test_plan_state_markdown_format() {
    let mut plan = PlanState::new("build scraper");
    plan.add_node(PlanNode::new("research"));
    let mut impl_node = PlanNode::new("implement").status(NodeStatus::Done);
    impl_node.mark_done("done");
    plan.add_node(impl_node);
    plan.add_node(PlanNode::new("test"));
    let md = plan.to_markdown();
    assert!(md.contains("build scraper"));
    assert!(md.contains("research"));
    assert!(md.contains("implement"));
    assert!(md.contains("test"));
    assert!(md.contains("[x]"));
    assert!(md.contains("[ ]"));
}

#[test]
fn test_plan_state_markdown_with_sub_nodes() {
    let mut plan = PlanState::new("goal");
    let mut test_node = PlanNode::new("testing").description("QA phase");
    test_node.push_sub_node(PlanNode::new("unit tests"));
    test_node.push_sub_node(PlanNode::new("integration tests"));
    plan.add_node(test_node);
    let md = plan.to_markdown();
    assert!(md.contains("testing"));
    assert!(md.contains("unit tests"));
    assert!(md.contains("integration tests"));
}

#[test]
fn test_plan_state_empty() {
    let plan = PlanState::new("empty goal");
    assert_eq!(plan.total_count(), 0);
    assert_eq!(plan.pending_count(), 0);
    assert!(plan.next_pending_node().is_none());
}

#[test]
fn plan_markdown_exact() {
    let mut plan = PlanState::new("g");
    plan.add_node(PlanNode::new("a"));
    assert_eq!(plan.to_markdown(), "## Plan: **g**\n- [ ] **a**\n");
    let mut plan2 = PlanState::new("g");
    plan2.add_node(PlanNode::new("a"));
    plan2.add_node(PlanNode::new("b"));
    assert_eq!(plan2.to_markdown(), "## Plan: **g**\n- [ ] **a**\n\n- [ ] **b**\n");
}

#[test]
fn marking_uses_first_match_only() {
    let mut plan = PlanState::new("g");
    plan.add_node(PlanNode::new("dup"));
    plan.add_node(PlanNode::new("dup"));
    plan.mark_done("dup", "ok");
    assert!(matches!(plan.nodes[0].status, NodeStatus::Done));
    assert!(matches!(plan.nodes[1].status, NodeStatus::Pending));
    plan.mark_failed("missing", "x");
    assert_eq!(plan.nodes.len(), 2);
}

#[test]
fn test_parse_plan_simple() {
    let input = "## Plan: build a scraper\n- [ ] research existing codebase\n- [ ] implement fetcher\n- [ ] integration test";
    let plan = parse_plan_from_markdown(input).unwrap();
    assert_eq!(plan.goal, "build a scraper");
    assert_eq!(plan.nodes.len(), 3);
    assert_eq!(plan.nodes[0].title, "research existing codebase");
}

#[test]
fn test_parse_plan_with_sub_nodes() {
    let input = "## Plan: build a scraper\n- [ ] research\n- [ ] implement fetcher\n  - [ ] write request handler\n  - [ ] parse HTML\n- [ ] test";
    let plan = parse_plan_from_markdown(input).unwrap();
    assert_eq!(plan.goal, "build a scraper");
    assert_eq!(plan.nodes.len(), 3);
    assert_eq!(plan.nodes[1].sub_nodes.len(), 2);
    assert_eq!(plan.nodes[1].sub_nodes[0].title, "write request handler");
}

#[test]
fn test_parse_plan_with_done_nodes() {
    let input = "## Plan: deploy\n- [x] write code\n- [ ] test\n- [ ] deploy";
    let plan = parse_plan_from_markdown(input).unwrap();
    assert!(matches!(plan.nodes[0].status, NodeStatus::Done));
    assert!(matches!(plan.nodes[1].status, NodeStatus::Pending));
}

#[test]
fn test_parse_plan_with_failed_nodes() {
    let input = "## Plan: deploy\n- [!] build\n- [ ] test";
    let plan = parse_plan_from_markdown(input).unwrap();
    assert!(matches!(plan.nodes[0].status, NodeStatus::Failed));
}

#[test]
fn test_parse_plan_with_bold_titles() {
    let input = "## Plan: test\n- [ ] **research existing codebase**\n- [ ] implement";
    let plan = parse_plan_from_markdown(input).unwrap();
    assert_eq!(plan.nodes[0].title, "research existing codebase");
}

#[test]
fn test_parse_plan_invalid_text() {
    assert!(parse_plan_from_markdown("This is not a plan").is_none());
    assert!(parse_plan_from_markdown("").is_none());
}

#[test]
fn test_parse_plan_deeply_nested() {
    let input = "## Plan: nested\n- [ ] level 0\n  - [ ] level 1\n    - [ ] level 2\n      - [ ] level 3";
    let plan = parse_plan_from_markdown(input).unwrap();
    assert_eq!(plan.nodes.len(), 1);
    assert_eq!(plan.nodes[0].sub_nodes.len(), 1);
    assert_eq!(plan.nodes[0].sub_nodes[0].sub_nodes.len(), 1);
    assert_eq!(plan.nodes[0].sub_nodes[0].sub_nodes[0].sub_nodes.len(), 1);
}

#[test]
fn test_parse_node_complete_success() {
    let msg = "### Node Complete: 'implement fetcher' — Result: Created scraper.rs with fetch_url()";
    let (title, result) = parse_node_complete(msg).unwrap();
    assert_eq!(title, "implement fetcher");
    assert_eq!(result, "Created scraper.rs with fetch_url()");
}

#[test]
fn test_parse_node_complete_with_result_field() {
    let msg = "### Node Complete: 'research' — Result: Found 3 relevant files";
    let (title, result) = parse_node_complete(msg).unwrap();
    assert_eq!(title, "research");
    assert_eq!(result, "Found 3 relevant files");
}

#[test]
fn test_parse_node_complete_failed() {
    let msg = "### Node Failed: 'deploy' — Reason: No SSH access";
    let (title, reason) = parse_node_complete(msg).unwrap();
    assert_eq!(title, "deploy");
    assert_eq!(reason, "No SSH access");
}

#[test]
fn test_parse_node_complete_no_match() {
    assert!(parse_node_complete("The agent is working").is_none());
}

#[test]
fn test_parse_plan_preserves_sub_node_titles() {
    let input = "## Plan: build\n- [ ] core\n  - [ ] parser\n  - [ ] formatter\n- [ ] tests";
    let plan = parse_plan_from_markdown(input).unwrap();
    assert_eq!(plan.nodes.len(), 2);
    assert_eq!(plan.nodes[0].sub_nodes[0].title, "parser");
    assert_eq!(plan.nodes[0].sub_nodes[1].title, "formatter");
}

#[test]
fn test_parse_plan_2space_indent() {
    let input = "## Plan: test\n- [ ] top\n  - [ ] child";
    let plan = parse_plan_from_markdown(input).unwrap();
    assert_eq!(plan.nodes.len(), 1);
    assert_eq!(plan.nodes[0].sub_nodes.len(), 1);
}

#[test]
fn parser_edge_cases() {
    // A goal line without a colon prefix of "##" still counts as "Plan:".
    let plan = parse_plan_from_markdown("intro\r\nPlan:  ship it \r\n- [X] **done thing**\r\n\n- [~] going").unwrap();
    assert_eq!(plan.goal, "ship it");
    assert_eq!(plan.nodes.len(), 2);
    assert_eq!(plan.nodes[0].title, "done thing");
    assert!(matches!(plan.nodes[0].status, NodeStatus::Done));
    assert!(matches!(plan.nodes[1].status, NodeStatus::InProgress));
    // Items deeper than the first level with no parent are dropped.
    let plan = parse_plan_from_markdown("## Plan: x\n    - [ ] orphan\n- [ ] top").unwrap();
    assert_eq!(plan.nodes.len(), 0);
    // Lines that are not checklist items are ignored.
    let plan = parse_plan_from_markdown("## Plan: x\nnotes\n- [ ]\n- [ ] real").unwrap();
    assert_eq!(plan.nodes.len(), 1);
    assert_eq!(plan.nodes[0].title, "real");
}

#[test]
fn node_report_titles_and_fields() {
    let (t, r) = parse_node_complete("### Node Complete: **bold title** result: all good").unwrap();
    assert_eq!(t, "bold title");
    assert_eq!(r, "all good");
    let (t, r) = parse_node_complete("### Node Failed:   plain words reason: it broke").unwrap();
    assert_eq!(t, "plain");
    assert_eq!(r, "it broke");
    assert!(parse_node_complete("### Node Complete: 'x' result:   ").is_none());
    assert!(parse_node_complete("### Node Complete: 'x' nothing here").is_none());
}
