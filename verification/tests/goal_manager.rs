use std::cell::RefCell;
use std::collections::HashMap;

use oben_gateway::goal_manager::{state_from_record, GoalManager, GoalResult};
use oben_gateway::goal_state::{GoalState, GoalStatus};
use oben_gateway::goal_store::{
    agent_dir, goal_file_name, goal_summary, is_goal_file_name, join_path, new_goal_file, plan_file_name,
    record_if_status, state_file_name, updated_goal_file, GoalRecord, GoalStore,
};
use oben_gateway::plan::{NodeStatus, PlanNode};
use oben_gateway::plan_state::PlanState;
use oben_gateway::verdict::JudgeVerdict;

/// A store that keeps goal records in memory; plans are kept as their goal
/// and node titles.
#[derive(Default)]
struct MemStore {
    goals: RefCell<HashMap<String, (String, String, usize, usize, Option<String>)>>,
    plans: RefCell<HashMap<String, Vec<String>>>,
    saved_states: RefCell<usize>,
}

impl GoalStore for MemStore {
    fn create_goal(&self, goal_id: &str, goal_text: &str, max_turns: usize, _owner: Option<&str>) -> Result<(), String> {
        self.goals
            .borrow_mut()
            .insert(goal_id.into(), (goal_text.into(), "active".into(), 0, max_turns, None));
        Ok(())
    }
    fn get_goal(&self, goal_id: &str) -> Result<Option<(String, String, usize, usize, Option<String>)>, String> {
        Ok(self.goals.borrow().get(goal_id).cloned())
    }
    fn list_goals(&self, _status: Option<&str>) -> Result<Vec<GoalRecord>, String> {
        Ok(vec![])
    }
    fn update_goal(&self, goal_id: &str, status: &str, turns_used: usize, _v: Option<&str>, reason: Option<&str>) -> Result<(), String> {
        match self.goals.borrow_mut().get_mut(goal_id) {
            Some(g) => {
                g.1 = status.into();
                g.2 = turns_used;
                g.4 = reason.map(String::from);
                Ok(())
            }
            None => Err("no such goal".into()),
        }
    }
    fn pause_goal(&self, goal_id: &str, _reason: &str) -> Result<(), String> {
        self.update_goal(goal_id, "paused", 0, None, None)
    }
    fn resume_goal(&self, goal_id: &str, _reset: bool) -> Result<(), String> {
        self.update_goal(goal_id, "active", 0, None, None)
    }
    fn delete_goal(&self, goal_id: &str) -> Result<(), String> {
        self.goals.borrow_mut().remove(goal_id);
        self.plans.borrow_mut().remove(goal_id);
        Ok(())
    }
    fn save_plan(&self, goal_id: &str, plan: &PlanState) -> Result<(), String> {
        let mut v = vec![plan.goal.clone()];
        v.extend(plan.nodes.iter().map(|n| n.title.clone()));
        self.plans.borrow_mut().insert(goal_id.into(), v);
        Ok(())
    }
    fn load_plan(&self, goal_id: &str) -> Result<PlanState, String> {
        match self.plans.borrow().get(goal_id) {
            Some(v) => {
                let mut p = PlanState::new(&v[0]);
                for t in &v[1..] {
                    p.add_node(PlanNode::new(t));
                }
                Ok(p)
            }
            None => Err(format!("Plan file not found for goal '{}'", goal_id)),
        }
    }
    fn save_goal_state(&self, _goal_id: &str, _state: &GoalState) -> Result<(), String> {
        *self.saved_states.borrow_mut() += 1;
        Ok(())
    }
    fn load_goal_state(&self, _goal_id: &str) -> Result<GoalState, String> {
        Err("not kept".into())
    }
}

#[test]
fn test_set_goal_starts_active_goal_with_empty_plan() {
    let mut m = GoalManager::new("g1", MemStore::default());
    // No plan was saved, so loading the record fails after it was read.
    assert!(m.set_goal("ship it", Some(4), None).is_err());
    m.store.save_plan("g1", &PlanState::new("ship it")).unwrap();
    let state = m.set_goal("ship it", Some(4), None).unwrap();
    assert_eq!(state.goal, "ship it");
    assert_eq!(state.max_turns, 4);
    assert!(state.is_active());
    let plan = m.plan_state.as_ref().unwrap();
    assert_eq!(plan.goal, "ship it");
    assert!(plan.nodes.is_empty());
    assert!(m.has_goal());
}

#[test]
fn test_load_from_store_reads_record_fields_in_order() {
    let store = MemStore::default();
    store.goals.borrow_mut().insert("g2".into(), ("text".into(), "failed".into(), 3, 9, None));
    store.save_plan("g2", &PlanState::new("text")).unwrap();
    let mut m = GoalManager::new("g2", store);
    m.load_from_store().unwrap();
    let g = m.goal_state.as_ref().unwrap();
    // The record's third field becomes the budget and the fourth the turns used.
    assert_eq!(g.max_turns, 3);
    assert_eq!(g.turns_used, 9);
    assert!(matches!(g.status, GoalStatus::Paused));
    assert_eq!(g.paused_reason, Some("Store status: failed".to_string()));
}

#[test]
fn test_load_from_store_unknown_goal_keeps_state() {
    let mut m = GoalManager::new("nope", MemStore::default());
    assert!(m.load_from_store().is_ok());
    assert!(!m.has_goal());
}

fn manager_with_plan(nodes: &[(&str, NodeStatus)], max_turns: usize) -> GoalManager<MemStore> {
    let store = MemStore::default();
    store.create_goal("g", "goal", max_turns, None).unwrap();
    let mut m = GoalManager::new("g", store);
    let mut g = GoalState::new("goal", Some(max_turns));
    g.status = GoalStatus::Active;
    m.goal_state = Some(g);
    let mut p = PlanState::new("goal");
    for (t, s) in nodes {
        p.add_node(PlanNode::new(t).status(s.clone()));
    }
    m.plan_state = Some(p);
    m
}

#[test]
fn test_evaluate_after_turn_done_when_all_nodes_done() {
    let mut m = manager_with_plan(&[("a", NodeStatus::Done), ("b", NodeStatus::Done)], 10);
    match m.evaluate_after_turn("resp", None).unwrap() {
        Some(GoalResult::Done { reason, message }) => {
            assert_eq!(reason, "All 2 nodes in the plan completed");
            assert_eq!(message, "Goal achieved: All 2 nodes in the plan completed");
        }
        other => panic!("unexpected {:?}", other),
    }
    assert_eq!(m.store.goals.borrow()["g"].1, "done");
}

#[test]
fn test_evaluate_after_turn_budget_exhausted() {
    let mut m = manager_with_plan(&[("a", NodeStatus::Pending)], 1);
    match m.evaluate_after_turn("resp", None).unwrap() {
        Some(GoalResult::Stopped { reason, message }) => {
            assert_eq!(reason, "Goal 'goal' budget exhausted (1 turns)");
            assert_eq!(message, "Goal budget exhausted: 1 turns of 1 max.");
        }
        other => panic!("unexpected {:?}", other),
    }
    assert!(matches!(m.goal_state.as_ref().unwrap().status, GoalStatus::Paused));
}

#[test]
fn test_evaluate_after_turn_continue_and_parse_failures() {
    let mut m = manager_with_plan(&[("a", NodeStatus::Pending)], 10);
    match m.evaluate_after_turn("resp", None).unwrap() {
        Some(GoalResult::Continue { reason, prompt }) => {
            assert_eq!(reason, "Plan still has pending nodes");
            assert_eq!(prompt, "[Continuing toward your standing goal]\nGoal: goal\nContinue working toward this goal.");
        }
        other => panic!("unexpected {:?}", other),
    }
    let bad = || Some(JudgeVerdict::Continue("judge reply is not JSON".into()));
    assert!(matches!(m.evaluate_after_turn("r", bad()).unwrap(), Some(GoalResult::Continue { .. })));
    assert!(matches!(m.evaluate_after_turn("r", bad()).unwrap(), Some(GoalResult::Continue { .. })));
    match m.evaluate_after_turn("r", bad()).unwrap() {
        Some(GoalResult::Stopped { reason, .. }) => assert_eq!(reason, "judge parse failures"),
        other => panic!("unexpected {:?}", other),
    }
}

#[test]
fn test_evaluate_after_turn_inactive_or_without_plan() {
    let mut m = manager_with_plan(&[], 10);
    m.plan_state = None;
    match m.evaluate_after_turn("r", None).unwrap() {
        Some(GoalResult::Continue { reason, prompt }) => {
            assert_eq!(reason, "no plan loaded");
            assert_eq!(prompt, "\nContinue working toward the goal: goal\nTake the next concrete step.");
        }
        other => panic!("unexpected {:?}", other),
    }
    m.goal_state.as_mut().unwrap().pause("later");
    assert!(m.evaluate_after_turn("r", None).unwrap().is_none());
    assert!(!m.has_goal());
}

#[test]
fn test_pause_resume_clear() {
    let mut m = manager_with_plan(&[], 10);
    m.pause_goal("user").unwrap();
    assert!(!m.is_active());
    assert_eq!(m.store.goals.borrow()["g"].1, "paused");
    m.resume_goal(true).unwrap();
    assert!(m.is_active());
    m.clear_goal().unwrap();
    assert!(!m.has_goal());
    assert!(m.store.goals.borrow().get("g").is_none());
}

#[test]
fn test_goal_file_records() {
    let g = new_goal_file("g1", "test goal", 10, Some("session-1"));
    let (text, status, used, max, reason) = goal_summary(&g);
    assert_eq!((text.as_str(), status.as_str(), used, max, reason), ("test goal", "active", 0, 10, None));
    let g = updated_goal_file(g, "paused", 3, Some("judg"), Some("budget"));
    assert_eq!(g.status, "paused");
    assert_eq!(g.turns_used, 3);
    assert_eq!(g.reason, Some("budget".to_string()));
    assert!(record_if_status(updated_goal_file(new_goal_file("a", "t", 1, None), "done", 2, None, None), Some("active")).is_none());
    let rec = record_if_status(new_goal_file("a", "t", 1, None), None).unwrap();
    assert_eq!(rec.text, "t");
}

#[test]
fn test_goal_store_file_names_and_dirs() {
    assert_eq!(goal_file_name("g1"), "g1.json");
    assert_eq!(plan_file_name("g1"), "plan-g1.json");
    assert_eq!(state_file_name("g1"), "state-g1.json");
    assert!(is_goal_file_name("g1.json"));
    assert!(!is_goal_file_name("plan-g1.json"));
    assert!(!is_goal_file_name("state-g1.json"));
    assert!(!is_goal_file_name("notes.txt"));
    assert_eq!(agent_dir(Some("/home/u"), Some("bot")), "/home/u/.oben-goals/bot");
    assert_eq!(agent_dir(None, Some("")), ".oben-goals/default");
    assert_eq!(agent_dir(Some("/home/u/"), None), "/home/u/.oben-goals/default");
    assert_eq!(join_path("/a", "/b"), "/b");
}

#[test]
fn test_state_from_record_statuses() {
    let done = state_from_record("ship it", "done", 12, 4, None);
    assert_eq!(done.status, GoalStatus::Done);
    assert_eq!(done.max_turns, 12);
    assert_eq!(done.turns_used, 4);
    assert_eq!(done.goal, "ship it");
    let failed = state_from_record("g", "failed", 5, 5, None);
    assert_eq!(failed.status, GoalStatus::Paused);
    assert_eq!(failed.paused_reason.as_deref(), Some("Store status: failed"));
    let paused = state_from_record("g", "paused", 5, 1, Some("user asked".to_string()));
    assert_eq!(paused.paused_reason.as_deref(), Some("user asked"));
    let active = state_from_record("g", "active", 5, 0, Some("ignored".to_string()));
    assert_eq!(active.status, GoalStatus::Active);
    assert_eq!(active.paused_reason, None);
}
