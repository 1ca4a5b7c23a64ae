//! Goal persistence: the record kept for a goal, the names of the files a
//! store keeps per goal, where an agent's goals are kept, and the interface
//! a store offers. Reading and writing the files is the store's own work.

use vstd::prelude::*;

use crate::goal_state::GoalState;
use crate::platform::push_str;
use crate::plan_state::PlanState;
use crate::text::{chars_of, chars_start_with, clone_opt_string, opt_view, push_char, starts_with, str_eq};

verus! {

/// A goal as listed.
#[derive(Debug)]
pub struct GoalRecord {
    pub id: String,
    pub text: String,
    pub status: String,
    pub turns_used: usize,
    pub max_turns: usize,
    pub owner: Option<String>,
}

/// The record a store keeps for a goal.
#[derive(Debug)]
pub struct GoalFile {
    pub goal_id: String,
    pub goal_text: String,
    pub status: String,
    pub max_turns: usize,
    pub turns_used: usize,
    pub owner: Option<String>,
    pub verdict: Option<String>,
    pub reason: Option<String>,
}

/// What a store offers. Each call may fail with a message.
pub trait GoalStore {
    /// Creates the record of a new, active goal.
    fn create_goal(&self, goal_id: &str, goal_text: &str, max_turns: usize, owner: Option<&str>) -> Result<
        (),
        String,
    >;

    /// The goal's text, status, turns used, turn budget and reason, if the
    /// goal exists.
    fn get_goal(&self, goal_id: &str) -> Result<Option<(String, String, usize, usize, Option<String>)>, String>;

    /// The goals, of one status or of all.
    fn list_goals(&self, status: Option<&str>) -> Result<Vec<GoalRecord>, String>;

    /// Sets a goal's status, turns used, verdict and reason.
    fn update_goal(
        &self,
        goal_id: &str,
        status: &str,
        turns_used: usize,
        verdict: Option<&str>,
        reason: Option<&str>,
    ) -> Result<(), String>;

    /// Pauses a goal.
    fn pause_goal(&self, goal_id: &str, reason: &str) -> Result<(), String>;

    /// Resumes a goal.
    fn resume_goal(&self, goal_id: &str, reset_budget: bool) -> Result<(), String>;

    /// Deletes a goal with its plan and state.
    fn delete_goal(&self, goal_id: &str) -> Result<(), String>;

    /// Saves a goal's plan.
    fn save_plan(&self, goal_id: &str, plan: &PlanState) -> Result<(), String>;

    /// Loads a goal's plan; fails when none was saved.
    fn load_plan(&self, goal_id: &str) -> Result<PlanState, String>;

    /// Saves a goal's state.
    fn save_goal_state(&self, goal_id: &str, state: &GoalState) -> Result<(), String>;

    /// Loads a goal's state; fails when none was saved.
    fn load_goal_state(&self, goal_id: &str) -> Result<GoalState, String>;
}

/// The record of a new goal: active, no turn used, no verdict.
pub fn new_goal_file(goal_id: &str, goal_text: &str, max_turns: usize, owner: Option<&str>) -> (g: GoalFile)
    ensures
        g.goal_id@ == goal_id@,
        g.goal_text@ == goal_text@,
        g.status@ == "active"@,
        g.max_turns == max_turns,
        g.turns_used == 0,
        opt_view(g.owner) == match owner {
            Some(o) => Some(o@),
            None => None,
        },
        g.verdict is None,
        g.reason is None,
{
    GoalFile {
        goal_id: goal_id.to_owned(),
        goal_text: goal_text.to_owned(),
        status: "active".to_owned(),
        max_turns,
        turns_used: 0,
        owner: match owner {
            Some(o) => Some(o.to_owned()),
            None => None,
        },
        verdict: None,
        reason: None,
    }
}

/// A goal's text, status, turns used, turn budget and reason.
pub fn goal_summary(g: &GoalFile) -> (r: (String, String, usize, usize, Option<String>))
    ensures
        r.0@ == g.goal_text@,
        r.1@ == g.status@,
        r.2 == g.turns_used,
        r.3 == g.max_turns,
        r.4 == g.reason,
{
    (g.goal_text.clone(), g.status.clone(), g.turns_used, g.max_turns, clone_opt_string(&g.reason))
}

/// The record with a new status, turns used, verdict and reason.
pub fn updated_goal_file(
    g: GoalFile,
    status: &str,
    turns_used: usize,
    verdict: Option<&str>,
    reason: Option<&str>,
) -> (r: GoalFile)
    ensures
        r.goal_id == g.goal_id,
        r.goal_text == g.goal_text,
        r.max_turns == g.max_turns,
        r.owner == g.owner,
        r.status@ == status@,
        r.turns_used == turns_used,
        opt_view(r.verdict) == match verdict {
            Some(v) => Some(v@),
            None => None,
        },
        opt_view(r.reason) == match reason {
            Some(v) => Some(v@),
            None => None,
        },
{
    GoalFile {
        status: status.to_owned(),
        turns_used,
        verdict: match verdict {
            Some(v) => Some(v.to_owned()),
            None => None,
        },
        reason: match reason {
            Some(v) => Some(v.to_owned()),
            None => None,
        },
        ..g
    }
}

/// The listing of a record, when its status is the one asked for (any
/// status when none is asked for).
pub fn record_if_status(g: GoalFile, status: Option<&str>) -> (r: Option<GoalRecord>)
    ensures
        match status {
            Some(s) if g.status@ != s@ => r is None,
            _ => r matches Some(rec) && rec.id == g.goal_id && rec.text == g.goal_text && rec.status == g.status
                && rec.turns_used == g.turns_used && rec.max_turns == g.max_turns && rec.owner == g.owner,
        },
{
    if let Some(s) = status {
        if !str_eq(g.status.as_str(), s) {
            return None;
        }
    }
    Some(
        GoalRecord {
            id: g.goal_id,
            text: g.goal_text,
            status: g.status,
            turns_used: g.turns_used,
            max_turns: g.max_turns,
            owner: g.owner,
        },
    )
}

/// Whether a file name is that of a goal record: `{id}.json`, not a plan
/// (`plan-{id}.json`) or state (`state-{id}.json`) file.
pub open spec fn goal_file_named(name: Seq<char>) -> bool {
    let n = name.len();
    &&& n >= 5 && name.skip(n - 5) == ".json"@
    &&& !starts_with(name.take(n - 5), "plan-"@)
    &&& !starts_with(name.take(n - 5), "state-"@)
}

/// Whether a file name is that of a goal record.
pub fn is_goal_file_name(name: &str) -> (b: bool)
    ensures
        b == goal_file_named(name@),
{
    proof {
        reveal_strlit(".json");
        reveal_strlit("plan-");
        reveal_strlit("state-");
    }
    let v = chars_of(name);
    if v.len() < 5 {
        return false;
    }
    let n = v.len();
    let ext = chars_of(".json");
    if !chars_start_with(v.as_slice(), n - 5, ext.as_slice()) {
        proof {
            assert(v@.skip(n - 5).take(5) =~= v@.skip(n - 5));
        }
        return false;
    }
    proof {
        assert(v@.skip(n - 5).take(5) =~= v@.skip(n - 5));
    }
    let base = crate::text::string_of_range(v.as_slice(), 0, n - 5);
    let bv = chars_of(base.as_str());
    let plan = chars_of("plan-");
    let state = chars_of("state-");
    proof {
        assert(bv@ =~= v@.take(n - 5));
        assert(bv@.skip(0) =~= bv@);
    }
    !chars_start_with(bv.as_slice(), 0, plan.as_slice()) && !chars_start_with(bv.as_slice(), 0, state.as_slice())
}

/// The file of a goal's record: `{id}.json`.
pub fn goal_file_name(goal_id: &str) -> (r: String)
    ensures
        r@ == goal_id@ + ".json"@,
{
    let mut r = goal_id.to_owned();
    push_str(&mut r, ".json");
    r
}

/// The file of a goal's plan: `plan-{id}.json`.
pub fn plan_file_name(goal_id: &str) -> (r: String)
    ensures
        r@ == "plan-"@ + goal_id@ + ".json"@,
{
    let mut r = "plan-".to_owned();
    push_str(&mut r, goal_id);
    push_str(&mut r, ".json");
    r
}

/// The file of a goal's state: `state-{id}.json`.
pub fn state_file_name(goal_id: &str) -> (r: String)
    ensures
        r@ == "state-"@ + goal_id@ + ".json"@,
{
    let mut r = "state-".to_owned();
    push_str(&mut r, goal_id);
    push_str(&mut r, ".json");
    r
}

/// A path joined with a part, as `Path::join` does on Unix: an absolute
/// part replaces the path; otherwise a `/` separates them unless the path
/// is empty or already ends with one.
pub open spec fn path_join(base: Seq<char>, part: Seq<char>) -> Seq<char> {
    if part.len() > 0 && part[0] == '/' {
        part
    } else if base.len() == 0 || base.last() == '/' {
        base + part
    } else {
        base + "/"@ + part
    }
}

/// Joins a path and a part (see `path_join`).
pub fn join_path(base: &str, part: &str) -> (r: String)
    ensures
        r@ == path_join(base@, part@),
{
    let pv = chars_of(part);
    if pv.len() > 0 && pv[0] == '/' {
        return part.to_owned();
    }
    let bv = chars_of(base);
    let mut r = base.to_owned();
    if bv.len() > 0 && bv[bv.len() - 1] != '/' {
        push_char(&mut r, '/');
        proof {
            reveal_strlit("/");
            assert(seq!['/'] =~= "/"@);
        }
    }
    push_str(&mut r, part);
    r
}

/// Where an agent's goals are kept: `.oben-goals` under the home
/// directory (the working directory without one), then the agent's name
/// (`default` when none or empty).
pub open spec fn agent_goal_dir(home: Option<Seq<char>>, agent: Option<Seq<char>>) -> Seq<char> {
    let base = match home {
        Some(h) => path_join(h, ".oben-goals"@),
        None => ".oben-goals"@,
    };
    let name = match agent {
        Some(a) => if a.len() == 0 {
            "default"@
        } else {
            a
        },
        None => "default"@,
    };
    path_join(base, name)
}

/// Where an agent's goals are kept (see `agent_goal_dir`).
pub fn agent_dir(home: Option<&str>, agent_name: Option<&str>) -> (r: String)
    ensures
        r@ == agent_goal_dir(
            match home {
                Some(h) => Some(h@),
                None => None,
            },
            match agent_name {
                Some(a) => Some(a@),
                None => None,
            },
        ),
{
    let base = match home {
        Some(h) => join_path(h, ".oben-goals"),
        None => ".oben-goals".to_owned(),
    };
    let name: &str = match agent_name {
        Some(a) => if a.unicode_len() == 0 {
            "default"
        } else {
            a
        },
        None => "default",
    };
    join_path(base.as_str(), name)
}

} // verus!
