//! The goal manager: the life of one goal (start, pause, resume, clear,
//! reload) and what happens after each turn of the agent, with the goal's
//! records kept in a `GoalStore`.

use vstd::prelude::*;

use crate::clock::timestamp_now;
use crate::goal_state::{status_text, GoalState, GoalStatus, DEFAULT_MAX_TURNS, MAX_PARSE_FAILURES};
use crate::goal_store::GoalStore;
use crate::judge::heuristic_judge_verdict;
use crate::platform::push_str;
use crate::plan_state::PlanState;
use crate::text::{decimal, opt_view, push_decimal, str_eq};
use crate::verdict::JudgeVerdict;

verus! {

/// What evaluating a goal after a turn concludes.
#[derive(Debug)]
pub enum GoalResult {
    Done { reason: String, message: String },
    Continue { reason: String, prompt: String },
    Stopped { reason: String, message: String },
}

/// The prompt that sends the agent on toward a goal without a plan or
/// after a skipped verdict.
pub open spec fn next_step_prompt(goal: Seq<char>) -> Seq<char> {
    "\nContinue working toward the goal: "@ + goal + "\nTake the next concrete step."@
}

/// The prompt after a "continue" verdict.
pub open spec fn standing_goal_prompt(goal: Seq<char>) -> Seq<char> {
    "[Continuing toward your standing goal]\nGoal: "@ + goal + "\nContinue working toward this goal."@
}

/// The status word a store keeps for a goal status.
pub open spec fn status_word_of(s: GoalStatus) -> Seq<char> {
    match s {
        GoalStatus::Active => "active"@,
        GoalStatus::Done => "done"@,
        GoalStatus::Paused => "paused"@,
        GoalStatus::Cleared => "cleared"@,
    }
}

/// The goal state rebuilt from a store's record: the budget is the
/// record's third number and the turns used its fourth, as the record
/// fields are read in that order; `done` is done, `paused` and `failed`
/// are paused (with the record's reason, else `Store status: {status}`),
/// anything else is active.
pub open spec fn rebuilt(
    g: GoalState,
    text: Seq<char>,
    status: Seq<char>,
    third: usize,
    fourth: usize,
    reason: Option<Seq<char>>,
) -> bool {
    &&& g.goal@ == text
    &&& g.max_turns == third
    &&& g.turns_used == fourth
    &&& g.last_verdict is None
    &&& g.last_reason is None
    &&& g.consecutive_parse_failures == 0
    &&& if status == "done"@ {
        g.status == GoalStatus::Done && g.paused_reason is None
    } else if status == "paused"@ || status == "failed"@ {
        g.status == GoalStatus::Paused && opt_view(g.paused_reason) == Some(
            match reason {
                Some(r) => r,
                None => "Store status: "@ + status,
            },
        )
    } else {
        g.status == GoalStatus::Active && g.paused_reason is None
    }
}

/// Whether a goal is loaded and active.
pub open spec fn is_active_goal(g: Option<GoalState>) -> bool {
    g matches Some(s) && s.status == GoalStatus::Active
}

/// `r` sends the agent on with this reason and prompt.
pub open spec fn is_continue(r: Result<Option<GoalResult>, String>, reason: Seq<char>, prompt: Seq<char>) -> bool {
    match r {
        Ok(Some(GoalResult::Continue { reason: a, prompt: b })) => a@ == reason && b@ == prompt,
        _ => false,
    }
}

/// `r` stops the goal with this reason and message.
pub open spec fn is_stopped(r: Result<Option<GoalResult>, String>, reason: Seq<char>, message: Seq<char>) -> bool {
    match r {
        Ok(Some(GoalResult::Stopped { reason: a, message: b })) => a@ == reason && b@ == message,
        _ => false,
    }
}

/// `r` reports the goal achieved for this reason.
pub open spec fn is_done(r: Result<Option<GoalResult>, String>, reason: Seq<char>) -> bool {
    match r {
        Ok(Some(GoalResult::Done { reason: a, message: b })) => a@ == reason && b@ == "Goal achieved: "@ + reason,
        _ => false,
    }
}

/// The verdict a turn is judged by: the one given, else the heuristic one.
pub open spec fn judged_by(given: Option<JudgeVerdict>, heuristic: JudgeVerdict) -> JudgeVerdict {
    match given {
        Some(v) => v,
        None => heuristic,
    }
}

/// What evaluating a turn of an active goal `g` with plan `p` does (see
/// `GoalManager::evaluate_after_turn`); `gs` and `ps` are what stays loaded.
pub open spec fn turn_outcome(
    g: GoalState,
    p: PlanState,
    given: Option<JudgeVerdict>,
    r: Result<Option<GoalResult>, String>,
    gs: Option<GoalState>,
    ps: Option<PlanState>,
) -> bool {
    let turns = g.turns_used + 1;
    &&& r is Err ==> gs is None && ps is None
    &&& r is Ok ==> ps == Some(p) && (gs matches Some(h) && h.turns_used == turns && h.goal == g.goal
        && h.max_turns == g.max_turns)
    &&& turns >= g.max_turns && r is Ok ==> (gs matches Some(h) && h.status == GoalStatus::Paused && is_stopped(
        r,
        "Goal '"@ + g.goal@ + "' budget exhausted ("@ + decimal(turns as nat) + " turns)"@,
        "Goal budget exhausted: "@ + decimal(turns as nat) + " turns of "@ + decimal(g.max_turns as nat)
            + " max."@,
    ))
    &&& turns < g.max_turns && r is Ok ==> exists|h: JudgeVerdict|
        {
            let v = #[trigger] judged_by(given, h);
            let fails = if crate::goal_state::parse_failed(v) {
                g.consecutive_parse_failures + 1
            } else {
                0
            };
            &&& given is None ==> crate::verdict::verdict_view(h) == crate::judge::plan_verdict(
                p.nodes@,
                " nodes in the plan completed"@,
                " node(s) failed, need to retry"@,
            )
            &&& gs matches Some(st) && st.consecutive_parse_failures == fails
            &&& fails >= MAX_PARSE_FAILURES ==> (gs matches Some(st) && st.status == GoalStatus::Paused && is_stopped(
                r,
                "judge parse failures"@,
                "Judge model returning unusable output. Goal paused."@,
            ))
            &&& fails < MAX_PARSE_FAILURES ==> match v {
                JudgeVerdict::Done(reason) => is_done(r, reason@),
                JudgeVerdict::Continue(reason) => is_continue(r, reason@, standing_goal_prompt(g.goal@)),
                JudgeVerdict::Skipped(reason) => is_continue(r, reason@, next_step_prompt(g.goal@)),
            }
        }
}

/// Manages one goal by its id.
pub struct GoalManager<S: GoalStore> {
    pub goal_id: String,
    pub goal_state: Option<GoalState>,
    pub plan_state: Option<PlanState>,
    pub store: S,
}

/// The goal state that a store record gives (see `rebuilt`): the text, the
/// status, the third field as the turn budget and the fourth as the turns
/// used, and the reason.
pub fn state_from_record(
    goal_text: &str,
    goal_status: &str,
    third: usize,
    fourth: usize,
    reason: Option<String>,
) -> (g: GoalState)
    ensures
        rebuilt(g, goal_text@, goal_status@, third, fourth, opt_view(reason)),
{
    let mut state = GoalState::new(goal_text, Some(third));
    state.turns_used = fourth;
    proof {
        reveal_strlit("done");
        reveal_strlit("paused");
        reveal_strlit("failed");
    }
    if str_eq(goal_status, "done") {
        state.status = GoalStatus::Done;
    } else if str_eq(goal_status, "paused") || str_eq(goal_status, "failed") {
        state.status = GoalStatus::Paused;
        state.paused_reason = match reason {
            Some(p) => Some(p),
            None => {
                let mut t = "Store status: ".to_owned();
                push_str(&mut t, goal_status);
                Some(t)
            },
        };
    } else {
        state.status = GoalStatus::Active;
    }
    state
}

impl<S: GoalStore> GoalManager<S> {
    /// A manager for a goal id, with nothing loaded.
    pub fn new(goal_id: &str, store: S) -> (m: Self)
        ensures
            m.goal_id@ == goal_id@,
            m.goal_state is None,
            m.plan_state is None,
    {
        GoalManager { goal_id: goal_id.to_owned(), goal_state: None, plan_state: None, store }
    }

    /// The goal id.
    pub fn goal_id(&self) -> (r: String)
        ensures
            r@ == self.goal_id@,
    {
        self.goal_id.clone()
    }

    /// Whether a goal is loaded.
    pub fn has_goal(&self) -> (b: bool)
        ensures
            b == self.goal_state is Some,
    {
        self.goal_state.is_some()
    }

    /// Whether the loaded goal is active.
    pub fn is_active(&self) -> (b: bool)
        ensures
            b == (self.goal_state matches Some(g) && g.status == GoalStatus::Active),
    {
        match &self.goal_state {
            Some(g) => g.is_active(),
            None => false,
        }
    }

    /// The loaded goal's text.
    pub fn goal_text(&self) -> (r: Option<String>)
        ensures
            opt_view(r) == match self.goal_state {
                Some(g) => Some(g.goal@),
                None => None,
            },
    {
        match &self.goal_state {
            Some(g) => Some(g.goal.clone()),
            None => None,
        }
    }

    /// The loaded goal's status line.
    pub fn status_line(&self) -> (r: Option<String>)
        ensures
            opt_view(r) == match self.goal_state {
                Some(g) => Some(status_text(g)),
                None => None,
            },
    {
        match &self.goal_state {
            Some(g) => Some(g.status_line()),
            None => None,
        }
    }

    /// Starts a goal (with a budget of 20 turns unless given): the store
    /// creates its record, the record is loaded, a plan with no nodes is
    /// started, and the new goal's state is saved and returned. A failure of
    /// the store is returned as it came.
    pub fn set_goal(&mut self, goal: &str, max_turns: Option<usize>, owner: Option<&str>) -> (r: Result<
        GoalState,
        String,
    >)
        ensures
            final(self).goal_id == old(self).goal_id,
            r matches Ok(g) ==> g.goal@ == goal@ && g.status == GoalStatus::Active && g.turns_used == 0
                && g.max_turns == (match max_turns {
                Some(m) => m,
                None => DEFAULT_MAX_TURNS,
            }) && g.last_turn_at is None && g.last_verdict is None && g.last_reason is None
                && g.paused_reason is None && g.consecutive_parse_failures == 0 && (final(self).plan_state matches Some(p) && p.goal@ == goal@ && p.nodes@.len() == 0),
    {
        let max = match max_turns {
            Some(m) => m,
            None => DEFAULT_MAX_TURNS,
        };
        let id = self.goal_id();
        self.store.create_goal(id.as_str(), goal, max, owner)?;
        self.load_from_store()?;
        self.plan_state = Some(PlanState::new(goal));
        let state = GoalState {
            goal: goal.to_owned(),
            status: GoalStatus::Active,
            turns_used: 0,
            max_turns: max,
            created_at: timestamp_now(),
            last_turn_at: None,
            last_verdict: None,
            last_reason: None,
            paused_reason: None,
            consecutive_parse_failures: 0,
        };
        self.store.save_goal_state(id.as_str(), &state)?;
        Ok(state)
    }

    /// Pauses the goal: the store first, then the loaded state.
    pub fn pause_goal(&mut self, reason: &str) -> (r: Result<(), String>)
        ensures
            final(self).goal_id == old(self).goal_id,
            final(self).plan_state == old(self).plan_state,
            r is Err ==> final(self).goal_state == old(self).goal_state,
            r is Ok ==> match old(self).goal_state {
                None => final(self).goal_state is None,
                Some(g) => final(self).goal_state matches Some(h) && h.status == GoalStatus::Paused && opt_view(
                    h.paused_reason,
                ) == Some(reason@) && h.goal == g.goal && h.turns_used == g.turns_used && h.max_turns
                    == g.max_turns,
            },
    {
        let id = self.goal_id();
        self.store.pause_goal(id.as_str(), reason)?;
        if let Some(g) = &mut self.goal_state {
            g.pause(reason);
        }
        Ok(())
    }

    /// Resumes the goal: the store first, then the loaded state (its turns
    /// start again when `reset_budget`).
    pub fn resume_goal(&mut self, reset_budget: bool) -> (r: Result<(), String>)
        ensures
            final(self).goal_id == old(self).goal_id,
            final(self).plan_state == old(self).plan_state,
            r is Err ==> final(self).goal_state == old(self).goal_state,
            r is Ok ==> match old(self).goal_state {
                None => final(self).goal_state is None,
                Some(g) => final(self).goal_state matches Some(h) && h.status == GoalStatus::Active
                    && h.paused_reason is None && h.goal == g.goal && h.max_turns == g.max_turns && h.turns_used
                    == (if reset_budget {
                    0
                } else {
                    g.turns_used
                }),
            },
    {
        let id = self.goal_id();
        self.store.resume_goal(id.as_str(), reset_budget)?;
        if let Some(g) = &mut self.goal_state {
            g.resume(reset_budget);
        }
        Ok(())
    }

    /// Deletes the goal from the store and forgets it.
    pub fn clear_goal(&mut self) -> (r: Result<(), String>)
        ensures
            final(self).goal_id == old(self).goal_id,
            r is Err ==> final(self).goal_state == old(self).goal_state && final(self).plan_state == old(self).plan_state,
            r is Ok ==> final(self).goal_state is None && final(self).plan_state is None,
    {
        let id = self.goal_id();
        self.store.delete_goal(id.as_str())?;
        self.goal_state = None;
        self.plan_state = None;
        Ok(())
    }

    /// Loads the goal from the store: its record rebuilds the goal state
    /// (see `rebuilt`), then its plan is loaded. A goal the store does not
    /// know leaves everything as it was. When the plan cannot be loaded the
    /// rebuilt state stays and the failure is returned.
    pub fn load_from_store(&mut self) -> (r: Result<(), String>)
        ensures
            final(self).goal_id == old(self).goal_id,
            r is Err ==> final(self).plan_state == old(self).plan_state,
            r is Ok ==> final(self).plan_state is Some || (final(self).goal_state == old(self).goal_state
                && final(self).plan_state == old(self).plan_state),
            final(self).goal_state != old(self).goal_state ==> exists|
                text: Seq<char>,
                status: Seq<char>,
                third: usize,
                fourth: usize,
                reason: Option<Seq<char>>,
            | #[trigger] rebuilt(final(self).goal_state->0, text, status, third, fourth, reason)
                && final(self).goal_state is Some,
    {
        let id = self.goal_id();
        let (goal_text, goal_status, max_turns, turns_used, paused_reason) = match self.store.get_goal(
            id.as_str(),
        )? {
            Some(v) => v,
            None => return Ok(()),
        };
        let ghost reason_v = opt_view(paused_reason);
        let state = state_from_record(goal_text.as_str(), goal_status.as_str(), max_turns, turns_used, paused_reason);
        self.goal_state = Some(state);
        proof {
            assert(rebuilt(self.goal_state->0, goal_text@, goal_status@, max_turns, turns_used, reason_v));
        }
        let plan = self.load_plan()?;
        self.plan_state = Some(plan);
        Ok(())
    }

    /// Loads the goal's plan from the store.
    pub fn load_plan(&self) -> (r: Result<PlanState, String>) {
        let id = self.goal_id();
        self.store.load_plan(id.as_str())
    }

    /// Saves a plan for the goal in the store.
    pub fn save_plan(&self, plan: &PlanState) -> (r: Result<(), String>) {
        let id = self.goal_id();
        self.store.save_plan(id.as_str(), plan)
    }

    /// Writes the goal's record (status, turns, verdict, reason), plan and
    /// state to the store, then keeps them loaded. On a failure of the
    /// store nothing is kept loaded.
    pub fn persist_and_update(&mut self, state: GoalState, plan: PlanState) -> (r: Result<(), String>)
        ensures
            final(self).goal_id == old(self).goal_id,
            r is Ok ==> final(self).goal_state == Some(state) && final(self).plan_state == Some(plan),
            r is Err ==> final(self).goal_state == old(self).goal_state && final(self).plan_state == old(self).plan_state,
    {
        let id = self.goal_id();
        let status: &str = match state.status {
            GoalStatus::Active => "active",
            GoalStatus::Done => "done",
            GoalStatus::Paused => "paused",
            GoalStatus::Cleared => "cleared",
        };
        let verdict: Option<&str> = match &state.last_verdict {
            Some(v) => Some(v.as_str()),
            None => None,
        };
        let reason: Option<&str> = match &state.last_reason {
            Some(v) => Some(v.as_str()),
            None => None,
        };
        self.store.update_goal(id.as_str(), status, state.turns_used, verdict, reason)?;
        self.store.save_plan(id.as_str(), &plan)?;
        self.store.save_goal_state(id.as_str(), &state)?;
        self.goal_state = Some(state);
        self.plan_state = Some(plan);
        Ok(())
    }

    /// Evaluates the goal after a turn. Nothing is done for a goal that is
    /// not loaded or not active (an inactive goal is unloaded). Without a
    /// plan the agent is sent on toward the goal. Otherwise the turn is
    /// counted; a spent budget pauses the goal; else the judge's `verdict`
    /// (the heuristic verdict on the plan when none is given) is recorded,
    /// and three unusable judge answers in a row pause the goal. The goal's
    /// records are written to the store after each of these steps; a
    /// failure of the store is returned and leaves nothing loaded.
    pub fn evaluate_after_turn(&mut self, turn_response: &str, verdict: Option<JudgeVerdict>) -> (r: Result<
        Option<GoalResult>,
        String,
    >)
        requires
            old(self).goal_state matches Some(g) ==> g.turns_used < usize::MAX
                && g.consecutive_parse_failures < usize::MAX,
        ensures
            final(self).goal_id == old(self).goal_id,
            !is_active_goal(old(self).goal_state) ==> r == Ok::<Option<GoalResult>, String>(None)
                && final(self).goal_state is None && final(self).plan_state == old(self).plan_state,
            is_active_goal(old(self).goal_state) && old(self).plan_state is None ==> final(self).goal_state == old(self).goal_state && is_continue(r, "no plan loaded"@, next_step_prompt(old(self).goal_state->0.goal@)),
            is_active_goal(old(self).goal_state) && old(self).plan_state is Some ==> turn_outcome(
                old(self).goal_state->0,
                old(self).plan_state->0,
                verdict,
                r,
                final(self).goal_state,
                final(self).plan_state,
            ),
    {
        let ghost given = verdict;
        let mut state = match self.goal_state.take() {
            Some(s) => {
                if s.is_active() {
                    s
                } else {
                    return Ok(None);
                }
            },
            None => return Ok(None),
        };
        let plan = match self.plan_state.take() {
            Some(p) => p,
            None => {
                let mut prompt = "\nContinue working toward the goal: ".to_owned();
                push_str(&mut prompt, state.goal.as_str());
                push_str(&mut prompt, "\nTake the next concrete step.");
                self.goal_state = Some(state);
                return Ok(Some(GoalResult::Continue { reason: "no plan loaded".to_owned(), prompt }));
            },
        };
        state.record_turn();
        if state.turns_used >= state.max_turns {
            state.pause("turn budget exhausted");
            let mut reason = "Goal '".to_owned();
            push_str(&mut reason, state.goal.as_str());
            push_str(&mut reason, "' budget exhausted (");
            push_decimal(&mut reason, state.turns_used as u64);
            push_str(&mut reason, " turns)");
            let mut message = "Goal budget exhausted: ".to_owned();
            push_decimal(&mut message, state.turns_used as u64);
            push_str(&mut message, " turns of ");
            push_decimal(&mut message, state.max_turns as u64);
            push_str(&mut message, " max.");
            self.persist_and_update(state, plan)?;
            return Ok(Some(GoalResult::Stopped { reason, message }));
        }
        let verdict = match verdict {
            Some(v) => v,
            None => heuristic_judge_verdict(state.goal.as_str(), &plan),
        };
        let ghost vl = verdict;
        proof {
            assert(judged_by(given, vl) == vl);
        }
        state.record_verdict(&verdict);
        if state.consecutive_parse_failures >= MAX_PARSE_FAILURES {
            state.pause("judge returning unusable output");
            self.persist_and_update(state, plan)?;
            return Ok(
                Some(
                    GoalResult::Stopped {
                        reason: "judge parse failures".to_owned(),
                        message: "Judge model returning unusable output. Goal paused.".to_owned(),
                    },
                ),
            );
        }
        let goal = state.goal.clone();
        self.persist_and_update(state, plan)?;
        let result = match verdict {
            JudgeVerdict::Done(reason) => {
                let mut message = "Goal achieved: ".to_owned();
                push_str(&mut message, reason.as_str());
                GoalResult::Done { reason, message }
            },
            JudgeVerdict::Continue(reason) => {
                let mut prompt = "[Continuing toward your standing goal]\nGoal: ".to_owned();
                push_str(&mut prompt, goal.as_str());
                push_str(&mut prompt, "\nContinue working toward this goal.");
                GoalResult::Continue { reason, prompt }
            },
            JudgeVerdict::Skipped(reason) => {
                let mut prompt = "\nContinue working toward the goal: ".to_owned();
                push_str(&mut prompt, goal.as_str());
                push_str(&mut prompt, "\nTake the next concrete step.");
                GoalResult::Continue { reason, prompt }
            },
        };
        Ok(Some(result))
    }
}

} // verus!
