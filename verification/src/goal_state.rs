//! The living state of an active goal: its status, turn budget, the judge's
//! last verdict and the count of unusable judge replies.

use vstd::prelude::*;

use crate::clock::{timestamp_now, Timestamp};
use crate::platform::push_str;
use crate::text::{clone_opt_string, contains_seq, decimal, opt_view, push_decimal, str_contains};
use crate::verdict::JudgeVerdict;

verus! {

/// Status of a goal.
#[derive(Debug, Clone, Copy, PartialEq, Eq, Structural)]
pub enum GoalStatus {
    Active,
    Done,
    Paused,
    Cleared,
}

impl Default for GoalStatus {
    fn default() -> (s: Self)
        ensures
            s == GoalStatus::Active,
    {
        GoalStatus::Active
    }
}

/// The default turn budget of a goal.
pub const DEFAULT_MAX_TURNS: usize = 20;

/// The number of unusable judge replies in a row that stops a goal.
pub const MAX_PARSE_FAILURES: usize = 3;

/// The state of a goal.
#[derive(Debug)]
pub struct GoalState {
    pub goal: String,
    pub status: GoalStatus,
    pub turns_used: usize,
    pub max_turns: usize,
    pub created_at: Timestamp,
    pub last_turn_at: Option<Timestamp>,
    /// `done`, `continue` or `skipped`.
    pub last_verdict: Option<String>,
    pub last_reason: Option<String>,
    pub paused_reason: Option<String>,
    /// Unusable judge replies in a row.
    pub consecutive_parse_failures: usize,
}

impl Clone for GoalState {
    fn clone(&self) -> (r: Self)
        ensures
            r == *self,
    {
        GoalState {
            goal: self.goal.clone(),
            status: self.status,
            turns_used: self.turns_used,
            max_turns: self.max_turns,
            created_at: self.created_at,
            last_turn_at: self.last_turn_at,
            last_verdict: clone_opt_string(&self.last_verdict),
            last_reason: clone_opt_string(&self.last_reason),
            paused_reason: clone_opt_string(&self.paused_reason),
            consecutive_parse_failures: self.consecutive_parse_failures,
        }
    }
}

/// Whether a verdict reports an unusable judge reply: a "continue" whose
/// reason mentions `empty` or `not JSON`.
pub open spec fn parse_failed(v: JudgeVerdict) -> bool {
    match v {
        JudgeVerdict::Continue(r) => contains_seq(r@, "empty"@) || contains_seq(r@, "not JSON"@),
        _ => false,
    }
}

/// The name of a verdict's kind and its reason.
pub open spec fn verdict_parts(v: JudgeVerdict) -> (Seq<char>, Seq<char>) {
    match v {
        JudgeVerdict::Done(r) => ("done"@, r@),
        JudgeVerdict::Continue(r) => ("continue"@, r@),
        JudgeVerdict::Skipped(r) => ("skipped"@, r@),
    }
}

/// The word for a status.
pub open spec fn status_word(s: GoalStatus) -> Seq<char> {
    match s {
        GoalStatus::Active => "active"@,
        GoalStatus::Done => "done"@,
        GoalStatus::Paused => "paused"@,
        GoalStatus::Cleared => "cleared"@,
    }
}

/// `Goal (status, used/max, parse_failures=n)`.
pub open spec fn status_text(g: GoalState) -> Seq<char> {
    "Goal ("@ + status_word(g.status) + ", "@ + decimal(g.turns_used as nat) + "/"@ + decimal(
        g.max_turns as nat,
    ) + ", parse_failures="@ + decimal(g.consecutive_parse_failures as nat) + ")"@
}

/// Whether a goal keeps going: active, within its turn budget, and with
/// fewer than `MAX_PARSE_FAILURES` unusable judge replies in a row.
pub open spec fn continues(g: GoalState) -> bool {
    g.status == GoalStatus::Active && g.turns_used < g.max_turns && g.consecutive_parse_failures
        < MAX_PARSE_FAILURES
}

impl GoalState {
    /// An active goal with the given budget (20 turns when none is given),
    /// created now.
    pub fn new(goal: &str, max_turns: Option<usize>) -> (g: Self)
        ensures
            g.goal@ == goal@,
            g.status == GoalStatus::Active,
            g.turns_used == 0,
            g.max_turns == (match max_turns {
                Some(m) => m,
                None => DEFAULT_MAX_TURNS,
            }),
            g.last_turn_at is None,
            g.last_verdict is None,
            g.last_reason is None,
            g.paused_reason is None,
            g.consecutive_parse_failures == 0,
    {
        GoalState {
            goal: goal.to_owned(),
            status: GoalStatus::Active,
            turns_used: 0,
            max_turns: match max_turns {
                Some(m) => m,
                None => DEFAULT_MAX_TURNS,
            },
            created_at: timestamp_now(),
            last_turn_at: None,
            last_verdict: None,
            last_reason: None,
            paused_reason: None,
            consecutive_parse_failures: 0,
        }
    }

    /// An active goal with the default budget.
    pub fn new_active(goal: &str) -> (g: Self)
        ensures
            g.goal@ == goal@,
            g.status == GoalStatus::Active,
            g.turns_used == 0,
            g.max_turns == DEFAULT_MAX_TURNS,
            g.last_verdict is None,
            g.paused_reason is None,
            g.consecutive_parse_failures == 0,
    {
        Self::new(goal, None)
    }

    /// Counts a turn, made now.
    pub fn record_turn(&mut self)
        requires
            old(self).turns_used < usize::MAX,
        ensures
            final(self).turns_used == old(self).turns_used + 1,
            final(self).last_turn_at is Some,
            final(self).goal == old(self).goal,
            final(self).status == old(self).status,
            final(self).max_turns == old(self).max_turns,
            final(self).last_verdict == old(self).last_verdict,
            final(self).last_reason == old(self).last_reason,
            final(self).paused_reason == old(self).paused_reason,
            final(self).consecutive_parse_failures == old(self).consecutive_parse_failures,
    {
        self.turns_used = self.turns_used + 1;
        self.last_turn_at = Some(timestamp_now());
    }

    /// Takes in the judge's verdict. An unusable judge answer adds one to
    /// the count of such answers in a row, any other answer sets it back to
    /// zero, and a "done" verdict completes the goal.
    pub fn record_verdict(&mut self, verdict: &JudgeVerdict)
        requires
            parse_failed(*verdict) ==> old(self).consecutive_parse_failures < usize::MAX,
        ensures
            final(self).consecutive_parse_failures == (if parse_failed(*verdict) {
                old(self).consecutive_parse_failures + 1
            } else {
                0
            }),
            final(self).status == (match verdict {
                JudgeVerdict::Done(_) => GoalStatus::Done,
                _ => old(self).status,
            }),
            opt_view(final(self).last_verdict) == Some(verdict_parts(*verdict).0),
            opt_view(final(self).last_reason) == Some(verdict_parts(*verdict).1),
            final(self).goal == old(self).goal,
            final(self).turns_used == old(self).turns_used,
            final(self).max_turns == old(self).max_turns,
            final(self).paused_reason == old(self).paused_reason,
            final(self).last_turn_at == old(self).last_turn_at,
    {
        let failed = match verdict {
            JudgeVerdict::Continue(r) => str_contains(r.as_str(), "empty") || str_contains(
                r.as_str(),
                "not JSON",
            ),
            _ => false,
        };
        if failed {
            self.consecutive_parse_failures = self.consecutive_parse_failures + 1;
        } else {
            self.consecutive_parse_failures = 0;
        }
        match verdict {
            JudgeVerdict::Done(reason) => {
                self.status = GoalStatus::Done;
                self.last_verdict = Some("done".to_owned());
                self.last_reason = Some(reason.clone());
            },
            JudgeVerdict::Continue(reason) => {
                self.last_verdict = Some("continue".to_owned());
                self.last_reason = Some(reason.clone());
            },
            JudgeVerdict::Skipped(reason) => {
                self.last_verdict = Some("skipped".to_owned());
                self.last_reason = Some(reason.clone());
            },
        }
    }

    /// Whether the goal keeps going (see `continues`).
    pub fn should_continue(&self) -> (b: bool)
        ensures
            b == continues(*self),
    {
        self.status == GoalStatus::Active && self.turns_used < self.max_turns
            && self.consecutive_parse_failures < MAX_PARSE_FAILURES
    }

    /// Whether the goal is done.
    pub fn is_done(&self) -> (b: bool)
        ensures
            b == (self.status == GoalStatus::Done),
    {
        self.status == GoalStatus::Done
    }

    /// Whether the goal is active.
    pub fn is_active(&self) -> (b: bool)
        ensures
            b == (self.status == GoalStatus::Active),
    {
        self.status == GoalStatus::Active
    }

    /// Pauses the goal, with the reason.
    pub fn pause(&mut self, reason: &str)
        ensures
            final(self).status == GoalStatus::Paused,
            opt_view(final(self).paused_reason) == Some(reason@),
            final(self).goal == old(self).goal,
            final(self).turns_used == old(self).turns_used,
            final(self).max_turns == old(self).max_turns,
            final(self).last_verdict == old(self).last_verdict,
            final(self).last_reason == old(self).last_reason,
            final(self).consecutive_parse_failures == old(self).consecutive_parse_failures,
    {
        self.status = GoalStatus::Paused;
        self.paused_reason = Some(reason.to_owned());
    }

    /// Resumes the goal: active again, no pause reason, and the turns used
    /// reset when `reset_budget`.
    pub fn resume(&mut self, reset_budget: bool)
        ensures
            final(self).status == GoalStatus::Active,
            final(self).paused_reason is None,
            final(self).turns_used == (if reset_budget {
                0
            } else {
                old(self).turns_used
            }),
            final(self).goal == old(self).goal,
            final(self).max_turns == old(self).max_turns,
            final(self).consecutive_parse_failures == old(self).consecutive_parse_failures,
    {
        self.status = GoalStatus::Active;
        self.paused_reason = None;
        if reset_budget {
            self.turns_used = 0;
        }
    }

    /// Clears the goal.
    pub fn clear(&mut self)
        ensures
            final(self).status == GoalStatus::Cleared,
            final(self).paused_reason is None,
            final(self).goal == old(self).goal,
            final(self).turns_used == old(self).turns_used,
            final(self).max_turns == old(self).max_turns,
    {
        self.status = GoalStatus::Cleared;
        self.paused_reason = None;
    }

    /// `Goal (status, used/max, parse_failures=n)`.
    pub fn status_line(&self) -> (s: String)
        ensures
            s@ == status_text(*self),
    {
        let mut s = "Goal (".to_owned();
        match self.status {
            GoalStatus::Active => push_str(&mut s, "active"),
            GoalStatus::Done => push_str(&mut s, "done"),
            GoalStatus::Paused => push_str(&mut s, "paused"),
            GoalStatus::Cleared => push_str(&mut s, "cleared"),
        }
        push_str(&mut s, ", ");
        push_decimal(&mut s, self.turns_used as u64);
        push_str(&mut s, "/");
        push_decimal(&mut s, self.max_turns as u64);
        push_str(&mut s, ", parse_failures=");
        push_decimal(&mut s, self.consecutive_parse_failures as u64);
        push_str(&mut s, ")");
        proof {
            assert(s@ =~= status_text(*self));
        }
        s
    }
}

/// A goal stops for good after `MAX_PARSE_FAILURES` unusable judge replies
/// in a row, and one usable reply resets the count.
pub proof fn law_parse_failures_stop_goal(g: GoalState)
    ensures
        g.consecutive_parse_failures >= MAX_PARSE_FAILURES ==> !continues(g),
        g.turns_used >= g.max_turns ==> !continues(g),
        g.status != GoalStatus::Active ==> !continues(g),
{
}

} // verus!
