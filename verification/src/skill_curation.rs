//! Skill curation: counts how often each tool is used, ranks the tools, and
//! proposes a skill for a tool that was used often.

use vstd::prelude::*;

use crate::platform::push_str;
use crate::strmap::StrMap;

verus! {

/// How many uses of one tool make it worth a skill.
pub const SKILL_THRESHOLD: usize = 3;

/// A learned or user-made skill.
#[derive(Debug)]
pub struct LearnedSkill {
    pub name: String,
    pub description: String,
    pub category: String,
    pub instructions: String,
}

impl Clone for LearnedSkill {
    fn clone(&self) -> (r: Self)
        ensures
            r == *self,
    {
        LearnedSkill {
            name: self.name.clone(),
            description: self.description.clone(),
            category: self.category.clone(),
            instructions: self.instructions.clone(),
        }
    }
}

/// Whether `s` is the skill proposed for the tool named `tool`.
pub open spec fn is_skill_for(s: LearnedSkill, tool: Seq<char>) -> bool {
    &&& s.name@ == "auto-skill-"@ + tool
    &&& s.description@ == "Automates repeated use of '"@ + tool + "' tool"@
    &&& s.category@ == "auto-generated"@
    &&& s.instructions@ == "When the user needs to perform tasks related to '"@ + tool
        + "', use the appropriate tool calls directly."@
}

/// The skill proposed for a tool.
pub fn skill_for_tool(tool: &str) -> (s: LearnedSkill)
    ensures
        is_skill_for(s, tool@),
{
    let mut name = "auto-skill-".to_owned();
    push_str(&mut name, tool);
    let mut description = "Automates repeated use of '".to_owned();
    push_str(&mut description, tool);
    push_str(&mut description, "' tool");
    let mut instructions = "When the user needs to perform tasks related to '".to_owned();
    push_str(&mut instructions, tool);
    push_str(&mut instructions, "', use the appropriate tool calls directly.");
    LearnedSkill { name, description, category: "auto-generated".to_owned(), instructions }
}

/// The smaller of a limit and a count.
pub open spec fn min_len(limit: nat, n: nat) -> nat {
    if limit < n {
        limit
    } else {
        n
    }
}

/// Whether `r` ranks the tools of `usage`: it holds `limit` of them (all
/// when there are fewer), each once and with its count, from most to least
/// used, and no tool left out was used more than one that was kept.
pub open spec fn is_ranking(usage: Map<Seq<char>, usize>, limit: nat, r: Seq<(String, usize)>) -> bool {
    &&& r.len() == min_len(limit, usage.len())
    &&& forall|i: int| 0 <= i < r.len() ==> usage.contains_key(#[trigger] r[i].0@) && usage[r[i].0@] == r[i].1
    &&& forall|i: int, j: int| 0 <= i < j < r.len() ==> (#[trigger] r[i]).0@ != (#[trigger] r[j]).0@
    &&& forall|i: int, j: int| 0 <= i < j < r.len() ==> (#[trigger] r[i]).1 >= (#[trigger] r[j]).1
    &&& forall|k: Seq<char>, i: int|
        #![trigger usage[k], r[i]]
        usage.contains_key(k) && (forall|p: int| 0 <= p < r.len() ==> (#[trigger] r[p]).0@ != k) && 0 <= i
            < r.len() ==> usage[k] <= r[i].1
}

/// Learns skills from completed conversations.
pub struct SkillCurator {
    tool_usage: StrMap<usize>,
    learned_skills: Vec<LearnedSkill>,
}

impl SkillCurator {
    /// Uses by tool name.
    pub closed spec fn usage(&self) -> Map<Seq<char>, usize> {
        self.tool_usage@
    }

    /// The skills learned or added, in order.
    pub closed spec fn learned(&self) -> Seq<LearnedSkill> {
        self.learned_skills@
    }

    /// Internal consistency.
    pub closed spec fn wf(&self) -> bool {
        self.tool_usage.wf()
    }

    /// A curator that has seen nothing.
    pub fn new() -> (c: Self)
        ensures
            c.wf(),
            c.usage() == Map::<Seq<char>, usize>::empty(),
            c.learned() == Seq::<LearnedSkill>::empty(),
    {
        SkillCurator { tool_usage: StrMap::new(), learned_skills: Vec::new() }
    }

    /// Counts one use of a tool.
    pub fn record_tool_usage(&mut self, tool_name: &str)
        requires
            old(self).wf(),
            old(self).usage().contains_key(tool_name@) ==> old(self).usage()[tool_name@] < usize::MAX,
        ensures
            final(self).wf(),
            final(self).usage() == old(self).usage().insert(
                tool_name@,
                if old(self).usage().contains_key(tool_name@) {
                    (old(self).usage()[tool_name@] + 1) as usize
                } else {
                    1usize
                },
            ),
            final(self).learned() == old(self).learned(),
    {
        proof {
            self.tool_usage.lemma_view();
        }
        match self.tool_usage.find(tool_name) {
            Some(i) => {
                let ghost before = self.tool_usage;
                let v = self.tool_usage.value_at_mut(i);
                *v = *v + 1;
                proof {
                    StrMap::lemma_update_at(before, self.tool_usage, i as int);
                }
            },
            None => {
                self.tool_usage.insert(tool_name.to_owned(), 1);
            },
        }
    }

    /// The `limit` most used tools with their counts, most used first.
    pub fn top_tools(&self, limit: usize) -> (r: Vec<(String, usize)>)
        requires
            self.wf(),
        ensures
            is_ranking(self.usage(), limit as nat, r@),
    {
        let ghost ks = self.tool_usage.key_seq();
        let ghost vs = self.tool_usage.val_seq();
        proof {
            self.tool_usage.lemma_view();
        }
        let n = self.tool_usage.len();
        let mut idx: Vec<usize> = Vec::new();
        let mut j: usize = 0;
        while j < n
            invariant
                j <= n,
                idx@.len() == j,
                forall|p: int| 0 <= p < j ==> idx@[p] == p,
            decreases n - j,
        {
            idx.push(j);
            j = j + 1;
        }
        let ghost mut inv: Seq<int> = Seq::new(n as nat, |p: int| p);
        let m: usize = if limit < n {
            limit
        } else {
            n
        };
        let mut i: usize = 0;
        while i < m
            invariant
                self.wf(),
                ks == self.tool_usage.key_seq(),
                vs == self.tool_usage.val_seq(),
                ks.len() == n,
                vs.len() == n,
                m <= n,
                i <= m,
                idx@.len() == n,
                inv.len() == n,
                forall|p: int| 0 <= p < n ==> (#[trigger] idx@[p]) < n,
                forall|p: int, q: int| 0 <= p < q < n ==> (#[trigger] idx@[p]) != (#[trigger] idx@[q]),
                forall|x: int| 0 <= x < n ==> 0 <= #[trigger] inv[x] < n && idx@[inv[x]] == x,
                forall|p: int, q: int|
                    0 <= p < q < n && p < i ==> vs[(#[trigger] idx@[p]) as int] >= vs[(#[trigger] idx@[q]) as int],
            decreases m - i,
        {
            let mut best: usize = i;
            let mut k: usize = i + 1;
            while k < n
                invariant
                    self.wf(),
                    vs == self.tool_usage.val_seq(),
                    ks == self.tool_usage.key_seq(),
                    ks.len() == n,
                    vs.len() == n,
                    idx@.len() == n,
                    forall|p: int| 0 <= p < n ==> (#[trigger] idx@[p]) < n,
                    i < n,
                    i <= best < k,
                    k <= n,
                    forall|q: int| i <= q < k ==> vs[(#[trigger] idx@[q]) as int] <= vs[idx@[best as int] as int],
                decreases n - k,
            {
                if *self.tool_usage.value_at(idx[k]) > *self.tool_usage.value_at(idx[best]) {
                    best = k;
                }
                k = k + 1;
            }
            let a = idx[i];
            let b = idx[best];
            let ghost old_idx = idx@;
            idx.set(i, b);
            idx.set(best, a);
            proof {
                inv = inv.update(a as int, best as int).update(b as int, i as int);
                assert forall|x: int| 0 <= x < n implies 0 <= #[trigger] inv[x] < n && idx@[inv[x]] == x by {
                    if x != a && x != b {
                        let p = inv[x];
                        assert(old_idx[p] == x);
                        if p == i {
                            assert(old_idx[i as int] == a);
                        }
                        if p == best {
                            assert(old_idx[best as int] == b);
                        }
                    }
                }
                assert forall|p: int, q: int| 0 <= p < q < n implies (#[trigger] idx@[p]) != (#[trigger] idx@[q]) by {
                    let op = if p == i {
                        best as int
                    } else if p == best {
                        i as int
                    } else {
                        p
                    };
                    let oq = if q == i {
                        best as int
                    } else if q == best {
                        i as int
                    } else {
                        q
                    };
                    assert(idx@[p] == old_idx[op]);
                    assert(idx@[q] == old_idx[oq]);
                    assert(op != oq);
                    if op < oq {
                        assert(old_idx[op] != old_idx[oq]);
                    } else {
                        assert(old_idx[oq] != old_idx[op]);
                    }
                }
                assert forall|p: int, q: int|
                    0 <= p < q < n && p < i + 1 implies vs[(#[trigger] idx@[p]) as int] >= vs[(#[trigger] idx@[q]) as int] by {
                    let oq = if q == i {
                        best as int
                    } else if q == best {
                        i as int
                    } else {
                        q
                    };
                    assert(idx@[q] == old_idx[oq]);
                    if p < i {
                        assert(idx@[p] == old_idx[p]);
                        assert(p < oq);
                    } else {
                        assert(p == i);
                        assert(idx@[p] == old_idx[best as int]);
                        assert(i <= oq < n);
                    }
                }
            }
            i = i + 1;
        }
        let mut out: Vec<(String, usize)> = Vec::new();
        let mut p: usize = 0;
        while p < m
            invariant
                self.wf(),
                ks == self.tool_usage.key_seq(),
                vs == self.tool_usage.val_seq(),
                ks.len() == n,
                vs.len() == n,
                idx@.len() == n,
                m <= n,
                p <= m,
                forall|q: int| 0 <= q < n ==> (#[trigger] idx@[q]) < n,
                out@.len() == p,
                forall|q: int|
                    0 <= q < p ==> (#[trigger] out@[q]).0@ == ks[idx@[q] as int] && out@[q].1 == vs[idx@[q] as int],
            decreases m - p,
        {
            let key = self.tool_usage.key_at(idx[p]).clone();
            let count = *self.tool_usage.value_at(idx[p]);
            out.push((key, count));
            p = p + 1;
        }
        proof {
            let u = self.tool_usage@;
            let r = out@;
            assert(u.len() == n);
            assert forall|q: int| 0 <= q < r.len() implies u.contains_key(#[trigger] r[q].0@) && u[r[q].0@] == r[q].1 by {
                assert(u[ks[idx@[q] as int]] == vs[idx@[q] as int]);
            }
            assert forall|q1: int, q2: int| 0 <= q1 < q2 < r.len() implies (#[trigger] r[q1]).0@ != (#[trigger] r[q2]).0@ by {
                assert(idx@[q1] != idx@[q2]);
                assert(ks.no_duplicates());
            }
            assert forall|q1: int, q2: int| 0 <= q1 < q2 < r.len() implies (#[trigger] r[q1]).1 >= (#[trigger] r[q2]).1 by {
                assert(vs[idx@[q1] as int] >= vs[idx@[q2] as int]);
            }
            assert forall|key: Seq<char>, q: int|
                #![trigger u[key], r[q]]
                u.contains_key(key) && (forall|p2: int| 0 <= p2 < r.len() ==> (#[trigger] r[p2]).0@ != key) && 0 <= q
                    < r.len() implies u[key] <= r[q].1 by {
                assert(ks.to_set().contains(key));
                let x = ks.index_of(key);
                assert(ks[x] == key);
                crate::strmap::lemma_index_of_unique(ks, x);
                assert(u[key] == vs[x]);
                let pos = inv[x];
                assert(idx@[pos] == x);
                if pos < m {
                    assert(r[pos].0@ == ks[x]);
                    assert(false);
                }
                assert(vs[idx@[q] as int] >= vs[idx@[pos] as int]);
            }
        }
        out
    }

    /// Proposes a skill for a tool used at least `SKILL_THRESHOLD` times
    /// (any such tool) and learns it; `None`, learning nothing, when no tool
    /// was used that often. The conversation itself is not read.
    pub fn review_conversation(&mut self, conversation_id: &str, tool_usage: &[String]) -> (r: Option<LearnedSkill>)
        requires
            old(self).wf(),
        ensures
            final(self).wf(),
            final(self).usage() == old(self).usage(),
            r is None <==> forall|t: Seq<char>|
                #[trigger] old(self).usage().contains_key(t) ==> old(self).usage()[t] < SKILL_THRESHOLD,
            r is None ==> final(self).learned() == old(self).learned(),
            r matches Some(s) ==> final(self).learned() == old(self).learned().push(s) && exists|t: Seq<char>|
                old(self).usage().contains_key(t) && old(self).usage()[t] >= SKILL_THRESHOLD && #[trigger] is_skill_for(
                    s,
                    t,
                ),
    {
        let ghost ks = self.tool_usage.key_seq();
        let ghost vs = self.tool_usage.val_seq();
        proof {
            self.tool_usage.lemma_view();
        }
        let n = self.tool_usage.len();
        let mut i: usize = 0;
        while i < n
            invariant
                self.wf(),
                ks == self.tool_usage.key_seq(),
                vs == self.tool_usage.val_seq(),
                ks.len() == n,
                vs.len() == n,
                i <= n,
                self.tool_usage == old(self).tool_usage,
                self.learned_skills@ == old(self).learned_skills@,
                forall|q: int| 0 <= q < i ==> vs[q] < SKILL_THRESHOLD,
            decreases n - i,
        {
            if *self.tool_usage.value_at(i) >= SKILL_THRESHOLD {
                let skill = skill_for_tool(self.tool_usage.key_at(i).as_str());
                self.learned_skills.push(skill.clone());
                proof {
                    self.tool_usage.lemma_view();
                    assert(self.tool_usage@[ks[i as int]] == vs[i as int]);
                    assert(is_skill_for(skill, ks[i as int]));
                }
                return Some(skill);
            }
            i = i + 1;
        }
        proof {
            assert forall|t: Seq<char>| #[trigger] self.tool_usage@.contains_key(t) implies self.tool_usage@[t]
                < SKILL_THRESHOLD by {
                assert(ks.to_set().contains(t));
                let x = ks.index_of(t);
                crate::strmap::lemma_index_of_unique(ks, x);
            }
        }
        None
    }

    /// The skills learned or added, in order.
    pub fn learned_skills(&self) -> (s: &[LearnedSkill])
        ensures
            s@ == self.learned(),
    {
        self.learned_skills.as_slice()
    }

    /// Adds a skill made by the user.
    pub fn add_skill(&mut self, skill: LearnedSkill)
        ensures
            final(self).learned() == old(self).learned().push(skill),
            final(self).usage() == old(self).usage(),
            final(self).wf() == old(self).wf(),
    {
        self.learned_skills.push(skill);
    }
}

} // verus!
