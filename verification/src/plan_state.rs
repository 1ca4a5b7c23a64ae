//! A plan: the goal statement and its top-level nodes, with lookups by
//! title and status, counts and the markdown rendering.

use vstd::prelude::*;

use crate::clock::{timestamp_now, Timestamp};
use crate::plan::{
    forest_count, lemma_forest_count_member, lemma_forest_count_prefix, lemma_forest_count_step,
    marked_done, marked_failed, node_count, node_markdown, with_status, NodeStatus, PlanNode,
};
use crate::platform::push_str;
use crate::text::str_eq;

verus! {

/// A plan: goal and top-level nodes.
#[derive(Debug)]
pub struct PlanState {
    pub goal: String,
    pub nodes: Vec<PlanNode>,
    pub created_at: Timestamp,
}

/// Whether `i` is the first position of `s` whose node has title `t`.
pub open spec fn first_titled(s: Seq<PlanNode>, t: Seq<char>, i: int) -> bool {
    &&& 0 <= i < s.len()
    &&& s[i].title@ == t
    &&& forall|j: int| 0 <= j < i ==> (#[trigger] s[j]).title@ != t
}

/// Whether no node of `s` has title `t`.
pub open spec fn none_titled(s: Seq<PlanNode>, t: Seq<char>) -> bool {
    forall|j: int| 0 <= j < s.len() ==> (#[trigger] s[j]).title@ != t
}

/// The nodes of `s` with status `st`.
pub open spec fn with_status_in(s: Seq<PlanNode>, st: NodeStatus) -> Seq<PlanNode> {
    s.filter(|n: PlanNode| n.status == st)
}

/// The markdown of the nodes: each on a line after a newline, followed by
/// an empty line.
pub open spec fn nodes_markdown(s: Seq<PlanNode>) -> Seq<char>
    decreases s.len(),
{
    if s.len() == 0 {
        Seq::empty()
    } else {
        nodes_markdown(s.drop_last()) + "\n"@ + node_markdown(s.last(), 0) + "\n"@
    }
}

/// The markdown of a plan: a `## Plan: **goal**` heading and its nodes.
pub open spec fn plan_markdown(goal: Seq<char>, s: Seq<PlanNode>) -> Seq<char> {
    "## Plan: **"@ + goal + "**"@ + nodes_markdown(s)
}

impl PlanState {
    /// A plan for `goal` with no nodes, created now.
    pub fn new(goal: &str) -> (p: Self)
        ensures
            p.goal@ == goal@,
            p.nodes@ == Seq::<PlanNode>::empty(),
    {
        PlanState { goal: goal.to_owned(), nodes: Vec::new(), created_at: timestamp_now() }
    }

    /// Adds a node, last.
    pub fn add_node(&mut self, node: PlanNode)
        ensures
            final(self).nodes@ == old(self).nodes@.push(node),
            final(self).goal == old(self).goal,
            final(self).created_at == old(self).created_at,
    {
        self.nodes.push(node);
    }

    /// The position of the first node titled `title`.
    pub fn find_index(&self, title: &str) -> (r: Option<usize>)
        ensures
            match r {
                Some(i) => first_titled(self.nodes@, title@, i as int),
                None => none_titled(self.nodes@, title@),
            },
    {
        let mut i: usize = 0;
        while i < self.nodes.len()
            invariant
                i <= self.nodes@.len(),
                forall|j: int| 0 <= j < i ==> (#[trigger] self.nodes@[j]).title@ != title@,
            decreases self.nodes.len() - i,
        {
            if str_eq(self.nodes[i].title.as_str(), title) {
                return Some(i);
            }
            i = i + 1;
        }
        None
    }

    /// The first node titled `title` (top level only).
    pub fn find_node(&self, title: &str) -> (r: Option<&PlanNode>)
        ensures
            match r {
                Some(n) => exists|i: int| first_titled(self.nodes@, title@, i) && *n == self.nodes@[i],
                None => none_titled(self.nodes@, title@),
            },
    {
        match self.find_index(title) {
            Some(i) => Some(&self.nodes[i]),
            None => None,
        }
    }

    /// The first node titled `title`, for updates.
    pub fn find_node_mut(&mut self, title: &str) -> (r: Option<&mut PlanNode>)
        ensures
            match r {
                Some(n) => exists|i: int|
                    first_titled(old(self).nodes@, title@, i) && *n == old(self).nodes@[i]
                        && final(self).nodes@ == old(self).nodes@.update(i, *final(n)),
                None => none_titled(old(self).nodes@, title@) && final(self).nodes@ == old(self).nodes@,
            },
            final(self).goal == old(self).goal,
            final(self).created_at == old(self).created_at,
    {
        match self.find_index(title) {
            Some(i) => Some(&mut self.nodes[i]),
            None => None,
        }
    }

    /// The first pending node.
    pub fn next_pending_node(&self) -> (r: Option<&PlanNode>)
        ensures
            match r {
                Some(n) => exists|i: int|
                    0 <= i < self.nodes@.len() && *n == self.nodes@[i] && n.status == NodeStatus::Pending
                        && forall|j: int| 0 <= j < i ==> (#[trigger] self.nodes@[j]).status != NodeStatus::Pending,
                None => forall|j: int| 0 <= j < self.nodes@.len() ==> (#[trigger] self.nodes@[j]).status != NodeStatus::Pending,
            },
    {
        let mut i: usize = 0;
        while i < self.nodes.len()
            invariant
                i <= self.nodes@.len(),
                forall|j: int| 0 <= j < i ==> (#[trigger] self.nodes@[j]).status != NodeStatus::Pending,
            decreases self.nodes.len() - i,
        {
            if self.nodes[i].status == NodeStatus::Pending {
                return Some(&self.nodes[i]);
            }
            i = i + 1;
        }
        None
    }

    /// Number of top-level nodes with status `st`.
    fn count_status(&self, st: NodeStatus) -> (c: usize)
        ensures
            c == with_status_in(self.nodes@, st).len(),
    {
        let ghost s = self.nodes@;
        let ghost f = |n: PlanNode| n.status == st;
        let mut c: usize = 0;
        let mut i: usize = 0;
        while i < self.nodes.len()
            invariant
                s == self.nodes@,
                i <= s.len(),
                f == (|n: PlanNode| n.status == st),
                c == s.take(i as int).filter(f).len(),
                c <= i,
            decreases s.len() - i,
        {
            proof {
                assert(s.take(i + 1 as int) =~= s.take(i as int).push(s[i as int]));
                s.take(i as int).lemma_filter_push(s[i as int], f);
            }
            if self.nodes[i].status == st {
                c = c + 1;
            }
            i = i + 1;
        }
        proof {
            assert(s.take(s.len() as int) =~= s);
        }
        c
    }

    /// Number of pending top-level nodes.
    pub fn pending_count(&self) -> (c: usize)
        ensures
            c == with_status_in(self.nodes@, NodeStatus::Pending).len(),
    {
        self.count_status(NodeStatus::Pending)
    }

    /// Number of done top-level nodes.
    pub fn done_count(&self) -> (c: usize)
        ensures
            c == with_status_in(self.nodes@, NodeStatus::Done).len(),
    {
        self.count_status(NodeStatus::Done)
    }

    /// Number of nodes of the whole plan, sub-nodes included.
    pub fn total_count(&self) -> (c: usize)
        requires
            forest_count(self.nodes@) <= usize::MAX,
        ensures
            c == forest_count(self.nodes@),
    {
        let ghost s = self.nodes@;
        let mut total: usize = 0;
        let mut i: usize = 0;
        proof {
            assert(s.take(0) =~= Seq::<PlanNode>::empty());
        }
        while i < self.nodes.len()
            invariant
                s == self.nodes@,
                forest_count(s) <= usize::MAX,
                i <= s.len(),
                total == forest_count(s.take(i as int)),
            decreases s.len() - i,
        {
            proof {
                lemma_forest_count_step(s, i as int);
                lemma_forest_count_prefix(s, i + 1);
                lemma_forest_count_member(s, i as int);
            }
            let c = self.nodes[i].total_count();
            total = total + c;
            i = i + 1;
        }
        proof {
            assert(s.take(s.len() as int) =~= s);
        }
        total
    }

    /// Marks the first node titled `title` in progress; nothing happens when
    /// there is none.
    pub fn mark_in_progress(&mut self, title: &str)
        ensures
            none_titled(old(self).nodes@, title@) ==> final(self).nodes@ == old(self).nodes@,
            forall|i: int|
                first_titled(old(self).nodes@, title@, i) ==> final(self).nodes@ == old(self).nodes@.update(
                    i,
                    final(self).nodes@[i],
                ) && with_status(old(self).nodes@[i], final(self).nodes@[i], NodeStatus::InProgress),
            final(self).goal == old(self).goal,
    {
        match self.find_index(title) {
            Some(i) => {
                let ghost before = self.nodes@;
                let n = &mut self.nodes[i];
                n.mark_in_progress();
                proof {
                    assert(self.nodes@ =~= before.update(i as int, self.nodes@[i as int]));
                    assert forall|k: int| first_titled(before, title@, k) implies k == i by {
                        if k < i {
                            assert(before[k].title@ != title@);
                        } else if k > i {
                            assert(before[i as int].title@ != title@);
                        }
                    }
                }
            },
            None => {},
        }
    }

    /// Marks the first node titled `title` done with `message`; nothing
    /// happens when there is none.
    pub fn mark_done(&mut self, title: &str, message: &str)
        ensures
            none_titled(old(self).nodes@, title@) ==> final(self).nodes@ == old(self).nodes@,
            forall|i: int|
                first_titled(old(self).nodes@, title@, i) ==> final(self).nodes@ == old(self).nodes@.update(
                    i,
                    final(self).nodes@[i],
                ) && marked_done(old(self).nodes@[i], final(self).nodes@[i], message@),
            final(self).goal == old(self).goal,
    {
        match self.find_index(title) {
            Some(i) => {
                let ghost before = self.nodes@;
                let n = &mut self.nodes[i];
                n.mark_done(message);
                proof {
                    assert(self.nodes@ =~= before.update(i as int, self.nodes@[i as int]));
                    assert forall|k: int| first_titled(before, title@, k) implies k == i by {
                        if k < i {
                            assert(before[k].title@ != title@);
                        } else if k > i {
                            assert(before[i as int].title@ != title@);
                        }
                    }
                }
            },
            None => {},
        }
    }

    /// Marks the first node titled `title` failed with `reason`; nothing
    /// happens when there is none.
    pub fn mark_failed(&mut self, title: &str, reason: &str)
        ensures
            none_titled(old(self).nodes@, title@) ==> final(self).nodes@ == old(self).nodes@,
            forall|i: int|
                first_titled(old(self).nodes@, title@, i) ==> final(self).nodes@ == old(self).nodes@.update(
                    i,
                    final(self).nodes@[i],
                ) && marked_failed(old(self).nodes@[i], final(self).nodes@[i], reason@),
            final(self).goal == old(self).goal,
    {
        match self.find_index(title) {
            Some(i) => {
                let ghost before = self.nodes@;
                let n = &mut self.nodes[i];
                n.mark_failed(reason);
                proof {
                    assert(self.nodes@ =~= before.update(i as int, self.nodes@[i as int]));
                    assert forall|k: int| first_titled(before, title@, k) implies k == i by {
                        if k < i {
                            assert(before[k].title@ != title@);
                        } else if k > i {
                            assert(before[i as int].title@ != title@);
                        }
                    }
                }
            },
            None => {},
        }
    }

    /// The markdown checklist of the plan (see `plan_markdown`).
    pub fn to_markdown(&self) -> (s: String)
        requires
            forest_count(self.nodes@) <= usize::MAX,
        ensures
            s@ == plan_markdown(self.goal@, self.nodes@),
    {
        let ghost ns = self.nodes@;
        let mut s = "## Plan: **".to_owned();
        push_str(&mut s, self.goal.as_str());
        push_str(&mut s, "**");
        let ghost head = s@;
        proof {
            assert(ns.take(0) =~= Seq::<PlanNode>::empty());
            assert(head =~= head + nodes_markdown(ns.take(0)));
        }
        let mut i: usize = 0;
        while i < self.nodes.len()
            invariant
                ns == self.nodes@,
                forest_count(ns) <= usize::MAX,
                i <= ns.len(),
                s@ == head + nodes_markdown(ns.take(i as int)),
            decreases ns.len() - i,
        {
            proof {
                lemma_forest_count_member(ns, i as int);
                assert(ns.take(i + 1 as int).drop_last() =~= ns.take(i as int));
                assert(ns.take(i + 1 as int).last() == ns[i as int]);
            }
            let md = self.nodes[i].to_markdown(0);
            push_str(&mut s, "\n");
            push_str(&mut s, md.as_str());
            push_str(&mut s, "\n");
            proof {
                assert(s@ =~= head + (nodes_markdown(ns.take(i as int)) + "\n"@ + node_markdown(
                    ns[i as int],
                    0,
                ) + "\n"@));
            }
            i = i + 1;
        }
        proof {
            assert(ns.take(ns.len() as int) =~= ns);
        }
        s
    }
}

/// Marking a node done changes that node only, and only its outcome: the
/// plan keeps its goal, its shape and its other nodes.
pub proof fn law_mark_done_touches_one_node(
    before: Seq<PlanNode>,
    after: Seq<PlanNode>,
    title: Seq<char>,
    message: Seq<char>,
    i: int,
)
    requires
        first_titled(before, title, i),
        after == before.update(i, after[i]),
        marked_done(before[i], after[i], message),
    ensures
        after.len() == before.len(),
        forall|j: int| 0 <= j < before.len() && j != i ==> after[j] == before[j],
        after[i].title == before[i].title,
        after[i].sub_nodes == before[i].sub_nodes,
        after[i].status == NodeStatus::Done,
{
}

} // verus!
