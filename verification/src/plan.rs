//! Plan nodes: the units of work of an agent's plan, nested into a tree,
//! with their status, outcome and markdown checklist rendering.

use vstd::prelude::*;

use crate::clock::{timestamp_now, Timestamp};
use crate::platform::push_str;
use crate::text::opt_view;

verus! {

/// Status of a plan node.
#[derive(Debug, Clone, Copy, PartialEq, Eq, Structural)]
pub enum NodeStatus {
    Pending,
    InProgress,
    Done,
    Failed,
}

impl Default for NodeStatus {
    fn default() -> (s: Self)
        ensures
            s == NodeStatus::Pending,
    {
        NodeStatus::Pending
    }
}

/// A unit of work of a plan, with its sub-nodes.
#[derive(Debug)]
pub struct PlanNode {
    /// Human-readable label.
    pub title: String,
    /// Longer instruction.
    pub description: Option<String>,
    pub status: NodeStatus,
    pub sub_nodes: Vec<PlanNode>,
    /// What was accomplished (set when done).
    pub completion_message: Option<String>,
    /// Why it failed (set when failed).
    pub failure_reason: Option<String>,
    /// Files produced.
    pub artifacts: Vec<String>,
    pub created_at: Timestamp,
    /// When the node was completed or failed.
    pub completed_at: Option<Timestamp>,
}

/// Number of nodes in the tree under `n`, `n` included.
pub open spec fn node_count(n: PlanNode) -> nat
    decreases n, 1nat,
{
    1 + forest_count(n.sub_nodes@)
}

/// Number of nodes in the trees of `s`.
pub open spec fn forest_count(s: Seq<PlanNode>) -> nat
    decreases s, 0nat,
{
    if s.len() == 0 {
        0
    } else {
        forest_count(s.subrange(0, s.len() - 1)) + node_count(s[s.len() - 1])
    }
}

/// Counting a longer prefix adds the next tree.
pub proof fn lemma_forest_count_step(s: Seq<PlanNode>, i: int)
    requires
        0 <= i < s.len(),
    ensures
        forest_count(s.take(i + 1)) == forest_count(s.take(i)) + node_count(s[i]),
{
    assert(s.take(i + 1).subrange(0, i) =~= s.take(i));
}

/// A prefix of a forest has no more nodes than the forest.
pub proof fn lemma_forest_count_prefix(s: Seq<PlanNode>, i: int)
    requires
        0 <= i <= s.len(),
    ensures
        forest_count(s.take(i)) <= forest_count(s),
    decreases s.len() - i,
{
    if i < s.len() {
        lemma_forest_count_step(s, i);
        lemma_forest_count_prefix(s, i + 1);
    } else {
        assert(s.take(i) =~= s);
    }
}

/// Each tree of a forest has no more nodes than the forest.
pub proof fn lemma_forest_count_member(s: Seq<PlanNode>, i: int)
    requires
        0 <= i < s.len(),
    ensures
        node_count(s[i]) <= forest_count(s),
{
    lemma_forest_count_step(s, i);
    lemma_forest_count_prefix(s, i + 1);
}

/// Replacing a tree by one of the same size keeps the forest's size.
pub proof fn lemma_forest_count_update(s: Seq<PlanNode>, i: int, n: PlanNode)
    requires
        0 <= i < s.len(),
        node_count(n) == node_count(s[i]),
    ensures
        forest_count(s.update(i, n)) == forest_count(s),
    decreases s.len(),
{
    let t = s.update(i, n);
    if i == s.len() - 1 {
        assert(t.subrange(0, s.len() - 1) =~= s.subrange(0, s.len() - 1));
    } else {
        lemma_forest_count_update(s.subrange(0, s.len() - 1), i, n);
        assert(t.subrange(0, s.len() - 1) =~= s.subrange(0, s.len() - 1).update(i, n));
    }
}

/// The checkbox of a status.
pub open spec fn checkbox(s: NodeStatus) -> Seq<char> {
    match s {
        NodeStatus::Pending => "- [ ]"@,
        NodeStatus::InProgress => "- [~]"@,
        NodeStatus::Done => "- [x]"@,
        NodeStatus::Failed => "- [!]"@,
    }
}

/// Two spaces per level of indentation.
pub open spec fn indentation(k: nat) -> Seq<char>
    decreases k,
{
    if k == 0 {
        Seq::empty()
    } else {
        indentation((k - 1) as nat) + "  "@
    }
}

/// The markdown checklist of the tree under `n`, at `indent` levels: a
/// checkbox line with the bold title, the description in italics on its own
/// line, then the sub-nodes one level deeper, lines joined by newlines.
pub open spec fn node_markdown(n: PlanNode, indent: nat) -> Seq<char>
    decreases n, 1nat,
{
    let prefix = indentation(indent);
    let head = prefix + checkbox(n.status) + " **"@ + n.title@ + "**"@;
    let with_desc = match n.description {
        Some(d) => head + "\n"@ + prefix + "  _"@ + d@ + "_"@,
        None => head,
    };
    with_desc + forest_markdown(n.sub_nodes@, indent + 1)
}

/// Each tree of `s` on lines of its own, each preceded by a newline.
pub open spec fn forest_markdown(s: Seq<PlanNode>, indent: nat) -> Seq<char>
    decreases s, 0nat,
{
    if s.len() == 0 {
        Seq::empty()
    } else {
        forest_markdown(s.subrange(0, s.len() - 1), indent) + "\n"@ + node_markdown(
            s[s.len() - 1],
            indent,
        )
    }
}

/// The markdown of a longer prefix adds the next tree.
pub proof fn lemma_forest_markdown_step(s: Seq<PlanNode>, i: int, indent: nat)
    requires
        0 <= i < s.len(),
    ensures
        forest_markdown(s.take(i + 1), indent) == forest_markdown(s.take(i), indent) + "\n"@
            + node_markdown(s[i], indent),
{
    assert(s.take(i + 1).subrange(0, i) =~= s.take(i));
}

/// The fields that stay when a node's outcome changes.
pub open spec fn same_work(a: PlanNode, b: PlanNode) -> bool {
    &&& a.title == b.title
    &&& a.description == b.description
    &&& a.sub_nodes == b.sub_nodes
    &&& a.artifacts == b.artifacts
    &&& a.created_at == b.created_at
}

/// `b` is `a` marked done with `message`.
pub open spec fn marked_done(a: PlanNode, b: PlanNode, message: Seq<char>) -> bool {
    &&& same_work(a, b)
    &&& b.status == NodeStatus::Done
    &&& opt_view(b.completion_message) == Some(message)
    &&& b.failure_reason == a.failure_reason
    &&& b.completed_at is Some
}

/// `b` is `a` marked failed with `reason`.
pub open spec fn marked_failed(a: PlanNode, b: PlanNode, reason: Seq<char>) -> bool {
    &&& same_work(a, b)
    &&& b.status == NodeStatus::Failed
    &&& opt_view(b.failure_reason) == Some(reason)
    &&& b.completion_message == a.completion_message
    &&& b.completed_at is Some
}

/// `b` is `a` with another status.
pub open spec fn with_status(a: PlanNode, b: PlanNode, s: NodeStatus) -> bool {
    &&& same_work(a, b)
    &&& b.status == s
    &&& b.completion_message == a.completion_message
    &&& b.failure_reason == a.failure_reason
    &&& b.completed_at == a.completed_at
}

impl PlanNode {
    /// A pending node with nothing else set, created now.
    pub fn new(title: &str) -> (n: Self)
        ensures
            n.title@ == title@,
            n.description is None,
            n.status == NodeStatus::Pending,
            n.sub_nodes@ == Seq::<PlanNode>::empty(),
            n.completion_message is None,
            n.failure_reason is None,
            n.artifacts@ == Seq::<String>::empty(),
            n.completed_at is None,
    {
        PlanNode {
            title: title.to_owned(),
            description: None,
            status: NodeStatus::Pending,
            sub_nodes: Vec::new(),
            completion_message: None,
            failure_reason: None,
            artifacts: Vec::new(),
            created_at: timestamp_now(),
            completed_at: None,
        }
    }

    /// The same node with a description.
    pub fn description(self, desc: &str) -> (n: Self)
        ensures
            opt_view(n.description) == Some(desc@),
            n.title == self.title,
            n.status == self.status,
            n.sub_nodes == self.sub_nodes,
            n.completion_message == self.completion_message,
            n.failure_reason == self.failure_reason,
            n.artifacts == self.artifacts,
            n.created_at == self.created_at,
            n.completed_at == self.completed_at,
    {
        let mut n = self;
        n.description = Some(desc.to_owned());
        n
    }

    /// The same node with another status.
    pub fn status(self, status: NodeStatus) -> (n: Self)
        ensures
            with_status(self, n, status),
    {
        let mut n = self;
        n.status = status;
        n
    }

    /// The same node with one more sub-node, last.
    pub fn add_sub_node(self, child: PlanNode) -> (n: Self)
        ensures
            n.sub_nodes@ == self.sub_nodes@.push(child),
            n.title == self.title,
            n.status == self.status,
            n.description == self.description,
    {
        let mut n = self;
        n.sub_nodes.push(child);
        n
    }

    /// Adds a sub-node, last.
    pub fn push_sub_node(&mut self, child: PlanNode)
        ensures
            final(self).sub_nodes@ == old(self).sub_nodes@.push(child),
            final(self).title == old(self).title,
            final(self).status == old(self).status,
            final(self).description == old(self).description,
            final(self).artifacts == old(self).artifacts,
    {
        self.sub_nodes.push(child);
    }

    /// The same node, done with `message`, completed now.
    pub fn done(self, message: &str) -> (n: Self)
        ensures
            marked_done(self, n, message@),
    {
        let mut n = self;
        n.mark_done(message);
        n
    }

    /// The same node, failed with `reason`, completed now.
    pub fn fail(self, reason: &str) -> (n: Self)
        ensures
            marked_failed(self, n, reason@),
    {
        let mut n = self;
        n.mark_failed(reason);
        n
    }

    /// The same node with one more artifact, last.
    pub fn add_artifact(self, artifact: &str) -> (n: Self)
        ensures
            n.artifacts@.map_values(|a: String| a@) == self.artifacts@.map_values(|a: String| a@).push(artifact@),
            n.title == self.title,
            n.status == self.status,
            n.sub_nodes == self.sub_nodes,
    {
        let mut n = self;
        n.push_artifact(artifact);
        n
    }

    /// Adds an artifact, last.
    pub fn push_artifact(&mut self, artifact: &str)
        ensures
            final(self).artifacts@.map_values(|a: String| a@) == old(self).artifacts@.map_values(
                |a: String| a@,
            ).push(artifact@),
            final(self).title == old(self).title,
            final(self).status == old(self).status,
            final(self).sub_nodes == old(self).sub_nodes,
            final(self).description == old(self).description,
    {
        self.artifacts.push(artifact.to_owned());
        assert(self.artifacts@.map_values(|a: String| a@) =~= old(self).artifacts@.map_values(
            |a: String| a@,
        ).push(artifact@));
    }

    /// Marks the node done with `message`, completed now.
    pub fn mark_done(&mut self, message: &str)
        ensures
            marked_done(*old(self), *final(self), message@),
    {
        self.status = NodeStatus::Done;
        self.completion_message = Some(message.to_owned());
        self.completed_at = Some(timestamp_now());
    }

    /// Marks the node failed with `reason`, completed now.
    pub fn mark_failed(&mut self, reason: &str)
        ensures
            marked_failed(*old(self), *final(self), reason@),
    {
        self.status = NodeStatus::Failed;
        self.failure_reason = Some(reason.to_owned());
        self.completed_at = Some(timestamp_now());
    }

    /// Marks the node in progress.
    pub fn mark_in_progress(&mut self)
        ensures
            with_status(*old(self), *final(self), NodeStatus::InProgress),
    {
        self.status = NodeStatus::InProgress;
    }

    /// Whether the node has no sub-nodes.
    pub fn is_leaf(&self) -> (b: bool)
        ensures
            b == (self.sub_nodes@.len() == 0),
    {
        self.sub_nodes.len() == 0
    }

    /// Number of nodes in the tree under this node, this node included.
    pub fn total_count(&self) -> (c: usize)
        requires
            node_count(*self) <= usize::MAX,
        ensures
            c == node_count(*self),
        decreases self,
    {
        let ghost s = self.sub_nodes@;
        let mut total: usize = 1;
        let mut i: usize = 0;
        while i < self.sub_nodes.len()
            invariant
                s == self.sub_nodes@,
                node_count(*self) <= usize::MAX,
                i <= s.len(),
                total == 1 + forest_count(s.take(i as int)),
            decreases s.len() - i,
        {
            proof {
                lemma_forest_count_step(s, i as int);
                lemma_forest_count_prefix(s, i + 1);
                lemma_forest_count_member(s, i as int);
                assert(decreases_to!(*self => self.sub_nodes@[i as int]));
            }
            let c = self.sub_nodes[i].total_count();
            total = total + c;
            i = i + 1;
        }
        proof {
            assert(s.take(s.len() as int) =~= s);
        }
        total
    }

    /// Number of direct sub-nodes.
    pub fn child_count(&self) -> (c: usize)
        ensures
            c == self.sub_nodes@.len(),
    {
        self.sub_nodes.len()
    }

    /// The markdown checklist of this tree at `indent` levels (see
    /// `node_markdown`).
    pub fn to_markdown(&self, indent: usize) -> (s: String)
        requires
            indent + node_count(*self) <= usize::MAX,
        ensures
            s@ == node_markdown(*self, indent as nat),
        decreases self,
    {
        let mut prefix = String::new();
        let mut k: usize = 0;
        while k < indent
            invariant
                k <= indent,
                prefix@ == indentation(k as nat),
            decreases indent - k,
        {
            push_str(&mut prefix, "  ");
            k = k + 1;
        }
        let mut s = prefix.clone();
        match self.status {
            NodeStatus::Pending => push_str(&mut s, "- [ ]"),
            NodeStatus::InProgress => push_str(&mut s, "- [~]"),
            NodeStatus::Done => push_str(&mut s, "- [x]"),
            NodeStatus::Failed => push_str(&mut s, "- [!]"),
        }
        push_str(&mut s, " **");
        push_str(&mut s, self.title.as_str());
        push_str(&mut s, "**");
        if let Some(desc) = &self.description {
            push_str(&mut s, "\n");
            push_str(&mut s, prefix.as_str());
            push_str(&mut s, "  _");
            push_str(&mut s, desc.as_str());
            push_str(&mut s, "_");
        }
        let ghost base = s@;
        let ghost subs = self.sub_nodes@;
        proof {
            assert(forest_markdown(subs.take(0), indent as nat + 1) =~= Seq::<char>::empty()) by {
                assert(subs.take(0) =~= Seq::<PlanNode>::empty());
            }
            assert(base =~= base + forest_markdown(subs.take(0), indent as nat + 1));
        }
        let mut i: usize = 0;
        while i < self.sub_nodes.len()
            invariant
                subs == self.sub_nodes@,
                indent + node_count(*self) <= usize::MAX,
                i <= subs.len(),
                s@ == base + forest_markdown(subs.take(i as int), indent as nat + 1),
            decreases subs.len() - i,
        {
            proof {
                lemma_forest_markdown_step(subs, i as int, indent as nat + 1);
                lemma_forest_count_member(subs, i as int);
                assert(decreases_to!(*self => self.sub_nodes@[i as int]));
            }
            let sub = self.sub_nodes[i].to_markdown(indent + 1);
            push_str(&mut s, "\n");
            push_str(&mut s, sub.as_str());
            proof {
                assert(s@ =~= base + (forest_markdown(subs.take(i as int), indent as nat + 1) + "\n"@
                    + node_markdown(subs[i as int], indent as nat + 1)));
            }
            i = i + 1;
        }
        proof {
            assert(subs.take(subs.len() as int) =~= subs);
            assert(s@ =~= node_markdown(*self, indent as nat));
        }
        s
    }
}

} // verus!
