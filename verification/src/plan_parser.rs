//! Reading the agent's text: a markdown checklist becomes a plan tree, and a
//! "node complete" or "node failed" report becomes a title and a result.

use vstd::prelude::*;

use crate::plan::{NodeStatus, PlanNode};
use crate::plan_state::PlanState;
use crate::text::{
    char_is_whitespace, chars_of, chars_start_with, find_char, find_chars, index_of_char, is_ws,
    lemma_index_of_char_bounds, lines_of, occurs_at, starts_with, str_lines, string_of,
    string_of_range, trim, trim_chars, trim_range, trim_start,
};

verus! {

// ---------------------------------------------------------------------------
// Checklist lines
// ---------------------------------------------------------------------------

/// Number of UTF-8 bytes of a character.
pub open spec fn utf8_len(c: char) -> nat {
    if (c as u32) < 0x80 {
        1
    } else if (c as u32) < 0x800 {
        2
    } else if (c as u32) < 0x10000 {
        3
    } else {
        4
    }
}

/// UTF-8 length of the whitespace that starts `s`.
pub open spec fn leading_ws_bytes(s: Seq<char>) -> nat
    decreases s.len(),
{
    if s.len() > 0 && is_ws(s[0]) {
        utf8_len(s[0]) + leading_ws_bytes(s.drop_first())
    } else {
        0
    }
}

/// A checklist item: nesting level, status and title.
pub struct ItemSpec {
    pub level: nat,
    pub status: NodeStatus,
    pub title: Seq<char>,
}

/// The status and the rest of a trimmed line that starts with a checkbox.
pub open spec fn checkbox_of(t: Seq<char>) -> Option<NodeStatus> {
    if starts_with(t, "- [ ] "@) {
        Some(NodeStatus::Pending)
    } else if starts_with(t, "- [x] "@) || starts_with(t, "- [X] "@) {
        Some(NodeStatus::Done)
    } else if starts_with(t, "- [~] "@) {
        Some(NodeStatus::InProgress)
    } else if starts_with(t, "- [!] "@) {
        Some(NodeStatus::Failed)
    } else {
        None
    }
}

/// A title without one `**` at each end, trimmed.
pub open spec fn item_title(raw: Seq<char>) -> Seq<char> {
    let a = if starts_with(raw, "**"@) {
        raw.skip(2)
    } else {
        raw
    };
    let b = if a.len() >= 2 && a.skip(a.len() - 2) == "**"@ {
        a.take(a.len() - 2)
    } else {
        a
    };
    trim(b)
}

/// The checklist item a line holds, if any: the level is half the UTF-8
/// length of its indentation.
pub open spec fn item_of(line: Seq<char>) -> Option<ItemSpec> {
    let t = trim(line);
    match checkbox_of(t) {
        Some(st) => Some(
            ItemSpec {
                level: leading_ws_bytes(line) / 2,
                status: st,
                title: item_title(t.skip(6)),
            },
        ),
        None => None,
    }
}

/// The checklist items of `ls`, in order.
pub open spec fn items_of(ls: Seq<Seq<char>>) -> Seq<ItemSpec>
    decreases ls.len(),
{
    if ls.len() == 0 {
        Seq::empty()
    } else {
        items_of(ls.drop_last()) + match item_of(ls.last()) {
            Some(x) => seq![x],
            None => Seq::empty(),
        }
    }
}

/// The goal a line announces (`## Plan: goal` or `Plan: goal`), trimmed.
pub open spec fn goal_of(line: Seq<char>) -> Option<Seq<char>> {
    let t = trim(line);
    if starts_with(t, "## Plan:"@) {
        Some(trim(t.skip(8)))
    } else if starts_with(t, "Plan:"@) {
        Some(trim(t.skip(5)))
    } else {
        None
    }
}

// ---------------------------------------------------------------------------
// The tree
// ---------------------------------------------------------------------------

/// A parsed node: title, status and children.
pub struct NodeShape {
    pub title: Seq<char>,
    pub status: NodeStatus,
    pub kids: Seq<NodeShape>,
}

/// The first position at or after `j` whose item is not deeper than
/// `level`.
pub open spec fn child_end(items: Seq<ItemSpec>, level: nat, j: int) -> int
    decreases items.len() - j,
{
    if 0 <= j < items.len() && items[j].level > level {
        child_end(items, level, j + 1)
    } else {
        j
    }
}

/// `child_end` does not go back.
pub proof fn lemma_child_end(items: Seq<ItemSpec>, level: nat, j: int)
    requires
        0 <= j <= items.len(),
    ensures
        j <= child_end(items, level, j) <= items.len(),
        forall|k: int| j <= k < child_end(items, level, j) ==> #[trigger] items[k].level > level,
        child_end(items, level, j) < items.len() ==> items[child_end(items, level, j)].level <= level,
    decreases items.len() - j,
{
    if j < items.len() && items[j].level > level {
        lemma_child_end(items, level, j + 1);
    }
}

/// The nodes built from `items` starting at `i`, at `level`: each item at
/// that level becomes a node whose children are built one level deeper
/// from the deeper items that follow it.
pub open spec fn forest(items: Seq<ItemSpec>, level: nat, i: int) -> Seq<NodeShape>
    decreases items.len() - i,
{
    if 0 <= i < items.len() && items[i].level == level {
        let e = child_end(items, level, i + 1);
        proof {
            lemma_child_end(items, level, i + 1);
        }
        let kids = if i + 1 < e {
            forest(items, level + 1, i + 1)
        } else {
            Seq::empty()
        };
        seq![NodeShape { title: items[i].title, status: items[i].status, kids }] + forest(
            items,
            level,
            e,
        )
    } else {
        Seq::empty()
    }
}

/// `n` is the fresh node parsed as `sh`: same title, status and children,
/// nothing else set.
pub open spec fn node_parsed(n: PlanNode, sh: NodeShape) -> bool
    decreases n, 1nat,
{
    &&& n.title@ == sh.title
    &&& n.status == sh.status
    &&& n.description is None
    &&& n.completion_message is None
    &&& n.failure_reason is None
    &&& n.artifacts@.len() == 0
    &&& n.completed_at is None
    &&& forest_parsed(n.sub_nodes@, sh.kids)
}

/// Each node of `ns` is parsed as the shape at its position.
pub open spec fn forest_parsed(ns: Seq<PlanNode>, shs: Seq<NodeShape>) -> bool
    decreases ns, 0nat,
{
    &&& ns.len() == shs.len()
    &&& (ns.len() == 0 || (forest_parsed(
        ns.subrange(0, ns.len() - 1),
        shs.subrange(0, ns.len() - 1),
    ) && node_parsed(ns[ns.len() - 1], shs[ns.len() - 1])))
}

/// A checklist item.
struct ListItem {
    level: u128,
    status: NodeStatus,
    title: String,
}

/// The abstract value of an item.
spec fn item_view(it: ListItem) -> ItemSpec {
    ItemSpec { level: it.level as nat, status: it.status, title: it.title@ }
}

/// The abstract values of items.
spec fn items_view(its: Seq<ListItem>) -> Seq<ItemSpec> {
    its.map_values(|it: ListItem| item_view(it))
}

/// Builds the nodes at `level` from the items starting at `start`.
fn build_subtree(items: &Vec<ListItem>, level: u128, start: usize) -> (nodes: Vec<PlanNode>)
    requires
        level <= start <= items@.len(),
    ensures
        forest_parsed(nodes@, forest(items_view(items@), level as nat, start as int)),
    decreases items@.len() - start,
{
    let ghost iv = items_view(items@);
    let mut nodes: Vec<PlanNode> = Vec::new();
    let ghost mut done: Seq<NodeShape> = Seq::empty();
    let mut i = start;
    while i < items.len() && items[i].level == level
        invariant
            iv == items_view(items@),
            level <= start <= i <= items@.len(),
            forest_parsed(nodes@, done),
            done + forest(iv, level as nat, i as int) == forest(iv, level as nat, start as int),
        decreases items@.len() - i,
    {
        let child_start = i + 1;
        let mut end = child_start;
        while end < items.len() && items[end].level > level
            invariant
                iv == items_view(items@),
                child_start <= end <= items@.len(),
                child_end(iv, level as nat, child_start as int) == child_end(iv, level as nat, end as int),
            decreases items@.len() - end,
        {
            end = end + 1;
        }
        proof {
            lemma_child_end(iv, level as nat, child_start as int);
            assert(iv[i as int] == item_view(items@[i as int]));
        }
        let sub_nodes = if child_start < end {
            build_subtree(items, level + 1, child_start)
        } else {
            Vec::new()
        };
        let mut node = PlanNode::new(items[i].title.as_str()).status(items[i].status);
        node.sub_nodes = sub_nodes;
        let ghost sh = NodeShape {
            title: iv[i as int].title,
            status: iv[i as int].status,
            kids: if (child_start as int) < (end as int) {
                forest(iv, level as nat + 1, child_start as int)
            } else {
                Seq::empty()
            },
        };
        proof {
            assert(node.sub_nodes@ == sub_nodes@);
            if child_start >= end {
                assert(forest_parsed(node.sub_nodes@, sh.kids));
            }
            assert(node_parsed(node, sh));
            assert(forest(iv, level as nat, i as int) == seq![sh] + forest(
                iv,
                level as nat,
                end as int,
            ));
        }
        let ghost before = nodes@;
        nodes.push(node);
        proof {
            assert(nodes@.subrange(0, nodes@.len() - 1) =~= before);
            assert(done.push(sh).subrange(0, done.len() as int) =~= done);
            assert(forest_parsed(nodes@, done.push(sh)));
            assert(done.push(sh) + forest(iv, level as nat, end as int) =~= done + (seq![sh]
                + forest(iv, level as nat, end as int)));
            done = done.push(sh);
        }
        i = end;
    }
    proof {
        assert(forest(iv, level as nat, i as int) == Seq::<NodeShape>::empty());
        assert(done =~= forest(iv, level as nat, start as int));
    }
    nodes
}

// ---------------------------------------------------------------------------
// Reading lines
// ---------------------------------------------------------------------------

/// The UTF-8 length of a character.
pub fn char_utf8_len(c: char) -> (n: usize)
    ensures
        n == utf8_len(c),
{
    let u: u32 = c as u32;
    if u < 0x80 {
        1
    } else if u < 0x800 {
        2
    } else if u < 0x10000 {
        3
    } else {
        4
    }
}

/// The checklist item a line holds, if any (see `item_of`).
fn parse_item(line: &str) -> (r: Option<ListItem>)
    ensures
        match r {
            Some(it) => item_of(line@) == Some(item_view(it)),
            None => item_of(line@) is None,
        },
{
    let v = chars_of(line);
    let t = trim_chars(v.as_slice());
    let p_pending = chars_of("- [ ] ");
    let p_done = chars_of("- [x] ");
    let p_done2 = chars_of("- [X] ");
    let p_prog = chars_of("- [~] ");
    let p_fail = chars_of("- [!] ");
    proof {
        assert(t@.skip(0) =~= t@);
        reveal_strlit("- [ ] ");
        reveal_strlit("- [x] ");
        reveal_strlit("- [X] ");
        reveal_strlit("- [~] ");
        reveal_strlit("- [!] ");
    }
    let status = if chars_start_with(t.as_slice(), 0, p_pending.as_slice()) {
        NodeStatus::Pending
    } else if chars_start_with(t.as_slice(), 0, p_done.as_slice()) || chars_start_with(
        t.as_slice(),
        0,
        p_done2.as_slice(),
    ) {
        NodeStatus::Done
    } else if chars_start_with(t.as_slice(), 0, p_prog.as_slice()) {
        NodeStatus::InProgress
    } else if chars_start_with(t.as_slice(), 0, p_fail.as_slice()) {
        NodeStatus::Failed
    } else {
        return None;
    };
    proof {
        assert(checkbox_of(t@) == Some(status));
        assert(t@.len() >= 6);
    }
    // indentation, in UTF-8 bytes
    let mut bytes: u128 = 0;
    let mut k: usize = 0;
    proof {
        assert(v@.skip(0) =~= v@);
    }
    while k < v.len() && char_is_whitespace(v[k])
        invariant
            k <= v@.len(),
            bytes <= 4 * k,
            bytes + leading_ws_bytes(v@.skip(k as int)) == leading_ws_bytes(line@),
            v@ == line@,
        decreases v@.len() - k,
    {
        proof {
            assert(v@.skip(k as int).drop_first() =~= v@.skip(k + 1 as int));
        }
        bytes = bytes + char_utf8_len(v[k]) as u128;
        k = k + 1;
    }
    proof {
        if k < v@.len() {
            assert(!is_ws(v@.skip(k as int)[0]));
        }
    }
    // title
    let stars = chars_of("**");
    proof {
        reveal_strlit("**");
    }
    let a: usize = if chars_start_with(t.as_slice(), 6, stars.as_slice()) {
        8
    } else {
        6
    };
    let mut b: usize = t.len();
    if b >= a + 2 && chars_start_with(t.as_slice(), b - 2, stars.as_slice()) {
        b = b - 2;
    }
    proof {
        let raw = t@.skip(6);
        let aa = if starts_with(raw, "**"@) {
            raw.skip(2)
        } else {
            raw
        };
        assert(raw.take(2) =~= t@.skip(6).take(2));
        assert(aa =~= t@.subrange(a as int, t@.len() as int));
        if aa.len() >= 2 {
            assert(aa.skip(aa.len() - 2) =~= t@.skip(t@.len() - 2));
            assert(t@.skip(t@.len() - 2).take(2) =~= t@.skip(t@.len() - 2));
            assert(aa.take(aa.len() - 2) =~= t@.subrange(a as int, t@.len() - 2));
        }
        assert(t@.subrange(a as int, b as int) =~= (if aa.len() >= 2 && aa.skip(aa.len() - 2)
            == "**"@ {
            aa.take(aa.len() - 2)
        } else {
            aa
        }));
    }
    let title = trim_range(t.as_slice(), a, b);
    Some(ListItem { level: bytes / 2, status, title })
}

/// The goal a line announces, if any (see `goal_of`).
fn parse_goal_line(line: &str) -> (r: Option<String>)
    ensures
        match r {
            Some(g) => goal_of(line@) == Some(g@),
            None => goal_of(line@) is None,
        },
{
    let v = chars_of(line);
    let t = trim_chars(v.as_slice());
    let p1 = chars_of("## Plan:");
    let p2 = chars_of("Plan:");
    proof {
        reveal_strlit("## Plan:");
        reveal_strlit("Plan:");
        assert(t@.skip(0) =~= t@);
    }
    if chars_start_with(t.as_slice(), 0, p1.as_slice()) {
        let g = trim_range(t.as_slice(), 8, t.len());
        proof {
            assert(t@.subrange(8, t@.len() as int) =~= t@.skip(8));
        }
        return Some(g);
    }
    if chars_start_with(t.as_slice(), 0, p2.as_slice()) {
        let g = trim_range(t.as_slice(), 5, t.len());
        proof {
            assert(t@.subrange(5, t@.len() as int) =~= t@.skip(5));
        }
        return Some(g);
    }
    None
}

/// Whether `g` is the first line of `ls` that announces a goal.
pub open spec fn first_goal_line(ls: Seq<Seq<char>>, g: int) -> bool {
    &&& 0 <= g < ls.len()
    &&& goal_of(ls[g]) is Some
    &&& forall|j: int| 0 <= j < g ==> goal_of(#[trigger] ls[j]) is None
}

/// Parses the agent's plan: the first line announcing a goal (`## Plan:`
/// or `Plan:`) gives the goal, and the checklist lines after it the nodes.
/// Without such a line there is no plan.
pub fn parse_plan_from_markdown(text: &str) -> (r: Option<PlanState>)
    ensures
        match r {
            None => forall|j: int| 0 <= j < lines_of(text@).len() ==> goal_of(#[trigger] lines_of(text@)[j]) is None,
            Some(p) => exists|g: int|
                first_goal_line(lines_of(text@), g) && goal_of(lines_of(text@)[g]) == Some(p.goal@)
                    && forest_parsed(p.nodes@, forest(items_of(lines_of(text@).skip(g + 1)), 0, 0)),
        },
{
    let lines = str_lines(text);
    let ghost ls = lines@.map_values(|l: String| l@);
    let mut g: usize = 0;
    while g < lines.len()
        invariant
            ls == lines@.map_values(|l: String| l@),
            ls == lines_of(text@),
            g <= ls.len(),
            forall|j: int| 0 <= j < g ==> goal_of(#[trigger] ls[j]) is None,
        ensures
            g <= ls.len(),
            forall|j: int| 0 <= j < g ==> goal_of(#[trigger] ls[j]) is None,
            g < ls.len() ==> goal_of(ls[g as int]) is Some,
        decreases ls.len() - g,
    {
        proof {
            assert(ls[g as int] == lines@[g as int]@);
        }
        if parse_goal_line(lines[g].as_str()).is_some() {
            break;
        }
        g = g + 1;
    }
    if g == lines.len() {
        return None;
    }
    proof {
        assert(ls[g as int] == lines@[g as int]@);
    }
    let goal = match parse_goal_line(lines[g].as_str()) {
        Some(x) => x,
        None => {
            return None;
        },
    };
    let mut state = PlanState::new(goal.as_str());
    let ghost rest = ls.skip(g + 1);
    let mut items: Vec<ListItem> = Vec::new();
    let mut k: usize = g + 1;
    proof {
        assert(rest.take(0) =~= Seq::<Seq<char>>::empty());
        assert(items_view(items@) =~= Seq::<ItemSpec>::empty());
    }
    while k < lines.len()
        invariant
            ls == lines@.map_values(|l: String| l@),
            g < ls.len(),
            rest == ls.skip(g + 1),
            g + 1 <= k <= ls.len(),
            items_view(items@) == items_of(rest.take(k - g - 1)),
        decreases ls.len() - k,
    {
        let item = parse_item(lines[k].as_str());
        proof {
            assert(ls[k as int] == lines@[k as int]@);
            assert(rest.take(k - g) =~= rest.take(k - g - 1).push(ls[k as int]));
            assert(rest.take(k - g).drop_last() =~= rest.take(k - g - 1));
        }
        let ghost before = items@;
        match item {
            Some(it) => {
                items.push(it);
                proof {
                    assert(items_view(items@) =~= items_view(before).push(item_view(items@[items@.len() - 1])));
                }
            },
            None => {
                proof {
                    assert(items_view(items@) =~= items_view(before) + Seq::<ItemSpec>::empty());
                }
            },
        }
        k = k + 1;
    }
    proof {
        assert(rest.take(ls.len() - g - 1) =~= rest);
    }
    proof {
        assert(first_goal_line(ls, g as int));
        assert(goal_of(ls[g as int]) == Some(state.goal@));
        assert(items_view(items@) == items_of(ls.skip(g + 1)));
    }
    if items.len() == 0 {
        proof {
            assert(forest(items_view(items@), 0, 0) =~= Seq::<NodeShape>::empty());
            assert(state.nodes@.len() == 0);
            assert(forest_parsed(state.nodes@, forest(items_of(ls.skip(g + 1)), 0, 0)));
        }
        return Some(state);
    }
    state.nodes = build_subtree(&items, 0, 0);
    proof {
        assert(forest_parsed(state.nodes@, forest(items_of(ls.skip(g + 1)), 0, 0)));
    }
    Some(state)
}

// ---------------------------------------------------------------------------
// Node reports
// ---------------------------------------------------------------------------

/// The first position at or after `i` where `p` occurs in `s`, or -1.
pub open spec fn find_from(s: Seq<char>, p: Seq<char>, i: int) -> int
    decreases s.len() + 1 - i,
{
    if i < 0 || i + p.len() > s.len() {
        -1
    } else if occurs_at(s, p, i) {
        i
    } else {
        find_from(s, p, i + 1)
    }
}

/// The first position where `p` occurs in `s`, or -1.
pub open spec fn find_seq(s: Seq<char>, p: Seq<char>) -> int {
    find_from(s, p, 0)
}

/// `find_from` is the first occurrence.
pub proof fn lemma_find_from(s: Seq<char>, p: Seq<char>, from: int, i: int)
    requires
        0 <= from <= i,
        forall|j: int| from <= j < i ==> !occurs_at(s, p, j),
        i + p.len() > s.len() || occurs_at(s, p, i),
    ensures
        find_from(s, p, from) == (if i + p.len() > s.len() && !occurs_at(s, p, i) {
            -1
        } else {
            i
        }),
    decreases i - from,
{
    if from < i {
        lemma_find_from(s, p, from + 1, i);
    } else if i + p.len() > s.len() && !occurs_at(s, p, i) {
    }
}

/// Finds `p` in `v` from `from` (see `find_from`).
pub fn find_in(v: &[char], p: &[char], from: usize) -> (r: Option<usize>)
    requires
        from <= v@.len(),
    ensures
        match r {
            Some(i) => find_from(v@, p@, from as int) == i,
            None => find_from(v@, p@, from as int) == -1,
        },
{
    let r = find_chars(v, p, from);
    proof {
        match r {
            Some(i) => {
                lemma_find_from(v@, p@, from as int, i as int);
            },
            None => {
                let k = if v@.len() + 1 >= p@.len() + from {
                    v@.len() + 1 - p@.len()
                } else {
                    from as int
                };
                lemma_find_from(v@, p@, from as int, k);
            },
        }
    }
    r
}

/// The first whitespace-separated word of `s`, or nothing.
pub open spec fn first_word(s: Seq<char>) -> Seq<char> {
    let t = trim_start(s);
    t.take(first_ws(t, 0))
}

/// The first position at or after `i` holding whitespace, or the length.
pub open spec fn first_ws(t: Seq<char>, i: int) -> int
    decreases t.len() - i,
{
    if i < 0 || i >= t.len() {
        t.len() as int
    } else if is_ws(t[i]) {
        i
    } else {
        first_ws(t, i + 1)
    }
}

/// The title of a node report: between the first `**` and the next, else
/// between the first `'` and the next, else its first word.
pub open spec fn report_title(s: Seq<char>) -> Seq<char> {
    let a = find_seq(s, "**"@);
    let b = if a >= 0 {
        find_seq(s.skip(a + 2), "**"@)
    } else {
        -1
    };
    let q = index_of_char(s, '\'');
    let r = if q >= 0 {
        index_of_char(s.skip(q + 1), '\'')
    } else {
        -1
    };
    if a >= 0 && b >= 0 {
        s.subrange(a + 2, a + 2 + b)
    } else if q >= 0 && r >= 0 {
        s.subrange(q + 1, q + 1 + r)
    } else {
        first_word(s)
    }
}

/// The value after `field:` in `s`, up to an em dash, trimmed; nothing when
/// the field is missing or its value empty.
pub open spec fn report_field(s: Seq<char>, field: Seq<char>) -> Option<Seq<char>> {
    let marker = field + ":"@;
    let pos = find_seq(s, marker);
    if pos < 0 {
        None
    } else {
        let after = s.skip(pos + marker.len());
        let end = index_of_char(after, '\u{2014}');
        let value = trim(
            if end < 0 {
                after
            } else {
                after.take(end)
            },
        );
        if value.len() > 0 {
            Some(value)
        } else {
            None
        }
    }
}

/// The first of two optional values that is present.
pub open spec fn or_else(a: Option<Seq<char>>, b: Option<Seq<char>>) -> Option<Seq<char>> {
    match a {
        Some(x) => Some(x),
        None => b,
    }
}

/// The rest of a report after its heading, trimmed, and the field names of
/// its result: `Some` for a completion or failure report.
pub open spec fn report_parts(message: Seq<char>) -> Option<(Seq<char>, Seq<char>, Seq<char>)> {
    if starts_with(message, "### Node Complete:"@) {
        Some((trim(message.skip(18)), "result"@, "Result"@))
    } else if starts_with(message, "### Node Failed:"@) {
        Some((trim(message.skip(16)), "reason"@, "Reason"@))
    } else {
        None
    }
}

/// Whether reading the report reaches the em dash fallback with an em dash
/// present (where reading fails).
pub open spec fn report_unreadable(message: Seq<char>) -> bool {
    match report_parts(message) {
        Some((rest, f1, f2)) => report_field(rest, f1) is None && report_field(rest, f2) is None
            && rest.contains('\u{2014}'),
        None => false,
    }
}

/// What a node report gives: its title and its result (or reason).
pub open spec fn node_report(message: Seq<char>) -> Option<(Seq<char>, Seq<char>)> {
    match report_parts(message) {
        Some((rest, f1, f2)) => match or_else(report_field(rest, f1), report_field(rest, f2)) {
            Some(v) => Some((report_title(rest), v)),
            None => None,
        },
        None => None,
    }
}

/// The title of a report (see `report_title`).
fn extract_title(s: &[char]) -> (t: String)
    ensures
        t@ == report_title(s@),
{
    let stars = chars_of("**");
    proof {
        reveal_strlit("**");
    }
    if let Some(a) = find_in(s, stars.as_slice(), 0) {
        proof {
            lemma_find_from_bounds(s@, "**"@, 0);
            assert(occurs_at(s@, "**"@, a as int));
            assert("**"@.len() == 2);
            assert(a + 2 <= s@.len());
        }
        assert(a + 2 <= s.len());
        if let Some(b) = find_in(s, stars.as_slice(), a + 2) {
            proof {
                lemma_find_from_shift(s@, "**"@, a + 2);
                lemma_find_from_bounds(s@, "**"@, a + 2);
            }
            return string_of_range(s, a + 2, b);
        }
        proof {
            lemma_find_from_shift(s@, "**"@, a + 2);
        }
    }
    if let Some(q) = find_char(s, '\'', 0) {
        proof {
            assert(s@.skip(0) =~= s@);
            lemma_index_of_char_bounds(s@, '\'');
        }
        assert(q < s.len());
        if let Some(r) = find_char(s, '\'', q + 1) {
            return string_of_range(s, q + 1, r);
        }
    } else {
        proof {
            assert(s@.skip(0) =~= s@);
        }
    }
    // the first word
    let mut i: usize = 0;
    while i < s.len() && char_is_whitespace(s[i])
        invariant
            i <= s@.len(),
            trim_start(s@.skip(i as int)) == trim_start(s@),
        decreases s@.len() - i,
    {
        proof {
            assert(s@.skip(i as int).skip(1) =~= s@.skip(i + 1 as int));
        }
        i = i + 1;
    }
    proof {
        if i == 0 {
            assert(s@.skip(0) =~= s@);
        }
        assert(trim_start(s@.skip(i as int)) == s@.skip(i as int));
    }
    let ghost t = s@.skip(i as int);
    let mut j: usize = i;
    while j < s.len() && !char_is_whitespace(s[j])
        invariant
            i <= j <= s@.len(),
            t == s@.skip(i as int),
            first_ws(t, 0) == first_ws(t, j - i),
        decreases s@.len() - j,
    {
        j = j + 1;
    }
    proof {
        assert(first_ws(t, j - i) == j - i);
        assert(t.take(j - i) =~= s@.subrange(i as int, j as int));
    }
    string_of_range(s, i, j)
}

/// `find_from` stays in range and finds an occurrence.
pub proof fn lemma_find_from_bounds(s: Seq<char>, p: Seq<char>, i: int)
    requires
        i >= 0,
    ensures
        find_from(s, p, i) == -1 || (i <= find_from(s, p, i) && occurs_at(s, p, find_from(s, p, i))),
    decreases s.len() + 1 - i,
{
    if i + p.len() <= s.len() && !occurs_at(s, p, i) {
        lemma_find_from_bounds(s, p, i + 1);
    }
}

/// Searching from `k` is searching the suffix from 0, shifted by `k`.
pub proof fn lemma_find_from_shift(s: Seq<char>, p: Seq<char>, k: int)
    requires
        0 <= k <= s.len(),
    ensures
        find_from(s, p, k) == (if find_seq(s.skip(k), p) < 0 {
            -1
        } else {
            find_seq(s.skip(k), p) + k
        }),
{
    lemma_find_from_shift_at(s, p, k, 0);
}

proof fn lemma_find_from_shift_at(s: Seq<char>, p: Seq<char>, k: int, j: int)
    requires
        0 <= k <= s.len(),
        0 <= j,
    ensures
        find_from(s, p, k + j) == (if find_from(s.skip(k), p, j) < 0 {
            -1
        } else {
            find_from(s.skip(k), p, j) + k
        }),
    decreases s.len() + 1 - k - j,
{
    let t = s.skip(k);
    if k + j + p.len() <= s.len() {
        assert(occurs_at(s, p, k + j) == occurs_at(t, p, j)) by {
            if j + p.len() <= t.len() {
                assert(s.subrange(k + j, k + j + p.len()) =~= t.subrange(j, j + p.len()));
            }
        }
        if !occurs_at(s, p, k + j) {
            lemma_find_from_shift_at(s, p, k, j + 1);
        }
    }
}

/// The value of a report field (see `report_field`).
fn extract_field(s: &[char], field: &str) -> (r: Option<String>)
    ensures
        match r {
            Some(v) => report_field(s@, field@) == Some(v@),
            None => report_field(s@, field@) is None,
        },
{
    let mut marker = field.to_owned();
    crate::platform::push_str(&mut marker, ":");
    let m = chars_of(marker.as_str());
    match find_in(s, m.as_slice(), 0) {
        Some(pos) => {
            proof {
                lemma_find_from_bounds(s@, m@, 0);
                assert(occurs_at(s@, m@, pos as int));
            }
            assert(pos + m.len() <= s.len());
            let start = pos + m.len();
            let end = match find_char(s, '\u{2014}', start) {
                Some(e) => e,
                None => s.len(),
            };
            let value = trim_range(s, start, end);
            proof {
                let after = s@.skip(start as int);
                if end < s@.len() {
                    assert(after.take(end - start) =~= s@.subrange(start as int, end as int));
                } else {
                    assert(after =~= s@.subrange(start as int, end as int));
                }
            }
            if value.as_str().unicode_len() > 0 {
                Some(value)
            } else {
                None
            }
        },
        None => None,
    }
}

/// Reads an agent's node report: `### Node Complete: ...` with a
/// `result:` (or `Result:`) field, or `### Node Failed: ...` with a
/// `reason:` (or `Reason:`) field, giving the node's title and that value.
/// A report without such a field but with an em dash cannot be read.
pub fn parse_node_complete(message: &str) -> (r: Option<(String, String)>)
    requires
        !report_unreadable(message@),
    ensures
        match r {
            Some((t, v)) => node_report(message@) == Some((t@, v@)),
            None => node_report(message@) is None,
        },
{
    let v = chars_of(message);
    let p_done = chars_of("### Node Complete:");
    let p_fail = chars_of("### Node Failed:");
    proof {
        reveal_strlit("### Node Complete:");
        reveal_strlit("### Node Failed:");
        reveal_strlit("result");
        reveal_strlit("Result");
        reveal_strlit("reason");
        reveal_strlit("Reason");
        assert(v@.skip(0) =~= v@);
    }
    let (skip, f1, f2): (usize, &str, &str) = if chars_start_with(v.as_slice(), 0, p_done.as_slice()) {
        (18, "result", "Result")
    } else if chars_start_with(v.as_slice(), 0, p_fail.as_slice()) {
        (16, "reason", "Reason")
    } else {
        return None;
    };
    let rest_s = trim_range(v.as_slice(), skip, v.len());
    proof {
        assert(v@.subrange(skip as int, v@.len() as int) =~= v@.skip(skip as int));
    }
    let rest = chars_of(rest_s.as_str());
    let value = match extract_field(rest.as_slice(), f1) {
        Some(x) => Some(x),
        None => extract_field(rest.as_slice(), f2),
    };
    match value {
        Some(val) => {
            let title = extract_title(rest.as_slice());
            Some((title, val))
        },
        None => {
            proof {
                assert(!rest@.contains('\u{2014}'));
            }
            None
        },
    }
}

/// Whether a node report can be read (see `report_unreadable`).
pub fn node_report_readable(message: &str) -> (b: bool)
    ensures
        b == !report_unreadable(message@),
{
    let v = chars_of(message);
    let p_done = chars_of("### Node Complete:");
    let p_fail = chars_of("### Node Failed:");
    proof {
        reveal_strlit("### Node Complete:");
        reveal_strlit("### Node Failed:");
        reveal_strlit("result");
        reveal_strlit("Result");
        reveal_strlit("reason");
        reveal_strlit("Reason");
        assert(v@.skip(0) =~= v@);
    }
    let (skip, f1, f2): (usize, &str, &str) = if chars_start_with(v.as_slice(), 0, p_done.as_slice()) {
        (18, "result", "Result")
    } else if chars_start_with(v.as_slice(), 0, p_fail.as_slice()) {
        (16, "reason", "Reason")
    } else {
        return true;
    };
    let rest_s = trim_range(v.as_slice(), skip, v.len());
    proof {
        assert(v@.subrange(skip as int, v@.len() as int) =~= v@.skip(skip as int));
    }
    let rest = chars_of(rest_s.as_str());
    if extract_field(rest.as_slice(), f1).is_some() || extract_field(rest.as_slice(), f2).is_some() {
        return true;
    }
    let has_dash = find_char(rest.as_slice(), '\u{2014}', 0).is_some();
    proof {
        assert(rest@.skip(0) =~= rest@);
        lemma_index_of_char_bounds(rest@, '\u{2014}');
        if has_dash {
            let i = index_of_char(rest@, '\u{2014}');
            assert(rest@[i] == '\u{2014}');
        }
    }
    !has_dash
}

} // verus!
