//! Query-plan trees and the indentation-text plan format.
use vstd::prelude::*;
use crate::numeric::{zero_decimal, Decimal};
use crate::plan_text::{
    line_costs, line_operator, line_relation, line_rows, line_width, parse_operator_line,
    split_lines, strip_arrows, text_lines, views, LineFields,
};
use crate::text::{chars_of, leading_ws, count_leading_ws, trim, trim_chars};

verus! {

/// A node of a query plan tree.
#[derive(Debug)]
pub struct PlanNode {
    pub operator: String,
    pub relation: Option<String>,
    pub cost_startup: Decimal,
    pub cost_total: Decimal,
    pub estimated_rows: u64,
    pub actual_rows: Option<u64>,
    pub actual_time_ms: Option<Decimal>,
    pub width: u32,
    pub children: Vec<PlanNode>,
    pub extra: Vec<(String, String)>,
}

/// The mathematical value of a plan node.
pub struct PlanTree {
    pub operator: Seq<char>,
    pub relation: Option<Seq<char>>,
    pub cost_startup: Decimal,
    pub cost_total: Decimal,
    pub estimated_rows: u64,
    pub actual_rows: Option<u64>,
    pub actual_time_ms: Option<Decimal>,
    pub width: u32,
    pub children: Seq<PlanTree>,
    pub extra: Seq<(Seq<char>, Seq<char>)>,
}

pub open spec fn opt_view(s: Option<String>) -> Option<Seq<char>> {
    match s {
        Some(v) => Some(v@),
        None => None,
    }
}

impl PlanNode {
    pub open spec fn tree(&self) -> PlanTree
        decreases self,
    {
        PlanTree {
            operator: self.operator@,
            relation: opt_view(self.relation),
            cost_startup: self.cost_startup,
            cost_total: self.cost_total,
            estimated_rows: self.estimated_rows,
            actual_rows: self.actual_rows,
            actual_time_ms: self.actual_time_ms,
            width: self.width,
            children: Seq::new(
                self.children@.len(),
                |i: int|
                    if 0 <= i < self.children@.len() {
                        self.children@[i].tree()
                    } else {
                        leaf_tree()
                    },
            ),
            extra: self.extra@.map_values(|p: (String, String)| (p.0@, p.1@)),
        }
    }
}

pub open spec fn leaf_tree() -> PlanTree {
    PlanTree {
        operator: seq![],
        relation: None,
        cost_startup: zero_decimal(),
        cost_total: zero_decimal(),
        estimated_rows: 0,
        actual_rows: None,
        actual_time_ms: None,
        width: 0,
        children: seq![],
        extra: seq![],
    }
}

pub open spec fn trees(v: Seq<PlanNode>) -> Seq<PlanTree> {
    Seq::new(v.len(), |i: int| v[i].tree())
}

/// The text of a line with its indentation, surrounding whitespace and
/// leading `-> ` markers removed.
pub open spec fn line_body(line: Seq<char>) -> Seq<char> {
    strip_arrows(trim(line))
}

/// The node that a line describes, with the given children.
pub open spec fn line_node(line: Seq<char>, children: Seq<PlanTree>) -> PlanTree {
    let b = line_body(line);
    PlanTree {
        operator: line_operator(b),
        relation: line_relation(b),
        cost_startup: line_costs(b).0,
        cost_total: line_costs(b).1,
        estimated_rows: line_rows(b),
        actual_rows: None,
        actual_time_ms: None,
        width: line_width(b),
        children,
        extra: seq![],
    }
}

/// The subtree rooted at line `start`, and the index of the first line after it.
pub open spec fn subtree_at(lines: Seq<Seq<char>>, start: int) -> (PlanTree, int)
    decreases lines.len() + 1 - start, 1int,
{
    if start < 0 || start >= lines.len() {
        (leaf_tree(), start)
    } else {
        let (kids, end) = children_at(lines, start, start + 1);
        (line_node(lines[start], kids), end)
    }
}

/// The children of line `parent` that begin at line `idx`: each line indented
/// more deeply than the parent starts one child subtree, and the first line
/// indented no more deeply ends the list. Also the index where the list ends.
pub open spec fn children_at(lines: Seq<Seq<char>>, parent: int, idx: int) -> (Seq<PlanTree>, int)
    decreases lines.len() + 1 - idx, 2int,
{
    if idx < 0 || idx >= lines.len() || parent < 0 || parent >= lines.len() || leading_ws(
        lines[idx],
    ) <= leading_ws(lines[parent]) {
        (seq![], idx)
    } else {
        let (c, next) = subtree_at(lines, idx);
        if next <= idx || next > lines.len() {
            (seq![c], idx)
        } else {
            let (rest, end) = children_at(lines, parent, next);
            (seq![c] + rest, end)
        }
    }
}

/// The tree of an indentation-text plan: the subtree of its first line.
pub open spec fn text_plan(text: Seq<char>) -> Option<PlanTree> {
    let lines = text_lines(text);
    if lines.len() == 0 {
        None
    } else {
        Some(subtree_at(lines, 0).0)
    }
}

pub proof fn lemma_subtree_range(lines: Seq<Seq<char>>, start: int)
    requires
        0 <= start < lines.len(),
    ensures
        start < subtree_at(lines, start).1 <= lines.len(),
    decreases lines.len() + 1 - start, 1int,
{
    lemma_children_range(lines, start, start + 1);
}

pub proof fn lemma_children_range(lines: Seq<Seq<char>>, parent: int, idx: int)
    requires
        0 <= parent < lines.len(),
        0 <= idx <= lines.len(),
    ensures
        idx <= children_at(lines, parent, idx).1 <= lines.len(),
    decreases lines.len() + 1 - idx, 2int,
{
    if idx < lines.len() && leading_ws(lines[idx]) > leading_ws(lines[parent]) {
        lemma_subtree_range(lines, idx);
        let next = subtree_at(lines, idx).1;
        lemma_children_range(lines, parent, next);
    }
}

/// The first line at or after `k` that is indented no more deeply than
/// line `p`, or the number of lines.
pub open spec fn depth_end(lines: Seq<Seq<char>>, p: int, k: int) -> int
    decreases lines.len() - k,
{
    if 0 <= k < lines.len() && leading_ws(lines[k]) > leading_ws(lines[p]) {
        depth_end(lines, p, k + 1)
    } else {
        k
    }
}

proof fn lemma_depth_end_props(lines: Seq<Seq<char>>, p: int, i: int)
    requires
        0 <= p < lines.len(),
        0 <= i <= lines.len(),
    ensures
        i <= depth_end(lines, p, i) <= lines.len(),
        forall|k: int|
            i <= k < depth_end(lines, p, i) ==> leading_ws(#[trigger] lines[k]) > leading_ws(
                lines[p],
            ),
        depth_end(lines, p, i) < lines.len() ==> leading_ws(lines[depth_end(lines, p, i)])
            <= leading_ws(lines[p]),
    decreases lines.len() - i,
{
    if i < lines.len() && leading_ws(lines[i]) > leading_ws(lines[p]) {
        lemma_depth_end_props(lines, p, i + 1);
    }
}

proof fn lemma_depth_end_skip(lines: Seq<Seq<char>>, p: int, i: int, j: int)
    requires
        0 <= p < lines.len(),
        0 <= i <= j <= lines.len(),
        forall|k: int| i <= k < j ==> leading_ws(#[trigger] lines[k]) > leading_ws(lines[p]),
    ensures
        depth_end(lines, p, i) == depth_end(lines, p, j),
    decreases j - i,
{
    if i < j {
        lemma_depth_end_skip(lines, p, i + 1, j);
    }
}

/// In indentation text, the subtree of line `a` ends exactly at the first
/// later line indented no more deeply than `a`: every line in between, being
/// indented more deeply, is parsed into the subtree of `a`, and that first
/// shallower-or-equal line terminates it.
pub proof fn lemma_subtree_extent(lines: Seq<Seq<char>>, a: int)
    requires
        0 <= a < lines.len(),
    ensures
        subtree_at(lines, a).1 == depth_end(lines, a, a + 1),
    decreases lines.len() + 1 - a, 1int,
{
    lemma_children_extent(lines, a, a + 1);
}

proof fn lemma_children_extent(lines: Seq<Seq<char>>, p: int, idx: int)
    requires
        0 <= p < lines.len(),
        p < idx <= lines.len(),
    ensures
        children_at(lines, p, idx).1 == depth_end(lines, p, idx),
    decreases lines.len() + 1 - idx, 2int,
{
    if idx < lines.len() && leading_ws(lines[idx]) > leading_ws(lines[p]) {
        lemma_subtree_range(lines, idx);
        lemma_subtree_extent(lines, idx);
        let next = subtree_at(lines, idx).1;
        lemma_depth_end_props(lines, idx, idx + 1);
        assert forall|k: int| idx <= k < next implies leading_ws(#[trigger] lines[k]) > leading_ws(
            lines[p],
        ) by {
            if k > idx {
                assert(leading_ws(lines[k]) > leading_ws(lines[idx]));
            }
        }
        lemma_depth_end_skip(lines, p, idx, next);
        lemma_children_extent(lines, p, next);
    }
}

/// The lines at which the children of line `parent` start, from line `idx`
/// on: the lines at which `children_at` begins each child subtree.
pub open spec fn child_starts(lines: Seq<Seq<char>>, parent: int, idx: int) -> Seq<int>
    decreases lines.len() + 1 - idx,
{
    if idx < 0 || idx >= lines.len() || parent < 0 || parent >= lines.len() || leading_ws(
        lines[idx],
    ) <= leading_ws(lines[parent]) {
        seq![]
    } else {
        let next = subtree_at(lines, idx).1;
        if next <= idx || next > lines.len() {
            seq![idx]
        } else {
            seq![idx] + child_starts(lines, parent, next)
        }
    }
}

/// The children that `children_at` gives are the subtrees at the starts that
/// `child_starts` gives.
proof fn lemma_child_starts(lines: Seq<Seq<char>>, parent: int, idx: int)
    requires
        0 <= parent < lines.len(),
        0 <= idx <= lines.len(),
    ensures
        children_at(lines, parent, idx).0.len() == child_starts(lines, parent, idx).len(),
        forall|k: int|
            0 <= k < child_starts(lines, parent, idx).len() ==> children_at(lines, parent, idx).0[k]
                == subtree_at(lines, #[trigger] child_starts(lines, parent, idx)[k]).0,
    decreases lines.len() + 1 - idx,
{
    if idx < lines.len() && leading_ws(lines[idx]) > leading_ws(lines[parent]) {
        lemma_subtree_range(lines, idx);
        let next = subtree_at(lines, idx).1;
        lemma_child_starts(lines, parent, next);
        let cs = child_starts(lines, parent, idx);
        let ch = children_at(lines, parent, idx).0;
        assert forall|k: int| 0 <= k < cs.len() implies ch[k] == subtree_at(
            lines,
            #[trigger] cs[k],
        ).0 by {
            if k > 0 {
                assert(cs[k] == child_starts(lines, parent, next)[k - 1]);
                assert(ch[k] == children_at(lines, parent, next).0[k - 1]);
            }
        }
    }
}

/// The subtree of line `idx` ends no later than a later line `j` indented
/// no more deeply than `idx`.
proof fn lemma_depth_end_before(lines: Seq<Seq<char>>, idx: int, i: int, j: int)
    requires
        0 <= idx < lines.len(),
        0 <= i <= j < lines.len(),
        leading_ws(lines[j]) <= leading_ws(lines[idx]),
    ensures
        depth_end(lines, idx, i) <= j,
    decreases j - i,
{
    if i < j && leading_ws(lines[i]) > leading_ws(lines[idx]) {
        lemma_depth_end_before(lines, idx, i + 1, j);
    }
}

proof fn lemma_child_start_reached(lines: Seq<Seq<char>>, p: int, idx: int, j: int)
    requires
        0 <= p < idx <= j < lines.len(),
        leading_ws(lines[j]) > leading_ws(lines[p]),
        forall|k: int| idx <= k < j ==> leading_ws(#[trigger] lines[k]) >= leading_ws(lines[j]),
    ensures
        child_starts(lines, p, idx).contains(j),
    decreases j - idx,
{
    let cs = child_starts(lines, p, idx);
    if idx == j {
        assert(cs[0] == j);
    } else {
        assert(leading_ws(lines[idx]) >= leading_ws(lines[j]));
        lemma_subtree_range(lines, idx);
        lemma_subtree_extent(lines, idx);
        lemma_depth_end_before(lines, idx, idx + 1, j);
        let next = subtree_at(lines, idx).1;
        lemma_child_start_reached(lines, p, next, j);
        let rest = child_starts(lines, p, next);
        let m = choose|m: int| 0 <= m < rest.len() && rest[m] == j;
        assert(cs[m + 1] == j);
    }
}

/// In indentation text, a line `j` belongs directly under the nearest line
/// `p` above it that is indented less (every line between them is indented
/// at least as deeply as `j`): the subtree of `j` is one of the children of
/// the node of `p`.
pub proof fn lemma_parent_line(lines: Seq<Seq<char>>, p: int, j: int)
    requires
        0 <= p < j < lines.len(),
        leading_ws(lines[p]) < leading_ws(lines[j]),
        forall|k: int| p < k < j ==> leading_ws(#[trigger] lines[k]) >= leading_ws(lines[j]),
    ensures
        exists|c: int|
            0 <= c < subtree_at(lines, p).0.children.len() && subtree_at(lines, p).0.children[c]
                == subtree_at(lines, j).0,
{
    lemma_child_start_reached(lines, p, p + 1, j);
    lemma_child_starts(lines, p, p + 1);
    let cs = child_starts(lines, p, p + 1);
    let c = choose|c: int| 0 <= c < cs.len() && cs[c] == j;
    assert(subtree_at(lines, p).0.children[c] == subtree_at(lines, j).0);
}

/// The node reached from `t` by following child indices `path`.
pub open spec fn follow(t: PlanTree, path: Seq<int>) -> Option<PlanTree>
    decreases path.len(),
{
    if path.len() == 0 {
        Some(t)
    } else if 0 <= path[0] < t.children.len() {
        follow(t.children[path[0]], path.skip(1))
    } else {
        None
    }
}

proof fn lemma_follow_push(t: PlanTree, path: Seq<int>, c: int)
    requires
        follow(t, path) is Some,
        0 <= c < follow(t, path)->Some_0.children.len(),
    ensures
        follow(t, path.push(c)) == Some(follow(t, path)->Some_0.children[c]),
    decreases path.len(),
{
    if path.len() > 0 {
        assert(path.push(c).skip(1) =~= path.skip(1).push(c));
        assert(path.push(c)[0] == path[0]);
        lemma_follow_push(t.children[path[0]], path.skip(1), c);
    } else {
        assert(path.push(c).skip(1) =~= Seq::<int>::empty());
        assert(path.push(c)[0] == c);
        assert(follow(t.children[c], Seq::<int>::empty()) == Some(t.children[c]));
    }
}

/// The nearest line before `k + 1` (at or after `a`) indented less than line `j`.
pub open spec fn shallower_before(lines: Seq<Seq<char>>, a: int, j: int, k: int) -> int
    decreases k - a,
{
    if k <= a || leading_ws(lines[k]) < leading_ws(lines[j]) {
        k
    } else {
        shallower_before(lines, a, j, k - 1)
    }
}

proof fn lemma_shallower_before(lines: Seq<Seq<char>>, a: int, j: int, k: int)
    requires
        0 <= a <= k < j < lines.len(),
        leading_ws(lines[a]) < leading_ws(lines[j]),
        forall|m: int| k < m < j ==> leading_ws(#[trigger] lines[m]) >= leading_ws(lines[j]),
    ensures
        a <= shallower_before(lines, a, j, k) <= k,
        leading_ws(lines[shallower_before(lines, a, j, k)]) < leading_ws(lines[j]),
        forall|m: int|
            shallower_before(lines, a, j, k) < m < j ==> leading_ws(#[trigger] lines[m])
                >= leading_ws(lines[j]),
    decreases k - a,
{
    if k > a && leading_ws(lines[k]) >= leading_ws(lines[j]) {
        lemma_shallower_before(lines, a, j, k - 1);
    }
}

/// In indentation text, every line after line `a` and before the first later
/// line indented no more deeply than `a` is parsed into the subtree of `a`:
/// its subtree is reached from that of `a` along a path of children.
pub proof fn lemma_descendant_line(lines: Seq<Seq<char>>, a: int, j: int) -> (path: Seq<int>)
    requires
        0 <= a < j < depth_end(lines, a, a + 1),
        depth_end(lines, a, a + 1) <= lines.len(),
    ensures
        path.len() > 0,
        follow(subtree_at(lines, a).0, path) == Some(subtree_at(lines, j).0),
    decreases j - a,
{
    lemma_depth_end_props(lines, a, a + 1);
    assert(leading_ws(lines[j]) > leading_ws(lines[a]));
    lemma_shallower_before(lines, a, j, j - 1);
    let p = shallower_before(lines, a, j, j - 1);
    lemma_parent_line(lines, p, j);
    let c = choose|c: int|
        0 <= c < subtree_at(lines, p).0.children.len() && subtree_at(lines, p).0.children[c]
            == subtree_at(lines, j).0;
    if p == a {
        lemma_follow_push(subtree_at(lines, a).0, seq![], c);
        assert(seq![].push(c) =~= seq![c]);
        seq![c]
    } else {
        let up = lemma_descendant_line(lines, a, p);
        lemma_follow_push(subtree_at(lines, a).0, up, c);
        up.push(c)
    }
}

impl PlanNode {
    /// Parses an indentation-text plan. Each line is one operator; a line
    /// belongs under the nearest line above it that is indented less.
    /// Returns `None` for text without lines.
    pub fn parse_text(explain_text: &str) -> (r: Option<PlanNode>)
        ensures
            r matches Some(n) ==> text_plan(explain_text@) == Some(n.tree()),
            r is None ==> text_plan(explain_text@) is None,
    {
        let chars = chars_of(explain_text);
        let lines = split_lines(&chars);
        if lines.len() == 0 {
            return None;
        }
        match Self::parse_lines(&lines, 0) {
            Some((node, _)) => Some(node),
            None => None,
        }
    }

    /// Parses the subtree rooted at line `start`; also returns the index of
    /// the first line after it.
    pub fn parse_lines(lines: &Vec<Vec<char>>, start: usize) -> (r: Option<(PlanNode, usize)>)
        ensures
            start >= lines.len() ==> r is None,
            start < lines.len() ==> (r matches Some((n, e)) && n.tree() == subtree_at(
                views(lines@),
                start as int,
            ).0 && e == subtree_at(views(lines@), start as int).1),
        decreases lines.len() - start,
    {
        if start >= lines.len() {
            return None;
        }
        let ghost l = views(lines@);
        let line = &lines[start];
        let indent = count_leading_ws(line);
        let body = crate::plan_text::strip_arrows_chars(&trim_chars(line));
        let fields = parse_operator_line(&body);
        let mut children: Vec<PlanNode> = Vec::new();
        let mut idx = start + 1;
        proof {
            lemma_children_range(l, start as int, idx as int);
        }
        while idx < lines.len()
            invariant
                l == views(lines@),
                start < idx <= lines.len(),
                indent == leading_ws(l[start as int]),
                children_at(l, start as int, start + 1) == (
                    trees(children@) + children_at(l, start as int, idx as int).0,
                    children_at(l, start as int, idx as int).1,
                ),
            ensures
                l == views(lines@),
                start < idx <= lines.len(),
                children_at(l, start as int, start + 1) == (
                    trees(children@) + children_at(l, start as int, idx as int).0,
                    children_at(l, start as int, idx as int).1,
                ),
                children_at(l, start as int, idx as int).0 =~= seq![],
            decreases lines.len() - idx,
        {
            let next_indent = count_leading_ws(&lines[idx]);
            assert(l[idx as int] == lines@[idx as int]@);
            if next_indent <= indent {
                break;
            }
            proof {
                lemma_subtree_range(l, idx as int);
            }
            match Self::parse_lines(lines, idx) {
                Some((child, consumed)) => {
                    let ghost before = children@;
                    children.push(child);
                    proof {
                        assert(trees(children@) =~= trees(before).push(child.tree()));
                        assert(trees(children@) + children_at(l, start as int, consumed as int).0
                            =~= trees(before) + children_at(l, start as int, idx as int).0);
                    }
                    idx = consumed;
                },
                None => {
                    idx = idx + 1;
                },
            }
        }
        proof {
            assert(trees(children@) + children_at(l, start as int, idx as int).0 =~= trees(
                children@,
            ));
        }
        let LineFields { operator, relation, cost_startup, cost_total, rows, width } = fields;
        let node = PlanNode {
            operator,
            relation,
            cost_startup,
            cost_total,
            estimated_rows: rows,
            actual_rows: None,
            actual_time_ms: None,
            width,
            children,
            extra: Vec::new(),
        };
        proof {
            assert(node.tree().children =~= trees(children@));
            assert(node.tree().extra =~= seq![]);
            assert(node.tree() == line_node(l[start as int], trees(children@)));
        }
        Some((node, idx))
    }
}

} // verus!
