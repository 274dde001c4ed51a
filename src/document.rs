//! Structured plan documents: the `{"Node Type": ..., "Plans": [...]}` shape
//! of plans exported as JSON, held as a tree of values.
use vstd::prelude::*;
use crate::explain::{leaf_tree, opt_view, text_plan, trees, PlanNode, PlanTree};
use crate::numeric::{
    decimal_string, decimal_text, digits_within, lemma_decimal_string, lemma_nat_text, nat_text,
    parse_decimal, parse_digits, push_decimal_text, push_nat_text, zero_decimal, Decimal,
};
use crate::text::chars_of;

verus! {

/// A value of a structured document. Numbers keep their text.
#[derive(Debug)]
pub enum DocValue {
    Null,
    Bool(bool),
    Number(String),
    Text(String),
    Array(Vec<DocValue>),
    Object(Vec<(String, DocValue)>),
}

/// Index of the first entry of `m` at or after `i` whose key is `key`, or
/// the length of `m`.
pub open spec fn key_index(m: Seq<(String, DocValue)>, key: Seq<char>, i: int) -> int
    decreases m.len() - i,
{
    if 0 <= i < m.len() && m[i].0@ != key {
        key_index(m, key, i + 1)
    } else {
        i
    }
}

/// The value under `key` in an object (the first entry with that key).
pub open spec fn doc_get(d: DocValue, key: Seq<char>) -> Option<DocValue> {
    match d {
        DocValue::Object(m) => {
            let i = key_index(m@, key, 0);
            if 0 <= i < m@.len() {
                Some(m@[i].1)
            } else {
                None
            }
        },
        _ => None,
    }
}

pub open spec fn as_text(v: Option<DocValue>) -> Option<Seq<char>> {
    match v {
        Some(DocValue::Text(s)) => Some(s@),
        _ => None,
    }
}

/// A number that is a non-negative integer within `u64`.
pub open spec fn as_u64(v: Option<DocValue>) -> Option<u64> {
    match v {
        Some(DocValue::Number(t)) => match digits_within(t@, u64::MAX as nat) {
            Some(n) => Some(n as u64),
            None => None,
        },
        _ => None,
    }
}

/// A number in decimal notation (see `decimal_text`).
pub open spec fn as_decimal(v: Option<DocValue>) -> Option<Decimal> {
    match v {
        Some(DocValue::Number(t)) => decimal_text(t@),
        _ => None,
    }
}

/// The plans that are present among `s`, in order.
pub open spec fn somes(s: Seq<Option<PlanTree>>) -> Seq<PlanTree>
    decreases s.len(),
{
    if s.len() == 0 {
        seq![]
    } else {
        let rest = somes(s.drop_last());
        match s.last() {
            Some(t) => rest.push(t),
            None => rest,
        }
    }
}

/// The plan that a document node describes: `None` without a textual
/// "Node Type"; children that describe no plan are left out.
pub open spec fn doc_plan(d: DocValue) -> Option<PlanTree>
    decreases d,
{
    match d {
        DocValue::Object(m) => {
            let ti = key_index(m@, "Node Type"@, 0);
            if 0 <= ti < m@.len() && m@[ti].1 is Text {
                let pi = key_index(m@, "Plans"@, 0);
                let kids = if 0 <= pi < m@.len() {
                    match m@[pi].1 {
                        DocValue::Array(items) => somes(doc_children(items@)),
                        _ => seq![],
                    }
                } else {
                    seq![]
                };
                Some(
                    PlanTree {
                        operator: m@[ti].1->Text_0@,
                        relation: as_text(doc_get(d, "Relation Name"@)),
                        cost_startup: match as_decimal(doc_get(d, "Startup Cost"@)) {
                            Some(c) => c,
                            None => zero_decimal(),
                        },
                        cost_total: match as_decimal(doc_get(d, "Total Cost"@)) {
                            Some(c) => c,
                            None => zero_decimal(),
                        },
                        estimated_rows: match as_u64(doc_get(d, "Plan Rows"@)) {
                            Some(n) => n,
                            None => 0,
                        },
                        actual_rows: as_u64(doc_get(d, "Actual Rows"@)),
                        actual_time_ms: as_decimal(doc_get(d, "Actual Total Time"@)),
                        width: match as_u64(doc_get(d, "Plan Width"@)) {
                            Some(n) => n as u32,
                            None => 0,
                        },
                        children: kids,
                        extra: seq![],
                    },
                )
            } else {
                None
            }
        },
        _ => None,
    }
}

/// What each of `items` describes.
pub open spec fn doc_children(items: Seq<DocValue>) -> Seq<Option<PlanTree>>
    decreases items,
{
    Seq::new(
        items.len(),
        |j: int|
            if 0 <= j < items.len() {
                doc_plan(items[j])
            } else {
                None
            },
    )
}

/// The plan of a plan document: either the plan object itself, or an array
/// whose first element has the plan under "Plan".
pub open spec fn exported_plan(d: DocValue) -> Option<PlanTree> {
    match d {
        DocValue::Array(items) => if items@.len() > 0 {
            match doc_get(items@[0], "Plan"@) {
                Some(p) => doc_plan(p),
                None => None,
            }
        } else {
            None
        },
        DocValue::Object(_) => doc_plan(d),
        _ => None,
    }
}

fn find_key(m: &Vec<(String, DocValue)>, key: &str) -> (r: usize)
    ensures
        r == key_index(m@, key@, 0),
        r <= m@.len(),
{
    let k = String::from_str(key);
    let mut i: usize = 0;
    while i < m.len() && m[i].0 != k
        invariant
            i <= m.len(),
            k@ == key@,
            key_index(m@, key@, 0) == key_index(m@, key@, i as int),
        decreases m.len() - i,
    {
        i = i + 1;
    }
    i
}

/// The value under `key` in an object (see `doc_get`).
pub fn get<'a>(d: &'a DocValue, key: &str) -> (r: Option<&'a DocValue>)
    ensures
        match r {
            Some(v) => doc_get(*d, key@) == Some(*v),
            None => doc_get(*d, key@) is None,
        },
{
    match d {
        DocValue::Object(m) => {
            let i = find_key(m, key);
            if i < m.len() {
                Some(&m[i].1)
            } else {
                None
            }
        },
        _ => None,
    }
}

fn get_text(d: &DocValue, key: &str) -> (r: Option<String>)
    ensures
        match r {
            Some(s) => as_text(doc_get(*d, key@)) == Some(s@),
            None => as_text(doc_get(*d, key@)) is None,
        },
{
    match get(d, key) {
        Some(DocValue::Text(s)) => Some(s.clone()),
        _ => None,
    }
}

fn get_u64(d: &DocValue, key: &str) -> (r: Option<u64>)
    ensures
        r == as_u64(doc_get(*d, key@)),
{
    match get(d, key) {
        Some(DocValue::Number(t)) => {
            let cs = chars_of(t.as_str());
            parse_digits(&cs, u64::MAX)
        },
        _ => None,
    }
}

fn get_decimal(d: &DocValue, key: &str) -> (r: Option<Decimal>)
    ensures
        r == as_decimal(doc_get(*d, key@)),
{
    match get(d, key) {
        Some(DocValue::Number(t)) => {
            let cs = chars_of(t.as_str());
            parse_decimal(&cs)
        },
        _ => None,
    }
}

impl PlanNode {
    /// Reads one plan document node and, recursively, its "Plans".
    pub fn from_json_plan(plan: &DocValue) -> (r: Option<PlanNode>)
        ensures
            match r {
                Some(n) => doc_plan(*plan) == Some(n.tree()),
                None => doc_plan(*plan) is None,
            },
        decreases plan,
    {
        let m = match plan {
            DocValue::Object(m) => m,
            _ => {
                return None;
            },
        };
        let ti = find_key(m, "Node Type");
        if ti >= m.len() {
            return None;
        }
        let operator = match &m[ti].1 {
            DocValue::Text(s) => s.clone(),
            _ => {
                return None;
            },
        };
        let relation = get_text(plan, "Relation Name");
        let cost_startup = match get_decimal(plan, "Startup Cost") {
            Some(c) => c,
            None => Decimal { units: 0, scale: 0 },
        };
        let cost_total = match get_decimal(plan, "Total Cost") {
            Some(c) => c,
            None => Decimal { units: 0, scale: 0 },
        };
        let rows = match get_u64(plan, "Plan Rows") {
            Some(n) => n,
            None => 0,
        };
        let actual_rows = get_u64(plan, "Actual Rows");
        let actual_time = get_decimal(plan, "Actual Total Time");
        let width: u32 = match get_u64(plan, "Plan Width") {
            Some(n) => #[verifier::truncate]
            (n as u32),
            None => 0,
        };
        let mut children: Vec<PlanNode> = Vec::new();
        let pi = find_key(m, "Plans");
        let ghost mut kids: Seq<PlanTree> = seq![];
        if pi < m.len() {
            match &m[pi].1 {
                DocValue::Array(items) => {
                    let ghost all = doc_children(items@);
                    let mut j: usize = 0;
                    while j < items.len()
                        invariant
                            j <= items.len(),
                            pi < m@.len(),
                            *plan == DocValue::Object(*m),
                            m@[pi as int].1 == DocValue::Array(*items),
                            all.len() == items@.len(),
                            forall|k: int| 0 <= k < items@.len() ==> all[k] == doc_plan(#[trigger] items@[k]),
                            trees(children@) == somes(all.take(j as int)),
                        decreases items.len() - j,
                    {
                        proof {
                            assert(decreases_to!(*plan => (*plan)->Object_0));
                            assert(decreases_to!(*m => m@)) by {
                                broadcast use vstd::std_specs::vec::axiom_vec_decreases_to_view;
                            }
                            assert(decreases_to!(m@ => m@[pi as int])) by {
                                broadcast use vstd::seq::axiom_seq_index_decreases;
                            }
                            assert(decreases_to!(m@[pi as int] => m@[pi as int].1));
                            assert(decreases_to!(m@[pi as int].1 => m@[pi as int].1->Array_0));
                            assert(decreases_to!(*items => items@)) by {
                                broadcast use vstd::std_specs::vec::axiom_vec_decreases_to_view;
                            }
                            assert(decreases_to!(items@ => items@[j as int])) by {
                                broadcast use vstd::seq::axiom_seq_index_decreases;
                            }
                        }
                        let ghost before = children@;
                        let c = Self::from_json_plan(&items[j]);
                        proof {
                            assert(all.take(j + 1).drop_last() =~= all.take(j as int));
                            assert(all.take(j + 1).last() == doc_plan(items@[j as int]));
                        }
                        match c {
                            Some(child) => {
                                children.push(child);
                                assert(trees(children@) =~= trees(before).push(child.tree()));
                            },
                            None => {},
                        }
                        j = j + 1;
                    }
                    proof {
                        assert(all.take(j as int) =~= all);
                        kids = somes(all);
                    }
                },
                _ => {},
            }
        }
        let node = PlanNode {
            operator,
            relation,
            cost_startup,
            cost_total,
            estimated_rows: rows,
            actual_rows,
            actual_time_ms: actual_time,
            width,
            children,
            extra: Vec::new(),
        };
        proof {
            assert(node.tree().children =~= trees(node.children@));
            assert(node.tree().extra =~= seq![]);
            assert(trees(node.children@) == kids);
        }
        Some(node)
    }

    /// Reads a plan document: a plan object, or an array whose first element
    /// holds the plan under "Plan".
    pub fn parse_json(json: &DocValue) -> (r: Option<PlanNode>)
        ensures
            match r {
                Some(n) => exported_plan(*json) == Some(n.tree()),
                None => exported_plan(*json) is None,
            },
    {
        match json {
            DocValue::Array(items) => {
                if items.len() == 0 {
                    return None;
                }
                match get(&items[0], "Plan") {
                    Some(p) => Self::from_json_plan(p),
                    None => None,
                }
            },
            DocValue::Object(_) => Self::from_json_plan(json),
            _ => None,
        }
    }

    /// Reads a plan given as a document (when the text parsed as one) and
    /// as text: the document's plan when it has one, else the plan of the
    /// indentation text.
    pub fn parse_plan(doc: Option<&DocValue>, text: &str) -> (r: Option<PlanNode>)
        ensures
            match r {
                Some(n) => plan_of(doc, text@) == Some(n.tree()),
                None => plan_of(doc, text@) is None,
            },
    {
        match doc {
            Some(d) => match Self::parse_json(d) {
                Some(n) => Some(n),
                None => Self::parse_text(text),
            },
            None => Self::parse_text(text),
        }
    }
}

/// The plan of a plan given as an optional document and as text: the
/// document's plan first, then the indentation text's.
pub open spec fn plan_of(doc: Option<&DocValue>, text: Seq<char>) -> Option<PlanTree> {
    match doc {
        Some(d) => match exported_plan(*d) {
            Some(t) => Some(t),
            None => text_plan(text),
        },
        None => text_plan(text),
    }
}

// ---------------------------------------------------------------------------
// Writing plans as documents
// ---------------------------------------------------------------------------

/// A plan tree as a document carries it: without auxiliary pairs.
pub open spec fn plain(t: PlanTree) -> PlanTree
    decreases t,
{
    PlanTree {
        operator: t.operator,
        relation: t.relation,
        cost_startup: t.cost_startup,
        cost_total: t.cost_total,
        estimated_rows: t.estimated_rows,
        actual_rows: t.actual_rows,
        actual_time_ms: t.actual_time_ms,
        width: t.width,
        children: Seq::new(
            t.children.len(),
            |i: int|
                if 0 <= i < t.children.len() {
                    plain(t.children[i])
                } else {
                    leaf_tree()
                },
        ),
        extra: seq![],
    }
}

proof fn lemma_key_index_at(m: Seq<(String, DocValue)>, key: Seq<char>, from: int, i: int)
    requires
        0 <= from <= i < m.len(),
        m[i].0@ == key,
        forall|k: int| from <= k < i ==> m[k].0@ != key,
    ensures
        key_index(m, key, from) == i,
    decreases i - from,
{
    if from < i {
        lemma_key_index_at(m, key, from + 1, i);
    }
}

proof fn lemma_somes_all(s: Seq<Option<PlanTree>>)
    requires
        forall|i: int| 0 <= i < s.len() ==> s[i] is Some,
    ensures
        somes(s) =~= Seq::new(s.len(), |i: int| s[i]->Some_0),
    decreases s.len(),
{
    if s.len() > 0 {
        lemma_somes_all(s.drop_last());
    }
}

fn number_doc(n: u64) -> (r: DocValue)
    ensures
        r matches DocValue::Number(t) && t@ == nat_text(n as nat),
{
    let mut t = String::new();
    push_nat_text(&mut t, n);
    DocValue::Number(t)
}

fn decimal_doc(d: Decimal) -> (r: DocValue)
    ensures
        r matches DocValue::Number(t) && t@ == decimal_string(d),
{
    let mut t = String::new();
    push_decimal_text(&mut t, d);
    DocValue::Number(t)
}

impl PlanNode {
    /// Writes this plan as a document of the shape that `from_json_plan`
    /// reads, under the keys "Node Type", "Relation Name", "Startup Cost",
    /// "Total Cost", "Plan Rows", "Actual Rows", "Actual Total Time",
    /// "Plan Width" and "Plans"; absent values are written as null. Reading
    /// the document back gives this plan again, auxiliary pairs aside.
    pub fn to_document(&self) -> (r: DocValue)
        ensures
            doc_plan(r) == Some(plain(self.tree())),
        decreases self,
    {
        let mut kids: Vec<DocValue> = Vec::new();
        let mut j: usize = 0;
        while j < self.children.len()
            invariant
                j <= self.children.len(),
                kids@.len() == j,
                forall|k: int|
                    0 <= k < j ==> doc_plan(#[trigger] kids@[k]) == Some(
                        plain(self.children@[k].tree()),
                    ),
            decreases self.children.len() - j,
        {
            proof {
                assert(decreases_to!(*self => self.children));
                assert(decreases_to!(self.children => self.children@)) by {
                    broadcast use vstd::std_specs::vec::axiom_vec_decreases_to_view;
                }
                assert(decreases_to!(self.children@ => self.children@[j as int])) by {
                    broadcast use vstd::seq::axiom_seq_index_decreases;
                }
            }
            let d = self.children[j].to_document();
            kids.push(d);
            j = j + 1;
        }
        let relation = match &self.relation {
            Some(r) => DocValue::Text(r.clone()),
            None => DocValue::Null,
        };
        let actual_rows = match self.actual_rows {
            Some(n) => number_doc(n),
            None => DocValue::Null,
        };
        let actual_time = match self.actual_time_ms {
            Some(t) => decimal_doc(t),
            None => DocValue::Null,
        };
        let ghost kids_v = kids@;
        let entries: Vec<(String, DocValue)> = vec![
            (String::from_str("Node Type"), DocValue::Text(self.operator.clone())),
            (String::from_str("Relation Name"), relation),
            (String::from_str("Startup Cost"), decimal_doc(self.cost_startup)),
            (String::from_str("Total Cost"), decimal_doc(self.cost_total)),
            (String::from_str("Plan Rows"), number_doc(self.estimated_rows)),
            (String::from_str("Actual Rows"), actual_rows),
            (String::from_str("Actual Total Time"), actual_time),
            (String::from_str("Plan Width"), number_doc(self.width as u64)),
            (String::from_str("Plans"), DocValue::Array(kids)),
        ];
        let r = DocValue::Object(entries);
        proof {
            let m = entries@;
            reveal_strlit("Node Type");
            reveal_strlit("Relation Name");
            reveal_strlit("Startup Cost");
            reveal_strlit("Total Cost");
            reveal_strlit("Plan Rows");
            reveal_strlit("Actual Rows");
            reveal_strlit("Actual Total Time");
            reveal_strlit("Plan Width");
            reveal_strlit("Plans");
            assert(m[0].0@ == "Node Type"@ && m[0].0@.len() == 9 && m[0].0@[0] == 'N');
            assert(m[1].0@ == "Relation Name"@ && m[1].0@.len() == 13);
            assert(m[2].0@ == "Startup Cost"@ && m[2].0@.len() == 12);
            assert(m[3].0@ == "Total Cost"@ && m[3].0@.len() == 10 && m[3].0@[0] == 'T');
            assert(m[4].0@ == "Plan Rows"@ && m[4].0@.len() == 9 && m[4].0@[0] == 'P');
            assert(m[5].0@ == "Actual Rows"@ && m[5].0@.len() == 11);
            assert(m[6].0@ == "Actual Total Time"@ && m[6].0@.len() == 17);
            assert(m[7].0@ == "Plan Width"@ && m[7].0@.len() == 10 && m[7].0@[0] == 'P');
            assert(m[8].0@ == "Plans"@ && m[8].0@.len() == 5);
            lemma_key_index_at(m, "Node Type"@, 0, 0);
            lemma_key_index_at(m, "Relation Name"@, 0, 1);
            lemma_key_index_at(m, "Startup Cost"@, 0, 2);
            lemma_key_index_at(m, "Total Cost"@, 0, 3);
            lemma_key_index_at(m, "Plan Rows"@, 0, 4);
            lemma_key_index_at(m, "Actual Rows"@, 0, 5);
            lemma_key_index_at(m, "Actual Total Time"@, 0, 6);
            lemma_key_index_at(m, "Plan Width"@, 0, 7);
            lemma_key_index_at(m, "Plans"@, 0, 8);
            lemma_decimal_string(self.cost_startup);
            lemma_decimal_string(self.cost_total);
            lemma_nat_text(self.estimated_rows as nat);
            lemma_nat_text(self.width as nat);
            if self.actual_rows is Some {
                lemma_nat_text(self.actual_rows->Some_0 as nat);
            }
            if self.actual_time_ms is Some {
                lemma_decimal_string(self.actual_time_ms->Some_0);
            }
            let w = self.width;
            assert(((w as u64) as u32) == w) by (bit_vector);
            let all = doc_children(kids_v);
            lemma_somes_all(all);
            let t = plain(self.tree());
            assert(somes(all) =~= t.children);
            assert(doc_plan(r) == Some(t));
        }
        r
    }
}

/// A document written from plan `n` reads back as `n`: the plan `back` that
/// `from_json_plan` returns for it has the same operator, relation, costs,
/// row counts, width and telemetry, and the same number of children, each
/// read back in the same way.
pub proof fn lemma_document_round_trip(n: PlanNode, d: DocValue, back: PlanNode)
    requires
        doc_plan(d) == Some(plain(n.tree())),
        doc_plan(d) == Some(back.tree()),
    ensures
        back.tree() == plain(n.tree()),
        back.operator@ == n.operator@,
        opt_view(back.relation) == opt_view(n.relation),
        back.cost_startup == n.cost_startup,
        back.cost_total == n.cost_total,
        back.estimated_rows == n.estimated_rows,
        back.actual_rows == n.actual_rows,
        back.actual_time_ms == n.actual_time_ms,
        back.width == n.width,
        back.children@.len() == n.children@.len(),
        forall|i: int|
            0 <= i < n.children@.len() ==> #[trigger] back.children@[i].tree() == plain(
                n.children@[i].tree(),
            ),
{
    assert(back.tree().children.len() == back.children@.len());
    assert forall|i: int| 0 <= i < n.children@.len() implies #[trigger] back.children@[i].tree()
        == plain(n.children@[i].tree()) by {
        assert(back.tree().children[i] == plain(n.tree()).children[i]);
    }
}

} // verus!
