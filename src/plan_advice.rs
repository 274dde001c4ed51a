//! Advice from a parsed plan: every node whose operator name names an
//! accelerable operation is analysed, with the node's own row volume; a plan
//! in which no operator can be classified is advised from the query text.
use vstd::prelude::*;
use crate::advisor::{
    AccelerableOp, AcceleratorBackend, HardwareProfile, OperatorAnalysis, OperatorAnalysisView,
    Recommendation, WorkbenchResult,
};
use crate::cost_model::CostModel;
use crate::engine::{
    analysis_bounded, analysis_named, analysis_result, analyses_bounded, analyze, analyze_named, assemble,
    lemma_analysis_named_bounded, lemma_options_for, query_ops, result_of, upper_of, uppercase, views_of,
    MAX_OPERATORS,
};
use crate::explain::{PlanNode, PlanTree};
use crate::text::{chars_of, contains, find_chars};

verus! {

/// The rows a node accounts for: those measured when the plan carries
/// them, else the planner's estimate.
pub open spec fn node_rows(t: PlanTree) -> u64 {
    match t.actual_rows {
        Some(r) => r,
        None => t.estimated_rows,
    }
}

/// Operator name and rows of every node of `t`, parents before children.
pub open spec fn plan_nodes(t: PlanTree) -> Seq<(Seq<char>, u64)>
    decreases t,
{
    seq![(t.operator, node_rows(t))] + child_nodes(t.children).flatten()
}

/// What `plan_nodes` gives for each of `children`.
pub open spec fn child_nodes(children: Seq<PlanTree>) -> Seq<Seq<(Seq<char>, u64)>>
    decreases children,
{
    Seq::new(
        children.len(),
        |i: int|
            if 0 <= i < children.len() {
                plan_nodes(children[i])
            } else {
                seq![]
            },
    )
}

pub open spec fn pairs_view(v: Seq<(String, u64)>) -> Seq<(Seq<char>, u64)> {
    v.map_values(|p: (String, u64)| (p.0@, p.1))
}

/// Appends the operator name and rows of every node of `node`, parents
/// before children.
pub fn collect_nodes(node: &PlanNode, out: &mut Vec<(String, u64)>)
    ensures
        pairs_view(final(out)@) == pairs_view(old(out)@) + plan_nodes(node.tree()),
    decreases node,
{
    let rows = match node.actual_rows {
        Some(r) => r,
        None => node.estimated_rows,
    };
    out.push((node.operator.clone(), rows));
    let ghost base = pairs_view(out@);
    proof {
        assert(base =~= pairs_view(old(out)@) + seq![(node.tree().operator, node_rows(node.tree()))]);
    }
    let mut j: usize = 0;
    while j < node.children.len()
        invariant
            j <= node.children.len(),
            pairs_view(out@) == base + Seq::new(
                j as nat,
                |i: int| plan_nodes(node.children@[i].tree()),
            ).flatten(),
        decreases node.children.len() - j,
    {
        proof {
            assert(decreases_to!(*node => node.children));
            assert(decreases_to!(node.children => node.children@)) by {
                broadcast use vstd::std_specs::vec::axiom_vec_decreases_to_view;
            }
            assert(decreases_to!(node.children@ => node.children@[j as int])) by {
                broadcast use vstd::seq::axiom_seq_index_decreases;
            }
        }
        let ghost before = Seq::new(j as nat, |i: int| plan_nodes(node.children@[i].tree()));
        collect_nodes(&node.children[j], out);
        proof {
            let after = Seq::new((j + 1) as nat, |i: int| plan_nodes(node.children@[i].tree()));
            assert(after =~= before.push(plan_nodes(node.children@[j as int].tree())));
            before.lemma_flatten_push(plan_nodes(node.children@[j as int].tree()));
        }
        j = j + 1;
    }
    proof {
        let t = node.tree();
        let all = Seq::new(j as nat, |i: int| plan_nodes(node.children@[i].tree()));
        assert(all =~= child_nodes(t.children));
        assert(pairs_view(out@) =~= pairs_view(old(out)@) + plan_nodes(t));
    }
}

/// The kind of operation an upper-cased operator name `u` names.
pub open spec fn operator_kind(u: Seq<char>) -> Option<AccelerableOp> {
    if contains(u, "AGGREGATE"@) {
        Some(AccelerableOp::HashAggregate)
    } else if contains(u, "HASH JOIN"@) || contains(u, "HASHJOIN"@) {
        Some(AccelerableOp::HashJoin)
    } else if contains(u, "SORT"@) {
        Some(AccelerableOp::Sort)
    } else if contains(u, "FILTER"@) {
        Some(AccelerableOp::Filter)
    } else if contains(u, "GRAPH"@) {
        Some(AccelerableOp::GraphTraversal)
    } else if contains(u, "VECTOR"@) {
        Some(AccelerableOp::VectorDistance)
    } else if contains(u, "COST ANALYTICS"@) || contains(u, "COSTANALYTICS"@) {
        Some(AccelerableOp::CostAnalytics)
    } else if contains(u, "RULE"@) {
        Some(AccelerableOp::RuleEngine)
    } else if contains(u, "SCAN"@) || contains(u, "DECOMPRESS"@) {
        Some(AccelerableOp::Decompression)
    } else {
        None
    }
}

fn holds(u: &Vec<char>, pat: &str) -> (r: bool)
    ensures
        r == contains(u@, pat@),
{
    let p = chars_of(pat);
    find_chars(u, &p).is_some()
}

/// The kind of operation that the upper-cased operator name `upper` names.
pub fn kind_of_operator(upper: &str) -> (r: Option<AccelerableOp>)
    ensures
        r == operator_kind(upper@),
{
    let u = chars_of(upper);
    if holds(&u, "AGGREGATE") {
        Some(AccelerableOp::HashAggregate)
    } else if holds(&u, "HASH JOIN") || holds(&u, "HASHJOIN") {
        Some(AccelerableOp::HashJoin)
    } else if holds(&u, "SORT") {
        Some(AccelerableOp::Sort)
    } else if holds(&u, "FILTER") {
        Some(AccelerableOp::Filter)
    } else if holds(&u, "GRAPH") {
        Some(AccelerableOp::GraphTraversal)
    } else if holds(&u, "VECTOR") {
        Some(AccelerableOp::VectorDistance)
    } else if holds(&u, "COST ANALYTICS") || holds(&u, "COSTANALYTICS") {
        Some(AccelerableOp::CostAnalytics)
    } else if holds(&u, "RULE") {
        Some(AccelerableOp::RuleEngine)
    } else if holds(&u, "SCAN") || holds(&u, "DECOMPRESS") {
        Some(AccelerableOp::Decompression)
    } else {
        None
    }
}

/// The kind of operation an operator name names, without regard to case.
pub fn classify_operator(name: &str) -> (r: Option<AccelerableOp>)
    ensures
        r == operator_kind(upper_of(name@)),
{
    let upper = uppercase(name);
    kind_of_operator(upper.as_str())
}

/// The analyses of the classified nodes among `p`, in order.
pub open spec fn node_analyses(p: Seq<(Seq<char>, u64)>, model: CostModel, hw: HardwareProfile) -> Seq<OperatorAnalysisView>
    decreases p.len(),
{
    if p.len() == 0 {
        seq![]
    } else {
        let rest = node_analyses(p.drop_last(), model, hw);
        let (name, rows) = p.last();
        match operator_kind(upper_of(name)) {
            Some(op) => rest.push(analysis_named(op, name, rows, model.spec_entry(op), hw)),
            None => rest,
        }
    }
}

/// The catalog's advice for each classified node among `p` that is
/// recommended onto an accelerator.
pub open spec fn node_hints(p: Seq<(Seq<char>, u64)>, model: CostModel, hw: HardwareProfile) -> Seq<Recommendation>
    decreases p.len(),
{
    if p.len() == 0 {
        seq![]
    } else {
        let rest = node_hints(p.drop_last(), model, hw);
        let (name, rows) = p.last();
        match operator_kind(upper_of(name)) {
            Some(op) => {
                let e = model.spec_entry(op);
                if analysis_named(op, name, rows, e, hw).recommended_backend
                    != AcceleratorBackend::Cpu && e.hint is Some {
                    rest.push(e.hint.unwrap())
                } else {
                    rest
                }
            },
            None => rest,
        }
    }
}

/// What advice on query `sql` with plan `plan` holds: the plan's classified
/// nodes, or the query text where the plan has none (or more than the
/// totals allow).
pub open spec fn plan_result(r: WorkbenchResult, sql: Seq<char>, plan: PlanTree, model: CostModel, hw: HardwareProfile) -> bool {
    let p = plan_nodes(plan);
    let a = node_analyses(p, model, hw);
    if a.len() == 0 || a.len() > MAX_OPERATORS {
        analysis_result(r, sql, query_ops(upper_of(sql)), model, hw)
    } else {
        result_of(r, sql, a, node_hints(p, model, hw), hw)
    }
}

/// Advises on query `sql` from its parsed plan `plan`.
pub fn analyze_plan(sql: &str, plan: &PlanNode, hw: HardwareProfile, model: &CostModel) -> (r: WorkbenchResult)
    requires
        model.wf(),
    ensures
        plan_result(r, sql@, plan.tree(), *model, hw),
        r.explain_text is None,
{
    let mut pairs: Vec<(String, u64)> = Vec::new();
    collect_nodes(plan, &mut pairs);
    assert(pairs_view(pairs@) =~= plan_nodes(plan.tree()));
    let ghost p = pairs_view(pairs@);
    let mut analyses: Vec<OperatorAnalysis> = Vec::new();
    let mut recs: Vec<Recommendation> = Vec::new();
    let mut i: usize = 0;
    while i < pairs.len()
        invariant
            model.wf(),
            i <= pairs.len(),
            p == pairs_view(pairs@),
            views_of(analyses@) == node_analyses(p.take(i as int), *model, hw),
            recs@ == node_hints(p.take(i as int), *model, hw),
        decreases pairs.len() - i,
    {
        let name = &pairs[i].0;
        let rows = pairs[i].1;
        proof {
            assert(p.take(i + 1).drop_last() =~= p.take(i as int));
            assert(p.take(i + 1).last() == (name@, rows));
        }
        let upper = uppercase(name.as_str());
        match kind_of_operator(upper.as_str()) {
            Some(op) => {
                let e = model.entry(op);
                assert(model.spec_entry(op).wf());
                let a = analyze_named(op, name.clone(), rows, e, &hw);
                if a.recommended_backend != AcceleratorBackend::Cpu {
                    match &e.hint {
                        Some(h) => {
                            recs.push(h.duplicate());
                        },
                        None => {},
                    }
                }
                let ghost before = analyses@;
                analyses.push(a);
                proof {
                    assert(views_of(analyses@) =~= views_of(before).push(a@));
                }
            },
            None => {},
        }
        i = i + 1;
    }
    proof {
        assert(p.take(i as int) =~= p);
    }
    if analyses.len() == 0 || analyses.len() > MAX_OPERATORS {
        return analyze(sql, hw, model);
    }
    proof {
        lemma_node_analyses_bounded(p, *model, hw);
    }
    assemble(sql, analyses, recs, hw)
}

proof fn lemma_node_analyses_bounded(p: Seq<(Seq<char>, u64)>, model: CostModel, hw: HardwareProfile)
    requires
        model.wf(),
    ensures
        analyses_bounded(node_analyses(p, model, hw)),
    decreases p.len(),
{
    if p.len() > 0 {
        lemma_node_analyses_bounded(p.drop_last(), model, hw);
        let rest = node_analyses(p.drop_last(), model, hw);
        let a = node_analyses(p, model, hw);
        let (name, rows) = p.last();
        match operator_kind(upper_of(name)) {
            Some(op) => {
                lemma_analysis_named_bounded(op, name, rows, model.spec_entry(op), hw);
                assert forall|x: int| 0 <= x < a.len() implies analysis_bounded(#[trigger] a[x]) by {
                    if x < rest.len() {
                        assert(a[x] == rest[x]);
                    }
                }
            },
            None => {},
        }
    }
}

/// Advises on query `sql`: from its parsed plan when there is one, else
/// from the query text.
pub fn advise(sql: &str, plan: Option<&PlanNode>, hw: HardwareProfile, model: &CostModel) -> (r: WorkbenchResult)
    requires
        model.wf(),
    ensures
        match plan {
            Some(t) => plan_result(r, sql@, t.tree(), *model, hw),
            None => analysis_result(r, sql@, query_ops(upper_of(sql@)), *model, hw),
        },
        r.explain_text is None,
{
    match plan {
        Some(t) => analyze_plan(sql, t, hw, model),
        None => analyze(sql, hw, model),
    }
}

/// On hardware without any accelerator, every node analysed from a plan has
/// the CPU as its only option, and the CPU is recommended.
pub proof fn lemma_cpu_only_plan(p: Seq<(Seq<char>, u64)>, model: CostModel, hw: HardwareProfile)
    requires
        model.wf(),
        hw.cpu_only(),
    ensures
        forall|i: int|
            0 <= i < node_analyses(p, model, hw).len() ==> {
                let a = #[trigger] node_analyses(p, model, hw)[i];
                &&& a.backend_options.len() == 1
                &&& a.backend_options[0].backend == AcceleratorBackend::Cpu
                &&& a.recommended_backend == AcceleratorBackend::Cpu
            },
    decreases p.len(),
{
    if p.len() > 0 {
        lemma_cpu_only_plan(p.drop_last(), model, hw);
        let rest = node_analyses(p.drop_last(), model, hw);
        let a = node_analyses(p, model, hw);
        let (name, rows) = p.last();
        match operator_kind(upper_of(name)) {
            Some(op) => {
                lemma_options_for(model.spec_entry(op), hw);
                assert forall|i: int| 0 <= i < a.len() implies {
                    let x = #[trigger] a[i];
                    &&& x.backend_options.len() == 1
                    &&& x.backend_options[0].backend == AcceleratorBackend::Cpu
                    &&& x.recommended_backend == AcceleratorBackend::Cpu
                } by {
                    if i < rest.len() {
                        assert(a[i] == rest[i]);
                    }
                }
            },
            None => {},
        }
    }
}

} // verus!
