//! The advisory engine: classifies a query, enumerates and ranks backends per
//! operator, and compares whole-query strategies.
use vstd::prelude::*;
use crate::advisor::{
    AccelerableOp, AcceleratorBackend, BackendOption, HardwareProfile, OperatorAnalysis,
    OperatorAnalysisView, Recommendation, SimdLevel, StrategyComparison, StrategyView,
    WorkbenchResult,
};
use crate::cost_model::{
    AcceleratorCost, CostModel, OperatorCost, MAX_COST_MICRO_USD, MAX_SPEEDUP_MILLI, MAX_TIME_MS,
};
use crate::numeric::{digit_char, nat_text, push_nat_text};
use crate::text::{chars_of, contains, find_chars, push_char};

verus! {

// ---------------------------------------------------------------------------
// Classification of query text
// ---------------------------------------------------------------------------

/// What `str::to_uppercase` makes of a text.
pub uninterp spec fn upper_of(s: Seq<char>) -> Seq<char>;

/// Relies on `str::to_uppercase`: the result depends on the characters
/// alone, and empty text stays empty.
#[verifier::external_body]
pub(crate) fn uppercase(s: &str) -> (r: String)
    ensures
        r@ == upper_of(s@),
        s@.len() == 0 ==> r@.len() == 0,
{
    s.to_uppercase()
}

pub open spec fn is_aggregate_query(u: Seq<char>) -> bool {
    contains(u, "GROUP BY"@) || contains(u, "SUM("@) || contains(u, "COUNT("@)
}

pub open spec fn is_graph_query(u: Seq<char>) -> bool {
    contains(u, "GRAPH MATCH"@)
}

pub open spec fn is_vector_query(u: Seq<char>) -> bool {
    contains(u, "<->"@)
}

pub open spec fn is_cost_function_query(u: Seq<char>) -> bool {
    contains(u, "COST_ANOMALY_SCORE"@) || contains(u, "COST_FORECAST"@)
}

pub open spec fn when(b: bool, op: AccelerableOp) -> Seq<AccelerableOp> {
    if b {
        seq![op]
    } else {
        seq![]
    }
}

/// The operators of a query, from its upper-cased text `u`: a decompressing
/// scan first, then one operator per recognised construct, and a generic
/// filter when nothing was recognised.
pub open spec fn query_ops(u: Seq<char>) -> Seq<AccelerableOp> {
    let found = seq![AccelerableOp::Decompression] + when(
        is_aggregate_query(u),
        AccelerableOp::HashAggregate,
    ) + when(is_graph_query(u), AccelerableOp::GraphTraversal) + when(
        is_vector_query(u),
        AccelerableOp::VectorDistance,
    ) + when(is_cost_function_query(u), AccelerableOp::CostAnalytics);
    if found.len() == 1 {
        found.push(AccelerableOp::Filter)
    } else {
        found
    }
}

fn holds(u: &Vec<char>, pat: &str) -> (r: bool)
    ensures
        r == contains(u@, pat@),
{
    let p = chars_of(pat);
    find_chars(u, &p).is_some()
}

/// The operators of a query whose upper-cased text is `upper`.
pub fn detect_operators(upper: &str) -> (r: Vec<AccelerableOp>)
    ensures
        r@ == query_ops(upper@),
{
    let u = chars_of(upper);
    let mut r: Vec<AccelerableOp> = vec![AccelerableOp::Decompression];
    if holds(&u, "GROUP BY") || holds(&u, "SUM(") || holds(&u, "COUNT(") {
        r.push(AccelerableOp::HashAggregate);
    }
    if holds(&u, "GRAPH MATCH") {
        r.push(AccelerableOp::GraphTraversal);
    }
    if holds(&u, "<->") {
        r.push(AccelerableOp::VectorDistance);
    }
    if holds(&u, "COST_ANOMALY_SCORE") || holds(&u, "COST_FORECAST") {
        r.push(AccelerableOp::CostAnalytics);
    }
    if r.len() == 1 {
        r.push(AccelerableOp::Filter);
    }
    proof {
        let uu = upper@;
        let found = seq![AccelerableOp::Decompression] + when(
            is_aggregate_query(uu),
            AccelerableOp::HashAggregate,
        ) + when(is_graph_query(uu), AccelerableOp::GraphTraversal) + when(
            is_vector_query(uu),
            AccelerableOp::VectorDistance,
        ) + when(is_cost_function_query(uu), AccelerableOp::CostAnalytics);
        assert(found.len() == 1 ==> r@ =~= found.push(AccelerableOp::Filter));
        assert(found.len() != 1 ==> r@ =~= found);
    }
    r
}

/// The operators of the query `sql` (matched without regard to case).
pub fn classify_query(sql: &str) -> (r: Vec<AccelerableOp>)
    ensures
        r@ == query_ops(upper_of(sql@)),
{
    let upper = uppercase(sql);
    detect_operators(upper.as_str())
}

// ---------------------------------------------------------------------------
// Backend options and the choice among them
// ---------------------------------------------------------------------------

/// Time on an accelerator: the CPU time divided by the speedup, rounded to
/// the nearest millisecond.
pub open spec fn accelerated_time(cpu_time_ms: nat, speedup_milli: nat) -> nat {
    (cpu_time_ms * 1000 + speedup_milli / 2) / speedup_milli
}

pub open spec fn cpu_option(e: OperatorCost) -> BackendOption {
    BackendOption {
        backend: AcceleratorBackend::Cpu,
        estimated_speedup_milli: 1000,
        estimated_time_ms: e.cpu_time_ms,
        estimated_cost_micro_usd: e.cpu_cost_micro_usd,
        available: true,
    }
}

pub open spec fn accelerator_option(a: AcceleratorCost, cpu_time_ms: u64) -> BackendOption {
    BackendOption {
        backend: a.backend,
        estimated_speedup_milli: a.speedup_milli,
        estimated_time_ms: accelerated_time(cpu_time_ms as nat, a.speedup_milli as nat) as u64,
        estimated_cost_micro_usd: a.cost_micro_usd,
        available: true,
    }
}

/// The options of the accelerators in `accs` that `hw` offers, in order.
pub open spec fn offered_options(
    accs: Seq<AcceleratorCost>,
    cpu_time_ms: u64,
    hw: HardwareProfile,
) -> Seq<BackendOption>
    decreases accs.len(),
{
    if accs.len() == 0 {
        seq![]
    } else {
        let rest = offered_options(accs.drop_last(), cpu_time_ms, hw);
        if hw.offers(accs.last().backend) {
            rest.push(accelerator_option(accs.last(), cpu_time_ms))
        } else {
            rest
        }
    }
}

/// The backends considered for an operator: the CPU first, then every
/// accelerator of its catalog entry that the hardware offers.
pub open spec fn options_for(e: OperatorCost, hw: HardwareProfile) -> Seq<BackendOption> {
    seq![cpu_option(e)] + offered_options(e.accelerators@, e.cpu_time_ms, hw)
}

/// `a` is preferred to `b`: a higher speedup, or the same speedup for less.
pub open spec fn better(a: BackendOption, b: BackendOption) -> bool {
    a.estimated_speedup_milli > b.estimated_speedup_milli || (a.estimated_speedup_milli
        == b.estimated_speedup_milli && a.estimated_cost_micro_usd < b.estimated_cost_micro_usd)
}

/// Index of the preferred option among the first `n`; the earliest wins a tie.
pub open spec fn best_of(opts: Seq<BackendOption>, n: int) -> int
    decreases n,
{
    if n <= 1 {
        0
    } else {
        let b = best_of(opts, n - 1);
        if better(opts[n - 1], opts[b]) {
            n - 1
        } else {
            b
        }
    }
}

pub open spec fn best_option(opts: Seq<BackendOption>) -> BackendOption {
    opts[best_of(opts, opts.len() as int)]
}

/// Option `i` has the highest speedup among the first `n` options, then the
/// lowest cost, and comes first among those equal in both.
pub open spec fn preferred_within(opts: Seq<BackendOption>, i: int, n: int) -> bool {
    &&& 0 <= i < n
    &&& forall|j: int| 0 <= j < i ==> better(opts[i], #[trigger] opts[j])
    &&& forall|j: int| i < j < n ==> !better(#[trigger] opts[j], opts[i])
}

/// The option chosen by `best_of` is the preferred one.
pub proof fn lemma_best_of_preferred(opts: Seq<BackendOption>, n: int)
    requires
        1 <= n <= opts.len(),
    ensures
        preferred_within(opts, best_of(opts, n), n),
    decreases n,
{
    if n > 1 {
        lemma_best_of_preferred(opts, n - 1);
    }
}

pub const OPTION_TIME_LIMIT: u64 = 2_000_000_000_000;

pub const OPTION_COST_LIMIT: u64 = 1_000_000_000;

pub open spec fn option_bounded(o: BackendOption) -> bool {
    o.estimated_time_ms <= OPTION_TIME_LIMIT && o.estimated_cost_micro_usd <= OPTION_COST_LIMIT
}

proof fn lemma_accelerated_time_bound(t: nat, s: nat)
    requires
        t <= MAX_TIME_MS,
        1 <= s <= MAX_SPEEDUP_MILLI,
    ensures
        accelerated_time(t, s) <= OPTION_TIME_LIMIT,
{
    assert((t * 1000 + s / 2) / s <= t * 1000 + s / 2) by (nonlinear_arith)
        requires
            s >= 1,
    ;
}

proof fn lemma_offered_options(accs: Seq<AcceleratorCost>, cpu_time_ms: u64, hw: HardwareProfile)
    requires
        cpu_time_ms <= MAX_TIME_MS,
        forall|i: int|
            0 <= i < accs.len() ==> {
                let a = #[trigger] accs[i];
                &&& a.backend != AcceleratorBackend::Cpu
                &&& 1 <= a.speedup_milli <= MAX_SPEEDUP_MILLI
                &&& a.cost_micro_usd <= MAX_COST_MICRO_USD
            },
    ensures
        offered_options(accs, cpu_time_ms, hw).len() <= accs.len(),
        forall|i: int|
            0 <= i < offered_options(accs, cpu_time_ms, hw).len() ==> option_bounded(
                #[trigger] offered_options(accs, cpu_time_ms, hw)[i],
            ),
        hw.cpu_only() ==> offered_options(accs, cpu_time_ms, hw).len() == 0,
    decreases accs.len(),
{
    if accs.len() > 0 {
        let a = accs.last();
        assert(a == accs[accs.len() - 1]);
        lemma_offered_options(accs.drop_last(), cpu_time_ms, hw);
        lemma_accelerated_time_bound(cpu_time_ms as nat, a.speedup_milli as nat);
    }
}

/// The options of a well-formed entry are bounded, and only the CPU is
/// offered by a profile without accelerators.
pub proof fn lemma_options_for(e: OperatorCost, hw: HardwareProfile)
    requires
        e.wf(),
    ensures
        options_for(e, hw).len() >= 1,
        options_for(e, hw)[0] == cpu_option(e),
        forall|i: int|
            0 <= i < options_for(e, hw).len() ==> option_bounded(#[trigger] options_for(e, hw)[i]),
        hw.cpu_only() ==> options_for(e, hw).len() == 1,
{
    lemma_offered_options(e.accelerators@, e.cpu_time_ms, hw);
    let o = options_for(e, hw);
    let rest = offered_options(e.accelerators@, e.cpu_time_ms, hw);
    assert forall|i: int| 0 <= i < o.len() implies option_bounded(#[trigger] o[i]) by {
        if i > 0 {
            assert(o[i] == rest[i - 1]);
        }
    }
}

/// The backends considered for an operator with catalog entry `e`.
pub fn backend_options(e: &OperatorCost, hw: &HardwareProfile) -> (r: Vec<BackendOption>)
    requires
        e.wf(),
    ensures
        r@ == options_for(*e, *hw),
{
    let mut r: Vec<BackendOption> = vec![
        BackendOption {
            backend: AcceleratorBackend::Cpu,
            estimated_speedup_milli: 1000,
            estimated_time_ms: e.cpu_time_ms,
            estimated_cost_micro_usd: e.cpu_cost_micro_usd,
            available: true,
        },
    ];
    let mut i: usize = 0;
    while i < e.accelerators.len()
        invariant
            e.wf(),
            i <= e.accelerators.len(),
            r@ == seq![cpu_option(*e)] + offered_options(
                e.accelerators@.take(i as int),
                e.cpu_time_ms,
                *hw,
            ),
        decreases e.accelerators.len() - i,
    {
        let a = e.accelerators[i];
        assert(e.accelerators@.take(i + 1).drop_last() =~= e.accelerators@.take(i as int));
        if hw.has_backend(a.backend) {
            proof {
                lemma_accelerated_time_bound(e.cpu_time_ms as nat, a.speedup_milli as nat);
            }
            let t = (e.cpu_time_ms * 1000 + a.speedup_milli / 2) / a.speedup_milli;
            r.push(
                BackendOption {
                    backend: a.backend,
                    estimated_speedup_milli: a.speedup_milli,
                    estimated_time_ms: t,
                    estimated_cost_micro_usd: a.cost_micro_usd,
                    available: true,
                },
            );
        }
        i = i + 1;
        assert(r@ =~= seq![cpu_option(*e)] + offered_options(
            e.accelerators@.take(i as int),
            e.cpu_time_ms,
            *hw,
        ));
    }
    assert(e.accelerators@.take(i as int) =~= e.accelerators@);
    r
}

/// Index of the preferred option: the highest speedup, then the lowest cost,
/// then the earliest.
pub fn preferred_index(opts: &Vec<BackendOption>) -> (r: usize)
    requires
        opts.len() >= 1,
    ensures
        r == best_of(opts@, opts@.len() as int),
        preferred_within(opts@, r as int, opts@.len() as int),
{
    let mut b: usize = 0;
    let mut k: usize = 1;
    proof {
        lemma_best_of_preferred(opts@, 1);
    }
    while k < opts.len()
        invariant
            1 <= k <= opts.len(),
            b == best_of(opts@, k as int),
            b < k,
        decreases opts.len() - k,
    {
        let o = opts[k];
        let cur = opts[b];
        if o.estimated_speedup_milli > cur.estimated_speedup_milli || (o.estimated_speedup_milli
            == cur.estimated_speedup_milli && o.estimated_cost_micro_usd
            < cur.estimated_cost_micro_usd) {
            b = k;
        }
        k = k + 1;
    }
    proof {
        lemma_best_of_preferred(opts@, opts@.len() as int);
    }
    b
}

// ---------------------------------------------------------------------------
// Rationale text
// ---------------------------------------------------------------------------

/// `n / unit` to one decimal place, rounded half up.
pub open spec fn tenths_text(n: nat, unit: nat) -> Seq<char> {
    let t = (n * 10 + unit / 2) / unit;
    nat_text(t / 10) + seq!['.', digit_char(t % 10)]
}

/// A row count in compact form: `1.2B`, `5.0M`, `100.0K` or `950`.
pub open spec fn rows_text(n: nat) -> Seq<char> {
    if n >= 1_000_000_000 {
        tenths_text(n, 1_000_000_000) + "B"@
    } else if n >= 1_000_000 {
        tenths_text(n, 1_000_000) + "M"@
    } else if n >= 1000 {
        tenths_text(n, 1000) + "K"@
    } else {
        nat_text(n)
    }
}

fn push_tenths(out: &mut String, n: u64, unit: u64)
    requires
        unit >= 10,
    ensures
        final(out)@ == old(out)@ + tenths_text(n as nat, unit as nat),
{
    let t128: u128 = ((n as u128) * 10 + (unit as u128) / 2) / (unit as u128);
    assert(t128 <= n as u128) by (nonlinear_arith)
        requires
            t128 as int == (n as int * 10 + unit as int / 2) / (unit as int),
            unit >= 10,
    ;
    let t = t128 as u64;
    push_nat_text(out, t / 10);
    push_char(out, '.');
    let c = ((t % 10) as u32 + '0' as u32) as u8 as char;
    assert(c == digit_char(t as nat));
    push_char(out, c);
    assert(final(out)@ =~= old(out)@ + tenths_text(n as nat, unit as nat));
}

/// A row count in compact form (see `rows_text`).
pub fn format_rows(n: u64) -> (r: String)
    ensures
        r@ == rows_text(n as nat),
{
    let mut r = String::new();
    if n >= 1_000_000_000 {
        push_tenths(&mut r, n, 1_000_000_000);
        r.append("B");
    } else if n >= 1_000_000 {
        push_tenths(&mut r, n, 1_000_000);
        r.append("M");
    } else if n >= 1000 {
        push_tenths(&mut r, n, 1000);
        r.append("K");
    } else {
        push_nat_text(&mut r, n);
    }
    assert(r@ =~= rows_text(n as nat));
    r
}

/// Why `best` was chosen for an operator over `rows` rows, given the GPU
/// offload threshold of the hardware profile.
pub open spec fn rationale_text(rows: nat, threshold: nat, best: BackendOption) -> Seq<char> {
    if best.backend == AcceleratorBackend::Cpu {
        rows_text(rows) + " rows; no available accelerator beats CPU/SIMD (GPU offload threshold "@
            + rows_text(threshold) + ")"@
    } else {
        rows_text(rows) + (if rows > threshold {
            " rows exceeds GPU offload threshold ("@
        } else {
            " rows is within GPU offload threshold ("@
        }) + rows_text(threshold) + "); "@ + best.backend.spec_label() + " provides "@
            + tenths_text(best.estimated_speedup_milli as nat, 1000) + "x speedup"@
    }
}

fn make_rationale(rows: u64, threshold: u64, best: &BackendOption) -> (r: String)
    ensures
        r@ == rationale_text(rows as nat, threshold as nat, *best),
{
    let mut r = format_rows(rows);
    let t = format_rows(threshold);
    match best.backend {
        AcceleratorBackend::Cpu => {
            r.append(" rows; no available accelerator beats CPU/SIMD (GPU offload threshold ");
            r.append(t.as_str());
            r.append(")");
        },
        _ => {
            if rows > threshold {
                r.append(" rows exceeds GPU offload threshold (");
            } else {
                r.append(" rows is within GPU offload threshold (");
            }
            r.append(t.as_str());
            r.append("); ");
            r.append(best.backend.label());
            r.append(" provides ");
            push_tenths(&mut r, best.estimated_speedup_milli, 1000);
            r.append("x speedup");
        },
    }
    assert(r@ =~= rationale_text(rows as nat, threshold as nat, *best));
    r
}

// ---------------------------------------------------------------------------
// Per-operator analysis
// ---------------------------------------------------------------------------

/// The analysis of operator kind `op`, reported as `name` over `rows` rows,
/// with catalog entry `e` on `hw`.
pub open spec fn analysis_named(
    op: AccelerableOp,
    name: Seq<char>,
    rows: u64,
    e: OperatorCost,
    hw: HardwareProfile,
) -> OperatorAnalysisView {
    let opts = options_for(e, hw);
    let best = best_option(opts);
    OperatorAnalysisView {
        operator_name: name,
        op_type: Some(op),
        estimated_rows: rows,
        recommended_backend: best.backend,
        backend_options: opts,
        rationale: rationale_text(rows as nat, hw.gpu_offload_threshold_rows as nat, best),
    }
}

/// The analysis of operator kind `op` with catalog entry `e` on `hw`, under
/// the catalog's name and row volume.
pub open spec fn analysis_of(op: AccelerableOp, e: OperatorCost, hw: HardwareProfile) -> OperatorAnalysisView {
    analysis_named(op, e.operator_name@, e.estimated_rows, e, hw)
}

/// Analyses operator kind `op`, reported as `name` over `rows` rows, with
/// catalog entry `e` on `hw`.
pub fn analyze_named(
    op: AccelerableOp,
    name: String,
    rows: u64,
    e: &OperatorCost,
    hw: &HardwareProfile,
) -> (r: OperatorAnalysis)
    requires
        e.wf(),
    ensures
        r@ == analysis_named(op, name@, rows, *e, *hw),
{
    let opts = backend_options(e, hw);
    let bi = preferred_index(&opts);
    let best = opts[bi];
    let rationale = make_rationale(rows, hw.gpu_offload_threshold_rows, &best);
    OperatorAnalysis {
        operator_name: name,
        op_type: Some(op),
        estimated_rows: rows,
        recommended_backend: best.backend,
        backend_options: opts,
        rationale,
    }
}

/// Analyses operator kind `op`, whose catalog entry is `e`, on `hw`.
pub fn analyze_operator(op: AccelerableOp, e: &OperatorCost, hw: &HardwareProfile) -> (r:
    OperatorAnalysis)
    requires
        e.wf(),
    ensures
        r@ == analysis_of(op, *e, *hw),
{
    analyze_named(op, e.operator_name.clone(), e.estimated_rows, e, hw)
}

// ---------------------------------------------------------------------------
// Strategies
// ---------------------------------------------------------------------------

/// Largest number of operators whose totals the strategies add up.
pub const MAX_OPERATORS: usize = 5_000_000;

pub open spec fn views_of(v: Seq<OperatorAnalysis>) -> Seq<OperatorAnalysisView> {
    v.map_values(|a: OperatorAnalysis| a@)
}

/// The option an operator runs on: its first (CPU) option, or under the
/// accelerated strategy its preferred one.
pub open spec fn picked(v: OperatorAnalysisView, accelerated: bool) -> Option<BackendOption> {
    if v.backend_options.len() == 0 {
        None
    } else if accelerated {
        Some(best_option(v.backend_options))
    } else {
        Some(v.backend_options[0])
    }
}

pub open spec fn time_total(a: Seq<OperatorAnalysisView>, accelerated: bool) -> nat
    decreases a.len(),
{
    if a.len() == 0 {
        0
    } else {
        time_total(a.drop_last(), accelerated) + match picked(a.last(), accelerated) {
            Some(o) => o.estimated_time_ms as nat,
            None => 0,
        }
    }
}

pub open spec fn cost_total(a: Seq<OperatorAnalysisView>, accelerated: bool) -> nat
    decreases a.len(),
{
    if a.len() == 0 {
        0
    } else {
        cost_total(a.drop_last(), accelerated) + match picked(a.last(), accelerated) {
            Some(o) => o.estimated_cost_micro_usd as nat,
            None => 0,
        }
    }
}

/// CPU-only time over accelerated time, in thousandths; 1.0 when the
/// accelerated time is zero.
pub open spec fn speedup_of(cpu_time: nat, accel_time: nat) -> nat {
    if accel_time > 0 {
        cpu_time * 1000 / accel_time
    } else {
        1000
    }
}

/// Queries per hour (in thousandths) at which the extra cost of the
/// accelerated strategy equals the value of the time it saves: defined only
/// when it costs more and saves time.
pub open spec fn break_even_of(cpu_time: nat, cpu_cost: nat, accel_time: nat, accel_cost: nat) -> Option<nat> {
    if accel_cost > cpu_cost && cpu_time > accel_time {
        Some((((accel_cost - cpu_cost) * 3600) / (cpu_time - accel_time)) as nat)
    } else {
        None
    }
}

pub open spec fn backends_of(a: Seq<OperatorAnalysisView>, accelerated: bool) -> Seq<(Seq<char>, AcceleratorBackend)> {
    a.map_values(
        |v: OperatorAnalysisView|
            (v.operator_name, if accelerated {
                v.recommended_backend
            } else {
                AcceleratorBackend::Cpu
            }),
    )
}

pub open spec fn cpu_strategy(a: Seq<OperatorAnalysisView>) -> StrategyView {
    StrategyView {
        name: "CPU-only"@,
        description: "All operators on CPU with SIMD"@,
        total_estimated_time_ms: time_total(a, false) as u64,
        total_estimated_cost_micro_usd: cost_total(a, false) as u64,
        overall_speedup_milli: 1000,
        operator_backends: backends_of(a, false),
        break_even_queries_per_hour_milli: None,
    }
}

pub open spec fn accelerated_strategy(a: Seq<OperatorAnalysisView>) -> StrategyView {
    StrategyView {
        name: "Accelerated"@,
        description: "Optimal hardware per operator"@,
        total_estimated_time_ms: time_total(a, true) as u64,
        total_estimated_cost_micro_usd: cost_total(a, true) as u64,
        overall_speedup_milli: speedup_of(time_total(a, false), time_total(a, true)) as u64,
        operator_backends: backends_of(a, true),
        break_even_queries_per_hour_milli: match break_even_of(
            time_total(a, false),
            cost_total(a, false),
            time_total(a, true),
            cost_total(a, true),
        ) {
            Some(b) => Some(b as u64),
            None => None,
        },
    }
}

/// Every option of an analysis is within the fixed-point limits, and its
/// first (CPU) option within the catalog's CPU time.
pub open spec fn analysis_bounded(v: OperatorAnalysisView) -> bool {
    &&& forall|j: int|
        0 <= j < v.backend_options.len() ==> option_bounded(#[trigger] v.backend_options[j])
    &&& v.backend_options.len() > 0 ==> v.backend_options[0].estimated_time_ms <= MAX_TIME_MS
}

/// Every analysis is within the fixed-point limits.
pub open spec fn analyses_bounded(a: Seq<OperatorAnalysisView>) -> bool {
    forall|i: int| 0 <= i < a.len() ==> analysis_bounded(#[trigger] a[i])
}

/// The analyses that `analysis_named` gives are within the limits.
pub proof fn lemma_analysis_named_bounded(
    op: AccelerableOp,
    name: Seq<char>,
    rows: u64,
    e: OperatorCost,
    hw: HardwareProfile,
)
    requires
        e.wf(),
    ensures
        analysis_bounded(analysis_named(op, name, rows, e, hw)),
{
    lemma_options_for(e, hw);
}

proof fn lemma_totals_bounded(a: Seq<OperatorAnalysisView>)
    requires
        analyses_bounded(a),
    ensures
        time_total(a, false) <= a.len() * MAX_TIME_MS,
        time_total(a, true) <= a.len() * OPTION_TIME_LIMIT,
        cost_total(a, false) <= a.len() * OPTION_COST_LIMIT,
        cost_total(a, true) <= a.len() * OPTION_COST_LIMIT,
    decreases a.len(),
{
    if a.len() > 0 {
        let b = a.drop_last();
        assert(analyses_bounded(b)) by {
            assert forall|i: int| 0 <= i < b.len() implies analysis_bounded(#[trigger] b[i]) by {
                assert(b[i] == a[i]);
            }
        }
        lemma_totals_bounded(b);
        let v = a.last();
        assert(v == a[a.len() - 1]);
        assert(analysis_bounded(v));
        if v.backend_options.len() > 0 {
            lemma_best_of_preferred(v.backend_options, v.backend_options.len() as int);
            let k = best_of(v.backend_options, v.backend_options.len() as int);
            assert(option_bounded(v.backend_options[k]));
            assert(option_bounded(v.backend_options[0]));
        }
        assert(time_total(a, false) <= a.len() * MAX_TIME_MS) by (nonlinear_arith)
            requires
                time_total(a, false) <= time_total(b, false) + MAX_TIME_MS,
                time_total(b, false) <= b.len() * MAX_TIME_MS,
                b.len() + 1 == a.len(),
        ;
        assert(time_total(a, true) <= a.len() * OPTION_TIME_LIMIT) by (nonlinear_arith)
            requires
                time_total(a, true) <= time_total(b, true) + OPTION_TIME_LIMIT,
                time_total(b, true) <= b.len() * OPTION_TIME_LIMIT,
                b.len() + 1 == a.len(),
        ;
        assert(cost_total(a, false) <= a.len() * OPTION_COST_LIMIT) by (nonlinear_arith)
            requires
                cost_total(a, false) <= cost_total(b, false) + OPTION_COST_LIMIT,
                cost_total(b, false) <= b.len() * OPTION_COST_LIMIT,
                b.len() + 1 == a.len(),
        ;
        assert(cost_total(a, true) <= a.len() * OPTION_COST_LIMIT) by (nonlinear_arith)
            requires
                cost_total(a, true) <= cost_total(b, true) + OPTION_COST_LIMIT,
                cost_total(b, true) <= b.len() * OPTION_COST_LIMIT,
                b.len() + 1 == a.len(),
        ;
    }
}

/// Overall speedup of the accelerated strategy (see `speedup_of`).
pub fn overall_speedup(cpu_time: u64, accel_time: u64) -> (r: u64)
    requires
        cpu_time <= MAX_OPERATORS * MAX_TIME_MS,
    ensures
        r == speedup_of(cpu_time as nat, accel_time as nat),
{
    if accel_time > 0 {
        assert((cpu_time as int * 1000) / (accel_time as int) <= cpu_time as int * 1000)
            by (nonlinear_arith)
            requires
                accel_time > 0,
        ;
        cpu_time * 1000 / accel_time
    } else {
        1000
    }
}

/// Break-even throughput of the accelerated strategy (see `break_even_of`).
pub fn break_even(cpu_time: u64, cpu_cost: u64, accel_time: u64, accel_cost: u64) -> (r: Option<u64>)
    requires
        accel_cost <= MAX_OPERATORS * OPTION_COST_LIMIT,
    ensures
        r matches Some(b) ==> break_even_of(cpu_time as nat, cpu_cost as nat, accel_time as nat, accel_cost as nat) == Some(b as nat),
        r is None ==> break_even_of(cpu_time as nat, cpu_cost as nat, accel_time as nat, accel_cost as nat) is None,
{
    if accel_cost > cpu_cost && cpu_time > accel_time {
        let diff = accel_cost - cpu_cost;
        let saved = cpu_time - accel_time;
        assert((diff as int * 3600) / (saved as int) <= diff as int * 3600) by (nonlinear_arith)
            requires
                saved > 0,
        ;
        Some(diff * 3600 / saved)
    } else {
        None
    }
}

/// The two baseline strategies over `analyses`: CPU-only, then accelerated.
pub fn build_strategies(analyses: &Vec<OperatorAnalysis>) -> (r: Vec<StrategyComparison>)
    requires
        analyses.len() <= MAX_OPERATORS,
        analyses_bounded(views_of(analyses@)),
    ensures
        r@.len() == 2,
        r@[0]@ == cpu_strategy(views_of(analyses@)),
        r@[1]@ == accelerated_strategy(views_of(analyses@)),
{
    let ghost all = views_of(analyses@);
    let mut cpu_time: u64 = 0;
    let mut cpu_cost: u64 = 0;
    let mut accel_time: u64 = 0;
    let mut accel_cost: u64 = 0;
    let mut cpu_backends: Vec<(String, AcceleratorBackend)> = Vec::new();
    let mut accel_backends: Vec<(String, AcceleratorBackend)> = Vec::new();
    let mut i: usize = 0;
    while i < analyses.len()
        invariant
            i <= analyses.len() <= MAX_OPERATORS,
            all == views_of(analyses@),
            analyses_bounded(all),
            cpu_time == time_total(all.take(i as int), false),
            cpu_cost == cost_total(all.take(i as int), false),
            accel_time == time_total(all.take(i as int), true),
            accel_cost == cost_total(all.take(i as int), true),
            cpu_backends@.map_values(|p: (String, AcceleratorBackend)| (p.0@, p.1)) == backends_of(
                all.take(i as int),
                false,
            ),
            accel_backends@.map_values(|p: (String, AcceleratorBackend)| (p.0@, p.1)) == backends_of(
                all.take(i as int),
                true,
            ),
        decreases analyses.len() - i,
    {
        let a = &analyses[i];
        let ghost pre = all.take(i as int);
        let ghost post = all.take(i + 1);
        proof {
            assert(post.drop_last() =~= pre);
            assert(post.last() == a@);
            assert(analyses_bounded(post)) by {
                assert forall|x: int| 0 <= x < post.len() implies analysis_bounded(#[trigger] post[x]) by {
                    assert(post[x] == all[x]);
                }
            }
            lemma_totals_bounded(post);
            assert(post.len() * MAX_TIME_MS <= MAX_OPERATORS * MAX_TIME_MS) by (nonlinear_arith)
                requires post.len() <= MAX_OPERATORS;
            assert(post.len() * OPTION_TIME_LIMIT <= MAX_OPERATORS * OPTION_TIME_LIMIT) by (nonlinear_arith)
                requires post.len() <= MAX_OPERATORS;
            assert(post.len() * OPTION_COST_LIMIT <= MAX_OPERATORS * OPTION_COST_LIMIT) by (nonlinear_arith)
                requires post.len() <= MAX_OPERATORS;
        }
        if a.backend_options.len() > 0 {
            let f = a.backend_options[0];
            let b = preferred_index(&a.backend_options);
            let o = a.backend_options[b];
            cpu_time = cpu_time + f.estimated_time_ms;
            cpu_cost = cpu_cost + f.estimated_cost_micro_usd;
            accel_time = accel_time + o.estimated_time_ms;
            accel_cost = accel_cost + o.estimated_cost_micro_usd;
        }
        let ghost cb = cpu_backends@;
        let ghost ab = accel_backends@;
        cpu_backends.push((a.operator_name.clone(), AcceleratorBackend::Cpu));
        accel_backends.push((a.operator_name.clone(), a.recommended_backend));
        i = i + 1;
        proof {
            assert(backends_of(post, false) =~= backends_of(pre, false).push(
                (a@.operator_name, AcceleratorBackend::Cpu),
            ));
            assert(backends_of(post, true) =~= backends_of(pre, true).push(
                (a@.operator_name, a@.recommended_backend),
            ));
            assert(cpu_backends@.map_values(|p: (String, AcceleratorBackend)| (p.0@, p.1))
                =~= cb.map_values(|p: (String, AcceleratorBackend)| (p.0@, p.1)).push(
                (a@.operator_name, AcceleratorBackend::Cpu),
            ));
            assert(accel_backends@.map_values(|p: (String, AcceleratorBackend)| (p.0@, p.1))
                =~= ab.map_values(|p: (String, AcceleratorBackend)| (p.0@, p.1)).push(
                (a@.operator_name, a@.recommended_backend),
            ));
        }
    }
    proof {
        assert(all.take(i as int) =~= all);
        lemma_totals_bounded(all);
        assert(all.len() * MAX_TIME_MS <= MAX_OPERATORS * MAX_TIME_MS) by (nonlinear_arith)
            requires all.len() <= MAX_OPERATORS;
        assert(all.len() * OPTION_TIME_LIMIT <= MAX_OPERATORS * OPTION_TIME_LIMIT) by (nonlinear_arith)
            requires all.len() <= MAX_OPERATORS;
        assert(all.len() * OPTION_COST_LIMIT <= MAX_OPERATORS * OPTION_COST_LIMIT) by (nonlinear_arith)
            requires all.len() <= MAX_OPERATORS;
    }
    let speedup = overall_speedup(cpu_time, accel_time);
    let be = break_even(cpu_time, cpu_cost, accel_time, accel_cost);
    let cpu = StrategyComparison {
        name: String::from_str("CPU-only"),
        description: String::from_str("All operators on CPU with SIMD"),
        total_estimated_time_ms: cpu_time,
        total_estimated_cost_micro_usd: cpu_cost,
        overall_speedup_milli: 1000,
        operator_backends: cpu_backends,
        break_even_queries_per_hour_milli: None,
    };
    let accel = StrategyComparison {
        name: String::from_str("Accelerated"),
        description: String::from_str("Optimal hardware per operator"),
        total_estimated_time_ms: accel_time,
        total_estimated_cost_micro_usd: accel_cost,
        overall_speedup_milli: speedup,
        operator_backends: accel_backends,
        break_even_queries_per_hour_milli: be,
    };
    vec![cpu, accel]
}

// ---------------------------------------------------------------------------
// Whole-query analysis
// ---------------------------------------------------------------------------

/// The analyses of operator kinds `ops` under `model` on `hw`, in order.
pub open spec fn analyses_for(ops: Seq<AccelerableOp>, model: CostModel, hw: HardwareProfile) -> Seq<OperatorAnalysisView> {
    ops.map_values(|op: AccelerableOp| analysis_of(op, model.spec_entry(op), hw))
}

/// The catalog's advice for each operator recommended onto an accelerator.
pub open spec fn hints_for(ops: Seq<AccelerableOp>, model: CostModel, hw: HardwareProfile) -> Seq<Recommendation>
    decreases ops.len(),
{
    if ops.len() == 0 {
        seq![]
    } else {
        let rest = hints_for(ops.drop_last(), model, hw);
        let op = ops.last();
        let e = model.spec_entry(op);
        if analysis_of(op, e, hw).recommended_backend != AcceleratorBackend::Cpu && e.hint is Some {
            rest.push(e.hint.unwrap())
        } else {
            rest
        }
    }
}

/// What an analysis of query `sql` into the operator analyses `a`, with
/// recommendations `recs`, on `hw` holds.
pub open spec fn result_of(
    r: WorkbenchResult,
    sql: Seq<char>,
    a: Seq<OperatorAnalysisView>,
    recs: Seq<Recommendation>,
    hw: HardwareProfile,
) -> bool {
    &&& r.sql@ == sql
    &&& r.hardware_profile == hw
    &&& views_of(r.operator_analyses@) == a
    &&& r.strategies@.len() == 2
    &&& r.strategies@[0]@ == cpu_strategy(a)
    &&& r.strategies@[1]@ == accelerated_strategy(a)
    &&& r.recommended_strategy_index == 1
    &&& r.recommendations@ == recs
}

/// What an analysis of the operators `ops` of query `sql` holds.
pub open spec fn analysis_result(r: WorkbenchResult, sql: Seq<char>, ops: Seq<AccelerableOp>, model: CostModel, hw: HardwareProfile) -> bool {
    result_of(r, sql, analyses_for(ops, model, hw), hints_for(ops, model, hw), hw)
}

/// Gathers the analyses of query `sql` with their strategies.
pub fn assemble(
    sql: &str,
    analyses: Vec<OperatorAnalysis>,
    recs: Vec<Recommendation>,
    hw: HardwareProfile,
) -> (r: WorkbenchResult)
    requires
        analyses.len() <= MAX_OPERATORS,
        analyses_bounded(views_of(analyses@)),
    ensures
        result_of(r, sql@, views_of(analyses@), recs@, hw),
        r.explain_text is None,
{
    let strategies = build_strategies(&analyses);
    WorkbenchResult {
        sql: sql.to_string(),
        explain_text: None,
        hardware_profile: hw,
        operator_analyses: analyses,
        strategies,
        recommended_strategy_index: 1,
        recommendations: recs,
    }
}

/// Analyses the operator kinds `ops` of query `sql`.
pub fn analyze_operators(sql: &str, ops: &Vec<AccelerableOp>, hw: HardwareProfile, model: &CostModel) -> (r: WorkbenchResult)
    requires
        model.wf(),
        ops.len() <= MAX_OPERATORS,
    ensures
        analysis_result(r, sql@, ops@, *model, hw),
        r.explain_text is None,
{
    let mut analyses: Vec<OperatorAnalysis> = Vec::new();
    let mut recs: Vec<Recommendation> = Vec::new();
    let mut i: usize = 0;
    while i < ops.len()
        invariant
            model.wf(),
            i <= ops.len() <= MAX_OPERATORS,
            views_of(analyses@) == analyses_for(ops@.take(i as int), *model, hw),
            recs@ == hints_for(ops@.take(i as int), *model, hw),
        decreases ops.len() - i,
    {
        let op = ops[i];
        let e = model.entry(op);
        assert(model.spec_entry(op).wf());
        let a = analyze_operator(op, e, &hw);
        proof {
            assert(ops@.take(i + 1).drop_last() =~= ops@.take(i as int));
        }
        if a.recommended_backend != AcceleratorBackend::Cpu {
            match &e.hint {
                Some(h) => {
                    recs.push(h.duplicate());
                },
                None => {},
            }
        }
        let ghost before = analyses@;
        analyses.push(a);
        i = i + 1;
        proof {
            assert(views_of(analyses@) =~= views_of(before).push(a@));
            assert(analyses_for(ops@.take(i as int), *model, hw) =~= analyses_for(
                ops@.take(i - 1),
                *model,
                hw,
            ).push(analysis_of(op, model.spec_entry(op), hw)));
        }
    }
    proof {
        assert(ops@.take(i as int) =~= ops@);
        let all = views_of(analyses@);
        assert(analyses_bounded(all)) by {
            assert forall|x: int| 0 <= x < all.len() implies analysis_bounded(#[trigger] all[x]) by {
                let op = ops@[x];
                let e = model.spec_entry(op);
                lemma_analysis_named_bounded(op, e.operator_name@, e.estimated_rows, e, hw);
            }
        }
    }
    assemble(sql, analyses, recs, hw)
}

proof fn lemma_query_ops_len(u: Seq<char>)
    ensures
        2 <= query_ops(u).len() <= 5,
        query_ops(u)[0] == AccelerableOp::Decompression,
{
}

/// Analyses query `sql` from its upper-cased text `upper`.
pub fn analyze_upper(sql: &str, upper: &str, hw: HardwareProfile, model: &CostModel) -> (r: WorkbenchResult)
    requires
        model.wf(),
    ensures
        analysis_result(r, sql@, query_ops(upper@), *model, hw),
        r.explain_text is None,
{
    let ops = detect_operators(upper);
    proof {
        lemma_query_ops_len(upper@);
    }
    analyze_operators(sql, &ops, hw, model)
}

/// Analyses query `sql` on hardware `hw` with the catalog `model`.
pub fn analyze(sql: &str, hw: HardwareProfile, model: &CostModel) -> (r: WorkbenchResult)
    requires
        model.wf(),
    ensures
        analysis_result(r, sql@, query_ops(upper_of(sql@)), *model, hw),
        r.explain_text is None,
{
    let upper = uppercase(sql);
    analyze_upper(sql, upper.as_str(), hw, model)
}

/// The profile of the demonstration cluster: two A100 GPUs, an Alveo FPGA,
/// an NPU and AVX2.
pub open spec fn is_demo_profile(r: HardwareProfile) -> bool {
    &&& r.gpu_count == 2
    &&& r.gpu_total_vram_bytes == 160 * 1024 * 1024 * 1024
    &&& r.gpu_device_name matches Some(n) && n@ == "NVIDIA A100-SXM4-80GB"@
    &&& r.gpu_compute_capability == Some((8u32, 0u32))
    &&& r.fpga_available
    &&& r.fpga_device_name matches Some(n) && n@ == "Xilinx Alveo U250"@
    &&& r.npu_available
    &&& r.simd_level == SimdLevel::Avx2
    &&& r.cpu_batch_size == 8192
    &&& r.gpu_batch_size == 65536
    &&& r.gpu_offload_threshold_rows == 100_000
}

/// The profile of the demonstration cluster (see `is_demo_profile`).
pub fn demo_hardware_profile() -> (r: HardwareProfile)
    ensures
        is_demo_profile(r),
{
    HardwareProfile {
        gpu_count: 2,
        gpu_total_vram_bytes: 160 * 1024 * 1024 * 1024,
        gpu_device_name: Some(String::from_str("NVIDIA A100-SXM4-80GB")),
        gpu_compute_capability: Some((8, 0)),
        fpga_available: true,
        fpga_device_name: Some(String::from_str("Xilinx Alveo U250")),
        npu_available: true,
        simd_level: SimdLevel::Avx2,
        cpu_batch_size: 8192,
        gpu_batch_size: 65536,
        gpu_offload_threshold_rows: 100_000,
    }
}

/// The sample plan shown beside a demonstration analysis.
pub open spec fn demo_plan_text() -> Seq<char> {
    "HashAggregateExec: SUM(cost) GROUP BY service\n  FilterExec: billing_period = '2026-01'\n    ParquetScan: aws_cur (1.2B rows, ZSTD compressed)"@
}

/// Analyses `sql` for the demonstration cluster with the standard catalog.
pub fn mock_analyze(sql: &str) -> (r: WorkbenchResult)
    ensures
        exists|hw: HardwareProfile, model: CostModel|
            analysis_result(r, sql@, query_ops(upper_of(sql@)), model, hw) && model.wf()
                && model.is_standard() && is_demo_profile(hw),
        r.explain_text matches Some(t) && t@ == demo_plan_text(),
{
    let hw = demo_hardware_profile();
    let model = CostModel::standard();
    let ghost h = hw;
    let mut r = analyze(sql, hw, &model);
    r.explain_text = Some(
        String::from_str(
            "HashAggregateExec: SUM(cost) GROUP BY service\n  FilterExec: billing_period = '2026-01'\n    ParquetScan: aws_cur (1.2B rows, ZSTD compressed)",
        ),
    );
    assert(analysis_result(r, sql@, query_ops(upper_of(sql@)), model, h));
    r
}

// ---------------------------------------------------------------------------
// Laws
// ---------------------------------------------------------------------------

/// On hardware without any accelerator, every operator of every query is
/// analysed with the CPU as its only option, and the CPU is recommended.
pub proof fn lemma_cpu_only_hardware(u: Seq<char>, model: CostModel, hw: HardwareProfile)
    requires
        model.wf(),
        hw.cpu_only(),
    ensures
        forall|i: int|
            0 <= i < analyses_for(query_ops(u), model, hw).len() ==> {
                let a = #[trigger] analyses_for(query_ops(u), model, hw)[i];
                &&& a.backend_options.len() == 1
                &&& a.backend_options[0].backend == AcceleratorBackend::Cpu
                &&& a.recommended_backend == AcceleratorBackend::Cpu
            },
{
    assert forall|i: int| 0 <= i < analyses_for(query_ops(u), model, hw).len() implies {
        let a = #[trigger] analyses_for(query_ops(u), model, hw)[i];
        &&& a.backend_options.len() == 1
        &&& a.backend_options[0].backend == AcceleratorBackend::Cpu
        &&& a.recommended_backend == AcceleratorBackend::Cpu
    } by {
        let op = query_ops(u)[i];
        lemma_options_for(model.spec_entry(op), hw);
    }
}

/// Every analysis offers at least two strategies and recommends one of them.
pub proof fn lemma_strategies_nonempty(r: WorkbenchResult, sql: Seq<char>, ops: Seq<AccelerableOp>, model: CostModel, hw: HardwareProfile)
    requires
        analysis_result(r, sql, ops, model, hw),
    ensures
        r.strategies@.len() >= 2,
        r.recommended_strategy_index < r.strategies@.len(),
{
}

/// No break-even throughput exists when the accelerated strategy costs no
/// more than the CPU-only one, whatever time it saves.
pub proof fn lemma_no_break_even_when_not_dearer(cpu_time: nat, cpu_cost: nat, accel_time: nat, accel_cost: nat)
    requires
        accel_cost <= cpu_cost,
    ensures
        break_even_of(cpu_time, cpu_cost, accel_time, accel_cost) is None,
{
}

/// The accelerated strategy of any analysis has no break-even throughput
/// when its total cost is at most that of the CPU-only strategy.
pub proof fn lemma_accelerated_break_even(a: Seq<OperatorAnalysisView>)
    requires
        cost_total(a, true) <= cost_total(a, false),
    ensures
        accelerated_strategy(a).break_even_queries_per_hour_milli is None,
{
}

} // verus!
