//! The cost-model catalog: for every accelerable operator kind, its CPU
//! baseline and the accelerators that can run it, with their speedups and
//! costs. The engine reads it; recalibrating means supplying another catalog.
use vstd::prelude::*;
use crate::advisor::{
    AccelerableOp, AcceleratorBackend, Recommendation, RecommendationCategory,
};

verus! {

/// Largest CPU time of one operator in a catalog, in milliseconds.
pub const MAX_TIME_MS: u64 = 1_000_000_000;

/// Largest cost of one operator on one backend, in millionths of a dollar.
pub const MAX_COST_MICRO_USD: u64 = 1_000_000_000;

/// Largest speedup in a catalog, in thousandths.
pub const MAX_SPEEDUP_MILLI: u64 = 1_000_000_000;

/// One accelerator that can run an operator kind.
#[derive(Debug, Clone, Copy, PartialEq, Eq, Structural)]
pub struct AcceleratorCost {
    pub backend: AcceleratorBackend,
    /// Speedup over the CPU, in thousandths.
    pub speedup_milli: u64,
    pub cost_micro_usd: u64,
}

/// The catalog entry of one operator kind.
#[derive(Debug, Clone)]
pub struct OperatorCost {
    /// Name under which the operator is reported (e.g. "HashAggregateExec").
    pub operator_name: String,
    /// Row volume assumed for the operator.
    pub estimated_rows: u64,
    pub cpu_time_ms: u64,
    pub cpu_cost_micro_usd: u64,
    /// Accelerators that can run the operator, in the order they are considered.
    pub accelerators: Vec<AcceleratorCost>,
    /// Advice given when the operator is recommended onto an accelerator.
    pub hint: Option<Recommendation>,
}

impl OperatorCost {
    pub open spec fn wf(&self) -> bool {
        &&& self.cpu_time_ms <= MAX_TIME_MS
        &&& self.cpu_cost_micro_usd <= MAX_COST_MICRO_USD
        &&& forall|i: int|
            0 <= i < self.accelerators@.len() ==> {
                let a = #[trigger] self.accelerators@[i];
                &&& a.backend != AcceleratorBackend::Cpu
                &&& 1 <= a.speedup_milli <= MAX_SPEEDUP_MILLI
                &&& a.cost_micro_usd <= MAX_COST_MICRO_USD
            }
    }
}

/// A catalog with one entry for each operator kind.
#[derive(Debug, Clone)]
pub struct CostModel {
    pub hash_aggregate: OperatorCost,
    pub filter: OperatorCost,
    pub sort: OperatorCost,
    pub hash_join: OperatorCost,
    pub graph_traversal: OperatorCost,
    pub vector_distance: OperatorCost,
    pub cost_analytics: OperatorCost,
    pub decompression: OperatorCost,
    pub rule_engine: OperatorCost,
}

impl CostModel {
    pub open spec fn spec_entry(&self, op: AccelerableOp) -> OperatorCost {
        match op {
            AccelerableOp::HashAggregate => self.hash_aggregate,
            AccelerableOp::Filter => self.filter,
            AccelerableOp::Sort => self.sort,
            AccelerableOp::HashJoin => self.hash_join,
            AccelerableOp::GraphTraversal => self.graph_traversal,
            AccelerableOp::VectorDistance => self.vector_distance,
            AccelerableOp::CostAnalytics => self.cost_analytics,
            AccelerableOp::Decompression => self.decompression,
            AccelerableOp::RuleEngine => self.rule_engine,
        }
    }

    pub open spec fn wf(&self) -> bool {
        forall|op: AccelerableOp| #[trigger] self.spec_entry(op).wf()
    }

    pub fn entry(&self, op: AccelerableOp) -> (r: &OperatorCost)
        ensures
            *r == self.spec_entry(op),
    {
        match op {
            AccelerableOp::HashAggregate => &self.hash_aggregate,
            AccelerableOp::Filter => &self.filter,
            AccelerableOp::Sort => &self.sort,
            AccelerableOp::HashJoin => &self.hash_join,
            AccelerableOp::GraphTraversal => &self.graph_traversal,
            AccelerableOp::VectorDistance => &self.vector_distance,
            AccelerableOp::CostAnalytics => &self.cost_analytics,
            AccelerableOp::Decompression => &self.decompression,
            AccelerableOp::RuleEngine => &self.rule_engine,
        }
    }

    /// Entry `e` has the given name, rows, CPU time and cost, and accelerators.
    pub open spec fn entry_is(
        e: OperatorCost,
        name: Seq<char>,
        rows: u64,
        time: u64,
        cost: u64,
        accs: Seq<AcceleratorCost>,
    ) -> bool {
        &&& e.operator_name@ == name
        &&& e.estimated_rows == rows
        &&& e.cpu_time_ms == time
        &&& e.cpu_cost_micro_usd == cost
        &&& e.accelerators@ == accs
    }

    /// The calibrated catalog that `standard` builds.
    pub open spec fn is_standard(&self) -> bool {
        let gpu = AcceleratorBackend::Gpu;
        &&& Self::entry_is(
            self.hash_aggregate,
            "HashAggregateExec"@,
            1_200_000_000,
            23400,
            21000,
            seq![AcceleratorCost { backend: gpu, speedup_milli: 9300, cost_micro_usd: 83000 }],
        )
        &&& self.hash_aggregate.hint matches Some(h) && h.category
            == RecommendationCategory::HardwareAcceleration && h.title@
            == "Enable GPU for OLAP aggregation"@ && h.description@
            == "Set accelerator.gpu.enable_olap_aggregation = true in MegaDB config"@
            && h.actionable_sql is None
        &&& Self::entry_is(self.filter, "FilterExec"@, 1_200_000_000, 3200, 3000, seq![])
        &&& Self::entry_is(self.sort, "SortExec"@, 1_200_000_000, 9800, 9000, seq![])
        &&& Self::entry_is(self.hash_join, "HashJoinExec"@, 1_200_000_000, 15600, 14000, seq![])
        &&& Self::entry_is(
            self.graph_traversal,
            "GraphTraversalExec"@,
            5_000_000,
            12000,
            11000,
            seq![AcceleratorCost { backend: gpu, speedup_milli: 45000, cost_micro_usd: 35000 }],
        )
        &&& Self::entry_is(
            self.vector_distance,
            "VectorDistanceExec"@,
            10_000_000,
            450,
            400,
            seq![AcceleratorCost { backend: gpu, speedup_milli: 50000, cost_micro_usd: 1000 }],
        )
        &&& Self::entry_is(
            self.cost_analytics,
            "CostAnalyticsExec"@,
            500_000,
            1200,
            1000,
            seq![
                AcceleratorCost {
                    backend: AcceleratorBackend::Npu,
                    speedup_milli: 8000,
                    cost_micro_usd: 2000,
                },
            ],
        )
        &&& Self::entry_is(
            self.decompression,
            "ParquetScan"@,
            1_200_000_000,
            8500,
            8000,
            seq![
                AcceleratorCost {
                    backend: AcceleratorBackend::Fpga,
                    speedup_milli: 5000,
                    cost_micro_usd: 12000,
                },
            ],
        )
        &&& Self::entry_is(self.rule_engine, "RuleEngineExec"@, 1_000_000, 2100, 2000, seq![])
        &&& self.filter.hint is None && self.sort.hint is None && self.hash_join.hint is None
        &&& self.graph_traversal.hint is None && self.vector_distance.hint is None
        &&& self.cost_analytics.hint is None && self.decompression.hint is None
        &&& self.rule_engine.hint is None
    }

    /// The calibrated catalog: GPU hash aggregation at 9.3x, GPU graph
    /// traversal at 45x, GPU vector distance at 50x, FPGA decompression at
    /// 5x and NPU cost analytics at 8x; filters, sorts, joins and rule
    /// evaluation stay on the CPU.
    pub fn standard() -> (r: CostModel)
        ensures
            r.wf(),
            r.is_standard(),
    {
        let agg_hint = Recommendation {
            category: RecommendationCategory::HardwareAcceleration,
            title: String::from_str("Enable GPU for OLAP aggregation"),
            description: String::from_str(
                "Set accelerator.gpu.enable_olap_aggregation = true in MegaDB config",
            ),
            actionable_sql: None,
        };
        let r = CostModel {
            hash_aggregate: OperatorCost {
                operator_name: String::from_str("HashAggregateExec"),
                estimated_rows: 1_200_000_000,
                cpu_time_ms: 23400,
                cpu_cost_micro_usd: 21000,
                accelerators: vec![
                    AcceleratorCost {
                        backend: AcceleratorBackend::Gpu,
                        speedup_milli: 9300,
                        cost_micro_usd: 83000,
                    },
                ],
                hint: Some(agg_hint),
            },
            filter: OperatorCost {
                operator_name: String::from_str("FilterExec"),
                estimated_rows: 1_200_000_000,
                cpu_time_ms: 3200,
                cpu_cost_micro_usd: 3000,
                accelerators: Vec::new(),
                hint: None,
            },
            sort: OperatorCost {
                operator_name: String::from_str("SortExec"),
                estimated_rows: 1_200_000_000,
                cpu_time_ms: 9800,
                cpu_cost_micro_usd: 9000,
                accelerators: Vec::new(),
                hint: None,
            },
            hash_join: OperatorCost {
                operator_name: String::from_str("HashJoinExec"),
                estimated_rows: 1_200_000_000,
                cpu_time_ms: 15600,
                cpu_cost_micro_usd: 14000,
                accelerators: Vec::new(),
                hint: None,
            },
            graph_traversal: OperatorCost {
                operator_name: String::from_str("GraphTraversalExec"),
                estimated_rows: 5_000_000,
                cpu_time_ms: 12000,
                cpu_cost_micro_usd: 11000,
                accelerators: vec![
                    AcceleratorCost {
                        backend: AcceleratorBackend::Gpu,
                        speedup_milli: 45000,
                        cost_micro_usd: 35000,
                    },
                ],
                hint: None,
            },
            vector_distance: OperatorCost {
                operator_name: String::from_str("VectorDistanceExec"),
                estimated_rows: 10_000_000,
                cpu_time_ms: 450,
                cpu_cost_micro_usd: 400,
                accelerators: vec![
                    AcceleratorCost {
                        backend: AcceleratorBackend::Gpu,
                        speedup_milli: 50000,
                        cost_micro_usd: 1000,
                    },
                ],
                hint: None,
            },
            cost_analytics: OperatorCost {
                operator_name: String::from_str("CostAnalyticsExec"),
                estimated_rows: 500_000,
                cpu_time_ms: 1200,
                cpu_cost_micro_usd: 1000,
                accelerators: vec![
                    AcceleratorCost {
                        backend: AcceleratorBackend::Npu,
                        speedup_milli: 8000,
                        cost_micro_usd: 2000,
                    },
                ],
                hint: None,
            },
            decompression: OperatorCost {
                operator_name: String::from_str("ParquetScan"),
                estimated_rows: 1_200_000_000,
                cpu_time_ms: 8500,
                cpu_cost_micro_usd: 8000,
                accelerators: vec![
                    AcceleratorCost {
                        backend: AcceleratorBackend::Fpga,
                        speedup_milli: 5000,
                        cost_micro_usd: 12000,
                    },
                ],
                hint: None,
            },
            rule_engine: OperatorCost {
                operator_name: String::from_str("RuleEngineExec"),
                estimated_rows: 1_000_000,
                cpu_time_ms: 2100,
                cpu_cost_micro_usd: 2000,
                accelerators: Vec::new(),
                hint: None,
            },
        };
        assert(r.hash_aggregate.accelerators@ =~= seq![
            AcceleratorCost {
                backend: AcceleratorBackend::Gpu,
                speedup_milli: 9300,
                cost_micro_usd: 83000,
            },
        ]);
        assert(r.filter.accelerators@ =~= Seq::<AcceleratorCost>::empty());
        assert(r.sort.accelerators@ =~= Seq::<AcceleratorCost>::empty());
        assert(r.hash_join.accelerators@ =~= Seq::<AcceleratorCost>::empty());
        assert(r.graph_traversal.accelerators@ =~= seq![
            AcceleratorCost {
                backend: AcceleratorBackend::Gpu,
                speedup_milli: 45000,
                cost_micro_usd: 35000,
            },
        ]);
        assert(r.vector_distance.accelerators@ =~= seq![
            AcceleratorCost {
                backend: AcceleratorBackend::Gpu,
                speedup_milli: 50000,
                cost_micro_usd: 1000,
            },
        ]);
        assert(r.cost_analytics.accelerators@ =~= seq![
            AcceleratorCost {
                backend: AcceleratorBackend::Npu,
                speedup_milli: 8000,
                cost_micro_usd: 2000,
            },
        ]);
        assert(r.decompression.accelerators@ =~= seq![
            AcceleratorCost {
                backend: AcceleratorBackend::Fpga,
                speedup_milli: 5000,
                cost_micro_usd: 12000,
            },
        ]);
        assert(r.rule_engine.accelerators@ =~= Seq::<AcceleratorCost>::empty());
        assert(r.wf()) by {
            assert forall|op: AccelerableOp| #[trigger] r.spec_entry(op).wf() by {
                match op {
                    AccelerableOp::HashAggregate => {},
                    _ => {},
                }
            }
        }
        r
    }
}

} // verus!
