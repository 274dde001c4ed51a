//! Types of the hardware-acceleration advisor: operator kinds, backends, the
//! hardware profile, per-operator analyses, strategies and recommendations.
//!
//! Quantities are fixed-point integers: times in milliseconds, money in
//! millionths of a US dollar, and ratios (speedups, break-even rates) in
//! thousandths.
use vstd::prelude::*;

verus! {

/// Query operators that can be accelerated by hardware.
#[derive(Debug, Clone, Copy, PartialEq, Eq, Hash, Structural)]
pub enum AccelerableOp {
    HashAggregate,
    Filter,
    Sort,
    HashJoin,
    GraphTraversal,
    VectorDistance,
    CostAnalytics,
    Decompression,
    RuleEngine,
}

impl AccelerableOp {
    pub open spec fn spec_label(self) -> Seq<char> {
        match self {
            AccelerableOp::HashAggregate => "Hash Aggregate"@,
            AccelerableOp::Filter => "Filter"@,
            AccelerableOp::Sort => "Sort"@,
            AccelerableOp::HashJoin => "Hash Join"@,
            AccelerableOp::GraphTraversal => "Graph Traversal"@,
            AccelerableOp::VectorDistance => "Vector Distance"@,
            AccelerableOp::CostAnalytics => "Cost Analytics"@,
            AccelerableOp::Decompression => "Decompression"@,
            AccelerableOp::RuleEngine => "Rule Engine"@,
        }
    }

    pub fn label(&self) -> (r: &'static str)
        ensures
            r@ == self.spec_label(),
    {
        match self {
            AccelerableOp::HashAggregate => "Hash Aggregate",
            AccelerableOp::Filter => "Filter",
            AccelerableOp::Sort => "Sort",
            AccelerableOp::HashJoin => "Hash Join",
            AccelerableOp::GraphTraversal => "Graph Traversal",
            AccelerableOp::VectorDistance => "Vector Distance",
            AccelerableOp::CostAnalytics => "Cost Analytics",
            AccelerableOp::Decompression => "Decompression",
            AccelerableOp::RuleEngine => "Rule Engine",
        }
    }
}

/// Execution backend for an operator.
#[derive(Debug, Clone, Copy, PartialEq, Eq, Hash, Structural)]
pub enum AcceleratorBackend {
    Cpu,
    Gpu,
    Fpga,
    Npu,
}

impl AcceleratorBackend {
    pub open spec fn spec_label(self) -> Seq<char> {
        match self {
            AcceleratorBackend::Cpu => "CPU/SIMD"@,
            AcceleratorBackend::Gpu => "GPU (CUDA)"@,
            AcceleratorBackend::Fpga => "FPGA (OpenCL)"@,
            AcceleratorBackend::Npu => "NPU (ONNX)"@,
        }
    }

    pub open spec fn spec_badge(self) -> Seq<char> {
        match self {
            AcceleratorBackend::Cpu => "CPU"@,
            AcceleratorBackend::Gpu => "GPU"@,
            AcceleratorBackend::Fpga => "FPGA"@,
            AcceleratorBackend::Npu => "NPU"@,
        }
    }

    pub fn label(&self) -> (r: &'static str)
        ensures
            r@ == self.spec_label(),
    {
        match self {
            AcceleratorBackend::Cpu => "CPU/SIMD",
            AcceleratorBackend::Gpu => "GPU (CUDA)",
            AcceleratorBackend::Fpga => "FPGA (OpenCL)",
            AcceleratorBackend::Npu => "NPU (ONNX)",
        }
    }

    pub fn badge(&self) -> (r: &'static str)
        ensures
            r@ == self.spec_badge(),
    {
        match self {
            AcceleratorBackend::Cpu => "CPU",
            AcceleratorBackend::Gpu => "GPU",
            AcceleratorBackend::Fpga => "FPGA",
            AcceleratorBackend::Npu => "NPU",
        }
    }
}

/// SIMD capability level detected at runtime.
#[derive(Debug, Clone, Copy, PartialEq, Eq, Structural)]
pub enum SimdLevel {
    Scalar,
    Sse42,
    Avx2,
    Avx512,
    Neon,
}

impl SimdLevel {
    pub open spec fn spec_label(self) -> Seq<char> {
        match self {
            SimdLevel::Scalar => "Scalar"@,
            SimdLevel::Sse42 => "SSE 4.2"@,
            SimdLevel::Avx2 => "AVX2"@,
            SimdLevel::Avx512 => "AVX-512"@,
            SimdLevel::Neon => "NEON"@,
        }
    }

    pub fn label(&self) -> (r: &'static str)
        ensures
            r@ == self.spec_label(),
    {
        match self {
            SimdLevel::Scalar => "Scalar",
            SimdLevel::Sse42 => "SSE 4.2",
            SimdLevel::Avx2 => "AVX2",
            SimdLevel::Avx512 => "AVX-512",
            SimdLevel::Neon => "NEON",
        }
    }
}

/// Hardware capabilities of the cluster the advice is for.
#[derive(Debug, Clone)]
pub struct HardwareProfile {
    pub gpu_count: u32,
    pub gpu_total_vram_bytes: u64,
    pub gpu_device_name: Option<String>,
    pub gpu_compute_capability: Option<(u32, u32)>,
    pub fpga_available: bool,
    pub fpga_device_name: Option<String>,
    pub npu_available: bool,
    pub simd_level: SimdLevel,
    pub cpu_batch_size: u64,
    pub gpu_batch_size: u64,
    pub gpu_offload_threshold_rows: u64,
}

impl HardwareProfile {
    /// Whether this profile offers backend `b`; the CPU is always there.
    pub open spec fn offers(&self, b: AcceleratorBackend) -> bool {
        match b {
            AcceleratorBackend::Cpu => true,
            AcceleratorBackend::Gpu => self.gpu_count > 0,
            AcceleratorBackend::Fpga => self.fpga_available,
            AcceleratorBackend::Npu => self.npu_available,
        }
    }

    /// No accelerator of any kind.
    pub open spec fn cpu_only(&self) -> bool {
        self.gpu_count == 0 && !self.fpga_available && !self.npu_available
    }

    pub fn has_backend(&self, b: AcceleratorBackend) -> (r: bool)
        ensures
            r == self.offers(b),
    {
        match b {
            AcceleratorBackend::Cpu => true,
            AcceleratorBackend::Gpu => self.gpu_count > 0,
            AcceleratorBackend::Fpga => self.fpga_available,
            AcceleratorBackend::Npu => self.npu_available,
        }
    }
}

impl Default for HardwareProfile {
    /// A CPU-only profile with scalar SIMD and the usual batch sizes.
    fn default() -> (r: Self)
        ensures
            r.gpu_count == 0,
            r.gpu_total_vram_bytes == 0,
            r.gpu_device_name is None,
            r.gpu_compute_capability is None,
            !r.fpga_available,
            r.fpga_device_name is None,
            !r.npu_available,
            r.simd_level == SimdLevel::Scalar,
            r.cpu_batch_size == 8192,
            r.gpu_batch_size == 65536,
            r.gpu_offload_threshold_rows == 100_000,
    {
        HardwareProfile {
            gpu_count: 0,
            gpu_total_vram_bytes: 0,
            gpu_device_name: None,
            gpu_compute_capability: None,
            fpga_available: false,
            fpga_device_name: None,
            npu_available: false,
            simd_level: SimdLevel::Scalar,
            cpu_batch_size: 8192,
            gpu_batch_size: 65536,
            gpu_offload_threshold_rows: 100_000,
        }
    }
}

/// A candidate backend for an operator with performance and cost estimates.
#[derive(Debug, Clone, Copy, PartialEq, Eq, Structural)]
pub struct BackendOption {
    pub backend: AcceleratorBackend,
    /// Speedup over the CPU, in thousandths.
    pub estimated_speedup_milli: u64,
    pub estimated_time_ms: u64,
    /// Cost in millionths of a US dollar.
    pub estimated_cost_micro_usd: u64,
    pub available: bool,
}

/// Analysis of a single operator of a query.
#[derive(Debug, Clone)]
pub struct OperatorAnalysis {
    /// Operator name (e.g. "HashAggregateExec").
    pub operator_name: String,
    /// Classified accelerable operation type.
    pub op_type: Option<AccelerableOp>,
    pub estimated_rows: u64,
    pub recommended_backend: AcceleratorBackend,
    /// The backends considered, in the order they were enumerated.
    pub backend_options: Vec<BackendOption>,
    /// Why the recommended backend was chosen.
    pub rationale: String,
}

pub struct OperatorAnalysisView {
    pub operator_name: Seq<char>,
    pub op_type: Option<AccelerableOp>,
    pub estimated_rows: u64,
    pub recommended_backend: AcceleratorBackend,
    pub backend_options: Seq<BackendOption>,
    pub rationale: Seq<char>,
}

impl View for OperatorAnalysis {
    type V = OperatorAnalysisView;

    open spec fn view(&self) -> OperatorAnalysisView {
        OperatorAnalysisView {
            operator_name: self.operator_name@,
            op_type: self.op_type,
            estimated_rows: self.estimated_rows,
            recommended_backend: self.recommended_backend,
            backend_options: self.backend_options@,
            rationale: self.rationale@,
        }
    }
}

/// An execution strategy: one backend for every operator of a query.
#[derive(Debug, Clone)]
pub struct StrategyComparison {
    pub name: String,
    pub description: String,
    pub total_estimated_time_ms: u64,
    /// Total cost in millionths of a US dollar.
    pub total_estimated_cost_micro_usd: u64,
    /// Speedup over the CPU-only strategy, in thousandths.
    pub overall_speedup_milli: u64,
    /// Per-operator backend assignments.
    pub operator_backends: Vec<(String, AcceleratorBackend)>,
    /// Queries per hour (in thousandths) at which this strategy's higher cost
    /// per run is paid back by the time it saves.
    pub break_even_queries_per_hour_milli: Option<u64>,
}

pub struct StrategyView {
    pub name: Seq<char>,
    pub description: Seq<char>,
    pub total_estimated_time_ms: u64,
    pub total_estimated_cost_micro_usd: u64,
    pub overall_speedup_milli: u64,
    pub operator_backends: Seq<(Seq<char>, AcceleratorBackend)>,
    pub break_even_queries_per_hour_milli: Option<u64>,
}

impl View for StrategyComparison {
    type V = StrategyView;

    open spec fn view(&self) -> StrategyView {
        StrategyView {
            name: self.name@,
            description: self.description@,
            total_estimated_time_ms: self.total_estimated_time_ms,
            total_estimated_cost_micro_usd: self.total_estimated_cost_micro_usd,
            overall_speedup_milli: self.overall_speedup_milli,
            operator_backends: self.operator_backends@.map_values(
                |p: (String, AcceleratorBackend)| (p.0@, p.1),
            ),
            break_even_queries_per_hour_milli: self.break_even_queries_per_hour_milli,
        }
    }
}

/// Full workbench analysis of a query.
#[derive(Debug, Clone)]
pub struct WorkbenchResult {
    pub sql: String,
    pub explain_text: Option<String>,
    pub hardware_profile: HardwareProfile,
    pub operator_analyses: Vec<OperatorAnalysis>,
    pub strategies: Vec<StrategyComparison>,
    pub recommended_strategy_index: usize,
    pub recommendations: Vec<Recommendation>,
}

/// Actionable recommendation from the workbench.
#[derive(Debug, Clone)]
pub struct Recommendation {
    pub category: RecommendationCategory,
    pub title: String,
    pub description: String,
    /// Optional DDL or configuration change the user can copy.
    pub actionable_sql: Option<String>,
}

impl Recommendation {
    pub fn duplicate(&self) -> (r: Recommendation)
        ensures
            r == *self,
    {
        Recommendation {
            category: self.category,
            title: self.title.clone(),
            description: self.description.clone(),
            actionable_sql: match &self.actionable_sql {
                Some(s) => Some(s.clone()),
                None => None,
            },
        }
    }
}

/// Categories of recommendations.
#[derive(Debug, Clone, Copy, PartialEq, Eq, Structural)]
pub enum RecommendationCategory {
    HardwareAcceleration,
    StorageTier,
    PartitionStrategy,
    IndexSuggestion,
    QueryRewrite,
    ScalingHint,
}

impl RecommendationCategory {
    pub open spec fn spec_label(self) -> Seq<char> {
        match self {
            RecommendationCategory::HardwareAcceleration => "Hardware Acceleration"@,
            RecommendationCategory::StorageTier => "Storage Tier"@,
            RecommendationCategory::PartitionStrategy => "Partition Strategy"@,
            RecommendationCategory::IndexSuggestion => "Index Suggestion"@,
            RecommendationCategory::QueryRewrite => "Query Rewrite"@,
            RecommendationCategory::ScalingHint => "Scaling Hint"@,
        }
    }

    pub fn label(&self) -> (r: &'static str)
        ensures
            r@ == self.spec_label(),
    {
        match self {
            RecommendationCategory::HardwareAcceleration => "Hardware Acceleration",
            RecommendationCategory::StorageTier => "Storage Tier",
            RecommendationCategory::PartitionStrategy => "Partition Strategy",
            RecommendationCategory::IndexSuggestion => "Index Suggestion",
            RecommendationCategory::QueryRewrite => "Query Rewrite",
            RecommendationCategory::ScalingHint => "Scaling Hint",
        }
    }
}

} // verus!
