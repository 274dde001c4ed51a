use megafactory_sql_types::advisor::{
    AccelerableOp, AcceleratorBackend, HardwareProfile, RecommendationCategory, SimdLevel,
};
use megafactory_sql_types::cost_model::CostModel;
use megafactory_sql_types::engine::{
    analyze, break_even, classify_query, demo_hardware_profile, detect_operators, format_rows,
    mock_analyze, overall_speedup,
};

#[test]
fn accelerable_op_labels() {
    assert_eq!(AccelerableOp::HashAggregate.label(), "Hash Aggregate");
    assert_eq!(AccelerableOp::Decompression.label(), "Decompression");
}

#[test]
fn backend_labels() {
    assert_eq!(AcceleratorBackend::Gpu.label(), "GPU (CUDA)");
    assert_eq!(AcceleratorBackend::Cpu.badge(), "CPU");
}

#[test]
fn default_hardware_profile() {
    let profile = HardwareProfile::default();
    assert_eq!(profile.gpu_count, 0);
    assert_eq!(profile.cpu_batch_size, 8192);
    assert_eq!(profile.gpu_batch_size, 65536);
    assert_eq!(profile.gpu_offload_threshold_rows, 100_000);
}

#[test]
fn recommendation_category_labels() {
    assert_eq!(
        RecommendationCategory::HardwareAcceleration.label(),
        "Hardware Acceleration"
    );
    assert_eq!(RecommendationCategory::StorageTier.label(), "Storage Tier");
}

#[test]
fn simd_and_badge_labels() {
    assert_eq!(SimdLevel::Avx512.label(), "AVX-512");
    assert_eq!(SimdLevel::Sse42.label(), "SSE 4.2");
    assert_eq!(AcceleratorBackend::Fpga.badge(), "FPGA");
    assert_eq!(AcceleratorBackend::Npu.label(), "NPU (ONNX)");
}

#[test]
fn classification_ignores_case() {
    let ops = classify_query("select region, sum(cost) from cur group by region");
    assert_eq!(ops, vec![AccelerableOp::Decompression, AccelerableOp::HashAggregate]);
    let all = classify_query(
        "SELECT COST_FORECAST(x) FROM g GRAPH MATCH (a)-[e]->(b) ORDER BY v <-> q GROUP BY a",
    );
    assert_eq!(
        all,
        vec![
            AccelerableOp::Decompression,
            AccelerableOp::HashAggregate,
            AccelerableOp::GraphTraversal,
            AccelerableOp::VectorDistance,
            AccelerableOp::CostAnalytics,
        ]
    );
}

#[test]
fn classification_without_constructs_adds_filter() {
    assert_eq!(
        detect_operators("SELECT * FROM T WHERE A = 1"),
        vec![AccelerableOp::Decompression, AccelerableOp::Filter]
    );
}

#[test]
fn aggregate_query_on_gpu_cluster() {
    let mut hw = HardwareProfile::default();
    hw.gpu_count = 2;
    let model = CostModel::standard();
    let r = analyze("SELECT service, SUM(cost) FROM cur GROUP BY service", hw, &model);
    assert!(r.operator_analyses.len() >= 2);
    assert_eq!(r.operator_analyses[0].op_type, Some(AccelerableOp::Decompression));
    let agg = &r.operator_analyses[1];
    assert_eq!(agg.op_type, Some(AccelerableOp::HashAggregate));
    assert_eq!(agg.recommended_backend, AcceleratorBackend::Gpu);
    assert!(!agg.rationale.is_empty());
    assert!(agg.rationale.contains("threshold (100.0K)"));
    assert_eq!(
        agg.rationale,
        "1.2B rows exceeds GPU offload threshold (100.0K); GPU (CUDA) provides 9.3x speedup"
    );
}

#[test]
fn empty_query_still_analysed() {
    let r = analyze("", HardwareProfile::default(), &CostModel::standard());
    assert_eq!(r.sql, "");
    assert_eq!(r.operator_analyses.len(), 2);
    assert_eq!(r.operator_analyses[0].operator_name, "ParquetScan");
    assert_eq!(r.operator_analyses[1].operator_name, "FilterExec");
    assert_eq!(r.strategies.len(), 2);
    assert_eq!(r.recommended_strategy_index, 1);
}

#[test]
fn cpu_only_hardware_keeps_everything_on_cpu() {
    let r = analyze(
        "SELECT SUM(x) FROM t GRAPH MATCH (a) ORDER BY v <-> q",
        HardwareProfile::default(),
        &CostModel::standard(),
    );
    assert_eq!(r.operator_analyses.len(), 4);
    for a in &r.operator_analyses {
        assert_eq!(a.backend_options.len(), 1);
        assert_eq!(a.backend_options[0].backend, AcceleratorBackend::Cpu);
        assert_eq!(a.recommended_backend, AcceleratorBackend::Cpu);
    }
    assert_eq!(
        r.operator_analyses[1].rationale,
        "1.2B rows; no available accelerator beats CPU/SIMD (GPU offload threshold 100.0K)"
    );
    assert_eq!(r.strategies[1].overall_speedup_milli, 1000);
    assert_eq!(r.strategies[1].break_even_queries_per_hour_milli, None);
    assert!(r.recommendations.is_empty());
}

#[test]
fn demo_analysis_strategies() {
    let r = mock_analyze("SELECT service, SUM(cost) FROM cur GROUP BY service");
    assert_eq!(r.hardware_profile.gpu_count, 2);
    assert!(r.explain_text.is_some());
    let scan = &r.operator_analyses[0];
    assert_eq!(scan.recommended_backend, AcceleratorBackend::Fpga);
    assert_eq!(scan.backend_options.len(), 2);
    assert_eq!(scan.backend_options[1].estimated_time_ms, 1700);
    let agg = &r.operator_analyses[1];
    assert_eq!(agg.backend_options[1].estimated_time_ms, 2516);
    let cpu = &r.strategies[0];
    let acc = &r.strategies[1];
    assert_eq!(cpu.name, "CPU-only");
    assert_eq!(cpu.total_estimated_time_ms, 31900);
    assert_eq!(cpu.total_estimated_cost_micro_usd, 29000);
    assert_eq!(cpu.overall_speedup_milli, 1000);
    assert_eq!(cpu.break_even_queries_per_hour_milli, None);
    assert_eq!(acc.name, "Accelerated");
    assert_eq!(acc.total_estimated_time_ms, 4216);
    assert_eq!(acc.total_estimated_cost_micro_usd, 95000);
    assert_eq!(acc.overall_speedup_milli, 7566);
    assert_eq!(acc.break_even_queries_per_hour_milli, Some(8582));
    assert_eq!(
        acc.operator_backends,
        vec![
            ("ParquetScan".to_string(), AcceleratorBackend::Fpga),
            ("HashAggregateExec".to_string(), AcceleratorBackend::Gpu),
        ]
    );
    assert_eq!(r.recommendations.len(), 1);
    assert_eq!(r.recommendations[0].category, RecommendationCategory::HardwareAcceleration);
    assert_eq!(r.recommendations[0].title, "Enable GPU for OLAP aggregation");
}

#[test]
fn demo_profile_fields() {
    let hw = demo_hardware_profile();
    assert_eq!(hw.gpu_device_name.as_deref(), Some("NVIDIA A100-SXM4-80GB"));
    assert_eq!(hw.gpu_compute_capability, Some((8, 0)));
    assert!(hw.fpga_available && hw.npu_available);
    assert_eq!(hw.simd_level, SimdLevel::Avx2);
}

#[test]
fn vector_and_analytics_backends() {
    let r = mock_analyze("SELECT cost_anomaly_score(x) FROM t ORDER BY v <-> q");
    assert_eq!(r.operator_analyses.len(), 3);
    let vec_op = &r.operator_analyses[1];
    assert_eq!(vec_op.operator_name, "VectorDistanceExec");
    assert_eq!(vec_op.backend_options[1].estimated_time_ms, 9);
    assert_eq!(vec_op.recommended_backend, AcceleratorBackend::Gpu);
    let cost_op = &r.operator_analyses[2];
    assert_eq!(cost_op.recommended_backend, AcceleratorBackend::Npu);
    assert_eq!(cost_op.backend_options[1].estimated_time_ms, 150);
    assert_eq!(
        cost_op.rationale,
        "500.0K rows exceeds GPU offload threshold (100.0K); NPU (ONNX) provides 8.0x speedup"
    );
}

#[test]
fn break_even_formula() {
    assert_eq!(break_even(31900, 29000, 4216, 95000), Some(8582));
    assert_eq!(break_even(10_000, 1_000, 6_400, 2_000), Some(1000));
}

#[test]
fn break_even_absent_when_not_dearer() {
    assert_eq!(break_even(10_000, 5_000, 1_000, 5_000), None);
    assert_eq!(break_even(10_000, 5_000, 1_000, 4_000), None);
    assert_eq!(break_even(1_000, 1_000, 1_000, 9_000), None);
}

#[test]
fn overall_speedup_formula() {
    assert_eq!(overall_speedup(31900, 4216), 7566);
    assert_eq!(overall_speedup(500, 0), 1000);
}

#[test]
fn compact_row_counts() {
    assert_eq!(format_rows(950), "950");
    assert_eq!(format_rows(1500), "1.5K");
    assert_eq!(format_rows(100_000), "100.0K");
    assert_eq!(format_rows(5_000_000), "5.0M");
    assert_eq!(format_rows(1_200_000_000), "1.2B");
    assert_eq!(format_rows(1_250_000_000), "1.3B");
}
