use megafactory_sql_types::advisor::{AccelerableOp, AcceleratorBackend, HardwareProfile};
use megafactory_sql_types::cost_model::CostModel;
use megafactory_sql_types::document::DocValue;
use megafactory_sql_types::explain::PlanNode;
use megafactory_sql_types::plan_advice::{advise, analyze_plan, classify_operator, kind_of_operator};

#[test]
fn operator_names_classified() {
    assert_eq!(classify_operator("HashAggregate"), Some(AccelerableOp::HashAggregate));
    assert_eq!(classify_operator("GroupAggregate"), Some(AccelerableOp::HashAggregate));
    assert_eq!(classify_operator("Hash Join"), Some(AccelerableOp::HashJoin));
    assert_eq!(classify_operator("HashJoinExec"), Some(AccelerableOp::HashJoin));
    assert_eq!(classify_operator("sortExec"), Some(AccelerableOp::Sort));
    assert_eq!(classify_operator("Seq Scan"), Some(AccelerableOp::Decompression));
    assert_eq!(classify_operator("VectorDistanceExec"), Some(AccelerableOp::VectorDistance));
    assert_eq!(classify_operator("Nested Loop"), None);
    assert_eq!(kind_of_operator("filter"), None);
    assert_eq!(kind_of_operator("FILTER"), Some(AccelerableOp::Filter));
}

#[test]
fn plan_nodes_analysed_with_their_rows() {
    let text = "HashAggregate  (cost=10.00..20.00 rows=1000 width=8)\n  -> Seq Scan on t  (cost=0.00..10.00 rows=5000000 width=8)\n  -> Nested Loop";
    let plan = PlanNode::parse_text(text).unwrap();
    let mut hw = HardwareProfile::default();
    hw.gpu_count = 1;
    let r = analyze_plan("SELECT 1", &plan, hw, &CostModel::standard());
    assert_eq!(r.operator_analyses.len(), 2);
    let agg = &r.operator_analyses[0];
    assert_eq!(agg.operator_name, "HashAggregate");
    assert_eq!(agg.estimated_rows, 1000);
    assert_eq!(agg.recommended_backend, AcceleratorBackend::Gpu);
    assert_eq!(
        agg.rationale,
        "1.0K rows is within GPU offload threshold (100.0K); GPU (CUDA) provides 9.3x speedup"
    );
    let scan = &r.operator_analyses[1];
    assert_eq!(scan.operator_name, "Seq Scan");
    assert_eq!(scan.op_type, Some(AccelerableOp::Decompression));
    assert_eq!(scan.recommended_backend, AcceleratorBackend::Cpu);
    assert_eq!(scan.backend_options.len(), 1);
    assert_eq!(
        scan.rationale,
        "5.0M rows; no available accelerator beats CPU/SIMD (GPU offload threshold 100.0K)"
    );
    assert_eq!(r.strategies[0].total_estimated_time_ms, 31900);
    assert_eq!(r.strategies[1].total_estimated_time_ms, 11016);
    assert_eq!(r.recommendations.len(), 1);
}

#[test]
fn measured_rows_preferred() {
    let plan = DocValue::Object(vec![
        ("Node Type".to_string(), DocValue::Text("Sort".to_string())),
        ("Plan Rows".to_string(), DocValue::Number("10".to_string())),
        ("Actual Rows".to_string(), DocValue::Number("2500".to_string())),
    ]);
    let node = PlanNode::from_json_plan(&plan).unwrap();
    let r = advise("SELECT 1", Some(&node), HardwareProfile::default(), &CostModel::standard());
    assert_eq!(r.operator_analyses.len(), 1);
    assert_eq!(r.operator_analyses[0].op_type, Some(AccelerableOp::Sort));
    assert_eq!(r.operator_analyses[0].estimated_rows, 2500);
    assert!(r.recommendations.is_empty());
}

#[test]
fn unclassified_plan_falls_back_to_query_text() {
    let plan = PlanNode::parse_text("Nested Loop\n  -> Result").unwrap();
    let r = advise("SELECT a FROM t GROUP BY a", Some(&plan), HardwareProfile::default(), &CostModel::standard());
    assert_eq!(r.operator_analyses.len(), 2);
    assert_eq!(r.operator_analyses[0].operator_name, "ParquetScan");
    assert_eq!(r.operator_analyses[1].operator_name, "HashAggregateExec");
    let without = advise("SELECT a FROM t GROUP BY a", None, HardwareProfile::default(), &CostModel::standard());
    assert_eq!(without.operator_analyses.len(), 2);
    assert_eq!(without.strategies.len(), 2);
}
