use megafactory_sql_types::document::DocValue;
use megafactory_sql_types::explain::PlanNode;
use megafactory_sql_types::numeric::Decimal;

fn value(d: Decimal) -> f64 {
    d.units as f64 / 10f64.powi(d.scale as i32)
}

#[test]
fn parse_simple_explain_text() {
    let text = "Seq Scan on cur_data  (cost=0.00..1234.56 rows=50000 width=120)";
    let node = PlanNode::parse_text(text).unwrap();
    assert_eq!(node.operator, "Seq Scan");
    assert_eq!(node.relation.as_deref(), Some("cur_data"));
    assert!((value(node.cost_total) - 1234.56).abs() < 0.01);
    assert_eq!(node.estimated_rows, 50000);
    assert_eq!(node.width, 120);
}

#[test]
fn operator_line_fields() {
    let node = PlanNode::parse_text("Hash Join on orders  (cost=12.5..99.75 rows=7 width=16)").unwrap();
    assert_eq!(node.operator, "Hash Join");
    assert_eq!(node.relation.as_deref(), Some("orders"));
    assert_eq!(node.cost_startup, Decimal { units: 125, scale: 1 });
    assert_eq!(node.cost_total, Decimal { units: 9975, scale: 2 });
    assert_eq!(node.estimated_rows, 7);
    assert_eq!(node.width, 16);
    assert!(node.children.is_empty());
}

#[test]
fn cost_clause_without_operator_keeps_line() {
    let line = "(cost=0.00..1234.56 rows=50000 width=120)";
    let node = PlanNode::parse_text(line).unwrap();
    assert_eq!(node.operator, line);
    assert_eq!(node.relation, None);
    assert_eq!(node.estimated_rows, 50000);
}

#[test]
fn malformed_numbers_read_as_zero() {
    let node = PlanNode::parse_text("Sort  (cost=abc..+3 rows=x7 width=4294967296)").unwrap();
    assert_eq!(node.operator, "Sort");
    assert_eq!(node.cost_startup, Decimal { units: 0, scale: 0 });
    assert_eq!(node.cost_total, Decimal { units: 3, scale: 0 });
    assert_eq!(node.estimated_rows, 0);
    assert_eq!(node.width, 0);
    let plain = PlanNode::parse_text("Materialize").unwrap();
    assert_eq!(plain.operator, "Materialize");
    assert_eq!(plain.cost_total, Decimal { units: 0, scale: 0 });
}

#[test]
fn indentation_builds_tree() {
    let text = "Hash Join  (cost=1.00..2.00 rows=10 width=8)\n  -> Seq Scan on a  (cost=0.00..1.00 rows=5 width=4)\n      Filter: x\n  -> Seq Scan on b  (cost=0.00..1.00 rows=6 width=4)\nSort";
    let root = PlanNode::parse_text(text).unwrap();
    assert_eq!(root.operator, "Hash Join");
    assert_eq!(root.children.len(), 2);
    assert_eq!(root.children[0].relation.as_deref(), Some("a"));
    assert_eq!(root.children[0].children.len(), 1);
    assert_eq!(root.children[0].children[0].operator, "Filter: x");
    assert_eq!(root.children[1].relation.as_deref(), Some("b"));
    assert_eq!(root.children[1].estimated_rows, 6);
    assert!(root.children[1].children.is_empty());
}

#[test]
fn ragged_indentation_compares_depths() {
    let text = "A\n    B\n  C\n   D\r\n";
    let root = PlanNode::parse_text(text).unwrap();
    assert_eq!(root.children.len(), 2);
    assert_eq!(root.children[0].operator, "B");
    assert!(root.children[0].children.is_empty());
    assert_eq!(root.children[1].operator, "C");
    assert_eq!(root.children[1].children.len(), 1);
    assert_eq!(root.children[1].children[0].operator, "D");
}

#[test]
fn empty_text_has_no_plan() {
    assert!(PlanNode::parse_text("").is_none());
}

fn text(s: &str) -> DocValue {
    DocValue::Text(s.to_string())
}

fn number(s: &str) -> DocValue {
    DocValue::Number(s.to_string())
}

fn object(entries: Vec<(&str, DocValue)>) -> DocValue {
    DocValue::Object(entries.into_iter().map(|(k, v)| (k.to_string(), v)).collect())
}

#[test]
fn structured_document_plan() {
    let plan = object(vec![
        ("Node Type", text("Hash Join")),
        ("Startup Cost", number("1.5")),
        ("Total Cost", number("12.25")),
        ("Plan Rows", number("100")),
        ("Actual Rows", number("98")),
        ("Actual Total Time", number("0.042")),
        ("Plan Width", number("24")),
        (
            "Plans",
            DocValue::Array(vec![
                object(vec![("Node Type", text("Seq Scan")), ("Relation Name", text("t"))]),
                object(vec![("Relation Name", text("orphan"))]),
            ]),
        ),
    ]);
    let doc = DocValue::Array(vec![object(vec![("Plan", plan)])]);
    let node = PlanNode::parse_json(&doc).unwrap();
    assert_eq!(node.operator, "Hash Join");
    assert_eq!(node.relation, None);
    assert_eq!(node.cost_startup, Decimal { units: 15, scale: 1 });
    assert_eq!(node.cost_total, Decimal { units: 1225, scale: 2 });
    assert_eq!(node.estimated_rows, 100);
    assert_eq!(node.actual_rows, Some(98));
    assert_eq!(node.actual_time_ms, Some(Decimal { units: 42, scale: 3 }));
    assert_eq!(node.width, 24);
    assert_eq!(node.children.len(), 1);
    assert_eq!(node.children[0].operator, "Seq Scan");
    assert_eq!(node.children[0].relation.as_deref(), Some("t"));
}

#[test]
fn structured_document_without_node_type() {
    let doc = object(vec![("Relation Name", text("t"))]);
    assert!(PlanNode::from_json_plan(&doc).is_none());
    assert!(PlanNode::parse_json(&DocValue::Array(vec![])).is_none());
    let wrong = object(vec![("Node Type", number("3"))]);
    assert!(PlanNode::from_json_plan(&wrong).is_none());
}

#[test]
fn structured_document_numbers() {
    let plan = object(vec![
        ("Node Type", text("Limit")),
        ("Total Cost", number("-4.5")),
        ("Plan Rows", number("7.0")),
        ("Plan Width", number("4294967297")),
    ]);
    let node = PlanNode::from_json_plan(&plan).unwrap();
    assert_eq!(node.cost_total, Decimal { units: 0, scale: 0 });
    assert_eq!(node.estimated_rows, 0);
    assert_eq!(node.width, 1);
    assert_eq!(node.actual_rows, None);
}

fn number_text(doc: &DocValue, key: &str) -> Option<String> {
    match megafactory_sql_types::document::get(doc, key) {
        Some(DocValue::Number(t)) => Some(t.clone()),
        _ => None,
    }
}

#[test]
fn document_written_from_plan() {
    let text = "Limit  (cost=0.05..1234.56 rows=10 width=8)\n  -> Seq Scan on t  (cost=0..7 rows=3 width=4)";
    let node = PlanNode::parse_text(text).unwrap();
    let doc = node.to_document();
    assert_eq!(number_text(&doc, "Startup Cost").as_deref(), Some("0.05"));
    assert_eq!(number_text(&doc, "Total Cost").as_deref(), Some("1234.56"));
    assert_eq!(number_text(&doc, "Plan Rows").as_deref(), Some("10"));
    assert_eq!(number_text(&doc, "Plan Width").as_deref(), Some("8"));
    assert!(matches!(
        megafactory_sql_types::document::get(&doc, "Relation Name"),
        Some(DocValue::Null)
    ));
}

#[test]
fn document_round_trip_keeps_plan() {
    let text = "Hash Join on orders  (cost=12.5..99.75 rows=7 width=16)\n  -> Seq Scan on a  (cost=0.00..1.00 rows=5 width=4)\n  -> Index Scan on b  (cost=0.25..8.5 rows=2 width=4)\n      Filter: y";
    let node = PlanNode::parse_text(text).unwrap();
    let back = PlanNode::from_json_plan(&node.to_document()).unwrap();
    assert_eq!(back.operator, node.operator);
    assert_eq!(back.relation, node.relation);
    assert_eq!(back.cost_startup, node.cost_startup);
    assert_eq!(back.cost_total, node.cost_total);
    assert_eq!(back.estimated_rows, node.estimated_rows);
    assert_eq!(back.width, node.width);
    assert_eq!(back.children.len(), 2);
    assert_eq!(back.children[1].relation.as_deref(), Some("b"));
    assert_eq!(back.children[1].cost_startup, Decimal { units: 25, scale: 2 });
    assert_eq!(back.children[1].children.len(), 1);
    assert_eq!(back.children[1].children[0].operator, "Filter: y");
}

#[test]
fn document_round_trip_keeps_telemetry() {
    let plan = object(vec![
        ("Node Type", text("Sort")),
        ("Actual Rows", number("12")),
        ("Actual Total Time", number("3.250")),
    ]);
    let node = PlanNode::from_json_plan(&plan).unwrap();
    let back = PlanNode::from_json_plan(&node.to_document()).unwrap();
    assert_eq!(back.actual_rows, Some(12));
    assert_eq!(back.actual_time_ms, Some(Decimal { units: 3250, scale: 3 }));
    assert_eq!(back.cost_total, Decimal { units: 0, scale: 0 });
}

#[test]
fn bare_plan_object_parses() {
    let plan = object(vec![
        ("Node Type", text("Seq Scan")),
        ("Relation Name", text("t")),
        ("Total Cost", number("7.5")),
    ]);
    let node = PlanNode::parse_json(&plan).unwrap();
    assert_eq!(node.operator, "Seq Scan");
    assert_eq!(node.relation.as_deref(), Some("t"));
    assert_eq!(node.cost_total, Decimal { units: 75, scale: 1 });
    assert!(PlanNode::parse_json(&object(vec![("Relation Name", text("t"))])).is_none());
}

#[test]
fn plan_dispatch_prefers_document() {
    let plan = object(vec![("Node Type", text("Sort"))]);
    let node = PlanNode::parse_plan(Some(&plan), "Limit").unwrap();
    assert_eq!(node.operator, "Sort");
    let other = DocValue::Array(vec![]);
    let node = PlanNode::parse_plan(Some(&other), "Limit").unwrap();
    assert_eq!(node.operator, "Limit");
    let node = PlanNode::parse_plan(None, "Limit\n  -> Sort").unwrap();
    assert_eq!(node.children.len(), 1);
    assert!(PlanNode::parse_plan(None, "").is_none());
}

#[test]
fn exponent_numbers_read() {
    let plan = object(vec![
        ("Node Type", text("Seq Scan")),
        ("Startup Cost", number("1.5e3")),
        ("Total Cost", number("1e16")),
        ("Actual Total Time", number("2E-4")),
        ("Plan Rows", number("1e3")),
    ]);
    let node = PlanNode::from_json_plan(&plan).unwrap();
    assert_eq!(node.cost_startup, Decimal { units: 1500, scale: 0 });
    assert_eq!(node.cost_total, Decimal { units: 10_000_000_000_000_000, scale: 0 });
    assert_eq!(node.actual_time_ms, Some(Decimal { units: 2, scale: 4 }));
    assert_eq!(node.estimated_rows, 0);
    let line = PlanNode::parse_text("Sort  (cost=1.25e+2..9e99 rows=1 width=1)").unwrap();
    assert_eq!(line.cost_startup, Decimal { units: 125, scale: 0 });
    assert_eq!(line.cost_total, Decimal { units: 0, scale: 0 });
}
