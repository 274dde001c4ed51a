//! Query-plan parsing and hardware-acceleration advice.
//!
//! - `text`, `numeric`: characters, whitespace, searching, and the decimal
//!   numbers that plans carry.
//! - `plan_text`, `explain`: the indentation-text plan format and the plan tree.
//! - `document`: plans as structured documents, read and written.
//! - `line_law`: what a well-formed operator line reads as.
//! - `advisor`, `cost_model`, `engine`: operator kinds and backends, the
//!   catalog of backend costs, and the analysis of a query into operators,
//!   backend choices, strategies and recommendations.
//! - `plan_advice`: the same analysis driven by the nodes of a parsed plan.
//! - `shared`: plain data exchanged with the dashboard.
pub mod text;
pub mod numeric;
pub mod advisor;
pub mod cost_model;
pub mod engine;
pub mod plan_text;
pub mod explain;
pub mod document;
pub mod shared;
pub mod line_law;
pub mod plan_advice;
