//! Plain data exchanged between the dashboard and its server: connection
//! state, notifications, query requests and cluster descriptions.
use vstd::prelude::*;

verus! {

/// Current connection status.
#[derive(Debug, Clone, PartialEq)]
pub enum ConnectionStatus {
    Disconnected,
    Connecting,
    Connected,
    Error(String),
}

impl Default for ConnectionStatus {
    fn default() -> (r: Self)
        ensures
            r is Disconnected,
    {
        ConnectionStatus::Disconnected
    }
}

/// Toast notification level.
#[derive(Debug, Clone, Copy, PartialEq, Eq, Structural)]
pub enum ToastLevel {
    Info,
    Success,
    Warning,
    Error,
}

/// Request to execute a SQL query.
#[derive(Debug, Clone)]
pub struct QueryRequest {
    pub sql: String,
    pub database: String,
    pub limit: Option<u64>,
}

/// Column metadata in a query result.
#[derive(Debug, Clone)]
pub struct QueryColumn {
    pub name: String,
    pub data_type: String,
    pub nullable: bool,
}

/// Messages sent from a client to the notification socket.
#[derive(Debug, Clone)]
pub enum WsClientMessage {
    Subscribe { topics: Vec<String> },
    Unsubscribe { topics: Vec<String> },
    Ping,
}

/// A cluster event.
#[derive(Debug, Clone)]
pub struct K8sEvent {
    pub event_type: String,
    pub pod_name: String,
    pub message: String,
}

/// Status of a persistent volume claim.
#[derive(Debug, Clone)]
pub struct VolumeInfo {
    pub name: String,
    /// "ReadWriteMany" or "ReadWriteOnce"
    pub access_mode: String,
    pub capacity_bytes: u64,
    pub used_bytes: u64,
    pub bound_pod: String,
}

/// Request to scale the cluster.
#[derive(Debug, Clone, Copy, PartialEq, Eq, Structural)]
pub struct ScaleRequest {
    pub replicas: i32,
}

/// Autoscaling configuration.
#[derive(Debug, Clone, Copy, PartialEq, Eq, Structural)]
pub struct KedaConfig {
    pub enabled: bool,
    pub min_replicas: i32,
    pub max_replicas: i32,
}

/// A query that is running, as the monitoring view lists it.
#[derive(Debug, Clone)]
pub struct ActiveQuery {
    pub session_id: String,
    pub duration_ms: u64,
    /// "parsing", "planning", "executing" or "streaming"
    pub state: String,
    pub sql_preview: String,
    pub database: String,
}

} // verus!
