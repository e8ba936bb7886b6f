//! What the manager reports while it works.

use vstd::prelude::*;

verus! {

/// A progress event.
#[derive(Debug)]
pub enum ManagerEvent {
    OperationStarted { operation: String },
    DownloadProgress { id: String, downloaded: u64, total: Option<u64> },
    NodeProbeStarted { node_id: String },
    NodeProbeSucceeded { node_id: String, latency_ms: u64 },
    NodeProbeFailed { node_id: String, error: String },
    NodeProbeCancelled { node_id: String },
    ConfigValidationStarted,
    ConfigValidationSucceeded,
    ConfigValidationFailed { code: String },
    ServiceRestartStarted,
    ServiceRestartSucceeded,
    RollbackStarted { reason: String },
    RollbackSucceeded,
    OperationFinished { operation: String },
    OperationFailed { operation: String, code: String },
}

/// The mathematical value of a [`ManagerEvent`].
#[verifier::ext_equal]
pub enum ManagerEventView {
    OperationStarted { operation: Seq<char> },
    DownloadProgress { id: Seq<char>, downloaded: u64, total: Option<u64> },
    NodeProbeStarted { node_id: Seq<char> },
    NodeProbeSucceeded { node_id: Seq<char>, latency_ms: u64 },
    NodeProbeFailed { node_id: Seq<char>, error: Seq<char> },
    NodeProbeCancelled { node_id: Seq<char> },
    ConfigValidationStarted,
    ConfigValidationSucceeded,
    ConfigValidationFailed { code: Seq<char> },
    ServiceRestartStarted,
    ServiceRestartSucceeded,
    RollbackStarted { reason: Seq<char> },
    RollbackSucceeded,
    OperationFinished { operation: Seq<char> },
    OperationFailed { operation: Seq<char>, code: Seq<char> },
}

impl View for ManagerEvent {
    type V = ManagerEventView;

    open spec fn view(&self) -> ManagerEventView {
        match *self {
            ManagerEvent::OperationStarted { operation } => ManagerEventView::OperationStarted { operation: operation@ },
            ManagerEvent::DownloadProgress { id, downloaded, total } => ManagerEventView::DownloadProgress { id: id@, downloaded, total },
            ManagerEvent::NodeProbeStarted { node_id } => ManagerEventView::NodeProbeStarted { node_id: node_id@ },
            ManagerEvent::NodeProbeSucceeded { node_id, latency_ms } => ManagerEventView::NodeProbeSucceeded { node_id: node_id@, latency_ms },
            ManagerEvent::NodeProbeFailed { node_id, error } => ManagerEventView::NodeProbeFailed { node_id: node_id@, error: error@ },
            ManagerEvent::NodeProbeCancelled { node_id } => ManagerEventView::NodeProbeCancelled { node_id: node_id@ },
            ManagerEvent::ConfigValidationStarted => ManagerEventView::ConfigValidationStarted,
            ManagerEvent::ConfigValidationSucceeded => ManagerEventView::ConfigValidationSucceeded,
            ManagerEvent::ConfigValidationFailed { code } => ManagerEventView::ConfigValidationFailed { code: code@ },
            ManagerEvent::ServiceRestartStarted => ManagerEventView::ServiceRestartStarted,
            ManagerEvent::ServiceRestartSucceeded => ManagerEventView::ServiceRestartSucceeded,
            ManagerEvent::RollbackStarted { reason } => ManagerEventView::RollbackStarted { reason: reason@ },
            ManagerEvent::RollbackSucceeded => ManagerEventView::RollbackSucceeded,
            ManagerEvent::OperationFinished { operation } => ManagerEventView::OperationFinished { operation: operation@ },
            ManagerEvent::OperationFailed { operation, code } => ManagerEventView::OperationFailed { operation: operation@, code: code@ },
        }
    }
}

impl Clone for ManagerEvent {
    fn clone(&self) -> (r: Self)
        ensures
            r@ == self@,
    {
        match self {
            ManagerEvent::OperationStarted { operation } => ManagerEvent::OperationStarted { operation: operation.clone() },
            ManagerEvent::DownloadProgress { id, downloaded, total } => ManagerEvent::DownloadProgress { id: id.clone(), downloaded: *downloaded, total: *total },
            ManagerEvent::NodeProbeStarted { node_id } => ManagerEvent::NodeProbeStarted { node_id: node_id.clone() },
            ManagerEvent::NodeProbeSucceeded { node_id, latency_ms } => ManagerEvent::NodeProbeSucceeded { node_id: node_id.clone(), latency_ms: *latency_ms },
            ManagerEvent::NodeProbeFailed { node_id, error } => ManagerEvent::NodeProbeFailed { node_id: node_id.clone(), error: error.clone() },
            ManagerEvent::NodeProbeCancelled { node_id } => ManagerEvent::NodeProbeCancelled { node_id: node_id.clone() },
            ManagerEvent::ConfigValidationStarted => ManagerEvent::ConfigValidationStarted,
            ManagerEvent::ConfigValidationSucceeded => ManagerEvent::ConfigValidationSucceeded,
            ManagerEvent::ConfigValidationFailed { code } => ManagerEvent::ConfigValidationFailed { code: code.clone() },
            ManagerEvent::ServiceRestartStarted => ManagerEvent::ServiceRestartStarted,
            ManagerEvent::ServiceRestartSucceeded => ManagerEvent::ServiceRestartSucceeded,
            ManagerEvent::RollbackStarted { reason } => ManagerEvent::RollbackStarted { reason: reason.clone() },
            ManagerEvent::RollbackSucceeded => ManagerEvent::RollbackSucceeded,
            ManagerEvent::OperationFinished { operation } => ManagerEvent::OperationFinished { operation: operation.clone() },
            ManagerEvent::OperationFailed { operation, code } => ManagerEvent::OperationFailed { operation: operation.clone(), code: code.clone() },
        }
    }
}

} // verus!
