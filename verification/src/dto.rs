//! What the manager shows of its values. Nothing here holds a secret.

use crate::domain::{Node, NodeView, Protocol};
use crate::json::{Json, JsonView};
use crate::ports::{
    BackendSelection, BackendSelectionView, CapabilityStatus, CapabilityStatusView, ExecutionPlan,
    ExecutionPlanView,
};
use crate::domain;
use crate::ports;
use crate::text;
use vstd::prelude::*;

verus! {

/// What is shown of a node.
#[derive(Debug)]
pub struct NodeDto {
    pub id: String,
    pub subscription: String,
    pub name: String,
    pub protocol: Protocol,
    pub endpoint: String,
    pub support: String,
    pub warnings: Vec<String>,
}

/// The mathematical value of a [`NodeDto`].
#[verifier::ext_equal]
pub struct NodeDtoView {
    pub id: Seq<char>,
    pub subscription: Seq<char>,
    pub name: Seq<char>,
    pub protocol: Protocol,
    pub endpoint: Seq<char>,
    pub support: Seq<char>,
    pub warnings: Seq<Seq<char>>,
}

impl View for NodeDto {
    type V = NodeDtoView;

    open spec fn view(&self) -> NodeDtoView {
        NodeDtoView {
            id: self.id@,
            subscription: self.subscription@,
            name: self.name@,
            protocol: self.protocol,
            endpoint: self.endpoint@,
            support: self.support@,
            warnings: text::texts(self.warnings@),
        }
    }
}

impl Clone for NodeDto {
    fn clone(&self) -> (r: Self)
        ensures
            r@ == self@,
    {
        NodeDto {
            id: self.id.clone(),
            subscription: self.subscription.clone(),
            name: self.name.clone(),
            protocol: self.protocol,
            endpoint: self.endpoint.clone(),
            support: self.support.clone(),
            warnings: text::copy_texts(&self.warnings),
        }
    }
}

pub open spec fn node_dto_views(v: Seq<NodeDto>) -> Seq<NodeDtoView> {
    v.map_values(|x: NodeDto| x@)
}

/// How far a node can be used.
pub open spec fn support_of(protocol: Protocol, warnings: Seq<Seq<char>>) -> Seq<char> {
    if protocol == Protocol::Hysteria2 && warnings.len() > 0 {
        "unsupported"@
    } else if warnings.len() == 0 {
        "supported"@
    } else {
        "partial"@
    }
}

/// What is shown of a node.
pub open spec fn node_dto(n: NodeView) -> NodeDtoView {
    NodeDtoView {
        id: domain::short_of(n.id),
        subscription: n.subscription,
        name: n.name,
        protocol: n.protocol,
        endpoint: n.server + ":"@ + text::decimal(n.port as nat),
        support: support_of(n.protocol, n.warnings),
        warnings: n.warnings,
    }
}

impl NodeDto {
    /// What is shown of `node`.
    pub fn from(node: &Node) -> (r: NodeDto)
        requires
            domain::has_short(node@.id),
        ensures
            r@ == node_dto(node@),
    {
        let mut endpoint = node.server.clone();
        endpoint.append(":");
        endpoint.append(text::decimal_of(node.port as u64).as_str());
        let support = if node.protocol == Protocol::Hysteria2 && node.warnings.len() > 0 {
            text::owned("unsupported")
        } else if node.warnings.len() == 0 {
            text::owned("supported")
        } else {
            text::owned("partial")
        };
        NodeDto {
            id: text::owned(node.id.short()),
            subscription: node.subscription.clone(),
            name: node.name.clone(),
            protocol: node.protocol,
            endpoint,
            support,
            warnings: text::copy_texts(&node.warnings),
        }
    }
}

/// What is shown of a node is the same for any credentials, share link and
/// extra parameters.
pub proof fn law_dto_redacts_secrets(a: NodeView, b: NodeView)
    requires
        a == (NodeView { credentials: a.credentials, raw_uri: a.raw_uri, extra: a.extra, ..b }),
    ensures
        node_dto(a) == node_dto(b),
{
}

/// The state of the installation.
#[derive(Debug)]
pub struct StatusDto {
    pub installed: bool,
    pub selected_node: Option<String>,
    pub core_version: Option<String>,
    pub asset_generation: Option<String>,
    pub backends: Vec<BackendSelection>,
    pub capabilities: Vec<CapabilityStatus>,
}

/// The mathematical value of a [`StatusDto`].
#[verifier::ext_equal]
pub struct StatusDtoView {
    pub installed: bool,
    pub selected_node: Option<Seq<char>>,
    pub core_version: Option<Seq<char>>,
    pub asset_generation: Option<Seq<char>>,
    pub backends: Seq<BackendSelectionView>,
    pub capabilities: Seq<CapabilityStatusView>,
}

impl View for StatusDto {
    type V = StatusDtoView;

    open spec fn view(&self) -> StatusDtoView {
        StatusDtoView {
            installed: self.installed,
            selected_node: text::opt_text(self.selected_node),
            core_version: text::opt_text(self.core_version),
            asset_generation: text::opt_text(self.asset_generation),
            backends: ports::backend_selection_views(self.backends@),
            capabilities: ports::capability_status_views(self.capabilities@),
        }
    }
}

impl Clone for StatusDto {
    fn clone(&self) -> (r: Self)
        ensures
            r@ == self@,
    {
        StatusDto {
            installed: self.installed,
            selected_node: text::copy_opt(&self.selected_node),
            core_version: text::copy_opt(&self.core_version),
            asset_generation: text::copy_opt(&self.asset_generation),
            backends: ports::copy_backend_selections(&self.backends),
            capabilities: ports::copy_capability_statuses(&self.capabilities),
        }
    }
}

/// The outcome of one check.
#[derive(Debug, Clone, Copy, PartialEq, Eq, Structural)]
pub enum CheckStatus {
    Pass,
    Warn,
    Fail,
}

/// One check of the doctor.
#[derive(Debug)]
pub struct DoctorCheckDto {
    pub id: String,
    pub status: CheckStatus,
    pub message: String,
    pub remediation: Option<String>,
}

/// The mathematical value of a [`DoctorCheckDto`].
#[verifier::ext_equal]
pub struct DoctorCheckDtoView {
    pub id: Seq<char>,
    pub status: CheckStatus,
    pub message: Seq<char>,
    pub remediation: Option<Seq<char>>,
}

impl View for DoctorCheckDto {
    type V = DoctorCheckDtoView;

    open spec fn view(&self) -> DoctorCheckDtoView {
        DoctorCheckDtoView {
            id: self.id@,
            status: self.status,
            message: self.message@,
            remediation: text::opt_text(self.remediation),
        }
    }
}

impl Clone for DoctorCheckDto {
    fn clone(&self) -> (r: Self)
        ensures
            r@ == self@,
    {
        DoctorCheckDto {
            id: self.id.clone(),
            status: self.status,
            message: self.message.clone(),
            remediation: text::copy_opt(&self.remediation),
        }
    }
}

pub open spec fn doctor_check_dto_views(v: Seq<DoctorCheckDto>) -> Seq<DoctorCheckDtoView> {
    v.map_values(|x: DoctorCheckDto| x@)
}

pub open spec fn opt_json(o: Option<Json>) -> Option<JsonView> {
    match o {
        Some(j) => Some(j@),
        None => None,
    }
}

/// A copy of an optional JSON value.
pub fn copy_opt_json(o: &Option<Json>) -> (r: Option<Json>)
    ensures
        opt_json(r) == opt_json(*o),
{
    match o {
        Some(j) => Some(j.copy()),
        None => None,
    }
}

/// The outcome of an operation.
#[derive(Debug)]
pub struct OperationResultDto {
    pub operation: String,
    pub changed: bool,
    pub plan: Option<ExecutionPlan>,
    pub data: Option<Json>,
    pub warnings: Vec<String>,
}

/// The mathematical value of a [`OperationResultDto`].
#[verifier::ext_equal]
pub struct OperationResultDtoView {
    pub operation: Seq<char>,
    pub changed: bool,
    pub plan: Option<ExecutionPlanView>,
    pub data: Option<JsonView>,
    pub warnings: Seq<Seq<char>>,
}

impl View for OperationResultDto {
    type V = OperationResultDtoView;

    open spec fn view(&self) -> OperationResultDtoView {
        OperationResultDtoView {
            operation: self.operation@,
            changed: self.changed,
            plan: ports::opt_execution_plan(self.plan),
            data: opt_json(self.data),
            warnings: text::texts(self.warnings@),
        }
    }
}

impl Clone for OperationResultDto {
    fn clone(&self) -> (r: Self)
        ensures
            r@ == self@,
    {
        OperationResultDto {
            operation: self.operation.clone(),
            changed: self.changed,
            plan: ports::copy_opt_execution_plan(&self.plan),
            data: copy_opt_json(&self.data),
            warnings: text::copy_texts(&self.warnings),
        }
    }
}

} // verus!
