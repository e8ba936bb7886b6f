//! Hosts without a backend: nothing is changed, and a plan for Linux can be shown.

use crate::config::ManagerConfig;
use crate::error::{ManagerError, ManagerErrorView};
use crate::ports::{
    Capability, CapabilityMap, ExecutionPlan, ExecutionPlanView, PlanAction, PlanActionView,
    PlatformInfo, PlatformInfoView, UpgradeTarget,
};
use crate::linux::arch;
use crate::ports;
use crate::text;
use vstd::prelude::*;

verus! {

/// A host without a backend.
#[derive(Debug)]
pub struct UnsupportedPlatform {
    pub platform: String,
}

impl UnsupportedPlatform {
    /// The error of everything that would need a capability.
    pub fn error(&self, capability: Capability) -> (r: ManagerError)
        ensures
            r@ == (ManagerErrorView::PlatformUnsupported {
                capability,
                platform: self.platform@,
                backend: None,
                reason: "no runtime backend is implemented for this platform"@,
                recommendation: Some("select a backend implemented for this platform"@),
            }),
    {
        ManagerError::PlatformUnsupported {
            capability,
            platform: self.platform.clone(),
            backend: None,
            reason: text::owned("no runtime backend is implemented for this platform"),
            recommendation: Some(text::owned("select a backend implemented for this platform")),
        }
    }

    /// What is known of the host: only its name.
    pub fn inspect(&self) -> (r: PlatformInfo)
        ensures
            r@ == (PlatformInfoView {
                os: self.platform@,
                distribution: None,
                init_system: None,
                desktop: None,
            }),
    {
        PlatformInfo {
            os: self.platform.clone(),
            distribution: None,
            init_system: None,
            desktop: None,
        }
    }
}

/// Shows what installing on Linux would do, from another host.
#[derive(Debug)]
pub struct LinuxPlanOnlyInstaller {
    pub platform: String,
}

/// What installing on Linux would do, in outline.
pub open spec fn preview_actions(url: Seq<char>) -> Seq<PlanActionView> {
    seq![
        PlanActionView::EnsureIdentity { name: "xray"@, system: true },
        PlanActionView::EnsureGroup { name: "xray-manager"@ },
        PlanActionView::EnsureGroup { name: "xray-tun"@ },
        PlanActionView::EnsureDirectory { path: "/etc/xray-manager"@, mode: 0o2750 },
        PlanActionView::WriteFile { path: "/etc/systemd/system/xray.service"@, mode: 0o644, description: "xray.service"@ },
        PlanActionView::DownloadArtifact { id: "xray-core"@, destination: "/opt/xray-manager/core/versions"@ },
        PlanActionView::DownloadArtifact { id: "assets"@, destination: "/opt/xray-manager/assets/generations"@ },
        PlanActionView::RunHealthcheck { url: url },
    ]
}

fn preview_list(url: &str) -> (r: Vec<PlanAction>)
    ensures
        ports::plan_action_views(r@) == preview_actions(url@),
{
    let r: Vec<PlanAction> = vec![
        PlanAction::EnsureIdentity { name: text::owned("xray"), system: true },
        PlanAction::EnsureGroup { name: text::owned("xray-manager") },
        PlanAction::EnsureGroup { name: text::owned("xray-tun") },
        PlanAction::EnsureDirectory { path: text::owned("/etc/xray-manager"), mode: 0o2750 },
        PlanAction::WriteFile { path: text::owned("/etc/systemd/system/xray.service"), mode: 0o644, description: text::owned("xray.service") },
        PlanAction::DownloadArtifact { id: text::owned("xray-core"), destination: text::owned("/opt/xray-manager/core/versions") },
        PlanAction::DownloadArtifact { id: text::owned("assets"), destination: text::owned("/opt/xray-manager/assets/generations") },
        PlanAction::RunHealthcheck { url: text::owned(url) },
    ];
    assert(ports::plan_action_views(r@) =~= preview_actions(url@));
    r
}

/// What removing on Linux would do, in outline.
pub open spec fn preview_removal() -> Seq<PlanActionView> {
    seq![
        PlanActionView::StopService { name: "xray.service"@ },
        PlanActionView::RemoveService { name: "xray.service"@ },
        PlanActionView::RemoveOwnedPath { path: "/usr/local/bin/xrayctl"@ },
    ]
}

fn preview_removal_list() -> (r: Vec<PlanAction>)
    ensures
        ports::plan_action_views(r@) == preview_removal(),
{
    let r: Vec<PlanAction> = vec![
        PlanAction::StopService { name: text::owned("xray.service") },
        PlanAction::RemoveService { name: text::owned("xray.service") },
        PlanAction::RemoveOwnedPath { path: text::owned("/usr/local/bin/xrayctl") },
    ];
    assert(ports::plan_action_views(r@) =~= preview_removal());
    r
}

/// What removing all data on Linux would do besides, in outline.
pub open spec fn preview_purge() -> Seq<PlanActionView> {
    seq![
        PlanActionView::RemoveOwnedPath { path: "/etc/xray-manager"@ },
        PlanActionView::RemoveOwnedPath { path: "/var/lib/xray-manager"@ },
        PlanActionView::RemoveOwnedPath { path: "/var/cache/xray-manager"@ },
        PlanActionView::RemoveOwnedPath { path: "/opt/xray-manager"@ },
    ]
}

fn preview_purge_list() -> (r: Vec<PlanAction>)
    ensures
        ports::plan_action_views(r@) == preview_purge(),
{
    let r: Vec<PlanAction> = vec![
        PlanAction::RemoveOwnedPath { path: text::owned("/etc/xray-manager") },
        PlanAction::RemoveOwnedPath { path: text::owned("/var/lib/xray-manager") },
        PlanAction::RemoveOwnedPath { path: text::owned("/var/cache/xray-manager") },
        PlanAction::RemoveOwnedPath { path: text::owned("/opt/xray-manager") },
    ];
    assert(ports::plan_action_views(r@) =~= preview_purge());
    r
}

/// The backends of an installation on Linux.
pub open spec fn preview_backends() -> Map<Capability, Seq<char>> {
    Map::empty().insert(Capability::Install, "arch"@).insert(Capability::Service, "systemd"@).insert(Capability::Firewall, "nftables"@).insert(Capability::PolicyRouting, "iproute2"@).insert(Capability::Tun, "xray-linux-tun"@)
}

/// What an upgrade on Linux would download, and to where.
pub open spec fn preview_download(target: UpgradeTarget) -> (Seq<char>, Seq<char>) {
    match target {
        UpgradeTarget::All => ("xray-core-and-assets"@, "/opt/xray-manager"@),
        UpgradeTarget::Core => ("xray-core"@, "/opt/xray-manager/core/versions"@),
        UpgradeTarget::Assets => ("assets"@, "/opt/xray-manager/assets/generations"@),
        UpgradeTarget::Manager => ("xray-manager"@, "/usr/local/bin/xrayctl"@),
    }
}

impl LinuxPlanOnlyInstaller {
    /// The error of everything that would change the host.
    pub fn unsupported(&self) -> (r: ManagerError)
        ensures
            r@ == (ManagerErrorView::PlatformUnsupported {
                capability: Capability::Install,
                platform: self.platform@,
                backend: Some("linux-plan-only"@),
                reason: "this backend can preview a Linux plan but cannot mutate this platform"@,
                recommendation: Some("run the mutation on a supported Linux host"@),
            }),
    {
        ManagerError::PlatformUnsupported {
            capability: Capability::Install,
            platform: self.platform.clone(),
            backend: Some(text::owned("linux-plan-only")),
            reason: text::owned("this backend can preview a Linux plan but cannot mutate this platform"),
            recommendation: Some(text::owned("run the mutation on a supported Linux host")),
        }
    }

    /// The plan of an installation.
    pub fn plan_install(&self, config: &ManagerConfig) -> (r: ExecutionPlan)
        ensures
            r@ == (ExecutionPlanView {
                operation: "install"@,
                backend_ids: preview_backends(),
                actions: preview_actions(config@.general.healthcheck_url),
            }),
    {
        let mut ids = CapabilityMap::new();
        ids.insert(Capability::Install, text::owned("arch"));
        ids.insert(Capability::Service, text::owned("systemd"));
        ids.insert(Capability::Firewall, text::owned("nftables"));
        ids.insert(Capability::PolicyRouting, text::owned("iproute2"));
        ids.insert(Capability::Tun, text::owned("xray-linux-tun"));
        ExecutionPlan {
            operation: text::owned("install"),
            backend_ids: ids,
            actions: preview_list(config.general.healthcheck_url.as_str()),
        }
    }

    /// No plan is ever applied.
    pub fn apply(&self) -> (r: Result<(), ManagerError>)
        ensures
            r matches Err(e) && e@ == (ManagerErrorView::PlatformUnsupported {
                capability: Capability::Install,
                platform: self.platform@,
                backend: Some("linux-plan-only"@),
                reason: "this backend can preview a Linux plan but cannot mutate this platform"@,
                recommendation: Some("run the mutation on a supported Linux host"@),
            }),
    {
        Err(self.unsupported())
    }

    /// The plan of a repair.
    pub fn plan_repair(&self, config: &ManagerConfig) -> (r: ExecutionPlan)
        ensures
            r@ == (ExecutionPlanView {
                operation: "repair"@,
                backend_ids: preview_backends(),
                actions: preview_actions(config@.general.healthcheck_url),
            }),
    {
        let mut plan = self.plan_install(config);
        plan.operation = text::owned("repair");
        plan
    }

    /// The plan of a removal.
    pub fn plan_uninstall(&self, purge: bool) -> (r: ExecutionPlan)
        ensures
            r@ == (ExecutionPlanView {
                operation: if purge {
                    "purge"@
                } else {
                    "uninstall"@
                },
                backend_ids: Map::empty().insert(Capability::Install, "arch"@),
                actions: if purge {
                    preview_removal() + preview_purge()
                } else {
                    preview_removal()
                },
            }),
    {
        let mut actions = preview_removal_list();
        if purge {
            let ghost a = actions@;
            let mut more = preview_purge_list();
            let ghost b = more@;
            actions.append(&mut more);
            assert(ports::plan_action_views(actions@) =~= ports::plan_action_views(a) + ports::plan_action_views(b));
        }
        let mut ids = CapabilityMap::new();
        ids.insert(Capability::Install, text::owned("arch"));
        ExecutionPlan {
            operation: if purge {
                text::owned("purge")
            } else {
                text::owned("uninstall")
            },
            backend_ids: ids,
            actions,
        }
    }

    /// The plan of an upgrade.
    pub fn plan_upgrade(&self, target: UpgradeTarget) -> (r: ExecutionPlan)
        ensures
            r@ == (ExecutionPlanView {
                operation: arch::upgrade_name(target),
                backend_ids: Map::empty().insert(Capability::Install, "arch"@),
                actions: seq![
                    PlanActionView::DownloadArtifact {
                        id: preview_download(target).0,
                        destination: preview_download(target).1,
                    },
                ],
            }),
    {
        let (operation, id, destination) = match target {
            UpgradeTarget::All => ("upgrade_all", "xray-core-and-assets", "/opt/xray-manager"),
            UpgradeTarget::Core => (
                "upgrade_core",
                "xray-core",
                "/opt/xray-manager/core/versions",
            ),
            UpgradeTarget::Assets => (
                "upgrade_assets",
                "assets",
                "/opt/xray-manager/assets/generations",
            ),
            UpgradeTarget::Manager => (
                "upgrade_manager",
                "xray-manager",
                "/usr/local/bin/xrayctl",
            ),
        };
        let actions: Vec<PlanAction> = vec![
            PlanAction::DownloadArtifact { id: text::owned(id), destination: text::owned(destination) },
        ];
        assert(ports::plan_action_views(actions@) =~= seq![
            PlanActionView::DownloadArtifact { id: id@, destination: destination@ },
        ]);
        let mut ids = CapabilityMap::new();
        ids.insert(Capability::Install, text::owned("arch"));
        ExecutionPlan { operation: text::owned(operation), backend_ids: ids, actions }
    }
}

} // verus!
