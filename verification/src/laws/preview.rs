//! What a host that cannot be changed shows of an installation on Linux, and
//! what a manager that has never run knows.

use crate::config::ManagerConfig;
use crate::domain::initial_state;
use crate::ports::{Capability, ExecutionPlan, PlanActionView, UpgradeTarget};
use crate::unsupported::{preview_download, LinuxPlanOnlyInstaller};
use vstd::prelude::*;

verus! {

/// The plan of an installation sets up the identity, both groups, the
/// configuration, the unit, the core and the assets, and ends with the check of
/// the configured address. A repair differs in its name alone.
pub proof fn law_previewed_installation(
    host: LinuxPlanOnlyInstaller,
    c: ManagerConfig,
    install: ExecutionPlan,
    repair: ExecutionPlan,
)
    requires
        call_ensures(LinuxPlanOnlyInstaller::plan_install, (&host, &c), install),
        call_ensures(LinuxPlanOnlyInstaller::plan_repair, (&host, &c), repair),
    ensures
        install@.operation == "install"@,
        repair@.operation == "repair"@,
        repair@.actions == install@.actions,
        repair@.backend_ids == install@.backend_ids,
        install@.actions.len() == 8,
        install@.actions[0] == (PlanActionView::EnsureIdentity { name: "xray"@, system: true }),
        install@.actions[1] == (PlanActionView::EnsureGroup { name: "xray-manager"@ }),
        install@.actions[2] == (PlanActionView::EnsureGroup { name: "xray-tun"@ }),
        install@.actions[3] == (PlanActionView::EnsureDirectory {
            path: "/etc/xray-manager"@,
            mode: 0o2750,
        }),
        install@.actions[4] == (PlanActionView::WriteFile {
            path: "/etc/systemd/system/xray.service"@,
            mode: 0o644,
            description: "xray.service"@,
        }),
        install@.actions[5] == (PlanActionView::DownloadArtifact {
            id: "xray-core"@,
            destination: "/opt/xray-manager/core/versions"@,
        }),
        install@.actions[6] == (PlanActionView::DownloadArtifact {
            id: "assets"@,
            destination: "/opt/xray-manager/assets/generations"@,
        }),
        install@.actions[7] == (PlanActionView::RunHealthcheck {
            url: c@.general.healthcheck_url,
        }),
        install@.backend_ids[Capability::Install] == "arch"@,
        install@.backend_ids[Capability::Service] == "systemd"@,
        install@.backend_ids[Capability::Firewall] == "nftables"@,
        install@.backend_ids[Capability::PolicyRouting] == "iproute2"@,
        install@.backend_ids[Capability::Tun] == "xray-linux-tun"@,
{
}

/// A removal stops the service before it removes it, and the program last;
/// only where all data goes too are the four directories of data removed.
pub proof fn law_previewed_removal(
    host: LinuxPlanOnlyInstaller,
    kept: ExecutionPlan,
    purged: ExecutionPlan,
)
    requires
        call_ensures(LinuxPlanOnlyInstaller::plan_uninstall, (&host, false), kept),
        call_ensures(LinuxPlanOnlyInstaller::plan_uninstall, (&host, true), purged),
    ensures
        kept@.operation == "uninstall"@,
        purged@.operation == "purge"@,
        kept@.actions.len() == 3,
        purged@.actions.len() == 7,
        purged@.actions.take(3) == kept@.actions,
        kept@.actions[0] == (PlanActionView::StopService { name: "xray.service"@ }),
        kept@.actions[1] == (PlanActionView::RemoveService { name: "xray.service"@ }),
        kept@.actions[2] == (PlanActionView::RemoveOwnedPath { path: "/usr/local/bin/xrayctl"@ }),
        purged@.actions[3] == (PlanActionView::RemoveOwnedPath { path: "/etc/xray-manager"@ }),
        purged@.actions[4] == (PlanActionView::RemoveOwnedPath { path: "/var/lib/xray-manager"@ }),
        purged@.actions[5] == (PlanActionView::RemoveOwnedPath {
            path: "/var/cache/xray-manager"@,
        }),
        purged@.actions[6] == (PlanActionView::RemoveOwnedPath { path: "/opt/xray-manager"@ }),
{
    assert(purged@.actions.take(3) =~= kept@.actions);
}

/// What an upgrade would download, and to where.
pub proof fn law_previewed_downloads(target: UpgradeTarget)
    ensures
        preview_download(target) == (match target {
            UpgradeTarget::All => ("xray-core-and-assets"@, "/opt/xray-manager"@),
            UpgradeTarget::Core => ("xray-core"@, "/opt/xray-manager/core/versions"@),
            UpgradeTarget::Assets => ("assets"@, "/opt/xray-manager/assets/generations"@),
            UpgradeTarget::Manager => ("xray-manager"@, "/usr/local/bin/xrayctl"@),
        }),
{
}

/// A manager that has never run has no version, no generation, no node, no
/// backend and no identity on record.
pub proof fn law_nothing_is_recorded_at_first(key: Seq<char>)
    ensures
        initial_state().current_core_version is None,
        initial_state().previous_core_version is None,
        initial_state().current_asset_generation is None,
        initial_state().previous_asset_generation is None,
        initial_state().current_config_generation is None,
        initial_state().previous_config_generation is None,
        initial_state().selected_node_id is None,
        initial_state().last_successful_healthcheck is None,
        initial_state().last_rollback_reason is None,
        !initial_state().installed_backends.contains_key(key),
        initial_state().created_identities.len() == 0,
{
}

} // verus!
