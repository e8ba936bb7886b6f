//! What installing, removing and upgrading on Arch Linux would do.

use crate::config::ManagerConfig;
use crate::error::{ManagerError, ManagerErrorView};
use crate::ports::{
    BackendSelection, BackendSelectionView, Capability, CapabilityMap, ExecutionPlan,
    ExecutionPlanView, PlanAction, PlanActionView, UpgradeTarget,
};
use crate::text_map::TextMap;
use crate::ports;
use crate::text;
use crate::text_map;
use vstd::prelude::*;

verus! {

/// Installs on Arch Linux.
#[derive(Debug)]
pub struct ArchInstaller {
    pub config: ManagerConfig,
    /// The chosen backends, by the names of their capabilities.
    pub installed_backends: TextMap,
}

/// The backends of selections, by the names of their capabilities; of two
/// selections for one capability the later counts.
pub open spec fn selected_names(selections: Seq<BackendSelectionView>) -> Map<Seq<char>, Seq<char>>
    decreases selections.len(),
{
    if selections.len() == 0 {
        Map::empty()
    } else {
        selected_names(selections.drop_last()).insert(
            ports::capability_name(selections.last().capability),
            selections.last().backend_id,
        )
    }
}

/// Every key names the capability that it is the name of.
pub open spec fn plain_names(keys: Seq<Seq<char>>) -> bool {
    forall|i: int| 0 <= i < keys.len() ==> is_capability_name(#[trigger] keys[i])
}

/// Whether a text is the name of a capability.
pub open spec fn is_capability_name(key: Seq<char>) -> bool {
    exists|c: Capability| key == #[trigger] ports::capability_name(c)
}

proof fn lemma_named_backends(m: Map<Seq<char>, Seq<char>>, keys: Seq<Seq<char>>, c: Capability)
    requires
        plain_names(keys),
    ensures
        ports::named_backends(m, keys).contains_key(c) <==> keys.contains(ports::capability_name(c)),
        keys.contains(ports::capability_name(c)) ==> ports::named_backends(m, keys)[c]
            == m[ports::capability_name(c)],
    decreases keys.len(),
{
    if keys.len() > 0 {
        let rest = keys.drop_last();
        let key = keys.last();
        let name = ports::capability_name(c);
        assert forall|i: int| 0 <= i < rest.len() implies is_capability_name(#[trigger] rest[i]) by {
            assert(rest[i] == keys[i]);
        }
        lemma_named_backends(m, rest, c);
        assert(is_capability_name(keys[keys.len() - 1]));
        let d = choose|d: Capability| key == #[trigger] ports::capability_name(d);
        ports::law_capability_name_round_trip(d);
        ports::law_capability_name_round_trip(c);
        if keys.contains(name) && name != key {
            assert(rest[keys.index_of(name)] == name);
        }
        if rest.contains(name) {
            assert(keys[rest.index_of(name)] == name);
        }
        assert(keys[keys.len() - 1] == key);
    }
}

proof fn lemma_selected_names(selections: Seq<BackendSelectionView>)
    ensures
        text_map::lists_keys(
            text_map::sorted_keys(selected_names(selections)),
            selected_names(selections),
        ),
        forall|k: Seq<char>| #[trigger]
            selected_names(selections).contains_key(k) ==> is_capability_name(k),
    decreases selections.len(),
{
    if selections.len() == 0 {
        assert(text_map::lists_keys(Seq::empty(), selected_names(selections)));
    } else {
        let last = selections.last();
        lemma_selected_names(selections.drop_last());
        text_map::lemma_insert_listed(
            selected_names(selections.drop_last()),
            ports::capability_name(last.capability),
            last.backend_id,
        );
    }
}

proof fn lemma_selected_last(selections: Seq<BackendSelectionView>, i: int)
    requires
        0 <= i < selections.len(),
        forall|j: int|
            i < j < selections.len() ==> (#[trigger] selections[j]).capability
                != selections[i].capability,
    ensures
        selected_names(selections).contains_key(
            ports::capability_name(selections[i].capability),
        ),
        selected_names(selections)[ports::capability_name(selections[i].capability)]
            == selections[i].backend_id,
    decreases selections.len(),
{
    if i < selections.len() - 1 {
        let rest = selections.drop_last();
        let last = selections[selections.len() - 1];
        assert(rest[i] == selections[i]);
        assert forall|j: int| i < j < rest.len() implies (#[trigger] rest[j]).capability
            != rest[i].capability by {
            assert(rest[j] == selections[j]);
        }
        lemma_selected_last(rest, i);
        ports::law_capability_name_round_trip(last.capability);
        ports::law_capability_name_round_trip(selections[i].capability);
    }
}

/// What an installation records of the selected backends is what a later run
/// asks for: the backend of every selected capability.
pub proof fn law_installed_backends_are_asked_for(selections: Seq<BackendSelectionView>, i: int)
    requires
        0 <= i < selections.len(),
        forall|j: int|
            i < j < selections.len() ==> (#[trigger] selections[j]).capability
                != selections[i].capability,
    ensures
        ({
            let recorded = selected_names(selections);
            let asked = ports::named_backends(recorded, text_map::sorted_keys(recorded));
            asked.contains_key(selections[i].capability) && asked[selections[i].capability]
                == selections[i].backend_id
        }),
{
    let recorded = selected_names(selections);
    let keys = text_map::sorted_keys(recorded);
    lemma_selected_names(selections);
    lemma_selected_last(selections, i);
    assert forall|n: int| 0 <= n < keys.len() implies is_capability_name(#[trigger] keys[n]) by {
        assert(keys.contains(keys[n]));
        assert(recorded.contains_key(keys[n]));
    }
    lemma_named_backends(recorded, keys, selections[i].capability);
}

/// What installing does.
pub open spec fn install_actions(url: Seq<char>) -> Seq<PlanActionView> {
    seq![
        PlanActionView::EnsureGroup { name: "xray"@ },
        PlanActionView::EnsureGroup { name: "xray-manager"@ },
        PlanActionView::EnsureGroup { name: "xray-tun"@ },
        PlanActionView::EnsureIdentity { name: "xray"@, system: true },
        PlanActionView::EnsureDirectory { path: "/etc/xray-manager"@, mode: 0o2750 },
        PlanActionView::EnsureDirectory { path: "/etc/xray-manager/subscriptions.d"@, mode: 0o700 },
        PlanActionView::EnsureDirectory { path: "/etc/xray-manager/apps.d"@, mode: 0o2750 },
        PlanActionView::EnsureDirectory { path: "/etc/xray-manager/fragments.d"@, mode: 0o2750 },
        PlanActionView::EnsureDirectory { path: "/var/lib/xray-manager"@, mode: 0o2750 },
        PlanActionView::EnsureDirectory { path: "/var/lib/xray-manager/generations"@, mode: 0o750 },
        PlanActionView::EnsureDirectory { path: "/var/lib/xray-manager/backups"@, mode: 0o750 },
        PlanActionView::EnsureDirectory { path: "/var/cache/xray-manager/downloads"@, mode: 0o2750 },
        PlanActionView::EnsureDirectory { path: "/var/log/xray-manager"@, mode: 0o2750 },
        PlanActionView::EnsureDirectory { path: "/run/xray-manager"@, mode: 0o750 },
        PlanActionView::EnsureDirectory { path: "/opt/xray-manager/core/versions"@, mode: 0o755 },
        PlanActionView::EnsureDirectory { path: "/opt/xray-manager/core/staging"@, mode: 0o755 },
        PlanActionView::EnsureDirectory { path: "/opt/xray-manager/assets/generations"@, mode: 0o755 },
        PlanActionView::WriteFile { path: "/etc/systemd/system/xray.service"@, mode: 0o644, description: "xray.service"@ },
        PlanActionView::WriteFile { path: "/etc/systemd/system/xray-tun-policy.service"@, mode: 0o644, description: "xray-tun-policy.service"@ },
        PlanActionView::DownloadArtifact { id: "xray-core"@, destination: "/opt/xray-manager/core/versions"@ },
        PlanActionView::DownloadArtifact { id: "assets"@, destination: "/opt/xray-manager/assets/generations"@ },
        PlanActionView::RunHealthcheck { url: url },
    ]
}

fn install_list(url: &str) -> (r: Vec<PlanAction>)
    ensures
        ports::plan_action_views(r@) == install_actions(url@),
{
    let r: Vec<PlanAction> = vec![
        PlanAction::EnsureGroup { name: text::owned("xray") },
        PlanAction::EnsureGroup { name: text::owned("xray-manager") },
        PlanAction::EnsureGroup { name: text::owned("xray-tun") },
        PlanAction::EnsureIdentity { name: text::owned("xray"), system: true },
        PlanAction::EnsureDirectory { path: text::owned("/etc/xray-manager"), mode: 0o2750 },
        PlanAction::EnsureDirectory { path: text::owned("/etc/xray-manager/subscriptions.d"), mode: 0o700 },
        PlanAction::EnsureDirectory { path: text::owned("/etc/xray-manager/apps.d"), mode: 0o2750 },
        PlanAction::EnsureDirectory { path: text::owned("/etc/xray-manager/fragments.d"), mode: 0o2750 },
        PlanAction::EnsureDirectory { path: text::owned("/var/lib/xray-manager"), mode: 0o2750 },
        PlanAction::EnsureDirectory { path: text::owned("/var/lib/xray-manager/generations"), mode: 0o750 },
        PlanAction::EnsureDirectory { path: text::owned("/var/lib/xray-manager/backups"), mode: 0o750 },
        PlanAction::EnsureDirectory { path: text::owned("/var/cache/xray-manager/downloads"), mode: 0o2750 },
        PlanAction::EnsureDirectory { path: text::owned("/var/log/xray-manager"), mode: 0o2750 },
        PlanAction::EnsureDirectory { path: text::owned("/run/xray-manager"), mode: 0o750 },
        PlanAction::EnsureDirectory { path: text::owned("/opt/xray-manager/core/versions"), mode: 0o755 },
        PlanAction::EnsureDirectory { path: text::owned("/opt/xray-manager/core/staging"), mode: 0o755 },
        PlanAction::EnsureDirectory { path: text::owned("/opt/xray-manager/assets/generations"), mode: 0o755 },
        PlanAction::WriteFile { path: text::owned("/etc/systemd/system/xray.service"), mode: 0o644, description: text::owned("xray.service") },
        PlanAction::WriteFile { path: text::owned("/etc/systemd/system/xray-tun-policy.service"), mode: 0o644, description: text::owned("xray-tun-policy.service") },
        PlanAction::DownloadArtifact { id: text::owned("xray-core"), destination: text::owned("/opt/xray-manager/core/versions") },
        PlanAction::DownloadArtifact { id: text::owned("assets"), destination: text::owned("/opt/xray-manager/assets/generations") },
        PlanAction::RunHealthcheck { url: text::owned(url) },
    ];
    assert(ports::plan_action_views(r@) =~= install_actions(url@));
    r
}

/// What removing does.
pub open spec fn removal_actions() -> Seq<PlanActionView> {
    seq![
        PlanActionView::StopService { name: "xray.service"@ },
        PlanActionView::StopService { name: "xray-tun-policy.service"@ },
        PlanActionView::RemoveService { name: "xray.service"@ },
        PlanActionView::RemoveService { name: "xray-tun-policy.service"@ },
        PlanActionView::RemoveOwnedPath { path: "/usr/local/bin/xrayctl"@ },
        PlanActionView::RemoveOwnedPath { path: "/usr/local/bin/xrayctl.previous"@ },
    ]
}

fn removal_list() -> (r: Vec<PlanAction>)
    ensures
        ports::plan_action_views(r@) == removal_actions(),
{
    let r: Vec<PlanAction> = vec![
        PlanAction::StopService { name: text::owned("xray.service") },
        PlanAction::StopService { name: text::owned("xray-tun-policy.service") },
        PlanAction::RemoveService { name: text::owned("xray.service") },
        PlanAction::RemoveService { name: text::owned("xray-tun-policy.service") },
        PlanAction::RemoveOwnedPath { path: text::owned("/usr/local/bin/xrayctl") },
        PlanAction::RemoveOwnedPath { path: text::owned("/usr/local/bin/xrayctl.previous") },
    ];
    assert(ports::plan_action_views(r@) =~= removal_actions());
    r
}

/// What removing all data does besides.
pub open spec fn purge_actions() -> Seq<PlanActionView> {
    seq![
        PlanActionView::RemoveOwnedPath { path: "/etc/xray-manager"@ },
        PlanActionView::RemoveOwnedPath { path: "/var/lib/xray-manager"@ },
        PlanActionView::RemoveOwnedPath { path: "/var/cache/xray-manager"@ },
        PlanActionView::RemoveOwnedPath { path: "/var/log/xray-manager"@ },
        PlanActionView::RemoveOwnedPath { path: "/opt/xray-manager"@ },
    ]
}

fn purge_list() -> (r: Vec<PlanAction>)
    ensures
        ports::plan_action_views(r@) == purge_actions(),
{
    let r: Vec<PlanAction> = vec![
        PlanAction::RemoveOwnedPath { path: text::owned("/etc/xray-manager") },
        PlanAction::RemoveOwnedPath { path: text::owned("/var/lib/xray-manager") },
        PlanAction::RemoveOwnedPath { path: text::owned("/var/cache/xray-manager") },
        PlanAction::RemoveOwnedPath { path: text::owned("/var/log/xray-manager") },
        PlanAction::RemoveOwnedPath { path: text::owned("/opt/xray-manager") },
    ];
    assert(ports::plan_action_views(r@) =~= purge_actions());
    r
}

/// The backends of an installation plan: the chosen ones, and by default the
/// installer and the service manager of the platform.
pub open spec fn install_backends(chosen: Map<Seq<char>, Seq<char>>) -> Map<Capability, Seq<char>> {
    let ids = ports::named_backends(chosen, text_map::sorted_keys(chosen));
    let with_install = if ids.contains_key(Capability::Install) {
        ids
    } else {
        ids.insert(Capability::Install, "arch"@)
    };
    if with_install.contains_key(Capability::Service) {
        with_install
    } else {
        with_install.insert(Capability::Service, "systemd"@)
    }
}

/// The operation of an upgrade.
pub open spec fn upgrade_name(target: UpgradeTarget) -> Seq<char> {
    match target {
        UpgradeTarget::All => "upgrade_all"@,
        UpgradeTarget::Core => "upgrade_core"@,
        UpgradeTarget::Assets => "upgrade_assets"@,
        UpgradeTarget::Manager => "upgrade_manager"@,
    }
}

/// Whether an upgrade takes in the core.
pub open spec fn upgrades_core(target: UpgradeTarget) -> bool {
    target == UpgradeTarget::All || target == UpgradeTarget::Core
}

/// Whether an upgrade takes in the assets.
pub open spec fn upgrades_assets(target: UpgradeTarget) -> bool {
    target == UpgradeTarget::All || target == UpgradeTarget::Assets
}

pub open spec fn artifact(there: bool, id: Seq<char>, destination: Seq<char>) -> Seq<
    PlanActionView,
> {
    if there {
        seq![PlanActionView::DownloadArtifact { id, destination }]
    } else {
        Seq::empty()
    }
}

/// What an upgrade does.
pub open spec fn upgrade_actions(target: UpgradeTarget) -> Seq<PlanActionView> {
    artifact(upgrades_core(target), "xray-core"@, "/opt/xray-manager/core/versions"@) + artifact(
        upgrades_assets(target),
        "assets"@,
        "/opt/xray-manager/assets/generations"@,
    ) + artifact(target == UpgradeTarget::Manager, "xray-manager"@, "/usr/local/bin/xrayctl"@)
        + seq![PlanActionView::RestartService { name: "xray.service"@ }]
}

/// What applying a plan comes to.
#[derive(Debug, Clone, Copy, PartialEq, Eq, Structural)]
pub enum PlanKind {
    Removal { purge: bool },
    Upgrade(UpgradeTarget),
    /// The host is set up; for an installation or a repair the installation
    /// is then activated.
    Setup { activate: bool, repair: bool },
}

/// What applying the plan of an operation comes to.
pub open spec fn kind_of(operation: Seq<char>) -> PlanKind {
    if operation == "uninstall"@ {
        PlanKind::Removal { purge: false }
    } else if operation == "purge"@ {
        PlanKind::Removal { purge: true }
    } else if operation == "upgrade_all"@ {
        PlanKind::Upgrade(UpgradeTarget::All)
    } else if operation == "upgrade_core"@ {
        PlanKind::Upgrade(UpgradeTarget::Core)
    } else if operation == "upgrade_assets"@ {
        PlanKind::Upgrade(UpgradeTarget::Assets)
    } else if operation == "upgrade_manager"@ {
        PlanKind::Upgrade(UpgradeTarget::Manager)
    } else {
        PlanKind::Setup {
            activate: operation == "install"@ || operation == "repair"@,
            repair: operation == "repair"@,
        }
    }
}

/// What applying a plan comes to.
pub fn plan_kind(plan: &ExecutionPlan) -> (r: PlanKind)
    ensures
        r == kind_of(plan@.operation),
{
    let name = plan.operation.as_str();
    if text::same(name, "uninstall") {
        PlanKind::Removal { purge: false }
    } else if text::same(name, "purge") {
        PlanKind::Removal { purge: true }
    } else if text::same(name, "upgrade_all") {
        PlanKind::Upgrade(UpgradeTarget::All)
    } else if text::same(name, "upgrade_core") {
        PlanKind::Upgrade(UpgradeTarget::Core)
    } else if text::same(name, "upgrade_assets") {
        PlanKind::Upgrade(UpgradeTarget::Assets)
    } else if text::same(name, "upgrade_manager") {
        PlanKind::Upgrade(UpgradeTarget::Manager)
    } else {
        let repair = text::same(name, "repair");
        PlanKind::Setup { activate: repair || text::same(name, "install"), repair }
    }
}

fn push_artifact(list: &mut Vec<PlanAction>, id: &str, destination: &str)
    ensures
        ports::plan_action_views(final(list)@) == ports::plan_action_views(old(list)@) + artifact(
            true,
            id@,
            destination@,
        ),
{
    let action = PlanAction::DownloadArtifact { id: text::owned(id), destination: text::owned(destination) };
    proof {
        ports::lemma_plan_action_views_push(list@, action);
    }
    list.push(action);
    assert(ports::plan_action_views(list@) =~= ports::plan_action_views(old(list)@) + artifact(
        true,
        id@,
        destination@,
    ));
}

impl ArchInstaller {
    /// An installer for a configuration and chosen backends.
    pub fn new(config: ManagerConfig, selections: &Vec<BackendSelection>) -> (r: ArchInstaller)
        ensures
            r.config == config,
            r.installed_backends@ == selected_names(ports::backend_selection_views(selections@)),
    {
        let ghost all = ports::backend_selection_views(selections@);
        let mut chosen = TextMap::new();
        let mut i: usize = 0;
        assert(all.take(0).len() == 0);
        while i < selections.len()
            invariant
                i <= selections@.len(),
                all == ports::backend_selection_views(selections@),
                chosen@ == selected_names(all.take(i as int)),
            decreases selections@.len() - i,
        {
            let s = &selections[i];
            proof {
                assert(all[i as int] == s@);
                assert(all.take(i + 1).drop_last() =~= all.take(i as int));
                assert(all.take(i + 1).last() == s@);
            }
            chosen.insert(text::owned(s.capability.name()), s.backend_id.clone());
            i += 1;
        }
        assert(all.take(all.len() as int) =~= all);
        ArchInstaller { config, installed_backends: chosen }
    }

    /// The plan of an installation.
    pub fn plan_install(&self, config: &ManagerConfig) -> (r: ExecutionPlan)
        ensures
            r@ == (ExecutionPlanView {
                operation: "install"@,
                backend_ids: install_backends(self.installed_backends@),
                actions: install_actions(config@.general.healthcheck_url),
            }),
    {
        let mut ids = ports::backends_of(&self.installed_backends);
        if ids.get(Capability::Install).is_none() {
            ids.insert(Capability::Install, text::owned("arch"));
        }
        if ids.get(Capability::Service).is_none() {
            ids.insert(Capability::Service, text::owned("systemd"));
        }
        ExecutionPlan {
            operation: text::owned("install"),
            backend_ids: ids,
            actions: install_list(config.general.healthcheck_url.as_str()),
        }
    }

    /// The plan of a repair: that of an installation.
    pub fn plan_repair(&self, config: &ManagerConfig) -> (r: ExecutionPlan)
        ensures
            r@ == (ExecutionPlanView {
                operation: "repair"@,
                backend_ids: install_backends(self.installed_backends@),
                actions: install_actions(config@.general.healthcheck_url),
            }),
    {
        let mut plan = self.plan_install(config);
        plan.operation = text::owned("repair");
        plan
    }

    /// The plan of a removal, with all data where `purge` says so.
    pub fn plan_uninstall(&self, purge: bool) -> (r: ExecutionPlan)
        ensures
            r@ == (ExecutionPlanView {
                operation: if purge {
                    "purge"@
                } else {
                    "uninstall"@
                },
                backend_ids: Map::empty().insert(Capability::Install, "arch"@),
                actions: if purge {
                    removal_actions() + purge_actions()
                } else {
                    removal_actions()
                },
            }),
    {
        let mut actions = removal_list();
        if purge {
            let ghost a = actions@;
            let mut more = purge_list();
            let ghost b = more@;
            actions.append(&mut more);
            assert(ports::plan_action_views(actions@) =~= ports::plan_action_views(a) + ports::plan_action_views(b));
        }
        let mut ids = CapabilityMap::new();
        ids.insert(Capability::Install, text::owned("arch"));
        ExecutionPlan {
            operation: if purge {
                text::owned("purge")
            } else {
                text::owned("uninstall")
            },
            backend_ids: ids,
            actions,
        }
    }

    /// The plan of an upgrade. The manager is upgraded only from a configured source.
    pub fn plan_upgrade(&self, target: UpgradeTarget) -> (r: Result<ExecutionPlan, ManagerError>)
        ensures
            match r {
                Ok(p) => !(target == UpgradeTarget::Manager
                    && self.config@.core.manager_repository is None) && p@ == (ExecutionPlanView {
                    operation: upgrade_name(target),
                    backend_ids: ports::named_backends(
                        self.installed_backends@,
                        text_map::sorted_keys(self.installed_backends@),
                    ),
                    actions: upgrade_actions(target),
                }),
                Err(e) => target == UpgradeTarget::Manager
                    && self.config@.core.manager_repository is None && e@
                    == ManagerErrorView::ManagerReleaseSourceNotConfigured,
            },
    {
        let mut actions: Vec<PlanAction> = Vec::new();
        assert(ports::plan_action_views(actions@) =~= Seq::empty());
        if target == UpgradeTarget::All || target == UpgradeTarget::Core {
            push_artifact(&mut actions, "xray-core", "/opt/xray-manager/core/versions");
        }
        if target == UpgradeTarget::All || target == UpgradeTarget::Assets {
            push_artifact(&mut actions, "assets", "/opt/xray-manager/assets/generations");
        }
        if target == UpgradeTarget::Manager {
            if self.config.core.manager_repository.is_none() {
                return Err(ManagerError::ManagerReleaseSourceNotConfigured);
            }
            push_artifact(&mut actions, "xray-manager", "/usr/local/bin/xrayctl");
        }
        let restart = PlanAction::RestartService { name: text::owned("xray.service") };
        proof {
            ports::lemma_plan_action_views_push(actions@, restart);
        }
        actions.push(restart);
        assert(ports::plan_action_views(actions@) =~= upgrade_actions(target));
        Ok(
            ExecutionPlan {
                operation: match target {
                    UpgradeTarget::All => text::owned("upgrade_all"),
                    UpgradeTarget::Core => text::owned("upgrade_core"),
                    UpgradeTarget::Assets => text::owned("upgrade_assets"),
                    UpgradeTarget::Manager => text::owned("upgrade_manager"),
                },
                backend_ids: ports::backends_of(&self.installed_backends),
                actions,
            },
        )
    }
}

/// The plan of an upgrade is applied as the upgrade that was asked for, and
/// the plans of removals as the removals.
pub proof fn law_plans_keep_their_kind(target: UpgradeTarget)
    ensures
        kind_of(upgrade_name(target)) == PlanKind::Upgrade(target),
        kind_of("purge"@) == (PlanKind::Removal { purge: true }),
        kind_of("uninstall"@) == (PlanKind::Removal { purge: false }),
        kind_of("install"@) == (PlanKind::Setup { activate: true, repair: false }),
        kind_of("repair"@) == (PlanKind::Setup { activate: true, repair: true }),
{
    reveal_strlit("upgrade_all");
    reveal_strlit("upgrade_core");
    reveal_strlit("upgrade_assets");
    reveal_strlit("upgrade_manager");
    reveal_strlit("purge");
    reveal_strlit("uninstall");
    reveal_strlit("install");
    reveal_strlit("repair");
    assert("upgrade_all"@.len() != "upgrade_core"@.len());
    assert("upgrade_all"@.len() != "upgrade_assets"@.len());
    assert("upgrade_all"@.len() != "upgrade_manager"@.len());
    assert("upgrade_all"@.len() != "purge"@.len());
    assert("upgrade_all"@.len() != "uninstall"@.len());
    assert("upgrade_all"@.len() != "install"@.len());
    assert("upgrade_all"@.len() != "repair"@.len());
    assert("upgrade_core"@.len() != "upgrade_assets"@.len());
    assert("upgrade_core"@.len() != "upgrade_manager"@.len());
    assert("upgrade_core"@.len() != "purge"@.len());
    assert("upgrade_core"@.len() != "uninstall"@.len());
    assert("upgrade_core"@.len() != "install"@.len());
    assert("upgrade_core"@.len() != "repair"@.len());
    assert("upgrade_assets"@.len() != "upgrade_manager"@.len());
    assert("upgrade_assets"@.len() != "purge"@.len());
    assert("upgrade_assets"@.len() != "uninstall"@.len());
    assert("upgrade_assets"@.len() != "install"@.len());
    assert("upgrade_assets"@.len() != "repair"@.len());
    assert("upgrade_manager"@.len() != "purge"@.len());
    assert("upgrade_manager"@.len() != "uninstall"@.len());
    assert("upgrade_manager"@.len() != "install"@.len());
    assert("upgrade_manager"@.len() != "repair"@.len());
    assert("purge"@.len() != "uninstall"@.len());
    assert("purge"@.len() != "install"@.len());
    assert("purge"@.len() != "repair"@.len());
    assert("uninstall"@.len() != "install"@.len());
    assert("uninstall"@.len() != "repair"@.len());
    assert("install"@.len() != "repair"@.len());
}

/// A path under which a removal plan takes files away.
pub open spec fn removed_path(a: PlanActionView) -> Option<Seq<char>> {
    match a {
        PlanActionView::RemoveOwnedPath { path } => Some(path),
        _ => None,
    }
}

/// Removing without purging leaves all data in place.
pub proof fn law_uninstall_keeps_data(i: int, j: int)
    requires
        0 <= i < removal_actions().len(),
        0 <= j < purge_actions().len(),
    ensures
        removed_path(purge_actions()[j]) is Some,
        removed_path(removal_actions()[i]) != removed_path(purge_actions()[j]),
{
    reveal_strlit("/usr/local/bin/xrayctl");
    reveal_strlit("/usr/local/bin/xrayctl.previous");
    reveal_strlit("/etc/xray-manager");
    reveal_strlit("/var/lib/xray-manager");
    reveal_strlit("/var/cache/xray-manager");
    reveal_strlit("/var/log/xray-manager");
    reveal_strlit("/opt/xray-manager");
    assert("/usr/local/bin/xrayctl"@.len() != "/usr/local/bin/xrayctl.previous"@.len());
    assert("/usr/local/bin/xrayctl"@.len() != "/etc/xray-manager"@.len());
    assert("/usr/local/bin/xrayctl"@.len() != "/var/lib/xray-manager"@.len());
    assert("/usr/local/bin/xrayctl"@.len() != "/var/cache/xray-manager"@.len());
    assert("/usr/local/bin/xrayctl"@.len() != "/var/log/xray-manager"@.len());
    assert("/usr/local/bin/xrayctl"@.len() != "/opt/xray-manager"@.len());
    assert("/usr/local/bin/xrayctl.previous"@.len() != "/etc/xray-manager"@.len());
    assert("/usr/local/bin/xrayctl.previous"@.len() != "/var/lib/xray-manager"@.len());
    assert("/usr/local/bin/xrayctl.previous"@.len() != "/var/cache/xray-manager"@.len());
    assert("/usr/local/bin/xrayctl.previous"@.len() != "/var/log/xray-manager"@.len());
    assert("/usr/local/bin/xrayctl.previous"@.len() != "/opt/xray-manager"@.len());
    assert("/etc/xray-manager"@.len() != "/var/lib/xray-manager"@.len());
    assert("/etc/xray-manager"@.len() != "/var/cache/xray-manager"@.len());
    assert("/etc/xray-manager"@.len() != "/var/log/xray-manager"@.len());
    assert("/etc/xray-manager"@[1] != "/opt/xray-manager"@[1]);
    assert("/var/lib/xray-manager"@.len() != "/var/cache/xray-manager"@.len());
    assert("/var/lib/xray-manager"@[6] != "/var/log/xray-manager"@[6]);
    assert("/var/lib/xray-manager"@.len() != "/opt/xray-manager"@.len());
    assert("/var/cache/xray-manager"@.len() != "/var/log/xray-manager"@.len());
    assert("/var/cache/xray-manager"@.len() != "/opt/xray-manager"@.len());
    assert("/var/log/xray-manager"@.len() != "/opt/xray-manager"@.len());
}

} // verus!
