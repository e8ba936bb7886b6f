//! What operations are planned, allowed and carried out as.

use crate::activation::{Component, ServiceVerb};
use crate::config::ManagerConfigView;
use crate::config;
use crate::domain::{Node, Protocol};
use crate::domain;
use crate::doctor::{all_checks, DeepFactsView, PackageFactsView, TunFactsView};
use crate::doctor;
use crate::dto::{CheckStatus, DoctorCheckDtoView};
use crate::error::{ManagerError, ManagerErrorView};
use crate::execution::{early_refusal, launch_of, result_of, stages_of, Stage};
use crate::execution;
use crate::json::JsonView;
use crate::laws::reading::mark;
use crate::operation::{is_unprivileged, needs_capability, operation_name, OperationOptions, OperationView};
use crate::planning::{blocks_install, completed_plan, installer_source, planned_actions, refusal};
use crate::planning::{BackendsView, PlanSourceView};
use crate::planning;
use crate::ports::{path_join, Capability, CapabilityStatusView, ExecutionPlanView, ManagerPathsView, PlanActionView, PlatformInfoView, UpgradeTarget};
use crate::tasks::{task_of, TaskView};
use crate::text::{has_infix, has_prefix, opt_text, signed_decimal};
use vstd::prelude::*;

verus! {

/// What each operation is carried out as.
pub proof fn law_operations_are_carried_out(o: OperationView)
    ensures
        o is ServiceStart ==> task_of(o) == Ok::<TaskView, ManagerErrorView>(
            TaskView::Service(ServiceVerb::Start),
        ),
        o is ServiceStop ==> task_of(o) == Ok::<TaskView, ManagerErrorView>(
            TaskView::Service(ServiceVerb::Stop),
        ),
        o is ServiceRestart ==> task_of(o) == Ok::<TaskView, ManagerErrorView>(
            TaskView::Service(ServiceVerb::Restart),
        ),
        o is ConfigRollback ==> task_of(o) == Ok::<TaskView, ManagerErrorView>(
            TaskView::Rollback(Component::Configuration),
        ),
        o is CoreRollback ==> task_of(o) == Ok::<TaskView, ManagerErrorView>(
            TaskView::Rollback(Component::Core),
        ),
        o is AssetRollback ==> task_of(o) == Ok::<TaskView, ManagerErrorView>(
            TaskView::Rollback(Component::Assets),
        ),
        o is TunEnable ==> task_of(o) == Ok::<TaskView, ManagerErrorView>(TaskView::EnableTun),
        o is TunDisable || o is TunCleanup ==> task_of(o) == Ok::<TaskView, ManagerErrorView>(
            TaskView::DisableTun,
        ),
        o is Apply || o is RoutingApply ==> task_of(o) == Ok::<TaskView, ManagerErrorView>(
            TaskView::Activate,
        ),
        o matches OperationView::NodeSelect { id } ==> task_of(o) == Ok::<
            TaskView,
            ManagerErrorView,
        >(TaskView::SelectNode { id }),
        o matches OperationView::SubscriptionAdd { name, url } ==> (task_of(o) matches Ok(
            TaskView::PutSubscription(s),
        ) && s.name == name && s.url == url && s.enabled && s.format == "auto"@),
        o matches OperationView::SubscriptionRemove { name } ==> task_of(o) == Ok::<
            TaskView,
            ManagerErrorView,
        >(TaskView::DropSubscription { name }),
        o matches OperationView::SubscriptionEnable { name, enabled } ==> task_of(o) == Ok::<
            TaskView,
            ManagerErrorView,
        >(TaskView::SetSubscription { name, enabled }),
        o matches OperationView::SubscriptionRefresh { name } ==> task_of(o) == Ok::<
            TaskView,
            ManagerErrorView,
        >(TaskView::Refresh { name }),
        o matches OperationView::DesktopProxyEnable { user } ==> task_of(o) == Ok::<
            TaskView,
            ManagerErrorView,
        >(TaskView::DesktopProxy { user, enable: true }),
        o matches OperationView::DesktopProxyDisable { user } ==> task_of(o) == Ok::<
            TaskView,
            ManagerErrorView,
        >(TaskView::DesktopProxy { user, enable: false }),
        o matches OperationView::RoutingSet { routing } ==> task_of(o) == Ok::<
            TaskView,
            ManagerErrorView,
        >(TaskView::PutRouting(routing)),
        o matches OperationView::RoutingPreset { name } ==> (match crate::routing::preset_config(
            name,
        ) {
            Some(c) => task_of(o) == Ok::<TaskView, ManagerErrorView>(TaskView::PutRouting(c)),
            None => task_of(o) is Err,
        }),
        o matches OperationView::AppRun { profile, command } ==> task_of(o) == Ok::<
            TaskView,
            ManagerErrorView,
        >(TaskView::RunApp { profile, command }),
        o matches OperationView::AppTest { profile } ==> task_of(o) == Ok::<
            TaskView,
            ManagerErrorView,
        >(TaskView::TestApp { profile }),
        o matches OperationView::AppProfilePut { profile } ==> task_of(o) == Ok::<
            TaskView,
            ManagerErrorView,
        >(TaskView::PutProfile(profile)),
        o matches OperationView::AppProfileRemove { name } ==> (task_of(o) matches Ok(t) ==> t == (
        TaskView::DropProfile { name })),
{
}

proof fn lemma_names()
    ensures
        mark("install"@) == (7int, 'i', 's', 't', 'l', 'l'),
        mark("repair"@) == (6int, 'r', 'p', 'a', 'i', 'r'),
        mark("uninstall"@) == (9int, 'u', 'n', 's', 'a', 'l'),
        mark("purge"@) == (5int, 'p', 'u', 'r', 'g', 'e'),
        mark("apply"@) == (5int, 'a', 'p', 'p', 'l', 'y'),
        mark("upgrade_all"@) == (11int, 'u', 'r', 'd', 'a', 'l'),
        mark("upgrade_core"@) == (12int, 'u', 'a', 'e', 'o', 'e'),
        mark("upgrade_assets"@) == (14int, 'u', 'a', '_', 's', 's'),
        mark("upgrade_manager"@) == (15int, 'u', 'd', '_', 'a', 'r'),
        mark("subscription_refresh"@) == (20int, 's', 'i', 'o', 'f', 'h'),
        mark("node_select"@) == (11int, 'n', 'e', 's', 'e', 't'),
        mark("routing_apply"@) == (13int, 'r', 'i', 'g', 'p', 'y'),
        mark("service_start"@) == (13int, 's', 'i', 'e', 't', 't'),
        mark("service_stop"@) == (12int, 's', 'i', 'e', 't', 'p'),
        mark("service_restart"@) == (15int, 's', 'c', '_', 't', 't'),
        mark("tun_enable"@) == (10int, 't', '_', 'n', 'b', 'e'),
        mark("tun_disable"@) == (11int, 't', '_', 'i', 'b', 'e'),
        mark("tun_cleanup"@) == (11int, 't', '_', 'l', 'n', 'p'),
        mark("desktop_proxy_enable"@) == (20int, 'd', 'p', 'o', 'n', 'e'),
        mark("desktop_proxy_disable"@) == (21int, 'd', '_', 'o', 'i', 'e'),
        mark("app_run"@) == (7int, 'a', 'p', '_', 'u', 'n'),
        mark("app_test"@) == (8int, 'a', 'p', 't', 's', 't'),
        mark("app_profile_remove"@) == (18int, 'a', 'o', 'l', 'e', 'e'),
        mark("app_profile_put"@) == (15int, 'a', 'r', 'f', '_', 't'),
        mark("subscription_add"@) == (16int, 's', 'r', 't', '_', 'd'),
        mark("subscription_remove"@) == (19int, 's', 'i', 'i', 'e', 'e'),
        mark("subscription_enable"@) == (19int, 's', 'i', 'i', 'n', 'e'),
        mark("subscription_disable"@) == (20int, 's', 'i', 'o', 's', 'e'),
        mark("config_rollback"@) == (15int, 'c', 'g', 'r', 'b', 'k'),
        mark("core_rollback"@) == (13int, 'c', '_', 'o', 'b', 'k'),
        mark("asset_rollback"@) == (14int, 'a', 't', 'o', 'b', 'k'),
        mark("routing_preset"@) == (14int, 'r', 'i', '_', 'e', 't'),
        mark("routing_set"@) == (11int, 'r', 't', 'n', 's', 't'),
{
    reveal_strlit("install");
    reveal_strlit("repair");
    reveal_strlit("uninstall");
    reveal_strlit("purge");
    reveal_strlit("apply");
    reveal_strlit("upgrade_all");
    reveal_strlit("upgrade_core");
    reveal_strlit("upgrade_assets");
    reveal_strlit("upgrade_manager");
    reveal_strlit("subscription_refresh");
    reveal_strlit("node_select");
    reveal_strlit("routing_apply");
    reveal_strlit("service_start");
    reveal_strlit("service_stop");
    reveal_strlit("service_restart");
    reveal_strlit("tun_enable");
    reveal_strlit("tun_disable");
    reveal_strlit("tun_cleanup");
    reveal_strlit("desktop_proxy_enable");
    reveal_strlit("desktop_proxy_disable");
    reveal_strlit("app_run");
    reveal_strlit("app_test");
    reveal_strlit("app_profile_remove");
    reveal_strlit("app_profile_put");
    reveal_strlit("subscription_add");
    reveal_strlit("subscription_remove");
    reveal_strlit("subscription_enable");
    reveal_strlit("subscription_disable");
    reveal_strlit("config_rollback");
    reveal_strlit("core_rollback");
    reveal_strlit("asset_rollback");
    reveal_strlit("routing_preset");
    reveal_strlit("routing_set");
}

/// Operations of different kinds have different names.
pub proof fn law_operation_names_differ(a: OperationView, b: OperationView)
    requires
        operation_name(a) == operation_name(b),
    ensures
        installer_source(a) is Some ==> installer_source(b) is Some && task_of(a) == task_of(b),
        a is ServiceStart ==> b is ServiceStart,
        a is ServiceStop ==> b is ServiceStop,
        a is ServiceRestart ==> b is ServiceRestart,
        a is TunEnable ==> b is TunEnable,
        a is TunDisable ==> b is TunDisable,
        a is ConfigRollback ==> b is ConfigRollback,
        a is CoreRollback ==> b is CoreRollback,
        a is AssetRollback ==> b is AssetRollback,
        a is Purge ==> b is Purge,
        a is Uninstall ==> b is Uninstall,
        a is Install ==> b is Install,
        a is Repair ==> b is Repair,
        a is NodeSelect ==> b is NodeSelect,
        a is DesktopProxyEnable ==> b is DesktopProxyEnable,
        a is SubscriptionRemove ==> b is SubscriptionRemove,
{
    lemma_names();
}

/// The plan of an installation, a removal or an upgrade is made by the
/// installer, and each such operation asks it for its own.
pub proof fn law_installer_plans(o: OperationView)
    ensures
        installer_source(o) == (match o {
            OperationView::Install { user } => Some(PlanSourceView::Install { user }),
            OperationView::Repair => Some(PlanSourceView::Repair),
            OperationView::Uninstall => Some(PlanSourceView::Uninstall { purge: false }),
            OperationView::Purge => Some(PlanSourceView::Uninstall { purge: true }),
            OperationView::UpgradeAll => Some(PlanSourceView::Upgrade(UpgradeTarget::All)),
            OperationView::UpgradeCore => Some(PlanSourceView::Upgrade(UpgradeTarget::Core)),
            OperationView::UpgradeAssets => Some(PlanSourceView::Upgrade(UpgradeTarget::Assets)),
            OperationView::UpgradeManager => Some(PlanSourceView::Upgrade(UpgradeTarget::Manager)),
            _ => None,
        }),
{
}

/// What is shown of an operation is what it does: the service is started,
/// stopped or restarted as it is shown, what selects or routes restarts it, a
/// subscription is written for root alone and its address is not shown.
pub proof fn law_shown_plans(
    o: OperationView,
    c: ManagerConfigView,
    p: ManagerPathsView,
    b: BackendsView,
)
    requires
        planned_actions(o, c, p, b) is Ok,
    ensures
        ({
            let a = planned_actions(o, c, p, b)->Ok_0;
            let xray = "xray.service"@;
            let policy = "xray-tun-policy.service"@;
            &&& o is ServiceStart ==> a == seq![PlanActionView::StartService { name: xray }]
            &&& o is ServiceStop ==> a == seq![PlanActionView::StopService { name: xray }]
            &&& o is ServiceRestart || o is ConfigRollback || o is CoreRollback || o is AssetRollback
                ==> a == seq![PlanActionView::RestartService { name: xray }]
            &&& o is TunDisable || o is TunCleanup ==> a == seq![
                PlanActionView::StopService { name: policy },
            ]
            &&& o is TunEnable ==> a.len() == 4 && a[0] is ConfigureFirewall && (
            a[1] matches PlanActionView::ConfigureRoute { table, .. } && table
                == c.tun.routing_table) && a[2] == (PlanActionView::StartService { name: policy })
                && a[3] == (PlanActionView::RestartService { name: xray })
            &&& o is Apply || o is NodeSelect || o is RoutingApply || o is RoutingPreset || o
                is RoutingSet ==> a.len() == 2 && a[0] is ApplyConfiguration && a[1] == (
            PlanActionView::RestartService { name: xray })
            &&& o matches OperationView::SubscriptionAdd { name, .. } ==> a.len() == 1 && (
            a[0] matches PlanActionView::WriteFile { path, mode, description } && mode == 0o600
                && description == "subscription configuration (URL redacted)"@ && path == path_join(
                p.windows,
                path_join(p.windows, p.config_dir, "subscriptions.d"@),
                name + ".toml"@,
            ))
            &&& o matches OperationView::SubscriptionRemove { name } ==> a == seq![
                PlanActionView::RemoveOwnedPath {
                    path: path_join(
                        p.windows,
                        path_join(p.windows, p.config_dir, "subscriptions.d"@),
                        name + ".toml"@,
                    ),
                },
            ]
            &&& o matches OperationView::AppProfileRemove { name } ==> a == seq![
                PlanActionView::RemoveOwnedPath {
                    path: path_join(
                        p.windows,
                        path_join(p.windows, p.config_dir, "apps.d"@),
                        name + ".toml"@,
                    ),
                },
            ]
            &&& o matches OperationView::AppProfilePut { profile } ==> a.len() == 1 && (
            a[0] matches PlanActionView::WriteFile { path, mode, .. } && mode == 0o640 && path
                == path_join(
                p.windows,
                path_join(p.windows, p.config_dir, "apps.d"@),
                profile.name + ".toml"@,
            ))
            &&& o matches OperationView::DesktopProxyEnable { user } ==> a.len() == 1 && (
            a[0] matches PlanActionView::ConfigureDesktopProxy { user: u, enabled, .. } && u == user
                && enabled)
            &&& o matches OperationView::DesktopProxyDisable { user } ==> a.len() == 1 && (
            a[0] matches PlanActionView::ConfigureDesktopProxy { user: u, enabled, .. } && u == user
                && !enabled)
            &&& o is AppRun || o is AppTest ==> a.len() == 1 && (
            a[0] matches PlanActionView::LaunchApplication { routed, .. } && routed)
        }),
{
}

/// A name that is no name makes no plan that touches a file of it.
pub proof fn law_bad_names_are_refused(
    o: OperationView,
    c: ManagerConfigView,
    p: ManagerPathsView,
    b: BackendsView,
    name: Seq<char>,
)
    requires
        !config::is_resource_name(name),
        (o matches OperationView::SubscriptionAdd { name: n, .. } && n == name) || (
        o matches OperationView::SubscriptionRemove { name: n } && n == name) || (
        o matches OperationView::SubscriptionEnable { name: n, .. } && n == name) || (
        o matches OperationView::AppProfileRemove { name: n } && n == name) || (
        o matches OperationView::AppTest { profile: n } && n == name),
    ensures
        planned_actions(o, c, p, b) is Err,
{
}

/// What an operation needs of a platform.
pub proof fn law_needed_capabilities(o: OperationView, tun: bool)
    ensures
        o is Install || o is Repair ==> needs_capability(o, tun, Capability::Install)
            && needs_capability(o, tun, Capability::Service) && needs_capability(
            o,
            tun,
            Capability::Identity,
        ) && needs_capability(o, tun, Capability::PackageAdvice),
        o is Install || o is Repair || o is Apply || o is NodeSelect || o is RoutingApply || o
            is RoutingPreset || o is RoutingSet || o is ConfigRollback ==> (needs_capability(
            o,
            tun,
            Capability::Tun,
        ) <==> tun) && (needs_capability(o, tun, Capability::Firewall) <==> tun) && (
        needs_capability(o, tun, Capability::PolicyRouting) <==> tun),
        o is TunEnable || o is TunDisable || o is TunCleanup ==> needs_capability(
            o,
            tun,
            Capability::Tun,
        ) && needs_capability(o, tun, Capability::Firewall) && needs_capability(
            o,
            tun,
            Capability::PolicyRouting,
        ) && needs_capability(o, tun, Capability::Service),
        o is ServiceStart || o is ServiceStop || o is ServiceRestart || o is Apply || o is NodeSelect
            || o is UpgradeCore || o is UpgradeAll || o is UpgradeAssets || o is CoreRollback || o
            is AssetRollback || o is ConfigRollback ==> needs_capability(
            o,
            tun,
            Capability::Service,
        ),
        o is UpgradeManager || o is UpgradeCore || o is UpgradeAll || o is UpgradeAssets
            ==> needs_capability(o, tun, Capability::Install),
        o is DesktopProxyEnable || o is DesktopProxyDisable ==> needs_capability(
            o,
            tun,
            Capability::DesktopProxy,
        ),
        o is AppRun || o is AppTest ==> needs_capability(o, tun, Capability::AppRunner)
            && needs_capability(o, tun, Capability::MountIsolation),
        o is SubscriptionAdd || o is SubscriptionRemove || o is SubscriptionEnable || o
            is SubscriptionRefresh || o is AppProfilePut || o is AppProfileRemove || o is Uninstall
            || o is Purge ==> forall|c: Capability| !#[trigger] needs_capability(o, tun, c),
{
}

/// Only what touches no more than the files of the manager goes without
/// administrative privileges.
pub proof fn law_privileged_operations(o: OperationView)
    ensures
        is_unprivileged(o) <==> o is SubscriptionRefresh || o is SubscriptionAdd || o
            is SubscriptionRemove || o is SubscriptionEnable || o is AppProfileRemove || o
            is AppProfilePut,
        stages_of(o, false).contains(Stage::Privilege) <==> !is_unprivileged(o),
        stages_of(o, false).contains(Stage::Lock) <==> !(o is AppRun || o is AppTest),
        stages_of(o, false).contains(Stage::Perform),
        stages_of(o, true).contains(Stage::Report) && stages_of(o, false).last() == Stage::Report,
{
    let privilege = if is_unprivileged(o) {
        Seq::empty()
    } else {
        seq![Stage::Privilege]
    };
    let lock = if execution::runs_unlocked(o) {
        Seq::empty()
    } else {
        seq![Stage::Lock]
    };
    let a = seq![Stage::Plan] + privilege;
    let b = a + seq![Stage::Packages];
    let c = b + lock;
    let end = seq![Stage::Perform, Stage::Report];
    let s = stages_of(o, false);
    assert(s == c + end);
    assert(s[c.len() as int] == end[0]);
    assert(s[c.len() as int + 1] == end[1]);
    if !is_unprivileged(o) {
        assert(s[1] == Stage::Privilege);
    }
    if !execution::runs_unlocked(o) {
        assert(s[b.len() as int] == Stage::Lock);
    }
    assert(stages_of(o, true)[1] == Stage::Report);
}

/// What is refused before anything is planned: a purge that nobody confirmed,
/// and an upgrade of the manager without a source.
pub proof fn law_early_refusals(
    o: OperationView,
    options: OperationOptions,
    repository: Option<Seq<char>>,
)
    ensures
        early_refusal(o, options, repository) is Some <==> (o is Purge && !options.dry_run
            && !options.assume_yes) || (o is UpgradeManager && repository is None),
{
}

/// An operation is refused where it enables TUN though TUN is off, and, unless
/// it is only shown, where a capability that it needs is neither there nor
/// brought by itself.
pub proof fn law_refusals(b: BackendsView, o: OperationView, tun: bool)
    ensures
        o is TunEnable && !tun ==> refusal(b, o, tun, true) is Some && refusal(b, o, tun, false)
            is Some,
        !(o is TunEnable && !tun) ==> refusal(b, o, tun, false) is None,
        !(o is TunEnable && !tun) && (forall|c: Capability|
            #[trigger] needs_capability(o, tun, c) ==> planning::is_supported(b, c)) ==> refusal(
            b,
            o,
            tun,
            true,
        ) is None,
{
    if forall|c: Capability| #[trigger] needs_capability(o, tun, c) ==> planning::is_supported(b, c) {
        let keep = |c: Capability| needs_capability(o, tun, c);
        let all = crate::operation::all_capabilities();
        crate::laws::routing::lemma_filtered(all, keep);
        let needed = crate::operation::needed_capabilities(o, tun);
        assert forall|i: int| 0 <= i < needed.len() implies planning::is_supported(
            b,
            #[trigger] needed[i],
        ) by {
            assert(all.filter(keep).contains(needed[i]));
            assert(needs_capability(o, tun, needed[i]));
        }
        lemma_none_lacking(b, o, needed);
    }
}

proof fn lemma_none_lacking(b: BackendsView, o: OperationView, needed: Seq<Capability>)
    requires
        forall|i: int| 0 <= i < needed.len() ==> planning::is_supported(b, #[trigger] needed[i]),
    ensures
        planning::first_lacking(b, o, needed) is None,
    decreases needed.len(),
{
    if needed.len() > 0 {
        let rest = needed.drop_last();
        assert forall|i: int| 0 <= i < rest.len() implies planning::is_supported(
            b,
            #[trigger] rest[i],
        ) by {
            assert(rest[i] == needed[i]);
        }
        lemma_none_lacking(b, o, rest);
        assert(needed[needed.len() - 1] == needed.last());
    }
}

/// What a missing program blocks: all but those of applications, and those of
/// TUN only where TUN is enabled.
pub proof fn law_blocking_requirements(s: Seq<char>, tun: bool)
    ensures
        s == "mount"@ || s == "unshare"@ ==> !blocks_install(s, tun),
        s == "ip"@ || s == "nft"@ ==> (blocks_install(s, tun) <==> tun),
        s != "mount"@ && s != "unshare"@ && s != "ip"@ && s != "nft"@ ==> blocks_install(s, tun),
{
    reveal_strlit("mount");
    reveal_strlit("unshare");
    reveal_strlit("ip");
    reveal_strlit("nft");
    assert("mount"@.len() == 5);
    assert("unshare"@.len() == 7);
    assert("ip"@.len() == 2);
    assert("nft"@.len() == 3);
}

/// A completed plan asks for its packages first and adds its user at the end,
/// to the group that may manage; all else stays.
pub proof fn law_completed_plan(
    plan: ExecutionPlanView,
    packages: Seq<Seq<char>>,
    user: Option<Seq<char>>,
)
    ensures
        ({
            let r = completed_plan(plan, packages, user);
            &&& r is Ok <==> (user matches Some(u) ==> config::is_resource_name(u))
            &&& r matches Ok(p) ==> p.operation == plan.operation && p.backend_ids
                == plan.backend_ids
            &&& r matches Ok(p) ==> (packages.len() > 0 ==> p.actions[0] == (
            PlanActionView::RequirePackages { packages }))
            &&& r matches Ok(p) ==> (user matches Some(u) ==> p.actions.last() == (
            PlanActionView::AddIdentityToGroup { identity: u, group: "xray-manager"@ }))
            &&& r matches Ok(p) ==> p.actions.len() == plan.actions.len() + (if packages.len() > 0 {
                1int
            } else {
                0
            }) + (if user is Some {
                1int
            } else {
                0
            })
        }),
{
}

/// What is told of an operation: a change unless it was only shown or only a
/// test, its plan exactly where it was only shown, and after an installation
/// without a node that nothing goes through yet.
pub proof fn law_operation_result(
    o: OperationView,
    options: OperationOptions,
    plan: ExecutionPlanView,
    data: Option<JsonView>,
    selected: Option<Seq<char>>,
    warnings: Seq<Seq<char>>,
)
    ensures
        ({
            let r = result_of(o, options, plan, data, selected, warnings);
            &&& r.changed <==> !options.dry_run && !(o is AppTest)
            &&& r.plan == (if options.dry_run {
                Some(plan)
            } else {
                None
            })
            &&& r.data == data
            &&& r.operation == operation_name(o)
            &&& o is Install && selected is None && !options.dry_run ==> r.warnings.len()
                == warnings.len() + 1 && r.warnings.take(warnings.len() as int) == warnings
            &&& !(o is Install && selected is None && !options.dry_run) ==> r.warnings == warnings
        }),
{
    let r = result_of(o, options, plan, data, selected, warnings);
    if o is Install && selected is None && !options.dry_run {
        assert(r.warnings.take(warnings.len() as int) =~= warnings);
    }
}

/// A node is found by the beginning of its ID where that fits no other.
pub proof fn law_node_is_found(nodes: &Vec<Node>, id: &str, r: Result<usize, ManagerError>, i: int)
    requires
        call_ensures(execution::find_node, (nodes, id), r),
        0 <= i < nodes@.len(),
    ensures
        r matches Ok(k) ==> k < nodes@.len() && has_prefix(nodes@[k as int]@.id, id@),
        r matches Ok(k) ==> (i != k ==> !has_prefix(nodes@[i]@.id, id@)),
        has_prefix(nodes@[i]@.id, id@) && (forall|j: int|
            0 <= j < nodes@.len() && j != i ==> !has_prefix((#[trigger] nodes@[j])@.id, id@)) ==> r
            == Ok::<usize, ManagerError>(i as usize),
{
    let views = domain::node_views(nodes@);
    assert(forall|j: int| 0 <= j < nodes@.len() ==> #[trigger] views[j] == nodes@[j]@);
    if let Ok(k) = r {
        if i != k {
            assert(!execution::prefix_matches(views[i], id@));
        }
    }
    if has_prefix(nodes@[i]@.id, id@) && (forall|j: int|
        0 <= j < nodes@.len() && j != i ==> !has_prefix((#[trigger] nodes@[j])@.id, id@)) {
        assert(execution::prefix_matches(views[i], id@));
        assert forall|j: int| 0 <= j < views.len() && j != i implies !execution::prefix_matches(
            #[trigger] views[j],
            id@,
        ) by {
            assert(!has_prefix(nodes@[j]@.id, id@));
        }
        assert(execution::only_match(views, id@, i));
    }
}

/// A Hysteria2 node with warnings is not selected; any other may be.
pub proof fn law_selectable(node: &Node, r: Result<(), ManagerError>)
    requires
        call_ensures(execution::check_selectable, (node,), r),
    ensures
        r is Err <==> node@.protocol == Protocol::Hysteria2 && node@.warnings.len() > 0,
{
}

/// A subscription is not removed while it holds the selected node.
pub proof fn law_removable(
    nodes: &Vec<Node>,
    selected: &Option<String>,
    name: &str,
    r: Result<(), ManagerError>,
    i: int,
)
    requires
        call_ensures(execution::check_removable, (nodes, selected, name), r),
        0 <= i < nodes@.len(),
    ensures
        opt_text(*selected) == Some(nodes@[i]@.id) && nodes@[i]@.subscription == name@ ==> r is Err,
        opt_text(*selected) is None ==> r is Ok,
        (forall|j: int| 0 <= j < nodes@.len() ==> (#[trigger] nodes@[j])@.subscription != name@)
            ==> r is Ok,
{
    let views = domain::node_views(nodes@);
    assert(forall|j: int| 0 <= j < nodes@.len() ==> #[trigger] views[j] == nodes@[j]@);
    assert(views[i] == nodes@[i]@);
}

/// An application runs through TUN only where the policy is in place and the
/// interface is there, and what it ends with is told.
pub proof fn law_application_checks(
    policy: bool,
    interface: bool,
    name: &str,
    a: Result<(), ManagerError>,
    code: i32,
    b: Result<(), ManagerError>,
)
    requires
        call_ensures(execution::check_tun_active, (policy, interface, name), a),
        call_ensures(execution::check_exit, (code,), b),
    ensures
        a is Ok <==> policy && interface,
        b is Ok <==> code == 0,
        b matches Err(e) ==> e@ == ManagerErrorView::Other(
            "application exited with status "@ + signed_decimal(code as int),
        ),
{
}

/// What is started: the given command, or that of the profile where none was
/// given; without either there is nothing. The rest is as the profile says, and
/// without one no proxy is inherited.
pub proof fn law_launch(profile: Option<crate::config::AppProfileView>, command: Seq<Seq<char>>)
    ensures
        launch_of(profile, command) is None <==> command.len() == 0 && (profile matches Some(p)
            ==> p.command.len() == 0),
        launch_of(profile, command) matches Some(r) ==> {
            &&& command.len() > 0 ==> r.command == command
            &&& command.len() == 0 ==> r.command == profile->0.command
            &&& r.user.len() == 0
            &&& profile matches Some(p) ==> r.override_dns == p.override_dns
                && r.clear_proxy_environment == p.clear_proxy_environment && r.working_directory
                == p.working_directory && r.environment == p.environment
            &&& profile is None ==> !r.override_dns && r.clear_proxy_environment
                && r.working_directory is None && r.environment == Map::<Seq<char>, Seq<char>>::empty()
        },
{
}

/// A check of the doctor by its ID.
pub open spec fn found(checks: Seq<DoctorCheckDtoView>, id: Seq<char>) -> Option<DoctorCheckDtoView>
    decreases checks.len(),
{
    if checks.len() == 0 {
        None
    } else if checks.last().id == id {
        Some(checks.last())
    } else {
        found(checks.drop_last(), id)
    }
}

proof fn lemma_checks()
    ensures
        mark("platform-backends"@) == (17int, 'p', 'o', '-', 'k', 's'),
        mark("configuration"@) == (13int, 'c', 'i', 'u', 't', 'n'),
        mark("platform"@) == (8int, 'p', 'a', 'f', 'r', 'm'),
        mark("privileges"@) == (10int, 'p', 'v', 'l', 'g', 's'),
        mark("packages"@) == (8int, 'p', 'c', 'a', 'e', 's'),
        mark("xray-service"@) == (12int, 'x', '-', 'e', 'i', 'e'),
        mark("installed-layout"@) == (16int, 'i', 'l', 'd', 'y', 't'),
        mark("xray-config"@) == (11int, 'x', 'y', 'c', 'f', 'g'),
        mark("proxy-health"@) == (12int, 'p', 'y', 'h', 'l', 'h'),
        mark("selective-tun"@) == (13int, 's', 'c', 'i', '-', 'n'),
{
    reveal_strlit("platform-backends");
    reveal_strlit("configuration");
    reveal_strlit("platform");
    reveal_strlit("privileges");
    reveal_strlit("packages");
    reveal_strlit("xray-service");
    reveal_strlit("installed-layout");
    reveal_strlit("xray-config");
    reveal_strlit("proxy-health");
    reveal_strlit("selective-tun");
}

/// What the doctor says of a host that it looked at thoroughly: of each part
/// whether it is well, and of what is not well what can be done.
pub proof fn law_doctor(
    statuses: Seq<CapabilityStatusView>,
    platform: PlatformInfoView,
    elevated: bool,
    f: DeepFactsView,
    tun: bool,
    selected: bool,
)
    ensures
        ({
            let all = all_checks(statuses, platform, elevated, Some(f), tun, selected);
            let packages = found(all, "packages"@);
            let service = found(all, "xray-service"@);
            let layout = found(all, "installed-layout"@);
            let configuration = found(all, "xray-config"@);
            let health = found(all, "proxy-health"@);
            let rules = found(all, "selective-tun"@);
            &&& packages is Some && (packages->0.status == CheckStatus::Pass <==> (
            f.packages matches PackageFactsView::Known { missing, .. } && missing.len() == 0))
            &&& packages->0.status == CheckStatus::Warn <==> f.packages is Unavailable
            &&& service is Some && (service->0.status == CheckStatus::Pass <==> f.service_active
                == Some(true)) && (service->0.status == CheckStatus::Fail <==> f.service_active
                == Some(false))
            &&& layout is Some && (layout->0.status == CheckStatus::Pass <==> f.missing_paths.len()
                == 0) && (layout->0.status == CheckStatus::Fail <==> f.missing_paths.len() > 0)
            &&& layout->0.remediation is Some <==> f.missing_paths.len() > 0
            &&& configuration is Some <==> f.missing_paths.len() == 0
            &&& configuration is Some ==> (configuration->0.status == CheckStatus::Pass
                <==> f.config_valid == Some(true)) && (configuration->0.status == CheckStatus::Fail
                <==> f.config_valid != Some(true))
            &&& health is Some <==> f.service_active == Some(true) && selected
            &&& health is Some ==> (health->0.status == CheckStatus::Pass <==> f.healthy == Some(
                true,
            )) && (health->0.status == CheckStatus::Fail <==> f.healthy != Some(true))
            &&& rules is Some <==> tun
            &&& rules is Some ==> (rules->0.status == CheckStatus::Pass <==> (f.tun matches Some(t)
                && t.interface_active && t.firewall_present && has_infix(
                t.policy,
                "blackhole default"@,
            ) && has_infix(t.policy, "unreachable default"@))) && (rules->0.status
                == CheckStatus::Pass || rules->0.status == CheckStatus::Fail)
            &&& rules is Some ==> (rules->0.remediation is Some <==> rules->0.status
                == CheckStatus::Fail)
        }),
{
    lemma_checks();
    let q = doctor::quick_checks(statuses, platform, elevated);
    let d = doctor::deep_checks(f, tun, selected);
    let first = seq![
        doctor::packages_check(f.packages),
        doctor::service_check(f.service_active),
        doctor::layout_check(f.missing_paths),
    ];
    let c1 = doctor::optional_check(
        if doctor::config_is_tested(f.missing_paths) {
            Some(doctor::config_check(f.config_valid == Some(true)))
        } else {
            None
        },
    );
    let c2 = doctor::optional_check(
        if doctor::health_is_tested(f.service_active, selected) {
            Some(doctor::health_check(f.healthy == Some(true)))
        } else {
            None
        },
    );
    let c3 = doctor::optional_check(
        if tun {
            Some(doctor::tun_check(doctor::found_rules(f.tun)))
        } else {
            None
        },
    );
    assert(d == first + c1 + c2 + c3);
    let all = all_checks(statuses, platform, elevated, Some(f), tun, selected);
    assert(all == q + d);
    lemma_seen(q, 4);
    lemma_seen(first, 3);
    lemma_seen(c1, c1.len() as int);
    lemma_seen(c2, c2.len() as int);
    lemma_seen(c3, c3.len() as int);
    reveal_with_fuel(found_upto, 5);
    lemma_found_joined(q, d, "packages"@);
    lemma_found_joined(first + c1 + c2, c3, "packages"@);
    lemma_found_joined(first + c1, c2, "packages"@);
    lemma_found_joined(first, c1, "packages"@);
    lemma_found_joined(q, d, "xray-service"@);
    lemma_found_joined(first + c1 + c2, c3, "xray-service"@);
    lemma_found_joined(first + c1, c2, "xray-service"@);
    lemma_found_joined(first, c1, "xray-service"@);
    lemma_found_joined(q, d, "installed-layout"@);
    lemma_found_joined(first + c1 + c2, c3, "installed-layout"@);
    lemma_found_joined(first + c1, c2, "installed-layout"@);
    lemma_found_joined(first, c1, "installed-layout"@);
    lemma_found_joined(q, d, "xray-config"@);
    lemma_found_joined(first + c1 + c2, c3, "xray-config"@);
    lemma_found_joined(first + c1, c2, "xray-config"@);
    lemma_found_joined(first, c1, "xray-config"@);
    lemma_found_joined(q, d, "proxy-health"@);
    lemma_found_joined(first + c1 + c2, c3, "proxy-health"@);
    lemma_found_joined(first + c1, c2, "proxy-health"@);
    lemma_found_joined(first, c1, "proxy-health"@);
    lemma_found_joined(q, d, "selective-tun"@);
    lemma_found_joined(first + c1 + c2, c3, "selective-tun"@);
    lemma_found_joined(first + c1, c2, "selective-tun"@);
    lemma_found_joined(first, c1, "selective-tun"@);
}

/// The last check of an ID among the first `n`.
spec fn found_upto(checks: Seq<DoctorCheckDtoView>, n: int, id: Seq<char>) -> Option<DoctorCheckDtoView>
    decreases n,
{
    if n <= 0 {
        None
    } else if checks[n - 1].id == id {
        Some(checks[n - 1])
    } else {
        found_upto(checks, n - 1, id)
    }
}

proof fn lemma_seen(checks: Seq<DoctorCheckDtoView>, n: int)
    requires
        0 <= n <= checks.len(),
    ensures
        forall|id: Seq<char>| #[trigger]
            found(checks.take(n), id) == found_upto(checks, n, id),
        n == checks.len() ==> forall|id: Seq<char>| #[trigger]
            found(checks, id) == found_upto(checks, n, id),
    decreases n,
{
    if n > 0 {
        lemma_seen(checks, n - 1);
        assert(checks.take(n).drop_last() =~= checks.take(n - 1));
        assert(checks.take(n).last() == checks[n - 1]);
        assert forall|id: Seq<char>| #[trigger] found(checks.take(n), id) == found_upto(
            checks,
            n,
            id,
        ) by {
            assert(found(checks.take(n - 1), id) == found_upto(checks, n - 1, id));
        }
    }
    assert(checks.take(checks.len() as int) =~= checks);
    if n == checks.len() {
        assert forall|id: Seq<char>| #[trigger] found(checks, id) == found_upto(checks, n, id) by {
            assert(found(checks.take(n), id) == found_upto(checks, n, id));
        }
    }
}

proof fn lemma_found_joined(a: Seq<DoctorCheckDtoView>, b: Seq<DoctorCheckDtoView>, id: Seq<char>)
    ensures
        found(a + b, id) == (match found(b, id) {
            Some(c) => Some(c),
            None => found(a, id),
        }),
    decreases b.len(),
{
    if b.len() == 0 {
        assert(a + b =~= a);
    } else {
        assert((a + b).drop_last() =~= a + b.drop_last());
        lemma_found_joined(a, b.drop_last(), id);
    }
}

/// What an installation consists of, for the doctor: the core, the
/// configuration, the assets and each of their files.
pub proof fn law_installed_paths(
    p: ManagerPathsView,
    executable: Seq<char>,
    assets: Seq<crate::config::AssetConfigView>,
    i: int,
)
    requires
        0 <= i < assets.len(),
    ensures
        ({
            let all = doctor::installed_paths(p, executable, assets);
            &&& all.len() == assets.len() + 3
            &&& all[0] == path_join(
                p.windows,
                path_join(p.windows, p.install_dir, "core/current"@),
                executable,
            )
            &&& all[1] == path_join(p.windows, p.state_dir, "current/conf.d"@)
            &&& all[2] == path_join(p.windows, p.install_dir, "assets/current"@)
            &&& all[i + 3] == path_join(
                p.windows,
                path_join(p.windows, p.install_dir, "assets/current"@),
                assets[i].filename,
            )
        }),
{
}

} // verus!
