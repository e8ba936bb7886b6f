//! What the manager can be asked to do and to show.

use crate::config::{AppProfile, AppProfileView};
use crate::ports::Capability;
use crate::routing::{RoutingConfig, RoutingConfigView};
use crate::text;
use vstd::prelude::*;

verus! {

/// A question that changes nothing.
#[derive(Debug)]
pub enum Query {
    Status,
    Doctor { quick: bool },
    Nodes,
    CurrentNode,
    Routing,
    Assets,
    Core,
    ServiceLogs { lines: usize },
    ServiceStatus,
    ProxyShow,
    ProxyEnv,
    TunStatus,
    Subscriptions,
    RoutingValidate,
    RoutingPresets,
    NodeProbe { id: String },
    NodeProbeAll,
    RoutingExplain { name: Option<String> },
    AssetShow { id: String },
    CoreList,
    ProxyTest,
    TunShowRules,
    TunTest,
    AppList,
    MenuSettings,
}

/// The mathematical value of a [`Query`].
#[verifier::ext_equal]
pub enum QueryView {
    Status,
    Doctor { quick: bool },
    Nodes,
    CurrentNode,
    Routing,
    Assets,
    Core,
    ServiceLogs { lines: usize },
    ServiceStatus,
    ProxyShow,
    ProxyEnv,
    TunStatus,
    Subscriptions,
    RoutingValidate,
    RoutingPresets,
    NodeProbe { id: Seq<char> },
    NodeProbeAll,
    RoutingExplain { name: Option<Seq<char>> },
    AssetShow { id: Seq<char> },
    CoreList,
    ProxyTest,
    TunShowRules,
    TunTest,
    AppList,
    MenuSettings,
}

impl View for Query {
    type V = QueryView;

    open spec fn view(&self) -> QueryView {
        match *self {
            Query::Status => QueryView::Status,
            Query::Doctor { quick } => QueryView::Doctor { quick },
            Query::Nodes => QueryView::Nodes,
            Query::CurrentNode => QueryView::CurrentNode,
            Query::Routing => QueryView::Routing,
            Query::Assets => QueryView::Assets,
            Query::Core => QueryView::Core,
            Query::ServiceLogs { lines } => QueryView::ServiceLogs { lines },
            Query::ServiceStatus => QueryView::ServiceStatus,
            Query::ProxyShow => QueryView::ProxyShow,
            Query::ProxyEnv => QueryView::ProxyEnv,
            Query::TunStatus => QueryView::TunStatus,
            Query::Subscriptions => QueryView::Subscriptions,
            Query::RoutingValidate => QueryView::RoutingValidate,
            Query::RoutingPresets => QueryView::RoutingPresets,
            Query::NodeProbe { id } => QueryView::NodeProbe { id: id@ },
            Query::NodeProbeAll => QueryView::NodeProbeAll,
            Query::RoutingExplain { name } => QueryView::RoutingExplain { name: text::opt_text(name) },
            Query::AssetShow { id } => QueryView::AssetShow { id: id@ },
            Query::CoreList => QueryView::CoreList,
            Query::ProxyTest => QueryView::ProxyTest,
            Query::TunShowRules => QueryView::TunShowRules,
            Query::TunTest => QueryView::TunTest,
            Query::AppList => QueryView::AppList,
            Query::MenuSettings => QueryView::MenuSettings,
        }
    }
}

impl Clone for Query {
    fn clone(&self) -> (r: Self)
        ensures
            r@ == self@,
    {
        match self {
            Query::Status => Query::Status,
            Query::Doctor { quick } => Query::Doctor { quick: *quick },
            Query::Nodes => Query::Nodes,
            Query::CurrentNode => Query::CurrentNode,
            Query::Routing => Query::Routing,
            Query::Assets => Query::Assets,
            Query::Core => Query::Core,
            Query::ServiceLogs { lines } => Query::ServiceLogs { lines: *lines },
            Query::ServiceStatus => Query::ServiceStatus,
            Query::ProxyShow => Query::ProxyShow,
            Query::ProxyEnv => Query::ProxyEnv,
            Query::TunStatus => Query::TunStatus,
            Query::Subscriptions => Query::Subscriptions,
            Query::RoutingValidate => Query::RoutingValidate,
            Query::RoutingPresets => Query::RoutingPresets,
            Query::NodeProbe { id } => Query::NodeProbe { id: id.clone() },
            Query::NodeProbeAll => Query::NodeProbeAll,
            Query::RoutingExplain { name } => Query::RoutingExplain { name: text::copy_opt(name) },
            Query::AssetShow { id } => Query::AssetShow { id: id.clone() },
            Query::CoreList => Query::CoreList,
            Query::ProxyTest => Query::ProxyTest,
            Query::TunShowRules => Query::TunShowRules,
            Query::TunTest => Query::TunTest,
            Query::AppList => Query::AppList,
            Query::MenuSettings => Query::MenuSettings,
        }
    }
}

pub open spec fn opt_query(o: Option<Query>) -> Option<QueryView> {
    match o {
        Some(x) => Some(x@),
        None => None,
    }
}

/// A change to the installation. It may hold a subscription URL, so it has no debug form.
pub enum Operation {
    Install { user: Option<String> },
    Repair,
    Uninstall,
    Purge,
    Apply,
    UpgradeAll,
    UpgradeCore,
    UpgradeAssets,
    UpgradeManager,
    SubscriptionRefresh { name: Option<String> },
    NodeSelect { id: String },
    RoutingApply,
    ServiceStart,
    ServiceStop,
    ServiceRestart,
    TunEnable,
    TunDisable,
    TunCleanup,
    DesktopProxyEnable { user: String },
    DesktopProxyDisable { user: String },
    AppRun { profile: Option<String>, command: Vec<String> },
    AppTest { profile: String },
    AppProfileRemove { name: String },
    AppProfilePut { profile: AppProfile },
    SubscriptionAdd { name: String, url: String },
    SubscriptionRemove { name: String },
    SubscriptionEnable { name: String, enabled: bool },
    ConfigRollback,
    CoreRollback,
    AssetRollback,
    RoutingPreset { name: String },
    RoutingSet { routing: RoutingConfig },
}

/// The mathematical value of a [`Operation`].
#[verifier::ext_equal]
pub enum OperationView {
    Install { user: Option<Seq<char>> },
    Repair,
    Uninstall,
    Purge,
    Apply,
    UpgradeAll,
    UpgradeCore,
    UpgradeAssets,
    UpgradeManager,
    SubscriptionRefresh { name: Option<Seq<char>> },
    NodeSelect { id: Seq<char> },
    RoutingApply,
    ServiceStart,
    ServiceStop,
    ServiceRestart,
    TunEnable,
    TunDisable,
    TunCleanup,
    DesktopProxyEnable { user: Seq<char> },
    DesktopProxyDisable { user: Seq<char> },
    AppRun { profile: Option<Seq<char>>, command: Seq<Seq<char>> },
    AppTest { profile: Seq<char> },
    AppProfileRemove { name: Seq<char> },
    AppProfilePut { profile: AppProfileView },
    SubscriptionAdd { name: Seq<char>, url: Seq<char> },
    SubscriptionRemove { name: Seq<char> },
    SubscriptionEnable { name: Seq<char>, enabled: bool },
    ConfigRollback,
    CoreRollback,
    AssetRollback,
    RoutingPreset { name: Seq<char> },
    RoutingSet { routing: RoutingConfigView },
}

impl View for Operation {
    type V = OperationView;

    open spec fn view(&self) -> OperationView {
        match *self {
            Operation::Install { user } => OperationView::Install { user: text::opt_text(user) },
            Operation::Repair => OperationView::Repair,
            Operation::Uninstall => OperationView::Uninstall,
            Operation::Purge => OperationView::Purge,
            Operation::Apply => OperationView::Apply,
            Operation::UpgradeAll => OperationView::UpgradeAll,
            Operation::UpgradeCore => OperationView::UpgradeCore,
            Operation::UpgradeAssets => OperationView::UpgradeAssets,
            Operation::UpgradeManager => OperationView::UpgradeManager,
            Operation::SubscriptionRefresh { name } => OperationView::SubscriptionRefresh { name: text::opt_text(name) },
            Operation::NodeSelect { id } => OperationView::NodeSelect { id: id@ },
            Operation::RoutingApply => OperationView::RoutingApply,
            Operation::ServiceStart => OperationView::ServiceStart,
            Operation::ServiceStop => OperationView::ServiceStop,
            Operation::ServiceRestart => OperationView::ServiceRestart,
            Operation::TunEnable => OperationView::TunEnable,
            Operation::TunDisable => OperationView::TunDisable,
            Operation::TunCleanup => OperationView::TunCleanup,
            Operation::DesktopProxyEnable { user } => OperationView::DesktopProxyEnable { user: user@ },
            Operation::DesktopProxyDisable { user } => OperationView::DesktopProxyDisable { user: user@ },
            Operation::AppRun { profile, command } => OperationView::AppRun { profile: text::opt_text(profile), command: text::texts(command@) },
            Operation::AppTest { profile } => OperationView::AppTest { profile: profile@ },
            Operation::AppProfileRemove { name } => OperationView::AppProfileRemove { name: name@ },
            Operation::AppProfilePut { profile } => OperationView::AppProfilePut { profile: profile@ },
            Operation::SubscriptionAdd { name, url } => OperationView::SubscriptionAdd { name: name@, url: url@ },
            Operation::SubscriptionRemove { name } => OperationView::SubscriptionRemove { name: name@ },
            Operation::SubscriptionEnable { name, enabled } => OperationView::SubscriptionEnable { name: name@, enabled },
            Operation::ConfigRollback => OperationView::ConfigRollback,
            Operation::CoreRollback => OperationView::CoreRollback,
            Operation::AssetRollback => OperationView::AssetRollback,
            Operation::RoutingPreset { name } => OperationView::RoutingPreset { name: name@ },
            Operation::RoutingSet { routing } => OperationView::RoutingSet { routing: routing@ },
        }
    }
}

impl Clone for Operation {
    fn clone(&self) -> (r: Self)
        ensures
            r@ == self@,
    {
        match self {
            Operation::Install { user } => Operation::Install { user: text::copy_opt(user) },
            Operation::Repair => Operation::Repair,
            Operation::Uninstall => Operation::Uninstall,
            Operation::Purge => Operation::Purge,
            Operation::Apply => Operation::Apply,
            Operation::UpgradeAll => Operation::UpgradeAll,
            Operation::UpgradeCore => Operation::UpgradeCore,
            Operation::UpgradeAssets => Operation::UpgradeAssets,
            Operation::UpgradeManager => Operation::UpgradeManager,
            Operation::SubscriptionRefresh { name } => Operation::SubscriptionRefresh { name: text::copy_opt(name) },
            Operation::NodeSelect { id } => Operation::NodeSelect { id: id.clone() },
            Operation::RoutingApply => Operation::RoutingApply,
            Operation::ServiceStart => Operation::ServiceStart,
            Operation::ServiceStop => Operation::ServiceStop,
            Operation::ServiceRestart => Operation::ServiceRestart,
            Operation::TunEnable => Operation::TunEnable,
            Operation::TunDisable => Operation::TunDisable,
            Operation::TunCleanup => Operation::TunCleanup,
            Operation::DesktopProxyEnable { user } => Operation::DesktopProxyEnable { user: user.clone() },
            Operation::DesktopProxyDisable { user } => Operation::DesktopProxyDisable { user: user.clone() },
            Operation::AppRun { profile, command } => Operation::AppRun { profile: text::copy_opt(profile), command: text::copy_texts(command) },
            Operation::AppTest { profile } => Operation::AppTest { profile: profile.clone() },
            Operation::AppProfileRemove { name } => Operation::AppProfileRemove { name: name.clone() },
            Operation::AppProfilePut { profile } => Operation::AppProfilePut { profile: profile.clone() },
            Operation::SubscriptionAdd { name, url } => Operation::SubscriptionAdd { name: name.clone(), url: url.clone() },
            Operation::SubscriptionRemove { name } => Operation::SubscriptionRemove { name: name.clone() },
            Operation::SubscriptionEnable { name, enabled } => Operation::SubscriptionEnable { name: name.clone(), enabled: *enabled },
            Operation::ConfigRollback => Operation::ConfigRollback,
            Operation::CoreRollback => Operation::CoreRollback,
            Operation::AssetRollback => Operation::AssetRollback,
            Operation::RoutingPreset { name } => Operation::RoutingPreset { name: name.clone() },
            Operation::RoutingSet { routing } => Operation::RoutingSet { routing: routing.clone() },
        }
    }
}

/// How an operation is carried out.
#[derive(Debug, Clone, Copy, PartialEq, Eq, Structural)]
pub struct OperationOptions {
    pub dry_run: bool,
    pub assume_yes: bool,
}

impl Default for OperationOptions {
    fn default() -> (r: Self)
        ensures
            r == (OperationOptions { dry_run: false, assume_yes: false }),
    {
        OperationOptions { dry_run: false, assume_yes: false }
    }
}

/// The name of an operation.
pub open spec fn operation_name(o: OperationView) -> Seq<char> {
    match o {
        OperationView::Install { .. } => "install"@,
        OperationView::Repair => "repair"@,
        OperationView::Uninstall => "uninstall"@,
        OperationView::Purge => "purge"@,
        OperationView::Apply => "apply"@,
        OperationView::UpgradeAll => "upgrade_all"@,
        OperationView::UpgradeCore => "upgrade_core"@,
        OperationView::UpgradeAssets => "upgrade_assets"@,
        OperationView::UpgradeManager => "upgrade_manager"@,
        OperationView::SubscriptionRefresh { .. } => "subscription_refresh"@,
        OperationView::NodeSelect { .. } => "node_select"@,
        OperationView::RoutingApply => "routing_apply"@,
        OperationView::ServiceStart => "service_start"@,
        OperationView::ServiceStop => "service_stop"@,
        OperationView::ServiceRestart => "service_restart"@,
        OperationView::TunEnable => "tun_enable"@,
        OperationView::TunDisable => "tun_disable"@,
        OperationView::TunCleanup => "tun_cleanup"@,
        OperationView::DesktopProxyEnable { .. } => "desktop_proxy_enable"@,
        OperationView::DesktopProxyDisable { .. } => "desktop_proxy_disable"@,
        OperationView::AppRun { .. } => "app_run"@,
        OperationView::AppTest { .. } => "app_test"@,
        OperationView::AppProfileRemove { .. } => "app_profile_remove"@,
        OperationView::AppProfilePut { .. } => "app_profile_put"@,
        OperationView::SubscriptionAdd { .. } => "subscription_add"@,
        OperationView::SubscriptionRemove { .. } => "subscription_remove"@,
        OperationView::SubscriptionEnable { enabled, .. } => if enabled {
            "subscription_enable"@
        } else {
            "subscription_disable"@
        },
        OperationView::ConfigRollback => "config_rollback"@,
        OperationView::CoreRollback => "core_rollback"@,
        OperationView::AssetRollback => "asset_rollback"@,
        OperationView::RoutingPreset { .. } => "routing_preset"@,
        OperationView::RoutingSet { .. } => "routing_set"@,
    }
}

impl Operation {
    /// The name of the operation.
    pub fn name(&self) -> (r: &'static str)
        ensures
            r@ == operation_name(self@),
    {
        match self {
            Operation::Install { .. } => "install",
            Operation::Repair => "repair",
            Operation::Uninstall => "uninstall",
            Operation::Purge => "purge",
            Operation::Apply => "apply",
            Operation::UpgradeAll => "upgrade_all",
            Operation::UpgradeCore => "upgrade_core",
            Operation::UpgradeAssets => "upgrade_assets",
            Operation::UpgradeManager => "upgrade_manager",
            Operation::SubscriptionRefresh { .. } => "subscription_refresh",
            Operation::NodeSelect { .. } => "node_select",
            Operation::RoutingApply => "routing_apply",
            Operation::ServiceStart => "service_start",
            Operation::ServiceStop => "service_stop",
            Operation::ServiceRestart => "service_restart",
            Operation::TunEnable => "tun_enable",
            Operation::TunDisable => "tun_disable",
            Operation::TunCleanup => "tun_cleanup",
            Operation::DesktopProxyEnable { .. } => "desktop_proxy_enable",
            Operation::DesktopProxyDisable { .. } => "desktop_proxy_disable",
            Operation::AppRun { .. } => "app_run",
            Operation::AppTest { .. } => "app_test",
            Operation::AppProfileRemove { .. } => "app_profile_remove",
            Operation::AppProfilePut { .. } => "app_profile_put",
            Operation::SubscriptionAdd { .. } => "subscription_add",
            Operation::SubscriptionRemove { .. } => "subscription_remove",
            Operation::SubscriptionEnable { enabled, .. } => if *enabled {
                "subscription_enable"
            } else {
                "subscription_disable"
            },
            Operation::ConfigRollback => "config_rollback",
            Operation::CoreRollback => "core_rollback",
            Operation::AssetRollback => "asset_rollback",
            Operation::RoutingPreset { .. } => "routing_preset",
            Operation::RoutingSet { .. } => "routing_set",
        }
    }
}

/// The capabilities in their order.
pub open spec fn all_capabilities() -> Seq<Capability> {
    seq![
        Capability::Layout,
        Capability::Install,
        Capability::Identity,
        Capability::Service,
        Capability::Firewall,
        Capability::PolicyRouting,
        Capability::Tun,
        Capability::AppRunner,
        Capability::MountIsolation,
        Capability::DesktopProxy,
        Capability::PackageAdvice,
    ]
}

/// The capabilities in their order.
pub fn capabilities() -> (r: Vec<Capability>)
    ensures
        r@ == all_capabilities(),
{
    let r: Vec<Capability> = vec![
        Capability::Layout,
        Capability::Install,
        Capability::Identity,
        Capability::Service,
        Capability::Firewall,
        Capability::PolicyRouting,
        Capability::Tun,
        Capability::AppRunner,
        Capability::MountIsolation,
        Capability::DesktopProxy,
        Capability::PackageAdvice,
    ];
    assert(r@ =~= all_capabilities());
    r
}

/// The operations that activate a configuration.
pub open spec fn activates_config(o: OperationView) -> bool {
    o is Apply || o is NodeSelect || o is RoutingApply || o is RoutingPreset || o is RoutingSet || o
        is ConfigRollback
}

pub open spec fn is_tun_capability(c: Capability) -> bool {
    c == Capability::Firewall || c == Capability::PolicyRouting || c == Capability::Tun
}

/// Whether an operation needs a capability by itself.
pub open spec fn needs_by_itself(o: OperationView, c: Capability) -> bool {
    match o {
        OperationView::Install { .. } | OperationView::Repair => c == Capability::Install || c
            == Capability::PackageAdvice || c == Capability::Identity || c == Capability::Service
            || is_tun_capability(c),
        OperationView::Uninstall | OperationView::Purge => false,
        OperationView::UpgradeAll | OperationView::UpgradeCore | OperationView::UpgradeAssets => c
            == Capability::Install || c == Capability::Service,
        OperationView::UpgradeManager => c == Capability::Install,
        OperationView::Apply
        | OperationView::NodeSelect { .. }
        | OperationView::RoutingApply
        | OperationView::RoutingPreset { .. }
        | OperationView::RoutingSet { .. }
        | OperationView::ConfigRollback
        | OperationView::CoreRollback
        | OperationView::AssetRollback => c == Capability::Install || c == Capability::Identity || c
            == Capability::Service,
        OperationView::ServiceStart | OperationView::ServiceStop | OperationView::ServiceRestart => c
            == Capability::Service,
        OperationView::TunEnable | OperationView::TunDisable | OperationView::TunCleanup => c
            == Capability::Service || is_tun_capability(c),
        OperationView::DesktopProxyEnable { .. } | OperationView::DesktopProxyDisable { .. } => c
            == Capability::DesktopProxy,
        OperationView::AppRun { .. } | OperationView::AppTest { .. } => c == Capability::AppRunner
            || c == Capability::MountIsolation,
        OperationView::SubscriptionRefresh { .. }
        | OperationView::SubscriptionAdd { .. }
        | OperationView::SubscriptionRemove { .. }
        | OperationView::SubscriptionEnable { .. }
        | OperationView::AppProfileRemove { .. }
        | OperationView::AppProfilePut { .. } => false,
    }
}

/// Whether an operation needs a capability, given whether TUN is enabled: an
/// activated configuration starts an enabled TUN, and an installation without
/// TUN does without its facilities.
pub open spec fn needs_capability(o: OperationView, tun_enabled: bool, c: Capability) -> bool {
    if tun_enabled {
        needs_by_itself(o, c) || (activates_config(o) && is_tun_capability(c))
    } else {
        needs_by_itself(o, c) && !((o is Install || o is Repair) && is_tun_capability(c))
    }
}

fn tun_capability(c: Capability) -> (r: bool)
    ensures
        r == is_tun_capability(c),
{
    c == Capability::Firewall || c == Capability::PolicyRouting || c == Capability::Tun
}

fn itself_needs(o: &Operation, c: Capability) -> (r: bool)
    ensures
        r == needs_by_itself(o@, c),
{
    match o {
        Operation::Install { .. } | Operation::Repair => c == Capability::Install || c
            == Capability::PackageAdvice || c == Capability::Identity || c == Capability::Service
            || tun_capability(c),
        Operation::Uninstall | Operation::Purge => false,
        Operation::UpgradeAll | Operation::UpgradeCore | Operation::UpgradeAssets => c
            == Capability::Install || c == Capability::Service,
        Operation::UpgradeManager => c == Capability::Install,
        Operation::Apply
        | Operation::NodeSelect { .. }
        | Operation::RoutingApply
        | Operation::RoutingPreset { .. }
        | Operation::RoutingSet { .. }
        | Operation::ConfigRollback
        | Operation::CoreRollback
        | Operation::AssetRollback => c == Capability::Install || c == Capability::Identity || c
            == Capability::Service,
        Operation::ServiceStart | Operation::ServiceStop | Operation::ServiceRestart => c
            == Capability::Service,
        Operation::TunEnable | Operation::TunDisable | Operation::TunCleanup => c
            == Capability::Service || tun_capability(c),
        Operation::DesktopProxyEnable { .. } | Operation::DesktopProxyDisable { .. } => c
            == Capability::DesktopProxy,
        Operation::AppRun { .. } | Operation::AppTest { .. } => c == Capability::AppRunner || c
            == Capability::MountIsolation,
        Operation::SubscriptionRefresh { .. }
        | Operation::SubscriptionAdd { .. }
        | Operation::SubscriptionRemove { .. }
        | Operation::SubscriptionEnable { .. }
        | Operation::AppProfileRemove { .. }
        | Operation::AppProfilePut { .. } => false,
    }
}

/// The capabilities that an operation needs, in their order.
pub open spec fn needed_capabilities(o: OperationView, tun_enabled: bool) -> Seq<Capability> {
    all_capabilities().filter(|c: Capability| needs_capability(o, tun_enabled, c))
}

/// The capabilities that an operation needs, in their order and each once.
pub fn required_capabilities(operation: &Operation, tun_enabled: bool) -> (r: Vec<Capability>)
    ensures
        r@ == needed_capabilities(operation@, tun_enabled),
{
    let all = capabilities();
    let ghost keep = |c: Capability| needs_capability(operation@, tun_enabled, c);
    let activates = matches!(
        operation,
        Operation::Apply
            | Operation::NodeSelect { .. }
            | Operation::RoutingApply
            | Operation::RoutingPreset { .. }
            | Operation::RoutingSet { .. }
            | Operation::ConfigRollback
    );
    let installs = matches!(operation, Operation::Install { .. } | Operation::Repair);
    let mut r: Vec<Capability> = Vec::new();
    let mut i: usize = 0;
    assert(all@.take(0).filter(keep) =~= Seq::<Capability>::empty()) by {
        reveal(Seq::filter);
    }
    while i < all.len()
        invariant
            i <= all@.len(),
            keep == (|c: Capability| needs_capability(operation@, tun_enabled, c)),
            activates == activates_config(operation@),
            installs == (operation@ is Install || operation@ is Repair),
            r@ == all@.take(i as int).filter(keep),
        decreases all@.len() - i,
    {
        let c = all[i];
        proof {
            reveal(Seq::filter);
            assert(all@.take(i + 1).drop_last() =~= all@.take(i as int));
            assert(all@.take(i + 1).last() == c);
        }
        let needed = if tun_enabled {
            itself_needs(operation, c) || (activates && tun_capability(c))
        } else {
            itself_needs(operation, c) && !(installs && tun_capability(c))
        };
        assert(needed == keep(c));
        if needed {
            r.push(c);
        }
        i += 1;
    }
    assert(all@.take(all@.len() as int) =~= all@);
    r
}

/// The operations that work on the user's own files and need no administrator.
pub open spec fn is_unprivileged(o: OperationView) -> bool {
    o is SubscriptionRefresh || o is SubscriptionAdd || o is SubscriptionRemove || o
        is SubscriptionEnable || o is AppProfileRemove || o is AppProfilePut
}

/// Whether an operation needs an administrator.
pub fn operation_requires_administrator(operation: &Operation) -> (r: bool)
    ensures
        r == !is_unprivileged(operation@),
{
    !matches!(
        operation,
        Operation::SubscriptionRefresh { .. }
            | Operation::SubscriptionAdd { .. }
            | Operation::SubscriptionRemove { .. }
            | Operation::SubscriptionEnable { .. }
            | Operation::AppProfileRemove { .. }
            | Operation::AppProfilePut { .. }
    )
}

} // verus!
