//! What an operation would do, and whether the platform can do it.

use crate::config::{ManagerConfig, ManagerConfigView};
use crate::error::{ManagerError, ManagerErrorView};
use crate::operation::{Operation, OperationView};
use crate::ports::{
    BackendSelection, BackendSelectionView, Capability, CapabilityMap, CapabilityStatus,
    CapabilityStatusView, ExecutionPlan, ExecutionPlanView, ManagerPaths, ManagerPathsView,
    PlanAction, PlanActionView, SelectionSource, UpgradeTarget,
};
use crate::config;
use crate::operation;
use crate::ports;
use crate::text;
use vstd::prelude::*;

verus! {

/// What is known of the chosen backends.
#[derive(Debug)]
pub struct Backends {
    pub selections: Vec<BackendSelection>,
    pub capabilities: Vec<CapabilityStatus>,
    pub os: String,
}

/// The mathematical value of a [`Backends`].
#[verifier::ext_equal]
pub struct BackendsView {
    pub selections: Seq<BackendSelectionView>,
    pub capabilities: Seq<CapabilityStatusView>,
    pub os: Seq<char>,
}

impl View for Backends {
    type V = BackendsView;

    open spec fn view(&self) -> BackendsView {
        BackendsView {
            selections: ports::backend_selection_views(self.selections@),
            capabilities: ports::capability_status_views(self.capabilities@),
            os: self.os@,
        }
    }
}

impl Clone for Backends {
    fn clone(&self) -> (r: Self)
        ensures
            r@ == self@,
    {
        Backends {
            selections: ports::copy_backend_selections(&self.selections),
            capabilities: ports::copy_capability_statuses(&self.capabilities),
            os: self.os.clone(),
        }
    }
}

/// The first status of a capability.
pub open spec fn first_status(
    statuses: Seq<CapabilityStatusView>,
    c: Capability,
) -> Option<CapabilityStatusView>
    decreases statuses.len(),
{
    if statuses.len() == 0 {
        None
    } else if statuses[0].capability == c {
        Some(statuses[0])
    } else {
        first_status(statuses.drop_first(), c)
    }
}

fn find_status(statuses: &Vec<CapabilityStatus>, c: Capability) -> (r: Option<&CapabilityStatus>)
    ensures
        match r {
            Some(s) => first_status(ports::capability_status_views(statuses@), c) == Some(s@),
            None => first_status(ports::capability_status_views(statuses@), c) is None,
        },
{
    let ghost all = ports::capability_status_views(statuses@);
    let mut i: usize = 0;
    assert(all.skip(0) =~= all);
    while i < statuses.len()
        invariant
            i <= statuses@.len(),
            all == ports::capability_status_views(statuses@),
            first_status(all, c) == first_status(all.skip(i as int), c),
        decreases statuses@.len() - i,
    {
        assert(all.skip(i as int)[0] == statuses@[i as int]@);
        if statuses[i].capability == c {
            return Some(&statuses[i]);
        }
        assert(all.skip(i as int).drop_first() =~= all.skip(i + 1));
        i += 1;
    }
    None
}

/// The first selection for a capability.
pub open spec fn first_selection(
    selections: Seq<BackendSelectionView>,
    c: Capability,
) -> Option<BackendSelectionView>
    decreases selections.len(),
{
    if selections.len() == 0 {
        None
    } else if selections[0].capability == c {
        Some(selections[0])
    } else {
        first_selection(selections.drop_first(), c)
    }
}

/// Finds the selection for a capability.
pub fn find_selection(selections: &Vec<BackendSelection>, c: Capability) -> (r: Option<
    &BackendSelection,
>)
    ensures
        match r {
            Some(s) => first_selection(ports::backend_selection_views(selections@), c) == Some(s@),
            None => first_selection(ports::backend_selection_views(selections@), c) is None,
        },
{
    let ghost all = ports::backend_selection_views(selections@);
    let mut i: usize = 0;
    assert(all.skip(0) =~= all);
    while i < selections.len()
        invariant
            i <= selections@.len(),
            all == ports::backend_selection_views(selections@),
            first_selection(all, c) == first_selection(all.skip(i as int), c),
        decreases selections@.len() - i,
    {
        assert(all.skip(i as int)[0] == selections@[i as int]@);
        if selections[i].capability == c {
            return Some(&selections[i]);
        }
        assert(all.skip(i as int).drop_first() =~= all.skip(i + 1));
        i += 1;
    }
    None
}

/// Whether a capability can be used.
pub open spec fn is_supported(b: BackendsView, c: Capability) -> bool {
    first_status(b.capabilities, c) matches Some(s) && s.supported
}

/// The error of a capability that cannot be used.
pub open spec fn unsupported_error(b: BackendsView, c: Capability) -> ManagerErrorView {
    let status = first_status(b.capabilities, c);
    ManagerErrorView::PlatformUnsupported {
        capability: c,
        platform: b.os,
        backend: match status {
            Some(s) => s.backend_id,
            None => None,
        },
        reason: match status {
            Some(s) => text::text_or(s.reason, "no compiled backend"@),
            None => "no compiled backend"@,
        },
        recommendation: Some(
            "Choose an available compiled backend with --backend "@ + ports::capability_name(c) + "=<id>"@,
        ),
    }
}

/// Checks that a capability can be used.
pub fn ensure_capability(b: &Backends, c: Capability) -> (r: Result<(), ManagerError>)
    ensures
        match r {
            Ok(_) => is_supported(b@, c),
            Err(e) => !is_supported(b@, c) && e@ == unsupported_error(b@, c),
        },
{
    let (backend, reason) = match find_status(&b.capabilities, c) {
        Some(s) => {
            if s.supported {
                return Ok(());
            }
            let reason = match &s.reason {
                Some(reason) => reason.clone(),
                None => text::owned("no compiled backend"),
            };
            (text::copy_opt(&s.backend_id), reason)
        },
        None => (None, text::owned("no compiled backend")),
    };
    Err(
        ManagerError::PlatformUnsupported {
            capability: c,
            platform: b.os.clone(),
            backend,
            reason,
            recommendation: Some(
                text::concat3("Choose an available compiled backend with --backend ", c.name(), "=<id>"),
            ),
        },
    )
}

/// Whether installing or repairing can bring a capability back: its backend
/// was chosen automatically or saved before, and only lacks requirements.
pub open spec fn can_restore(b: BackendsView, o: OperationView, c: Capability) -> bool {
    &&& o is Install || o is Repair
    &&& c != Capability::Install && c != Capability::PackageAdvice
    &&& first_status(b.capabilities, c) matches Some(s) && !s.supported && s.backend_id is Some && (
    s.reason matches Some(reason) && text::has_prefix(reason, "missing:"@))
    &&& first_selection(b.selections, c) matches Some(s) && (s.source == SelectionSource::Automatic
        || s.source == SelectionSource::InstalledState)
}

/// Whether installing or repairing can bring a capability back.
pub fn bootstrap_can_restore(b: &Backends, operation: &Operation, c: Capability) -> (r: bool)
    ensures
        r == can_restore(b@, operation@, c),
{
    if !matches!(operation, Operation::Install { .. } | Operation::Repair) || c
        == Capability::Install || c == Capability::PackageAdvice {
        return false;
    }
    let lacking = match find_status(&b.capabilities, c) {
        Some(s) => !s.supported && s.backend_id.is_some() && match &s.reason {
            Some(reason) => text::starts_with(reason.as_str(), "missing:"),
            None => false,
        },
        None => false,
    };
    let chosen = match find_selection(&b.selections, c) {
        Some(s) => s.source == SelectionSource::Automatic || s.source
            == SelectionSource::InstalledState,
        None => false,
    };
    lacking && chosen
}

/// The first capability of `needed` that can neither be used nor restored.
pub open spec fn first_lacking(
    b: BackendsView,
    o: OperationView,
    needed: Seq<Capability>,
) -> Option<Capability>
    decreases needed.len(),
{
    if needed.len() == 0 {
        None
    } else {
        let rest = first_lacking(b, o, needed.drop_last());
        if rest is Some {
            rest
        } else if !can_restore(b, o, needed.last()) && !is_supported(b, needed.last()) {
            Some(needed.last())
        } else {
            None
        }
    }
}

proof fn lemma_first_lacking(b: BackendsView, o: OperationView, needed: Seq<Capability>, i: int)
    requires
        0 <= i <= needed.len(),
        first_lacking(b, o, needed.take(i)) is Some,
    ensures
        first_lacking(b, o, needed) == first_lacking(b, o, needed.take(i)),
    decreases needed.len(),
{
    if i == needed.len() {
        assert(needed.take(i) =~= needed);
    } else {
        assert(needed.drop_last().take(i) =~= needed.take(i));
        lemma_first_lacking(b, o, needed.drop_last(), i);
    }
}

/// Why an operation is refused before it is planned.
pub open spec fn refusal(
    b: BackendsView,
    o: OperationView,
    tun_enabled: bool,
    enforce: bool,
) -> Option<ManagerErrorView> {
    if o is TunEnable && !tun_enabled {
        Some(
            ManagerErrorView::InvalidConfig(
                "TUN is disabled in config.toml; set tun.enabled = true and run `xrayctl apply`"@,
            ),
        )
    } else if enforce {
        match first_lacking(b, o, operation::needed_capabilities(o, tun_enabled)) {
            Some(c) => Some(unsupported_error(b, c)),
            None => None,
        }
    } else {
        None
    }
}

/// Checks that the platform can do what an operation needs.
pub fn check_operation(b: &Backends, operation: &Operation, tun_enabled: bool, enforce: bool) -> (r:
    Result<(), ManagerError>)
    ensures
        match r {
            Ok(_) => refusal(b@, operation@, tun_enabled, enforce) is None,
            Err(e) => refusal(b@, operation@, tun_enabled, enforce) == Some(e@),
        },
{
    if matches!(operation, Operation::TunEnable) && !tun_enabled {
        return Err(
            ManagerError::InvalidConfig(
                text::owned(
                    "TUN is disabled in config.toml; set tun.enabled = true and run `xrayctl apply`",
                ),
            ),
        );
    }
    if !enforce {
        return Ok(());
    }
    let needed = operation::required_capabilities(operation, tun_enabled);
    let mut i: usize = 0;
    assert(needed@.take(0).len() == 0);
    while i < needed.len()
        invariant
            i <= needed@.len(),
            enforce,
            needed@ == operation::needed_capabilities(operation@, tun_enabled),
            !(operation@ is TunEnable && !tun_enabled),
            first_lacking(b@, operation@, needed@.take(i as int)) is None,
        decreases needed@.len() - i,
    {
        let c = needed[i];
        proof {
            assert(needed@.take(i + 1).drop_last() =~= needed@.take(i as int));
            assert(needed@.take(i + 1).last() == c);
        }
        if !bootstrap_can_restore(b, operation, c) {
            match ensure_capability(b, c) {
                Ok(_) => {},
                Err(e) => {
                    proof {
                        lemma_first_lacking(b@, operation@, needed@, i + 1);
                    }
                    return Err(e);
                },
            }
        }
        i += 1;
    }
    assert(needed@.take(needed@.len() as int) =~= needed@);
    Ok(())
}

/// An operation that the platform cannot do is never let through, and the
/// error names a capability that it needs and that is missing.
pub proof fn law_missing_capability_is_refused(
    b: BackendsView,
    o: OperationView,
    tun_enabled: bool,
    c: Capability,
)
    requires
        operation::needs_capability(o, tun_enabled, c),
        !is_supported(b, c),
        !can_restore(b, o, c),
        !(o is TunEnable && !tun_enabled),
    ensures
        refusal(b, o, tun_enabled, true) matches Some(e) && e is PlatformUnsupported,
{
    let all = operation::all_capabilities();
    let keep = |x: Capability| operation::needs_capability(o, tun_enabled, x);
    let i = lemma_capability_listed(c);
    all.lemma_filter_contains(keep, i);
    lemma_lacking_found(b, o, operation::needed_capabilities(o, tun_enabled), c);
}

proof fn lemma_capability_listed(c: Capability) -> (i: int)
    ensures
        0 <= i < operation::all_capabilities().len(),
        operation::all_capabilities()[i] == c,
{
    match c {
        Capability::Layout => 0,
        Capability::Install => 1,
        Capability::Identity => 2,
        Capability::Service => 3,
        Capability::Firewall => 4,
        Capability::PolicyRouting => 5,
        Capability::Tun => 6,
        Capability::AppRunner => 7,
        Capability::MountIsolation => 8,
        Capability::DesktopProxy => 9,
        Capability::PackageAdvice => 10,
    }
}

proof fn lemma_lacking_found(b: BackendsView, o: OperationView, needed: Seq<Capability>, c: Capability)
    requires
        needed.contains(c),
        !is_supported(b, c),
        !can_restore(b, o, c),
    ensures
        first_lacking(b, o, needed) is Some,
    decreases needed.len(),
{
    if needed.last() != c {
        let i = needed.index_of(c);
        assert(needed.drop_last()[i] == c);
        lemma_lacking_found(b, o, needed.drop_last(), c);
    }
}

pub open spec fn resource_name_problem(name: Seq<char>) -> Option<Seq<char>> {
    if config::is_resource_name(name) {
        None
    } else {
        Some("resource name may contain only ASCII letters, digits, '-' and '_'"@)
    }
}

/// Checks the name of a subscription or profile.
pub fn validate_resource_name(name: &str) -> (r: Result<(), ManagerError>)
    ensures
        config::checked(r, resource_name_problem(name@)),
{
    if config::resource_name(name) {
        Ok(())
    } else {
        Err(
            ManagerError::InvalidConfig(
                text::owned("resource name may contain only ASCII letters, digits, '-' and '_'"),
            ),
        )
    }
}

/// The backend of a capability, as plans name it.
pub open spec fn backend_name(b: BackendsView, c: Capability) -> Seq<char> {
    match first_selection(b.selections, c) {
        Some(s) => s.backend_id,
        None => "unavailable"@,
    }
}

/// The backend of a capability, as plans name it.
pub fn selected_backend(b: &Backends, c: Capability) -> (r: String)
    ensures
        r@ == backend_name(b@, c),
{
    match find_selection(&b.selections, c) {
        Some(s) => s.backend_id.clone(),
        None => text::owned("unavailable"),
    }
}

/// The backend IDs of the selections, a later selection of a capability winning.
pub open spec fn selected_ids(selections: Seq<BackendSelectionView>) -> Map<Capability, Seq<char>>
    decreases selections.len(),
{
    if selections.len() == 0 {
        Map::empty()
    } else {
        selected_ids(selections.drop_last()).insert(
            selections.last().capability,
            selections.last().backend_id,
        )
    }
}

/// The backend IDs of the selections.
pub fn backend_ids(selections: &Vec<BackendSelection>) -> (r: CapabilityMap)
    ensures
        r@ == selected_ids(ports::backend_selection_views(selections@)),
{
    let ghost all = ports::backend_selection_views(selections@);
    let mut r = CapabilityMap::new();
    let mut i: usize = 0;
    assert(all.take(0).len() == 0);
    while i < selections.len()
        invariant
            i <= selections@.len(),
            all == ports::backend_selection_views(selections@),
            r@ == selected_ids(all.take(i as int)),
        decreases selections@.len() - i,
    {
        proof {
            assert(all.take(i + 1).drop_last() =~= all.take(i as int));
            assert(all.take(i + 1).last() == selections@[i as int]@);
        }
        r.insert(selections[i].capability, selections[i].backend_id.clone());
        i += 1;
    }
    assert(all.take(all.len() as int) =~= all);
    r
}

/// Where the plan of an operation comes from: it is ready, or the platform installer makes it.
pub enum PlanSource {
    Ready(ExecutionPlan),
    Install { user: Option<String> },
    Repair,
    Uninstall { purge: bool },
    Upgrade(UpgradeTarget),
}

/// The mathematical value of a [`PlanSource`].
#[verifier::ext_equal]
pub enum PlanSourceView {
    Ready(ExecutionPlanView),
    Install { user: Option<Seq<char>> },
    Repair,
    Uninstall { purge: bool },
    Upgrade(UpgradeTarget),
}

impl View for PlanSource {
    type V = PlanSourceView;

    open spec fn view(&self) -> PlanSourceView {
        match *self {
            PlanSource::Ready(a) => PlanSourceView::Ready(a@),
            PlanSource::Install { user } => PlanSourceView::Install { user: text::opt_text(user) },
            PlanSource::Repair => PlanSourceView::Repair,
            PlanSource::Uninstall { purge } => PlanSourceView::Uninstall { purge },
            PlanSource::Upgrade(a) => PlanSourceView::Upgrade(a),
        }
    }
}

/// The file of a subscription.
pub open spec fn subscription_file(p: ManagerPathsView, name: Seq<char>) -> Seq<char> {
    ports::path_join(p.windows, ports::path_join(p.windows, p.config_dir, "subscriptions.d"@), name + ".toml"@)
}

/// The file of a subscription.
pub fn subscription_path(paths: &ManagerPaths, name: &str) -> (r: String)
    ensures
        r@ == subscription_file(paths@, name@),
{
    let directory = ports::join_path(paths.windows, paths.config_dir.as_str(), "subscriptions.d");
    ports::join_path(paths.windows, directory.as_str(), text::concat(name, ".toml").as_str())
}

/// The file of an application profile.
pub open spec fn profile_file(p: ManagerPathsView, name: Seq<char>) -> Seq<char> {
    ports::path_join(p.windows, ports::path_join(p.windows, p.config_dir, "apps.d"@), name + ".toml"@)
}

/// The file of an application profile.
pub fn profile_path(paths: &ManagerPaths, name: &str) -> (r: String)
    ensures
        r@ == profile_file(paths@, name@),
{
    let directory = ports::join_path(paths.windows, paths.config_dir.as_str(), "apps.d");
    ports::join_path(paths.windows, directory.as_str(), text::concat(name, ".toml").as_str())
}

/// What an application run starts, as plans name it.
pub open spec fn launched(profile: Option<Seq<char>>, command: Seq<Seq<char>>) -> Seq<char> {
    if command.len() > 0 {
        command[0]
    } else {
        text::text_or(profile, "<profile>"@)
    }
}

/// The actions of an operation that the manager plans by itself, or why it is
/// refused.
pub open spec fn planned_actions(
    o: OperationView,
    c: ManagerConfigView,
    p: ManagerPathsView,
    b: BackendsView,
) -> Result<Seq<PlanActionView>, ManagerErrorView> {
    match o {
        OperationView::ServiceStart => Ok(
            seq![PlanActionView::StartService { name: "xray.service"@ }],
        ),
        OperationView::ServiceStop => Ok(
            seq![PlanActionView::StopService { name: "xray.service"@ }],
        ),
        OperationView::ServiceRestart
        | OperationView::ConfigRollback
        | OperationView::CoreRollback
        | OperationView::AssetRollback => Ok(
            seq![PlanActionView::RestartService { name: "xray.service"@ }],
        ),
        OperationView::TunEnable => Ok(
            seq![
                PlanActionView::ConfigureFirewall {
                    backend: backend_name(b, Capability::Firewall),
                },
                PlanActionView::ConfigureRoute {
                    backend: backend_name(b, Capability::PolicyRouting),
                    table: c.tun.routing_table,
                },
                PlanActionView::StartService { name: "xray-tun-policy.service"@ },
                PlanActionView::RestartService { name: "xray.service"@ },
            ],
        ),
        OperationView::TunDisable | OperationView::TunCleanup => Ok(
            seq![PlanActionView::StopService { name: "xray-tun-policy.service"@ }],
        ),
        OperationView::DesktopProxyEnable { user } => Ok(
            seq![
                PlanActionView::ConfigureDesktopProxy {
                    backend: backend_name(b, Capability::DesktopProxy),
                    user,
                    enabled: true,
                },
            ],
        ),
        OperationView::DesktopProxyDisable { user } => Ok(
            seq![
                PlanActionView::ConfigureDesktopProxy {
                    backend: backend_name(b, Capability::DesktopProxy),
                    user,
                    enabled: false,
                },
            ],
        ),
        OperationView::AppRun { profile, command } => Ok(
            seq![
                PlanActionView::LaunchApplication {
                    executable: launched(profile, command),
                    routed: true,
                },
            ],
        ),
        OperationView::AppTest { profile } => match resource_name_problem(profile) {
            Some(m) => Err(ManagerErrorView::InvalidConfig(m)),
            None => Ok(
                seq![
                    PlanActionView::LaunchApplication {
                        executable: "<route-ip-check:"@ + profile + ">"@,
                        routed: true,
                    },
                ],
            ),
        },
        OperationView::SubscriptionAdd { name, .. }
        | OperationView::SubscriptionEnable { name, .. } => match resource_name_problem(name) {
            Some(m) => Err(ManagerErrorView::InvalidConfig(m)),
            None => Ok(
                seq![
                    PlanActionView::WriteFile {
                        path: subscription_file(p, name),
                        mode: 0o600,
                        description: "subscription configuration (URL redacted)"@,
                    },
                ],
            ),
        },
        OperationView::SubscriptionRemove { name } => match resource_name_problem(name) {
            Some(m) => Err(ManagerErrorView::InvalidConfig(m)),
            None => Ok(
                seq![PlanActionView::RemoveOwnedPath { path: subscription_file(p, name) }],
            ),
        },
        OperationView::AppProfileRemove { name } => match resource_name_problem(name) {
            Some(m) => Err(ManagerErrorView::InvalidConfig(m)),
            None => Ok(seq![PlanActionView::RemoveOwnedPath { path: profile_file(p, name) }]),
        },
        OperationView::AppProfilePut { profile } => match config::profile_problem(profile) {
            Some(m) => Err(ManagerErrorView::InvalidConfig(m)),
            None => Ok(
                seq![
                    PlanActionView::WriteFile {
                        path: profile_file(p, profile.name),
                        mode: 0o640,
                        description: "selective application profile"@,
                    },
                ],
            ),
        },
        OperationView::SubscriptionRefresh { .. } => Ok(
            seq![
                PlanActionView::DownloadArtifact {
                    id: "subscriptions"@,
                    destination: ports::path_join(p.windows, p.state_dir, "nodes.json"@),
                },
                PlanActionView::ApplyConfiguration {
                    description: "reconcile the selected node without exposing credentials"@,
                },
            ],
        ),
        OperationView::Apply
        | OperationView::NodeSelect { .. }
        | OperationView::RoutingApply
        | OperationView::RoutingPreset { .. }
        | OperationView::RoutingSet { .. } => Ok(
            seq![
                PlanActionView::ApplyConfiguration {
                    description: "render and validate an Xray configuration generation"@,
                },
                PlanActionView::RestartService { name: "xray.service"@ },
            ],
        ),
        _ => Ok(Seq::empty()),
    }
}

/// The installer's part in the plan of an operation.
pub open spec fn installer_source(o: OperationView) -> Option<PlanSourceView> {
    match o {
        OperationView::Install { user } => Some(PlanSourceView::Install { user }),
        OperationView::Repair => Some(PlanSourceView::Repair),
        OperationView::Uninstall => Some(PlanSourceView::Uninstall { purge: false }),
        OperationView::Purge => Some(PlanSourceView::Uninstall { purge: true }),
        OperationView::UpgradeAll => Some(PlanSourceView::Upgrade(UpgradeTarget::All)),
        OperationView::UpgradeCore => Some(PlanSourceView::Upgrade(UpgradeTarget::Core)),
        OperationView::UpgradeAssets => Some(PlanSourceView::Upgrade(UpgradeTarget::Assets)),
        OperationView::UpgradeManager => Some(PlanSourceView::Upgrade(UpgradeTarget::Manager)),
        _ => None,
    }
}

/// The plan of an operation, or why it is refused.
pub open spec fn plan_source(
    o: OperationView,
    c: ManagerConfigView,
    p: ManagerPathsView,
    b: BackendsView,
    enforce: bool,
) -> Result<PlanSourceView, ManagerErrorView> {
    match refusal(b, o, c.tun.enabled, enforce) {
        Some(e) => Err(e),
        None => match installer_source(o) {
            Some(s) => Ok(s),
            None => match planned_actions(o, c, p, b) {
                Err(e) => Err(e),
                Ok(actions) => Ok(
                    PlanSourceView::Ready(
                        ExecutionPlanView {
                            operation: operation::operation_name(o),
                            backend_ids: selected_ids(b.selections),
                            actions,
                        },
                    ),
                ),
            },
        },
    }
}

fn one(action: PlanAction) -> (r: Vec<PlanAction>)
    ensures
        ports::plan_action_views(r@) == seq![action@],
{
    let r: Vec<PlanAction> = vec![action];
    assert(ports::plan_action_views(r@) =~= seq![action@]);
    r
}

fn two(a: PlanAction, b: PlanAction) -> (r: Vec<PlanAction>)
    ensures
        ports::plan_action_views(r@) == seq![a@, b@],
{
    let r: Vec<PlanAction> = vec![a, b];
    assert(ports::plan_action_views(r@) =~= seq![a@, b@]);
    r
}

fn plan_actions(
    operation: &Operation,
    config: &ManagerConfig,
    paths: &ManagerPaths,
    b: &Backends,
) -> (r: Result<Vec<PlanAction>, ManagerError>)
    ensures
        match r {
            Ok(v) => planned_actions(operation@, config@, paths@, b@) == Ok::<
                Seq<PlanActionView>,
                ManagerErrorView,
            >(ports::plan_action_views(v@)),
            Err(e) => planned_actions(operation@, config@, paths@, b@) == Err::<
                Seq<PlanActionView>,
                ManagerErrorView,
            >(e@),
        },
{
    match operation {
        Operation::ServiceStart => Ok(one(PlanAction::StartService { name: text::owned("xray.service") })),
        Operation::ServiceStop => Ok(one(PlanAction::StopService { name: text::owned("xray.service") })),
        Operation::ServiceRestart
        | Operation::ConfigRollback
        | Operation::CoreRollback
        | Operation::AssetRollback => Ok(
            one(PlanAction::RestartService { name: text::owned("xray.service") }),
        ),
        Operation::TunEnable => {
            let v: Vec<PlanAction> = vec![
                PlanAction::ConfigureFirewall {
                    backend: selected_backend(b, Capability::Firewall),
                },
                PlanAction::ConfigureRoute {
                    backend: selected_backend(b, Capability::PolicyRouting),
                    table: config.tun.routing_table,
                },
                PlanAction::StartService { name: text::owned("xray-tun-policy.service") },
                PlanAction::RestartService { name: text::owned("xray.service") },
            ];
            assert(ports::plan_action_views(v@) =~= planned_actions(
                operation@,
                config@,
                paths@,
                b@,
            )->Ok_0);
            Ok(v)
        },
        Operation::TunDisable | Operation::TunCleanup => Ok(
            one(PlanAction::StopService { name: text::owned("xray-tun-policy.service") }),
        ),
        Operation::DesktopProxyEnable { user } => Ok(
            one(
                PlanAction::ConfigureDesktopProxy {
                    backend: selected_backend(b, Capability::DesktopProxy),
                    user: user.clone(),
                    enabled: true,
                },
            ),
        ),
        Operation::DesktopProxyDisable { user } => Ok(
            one(
                PlanAction::ConfigureDesktopProxy {
                    backend: selected_backend(b, Capability::DesktopProxy),
                    user: user.clone(),
                    enabled: false,
                },
            ),
        ),
        Operation::AppRun { profile, command } => {
            assert(text::texts(command@).len() == command@.len());
            let executable = if command.len() > 0 {
                command[0].clone()
            } else {
                text::unwrap_text(text::copy_opt(profile), "<profile>")
            };
            Ok(one(PlanAction::LaunchApplication { executable, routed: true }))
        },
        Operation::AppTest { profile } => {
            match validate_resource_name(profile.as_str()) {
                Ok(_) => {},
                Err(e) => return Err(e),
            }
            Ok(
                one(
                    PlanAction::LaunchApplication {
                        executable: text::concat3("<route-ip-check:", profile.as_str(), ">"),
                        routed: true,
                    },
                ),
            )
        },
        Operation::SubscriptionAdd { name, .. } | Operation::SubscriptionEnable { name, .. } => {
            match validate_resource_name(name.as_str()) {
                Ok(_) => {},
                Err(e) => return Err(e),
            }
            Ok(
                one(
                    PlanAction::WriteFile {
                        path: subscription_path(paths, name.as_str()),
                        mode: 0o600,
                        description: text::owned("subscription configuration (URL redacted)"),
                    },
                ),
            )
        },
        Operation::SubscriptionRemove { name } => {
            match validate_resource_name(name.as_str()) {
                Ok(_) => {},
                Err(e) => return Err(e),
            }
            Ok(
                one(
                    PlanAction::RemoveOwnedPath { path: subscription_path(paths, name.as_str()) },
                ),
            )
        },
        Operation::AppProfileRemove { name } => {
            match validate_resource_name(name.as_str()) {
                Ok(_) => {},
                Err(e) => return Err(e),
            }
            Ok(one(PlanAction::RemoveOwnedPath { path: profile_path(paths, name.as_str()) }))
        },
        Operation::AppProfilePut { profile } => {
            match profile.validate() {
                Ok(_) => {},
                Err(e) => return Err(e),
            }
            Ok(
                one(
                    PlanAction::WriteFile {
                        path: profile_path(paths, profile.name.as_str()),
                        mode: 0o640,
                        description: text::owned("selective application profile"),
                    },
                ),
            )
        },
        Operation::SubscriptionRefresh { .. } => Ok(
            two(
                PlanAction::DownloadArtifact {
                    id: text::owned("subscriptions"),
                    destination: ports::join_path(paths.windows, paths.state_dir.as_str(), "nodes.json"),
                },
                PlanAction::ApplyConfiguration {
                    description: text::owned("reconcile the selected node without exposing credentials"),
                },
            ),
        ),
        Operation::Apply
        | Operation::NodeSelect { .. }
        | Operation::RoutingApply
        | Operation::RoutingPreset { .. }
        | Operation::RoutingSet { .. } => Ok(
            two(
                PlanAction::ApplyConfiguration {
                    description: text::owned("render and validate an Xray configuration generation"),
                },
                PlanAction::RestartService { name: text::owned("xray.service") },
            ),
        ),
        _ => {
            let v: Vec<PlanAction> = Vec::new();
            assert(ports::plan_action_views(v@) =~= Seq::<PlanActionView>::empty());
            Ok(v)
        },
    }
}

/// Plans an operation; `enforce` is off where the plan is only to be shown.
pub fn plan_operation(
    operation: &Operation,
    config: &ManagerConfig,
    paths: &ManagerPaths,
    b: &Backends,
    enforce: bool,
) -> (r: Result<PlanSource, ManagerError>)
    ensures
        match r {
            Ok(s) => plan_source(operation@, config@, paths@, b@, enforce) == Ok::<
                PlanSourceView,
                ManagerErrorView,
            >(s@),
            Err(e) => plan_source(operation@, config@, paths@, b@, enforce) == Err::<
                PlanSourceView,
                ManagerErrorView,
            >(e@),
        },
{
    match check_operation(b, operation, config.tun.enabled, enforce) {
        Ok(_) => {},
        Err(e) => return Err(e),
    }
    match operation {
        Operation::Install { user } => return Ok(PlanSource::Install { user: text::copy_opt(user) }),
        Operation::Repair => return Ok(PlanSource::Repair),
        Operation::Uninstall => return Ok(PlanSource::Uninstall { purge: false }),
        Operation::Purge => return Ok(PlanSource::Uninstall { purge: true }),
        Operation::UpgradeAll => return Ok(PlanSource::Upgrade(UpgradeTarget::All)),
        Operation::UpgradeCore => return Ok(PlanSource::Upgrade(UpgradeTarget::Core)),
        Operation::UpgradeAssets => return Ok(PlanSource::Upgrade(UpgradeTarget::Assets)),
        Operation::UpgradeManager => return Ok(PlanSource::Upgrade(UpgradeTarget::Manager)),
        _ => {},
    }
    match plan_actions(operation, config, paths, b) {
        Ok(actions) => Ok(
            PlanSource::Ready(
                ExecutionPlan {
                    operation: text::owned(operation.name()),
                    backend_ids: backend_ids(&b.selections),
                    actions,
                },
            ),
        ),
        Err(e) => Err(e),
    }
}

/// Whether a missing command keeps the manager from being installed: the
/// namespace tools never do, and the network tools only where TUN is enabled.
pub open spec fn blocks_install(requirement: Seq<char>, tun_enabled: bool) -> bool {
    requirement != "mount"@ && requirement != "unshare"@ && (tun_enabled || (requirement != "ip"@
        && requirement != "nft"@))
}

/// The missing commands that keep the manager from being installed.
pub fn blocking_requirements(missing: &Vec<String>, tun_enabled: bool) -> (r: Vec<String>)
    ensures
        text::texts(r@) == text::texts(missing@).filter(|s: Seq<char>| blocks_install(s, tun_enabled)),
{
    let ghost keep = |s: Seq<char>| blocks_install(s, tun_enabled);
    let ghost all = text::texts(missing@);
    let mut r: Vec<String> = Vec::new();
    let mut i: usize = 0;
    proof {
        reveal(Seq::filter);
        text::lemma_texts_empty(r@);
        assert(all.take(0).filter(keep) =~= Seq::<Seq<char>>::empty());
    }
    while i < missing.len()
        invariant
            i <= missing@.len(),
            all == text::texts(missing@),
            keep == (|s: Seq<char>| blocks_install(s, tun_enabled)),
            text::texts(r@) == all.take(i as int).filter(keep),
        decreases missing@.len() - i,
    {
        proof {
            reveal(Seq::filter);
            assert(all.take(i + 1).drop_last() =~= all.take(i as int));
            assert(all.take(i + 1).last() == missing@[i as int]@);
        }
        let s = missing[i].as_str();
        let blocks = !text::same(s, "mount") && !text::same(s, "unshare") && (tun_enabled || (!text::same(s, "ip")
            && !text::same(s, "nft")));
        assert(blocks == keep(missing@[i as int]@));
        if blocks {
            let item = missing[i].clone();
            proof {
                text::lemma_texts_push(r@, item);
            }
            r.push(item);
        }
        i += 1;
    }
    assert(all.take(all.len() as int) =~= all);
    r
}

/// The actions with the packages to install first, where there are any.
pub open spec fn with_packages(
    actions: Seq<PlanActionView>,
    packages: Seq<Seq<char>>,
) -> Seq<PlanActionView> {
    if packages.len() == 0 {
        actions
    } else {
        seq![PlanActionView::RequirePackages { packages }] + actions
    }
}

/// An install plan with the packages to install first and the user to admit last.
pub open spec fn completed_plan(
    plan: ExecutionPlanView,
    packages: Seq<Seq<char>>,
    user: Option<Seq<char>>,
) -> Result<ExecutionPlanView, ManagerErrorView> {
    let actions = with_packages(plan.actions, packages);
    match user {
        None => Ok(ExecutionPlanView { actions, ..plan }),
        Some(u) => match resource_name_problem(u) {
            Some(m) => Err(ManagerErrorView::InvalidConfig(m)),
            None => Ok(
                ExecutionPlanView {
                    actions: actions.push(
                        PlanActionView::AddIdentityToGroup {
                            identity: u,
                            group: "xray-manager"@,
                        },
                    ),
                    ..plan
                },
            ),
        },
    }
}

/// Completes the install plan of the platform.
pub fn complete_install_plan(plan: ExecutionPlan, packages: Vec<String>, user: Option<String>) -> (r:
    Result<ExecutionPlan, ManagerError>)
    ensures
        match r {
            Ok(p) => completed_plan(plan@, text::texts(packages@), text::opt_text(user)) == Ok::<
                ExecutionPlanView,
                ManagerErrorView,
            >(p@),
            Err(e) => completed_plan(plan@, text::texts(packages@), text::opt_text(user)) == Err::<
                ExecutionPlanView,
                ManagerErrorView,
            >(e@),
        },
{
    let mut plan = plan;
    let ghost before = plan.actions@;
    assert(text::texts(packages@).len() == packages@.len());
    if packages.len() > 0 {
        let action = PlanAction::RequirePackages { packages };
        plan.actions.insert(0, action);
        assert(ports::plan_action_views(plan.actions@) =~= seq![action@] + ports::plan_action_views(before));
    }
    match user {
        Some(user) => {
            match validate_resource_name(user.as_str()) {
                Ok(_) => {},
                Err(e) => return Err(e),
            }
            let action = PlanAction::AddIdentityToGroup {
                identity: user,
                group: text::owned("xray-manager"),
            };
            proof {
                ports::lemma_plan_action_views_push(plan.actions@, action);
            }
            plan.actions.push(action);
        },
        None => {},
    }
    Ok(plan)
}

} // verus!
