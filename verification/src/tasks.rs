//! What performing an operation comes to.

use crate::activation::{Component, ServiceVerb};
use crate::config::{AppProfile, AppProfileView, SubscriptionConfig, SubscriptionConfigView};
use crate::error::{ManagerError, ManagerErrorView};
use crate::operation::{Operation, OperationView};
use crate::routing::{RoutingConfig, RoutingConfigView};
use crate::planning;
use crate::routing;
use crate::text;
use vstd::prelude::*;

verus! {

/// What is done for an operation once it is allowed. Like an operation, it may
/// hold a subscription URL, so it has no debug form.
pub enum Task {
    ApplyPlan,
    Service(ServiceVerb),
    PutSubscription(SubscriptionConfig),
    DropSubscription { name: String },
    SetSubscription { name: String, enabled: bool },
    Refresh { name: Option<String> },
    SelectNode { id: String },
    Activate,
    PutRouting(RoutingConfig),
    Rollback(Component),
    EnableTun,
    DisableTun,
    DesktopProxy { user: String, enable: bool },
    RunApp { profile: Option<String>, command: Vec<String> },
    TestApp { profile: String },
    DropProfile { name: String },
    PutProfile(AppProfile),
}

/// The mathematical value of a [`Task`].
#[verifier::ext_equal]
pub enum TaskView {
    ApplyPlan,
    Service(ServiceVerb),
    PutSubscription(SubscriptionConfigView),
    DropSubscription { name: Seq<char> },
    SetSubscription { name: Seq<char>, enabled: bool },
    Refresh { name: Option<Seq<char>> },
    SelectNode { id: Seq<char> },
    Activate,
    PutRouting(RoutingConfigView),
    Rollback(Component),
    EnableTun,
    DisableTun,
    DesktopProxy { user: Seq<char>, enable: bool },
    RunApp { profile: Option<Seq<char>>, command: Seq<Seq<char>> },
    TestApp { profile: Seq<char> },
    DropProfile { name: Seq<char> },
    PutProfile(AppProfileView),
}

impl View for Task {
    type V = TaskView;

    open spec fn view(&self) -> TaskView {
        match *self {
            Task::ApplyPlan => TaskView::ApplyPlan,
            Task::Service(a) => TaskView::Service(a),
            Task::PutSubscription(a) => TaskView::PutSubscription(a@),
            Task::DropSubscription { name } => TaskView::DropSubscription { name: name@ },
            Task::SetSubscription { name, enabled } => TaskView::SetSubscription { name: name@, enabled },
            Task::Refresh { name } => TaskView::Refresh { name: text::opt_text(name) },
            Task::SelectNode { id } => TaskView::SelectNode { id: id@ },
            Task::Activate => TaskView::Activate,
            Task::PutRouting(a) => TaskView::PutRouting(a@),
            Task::Rollback(a) => TaskView::Rollback(a),
            Task::EnableTun => TaskView::EnableTun,
            Task::DisableTun => TaskView::DisableTun,
            Task::DesktopProxy { user, enable } => TaskView::DesktopProxy { user: user@, enable },
            Task::RunApp { profile, command } => TaskView::RunApp { profile: text::opt_text(profile), command: text::texts(command@) },
            Task::TestApp { profile } => TaskView::TestApp { profile: profile@ },
            Task::DropProfile { name } => TaskView::DropProfile { name: name@ },
            Task::PutProfile(a) => TaskView::PutProfile(a@),
        }
    }
}

/// A subscription as it is added: enabled, in whatever format it comes.
pub open spec fn added_subscription(name: Seq<char>, url: Seq<char>) -> SubscriptionConfigView {
    SubscriptionConfigView { name, enabled: true, url, format: "auto"@ }
}

/// What performing an operation comes to, or why it cannot be performed: an
/// unknown preset, or a profile to remove whose name is none.
pub open spec fn task_of(o: OperationView) -> Result<TaskView, ManagerErrorView> {
    match o {
        OperationView::Install { .. }
        | OperationView::Repair
        | OperationView::Uninstall
        | OperationView::Purge
        | OperationView::UpgradeAll
        | OperationView::UpgradeCore
        | OperationView::UpgradeAssets
        | OperationView::UpgradeManager => Ok(TaskView::ApplyPlan),
        OperationView::ServiceStart => Ok(TaskView::Service(ServiceVerb::Start)),
        OperationView::ServiceStop => Ok(TaskView::Service(ServiceVerb::Stop)),
        OperationView::ServiceRestart => Ok(TaskView::Service(ServiceVerb::Restart)),
        OperationView::SubscriptionAdd { name, url } => Ok(
            TaskView::PutSubscription(added_subscription(name, url)),
        ),
        OperationView::SubscriptionRemove { name } => Ok(TaskView::DropSubscription { name }),
        OperationView::SubscriptionEnable { name, enabled } => Ok(
            TaskView::SetSubscription { name, enabled },
        ),
        OperationView::SubscriptionRefresh { name } => Ok(TaskView::Refresh { name }),
        OperationView::NodeSelect { id } => Ok(TaskView::SelectNode { id }),
        OperationView::Apply | OperationView::RoutingApply => Ok(TaskView::Activate),
        OperationView::RoutingPreset { name } => match routing::preset_config(name) {
            Some(c) => Ok(TaskView::PutRouting(c)),
            None => Err(ManagerErrorView::InvalidConfig("unknown routing preset: "@ + name)),
        },
        OperationView::RoutingSet { routing } => Ok(TaskView::PutRouting(routing)),
        OperationView::ConfigRollback => Ok(TaskView::Rollback(Component::Configuration)),
        OperationView::CoreRollback => Ok(TaskView::Rollback(Component::Core)),
        OperationView::AssetRollback => Ok(TaskView::Rollback(Component::Assets)),
        OperationView::TunEnable => Ok(TaskView::EnableTun),
        OperationView::TunDisable | OperationView::TunCleanup => Ok(TaskView::DisableTun),
        OperationView::DesktopProxyEnable { user } => Ok(
            TaskView::DesktopProxy { user, enable: true },
        ),
        OperationView::DesktopProxyDisable { user } => Ok(
            TaskView::DesktopProxy { user, enable: false },
        ),
        OperationView::AppRun { profile, command } => Ok(TaskView::RunApp { profile, command }),
        OperationView::AppTest { profile } => Ok(TaskView::TestApp { profile }),
        OperationView::AppProfileRemove { name } => match planning::resource_name_problem(name) {
            None => Ok(TaskView::DropProfile { name }),
            Some(e) => Err(ManagerErrorView::InvalidConfig(e)),
        },
        OperationView::AppProfilePut { profile } => Ok(TaskView::PutProfile(profile)),
    }
}

pub open spec fn task_result(
    r: Result<Task, ManagerError>,
    want: Result<TaskView, ManagerErrorView>,
) -> bool {
    match (r, want) {
        (Ok(a), Ok(b)) => a@ == b,
        (Err(a), Err(b)) => a@ == b,
        _ => false,
    }
}

/// Decides what performing an operation comes to.
pub fn task(operation: Operation) -> (r: Result<Task, ManagerError>)
    ensures
        task_result(r, task_of(operation@)),
{
    match operation {
        Operation::Install { .. }
        | Operation::Repair
        | Operation::Uninstall
        | Operation::Purge
        | Operation::UpgradeAll
        | Operation::UpgradeCore
        | Operation::UpgradeAssets
        | Operation::UpgradeManager => Ok(Task::ApplyPlan),
        Operation::ServiceStart => Ok(Task::Service(ServiceVerb::Start)),
        Operation::ServiceStop => Ok(Task::Service(ServiceVerb::Stop)),
        Operation::ServiceRestart => Ok(Task::Service(ServiceVerb::Restart)),
        Operation::SubscriptionAdd { name, url } => Ok(
            Task::PutSubscription(
                SubscriptionConfig { name, enabled: true, url, format: text::owned("auto") },
            ),
        ),
        Operation::SubscriptionRemove { name } => Ok(Task::DropSubscription { name }),
        Operation::SubscriptionEnable { name, enabled } => Ok(
            Task::SetSubscription { name, enabled },
        ),
        Operation::SubscriptionRefresh { name } => Ok(Task::Refresh { name }),
        Operation::NodeSelect { id } => Ok(Task::SelectNode { id }),
        Operation::Apply | Operation::RoutingApply => Ok(Task::Activate),
        Operation::RoutingPreset { name } => match RoutingConfig::preset(name.as_str()) {
            Ok(c) => Ok(Task::PutRouting(c)),
            Err(e) => Err(e),
        },
        Operation::RoutingSet { routing } => Ok(Task::PutRouting(routing)),
        Operation::ConfigRollback => Ok(Task::Rollback(Component::Configuration)),
        Operation::CoreRollback => Ok(Task::Rollback(Component::Core)),
        Operation::AssetRollback => Ok(Task::Rollback(Component::Assets)),
        Operation::TunEnable => Ok(Task::EnableTun),
        Operation::TunDisable | Operation::TunCleanup => Ok(Task::DisableTun),
        Operation::DesktopProxyEnable { user } => Ok(Task::DesktopProxy { user, enable: true }),
        Operation::DesktopProxyDisable { user } => Ok(Task::DesktopProxy { user, enable: false }),
        Operation::AppRun { profile, command } => Ok(Task::RunApp { profile, command }),
        Operation::AppTest { profile } => Ok(Task::TestApp { profile }),
        Operation::AppProfileRemove { name } => match planning::validate_resource_name(
            name.as_str(),
        ) {
            Ok(_) => Ok(Task::DropProfile { name }),
            Err(e) => Err(e),
        },
        Operation::AppProfilePut { profile } => Ok(Task::PutProfile(profile)),
    }
}

/// What a task warns of once it is done.
pub open spec fn task_warnings_of(t: TaskView) -> Seq<Seq<char>> {
    if t is DesktopProxy {
        seq!["KDE applications may need to be restarted before the proxy change is visible"@]
    } else {
        Seq::empty()
    }
}

/// What a task warns of once it is done.
pub fn task_warnings(task: &Task) -> (r: Vec<String>)
    ensures
        text::texts(r@) == task_warnings_of(task@),
{
    let mut r: Vec<String> = Vec::new();
    assert(text::texts(r@) =~= Seq::empty());
    if let Task::DesktopProxy { .. } = task {
        r.push(
            text::owned(
                "KDE applications may need to be restarted before the proxy change is visible",
            ),
        );
        assert(text::texts(r@) =~= task_warnings_of(task@));
    }
    r
}

/// Only installing, repairing, removing and upgrading changes the installation
/// itself; everything else works on what is installed.
pub proof fn law_only_installation_applies_plans(o: OperationView)
    ensures
        task_of(o) == Ok::<TaskView, ManagerErrorView>(TaskView::ApplyPlan) <==> o is Install || o
            is Repair || o is Uninstall || o is Purge || o is UpgradeAll || o is UpgradeCore || o
            is UpgradeAssets || o is UpgradeManager,
{
}

} // verus!
