//! The commands of the program and what each of them asks for.

use crate::config::{AppProfile, AppProfileView};
use crate::error::{ManagerError, ManagerErrorView};
use crate::linux::apps::{AppNamespaceRequest, AppNamespaceRequestView};
use crate::linux::policy::TunInternalAction;
use crate::operation::{Operation, OperationView, Query, QueryView};
use crate::ports::{Capability, CapabilityMap};
use crate::text_map::TextMap;
use crate::config;
use crate::operation;
use crate::ports;
use crate::text;
use vstd::prelude::*;

verus! {

/// What to upgrade.
#[derive(Debug, Clone, Copy, PartialEq, Eq, Structural)]
pub enum UpgradeCommand {
    All,
    Core,
    Assets,
    Manager,
}

/// Commands on subscriptions.
#[derive(Debug)]
pub enum SubscriptionCommand {
    Add { name: String, url_stdin: bool },
    Remove { name: String },
    List,
    Enable { name: String },
    Disable { name: String },
    Refresh { name: Option<String> },
}

/// The mathematical value of a [`SubscriptionCommand`].
#[verifier::ext_equal]
pub enum SubscriptionCommandView {
    Add { name: Seq<char>, url_stdin: bool },
    Remove { name: Seq<char> },
    List,
    Enable { name: Seq<char> },
    Disable { name: Seq<char> },
    Refresh { name: Option<Seq<char>> },
}

impl View for SubscriptionCommand {
    type V = SubscriptionCommandView;

    open spec fn view(&self) -> SubscriptionCommandView {
        match *self {
            SubscriptionCommand::Add { name, url_stdin } => SubscriptionCommandView::Add { name: name@, url_stdin },
            SubscriptionCommand::Remove { name } => SubscriptionCommandView::Remove { name: name@ },
            SubscriptionCommand::List => SubscriptionCommandView::List,
            SubscriptionCommand::Enable { name } => SubscriptionCommandView::Enable { name: name@ },
            SubscriptionCommand::Disable { name } => SubscriptionCommandView::Disable { name: name@ },
            SubscriptionCommand::Refresh { name } => SubscriptionCommandView::Refresh { name: text::opt_text(name) },
        }
    }
}

/// Commands on nodes.
#[derive(Debug)]
pub enum NodeCommand {
    List,
    Menu,
    Current,
    Select { id: String },
    Probe { id: String },
    ProbeAll,
}

/// The mathematical value of a [`NodeCommand`].
#[verifier::ext_equal]
pub enum NodeCommandView {
    List,
    Menu,
    Current,
    Select { id: Seq<char> },
    Probe { id: Seq<char> },
    ProbeAll,
}

impl View for NodeCommand {
    type V = NodeCommandView;

    open spec fn view(&self) -> NodeCommandView {
        match *self {
            NodeCommand::List => NodeCommandView::List,
            NodeCommand::Menu => NodeCommandView::Menu,
            NodeCommand::Current => NodeCommandView::Current,
            NodeCommand::Select { id } => NodeCommandView::Select { id: id@ },
            NodeCommand::Probe { id } => NodeCommandView::Probe { id: id@ },
            NodeCommand::ProbeAll => NodeCommandView::ProbeAll,
        }
    }
}

/// Commands on routing presets.
#[derive(Debug)]
pub enum PresetCommand {
    List,
    Apply { name: String },
}

/// The mathematical value of a [`PresetCommand`].
#[verifier::ext_equal]
pub enum PresetCommandView {
    List,
    Apply { name: Seq<char> },
}

impl View for PresetCommand {
    type V = PresetCommandView;

    open spec fn view(&self) -> PresetCommandView {
        match *self {
            PresetCommand::List => PresetCommandView::List,
            PresetCommand::Apply { name } => PresetCommandView::Apply { name: name@ },
        }
    }
}

/// Commands on routing.
#[derive(Debug)]
pub enum RoutingCommand {
    Show,
    Edit,
    Validate,
    Apply,
    Preset { command: PresetCommand },
    Explain { name: Option<String> },
}

/// The mathematical value of a [`RoutingCommand`].
#[verifier::ext_equal]
pub enum RoutingCommandView {
    Show,
    Edit,
    Validate,
    Apply,
    Preset { command: PresetCommandView },
    Explain { name: Option<Seq<char>> },
}

impl View for RoutingCommand {
    type V = RoutingCommandView;

    open spec fn view(&self) -> RoutingCommandView {
        match *self {
            RoutingCommand::Show => RoutingCommandView::Show,
            RoutingCommand::Edit => RoutingCommandView::Edit,
            RoutingCommand::Validate => RoutingCommandView::Validate,
            RoutingCommand::Apply => RoutingCommandView::Apply,
            RoutingCommand::Preset { command } => RoutingCommandView::Preset { command: command@ },
            RoutingCommand::Explain { name } => RoutingCommandView::Explain { name: text::opt_text(name) },
        }
    }
}

/// Commands on assets.
#[derive(Debug)]
pub enum AssetCommand {
    List,
    Show { id: String },
    Rollback,
}

/// The mathematical value of a [`AssetCommand`].
#[verifier::ext_equal]
pub enum AssetCommandView {
    List,
    Show { id: Seq<char> },
    Rollback,
}

impl View for AssetCommand {
    type V = AssetCommandView;

    open spec fn view(&self) -> AssetCommandView {
        match *self {
            AssetCommand::List => AssetCommandView::List,
            AssetCommand::Show { id } => AssetCommandView::Show { id: id@ },
            AssetCommand::Rollback => AssetCommandView::Rollback,
        }
    }
}

/// Commands on the core.
#[derive(Debug, Clone, Copy, PartialEq, Eq, Structural)]
pub enum CoreCommand {
    Status,
    List,
    Rollback,
}

/// Commands on the TUN interface.
#[derive(Debug, Clone, Copy, PartialEq, Eq, Structural)]
pub enum TunCommand {
    Status,
    Enable,
    Disable,
    Test,
    ShowRules,
    Cleanup,
}

/// Commands on the service.
#[derive(Debug, Clone, Copy, PartialEq, Eq, Structural)]
pub enum ServiceCommand {
    Start,
    Stop,
    Restart,
    Status,
    Logs { lines: usize },
}

/// Commands on the local proxies.
#[derive(Debug)]
pub enum ProxyCommand {
    Show,
    Test,
    Env,
    EnableKde { user: String },
    DisableKde { user: String },
}

/// The mathematical value of a [`ProxyCommand`].
#[verifier::ext_equal]
pub enum ProxyCommandView {
    Show,
    Test,
    Env,
    EnableKde { user: Seq<char> },
    DisableKde { user: Seq<char> },
}

impl View for ProxyCommand {
    type V = ProxyCommandView;

    open spec fn view(&self) -> ProxyCommandView {
        match *self {
            ProxyCommand::Show => ProxyCommandView::Show,
            ProxyCommand::Test => ProxyCommandView::Test,
            ProxyCommand::Env => ProxyCommandView::Env,
            ProxyCommand::EnableKde { user } => ProxyCommandView::EnableKde { user: user@ },
            ProxyCommand::DisableKde { user } => ProxyCommandView::DisableKde { user: user@ },
        }
    }
}

/// Commands on routed applications.
#[derive(Debug)]
pub enum AppCommand {
    List,
    Add { name: String },
    Edit { name: String },
    Remove { name: String },
    Run { profile: Option<String>, command: Vec<String> },
    Test { name: String },
}

/// The mathematical value of a [`AppCommand`].
#[verifier::ext_equal]
pub enum AppCommandView {
    List,
    Add { name: Seq<char> },
    Edit { name: Seq<char> },
    Remove { name: Seq<char> },
    Run { profile: Option<Seq<char>>, command: Seq<Seq<char>> },
    Test { name: Seq<char> },
}

impl View for AppCommand {
    type V = AppCommandView;

    open spec fn view(&self) -> AppCommandView {
        match *self {
            AppCommand::List => AppCommandView::List,
            AppCommand::Add { name } => AppCommandView::Add { name: name@ },
            AppCommand::Edit { name } => AppCommandView::Edit { name: name@ },
            AppCommand::Remove { name } => AppCommandView::Remove { name: name@ },
            AppCommand::Run { profile, command } => AppCommandView::Run { profile: text::opt_text(profile), command: text::texts(command@) },
            AppCommand::Test { name } => AppCommandView::Test { name: name@ },
        }
    }
}

/// Commands that the program gives itself.
#[derive(Debug)]
pub enum InternalCommand {
    PolicyUp,
    PolicyDown,
    Attach,
    Detach,
    AppEnter { request: AppNamespaceRequest },
}

/// The mathematical value of a [`InternalCommand`].
#[verifier::ext_equal]
pub enum InternalCommandView {
    PolicyUp,
    PolicyDown,
    Attach,
    Detach,
    AppEnter { request: AppNamespaceRequestView },
}

impl View for InternalCommand {
    type V = InternalCommandView;

    open spec fn view(&self) -> InternalCommandView {
        match *self {
            InternalCommand::PolicyUp => InternalCommandView::PolicyUp,
            InternalCommand::PolicyDown => InternalCommandView::PolicyDown,
            InternalCommand::Attach => InternalCommandView::Attach,
            InternalCommand::Detach => InternalCommandView::Detach,
            InternalCommand::AppEnter { request } => InternalCommandView::AppEnter { request: request@ },
        }
    }
}

/// A command.
#[derive(Debug)]
pub enum Command {
    Install { user: Option<String> },
    Repair,
    Uninstall,
    Purge,
    Status,
    Doctor { quick: bool },
    Apply,
    Upgrade { target: Option<UpgradeCommand> },
    Subscription { command: SubscriptionCommand },
    Node { command: NodeCommand },
    Routing { command: RoutingCommand },
    Asset { command: AssetCommand },
    Core { command: CoreCommand },
    Service { command: ServiceCommand },
    Proxy { command: ProxyCommand },
    Tun { command: TunCommand },
    App { command: AppCommand },
    Completion,
    Internal { command: InternalCommand },
}

/// The mathematical value of a [`Command`].
#[verifier::ext_equal]
pub enum CommandView {
    Install { user: Option<Seq<char>> },
    Repair,
    Uninstall,
    Purge,
    Status,
    Doctor { quick: bool },
    Apply,
    Upgrade { target: Option<UpgradeCommand> },
    Subscription { command: SubscriptionCommandView },
    Node { command: NodeCommandView },
    Routing { command: RoutingCommandView },
    Asset { command: AssetCommandView },
    Core { command: CoreCommand },
    Service { command: ServiceCommand },
    Proxy { command: ProxyCommandView },
    Tun { command: TunCommand },
    App { command: AppCommandView },
    Completion,
    Internal { command: InternalCommandView },
}

impl View for Command {
    type V = CommandView;

    open spec fn view(&self) -> CommandView {
        match *self {
            Command::Install { user } => CommandView::Install { user: text::opt_text(user) },
            Command::Repair => CommandView::Repair,
            Command::Uninstall => CommandView::Uninstall,
            Command::Purge => CommandView::Purge,
            Command::Status => CommandView::Status,
            Command::Doctor { quick } => CommandView::Doctor { quick },
            Command::Apply => CommandView::Apply,
            Command::Upgrade { target } => CommandView::Upgrade { target },
            Command::Subscription { command } => CommandView::Subscription { command: command@ },
            Command::Node { command } => CommandView::Node { command: command@ },
            Command::Routing { command } => CommandView::Routing { command: command@ },
            Command::Asset { command } => CommandView::Asset { command: command@ },
            Command::Core { command } => CommandView::Core { command },
            Command::Service { command } => CommandView::Service { command },
            Command::Proxy { command } => CommandView::Proxy { command: command@ },
            Command::Tun { command } => CommandView::Tun { command },
            Command::App { command } => CommandView::App { command: command@ },
            Command::Completion => CommandView::Completion,
            Command::Internal { command } => CommandView::Internal { command: command@ },
        }
    }
}

/// The operation that a command asks for, or why it asks for none.
pub open spec fn operation_of(c: CommandView) -> Result<OperationView, Seq<char>> {
    match c {
        CommandView::Install { user } => Ok(OperationView::Install { user }),
        CommandView::Repair => Ok(OperationView::Repair),
        CommandView::Uninstall => Ok(OperationView::Uninstall),
        CommandView::Purge => Ok(OperationView::Purge),
        CommandView::Apply => Ok(OperationView::Apply),
        CommandView::Upgrade { target: None } => Ok(OperationView::UpgradeAll),
        CommandView::Upgrade { target: Some(UpgradeCommand::All) } => Ok(OperationView::UpgradeAll),
        CommandView::Upgrade { target: Some(UpgradeCommand::Core) } => Ok(OperationView::UpgradeCore),
        CommandView::Upgrade { target: Some(UpgradeCommand::Assets) } => Ok(OperationView::UpgradeAssets),
        CommandView::Upgrade { target: Some(UpgradeCommand::Manager) } => Ok(OperationView::UpgradeManager),
        CommandView::Subscription { command: SubscriptionCommandView::Refresh { name } } => Ok(OperationView::SubscriptionRefresh { name }),
        CommandView::Subscription { command: SubscriptionCommandView::Remove { name } } => Ok(OperationView::SubscriptionRemove { name }),
        CommandView::Subscription { command: SubscriptionCommandView::Enable { name } } => Ok(OperationView::SubscriptionEnable { name, enabled: true }),
        CommandView::Subscription { command: SubscriptionCommandView::Disable { name } } => Ok(OperationView::SubscriptionEnable { name, enabled: false }),
        CommandView::Node { command: NodeCommandView::Select { id } } => Ok(OperationView::NodeSelect { id }),
        CommandView::Routing { command: RoutingCommandView::Apply } => Ok(OperationView::RoutingApply),
        CommandView::Routing { command: RoutingCommandView::Preset { command: PresetCommandView::Apply { name } } } => Ok(OperationView::RoutingPreset { name }),
        CommandView::Asset { command: AssetCommandView::Rollback } => Ok(OperationView::AssetRollback),
        CommandView::Core { command: CoreCommand::Rollback } => Ok(OperationView::CoreRollback),
        CommandView::Service { command: ServiceCommand::Start } => Ok(OperationView::ServiceStart),
        CommandView::Service { command: ServiceCommand::Stop } => Ok(OperationView::ServiceStop),
        CommandView::Service { command: ServiceCommand::Restart } => Ok(OperationView::ServiceRestart),
        CommandView::Tun { command: TunCommand::Enable } => Ok(OperationView::TunEnable),
        CommandView::Tun { command: TunCommand::Disable } => Ok(OperationView::TunDisable),
        CommandView::Tun { command: TunCommand::Cleanup } => Ok(OperationView::TunCleanup),
        CommandView::Proxy { command: ProxyCommandView::EnableKde { user } } => Ok(OperationView::DesktopProxyEnable { user }),
        CommandView::Proxy { command: ProxyCommandView::DisableKde { user } } => Ok(OperationView::DesktopProxyDisable { user }),
        CommandView::App { command: AppCommandView::Run { profile, command } } => Ok(OperationView::AppRun { profile, command }),
        CommandView::App { command: AppCommandView::Test { name } } => Ok(OperationView::AppTest { profile: name }),
        CommandView::App { command: AppCommandView::Remove { name } } => Ok(OperationView::AppProfileRemove { name }),
        CommandView::Status
        | CommandView::Doctor { .. } => Err("read-only query dispatch is not yet available through this adapter"@),
        CommandView::Completion => Err("completion is handled directly"@),
        CommandView::Routing { command: RoutingCommandView::Edit }
        | CommandView::App { command: AppCommandView::Add { .. } }
        | CommandView::App { command: AppCommandView::Edit { .. } } => Err("this command requires an interactive editor and cannot run in this build"@),
        _ => Err("command is parsed but its application operation is not implemented yet"@),
    }
}

/// The outcome of a step that fails with a message.
pub open spec fn operation_result(
    r: Result<Operation, String>,
    want: Result<OperationView, Seq<char>>,
) -> bool {
    match (r, want) {
        (Ok(a), Ok(b)) => a@ == b,
        (Err(a), Err(b)) => a@ == b,
        _ => false,
    }
}

/// Finds the operation that a command asks for.
pub fn to_operation(command: &Command) -> (r: Result<Operation, String>)
    ensures
        operation_result(r, operation_of(command@)),
{
    match command {
        Command::Install { user } => Ok(Operation::Install { user: text::copy_opt(user) }),
        Command::Repair => Ok(Operation::Repair),
        Command::Uninstall => Ok(Operation::Uninstall),
        Command::Purge => Ok(Operation::Purge),
        Command::Apply => Ok(Operation::Apply),
        Command::Upgrade { target: None } => Ok(Operation::UpgradeAll),
        Command::Upgrade { target: Some(UpgradeCommand::All) } => Ok(Operation::UpgradeAll),
        Command::Upgrade { target: Some(UpgradeCommand::Core) } => Ok(Operation::UpgradeCore),
        Command::Upgrade { target: Some(UpgradeCommand::Assets) } => Ok(Operation::UpgradeAssets),
        Command::Upgrade { target: Some(UpgradeCommand::Manager) } => Ok(Operation::UpgradeManager),
        Command::Subscription { command: SubscriptionCommand::Refresh { name } } => Ok(Operation::SubscriptionRefresh { name: text::copy_opt(name) }),
        Command::Subscription { command: SubscriptionCommand::Remove { name } } => Ok(Operation::SubscriptionRemove { name: name.clone() }),
        Command::Subscription { command: SubscriptionCommand::Enable { name } } => Ok(Operation::SubscriptionEnable { name: name.clone(), enabled: true }),
        Command::Subscription { command: SubscriptionCommand::Disable { name } } => Ok(Operation::SubscriptionEnable { name: name.clone(), enabled: false }),
        Command::Node { command: NodeCommand::Select { id } } => Ok(Operation::NodeSelect { id: id.clone() }),
        Command::Routing { command: RoutingCommand::Apply } => Ok(Operation::RoutingApply),
        Command::Routing { command: RoutingCommand::Preset { command: PresetCommand::Apply { name } } } => Ok(Operation::RoutingPreset { name: name.clone() }),
        Command::Asset { command: AssetCommand::Rollback } => Ok(Operation::AssetRollback),
        Command::Core { command: CoreCommand::Rollback } => Ok(Operation::CoreRollback),
        Command::Service { command: ServiceCommand::Start } => Ok(Operation::ServiceStart),
        Command::Service { command: ServiceCommand::Stop } => Ok(Operation::ServiceStop),
        Command::Service { command: ServiceCommand::Restart } => Ok(Operation::ServiceRestart),
        Command::Tun { command: TunCommand::Enable } => Ok(Operation::TunEnable),
        Command::Tun { command: TunCommand::Disable } => Ok(Operation::TunDisable),
        Command::Tun { command: TunCommand::Cleanup } => Ok(Operation::TunCleanup),
        Command::Proxy { command: ProxyCommand::EnableKde { user } } => Ok(Operation::DesktopProxyEnable { user: user.clone() }),
        Command::Proxy { command: ProxyCommand::DisableKde { user } } => Ok(Operation::DesktopProxyDisable { user: user.clone() }),
        Command::App { command: AppCommand::Run { profile, command } } => Ok(Operation::AppRun { profile: text::copy_opt(profile), command: text::copy_texts(command) }),
        Command::App { command: AppCommand::Test { name } } => Ok(Operation::AppTest { profile: name.clone() }),
        Command::App { command: AppCommand::Remove { name } } => Ok(Operation::AppProfileRemove { name: name.clone() }),
        Command::Status
        | Command::Doctor { .. } => Err(text::owned("read-only query dispatch is not yet available through this adapter")),
        Command::Completion => Err(text::owned("completion is handled directly")),
        Command::Routing { command: RoutingCommand::Edit }
        | Command::App { command: AppCommand::Add { .. } }
        | Command::App { command: AppCommand::Edit { .. } } => Err(text::owned("this command requires an interactive editor and cannot run in this build")),
        _ => Err(text::owned("command is parsed but its application operation is not implemented yet")),
    }
}

/// The question that a command asks, if it only asks one.
pub open spec fn query_of(c: CommandView) -> Option<QueryView> {
    match c {
        CommandView::Status => Some(QueryView::Status),
        CommandView::Doctor { quick } => Some(QueryView::Doctor { quick }),
        CommandView::Node { command: NodeCommandView::List } => Some(QueryView::Nodes),
        CommandView::Subscription { command: SubscriptionCommandView::List } => Some(QueryView::Subscriptions),
        CommandView::Node { command: NodeCommandView::Current } => Some(QueryView::CurrentNode),
        CommandView::Routing { command: RoutingCommandView::Show } => Some(QueryView::Routing),
        CommandView::Routing { command: RoutingCommandView::Validate } => Some(QueryView::RoutingValidate),
        CommandView::Routing { command: RoutingCommandView::Preset { command: PresetCommandView::List } } => Some(QueryView::RoutingPresets),
        CommandView::Asset { command: AssetCommandView::List } => Some(QueryView::Assets),
        CommandView::Core { command: CoreCommand::Status } => Some(QueryView::Core),
        CommandView::Service { command: ServiceCommand::Logs { lines } } => Some(QueryView::ServiceLogs { lines }),
        CommandView::Service { command: ServiceCommand::Status } => Some(QueryView::ServiceStatus),
        CommandView::Proxy { command: ProxyCommandView::Show } => Some(QueryView::ProxyShow),
        CommandView::Proxy { command: ProxyCommandView::Env } => Some(QueryView::ProxyEnv),
        CommandView::Tun { command: TunCommand::Status } => Some(QueryView::TunStatus),
        CommandView::Tun { command: TunCommand::Test } => Some(QueryView::TunTest),
        CommandView::Tun { command: TunCommand::ShowRules } => Some(QueryView::TunShowRules),
        CommandView::Node { command: NodeCommandView::Probe { id } } => Some(QueryView::NodeProbe { id }),
        CommandView::Node { command: NodeCommandView::ProbeAll } => Some(QueryView::NodeProbeAll),
        CommandView::Routing { command: RoutingCommandView::Explain { name } } => Some(QueryView::RoutingExplain { name }),
        CommandView::Asset { command: AssetCommandView::Show { id } } => Some(QueryView::AssetShow { id }),
        CommandView::Core { command: CoreCommand::List } => Some(QueryView::CoreList),
        CommandView::Proxy { command: ProxyCommandView::Test } => Some(QueryView::ProxyTest),
        CommandView::App { command: AppCommandView::List } => Some(QueryView::AppList),
        _ => None,
    }
}

/// Finds the question that a command asks, if it only asks one.
pub fn to_query(command: &Command) -> (r: Option<Query>)
    ensures
        operation::opt_query(r) == query_of(command@),
{
    match command {
        Command::Status => Some(Query::Status),
        Command::Doctor { quick } => Some(Query::Doctor { quick: *quick }),
        Command::Node { command: NodeCommand::List } => Some(Query::Nodes),
        Command::Subscription { command: SubscriptionCommand::List } => Some(Query::Subscriptions),
        Command::Node { command: NodeCommand::Current } => Some(Query::CurrentNode),
        Command::Routing { command: RoutingCommand::Show } => Some(Query::Routing),
        Command::Routing { command: RoutingCommand::Validate } => Some(Query::RoutingValidate),
        Command::Routing { command: RoutingCommand::Preset { command: PresetCommand::List } } => Some(Query::RoutingPresets),
        Command::Asset { command: AssetCommand::List } => Some(Query::Assets),
        Command::Core { command: CoreCommand::Status } => Some(Query::Core),
        Command::Service { command: ServiceCommand::Logs { lines } } => Some(Query::ServiceLogs { lines: *lines }),
        Command::Service { command: ServiceCommand::Status } => Some(Query::ServiceStatus),
        Command::Proxy { command: ProxyCommand::Show } => Some(Query::ProxyShow),
        Command::Proxy { command: ProxyCommand::Env } => Some(Query::ProxyEnv),
        Command::Tun { command: TunCommand::Status } => Some(Query::TunStatus),
        Command::Tun { command: TunCommand::Test } => Some(Query::TunTest),
        Command::Tun { command: TunCommand::ShowRules } => Some(Query::TunShowRules),
        Command::Node { command: NodeCommand::Probe { id } } => Some(Query::NodeProbe { id: id.clone() }),
        Command::Node { command: NodeCommand::ProbeAll } => Some(Query::NodeProbeAll),
        Command::Routing { command: RoutingCommand::Explain { name } } => Some(Query::RoutingExplain { name: text::copy_opt(name) }),
        Command::Asset { command: AssetCommand::Show { id } } => Some(Query::AssetShow { id: id.clone() }),
        Command::Core { command: CoreCommand::List } => Some(Query::CoreList),
        Command::Proxy { command: ProxyCommand::Test } => Some(Query::ProxyTest),
        Command::App { command: AppCommand::List } => Some(Query::AppList),
        _ => None,
    }
}

/// A command that only asks a question changes nothing.
pub proof fn law_question_changes_nothing(c: CommandView)
    requires
        query_of(c) is Some,
    ensures
        operation_of(c) is Err,
{
}

/// The name of a command in the log.
pub open spec fn command_word(c: CommandView) -> Seq<char> {
    match c {
        CommandView::Install { .. } => "install"@,
        CommandView::Repair => "repair"@,
        CommandView::Uninstall => "uninstall"@,
        CommandView::Purge => "purge"@,
        CommandView::Status => "status"@,
        CommandView::Doctor { .. } => "doctor"@,
        CommandView::Apply => "apply"@,
        CommandView::Upgrade { .. } => "upgrade"@,
        CommandView::Subscription { .. } => "subscription"@,
        CommandView::Node { .. } => "node"@,
        CommandView::Routing { .. } => "routing"@,
        CommandView::Asset { .. } => "asset"@,
        CommandView::Core { .. } => "core"@,
        CommandView::Service { .. } => "service"@,
        CommandView::Proxy { .. } => "proxy"@,
        CommandView::Tun { .. } => "tun"@,
        CommandView::App { .. } => "app"@,
        CommandView::Completion => "completion"@,
        CommandView::Internal { .. } => "internal"@,
    }
}

/// The name of a command in the log.
pub fn command_name(command: &Command) -> (r: &'static str)
    ensures
        r@ == command_word(command@),
{
    match command {
        Command::Install { .. } => "install",
        Command::Repair => "repair",
        Command::Uninstall => "uninstall",
        Command::Purge => "purge",
        Command::Status => "status",
        Command::Doctor { .. } => "doctor",
        Command::Apply => "apply",
        Command::Upgrade { .. } => "upgrade",
        Command::Subscription { .. } => "subscription",
        Command::Node { .. } => "node",
        Command::Routing { .. } => "routing",
        Command::Asset { .. } => "asset",
        Command::Core { .. } => "core",
        Command::Service { .. } => "service",
        Command::Proxy { .. } => "proxy",
        Command::Tun { .. } => "tun",
        Command::App { .. } => "app",
        Command::Completion => "completion",
        Command::Internal { .. } => "internal",
    }
}

pub open spec fn opt_command(o: Option<Command>) -> Option<CommandView> {
    match o {
        Some(x) => Some(x@),
        None => None,
    }
}

/// Whether an invocation opens the menu.
pub open spec fn opens_menu(c: Option<CommandView>) -> bool {
    match c {
        None => true,
        Some(c) => c == (CommandView::Node { command: NodeCommandView::Menu }),
    }
}

/// Whether an invocation opens the menu.
pub fn uses_tui(command: &Option<Command>) -> (r: bool)
    ensures
        r == opens_menu(opt_command(*command)),
{
    match command {
        None => true,
        Some(Command::Node { command: NodeCommand::Menu }) => true,
        _ => false,
    }
}

/// What an invocation comes to.
pub enum Dispatch {
    Internal,
    Menu,
    Completion,
    Ask { query: Query },
    AddSubscription { name: String, url_stdin: bool },
    EditProfile { name: String, existing: bool },
    EditRouting,
    Operate { operation: Operation },
    Refuse { message: String },
}

/// The mathematical value of a [`Dispatch`].
#[verifier::ext_equal]
pub enum DispatchView {
    Internal,
    Menu,
    Completion,
    Ask { query: QueryView },
    AddSubscription { name: Seq<char>, url_stdin: bool },
    EditProfile { name: Seq<char>, existing: bool },
    EditRouting,
    Operate { operation: OperationView },
    Refuse { message: Seq<char> },
}

impl View for Dispatch {
    type V = DispatchView;

    open spec fn view(&self) -> DispatchView {
        match *self {
            Dispatch::Internal => DispatchView::Internal,
            Dispatch::Menu => DispatchView::Menu,
            Dispatch::Completion => DispatchView::Completion,
            Dispatch::Ask { query } => DispatchView::Ask { query: query@ },
            Dispatch::AddSubscription { name, url_stdin } => DispatchView::AddSubscription { name: name@, url_stdin },
            Dispatch::EditProfile { name, existing } => DispatchView::EditProfile { name: name@, existing },
            Dispatch::EditRouting => DispatchView::EditRouting,
            Dispatch::Operate { operation } => DispatchView::Operate { operation: operation@ },
            Dispatch::Refuse { message } => DispatchView::Refuse { message: message@ },
        }
    }
}

/// What an invocation comes to: the first of an internal command, the menu,
/// completion, a question, an interactive edit and an operation.
pub open spec fn dispatch_of(c: Option<CommandView>) -> DispatchView {
    match c {
        None => DispatchView::Menu,
        Some(CommandView::Internal { .. }) => DispatchView::Internal,
        Some(CommandView::Completion) => DispatchView::Completion,
        Some(CommandView::Node { command: NodeCommandView::Menu }) => DispatchView::Menu,
        Some(
            CommandView::Subscription { command: SubscriptionCommandView::Add { name, url_stdin } },
        ) => DispatchView::AddSubscription { name, url_stdin },
        Some(CommandView::App { command: AppCommandView::Add { name } }) => {
            DispatchView::EditProfile { name, existing: false }
        },
        Some(CommandView::App { command: AppCommandView::Edit { name } }) => {
            DispatchView::EditProfile { name, existing: true }
        },
        Some(CommandView::Routing { command: RoutingCommandView::Edit }) => {
            DispatchView::EditRouting
        },
        Some(c) => match query_of(c) {
            Some(query) => DispatchView::Ask { query },
            None => match operation_of(c) {
                Ok(operation) => DispatchView::Operate { operation },
                Err(message) => DispatchView::Refuse { message },
            },
        },
    }
}

/// Decides what an invocation comes to.
pub fn dispatch(command: &Option<Command>) -> (r: Dispatch)
    ensures
        r@ == dispatch_of(opt_command(*command)),
{
    match command {
        None => Dispatch::Menu,
        Some(Command::Internal { .. }) => Dispatch::Internal,
        Some(Command::Completion) => Dispatch::Completion,
        Some(Command::Node { command: NodeCommand::Menu }) => Dispatch::Menu,
        Some(Command::Subscription { command: SubscriptionCommand::Add { name, url_stdin } }) => {
            Dispatch::AddSubscription { name: name.clone(), url_stdin: *url_stdin }
        },
        Some(Command::App { command: AppCommand::Add { name } }) => {
            Dispatch::EditProfile { name: name.clone(), existing: false }
        },
        Some(Command::App { command: AppCommand::Edit { name } }) => {
            Dispatch::EditProfile { name: name.clone(), existing: true }
        },
        Some(Command::Routing { command: RoutingCommand::Edit }) => Dispatch::EditRouting,
        Some(c) => match to_query(c) {
            Some(query) => Dispatch::Ask { query },
            None => match to_operation(c) {
                Ok(operation) => Dispatch::Operate { operation },
                Err(message) => Dispatch::Refuse { message },
            },
        },
    }
}

/// Every command does something: none is refused for want of an implementation.
pub proof fn law_every_command_is_served(c: Option<CommandView>)
    ensures
        !(dispatch_of(c) is Refuse),
{
}

/// The policy change that an internal command asks for.
pub open spec fn internal_action_of(c: InternalCommandView) -> Option<TunInternalAction> {
    match c {
        InternalCommandView::PolicyUp => Some(TunInternalAction::PolicyUp),
        InternalCommandView::PolicyDown => Some(TunInternalAction::PolicyDown),
        InternalCommandView::Attach => Some(TunInternalAction::Attach),
        InternalCommandView::Detach => Some(TunInternalAction::Detach),
        InternalCommandView::AppEnter { .. } => None,
    }
}

/// Finds the policy change that an internal command asks for.
pub fn internal_action(command: &InternalCommand) -> (r: Option<TunInternalAction>)
    ensures
        r == internal_action_of(command@),
{
    match command {
        InternalCommand::PolicyUp => Some(TunInternalAction::PolicyUp),
        InternalCommand::PolicyDown => Some(TunInternalAction::PolicyDown),
        InternalCommand::Attach => Some(TunInternalAction::Attach),
        InternalCommand::Detach => Some(TunInternalAction::Detach),
        InternalCommand::AppEnter { .. } => None,
    }
}

/// The error of an internal command on a host that is not Linux.
pub fn internal_unsupported(platform: &str) -> (r: ManagerError)
    ensures
        r@ == (ManagerErrorView::PlatformUnsupported {
            capability: Capability::Tun,
            platform: platform@,
            backend: None,
            reason: "TUN policy commands are Linux-only"@,
            recommendation: Some("run this internal command on Linux"@),
        }),
{
    ManagerError::PlatformUnsupported {
        capability: Capability::Tun,
        platform: text::owned(platform),
        backend: None,
        reason: text::owned("TUN policy commands are Linux-only"),
        recommendation: Some(text::owned("run this internal command on Linux")),
    }
}

/// Whether an installation still lacks the user that may use the manager.
pub fn lacks_user(operation: &Operation) -> (r: bool)
    ensures
        r == (operation@ == OperationView::Install { user: None }),
{
    match operation {
        Operation::Install { user: None } => true,
        _ => false,
    }
}

/// An operation with the user that it lacked.
pub open spec fn filled(o: OperationView, found: Option<Seq<char>>) -> OperationView {
    if o == (OperationView::Install { user: None }) {
        OperationView::Install { user: found }
    } else {
        o
    }
}

/// Gives an installation the user that it lacks.
pub fn with_user(operation: Operation, found: Option<String>) -> (r: Operation)
    ensures
        r@ == filled(operation@, text::opt_text(found)),
{
    if lacks_user(&operation) {
        Operation::Install { user: found }
    } else {
        operation
    }
}

/// Refuses to purge without confirmation.
pub fn confirm_purge(command: &Command, yes: bool, dry_run: bool) -> (r: Result<(), String>)
    ensures
        match r {
            Ok(_) => !(command@ is Purge) || yes || dry_run,
            Err(e) => command@ is Purge && !yes && !dry_run && e@
                == "purge requires explicit confirmation with --yes"@,
        },
{
    match command {
        Command::Purge => if !yes && !dry_run {
            Err(text::owned("purge requires explicit confirmation with --yes"))
        } else {
            Ok(())
        },
        _ => Ok(()),
    }
}

/// Refuses a change by a caller without privileges; a dry run changes nothing.
pub fn check_privilege(dry_run: bool, elevated: bool) -> (r: Result<(), ManagerError>)
    ensures
        match r {
            Ok(_) => dry_run || elevated,
            Err(e) => !dry_run && !elevated && e@ == ManagerErrorView::PrivilegeRequired,
        },
{
    if !dry_run && !elevated {
        Err(ManagerError::PrivilegeRequired)
    } else {
        Ok(())
    }
}

/// The profile that editing a new application starts from.
pub open spec fn profile_template(name: Seq<char>) -> AppProfileView {
    AppProfileView {
        name,
        command: seq!["/usr/bin/example"@],
        clear_proxy_environment: true,
        override_dns: true,
        working_directory: None,
        environment: Map::empty(),
    }
}

/// The profile that editing a new application starts from.
pub fn new_profile(name: &str) -> (r: AppProfile)
    ensures
        r@ == profile_template(name@),
{
    let command: Vec<String> = vec![text::owned("/usr/bin/example")];
    assert(text::texts(command@) =~= seq!["/usr/bin/example"@]);
    AppProfile {
        name: text::owned(name),
        command,
        clear_proxy_environment: true,
        override_dns: true,
        working_directory: None,
        environment: TextMap::new(),
    }
}

/// The first profile of a name is at `i`.
pub open spec fn first_profile(v: Seq<AppProfileView>, name: Seq<char>, i: int) -> bool {
    &&& 0 <= i < v.len()
    &&& v[i].name == name
    &&& forall|j: int| 0 <= j < i ==> (#[trigger] v[j]).name != name
}

/// Finds the profile to edit.
pub fn profile_to_edit(profiles: &Vec<AppProfile>, name: &str) -> (r: Result<AppProfile, String>)
    ensures
        match r {
            Ok(p) => exists|i: int|
                first_profile(config::app_profile_views(profiles@), name@, i) && p@
                    == #[trigger] config::app_profile_views(profiles@)[i],
            Err(e) => (forall|i: int|
                0 <= i < profiles@.len() ==> (#[trigger] config::app_profile_views(profiles@)[i]).name
                    != name@) && e@ == "app profile '"@ + name@ + "' was not found"@,
        },
{
    let ghost all = config::app_profile_views(profiles@);
    let mut i: usize = 0;
    while i < profiles.len()
        invariant
            i <= profiles@.len(),
            all == config::app_profile_views(profiles@),
            forall|j: int| 0 <= j < i ==> (#[trigger] all[j]).name != name@,
        decreases profiles@.len() - i,
    {
        assert(all[i as int] == profiles@[i as int]@);
        if text::same(profiles[i].name.as_str(), name) {
            assert(first_profile(all, name@, i as int));
            return Ok(profiles[i].clone());
        }
        i += 1;
    }
    Err(text::concat3("app profile '", name, "' was not found"))
}

/// Accepts an edited profile that has kept its name.
pub fn edited_profile(profile: AppProfile, name: &str) -> (r: Result<Operation, String>)
    ensures
        match r {
            Ok(op) => profile@.name == name@ && op@ == (OperationView::AppProfilePut {
                profile: profile@,
            }),
            Err(e) => profile@.name != name@ && e@ == "edited profile name must remain '"@ + name@
                + "'"@,
        },
{
    if text::same(profile.name.as_str(), name) {
        Ok(Operation::AppProfilePut { profile })
    } else {
        Err(text::concat3("edited profile name must remain '", name, "'"))
    }
}

/// The editor: the first one that the environment names.
pub open spec fn editor_of(
    sudo_editor: Option<Seq<char>>,
    visual: Option<Seq<char>>,
    editor: Option<Seq<char>>,
    windows: bool,
) -> Seq<char> {
    match sudo_editor {
        Some(e) => e,
        None => match visual {
            Some(e) => e,
            None => text::text_or(editor, if windows {
                "notepad"@
            } else {
                "vi"@
            }),
        },
    }
}

/// Chooses the editor.
pub fn choose_editor(
    sudo_editor: Option<String>,
    visual: Option<String>,
    editor: Option<String>,
    windows: bool,
) -> (r: String)
    ensures
        r@ == editor_of(text::opt_text(sudo_editor), text::opt_text(visual), text::opt_text(editor), windows),
{
    match sudo_editor {
        Some(e) => e,
        None => match visual {
            Some(e) => e,
            None => if windows {
                text::unwrap_text(editor, "notepad")
            } else {
                text::unwrap_text(editor, "vi")
            },
        },
    }
}

/// The capability that an override names, with hyphens or underscores.
pub open spec fn override_capability(value: Seq<char>) -> Option<Capability> {
    ports::named_capability(text::replaced_char(value, '-', '_'))
}

/// Reads the capability that an override names.
pub fn parse_capability(value: &str) -> (r: Result<Capability, String>)
    ensures
        match r {
            Ok(c) => override_capability(value@) == Some(c),
            Err(e) => override_capability(value@) is None && e@ == "unknown backend capability '"@
                + value@ + "'"@,
        },
{
    let name = text::replace_char(value, '-', '_');
    match Capability::from_name(name.as_str()) {
        Some(c) => Ok(c),
        None => Err(text::concat3("unknown backend capability '", value, "'")),
    }
}

/// What one override sets, or what is wrong with it.
pub open spec fn one_override(value: Seq<char>) -> Result<(Capability, Seq<char>), Seq<char>> {
    match text::cut_first(value, '=') {
        None => Err(
            "invalid backend override '"@ + value + "', expected capability=id"@,
        ),
        Some((name, id)) => if id.len() == 0 {
            Err("backend ID cannot be empty"@)
        } else {
            match override_capability(name) {
                Some(c) => Ok((c, id)),
                None => Err("unknown backend capability '"@ + name + "'"@),
            }
        },
    }
}

/// What a list of overrides sets: a later one wins, and the first wrong one is the error.
pub open spec fn overrides_of(values: Seq<Seq<char>>) -> Result<
    Map<Capability, Seq<char>>,
    Seq<char>,
>
    decreases values.len(),
{
    if values.len() == 0 {
        Ok(Map::empty())
    } else {
        match overrides_of(values.drop_last()) {
            Err(e) => Err(e),
            Ok(m) => match one_override(values.last()) {
                Ok((c, id)) => Ok(m.insert(c, id)),
                Err(e) => Err(e),
            },
        }
    }
}

proof fn lemma_overrides_fail(values: Seq<Seq<char>>, i: int)
    requires
        0 <= i <= values.len(),
        overrides_of(values.take(i)) is Err,
    ensures
        overrides_of(values) == overrides_of(values.take(i)),
    decreases values.len(),
{
    if i < values.len() {
        let v = values.drop_last();
        assert(v.take(i) =~= values.take(i));
        lemma_overrides_fail(v, i);
    } else {
        assert(values.take(i) =~= values);
    }
}

/// Reads the backend overrides of an invocation.
pub fn parse_backend_overrides(values: &Vec<String>) -> (r: Result<CapabilityMap, String>)
    ensures
        match (r, overrides_of(text::texts(values@))) {
            (Ok(m), Ok(want)) => m@ == want,
            (Err(e), Err(want)) => e@ == want,
            _ => false,
        },
{
    let ghost all = text::texts(values@);
    let mut m = CapabilityMap::new();
    let mut i: usize = 0;
    assert(all.take(0).len() == 0);
    while i < values.len()
        invariant
            i <= values@.len(),
            all == text::texts(values@),
            overrides_of(all.take(i as int)) == Ok::<Map<Capability, Seq<char>>, Seq<char>>(m@),
        decreases values@.len() - i,
    {
        let value = values[i].as_str();
        proof {
            assert(all[i as int] == value@);
            assert(all.take(i + 1).drop_last() =~= all.take(i as int));
            assert(all.take(i + 1).last() == value@);
        }
        match text::split_once(value, '=') {
            None => {
                proof {
                    lemma_overrides_fail(all, i + 1);
                }
                return Err(
                    text::concat3(
                        "invalid backend override '",
                        value,
                        "', expected capability=id",
                    ),
                );
            },
            Some((name, id)) => {
                if text::chars_of(id.as_str()).len() == 0 {
                    proof {
                        lemma_overrides_fail(all, i + 1);
                    }
                    return Err(text::owned("backend ID cannot be empty"));
                }
                match parse_capability(name.as_str()) {
                    Ok(c) => {
                        m.insert(c, id);
                    },
                    Err(e) => {
                        proof {
                            lemma_overrides_fail(all, i + 1);
                        }
                        return Err(e);
                    },
                }
            },
        }
        i += 1;
    }
    assert(all.take(all.len() as int) =~= all);
    Ok(m)
}

/// Every capability has an override that sets it, written as it is shown.
pub proof fn law_override_sets_its_capability(c: Capability, id: Seq<char>)
    requires
        id.len() > 0,
    ensures
        one_override(ports::capability_name(c) + "="@ + id) == Ok::<(Capability, Seq<char>), Seq<char>>(
            (c, id),
        ),
{
    ports::law_capability_name_round_trip(c);
    lemma_capability_name_is_plain(c);
    let name = ports::capability_name(c);
    let value = name + "="@ + id;
    reveal_strlit("=");
    assert(text::is_first(value, '=', name.len() as int)) by {
        assert forall|j: int| 0 <= j < name.len() implies value[j] != '=' by {
            assert(value[j] == name[j]);
        }
    }
    text::lemma_first_unique(value, '=', name.len() as int);
    assert(value.take(name.len() as int) =~= name);
    assert(value.skip(name.len() as int + 1) =~= id);
    assert(text::replaced_char(name, '-', '_') =~= name);
}

proof fn lemma_capability_name_is_plain(c: Capability)
    ensures
        forall|j: int|
            0 <= j < ports::capability_name(c).len() ==> #[trigger] ports::capability_name(c)[j] != '='
                && ports::capability_name(c)[j] != '-',
{
    reveal_strlit("layout");
    reveal_strlit("installer");
    reveal_strlit("identity");
    reveal_strlit("service");
    reveal_strlit("firewall");
    reveal_strlit("policy_routing");
    reveal_strlit("tun");
    reveal_strlit("app_runner");
    reveal_strlit("mount_isolation");
    reveal_strlit("desktop_proxy");
    reveal_strlit("package_advisor");
}

/// The file that is used in place of one that was not named.
pub open spec fn default_path(
    linux: bool,
    windows: bool,
    cwd: Seq<char>,
    fhs: Seq<char>,
    local: Seq<char>,
) -> Seq<char> {
    if linux {
        fhs
    } else {
        ports::path_join(windows, cwd, local)
    }
}

/// Where the configuration is.
pub fn default_config_path(linux: bool, windows: bool, cwd: &str) -> (r: String)
    ensures
        r@ == default_path(
            linux,
            windows,
            cwd@,
            "/etc/xray-manager/config.toml"@,
            ".xray-manager/config/config.toml"@,
        ),
{
    if linux {
        text::owned("/etc/xray-manager/config.toml")
    } else {
        ports::join_path(windows, cwd, ".xray-manager/config/config.toml")
    }
}

/// Where the state is.
pub fn default_state_path(linux: bool, windows: bool, cwd: &str) -> (r: String)
    ensures
        r@ == default_path(
            linux,
            windows,
            cwd@,
            "/var/lib/xray-manager/state.json"@,
            ".xray-manager/state/state.json"@,
        ),
{
    if linux {
        text::owned("/var/lib/xray-manager/state.json")
    } else {
        ports::join_path(windows, cwd, ".xray-manager/state/state.json")
    }
}

/// Where the manager writes its log.
pub fn default_manager_log_path(linux: bool, windows: bool, cwd: &str) -> (r: String)
    ensures
        r@ == default_path(
            linux,
            windows,
            cwd@,
            "/var/log/xray-manager/xrayctl.log"@,
            ".xray-manager/logs/xrayctl.log"@,
        ),
{
    if linux {
        text::owned("/var/log/xray-manager/xrayctl.log")
    } else {
        ports::join_path(windows, cwd, ".xray-manager/logs/xrayctl.log")
    }
}

/// The log file of an invocation: the one that it names, else the one that the
/// environment names, else the usual one. Whether its directory is made: not
/// that of the usual file on Linux, which the installation makes.
pub fn manager_log(
    named: Option<String>,
    environment: Option<String>,
    linux: bool,
    windows: bool,
    cwd: &str,
) -> (r: (String, bool))
    ensures
        r.0@ == match text::opt_text(named) {
            Some(p) => p,
            None => text::text_or(
                text::opt_text(environment),
                default_path(
                    linux,
                    windows,
                    cwd@,
                    "/var/log/xray-manager/xrayctl.log"@,
                    ".xray-manager/logs/xrayctl.log"@,
                ),
            ),
        },
        r.1 == (named is Some || environment is Some || !linux),
{
    match named {
        Some(p) => (p, true),
        None => match environment {
            Some(p) => (p, true),
            None => (default_manager_log_path(linux, windows, cwd), !linux),
        },
    }
}

/// The log filter of the terminal.
pub fn terminal_filter(verbose: bool) -> (r: &'static str)
    ensures
        r@ == if verbose {
            "xrayctl=debug,xray_manager=debug"@
        } else {
            "warn"@
        },
{
    if verbose {
        "xrayctl=debug,xray_manager=debug"
    } else {
        "warn"
    }
}

} // verus!
