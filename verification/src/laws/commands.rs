//! What the words of a command line come to.

use crate::cli::{dispatch_of, editor_of, filled, internal_action_of, one_override, opens_menu, overrides_of, profile_template};
use crate::cli::{AppCommandView, AssetCommandView, Command, CommandView, CoreCommand, DispatchView, InternalCommandView, NodeCommandView, PresetCommandView, ProxyCommandView, RoutingCommandView, ServiceCommand, SubscriptionCommandView, TunCommand, UpgradeCommand};
use crate::cli;
use crate::error::ManagerError;
use crate::linux::policy::TunInternalAction;
use crate::operation::{OperationView, QueryView};
use crate::ports::{path_join, Capability};
use crate::text::{cut_first, opt_text};
use vstd::prelude::*;

verus! {

/// What each command does, or asks.
pub proof fn law_commands(c: CommandView)
    ensures
        match c {
            CommandView::Install { user } => dispatch_of(Some(c)) == (DispatchView::Operate { operation: OperationView::Install { user } }),
            CommandView::Repair => dispatch_of(Some(c)) == (DispatchView::Operate { operation: OperationView::Repair }),
            CommandView::Uninstall => dispatch_of(Some(c)) == (DispatchView::Operate { operation: OperationView::Uninstall }),
            CommandView::Purge => dispatch_of(Some(c)) == (DispatchView::Operate { operation: OperationView::Purge }),
            CommandView::Apply => dispatch_of(Some(c)) == (DispatchView::Operate { operation: OperationView::Apply }),
            CommandView::Upgrade { target: None } => dispatch_of(Some(c)) == (DispatchView::Operate { operation: OperationView::UpgradeAll }),
            CommandView::Upgrade { target: Some(UpgradeCommand::All) } => dispatch_of(Some(c)) == (DispatchView::Operate { operation: OperationView::UpgradeAll }),
            CommandView::Upgrade { target: Some(UpgradeCommand::Core) } => dispatch_of(Some(c)) == (DispatchView::Operate { operation: OperationView::UpgradeCore }),
            CommandView::Upgrade { target: Some(UpgradeCommand::Assets) } => dispatch_of(Some(c)) == (DispatchView::Operate { operation: OperationView::UpgradeAssets }),
            CommandView::Upgrade { target: Some(UpgradeCommand::Manager) } => dispatch_of(Some(c)) == (DispatchView::Operate { operation: OperationView::UpgradeManager }),
            CommandView::Subscription { command: SubscriptionCommandView::Refresh { name } } => dispatch_of(Some(c)) == (DispatchView::Operate { operation: OperationView::SubscriptionRefresh { name } }),
            CommandView::Subscription { command: SubscriptionCommandView::Remove { name } } => dispatch_of(Some(c)) == (DispatchView::Operate { operation: OperationView::SubscriptionRemove { name } }),
            CommandView::Subscription { command: SubscriptionCommandView::Enable { name } } => dispatch_of(Some(c)) == (DispatchView::Operate { operation: OperationView::SubscriptionEnable { name, enabled: true } }),
            CommandView::Subscription { command: SubscriptionCommandView::Disable { name } } => dispatch_of(Some(c)) == (DispatchView::Operate { operation: OperationView::SubscriptionEnable { name, enabled: false } }),
            CommandView::Node { command: NodeCommandView::Select { id } } => dispatch_of(Some(c)) == (DispatchView::Operate { operation: OperationView::NodeSelect { id } }),
            CommandView::Routing { command: RoutingCommandView::Apply } => dispatch_of(Some(c)) == (DispatchView::Operate { operation: OperationView::RoutingApply }),
            CommandView::Routing { command: RoutingCommandView::Preset { command: PresetCommandView::Apply { name } } } => dispatch_of(Some(c)) == (DispatchView::Operate { operation: OperationView::RoutingPreset { name } }),
            CommandView::Asset { command: AssetCommandView::Rollback } => dispatch_of(Some(c)) == (DispatchView::Operate { operation: OperationView::AssetRollback }),
            CommandView::Core { command: CoreCommand::Rollback } => dispatch_of(Some(c)) == (DispatchView::Operate { operation: OperationView::CoreRollback }),
            CommandView::Service { command: ServiceCommand::Start } => dispatch_of(Some(c)) == (DispatchView::Operate { operation: OperationView::ServiceStart }),
            CommandView::Service { command: ServiceCommand::Stop } => dispatch_of(Some(c)) == (DispatchView::Operate { operation: OperationView::ServiceStop }),
            CommandView::Service { command: ServiceCommand::Restart } => dispatch_of(Some(c)) == (DispatchView::Operate { operation: OperationView::ServiceRestart }),
            CommandView::Tun { command: TunCommand::Enable } => dispatch_of(Some(c)) == (DispatchView::Operate { operation: OperationView::TunEnable }),
            CommandView::Tun { command: TunCommand::Disable } => dispatch_of(Some(c)) == (DispatchView::Operate { operation: OperationView::TunDisable }),
            CommandView::Tun { command: TunCommand::Cleanup } => dispatch_of(Some(c)) == (DispatchView::Operate { operation: OperationView::TunCleanup }),
            CommandView::Proxy { command: ProxyCommandView::EnableKde { user } } => dispatch_of(Some(c)) == (DispatchView::Operate { operation: OperationView::DesktopProxyEnable { user } }),
            CommandView::Proxy { command: ProxyCommandView::DisableKde { user } } => dispatch_of(Some(c)) == (DispatchView::Operate { operation: OperationView::DesktopProxyDisable { user } }),
            CommandView::App { command: AppCommandView::Run { profile, command } } => dispatch_of(Some(c)) == (DispatchView::Operate { operation: OperationView::AppRun { profile, command } }),
            CommandView::App { command: AppCommandView::Test { name } } => dispatch_of(Some(c)) == (DispatchView::Operate { operation: OperationView::AppTest { profile: name } }),
            CommandView::App { command: AppCommandView::Remove { name } } => dispatch_of(Some(c)) == (DispatchView::Operate { operation: OperationView::AppProfileRemove { name } }),
            CommandView::Status => dispatch_of(Some(c)) == (DispatchView::Ask { query: QueryView::Status }),
            CommandView::Doctor { quick } => dispatch_of(Some(c)) == (DispatchView::Ask { query: QueryView::Doctor { quick } }),
            CommandView::Node { command: NodeCommandView::List } => dispatch_of(Some(c)) == (DispatchView::Ask { query: QueryView::Nodes }),
            CommandView::Subscription { command: SubscriptionCommandView::List } => dispatch_of(Some(c)) == (DispatchView::Ask { query: QueryView::Subscriptions }),
            CommandView::Node { command: NodeCommandView::Current } => dispatch_of(Some(c)) == (DispatchView::Ask { query: QueryView::CurrentNode }),
            CommandView::Routing { command: RoutingCommandView::Show } => dispatch_of(Some(c)) == (DispatchView::Ask { query: QueryView::Routing }),
            CommandView::Routing { command: RoutingCommandView::Validate } => dispatch_of(Some(c)) == (DispatchView::Ask { query: QueryView::RoutingValidate }),
            CommandView::Routing { command: RoutingCommandView::Preset { command: PresetCommandView::List } } => dispatch_of(Some(c)) == (DispatchView::Ask { query: QueryView::RoutingPresets }),
            CommandView::Asset { command: AssetCommandView::List } => dispatch_of(Some(c)) == (DispatchView::Ask { query: QueryView::Assets }),
            CommandView::Core { command: CoreCommand::Status } => dispatch_of(Some(c)) == (DispatchView::Ask { query: QueryView::Core }),
            CommandView::Service { command: ServiceCommand::Logs { lines } } => dispatch_of(Some(c)) == (DispatchView::Ask { query: QueryView::ServiceLogs { lines } }),
            CommandView::Service { command: ServiceCommand::Status } => dispatch_of(Some(c)) == (DispatchView::Ask { query: QueryView::ServiceStatus }),
            CommandView::Proxy { command: ProxyCommandView::Show } => dispatch_of(Some(c)) == (DispatchView::Ask { query: QueryView::ProxyShow }),
            CommandView::Proxy { command: ProxyCommandView::Env } => dispatch_of(Some(c)) == (DispatchView::Ask { query: QueryView::ProxyEnv }),
            CommandView::Tun { command: TunCommand::Status } => dispatch_of(Some(c)) == (DispatchView::Ask { query: QueryView::TunStatus }),
            CommandView::Tun { command: TunCommand::Test } => dispatch_of(Some(c)) == (DispatchView::Ask { query: QueryView::TunTest }),
            CommandView::Tun { command: TunCommand::ShowRules } => dispatch_of(Some(c)) == (DispatchView::Ask { query: QueryView::TunShowRules }),
            CommandView::Node { command: NodeCommandView::Probe { id } } => dispatch_of(Some(c)) == (DispatchView::Ask { query: QueryView::NodeProbe { id } }),
            CommandView::Node { command: NodeCommandView::ProbeAll } => dispatch_of(Some(c)) == (DispatchView::Ask { query: QueryView::NodeProbeAll }),
            CommandView::Routing { command: RoutingCommandView::Explain { name } } => dispatch_of(Some(c)) == (DispatchView::Ask { query: QueryView::RoutingExplain { name } }),
            CommandView::Asset { command: AssetCommandView::Show { id } } => dispatch_of(Some(c)) == (DispatchView::Ask { query: QueryView::AssetShow { id } }),
            CommandView::Core { command: CoreCommand::List } => dispatch_of(Some(c)) == (DispatchView::Ask { query: QueryView::CoreList }),
            CommandView::Proxy { command: ProxyCommandView::Test } => dispatch_of(Some(c)) == (DispatchView::Ask { query: QueryView::ProxyTest }),
            CommandView::App { command: AppCommandView::List } => dispatch_of(Some(c)) == (DispatchView::Ask { query: QueryView::AppList }),
            CommandView::Completion => dispatch_of(Some(c)) is Completion,
            CommandView::Internal { .. } => dispatch_of(Some(c)) is Internal,
            CommandView::Node { command: NodeCommandView::Menu } => dispatch_of(Some(c)) is Menu,
            CommandView::Subscription {
                command: SubscriptionCommandView::Add { name, url_stdin },
            } => dispatch_of(Some(c)) == (DispatchView::AddSubscription { name, url_stdin }),
            CommandView::App { command: AppCommandView::Add { name } } => dispatch_of(Some(c)) == (
            DispatchView::EditProfile { name, existing: false }),
            CommandView::App { command: AppCommandView::Edit { name } } => dispatch_of(Some(c)) == (
            DispatchView::EditProfile { name, existing: true }),
            CommandView::Routing { command: RoutingCommandView::Edit } => dispatch_of(Some(c))
                is EditRouting,
        },
        dispatch_of(None) is Menu,
{
}

/// The menu is opened by its command and where there is none.
pub proof fn law_menu_is_opened(c: Option<CommandView>)
    ensures
        opens_menu(c) <==> dispatch_of(c) is Menu,
{
}

/// The commands of the units: the policy goes up and down, and the interface is
/// attached and detached.
pub proof fn law_internal_commands(c: InternalCommandView)
    ensures
        c is PolicyUp ==> internal_action_of(c) == Some(TunInternalAction::PolicyUp),
        c is PolicyDown ==> internal_action_of(c) == Some(TunInternalAction::PolicyDown),
        c is Attach ==> internal_action_of(c) == Some(TunInternalAction::Attach),
        c is Detach ==> internal_action_of(c) == Some(TunInternalAction::Detach),
        c is AppEnter ==> internal_action_of(c) is None,
{
}

/// A purge is carried out only where it was confirmed or is only shown, and
/// privileges are asked for unless it is only shown.
pub proof fn law_confirmation(
    command: &Command,
    yes: bool,
    dry_run: bool,
    elevated: bool,
    a: Result<(), String>,
    b: Result<(), ManagerError>,
)
    requires
        call_ensures(cli::confirm_purge, (command, yes, dry_run), a),
        call_ensures(cli::check_privilege, (dry_run, elevated), b),
    ensures
        a is Err <==> command@ is Purge && !yes && !dry_run,
        b is Ok <==> dry_run || elevated,
{
}

/// An installation without a user takes the one that called; nothing else is filled in.
pub proof fn law_missing_user(o: OperationView, found: Option<Seq<char>>)
    ensures
        o == (OperationView::Install { user: None }) ==> filled(o, found) == (
        OperationView::Install { user: found }),
        o != (OperationView::Install { user: None }) ==> filled(o, found) == o,
{
}

/// A new profile routes everything: it inherits no proxy and has a resolver of its own.
pub proof fn law_new_profile(name: Seq<char>)
    ensures
        profile_template(name).name == name,
        profile_template(name).clear_proxy_environment && profile_template(name).override_dns,
        profile_template(name).command.len() == 1 && profile_template(name).working_directory is None,
{
}

/// The editor is that for `sudo`, then the visual one, then the plain one, and
/// otherwise that of the system.
pub proof fn law_editor(
    a: Option<Seq<char>>,
    b: Option<Seq<char>>,
    c: Option<Seq<char>>,
    windows: bool,
)
    ensures
        a matches Some(e) ==> editor_of(a, b, c, windows) == e,
        a is None ==> (b matches Some(e) ==> editor_of(a, b, c, windows) == e),
        a is None && b is None ==> (c matches Some(e) ==> editor_of(a, b, c, windows) == e),
        editor_of(None, None, None, true) == "notepad"@,
        editor_of(None, None, None, false) == "vi"@,
{
}

/// The overrides of a command line: each names a capability and a backend, the
/// last of a capability counts, and any that cannot be read is refused.
pub proof fn law_overrides(values: Seq<Seq<char>>, value: Seq<char>)
    ensures
        one_override(value) is Err ==> overrides_of(values.push(value)) is Err,
        overrides_of(values) is Err ==> overrides_of(values.push(value)) is Err,
        overrides_of(values) matches Ok(m) ==> (one_override(value) matches Ok((c, id))
            ==> overrides_of(values.push(value)) == Ok::<Map<Capability, Seq<char>>, Seq<char>>(
            m.insert(c, id),
        )),
        !value.contains('=') ==> one_override(value) is Err,
        one_override(value) matches Ok((c, id)) ==> id.len() > 0 && cut_first(value, '=')
            is Some && (cut_first(value, '=')->0).1 == id,
{
    assert(values.push(value).drop_last() =~= values);
}

/// The files of the manager: those of the system on Linux, and elsewhere below
/// the working directory.
pub proof fn law_default_files(
    windows: bool,
    cwd: &str,
    a: String,
    b: String,
    c: String,
    d: String,
)
    requires
        call_ensures(cli::default_config_path, (true, windows, cwd), a),
        call_ensures(cli::default_state_path, (true, windows, cwd), b),
        call_ensures(cli::default_config_path, (false, windows, cwd), c),
        call_ensures(cli::default_state_path, (false, windows, cwd), d),
    ensures
        a@ == "/etc/xray-manager/config.toml"@,
        b@ == "/var/lib/xray-manager/state.json"@,
        c@ == path_join(windows, cwd@, ".xray-manager/config/config.toml"@),
        d@ == path_join(windows, cwd@, ".xray-manager/state/state.json"@),
{
}

/// The log is the one that is named, then that of the environment, then that of
/// the system; its directory is made unless it is that of the system on Linux.
pub proof fn law_log_file(
    named: Option<String>,
    environment: Option<String>,
    linux: bool,
    windows: bool,
    cwd: &str,
    r: (String, bool),
)
    requires
        call_ensures(cli::manager_log, (named, environment, linux, windows, cwd), r),
    ensures
        opt_text(named) matches Some(p) ==> r.0@ == p && r.1,
        named is None ==> (opt_text(environment) matches Some(p) ==> r.0@ == p && r.1),
        named is None && environment is None && linux ==> r.0@ == "/var/log/xray-manager/xrayctl.log"@
            && !r.1,
        named is None && environment is None && !linux ==> r.0@ == path_join(
            windows,
            cwd@,
            ".xray-manager/logs/xrayctl.log"@,
        ) && r.1,
{
}

} // verus!
