//! What is printed of plans, results, errors and answers: for scripts by the
//! names of its members, for people by its lines.

use crate::cli::{CommandView, NodeCommandView};
use crate::console;
use crate::console::{action_json_view, check_lines, current_node_of, error_lines_of, failure_parts, failure_view, node_line, node_lines, operation_success, plan_json_view, query_lines_of, result_json_view, shell_environment, status_of, success_view, warning_line, Line, PieceView, Tone};
use crate::dto::OperationResultDtoView;
use crate::error::{error_code, error_details, error_message, ManagerErrorView};
use crate::json;
use crate::json::{Json, JsonView};
use crate::laws::reading::{item, mark, member, number, text};
use crate::ports::{capability_name, Capability, ExecutionPlanView, PlanActionView};
use crate::text::texts;
use vstd::prelude::*;

verus! {

proof fn lemma_keys()
    ensures
        mark("actions"@) == (7int, 'a', 't', 'i', 'n', 's'),
        mark("backend"@) == (7int, 'b', 'c', 'k', 'n', 'd'),
        mark("backend_ids"@) == (11int, 'b', 'k', 'n', 'i', 's'),
        mark("capability"@) == (10int, 'c', 'a', 'i', 'i', 'y'),
        mark("changed"@) == (7int, 'c', 'a', 'n', 'e', 'd'),
        mark("code"@) == (4int, 'c', 'o', 'd', 'e', 'e'),
        mark("data"@) == (4int, 'd', 'a', 't', 'a', 'a'),
        mark("description"@) == (11int, 'd', 'c', 'i', 'i', 'n'),
        mark("destination"@) == (11int, 'd', 't', 'n', 'i', 'n'),
        mark("details"@) == (7int, 'd', 't', 'a', 'l', 's'),
        mark("enabled"@) == (7int, 'e', 'a', 'b', 'e', 'd'),
        mark("error"@) == (5int, 'e', 'r', 'r', 'o', 'r'),
        mark("executable"@) == (10int, 'e', 'c', 't', 'b', 'e'),
        mark("group"@) == (5int, 'g', 'r', 'o', 'u', 'p'),
        mark("id"@) == (2int, 'i', 'i', 'd', 'd', 'd'),
        mark("identity"@) == (8int, 'i', 'e', 't', 't', 'y'),
        mark("kind"@) == (4int, 'k', 'i', 'n', 'd', 'd'),
        mark("message"@) == (7int, 'm', 's', 's', 'g', 'e'),
        mark("mode"@) == (4int, 'm', 'o', 'd', 'e', 'e'),
        mark("name"@) == (4int, 'n', 'a', 'm', 'e', 'e'),
        mark("ok"@) == (2int, 'o', 'o', 'k', 'k', 'k'),
        mark("operation"@) == (9int, 'o', 'r', 'a', 'i', 'n'),
        mark("packages"@) == (8int, 'p', 'c', 'a', 'e', 's'),
        mark("path"@) == (4int, 'p', 'a', 't', 'h', 'h'),
        mark("plan"@) == (4int, 'p', 'l', 'a', 'n', 'n'),
        mark("platform"@) == (8int, 'p', 'a', 'f', 'r', 'm'),
        mark("reason"@) == (6int, 'r', 'a', 's', 'o', 'n'),
        mark("recommendation"@) == (14int, 'r', 'm', 'n', 't', 'n'),
        mark("routed"@) == (6int, 'r', 'u', 't', 'e', 'd'),
        mark("system"@) == (6int, 's', 's', 't', 'e', 'm'),
        mark("table"@) == (5int, 't', 'a', 'b', 'l', 'e'),
        mark("url"@) == (3int, 'u', 'r', 'r', 'l', 'l'),
        mark("user"@) == (4int, 'u', 's', 'e', 'r', 'r'),
        mark("warnings"@) == (8int, 'w', 'r', 'i', 'g', 's'),
{
    reveal_strlit("actions");
    reveal_strlit("backend");
    reveal_strlit("backend_ids");
    reveal_strlit("capability");
    reveal_strlit("changed");
    reveal_strlit("code");
    reveal_strlit("data");
    reveal_strlit("description");
    reveal_strlit("destination");
    reveal_strlit("details");
    reveal_strlit("enabled");
    reveal_strlit("error");
    reveal_strlit("executable");
    reveal_strlit("group");
    reveal_strlit("id");
    reveal_strlit("identity");
    reveal_strlit("kind");
    reveal_strlit("message");
    reveal_strlit("mode");
    reveal_strlit("name");
    reveal_strlit("ok");
    reveal_strlit("operation");
    reveal_strlit("packages");
    reveal_strlit("path");
    reveal_strlit("plan");
    reveal_strlit("platform");
    reveal_strlit("reason");
    reveal_strlit("recommendation");
    reveal_strlit("routed");
    reveal_strlit("system");
    reveal_strlit("table");
    reveal_strlit("url");
    reveal_strlit("user");
    reveal_strlit("warnings");
}
proof fn lemma_capabilities()
    ensures
        mark("layout"@) == (6int, 'l', 'y', 'o', 'u', 't'),
        mark("installer"@) == (9int, 'i', 't', 'a', 'l', 'r'),
        mark("identity"@) == (8int, 'i', 'e', 't', 't', 'y'),
        mark("service"@) == (7int, 's', 'r', 'v', 'c', 'e'),
        mark("firewall"@) == (8int, 'f', 'r', 'w', 'l', 'l'),
        mark("policy_routing"@) == (14int, 'p', 'c', 'r', 't', 'g'),
        mark("tun"@) == (3int, 't', 'u', 'u', 'n', 'n'),
        mark("app_runner"@) == (10int, 'a', '_', 'u', 'n', 'r'),
        mark("mount_isolation"@) == (15int, 'm', '_', 's', 't', 'n'),
        mark("desktop_proxy"@) == (13int, 'd', 't', 'p', 'r', 'y'),
        mark("package_advisor"@) == (15int, 'p', 'g', '_', 'i', 'r'),
{
    reveal_strlit("layout");
    reveal_strlit("installer");
    reveal_strlit("identity");
    reveal_strlit("service");
    reveal_strlit("firewall");
    reveal_strlit("policy_routing");
    reveal_strlit("tun");
    reveal_strlit("app_runner");
    reveal_strlit("mount_isolation");
    reveal_strlit("desktop_proxy");
    reveal_strlit("package_advisor");
}

/// Each action of a plan names its kind and carries what the action is about.
pub proof fn law_shown_action(x: PlanActionView)
    ensures
        ({
            let o = Some(action_json_view(x));
            match x {
                PlanActionView::EnsureIdentity { name, system } => {
                    &&& member(o, "kind"@) == text("ensure_identity"@)
                    &&& member(o, "name"@) == text(name)
                    &&& member(o, "system"@) == Some(JsonView::Bool(system))
                },
                PlanActionView::EnsureGroup { name } => {
                    &&& member(o, "kind"@) == text("ensure_group"@)
                    &&& member(o, "name"@) == text(name)
                },
                PlanActionView::AddIdentityToGroup { identity, group } => {
                    &&& member(o, "kind"@) == text("add_identity_to_group"@)
                    &&& member(o, "identity"@) == text(identity)
                    &&& member(o, "group"@) == text(group)
                },
                PlanActionView::EnsureDirectory { path, mode } => {
                    &&& member(o, "kind"@) == text("ensure_directory"@)
                    &&& member(o, "path"@) == text(path)
                    &&& member(o, "mode"@) == number(mode as nat)
                },
                PlanActionView::WriteFile { path, mode, description } => {
                    &&& member(o, "kind"@) == text("write_file"@)
                    &&& member(o, "path"@) == text(path)
                    &&& member(o, "mode"@) == number(mode as nat)
                    &&& member(o, "description"@) == text(description)
                },
                PlanActionView::DownloadArtifact { id, destination } => {
                    &&& member(o, "kind"@) == text("download_artifact"@)
                    &&& member(o, "id"@) == text(id)
                    &&& member(o, "destination"@) == text(destination)
                },
                PlanActionView::RequirePackages { packages } => {
                    &&& member(o, "kind"@) == text("require_packages"@)
                    &&& member(o, "packages"@) == Some(json::texts_view(packages))
                },
                PlanActionView::InstallService { name } => {
                    &&& member(o, "kind"@) == text("install_service"@)
                    &&& member(o, "name"@) == text(name)
                },
                PlanActionView::EnableService { name } => {
                    &&& member(o, "kind"@) == text("enable_service"@)
                    &&& member(o, "name"@) == text(name)
                },
                PlanActionView::StartService { name } => {
                    &&& member(o, "kind"@) == text("start_service"@)
                    &&& member(o, "name"@) == text(name)
                },
                PlanActionView::RestartService { name } => {
                    &&& member(o, "kind"@) == text("restart_service"@)
                    &&& member(o, "name"@) == text(name)
                },
                PlanActionView::StopService { name } => {
                    &&& member(o, "kind"@) == text("stop_service"@)
                    &&& member(o, "name"@) == text(name)
                },
                PlanActionView::RemoveService { name } => {
                    &&& member(o, "kind"@) == text("remove_service"@)
                    &&& member(o, "name"@) == text(name)
                },
                PlanActionView::ConfigureFirewall { backend } => {
                    &&& member(o, "kind"@) == text("configure_firewall"@)
                    &&& member(o, "backend"@) == text(backend)
                },
                PlanActionView::ConfigureRoute { backend, table } => {
                    &&& member(o, "kind"@) == text("configure_route"@)
                    &&& member(o, "backend"@) == text(backend)
                    &&& member(o, "table"@) == number(table as nat)
                },
                PlanActionView::ApplyConfiguration { description } => {
                    &&& member(o, "kind"@) == text("apply_configuration"@)
                    &&& member(o, "description"@) == text(description)
                },
                PlanActionView::ConfigureDesktopProxy { backend, user, enabled } => {
                    &&& member(o, "kind"@) == text("configure_desktop_proxy"@)
                    &&& member(o, "backend"@) == text(backend)
                    &&& member(o, "user"@) == text(user)
                    &&& member(o, "enabled"@) == Some(JsonView::Bool(enabled))
                },
                PlanActionView::LaunchApplication { executable, routed } => {
                    &&& member(o, "kind"@) == text("launch_application"@)
                    &&& member(o, "executable"@) == text(executable)
                    &&& member(o, "routed"@) == Some(JsonView::Bool(routed))
                },
                PlanActionView::RunHealthcheck { url } => {
                    &&& member(o, "kind"@) == text("run_healthcheck"@)
                    &&& member(o, "url"@) == text(url)
                },
                PlanActionView::RemoveOwnedPath { path } => {
                    &&& member(o, "kind"@) == text("remove_owned_path"@)
                    &&& member(o, "path"@) == text(path)
                },
            }
        }),
{
    lemma_keys();
}

/// The name of each capability.
pub proof fn law_capability_names(c: Capability)
    ensures
        capability_name(c) == (match c {
            Capability::Layout => "layout"@,
            Capability::Install => "installer"@,
            Capability::Identity => "identity"@,
            Capability::Service => "service"@,
            Capability::Firewall => "firewall"@,
            Capability::PolicyRouting => "policy_routing"@,
            Capability::Tun => "tun"@,
            Capability::AppRunner => "app_runner"@,
            Capability::MountIsolation => "mount_isolation"@,
            Capability::DesktopProxy => "desktop_proxy"@,
            Capability::PackageAdvice => "package_advisor"@,
        }),
{
}

proof fn lemma_named(list: Seq<Capability>, m: Map<Capability, Seq<char>>, c: Capability)
    requires
        forall|a: Capability, b: Capability|
            #[trigger] capability_name(a) == #[trigger] capability_name(b) ==> a == b,
    ensures
        console::named_ids(list, m).contains_key(capability_name(c)) <==> list.contains(c)
            && m.contains_key(c),
        list.contains(c) && m.contains_key(c) ==> console::named_ids(list, m)[capability_name(c)]
            == JsonView::Text(m[c]),
    decreases list.len(),
{
    if list.len() > 0 {
        lemma_named(list.drop_last(), m, c);
        assert(list =~= list.drop_last().push(list.last()));
        assert(list.contains(c) <==> list.drop_last().contains(c) || list.last() == c) by {
            if list.contains(c) {
                let i = choose|i: int| 0 <= i < list.len() && list[i] == c;
                if i < list.len() - 1 {
                    assert(list.drop_last()[i] == c);
                }
            }
            if list.drop_last().contains(c) {
                let i = choose|i: int| 0 <= i < list.len() - 1 && list.drop_last()[i] == c;
                assert(list[i] == c);
            }
            if list.last() == c {
                assert(list[list.len() - 1] == c);
            }
        }
    }
}

proof fn lemma_all_listed(c: Capability)
    ensures
        crate::operation::all_capabilities().contains(c),
{
    let all = crate::operation::all_capabilities();
    let i: int = match c {
        Capability::Layout => 0,
        Capability::Install => 1,
        Capability::Identity => 2,
        Capability::Service => 3,
        Capability::Firewall => 4,
        Capability::PolicyRouting => 5,
        Capability::Tun => 6,
        Capability::AppRunner => 7,
        Capability::MountIsolation => 8,
        Capability::DesktopProxy => 9,
        Capability::PackageAdvice => 10,
    };
    assert(all[i] == c);
}

/// A plan is shown as its operation, the backend of each capability that has
/// one, and its actions in order.
pub proof fn law_shown_plan(x: ExecutionPlanView, c: Capability, i: int)
    ensures
        ({
            let o = Some(plan_json_view(x));
            let ids = member(o, "backend_ids"@);
            &&& member(o, "operation"@) == text(x.operation)
            &&& x.backend_ids.contains_key(c) ==> member(ids, capability_name(c)) == text(
                x.backend_ids[c],
            )
            &&& !x.backend_ids.contains_key(c) ==> member(ids, capability_name(c)) is None
            &&& 0 <= i < x.actions.len() ==> item(member(o, "actions"@), i) == Some(
                action_json_view(x.actions[i]),
            )
            &&& i >= x.actions.len() ==> item(member(o, "actions"@), i) is None
        }),
{
    lemma_keys();
    lemma_capabilities();
    lemma_all_listed(c);
    lemma_named(crate::operation::all_capabilities(), x.backend_ids, c);
}

/// What an operation came to: its name, whether it changed anything, its plan
/// where there is one, its data where there is any, and its warnings.
pub proof fn law_shown_result(x: OperationResultDtoView)
    ensures
        ({
            let o = Some(result_json_view(x));
            &&& member(o, "operation"@) == text(x.operation)
            &&& member(o, "changed"@) == Some(JsonView::Bool(x.changed))
            &&& x.plan is None ==> member(o, "plan"@) == Some(JsonView::Null)
            &&& x.plan is Some ==> member(o, "plan"@) == Some(plan_json_view(x.plan->0))
            &&& member(o, "data"@) == x.data
            &&& member(o, "warnings"@) == Some(json::texts_view(x.warnings))
        }),
{
    lemma_keys();
}

/// A success says `ok`, with the data and the warnings; a failure says that it
/// is none, with a code, a message and details.
pub proof fn law_envelopes(
    data: JsonView,
    warnings: Seq<Seq<char>>,
    code: Seq<char>,
    message: Seq<char>,
    details: JsonView,
)
    ensures
        ({
            let good = Some(success_view(data, warnings));
            let bad = Some(failure_view(code, message, details));
            let e = member(bad, "error"@);
            &&& member(good, "ok"@) == Some(JsonView::Bool(true))
            &&& member(good, "data"@) == Some(data)
            &&& member(good, "warnings"@) == Some(json::texts_view(warnings))
            &&& member(good, "error"@) is None
            &&& member(bad, "ok"@) == Some(JsonView::Bool(false))
            &&& member(bad, "data"@) is None
            &&& member(e, "code"@) == text(code)
            &&& member(e, "message"@) == text(message)
            &&& member(e, "details"@) == Some(details)
        }),
{
    lemma_keys();
}

/// The code that scripts read and the message that people read, for every kind
/// of error.
pub proof fn law_error_texts(m: Seq<char>)
    ensures
        error_code(ManagerErrorView::InvalidConfig(m)) == "invalid_config"@,
        error_message(ManagerErrorView::InvalidConfig(m)) == "invalid configuration: "@ + m,
        error_code(ManagerErrorView::InvalidNode(m)) == "invalid_node"@,
        error_message(ManagerErrorView::InvalidNode(m)) == "invalid node URI: "@ + m,
        error_code(ManagerErrorView::InvalidSubscription(m)) == "invalid_subscription"@,
        error_message(ManagerErrorView::InvalidSubscription(m)) == "invalid subscription: "@ + m,
        error_code(ManagerErrorView::Io(m)) == "io_error"@,
        error_message(ManagerErrorView::Io(m)) == "I/O operation failed: "@ + m,
        error_code(ManagerErrorView::Download(m)) == "download_error"@,
        error_message(ManagerErrorView::Download(m)) == "download failed: "@ + m,
        error_code(ManagerErrorView::Validation(m)) == "validation_error"@,
        error_message(ManagerErrorView::Validation(m)) == "Xray validation failed: "@ + m,
        error_code(ManagerErrorView::LockContention) == "lock_contention"@,
        error_message(ManagerErrorView::LockContention) == "operation is already in progress"@,
        error_code(ManagerErrorView::ManagerReleaseSourceNotConfigured)
            == "manager_release_source_not_configured"@,
        error_message(ManagerErrorView::ManagerReleaseSourceNotConfigured)
            == "Manager release source is not configured."@,
        error_code(ManagerErrorView::PrivilegeRequired) == "privilege_required"@,
        error_message(ManagerErrorView::PrivilegeRequired)
            == "operation requires administrator privileges"@,
        error_code(ManagerErrorView::Other(m)) == "operation_failed"@,
        error_message(ManagerErrorView::Other(m)) == m,
        failure_parts(None).0 == "operation_failed"@,
        failure_parts(Some(ManagerErrorView::Other(m))).0 == "operation_failed"@,
        failure_parts(Some(ManagerErrorView::Io(m))).0 == "io_error"@,
{
}

/// A capability that a platform lacks is named with the platform, the backend,
/// the reason and the advice, in the message and in the details; other errors
/// have no details.
pub proof fn law_unsupported_error(
    capability: Capability,
    platform: Seq<char>,
    backend: Option<Seq<char>>,
    reason: Seq<char>,
    recommendation: Option<Seq<char>>,
    other: ManagerErrorView,
    key: Seq<char>,
)
    ensures
        ({
            let e = ManagerErrorView::PlatformUnsupported {
                capability,
                platform,
                backend,
                reason,
                recommendation,
            };
            let d = Some(error_details(e));
            &&& error_code(e) == "platform_unsupported"@
            &&& error_message(e) == capability_name(capability) + " is unsupported on "@ + platform
                + ": "@ + reason
            &&& member(d, "capability"@) == text(capability_name(capability))
            &&& member(d, "platform"@) == text(platform)
            &&& member(d, "backend"@) == Some(json::opt_view(backend))
            &&& member(d, "reason"@) == text(reason)
            &&& member(d, "recommendation"@) == Some(json::opt_view(recommendation))
        }),
        !(other is PlatformUnsupported) ==> member(Some(error_details(other)), key) is None,
{
    lemma_keys();
}

/// A node on a line of its own: what it is worth, then its ID, protocol and
/// name; a second line has its address and subscription, and each warning
/// follows on a line of its own.
pub proof fn law_node_lines(
    color: bool,
    node: JsonView,
    id: Seq<char>,
    protocol: Seq<char>,
    name: Seq<char>,
    endpoint: Seq<char>,
    subscription: Seq<char>,
    support: Seq<char>,
)
    requires
        member(Some(node), "id"@) == text(id),
        member(Some(node), "protocol"@) == text(protocol),
        member(Some(node), "name"@) == text(name),
        member(Some(node), "endpoint"@) == text(endpoint),
        member(Some(node), "subscription"@) == text(subscription),
        member(Some(node), "support"@) == text(support),
    ensures
        ({
            let first = node_line(color, node);
            let tone = first.pieces[0].tone;
            &&& node_lines(color, node)[0] == first
            &&& first.pieces.len() == 2
            &&& first.pieces[1] == (PieceView {
                tone: Tone::Plain,
                text: " "@ + id + "  "@ + protocol + "  "@ + name,
            })
            &&& support == "supported"@ ==> first.pieces[0].text == "[SUPPORTED]"@
            &&& support == "partial"@ && support != "supported"@ ==> first.pieces[0].text
                == "[PARTIAL]"@
            &&& support != "supported"@ && support != "partial"@ ==> first.pieces[0].text
                == "[UNSUPPORTED]"@
            &&& !color ==> tone == Tone::Plain
            &&& color && support == "supported"@ ==> tone == Tone::Green
            &&& color && support == "partial"@ && support != "supported"@ ==> tone == Tone::Yellow
            &&& color && support != "supported"@ && support != "partial"@ ==> tone == Tone::Red
            &&& node_lines(color, node)[1].pieces.len() == 1
            &&& node_lines(color, node)[1].pieces[0].text == "  "@ + endpoint + "  subscription="@
                + subscription
        }),
        ({
            let plain = warning_line(false, name);
            plain.pieces.len() == 1 && plain.pieces[0].text == "  WARNING: "@ + name
        }),
{
}

/// The node in use, or that there is none.
pub proof fn law_current_node_line(value: JsonView, node: Seq<char>)
    ensures
        member(Some(value), "selected_node"@) == text(node) ==> current_node_of(false, value).pieces
            == seq![PieceView { tone: Tone::Plain, text: "Active node: "@ + node }],
        member(Some(value), "selected_node"@) == text(node) ==> current_node_of(
            true,
            value,
        ).pieces[0].tone == Tone::Green && current_node_of(true, value).pieces[1].text
            == " Active node: "@ + node,
        !(member(Some(value), "selected_node"@) matches Some(JsonView::Text(_)))
            ==> current_node_of(false, value).pieces == seq![
            PieceView { tone: Tone::Plain, text: "No node is selected"@ },
        ],
        !(member(Some(value), "selected_node"@) matches Some(JsonView::Text(_)))
            ==> current_node_of(true, value).pieces[0].tone == Tone::Yellow,
{
}

/// A check of the doctor: its mark by its status, its name and message, and the
/// remedy on a line of its own where there is one.
pub proof fn law_check_lines(
    check: JsonView,
    id: Seq<char>,
    status: Seq<char>,
    message: Seq<char>,
    remedy: Seq<char>,
)
    requires
        member(Some(check), "id"@) == text(id),
        member(Some(check), "status"@) == text(status),
        member(Some(check), "message"@) == text(message),
    ensures
        ({
            let plain = check_lines(false, check);
            let painted = check_lines(true, check);
            &&& plain[0].pieces.len() == 2 && painted[0].pieces.len() == 2
            &&& plain[0].pieces[0].text == "["@ + status + "]"@
            &&& plain[0].pieces[0].tone == Tone::Plain
            &&& plain[0].pieces[1].text == " "@ + id + ": "@ + message
            &&& painted[0].pieces[1].text == " "@ + id + ": "@ + message
            &&& status == "PASS"@ ==> painted[0].pieces[0].tone == Tone::Green
            &&& status == "WARN"@ && status != "PASS"@ ==> painted[0].pieces[0].tone == Tone::Yellow
            &&& status != "PASS"@ && status != "WARN"@ ==> painted[0].pieces[0].tone == Tone::Red
            &&& member(Some(check), "remediation"@) == text(remedy) ==> plain.len() == 2
                && plain[1].pieces == seq![
                PieceView { tone: Tone::Plain, text: "  Remediation: "@ + remedy },
            ]
            &&& !(member(Some(check), "remediation"@) matches Some(JsonView::Text(_)))
                ==> plain.len() == 1
        }),
{
    assert(console::text_member(check, "status"@) == Some(status));
    assert(console::member_text(check, "status"@) == status);
}

/// The status: whether it is installed, the node, the core, and one line for
/// each backend.
pub proof fn law_status_lines(value: JsonView, node: Seq<char>, core: Seq<char>, b: Seq<JsonView>, i: int)
    requires
        member(Some(value), "selected_node"@) == text(node),
        member(Some(value), "core_version"@) == text(core),
        member(Some(value), "backends"@) == Some(JsonView::Array(b)),
    ensures
        ({
            let lines = status_of(false, value);
            &&& member(Some(value), "installed"@) == Some(JsonView::Bool(true))
                ==> lines[0].pieces[0].text == "Installed: true"@
            &&& member(Some(value), "installed"@) != Some(JsonView::Bool(true))
                ==> lines[0].pieces[0].text == "Installed: false"@
            &&& lines[1].pieces[0].text == "Selected node: "@ + node
            &&& lines[2].pieces[0].text == "Xray core: "@ + core
            &&& lines[3].pieces[0].text == "Backends:"@
            &&& lines.len() == 4 + b.len()
            &&& 0 <= i < b.len() && (member(Some(b[i]), "capability"@) matches Some(
                JsonView::Text(_),
            )) && (member(Some(b[i]), "backend_id"@) matches Some(JsonView::Text(_)))
                ==> lines[4 + i].pieces[0].text == "  "@ + (member(Some(b[i]), "capability"@)->0)->Text_0
                + " = "@ + (member(Some(b[i]), "backend_id"@)->0)->Text_0
        }),
{
}

/// Nodes, the current node, the doctor and the status are shown in lines; other
/// answers are not.
pub proof fn law_answers_in_lines(color: bool, c: CommandView, value: JsonView)
    ensures
        match c {
            CommandView::Status => query_lines_of(color, c, value) is Some,
            CommandView::Doctor { .. } => query_lines_of(color, c, value) is Some
                <==> (member(Some(value), "checks"@) matches Some(JsonView::Array(_))),
            CommandView::Node { command: NodeCommandView::List } => query_lines_of(color, c, value) is Some
                <==> value is Array,
            CommandView::Node { command: NodeCommandView::Current } => query_lines_of(
                color,
                c,
                value,
            ) is Some && (query_lines_of(color, c, value)->0).len() == 1,
            _ => query_lines_of(color, c, value) is None,
        },
{
}

/// The proxy environment as lines for a shell: one assignment for each of the
/// four variables, in this order.
pub proof fn law_shell_lines(
    value: Json,
    r: Result<Vec<String>, String>,
    http: Seq<char>,
    https: Seq<char>,
    all: Seq<char>,
    no: Seq<char>,
)
    requires
        call_ensures(shell_environment, (&value,), r),
        member(Some(value@), "HTTP_PROXY"@) == text(http),
        member(Some(value@), "HTTPS_PROXY"@) == text(https),
        member(Some(value@), "ALL_PROXY"@) == text(all),
        member(Some(value@), "NO_PROXY"@) == text(no),
    ensures
        r is Ok,
        texts(r->Ok_0@) == seq![
            "export "@ + "HTTP_PROXY"@ + "="@ + http,
            "export "@ + "HTTPS_PROXY"@ + "="@ + https,
            "export "@ + "ALL_PROXY"@ + "="@ + all,
            "export "@ + "NO_PROXY"@ + "="@ + no,
        ],
{
    assert(value@ is Object);
    assert(console::export_lines(value@) =~= seq![
        "export "@ + "HTTP_PROXY"@ + "="@ + http,
        "export "@ + "HTTPS_PROXY"@ + "="@ + https,
        "export "@ + "ALL_PROXY"@ + "="@ + all,
        "export "@ + "NO_PROXY"@ + "="@ + no,
    ]);
}

/// What is said of an operation that ended well, and of an error: its code, its
/// message and the advice that comes with it.
pub proof fn law_ending_lines(
    operation: &str,
    line: Line,
    e: ManagerErrorView,
    message: Seq<char>,
    advice: Seq<char>,
)
    requires
        call_ensures(operation_success, (false, operation), line),
    ensures
        line@.pieces.len() == 1,
        line@.pieces[0].text == "OK: "@ + operation@ + " completed"@,
        ({
            let lines = error_lines_of(false, Some(e), message);
            let painted = error_lines_of(true, Some(e), message);
            &&& lines[0].pieces[0].text == "ERROR ["@ + error_code(e) + "]"@
            &&& painted[0].pieces[2].text == error_code(e) && painted[0].pieces[2].tone == Tone::Red
            &&& lines[1].pieces[0].text == message && painted[1].pieces[0].text == message
            &&& e is PlatformUnsupported && e->recommendation == Some(advice) ==> lines.len() == 3 && lines[2].pieces[0].text
                == "Recommendation: "@ + advice
            &&& !(e is PlatformUnsupported) ==> lines.len() == 2
        }),
{
    lemma_keys();
}

} // verus!
