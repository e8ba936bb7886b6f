//! Carrying out an operation: what is checked in which order, and what each
//! operation does with what it finds.

use crate::config::{AppProfile, AppProfileView, ManagerConfig};
use crate::domain::{Node, NodeView, Protocol};
use crate::dto::{OperationResultDto, OperationResultDtoView};
use crate::error::{ManagerError, ManagerErrorView};
use crate::events::{ManagerEvent, ManagerEventView};
use crate::json::{Json, JsonObject, JsonView};
use crate::operation::{Operation, OperationOptions, OperationView};
use crate::planning::{Backends, BackendsView};
use crate::ports::{
    AppLaunchRequest, AppLaunchRequestView, AppRouteTestRequest, AppRouteTestRequestView,
    AppRouteTestResult, AppRouteTestResultView, Capability, ExecutionPlan, ExecutionPlanView,
    PlanAction, PlanActionView,
};
use crate::text_map::TextMap;
use crate::config;
use crate::domain;
use crate::dto;
use crate::error;
use crate::operation;
use crate::planning;
use crate::ports;
use crate::text;
use crate::json;
use vstd::prelude::*;

verus! {

/// Why an operation is refused before anything else is looked at.
pub open spec fn early_refusal(
    o: OperationView,
    options: OperationOptions,
    manager_repository: Option<Seq<char>>,
) -> Option<ManagerErrorView> {
    if o is UpgradeManager && manager_repository is None {
        Some(ManagerErrorView::ManagerReleaseSourceNotConfigured)
    } else if o is Purge && !options.dry_run && !options.assume_yes {
        Some(ManagerErrorView::InvalidConfig("purge requires explicit confirmation"@))
    } else {
        None
    }
}

/// Checks that the manager can be upgraded at all and that a purge is confirmed.
pub fn check_early(
    operation: &Operation,
    options: OperationOptions,
    manager_repository: &Option<String>,
) -> (r: Result<(), ManagerError>)
    ensures
        match r {
            Ok(_) => early_refusal(operation@, options, text::opt_text(*manager_repository)) is None,
            Err(e) => early_refusal(operation@, options, text::opt_text(*manager_repository)) == Some(e@),
        },
{
    if matches!(operation, Operation::UpgradeManager) && manager_repository.is_none() {
        return Err(ManagerError::ManagerReleaseSourceNotConfigured);
    }
    if matches!(operation, Operation::Purge) && !options.dry_run && !options.assume_yes {
        return Err(ManagerError::InvalidConfig(text::owned("purge requires explicit confirmation")));
    }
    Ok(())
}

/// What is done for an operation, in this order.
#[derive(Debug, Clone, Copy, PartialEq, Eq, Structural)]
pub enum Stage {
    /// The plan is made.
    Plan,
    /// An administrator is asked for.
    Privilege,
    /// The packages that the plan asks for must be there.
    Packages,
    /// The manager lock is taken.
    Lock,
    /// The operation is performed.
    Perform,
    /// The result is reported.
    Report,
}

/// The operations that run applications and leave the manager's files alone.
pub open spec fn runs_unlocked(o: OperationView) -> bool {
    o is AppRun || o is AppTest
}

/// The stages of an operation.
pub open spec fn stages_of(o: OperationView, dry_run: bool) -> Seq<Stage> {
    if dry_run {
        seq![Stage::Plan, Stage::Report]
    } else {
        let privilege = if operation::is_unprivileged(o) {
            Seq::empty()
        } else {
            seq![Stage::Privilege]
        };
        let lock = if runs_unlocked(o) {
            Seq::empty()
        } else {
            seq![Stage::Lock]
        };
        seq![Stage::Plan] + privilege + seq![Stage::Packages] + lock + seq![
            Stage::Perform,
            Stage::Report,
        ]
    }
}

/// The stages of an operation.
pub fn stages(operation: &Operation, dry_run: bool) -> (r: Vec<Stage>)
    ensures
        r@ == stages_of(operation@, dry_run),
{
    let mut r: Vec<Stage> = Vec::new();
    r.push(Stage::Plan);
    if !dry_run {
        if operation::operation_requires_administrator(operation) {
            r.push(Stage::Privilege);
        }
        r.push(Stage::Packages);
        if !matches!(operation, Operation::AppRun { .. } | Operation::AppTest { .. }) {
            r.push(Stage::Lock);
        }
        r.push(Stage::Perform);
    }
    r.push(Stage::Report);
    assert(r@ =~= stages_of(operation@, dry_run));
    r
}

/// A dry run neither takes the lock, asks for privileges nor performs anything.
pub proof fn law_dry_run_changes_nothing(o: OperationView)
    ensures
        !stages_of(o, true).contains(Stage::Perform),
        !stages_of(o, true).contains(Stage::Lock),
        !stages_of(o, true).contains(Stage::Privilege),
{
}

/// Whatever is performed is planned before, and behind the lock unless it runs
/// an application, and behind the check for an administrator unless it works
/// on the user's own files.
pub proof fn law_checks_come_first(o: OperationView, i: int)
    requires
        0 <= i < stages_of(o, false).len(),
        stages_of(o, false)[i] == Stage::Perform,
    ensures
        stages_of(o, false).take(i).contains(Stage::Plan),
        stages_of(o, false).take(i).contains(Stage::Packages),
        operation::is_unprivileged(o) || stages_of(o, false).take(i).contains(Stage::Privilege),
        runs_unlocked(o) || stages_of(o, false).take(i).contains(Stage::Lock),
{
    let s = stages_of(o, false);
    let t = s.take(i);
    assert(t[0] == Stage::Plan);
    if operation::is_unprivileged(o) {
        assert(t[1] == Stage::Packages);
        if !runs_unlocked(o) {
            assert(t[2] == Stage::Lock);
        }
    } else {
        assert(t[1] == Stage::Privilege);
        assert(t[2] == Stage::Packages);
        if !runs_unlocked(o) {
            assert(t[3] == Stage::Lock);
        }
    }
}

/// Checks that an administrator runs the manager.
pub fn check_privilege(elevated: bool) -> (r: Result<(), ManagerError>)
    ensures
        match r {
            Ok(_) => elevated,
            Err(e) => !elevated && e@ == ManagerErrorView::PrivilegeRequired,
        },
{
    if elevated {
        Ok(())
    } else {
        Err(ManagerError::PrivilegeRequired)
    }
}

/// The packages that a plan asks for first.
pub open spec fn asked_packages(actions: Seq<PlanActionView>) -> Option<Seq<Seq<char>>>
    decreases actions.len(),
{
    if actions.len() == 0 {
        None
    } else {
        match actions[0] {
            PlanActionView::RequirePackages { packages } => Some(packages),
            _ => asked_packages(actions.drop_first()),
        }
    }
}

/// The packages that a plan asks for.
pub fn required_packages(plan: &ExecutionPlan) -> (r: Option<&Vec<String>>)
    ensures
        match r {
            Some(v) => asked_packages(plan@.actions) == Some(text::texts(v@)),
            None => asked_packages(plan@.actions) is None,
        },
{
    let ghost all = ports::plan_action_views(plan.actions@);
    let mut i: usize = 0;
    assert(all.skip(0) =~= all);
    while i < plan.actions.len()
        invariant
            i <= plan.actions@.len(),
            all == ports::plan_action_views(plan.actions@),
            asked_packages(all) == asked_packages(all.skip(i as int)),
        decreases plan.actions@.len() - i,
    {
        proof {
            assert(all.skip(i as int)[0] == plan.actions@[i as int]@);
            assert(all.skip(i as int).drop_first() =~= all.skip(i + 1));
        }
        match &plan.actions[i] {
            PlanAction::RequirePackages { packages } => return Some(packages),
            _ => {},
        }
        i += 1;
    }
    None
}

/// An installation that lacks packages asks for exactly these, so that it is
/// refused before anything is done.
pub proof fn law_missing_packages_stop_installation(
    plan: ExecutionPlanView,
    packages: Seq<Seq<char>>,
    user: Option<Seq<char>>,
)
    requires
        packages.len() > 0,
        planning::completed_plan(plan, packages, user) is Ok,
    ensures
        asked_packages(planning::completed_plan(plan, packages, user)->Ok_0.actions) == Some(packages),
{
    let actions = planning::completed_plan(plan, packages, user)->Ok_0.actions;
    assert(actions[0] == PlanActionView::RequirePackages { packages });
}

/// The error of missing packages, with how to install them.
pub open spec fn packages_error(
    packages: Seq<Seq<char>>,
    hint: Option<Seq<char>>,
    b: BackendsView,
) -> ManagerErrorView {
    ManagerErrorView::PlatformUnsupported {
        capability: Capability::Install,
        platform: b.os,
        backend: match planning::first_selection(b.selections, Capability::Install) {
            Some(s) => Some(s.backend_id),
            None => None,
        },
        reason: "required packages are missing"@,
        recommendation: Some(
            "Install them explicitly, then repeat the command: "@ + text::text_or(
                hint,
                "install packages: "@ + text::joined(packages, ", "@),
            ),
        ),
    }
}

/// The error of missing packages.
pub fn missing_packages(packages: &Vec<String>, hint: Option<String>, b: &Backends) -> (r: ManagerError)
    ensures
        r@ == packages_error(text::texts(packages@), text::opt_text(hint), b@),
{
    let hint = match hint {
        Some(hint) => hint,
        None => text::concat("install packages: ", text::join(packages, ", ").as_str()),
    };
    let backend = match planning::find_selection(&b.selections, Capability::Install) {
        Some(s) => Some(s.backend_id.clone()),
        None => None,
    };
    ManagerError::PlatformUnsupported {
        capability: Capability::Install,
        platform: b.os.clone(),
        backend,
        reason: text::owned("required packages are missing"),
        recommendation: Some(
            text::concat("Install them explicitly, then repeat the command: ", hint.as_str()),
        ),
    }
}

/// The warnings of an operation, with that of an installation without a node.
pub open spec fn final_warnings(
    o: OperationView,
    options: OperationOptions,
    selected: Option<Seq<char>>,
    warnings: Seq<Seq<char>>,
) -> Seq<Seq<char>> {
    if !options.dry_run && o is Install && selected is None {
        warnings.push(
            "Xray is running with a validated safe blackhole outbound; add and refresh a subscription, then select a node"@,
        )
    } else {
        warnings
    }
}

/// The result of an operation.
pub open spec fn result_of(
    o: OperationView,
    options: OperationOptions,
    plan: ExecutionPlanView,
    data: Option<JsonView>,
    selected: Option<Seq<char>>,
    warnings: Seq<Seq<char>>,
) -> OperationResultDtoView {
    OperationResultDtoView {
        operation: operation::operation_name(o),
        changed: !options.dry_run && !(o is AppTest),
        plan: if options.dry_run {
            Some(plan)
        } else {
            None
        },
        data,
        warnings: final_warnings(o, options, selected, warnings),
    }
}

/// The result of an operation; `selected` is the node that is now selected.
pub fn operation_result(
    operation: &Operation,
    options: OperationOptions,
    plan: ExecutionPlan,
    data: Option<Json>,
    selected: &Option<String>,
    warnings: Vec<String>,
) -> (r: OperationResultDto)
    ensures
        r@ == result_of(
            operation@,
            options,
            plan@,
            dto::opt_json(data),
            text::opt_text(*selected),
            text::texts(warnings@),
        ),
{
    let mut warnings = warnings;
    if !options.dry_run && matches!(operation, Operation::Install { .. }) && selected.is_none() {
        let warning = text::owned(
            "Xray is running with a validated safe blackhole outbound; add and refresh a subscription, then select a node",
        );
        proof {
            text::lemma_texts_push(warnings@, warning);
        }
        warnings.push(warning);
    }
    OperationResultDto {
        operation: text::owned(operation.name()),
        changed: !options.dry_run && !matches!(operation, Operation::AppTest { .. }),
        plan: if options.dry_run {
            Some(plan)
        } else {
            None
        },
        data,
        warnings,
    }
}

/// The event that ends an operation.
pub open spec fn end_event(name: Seq<char>, error: Option<ManagerErrorView>) -> ManagerEventView {
    match error {
        None => ManagerEventView::OperationFinished { operation: name },
        Some(e) => ManagerEventView::OperationFailed { operation: name, code: error::error_code(e) },
    }
}

/// The event that ends an operation.
pub fn finish_event(name: &str, error: Option<&ManagerError>) -> (r: ManagerEvent)
    ensures
        r@ == end_event(
            name@,
            match error {
                Some(e) => Some(e@),
                None => None,
            },
        ),
{
    match error {
        None => ManagerEvent::OperationFinished { operation: text::owned(name) },
        Some(e) => ManagerEvent::OperationFailed { operation: text::owned(name), code: text::owned(e.code()) },
    }
}

/// Whether a prefix stands for the node.
pub open spec fn prefix_matches(n: NodeView, prefix: Seq<char>) -> bool {
    text::has_prefix(n.id, prefix)
}

/// `i` is the one node that the prefix stands for.
pub open spec fn only_match(nodes: Seq<NodeView>, prefix: Seq<char>, i: int) -> bool {
    &&& 0 <= i < nodes.len()
    &&& prefix_matches(nodes[i], prefix)
    &&& forall|j: int| 0 <= j < nodes.len() && j != i ==> !prefix_matches(#[trigger] nodes[j], prefix)
}

pub open spec fn no_match(nodes: Seq<NodeView>, prefix: Seq<char>) -> bool {
    forall|j: int| 0 <= j < nodes.len() ==> !prefix_matches(#[trigger] nodes[j], prefix)
}

/// Finds the node that an ID or a unique prefix of one stands for.
pub fn find_node(nodes: &Vec<Node>, id: &str) -> (r: Result<usize, ManagerError>)
    ensures
        match r {
            Ok(i) => only_match(domain::node_views(nodes@), id@, i as int),
            Err(e) => if no_match(domain::node_views(nodes@), id@) {
                e@ == ManagerErrorView::InvalidNode("node '"@ + id@ + "' was not found"@)
            } else {
                (forall|i: int| !only_match(domain::node_views(nodes@), id@, i)) && e@
                    == ManagerErrorView::InvalidNode("node ID prefix '"@ + id@ + "' is ambiguous"@)
            },
        },
{
    let ghost views = domain::node_views(nodes@);
    let mut found: Option<usize> = None;
    let mut i: usize = 0;
    while i < nodes.len()
        invariant
            i <= nodes@.len(),
            views == domain::node_views(nodes@),
            match found {
                Some(k) => k < i && prefix_matches(views[k as int], id@) && forall|j: int|
                    0 <= j < i && j != k ==> !prefix_matches(#[trigger] views[j], id@),
                None => forall|j: int| 0 <= j < i ==> !prefix_matches(#[trigger] views[j], id@),
            },
        decreases nodes@.len() - i,
    {
        assert(views[i as int] == nodes@[i as int]@);
        if text::starts_with(nodes[i].id.as_str(), id) {
            match found {
                Some(k) => {
                    proof {
                        assert(prefix_matches(views[k as int], id@));
                        assert(prefix_matches(views[i as int], id@));
                        assert forall|m: int| !only_match(views, id@, m) by {
                            if only_match(views, id@, m) {
                                assert(m == k || !prefix_matches(views[k as int], id@));
                                assert(m == i || !prefix_matches(views[i as int], id@));
                            }
                        }
                    }
                    return Err(
                        ManagerError::InvalidNode(
                            text::concat3("node ID prefix '", id, "' is ambiguous"),
                        ),
                    );
                },
                None => {
                    found = Some(i);
                },
            }
        }
        i += 1;
    }
    match found {
        Some(k) => Ok(k),
        None => Err(ManagerError::InvalidNode(text::concat3("node '", id, "' was not found"))),
    }
}

/// Whether a node cannot be activated for what it was warned of.
pub open spec fn unconfirmed(n: NodeView) -> bool {
    n.protocol == Protocol::Hysteria2 && n.warnings.len() > 0
}

/// Checks that a node can be activated.
pub fn check_selectable(node: &Node) -> (r: Result<(), ManagerError>)
    ensures
        match r {
            Ok(_) => !unconfirmed(node@),
            Err(e) => unconfirmed(node@) && e@ == ManagerErrorView::Validation(
                "Hysteria2 node has unconfirmed parameters: "@ + text::joined(node@.warnings, ", "@),
            ),
        },
{
    assert(text::texts(node.warnings@).len() == node.warnings@.len());
    if node.protocol == Protocol::Hysteria2 && node.warnings.len() > 0 {
        Err(
            ManagerError::Validation(
                text::concat(
                    "Hysteria2 node has unconfirmed parameters: ",
                    text::join(&node.warnings, ", ").as_str(),
                ),
            ),
        )
    } else {
        Ok(())
    }
}

/// The first node with a whole ID.
pub fn find_selected(nodes: &Vec<Node>, id: &Option<String>) -> (r: Option<usize>)
    ensures
        match r {
            Some(i) => id is Some && domain::first_with_id(domain::node_views(nodes@), id->0@, i as int),
            None => id is None || forall|j: int|
                0 <= j < nodes@.len() ==> (#[trigger] domain::node_views(nodes@)[j]).id != id->0@,
        },
{
    let ghost views = domain::node_views(nodes@);
    match id {
        Some(wanted) => {
            let mut i: usize = 0;
            while i < nodes.len()
                invariant
                    i <= nodes@.len(),
                    views == domain::node_views(nodes@),
                    *id == Some(*wanted),
                    forall|j: int| 0 <= j < i ==> (#[trigger] views[j]).id != wanted@,
                decreases nodes@.len() - i,
            {
                assert(views[i as int] == nodes@[i as int]@);
                if text::same(nodes[i].id.as_str(), wanted.as_str()) {
                    return Some(i);
                }
                i += 1;
            }
            None
        },
        None => None,
    }
}

/// Whether a subscription holds the selected node.
pub open spec fn holds_selected(
    nodes: Seq<NodeView>,
    selected: Option<Seq<char>>,
    name: Seq<char>,
) -> bool {
    selected matches Some(id) && exists|i: int|
        0 <= i < nodes.len() && (#[trigger] nodes[i]).id == id && nodes[i].subscription == name
}

/// Checks that a subscription can be removed: it must not hold the selected node.
pub fn check_removable(nodes: &Vec<Node>, selected: &Option<String>, name: &str) -> (r: Result<
    (),
    ManagerError,
>)
    ensures
        match r {
            Ok(_) => !holds_selected(domain::node_views(nodes@), text::opt_text(*selected), name@),
            Err(e) => holds_selected(domain::node_views(nodes@), text::opt_text(*selected), name@) && e@
                == ManagerErrorView::InvalidConfig(
                "cannot remove a subscription containing the selected node; select another node first"@,
            ),
        },
{
    let ghost views = domain::node_views(nodes@);
    match selected {
        Some(id) => {
            let mut i: usize = 0;
            while i < nodes.len()
                invariant
                    i <= nodes@.len(),
                    views == domain::node_views(nodes@),
                    text::opt_text(*selected) == Some(id@),
                    forall|j: int|
                        0 <= j < i ==> !((#[trigger] views[j]).id == id@ && views[j].subscription
                            == name@),
                decreases nodes@.len() - i,
            {
                assert(views[i as int] == nodes@[i as int]@);
                if text::same(nodes[i].id.as_str(), id.as_str()) && text::same(
                    nodes[i].subscription.as_str(),
                    name,
                ) {
                    return Err(
                        ManagerError::InvalidConfig(
                            text::owned(
                                "cannot remove a subscription containing the selected node; select another node first",
                            ),
                        ),
                    );
                }
                i += 1;
            }
            Ok(())
        },
        None => Ok(()),
    }
}

/// Checks that TUN routing is up.
pub fn check_tun_active(policy_active: bool, interface_active: bool, interface: &str) -> (r: Result<
    (),
    ManagerError,
>)
    ensures
        match r {
            Ok(_) => policy_active && interface_active,
            Err(e) => if !policy_active {
                e@ == ManagerErrorView::Other(
                    "selective TUN policy is not active; run `sudo xrayctl tun enable`"@,
                )
            } else {
                !interface_active && e@ == ManagerErrorView::Other(
                    "TUN interface "@ + interface@ + " is not active"@,
                )
            },
        },
{
    if !policy_active {
        return Err(
            ManagerError::Other(
                text::owned("selective TUN policy is not active; run `sudo xrayctl tun enable`"),
            ),
        );
    }
    if !interface_active {
        return Err(ManagerError::Other(text::concat3("TUN interface ", interface, " is not active")));
    }
    Ok(())
}

/// `i` is the first profile of the name.
pub open spec fn first_profile(profiles: Seq<AppProfileView>, name: Seq<char>, i: int) -> bool {
    &&& 0 <= i < profiles.len()
    &&& profiles[i].name == name
    &&& forall|j: int| 0 <= j < i ==> (#[trigger] profiles[j]).name != name
}

/// Finds a profile by name.
pub fn find_profile(profiles: &Vec<AppProfile>, name: &str) -> (r: Result<usize, ManagerError>)
    ensures
        match r {
            Ok(i) => first_profile(config::app_profile_views(profiles@), name@, i as int),
            Err(e) => (forall|j: int|
                0 <= j < profiles@.len() ==> (#[trigger] config::app_profile_views(profiles@)[j]).name
                    != name@) && e@ == ManagerErrorView::InvalidConfig(
                "app profile '"@ + name@ + "' was not found"@,
            ),
        },
{
    let ghost views = config::app_profile_views(profiles@);
    let mut i: usize = 0;
    while i < profiles.len()
        invariant
            i <= profiles@.len(),
            views == config::app_profile_views(profiles@),
            forall|j: int| 0 <= j < i ==> (#[trigger] views[j]).name != name@,
        decreases profiles@.len() - i,
    {
        assert(views[i as int] == profiles@[i as int]@);
        if text::same(profiles[i].name.as_str(), name) {
            return Ok(i);
        }
        i += 1;
    }
    Err(ManagerError::InvalidConfig(text::concat3("app profile '", name, "' was not found")))
}

/// What is launched for a profile and a command: the command, or where it is
/// empty that of the profile. Without a profile proxy variables are cleared.
pub open spec fn launch_of(profile: Option<AppProfileView>, command: Seq<Seq<char>>) -> Option<
    AppLaunchRequestView,
> {
    let words = if command.len() > 0 {
        command
    } else {
        match profile {
            Some(p) => p.command,
            None => Seq::empty(),
        }
    };
    if words.len() == 0 {
        None
    } else {
        Some(
            AppLaunchRequestView {
                command: words,
                user: Seq::empty(),
                override_dns: profile matches Some(p) && p.override_dns,
                clear_proxy_environment: profile matches Some(p) ==> p.clear_proxy_environment,
                working_directory: match profile {
                    Some(p) => p.working_directory,
                    None => None,
                },
                environment: match profile {
                    Some(p) => p.environment,
                    None => Map::empty(),
                },
            },
        )
    }
}

/// What to launch for a profile and a command.
pub fn launch_request(profile: Option<AppProfile>, command: &Vec<String>) -> (r: Result<
    AppLaunchRequest,
    ManagerError,
>)
    ensures
        match r {
            Ok(q) => launch_of(config::opt_app_profile(profile), text::texts(command@)) == Some(q@),
            Err(e) => launch_of(config::opt_app_profile(profile), text::texts(command@)) is None && e@
                == ManagerErrorView::InvalidConfig("app run requires a profile or command"@),
        },
{
    assert(text::texts(command@).len() == command@.len());
    let words = if command.len() > 0 {
        text::copy_texts(command)
    } else {
        match &profile {
            Some(p) => text::copy_texts(&p.command),
            None => {
                let none: Vec<String> = Vec::new();
                proof {
                    text::lemma_texts_empty(none@);
                }
                none
            },
        }
    };
    assert(text::texts(words@).len() == words@.len());
    if words.len() == 0 {
        return Err(
            ManagerError::InvalidConfig(text::owned("app run requires a profile or command")),
        );
    }
    let request = match profile {
        Some(p) => AppLaunchRequest {
            command: words,
            user: String::new(),
            override_dns: p.override_dns,
            clear_proxy_environment: p.clear_proxy_environment,
            working_directory: p.working_directory,
            environment: p.environment,
        },
        None => AppLaunchRequest {
            command: words,
            user: String::new(),
            override_dns: false,
            clear_proxy_environment: true,
            working_directory: None,
            environment: TextMap::new(),
        },
    };
    Ok(request)
}

/// Checks the exit code of a launched application.
pub fn check_exit(code: i32) -> (r: Result<(), ManagerError>)
    ensures
        match r {
            Ok(_) => code == 0,
            Err(e) => code != 0 && e@ == ManagerErrorView::Other(
                "application exited with status "@ + text::signed_decimal(code as int),
            ),
        },
{
    if code == 0 {
        Ok(())
    } else {
        Err(
            ManagerError::Other(
                text::concat("application exited with status ", text::signed_decimal_of(code as i64).as_str()),
            ),
        )
    }
}

/// The route test of a profile.
pub open spec fn route_test_of(override_dns: bool, timeout: u64) -> AppRouteTestRequestView {
    AppRouteTestRequestView {
        user: Seq::empty(),
        override_dns,
        url: "https://api.ipify.org"@,
        timeout_seconds: timeout,
    }
}

/// The route test of a profile. Its command is not launched.
pub fn route_test_request(profile: &AppProfile, config: &ManagerConfig) -> (r: AppRouteTestRequest)
    ensures
        r@ == route_test_of(profile.override_dns, config.general.request_timeout_seconds),
{
    AppRouteTestRequest {
        user: String::new(),
        override_dns: profile.override_dns,
        url: text::owned("https://api.ipify.org"),
        timeout_seconds: config.general.request_timeout_seconds,
    }
}

/// The result of a route test as JSON.
pub open spec fn route_test_json(t: AppRouteTestResultView) -> JsonView {
    JsonView::Object(
        Map::<Seq<char>, JsonView>::empty().insert("direct_ip"@, JsonView::Text(t.direct_ip)).insert(
            "routed_ip"@,
            JsonView::Text(t.routed_ip),
        ).insert("routes_differ"@, JsonView::Bool(t.routes_differ)),
    )
}

/// The result of a route test as JSON.
pub fn route_test_data(t: &AppRouteTestResult) -> (r: Json)
    ensures
        r@ == route_test_json(t@),
{
    Json::Object(
        JsonObject::new().with("direct_ip", json::text(t.direct_ip.as_str())).with(
            "routed_ip",
            json::text(t.routed_ip.as_str()),
        ).with("routes_differ", Json::Bool(t.routes_differ)),
    )
}

} // verus!
