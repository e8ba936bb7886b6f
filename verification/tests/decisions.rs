use std::io::{Cursor, Write};
use xray_manager::artifacts::{extract_xray_zip, validate_asset};
use xray_manager::cli::{
    check_privilege, choose_editor, confirm_purge, default_config_path, dispatch, edited_profile,
    manager_log, new_profile, parse_backend_overrides, to_operation, to_query, with_user,
    AppCommand, Command, CoreCommand, Dispatch, NodeCommand, RoutingCommand, ServiceCommand,
    SubscriptionCommand, TunCommand,
};
use xray_manager::config::{file_name, ManagerConfig, TunConfig};
use xray_manager::console::{
    error_lines, failure_of, node_list, operation_success, plan_json, shell_environment,
    shown_details, status, success, Line, Tone,
};
use xray_manager::doctor::{
    doctor_checks, tests_config, tests_health, DeepFacts, PackageFacts, TunFacts,
};
use xray_manager::domain::{ManagerState, Node};
use xray_manager::download::{
    check_address, check_response, decide_redirect, stable_release, take_chunk, HttpClient,
    Redirect,
};
use xray_manager::dto::{CheckStatus, NodeDto};
use xray_manager::error::ManagerError;
use xray_manager::execution::{
    check_early, check_removable, check_selectable, find_node, launch_request, stages, Stage,
};
use xray_manager::json::{Json, JsonObject};
use xray_manager::linux::apps::{
    compare_routes, external_ip, external_ip_text, namespace_environment, resolv_conf,
    validate_environment_key, AppNamespaceRequest,
};
use xray_manager::linux::arch::{plan_kind, ArchInstaller, PlanKind};
use xray_manager::linux::backends::{
    find_release_id, production_backends, register_production, ArchPackageAdvisor,
};
use xray_manager::linux::commands::{group_id, numeric_groups, user_home};
use xray_manager::menu::{row_paint, Key, Menu, MenuAction, Paint};
use xray_manager::operation::{required_capabilities, Operation, OperationOptions, Query};
use xray_manager::planning::{
    check_operation, plan_operation, selected_backend, validate_resource_name, Backends,
    PlanSource,
};
use xray_manager::portable::{register_portable, PortableLocalLayout};
use xray_manager::ports::{
    join_path, BackendPreferences, BackendProbe, BackendSelection, Capability, CapabilityMap,
    CapabilityStatus, CommandOutput, DownloadRequest, PlanAction, PlatformInfo, ProbeResult,
    Release, SelectionSource, UpgradeTarget,
};
use xray_manager::probe::{NodeProbeOutcome, ProbeBatch, ProbeStep};
use xray_manager::protocols::parse_uri;
use xray_manager::service::ManagerService;
use xray_manager::queries::{nodes_json, proxy_environment, status_json};
use xray_manager::registry::BackendRegistry;
use xray_manager::runner::{
    checked_diagnostic, probe_verdict, strip_tun, validation_copy, version_of,
};
use xray_manager::storage::{
    absolute_lexical, check_owned, prune_generations, show_path, PathPart, StoredGeneration,
};
use xray_manager::templates::{nftables, policy_commands};
use xray_manager::tui::{compact_error, rows_from_query, NodeRow, ProbeState, TuiModel};
use zip::write::SimpleFileOptions;

fn node(name: &str) -> Node {
    let uri = format!("trojan://secret@{name}.example:443#{name}");
    match parse_uri(&uri, "main") {
        Ok(node) => node,
        Err(error) => panic!("{}", error.message()),
    }
}

fn shown(lines: &[Line]) -> Vec<String> {
    lines
        .iter()
        .map(|line| line.pieces.iter().map(|piece| piece.text.as_str()).collect())
        .collect()
}

fn backends(supported: bool) -> Backends {
    let status = |capability: Capability| CapabilityStatus {
        capability,
        supported,
        backend_id: Some("fake".into()),
        reason: None,
    };
    Backends {
        selections: Vec::new(),
        capabilities: xray_manager::operation::capabilities().into_iter().map(status).collect(),
        os: "linux".into(),
    }
}

fn paths() -> xray_manager::ports::ManagerPaths {
    PortableLocalLayout.paths("/work", false)
}

#[test]
fn questions_change_nothing_and_every_command_is_served() {
    let commands = || {
        vec![
            Command::Status,
            Command::Doctor { quick: true },
            Command::Node { command: NodeCommand::List },
            Command::Routing { command: RoutingCommand::Validate },
            Command::Core { command: CoreCommand::List },
            Command::Service { command: ServiceCommand::Logs { lines: 100 } },
            Command::Tun { command: TunCommand::ShowRules },
            Command::App { command: AppCommand::List },
        ]
    };
    for command in commands() {
        assert!(to_query(&command).is_some());
        assert!(to_operation(&command).is_err());
        assert!(matches!(dispatch(&Some(command)), Dispatch::Ask { .. }));
    }
    assert!(matches!(dispatch(&None), Dispatch::Menu));
    assert!(matches!(dispatch(&Some(Command::Completion)), Dispatch::Completion));
    assert!(matches!(
        dispatch(&Some(Command::Subscription {
            command: SubscriptionCommand::Add { name: "main".into(), url_stdin: true }
        })),
        Dispatch::AddSubscription { name, url_stdin: true } if name == "main"
    ));
    assert!(matches!(
        dispatch(&Some(Command::Routing { command: RoutingCommand::Edit })),
        Dispatch::EditRouting
    ));
    assert!(matches!(
        dispatch(&Some(Command::App { command: AppCommand::Edit { name: "a".into() } })),
        Dispatch::EditProfile { existing: true, .. }
    ));
    assert!(matches!(
        to_query(&Command::Service { command: ServiceCommand::Logs { lines: 7 } }),
        Some(Query::ServiceLogs { lines: 7 })
    ));
}

#[test]
fn overrides_name_their_capability() {
    let overrides = parse_backend_overrides(&vec![
        "policy-routing=iproute2".into(),
        "tun=a".into(),
        "tun=b=c".into(),
    ])
    .expect("overrides");
    assert_eq!(overrides.get(Capability::PolicyRouting).map(String::as_str), Some("iproute2"));
    assert_eq!(overrides.get(Capability::Tun).map(String::as_str), Some("b=c"));
    let problem = |value: &str| {
        parse_backend_overrides(&vec![value.into()]).err().expect("a problem")
    };
    assert_eq!(
        problem("service"),
        "invalid backend override 'service', expected capability=id"
    );
    assert_eq!(problem("service="), "backend ID cannot be empty");
    assert_eq!(problem("radio=fm"), "unknown backend capability 'radio'");
}

#[test]
fn invocations_are_confirmed_and_privileged() {
    assert_eq!(
        confirm_purge(&Command::Purge, false, false).err().as_deref(),
        Some("purge requires explicit confirmation with --yes")
    );
    assert!(confirm_purge(&Command::Purge, true, false).is_ok());
    assert!(confirm_purge(&Command::Purge, false, true).is_ok());
    assert!(confirm_purge(&Command::Uninstall, false, false).is_ok());
    assert!(matches!(check_privilege(false, false), Err(ManagerError::PrivilegeRequired)));
    assert!(check_privilege(true, false).is_ok());
    assert!(matches!(
        with_user(Operation::Install { user: None }, Some("alice".into())),
        Operation::Install { user: Some(name) } if name == "alice"
    ));
    assert!(matches!(
        with_user(Operation::Install { user: Some("bob".into()) }, Some("alice".into())),
        Operation::Install { user: Some(name) } if name == "bob"
    ));
    assert_eq!(choose_editor(None, Some("nano".into()), Some("ed".into()), false), "nano");
    assert_eq!(choose_editor(None, None, None, false), "vi");
    assert_eq!(choose_editor(None, None, None, true), "notepad");
    assert_eq!(default_config_path(true, false, "/work"), "/etc/xray-manager/config.toml");
    assert_eq!(
        default_config_path(false, false, "/work"),
        "/work/.xray-manager/config/config.toml"
    );
    assert_eq!(
        manager_log(None, None, true, false, "/work"),
        ("/var/log/xray-manager/xrayctl.log".to_owned(), false)
    );
    assert_eq!(manager_log(None, Some("/l".into()), true, false, "/work"), ("/l".to_owned(), true));
    let renamed = edited_profile(new_profile("a"), "b");
    assert_eq!(renamed.err().as_deref(), Some("edited profile name must remain 'b'"));
    assert!(edited_profile(new_profile("a"), "a").is_ok());
}

#[test]
fn answers_are_told_apart() {
    let answer = success(Json::Bool(true), &vec!["careful".into()]);
    assert!(matches!(answer.member("ok"), Some(Json::Bool(true))));
    assert!(answer.member("error").is_none());
    let refusal = failure_of(&Some(ManagerError::LockContention), "busy");
    assert!(matches!(refusal.member("ok"), Some(Json::Bool(false))));
    let error = refusal.member("error").expect("an error");
    assert_eq!(
        error.member("code").and_then(|code| code.as_text()).map(String::as_str),
        Some("lock_contention")
    );
    let other = failure_of(&None, "broken");
    assert_eq!(
        other
            .member("error")
            .and_then(|error| error.member("code"))
            .and_then(|code| code.as_text())
            .map(String::as_str),
        Some("operation_failed")
    );
}

#[test]
fn every_error_has_a_code_and_a_message() {
    let cases = vec![
        (ManagerError::InvalidConfig("x".into()), "invalid_config", "invalid configuration: x"),
        (ManagerError::InvalidNode("x".into()), "invalid_node", "invalid node URI: x"),
        (
            ManagerError::InvalidSubscription("x".into()),
            "invalid_subscription",
            "invalid subscription: x",
        ),
        (ManagerError::Io("x".into()), "io_error", "I/O operation failed: x"),
        (ManagerError::Download("x".into()), "download_error", "download failed: x"),
        (ManagerError::Validation("x".into()), "validation_error", "Xray validation failed: x"),
        (ManagerError::LockContention, "lock_contention", "operation is already in progress"),
        (
            ManagerError::ManagerReleaseSourceNotConfigured,
            "manager_release_source_not_configured",
            "Manager release source is not configured.",
        ),
        (
            ManagerError::PrivilegeRequired,
            "privilege_required",
            "operation requires administrator privileges",
        ),
        (ManagerError::Other("x".into()), "operation_failed", "x"),
        (
            ManagerError::PlatformUnsupported {
                capability: Capability::Tun,
                platform: "macos".into(),
                backend: None,
                reason: "no backend".into(),
                recommendation: Some("use Linux".into()),
            },
            "platform_unsupported",
            "tun is unsupported on macos: no backend",
        ),
    ];
    for (error, code, message) in cases {
        assert_eq!(error.code(), code);
        assert_eq!(error.message(), message);
        let lines = shown(&error_lines(false, &Some(error), message));
        assert_eq!(lines[0], format!("ERROR [{code}]"));
        assert_eq!(lines[1], message);
    }
    let unsupported = Some(ManagerError::PlatformUnsupported {
        capability: Capability::Tun,
        platform: "macos".into(),
        backend: None,
        reason: "no backend".into(),
        recommendation: Some("use Linux".into()),
    });
    assert_eq!(shown(&error_lines(true, &unsupported, "m"))[2], "Recommendation: use Linux");
    assert!(shown_details(true, &unsupported).is_some());
    assert!(shown_details(false, &unsupported).is_none());
    assert!(shown_details(true, &Some(ManagerError::LockContention)).is_none());
}

#[test]
fn answers_are_shown_as_lines() {
    let dtos = vec![NodeDto::from(&node("alpha"))];
    let lines = node_list(false, &nodes_json(&dtos)).expect("lines");
    let text = shown(&lines);
    assert!(text[0].starts_with("[SUPPORTED] "));
    assert!(text[0].ends_with("  alpha"));
    assert_eq!(text[1], "  alpha.example:443  subscription=main");
    let colored = node_list(true, &nodes_json(&dtos)).expect("lines");
    assert_eq!(colored[0].pieces[0].tone, Tone::Green);
    assert_eq!(shown(&node_list(false, &nodes_json(&Vec::new())).expect("lines")), [
        "No nodes loaded."
    ]);
    assert!(node_list(false, &Json::Null).is_none());
    let service =
        ManagerService::new(ManagerConfig::default(), ManagerState::default(), backends(true));
    let value = status_json(&service.status());
    assert_eq!(shown(&status(false, &value))[..3], [
        "Installed: false",
        "Selected node: none",
        "Xray core: unknown",
    ]);
    assert_eq!(shown(&[operation_success(false, "apply")]), ["OK: apply completed"]);
    let exports = shell_environment(&proxy_environment(&ManagerConfig::default()))
        .expect("an environment");
    assert_eq!(exports[0], "export HTTP_PROXY=http://127.0.0.1:10809");
    assert_eq!(exports.len(), 4);
}

#[test]
fn plans_are_shown_with_their_kinds() {
    let installer = ArchInstaller::new(ManagerConfig::default(), &Vec::new());
    let plan = plan_json(&installer.plan_uninstall(false));
    assert_eq!(
        plan.member("operation").and_then(|o| o.as_text()).map(String::as_str),
        Some("uninstall")
    );
    let first = plan.member("actions").and_then(|a| a.item(0)).expect("an action");
    assert!(first.member("kind").and_then(|k| k.as_text()).is_some());
}

fn row(id: &str, state: ProbeState) -> NodeRow {
    NodeRow {
        id: id.into(),
        subscription: "main".into(),
        protocol: "trojan".into(),
        name: id.into(),
        unsupported: false,
        state,
    }
}

fn order(model: &TuiModel) -> Vec<&str> {
    model.nodes.iter().map(|row| row.id.as_str()).collect()
}

#[test]
fn sorting_is_stable_and_keeps_the_rows() {
    let mut model = TuiModel {
        nodes: vec![
            row("pending", ProbeState::Pending),
            row("b", ProbeState::Succeeded(20)),
            row("failed", ProbeState::Failed("x".into())),
            row("a", ProbeState::Succeeded(20)),
            row("fast", ProbeState::Succeeded(5)),
        ],
        selected: 2,
        filter: String::new(),
    };
    model.sort_by_latency();
    assert_eq!(order(&model), ["fast", "b", "a", "pending", "failed"]);
    assert_eq!(model.nodes[model.selected].id, "failed");
}

#[test]
fn a_filter_ignores_case_and_keeps_the_order() {
    let mut model = TuiModel {
        nodes: vec![
            row("ÄLPHA", ProbeState::Pending),
            row("beta", ProbeState::Pending),
            row("älpha-2", ProbeState::Pending),
        ],
        selected: 0,
        filter: "älp".into(),
    };
    assert_eq!(model.visible_indices(), [0, 2]);
    model.move_selection(1);
    assert_eq!(model.selected, 2);
    model.move_selection(isize::MAX);
    assert_eq!(model.selected, 2);
    model.move_selection(isize::MIN);
    assert_eq!(model.selected, 0);
    assert_eq!(model.visible_selection(), 0);
    model.filter = "none".into();
    assert!(model.visible_indices().is_empty());
    model.move_selection(1);
    assert_eq!(model.selected, 0);
}

fn menu() -> Menu {
    Menu::open(
        vec![row("slow", ProbeState::Succeeded(500)), row("fast", ProbeState::Succeeded(5))],
        Some("slow".into()),
        false,
    )
}

#[test]
fn only_q_quits_and_only_s_reorders() {
    let mut menu = menu();
    for key in [Key::Esc, Key::Up, Key::Down, Key::Other, Key::Char('x')] {
        assert!(!matches!(menu.key(key), MenuAction::Quit));
        assert_eq!(order(&menu.model), ["slow", "fast"]);
    }
    assert!(matches!(menu.key(Key::Char('/')), MenuAction::Nothing));
    for key in [Key::Char('q'), Key::Char('s'), Key::Backspace] {
        assert!(matches!(menu.key(key), MenuAction::Nothing));
        assert_eq!(order(&menu.model), ["slow", "fast"]);
    }
    assert_eq!(menu.model.filter, "q");
    assert!(matches!(menu.key(Key::Enter), MenuAction::Nothing));
    assert!(!menu.filter_mode);
    assert!(matches!(menu.key(Key::Char('s')), MenuAction::Nothing));
    assert_eq!(order(&menu.model), ["fast", "slow"]);
    assert!(matches!(menu.key(Key::Char('q')), MenuAction::Quit));
}

#[test]
fn failures_are_shown_and_keep_the_menu_open() {
    let mut menu = menu();
    match menu.key(Key::Enter) {
        MenuAction::Select { id, name } => {
            menu.node_selected(id, &name, Some("refused\nby the core".into()));
        }
        _ => panic!("a node should be selected"),
    }
    let notice = menu.notice.as_ref().expect("a notice");
    assert_eq!(notice.paint, Paint::Red);
    assert_eq!(notice.text, "Activation failed: refused by the core");
    assert_eq!(menu.active_node.as_deref(), Some("slow"));
    assert!(matches!(menu.key(Key::Char('r')), MenuAction::StartProbes));
    menu.probes_started(false, Some("no core".into()));
    assert_eq!(menu.notice.as_ref().expect("a notice").text, "Could not start probes: no core");
    assert!(menu.model.nodes.iter().all(|row| row.state != ProbeState::Running));
    assert!(!menu.probing);
    menu.probes_started(false, None);
    assert!(menu.probing);
    assert!(matches!(menu.key(Key::Esc), MenuAction::CancelProbes));
    let long = compact_error(&"word ".repeat(100));
    assert_eq!(long.chars().count(), 160);
    assert!(long.ends_with('…'));
}

#[test]
fn only_supported_nodes_are_selected() {
    let mut empty = Menu::open(Vec::new(), None, true);
    assert_eq!(empty.model.nodes[0].name, "No nodes loaded");
    assert_eq!(empty.model.nodes[0].state, ProbeState::Pending);
    assert!(matches!(empty.key(Key::Enter), MenuAction::Nothing));
    assert_eq!(empty.notice.expect("a notice").text, "No node is available to select");
    let mut unsupported = row("x", ProbeState::Pending);
    unsupported.unsupported = true;
    let mut menu = Menu::open(vec![unsupported], None, false);
    assert!(matches!(menu.key(Key::Enter), MenuAction::Nothing));
    assert_eq!(
        menu.notice.expect("a notice").text,
        "x is not supported by the current Xray adapter"
    );
    let shown = row("x", ProbeState::Succeeded(300));
    assert_eq!(row_paint(&shown, &None, 200, 500), Paint::Yellow);
    assert_eq!(row_paint(&shown, &Some("xyz".into()), 200, 500), Paint::Cyan);
}

#[test]
fn rows_follow_the_nodes_and_outcomes_reach_them() {
    let nodes = [node("alpha"), node("beta")];
    let dtos: Vec<NodeDto> = nodes.iter().map(NodeDto::from).collect();
    let rows = rows_from_query(&nodes_json(&dtos));
    assert_eq!(rows.len(), 2);
    assert_eq!(rows[1].name, "beta");
    let mut menu = Menu::open(rows, None, false);
    menu.outcome(NodeProbeOutcome {
        node_id: nodes[1].id.as_str().into(),
        result: ProbeResult { latency_ms: Some(84), error: None },
    });
    assert_eq!(menu.model.nodes[1].state, ProbeState::Succeeded(84));
    menu.outcome(NodeProbeOutcome {
        node_id: nodes[0].id.as_str().into(),
        result: ProbeResult { latency_ms: None, error: Some("cancelled".into()) },
    });
    assert_eq!(menu.model.nodes[0].state, ProbeState::Cancelled);
    assert_eq!(menu.model.selected, 0);
    assert!(rows_from_query(&Json::Null).is_empty());
}

#[test]
fn a_batch_has_one_outcome_of_every_node() {
    let ids: Vec<String> = (0..5).map(|index| format!("n{index}")).collect();
    let mut batch = ProbeBatch::new(ids.clone(), 2);
    let mut running: Vec<usize> = Vec::new();
    let mut most = 0;
    loop {
        match batch.step(false).0 {
            ProbeStep::Begin(place) => {
                running.push(place);
                most = most.max(running.len());
            }
            ProbeStep::Wait => {
                let place = running.pop().expect("a running probe");
                let at = batch.position(place).expect("a position");
                let reply = if place == 3 {
                    Err(ManagerError::Other("no core".into()))
                } else {
                    Ok(ProbeResult { latency_ms: Some(1), error: None })
                };
                batch.end(at, reply);
            }
            ProbeStep::Skip(_) => panic!("nothing was cancelled"),
            ProbeStep::Done => break,
        }
    }
    assert_eq!(most, 2);
    let outcomes = batch.outcomes();
    let mut probed: Vec<String> = outcomes.iter().map(|o| o.node_id.clone()).collect();
    probed.sort();
    assert_eq!(probed, ids);
    let failed = outcomes.iter().find(|o| o.node_id == "n3").expect("an outcome");
    assert!(failed.result.error.as_deref().is_some_and(|error| error.contains("no core")));
    let mut cancelled = ProbeBatch::new(ids, 2);
    assert!(matches!(cancelled.step(true).0, ProbeStep::Skip(0)));
}

#[test]
fn checks_come_before_what_is_performed() {
    let order = stages(&Operation::Apply, false);
    assert_eq!(order, [
        Stage::Plan,
        Stage::Privilege,
        Stage::Packages,
        Stage::Lock,
        Stage::Perform,
        Stage::Report,
    ]);
    assert_eq!(stages(&Operation::Apply, true), [Stage::Plan, Stage::Report]);
    let options = OperationOptions { dry_run: false, assume_yes: false };
    assert!(matches!(
        check_early(&Operation::Purge, options, &None),
        Err(ManagerError::InvalidConfig(message))
            if message == "purge requires explicit confirmation"
    ));
    assert!(matches!(
        check_early(&Operation::UpgradeManager, options, &None),
        Err(ManagerError::ManagerReleaseSourceNotConfigured)
    ));
    assert!(check_early(&Operation::Apply, options, &None).is_ok());
}

#[test]
fn a_missing_capability_is_refused() {
    let missing = backends(false);
    assert!(matches!(
        check_operation(&missing, &Operation::ServiceStart, true, true),
        Err(ManagerError::PlatformUnsupported { capability: Capability::Service, .. })
    ));
    assert!(check_operation(&backends(true), &Operation::ServiceStart, true, true).is_ok());
    assert!(check_operation(&missing, &Operation::ServiceStart, true, false).is_ok());
    assert!(required_capabilities(&Operation::TunEnable, true).contains(&Capability::Tun));
    assert_eq!(selected_backend(&missing, Capability::Service), "unavailable");
    assert!(validate_resource_name("main-1").is_ok());
    assert!(validate_resource_name("../main").is_err());
}

#[test]
fn plans_name_what_they_would_do() {
    let plan = plan_operation(
        &Operation::ServiceRestart,
        &ManagerConfig::default(),
        &paths(),
        &backends(true),
        true,
    )
    .expect("a plan");
    match plan {
        PlanSource::Ready(plan) => assert!(matches!(
            &plan.actions[0],
            PlanAction::RestartService { name } if name == "xray.service"
        )),
        _ => panic!("the plan should be ready"),
    }
    assert!(matches!(
        plan_operation(
            &Operation::Uninstall,
            &ManagerConfig::default(),
            &paths(),
            &backends(true),
            true,
        ),
        Ok(PlanSource::Uninstall { purge: false })
    ));
}

#[test]
fn nodes_are_found_by_id_and_prefix() {
    let nodes = vec![node("alpha"), node("beta")];
    let id = nodes[1].id.as_str().to_owned();
    assert_eq!(find_node(&nodes, &id).expect("a node"), 1);
    assert_eq!(find_node(&nodes, nodes[1].id.short()).expect("a node"), 1);
    assert!(find_node(&nodes, "zzz").is_err());
    assert!(check_selectable(&nodes[0]).is_ok());
    assert!(check_removable(&nodes, &Some(id), "main").is_err());
    assert!(check_removable(&nodes, &None, "main").is_ok());
    assert!(launch_request(None, &Vec::new()).is_err());
    assert!(launch_request(None, &vec!["curl".into()]).is_ok());
}

#[test]
fn the_doctor_reports_open_routes() {
    let platform = PlatformInfo {
        os: "linux".into(),
        distribution: Some("arch".into()),
        init_system: Some("systemd".into()),
        desktop: None,
    };
    let deep = DeepFacts {
        packages: PackageFacts::Known { missing: vec!["nft".into()], hint: Some("install".into()) },
        service_active: Some(true),
        missing_paths: Vec::new(),
        config_valid: Some(true),
        healthy: Some(true),
        tun: Some(TunFacts {
            interface_active: true,
            firewall_present: false,
            policy: String::new(),
        }),
    };
    let checks = doctor_checks(&Vec::new(), &platform, true, &Some(deep), true, true);
    let failing: Vec<&str> = checks
        .iter()
        .filter(|check| check.status == CheckStatus::Fail)
        .map(|check| check.id.as_str())
        .collect();
    assert!(failing.iter().any(|id| id.contains("tun")), "{failing:?}");
    assert!(checks.iter().all(|check| {
        check.status != CheckStatus::Fail || check.remediation.is_some()
    }));
}

#[test]
fn downloads_stay_on_https_and_are_bounded() {
    let https = Some("https".to_owned());
    assert_eq!(decide_redirect(0, 5, &https, "https"), Redirect::Follow);
    assert_eq!(decide_redirect(0, 5, &https, "http"), Redirect::Downgrade);
    assert_eq!(decide_redirect(5, 5, &https, "https"), Redirect::TooMany);
    assert!(check_address("https://example.com/file").is_ok());
    assert!(check_address("http://example.com/file").is_err());
    assert!(check_response(200, "200 OK", Some(4), 4).is_ok());
    assert!(check_response(404, "404 Not Found", None, 4).is_err());
    assert!(check_response(200, "200 OK", Some(5), 4).is_err());
    let mut body = Vec::new();
    assert!(take_chunk(&mut body, &vec![1, 2], 4).is_ok());
    assert!(take_chunk(&mut body, &vec![3, 4], 4).is_ok());
    assert!(take_chunk(&mut body, &vec![5], 4).is_err());
    let client = HttpClient::new(3);
    let request = DownloadRequest {
        url: "https://example.com".into(),
        max_bytes: 1,
        timeout_seconds: 1,
        max_redirects: 5,
    };
    assert_eq!(client.redirect_limit(&request), 3);
    let release = |tag: &str, prerelease| Release {
        tag: tag.into(),
        prerelease,
        assets: Vec::new(),
    };
    let stable = stable_release(&vec![release("v2-rc", true), release("v1", false)]);
    assert_eq!(stable.expect("a release").tag, "v1");
    assert!(stable_release(&vec![release("v2-rc", true)]).is_err());
}

fn archive(names: &[&str]) -> Vec<u8> {
    let mut cursor = Cursor::new(Vec::new());
    {
        let mut writer = zip::ZipWriter::new(&mut cursor);
        for name in names {
            writer.start_file(*name, SimpleFileOptions::default()).expect("file should start");
            writer.write_all(b"binary").expect("body should write");
        }
        writer.finish().expect("archive should finish");
    }
    cursor.into_inner()
}

#[test]
fn archives_hold_exactly_one_core() {
    let problem = |bytes: &[u8], max: u64| match extract_xray_zip(bytes, max) {
        Err(ManagerError::Download(message)) => message,
        other => panic!("{other:?}"),
    };
    assert_eq!(
        extract_xray_zip(&archive(&["README.md", "bin/xray", "geoip.dat"]), 6).expect("a core"),
        b"binary"
    );
    assert_eq!(problem(&archive(&["../xray"]), 6), "ZIP path traversal detected");
    assert_eq!(problem(&archive(&["xray", "a/../../x"]), 6), "ZIP path traversal detected");
    assert_eq!(
        problem(&archive(&["xray", "bin/xray.exe"]), 6),
        "ZIP contains multiple Xray executables"
    );
    assert_eq!(
        problem(&archive(&["xray"]), 5),
        "extracted Xray executable exceeds size limit"
    );
    assert_eq!(
        problem(&archive(&["README.md"]), 6),
        "ZIP does not contain an Xray executable"
    );
    assert!(problem(b"no archive", 6).starts_with("invalid ZIP: "));
    assert_eq!(
        extract_xray_zip(&archive(&["nested\\xray.exe"]), 6).expect("a core"),
        extract_xray_zip(&archive(&["nested/xray.exe"]), 6).expect("a core")
    );
    assert!(matches!(
        validate_asset(b"", 4),
        Err(ManagerError::Download(message)) if message == "asset is empty"
    ));
    assert!(matches!(
        validate_asset(b"12345", 4),
        Err(ManagerError::Download(message)) if message == "asset size limit exceeded"
    ));
    assert!(validate_asset(b"  {\"error\": 1}", 64).is_err());
}

fn parts(path: &str) -> Vec<PathPart> {
    let names = path.split('/').filter(|name| !name.is_empty());
    let mut parts = vec![PathPart::Root];
    parts.extend(names.map(|name| match name {
        "." => PathPart::Current,
        ".." => PathPart::Parent,
        name => PathPart::Named(name.into()),
    }));
    parts
}

#[test]
fn removal_stays_inside_its_root() {
    let resolved = |path: &str| show_path(&absolute_lexical(&parts(path)), '/');
    assert_eq!(resolved("/work/a/../b/./c"), "/work/b/c");
    assert_eq!(resolved("/../x"), "/x");
    let owned = |path: &str| check_owned(&parts(path), &parts("/state"), '/');
    assert_eq!(show_path(&owned("/state/a/./b").expect("a path"), '/'), "/state/a/b");
    assert!(owned("/state/a/..").is_err());
    assert!(matches!(
        owned("/state/../etc"),
        Err(ManagerError::Io(message))
            if message == "refusing to remove path outside ownership root: /etc"
    ));
    let drive = |rest: &[&str]| {
        let mut parts = vec![PathPart::Prefix("C:".into()), PathPart::Root];
        parts.extend(rest.iter().map(|name| PathPart::Named((*name).into())));
        parts
    };
    let mut above = drive(&["state"]);
    above.push(PathPart::Parent);
    above.push(PathPart::Parent);
    assert_eq!(show_path(&absolute_lexical(&above), '\\'), "C:\\");
    let inside = check_owned(&drive(&["state", "a"]), &drive(&["state"]), '\\');
    assert_eq!(show_path(&inside.expect("a path"), '\\'), "C:\\state\\a");
}

#[test]
fn pruning_keeps_the_newest() {
    let list: Vec<StoredGeneration> = [("/g/old", 1), ("/g/new", 9), ("/g/mid", 5), ("/g/cur", 0)]
        .iter()
        .map(|(path, modified)| StoredGeneration {
            path: parts(path),
            modified: *modified as i128,
        })
        .collect();
    let removed = prune_generations(&list, &Some(parts("/g/cur")), &None, 2);
    let shown: Vec<String> = removed.iter().map(|path| show_path(path, '/')).collect();
    assert_eq!(shown, ["/g/mid", "/g/old"]);
    assert!(prune_generations(&list, &Some(parts("/g/cur/")), &None, 9).is_empty());
}

#[test]
fn asset_file_names_hold_no_path_of_the_system() {
    for name in ["geoip.dat", "a.b", "1:2"] {
        assert!(file_name(name, true) && file_name(name, false), "{name}");
    }
    for name in ["", ".", "..", "a/b", "/a", "a/"] {
        assert!(!file_name(name, true) && !file_name(name, false), "{name}");
    }
    for name in ["a\\b", "c:", "C:a"] {
        assert!(!file_name(name, true) && file_name(name, false), "{name}");
    }
}

#[test]
fn diagnostics_are_bounded_and_show_no_link() {
    let long = format!("failed {}", "x".repeat(600));
    let cut = checked_diagnostic(long.as_bytes()).expect("a diagnostic");
    assert_eq!(cut.len(), 512);
    assert_eq!(
        checked_diagnostic(b"use trojan://secret@host\n\n").as_deref(),
        Some("use [redacted-uri]")
    );
    let odd = format!("a{}", "é".repeat(300));
    assert_eq!(checked_diagnostic(odd.as_bytes()), None);
    assert_eq!(
        version_of(true, b" Xray 1.8.0 (Xray)\n", b"").expect("a version"),
        "Xray 1.8.0 (Xray)"
    );
    assert!(version_of(false, b"", b"missing").is_err());
    let verdict = probe_verdict(Ok((204, "204 No Content".into())), 42);
    assert_eq!(verdict.latency_ms, Some(42));
    assert!(probe_verdict(Err("refused".into()), 42).error.is_some());
    assert!(validation_copy(b"not json").is_err());
    let kept = strip_tun(Json::Object(JsonObject::new().with("log", Json::Null)));
    assert!(kept.member("log").is_some());
}

#[test]
fn policy_keeps_to_its_table_and_fails_closed() {
    let config = ManagerConfig::default();
    let commands = policy_commands(&config);
    assert!(commands.iter().any(|command| {
        command.join(" ").contains("blackhole default table 166")
    }));
    assert!(commands.iter().any(|command| {
        command.join(" ").contains("unreachable default table 166")
    }));
    for command in &commands {
        assert!(command.contains(&"166".to_owned()), "{command:?}");
    }
    let rules = nftables(&TunConfig::default(), 7);
    assert!(!rules.contains("flush ruleset"));
}

#[test]
fn plans_keep_their_kind_and_a_removal_keeps_data() {
    let mut config = ManagerConfig::default();
    config.core.manager_repository = Some("owner/repo".into());
    let installer = ArchInstaller::new(config, &Vec::new());
    assert_eq!(plan_kind(&installer.plan_uninstall(false)), PlanKind::Removal { purge: false });
    assert_eq!(plan_kind(&installer.plan_uninstall(true)), PlanKind::Removal { purge: true });
    for target in [
        UpgradeTarget::All,
        UpgradeTarget::Core,
        UpgradeTarget::Assets,
        UpgradeTarget::Manager,
    ] {
        let plan = installer.plan_upgrade(target).expect("a plan");
        assert_eq!(plan_kind(&plan), PlanKind::Upgrade(target));
    }
    let kept = installer.plan_uninstall(false);
    assert!(!kept.actions.iter().any(|action| {
        matches!(
            action,
            PlanAction::RemoveOwnedPath { path }
                if path == "/etc/xray-manager" || path == "/var/lib/xray-manager"
        )
    }));
}

#[test]
fn listed_capabilities_have_adapters_and_are_registered() {
    for backend in production_backends() {
        for capability in &backend.capabilities {
            assert!(backend.check_adapter(*capability).is_ok());
        }
    }
    let probes: Vec<BackendProbe> = production_backends()
        .iter()
        .map(|_| BackendProbe { available: true, reason: None })
        .collect();
    let mut registry = BackendRegistry::default();
    register_production(&mut registry, &probes);
    assert_eq!(registry.descriptors().len(), probes.len());
    let preferences = BackendPreferences {
        cli: CapabilityMap::new(),
        config: CapabilityMap::new(),
        installed: CapabilityMap::new(),
    };
    let required = xray_manager::operation::capabilities();
    let (selections, statuses) =
        registry.resolve(&preferences, &required, "linux").expect("a resolution");
    assert_eq!(selections.len(), required.len());
    assert!(statuses.iter().all(|status| status.supported));
    let mut portable = BackendRegistry::default();
    register_portable(&mut portable, "macos");
    let unknown = BackendSelection {
        capability: Capability::Tun,
        backend_id: "none".into(),
        source: SelectionSource::Automatic,
    };
    assert!(portable.instantiate(&unknown, "macos").is_err());
    assert_eq!(find_release_id("NAME=Arch\nID=arch\n").as_deref(), Some("arch"));
    assert!(ArchPackageAdvisor.install_hint(&Vec::new()).is_none());
    assert!(!ArchPackageAdvisor.packages_for(&vec!["nft".into()]).is_empty());
}

fn output(status: i32, stdout: &str) -> CommandOutput {
    CommandOutput { status, stdout: stdout.into(), stderr: String::new() }
}

#[test]
fn account_records_are_read() {
    assert_eq!(group_id("xray-tun", &output(0, "xray-tun:x:991:\n")).expect("an ID"), 991);
    assert!(group_id("xray-tun", &output(2, "")).is_err());
    assert_eq!(numeric_groups(&output(0, "1000 998\n")).expect("groups"), [1000, 998]);
    assert_eq!(
        user_home("alice", &output(0, "alice:x:1000:1000::/home/alice:/bin/sh\n")).expect("home"),
        "/home/alice"
    );
}

#[test]
fn a_namespace_inherits_no_proxy() {
    let request = AppNamespaceRequest {
        uid: 1000,
        gid: 1000,
        tun_gid: 991,
        user: "alice".into(),
        home: "/home/alice".into(),
        supplementary_gids: vec![998],
        override_dns: true,
        clear_proxy_environment: true,
        working_directory: None,
        environment: vec!["KEEP=yes".into()],
        command: vec!["curl".into()],
    };
    let changes = namespace_environment(&request, true).expect("changes");
    assert!(changes.iter().any(|change| change.key == "HTTP_PROXY" && change.value.is_none()));
    assert!(changes.iter().any(|change| change.key == "all_proxy" && change.value.is_none()));
    assert!(changes.iter().any(|change| {
        change.key == "KEEP" && change.value.as_deref() == Some("yes")
    }));
    assert!(resolv_conf(&ManagerConfig::default()).contains("nameserver "));
    assert!(validate_environment_key("A_1").is_ok());
    assert!(validate_environment_key("A=B").is_err());
    assert_eq!(external_ip_text(b" 203.0.113.9\n", "direct").expect("text"), "203.0.113.9");
    assert!(compare_routes("203.0.113.9", "198.51.100.7").is_ok());
    assert!(compare_routes("203.0.113.9", "203.0.113.9").is_err());
}

/// The address that a text writes, where it writes four octets.
fn octets(text: &str) -> Option<String> {
    let parts: Vec<u8> =
        text.split('.').map(|part| part.parse::<u8>().ok()).collect::<Option<_>>()?;
    (parts.len() == 4).then_some(text.to_owned())
}

#[test]
fn external_ip_parser_accepts_only_an_ip_address() {
    let parse = |bytes: &[u8], route: &str| {
        external_ip_text(bytes, route).and_then(|text| external_ip(octets(&text), route))
    };
    assert_eq!(parse(b"203.0.113.9\n", "direct").expect("valid IPv4"), "203.0.113.9");
    assert!(parse(b"<html>error</html>", "TUN").is_err());
    assert_eq!(
        external_ip(None, "TUN").expect_err("no address").message(),
        ManagerError::Validation("TUN IP check returned an invalid IP address".into()).message(),
    );
    assert_eq!(
        parse(b"\xff", "direct").expect_err("no text").message(),
        ManagerError::Validation("direct IP check returned non-UTF-8 data".into()).message(),
    );
}

#[test]
fn paths_are_joined_as_the_system_writes_them() {
    assert_eq!(join_path(false, "/a", "b"), "/a/b");
    assert_eq!(join_path(false, "/a/", "b"), "/a/b");
    assert_eq!(join_path(false, "/a", "/b"), "/b");
    assert_eq!(join_path(false, "/a", "C:\\b"), "/a/C:\\b");
    assert_eq!(join_path(true, "C:\\a", "b"), "C:\\a\\b");
    assert_eq!(join_path(true, "C:\\a\\", "b"), "C:\\a\\b");
    assert_eq!(join_path(true, "C:/a/", "b/c"), "C:/a/b/c");
    assert_eq!(join_path(true, "C:\\a", "D:\\b"), "D:\\b");
    assert_eq!(join_path(true, "C:\\a", "D:b"), "D:b");
    assert_eq!(join_path(true, "C:\\a", "\\b"), "C:\\b");
    assert_eq!(join_path(true, "C:", "b"), "C:b");
    assert_eq!(join_path(true, "", "b"), "b");
    assert_eq!(
        PortableLocalLayout.paths("C:\\work", true).config_dir,
        "C:\\work\\.xray-manager\\config",
    );
}

#[test]
fn a_check_counts_only_where_it_is_due() {
    assert!(tests_config(&Vec::new()));
    assert!(!tests_config(&vec!["/missing".to_owned()]));
    assert!(tests_health(Some(true), true));
    assert!(!tests_health(Some(true), false));
    assert!(!tests_health(Some(false), true));
    assert!(!tests_health(None, true));
    let platform = PlatformInfo {
        os: "linux".into(),
        distribution: None,
        init_system: None,
        desktop: None,
    };
    let ids = |missing: Vec<String>, tun_enabled: bool, selected: bool| -> Vec<String> {
        let deep = DeepFacts {
            packages: PackageFacts::Known { missing: Vec::new(), hint: None },
            service_active: Some(true),
            missing_paths: missing,
            config_valid: Some(true),
            healthy: Some(true),
            tun: Some(TunFacts {
                interface_active: true,
                firewall_present: true,
                policy: String::new(),
            }),
        };
        doctor_checks(&Vec::new(), &platform, true, &Some(deep), tun_enabled, selected)
            .into_iter()
            .map(|check| check.id)
            .collect()
    };
    let all = ids(Vec::new(), true, true).len();
    assert!(ids(Vec::new(), false, true).len() < all);
    assert!(ids(Vec::new(), false, true).iter().all(|id| !id.contains("tun")));
    assert!(ids(Vec::new(), true, false).len() < all);
    assert!(ids(vec!["/missing".to_owned()], true, true).len() < all);
}
