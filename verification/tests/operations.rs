use xray_manager::activation::{Component, ServiceVerb};
use xray_manager::config::{ManagerConfig, SubscriptionConfig};
use xray_manager::domain::{seal_text, secret_str, ManagerState, Node};
use xray_manager::error::ManagerError;
use xray_manager::execution::{required_packages, Stage};
use xray_manager::fake::FakeIdentityManager;
use xray_manager::json::Json;
use xray_manager::linux::apps::LinuxMountIsolation;
use xray_manager::linux::arch::ArchInstaller;
use xray_manager::linux::backends::{production_backends, ArchPackageAdvisor, LinuxFhsLayout};
use xray_manager::linux::commands::SystemdServiceManager;
use xray_manager::linux::policy::{
    IpRoutePolicyManager, LinuxTunManager, NftablesFirewallManager, PolicyEffect,
};
use xray_manager::operation::{required_capabilities, Operation, OperationOptions};
use xray_manager::planning::{blocking_requirements, complete_install_plan, Backends};
use xray_manager::portable::{PortableBackendFactory, PortableLocalLayout};
use xray_manager::ports::{
    state_backend_preferences, BackendSelection, Capability, ProbeResult, SelectionSource,
};
use xray_manager::protocols::parse_uri;
use xray_manager::render::read_fragment;
use xray_manager::service::{Asked, ManagerService};
use xray_manager::tasks::{task, task_warnings, Task};

fn service() -> ManagerService {
    let backends = Backends {
        selections: Vec::new(),
        capabilities: Vec::new(),
        os: "linux".into(),
    };
    ManagerService::new(ManagerConfig::default(), ManagerState::default(), backends)
}

fn node(password: &str) -> Node {
    match parse_uri(&format!("trojan://{password}@host.example:443#Name"), "main") {
        Ok(node) => node,
        Err(error) => panic!("{}", error.message()),
    }
}

fn answer(asked: &Asked) -> String {
    match service().query(asked) {
        Ok(json) => format!("{json:?}"),
        Err(error) => panic!("{}", error.message()),
    }
}

fn words(program: &xray_manager::program::Program<PolicyEffect>) -> Vec<PolicyEffect> {
    program.main.iter().map(|step| step.effect).collect()
}

#[test]
fn answers_hide_secrets() {
    let mut other = node("other");
    other.id = node("first").id;
    let first = answer(&Asked::Nodes(vec![node("first")]));
    assert_eq!(first, answer(&Asked::Nodes(vec![other])));
    assert!(!first.contains("first"));
    let probed = Asked::NodeProbe {
        node: node("first"),
        result: ProbeResult {
            latency_ms: Some(7),
            error: None,
        },
    };
    assert!(!answer(&probed).contains("first"));
    let subscription = |url: &str| SubscriptionConfig {
        name: "main".into(),
        enabled: true,
        url: url.into(),
        format: "auto".into(),
    };
    let shown = answer(&Asked::Subscriptions(vec![subscription("https://a.example/token")]));
    assert_eq!(
        shown,
        answer(&Asked::Subscriptions(vec![subscription("https://b.example/other")]))
    );
    assert!(!shown.contains("token"));
}

#[test]
fn lists_are_answered_in_the_order_of_their_names() {
    let subscription = |name: &str, enabled: bool| SubscriptionConfig {
        name: name.into(),
        enabled,
        url: format!("https://{name}.example"),
        format: "auto".into(),
    };
    let list = vec![
        subscription("main", true),
        subscription("backup", true),
        subscription("zoo", true),
        subscription("backup", false),
    ];
    let answer = match service().query(&Asked::Subscriptions(list)) {
        Ok(answer) => answer,
        Err(error) => panic!("{}", error.message()),
    };
    let mut names = Vec::new();
    let mut at = 0;
    while let Some(item) = answer.item(at) {
        let name = item.member("name").and_then(|name| name.as_text()).expect("a name");
        names.push((name.clone(), matches!(item.member("enabled"), Some(Json::Bool(true)))));
        assert!(item.member("format").is_some() && item.member("url").is_none());
        at += 1;
    }
    let shown: Vec<(&str, bool)> = names.iter().map(|(name, on)| (name.as_str(), *on)).collect();
    assert_eq!(shown, [("backup", true), ("backup", false), ("main", true), ("zoo", true)]);
}

#[test]
fn answers_follow_state_and_configuration() {
    let mut service = service();
    assert!(!service.status().installed);
    service.state.current_core_version = Some("v1".into());
    assert!(service.status().installed);
    match service.query(&Asked::Core) {
        Ok(json) => match json.member("current") {
            Some(Json::Text(version)) => assert_eq!(version, "v1"),
            _ => panic!("the version is a text"),
        },
        Err(error) => panic!("{}", error.message()),
    }
    match service.query(&Asked::ProxyEnv) {
        Ok(json) => match json.member("ALL_PROXY") {
            Some(Json::Text(address)) => assert_eq!(address, "socks5h://127.0.0.1:10808"),
            _ => panic!("the address is a text"),
        },
        Err(error) => panic!("{}", error.message()),
    }
    assert!(service.query(&Asked::AssetShow { id: service.config.assets[0].id.clone() }).is_ok());
    match service.query(&Asked::AssetShow { id: "none".into() }) {
        Err(ManagerError::InvalidConfig(reason)) => assert_eq!(reason, "asset 'none' was not found"),
        _ => panic!("an unknown asset is refused"),
    }
}

#[test]
fn service_refuses_before_it_begins() {
    let options = OperationOptions {
        dry_run: false,
        assume_yes: false,
    };
    let service = service();
    assert!(matches!(
        service.execute(&Operation::Purge, options),
        Err(ManagerError::InvalidConfig(_))
    ));
    assert!(matches!(
        service.execute(&Operation::UpgradeManager, options),
        Err(ManagerError::ManagerReleaseSourceNotConfigured)
    ));
    match service.execute(&Operation::Apply, options) {
        Ok(stages) => assert_eq!(
            stages,
            [
                Stage::Plan,
                Stage::Privilege,
                Stage::Packages,
                Stage::Lock,
                Stage::Perform,
                Stage::Report
            ]
        ),
        Err(error) => panic!("{}", error.message()),
    }
    let paths = LinuxFhsLayout.paths();
    assert!(matches!(
        service.plan(&Operation::ServiceStart, &paths),
        Err(ManagerError::PlatformUnsupported {
            capability: Capability::Service,
            ..
        })
    ));
    assert!(service
        .plan(&Operation::SubscriptionRefresh { name: None }, &paths)
        .is_ok());
}

#[test]
fn managers_make_their_commands() {
    let config = ManagerConfig::default();
    assert!(words(&NftablesFirewallManager.enable(&config)).contains(&PolicyEffect::Load));
    assert_eq!(words(&NftablesFirewallManager.disable()), [PolicyEffect::Drop]);
    assert_eq!(
        NftablesFirewallManager.show().args,
        ["list", "table", "inet", "xray_manager"]
    );
    assert!(words(&IpRoutePolicyManager.enable(&config)).contains(&PolicyEffect::Mark { ipv6: true }));
    assert!(words(&IpRoutePolicyManager.disable(&config))
        .contains(&PolicyEffect::Flush { ipv6: false }));
    assert!(words(&IpRoutePolicyManager.attach_tun(&config)).contains(&PolicyEffect::AwaitInterface));
    assert!(words(&IpRoutePolicyManager.detach_tun(&config))
        .contains(&PolicyEffect::Detach { ipv6: false }));
    assert_eq!(IpRoutePolicyManager.show(&config)[0], ["rule", "show"]);
    assert_eq!(LinuxTunManager.status("xray0").args, ["link", "show", "dev", "xray0"]);
    assert!(LinuxMountIsolation.supported(true, true));
    assert!(!LinuxMountIsolation.supported(true, false));
    assert_eq!(
        SystemdServiceManager.command(ServiceVerb::Restart, "xray.service").args,
        ["restart", "xray.service"]
    );
    assert_eq!(
        SystemdServiceManager.is_active("xray.service").args,
        ["is-active", "--quiet", "xray.service"]
    );
    assert_eq!(SystemdServiceManager.logs("xray.service", 5).args[3], "5");
}

#[test]
fn only_missing_programs_are_asked_for() {
    let mut found = ArchPackageAdvisor.requirements();
    assert!(ArchPackageAdvisor.missing_requirements(&found).is_empty());
    found.retain(|program| program != "ip" && program != "mount");
    assert_eq!(ArchPackageAdvisor.missing_requirements(&found), ["ip", "mount"]);
}

#[test]
fn portable_hosts_have_only_a_layout() {
    assert_eq!(
        PortableLocalLayout.paths("/work", false).state_dir,
        "/work/.xray-manager/state"
    );
    assert_eq!(PortableBackendFactory.descriptor("macos").platform, "macos");
    assert!(PortableBackendFactory.check_adapter(Capability::Layout, "macos").is_ok());
    assert!(PortableBackendFactory.check_adapter(Capability::Tun, "macos").is_err());
    assert!(FakeIdentityManager.ensure_system_identity("xray", &Vec::new()).is_ok());
    assert!(FakeIdentityManager.set_ownership("/state", "xray", "xray", true).is_ok());
}

#[test]
fn only_installation_applies_plans() {
    for operation in [
        Operation::Install { user: None },
        Operation::Repair,
        Operation::Uninstall,
        Operation::Purge,
        Operation::UpgradeAll,
        Operation::UpgradeCore,
        Operation::UpgradeAssets,
        Operation::UpgradeManager,
    ] {
        assert!(matches!(task(operation), Ok(Task::ApplyPlan)));
    }
    for operation in [
        Operation::Apply,
        Operation::RoutingApply,
        Operation::TunEnable,
        Operation::ServiceStop,
        Operation::CoreRollback,
    ] {
        assert!(!matches!(task(operation), Ok(Task::ApplyPlan)));
    }
}

#[test]
fn operations_have_their_tasks() {
    assert!(matches!(
        task(Operation::ServiceStop),
        Ok(Task::Service(ServiceVerb::Stop))
    ));
    assert!(matches!(
        task(Operation::AssetRollback),
        Ok(Task::Rollback(Component::Assets))
    ));
    assert!(matches!(task(Operation::TunCleanup), Ok(Task::DisableTun)));
    let added = task(Operation::SubscriptionAdd {
        name: "home".into(),
        url: "https://example.invalid/sub".into(),
    });
    match added {
        Ok(Task::PutSubscription(subscription)) => {
            assert_eq!(subscription.name, "home");
            assert_eq!(subscription.url, "https://example.invalid/sub");
            assert!(subscription.enabled);
            assert_eq!(subscription.format, "auto");
        }
        _ => panic!("a new subscription is put in its place"),
    }
}

#[test]
fn unknown_preset_has_no_task() {
    assert!(matches!(
        task(Operation::RoutingPreset {
            name: "missing".into()
        }),
        Err(ManagerError::InvalidConfig(_))
    ));
    match task(Operation::RoutingPreset {
        name: "global-proxy".into(),
    }) {
        Ok(Task::PutRouting(routing)) => assert_eq!(routing.default_outbound, "proxy"),
        _ => panic!("a known preset is put in its place"),
    }
}

#[test]
fn only_the_desktop_proxy_warns() {
    let enable = task(Operation::DesktopProxyEnable {
        user: "alice".into(),
    });
    match enable {
        Ok(task) => assert_eq!(
            task_warnings(&task),
            ["KDE applications may need to be restarted before the proxy change is visible"]
        ),
        Err(_) => panic!("the desktop proxy has a task"),
    }
    assert!(task_warnings(&Task::Activate).is_empty());
}

#[test]
fn fragment_is_read_as_it_stands() {
    let fragment = read_fragment(b"{\"log\": {\"loglevel\": \"debug\"}}");
    match fragment {
        Ok(value) => match value.member("log").and_then(|log| log.member("loglevel")) {
            Some(Json::Text(level)) => assert_eq!(level, "debug"),
            _ => panic!("the fragment keeps its members"),
        },
        Err(_) => panic!("the fragment is valid"),
    }
    assert!(matches!(
        read_fragment(b"{"),
        Err(ManagerError::InvalidConfig(_))
    ));
}

#[test]
fn sealed_text_opens_again() {
    assert_eq!(secret_str(&seal_text("secret".into())), "secret");
}

#[test]
fn missing_programs_block_installation() {
    for tun_enabled in [false, true] {
        let needed = required_capabilities(&Operation::Repair, tun_enabled);
        for backend in production_backends() {
            let counts = backend.capabilities.iter().any(|capability| {
                needed.contains(capability)
                    && !matches!(capability, Capability::Install | Capability::PackageAdvice)
            });
            if !counts {
                continue;
            }
            for program in &backend.requirements {
                let mut found = ArchPackageAdvisor.requirements();
                found.retain(|item| item != program);
                let missing = ArchPackageAdvisor.missing_requirements(&found);
                let blocking = blocking_requirements(&missing, tun_enabled);
                assert_eq!(&blocking, &[program.clone()]);
                assert_eq!(ArchPackageAdvisor.packages_for(&blocking).len(), 1);
            }
        }
    }
}

#[test]
fn missing_packages_are_asked_for_first() {
    let config = ManagerConfig::default();
    let installer = ArchInstaller::new(config.clone(), &Vec::new());
    let plan = installer.plan_install(&config);
    let packages = vec!["iproute2".to_owned(), "nftables".to_owned()];
    match complete_install_plan(plan, packages.clone(), Some("alice".into())) {
        Ok(plan) => assert_eq!(required_packages(&plan), Some(&packages)),
        Err(error) => panic!("{}", error.message()),
    }
    let plan = installer.plan_install(&config);
    match complete_install_plan(plan, Vec::new(), None) {
        Ok(plan) => assert!(required_packages(&plan).is_none()),
        Err(error) => panic!("{}", error.message()),
    }
}

#[test]
fn installed_backends_are_asked_for_again() {
    let select = |capability: Capability, id: &str| BackendSelection {
        capability,
        backend_id: id.into(),
        source: SelectionSource::Automatic,
    };
    let selections = vec![
        select(Capability::Install, "arch"),
        select(Capability::Service, "systemd"),
        select(Capability::PolicyRouting, "iproute2"),
    ];
    let installer = ArchInstaller::new(ManagerConfig::default(), &selections);
    let state = ManagerState {
        installed_backends: installer.installed_backends,
        ..ManagerState::default()
    };
    let asked = state_backend_preferences(&state);
    for selection in &selections {
        assert_eq!(asked.get(selection.capability), Some(&selection.backend_id));
    }
    assert!(asked.get(Capability::Tun).is_none());
}

#[test]
fn percent_escapes_are_read_and_written() {
    let shown = |uri: &str| match parse_uri(uri, "main") {
        Ok(node) => node,
        Err(error) => panic!("{}", error.message()),
    };
    assert_eq!(shown("trojan://secret@host.example:443#a%20b%2").name, "a b%2");
    let node = shown("trojan://p%40ss@host.example:443#x");
    match &node.credentials.password {
        Some(password) => assert_eq!(secret_str(password), "p@ss"),
        None => panic!("the password is kept"),
    }
}
