use std::io::{Cursor, Write};
use xray_manager::activation::{Activation, Effect};
use xray_manager::artifacts::{extract_xray_zip, validate_asset};
use xray_manager::config::{ManagerConfig, SubscriptionConfig, TunConfig};
use xray_manager::console::plan_json;
use xray_manager::domain::{ManagerState, Node};
use xray_manager::error::ManagerError;
use xray_manager::events::ManagerEvent;
use xray_manager::execution::{check_selectable, find_node, stages, Stage};
use xray_manager::fake::{
    FakeClock, FakeDownloader, FakeEventSink, FakeFileSystem, FakeInstaller, FakeLayout,
    FakeTunManager, FakeXrayRunner,
};
use xray_manager::generation::{GenerationEffect, GenerationRequest, GenerationService};
use xray_manager::linux::arch::ArchInstaller;
use xray_manager::operation::Operation;
use xray_manager::planning::Backends;
use xray_manager::ports::{
    Capability, DownloadRequest, ManagerPaths, PlanAction, ProbeResult, UpgradeTarget,
};
use xray_manager::probe::{NodeProbeOutcome, ProbeBatch, ProbeStep};
use xray_manager::program::{Program, Runner};
use xray_manager::protocols::parse_uri;
use xray_manager::refresh::{Refresh, RefreshAction};
use xray_manager::render::render_xray_config;
use xray_manager::routing::RoutingConfig;
use xray_manager::runner::{sanitize_xray_diagnostic, validation_copy};
use xray_manager::service::{Asked, ManagerService};
use xray_manager::storage::{
    check_owned, prune_generations, show_path, PathPart, StoredGeneration,
};
use xray_manager::templates::{nftables, policy_commands, tun_policy_service, xray_service};
use xray_manager::unsupported::{LinuxPlanOnlyInstaller, UnsupportedPlatform};
use zip::write::SimpleFileOptions;

fn archive(name: &str, body: &[u8]) -> Vec<u8> {
    let mut cursor = Cursor::new(Vec::new());
    {
        let mut writer = zip::ZipWriter::new(&mut cursor);
        writer
            .start_file(name, SimpleFileOptions::default())
            .expect("file should start");
        writer.write_all(body).expect("body should write");
        writer.finish().expect("archive should finish");
    }
    cursor.into_inner()
}

#[test]
fn rejects_html_assets() {
    assert!(validate_asset(b"<!doctype html><h1>error</h1>", 1024).is_err());
}

#[test]
fn accepts_binary_assets() {
    assert!(validate_asset(b"\x00\x01\x02geodata", 1024).is_ok());
}

#[test]
fn extracts_only_expected_xray_file() {
    let bytes = archive("nested/xray.exe", b"binary");
    assert_eq!(extract_xray_zip(&bytes, 1024).expect("archive should extract"), b"binary");
}

#[test]
fn rejects_path_traversal() {
    let bytes = archive("../xray.exe", b"binary");
    assert!(extract_xray_zip(&bytes, 1024).is_err());
}

#[test]
fn rejects_oversized_extracted_binary() {
    let bytes = archive("xray.exe", &[0; 17]);
    assert!(extract_xray_zip(&bytes, 16).is_err());
}

#[test]
fn validation_copy_removes_only_tun_inbounds() {
    let inbounds = validation_copy(
        br#"{"inbounds": [
            {"tag": "socks-in", "protocol": "socks"},
            {"tag": "tun-in", "protocol": "tun"},
            {"tag": "http-in", "protocol": "http"}
        ]}"#,
    )
    .expect("inbounds");
    let list = inbounds.member("inbounds").expect("list");
    let mut protocols = Vec::new();
    let mut index = 0;
    while let Some(inbound) = list.item(index) {
        if let Some(protocol) = inbound.member("protocol").and_then(|value| value.as_text()) {
            protocols.push(protocol.clone());
        }
        index += 1;
    }
    assert_eq!(protocols, ["socks", "http"]);

    let outbounds =
        validation_copy(br#"{"outbounds": [{"protocol": "vless"}]}"#).expect("outbounds");
    let first = outbounds
        .member("outbounds")
        .and_then(|list| list.item(0))
        .and_then(|item| item.member("protocol"))
        .and_then(|value| value.as_text());
    assert_eq!(first.map(String::as_str), Some("vless"));
}

#[test]
fn xray_diagnostic_redacts_uri_tokens_and_is_bounded() {
    let diagnostic = sanitize_xray_diagnostic(
        b"first line\nfailed to use vless://sensitive@example.invalid:443/path\n",
    );
    assert_eq!(diagnostic, "failed to use [redacted-uri]");
    assert!(diagnostic.len() <= 512);
}

fn parts(path: &str) -> Vec<PathPart> {
    let names = path.split('/').filter(|name| !name.is_empty());
    let mut parts = vec![PathPart::Root];
    parts.extend(names.map(|name| match name {
        "." => PathPart::Current,
        ".." => PathPart::Parent,
        name => PathPart::Named(name.into()),
    }));
    parts
}

#[test]
fn owned_removal_rejects_root_itself() {
    assert!(check_owned(&parts("/tmp/owned"), &parts("/tmp/owned"), '/').is_err());
    let mut filesystem = FakeFileSystem::default();
    assert!(filesystem.remove_owned("/tmp/owned", "/tmp/owned").is_err());
}

fn target<'a>(filesystem: &'a FakeFileSystem, pointer: &str) -> Option<&'a str> {
    filesystem.generations.get(pointer).map(String::as_str)
}

#[test]
fn generation_rollback_swaps_current_and_previous() {
    let mut filesystem = FakeFileSystem::default();
    filesystem.switch_generation("/current", "/previous", "/generations/one");
    filesystem.switch_generation("/current", "/previous", "/generations/two");
    assert!(filesystem.rollback_generation("/current", "/previous").is_ok());
    assert_eq!(target(&filesystem, "/current"), Some("/generations/one"));
    assert_eq!(target(&filesystem, "/previous"), Some("/generations/two"));
}

#[test]
fn failed_activation_restores_both_generation_pointers() {
    let mut filesystem = FakeFileSystem::default();
    filesystem.switch_generation("/current", "/previous", "/generations/one");
    filesystem.switch_generation("/current", "/previous", "/generations/two");
    filesystem.switch_generation("/current", "/previous", "/generations/failed");
    filesystem.restore_generation(
        "/current",
        "/previous",
        &Some("/generations/two".into()),
        &Some("/generations/one".into()),
    );
    assert_eq!(target(&filesystem, "/current"), Some("/generations/two"));
    assert_eq!(target(&filesystem, "/previous"), Some("/generations/one"));
}

#[test]
fn generation_pruning_preserves_current_and_previous() {
    let mut filesystem = FakeFileSystem::default();
    let paths: Vec<String> = (0..4).map(|index| format!("/generations/{index}")).collect();
    filesystem.switch_generation("/current", "/previous", &paths[0]);
    filesystem.switch_generation("/current", "/previous", &paths[1]);
    let list: Vec<StoredGeneration> = paths
        .iter()
        .enumerate()
        .map(|(index, path)| StoredGeneration { path: parts(path), modified: index as i128 })
        .collect();
    let removed = prune_generations(
        &list,
        &target(&filesystem, "/current").map(parts),
        &target(&filesystem, "/previous").map(parts),
        2,
    );
    let removed: Vec<String> = removed.iter().map(|path| show_path(path, '/')).collect();
    assert!(!removed.contains(&paths[0]));
    assert!(!removed.contains(&paths[1]));
    assert!(removed.contains(&paths[2]));
    assert!(removed.contains(&paths[3]));
}

#[test]
fn never_flushes_global_ruleset() {
    let rendered = nftables(&TunConfig::default(), 991);
    assert!(rendered.contains("table inet xray_manager"));
    assert!(!rendered.contains("flush ruleset"));
    assert!(rendered.contains("meta skgid 991"));
    assert!(rendered.contains("ip6 daddr fc00::/7 return"));
}

#[test]
fn units_have_no_update_timers() {
    assert!(!xray_service().contains("OnCalendar"));
    assert!(xray_service().contains("RuntimeDirectory=xray-manager"));
    assert!(xray_service().contains("SupplementaryGroups=xray-manager"));
    assert!(tun_policy_service().contains("RemainAfterExit=yes"));
}

#[test]
fn policy_commands_use_only_dedicated_table_and_mark() {
    let commands = policy_commands(&ManagerConfig::default());
    let rendered = commands
        .iter()
        .map(|parts| parts.join(" "))
        .collect::<Vec<_>>()
        .join("\n");
    assert!(rendered.contains("fwmark 102 lookup 166"));
    assert!(rendered.contains("blackhole default table 166"));
    assert!(!rendered.contains("table main"));
}

#[test]
fn unsupported_mutations_never_report_success() {
    let backend = UnsupportedPlatform { platform: "test-os".into() };
    assert!(matches!(
        backend.error(Capability::Install),
        ManagerError::PlatformUnsupported { capability: Capability::Install, .. }
    ));
    assert!(matches!(
        backend.error(Capability::Service),
        ManagerError::PlatformUnsupported { capability: Capability::Service, .. }
    ));
}

#[test]
fn plan_only_installer_previews_but_never_applies() {
    let backend = LinuxPlanOnlyInstaller { platform: "windows".into() };
    let plan = backend.plan_install(&ManagerConfig::default());
    assert!(!plan.actions.is_empty());
    assert!(matches!(backend.apply(), Err(ManagerError::PlatformUnsupported { .. })));
}

#[test]
fn install_plan_is_semantic_and_contains_no_shell_commands() {
    let installer = ArchInstaller::new(ManagerConfig::default(), &Vec::new());
    let plan = installer.plan_install(&ManagerConfig::default());
    assert!(!plan.actions.is_empty());
    let json = format!("{:?}", plan_json(&plan));
    assert!(!json.contains("systemctl "));
    assert!(!json.contains("nft "));
    assert!(!json.contains("ip rule"));
    assert!(plan.actions.iter().any(|action| {
        matches!(
            action,
            PlanAction::EnsureDirectory { path, mode }
                if path == "/etc/xray-manager" && *mode == 0o2750
        )
    }));
    assert!(plan.actions.iter().any(|action| {
        matches!(
            action,
            PlanAction::EnsureDirectory { path, mode }
                if path == "/var/log/xray-manager" && *mode == 0o2750
        )
    }));
}

#[test]
fn manager_upgrade_requires_a_release_source() {
    let installer = ArchInstaller::new(ManagerConfig::default(), &Vec::new());
    assert!(matches!(
        installer.plan_upgrade(UpgradeTarget::Manager),
        Err(ManagerError::ManagerReleaseSourceNotConfigured)
    ));
}

type Service = GenerationService<FakeFileSystem, FakeXrayRunner, FakeClock, FakeEventSink>;

fn run_generation(
    service: &mut Service,
    program: Program<GenerationEffect>,
) -> Result<(), ManagerError> {
    let mut runner = Runner::new(program);
    while let Some(effect) = runner.current() {
        let outcome = match effect {
            GenerationEffect::CreateDir { .. } => Ok(()),
            GenerationEffect::Write { path, bytes, .. } => {
                service.filesystem.write_atomic(path, bytes);
                Ok(())
            }
            GenerationEffect::Emit(event) => {
                service.events.emit(event.clone());
                Ok(())
            }
            GenerationEffect::TestConfig(_) => service.xray.test_config(),
            GenerationEffect::Switch { current, previous, target } => {
                service.filesystem.switch_generation(current, previous, target);
                Ok(())
            }
        };
        runner.report(outcome);
    }
    runner.outcome()
}

fn generation_request() -> GenerationRequest {
    GenerationRequest {
        windows: false,
        generations: "/generations".into(),
        current: "/current".into(),
        previous: "/previous".into(),
        executable: "/xray".into(),
        assets: "/assets".into(),
    }
}

#[test]
fn generation_is_not_switched_when_validation_fails() {
    let runner = FakeXrayRunner {
        validation_error: Some("bad config".into()),
        ..FakeXrayRunner::default()
    };
    let mut service = GenerationService::new(
        FakeFileSystem::default(),
        runner,
        FakeClock(42),
        FakeEventSink::default(),
    );
    let time = service.clock.unix_timestamp();
    let files = vec![("00.json".to_owned(), b"{}".to_vec())];
    let (_, program) = service.apply(&generation_request(), time, &files);
    assert!(run_generation(&mut service, program).is_err());
    assert!(!service.filesystem.generations.contains_key("/current"));
}

#[test]
fn generation_switches_after_validation() {
    let mut service = GenerationService::new(
        FakeFileSystem::default(),
        FakeXrayRunner::default(),
        FakeClock(42),
        FakeEventSink::default(),
    );
    let time = service.clock.unix_timestamp();
    let files = vec![("00.json".to_owned(), b"{}".to_vec())];
    let (candidate, program) = service.apply(&generation_request(), time, &files);
    assert!(run_generation(&mut service, program).is_ok());
    assert_eq!(candidate, "/generations/42-0");
    assert_eq!(target(&service.filesystem, "/current"), Some("/generations/42-0"));
}

const NODE: &str = "vless://123e4567-e89b-12d3-a456-426614174000@example.com:443#Node";

fn node() -> Node {
    match parse_uri(NODE, "main") {
        Ok(node) => node,
        Err(error) => panic!("{}", error.message()),
    }
}

fn probe_all(
    nodes: &[Node],
    config: &ManagerConfig,
    runner: &FakeXrayRunner,
    cancelled: bool,
) -> Vec<NodeProbeOutcome> {
    let ids = nodes.iter().map(|node| node.id.as_str().to_owned()).collect();
    let mut batch = ProbeBatch::new(ids, config.menu.probe_concurrency);
    let mut events: Vec<ManagerEvent> = Vec::new();
    let mut waiting: Vec<usize> = Vec::new();
    loop {
        let (step, event) = batch.step(cancelled);
        events.extend(event);
        match step {
            ProbeStep::Begin(place) => waiting.push(place),
            ProbeStep::Skip(_) => {}
            ProbeStep::Wait => {
                let place = waiting.remove(0);
                let reply = runner.probe(nodes[place].id.as_str());
                let at = batch.position(place).expect("a running probe has a position");
                let (_, event) = batch.end(at, reply);
                events.push(event);
            }
            ProbeStep::Done => break,
        }
    }
    batch.outcomes()
}

#[test]
fn fake_probe_returns_configured_latency() {
    let node = node();
    let mut runner = FakeXrayRunner::default();
    runner.probes.push((
        node.id.as_str().into(),
        ProbeResult { latency_ms: Some(42), error: None },
    ));
    let outcomes = probe_all(&[node], &ManagerConfig::default(), &runner, false);
    assert_eq!(outcomes[0].result.latency_ms, Some(42));
}

#[test]
fn probe_scheduler_honors_preexisting_cancellation() {
    let outcomes =
        probe_all(&[node()], &ManagerConfig::default(), &FakeXrayRunner::default(), true);
    assert_eq!(outcomes[0].result.error.as_deref(), Some("cancelled"));
}

#[test]
fn fake_downloader_enforces_size_limit() {
    let mut downloader = FakeDownloader::default();
    downloader.responses.insert("https://example.test/file", vec![0; 8]);
    let result = downloader.download(&DownloadRequest {
        url: "https://example.test/file".into(),
        max_bytes: 4,
        timeout_seconds: 1,
        max_redirects: 0,
    });
    assert!(matches!(result, Err(ManagerError::Download(message)) if message.contains("size")));
}

#[test]
fn fake_tun_reports_state_without_claiming_real_platform_support() {
    let mut tun = FakeTunManager::default();
    assert!(!tun.status("xray0").expect("fake status"));
    tun.set_active(true).expect("set fake state");
    assert!(tun.status("xray0").expect("fake status"));
}

fn service() -> ManagerService {
    let backends = Backends {
        selections: Vec::new(),
        capabilities: Vec::new(),
        os: "linux".into(),
    };
    ManagerService::new(ManagerConfig::default(), ManagerState::default(), backends)
}

fn node_ids(nodes: &[Node]) -> Vec<u8> {
    let ids: Vec<&str> = nodes.iter().map(|node| node.id.as_str()).collect();
    ids.join("\n").into_bytes()
}

/// Refreshes the subscriptions, storing in the file system what is to be stored.
fn refresh(
    filesystem: &mut FakeFileSystem,
    downloader: &FakeDownloader,
    subscriptions: &Vec<SubscriptionConfig>,
    nodes: Vec<Node>,
) -> Result<(Vec<Node>, Vec<String>), ManagerError> {
    let mut refresh = Refresh::new(&None, subscriptions, nodes, &None)?;
    loop {
        match refresh.next(&ManagerConfig::default()) {
            RefreshAction::Download { request, .. } => {
                let reply = downloader.download(&request).map(|artifact| artifact.bytes);
                refresh.answer(reply)?;
            }
            RefreshAction::Store(store) => {
                filesystem.write_atomic("/state/nodes.json", &node_ids(&store.nodes));
                return Ok((store.nodes, store.warnings));
            }
            RefreshAction::Nothing => panic!("a refresh that failed has told its error"),
        }
    }
}

fn subscription(name: &str, url: &str) -> SubscriptionConfig {
    SubscriptionConfig {
        name: name.into(),
        enabled: true,
        url: url.into(),
        format: "auto".into(),
    }
}

#[test]
fn subscription_refresh_uses_injected_downloader_and_redacts_url() {
    let mut filesystem = FakeFileSystem::default();
    let mut downloader = FakeDownloader::default();
    downloader.responses.insert("https://secret.example/sub", NODE.as_bytes().to_vec());
    let subscriptions = vec![subscription("main", "https://secret.example/sub")];
    assert!(subscriptions[0].validate().is_ok());
    let (nodes, warnings) =
        match refresh(&mut filesystem, &downloader, &subscriptions, Vec::new()) {
            Ok(stored) => stored,
            Err(error) => panic!("{}", error.message()),
        };
    assert!(warnings.is_empty());
    let service = service();
    let public = match service.query(&Asked::Nodes(nodes.clone())) {
        Ok(public) => public,
        Err(error) => panic!("{}", error.message()),
    };
    assert!(public.item(0).is_some() && public.item(1).is_none());
    let id = public
        .item(0)
        .and_then(|node| node.member("id"))
        .and_then(|id| id.as_text())
        .expect("public node ID");
    let selected = &nodes[find_node(&nodes, id).expect("validated node selection")];
    assert!(check_selectable(selected).is_ok());
    let routing = match RoutingConfig::preset("global-proxy") {
        Ok(routing) => routing,
        Err(error) => panic!("{}", error.message()),
    };
    let rendered =
        match render_xray_config(&service.config, Some(selected), &routing, Vec::new()) {
            Ok(rendered) => rendered,
            Err(error) => panic!("{}", error.message()),
        };
    let activation = Activation {
        paths: FakeLayout(ManagerPaths {
            windows: false,
            config_dir: "/config".into(),
            state_dir: "/state".into(),
            cache_dir: "/cache".into(),
            runtime_dir: "/run".into(),
            install_dir: "/opt".into(),
            executable: "/bin/xrayctl".into(),
        })
        .paths(),
        generation: "one".into(),
        executable_name: "xray".into(),
        tun_enabled: false,
        selected: Some(selected.id.as_str().to_owned()),
        state: ManagerState::default(),
        keep: 3,
    };
    let mut written: Option<ManagerState> = None;
    let mut runner = Runner::new(activation.program(&rendered));
    loop {
        let outcome = match runner.current() {
            Some(Effect::TestConfig(_)) => FakeXrayRunner::default().test_config(),
            Some(Effect::Switch { current, previous, target }) => {
                filesystem.switch_generation(current, previous, target);
                Ok(())
            }
            Some(Effect::WriteState(state)) => {
                filesystem.write_atomic("/state/state.json", &Vec::new());
                written = Some(state.clone());
                Ok(())
            }
            Some(_) => Ok(()),
            None => break,
        };
        runner.report(outcome);
    }
    assert!(runner.outcome().is_ok());
    assert!(filesystem.contents("/state/state.json").is_some());
    let state = written.expect("state file");
    assert!(state.selected_node_id.is_some());
    assert_eq!(state.selected_node_id.as_deref(), Some(selected.id.as_str()));
    let answer = match service.query(&Asked::Subscriptions(subscriptions)) {
        Ok(answer) => answer,
        Err(error) => panic!("{}", error.message()),
    };
    let public = format!("{answer:?}");
    assert!(!public.contains("secret.example"));
    assert!(filesystem.contents("/state/nodes.json").is_some());
}

#[test]
fn a_refresh_that_fails_stores_nothing() {
    let mut filesystem = FakeFileSystem::default();
    let mut downloader = FakeDownloader::default();
    downloader.responses.insert("https://a.example/sub", NODE.as_bytes().to_vec());
    downloader.responses.insert("https://c.example/sub", b"<html>".to_vec());
    let subscriptions = vec![
        subscription("b", "https://missing.example/sub"),
        subscription("a", "https://a.example/sub"),
    ];
    assert!(refresh(&mut filesystem, &downloader, &subscriptions, Vec::new()).is_err());
    assert!(filesystem.contents("/state/nodes.json").is_none());
    let broken = vec![subscription("c", "https://c.example/sub")];
    assert!(matches!(
        refresh(&mut filesystem, &downloader, &broken, Vec::new()),
        Err(ManagerError::InvalidSubscription(_))
    ));
    assert!(filesystem.contents("/state/nodes.json").is_none());
}

#[test]
fn a_whole_refresh_replaces_what_takes_part_and_keeps_the_rest() {
    let mut filesystem = FakeFileSystem::default();
    let mut downloader = FakeDownloader::default();
    let link = |name: &str| NODE.replace("#Node", &format!("#{name}"));
    downloader.responses.insert("https://a.example/sub", link("Zulu").into_bytes());
    downloader.responses.insert("https://b.example/sub", link("Alpha").into_bytes());
    let mut idle = subscription("idle", "https://idle.example/sub");
    idle.enabled = false;
    let subscriptions = vec![
        subscription("b", "https://b.example/sub"),
        idle,
        subscription("a", "https://a.example/sub"),
    ];
    let mut kept = node();
    kept.subscription = "idle".into();
    kept.name = "Mike".into();
    let mut stale = node();
    stale.subscription = "a".into();
    stale.name = "Stale".into();
    let stored = refresh(&mut filesystem, &downloader, &subscriptions, vec![stale, kept]);
    let Ok((nodes, _)) = stored else {
        panic!("every subscription was there");
    };
    let names: Vec<(&str, &str)> =
        nodes.iter().map(|node| (node.name.as_str(), node.subscription.as_str())).collect();
    assert_eq!(names, [("Alpha", "b"), ("Mike", "idle"), ("Zulu", "a")]);
    let unknown = Some("other".to_owned());
    assert!(matches!(
        Refresh::new(&unknown, &subscriptions, Vec::new(), &None),
        Err(ManagerError::InvalidConfig(_))
    ));
}

#[test]
fn dry_run_never_calls_installer_apply() {
    let mut installer = FakeInstaller::default();
    let mut filesystem = FakeFileSystem::default();
    for stage in stages(&Operation::Install { user: None }, true) {
        match stage {
            Stage::Plan => {
                let plan = installer.plan_install(&ManagerConfig::default());
                assert!(!plan.actions.is_empty());
            }
            Stage::Lock => filesystem.acquire_lock(),
            Stage::Perform => assert!(installer.apply().is_ok()),
            Stage::Privilege | Stage::Packages | Stage::Report => {}
        }
    }
    assert_eq!(installer.apply_count, 0);
    assert_eq!(filesystem.lock_count(), 0);
}
