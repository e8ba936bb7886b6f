use xray_manager::activation::{
    apply_config, rollback_program, tun_disable_program, tun_enable_program, Activation, Applied,
    Component, Effect,
};
use xray_manager::config::ManagerConfig;
use xray_manager::domain::ManagerState;
use xray_manager::error::ManagerError;
use xray_manager::events::ManagerEvent;
use xray_manager::fake::FakeFileSystem;
use xray_manager::generation::{GenerationEffect, GenerationRequest, GenerationService};
use xray_manager::json::{Json, JsonObject};
use xray_manager::linux::commands::CommandEffect;
use xray_manager::linux::desktop::{keep_command, DesktopEffect, Kde6DesktopProxyManager};
use xray_manager::linux::identity::{
    account_name, invoking_user, Caller, LinuxIdentityManager,
};
use xray_manager::linux::install::{
    kept_configuration, recorded_path, write_state, InstallEffect, InstallFacts, InstallPlan, NewGeneration,
    PreparedInstall, Store, Upgrade,
};
use xray_manager::linux::policy::{
    effect_command, interface_appeared, run_tun_internal, PolicyEffect, TunInternalAction,
};
use xray_manager::linux::prepare::{
    check_executable, prepare_assets, prepare_core, unique_generation, upgrade_manager,
    AssetEffect, CoreEffect, ManagerEffect,
};
use xray_manager::linux::setup::{
    apply_install_actions, apply_removal, created_group, created_membership, created_user,
    group_identity, membership_identity, RemovalEffect,
    SetupEffect,
};
use xray_manager::linux::arch::ArchInstaller;
use xray_manager::ports::ManagerPaths;
use xray_manager::program::{Policy, Program, Runner, Step};
use xray_manager::protocols::parse_uri;
use xray_manager::refresh::RefreshStore;
use xray_manager::routing::RoutingConfig;
use xray_manager::routing_file::{replace_routing, RoutingEffect};
use xray_manager::text_map::TextMap;

fn failure() -> ManagerError {
    ManagerError::Other("broken".into())
}

/// Runs a program; the effect of the given number fails, counted from the first.
fn run<E>(
    program: Program<E>,
    failing: Option<usize>,
    mut perform: impl FnMut(&E),
) -> Result<(), ManagerError> {
    let mut runner = Runner::new(program);
    let mut number = 0;
    while let Some(effect) = runner.current() {
        if Some(number) == failing {
            runner.report(Err(failure()));
        } else {
            perform(effect);
            runner.report(Ok(()));
        }
        number += 1;
    }
    runner.outcome()
}

fn undoes<E>(program: &Program<E>, index: usize) -> bool {
    matches!(program.main[index].policy, Policy::Undo(_))
}

fn paths() -> ManagerPaths {
    ManagerPaths {
        windows: false,
        config_dir: "/config".into(),
        state_dir: "/state".into(),
        cache_dir: "/cache".into(),
        runtime_dir: "/run".into(),
        install_dir: "/opt".into(),
        executable: "/bin/xrayctl".into(),
    }
}

fn recorded_state() -> ManagerState {
    let mut state = ManagerState::default();
    state.current_config_generation = Some("b".into());
    state.previous_config_generation = Some("a".into());
    state.current_core_version = Some("v2".into());
    state.previous_core_version = Some("v1".into());
    state.current_asset_generation = Some("n".into());
    state.previous_asset_generation = Some("m".into());
    state.selected_node_id = Some("0123456789abcdef".into());
    state
}

fn activation(tun_enabled: bool) -> Activation {
    Activation {
        paths: paths(),
        generation: "c".into(),
        executable_name: "xray".into(),
        tun_enabled,
        selected: Some("0123456789abcdef".into()),
        state: recorded_state(),
        keep: 3,
    }
}

fn one_file() -> JsonObject {
    JsonObject::new().with("00_log.json", Json::Object(JsonObject::new()))
}

/// The pointers and the recorded state that the effects work on.
struct World {
    files: FakeFileSystem,
    state: String,
}

fn shown(state: &ManagerState) -> String {
    format!("{state:?}")
}

fn world() -> World {
    let mut files = FakeFileSystem::default();
    files.switch_generation("/state/current", "/state/previous", "/state/generations/a");
    files.switch_generation("/state/current", "/state/previous", "/state/generations/b");
    World { files, state: shown(&recorded_state()) }
}

impl World {
    fn perform(&mut self, effect: &Effect) {
        match effect {
            Effect::Switch { current, previous, target } => {
                self.files.switch_generation(current, previous, target)
            }
            Effect::Restore { current, previous, current_target, previous_target } => {
                self.files.restore_generation(current, previous, current_target, previous_target)
            }
            Effect::SwapPointers { current, previous } => {
                assert!(self.files.rollback_generation(current, previous).is_ok())
            }
            Effect::WriteState(state) => self.state = shown(state),
            _ => {}
        }
    }

    fn pointers(&self) -> (Option<String>, Option<String>) {
        (
            self.files.generations.get("/state/current").cloned(),
            self.files.generations.get("/state/previous").cloned(),
        )
    }
}

#[test]
fn failed_activation_leaves_everything_as_it_was() {
    for tun_enabled in [true, false] {
        let count = activation(tun_enabled).program(&one_file()).main.len();
        for index in 0..count {
            let program = activation(tun_enabled).program(&one_file());
            if !undoes(&program, index) {
                continue;
            }
            let mut world = world();
            let before = (world.pointers(), world.state.clone());
            assert!(run(program, Some(index), |effect| world.perform(effect)).is_err());
            let state = world.state.replace(
                r#"Some("configuration activation or healthcheck failed")"#,
                "None",
            );
            assert_eq!((world.pointers(), state), before, "step {index}");
        }
    }
}

#[test]
fn completed_activation_switches_and_records() {
    let mut world = world();
    let program = activation(true).program(&one_file());
    assert!(run(program, None, |effect| world.perform(effect)).is_ok());
    assert_eq!(
        world.pointers(),
        (Some("/state/generations/c".into()), Some("/state/generations/b".into()))
    );
    assert!(world.state.contains(r#"current_config_generation: Some("c")"#));
    assert!(world.state.contains(r#"previous_config_generation: Some("b")"#));
}

#[test]
fn a_generation_is_tested_before_the_switch() {
    let program = activation(true).program(&one_file());
    let test = program
        .main
        .iter()
        .position(|step| matches!(step.effect, Effect::TestConfig(_)))
        .expect("a test");
    let switch = program
        .main
        .iter()
        .position(|step| matches!(step.effect, Effect::Switch { .. }))
        .expect("a switch");
    assert!(test < switch);
    let mut switched = false;
    let result = run(program, Some(test), |effect| {
        switched |= matches!(effect, Effect::Switch { .. });
    });
    assert!(result.is_err());
    assert!(!switched);
}

#[test]
fn an_unselected_activation_checks_no_health() {
    let mut unselected = activation(true);
    unselected.selected = None;
    let program = unselected.program(&one_file());
    assert!(!program.main.iter().any(|step| matches!(step.effect, Effect::Healthcheck)));
    let program = activation(true).program(&one_file());
    assert!(program.main.iter().any(|step| matches!(step.effect, Effect::Healthcheck)));
}

#[test]
fn configuration_rollback_twice_gives_back_the_start() {
    let mut world = world();
    let before = world.pointers();
    let program = rollback_program(&paths(), &recorded_state(), Component::Configuration);
    assert!(run(program, None, |effect| world.perform(effect)).is_ok());
    assert_eq!(
        world.pointers(),
        (Some("/state/generations/a".into()), Some("/state/generations/b".into()))
    );
    assert!(world.state.contains(r#"current_config_generation: Some("a")"#));
    let mut swapped = recorded_state();
    swapped.current_config_generation = Some("a".into());
    swapped.previous_config_generation = Some("b".into());
    let program = rollback_program(&paths(), &swapped, Component::Configuration);
    assert!(run(program, None, |effect| world.perform(effect)).is_ok());
    assert_eq!(world.pointers(), before);
}

#[test]
fn failed_rollback_leaves_everything_as_it_was() {
    let count =
        rollback_program(&paths(), &recorded_state(), Component::Configuration).main.len();
    for index in 0..count {
        let program = rollback_program(&paths(), &recorded_state(), Component::Configuration);
        if !undoes(&program, index) {
            continue;
        }
        let mut world = world();
        let before = (world.pointers(), world.state.clone());
        assert!(run(program, Some(index), |effect| world.perform(effect)).is_err());
        assert_eq!((world.pointers(), world.state.clone()), before, "step {index}");
    }
}

#[test]
fn failed_tun_enable_leaves_no_rules() {
    let count = tun_enable_program().main.len();
    for index in 0..count {
        let program = tun_enable_program();
        if !undoes(&program, index) {
            continue;
        }
        let (mut firewall, mut routing) = (false, false);
        let result = run(program, Some(index), |effect| match effect {
            Effect::FirewallEnable => firewall = true,
            Effect::FirewallDisable => firewall = false,
            Effect::RoutingEnable => routing = true,
            Effect::RoutingDisable => routing = false,
            _ => {}
        });
        assert!(result.is_err());
        assert!(!firewall && !routing, "step {index}");
    }
    assert!(run(tun_disable_program(), None, |_| {}).is_ok());
}

#[test]
fn generations_of_one_service_are_apart_and_tested_first() {
    let mut service = GenerationService::new((), (), (), ());
    let request = GenerationRequest {
        windows: false,
        generations: "/generations".into(),
        current: "/current".into(),
        previous: "/previous".into(),
        executable: "/xray".into(),
        assets: "/assets".into(),
    };
    let (first, program) = service.apply(&request, 7, &Vec::new());
    let (second, _) = service.apply(&request, 7, &Vec::new());
    assert_eq!(first, "/generations/7-0");
    assert_eq!(second, "/generations/7-1");
    let mut order = Vec::new();
    assert!(run(program, None, |effect| match effect {
        GenerationEffect::TestConfig(_) => order.push("test"),
        GenerationEffect::Switch { .. } => order.push("switch"),
        GenerationEffect::Emit(ManagerEvent::ConfigValidationSucceeded) => order.push("valid"),
        _ => {}
    })
    .is_ok());
    assert_eq!(order, ["test", "valid", "switch"]);
}

fn install_plan(fresh: bool) -> InstallPlan {
    InstallPlan {
        candidate: PreparedInstall {
            core_version: "v3".into(),
            core_directory: "/opt/xray-manager/core/versions/v3".into(),
            asset_generation: "o".into(),
            asset_directory: "/opt/xray-manager/assets/generations/o".into(),
            config_generation: "c".into(),
            config_directory: Some("/var/lib/xray-manager/generations/c".into()),
        },
        state: if fresh { ManagerState::default() } else { recorded_state() },
        created: vec!["xray".into()],
        backends: TextMap::new(),
        core_changed: true,
        assets_changed: true,
        had_core: !fresh,
        tun_enabled: true,
        keep_core: 2,
        keep_assets: 2,
        keep_config: 2,
    }
}

/// The three stores of an installed host and its recorded state.
struct Host {
    files: FakeFileSystem,
    state: String,
}

fn host(state: &ManagerState) -> Host {
    let mut files = FakeFileSystem::default();
    for (store, current, previous) in [
        (Store::Core, &state.current_core_version, &state.previous_core_version),
        (Store::Assets, &state.current_asset_generation, &state.previous_asset_generation),
        (Store::Config, &state.current_config_generation, &state.previous_config_generation),
    ] {
        files.restore_generation(
            store.current(),
            store.previous(),
            &recorded_path(store, current),
            &recorded_path(store, previous),
        );
    }
    Host { files, state: shown(state) }
}

impl Host {
    fn perform(&mut self, effect: &InstallEffect) {
        match effect {
            InstallEffect::Switch { store, target } => {
                self.files.switch_generation(store.current(), store.previous(), target)
            }
            InstallEffect::Restore { store, current, previous } => {
                self.files.restore_generation(store.current(), store.previous(), current, previous)
            }
            InstallEffect::WriteState(state) => self.state = shown(state),
            _ => {}
        }
    }

    fn pointers(&self) -> Vec<Option<String>> {
        let mut targets = Vec::new();
        for store in [Store::Core, Store::Assets, Store::Config] {
            targets.push(self.files.generations.get(store.current()).cloned());
            targets.push(self.files.generations.get(store.previous()).cloned());
        }
        targets
    }
}

#[test]
fn failed_installation_leaves_everything_as_it_was() {
    for fresh in [true, false] {
        let count = install_plan(fresh).activate_install().main.len();
        for index in 0..count {
            let plan = install_plan(fresh);
            let program = plan.activate_install();
            if !undoes(&program, index) {
                continue;
            }
            let mut host = host(&plan.state);
            let before = (host.pointers(), host.state.clone());
            assert!(run(program, Some(index), |effect| host.perform(effect)).is_err());
            assert_eq!((host.pointers(), host.state.clone()), before, "step {index}");
        }
    }
}

#[test]
fn a_new_configuration_is_owned_before_anything_is_switched() {
    let program = install_plan(true).activate_install();
    assert!(matches!(program.main[0].effect, InstallEffect::Own { .. }));
    let mut host = host(&ManagerState::default());
    assert!(run(program, None, |effect| host.perform(effect)).is_ok());
    assert_eq!(
        host.pointers()[0].as_deref(),
        Some("/opt/xray-manager/core/versions/v3")
    );
}

#[test]
fn failed_upgrade_leaves_everything_as_it_was() {
    let upgrade = || Upgrade {
        core: Some(NewGeneration {
            name: "v3".into(),
            directory: "/opt/xray-manager/core/versions/v3".into(),
        }),
        assets: Some(NewGeneration {
            name: "o".into(),
            directory: "/opt/xray-manager/assets/generations/o".into(),
        }),
        state: recorded_state(),
        keep_core: 2,
        keep_assets: 2,
    };
    let count = upgrade().apply_upgrade().main.len();
    for index in 0..count {
        let program = upgrade().apply_upgrade();
        if !undoes(&program, index) {
            continue;
        }
        let mut host = host(&recorded_state());
        let before = (host.pointers(), host.state.clone());
        assert!(run(program, Some(index), |effect| host.perform(effect)).is_err());
        assert_eq!((host.pointers(), host.state.clone()), before, "step {index}");
    }
    let mut host = host(&recorded_state());
    assert!(run(upgrade().apply_upgrade(), None, |effect| host.perform(effect)).is_ok());
    assert!(host.state.contains(r#"current_core_version: Some("v3")"#));
    assert!(host.state.contains(r#"previous_core_version: Some("v2")"#));
    let core = |name: &str| {
        Some(NewGeneration { name: name.into(), directory: format!("/{name}") })
    };
    let config = ManagerConfig::default();
    assert!(Upgrade::new(recorded_state(), core("v2"), None, &config).is_none());
    assert!(Upgrade::new(recorded_state(), None, None, &config).is_none());
    let fresh = Upgrade::new(recorded_state(), core("v3"), None, &config).expect("an upgrade");
    assert!(fresh.core.is_some());
    let assets = Upgrade::new(recorded_state(), core("v2"), core("o"), &config);
    assert!(assets.expect("an upgrade").core.is_none());
}

#[test]
fn a_repair_of_the_same_generations_keeps_the_previous_ones() {
    let state = recorded_state();
    let written = write_state(&state, "v2", "n", "b", &Vec::new(), &TextMap::new());
    assert_eq!(written.current_core_version.as_deref(), Some("v2"));
    assert_eq!(written.previous_core_version.as_deref(), Some("v1"));
    let written = write_state(&state, "v3", "n", "b", &vec!["xray".into()], &TextMap::new());
    assert_eq!(written.current_core_version.as_deref(), Some("v3"));
    assert_eq!(written.previous_core_version.as_deref(), Some("v2"));
    assert!(written.created_identities.contains(&"xray".to_owned()));
}

/// What stands in the place of a core and beside it.
#[derive(Debug, Clone, PartialEq)]
struct Places {
    place: Option<&'static str>,
    apart: Option<&'static str>,
    out: Option<&'static str>,
    staging: bool,
}

fn move_core(places: &mut Places, effect: &CoreEffect) {
    match effect {
        CoreEffect::Unpack => places.staging = true,
        CoreEffect::DropUnpacked => places.staging = false,
        CoreEffect::SetApart => places.apart = places.place.take(),
        CoreEffect::MoveIn => {
            places.staging = false;
            places.place = Some("new");
        }
        CoreEffect::MoveOut => places.out = places.place.take(),
        CoreEffect::PutBack { .. } => places.place = places.apart.take(),
        CoreEffect::DropMovedOut => places.out = None,
        CoreEffect::DropSetApart => places.apart = None,
        CoreEffect::CheckUnpacked
        | CoreEffect::MakeRoot
        | CoreEffect::Sync
        | CoreEffect::CheckPlaced => {}
    }
}

#[test]
fn a_core_that_fails_changes_nothing_and_one_that_runs_is_in_place() {
    for before in [None, Some("before")] {
        let start = Places { place: before, apart: None, out: None, staging: false };
        let count = prepare_core(before.is_some()).main.len();
        for index in 0..count {
            let program = prepare_core(before.is_some());
            if !undoes(&program, index) {
                continue;
            }
            let mut places = start.clone();
            assert!(run(program, Some(index), |effect| move_core(&mut places, effect)).is_err());
            assert_eq!(places.place, start.place, "step {index}");
            assert!(!places.staging);
        }
        let mut places = start.clone();
        let program = prepare_core(before.is_some());
        assert!(run(program, None, |effect| move_core(&mut places, effect)).is_ok());
        assert_eq!(
            places,
            Places { place: Some("new"), apart: None, out: None, staging: false }
        );
    }
}

#[test]
fn a_manager_that_fails_its_doctor_is_put_back() {
    let count = upgrade_manager().main.len();
    for index in 0..count {
        let program = upgrade_manager();
        let undo = undoes(&program, index);
        let doctor = program.main[index].effect == ManagerEffect::Doctor;
        let (mut installed, mut kept) = ("before", None);
        let result = run(program, Some(index), |effect| match effect {
            ManagerEffect::Keep => kept = Some(installed),
            ManagerEffect::Install => installed = "new",
            ManagerEffect::PutBack => installed = kept.unwrap_or(installed),
            ManagerEffect::Check | ManagerEffect::Doctor | ManagerEffect::Judge => {}
        });
        assert!(result.is_err());
        let expected = if doctor { "new" } else { "before" };
        assert_eq!(installed, expected, "step {index}, undone: {undo}");
    }
    assert!(check_executable(&b"\x7fELF....".to_vec()).is_ok());
    assert!(check_executable(&b"<html>".to_vec()).is_err());
}

#[test]
fn generation_names_of_one_process_differ() {
    let first = unique_generation(42, 7, 0);
    let second = unique_generation(42, 7, 1);
    assert_ne!(first, second);
    assert!(first.contains("42"));
}

#[test]
fn assets_are_fetched_into_their_generation() {
    let config = ManagerConfig::default();
    let program = prepare_assets("/generation", &config);
    let mut fetched = Vec::new();
    assert!(run(program, None, |effect| {
        if let AssetEffect::Fetch { request, path } = effect {
            assert!(request.url.starts_with("https://"));
            fetched.push(path.clone());
        }
    })
    .is_ok());
    assert_eq!(fetched.len(), config.assets.len());
    assert!(fetched[0].starts_with("/generation/"));
}

/// The policy of the host as the effects leave it.
#[derive(Debug, Clone, Copy, Default, PartialEq)]
struct Rules {
    table: bool,
    mark: [bool; 2],
    block: [bool; 2],
    tun: [bool; 2],
}

fn change_policy(rules: &mut Rules, effect: &PolicyEffect) {
    match effect {
        PolicyEffect::Prepare | PolicyEffect::AwaitInterface => {}
        PolicyEffect::Drop => rules.table = false,
        PolicyEffect::Load => rules.table = true,
        PolicyEffect::Unmark { ipv6 } => rules.mark[usize::from(*ipv6)] = false,
        PolicyEffect::Mark { ipv6 } => rules.mark[usize::from(*ipv6)] = true,
        PolicyEffect::Block { ipv6 } => rules.block[usize::from(*ipv6)] = true,
        PolicyEffect::Flush { ipv6 } => {
            rules.block[usize::from(*ipv6)] = false;
            rules.tun[usize::from(*ipv6)] = false;
        }
        PolicyEffect::Attach { ipv6 } => rules.tun[usize::from(*ipv6)] = true,
        PolicyEffect::Detach { ipv6 } => rules.tun[usize::from(*ipv6)] = false,
    }
}

#[test]
fn policy_up_is_complete_and_leaves_nothing_where_it_fails() {
    let config = ManagerConfig::default();
    let up = || run_tun_internal(TunInternalAction::PolicyUp, &config);
    let mut rules = Rules::default();
    assert!(run(up(), None, |effect| change_policy(&mut rules, effect)).is_ok());
    assert!(rules.table);
    assert_eq!(rules.mark, [true, true]);
    assert_eq!(rules.block, [true, true]);
    for index in 0..up().main.len() {
        if !undoes(&up(), index) {
            continue;
        }
        let mut rules = Rules::default();
        assert!(run(up(), Some(index), |effect| change_policy(&mut rules, effect)).is_err());
        assert_eq!(rules, Rules::default(), "step {index}");
    }
}

#[test]
fn failed_firewall_leaves_no_table() {
    let config = ManagerConfig::default();
    let up = || run_tun_internal(TunInternalAction::FirewallUp, &config);
    let load = up()
        .main
        .iter()
        .position(|step| step.effect == PolicyEffect::Load)
        .expect("a load");
    let mut rules = Rules { table: true, ..Rules::default() };
    assert!(run(up(), Some(load), |effect| change_policy(&mut rules, effect)).is_err());
    assert!(!rules.table);
}

#[test]
fn policy_down_leaves_nothing_and_detach_undoes_attach() {
    let config = ManagerConfig::default();
    let full = Rules { table: true, mark: [true; 2], block: [true; 2], tun: [true; 2] };
    let mut rules = full;
    let down = run_tun_internal(TunInternalAction::PolicyDown, &config);
    assert!(run(down, None, |effect| change_policy(&mut rules, effect)).is_ok());
    assert_eq!(rules, Rules::default());

    let detached = Rules { tun: [false; 2], ..full };
    let mut rules = detached;
    let attach = run_tun_internal(TunInternalAction::Attach, &config);
    assert!(run(attach, None, |effect| change_policy(&mut rules, effect)).is_ok());
    assert_ne!(rules, detached);
    let detach = run_tun_internal(TunInternalAction::Detach, &config);
    assert!(run(detach, None, |effect| change_policy(&mut rules, effect)).is_ok());
    assert_eq!(rules, detached);
}

#[test]
fn policy_commands_keep_to_the_dedicated_table() {
    let config = ManagerConfig::default();
    for effect in [
        PolicyEffect::Mark { ipv6: false },
        PolicyEffect::Block { ipv6: true },
        PolicyEffect::Attach { ipv6: false },
        PolicyEffect::Flush { ipv6: true },
    ] {
        let command = effect_command(effect, &config, "/run/rules.nft").expect("a command");
        assert_eq!(command.program, "ip");
        assert!(command.args.iter().any(|argument| argument == "166"), "{command:?}");
    }
    let load = effect_command(PolicyEffect::Load, &config, "/run/rules.nft").expect("a command");
    assert_eq!(load.program, "nft");
    assert!(load.args.contains(&"/run/rules.nft".to_owned()));
    assert!(effect_command(PolicyEffect::Prepare, &config, "").is_none());
    assert!(matches!(interface_appeared(0, false, "xray0"), Ok(true)));
    assert!(matches!(interface_appeared(1, false, "xray0"), Ok(false)));
    assert!(interface_appeared(1, true, "xray0").is_err());
}

#[test]
fn an_invalid_name_makes_no_user() {
    let program = LinuxIdentityManager.ensure_system_identity("xray; reboot", &vec!["xray".into()]);
    let mut commands = 0;
    let result = run_commands(program, &mut commands);
    assert!(result.is_err());
    assert_eq!(commands, 0);
    let program = LinuxIdentityManager.ensure_system_identity("xray", &vec!["xray-tun".into()]);
    assert!(run_commands(program, &mut commands).is_ok());
    assert!(commands > 0);
    assert!(LinuxIdentityManager.set_ownership("/state", "xray", "xray", true).is_ok());
    assert!(LinuxIdentityManager.set_ownership("/state", "x ray", "xray", true).is_err());
}

fn run_commands(
    program: Program<CommandEffect>,
    commands: &mut usize,
) -> Result<(), ManagerError> {
    let mut runner = Runner::new(program);
    while let Some(effect) = runner.current() {
        let outcome = match effect {
            CommandEffect::Refuse(reason) => Err(ManagerError::InvalidConfig(reason.clone())),
            CommandEffect::Run(_)
            | CommandEffect::Unless { .. }
            | CommandEffect::When { .. } => {
                *commands += 1;
                Ok(())
            }
        };
        runner.report(outcome);
    }
    runner.outcome()
}

#[test]
fn the_invoking_user_is_the_one_behind_sudo() {
    assert!(matches!(
        invoking_user(&Some("alice".into()), &Some("1000".into())),
        Ok(Caller::Known(Some(name))) if name == "alice"
    ));
    assert!(matches!(
        invoking_user(&None, &Some("1000".into())),
        Ok(Caller::Lookup(1000))
    ));
    assert!(invoking_user(&Some("bad name".into()), &None).is_err());
    assert!(account_name(1000, &None, &None).is_err());
    assert!(matches!(
        account_name(1000, &Some(("alice".into(), 1000)), &None),
        Ok(name) if name == "alice"
    ));
}

#[test]
fn desktop_settings_are_kept_before_they_are_changed() {
    let config = ManagerConfig::default();
    let effects = |program: Program<DesktopEffect>| -> Vec<String> {
        program.main.iter().map(|step| format!("{:?}", step.effect)).collect()
    };
    let shown = effects(Kde6DesktopProxyManager.enable("alice", &config));
    let keep = shown.iter().position(|effect| effect == "Keep").expect("a copy");
    let write = shown
        .iter()
        .position(|effect| effect.contains("kwriteconfig6"))
        .expect("a change");
    assert!(keep < write);
    assert!(format!("{:?}", keep_command("alice", "/home/alice")).contains("--no-clobber"));
    let back = effects(Kde6DesktopProxyManager.disable("alice"));
    assert_eq!(back.len(), 3);
    assert!(back[0].contains("alice"));
    let refused = [r#"Refuse("invalid Linux user or group name")"#];
    assert_eq!(effects(Kde6DesktopProxyManager.enable("bad name", &config)), refused);
    assert_eq!(effects(Kde6DesktopProxyManager.disable("")), refused);
}

#[test]
fn routing_that_cannot_be_applied_is_taken_back() {
    let perform = |previous: Option<Vec<u8>>, fails: bool| {
        let mut file = previous.clone();
        let program = replace_routing(false, "/config", b"new".to_vec(), previous);
        let outcome = run(program, if fails { Some(2) } else { None }, |effect| match effect {
            RoutingEffect::Write { path, bytes, mode } => {
                assert_eq!((path.as_str(), *mode), ("/config/routing.toml", 0o640));
                file = Some(bytes.clone());
            }
            RoutingEffect::Remove { path, root } => {
                assert_eq!((path.as_str(), root.as_str()), ("/config/routing.toml", "/config"));
                file = None;
            }
            RoutingEffect::FindSelected | RoutingEffect::Apply => {}
        });
        (file, outcome.is_ok())
    };
    assert_eq!(perform(None, false), (Some(b"new".to_vec()), true));
    assert_eq!(perform(Some(b"old".to_vec()), true), (Some(b"old".to_vec()), false));
    assert_eq!(perform(None, true), (None, false));
}

#[test]
fn an_installation_moves_only_the_pointers_that_have_to() {
    let candidate = || PreparedInstall {
        core_version: "v2".into(),
        core_directory: "/core/v2".into(),
        asset_generation: "n".into(),
        asset_directory: "/assets/n".into(),
        config_generation: "b".into(),
        config_directory: None,
    };
    let plan = |had_core: bool, core: &str, assets: &str| {
        let found = InstallFacts {
            state: recorded_state(),
            had_core,
            core_link: Some(core.into()),
            asset_link: Some(assets.into()),
        };
        let plan = InstallPlan::new(
            candidate(),
            found,
            Vec::new(),
            TextMap::new(),
            &ManagerConfig::default(),
        );
        (plan.core_changed, plan.assets_changed)
    };
    assert_eq!(plan(true, "/core/v2", "/assets/n"), (false, false));
    assert_eq!(plan(false, "/core/v2", "/assets/n"), (true, false));
    assert_eq!(plan(true, "/core/v1", "/assets/m"), (true, true));
}

#[test]
fn subscriptions_end_up_private() {
    let installer = ArchInstaller::new(ManagerConfig::default(), &Vec::new());
    let plan = installer.plan_install(&ManagerConfig::default());
    let mut mode = None;
    let mut files = None;
    assert!(run(apply_install_actions(&plan), None, |effect| match effect {
        SetupEffect::MakeDir { path, mode: bits } if path.ends_with("subscriptions.d") => {
            mode = Some(*bits)
        }
        SetupEffect::ModeIfThere { path, mode: bits } if path.ends_with("subscriptions.d") => {
            mode = Some(*bits)
        }
        SetupEffect::FileModesIfThere { path, mode: bits } if path.ends_with("subscriptions.d") => {
            files = Some(*bits)
        }
        _ => {}
    })
    .is_ok());
    assert_eq!(mode, Some(0o700));
    assert_eq!(files, Some(0o600));
}

#[test]
fn removal_takes_only_what_was_created() {
    let identities = vec![
        group_identity("xray-tun"),
        membership_identity("alice", "xray-manager"),
    ];
    let mut dropped = Vec::new();
    let mut trees = Vec::new();
    assert!(run(apply_removal(true, &identities), None, |effect| match effect {
        RemovalEffect::DropGroup(group) => dropped.push(group.clone()),
        RemovalEffect::DropUser => dropped.push("user".into()),
        RemovalEffect::DropMember { user, group } => dropped.push(format!("{user}:{group}")),
        RemovalEffect::RemoveTree(path) => trees.push(path.clone()),
        _ => {}
    })
    .is_ok());
    assert!(dropped.contains(&"alice:xray-manager".to_owned()));
    assert!(dropped.contains(&"xray-tun".to_owned()));
    assert!(!dropped.contains(&"user".to_owned()));
    assert!(!trees.is_empty());
    let mut trees = 0;
    assert!(run(apply_removal(false, &identities), None, |effect| {
        trees += usize::from(matches!(effect, RemovalEffect::RemoveTree(_)));
    })
    .is_ok());
    assert_eq!(trees, 0);
}

#[test]
fn restoring_undoes_a_switch_and_two_rollbacks_change_nothing() {
    let mut files = FakeFileSystem::default();
    files.switch_generation("/current", "/previous", "/one");
    files.switch_generation("/current", "/previous", "/two");
    let before = format!("{:?}", files.generations);
    files.switch_generation("/current", "/previous", "/three");
    files.restore_generation("/current", "/previous", &Some("/two".into()), &Some("/one".into()));
    assert_eq!(format!("{:?}", files.generations), before);
    assert!(files.rollback_generation("/current", "/previous").is_ok());
    assert!(files.rollback_generation("/current", "/previous").is_ok());
    assert_eq!(format!("{:?}", files.generations), before);
    let mut empty = FakeFileSystem::default();
    assert!(matches!(
        empty.rollback_generation("/current", "/previous"),
        Err(ManagerError::Io(message)) if message == "current generation is missing"
    ));
    empty.switch_generation("/current", "/previous", "/one");
    assert!(matches!(
        empty.rollback_generation("/current", "/previous"),
        Err(ManagerError::Io(message)) if message == "previous generation is missing"
    ));
}

#[test]
fn fake_files_are_listed_and_removed_by_directory() {
    let mut files = FakeFileSystem::default();
    files.write_atomic("/state/b.json", &b"b".to_vec());
    files.write_atomic("/state/a.json", &b"a".to_vec());
    files.write_atomic("/state/deep/c.json", &b"c".to_vec());
    files.write_atomic("/statement.json", &b"d".to_vec());
    assert_eq!(files.list_files("/state"), ["/state/a.json", "/state/b.json"]);
    assert_eq!(files.read("/state/b.json").expect("file"), b"b");
    assert!(matches!(
        files.read("/none"),
        Err(ManagerError::Io(message)) if message == "/none not found"
    ));
    files.write_atomic("/spelled//out/./file", &b"x".to_vec());
    assert_eq!(files.contents("/spelled/out/file").as_deref(), Some(&b"x"[..]));
    assert!(files.is_present("/spelled/out//file/"));
    assert!(!files.is_present("spelled/out/file"));
    assert!(files.remove_owned("/statement.json", "/state").is_err());
    assert!(files.remove_owned("/state/deep", "/state").is_ok());
    assert!(!files.is_present("/state/deep/c.json"));
    assert!(files.is_present("/state/a.json"));
    assert!(files.contents("/statement.json").is_some());
}

#[test]
fn only_a_new_identity_is_recorded_as_created() {
    assert_eq!(created_group(false, "xray"), Some(group_identity("xray")));
    assert_eq!(created_group(true, "xray"), None);
    assert_eq!(created_user(false), Some("user:xray".to_owned()));
    assert_eq!(created_user(true), None);
    assert_eq!(created_membership(false, "a", "xray"), Some(membership_identity("a", "xray")));
    assert_eq!(created_membership(true, "a", "xray"), None);
}

#[test]
fn a_configuration_is_kept_where_it_is_there() {
    let mut state = ManagerState::default();
    assert_eq!(kept_configuration(&state, true), None);
    state.current_config_generation = Some("c1".into());
    assert_eq!(kept_configuration(&state, true), Some("c1".to_owned()));
    assert_eq!(kept_configuration(&state, false), None);
}

#[test]
fn the_node_that_was_rendered_is_recorded_as_selected() {
    let uri = "vless://123e4567-e89b-12d3-a456-426614174000@example.com:443#A";
    let node = parse_uri(uri, "main").expect("node");
    let routing = RoutingConfig::preset("global-proxy").expect("preset");
    let config = ManagerConfig::default();
    let made =
        Activation::new(&config, paths(), Some(&node), ManagerState::default(), "c".into(), "xray");
    assert_eq!(made.selected, Some(node.id.as_str().to_owned()));
    assert_eq!(made.keep, config.general.keep_generations);
    assert_eq!(made.tun_enabled, config.tun.enabled);
    for selected in [Some(&node), None] {
        let applied = Applied {
            config: &config,
            routing: &routing,
            selected,
            paths: paths(),
            state: ManagerState::default(),
            generation: "c".into(),
            executable_name: "xray",
        };
        let program = apply_config(applied, Vec::new()).expect("program");
        let mut written = None;
        assert!(run(program, None, |effect| {
            if let Effect::WriteState(state) = effect {
                written = Some(state.selected_node_id.clone());
            }
        })
        .is_ok());
        assert_eq!(written, Some(selected.map(|node| node.id.as_str().to_owned())));
    }
}

#[test]
fn a_failed_step_is_followed_by_its_undoing_alone() {
    let step = |effect, policy| Step { effect, policy };
    let program = || Program {
        main: vec![
            step("a", Policy::Fail),
            step("b", Policy::Ignore),
            step("c", Policy::Undo(0)),
            step("d", Policy::Fail),
        ],
        undos: vec![vec![step("x", Policy::Ignore), step("y", Policy::Ignore)]],
    };
    let trace = |failing| {
        let mut seen = Vec::new();
        let ended = run(program(), failing, |effect| seen.push(*effect)).is_ok();
        (seen, ended)
    };
    assert_eq!(trace(None), (vec!["a", "b", "c", "d"], true));
    assert_eq!(trace(Some(0)), (vec![], false));
    assert_eq!(trace(Some(1)), (vec!["a", "c", "d"], true));
    assert_eq!(trace(Some(2)), (vec!["a", "b", "x", "y"], false));
    assert_eq!(trace(Some(3)), (vec!["a", "b", "c"], false));
}

#[test]
fn a_refresh_records_only_a_new_selection() {
    let store = |selected| RefreshStore { nodes: Vec::new(), selected, warnings: Vec::new() };
    assert!(store(None).state_after(&recorded_state()).is_none());
    let after = store(Some("new".into())).state_after(&recorded_state()).expect("state");
    let mut expected = recorded_state();
    expected.selected_node_id = Some("new".into());
    assert_eq!(shown(&after), shown(&expected));
}
