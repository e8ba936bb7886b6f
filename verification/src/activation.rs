//! Activating a configuration, going back to an earlier one, and switching TUN
//! routing: programs of effects that undo what they did when a step fails.

use crate::config::{ManagerConfig, ManagerConfigView};
use crate::domain::{ManagerState, ManagerStateView, Node, NodeView};
use crate::error::{ManagerError, ManagerErrorView};
use crate::events::{ManagerEvent, ManagerEventView};
use crate::json::{Json, JsonObject, JsonView};
use crate::ports::{ManagerPaths, ManagerPathsView, XrayTestRequest, XrayTestRequestView};
use crate::program::{Policy, Program, ProgramView, Step, StepView};
use crate::render::Members;
use crate::routing::RoutingConfig;
use crate::error;
use crate::json;
use crate::ports;
use crate::program;
use crate::render;
use crate::text;
use vstd::prelude::*;

verus! {

/// What is done with a system service.
#[derive(Debug, Clone, Copy, PartialEq, Eq, Structural)]
pub enum ServiceVerb {
    Enable,
    Disable,
    Start,
    Stop,
    Restart,
}

/// Something to perform outside. `EmitValidationFailed` and
/// `EmitRollbackStarted` report the error that the program stands at, and
/// `RecordHealth` writes the state with the time of the last successful health
/// check.
#[derive(Debug)]
pub enum Effect {
    CreateDir { path: String },
    SetPermissions { path: String, mode: u32 },
    WriteJson { path: String, value: Json, mode: u32 },
    Emit(ManagerEvent),
    EmitValidationFailed,
    EmitRollbackStarted,
    TestConfig(XrayTestRequest),
    RemoveOwned { path: String, root: String },
    SetOwnership { path: String, user: String, group: String, recursive: bool },
    Switch { current: String, previous: String, target: String },
    Restore { current: String, previous: String, current_target: Option<String>, previous_target: Option<String> },
    SwapPointers { current: String, previous: String },
    WriteState(ManagerState),
    RecordHealth { clear_rollback_reason: bool },
    Healthcheck,
    Service { verb: ServiceVerb, name: String },
    RoutingEnable,
    RoutingDisable,
    FirewallEnable,
    FirewallDisable,
    Prune { root: String, current: String, previous: String, keep: usize },
}

/// The mathematical value of a [`Effect`].
#[verifier::ext_equal]
pub enum EffectView {
    CreateDir { path: Seq<char> },
    SetPermissions { path: Seq<char>, mode: u32 },
    WriteJson { path: Seq<char>, value: JsonView, mode: u32 },
    Emit(ManagerEventView),
    EmitValidationFailed,
    EmitRollbackStarted,
    TestConfig(XrayTestRequestView),
    RemoveOwned { path: Seq<char>, root: Seq<char> },
    SetOwnership { path: Seq<char>, user: Seq<char>, group: Seq<char>, recursive: bool },
    Switch { current: Seq<char>, previous: Seq<char>, target: Seq<char> },
    Restore { current: Seq<char>, previous: Seq<char>, current_target: Option<Seq<char>>, previous_target: Option<Seq<char>> },
    SwapPointers { current: Seq<char>, previous: Seq<char> },
    WriteState(ManagerStateView),
    RecordHealth { clear_rollback_reason: bool },
    Healthcheck,
    Service { verb: ServiceVerb, name: Seq<char> },
    RoutingEnable,
    RoutingDisable,
    FirewallEnable,
    FirewallDisable,
    Prune { root: Seq<char>, current: Seq<char>, previous: Seq<char>, keep: usize },
}

impl View for Effect {
    type V = EffectView;

    open spec fn view(&self) -> EffectView {
        match *self {
            Effect::CreateDir { path } => EffectView::CreateDir { path: path@ },
            Effect::SetPermissions { path, mode } => EffectView::SetPermissions { path: path@, mode },
            Effect::WriteJson { path, value, mode } => EffectView::WriteJson { path: path@, value: value@, mode },
            Effect::Emit(a) => EffectView::Emit(a@),
            Effect::EmitValidationFailed => EffectView::EmitValidationFailed,
            Effect::EmitRollbackStarted => EffectView::EmitRollbackStarted,
            Effect::TestConfig(a) => EffectView::TestConfig(a@),
            Effect::RemoveOwned { path, root } => EffectView::RemoveOwned { path: path@, root: root@ },
            Effect::SetOwnership { path, user, group, recursive } => EffectView::SetOwnership { path: path@, user: user@, group: group@, recursive },
            Effect::Switch { current, previous, target } => EffectView::Switch { current: current@, previous: previous@, target: target@ },
            Effect::Restore { current, previous, current_target, previous_target } => EffectView::Restore { current: current@, previous: previous@, current_target: text::opt_text(current_target), previous_target: text::opt_text(previous_target) },
            Effect::SwapPointers { current, previous } => EffectView::SwapPointers { current: current@, previous: previous@ },
            Effect::WriteState(a) => EffectView::WriteState(a@),
            Effect::RecordHealth { clear_rollback_reason } => EffectView::RecordHealth { clear_rollback_reason },
            Effect::Healthcheck => EffectView::Healthcheck,
            Effect::Service { verb, name } => EffectView::Service { verb, name: name@ },
            Effect::RoutingEnable => EffectView::RoutingEnable,
            Effect::RoutingDisable => EffectView::RoutingDisable,
            Effect::FirewallEnable => EffectView::FirewallEnable,
            Effect::FirewallDisable => EffectView::FirewallDisable,
            Effect::Prune { root, current, previous, keep } => EffectView::Prune { root: root@, current: current@, previous: previous@, keep },
        }
    }
}

/// What a configuration is activated with.
#[derive(Debug)]
pub struct Activation {
    pub paths: ManagerPaths,
    pub generation: String,
    pub executable_name: String,
    pub tun_enabled: bool,
    pub selected: Option<String>,
    pub state: ManagerState,
    pub keep: usize,
}

/// The activation of a configuration that was rendered for a node, or for none.
pub open spec fn activation_of(
    c: ManagerConfigView,
    paths: ManagerPathsView,
    selected: Option<NodeView>,
    state: ManagerStateView,
    generation: Seq<char>,
    executable_name: Seq<char>,
) -> ActivationView {
    ActivationView {
        paths,
        generation,
        executable_name,
        tun_enabled: c.tun.enabled,
        selected: match selected {
            Some(node) => Some(node.id),
            None => None,
        },
        state,
        keep: c.general.keep_generations,
    }
}

impl Activation {
    /// The activation of a configuration that was rendered for the selected
    /// node, or for none.
    pub fn new(
        config: &ManagerConfig,
        paths: ManagerPaths,
        selected: Option<&Node>,
        state: ManagerState,
        generation: String,
        executable_name: &str,
    ) -> (r: Activation)
        ensures
            r@ == activation_of(
                config@,
                paths@,
                render::opt_ref_node(selected),
                state@,
                generation@,
                executable_name@,
            ),
    {
        Activation {
            paths,
            generation,
            executable_name: text::owned(executable_name),
            tun_enabled: config.tun.enabled,
            selected: match selected {
                Some(node) => Some(text::owned(node.id.as_str())),
                None => None,
            },
            state,
            keep: config.general.keep_generations,
        }
    }
}

/// The mathematical value of a [`Activation`].
#[verifier::ext_equal]
pub struct ActivationView {
    pub paths: ManagerPathsView,
    pub generation: Seq<char>,
    pub executable_name: Seq<char>,
    pub tun_enabled: bool,
    pub selected: Option<Seq<char>>,
    pub state: ManagerStateView,
    pub keep: usize,
}

impl View for Activation {
    type V = ActivationView;

    open spec fn view(&self) -> ActivationView {
        ActivationView {
            paths: self.paths@,
            generation: self.generation@,
            executable_name: self.executable_name@,
            tun_enabled: self.tun_enabled,
            selected: text::opt_text(self.selected),
            state: self.state@,
            keep: self.keep,
        }
    }
}

/// The directory of all configuration generations.
pub open spec fn generations_root(a: ActivationView) -> Seq<char> {
    ports::path_join(a.paths.windows, a.paths.state_dir, "generations"@)
}

/// The directory of the new generation.
pub open spec fn candidate(a: ActivationView) -> Seq<char> {
    ports::path_join(a.paths.windows, generations_root(a), a.generation)
}

/// The configuration directory of the new generation.
pub open spec fn candidate_conf(a: ActivationView) -> Seq<char> {
    ports::path_join(a.paths.windows, candidate(a), "conf.d"@)
}

pub open spec fn current_pointer(a: ActivationView) -> Seq<char> {
    ports::path_join(a.paths.windows, a.paths.state_dir, "current"@)
}

pub open spec fn previous_pointer(a: ActivationView) -> Seq<char> {
    ports::path_join(a.paths.windows, a.paths.state_dir, "previous"@)
}

/// The directory of a generation, where there is one.
pub open spec fn generation_dir(a: ActivationView, generation: Option<Seq<char>>) -> Option<Seq<char>> {
    match generation {
        Some(g) => Some(ports::path_join(a.paths.windows, generations_root(a), g)),
        None => None,
    }
}

/// The state with the new generation.
pub open spec fn activated_state(a: ActivationView) -> ManagerStateView {
    ManagerStateView {
        previous_config_generation: a.state.current_config_generation,
        current_config_generation: Some(a.generation),
        selected_node_id: a.selected,
        ..a.state
    }
}

/// The state after a failed activation: as before, with the reason.
pub open spec fn restored_state(a: ActivationView) -> ManagerStateView {
    ManagerStateView {
        last_rollback_reason: Some("configuration activation or healthcheck failed"@),
        ..a.state
    }
}

pub open spec fn remove_candidate(a: ActivationView) -> StepView<EffectView> {
    program::step(
        EffectView::RemoveOwned { path: candidate(a), root: generations_root(a) },
        Policy::Ignore,
    )
}

pub open spec fn restore_pointers(a: ActivationView) -> EffectView {
    EffectView::Restore {
        current: current_pointer(a),
        previous: previous_pointer(a),
        current_target: generation_dir(a, a.state.current_config_generation),
        previous_target: generation_dir(a, a.state.previous_config_generation),
    }
}

pub open spec fn service_step(
    verb: ServiceVerb,
    name: Seq<char>,
    policy: Policy,
) -> StepView<EffectView> {
    program::step(EffectView::Service { verb, name }, policy)
}

pub open spec fn emit_step(event: ManagerEventView) -> StepView<EffectView> {
    program::step(EffectView::Emit(event), Policy::Ignore)
}

/// The directories of the new generation.
pub open spec fn make_directories(a: ActivationView) -> Seq<StepView<EffectView>> {
    seq![
        program::step(EffectView::CreateDir { path: candidate_conf(a) }, Policy::Fail),
        program::step(EffectView::SetPermissions { path: candidate(a), mode: 0o750 }, Policy::Fail),
        program::step(EffectView::SetPermissions { path: candidate_conf(a), mode: 0o750 }, Policy::Fail),
    ]
}

/// A file below a directory.
pub open spec fn write_step(windows: bool, directory: Seq<char>, file: (Seq<char>, JsonView)) -> StepView<
    EffectView,
> {
    program::step(
        EffectView::WriteJson { path: ports::path_join(windows, directory, file.0), value: file.1, mode: 0o640 },
        Policy::Fail,
    )
}

/// The files of the new generation.
pub open spec fn write_files(
    windows: bool,
    directory: Seq<char>,
    files: Seq<(Seq<char>, JsonView)>,
) -> Seq<StepView<EffectView>> {
    files.map_values(|f: (Seq<char>, JsonView)| write_step(windows, directory, f))
}

/// Testing the new generation, making it current and recording that.
pub open spec fn commit_steps(a: ActivationView) -> Seq<StepView<EffectView>> {
    seq![
        emit_step(ManagerEventView::ConfigValidationStarted),
        program::step(
            EffectView::TestConfig(
                XrayTestRequestView {
                    executable: ports::path_join(
                        a.paths.windows,
                        ports::path_join(a.paths.windows, a.paths.install_dir, "core/current"@),
                        a.executable_name,
                    ),
                    config_dir: candidate_conf(a),
                    asset_dir: ports::path_join(a.paths.windows, a.paths.install_dir, "assets/current"@),
                },
            ),
            Policy::Undo(0),
        ),
        emit_step(ManagerEventView::ConfigValidationSucceeded),
        program::step(
            EffectView::SetOwnership {
                path: candidate(a),
                user: "xray"@,
                group: "xray"@,
                recursive: true,
            },
            Policy::Undo(1),
        ),
        program::step(
            EffectView::Switch {
                current: current_pointer(a),
                previous: previous_pointer(a),
                target: candidate(a),
            },
            Policy::Undo(1),
        ),
        program::step(EffectView::WriteState(activated_state(a)), Policy::Undo(2)),
        emit_step(ManagerEventView::ServiceRestartStarted),
    ]
}

/// Starting the services on the new generation.
pub open spec fn start_steps(a: ActivationView) -> Seq<StepView<EffectView>> {
    let policy = "xray-tun-policy.service"@;
    let tun = if a.tun_enabled {
        seq![
            service_step(ServiceVerb::Enable, policy, Policy::Undo(3)),
            service_step(ServiceVerb::Start, policy, Policy::Undo(3)),
        ]
    } else {
        seq![
            service_step(ServiceVerb::Stop, policy, Policy::Ignore),
            program::step(EffectView::RoutingDisable, Policy::Undo(3)),
            program::step(EffectView::FirewallDisable, Policy::Undo(3)),
            service_step(ServiceVerb::Disable, policy, Policy::Undo(3)),
        ]
    };
    let xray = seq![
        service_step(ServiceVerb::Enable, "xray.service"@, Policy::Undo(3)),
        service_step(ServiceVerb::Restart, "xray.service"@, Policy::Undo(3)),
    ];
    let health = if a.selected is Some {
        seq![program::step(EffectView::Healthcheck, Policy::Undo(3))]
    } else {
        Seq::empty()
    };
    tun + xray + health
}

/// What follows a successful activation.
pub open spec fn finish_steps(a: ActivationView) -> Seq<StepView<EffectView>> {
    let health = if a.selected is Some {
        seq![program::step(EffectView::RecordHealth { clear_rollback_reason: true }, Policy::Fail)]
    } else {
        Seq::empty()
    };
    seq![emit_step(ManagerEventView::ServiceRestartSucceeded)] + health + seq![
        program::step(
            EffectView::Prune {
                root: generations_root(a),
                current: current_pointer(a),
                previous: previous_pointer(a),
                keep: a.keep,
            },
            Policy::Ignore,
        ),
    ]
}

/// What is undone: a failed test, a failed switch, a failed record, a failed start.
pub open spec fn activation_undos(a: ActivationView) -> Seq<Seq<StepView<EffectView>>> {
    seq![
        seq![program::step(EffectView::EmitValidationFailed, Policy::Ignore), remove_candidate(a)],
        seq![remove_candidate(a)],
        seq![program::step(restore_pointers(a), Policy::Ignore), remove_candidate(a)],
        seq![
            program::step(EffectView::EmitRollbackStarted, Policy::Ignore),
            program::step(restore_pointers(a), Policy::Fail),
            program::step(EffectView::WriteState(restored_state(a)), Policy::Fail),
            service_step(ServiceVerb::Restart, "xray.service"@, Policy::Ignore),
            remove_candidate(a),
            emit_step(ManagerEventView::RollbackSucceeded),
        ],
    ]
}

/// The program that activates a configuration.
pub open spec fn activation(a: ActivationView, files: Seq<(Seq<char>, JsonView)>) -> ProgramView<
    EffectView,
> {
    ProgramView {
        main: make_directories(a) + write_files(a.paths.windows, candidate_conf(a), files) + commit_steps(a)
            + start_steps(a) + finish_steps(a),
        undos: activation_undos(a),
    }
}

/// The files of an object, in entry order.
pub open spec fn file_list(entries: Seq<(String, Json)>) -> Seq<(Seq<char>, JsonView)> {
    entries.map_values(|e: (String, Json)| (e.0@, json::json_view(e.1)))
}

impl Activation {
    fn root(&self) -> (r: String)
        ensures
            r@ == generations_root(self@),
    {
        ports::join_path(self.paths.windows, self.paths.state_dir.as_str(), "generations")
    }

    fn candidate_path(&self) -> (r: String)
        ensures
            r@ == candidate(self@),
    {
        ports::join_path(self.paths.windows, self.root().as_str(), self.generation.as_str())
    }

    fn conf_path(&self) -> (r: String)
        ensures
            r@ == candidate_conf(self@),
    {
        ports::join_path(self.paths.windows, self.candidate_path().as_str(), "conf.d")
    }

    fn current_path(&self) -> (r: String)
        ensures
            r@ == current_pointer(self@),
    {
        ports::join_path(self.paths.windows, self.paths.state_dir.as_str(), "current")
    }

    fn previous_path(&self) -> (r: String)
        ensures
            r@ == previous_pointer(self@),
    {
        ports::join_path(self.paths.windows, self.paths.state_dir.as_str(), "previous")
    }

    fn directory_of(&self, generation: &Option<String>) -> (r: Option<String>)
        ensures
            text::opt_text(r) == generation_dir(self@, text::opt_text(*generation)),
    {
        match generation {
            Some(g) => Some(ports::join_path(self.paths.windows, self.root().as_str(), g.as_str())),
            None => None,
        }
    }

    fn restore(&self) -> (r: Effect)
        ensures
            r@ == restore_pointers(self@),
    {
        Effect::Restore {
            current: self.current_path(),
            previous: self.previous_path(),
            current_target: self.directory_of(&self.state.current_config_generation),
            previous_target: self.directory_of(&self.state.previous_config_generation),
        }
    }

    fn remove(&self) -> (r: Effect)
        ensures
            r@ == remove_candidate(self@).effect,
    {
        Effect::RemoveOwned { path: self.candidate_path(), root: self.root() }
    }

    fn push_commit(&self, main: &mut Vec<Step<Effect>>)
        ensures
            program::step_views(final(main)@) == program::step_views(old(main)@) + commit_steps(self@),
    {
        let ghost before = program::step_views(main@);
        program::push_step(main, Effect::Emit(ManagerEvent::ConfigValidationStarted), Policy::Ignore);
        let core = ports::join_path(self.paths.windows, self.paths.install_dir.as_str(), "core/current");
        program::push_step(
            main,
            Effect::TestConfig(
                XrayTestRequest {
                    executable: ports::join_path(self.paths.windows, core.as_str(), self.executable_name.as_str()),
                    config_dir: self.conf_path(),
                    asset_dir: ports::join_path(self.paths.windows, self.paths.install_dir.as_str(), "assets/current"),
                },
            ),
            Policy::Undo(0),
        );
        program::push_step(main, Effect::Emit(ManagerEvent::ConfigValidationSucceeded), Policy::Ignore);
        program::push_step(
            main,
            Effect::SetOwnership {
                path: self.candidate_path(),
                user: text::owned("xray"),
                group: text::owned("xray"),
                recursive: true,
            },
            Policy::Undo(1),
        );
        program::push_step(
            main,
            Effect::Switch {
                current: self.current_path(),
                previous: self.previous_path(),
                target: self.candidate_path(),
            },
            Policy::Undo(1),
        );
        let mut state = self.state.clone();
        state.previous_config_generation = text::copy_opt(&self.state.current_config_generation);
        state.current_config_generation = Some(self.generation.clone());
        state.selected_node_id = text::copy_opt(&self.selected);
        program::push_step(main, Effect::WriteState(state), Policy::Undo(2));
        program::push_step(main, Effect::Emit(ManagerEvent::ServiceRestartStarted), Policy::Ignore);
        assert(program::step_views(main@) =~= before + commit_steps(self@));
    }

    fn push_start(&self, main: &mut Vec<Step<Effect>>)
        ensures
            program::step_views(final(main)@) == program::step_views(old(main)@) + start_steps(self@),
    {
        let ghost before = program::step_views(main@);
        if self.tun_enabled {
            program::push_step(
                main,
                Effect::Service {
                    verb: ServiceVerb::Enable,
                    name: text::owned("xray-tun-policy.service"),
                },
                Policy::Undo(3),
            );
            program::push_step(
                main,
                Effect::Service {
                    verb: ServiceVerb::Start,
                    name: text::owned("xray-tun-policy.service"),
                },
                Policy::Undo(3),
            );
        } else {
            program::push_step(
                main,
                Effect::Service {
                    verb: ServiceVerb::Stop,
                    name: text::owned("xray-tun-policy.service"),
                },
                Policy::Ignore,
            );
            program::push_step(main, Effect::RoutingDisable, Policy::Undo(3));
            program::push_step(main, Effect::FirewallDisable, Policy::Undo(3));
            program::push_step(
                main,
                Effect::Service {
                    verb: ServiceVerb::Disable,
                    name: text::owned("xray-tun-policy.service"),
                },
                Policy::Undo(3),
            );
        }
        program::push_step(
            main,
            Effect::Service { verb: ServiceVerb::Enable, name: text::owned("xray.service") },
            Policy::Undo(3),
        );
        program::push_step(
            main,
            Effect::Service { verb: ServiceVerb::Restart, name: text::owned("xray.service") },
            Policy::Undo(3),
        );
        if self.selected.is_some() {
            program::push_step(main, Effect::Healthcheck, Policy::Undo(3));
        }
        assert(program::step_views(main@) =~= before + start_steps(self@));
    }

    fn push_finish(&self, main: &mut Vec<Step<Effect>>)
        ensures
            program::step_views(final(main)@) == program::step_views(old(main)@) + finish_steps(self@),
    {
        let ghost before = program::step_views(main@);
        program::push_step(main, Effect::Emit(ManagerEvent::ServiceRestartSucceeded), Policy::Ignore);
        if self.selected.is_some() {
            program::push_step(
                main,
                Effect::RecordHealth { clear_rollback_reason: true },
                Policy::Fail,
            );
        }
        program::push_step(
            main,
            Effect::Prune {
                root: self.root(),
                current: self.current_path(),
                previous: self.previous_path(),
                keep: self.keep,
            },
            Policy::Ignore,
        );
        assert(program::step_views(main@) =~= before + finish_steps(self@));
    }

    fn undo_blocks(&self) -> (r: Vec<Vec<Step<Effect>>>)
        ensures
            program::undo_views(r@) == activation_undos(self@),
    {
        let mut test: Vec<Step<Effect>> = program::no_steps();
        program::push_step(&mut test, Effect::EmitValidationFailed, Policy::Ignore);
        program::push_step(&mut test, self.remove(), Policy::Ignore);
        let mut switch: Vec<Step<Effect>> = program::no_steps();
        program::push_step(&mut switch, self.remove(), Policy::Ignore);
        let mut record: Vec<Step<Effect>> = program::no_steps();
        program::push_step(&mut record, self.restore(), Policy::Ignore);
        program::push_step(&mut record, self.remove(), Policy::Ignore);
        let mut start: Vec<Step<Effect>> = program::no_steps();
        program::push_step(&mut start, Effect::EmitRollbackStarted, Policy::Ignore);
        program::push_step(&mut start, self.restore(), Policy::Fail);
        let mut state = self.state.clone();
        state.last_rollback_reason = Some(text::owned("configuration activation or healthcheck failed"));
        program::push_step(&mut start, Effect::WriteState(state), Policy::Fail);
        program::push_step(
            &mut start,
            Effect::Service { verb: ServiceVerb::Restart, name: text::owned("xray.service") },
            Policy::Ignore,
        );
        program::push_step(&mut start, self.remove(), Policy::Ignore);
        program::push_step(&mut start, Effect::Emit(ManagerEvent::RollbackSucceeded), Policy::Ignore);
        let ghost want = activation_undos(self@);
        assert(program::step_views(test@) =~= want[0]);
        assert(program::step_views(switch@) =~= want[1]);
        assert(program::step_views(record@) =~= want[2]);
        assert(program::step_views(start@) =~= want[3]);
        let r: Vec<Vec<Step<Effect>>> = vec![test, switch, record, start];
        assert(program::undo_views(r@) =~= want);
        r
    }

    /// The program that activates the rendered files.
    pub fn program(&self, files: &JsonObject) -> (r: Program<Effect>)
        ensures
            r@ == activation(self@, file_list(files.entries@)),
            r.wf(),
    {
        let mut main: Vec<Step<Effect>> = program::no_steps();
        program::push_step(&mut main, Effect::CreateDir { path: self.conf_path() }, Policy::Fail);
        program::push_step(
            &mut main,
            Effect::SetPermissions { path: self.candidate_path(), mode: 0o750 },
            Policy::Fail,
        );
        program::push_step(
            &mut main,
            Effect::SetPermissions { path: self.conf_path(), mode: 0o750 },
            Policy::Fail,
        );
        assert(program::step_views(main@) =~= make_directories(self@));
        push_files(&mut main, self.paths.windows, self.conf_path().as_str(), files);
        self.push_commit(&mut main);
        self.push_start(&mut main);
        self.push_finish(&mut main);
        let r = Program { main, undos: self.undo_blocks() };
        proof {
            let list = file_list(files.entries@);
            assert(r@ =~= activation(self@, list));
            lemma_activation_refers_inside(self@, list);
            program::lemma_refers_inside(r);
        }
        r
    }
}

/// What a configuration is rendered from and activated with.
pub struct Applied<'a> {
    pub config: &'a ManagerConfig,
    pub routing: &'a RoutingConfig,
    pub selected: Option<&'a Node>,
    pub paths: ManagerPaths,
    pub state: ManagerState,
    pub generation: String,
    pub executable_name: &'a str,
}

/// Renders the configuration for the selected node, or for none, and makes the
/// program that activates it. The node that is recorded as selected is the one
/// that the files were rendered for.
pub fn apply_config(applied: Applied<'_>, fragments: Vec<Json>) -> (r: Result<
    Program<Effect>,
    ManagerError,
>)
    ensures
        ({
            let node = render::opt_ref_node(applied.selected);
            let rendered = render::rendered_files(
                applied.config@,
                node,
                applied.routing@,
                json::array_view(fragments@),
            );
            match r {
                Ok(p) => p.wf() && exists|entries: Seq<(String, Json)>|
                    rendered == Ok::<Members, ManagerErrorView>(
                        #[trigger] json::object_view(entries),
                    ) && p@ == activation(
                        activation_of(
                            applied.config@,
                            applied.paths@,
                            node,
                            applied.state@,
                            applied.generation@,
                            applied.executable_name@,
                        ),
                        file_list(entries),
                    ),
                Err(e) => rendered == Err::<Members, ManagerErrorView>(e@),
            }
        }),
{
    match render::render_xray_config(
        applied.config,
        applied.selected,
        applied.routing,
        fragments,
    ) {
        Ok(files) => {
            let activation = Activation::new(
                applied.config,
                applied.paths,
                applied.selected,
                applied.state,
                applied.generation,
                applied.executable_name,
            );
            assert(files@ == json::object_view(files.entries@));
            Ok(activation.program(&files))
        },
        Err(e) => Err(e),
    }
}

pub fn push_files(main: &mut Vec<Step<Effect>>, windows: bool, directory: &str, files: &JsonObject)
    ensures
        program::step_views(final(main)@) == program::step_views(old(main)@) + write_files(
            windows,
            directory@,
            file_list(files.entries@),
        ),
{
    let ghost before = program::step_views(main@);
    let ghost all = write_files(windows, directory@, file_list(files.entries@));
    let mut i: usize = 0;
    assert(before + all.take(0) =~= before);
    while i < files.entries.len()
        invariant
            i <= files.entries@.len(),
            all == write_files(windows, directory@, file_list(files.entries@)),
            program::step_views(main@) == before + all.take(i as int),
        decreases files.entries@.len() - i,
    {
        let e = &files.entries[i];
        program::push_step(
            main,
            Effect::WriteJson {
                path: ports::join_path(windows, directory, e.0.as_str()),
                value: e.1.copy(),
                mode: 0o640,
            },
            Policy::Fail,
        );
        assert(before + all.take(i + 1) =~= (before + all.take(i as int)).push(all[i as int]));
        i += 1;
    }
    assert(all.take(all.len() as int) =~= all);
}

proof fn lemma_activation_refers_inside(a: ActivationView, files: Seq<(Seq<char>, JsonView)>)
    ensures
        program::refers_inside(activation(a, files)),
{
    let p = activation(a, files);
    let w = write_files(a.paths.windows, candidate_conf(a), files);
    let d = make_directories(a);
    let c = commit_steps(a);
    let s = start_steps(a);
    let f = finish_steps(a);
    assert(p.undos.len() == 4);
    assert forall|i: int| 0 <= i < p.main.len() implies match (#[trigger] p.main[i]).policy {
        Policy::Undo(k) => k < p.undos.len(),
        _ => true,
    } by {
        let n1 = d.len() as int;
        let n2 = n1 + w.len();
        let n3 = n2 + c.len();
        let n4 = n3 + s.len();
        if i < n1 {
            assert(p.main[i] == d[i]);
        } else if i < n2 {
            assert(p.main[i] == w[i - n1]);
        } else if i < n3 {
            assert(p.main[i] == c[i - n2]);
        } else if i < n4 {
            assert(p.main[i] == s[i - n3]);
        } else {
            assert(p.main[i] == f[i - n4]);
        }
    }
}

/// What the effects of an activation change: the two generation pointers and
/// the recorded state.
#[verifier::ext_equal]
pub struct Installed {
    pub current: Option<Seq<char>>,
    pub previous: Option<Seq<char>>,
    pub state: ManagerStateView,
}

/// What a successful effect makes of the pointers and the state; `now` is the
/// time that a health check is recorded with.
pub open spec fn performed(w: Installed, e: EffectView, now: Seq<char>) -> Installed {
    match e {
        EffectView::Switch { target, .. } => Installed {
            current: Some(target),
            previous: if w.current is Some {
                w.current
            } else {
                w.previous
            },
            ..w
        },
        EffectView::Restore { current_target, previous_target, .. } => Installed {
            current: current_target,
            previous: previous_target,
            ..w
        },
        EffectView::SwapPointers { .. } => Installed {
            current: w.previous,
            previous: w.current,
            ..w
        },
        EffectView::WriteState(s) => Installed { state: s, ..w },
        EffectView::RecordHealth { clear_rollback_reason } => Installed {
            state: ManagerStateView {
                last_successful_healthcheck: Some(now),
                last_rollback_reason: if clear_rollback_reason {
                    None
                } else {
                    w.state.last_rollback_reason
                },
                ..w.state
            },
            ..w
        },
        _ => w,
    }
}

pub open spec fn performing(now: Seq<char>) -> spec_fn(Installed, EffectView) -> Installed {
    |w: Installed, e: EffectView| performed(w, e, now)
}

/// The pointers agree with the recorded state.
pub open spec fn pointers_agree(a: ActivationView, w: Installed) -> bool {
    &&& w.state == a.state
    &&& w.current == generation_dir(a, a.state.current_config_generation)
    &&& w.previous == generation_dir(a, a.state.previous_config_generation)
}

/// How many steps there are up to the one that commits an activation by
/// recording the new state, and that one.
pub open spec fn commit_step(a: ActivationView, files: Seq<(Seq<char>, JsonView)>) -> nat {
    make_directories(a).len() + write_files(a.paths.windows, candidate_conf(a), files).len() + commit_steps(a).len()
}

/// How many steps there are before an activation is final.
pub open spec fn final_step(a: ActivationView, files: Seq<(Seq<char>, JsonView)>) -> nat {
    make_directories(a).len() + write_files(a.paths.windows, candidate_conf(a), files).len() + commit_steps(a).len()
        + start_steps(a).len()
}

/// Whichever step of an activation fails before it is final, undoing it brings
/// both generation pointers back. Where the new state was not yet recorded, the
/// old one is left alone; where it was, the old one is recorded again with the
/// reason of the rollback.
pub proof fn law_failed_activation_restores(
    a: ActivationView,
    files: Seq<(Seq<char>, JsonView)>,
    now: Seq<char>,
    i: int,
    w: Installed,
)
    requires
        pointers_agree(a, w),
        0 <= i < final_step(a, files),
        activation(a, files).main[i].policy != Policy::Ignore,
    ensures
        ({
            let end = program::world_of_failure(activation(a, files), performing(now), i, w);
            &&& end.current == w.current
            &&& end.previous == w.previous
            &&& i < commit_step(a, files) ==> end.state == w.state
            &&& i >= commit_step(a, files) ==> end.state == restored_state(a)
        }),
{
    let p = activation(a, files);
    let f = performing(now);
    let d = make_directories(a);
    let x = write_files(a.paths.windows, candidate_conf(a), files);
    let c = commit_steps(a);
    let s = start_steps(a);
    let n2 = (d.len() + x.len()) as int;
    let n3 = n2 + c.len();
    let early = d + x;
    let undos = activation_undos(a);
    assert(p.undos == undos);
    lemma_undo_blocks(a, now);
    if i < n2 {
        assert(p.main.take(i) =~= early.take(i));
        assert(p.main[i] == early[i]);
        lemma_harmless_early(a, files, now, i, w);
    } else if i < n3 {
        let k = i - n2;
        assert(p.main.take(i) =~= early + c.take(k));
        assert(p.main[i] == c[k]);
        assert(early.take(early.len() as int) =~= early);
        lemma_harmless_early(a, files, now, n2, w);
        program::lemma_world_concat(early, c.take(k), f, w);
        lemma_commit_prefix(a, now, k, w);
    } else {
        let k = i - n3;
        assert(p.main.take(i) =~= early + (c + s.take(k)));
        assert(p.main[i] == s[k]);
        assert(early.take(early.len() as int) =~= early);
        lemma_harmless_early(a, files, now, n2, w);
        program::lemma_world_concat(early, c + s.take(k), f, w);
        program::lemma_world_concat(c, s.take(k), f, w);
        assert(c.take(c.len() as int) =~= c);
        lemma_commit_prefix(a, now, c.len() as int, w);
        lemma_harmless_start(a, now, k, program::world_after(c, f, w));
        assert(s[k].policy == Policy::Undo(3));
    }
}

/// A completed activation has made the new generation current, kept the old
/// one as the previous, and recorded both and the selected node.
pub proof fn law_completed_activation(
    a: ActivationView,
    files: Seq<(Seq<char>, JsonView)>,
    now: Seq<char>,
    w: Installed,
)
    requires
        pointers_agree(a, w),
    ensures
        program::world_after(activation(a, files).main, performing(now), w) == (Installed {
            current: Some(candidate(a)),
            previous: if w.current is Some {
                w.current
            } else {
                w.previous
            },
            state: if a.selected is Some {
                healthy(activated_state(a), now, true)
            } else {
                activated_state(a)
            },
        }),
{
    let f = performing(now);
    let early = make_directories(a) + write_files(a.paths.windows, candidate_conf(a), files);
    let c = commit_steps(a);
    let s = start_steps(a);
    let e = finish_steps(a);
    let m = activation(a, files).main;
    assert(m =~= early + (c + (s + e)));
    program::lemma_world_concat(early, c + (s + e), f, w);
    assert(early.take(early.len() as int) =~= early);
    lemma_harmless_early(a, files, now, early.len() as int, w);
    program::lemma_world_concat(c, s + e, f, w);
    assert(c.take(c.len() as int) =~= c);
    let w1 = program::world_after(c, f, w);
    lemma_committed(a, now, w);
    program::lemma_world_concat(s, e, f, w1);
    assert(s.take(s.len() as int) =~= s);
    lemma_harmless_start(a, now, s.len() as int, w1);
    lemma_finished(a, now, w1);
}

proof fn lemma_committed(a: ActivationView, now: Seq<char>, w: Installed)
    ensures
        program::world_after(commit_steps(a), performing(now), w) == (Installed {
            current: Some(candidate(a)),
            previous: if w.current is Some {
                w.current
            } else {
                w.previous
            },
            state: activated_state(a),
        }),
{
    let c = commit_steps(a);
    lemma_commit_prefix(a, now, 4, w);
    reveal_with_fuel(program::world_after, 4);
    assert(c.drop_last() =~= c.take(6));
    assert(c.take(6).drop_last() =~= c.take(5));
    assert(c.take(5).drop_last() =~= c.take(4));
}

proof fn lemma_finished(a: ActivationView, now: Seq<char>, w: Installed)
    ensures
        program::world_after(finish_steps(a), performing(now), w) == (Installed {
            state: if a.selected is Some {
                healthy(w.state, now, true)
            } else {
                w.state
            },
            ..w
        }),
{
    let e = finish_steps(a);
    reveal_with_fuel(program::world_after, 4);
    assert(e.drop_last().drop_last() =~= (if a.selected is Some {
        e.take(1)
    } else {
        Seq::<program::StepView<EffectView>>::empty()
    }));
    if a.selected is Some {
        assert(e.take(1).drop_last() =~= Seq::<program::StepView<EffectView>>::empty());
    }
}

proof fn lemma_undo_blocks(a: ActivationView, now: Seq<char>)
    ensures
        forall|w: Installed| #[trigger]
            program::world_after(activation_undos(a)[0], performing(now), w) == w,
        forall|w: Installed| #[trigger]
            program::world_after(activation_undos(a)[1], performing(now), w) == w,
        forall|w: Installed| #[trigger]
            program::world_after(activation_undos(a)[2], performing(now), w) == performed(
                w,
                restore_pointers(a),
                now,
            ),
        forall|w: Installed| #[trigger]
            program::world_after(activation_undos(a)[3], performing(now), w) == (Installed {
                state: restored_state(a),
                ..performed(w, restore_pointers(a), now)
            }),
{
    let f = performing(now);
    let u = activation_undos(a);
    assert forall|w: Installed| #[trigger] program::world_after(u[0], f, w) == w by {
        program::lemma_world_unchanged(u[0], f, w);
    }
    assert forall|w: Installed| #[trigger] program::world_after(u[1], f, w) == w by {
        program::lemma_world_unchanged(u[1], f, w);
    }
    assert forall|w: Installed| #[trigger]
        program::world_after(u[2], f, w) == performed(w, restore_pointers(a), now) by {
        let b = u[2];
        assert(b.drop_last() =~= seq![b[0]]);
        assert(seq![b[0]].drop_last() =~= Seq::<StepView<EffectView>>::empty());
        reveal_with_fuel(program::world_after, 3);
        assert(f(f(w, b[0].effect), b[1].effect) == f(w, b[0].effect));
    }
    assert forall|w: Installed| #[trigger]
        program::world_after(u[3], f, w) == (Installed {
            state: restored_state(a),
            ..performed(w, restore_pointers(a), now)
        }) by {
        let b = u[3];
        let first = b.take(3);
        let rest = b.skip(3);
        assert(b =~= first + rest);
        program::lemma_world_concat(first, rest, f, w);
        program::lemma_world_unchanged(rest, f, program::world_after(first, f, w));
        assert(first.drop_last() =~= seq![b[0], b[1]]);
        assert(seq![b[0], b[1]].drop_last() =~= seq![b[0]]);
        assert(seq![b[0]].drop_last() =~= Seq::<StepView<EffectView>>::empty());
        reveal_with_fuel(program::world_after, 4);
    }
}

proof fn lemma_harmless_early(
    a: ActivationView,
    files: Seq<(Seq<char>, JsonView)>,
    now: Seq<char>,
    i: int,
    w: Installed,
)
    requires
        0 <= i <= make_directories(a).len() + files.len(),
    ensures
        program::world_after(
            (make_directories(a) + write_files(a.paths.windows, candidate_conf(a), files)).take(i),
            performing(now),
            w,
        ) == w,
        forall|k: int|
            0 <= k < make_directories(a).len() + files.len() ==> (#[trigger] (make_directories(a)
                + write_files(a.paths.windows, candidate_conf(a), files))[k]).policy == Policy::Fail,
{
    let d = make_directories(a);
    let x = write_files(a.paths.windows, candidate_conf(a), files);
    let steps = (d + x).take(i);
    let f = performing(now);
    assert forall|k: int| 0 <= k < d.len() + x.len() implies (#[trigger] (d + x)[k]).policy
        == Policy::Fail by {
        if k < d.len() {
            assert((d + x)[k] == d[k]);
        } else {
            assert((d + x)[k] == x[k - d.len()]);
        }
    }
    assert forall|k: int, y: Installed| 0 <= k < steps.len() implies #[trigger] f(
        y,
        (#[trigger] steps[k]).effect,
    ) == y by {
        if k < d.len() {
            assert(steps[k] == d[k]);
        } else {
            assert(steps[k] == x[k - d.len()]);
        }
    }
    program::lemma_world_unchanged(steps, f, w);
}

proof fn lemma_commit_prefix(a: ActivationView, now: Seq<char>, k: int, w: Installed)
    requires
        0 <= k <= commit_steps(a).len(),
    ensures
        ({
            let reached = program::world_after(commit_steps(a).take(k), performing(now), w);
            &&& k <= 4 ==> reached == w
            &&& k == 5 ==> reached.state == w.state
            &&& k >= 6 ==> reached.state == activated_state(a)
        }),
    decreases k,
{
    let c = commit_steps(a);
    let f = performing(now);
    if k <= 4 {
        let steps = c.take(k);
        assert forall|j: int, y: Installed| 0 <= j < steps.len() implies #[trigger] f(
            y,
            (#[trigger] steps[j]).effect,
        ) == y by {
            assert(steps[j] == c[j]);
        }
        program::lemma_world_unchanged(steps, f, w);
    } else {
        lemma_commit_prefix(a, now, k - 1, w);
        assert(c.take(k).drop_last() =~= c.take(k - 1));
        assert(c.take(k).last() == c[k - 1]);
    }
}

proof fn lemma_harmless_start(a: ActivationView, now: Seq<char>, k: int, w: Installed)
    requires
        0 <= k <= start_steps(a).len(),
    ensures
        program::world_after(start_steps(a).take(k), performing(now), w) == w,
        forall|j: int|
            0 <= j < start_steps(a).len() ==> (#[trigger] start_steps(a)[j]).policy
                == Policy::Undo(3) || start_steps(a)[j].policy == Policy::Ignore,
{
    let s = start_steps(a);
    let steps = s.take(k);
    let f = performing(now);
    assert forall|j: int, y: Installed| 0 <= j < steps.len() implies #[trigger] f(
        y,
        (#[trigger] steps[j]).effect,
    ) == y by {
        assert(steps[j] == s[j]);
    }
    program::lemma_world_unchanged(steps, f, w);
}

/// The new generation is made current only after its configuration passed the
/// test: the switch comes behind the test, and a failed test ends the program.
pub proof fn law_switch_follows_test(a: ActivationView, files: Seq<(Seq<char>, JsonView)>, i: int)
    requires
        0 <= i < activation(a, files).main.len(),
        activation(a, files).main[i].effect is Switch,
    ensures
        exists|j: int|
            0 <= j < i && (#[trigger] activation(a, files).main[j]).effect is TestConfig
                && activation(a, files).main[j].policy == Policy::Undo(0),
        !exists|j: int|
            0 <= j < activation(a, files).undos[0].len() && (#[trigger] activation(
                a,
                files,
            ).undos[0][j]).effect is Switch,
{
    let p = activation(a, files);
    let d = make_directories(a);
    let x = write_files(a.paths.windows, candidate_conf(a), files);
    let c = commit_steps(a);
    let s = start_steps(a);
    let n1 = d.len() as int;
    let n2 = n1 + x.len();
    let n3 = n2 + c.len();
    let n4 = n3 + s.len();
    if i < n1 {
        assert(p.main[i] == d[i]);
    } else if i < n2 {
        assert(p.main[i] == x[i - n1]);
    } else if i < n3 {
        assert(p.main[i] == c[i - n2]);
        assert(p.main[n2 + 1] == c[1]);
        assert(i - n2 == 4);
    } else if i < n4 {
        assert(p.main[i] == s[i - n3]);
    } else {
        assert(p.main[i] == finish_steps(a)[i - n4]);
    }
    assert(p.undos[0].len() == 2);
}

/// What is rolled back by hand.
#[derive(Debug, Clone, Copy, PartialEq, Eq, Structural)]
pub enum Component {
    Configuration,
    Core,
    Assets,
}

pub open spec fn component_name(c: Component) -> Seq<char> {
    match c {
        Component::Configuration => "configuration"@,
        Component::Core => "core"@,
        Component::Assets => "assets"@,
    }
}

/// The pointers of a component.
pub open spec fn component_pointers(p: ManagerPathsView, c: Component) -> (Seq<char>, Seq<char>) {
    match c {
        Component::Configuration => (
            ports::path_join(p.windows, p.state_dir, "current"@),
            ports::path_join(p.windows, p.state_dir, "previous"@),
        ),
        Component::Core => (
            ports::path_join(p.windows, p.install_dir, "core/current"@),
            ports::path_join(p.windows, p.install_dir, "core/previous"@),
        ),
        Component::Assets => (
            ports::path_join(p.windows, p.install_dir, "assets/current"@),
            ports::path_join(p.windows, p.install_dir, "assets/previous"@),
        ),
    }
}

/// The state with the current and the previous of a component exchanged.
pub open spec fn exchanged(s: ManagerStateView, c: Component) -> ManagerStateView {
    match c {
        Component::Configuration => ManagerStateView {
            current_config_generation: s.previous_config_generation,
            previous_config_generation: s.current_config_generation,
            ..s
        },
        Component::Core => ManagerStateView {
            current_core_version: s.previous_core_version,
            previous_core_version: s.current_core_version,
            ..s
        },
        Component::Assets => ManagerStateView {
            current_asset_generation: s.previous_asset_generation,
            previous_asset_generation: s.current_asset_generation,
            ..s
        },
    }
}

/// The state after a rollback by hand.
pub open spec fn rolled_back(s: ManagerStateView, c: Component) -> ManagerStateView {
    ManagerStateView {
        last_rollback_reason: Some("manual "@ + component_name(c) + " rollback"@),
        ..exchanged(s, c)
    }
}

/// Rolling a component back twice brings its generations back to where they were.
pub proof fn law_rollback_twice(s: ManagerStateView, c: Component)
    ensures
        rolled_back(rolled_back(s, c), c) == (ManagerStateView {
            last_rollback_reason: Some("manual "@ + component_name(c) + " rollback"@),
            ..s
        }),
{
}

pub open spec fn swap_step(pointers: (Seq<char>, Seq<char>), policy: Policy) -> StepView<EffectView> {
    program::step(EffectView::SwapPointers { current: pointers.0, previous: pointers.1 }, policy)
}

/// The program that rolls a component back.
pub open spec fn rollback(p: ManagerPathsView, s: ManagerStateView, c: Component) -> ProgramView<
    EffectView,
> {
    let pointers = component_pointers(p, c);
    let base = seq![
        swap_step(pointers, Policy::Fail),
        program::step(EffectView::WriteState(rolled_back(s, c)), Policy::Undo(0)),
        service_step(ServiceVerb::Restart, "xray.service"@, Policy::Undo(0)),
    ];
    let health = if s.selected_node_id is Some {
        seq![
            program::step(EffectView::Healthcheck, Policy::Undo(0)),
            program::step(EffectView::RecordHealth { clear_rollback_reason: false }, Policy::Undo(0)),
        ]
    } else {
        Seq::empty()
    };
    ProgramView {
        main: base + health,
        undos: seq![
            seq![
                swap_step(pointers, Policy::Ignore),
                program::step(EffectView::WriteState(s), Policy::Fail),
                service_step(ServiceVerb::Restart, "xray.service"@, Policy::Ignore),
            ],
        ],
    }
}

fn swap_state(state: &ManagerState, c: Component) -> (r: ManagerState)
    ensures
        r@ == rolled_back(state@, c),
{
    let mut r = state.clone();
    let name = match c {
        Component::Configuration => {
            r.current_config_generation = text::copy_opt(&state.previous_config_generation);
            r.previous_config_generation = text::copy_opt(&state.current_config_generation);
            "configuration"
        },
        Component::Core => {
            r.current_core_version = text::copy_opt(&state.previous_core_version);
            r.previous_core_version = text::copy_opt(&state.current_core_version);
            "core"
        },
        Component::Assets => {
            r.current_asset_generation = text::copy_opt(&state.previous_asset_generation);
            r.previous_asset_generation = text::copy_opt(&state.current_asset_generation);
            "assets"
        },
    };
    r.last_rollback_reason = Some(text::concat3("manual ", name, " rollback"));
    r
}

fn pointers_of(paths: &ManagerPaths, c: Component) -> (r: (String, String))
    ensures
        (r.0@, r.1@) == component_pointers(paths@, c),
{
    match c {
        Component::Configuration => (
            ports::join_path(paths.windows, paths.state_dir.as_str(), "current"),
            ports::join_path(paths.windows, paths.state_dir.as_str(), "previous"),
        ),
        Component::Core => (
            ports::join_path(paths.windows, paths.install_dir.as_str(), "core/current"),
            ports::join_path(paths.windows, paths.install_dir.as_str(), "core/previous"),
        ),
        Component::Assets => (
            ports::join_path(paths.windows, paths.install_dir.as_str(), "assets/current"),
            ports::join_path(paths.windows, paths.install_dir.as_str(), "assets/previous"),
        ),
    }
}

/// The program that rolls a component back by hand.
pub fn rollback_program(paths: &ManagerPaths, state: &ManagerState, c: Component) -> (r: Program<Effect>)
    ensures
        r@ == rollback(paths@, state@, c),
        r.wf(),
{
    let (current, previous) = pointers_of(paths, c);
    let mut main: Vec<Step<Effect>> = program::no_steps();
    program::push_step(
        &mut main,
        Effect::SwapPointers { current: current.clone(), previous: previous.clone() },
        Policy::Fail,
    );
    program::push_step(&mut main, Effect::WriteState(swap_state(state, c)), Policy::Undo(0));
    program::push_step(
        &mut main,
        Effect::Service { verb: ServiceVerb::Restart, name: text::owned("xray.service") },
        Policy::Undo(0),
    );
    if state.selected_node_id.is_some() {
        program::push_step(&mut main, Effect::Healthcheck, Policy::Undo(0));
        program::push_step(
            &mut main,
            Effect::RecordHealth { clear_rollback_reason: false },
            Policy::Undo(0),
        );
    }
    let mut undo: Vec<Step<Effect>> = program::no_steps();
    program::push_step(&mut undo, Effect::SwapPointers { current, previous }, Policy::Ignore);
    program::push_step(&mut undo, Effect::WriteState(state.clone()), Policy::Fail);
    program::push_step(
        &mut undo,
        Effect::Service { verb: ServiceVerb::Restart, name: text::owned("xray.service") },
        Policy::Ignore,
    );
    let ghost want = rollback(paths@, state@, c);
    assert(program::step_views(main@) =~= want.main);
    assert(program::step_views(undo@) =~= want.undos[0]);
    let undos: Vec<Vec<Step<Effect>>> = vec![undo];
    assert(program::undo_views(undos@) =~= want.undos);
    let r = Program { main, undos };
    proof {
        assert(r@ =~= want);
        program::lemma_refers_inside(r);
    }
    r
}

/// Whichever step of a rollback fails, undoing it brings both pointers and the
/// state back.
pub proof fn law_failed_rollback_restores(
    p: ManagerPathsView,
    s: ManagerStateView,
    c: Component,
    now: Seq<char>,
    i: int,
    w: Installed,
)
    requires
        w.state == s,
        0 <= i < rollback(p, s, c).main.len(),
    ensures
        program::world_of_failure(rollback(p, s, c), performing(now), i, w) == w,
{
    let prog = rollback(p, s, c);
    let f = performing(now);
    let m = prog.main;
    let u = prog.undos[0];
    assert(m.take(0) =~= Seq::<StepView<EffectView>>::empty());
    assert(u.drop_last() =~= seq![u[0], u[1]]);
    assert(seq![u[0], u[1]].drop_last() =~= seq![u[0]]);
    assert(seq![u[0]].drop_last() =~= Seq::<StepView<EffectView>>::empty());
    assert forall|x: Installed| #[trigger] program::world_after(u, f, x) == (Installed {
        current: x.previous,
        previous: x.current,
        state: s,
    }) by {
        reveal_with_fuel(program::world_after, 4);
    }
    if i > 0 {
        lemma_rollback_prefix(p, s, c, now, i, w);
    }
}

proof fn lemma_rollback_prefix(
    p: ManagerPathsView,
    s: ManagerStateView,
    c: Component,
    now: Seq<char>,
    i: int,
    w: Installed,
)
    requires
        1 <= i <= rollback(p, s, c).main.len(),
    ensures
        ({
            let reached = program::world_after(rollback(p, s, c).main.take(i), performing(now), w);
            reached.current == w.previous && reached.previous == w.current
        }),
    decreases i,
{
    let m = rollback(p, s, c).main;
    assert(m.take(i).drop_last() =~= m.take(i - 1));
    assert(m.take(i).last() == m[i - 1]);
    if i == 1 {
        assert(m.take(0) =~= Seq::<StepView<EffectView>>::empty());
    } else {
        lemma_rollback_prefix(p, s, c, now, i - 1, w);
        assert(!(m[i - 1].effect is SwapPointers));
        assert(!(m[i - 1].effect is Switch));
        assert(!(m[i - 1].effect is Restore));
    }
}

/// The program that enables TUN routing.
pub open spec fn tun_enable() -> ProgramView<EffectView> {
    let policy = "xray-tun-policy.service"@;
    let routing = program::step(EffectView::RoutingDisable, Policy::Ignore);
    let firewall = program::step(EffectView::FirewallDisable, Policy::Ignore);
    ProgramView {
        main: seq![
            program::step(EffectView::FirewallEnable, Policy::Fail),
            program::step(EffectView::RoutingEnable, Policy::Undo(0)),
            service_step(ServiceVerb::Enable, policy, Policy::Undo(1)),
            service_step(ServiceVerb::Start, policy, Policy::Undo(1)),
            service_step(ServiceVerb::Restart, "xray.service"@, Policy::Undo(2)),
        ],
        undos: seq![
            seq![firewall],
            seq![routing, firewall],
            seq![service_step(ServiceVerb::Stop, policy, Policy::Ignore), routing, firewall],
        ],
    }
}

/// The program that enables TUN routing.
pub fn tun_enable_program() -> (r: Program<Effect>)
    ensures
        r@ == tun_enable(),
        r.wf(),
{
    let mut main: Vec<Step<Effect>> = program::no_steps();
    program::push_step(&mut main, Effect::FirewallEnable, Policy::Fail);
    program::push_step(&mut main, Effect::RoutingEnable, Policy::Undo(0));
    program::push_step(
        &mut main,
        Effect::Service { verb: ServiceVerb::Enable, name: text::owned("xray-tun-policy.service") },
        Policy::Undo(1),
    );
    program::push_step(
        &mut main,
        Effect::Service { verb: ServiceVerb::Start, name: text::owned("xray-tun-policy.service") },
        Policy::Undo(1),
    );
    program::push_step(
        &mut main,
        Effect::Service { verb: ServiceVerb::Restart, name: text::owned("xray.service") },
        Policy::Undo(2),
    );
    let mut first: Vec<Step<Effect>> = program::no_steps();
    program::push_step(&mut first, Effect::FirewallDisable, Policy::Ignore);
    let mut second: Vec<Step<Effect>> = program::no_steps();
    program::push_step(&mut second, Effect::RoutingDisable, Policy::Ignore);
    program::push_step(&mut second, Effect::FirewallDisable, Policy::Ignore);
    let mut third: Vec<Step<Effect>> = program::no_steps();
    program::push_step(
        &mut third,
        Effect::Service { verb: ServiceVerb::Stop, name: text::owned("xray-tun-policy.service") },
        Policy::Ignore,
    );
    program::push_step(&mut third, Effect::RoutingDisable, Policy::Ignore);
    program::push_step(&mut third, Effect::FirewallDisable, Policy::Ignore);
    let ghost want = tun_enable();
    assert(program::step_views(main@) =~= want.main);
    assert(program::step_views(first@) =~= want.undos[0]);
    assert(program::step_views(second@) =~= want.undos[1]);
    assert(program::step_views(third@) =~= want.undos[2]);
    let undos: Vec<Vec<Step<Effect>>> = vec![first, second, third];
    assert(program::undo_views(undos@) =~= want.undos);
    let r = Program { main, undos };
    proof {
        assert(r@ =~= want);
        program::lemma_refers_inside(r);
    }
    r
}

/// The program that disables TUN routing.
pub open spec fn tun_disable() -> ProgramView<EffectView> {
    let policy = "xray-tun-policy.service"@;
    ProgramView {
        main: seq![
            service_step(ServiceVerb::Stop, policy, Policy::Ignore),
            program::step(EffectView::RoutingDisable, Policy::Fail),
            program::step(EffectView::FirewallDisable, Policy::Fail),
            service_step(ServiceVerb::Disable, policy, Policy::Fail),
        ],
        undos: Seq::empty(),
    }
}

/// The program that disables TUN routing.
pub fn tun_disable_program() -> (r: Program<Effect>)
    ensures
        r@ == tun_disable(),
        r.wf(),
{
    let mut main: Vec<Step<Effect>> = program::no_steps();
    program::push_step(
        &mut main,
        Effect::Service { verb: ServiceVerb::Stop, name: text::owned("xray-tun-policy.service") },
        Policy::Ignore,
    );
    program::push_step(&mut main, Effect::RoutingDisable, Policy::Fail);
    program::push_step(&mut main, Effect::FirewallDisable, Policy::Fail);
    program::push_step(
        &mut main,
        Effect::Service { verb: ServiceVerb::Disable, name: text::owned("xray-tun-policy.service") },
        Policy::Fail,
    );
    let undos: Vec<Vec<Step<Effect>>> = Vec::new();
    let r = Program { main, undos };
    proof {
        let want = tun_disable();
        assert(program::step_views(main@) =~= want.main);
        assert(program::undo_views(undos@) =~= want.undos);
        assert(r@ =~= want);
        program::lemma_refers_inside(r);
    }
    r
}

/// Whether the firewall table and the routing rules of TUN are in place.
#[verifier::ext_equal]
pub struct TunRules {
    pub firewall: bool,
    pub routing: bool,
}

/// What a successful effect makes of the TUN rules.
pub open spec fn tun_performed() -> spec_fn(TunRules, EffectView) -> TunRules {
    |w: TunRules, e: EffectView|
        match e {
            EffectView::FirewallEnable => TunRules { firewall: true, ..w },
            EffectView::FirewallDisable => TunRules { firewall: false, ..w },
            EffectView::RoutingEnable => TunRules { routing: true, ..w },
            EffectView::RoutingDisable => TunRules { routing: false, ..w },
            _ => w,
        }
}

/// Enabling TUN from nothing puts both kinds of rules in place, and whichever
/// step fails, undoing it leaves none behind.
pub proof fn law_tun_enable_leaves_no_rules_behind(i: int, w: TunRules)
    requires
        0 <= i < tun_enable().main.len(),
        !w.firewall && !w.routing,
    ensures
        program::world_after(tun_enable().main, tun_performed(), w) == (TunRules {
            firewall: true,
            routing: true,
        }),
        program::world_of_failure(tun_enable(), tun_performed(), i, w) == w,
{
    let p = tun_enable();
    let f = tun_performed();
    let m = p.main;
    reveal_with_fuel(program::world_after, 6);
    assert(m.take(5) =~= m);
    assert(m.take(5).drop_last() =~= m.take(4));
    assert(m.take(4).drop_last() =~= m.take(3));
    assert(m.take(3).drop_last() =~= m.take(2));
    assert(m.take(2).drop_last() =~= m.take(1));
    assert(m.take(1).drop_last() =~= m.take(0));
    assert(m.take(0).len() == 0);
    let a = p.undos[0];
    let b = p.undos[1];
    let c = p.undos[2];
    assert(a.drop_last().len() == 0);
    assert(b.drop_last() =~= b.take(1));
    assert(b.take(1).drop_last().len() == 0);
    assert(c.drop_last() =~= c.take(2));
    assert(c.take(2).drop_last() =~= c.take(1));
    assert(c.take(1).drop_last().len() == 0);
}

/// The state with the time of a successful health check.
pub open spec fn healthy(s: ManagerStateView, now: Seq<char>, clear_reason: bool) -> ManagerStateView {
    ManagerStateView {
        last_successful_healthcheck: Some(now),
        last_rollback_reason: if clear_reason {
            None
        } else {
            s.last_rollback_reason
        },
        ..s
    }
}

/// The state with the time of a successful health check.
pub fn healthy_state(state: &ManagerState, unix_timestamp: i64, clear_reason: bool) -> (r: ManagerState)
    ensures
        r@ == healthy(state@, text::signed_decimal(unix_timestamp as int), clear_reason),
{
    let mut r = state.clone();
    r.last_successful_healthcheck = Some(text::signed_decimal_of(unix_timestamp));
    if clear_reason {
        r.last_rollback_reason = None;
    }
    r
}

/// The event that an effect emits at an error.
pub open spec fn error_event(e: EffectView, error: ManagerErrorView) -> Option<ManagerEventView> {
    match e {
        EffectView::EmitValidationFailed => Some(
            ManagerEventView::ConfigValidationFailed { code: error::error_code(error) },
        ),
        EffectView::EmitRollbackStarted => Some(
            ManagerEventView::RollbackStarted { reason: error::error_message(error) },
        ),
        _ => None,
    }
}

/// The event that an effect emits at an error.
pub fn event_at_error(effect: &Effect, error: &ManagerError) -> (r: Option<ManagerEvent>)
    ensures
        match r {
            Some(event) => error_event(effect@, error@) == Some(event@),
            None => error_event(effect@, error@) is None,
        },
{
    match effect {
        Effect::EmitValidationFailed => Some(
            ManagerEvent::ConfigValidationFailed { code: text::owned(error.code()) },
        ),
        Effect::EmitRollbackStarted => Some(
            ManagerEvent::RollbackStarted { reason: error.message() },
        ),
        _ => None,
    }
}

} // verus!
