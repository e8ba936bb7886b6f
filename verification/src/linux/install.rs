//! Activating an installation or an upgrade: programs that put every pointer
//! and the recorded state back when a step fails.

use crate::activation::ServiceVerb;
use crate::config::{ManagerConfig, ManagerConfigView};
use crate::domain::{ManagerState, ManagerStateView};
use crate::error::{ManagerError, ManagerErrorView};
use crate::ports::{UpgradeTarget, XrayTestRequest, XrayTestRequestView};
use crate::program::{Policy, Program, ProgramView, Step, StepView};
use crate::text_map::TextMap;
use crate::linux::arch;
use crate::ports;
use crate::program;
use crate::storage;
use crate::text;
use vstd::prelude::*;

verus! {

/// What there are generations of.
#[derive(Debug, Clone, Copy, PartialEq, Eq, Structural)]
pub enum Store {
    Core,
    Assets,
    Config,
}

/// The directory of all generations.
pub open spec fn store_root(s: Store) -> Seq<char> {
    match s {
        Store::Core => "/opt/xray-manager/core/versions"@,
        Store::Assets => "/opt/xray-manager/assets/generations"@,
        Store::Config => "/var/lib/xray-manager/generations"@,
    }
}

/// The pointer to the current generation.
pub open spec fn store_current(s: Store) -> Seq<char> {
    match s {
        Store::Core => "/opt/xray-manager/core/current"@,
        Store::Assets => "/opt/xray-manager/assets/current"@,
        Store::Config => "/var/lib/xray-manager/current"@,
    }
}

/// The pointer to the previous generation.
pub open spec fn store_previous(s: Store) -> Seq<char> {
    match s {
        Store::Core => "/opt/xray-manager/core/previous"@,
        Store::Assets => "/opt/xray-manager/assets/previous"@,
        Store::Config => "/var/lib/xray-manager/previous"@,
    }
}

impl Store {
    /// The directory of all generations.
    pub fn root(self) -> (r: &'static str)
        ensures
            r@ == store_root(self),
    {
        match self {
            Store::Core => "/opt/xray-manager/core/versions",
            Store::Assets => "/opt/xray-manager/assets/generations",
            Store::Config => "/var/lib/xray-manager/generations",
        }
    }

    /// The pointer to the current generation.
    pub fn current(self) -> (r: &'static str)
        ensures
            r@ == store_current(self),
    {
        match self {
            Store::Core => "/opt/xray-manager/core/current",
            Store::Assets => "/opt/xray-manager/assets/current",
            Store::Config => "/var/lib/xray-manager/current",
        }
    }

    /// The pointer to the previous generation.
    pub fn previous(self) -> (r: &'static str)
        ensures
            r@ == store_previous(self),
    {
        match self {
            Store::Core => "/opt/xray-manager/core/previous",
            Store::Assets => "/opt/xray-manager/assets/previous",
            Store::Config => "/var/lib/xray-manager/previous",
        }
    }
}

/// The directory of a recorded generation.
pub open spec fn recorded(s: Store, name: Option<Seq<char>>) -> Option<Seq<char>> {
    match name {
        Some(n) => Some(ports::path_join(false, store_root(s), n)),
        None => None,
    }
}

/// The directory of a recorded generation.
pub fn recorded_path(s: Store, name: &Option<String>) -> (r: Option<String>)
    ensures
        text::opt_text(r) == recorded(s, text::opt_text(*name)),
{
    match name {
        Some(n) => Some(ports::join_path(false, s.root(), n.as_str())),
        None => None,
    }
}

/// The generations that a state records.
pub open spec fn current_name(state: ManagerStateView, s: Store) -> Option<Seq<char>> {
    match s {
        Store::Core => state.current_core_version,
        Store::Assets => state.current_asset_generation,
        Store::Config => state.current_config_generation,
    }
}

pub open spec fn previous_name(state: ManagerStateView, s: Store) -> Option<Seq<char>> {
    match s {
        Store::Core => state.previous_core_version,
        Store::Assets => state.previous_asset_generation,
        Store::Config => state.previous_config_generation,
    }
}

/// Something to perform outside. `Own` gives a directory and all in it to the
/// service user, `ServiceNow` enables and starts or disables and stops a
/// service, and `RecordHealth` writes the recorded state with the time of the
/// last successful health check.
#[derive(Debug)]
pub enum InstallEffect {
    Own { path: String },
    Switch { store: Store, target: String },
    Restore { store: Store, current: Option<String>, previous: Option<String> },
    WriteState(ManagerState),
    DaemonReload,
    ServiceNow { enable: bool, name: String },
    Service { verb: ServiceVerb, name: String },
    PolicyDown,
    Healthcheck,
    RecordHealth,
    Prune { store: Store, keep: usize },
}

/// The mathematical value of a [`InstallEffect`].
#[verifier::ext_equal]
pub enum InstallEffectView {
    Own { path: Seq<char> },
    Switch { store: Store, target: Seq<char> },
    Restore { store: Store, current: Option<Seq<char>>, previous: Option<Seq<char>> },
    WriteState(ManagerStateView),
    DaemonReload,
    ServiceNow { enable: bool, name: Seq<char> },
    Service { verb: ServiceVerb, name: Seq<char> },
    PolicyDown,
    Healthcheck,
    RecordHealth,
    Prune { store: Store, keep: usize },
}

impl View for InstallEffect {
    type V = InstallEffectView;

    open spec fn view(&self) -> InstallEffectView {
        match *self {
            InstallEffect::Own { path } => InstallEffectView::Own { path: path@ },
            InstallEffect::Switch { store, target } => InstallEffectView::Switch { store, target: target@ },
            InstallEffect::Restore { store, current, previous } => InstallEffectView::Restore { store, current: text::opt_text(current), previous: text::opt_text(previous) },
            InstallEffect::WriteState(a) => InstallEffectView::WriteState(a@),
            InstallEffect::DaemonReload => InstallEffectView::DaemonReload,
            InstallEffect::ServiceNow { enable, name } => InstallEffectView::ServiceNow { enable, name: name@ },
            InstallEffect::Service { verb, name } => InstallEffectView::Service { verb, name: name@ },
            InstallEffect::PolicyDown => InstallEffectView::PolicyDown,
            InstallEffect::Healthcheck => InstallEffectView::Healthcheck,
            InstallEffect::RecordHealth => InstallEffectView::RecordHealth,
            InstallEffect::Prune { store, keep } => InstallEffectView::Prune { store, keep },
        }
    }
}

/// What is to be activated; the configuration only where there is a new one.
#[derive(Debug)]
pub struct PreparedInstall {
    pub core_version: String,
    pub core_directory: String,
    pub asset_generation: String,
    pub asset_directory: String,
    pub config_generation: String,
    pub config_directory: Option<String>,
}

/// The mathematical value of a [`PreparedInstall`].
#[verifier::ext_equal]
pub struct PreparedInstallView {
    pub core_version: Seq<char>,
    pub core_directory: Seq<char>,
    pub asset_generation: Seq<char>,
    pub asset_directory: Seq<char>,
    pub config_generation: Seq<char>,
    pub config_directory: Option<Seq<char>>,
}

impl View for PreparedInstall {
    type V = PreparedInstallView;

    open spec fn view(&self) -> PreparedInstallView {
        PreparedInstallView {
            core_version: self.core_version@,
            core_directory: self.core_directory@,
            asset_generation: self.asset_generation@,
            asset_directory: self.asset_directory@,
            config_generation: self.config_generation@,
            config_directory: text::opt_text(self.config_directory),
        }
    }
}

/// The state with new generations: a generation that changes becomes the
/// previous one, and one that stays keeps the one before it.
pub open spec fn installed_state(
    old: ManagerStateView,
    core: Seq<char>,
    assets: Seq<char>,
    config: Seq<char>,
    created: Seq<Seq<char>>,
    backends: Map<Seq<char>, Seq<char>>,
) -> ManagerStateView {
    ManagerStateView {
        previous_core_version: if old.current_core_version == Some(core) {
            old.previous_core_version
        } else {
            old.current_core_version
        },
        current_core_version: Some(core),
        previous_asset_generation: if old.current_asset_generation == Some(assets) {
            old.previous_asset_generation
        } else {
            old.current_asset_generation
        },
        current_asset_generation: Some(assets),
        previous_config_generation: if old.current_config_generation == Some(config) {
            old.previous_config_generation
        } else {
            old.current_config_generation
        },
        current_config_generation: Some(config),
        created_identities: text::without_repeats(text::sorted_texts(old.created_identities + created)),
        installed_backends: backends,
        ..old
    }
}

fn shifted(current: &Option<String>, previous: &Option<String>, new: &str) -> (r: Option<String>)
    ensures
        text::opt_text(r) == (if text::opt_text(*current) == Some(new@) {
            text::opt_text(*previous)
        } else {
            text::opt_text(*current)
        }),
{
    match current {
        Some(c) => if text::same(c.as_str(), new) {
            text::copy_opt(previous)
        } else {
            text::copy_opt(current)
        },
        None => None,
    }
}

/// The state with new generations.
pub fn write_state(
    old_state: &ManagerState,
    core: &str,
    assets: &str,
    config: &str,
    created: &Vec<String>,
    backends: &TextMap,
) -> (r: ManagerState)
    ensures
        r@ == installed_state(
            old_state@,
            core@,
            assets@,
            config@,
            text::texts(created@),
            backends@,
        ),
{
    let mut state = old_state.clone();
    state.previous_core_version = shifted(
        &old_state.current_core_version,
        &old_state.previous_core_version,
        core,
    );
    state.current_core_version = Some(text::owned(core));
    state.previous_asset_generation = shifted(
        &old_state.current_asset_generation,
        &old_state.previous_asset_generation,
        assets,
    );
    state.current_asset_generation = Some(text::owned(assets));
    state.previous_config_generation = shifted(
        &old_state.current_config_generation,
        &old_state.previous_config_generation,
        config,
    );
    state.current_config_generation = Some(text::owned(config));
    let mut identities = text::copy_texts(&old_state.created_identities);
    let ghost a = identities@;
    let mut more = text::copy_texts(created);
    let ghost b = more@;
    identities.append(&mut more);
    assert(text::texts(identities@) =~= text::texts(a) + text::texts(b));
    state.created_identities = text::dedup_texts(&text::sort_texts(&identities));
    state.installed_backends = backends.clone();
    state
}

/// A repair with the same generations keeps the previous ones.
pub proof fn law_repair_keeps_generations(
    old: ManagerStateView,
    core: Seq<char>,
    assets: Seq<char>,
    config: Seq<char>,
    created: Seq<Seq<char>>,
    backends: Map<Seq<char>, Seq<char>>,
    s: Store,
)
    requires
        old.current_core_version == Some(core),
        old.current_asset_generation == Some(assets),
        old.current_config_generation == Some(config),
    ensures
        current_name(installed_state(old, core, assets, config, created, backends), s)
            == current_name(old, s),
        previous_name(installed_state(old, core, assets, config, created, backends), s)
            == previous_name(old, s),
{
}

/// The state with an identity that was created; a recorded one is not added again.
pub open spec fn recorded_identity(
    state: ManagerStateView,
    identity: Seq<char>,
    backends: Map<Seq<char>, Seq<char>>,
) -> ManagerStateView {
    ManagerStateView {
        created_identities: if text::contains_text(state.created_identities, identity) {
            state.created_identities
        } else {
            text::sorted_texts(state.created_identities.push(identity))
        },
        installed_backends: backends,
        ..state
    }
}

/// The state with an identity that was created.
pub fn record_created_identity(state: &ManagerState, identity: &str, backends: &TextMap) -> (r:
    ManagerState)
    ensures
        r@ == recorded_identity(state@, identity@, backends@),
{
    let mut r = state.clone();
    if !text::text_in(&state.created_identities, identity) {
        let mut list = text::copy_texts(&state.created_identities);
        let copy = text::owned(identity);
        proof {
            text::lemma_texts_push(list@, copy);
        }
        list.push(copy);
        r.created_identities = text::sort_texts(&list);
    }
    r.installed_backends = backends.clone();
    r
}

/// What an installation is activated with: which pointers have to change is
/// decided before.
pub struct InstallPlan {
    pub candidate: PreparedInstall,
    pub state: ManagerState,
    pub created: Vec<String>,
    pub backends: TextMap,
    pub core_changed: bool,
    pub assets_changed: bool,
    pub had_core: bool,
    pub tun_enabled: bool,
    pub keep_core: usize,
    pub keep_assets: usize,
    pub keep_config: usize,
}

/// The mathematical value of an [`InstallPlan`].
#[verifier::ext_equal]
pub struct InstallPlanView {
    pub candidate: PreparedInstallView,
    pub state: ManagerStateView,
    pub created: Seq<Seq<char>>,
    pub backends: Map<Seq<char>, Seq<char>>,
    pub core_changed: bool,
    pub assets_changed: bool,
    pub had_core: bool,
    pub tun_enabled: bool,
    pub keep_core: usize,
    pub keep_assets: usize,
    pub keep_config: usize,
}

impl View for InstallPlan {
    type V = InstallPlanView;

    open spec fn view(&self) -> InstallPlanView {
        InstallPlanView {
            candidate: self.candidate@,
            state: self.state@,
            created: text::texts(self.created@),
            backends: self.backends@,
            core_changed: self.core_changed,
            assets_changed: self.assets_changed,
            had_core: self.had_core,
            tun_enabled: self.tun_enabled,
            keep_core: self.keep_core,
            keep_assets: self.keep_assets,
            keep_config: self.keep_config,
        }
    }
}

/// Whether the pointer of a store has to change: the generation is another, or
/// the pointer does not lead to it.
pub open spec fn pointer_moves(
    recorded: Option<Seq<char>>,
    name: Seq<char>,
    link: Option<Seq<char>>,
    directory: Seq<char>,
) -> bool {
    recorded != Some(name) || !storage::pointed_to(directory, link)
}

fn pointer_changed(
    recorded: &Option<String>,
    name: &str,
    link: &Option<String>,
    directory: &str,
) -> (r: bool)
    ensures
        r == pointer_moves(text::opt_text(*recorded), name@, text::opt_text(*link), directory@),
{
    let named = match recorded {
        Some(n) => text::same(n.as_str(), name),
        None => false,
    };
    let linked = match link {
        Some(l) => storage::is_same_place(directory, l.as_str()),
        None => false,
    };
    !named || !linked
}

/// The configuration generation that an installation keeps: the recorded one,
/// where its files are there.
pub fn kept_configuration(state: &ManagerState, there: bool) -> (r: Option<String>)
    ensures
        text::opt_text(r) == (if there {
            state@.current_config_generation
        } else {
            None
        }),
{
    if there {
        text::copy_opt(&state.current_config_generation)
    } else {
        None
    }
}

/// What an installation finds on the host: the recorded state, whether there
/// is a core, and where the pointers of the core and of the assets lead.
pub struct InstallFacts {
    pub state: ManagerState,
    pub had_core: bool,
    pub core_link: Option<String>,
    pub asset_link: Option<String>,
}

/// The plan of an installation of what was prepared, on what was found. The
/// core changes where there is none or its pointer has to, the assets where
/// their pointer has to.
pub open spec fn install_plan(
    candidate: PreparedInstallView,
    found: InstallFacts,
    created: Seq<Seq<char>>,
    backends: Map<Seq<char>, Seq<char>>,
    c: ManagerConfigView,
) -> InstallPlanView {
    InstallPlanView {
        candidate,
        state: found.state@,
        created,
        backends,
        core_changed: !found.had_core || pointer_moves(
            found.state@.current_core_version,
            candidate.core_version,
            text::opt_text(found.core_link),
            candidate.core_directory,
        ),
        assets_changed: pointer_moves(
            found.state@.current_asset_generation,
            candidate.asset_generation,
            text::opt_text(found.asset_link),
            candidate.asset_directory,
        ),
        had_core: found.had_core,
        tun_enabled: c.tun.enabled,
        keep_core: c.general.keep_core_versions,
        keep_assets: c.general.keep_asset_generations,
        keep_config: c.general.keep_generations,
    }
}

impl InstallPlan {
    /// The plan of an installation of what was prepared, on what was found.
    pub fn new(
        candidate: PreparedInstall,
        found: InstallFacts,
        created: Vec<String>,
        backends: TextMap,
        config: &ManagerConfig,
    ) -> (r: InstallPlan)
        ensures
            r@ == install_plan(candidate@, found, text::texts(created@), backends@, config@),
    {
        let core_changed = !found.had_core || pointer_changed(
            &found.state.current_core_version,
            candidate.core_version.as_str(),
            &found.core_link,
            candidate.core_directory.as_str(),
        );
        let assets_changed = pointer_changed(
            &found.state.current_asset_generation,
            candidate.asset_generation.as_str(),
            &found.asset_link,
            candidate.asset_directory.as_str(),
        );
        InstallPlan {
            candidate,
            state: found.state,
            created,
            backends,
            core_changed,
            assets_changed,
            had_core: found.had_core,
            tun_enabled: config.tun.enabled,
            keep_core: config.general.keep_core_versions,
            keep_assets: config.general.keep_asset_generations,
            keep_config: config.general.keep_generations,
        }
    }
}

/// The state of a completed installation.
pub open spec fn new_state(p: InstallPlanView) -> ManagerStateView {
    installed_state(
        p.state,
        p.candidate.core_version,
        p.candidate.asset_generation,
        p.candidate.config_generation,
        p.created,
        p.backends,
    )
}

/// Putting the pointers of a store back to what the state records.
pub open spec fn restore_step(state: ManagerStateView, s: Store) -> StepView<InstallEffectView> {
    program::step(
        InstallEffectView::Restore {
            store: s,
            current: recorded(s, current_name(state, s)),
            previous: recorded(s, previous_name(state, s)),
        },
        Policy::Ignore,
    )
}

/// A step that is taken only where something holds.
pub open spec fn only_if(there: bool, s: StepView<InstallEffectView>) -> Seq<
    StepView<InstallEffectView>,
> {
    if there {
        seq![s]
    } else {
        Seq::empty()
    }
}

pub open spec fn switch_step(s: Store, target: Seq<char>, policy: Policy) -> StepView<
    InstallEffectView,
> {
    program::step(InstallEffectView::Switch { store: s, target }, policy)
}

pub open spec fn now_step(enable: bool, name: Seq<char>, policy: Policy) -> StepView<
    InstallEffectView,
> {
    program::step(InstallEffectView::ServiceNow { enable, name }, policy)
}

pub open spec fn service_step(verb: ServiceVerb, name: Seq<char>, policy: Policy) -> StepView<
    InstallEffectView,
> {
    program::step(InstallEffectView::Service { verb, name }, policy)
}

/// The new configuration directory, where there is one.
pub open spec fn new_config(p: InstallPlanView) -> Seq<char> {
    text::text_or(p.candidate.config_directory, ""@)
}

/// Making the new generations current and recording that.
pub open spec fn switch_steps(p: InstallPlanView) -> Seq<StepView<InstallEffectView>> {
    only_if(
        p.candidate.config_directory is Some,
        program::step(InstallEffectView::Own { path: new_config(p) }, Policy::Fail),
    ) + only_if(
        p.core_changed,
        switch_step(Store::Core, p.candidate.core_directory, Policy::Fail),
    ) + only_if(
        p.assets_changed,
        switch_step(Store::Assets, p.candidate.asset_directory, Policy::Undo(0)),
    ) + only_if(
        p.candidate.config_directory is Some,
        switch_step(Store::Config, new_config(p), Policy::Undo(1)),
    ) + seq![program::step(InstallEffectView::WriteState(new_state(p)), Policy::Undo(2))]
}

/// Starting the services on the new generations.
pub open spec fn start_steps(p: InstallPlanView) -> Seq<StepView<InstallEffectView>> {
    seq![program::step(InstallEffectView::DaemonReload, Policy::Undo(3))] + (if p.tun_enabled {
        seq![now_step(true, "xray-tun-policy.service"@, Policy::Undo(3))]
    } else {
        seq![
            now_step(false, "xray-tun-policy.service"@, Policy::Ignore),
            program::step(InstallEffectView::PolicyDown, Policy::Ignore),
        ]
    }) + seq![now_step(true, "xray.service"@, Policy::Undo(3))] + only_if(
        p.state.selected_node_id is Some,
        program::step(InstallEffectView::Healthcheck, Policy::Undo(3)),
    )
}

pub open spec fn prune_step(s: Store, keep: usize) -> StepView<InstallEffectView> {
    program::step(InstallEffectView::Prune { store: s, keep }, Policy::Ignore)
}

/// What follows a successful start.
pub open spec fn finish_steps(p: InstallPlanView) -> Seq<StepView<InstallEffectView>> {
    only_if(
        p.state.selected_node_id is Some,
        program::step(InstallEffectView::RecordHealth, Policy::Fail),
    ) + seq![
        prune_step(Store::Core, p.keep_core),
        prune_step(Store::Assets, p.keep_assets),
        prune_step(Store::Config, p.keep_config),
    ]
}

/// Putting all changed pointers back, the last first.
pub open spec fn restore_all(p: InstallPlanView) -> Seq<StepView<InstallEffectView>> {
    only_if(p.candidate.config_directory is Some, restore_step(p.state, Store::Config)) + only_if(
        p.assets_changed,
        restore_step(p.state, Store::Assets),
    ) + only_if(p.core_changed, restore_step(p.state, Store::Core))
}

/// What is undone after a failed start.
pub open spec fn undo_start(p: InstallPlanView) -> Seq<StepView<InstallEffectView>> {
    restore_all(p) + seq![program::step(InstallEffectView::WriteState(p.state), Policy::Fail)] + (
    if p.had_core {
        seq![service_step(ServiceVerb::Restart, "xray.service"@, Policy::Ignore)]
    } else {
        seq![
            service_step(ServiceVerb::Stop, "xray-tun-policy.service"@, Policy::Ignore),
            program::step(InstallEffectView::PolicyDown, Policy::Ignore),
        ]
    })
}

/// The program that activates an installation.
pub open spec fn install_program(p: InstallPlanView) -> ProgramView<InstallEffectView> {
    ProgramView {
        main: switch_steps(p) + start_steps(p) + finish_steps(p),
        undos: seq![
            only_if(p.core_changed, restore_step(p.state, Store::Core)),
            only_if(p.assets_changed, restore_step(p.state, Store::Assets)) + only_if(
                p.core_changed,
                restore_step(p.state, Store::Core),
            ),
            restore_all(p),
            undo_start(p),
        ],
    }
}

fn restore_effect(state: &ManagerState, s: Store) -> (r: InstallEffect)
    ensures
        r@ == restore_step(state@, s).effect,
{
    match s {
        Store::Core => InstallEffect::Restore {
            store: s,
            current: recorded_path(s, &state.current_core_version),
            previous: recorded_path(s, &state.previous_core_version),
        },
        Store::Assets => InstallEffect::Restore {
            store: s,
            current: recorded_path(s, &state.current_asset_generation),
            previous: recorded_path(s, &state.previous_asset_generation),
        },
        Store::Config => InstallEffect::Restore {
            store: s,
            current: recorded_path(s, &state.current_config_generation),
            previous: recorded_path(s, &state.previous_config_generation),
        },
    }
}

fn push_if(
    main: &mut Vec<Step<InstallEffect>>,
    there: bool,
    effect: InstallEffect,
    policy: Policy,
)
    ensures
        program::step_views(final(main)@) == program::step_views(old(main)@) + only_if(there, program::step(effect@, policy)),
{
    let ghost before = program::step_views(main@);
    if there {
        program::push_step(main, effect, policy);
    }
    assert(program::step_views(main@) =~= before + only_if(there, program::step(effect@, policy)));
}

impl InstallPlan {
    fn push_switches(&self, main: &mut Vec<Step<InstallEffect>>)
        ensures
            program::step_views(final(main)@) == program::step_views(old(main)@) + switch_steps(self@),
    {
        let ghost before = program::step_views(main@);
        let new = self.candidate.config_directory.is_some();
        let config = text::unwrap_text(text::copy_opt(&self.candidate.config_directory), "");
        push_if(main, new, InstallEffect::Own { path: config.clone() }, Policy::Fail);
        push_if(
            main,
            self.core_changed,
            InstallEffect::Switch {
                store: Store::Core,
                target: self.candidate.core_directory.clone(),
            },
            Policy::Fail,
        );
        push_if(
            main,
            self.assets_changed,
            InstallEffect::Switch {
                store: Store::Assets,
                target: self.candidate.asset_directory.clone(),
            },
            Policy::Undo(0),
        );
        push_if(
            main,
            new,
            InstallEffect::Switch { store: Store::Config, target: config },
            Policy::Undo(1),
        );
        let state = write_state(
            &self.state,
            self.candidate.core_version.as_str(),
            self.candidate.asset_generation.as_str(),
            self.candidate.config_generation.as_str(),
            &self.created,
            &self.backends,
        );
        program::push_step(main, InstallEffect::WriteState(state), Policy::Undo(2));
        assert(program::step_views(main@) =~= before + switch_steps(self@));
    }

    fn push_start(&self, main: &mut Vec<Step<InstallEffect>>)
        ensures
            program::step_views(final(main)@) == program::step_views(old(main)@) + start_steps(self@),
    {
        let ghost before = program::step_views(main@);
        program::push_step(main, InstallEffect::DaemonReload, Policy::Undo(3));
        if self.tun_enabled {
            program::push_step(
                main,
                InstallEffect::ServiceNow {
                    enable: true,
                    name: text::owned("xray-tun-policy.service"),
                },
                Policy::Undo(3),
            );
        } else {
            program::push_step(
                main,
                InstallEffect::ServiceNow {
                    enable: false,
                    name: text::owned("xray-tun-policy.service"),
                },
                Policy::Ignore,
            );
            program::push_step(main, InstallEffect::PolicyDown, Policy::Ignore);
        }
        program::push_step(
            main,
            InstallEffect::ServiceNow { enable: true, name: text::owned("xray.service") },
            Policy::Undo(3),
        );
        push_if(
            main,
            self.state.selected_node_id.is_some(),
            InstallEffect::Healthcheck,
            Policy::Undo(3),
        );
        assert(program::step_views(main@) =~= before + start_steps(self@));
    }

    fn push_finish(&self, main: &mut Vec<Step<InstallEffect>>)
        ensures
            program::step_views(final(main)@) == program::step_views(old(main)@) + finish_steps(self@),
    {
        let ghost before = program::step_views(main@);
        push_if(
            main,
            self.state.selected_node_id.is_some(),
            InstallEffect::RecordHealth,
            Policy::Fail,
        );
        program::push_step(
            main,
            InstallEffect::Prune { store: Store::Core, keep: self.keep_core },
            Policy::Ignore,
        );
        program::push_step(
            main,
            InstallEffect::Prune { store: Store::Assets, keep: self.keep_assets },
            Policy::Ignore,
        );
        program::push_step(
            main,
            InstallEffect::Prune { store: Store::Config, keep: self.keep_config },
            Policy::Ignore,
        );
        assert(program::step_views(main@) =~= before + finish_steps(self@));
    }

    fn push_restores(&self, main: &mut Vec<Step<InstallEffect>>)
        ensures
            program::step_views(final(main)@) == program::step_views(old(main)@) + restore_all(self@),
    {
        let ghost before = program::step_views(main@);
        push_if(
            main,
            self.candidate.config_directory.is_some(),
            restore_effect(&self.state, Store::Config),
            Policy::Ignore,
        );
        push_if(
            main,
            self.assets_changed,
            restore_effect(&self.state, Store::Assets),
            Policy::Ignore,
        );
        push_if(
            main,
            self.core_changed,
            restore_effect(&self.state, Store::Core),
            Policy::Ignore,
        );
        assert(program::step_views(main@) =~= before + restore_all(self@));
    }

    fn undo_blocks(&self) -> (r: Vec<Vec<Step<InstallEffect>>>)
        ensures
            program::undo_views(r@) == install_program(self@).undos,
    {
        let mut assets: Vec<Step<InstallEffect>> = program::no_steps();
        push_if(
            &mut assets,
            self.core_changed,
            restore_effect(&self.state, Store::Core),
            Policy::Ignore,
        );
        let mut config: Vec<Step<InstallEffect>> = program::no_steps();
        push_if(
            &mut config,
            self.assets_changed,
            restore_effect(&self.state, Store::Assets),
            Policy::Ignore,
        );
        push_if(
            &mut config,
            self.core_changed,
            restore_effect(&self.state, Store::Core),
            Policy::Ignore,
        );
        let mut record: Vec<Step<InstallEffect>> = program::no_steps();
        self.push_restores(&mut record);
        let mut start: Vec<Step<InstallEffect>> = program::no_steps();
        self.push_restores(&mut start);
        program::push_step(&mut start, InstallEffect::WriteState(self.state.clone()), Policy::Fail);
        if self.had_core {
            program::push_step(
                &mut start,
                InstallEffect::Service {
                    verb: ServiceVerb::Restart,
                    name: text::owned("xray.service"),
                },
                Policy::Ignore,
            );
        } else {
            program::push_step(
                &mut start,
                InstallEffect::Service {
                    verb: ServiceVerb::Stop,
                    name: text::owned("xray-tun-policy.service"),
                },
                Policy::Ignore,
            );
            program::push_step(&mut start, InstallEffect::PolicyDown, Policy::Ignore);
        }
        let ghost want = install_program(self@).undos;
        assert(program::step_views(assets@) =~= want[0]);
        assert(program::step_views(config@) =~= want[1]);
        assert(program::step_views(record@) =~= want[2]);
        assert(program::step_views(start@) =~= want[3]);
        let r: Vec<Vec<Step<InstallEffect>>> = vec![assets, config, record, start];
        assert(program::undo_views(r@) =~= want);
        r
    }

    /// The program that activates the installation.
    pub fn activate_install(&self) -> (r: Program<InstallEffect>)
        ensures
            r@ == install_program(self@),
            r.wf(),
    {
        let mut main: Vec<Step<InstallEffect>> = program::no_steps();
        self.push_switches(&mut main);
        self.push_start(&mut main);
        self.push_finish(&mut main);
        let r = Program { main, undos: self.undo_blocks() };
        proof {
            assert(r@ =~= install_program(self@));
            lemma_install_refers_inside(self@);
            program::lemma_refers_inside(r);
        }
        r
    }
}

proof fn lemma_install_refers_inside(p: InstallPlanView)
    ensures
        program::refers_inside(install_program(p)),
{
    let w = install_program(p);
    let a = switch_steps(p);
    let b = start_steps(p);
    let c = finish_steps(p);
    assert(w.undos.len() == 4);
    assert forall|i: int| 0 <= i < w.main.len() implies match (#[trigger] w.main[i]).policy {
        Policy::Undo(k) => k < w.undos.len(),
        _ => true,
    } by {
        if i < a.len() {
            assert(w.main[i] == a[i]);
        } else if i < a.len() + b.len() {
            assert(w.main[i] == b[i - a.len()]);
        } else {
            assert(w.main[i] == c[i - a.len() - b.len()]);
        }
    }
}

/// The two pointers of a store.
#[verifier::ext_equal]
pub struct Pointers {
    pub current: Option<Seq<char>>,
    pub previous: Option<Seq<char>>,
}

/// What the effects of an installation change: the pointers of the three
/// stores and the recorded state.
#[verifier::ext_equal]
pub struct Host {
    pub core: Pointers,
    pub assets: Pointers,
    pub config: Pointers,
    pub state: ManagerStateView,
}

/// The pointers of a store of the host.
pub open spec fn pointers(h: Host, s: Store) -> Pointers {
    match s {
        Store::Core => h.core,
        Store::Assets => h.assets,
        Store::Config => h.config,
    }
}

pub open spec fn with_pointers(h: Host, s: Store, p: Pointers) -> Host {
    match s {
        Store::Core => Host { core: p, ..h },
        Store::Assets => Host { assets: p, ..h },
        Store::Config => Host { config: p, ..h },
    }
}

/// What a successful effect makes of the host; `now` is the time that a health
/// check is recorded with.
pub open spec fn performed(h: Host, e: InstallEffectView, now: Seq<char>) -> Host {
    match e {
        InstallEffectView::Switch { store, target } => with_pointers(
            h,
            store,
            Pointers {
                current: Some(target),
                previous: if pointers(h, store).current is Some {
                    pointers(h, store).current
                } else {
                    pointers(h, store).previous
                },
            },
        ),
        InstallEffectView::Restore { store, current, previous } => with_pointers(
            h,
            store,
            Pointers { current, previous },
        ),
        InstallEffectView::WriteState(s) => Host { state: s, ..h },
        InstallEffectView::RecordHealth => Host {
            state: ManagerStateView {
                last_successful_healthcheck: Some(now),
                last_rollback_reason: None,
                ..h.state
            },
            ..h
        },
        _ => h,
    }
}

pub open spec fn performing(now: Seq<char>) -> spec_fn(Host, InstallEffectView) -> Host {
    |h: Host, e: InstallEffectView| performed(h, e, now)
}

/// The pointers of the host are those that its state records.
pub open spec fn agrees(h: Host) -> bool {
    forall|s: Store| #[trigger]
        pointers(h, s) == (Pointers {
            current: recorded(s, current_name(h.state, s)),
            previous: recorded(s, previous_name(h.state, s)),
        })
}

/// The pointers that a plan changes.
pub open spec fn changes(p: InstallPlanView, s: Store) -> bool {
    match s {
        Store::Core => p.core_changed,
        Store::Assets => p.assets_changed,
        Store::Config => p.candidate.config_directory is Some,
    }
}

/// The pointers of every store that the plan leaves alone are the same on both
/// hosts.
spec fn alike(a: Host, b: Host, p: InstallPlanView) -> bool {
    &&& (!p.core_changed ==> a.core == b.core)
    &&& (!p.assets_changed ==> a.assets == b.assets)
    &&& (p.candidate.config_directory is None ==> a.config == b.config)
}

proof fn lemma_one(s: StepView<InstallEffectView>, there: bool, now: Seq<char>, h: Host)
    ensures
        program::world_after(only_if(there, s), performing(now), h) == (if there {
            performed(h, s.effect, now)
        } else {
            h
        }),
{
    reveal_with_fuel(program::world_after, 2);
    if there {
        assert(only_if(there, s).drop_last() =~= Seq::<StepView<InstallEffectView>>::empty());
    }
}

/// A prefix of the steps keeps the pointers that the plan leaves alone.
proof fn lemma_prefix_alike(
    steps: Seq<StepView<InstallEffectView>>,
    p: InstallPlanView,
    now: Seq<char>,
    h: Host,
    n: int,
)
    requires
        0 <= n <= steps.len(),
        forall|i: int|
            0 <= i < steps.len() ==> match (#[trigger] steps[i]).effect {
                InstallEffectView::Switch { store, .. } => changes(p, store),
                InstallEffectView::Restore { store, .. } => changes(p, store),
                _ => true,
            },
    ensures
        alike(program::world_after(steps.take(n), performing(now), h), h, p),
    decreases n,
{
    reveal_with_fuel(program::world_after, 2);
    if n > 0 {
        lemma_prefix_alike(steps, p, now, h, n - 1);
        assert(steps.take(n).drop_last() =~= steps.take(n - 1));
        assert(steps.take(n).last() == steps[n - 1]);
    }
}

proof fn lemma_main_changes_only(p: InstallPlanView)
    ensures
        forall|i: int|
            0 <= i < install_program(p).main.len() ==> match (
            #[trigger] install_program(p).main[i]).effect {
                InstallEffectView::Switch { store, .. } => changes(p, store),
                InstallEffectView::Restore { store, .. } => changes(p, store),
                _ => true,
            },
{
    let w = install_program(p);
    let a = switch_steps(p);
    let b = start_steps(p);
    let c = finish_steps(p);
    assert forall|i: int| 0 <= i < w.main.len() implies match (#[trigger] w.main[i]).effect {
        InstallEffectView::Switch { store, .. } => changes(p, store),
        InstallEffectView::Restore { store, .. } => changes(p, store),
        _ => true,
    } by {
        if i < a.len() {
            assert(w.main[i] == a[i]);
        } else if i < a.len() + b.len() {
            assert(w.main[i] == b[i - a.len()]);
        } else {
            assert(w.main[i] == c[i - a.len() - b.len()]);
        }
    }
}

/// Putting back all pointers makes the host what its old state records.
proof fn lemma_restore_all(p: InstallPlanView, now: Seq<char>, h: Host, start: Host)
    requires
        agrees(start),
        start.state == p.state,
        alike(h, start, p),
    ensures
        ({
            let r = program::world_after(restore_all(p), performing(now), h);
            &&& r.core == start.core
            &&& r.assets == start.assets
            &&& r.config == start.config
            &&& r.state == h.state
        }),
{
    let c = only_if(p.candidate.config_directory is Some, restore_step(p.state, Store::Config));
    let a = only_if(p.assets_changed, restore_step(p.state, Store::Assets));
    let k = only_if(p.core_changed, restore_step(p.state, Store::Core));
    program::lemma_world_concat(c + a, k, performing(now), h);
    program::lemma_world_concat(c, a, performing(now), h);
    lemma_one(restore_step(p.state, Store::Config), p.candidate.config_directory is Some, now, h);
    let h1 = program::world_after(c, performing(now), h);
    lemma_one(restore_step(p.state, Store::Assets), p.assets_changed, now, h1);
    let h2 = program::world_after(a, performing(now), h1);
    lemma_one(restore_step(p.state, Store::Core), p.core_changed, now, h2);
    assert(pointers(start, Store::Core) == start.core);
    assert(pointers(start, Store::Assets) == start.assets);
    assert(pointers(start, Store::Config) == start.config);
}

/// The place of the step at `i` of the program: where the state is written,
/// and whether the step comes before.
pub open spec fn write_place(p: InstallPlanView) -> int {
    switch_steps(p).len() - 1
}

/// Whichever step of an installation fails before the services run on the new
/// generations, the pointers and the recorded state are left as they were.
pub proof fn law_failed_install_restores(p: InstallPlanView, now: Seq<char>, h: Host, i: int)
    requires
        agrees(h),
        h.state == p.state,
        0 <= i < switch_steps(p).len() + start_steps(p).len(),
        install_program(p).main[i].policy != Policy::Ignore,
    ensures
        program::world_of_failure(install_program(p), performing(now), i, h) =~= h,
{
    let w = install_program(p);
    let reached = program::world_after(w.main.take(i), performing(now), h);
    let a = switch_steps(p);
    lemma_main_changes_only(p);
    lemma_prefix_alike(w.main, p, now, h, i);
    let n = write_place(p);
    assert(a.last() == a[n]);
    assert(w.main[n] == a[n]);
    if i <= n {
        lemma_state_before_write(p, now, h, i);
        lemma_switches_before(p, now, h, i);
        assert(w.main[i] == a[i]);
        match w.main[i].policy {
            Policy::Undo(k) => {
                if k == 0 {
                    lemma_undo_assets(p, now, reached, h);
                } else if k == 1 {
                    lemma_undo_config(p, now, reached, h);
                } else {
                    lemma_restore_all(p, now, reached, h);
                }
            },
            _ => {
                lemma_before_the_switch(p, now, h, i);
            },
        }
    } else {
        assert(w.main[i] == start_steps(p)[i - a.len()]);
        lemma_later_undo(p, i);
        lemma_restore_all(p, now, reached, h);
        lemma_undo_start(p, now, reached, h);
    }
}

/// A step without anything to undo comes before all that changes something.
proof fn lemma_before_the_switch(p: InstallPlanView, now: Seq<char>, h: Host, i: int)
    requires
        0 <= i < switch_steps(p).len(),
        switch_steps(p)[i].policy == Policy::Fail,
    ensures
        program::world_after(install_program(p).main.take(i), performing(now), h) == h,
{
    let a = switch_steps(p);
    let early = install_program(p).main.take(i);
    assert(early =~= a.take(i));
    assert forall|j: int, x: Host| 0 <= j < early.len() implies #[trigger] performing(now)(
        x,
        (#[trigger] early[j]).effect,
    ) == x by {
        assert(early[j] == a[j]);
        assert(a[j].effect is Own);
    }
    program::lemma_world_unchanged(early, performing(now), h);
}

/// Every step behind the write of the state undoes a failed start.
proof fn lemma_later_undo(p: InstallPlanView, i: int)
    requires
        write_place(p) < i < install_program(p).main.len(),
        install_program(p).main[i].policy is Undo,
    ensures
        install_program(p).main[i].policy == Policy::Undo(3),
{
    let w = install_program(p);
    let a = switch_steps(p);
    let b = start_steps(p);
    let c = finish_steps(p);
    if i < a.len() + b.len() {
        assert(w.main[i] == b[i - a.len()]);
    } else {
        assert(w.main[i] == c[i - a.len() - b.len()]);
    }
}

/// Before the write the recorded state is the old one.
proof fn lemma_state_before_write(p: InstallPlanView, now: Seq<char>, h: Host, i: int)
    requires
        0 <= i <= write_place(p),
    ensures
        program::world_after(install_program(p).main.take(i), performing(now), h).state == h.state,
    decreases i,
{
    reveal_with_fuel(program::world_after, 2);
    let w = install_program(p);
    if i > 0 {
        lemma_state_before_write(p, now, h, i - 1);
        assert(w.main.take(i).drop_last() =~= w.main.take(i - 1));
        assert(w.main.take(i).last() == w.main[i - 1]);
        assert(w.main[i - 1] == switch_steps(p)[i - 1]);
    }
}

/// Before a switch fails, the pointers of the stores that come later are untouched.
proof fn lemma_switches_before(p: InstallPlanView, now: Seq<char>, h: Host, i: int)
    requires
        0 <= i <= write_place(p),
    ensures
        ({
            let r = program::world_after(install_program(p).main.take(i), performing(now), h);
            let at = install_program(p).main[i].policy;
            &&& at == Policy::Undo(0) ==> r.assets == h.assets && r.config == h.config
            &&& at == Policy::Undo(1) ==> r.config == h.config
        }),
{
    reveal_with_fuel(program::world_after, 6);
    let w = install_program(p);
    let a = switch_steps(p);
    assert(w.main[i] == a[i]);
    assert(w.main.take(i) =~= a.take(i));
    let t = a.take(i);
    assert(a.len() <= 5);
    if i >= 1 {
        assert(t.drop_last() =~= a.take(i - 1));
        assert(t.last() == a[i - 1]);
    }
    if i >= 2 {
        assert(a.take(i - 1).drop_last() =~= a.take(i - 2));
        assert(a.take(i - 1).last() == a[i - 2]);
    }
    if i >= 3 {
        assert(a.take(i - 2).drop_last() =~= a.take(i - 3));
        assert(a.take(i - 2).last() == a[i - 3]);
    }
    if i >= 4 {
        assert(a.take(i - 3).drop_last() =~= a.take(i - 4));
        assert(a.take(i - 3).last() == a[i - 4]);
    }
    assert(a.take(0).len() == 0);
}

proof fn lemma_undo_assets(p: InstallPlanView, now: Seq<char>, h: Host, start: Host)
    requires
        agrees(start),
        start.state == p.state,
        h.state == start.state,
        alike(h, start, p),
        h.assets == start.assets,
        h.config == start.config,
    ensures
        program::world_after(install_program(p).undos[0], performing(now), h) =~= start,
{
    lemma_one(restore_step(p.state, Store::Core), p.core_changed, now, h);
    assert(pointers(start, Store::Core) == start.core);
}

proof fn lemma_undo_config(p: InstallPlanView, now: Seq<char>, h: Host, start: Host)
    requires
        agrees(start),
        start.state == p.state,
        h.state == start.state,
        alike(h, start, p),
        h.config == start.config,
    ensures
        program::world_after(install_program(p).undos[1], performing(now), h) =~= start,
{
    let a = only_if(p.assets_changed, restore_step(p.state, Store::Assets));
    let k = only_if(p.core_changed, restore_step(p.state, Store::Core));
    program::lemma_world_concat(a, k, performing(now), h);
    lemma_one(restore_step(p.state, Store::Assets), p.assets_changed, now, h);
    let h1 = program::world_after(a, performing(now), h);
    lemma_one(restore_step(p.state, Store::Core), p.core_changed, now, h1);
    assert(pointers(start, Store::Core) == start.core);
    assert(pointers(start, Store::Assets) == start.assets);
}

proof fn lemma_undo_start(p: InstallPlanView, now: Seq<char>, h: Host, start: Host)
    requires
        agrees(start),
        start.state == p.state,
        alike(h, start, p),
    ensures
        program::world_after(install_program(p).undos[3], performing(now), h) =~= start,
{
    lemma_restore_all(p, now, h, start);
    let write = seq![program::step(InstallEffectView::WriteState(p.state), Policy::Fail)];
    let rest = if p.had_core {
        seq![service_step(ServiceVerb::Restart, "xray.service"@, Policy::Ignore)]
    } else {
        seq![
            service_step(ServiceVerb::Stop, "xray-tun-policy.service"@, Policy::Ignore),
            program::step(InstallEffectView::PolicyDown, Policy::Ignore),
        ]
    };
    program::lemma_world_concat(restore_all(p) + write, rest, performing(now), h);
    program::lemma_world_concat(restore_all(p), write, performing(now), h);
    reveal_with_fuel(program::world_after, 3);
    assert(write.drop_last() =~= Seq::<StepView<InstallEffectView>>::empty());
    if p.had_core {
        assert(rest.drop_last() =~= Seq::<StepView<InstallEffectView>>::empty());
    } else {
        assert(rest.drop_last().drop_last() =~= Seq::<StepView<InstallEffectView>>::empty());
    }
}

/// A new configuration is given to the service user before anything is
/// switched: that comes first, and ends the program where it fails.
pub proof fn law_ownership_comes_first(p: InstallPlanView)
    requires
        p.candidate.config_directory is Some,
    ensures
        install_program(p).main[0] == program::step(
            InstallEffectView::Own { path: new_config(p) },
            Policy::Fail,
        ),
{
    assert(switch_steps(p)[0] == program::step(InstallEffectView::Own { path: new_config(p) }, Policy::Fail));
}

/// A generation by name and directory.
#[derive(Debug)]
pub struct NewGeneration {
    pub name: String,
    pub directory: String,
}

/// The mathematical value of a [`NewGeneration`].
#[verifier::ext_equal]
pub struct NewGenerationView {
    pub name: Seq<char>,
    pub directory: Seq<char>,
}

impl View for NewGeneration {
    type V = NewGenerationView;

    open spec fn view(&self) -> NewGenerationView {
        NewGenerationView {
            name: self.name@,
            directory: self.directory@,
        }
    }
}

impl Clone for NewGeneration {
    fn clone(&self) -> (r: Self)
        ensures
            r@ == self@,
    {
        NewGeneration {
            name: self.name.clone(),
            directory: self.directory.clone(),
        }
    }
}

pub open spec fn opt_new_generation(o: Option<NewGeneration>) -> Option<NewGenerationView> {
    match o {
        Some(x) => Some(x@),
        None => None,
    }
}

/// What an upgrade replaces: the core, the assets, or both.
#[derive(Debug)]
pub struct Upgrade {
    pub core: Option<NewGeneration>,
    pub assets: Option<NewGeneration>,
    pub state: ManagerState,
    pub keep_core: usize,
    pub keep_assets: usize,
}

/// The mathematical value of a [`Upgrade`].
#[verifier::ext_equal]
pub struct UpgradeView {
    pub core: Option<NewGenerationView>,
    pub assets: Option<NewGenerationView>,
    pub state: ManagerStateView,
    pub keep_core: usize,
    pub keep_assets: usize,
}

impl View for Upgrade {
    type V = UpgradeView;

    open spec fn view(&self) -> UpgradeView {
        UpgradeView {
            core: opt_new_generation(self.core),
            assets: opt_new_generation(self.assets),
            state: self.state@,
            keep_core: self.keep_core,
            keep_assets: self.keep_assets,
        }
    }
}

/// Which parts an upgrade prepares.
pub fn upgrade_parts(target: UpgradeTarget) -> (r: (bool, bool))
    ensures
        r == (arch::upgrades_core(target), arch::upgrades_assets(target)),
{
    let all = target == UpgradeTarget::All;
    (all || target == UpgradeTarget::Core, all || target == UpgradeTarget::Assets)
}

/// A prepared core counts as new only if its version is not the current one.
pub open spec fn newer_core(s: ManagerStateView, prepared: Option<NewGenerationView>) -> Option<
    NewGenerationView,
> {
    match prepared {
        Some(core) => if s.current_core_version == Some(core.name) {
            None
        } else {
            Some(core)
        },
        None => None,
    }
}

fn new_core(state: &ManagerState, prepared: Option<NewGeneration>) -> (r: Option<NewGeneration>)
    ensures
        opt_new_generation(r) == newer_core(state@, opt_new_generation(prepared)),
{
    match prepared {
        Some(core) => match &state.current_core_version {
            Some(v) => if text::same(v.as_str(), core.name.as_str()) {
                None
            } else {
                Some(core)
            },
            None => Some(core),
        },
        None => None,
    }
}

impl Upgrade {
    /// The upgrade to what was prepared; none where nothing of it is new.
    pub fn new(
        state: ManagerState,
        core: Option<NewGeneration>,
        assets: Option<NewGeneration>,
        config: &ManagerConfig,
    ) -> (r: Option<Upgrade>)
        ensures
            ({
                let fresh = newer_core(state@, opt_new_generation(core));
                match r {
                    Some(u) => (fresh is Some || assets is Some) && u@ == (UpgradeView {
                        core: fresh,
                        assets: opt_new_generation(assets),
                        state: state@,
                        keep_core: config@.general.keep_core_versions,
                        keep_assets: config@.general.keep_asset_generations,
                    }),
                    None => fresh is None && assets is None,
                }
            }),
    {
        let core = new_core(&state, core);
        if core.is_none() && assets.is_none() {
            None
        } else {
            Some(
                Upgrade {
                    core,
                    assets,
                    state,
                    keep_core: config.general.keep_core_versions,
                    keep_assets: config.general.keep_asset_generations,
                },
            )
        }
    }
}

/// Checks that there is a configuration to test an upgrade with.
pub fn check_upgradable(config_there: bool) -> (r: Result<(), ManagerError>)
    ensures
        match r {
            Ok(_) => config_there,
            Err(e) => !config_there && e@ == ManagerErrorView::Validation(
                "cannot upgrade before a validated configuration is installed"@,
            ),
        },
{
    if config_there {
        Ok(())
    } else {
        Err(
            ManagerError::Validation(
                text::owned("cannot upgrade before a validated configuration is installed"),
            ),
        )
    }
}

/// The state of a completed upgrade.
pub open spec fn upgraded_state(u: UpgradeView) -> ManagerStateView {
    let s = match u.core {
        Some(c) => ManagerStateView {
            previous_core_version: u.state.current_core_version,
            current_core_version: Some(c.name),
            ..u.state
        },
        None => u.state,
    };
    match u.assets {
        Some(a) => ManagerStateView {
            previous_asset_generation: s.current_asset_generation,
            current_asset_generation: Some(a.name),
            ..s
        },
        None => s,
    }
}

pub open spec fn new_directory(g: Option<NewGenerationView>) -> Seq<char> {
    match g {
        Some(g) => g.directory,
        None => ""@,
    }
}

/// Putting back the pointers that an upgrade changed.
pub open spec fn restore_upgrade(u: UpgradeView) -> Seq<StepView<InstallEffectView>> {
    only_if(u.assets is Some, restore_step(u.state, Store::Assets)) + only_if(
        u.core is Some,
        restore_step(u.state, Store::Core),
    )
}

/// The program that activates an upgrade.
pub open spec fn upgrade_program(u: UpgradeView) -> ProgramView<InstallEffectView> {
    ProgramView {
        main: only_if(
            u.core is Some,
            switch_step(Store::Core, new_directory(u.core), Policy::Fail),
        ) + only_if(
            u.assets is Some,
            switch_step(Store::Assets, new_directory(u.assets), Policy::Undo(0)),
        ) + seq![
            program::step(InstallEffectView::WriteState(upgraded_state(u)), Policy::Undo(1)),
            service_step(ServiceVerb::Restart, "xray.service"@, Policy::Undo(1)),
        ] + only_if(
            u.state.selected_node_id is Some,
            program::step(InstallEffectView::Healthcheck, Policy::Undo(1)),
        ) + seq![prune_step(Store::Core, u.keep_core), prune_step(Store::Assets, u.keep_assets)],
        undos: seq![
            only_if(u.core is Some, restore_step(u.state, Store::Core)),
            restore_upgrade(u) + seq![
                program::step(InstallEffectView::WriteState(u.state), Policy::Fail),
                service_step(ServiceVerb::Restart, "xray.service"@, Policy::Ignore),
            ],
        ],
    }
}

fn directory_of(g: &Option<NewGeneration>) -> (r: String)
    ensures
        r@ == new_directory(opt_new_generation(*g)),
{
    match g {
        Some(g) => g.directory.clone(),
        None => text::owned(""),
    }
}

impl Upgrade {
    /// What an upgrade is tested with: the new parts, and the current ones
    /// where there is no new one.
    pub fn test_request(&self) -> (r: XrayTestRequest)
        ensures
            r@ == (XrayTestRequestView {
                executable: match self@.core {
                    Some(c) => ports::path_join(false, c.directory, "xray"@),
                    None => "/opt/xray-manager/core/current/xray"@,
                },
                config_dir: "/var/lib/xray-manager/current/conf.d"@,
                asset_dir: match self@.assets {
                    Some(a) => a.directory,
                    None => "/opt/xray-manager/assets/current"@,
                },
            }),
    {
        XrayTestRequest {
            executable: match &self.core {
                Some(c) => ports::join_path(false, c.directory.as_str(), "xray"),
                None => text::owned("/opt/xray-manager/core/current/xray"),
            },
            config_dir: text::owned("/var/lib/xray-manager/current/conf.d"),
            asset_dir: match &self.assets {
                Some(a) => a.directory.clone(),
                None => text::owned("/opt/xray-manager/assets/current"),
            },
        }
    }

    /// The state of the completed upgrade.
    pub fn new_state(&self) -> (r: ManagerState)
        ensures
            r@ == upgraded_state(self@),
    {
        let mut s = self.state.clone();
        match &self.core {
            Some(c) => {
                s.previous_core_version = text::copy_opt(&self.state.current_core_version);
                s.current_core_version = Some(c.name.clone());
            },
            None => {},
        }
        match &self.assets {
            Some(a) => {
                s.previous_asset_generation = text::copy_opt(&self.state.current_asset_generation);
                s.current_asset_generation = Some(a.name.clone());
            },
            None => {},
        }
        s
    }

    fn push_main(&self, main: &mut Vec<Step<InstallEffect>>)
        ensures
            program::step_views(final(main)@) == program::step_views(old(main)@) + upgrade_program(self@).main,
    {
        let ghost before = program::step_views(main@);
        push_if(
            main,
            self.core.is_some(),
            InstallEffect::Switch { store: Store::Core, target: directory_of(&self.core) },
            Policy::Fail,
        );
        push_if(
            main,
            self.assets.is_some(),
            InstallEffect::Switch { store: Store::Assets, target: directory_of(&self.assets) },
            Policy::Undo(0),
        );
        program::push_step(main, InstallEffect::WriteState(self.new_state()), Policy::Undo(1));
        program::push_step(
            main,
            InstallEffect::Service { verb: ServiceVerb::Restart, name: text::owned("xray.service") },
            Policy::Undo(1),
        );
        push_if(
            main,
            self.state.selected_node_id.is_some(),
            InstallEffect::Healthcheck,
            Policy::Undo(1),
        );
        program::push_step(
            main,
            InstallEffect::Prune { store: Store::Core, keep: self.keep_core },
            Policy::Ignore,
        );
        program::push_step(
            main,
            InstallEffect::Prune { store: Store::Assets, keep: self.keep_assets },
            Policy::Ignore,
        );
        assert(program::step_views(main@) =~= before + upgrade_program(self@).main);
    }

    /// The program that activates the upgrade.
    pub fn apply_upgrade(&self) -> (r: Program<InstallEffect>)
        ensures
            r@ == upgrade_program(self@),
            r.wf(),
    {
        let mut main: Vec<Step<InstallEffect>> = program::no_steps();
        self.push_main(&mut main);
        let mut first: Vec<Step<InstallEffect>> = program::no_steps();
        push_if(
            &mut first,
            self.core.is_some(),
            restore_effect(&self.state, Store::Core),
            Policy::Ignore,
        );
        let mut second: Vec<Step<InstallEffect>> = program::no_steps();
        push_if(
            &mut second,
            self.assets.is_some(),
            restore_effect(&self.state, Store::Assets),
            Policy::Ignore,
        );
        push_if(
            &mut second,
            self.core.is_some(),
            restore_effect(&self.state, Store::Core),
            Policy::Ignore,
        );
        program::push_step(&mut second, InstallEffect::WriteState(self.state.clone()), Policy::Fail);
        program::push_step(
            &mut second,
            InstallEffect::Service { verb: ServiceVerb::Restart, name: text::owned("xray.service") },
            Policy::Ignore,
        );
        let ghost want = upgrade_program(self@);
        assert(program::step_views(main@) =~= want.main);
        assert(program::step_views(first@) =~= want.undos[0]);
        assert(program::step_views(second@) =~= want.undos[1]);
        let undos: Vec<Vec<Step<InstallEffect>>> = vec![first, second];
        assert(program::undo_views(undos@) =~= want.undos);
        let r = Program { main, undos };
        proof {
            assert(r@ == want);
            assert(program::refers_inside(want));
            program::lemma_refers_inside(r);
        }
        r
    }
}

proof fn lemma_restore_upgrade(u: UpgradeView, now: Seq<char>, h: Host, start: Host)
    requires
        agrees(start),
        start.state == u.state,
        h.config == start.config,
        u.assets is None ==> h.assets == start.assets,
        u.core is None ==> h.core == start.core,
    ensures
        program::world_after(upgrade_program(u).undos[1], performing(now), h) =~= start,
{
    let a = only_if(u.assets is Some, restore_step(u.state, Store::Assets));
    let k = only_if(u.core is Some, restore_step(u.state, Store::Core));
    let rest = seq![
        program::step(InstallEffectView::WriteState(u.state), Policy::Fail),
        service_step(ServiceVerb::Restart, "xray.service"@, Policy::Ignore),
    ];
    program::lemma_world_concat(a + k, rest, performing(now), h);
    program::lemma_world_concat(a, k, performing(now), h);
    lemma_one(restore_step(u.state, Store::Assets), u.assets is Some, now, h);
    let h1 = program::world_after(a, performing(now), h);
    lemma_one(restore_step(u.state, Store::Core), u.core is Some, now, h1);
    assert(pointers(start, Store::Core) == start.core);
    assert(pointers(start, Store::Assets) == start.assets);
    reveal_with_fuel(program::world_after, 3);
    assert(rest.drop_last().drop_last() =~= Seq::<StepView<InstallEffectView>>::empty());
}

/// What an upgrade reached before one of its steps.
proof fn lemma_upgrade_reached(u: UpgradeView, now: Seq<char>, h: Host, i: int)
    requires
        0 <= i <= upgrade_program(u).main.len(),
    ensures
        ({
            let r = program::world_after(upgrade_program(u).main.take(i), performing(now), h);
            &&& r.config == h.config
            &&& u.assets is None ==> r.assets == h.assets
            &&& u.core is None ==> r.core == h.core
        }),
    decreases i,
{
    reveal_with_fuel(program::world_after, 2);
    let m = upgrade_program(u).main;
    if i > 0 {
        lemma_upgrade_reached(u, now, h, i - 1);
        assert(m.take(i).drop_last() =~= m.take(i - 1));
        assert(m.take(i).last() == m[i - 1]);
    }
}

/// Whichever step of an upgrade fails, but for the pruning at its end, which is
/// let fail, the pointers and the recorded state are left as they were.
pub proof fn law_failed_upgrade_restores(u: UpgradeView, now: Seq<char>, h: Host, i: int)
    requires
        agrees(h),
        h.state == u.state,
        0 <= i < upgrade_program(u).main.len(),
        upgrade_program(u).main[i].policy != Policy::Ignore,
    ensures
        program::world_of_failure(upgrade_program(u), performing(now), i, h) =~= h,
{
    let w = upgrade_program(u);
    let reached = program::world_after(w.main.take(i), performing(now), h);
    lemma_upgrade_reached(u, now, h, i);
    if w.main[i].policy == Policy::Undo(1) {
        lemma_restore_upgrade(u, now, reached, h);
    } else if w.main[i].policy == Policy::Fail {
        assert(i == 0);
        assert(w.main.take(0).len() == 0);
    } else {
        let first = only_if(
            u.core is Some,
            switch_step(Store::Core, new_directory(u.core), Policy::Fail),
        );
        assert(w.main[i].policy == Policy::Undo(0));
        assert(i == first.len());
        assert(w.main.take(i) =~= first);
        lemma_one(
            switch_step(Store::Core, new_directory(u.core), Policy::Fail),
            u.core is Some,
            now,
            h,
        );
        lemma_one(restore_step(u.state, Store::Core), u.core is Some, now, reached);
        assert(pointers(h, Store::Core) == h.core);
    }
}

} // verus!
