//! What an installation, a repair and an upgrade do to a host.

use crate::activation::ServiceVerb;
use crate::domain::ManagerStateView;
use crate::laws::activation::{lemma_none, lemma_push, lemma_walked, walked};
use crate::linux::install::{install_program, pointers, upgrade_program, upgraded_state};
use crate::linux::install::{Host, InstallEffectView, InstallPlanView, Pointers, Store, UpgradeView};
use crate::linux::install;
use crate::program::{world_after, world_of_failure, Policy, StepView};
use crate::program;
use vstd::prelude::*;

verus! {

/// What the service runs: the targets of the three links when it was started.
#[verifier::ext_equal]
pub struct Loaded {
    pub core: Option<Seq<char>>,
    pub assets: Option<Seq<char>>,
    pub config: Option<Seq<char>>,
}

/// A host with its services. `rules` says whether the TUN policy is in place,
/// `pruned` how many generations of a store were last kept.
#[verifier::ext_equal]
pub struct Machine {
    pub host: Host,
    pub owned: Set<Seq<char>>,
    pub units_read: bool,
    pub enabled: Set<Seq<char>>,
    pub running: Set<Seq<char>>,
    pub loaded: Loaded,
    pub checked: Option<Loaded>,
    pub rules: bool,
    pub pruned: Map<Store, usize>,
}

pub open spec fn links(h: Host) -> Loaded {
    Loaded { core: h.core.current, assets: h.assets.current, config: h.config.current }
}

pub open spec fn started(m: Machine, name: Seq<char>) -> Machine {
    Machine {
        running: m.running.insert(name),
        loaded: if name == "xray.service"@ {
            links(m.host)
        } else {
            m.loaded
        },
        ..m
    }
}

/// What an effect makes of a host and its services. Starting a service that
/// runs does nothing; restarting it starts it anew.
pub open spec fn changed(m: Machine, e: InstallEffectView, now: Seq<char>) -> Machine {
    match e {
        InstallEffectView::Own { path } => Machine { owned: m.owned.insert(path), ..m },
        InstallEffectView::DaemonReload => Machine { units_read: true, ..m },
        InstallEffectView::ServiceNow { enable, name } => if !enable {
            Machine { enabled: m.enabled.remove(name), running: m.running.remove(name), ..m }
        } else if m.running.contains(name) {
            Machine { enabled: m.enabled.insert(name), ..m }
        } else {
            started(Machine { enabled: m.enabled.insert(name), ..m }, name)
        },
        InstallEffectView::Service { verb, name } => match verb {
            ServiceVerb::Enable => Machine { enabled: m.enabled.insert(name), ..m },
            ServiceVerb::Disable => Machine { enabled: m.enabled.remove(name), ..m },
            ServiceVerb::Stop => Machine { running: m.running.remove(name), ..m },
            ServiceVerb::Start => if m.running.contains(name) {
                m
            } else {
                started(m, name)
            },
            ServiceVerb::Restart => started(m, name),
        },
        InstallEffectView::PolicyDown => Machine { rules: false, ..m },
        InstallEffectView::Healthcheck => Machine { checked: Some(m.loaded), ..m },
        InstallEffectView::Prune { store, keep } => Machine {
            pruned: m.pruned.insert(store, keep),
            ..m
        },
        InstallEffectView::Switch { store, target } => Machine {
            host: install::with_pointers(
                m.host,
                store,
                Pointers {
                    current: Some(target),
                    previous: if pointers(m.host, store).current is Some {
                        pointers(m.host, store).current
                    } else {
                        pointers(m.host, store).previous
                    },
                },
            ),
            ..m
        },
        InstallEffectView::Restore { store, current, previous } => Machine {
            host: install::with_pointers(m.host, store, Pointers { current, previous }),
            ..m
        },
        InstallEffectView::WriteState(s) => Machine { host: Host { state: s, ..m.host }, ..m },
        InstallEffectView::RecordHealth => Machine {
            host: Host {
                state: ManagerStateView {
                    last_successful_healthcheck: Some(now),
                    last_rollback_reason: None,
                    ..m.host.state
                },
                ..m.host
            },
            ..m
        },
    }
}

pub open spec fn changing(now: Seq<char>) -> spec_fn(Machine, InstallEffectView) -> Machine {
    |m: Machine, e: InstallEffectView| changed(m, e, now)
}

broadcast proof fn lemma_only_if(
    there: bool,
    s: StepView<InstallEffectView>,
    apply: spec_fn(Machine, InstallEffectView) -> Machine,
    m: Machine,
)
    ensures
        #[trigger] world_after(install::only_if(there, s), apply, m) == (if there {
            apply(m, s.effect)
        } else {
            m
        }),
{
    broadcast use {lemma_push, lemma_none};

}

broadcast proof fn lemma_joined(
    a: Seq<StepView<InstallEffectView>>,
    b: Seq<StepView<InstallEffectView>>,
    apply: spec_fn(Machine, InstallEffectView) -> Machine,
    m: Machine,
)
    ensures
        #[trigger] world_after(a + b, apply, m) == world_after(b, apply, world_after(a, apply, m)),
{
    program::lemma_world_concat(a, b, apply, m);
}

broadcast proof fn lemma_short(
    steps: Seq<StepView<InstallEffectView>>,
    apply: spec_fn(Machine, InstallEffectView) -> Machine,
    m: Machine,
)
    ensures
        #![trigger world_after(steps, apply, m)]
        steps.len() == 2 ==> world_after(steps, apply, m) == apply(
            apply(m, steps[0].effect),
            steps[1].effect,
        ),
        steps.len() == 3 ==> world_after(steps, apply, m) == apply(
            apply(apply(m, steps[0].effect), steps[1].effect),
            steps[2].effect,
        ),
{
    lemma_walked(steps, steps.len(), apply, m);
    reveal_with_fuel(walked, 4);
}

proof fn lemma_services()
    ensures
        "xray.service"@ != "xray-tun-policy.service"@,
{
    reveal_strlit("xray.service");
    reveal_strlit("xray-tun-policy.service");
    assert("xray.service"@.len() == 12);
    assert("xray-tun-policy.service"@.len() == 23);
}

/// The two links of a store after it was moved to a new generation, or not.
pub open spec fn moved(before: Pointers, to: Option<Seq<char>>) -> Pointers {
    match to {
        Some(directory) => Pointers {
            current: Some(directory),
            previous: if before.current is Some {
                before.current
            } else {
                before.previous
            },
        },
        None => before,
    }
}

/// A completed upgrade, on whatever host it began, moves exactly what it
/// upgrades: each new generation is current and the one before it the previous,
/// every other store stays as it was, and the state records just that. Xray runs
/// on what is then current, also where it ran before, and where a node is
/// selected it was checked on it.
pub proof fn law_upgrade_takes_effect(u: UpgradeView, now: Seq<char>, m: Machine)
    ensures
        ({
            let end = world_after(upgrade_program(u).main, changing(now), m);
            let s = end.host.state;
            &&& end.host.core == moved(
                m.host.core,
                match u.core {
                    Some(g) => Some(g.directory),
                    None => None,
                },
            )
            &&& end.host.assets == moved(
                m.host.assets,
                match u.assets {
                    Some(g) => Some(g.directory),
                    None => None,
                },
            )
            &&& end.host.config == m.host.config
            &&& u.core matches Some(g) ==> s.current_core_version == Some(g.name)
                && s.previous_core_version == u.state.current_core_version
            &&& u.core is None ==> s.current_core_version == u.state.current_core_version
                && s.previous_core_version == u.state.previous_core_version
            &&& u.assets matches Some(g) ==> s.current_asset_generation == Some(g.name)
                && s.previous_asset_generation == u.state.current_asset_generation
            &&& u.assets is None ==> s.current_asset_generation == u.state.current_asset_generation
                && s.previous_asset_generation == u.state.previous_asset_generation
            &&& s == (ManagerStateView {
                current_core_version: s.current_core_version,
                previous_core_version: s.previous_core_version,
                current_asset_generation: s.current_asset_generation,
                previous_asset_generation: s.previous_asset_generation,
                ..u.state
            })
            &&& end.running == m.running.insert("xray.service"@) && end.enabled == m.enabled
            &&& end.loaded == links(end.host)
            &&& end.checked == (if u.state.selected_node_id is Some {
                Some(links(end.host))
            } else {
                m.checked
            })
            &&& end.rules == m.rules
            &&& end.pruned == m.pruned.insert(Store::Core, u.keep_core).insert(
                Store::Assets,
                u.keep_assets,
            )
        }),
{
    broadcast use {lemma_push, lemma_none, lemma_only_if, lemma_joined, lemma_short};

    lemma_services();
}

/// An upgrade whose step `i` fails: only pruning may fail unheeded. From the
/// point where the new state is recorded, Xray runs again on what was current
/// before; earlier it was not touched.
pub proof fn law_failed_upgrade_takes_no_effect(u: UpgradeView, now: Seq<char>, i: int, m: Machine)
    requires
        install::agrees(m.host),
        m.host.state == u.state,
        0 <= i < upgrade_program(u).main.len(),
    ensures
        ({
            let failed = upgrade_program(u).main[i];
            let end = world_of_failure(upgrade_program(u), changing(now), i, m);
            match failed.effect {
                InstallEffectView::Prune { .. } => failed.policy == Policy::Ignore,
                InstallEffectView::Switch { .. } => failed.policy != Policy::Ignore && end.host
                    == m.host && end.running == m.running && end.loaded == m.loaded,
                InstallEffectView::WriteState(_) => failed.policy is Undo && end.host == m.host
                    && end.running.contains("xray.service"@) && end.loaded == links(m.host),
                InstallEffectView::Service { verb, name } => failed.policy is Undo && verb
                    == ServiceVerb::Restart && name == "xray.service"@ && end.host == m.host
                    && end.running.contains("xray.service"@) && end.loaded == links(m.host),
                InstallEffectView::Healthcheck => failed.policy is Undo && end.host == m.host
                    && end.running.contains("xray.service"@) && end.loaded == links(m.host),
                _ => false,
            }
        }),
{
    let p = upgrade_program(u);
    let f = changing(now);
    let a = install::only_if(
        u.core is Some,
        install::switch_step(Store::Core, install::new_directory(u.core), Policy::Fail),
    );
    let b = install::only_if(
        u.assets is Some,
        install::switch_step(Store::Assets, install::new_directory(u.assets), Policy::Undo(0)),
    );
    assert(pointers(m.host, Store::Core) == m.host.core);
    assert(pointers(m.host, Store::Assets) == m.host.assets);
    lemma_upgrade_steps(u, i);
    if i < a.len() {
        assert(p.main.take(i) =~= Seq::<StepView<InstallEffectView>>::empty());
    } else if i < a.len() + b.len() {
        assert(p.main.take(i) =~= a);
        lemma_only_if(
            u.core is Some,
            install::switch_step(Store::Core, install::new_directory(u.core), Policy::Fail),
            f,
            m,
        );
        let reached = world_after(a, f, m);
        lemma_only_if(u.core is Some, install::restore_step(u.state, Store::Core), f, reached);
    } else {
        lemma_upgrade_links(u, now, i, m);
        lemma_upgrade_undone(u, now, world_after(p.main.take(i), f, m));
    }
}

/// The steps of an upgrade, by their places.
proof fn lemma_upgrade_steps(u: UpgradeView, i: int)
    requires
        0 <= i < upgrade_program(u).main.len(),
    ensures
        ({
            let s = upgrade_program(u).main[i];
            let n = (if u.core is Some {
                1int
            } else {
                0
            }) + (if u.assets is Some {
                1int
            } else {
                0
            });
            &&& i < n ==> s.effect is Switch && (s.policy == Policy::Fail && i == 0 && u.core is Some
                || s.policy == Policy::Undo(0) && u.assets is Some && i == n - 1)
            &&& i >= n ==> match s.effect {
                InstallEffectView::WriteState(_) => s.policy == Policy::Undo(1),
                InstallEffectView::Service { verb, name } => s.policy == Policy::Undo(1) && verb
                    == ServiceVerb::Restart && name == "xray.service"@,
                InstallEffectView::Healthcheck => s.policy == Policy::Undo(1),
                InstallEffectView::Prune { .. } => s.policy == Policy::Ignore,
                _ => false,
            }
            &&& s.effect matches InstallEffectView::Switch { store, .. } ==> (store == Store::Core
                && u.core is Some || store == Store::Assets && u.assets is Some)
        }),
{
    let a = install::only_if(
        u.core is Some,
        install::switch_step(Store::Core, install::new_directory(u.core), Policy::Fail),
    );
    let b = install::only_if(
        u.assets is Some,
        install::switch_step(Store::Assets, install::new_directory(u.assets), Policy::Undo(0)),
    );
    let c = seq![
        program::step(InstallEffectView::WriteState(upgraded_state(u)), Policy::Undo(1)),
        install::service_step(ServiceVerb::Restart, "xray.service"@, Policy::Undo(1)),
    ];
    let d = install::only_if(
        u.state.selected_node_id is Some,
        program::step(InstallEffectView::Healthcheck, Policy::Undo(1)),
    );
    let e = seq![
        install::prune_step(Store::Core, u.keep_core),
        install::prune_step(Store::Assets, u.keep_assets),
    ];
    let w = upgrade_program(u).main;
    let n1 = a.len() as int;
    let n2 = n1 + b.len();
    let n3 = n2 + c.len();
    let n4 = n3 + d.len();
    assert(w == a + b + c + d + e);
    if i < n1 {
        assert(w[i] == a[i]);
    } else if i < n2 {
        assert(w[i] == b[i - n1]);
    } else if i < n3 {
        assert(w[i] == c[i - n2]);
    } else if i < n4 {
        assert(w[i] == d[i - n3]);
    } else {
        assert(w[i] == e[i - n4]);
    }
}

proof fn lemma_upgrade_links(u: UpgradeView, now: Seq<char>, i: int, m: Machine)
    requires
        0 <= i <= upgrade_program(u).main.len(),
    ensures
        ({
            let reached = world_after(upgrade_program(u).main.take(i), changing(now), m);
            &&& u.core is None ==> reached.host.core == m.host.core
            &&& u.assets is None ==> reached.host.assets == m.host.assets
            &&& reached.host.config == m.host.config
        }),
    decreases i,
{
    let w = upgrade_program(u).main;
    if i > 0 {
        lemma_upgrade_links(u, now, i - 1, m);
        lemma_upgrade_steps(u, i - 1);
        assert(w.take(i).drop_last() =~= w.take(i - 1));
    }
}

proof fn lemma_upgrade_undone(u: UpgradeView, now: Seq<char>, m: Machine)
    ensures
        ({
            let end = world_after(upgrade_program(u).undos[1], changing(now), m);
            &&& end.host == (Host {
                core: if u.core is Some {
                    Pointers {
                        current: install::recorded(Store::Core, u.state.current_core_version),
                        previous: install::recorded(Store::Core, u.state.previous_core_version),
                    }
                } else {
                    m.host.core
                },
                assets: if u.assets is Some {
                    Pointers {
                        current: install::recorded(Store::Assets, u.state.current_asset_generation),
                        previous: install::recorded(Store::Assets, u.state.previous_asset_generation),
                    }
                } else {
                    m.host.assets
                },
                config: m.host.config,
                state: u.state,
            })
            &&& end.running.contains("xray.service"@)
            &&& end.loaded == links(end.host)
        }),
{
    broadcast use {lemma_only_if, lemma_joined, lemma_short};

}

/// A completed installation or repair, on whatever host it began: each store
/// that the plan changes is moved to what was prepared, the old generation is
/// its previous, and no other store is moved. A new configuration belongs to
/// the service user. Xray is enabled and runs; where it did not run before, it
/// runs on what was installed. The TUN policy is kept exactly where it is
/// configured, and the state records the new generations.
pub proof fn law_installation_takes_effect(p: InstallPlanView, now: Seq<char>, m: Machine)
    ensures
        ({
            let end = world_after(install_program(p).main, changing(now), m);
            let c = p.candidate;
            let s = end.host.state;
            &&& end.host.core == moved(
                m.host.core,
                if p.core_changed {
                    Some(c.core_directory)
                } else {
                    None
                },
            )
            &&& end.host.assets == moved(
                m.host.assets,
                if p.assets_changed {
                    Some(c.asset_directory)
                } else {
                    None
                },
            )
            &&& end.host.config == moved(m.host.config, c.config_directory)
            &&& c.config_directory matches Some(d) ==> end.owned.contains(d)
            &&& end.units_read
            &&& end.enabled.contains("xray.service"@) && end.running.contains("xray.service"@)
            &&& end.loaded == (if m.running.contains("xray.service"@) {
                m.loaded
            } else {
                links(end.host)
            })
            &&& end.enabled.contains("xray-tun-policy.service"@) == p.tun_enabled
            &&& end.running.contains("xray-tun-policy.service"@) == p.tun_enabled
            &&& !p.tun_enabled ==> !end.rules
            &&& p.tun_enabled ==> end.rules == m.rules
            &&& end.checked == (if p.state.selected_node_id is Some {
                Some(end.loaded)
            } else {
                m.checked
            })
            &&& end.pruned == m.pruned.insert(Store::Core, p.keep_core).insert(
                Store::Assets,
                p.keep_assets,
            ).insert(Store::Config, p.keep_config)
            &&& s.current_core_version == Some(c.core_version)
            &&& s.current_asset_generation == Some(c.asset_generation)
            &&& s.current_config_generation == Some(c.config_generation)
            &&& p.state.current_core_version != Some(c.core_version) ==> s.previous_core_version
                == p.state.current_core_version
            &&& p.state.current_core_version == Some(c.core_version) ==> s.previous_core_version
                == p.state.previous_core_version
            &&& p.state.current_asset_generation != Some(c.asset_generation)
                ==> s.previous_asset_generation == p.state.current_asset_generation
            &&& p.state.current_asset_generation == Some(c.asset_generation)
                ==> s.previous_asset_generation == p.state.previous_asset_generation
            &&& p.state.current_config_generation != Some(c.config_generation)
                ==> s.previous_config_generation == p.state.current_config_generation
            &&& p.state.current_config_generation == Some(c.config_generation)
                ==> s.previous_config_generation == p.state.previous_config_generation
            &&& s.selected_node_id == p.state.selected_node_id
            &&& s.installed_backends == p.backends
            &&& p.state.selected_node_id is Some ==> s.last_successful_healthcheck == Some(now)
                && s.last_rollback_reason is None
            &&& p.state.selected_node_id is None ==> s.last_successful_healthcheck
                == p.state.last_successful_healthcheck && s.last_rollback_reason
                == p.state.last_rollback_reason
        }),
{
    let f = changing(now);
    let h1 = world_after(install::switch_steps(p), f, m);
    let h2 = world_after(install::start_steps(p), f, h1);
    lemma_switched(p, now, m);
    lemma_started(p, now, h1);
    lemma_finished(p, now, h2);
    program::lemma_world_concat(install::switch_steps(p), install::start_steps(p), f, m);
    program::lemma_world_concat(
        install::switch_steps(p) + install::start_steps(p),
        install::finish_steps(p),
        f,
        m,
    );
}

proof fn lemma_switched(p: InstallPlanView, now: Seq<char>, m: Machine)
    ensures
        ({
            let end = world_after(install::switch_steps(p), changing(now), m);
            let c = p.candidate;
            end == (Machine {
                host: Host {
                    core: moved(
                        m.host.core,
                        if p.core_changed {
                            Some(c.core_directory)
                        } else {
                            None
                        },
                    ),
                    assets: moved(
                        m.host.assets,
                        if p.assets_changed {
                            Some(c.asset_directory)
                        } else {
                            None
                        },
                    ),
                    config: moved(m.host.config, c.config_directory),
                    state: install::new_state(p),
                },
                owned: match c.config_directory {
                    Some(d) => m.owned.insert(d),
                    None => m.owned,
                },
                ..m
            })
        }),
{
    broadcast use {lemma_push, lemma_none, lemma_only_if, lemma_joined};

}

proof fn lemma_started(p: InstallPlanView, now: Seq<char>, m: Machine)
    ensures
        ({
            let end = world_after(install::start_steps(p), changing(now), m);
            &&& end == (Machine {
                units_read: true,
                enabled: end.enabled,
                running: end.running,
                loaded: if m.running.contains("xray.service"@) {
                    m.loaded
                } else {
                    links(m.host)
                },
                rules: m.rules && p.tun_enabled,
                checked: if p.state.selected_node_id is Some {
                    Some(end.loaded)
                } else {
                    m.checked
                },
                ..m
            })
            &&& end.enabled.contains("xray.service"@) && end.running.contains("xray.service"@)
            &&& end.enabled.contains("xray-tun-policy.service"@) == p.tun_enabled
            &&& end.running.contains("xray-tun-policy.service"@) == p.tun_enabled
        }),
{
    broadcast use {lemma_push, lemma_none, lemma_only_if, lemma_joined, lemma_short};

    lemma_services();
}

proof fn lemma_finished(p: InstallPlanView, now: Seq<char>, m: Machine)
    ensures
        world_after(install::finish_steps(p), changing(now), m) == (Machine {
            host: Host {
                state: if p.state.selected_node_id is Some {
                    ManagerStateView {
                        last_successful_healthcheck: Some(now),
                        last_rollback_reason: None,
                        ..m.host.state
                    }
                } else {
                    m.host.state
                },
                ..m.host
            },
            pruned: m.pruned.insert(Store::Core, p.keep_core).insert(
                Store::Assets,
                p.keep_assets,
            ).insert(Store::Config, p.keep_config),
            ..m
        }),
{
    broadcast use {lemma_only_if, lemma_joined, lemma_short};

}

/// Which failures of an installation are heeded: what moves or records
/// anything, what reads the units, what starts a service and the health check;
/// not what takes an unwanted TUN policy down, nor pruning.
pub proof fn law_installation_heeds_failures(p: InstallPlanView, i: int)
    requires
        0 <= i < install_program(p).main.len(),
    ensures
        match install_program(p).main[i].effect {
            InstallEffectView::Own { .. } => install_program(p).main[i].policy == Policy::Fail,
            InstallEffectView::Switch { .. } => install_program(p).main[i].policy != Policy::Ignore,
            InstallEffectView::WriteState(_) => install_program(p).main[i].policy is Undo,
            InstallEffectView::DaemonReload => install_program(p).main[i].policy is Undo,
            InstallEffectView::ServiceNow { enable, name } => if enable {
                install_program(p).main[i].policy is Undo
            } else {
                install_program(p).main[i].policy == Policy::Ignore && name
                    == "xray-tun-policy.service"@ && !p.tun_enabled
            },
            InstallEffectView::PolicyDown => install_program(p).main[i].policy == Policy::Ignore,
            InstallEffectView::Healthcheck => install_program(p).main[i].policy is Undo,
            InstallEffectView::RecordHealth => install_program(p).main[i].policy == Policy::Fail,
            InstallEffectView::Prune { .. } => install_program(p).main[i].policy == Policy::Ignore,
            _ => false,
        },
{
    let a = install::switch_steps(p);
    let b = install::start_steps(p);
    let c = install::finish_steps(p);
    let w = install_program(p).main;
    if i < a.len() {
        assert(w[i] == a[i]);
    } else if i < a.len() + b.len() {
        assert(w[i] == b[i - a.len()]);
    } else {
        assert(w[i] == c[i - a.len() - b.len()]);
    }
}

/// An installation that fails while the services are started: a host that had a
/// core runs Xray again on what was current before; on one that had none, the
/// TUN policy is taken down and its service does not run.
pub proof fn law_failed_start_of_installation(p: InstallPlanView, now: Seq<char>, i: int, m: Machine)
    requires
        install::agrees(m.host),
        m.host.state == p.state,
        0 <= i < install_program(p).main.len(),
        ({
            let failed = install_program(p).main[i];
            ||| failed.effect is DaemonReload
            ||| failed.effect is Healthcheck
            ||| failed.effect matches InstallEffectView::ServiceNow { enable, .. } && enable
        }),
    ensures
        ({
            let end = world_of_failure(install_program(p), changing(now), i, m);
            &&& p.had_core ==> end.running.contains("xray.service"@) && end.loaded == links(m.host)
            &&& !p.had_core ==> !end.running.contains("xray-tun-policy.service"@) && !end.rules
        }),
{
    let w = install_program(p);
    let a = install::switch_steps(p);
    let b = install::start_steps(p);
    let c = install::finish_steps(p);
    if i < a.len() {
        assert(w.main[i] == a[i]);
    } else if i < a.len() + b.len() {
        assert(w.main[i] == b[i - a.len()]);
    } else {
        assert(w.main[i] == c[i - a.len() - b.len()]);
    }
    assert(w.main[i].policy == Policy::Undo(3));
    lemma_links_before(p, now, i, m);
    lemma_start_undone(p, now, world_after(w.main.take(i), changing(now), m));
    assert(pointers(m.host, Store::Core) == m.host.core);
    assert(pointers(m.host, Store::Assets) == m.host.assets);
    assert(pointers(m.host, Store::Config) == m.host.config);
}

proof fn lemma_start_undone(p: InstallPlanView, now: Seq<char>, m: Machine)
    ensures
        ({
            let end = world_after(install_program(p).undos[3], changing(now), m);
            &&& p.had_core ==> end.running.contains("xray.service"@) && end.loaded.core == (
            if p.core_changed {
                install::recorded(Store::Core, p.state.current_core_version)
            } else {
                m.host.core.current
            }) && end.loaded.assets == (if p.assets_changed {
                install::recorded(Store::Assets, p.state.current_asset_generation)
            } else {
                m.host.assets.current
            }) && end.loaded.config == (if p.candidate.config_directory is Some {
                install::recorded(Store::Config, p.state.current_config_generation)
            } else {
                m.host.config.current
            })
            &&& !p.had_core ==> !end.running.contains("xray-tun-policy.service"@) && !end.rules
        }),
{
    broadcast use {lemma_push, lemma_none, lemma_only_if, lemma_joined, lemma_short};

    assert(install_program(p).undos[3] == install::undo_start(p));
}

/// A link that a plan does not change is not changed by any part of its program.
proof fn lemma_links_before(p: InstallPlanView, now: Seq<char>, i: int, m: Machine)
    requires
        0 <= i <= install_program(p).main.len(),
    ensures
        ({
            let reached = world_after(install_program(p).main.take(i), changing(now), m);
            &&& !p.core_changed ==> reached.host.core == m.host.core
            &&& !p.assets_changed ==> reached.host.assets == m.host.assets
            &&& p.candidate.config_directory is None ==> reached.host.config == m.host.config
        }),
    decreases i,
{
    let w = install_program(p).main;
    let a = install::switch_steps(p);
    let b = install::start_steps(p);
    let c = install::finish_steps(p);
    if i > 0 {
        lemma_links_before(p, now, i - 1, m);
        assert(w.take(i).drop_last() =~= w.take(i - 1));
        let k = i - 1;
        if k < a.len() {
            assert(w[k] == a[k]);
        } else if k < a.len() + b.len() {
            assert(w[k] == b[k - a.len()]);
        } else {
            assert(w[k] == c[k - a.len() - b.len()]);
        }
    }
}

} // verus!
