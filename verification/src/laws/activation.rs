//! What an activation, a rollback by hand and switching TUN do to a host.

use crate::activation::{activation, rollback, tun_disable, tun_enable};
use crate::activation::{ActivationView, Component, EffectView, ServiceVerb};
use crate::activation;
use crate::domain::ManagerStateView;
use crate::events::ManagerEventView;
use crate::json::JsonView;
use crate::ports::{ManagerPathsView, XrayTestRequestView};
use crate::ports::path_join;
use crate::program::{world_after, world_of_failure, Policy, StepView};
use crate::program;
use vstd::prelude::*;

verus! {

/// A host as an activation finds it and leaves it. A link is held by its path.
/// `loaded` is the generation that the running Xray has read, which it does
/// when it starts and never again; `checked` is the one that was loaded when
/// the last health check passed; `tested` is the last test that passed, with
/// the files that were there.
#[verifier::ext_equal]
pub struct System {
    pub links: Map<Seq<char>, Seq<char>>,
    pub files: Map<Seq<char>, JsonView>,
    pub modes: Map<Seq<char>, u32>,
    pub owners: Map<Seq<char>, (Seq<char>, Seq<char>, bool)>,
    pub gone: Set<Seq<char>>,
    pub tested: Option<(XrayTestRequestView, Map<Seq<char>, JsonView>)>,
    pub enabled: Set<Seq<char>>,
    pub running: Set<Seq<char>>,
    pub loaded: Option<Seq<char>>,
    pub checked: Option<Option<Seq<char>>>,
    pub firewall: bool,
    pub routing: bool,
    pub state: ManagerStateView,
    pub pruned: Option<(Seq<char>, Seq<char>, Seq<char>, usize)>,
    pub events: Seq<ManagerEventView>,
}

pub open spec fn target(links: Map<Seq<char>, Seq<char>>, path: Seq<char>) -> Option<Seq<char>> {
    if links.contains_key(path) {
        Some(links[path])
    } else {
        None
    }
}

pub open spec fn linked(
    links: Map<Seq<char>, Seq<char>>,
    path: Seq<char>,
    to: Option<Seq<char>>,
) -> Map<Seq<char>, Seq<char>> {
    match to {
        Some(t) => links.insert(path, t),
        None => links.remove(path),
    }
}

/// What the service manager makes of a host. Starting a service that runs does
/// nothing; restarting it starts it anew. `current` is the link that Xray reads
/// its configuration through.
pub open spec fn served(h: System, verb: ServiceVerb, name: Seq<char>, current: Seq<char>) -> System {
    let read = if name == "xray.service"@ {
        target(h.links, current)
    } else {
        h.loaded
    };
    match verb {
        ServiceVerb::Enable => System { enabled: h.enabled.insert(name), ..h },
        ServiceVerb::Disable => System { enabled: h.enabled.remove(name), ..h },
        ServiceVerb::Stop => System { running: h.running.remove(name), ..h },
        ServiceVerb::Start => if h.running.contains(name) {
            h
        } else {
            System { running: h.running.insert(name), loaded: read, ..h }
        },
        ServiceVerb::Restart => System { running: h.running.insert(name), loaded: read, ..h },
    }
}

/// What an effect makes of a host.
pub open spec fn changed(h: System, e: EffectView, current: Seq<char>, now: Seq<char>) -> System {
    match e {
        EffectView::CreateDir { .. } => h,
        EffectView::SetPermissions { path, mode } => System { modes: h.modes.insert(path, mode), ..h },
        EffectView::WriteJson { path, value, mode } => System {
            files: h.files.insert(path, value),
            modes: h.modes.insert(path, mode),
            ..h
        },
        EffectView::Emit(event) => System { events: h.events.push(event), ..h },
        EffectView::EmitValidationFailed => h,
        EffectView::EmitRollbackStarted => h,
        EffectView::TestConfig(request) => System { tested: Some((request, h.files)), ..h },
        EffectView::RemoveOwned { path, .. } => System { gone: h.gone.insert(path), ..h },
        EffectView::SetOwnership { path, user, group, recursive } => System {
            owners: h.owners.insert(path, (user, group, recursive)),
            ..h
        },
        EffectView::Switch { current, previous, target: new } => System {
            links: (match target(h.links, current) {
                Some(old) => h.links.insert(previous, old),
                None => h.links,
            }).insert(current, new),
            ..h
        },
        EffectView::Restore { current, previous, current_target, previous_target } => System {
            links: linked(linked(h.links, current, current_target), previous, previous_target),
            ..h
        },
        EffectView::SwapPointers { current, previous } => System {
            links: linked(
                linked(h.links, current, target(h.links, previous)),
                previous,
                target(h.links, current),
            ),
            ..h
        },
        EffectView::WriteState(s) => System { state: s, ..h },
        EffectView::RecordHealth { clear_rollback_reason } => System {
            state: ManagerStateView {
                last_successful_healthcheck: Some(now),
                last_rollback_reason: if clear_rollback_reason {
                    None
                } else {
                    h.state.last_rollback_reason
                },
                ..h.state
            },
            ..h
        },
        EffectView::Healthcheck => System { checked: Some(h.loaded), ..h },
        EffectView::Service { verb, name } => served(h, verb, name, current),
        EffectView::RoutingEnable => System { routing: true, ..h },
        EffectView::RoutingDisable => System { routing: false, ..h },
        EffectView::FirewallEnable => System { firewall: true, ..h },
        EffectView::FirewallDisable => System { firewall: false, ..h },
        EffectView::Prune { root, current, previous, keep } => System {
            pruned: Some((root, current, previous, keep)),
            ..h
        },
    }
}

pub open spec fn changing(current: Seq<char>, now: Seq<char>) -> spec_fn(System, EffectView) -> System {
    |h: System, e: EffectView| changed(h, e, current, now)
}

pub broadcast proof fn lemma_push<V, W>(
    steps: Seq<StepView<V>>,
    s: StepView<V>,
    apply: spec_fn(W, V) -> W,
    w: W,
)
    ensures
        #[trigger] world_after(steps.push(s), apply, w) == apply(
            world_after(steps, apply, w),
            s.effect,
        ),
{
    assert(steps.push(s).drop_last() =~= steps);
}

pub broadcast proof fn lemma_none<V, W>(apply: spec_fn(W, V) -> W, w: W)
    ensures
        #[trigger] world_after(Seq::<StepView<V>>::empty(), apply, w) == w,
{
}

/// The world after the first `n` steps.
pub open spec fn walked<V, W>(
    steps: Seq<StepView<V>>,
    n: nat,
    apply: spec_fn(W, V) -> W,
    w: W,
) -> W
    decreases n,
{
    if n == 0 {
        w
    } else {
        apply(walked(steps, (n - 1) as nat, apply, w), steps[n - 1].effect)
    }
}

pub proof fn lemma_walked<V, W>(
    steps: Seq<StepView<V>>,
    n: nat,
    apply: spec_fn(W, V) -> W,
    w: W,
)
    requires
        n <= steps.len(),
    ensures
        world_after(steps.take(n as int), apply, w) == walked(steps, n, apply, w),
        n == steps.len() ==> world_after(steps, apply, w) == walked(steps, n, apply, w),
    decreases n,
{
    if n > 0 {
        lemma_walked(steps, (n - 1) as nat, apply, w);
        assert(steps.take(n as int).drop_last() =~= steps.take(n - 1));
    }
    assert(steps.take(steps.len() as int) =~= steps);
}

proof fn lemma_services()
    ensures
        "xray.service"@ != "xray-tun-policy.service"@,
{
    reveal_strlit("xray.service");
    reveal_strlit("xray-tun-policy.service");
    assert("xray.service"@.len() == 12);
    assert("xray-tun-policy.service"@.len() == 23);
}

/// The two links of a directory are two.
pub proof fn lemma_two_links(windows: bool, base: Seq<char>)
    ensures
        path_join(windows, base, "current"@) != path_join(windows, base, "previous"@),
{
    reveal_strlit("current");
    reveal_strlit("previous");
    lemma_ends_with_name(windows, base, "current"@);
    lemma_ends_with_name(windows, base, "previous"@);
}

/// A joined path ends with the name that was joined.
pub proof fn lemma_ends_with_name(windows: bool, base: Seq<char>, name: Seq<char>)
    requires
        name.len() > 0,
    ensures
        path_join(windows, base, name).len() > 0,
        path_join(windows, base, name).last() == name.last(),
{
    let p = path_join(windows, base, name);
    assert(p == name || p.last() == name.last());
}

/// The steps only make directories and write files.
spec fn prepares(steps: Seq<StepView<EffectView>>) -> bool {
    forall|i: int| 0 <= i < steps.len() ==> match (#[trigger] steps[i]).effect {
        EffectView::CreateDir { .. } => true,
        EffectView::SetPermissions { .. } => true,
        EffectView::WriteJson { .. } => true,
        _ => false,
    }
}

proof fn lemma_prepares(
    steps: Seq<StepView<EffectView>>,
    current: Seq<char>,
    now: Seq<char>,
    h: System,
)
    requires
        prepares(steps),
    ensures
        ({
            let end = world_after(steps, changing(current, now), h);
            end == (System { files: end.files, modes: end.modes, ..h })
        }),
    decreases steps.len(),
{
    if steps.len() > 0 {
        let rest = steps.drop_last();
        assert forall|i: int| 0 <= i < rest.len() implies match (#[trigger] rest[i]).effect {
            EffectView::CreateDir { .. } => true,
            EffectView::SetPermissions { .. } => true,
            EffectView::WriteJson { .. } => true,
            _ => false,
        } by {
            assert(rest[i] == steps[i]);
        }
        lemma_prepares(rest, current, now, h);
        assert(steps[steps.len() - 1] == steps.last());
    }
}

/// Files of different paths are all written, and their modes set.
proof fn lemma_written(
    windows: bool,
    dir: Seq<char>,
    files: Seq<(Seq<char>, JsonView)>,
    current: Seq<char>,
    now: Seq<char>,
    h: System,
)
    requires
        forall|j: int, k: int|
            0 <= j < k < files.len() ==> path_join(windows, dir, (#[trigger] files[j]).0)
                != path_join(windows, dir, (#[trigger] files[k]).0),
    ensures
        ({
            let steps = activation::write_files(windows, dir, files);
            let end = world_after(steps, changing(current, now), h);
            &&& forall|k: int|
                0 <= k < files.len() ==> {
                    let path = path_join(windows, dir, (#[trigger] files[k]).0);
                    &&& end.files.contains_key(path)
                    &&& end.files[path] == files[k].1
                    &&& end.modes.contains_key(path)
                    &&& end.modes[path] == 0o640
                }
        }),
    decreases files.len(),
{
    broadcast use {lemma_push, lemma_none};

    let steps = activation::write_files(windows, dir, files);
    if files.len() == 0 {
        assert(steps =~= Seq::<StepView<EffectView>>::empty());
    } else {
        let rest = files.drop_last();
        let last = files.last();
        assert forall|j: int, k: int| 0 <= j < k < rest.len() implies path_join(
            windows,
            dir,
            (#[trigger] rest[j]).0,
        ) != path_join(windows, dir, (#[trigger] rest[k]).0) by {
            assert(rest[j] == files[j] && rest[k] == files[k]);
        }
        lemma_written(windows, dir, rest, current, now, h);
        assert(steps =~= activation::write_files(windows, dir, rest).push(
            activation::write_step(windows, dir, last),
        ));
        let mid = world_after(activation::write_files(windows, dir, rest), changing(current, now), h);
        let end = world_after(steps, changing(current, now), h);
        assert(end == changed(mid, activation::write_step(windows, dir, last).effect, current, now));
        assert forall|k: int| 0 <= k < files.len() implies ({
            let path = path_join(windows, dir, (#[trigger] files[k]).0);
            &&& end.files.contains_key(path)
            &&& end.files[path] == files[k].1
            &&& end.modes.contains_key(path)
            &&& end.modes[path] == 0o640
        }) by {
            if k < rest.len() {
                assert(rest[k] == files[k]);
                assert(files[k].0 == files[k].0 && files[files.len() - 1] == last);
            }
        }
    }
}

proof fn lemma_commit(a: ActivationView, now: Seq<char>, h: System)
    ensures
        ({
            let w = a.paths.windows;
            let current = path_join(w, a.paths.state_dir, "current"@);
            let previous = path_join(w, a.paths.state_dir, "previous"@);
            let new = activation::candidate(a);
            let end = world_after(activation::commit_steps(a), changing(current, now), h);
            end == (System {
                tested: Some(
                    (
                        XrayTestRequestView {
                            executable: path_join(
                                w,
                                path_join(w, a.paths.install_dir, "core/current"@),
                                a.executable_name,
                            ),
                            config_dir: activation::candidate_conf(a),
                            asset_dir: path_join(w, a.paths.install_dir, "assets/current"@),
                        },
                        h.files,
                    ),
                ),
                owners: h.owners.insert(new, ("xray"@, "xray"@, true)),
                links: (match target(h.links, current) {
                    Some(old) => h.links.insert(previous, old),
                    None => h.links,
                }).insert(current, new),
                state: activation::activated_state(a),
                events: h.events.push(ManagerEventView::ConfigValidationStarted).push(
                    ManagerEventView::ConfigValidationSucceeded,
                ).push(ManagerEventView::ServiceRestartStarted),
                ..h
            })
        }),
{
    let current = path_join(a.paths.windows, a.paths.state_dir, "current"@);
    let c = activation::commit_steps(a);
    lemma_walked(c, c.len(), changing(current, now), h);
    reveal_with_fuel(walked, 8);
}

proof fn lemma_start(a: ActivationView, now: Seq<char>, h: System)
    ensures
        ({
            let current = path_join(a.paths.windows, a.paths.state_dir, "current"@);
            let end = world_after(activation::start_steps(a), changing(current, now), h);
            &&& end == (System {
                enabled: end.enabled,
                running: end.running,
                loaded: target(h.links, current),
                checked: if a.selected is Some {
                    Some(target(h.links, current))
                } else {
                    h.checked
                },
                firewall: h.firewall && a.tun_enabled,
                routing: h.routing && a.tun_enabled,
                ..h
            })
            &&& end.running.contains("xray.service"@) && end.enabled.contains("xray.service"@)
            &&& end.enabled.contains("xray-tun-policy.service"@) == a.tun_enabled
            &&& end.running.contains("xray-tun-policy.service"@) == a.tun_enabled
        }),
{
    lemma_services();
    let current = path_join(a.paths.windows, a.paths.state_dir, "current"@);
    let s = activation::start_steps(a);
    lemma_walked(s, s.len(), changing(current, now), h);
    reveal_with_fuel(walked, 8);
}

proof fn lemma_finish(a: ActivationView, now: Seq<char>, h: System)
    ensures
        ({
            let w = a.paths.windows;
            let current = path_join(w, a.paths.state_dir, "current"@);
            let previous = path_join(w, a.paths.state_dir, "previous"@);
            let end = world_after(activation::finish_steps(a), changing(current, now), h);
            end == (System {
                events: h.events.push(ManagerEventView::ServiceRestartSucceeded),
                pruned: Some(
                    (
                        path_join(w, a.paths.state_dir, "generations"@),
                        current,
                        previous,
                        a.keep,
                    ),
                ),
                state: if a.selected is Some {
                    ManagerStateView {
                        last_successful_healthcheck: Some(now),
                        last_rollback_reason: None,
                        ..h.state
                    }
                } else {
                    h.state
                },
                ..h
            })
        }),
{
    let current = path_join(a.paths.windows, a.paths.state_dir, "current"@);
    let e = activation::finish_steps(a);
    lemma_walked(e, e.len(), changing(current, now), h);
    reveal_with_fuel(walked, 5);
}

/// A completed activation, on whatever host it began: the new generation is
/// current and the one before it is the previous. Xray is enabled and runs on
/// the new generation, also where it ran on another before, and where a node is
/// selected it was checked on the new generation. Every rendered file was
/// written to the new generation, which was tested with all of them in place.
/// The rules of TUN and the service that keeps them are as the configuration
/// has it, and the state records the new generation, the old one and the node.
pub proof fn law_activation_takes_effect(
    a: ActivationView,
    files: Seq<(Seq<char>, JsonView)>,
    now: Seq<char>,
    h: System,
)
    requires
        forall|j: int, k: int|
            0 <= j < k < files.len() ==> path_join(
                a.paths.windows,
                path_join(
                    a.paths.windows,
                    path_join(
                        a.paths.windows,
                        path_join(a.paths.windows, a.paths.state_dir, "generations"@),
                        a.generation,
                    ),
                    "conf.d"@,
                ),
                (#[trigger] files[j]).0,
            ) != path_join(
                a.paths.windows,
                path_join(
                    a.paths.windows,
                    path_join(
                        a.paths.windows,
                        path_join(a.paths.windows, a.paths.state_dir, "generations"@),
                        a.generation,
                    ),
                    "conf.d"@,
                ),
                (#[trigger] files[k]).0,
            ),
    ensures
        ({
            let w = a.paths.windows;
            let current = path_join(w, a.paths.state_dir, "current"@);
            let previous = path_join(w, a.paths.state_dir, "previous"@);
            let root = path_join(w, a.paths.state_dir, "generations"@);
            let new = path_join(w, root, a.generation);
            let conf = path_join(w, new, "conf.d"@);
            let end = world_after(activation(a, files).main, changing(current, now), h);
            &&& target(end.links, current) == Some(new)
            &&& target(end.links, previous) == (if h.links.contains_key(current) {
                Some(h.links[current])
            } else {
                target(h.links, previous)
            })
            &&& end.running.contains("xray.service"@) && end.enabled.contains("xray.service"@)
            &&& end.loaded == Some(new)
            &&& end.checked == (if a.selected is Some {
                Some(Some(new))
            } else {
                h.checked
            })
            &&& end.tested matches Some((request, there)) && request.config_dir == conf
                && request.executable == path_join(
                w,
                path_join(w, a.paths.install_dir, "core/current"@),
                a.executable_name,
            ) && request.asset_dir == path_join(w, a.paths.install_dir, "assets/current"@) && (
            forall|k: int|
                0 <= k < files.len() ==> {
                    let path = path_join(w, conf, (#[trigger] files[k]).0);
                    there.contains_key(path) && there[path] == files[k].1
                })
            &&& forall|k: int|
                0 <= k < files.len() ==> {
                    let path = path_join(w, conf, (#[trigger] files[k]).0);
                    &&& end.files.contains_key(path)
                    &&& end.files[path] == files[k].1
                    &&& end.modes[path] == 0o640
                }
            &&& end.owners.contains_key(new) && end.owners[new] == ("xray"@, "xray"@, true)
            &&& end.enabled.contains("xray-tun-policy.service"@) == a.tun_enabled
            &&& end.running.contains("xray-tun-policy.service"@) == a.tun_enabled
            &&& !a.tun_enabled ==> !end.firewall && !end.routing
            &&& a.tun_enabled ==> end.firewall == h.firewall && end.routing == h.routing
            &&& end.gone == h.gone
            &&& end.state.current_config_generation == Some(a.generation)
            &&& end.state.previous_config_generation == a.state.current_config_generation
            &&& end.state.selected_node_id == a.selected
            &&& end.state.current_core_version == a.state.current_core_version
            &&& end.state.previous_core_version == a.state.previous_core_version
            &&& end.state.current_asset_generation == a.state.current_asset_generation
            &&& end.state.previous_asset_generation == a.state.previous_asset_generation
            &&& end.state.installed_backends == a.state.installed_backends
            &&& end.state.created_identities == a.state.created_identities
            &&& a.selected is Some ==> end.state.last_successful_healthcheck == Some(now)
                && end.state.last_rollback_reason is None
            &&& a.selected is None ==> end.state.last_successful_healthcheck
                == a.state.last_successful_healthcheck && end.state.last_rollback_reason
                == a.state.last_rollback_reason
            &&& end.pruned == Some((root, current, previous, a.keep))
            &&& end.events == h.events.push(ManagerEventView::ConfigValidationStarted).push(
                ManagerEventView::ConfigValidationSucceeded,
            ).push(ManagerEventView::ServiceRestartStarted).push(
                ManagerEventView::ServiceRestartSucceeded,
            )
        }),
{
    let w = a.paths.windows;
    let current = path_join(w, a.paths.state_dir, "current"@);
    let f = changing(current, now);
    lemma_two_links(w, a.paths.state_dir);
    let d = activation::make_directories(a);
    let x = activation::write_files(w, activation::candidate_conf(a), files);
    let early = d + x;
    assert(prepares(early)) by {
        assert forall|i: int| 0 <= i < early.len() implies match (#[trigger] early[i]).effect {
            EffectView::CreateDir { .. } => true,
            EffectView::SetPermissions { .. } => true,
            EffectView::WriteJson { .. } => true,
            _ => false,
        } by {
            if i < d.len() {
                assert(early[i] == d[i]);
            } else {
                assert(early[i] == x[i - d.len()]);
            }
        }
    }
    lemma_prepares(early, current, now, h);
    lemma_written(w, activation::candidate_conf(a), files, current, now, world_after(d, f, h));
    let h1 = world_after(early, f, h);
    let c = activation::commit_steps(a);
    let s = activation::start_steps(a);
    let e = activation::finish_steps(a);
    assert(activation(a, files).main =~= early + c + s + e);
    let h2 = world_after(c, f, h1);
    let h3 = world_after(s, f, h2);
    lemma_commit(a, now, h1);
    lemma_start(a, now, h2);
    lemma_finish(a, now, h3);
    program::lemma_world_concat(d, x, f, h);
    program::lemma_world_concat(early, c, f, h);
    program::lemma_world_concat(early + c, s, f, h);
    program::lemma_world_concat(early + c + s, e, f, h);
}

/// An activation whose step `i` fails. Before the configuration is tested, the
/// host stays as it was. From then on until the new state is recorded, both
/// links, the state and the services are left as they were, and the new
/// generation is removed. Later both links lead where they did, the old state is
/// recorded with the reason, and Xray runs on the old generation again.
pub proof fn law_failed_activation_takes_no_effect(
    a: ActivationView,
    files: Seq<(Seq<char>, JsonView)>,
    now: Seq<char>,
    i: int,
    h: System,
)
    requires
        0 <= i < activation(a, files).main.len(),
        h.state == a.state,
        ({
            let w = a.paths.windows;
            let root = path_join(w, a.paths.state_dir, "generations"@);
            &&& target(h.links, path_join(w, a.paths.state_dir, "current"@)) == (
            match a.state.current_config_generation {
                Some(g) => Some(path_join(w, root, g)),
                None => None,
            })
            &&& target(h.links, path_join(w, a.paths.state_dir, "previous"@)) == (
            match a.state.previous_config_generation {
                Some(g) => Some(path_join(w, root, g)),
                None => None,
            })
        }),
    ensures
        ({
            let w = a.paths.windows;
            let current = path_join(w, a.paths.state_dir, "current"@);
            let previous = path_join(w, a.paths.state_dir, "previous"@);
            let new = path_join(
                w,
                path_join(w, a.paths.state_dir, "generations"@),
                a.generation,
            );
            let failed = activation(a, files).main[i];
            let end = world_of_failure(activation(a, files), changing(current, now), i, h);
            let links_kept = target(end.links, current) == target(h.links, current) && target(
                end.links,
                previous,
            ) == target(h.links, previous);
            let services_kept = end.loaded == h.loaded && end.running == h.running && end.enabled
                == h.enabled && end.firewall == h.firewall && end.routing == h.routing;
            match failed.effect {
                EffectView::CreateDir { .. }
                | EffectView::SetPermissions { .. }
                | EffectView::WriteJson { .. } => failed.policy == Policy::Fail && links_kept
                    && services_kept && end.state == h.state && end.gone == h.gone,
                EffectView::TestConfig(_)
                | EffectView::SetOwnership { .. }
                | EffectView::Switch { .. }
                | EffectView::WriteState(_) => failed.policy is Undo && links_kept && services_kept
                    && end.state == h.state && end.gone == h.gone.insert(new),
                EffectView::Service { verb: ServiceVerb::Stop, .. } => failed.policy
                    == Policy::Ignore,
                EffectView::Service { .. }
                | EffectView::RoutingDisable
                | EffectView::FirewallDisable
                | EffectView::Healthcheck => failed.policy is Undo && links_kept && end.state == (
                ManagerStateView {
                    last_rollback_reason: Some("configuration activation or healthcheck failed"@),
                    ..a.state
                }) && end.gone.contains(new) && end.running.contains("xray.service"@) && end.loaded
                    == target(h.links, current) && end.events.len() > 0 && end.events.last()
                    == ManagerEventView::RollbackSucceeded,
                EffectView::Emit(_) => failed.policy == Policy::Ignore,
                EffectView::Prune { .. } => failed.policy == Policy::Ignore,
                EffectView::RecordHealth { .. } => failed.policy == Policy::Fail && end.loaded
                    == Some(new),
                _ => false,
            }
        }),
{
    let w = a.paths.windows;
    let current = path_join(w, a.paths.state_dir, "current"@);
    let f = changing(current, now);
    lemma_two_links(w, a.paths.state_dir);
    let p = activation(a, files);
    let d = activation::make_directories(a);
    let x = activation::write_files(w, activation::candidate_conf(a), files);
    let early = d + x;
    let c = activation::commit_steps(a);
    let s = activation::start_steps(a);
    let e = activation::finish_steps(a);
    let n2 = early.len() as int;
    let n3 = n2 + c.len();
    let n4 = n3 + s.len();
    let upto = if i < n2 {
        i
    } else {
        n2
    };
    assert(prepares(early)) by {
        assert forall|k: int| 0 <= k < early.len() implies match (#[trigger] early[k]).effect {
            EffectView::CreateDir { .. } => true,
            EffectView::SetPermissions { .. } => true,
            EffectView::WriteJson { .. } => true,
            _ => false,
        } by {
            if k < d.len() {
                assert(early[k] == d[k]);
            } else {
                assert(early[k] == x[k - d.len()]);
            }
        }
    }
    assert forall|k: int| 0 <= k < early.take(upto).len() implies match (
    #[trigger] early.take(upto)[k]).effect {
        EffectView::CreateDir { .. } => true,
        EffectView::SetPermissions { .. } => true,
        EffectView::WriteJson { .. } => true,
        _ => false,
    } by {
        assert(early.take(upto)[k] == early[k]);
    }
    lemma_prepares(early.take(upto), current, now, h);
    lemma_undone(a, files, now);
    assert(early.take(n2) =~= early);
    if i < n2 {
        assert(p.main.take(i) =~= early.take(i));
        assert(p.main[i] == early[i]);
        if i < d.len() {
            assert(early[i] == d[i]);
        } else {
            assert(early[i] == x[i - d.len()]);
        }
    } else if i < n3 {
        let k = i - n2;
        assert(p.main.take(i) =~= early + c.take(k));
        assert(p.main[i] == c[k]);
        let h1 = world_after(early, f, h);
        program::lemma_world_concat(early, c.take(k), f, h);
        lemma_commit_part(a, now, k, h1);
    } else if i < n4 {
        assert(p.main[i] == s[i - n3]);
    } else {
        let k = i - n4;
        assert(p.main.take(i) =~= early + c + s + e.take(k));
        assert(p.main[i] == e[k]);
        let h1 = world_after(early, f, h);
        let h2 = world_after(c, f, h1);
        let h3 = world_after(s, f, h2);
        lemma_commit(a, now, h1);
        lemma_start(a, now, h2);
        program::lemma_world_concat(early, c, f, h);
        program::lemma_world_concat(early + c, s, f, h);
        program::lemma_world_concat(early + c + s, e.take(k), f, h);
        lemma_finish_part(a, now, k, h3);
    }
}

proof fn lemma_commit_part(a: ActivationView, now: Seq<char>, k: int, h: System)
    requires
        0 <= k < activation::commit_steps(a).len(),
    ensures
        ({
            let current = path_join(a.paths.windows, a.paths.state_dir, "current"@);
            let c = activation::commit_steps(a);
            let end = world_after(c.take(k), changing(current, now), h);
            &&& end == (System {
                tested: end.tested,
                owners: end.owners,
                events: end.events,
                links: end.links,
                state: end.state,
                ..h
            })
            &&& k <= 4 ==> end.links == h.links
            &&& k <= 5 ==> end.state == h.state
        }),
{
    let current = path_join(a.paths.windows, a.paths.state_dir, "current"@);
    let c = activation::commit_steps(a);
    lemma_walked(c, k as nat, changing(current, now), h);
    reveal_with_fuel(walked, 8);
}

proof fn lemma_finish_part(a: ActivationView, now: Seq<char>, k: int, h: System)
    requires
        0 <= k < activation::finish_steps(a).len(),
    ensures
        ({
            let current = path_join(a.paths.windows, a.paths.state_dir, "current"@);
            let e = activation::finish_steps(a);
            world_after(e.take(k), changing(current, now), h).loaded == h.loaded
        }),
{
    let current = path_join(a.paths.windows, a.paths.state_dir, "current"@);
    let e = activation::finish_steps(a);
    lemma_walked(e, k as nat, changing(current, now), h);
    reveal_with_fuel(walked, 5);
}

proof fn lemma_undone(a: ActivationView, files: Seq<(Seq<char>, JsonView)>, now: Seq<char>)
    ensures
        ({
            let w = a.paths.windows;
            let current = path_join(w, a.paths.state_dir, "current"@);
            let previous = path_join(w, a.paths.state_dir, "previous"@);
            let f = changing(current, now);
            let u = activation(a, files).undos;
            let old = activation::generation_dir(a, a.state.current_config_generation);
            let older = activation::generation_dir(a, a.state.previous_config_generation);
            let new = activation::candidate(a);
            &&& forall|h: System| #[trigger]
                world_after(u[0], f, h) == (System { gone: h.gone.insert(new), ..h })
            &&& forall|h: System| #[trigger]
                world_after(u[1], f, h) == (System { gone: h.gone.insert(new), ..h })
            &&& forall|h: System| #[trigger]
                world_after(u[2], f, h) == (System {
                    gone: h.gone.insert(new),
                    links: linked(linked(h.links, current, old), previous, older),
                    ..h
                })
            &&& forall|h: System| #[trigger]
                world_after(u[3], f, h) == (System {
                    gone: h.gone.insert(new),
                    links: linked(linked(h.links, current, old), previous, older),
                    state: activation::restored_state(a),
                    running: h.running.insert("xray.service"@),
                    loaded: target(
                        linked(linked(h.links, current, old), previous, older),
                        current,
                    ),
                    events: h.events.push(ManagerEventView::RollbackSucceeded),
                    ..h
                })
        }),
{
    let current = path_join(a.paths.windows, a.paths.state_dir, "current"@);
    let f = changing(current, now);
    let u = activation(a, files).undos;
    reveal_with_fuel(walked, 7);
    assert forall|h: System| true implies #[trigger] world_after(u[0], f, h) == walked(u[0], 2, f, h) by {
        lemma_walked(u[0], 2, f, h);
    }
    assert forall|h: System| true implies #[trigger] world_after(u[1], f, h) == walked(u[1], 1, f, h) by {
        lemma_walked(u[1], 1, f, h);
    }
    assert forall|h: System| true implies #[trigger] world_after(u[2], f, h) == walked(u[2], 2, f, h) by {
        lemma_walked(u[2], 2, f, h);
    }
    assert forall|h: System| true implies #[trigger] world_after(u[3], f, h) == walked(u[3], 6, f, h) by {
        lemma_walked(u[3], 6, f, h);
    }
}

/// The links of a component, in the words of the file system.
pub open spec fn component_link(p: ManagerPathsView, c: Component, name: Seq<char>) -> Seq<char> {
    match c {
        Component::Configuration => path_join(p.windows, p.state_dir, name),
        Component::Core => path_join(p.windows, p.install_dir, "core/"@ + name),
        Component::Assets => path_join(p.windows, p.install_dir, "assets/"@ + name),
    }
}

proof fn lemma_component_links(p: ManagerPathsView, c: Component)
    ensures
        activation::component_pointers(p, c).0 == component_link(p, c, "current"@),
        activation::component_pointers(p, c).1 == component_link(p, c, "previous"@),
        component_link(p, c, "current"@) != component_link(p, c, "previous"@),
{
    reveal_strlit("current");
    reveal_strlit("previous");
    reveal_strlit("core/");
    reveal_strlit("assets/");
    reveal_strlit("core/current");
    reveal_strlit("core/previous");
    reveal_strlit("assets/current");
    reveal_strlit("assets/previous");
    assert("core/"@ + "current"@ =~= "core/current"@);
    assert("core/"@ + "previous"@ =~= "core/previous"@);
    assert("assets/"@ + "current"@ =~= "assets/current"@);
    assert("assets/"@ + "previous"@ =~= "assets/previous"@);
    match c {
        Component::Configuration => {
            lemma_two_links(p.windows, p.state_dir);
        },
        Component::Core => {
            lemma_ends_with_name(p.windows, p.install_dir, "core/current"@);
            lemma_ends_with_name(p.windows, p.install_dir, "core/previous"@);
        },
        Component::Assets => {
            lemma_ends_with_name(p.windows, p.install_dir, "assets/current"@);
            lemma_ends_with_name(p.windows, p.install_dir, "assets/previous"@);
        },
    }
}

/// A rollback by hand exchanges the two links of its component and no other,
/// and what the state records of that component and nothing else but the
/// reason. Xray runs on what the links then lead to, and where a node is
/// selected it was checked there.
pub proof fn law_rollback_takes_effect(
    p: ManagerPathsView,
    s: ManagerStateView,
    c: Component,
    now: Seq<char>,
    h: System,
)
    ensures
        ({
            let xray = path_join(p.windows, p.state_dir, "current"@);
            let current = component_link(p, c, "current"@);
            let previous = component_link(p, c, "previous"@);
            let end = world_after(rollback(p, s, c).main, changing(xray, now), h);
            &&& target(end.links, current) == target(h.links, previous)
            &&& target(end.links, previous) == target(h.links, current)
            &&& forall|path: Seq<char>|
                path != current && path != previous ==> #[trigger] target(end.links, path) == target(
                    h.links,
                    path,
                )
            &&& end.running.contains("xray.service"@)
            &&& end.loaded == target(end.links, xray)
            &&& end.checked == (if s.selected_node_id is Some {
                Some(end.loaded)
            } else {
                h.checked
            })
            &&& end.firewall == h.firewall && end.routing == h.routing && end.gone == h.gone
            &&& end.enabled == h.enabled
            &&& end.state.current_config_generation == (if c == Component::Configuration {
                s.previous_config_generation
            } else {
                s.current_config_generation
            })
            &&& end.state.previous_config_generation == (if c == Component::Configuration {
                s.current_config_generation
            } else {
                s.previous_config_generation
            })
            &&& end.state.current_core_version == (if c == Component::Core {
                s.previous_core_version
            } else {
                s.current_core_version
            })
            &&& end.state.previous_core_version == (if c == Component::Core {
                s.current_core_version
            } else {
                s.previous_core_version
            })
            &&& end.state.current_asset_generation == (if c == Component::Assets {
                s.previous_asset_generation
            } else {
                s.current_asset_generation
            })
            &&& end.state.previous_asset_generation == (if c == Component::Assets {
                s.current_asset_generation
            } else {
                s.previous_asset_generation
            })
            &&& end.state.selected_node_id == s.selected_node_id
            &&& end.state.installed_backends == s.installed_backends
            &&& end.state.created_identities == s.created_identities
            &&& end.state.last_rollback_reason == Some(
                match c {
                    Component::Configuration => "manual configuration rollback"@,
                    Component::Core => "manual core rollback"@,
                    Component::Assets => "manual assets rollback"@,
                },
            )
            &&& end.state.last_successful_healthcheck == (if s.selected_node_id is Some {
                Some(now)
            } else {
                s.last_successful_healthcheck
            })
        }),
{
    let xray = path_join(p.windows, p.state_dir, "current"@);
    let m = rollback(p, s, c).main;
    lemma_component_links(p, c);
    lemma_walked(m, m.len(), changing(xray, now), h);
    reveal_with_fuel(walked, 6);
    reveal_strlit("manual ");
    reveal_strlit(" rollback");
    reveal_strlit("configuration");
    reveal_strlit("core");
    reveal_strlit("assets");
    reveal_strlit("manual configuration rollback");
    reveal_strlit("manual core rollback");
    reveal_strlit("manual assets rollback");
    assert("manual "@ + "configuration"@ + " rollback"@ =~= "manual configuration rollback"@);
    assert("manual "@ + "core"@ + " rollback"@ =~= "manual core rollback"@);
    assert("manual "@ + "assets"@ + " rollback"@ =~= "manual assets rollback"@);
}

/// A rollback by hand whose step `i` fails: where the links could not be
/// exchanged nothing has happened; later both links and the state are as they
/// were, and Xray runs on what they lead to.
pub proof fn law_failed_rollback_takes_no_effect(
    p: ManagerPathsView,
    s: ManagerStateView,
    c: Component,
    now: Seq<char>,
    i: int,
    h: System,
)
    requires
        0 <= i < rollback(p, s, c).main.len(),
        h.state == s,
    ensures
        ({
            let xray = path_join(p.windows, p.state_dir, "current"@);
            let failed = rollback(p, s, c).main[i];
            let end = world_of_failure(rollback(p, s, c), changing(xray, now), i, h);
            &&& failed.policy != Policy::Ignore
            &&& failed.effect is SwapPointers ==> end == h
            &&& forall|path: Seq<char>| #[trigger] target(end.links, path) == target(h.links, path)
            &&& end.state == s
            &&& !(failed.effect is SwapPointers) ==> end.running.contains("xray.service"@)
                && end.loaded == target(h.links, xray)
        }),
{
    let xray = path_join(p.windows, p.state_dir, "current"@);
    let f = changing(xray, now);
    let m = rollback(p, s, c).main;
    let u = rollback(p, s, c).undos[0];
    lemma_component_links(p, c);
    lemma_walked(m, i as nat, f, h);
    let reached = world_after(m.take(i), f, h);
    lemma_walked(u, 3, f, reached);
    reveal_with_fuel(walked, 6);
}

/// Switching TUN on: the firewall stands before any traffic is routed, and at
/// the end both are in place, the service that keeps them is enabled and runs,
/// and Xray has been started anew. Whichever step fails, both are gone again,
/// and the service that keeps them does not run where Xray was what failed.
pub proof fn law_tun_is_switched_on(current: Seq<char>, now: Seq<char>, i: int, h: System)
    requires
        0 <= i < tun_enable().main.len(),
    ensures
        ({
            let f = changing(current, now);
            let end = world_after(tun_enable().main, f, h);
            let back = world_of_failure(tun_enable(), f, i, h);
            let before = world_after(tun_enable().main.take(i), f, h);
            let failed = tun_enable().main[i];
            &&& end.firewall && end.routing
            &&& end.enabled.contains("xray-tun-policy.service"@)
            &&& end.running.contains("xray-tun-policy.service"@)
            &&& end.running.contains("xray.service"@) && end.loaded == target(h.links, current)
            &&& end.links == h.links && end.state == h.state
            &&& !h.routing && before.routing ==> before.firewall
            &&& !h.firewall && !h.routing ==> !back.firewall && !back.routing
            &&& failed.policy != Policy::Ignore
            &&& failed.effect matches EffectView::Service { name, .. } ==> (name
                == "xray-tun-policy.service"@ || name == "xray.service"@) && !back.firewall
                && !back.routing && (name == "xray.service"@ ==> !back.running.contains(
                "xray-tun-policy.service"@,
            ))
        }),
{
    let f = changing(current, now);
    let p = tun_enable();
    lemma_services();
    lemma_walked(p.main, 5, f, h);
    lemma_walked(p.main, i as nat, f, h);
    let reached = world_after(p.main.take(i), f, h);
    lemma_walked(p.undos[0], 1, f, reached);
    lemma_walked(p.undos[1], 2, f, reached);
    lemma_walked(p.undos[2], 3, f, reached);
    reveal_with_fuel(walked, 6);
}

/// Switching TUN off: at the end neither routes nor firewall are in place, and
/// the service that keeps them is disabled and does not run. The firewall goes
/// last of the two, and only stopping the service may fail unheeded.
pub proof fn law_tun_is_switched_off(current: Seq<char>, now: Seq<char>, i: int, h: System)
    requires
        0 <= i < tun_disable().main.len(),
    ensures
        ({
            let f = changing(current, now);
            let end = world_after(tun_disable().main, f, h);
            let before = world_after(tun_disable().main.take(i), f, h);
            let failed = tun_disable().main[i];
            &&& !end.firewall && !end.routing
            &&& !end.enabled.contains("xray-tun-policy.service"@)
            &&& !end.running.contains("xray-tun-policy.service"@)
            &&& end.loaded == h.loaded && end.links == h.links && end.state == h.state
            &&& h.firewall && before.routing ==> before.firewall
            &&& failed.policy == Policy::Ignore <==> (match failed.effect {
                EffectView::Service { verb, .. } => verb == ServiceVerb::Stop,
                _ => false,
            })
        }),
{
    let f = changing(current, now);
    let p = tun_disable();
    lemma_services();
    lemma_walked(p.main, 4, f, h);
    lemma_walked(p.main, i as nat, f, h);
    reveal_with_fuel(walked, 5);
}

} // verus!
