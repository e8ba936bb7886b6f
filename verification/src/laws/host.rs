//! What preparing, setting up and removing an installation do to a host.

use crate::activation::{EffectView, ServiceVerb};
use crate::activation;
use crate::config::{AssetConfigView, ManagerConfig, ManagerConfigView};
use crate::domain::ManagerState;
use crate::error::ManagerError;
use crate::json::JsonView;
use crate::laws::activation::{lemma_walked, walked};
use crate::linux::commands::CommandLine;
use crate::linux::install;
use crate::linux::prepare::{asset_steps, core_steps, initial_steps, manager_steps};
use crate::linux::prepare::{AssetEffectView, CoreEffect, ManagerEffect};
use crate::linux::prepare;
use crate::linux::setup::{action_steps, removal_steps, setup_steps};
use crate::linux::setup::{RemovalEffectView, SetupEffectView, Unit};
use crate::linux::setup;
use crate::ports::{path_join, DownloadRequest, PlanActionView, Release, UpgradeTarget, XrayTestRequest};
use crate::program::{world_after, Policy, StepView};
use crate::program;
use crate::text::{contains_text, opt_text, texts};
use vstd::prelude::*;

verus! {

/// A new core is run before it takes its place and again when it has it, and it
/// takes it only where it ran: the first check comes before, the second behind
/// the move, and neither may fail unheeded. What was in that place is set apart
/// first, and dropped only at the end.
pub proof fn law_core_is_checked_twice(occupied: bool)
    ensures
        ({
            let m = core_steps(occupied).main;
            let at = if occupied {
                4int
            } else {
                3
            };
            &&& m[0].effect == CoreEffect::Unpack && m[0].policy is Undo
            &&& m[1].effect == CoreEffect::CheckUnpacked && m[1].policy is Undo
            &&& m[2].effect == CoreEffect::MakeRoot && m[2].policy == Policy::Fail
            &&& occupied ==> m[3].effect == CoreEffect::SetApart && m[3].policy == Policy::Fail
            &&& m[at].effect == CoreEffect::MoveIn && m[at].policy is Undo
            &&& m[at + 1].effect == CoreEffect::Sync && m[at + 1].policy == Policy::Fail
            &&& m[at + 2].effect == CoreEffect::CheckPlaced && m[at + 2].policy is Undo
            &&& m.len() == (if occupied {
                at + 4
            } else {
                at + 3
            })
            &&& occupied ==> m.last().effect == CoreEffect::DropSetApart
        }),
{
}

/// A new manager is run before it is installed, the old one is kept before it is
/// replaced, and the new one is judged after it was installed; where the verdict
/// is bad the old one is put back.
pub proof fn law_manager_is_judged()
    ensures
        ({
            let m = manager_steps().main;
            &&& m.len() == 5
            &&& m[0].effect == ManagerEffect::Check && m[0].policy == Policy::Fail
            &&& m[1].effect == ManagerEffect::Keep && m[1].policy == Policy::Fail
            &&& m[2].effect == ManagerEffect::Install && m[2].policy == Policy::Fail
            &&& m[3].effect == ManagerEffect::Doctor && m[3].policy == Policy::Fail
            &&& m[4].effect == ManagerEffect::Judge && m[4].policy is Undo
            &&& manager_steps().undos[m[4].policy->Undo_0 as int].len() == 1
            &&& manager_steps().undos[m[4].policy->Undo_0 as int][0].effect
                == ManagerEffect::PutBack
        }),
{
}

/// The core and the manager are downloaded from the release asset of their own
/// name, within the configured size and time; without that asset there is no
/// download.
pub proof fn law_release_downloads(
    release: &Release,
    config: &ManagerConfig,
    core: Result<DownloadRequest, ManagerError>,
    manager: Result<DownloadRequest, ManagerError>,
)
    requires
        config@.general.max_core_archive_size_mb * 1048576 <= u64::MAX,
        call_ensures(prepare::core_request, (release, config), core),
        call_ensures(prepare::manager_request, (release, config), manager),
    ensures
        core matches Ok(q) ==> exists|i: int|
            0 <= i < release@.assets.len() && (#[trigger] release@.assets[i]).name
                == "Xray-linux-64.zip"@ && q@.url == release@.assets[i].download_url,
        manager matches Ok(q) ==> exists|i: int|
            0 <= i < release@.assets.len() && (#[trigger] release@.assets[i]).name
                == "xrayctl-linux-x86_64"@ && q@.url == release@.assets[i].download_url,
        core is Err <==> forall|i: int|
            0 <= i < release@.assets.len() ==> (#[trigger] release@.assets[i]).name
                != "Xray-linux-64.zip"@,
        manager is Err <==> forall|i: int|
            0 <= i < release@.assets.len() ==> (#[trigger] release@.assets[i]).name
                != "xrayctl-linux-x86_64"@,
        core matches Ok(q) ==> q@.max_bytes == config@.general.max_core_archive_size_mb * 1048576
            && q@.timeout_seconds == config@.general.request_timeout_seconds && q@.max_redirects
            == 5,
        manager matches Ok(q) ==> q@.max_bytes == config@.general.max_core_archive_size_mb * 1048576
            && q@.timeout_seconds == config@.general.request_timeout_seconds && q@.max_redirects
            == 5,
{
}

/// The manager is replaced only by an executable of Linux.
pub proof fn law_manager_is_executable(bytes: &Vec<u8>, r: Result<(), ManagerError>)
    requires
        call_ensures(prepare::check_executable, (bytes,), r),
    ensures
        r is Ok <==> bytes@.len() >= 4 && bytes@.take(4) == seq![0x7fu8, 0x45, 0x4c, 0x46],
{
    if bytes@.len() >= 4 {
        let head = bytes@.take(4);
        let magic = seq![0x7fu8, 0x45, 0x4c, 0x46];
        if r is Ok {
            assert(head =~= magic);
        } else if head == magic {
            assert(head[0] == magic[0] && head[1] == magic[1] && head[2] == magic[2] && head[3]
                == magic[3]);
        }
    }
}

/// Every configured asset is fetched from its own address into its own file of
/// the new generation, within the configured size and time, and after the
/// directory was made; where one fails the directory is removed.
pub proof fn law_assets_are_fetched(directory: Seq<char>, c: ManagerConfigView, i: int)
    requires
        0 <= i < c.assets.len(),
        c.general.max_asset_size_mb * 1048576 <= u64::MAX,
    ensures
        ({
            let p = asset_steps(directory, c);
            let s = p.main[i + 1];
            &&& p.main.len() == c.assets.len() + 1
            &&& p.main[0].effect == (AssetEffectView::CreateDir { path: directory })
            &&& p.main[0].policy == Policy::Fail
            &&& s.effect matches AssetEffectView::Fetch { request, path } && request.url
                == c.assets[i].url && request.max_bytes == c.general.max_asset_size_mb * 1048576
                && request.timeout_seconds == c.general.request_timeout_seconds
                && request.max_redirects == 5 && path == path_join(
                false,
                directory,
                c.assets[i].filename,
            )
            &&& s.policy matches Policy::Undo(k) && p.undos[k as int].len() == 1
                && p.undos[k as int][0].effect == (AssetEffectView::RemoveDir { path: directory })
        }),
{
    let first = seq![program::step(AssetEffectView::CreateDir { path: directory }, Policy::Fail)];
    let rest = c.assets.map_values(|a: AssetConfigView| prepare::fetch_step(directory, a, c));
    assert(asset_steps(directory, c).main == first + rest);
    assert(asset_steps(directory, c).main[i + 1] == rest[i]);
}

/// A first configuration is tested with all its files in place and with the
/// core and the assets that were given; where the test fails it is removed.
pub proof fn law_first_configuration_is_tested(
    directory: Seq<char>,
    core: Seq<char>,
    assets: Seq<char>,
    files: Seq<(Seq<char>, JsonView)>,
    i: int,
)
    requires
        0 <= i < files.len(),
    ensures
        ({
            let p = initial_steps(directory, core, assets, files);
            let conf = path_join(false, directory, "conf.d"@);
            let last = p.main.last();
            &&& p.main.len() == files.len() + 4
            &&& p.main[i + 3].effect == (EffectView::WriteJson {
                path: path_join(false, conf, files[i].0),
                value: files[i].1,
                mode: 0o640,
            })
            &&& p.main[i + 3].policy == Policy::Fail
            &&& p.main[0].effect == (EffectView::CreateDir { path: conf })
            &&& p.main[1].effect == (EffectView::SetPermissions { path: directory, mode: 0o750 })
            &&& p.main[2].effect == (EffectView::SetPermissions { path: conf, mode: 0o750 })
            &&& last.effect matches EffectView::TestConfig(request) && request.executable == core
                && request.config_dir == conf && request.asset_dir == assets
            &&& last.policy matches Policy::Undo(k) && p.undos[k as int].len() == 1
                && p.undos[k as int][0].effect == (EffectView::RemoveOwned {
                path: directory,
                root: "/var/lib/xray-manager/generations"@,
            })
        }),
{
    let conf = path_join(false, directory, "conf.d"@);
    let p = initial_steps(directory, core, assets, files);
    let w = activation::write_files(false, conf, files);
    assert(p.main[i + 3] == w[i]);
}

/// The stores of an installation are below the directories of its layout, where
/// the service looks for them too.
pub proof fn law_stores_are_in_place(s: install::Store, name: Seq<char>)
    ensures
        install::store_current(s) == (match s {
            install::Store::Core => "/opt/xray-manager/core/current"@,
            install::Store::Assets => "/opt/xray-manager/assets/current"@,
            install::Store::Config => "/var/lib/xray-manager/current"@,
        }),
        install::store_previous(s) == (match s {
            install::Store::Core => "/opt/xray-manager/core/previous"@,
            install::Store::Assets => "/opt/xray-manager/assets/previous"@,
            install::Store::Config => "/var/lib/xray-manager/previous"@,
        }),
        install::recorded(s, Some(name)) == Some(
            path_join(
                false,
                match s {
                    install::Store::Core => "/opt/xray-manager/core/versions"@,
                    install::Store::Assets => "/opt/xray-manager/assets/generations"@,
                    install::Store::Config => "/var/lib/xray-manager/generations"@,
                },
                name,
            ),
        ),
        install::recorded(s, None) is None,
{
}

/// What is current is used again only where the state records it and the link
/// leads to its directory.
pub proof fn law_current_generation(
    s: install::Store,
    name: &Option<String>,
    link: &Option<String>,
    r: Option<(String, String)>,
)
    requires
        call_ensures(prepare::current_generation, (s, name, link), r),
    ensures
        r matches Some((n, directory)) ==> opt_text(*name) == Some(n@) && Some(directory@)
            == install::recorded(s, Some(n@)) && crate::storage::pointed_to(
            directory@,
            opt_text(*link),
        ),
        r is None ==> (match opt_text(*name) {
            Some(n) => !crate::storage::pointed_to(
                install::recorded(s, Some(n))->0,
                opt_text(*link),
            ),
            None => true,
        }),
{
}

/// An upgrade prepares the parts that were asked for.
pub proof fn law_upgrade_parts(target: UpgradeTarget, r: (bool, bool))
    requires
        call_ensures(install::upgrade_parts, (target,), r),
    ensures
        r.0 <==> target == UpgradeTarget::Core || target == UpgradeTarget::All,
        r.1 <==> target == UpgradeTarget::Assets || target == UpgradeTarget::All,
{
}

/// An upgrade has every part that is new: assets always, a core only of another
/// version than the current one. There is none where nothing is new.
pub proof fn law_upgrade_is_what_is_new(
    state: ManagerState,
    core: Option<install::NewGeneration>,
    assets: Option<install::NewGeneration>,
    config: &ManagerConfig,
    r: Option<install::Upgrade>,
)
    requires
        call_ensures(install::Upgrade::new, (state, core, assets, config), r),
    ensures
        ({
            let fresh = core matches Some(c) && state@.current_core_version != Some(c@.name);
            &&& r is Some <==> fresh || assets is Some
            &&& r matches Some(u) ==> u@.core is Some == fresh && u@.assets is Some == assets is Some
            &&& r matches Some(u) ==> (u@.core matches Some(c) ==> c == core->0@) && (
            u@.assets matches Some(g) ==> g == assets->0@)
            &&& r matches Some(u) ==> u@.state == state@ && u@.keep_core
                == config@.general.keep_core_versions && u@.keep_assets
                == config@.general.keep_asset_generations
        }),
{
}

/// An upgrade is tested with its new parts and with the current ones otherwise,
/// always on the current configuration.
pub proof fn law_upgrade_is_tested(u: &install::Upgrade, r: XrayTestRequest)
    requires
        call_ensures(install::Upgrade::test_request, (u,), r),
    ensures
        u@.core matches Some(c) ==> r@.executable == path_join(false, c.directory, "xray"@),
        u@.core is None ==> r@.executable == "/opt/xray-manager/core/current/xray"@,
        u@.assets matches Some(g) ==> r@.asset_dir == g.directory,
        u@.assets is None ==> r@.asset_dir == "/opt/xray-manager/assets/current"@,
        r@.config_dir == "/var/lib/xray-manager/current/conf.d"@,
{
}

/// The plan of an installation moves a link exactly where the state records
/// another generation or the link leads elsewhere, the core also where there was
/// none, and keeps as many generations as configured.
pub proof fn law_install_plan(
    candidate: install::PreparedInstall,
    found: install::InstallFacts,
    created: Vec<String>,
    backends: crate::text_map::TextMap,
    config: &ManagerConfig,
    r: install::InstallPlan,
)
    requires
        call_ensures(install::InstallPlan::new, (candidate, found, created, backends, config), r),
    ensures
        r@.candidate == candidate@,
        r@.state == found.state@,
        r@.created == texts(created@),
        r@.backends == backends@,
        r@.core_changed <==> !found.had_core || found.state@.current_core_version != Some(
            candidate@.core_version,
        ) || !crate::storage::pointed_to(candidate@.core_directory, opt_text(found.core_link)),
        r@.assets_changed <==> found.state@.current_asset_generation != Some(
            candidate@.asset_generation,
        ) || !crate::storage::pointed_to(candidate@.asset_directory, opt_text(found.asset_link)),
        r@.had_core == found.had_core,
        r@.tun_enabled == config@.tun.enabled,
        r@.keep_core == config@.general.keep_core_versions,
        r@.keep_assets == config@.general.keep_asset_generations,
        r@.keep_config == config@.general.keep_generations,
{
}

/// Setting up begins with the accounts and ends with the permissions; nothing in
/// it may fail unheeded.
pub proof fn law_setup_order(actions: Seq<PlanActionView>, i: int)
    requires
        0 <= i < setup_steps(actions).main.len(),
    ensures
        ({
            let m = setup_steps(actions).main;
            let n = m.len() as int;
            &&& m[i].policy == Policy::Fail
            &&& m[0].effect == (SetupEffectView::MakeDir {
                path: "/var/lib/xray-manager"@,
                mode: 0o750,
            })
            &&& m[1].effect == (SetupEffectView::Group { name: "xray"@ })
            &&& m[2].effect == (SetupEffectView::Group { name: "xray-manager"@ })
            &&& m[3].effect == (SetupEffectView::Group { name: "xray-tun"@ })
            &&& m[4].effect == SetupEffectView::User
            &&& m[n - 14].effect == SetupEffectView::InstallSelf
            &&& m[n - 13].effect == SetupEffectView::WriteConfig
            &&& m[n - 12].effect == SetupEffectView::WriteRouting
            &&& m[n - 11].effect matches SetupEffectView::Own { owner, paths } && owner
                == "root:xray-manager"@ && paths == seq![
                "/etc/xray-manager"@,
                "/var/lib/xray-manager"@,
                "/var/cache/xray-manager"@,
                "/var/log/xray-manager"@,
            ]
            &&& m[n - 10].effect == (SetupEffectView::OwnIfThere {
                owner: "xray:xray"@,
                path: "/var/lib/xray-manager/generations"@,
            })
            &&& forall|k: int|
                n - 9 <= k < n - 3 ==> ((#[trigger] m[k]).effect matches SetupEffectView::ModeIfThere {
                    mode,
                    ..
                } && mode == 0o2750)
        }),
{
    let a = setup::account_steps();
    let b = setup::plan_steps(actions);
    let c = setup::permission_steps();
    let m = setup_steps(actions).main;
    let n = m.len() as int;
    lemma_plan_policies(actions);
    if i < a.len() {
        assert(m[i] == a[i]);
    } else if i < a.len() + b.len() {
        assert(m[i] == b[i - a.len()]);
    } else {
        assert(m[i] == c[i - a.len() - b.len()]);
    }
    assert(m[0] == a[0] && m[1] == a[1] && m[2] == a[2] && m[3] == a[3] && m[4] == a[4]);
    assert(m[n - 14] == c[0] && m[n - 13] == c[1] && m[n - 12] == c[2] && m[n - 11] == c[3]);
    assert(m[n - 10] == c[4]);
    assert forall|k: int| n - 9 <= k < n - 3 implies ((#[trigger] m[k]).effect matches SetupEffectView::ModeIfThere {
        mode,
        ..
    } && mode == 0o2750) by {
        assert(m[k] == c[k - n + 14]);
    }
}

proof fn lemma_plan_policies(actions: Seq<PlanActionView>)
    ensures
        forall|i: int|
            0 <= i < setup::plan_steps(actions).len() ==> (#[trigger] setup::plan_steps(
                actions,
            )[i]).policy == Policy::Fail,
    decreases actions.len(),
{
    if actions.len() > 0 {
        lemma_plan_policies(actions.drop_last());
        let a = setup::plan_steps(actions.drop_last());
        let b = action_steps(actions.last());
        let s = setup::plan_steps(actions);
        assert forall|i: int| 0 <= i < s.len() implies (#[trigger] s[i]).policy == Policy::Fail by {
            if i < a.len() {
                assert(s[i] == a[i]);
            } else {
                assert(s[i] == b[i - a.len()]);
            }
        }
    }
}

/// What an action of a plan does: a directory is made as it says, a unit is
/// written to its path by its name, and a member is added only where both names
/// are names; otherwise the plan is refused.
pub proof fn law_setup_actions(a: PlanActionView)
    ensures
        match a {
            PlanActionView::EnsureDirectory { path, mode } => action_steps(a).len() == 1
                && action_steps(a)[0].effect == (SetupEffectView::MakeDir { path, mode }),
            PlanActionView::WriteFile { path, description, .. } => {
                &&& description == "xray.service"@ ==> action_steps(a).len() == 1 && action_steps(
                    a,
                )[0].effect == (SetupEffectView::WriteUnit { path, unit: Unit::Xray })
                &&& description == "xray-tun-policy.service"@ ==> action_steps(a).len() == 1
                    && action_steps(a)[0].effect == (SetupEffectView::WriteUnit {
                    path,
                    unit: Unit::TunPolicy,
                })
                &&& description != "xray.service"@ && description != "xray-tun-policy.service"@
                    ==> action_steps(a).len() == 0
            },
            PlanActionView::AddIdentityToGroup { identity, group } => action_steps(a).len() == 1 && (
            if crate::linux::identity::is_identity(identity) && crate::linux::identity::is_identity(
                group,
            ) {
                action_steps(a)[0].effect == (SetupEffectView::Member { identity, group })
            } else {
                action_steps(a)[0].effect == SetupEffectView::Refuse
            }),
            _ => action_steps(a).len() == 0,
        },
{
    reveal_strlit("xray.service");
    reveal_strlit("xray-tun-policy.service");
    assert("xray.service"@.len() == 12);
    assert("xray-tun-policy.service"@.len() == 23);
}

/// Every action of a plan is carried out: its steps stand among those of the setup.
pub proof fn law_setup_carries_out_the_plan(actions: Seq<PlanActionView>, i: int, j: int) -> (k: int)
    requires
        0 <= i < actions.len(),
        0 <= j < action_steps(actions[i]).len(),
    ensures
        5 <= k < setup_steps(actions).main.len() - 14,
        setup_steps(actions).main[k] == action_steps(actions[i])[j],
{
    let at = lemma_action_at(actions, i, j);
    let a = setup::account_steps();
    let b = setup::plan_steps(actions);
    assert(setup_steps(actions).main[at + 5] == b[at]);
    at + 5
}

proof fn lemma_action_at(actions: Seq<PlanActionView>, i: int, j: int) -> (k: int)
    requires
        0 <= i < actions.len(),
        0 <= j < action_steps(actions[i]).len(),
    ensures
        0 <= k < setup::plan_steps(actions).len(),
        setup::plan_steps(actions)[k] == action_steps(actions[i])[j],
    decreases actions.len(),
{
    let a = setup::plan_steps(actions.drop_last());
    let b = action_steps(actions.last());
    assert(setup::plan_steps(actions) == a + b);
    if i < actions.len() - 1 {
        let k = lemma_action_at(actions.drop_last(), i, j);
        assert((a + b)[k] == a[k]);
        k
    } else {
        assert((a + b)[a.len() + j] == b[j]);
        a.len() + j
    }
}

/// The commands of a setup: a group is added under its name, the user into the
/// group of its own, and a member to a group without leaving others.
pub proof fn law_account_commands(
    name: &str,
    group: &str,
    a: CommandLine,
    b: CommandLine,
    c: CommandLine,
)
    requires
        call_ensures(setup::group_command, (name,), a),
        call_ensures(setup::user_command, (), b),
        call_ensures(setup::member_command, (name, group), c),
    ensures
        a@.program == "groupadd"@ && a@.args == seq!["-f"@, name@],
        b@.program == "useradd"@ && b@.args.last() == "xray"@ && b@.args.contains("--system"@),
        b@.args[1] == "--gid"@ && b@.args[2] == "xray"@,
        b@.args[5] == "--shell"@ && b@.args[6] == "/usr/bin/nologin"@,
        c@.program == "usermod"@ && c@.args.len() == 4 && c@.args[0] == "--append"@ && c@.args[1]
            == "--groups"@,
        c@.args[2] == group@ && c@.args[3] == name@,
{
    assert(b@.args[0] == "--system"@);
}

/// An identity is recorded as created exactly where it was not known before,
/// and two kinds of identity are never recorded alike.
pub proof fn law_created_identities(
    known: bool,
    name: &str,
    group: &str,
    a: Option<String>,
    b: Option<String>,
    c: Option<String>,
)
    requires
        call_ensures(setup::created_group, (known, group), a),
        call_ensures(setup::created_user, (known,), b),
        call_ensures(setup::created_membership, (known, name, group), c),
    ensures
        a is None <==> known,
        b is None <==> known,
        c is None <==> known,
        opt_text(a) matches Some(s) ==> s == "group:"@ + group@,
        opt_text(b) matches Some(s) ==> s == "user:xray"@,
        opt_text(c) matches Some(s) ==> s == "membership:"@ + name@ + ":"@ + group@,
{
}

/// A host without the installation: what was stopped, disabled and removed.
#[verifier::ext_equal]
pub struct Removed {
    pub stopped: Set<Seq<char>>,
    pub disabled: Set<Seq<char>>,
    pub policy_down: bool,
    pub files: Set<Seq<char>>,
    pub trees: Set<Seq<char>>,
    pub groups: Set<Seq<char>>,
    pub members: Set<(Seq<char>, Seq<char>)>,
    pub user: bool,
    pub reloaded: bool,
}

pub open spec fn removing() -> spec_fn(Removed, RemovalEffectView) -> Removed {
    |r: Removed, e: RemovalEffectView|
        match e {
            RemovalEffectView::Service { verb: ServiceVerb::Stop, name } => Removed {
                stopped: r.stopped.insert(name),
                ..r
            },
            RemovalEffectView::Service { verb: ServiceVerb::Disable, name } => Removed {
                disabled: r.disabled.insert(name),
                ..r
            },
            RemovalEffectView::Service { name, .. } => Removed {
                stopped: r.stopped.remove(name),
                disabled: r.disabled.remove(name),
                ..r
            },
            RemovalEffectView::PolicyDown => Removed { policy_down: true, ..r },
            RemovalEffectView::RemoveFile(f) => Removed { files: r.files.insert(f), ..r },
            RemovalEffectView::RemoveTree(t) => Removed { trees: r.trees.insert(t), ..r },
            RemovalEffectView::DropMember { user, group } => Removed {
                members: r.members.insert((user, group)),
                ..r
            },
            RemovalEffectView::DropUser => Removed { user: true, ..r },
            RemovalEffectView::DropGroup(g) => Removed { groups: r.groups.insert(g), ..r },
            RemovalEffectView::DaemonReload => Removed { reloaded: true, ..r },
        }
}

/// A removal stops and disables both services, takes the policy down and
/// removes the units and the manager. With a purge the directories are removed
/// too, and of the accounts those that were recorded as created.
pub proof fn law_removal_is_complete(purge: bool, identities: Seq<Seq<char>>, r: Removed)
    ensures
        ({
            let end = world_after(removal_steps(purge, identities).main, removing(), r);
            &&& end.stopped.contains("xray.service"@) && end.disabled.contains("xray.service"@)
            &&& end.stopped.contains("xray-tun-policy.service"@) && end.disabled.contains(
                "xray-tun-policy.service"@,
            )
            &&& end.policy_down && end.reloaded
            &&& end.files.contains("/etc/systemd/system/xray.service"@)
            &&& end.files.contains("/etc/systemd/system/xray-tun-policy.service"@)
            &&& end.files.contains("/usr/local/bin/xrayctl"@)
            &&& end.files.contains("/usr/local/bin/xrayctl.previous"@)
            &&& purge ==> end.trees.contains("/etc/xray-manager"@) && end.trees.contains(
                "/var/lib/xray-manager"@,
            ) && end.trees.contains("/var/cache/xray-manager"@) && end.trees.contains(
                "/var/log/xray-manager"@,
            ) && end.trees.contains("/opt/xray-manager"@)
            &&& purge && contains_text(identities, "user:xray"@) ==> end.user
            &&& purge && contains_text(identities, "group:"@ + "xray"@) ==> end.groups.contains(
                "xray"@,
            )
            &&& purge && contains_text(identities, "group:"@ + "xray-tun"@) ==> end.groups.contains(
                "xray-tun"@,
            )
            &&& purge && contains_text(identities, "group:"@ + "xray-manager"@)
                ==> end.groups.contains("xray-manager"@)
            &&& !purge ==> end.trees == r.trees && end.user == r.user && end.groups == r.groups
                && end.members == r.members
        }),
{
    let f = removing();
    let a = setup::stop_steps();
    let p = setup::purge_steps(identities);
    let z = seq![program::step(RemovalEffectView::DaemonReload, Policy::Fail)];
    let h1 = world_after(a, f, r);
    lemma_walked(a, 9, f, r);
    reveal_with_fuel(walked, 10);
    let first = seq![
        setup::ignored(RemovalEffectView::Service { verb: ServiceVerb::Stop, name: "xray.service"@ }),
    ];
    assert(a.len() == 9);
    if purge {
        program::lemma_world_concat(a, p, f, r);
        program::lemma_world_concat(a + p, z, f, r);
        lemma_walked(z, 1, f, world_after(a + p, f, r));
        lemma_purged(identities, h1);
    } else {
        let none = Seq::<StepView<RemovalEffectView>>::empty();
        assert(a + none =~= a);
        program::lemma_world_concat(a + none, z, f, r);
        lemma_walked(z, 1, f, h1);
    }
}

/// What a purge takes with it, and what it leaves.
proof fn lemma_purged(identities: Seq<Seq<char>>, r: Removed)
    ensures
        ({
            let end = world_after(setup::purge_steps(identities), removing(), r);
            &&& end.stopped == r.stopped && end.disabled == r.disabled && end.policy_down
                == r.policy_down && end.files == r.files
            &&& end.trees.contains("/etc/xray-manager"@) && end.trees.contains(
                "/var/lib/xray-manager"@,
            ) && end.trees.contains("/var/cache/xray-manager"@) && end.trees.contains(
                "/var/log/xray-manager"@,
            ) && end.trees.contains("/opt/xray-manager"@)
            &&& contains_text(identities, "user:xray"@) ==> end.user
            &&& contains_text(identities, "group:"@ + "xray"@) ==> end.groups.contains("xray"@)
            &&& contains_text(identities, "group:"@ + "xray-tun"@) ==> end.groups.contains(
                "xray-tun"@,
            )
            &&& contains_text(identities, "group:"@ + "xray-manager"@) ==> end.groups.contains(
                "xray-manager"@,
            )
        }),
{
    let f = removing();
    let trees = setup::removed_trees().map_values(
        |t: Seq<char>| program::step(RemovalEffectView::RemoveTree(t), Policy::Fail),
    );
    let members = setup::member_steps(identities);
    let user = if contains_text(identities, "user:xray"@) {
        seq![setup::ignored(RemovalEffectView::DropUser)]
    } else {
        Seq::empty()
    };
    let g1 = setup::group_step(identities, "xray-tun"@);
    let g2 = setup::group_step(identities, "xray-manager"@);
    let g3 = setup::group_step(identities, "xray"@);
    assert(setup::purge_steps(identities) == trees + members + user + g1 + g2 + g3);
    let h1 = world_after(trees, f, r);
    lemma_walked(trees, 5, f, r);
    reveal_with_fuel(walked, 6);
    lemma_members_only(identities, h1);
    let h2 = world_after(members, f, h1);
    let h3 = world_after(user, f, h2);
    let h4 = world_after(g1, f, h3);
    let h5 = world_after(g2, f, h4);
    lemma_walked(user, user.len(), f, h2);
    lemma_walked(g1, g1.len(), f, h3);
    lemma_walked(g2, g2.len(), f, h4);
    lemma_walked(g3, g3.len(), f, h5);
    program::lemma_world_concat(trees, members, f, r);
    program::lemma_world_concat(trees + members, user, f, r);
    program::lemma_world_concat(trees + members + user, g1, f, r);
    program::lemma_world_concat(trees + members + user + g1, g2, f, r);
    program::lemma_world_concat(trees + members + user + g1 + g2, g3, f, r);
}

proof fn lemma_members_only(identities: Seq<Seq<char>>, r: Removed)
    ensures
        ({
            let end = world_after(setup::member_steps(identities), removing(), r);
            end == (Removed { members: end.members, ..r })
        }),
    decreases identities.len(),
{
    if identities.len() > 0 {
        let f = removing();
        let before = setup::member_steps(identities.drop_last());
        lemma_members_only(identities.drop_last(), r);
        let more = match setup::recorded_member(identities.last()) {
            Some((user, group)) => seq![
                setup::ignored(RemovalEffectView::DropMember { user, group }),
            ],
            None => Seq::empty(),
        };
        assert(setup::member_steps(identities) == before + more);
        program::lemma_world_concat(before, more, f, r);
        lemma_walked(more, more.len(), f, world_after(before, f, r));
        reveal_with_fuel(walked, 2);
    }
}

} // verus!
