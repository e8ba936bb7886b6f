//! Setting up a host and removing what was set up.

use crate::activation::ServiceVerb;
use crate::error::ManagerError;
use crate::linux::commands::CommandLine;
use crate::ports::{CommandOutput, ExecutionPlan, PlanAction, PlanActionView};
use crate::program::{Policy, Program, ProgramView, Step, StepView};
use crate::linux::commands;
use crate::linux::identity;
use crate::ports;
use crate::program;
use crate::text;
use vstd::prelude::*;

verus! {

/// A service unit that is installed.
#[derive(Debug, Clone, Copy, PartialEq, Eq, Structural)]
pub enum Unit {
    Xray,
    TunPolicy,
}

/// A step of setting up a host. `Group` adds a system group and records it
/// where it is new, `User` does so with the service user, and `Member` with the
/// membership of a user. `Refuse` fails because of an invalid name.
/// `InstallSelf` copies the running program, and `WriteConfig` and
/// `WriteRouting` write default files where there are none. `Own` changes the
/// owner of directories and all in them.
#[derive(Debug)]
pub enum SetupEffect {
    MakeDir { path: String, mode: u32 },
    Group { name: String },
    User,
    WriteUnit { path: String, unit: Unit },
    Member { identity: String, group: String },
    Refuse,
    InstallSelf,
    WriteConfig,
    WriteRouting,
    Own { owner: String, paths: Vec<String> },
    OwnIfThere { owner: String, path: String },
    ModeIfThere { path: String, mode: u32 },
    FileModesIfThere { path: String, mode: u32 },
}

/// The mathematical value of a [`SetupEffect`].
#[verifier::ext_equal]
pub enum SetupEffectView {
    MakeDir { path: Seq<char>, mode: u32 },
    Group { name: Seq<char> },
    User,
    WriteUnit { path: Seq<char>, unit: Unit },
    Member { identity: Seq<char>, group: Seq<char> },
    Refuse,
    InstallSelf,
    WriteConfig,
    WriteRouting,
    Own { owner: Seq<char>, paths: Seq<Seq<char>> },
    OwnIfThere { owner: Seq<char>, path: Seq<char> },
    ModeIfThere { path: Seq<char>, mode: u32 },
    FileModesIfThere { path: Seq<char>, mode: u32 },
}

impl View for SetupEffect {
    type V = SetupEffectView;

    open spec fn view(&self) -> SetupEffectView {
        match *self {
            SetupEffect::MakeDir { path, mode } => SetupEffectView::MakeDir { path: path@, mode },
            SetupEffect::Group { name } => SetupEffectView::Group { name: name@ },
            SetupEffect::User => SetupEffectView::User,
            SetupEffect::WriteUnit { path, unit } => SetupEffectView::WriteUnit { path: path@, unit },
            SetupEffect::Member { identity, group } => SetupEffectView::Member { identity: identity@, group: group@ },
            SetupEffect::Refuse => SetupEffectView::Refuse,
            SetupEffect::InstallSelf => SetupEffectView::InstallSelf,
            SetupEffect::WriteConfig => SetupEffectView::WriteConfig,
            SetupEffect::WriteRouting => SetupEffectView::WriteRouting,
            SetupEffect::Own { owner, paths } => SetupEffectView::Own { owner: owner@, paths: text::texts(paths@) },
            SetupEffect::OwnIfThere { owner, path } => SetupEffectView::OwnIfThere { owner: owner@, path: path@ },
            SetupEffect::ModeIfThere { path, mode } => SetupEffectView::ModeIfThere { path: path@, mode },
            SetupEffect::FileModesIfThere { path, mode } => SetupEffectView::FileModesIfThere { path: path@, mode },
        }
    }
}

pub open spec fn set_step(e: SetupEffectView) -> StepView<SetupEffectView> {
    program::step(e, Policy::Fail)
}

/// Users and groups that the manager needs.
pub open spec fn account_steps() -> Seq<StepView<SetupEffectView>> {
    seq![
        set_step(SetupEffectView::MakeDir { path: "/var/lib/xray-manager"@, mode: 0o750 }),
        set_step(SetupEffectView::Group { name: "xray"@ }),
        set_step(SetupEffectView::Group { name: "xray-manager"@ }),
        set_step(SetupEffectView::Group { name: "xray-tun"@ }),
        set_step(SetupEffectView::User),
    ]
}

/// What an action of a plan leads to.
pub open spec fn action_steps(a: PlanActionView) -> Seq<StepView<SetupEffectView>> {
    match a {
        PlanActionView::EnsureDirectory { path, mode } => seq![
            set_step(SetupEffectView::MakeDir { path, mode }),
        ],
        PlanActionView::WriteFile { path, description, .. } => if description == "xray.service"@ {
            seq![set_step(SetupEffectView::WriteUnit { path, unit: Unit::Xray })]
        } else if description == "xray-tun-policy.service"@ {
            seq![set_step(SetupEffectView::WriteUnit { path, unit: Unit::TunPolicy })]
        } else {
            Seq::empty()
        },
        PlanActionView::AddIdentityToGroup { identity, group } => if identity::is_identity(identity)
            && identity::is_identity(group) {
            seq![set_step(SetupEffectView::Member { identity, group })]
        } else {
            seq![set_step(SetupEffectView::Refuse)]
        },
        _ => Seq::empty(),
    }
}

/// What the actions of a plan lead to, in order.
pub open spec fn plan_steps(actions: Seq<PlanActionView>) -> Seq<StepView<SetupEffectView>>
    decreases actions.len(),
{
    if actions.len() == 0 {
        Seq::empty()
    } else {
        plan_steps(actions.drop_last()) + action_steps(actions.last())
    }
}

/// Files, owners and permissions. Subscriptions, which hold secrets, end up
/// readable by the administrator alone.
pub open spec fn permission_steps() -> Seq<StepView<SetupEffectView>> {
    seq![
        set_step(SetupEffectView::InstallSelf),
        set_step(SetupEffectView::WriteConfig),
        set_step(SetupEffectView::WriteRouting),
        set_step(
            SetupEffectView::Own {
                owner: "root:xray-manager"@,
                paths: seq![
                    "/etc/xray-manager"@,
                    "/var/lib/xray-manager"@,
                    "/var/cache/xray-manager"@,
                    "/var/log/xray-manager"@,
                ],
            },
        ),
        set_step(
            SetupEffectView::OwnIfThere {
                owner: "xray:xray"@,
                path: "/var/lib/xray-manager/generations"@,
            },
        ),
        set_step(SetupEffectView::ModeIfThere { path: "/etc/xray-manager"@, mode: 0o2750 }),
        set_step(SetupEffectView::ModeIfThere { path: "/etc/xray-manager/apps.d"@, mode: 0o2750 }),
        set_step(SetupEffectView::ModeIfThere { path: "/etc/xray-manager/fragments.d"@, mode: 0o2750 }),
        set_step(SetupEffectView::ModeIfThere { path: "/var/lib/xray-manager"@, mode: 0o2750 }),
        set_step(SetupEffectView::ModeIfThere { path: "/var/cache/xray-manager"@, mode: 0o2750 }),
        set_step(SetupEffectView::ModeIfThere { path: "/var/log/xray-manager"@, mode: 0o2750 }),
        set_step(
            SetupEffectView::OwnIfThere {
                owner: "root:root"@,
                path: "/etc/xray-manager/subscriptions.d"@,
            },
        ),
        set_step(
            SetupEffectView::ModeIfThere {
                path: "/etc/xray-manager/subscriptions.d"@,
                mode: 0o700,
            },
        ),
        set_step(
            SetupEffectView::FileModesIfThere {
                path: "/etc/xray-manager/subscriptions.d"@,
                mode: 0o600,
            },
        ),
    ]
}

/// The program that sets up a host by a plan.
pub open spec fn setup_steps(actions: Seq<PlanActionView>) -> ProgramView<SetupEffectView> {
    ProgramView {
        main: account_steps() + plan_steps(actions) + permission_steps(),
        undos: Seq::empty(),
    }
}

fn push_setup(main: &mut Vec<Step<SetupEffect>>, effect: SetupEffect)
    ensures
        program::step_views(final(main)@) == program::step_views(old(main)@).push(set_step(effect@)),
{
    program::push_step(main, effect, Policy::Fail);
}

fn push_action(main: &mut Vec<Step<SetupEffect>>, a: &PlanAction)
    ensures
        program::step_views(final(main)@) == program::step_views(old(main)@) + action_steps(a@),
{
    let ghost before = program::step_views(main@);
    match a {
        PlanAction::EnsureDirectory { path, mode } => {
            push_setup(main, SetupEffect::MakeDir { path: path.clone(), mode: *mode });
        },
        PlanAction::WriteFile { path, mode, description } => {
            if text::same(description.as_str(), "xray.service") {
                push_setup(main, SetupEffect::WriteUnit { path: path.clone(), unit: Unit::Xray });
            } else if text::same(description.as_str(), "xray-tun-policy.service") {
                push_setup(
                    main,
                    SetupEffect::WriteUnit { path: path.clone(), unit: Unit::TunPolicy },
                );
            }
        },
        PlanAction::AddIdentityToGroup { identity, group } => {
            let good = identity::validate_identity(identity.as_str()).is_ok() && identity::validate_identity(
                group.as_str(),
            ).is_ok();
            if good {
                push_setup(
                    main,
                    SetupEffect::Member { identity: identity.clone(), group: group.clone() },
                );
            } else {
                push_setup(main, SetupEffect::Refuse);
            }
        },
        _ => {},
    }
    assert(program::step_views(main@) =~= before + action_steps(a@));
}

fn push_plan(main: &mut Vec<Step<SetupEffect>>, actions: &Vec<PlanAction>)
    ensures
        program::step_views(final(main)@) == program::step_views(old(main)@) + plan_steps(
            ports::plan_action_views(actions@),
        ),
{
    let ghost before = program::step_views(main@);
    let ghost all = ports::plan_action_views(actions@);
    let mut i: usize = 0;
    assert(all.take(0).len() == 0);
    assert(before + plan_steps(all.take(0)) =~= before);
    while i < actions.len()
        invariant
            i <= actions@.len(),
            all == ports::plan_action_views(actions@),
            program::step_views(main@) == before + plan_steps(all.take(i as int)),
        decreases actions@.len() - i,
    {
        proof {
            assert(all[i as int] == actions@[i as int]@);
            assert(all.take(i + 1).drop_last() =~= all.take(i as int));
            assert(all.take(i + 1).last() == all[i as int]);
        }
        push_action(main, &actions[i]);
        assert(program::step_views(main@) =~= before + plan_steps(all.take(i + 1)));
        i += 1;
    }
    assert(all.take(all.len() as int) =~= all);
}

fn push_permissions(main: &mut Vec<Step<SetupEffect>>)
    ensures
        program::step_views(final(main)@) == program::step_views(old(main)@) + permission_steps(),
{
    let ghost before = program::step_views(main@);
    push_setup(main, SetupEffect::InstallSelf);
    push_setup(main, SetupEffect::WriteConfig);
    push_setup(main, SetupEffect::WriteRouting);
    let paths = text::own_all(
        vec![
            "/etc/xray-manager",
            "/var/lib/xray-manager",
            "/var/cache/xray-manager",
            "/var/log/xray-manager",
        ],
    );
    assert(text::texts(paths@) =~= seq![
        "/etc/xray-manager"@,
        "/var/lib/xray-manager"@,
        "/var/cache/xray-manager"@,
        "/var/log/xray-manager"@,
    ]);
    push_setup(main, SetupEffect::Own { owner: text::owned("root:xray-manager"), paths });
    push_setup(
        main,
        SetupEffect::OwnIfThere {
            owner: text::owned("xray:xray"),
            path: text::owned("/var/lib/xray-manager/generations"),
        },
    );
    push_setup(
        main,
        SetupEffect::ModeIfThere { path: text::owned("/etc/xray-manager"), mode: 0o2750 },
    );
    push_setup(
        main,
        SetupEffect::ModeIfThere { path: text::owned("/etc/xray-manager/apps.d"), mode: 0o2750 },
    );
    push_setup(
        main,
        SetupEffect::ModeIfThere { path: text::owned("/etc/xray-manager/fragments.d"), mode: 0o2750 },
    );
    push_setup(
        main,
        SetupEffect::ModeIfThere { path: text::owned("/var/lib/xray-manager"), mode: 0o2750 },
    );
    push_setup(
        main,
        SetupEffect::ModeIfThere { path: text::owned("/var/cache/xray-manager"), mode: 0o2750 },
    );
    push_setup(
        main,
        SetupEffect::ModeIfThere { path: text::owned("/var/log/xray-manager"), mode: 0o2750 },
    );
    push_setup(
        main,
        SetupEffect::OwnIfThere {
            owner: text::owned("root:root"),
            path: text::owned("/etc/xray-manager/subscriptions.d"),
        },
    );
    push_setup(
        main,
        SetupEffect::ModeIfThere {
            path: text::owned("/etc/xray-manager/subscriptions.d"),
            mode: 0o700,
        },
    );
    push_setup(
        main,
        SetupEffect::FileModesIfThere {
            path: text::owned("/etc/xray-manager/subscriptions.d"),
            mode: 0o600,
        },
    );
    assert(program::step_views(main@) =~= before + permission_steps());
}

/// The program that sets up a host by a plan.
pub fn apply_install_actions(plan: &ExecutionPlan) -> (r: Program<SetupEffect>)
    ensures
        r@ == setup_steps(plan@.actions),
        r.wf(),
{
    let mut main: Vec<Step<SetupEffect>> = program::no_steps();
    push_setup(
        &mut main,
        SetupEffect::MakeDir { path: text::owned("/var/lib/xray-manager"), mode: 0o750 },
    );
    push_setup(&mut main, SetupEffect::Group { name: text::owned("xray") });
    push_setup(&mut main, SetupEffect::Group { name: text::owned("xray-manager") });
    push_setup(&mut main, SetupEffect::Group { name: text::owned("xray-tun") });
    push_setup(&mut main, SetupEffect::User);
    assert(program::step_views(main@) =~= account_steps());
    push_plan(&mut main, &plan.actions);
    push_permissions(&mut main);
    let undos: Vec<Vec<Step<SetupEffect>>> = Vec::new();
    let r = Program { main, undos };
    proof {
        let want = setup_steps(plan@.actions);
        assert(program::undo_views(undos@) =~= want.undos);
        assert(r@ =~= want);
        lemma_setup_fails(plan@.actions);
        assert forall|i: int| 0 <= i < want.main.len() implies match (
        #[trigger] want.main[i]).policy {
            Policy::Undo(k) => k < want.undos.len(),
            _ => true,
        } by {
            assert(want.main[i].policy == Policy::Fail);
        }
        program::lemma_refers_inside(r);
    }
    r
}

proof fn lemma_plan_fails(actions: Seq<PlanActionView>)
    ensures
        forall|i: int|
            0 <= i < plan_steps(actions).len() ==> (#[trigger] plan_steps(actions)[i]).policy
                == Policy::Fail,
    decreases actions.len(),
{
    if actions.len() > 0 {
        let before = plan_steps(actions.drop_last());
        lemma_plan_fails(actions.drop_last());
        assert forall|i: int| 0 <= i < plan_steps(actions).len() implies (
        #[trigger] plan_steps(actions)[i]).policy == Policy::Fail by {
            if i < before.len() {
                assert(plan_steps(actions)[i] == before[i]);
            } else {
                assert(plan_steps(actions)[i] == action_steps(actions.last())[i - before.len()]);
            }
        }
    }
}

proof fn lemma_setup_fails(actions: Seq<PlanActionView>)
    ensures
        forall|i: int|
            0 <= i < setup_steps(actions).main.len() ==> (#[trigger] setup_steps(
                actions,
            ).main[i]).policy == Policy::Fail,
{
    let a = account_steps();
    let p = plan_steps(actions);
    let q = permission_steps();
    lemma_plan_fails(actions);
    assert forall|i: int| 0 <= i < setup_steps(actions).main.len() implies (
    #[trigger] setup_steps(actions).main[i]).policy == Policy::Fail by {
        if i < a.len() {
            assert(setup_steps(actions).main[i] == a[i]);
        } else if i < a.len() + p.len() {
            assert(setup_steps(actions).main[i] == p[i - a.len()]);
        } else {
            assert(setup_steps(actions).main[i] == q[i - a.len() - p.len()]);
        }
    }
}

/// Whatever a plan does, the last that is done to the directory of
/// subscriptions is to give it to the administrator and to close it and its
/// files to everybody else.
pub proof fn law_subscriptions_end_up_private(actions: Seq<PlanActionView>)
    ensures
        ({
            let main = setup_steps(actions).main;
            let n = main.len() as int;
            let path = "/etc/xray-manager/subscriptions.d"@;
            &&& main[n - 3] == set_step(SetupEffectView::OwnIfThere { owner: "root:root"@, path })
            &&& main[n - 2] == set_step(SetupEffectView::ModeIfThere { path, mode: 0o700 })
            &&& main[n - 1] == set_step(SetupEffectView::FileModesIfThere { path, mode: 0o600 })
        }),
{
    let q = permission_steps();
    let main = setup_steps(actions).main;
    let k = main.len() - q.len();
    assert(main[main.len() - 3] == q[q.len() - 3]);
    assert(main[main.len() - 2] == q[q.len() - 2]);
    assert(main[main.len() - 1] == q[q.len() - 1]);
}

/// Whether a user is in a group, by the groups that were printed.
pub open spec fn listed_member(output: Seq<char>, group: Seq<char>) -> bool {
    text::words(output).contains(group)
}

/// Whether a user is in a group already.
pub fn already_member(output: &CommandOutput, group: &str) -> (r: Result<bool, ManagerError>)
    ensures
        match r {
            Ok(b) => output@.status == 0 && b == listed_member(output@.stdout, group@),
            Err(e) => output@.status != 0 && e@ == commands::failed_command("id"@, output@.stderr),
        },
{
    if output.status != 0 {
        return Err(commands::command_error("id", output.stderr.as_str()));
    }
    let parts = text::split_whitespace(output.stdout.as_str());
    let ghost all = text::words(output@.stdout);
    let mut i: usize = 0;
    while i < parts.len()
        invariant
            i <= parts@.len(),
            output@.status == 0,
            all == text::words(output@.stdout),
            text::texts(parts@) == all,
            forall|j: int| 0 <= j < i ==> #[trigger] all[j] != group@,
        decreases parts@.len() - i,
    {
        assert(all[i as int] == parts@[i as int]@);
        if text::same(parts[i].as_str(), group) {
            return Ok(true);
        }
        i += 1;
    }
    Ok(false)
}

/// The record of a created group.
pub fn group_identity(name: &str) -> (r: String)
    ensures
        r@ == "group:"@ + name@,
{
    text::concat("group:", name)
}

/// The record of a created membership.
pub fn membership_identity(user: &str, group: &str) -> (r: String)
    ensures
        r@ == "membership:"@ + user@ + ":"@ + group@,
{
    let mut r = text::concat3("membership:", user, ":");
    r.append(group);
    r
}

/// What is recorded as created once a group is there: the group, unless it was
/// there before.
pub fn created_group(known: bool, name: &str) -> (r: Option<String>)
    ensures
        text::opt_text(r) == (if known {
            None
        } else {
            Some("group:"@ + name@)
        }),
{
    if known {
        None
    } else {
        Some(group_identity(name))
    }
}

/// What is recorded as created once the service user is there: the user, unless
/// they were there before. Where nothing is, nothing is created either.
pub fn created_user(known: bool) -> (r: Option<String>)
    ensures
        text::opt_text(r) == (if known {
            None
        } else {
            Some("user:xray"@)
        }),
{
    if known {
        None
    } else {
        Some(text::owned("user:xray"))
    }
}

/// What is recorded as created once a user is a member of a group: the
/// membership, unless they were a member before.
pub fn created_membership(known: bool, user: &str, group: &str) -> (r: Option<String>)
    ensures
        text::opt_text(r) == (if known {
            None
        } else {
            Some("membership:"@ + user@ + ":"@ + group@)
        }),
{
    if known {
        None
    } else {
        Some(membership_identity(user, group))
    }
}

/// The commands of accounts.
pub fn group_command(name: &str) -> (r: CommandLine)
    ensures
        r@ == commands::line("groupadd"@, seq!["-f"@, name@]),
{
    let args = text::own_all(vec!["-f", name]);
    assert(text::texts(args@) =~= seq!["-f"@, name@]);
    commands::command("groupadd", args)
}

/// The command that adds the service user.
pub fn user_command() -> (r: CommandLine)
    ensures
        r@ == commands::line(
            "useradd"@,
            seq![
                "--system"@,
                "--gid"@,
                "xray"@,
                "--home-dir"@,
                "/var/lib/xray-manager"@,
                "--shell"@,
                "/usr/bin/nologin"@,
                "xray"@,
            ],
        ),
{
    let args = text::own_all(
        vec![
            "--system",
            "--gid",
            "xray",
            "--home-dir",
            "/var/lib/xray-manager",
            "--shell",
            "/usr/bin/nologin",
            "xray",
        ],
    );
    assert(text::texts(args@) =~= seq![
        "--system"@,
        "--gid"@,
        "xray"@,
        "--home-dir"@,
        "/var/lib/xray-manager"@,
        "--shell"@,
        "/usr/bin/nologin"@,
        "xray"@,
    ]);
    commands::command("useradd", args)
}

/// The command that adds a user to a group.
pub fn member_command(identity: &str, group: &str) -> (r: CommandLine)
    ensures
        r@ == commands::line("usermod"@, seq!["--append"@, "--groups"@, group@, identity@]),
{
    let args = text::own_all(vec!["--append", "--groups", group, identity]);
    assert(text::texts(args@) =~= seq!["--append"@, "--groups"@, group@, identity@]);
    commands::command("usermod", args)
}

/// A step of a removal. `DropGroup` deletes a group unless it still has members.
#[derive(Debug)]
pub enum RemovalEffect {
    Service { verb: ServiceVerb, name: String },
    PolicyDown,
    RemoveFile(String),
    RemoveTree(String),
    DropMember { user: String, group: String },
    DropUser,
    DropGroup(String),
    DaemonReload,
}

/// The mathematical value of a [`RemovalEffect`].
#[verifier::ext_equal]
pub enum RemovalEffectView {
    Service { verb: ServiceVerb, name: Seq<char> },
    PolicyDown,
    RemoveFile(Seq<char>),
    RemoveTree(Seq<char>),
    DropMember { user: Seq<char>, group: Seq<char> },
    DropUser,
    DropGroup(Seq<char>),
    DaemonReload,
}

impl View for RemovalEffect {
    type V = RemovalEffectView;

    open spec fn view(&self) -> RemovalEffectView {
        match *self {
            RemovalEffect::Service { verb, name } => RemovalEffectView::Service { verb, name: name@ },
            RemovalEffect::PolicyDown => RemovalEffectView::PolicyDown,
            RemovalEffect::RemoveFile(a) => RemovalEffectView::RemoveFile(a@),
            RemovalEffect::RemoveTree(a) => RemovalEffectView::RemoveTree(a@),
            RemovalEffect::DropMember { user, group } => RemovalEffectView::DropMember { user: user@, group: group@ },
            RemovalEffect::DropUser => RemovalEffectView::DropUser,
            RemovalEffect::DropGroup(a) => RemovalEffectView::DropGroup(a@),
            RemovalEffect::DaemonReload => RemovalEffectView::DaemonReload,
        }
    }
}

/// The files that every removal takes away.
pub open spec fn removed_files() -> Seq<Seq<char>> {
    seq![
        "/etc/systemd/system/xray.service"@,
        "/etc/systemd/system/xray-tun-policy.service"@,
        "/usr/local/bin/xrayctl"@,
        "/usr/local/bin/xrayctl.previous"@,
    ]
}

/// The directories that only a purge takes away.
pub open spec fn removed_trees() -> Seq<Seq<char>> {
    seq![
        "/etc/xray-manager"@,
        "/var/lib/xray-manager"@,
        "/var/cache/xray-manager"@,
        "/var/log/xray-manager"@,
        "/opt/xray-manager"@,
    ]
}

pub open spec fn ignored(e: RemovalEffectView) -> StepView<RemovalEffectView> {
    program::step(e, Policy::Ignore)
}

/// Stopping everything and taking the files away.
pub open spec fn stop_steps() -> Seq<StepView<RemovalEffectView>> {
    seq![
        ignored(RemovalEffectView::Service { verb: ServiceVerb::Stop, name: "xray.service"@ }),
        ignored(RemovalEffectView::Service { verb: ServiceVerb::Disable, name: "xray.service"@ }),
        ignored(
            RemovalEffectView::Service {
                verb: ServiceVerb::Stop,
                name: "xray-tun-policy.service"@,
            },
        ),
        ignored(
            RemovalEffectView::Service {
                verb: ServiceVerb::Disable,
                name: "xray-tun-policy.service"@,
            },
        ),
        ignored(RemovalEffectView::PolicyDown),
    ] + removed_files().map_values(
        |f: Seq<char>| program::step(RemovalEffectView::RemoveFile(f), Policy::Fail),
    )
}

/// The user and group of a recorded membership.
pub open spec fn recorded_member(identity: Seq<char>) -> Option<(Seq<char>, Seq<char>)> {
    match text::after_prefix(identity, "membership:"@) {
        Some(m) => {
            let parts = text::fields(m, ':');
            if parts.len() == 2 {
                Some((parts[0], parts[1]))
            } else {
                None
            }
        },
        None => None,
    }
}

/// Dropping the recorded memberships.
pub open spec fn member_steps(identities: Seq<Seq<char>>) -> Seq<StepView<RemovalEffectView>>
    decreases identities.len(),
{
    if identities.len() == 0 {
        Seq::empty()
    } else {
        member_steps(identities.drop_last()) + match recorded_member(identities.last()) {
            Some((user, group)) => seq![ignored(RemovalEffectView::DropMember { user, group })],
            None => Seq::empty(),
        }
    }
}

/// Dropping a group that was recorded as created.
pub open spec fn group_step(identities: Seq<Seq<char>>, group: Seq<char>) -> Seq<
    StepView<RemovalEffectView>,
> {
    if text::contains_text(identities, "group:"@ + group) {
        seq![ignored(RemovalEffectView::DropGroup(group))]
    } else {
        Seq::empty()
    }
}

/// What only a purge does: taking away all data, and the accounts that were
/// recorded as created.
pub open spec fn purge_steps(identities: Seq<Seq<char>>) -> Seq<StepView<RemovalEffectView>> {
    removed_trees().map_values(
        |t: Seq<char>| program::step(RemovalEffectView::RemoveTree(t), Policy::Fail),
    ) + member_steps(identities) + (if text::contains_text(identities, "user:xray"@) {
        seq![ignored(RemovalEffectView::DropUser)]
    } else {
        Seq::empty()
    }) + group_step(identities, "xray-tun"@) + group_step(identities, "xray-manager"@) + group_step(
        identities,
        "xray"@,
    )
}

/// The program of a removal.
pub open spec fn removal_steps(purge: bool, identities: Seq<Seq<char>>) -> ProgramView<
    RemovalEffectView,
> {
    ProgramView {
        main: stop_steps() + (if purge {
            purge_steps(identities)
        } else {
            Seq::empty()
        }) + seq![program::step(RemovalEffectView::DaemonReload, Policy::Fail)],
        undos: Seq::empty(),
    }
}

fn member_of(identity: &str) -> (r: Option<(String, String)>)
    ensures
        match r {
            Some((u, g)) => recorded_member(identity@) == Some((u@, g@)),
            None => recorded_member(identity@) is None,
        },
{
    match text::strip_prefix(identity, "membership:") {
        Some(m) => {
            let parts = text::split_char(m.as_str(), ':');
            assert(text::texts(parts@).len() == parts@.len());
            if parts.len() == 2 {
                assert(text::texts(parts@)[0] == parts@[0]@ && text::texts(parts@)[1] == parts@[1]@);
                Some((parts[0].clone(), parts[1].clone()))
            } else {
                None
            }
        },
        None => None,
    }
}

fn push_members(main: &mut Vec<Step<RemovalEffect>>, identities: &Vec<String>)
    ensures
        program::step_views(final(main)@) == program::step_views(old(main)@) + member_steps(text::texts(identities@)),
{
    let ghost before = program::step_views(main@);
    let ghost all = text::texts(identities@);
    let mut i: usize = 0;
    assert(all.take(0).len() == 0);
    assert(before + member_steps(all.take(0)) =~= before);
    while i < identities.len()
        invariant
            i <= identities@.len(),
            all == text::texts(identities@),
            program::step_views(main@) == before + member_steps(all.take(i as int)),
        decreases identities@.len() - i,
    {
        proof {
            assert(all[i as int] == identities@[i as int]@);
            assert(all.take(i + 1).drop_last() =~= all.take(i as int));
            assert(all.take(i + 1).last() == all[i as int]);
        }
        match member_of(identities[i].as_str()) {
            Some((user, group)) => {
                program::push_step(main, RemovalEffect::DropMember { user, group }, Policy::Ignore);
            },
            None => {},
        }
        assert(program::step_views(main@) =~= before + member_steps(all.take(i + 1)));
        i += 1;
    }
    assert(all.take(all.len() as int) =~= all);
}

fn push_group(main: &mut Vec<Step<RemovalEffect>>, identities: &Vec<String>, group: &str)
    ensures
        program::step_views(final(main)@) == program::step_views(old(main)@) + group_step(
            text::texts(identities@),
            group@,
        ),
{
    let ghost before = program::step_views(main@);
    if text::text_in(identities, group_identity(group).as_str()) {
        program::push_step(main, RemovalEffect::DropGroup(text::owned(group)), Policy::Ignore);
    }
    assert(program::step_views(main@) =~= before + group_step(text::texts(identities@), group@));
}

fn push_stops(main: &mut Vec<Step<RemovalEffect>>)
    requires
        program::step_views(old(main)@).len() == 0,
    ensures
        program::step_views(final(main)@) == stop_steps(),
{
    program::push_step(
        main,
        RemovalEffect::Service { verb: ServiceVerb::Stop, name: text::owned("xray.service") },
        Policy::Ignore,
    );
    program::push_step(
        main,
        RemovalEffect::Service { verb: ServiceVerb::Disable, name: text::owned("xray.service") },
        Policy::Ignore,
    );
    program::push_step(
        main,
        RemovalEffect::Service {
            verb: ServiceVerb::Stop,
            name: text::owned("xray-tun-policy.service"),
        },
        Policy::Ignore,
    );
    program::push_step(
        main,
        RemovalEffect::Service {
            verb: ServiceVerb::Disable,
            name: text::owned("xray-tun-policy.service"),
        },
        Policy::Ignore,
    );
    program::push_step(main, RemovalEffect::PolicyDown, Policy::Ignore);
    program::push_step(
        main,
        RemovalEffect::RemoveFile(text::owned("/etc/systemd/system/xray.service")),
        Policy::Fail,
    );
    program::push_step(
        main,
        RemovalEffect::RemoveFile(text::owned("/etc/systemd/system/xray-tun-policy.service")),
        Policy::Fail,
    );
    program::push_step(main, RemovalEffect::RemoveFile(text::owned("/usr/local/bin/xrayctl")), Policy::Fail);
    program::push_step(
        main,
        RemovalEffect::RemoveFile(text::owned("/usr/local/bin/xrayctl.previous")),
        Policy::Fail,
    );
    assert(program::step_views(main@) =~= stop_steps());
}

fn push_purge(main: &mut Vec<Step<RemovalEffect>>, identities: &Vec<String>)
    ensures
        program::step_views(final(main)@) == program::step_views(old(main)@) + purge_steps(text::texts(identities@)),
{
    let ghost before = program::step_views(main@);
    program::push_step(main, RemovalEffect::RemoveTree(text::owned("/etc/xray-manager")), Policy::Fail);
    program::push_step(main, RemovalEffect::RemoveTree(text::owned("/var/lib/xray-manager")), Policy::Fail);
    program::push_step(main, RemovalEffect::RemoveTree(text::owned("/var/cache/xray-manager")), Policy::Fail);
    program::push_step(main, RemovalEffect::RemoveTree(text::owned("/var/log/xray-manager")), Policy::Fail);
    program::push_step(main, RemovalEffect::RemoveTree(text::owned("/opt/xray-manager")), Policy::Fail);
    assert(program::step_views(main@) =~= before + removed_trees().map_values(
        |t: Seq<char>| program::step(RemovalEffectView::RemoveTree(t), Policy::Fail),
    ));
    push_members(main, identities);
    let ghost members = program::step_views(main@);
    if text::text_in(identities, "user:xray") {
        program::push_step(main, RemovalEffect::DropUser, Policy::Ignore);
    }
    push_group(main, identities, "xray-tun");
    push_group(main, identities, "xray-manager");
    push_group(main, identities, "xray");
    assert(program::step_views(main@) =~= before + purge_steps(text::texts(identities@)));
}

/// The program of a removal; a purge goes by the identities that were
/// recorded as created.
pub fn apply_removal(purge: bool, identities: &Vec<String>) -> (r: Program<RemovalEffect>)
    ensures
        r@ == removal_steps(purge, text::texts(identities@)),
        r.wf(),
{
    let mut main: Vec<Step<RemovalEffect>> = program::no_steps();
    push_stops(&mut main);
    if purge {
        push_purge(&mut main, identities);
    }
    program::push_step(&mut main, RemovalEffect::DaemonReload, Policy::Fail);
    let undos: Vec<Vec<Step<RemovalEffect>>> = Vec::new();
    let r = Program { main, undos };
    proof {
        let want = removal_steps(purge, text::texts(identities@));
        assert(program::undo_views(undos@) =~= want.undos);
        assert(r@ =~= want);
        lemma_removal_plain(purge, text::texts(identities@));
        assert forall|i: int| 0 <= i < want.main.len() implies match (
        #[trigger] want.main[i]).policy {
            Policy::Undo(k) => k < want.undos.len(),
            _ => true,
        } by {
            assert(fitting(want.main[i], purge, text::texts(identities@)));
        }
        program::lemma_refers_inside(r);
    }
    r
}

/// Whether a step may be part of a removal: without a purge no data is taken
/// away, and of accounts only those that were recorded as created.
pub open spec fn fitting(
    s: StepView<RemovalEffectView>,
    purge: bool,
    identities: Seq<Seq<char>>,
) -> bool {
    &&& !(s.policy is Undo)
    &&& match s.effect {
        RemovalEffectView::RemoveFile(f) => text::contains_text(removed_files(), f),
        RemovalEffectView::RemoveTree(t) => purge && text::contains_text(removed_trees(), t),
        RemovalEffectView::DropMember { user, group } => purge && exists|i: int|
            0 <= i < identities.len() && recorded_member(#[trigger] identities[i]) == Some(
                (user, group),
            ),
        RemovalEffectView::DropUser => purge && text::contains_text(identities, "user:xray"@),
        RemovalEffectView::DropGroup(g) => purge && text::contains_text(identities, "group:"@ + g),
        _ => true,
    }
}

proof fn lemma_members_fit(identities: Seq<Seq<char>>, all: Seq<Seq<char>>)
    requires
        identities.len() <= all.len(),
        all.take(identities.len() as int) == identities,
    ensures
        forall|i: int|
            0 <= i < member_steps(identities).len() ==> fitting(
                #[trigger] member_steps(identities)[i],
                true,
                all,
            ),
    decreases identities.len(),
{
    if identities.len() > 0 {
        let rest = identities.drop_last();
        assert(all.take(rest.len() as int) =~= rest);
        lemma_members_fit(rest, all);
        let before = member_steps(rest);
        let last = all[identities.len() - 1];
        assert(identities.last() == last);
        assert forall|i: int| 0 <= i < member_steps(identities).len() implies fitting(
            #[trigger] member_steps(identities)[i],
            true,
            all,
        ) by {
            if i < before.len() {
                assert(member_steps(identities)[i] == before[i]);
            } else {
                let (user, group) = recorded_member(last)->0;
                assert(member_steps(identities)[i] == ignored(
                    RemovalEffectView::DropMember { user, group },
                ));
                assert(recorded_member(all[identities.len() - 1]) == Some((user, group)));
            }
        }
    }
}

proof fn lemma_stops_fit(purge: bool, identities: Seq<Seq<char>>)
    ensures
        forall|i: int|
            0 <= i < stop_steps().len() ==> fitting(#[trigger] stop_steps()[i], purge, identities),
{
    let s = stop_steps();
    let files = removed_files();
    assert forall|i: int| 0 <= i < s.len() implies fitting(
        #[trigger] s[i],
        purge,
        identities,
    ) by {
        if i >= 5 {
            assert(s[i] == program::step(RemovalEffectView::RemoveFile(files[i - 5]), Policy::Fail));
            assert(files[i - 5] == files[i - 5]);
        }
    }
}

proof fn lemma_purge_fits(identities: Seq<Seq<char>>)
    ensures
        forall|i: int|
            0 <= i < purge_steps(identities).len() ==> fitting(
                #[trigger] purge_steps(identities)[i],
                true,
                identities,
            ),
{
    let p = purge_steps(identities);
    let trees = removed_trees();
    let m = member_steps(identities);
    let t = trees.map_values(|t: Seq<char>| program::step(RemovalEffectView::RemoveTree(t), Policy::Fail));
    let u = if text::contains_text(identities, "user:xray"@) {
        seq![ignored(RemovalEffectView::DropUser)]
    } else {
        Seq::empty()
    };
    let g1 = group_step(identities, "xray-tun"@);
    let g2 = group_step(identities, "xray-manager"@);
    let g3 = group_step(identities, "xray"@);
    assert(identities.take(identities.len() as int) =~= identities);
    lemma_members_fit(identities, identities);
    assert forall|i: int| 0 <= i < p.len() implies fitting(#[trigger] p[i], true, identities) by {
        let a = t.len() as int;
        let b = a + m.len();
        let c = b + u.len();
        let d = c + g1.len();
        let e = d + g2.len();
        if i < a {
            assert(p[i] == t[i]);
            assert(trees[i] == trees[i]);
        } else if i < b {
            assert(p[i] == m[i - a]);
        } else if i < c {
            assert(p[i] == u[i - b]);
        } else if i < d {
            assert(p[i] == g1[i - c]);
        } else if i < e {
            assert(p[i] == g2[i - d]);
        } else {
            assert(p[i] == g3[i - e]);
        }
    }
}

proof fn lemma_removal_plain(purge: bool, identities: Seq<Seq<char>>)
    ensures
        forall|i: int|
            0 <= i < removal_steps(purge, identities).main.len() ==> fitting(
                #[trigger] removal_steps(purge, identities).main[i],
                purge,
                identities,
            ),
{
    let w = removal_steps(purge, identities).main;
    let s = stop_steps();
    let p = if purge {
        purge_steps(identities)
    } else {
        Seq::empty()
    };
    lemma_stops_fit(purge, identities);
    lemma_purge_fits(identities);
    assert forall|i: int| 0 <= i < w.len() implies fitting(#[trigger] w[i], purge, identities) by {
        if i < s.len() {
            assert(w[i] == s[i]);
        } else if i < s.len() + p.len() {
            assert(w[i] == p[i - s.len()]);
        }
    }
}

/// A removal takes away no file but its own, no data unless it is a purge, and
/// no account but those that the manager created.
pub proof fn law_removal_takes_only_its_own(purge: bool, identities: Seq<Seq<char>>, i: int)
    requires
        0 <= i < removal_steps(purge, identities).main.len(),
    ensures
        fitting(removal_steps(purge, identities).main[i], purge, identities),
{
    lemma_removal_plain(purge, identities);
}

/// Whether a group has members, by its record.
pub open spec fn has_members(status: i32, record: Seq<char>) -> bool {
    status == 0 && match commands::record_field(record, 3) {
        Some(members) => text::trimmed(members).len() > 0,
        None => false,
    }
}

/// Whether a group has members.
pub fn group_has_members(output: &CommandOutput) -> (r: bool)
    ensures
        r == has_members(output@.status, output@.stdout),
{
    if output.status != 0 {
        return false;
    }
    match commands::field_of(output.stdout.as_str(), 3) {
        Some(members) => !text::is_blank(members.as_str()),
        None => false,
    }
}

} // verus!
