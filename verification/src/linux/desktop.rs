//! The proxy settings of the desktop.

use crate::config::{ManagerConfig, ManagerConfigView};
use crate::linux::commands::{CommandEffect, CommandEffectView, CommandLine, CommandLineView};
use crate::program::{Policy, Program, ProgramView, Step, StepView};
use crate::linux::commands;
use crate::linux::identity;
use crate::ports;
use crate::program;
use crate::text;
use vstd::prelude::*;

verus! {

/// The command that writes a proxy setting of a user.
pub open spec fn write_words(user: Seq<char>, key: Seq<char>, value: Seq<char>) -> CommandLineView {
    commands::line(
        "runuser"@,
        seq![
            "--login"@,
            "--user"@,
            user,
            "--"@,
            "kwriteconfig6"@,
            "--file"@,
            "kioslaverc"@,
            "--group"@,
            "Proxy Settings"@,
            "--key"@,
            key,
            value,
        ],
    )
}

/// The command that writes a proxy setting of a user.
pub fn write_command(user: &str, key: &str, value: &str) -> (r: CommandLine)
    ensures
        r@ == write_words(user@, key@, value@),
{
    let args = text::own_all(
        vec![
            "--login",
            "--user",
            user,
            "--",
            "kwriteconfig6",
            "--file",
            "kioslaverc",
            "--group",
            "Proxy Settings",
            "--key",
            key,
            value,
        ],
    );
    assert(text::texts(args@) =~= write_words(user@, key@, value@).args);
    commands::command("runuser", args)
}

/// The command that makes the desktop of a user read its settings again.
pub fn reload_command(user: &str, uid: u32) -> (r: CommandLine)
    ensures
        r@ == commands::line(
            "runuser"@,
            seq![
                "--user"@,
                user@,
                "--"@,
                "env"@,
                "DBUS_SESSION_BUS_ADDRESS=unix:path=/run/user/"@ + text::decimal(uid as nat) + "/bus"@,
                "dbus-send"@,
                "--session"@,
                "--type=signal"@,
                "/KIO/Scheduler"@,
                "org.kde.KIO.Scheduler.reparseSlaveConfiguration"@,
                "string:"@,
            ],
        ),
{
    let bus = text::concat3(
        "DBUS_SESSION_BUS_ADDRESS=unix:path=/run/user/",
        text::decimal_of(uid as u64).as_str(),
        "/bus",
    );
    let args = text::own_all(
        vec![
            "--user",
            user,
            "--",
            "env",
            bus.as_str(),
            "dbus-send",
            "--session",
            "--type=signal",
            "/KIO/Scheduler",
            "org.kde.KIO.Scheduler.reparseSlaveConfiguration",
            "string:",
        ],
    );
    assert(text::texts(args@) =~= seq![
        "--user"@,
        user@,
        "--"@,
        "env"@,
        "DBUS_SESSION_BUS_ADDRESS=unix:path=/run/user/"@ + text::decimal(uid as nat) + "/bus"@,
        "dbus-send"@,
        "--session"@,
        "--type=signal"@,
        "/KIO/Scheduler"@,
        "org.kde.KIO.Scheduler.reparseSlaveConfiguration"@,
        "string:"@,
    ]);
    commands::command("runuser", args)
}

/// Where the settings of a user with this home are.
pub open spec fn settings_path(home: Seq<char>) -> Seq<char> {
    ports::path_join(false, home, ".config/kioslaverc"@)
}

/// Where the settings of a user with this home are kept.
pub open spec fn backup_path(home: Seq<char>) -> Seq<char> {
    ports::path_join(false, home, ".config/kioslaverc.xray-manager-backup"@)
}

/// Keeping a copy of the settings, where there are any and no copy yet.
pub open spec fn keep_words(user: Seq<char>, home: Seq<char>) -> CommandEffectView {
    CommandEffectView::When {
        test: commands::line(
            "runuser"@,
            seq!["--user"@, user, "--"@, "test"@, "-f"@, settings_path(home)],
        ),
        run: commands::line(
            "runuser"@,
            seq![
                "--user"@,
                user,
                "--"@,
                "cp"@,
                "--preserve=mode,timestamps"@,
                "--no-clobber"@,
                settings_path(home),
                backup_path(home),
            ],
        ),
    }
}

/// What keeps a copy of the settings of a user, where there are any and no copy
/// yet.
pub fn keep_command(user: &str, home: &str) -> (r: CommandEffect)
    ensures
        r@ == keep_words(user@, home@),
{
    let source = ports::join_path(false, home, ".config/kioslaverc");
    let backup = ports::join_path(false, home, ".config/kioslaverc.xray-manager-backup");
    let test = text::own_all(vec!["--user", user, "--", "test", "-f", source.as_str()]);
    assert(text::texts(test@) =~= seq!["--user"@, user@, "--"@, "test"@, "-f"@, source@]);
    let copy = text::own_all(
        vec![
            "--user",
            user,
            "--",
            "cp",
            "--preserve=mode,timestamps",
            "--no-clobber",
            source.as_str(),
            backup.as_str(),
        ],
    );
    assert(text::texts(copy@) =~= seq![
        "--user"@,
        user@,
        "--"@,
        "cp"@,
        "--preserve=mode,timestamps"@,
        "--no-clobber"@,
        source@,
        backup@,
    ]);
    CommandEffect::When {
        test: commands::command("runuser", test),
        run: commands::command("runuser", copy),
    }
}

/// What is done to switch the desktop of a user. `Refuse` fails as an invalid
/// configuration with this text.
#[derive(Debug)]
pub enum DesktopEffect {
    Refuse(String),
    /// Find the home of the user.
    FindHome,
    /// Keep a copy of the settings in the home that was found.
    Keep,
    /// Write a setting.
    Write(CommandLine),
    /// Find the number of the user.
    FindUser,
    /// Make the desktop of the user with the number that was found read its
    /// settings again.
    Reload,
}

/// The mathematical value of a [`DesktopEffect`].
#[verifier::ext_equal]
pub enum DesktopEffectView {
    Refuse(Seq<char>),
    FindHome,
    Keep,
    Write(CommandLineView),
    FindUser,
    Reload,
}

impl View for DesktopEffect {
    type V = DesktopEffectView;

    open spec fn view(&self) -> DesktopEffectView {
        match self {
            DesktopEffect::Refuse(s) => DesktopEffectView::Refuse(s@),
            DesktopEffect::FindHome => DesktopEffectView::FindHome,
            DesktopEffect::Keep => DesktopEffectView::Keep,
            DesktopEffect::Write(c) => DesktopEffectView::Write(c@),
            DesktopEffect::FindUser => DesktopEffectView::FindUser,
            DesktopEffect::Reload => DesktopEffectView::Reload,
        }
    }
}

/// A step whose failure ends the program.
pub open spec fn must(effect: DesktopEffectView) -> StepView<DesktopEffectView> {
    program::step(effect, Policy::Fail)
}

/// A setting written.
pub open spec fn write_step(user: Seq<char>, key: Seq<char>, value: Seq<char>) -> StepView<
    DesktopEffectView,
> {
    must(DesktopEffectView::Write(write_words(user, key, value)))
}

/// What is done with a name that is no user name: nothing but refusing it.
pub open spec fn refusal_steps() -> Seq<StepView<DesktopEffectView>> {
    seq![must(DesktopEffectView::Refuse("invalid Linux user or group name"@))]
}

/// The address of a local proxy as the desktop writes it.
pub open spec fn desktop_proxy(scheme: Seq<char>, c: ManagerConfigView, port: u16) -> Seq<char> {
    scheme + c.proxy.listen.text() + " "@ + text::decimal(port as nat)
}

/// Switching the desktop to the local proxy; the settings before are kept first.
pub open spec fn enable_steps(user: Seq<char>, c: ManagerConfigView) -> Seq<
    StepView<DesktopEffectView>,
> {
    let http = desktop_proxy("http://"@, c, c.proxy.http_port);
    let socks = desktop_proxy("socks://"@, c, c.proxy.socks_port);
    if identity::is_identity(user) {
        seq![
            must(DesktopEffectView::FindHome),
            must(DesktopEffectView::Keep),
            write_step(user, "ProxyType"@, "1"@),
            write_step(user, "httpProxy"@, http),
            write_step(user, "httpsProxy"@, http),
            write_step(user, "socksProxy"@, socks),
            must(DesktopEffectView::FindUser),
            must(DesktopEffectView::Reload),
        ]
    } else {
        refusal_steps()
    }
}

/// Switching the desktop to no proxy.
pub open spec fn disable_steps(user: Seq<char>) -> Seq<StepView<DesktopEffectView>> {
    if identity::is_identity(user) {
        seq![
            write_step(user, "ProxyType"@, "0"@),
            must(DesktopEffectView::FindUser),
            must(DesktopEffectView::Reload),
        ]
    } else {
        refusal_steps()
    }
}

fn desktop_address(scheme: &str, config: &ManagerConfig, port: u16) -> (r: String)
    ensures
        r@ == desktop_proxy(scheme@, config@, port),
{
    let mut r = text::concat3(scheme, config.proxy.listen.text().as_str(), " ");
    r.append(text::decimal_of(port as u64).as_str());
    r
}

fn push_must(main: &mut Vec<Step<DesktopEffect>>, effect: DesktopEffect)
    ensures
        program::step_views(final(main)@) == program::step_views(old(main)@).push(must(effect@)),
{
    program::push_step(main, effect, Policy::Fail);
}

fn push_refusal(main: &mut Vec<Step<DesktopEffect>>)
    requires
        program::step_views(old(main)@).len() == 0,
    ensures
        program::step_views(final(main)@) == refusal_steps(),
{
    push_must(main, DesktopEffect::Refuse(text::owned("invalid Linux user or group name")));
    assert(program::step_views(main@) =~= refusal_steps());
}

/// A program that undoes nothing.
fn plain_program(main: Vec<Step<DesktopEffect>>) -> (r: Program<DesktopEffect>)
    requires
        forall|i: int|
            0 <= i < program::step_views(main@).len() ==> (#[trigger] program::step_views(
                main@,
            )[i]).policy == Policy::Fail,
    ensures
        r@ == (ProgramView { main: program::step_views(main@), undos: Seq::empty() }),
        r.wf(),
{
    let undos: Vec<Vec<Step<DesktopEffect>>> = Vec::new();
    let r = Program { main, undos };
    proof {
        assert(program::undo_views(r.undos@) =~= Seq::empty());
        assert(program::refers_inside(r@));
        program::lemma_refers_inside(r);
    }
    r
}

/// Switches the proxy of the desktop.
#[derive(Debug, Clone, Copy)]
pub struct Kde6DesktopProxyManager;

impl Kde6DesktopProxyManager {
    /// The program that switches the desktop of a user to the local proxy. A
    /// name that is no user name is refused.
    pub fn enable(&self, user: &str, config: &ManagerConfig) -> (r: Program<DesktopEffect>)
        ensures
            r@ == (ProgramView { main: enable_steps(user@, config@), undos: Seq::empty() }),
            r.wf(),
    {
        let mut main: Vec<Step<DesktopEffect>> = program::no_steps();
        if identity::validate_identity(user).is_ok() {
            let http = desktop_address("http://", config, config.proxy.http_port);
            let socks = desktop_address("socks://", config, config.proxy.socks_port);
            push_must(&mut main, DesktopEffect::FindHome);
            push_must(&mut main, DesktopEffect::Keep);
            push_must(&mut main, DesktopEffect::Write(write_command(user, "ProxyType", "1")));
            push_must(
                &mut main,
                DesktopEffect::Write(write_command(user, "httpProxy", http.as_str())),
            );
            push_must(
                &mut main,
                DesktopEffect::Write(write_command(user, "httpsProxy", http.as_str())),
            );
            push_must(
                &mut main,
                DesktopEffect::Write(write_command(user, "socksProxy", socks.as_str())),
            );
            push_must(&mut main, DesktopEffect::FindUser);
            push_must(&mut main, DesktopEffect::Reload);
        } else {
            push_refusal(&mut main);
        }
        assert(program::step_views(main@) =~= enable_steps(user@, config@));
        plain_program(main)
    }

    /// The program that switches the desktop of a user back to no proxy. A name
    /// that is no user name is refused.
    pub fn disable(&self, user: &str) -> (r: Program<DesktopEffect>)
        ensures
            r@ == (ProgramView { main: disable_steps(user@), undos: Seq::empty() }),
            r.wf(),
    {
        let mut main: Vec<Step<DesktopEffect>> = program::no_steps();
        if identity::validate_identity(user).is_ok() {
            push_must(&mut main, DesktopEffect::Write(write_command(user, "ProxyType", "0")));
            push_must(&mut main, DesktopEffect::FindUser);
            push_must(&mut main, DesktopEffect::Reload);
        } else {
            push_refusal(&mut main);
        }
        assert(program::step_views(main@) =~= disable_steps(user@));
        plain_program(main)
    }
}

/// The settings of a user are kept before any is changed.
pub proof fn law_settings_are_kept_first(user: Seq<char>, c: ManagerConfigView, i: int)
    requires
        0 <= i < enable_steps(user, c).len(),
        enable_steps(user, c)[i].effect is Write,
    ensures
        exists|k: int|
            0 <= k < i && #[trigger] enable_steps(user, c)[k] == must(DesktopEffectView::Keep),
{
    assert(enable_steps(user, c)[1] == must(DesktopEffectView::Keep));
}

/// For a name that is no user name no command is run.
pub proof fn law_invalid_desktop_user_is_refused(user: Seq<char>, c: ManagerConfigView)
    requires
        !identity::is_identity(user),
    ensures
        enable_steps(user, c) == refusal_steps(),
        disable_steps(user) == refusal_steps(),
{
}

} // verus!
