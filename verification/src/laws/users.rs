//! What is done for users: the proxy of a desktop, applications that go through
//! TUN, accounts, and the plans that are shown.

use crate::config::ManagerConfigView;
use crate::error::ManagerError;
use crate::laws::activation::{lemma_walked, walked};
use crate::laws::reading::mark;
use crate::linux::apps::{base_changes, environment_after, pair_changes, routed_words, AppNamespaceRequestView, EnvironmentChangeView, LaunchAccountView};
use crate::linux::apps;
use crate::linux::arch;
use crate::linux::commands::{CommandEffectView, CommandLineView};
use crate::linux::desktop::{disable_steps, enable_steps, DesktopEffectView};
use crate::linux::desktop;
use crate::linux::identity::{identity_steps, is_identity, ownership, Caller};
use crate::linux::identity;
use crate::linux::setup;
use crate::ports::{AppLaunchRequest, AppLaunchRequestView, AppRouteTestRequest, AppRouteTestResult, PlanActionView, UpgradeTarget};
use crate::ports;
use crate::program::{world_after, Policy};
use crate::text::{cut_first, decimal, opt_text};
use crate::text_map;
use vstd::prelude::*;

verus! {

/// The settings of a desktop that a program writes, by user and key, and whether
/// the desktop was told to read them.
#[verifier::ext_equal]
pub struct Desktop {
    pub settings: Map<(Seq<char>, Seq<char>), Seq<char>>,
    pub kept: bool,
    pub told: bool,
}

/// The user, the key and the value of a command that writes a setting.
pub open spec fn written(c: CommandLineView) -> Option<((Seq<char>, Seq<char>), Seq<char>)> {
    if c.program == "runuser"@ && c.args.len() == 12 && c.args[0] == "--login"@ && c.args[1]
        == "--user"@ && c.args[3] == "--"@ && c.args[4] == "kwriteconfig6"@ && c.args[5] == "--file"@
        && c.args[6] == "kioslaverc"@ && c.args[7] == "--group"@ && c.args[8] == "Proxy Settings"@
        && c.args[9] == "--key"@ {
        Some(((c.args[2], c.args[10]), c.args[11]))
    } else {
        None
    }
}

pub open spec fn desktop_changing() -> spec_fn(Desktop, DesktopEffectView) -> Desktop {
    |d: Desktop, e: DesktopEffectView|
        match e {
            DesktopEffectView::Write(c) => match written(c) {
                Some((k, v)) => Desktop { settings: d.settings.insert(k, v), ..d },
                None => d,
            },
            DesktopEffectView::Keep => Desktop { kept: true, ..d },
            DesktopEffectView::Reload => Desktop { told: true, ..d },
            _ => d,
        }
}

proof fn lemma_settings()
    ensures
        mark("ProxyType"@) == (9int, 'P', 'x', 'y', 'y', 'e'),
        mark("httpProxy"@) == (9int, 'h', 'p', 'P', 'o', 'y'),
        mark("httpsProxy"@) == (10int, 'h', 'p', 'P', 'o', 'y'),
        mark("socksProxy"@) == (10int, 's', 'k', 'P', 'o', 'y'),
{
    reveal_strlit("ProxyType");
    reveal_strlit("httpProxy");
    reveal_strlit("httpsProxy");
    reveal_strlit("socksProxy");
}

/// Switching the proxy of a desktop on writes for that user that it is on, and
/// where it is: HTTP and HTTPS go to the HTTP port and SOCKS to the SOCKS port,
/// on the address that the proxy listens on. The old settings were kept and the
/// desktop is told. Switching it off writes that it is off and nothing else.
pub proof fn law_desktop_proxy(user: Seq<char>, c: ManagerConfigView, d: Desktop)
    requires
        is_identity(user),
    ensures
        ({
            let on = world_after(enable_steps(user, c), desktop_changing(), d);
            let off = world_after(disable_steps(user), desktop_changing(), d);
            let http = "http://"@ + c.proxy.listen.text() + " "@ + decimal(c.proxy.http_port as nat);
            let socks = "socks://"@ + c.proxy.listen.text() + " "@ + decimal(
                c.proxy.socks_port as nat,
            );
            &&& on.settings[(user, "ProxyType"@)] == "1"@
            &&& on.settings[(user, "httpProxy"@)] == http
            &&& on.settings[(user, "httpsProxy"@)] == http
            &&& on.settings[(user, "socksProxy"@)] == socks
            &&& on.kept && on.told
            &&& off.settings == d.settings.insert((user, "ProxyType"@), "0"@)
            &&& off.told
        }),
{
    let f = desktop_changing();
    let a = enable_steps(user, c);
    let b = disable_steps(user);
    lemma_settings();
    lemma_walked(a, 8, f, d);
    lemma_walked(b, 3, f, d);
    reveal_with_fuel(walked, 9);
}

/// Nothing of switching the proxy of a desktop may fail unheeded.
pub proof fn law_desktop_heeds_failures(user: Seq<char>, c: ManagerConfigView, i: int)
    ensures
        0 <= i < enable_steps(user, c).len() ==> enable_steps(user, c)[i].policy == Policy::Fail,
        0 <= i < disable_steps(user).len() ==> disable_steps(user)[i].policy == Policy::Fail,
        !is_identity(user) ==> enable_steps(user, c).len() == 1 && enable_steps(user, c)[0].effect
            is Refuse,
{
}

/// The settings are kept once: the copy does not replace an earlier one, and is
/// made by the user from the file that is written.
pub proof fn law_settings_are_kept_once(user: &str, home: &str, r: crate::linux::commands::CommandEffect)
    requires
        call_ensures(desktop::keep_command, (user, home), r),
    ensures
        r@ matches CommandEffectView::When { test, run } && run.args.contains("--no-clobber"@)
            && run.args[run.args.len() - 2] == ports::path_join(
            false,
            home@,
            ".config/kioslaverc"@,
        ) && run.args.last() == ports::path_join(
            false,
            home@,
            ".config/kioslaverc.xray-manager-backup"@,
        ) && run.args[1] == user@ && run.args[3] == "cp"@ && test.args.last() == run.args[run.args.len()
            - 2],
{
    match r@ {
        CommandEffectView::When { run, .. } => {
            assert(run.args[5] == "--no-clobber"@);
        },
        _ => {},
    }
}

/// A name of a user or a group is of letters, digits, hyphens and underscores.
pub proof fn law_identity_names(value: &str, r: Result<(), ManagerError>, i: int)
    requires
        call_ensures(identity::validate_identity, (value,), r),
    ensures
        value@.len() == 0 ==> r is Err,
        r is Ok && 0 <= i < value@.len() ==> ('a' <= value@[i] <= 'z') || ('A' <= value@[i] <= 'Z')
            || ('0' <= value@[i] <= '9') || value@[i] == '-' || value@[i] == '_',
        value@.len() > 0 && (forall|k: int|
            0 <= k < value@.len() ==> ('a' <= #[trigger] value@[k] <= 'z') || ('A' <= value@[k]
                <= 'Z') || ('0' <= value@[k] <= '9') || value@[k] == '-' || value@[k] == '_') ==> r
            is Ok,
{
    if r is Ok && 0 <= i < value@.len() {
        assert(identity::name_char(value@[i]));
    }
}

/// Ownership is given by `chown` to an absolute path, for valid names only, and
/// below the path exactly where that was asked for.
pub proof fn law_ownership(path: Seq<char>, user: Seq<char>, group: Seq<char>, recursive: bool)
    ensures
        ownership(path, user, group, recursive) is Ok <==> is_identity(user) && is_identity(group)
            && path.len() > 0 && path[0] == '/',
        ownership(path, user, group, recursive) matches Ok(c) ==> {
            &&& c.program == "chown"@
            &&& c.args.last() == path
            &&& c.args[c.args.len() - 2] == user + ":"@ + group
            &&& recursive ==> c.args.len() == 3 && c.args[0] == "-R"@
            &&& !recursive ==> c.args.len() == 2
        },
{
    reveal_strlit("/");
    if path.len() > 0 {
        if path[0] == '/' {
            assert(path.take(1) =~= "/"@);
        } else {
            assert(path.take(1)[0] != "/"@[0]);
        }
    }
}

/// An account is made of a valid name and valid groups only: each group where it
/// is missing, then the user where it is missing with the first group as its own
/// and without a shell, then its membership of the others.
pub proof fn law_system_identity(user: Seq<char>, groups: Seq<Seq<char>>)
    requires
        is_identity(user),
        groups.len() > 0,
        forall|i: int| 0 <= i < groups.len() ==> is_identity(#[trigger] groups[i]),
    ensures
        ({
            let steps = identity_steps(user, groups);
            let n = groups.len() as int;
            &&& steps.len() == n + (if n > 1 {
                2int
            } else {
                1
            })
            &&& forall|i: int|
                0 <= i < n ==> ((#[trigger] steps[i]).effect matches CommandEffectView::Unless {
                    test,
                    run,
                } && test.program == "getent"@ && test.args == seq!["group"@, groups[i]] && run.program
                    == "groupadd"@ && run.args == seq!["--system"@, groups[i]])
            &&& steps[n].effect matches CommandEffectView::Unless { test, run } && test.program
                == "id"@ && test.args == seq!["--user"@, user] && run.program == "useradd"@
                && run.args.len() == 7 && run.args[4] == "--gid"@ && run.args[5] == groups[0]
                && run.args[6] == user && run.args[3] == "/usr/bin/nologin"@
            &&& n > 1 ==> (steps[n + 1].effect matches CommandEffectView::Run(c) && c.program
                == "usermod"@ && c.args == seq![
                "--append"@,
                "--groups"@,
                crate::text::joined(groups.skip(1), ","@),
                user,
            ])
            &&& forall|i: int| 0 <= i < steps.len() ==> (#[trigger] steps[i]).policy == Policy::Fail
        }),
{
    let a = identity::group_steps(groups);
    let b = identity::user_steps(user, groups);
    lemma_groups(groups);
    assert(identity_steps(user, groups) == a + b);
    let steps = identity_steps(user, groups);
    let n = groups.len() as int;
    assert forall|i: int| 0 <= i < n implies ((#[trigger] steps[i]).effect matches CommandEffectView::Unless {
        test,
        run,
    } && test.program == "getent"@ && test.args == seq!["group"@, groups[i]] && run.program
        == "groupadd"@ && run.args == seq!["--system"@, groups[i]]) by {
        assert(steps[i] == a[i]);
        assert(a[i] == identity::ensure_group(groups[i]));
    }
    assert(steps[n] == b[0]);
    if n > 1 {
        assert(steps[n + 1] == b[1]);
    }
    assert forall|i: int| 0 <= i < steps.len() implies (#[trigger] steps[i]).policy == Policy::Fail by {
        if i < n {
            assert(steps[i] == a[i]);
            assert(a[i] == identity::ensure_group(groups[i]));
        } else {
            assert(steps[i] == b[i - n]);
        }
    }
}

proof fn lemma_groups(groups: Seq<Seq<char>>)
    requires
        forall|i: int| 0 <= i < groups.len() ==> is_identity(#[trigger] groups[i]),
    ensures
        identity::group_steps(groups).len() == groups.len(),
        forall|i: int|
            0 <= i < groups.len() ==> #[trigger] identity::group_steps(groups)[i]
                == identity::ensure_group(groups[i]),
    decreases groups.len(),
{
    if groups.len() > 0 {
        let rest = groups.drop_first();
        assert forall|i: int| 0 <= i < rest.len() implies is_identity(#[trigger] rest[i]) by {
            assert(rest[i] == groups[i + 1]);
        }
        lemma_groups(rest);
        assert(is_identity(groups[0]));
        let head = seq![identity::ensure_group(groups[0])];
        let s = identity::group_steps(groups);
        assert(s == head + identity::group_steps(rest));
        assert forall|i: int| 0 <= i < groups.len() implies #[trigger] s[i]
            == identity::ensure_group(groups[i]) by {
            if i > 0 {
                assert(s[i] == identity::group_steps(rest)[i - 1]);
                assert(rest[i - 1] == groups[i]);
            }
        }
    }
}

/// Who called the manager through `sudo`: the named user but root, who counts as
/// nobody; without a name, the account of the number, unless it is that of root.
pub proof fn law_invoking_user(
    user: &Option<String>,
    uid: &Option<String>,
    r: Result<Caller, ManagerError>,
)
    requires
        call_ensures(identity::invoking_user, (user, uid), r),
    ensures
        (opt_text(*user) matches Some(u) && u.len() > 0 && u != "root"@ && is_identity(u)) ==> (
        r matches Ok(Caller::Known(Some(name))) && opt_text(*user) == Some(name@)),
        (opt_text(*user) matches Some(u) && u.len() > 0 && u != "root"@ && !is_identity(u)) ==> r
            is Err,
        (opt_text(*user) is None || opt_text(*user) == Some("root"@)) && opt_text(*uid) is None ==> (
        r matches Ok(Caller::Known(None))),
        r matches Ok(Caller::Lookup(id)) ==> id != 0,
{
}

/// An application is never started as root, nor as nobody, nor without a command.
pub proof fn law_launch_is_checked(
    request: &AppLaunchRequest,
    caller: &Option<String>,
    r: Result<String, ManagerError>,
)
    requires
        call_ensures(apps::check_launch, (request, caller), r),
    ensures
        r matches Ok(user) ==> user@ != "root"@ && is_identity(user@) && request@.command.len() > 0,
        r matches Ok(user) ==> user@ == (if request@.user.len() > 0 {
            request@.user
        } else {
            opt_text(*caller)->0
        }),
        request@.command.len() > 0 && is_identity(request@.user) && request@.user != "root"@ ==> r
            is Ok,
        request@.command.len() > 0 && request@.user.len() == 0 && (opt_text(*caller) matches Some(
            c,
        ) && is_identity(c) && c != "root"@) ==> r is Ok,
{
    reveal_strlit("");
}

/// How an application is started: in a mount namespace of its own, by the
/// manager itself, as the user and with the groups of the account. Its command
/// comes last, behind two hyphens, and every option before them.
pub proof fn law_routed_application(
    r: AppLaunchRequestView,
    user: Seq<char>,
    a: LaunchAccountView,
    executable: Seq<char>,
    i: int,
)
    requires
        0 <= i < a.groups.len(),
    ensures
        ({
            let w = routed_words(r, user, a, executable);
            let n = w.len() - r.command.len();
            &&& w.skip(n) == r.command
            &&& w[n - 1] == "--"@
            &&& w[0] == "--mount"@ && w[1] == "--fork"@ && w[2] == "--kill-child"@
            &&& w[3] == "--propagation"@ && w[4] == "private"@
            &&& w[5] == executable && w[6] == "internal"@ && w[7] == "app-enter"@
            &&& w[8] == "--uid"@ && w[9] == decimal(a.uid as nat)
            &&& w[10] == "--gid"@ && w[11] == decimal(a.gid as nat)
            &&& w[12] == "--tun-gid"@ && w[13] == decimal(a.tun_gid as nat)
            &&& w[14] == "--user"@ && w[15] == user
            &&& w[16] == "--home"@ && w[17] == a.home
            &&& w[18 + 2 * i] == "--supplementary-gid"@
            &&& w[19 + 2 * i] == decimal(a.groups[i] as nat)
            &&& r.override_dns ==> w[18 + 2 * (a.groups.len() as int)] == "--override-dns"@
            &&& !r.override_dns && r.clear_proxy_environment ==> w[18 + 2 * (a.groups.len() as int)]
                == "--clear-proxy-environment"@
            &&& r.override_dns && r.clear_proxy_environment ==> w[19 + 2 * (a.groups.len() as int)]
                == "--clear-proxy-environment"@
        }),
{
    let head = seq![
        "--mount"@,
        "--fork"@,
        "--kill-child"@,
        "--propagation"@,
        "private"@,
        executable,
        "internal"@,
        "app-enter"@,
        "--uid"@,
        decimal(a.uid as nat),
        "--gid"@,
        decimal(a.gid as nat),
        "--tun-gid"@,
        decimal(a.tun_gid as nat),
        "--user"@,
        user,
        "--home"@,
        a.home,
    ];
    let groups = apps::group_words(a.groups);
    let dns = apps::flag(r.override_dns, "--override-dns"@);
    let clear = apps::flag(r.clear_proxy_environment, "--clear-proxy-environment"@);
    let dir = apps::directory_words(r.working_directory);
    let vars = apps::variable_words(text_map::sorted_keys(r.environment), r.environment);
    let w = routed_words(r, user, a, executable);
    lemma_group_words(a.groups, i);
    let front = head + groups + dns + clear + dir + vars;
    assert(w == front + seq!["--"@] + r.command);
    assert(w.skip(w.len() - r.command.len()) =~= r.command);
    let b = head + groups;
    assert(forall|k: int| 0 <= k < b.len() ==> w[k] == b[k]);
    assert(forall|k: int| 0 <= k < 18 ==> b[k] == head[k]);
    assert(b[18 + 2 * i] == groups[2 * i]);
    assert(b[19 + 2 * i] == groups[2 * i + 1]);
    let c = b + dns + clear;
    assert(forall|k: int| 0 <= k < c.len() ==> w[k] == c[k]);
}

proof fn lemma_group_words(groups: Seq<u32>, i: int)
    requires
        0 <= i < groups.len(),
    ensures
        apps::group_words(groups).len() == 2 * groups.len(),
        apps::group_words(groups)[2 * i] == "--supplementary-gid"@,
        apps::group_words(groups)[2 * i + 1] == decimal(groups[i] as nat),
    decreases groups.len(),
{
    let rest = groups.drop_last();
    if i < rest.len() {
        lemma_group_words(rest, i);
    } else if rest.len() > 0 {
        lemma_group_words(rest, 0);
    }
}

/// What is set for an application by name is set, the last setting winning.
pub proof fn law_variables_are_set(
    env: Map<Seq<char>, Seq<char>>,
    r: AppNamespaceRequestView,
    runtime: bool,
)
    requires
        r.environment.len() > 0,
        pair_changes(r.environment) is Ok,
    ensures
        ({
            let end = environment_after(
                env,
                base_changes(r, runtime) + pair_changes(r.environment)->Ok_0,
            );
            let halves = cut_first(r.environment.last(), '=');
            halves matches Some((key, value)) && end.contains_key(key) && end[key] == value
                && key.len() > 0
        }),
{
    let all = base_changes(r, runtime) + pair_changes(r.environment)->Ok_0;
    let p = pair_changes(r.environment)->Ok_0;
    assert(all.last() == p.last());
}

proof fn lemma_variables()
    ensures
        mark("HOME"@) == (4int, 'H', 'O', 'M', 'E', 'E'),
        mark("USER"@) == (4int, 'U', 'S', 'E', 'R', 'R'),
        mark("LOGNAME"@) == (7int, 'L', 'G', 'N', 'M', 'E'),
        mark("XDG_RUNTIME_DIR"@) == (15int, 'X', 'U', 'T', '_', 'R'),
        mark("DBUS_SESSION_BUS_ADDRESS"@) == (24int, 'D', 'S', '_', 'D', 'S'),
        mark("HTTP_PROXY"@) == (10int, 'H', 'P', 'P', 'O', 'Y'),
        mark("HTTPS_PROXY"@) == (11int, 'H', 'P', '_', 'O', 'Y'),
        mark("ALL_PROXY"@) == (9int, 'A', '_', 'P', 'O', 'Y'),
        mark("NO_PROXY"@) == (8int, 'N', '_', 'R', 'X', 'Y'),
        mark("http_proxy"@) == (10int, 'h', 'p', 'p', 'o', 'y'),
        mark("https_proxy"@) == (11int, 'h', 'p', '_', 'o', 'y'),
        mark("all_proxy"@) == (9int, 'a', '_', 'p', 'o', 'y'),
        mark("no_proxy"@) == (8int, 'n', '_', 'r', 'x', 'y'),
{
    reveal_strlit("HOME");
    reveal_strlit("USER");
    reveal_strlit("LOGNAME");
    reveal_strlit("XDG_RUNTIME_DIR");
    reveal_strlit("DBUS_SESSION_BUS_ADDRESS");
    reveal_strlit("HTTP_PROXY");
    reveal_strlit("HTTPS_PROXY");
    reveal_strlit("ALL_PROXY");
    reveal_strlit("NO_PROXY");
    reveal_strlit("http_proxy");
    reveal_strlit("https_proxy");
    reveal_strlit("all_proxy");
    reveal_strlit("no_proxy");
}

/// The home, the name and, where there is one, the runtime directory that an
/// application sees are those of its user.
pub proof fn law_application_sees_its_user(
    env: Map<Seq<char>, Seq<char>>,
    r: AppNamespaceRequestView,
    runtime: bool,
)
    ensures
        ({
            let end = environment_after(env, base_changes(r, runtime));
            let directory = "/run/user/"@ + decimal(r.uid as nat);
            &&& end.contains_key("HOME"@) && end["HOME"@] == r.home
            &&& end.contains_key("USER"@) && end["USER"@] == r.user
            &&& end.contains_key("LOGNAME"@) && end["LOGNAME"@] == r.user
            &&& runtime ==> end.contains_key("XDG_RUNTIME_DIR"@) && end["XDG_RUNTIME_DIR"@]
                == directory
            &&& runtime ==> end.contains_key("DBUS_SESSION_BUS_ADDRESS"@)
                && end["DBUS_SESSION_BUS_ADDRESS"@] == "unix:path="@ + directory + "/bus"@
            &&& !runtime ==> (end.contains_key("XDG_RUNTIME_DIR"@) == env.contains_key(
                "XDG_RUNTIME_DIR"@,
            ))
        }),
{
    lemma_variables();
    let c = base_changes(r, runtime);
    lemma_changes(env, c, c.len());
    reveal_with_fuel(changes_applied, 14);
}

/// The environment after the first `n` changes.
spec fn changes_applied(
    env: Map<Seq<char>, Seq<char>>,
    changes: Seq<EnvironmentChangeView>,
    n: nat,
) -> Map<Seq<char>, Seq<char>>
    decreases n,
{
    if n == 0 {
        env
    } else {
        let before = changes_applied(env, changes, (n - 1) as nat);
        match changes[n - 1].value {
            Some(v) => before.insert(changes[n - 1].key, v),
            None => before.remove(changes[n - 1].key),
        }
    }
}

proof fn lemma_changes(env: Map<Seq<char>, Seq<char>>, changes: Seq<EnvironmentChangeView>, n: nat)
    requires
        n <= changes.len(),
    ensures
        environment_after(env, changes.take(n as int)) == changes_applied(env, changes, n),
        n == changes.len() ==> environment_after(env, changes) == changes_applied(env, changes, n),
    decreases n,
{
    if n > 0 {
        lemma_changes(env, changes, (n - 1) as nat);
        assert(changes.take(n as int).drop_last() =~= changes.take(n - 1));
    }
    assert(changes.take(changes.len() as int) =~= changes);
}

/// A route test passes exactly where the two addresses differ, and tells both.
pub proof fn law_route_test(direct: &str, routed: &str, r: Result<AppRouteTestResult, ManagerError>)
    requires
        call_ensures(apps::compare_routes, (direct, routed), r),
    ensures
        r is Ok <==> direct@ != routed@,
        r matches Ok(t) ==> t@.direct_ip == direct@ && t@.routed_ip == routed@ && t@.routes_differ,
{
}

/// A route test asks the configured address by the words of `curl`, without a
/// proxy and within its time, as the user and without inherited proxies.
pub proof fn law_route_test_request(
    m: &apps::LinuxAppRunner,
    request: &AppRouteTestRequest,
    r: AppLaunchRequest,
)
    requires
        call_ensures(apps::LinuxAppRunner::route_test_launch, (m, request), r),
    ensures
        r@.user == request@.user,
        r@.override_dns == request@.override_dns,
        r@.clear_proxy_environment,
        r@.command[0] == "curl"@,
        r@.command.last() == request@.url,
        r@.command.contains("--fail"@),
        r@.command[5] == "--noproxy"@ && r@.command[6] == "*"@,
        r@.command[7] == "--max-time"@ && r@.command[8] == decimal(
            if request@.timeout_seconds == 0 {
                1
            } else {
                request@.timeout_seconds as nat
            },
        ),
{
    assert(r@.command[1] == "--fail"@);
}

/// The groups of an application are those of its account, its own and that of
/// TUN, each once.
pub proof fn law_application_groups(request: &apps::AppNamespaceRequest, r: Vec<u32>)
    requires
        call_ensures(apps::namespace_groups, (request,), r),
    ensures
        r@.contains(request@.tun_gid) && r@.contains(request@.gid),
        forall|g: u32| request@.supplementary_gids.contains(g) ==> #[trigger] r@.contains(g),
        forall|g: u32| #[trigger]
            r@.contains(g) ==> g == request@.tun_gid || g == request@.gid
                || request@.supplementary_gids.contains(g),
        r@.no_duplicates(),
{
}

/// The variables that name a proxy are these, in both cases of letters.
pub proof fn law_proxy_variables(key: Seq<char>)
    ensures
        ports::proxy_variables().contains(key) <==> key == "HTTP_PROXY"@ || key == "HTTPS_PROXY"@
            || key == "ALL_PROXY"@ || key == "NO_PROXY"@ || key == "http_proxy"@ || key
            == "https_proxy"@ || key == "all_proxy"@ || key == "no_proxy"@,
{
}

/// What is shown of a removal is what is removed: the files and directories of
/// the plan are those that the removal takes.
pub proof fn law_shown_removal()
    ensures
        arch::purge_actions().map_values(|a: PlanActionView| arch::removed_path(a)->0)
            == setup::removed_trees(),
        arch::removal_actions().contains(
            PlanActionView::RemoveOwnedPath { path: "/usr/local/bin/xrayctl"@ },
        ),
        arch::removal_actions().contains(
            PlanActionView::RemoveOwnedPath { path: "/usr/local/bin/xrayctl.previous"@ },
        ),
        arch::removal_actions().contains(PlanActionView::StopService { name: "xray.service"@ }),
        arch::removal_actions().contains(
            PlanActionView::StopService { name: "xray-tun-policy.service"@ },
        ),
        arch::removal_actions().contains(PlanActionView::RemoveService { name: "xray.service"@ }),
        arch::removal_actions().contains(
            PlanActionView::RemoveService { name: "xray-tun-policy.service"@ },
        ),
{
    let a = arch::removal_actions();
    assert(a[0] == (PlanActionView::StopService { name: "xray.service"@ }));
    assert(a[1] == (PlanActionView::StopService { name: "xray-tun-policy.service"@ }));
    assert(a[2] == (PlanActionView::RemoveService { name: "xray.service"@ }));
    assert(a[3] == (PlanActionView::RemoveService { name: "xray-tun-policy.service"@ }));
    assert(a[4] == (PlanActionView::RemoveOwnedPath { path: "/usr/local/bin/xrayctl"@ }));
    assert(a[5] == (PlanActionView::RemoveOwnedPath { path: "/usr/local/bin/xrayctl.previous"@ }));
    assert(arch::purge_actions().map_values(|a: PlanActionView| arch::removed_path(a)->0)
        =~= setup::removed_trees());
}

/// What is shown of an upgrade: the download of each part that it upgrades and
/// of no other, and the restart of the service at the end.
pub proof fn law_shown_upgrade(target: UpgradeTarget)
    ensures
        ({
            let a = arch::upgrade_actions(target);
            let core = PlanActionView::DownloadArtifact {
                id: "xray-core"@,
                destination: "/opt/xray-manager/core/versions"@,
            };
            let assets = PlanActionView::DownloadArtifact {
                id: "assets"@,
                destination: "/opt/xray-manager/assets/generations"@,
            };
            let manager = PlanActionView::DownloadArtifact {
                id: "xray-manager"@,
                destination: "/usr/local/bin/xrayctl"@,
            };
            let restart = PlanActionView::RestartService { name: "xray.service"@ };
            a == (match target {
                UpgradeTarget::All => seq![core, assets, restart],
                UpgradeTarget::Core => seq![core, restart],
                UpgradeTarget::Assets => seq![assets, restart],
                UpgradeTarget::Manager => seq![manager, restart],
            })
        }),
{
    let a = arch::upgrade_actions(target);
    let core = PlanActionView::DownloadArtifact {
        id: "xray-core"@,
        destination: "/opt/xray-manager/core/versions"@,
    };
    let assets = PlanActionView::DownloadArtifact {
        id: "assets"@,
        destination: "/opt/xray-manager/assets/generations"@,
    };
    let manager = PlanActionView::DownloadArtifact {
        id: "xray-manager"@,
        destination: "/usr/local/bin/xrayctl"@,
    };
    let restart = PlanActionView::RestartService { name: "xray.service"@ };
    assert(a =~= (match target {
        UpgradeTarget::All => seq![core, assets, restart],
        UpgradeTarget::Core => seq![core, restart],
        UpgradeTarget::Assets => seq![assets, restart],
        UpgradeTarget::Manager => seq![manager, restart],
    }));
}

/// What is shown of an installation: the groups and the user, both units at
/// their paths, both downloads, and the health check at the end. What subscribers
/// keep secret is for root alone.
pub proof fn law_shown_installation(url: Seq<char>)
    ensures
        ({
            let a = arch::install_actions(url);
            &&& a.contains(PlanActionView::EnsureGroup { name: "xray"@ })
            &&& a.contains(PlanActionView::EnsureGroup { name: "xray-manager"@ })
            &&& a.contains(PlanActionView::EnsureGroup { name: "xray-tun"@ })
            &&& a.contains(PlanActionView::EnsureIdentity { name: "xray"@, system: true })
            &&& a.contains(
                PlanActionView::EnsureDirectory {
                    path: "/etc/xray-manager/subscriptions.d"@,
                    mode: 0o700,
                },
            )
            &&& a.contains(
                PlanActionView::EnsureDirectory {
                    path: "/var/lib/xray-manager/generations"@,
                    mode: 0o750,
                },
            )
            &&& a.contains(
                PlanActionView::WriteFile {
                    path: "/etc/systemd/system/xray.service"@,
                    mode: 0o644,
                    description: "xray.service"@,
                },
            )
            &&& a.contains(
                PlanActionView::WriteFile {
                    path: "/etc/systemd/system/xray-tun-policy.service"@,
                    mode: 0o644,
                    description: "xray-tun-policy.service"@,
                },
            )
            &&& a.last() == (PlanActionView::RunHealthcheck { url })
            &&& forall|i: int|
                0 <= i < a.len() ==> ((#[trigger] a[i]) matches PlanActionView::EnsureDirectory {
                    mode,
                    ..
                } ==> mode == 0o700 || mode == 0o750 || mode == 0o2750 || mode == 0o755)
        }),
{
    let a = arch::install_actions(url);
    assert(a.len() == 22);
    assert(a[0] == (PlanActionView::EnsureGroup { name: "xray"@ }));
    assert(a[1] == (PlanActionView::EnsureGroup { name: "xray-manager"@ }));
    assert(a[2] == (PlanActionView::EnsureGroup { name: "xray-tun"@ }));
    assert(a[3] == (PlanActionView::EnsureIdentity { name: "xray"@, system: true }));
    assert(a[5] == (PlanActionView::EnsureDirectory {
        path: "/etc/xray-manager/subscriptions.d"@,
        mode: 0o700,
    }));
    assert(a[9] == (PlanActionView::EnsureDirectory {
        path: "/var/lib/xray-manager/generations"@,
        mode: 0o750,
    }));
    assert(a[17] == (PlanActionView::WriteFile {
        path: "/etc/systemd/system/xray.service"@,
        mode: 0o644,
        description: "xray.service"@,
    }));
    assert(a[18] == (PlanActionView::WriteFile {
        path: "/etc/systemd/system/xray-tun-policy.service"@,
        mode: 0o644,
        description: "xray-tun-policy.service"@,
    }));
}

} // verus!
