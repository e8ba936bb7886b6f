//! Running applications through selective TUN routing.

use crate::config::{IpAddressView, ManagerConfig};
use crate::error::{ManagerError, ManagerErrorView};
use crate::linux::commands::CommandLine;
use crate::ports::{
    AppLaunchRequest, AppLaunchRequestView, AppRouteTestRequest, AppRouteTestResult,
    AppRouteTestResultView, Capability,
};
use crate::text_map::TextMap;
use crate::linux::commands;
use crate::linux::identity;
use crate::outside;
use crate::ports;
use crate::text;
use crate::text_map;
use vstd::prelude::*;

verus! {

/// A name of an environment variable.
pub open spec fn is_variable(key: Seq<char>) -> bool {
    key.len() > 0 && forall|i: int| 0 <= i < key.len() ==> variable_char(#[trigger] key[i])
}

/// A character of the name of an environment variable.
pub open spec fn variable_char(c: char) -> bool {
    ('a' <= c <= 'z') || ('A' <= c <= 'Z') || ('0' <= c <= '9') || c == '_'
}

/// Checks the name of an environment variable.
pub fn validate_environment_key(key: &str) -> (r: Result<(), ManagerError>)
    ensures
        match r {
            Ok(_) => is_variable(key@),
            Err(e) => !is_variable(key@) && e@ == ManagerErrorView::InvalidConfig(
                "invalid application environment variable name"@,
            ),
        },
{
    let v = text::chars_of(key);
    let mut good = v.len() > 0;
    let mut i: usize = 0;
    while i < v.len()
        invariant
            i <= v@.len(),
            v@ == key@,
            good ==> v@.len() > 0 && forall|j: int| 0 <= j < i ==> variable_char(#[trigger] v@[j]),
            !good ==> !is_variable(key@),
        decreases v@.len() - i,
    {
        let c = v[i];
        if !(('a' <= c && c <= 'z') || ('A' <= c && c <= 'Z') || ('0' <= c && c <= '9') || c == '_') {
            assert(!variable_char(key@[i as int]));
            good = false;
        }
        i += 1;
    }
    if good {
        Ok(())
    } else {
        Err(
            ManagerError::InvalidConfig(text::owned("invalid application environment variable name")),
        )
    }
}

/// The user that an application runs as: as requested, else the one who called.
pub open spec fn launch_user(requested: Seq<char>, caller: Option<Seq<char>>) -> Seq<char> {
    if requested.len() == 0 {
        text::text_or(caller, ""@)
    } else {
        requested
    }
}

/// Why an application is not launched.
pub open spec fn launch_problem(r: AppLaunchRequestView, caller: Option<Seq<char>>) -> Option<
    Seq<char>,
> {
    let user = launch_user(r.user, caller);
    if r.command.len() == 0 {
        Some("application command cannot be empty"@)
    } else if !identity::is_identity(user) {
        Some("invalid Linux user or group name"@)
    } else if user == "root"@ {
        Some("refusing to launch a routed desktop application as root"@)
    } else {
        None
    }
}

/// The user that an application runs as, where it may run.
pub fn check_launch(request: &AppLaunchRequest, caller: &Option<String>) -> (r: Result<
    String,
    ManagerError,
>)
    ensures
        match r {
            Ok(user) => launch_problem(request@, text::opt_text(*caller)) is None && user@
                == launch_user(request@.user, text::opt_text(*caller)),
            Err(e) => launch_problem(request@, text::opt_text(*caller)) is Some && e@
                == ManagerErrorView::InvalidConfig(
                launch_problem(request@, text::opt_text(*caller))->0,
            ),
        },
{
    assert(text::texts(request.command@).len() == request.command@.len());
    if request.command.len() == 0 {
        return Err(ManagerError::InvalidConfig(text::owned("application command cannot be empty")));
    }
    let user = if request.user.as_str().unicode_len() == 0 {
        text::unwrap_text(text::copy_opt(caller), "")
    } else {
        request.user.clone()
    };
    match identity::validate_identity(user.as_str()) {
        Ok(_) => {},
        Err(e) => {
            return Err(e);
        },
    }
    if text::same(user.as_str(), "root") {
        return Err(
            ManagerError::InvalidConfig(
                text::owned("refusing to launch a routed desktop application as root"),
            ),
        );
    }
    Ok(user)
}

/// The account that an application runs as.
#[derive(Debug)]
pub struct LaunchAccount {
    pub uid: u32,
    pub gid: u32,
    pub groups: Vec<u32>,
    pub home: String,
    pub tun_gid: u32,
}

/// The mathematical value of a [`LaunchAccount`].
#[verifier::ext_equal]
pub struct LaunchAccountView {
    pub uid: u32,
    pub gid: u32,
    pub groups: Seq<u32>,
    pub home: Seq<char>,
    pub tun_gid: u32,
}

impl View for LaunchAccount {
    type V = LaunchAccountView;

    open spec fn view(&self) -> LaunchAccountView {
        LaunchAccountView {
            uid: self.uid,
            gid: self.gid,
            groups: self.groups@,
            home: self.home@,
            tun_gid: self.tun_gid,
        }
    }
}

/// The arguments that name the groups.
pub open spec fn group_words(groups: Seq<u32>) -> Seq<Seq<char>>
    decreases groups.len(),
{
    if groups.len() == 0 {
        Seq::empty()
    } else {
        group_words(groups.drop_last()) + seq![
            "--supplementary-gid"@,
            text::decimal(groups.last() as nat),
        ]
    }
}

/// The arguments that set variables, in the order of their names.
pub open spec fn variable_words(
    keys: Seq<Seq<char>>,
    values: Map<Seq<char>, Seq<char>>,
) -> Seq<Seq<char>>
    decreases keys.len(),
{
    if keys.len() == 0 {
        Seq::empty()
    } else {
        variable_words(keys.drop_last(), values) + seq![
            "--env"@,
            keys.last() + "="@ + values[keys.last()],
        ]
    }
}

/// An argument where something holds.
pub open spec fn flag(there: bool, word: Seq<char>) -> Seq<Seq<char>> {
    if there {
        seq![word]
    } else {
        Seq::empty()
    }
}

/// The arguments that say where the application runs.
pub open spec fn directory_words(d: Option<Seq<char>>) -> Seq<Seq<char>> {
    match d {
        Some(d) => seq!["--working-directory"@, d],
        None => Seq::empty(),
    }
}

/// Every variable that a request sets has a valid name.
pub open spec fn valid_variables(env: Map<Seq<char>, Seq<char>>) -> bool {
    forall|k: Seq<char>| #[trigger] env.contains_key(k) ==> is_variable(k)
}

/// The arguments with which the application is entered in a mount namespace of its own.
pub open spec fn routed_words(
    r: AppLaunchRequestView,
    user: Seq<char>,
    a: LaunchAccountView,
    executable: Seq<char>,
) -> Seq<Seq<char>> {
    seq![
        "--mount"@,
        "--fork"@,
        "--kill-child"@,
        "--propagation"@,
        "private"@,
        executable,
        "internal"@,
        "app-enter"@,
        "--uid"@,
        text::decimal(a.uid as nat),
        "--gid"@,
        text::decimal(a.gid as nat),
        "--tun-gid"@,
        text::decimal(a.tun_gid as nat),
        "--user"@,
        user,
        "--home"@,
        a.home,
    ] + group_words(a.groups) + flag(r.override_dns, "--override-dns"@) + flag(
        r.clear_proxy_environment,
        "--clear-proxy-environment"@,
    ) + directory_words(r.working_directory) + variable_words(
        text_map::sorted_keys(r.environment),
        r.environment,
    ) + seq!["--"@] + r.command
}

fn push_word(words: &mut Vec<String>, word: String)
    ensures
        text::texts(final(words)@) == text::texts(old(words)@).push(word@),
{
    proof {
        text::lemma_texts_push(words@, word);
    }
    words.push(word);
}

fn push_groups(words: &mut Vec<String>, groups: &Vec<u32>)
    ensures
        text::texts(final(words)@) == text::texts(old(words)@) + group_words(groups@),
{
    let ghost before = text::texts(words@);
    let mut i: usize = 0;
    assert(groups@.take(0).len() == 0);
    assert(before + group_words(groups@.take(0)) =~= before);
    while i < groups.len()
        invariant
            i <= groups@.len(),
            text::texts(words@) == before + group_words(groups@.take(i as int)),
        decreases groups@.len() - i,
    {
        push_word(words, text::owned("--supplementary-gid"));
        push_word(words, text::decimal_of(groups[i] as u64));
        proof {
            let next = groups@.take(i + 1);
            assert(next.drop_last() =~= groups@.take(i as int));
            assert(text::texts(words@) =~= before + group_words(next));
        }
        i += 1;
    }
    assert(groups@.take(groups@.len() as int) =~= groups@);
}

fn push_variables(words: &mut Vec<String>, env: &TextMap) -> (r: Result<(), ManagerError>)
    ensures
        match r {
            Ok(_) => valid_variables(env@) && text::texts(final(words)@) == text::texts(old(words)@)
                + variable_words(text_map::sorted_keys(env@), env@),
            Err(e) => !valid_variables(env@) && e@ == ManagerErrorView::InvalidConfig(
                "invalid application environment variable name"@,
            ),
        },
{
    let ghost before = text::texts(words@);
    let n = env.len();
    let ghost keys = text_map::sorted_keys(env@);
    let mut i: usize = 0;
    assert(keys.take(0).len() == 0);
    assert(before + variable_words(keys.take(0), env@) =~= before);
    while i < n
        invariant
            n == keys.len(),
            i <= n,
            keys == text_map::sorted_keys(env@),
            text_map::lists_keys(keys, env@),
            forall|j: int| 0 <= j < i ==> is_variable(#[trigger] keys[j]),
            text::texts(words@) == before + variable_words(keys.take(i as int), env@),
        decreases n - i,
    {
        let (key, value) = env.entry(i);
        match validate_environment_key(key.as_str()) {
            Ok(_) => {},
            Err(e) => {
                assert(keys.contains(keys[i as int]));
                assert(env@.contains_key(key@));
                return Err(e);
            },
        }
        push_word(words, text::owned("--env"));
        push_word(words, text::concat3(key.as_str(), "=", value.as_str()));
        proof {
            let next = keys.take(i + 1);
            assert(next.drop_last() =~= keys.take(i as int));
            assert(next.last() == key@);
            assert(text::texts(words@) =~= before + variable_words(next, env@));
        }
        i += 1;
    }
    proof {
        assert(keys.take(n as int) =~= keys);
        assert forall|k: Seq<char>| #[trigger] env@.contains_key(k) implies is_variable(k) by {
            assert(keys.contains(k));
            let j = choose|j: int| 0 <= j < keys.len() && keys[j] == k;
            assert(is_variable(keys[j]));
        }
    }
    Ok(())
}

/// Gives applications a view of the file system of their own.
#[derive(Debug, Clone, Copy)]
pub struct LinuxMountIsolation;

impl LinuxMountIsolation {
    /// Whether that can be done, by the programs that are there.
    pub fn supported(&self, unshare: bool, mount: bool) -> (r: bool)
        ensures
            r == (unshare && mount),
    {
        unshare && mount
    }
}

/// Runs applications through the TUN interface.
#[derive(Debug, Clone, Copy)]
pub struct LinuxAppRunner;

impl LinuxAppRunner {
    /// The command that runs an application through selective TUN routing.
    pub fn routed_command(
        &self,
        request: &AppLaunchRequest,
        user: &str,
        account: &LaunchAccount,
        executable: &str,
    ) -> (r: Result<CommandLine, ManagerError>)
        ensures
            match r {
                Ok(c) => valid_variables(request@.environment) && c@ == commands::line(
                    "unshare"@,
                    routed_words(request@, user@, account@, executable@),
                ),
                Err(e) => !valid_variables(request@.environment) && e@
                    == ManagerErrorView::InvalidConfig(
                    "invalid application environment variable name"@,
                ),
            },
    {
        let uid = text::decimal_of(account.uid as u64);
        let gid = text::decimal_of(account.gid as u64);
        let tun = text::decimal_of(account.tun_gid as u64);
        let mut words = text::own_all(
            vec![
                "--mount",
                "--fork",
                "--kill-child",
                "--propagation",
                "private",
                executable,
                "internal",
                "app-enter",
                "--uid",
                uid.as_str(),
                "--gid",
                gid.as_str(),
                "--tun-gid",
                tun.as_str(),
                "--user",
                user,
                "--home",
                account.home.as_str(),
            ],
        );
        let ghost head = seq![
            "--mount"@,
            "--fork"@,
            "--kill-child"@,
            "--propagation"@,
            "private"@,
            executable@,
            "internal"@,
            "app-enter"@,
            "--uid"@,
            text::decimal(account@.uid as nat),
            "--gid"@,
            text::decimal(account@.gid as nat),
            "--tun-gid"@,
            text::decimal(account@.tun_gid as nat),
            "--user"@,
            user@,
            "--home"@,
            account@.home,
        ];
        assert(text::texts(words@) =~= head);
        push_groups(&mut words, &account.groups);
        let ghost a = text::texts(words@);
        if request.override_dns {
            push_word(&mut words, text::owned("--override-dns"));
        }
        assert(text::texts(words@) =~= a + flag(request@.override_dns, "--override-dns"@));
        let ghost b = text::texts(words@);
        if request.clear_proxy_environment {
            push_word(&mut words, text::owned("--clear-proxy-environment"));
        }
        assert(text::texts(words@) =~= b + flag(
            request@.clear_proxy_environment,
            "--clear-proxy-environment"@,
        ));
        let ghost c = text::texts(words@);
        match &request.working_directory {
            Some(directory) => {
                push_word(&mut words, text::owned("--working-directory"));
                push_word(&mut words, directory.clone());
            },
            None => {},
        }
        assert(text::texts(words@) =~= c + directory_words(request@.working_directory));
        match push_variables(&mut words, &request.environment) {
            Ok(_) => {},
            Err(e) => {
                return Err(e);
            },
        }
        push_word(&mut words, text::owned("--"));
        let ghost d = text::texts(words@);
        let mut rest = text::copy_texts(&request.command);
        let ghost x = words@;
        let ghost y = rest@;
        words.append(&mut rest);
        assert(text::texts(words@) =~= text::texts(x) + text::texts(y));
        assert(text::texts(words@) =~= routed_words(request@, user@, account@, executable@));
        Ok(commands::command("unshare", words))
    }

    /// What shows the address that requests come from.
    pub fn curl_command(&self, request: &AppRouteTestRequest) -> (r: Vec<String>)
        ensures
            text::texts(r@) == curl_words(request@.url, request@.timeout_seconds),
    {
        let seconds: u64 = if request.timeout_seconds == 0 {
            1
        } else {
            request.timeout_seconds
        };
        let limit = text::decimal_of(seconds);
        let r = text::own_all(
            vec![
                "curl",
                "--fail",
                "--silent",
                "--show-error",
                "--ipv4",
                "--noproxy",
                "*",
                "--max-time",
                limit.as_str(),
                request.url.as_str(),
            ],
        );
        assert(text::texts(r@) =~= curl_words(request@.url, request@.timeout_seconds));
        r
    }

    /// The launch with which the route is tested.
    pub fn route_test_launch(&self, request: &AppRouteTestRequest) -> (r: AppLaunchRequest)
        ensures
            r@ == (AppLaunchRequestView {
                command: curl_words(request@.url, request@.timeout_seconds),
                user: request@.user,
                override_dns: request@.override_dns,
                clear_proxy_environment: true,
                working_directory: None,
                environment: Map::empty(),
            }),
    {
        AppLaunchRequest {
            command: self.curl_command(request),
            user: request.user.clone(),
            override_dns: request.override_dns,
            clear_proxy_environment: true,
            working_directory: None,
            environment: TextMap::new(),
        }
    }
}

/// What shows the address that requests come from.
pub open spec fn curl_words(url: Seq<char>, timeout: u64) -> Seq<Seq<char>> {
    seq![
        "curl"@,
        "--fail"@,
        "--silent"@,
        "--show-error"@,
        "--ipv4"@,
        "--noproxy"@,
        "*"@,
        "--max-time"@,
        text::decimal(
            if timeout == 0 {
                1
            } else {
                timeout as nat
            },
        ),
        url,
    ]
}

/// The error of a host without `curl`.
pub fn missing_curl() -> (r: ManagerError)
    ensures
        r@ == (ManagerErrorView::PlatformUnsupported {
            capability: Capability::AppRunner,
            platform: "linux"@,
            backend: Some("linux-gid-mountns"@),
            reason: "route testing requires curl"@,
            recommendation: Some("Install it explicitly: sudo pacman -S --needed curl"@),
        }),
{
    ManagerError::PlatformUnsupported {
        capability: Capability::AppRunner,
        platform: text::owned("linux"),
        backend: Some(text::owned("linux-gid-mountns")),
        reason: text::owned("route testing requires curl"),
        recommendation: Some(text::owned("Install it explicitly: sudo pacman -S --needed curl")),
    }
}

/// Checks that the direct request succeeded.
pub fn check_direct(success: bool) -> (r: Result<(), ManagerError>)
    ensures
        match r {
            Ok(_) => success,
            Err(e) => !success && e@ == ManagerErrorView::Other(
                "direct IP check failed; verify Internet access and the configured endpoint"@,
            ),
        },
{
    if success {
        Ok(())
    } else {
        Err(
            ManagerError::Other(
                text::owned("direct IP check failed; verify Internet access and the configured endpoint"),
            ),
        )
    }
}

/// Checks that the routed request succeeded.
pub fn check_routed(success: bool) -> (r: Result<(), ManagerError>)
    ensures
        match r {
            Ok(_) => success,
            Err(e) => !success && e@ == ManagerErrorView::Other(
                "TUN IP check failed; verify the selective TUN policy and DNS isolation"@,
            ),
        },
{
    if success {
        Ok(())
    } else {
        Err(
            ManagerError::Other(
                text::owned("TUN IP check failed; verify the selective TUN policy and DNS isolation"),
            ),
        )
    }
}

/// The text in which an address is expected.
pub fn external_ip_text(bytes: &[u8], route: &str) -> (r: Result<String, ManagerError>)
    ensures
        match r {
            Ok(s) => vstd::utf8::valid_utf8(bytes@) && s@ == text::trimmed(
                vstd::utf8::decode_utf8(bytes@),
            ),
            Err(e) => !vstd::utf8::valid_utf8(bytes@) && e@ == ManagerErrorView::Validation(
                route@ + " IP check returned non-UTF-8 data"@,
            ),
        },
{
    match outside::utf8_text(bytes) {
        Some(s) => Ok(text::trim(s.as_str())),
        None => Err(
            ManagerError::Validation(text::concat(route, " IP check returned non-UTF-8 data")),
        ),
    }
}

/// The address that was read from the text, where it is one.
pub fn external_ip(parsed: Option<String>, route: &str) -> (r: Result<String, ManagerError>)
    ensures
        match r {
            Ok(s) => parsed matches Some(p) && s@ == p@,
            Err(e) => parsed is None && e@ == ManagerErrorView::Validation(
                route@ + " IP check returned an invalid IP address"@,
            ),
        },
{
    match parsed {
        Some(s) => Ok(s),
        None => Err(
            ManagerError::Validation(text::concat(route, " IP check returned an invalid IP address")),
        ),
    }
}

/// What the test of a route comes to: the two addresses must differ.
pub fn compare_routes(direct: &str, routed: &str) -> (r: Result<AppRouteTestResult, ManagerError>)
    ensures
        match r {
            Ok(t) => direct@ != routed@ && t@ == (AppRouteTestResultView {
                direct_ip: direct@,
                routed_ip: routed@,
                routes_differ: true,
            }),
            Err(e) => direct@ == routed@ && e@ == ManagerErrorView::Validation(
                "selective route test failed: direct and TUN IP are both "@ + direct@,
            ),
        },
{
    if text::same(direct, routed) {
        return Err(
            ManagerError::Validation(
                text::concat("selective route test failed: direct and TUN IP are both ", direct),
            ),
        );
    }
    Ok(AppRouteTestResult { direct_ip: text::owned(direct), routed_ip: text::owned(routed), routes_differ: true })
}

/// What runs inside the mount namespace.
#[derive(Debug)]
pub struct AppNamespaceRequest {
    pub uid: u32,
    pub gid: u32,
    pub tun_gid: u32,
    pub user: String,
    pub home: String,
    pub supplementary_gids: Vec<u32>,
    pub override_dns: bool,
    pub clear_proxy_environment: bool,
    pub working_directory: Option<String>,
    pub environment: Vec<String>,
    pub command: Vec<String>,
}

/// The mathematical value of a [`AppNamespaceRequest`].
#[verifier::ext_equal]
pub struct AppNamespaceRequestView {
    pub uid: u32,
    pub gid: u32,
    pub tun_gid: u32,
    pub user: Seq<char>,
    pub home: Seq<char>,
    pub supplementary_gids: Seq<u32>,
    pub override_dns: bool,
    pub clear_proxy_environment: bool,
    pub working_directory: Option<Seq<char>>,
    pub environment: Seq<Seq<char>>,
    pub command: Seq<Seq<char>>,
}

impl View for AppNamespaceRequest {
    type V = AppNamespaceRequestView;

    open spec fn view(&self) -> AppNamespaceRequestView {
        AppNamespaceRequestView {
            uid: self.uid,
            gid: self.gid,
            tun_gid: self.tun_gid,
            user: self.user@,
            home: self.home@,
            supplementary_gids: self.supplementary_gids@,
            override_dns: self.override_dns,
            clear_proxy_environment: self.clear_proxy_environment,
            working_directory: text::opt_text(self.working_directory),
            environment: text::texts(self.environment@),
            command: text::texts(self.command@),
        }
    }
}

/// A variable that is set, or removed where it has no value.
#[derive(Debug)]
pub struct EnvironmentChange {
    pub key: String,
    pub value: Option<String>,
}

/// The mathematical value of a [`EnvironmentChange`].
#[verifier::ext_equal]
pub struct EnvironmentChangeView {
    pub key: Seq<char>,
    pub value: Option<Seq<char>>,
}

impl View for EnvironmentChange {
    type V = EnvironmentChangeView;

    open spec fn view(&self) -> EnvironmentChangeView {
        EnvironmentChangeView {
            key: self.key@,
            value: text::opt_text(self.value),
        }
    }
}

pub open spec fn environment_change_views(v: Seq<EnvironmentChange>) -> Seq<EnvironmentChangeView> {
    v.map_values(|x: EnvironmentChange| x@)
}

pub broadcast proof fn lemma_environment_change_views_push(v: Seq<EnvironmentChange>, x: EnvironmentChange)
    ensures
        #[trigger] environment_change_views(v.push(x)) == environment_change_views(v).push(x@),
{
    assert(environment_change_views(v.push(x)) =~= environment_change_views(v).push(x@));
}

/// Checks that there is something to run.
pub fn check_command(command: &Vec<String>) -> (r: Result<(), ManagerError>)
    ensures
        match r {
            Ok(_) => text::texts(command@).len() > 0,
            Err(e) => text::texts(command@).len() == 0 && e@ == ManagerErrorView::InvalidConfig(
                "application command cannot be empty"@,
            ),
        },
{
    assert(text::texts(command@).len() == command@.len());
    if command.len() == 0 {
        Err(ManagerError::InvalidConfig(text::owned("application command cannot be empty")))
    } else {
        Ok(())
    }
}

/// The resolver configuration that names the servers.
pub open spec fn resolver_text(servers: Seq<Seq<char>>) -> Seq<char>
    decreases servers.len(),
{
    if servers.len() == 0 {
        Seq::empty()
    } else {
        resolver_text(servers.drop_last()) + ("nameserver "@ + servers.last() + "\n"@)
    }
}

/// The resolver configuration inside the namespace.
pub fn resolv_conf(config: &ManagerConfig) -> (r: String)
    ensures
        r@ == resolver_text(
            config@.dns.tun_servers.map_values(|s: IpAddressView| s.text()),
        ),
{
    let ghost all = config@.dns.tun_servers.map_values(|s: IpAddressView| s.text());
    let mut r = String::new();
    let mut i: usize = 0;
    assert(all.take(0).len() == 0);
    assert(r@ =~= resolver_text(all.take(0)));
    while i < config.dns.tun_servers.len()
        invariant
            i <= config.dns.tun_servers@.len(),
            all == config@.dns.tun_servers.map_values(|s: IpAddressView| s.text()),
            r@ == resolver_text(all.take(i as int)),
        decreases config.dns.tun_servers@.len() - i,
    {
        let address = config.dns.tun_servers[i].text();
        let server = address.as_str();
        proof {
            assert(config@.dns.tun_servers[i as int] == config.dns.tun_servers@[i as int]@);
            assert(all[i as int] == server@);
            assert(all.take(i + 1).drop_last() =~= all.take(i as int));
            assert(all.take(i + 1).last() == server@);
        }
        let text = text::concat3("nameserver ", server, "\n");
        r.append(text.as_str());
        i += 1;
    }
    assert(all.take(all.len() as int) =~= all);
    r
}

/// The list is in order, each number once.
pub open spec fn ascending(v: Seq<u32>) -> bool {
    forall|i: int, j: int| 0 <= i < j < v.len() ==> #[trigger] v[i] < #[trigger] v[j]
}

fn insert_number(v: &mut Vec<u32>, n: u32)
    requires
        ascending(old(v)@),
    ensures
        ascending(final(v)@),
        forall|x: u32| #[trigger] final(v)@.contains(x) <==> old(v)@.contains(x) || x == n,
{
    let ghost before = v@;
    let mut i: usize = 0;
    while i < v.len() && v[i] < n
        invariant
            i <= v@.len(),
            v@ == before,
            forall|j: int| 0 <= j < i ==> #[trigger] v@[j] < n,
        decreases v@.len() - i,
    {
        i += 1;
    }
    if i < v.len() && v[i] == n {
        assert(before[i as int] == n);
        return;
    }
    v.insert(i, n);
    proof {
        let after = v@;
        assert(after =~= before.insert(i as int, n));
        assert forall|a: int, b: int| 0 <= a < b < after.len() implies #[trigger] after[a]
            < #[trigger] after[b] by {
            let x = if a < i {
                a
            } else {
                a - 1
            };
            let y = if b < i {
                b
            } else {
                b - 1
            };
            if a < i {
                assert(after[a] == before[a]);
            }
            if b > i {
                assert(after[b] == before[b - 1]);
            }
            if a > i {
                assert(after[a] == before[a - 1]);
                assert(before[a - 1] < before[b - 1]);
            } else if a == i && b > i {
                if b - 1 > i {
                    assert(before[i as int] < before[b - 1]);
                }
            } else if a < i && b > i {
                if a < b - 1 {
                    assert(before[a] < before[b - 1]);
                }
            } else if a < i && b < i {
                assert(after[b] == before[b]);
                assert(before[a] < before[b]);
            }
        }
        assert forall|x: u32| #[trigger] after.contains(x) <==> before.contains(x) || x == n by {
            if after.contains(x) {
                let k = choose|k: int| 0 <= k < after.len() && after[k] == x;
                if k < i {
                    assert(before[k] == x);
                } else if k > i {
                    assert(before[k - 1] == x);
                }
            }
            if before.contains(x) {
                let k = choose|k: int| 0 <= k < before.len() && before[k] == x;
                if k < i {
                    assert(after[k] == x);
                } else {
                    assert(after[k + 1] == x);
                }
            }
            assert(after[i as int] == n);
        }
    }
}

/// The groups of the application: those of the user and the routed one, each once.
pub fn namespace_groups(request: &AppNamespaceRequest) -> (r: Vec<u32>)
    ensures
        ascending(r@),
        forall|x: u32| #[trigger]
            r@.contains(x) <==> request@.supplementary_gids.contains(x) || x == request@.gid || x
                == request@.tun_gid,
{
    let mut r: Vec<u32> = Vec::new();
    let ghost all = request@.supplementary_gids;
    let mut i: usize = 0;
    while i < request.supplementary_gids.len()
        invariant
            i <= request.supplementary_gids@.len(),
            all == request.supplementary_gids@,
            ascending(r@),
            forall|x: u32| #[trigger] r@.contains(x) <==> all.take(i as int).contains(x),
        decreases request.supplementary_gids@.len() - i,
    {
        let n: u32 = request.supplementary_gids[i];
        insert_number(&mut r, n);
        proof {
            assert forall|x: u32| #[trigger] r@.contains(x) <==> all.take(i + 1).contains(x) by {
                let t = all.take(i as int);
                let u = all.take(i + 1);
                if t.contains(x) {
                    let k = choose|k: int| 0 <= k < t.len() && t[k] == x;
                    assert(u[k] == x);
                }
                if u.contains(x) {
                    let k = choose|k: int| 0 <= k < u.len() && u[k] == x;
                    if k < i {
                        assert(t[k] == x);
                    }
                }
                assert(u[i as int] == n);
            }
        }
        i += 1;
    }
    assert(all.take(all.len() as int) =~= all);
    insert_number(&mut r, request.gid);
    insert_number(&mut r, request.tun_gid);
    r
}

/// Setting a variable.
pub open spec fn set_to(key: Seq<char>, value: Seq<char>) -> EnvironmentChangeView {
    EnvironmentChangeView { key, value: Some(value) }
}

/// Removing a variable.
pub open spec fn unset(key: Seq<char>) -> EnvironmentChangeView {
    EnvironmentChangeView { key, value: None }
}

/// The changes that pairs of a name and a value make, or why they are refused.
pub open spec fn pair_changes(pairs: Seq<Seq<char>>) -> Result<Seq<EnvironmentChangeView>, Seq<char>>
    decreases pairs.len(),
{
    if pairs.len() == 0 {
        Ok(Seq::empty())
    } else {
        match pair_changes(pairs.drop_last()) {
            Err(e) => Err(e),
            Ok(v) => match text::cut_first(pairs.last(), '=') {
                None => Err("application environment must use KEY=VALUE"@),
                Some((key, value)) => if is_variable(key) {
                    Ok(v.push(set_to(key, value)))
                } else {
                    Err("invalid application environment variable name"@)
                },
            },
        }
    }
}

/// The changes of the environment that do not come from pairs.
pub open spec fn base_changes(r: AppNamespaceRequestView, runtime: bool) -> Seq<
    EnvironmentChangeView,
> {
    let directory = "/run/user/"@ + text::decimal(r.uid as nat);
    seq![set_to("HOME"@, r.home), set_to("USER"@, r.user), set_to("LOGNAME"@, r.user)] + (
    if runtime {
        seq![
            set_to("XDG_RUNTIME_DIR"@, directory),
            set_to("DBUS_SESSION_BUS_ADDRESS"@, "unix:path="@ + directory + "/bus"@),
        ]
    } else {
        Seq::empty()
    }) + (if r.clear_proxy_environment {
        seq![
            unset("HTTP_PROXY"@),
            unset("HTTPS_PROXY"@),
            unset("ALL_PROXY"@),
            unset("NO_PROXY"@),
            unset("http_proxy"@),
            unset("https_proxy"@),
            unset("all_proxy"@),
            unset("no_proxy"@),
        ]
    } else {
        Seq::empty()
    })
}

fn push_change(list: &mut Vec<EnvironmentChange>, key: &str, value: Option<String>)
    ensures
        environment_change_views(final(list)@) == environment_change_views(old(list)@).push(
            EnvironmentChangeView { key: key@, value: text::opt_text(value) },
        ),
{
    let change = EnvironmentChange { key: text::owned(key), value };
    proof {
        lemma_environment_change_views_push(list@, change);
    }
    list.push(change);
}

fn make_base(request: &AppNamespaceRequest, runtime: bool) -> (r: Vec<EnvironmentChange>)
    ensures
        environment_change_views(r@) == base_changes(request@, runtime),
{
    let mut list: Vec<EnvironmentChange> = Vec::new();
    assert(environment_change_views(list@) =~= Seq::empty());
    push_change(&mut list, "HOME", Some(request.home.clone()));
    push_change(&mut list, "USER", Some(request.user.clone()));
    push_change(&mut list, "LOGNAME", Some(request.user.clone()));
    if runtime {
        let directory = text::concat("/run/user/", text::decimal_of(request.uid as u64).as_str());
        let bus = text::concat3("unix:path=", directory.as_str(), "/bus");
        push_change(&mut list, "XDG_RUNTIME_DIR", Some(directory));
        push_change(&mut list, "DBUS_SESSION_BUS_ADDRESS", Some(bus));
    }
    if request.clear_proxy_environment {
        push_change(&mut list, "HTTP_PROXY", None);
        push_change(&mut list, "HTTPS_PROXY", None);
        push_change(&mut list, "ALL_PROXY", None);
        push_change(&mut list, "NO_PROXY", None);
        push_change(&mut list, "http_proxy", None);
        push_change(&mut list, "https_proxy", None);
        push_change(&mut list, "all_proxy", None);
        push_change(&mut list, "no_proxy", None);
    }
    assert(environment_change_views(list@) =~= base_changes(request@, runtime));
    list
}

proof fn lemma_pair_error(pairs: Seq<Seq<char>>, n: int, e: Seq<char>)
    requires
        0 <= n <= pairs.len(),
        pair_changes(pairs.take(n)) == Err::<Seq<EnvironmentChangeView>, Seq<char>>(e),
    ensures
        pair_changes(pairs) == Err::<Seq<EnvironmentChangeView>, Seq<char>>(e),
    decreases pairs.len() - n,
{
    if n == pairs.len() {
        assert(pairs.take(n) =~= pairs);
    } else {
        assert(pairs.take(n + 1).drop_last() =~= pairs.take(n));
        lemma_pair_error(pairs, n + 1, e);
    }
}

/// The changes of the environment of the application; `runtime` says whether
/// the user has a runtime directory.
pub fn namespace_environment(request: &AppNamespaceRequest, runtime: bool) -> (r: Result<
    Vec<EnvironmentChange>,
    ManagerError,
>)
    ensures
        match r {
            Ok(v) => pair_changes(request@.environment) matches Ok(p)
                && environment_change_views(v@) == base_changes(request@, runtime) + p,
            Err(e) => pair_changes(request@.environment) matches Err(m) && e@
                == ManagerErrorView::InvalidConfig(m),
        },
{
    let mut list = make_base(request, runtime);
    let ghost base = environment_change_views(list@);
    let ghost all = request@.environment;
    let mut i: usize = 0;
    assert(all.take(0).len() == 0);
    assert(base + Seq::<EnvironmentChangeView>::empty() =~= base);
    while i < request.environment.len()
        invariant
            i <= request.environment@.len(),
            all == request@.environment,
            all == text::texts(request.environment@),
            pair_changes(all.take(i as int)) is Ok,
            environment_change_views(list@) == base + pair_changes(all.take(i as int))->Ok_0,
        decreases request.environment@.len() - i,
    {
        let pair = request.environment[i].as_str();
        let ghost before = pair_changes(all.take(i as int))->Ok_0;
        proof {
            assert(all[i as int] == pair@);
            assert(all.take(i + 1).drop_last() =~= all.take(i as int));
            assert(all.take(i + 1).last() == pair@);
        }
        let (key, value) = match text::split_once(pair, '=') {
            Some(both) => both,
            None => {
                proof {
                    lemma_pair_error(all, i + 1, "application environment must use KEY=VALUE"@);
                }
                return Err(
                    ManagerError::InvalidConfig(text::owned("application environment must use KEY=VALUE")),
                );
            },
        };
        match validate_environment_key(key.as_str()) {
            Ok(_) => {},
            Err(e) => {
                proof {
                    lemma_pair_error(
                        all,
                        i + 1,
                        "invalid application environment variable name"@,
                    );
                }
                return Err(e);
            },
        }
        push_change(&mut list, key.as_str(), Some(value));
        assert((base + before).push(set_to(key@, value@)) =~= base + before.push(
            set_to(key@, value@),
        ));
        i += 1;
    }
    assert(all.take(all.len() as int) =~= all);
    Ok(list)
}

/// What an environment becomes by changes in order.
pub open spec fn environment_after(
    env: Map<Seq<char>, Seq<char>>,
    changes: Seq<EnvironmentChangeView>,
) -> Map<Seq<char>, Seq<char>>
    decreases changes.len(),
{
    if changes.len() == 0 {
        env
    } else {
        let before = environment_after(env, changes.drop_last());
        match changes.last().value {
            Some(v) => before.insert(changes.last().key, v),
            None => before.remove(changes.last().key),
        }
    }
}

proof fn lemma_after_concat(
    env: Map<Seq<char>, Seq<char>>,
    a: Seq<EnvironmentChangeView>,
    b: Seq<EnvironmentChangeView>,
)
    ensures
        environment_after(env, a + b) == environment_after(environment_after(env, a), b),
    decreases b.len(),
{
    if b.len() == 0 {
        assert(a + b =~= a);
    } else {
        assert((a + b).drop_last() =~= a + b.drop_last());
        assert((a + b).last() == b.last());
        lemma_after_concat(env, a, b.drop_last());
    }
}

proof fn lemma_only_set(
    env: Map<Seq<char>, Seq<char>>,
    pairs: Seq<Seq<char>>,
    key: Seq<char>,
)
    requires
        pair_changes(pairs) is Ok,
        !env.contains_key(key),
        forall|i: int|
            0 <= i < pairs.len() ==> (text::cut_first(#[trigger] pairs[i], '=')->0).0 != key,
    ensures
        !environment_after(env, pair_changes(pairs)->Ok_0).contains_key(key),
    decreases pairs.len(),
{
    if pairs.len() > 0 {
        let rest = pairs.drop_last();
        assert forall|i: int| 0 <= i < rest.len() implies (text::cut_first(
            #[trigger] rest[i],
            '=',
        )->0).0 != key by {
            assert(rest[i] == pairs[i]);
        }
        lemma_only_set(env, rest, key);
        let all = pair_changes(pairs)->Ok_0;
        assert(all.drop_last() =~= pair_changes(rest)->Ok_0);
        assert(pairs[pairs.len() - 1] == pairs.last());
    }
}

/// Where proxy variables are cleared, the application sees one only if it is
/// set for it by name.
pub proof fn law_no_inherited_proxy(
    env: Map<Seq<char>, Seq<char>>,
    r: AppNamespaceRequestView,
    runtime: bool,
    key: Seq<char>,
)
    requires
        r.clear_proxy_environment,
        ports::proxy_variables().contains(key),
        pair_changes(r.environment) is Ok,
        forall|i: int|
            0 <= i < r.environment.len() ==> (text::cut_first(#[trigger] r.environment[i], '=')->0).0 != key,
    ensures
        !environment_after(
            env,
            base_changes(r, runtime) + pair_changes(r.environment)->Ok_0,
        ).contains_key(key),
{
    let base = base_changes(r, runtime);
    lemma_after_concat(env, base, pair_changes(r.environment)->Ok_0);
    let clears = seq![
        unset("HTTP_PROXY"@),
        unset("HTTPS_PROXY"@),
        unset("ALL_PROXY"@),
        unset("NO_PROXY"@),
        unset("http_proxy"@),
        unset("https_proxy"@),
        unset("all_proxy"@),
        unset("no_proxy"@),
    ];
    let head = base.take(base.len() - 8);
    assert(base =~= head + clears);
    lemma_after_concat(env, head, clears);
    let m = environment_after(env, head);
    reveal_with_fuel(environment_after, 9);
    assert(environment_after(m, clears) =~= m.remove("HTTP_PROXY"@).remove("HTTPS_PROXY"@).remove(
        "ALL_PROXY"@,
    ).remove("NO_PROXY"@).remove("http_proxy"@).remove("https_proxy"@).remove(
        "all_proxy"@,
    ).remove("no_proxy"@));
    assert(!environment_after(env, base).contains_key(key));
    lemma_only_set(environment_after(env, base), r.environment, key);
}

} // verus!
