//! The checks of the doctor.

use crate::config::{AssetConfig, AssetConfigView};
use crate::dto::{CheckStatus, DoctorCheckDto, DoctorCheckDtoView};
use crate::ports::{
    CapabilityStatus, CapabilityStatusView, ManagerPaths, ManagerPathsView, PlatformInfo,
    PlatformInfoView,
};
use crate::config;
use crate::domain;
use crate::dto;
use crate::ports;
use crate::queries;
use crate::text;
use vstd::prelude::*;

verus! {

/// What is known of the required packages.
#[derive(Debug)]
pub enum PackageFacts {
    Known { missing: Vec<String>, hint: Option<String> },
    Unavailable,
}

/// The mathematical value of a [`PackageFacts`].
#[verifier::ext_equal]
pub enum PackageFactsView {
    Known { missing: Seq<Seq<char>>, hint: Option<Seq<char>> },
    Unavailable,
}

impl View for PackageFacts {
    type V = PackageFactsView;

    open spec fn view(&self) -> PackageFactsView {
        match *self {
            PackageFacts::Known { missing, hint } => PackageFactsView::Known { missing: text::texts(missing@), hint: text::opt_text(hint) },
            PackageFacts::Unavailable => PackageFactsView::Unavailable,
        }
    }
}

/// What was found of the TUN rules.
#[derive(Debug)]
pub struct TunFacts {
    pub interface_active: bool,
    pub firewall_present: bool,
    pub policy: String,
}

/// The mathematical value of a [`TunFacts`].
#[verifier::ext_equal]
pub struct TunFactsView {
    pub interface_active: bool,
    pub firewall_present: bool,
    pub policy: Seq<char>,
}

impl View for TunFacts {
    type V = TunFactsView;

    open spec fn view(&self) -> TunFactsView {
        TunFactsView {
            interface_active: self.interface_active,
            firewall_present: self.firewall_present,
            policy: self.policy@,
        }
    }
}

pub open spec fn opt_tun_facts(o: Option<TunFacts>) -> Option<TunFactsView> {
    match o {
        Some(x) => Some(x@),
        None => None,
    }
}

/// What a thorough examination found. A fact that was not looked for is absent.
#[derive(Debug)]
pub struct DeepFacts {
    pub packages: PackageFacts,
    pub service_active: Option<bool>,
    pub missing_paths: Vec<String>,
    pub config_valid: Option<bool>,
    pub healthy: Option<bool>,
    pub tun: Option<TunFacts>,
}

/// The mathematical value of a [`DeepFacts`].
#[verifier::ext_equal]
pub struct DeepFactsView {
    pub packages: PackageFactsView,
    pub service_active: Option<bool>,
    pub missing_paths: Seq<Seq<char>>,
    pub config_valid: Option<bool>,
    pub healthy: Option<bool>,
    pub tun: Option<TunFactsView>,
}

impl View for DeepFacts {
    type V = DeepFactsView;

    open spec fn view(&self) -> DeepFactsView {
        DeepFactsView {
            packages: self.packages@,
            service_active: self.service_active,
            missing_paths: text::texts(self.missing_paths@),
            config_valid: self.config_valid,
            healthy: self.healthy,
            tun: opt_tun_facts(self.tun),
        }
    }
}

pub open spec fn opt_deep_facts(o: Option<DeepFacts>) -> Option<DeepFactsView> {
    match o {
        Some(x) => Some(x@),
        None => None,
    }
}

/// A check with its remedy.
pub open spec fn check(
    id: Seq<char>,
    status: CheckStatus,
    message: Seq<char>,
    remediation: Option<Seq<char>>,
) -> DoctorCheckDtoView {
    DoctorCheckDtoView { id, status, message, remediation }
}

fn make_check(id: &str, status: CheckStatus, message: &str, remediation: Option<String>) -> (r: DoctorCheckDto)
    ensures
        r@ == check(id@, status, message@, text::opt_text(remediation)),
{
    DoctorCheckDto { id: text::owned(id), status, message: text::owned(message), remediation }
}

/// A status of a check that passes or else fails as `otherwise`.
pub open spec fn passes(ok: bool, otherwise: CheckStatus) -> CheckStatus {
    if ok {
        CheckStatus::Pass
    } else {
        otherwise
    }
}

/// A remedy where one is needed.
pub open spec fn remedy(needed: bool, s: Seq<char>) -> Option<Seq<char>> {
    if needed {
        Some(s)
    } else {
        None
    }
}

fn make_remedy(needed: bool, s: &str) -> (r: Option<String>)
    ensures
        text::opt_text(r) == remedy(needed, s@),
{
    if needed {
        Some(text::owned(s))
    } else {
        None
    }
}

pub open spec fn all_supported(statuses: Seq<CapabilityStatusView>) -> bool {
    forall|i: int| 0 <= i < statuses.len() ==> (#[trigger] statuses[i]).supported
}

fn are_supported(statuses: &Vec<CapabilityStatus>) -> (r: bool)
    ensures
        r == all_supported(ports::capability_status_views(statuses@)),
{
    let ghost views = ports::capability_status_views(statuses@);
    let mut i: usize = 0;
    while i < statuses.len()
        invariant
            i <= statuses@.len(),
            views == ports::capability_status_views(statuses@),
            forall|j: int| 0 <= j < i ==> (#[trigger] views[j]).supported,
        decreases statuses@.len() - i,
    {
        assert(views[i as int] == statuses@[i as int]@);
        if !statuses[i].supported {
            return false;
        }
        i += 1;
    }
    true
}

/// The checks that are always made.
pub open spec fn quick_checks(
    statuses: Seq<CapabilityStatusView>,
    platform: PlatformInfoView,
    elevated: bool,
) -> Seq<DoctorCheckDtoView> {
    let supported = all_supported(statuses);
    seq![
        check(
            "platform-backends"@,
            passes(supported, CheckStatus::Warn),
            "platform capability discovery completed"@,
            remedy(
                !supported,
                "satisfy backend requirements or select another compiled backend"@,
            ),
        ),
        check("configuration"@, CheckStatus::Pass, "configuration is valid"@, None),
        check(
            "platform"@,
            CheckStatus::Pass,
            platform.os + " / "@ + text::text_or(platform.distribution, "unknown"@) + " / "@ + text::text_or(
                platform.init_system,
                "unknown"@,
            ),
            None,
        ),
        check(
            "privileges"@,
            passes(elevated, CheckStatus::Warn),
            if elevated {
                "running with administrative privileges"@
            } else {
                "running without administrative privileges"@
            },
            remedy(!elevated, "elevate only when executing a privileged system operation"@),
        ),
    ]
}

/// The check of the required packages.
pub open spec fn packages_check(p: PackageFactsView) -> DoctorCheckDtoView {
    match p {
        PackageFactsView::Known { missing, hint } => check(
            "packages"@,
            passes(missing.len() == 0, CheckStatus::Fail),
            if missing.len() == 0 {
                "required platform commands are installed"@
            } else {
                "missing commands: "@ + text::joined(missing, ", "@)
            },
            hint,
        ),
        PackageFactsView::Unavailable => check(
            "packages"@,
            CheckStatus::Warn,
            "package advice is unavailable"@,
            None,
        ),
    }
}

/// The check of the service.
pub open spec fn service_check(active: Option<bool>) -> DoctorCheckDtoView {
    check(
        "xray-service"@,
        match active {
            Some(true) => CheckStatus::Pass,
            Some(false) => CheckStatus::Fail,
            None => CheckStatus::Warn,
        },
        "service state checked"@,
        Some("run `sudo xrayctl repair` if the service is unavailable"@),
    )
}

/// The check of the installed files.
pub open spec fn layout_check(missing: Seq<Seq<char>>) -> DoctorCheckDtoView {
    check(
        "installed-layout"@,
        passes(missing.len() == 0, CheckStatus::Fail),
        if missing.len() == 0 {
            "core, configuration, and assets are present"@
        } else {
            "missing paths: "@ + text::joined(missing, ", "@)
        },
        remedy(missing.len() > 0, "run `sudo xrayctl repair`"@),
    )
}

/// The check of the installed configuration.
pub open spec fn config_check(valid: bool) -> DoctorCheckDtoView {
    check(
        "xray-config"@,
        passes(valid, CheckStatus::Fail),
        if valid {
            "installed Xray configuration is valid"@
        } else {
            "installed Xray configuration validation failed"@
        },
        remedy(!valid, "run `sudo xrayctl repair` and inspect the previous generation"@),
    )
}

/// The check of the proxy.
pub open spec fn health_check(healthy: bool) -> DoctorCheckDtoView {
    check(
        "proxy-health"@,
        passes(healthy, CheckStatus::Fail),
        if healthy {
            "SOCKS and HTTP proxy healthchecks succeeded"@
        } else {
            "proxy healthcheck failed"@
        },
        remedy(!healthy, "inspect `xrayctl service logs` and roll back"@),
    )
}

/// The check of the TUN rules: passed only if the interface and the firewall
/// are there and the routes fail closed.
pub open spec fn tun_check(t: TunFactsView) -> DoctorCheckDtoView {
    let closed = queries::fails_closed(t.policy);
    let ok = t.interface_active && t.firewall_present && closed;
    check(
        "selective-tun"@,
        passes(ok, CheckStatus::Fail),
        "interface="@ + domain::shown_bool(t.interface_active) + ", firewall="@ + domain::shown_bool(
            t.firewall_present,
        ) + ", fail_closed="@ + domain::shown_bool(closed),
        remedy(!ok, "run `sudo xrayctl tun cleanup`, then `sudo xrayctl tun enable`"@),
    )
}

pub open spec fn optional_check(c: Option<DoctorCheckDtoView>) -> Seq<DoctorCheckDtoView> {
    match c {
        Some(x) => seq![x],
        None => Seq::empty(),
    }
}

/// Whether the installed configuration is tested: only where nothing is missing.
pub open spec fn config_is_tested(missing: Seq<Seq<char>>) -> bool {
    missing.len() == 0
}

/// Whether the proxy is tested: only where the service runs a selected node.
pub open spec fn health_is_tested(service_active: Option<bool>, selected: bool) -> bool {
    service_active == Some(true) && selected
}

/// What was found of the TUN rules; where nothing was, none of them is there.
pub open spec fn found_rules(t: Option<TunFactsView>) -> TunFactsView {
    match t {
        Some(t) => t,
        None => TunFactsView {
            interface_active: false,
            firewall_present: false,
            policy: Seq::empty(),
        },
    }
}

/// The checks of a thorough examination. The configuration is checked exactly
/// where no path is missing, the proxy where the service runs a selected node,
/// and the TUN rules where TUN is enabled. What was not found out has failed.
pub open spec fn deep_checks(f: DeepFactsView, tun_enabled: bool, selected: bool) -> Seq<
    DoctorCheckDtoView,
> {
    seq![
        packages_check(f.packages),
        service_check(f.service_active),
        layout_check(f.missing_paths),
    ] + optional_check(
        if config_is_tested(f.missing_paths) {
            Some(config_check(f.config_valid == Some(true)))
        } else {
            None
        },
    ) + optional_check(
        if health_is_tested(f.service_active, selected) {
            Some(health_check(f.healthy == Some(true)))
        } else {
            None
        },
    ) + optional_check(
        if tun_enabled {
            Some(tun_check(found_rules(f.tun)))
        } else {
            None
        },
    )
}

/// All checks; the thorough ones where they were asked for.
pub open spec fn all_checks(
    statuses: Seq<CapabilityStatusView>,
    platform: PlatformInfoView,
    elevated: bool,
    deep: Option<DeepFactsView>,
    tun_enabled: bool,
    selected: bool,
) -> Seq<DoctorCheckDtoView> {
    quick_checks(statuses, platform, elevated) + match deep {
        Some(f) => deep_checks(f, tun_enabled, selected),
        None => Seq::empty(),
    }
}

fn status_of(ok: bool, otherwise: CheckStatus) -> (r: CheckStatus)
    ensures
        r == passes(ok, otherwise),
{
    if ok {
        CheckStatus::Pass
    } else {
        otherwise
    }
}

fn show_bool(b: bool) -> (r: &'static str)
    ensures
        r@ == domain::shown_bool(b),
{
    if b {
        "true"
    } else {
        "false"
    }
}

fn push_quick(
    checks: &mut Vec<DoctorCheckDto>,
    statuses: &Vec<CapabilityStatus>,
    platform: &PlatformInfo,
    elevated: bool,
)
    requires
        old(checks)@.len() == 0,
    ensures
        dto::doctor_check_dto_views(final(checks)@) == quick_checks(
            ports::capability_status_views(statuses@),
            platform@,
            elevated,
        ),
{
    let supported = are_supported(statuses);
    checks.push(
        make_check(
            "platform-backends",
            status_of(supported, CheckStatus::Warn),
            "platform capability discovery completed",
            make_remedy(
                !supported,
                "satisfy backend requirements or select another compiled backend",
            ),
        ),
    );
    checks.push(make_check("configuration", CheckStatus::Pass, "configuration is valid", None));
    let mut host = text::concat(platform.os.as_str(), " / ");
    host.append(text::unwrap_text(text::copy_opt(&platform.distribution), "unknown").as_str());
    host.append(" / ");
    host.append(text::unwrap_text(text::copy_opt(&platform.init_system), "unknown").as_str());
    checks.push(make_check("platform", CheckStatus::Pass, host.as_str(), None));
    checks.push(
        make_check(
            "privileges",
            status_of(elevated, CheckStatus::Warn),
            if elevated {
                "running with administrative privileges"
            } else {
                "running without administrative privileges"
            },
            make_remedy(!elevated, "elevate only when executing a privileged system operation"),
        ),
    );
    assert(dto::doctor_check_dto_views(checks@) =~= quick_checks(
        ports::capability_status_views(statuses@),
        platform@,
        elevated,
    ));
}

fn check_packages(p: &PackageFacts) -> (r: DoctorCheckDto)
    ensures
        r@ == packages_check(p@),
{
    match p {
        PackageFacts::Known { missing, hint } => {
            assert(text::texts(missing@).len() == missing@.len());
            let none = missing.len() == 0;
            let message = if none {
                text::owned("required platform commands are installed")
            } else {
                text::concat("missing commands: ", text::join(missing, ", ").as_str())
            };
            make_check(
                "packages",
                status_of(none, CheckStatus::Fail),
                message.as_str(),
                text::copy_opt(hint),
            )
        },
        PackageFacts::Unavailable => make_check(
            "packages",
            CheckStatus::Warn,
            "package advice is unavailable",
            None,
        ),
    }
}

fn check_tun(t: &TunFacts) -> (r: DoctorCheckDto)
    ensures
        r@ == tun_check(t@),
{
    let closed = queries::is_fail_closed(t.policy.as_str());
    let ok = t.interface_active && t.firewall_present && closed;
    let mut message = text::concat("interface=", show_bool(t.interface_active));
    message.append(", firewall=");
    message.append(show_bool(t.firewall_present));
    message.append(", fail_closed=");
    message.append(show_bool(closed));
    make_check(
        "selective-tun",
        status_of(ok, CheckStatus::Fail),
        message.as_str(),
        make_remedy(!ok, "run `sudo xrayctl tun cleanup`, then `sudo xrayctl tun enable`"),
    )
}

fn push_deep(
    checks: &mut Vec<DoctorCheckDto>,
    f: &DeepFacts,
    tun_enabled: bool,
    selected: bool,
)
    ensures
        dto::doctor_check_dto_views(final(checks)@) == dto::doctor_check_dto_views(old(checks)@)
            + deep_checks(f@, tun_enabled, selected),
{
    let ghost before = dto::doctor_check_dto_views(checks@);
    checks.push(check_packages(&f.packages));
    checks.push(
        make_check(
            "xray-service",
            match f.service_active {
                Some(active) => status_of(active, CheckStatus::Fail),
                None => CheckStatus::Warn,
            },
            "service state checked",
            Some(text::owned("run `sudo xrayctl repair` if the service is unavailable")),
        ),
    );
    assert(text::texts(f.missing_paths@).len() == f.missing_paths@.len());
    let complete = f.missing_paths.len() == 0;
    let message = if complete {
        text::owned("core, configuration, and assets are present")
    } else {
        text::concat("missing paths: ", text::join(&f.missing_paths, ", ").as_str())
    };
    checks.push(
        make_check(
            "installed-layout",
            status_of(complete, CheckStatus::Fail),
            message.as_str(),
            make_remedy(!complete, "run `sudo xrayctl repair`"),
        ),
    );
    if complete {
        let valid = match f.config_valid {
            Some(valid) => valid,
            None => false,
        };
        checks.push(
            make_check(
                "xray-config",
                status_of(valid, CheckStatus::Fail),
                if valid {
                    "installed Xray configuration is valid"
                } else {
                    "installed Xray configuration validation failed"
                },
                make_remedy(
                    !valid,
                    "run `sudo xrayctl repair` and inspect the previous generation",
                ),
            ),
        );
    }
    if tests_health(f.service_active, selected) {
        let healthy = match f.healthy {
            Some(healthy) => healthy,
            None => false,
        };
        checks.push(
            make_check(
                "proxy-health",
                status_of(healthy, CheckStatus::Fail),
                if healthy {
                    "SOCKS and HTTP proxy healthchecks succeeded"
                } else {
                    "proxy healthcheck failed"
                },
                make_remedy(!healthy, "inspect `xrayctl service logs` and roll back"),
            ),
        );
    }
    if tun_enabled {
        match &f.tun {
            Some(t) => checks.push(check_tun(t)),
            None => {
                let none = TunFacts {
                    interface_active: false,
                    firewall_present: false,
                    policy: String::new(),
                };
                assert(none@.policy =~= Seq::<char>::empty());
                checks.push(check_tun(&none));
            },
        }
    }
    assert(dto::doctor_check_dto_views(checks@) =~= before + deep_checks(
        f@,
        tun_enabled,
        selected,
    ));
}

/// All checks; the thorough ones where they were asked for.
pub fn doctor_checks(
    statuses: &Vec<CapabilityStatus>,
    platform: &PlatformInfo,
    elevated: bool,
    deep: &Option<DeepFacts>,
    tun_enabled: bool,
    selected: bool,
) -> (r: Vec<DoctorCheckDto>)
    ensures
        dto::doctor_check_dto_views(r@) == all_checks(
            ports::capability_status_views(statuses@),
            platform@,
            elevated,
            opt_deep_facts(*deep),
            tun_enabled,
            selected,
        ),
{
    let mut checks: Vec<DoctorCheckDto> = Vec::new();
    push_quick(&mut checks, statuses, platform, elevated);
    match deep {
        Some(f) => push_deep(&mut checks, f, tun_enabled, selected),
        None => {},
    }
    assert(dto::doctor_check_dto_views(checks@) =~= all_checks(
        ports::capability_status_views(statuses@),
        platform@,
        elevated,
        opt_deep_facts(*deep),
        tun_enabled,
        selected,
    ));
    checks
}

/// Whether the installed configuration is tested: only where nothing is missing.
pub fn tests_config(missing_paths: &Vec<String>) -> (r: bool)
    ensures
        r == config_is_tested(text::texts(missing_paths@)),
{
    assert(text::texts(missing_paths@).len() == missing_paths@.len());
    missing_paths.len() == 0
}

/// Whether the proxy is tested: only where the service runs a selected node.
pub fn tests_health(service_active: Option<bool>, selected: bool) -> (r: bool)
    ensures
        r == health_is_tested(service_active, selected),
{
    match service_active {
        Some(active) => active && selected,
        None => false,
    }
}

/// The installed files that must be there.
pub open spec fn installed_paths(
    p: ManagerPathsView,
    executable: Seq<char>,
    assets: Seq<AssetConfigView>,
) -> Seq<Seq<char>> {
    let asset_dir = ports::path_join(p.windows, p.install_dir, "assets/current"@);
    seq![
        ports::path_join(p.windows, ports::path_join(p.windows, p.install_dir, "core/current"@), executable),
        ports::path_join(p.windows, p.state_dir, "current/conf.d"@),
        asset_dir,
    ] + assets.map_values(|a: AssetConfigView| ports::path_join(p.windows, asset_dir, a.filename))
}

/// The installed files that must be there.
pub fn layout_paths(paths: &ManagerPaths, executable: &str, assets: &Vec<AssetConfig>) -> (r: Vec<String>)
    ensures
        text::texts(r@) == installed_paths(paths@, executable@, config::asset_config_views(assets@)),
{
    let asset_dir = ports::join_path(paths.windows, paths.install_dir.as_str(), "assets/current");
    let core = ports::join_path(paths.windows, paths.install_dir.as_str(), "core/current");
    let mut r: Vec<String> = vec![
        ports::join_path(paths.windows, core.as_str(), executable),
        ports::join_path(paths.windows, paths.state_dir.as_str(), "current/conf.d"),
        asset_dir.clone(),
    ];
    let ghost want = installed_paths(paths@, executable@, config::asset_config_views(assets@));
    assert(text::texts(r@) =~= want.take(3));
    let mut i: usize = 0;
    while i < assets.len()
        invariant
            i <= assets@.len(),
            want.len() == 3 + assets@.len(),
            want == installed_paths(paths@, executable@, config::asset_config_views(assets@)),
            asset_dir@ == ports::path_join(paths@.windows, paths@.install_dir, "assets/current"@),
            text::texts(r@) == want.take(3 + i),
        decreases assets@.len() - i,
    {
        let path = ports::join_path(paths.windows, asset_dir.as_str(), assets[i].filename.as_str());
        proof {
            text::lemma_texts_push(r@, path);
            assert(want[3 + i] == path@);
            assert(want.take(3 + i + 1) =~= want.take(3 + i).push(path@));
        }
        r.push(path);
        i += 1;
    }
    assert(want.take(3 + assets@.len() as int) =~= want);
    r
}

/// The doctor reports failing TUN rules whenever a part of them is missing.
pub proof fn law_doctor_reports_open_routes(t: TunFactsView)
    requires
        !t.interface_active || !t.firewall_present || !queries::fails_closed(t.policy),
    ensures
        tun_check(t).status == CheckStatus::Fail,
        tun_check(t).remediation is Some,
{
}

} // verus!
