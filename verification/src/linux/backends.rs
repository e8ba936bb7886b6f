//! The backends of a Linux host, and what is known of the host.

use crate::error::{ManagerError, ManagerErrorView};
use crate::ports::{
    BackendDescriptor, BackendDescriptorView, BackendProbe, BackendProbeView, Capability,
    ManagerPaths, ManagerPathsView, PlatformInfo, PlatformInfoView,
};
use crate::registry::{BackendRegistry, CandidateView};
use crate::text_map::TextMap;
use crate::operation;
use crate::operation::OperationView;
use crate::planning;
use crate::ports;
use crate::registry;
use crate::text;
use crate::text_map;
use vstd::prelude::*;

verus! {

/// Where things are by the Filesystem Hierarchy Standard.
pub open spec fn fhs_layout() -> ManagerPathsView {
    ManagerPathsView {
        config_dir: "/etc/xray-manager"@,
        state_dir: "/var/lib/xray-manager"@,
        cache_dir: "/var/cache/xray-manager"@,
        runtime_dir: "/run/xray-manager"@,
        install_dir: "/opt/xray-manager"@,
        executable: "/usr/local/bin/xrayctl"@,
        windows: false,
    }
}

/// The directories of a Linux host.
#[derive(Debug, Clone, Copy)]
pub struct LinuxFhsLayout;

impl LinuxFhsLayout {
    /// Where things are by the Filesystem Hierarchy Standard.
    pub fn paths(&self) -> (r: ManagerPaths)
        ensures
            r@ == fhs_layout(),
    {
        ManagerPaths {
            config_dir: text::owned("/etc/xray-manager"),
            state_dir: text::owned("/var/lib/xray-manager"),
            cache_dir: text::owned("/var/cache/xray-manager"),
            runtime_dir: text::owned("/run/xray-manager"),
            install_dir: text::owned("/opt/xray-manager"),
            executable: text::owned("/usr/local/bin/xrayctl"),
            windows: false,
        }
    }
}

/// A backend, what it provides, and the programs that it needs.
#[derive(Debug)]
pub struct LinuxBackendFactory {
    pub id: String,
    pub capabilities: Vec<Capability>,
    pub requirements: Vec<String>,
}

/// The mathematical value of a [`LinuxBackendFactory`].
#[verifier::ext_equal]
pub struct LinuxBackendFactoryView {
    pub id: Seq<char>,
    pub capabilities: Seq<Capability>,
    pub requirements: Seq<Seq<char>>,
}

impl View for LinuxBackendFactory {
    type V = LinuxBackendFactoryView;

    open spec fn view(&self) -> LinuxBackendFactoryView {
        LinuxBackendFactoryView {
            id: self.id@,
            capabilities: self.capabilities@,
            requirements: text::texts(self.requirements@),
        }
    }
}

pub open spec fn linux_backend_factory_views(v: Seq<LinuxBackendFactory>) -> Seq<LinuxBackendFactoryView> {
    v.map_values(|x: LinuxBackendFactory| x@)
}

/// What has to be asked of the host about a backend.
#[derive(Debug, Clone, Copy, PartialEq, Eq, Structural)]
pub enum ProbeQuestion {
    Nothing,
    OsRelease,
    SystemState,
    TunDevice,
}

/// What the host answered: a text, or whether something is there.
#[derive(Debug)]
pub struct ProbeAnswer {
    pub text: String,
    pub there: bool,
}

pub open spec fn unavailable(reason: Seq<char>) -> BackendProbeView {
    BackendProbeView { available: false, reason: Some(reason) }
}

/// The distribution that the first line with `ID=` names.
pub open spec fn release_id(lines: Seq<Seq<char>>) -> Option<Seq<char>>
    decreases lines.len(),
{
    if lines.len() == 0 {
        None
    } else {
        match text::after_prefix(lines[0], "ID="@) {
            Some(v) => Some(text::without_trailing(text::without_leading(v, '"'), '"')),
            None => release_id(lines.drop_first()),
        }
    }
}

/// The distribution that the first line with `ID=` names.
pub fn find_release_id(release: &str) -> (r: Option<String>)
    ensures
        text::opt_text(r) == release_id(text::lines_of(release@)),
{
    let list = text::lines(release);
    let ghost all = text::lines_of(release@);
    let mut i: usize = 0;
    assert(all.skip(0) =~= all);
    while i < list.len()
        invariant
            i <= list@.len(),
            text::texts(list@) == all,
            all == text::lines_of(release@),
            release_id(all) == release_id(all.skip(i as int)),
        decreases list@.len() - i,
    {
        proof {
            assert(all[i as int] == list@[i as int]@);
            assert(all.skip(i as int)[0] == all[i as int]);
            assert(all.skip(i as int).drop_first() =~= all.skip(i + 1));
        }
        match text::strip_prefix(list[i].as_str(), "ID=") {
            Some(value) => {
                return Some(text::trim_matches(value.as_str(), '"'));
            },
            None => {},
        }
        i += 1;
    }
    assert(all.skip(all.len() as int).len() == 0);
    None
}

/// Whether a distribution is one that the Arch backend knows.
pub open spec fn arch_like(id: Option<Seq<char>>) -> bool {
    id == Some("arch"@) || id == Some("endeavouros"@)
}

/// What is asked of the host about a backend.
pub open spec fn question_of(id: Seq<char>) -> ProbeQuestion {
    if id == "arch"@ {
        ProbeQuestion::OsRelease
    } else if id == "systemd"@ {
        ProbeQuestion::SystemState
    } else if id == "xray-linux-tun"@ {
        ProbeQuestion::TunDevice
    } else {
        ProbeQuestion::Nothing
    }
}

/// Whether a backend can be used: its programs are there, and the host
/// answers as it needs.
pub open spec fn probe_of(
    f: LinuxBackendFactoryView,
    missing: Seq<Seq<char>>,
    text: Seq<char>,
    there: bool,
) -> BackendProbeView {
    let good = BackendProbeView { available: true, reason: None };
    if missing.len() > 0 {
        unavailable("missing: "@ + text::joined(missing, ", "@))
    } else {
        match question_of(f.id) {
            ProbeQuestion::OsRelease => if arch_like(release_id(text::lines_of(text))) {
                good
            } else {
                unavailable("host is not Arch Linux or EndeavourOS"@)
            },
            ProbeQuestion::SystemState => {
                let state = text::trimmed(text);
                if state == "running"@ || state == "degraded"@ {
                    good
                } else {
                    unavailable(
                        "systemd system manager is not running (state: "@ + (if state.len() == 0 {
                            "unknown"@
                        } else {
                            state
                        }) + ")"@,
                    )
                }
            },
            ProbeQuestion::TunDevice => if there {
                good
            } else {
                unavailable("/dev/net/tun is unavailable"@)
            },
            ProbeQuestion::Nothing => good,
        }
    }
}

/// Which capabilities a backend has an adapter for.
pub open spec fn has_adapter(id: Seq<char>, c: Capability) -> bool {
    match c {
        Capability::Layout => id == "linux-fhs"@,
        Capability::Install => id == "arch"@,
        Capability::PackageAdvice => id == "arch"@,
        Capability::Identity => id == "linux-identity"@,
        Capability::Service => id == "systemd"@,
        Capability::Firewall => id == "nftables"@,
        Capability::PolicyRouting => id == "iproute2"@,
        Capability::Tun => id == "xray-linux-tun"@,
        Capability::AppRunner => id == "linux-gid-mountns"@,
        Capability::MountIsolation => id == "linux-gid-mountns"@,
        Capability::DesktopProxy => id == "kde6"@,
    }
}

/// What a backend says of itself.
pub open spec fn descriptor_of(f: LinuxBackendFactoryView) -> BackendDescriptorView {
    BackendDescriptorView {
        id: f.id,
        contract_version: 1,
        capabilities: f.capabilities,
        platform: "linux"@,
        requirements: f.requirements,
    }
}

fn refuse_probe(reason: String) -> (r: BackendProbe)
    ensures
        r@ == unavailable(reason@),
{
    BackendProbe { available: false, reason: Some(reason) }
}

impl LinuxBackendFactory {
    /// A backend.
    pub fn new(id: &str, capabilities: Vec<Capability>, requirements: Vec<String>) -> (r:
        LinuxBackendFactory)
        ensures
            r@ == (LinuxBackendFactoryView {
                id: id@,
                capabilities: capabilities@,
                requirements: text::texts(requirements@),
            }),
    {
        LinuxBackendFactory { id: text::owned(id), capabilities, requirements }
    }

    /// What the backend says of itself.
    pub fn descriptor(&self) -> (r: BackendDescriptor)
        ensures
            r@ == descriptor_of(self@),
    {
        let mut capabilities: Vec<Capability> = Vec::new();
        let mut i: usize = 0;
        while i < self.capabilities.len()
            invariant
                i <= self.capabilities@.len(),
                capabilities@ =~= self.capabilities@.take(i as int),
            decreases self.capabilities@.len() - i,
        {
            capabilities.push(self.capabilities[i]);
            i += 1;
        }
        assert(self.capabilities@.take(self.capabilities@.len() as int) =~= self.capabilities@);
        BackendDescriptor {
            id: self.id.clone(),
            contract_version: 1,
            capabilities,
            platform: text::owned("linux"),
            requirements: text::copy_texts(&self.requirements),
        }
    }

    /// What is asked of the host.
    pub fn question(&self) -> (r: ProbeQuestion)
        ensures
            r == question_of(self@.id),
    {
        let id = self.id.as_str();
        if text::same(id, "arch") {
            ProbeQuestion::OsRelease
        } else if text::same(id, "systemd") {
            ProbeQuestion::SystemState
        } else if text::same(id, "xray-linux-tun") {
            ProbeQuestion::TunDevice
        } else {
            ProbeQuestion::Nothing
        }
    }

    /// Whether the backend can be used, by the programs that are missing and
    /// the answer of the host.
    pub fn probe(&self, missing: &Vec<String>, answer: &ProbeAnswer) -> (r: BackendProbe)
        ensures
            r@ == probe_of(self@, text::texts(missing@), answer.text@, answer.there),
    {
        assert(text::texts(missing@).len() == missing@.len());
        if missing.len() > 0 {
            return refuse_probe(text::concat("missing: ", text::join(missing, ", ").as_str()));
        }
        match self.question() {
            ProbeQuestion::OsRelease => {
                let known = match find_release_id(answer.text.as_str()) {
                    Some(id) => text::same(id.as_str(), "arch") || text::same(id.as_str(), "endeavouros"),
                    None => false,
                };
                if !known {
                    return refuse_probe(text::owned("host is not Arch Linux or EndeavourOS"));
                }
            },
            ProbeQuestion::SystemState => {
                let state = text::trim(answer.text.as_str());
                if !text::same(state.as_str(), "running") && !text::same(state.as_str(), "degraded") {
                    let shown = if state.as_str().unicode_len() == 0 {
                        "unknown"
                    } else {
                        state.as_str()
                    };
                    return refuse_probe(
                        text::concat3("systemd system manager is not running (state: ", shown, ")"),
                    );
                }
            },
            ProbeQuestion::TunDevice => {
                if !answer.there {
                    return refuse_probe(text::owned("/dev/net/tun is unavailable"));
                }
            },
            ProbeQuestion::Nothing => {},
        }
        BackendProbe { available: true, reason: None }
    }

    /// Checks that the backend has an adapter for a capability.
    pub fn check_adapter(&self, capability: Capability) -> (r: Result<(), ManagerError>)
        ensures
            match r {
                Ok(_) => has_adapter(self@.id, capability),
                Err(e) => !has_adapter(self@.id, capability) && e@
                    == (ManagerErrorView::PlatformUnsupported {
                    capability,
                    platform: "linux"@,
                    backend: Some(self@.id),
                    reason: "backend '"@ + self@.id + "' does not provide a factory for "@
                        + ports::capability_name(capability),
                    recommendation: Some("select a backend that provides this capability"@),
                }),
            },
    {
        let owner = match capability {
            Capability::Layout => "linux-fhs",
            Capability::Install => "arch",
            Capability::PackageAdvice => "arch",
            Capability::Identity => "linux-identity",
            Capability::Service => "systemd",
            Capability::Firewall => "nftables",
            Capability::PolicyRouting => "iproute2",
            Capability::Tun => "xray-linux-tun",
            Capability::AppRunner => "linux-gid-mountns",
            Capability::MountIsolation => "linux-gid-mountns",
            Capability::DesktopProxy => "kde6",
        };
        if text::same(self.id.as_str(), owner) {
            return Ok(());
        }
        let mut reason = text::concat3(
            "backend '",
            self.id.as_str(),
            "' does not provide a factory for ",
        );
        reason.append(capability.name());
        Err(
            ManagerError::PlatformUnsupported {
                capability,
                platform: text::owned("linux"),
                backend: Some(self.id.clone()),
                reason,
                recommendation: Some(text::owned("select a backend that provides this capability")),
            },
        )
    }
}

pub open spec fn backend(
    id: Seq<char>,
    capabilities: Seq<Capability>,
    requirements: Seq<Seq<char>>,
) -> LinuxBackendFactoryView {
    LinuxBackendFactoryView { id, capabilities, requirements }
}

/// The backends that are built in.
pub open spec fn production() -> Seq<LinuxBackendFactoryView> {
    seq![
        backend("linux-fhs"@, seq![Capability::Layout], Seq::empty()),
        backend("arch"@, seq![Capability::Install, Capability::PackageAdvice], seq!["pacman"@]),
        backend("linux-identity"@, seq![Capability::Identity], seq!["chown"@, "getent"@, "groupadd"@, "gpasswd"@, "id"@, "useradd"@, "usermod"@]),
        backend("systemd"@, seq![Capability::Service], seq!["systemctl"@, "journalctl"@]),
        backend("nftables"@, seq![Capability::Firewall], seq!["nft"@]),
        backend("iproute2"@, seq![Capability::PolicyRouting], seq!["ip"@]),
        backend("xray-linux-tun"@, seq![Capability::Tun], seq!["ip"@]),
        backend("linux-gid-mountns"@, seq![Capability::AppRunner, Capability::MountIsolation], seq!["curl"@, "getent"@, "id"@, "mount"@, "unshare"@]),
        backend("kde6"@, seq![Capability::DesktopProxy], seq!["dbus-send"@, "kwriteconfig6"@, "runuser"@]),
    ]
}

fn built_in(id: &str, capabilities: Vec<Capability>, requirements: Vec<&str>) -> (r:
    LinuxBackendFactory)
    ensures
        r@.id == id@,
        r@.capabilities == capabilities@,
        r@.requirements.len() == requirements@.len(),
        forall|i: int| 0 <= i < requirements@.len() ==> #[trigger] r@.requirements[i] == requirements@[i]@,
{
    LinuxBackendFactory::new(id, capabilities, text::own_all(requirements))
}

/// The backends that are built in.
pub fn production_backends() -> (r: Vec<LinuxBackendFactory>)
    ensures
        linux_backend_factory_views(r@) == production(),
{
    let linux_fhs = built_in("linux-fhs", vec![Capability::Layout], Vec::new());
    let arch = built_in("arch", vec![Capability::Install, Capability::PackageAdvice], vec!["pacman"]);
    let linux_identity = built_in("linux-identity", vec![Capability::Identity], vec!["chown", "getent", "groupadd", "gpasswd", "id", "useradd", "usermod"]);
    let systemd = built_in("systemd", vec![Capability::Service], vec!["systemctl", "journalctl"]);
    let nftables = built_in("nftables", vec![Capability::Firewall], vec!["nft"]);
    let iproute2 = built_in("iproute2", vec![Capability::PolicyRouting], vec!["ip"]);
    let xray_linux_tun = built_in("xray-linux-tun", vec![Capability::Tun], vec!["ip"]);
    let linux_gid_mountns = built_in("linux-gid-mountns", vec![Capability::AppRunner, Capability::MountIsolation], vec!["curl", "getent", "id", "mount", "unshare"]);
    let kde6 = built_in("kde6", vec![Capability::DesktopProxy], vec!["dbus-send", "kwriteconfig6", "runuser"]);
    let r: Vec<LinuxBackendFactory> = vec![linux_fhs, arch, linux_identity, systemd, nftables, iproute2, xray_linux_tun, linux_gid_mountns, kde6];
    let ghost want = production();
    assert(linux_fhs@.capabilities =~= want[0].capabilities);
    assert(linux_fhs@.requirements =~= want[0].requirements);
    assert(arch@.capabilities =~= want[1].capabilities);
    assert(arch@.requirements =~= want[1].requirements);
    assert(linux_identity@.capabilities =~= want[2].capabilities);
    assert(linux_identity@.requirements =~= want[2].requirements);
    assert(systemd@.capabilities =~= want[3].capabilities);
    assert(systemd@.requirements =~= want[3].requirements);
    assert(nftables@.capabilities =~= want[4].capabilities);
    assert(nftables@.requirements =~= want[4].requirements);
    assert(iproute2@.capabilities =~= want[5].capabilities);
    assert(iproute2@.requirements =~= want[5].requirements);
    assert(xray_linux_tun@.capabilities =~= want[6].capabilities);
    assert(xray_linux_tun@.requirements =~= want[6].requirements);
    assert(linux_gid_mountns@.capabilities =~= want[7].capabilities);
    assert(linux_gid_mountns@.requirements =~= want[7].requirements);
    assert(kde6@.capabilities =~= want[8].capabilities);
    assert(kde6@.requirements =~= want[8].requirements);
    assert(linux_backend_factory_views(r@) =~= want);
    r
}

/// The candidates that the built-in backends and their probes make.
pub open spec fn production_candidates(probes: Seq<BackendProbeView>) -> Seq<CandidateView> {
    Seq::new(
        production().len(),
        |i: int|
            CandidateView { descriptor: descriptor_of(production()[i]), probe: probes[i] },
    )
}

/// Adds the built-in backends with what their probes found.
pub fn register_production(registry: &mut BackendRegistry, probes: &Vec<BackendProbe>)
    requires
        probes@.len() == production().len(),
    ensures
        final(registry)@ == old(registry)@ + production_candidates(
            ports::backend_probe_views(probes@),
        ),
{
    let backends = production_backends();
    let ghost start = registry@;
    let ghost all = production_candidates(ports::backend_probe_views(probes@));
    let ghost views = production();
    let mut i: usize = 0;
    assert(start + all.take(0) =~= start);
    assert(linux_backend_factory_views(backends@).len() == backends@.len());
    while i < backends.len()
        invariant
            i <= backends@.len(),
            views == production(),
            views.len() == backends@.len(),
            probes@.len() == views.len(),
            all == production_candidates(ports::backend_probe_views(probes@)),
            linux_backend_factory_views(backends@) == views,
            start == old(registry)@,
            registry@ == start + all.take(i as int),
        decreases backends@.len() - i,
    {
        let b = &backends[i];
        proof {
            assert(views[i as int] == b@);
            assert(ports::backend_probe_views(probes@)[i as int] == probes@[i as int]@);
        }
        registry.register(b.descriptor(), probes[i].clone());
        assert(start + all.take(i + 1) =~= (start + all.take(i as int)).push(all[i as int]));
        i += 1;
    }
    assert(all.take(all.len() as int) =~= all);
}

/// The built-in backends have IDs of their own: a registry of them alone is
/// never refused for a repeated one.
pub proof fn law_production_ids_differ(probes: Seq<BackendProbeView>)
    ensures
        registry::distinct_ids(production_candidates(probes)),
{
    lemma_distinct_production();
    let all = production_candidates(probes);
    assert forall|i: int, j: int| 0 <= i < j < all.len() implies (
    #[trigger] all[i]).descriptor.id != (#[trigger] all[j]).descriptor.id by {
        assert(all[i].descriptor.id == production()[i].id);
        assert(all[j].descriptor.id == production()[j].id);
    }
}

/// No two built-in backends have the same ID.
proof fn lemma_distinct_production()
    ensures
        forall|i: int, j: int|
            0 <= i < j < production().len() ==> (#[trigger] production()[i]).id != (
            #[trigger] production()[j]).id,
{
    reveal_strlit("linux-fhs");
    reveal_strlit("arch");
    reveal_strlit("linux-identity");
    reveal_strlit("systemd");
    reveal_strlit("nftables");
    reveal_strlit("iproute2");
    reveal_strlit("xray-linux-tun");
    reveal_strlit("linux-gid-mountns");
    reveal_strlit("kde6");
    assert("linux-fhs"@.len() != "arch"@.len());
    assert("linux-fhs"@.len() != "linux-identity"@.len());
    assert("linux-fhs"@.len() != "systemd"@.len());
    assert("linux-fhs"@.len() != "nftables"@.len());
    assert("linux-fhs"@.len() != "iproute2"@.len());
    assert("linux-fhs"@.len() != "xray-linux-tun"@.len());
    assert("linux-fhs"@.len() != "linux-gid-mountns"@.len());
    assert("linux-fhs"@.len() != "kde6"@.len());
    assert("arch"@.len() != "linux-identity"@.len());
    assert("arch"@.len() != "systemd"@.len());
    assert("arch"@.len() != "nftables"@.len());
    assert("arch"@.len() != "iproute2"@.len());
    assert("arch"@.len() != "xray-linux-tun"@.len());
    assert("arch"@.len() != "linux-gid-mountns"@.len());
    assert("arch"@[0] != "kde6"@[0]);
    assert("linux-identity"@.len() != "systemd"@.len());
    assert("linux-identity"@.len() != "nftables"@.len());
    assert("linux-identity"@.len() != "iproute2"@.len());
    assert("linux-identity"@[0] != "xray-linux-tun"@[0]);
    assert("linux-identity"@.len() != "linux-gid-mountns"@.len());
    assert("linux-identity"@.len() != "kde6"@.len());
    assert("systemd"@.len() != "nftables"@.len());
    assert("systemd"@.len() != "iproute2"@.len());
    assert("systemd"@.len() != "xray-linux-tun"@.len());
    assert("systemd"@.len() != "linux-gid-mountns"@.len());
    assert("systemd"@.len() != "kde6"@.len());
    assert("nftables"@[0] != "iproute2"@[0]);
    assert("nftables"@.len() != "xray-linux-tun"@.len());
    assert("nftables"@.len() != "linux-gid-mountns"@.len());
    assert("nftables"@.len() != "kde6"@.len());
    assert("iproute2"@.len() != "xray-linux-tun"@.len());
    assert("iproute2"@.len() != "linux-gid-mountns"@.len());
    assert("iproute2"@.len() != "kde6"@.len());
    assert("xray-linux-tun"@.len() != "linux-gid-mountns"@.len());
    assert("xray-linux-tun"@.len() != "kde6"@.len());
    assert("linux-gid-mountns"@.len() != "kde6"@.len());
}

/// Every capability that a built-in backend lists has an adapter.
pub proof fn law_listed_capability_has_adapter(i: int, c: Capability)
    requires
        0 <= i < production().len(),
        production()[i].capabilities.contains(c),
    ensures
        has_adapter(production()[i].id, c),
{
    let list = production()[i].capabilities;
    let k = choose|k: int| 0 <= k < list.len() && list[k] == c;
    assert(list[k] == c);
}

/// The programs that the manager runs.
pub open spec fn program_names() -> Seq<Seq<char>> {
    seq![
        "chown"@,
        "curl"@,
        "getent"@,
        "gpasswd"@,
        "groupadd"@,
        "id"@,
        "ip"@,
        "journalctl"@,
        "mount"@,
        "nft"@,
        "systemctl"@,
        "unshare"@,
        "useradd"@,
        "usermod"@,
    ]
}

/// Knows the programs that the manager runs, and the packages of Arch Linux that hold them.
#[derive(Debug, Clone, Copy)]
pub struct ArchPackageAdvisor;

impl ArchPackageAdvisor {
    /// The programs that the manager runs.
    pub fn requirements(&self) -> (r: Vec<String>)
        ensures
            text::texts(r@) == program_names(),
    {
        let r = text::own_all(
            vec![
                "chown",
                "curl",
                "getent",
                "gpasswd",
                "groupadd",
                "id",
                "ip",
                "journalctl",
                "mount",
                "nft",
                "systemctl",
                "unshare",
                "useradd",
                "usermod",
            ],
        );
        assert(text::texts(r@) =~= program_names());
        r
    }

    /// Which of the programs are missing, by those that were found.
    pub fn missing_requirements(&self, found: &Vec<String>) -> (r: Vec<String>)
        ensures
            text::texts(r@) == program_names().filter(
                |p: Seq<char>| !text::contains_text(text::texts(found@), p),
            ),
    {
        let programs = self.requirements();
        let ghost there = text::texts(found@);
        let ghost keep = |p: Seq<char>| !text::contains_text(there, p);
        let ghost all = text::texts(programs@);
        let mut r: Vec<String> = Vec::new();
        let mut i: usize = 0;
        proof {
            reveal(Seq::filter);
            text::lemma_texts_empty(r@);
            assert(all.take(0).filter(keep) =~= Seq::<Seq<char>>::empty());
        }
        while i < programs.len()
            invariant
                i <= programs@.len(),
                all == text::texts(programs@),
                there == text::texts(found@),
                keep == (|p: Seq<char>| !text::contains_text(there, p)),
                text::texts(r@) == all.take(i as int).filter(keep),
            decreases programs@.len() - i,
        {
            proof {
                reveal(Seq::filter);
                assert(all.take(i + 1).drop_last() =~= all.take(i as int));
                assert(all.take(i + 1).last() == programs@[i as int]@);
            }
            let known = text::text_in(found, programs[i].as_str());
            assert(keep(programs@[i as int]@) == !known);
            if !known {
                let item = programs[i].clone();
                proof {
                    text::lemma_texts_push(r@, item);
                }
                r.push(item);
            }
            i += 1;
        }
        assert(all.take(all.len() as int) =~= all);
        r
    }

    /// The packages of the programs, in order and each once.
    pub fn packages_for(&self, requirements: &Vec<String>) -> (r: Vec<String>)
        ensures
            lists_packages(text::texts(r@), text::texts(requirements@)),
    {
        let ghost all = text::texts(requirements@);
        let mut found = TextMap::new();
        let mut i: usize = 0;
        while i < requirements.len()
            invariant
                i <= requirements@.len(),
                all == text::texts(requirements@),
                forall|p: Seq<char>| #[trigger]
                    found@.contains_key(p) <==> exists|j: int|
                        0 <= j < i && #[trigger] package_of(all[j]) == p,
            decreases requirements@.len() - i,
        {
            assert(all[i as int] == requirements@[i as int]@);
            let ghost before = found@;
            let package = package_for(requirements[i].as_str());
            found.insert(package, String::new());
            proof {
                assert forall|p: Seq<char>| #[trigger] found@.contains_key(p) <==> exists|j: int|
                    0 <= j < i + 1 && #[trigger] package_of(all[j]) == p by {
                    if found@.contains_key(p) {
                        if before.contains_key(p) {
                            let j = choose|j: int| 0 <= j < i && #[trigger] package_of(all[j]) == p;
                            assert(0 <= j < i + 1 && package_of(all[j]) == p);
                        } else {
                            assert(package_of(all[i as int]) == p);
                        }
                    }
                    if exists|j: int| 0 <= j < i + 1 && #[trigger] package_of(all[j]) == p {
                        let j = choose|j: int| 0 <= j < i + 1 && #[trigger] package_of(all[j]) == p;
                        if j < i {
                            assert(before.contains_key(p));
                        }
                    }
                }
            }
            i += 1;
        }
        let r = found.keys();
        proof {
            let keys = text::texts(r@);
            assert forall|p: Seq<char>| keys.contains(p) <==> exists|i: int|
                0 <= i < all.len() && #[trigger] package_of(all[i]) == p by {
                assert(keys.contains(p) <==> found@.contains_key(p));
            }
        }
        r
    }

    /// What installs the packages of the programs, where there are any.
    pub fn install_hint(&self, requirements: &Vec<String>) -> (r: Option<String>)
        ensures
            match r {
                Some(s) => exists|p: Seq<Seq<char>>| #[trigger]
                    lists_packages(p, text::texts(requirements@)) && p.len() > 0 && s@
                        == "sudo pacman -S --needed "@ + text::joined(p, " "@),
                None => text::texts(requirements@).len() == 0,
            },
    {
        let packages = self.packages_for(requirements);
        let ghost p = text::texts(packages@);
        let ghost all = text::texts(requirements@);
        assert(p.len() == packages@.len());
        if packages.len() == 0 {
            proof {
                if all.len() > 0 {
                    let first = package_of(all[0]);
                    assert(p.contains(first));
                }
            }
            return None;
        }
        assert(lists_packages(p, all));
        Some(text::concat("sudo pacman -S --needed ", text::join(&packages, " ").as_str()))
    }
}

/// The package of Arch Linux that holds a program.
pub open spec fn package_of(program: Seq<char>) -> Seq<char> {
    if program == "chown"@ {
        "coreutils"@
    } else if program == "curl"@ {
        "curl"@
    } else if program == "getent"@ {
        "glibc"@
    } else if program == "gpasswd"@ || program == "groupadd"@ || program == "useradd"@ || program == "usermod"@ {
        "shadow"@
    } else if program == "ip"@ {
        "iproute2"@
    } else if program == "mount"@ || program == "unshare"@ {
        "util-linux"@
    } else if program == "nft"@ {
        "nftables"@
    } else if program == "journalctl"@ || program == "systemctl"@ {
        "systemd"@
    } else {
        program
    }
}

/// The package of Arch Linux that holds a program.
pub fn package_for(program: &str) -> (r: String)
    ensures
        r@ == package_of(program@),
{
    if text::same(program, "chown") {
        text::owned("coreutils")
    } else if text::same(program, "curl") {
        text::owned("curl")
    } else if text::same(program, "getent") {
        text::owned("glibc")
    } else if text::same(program, "gpasswd") || text::same(program, "groupadd") || text::same(program, "useradd") || text::same(program, "usermod") {
        text::owned("shadow")
    } else if text::same(program, "ip") {
        text::owned("iproute2")
    } else if text::same(program, "mount") || text::same(program, "unshare") {
        text::owned("util-linux")
    } else if text::same(program, "nft") {
        text::owned("nftables")
    } else if text::same(program, "journalctl") || text::same(program, "systemctl") {
        text::owned("systemd")
    } else {
        text::owned(program)
    }
}

/// The list names exactly the packages of the programs, in order and each once.
pub open spec fn lists_packages(packages: Seq<Seq<char>>, programs: Seq<Seq<char>>) -> bool {
    &&& text_map::increasing(packages)
    &&& forall|p: Seq<char>|
        packages.contains(p) <==> exists|i: int|
            0 <= i < programs.len() && #[trigger] package_of(programs[i]) == p
}

/// The programs that keep the manager from being installed while they are
/// missing, by those that were found.
pub open spec fn blocking(found: Seq<Seq<char>>, tun_enabled: bool) -> Seq<Seq<char>> {
    program_names().filter(|p: Seq<char>| !text::contains_text(found, p)).filter(
        |p: Seq<char>| planning::blocks_install(p, tun_enabled),
    )
}

/// Nothing is installed on a host whose backends cannot be used yet: a missing
/// program that a built-in backend needs for what an installation needs keeps
/// the manager from being installed, and leaves a package to ask for.
pub proof fn law_missing_program_blocks_installation(
    o: OperationView,
    tun_enabled: bool,
    i: int,
    c: Capability,
    program: Seq<char>,
    found: Seq<Seq<char>>,
    packages: Seq<Seq<char>>,
)
    requires
        o is Install || o is Repair,
        operation::needs_capability(o, tun_enabled, c),
        c != Capability::Install,
        c != Capability::PackageAdvice,
        0 <= i < production().len(),
        production()[i].capabilities.contains(c),
        production()[i].requirements.contains(program),
        !text::contains_text(found, program),
        lists_packages(packages, blocking(found, tun_enabled)),
    ensures
        blocking(found, tun_enabled).contains(program),
        packages.contains(package_of(program)),
{
    reveal_strlit("chown");
    reveal_strlit("getent");
    reveal_strlit("groupadd");
    reveal_strlit("gpasswd");
    reveal_strlit("id");
    reveal_strlit("useradd");
    reveal_strlit("usermod");
    reveal_strlit("systemctl");
    reveal_strlit("journalctl");
    reveal_strlit("nft");
    reveal_strlit("ip");
    reveal_strlit("mount");
    reveal_strlit("unshare");
    let list = production()[i].capabilities;
    let k = choose|k: int| 0 <= k < list.len() && list[k] == c;
    assert(list[k] == c);
    let needed = production()[i].requirements;
    let n = choose|n: int| 0 <= n < needed.len() && needed[n] == program;
    assert(needed[n] == program);
    let names = program_names();
    assert(2 <= i <= 6);
    assert(i == 2 ==> program == names[[0int, 2, 4, 3, 5, 12, 13][n]]);
    assert(i == 3 ==> program == names[if n == 0 { 10int } else { 7 }]);
    assert(i == 4 ==> program == names[9]);
    assert(i == 5 || i == 6 ==> program == names[6]);
    assert(names.contains(program));
    let missing = |p: Seq<char>| !text::contains_text(found, p);
    let blocks = |p: Seq<char>| planning::blocks_install(p, tun_enabled);
    assert(program.len() != "mount"@.len() || program[0] != 'm');
    assert(program.len() != "unshare"@.len() || program[1] != 'n');
    if !tun_enabled {
        assert(i == 2 || i == 3);
        assert(program.len() != "nft"@.len());
        assert(program.len() != "ip"@.len() || program[1] == 'd');
    }
    assert(blocks(program));
    let at = choose|j: int| 0 <= j < names.len() && names[j] == program;
    names.lemma_filter_contains(missing, at);
    let lacking = names.filter(missing);
    let place = choose|j: int| 0 <= j < lacking.len() && lacking[j] == program;
    lacking.lemma_filter_contains(blocks, place);
    let all = blocking(found, tun_enabled);
    let here = choose|j: int| 0 <= j < all.len() && all[j] == program;
    assert(package_of(all[here]) == package_of(program));
}

/// The value of the last line that assigns to `ID`.
pub open spec fn assigned_id(lines: Seq<Seq<char>>) -> Option<Seq<char>>
    decreases lines.len(),
{
    if lines.len() == 0 {
        None
    } else {
        match text::cut_first(lines.last(), '=') {
            Some((key, value)) => if key == "ID"@ {
                Some(text::without_trailing(text::without_leading(value, '"'), '"'))
            } else {
                assigned_id(lines.drop_last())
            },
            None => assigned_id(lines.drop_last()),
        }
    }
}

/// The distribution that a release file names.
pub fn distribution(release: &str) -> (r: Option<String>)
    ensures
        text::opt_text(r) == assigned_id(text::lines_of(release@)),
{
    let list = text::lines(release);
    let ghost all = text::lines_of(release@);
    let mut i: usize = list.len();
    assert(all.take(i as int) =~= all);
    while i > 0
        invariant
            i <= list@.len(),
            text::texts(list@) == all,
            all == text::lines_of(release@),
            assigned_id(all) == assigned_id(all.take(i as int)),
        decreases i,
    {
        proof {
            assert(all.take(i as int).last() == list@[i - 1]@);
            assert(all.take(i as int).drop_last() =~= all.take(i - 1));
        }
        match text::split_once(list[i - 1].as_str(), '=') {
            Some((key, value)) => {
                if text::same(key.as_str(), "ID") {
                    return Some(text::trim_matches(value.as_str(), '"'));
                }
            },
            None => {},
        }
        i -= 1;
    }
    None
}

/// Tells what kind of host this is.
#[derive(Debug, Clone, Copy)]
pub struct LinuxPlatformInspector;

impl LinuxPlatformInspector {
    /// What is known of the host.
    pub fn inspect(&self, release: &str, systemctl: bool, desktop: Option<String>) -> (r: PlatformInfo)
        ensures
            r@ == (PlatformInfoView {
                os: "linux"@,
                distribution: assigned_id(text::lines_of(release@)),
                init_system: if systemctl {
                    Some("systemd"@)
                } else {
                    None
                },
                desktop: text::opt_text(desktop),
            }),
    {
        PlatformInfo {
            os: text::owned("linux"),
            distribution: distribution(release),
            init_system: if systemctl {
                Some(text::owned("systemd"))
            } else {
                None
            },
            desktop,
        }
    }
}

} // verus!
