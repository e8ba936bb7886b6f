//! Which backend serves a capability, and when it can.

use crate::error::ManagerErrorView;
use crate::laws::reading::mark;
use crate::linux::backends::{descriptor_of, fhs_layout, package_of, probe_of, production, LinuxBackendFactoryView};
use crate::linux::backends;
use crate::portable::layout_below;
use crate::ports::{path_join, BackendDescriptorView, BackendPreferencesView, BackendProbeView, Capability, SelectionSource};
use crate::registry::{choice, eligible, explicit_wish, judged, least_at, named_at, status_of, wish, CandidateView};
use crate::registry;
use crate::text::{lines_of, text_less, trimmed};
use vstd::prelude::*;

verus! {

/// A wish is what is written for a capability, but that `auto` is no wish. The
/// command line comes before the configuration, and that before what was
/// installed.
pub proof fn law_wishes(p: BackendPreferencesView, c: Capability)
    ensures
        wish(p.cli, c) is Some <==> p.cli.contains_key(c) && p.cli[c] != "auto"@,
        wish(p.cli, c) matches Some(id) ==> id == p.cli[c],
        p.cli.contains_key(c) && p.cli[c] != "auto"@ ==> explicit_wish(p, c) == Some(
            (SelectionSource::Cli, p.cli[c]),
        ),
        wish(p.cli, c) is None && p.config.contains_key(c) && p.config[c] != "auto"@
            ==> explicit_wish(p, c) == Some((SelectionSource::Config, p.config[c])),
        wish(p.cli, c) is None && wish(p.config, c) is None && p.installed.contains_key(c)
            && p.installed[c] != "auto"@ ==> explicit_wish(p, c) == Some(
            (SelectionSource::InstalledState, p.installed[c]),
        ),
        !(p.cli.contains_key(c) && p.cli[c] != "auto"@) && !(p.config.contains_key(c) && p.config[c]
            != "auto"@) && !(p.installed.contains_key(c) && p.installed[c] != "auto"@)
            ==> explicit_wish(p, c) is None,
{
}

/// A backend that was asked for is taken where it is there, provides the
/// capability and can serve; one that an installation chose is kept even where it
/// cannot serve. Any other wish is refused.
pub proof fn law_asked_backend(
    v: Seq<CandidateView>,
    p: BackendPreferencesView,
    c: Capability,
    os: Seq<char>,
    i: int,
)
    requires
        registry::distinct_ids(v),
        0 <= i < v.len(),
        explicit_wish(p, c) matches Some((_, id)) && id == v[i].descriptor.id,
    ensures
        ({
            let source = (explicit_wish(p, c)->0).0;
            let taken = v[i].descriptor.capabilities.contains(c) && (v[i].probe.available || source
                == SelectionSource::InstalledState);
            &&& choice(v, p, c, os) is Ok <==> taken
            &&& taken ==> choice(v, p, c, os) == Ok::<
                Option<(SelectionSource, CandidateView)>,
                ManagerErrorView,
            >(Some((source, v[i])))
        }),
{
    let id = v[i].descriptor.id;
    assert(named_at(v, id, i));
    let k = choose|k: int| named_at(v, id, k);
    assert(named_at(v, id, k));
    if k < i {
        assert(v[k].descriptor.id != v[i].descriptor.id);
    } else if i < k {
        assert(v[i].descriptor.id != v[k].descriptor.id);
    }
}

/// A backend that is not there is never taken for one that was asked for.
pub proof fn law_unknown_backend_is_refused(
    v: Seq<CandidateView>,
    p: BackendPreferencesView,
    c: Capability,
    os: Seq<char>,
)
    requires
        explicit_wish(p, c) is Some,
        forall|i: int|
            0 <= i < v.len() ==> (#[trigger] v[i]).descriptor.id != (explicit_wish(p, c)->0).1,
    ensures
        choice(v, p, c, os) is Err,
{
    assert forall|i: int| !named_at(v, (explicit_wish(p, c)->0).1, i) by {}
}

/// Without a wish, the backend is one that provides the capability and can
/// serve, the first of these by name.
pub proof fn law_automatic_backend(
    v: Seq<CandidateView>,
    p: BackendPreferencesView,
    c: Capability,
    os: Seq<char>,
    i: int,
)
    requires
        explicit_wish(p, c) is None,
        0 <= i < v.len(),
        v[i].descriptor.capabilities.contains(c),
        v[i].probe.available,
        forall|j: int|
            0 <= j < v.len() && j != i && (#[trigger] v[j]).descriptor.capabilities.contains(c)
                && v[j].probe.available ==> text_less(v[i].descriptor.id, v[j].descriptor.id),
    ensures
        choice(v, p, c, os) == Ok::<Option<(SelectionSource, CandidateView)>, ManagerErrorView>(
            Some((SelectionSource::Automatic, v[i])),
        ),
        status_of(c, Some((SelectionSource::Automatic, v[i]))).supported,
{
    assert(eligible(v[i], c, true));
    assert(least_at(v, c, true, i));
    let k = choose|k: int| least_at(v, c, true, k);
    assert(least_at(v, c, true, k));
    if k != i {
        assert(eligible(v[k], c, true));
        crate::text::law_text_order_total(v[i].descriptor.id, v[k].descriptor.id);
    }
}

/// Where no backend provides a capability, none is chosen and it is not supported.
pub proof fn law_no_backend(
    v: Seq<CandidateView>,
    p: BackendPreferencesView,
    c: Capability,
    os: Seq<char>,
)
    requires
        explicit_wish(p, c) is None,
        forall|i: int| 0 <= i < v.len() ==> !(#[trigger] v[i]).descriptor.capabilities.contains(c),
    ensures
        choice(v, p, c, os) == Ok::<Option<(SelectionSource, CandidateView)>, ManagerErrorView>(None),
        !status_of(c, None).supported && status_of(c, None).backend_id is None,
{
    assert forall|i: int, available: bool| !least_at(v, c, available, i) by {
        if 0 <= i < v.len() {
            assert(!v[i].descriptor.capabilities.contains(c));
        }
    }
}

/// What is told of a chosen backend: its name, and whether it can serve.
pub proof fn law_status(c: Capability, source: SelectionSource, x: CandidateView)
    ensures
        status_of(c, Some((source, x))).capability == c,
        status_of(c, Some((source, x))).backend_id == Some(x.descriptor.id),
        status_of(c, Some((source, x))).supported == x.probe.available,
        status_of(c, Some((source, x))).reason == x.probe.reason,
{
}

/// A backend of another contract cannot serve; one of this contract is what its
/// probe says.
pub proof fn law_contract(d: BackendDescriptorView, p: BackendProbeView)
    ensures
        d.contract_version != 1 ==> !judged(d, p).available && judged(d, p).reason is Some,
        d.contract_version == 1 ==> judged(d, p) == p,
{
}

proof fn lemma_ids()
    ensures
        mark("arch"@) == (4int, 'a', 'r', 'c', 'h', 'h'),
        mark("systemd"@) == (7int, 's', 's', 't', 'm', 'd'),
        mark("xray-linux-tun"@) == (14int, 'x', '-', 'n', '-', 'n'),
        mark("linux-fhs"@) == (9int, 'l', 'u', 'x', 'f', 's'),
        mark("linux-identity"@) == (14int, 'l', 'x', 'd', 't', 'y'),
        mark("nftables"@) == (8int, 'n', 't', 'b', 'e', 's'),
        mark("iproute2"@) == (8int, 'i', 'r', 'u', 'e', '2'),
        mark("linux-gid-mountns"@) == (17int, 'l', '-', 'd', 'u', 's'),
        mark("kde6"@) == (4int, 'k', 'd', 'e', '6', '6'),
{
    reveal_strlit("arch");
    reveal_strlit("systemd");
    reveal_strlit("xray-linux-tun");
    reveal_strlit("linux-fhs");
    reveal_strlit("linux-identity");
    reveal_strlit("nftables");
    reveal_strlit("iproute2");
    reveal_strlit("linux-gid-mountns");
    reveal_strlit("kde6");
}

/// When a backend can serve: all its programs are there, and the installer is on
/// Arch Linux or EndeavourOS, the service manager runs, and there is a TUN
/// device. One that cannot says why.
pub proof fn law_probe(
    f: LinuxBackendFactoryView,
    missing: Seq<Seq<char>>,
    text: Seq<char>,
    there: bool,
)
    ensures
        ({
            let r = probe_of(f, missing, text, there);
            let id = backends::release_id(lines_of(text));
            &&& missing.len() > 0 ==> !r.available
            &&& missing.len() == 0 && f.id == "arch"@ ==> (r.available <==> id == Some("arch"@) || id
                == Some("endeavouros"@))
            &&& missing.len() == 0 && f.id == "systemd"@ ==> (r.available <==> trimmed(text)
                == "running"@ || trimmed(text) == "degraded"@)
            &&& missing.len() == 0 && f.id == "xray-linux-tun"@ ==> (r.available <==> there)
            &&& missing.len() == 0 && f.id != "arch"@ && f.id != "systemd"@ && f.id
                != "xray-linux-tun"@ ==> r.available
            &&& r.reason is Some <==> !r.available
        }),
{
    lemma_ids();
}

/// The distribution is what the first line that begins with `ID=` says, without
/// its quotes.
pub proof fn law_release_id(lines: Seq<Seq<char>>, id: Seq<char>)
    requires
        lines.len() > 0,
    ensures
        lines[0] == "ID="@ + id && id.len() > 0 && id[0] != '"' && id.last() != '"'
            ==> backends::release_id(lines) == Some(id),
        !crate::text::has_prefix(lines[0], "ID="@) ==> backends::release_id(lines)
            == backends::release_id(lines.drop_first()),
{
    reveal_strlit("ID=");
    if lines[0] == "ID="@ + id {
        assert(lines[0].subrange(0, 3) =~= "ID="@);
        assert(lines[0].skip(3) =~= id);
    }
}

/// Which backend serves what.
pub proof fn law_production(i: int)
    requires
        0 <= i < production().len(),
    ensures
        ({
            let f = production()[i];
            let d = descriptor_of(f);
            &&& d.contract_version == 1 && d.platform == "linux"@ && d.id == f.id && d.capabilities
                == f.capabilities && d.requirements == f.requirements
            &&& f.id == "linux-fhs"@ ==> f.capabilities == seq![Capability::Layout]
            &&& f.id == "arch"@ ==> f.capabilities == seq![
                Capability::Install,
                Capability::PackageAdvice,
            ] && f.requirements == seq!["pacman"@]
            &&& f.id == "linux-identity"@ ==> f.capabilities == seq![Capability::Identity]
                && f.requirements == seq![
                "chown"@,
                "getent"@,
                "groupadd"@,
                "gpasswd"@,
                "id"@,
                "useradd"@,
                "usermod"@,
            ]
            &&& f.id == "systemd"@ ==> f.capabilities == seq![Capability::Service] && f.requirements
                == seq!["systemctl"@, "journalctl"@]
            &&& f.id == "nftables"@ ==> f.capabilities == seq![Capability::Firewall]
                && f.requirements == seq!["nft"@]
            &&& f.id == "iproute2"@ ==> f.capabilities == seq![Capability::PolicyRouting]
                && f.requirements == seq!["ip"@]
            &&& f.id == "xray-linux-tun"@ ==> f.capabilities == seq![Capability::Tun]
                && f.requirements == seq!["ip"@]
            &&& f.id == "linux-gid-mountns"@ ==> f.capabilities == seq![
                Capability::AppRunner,
                Capability::MountIsolation,
            ] && f.requirements == seq!["curl"@, "getent"@, "id"@, "mount"@, "unshare"@]
            &&& f.id == "kde6"@ ==> f.capabilities == seq![Capability::DesktopProxy]
                && f.requirements == seq!["dbus-send"@, "kwriteconfig6"@, "runuser"@]
            &&& production().len() == 9
        }),
{
    lemma_ids();
}

proof fn lemma_programs()
    ensures
        mark("chown"@) == (5int, 'c', 'h', 'o', 'w', 'n'),
        mark("curl"@) == (4int, 'c', 'u', 'r', 'l', 'l'),
        mark("getent"@) == (6int, 'g', 't', 'e', 'n', 't'),
        mark("gpasswd"@) == (7int, 'g', 'a', 's', 'w', 'd'),
        mark("groupadd"@) == (8int, 'g', 'o', 'p', 'd', 'd'),
        mark("useradd"@) == (7int, 'u', 'e', 'r', 'd', 'd'),
        mark("usermod"@) == (7int, 'u', 'e', 'r', 'o', 'd'),
        mark("ip"@) == (2int, 'i', 'i', 'p', 'p', 'p'),
        mark("mount"@) == (5int, 'm', 'o', 'u', 'n', 't'),
        mark("unshare"@) == (7int, 'u', 's', 'h', 'r', 'e'),
        mark("nft"@) == (3int, 'n', 'f', 'f', 't', 't'),
        mark("journalctl"@) == (10int, 'j', 'r', 'a', 'c', 'l'),
        mark("systemctl"@) == (9int, 's', 't', 'e', 'c', 'l'),
{
    reveal_strlit("chown");
    reveal_strlit("curl");
    reveal_strlit("getent");
    reveal_strlit("gpasswd");
    reveal_strlit("groupadd");
    reveal_strlit("useradd");
    reveal_strlit("usermod");
    reveal_strlit("ip");
    reveal_strlit("mount");
    reveal_strlit("unshare");
    reveal_strlit("nft");
    reveal_strlit("journalctl");
    reveal_strlit("systemctl");
}

/// The package that brings a program.
pub proof fn law_packages(program: Seq<char>)
    ensures
        program == "chown"@ ==> package_of(program) == "coreutils"@,
        program == "curl"@ ==> package_of(program) == "curl"@,
        program == "getent"@ ==> package_of(program) == "glibc"@,
        program == "gpasswd"@ ==> package_of(program) == "shadow"@,
        program == "groupadd"@ ==> package_of(program) == "shadow"@,
        program == "useradd"@ ==> package_of(program) == "shadow"@,
        program == "usermod"@ ==> package_of(program) == "shadow"@,
        program == "ip"@ ==> package_of(program) == "iproute2"@,
        program == "mount"@ ==> package_of(program) == "util-linux"@,
        program == "unshare"@ ==> package_of(program) == "util-linux"@,
        program == "nft"@ ==> package_of(program) == "nftables"@,
        program == "journalctl"@ ==> package_of(program) == "systemd"@,
        program == "systemctl"@ ==> package_of(program) == "systemd"@,
        program != "chown"@ && program != "curl"@ && program != "getent"@ && program != "gpasswd"@ && program != "groupadd"@ && program != "useradd"@ && program != "usermod"@ && program != "ip"@ && program != "mount"@ && program != "unshare"@ && program != "nft"@ && program != "journalctl"@ && program != "systemctl"@ ==> package_of(program) == program,
{
    lemma_programs();
}

/// Where an installation lives: its links, its configuration and its stores are
/// below the directories of the layout.
pub proof fn law_layout(name: Seq<char>)
    ensures
        ({
            let p = fhs_layout();
            p.config_dir == "/etc/xray-manager"@ && p.state_dir == "/var/lib/xray-manager"@
                && p.cache_dir == "/var/cache/xray-manager"@ && p.runtime_dir == "/run/xray-manager"@
                && p.install_dir == "/opt/xray-manager"@ && p.executable == "/usr/local/bin/xrayctl"@
                && !p.windows
        }),
        crate::linux::install::store_current(crate::linux::install::Store::Core) == path_join(
            false,
            fhs_layout().install_dir,
            "core/current"@,
        ),
        crate::linux::install::store_current(crate::linux::install::Store::Assets) == path_join(
            false,
            fhs_layout().install_dir,
            "assets/current"@,
        ),
        crate::linux::install::store_current(crate::linux::install::Store::Config) == path_join(
            false,
            fhs_layout().state_dir,
            "current"@,
        ),
        crate::linux::install::store_previous(crate::linux::install::Store::Config) == path_join(
            false,
            fhs_layout().state_dir,
            "previous"@,
        ),
        crate::linux::install::store_root(crate::linux::install::Store::Config) == path_join(
            false,
            fhs_layout().state_dir,
            "generations"@,
        ),
{
    reveal_strlit("/");
    reveal_strlit("/opt/xray-manager");
    reveal_strlit("/var/lib/xray-manager");
    reveal_strlit("core/current");
    reveal_strlit("assets/current");
    reveal_strlit("current");
    reveal_strlit("previous");
    reveal_strlit("generations");
    reveal_strlit("/opt/xray-manager/core/current");
    reveal_strlit("/opt/xray-manager/assets/current");
    reveal_strlit("/var/lib/xray-manager/current");
    reveal_strlit("/var/lib/xray-manager/previous");
    reveal_strlit("/var/lib/xray-manager/generations");
    assert("/opt/xray-manager"@ + "/"@ + "core/current"@ =~= "/opt/xray-manager/core/current"@);
    assert("/opt/xray-manager"@ + "/"@ + "assets/current"@ =~= "/opt/xray-manager/assets/current"@);
    assert("/var/lib/xray-manager"@ + "/"@ + "current"@ =~= "/var/lib/xray-manager/current"@);
    assert("/var/lib/xray-manager"@ + "/"@ + "previous"@ =~= "/var/lib/xray-manager/previous"@);
    assert("/var/lib/xray-manager"@ + "/"@ + "generations"@
        =~= "/var/lib/xray-manager/generations"@);
}

/// The layout below a working directory keeps each kind of file in a directory
/// of its own.
pub proof fn law_portable_layout(windows: bool, root: Seq<char>)
    ensures
        layout_below(windows, root).config_dir == path_join(windows, root, "config"@),
        layout_below(windows, root).state_dir == path_join(windows, root, "state"@),
        layout_below(windows, root).cache_dir == path_join(windows, root, "cache"@),
        layout_below(windows, root).runtime_dir == path_join(windows, root, "run"@),
        layout_below(windows, root).install_dir == path_join(windows, root, "opt"@),
        layout_below(windows, root).executable == path_join(windows, root, "bin/xrayctl"@),
        layout_below(windows, root).windows == windows,
{
}

} // verus!
