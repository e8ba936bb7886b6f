//! The service units, the firewall rules and the routing commands.

use crate::config::{ManagerConfig, TunConfig, TunConfigView};
use crate::text;
use vstd::prelude::*;

verus! {

/// The unit of the proxy service.
pub open spec fn xray_unit() -> Seq<char> {
    "[Unit]
Description=Xray proxy service managed by xrayctl
After=network-online.target xray-tun-policy.service
Wants=network-online.target

[Service]
Type=simple
User=xray
Group=xray
SupplementaryGroups=xray-manager
Environment=XRAY_LOCATION_ASSET=/opt/xray-manager/assets/current
RuntimeDirectory=xray-manager
RuntimeDirectoryMode=0750
ExecStartPre=/opt/xray-manager/core/current/xray run -test -confdir /var/lib/xray-manager/current/conf.d
ExecStart=/opt/xray-manager/core/current/xray run -confdir /var/lib/xray-manager/current/conf.d
ExecStartPost=/usr/local/bin/xrayctl internal tun-attach
ExecStopPost=/usr/local/bin/xrayctl internal tun-detach
Restart=on-failure
RestartSec=3
AmbientCapabilities=CAP_NET_ADMIN CAP_NET_BIND_SERVICE
CapabilityBoundingSet=CAP_NET_ADMIN CAP_NET_BIND_SERVICE
NoNewPrivileges=true
PrivateTmp=true
ProtectHome=true
ProtectSystem=strict
ProtectKernelTunables=true
ProtectKernelModules=true
ProtectControlGroups=true
RestrictSUIDSGID=true
LockPersonality=true
RestrictRealtime=true
DevicePolicy=closed
DeviceAllow=/dev/net/tun rw
ReadOnlyPaths=/etc/xray-manager /opt/xray-manager
ReadWritePaths=/run/xray-manager

[Install]
WantedBy=multi-user.target
"@
}

/// The unit of the proxy service.
pub fn xray_service() -> (r: &'static str)
    ensures
        r@ == xray_unit(),
{
    "[Unit]
Description=Xray proxy service managed by xrayctl
After=network-online.target xray-tun-policy.service
Wants=network-online.target

[Service]
Type=simple
User=xray
Group=xray
SupplementaryGroups=xray-manager
Environment=XRAY_LOCATION_ASSET=/opt/xray-manager/assets/current
RuntimeDirectory=xray-manager
RuntimeDirectoryMode=0750
ExecStartPre=/opt/xray-manager/core/current/xray run -test -confdir /var/lib/xray-manager/current/conf.d
ExecStart=/opt/xray-manager/core/current/xray run -confdir /var/lib/xray-manager/current/conf.d
ExecStartPost=/usr/local/bin/xrayctl internal tun-attach
ExecStopPost=/usr/local/bin/xrayctl internal tun-detach
Restart=on-failure
RestartSec=3
AmbientCapabilities=CAP_NET_ADMIN CAP_NET_BIND_SERVICE
CapabilityBoundingSet=CAP_NET_ADMIN CAP_NET_BIND_SERVICE
NoNewPrivileges=true
PrivateTmp=true
ProtectHome=true
ProtectSystem=strict
ProtectKernelTunables=true
ProtectKernelModules=true
ProtectControlGroups=true
RestrictSUIDSGID=true
LockPersonality=true
RestrictRealtime=true
DevicePolicy=closed
DeviceAllow=/dev/net/tun rw
ReadOnlyPaths=/etc/xray-manager /opt/xray-manager
ReadWritePaths=/run/xray-manager

[Install]
WantedBy=multi-user.target
"
}

/// The unit of the routing policy.
pub open spec fn tun_policy_unit() -> Seq<char> {
    "[Unit]
Description=Selective Xray TUN policy
Before=xray.service

[Service]
Type=oneshot
RemainAfterExit=yes
ExecStart=/usr/local/bin/xrayctl internal tun-policy-up
ExecStop=/usr/local/bin/xrayctl internal tun-policy-down
CapabilityBoundingSet=CAP_NET_ADMIN
AmbientCapabilities=CAP_NET_ADMIN
NoNewPrivileges=true
PrivateTmp=true
ProtectHome=true
ProtectSystem=strict
ProtectKernelTunables=true
ProtectKernelModules=true
ProtectControlGroups=true

[Install]
WantedBy=multi-user.target
"@
}

/// The unit of the routing policy.
pub fn tun_policy_service() -> (r: &'static str)
    ensures
        r@ == tun_policy_unit(),
{
    "[Unit]
Description=Selective Xray TUN policy
Before=xray.service

[Service]
Type=oneshot
RemainAfterExit=yes
ExecStart=/usr/local/bin/xrayctl internal tun-policy-up
ExecStop=/usr/local/bin/xrayctl internal tun-policy-down
CapabilityBoundingSet=CAP_NET_ADMIN
AmbientCapabilities=CAP_NET_ADMIN
NoNewPrivileges=true
PrivateTmp=true
ProtectHome=true
ProtectSystem=strict
ProtectKernelTunables=true
ProtectKernelModules=true
ProtectControlGroups=true

[Install]
WantedBy=multi-user.target
"
}

/// The rule that leaves private IPv4 networks alone, where they are left alone.
pub open spec fn private_ipv4(bypass: bool) -> Seq<char> {
    if bypass {
        "ip daddr { 10.0.0.0/8, 172.16.0.0/12, 192.168.0.0/16 } return"@
    } else {
        ""@
    }
}

/// The rule that leaves private IPv6 networks alone, where they are left alone.
pub open spec fn private_ipv6(bypass: bool) -> Seq<char> {
    if bypass {
        "ip6 daddr fc00::/7 return"@
    } else {
        ""@
    }
}

/// The firewall rules: the packets of the group `gid` get the mark, but for
/// those to the host itself and to the networks that are left alone.
pub open spec fn nftables_rules(t: TunConfigView, gid: u32) -> Seq<char> {
    "table inet xray_manager {\n"@ + "  chain output {\n"@
        + "    type route hook output priority mangle; policy accept;\n"@
        + "    oifname \"lo\" return\n"@ + "    ip daddr 127.0.0.0/8 return\n"@
        + "    ip daddr 169.254.0.0/16 return\n"@ + "    ip daddr 224.0.0.0/4 return\n"@
        + "    ip6 daddr ::1 return\n"@ + "    ip6 daddr fe80::/10 return\n"@
        + "    ip6 daddr ff00::/8 return\n"@ + "    "@ + private_ipv4(
        t.bypass_private_networks,
    ) + "\n    "@ + private_ipv6(t.bypass_private_networks) + "\n    meta skgid "@ + text::decimal(
        gid as nat,
    ) + " meta mark set "@ + text::decimal(t.packet_mark as nat) + "\n  }\n}\n"@
}

/// The firewall rules for the packets of the group `tun_gid`.
pub fn nftables(config: &TunConfig, tun_gid: u32) -> (r: String)
    ensures
        r@ == nftables_rules(config@, tun_gid),
{
    let mut r = text::owned("table inet xray_manager {\n");
    r.append("  chain output {\n");
    r.append("    type route hook output priority mangle; policy accept;\n");
    r.append("    oifname \"lo\" return\n");
    r.append("    ip daddr 127.0.0.0/8 return\n");
    r.append("    ip daddr 169.254.0.0/16 return\n");
    r.append("    ip daddr 224.0.0.0/4 return\n");
    r.append("    ip6 daddr ::1 return\n");
    r.append("    ip6 daddr fe80::/10 return\n");
    r.append("    ip6 daddr ff00::/8 return\n");
    r.append("    ");
    r.append(
        if config.bypass_private_networks {
            "ip daddr { 10.0.0.0/8, 172.16.0.0/12, 192.168.0.0/16 } return"
        } else {
            ""
        },
    );
    r.append("\n    ");
    r.append(
        if config.bypass_private_networks {
            "ip6 daddr fc00::/7 return"
        } else {
            ""
        },
    );
    r.append("\n    meta skgid ");
    r.append(text::decimal_of(tun_gid as u64).as_str());
    r.append(" meta mark set ");
    r.append(text::decimal_of(config.packet_mark as u64).as_str());
    r.append("\n  }\n}\n");
    r
}

/// The texts of a command.
pub open spec fn commands_of(v: Seq<Vec<String>>) -> Seq<Seq<Seq<char>>> {
    v.map_values(|c: Vec<String>| text::texts(c@))
}

/// Marked packets look up the dedicated table, where the last resort is to
/// drop them, for both families.
pub open spec fn policy_routes(t: TunConfigView) -> Seq<Seq<Seq<char>>> {
    let mark = text::decimal(t.packet_mark as nat);
    let table = text::decimal(t.routing_table as nat);
    seq![
        seq!["ip"@, "rule"@, "add"@, "fwmark"@, mark, "lookup"@, table],
        seq![
            "ip"@,
            "route"@,
            "add"@,
            "blackhole"@,
            "default"@,
            "table"@,
            table,
            "metric"@,
            "32767"@,
        ],
        seq!["ip"@, "-6"@, "rule"@, "add"@, "fwmark"@, mark, "lookup"@, table],
        seq![
            "ip"@,
            "-6"@,
            "route"@,
            "add"@,
            "unreachable"@,
            "default"@,
            "table"@,
            table,
            "metric"@,
            "32767"@,
        ],
    ]
}

/// The routing commands.
pub fn policy_commands(config: &ManagerConfig) -> (r: Vec<Vec<String>>)
    ensures
        commands_of(r@) == policy_routes(config@.tun),
{
    let mark = text::decimal_of(config.tun.packet_mark as u64);
    let table = text::decimal_of(config.tun.routing_table as u64);
    let first: Vec<String> = vec![
        text::owned("ip"),
        text::owned("rule"),
        text::owned("add"),
        text::owned("fwmark"),
        mark.clone(),
        text::owned("lookup"),
        table.clone(),
    ];
    let second: Vec<String> = vec![
        text::owned("ip"),
        text::owned("route"),
        text::owned("add"),
        text::owned("blackhole"),
        text::owned("default"),
        text::owned("table"),
        table.clone(),
        text::owned("metric"),
        text::owned("32767"),
    ];
    let third: Vec<String> = vec![
        text::owned("ip"),
        text::owned("-6"),
        text::owned("rule"),
        text::owned("add"),
        text::owned("fwmark"),
        mark,
        text::owned("lookup"),
        table.clone(),
    ];
    let fourth: Vec<String> = vec![
        text::owned("ip"),
        text::owned("-6"),
        text::owned("route"),
        text::owned("add"),
        text::owned("unreachable"),
        text::owned("default"),
        text::owned("table"),
        table,
        text::owned("metric"),
        text::owned("32767"),
    ];
    let ghost want = policy_routes(config@.tun);
    assert(text::texts(first@) =~= want[0]);
    assert(text::texts(second@) =~= want[1]);
    assert(text::texts(third@) =~= want[2]);
    assert(text::texts(fourth@) =~= want[3]);
    let r: Vec<Vec<String>> = vec![first, second, third, fourth];
    assert(commands_of(r@) =~= want);
    r
}

/// Behind every `f` stands another character than `l`.
pub open spec fn no_fl(s: Seq<char>) -> bool {
    forall|i: int| 0 <= i < s.len() && #[trigger] s[i] == 'f' ==> i + 1 < s.len() && s[i + 1] != 'l'
}

proof fn lemma_no_fl_concat(a: Seq<char>, b: Seq<char>)
    requires
        no_fl(a),
        no_fl(b),
    ensures
        no_fl(a + b),
{
    assert forall|i: int| 0 <= i < (a + b).len() && #[trigger] (a + b)[i] == 'f' implies i + 1 < (a
        + b).len() && (a + b)[i + 1] != 'l' by {
        if i < a.len() {
            assert(a[i] == 'f');
            assert((a + b)[i + 1] == a[i + 1]);
        } else {
            assert(b[i - a.len()] == 'f');
            assert((a + b)[i + 1] == b[i + 1 - a.len()]);
        }
    }
}

proof fn lemma_no_fl_decimal(n: nat)
    ensures
        no_fl(text::decimal(n)),
{
    text::law_decimal_reads_back(n);
    let d = text::decimal(n);
    assert forall|i: int| 0 <= i < d.len() implies #[trigger] d[i] != 'f' by {
        assert(text::is_digit(d[i]));
    }
}

proof fn lemma_no_fl_head()
    ensures
        no_fl("table inet xray_manager {\n"@),
        no_fl("  chain output {\n"@),
        no_fl("    type route hook output priority mangle; policy accept;\n"@),
        no_fl("    oifname \"lo\" return\n"@),
        no_fl("    ip daddr 127.0.0.0/8 return\n"@),
        no_fl("    ip daddr 169.254.0.0/16 return\n"@),
        no_fl("    ip daddr 224.0.0.0/4 return\n"@),
{
    reveal_strlit("table inet xray_manager {\n");
    reveal_strlit("  chain output {\n");
    reveal_strlit("    type route hook output priority mangle; policy accept;\n");
    reveal_strlit("    oifname \"lo\" return\n");
    reveal_strlit("    ip daddr 127.0.0.0/8 return\n");
    reveal_strlit("    ip daddr 169.254.0.0/16 return\n");
    reveal_strlit("    ip daddr 224.0.0.0/4 return\n");
}

proof fn lemma_no_fl_tail()
    ensures
        no_fl("    ip6 daddr ::1 return\n"@),
        no_fl("    ip6 daddr fe80::/10 return\n"@),
        no_fl("    ip6 daddr ff00::/8 return\n"@),
        no_fl("    "@),
        no_fl("\n    "@),
        no_fl("\n    meta skgid "@),
        no_fl(" meta mark set "@),
        no_fl("\n  }\n}\n"@),
        no_fl("ip daddr { 10.0.0.0/8, 172.16.0.0/12, 192.168.0.0/16 } return"@),
        no_fl("ip6 daddr fc00::/7 return"@),
        no_fl(""@),
{
    reveal_strlit("    ip6 daddr ::1 return\n");
    reveal_strlit("    ip6 daddr fe80::/10 return\n");
    reveal_strlit("    ip6 daddr ff00::/8 return\n");
    reveal_strlit("    ");
    reveal_strlit("\n    ");
    reveal_strlit("\n    meta skgid ");
    reveal_strlit(" meta mark set ");
    reveal_strlit("\n  }\n}\n");
    reveal_strlit("ip daddr { 10.0.0.0/8, 172.16.0.0/12, 192.168.0.0/16 } return");
    reveal_strlit("ip6 daddr fc00::/7 return");
    reveal_strlit("");
}

/// The rules never flush the ruleset of the host, whatever the configuration.
pub proof fn law_never_flushes_ruleset(t: TunConfigView, gid: u32)
    ensures
        !text::has_infix(nftables_rules(t, gid), "flush ruleset"@),
{
    lemma_no_fl_head();
    lemma_no_fl_tail();
    lemma_no_fl_decimal(gid as nat);
    lemma_no_fl_decimal(t.packet_mark as nat);
    let s0 = "table inet xray_manager {\n"@;
    let s1 = s0 + "  chain output {\n"@;
    lemma_no_fl_concat(s0, "  chain output {\n"@);
    let s2 = s1 + "    type route hook output priority mangle; policy accept;\n"@;
    lemma_no_fl_concat(s1, "    type route hook output priority mangle; policy accept;\n"@);
    let s3 = s2 + "    oifname \"lo\" return\n"@;
    lemma_no_fl_concat(s2, "    oifname \"lo\" return\n"@);
    let s4 = s3 + "    ip daddr 127.0.0.0/8 return\n"@;
    lemma_no_fl_concat(s3, "    ip daddr 127.0.0.0/8 return\n"@);
    let s5 = s4 + "    ip daddr 169.254.0.0/16 return\n"@;
    lemma_no_fl_concat(s4, "    ip daddr 169.254.0.0/16 return\n"@);
    let s6 = s5 + "    ip daddr 224.0.0.0/4 return\n"@;
    lemma_no_fl_concat(s5, "    ip daddr 224.0.0.0/4 return\n"@);
    let s7 = s6 + "    ip6 daddr ::1 return\n"@;
    lemma_no_fl_concat(s6, "    ip6 daddr ::1 return\n"@);
    let s8 = s7 + "    ip6 daddr fe80::/10 return\n"@;
    lemma_no_fl_concat(s7, "    ip6 daddr fe80::/10 return\n"@);
    let s9 = s8 + "    ip6 daddr ff00::/8 return\n"@;
    lemma_no_fl_concat(s8, "    ip6 daddr ff00::/8 return\n"@);
    let s10 = s9 + "    "@;
    lemma_no_fl_concat(s9, "    "@);
    let s11 = s10 + private_ipv4(t.bypass_private_networks);
    lemma_no_fl_concat(s10, private_ipv4(t.bypass_private_networks));
    let s12 = s11 + "\n    "@;
    lemma_no_fl_concat(s11, "\n    "@);
    let s13 = s12 + private_ipv6(t.bypass_private_networks);
    lemma_no_fl_concat(s12, private_ipv6(t.bypass_private_networks));
    let s14 = s13 + "\n    meta skgid "@;
    lemma_no_fl_concat(s13, "\n    meta skgid "@);
    let s15 = s14 + text::decimal(gid as nat);
    lemma_no_fl_concat(s14, text::decimal(gid as nat));
    let s16 = s15 + " meta mark set "@;
    lemma_no_fl_concat(s15, " meta mark set "@);
    let s17 = s16 + text::decimal(t.packet_mark as nat);
    lemma_no_fl_concat(s16, text::decimal(t.packet_mark as nat));
    let s18 = s17 + "\n  }\n}\n"@;
    lemma_no_fl_concat(s17, "\n  }\n}\n"@);
    assert(s18 == nftables_rules(t, gid));
    reveal_strlit("flush ruleset");
    assert forall|i: int| !text::occurs_at(s18, "flush ruleset"@, i) by {
        if text::occurs_at(s18, "flush ruleset"@, i) {
            let part = s18.subrange(i, i + "flush ruleset"@.len());
            assert(part[0] == s18[i]);
            assert(part[1] == s18[i + 1]);
        }
    }
}

/// The command names only the table and the mark of the configuration.
pub open spec fn keeps_to(c: Seq<Seq<char>>, mark: Seq<char>, table: Seq<char>) -> bool {
    forall|j: int| 0 <= j < c.len() ==> {
        &&& #[trigger] c[j] == "fwmark"@ ==> j + 1 < c.len() && c[j + 1] == mark
        &&& c[j] == "lookup"@ || c[j] == "table"@ ==> j + 1 < c.len() && c[j + 1] == table
    }
}

/// The routing commands touch no table and no mark but those of the configuration.
pub proof fn law_policy_keeps_to_its_table(t: TunConfigView, i: int)
    requires
        0 <= i < policy_routes(t).len(),
    ensures
        keeps_to(
            policy_routes(t)[i],
            text::decimal(t.packet_mark as nat),
            text::decimal(t.routing_table as nat),
        ),
{
    text::law_decimal_reads_back(t.packet_mark as nat);
    text::law_decimal_reads_back(t.routing_table as nat);
    assert(text::is_digit(text::decimal(t.packet_mark as nat)[0]));
    assert(text::is_digit(text::decimal(t.routing_table as nat)[0]));
    lemma_words();
    assert(policy_routes(t).len() == 4);
}

/// For both families the dedicated table ends in a default route that drops
/// the packet: a blackhole for IPv4, and unreachable for IPv6.
pub proof fn law_policy_fails_closed(t: TunConfigView)
    ensures
        policy_routes(t)[1].subrange(3, 7) =~= seq![
            "blackhole"@,
            "default"@,
            "table"@,
            text::decimal(t.routing_table as nat),
        ],
        policy_routes(t)[3].subrange(4, 8) =~= seq![
            "unreachable"@,
            "default"@,
            "table"@,
            text::decimal(t.routing_table as nat),
        ],
{
}

/// The words of the commands differ from those that name a table or a mark.
pub proof fn lemma_words()
    ensures
        !text::is_digit("fwmark"@[0]),
        "ip"@ != "fwmark"@,
        "rule"@ != "fwmark"@,
        "add"@ != "fwmark"@,
        "del"@ != "fwmark"@,
        "lookup"@ != "fwmark"@,
        "route"@ != "fwmark"@,
        "blackhole"@ != "fwmark"@,
        "default"@ != "fwmark"@,
        "table"@ != "fwmark"@,
        "metric"@ != "fwmark"@,
        "32767"@ != "fwmark"@,
        "-6"@ != "fwmark"@,
        "unreachable"@ != "fwmark"@,
        "replace"@ != "fwmark"@,
        "flush"@ != "fwmark"@,
        "link"@ != "fwmark"@,
        "show"@ != "fwmark"@,
        "dev"@ != "fwmark"@,
        "100"@ != "fwmark"@,
        !text::is_digit("lookup"@[0]),
        "ip"@ != "lookup"@,
        "rule"@ != "lookup"@,
        "add"@ != "lookup"@,
        "del"@ != "lookup"@,
        "fwmark"@ != "lookup"@,
        "route"@ != "lookup"@,
        "blackhole"@ != "lookup"@,
        "default"@ != "lookup"@,
        "table"@ != "lookup"@,
        "metric"@ != "lookup"@,
        "32767"@ != "lookup"@,
        "-6"@ != "lookup"@,
        "unreachable"@ != "lookup"@,
        "replace"@ != "lookup"@,
        "flush"@ != "lookup"@,
        "link"@ != "lookup"@,
        "show"@ != "lookup"@,
        "dev"@ != "lookup"@,
        "100"@ != "lookup"@,
        !text::is_digit("table"@[0]),
        "ip"@ != "table"@,
        "rule"@ != "table"@,
        "add"@ != "table"@,
        "del"@ != "table"@,
        "fwmark"@ != "table"@,
        "lookup"@ != "table"@,
        "route"@ != "table"@,
        "blackhole"@ != "table"@,
        "default"@ != "table"@,
        "metric"@ != "table"@,
        "32767"@ != "table"@,
        "-6"@ != "table"@,
        "unreachable"@ != "table"@,
        "replace"@ != "table"@,
        "flush"@ != "table"@,
        "link"@ != "table"@,
        "show"@ != "table"@,
        "dev"@ != "table"@,
        "100"@ != "table"@,
{
    reveal_strlit("ip");
    reveal_strlit("rule");
    reveal_strlit("add");
    reveal_strlit("del");
    reveal_strlit("fwmark");
    reveal_strlit("lookup");
    reveal_strlit("route");
    reveal_strlit("blackhole");
    reveal_strlit("default");
    reveal_strlit("table");
    reveal_strlit("metric");
    reveal_strlit("32767");
    reveal_strlit("-6");
    reveal_strlit("unreachable");
    reveal_strlit("replace");
    reveal_strlit("flush");
    reveal_strlit("link");
    reveal_strlit("show");
    reveal_strlit("dev");
    reveal_strlit("100");
    assert("ip"@.len() != "fwmark"@.len());
    assert("rule"@.len() != "fwmark"@.len());
    assert("add"@.len() != "fwmark"@.len());
    assert("del"@.len() != "fwmark"@.len());
    assert("lookup"@[0] != "fwmark"@[0]);
    assert("route"@.len() != "fwmark"@.len());
    assert("blackhole"@.len() != "fwmark"@.len());
    assert("default"@.len() != "fwmark"@.len());
    assert("table"@.len() != "fwmark"@.len());
    assert("metric"@[0] != "fwmark"@[0]);
    assert("32767"@.len() != "fwmark"@.len());
    assert("-6"@.len() != "fwmark"@.len());
    assert("unreachable"@.len() != "fwmark"@.len());
    assert("replace"@.len() != "fwmark"@.len());
    assert("flush"@.len() != "fwmark"@.len());
    assert("link"@.len() != "fwmark"@.len());
    assert("show"@.len() != "fwmark"@.len());
    assert("dev"@.len() != "fwmark"@.len());
    assert("100"@.len() != "fwmark"@.len());
    assert("ip"@.len() != "lookup"@.len());
    assert("rule"@.len() != "lookup"@.len());
    assert("add"@.len() != "lookup"@.len());
    assert("del"@.len() != "lookup"@.len());
    assert("fwmark"@[0] != "lookup"@[0]);
    assert("route"@.len() != "lookup"@.len());
    assert("blackhole"@.len() != "lookup"@.len());
    assert("default"@.len() != "lookup"@.len());
    assert("table"@.len() != "lookup"@.len());
    assert("metric"@[0] != "lookup"@[0]);
    assert("32767"@.len() != "lookup"@.len());
    assert("-6"@.len() != "lookup"@.len());
    assert("unreachable"@.len() != "lookup"@.len());
    assert("replace"@.len() != "lookup"@.len());
    assert("flush"@.len() != "lookup"@.len());
    assert("link"@.len() != "lookup"@.len());
    assert("show"@.len() != "lookup"@.len());
    assert("dev"@.len() != "lookup"@.len());
    assert("100"@.len() != "lookup"@.len());
    assert("ip"@.len() != "table"@.len());
    assert("rule"@.len() != "table"@.len());
    assert("add"@.len() != "table"@.len());
    assert("del"@.len() != "table"@.len());
    assert("fwmark"@.len() != "table"@.len());
    assert("lookup"@.len() != "table"@.len());
    assert("route"@[0] != "table"@[0]);
    assert("blackhole"@.len() != "table"@.len());
    assert("default"@.len() != "table"@.len());
    assert("metric"@.len() != "table"@.len());
    assert("32767"@[0] != "table"@[0]);
    assert("-6"@.len() != "table"@.len());
    assert("unreachable"@.len() != "table"@.len());
    assert("replace"@.len() != "table"@.len());
    assert("flush"@[0] != "table"@[0]);
    assert("link"@.len() != "table"@.len());
    assert("show"@.len() != "table"@.len());
    assert("dev"@.len() != "table"@.len());
    assert("100"@.len() != "table"@.len());
}

} // verus!
