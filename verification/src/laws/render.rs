//! What stands in a rendered configuration, by the names that Xray reads.

use crate::config::ManagerConfigView;
use crate::domain::{NodeView, Protocol};
use crate::json::JsonView;
use crate::json::opt_view;
use crate::laws::reading::{item, mark, member, number, text};
use crate::render::{node_outbound, rendered_files, Members};
use crate::render;
use crate::routing::RoutingConfigView;
use crate::text::{ascii_lower, parsed_unsigned};
use vstd::prelude::*;

verus! {

proof fn lemma_files()
    ensures
        mark("00_log.json"@) == (11int, '0', 'l', 'g', 's', 'n'),
        mark("10_dns.json"@) == (11int, '1', 'd', 's', 's', 'n'),
        mark("20_inbounds.json"@) == (16int, '2', 'b', 'n', 'j', 'n'),
        mark("30_outbounds.json"@) == (17int, '3', 't', 'u', '.', 'n'),
        mark("40_routing.json"@) == (15int, '4', 'u', 'i', 'j', 'n'),
        mark("50_policy.json"@) == (14int, '5', 'o', 'c', 'j', 'n'),
        mark("80_custom.json"@) == (14int, '8', 'u', 'o', 'j', 'n'),
{
    reveal_strlit("00_log.json");
    reveal_strlit("10_dns.json");
    reveal_strlit("20_inbounds.json");
    reveal_strlit("30_outbounds.json");
    reveal_strlit("40_routing.json");
    reveal_strlit("50_policy.json");
    reveal_strlit("80_custom.json");
}

proof fn lemma_keys()
    ensures
        mark("tag"@) == (3int, 't', 'a', 'a', 'g', 'g'),
        mark("protocol"@) == (8int, 'p', 'o', 'o', 'o', 'l'),
        mark("settings"@) == (8int, 's', 't', 'i', 'g', 's'),
        mark("streamSettings"@) == (14int, 's', 'a', 'e', 'i', 's'),
        mark("address"@) == (7int, 'a', 'd', 'r', 's', 's'),
        mark("port"@) == (4int, 'p', 'o', 'r', 't', 't'),
        mark("users"@) == (5int, 'u', 's', 'e', 'r', 's'),
        mark("id"@) == (2int, 'i', 'i', 'd', 'd', 'd'),
        mark("encryption"@) == (10int, 'e', 'r', 'p', 'i', 'n'),
        mark("flow"@) == (4int, 'f', 'l', 'o', 'w', 'w'),
        mark("alterId"@) == (7int, 'a', 't', 'e', 'I', 'd'),
        mark("security"@) == (8int, 's', 'c', 'r', 't', 'y'),
        mark("password"@) == (8int, 'p', 's', 'w', 'r', 'd'),
        mark("method"@) == (6int, 'm', 't', 'h', 'o', 'd'),
        mark("network"@) == (7int, 'n', 't', 'w', 'r', 'k'),
        mark("version"@) == (7int, 'v', 'r', 's', 'o', 'n'),
        mark("auth"@) == (4int, 'a', 'u', 't', 'h', 'h'),
        mark("hysteriaSettings"@) == (16int, 'h', 'r', 'S', 'i', 's'),
        mark("finalmask"@) == (9int, 'f', 'a', 'l', 'a', 'k'),
        mark("rawSettings"@) == (11int, 'r', 'S', 't', 'n', 's'),
        mark("realitySettings"@) == (15int, 'r', 't', 'S', 'i', 's'),
        mark("tlsSettings"@) == (11int, 't', 'S', 't', 'n', 's'),
        mark("wsSettings"@) == (10int, 'w', 'e', 't', 'n', 's'),
        mark("grpcSettings"@) == (12int, 'g', 'S', 't', 'n', 's'),
        mark("httpupgradeSettings"@) == (19int, 'h', 'g', 'd', 't', 's'),
        mark("xhttpSettings"@) == (13int, 'x', 'p', 'e', 'i', 's'),
        mark("listen"@) == (6int, 'l', 's', 't', 'e', 'n'),
        mark("sniffing"@) == (8int, 's', 'i', 'f', 'n', 'g'),
        mark("name"@) == (4int, 'n', 'a', 'm', 'e', 'e'),
        mark("mtu"@) == (3int, 'm', 't', 't', 'u', 'u'),
        mark("gateway"@) == (7int, 'g', 't', 'e', 'a', 'y'),
        mark("autoOutboundsInterface"@) == (22int, 'a', 'b', 'd', 'e', 'e'),
{
    reveal_strlit("tag");
    reveal_strlit("protocol");
    reveal_strlit("settings");
    reveal_strlit("streamSettings");
    reveal_strlit("address");
    reveal_strlit("port");
    reveal_strlit("users");
    reveal_strlit("id");
    reveal_strlit("encryption");
    reveal_strlit("flow");
    reveal_strlit("alterId");
    reveal_strlit("security");
    reveal_strlit("password");
    reveal_strlit("method");
    reveal_strlit("network");
    reveal_strlit("version");
    reveal_strlit("auth");
    reveal_strlit("hysteriaSettings");
    reveal_strlit("finalmask");
    reveal_strlit("rawSettings");
    reveal_strlit("realitySettings");
    reveal_strlit("tlsSettings");
    reveal_strlit("wsSettings");
    reveal_strlit("grpcSettings");
    reveal_strlit("httpupgradeSettings");
    reveal_strlit("xhttpSettings");
    reveal_strlit("listen");
    reveal_strlit("sniffing");
    reveal_strlit("name");
    reveal_strlit("mtu");
    reveal_strlit("gateway");
    reveal_strlit("autoOutboundsInterface");
}

proof fn lemma_settings()
    ensures
        mark("serverName"@) == (10int, 's', 'v', 'r', 'a', 'e'),
        mark("fingerprint"@) == (11int, 'f', 'g', 'r', 'i', 't'),
        mark("alpn"@) == (4int, 'a', 'l', 'p', 'n', 'n'),
        mark("password"@) == (8int, 'p', 's', 'w', 'r', 'd'),
        mark("publicKey"@) == (9int, 'p', 'l', 'i', 'K', 'y'),
        mark("shortId"@) == (7int, 's', 'o', 'r', 'I', 'd'),
        mark("spiderX"@) == (7int, 's', 'i', 'd', 'r', 'X'),
        mark("allowInsecure"@) == (13int, 'a', 'w', 'n', 'c', 'e'),
        mark("pinnedPeerCertSha256"@) == (20int, 'p', 'P', 'C', 'h', '6'),
        mark("enabled"@) == (7int, 'e', 'a', 'b', 'e', 'd'),
        mark("destOverride"@) == (12int, 'd', 'O', 'e', 'i', 'e'),
        mark("handshake"@) == (9int, 'h', 'd', 's', 'a', 'e'),
        mark("connIdle"@) == (8int, 'c', 'n', 'I', 'l', 'e'),
        mark("path"@) == (4int, 'p', 'a', 't', 'h', 'h'),
        mark("host"@) == (4int, 'h', 'o', 's', 't', 't'),
        mark("serviceName"@) == (11int, 's', 'v', 'c', 'a', 'e'),
        mark("authority"@) == (9int, 'a', 'h', 'o', 'i', 'y'),
        mark("mode"@) == (4int, 'm', 'o', 'd', 'e', 'e'),
{
    reveal_strlit("serverName");
    reveal_strlit("fingerprint");
    reveal_strlit("alpn");
    reveal_strlit("password");
    reveal_strlit("publicKey");
    reveal_strlit("shortId");
    reveal_strlit("spiderX");
    reveal_strlit("allowInsecure");
    reveal_strlit("pinnedPeerCertSha256");
    reveal_strlit("enabled");
    reveal_strlit("destOverride");
    reveal_strlit("handshake");
    reveal_strlit("connIdle");
    reveal_strlit("path");
    reveal_strlit("host");
    reveal_strlit("serviceName");
    reveal_strlit("authority");
    reveal_strlit("mode");
}

proof fn lemma_networks()
    ensures
        mark("tcp"@) == (3int, 't', 'c', 'c', 'p', 'p'),
        mark("raw"@) == (3int, 'r', 'a', 'a', 'w', 'w'),
        mark("websocket"@) == (9int, 'w', 's', 'o', 'k', 't'),
        mark("ws"@) == (2int, 'w', 'w', 's', 's', 's'),
        mark("grpc"@) == (4int, 'g', 'r', 'p', 'c', 'c'),
        mark("httpupgrade"@) == (11int, 'h', 'p', 'p', 'a', 'e'),
        mark("xhttp"@) == (5int, 'x', 'h', 't', 't', 'p'),
        mark("splithttp"@) == (9int, 's', 'i', 't', 't', 'p'),
        mark("hysteria"@) == (8int, 'h', 's', 'e', 'i', 'a'),
        mark("reality"@) == (7int, 'r', 'a', 'l', 't', 'y'),
        mark("tls"@) == (3int, 't', 'l', 'l', 's', 's'),
{
    reveal_strlit("tcp");
    reveal_strlit("raw");
    reveal_strlit("websocket");
    reveal_strlit("ws");
    reveal_strlit("grpc");
    reveal_strlit("httpupgrade");
    reveal_strlit("xhttp");
    reveal_strlit("splithttp");
    reveal_strlit("hysteria");
    reveal_strlit("reality");
    reveal_strlit("tls");
}

/// The files of a configuration are these seven.
pub proof fn law_rendered_file_names(
    c: ManagerConfigView,
    node: Option<NodeView>,
    routing: RoutingConfigView,
    custom: Seq<JsonView>,
    files: Members,
    name: Seq<char>,
)
    requires
        rendered_files(c, node, routing, custom) == Ok::<Members, crate::error::ManagerErrorView>(files),
    ensures
        files.contains_key(name) <==> (name == "00_log.json"@ || name == "10_dns.json"@ || name
            == "20_inbounds.json"@ || name == "30_outbounds.json"@ || name == "40_routing.json"@ || name
            == "50_policy.json"@ || name == "80_custom.json"@),
{
}

/// The outbounds of every configuration are `proxy`, `direct` and `block`, in
/// this order. What goes to `direct` leaves the host as it is, and what goes to
/// `block` is dropped; without a node, what goes to `proxy` is dropped too.
pub proof fn law_rendered_outbounds(
    c: ManagerConfigView,
    node: Option<NodeView>,
    routing: RoutingConfigView,
    custom: Seq<JsonView>,
    files: Members,
)
    requires
        rendered_files(c, node, routing, custom) == Ok::<Members, crate::error::ManagerErrorView>(files),
    ensures
        ({
            let all = member(member(Some(JsonView::Object(files)), "30_outbounds.json"@), "outbounds"@);
            &&& all matches Some(JsonView::Array(v)) && v.len() == 3
            &&& member(item(all, 0), "tag"@) == text("proxy"@)
            &&& member(item(all, 1), "tag"@) == text("direct"@)
            &&& member(item(all, 1), "protocol"@) == text("freedom"@)
            &&& member(item(all, 2), "tag"@) == text("block"@)
            &&& member(item(all, 2), "protocol"@) == text("blackhole"@)
            &&& node is None ==> member(item(all, 0), "protocol"@) == text("blackhole"@)
            &&& node matches Some(n) ==> item(all, 0) == Some(node_outbound(n)->Ok_0)
        }),
{
    lemma_files();
    lemma_keys();
}

/// The inbounds of every configuration: SOCKS and HTTP on the configured
/// address and ports, and the TUN interface exactly where TUN is enabled.
pub proof fn law_rendered_inbounds(
    c: ManagerConfigView,
    node: Option<NodeView>,
    routing: RoutingConfigView,
    custom: Seq<JsonView>,
    files: Members,
)
    requires
        rendered_files(c, node, routing, custom) == Ok::<Members, crate::error::ManagerErrorView>(files),
    ensures
        ({
            let all = member(member(Some(JsonView::Object(files)), "20_inbounds.json"@), "inbounds"@);
            let socks = item(all, 0);
            let http = item(all, 1);
            let tun = item(all, 2);
            &&& all matches Some(JsonView::Array(v)) && v.len() == (if c.tun.enabled {
                3int
            } else {
                2
            })
            &&& member(socks, "tag"@) == text("socks-in"@)
            &&& member(socks, "protocol"@) == text("socks"@)
            &&& member(socks, "listen"@) == text(c.proxy.listen.text())
            &&& member(socks, "port"@) == number(c.proxy.socks_port as nat)
            &&& member(member(socks, "settings"@), "udp"@) == Some(JsonView::Bool(c.proxy.udp))
            &&& member(member(socks, "sniffing"@), "enabled"@) == Some(
                JsonView::Bool(c.proxy.sniffing),
            )
            &&& member(http, "tag"@) == text("http-in"@)
            &&& member(http, "protocol"@) == text("http"@)
            &&& member(http, "listen"@) == text(c.proxy.listen.text())
            &&& member(http, "port"@) == number(c.proxy.http_port as nat)
            &&& member(member(http, "sniffing"@), "enabled"@) == Some(
                JsonView::Bool(c.proxy.sniffing),
            )
            &&& item(member(member(http, "sniffing"@), "destOverride"@), 0) == text("http"@)
            &&& item(member(member(http, "sniffing"@), "destOverride"@), 1) == text("tls"@)
            &&& c.tun.enabled ==> {
                &&& member(tun, "tag"@) == text("tun-in"@)
                &&& member(tun, "protocol"@) == text("tun"@)
                &&& member(member(tun, "settings"@), "name"@) == text(c.tun.interface_name)
                &&& member(member(tun, "settings"@), "mtu"@) == number(c.tun.mtu as nat)
                &&& item(member(member(tun, "settings"@), "gateway"@), 0) == text(
                    c.tun.ipv4_gateway,
                )
                &&& item(member(member(tun, "settings"@), "gateway"@), 1) == (if c.tun.ipv6_enabled {
                    text("fd00:31:255::1/126"@)
                } else {
                    None
                })
                &&& member(member(tun, "settings"@), "autoOutboundsInterface"@) == text("auto"@)
                &&& member(member(tun, "sniffing"@), "enabled"@) == Some(
                    JsonView::Bool(c.proxy.sniffing),
                )
            }
        }),
{
    lemma_files();
    lemma_keys();
    lemma_settings();
    let local = seq![
        render::local_inbound(
            "socks-in"@,
            c,
            c.proxy.socks_port,
            "socks"@,
            render::no_members().insert("udp"@, JsonView::Bool(c.proxy.udp)),
        ),
        render::local_inbound("http-in"@, c, c.proxy.http_port, "http"@, render::no_members()),
    ];
    let all = render::inbounds(c);
    assert(all[0] == local[0]);
    assert(all[1] == local[1]);
    if c.tun.enabled {
        assert(all[2] == render::tun_inbound(c));
    }
}

/// The other files: the log, DNS, the timeouts, and the custom members where
/// there are any.
pub proof fn law_rendered_rest(
    c: ManagerConfigView,
    node: Option<NodeView>,
    routing: RoutingConfigView,
    custom: Seq<JsonView>,
    files: Members,
)
    requires
        rendered_files(c, node, routing, custom) == Ok::<Members, crate::error::ManagerErrorView>(files),
    ensures
        ({
            let all = Some(JsonView::Object(files));
            let level = member(
                member(member(member(all, "50_policy.json"@), "policy"@), "levels"@),
                "0"@,
            );
            &&& member(member(member(all, "00_log.json"@), "log"@), "loglevel"@) == text("warning"@)
            &&& member(member(member(all, "10_dns.json"@), "dns"@), "queryStrategy"@) == text(
                c.dns.query_strategy,
            )
            &&& member(level, "handshake"@) == number(8)
            &&& member(level, "connIdle"@) == number(300)
            &&& member(member(member(all, "40_routing.json"@), "routing"@), "domainStrategy"@)
                == text(routing.domain_strategy)
            &&& member(member(member(all, "40_routing.json"@), "routing"@), "rules"@) == Some(
                JsonView::Array(crate::routing::rules_json(routing)),
            )
            &&& custom.len() == 0 ==> member(all, "80_custom.json"@) == Some(
                JsonView::Object(Map::empty()),
            )
        }),
{
    lemma_files();
    lemma_settings();
    reveal_strlit("domainStrategy");
    reveal_strlit("rules");
    assert("domainStrategy"@.len() == 14);
    assert("rules"@.len() == 5);
}

/// A fragment that is no object is refused, and objects all find their way into
/// the custom file unless a later fragment has the same key.
pub proof fn law_custom_fragments(
    c: ManagerConfigView,
    routing: RoutingConfigView,
    custom: Seq<JsonView>,
    i: int,
    key: Seq<char>,
)
    requires
        0 <= i < custom.len(),
    ensures
        !(custom[i] is Object) ==> rendered_files(c, None, routing, custom) is Err,
        (forall|j: int| 0 <= j < custom.len() ==> (#[trigger] custom[j]) is Object)
            ==> rendered_files(c, None, routing, custom) is Ok,
        (custom[i] matches JsonView::Object(o) && o.contains_key(key) && (forall|j: int|
            i < j < custom.len() ==> !((#[trigger] custom[j]) matches JsonView::Object(p)
                && p.contains_key(key)))) ==> (rendered_files(c, None, routing, custom) matches Ok(
            files,
        ) ==> member(member(Some(JsonView::Object(files)), "80_custom.json"@), key) == Some(
            custom[i]->Object_0[key],
        )),
    decreases custom.len(),
{
    lemma_files();
    lemma_merged(custom, i, key);
}

proof fn lemma_merged(custom: Seq<JsonView>, i: int, key: Seq<char>)
    requires
        0 <= i < custom.len(),
    ensures
        !(custom[i] is Object) ==> render::merged(custom) is None,
        (forall|j: int| 0 <= j < custom.len() ==> (#[trigger] custom[j]) is Object)
            ==> render::merged(custom) is Some,
        (custom[i] matches JsonView::Object(o) && o.contains_key(key) && (forall|j: int|
            i < j < custom.len() ==> !((#[trigger] custom[j]) matches JsonView::Object(p)
                && p.contains_key(key)))) ==> (render::merged(custom) matches Some(m) ==> m.contains_key(
            key,
        ) && m[key] == custom[i]->Object_0[key]),
    decreases custom.len(),
{
    let rest = custom.drop_last();
    assert(forall|j: int| 0 <= j < rest.len() ==> #[trigger] rest[j] == custom[j]);
    assert(custom.last() == custom[custom.len() - 1]);
    if i < rest.len() {
        lemma_merged(rest, i, key);
    } else if rest.len() > 0 {
        lemma_merged(rest, 0, key);
    }
}

/// The outbound of a VLESS node leads to its server and port with its user.
pub proof fn law_vless_outbound(n: NodeView, o: JsonView)
    requires
        n.protocol == Protocol::Vless,
        node_outbound(n) == Ok::<JsonView, Seq<char>>(o),
    ensures
        ({
            let server = item(member(member(Some(o), "settings"@), "vnext"@), 0);
            let user = item(member(server, "users"@), 0);
            &&& n.credentials.user is Some
            &&& member(Some(o), "tag"@) == text("proxy"@)
            &&& member(Some(o), "protocol"@) == text("vless"@)
            &&& member(server, "address"@) == text(n.server)
            &&& member(server, "port"@) == number(n.port as nat)
            &&& member(user, "id"@) == text(n.credentials.user->0)
            &&& member(user, "encryption"@) == text(
                if n.extra.contains_key("encryption"@) {
                    n.extra["encryption"@]
                } else {
                    "none"@
                },
            )
            &&& member(user, "flow"@) == text(
                if n.extra.contains_key("flow"@) {
                    n.extra["flow"@]
                } else {
                    ""@
                },
            )
        }),
{
    lemma_keys();
}

/// The outbound of a VMess node leads to its server and port with its user.
pub proof fn law_vmess_outbound(n: NodeView, o: JsonView)
    requires
        n.protocol == Protocol::Vmess,
        node_outbound(n) == Ok::<JsonView, Seq<char>>(o),
    ensures
        ({
            let server = item(member(member(Some(o), "settings"@), "vnext"@), 0);
            let user = item(member(server, "users"@), 0);
            &&& n.credentials.user is Some
            &&& member(Some(o), "tag"@) == text("proxy"@)
            &&& member(Some(o), "protocol"@) == text("vmess"@)
            &&& member(server, "address"@) == text(n.server)
            &&& member(server, "port"@) == number(n.port as nat)
            &&& member(user, "id"@) == text(n.credentials.user->0)
            &&& member(user, "alterId"@) == number(
                if n.extra.contains_key("alterId"@) && parsed_unsigned(
                    n.extra["alterId"@],
                    4294967295,
                ) is Some {
                    parsed_unsigned(n.extra["alterId"@], 4294967295)->0
                } else {
                    0
                },
            )
            &&& member(user, "security"@) == text(
                if n.extra.contains_key("security"@) {
                    n.extra["security"@]
                } else {
                    "auto"@
                },
            )
        }),
{
    lemma_keys();
}

/// The outbound of a Trojan node leads to its server and port with its password.
pub proof fn law_trojan_outbound(n: NodeView, o: JsonView)
    requires
        n.protocol == Protocol::Trojan,
        node_outbound(n) == Ok::<JsonView, Seq<char>>(o),
    ensures
        ({
            let server = item(member(member(Some(o), "settings"@), "servers"@), 0);
            &&& n.credentials.password is Some
            &&& member(Some(o), "tag"@) == text("proxy"@)
            &&& member(Some(o), "protocol"@) == text("trojan"@)
            &&& member(server, "address"@) == text(n.server)
            &&& member(server, "port"@) == number(n.port as nat)
            &&& member(server, "password"@) == text(n.credentials.password->0)
        }),
{
    lemma_keys();
}

/// The outbound of a Shadowsocks node leads to its server and port with its
/// method and password, without a stream of its own.
pub proof fn law_shadowsocks_outbound(n: NodeView, o: JsonView)
    requires
        n.protocol == Protocol::Shadowsocks,
        node_outbound(n) == Ok::<JsonView, Seq<char>>(o),
    ensures
        ({
            let server = item(member(member(Some(o), "settings"@), "servers"@), 0);
            &&& n.credentials.password is Some
            &&& !n.extra.contains_key("plugin"@)
            &&& member(Some(o), "tag"@) == text("proxy"@)
            &&& member(Some(o), "protocol"@) == text("shadowsocks"@)
            &&& member(Some(o), "streamSettings"@) is None
            &&& member(server, "address"@) == text(n.server)
            &&& member(server, "port"@) == number(n.port as nat)
            &&& member(server, "password"@) == text(n.credentials.password->0)
            &&& member(server, "method"@) == text(
                if n.extra.contains_key("method"@) {
                    n.extra["method"@]
                } else {
                    ""@
                },
            )
        }),
{
    lemma_keys();
}

/// The outbound of a Hysteria2 node leads to its server and port, over the
/// network of that protocol, with its password.
pub proof fn law_hysteria2_outbound(n: NodeView, o: JsonView)
    requires
        n.protocol == Protocol::Hysteria2,
        node_outbound(n) == Ok::<JsonView, Seq<char>>(o),
    ensures
        ({
            let settings = member(Some(o), "settings"@);
            let stream = member(Some(o), "streamSettings"@);
            &&& n.credentials.password is Some
            &&& n.warnings.len() == 0
            &&& member(Some(o), "tag"@) == text("proxy"@)
            &&& member(Some(o), "protocol"@) == text("hysteria"@)
            &&& member(settings, "version"@) == number(2)
            &&& member(settings, "address"@) == text(n.server)
            &&& member(settings, "port"@) == number(n.port as nat)
            &&& member(stream, "network"@) == text("hysteria"@)
            &&& member(member(stream, "hysteriaSettings"@), "version"@) == number(2)
            &&& member(member(stream, "hysteriaSettings"@), "auth"@) == text(
                n.credentials.password->0,
            )
        }),
{
    lemma_keys();
}

/// The stream of an outbound, where it has one.
pub open spec fn stream(n: NodeView) -> Option<JsonView> {
    match node_outbound(n) {
        Ok(o) => member(Some(o), "streamSettings"@),
        Err(_) => None,
    }
}

/// The network that a node of another protocol than Hysteria2 is reached over,
/// in the words of a link.
pub proof fn law_stream_network(n: NodeView)
    requires
        n.protocol == Protocol::Vless || n.protocol == Protocol::Vmess || n.protocol
            == Protocol::Trojan,
        node_outbound(n) is Ok,
    ensures
        ({
            let kind = ascii_lower(n.transport.kind);
            let network = member(stream(n), "network"@);
            &&& network == member(stream(n), "method"@)
            &&& member(stream(n), "security"@) == text(n.security.kind)
            &&& (kind == "tcp"@ || kind == "raw"@) ==> network == text("tcp"@)
            &&& (kind == "ws"@ || kind == "websocket"@) ==> network == text("ws"@)
            &&& kind == "grpc"@ ==> network == text("grpc"@)
            &&& kind == "httpupgrade"@ ==> network == text("httpupgrade"@)
            &&& (kind == "xhttp"@ || kind == "splithttp"@) ==> network == text("xhttp"@)
            &&& kind == "hysteria"@ ==> network == text("hysteria"@)
            &&& kind == "tcp"@ || kind == "raw"@ || kind == "ws"@ || kind == "websocket"@ || kind
                == "grpc"@ || kind == "httpupgrade"@ || kind == "xhttp"@ || kind == "splithttp"@
                || kind == "hysteria"@ || n.transport.kind == kind
        }),
{
    lemma_keys();
    lemma_networks();
    lemma_own_lower(n.transport.kind);
}

/// A text in lower case stays as it is.
proof fn lemma_own_lower(s: Seq<char>)
    ensures
        (s == "tcp"@ || s == "ws"@ || s == "grpc"@ || s == "httpupgrade"@ || s == "xhttp"@ || s
            == "hysteria"@) ==> ascii_lower(s) == s,
{
    reveal_strlit("tcp");
    reveal_strlit("ws");
    reveal_strlit("grpc");
    reveal_strlit("httpupgrade");
    reveal_strlit("xhttp");
    reveal_strlit("hysteria");
    if s == "tcp"@ || s == "ws"@ || s == "grpc"@ || s == "httpupgrade"@ || s == "xhttp"@ || s
        == "hysteria"@ {
        assert(ascii_lower(s) =~= s);
    }
}

/// How the transport of a node is written, for the four networks that have
/// settings of their own.
pub proof fn law_stream_transport(n: NodeView)
    requires
        n.protocol == Protocol::Vless || n.protocol == Protocol::Vmess || n.protocol
            == Protocol::Trojan,
        node_outbound(n) is Ok,
    ensures
        ({
            let network = member(stream(n), "network"@);
            let settings = if network == text("ws"@) {
                member(stream(n), "wsSettings"@)
            } else if network == text("grpc"@) {
                member(stream(n), "grpcSettings"@)
            } else if network == text("httpupgrade"@) {
                member(stream(n), "httpupgradeSettings"@)
            } else {
                member(stream(n), "xhttpSettings"@)
            };
            (network == text("ws"@) || network == text("grpc"@) || network == text("httpupgrade"@)
                || network == text("xhttp"@)) ==> {
                &&& member(settings, "path"@) == Some(opt_view(n.transport.path))
                &&& member(settings, "host"@) == Some(opt_view(n.transport.host))
                &&& member(settings, "serviceName"@) == Some(opt_view(n.transport.service_name))
                &&& member(settings, "authority"@) == Some(opt_view(n.transport.authority))
                &&& member(settings, "mode"@) == Some(opt_view(n.transport.mode))
            }
        }),
{
    lemma_keys();
    lemma_settings();
    lemma_networks();
}

/// How the security of a node is written: REALITY or TLS with its own settings,
/// and neither where the node has none.
pub proof fn law_stream_security(n: NodeView)
    requires
        n.protocol == Protocol::Vless || n.protocol == Protocol::Vmess || n.protocol
            == Protocol::Trojan,
        node_outbound(n) is Ok,
    ensures
        ({
            let reality = member(stream(n), "realitySettings"@);
            let tls = member(stream(n), "tlsSettings"@);
            let c = n.security;
            &&& reality is Some <==> c.kind == "reality"@
            &&& tls is Some <==> c.kind == "tls"@
            &&& reality is Some ==> {
                &&& member(reality, "serverName"@) == Some(opt_view(c.server_name))
                &&& member(reality, "fingerprint"@) == Some(opt_view(c.fingerprint))
                &&& member(reality, "publicKey"@) == Some(opt_view(c.public_key))
                &&& member(reality, "password"@) == Some(opt_view(c.public_key))
                &&& member(reality, "shortId"@) == Some(opt_view(c.short_id))
                &&& member(reality, "spiderX"@) == Some(opt_view(c.spider_x))
                &&& member(reality, "alpn"@) == Some(crate::json::texts_view(c.alpn))
            }
            &&& tls is Some ==> {
                &&& member(tls, "serverName"@) == Some(opt_view(c.server_name))
                &&& member(tls, "fingerprint"@) == Some(opt_view(c.fingerprint))
                &&& member(tls, "allowInsecure"@) == Some(JsonView::Bool(c.allow_insecure))
                &&& member(tls, "pinnedPeerCertSha256"@) == Some(opt_view(c.pinned_peer_cert_sha256))
                &&& member(tls, "alpn"@) == Some(crate::json::texts_view(c.alpn))
            }
        }),
{
    lemma_keys();
    lemma_settings();
    lemma_networks();
}

/// The header of a plain TCP transport, where the node names one: none, or an
/// HTTP request with the path and the host of the node. Any other is refused.
pub proof fn law_stream_header(n: NodeView)
    requires
        n.protocol == Protocol::Vless || n.protocol == Protocol::Vmess || n.protocol
            == Protocol::Trojan,
        ascii_lower(n.transport.kind) == "tcp"@ || ascii_lower(n.transport.kind) == "raw"@,
        n.transport.header_type is Some,
    ensures
        ({
            let kind = ascii_lower(n.transport.header_type->0);
            let header = member(member(stream(n), "rawSettings"@), "header"@);
            let request = member(header, "request"@);
            &&& node_outbound(n) is Ok ==> (kind == "none"@ || kind == "http"@) && member(
                header,
                "type"@,
            ) == text(kind)
            &&& node_outbound(n) is Ok && kind == "none"@ ==> request is None
            &&& node_outbound(n) is Ok && kind == "http"@ ==> {
                &&& item(member(request, "path"@), 0) == (match n.transport.path {
                    Some(p) => text(p),
                    None => None,
                })
                &&& item(member(member(request, "headers"@), "Host"@), 0) == (
                match n.transport.host {
                    Some(h) => text(h),
                    None => None,
                })
            }
        }),
{
    lemma_keys();
    lemma_networks();
    lemma_header_words();
}

proof fn lemma_header_words()
    ensures
        mark("type"@) == (4int, 't', 'y', 'p', 'e', 'e'),
        mark("request"@) == (7int, 'r', 'q', 'u', 's', 't'),
        mark("path"@) == (4int, 'p', 'a', 't', 'h', 'h'),
        mark("headers"@) == (7int, 'h', 'a', 'd', 'r', 's'),
        mark("header"@) == (6int, 'h', 'a', 'd', 'e', 'r'),
        mark("Host"@) == (4int, 'H', 'o', 's', 't', 't'),
        mark("none"@) == (4int, 'n', 'o', 'n', 'e', 'e'),
        mark("http"@) == (4int, 'h', 't', 't', 'p', 'p'),
{
    reveal_strlit("type");
    reveal_strlit("request");
    reveal_strlit("path");
    reveal_strlit("headers");
    reveal_strlit("header");
    reveal_strlit("Host");
    reveal_strlit("none");
    reveal_strlit("http");
}

/// A node that has what its protocol needs, over a network that Xray knows and
/// without any of the parts that may be refused, is rendered.
pub proof fn law_plain_nodes_are_rendered(n: NodeView)
    requires
        match n.protocol {
            Protocol::Vless | Protocol::Vmess => n.credentials.user is Some,
            _ => n.credentials.password is Some,
        },
        n.protocol == Protocol::Shadowsocks ==> !n.extra.contains_key("plugin"@),
        n.protocol == Protocol::Hysteria2 ==> n.warnings.len() == 0 && !n.extra.contains_key("obfs"@),
        n.protocol != Protocol::Shadowsocks ==> {
            let kind = ascii_lower(n.transport.kind);
            &&& kind == "tcp"@ || kind == "raw"@ || kind == "ws"@ || kind == "websocket"@ || kind
                == "grpc"@ || kind == "httpupgrade"@ || kind == "xhttp"@ || kind == "splithttp"@
                || kind == "hysteria"@
            &&& n.transport.header_type is None
            &&& n.transport.seed is None
            &&& !n.extra.contains_key("fragment"@)
            &&& !n.extra.contains_key("fm"@)
        },
    ensures
        node_outbound(n) is Ok,
{
}

/// The masks of a node without an explicit FinalMask: a fragment is the only
/// TCP mask, with its length, delay and packets in the order in which the link
/// writes them; Salamander is the only UDP mask, with its password; port
/// hopping and the bandwidths are QUIC parameters. All but the fragment are of
/// Hysteria2 alone.
pub proof fn law_stream_masks(n: NodeView)
    requires
        n.protocol != Protocol::Shadowsocks,
        !n.extra.contains_key("fm"@),
        node_outbound(n) is Ok,
    ensures
        ({
            let masks = member(stream(n), "finalmask"@);
            let tcp = member(masks, "tcp"@);
            let udp = member(masks, "udp"@);
            let quic = member(masks, "quicParams"@);
            let settings = member(item(tcp, 0), "settings"@);
            let parts = crate::text::fields(n.extra["fragment"@], ',');
            let own = n.protocol == Protocol::Hysteria2;
            &&& tcp is Some <==> n.extra.contains_key("fragment"@)
            &&& tcp is Some ==> {
                &&& tcp->0->Array_0.len() == 1
                &&& member(item(tcp, 0), "type"@) == text("fragment"@)
                &&& parts.len() == 3
                &&& member(settings, "length"@) == text(parts[0])
                &&& member(settings, "delay"@) == text(parts[1])
                &&& member(settings, "packets"@) == text("tlshello"@)
                &&& parts[2] == "tlshello"@
            }
            &&& udp is Some <==> own && n.extra.contains_key("obfs"@) && n.extra["obfs"@]
                == "salamander"@
            &&& udp is Some ==> {
                &&& udp->0->Array_0.len() == 1
                &&& member(item(udp, 0), "type"@) == text("salamander"@)
                &&& n.extra.contains_key("obfs-password"@)
                &&& member(member(item(udp, 0), "settings"@), "password"@) == text(
                    n.extra["obfs-password"@],
                )
            }
            &&& quic is Some <==> own && (n.extra.contains_key("mport"@) || n.extra.contains_key(
                "upmbps"@,
            ) || n.extra.contains_key("downmbps"@))
            &&& quic is Some ==> {
                &&& member(member(quic, "udpHop"@), "ports"@) == (if n.extra.contains_key("mport"@) {
                    text(n.extra["mport"@])
                } else {
                    None
                })
                &&& member(quic, "brutalUp"@) == (if n.extra.contains_key("upmbps"@) {
                    text(n.extra["upmbps"@] + " mbps"@)
                } else {
                    None
                })
                &&& member(quic, "brutalDown"@) == (if n.extra.contains_key("downmbps"@) {
                    text(n.extra["downmbps"@] + " mbps"@)
                } else {
                    None
                })
            }
        }),
{
    lemma_keys();
    lemma_mask_words();
}

proof fn lemma_mask_words()
    ensures
        mark("finalmask"@) == (9int, 'f', 'a', 'l', 'a', 'k'),
        mark("tcp"@) == (3int, 't', 'c', 'c', 'p', 'p'),
        mark("udp"@) == (3int, 'u', 'd', 'd', 'p', 'p'),
        mark("quicParams"@) == (10int, 'q', 'c', 'a', 'a', 's'),
        mark("type"@) == (4int, 't', 'y', 'p', 'e', 'e'),
        mark("settings"@) == (8int, 's', 't', 'i', 'g', 's'),
        mark("length"@) == (6int, 'l', 'n', 'g', 't', 'h'),
        mark("delay"@) == (5int, 'd', 'e', 'l', 'a', 'y'),
        mark("packets"@) == (7int, 'p', 'c', 'k', 't', 's'),
        mark("udpHop"@) == (6int, 'u', 'p', 'H', 'o', 'p'),
        mark("brutalUp"@) == (8int, 'b', 'u', 'a', 'U', 'p'),
        mark("brutalDown"@) == (10int, 'b', 't', 'l', 'o', 'n'),
        mark("ports"@) == (5int, 'p', 'o', 'r', 't', 's'),
        mark("password"@) == (8int, 'p', 's', 'w', 'r', 'd'),
        mark("network"@) == (7int, 'n', 't', 'w', 'r', 'k'),
        mark("hysteriaSettings"@) == (16int, 'h', 'r', 'S', 'i', 's'),
{
    reveal_strlit("finalmask");
    reveal_strlit("tcp");
    reveal_strlit("udp");
    reveal_strlit("quicParams");
    reveal_strlit("type");
    reveal_strlit("settings");
    reveal_strlit("length");
    reveal_strlit("delay");
    reveal_strlit("packets");
    reveal_strlit("udpHop");
    reveal_strlit("brutalUp");
    reveal_strlit("brutalDown");
    reveal_strlit("ports");
    reveal_strlit("password");
    reveal_strlit("network");
    reveal_strlit("hysteriaSettings");
}

} // verus!
