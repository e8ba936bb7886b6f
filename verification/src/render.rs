//! The configuration files that Xray reads.

use crate::config::{ManagerConfig, ManagerConfigView};
use crate::domain::{Node, NodeView, Protocol};
use crate::error::{ManagerError, ManagerErrorView};
use crate::json::{Json, JsonObject, JsonView};
use crate::outside::Secret;
use crate::routing::{RoutingConfig, RoutingConfigView};
use crate::text_map::TextMap;
use crate::domain;
use crate::json;
use crate::outside;
use crate::routing;
use crate::text;
use crate::text_map;
use vstd::prelude::*;

verus! {

/// The members of a JSON object.
pub type Members = Map<Seq<char>, JsonView>;

pub open spec fn no_members() -> Members {
    Map::empty()
}

/// The method that a network kind stands for; an unknown kind stands for itself.
pub open spec fn network_method(network: Seq<char>) -> Seq<char> {
    let n = text::ascii_lower(network);
    if n == "tcp"@ || n == "raw"@ {
        "tcp"@
    } else if n == "websocket"@ || n == "ws"@ {
        "ws"@
    } else if n == "grpc"@ {
        "grpc"@
    } else if n == "httpupgrade"@ {
        "httpupgrade"@
    } else if n == "xhttp"@ || n == "splithttp"@ {
        "xhttp"@
    } else if n == "hysteria"@ {
        "hysteria"@
    } else {
        network
    }
}

/// The method that a network kind stands for.
pub fn normalize_network(network: &str) -> (r: &str)
    ensures
        r@ == network_method(network@),
{
    let lowered = text::to_ascii_lowercase(network);
    let n = lowered.as_str();
    if text::same(n, "tcp") || text::same(n, "raw") {
        "tcp"
    } else if text::same(n, "websocket") || text::same(n, "ws") {
        "ws"
    } else if text::same(n, "grpc") {
        "grpc"
    } else if text::same(n, "httpupgrade") {
        "httpupgrade"
    } else if text::same(n, "xhttp") || text::same(n, "splithttp") {
        "xhttp"
    } else if text::same(n, "hysteria") {
        "hysteria"
    } else {
        network
    }
}

/// The methods that Xray has.
pub open spec fn is_method(m: Seq<char>) -> bool {
    m == "tcp"@ || m == "ws"@ || m == "grpc"@ || m == "httpupgrade"@ || m == "xhttp"@ || m
        == "hysteria"@
}

/// The text of two numbers with a dash between them.
pub open spec fn is_range(s: Seq<char>) -> bool {
    let f = text::fields(s, '-');
    f.len() == 2 && text::parsed_unsigned(f[0], 4294967295) is Some && text::parsed_unsigned(
        f[1],
        4294967295,
    ) is Some
}

/// Whether `s` is two numbers with a dash between them.
pub fn is_numeric_range(s: &str) -> (r: bool)
    ensures
        r == is_range(s@),
{
    let f = text::split_char(s, '-');
    assert(text::texts(f@).len() == f@.len());
    f.len() == 2 && text::parse_unsigned(f[0].as_str(), 4294967295).is_some() && text::parse_unsigned(
        f[1].as_str(),
        4294967295,
    ).is_some()
}

/// A mask list with one more mask: nothing where the member is no list.
pub open spec fn mask_pushed(m: Members, direction: Seq<char>, mask: JsonView) -> Option<Members> {
    if m.contains_key(direction) {
        match m[direction] {
            JsonView::Array(v) => Some(m.insert(direction, JsonView::Array(v.push(mask)))),
            _ => None,
        }
    } else {
        Some(m.insert(direction, JsonView::Array(seq![mask])))
    }
}

fn push_finalmask(finalmask: &mut JsonObject, direction: &str, mask: Json) -> (r: Result<
    (),
    ManagerError,
>)
    ensures
        match r {
            Ok(_) => mask_pushed(old(finalmask)@, direction@, mask@) == Some(final(finalmask)@),
            Err(e) => mask_pushed(old(finalmask)@, direction@, mask@) is None && e@
                == ManagerErrorView::Validation("FinalMask "@ + direction@ + " must be an array"@),
        },
{
    let mut items: Vec<Json> = match finalmask.get(direction) {
        Some(j) => match j.copy() {
            Json::Array(v) => v,
            _ => return Err(
                ManagerError::Validation(text::concat3("FinalMask ", direction, " must be an array")),
            ),
        },
        None => Vec::new(),
    };
    json::push_item(&mut items, mask);
    assert(json::array_view(items@) =~= (if finalmask@.contains_key(direction@) {
        finalmask@[direction@]->Array_0.push(mask@)
    } else {
        seq![mask@]
    }));
    finalmask.insert(direction, Json::Array(items));
    Ok(())
}

/// A mask with settings.
pub open spec fn mask_json(kind: Seq<char>, settings: Members) -> JsonView {
    JsonView::Object(
        no_members().insert("type"@, JsonView::Text(kind)).insert(
            "settings"@,
            JsonView::Object(settings),
        ),
    )
}

/// The TCP mask of a legacy `length,delay,tlshello` fragment.
pub open spec fn fragment_mask(fragment: Seq<char>) -> Option<JsonView> {
    let f = text::fields(fragment, ',');
    if f.len() == 3 && is_range(f[0]) && is_range(f[1]) && f[2] == "tlshello"@ {
        Some(
            mask_json(
                "fragment"@,
                no_members().insert("length"@, JsonView::Text(f[0])).insert(
                    "delay"@,
                    JsonView::Text(f[1]),
                ).insert("packets"@, JsonView::Text(f[2])),
            ),
        )
    } else {
        None
    }
}

fn render_fragment(fragment: &str) -> (r: Option<Json>)
    ensures
        match r {
            Some(j) => fragment_mask(fragment@) == Some(j@),
            None => fragment_mask(fragment@) is None,
        },
{
    let f = text::split_char(fragment, ',');
    assert(text::texts(f@).len() == f@.len());
    if f.len() == 3 && is_numeric_range(f[0].as_str()) && is_numeric_range(f[1].as_str()) && text::same(
        f[2].as_str(),
        "tlshello",
    ) {
        let settings = JsonObject::new().with("length", json::text(f[0].as_str())).with(
            "delay",
            json::text(f[1].as_str()),
        ).with("packets", json::text(f[2].as_str()));
        Some(
            Json::Object(
                JsonObject::new().with("type", json::text("fragment")).with(
                    "settings",
                    Json::Object(settings),
                ),
            ),
        )
    } else {
        None
    }
}

/// The masks with that of a legacy fragment.
pub open spec fn with_fragment(base: Members, fragment: Option<Seq<char>>) -> Result<
    Members,
    Seq<char>,
> {
    match fragment {
        None => Ok(base),
        Some(f) => match fragment_mask(f) {
            None => Err("fragment must use length,delay,tlshello"@),
            Some(mask) => match mask_pushed(base, "tcp"@, mask) {
                Some(m) => Ok(m),
                None => Err("FinalMask tcp must be an array"@),
            },
        },
    }
}

/// The masks with the Salamander obfuscation of the legacy aliases.
pub open spec fn with_salamander(base: Members, extra: Map<Seq<char>, Seq<char>>) -> Result<
    Members,
    Seq<char>,
> {
    if text_map::at(extra, "obfs"@) == Some("salamander"@) {
        match text_map::at(extra, "obfs-password"@) {
            None => Err("missing obfs-password"@),
            Some(p) => match mask_pushed(
                base,
                "udp"@,
                mask_json("salamander"@, no_members().insert("password"@, JsonView::Text(p))),
            ) {
                Some(m) => Ok(m),
                None => Err("FinalMask udp must be an array"@),
            },
        }
    } else {
        Ok(base)
    }
}

/// A member that is set only where there was none.
pub open spec fn or_insert(m: Members, key: Seq<char>, value: JsonView) -> Members {
    if m.contains_key(key) {
        m
    } else {
        m.insert(key, value)
    }
}

/// The QUIC parameters with those of the legacy aliases.
pub open spec fn quic_parameters(base: Members, extra: Map<Seq<char>, Seq<char>>) -> Members {
    let a = match text_map::at(extra, "mport"@) {
        Some(p) => or_insert(
            base,
            "udpHop"@,
            JsonView::Object(no_members().insert("ports"@, JsonView::Text(p))),
        ),
        None => base,
    };
    let b = match text_map::at(extra, "upmbps"@) {
        Some(v) => or_insert(a, "brutalUp"@, JsonView::Text(v + " mbps"@)),
        None => a,
    };
    match text_map::at(extra, "downmbps"@) {
        Some(v) => or_insert(b, "brutalDown"@, JsonView::Text(v + " mbps"@)),
        None => b,
    }
}

/// The masks with the QUIC parameters of the legacy aliases.
pub open spec fn with_quic(base: Members, extra: Map<Seq<char>, Seq<char>>) -> Result<
    Members,
    Seq<char>,
> {
    if extra.contains_key("mport"@) || extra.contains_key("upmbps"@) || extra.contains_key(
        "downmbps"@,
    ) {
        if base.contains_key("quicParams"@) {
            match base["quicParams"@] {
                JsonView::Object(q) => Ok(
                    base.insert("quicParams"@, JsonView::Object(quic_parameters(q, extra))),
                ),
                _ => Err("FinalMask quicParams must be an object"@),
            }
        } else {
            Ok(
                base.insert(
                    "quicParams"@,
                    JsonView::Object(quic_parameters(no_members(), extra)),
                ),
            )
        }
    } else {
        Ok(base)
    }
}

/// All masks of a node, on top of those of its `fm` parameter. The legacy
/// aliases of Hysteria2 count only where there is no `fm`.
pub open spec fn finalmask_members(
    base: Members,
    protocol: Protocol,
    extra: Map<Seq<char>, Seq<char>>,
) -> Result<Members, Seq<char>> {
    match with_fragment(base, text_map::at(extra, "fragment"@)) {
        Err(e) => Err(e),
        Ok(a) => if protocol == Protocol::Hysteria2 && !extra.contains_key("fm"@) {
            match with_salamander(a, extra) {
                Err(e) => Err(e),
                Ok(b) => with_quic(b, extra),
            }
        } else {
            Ok(a)
        },
    }
}

pub open spec fn members_result(
    r: Result<JsonObject, ManagerError>,
    want: Result<Members, Seq<char>>,
) -> bool {
    match r {
        Ok(o) => want == Ok::<Members, Seq<char>>(o@),
        Err(e) => want matches Err(m) && e@ == ManagerErrorView::Validation(m),
    }
}

fn or_insert_member(object: &mut JsonObject, key: &str, value: Json)
    ensures
        final(object)@ == or_insert(old(object)@, key@, value@),
{
    if !object.contains_key(key) {
        object.insert(key, value);
    }
}

fn set_quic(base: JsonObject, extra: &TextMap) -> (r: JsonObject)
    ensures
        r@ == quic_parameters(base@, extra@),
{
    let mut quic = base;
    match extra.get("mport") {
        Some(ports) => {
            let hop = JsonObject::new().with("ports", json::text(ports.as_str()));
            or_insert_member(&mut quic, "udpHop", Json::Object(hop));
        },
        None => {},
    }
    match extra.get("upmbps") {
        Some(value) => {
            let rate = text::concat(value.as_str(), " mbps");
            or_insert_member(&mut quic, "brutalUp", json::text(rate.as_str()));
        },
        None => {},
    }
    match extra.get("downmbps") {
        Some(value) => {
            let rate = text::concat(value.as_str(), " mbps");
            or_insert_member(&mut quic, "brutalDown", json::text(rate.as_str()));
        },
        None => {},
    }
    quic
}

fn add_salamander(base: JsonObject, extra: &TextMap) -> (r: Result<JsonObject, ManagerError>)
    ensures
        members_result(r, with_salamander(base@, extra@)),
{
    let mut finalmask = base;
    let wanted = match extra.get("obfs") {
        Some(value) => text::same(value.as_str(), "salamander"),
        None => false,
    };
    if wanted {
        let password = match extra.get("obfs-password") {
            Some(password) => password,
            None => return Err(ManagerError::Validation(text::owned("missing obfs-password"))),
        };
        let settings = JsonObject::new().with("password", json::text(password.as_str()));
        let mask = JsonObject::new().with("type", json::text("salamander")).with(
            "settings",
            Json::Object(settings),
        );
        match push_finalmask(&mut finalmask, "udp", Json::Object(mask)) {
            Ok(_) => {},
            Err(e) => {
                proof {
                    lemma_array_message("udp"@);
                }
                return Err(e);
            },
        }
    }
    Ok(finalmask)
}

proof fn lemma_array_message(direction: Seq<char>)
    ensures
        "FinalMask "@ + "udp"@ + " must be an array"@ == "FinalMask udp must be an array"@,
        "FinalMask "@ + "tcp"@ + " must be an array"@ == "FinalMask tcp must be an array"@,
{
    reveal_strlit("FinalMask ");
    reveal_strlit("udp");
    reveal_strlit("tcp");
    reveal_strlit(" must be an array");
    reveal_strlit("FinalMask udp must be an array");
    reveal_strlit("FinalMask tcp must be an array");
    assert("FinalMask "@ + "udp"@ + " must be an array"@ =~= "FinalMask udp must be an array"@);
    assert("FinalMask "@ + "tcp"@ + " must be an array"@ =~= "FinalMask tcp must be an array"@);
}

fn add_quic(base: JsonObject, extra: &TextMap) -> (r: Result<JsonObject, ManagerError>)
    ensures
        members_result(r, with_quic(base@, extra@)),
{
    let mut finalmask = base;
    if extra.contains_key("mport") || extra.contains_key("upmbps") || extra.contains_key(
        "downmbps",
    ) {
        let quic = match finalmask.get("quicParams") {
            Some(j) => match j.copy() {
                Json::Object(o) => o,
                _ => return Err(
                    ManagerError::Validation(text::owned("FinalMask quicParams must be an object")),
                ),
            },
            None => JsonObject::new(),
        };
        let quic = set_quic(quic, extra);
        finalmask.insert("quicParams", Json::Object(quic));
    }
    Ok(finalmask)
}

/// The masks of a node, on top of those that its `fm` parameter gave.
pub fn complete_finalmask(base: JsonObject, protocol: Protocol, extra: &TextMap) -> (r: Result<
    JsonObject,
    ManagerError,
>)
    ensures
        members_result(r, finalmask_members(base@, protocol, extra@)),
{
    let mut finalmask = base;
    match extra.get("fragment") {
        Some(fragment) => match render_fragment(fragment.as_str()) {
            Some(mask) => match push_finalmask(&mut finalmask, "tcp", mask) {
                Ok(_) => {},
                Err(e) => {
                    proof {
                        lemma_array_message("tcp"@);
                    }
                    return Err(e);
                },
            },
            None => return Err(
                ManagerError::Validation(text::owned("fragment must use length,delay,tlshello")),
            ),
        },
        None => {},
    }
    if protocol == Protocol::Hysteria2 && !extra.contains_key("fm") {
        match add_salamander(finalmask, extra) {
            Ok(o) => add_quic(o, extra),
            Err(e) => Err(e),
        }
    } else {
        Ok(finalmask)
    }
}

/// Where a Hysteria2 node has an `fm` parameter, the legacy aliases change
/// nothing, so that no mask is applied twice.
pub proof fn law_fm_is_authoritative(
    base: Members,
    extra: Map<Seq<char>, Seq<char>>,
    key: Seq<char>,
    value: Seq<char>,
)
    requires
        extra.contains_key("fm"@),
        key == "obfs"@ || key == "obfs-password"@ || key == "mport"@ || key == "upmbps"@ || key
            == "downmbps"@,
    ensures
        finalmask_members(base, Protocol::Hysteria2, extra) == finalmask_members(
            base,
            Protocol::Hysteria2,
            extra.insert(key, value),
        ),
{
    reveal_strlit("fragment");
    reveal_strlit("obfs");
    reveal_strlit("obfs-password");
    reveal_strlit("mport");
    reveal_strlit("upmbps");
    reveal_strlit("downmbps");
    assert("fragment"@.len() == 8);
    assert(key.len() != 8 || key[0] != 'f') by {
        assert("obfs"@.len() == 4 && "obfs-password"@.len() == 13 && "mport"@.len() == 5
            && "upmbps"@.len() == 6 && "downmbps"@.len() == 8);
        assert("downmbps"@[0] == 'd');
    }
    assert("fragment"@[0] == 'f');
    assert(key != "fragment"@);
}

/// The members that an `fm` parameter gives, its JSON read.
pub open spec fn fm_members(read: Result<JsonView, Seq<char>>) -> Result<Members, Seq<char>> {
    match read {
        Ok(JsonView::Object(m)) => Ok(m),
        Ok(_) => Err("FinalMask fm must be a JSON object"@),
        Err(e) => Err("invalid FinalMask fm JSON: "@ + e),
    }
}

/// The masks of a node.
pub open spec fn node_finalmask(n: NodeView) -> Result<Members, Seq<char>> {
    match text_map::at(n.extra, "fm"@) {
        None => finalmask_members(no_members(), n.protocol, n.extra),
        Some(fm) => match fm_members(json::read_json(vstd::utf8::encode_utf8(fm))) {
            Ok(base) => finalmask_members(base, n.protocol, n.extra),
            Err(e) => Err(e),
        },
    }
}

fn render_finalmask(node: &Node) -> (r: Result<JsonObject, ManagerError>)
    ensures
        members_result(r, node_finalmask(node@)),
{
    let base = match node.extra.get("fm") {
        Some(encoded) => match json::value_from_slice(encoded.as_str().as_bytes()) {
            Ok(value) => match json::json_of_value(value) {
                Json::Object(object) => object,
                _ => return Err(
                    ManagerError::Validation(text::owned("FinalMask fm must be a JSON object")),
                ),
            },
            Err(e) => return Err(
                ManagerError::Validation(text::concat("invalid FinalMask fm JSON: ", e.as_str())),
            ),
        },
        None => JsonObject::new(),
    };
    complete_finalmask(base, node.protocol, &node.extra)
}

/// The security settings of a stream.
pub open spec fn with_security(s: Members, n: NodeView) -> Members {
    let c = n.security;
    if c.kind == "reality"@ {
        s.insert(
            "realitySettings"@,
            JsonView::Object(
                no_members().insert("serverName"@, json::opt_view(c.server_name)).insert(
                    "fingerprint"@,
                    json::opt_view(c.fingerprint),
                ).insert("alpn"@, json::texts_view(c.alpn)).insert(
                    "password"@,
                    json::opt_view(c.public_key),
                ).insert("publicKey"@, json::opt_view(c.public_key)).insert(
                    "shortId"@,
                    json::opt_view(c.short_id),
                ).insert("spiderX"@, json::opt_view(c.spider_x)),
            ),
        )
    } else if c.kind == "tls"@ {
        s.insert(
            "tlsSettings"@,
            JsonView::Object(
                no_members().insert("serverName"@, json::opt_view(c.server_name)).insert(
                    "fingerprint"@,
                    json::opt_view(c.fingerprint),
                ).insert("alpn"@, json::texts_view(c.alpn)).insert(
                    "allowInsecure"@,
                    JsonView::Bool(c.allow_insecure),
                ).insert("pinnedPeerCertSha256"@, json::opt_view(c.pinned_peer_cert_sha256)),
            ),
        )
    } else {
        s
    }
}

fn render_security(stream: &mut JsonObject, node: &Node)
    ensures
        final(stream)@ == with_security(old(stream)@, node@),
{
    let c = &node.security;
    if text::same(c.kind.as_str(), "reality") {
        let settings = JsonObject::new().with("serverName", json::optional(&c.server_name)).with(
            "fingerprint",
            json::optional(&c.fingerprint),
        ).with("alpn", json::text_array(&c.alpn)).with("password", json::optional(&c.public_key)).with(
            "publicKey",
            json::optional(&c.public_key),
        ).with("shortId", json::optional(&c.short_id)).with("spiderX", json::optional(&c.spider_x));
        stream.insert("realitySettings", Json::Object(settings));
    } else if text::same(c.kind.as_str(), "tls") {
        let settings = JsonObject::new().with("serverName", json::optional(&c.server_name)).with(
            "fingerprint",
            json::optional(&c.fingerprint),
        ).with("alpn", json::text_array(&c.alpn)).with(
            "allowInsecure",
            Json::Bool(c.allow_insecure),
        ).with("pinnedPeerCertSha256", json::optional(&c.pinned_peer_cert_sha256));
        stream.insert("tlsSettings", Json::Object(settings));
    }
}

/// The member that holds the settings of a method.
pub open spec fn settings_key(method: Seq<char>) -> Option<Seq<char>> {
    if method == "ws"@ {
        Some("wsSettings"@)
    } else if method == "grpc"@ {
        Some("grpcSettings"@)
    } else if method == "httpupgrade"@ {
        Some("httpupgradeSettings"@)
    } else if method == "xhttp"@ {
        Some("xhttpSettings"@)
    } else {
        None
    }
}

/// The transport settings of a stream.
pub open spec fn with_transport(s: Members, method: Seq<char>, n: NodeView) -> Members {
    match settings_key(method) {
        Some(key) => s.insert(
            key,
            JsonView::Object(
                no_members().insert("path"@, json::opt_view(n.transport.path)).insert(
                    "host"@,
                    json::opt_view(n.transport.host),
                ).insert("serviceName"@, json::opt_view(n.transport.service_name)).insert(
                    "authority"@,
                    json::opt_view(n.transport.authority),
                ).insert("mode"@, json::opt_view(n.transport.mode)),
            ),
        ),
        None => s,
    }
}

fn render_transport(stream: &mut JsonObject, method: &str, node: &Node)
    ensures
        final(stream)@ == with_transport(old(stream)@, method@, node@),
{
    let key = if text::same(method, "ws") {
        "wsSettings"
    } else if text::same(method, "grpc") {
        "grpcSettings"
    } else if text::same(method, "httpupgrade") {
        "httpupgradeSettings"
    } else if text::same(method, "xhttp") {
        "xhttpSettings"
    } else {
        return ;
    };
    let t = &node.transport;
    let settings = JsonObject::new().with("path", json::optional(&t.path)).with(
        "host",
        json::optional(&t.host),
    ).with("serviceName", json::optional(&t.service_name)).with(
        "authority",
        json::optional(&t.authority),
    ).with("mode", json::optional(&t.mode));
    stream.insert(key, Json::Object(settings));
}

/// The request of an HTTP header.
pub open spec fn http_request(path: Option<Seq<char>>, host: Option<Seq<char>>) -> Members {
    let a = match path {
        Some(p) => no_members().insert("path"@, JsonView::Array(seq![JsonView::Text(p)])),
        None => no_members(),
    };
    match host {
        Some(h) => a.insert(
            "headers"@,
            JsonView::Object(
                no_members().insert("Host"@, JsonView::Array(seq![JsonView::Text(h)])),
            ),
        ),
        None => a,
    }
}

/// The header of the RAW transport.
pub open spec fn raw_header(kind: Seq<char>, n: NodeView) -> JsonView {
    let base = no_members().insert("type"@, JsonView::Text(kind));
    if kind == "http"@ && (n.transport.path is Some || n.transport.host is Some) {
        JsonView::Object(
            base.insert(
                "request"@,
                JsonView::Object(http_request(n.transport.path, n.transport.host)),
            ),
        )
    } else {
        JsonView::Object(base)
    }
}

fn single(s: &str) -> (r: Json)
    ensures
        r@ == JsonView::Array(seq![JsonView::Text(s@)]),
{
    let mut items: Vec<Json> = Vec::new();
    json::push_item(&mut items, json::text(s));
    assert(json::array_view(items@) =~= seq![JsonView::Text(s@)]);
    Json::Array(items)
}

fn render_header(kind: &str, node: &Node) -> (r: Json)
    ensures
        r@ == raw_header(kind@, node@),
{
    let mut header = JsonObject::new().with("type", json::text(kind));
    if text::same(kind, "http") && (node.transport.path.is_some() || node.transport.host.is_some()) {
        let mut request = JsonObject::new();
        match &node.transport.path {
            Some(path) => request.insert("path", single(path.as_str())),
            None => {},
        }
        match &node.transport.host {
            Some(host) => {
                let headers = JsonObject::new().with("Host", single(host.as_str()));
                request.insert("headers", Json::Object(headers));
            },
            None => {},
        }
        header.insert("request", Json::Object(request));
    }
    Json::Object(header)
}

/// The stream with the RAW header that the node asks for.
pub open spec fn with_header(s: Members, method: Seq<char>, n: NodeView) -> Result<
    Members,
    Seq<char>,
> {
    match n.transport.header_type {
        Some(h) if method == "tcp"@ => {
            let kind = text::ascii_lower(h);
            if kind == "none"@ || kind == "http"@ {
                Ok(
                    s.insert(
                        "rawSettings"@,
                        JsonView::Object(no_members().insert("header"@, raw_header(kind, n))),
                    ),
                )
            } else {
                Err("unsupported RAW headerType: "@ + kind)
            }
        },
        _ => Ok(s),
    }
}

/// The stream settings of a node, given its masks.
pub open spec fn stream_members(n: NodeView, finalmask: Result<Members, Seq<char>>) -> Result<
    Members,
    Seq<char>,
> {
    let method = network_method(n.transport.kind);
    if !is_method(method) {
        Err("unsupported Xray transport: "@ + n.transport.kind)
    } else {
        let base = no_members().insert("method"@, JsonView::Text(method)).insert(
            "network"@,
            JsonView::Text(method),
        ).insert("security"@, JsonView::Text(n.security.kind));
        match with_header(with_transport(with_security(base, n), method, n), method, n) {
            Err(e) => Err(e),
            Ok(s) => if n.transport.seed is Some {
                Err("legacy seed cannot be mapped to the current Xray transport schema"@)
            } else {
                match finalmask {
                    Err(e) => Err(e),
                    Ok(m) => Ok(
                        if m == no_members() {
                            s
                        } else {
                            s.insert("finalmask"@, JsonView::Object(m))
                        },
                    ),
                }
            },
        }
    }
}

/// The stream settings of a node.
pub fn render_stream(node: &Node) -> (r: Result<JsonObject, ManagerError>)
    ensures
        members_result(r, stream_members(node@, node_finalmask(node@))),
{
    let method = normalize_network(node.transport.kind.as_str());
    if !(text::same(method, "tcp") || text::same(method, "ws") || text::same(method, "grpc") || text::same(
        method,
        "httpupgrade",
    ) || text::same(method, "xhttp") || text::same(method, "hysteria")) {
        return Err(
            ManagerError::Validation(
                text::concat("unsupported Xray transport: ", node.transport.kind.as_str()),
            ),
        );
    }
    let mut stream = JsonObject::new().with("method", json::text(method)).with(
        "network",
        json::text(method),
    ).with("security", json::text(node.security.kind.as_str()));
    render_security(&mut stream, node);
    render_transport(&mut stream, method, node);
    match &node.transport.header_type {
        Some(header_type) => if text::same(method, "tcp") {
            let kind = text::to_ascii_lowercase(header_type.as_str());
            if !text::same(kind.as_str(), "none") && !text::same(kind.as_str(), "http") {
                return Err(
                    ManagerError::Validation(
                        text::concat("unsupported RAW headerType: ", kind.as_str()),
                    ),
                );
            }
            let settings = JsonObject::new().with("header", render_header(kind.as_str(), node));
            stream.insert("rawSettings", Json::Object(settings));
        },
        None => {},
    }
    if node.transport.seed.is_some() {
        return Err(
            ManagerError::Validation(
                text::owned("legacy seed cannot be mapped to the current Xray transport schema"),
            ),
        );
    }
    match render_finalmask(node) {
        Ok(finalmask) => {
            if !finalmask.is_empty() {
                stream.insert("finalmask", Json::Object(finalmask));
            }
            Ok(stream)
        },
        Err(e) => Err(e),
    }
}

/// An outbound of a list of servers or users.
pub open spec fn outbound_json(
    protocol: Seq<char>,
    settings: JsonView,
    stream: Members,
) -> JsonView {
    JsonView::Object(
        no_members().insert("tag"@, JsonView::Text("proxy"@)).insert(
            "protocol"@,
            JsonView::Text(protocol),
        ).insert("settings"@, settings).insert("streamSettings"@, JsonView::Object(stream)),
    )
}

/// An object of one list of one object.
pub open spec fn listed(key: Seq<char>, members: Members) -> JsonView {
    JsonView::Object(
        no_members().insert(key, JsonView::Array(seq![JsonView::Object(members)])),
    )
}

/// The address and port of a node.
pub open spec fn endpoint_members(n: NodeView) -> Members {
    no_members().insert("address"@, JsonView::Text(n.server)).insert(
        "port"@,
        json::number_view(n.port as nat),
    )
}

/// The settings of a VLESS outbound.
pub open spec fn vless_settings(n: NodeView, user: Seq<char>) -> JsonView {
    listed(
        "vnext"@,
        endpoint_members(n).insert(
            "users"@,
            JsonView::Array(
                seq![
                    JsonView::Object(
                        no_members().insert("id"@, JsonView::Text(user)).insert(
                            "encryption"@,
                            JsonView::Text(text::text_or(text_map::at(n.extra, "encryption"@), "none"@)),
                        ).insert("flow"@, JsonView::Text(text::text_or(text_map::at(n.extra, "flow"@), ""@))),
                    ),
                ],
            ),
        ),
    )
}

/// The alternative ID of a VMess user: the number of the parameter, or zero.
pub open spec fn alter_id(extra: Map<Seq<char>, Seq<char>>) -> nat {
    match text_map::at(extra, "alterId"@) {
        Some(v) => match text::parsed_unsigned(v, 4294967295) {
            Some(n) => n,
            None => 0,
        },
        None => 0,
    }
}

/// The settings of a VMess outbound.
pub open spec fn vmess_settings(n: NodeView, user: Seq<char>) -> JsonView {
    listed(
        "vnext"@,
        endpoint_members(n).insert(
            "users"@,
            JsonView::Array(
                seq![
                    JsonView::Object(
                        no_members().insert("id"@, JsonView::Text(user)).insert(
                            "alterId"@,
                            json::number_view(alter_id(n.extra)),
                        ).insert(
                            "security"@,
                            JsonView::Text(text::text_or(text_map::at(n.extra, "security"@), "auto"@)),
                        ),
                    ),
                ],
            ),
        ),
    )
}

/// The outbound of a node, given its stream settings.
pub open spec fn proxy_json(n: NodeView, stream: Result<Members, Seq<char>>) -> Result<
    JsonView,
    Seq<char>,
> {
    match n.protocol {
        Protocol::Vless => match n.credentials.user {
            None => Err("missing VLESS UUID"@),
            Some(user) => match stream {
                Err(e) => Err(e),
                Ok(s) => Ok(outbound_json("vless"@, vless_settings(n, user), s)),
            },
        },
        Protocol::Vmess => match n.credentials.user {
            None => Err("missing VMess UUID"@),
            Some(user) => match stream {
                Err(e) => Err(e),
                Ok(s) => Ok(outbound_json("vmess"@, vmess_settings(n, user), s)),
            },
        },
        Protocol::Trojan => match n.credentials.password {
            None => Err("missing Trojan password"@),
            Some(password) => match stream {
                Err(e) => Err(e),
                Ok(s) => Ok(
                    outbound_json(
                        "trojan"@,
                        listed(
                            "servers"@,
                            endpoint_members(n).insert("password"@, JsonView::Text(password)),
                        ),
                        s,
                    ),
                ),
            },
        },
        Protocol::Shadowsocks => match text_map::at(n.extra, "plugin"@) {
            Some(plugin) => Err(
                "Shadowsocks plugin cannot be represented by the built-in Xray adapter: "@ + plugin,
            ),
            None => match n.credentials.password {
                None => Err("missing Shadowsocks password"@),
                Some(password) => Ok(
                    JsonView::Object(
                        no_members().insert("tag"@, JsonView::Text("proxy"@)).insert(
                            "protocol"@,
                            JsonView::Text("shadowsocks"@),
                        ).insert(
                            "settings"@,
                            listed(
                                "servers"@,
                                endpoint_members(n).insert(
                                    "method"@,
                                    JsonView::Text(text::text_or(text_map::at(n.extra, "method"@), ""@)),
                                ).insert("password"@, JsonView::Text(password)),
                            ),
                        ),
                    ),
                ),
            },
        },
        Protocol::Hysteria2 => if n.warnings.len() > 0 {
            Err("Hysteria2 node has unsupported parameters: "@ + text::joined(n.warnings, ", "@))
        } else {
            match stream {
                Err(e) => Err(e),
                Ok(s) => match n.credentials.password {
                    None => Err("missing Hysteria2 auth"@),
                    Some(auth) => Ok(
                        outbound_json(
                            "hysteria"@,
                            JsonView::Object(
                                no_members().insert("version"@, json::number_view(2)).insert(
                                    "address"@,
                                    JsonView::Text(n.server),
                                ).insert("port"@, json::number_view(n.port as nat)),
                            ),
                            s.insert("network"@, JsonView::Text("hysteria"@)).insert(
                                "hysteriaSettings"@,
                                JsonView::Object(
                                    no_members().insert("version"@, json::number_view(2)).insert(
                                        "auth"@,
                                        JsonView::Text(auth),
                                    ),
                                ),
                            ),
                        ),
                    ),
                },
            }
        },
    }
}

/// The outbound of a node.
pub open spec fn node_outbound(n: NodeView) -> Result<JsonView, Seq<char>> {
    proxy_json(n, stream_members(n, node_finalmask(n)))
}

pub open spec fn json_result(r: Result<Json, ManagerError>, want: Result<JsonView, Seq<char>>) -> bool {
    match r {
        Ok(j) => want == Ok::<JsonView, Seq<char>>(j@),
        Err(e) => want matches Err(m) && e@ == ManagerErrorView::Validation(m),
    }
}

fn required<'a>(value: &'a Option<Secret>, missing: &str) -> (r: Result<&'a str, ManagerError>)
    ensures
        match r {
            Ok(s) => domain::opt_secret(*value) == Some(s@),
            Err(e) => value is None && e@ == ManagerErrorView::Validation(missing@),
        },
{
    match value {
        Some(secret) => Ok(outside::expose_secret(secret)),
        None => Err(ManagerError::Validation(text::owned(missing))),
    }
}

fn one_of(members: JsonObject) -> (r: Json)
    ensures
        r@ == JsonView::Array(seq![JsonView::Object(members@)]),
{
    let mut items: Vec<Json> = Vec::new();
    json::push_item(&mut items, Json::Object(members));
    assert(json::array_view(items@) =~= seq![JsonView::Object(members@)]);
    Json::Array(items)
}

fn endpoint(node: &Node) -> (r: JsonObject)
    ensures
        r@ == endpoint_members(node@),
{
    JsonObject::new().with("address", json::text(node.server.as_str())).with(
        "port",
        json::number(node.port as u64),
    )
}

fn outbound(protocol: &str, settings: Json, stream: JsonObject) -> (r: Json)
    ensures
        r@ == outbound_json(protocol@, settings@, stream@),
{
    Json::Object(
        JsonObject::new().with("tag", json::text("proxy")).with(
            "protocol",
            json::text(protocol),
        ).with("settings", settings).with("streamSettings", Json::Object(stream)),
    )
}

fn text_at(m: &TextMap, key: &str, default: &str) -> (r: Json)
    ensures
        r@ == JsonView::Text(text::text_or(text_map::at(m@, key@), default@)),
{
    match m.get(key) {
        Some(s) => json::text(s.as_str()),
        None => json::text(default),
    }
}

/// The outbound of a node, given its stream settings.
pub fn render_proxy_outbound(node: &Node, stream: Result<JsonObject, ManagerError>) -> (r: Result<
    Json,
    ManagerError,
>)
    requires
        stream matches Err(e) ==> e@ is Validation,
    ensures
        json_result(
            r,
            proxy_json(
                node@,
                match stream {
                    Ok(o) => Ok(o@),
                    Err(e) => Err(e@->Validation_0),
                },
            ),
        ),
{
    match node.protocol {
        Protocol::Vless => {
            let user = match required(&node.credentials.user, "missing VLESS UUID") {
                Ok(user) => user,
                Err(e) => return Err(e),
            };
            let stream = match stream {
                Ok(stream) => stream,
                Err(e) => return Err(e),
            };
            let person = JsonObject::new().with("id", json::text(user)).with(
                "encryption",
                text_at(&node.extra, "encryption", "none"),
            ).with("flow", text_at(&node.extra, "flow", ""));
            let server = endpoint(node).with("users", one_of(person));
            let settings = Json::Object(JsonObject::new().with("vnext", one_of(server)));
            Ok(outbound("vless", settings, stream))
        },
        Protocol::Vmess => {
            let user = match required(&node.credentials.user, "missing VMess UUID") {
                Ok(user) => user,
                Err(e) => return Err(e),
            };
            let stream = match stream {
                Ok(stream) => stream,
                Err(e) => return Err(e),
            };
            let alter = match node.extra.get("alterId") {
                Some(value) => match text::parse_unsigned(value.as_str(), 4294967295) {
                    Some(n) => n,
                    None => 0,
                },
                None => 0,
            };
            let person = JsonObject::new().with("id", json::text(user)).with(
                "alterId",
                json::number(alter),
            ).with("security", text_at(&node.extra, "security", "auto"));
            let server = endpoint(node).with("users", one_of(person));
            let settings = Json::Object(JsonObject::new().with("vnext", one_of(server)));
            Ok(outbound("vmess", settings, stream))
        },
        Protocol::Trojan => {
            let password = match required(&node.credentials.password, "missing Trojan password") {
                Ok(password) => password,
                Err(e) => return Err(e),
            };
            let stream = match stream {
                Ok(stream) => stream,
                Err(e) => return Err(e),
            };
            let server = endpoint(node).with("password", json::text(password));
            let settings = Json::Object(JsonObject::new().with("servers", one_of(server)));
            Ok(outbound("trojan", settings, stream))
        },
        Protocol::Shadowsocks => {
            match node.extra.get("plugin") {
                Some(plugin) => return Err(
                    ManagerError::Validation(
                        text::concat(
                            "Shadowsocks plugin cannot be represented by the built-in Xray adapter: ",
                            plugin.as_str(),
                        ),
                    ),
                ),
                None => {},
            }
            let password = match required(
                &node.credentials.password,
                "missing Shadowsocks password",
            ) {
                Ok(password) => password,
                Err(e) => return Err(e),
            };
            let server = endpoint(node).with("method", text_at(&node.extra, "method", "")).with(
                "password",
                json::text(password),
            );
            let settings = Json::Object(JsonObject::new().with("servers", one_of(server)));
            Ok(
                Json::Object(
                    JsonObject::new().with("tag", json::text("proxy")).with(
                        "protocol",
                        json::text("shadowsocks"),
                    ).with("settings", settings),
                ),
            )
        },
        Protocol::Hysteria2 => {
            assert(text::texts(node.warnings@).len() == node.warnings@.len());
            if node.warnings.len() > 0 {
                return Err(
                    ManagerError::Validation(
                        text::concat(
                            "Hysteria2 node has unsupported parameters: ",
                            text::join(&node.warnings, ", ").as_str(),
                        ),
                    ),
                );
            }
            let mut stream = match stream {
                Ok(stream) => stream,
                Err(e) => return Err(e),
            };
            stream.insert("network", json::text("hysteria"));
            let auth = match required(&node.credentials.password, "missing Hysteria2 auth") {
                Ok(auth) => auth,
                Err(e) => return Err(e),
            };
            let hysteria = JsonObject::new().with("version", json::number(2)).with(
                "auth",
                json::text(auth),
            );
            stream.insert("hysteriaSettings", Json::Object(hysteria));
            let settings = JsonObject::new().with("version", json::number(2)).with(
                "address",
                json::text(node.server.as_str()),
            ).with("port", json::number(node.port as u64));
            Ok(outbound("hysteria", Json::Object(settings), stream))
        },
    }
}

/// What is sniffed of an inbound.
pub open spec fn sniffing_json(enabled: bool) -> JsonView {
    JsonView::Object(
        no_members().insert("enabled"@, JsonView::Bool(enabled)).insert(
            "destOverride"@,
            JsonView::Array(seq![JsonView::Text("http"@), JsonView::Text("tls"@)]),
        ),
    )
}

fn sniffing(enabled: bool) -> (r: Json)
    ensures
        r@ == sniffing_json(enabled),
{
    let mut items: Vec<Json> = Vec::new();
    json::push_item(&mut items, json::text("http"));
    json::push_item(&mut items, json::text("tls"));
    assert(json::array_view(items@) =~= seq![JsonView::Text("http"@), JsonView::Text("tls"@)]);
    Json::Object(
        JsonObject::new().with("enabled", Json::Bool(enabled)).with(
            "destOverride",
            Json::Array(items),
        ),
    )
}

/// A local proxy inbound.
pub open spec fn local_inbound(
    tag: Seq<char>,
    c: ManagerConfigView,
    port: u16,
    protocol: Seq<char>,
    settings: Members,
) -> JsonView {
    JsonView::Object(
        no_members().insert("tag"@, JsonView::Text(tag)).insert(
            "listen"@,
            JsonView::Text(c.proxy.listen.text()),
        ).insert("port"@, json::number_view(port as nat)).insert("protocol"@, JsonView::Text(protocol)).insert(
            "settings"@,
            JsonView::Object(settings),
        ).insert("sniffing"@, sniffing_json(c.proxy.sniffing)),
    )
}

fn render_local(
    tag: &str,
    config: &ManagerConfig,
    port: u16,
    protocol: &str,
    settings: JsonObject,
) -> (r: Json)
    ensures
        r@ == local_inbound(tag@, config@, port, protocol@, settings@),
{
    Json::Object(
        JsonObject::new().with("tag", json::text(tag)).with(
            "listen",
            json::text(config.proxy.listen.text().as_str()),
        ).with("port", json::number(port as u64)).with("protocol", json::text(protocol)).with(
            "settings",
            Json::Object(settings),
        ).with("sniffing", sniffing(config.proxy.sniffing)),
    )
}

/// The gateways of the TUN interface.
pub open spec fn tun_gateways(c: ManagerConfigView) -> Seq<Seq<char>> {
    if c.tun.ipv6_enabled {
        seq![c.tun.ipv4_gateway, "fd00:31:255::1/126"@]
    } else {
        seq![c.tun.ipv4_gateway]
    }
}

/// The TUN inbound.
pub open spec fn tun_inbound(c: ManagerConfigView) -> JsonView {
    JsonView::Object(
        no_members().insert("tag"@, JsonView::Text("tun-in"@)).insert(
            "protocol"@,
            JsonView::Text("tun"@),
        ).insert(
            "settings"@,
            JsonView::Object(
                no_members().insert("name"@, JsonView::Text(c.tun.interface_name)).insert(
                    "mtu"@,
                    json::number_view(c.tun.mtu as nat),
                ).insert("gateway"@, json::texts_view(tun_gateways(c))).insert(
                    "autoOutboundsInterface"@,
                    JsonView::Text("auto"@),
                ),
            ),
        ).insert("sniffing"@, sniffing_json(c.proxy.sniffing)),
    )
}

fn render_tun(config: &ManagerConfig) -> (r: Json)
    ensures
        r@ == tun_inbound(config@),
{
    let mut gateway: Vec<String> = vec![config.tun.ipv4_gateway.clone()];
    if config.tun.ipv6_enabled {
        gateway.push(text::owned("fd00:31:255::1/126"));
    }
    assert(text::texts(gateway@) =~= tun_gateways(config@));
    let settings = JsonObject::new().with(
        "name",
        json::text(config.tun.interface_name.as_str()),
    ).with("mtu", json::number(config.tun.mtu as u64)).with(
        "gateway",
        json::text_array(&gateway),
    ).with("autoOutboundsInterface", json::text("auto"));
    Json::Object(
        JsonObject::new().with("tag", json::text("tun-in")).with("protocol", json::text("tun")).with(
            "settings",
            Json::Object(settings),
        ).with("sniffing", sniffing(config.proxy.sniffing)),
    )
}

/// The inbounds: SOCKS, HTTP and, where it is enabled, TUN.
pub open spec fn inbounds(c: ManagerConfigView) -> Seq<JsonView> {
    let local = seq![
        local_inbound(
            "socks-in"@,
            c,
            c.proxy.socks_port,
            "socks"@,
            no_members().insert("udp"@, JsonView::Bool(c.proxy.udp)),
        ),
        local_inbound("http-in"@, c, c.proxy.http_port, "http"@, no_members()),
    ];
    if c.tun.enabled {
        local.push(tun_inbound(c))
    } else {
        local
    }
}

fn render_inbounds(config: &ManagerConfig) -> (r: Json)
    ensures
        r@ == JsonView::Array(inbounds(config@)),
{
    let mut items: Vec<Json> = Vec::new();
    let socks = JsonObject::new().with("udp", Json::Bool(config.proxy.udp));
    json::push_item(
        &mut items,
        render_local("socks-in", config, config.proxy.socks_port, "socks", socks),
    );
    json::push_item(
        &mut items,
        render_local("http-in", config, config.proxy.http_port, "http", JsonObject::new()),
    );
    if config.tun.enabled {
        json::push_item(&mut items, render_tun(config));
    }
    assert(json::array_view(items@) =~= inbounds(config@));
    Json::Array(items)
}

/// An outbound of a tag and a protocol alone.
pub open spec fn bare_outbound(tag: Seq<char>, protocol: Seq<char>) -> JsonView {
    JsonView::Object(
        no_members().insert("tag"@, JsonView::Text(tag)).insert(
            "protocol"@,
            JsonView::Text(protocol),
        ),
    )
}

fn bare(tag: &str, protocol: &str) -> (r: Json)
    ensures
        r@ == bare_outbound(tag@, protocol@),
{
    Json::Object(
        JsonObject::new().with("tag", json::text(tag)).with("protocol", json::text(protocol)),
    )
}

/// The outbounds: the proxy, the direct one and the block.
pub open spec fn outbounds(proxy: JsonView) -> Seq<JsonView> {
    seq![proxy, bare_outbound("direct"@, "freedom"@), bare_outbound("block"@, "blackhole"@)]
}

/// The custom fragments merged, a later one winning: nothing where one is no object.
pub open spec fn merged(custom: Seq<JsonView>) -> Option<Members>
    decreases custom.len(),
{
    if custom.len() == 0 {
        Some(no_members())
    } else {
        match merged(custom.drop_last()) {
            None => None,
            Some(m) => match custom.last() {
                JsonView::Object(o) => Some(m.union_prefer_right(o)),
                _ => None,
            },
        }
    }
}

proof fn lemma_merged_none(custom: Seq<JsonView>, i: int)
    requires
        0 <= i <= custom.len(),
        merged(custom.take(i)) is None,
    ensures
        merged(custom) is None,
    decreases custom.len(),
{
    if i == custom.len() {
        assert(custom.take(i) =~= custom);
    } else {
        assert(custom.drop_last().take(i) =~= custom.take(i));
        lemma_merged_none(custom.drop_last(), i);
    }
}

/// Merges custom fragments.
pub fn merge_custom(custom: &Vec<Json>) -> (r: Option<JsonObject>)
    ensures
        match r {
            Some(o) => merged(json::array_view(custom@)) == Some(o@),
            None => merged(json::array_view(custom@)) is None,
        },
{
    let ghost all = json::array_view(custom@);
    proof {
        json::lemma_array_view(custom@);
        assert(all.take(0).len() == 0);
    }
    let mut result = JsonObject::new();
    let mut i: usize = 0;
    while i < custom.len()
        invariant
            i <= custom@.len(),
            all == json::array_view(custom@),
            all.len() == custom@.len(),
            forall|k: int| 0 <= k < custom@.len() ==> all[k] == #[trigger] json::json_view(custom@[k]),
            merged(all.take(i as int)) == Some(result@),
        decreases custom@.len() - i,
    {
        proof {
            assert(all.take(i + 1).drop_last() =~= all.take(i as int));
            assert(all.take(i + 1).last() == json::json_view(custom@[i as int]));
        }
        match &custom[i] {
            Json::Object(object) => result.merge(object),
            _ => {
                proof {
                    lemma_merged_none(all, i + 1);
                }
                return None;
            },
        }
        i += 1;
    }
    assert(all.take(all.len() as int) =~= all);
    Some(result)
}

pub open spec fn file_of(key: Seq<char>, value: JsonView) -> JsonView {
    JsonView::Object(no_members().insert(key, value))
}

/// The configuration files, given the proxy outbound and the custom members.
pub open spec fn config_files(
    c: ManagerConfigView,
    proxy: JsonView,
    routing: RoutingConfigView,
    custom: Members,
) -> Members {
    no_members().insert(
        "00_log.json"@,
        file_of("log"@, file_of("loglevel"@, JsonView::Text("warning"@))),
    ).insert(
        "10_dns.json"@,
        file_of("dns"@, file_of("queryStrategy"@, JsonView::Text(c.dns.query_strategy))),
    ).insert("20_inbounds.json"@, file_of("inbounds"@, JsonView::Array(inbounds(c)))).insert(
        "30_outbounds.json"@,
        file_of("outbounds"@, JsonView::Array(outbounds(proxy))),
    ).insert("40_routing.json"@, routing::routing_json(routing)).insert(
        "50_policy.json"@,
        file_of(
            "policy"@,
            file_of(
                "levels"@,
                file_of(
                    "0"@,
                    JsonView::Object(
                        no_members().insert("handshake"@, json::number_view(8)).insert(
                            "connIdle"@,
                            json::number_view(300),
                        ),
                    ),
                ),
            ),
        ),
    ).insert("80_custom.json"@, JsonView::Object(custom))
}

fn file(key: &str, value: Json) -> (r: Json)
    ensures
        r@ == file_of(key@, value@),
{
    Json::Object(JsonObject::new().with(key, value))
}

/// The configuration files that a node, the routing and custom fragments give.
pub open spec fn rendered_files(
    c: ManagerConfigView,
    node: Option<NodeView>,
    routing: RoutingConfigView,
    custom: Seq<JsonView>,
) -> Result<Members, ManagerErrorView> {
    let proxy = match node {
        Some(n) => node_outbound(n),
        None => Ok(bare_outbound("proxy"@, "blackhole"@)),
    };
    match proxy {
        Err(m) => Err(ManagerErrorView::Validation(m)),
        Ok(p) => match merged(custom) {
            None => Err(
                ManagerErrorView::InvalidConfig("custom fragment must be a JSON object"@),
            ),
            Some(o) => Ok(config_files(c, p, routing, o)),
        },
    }
}

pub open spec fn opt_ref_node(o: Option<&Node>) -> Option<NodeView> {
    match o {
        Some(n) => Some(n@),
        None => None,
    }
}

/// Reads a custom fragment of the configuration.
pub fn read_fragment(bytes: &[u8]) -> (r: Result<Json, ManagerError>)
    ensures
        match r {
            Ok(fragment) => json::read_json(bytes@) == Ok::<JsonView, Seq<char>>(fragment@),
            Err(e) => json::read_json(bytes@) matches Err(t) && e@ == ManagerErrorView::InvalidConfig(t),
        },
{
    match json::value_from_slice(bytes) {
        Ok(v) => Ok(json::json_of_value(v)),
        Err(e) => Err(ManagerError::InvalidConfig(e)),
    }
}

/// Renders the configuration files, keyed by file name. Without a node the
/// proxy outbound drops all traffic.
pub fn render_xray_config(
    config: &ManagerConfig,
    node: Option<&Node>,
    routing: &RoutingConfig,
    custom: Vec<Json>,
) -> (r: Result<JsonObject, ManagerError>)
    ensures
        match r {
            Ok(files) => rendered_files(
                config@,
                opt_ref_node(node),
                routing@,
                json::array_view(custom@),
            ) == Ok::<Members, ManagerErrorView>(files@),
            Err(e) => rendered_files(config@, opt_ref_node(node), routing@, json::array_view(custom@))
                == Err::<Members, ManagerErrorView>(e@),
        },
{
    let proxy = match node {
        Some(node) => match render_proxy_outbound(node, render_stream(node)) {
            Ok(proxy) => proxy,
            Err(e) => return Err(e),
        },
        None => bare("proxy", "blackhole"),
    };
    let custom_members = match merge_custom(&custom) {
        Some(members) => members,
        None => return Err(
            ManagerError::InvalidConfig(text::owned("custom fragment must be a JSON object")),
        ),
    };
    let mut items: Vec<Json> = Vec::new();
    let ghost p = proxy@;
    json::push_item(&mut items, proxy);
    json::push_item(&mut items, bare("direct", "freedom"));
    json::push_item(&mut items, bare("block", "blackhole"));
    assert(json::array_view(items@) =~= outbounds(p));
    let level = JsonObject::new().with("handshake", json::number(8)).with(
        "connIdle",
        json::number(300),
    );
    Ok(
        JsonObject::new().with("00_log.json", file("log", file("loglevel", json::text("warning")))).with(
            "10_dns.json",
            file("dns", file("queryStrategy", json::text(config.dns.query_strategy.as_str()))),
        ).with("20_inbounds.json", file("inbounds", render_inbounds(config))).with(
            "30_outbounds.json",
            file("outbounds", Json::Array(items)),
        ).with("40_routing.json", routing.to_xray_json()).with(
            "50_policy.json",
            file("policy", file("levels", file("0", Json::Object(level)))),
        ).with("80_custom.json", Json::Object(custom_members)),
    )
}

/// A Hysteria2 node with any warning and a Shadowsocks node with any plugin
/// are refused.
pub proof fn law_unsupported_nodes_are_refused(
    c: ManagerConfigView,
    n: NodeView,
    routing: RoutingConfigView,
    custom: Seq<JsonView>,
)
    requires
        (n.protocol == Protocol::Hysteria2 && n.warnings.len() > 0) || (n.protocol
            == Protocol::Shadowsocks && n.extra.contains_key("plugin"@)) || (n.protocol
            != Protocol::Shadowsocks && n.transport.seed is Some),
    ensures
        rendered_files(c, Some(n), routing, custom) matches Err(e) && e is Validation,
{
}

/// All outbounds are in one file, with the proxy first.
pub proof fn law_outbounds_are_in_one_file(
    c: ManagerConfigView,
    node: Option<NodeView>,
    routing: RoutingConfigView,
    custom: Seq<JsonView>,
)
    requires
        rendered_files(c, node, routing, custom) is Ok,
    ensures
        rendered_files(c, node, routing, custom)->Ok_0.contains_key("30_outbounds.json"@),
        exists|proxy: JsonView|
            rendered_files(c, node, routing, custom)->Ok_0["30_outbounds.json"@] == file_of(
                "outbounds"@,
                JsonView::Array(#[trigger] outbounds(proxy)),
            ) && (node is None ==> proxy == bare_outbound("proxy"@, "blackhole"@)),
{
    reveal_strlit("30_outbounds.json");
    reveal_strlit("40_routing.json");
    reveal_strlit("50_policy.json");
    reveal_strlit("80_custom.json");
    assert("30_outbounds.json"@[0] != "40_routing.json"@[0]);
    assert("30_outbounds.json"@[0] != "50_policy.json"@[0]);
    assert("30_outbounds.json"@[0] != "80_custom.json"@[0]);
    let proxy = match node {
        Some(n) => node_outbound(n)->Ok_0,
        None => bare_outbound("proxy"@, "blackhole"@),
    };
    assert(rendered_files(c, node, routing, custom)->Ok_0["30_outbounds.json"@] == file_of(
        "outbounds"@,
        JsonView::Array(outbounds(proxy)),
    ));
}

} // verus!
