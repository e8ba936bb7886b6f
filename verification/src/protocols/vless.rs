//! VLESS share links.

use crate::domain::{Node, NodeView, Protocol, Security, SecurityView, Transport, TransportView};
use crate::error::{ManagerError, ManagerErrorView};
use crate::outside::{UrlParts, UrlView};
use crate::protocols::{ParsedNode, ParsedNodeView};
use crate::text_map::TextMap;
use crate::outside;
use crate::protocols;
use crate::text;
use crate::text_map;
use vstd::prelude::*;

verus! {

/// The query parameters that a VLESS link may have.
pub open spec fn vless_parameters() -> Seq<Seq<char>> {
    seq![
        "encryption"@,
        "flow"@,
        "security"@,
        "type"@,
        "sni"@,
        "fp"@,
        "pbk"@,
        "sid"@,
        "spx"@,
        "alpn"@,
        "path"@,
        "host"@,
        "serviceName"@,
        "authority"@,
        "mode"@,
        "headerType"@,
        "seed"@,
        "fm"@,
        "fragment"@,
    ]
}

fn known_parameters() -> (r: Vec<String>)
    ensures
        text::texts(r@) == vless_parameters(),
{
    let r: Vec<String> = vec![
        text::owned("encryption"),
        text::owned("flow"),
        text::owned("security"),
        text::owned("type"),
        text::owned("sni"),
        text::owned("fp"),
        text::owned("pbk"),
        text::owned("sid"),
        text::owned("spx"),
        text::owned("alpn"),
        text::owned("path"),
        text::owned("host"),
        text::owned("serviceName"),
        text::owned("authority"),
        text::owned("mode"),
        text::owned("headerType"),
        text::owned("seed"),
        text::owned("fm"),
        text::owned("fragment"),
    ];
    assert(text::texts(r@) =~= vless_parameters());
    r
}

/// Whether a transport kind in lower case can be used with VLESS.
pub open spec fn vless_transport_known(kind: Seq<char>) -> bool {
    kind == "tcp"@ || kind == "raw"@ || kind == "websocket"@ || kind == "ws"@ || kind == "grpc"@ || kind
        == "httpupgrade"@ || kind == "xhttp"@ || kind == "splithttp"@
}

/// Whether a RAW header type in lower case can be used.
pub open spec fn header_type_known(kind: Seq<char>) -> bool {
    kind == "none"@ || kind == "http"@
}

/// What a VLESS link is warned of.
pub open spec fn vless_warnings(q: Map<Seq<char>, Seq<char>>) -> Seq<Seq<char>> {
    let unknown = protocols::unknown_parameters(
        text_map::sorted_keys(q),
        vless_parameters(),
        "unknown query parameter: "@,
    );
    let kind = text::text_or(text_map::at(q, "type"@), "tcp"@);
    let a = if vless_transport_known(text::ascii_lower(kind)) {
        unknown
    } else {
        unknown.push("unsupported VLESS transport: "@ + kind)
    };
    let b = match text_map::at(q, "headerType"@) {
        Some(h) => if header_type_known(text::ascii_lower(h)) {
            a
        } else {
            a.push("unsupported RAW headerType: "@ + h)
        },
        None => a,
    };
    if q.contains_key("seed"@) {
        b.push("legacy seed cannot be mapped to the current Xray transport schema"@)
    } else {
        b
    }
}

/// Warns of what a VLESS link asks for and cannot have.
pub fn warnings_of(query: &TextMap) -> (r: Vec<String>)
    ensures
        text::texts(r@) == vless_warnings(query@),
{
    let mut r = protocols::warn_unknown(query, &known_parameters(), "unknown query parameter: ");
    let kind = text::unwrap_text(text_map::value_at(query, "type"), "tcp");
    let lowered = text::to_ascii_lowercase(kind.as_str());
    let k = lowered.as_str();
    if !(text::same(k, "tcp") || text::same(k, "raw") || text::same(k, "websocket") || text::same(k, "ws") || text::same(k, "grpc")
        || text::same(k, "httpupgrade") || text::same(k, "xhttp") || text::same(k, "splithttp")) {
        let warning = text::concat("unsupported VLESS transport: ", kind.as_str());
        proof {
            text::lemma_texts_push(r@, warning);
        }
        r.push(warning);
    }
    match query.get("headerType") {
        Some(header_type) => {
            let h = text::to_ascii_lowercase(header_type.as_str());
            if !(text::same(h.as_str(), "none") || text::same(h.as_str(), "http")) {
                let warning = text::concat("unsupported RAW headerType: ", header_type.as_str());
                proof {
                    text::lemma_texts_push(r@, warning);
                }
                r.push(warning);
            }
        },
        None => {},
    }
    if query.contains_key("seed") {
        let warning = text::owned("legacy seed cannot be mapped to the current Xray transport schema");
        proof {
            text::lemma_texts_push(r@, warning);
        }
        r.push(warning);
    }
    r
}

/// The transport that a VLESS link asks for.
pub open spec fn vless_transport(q: Map<Seq<char>, Seq<char>>) -> TransportView {
    TransportView {
        kind: text::text_or(text_map::at(q, "type"@), "tcp"@),
        path: text_map::at(q, "path"@),
        host: text_map::at(q, "host"@),
        service_name: text_map::at(q, "serviceName"@),
        authority: text_map::at(q, "authority"@),
        mode: text_map::at(q, "mode"@),
        header_type: text_map::at(q, "headerType"@),
        seed: text_map::at(q, "seed"@),
    }
}

/// Reads the transport of a VLESS link.
pub fn transport_of(query: &TextMap) -> (r: Transport)
    ensures
        r@ == vless_transport(query@),
{
    Transport {
        kind: text::unwrap_text(text_map::value_at(query, "type"), "tcp"),
        path: text_map::value_at(query, "path"),
        host: text_map::value_at(query, "host"),
        service_name: text_map::value_at(query, "serviceName"),
        authority: text_map::value_at(query, "authority"),
        mode: text_map::value_at(query, "mode"),
        header_type: text_map::value_at(query, "headerType"),
        seed: text_map::value_at(query, "seed"),
    }
}

/// The security that a link asks for, `default` where it names none.
pub open spec fn query_security(q: Map<Seq<char>, Seq<char>>, default: Seq<char>) -> SecurityView {
    SecurityView {
        kind: text::text_or(text_map::at(q, "security"@), default),
        server_name: text_map::at(q, "sni"@),
        fingerprint: text_map::at(q, "fp"@),
        public_key: text_map::at(q, "pbk"@),
        short_id: text_map::at(q, "sid"@),
        spider_x: text_map::at(q, "spx"@),
        alpn: protocols::csv_items(text_map::at(q, "alpn"@)),
        allow_insecure: false,
        pinned_peer_cert_sha256: None,
    }
}

/// Reads the security of a link, `default` where it names none.
pub fn security_of(query: &TextMap, default: &str) -> (r: Security)
    ensures
        r@ == query_security(query@, default@),
{
    Security {
        kind: text::unwrap_text(text_map::value_at(query, "security"), default),
        server_name: text_map::value_at(query, "sni"),
        fingerprint: text_map::value_at(query, "fp"),
        public_key: text_map::value_at(query, "pbk"),
        short_id: text_map::value_at(query, "sid"),
        spider_x: text_map::value_at(query, "spx"),
        alpn: protocols::split_csv(&text_map::value_at(query, "alpn")),
        allow_insecure: false,
        pinned_peer_cert_sha256: None,
    }
}

/// The node of a parsed VLESS link.
pub open spec fn vless_node(
    url: UrlView,
    uri: Seq<char>,
    subscription: Seq<char>,
) -> Result<NodeView, ManagerErrorView> {
    if !outside::is_uuid(url.username) {
        protocols::bad_node("VLESS user must be a valid UUID"@)
    } else {
        let q = text_map::collected(url.query);
        protocols::url_node(
            url,
            uri,
            subscription,
            ParsedNodeView {
                protocol: Protocol::Vless,
                user: Some(url.username),
                password: None,
                transport: vless_transport(q),
                security: query_security(q, "none"@),
                warnings: vless_warnings(q),
                extra: q,
            },
        )
    }
}

/// The node of a VLESS link whose URL has been parsed.
pub fn node_of_url(url: &UrlParts, uri: &str, subscription: &str) -> (r: Result<Node, ManagerError>)
    ensures
        protocols::node_result(r, vless_node(url@, uri@, subscription@)),
{
    if !outside::uuid_accepts(url.username.as_str()) {
        return Err(ManagerError::InvalidNode(text::owned("VLESS user must be a valid UUID")));
    }
    let query = text_map::collect_pairs(&url.query);
    let warnings = warnings_of(&query);
    let transport = transport_of(&query);
    let security = security_of(&query, "none");
    protocols::node_from_url(
        url,
        uri,
        subscription,
        ParsedNode {
            protocol: Protocol::Vless,
            user: Some(url.username.clone()),
            password: None,
            transport,
            security,
            warnings,
            extra: query,
        },
    )
}

/// The node that a VLESS link gives.
pub open spec fn vless_uri_node(uri: Seq<char>, subscription: Seq<char>) -> Result<
    NodeView,
    ManagerErrorView,
> {
    match outside::read_url(uri) {
        Ok(url) => vless_node(url, uri, subscription),
        Err(e) => protocols::bad_node(e),
    }
}

/// Parses a VLESS link.
pub fn parse_vless(uri: &str, subscription: &str) -> (r: Result<Node, ManagerError>)
    ensures
        protocols::node_result(r, vless_uri_node(uri@, subscription@)),
{
    match outside::parse_url(uri) {
        Ok(url) => node_of_url(&url, uri, subscription),
        Err(e) => Err(ManagerError::InvalidNode(e)),
    }
}

} // verus!
