//! Trojan share links.

use crate::domain::{Node, NodeView, Protocol, Transport, TransportView};
use crate::error::{ManagerError, ManagerErrorView};
use crate::outside::UrlView;
use crate::protocols::{ParsedNode, ParsedNodeView};
use crate::text_map::TextMap;
use crate::outside;
use crate::protocols;
use crate::text;
use crate::text_map;
use crate::protocols::vless;
use crate::domain;
use vstd::prelude::*;

verus! {

/// The query parameters that a Trojan link may have.
pub open spec fn trojan_parameters() -> Seq<Seq<char>> {
    seq![
        "security"@,
        "type"@,
        "sni"@,
        "fp"@,
        "pbk"@,
        "sid"@,
        "spx"@,
        "alpn"@,
        "path"@,
        "host"@,
        "serviceName"@,
        "authority"@,
    ]
}

fn known_parameters() -> (r: Vec<String>)
    ensures
        text::texts(r@) == trojan_parameters(),
{
    let r: Vec<String> = vec![
        text::owned("security"),
        text::owned("type"),
        text::owned("sni"),
        text::owned("fp"),
        text::owned("pbk"),
        text::owned("sid"),
        text::owned("spx"),
        text::owned("alpn"),
        text::owned("path"),
        text::owned("host"),
        text::owned("serviceName"),
        text::owned("authority"),
    ];
    assert(text::texts(r@) =~= trojan_parameters());
    r
}

/// The transport that a Trojan link asks for.
pub open spec fn trojan_transport(q: Map<Seq<char>, Seq<char>>) -> TransportView {
    TransportView {
        path: text_map::at(q, "path"@),
        host: text_map::at(q, "host"@),
        service_name: text_map::at(q, "serviceName"@),
        authority: text_map::at(q, "authority"@),
        ..domain::plain_transport(text::text_or(text_map::at(q, "type"@), "tcp"@))
    }
}

/// What a parsed Trojan link says beyond server, port and name.
pub open spec fn trojan_parsed(
    q: Map<Seq<char>, Seq<char>>,
    password: Seq<char>,
) -> ParsedNodeView {
    ParsedNodeView {
        protocol: Protocol::Trojan,
        user: None,
        password: Some(password),
        transport: trojan_transport(q),
        security: vless::query_security(q, "tls"@),
        warnings: protocols::unknown_parameters(
            text_map::sorted_keys(q),
            trojan_parameters(),
            "unknown query parameter: "@,
        ),
        extra: q,
    }
}

/// What a Trojan link with the query and password says.
pub fn parsed_of(query: TextMap, password: String) -> (r: ParsedNode)
    ensures
        r@ == trojan_parsed(query@, password@),
{
    let warnings = protocols::warn_unknown(&query, &known_parameters(), "unknown query parameter: ");
    let transport = Transport {
        kind: text::unwrap_text(text_map::value_at(&query, "type"), "tcp"),
        path: text_map::value_at(&query, "path"),
        host: text_map::value_at(&query, "host"),
        service_name: text_map::value_at(&query, "serviceName"),
        authority: text_map::value_at(&query, "authority"),
        mode: None,
        header_type: None,
        seed: None,
    };
    let security = vless::security_of(&query, "tls");
    ParsedNode {
        protocol: Protocol::Trojan,
        user: None,
        password: Some(password),
        transport,
        security,
        warnings,
        extra: query,
    }
}

/// The node of a parsed Trojan link.
pub open spec fn trojan_node(
    url: UrlView,
    uri: Seq<char>,
    subscription: Seq<char>,
) -> Result<NodeView, ManagerErrorView> {
    let password = outside::percent_decoded(url.username);
    if password.len() == 0 {
        protocols::bad_node("Trojan password is empty"@)
    } else {
        protocols::url_node(url, uri, subscription, trojan_parsed(text_map::collected(url.query), password))
    }
}

/// The node that a Trojan link gives.
pub open spec fn trojan_uri_node(uri: Seq<char>, subscription: Seq<char>) -> Result<
    NodeView,
    ManagerErrorView,
> {
    match outside::read_url(uri) {
        Ok(url) => trojan_node(url, uri, subscription),
        Err(e) => protocols::bad_node(e),
    }
}

/// Parses a Trojan link.
pub fn parse_trojan(uri: &str, subscription: &str) -> (r: Result<Node, ManagerError>)
    ensures
        protocols::node_result(r, trojan_uri_node(uri@, subscription@)),
{
    let url = match outside::parse_url(uri) {
        Ok(url) => url,
        Err(e) => return Err(ManagerError::InvalidNode(e)),
    };
    let password = outside::percent_decode(url.username.as_str());
    if password.as_str().is_empty() {
        return Err(ManagerError::InvalidNode(text::owned("Trojan password is empty")));
    }
    let parsed = parsed_of(text_map::collect_pairs(&url.query), password);
    protocols::node_from_url(&url, uri, subscription, parsed)
}

} // verus!
