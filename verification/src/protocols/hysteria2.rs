//! Hysteria2 share links.

use crate::domain::{Node, NodeView, Protocol, Security, SecurityView, Transport};
use crate::error::{ManagerError, ManagerErrorView};
use crate::outside::UrlView;
use crate::protocols::{ParsedNode, ParsedNodeView};
use crate::text_map::TextMap;
use crate::domain;
use crate::outside;
use crate::protocols;
use crate::text;
use crate::text_map;
use vstd::prelude::*;

verus! {

/// The query parameters that a Hysteria2 link may have.
pub open spec fn hysteria2_parameters() -> Seq<Seq<char>> {
    seq![
        "sni"@,
        "insecure"@,
        "alpn"@,
        "pinSHA256"@,
        "obfs"@,
        "obfs-password"@,
        "mport"@,
        "upmbps"@,
        "downmbps"@,
        "fm"@,
        "fragment"@,
    ]
}

fn known_parameters() -> (r: Vec<String>)
    ensures
        text::texts(r@) == hysteria2_parameters(),
{
    let r: Vec<String> = vec![
        text::owned("sni"),
        text::owned("insecure"),
        text::owned("alpn"),
        text::owned("pinSHA256"),
        text::owned("obfs"),
        text::owned("obfs-password"),
        text::owned("mport"),
        text::owned("upmbps"),
        text::owned("downmbps"),
        text::owned("fm"),
        text::owned("fragment"),
    ];
    assert(text::texts(r@) =~= hysteria2_parameters());
    r
}

/// What a Hysteria2 link is warned of.
pub open spec fn hysteria2_warnings(q: Map<Seq<char>, Seq<char>>) -> Seq<Seq<char>> {
    let unknown = protocols::unknown_parameters(
        text_map::sorted_keys(q),
        hysteria2_parameters(),
        "unsupported Hysteria2 parameter: "@,
    );
    match text_map::at(q, "obfs"@) {
        Some(o) => if o == "salamander"@ {
            unknown
        } else {
            unknown.push("unsupported Hysteria2 obfs"@)
        },
        None => unknown,
    }
}

/// What a parsed Hysteria2 link says beyond server, port and name.
pub open spec fn hysteria2_parsed(q: Map<Seq<char>, Seq<char>>, auth: Seq<char>) -> ParsedNodeView {
    ParsedNodeView {
        protocol: Protocol::Hysteria2,
        user: None,
        password: Some(auth),
        transport: domain::plain_transport("hysteria"@),
        security: SecurityView {
            server_name: text_map::at(q, "sni"@),
            alpn: protocols::csv_items(text_map::at(q, "alpn"@)),
            allow_insecure: text_map::at(q, "insecure"@) == Some("1"@) || text_map::at(q, "insecure"@) == Some("true"@),
            pinned_peer_cert_sha256: text_map::at(q, "pinSHA256"@),
            ..domain::plain_security("tls"@)
        },
        warnings: hysteria2_warnings(q),
        extra: q,
    }
}

/// What a Hysteria2 link with the query and authentication says.
pub fn parsed_of(query: TextMap, auth: String) -> (r: ParsedNode)
    ensures
        r@ == hysteria2_parsed(query@, auth@),
{
    let mut warnings = protocols::warn_unknown(
        &query,
        &known_parameters(),
        "unsupported Hysteria2 parameter: ",
    );
    match query.get("obfs") {
        Some(obfs) => {
            if !text::same(obfs.as_str(), "salamander") {
                let warning = text::owned("unsupported Hysteria2 obfs");
                proof {
                    text::lemma_texts_push(warnings@, warning);
                }
                warnings.push(warning);
            }
        },
        None => {},
    }
    let allow_insecure = match query.get("insecure") {
        Some(value) => text::same(value.as_str(), "1") || text::same(value.as_str(), "true"),
        None => false,
    };
    let mut security = Security::plain("tls");
    security.server_name = text_map::value_at(&query, "sni");
    security.alpn = protocols::split_csv(&text_map::value_at(&query, "alpn"));
    security.allow_insecure = allow_insecure;
    security.pinned_peer_cert_sha256 = text_map::value_at(&query, "pinSHA256");
    ParsedNode {
        protocol: Protocol::Hysteria2,
        user: None,
        password: Some(auth),
        transport: Transport::plain("hysteria"),
        security,
        warnings,
        extra: query,
    }
}

/// The node of a parsed Hysteria2 link.
pub open spec fn hysteria2_node(
    url: UrlView,
    uri: Seq<char>,
    subscription: Seq<char>,
) -> Result<NodeView, ManagerErrorView> {
    let auth = outside::percent_decoded(url.username);
    if auth.len() == 0 {
        protocols::bad_node("Hysteria2 auth is empty"@)
    } else {
        protocols::url_node(url, uri, subscription, hysteria2_parsed(text_map::collected(url.query), auth))
    }
}

/// The node that a Hysteria2 link gives; `hy2` stands for `hysteria2`.
pub open spec fn hysteria2_uri_node(uri: Seq<char>, subscription: Seq<char>) -> Result<
    NodeView,
    ManagerErrorView,
> {
    match outside::read_url(text::replaced_first(uri, "hy2://"@, "hysteria2://"@)) {
        Ok(url) => hysteria2_node(url, uri, subscription),
        Err(e) => protocols::bad_node(e),
    }
}

/// Parses a Hysteria2 link.
pub fn parse_hysteria2(uri: &str, subscription: &str) -> (r: Result<Node, ManagerError>)
    ensures
        protocols::node_result(r, hysteria2_uri_node(uri@, subscription@)),
{
    let normalized = text::replace_first(uri, "hy2://", "hysteria2://");
    let url = match outside::parse_url(normalized.as_str()) {
        Ok(url) => url,
        Err(e) => return Err(ManagerError::InvalidNode(e)),
    };
    let auth = outside::percent_decode(url.username.as_str());
    if auth.as_str().is_empty() {
        return Err(ManagerError::InvalidNode(text::owned("Hysteria2 auth is empty")));
    }
    let parsed = parsed_of(text_map::collect_pairs(&url.query), auth);
    protocols::node_from_url(&url, uri, subscription, parsed)
}

} // verus!
