//! Shadowsocks share links.

use crate::domain::{Node, NodeView, Protocol, Security, Transport};
use crate::error::{ManagerError, ManagerErrorView};
use crate::protocols::{ParsedNode, ParsedNodeView};
use crate::text_map::TextMap;
use crate::domain;
use crate::outside;
use crate::protocols;
use crate::text;
use crate::text_map;
use crate::protocols::vmess;
use vstd::prelude::*;

verus! {


/// The text that may stand in Base64: itself where it holds `mark`.
pub open spec fn plain_or_base64(
    s: Seq<char>,
    plain: Option<Seq<char>>,
    not_utf8: Seq<char>,
) -> Result<Seq<char>, Seq<char>> {
    match plain {
        Some(p) => Ok(p),
        None => match vmess::flexible_base64(s) {
            Some(bytes) => if vstd::utf8::valid_utf8(bytes) {
                Ok(vstd::utf8::decode_utf8(bytes))
            } else {
                Err(not_utf8)
            },
            None => Err("invalid Base64"@),
        },
    }
}

/// The authority of a link, which may stand in Base64 as a whole.
pub open spec fn expanded_authority(s: Seq<char>) -> Result<Seq<char>, Seq<char>> {
    plain_or_base64(
        s,
        if s.contains('@') {
            Some(s)
        } else {
            None
        },
        "Shadowsocks Base64 is not UTF-8"@,
    )
}

/// The user information of a link, percent-encoded or in Base64.
pub open spec fn expanded_userinfo(s: Seq<char>) -> Result<Seq<char>, Seq<char>> {
    plain_or_base64(
        s,
        if s.contains(':') {
            Some(outside::percent_decoded(s))
        } else {
            None
        },
        "Shadowsocks userinfo is not UTF-8"@,
    )
}

fn base64_text(s: &str, not_utf8: &str) -> (r: Result<String, ManagerError>)
    ensures
        match r {
            Ok(t) => plain_or_base64(s@, None, not_utf8@) == Ok::<Seq<char>, Seq<char>>(t@),
            Err(e) => plain_or_base64(s@, None, not_utf8@) is Err && e@
                == ManagerErrorView::InvalidNode(plain_or_base64(s@, None, not_utf8@)->Err_0),
        },
{
    match vmess::decode_flexible_base64(s) {
        Ok(bytes) => match outside::utf8_text(bytes.as_slice()) {
            Some(t) => Ok(t),
            None => Err(ManagerError::InvalidNode(text::owned(not_utf8))),
        },
        Err(e) => Err(e),
    }
}

/// What is warned of a plugin.
pub open spec fn plugin_warnings(plugin: Option<Seq<char>>) -> Seq<Seq<char>> {
    match plugin {
        Some(p) => if text::has_prefix(p, "v2ray-plugin"@) || text::has_prefix(p, "obfs-local"@) {
            seq![
                "recognized Shadowsocks plugin is not supported by the built-in Xray adapter: "@ + p,
            ]
        } else {
            seq!["unsupported Shadowsocks plugin: "@ + p]
        },
        None => Seq::empty(),
    }
}

/// What a parsed Shadowsocks link says beyond server, port and name.
pub open spec fn shadowsocks_parsed(
    q: Map<Seq<char>, Seq<char>>,
    method: Seq<char>,
    password: Seq<char>,
) -> ParsedNodeView {
    ParsedNodeView {
        protocol: Protocol::Shadowsocks,
        user: None,
        password: Some(password),
        transport: domain::plain_transport("tcp"@),
        security: domain::plain_security(Seq::empty()),
        warnings: plugin_warnings(text_map::at(q, "plugin"@)),
        extra: q.insert("method"@, method),
    }
}

/// What a Shadowsocks link with the query, method and password says.
pub fn parsed_of(query: TextMap, method: String, password: String) -> (r: ParsedNode)
    ensures
        r@ == shadowsocks_parsed(query@, method@, password@),
{
    let mut warnings: Vec<String> = Vec::new();
    proof {
        text::lemma_texts_empty(warnings@);
    }
    match query.get("plugin") {
        Some(plugin) => {
            let warning = if text::starts_with(plugin.as_str(), "v2ray-plugin") || text::starts_with(
                plugin.as_str(),
                "obfs-local",
            ) {
                text::concat(
                    "recognized Shadowsocks plugin is not supported by the built-in Xray adapter: ",
                    plugin.as_str(),
                )
            } else {
                text::concat("unsupported Shadowsocks plugin: ", plugin.as_str())
            };
            proof {
                text::lemma_texts_push(warnings@, warning);
            }
            warnings.push(warning);
        },
        None => {},
    }
    assert(text::texts(warnings@) =~= plugin_warnings(text_map::at(query@, "plugin"@)));
    let mut extra = query;
    extra.insert(text::owned("method"), method);
    ParsedNode {
        protocol: Protocol::Shadowsocks,
        user: None,
        password: Some(password),
        transport: Transport::plain("tcp"),
        security: Security::default(),
        warnings,
        extra,
    }
}

/// The link rewritten as a URL that the URL reader takes.
pub open spec fn normalized_link(
    method: Seq<char>,
    password: Seq<char>,
    endpoint: Seq<char>,
    fragment: Seq<char>,
) -> Seq<char> {
    "ss://"@ + outside::percent_encoded(method) + ":"@ + outside::percent_encoded(password) + "@"@ + endpoint + "#"@
        + fragment
}

/// A text and what follows the first `c` in it, nothing where there is none.
pub open spec fn head_and_tail(s: Seq<char>, c: char) -> (Seq<char>, Seq<char>) {
    match text::cut_first(s, c) {
        Some(p) => p,
        None => (s, ""@),
    }
}

fn split_head(s: &str, c: char) -> (r: (String, String))
    ensures
        (r.0@, r.1@) == head_and_tail(s@, c),
{
    match text::split_once(s, c) {
        Some(p) => p,
        None => (text::owned(s), text::owned("")),
    }
}

/// The node of a link whose authority is expanded.
pub open spec fn expanded_node(
    expanded: Seq<char>,
    query: Seq<char>,
    fragment: Seq<char>,
    uri: Seq<char>,
    subscription: Seq<char>,
) -> Result<NodeView, ManagerErrorView> {
    match text::cut_last(expanded, '@') {
        None => protocols::bad_node("Shadowsocks URI has no endpoint"@),
        Some((userinfo, endpoint)) => match expanded_userinfo(userinfo) {
            Err(e) => protocols::bad_node(e),
            Ok(decoded) => match text::cut_first(decoded, ':') {
                None => protocols::bad_node("missing Shadowsocks method/password"@),
                Some((method, password)) => match outside::read_url(
                    normalized_link(method, password, endpoint, fragment),
                ) {
                    Err(e) => protocols::bad_node(e),
                    Ok(url) => protocols::url_node(
                        url,
                        uri,
                        subscription,
                        shadowsocks_parsed(text_map::collected(outside::form_pairs(query)), method, password),
                    ),
                },
            },
        },
    }
}

fn node_of_expanded(
    expanded: &str,
    query: &str,
    fragment: &str,
    uri: &str,
    subscription: &str,
) -> (r: Result<Node, ManagerError>)
    ensures
        protocols::node_result(r, expanded_node(expanded@, query@, fragment@, uri@, subscription@)),
{
    let (userinfo, endpoint) = match text::rsplit_once(expanded, '@') {
        Some(p) => p,
        None => return Err(ManagerError::InvalidNode(text::owned("Shadowsocks URI has no endpoint"))),
    };
    let decoded = if text::contains_char(userinfo.as_str(), ':') {
        outside::percent_decode(userinfo.as_str())
    } else {
        match base64_text(userinfo.as_str(), "Shadowsocks userinfo is not UTF-8") {
            Ok(t) => t,
            Err(e) => return Err(e),
        }
    };
    let (method, password) = match text::split_once(decoded.as_str(), ':') {
        Some(p) => p,
        None => return Err(ManagerError::InvalidNode(text::owned("missing Shadowsocks method/password"))),
    };
    let mut normalized = text::owned("ss://");
    normalized.append(outside::percent_encode(method.as_str()).as_str());
    normalized.append(":");
    normalized.append(outside::percent_encode(password.as_str()).as_str());
    normalized.append("@");
    normalized.append(endpoint.as_str());
    normalized.append("#");
    normalized.append(fragment);
    let url = match outside::parse_url(normalized.as_str()) {
        Ok(url) => url,
        Err(e) => return Err(ManagerError::InvalidNode(e)),
    };
    let parsed = parsed_of(text_map::collect_pairs(&outside::parse_form(query)), method, password);
    protocols::node_from_url(&url, uri, subscription, parsed)
}

/// The node that a Shadowsocks link gives.
pub open spec fn shadowsocks_uri_node(uri: Seq<char>, subscription: Seq<char>) -> Result<
    NodeView,
    ManagerErrorView,
> {
    match text::after_prefix(uri, "ss://"@) {
        None => protocols::bad_node("invalid Shadowsocks scheme"@),
        Some(body) => {
            let (without_fragment, fragment) = head_and_tail(body, '#');
            let (authority, query) = head_and_tail(without_fragment, '?');
            match expanded_authority(authority) {
                Err(e) => protocols::bad_node(e),
                Ok(expanded) => expanded_node(expanded, query, fragment, uri, subscription),
            }
        },
    }
}

/// Parses a Shadowsocks link.
pub fn parse_shadowsocks(uri: &str, subscription: &str) -> (r: Result<Node, ManagerError>)
    ensures
        protocols::node_result(r, shadowsocks_uri_node(uri@, subscription@)),
{
    let body = match text::strip_prefix(uri, "ss://") {
        Some(body) => body,
        None => return Err(ManagerError::InvalidNode(text::owned("invalid Shadowsocks scheme"))),
    };
    let (without_fragment, fragment) = split_head(body.as_str(), '#');
    let (authority, query) = split_head(without_fragment.as_str(), '?');
    let expanded = if text::contains_char(authority.as_str(), '@') {
        authority.clone()
    } else {
        match base64_text(authority.as_str(), "Shadowsocks Base64 is not UTF-8") {
            Ok(t) => t,
            Err(e) => return Err(e),
        }
    };
    node_of_expanded(expanded.as_str(), query.as_str(), fragment.as_str(), uri, subscription)
}

} // verus!
