//! Share links of the supported protocols.

use crate::domain::{
    Node, NodeId, NodeView, Protocol, SecretCredentials, SecretCredentialsView, Security,
    SecurityView, Transport, TransportView,
};
use crate::error::{ManagerError, ManagerErrorView};
use crate::outside::{UrlParts, UrlView};
use crate::text_map::TextMap;
use crate::domain;
use crate::outside;
use crate::text;
use crate::text_map;
use vstd::prelude::*;

pub mod hysteria2;
pub mod link_object;
pub mod shadowsocks;
pub mod trojan;
pub mod vless;
pub mod vmess;

pub use hysteria2::parse_hysteria2;
pub use shadowsocks::parse_shadowsocks;
pub use trojan::parse_trojan;
pub use vless::parse_vless;
pub use vmess::parse_vmess;

verus! {

/// What a share link says beyond server, port and name.
pub struct ParsedNode {
    pub protocol: Protocol,
    pub user: Option<String>,
    pub password: Option<String>,
    pub transport: Transport,
    pub security: Security,
    pub warnings: Vec<String>,
    pub extra: TextMap,
}

/// The mathematical value of a [`ParsedNode`].
#[verifier::ext_equal]
pub struct ParsedNodeView {
    pub protocol: Protocol,
    pub user: Option<Seq<char>>,
    pub password: Option<Seq<char>>,
    pub transport: TransportView,
    pub security: SecurityView,
    pub warnings: Seq<Seq<char>>,
    pub extra: Map<Seq<char>, Seq<char>>,
}

impl View for ParsedNode {
    type V = ParsedNodeView;

    open spec fn view(&self) -> ParsedNodeView {
        ParsedNodeView {
            protocol: self.protocol,
            user: text::opt_text(self.user),
            password: text::opt_text(self.password),
            transport: self.transport@,
            security: self.security@,
            warnings: text::texts(self.warnings@),
            extra: self.extra@,
        }
    }
}

/// An error about a share link.
pub open spec fn bad_node(m: Seq<char>) -> Result<NodeView, ManagerErrorView> {
    Err(ManagerErrorView::InvalidNode(m))
}

/// A result agrees with the value or error that was computed for it. The ID of
/// a node, being a fingerprint, can be shown.
pub open spec fn node_result(
    r: Result<Node, ManagerError>,
    want: Result<NodeView, ManagerErrorView>,
) -> bool {
    match r {
        Ok(n) => want == Ok::<NodeView, ManagerErrorView>(n@) && domain::has_short(n@.id),
        Err(e) => want == Err::<NodeView, ManagerErrorView>(e@),
    }
}

/// The name of a node: the decoded fragment, or where that is blank the endpoint.
pub open spec fn node_name(
    fragment: Option<Seq<char>>,
    server: Seq<char>,
    port: u16,
) -> Seq<char> {
    let endpoint = server + ":"@ + text::decimal(port as nat);
    match fragment {
        Some(f) => if text::trimmed(outside::percent_decoded(f)).len() == 0 {
            endpoint
        } else {
            outside::percent_decoded(f)
        },
        None => endpoint,
    }
}

/// A node before it has its fingerprint.
pub open spec fn fingerprinted(n: NodeView) -> NodeView {
    NodeView { id: domain::fingerprint(domain::identity_text(n)), ..n }
}

/// The node that a URL and what was parsed of it give.
pub open spec fn url_node(
    url: UrlView,
    raw_uri: Seq<char>,
    subscription: Seq<char>,
    parsed: ParsedNodeView,
) -> Result<NodeView, ManagerErrorView> {
    match url.host {
        Some(server) if server.len() > 0 => match url.port {
            Some(port) => Ok(
                fingerprinted(
                    NodeView {
                        id: Seq::empty(),
                        subscription,
                        name: node_name(url.fragment, server, port),
                        protocol: parsed.protocol,
                        server,
                        port,
                        credentials: SecretCredentialsView {
                            user: parsed.user,
                            password: parsed.password,
                        },
                        transport: parsed.transport,
                        security: parsed.security,
                        raw_uri,
                        warnings: parsed.warnings,
                        extra: parsed.extra,
                    },
                ),
            ),
            None => bad_node("missing or invalid port"@),
        },
        _ => bad_node("missing server"@),
    }
}

/// The node of a URL and of what was parsed of it.
pub fn node_from_url(
    url: &UrlParts,
    raw_uri: &str,
    subscription: &str,
    parsed: ParsedNode,
) -> (r: Result<Node, ManagerError>)
    ensures
        node_result(r, url_node(url@, raw_uri@, subscription@, parsed@)),
{
    let server = match &url.host {
        Some(host) if !host.as_str().is_empty() => host.clone(),
        _ => return Err(ManagerError::InvalidNode(text::owned("missing server"))),
    };
    let port = match url.port {
        Some(port) => port,
        None => return Err(ManagerError::InvalidNode(text::owned("missing or invalid port"))),
    };
    let mut endpoint = server.clone();
    endpoint.append(":");
    endpoint.append(text::decimal_of(port as u64).as_str());
    let name = match &url.fragment {
        Some(fragment) => {
            let decoded = outside::percent_decode(fragment.as_str());
            if text::is_blank(decoded.as_str()) {
                endpoint
            } else {
                decoded
            }
        },
        None => endpoint,
    };
    let mut node = Node {
        id: NodeId::new("pending"),
        subscription: text::owned(subscription),
        name,
        protocol: parsed.protocol,
        server,
        port,
        credentials: SecretCredentials {
            user: domain::seal(parsed.user),
            password: domain::seal(parsed.password),
        },
        transport: parsed.transport,
        security: parsed.security,
        raw_uri: outside::secret_from(text::owned(raw_uri)),
        warnings: parsed.warnings,
        extra: parsed.extra,
    };
    node.refresh_id();
    Ok(node)
}

/// The warnings for the keys that are not among `known`, in key order.
pub open spec fn unknown_parameters(
    keys: Seq<Seq<char>>,
    known: Seq<Seq<char>>,
    label: Seq<char>,
) -> Seq<Seq<char>>
    decreases keys.len(),
{
    if keys.len() == 0 {
        Seq::empty()
    } else {
        let rest = unknown_parameters(keys.drop_last(), known, label);
        if text::contains_text(known, keys.last()) {
            rest
        } else {
            rest.push(label + keys.last())
        }
    }
}

/// Warns of each key of `query` that is not among `known`.
pub fn warn_unknown(query: &TextMap, known: &Vec<String>, label: &str) -> (r: Vec<String>)
    ensures
        text::texts(r@) == unknown_parameters(text_map::sorted_keys(query@), text::texts(known@), label@),
{
    let keys = query.keys();
    let ghost all = text_map::sorted_keys(query@);
    let mut r: Vec<String> = Vec::new();
    let mut i: usize = 0;
    proof {
        text::lemma_texts_empty(r@);
        assert(all.take(0).len() == 0);
    }
    while i < keys.len()
        invariant
            i <= keys@.len(),
            all == text::texts(keys@),
            text::texts(r@) == unknown_parameters(all.take(i as int), text::texts(known@), label@),
        decreases keys@.len() - i,
    {
        proof {
            assert(all.take(i + 1).drop_last() =~= all.take(i as int));
            assert(all.take(i + 1).last() == keys@[i as int]@);
        }
        if !text::text_in(known, keys[i].as_str()) {
            let warning = text::concat(label, keys[i].as_str());
            proof {
                text::lemma_texts_push(r@, warning);
            }
            r.push(warning);
        }
        i += 1;
    }
    assert(all.take(all.len() as int) =~= all);
    r
}

/// The non-empty fields of a comma-separated list.
pub open spec fn nonempty(items: Seq<Seq<char>>) -> Seq<Seq<char>> {
    items.filter(|s: Seq<char>| s.len() > 0)
}

pub open spec fn csv_items(o: Option<Seq<char>>) -> Seq<Seq<char>> {
    match o {
        Some(s) => nonempty(text::fields(s, ',')),
        None => Seq::empty(),
    }
}

/// The non-empty items of an optional comma-separated list.
pub fn split_csv(value: &Option<String>) -> (r: Vec<String>)
    ensures
        text::texts(r@) == csv_items(text::opt_text(*value)),
{
    let mut r: Vec<String> = Vec::new();
    proof {
        text::lemma_texts_empty(r@);
    }
    match value {
        Some(s) => {
            let parts = text::split_char(s.as_str(), ',');
            let ghost all = text::texts(parts@);
            let mut i: usize = 0;
            assert(nonempty(all.take(0)) =~= Seq::<Seq<char>>::empty()) by {
                reveal(Seq::filter);
            }
            while i < parts.len()
                invariant
                    i <= parts@.len(),
                    all == text::texts(parts@),
                    text::texts(r@) == nonempty(all.take(i as int)),
                decreases parts@.len() - i,
            {
                proof {
                    reveal(Seq::filter);
                    assert(all.take(i + 1).drop_last() =~= all.take(i as int));
                    assert(all.take(i + 1).last() == parts@[i as int]@);
                }
                if !parts[i].as_str().is_empty() {
                    let item = parts[i].clone();
                    proof {
                        text::lemma_texts_push(r@, item);
                    }
                    r.push(item);
                }
                i += 1;
            }
            assert(all.take(all.len() as int) =~= all);
        },
        None => {},
    }
    r
}

/// The node that a share link gives.
#[verifier::opaque]
pub open spec fn uri_node(uri: Seq<char>, subscription: Seq<char>) -> Result<
    NodeView,
    ManagerErrorView,
> {
    match text::cut_first(uri, ':') {
        None => bad_node("URI has no scheme"@),
        Some((head, _)) => {
            let scheme = text::ascii_lower(head);
            if scheme == "vless"@ {
                vless::vless_uri_node(uri, subscription)
            } else if scheme == "vmess"@ {
                vmess::vmess_uri_node(uri, subscription)
            } else if scheme == "trojan"@ {
                trojan::trojan_uri_node(uri, subscription)
            } else if scheme == "ss"@ {
                shadowsocks::shadowsocks_uri_node(uri, subscription)
            } else if scheme == "hysteria2"@ || scheme == "hy2"@ {
                hysteria2::hysteria2_uri_node(uri, subscription)
            } else {
                bad_node("unsupported URI scheme: "@ + scheme)
            }
        },
    }
}

/// Parses a share link by its scheme.
pub fn parse_uri(uri: &str, subscription: &str) -> (r: Result<Node, ManagerError>)
    ensures
        node_result(r, uri_node(uri@, subscription@)),
{
    proof {
        reveal(uri_node);
    }
    let head = match text::split_once(uri, ':') {
        Some((head, _)) => head,
        None => return Err(ManagerError::InvalidNode(text::owned("URI has no scheme"))),
    };
    let scheme = text::to_ascii_lowercase(head.as_str());
    if text::same(scheme.as_str(), "vless") {
        vless::parse_vless(uri, subscription)
    } else if text::same(scheme.as_str(), "vmess") {
        vmess::parse_vmess(uri, subscription)
    } else if text::same(scheme.as_str(), "trojan") {
        trojan::parse_trojan(uri, subscription)
    } else if text::same(scheme.as_str(), "ss") {
        shadowsocks::parse_shadowsocks(uri, subscription)
    } else if text::same(scheme.as_str(), "hysteria2") || text::same(scheme.as_str(), "hy2") {
        hysteria2::parse_hysteria2(uri, subscription)
    } else {
        Err(ManagerError::InvalidNode(text::concat("unsupported URI scheme: ", scheme.as_str())))
    }
}

/// A parsed node belongs to the subscription that it was parsed for, keeps the
/// whole link, and carries the fingerprint of what it is.
pub open spec fn is_complete(r: Result<NodeView, ManagerErrorView>, uri: Seq<char>, subscription: Seq<char>) -> bool {
    r matches Ok(n) ==> n.subscription == subscription && n.raw_uri == uri && n.id
        == domain::fingerprint(domain::identity_text(n))
}

proof fn lemma_url_node(
    url: UrlView,
    uri: Seq<char>,
    subscription: Seq<char>,
    parsed: ParsedNodeView,
)
    ensures
        is_complete(url_node(url, uri, subscription, parsed), uri, subscription),
{
    lemma_fingerprint();
}

proof fn lemma_fingerprint()
    ensures
        forall|n: NodeView| #[trigger]
            domain::identity_text(fingerprinted(n)) == domain::identity_text(n),
{
}

/// Whatever link is parsed, the node is complete.
pub proof fn law_parsed_node_is_complete(uri: Seq<char>, subscription: Seq<char>)
    ensures
        is_complete(uri_node(uri, subscription), uri, subscription),
{
    reveal(uri_node);
    assert forall|url: UrlView, parsed: ParsedNodeView| is_complete(
        #[trigger] url_node(url, uri, subscription, parsed),
        uri,
        subscription,
    ) by {
        lemma_url_node(url, uri, subscription, parsed);
    }
    lemma_fingerprint();
}

} // verus!
