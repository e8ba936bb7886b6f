//! What a share link says of its node, by the names that links use.

use crate::domain::{NodeView, Protocol, TransportView};
use crate::error::ManagerErrorView;
use crate::json::JsonView;
use crate::laws::reading::mark;
use crate::outside::{is_uuid, percent_decoded, read_url, UrlView};
use crate::protocols::{csv_items, uri_node};
use crate::protocols::hysteria2::hysteria2_uri_node;
use crate::protocols::shadowsocks::shadowsocks_uri_node;
use crate::protocols::trojan::trojan_uri_node;
use crate::protocols::vless::vless_uri_node;
use crate::protocols::vmess::vmess_uri_node;
use crate::protocols;
use crate::protocols::{hysteria2, link_object, shadowsocks, trojan, vless, vmess};
use crate::text::{ascii_lower, contains_text, cut_first, cut_last, decimal, trimmed};
use crate::text_map::{at, collected, lists_keys, sorted_keys};
use crate::text_map;
use vstd::prelude::*;

verus! {

/// The scheme of a link, in small letters.
pub open spec fn scheme(uri: Seq<char>) -> Option<Seq<char>> {
    match cut_first(uri, ':') {
        Some((head, _)) => Some(ascii_lower(head)),
        None => None,
    }
}

/// What a link asks for under a name: the last thing that it says.
pub open spec fn asked(pairs: Seq<(Seq<char>, Seq<char>)>, name: Seq<char>) -> Option<Seq<char>>
    decreases pairs.len(),
{
    if pairs.len() == 0 {
        None
    } else if pairs.last().0 == name {
        Some(pairs.last().1)
    } else {
        asked(pairs.drop_last(), name)
    }
}

pub proof fn lemma_asked(pairs: Seq<(Seq<char>, Seq<char>)>, name: Seq<char>)
    ensures
        at(collected(pairs), name) == asked(pairs, name),
    decreases pairs.len(),
{
    if pairs.len() > 0 {
        lemma_asked(pairs.drop_last(), name);
    }
}

proof fn lemma_listed(pairs: Seq<(Seq<char>, Seq<char>)>)
    ensures
        lists_keys(sorted_keys(collected(pairs)), collected(pairs)),
    decreases pairs.len(),
{
    if pairs.len() == 0 {
        let none = Seq::<Seq<char>>::empty();
        assert(lists_keys(none, Map::<Seq<char>, Seq<char>>::empty()));
    } else {
        lemma_listed(pairs.drop_last());
        text_map::lemma_insert_listed(
            collected(pairs.drop_last()),
            pairs.last().0,
            pairs.last().1,
        );
    }
}

/// A text, another where there is none.
pub open spec fn or_else(o: Option<Seq<char>>, other: Seq<char>) -> Seq<char> {
    match o {
        Some(s) => s,
        None => other,
    }
}

/// The server, the port and the name of a node are those of its link; a link
/// without a name, or with a blank one, names its server and port.
pub open spec fn placed(n: NodeView, url: UrlView) -> bool {
    &&& url.host == Some(n.server) && n.server.len() > 0
    &&& url.port == Some(n.port)
    &&& (url.fragment matches Some(f) && trimmed(percent_decoded(f)).len() > 0) ==> n.name
        == percent_decoded(url.fragment->0)
    &&& !(url.fragment matches Some(f) && trimmed(percent_decoded(f)).len() > 0) ==> n.name
        == n.server + ":"@ + decimal(n.port as nat)
}

/// What a VLESS link may ask for.
pub open spec fn vless_asks(k: Seq<char>) -> bool {
    ||| k == "encryption"@
    ||| k == "flow"@
    ||| k == "security"@
    ||| k == "type"@
    ||| k == "sni"@
    ||| k == "fp"@
    ||| k == "pbk"@
    ||| k == "sid"@
    ||| k == "spx"@
    ||| k == "alpn"@
    ||| k == "path"@
    ||| k == "host"@
    ||| k == "serviceName"@
    ||| k == "authority"@
    ||| k == "mode"@
    ||| k == "headerType"@
    ||| k == "seed"@
    ||| k == "fm"@
    ||| k == "fragment"@
}

/// What a Trojan link may ask for.
pub open spec fn trojan_asks(k: Seq<char>) -> bool {
    ||| k == "security"@
    ||| k == "type"@
    ||| k == "sni"@
    ||| k == "fp"@
    ||| k == "pbk"@
    ||| k == "sid"@
    ||| k == "spx"@
    ||| k == "alpn"@
    ||| k == "path"@
    ||| k == "host"@
    ||| k == "serviceName"@
    ||| k == "authority"@
}

/// What a Hysteria2 link may ask for.
pub open spec fn hysteria2_asks(k: Seq<char>) -> bool {
    ||| k == "sni"@
    ||| k == "insecure"@
    ||| k == "alpn"@
    ||| k == "pinSHA256"@
    ||| k == "obfs"@
    ||| k == "obfs-password"@
    ||| k == "mport"@
    ||| k == "upmbps"@
    ||| k == "downmbps"@
    ||| k == "fm"@
    ||| k == "fragment"@
}

proof fn lemma_schemes()
    ensures
        mark("vless"@) == (5int, 'v', 'l', 'e', 's', 's'),
        mark("vmess"@) == (5int, 'v', 'm', 'e', 's', 's'),
        mark("trojan"@) == (6int, 't', 'o', 'j', 'a', 'n'),
        mark("ss"@) == (2int, 's', 's', 's', 's', 's'),
        mark("hysteria2"@) == (9int, 'h', 't', 'e', 'i', '2'),
        mark("hy2"@) == (3int, 'h', 'y', 'y', '2', '2'),
{
    reveal_strlit("vless");
    reveal_strlit("vmess");
    reveal_strlit("trojan");
    reveal_strlit("ss");
    reveal_strlit("hysteria2");
    reveal_strlit("hy2");
}

/// The scheme of a link decides how it is read; it may be written in capitals.
/// A link of any other scheme, or of none, is refused.
pub proof fn law_scheme_decides(uri: Seq<char>, subscription: Seq<char>)
    ensures
        scheme(uri) == Some("vless"@) ==> uri_node(uri, subscription) == vless_uri_node(
            uri,
            subscription,
        ),
        scheme(uri) == Some("vmess"@) ==> uri_node(uri, subscription) == vmess_uri_node(
            uri,
            subscription,
        ),
        scheme(uri) == Some("trojan"@) ==> uri_node(uri, subscription) == trojan_uri_node(
            uri,
            subscription,
        ),
        scheme(uri) == Some("ss"@) ==> uri_node(uri, subscription) == shadowsocks_uri_node(
            uri,
            subscription,
        ),
        scheme(uri) == Some("hysteria2"@) || scheme(uri) == Some("hy2"@) ==> uri_node(
            uri,
            subscription,
        ) == hysteria2_uri_node(uri, subscription),
        uri_node(uri, subscription) is Ok ==> (scheme(uri) matches Some(s) && (s == "vless"@ || s
            == "vmess"@ || s == "trojan"@ || s == "ss"@ || s == "hysteria2"@ || s == "hy2"@)),
        uri_node(uri, subscription) matches Ok(n) ==> n.protocol == (match scheme(uri) {
            Some(s) => if s == "vless"@ {
                Protocol::Vless
            } else if s == "vmess"@ {
                Protocol::Vmess
            } else if s == "trojan"@ {
                Protocol::Trojan
            } else if s == "ss"@ {
                Protocol::Shadowsocks
            } else {
                Protocol::Hysteria2
            },
            None => Protocol::Vless,
        }),
{
    reveal(uri_node);
    lemma_schemes();
}

/// A VLESS link is a node exactly where its user is a UUID and it names a server
/// and a port. The node has that user, and each part of its transport and
/// security is what the link says under the name of that part.
pub proof fn law_vless_link(uri: Seq<char>, url: UrlView, subscription: Seq<char>)
    requires
        scheme(uri) == Some("vless"@),
        read_url(uri) == Ok::<UrlView, Seq<char>>(url),
    ensures
        uri_node(uri, subscription) is Ok <==> is_uuid(url.username) && url.port is Some && (
        url.host matches Some(h) && h.len() > 0),
        uri_node(uri, subscription) matches Ok(n) ==> {
            let t = n.transport;
            let c = n.security;
            &&& n.protocol == Protocol::Vless
            &&& placed(n, url)
            &&& n.credentials.user == Some(url.username) && n.credentials.password is None
            &&& t.kind == or_else(asked(url.query, "type"@), "tcp"@)
            &&& t.path == asked(url.query, "path"@)
            &&& t.host == asked(url.query, "host"@)
            &&& t.service_name == asked(url.query, "serviceName"@)
            &&& t.authority == asked(url.query, "authority"@)
            &&& t.mode == asked(url.query, "mode"@)
            &&& t.header_type == asked(url.query, "headerType"@)
            &&& t.seed == asked(url.query, "seed"@)
            &&& c.kind == or_else(asked(url.query, "security"@), "none"@)
            &&& c.server_name == asked(url.query, "sni"@)
            &&& c.fingerprint == asked(url.query, "fp"@)
            &&& c.public_key == asked(url.query, "pbk"@)
            &&& c.short_id == asked(url.query, "sid"@)
            &&& c.spider_x == asked(url.query, "spx"@)
            &&& c.alpn == csv_items(asked(url.query, "alpn"@))
            &&& !c.allow_insecure && c.pinned_peer_cert_sha256 is None
            &&& forall|k: Seq<char>| #[trigger] at(n.extra, k) == asked(url.query, k)
        },
{
    law_scheme_decides(uri, subscription);
    assert forall|k: Seq<char>| #[trigger] at(collected(url.query), k) == asked(url.query, k) by {
        lemma_asked(url.query, k);
    }
}

/// A VLESS node is without warnings exactly where its link asks for nothing
/// unknown, for a known transport, for a known header, and for no seed.
pub proof fn law_vless_warnings(uri: Seq<char>, url: UrlView, subscription: Seq<char>, n: NodeView)
    requires
        scheme(uri) == Some("vless"@),
        read_url(uri) == Ok::<UrlView, Seq<char>>(url),
        uri_node(uri, subscription) == Ok::<NodeView, ManagerErrorView>(n),
    ensures
        n.warnings.len() == 0 <==> {
            let kind = ascii_lower(or_else(asked(url.query, "type"@), "tcp"@));
            &&& forall|k: Seq<char>| #[trigger] asked(url.query, k) is Some ==> vless_asks(k)
            &&& kind == "tcp"@ || kind == "raw"@ || kind == "ws"@ || kind == "websocket"@ || kind
                == "grpc"@ || kind == "httpupgrade"@ || kind == "xhttp"@ || kind == "splithttp"@
            &&& asked(url.query, "headerType"@) matches Some(h) ==> ascii_lower(h) == "none"@
                || ascii_lower(h) == "http"@
            &&& asked(url.query, "seed"@) is None
        },
        forall|k: Seq<char>|
            #[trigger] asked(url.query, k) is Some && !vless_asks(k) ==> n.warnings.contains(
                "unknown query parameter: "@ + k,
            ),
{
    law_scheme_decides(uri, subscription);
    let q = collected(url.query);
    let label = "unknown query parameter: "@;
    let keys = sorted_keys(q);
    let known = vless::vless_parameters();
    let u = protocols::unknown_parameters(keys, known, label);
    lemma_unknown(url.query, known, label);
    assert forall|k: Seq<char>| #[trigger] at(q, k) == asked(url.query, k) by {
        lemma_asked(url.query, k);
    }
    assert forall|k: Seq<char>| #[trigger] contains_text(known, k) == vless_asks(k) by {
        lemma_vless_list(k);
    }
    assert(at(q, "type"@) == asked(url.query, "type"@));
    assert(at(q, "headerType"@) == asked(url.query, "headerType"@));
    assert(at(q, "seed"@) == asked(url.query, "seed"@));
    assert(n.warnings == vless::vless_warnings(q));
    assert forall|k: Seq<char>|
        #[trigger] asked(url.query, k) is Some && !vless_asks(k) implies n.warnings.contains(
        label + k,
    ) by {
        assert(!contains_text(known, k));
        assert(u.contains(label + k));
        let i = choose|i: int| 0 <= i < u.len() && u[i] == label + k;
        assert(n.warnings[i] == label + k);
    }
    if u.len() == 0 {
        assert forall|k: Seq<char>| #[trigger] asked(url.query, k) is Some implies vless_asks(k) by {
            if !vless_asks(k) {
                assert(!contains_text(known, k));
                assert(u.contains(label + k));
            }
        }
    } else {
        let k = lemma_some_unknown(url.query, known, label);
        assert(!vless_asks(k) && asked(url.query, k) is Some) by {
            assert(!contains_text(known, k));
        }
    }
}

/// Every unknown name that a link asks for is told once, behind the label.
proof fn lemma_unknown(
    pairs: Seq<(Seq<char>, Seq<char>)>,
    known: Seq<Seq<char>>,
    label: Seq<char>,
)
    ensures
        forall|k: Seq<char>|
            #[trigger] asked(pairs, k) is Some && !contains_text(known, k)
                ==> protocols::unknown_parameters(
                sorted_keys(collected(pairs)),
                known,
                label,
            ).contains(label + k),
{
    lemma_listed(pairs);
    let q = collected(pairs);
    let keys = sorted_keys(q);
    assert forall|k: Seq<char>|
        #[trigger] asked(pairs, k) is Some && !contains_text(
            known,
            k,
        ) implies protocols::unknown_parameters(keys, known, label).contains(label + k) by {
        lemma_asked(pairs, k);
        assert(q.contains_key(k));
        assert(keys.contains(k));
        let i = choose|i: int| 0 <= i < keys.len() && keys[i] == k;
        lemma_unknown_at(keys, known, label, i);
    }
}

proof fn lemma_unknown_at(
    keys: Seq<Seq<char>>,
    known: Seq<Seq<char>>,
    label: Seq<char>,
    i: int,
)
    requires
        0 <= i < keys.len(),
        !contains_text(known, keys[i]),
    ensures
        protocols::unknown_parameters(keys, known, label).contains(label + keys[i]),
    decreases keys.len(),
{
    let u = protocols::unknown_parameters(keys, known, label);
    if i < keys.len() - 1 {
        let v = protocols::unknown_parameters(keys.drop_last(), known, label);
        lemma_unknown_at(keys.drop_last(), known, label, i);
        let j = choose|j: int| 0 <= j < v.len() && v[j] == label + keys[i];
        assert(u[j] == label + keys[i]);
    } else {
        assert(u[u.len() - 1] == label + keys[i]);
    }
}

/// Where anything unknown is told, the link asks for it.
proof fn lemma_some_unknown(
    pairs: Seq<(Seq<char>, Seq<char>)>,
    known: Seq<Seq<char>>,
    label: Seq<char>,
) -> (k: Seq<char>)
    requires
        protocols::unknown_parameters(sorted_keys(collected(pairs)), known, label).len() > 0,
    ensures
        asked(pairs, k) is Some,
        !contains_text(known, k),
{
    lemma_listed(pairs);
    let keys = sorted_keys(collected(pairs));
    let i = lemma_unknown_from(keys, known, label);
    assert(keys.contains(keys[i]));
    assert(collected(pairs).contains_key(keys[i]));
    lemma_asked(pairs, keys[i]);
    keys[i]
}

proof fn lemma_unknown_from(keys: Seq<Seq<char>>, known: Seq<Seq<char>>, label: Seq<char>) -> (i: int)
    requires
        protocols::unknown_parameters(keys, known, label).len() > 0,
    ensures
        0 <= i < keys.len(),
        !contains_text(known, keys[i]),
    decreases keys.len(),
{
    if contains_text(known, keys.last()) {
        lemma_unknown_from(keys.drop_last(), known, label)
    } else {
        keys.len() - 1
    }
}

proof fn lemma_vless_list(k: Seq<char>)
    ensures
        contains_text(vless::vless_parameters(), k) == vless_asks(k),
{
    let known = vless::vless_parameters();
    assert(known.len() == 19);
    assert(known[0] == "encryption"@);
    assert(known[1] == "flow"@);
    assert(known[2] == "security"@);
    assert(known[3] == "type"@);
    assert(known[4] == "sni"@);
    assert(known[5] == "fp"@);
    assert(known[6] == "pbk"@);
    assert(known[7] == "sid"@);
    assert(known[8] == "spx"@);
    assert(known[9] == "alpn"@);
    assert(known[10] == "path"@);
    assert(known[11] == "host"@);
    assert(known[12] == "serviceName"@);
    assert(known[13] == "authority"@);
    assert(known[14] == "mode"@);
    assert(known[15] == "headerType"@);
    assert(known[16] == "seed"@);
    assert(known[17] == "fm"@);
    assert(known[18] == "fragment"@);
}

proof fn lemma_trojan_list(k: Seq<char>)
    ensures
        contains_text(trojan::trojan_parameters(), k) == trojan_asks(k),
{
    let known = trojan::trojan_parameters();
    assert(known.len() == 12);
    assert(known[0] == "security"@);
    assert(known[1] == "type"@);
    assert(known[2] == "sni"@);
    assert(known[3] == "fp"@);
    assert(known[4] == "pbk"@);
    assert(known[5] == "sid"@);
    assert(known[6] == "spx"@);
    assert(known[7] == "alpn"@);
    assert(known[8] == "path"@);
    assert(known[9] == "host"@);
    assert(known[10] == "serviceName"@);
    assert(known[11] == "authority"@);
}

proof fn lemma_hysteria2_list(k: Seq<char>)
    ensures
        contains_text(hysteria2::hysteria2_parameters(), k) == hysteria2_asks(k),
{
    let known = hysteria2::hysteria2_parameters();
    assert(known.len() == 11);
    assert(known[0] == "sni"@);
    assert(known[1] == "insecure"@);
    assert(known[2] == "alpn"@);
    assert(known[3] == "pinSHA256"@);
    assert(known[4] == "obfs"@);
    assert(known[5] == "obfs-password"@);
    assert(known[6] == "mport"@);
    assert(known[7] == "upmbps"@);
    assert(known[8] == "downmbps"@);
    assert(known[9] == "fm"@);
    assert(known[10] == "fragment"@);
}


/// A Trojan link is a node exactly where it has a password and names a server
/// and a port. Without a word of its security it is TLS.
pub proof fn law_trojan_link(uri: Seq<char>, url: UrlView, subscription: Seq<char>)
    requires
        scheme(uri) == Some("trojan"@),
        read_url(uri) == Ok::<UrlView, Seq<char>>(url),
    ensures
        uri_node(uri, subscription) is Ok <==> percent_decoded(url.username).len() > 0
            && url.port is Some && (url.host matches Some(h) && h.len() > 0),
        uri_node(uri, subscription) matches Ok(n) ==> {
            let t = n.transport;
            let c = n.security;
            &&& n.protocol == Protocol::Trojan
            &&& placed(n, url)
            &&& n.credentials.password == Some(percent_decoded(url.username))
            &&& n.credentials.user is None
            &&& t.kind == or_else(asked(url.query, "type"@), "tcp"@)
            &&& t.path == asked(url.query, "path"@)
            &&& t.host == asked(url.query, "host"@)
            &&& t.service_name == asked(url.query, "serviceName"@)
            &&& t.authority == asked(url.query, "authority"@)
            &&& t.mode is None && t.header_type is None && t.seed is None
            &&& c.kind == or_else(asked(url.query, "security"@), "tls"@)
            &&& c.server_name == asked(url.query, "sni"@)
            &&& c.fingerprint == asked(url.query, "fp"@)
            &&& c.public_key == asked(url.query, "pbk"@)
            &&& c.short_id == asked(url.query, "sid"@)
            &&& c.spider_x == asked(url.query, "spx"@)
            &&& c.alpn == csv_items(asked(url.query, "alpn"@))
            &&& !c.allow_insecure && c.pinned_peer_cert_sha256 is None
            &&& forall|k: Seq<char>| #[trigger] at(n.extra, k) == asked(url.query, k)
            &&& n.warnings.len() == 0 <==> (forall|k: Seq<char>| #[trigger]
                asked(url.query, k) is Some ==> trojan_asks(k))
        },
{
    law_scheme_decides(uri, subscription);
    assert forall|k: Seq<char>| #[trigger] at(collected(url.query), k) == asked(url.query, k) by {
        lemma_asked(url.query, k);
    }
    let known = trojan::trojan_parameters();
    let label = "unknown query parameter: "@;
    let u = protocols::unknown_parameters(sorted_keys(collected(url.query)), known, label);
    lemma_unknown(url.query, known, label);
    assert forall|k: Seq<char>| #[trigger] contains_text(known, k) == trojan_asks(k) by {
        lemma_trojan_list(k);
    }
    if u.len() == 0 {
        assert forall|k: Seq<char>| #[trigger] asked(url.query, k) is Some implies trojan_asks(k) by {
            if !trojan_asks(k) {
                assert(!contains_text(known, k));
                assert(u.contains(label + k));
            }
        }
    } else {
        let k = lemma_some_unknown(url.query, known, label);
        assert(!trojan_asks(k)) by {
            assert(!contains_text(known, k));
        }
    }
}

/// A Hysteria2 link, under either scheme, is a node exactly where it has a
/// password and names a server and a port. It is TLS, whose certificate goes
/// unchecked only where the link says so, and any unknown or unsupported part
/// of it is a warning.
pub proof fn law_hysteria2_link(uri: Seq<char>, url: UrlView, subscription: Seq<char>)
    requires
        scheme(uri) == Some("hysteria2"@) || scheme(uri) == Some("hy2"@),
        read_url(crate::text::replaced_first(uri, "hy2://"@, "hysteria2://"@)) == Ok::<
            UrlView,
            Seq<char>,
        >(url),
    ensures
        uri_node(uri, subscription) is Ok <==> percent_decoded(url.username).len() > 0
            && url.port is Some && (url.host matches Some(h) && h.len() > 0),
        uri_node(uri, subscription) matches Ok(n) ==> {
            let c = n.security;
            &&& n.protocol == Protocol::Hysteria2
            &&& placed(n, url)
            &&& n.credentials.password == Some(percent_decoded(url.username))
            &&& n.credentials.user is None
            &&& n.transport == (TransportView {
                kind: "hysteria"@,
                path: None,
                host: None,
                service_name: None,
                authority: None,
                mode: None,
                header_type: None,
                seed: None,
            })
            &&& c.kind == "tls"@
            &&& c.server_name == asked(url.query, "sni"@)
            &&& c.alpn == csv_items(asked(url.query, "alpn"@))
            &&& c.allow_insecure <==> asked(url.query, "insecure"@) == Some("1"@) || asked(
                url.query,
                "insecure"@,
            ) == Some("true"@)
            &&& c.pinned_peer_cert_sha256 == asked(url.query, "pinSHA256"@)
            &&& c.fingerprint is None && c.public_key is None && c.short_id is None
                && c.spider_x is None
            &&& forall|k: Seq<char>| #[trigger] at(n.extra, k) == asked(url.query, k)
            &&& n.warnings.len() == 0 <==> (forall|k: Seq<char>| #[trigger]
                asked(url.query, k) is Some ==> hysteria2_asks(k)) && (asked(url.query, "obfs"@)
                is None || asked(url.query, "obfs"@) == Some("salamander"@))
        },
{
    law_scheme_decides(uri, subscription);
    assert forall|k: Seq<char>| #[trigger] at(collected(url.query), k) == asked(url.query, k) by {
        lemma_asked(url.query, k);
    }
    assert(at(collected(url.query), "obfs"@) == asked(url.query, "obfs"@));
    let known = hysteria2::hysteria2_parameters();
    let label = "unsupported Hysteria2 parameter: "@;
    let u = protocols::unknown_parameters(sorted_keys(collected(url.query)), known, label);
    lemma_unknown(url.query, known, label);
    assert forall|k: Seq<char>| #[trigger] contains_text(known, k) == hysteria2_asks(k) by {
        lemma_hysteria2_list(k);
    }
    if u.len() == 0 {
        assert forall|k: Seq<char>| #[trigger] asked(url.query, k) is Some implies hysteria2_asks(
            k,
        ) by {
            if !hysteria2_asks(k) {
                assert(!contains_text(known, k));
                assert(u.contains(label + k));
            }
        }
    } else {
        let k = lemma_some_unknown(url.query, known, label);
        assert(!hysteria2_asks(k)) by {
            assert(!contains_text(known, k));
        }
    }
}

/// A Shadowsocks link whose parts are plain, `ss://method:password@endpoint`
/// with a query and a name: the node has the method and the password that stand
/// before and behind the first colon, and what the link names as its plugin is
/// a warning.
pub proof fn law_shadowsocks_link(
    expanded: Seq<char>,
    query: Seq<char>,
    fragment: Seq<char>,
    uri: Seq<char>,
    subscription: Seq<char>,
    userinfo: Seq<char>,
    endpoint: Seq<char>,
    n: NodeView,
)
    requires
        cut_last(expanded, '@') == Some((userinfo, endpoint)),
        userinfo.contains(':'),
        shadowsocks::expanded_node(expanded, query, fragment, uri, subscription) == Ok::<
            NodeView,
            ManagerErrorView,
        >(n),
    ensures
        ({
            let pairs = crate::outside::form_pairs(query);
            let halves = cut_first(percent_decoded(userinfo), ':');
            &&& halves matches Some((method, password)) && n.credentials.password == Some(password)
                && n.extra.contains_key("method"@) && n.extra["method"@] == method
            &&& n.credentials.user is None
            &&& n.protocol == Protocol::Shadowsocks
            &&& n.transport.kind == "tcp"@
            &&& n.security.kind.len() == 0
            &&& n.warnings.len() == 0 <==> asked(pairs, "plugin"@) is None
            &&& forall|k: Seq<char>|
                k != "method"@ ==> #[trigger] at(n.extra, k) == asked(pairs, k)
        }),
{
    let pairs = crate::outside::form_pairs(query);
    assert forall|k: Seq<char>| #[trigger] at(collected(pairs), k) == asked(pairs, k) by {
        lemma_asked(pairs, k);
    }
    assert(at(collected(pairs), "plugin"@) == asked(pairs, "plugin"@));
    assert forall|k: Seq<char>| k != "method"@ implies #[trigger] at(n.extra, k) == asked(
        pairs,
        k,
    ) by {
        assert(at(collected(pairs), k) == asked(pairs, k));
    }
}

/// A Shadowsocks link that is a node begins with its scheme, and is its text up
/// to the name, then up to the query, plain where it has an at sign and in
/// Base64 otherwise.
pub proof fn law_shadowsocks_parts(
    authority: Seq<char>,
    query: Seq<char>,
    fragment: Seq<char>,
    subscription: Seq<char>,
)
    requires
        authority.contains('@'),
        !authority.contains('#') && !authority.contains('?'),
        !query.contains('#'),
    ensures
        ({
            let uri = "ss://"@ + authority + "?"@ + query + "#"@ + fragment;
            shadowsocks_uri_node(uri, subscription) == shadowsocks::expanded_node(
                authority,
                query,
                fragment,
                uri,
                subscription,
            )
        }),
        ({
            let uri = "ss://"@ + authority;
            shadowsocks_uri_node(uri, subscription) == shadowsocks::expanded_node(
                authority,
                ""@,
                ""@,
                uri,
                subscription,
            )
        }),
{
    reveal_strlit("ss://");
    reveal_strlit("?");
    reveal_strlit("#");
    let uri = "ss://"@ + authority + "?"@ + query + "#"@ + fragment;
    let body = authority + "?"@ + query + "#"@ + fragment;
    assert(uri.take(5) =~= "ss://"@);
    assert(uri.skip(5) =~= body);
    let front = authority + "?"@ + query;
    let i = front.len() as int;
    assert(body[i] == '#');
    assert forall|j: int| 0 <= j < i implies body[j] != '#' by {
        if j < authority.len() {
            assert(body[j] == authority[j]);
        } else if j > authority.len() {
            assert(body[j] == query[j - authority.len() - 1]);
        }
    }
    crate::text::lemma_first_unique(body, '#', i);
    assert(body.take(i) =~= front);
    assert(body.skip(i + 1) =~= fragment);
    let k = authority.len() as int;
    assert(front[k] == '?');
    assert forall|j: int| 0 <= j < k implies front[j] != '?' by {
        assert(front[j] == authority[j]);
    }
    crate::text::lemma_first_unique(front, '?', k);
    assert(front.take(k) =~= authority);
    assert(front.skip(k + 1) =~= query);
    let bare = "ss://"@ + authority;
    assert(bare.take(5) =~= "ss://"@);
    assert(bare.skip(5) =~= authority);
}

proof fn lemma_vmess_words()
    ensures
        mark("add"@) == (3int, 'a', 'd', 'd', 'd', 'd'),
        mark("port"@) == (4int, 'p', 'o', 'r', 't', 't'),
        mark("id"@) == (2int, 'i', 'i', 'd', 'd', 'd'),
        mark("aid"@) == (3int, 'a', 'i', 'i', 'd', 'd'),
        mark("scy"@) == (3int, 's', 'c', 'c', 'y', 'y'),
        mark("net"@) == (3int, 'n', 'e', 'e', 't', 't'),
        mark("type"@) == (4int, 't', 'y', 'p', 'e', 'e'),
        mark("host"@) == (4int, 'h', 'o', 's', 't', 't'),
        mark("path"@) == (4int, 'p', 'a', 't', 'h', 'h'),
        mark("tls"@) == (3int, 't', 'l', 'l', 's', 's'),
        mark("sni"@) == (3int, 's', 'n', 'n', 'i', 'i'),
        mark("alpn"@) == (4int, 'a', 'l', 'p', 'n', 'n'),
        mark("fp"@) == (2int, 'f', 'f', 'p', 'p', 'p'),
        mark("ps"@) == (2int, 'p', 'p', 's', 's', 's'),
        mark("alterId"@) == (7int, 'a', 't', 'e', 'I', 'd'),
        mark("security"@) == (8int, 's', 'c', 'r', 't', 'y'),
{
    reveal_strlit("add");
    reveal_strlit("port");
    reveal_strlit("id");
    reveal_strlit("aid");
    reveal_strlit("scy");
    reveal_strlit("net");
    reveal_strlit("type");
    reveal_strlit("host");
    reveal_strlit("path");
    reveal_strlit("tls");
    reveal_strlit("sni");
    reveal_strlit("alpn");
    reveal_strlit("fp");
    reveal_strlit("ps");
    reveal_strlit("alterId");
    reveal_strlit("security");
}

/// The text of a member of a link, empty where there is none.
pub open spec fn said(m: Map<Seq<char>, JsonView>, key: Seq<char>) -> Seq<char> {
    if m.contains_key(key) {
        match m[key] {
            JsonView::Text(s) => s,
            _ => Seq::empty(),
        }
    } else {
        Seq::empty()
    }
}

pub open spec fn if_said(s: Seq<char>) -> Option<Seq<char>> {
    if s.len() == 0 {
        None
    } else {
        Some(s)
    }
}

/// A VMess link that is an object: each field of its node is what the link says
/// under the name of that field.
pub proof fn law_vmess_link(
    encoded: Seq<char>,
    bytes: Seq<u8>,
    m: Map<Seq<char>, JsonView>,
    subscription: Seq<char>,
    n: NodeView,
)
    requires
        vmess::flexible_base64(encoded) == Some(bytes),
        link_object::link_value(bytes) == Ok::<JsonView, Seq<char>>(JsonView::Object(m)),
        uri_node("vmess://"@ + encoded, subscription) == Ok::<NodeView, ManagerErrorView>(n),
    ensures
        n.protocol == Protocol::Vmess,
        m.contains_key("add"@) && m["add"@] == JsonView::Text(n.server),
        trimmed(n.server).len() > 0,
        m.contains_key("id"@) && m["id"@] == JsonView::Text(n.credentials.user->0),
        n.credentials.user is Some && is_uuid(n.credentials.user->0),
        n.credentials.password is None,
        m.contains_key("port"@) && (match m["port"@] {
            JsonView::Number(s) => crate::text::parsed_unsigned(s, 65535) == Some(n.port as nat),
            JsonView::Text(s) => crate::text::parsed_unsigned(s, 65535) == Some(n.port as nat),
            _ => false,
        }),
        n.transport.kind == (if said(m, "net"@).len() == 0 {
            "tcp"@
        } else {
            said(m, "net"@)
        }),
        n.transport.path == if_said(said(m, "path"@)),
        n.transport.host == if_said(said(m, "host"@)),
        n.transport.header_type == if_said(said(m, "type"@)),
        n.transport.service_name is None && n.transport.authority is None
            && n.transport.mode is None && n.transport.seed is None,
        n.security.kind == (if said(m, "tls"@).len() == 0 {
            "none"@
        } else {
            said(m, "tls"@)
        }),
        n.security.server_name == if_said(said(m, "sni"@)),
        n.security.fingerprint == if_said(said(m, "fp"@)),
        n.security.alpn == csv_items(Some(said(m, "alpn"@))),
        n.security.public_key is None && n.security.short_id is None && n.security.spider_x is None
            && !n.security.allow_insecure,
        said(m, "ps"@).len() > 0 ==> n.name == percent_decoded(said(m, "ps"@)),
        said(m, "ps"@).len() == 0 ==> n.name == n.server + ":"@ + decimal(n.port as nat),
        n.extra.contains_key("security"@) && n.extra["security"@] == said(m, "scy"@),
        n.extra.contains_key("alterId"@) && n.extra["alterId"@] == (if !m.contains_key("aid"@) {
            "null"@
        } else {
            match m["aid"@] {
                JsonView::Text(s) => s,
                other => crate::json::compact_json(other),
            }
        }),
        n.warnings.len() == 0,
{
    let uri = "vmess://"@ + encoded;
    let j = JsonView::Object(m);
    lemma_vmess_read(encoded, bytes, subscription);
    let aid = vmess::scalar_text(vmess::link_field(j, "aid"@, 3));
    let l = vmess::vmess_link(j, aid)->Ok_0;
    lemma_vmess_fields(m, aid, l);
    reveal_strlit("alterId");
    reveal_strlit("security");
    assert("alterId"@.len() == 7);
    assert("security"@.len() == 8);
}

/// A VMess link is what its Base64 text decodes to.
proof fn lemma_vmess_read(encoded: Seq<char>, bytes: Seq<u8>, subscription: Seq<char>)
    requires
        vmess::flexible_base64(encoded) == Some(bytes),
    ensures
        uri_node("vmess://"@ + encoded, subscription) == vmess::vmess_bytes_node(
            bytes,
            "vmess://"@ + encoded,
            subscription,
        ),
{
    lemma_vmess_scheme(encoded);
    let uri = "vmess://"@ + encoded;
    law_scheme_decides(uri, subscription);
    reveal_strlit("vmess://");
    assert(uri.take(8) =~= "vmess://"@);
    assert(uri.skip(8) =~= encoded);
}

proof fn lemma_vmess_fields(m: Map<Seq<char>, JsonView>, aid: Seq<char>, l: vmess::VmessLinkView)
    requires
        vmess::vmess_link(JsonView::Object(m), aid) == Ok::<vmess::VmessLinkView, Seq<char>>(l),
    ensures
        m.contains_key("port"@) && m["port"@] == l.port,
        l.aid == aid,
        m.contains_key("add"@) && m["add"@] == JsonView::Text(l.add),
        m.contains_key("id"@) && m["id"@] == JsonView::Text(l.id),
        l.scy == said(m, "scy"@),
        l.net == said(m, "net"@),
        l.header_type == said(m, "type"@),
        l.host == said(m, "host"@),
        l.path == said(m, "path"@),
        l.tls == said(m, "tls"@),
        l.sni == said(m, "sni"@),
        l.alpn == said(m, "alpn"@),
        l.fp == said(m, "fp"@),
        l.ps == said(m, "ps"@),
{
    reveal_strlit("");
    assert(""@ =~= Seq::<char>::empty());
    let j = JsonView::Object(m);
    let f = vmess::link_fields(j);
    lemma_no_error(f);
    assert(f[0] == vmess::text_field(j, "add"@, 0, None));
    assert(f[0] is Ok);
    assert(f[1] == vmess::text_field(j, "id"@, 2, None));
    assert(f[1] is Ok);
    assert(f[2] == vmess::text_field(j, "scy"@, 4, Some(""@)));
    assert(f[2] is Ok);
    assert(f[3] == vmess::text_field(j, "net"@, 5, Some(""@)));
    assert(f[3] is Ok);
    assert(f[4] == vmess::text_field(j, "type"@, 6, Some(""@)));
    assert(f[4] is Ok);
    assert(f[5] == vmess::text_field(j, "host"@, 7, Some(""@)));
    assert(f[5] is Ok);
    assert(f[6] == vmess::text_field(j, "path"@, 8, Some(""@)));
    assert(f[6] is Ok);
    assert(f[7] == vmess::text_field(j, "tls"@, 9, Some(""@)));
    assert(f[7] is Ok);
    assert(f[8] == vmess::text_field(j, "sni"@, 10, Some(""@)));
    assert(f[8] is Ok);
    assert(f[9] == vmess::text_field(j, "alpn"@, 11, Some(""@)));
    assert(f[9] is Ok);
    assert(f[10] == vmess::text_field(j, "fp"@, 12, Some(""@)));
    assert(f[10] is Ok);
    assert(f[11] == vmess::text_field(j, "ps"@, 13, Some(""@)));
    assert(f[11] is Ok);
}

/// Where there is no first error there is none.
proof fn lemma_no_error(fields: Seq<Result<Seq<char>, Seq<char>>>)
    ensures
        vmess::first_error(fields) is None ==> forall|i: int|
            0 <= i < fields.len() ==> (#[trigger] fields[i]) is Ok,
    decreases fields.len(),
{
    if fields.len() > 0 {
        lemma_no_error(fields.drop_first());
        if vmess::first_error(fields) is None {
            assert forall|i: int| 0 <= i < fields.len() implies (#[trigger] fields[i]) is Ok by {
                if i > 0 {
                    assert(fields.drop_first()[i - 1] == fields[i]);
                }
            }
        }
    }
}

proof fn lemma_vmess_scheme(encoded: Seq<char>)
    ensures
        scheme("vmess://"@ + encoded) == Some("vmess"@),
{
    reveal_strlit("vmess://");
    reveal_strlit("vmess");
    let uri = "vmess://"@ + encoded;
    assert(uri[5] == ':');
    assert forall|j: int| 0 <= j < 5 implies uri[j] != ':' by {
        assert(uri[j] == "vmess://"@[j]);
    }
    crate::text::lemma_first_unique(uri, ':', 5);
    assert(ascii_lower(uri.take(5)) =~= "vmess"@);
}

/// A VMess link that is an object with a server, a UUID and a port, and whose
/// other fields are texts, is a node.
pub proof fn law_vmess_link_is_read(
    encoded: Seq<char>,
    bytes: Seq<u8>,
    m: Map<Seq<char>, JsonView>,
    subscription: Seq<char>,
)
    requires
        vmess::flexible_base64(encoded) == Some(bytes),
        link_object::link_value(bytes) == Ok::<JsonView, Seq<char>>(JsonView::Object(m)),
        m.contains_key("add"@) && (m["add"@] matches JsonView::Text(s) && trimmed(s).len() > 0),
        m.contains_key("id"@) && (m["id"@] matches JsonView::Text(s) && is_uuid(s)),
        m.contains_key("port"@) && (match m["port"@] {
            JsonView::Number(s) => crate::text::parsed_unsigned(s, 65535) is Some,
            JsonView::Text(s) => crate::text::parsed_unsigned(s, 65535) is Some,
            _ => false,
        }),
        forall|k: Seq<char>|
            #![trigger m[k]]
            m.contains_key(k) && k != "port"@ && k != "aid"@ ==> m[k] is Text,
    ensures
        uri_node("vmess://"@ + encoded, subscription) is Ok,
{
    lemma_vmess_words();
    lemma_vmess_read(encoded, bytes, subscription);
    let j = JsonView::Object(m);
    let f = vmess::link_fields(j);
    let aid = vmess::scalar_text(vmess::link_field(j, "aid"@, 3));
    assert(f.len() == 12);
    assert(f[0] == vmess::text_field(j, "add"@, 0, None));
    assert(m.contains_key("add"@) ==> m["add"@] is Text);
    assert(f[1] == vmess::text_field(j, "id"@, 2, None));
    assert(m.contains_key("id"@) ==> m["id"@] is Text);
    assert(f[2] == vmess::text_field(j, "scy"@, 4, Some(""@)));
    assert(m.contains_key("scy"@) ==> m["scy"@] is Text);
    assert(f[3] == vmess::text_field(j, "net"@, 5, Some(""@)));
    assert(m.contains_key("net"@) ==> m["net"@] is Text);
    assert(f[4] == vmess::text_field(j, "type"@, 6, Some(""@)));
    assert(m.contains_key("type"@) ==> m["type"@] is Text);
    assert(f[5] == vmess::text_field(j, "host"@, 7, Some(""@)));
    assert(m.contains_key("host"@) ==> m["host"@] is Text);
    assert(f[6] == vmess::text_field(j, "path"@, 8, Some(""@)));
    assert(m.contains_key("path"@) ==> m["path"@] is Text);
    assert(f[7] == vmess::text_field(j, "tls"@, 9, Some(""@)));
    assert(m.contains_key("tls"@) ==> m["tls"@] is Text);
    assert(f[8] == vmess::text_field(j, "sni"@, 10, Some(""@)));
    assert(m.contains_key("sni"@) ==> m["sni"@] is Text);
    assert(f[9] == vmess::text_field(j, "alpn"@, 11, Some(""@)));
    assert(m.contains_key("alpn"@) ==> m["alpn"@] is Text);
    assert(f[10] == vmess::text_field(j, "fp"@, 12, Some(""@)));
    assert(m.contains_key("fp"@) ==> m["fp"@] is Text);
    assert(f[11] == vmess::text_field(j, "ps"@, 13, Some(""@)));
    assert(m.contains_key("ps"@) ==> m["ps"@] is Text);
    lemma_all_ok(f);
    let l = vmess::vmess_link(j, aid)->Ok_0;
    lemma_vmess_fields(m, aid, l);
}

proof fn lemma_all_ok(fields: Seq<Result<Seq<char>, Seq<char>>>)
    requires
        forall|i: int| 0 <= i < fields.len() ==> (#[trigger] fields[i]) is Ok,
    ensures
        vmess::first_error(fields) is None,
    decreases fields.len(),
{
    if fields.len() > 0 {
        let rest = fields.drop_first();
        assert(fields[0] is Ok);
        assert forall|i: int| 0 <= i < rest.len() implies (#[trigger] rest[i]) is Ok by {
            assert(rest[i] == fields[i + 1]);
        }
        lemma_all_ok(rest);
    }
}

} // verus!
