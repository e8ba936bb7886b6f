//! VMess share links.

use crate::domain::{
    Node, NodeId, NodeView, Protocol, SecretCredentials, SecretCredentialsView, Security,
    SecurityView, Transport, TransportView,
};
use crate::error::{ManagerError, ManagerErrorView};
use crate::json::{Json, JsonView, Shape};
use crate::text_map::TextMap;
use crate::json;
use crate::outside;
use crate::protocols;
use crate::protocols::link_object;
use crate::text;
use crate::domain;
use vstd::prelude::*;

verus! {

/// What the first of the four Base64 alphabets that accepts a trimmed text
/// decodes it to.
pub open spec fn flexible_base64(s: Seq<char>) -> Option<Seq<u8>> {
    let t = text::trimmed(s);
    if outside::base64_standard(t) is Some {
        outside::base64_standard(t)
    } else if outside::base64_standard_no_pad(t) is Some {
        outside::base64_standard_no_pad(t)
    } else if outside::base64_url_safe(t) is Some {
        outside::base64_url_safe(t)
    } else {
        outside::base64_url_safe_no_pad(t)
    }
}

/// Decodes Base64 of the standard or the URL-safe alphabet, with or without padding.
pub fn decode_flexible_base64(input: &str) -> (r: Result<Vec<u8>, ManagerError>)
    ensures
        match r {
            Ok(bytes) => flexible_base64(input@) == Some(bytes@),
            Err(e) => flexible_base64(input@) is None && e@ == ManagerErrorView::InvalidNode(
                "invalid Base64"@,
            ),
        },
{
    let trimmed = text::trim(input);
    let t = trimmed.as_str();
    match outside::decode_standard(t) {
        Some(bytes) => return Ok(bytes),
        None => {},
    }
    match outside::decode_standard_no_pad(t) {
        Some(bytes) => return Ok(bytes),
        None => {},
    }
    match outside::decode_url_safe(t) {
        Some(bytes) => return Ok(bytes),
        None => {},
    }
    match outside::decode_url_safe_no_pad(t) {
        Some(bytes) => Ok(bytes),
        None => Err(ManagerError::InvalidNode(text::owned("invalid Base64"))),
    }
}

/// The field of a link, which may be a JSON object or an array in field order.
pub open spec fn link_field(j: JsonView, key: Seq<char>, position: int) -> Option<JsonView> {
    match j {
        JsonView::Object(m) => if m.contains_key(key) {
            Some(m[key])
        } else {
            None
        },
        JsonView::Array(v) => if position < v.len() {
            Some(v[position])
        } else {
            None
        },
        _ => None,
    }
}

fn find_field<'a>(j: &'a Json, key: &str, position: usize) -> (r: Option<&'a Json>)
    ensures
        match r {
            Some(x) => link_field(j@, key@, position as int) == Some(x@),
            None => link_field(j@, key@, position as int) is None,
        },
{
    match j {
        Json::Object(o) => o.get(key),
        Json::Array(_) => j.item(position),
        _ => None,
    }
}

/// A text field: its text, the default where it is missing, an error where it
/// is no text or is missing without a default.
pub open spec fn text_field(
    j: JsonView,
    key: Seq<char>,
    position: int,
    default: Option<Seq<char>>,
) -> Result<Seq<char>, Seq<char>> {
    match link_field(j, key, position) {
        Some(JsonView::Text(s)) => Ok(s),
        Some(_) => Err("field `"@ + key + "` is not a string"@),
        None => match default {
            Some(d) => Ok(d),
            None => Err("missing field `"@ + key + "`"@),
        },
    }
}

fn read_text_field(j: &Json, key: &str, position: usize, required: bool) -> (r: Result<
    String,
    String,
>)
    ensures
        match r {
            Ok(s) => text_field(
                j@,
                key@,
                position as int,
                if required {
                    None
                } else {
                    Some(""@)
                },
            ) == Ok::<Seq<char>, Seq<char>>(s@),
            Err(e) => text_field(
                j@,
                key@,
                position as int,
                if required {
                    None
                } else {
                    Some(""@)
                },
            ) == Err::<Seq<char>, Seq<char>>(e@),
        },
{
    match find_field(j, key, position) {
        Some(Json::Text(s)) => Ok(s.clone()),
        Some(_) => Err(text::concat3("field `", key, "` is not a string")),
        None => if required {
            Err(text::concat3("missing field `", key, "`"))
        } else {
            Ok(text::owned(""))
        },
    }
}

/// The fields of a VMess link. A missing field with a default is empty.
pub struct VmessLink {
    pub add: String,
    pub port: Json,
    pub id: String,
    pub aid: String,
    pub scy: String,
    pub net: String,
    pub header_type: String,
    pub host: String,
    pub path: String,
    pub tls: String,
    pub sni: String,
    pub alpn: String,
    pub fp: String,
    pub ps: String,
}

/// The mathematical value of a [`VmessLink`].
#[verifier::ext_equal]
pub struct VmessLinkView {
    pub add: Seq<char>,
    pub port: JsonView,
    pub id: Seq<char>,
    pub aid: Seq<char>,
    pub scy: Seq<char>,
    pub net: Seq<char>,
    pub header_type: Seq<char>,
    pub host: Seq<char>,
    pub path: Seq<char>,
    pub tls: Seq<char>,
    pub sni: Seq<char>,
    pub alpn: Seq<char>,
    pub fp: Seq<char>,
    pub ps: Seq<char>,
}

impl View for VmessLink {
    type V = VmessLinkView;

    open spec fn view(&self) -> VmessLinkView {
        VmessLinkView {
            add: self.add@,
            port: self.port@,
            id: self.id@,
            aid: self.aid@,
            scy: self.scy@,
            net: self.net@,
            header_type: self.header_type@,
            host: self.host@,
            path: self.path@,
            tls: self.tls@,
            sni: self.sni@,
            alpn: self.alpn@,
            fp: self.fp@,
            ps: self.ps@,
        }
    }
}

/// The text of a scalar field: a string as it is, another value as JSON text.
pub open spec fn scalar_text(o: Option<JsonView>) -> Seq<char> {
    match o {
        Some(JsonView::Text(s)) => s,
        Some(x) => json::compact_json(x),
        None => "null"@,
    }
}

pub open spec fn is_link_shape(j: JsonView) -> bool {
    match j {
        JsonView::Object(_) => true,
        JsonView::Array(v) => v.len() <= 14,
        _ => false,
    }
}

/// The text fields of a link, in the order in which they are looked at.
pub open spec fn link_fields(j: JsonView) -> Seq<Result<Seq<char>, Seq<char>>> {
    seq![
        text_field(j, "add"@, 0, None),
        text_field(j, "id"@, 2, None),
        text_field(j, "scy"@, 4, Some(""@)),
        text_field(j, "net"@, 5, Some(""@)),
        text_field(j, "type"@, 6, Some(""@)),
        text_field(j, "host"@, 7, Some(""@)),
        text_field(j, "path"@, 8, Some(""@)),
        text_field(j, "tls"@, 9, Some(""@)),
        text_field(j, "sni"@, 10, Some(""@)),
        text_field(j, "alpn"@, 11, Some(""@)),
        text_field(j, "fp"@, 12, Some(""@)),
        text_field(j, "ps"@, 13, Some(""@)),
    ]
}

/// The first error among the fields.
pub open spec fn first_error(fields: Seq<Result<Seq<char>, Seq<char>>>) -> Option<Seq<char>>
    decreases fields.len(),
{
    if fields.len() == 0 {
        None
    } else {
        match fields[0] {
            Err(e) => Some(e),
            Ok(_) => first_error(fields.drop_first()),
        }
    }
}

/// The link that a JSON value gives, with the text of its `aid` field.
pub open spec fn vmess_link(j: JsonView, aid: Seq<char>) -> Result<VmessLinkView, Seq<char>> {
    let f = link_fields(j);
    if !is_link_shape(j) {
        Err("a VMess link must be an object"@)
    } else {
        match link_field(j, "port"@, 1) {
            None => Err("missing field `port`"@),
            Some(port) => match first_error(f) {
                Some(e) => Err(e),
                None => Ok(
                    VmessLinkView {
                        add: f[0]->Ok_0,
                        port,
                        id: f[1]->Ok_0,
                        aid,
                        scy: f[2]->Ok_0,
                        net: f[3]->Ok_0,
                        header_type: f[4]->Ok_0,
                        host: f[5]->Ok_0,
                        path: f[6]->Ok_0,
                        tls: f[7]->Ok_0,
                        sni: f[8]->Ok_0,
                        alpn: f[9]->Ok_0,
                        fp: f[10]->Ok_0,
                        ps: f[11]->Ok_0,
                    },
                ),
            },
        }
    }
}

/// Reads the fields of a link; `aid` is the text of that field.
pub fn link_of(j: &Json, aid: String) -> (r: Result<VmessLink, String>)
    ensures
        match r {
            Ok(link) => vmess_link(j@, aid@) == Ok::<VmessLinkView, Seq<char>>(link@),
            Err(e) => vmess_link(j@, aid@) == Err::<VmessLinkView, Seq<char>>(e@),
        },
{
    let shaped = match j {
        Json::Object(_) => true,
        Json::Array(v) => {
            proof {
                json::lemma_array_view(v@);
            }
            v.len() <= 14
        },
        _ => false,
    };
    if !shaped {
        return Err(text::owned("a VMess link must be an object"));
    }
    let port = match find_field(j, "port", 1) {
        Some(port) => port.copy(),
        None => return Err(text::owned("missing field `port`")),
    };
    proof {
        reveal_with_fuel(first_error, 13);
    }
    let add = match read_text_field(j, "add", 0, true) {
        Ok(s) => s,
        Err(e) => return Err(e),
    };
    let id = match read_text_field(j, "id", 2, true) {
        Ok(s) => s,
        Err(e) => return Err(e),
    };
    let scy = match read_text_field(j, "scy", 4, false) {
        Ok(s) => s,
        Err(e) => return Err(e),
    };
    let net = match read_text_field(j, "net", 5, false) {
        Ok(s) => s,
        Err(e) => return Err(e),
    };
    let header_type = match read_text_field(j, "type", 6, false) {
        Ok(s) => s,
        Err(e) => return Err(e),
    };
    let host = match read_text_field(j, "host", 7, false) {
        Ok(s) => s,
        Err(e) => return Err(e),
    };
    let path = match read_text_field(j, "path", 8, false) {
        Ok(s) => s,
        Err(e) => return Err(e),
    };
    let tls = match read_text_field(j, "tls", 9, false) {
        Ok(s) => s,
        Err(e) => return Err(e),
    };
    let sni = match read_text_field(j, "sni", 10, false) {
        Ok(s) => s,
        Err(e) => return Err(e),
    };
    let alpn = match read_text_field(j, "alpn", 11, false) {
        Ok(s) => s,
        Err(e) => return Err(e),
    };
    let fp = match read_text_field(j, "fp", 12, false) {
        Ok(s) => s,
        Err(e) => return Err(e),
    };
    let ps = match read_text_field(j, "ps", 13, false) {
        Ok(s) => s,
        Err(e) => return Err(e),
    };
    Ok(
        VmessLink {
            add,
            port,
            id,
            aid,
            scy,
            net,
            header_type,
            host,
            path,
            tls,
            sni,
            alpn,
            fp,
            ps,
        },
    )
}

/// The port of a link: a number, or a text that writes one.
pub open spec fn link_port(port: JsonView) -> Option<nat> {
    match port {
        JsonView::Text(s) => text::parsed_unsigned(s, 65535),
        JsonView::Number(s) => text::parsed_unsigned(s, 65535),
        _ => None,
    }
}

/// Reads the port of a link.
pub fn port_of(port: &Json) -> (r: Option<u16>)
    ensures
        match r {
            Some(p) => link_port(port@) == Some(p as nat),
            None => link_port(port@) is None,
        },
{
    let digits = match port {
        Json::Text(s) => s,
        Json::Number(s) => s,
        _ => return None,
    };
    match text::parse_unsigned(digits.as_str(), 65535) {
        Some(n) => Some(n as u16),
        None => None,
    }
}

pub open spec fn nonempty_text(s: Seq<char>) -> Option<Seq<char>> {
    if s.len() == 0 {
        None
    } else {
        Some(s)
    }
}

fn some_nonempty(s: String) -> (r: Option<String>)
    ensures
        text::opt_text(r) == nonempty_text(s@),
{
    if s.as_str().is_empty() {
        None
    } else {
        Some(s)
    }
}

pub open spec fn or_default(s: Seq<char>, default: Seq<char>) -> Seq<char> {
    if s.len() == 0 {
        default
    } else {
        s
    }
}

fn nonempty_or(s: String, default: &str) -> (r: String)
    ensures
        r@ == or_default(s@, default@),
{
    if s.as_str().is_empty() {
        text::owned(default)
    } else {
        s
    }
}

/// The node of a link.
pub open spec fn vmess_node(
    link: VmessLinkView,
    uri: Seq<char>,
    subscription: Seq<char>,
) -> Result<NodeView, ManagerErrorView> {
    if !outside::is_uuid(link.id) {
        protocols::bad_node("VMess id must be a valid UUID"@)
    } else {
        match link_port(link.port) {
            None => protocols::bad_node("invalid VMess port"@),
            Some(port) => if text::trimmed(link.add).len() == 0 {
                protocols::bad_node("missing VMess server"@)
            } else {
                Ok(
                    protocols::fingerprinted(
                        NodeView {
                            id: Seq::empty(),
                            subscription,
                            name: if link.ps.len() == 0 {
                                link.add + ":"@ + text::decimal(port)
                            } else {
                                outside::percent_decoded(link.ps)
                            },
                            protocol: Protocol::Vmess,
                            server: link.add,
                            port: port as u16,
                            credentials: SecretCredentialsView {
                                user: Some(link.id),
                                password: None,
                            },
                            transport: TransportView {
                                path: nonempty_text(link.path),
                                host: nonempty_text(link.host),
                                header_type: nonempty_text(link.header_type),
                                ..domain::plain_transport(or_default(link.net, "tcp"@))
                            },
                            security: SecurityView {
                                server_name: nonempty_text(link.sni),
                                fingerprint: nonempty_text(link.fp),
                                alpn: protocols::csv_items(Some(link.alpn)),
                                ..domain::plain_security(or_default(link.tls, "none"@))
                            },
                            raw_uri: uri,
                            warnings: Seq::empty(),
                            extra: Map::empty().insert("alterId"@, link.aid).insert(
                                "security"@,
                                link.scy,
                            ),
                        },
                    ),
                )
            },
        }
    }
}

/// The node of a link whose fields have been read.
pub fn node_of_link(link: VmessLink, uri: &str, subscription: &str) -> (r: Result<
    Node,
    ManagerError,
>)
    ensures
        protocols::node_result(r, vmess_node(link@, uri@, subscription@)),
{
    if !outside::uuid_accepts(link.id.as_str()) {
        return Err(ManagerError::InvalidNode(text::owned("VMess id must be a valid UUID")));
    }
    let port = match port_of(&link.port) {
        Some(port) => port,
        None => return Err(ManagerError::InvalidNode(text::owned("invalid VMess port"))),
    };
    if text::is_blank(link.add.as_str()) {
        return Err(ManagerError::InvalidNode(text::owned("missing VMess server")));
    }
    let mut transport = Transport::plain(nonempty_or(link.net, "tcp").as_str());
    transport.path = some_nonempty(link.path);
    transport.host = some_nonempty(link.host);
    transport.header_type = some_nonempty(link.header_type);
    let mut security = Security::plain(nonempty_or(link.tls, "none").as_str());
    security.server_name = some_nonempty(link.sni);
    security.fingerprint = some_nonempty(link.fp);
    security.alpn = protocols::split_csv(&Some(link.alpn));
    let mut extra = TextMap::new();
    extra.insert(text::owned("alterId"), link.aid);
    extra.insert(text::owned("security"), link.scy);
    let name = if link.ps.as_str().is_empty() {
        text::concat3(link.add.as_str(), ":", text::decimal_of(port as u64).as_str())
    } else {
        outside::percent_decode(link.ps.as_str())
    };
    let warnings: Vec<String> = Vec::new();
    proof {
        text::lemma_texts_empty(warnings@);
    }
    let mut node = Node {
        id: NodeId::new("pending"),
        subscription: text::owned(subscription),
        name,
        protocol: Protocol::Vmess,
        server: link.add,
        port,
        credentials: SecretCredentials { user: Some(outside::secret_from(link.id)), password: None },
        transport,
        security,
        raw_uri: outside::secret_from(text::owned(uri)),
        warnings,
        extra,
    };
    node.refresh_id();
    Ok(node)
}

/// The JSON text of the field at `key`, where there is one.
fn field_text(shape: &Shape, key: &str, position: usize) -> (r: Option<String>)
    requires
        shape matches Shape::Object(pairs) ==> json::distinct_keys(pairs@),
    ensures
        match r {
            Some(s) => link_field(json::shape_content(*shape), key@, position as int) matches Some(x)
                && s@ == json::compact_json(x),
            None => link_field(json::shape_content(*shape), key@, position as int) is None,
        },
{
    match shape {
        Shape::Object(pairs) => {
            let mut i: usize = 0;
            while i < pairs.len()
                invariant
                    i <= pairs@.len(),
                    json::shape_content(*shape) == JsonView::Object(json::member_contents(pairs@)),
                    json::distinct_keys(pairs@),
                    forall|k: int| 0 <= k < i ==> (#[trigger] pairs@[k]).0@ != key@,
                decreases pairs@.len() - i,
            {
                if text::same(pairs[i].0.as_str(), key) {
                    proof {
                        json::lemma_member(pairs@, i as int);
                    }
                    return Some(json::value_to_text(&pairs[i].1));
                }
                i += 1;
            }
            proof {
                json::lemma_no_member(pairs@, key@);
            }
            None
        },
        Shape::Array(items) => if position < items.len() {
            Some(json::value_to_text(&items[position]))
        } else {
            None
        },
        _ => None,
    }
}

/// The text of the `aid` field of a link, given its JSON text.
fn aid_text(j: &Json, shown: Option<String>) -> (r: String)
    requires
        match shown {
            Some(s) => link_field(j@, "aid"@, 3) matches Some(x) && s@ == json::compact_json(x),
            None => link_field(j@, "aid"@, 3) is None,
        },
    ensures
        r@ == scalar_text(link_field(j@, "aid"@, 3)),
{
    match (find_field(j, "aid", 3), shown) {
        (Some(Json::Text(s)), _) => s.clone(),
        (Some(_), Some(s)) => s,
        _ => text::owned("null"),
    }
}

/// The node that the decoded bytes of a link give.
pub open spec fn vmess_bytes_node(
    bytes: Seq<u8>,
    uri: Seq<char>,
    subscription: Seq<char>,
) -> Result<NodeView, ManagerErrorView> {
    match link_object::link_value(bytes) {
        Err(e) => protocols::bad_node("invalid VMess JSON: "@ + e),
        Ok(j) => match vmess_link(j, scalar_text(link_field(j, "aid"@, 3))) {
            Err(e) => protocols::bad_node("invalid VMess JSON: "@ + e),
            Ok(link) => vmess_node(link, uri, subscription),
        },
    }
}

/// The node that a VMess link gives.
pub open spec fn vmess_uri_node(uri: Seq<char>, subscription: Seq<char>) -> Result<
    NodeView,
    ManagerErrorView,
> {
    match text::after_prefix(uri, "vmess://"@) {
        None => protocols::bad_node("invalid VMess scheme"@),
        Some(encoded) => match flexible_base64(encoded) {
            None => protocols::bad_node("invalid Base64"@),
            Some(bytes) => vmess_bytes_node(bytes, uri, subscription),
        },
    }
}

/// The value of a link, and the JSON text of its `aid` field.
fn read_link(bytes: &[u8]) -> (r: Result<(Json, Option<String>), String>)
    ensures
        match r {
            Ok((j, shown)) => link_object::link_value(bytes@) == Ok::<JsonView, Seq<char>>(j@)
                && match shown {
                Some(s) => link_field(j@, "aid"@, 3) matches Some(x) && s@ == json::compact_json(x),
                None => link_field(j@, "aid"@, 3) is None,
            },
            Err(e) => link_object::link_value(bytes@) == Err::<JsonView, Seq<char>>(e@),
        },
{
    match link_object::read_object(bytes) {
        Some(Ok((known, shown))) => Ok((Json::Object(known), shown)),
        Some(Err(e)) => Err(e),
        None => match json::value_from_slice(bytes) {
            Ok(value) => {
                let shape = json::open_value(value);
                let shown = field_text(&shape, "aid", 3);
                Ok((json::json_of_shape(shape), shown))
            },
            Err(e) => Err(e),
        },
    }
}

/// Parses a VMess link.
pub fn parse_vmess(uri: &str, subscription: &str) -> (r: Result<Node, ManagerError>)
    ensures
        protocols::node_result(r, vmess_uri_node(uri@, subscription@)),
{
    let encoded = match text::strip_prefix(uri, "vmess://") {
        Some(encoded) => encoded,
        None => return Err(ManagerError::InvalidNode(text::owned("invalid VMess scheme"))),
    };
    let bytes = match decode_flexible_base64(encoded.as_str()) {
        Ok(bytes) => bytes,
        Err(e) => return Err(e),
    };
    let (j, shown) = match read_link(bytes.as_slice()) {
        Ok(read) => read,
        Err(e) => return Err(
            ManagerError::InvalidNode(text::concat("invalid VMess JSON: ", e.as_str())),
        ),
    };
    let aid = aid_text(&j, shown);
    match link_of(&j, aid) {
        Ok(link) => node_of_link(link, uri, subscription),
        Err(e) => Err(ManagerError::InvalidNode(text::concat("invalid VMess JSON: ", e.as_str()))),
    }
}

} // verus!
