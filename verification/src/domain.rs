//! Nodes, secrets and the persisted state of the manager.

use crate::outside::Secret;
use crate::text_map::TextMap;
use crate::outside;
use crate::text;
use vstd::prelude::*;
use vstd::string::*;

verus! {

/// Whether an ID begins with the twelve bytes by which it is shown.
pub open spec fn has_short(id: Seq<char>) -> bool {
    text::head(id, 12) is Some
}

/// What is shown of an ID: its first twelve bytes.
pub open spec fn short_of(id: Seq<char>) -> Seq<char> {
    text::head(id, 12)->0
}

/// The fingerprint of a node.
pub struct NodeId {
    text: String,
}

impl View for NodeId {
    type V = Seq<char>;

    closed spec fn view(&self) -> Seq<char> {
        self.text@
    }
}

/// The fingerprint of a normalized identity.
pub open spec fn fingerprint(normalized: Seq<char>) -> Seq<char> {
    outside::blake3_hex(vstd::utf8::encode_utf8(normalized))
}

impl NodeId {
    /// The ID of a normalized identity.
    pub fn new(normalized: &str) -> (r: NodeId)
        ensures
            r@ == fingerprint(normalized@),
            has_short(r@),
    {
        let text = outside::hash_hex(normalized);
        proof {
            let start = text@.take(12);
            assert forall|i: int| 0 <= i < start.len() implies #[trigger] start[i] <= '\u{7f}' by {
                assert(outside::is_hex(text@[i]));
            }
            text::lemma_ascii_length(start);
            text::lemma_head(text@, 12, 12);
        }
        NodeId { text }
    }

    /// The ID that a stored text is.
    pub fn from_stored(stored: String) -> (r: NodeId)
        ensures
            r@ == stored@,
    {
        NodeId { text: stored }
    }

    /// Whether the ID begins with the twelve bytes by which it is shown.
    pub fn has_short(&self) -> (r: bool)
        ensures
            r == has_short(self@),
    {
        text::head_length(self.text.as_str(), 12).is_some()
    }

    /// The first twelve bytes, which is how the ID is shown.
    pub fn short(&self) -> (r: &str)
        requires
            has_short(self@),
        ensures
            r@ == short_of(self@),
    {
        let k: usize = match text::head_length(self.text.as_str(), 12) {
            Some(k) => k,
            None => 0,
        };
        assert(self.text@.subrange(0, k as int) =~= self.text@.take(k as int));
        self.text.as_str().substring_char(0, k)
    }

    /// The whole ID.
    pub fn as_str(&self) -> (r: &str)
        ensures
            r@ == self@,
    {
        self.text.as_str()
    }
}

impl Clone for NodeId {
    fn clone(&self) -> (r: Self)
        ensures
            r@ == self@,
    {
        NodeId { text: self.text.clone() }
    }
}

/// A proxy protocol.
#[derive(Debug, Clone, Copy, PartialEq, Eq, Structural)]
pub enum Protocol {
    Vless,
    Vmess,
    Trojan,
    Shadowsocks,
    Hysteria2,
}

pub open spec fn protocol_name(p: Protocol) -> Seq<char> {
    match p {
        Protocol::Vless => "Vless"@,
        Protocol::Vmess => "Vmess"@,
        Protocol::Trojan => "Trojan"@,
        Protocol::Shadowsocks => "Shadowsocks"@,
        Protocol::Hysteria2 => "Hysteria2"@,
    }
}

impl Protocol {
    /// The name to show.
    pub fn name(&self) -> (r: &'static str)
        ensures
            r@ == protocol_name(*self),
    {
        match self {
            Protocol::Vless => "Vless",
            Protocol::Vmess => "Vmess",
            Protocol::Trojan => "Trojan",
            Protocol::Shadowsocks => "Shadowsocks",
            Protocol::Hysteria2 => "Hysteria2",
        }
    }
}

pub open spec fn opt_secret(o: Option<Secret>) -> Option<Seq<char>> {
    match o {
        Some(s) => Some(s@),
        None => None,
    }
}

/// The text of a secret.
pub fn secret_str(s: &Secret) -> (r: &str)
    ensures
        r@ == s@,
{
    outside::expose_secret(s)
}

/// A secret of a text.
pub fn seal_text(s: String) -> (r: Secret)
    ensures
        r@ == s@,
{
    outside::secret_from(s)
}

/// A copy of a secret.
pub fn copy_secret(s: &Secret) -> (r: Secret)
    ensures
        r@ == s@,
{
    outside::secret_from(text::owned(outside::expose_secret(s)))
}

/// A copy of an optional secret.
pub fn copy_opt_secret(o: &Option<Secret>) -> (r: Option<Secret>)
    ensures
        opt_secret(r) == opt_secret(*o),
{
    match o {
        Some(s) => Some(copy_secret(s)),
        None => None,
    }
}

/// A secret of an optional text.
pub fn seal(o: Option<String>) -> (r: Option<Secret>)
    ensures
        opt_secret(r) == text::opt_text(o),
{
    match o {
        Some(s) => Some(outside::secret_from(s)),
        None => None,
    }
}

/// What a node authenticates with.
pub struct SecretCredentials {
    pub user: Option<Secret>,
    pub password: Option<Secret>,
}

/// The mathematical value of a [`SecretCredentials`].
#[verifier::ext_equal]
pub struct SecretCredentialsView {
    pub user: Option<Seq<char>>,
    pub password: Option<Seq<char>>,
}

impl View for SecretCredentials {
    type V = SecretCredentialsView;

    open spec fn view(&self) -> SecretCredentialsView {
        SecretCredentialsView {
            user: opt_secret(self.user),
            password: opt_secret(self.password),
        }
    }
}

impl Clone for SecretCredentials {
    fn clone(&self) -> (r: Self)
        ensures
            r@ == self@,
    {
        SecretCredentials {
            user: copy_opt_secret(&self.user),
            password: copy_opt_secret(&self.password),
        }
    }
}

/// How a node is reached.
#[derive(Debug)]
pub struct Transport {
    pub kind: String,
    pub path: Option<String>,
    pub host: Option<String>,
    pub service_name: Option<String>,
    pub authority: Option<String>,
    pub mode: Option<String>,
    pub header_type: Option<String>,
    pub seed: Option<String>,
}

/// The mathematical value of a [`Transport`].
#[verifier::ext_equal]
pub struct TransportView {
    pub kind: Seq<char>,
    pub path: Option<Seq<char>>,
    pub host: Option<Seq<char>>,
    pub service_name: Option<Seq<char>>,
    pub authority: Option<Seq<char>>,
    pub mode: Option<Seq<char>>,
    pub header_type: Option<Seq<char>>,
    pub seed: Option<Seq<char>>,
}

impl View for Transport {
    type V = TransportView;

    open spec fn view(&self) -> TransportView {
        TransportView {
            kind: self.kind@,
            path: text::opt_text(self.path),
            host: text::opt_text(self.host),
            service_name: text::opt_text(self.service_name),
            authority: text::opt_text(self.authority),
            mode: text::opt_text(self.mode),
            header_type: text::opt_text(self.header_type),
            seed: text::opt_text(self.seed),
        }
    }
}

impl Clone for Transport {
    fn clone(&self) -> (r: Self)
        ensures
            r@ == self@,
    {
        Transport {
            kind: self.kind.clone(),
            path: text::copy_opt(&self.path),
            host: text::copy_opt(&self.host),
            service_name: text::copy_opt(&self.service_name),
            authority: text::copy_opt(&self.authority),
            mode: text::copy_opt(&self.mode),
            header_type: text::copy_opt(&self.header_type),
            seed: text::copy_opt(&self.seed),
        }
    }
}

/// How a connection to a node is secured.
#[derive(Debug)]
pub struct Security {
    pub kind: String,
    pub server_name: Option<String>,
    pub fingerprint: Option<String>,
    pub public_key: Option<String>,
    pub short_id: Option<String>,
    pub spider_x: Option<String>,
    pub alpn: Vec<String>,
    pub allow_insecure: bool,
    pub pinned_peer_cert_sha256: Option<String>,
}

/// The mathematical value of a [`Security`].
#[verifier::ext_equal]
pub struct SecurityView {
    pub kind: Seq<char>,
    pub server_name: Option<Seq<char>>,
    pub fingerprint: Option<Seq<char>>,
    pub public_key: Option<Seq<char>>,
    pub short_id: Option<Seq<char>>,
    pub spider_x: Option<Seq<char>>,
    pub alpn: Seq<Seq<char>>,
    pub allow_insecure: bool,
    pub pinned_peer_cert_sha256: Option<Seq<char>>,
}

impl View for Security {
    type V = SecurityView;

    open spec fn view(&self) -> SecurityView {
        SecurityView {
            kind: self.kind@,
            server_name: text::opt_text(self.server_name),
            fingerprint: text::opt_text(self.fingerprint),
            public_key: text::opt_text(self.public_key),
            short_id: text::opt_text(self.short_id),
            spider_x: text::opt_text(self.spider_x),
            alpn: text::texts(self.alpn@),
            allow_insecure: self.allow_insecure,
            pinned_peer_cert_sha256: text::opt_text(self.pinned_peer_cert_sha256),
        }
    }
}

impl Clone for Security {
    fn clone(&self) -> (r: Self)
        ensures
            r@ == self@,
    {
        Security {
            kind: self.kind.clone(),
            server_name: text::copy_opt(&self.server_name),
            fingerprint: text::copy_opt(&self.fingerprint),
            public_key: text::copy_opt(&self.public_key),
            short_id: text::copy_opt(&self.short_id),
            spider_x: text::copy_opt(&self.spider_x),
            alpn: text::copy_texts(&self.alpn),
            allow_insecure: self.allow_insecure,
            pinned_peer_cert_sha256: text::copy_opt(&self.pinned_peer_cert_sha256),
        }
    }
}

/// A transport of which only the kind is set.
pub open spec fn plain_transport(kind: Seq<char>) -> TransportView {
    TransportView {
        kind,
        path: None,
        host: None,
        service_name: None,
        authority: None,
        mode: None,
        header_type: None,
        seed: None,
    }
}

impl Transport {
    /// A transport of which only the kind is set.
    pub fn plain(kind: &str) -> (r: Transport)
        ensures
            r@ == plain_transport(kind@),
    {
        Transport {
            kind: text::owned(kind),
            path: None,
            host: None,
            service_name: None,
            authority: None,
            mode: None,
            header_type: None,
            seed: None,
        }
    }
}

impl Default for Transport {
    fn default() -> (r: Self)
        ensures
            r@ == plain_transport(Seq::empty()),
    {
        let r = Transport::plain("");
        proof {
            reveal_strlit("");
            assert(""@ =~= Seq::<char>::empty());
        }
        r
    }
}

/// A security of which only the kind is set.
pub open spec fn plain_security(kind: Seq<char>) -> SecurityView {
    SecurityView {
        kind,
        server_name: None,
        fingerprint: None,
        public_key: None,
        short_id: None,
        spider_x: None,
        alpn: Seq::empty(),
        allow_insecure: false,
        pinned_peer_cert_sha256: None,
    }
}

impl Security {
    /// A security of which only the kind is set.
    pub fn plain(kind: &str) -> (r: Security)
        ensures
            r@ == plain_security(kind@),
    {
        let alpn: Vec<String> = Vec::new();
        proof {
            text::lemma_texts_empty(alpn@);
        }
        Security {
            kind: text::owned(kind),
            server_name: None,
            fingerprint: None,
            public_key: None,
            short_id: None,
            spider_x: None,
            alpn,
            allow_insecure: false,
            pinned_peer_cert_sha256: None,
        }
    }
}

impl Default for Security {
    fn default() -> (r: Self)
        ensures
            r@ == plain_security(Seq::empty()),
    {
        let r = Security::plain("");
        proof {
            reveal_strlit("");
            assert(""@ =~= Seq::<char>::empty());
        }
        r
    }
}

/// A proxy server of a subscription.
pub struct Node {
    pub id: NodeId,
    pub subscription: String,
    pub name: String,
    pub protocol: Protocol,
    pub server: String,
    pub port: u16,
    pub credentials: SecretCredentials,
    pub transport: Transport,
    pub security: Security,
    pub raw_uri: Secret,
    pub warnings: Vec<String>,
    pub extra: TextMap,
}

/// The mathematical value of a [`Node`].
#[verifier::ext_equal]
pub struct NodeView {
    pub id: Seq<char>,
    pub subscription: Seq<char>,
    pub name: Seq<char>,
    pub protocol: Protocol,
    pub server: Seq<char>,
    pub port: u16,
    pub credentials: SecretCredentialsView,
    pub transport: TransportView,
    pub security: SecurityView,
    pub raw_uri: Seq<char>,
    pub warnings: Seq<Seq<char>>,
    pub extra: Map<Seq<char>, Seq<char>>,
}

impl View for Node {
    type V = NodeView;

    open spec fn view(&self) -> NodeView {
        NodeView {
            id: self.id@,
            subscription: self.subscription@,
            name: self.name@,
            protocol: self.protocol,
            server: self.server@,
            port: self.port,
            credentials: self.credentials@,
            transport: self.transport@,
            security: self.security@,
            raw_uri: self.raw_uri@,
            warnings: text::texts(self.warnings@),
            extra: self.extra@,
        }
    }
}

impl Clone for Node {
    fn clone(&self) -> (r: Self)
        ensures
            r@ == self@,
    {
        Node {
            id: self.id.clone(),
            subscription: self.subscription.clone(),
            name: self.name.clone(),
            protocol: self.protocol,
            server: self.server.clone(),
            port: self.port,
            credentials: self.credentials.clone(),
            transport: self.transport.clone(),
            security: self.security.clone(),
            raw_uri: copy_secret(&self.raw_uri),
            warnings: text::copy_texts(&self.warnings),
            extra: self.extra.clone(),
        }
    }
}

pub open spec fn node_views(v: Seq<Node>) -> Seq<NodeView> {
    v.map_values(|x: Node| x@)
}

pub broadcast proof fn lemma_node_views_push(v: Seq<Node>, x: Node)
    ensures
        #[trigger] node_views(v.push(x)) == node_views(v).push(x@),
{
    assert(node_views(v.push(x)) =~= node_views(v).push(x@));
}

/// An optional text in debug form.
pub open spec fn shown_opt(o: Option<Seq<char>>) -> Seq<char> {
    match o {
        Some(s) => "Some("@ + outside::quoted(s) + ")"@,
        None => "None"@,
    }
}

fn show_opt(o: &Option<String>) -> (r: String)
    ensures
        r@ == shown_opt(text::opt_text(*o)),
{
    match o {
        Some(s) => {
            let mut r = text::owned("Some(");
            r.append(outside::quote(s.as_str()).as_str());
            r.append(")");
            r
        },
        None => text::owned("None"),
    }
}

/// The items of a list in debug form.
pub open spec fn shown_items(v: Seq<Seq<char>>) -> Seq<Seq<char>> {
    v.map_values(|s: Seq<char>| outside::quoted(s))
}

/// A list of texts in debug form.
pub open spec fn shown_list(v: Seq<Seq<char>>) -> Seq<char> {
    "["@ + text::joined(shown_items(v), ", "@) + "]"@
}

fn show_list(v: &Vec<String>) -> (r: String)
    ensures
        r@ == shown_list(text::texts(v@)),
{
    let mut items: Vec<String> = Vec::new();
    let mut i: usize = 0;
    let ghost want = shown_items(text::texts(v@));
    proof {
        text::lemma_texts_empty(items@);
        assert(want.take(0) =~= Seq::<Seq<char>>::empty());
    }
    while i < v.len()
        invariant
            i <= v@.len(),
            want == shown_items(text::texts(v@)),
            text::texts(items@) == want.take(i as int),
        decreases v@.len() - i,
    {
        let item = outside::quote(v[i].as_str());
        proof {
            text::lemma_texts_push(items@, item);
            assert(want.take(i + 1) =~= want.take(i as int).push(item@));
        }
        items.push(item);
        i += 1;
    }
    assert(want.take(want.len() as int) =~= want);
    let mut r = text::owned("[");
    r.append(text::join(&items, ", ").as_str());
    r.append("]");
    r
}

/// A truth value in debug form.
pub open spec fn shown_bool(b: bool) -> Seq<char> {
    if b {
        "true"@
    } else {
        "false"@
    }
}

/// A transport in debug form.
pub open spec fn shown_transport(t: TransportView) -> Seq<char> {
    "Transport { kind: "@ + outside::quoted(t.kind) + ", path: "@ + shown_opt(t.path) + ", host: "@
        + shown_opt(t.host) + ", service_name: "@ + shown_opt(t.service_name) + ", authority: "@
        + shown_opt(t.authority) + ", mode: "@ + shown_opt(t.mode) + ", header_type: "@
        + shown_opt(t.header_type) + ", seed: "@ + shown_opt(t.seed) + " }"@
}

impl Transport {
    /// The debug form.
    pub fn debug_text(&self) -> (r: String)
        ensures
            r@ == shown_transport(self@),
    {
        let mut r = text::owned("Transport { kind: ");
        r.append(outside::quote(self.kind.as_str()).as_str());
        r.append(", path: ");
        r.append(show_opt(&self.path).as_str());
        r.append(", host: ");
        r.append(show_opt(&self.host).as_str());
        r.append(", service_name: ");
        r.append(show_opt(&self.service_name).as_str());
        r.append(", authority: ");
        r.append(show_opt(&self.authority).as_str());
        r.append(", mode: ");
        r.append(show_opt(&self.mode).as_str());
        r.append(", header_type: ");
        r.append(show_opt(&self.header_type).as_str());
        r.append(", seed: ");
        r.append(show_opt(&self.seed).as_str());
        r.append(" }");
        r
    }
}

/// A security in debug form.
pub open spec fn shown_security(s: SecurityView) -> Seq<char> {
    "Security { kind: "@ + outside::quoted(s.kind) + ", server_name: "@ + shown_opt(s.server_name)
        + ", fingerprint: "@ + shown_opt(s.fingerprint) + ", public_key: "@ + shown_opt(
        s.public_key,
    ) + ", short_id: "@ + shown_opt(s.short_id) + ", spider_x: "@ + shown_opt(s.spider_x)
        + ", alpn: "@ + shown_list(s.alpn) + ", allow_insecure: "@ + shown_bool(s.allow_insecure)
        + ", pinned_peer_cert_sha256: "@ + shown_opt(s.pinned_peer_cert_sha256) + " }"@
}

impl Security {
    /// The debug form.
    pub fn debug_text(&self) -> (r: String)
        ensures
            r@ == shown_security(self@),
    {
        let mut r = text::owned("Security { kind: ");
        r.append(outside::quote(self.kind.as_str()).as_str());
        r.append(", server_name: ");
        r.append(show_opt(&self.server_name).as_str());
        r.append(", fingerprint: ");
        r.append(show_opt(&self.fingerprint).as_str());
        r.append(", public_key: ");
        r.append(show_opt(&self.public_key).as_str());
        r.append(", short_id: ");
        r.append(show_opt(&self.short_id).as_str());
        r.append(", spider_x: ");
        r.append(show_opt(&self.spider_x).as_str());
        r.append(", alpn: ");
        r.append(show_list(&self.alpn).as_str());
        r.append(", allow_insecure: ");
        r.append(if self.allow_insecure { "true" } else { "false" });
        r.append(", pinned_peer_cert_sha256: ");
        r.append(show_opt(&self.pinned_peer_cert_sha256).as_str());
        r.append(" }");
        r
    }
}

/// What a node is fingerprinted by: everything that decides where and how it
/// connects, and its subscription, but neither its name nor its share link.
pub open spec fn identity_text(n: NodeView) -> Seq<char> {
    protocol_name(n.protocol) + "|"@ + text::ascii_lower(n.server) + "|"@ + text::decimal(n.port as nat) + "|"@
        + text::text_or(n.credentials.user, ""@) + "|"@ + text::text_or(n.credentials.password, ""@) + "|"@
        + shown_transport(n.transport) + "|"@ + shown_security(n.security) + "|"@ + n.subscription
}

/// A node in debug form. Credentials, the share link and the extra parameters
/// are left out.
pub open spec fn shown_node(n: NodeView) -> Seq<char> {
    "Node { id: NodeId("@ + outside::quoted(short_of(n.id)) + "), subscription: "@ + outside::quoted(n.subscription)
        + ", name: "@ + outside::quoted(n.name) + ", protocol: "@ + protocol_name(n.protocol) + ", server: "@
        + outside::quoted(n.server) + ", port: "@ + text::decimal(n.port as nat)
        + ", credentials: SecretCredentials([REDACTED]), transport: "@ + shown_transport(n.transport)
        + ", security: "@ + shown_security(n.security)
        + ", raw_uri: \"[REDACTED]\", warnings: "@ + shown_list(n.warnings) + " }"@
}

/// The debug form of a node shows nothing of its secrets: it is the same for
/// any credentials, share link and extra parameters.
pub proof fn law_debug_redacts_secrets(a: NodeView, b: NodeView)
    requires
        a == (NodeView { credentials: a.credentials, raw_uri: a.raw_uri, extra: a.extra, ..b }),
    ensures
        shown_node(a) == shown_node(b),
{
}

/// The fingerprint of a node does not depend on its name, its share link, its
/// warnings or its extra parameters.
pub proof fn law_fingerprint_ignores_display_name(a: NodeView, b: NodeView)
    requires
        a.protocol == b.protocol,
        text::ascii_lower(a.server) == text::ascii_lower(b.server),
        a.port == b.port,
        a.credentials == b.credentials,
        a.transport == b.transport,
        a.security == b.security,
        a.subscription == b.subscription,
    ensures
        fingerprint(identity_text(a)) == fingerprint(identity_text(b)),
{
}

/// The name of a node in the form in which names are compared.
pub open spec fn compared_name(name: Seq<char>) -> Seq<char> {
    outside::unicode_lower(text::trimmed(name))
}

impl Node {
    /// What the node is fingerprinted by.
    pub fn normalized_identity(&self) -> (r: String)
        ensures
            r@ == identity_text(self@),
    {
        let mut r = text::owned(self.protocol.name());
        r.append("|");
        r.append(text::to_ascii_lowercase(self.server.as_str()).as_str());
        r.append("|");
        r.append(text::decimal_of(self.port as u64).as_str());
        r.append("|");
        match &self.credentials.user {
            Some(s) => r.append(outside::expose_secret(s)),
            None => r.append(""),
        }
        r.append("|");
        match &self.credentials.password {
            Some(s) => r.append(outside::expose_secret(s)),
            None => r.append(""),
        }
        r.append("|");
        r.append(self.transport.debug_text().as_str());
        r.append("|");
        r.append(self.security.debug_text().as_str());
        r.append("|");
        r.append(self.subscription.as_str());
        r
    }

    /// Gives the node the fingerprint of what it now is.
    pub fn refresh_id(&mut self)
        ensures
            final(self)@ == (NodeView { id: fingerprint(identity_text(old(self)@)), ..old(self)@ }),
            final(self)@.id == fingerprint(identity_text(final(self)@)),
            has_short(final(self)@.id),
    {
        let identity = self.normalized_identity();
        self.id = NodeId::new(identity.as_str());
    }

    /// The name in the form in which names are compared.
    pub fn normalized_name(&self) -> (r: String)
        ensures
            r@ == compared_name(self.name@),
    {
        outside::to_lowercase(text::trim(self.name.as_str()).as_str())
    }

    /// The debug form, which shows no secret.
    pub fn debug_text(&self) -> (r: String)
        requires
            has_short(self@.id),
        ensures
            r@ == shown_node(self@),
    {
        let mut r = text::owned("Node { id: NodeId(");
        r.append(outside::quote(self.id.short()).as_str());
        r.append("), subscription: ");
        r.append(outside::quote(self.subscription.as_str()).as_str());
        r.append(", name: ");
        r.append(outside::quote(self.name.as_str()).as_str());
        r.append(", protocol: ");
        r.append(self.protocol.name());
        r.append(", server: ");
        r.append(outside::quote(self.server.as_str()).as_str());
        r.append(", port: ");
        r.append(text::decimal_of(self.port as u64).as_str());
        r.append(", credentials: SecretCredentials([REDACTED]), transport: ");
        r.append(self.transport.debug_text().as_str());
        r.append(", security: ");
        r.append(self.security.debug_text().as_str());
        r.append(", raw_uri: \"[REDACTED]\", warnings: ");
        r.append(show_list(&self.warnings).as_str());
        r.append(" }");
        r
    }
}

/// What the manager remembers between runs.
#[derive(Debug)]
pub struct ManagerState {
    pub current_core_version: Option<String>,
    pub previous_core_version: Option<String>,
    pub current_asset_generation: Option<String>,
    pub previous_asset_generation: Option<String>,
    pub current_config_generation: Option<String>,
    pub previous_config_generation: Option<String>,
    pub selected_node_id: Option<String>,
    pub last_successful_healthcheck: Option<String>,
    pub last_rollback_reason: Option<String>,
    pub installed_backends: TextMap,
    pub created_identities: Vec<String>,
}

/// The mathematical value of a [`ManagerState`].
#[verifier::ext_equal]
pub struct ManagerStateView {
    pub current_core_version: Option<Seq<char>>,
    pub previous_core_version: Option<Seq<char>>,
    pub current_asset_generation: Option<Seq<char>>,
    pub previous_asset_generation: Option<Seq<char>>,
    pub current_config_generation: Option<Seq<char>>,
    pub previous_config_generation: Option<Seq<char>>,
    pub selected_node_id: Option<Seq<char>>,
    pub last_successful_healthcheck: Option<Seq<char>>,
    pub last_rollback_reason: Option<Seq<char>>,
    pub installed_backends: Map<Seq<char>, Seq<char>>,
    pub created_identities: Seq<Seq<char>>,
}

impl View for ManagerState {
    type V = ManagerStateView;

    open spec fn view(&self) -> ManagerStateView {
        ManagerStateView {
            current_core_version: text::opt_text(self.current_core_version),
            previous_core_version: text::opt_text(self.previous_core_version),
            current_asset_generation: text::opt_text(self.current_asset_generation),
            previous_asset_generation: text::opt_text(self.previous_asset_generation),
            current_config_generation: text::opt_text(self.current_config_generation),
            previous_config_generation: text::opt_text(self.previous_config_generation),
            selected_node_id: text::opt_text(self.selected_node_id),
            last_successful_healthcheck: text::opt_text(self.last_successful_healthcheck),
            last_rollback_reason: text::opt_text(self.last_rollback_reason),
            installed_backends: self.installed_backends@,
            created_identities: text::texts(self.created_identities@),
        }
    }
}

impl Clone for ManagerState {
    fn clone(&self) -> (r: Self)
        ensures
            r@ == self@,
    {
        ManagerState {
            current_core_version: text::copy_opt(&self.current_core_version),
            previous_core_version: text::copy_opt(&self.previous_core_version),
            current_asset_generation: text::copy_opt(&self.current_asset_generation),
            previous_asset_generation: text::copy_opt(&self.previous_asset_generation),
            current_config_generation: text::copy_opt(&self.current_config_generation),
            previous_config_generation: text::copy_opt(&self.previous_config_generation),
            selected_node_id: text::copy_opt(&self.selected_node_id),
            last_successful_healthcheck: text::copy_opt(&self.last_successful_healthcheck),
            last_rollback_reason: text::copy_opt(&self.last_rollback_reason),
            installed_backends: self.installed_backends.clone(),
            created_identities: text::copy_texts(&self.created_identities),
        }
    }
}

/// The state of a manager that has never run.
pub open spec fn initial_state() -> ManagerStateView {
    ManagerStateView {
        current_core_version: None,
        previous_core_version: None,
        current_asset_generation: None,
        previous_asset_generation: None,
        current_config_generation: None,
        previous_config_generation: None,
        selected_node_id: None,
        last_successful_healthcheck: None,
        last_rollback_reason: None,
        installed_backends: Map::empty(),
        created_identities: Seq::empty(),
    }
}

impl Default for ManagerState {
    fn default() -> (r: Self)
        ensures
            r@ == initial_state(),
    {
        let created_identities: Vec<String> = Vec::new();
        proof {
            text::lemma_texts_empty(created_identities@);
        }
        ManagerState {
            current_core_version: None,
            previous_core_version: None,
            current_asset_generation: None,
            previous_asset_generation: None,
            current_config_generation: None,
            previous_config_generation: None,
            selected_node_id: None,
            last_successful_healthcheck: None,
            last_rollback_reason: None,
            installed_backends: TextMap::new(),
            created_identities,
        }
    }
}

/// The same subscription and, as names are compared, the same name.
pub open spec fn same_place(a: NodeView, b: NodeView) -> bool {
    a.subscription == b.subscription && compared_name(a.name) == compared_name(b.name)
}

/// Whether the ID of each node can be shown.
pub open spec fn all_shown(nodes: Seq<NodeView>) -> bool {
    forall|i: int| 0 <= i < nodes.len() ==> has_short((#[trigger] nodes[i]).id)
}

/// `i` is the first node with the ID.
pub open spec fn first_with_id(nodes: Seq<NodeView>, id: Seq<char>, i: int) -> bool {
    &&& 0 <= i < nodes.len()
    &&& nodes[i].id == id
    &&& forall|j: int| 0 <= j < i ==> (#[trigger] nodes[j]).id != id
}

/// `i` is the one node in the place of `old`.
pub open spec fn only_in_place(nodes: Seq<NodeView>, old: NodeView, i: int) -> bool {
    &&& 0 <= i < nodes.len()
    &&& same_place(nodes[i], old)
    &&& forall|j: int| 0 <= j < nodes.len() && j != i ==> !same_place(#[trigger] nodes[j], old)
}

/// The refreshed node that stands for the selected one: the first with its ID,
/// otherwise the only one in its place.
pub open spec fn reconciled(
    old: NodeView,
    id: Seq<char>,
    nodes: Seq<NodeView>,
) -> Option<int> {
    if exists|i: int| first_with_id(nodes, id, i) {
        Some(choose|i: int| first_with_id(nodes, id, i))
    } else if exists|i: int| only_in_place(nodes, old, i) {
        Some(choose|i: int| only_in_place(nodes, old, i))
    } else {
        None
    }
}

/// Finds the refreshed node that stands for the selected one.
pub fn reconcile_selected<'a>(old: &Node, selected_id: &NodeId, refreshed: &'a [Node]) -> (r: Option<
    &'a Node,
>)
    ensures
        match r {
            Some(n) => reconciled(old@, selected_id@, node_views(refreshed@)) matches Some(i)
                && 0 <= i < refreshed@.len() && *n == refreshed@[i],
            None => reconciled(old@, selected_id@, node_views(refreshed@)) is None,
        },
{
    let ghost views = node_views(refreshed@);
    let mut i: usize = 0;
    while i < refreshed.len()
        invariant
            i <= refreshed@.len(),
            views == node_views(refreshed@),
            forall|j: int| 0 <= j < i ==> (#[trigger] views[j]).id != selected_id@,
        decreases refreshed@.len() - i,
    {
        if text::same(refreshed[i].id.as_str(), selected_id.as_str()) {
            assert(views[i as int] == refreshed@[i as int]@);
            assert(first_with_id(views, selected_id@, i as int));
            let ghost k = choose|k: int| first_with_id(views, selected_id@, k);
            assert(k == i) by {
                if k < i {
                    assert(views[k].id != selected_id@);
                }
            }
            return Some(&refreshed[i]);
        }
        i += 1;
    }
    assert(!exists|k: int| first_with_id(views, selected_id@, k));
    let name = old.normalized_name();
    let mut found: Option<usize> = None;
    let mut many: bool = false;
    let mut i: usize = 0;
    while i < refreshed.len()
        invariant
            i <= refreshed@.len(),
            views == node_views(refreshed@),
            name@ == compared_name(old.name@),
            match found {
                Some(k) => k < i && same_place(views[k as int], old@) && (many || forall|j: int|
                    0 <= j < i && j != k ==> !same_place(#[trigger] views[j], old@)),
                None => !many && forall|j: int|
                    0 <= j < i ==> !same_place(#[trigger] views[j], old@),
            },
            many ==> exists|a: int, b: int|
                0 <= a < b < i && same_place(#[trigger] views[a], old@) && same_place(
                    #[trigger] views[b],
                    old@,
                ),
        decreases refreshed@.len() - i,
    {
        let node = &refreshed[i];
        assert(views[i as int] == node@);
        if text::same(node.subscription.as_str(), old.subscription.as_str()) && text::same(
            node.normalized_name().as_str(),
            name.as_str(),
        ) {
            match found {
                Some(k) => {
                    assert(same_place(views[k as int], old@) && same_place(views[i as int], old@));
                    many = true;
                },
                None => {
                    found = Some(i);
                },
            }
        }
        i += 1;
    }
    match found {
        Some(k) if !many => {
            assert(only_in_place(views, old@, k as int));
            let ghost m = choose|m: int| only_in_place(views, old@, m);
            assert(m == k);
            Some(&refreshed[k])
        },
        _ => {
            assert(!exists|m: int| only_in_place(views, old@, m));
            None
        },
    }
}

/// A selection whose ID is still there is kept, whatever else was refreshed.
pub proof fn law_reconcile_prefers_exact_id(old: NodeView, id: Seq<char>, nodes: Seq<NodeView>, i: int)
    requires
        0 <= i < nodes.len(),
        nodes[i].id == id,
    ensures
        reconciled(old, id, nodes) matches Some(k) && 0 <= k < nodes.len() && nodes[k].id == id,
{
    lemma_first_with_id(nodes, id, i);
}

proof fn lemma_first_with_id(nodes: Seq<NodeView>, id: Seq<char>, i: int)
    requires
        0 <= i < nodes.len(),
        nodes[i].id == id,
    ensures
        exists|k: int| first_with_id(nodes, id, k),
    decreases i,
{
    if exists|j: int| 0 <= j < i && nodes[j].id == id {
        let j = choose|j: int| 0 <= j < i && nodes[j].id == id;
        lemma_first_with_id(nodes, id, j);
    } else {
        assert(first_with_id(nodes, id, i));
    }
}

/// Without its ID, a selection is lost where two nodes share its place.
pub proof fn law_reconcile_rejects_ambiguous_place(
    old: NodeView,
    id: Seq<char>,
    nodes: Seq<NodeView>,
    a: int,
    b: int,
)
    requires
        forall|j: int| 0 <= j < nodes.len() ==> (#[trigger] nodes[j]).id != id,
        0 <= a < b < nodes.len(),
        same_place(nodes[a], old),
        same_place(nodes[b], old),
    ensures
        reconciled(old, id, nodes) is None,
{
}

} // verus!
