use base64::Engine;
use xray_manager::config::{AppProfile, ManagerConfig};
use xray_manager::domain::{reconcile_selected, Node};
use xray_manager::dto::NodeDto;
use xray_manager::json::{Json, JsonObject};
use xray_manager::ports::{backends_of, AppLaunchRequest, Capability};
use xray_manager::protocols::parse_uri;
use xray_manager::queries::node_json;
use xray_manager::render::render_xray_config;
use xray_manager::routing::{RoutingConfig, RoutingRule};
use xray_manager::subscription::parse_subscription;
use xray_manager::text_map::TextMap;

const UUID: &str = "123e4567-e89b-12d3-a456-426614174000";
const UUID_2: &str = "123e4567-e89b-12d3-a456-426614174001";

fn vless(name: &str) -> String {
    format!("vless://{UUID}@example.com:443?security=tls&type=ws&path=%2Fws#{name}")
}

fn node(uri: &str) -> Node {
    match parse_uri(uri, "main") {
        Ok(node) => node,
        Err(error) => panic!("{uri} should parse: {}", error.message()),
    }
}

fn preset(name: &str) -> RoutingConfig {
    match RoutingConfig::preset(name) {
        Ok(routing) => routing,
        Err(error) => panic!("{}", error.message()),
    }
}

fn rendered(node: Option<&Node>) -> JsonObject {
    match render_xray_config(&ManagerConfig::default(), node, &preset("global-proxy"), Vec::new()) {
        Ok(files) => files,
        Err(error) => panic!("config should render: {}", error.message()),
    }
}

fn member<'a>(json: &'a Json, path: &[&str]) -> &'a Json {
    let mut found = json;
    for key in path {
        let next = match key.parse::<usize>() {
            Ok(index) => found.item(index),
            Err(_) => found.member(key),
        };
        found = match next {
            Some(next) => next,
            None => panic!("{key} is missing in {path:?}"),
        };
    }
    found
}

fn text<'a>(json: &'a Json, path: &[&str]) -> &'a str {
    match member(json, path).as_text() {
        Some(text) => text.as_str(),
        None => panic!("{path:?} is no text"),
    }
}

fn file<'a>(files: &'a JsonObject, name: &str) -> &'a Json {
    match files.get(name) {
        Some(file) => file,
        None => panic!("{name} is missing"),
    }
}

fn length(json: &Json) -> usize {
    let mut count = 0;
    while json.item(count).is_some() {
        count += 1;
    }
    count
}

fn shown(json: &Json) -> String {
    format!("{json:?}")
}

#[test]
fn parses_vless_and_percent_encoded_name() {
    let node = node(&format!(
        "vless://{UUID}@example.com:443?security=reality&type=grpc&pbk=public&sid=ab#Frankfurt%20One"
    ));
    assert_eq!(node.name, "Frankfurt One");
    assert_eq!(node.transport.kind, "grpc");
    assert_eq!(node.security.kind, "reality");
}

#[test]
fn rejects_invalid_vless_uuid() {
    assert!(parse_uri("vless://bad@example.com:443", "main").is_err());
}

#[test]
fn rejects_unknown_uri_scheme() {
    assert!(parse_uri("https://example.com/node", "main").is_err());
}

#[test]
fn rejects_missing_port() {
    assert!(parse_uri(&format!("vless://{UUID}@example.com"), "main").is_err());
}

#[test]
fn preserves_unknown_query_as_warning() {
    let node = node(&format!("vless://{UUID}@example.com:443?mystery=yes"));
    assert_eq!(node.warnings, ["unknown query parameter: mystery"]);
}

#[test]
fn parses_trojan() {
    let node = node("trojan://secret@example.com:443?security=tls&type=ws&sni=cdn.example#node");
    assert_eq!(node.name, "node");
    assert_eq!(node.transport.kind, "ws");
}

fn vmess(json: &str) -> String {
    format!("vmess://{}", base64::engine::general_purpose::STANDARD.encode(json))
}

#[test]
fn parses_vmess_base64_json() {
    let json = format!(
        r#"{{"add":"vmess.example","port":"443","id":"{UUID}","aid":0,"scy":"auto","net":"ws","host":"cdn.example","path":"/ws","tls":"tls","ps":"Warsaw"}}"#
    );
    let node = node(&vmess(&json));
    assert_eq!(node.server, "vmess.example");
    assert_eq!(node.name, "Warsaw");
}

#[test]
fn rejects_invalid_vmess_json() {
    assert!(parse_uri(&vmess("not-json"), "main").is_err());
}

#[test]
fn parses_shadowsocks_sip002() {
    let credentials =
        base64::engine::general_purpose::URL_SAFE_NO_PAD.encode("aes-128-gcm:secret");
    let node = node(&format!("ss://{credentials}@ss.example:8388#Stockholm"));
    assert_eq!(node.extra.get("method").map(String::as_str), Some("aes-128-gcm"));
}

#[test]
fn parses_legacy_shadowsocks_authority() {
    let authority = base64::engine::general_purpose::STANDARD
        .encode("chacha20-ietf-poly1305:secret@ss.example:443");
    let node = node(&format!("ss://{authority}#Legacy"));
    assert_eq!(node.port, 443);
}

#[test]
fn warns_about_unknown_shadowsocks_plugin() {
    let credentials =
        base64::engine::general_purpose::STANDARD_NO_PAD.encode("aes-256-gcm:secret");
    let node = node(&format!("ss://{credentials}@ss.example:443?plugin=unknown#Plugin"));
    assert!(node.warnings[0].contains("unsupported"));
}

#[test]
fn recognized_shadowsocks_plugin_is_never_silently_ignored() {
    let credentials =
        base64::engine::general_purpose::STANDARD_NO_PAD.encode("aes-256-gcm:secret");
    let node = node(&format!(
        "ss://{credentials}@ss.example:443?plugin=v2ray-plugin%3Btls#Plugin"
    ));
    assert!(node.warnings[0].contains("recognized"));
    let routing = preset("global-proxy");
    assert!(
        render_xray_config(&ManagerConfig::default(), Some(&node), &routing, vec![]).is_err()
    );
}

#[test]
fn raw_http_header_is_rendered_explicitly() {
    let node = node(&format!(
        "vless://{UUID}@example.com:443?type=raw&headerType=http&host=cdn.example&path=%2Fraw"
    ));
    let files = rendered(Some(&node));
    assert_eq!(
        text(
            file(&files, "30_outbounds.json"),
            &[
                "outbounds",
                "0",
                "streamSettings",
                "rawSettings",
                "header",
                "request",
                "headers",
                "Host",
                "0",
            ],
        ),
        "cdn.example"
    );
}

#[test]
fn parses_hysteria2_alias_and_tls() {
    let node = node("hy2://password@hy.example:443?sni=cdn.example&alpn=h3&insecure=1#Prague");
    assert_eq!(node.security.server_name.as_deref(), Some("cdn.example"));
    assert!(node.security.allow_insecure);
}

#[test]
fn unsupported_hysteria_parameter_does_not_break_parse() {
    let node = node("hysteria2://password@hy.example:443?unknown=value#Prague");
    assert!(!node.warnings.is_empty());
}

#[test]
fn parses_plain_subscription_with_comments() {
    let input = format!("# comment\n\n{}\n", vless("A"));
    match parse_subscription(input.as_bytes(), "main") {
        Ok(result) => assert_eq!(result.nodes.len(), 1),
        Err(error) => panic!("{}", error.message()),
    }
}

#[test]
fn parses_whole_subscription_standard_base64() {
    let encoded = base64::engine::general_purpose::STANDARD.encode(vless("A"));
    match parse_subscription(encoded.as_bytes(), "main") {
        Ok(result) => assert_eq!(result.nodes.len(), 1),
        Err(error) => panic!("{}", error.message()),
    }
}

#[test]
fn parses_urlsafe_subscription_without_padding() {
    let encoded = base64::engine::general_purpose::URL_SAFE_NO_PAD.encode(vless("A"));
    match parse_subscription(encoded.as_bytes(), "main") {
        Ok(result) => assert_eq!(result.nodes.len(), 1),
        Err(error) => panic!("{}", error.message()),
    }
}

#[test]
fn rejects_html_subscription() {
    assert!(parse_subscription(b"<!doctype html><h1>error</h1>", "main").is_err());
}

#[test]
fn debug_and_dto_redact_secrets() {
    let uri = vless("Secret");
    let node = node(&uri);
    let debug = node.debug_text();
    assert!(!debug.contains(UUID));
    assert!(!debug.contains(&uri));
    let dto = shown(&node_json(&NodeDto::from(&node)));
    assert!(!dto.contains(UUID));
    assert!(!dto.contains("vless://"));
}

#[test]
fn fingerprint_ignores_display_name() {
    let first = node(&vless("One"));
    let second = node(&vless("Two"));
    assert_eq!(first.id.as_str(), second.id.as_str());
}

#[test]
fn fingerprint_changes_with_credentials() {
    let first = node(&vless("One"));
    let second = node(&format!(
        "vless://{UUID_2}@example.com:443?security=tls&type=ws&path=%2Fws#One"
    ));
    assert_ne!(first.id.as_str(), second.id.as_str());
}

#[test]
fn reconciliation_uses_unique_subscription_and_name() {
    let before = node(&vless("One"));
    let replacement = [node(&format!("vless://{UUID_2}@example.com:443#One"))];
    assert_eq!(
        reconcile_selected(&before, &before.id, &replacement).map(|node| node.id.as_str()),
        Some(replacement[0].id.as_str())
    );
}

#[test]
fn reconciliation_rejects_ambiguous_name() {
    let before = node(&vless("One"));
    let replacements = [
        node(&format!("vless://{UUID_2}@one.example:443#One")),
        node("vless://123e4567-e89b-12d3-a456-426614174002@two.example:443#One"),
    ];
    assert!(reconcile_selected(&before, &before.id, &replacements).is_none());
}

#[test]
fn configuration_defaults_are_safe() {
    let config = ManagerConfig::default();
    assert!(config.validate().is_ok());
    assert!(config.proxy.listen.is_loopback());
    assert_eq!(config.proxy.socks_port, 10808);
    assert_eq!(config.proxy.http_port, 10809);
    assert_eq!(config.tun.routing_table, 166);
    assert!(config.tun.fail_closed);
}

#[test]
fn configuration_rejects_values_that_runtime_cannot_use() {
    let mut config = ManagerConfig::default();
    config.proxy.socks_port = 0;
    assert!(config.validate().is_err());

    let mut config = ManagerConfig::default();
    config.tun.mtu = 500;
    assert!(config.validate().is_err());

    let mut config = ManagerConfig::default();
    config.dns.mode = "ignored-mode".into();
    assert!(config.validate().is_err());

    let mut config = ManagerConfig::default();
    config.dns.tun_servers.clear();
    assert!(config.validate().is_err());
}

fn table(input: &str) -> toml::Table {
    match toml::from_str::<toml::Table>(input) {
        Ok(table) => table,
        Err(error) => panic!("{error}"),
    }
}

fn strings(table: &toml::Table, key: &str) -> Vec<String> {
    match table.get(key).and_then(toml::Value::as_array) {
        Some(items) => items
            .iter()
            .filter_map(|item| item.as_str().map(str::to_owned))
            .collect(),
        None => Vec::new(),
    }
}

fn string(table: &toml::Table, key: &str) -> String {
    match table.get(key).and_then(toml::Value::as_str) {
        Some(text) => text.to_owned(),
        None => panic!("{key} is missing"),
    }
}

fn text_map(table: &toml::Table, key: &str) -> TextMap {
    let mut map = TextMap::new();
    if let Some(members) = table.get(key).and_then(toml::Value::as_table) {
        for (name, value) in members {
            map.insert(name.clone(), value.as_str().unwrap_or_default().to_owned());
        }
    }
    map
}

fn routing(input: &str) -> RoutingConfig {
    let table = table(input);
    let rules = table
        .get("rules")
        .and_then(toml::Value::as_array)
        .map(|rules| rules.iter().filter_map(toml::Value::as_table).map(rule).collect())
        .unwrap_or_default();
    RoutingConfig {
        domain_strategy: string(&table, "domain_strategy"),
        default_outbound: string(&table, "default_outbound"),
        rules,
    }
}

fn rule(table: &toml::Table) -> RoutingRule {
    RoutingRule {
        name: string(table, "name"),
        enabled: table.get("enabled").and_then(toml::Value::as_bool).unwrap_or(true),
        domain: strings(table, "domain"),
        ip: strings(table, "ip"),
        port: None,
        source_port: None,
        local_port: None,
        network: None,
        source_ip: Vec::new(),
        local_ip: Vec::new(),
        inbound_tag: Vec::new(),
        protocol: Vec::new(),
        process: Vec::new(),
        outbound: string(table, "outbound"),
    }
}

#[test]
fn platform_configuration_accepts_public_backend_keys() {
    let input = table(
        r#"
[platform]
layout = "auto"
installer = "auto"
identity = "auto"
service = "auto"
firewall = "auto"
policy_routing = "auto"
tun = "auto"
app_runner = "auto"
mount_isolation = "auto"
desktop_proxy = "auto"
package_advisor = "auto"
"#,
    );
    let platform = text_map(&input, "platform");
    for key in platform.keys() {
        assert!(Capability::from_name(&key).is_some());
    }
    let mut config = ManagerConfig::default();
    config.platform.backends = backends_of(&platform);
    assert!(config.validate().is_ok());
    assert_eq!(
        config.platform.backends.get(Capability::Install).map(String::as_str),
        Some("auto")
    );
}

#[test]
fn rejects_non_https_asset() {
    let mut config = ManagerConfig::default();
    config.assets[0].url = "http://example.com/geoip.dat".into();
    assert!(config.validate().is_err());
}

#[test]
fn rejects_asset_filename_path_traversal() {
    let mut config = ManagerConfig::default();
    config.assets[0].filename = "../../etc/passwd".into();
    assert!(config.validate().is_err());
}

#[test]
fn rejects_duplicate_asset_destinations() {
    let mut config = ManagerConfig::default();
    config.assets[1].filename = config.assets[0].filename.clone();
    assert!(config.validate().is_err());
}

#[test]
fn routing_preserves_order_and_adds_catch_all() {
    let routing = routing(
        r#"
domain_strategy = "AsIs"
default_outbound = "proxy"

[[rules]]
name = "one"
domain = ["geosite:private"]
outbound = "direct"

[[rules]]
name = "two"
ip = ["geoip:private"]
outbound = "direct"
"#,
    );
    assert!(routing.validate().is_ok());
    let json = routing.to_xray_json();
    assert_eq!(text(&json, &["routing", "rules", "0", "domain", "0"]), "geosite:private");
    assert_eq!(text(&json, &["routing", "rules", "1", "ip", "0"]), "geoip:private");
    assert_eq!(text(&json, &["routing", "rules", "2", "network"]), "tcp,udp");
}

#[test]
fn routing_rejects_unknown_rule_outbound() {
    let routing = routing(
        r#"
domain_strategy = "AsIs"
default_outbound = "proxy"

[[rules]]
name = "broken"
enabled = true
outbound = "missing"
"#,
    );
    assert!(routing.validate().is_err());
}

#[test]
fn all_runetfreedom_presets_render() {
    for name in ["global-proxy", "runet-blocked-only", "ru-direct"] {
        let json = preset(name).to_xray_json();
        assert!(matches!(member(&json, &["routing", "rules"]), Json::Array(_)));
    }
}

#[test]
fn renderer_uses_blackhole_without_active_node() {
    let files = rendered(None);
    assert_eq!(
        text(file(&files, "30_outbounds.json"), &["outbounds", "0", "protocol"]),
        "blackhole"
    );
    assert_eq!(
        text(file(&files, "20_inbounds.json"), &["inbounds", "2", "settings", "name"]),
        "xray0"
    );
}

#[test]
fn renderer_keeps_all_outbounds_in_one_file() {
    let node = node(&vless("A"));
    let files = rendered(Some(&node));
    assert_eq!(length(member(file(&files, "30_outbounds.json"), &["outbounds"])), 3);
}

#[test]
fn hysteria_renderer_maps_confirmed_finalmask_fields() {
    let node = node(
        "hysteria2://secret@hy.example:443?sni=cdn.example&obfs=salamander&obfs-password=mask&mport=20000-20100&upmbps=50&downmbps=100#HY2",
    );
    let files = rendered(Some(&node));
    let stream = member(file(&files, "30_outbounds.json"), &["outbounds", "0", "streamSettings"]);
    assert_eq!(text(stream, &["finalmask", "udp", "0", "type"]), "salamander");
    assert_eq!(
        text(stream, &["finalmask", "quicParams", "udpHop", "ports"]),
        "20000-20100"
    );
}

#[test]
fn hysteria_renderer_refuses_unknown_fields() {
    let node = node("hysteria2://secret@hy.example:443?future-field=value#HY2");
    let routing = preset("global-proxy");
    assert!(
        render_xray_config(&ManagerConfig::default(), Some(&node), &routing, vec![]).is_err()
    );
}

#[test]
fn app_profile_parses() {
    let input = table(
        r#"
name = "discord"
command = ["discord", "--no-proxy-server"]
clear_proxy_environment = true
override_dns = true
environment = { WAYLAND_DISPLAY = "wayland-0" }
"#,
    );
    let profile = AppProfile {
        name: string(&input, "name"),
        command: strings(&input, "command"),
        clear_proxy_environment: input["clear_proxy_environment"].as_bool() == Some(true),
        override_dns: input["override_dns"].as_bool() == Some(true),
        working_directory: None,
        environment: text_map(&input, "environment"),
    };
    assert!(profile.validate().is_ok());
    assert_eq!(profile.command[0], "discord");
    assert!(profile.override_dns);
}

#[test]
fn app_launch_clears_both_proxy_environment_casings() {
    let mut environment = TextMap::new();
    environment.insert("KEEP".into(), "yes".into());
    let request = AppLaunchRequest {
        command: vec!["curl".into()],
        user: "desktop".into(),
        override_dns: false,
        clear_proxy_environment: true,
        working_directory: None,
        environment,
    };
    let mut inherited = TextMap::new();
    inherited.insert("HTTP_PROXY".into(), "http://127.0.0.1:10809".into());
    inherited.insert("all_proxy".into(), "socks5://127.0.0.1:10808".into());
    inherited.insert("DISPLAY".into(), ":0".into());
    let sanitized = request.sanitized_environment(inherited);
    assert!(!sanitized.contains_key("HTTP_PROXY"));
    assert!(!sanitized.contains_key("all_proxy"));
    assert_eq!(sanitized.get("DISPLAY").map(String::as_str), Some(":0"));
    assert_eq!(sanitized.get("KEEP").map(String::as_str), Some("yes"));
}
