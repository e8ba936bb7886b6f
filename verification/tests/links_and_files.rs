use base64::Engine;
use xray_manager::config::{with_enabled, IpAddress, ManagerConfig, SubscriptionConfig};
use xray_manager::domain::{reconcile_selected, Node, NodeId, Protocol};
use xray_manager::dto::NodeDto;
use xray_manager::error::ManagerError;
use xray_manager::json::{Json, JsonObject};
use xray_manager::protocols::{parse_uri, split_csv};
use xray_manager::queries::{presets_json, subscriptions_json};
use xray_manager::refresh::{reselect, sort_by_name, take_in};
use xray_manager::render::{is_numeric_range, normalize_network, render_xray_config};
use xray_manager::routing::{RoutingConfig, RoutingRule};
use xray_manager::subscription::{
    contains_supported_uri, decode_minimal_html_entities, parse_subscription,
};
use xray_manager::text::{
    decimal_of, is_less, join, parse_unsigned, replace, signed_decimal_of, split_whitespace, trim,
};

const UUID: &str = "123e4567-e89b-12d3-a456-426614174000";
const UUID_2: &str = "123e4567-e89b-12d3-a456-426614174001";

fn node(uri: &str) -> Node {
    match parse_uri(uri, "main") {
        Ok(node) => node,
        Err(error) => panic!("{uri}: {}", error.message()),
    }
}

fn problem(uri: &str) -> String {
    match parse_uri(uri, "main") {
        Ok(_) => panic!("{uri} should not parse"),
        Err(error) => error.message(),
    }
}

fn outbound(uri: &str) -> Json {
    let routing = RoutingConfig::preset("global-proxy").expect("preset");
    match render_xray_config(&ManagerConfig::default(), Some(&node(uri)), &routing, Vec::new()) {
        Ok(files) => match files.get("30_outbounds.json").and_then(|f| f.member("outbounds")) {
            Some(list) => list.item(0).expect("an outbound").copy(),
            None => panic!("no outbounds"),
        },
        Err(error) => panic!("{}", error.message()),
    }
}

fn text(json: &Json, path: &[&str]) -> Option<String> {
    let mut found = json;
    for key in path {
        found = match key.parse::<usize>() {
            Ok(index) => found.item(index)?,
            Err(_) => found.member(key)?,
        };
    }
    found.as_text().cloned()
}

#[test]
fn links_name_what_is_wrong_with_them() {
    assert_eq!(
        problem("vless://bad@example.com:443"),
        "invalid node URI: VLESS user must be a valid UUID"
    );
    assert!(problem("https://example.com").starts_with("invalid node URI: "));
    assert!(problem("vmess://%%%").starts_with("invalid node URI: "));
    assert!(problem("ss://@example.com:443").starts_with("invalid node URI: "));
    assert!(problem("not a link").starts_with("invalid node URI: "));
}

#[test]
fn link_parts_are_decoded() {
    let trojan = node("trojan://p%40ss@example.com:8443?alpn=h2%2Chttp%2F1.1#Caf%C3%A9");
    assert_eq!(trojan.name, "Café");
    assert_eq!(trojan.port, 8443);
    assert_eq!(trojan.security.alpn, ["h2", "http/1.1"]);
    let plain = node(&format!("vless://{UUID}@[2001:db8::1]:443"));
    assert_eq!(plain.server, "[2001:db8::1]");
    assert_eq!(plain.port, 443);
    assert_eq!(
        text(&outbound("trojan://p%40ss@example.com:8443#A"), &[
            "settings", "servers", "0", "password"
        ]),
        Some("p@ss".into())
    );
}

#[test]
fn vmess_accepts_numbers_and_texts() {
    let encode =
        |json: &str| format!("vmess://{}", base64::engine::general_purpose::STANDARD.encode(json));
    let first = node(&encode(&format!(
        r#"{{"add":"a.example","port":443,"id":"{UUID}","aid":"0","net":"tcp","ps":"A"}}"#
    )));
    let second = node(&encode(&format!(
        r#"{{"add":"a.example","port":"443","id":"{UUID}","aid":0,"net":"tcp","ps":"B"}}"#
    )));
    assert_eq!(first.port, second.port);
    assert_eq!(first.protocol, Protocol::Vmess);
    assert!(parse_uri(&encode(r#"{"add":"a.example","port":443}"#), "main").is_err());
    assert!(parse_uri(&encode(&format!(
        r#"{{"add":"a.example","port":0.5,"id":"{UUID}"}}"#
    )), "main").is_err());
}

#[test]
fn a_user_is_a_uuid_in_any_of_its_forms() {
    let accepted = |id: &str| {
        let json = format!(r#"{{"add":"a.example","port":443,"id":"{id}"}}"#);
        let link = base64::engine::general_purpose::STANDARD.encode(json);
        parse_uri(&format!("vmess://{link}"), "main").is_ok()
    };
    let digits = UUID.replace('-', "");
    assert!(accepted(UUID));
    assert!(accepted(&digits));
    assert!(accepted(&UUID.to_uppercase()));
    assert!(accepted(&format!("{{{UUID}}}")));
    assert!(accepted(&format!("URN:uuid:{UUID}")));
    assert!(!accepted(&format!("({UUID})")));
    assert!(!accepted(&UUID.replace('1', "g")));
    assert!(!accepted(&format!("{digits}-")));
    assert!(!accepted(&UUID[1..]));
}

#[test]
fn every_parsed_node_has_its_own_fields() {
    let node = node(&format!("vless://{UUID}@example.com:443#A"));
    assert_eq!(node.subscription, "main");
    assert_eq!(node.server, "example.com");
    assert_eq!(node.id.as_str().len(), 64);
    assert_eq!(node.id.short().len(), 12);
    assert!(node.id.as_str().starts_with(node.id.short()));
    let unnamed = self::node(&format!("vless://{UUID}@example.com:443"));
    assert_eq!(unnamed.id.as_str(), node.id.as_str());
}

#[test]
fn an_id_is_the_digest_of_the_identity() {
    // BLAKE3 of the empty input.
    assert_eq!(
        NodeId::new("").as_str(),
        "af1349b9f5f9a1a6a0404dea36dcc9499bcb25c9adc112b7cc9a93cae41f3262"
    );
    let node = node(&format!("vless://{UUID}@example.com:443#A"));
    assert_eq!(NodeId::new(&node.normalized_identity()).as_str(), node.id.as_str());
}

#[test]
fn stored_ids_are_read_back() {
    let id = NodeId::new("node");
    let stored = NodeId::from_stored(id.as_str().to_owned());
    assert_eq!(stored.as_str(), id.as_str());
    assert_eq!(stored.short(), &id.as_str()[..12]);
    let short = NodeId::from_stored("short".into());
    assert_eq!(short.as_str(), "short");
    assert!(!short.has_short());
    let accented = NodeId::from_stored("éééééééé".into());
    assert!(accented.has_short());
    assert_eq!(accented.short(), "éééééé");
    assert!(!NodeId::from_stored("aééééééé".into()).has_short());
}

#[test]
fn secrets_show_nowhere() {
    let first = node("trojan://hunter2@example.com:443#A");
    let second = node("trojan://swordfish@example.com:443#A");
    assert!(!first.debug_text().contains("hunter2"));
    assert_eq!(
        format!("{:?}", NodeDto::from(&first)).replace(first.id.short(), ""),
        format!("{:?}", NodeDto::from(&second)).replace(second.id.short(), "")
    );
    let subscription = SubscriptionConfig {
        name: "main".into(),
        enabled: true,
        url: "https://secret.example/token".into(),
        format: "auto".into(),
    };
    assert!(!subscription.debug_text().contains("secret.example"));
    let public = format!("{:?}", subscriptions_json(&vec![subscription]));
    assert!(public.contains("main"));
    assert!(!public.contains("secret.example"));
}

#[test]
fn reconciliation_prefers_the_same_id() {
    let before = node(&format!("vless://{UUID}@example.com:443#One"));
    let others = [
        node(&format!("vless://{UUID_2}@example.com:443#One")),
        node(&format!("vless://{UUID}@example.com:443#Renamed")),
    ];
    let found = reconcile_selected(&before, &before.id, &others).expect("a node");
    assert_eq!(found.name, "Renamed");
}

#[test]
fn a_lost_selection_is_kept_with_a_warning() {
    let before = node(&format!("vless://{UUID}@example.com:443#One"));
    let (selected, warning) = reselect(&before, &vec![node("trojan://x@example.com:443#Two")]);
    assert!(selected.is_none());
    assert!(warning.expect("a warning").contains("disappeared or became ambiguous"));
    let replacement = node(&format!("vless://{UUID_2}@example.com:443#One"));
    let id = replacement.id.as_str().to_owned();
    let (selected, warning) = reselect(&before, &vec![replacement]);
    assert_eq!(selected, Some(id));
    assert!(warning.expect("a warning").contains("was reconciled"));
}

#[test]
fn every_line_of_a_subscription_is_accounted_for() {
    let input = format!(
        "# comment\nvless://{UUID}@example.com:443#A\n\nbroken line\ntrojan://x@b.example:443#B\n"
    );
    let parse = match parse_subscription(input.as_bytes(), "main") {
        Ok(parse) => parse,
        Err(error) => panic!("{}", error.message()),
    };
    assert_eq!(parse.nodes.len(), 2);
    assert_eq!(parse.nodes[0].name, "A");
    assert_eq!(parse.nodes[1].name, "B");
    assert_eq!(parse.warnings.len(), 1);
    assert!(matches!(
        parse_subscription(b"\xff\xfe\x00", "main"),
        Err(ManagerError::InvalidSubscription(_))
    ));
    assert!(contains_supported_uri("x\nhy2://y"));
    assert!(!contains_supported_uri("http://y"));
    assert_eq!(decode_minimal_html_entities("a&amp;b"), "a&b");
}

#[test]
fn a_refresh_keeps_other_subscriptions_and_sorts_by_name() {
    let mut other = node("trojan://x@a.example:443#Zulu");
    other.subscription = "other".into();
    let mut stale = node("trojan://x@b.example:443#Stale");
    stale.subscription = "main".into();
    let parse = match parse_subscription(b"trojan://x@c.example:443#alpha", "main") {
        Ok(parse) => parse,
        Err(error) => panic!("{}", error.message()),
    };
    let (nodes, _) = take_in(vec![other, stale], Vec::new(), "main", parse);
    let names: Vec<String> =
        sort_by_name(&nodes).iter().map(|node| node.name.clone()).collect();
    assert_eq!(names, ["Zulu", "alpha"]);
}

#[test]
fn an_explicit_finalmask_is_authoritative() {
    let json = "%7B%22udp%22%3A%5B%7B%22type%22%3A%22salamander%22%7D%5D%7D";
    let stream = outbound(&format!(
        "hysteria2://secret@hy.example:443?sni=cdn.example&fm={json}#HY2"
    ));
    assert_eq!(
        text(&stream, &["streamSettings", "finalmask", "udp", "0", "type"]),
        Some("salamander".into())
    );
}

#[test]
fn refused_nodes_are_never_rendered() {
    let routing = RoutingConfig::preset("global-proxy").expect("preset");
    let node = node(&format!("vless://{UUID}@example.com:443?type=quic#A"));
    assert!(!node.warnings.is_empty());
    assert!(
        render_xray_config(&ManagerConfig::default(), Some(&node), &routing, Vec::new()).is_err()
    );
}

#[test]
fn custom_fragments_are_merged() {
    let routing = RoutingConfig::preset("global-proxy").expect("preset");
    let custom = Json::Object(JsonObject::new().with("stats", Json::Object(JsonObject::new())));
    let files = match render_xray_config(&ManagerConfig::default(), None, &routing, vec![custom]) {
        Ok(files) => files,
        Err(error) => panic!("{}", error.message()),
    };
    assert!(files.entries.iter().any(|(_, file)| file.member("stats").is_some()));
}

#[test]
fn networks_and_ranges_are_normalized() {
    assert_eq!(normalize_network("WebSocket"), "ws");
    assert_eq!(normalize_network("raw"), "tcp");
    assert_eq!(normalize_network("grpc"), "grpc");
    assert!(is_numeric_range("100-200"));
    assert!(!is_numeric_range("100-x"));
    assert_eq!(split_csv(&Some("a,b,,c".into())), ["a", "b", "c"]);
    assert!(split_csv(&None).is_empty());
}

#[test]
fn presets_are_listed_valid_and_end_in_a_catch_all() {
    let list = presets_json();
    let mut index = 0;
    while let Some(name) = list.item(index) {
        let name = name.as_text().expect("a name");
        let preset = RoutingConfig::preset(name).expect("a preset");
        assert!(preset.validate().is_ok());
        let json = preset.to_xray_json();
        let rules = json.member("routing").and_then(|r| r.member("rules")).expect("rules");
        let mut last = 0;
        while rules.item(last + 1).is_some() {
            last += 1;
        }
        let catch_all = rules.item(last).expect("a rule");
        assert_eq!(text(catch_all, &["network"]), Some("tcp,udp".into()));
        index += 1;
    }
    assert_eq!(index, 3);
    assert!(matches!(
        RoutingConfig::preset("unknown"),
        Err(ManagerError::InvalidConfig(_))
    ));
}

#[test]
fn disabled_rules_are_left_out_in_order() {
    let rule = |name: &str, enabled: bool| RoutingRule {
        name: name.into(),
        enabled,
        domain: vec![format!("domain:{name}")],
        ip: Vec::new(),
        port: None,
        source_port: None,
        local_port: None,
        network: None,
        source_ip: Vec::new(),
        local_ip: Vec::new(),
        inbound_tag: Vec::new(),
        protocol: Vec::new(),
        process: Vec::new(),
        outbound: "direct".into(),
    };
    let routing = RoutingConfig {
        domain_strategy: "AsIs".into(),
        default_outbound: "proxy".into(),
        rules: vec![rule("one", true), rule("two", false), rule("three", true)],
    };
    let json = routing.to_xray_json();
    assert_eq!(
        text(&json, &["routing", "rules", "0", "domain", "0"]),
        Some("domain:one".into())
    );
    assert_eq!(
        text(&json, &["routing", "rules", "1", "domain", "0"]),
        Some("domain:three".into())
    );
}

#[test]
fn a_valid_configuration_is_safe() {
    let refused = |change: fn(&mut ManagerConfig)| {
        let mut config = ManagerConfig::default();
        change(&mut config);
        matches!(config.validate(), Err(ManagerError::InvalidConfig(_)))
    };
    assert!(refused(|config| config.proxy.listen = IpAddress::V4(10, 0, 0, 1)));
    assert!(refused(|config| config.proxy.http_port = config.proxy.socks_port));
    assert!(refused(|config| config.tun.fail_closed = false));
    assert!(refused(|config| config.tun.routing_table = 254));
    assert!(refused(|config| config.tun.packet_mark = 0));
    assert!(refused(|config| config.general.healthcheck_url = "http://example.com".into()));
    assert!(refused(|config| config.core.repository = "no slash".into()));
}

#[test]
fn texts_are_ordered_and_numbers_read_back() {
    assert!(is_less("a", "b"));
    assert!(is_less("a", "aa"));
    assert!(!is_less("b", "a"));
    assert!(!is_less("a", "a"));
    assert_eq!(decimal_of(u64::MAX), u64::MAX.to_string());
    assert_eq!(signed_decimal_of(-42), "-42");
    assert_eq!(signed_decimal_of(i64::MIN), i64::MIN.to_string());
    assert_eq!(parse_unsigned("4294967295", 4294967295), Some(4294967295));
    assert_eq!(parse_unsigned("4294967296", 4294967295), None);
    assert_eq!(parse_unsigned("-1", 255), None);
    assert_eq!(parse_unsigned("+7", 255), Some(7));
    assert_eq!(parse_unsigned("", 255), None);
    assert_eq!(trim(" \u{2003}a\t"), "a");
    assert_eq!(split_whitespace("  a \n b  "), ["a", "b"]);
    assert_eq!(join(&vec!["a".into(), "b".into()], ", "), "a, b");
    assert_eq!(replace("aXbX", "X", "--"), "a--b--");
}

fn vmess(members: &str) -> String {
    let json = format!(r#"{{{members}"add":"a.example","port":443,"id":"{UUID}"}}"#);
    format!("vmess://{}", base64::engine::general_purpose::STANDARD.encode(json))
}

#[test]
fn a_vmess_field_stands_once() {
    assert_eq!(node(&vmess("")).server, "a.example");
    let twice = problem(&vmess(r#""add":"b.example","#));
    assert!(twice.contains("duplicate field `add`"), "{twice}");
    assert!(problem(&vmess(r#""\u0061dd":"b.example","#)).contains("duplicate field `add`"));
    assert!(problem(&vmess(r#""aid":1,"aid":1,"#)).contains("duplicate field `aid`"));
}

#[test]
fn other_members_of_a_vmess_link_are_passed_over() {
    let deep = format!(r#""x":{}{},"#, "[".repeat(300), "]".repeat(300));
    for members in [
        r#""v":1e999,"#,
        r#""v":"2","v":"3","#,
        r#""v":{"add":"b.example","add":"c.example"},"#,
        r#" "v" : [ 1 , {} ] , "#,
        r#""v":"\ud800","#,
        deep.as_str(),
    ] {
        assert_eq!(node(&vmess(members)).server, "a.example", "{members}");
    }
    assert_eq!(
        node(&vmess(r#""aid":{"b":1,"a":[2]},"#)).extra.get("alterId"),
        Some(&"{\"a\":[2],\"b\":1}".to_owned()),
    );
}

#[test]
fn a_malformed_vmess_object_is_refused() {
    let refused = |json: &str| {
        let link = base64::engine::general_purpose::STANDARD.encode(json);
        problem(&format!("vmess://{link}"))
    };
    let fields = format!(r#""add":"a.example","port":443,"id":"{UUID}""#);
    for json in [
        format!("{{{fields},}}"),
        format!("{{,{fields}}}"),
        format!("{{{fields}"),
        format!("{{{fields}}} x"),
        format!("{{{fields} \"v\":1}}"),
        format!("{{{fields},\"v\" 1}}"),
        format!("{{{fields},v:1}}"),
        format!("{{{fields},\"v\":01}}"),
        format!("{{{fields},\"aid\":1e999}}"),
        format!("{{{fields},\"v\":}}"),
    ] {
        assert!(refused(&json).contains("invalid VMess JSON"), "{json}");
    }
    let spaced = format!(" \n{{ {fields} }} \t\r\n");
    let link = base64::engine::general_purpose::STANDARD.encode(spaced);
    assert_eq!(node(&format!("vmess://{link}")).port, 443);
    let listed = format!(r#"["a.example",443,"{UUID}"]"#);
    let link = base64::engine::general_purpose::STANDARD.encode(listed);
    assert_eq!(node(&format!("vmess://{link}")).port, 443);
}

#[test]
fn the_listen_address_counts_its_loopback() {
    assert!(IpAddress::V4(127, 8, 9, 10).is_loopback());
    assert!(!IpAddress::V4(128, 0, 0, 1).is_loopback());
    assert_eq!(IpAddress::V4(10, 0, 0, 1).text(), "10.0.0.1");
    let local = IpAddress::V6 { bits: 1, text: "::1".into() };
    assert!(local.is_loopback());
    assert_eq!(local.text(), "::1");
    let other = IpAddress::V6 { bits: 2, text: "::2".into() };
    assert!(!other.is_loopback());
    assert_eq!(other.text(), "::2");
}

#[test]
fn a_subscription_is_switched_on_and_off() {
    let subscription = SubscriptionConfig {
        name: "main".into(),
        enabled: true,
        url: "https://secret.example/token".into(),
        format: "plain".into(),
    };
    let off = with_enabled(subscription, false);
    assert!(!off.enabled);
    assert_eq!(
        (off.name.as_str(), off.url.as_str(), off.format.as_str()),
        ("main", "https://secret.example/token", "plain")
    );
    assert!(with_enabled(off, true).enabled);
}
