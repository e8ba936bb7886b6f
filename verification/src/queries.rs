//! The answers to queries, as JSON.

use crate::config::{
    AppProfile, AppProfileView, AssetConfig, AssetConfigView, ManagerConfig, ManagerConfigView,
    MenuConfig, SubscriptionConfig, SubscriptionConfigView,
};
use crate::domain::{ManagerState, ManagerStateView, Protocol};
use crate::dto::{
    CheckStatus, DoctorCheckDto, DoctorCheckDtoView, NodeDto, NodeDtoView, StatusDto, StatusDtoView,
};
use crate::error::{ManagerError, ManagerErrorView};
use crate::json::{Json, JsonObject, JsonView};
use crate::planning::{Backends, BackendsView};
use crate::ports::{
    BackendSelection, BackendSelectionView, Capability, CapabilityStatus, CapabilityStatusView,
    ProbeResult, ProbeResultView, SelectionSource,
};
use crate::probe::{NodeProbeOutcome, NodeProbeOutcomeView};
use crate::routing::{RoutingConfig, RoutingConfigView, RoutingRule, RoutingRuleView};
use crate::text_map::TextMap;
use crate::config;
use crate::dto;
use crate::json;
use crate::ports;
use crate::probe;
use crate::render;
use crate::routing;
use crate::text;
use crate::text_map;
use vstd::prelude::*;

verus! {

/// The name of a protocol in JSON.
pub open spec fn protocol_key(p: Protocol) -> Seq<char> {
    match p {
        Protocol::Vless => "vless"@,
        Protocol::Vmess => "vmess"@,
        Protocol::Trojan => "trojan"@,
        Protocol::Shadowsocks => "shadowsocks"@,
        Protocol::Hysteria2 => "hysteria2"@,
    }
}

fn protocol_text(p: Protocol) -> (r: Json)
    ensures
        r@ == JsonView::Text(protocol_key(p)),
{
    match p {
        Protocol::Vless => json::text("vless"),
        Protocol::Vmess => json::text("vmess"),
        Protocol::Trojan => json::text("trojan"),
        Protocol::Shadowsocks => json::text("shadowsocks"),
        Protocol::Hysteria2 => json::text("hysteria2"),
    }
}

/// The name of a selection source in JSON.
pub open spec fn source_key(s: SelectionSource) -> Seq<char> {
    match s {
        SelectionSource::Cli => "cli"@,
        SelectionSource::Config => "config"@,
        SelectionSource::InstalledState => "installed_state"@,
        SelectionSource::Automatic => "automatic"@,
    }
}

fn source_text(s: SelectionSource) -> (r: Json)
    ensures
        r@ == JsonView::Text(source_key(s)),
{
    match s {
        SelectionSource::Cli => json::text("cli"),
        SelectionSource::Config => json::text("config"),
        SelectionSource::InstalledState => json::text("installed_state"),
        SelectionSource::Automatic => json::text("automatic"),
    }
}

/// The name of a check status in JSON.
pub open spec fn status_key(s: CheckStatus) -> Seq<char> {
    match s {
        CheckStatus::Pass => "PASS"@,
        CheckStatus::Warn => "WARN"@,
        CheckStatus::Fail => "FAIL"@,
    }
}

fn status_text(s: CheckStatus) -> (r: Json)
    ensures
        r@ == JsonView::Text(status_key(s)),
{
    match s {
        CheckStatus::Pass => json::text("PASS"),
        CheckStatus::Warn => json::text("WARN"),
        CheckStatus::Fail => json::text("FAIL"),
    }
}

/// What is shown of a node.
pub open spec fn node_json_view(x: NodeDtoView) -> JsonView {
    JsonView::Object(
        render::no_members().insert("id"@, JsonView::Text(x.id)).insert("subscription"@, JsonView::Text(x.subscription)).insert("name"@, JsonView::Text(x.name)).insert("protocol"@, JsonView::Text(protocol_key(x.protocol))).insert("endpoint"@, JsonView::Text(x.endpoint)).insert("support"@, JsonView::Text(x.support)).insert("warnings"@, json::texts_view(x.warnings)),
    )
}

/// What is shown of a node.
pub fn node_json(x: &NodeDto) -> (r: Json)
    ensures
        r@ == node_json_view(x@),
{
    Json::Object(
        JsonObject::new().with("id", json::text(x.id.as_str())).with("subscription", json::text(x.subscription.as_str())).with("name", json::text(x.name.as_str())).with("protocol", protocol_text(x.protocol)).with("endpoint", json::text(x.endpoint.as_str())).with("support", json::text(x.support.as_str())).with("warnings", json::text_array(&x.warnings)),
    )
}

/// What is shown of nodes.
pub open spec fn nodes_json_view(v: Seq<NodeDtoView>) -> JsonView {
    JsonView::Array(v.map_values(|x: NodeDtoView| node_json_view(x)))
}

/// What is shown of nodes.
pub fn nodes_json(v: &Vec<NodeDto>) -> (r: Json)
    ensures
        r@ == nodes_json_view(dto::node_dto_views(v@)),
{
    let ghost want = dto::node_dto_views(v@).map_values(|x: NodeDtoView| node_json_view(x));
    let mut items: Vec<Json> = Vec::new();
    let mut i: usize = 0;
    assert(want.take(0) =~= json::array_view(items@));
    while i < v.len()
        invariant
            i <= v@.len(),
            want == dto::node_dto_views(v@).map_values(|x: NodeDtoView| node_json_view(x)),
            json::array_view(items@) == want.take(i as int),
        decreases v@.len() - i,
    {
        json::push_item(&mut items, node_json(&v[i]));
        assert(want.take(i + 1) =~= want.take(i as int).push(want[i as int]));
        i += 1;
    }
    assert(want.take(want.len() as int) =~= want);
    Json::Array(items)
}

/// A chosen backend.
pub open spec fn selection_json_view(x: BackendSelectionView) -> JsonView {
    JsonView::Object(
        render::no_members().insert("capability"@, JsonView::Text(ports::capability_name(x.capability))).insert("backend_id"@, JsonView::Text(x.backend_id)).insert("source"@, JsonView::Text(source_key(x.source))),
    )
}

/// A chosen backend.
pub fn selection_json(x: &BackendSelection) -> (r: Json)
    ensures
        r@ == selection_json_view(x@),
{
    Json::Object(
        JsonObject::new().with("capability", json::text(x.capability.name())).with("backend_id", json::text(x.backend_id.as_str())).with("source", source_text(x.source)),
    )
}

/// The chosen backends.
pub open spec fn selections_json_view(v: Seq<BackendSelectionView>) -> JsonView {
    JsonView::Array(v.map_values(|x: BackendSelectionView| selection_json_view(x)))
}

/// The chosen backends.
pub fn selections_json(v: &Vec<BackendSelection>) -> (r: Json)
    ensures
        r@ == selections_json_view(ports::backend_selection_views(v@)),
{
    let ghost want = ports::backend_selection_views(v@).map_values(|x: BackendSelectionView| selection_json_view(x));
    let mut items: Vec<Json> = Vec::new();
    let mut i: usize = 0;
    assert(want.take(0) =~= json::array_view(items@));
    while i < v.len()
        invariant
            i <= v@.len(),
            want == ports::backend_selection_views(v@).map_values(|x: BackendSelectionView| selection_json_view(x)),
            json::array_view(items@) == want.take(i as int),
        decreases v@.len() - i,
    {
        json::push_item(&mut items, selection_json(&v[i]));
        assert(want.take(i + 1) =~= want.take(i as int).push(want[i as int]));
        i += 1;
    }
    assert(want.take(want.len() as int) =~= want);
    Json::Array(items)
}

/// The status of a capability.
pub open spec fn capability_json_view(x: CapabilityStatusView) -> JsonView {
    JsonView::Object(
        render::no_members().insert("capability"@, JsonView::Text(ports::capability_name(x.capability))).insert("supported"@, JsonView::Bool(x.supported)).insert("backend_id"@, json::opt_view(x.backend_id)).insert("reason"@, json::opt_view(x.reason)),
    )
}

/// The status of a capability.
pub fn capability_json(x: &CapabilityStatus) -> (r: Json)
    ensures
        r@ == capability_json_view(x@),
{
    Json::Object(
        JsonObject::new().with("capability", json::text(x.capability.name())).with("supported", Json::Bool(x.supported)).with("backend_id", json::optional(&x.backend_id)).with("reason", json::optional(&x.reason)),
    )
}

/// The status of capabilities.
pub open spec fn capabilities_json_view(v: Seq<CapabilityStatusView>) -> JsonView {
    JsonView::Array(v.map_values(|x: CapabilityStatusView| capability_json_view(x)))
}

/// The status of capabilities.
pub fn capabilities_json(v: &Vec<CapabilityStatus>) -> (r: Json)
    ensures
        r@ == capabilities_json_view(ports::capability_status_views(v@)),
{
    let ghost want = ports::capability_status_views(v@).map_values(|x: CapabilityStatusView| capability_json_view(x));
    let mut items: Vec<Json> = Vec::new();
    let mut i: usize = 0;
    assert(want.take(0) =~= json::array_view(items@));
    while i < v.len()
        invariant
            i <= v@.len(),
            want == ports::capability_status_views(v@).map_values(|x: CapabilityStatusView| capability_json_view(x)),
            json::array_view(items@) == want.take(i as int),
        decreases v@.len() - i,
    {
        json::push_item(&mut items, capability_json(&v[i]));
        assert(want.take(i + 1) =~= want.take(i as int).push(want[i as int]));
        i += 1;
    }
    assert(want.take(want.len() as int) =~= want);
    Json::Array(items)
}

/// The state of the installation.
pub open spec fn status_json_view(x: StatusDtoView) -> JsonView {
    JsonView::Object(
        render::no_members().insert("installed"@, JsonView::Bool(x.installed)).insert("selected_node"@, json::opt_view(x.selected_node)).insert("core_version"@, json::opt_view(x.core_version)).insert("asset_generation"@, json::opt_view(x.asset_generation)).insert("backends"@, selections_json_view(x.backends)).insert("capabilities"@, capabilities_json_view(x.capabilities)),
    )
}

/// The state of the installation.
pub fn status_json(x: &StatusDto) -> (r: Json)
    ensures
        r@ == status_json_view(x@),
{
    Json::Object(
        JsonObject::new().with("installed", Json::Bool(x.installed)).with("selected_node", json::optional(&x.selected_node)).with("core_version", json::optional(&x.core_version)).with("asset_generation", json::optional(&x.asset_generation)).with("backends", selections_json(&x.backends)).with("capabilities", capabilities_json(&x.capabilities)),
    )
}

/// One check of the doctor.
pub open spec fn check_json_view(x: DoctorCheckDtoView) -> JsonView {
    JsonView::Object(
        render::no_members().insert("id"@, JsonView::Text(x.id)).insert("status"@, JsonView::Text(status_key(x.status))).insert("message"@, JsonView::Text(x.message)).insert("remediation"@, json::opt_view(x.remediation)),
    )
}

/// One check of the doctor.
pub fn check_json(x: &DoctorCheckDto) -> (r: Json)
    ensures
        r@ == check_json_view(x@),
{
    Json::Object(
        JsonObject::new().with("id", json::text(x.id.as_str())).with("status", status_text(x.status)).with("message", json::text(x.message.as_str())).with("remediation", json::optional(&x.remediation)),
    )
}

/// The checks of the doctor.
pub open spec fn checks_json_view(v: Seq<DoctorCheckDtoView>) -> JsonView {
    JsonView::Array(v.map_values(|x: DoctorCheckDtoView| check_json_view(x)))
}

/// The checks of the doctor.
pub fn checks_json(v: &Vec<DoctorCheckDto>) -> (r: Json)
    ensures
        r@ == checks_json_view(dto::doctor_check_dto_views(v@)),
{
    let ghost want = dto::doctor_check_dto_views(v@).map_values(|x: DoctorCheckDtoView| check_json_view(x));
    let mut items: Vec<Json> = Vec::new();
    let mut i: usize = 0;
    assert(want.take(0) =~= json::array_view(items@));
    while i < v.len()
        invariant
            i <= v@.len(),
            want == dto::doctor_check_dto_views(v@).map_values(|x: DoctorCheckDtoView| check_json_view(x)),
            json::array_view(items@) == want.take(i as int),
        decreases v@.len() - i,
    {
        json::push_item(&mut items, check_json(&v[i]));
        assert(want.take(i + 1) =~= want.take(i as int).push(want[i as int]));
        i += 1;
    }
    assert(want.take(want.len() as int) =~= want);
    Json::Array(items)
}

/// The answer of the doctor.
pub open spec fn doctor_json_view(checks: Seq<DoctorCheckDtoView>, x: BackendsView) -> JsonView {
    JsonView::Object(
        render::no_members().insert("checks"@, checks_json_view(checks)).insert("backends"@, selections_json_view(x.selections)).insert("capabilities"@, capabilities_json_view(x.capabilities)),
    )
}

/// The answer of the doctor.
pub fn doctor_json(checks: &Vec<DoctorCheckDto>, x: &Backends) -> (r: Json)
    ensures
        r@ == doctor_json_view(dto::doctor_check_dto_views(checks@), x@),
{
    Json::Object(
        JsonObject::new().with("checks", checks_json(checks)).with("backends", selections_json(&x.selections)).with("capabilities", capabilities_json(&x.capabilities)),
    )
}

/// The selected node.
pub open spec fn current_node_json_view(x: ManagerStateView) -> JsonView {
    JsonView::Object(
        render::no_members().insert("selected_node"@, json::opt_view(x.selected_node_id)),
    )
}

/// The selected node.
pub fn current_node_json(x: &ManagerState) -> (r: Json)
    ensures
        r@ == current_node_json_view(x@),
{
    Json::Object(
        JsonObject::new().with("selected_node", json::optional(&x.selected_node_id)),
    )
}

/// The asset generations.
pub open spec fn assets_json_view(x: ManagerStateView) -> JsonView {
    JsonView::Object(
        render::no_members().insert("current"@, json::opt_view(x.current_asset_generation)).insert("previous"@, json::opt_view(x.previous_asset_generation)),
    )
}

/// The asset generations.
pub fn assets_json(x: &ManagerState) -> (r: Json)
    ensures
        r@ == assets_json_view(x@),
{
    Json::Object(
        JsonObject::new().with("current", json::optional(&x.current_asset_generation)).with("previous", json::optional(&x.previous_asset_generation)),
    )
}

/// The core versions.
pub open spec fn core_json_view(x: ManagerStateView) -> JsonView {
    JsonView::Object(
        render::no_members().insert("current"@, json::opt_view(x.current_core_version)).insert("previous"@, json::opt_view(x.previous_core_version)),
    )
}

/// The core versions.
pub fn core_json(x: &ManagerState) -> (r: Json)
    ensures
        r@ == core_json_view(x@),
{
    Json::Object(
        JsonObject::new().with("current", json::optional(&x.current_core_version)).with("previous", json::optional(&x.previous_core_version)),
    )
}

/// A routing rule.
pub open spec fn rule_answer_view(x: RoutingRuleView) -> JsonView {
    JsonView::Object(
        render::no_members().insert("name"@, JsonView::Text(x.name)).insert("enabled"@, JsonView::Bool(x.enabled)).insert("domain"@, json::texts_view(x.domain)).insert("ip"@, json::texts_view(x.ip)).insert("port"@, json::opt_view(x.port)).insert("source_port"@, json::opt_view(x.source_port)).insert("local_port"@, json::opt_view(x.local_port)).insert("network"@, json::opt_view(x.network)).insert("source_ip"@, json::texts_view(x.source_ip)).insert("local_ip"@, json::texts_view(x.local_ip)).insert("inbound_tag"@, json::texts_view(x.inbound_tag)).insert("protocol"@, json::texts_view(x.protocol)).insert("process"@, json::texts_view(x.process)).insert("outbound"@, JsonView::Text(x.outbound)),
    )
}

/// A routing rule.
pub fn rule_answer(x: &RoutingRule) -> (r: Json)
    ensures
        r@ == rule_answer_view(x@),
{
    Json::Object(
        JsonObject::new().with("name", json::text(x.name.as_str())).with("enabled", Json::Bool(x.enabled)).with("domain", json::text_array(&x.domain)).with("ip", json::text_array(&x.ip)).with("port", json::optional(&x.port)).with("source_port", json::optional(&x.source_port)).with("local_port", json::optional(&x.local_port)).with("network", json::optional(&x.network)).with("source_ip", json::text_array(&x.source_ip)).with("local_ip", json::text_array(&x.local_ip)).with("inbound_tag", json::text_array(&x.inbound_tag)).with("protocol", json::text_array(&x.protocol)).with("process", json::text_array(&x.process)).with("outbound", json::text(x.outbound.as_str())),
    )
}

/// The routing rules.
pub open spec fn rules_answer_view(v: Seq<RoutingRuleView>) -> JsonView {
    JsonView::Array(v.map_values(|x: RoutingRuleView| rule_answer_view(x)))
}

/// The routing rules.
pub fn rules_answer(v: &Vec<RoutingRule>) -> (r: Json)
    ensures
        r@ == rules_answer_view(routing::routing_rule_views(v@)),
{
    let ghost want = routing::routing_rule_views(v@).map_values(|x: RoutingRuleView| rule_answer_view(x));
    let mut items: Vec<Json> = Vec::new();
    let mut i: usize = 0;
    assert(want.take(0) =~= json::array_view(items@));
    while i < v.len()
        invariant
            i <= v@.len(),
            want == routing::routing_rule_views(v@).map_values(|x: RoutingRuleView| rule_answer_view(x)),
            json::array_view(items@) == want.take(i as int),
        decreases v@.len() - i,
    {
        json::push_item(&mut items, rule_answer(&v[i]));
        assert(want.take(i + 1) =~= want.take(i as int).push(want[i as int]));
        i += 1;
    }
    assert(want.take(want.len() as int) =~= want);
    Json::Array(items)
}

/// The routing configuration.
pub open spec fn routing_answer_view(x: RoutingConfigView) -> JsonView {
    JsonView::Object(
        render::no_members().insert("domain_strategy"@, JsonView::Text(x.domain_strategy)).insert("default_outbound"@, JsonView::Text(x.default_outbound)).insert("rules"@, rules_answer_view(x.rules)),
    )
}

/// The routing configuration.
pub fn routing_answer(x: &RoutingConfig) -> (r: Json)
    ensures
        r@ == routing_answer_view(x@),
{
    Json::Object(
        JsonObject::new().with("domain_strategy", json::text(x.domain_strategy.as_str())).with("default_outbound", json::text(x.default_outbound.as_str())).with("rules", rules_answer(&x.rules)),
    )
}

/// The routing configuration and its file.
pub open spec fn routing_with_path_view(path: Seq<char>, x: RoutingConfigView) -> JsonView {
    JsonView::Object(
        render::no_members().insert("path"@, JsonView::Text(path)).insert("routing"@, routing_answer_view(x)),
    )
}

/// The routing configuration and its file.
pub fn routing_with_path(path: &str, x: &RoutingConfig) -> (r: Json)
    ensures
        r@ == routing_with_path_view(path@, x@),
{
    Json::Object(
        JsonObject::new().with("path", json::text(path)).with("routing", routing_answer(x)),
    )
}

/// The answer to a validated routing file.
pub open spec fn routing_valid_view(path: Seq<char>) -> JsonView {
    JsonView::Object(
        render::no_members().insert("valid"@, JsonView::Bool(true)).insert("path"@, JsonView::Text(path)),
    )
}

/// The answer to a validated routing file.
pub fn routing_valid(path: &str) -> (r: Json)
    ensures
        r@ == routing_valid_view(path@),
{
    Json::Object(
        JsonObject::new().with("valid", Json::Bool(true)).with("path", json::text(path)),
    )
}

/// The routing rules and the default outbound.
pub open spec fn routing_explained_view(path: Seq<char>, name: Option<Seq<char>>, x: RoutingConfigView) -> JsonView {
    JsonView::Object(
        render::no_members().insert("path"@, JsonView::Text(path)).insert("node"@, json::opt_view(name)).insert("default"@, JsonView::Text(x.default_outbound)).insert("rules"@, rules_answer_view(x.rules)),
    )
}

/// The routing rules and the default outbound.
pub fn routing_explained(path: &str, name: &Option<String>, x: &RoutingConfig) -> (r: Json)
    ensures
        r@ == routing_explained_view(path@, text::opt_text(*name), x@),
{
    Json::Object(
        JsonObject::new().with("path", json::text(path)).with("node", json::optional(name)).with("default", json::text(x.default_outbound.as_str())).with("rules", rules_answer(&x.rules)),
    )
}

/// The names of the routing presets.
pub open spec fn presets_json_view() -> JsonView {
    json::texts_view(seq!["global-proxy"@, "runet-blocked-only"@, "ru-direct"@])
}

/// The names of the routing presets.
pub fn presets_json() -> (r: Json)
    ensures
        r@ == presets_json_view(),
{
    let names: Vec<String> = vec![
        text::owned("global-proxy"),
        text::owned("runet-blocked-only"),
        text::owned("ru-direct"),
    ];
    assert(text::texts(names@) =~= seq!["global-proxy"@, "runet-blocked-only"@, "ru-direct"@]);
    json::text_array(&names)
}

/// Every preset that is listed exists, and no other does.
pub proof fn law_listed_presets_exist(name: Seq<char>)
    ensures
        routing::preset_config(name) is Some <==> seq![
            "global-proxy"@,
            "runet-blocked-only"@,
            "ru-direct"@,
        ].contains(name),
{
    let listed = seq!["global-proxy"@, "runet-blocked-only"@, "ru-direct"@];
    assert(listed[0] == "global-proxy"@);
    assert(listed[1] == "runet-blocked-only"@);
    assert(listed[2] == "ru-direct"@);
    if routing::preset_config(name) is Some {
        assert(listed.contains(name));
    }
}

/// The service log.
pub open spec fn logs_json_view(logs: Seq<char>) -> JsonView {
    JsonView::Object(
        render::no_members().insert("logs"@, JsonView::Text(logs)),
    )
}

/// The service log.
pub fn logs_json(logs: &str) -> (r: Json)
    ensures
        r@ == logs_json_view(logs@),
{
    Json::Object(
        JsonObject::new().with("logs", json::text(logs)),
    )
}

/// Whether the service is active.
pub open spec fn active_json_view(active: bool) -> JsonView {
    JsonView::Object(
        render::no_members().insert("active"@, JsonView::Bool(active)),
    )
}

/// Whether the service is active.
pub fn active_json(active: bool) -> (r: Json)
    ensures
        r@ == active_json_view(active),
{
    Json::Object(
        JsonObject::new().with("active", Json::Bool(active)),
    )
}

/// The local proxy.
pub open spec fn proxy_json_view(x: ManagerConfigView) -> JsonView {
    JsonView::Object(
        render::no_members().insert("listen"@, JsonView::Text(x.proxy.listen.text())).insert("socks_port"@, json::number_view(x.proxy.socks_port as nat)).insert("http_port"@, json::number_view(x.proxy.http_port as nat)),
    )
}

/// The local proxy.
pub fn proxy_json(x: &ManagerConfig) -> (r: Json)
    ensures
        r@ == proxy_json_view(x@),
{
    Json::Object(
        JsonObject::new().with("listen", json::text(x.proxy.listen.text().as_str())).with("socks_port", json::number(x.proxy.socks_port as u64)).with("http_port", json::number(x.proxy.http_port as u64)),
    )
}

/// An endpoint of the local proxy, behind a scheme.
pub open spec fn proxy_endpoint(scheme: Seq<char>, c: ManagerConfigView, port: u16) -> Seq<char> {
    scheme + c.proxy.listen.text() + ":"@ + text::decimal(port as nat)
}

pub fn endpoint_of(scheme: &str, config: &ManagerConfig, port: u16) -> (r: String)
    ensures
        r@ == proxy_endpoint(scheme@, config@, port),
{
    let mut r = text::concat3(scheme, config.proxy.listen.text().as_str(), ":");
    r.append(text::decimal_of(port as u64).as_str());
    r
}

/// The environment variables of the local proxy.
pub open spec fn proxy_environment_view(x: ManagerConfigView) -> JsonView {
    JsonView::Object(
        render::no_members().insert("HTTP_PROXY"@, JsonView::Text(proxy_endpoint("http://"@, x, x.proxy.http_port))).insert("HTTPS_PROXY"@, JsonView::Text(proxy_endpoint("http://"@, x, x.proxy.http_port))).insert("ALL_PROXY"@, JsonView::Text(proxy_endpoint("socks5h://"@, x, x.proxy.socks_port))).insert("NO_PROXY"@, JsonView::Text("localhost,127.0.0.1,::1"@)),
    )
}

/// The environment variables of the local proxy.
pub fn proxy_environment(x: &ManagerConfig) -> (r: Json)
    ensures
        r@ == proxy_environment_view(x@),
{
    Json::Object(
        JsonObject::new().with("HTTP_PROXY", json::text(endpoint_of("http://", x, x.proxy.http_port).as_str())).with("HTTPS_PROXY", json::text(endpoint_of("http://", x, x.proxy.http_port).as_str())).with("ALL_PROXY", json::text(endpoint_of("socks5h://", x, x.proxy.socks_port).as_str())).with("NO_PROXY", json::text("localhost,127.0.0.1,::1")),
    )
}

/// The answer to a successful proxy test.
pub open spec fn proxy_tested_view(x: ManagerConfigView) -> JsonView {
    JsonView::Object(
        render::no_members().insert("ok"@, JsonView::Bool(true)).insert("service_active"@, JsonView::Bool(true)).insert("socks"@, JsonView::Text(proxy_endpoint(""@, x, x.proxy.socks_port))).insert("http"@, JsonView::Text(proxy_endpoint(""@, x, x.proxy.http_port))),
    )
}

/// The answer to a successful proxy test.
pub fn proxy_tested(x: &ManagerConfig) -> (r: Json)
    ensures
        r@ == proxy_tested_view(x@),
{
    Json::Object(
        JsonObject::new().with("ok", Json::Bool(true)).with("service_active", Json::Bool(true)).with("socks", json::text(endpoint_of("", x, x.proxy.socks_port).as_str())).with("http", json::text(endpoint_of("", x, x.proxy.http_port).as_str())),
    )
}

/// Whether TUN routing is among the supported capabilities.
pub open spec fn tun_supported(b: BackendsView) -> bool {
    exists|i: int|
        0 <= i < b.capabilities.len() && (#[trigger] b.capabilities[i]).capability
            == Capability::Tun && b.capabilities[i].supported
}

fn supports_tun(b: &Backends) -> (r: bool)
    ensures
        r == tun_supported(b@),
{
    let ghost views = ports::capability_status_views(b.capabilities@);
    let mut i: usize = 0;
    while i < b.capabilities.len()
        invariant
            i <= b.capabilities@.len(),
            views == ports::capability_status_views(b.capabilities@),
            forall|j: int|
                0 <= j < i ==> !((#[trigger] views[j]).capability == Capability::Tun
                    && views[j].supported),
        decreases b.capabilities@.len() - i,
    {
        assert(views[i as int] == b.capabilities@[i as int]@);
        if b.capabilities[i].capability == Capability::Tun && b.capabilities[i].supported {
            return true;
        }
        i += 1;
    }
    false
}

/// Whether TUN routing is supported and active.
pub open spec fn tun_status_json_view(x: BackendsView, active: bool) -> JsonView {
    JsonView::Object(
        render::no_members().insert("supported"@, JsonView::Bool(tun_supported(x))).insert("active"@, JsonView::Bool(active)),
    )
}

/// Whether TUN routing is supported and active.
pub fn tun_status_json(x: &Backends, active: bool) -> (r: Json)
    ensures
        r@ == tun_status_json_view(x@, active),
{
    Json::Object(
        JsonObject::new().with("supported", Json::Bool(supports_tun(x))).with("active", Json::Bool(active)),
    )
}

/// The firewall and routing rules.
pub open spec fn tun_rules_json_view(firewall: Seq<char>, policy: Seq<char>, x: ManagerConfigView) -> JsonView {
    JsonView::Object(
        render::no_members().insert("firewall"@, JsonView::Text(firewall)).insert("policy_routing"@, JsonView::Text(policy)).insert("routing_table"@, json::number_view(x.tun.routing_table as nat)).insert("packet_mark"@, json::number_view(x.tun.packet_mark as nat)),
    )
}

/// The firewall and routing rules.
pub fn tun_rules_json(firewall: &str, policy: &str, x: &ManagerConfig) -> (r: Json)
    ensures
        r@ == tun_rules_json_view(firewall@, policy@, x@),
{
    Json::Object(
        JsonObject::new().with("firewall", json::text(firewall)).with("policy_routing", json::text(policy)).with("routing_table", json::number(x.tun.routing_table as u64)).with("packet_mark", json::number(x.tun.packet_mark as u64)),
    )
}

/// Whether shown routing rules drop what leaves the TUN, for both families.
pub open spec fn fails_closed(policy: Seq<char>) -> bool {
    text::has_infix(policy, "blackhole default"@) && text::has_infix(policy, "unreachable default"@)
}

/// Whether shown routing rules drop what leaves the TUN.
pub fn is_fail_closed(policy: &str) -> (r: bool)
    ensures
        r == fails_closed(policy@),
{
    text::contains(policy, "blackhole default") && text::contains(policy, "unreachable default")
}

/// The answer of the TUN test.
pub open spec fn tun_test_json_view(policy_active: bool, interface_active: bool, firewall_present: bool, policy: Seq<char>, x: ManagerConfigView) -> JsonView {
    JsonView::Object(
        render::no_members().insert("ok"@, JsonView::Bool(policy_active && interface_active && firewall_present && x.tun.fail_closed && fails_closed(policy))).insert("policy_active"@, JsonView::Bool(policy_active)).insert("interface_active"@, JsonView::Bool(interface_active)).insert("firewall_present"@, JsonView::Bool(firewall_present)).insert("fail_closed"@, JsonView::Bool(x.tun.fail_closed)).insert("fail_closed_routes"@, JsonView::Bool(fails_closed(policy))),
    )
}

/// The answer of the TUN test.
pub fn tun_test_json(policy_active: bool, interface_active: bool, firewall_present: bool, policy: &str, x: &ManagerConfig) -> (r: Json)
    ensures
        r@ == tun_test_json_view(policy_active, interface_active, firewall_present, policy@, x@),
{
    Json::Object(
        JsonObject::new().with("ok", Json::Bool(policy_active && interface_active && firewall_present && x.tun.fail_closed && is_fail_closed(policy))).with("policy_active", Json::Bool(policy_active)).with("interface_active", Json::Bool(interface_active)).with("firewall_present", Json::Bool(firewall_present)).with("fail_closed", Json::Bool(x.tun.fail_closed)).with("fail_closed_routes", Json::Bool(is_fail_closed(policy))),
    )
}

/// What is shown of a subscription.
pub open spec fn subscription_json_view(x: SubscriptionConfigView) -> JsonView {
    JsonView::Object(
        render::no_members().insert("name"@, JsonView::Text(x.name)).insert("enabled"@, JsonView::Bool(x.enabled)).insert("format"@, JsonView::Text(x.format)),
    )
}

/// What is shown of a subscription.
pub fn subscription_json(x: &SubscriptionConfig) -> (r: Json)
    ensures
        r@ == subscription_json_view(x@),
{
    Json::Object(
        JsonObject::new().with("name", json::text(x.name.as_str())).with("enabled", Json::Bool(x.enabled)).with("format", json::text(x.format.as_str())),
    )
}

/// What is shown of subscriptions.
pub open spec fn subscriptions_json_view(v: Seq<SubscriptionConfigView>) -> JsonView {
    JsonView::Array(v.map_values(|x: SubscriptionConfigView| subscription_json_view(x)))
}

/// What is shown of subscriptions.
pub fn subscriptions_json(v: &Vec<SubscriptionConfig>) -> (r: Json)
    ensures
        r@ == subscriptions_json_view(config::subscription_config_views(v@)),
{
    let ghost want = config::subscription_config_views(v@).map_values(|x: SubscriptionConfigView| subscription_json_view(x));
    let mut items: Vec<Json> = Vec::new();
    let mut i: usize = 0;
    assert(want.take(0) =~= json::array_view(items@));
    while i < v.len()
        invariant
            i <= v@.len(),
            want == config::subscription_config_views(v@).map_values(|x: SubscriptionConfigView| subscription_json_view(x)),
            json::array_view(items@) == want.take(i as int),
        decreases v@.len() - i,
    {
        json::push_item(&mut items, subscription_json(&v[i]));
        assert(want.take(i + 1) =~= want.take(i as int).push(want[i as int]));
        i += 1;
    }
    assert(want.take(want.len() as int) =~= want);
    Json::Array(items)
}

/// What is shown of a subscription is the same for any URL.
pub proof fn law_query_redacts_subscription_url(s: SubscriptionConfigView, url: Seq<char>)
    ensures
        subscription_json_view(s) == subscription_json_view(SubscriptionConfigView { url, ..s }),
{
}

/// An optional number in JSON.
pub open spec fn opt_number(o: Option<u64>) -> JsonView {
    match o {
        Some(n) => json::number_view(n as nat),
        None => JsonView::Null,
    }
}

fn optional_number(o: Option<u64>) -> (r: Json)
    ensures
        r@ == opt_number(o),
{
    match o {
        Some(n) => json::number(n),
        None => Json::Null,
    }
}

/// The outcome of a probe.
pub open spec fn probe_json_view(x: ProbeResultView) -> JsonView {
    JsonView::Object(
        render::no_members().insert("latency_ms"@, opt_number(x.latency_ms)).insert("error"@, json::opt_view(x.error)),
    )
}

/// The outcome of a probe.
pub fn probe_json(x: &ProbeResult) -> (r: Json)
    ensures
        r@ == probe_json_view(x@),
{
    Json::Object(
        JsonObject::new().with("latency_ms", optional_number(x.latency_ms)).with("error", json::optional(&x.error)),
    )
}

/// A probed node and its outcome.
pub open spec fn node_probe_json_view(node: NodeDtoView, x: ProbeResultView) -> JsonView {
    JsonView::Object(
        render::no_members().insert("node"@, node_json_view(node)).insert("probe"@, probe_json_view(x)),
    )
}

/// A probed node and its outcome.
pub fn node_probe_json(node: &NodeDto, x: &ProbeResult) -> (r: Json)
    ensures
        r@ == node_probe_json_view(node@, x@),
{
    Json::Object(
        JsonObject::new().with("node", node_json(node)).with("probe", probe_json(x)),
    )
}

/// A probed node by ID and its outcome.
pub open spec fn outcome_json_view(x: NodeProbeOutcomeView) -> JsonView {
    JsonView::Object(
        render::no_members().insert("node_id"@, JsonView::Text(x.node_id)).insert("result"@, probe_json_view(x.result)),
    )
}

/// A probed node by ID and its outcome.
pub fn outcome_json(x: &NodeProbeOutcome) -> (r: Json)
    ensures
        r@ == outcome_json_view(x@),
{
    Json::Object(
        JsonObject::new().with("node_id", json::text(x.node_id.as_str())).with("result", probe_json(&x.result)),
    )
}

/// The outcomes of probes.
pub open spec fn outcomes_json_view(v: Seq<NodeProbeOutcomeView>) -> JsonView {
    JsonView::Array(v.map_values(|x: NodeProbeOutcomeView| outcome_json_view(x)))
}

/// The outcomes of probes.
pub fn outcomes_json(v: &Vec<NodeProbeOutcome>) -> (r: Json)
    ensures
        r@ == outcomes_json_view(probe::node_probe_outcome_views(v@)),
{
    let ghost want = probe::node_probe_outcome_views(v@).map_values(|x: NodeProbeOutcomeView| outcome_json_view(x));
    let mut items: Vec<Json> = Vec::new();
    let mut i: usize = 0;
    assert(want.take(0) =~= json::array_view(items@));
    while i < v.len()
        invariant
            i <= v@.len(),
            want == probe::node_probe_outcome_views(v@).map_values(|x: NodeProbeOutcomeView| outcome_json_view(x)),
            json::array_view(items@) == want.take(i as int),
        decreases v@.len() - i,
    {
        json::push_item(&mut items, outcome_json(&v[i]));
        assert(want.take(i + 1) =~= want.take(i as int).push(want[i as int]));
        i += 1;
    }
    assert(want.take(want.len() as int) =~= want);
    Json::Array(items)
}

/// What is shown of an asset.
pub open spec fn asset_json_view(x: AssetConfigView) -> JsonView {
    JsonView::Object(
        render::no_members().insert("id"@, JsonView::Text(x.id)).insert("filename"@, JsonView::Text(x.filename)).insert("configured"@, JsonView::Bool(true)),
    )
}

/// What is shown of an asset.
pub fn asset_json(x: &AssetConfig) -> (r: Json)
    ensures
        r@ == asset_json_view(x@),
{
    Json::Object(
        JsonObject::new().with("id", json::text(x.id.as_str())).with("filename", json::text(x.filename.as_str())).with("configured", Json::Bool(true)),
    )
}

/// `i` is the first asset with the ID.
pub open spec fn first_asset(assets: Seq<AssetConfigView>, id: Seq<char>, i: int) -> bool {
    &&& 0 <= i < assets.len()
    &&& assets[i].id == id
    &&& forall|j: int| 0 <= j < i ==> (#[trigger] assets[j]).id != id
}

/// Finds an asset by ID.
pub fn find_asset(assets: &Vec<AssetConfig>, id: &str) -> (r: Result<usize, ManagerError>)
    ensures
        match r {
            Ok(i) => first_asset(config::asset_config_views(assets@), id@, i as int),
            Err(e) => (forall|j: int|
                0 <= j < assets@.len() ==> (#[trigger] config::asset_config_views(assets@)[j]).id != id@)
                && e@ == ManagerErrorView::InvalidConfig("asset '"@ + id@ + "' was not found"@),
        },
{
    let ghost views = config::asset_config_views(assets@);
    let mut i: usize = 0;
    while i < assets.len()
        invariant
            i <= assets@.len(),
            views == config::asset_config_views(assets@),
            forall|j: int| 0 <= j < i ==> (#[trigger] views[j]).id != id@,
        decreases assets@.len() - i,
    {
        assert(views[i as int] == assets@[i as int]@);
        if text::same(assets[i].id.as_str(), id) {
            return Ok(i);
        }
        i += 1;
    }
    Err(ManagerError::InvalidConfig(text::concat3("asset '", id, "' was not found")))
}

/// A core version and its role.
pub open spec fn core_entry(version: Option<Seq<char>>, role: Seq<char>) -> JsonView {
    JsonView::Object(
        render::no_members().insert("version"@, json::opt_view(version)).insert("role"@, JsonView::Text(role)),
    )
}

/// The installed core versions.
pub open spec fn core_list_json_view(x: ManagerStateView) -> JsonView {
    JsonView::Array(
        seq![
            core_entry(x.current_core_version, "current"@),
            core_entry(x.previous_core_version, "previous"@),
        ],
    )
}

/// The installed core versions.
pub fn core_list_json(x: &ManagerState) -> (r: Json)
    ensures
        r@ == core_list_json_view(x@),
{
    let mut items: Vec<Json> = Vec::new();
    json::push_item(
        &mut items,
        Json::Object(
            JsonObject::new().with("version", json::optional(&x.current_core_version)).with(
                "role",
                json::text("current"),
            ),
        ),
    );
    json::push_item(
        &mut items,
        Json::Object(
            JsonObject::new().with("version", json::optional(&x.previous_core_version)).with(
                "role",
                json::text("previous"),
            ),
        ),
    );
    assert(json::array_view(items@) =~= core_list_json_view(x@)->Array_0);
    Json::Array(items)
}

/// Checks that the proxy can be tested.
pub fn check_service_active(active: bool) -> (r: Result<(), ManagerError>)
    ensures
        match r {
            Ok(_) => active,
            Err(e) => !active && e@ == ManagerErrorView::Other("xray.service is not active"@),
        },
{
    if active {
        Ok(())
    } else {
        Err(ManagerError::Other(text::owned("xray.service is not active")))
    }
}

/// A map of texts in JSON.
pub open spec fn map_json_view(m: Map<Seq<char>, Seq<char>>) -> JsonView {
    JsonView::Object(m.map_values(|s: Seq<char>| JsonView::Text(s)))
}

/// A map of texts in JSON.
pub fn map_json(m: &TextMap) -> (r: Json)
    ensures
        r@ == map_json_view(m@),
{
    let n = m.len();
    let ghost keys = text_map::sorted_keys(m@);
    let mut object = JsonObject::new();
    let mut i: usize = 0;
    while i < n
        invariant
            n == keys.len(),
            i <= n,
            keys == text_map::sorted_keys(m@),
            text_map::lists_keys(keys, m@),
            forall|k: Seq<char>| #[trigger]
                object@.contains_key(k) <==> keys.take(i as int).contains(k),
            forall|k: Seq<char>| #[trigger]
                object@.contains_key(k) ==> m@.contains_key(k) && object@[k] == JsonView::Text(m@[k]),
        decreases n - i,
    {
        let (key, value) = m.entry(i);
        proof {
            text_map::lemma_take_next(keys, i as int);
        }
        object.insert(key.as_str(), json::text(value.as_str()));
        i += 1;
    }
    proof {
        assert(keys.take(n as int) =~= keys);
        assert(object@ =~= m@.map_values(|s: Seq<char>| JsonView::Text(s)));
    }
    Json::Object(object)
}

/// An application profile.
pub open spec fn profile_json_view(x: AppProfileView) -> JsonView {
    JsonView::Object(
        render::no_members().insert("name"@, JsonView::Text(x.name)).insert("command"@, json::texts_view(x.command)).insert("clear_proxy_environment"@, JsonView::Bool(x.clear_proxy_environment)).insert("override_dns"@, JsonView::Bool(x.override_dns)).insert("working_directory"@, json::opt_view(x.working_directory)).insert("environment"@, map_json_view(x.environment)),
    )
}

/// An application profile.
pub fn profile_json(x: &AppProfile) -> (r: Json)
    ensures
        r@ == profile_json_view(x@),
{
    Json::Object(
        JsonObject::new().with("name", json::text(x.name.as_str())).with("command", json::text_array(&x.command)).with("clear_proxy_environment", Json::Bool(x.clear_proxy_environment)).with("override_dns", Json::Bool(x.override_dns)).with("working_directory", json::optional(&x.working_directory)).with("environment", map_json(&x.environment)),
    )
}

/// The application profiles.
pub open spec fn profiles_json_view(v: Seq<AppProfileView>) -> JsonView {
    JsonView::Array(v.map_values(|x: AppProfileView| profile_json_view(x)))
}

/// The application profiles.
pub fn profiles_json(v: &Vec<AppProfile>) -> (r: Json)
    ensures
        r@ == profiles_json_view(config::app_profile_views(v@)),
{
    let ghost want = config::app_profile_views(v@).map_values(|x: AppProfileView| profile_json_view(x));
    let mut items: Vec<Json> = Vec::new();
    let mut i: usize = 0;
    assert(want.take(0) =~= json::array_view(items@));
    while i < v.len()
        invariant
            i <= v@.len(),
            want == config::app_profile_views(v@).map_values(|x: AppProfileView| profile_json_view(x)),
            json::array_view(items@) == want.take(i as int),
        decreases v@.len() - i,
    {
        json::push_item(&mut items, profile_json(&v[i]));
        assert(want.take(i + 1) =~= want.take(i as int).push(want[i as int]));
        i += 1;
    }
    assert(want.take(want.len() as int) =~= want);
    Json::Array(items)
}

/// The settings of the menu.
pub open spec fn menu_json_view(x: MenuConfig) -> JsonView {
    JsonView::Object(
        render::no_members().insert("probe_on_open"@, JsonView::Bool(x.probe_on_open)).insert("latency_green_ms"@, json::number_view(x.latency_green_ms as nat)).insert("latency_yellow_ms"@, json::number_view(x.latency_yellow_ms as nat)),
    )
}

/// The settings of the menu.
pub fn menu_json(x: MenuConfig) -> (r: Json)
    ensures
        r@ == menu_json_view(x),
{
    Json::Object(
        JsonObject::new().with("probe_on_open", Json::Bool(x.probe_on_open)).with("latency_green_ms", json::number(x.latency_green_ms as u64)).with("latency_yellow_ms", json::number(x.latency_yellow_ms as u64)),
    )
}

/// The state of the installation.
pub open spec fn status_of(s: ManagerStateView, b: BackendsView) -> StatusDtoView {
    StatusDtoView {
        installed: s.current_core_version is Some,
        selected_node: s.selected_node_id,
        core_version: s.current_core_version,
        asset_generation: s.current_asset_generation,
        backends: b.selections,
        capabilities: b.capabilities,
    }
}

} // verus!
