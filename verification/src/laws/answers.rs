//! What the answers to questions hold, by the names that scripts read.

use crate::config::{AppProfileView, AssetConfigView, ManagerConfigView, MenuConfig, SubscriptionConfigView};
use crate::domain::{ManagerStateView, Protocol};
use crate::dto::{CheckStatus, DoctorCheckDtoView, NodeDtoView, StatusDtoView};
use crate::json::JsonView;
use crate::json;
use crate::laws::reading::{item, mark, member, text};
use crate::planning::BackendsView;
use crate::ports::{BackendSelectionView, CapabilityStatusView, ProbeResultView, SelectionSource};
use crate::ports;
use crate::probe::NodeProbeOutcomeView;
use crate::queries;
use crate::routing::{RoutingConfigView, RoutingRuleView};
use crate::text::{decimal, has_infix};
use vstd::prelude::*;

verus! {

proof fn lemma_keys()
    ensures
        mark("ALL_PROXY"@) == (9int, 'A', '_', 'P', 'O', 'Y'),
        mark("HTTPS_PROXY"@) == (11int, 'H', 'P', '_', 'O', 'Y'),
        mark("HTTP_PROXY"@) == (10int, 'H', 'P', 'P', 'O', 'Y'),
        mark("NO_PROXY"@) == (8int, 'N', '_', 'R', 'X', 'Y'),
        mark("active"@) == (6int, 'a', 't', 'i', 'v', 'e'),
        mark("asset_generation"@) == (16int, 'a', '_', 'n', 't', 'n'),
        mark("backend_id"@) == (10int, 'b', 'k', 'n', '_', 'd'),
        mark("backends"@) == (8int, 'b', 'c', 'e', 'd', 's'),
        mark("capabilities"@) == (12int, 'c', 'b', 'l', 'i', 's'),
        mark("capability"@) == (10int, 'c', 'a', 'i', 'i', 'y'),
        mark("checks"@) == (6int, 'c', 'e', 'c', 'k', 's'),
        mark("clear_proxy_environment"@) == (23int, 'c', 'r', '_', 'o', 't'),
        mark("command"@) == (7int, 'c', 'm', 'm', 'n', 'd'),
        mark("configured"@) == (10int, 'c', 'f', 'g', 'r', 'd'),
        mark("core_version"@) == (12int, 'c', '_', 'e', 'i', 'n'),
        mark("current"@) == (7int, 'c', 'r', 'r', 'n', 't'),
        mark("default"@) == (7int, 'd', 'f', 'a', 'l', 't'),
        mark("default_outbound"@) == (16int, 'd', 'l', 'o', 'o', 'd'),
        mark("domain"@) == (6int, 'd', 'm', 'a', 'i', 'n'),
        mark("domain_strategy"@) == (15int, 'd', 'n', 's', 't', 'y'),
        mark("enabled"@) == (7int, 'e', 'a', 'b', 'e', 'd'),
        mark("endpoint"@) == (8int, 'e', 'd', 'o', 'n', 't'),
        mark("environment"@) == (11int, 'e', 'i', 'o', 'e', 't'),
        mark("error"@) == (5int, 'e', 'r', 'r', 'o', 'r'),
        mark("fail_closed"@) == (11int, 'f', 'l', 'c', 's', 'd'),
        mark("fail_closed_routes"@) == (18int, 'f', 'l', 'e', 'o', 's'),
        mark("filename"@) == (8int, 'f', 'l', 'n', 'm', 'e'),
        mark("firewall"@) == (8int, 'f', 'r', 'w', 'l', 'l'),
        mark("firewall_present"@) == (16int, 'f', 'a', '_', 's', 't'),
        mark("format"@) == (6int, 'f', 'r', 'm', 'a', 't'),
        mark("http"@) == (4int, 'h', 't', 't', 'p', 'p'),
        mark("http_port"@) == (9int, 'h', 'p', '_', 'o', 't'),
        mark("id"@) == (2int, 'i', 'i', 'd', 'd', 'd'),
        mark("inbound_tag"@) == (11int, 'i', 'o', 'n', 't', 'g'),
        mark("installed"@) == (9int, 'i', 't', 'a', 'l', 'd'),
        mark("interface_active"@) == (16int, 'i', 'f', 'e', 't', 'e'),
        mark("ip"@) == (2int, 'i', 'i', 'p', 'p', 'p'),
        mark("latency_green_ms"@) == (16int, 'l', 'c', 'g', 'n', 's'),
        mark("latency_ms"@) == (10int, 'l', 'e', 'c', '_', 's'),
        mark("latency_yellow_ms"@) == (17int, 'l', 'c', 'y', 'o', 's'),
        mark("listen"@) == (6int, 'l', 's', 't', 'e', 'n'),
        mark("local_ip"@) == (8int, 'l', 'c', 'l', 'i', 'p'),
        mark("local_port"@) == (10int, 'l', 'a', '_', 'o', 't'),
        mark("logs"@) == (4int, 'l', 'o', 'g', 's', 's'),
        mark("message"@) == (7int, 'm', 's', 's', 'g', 'e'),
        mark("name"@) == (4int, 'n', 'a', 'm', 'e', 'e'),
        mark("network"@) == (7int, 'n', 't', 'w', 'r', 'k'),
        mark("node"@) == (4int, 'n', 'o', 'd', 'e', 'e'),
        mark("node_id"@) == (7int, 'n', 'd', 'e', 'i', 'd'),
        mark("ok"@) == (2int, 'o', 'o', 'k', 'k', 'k'),
        mark("outbound"@) == (8int, 'o', 't', 'o', 'n', 'd'),
        mark("override_dns"@) == (12int, 'o', 'r', 'd', 'd', 's'),
        mark("packet_mark"@) == (11int, 'p', 'k', 't', 'a', 'k'),
        mark("path"@) == (4int, 'p', 'a', 't', 'h', 'h'),
        mark("policy_active"@) == (13int, 'p', 'c', '_', 't', 'e'),
        mark("policy_routing"@) == (14int, 'p', 'c', 'r', 't', 'g'),
        mark("port"@) == (4int, 'p', 'o', 'r', 't', 't'),
        mark("previous"@) == (8int, 'p', 'e', 'i', 'u', 's'),
        mark("probe"@) == (5int, 'p', 'r', 'o', 'b', 'e'),
        mark("probe_on_open"@) == (13int, 'p', 'e', 'o', 'o', 'n'),
        mark("process"@) == (7int, 'p', 'o', 'c', 's', 's'),
        mark("protocol"@) == (8int, 'p', 'o', 'o', 'o', 'l'),
        mark("reason"@) == (6int, 'r', 'a', 's', 'o', 'n'),
        mark("remediation"@) == (11int, 'r', 'e', 'i', 'i', 'n'),
        mark("result"@) == (6int, 'r', 's', 'u', 'l', 't'),
        mark("role"@) == (4int, 'r', 'o', 'l', 'e', 'e'),
        mark("routing"@) == (7int, 'r', 'u', 't', 'n', 'g'),
        mark("routing_table"@) == (13int, 'r', 'i', 'g', 'a', 'e'),
        mark("rules"@) == (5int, 'r', 'u', 'l', 'e', 's'),
        mark("selected_node"@) == (13int, 's', 'c', 'e', 'n', 'e'),
        mark("service_active"@) == (14int, 's', 'i', '_', 't', 'e'),
        mark("socks"@) == (5int, 's', 'o', 'c', 'k', 's'),
        mark("socks_port"@) == (10int, 's', 'k', '_', 'o', 't'),
        mark("source"@) == (6int, 's', 'u', 'r', 'c', 'e'),
        mark("source_ip"@) == (9int, 's', 'r', 'c', '_', 'p'),
        mark("source_port"@) == (11int, 's', 'r', 'e', 'o', 't'),
        mark("status"@) == (6int, 's', 'a', 't', 'u', 's'),
        mark("subscription"@) == (12int, 's', 'c', 'i', 'i', 'n'),
        mark("support"@) == (7int, 's', 'p', 'p', 'r', 't'),
        mark("supported"@) == (9int, 's', 'p', 'o', 't', 'd'),
        mark("valid"@) == (5int, 'v', 'a', 'l', 'i', 'd'),
        mark("version"@) == (7int, 'v', 'r', 's', 'o', 'n'),
        mark("warnings"@) == (8int, 'w', 'r', 'i', 'g', 's'),
        mark("working_directory"@) == (17int, 'w', 'n', 'd', 'c', 'y'),
{
    reveal_strlit("ALL_PROXY");
    reveal_strlit("HTTPS_PROXY");
    reveal_strlit("HTTP_PROXY");
    reveal_strlit("NO_PROXY");
    reveal_strlit("active");
    reveal_strlit("asset_generation");
    reveal_strlit("backend_id");
    reveal_strlit("backends");
    reveal_strlit("capabilities");
    reveal_strlit("capability");
    reveal_strlit("checks");
    reveal_strlit("clear_proxy_environment");
    reveal_strlit("command");
    reveal_strlit("configured");
    reveal_strlit("core_version");
    reveal_strlit("current");
    reveal_strlit("default");
    reveal_strlit("default_outbound");
    reveal_strlit("domain");
    reveal_strlit("domain_strategy");
    reveal_strlit("enabled");
    reveal_strlit("endpoint");
    reveal_strlit("environment");
    reveal_strlit("error");
    reveal_strlit("fail_closed");
    reveal_strlit("fail_closed_routes");
    reveal_strlit("filename");
    reveal_strlit("firewall");
    reveal_strlit("firewall_present");
    reveal_strlit("format");
    reveal_strlit("http");
    reveal_strlit("http_port");
    reveal_strlit("id");
    reveal_strlit("inbound_tag");
    reveal_strlit("installed");
    reveal_strlit("interface_active");
    reveal_strlit("ip");
    reveal_strlit("latency_green_ms");
    reveal_strlit("latency_ms");
    reveal_strlit("latency_yellow_ms");
    reveal_strlit("listen");
    reveal_strlit("local_ip");
    reveal_strlit("local_port");
    reveal_strlit("logs");
    reveal_strlit("message");
    reveal_strlit("name");
    reveal_strlit("network");
    reveal_strlit("node");
    reveal_strlit("node_id");
    reveal_strlit("ok");
    reveal_strlit("outbound");
    reveal_strlit("override_dns");
    reveal_strlit("packet_mark");
    reveal_strlit("path");
    reveal_strlit("policy_active");
    reveal_strlit("policy_routing");
    reveal_strlit("port");
    reveal_strlit("previous");
    reveal_strlit("probe");
    reveal_strlit("probe_on_open");
    reveal_strlit("process");
    reveal_strlit("protocol");
    reveal_strlit("reason");
    reveal_strlit("remediation");
    reveal_strlit("result");
    reveal_strlit("role");
    reveal_strlit("routing");
    reveal_strlit("routing_table");
    reveal_strlit("rules");
    reveal_strlit("selected_node");
    reveal_strlit("service_active");
    reveal_strlit("socks");
    reveal_strlit("socks_port");
    reveal_strlit("source");
    reveal_strlit("source_ip");
    reveal_strlit("source_port");
    reveal_strlit("status");
    reveal_strlit("subscription");
    reveal_strlit("support");
    reveal_strlit("supported");
    reveal_strlit("valid");
    reveal_strlit("version");
    reveal_strlit("warnings");
    reveal_strlit("working_directory");
}

/// The members of the answer on a node.
pub proof fn law_answer_node(x: NodeDtoView)
    ensures
        member(Some(queries::node_json_view(x)), "id"@) == Some(JsonView::Text(x.id)),
        member(Some(queries::node_json_view(x)), "subscription"@) == Some(JsonView::Text(x.subscription)),
        member(Some(queries::node_json_view(x)), "name"@) == Some(JsonView::Text(x.name)),
        member(Some(queries::node_json_view(x)), "protocol"@) == Some(JsonView::Text(queries::protocol_key(x.protocol))),
        member(Some(queries::node_json_view(x)), "endpoint"@) == Some(JsonView::Text(x.endpoint)),
        member(Some(queries::node_json_view(x)), "support"@) == Some(JsonView::Text(x.support)),
        member(Some(queries::node_json_view(x)), "warnings"@) == Some(json::texts_view(x.warnings)),
{
    lemma_keys();
}

/// The members of the answer on a selected backend.
pub proof fn law_answer_selection(x: BackendSelectionView)
    ensures
        member(Some(queries::selection_json_view(x)), "capability"@) == Some(JsonView::Text(ports::capability_name(x.capability))),
        member(Some(queries::selection_json_view(x)), "backend_id"@) == Some(JsonView::Text(x.backend_id)),
        member(Some(queries::selection_json_view(x)), "source"@) == Some(JsonView::Text(queries::source_key(x.source))),
{
    lemma_keys();
}

/// The members of the answer on a capability.
pub proof fn law_answer_capability(x: CapabilityStatusView)
    ensures
        member(Some(queries::capability_json_view(x)), "capability"@) == Some(JsonView::Text(ports::capability_name(x.capability))),
        member(Some(queries::capability_json_view(x)), "supported"@) == Some(JsonView::Bool(x.supported)),
        member(Some(queries::capability_json_view(x)), "backend_id"@) == Some(json::opt_view(x.backend_id)),
        member(Some(queries::capability_json_view(x)), "reason"@) == Some(json::opt_view(x.reason)),
{
    lemma_keys();
}

/// The members of the answer on a status.
pub proof fn law_answer_status(x: StatusDtoView)
    ensures
        member(Some(queries::status_json_view(x)), "installed"@) == Some(JsonView::Bool(x.installed)),
        member(Some(queries::status_json_view(x)), "selected_node"@) == Some(json::opt_view(x.selected_node)),
        member(Some(queries::status_json_view(x)), "core_version"@) == Some(json::opt_view(x.core_version)),
        member(Some(queries::status_json_view(x)), "asset_generation"@) == Some(json::opt_view(x.asset_generation)),
        member(Some(queries::status_json_view(x)), "backends"@) == Some(queries::selections_json_view(x.backends)),
        member(Some(queries::status_json_view(x)), "capabilities"@) == Some(queries::capabilities_json_view(x.capabilities)),
{
    lemma_keys();
}

/// The members of the answer on a check of the doctor.
pub proof fn law_answer_check(x: DoctorCheckDtoView)
    ensures
        member(Some(queries::check_json_view(x)), "id"@) == Some(JsonView::Text(x.id)),
        member(Some(queries::check_json_view(x)), "status"@) == Some(JsonView::Text(queries::status_key(x.status))),
        member(Some(queries::check_json_view(x)), "message"@) == Some(JsonView::Text(x.message)),
        member(Some(queries::check_json_view(x)), "remediation"@) == Some(json::opt_view(x.remediation)),
{
    lemma_keys();
}

/// The members of the answer on a doctor.
pub proof fn law_answer_doctor(checks: Seq<DoctorCheckDtoView>, x: BackendsView)
    ensures
        member(Some(queries::doctor_json_view(checks, x)), "checks"@) == Some(queries::checks_json_view(checks)),
        member(Some(queries::doctor_json_view(checks, x)), "backends"@) == Some(queries::selections_json_view(x.selections)),
        member(Some(queries::doctor_json_view(checks, x)), "capabilities"@) == Some(queries::capabilities_json_view(x.capabilities)),
{
    lemma_keys();
}

/// The members of the answer on a current node.
pub proof fn law_answer_current_node(x: ManagerStateView)
    ensures
        member(Some(queries::current_node_json_view(x)), "selected_node"@) == Some(json::opt_view(x.selected_node_id)),
{
    lemma_keys();
}

/// The members of the answer on an assets.
pub proof fn law_answer_assets(x: ManagerStateView)
    ensures
        member(Some(queries::assets_json_view(x)), "current"@) == Some(json::opt_view(x.current_asset_generation)),
        member(Some(queries::assets_json_view(x)), "previous"@) == Some(json::opt_view(x.previous_asset_generation)),
{
    lemma_keys();
}

/// The members of the answer on a core.
pub proof fn law_answer_core(x: ManagerStateView)
    ensures
        member(Some(queries::core_json_view(x)), "current"@) == Some(json::opt_view(x.current_core_version)),
        member(Some(queries::core_json_view(x)), "previous"@) == Some(json::opt_view(x.previous_core_version)),
{
    lemma_keys();
}

/// The members of the answer on a routing rule.
pub proof fn law_answer_rule_answer(x: RoutingRuleView)
    ensures
        member(Some(queries::rule_answer_view(x)), "name"@) == Some(JsonView::Text(x.name)),
        member(Some(queries::rule_answer_view(x)), "enabled"@) == Some(JsonView::Bool(x.enabled)),
        member(Some(queries::rule_answer_view(x)), "domain"@) == Some(json::texts_view(x.domain)),
        member(Some(queries::rule_answer_view(x)), "ip"@) == Some(json::texts_view(x.ip)),
        member(Some(queries::rule_answer_view(x)), "port"@) == Some(json::opt_view(x.port)),
        member(Some(queries::rule_answer_view(x)), "source_port"@) == Some(json::opt_view(x.source_port)),
        member(Some(queries::rule_answer_view(x)), "local_port"@) == Some(json::opt_view(x.local_port)),
        member(Some(queries::rule_answer_view(x)), "network"@) == Some(json::opt_view(x.network)),
        member(Some(queries::rule_answer_view(x)), "source_ip"@) == Some(json::texts_view(x.source_ip)),
        member(Some(queries::rule_answer_view(x)), "local_ip"@) == Some(json::texts_view(x.local_ip)),
        member(Some(queries::rule_answer_view(x)), "inbound_tag"@) == Some(json::texts_view(x.inbound_tag)),
        member(Some(queries::rule_answer_view(x)), "protocol"@) == Some(json::texts_view(x.protocol)),
        member(Some(queries::rule_answer_view(x)), "process"@) == Some(json::texts_view(x.process)),
        member(Some(queries::rule_answer_view(x)), "outbound"@) == Some(JsonView::Text(x.outbound)),
{
    lemma_keys();
}

/// The members of the answer on a routing.
pub proof fn law_answer_routing_answer(x: RoutingConfigView)
    ensures
        member(Some(queries::routing_answer_view(x)), "domain_strategy"@) == Some(JsonView::Text(x.domain_strategy)),
        member(Some(queries::routing_answer_view(x)), "default_outbound"@) == Some(JsonView::Text(x.default_outbound)),
        member(Some(queries::routing_answer_view(x)), "rules"@) == Some(queries::rules_answer_view(x.rules)),
{
    lemma_keys();
}

/// The members of the answer on a routing and its file.
pub proof fn law_answer_routing_with_path(path: Seq<char>, x: RoutingConfigView)
    ensures
        member(Some(queries::routing_with_path_view(path, x)), "path"@) == Some(JsonView::Text(path)),
        member(Some(queries::routing_with_path_view(path, x)), "routing"@) == Some(queries::routing_answer_view(x)),
{
    lemma_keys();
}

/// The members of the answer on a valid routing.
pub proof fn law_answer_routing_valid(path: Seq<char>)
    ensures
        member(Some(queries::routing_valid_view(path)), "valid"@) == Some(JsonView::Bool(true)),
        member(Some(queries::routing_valid_view(path)), "path"@) == Some(JsonView::Text(path)),
{
    lemma_keys();
}

/// The members of the answer on an explained routing.
pub proof fn law_answer_routing_explained(path: Seq<char>, name: Option<Seq<char>>, x: RoutingConfigView)
    ensures
        member(Some(queries::routing_explained_view(path, name, x)), "path"@) == Some(JsonView::Text(path)),
        member(Some(queries::routing_explained_view(path, name, x)), "node"@) == Some(json::opt_view(name)),
        member(Some(queries::routing_explained_view(path, name, x)), "default"@) == Some(JsonView::Text(x.default_outbound)),
        member(Some(queries::routing_explained_view(path, name, x)), "rules"@) == Some(queries::rules_answer_view(x.rules)),
{
    lemma_keys();
}

/// The members of the answer on a logs.
pub proof fn law_answer_logs(logs: Seq<char>)
    ensures
        member(Some(queries::logs_json_view(logs)), "logs"@) == Some(JsonView::Text(logs)),
{
    lemma_keys();
}

/// The members of the answer on a service.
pub proof fn law_answer_active(active: bool)
    ensures
        member(Some(queries::active_json_view(active)), "active"@) == Some(JsonView::Bool(active)),
{
    lemma_keys();
}

/// The members of the answer on a proxy.
pub proof fn law_answer_proxy(x: ManagerConfigView)
    ensures
        member(Some(queries::proxy_json_view(x)), "listen"@) == Some(JsonView::Text(x.proxy.listen.text())),
        member(Some(queries::proxy_json_view(x)), "socks_port"@) == Some(json::number_view(x.proxy.socks_port as nat)),
        member(Some(queries::proxy_json_view(x)), "http_port"@) == Some(json::number_view(x.proxy.http_port as nat)),
{
    lemma_keys();
}

/// The members of the answer on an environment of the proxy.
pub proof fn law_answer_proxy_environment(x: ManagerConfigView)
    ensures
        member(Some(queries::proxy_environment_view(x)), "HTTP_PROXY"@) == Some(JsonView::Text(queries::proxy_endpoint("http://"@, x, x.proxy.http_port))),
        member(Some(queries::proxy_environment_view(x)), "HTTPS_PROXY"@) == Some(JsonView::Text(queries::proxy_endpoint("http://"@, x, x.proxy.http_port))),
        member(Some(queries::proxy_environment_view(x)), "ALL_PROXY"@) == Some(JsonView::Text(queries::proxy_endpoint("socks5h://"@, x, x.proxy.socks_port))),
        member(Some(queries::proxy_environment_view(x)), "NO_PROXY"@) == Some(JsonView::Text("localhost,127.0.0.1,::1"@)),
{
    lemma_keys();
}

/// The members of the answer on a tested proxy.
pub proof fn law_answer_proxy_tested(x: ManagerConfigView)
    ensures
        member(Some(queries::proxy_tested_view(x)), "ok"@) == Some(JsonView::Bool(true)),
        member(Some(queries::proxy_tested_view(x)), "service_active"@) == Some(JsonView::Bool(true)),
        member(Some(queries::proxy_tested_view(x)), "socks"@) == Some(JsonView::Text(queries::proxy_endpoint(""@, x, x.proxy.socks_port))),
        member(Some(queries::proxy_tested_view(x)), "http"@) == Some(JsonView::Text(queries::proxy_endpoint(""@, x, x.proxy.http_port))),
{
    lemma_keys();
}

/// The members of the answer on a TUN status.
pub proof fn law_answer_tun_status(x: BackendsView, active: bool)
    ensures
        member(Some(queries::tun_status_json_view(x, active)), "supported"@) == Some(JsonView::Bool(queries::tun_supported(x))),
        member(Some(queries::tun_status_json_view(x, active)), "active"@) == Some(JsonView::Bool(active)),
{
    lemma_keys();
}

/// The members of the answer on a TUN rules.
pub proof fn law_answer_tun_rules(firewall: Seq<char>, policy: Seq<char>, x: ManagerConfigView)
    ensures
        member(Some(queries::tun_rules_json_view(firewall, policy, x)), "firewall"@) == Some(JsonView::Text(firewall)),
        member(Some(queries::tun_rules_json_view(firewall, policy, x)), "policy_routing"@) == Some(JsonView::Text(policy)),
        member(Some(queries::tun_rules_json_view(firewall, policy, x)), "routing_table"@) == Some(json::number_view(x.tun.routing_table as nat)),
        member(Some(queries::tun_rules_json_view(firewall, policy, x)), "packet_mark"@) == Some(json::number_view(x.tun.packet_mark as nat)),
{
    lemma_keys();
}

/// The members of the answer on a TUN test.
pub proof fn law_answer_tun_test(policy_active: bool, interface_active: bool, firewall_present: bool, policy: Seq<char>, x: ManagerConfigView)
    ensures
        member(Some(queries::tun_test_json_view(policy_active, interface_active, firewall_present, policy, x)), "ok"@) == Some(JsonView::Bool(policy_active && interface_active && firewall_present && x.tun.fail_closed && queries::fails_closed(policy))),
        member(Some(queries::tun_test_json_view(policy_active, interface_active, firewall_present, policy, x)), "policy_active"@) == Some(JsonView::Bool(policy_active)),
        member(Some(queries::tun_test_json_view(policy_active, interface_active, firewall_present, policy, x)), "interface_active"@) == Some(JsonView::Bool(interface_active)),
        member(Some(queries::tun_test_json_view(policy_active, interface_active, firewall_present, policy, x)), "firewall_present"@) == Some(JsonView::Bool(firewall_present)),
        member(Some(queries::tun_test_json_view(policy_active, interface_active, firewall_present, policy, x)), "fail_closed"@) == Some(JsonView::Bool(x.tun.fail_closed)),
        member(Some(queries::tun_test_json_view(policy_active, interface_active, firewall_present, policy, x)), "fail_closed_routes"@) == Some(JsonView::Bool(queries::fails_closed(policy))),
{
    lemma_keys();
}

/// The members of the answer on a subscription.
pub proof fn law_answer_subscription(x: SubscriptionConfigView)
    ensures
        member(Some(queries::subscription_json_view(x)), "name"@) == Some(JsonView::Text(x.name)),
        member(Some(queries::subscription_json_view(x)), "enabled"@) == Some(JsonView::Bool(x.enabled)),
        member(Some(queries::subscription_json_view(x)), "format"@) == Some(JsonView::Text(x.format)),
{
    lemma_keys();
}

/// The members of the answer on a probe.
pub proof fn law_answer_probe(x: ProbeResultView)
    ensures
        member(Some(queries::probe_json_view(x)), "latency_ms"@) == Some(queries::opt_number(x.latency_ms)),
        member(Some(queries::probe_json_view(x)), "error"@) == Some(json::opt_view(x.error)),
{
    lemma_keys();
}

/// The members of the answer on a probe of a node.
pub proof fn law_answer_node_probe(node: NodeDtoView, x: ProbeResultView)
    ensures
        member(Some(queries::node_probe_json_view(node, x)), "node"@) == Some(queries::node_json_view(node)),
        member(Some(queries::node_probe_json_view(node, x)), "probe"@) == Some(queries::probe_json_view(x)),
{
    lemma_keys();
}

/// The members of the answer on an outcome of a probe.
pub proof fn law_answer_outcome(x: NodeProbeOutcomeView)
    ensures
        member(Some(queries::outcome_json_view(x)), "node_id"@) == Some(JsonView::Text(x.node_id)),
        member(Some(queries::outcome_json_view(x)), "result"@) == Some(queries::probe_json_view(x.result)),
{
    lemma_keys();
}

/// The members of the answer on an asset.
pub proof fn law_answer_asset(x: AssetConfigView)
    ensures
        member(Some(queries::asset_json_view(x)), "id"@) == Some(JsonView::Text(x.id)),
        member(Some(queries::asset_json_view(x)), "filename"@) == Some(JsonView::Text(x.filename)),
        member(Some(queries::asset_json_view(x)), "configured"@) == Some(JsonView::Bool(true)),
{
    lemma_keys();
}

/// The members of the answer on a version of the core.
pub proof fn law_answer_core_entry(version: Option<Seq<char>>, role: Seq<char>)
    ensures
        member(Some(queries::core_entry(version, role)), "version"@) == Some(json::opt_view(version)),
        member(Some(queries::core_entry(version, role)), "role"@) == Some(JsonView::Text(role)),
{
    lemma_keys();
}

/// The members of the answer on a profile.
pub proof fn law_answer_profile(x: AppProfileView)
    ensures
        member(Some(queries::profile_json_view(x)), "name"@) == Some(JsonView::Text(x.name)),
        member(Some(queries::profile_json_view(x)), "command"@) == Some(json::texts_view(x.command)),
        member(Some(queries::profile_json_view(x)), "clear_proxy_environment"@) == Some(JsonView::Bool(x.clear_proxy_environment)),
        member(Some(queries::profile_json_view(x)), "override_dns"@) == Some(JsonView::Bool(x.override_dns)),
        member(Some(queries::profile_json_view(x)), "working_directory"@) == Some(json::opt_view(x.working_directory)),
        member(Some(queries::profile_json_view(x)), "environment"@) == Some(queries::map_json_view(x.environment)),
{
    lemma_keys();
}

/// The members of the answer on a menu settings.
pub proof fn law_answer_menu(x: MenuConfig)
    ensures
        member(Some(queries::menu_json_view(x)), "probe_on_open"@) == Some(JsonView::Bool(x.probe_on_open)),
        member(Some(queries::menu_json_view(x)), "latency_green_ms"@) == Some(json::number_view(x.latency_green_ms as nat)),
        member(Some(queries::menu_json_view(x)), "latency_yellow_ms"@) == Some(json::number_view(x.latency_yellow_ms as nat)),
{
    lemma_keys();
}

/// The environment of the proxy: HTTP and HTTPS go to the HTTP port, all else to
/// the SOCKS port, and what is local goes nowhere else.
pub proof fn law_proxy_environment(c: ManagerConfigView)
    ensures
        ({
            let e = Some(queries::proxy_environment_view(c));
            let http = "http://"@ + c.proxy.listen.text() + ":"@ + decimal(c.proxy.http_port as nat);
            let socks = "socks5h://"@ + c.proxy.listen.text() + ":"@ + decimal(
                c.proxy.socks_port as nat,
            );
            &&& member(e, "HTTP_PROXY"@) == text(http)
            &&& member(e, "HTTPS_PROXY"@) == text(http)
            &&& member(e, "ALL_PROXY"@) == text(socks)
            &&& member(e, "NO_PROXY"@) == text("localhost,127.0.0.1,::1"@)
        }),
{
    lemma_keys();
}

/// A test of TUN passes only where everything is in place and nothing leaks.
pub proof fn law_tun_test(a: bool, b: bool, f: bool, policy: Seq<char>, c: ManagerConfigView)
    ensures
        member(Some(queries::tun_test_json_view(a, b, f, policy, c)), "ok"@) == Some(
            JsonView::Bool(
                a && b && f && c.tun.fail_closed && has_infix(policy, "blackhole default"@)
                    && has_infix(policy, "unreachable default"@),
            ),
        ),
{
    lemma_keys();
}

/// The words for protocols, for where a backend was chosen, and for how a check ended.
pub proof fn law_words(p: Protocol, s: SelectionSource, c: CheckStatus)
    ensures
        queries::protocol_key(p) == (match p {
            Protocol::Vless => "vless"@,
            Protocol::Vmess => "vmess"@,
            Protocol::Trojan => "trojan"@,
            Protocol::Shadowsocks => "shadowsocks"@,
            Protocol::Hysteria2 => "hysteria2"@,
        }),
        queries::source_key(s) == (match s {
            SelectionSource::Cli => "cli"@,
            SelectionSource::Config => "config"@,
            SelectionSource::InstalledState => "installed_state"@,
            SelectionSource::Automatic => "automatic"@,
        }),
        queries::status_key(c) == (match c {
            CheckStatus::Pass => "PASS"@,
            CheckStatus::Warn => "WARN"@,
            CheckStatus::Fail => "FAIL"@,
        }),
{
}

/// A status: something is installed where a core version is recorded.
pub proof fn law_status(s: ManagerStateView, b: BackendsView)
    ensures
        queries::status_of(s, b).installed <==> s.current_core_version is Some,
        queries::status_of(s, b).selected_node == s.selected_node_id,
        queries::status_of(s, b).core_version == s.current_core_version,
        queries::status_of(s, b).asset_generation == s.current_asset_generation,
        queries::status_of(s, b).backends == b.selections,
        queries::status_of(s, b).capabilities == b.capabilities,
{
}

/// The versions of the core, the current one first.
pub proof fn law_core_versions(s: ManagerStateView)
    ensures
        ({
            let all = Some(queries::core_list_json_view(s));
            &&& member(item(all, 0), "version"@) == Some(json::opt_view(s.current_core_version))
            &&& member(item(all, 0), "role"@) == text("current"@)
            &&& member(item(all, 1), "version"@) == Some(json::opt_view(s.previous_core_version))
            &&& member(item(all, 1), "role"@) == text("previous"@)
            &&& item(all, 2) is None
        }),
{
    lemma_keys();
}

/// Lists hold an answer for each of their items, in order.
pub proof fn law_lists(
    nodes: Seq<NodeDtoView>,
    subs: Seq<SubscriptionConfigView>,
    outcomes: Seq<NodeProbeOutcomeView>,
    rules: Seq<RoutingRuleView>,
    checks: Seq<DoctorCheckDtoView>,
    i: int,
)
    ensures
        0 <= i < nodes.len() ==> item(Some(queries::nodes_json_view(nodes)), i) == Some(
            queries::node_json_view(nodes[i]),
        ),
        0 <= i < subs.len() ==> item(Some(queries::subscriptions_json_view(subs)), i) == Some(
            queries::subscription_json_view(subs[i]),
        ),
        0 <= i < outcomes.len() ==> item(Some(queries::outcomes_json_view(outcomes)), i) == Some(
            queries::outcome_json_view(outcomes[i]),
        ),
        0 <= i < rules.len() ==> item(Some(queries::rules_answer_view(rules)), i) == Some(
            queries::rule_answer_view(rules[i]),
        ),
        0 <= i < checks.len() ==> item(Some(queries::checks_json_view(checks)), i) == Some(
            queries::check_json_view(checks[i]),
        ),
{
}

} // verus!
