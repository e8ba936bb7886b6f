//! Which answer each question gets.

use crate::config::ManagerConfigView;
use crate::domain::ManagerStateView;
use crate::json;
use crate::json::JsonView;
use crate::laws::answers;
use crate::laws::reading::{item, member, number, text};
use crate::planning::BackendsView;
use crate::queries;
use crate::service::{answer_of, AskedView};
use vstd::prelude::*;

verus! {

/// The answer to a question, where there is one.
pub open spec fn answered(
    asked: AskedView,
    c: ManagerConfigView,
    s: ManagerStateView,
    b: BackendsView,
) -> Option<JsonView> {
    match answer_of(asked, c, s, b) {
        Ok(j) => Some(j),
        Err(_) => None,
    }
}

/// Questions on what is recorded are answered from the state: the status, the
/// node, the assets and the core, each with its own versions.
pub proof fn law_recorded_answers(c: ManagerConfigView, s: ManagerStateView, b: BackendsView)
    ensures
        ({
            let status = answered(AskedView::Status, c, s, b);
            let node = answered(AskedView::CurrentNode, c, s, b);
            let assets = answered(AskedView::Assets, c, s, b);
            let core = answered(AskedView::Core, c, s, b);
            let cores = answered(AskedView::CoreList, c, s, b);
            &&& member(status, "installed"@) == Some(
                JsonView::Bool(s.current_core_version is Some),
            )
            &&& member(status, "selected_node"@) == Some(json::opt_view(s.selected_node_id))
            &&& member(status, "core_version"@) == Some(json::opt_view(s.current_core_version))
            &&& member(status, "asset_generation"@) == Some(
                json::opt_view(s.current_asset_generation),
            )
            &&& member(node, "selected_node"@) == Some(json::opt_view(s.selected_node_id))
            &&& member(assets, "current"@) == Some(json::opt_view(s.current_asset_generation))
            &&& member(assets, "previous"@) == Some(json::opt_view(s.previous_asset_generation))
            &&& member(core, "current"@) == Some(json::opt_view(s.current_core_version))
            &&& member(core, "previous"@) == Some(json::opt_view(s.previous_core_version))
            &&& member(item(cores, 0), "version"@) == Some(json::opt_view(s.current_core_version))
            &&& member(item(cores, 1), "version"@) == Some(json::opt_view(s.previous_core_version))
        }),
{
    answers::law_answer_status(queries::status_of(s, b));
    answers::law_answer_current_node(s);
    answers::law_answer_assets(s);
    answers::law_answer_core(s);
    answers::law_core_versions(s);
}

/// Questions on settings are answered from the configuration: the proxy with its
/// own ports, the menu with its own bounds, an asset by its ID or an error that
/// names it.
pub proof fn law_configured_answers(
    c: ManagerConfigView,
    s: ManagerStateView,
    b: BackendsView,
    id: Seq<char>,
)
    ensures
        ({
            let proxy = answered(AskedView::ProxyShow, c, s, b);
            let menu = answered(AskedView::MenuSettings, c, s, b);
            &&& member(proxy, "listen"@) == text(c.proxy.listen.text())
            &&& member(proxy, "socks_port"@) == number(c.proxy.socks_port as nat)
            &&& member(proxy, "http_port"@) == number(c.proxy.http_port as nat)
            &&& member(menu, "probe_on_open"@) == Some(JsonView::Bool(c.menu.probe_on_open))
            &&& member(menu, "latency_green_ms"@) == number(c.menu.latency_green_ms as nat)
            &&& member(menu, "latency_yellow_ms"@) == number(c.menu.latency_yellow_ms as nat)
            &&& answered(AskedView::ProxyEnv, c, s, b) == Some(queries::proxy_environment_view(c))
            &&& answered(AskedView::ProxyTest, c, s, b) == Some(queries::proxy_tested_view(c))
        }),
        ({
            let shown = answered(AskedView::AssetShow { id }, c, s, b);
            let known = exists|i: int| 0 <= i < c.assets.len() && (#[trigger] c.assets[i]).id == id;
            &&& known ==> shown is Some && member(shown, "id"@) == text(id)
            &&& !known ==> shown is None
        }),
{
    answers::law_answer_proxy(c);
    answers::law_answer_menu(c.menu);
    lemma_asset(c.assets, id);
    match crate::service::asset_named(c.assets, id) {
        Some(asset) => answers::law_answer_asset(asset),
        None => {},
    }
}

proof fn lemma_asset(assets: Seq<crate::config::AssetConfigView>, id: Seq<char>)
    ensures
        crate::service::asset_named(assets, id) is Some <==> exists|i: int|
            0 <= i < assets.len() && (#[trigger] assets[i]).id == id,
        crate::service::asset_named(assets, id) is Some ==> (crate::service::asset_named(
            assets,
            id,
        )->0).id == id,
    decreases assets.len(),
{
    if assets.len() > 0 && assets[0].id != id {
        let rest = assets.skip(1);
        lemma_asset(rest, id);
        if crate::service::asset_named(assets, id) is Some {
            let j = choose|j: int| 0 <= j < rest.len() && (#[trigger] rest[j]).id == id;
            assert(assets[j + 1].id == id);
        }
        if exists|i: int| 0 <= i < assets.len() && (#[trigger] assets[i]).id == id {
            let i = choose|i: int| 0 <= i < assets.len() && (#[trigger] assets[i]).id == id;
            assert(rest[i - 1].id == id);
        }
    }
}

/// Questions on the host are answered with what was found there: each finding
/// under its own name.
pub proof fn law_found_answers(
    c: ManagerConfigView,
    s: ManagerStateView,
    b: BackendsView,
    active: bool,
    logs: Seq<char>,
    firewall: Seq<char>,
    policy: Seq<char>,
    path: Seq<char>,
    policy_active: bool,
    interface_active: bool,
    firewall_present: bool,
)
    ensures
        ({
            let service = answered(AskedView::ServiceStatus(active), c, s, b);
            let tun = answered(AskedView::TunStatus(active), c, s, b);
            let log = answered(AskedView::ServiceLogs(logs), c, s, b);
            let rules = answered(AskedView::TunShowRules { firewall, policy }, c, s, b);
            let valid = answered(AskedView::RoutingValidate { path }, c, s, b);
            let test = answered(
                AskedView::TunTest { policy_active, interface_active, firewall_present, policy },
                c,
                s,
                b,
            );
            &&& member(service, "active"@) == Some(JsonView::Bool(active))
            &&& member(tun, "active"@) == Some(JsonView::Bool(active))
            &&& member(log, "logs"@) == text(logs)
            &&& member(rules, "firewall"@) == text(firewall)
            &&& member(rules, "policy_routing"@) == text(policy)
            &&& member(rules, "routing_table"@) == number(c.tun.routing_table as nat)
            &&& member(rules, "packet_mark"@) == number(c.tun.packet_mark as nat)
            &&& member(valid, "valid"@) == Some(JsonView::Bool(true))
            &&& member(valid, "path"@) == text(path)
            &&& member(test, "policy_active"@) == Some(JsonView::Bool(policy_active))
            &&& member(test, "interface_active"@) == Some(JsonView::Bool(interface_active))
            &&& member(test, "firewall_present"@) == Some(JsonView::Bool(firewall_present))
            &&& member(test, "fail_closed"@) == Some(JsonView::Bool(c.tun.fail_closed))
        }),
{
    answers::law_answer_active(active);
    answers::law_answer_tun_status(b, active);
    answers::law_answer_logs(logs);
    answers::law_answer_tun_rules(firewall, policy, c);
    answers::law_answer_routing_valid(path);
    answers::law_answer_tun_test(policy_active, interface_active, firewall_present, policy, c);
}

/// The presets that routing can be set to.
pub proof fn law_preset_names(c: ManagerConfigView, s: ManagerStateView, b: BackendsView)
    ensures
        ({
            let names = answered(AskedView::RoutingPresets, c, s, b);
            &&& item(names, 0) == text("global-proxy"@)
            &&& item(names, 1) == text("runet-blocked-only"@)
            &&& item(names, 2) == text("ru-direct"@)
            &&& item(names, 3) is None
        }),
{
}

} // verus!
