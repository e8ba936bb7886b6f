//! The manager service: what it answers, what it plans, and in which order it
//! carries an operation out.

use crate::config::{
    AppProfile, AppProfileView, AssetConfigView, ManagerConfig, ManagerConfigView,
    SubscriptionConfig, SubscriptionConfigView,
};
use crate::doctor::{DeepFacts, DeepFactsView};
use crate::domain::{ManagerState, ManagerStateView, Node, NodeView};
use crate::dto::{NodeDto, StatusDto};
use crate::error::{ManagerError, ManagerErrorView};
use crate::execution::Stage;
use crate::json::{Json, JsonView};
use crate::operation::{Operation, OperationOptions};
use crate::planning::{Backends, BackendsView, PlanSource, PlanSourceView};
use crate::ports::{
    ManagerPaths, PlatformInfo, PlatformInfoView, ProbeResult, ProbeResultView,
};
use crate::probe::{NodeProbeOutcome, NodeProbeOutcomeView};
use crate::routing::{RoutingConfig, RoutingConfigView};
use crate::config;
use crate::doctor;
use crate::domain;
use crate::dto;
use crate::execution;
use crate::order;
use crate::planning;
use crate::ports;
use crate::probe;
use crate::queries;
use crate::text;
use vstd::prelude::*;

verus! {

/// A question, with what was gathered of the host and the files for its answer.
pub enum Asked {
    Status,
    Doctor { platform: PlatformInfo, elevated: bool, deep: Option<DeepFacts> },
    Nodes(Vec<Node>),
    CurrentNode,
    Routing { path: String, routing: RoutingConfig },
    Assets,
    Core,
    ServiceLogs(String),
    ServiceStatus(bool),
    ProxyShow,
    ProxyEnv,
    TunStatus(bool),
    Subscriptions(Vec<SubscriptionConfig>),
    RoutingValidate { path: String },
    RoutingPresets,
    NodeProbe { node: Node, result: ProbeResult },
    NodeProbeAll(Vec<NodeProbeOutcome>),
    RoutingExplain { path: String, name: Option<String>, routing: RoutingConfig },
    AssetShow { id: String },
    CoreList,
    ProxyTest,
    TunShowRules { firewall: String, policy: String },
    TunTest { policy_active: bool, interface_active: bool, firewall_present: bool, policy: String },
    AppList(Vec<AppProfile>),
    MenuSettings,
}

/// The mathematical value of an [`Asked`].
#[verifier::ext_equal]
pub enum AskedView {
    Status,
    Doctor { platform: PlatformInfoView, elevated: bool, deep: Option<DeepFactsView> },
    Nodes(Seq<NodeView>),
    CurrentNode,
    Routing { path: Seq<char>, routing: RoutingConfigView },
    Assets,
    Core,
    ServiceLogs(Seq<char>),
    ServiceStatus(bool),
    ProxyShow,
    ProxyEnv,
    TunStatus(bool),
    Subscriptions(Seq<SubscriptionConfigView>),
    RoutingValidate { path: Seq<char> },
    RoutingPresets,
    NodeProbe { node: NodeView, result: ProbeResultView },
    NodeProbeAll(Seq<NodeProbeOutcomeView>),
    RoutingExplain { path: Seq<char>, name: Option<Seq<char>>, routing: RoutingConfigView },
    AssetShow { id: Seq<char> },
    CoreList,
    ProxyTest,
    TunShowRules { firewall: Seq<char>, policy: Seq<char> },
    TunTest { policy_active: bool, interface_active: bool, firewall_present: bool, policy: Seq<char> },
    AppList(Seq<AppProfileView>),
    MenuSettings,
}

impl View for Asked {
    type V = AskedView;

    open spec fn view(&self) -> AskedView {
        match *self {
            Asked::Status => AskedView::Status,
            Asked::Doctor { platform, elevated, deep } => AskedView::Doctor {
                platform: platform@,
                elevated,
                deep: doctor::opt_deep_facts(deep),
            },
            Asked::Nodes(nodes) => AskedView::Nodes(domain::node_views(nodes@)),
            Asked::CurrentNode => AskedView::CurrentNode,
            Asked::Routing { path, routing } => AskedView::Routing { path: path@, routing: routing@ },
            Asked::Assets => AskedView::Assets,
            Asked::Core => AskedView::Core,
            Asked::ServiceLogs(logs) => AskedView::ServiceLogs(logs@),
            Asked::ServiceStatus(active) => AskedView::ServiceStatus(active),
            Asked::ProxyShow => AskedView::ProxyShow,
            Asked::ProxyEnv => AskedView::ProxyEnv,
            Asked::TunStatus(active) => AskedView::TunStatus(active),
            Asked::Subscriptions(list) => AskedView::Subscriptions(
                config::subscription_config_views(list@),
            ),
            Asked::RoutingValidate { path } => AskedView::RoutingValidate { path: path@ },
            Asked::RoutingPresets => AskedView::RoutingPresets,
            Asked::NodeProbe { node, result } => AskedView::NodeProbe { node: node@, result: result@ },
            Asked::NodeProbeAll(outcomes) => AskedView::NodeProbeAll(
                probe::node_probe_outcome_views(outcomes@),
            ),
            Asked::RoutingExplain { path, name, routing } => AskedView::RoutingExplain {
                path: path@,
                name: text::opt_text(name),
                routing: routing@,
            },
            Asked::AssetShow { id } => AskedView::AssetShow { id: id@ },
            Asked::CoreList => AskedView::CoreList,
            Asked::ProxyTest => AskedView::ProxyTest,
            Asked::TunShowRules { firewall, policy } => AskedView::TunShowRules {
                firewall: firewall@,
                policy: policy@,
            },
            Asked::TunTest { policy_active, interface_active, firewall_present, policy } => AskedView::TunTest {
                policy_active,
                interface_active,
                firewall_present,
                policy: policy@,
            },
            Asked::AppList(profiles) => AskedView::AppList(config::app_profile_views(profiles@)),
            Asked::MenuSettings => AskedView::MenuSettings,
        }
    }
}

/// The first asset with an ID.
pub open spec fn asset_named(assets: Seq<AssetConfigView>, id: Seq<char>) -> Option<AssetConfigView>
    decreases assets.len(),
{
    if assets.len() == 0 {
        None
    } else if assets[0].id == id {
        Some(assets[0])
    } else {
        asset_named(assets.skip(1), id)
    }
}

proof fn lemma_first_asset(assets: Seq<AssetConfigView>, id: Seq<char>, i: int)
    requires
        queries::first_asset(assets, id, i),
    ensures
        asset_named(assets, id) == Some(assets[i]),
    decreases i,
{
    if i > 0 {
        assert(assets[0].id != id);
        assert forall|j: int| 0 <= j < i - 1 implies (#[trigger] assets.skip(1)[j]).id != id by {
            assert(assets[j + 1].id != id);
        }
        lemma_first_asset(assets.skip(1), id, i - 1);
    }
}

proof fn lemma_no_asset(assets: Seq<AssetConfigView>, id: Seq<char>)
    requires
        forall|j: int| 0 <= j < assets.len() ==> (#[trigger] assets[j]).id != id,
    ensures
        asset_named(assets, id) is None,
    decreases assets.len(),
{
    if assets.len() > 0 {
        assert forall|j: int| 0 <= j < assets.skip(1).len() implies (
        #[trigger] assets.skip(1)[j]).id != id by {
            assert(assets[j + 1].id != id);
        }
        lemma_no_asset(assets.skip(1), id);
    }
}

/// What is shown of nodes.
pub open spec fn shown_nodes(nodes: Seq<NodeView>) -> Seq<dto::NodeDtoView> {
    nodes.map_values(|n: NodeView| dto::node_dto(n))
}

/// The answer to a question.
pub open spec fn answer_of(
    asked: AskedView,
    c: ManagerConfigView,
    s: ManagerStateView,
    b: BackendsView,
) -> Result<JsonView, ManagerErrorView> {
    match asked {
        AskedView::Status => Ok(queries::status_json_view(queries::status_of(s, b))),
        AskedView::Doctor { platform, elevated, deep } => Ok(
            queries::doctor_json_view(
                doctor::all_checks(
                    b.capabilities,
                    platform,
                    elevated,
                    deep,
                    c.tun.enabled,
                    s.selected_node_id is Some,
                ),
                b,
            ),
        ),
        AskedView::Nodes(nodes) => Ok(queries::nodes_json_view(shown_nodes(nodes))),
        AskedView::CurrentNode => Ok(queries::current_node_json_view(s)),
        AskedView::Routing { path, routing } => Ok(queries::routing_with_path_view(path, routing)),
        AskedView::Assets => Ok(queries::assets_json_view(s)),
        AskedView::Core => Ok(queries::core_json_view(s)),
        AskedView::ServiceLogs(logs) => Ok(queries::logs_json_view(logs)),
        AskedView::ServiceStatus(active) => Ok(queries::active_json_view(active)),
        AskedView::ProxyShow => Ok(queries::proxy_json_view(c)),
        AskedView::ProxyEnv => Ok(queries::proxy_environment_view(c)),
        AskedView::TunStatus(active) => Ok(queries::tun_status_json_view(b, active)),
        AskedView::Subscriptions(list) => Ok(
            queries::subscriptions_json_view(order::subscriptions_by_name(list)),
        ),
        AskedView::RoutingValidate { path } => Ok(queries::routing_valid_view(path)),
        AskedView::RoutingPresets => Ok(queries::presets_json_view()),
        AskedView::NodeProbe { node, result } => Ok(
            queries::node_probe_json_view(dto::node_dto(node), result),
        ),
        AskedView::NodeProbeAll(outcomes) => Ok(queries::outcomes_json_view(outcomes)),
        AskedView::RoutingExplain { path, name, routing } => Ok(
            queries::routing_explained_view(path, name, routing),
        ),
        AskedView::AssetShow { id } => match asset_named(c.assets, id) {
            Some(asset) => Ok(queries::asset_json_view(asset)),
            None => Err(
                ManagerErrorView::InvalidConfig("asset '"@ + id + "' was not found"@),
            ),
        },
        AskedView::CoreList => Ok(queries::core_list_json_view(s)),
        AskedView::ProxyTest => Ok(queries::proxy_tested_view(c)),
        AskedView::TunShowRules { firewall, policy } => Ok(
            queries::tun_rules_json_view(firewall, policy, c),
        ),
        AskedView::TunTest { policy_active, interface_active, firewall_present, policy } => Ok(
            queries::tun_test_json_view(policy_active, interface_active, firewall_present, policy, c),
        ),
        AskedView::AppList(profiles) => Ok(
            queries::profiles_json_view(order::profiles_by_name(profiles)),
        ),
        AskedView::MenuSettings => Ok(queries::menu_json_view(c.menu)),
    }
}

/// Whether two nodes differ at most in their credentials, share links and
/// extra parameters.
pub open spec fn same_but_credentials(a: NodeView, b: NodeView) -> bool {
    a == (NodeView { credentials: a.credentials, raw_uri: a.raw_uri, extra: a.extra, ..b })
}

/// Whether two questions differ at most in what is secret: the credentials of
/// nodes and the addresses of subscriptions.
pub open spec fn same_but_secrets(a: AskedView, b: AskedView) -> bool {
    match (a, b) {
        (AskedView::Nodes(x), AskedView::Nodes(y)) => x.len() == y.len() && forall|i: int|
            0 <= i < x.len() ==> same_but_credentials(#[trigger] x[i], y[i]),
        (
            AskedView::NodeProbe { node: x, result: p },
            AskedView::NodeProbe { node: y, result: q },
        ) => same_but_credentials(x, y) && p == q,
        (AskedView::Subscriptions(x), AskedView::Subscriptions(y)) => x.len() == y.len() && forall|
            i: int,
        |
            0 <= i < x.len() ==> (#[trigger] x[i]) == (SubscriptionConfigView { url: x[i].url, ..y[i] }),
        _ => a == b,
    }
}

proof fn lemma_listed_alike(m: Seq<SubscriptionConfigView>, n: Seq<SubscriptionConfigView>)
    requires
        m.len() == n.len(),
        forall|i: int|
            0 <= i < m.len() ==> (#[trigger] m[i]) == (SubscriptionConfigView {
                url: m[i].url,
                ..n[i]
            }),
    ensures
        queries::subscriptions_json_view(order::subscriptions_by_name(m))
            == queries::subscriptions_json_view(order::subscriptions_by_name(n)),
{
    let names = order::subscription_names(m);
    assert(names =~= order::subscription_names(n));
    order::law_names_are_ordered(names);
    let order = order::name_order(names);
    let x = order::subscriptions_by_name(m);
    let y = order::subscriptions_by_name(n);
    let shown = |v: Seq<SubscriptionConfigView>|
        v.map_values(|z: SubscriptionConfigView| queries::subscription_json_view(z));
    assert forall|k: int| 0 <= k < x.len() implies #[trigger] shown(x)[k] == shown(y)[k] by {
        assert(order.contains(order[k]));
        let i = order[k];
        assert(m[i] == (SubscriptionConfigView { url: m[i].url, ..n[i] }));
        queries::law_query_redacts_subscription_url(n[i], m[i].url);
    }
    assert(shown(x) =~= shown(y));
}

/// The answer to the question for the subscriptions: an object for each of
/// them, in the order of their names, with the name, the format and whether it
/// is enabled, and nothing else.
pub proof fn law_subscriptions_answer(
    list: Seq<SubscriptionConfigView>,
    c: ManagerConfigView,
    s: ManagerStateView,
    b: BackendsView,
)
    ensures
        ({
            let sorted = order::subscriptions_by_name(list);
            let shown = sorted.map_values(
                |x: SubscriptionConfigView| queries::subscription_json_view(x),
            );
            &&& answer_of(AskedView::Subscriptions(list), c, s, b) == Ok::<
                JsonView,
                ManagerErrorView,
            >(JsonView::Array(shown))
            &&& forall|i: int|
                0 <= i < shown.len() ==> (#[trigger] shown[i])->Object_0.dom() == set![
                    "name"@,
                    "enabled"@,
                    "format"@,
                ]
            &&& sorted.to_multiset() == list.to_multiset()
            &&& forall|i: int, j: int|
                0 <= i < j < sorted.len() ==> !text::text_less(
                    (#[trigger] sorted[j]).name,
                    (#[trigger] sorted[i]).name,
                )
        }),
{
    order::law_subscriptions_are_listed_by_name(list);
    let sorted = order::subscriptions_by_name(list);
    let shown = sorted.map_values(
        |x: SubscriptionConfigView| queries::subscription_json_view(x),
    );
    assert forall|i: int| 0 <= i < shown.len() implies (#[trigger] shown[i])->Object_0.dom()
        == set!["name"@, "enabled"@, "format"@] by {
        assert(shown[i] == queries::subscription_json_view(sorted[i]));
        assert(shown[i]->Object_0.dom() =~= set!["name"@, "enabled"@, "format"@]);
    }
}

/// No answer shows a secret: questions that differ only in secrets have the
/// same answer.
pub proof fn law_answers_hide_secrets(
    x: AskedView,
    y: AskedView,
    c: ManagerConfigView,
    s: ManagerStateView,
    b: BackendsView,
)
    requires
        same_but_secrets(x, y),
    ensures
        answer_of(x, c, s, b) == answer_of(y, c, s, b),
{
    match (x, y) {
        (AskedView::Nodes(m), AskedView::Nodes(n)) => {
            assert forall|i: int| 0 <= i < m.len() implies #[trigger] shown_nodes(m)[i]
                == shown_nodes(n)[i] by {
                assert(same_but_credentials(m[i], n[i]));
                dto::law_dto_redacts_secrets(m[i], n[i]);
            }
            assert(shown_nodes(m) =~= shown_nodes(n));
        },
        (AskedView::NodeProbe { node: m, .. }, AskedView::NodeProbe { node: n, .. }) => {
            dto::law_dto_redacts_secrets(m, n);
        },
        (AskedView::Subscriptions(m), AskedView::Subscriptions(n)) => {
            lemma_listed_alike(m, n);
        },
        _ => {},
    }
}

/// Whether the nodes that a question is about have IDs that can be shown.
pub open spec fn can_be_shown(asked: AskedView) -> bool {
    match asked {
        AskedView::Nodes(nodes) => domain::all_shown(nodes),
        AskedView::NodeProbe { node, .. } => domain::has_short(node.id),
        _ => true,
    }
}

impl Asked {
    /// Whether the nodes that the question is about have IDs that can be shown.
    pub fn can_be_shown(&self) -> (r: bool)
        ensures
            r == can_be_shown(self@),
    {
        match self {
            Asked::Nodes(nodes) => {
                let ghost views = domain::node_views(nodes@);
                let mut i: usize = 0;
                while i < nodes.len()
                    invariant
                        i <= nodes@.len(),
                        views == domain::node_views(nodes@),
                        self@ == AskedView::Nodes(views),
                        forall|k: int| 0 <= k < i ==> domain::has_short((#[trigger] views[k]).id),
                    decreases nodes@.len() - i,
                {
                    assert(views[i as int] == nodes@[i as int]@);
                    if !nodes[i].id.has_short() {
                        return false;
                    }
                    i += 1;
                }
                true
            },
            Asked::NodeProbe { node, .. } => node.id.has_short(),
            _ => true,
        }
    }
}

fn show_nodes(nodes: &Vec<Node>) -> (r: Vec<NodeDto>)
    requires
        can_be_shown(AskedView::Nodes(domain::node_views(nodes@))),
    ensures
        dto::node_dto_views(r@) == shown_nodes(domain::node_views(nodes@)),
{
    let ghost want = shown_nodes(domain::node_views(nodes@));
    let mut r: Vec<NodeDto> = Vec::new();
    let mut i: usize = 0;
    while i < nodes.len()
        invariant
            i <= nodes@.len(),
            r@.len() == i,
            can_be_shown(AskedView::Nodes(domain::node_views(nodes@))),
            forall|k: int| 0 <= k < i ==> (#[trigger] r@[k])@ == dto::node_dto(nodes@[k]@),
        decreases nodes@.len() - i,
    {
        assert(domain::node_views(nodes@)[i as int] == nodes@[i as int]@);
        r.push(NodeDto::from(&nodes[i]));
        i += 1;
    }
    assert(dto::node_dto_views(r@) =~= want);
    r
}

/// The service: what is configured, what is recorded of the installation, and
/// which backends the host has.
#[derive(Debug)]
pub struct ManagerService {
    pub config: ManagerConfig,
    pub state: ManagerState,
    pub backends: Backends,
}

impl ManagerService {
    /// A service with this configuration, state and choice of backends.
    pub fn new(config: ManagerConfig, state: ManagerState, backends: Backends) -> (r: ManagerService)
        ensures
            r.config@ == config@,
            r.state@ == state@,
            r.backends@ == backends@,
    {
        ManagerService { config, state, backends }
    }

    /// The state of the installation.
    pub fn status(&self) -> (r: StatusDto)
        ensures
            r@ == queries::status_of(self.state@, self.backends@),
    {
        StatusDto {
            installed: self.state.current_core_version.is_some(),
            selected_node: text::copy_opt(&self.state.selected_node_id),
            core_version: text::copy_opt(&self.state.current_core_version),
            asset_generation: text::copy_opt(&self.state.current_asset_generation),
            backends: ports::copy_backend_selections(&self.backends.selections),
            capabilities: ports::copy_capability_statuses(&self.backends.capabilities),
        }
    }

    fn query_asset(&self, id: &str) -> (r: Result<Json, ManagerError>)
        ensures
            match r {
                Ok(j) => asset_named(self.config@.assets, id@) matches Some(asset) && j@
                    == queries::asset_json_view(asset),
                Err(e) => asset_named(self.config@.assets, id@) is None && e@
                    == ManagerErrorView::InvalidConfig("asset '"@ + id@ + "' was not found"@),
            },
    {
        let ghost assets = config::asset_config_views(self.config.assets@);
        match queries::find_asset(&self.config.assets, id) {
            Ok(i) => {
                proof {
                    lemma_first_asset(assets, id@, i as int);
                    assert(assets[i as int] == self.config.assets@[i as int]@);
                }
                Ok(queries::asset_json(&self.config.assets[i]))
            },
            Err(e) => {
                proof {
                    lemma_no_asset(assets, id@);
                }
                Err(e)
            },
        }
    }

    /// Answers a question.
    pub fn query(&self, asked: &Asked) -> (r: Result<Json, ManagerError>)
        requires
            can_be_shown(asked@),
        ensures
            match r {
                Ok(j) => answer_of(asked@, self.config@, self.state@, self.backends@) == Ok::<
                    JsonView,
                    ManagerErrorView,
                >(j@),
                Err(e) => answer_of(asked@, self.config@, self.state@, self.backends@) == Err::<
                    JsonView,
                    ManagerErrorView,
                >(e@),
            },
    {
        match asked {
            Asked::Status => Ok(queries::status_json(&self.status())),
            Asked::Doctor { platform, elevated, deep } => {
                let checks = doctor::doctor_checks(
                    &self.backends.capabilities,
                    platform,
                    *elevated,
                    deep,
                    self.config.tun.enabled,
                    self.state.selected_node_id.is_some(),
                );
                Ok(queries::doctor_json(&checks, &self.backends))
            },
            Asked::Nodes(nodes) => Ok(queries::nodes_json(&show_nodes(nodes))),
            Asked::CurrentNode => Ok(queries::current_node_json(&self.state)),
            Asked::Routing { path, routing } => Ok(queries::routing_with_path(path.as_str(), routing)),
            Asked::Assets => Ok(queries::assets_json(&self.state)),
            Asked::Core => Ok(queries::core_json(&self.state)),
            Asked::ServiceLogs(logs) => Ok(queries::logs_json(logs.as_str())),
            Asked::ServiceStatus(active) => Ok(queries::active_json(*active)),
            Asked::ProxyShow => Ok(queries::proxy_json(&self.config)),
            Asked::ProxyEnv => Ok(queries::proxy_environment(&self.config)),
            Asked::TunStatus(active) => Ok(queries::tun_status_json(&self.backends, *active)),
            Asked::Subscriptions(list) => Ok(
                queries::subscriptions_json(&order::sort_subscriptions(list)),
            ),
            Asked::RoutingValidate { path } => Ok(queries::routing_valid(path.as_str())),
            Asked::RoutingPresets => Ok(queries::presets_json()),
            Asked::NodeProbe { node, result } => Ok(
                queries::node_probe_json(&NodeDto::from(node), result),
            ),
            Asked::NodeProbeAll(outcomes) => Ok(queries::outcomes_json(outcomes)),
            Asked::RoutingExplain { path, name, routing } => Ok(
                queries::routing_explained(path.as_str(), name, routing),
            ),
            Asked::AssetShow { id } => self.query_asset(id.as_str()),
            Asked::CoreList => Ok(queries::core_list_json(&self.state)),
            Asked::ProxyTest => Ok(queries::proxy_tested(&self.config)),
            Asked::TunShowRules { firewall, policy } => Ok(
                queries::tun_rules_json(firewall.as_str(), policy.as_str(), &self.config),
            ),
            Asked::TunTest { policy_active, interface_active, firewall_present, policy } => Ok(
                queries::tun_test_json(
                    *policy_active,
                    *interface_active,
                    *firewall_present,
                    policy.as_str(),
                    &self.config,
                ),
            ),
            Asked::AppList(profiles) => Ok(
                queries::profiles_json(&order::sort_profiles(profiles)),
            ),
            Asked::MenuSettings => Ok(queries::menu_json(self.config.menu)),
        }
    }

    /// Plans an operation on a host that has to have what it needs.
    pub fn plan(&self, operation: &Operation, paths: &ManagerPaths) -> (r: Result<
        PlanSource,
        ManagerError,
    >)
        ensures
            match r {
                Ok(p) => planning::plan_source(
                    operation@,
                    self.config@,
                    paths@,
                    self.backends@,
                    true,
                ) == Ok::<PlanSourceView, ManagerErrorView>(p@),
                Err(e) => planning::plan_source(
                    operation@,
                    self.config@,
                    paths@,
                    self.backends@,
                    true,
                ) == Err::<PlanSourceView, ManagerErrorView>(e@),
            },
    {
        planning::plan_operation(operation, &self.config, paths, &self.backends, true)
    }

    /// Begins an operation: refuses it at once, or says in which order it is
    /// carried out.
    pub fn execute(&self, operation: &Operation, options: OperationOptions) -> (r: Result<
        Vec<Stage>,
        ManagerError,
    >)
        ensures
            match r {
                Ok(stages) => execution::early_refusal(
                    operation@,
                    options,
                    self.config@.core.manager_repository,
                ) is None && stages@ == execution::stages_of(operation@, options.dry_run),
                Err(e) => execution::early_refusal(
                    operation@,
                    options,
                    self.config@.core.manager_repository,
                ) == Some(e@),
            },
    {
        match execution::check_early(operation, options, &self.config.core.manager_repository) {
            Ok(_) => Ok(execution::stages(operation, options.dry_run)),
            Err(e) => Err(e),
        }
    }
}

} // verus!
