//! Routing rules.

use crate::error::{ManagerError, ManagerErrorView};
use crate::json::{Json, JsonObject, JsonView};
use crate::config;
use crate::json;
use crate::text;
use vstd::prelude::*;

verus! {

/// A rule that sends matching traffic to an outbound.
#[derive(Debug)]
pub struct RoutingRule {
    pub name: String,
    pub enabled: bool,
    pub domain: Vec<String>,
    pub ip: Vec<String>,
    pub port: Option<String>,
    pub source_port: Option<String>,
    pub local_port: Option<String>,
    pub network: Option<String>,
    pub source_ip: Vec<String>,
    pub local_ip: Vec<String>,
    pub inbound_tag: Vec<String>,
    pub protocol: Vec<String>,
    pub process: Vec<String>,
    pub outbound: String,
}

/// The mathematical value of a [`RoutingRule`].
#[verifier::ext_equal]
pub struct RoutingRuleView {
    pub name: Seq<char>,
    pub enabled: bool,
    pub domain: Seq<Seq<char>>,
    pub ip: Seq<Seq<char>>,
    pub port: Option<Seq<char>>,
    pub source_port: Option<Seq<char>>,
    pub local_port: Option<Seq<char>>,
    pub network: Option<Seq<char>>,
    pub source_ip: Seq<Seq<char>>,
    pub local_ip: Seq<Seq<char>>,
    pub inbound_tag: Seq<Seq<char>>,
    pub protocol: Seq<Seq<char>>,
    pub process: Seq<Seq<char>>,
    pub outbound: Seq<char>,
}

impl View for RoutingRule {
    type V = RoutingRuleView;

    open spec fn view(&self) -> RoutingRuleView {
        RoutingRuleView {
            name: self.name@,
            enabled: self.enabled,
            domain: text::texts(self.domain@),
            ip: text::texts(self.ip@),
            port: text::opt_text(self.port),
            source_port: text::opt_text(self.source_port),
            local_port: text::opt_text(self.local_port),
            network: text::opt_text(self.network),
            source_ip: text::texts(self.source_ip@),
            local_ip: text::texts(self.local_ip@),
            inbound_tag: text::texts(self.inbound_tag@),
            protocol: text::texts(self.protocol@),
            process: text::texts(self.process@),
            outbound: self.outbound@,
        }
    }
}

impl Clone for RoutingRule {
    fn clone(&self) -> (r: Self)
        ensures
            r@ == self@,
    {
        RoutingRule {
            name: self.name.clone(),
            enabled: self.enabled,
            domain: text::copy_texts(&self.domain),
            ip: text::copy_texts(&self.ip),
            port: text::copy_opt(&self.port),
            source_port: text::copy_opt(&self.source_port),
            local_port: text::copy_opt(&self.local_port),
            network: text::copy_opt(&self.network),
            source_ip: text::copy_texts(&self.source_ip),
            local_ip: text::copy_texts(&self.local_ip),
            inbound_tag: text::copy_texts(&self.inbound_tag),
            protocol: text::copy_texts(&self.protocol),
            process: text::copy_texts(&self.process),
            outbound: self.outbound.clone(),
        }
    }
}

pub open spec fn routing_rule_views(v: Seq<RoutingRule>) -> Seq<RoutingRuleView> {
    v.map_values(|x: RoutingRule| x@)
}

pub broadcast proof fn lemma_routing_rule_views_push(v: Seq<RoutingRule>, x: RoutingRule)
    ensures
        #[trigger] routing_rule_views(v.push(x)) == routing_rule_views(v).push(x@),
{
    assert(routing_rule_views(v.push(x)) =~= routing_rule_views(v).push(x@));
}

/// A copy of a list of [`RoutingRule`].
pub fn copy_routing_rules(v: &Vec<RoutingRule>) -> (r: Vec<RoutingRule>)
    ensures
        routing_rule_views(r@) == routing_rule_views(v@),
{
    let mut r: Vec<RoutingRule> = Vec::new();
    let mut i: usize = 0;
    while i < v.len()
        invariant
            i <= v@.len(),
            routing_rule_views(r@) == routing_rule_views(v@).take(i as int),
        decreases v@.len() - i,
    {
        let x = v[i].clone();
        proof {
            lemma_routing_rule_views_push(r@, x);
            assert(routing_rule_views(v@).take(i + 1) =~= routing_rule_views(v@).take(i as int).push(x@));
        }
        r.push(x);
        i += 1;
    }
    assert(routing_rule_views(v@).take(v@.len() as int) =~= routing_rule_views(v@));
    r
}

/// Rules in order, and the outbound of the rest.
#[derive(Debug)]
pub struct RoutingConfig {
    pub domain_strategy: String,
    pub default_outbound: String,
    pub rules: Vec<RoutingRule>,
}

/// The mathematical value of a [`RoutingConfig`].
#[verifier::ext_equal]
pub struct RoutingConfigView {
    pub domain_strategy: Seq<char>,
    pub default_outbound: Seq<char>,
    pub rules: Seq<RoutingRuleView>,
}

impl View for RoutingConfig {
    type V = RoutingConfigView;

    open spec fn view(&self) -> RoutingConfigView {
        RoutingConfigView {
            domain_strategy: self.domain_strategy@,
            default_outbound: self.default_outbound@,
            rules: routing_rule_views(self.rules@),
        }
    }
}

impl Clone for RoutingConfig {
    fn clone(&self) -> (r: Self)
        ensures
            r@ == self@,
    {
        RoutingConfig {
            domain_strategy: self.domain_strategy.clone(),
            default_outbound: self.default_outbound.clone(),
            rules: copy_routing_rules(&self.rules),
        }
    }
}

/// The outbounds that a rule can name.
pub open spec fn is_outbound(s: Seq<char>) -> bool {
    s == "proxy"@ || s == "direct"@ || s == "block"@
}

/// Whether `s` names an outbound.
pub fn known_outbound(s: &str) -> (r: bool)
    ensures
        r == is_outbound(s@),
{
    text::same(s, "proxy") || text::same(s, "direct") || text::same(s, "block")
}

/// What is wrong with a rule, given those before it.
pub open spec fn rule_problem(before: Seq<RoutingRuleView>, rule: RoutingRuleView) -> Option<
    Seq<char>,
> {
    if text::trimmed(rule.name).len() == 0 || exists|i: int|
        0 <= i < before.len() && (#[trigger] before[i]).name == rule.name {
        Some("routing rule names must be non-empty and unique"@)
    } else if !is_outbound(rule.outbound) {
        Some("routing rule '"@ + rule.name + "' has an unknown outbound"@)
    } else {
        None
    }
}

/// What is wrong with the first rule that has a problem.
pub open spec fn rules_problem(rules: Seq<RoutingRuleView>) -> Option<Seq<char>>
    decreases rules.len(),
{
    if rules.len() == 0 {
        None
    } else {
        config::first_problem(
            rules_problem(rules.drop_last()),
            rule_problem(rules.drop_last(), rules.last()),
        )
    }
}

/// The first problem of a routing configuration.
pub open spec fn routing_problem(c: RoutingConfigView) -> Option<Seq<char>> {
    if !is_outbound(c.default_outbound) {
        Some("default_outbound must be proxy, direct, or block"@)
    } else if c.domain_strategy != "AsIs"@ && c.domain_strategy != "IPIfNonMatch"@
        && c.domain_strategy != "IPOnDemand"@ {
        Some("domain_strategy must be AsIs, IPIfNonMatch, or IPOnDemand"@)
    } else {
        rules_problem(c.rules)
    }
}

proof fn lemma_rules_problem(rules: Seq<RoutingRuleView>, i: int)
    requires
        0 <= i <= rules.len(),
        rules_problem(rules.take(i)) is Some,
    ensures
        rules_problem(rules) == rules_problem(rules.take(i)),
    decreases rules.len(),
{
    if i == rules.len() {
        assert(rules.take(i) =~= rules);
    } else {
        assert(rules.drop_last().take(i) =~= rules.take(i));
        lemma_rules_problem(rules.drop_last(), i);
    }
}

fn check_rule(rules: &Vec<RoutingRule>, i: usize) -> (r: Result<(), ManagerError>)
    requires
        i < rules@.len(),
    ensures
        config::checked(
            r,
            rule_problem(routing_rule_views(rules@).take(i as int), rules@[i as int]@),
        ),
{
    let rule = &rules[i];
    let ghost before = routing_rule_views(rules@).take(i as int);
    if text::is_blank(rule.name.as_str()) {
        return Err(
            ManagerError::InvalidConfig(text::owned("routing rule names must be non-empty and unique")),
        );
    }
    let mut j: usize = 0;
    while j < i
        invariant
            j <= i < rules@.len(),
            rule@ == rules@[i as int]@,
            before == routing_rule_views(rules@).take(i as int),
            text::trimmed(rule@.name).len() > 0,
            forall|k: int| 0 <= k < j ==> (#[trigger] before[k]).name != rule@.name,
        decreases i - j,
    {
        assert(before[j as int] == rules@[j as int]@);
        if text::same(rules[j].name.as_str(), rule.name.as_str()) {
            return Err(
                ManagerError::InvalidConfig(
                    text::owned("routing rule names must be non-empty and unique"),
                ),
            );
        }
        j += 1;
    }
    if !known_outbound(rule.outbound.as_str()) {
        return Err(
            ManagerError::InvalidConfig(
                text::concat3("routing rule '", rule.name.as_str(), "' has an unknown outbound"),
            ),
        );
    }
    Ok(())
}

/// The members of a JSON object with a list, where the list is not empty.
pub open spec fn with_list(
    m: Map<Seq<char>, JsonView>,
    key: Seq<char>,
    v: Seq<Seq<char>>,
) -> Map<Seq<char>, JsonView> {
    if v.len() == 0 {
        m
    } else {
        m.insert(key, json::texts_view(v))
    }
}

/// The members of a JSON object with a text, where there is one.
pub open spec fn with_option(
    m: Map<Seq<char>, JsonView>,
    key: Seq<char>,
    o: Option<Seq<char>>,
) -> Map<Seq<char>, JsonView> {
    match o {
        Some(s) => m.insert(key, JsonView::Text(s)),
        None => m,
    }
}

fn insert_nonempty(object: &mut JsonObject, key: &str, v: &Vec<String>)
    ensures
        final(object)@ == with_list(old(object)@, key@, text::texts(v@)),
{
    assert(text::texts(v@).len() == v@.len());
    if v.len() > 0 {
        object.insert(key, json::text_array(v));
    }
}

fn insert_option(object: &mut JsonObject, key: &str, o: &Option<String>)
    ensures
        final(object)@ == with_option(old(object)@, key@, text::opt_text(*o)),
{
    match o {
        Some(s) => object.insert(key, json::text(s.as_str())),
        None => {},
    }
}

/// A rule as Xray reads it.
pub open spec fn rule_json(r: RoutingRuleView) -> JsonView {
    let a = Map::<Seq<char>, JsonView>::empty().insert("type"@, JsonView::Text("field"@));
    let b = with_list(with_list(a, "domain"@, r.domain), "ip"@, r.ip);
    let c = with_option(
        with_option(
            with_option(with_option(b, "port"@, r.port), "sourcePort"@, r.source_port),
            "localPort"@,
            r.local_port,
        ),
        "network"@,
        r.network,
    );
    let d = with_list(
        with_list(
            with_list(
                with_list(with_list(c, "source"@, r.source_ip), "local"@, r.local_ip),
                "inboundTag"@,
                r.inbound_tag,
            ),
            "protocol"@,
            r.protocol,
        ),
        "process"@,
        r.process,
    );
    JsonView::Object(d.insert("outboundTag"@, JsonView::Text(r.outbound)))
}

impl RoutingRule {
    /// The rule as Xray reads it.
    pub fn to_xray_json(&self) -> (r: Json)
        ensures
            r@ == rule_json(self@),
    {
        let mut object = JsonObject::new();
        object.insert("type", json::text("field"));
        insert_nonempty(&mut object, "domain", &self.domain);
        insert_nonempty(&mut object, "ip", &self.ip);
        insert_option(&mut object, "port", &self.port);
        insert_option(&mut object, "sourcePort", &self.source_port);
        insert_option(&mut object, "localPort", &self.local_port);
        insert_option(&mut object, "network", &self.network);
        insert_nonempty(&mut object, "source", &self.source_ip);
        insert_nonempty(&mut object, "local", &self.local_ip);
        insert_nonempty(&mut object, "inboundTag", &self.inbound_tag);
        insert_nonempty(&mut object, "protocol", &self.protocol);
        insert_nonempty(&mut object, "process", &self.process);
        object.insert("outboundTag", json::text(self.outbound.as_str()));
        Json::Object(object)
    }
}

/// The rule that sends everything else to the default outbound.
pub open spec fn catch_all(outbound: Seq<char>) -> JsonView {
    JsonView::Object(
        Map::<Seq<char>, JsonView>::empty().insert("type"@, JsonView::Text("field"@)).insert(
            "network"@,
            JsonView::Text("tcp,udp"@),
        ).insert("outboundTag"@, JsonView::Text(outbound)),
    )
}

/// The enabled rules in order.
pub open spec fn enabled_rules(rules: Seq<RoutingRuleView>) -> Seq<RoutingRuleView> {
    rules.filter(|r: RoutingRuleView| r.enabled)
}

/// The rules as Xray reads them: the enabled ones in order, then the catch-all.
pub open spec fn rules_json(c: RoutingConfigView) -> Seq<JsonView> {
    enabled_rules(c.rules).map_values(|r: RoutingRuleView| rule_json(r)).push(
        catch_all(c.default_outbound),
    )
}

/// A routing configuration as Xray reads it.
pub open spec fn routing_json(c: RoutingConfigView) -> JsonView {
    JsonView::Object(
        Map::<Seq<char>, JsonView>::empty().insert(
            "routing"@,
            JsonView::Object(
                Map::<Seq<char>, JsonView>::empty().insert(
                    "domainStrategy"@,
                    JsonView::Text(c.domain_strategy),
                ).insert("rules"@, JsonView::Array(rules_json(c))),
            ),
        ),
    )
}

/// The last rule catches all that no enabled rule did.
pub proof fn law_catch_all_is_last(c: RoutingConfigView)
    ensures
        rules_json(c).len() == enabled_rules(c.rules).len() + 1,
        rules_json(c).last() == catch_all(c.default_outbound),
{
}

/// The rules that Xray reads are in the order of the configured rules.
pub proof fn law_rules_keep_order(c: RoutingConfigView, i: int, j: int)
    requires
        0 <= i < j < enabled_rules(c.rules).len(),
    ensures
        exists|a: int, b: int|
            0 <= a < b < c.rules.len() && c.rules[a].enabled && c.rules[b].enabled
                && #[trigger] rule_json(c.rules[a]) == rules_json(c)[i] && #[trigger] rule_json(
                c.rules[b],
            ) == rules_json(c)[j],
{
    let (a, b) = lemma_enabled_order(c.rules, i, j);
    assert(rule_json(c.rules[a]) == rules_json(c)[i]);
    assert(rule_json(c.rules[b]) == rules_json(c)[j]);
}

proof fn lemma_enabled_source(rules: Seq<RoutingRuleView>, i: int) -> (a: int)
    requires
        0 <= i < enabled_rules(rules).len(),
    ensures
        0 <= a < rules.len(),
        rules[a].enabled,
        rules[a] == enabled_rules(rules)[i],
    decreases rules.len(),
{
    reveal(Seq::filter);
    let rest = enabled_rules(rules.drop_last());
    if i < rest.len() {
        let a = lemma_enabled_source(rules.drop_last(), i);
        assert(rules.drop_last()[a] == rules[a]);
        a
    } else {
        rules.len() - 1
    }
}

proof fn lemma_enabled_order(rules: Seq<RoutingRuleView>, i: int, j: int) -> (r: (int, int))
    requires
        0 <= i < j < enabled_rules(rules).len(),
    ensures
        0 <= r.0 < r.1 < rules.len(),
        rules[r.0].enabled,
        rules[r.1].enabled,
        rules[r.0] == enabled_rules(rules)[i],
        rules[r.1] == enabled_rules(rules)[j],
    decreases rules.len(),
{
    reveal(Seq::filter);
    let rest = enabled_rules(rules.drop_last());
    if j < rest.len() {
        let (a, b) = lemma_enabled_order(rules.drop_last(), i, j);
        assert(rules.drop_last()[a] == rules[a]);
        assert(rules.drop_last()[b] == rules[b]);
        (a, b)
    } else {
        let a = lemma_enabled_source(rules.drop_last(), i);
        assert(rules.drop_last()[a] == rules[a]);
        (a, rules.len() - 1)
    }
}

/// The preset of a rule that matches domains and addresses alone.
pub open spec fn simple_rule(
    name: Seq<char>,
    domain: Seq<Seq<char>>,
    ip: Seq<Seq<char>>,
    outbound: Seq<char>,
) -> RoutingRuleView {
    RoutingRuleView {
        name,
        enabled: true,
        domain,
        ip,
        port: None,
        source_port: None,
        local_port: None,
        network: None,
        source_ip: Seq::empty(),
        local_ip: Seq::empty(),
        inbound_tag: Seq::empty(),
        protocol: Seq::empty(),
        process: Seq::empty(),
        outbound,
    }
}

fn make_rule(name: &str, domain: Vec<String>, ip: Vec<String>, outbound: &str) -> (r: RoutingRule)
    ensures
        r@ == simple_rule(name@, text::texts(domain@), text::texts(ip@), outbound@),
{
    let none: Vec<String> = Vec::new();
    proof {
        text::lemma_texts_empty(none@);
    }
    RoutingRule {
        name: text::owned(name),
        enabled: true,
        domain,
        ip,
        port: None,
        source_port: None,
        local_port: None,
        network: None,
        source_ip: text::copy_texts(&none),
        local_ip: text::copy_texts(&none),
        inbound_tag: text::copy_texts(&none),
        protocol: text::copy_texts(&none),
        process: none,
        outbound: text::owned(outbound),
    }
}

/// The presets by name.
pub open spec fn preset_config(name: Seq<char>) -> Option<RoutingConfigView> {
    if name == "global-proxy"@ {
        Some(
            RoutingConfigView {
                domain_strategy: "AsIs"@,
                default_outbound: "proxy"@,
                rules: seq![
                    simple_rule(
                        "private-ip-direct"@,
                        seq![],
                        seq!["geoip:private"@],
                        "direct"@,
                    ),
                    simple_rule(
                        "private-domain-direct"@,
                        seq!["geosite:private"@],
                        seq![],
                        "direct"@,
                    ),
                ],
            },
        )
    } else if name == "runet-blocked-only"@ {
        Some(
            RoutingConfigView {
                domain_strategy: "AsIs"@,
                default_outbound: "direct"@,
                rules: seq![
                    simple_rule(
                        "blocked-ip-proxy"@,
                        seq![],
                        seq!["geoip:ru-blocked"@, "geoip:ru-blocked-community"@],
                        "proxy"@,
                    ),
                    simple_rule(
                        "blocked-domain-proxy"@,
                        seq!["geosite:ru-blocked"@, "geosite:ru-blocked-all"@],
                        seq![],
                        "proxy"@,
                    ),
                ],
            },
        )
    } else if name == "ru-direct"@ {
        Some(
            RoutingConfigView {
                domain_strategy: "AsIs"@,
                default_outbound: "proxy"@,
                rules: seq![
                    simple_rule("ru-ip-direct"@, seq![], seq!["geoip:ru-whitelist"@], "direct"@),
                    simple_rule(
                        "ru-domain-direct"@,
                        seq!["geosite:ru-available-only-inside"@],
                        seq![],
                        "direct"@,
                    ),
                ],
            },
        )
    } else {
        None
    }
}

fn list0() -> (r: Vec<String>)
    ensures
        text::texts(r@) == Seq::<Seq<char>>::empty(),
{
    let r: Vec<String> = Vec::new();
    proof {
        text::lemma_texts_empty(r@);
    }
    r
}

fn list1(a: &str) -> (r: Vec<String>)
    ensures
        text::texts(r@) == seq![a@],
{
    let r: Vec<String> = vec![text::owned(a)];
    assert(text::texts(r@) =~= seq![a@]);
    r
}

fn list2(a: &str, b: &str) -> (r: Vec<String>)
    ensures
        text::texts(r@) == seq![a@, b@],
{
    let r: Vec<String> = vec![text::owned(a), text::owned(b)];
    assert(text::texts(r@) =~= seq![a@, b@]);
    r
}

fn make_config(default_outbound: &str, first: RoutingRule, second: RoutingRule) -> (r: RoutingConfig)
    ensures
        r@ == (RoutingConfigView {
            domain_strategy: "AsIs"@,
            default_outbound: default_outbound@,
            rules: seq![first@, second@],
        }),
{
    let rules: Vec<RoutingRule> = vec![first, second];
    assert(routing_rule_views(rules@) =~= seq![first@, second@]);
    RoutingConfig { domain_strategy: text::owned("AsIs"), default_outbound: text::owned(default_outbound), rules }
}

impl RoutingConfig {
    /// Checks the configuration; the error is the first problem.
    pub fn validate(&self) -> (r: Result<(), ManagerError>)
        ensures
            config::checked(r, routing_problem(self@)),
    {
        if !known_outbound(self.default_outbound.as_str()) {
            return Err(
                ManagerError::InvalidConfig(
                    text::owned("default_outbound must be proxy, direct, or block"),
                ),
            );
        }
        let strategy = self.domain_strategy.as_str();
        if !text::same(strategy, "AsIs") && !text::same(strategy, "IPIfNonMatch") && !text::same(
            strategy,
            "IPOnDemand",
        ) {
            return Err(
                ManagerError::InvalidConfig(
                    text::owned("domain_strategy must be AsIs, IPIfNonMatch, or IPOnDemand"),
                ),
            );
        }
        let ghost views = routing_rule_views(self.rules@);
        let mut i: usize = 0;
        assert(views.take(0).len() == 0);
        while i < self.rules.len()
            invariant
                i <= self.rules@.len(),
                views == routing_rule_views(self.rules@),
                rules_problem(views.take(i as int)) is None,
                is_outbound(self@.default_outbound),
                self@.domain_strategy == "AsIs"@ || self@.domain_strategy == "IPIfNonMatch"@
                    || self@.domain_strategy == "IPOnDemand"@,
            decreases self.rules@.len() - i,
        {
            proof {
                assert(views.take(i + 1).drop_last() =~= views.take(i as int));
                assert(views.take(i + 1).last() == self.rules@[i as int]@);
            }
            match check_rule(&self.rules, i) {
                Ok(_) => {},
                Err(e) => {
                    proof {
                        lemma_rules_problem(views, i + 1);
                    }
                    return Err(e);
                },
            }
            i += 1;
        }
        assert(views.take(views.len() as int) =~= views);
        Ok(())
    }

    /// The configuration as Xray reads it.
    pub fn to_xray_json(&self) -> (r: Json)
        ensures
            r@ == routing_json(self@),
    {
        let ghost views = routing_rule_views(self.rules@);
        let mut items: Vec<Json> = Vec::new();
        let mut i: usize = 0;
        proof {
            reveal(Seq::filter);
            assert(views.take(0).len() == 0);
            assert(enabled_rules(views.take(0)) =~= Seq::<RoutingRuleView>::empty());
            assert(json::array_view(items@) =~= enabled_rules(views.take(0)).map_values(
                |r: RoutingRuleView| rule_json(r),
            ));
        }
        while i < self.rules.len()
            invariant
                i <= self.rules@.len(),
                views == routing_rule_views(self.rules@),
                json::array_view(items@) == enabled_rules(views.take(i as int)).map_values(
                    |r: RoutingRuleView| rule_json(r),
                ),
            decreases self.rules@.len() - i,
        {
            proof {
                reveal(Seq::filter);
                assert(views.take(i + 1).drop_last() =~= views.take(i as int));
                assert(views.take(i + 1).last() == self.rules@[i as int]@);
            }
            if self.rules[i].enabled {
                let item = self.rules[i].to_xray_json();
                json::push_item(&mut items, item);
                proof {
                    let before = enabled_rules(views.take(i as int));
                    assert(before.push(self.rules@[i as int]@).map_values(
                        |r: RoutingRuleView| rule_json(r),
                    ) =~= before.map_values(|r: RoutingRuleView| rule_json(r)).push(
                        rule_json(self.rules@[i as int]@),
                    ));
                }
            }
            i += 1;
        }
        assert(views.take(views.len() as int) =~= views);
        let last = JsonObject::new().with("type", json::text("field")).with(
            "network",
            json::text("tcp,udp"),
        ).with("outboundTag", json::text(self.default_outbound.as_str()));
        json::push_item(&mut items, Json::Object(last));
        let inner = JsonObject::new().with(
            "domainStrategy",
            json::text(self.domain_strategy.as_str()),
        ).with("rules", Json::Array(items));
        Json::Object(JsonObject::new().with("routing", Json::Object(inner)))
    }

    /// A preset by name.
    pub fn preset(name: &str) -> (r: Result<RoutingConfig, ManagerError>)
        ensures
            match r {
                Ok(c) => preset_config(name@) == Some(c@),
                Err(e) => preset_config(name@) is None && e@ == ManagerErrorView::InvalidConfig(
                    "unknown routing preset: "@ + name@,
                ),
            },
    {
        if text::same(name, "global-proxy") {
            Ok(
                make_config(
                    "proxy",
                    make_rule("private-ip-direct", list0(), list1("geoip:private"), "direct"),
                    make_rule("private-domain-direct", list1("geosite:private"), list0(), "direct"),
                ),
            )
        } else if text::same(name, "runet-blocked-only") {
            Ok(
                make_config(
                    "direct",
                    make_rule(
                        "blocked-ip-proxy",
                        list0(),
                        list2("geoip:ru-blocked", "geoip:ru-blocked-community"),
                        "proxy",
                    ),
                    make_rule(
                        "blocked-domain-proxy",
                        list2("geosite:ru-blocked", "geosite:ru-blocked-all"),
                        list0(),
                        "proxy",
                    ),
                ),
            )
        } else if text::same(name, "ru-direct") {
            Ok(
                make_config(
                    "proxy",
                    make_rule("ru-ip-direct", list0(), list1("geoip:ru-whitelist"), "direct"),
                    make_rule(
                        "ru-domain-direct",
                        list1("geosite:ru-available-only-inside"),
                        list0(),
                        "direct",
                    ),
                ),
            )
        } else {
            Err(ManagerError::InvalidConfig(text::concat("unknown routing preset: ", name)))
        }
    }
}

} // verus!
