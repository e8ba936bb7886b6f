//! What routing does with traffic, by the names that Xray reads.

use crate::json::JsonView;
use crate::json::texts_view;
use crate::laws::reading::{item, mark, member, text};
use crate::routing::{is_outbound, preset_config, routing_json, routing_problem, rules_json};
use crate::routing::{RoutingConfigView, RoutingRuleView};
use crate::routing;
use vstd::prelude::*;

verus! {

proof fn lemma_keys()
    ensures
        mark("type"@) == (4int, 't', 'y', 'p', 'e', 'e'),
        mark("domain"@) == (6int, 'd', 'm', 'a', 'i', 'n'),
        mark("ip"@) == (2int, 'i', 'i', 'p', 'p', 'p'),
        mark("port"@) == (4int, 'p', 'o', 'r', 't', 't'),
        mark("sourcePort"@) == (10int, 's', 'r', 'e', 'o', 't'),
        mark("localPort"@) == (9int, 'l', 'a', 'l', 'o', 't'),
        mark("network"@) == (7int, 'n', 't', 'w', 'r', 'k'),
        mark("source"@) == (6int, 's', 'u', 'r', 'c', 'e'),
        mark("local"@) == (5int, 'l', 'o', 'c', 'a', 'l'),
        mark("inboundTag"@) == (10int, 'i', 'o', 'n', 'T', 'g'),
        mark("protocol"@) == (8int, 'p', 'o', 'o', 'o', 'l'),
        mark("process"@) == (7int, 'p', 'o', 'c', 's', 's'),
        mark("outboundTag"@) == (11int, 'o', 'b', 'u', 'T', 'g'),
        mark("rules"@) == (5int, 'r', 'u', 'l', 'e', 's'),
        mark("domainStrategy"@) == (14int, 'd', 'i', 't', 't', 'y'),
{
    reveal_strlit("type");
    reveal_strlit("domain");
    reveal_strlit("ip");
    reveal_strlit("port");
    reveal_strlit("sourcePort");
    reveal_strlit("localPort");
    reveal_strlit("network");
    reveal_strlit("source");
    reveal_strlit("local");
    reveal_strlit("inboundTag");
    reveal_strlit("protocol");
    reveal_strlit("process");
    reveal_strlit("outboundTag");
    reveal_strlit("rules");
    reveal_strlit("domainStrategy");
}

/// The rules of a routing, as Xray reads them.
pub open spec fn written(c: RoutingConfigView) -> Option<JsonView> {
    member(member(Some(routing_json(c)), "routing"@), "rules"@)
}

/// A rule is written with each of its conditions under its own name, without
/// the conditions that it does not have, and with its outbound.
pub proof fn law_rule_is_written(r: RoutingRuleView)
    ensures
        ({
            let j = Some(routing::rule_json(r));
            &&& member(j, "type"@) == text("field"@)
            &&& member(j, "outboundTag"@) == text(r.outbound)
            &&& member(j, "domain"@) == (if r.domain.len() == 0 {
                None
            } else {
                Some(texts_view(r.domain))
            })
            &&& member(j, "ip"@) == (if r.ip.len() == 0 {
                None
            } else {
                Some(texts_view(r.ip))
            })
            &&& member(j, "source"@) == (if r.source_ip.len() == 0 {
                None
            } else {
                Some(texts_view(r.source_ip))
            })
            &&& member(j, "local"@) == (if r.local_ip.len() == 0 {
                None
            } else {
                Some(texts_view(r.local_ip))
            })
            &&& member(j, "inboundTag"@) == (if r.inbound_tag.len() == 0 {
                None
            } else {
                Some(texts_view(r.inbound_tag))
            })
            &&& member(j, "protocol"@) == (if r.protocol.len() == 0 {
                None
            } else {
                Some(texts_view(r.protocol))
            })
            &&& member(j, "process"@) == (if r.process.len() == 0 {
                None
            } else {
                Some(texts_view(r.process))
            })
            &&& member(j, "port"@) == (match r.port {
                Some(v) => text(v),
                None => None,
            })
            &&& member(j, "sourcePort"@) == (match r.source_port {
                Some(v) => text(v),
                None => None,
            })
            &&& member(j, "localPort"@) == (match r.local_port {
                Some(v) => text(v),
                None => None,
            })
            &&& member(j, "network"@) == (match r.network {
                Some(v) => text(v),
                None => None,
            })
        }),
{
    lemma_keys();
}

/// What matches no rule goes to the default outbound: the last rule matches all
/// TCP and UDP traffic and sends it there.
pub proof fn law_unmatched_goes_to_default(c: RoutingConfigView)
    ensures
        ({
            let last = item(written(c), rules_json(c).len() - 1);
            &&& written(c) == Some(JsonView::Array(rules_json(c)))
            &&& rules_json(c).len() > 0
            &&& member(last, "type"@) == text("field"@)
            &&& member(last, "network"@) == text("tcp,udp"@)
            &&& member(last, "outboundTag"@) == text(c.default_outbound)
            &&& member(last, "domain"@) is None && member(last, "ip"@) is None && member(
                last,
                "port"@,
            ) is None
            &&& member(member(Some(routing_json(c)), "routing"@), "domainStrategy"@) == text(
                c.domain_strategy,
            )
        }),
{
    lemma_keys();
}

/// Every enabled rule is written before the last.
pub proof fn law_enabled_rule_is_written(c: RoutingConfigView, i: int) -> (k: int)
    requires
        0 <= i < c.rules.len(),
        c.rules[i].enabled,
    ensures
        0 <= k < rules_json(c).len() - 1,
        rules_json(c)[k] == routing::rule_json(c.rules[i]),
{
    let keep = |r: RoutingRuleView| r.enabled;
    let kept = c.rules.filter(keep);
    lemma_filtered(c.rules, keep);
    assert(kept == routing::enabled_rules(c.rules));
    assert(keep(c.rules[i]));
    assert(kept.contains(c.rules[i]));
    choose|k: int| 0 <= k < kept.len() && kept[k] == c.rules[i]
}

/// No disabled rule is written: what stands before the last rule is an enabled one.
pub proof fn law_disabled_rules_are_not_written(c: RoutingConfigView, k: int) -> (i: int)
    requires
        0 <= k < rules_json(c).len() - 1,
    ensures
        rules_json(c).len() <= c.rules.len() + 1,
        0 <= i < c.rules.len(),
        c.rules[i].enabled,
        rules_json(c)[k] == routing::rule_json(c.rules[i]),
{
    let keep = |r: RoutingRuleView| r.enabled;
    let kept = c.rules.filter(keep);
    lemma_filtered(c.rules, keep);
    assert(kept == routing::enabled_rules(c.rules));
    assert(kept.contains(kept[k]));
    assert(c.rules.contains(kept[k]) && keep(kept[k]));
    choose|i: int| 0 <= i < c.rules.len() && c.rules[i] == kept[k]
}

/// What a filter keeps of a list.
pub proof fn lemma_filtered<A>(s: Seq<A>, keep: spec_fn(A) -> bool)
    ensures
        s.filter(keep).len() <= s.len(),
        forall|i: int| 0 <= i < s.len() && keep(#[trigger] s[i]) ==> s.filter(keep).contains(s[i]),
        forall|x: A| #[trigger] s.filter(keep).contains(x) ==> s.contains(x) && keep(x),
    decreases s.len(),
{
    reveal(Seq::filter);
    if s.len() > 0 {
        let rest = s.drop_last();
        let f = rest.filter(keep);
        let g = s.filter(keep);
        lemma_filtered(rest, keep);
        assert forall|i: int| 0 <= i < s.len() && keep(#[trigger] s[i]) implies g.contains(s[i]) by {
            if i < rest.len() {
                assert(rest[i] == s[i]);
                let k = choose|k: int| 0 <= k < f.len() && f[k] == s[i];
                assert(g[k] == s[i]);
            } else {
                assert(g[g.len() - 1] == s[i]);
            }
        }
        assert forall|x: A| #[trigger] g.contains(x) implies s.contains(x) && keep(x) by {
            let k = choose|k: int| 0 <= k < g.len() && g[k] == x;
            if k < f.len() {
                assert(f[k] == x);
                assert(f.contains(x));
                let i = choose|i: int| 0 <= i < rest.len() && rest[i] == x;
                assert(s[i] == x);
            } else {
                assert(s[s.len() - 1] == x);
            }
        }
    }
}

/// A routing is accepted exactly where its default and the outbound of each of
/// its rules are `proxy`, `direct` or `block`, it has one of the three domain
/// strategies, and no name of a rule is blank or stands twice.
pub proof fn law_valid_routing(c: RoutingConfigView)
    ensures
        routing_problem(c) is None <==> {
            &&& c.default_outbound == "proxy"@ || c.default_outbound == "direct"@
                || c.default_outbound == "block"@
            &&& c.domain_strategy == "AsIs"@ || c.domain_strategy == "IPIfNonMatch"@
                || c.domain_strategy == "IPOnDemand"@
            &&& forall|i: int|
                0 <= i < c.rules.len() ==> {
                    let o = (#[trigger] c.rules[i]).outbound;
                    o == "proxy"@ || o == "direct"@ || o == "block"@
                }
            &&& forall|i: int|
                0 <= i < c.rules.len() ==> crate::text::trimmed((#[trigger] c.rules[i]).name).len() > 0
            &&& forall|i: int, j: int|
                0 <= i < j < c.rules.len() ==> (#[trigger] c.rules[i]).name != (
                #[trigger] c.rules[j]).name
        },
{
    lemma_valid_rules(c.rules);
}

proof fn lemma_valid_rules(rules: Seq<RoutingRuleView>)
    ensures
        routing::rules_problem(rules) is None <==> {
            &&& forall|i: int| 0 <= i < rules.len() ==> is_outbound((#[trigger] rules[i]).outbound)
            &&& forall|i: int|
                0 <= i < rules.len() ==> crate::text::trimmed((#[trigger] rules[i]).name).len() > 0
            &&& forall|i: int, j: int|
                0 <= i < j < rules.len() ==> (#[trigger] rules[i]).name != (
                #[trigger] rules[j]).name
        },
    decreases rules.len(),
{
    if rules.len() > 0 {
        let rest = rules.drop_last();
        let n = rest.len() as int;
        lemma_valid_rules(rest);
        assert(forall|i: int| 0 <= i < n ==> #[trigger] rest[i] == rules[i]);
        assert(rules.last() == rules[n]);
        if routing::rules_problem(rules) is None {
            assert forall|i: int, j: int| 0 <= i < j < rules.len() implies (
            #[trigger] rules[i]).name != (#[trigger] rules[j]).name by {
                assert(rest[i] == rules[i]);
                if j < n {
                    assert(rest[j] == rules[j]);
                }
            }
            assert forall|i: int| 0 <= i < rules.len() implies is_outbound(
                (#[trigger] rules[i]).outbound,
            ) && crate::text::trimmed(rules[i].name).len() > 0 by {
                if i < n {
                    assert(rest[i] == rules[i]);
                }
            }
        } else if routing::rules_problem(rest) is Some {
        } else {
            assert(routing::rule_problem(rest, rules[n]) is Some);
            if exists|i: int| 0 <= i < rest.len() && (#[trigger] rest[i]).name == rules[n].name {
                let i = choose|i: int| 0 <= i < rest.len() && (#[trigger] rest[i]).name == rules[n].name;
                assert(rules[i].name == rules[n].name);
            }
        }
    }
}

/// Every preset is a valid routing whose rules are all enabled and exempt
/// traffic from its default: where the default is the proxy they go direct, and
/// where it is direct they go through the proxy. The default is the proxy but
/// where only what is blocked goes through it.
pub proof fn law_presets(name: Seq<char>, i: int)
    requires
        preset_config(name) is Some,
        0 <= i < preset_config(name)->0.rules.len(),
    ensures
        ({
            let c = preset_config(name)->0;
            let rule = c.rules[i];
            &&& routing_problem(c) is None
            &&& c.domain_strategy == "AsIs"@
            &&& c.default_outbound == (if name == "runet-blocked-only"@ {
                "direct"@
            } else {
                "proxy"@
            })
            &&& rule.enabled
            &&& rule.outbound == (if name == "runet-blocked-only"@ {
                "proxy"@
            } else {
                "direct"@
            })
            &&& rule.domain.len() + rule.ip.len() > 0
            &&& rule == (RoutingRuleView {
                name: rule.name,
                domain: rule.domain,
                ip: rule.ip,
                outbound: rule.outbound,
                enabled: true,
                port: None,
                source_port: None,
                local_port: None,
                network: None,
                source_ip: Seq::empty(),
                local_ip: Seq::empty(),
                inbound_tag: Seq::empty(),
                protocol: Seq::empty(),
                process: Seq::empty(),
            })
            &&& name == "global-proxy"@ ==> rule.ip == seq!["geoip:private"@] || rule.domain
                == seq!["geosite:private"@]
            &&& name == "ru-direct"@ ==> rule.ip == seq!["geoip:ru-whitelist"@] || rule.domain
                == seq!["geosite:ru-available-only-inside"@]
            &&& name == "runet-blocked-only"@ ==> rule.ip == seq![
                "geoip:ru-blocked"@,
                "geoip:ru-blocked-community"@,
            ] || rule.domain == seq!["geosite:ru-blocked"@, "geosite:ru-blocked-all"@]
            &&& c.rules.len() == 2 && c.rules[0].ip.len() > 0 && c.rules[1].domain.len() > 0
        }),
{
    lemma_preset_words();
    law_valid_routing(preset_config(name)->0);
    assert forall|k: int| 0 <= k < preset_config(name)->0.rules.len() implies crate::text::trimmed(
        (#[trigger] preset_config(name)->0.rules[k]).name,
    ).len() > 0 by {
        lemma_not_blank(preset_config(name)->0.rules[k].name);
    }
}

proof fn lemma_not_blank(s: Seq<char>)
    requires
        s.len() > 0,
        'a' <= s[0] <= 'z',
    ensures
        crate::text::trimmed(s).len() > 0,
{
    assert(!crate::text::white(s[0]));
    assert(crate::text::trim_front(s) == s);
    lemma_kept_back(s);
}

proof fn lemma_kept_back(s: Seq<char>)
    requires
        s.len() > 0,
        !crate::text::white(s[0]),
    ensures
        crate::text::trim_back(s).len() > 0,
    decreases s.len(),
{
    if crate::text::white(s.last()) {
        lemma_kept_back(s.drop_last());
    }
}

proof fn lemma_preset_words()
    ensures
        mark("global-proxy"@) == (12int, 'g', 'a', '-', 'o', 'y'),
        mark("runet-blocked-only"@) == (18int, 'r', 'b', 'c', '-', 'y'),
        mark("ru-direct"@) == (9int, 'r', 'd', 'i', 'e', 't'),
        mark("proxy"@) == (5int, 'p', 'r', 'o', 'x', 'y'),
        mark("direct"@) == (6int, 'd', 'r', 'e', 'c', 't'),
        mark("private-ip-direct"@) == (17int, 'p', 't', 'i', 'i', 't'),
        mark("private-domain-direct"@) == (21int, 'p', '-', 'm', 'd', 't'),
        mark("blocked-ip-proxy"@) == (16int, 'b', 'e', 'i', 'r', 'y'),
        mark("blocked-domain-proxy"@) == (20int, 'b', 'd', 'm', 'p', 'y'),
        mark("ru-ip-direct"@) == (12int, 'r', 'p', 'd', 'e', 't'),
        mark("ru-domain-direct"@) == (16int, 'r', 'm', 'n', 'r', 't'),
{
    reveal_strlit("global-proxy");
    reveal_strlit("runet-blocked-only");
    reveal_strlit("ru-direct");
    reveal_strlit("proxy");
    reveal_strlit("direct");
    reveal_strlit("private-ip-direct");
    reveal_strlit("private-domain-direct");
    reveal_strlit("blocked-ip-proxy");
    reveal_strlit("blocked-domain-proxy");
    reveal_strlit("ru-ip-direct");
    reveal_strlit("ru-domain-direct");
}

} // verus!
