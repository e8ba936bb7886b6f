//! What the TUN policy does to the routes and the firewall of a host, by the
//! words of the commands that do it.

use crate::activation::ServiceVerb;
use crate::config::TunConfigView;
use crate::laws::activation::{lemma_walked, walked};
use crate::linux::commands::{CommandLine, SystemdServiceManager};
use crate::linux::policy::{changing, effect_words, few_marks, policy_steps};
use crate::linux::policy::{PolicyEffect, Rules, TunInternalAction};
use crate::linux::policy;
use crate::program::{world_after, Policy};
use crate::templates::{nftables_rules, policy_routes};
use crate::text::decimal;
use vstd::prelude::*;

verus! {

/// The words of the command of an effect.
pub open spec fn words(e: PolicyEffect, t: TunConfigView, file: Seq<char>) -> Seq<Seq<char>> {
    match effect_words(e, t, file) {
        Some(c) => seq![c.program] + c.args,
        None => Seq::empty(),
    }
}

/// A mark rule is taken away by the very words that added it, but for the word
/// that says which, and it sends the configured mark to the configured table.
pub proof fn law_mark_commands(ipv6: bool, t: TunConfigView, file: Seq<char>)
    ensures
        ({
            let add = words(PolicyEffect::Mark { ipv6 }, t, file);
            let del = words(PolicyEffect::Unmark { ipv6 }, t, file);
            let at = if ipv6 {
                3int
            } else {
                2
            };
            &&& add[0] == "ip"@
            &&& ipv6 ==> add[1] == "-6"@
            &&& add[at - 1] == "rule"@ && add[at] == "add"@
            &&& add.skip(at + 1) == seq![
                "fwmark"@,
                decimal(t.packet_mark as nat),
                "lookup"@,
                decimal(t.routing_table as nat),
            ]
            &&& del == add.update(at, "del"@)
        }),
{
    let add = words(PolicyEffect::Mark { ipv6 }, t, file);
    let del = words(PolicyEffect::Unmark { ipv6 }, t, file);
    let at = if ipv6 {
        3int
    } else {
        2
    };
    assert(add.skip(at + 1) =~= seq![
        "fwmark"@,
        decimal(t.packet_mark as nat),
        "lookup"@,
        decimal(t.routing_table as nat),
    ]);
    assert(del =~= add.update(at, "del"@));
}

/// The default route of the table goes through the interface while it is
/// attached and nowhere otherwise: the route that blocks is the one of last
/// resort, and both are of the configured table. Detaching takes away only the
/// route of the interface.
pub proof fn law_route_commands(ipv6: bool, t: TunConfigView, file: Seq<char>)
    ensures
        ({
            let block = words(PolicyEffect::Block { ipv6 }, t, file);
            let attach = words(PolicyEffect::Attach { ipv6 }, t, file);
            let detach = words(PolicyEffect::Detach { ipv6 }, t, file);
            let flush = words(PolicyEffect::Flush { ipv6 }, t, file);
            let table = decimal(t.routing_table as nat);
            let at = if ipv6 {
                2int
            } else {
                1
            };
            &&& block[0] == "ip"@ && attach[0] == "ip"@ && detach[0] == "ip"@ && flush[0] == "ip"@
            &&& ipv6 ==> block[1] == "-6"@ && attach[1] == "-6"@ && detach[1] == "-6"@ && flush[1]
                == "-6"@
            &&& block.skip(at) == seq![
                "route"@,
                "replace"@,
                if ipv6 {
                    "unreachable"@
                } else {
                    "blackhole"@
                },
                "default"@,
                "table"@,
                table,
                "metric"@,
                "32767"@,
            ]
            &&& attach.skip(at) == seq![
                "route"@,
                "replace"@,
                "default"@,
                "dev"@,
                t.interface_name,
                "table"@,
                table,
                "metric"@,
                "100"@,
            ]
            &&& detach.skip(at) == seq![
                "route"@,
                "del"@,
                "default"@,
                "dev"@,
                t.interface_name,
                "table"@,
                table,
            ]
            &&& flush.skip(at) == seq!["route"@, "flush"@, "table"@, table]
        }),
{
    let at = if ipv6 {
        2int
    } else {
        1
    };
    let block = words(PolicyEffect::Block { ipv6 }, t, file);
    let attach = words(PolicyEffect::Attach { ipv6 }, t, file);
    let detach = words(PolicyEffect::Detach { ipv6 }, t, file);
    let flush = words(PolicyEffect::Flush { ipv6 }, t, file);
    let table = decimal(t.routing_table as nat);
    assert(block.skip(at) =~= seq![
        "route"@,
        "replace"@,
        if ipv6 {
            "unreachable"@
        } else {
            "blackhole"@
        },
        "default"@,
        "table"@,
        table,
        "metric"@,
        "32767"@,
    ]);
    assert(attach.skip(at) =~= seq![
        "route"@,
        "replace"@,
        "default"@,
        "dev"@,
        t.interface_name,
        "table"@,
        table,
        "metric"@,
        "100"@,
    ]);
    assert(detach.skip(at) =~= seq![
        "route"@,
        "del"@,
        "default"@,
        "dev"@,
        t.interface_name,
        "table"@,
        table,
    ]);
    assert(flush.skip(at) =~= seq!["route"@, "flush"@, "table"@, table]);
}

/// The firewall has one table of its own: it is dropped by name, and loaded
/// from the file that was prepared, which makes the table of that name.
pub proof fn law_firewall_commands(t: TunConfigView, gid: u32, file: Seq<char>)
    ensures
        words(PolicyEffect::Drop, t, file) == seq![
            "nft"@,
            "delete"@,
            "table"@,
            "inet"@,
            "xray_manager"@,
        ],
        words(PolicyEffect::Load, t, file) == seq!["nft"@, "-f"@, file],
        effect_words(PolicyEffect::Prepare, t, file) is None,
        words(PolicyEffect::AwaitInterface, t, file) == seq![
            "ip"@,
            "link"@,
            "show"@,
            "dev"@,
            t.interface_name,
        ],
{
    assert(words(PolicyEffect::Drop, t, file) =~= seq![
        "nft"@,
        "delete"@,
        "table"@,
        "inet"@,
        "xray_manager"@,
    ]);
    assert(words(PolicyEffect::Load, t, file) =~= seq!["nft"@, "-f"@, file]);
    assert(words(PolicyEffect::AwaitInterface, t, file) =~= seq![
        "ip"@,
        "link"@,
        "show"@,
        "dev"@,
        t.interface_name,
    ]);
}

/// The firewall marks only what the processes of the group send, with the mark
/// that the rules route by, and only at the end: what goes to the host itself
/// or to its neighbours has left before, and so has what goes to private
/// networks, exactly where that is configured.
pub proof fn law_firewall_marks_the_group(t: TunConfigView, gid: u32) -> (front: Seq<char>)
    ensures
        nftables_rules(t, gid) == front + ("meta skgid "@ + decimal(gid as nat) + " meta mark set "@
            + decimal(t.packet_mark as nat) + "\n  }\n}\n"@),
        front == "table inet xray_manager {\n"@ + "  chain output {\n"@
            + "    type route hook output priority mangle; policy accept;\n"@
            + "    oifname \"lo\" return\n"@ + "    ip daddr 127.0.0.0/8 return\n"@
            + "    ip daddr 169.254.0.0/16 return\n"@ + "    ip daddr 224.0.0.0/4 return\n"@
            + "    ip6 daddr ::1 return\n"@ + "    ip6 daddr fe80::/10 return\n"@
            + "    ip6 daddr ff00::/8 return\n"@ + (if t.bypass_private_networks {
            "    ip daddr { 10.0.0.0/8, 172.16.0.0/12, 192.168.0.0/16 } return"@
                + "\n    ip6 daddr fc00::/7 return"@
        } else {
            "    \n    "@
        }) + "\n    "@,
{
    let head = "table inet xray_manager {\n"@ + "  chain output {\n"@
        + "    type route hook output priority mangle; policy accept;\n"@
        + "    oifname \"lo\" return\n"@ + "    ip daddr 127.0.0.0/8 return\n"@
        + "    ip daddr 169.254.0.0/16 return\n"@ + "    ip daddr 224.0.0.0/4 return\n"@
        + "    ip6 daddr ::1 return\n"@ + "    ip6 daddr fe80::/10 return\n"@
        + "    ip6 daddr ff00::/8 return\n"@;
    let middle = if t.bypass_private_networks {
        "    ip daddr { 10.0.0.0/8, 172.16.0.0/12, 192.168.0.0/16 } return"@
            + "\n    ip6 daddr fc00::/7 return"@
    } else {
        "    \n    "@
    };
    let front = head + middle + "\n    "@;
    let b4 = crate::templates::private_ipv4(t.bypass_private_networks);
    let b6 = crate::templates::private_ipv6(t.bypass_private_networks);
    reveal_strlit("    ");
    reveal_strlit("\n    ");
    reveal_strlit("    \n    ");
    reveal_strlit("");
    reveal_strlit("ip daddr { 10.0.0.0/8, 172.16.0.0/12, 192.168.0.0/16 } return");
    reveal_strlit("    ip daddr { 10.0.0.0/8, 172.16.0.0/12, 192.168.0.0/16 } return");
    reveal_strlit("ip6 daddr fc00::/7 return");
    reveal_strlit("\n    ip6 daddr fc00::/7 return");
    reveal_strlit("\n    meta skgid ");
    reveal_strlit("meta skgid ");
    assert("    "@ + b4 + "\n    "@ + b6 =~= middle);
    assert("\n    meta skgid "@ =~= "\n    "@ + "meta skgid "@);
    let mark = decimal(gid as nat) + " meta mark set "@ + decimal(t.packet_mark as nat)
        + "\n  }\n}\n"@;
    assert(nftables_rules(t, gid) =~= head + ("    "@ + b4 + "\n    "@ + b6) + (
    "\n    meta skgid "@ + mark));
    assert(nftables_rules(t, gid) =~= front + ("meta skgid "@ + decimal(gid as nat)
        + " meta mark set "@ + decimal(t.packet_mark as nat) + "\n  }\n}\n"@));
    front
}

/// What each part of the policy does to a host and what it leaves alone; the
/// interface is attached and detached only where TUN is enabled, over IPv6 only
/// where that is enabled too.
pub proof fn law_policy_parts(t: TunConfigView, r: Rules)
    ensures
        ({
            let after = |a: TunInternalAction| world_after(policy_steps(a, t).main, changing(), r);
            let up = after(TunInternalAction::RoutesUp);
            let down = after(TunInternalAction::RoutesDown);
            let attached = after(TunInternalAction::Attach);
            let detached = after(TunInternalAction::Detach);
            &&& after(TunInternalAction::FirewallUp) == (Rules { table: true, ..r })
            &&& after(TunInternalAction::FirewallDown) == (Rules { table: false, ..r })
            &&& up.table == r.table && up.mark4 > 0 && up.mark6 > 0 && up.block4 && up.block6
            &&& few_marks(r) ==> up.mark4 == 1 && up.mark6 == 1
            &&& up.tun4 == r.tun4 && up.tun6 == r.tun6
            &&& down.table == r.table && !down.block4 && !down.block6 && !down.tun4 && !down.tun6
            &&& few_marks(r) ==> down.mark4 == 0 && down.mark6 == 0
            &&& attached == (Rules {
                tun4: r.tun4 || t.enabled,
                tun6: r.tun6 || t.enabled && t.ipv6_enabled,
                ..r
            })
            &&& detached == (Rules {
                tun4: r.tun4 && !t.enabled,
                tun6: r.tun6 && !(t.enabled && t.ipv6_enabled),
                ..r
            })
        }),
{
    let f = changing();
    reveal_with_fuel(walked, 7);
    lemma_walked(policy_steps(TunInternalAction::FirewallUp, t).main, 3, f, r);
    lemma_walked(policy_steps(TunInternalAction::FirewallDown, t).main, 1, f, r);
    lemma_walked(policy_steps(TunInternalAction::RoutesUp, t).main, 6, f, r);
    lemma_walked(policy_steps(TunInternalAction::RoutesDown, t).main, 4, f, r);
    let a = policy_steps(TunInternalAction::Attach, t).main;
    let d = policy_steps(TunInternalAction::Detach, t).main;
    lemma_walked(a, a.len(), f, r);
    lemma_walked(d, d.len(), f, r);
}

/// Traffic is never marked without a route that it can take or is stopped by,
/// while the whole policy is put up: the firewall comes first, and what fails
/// there or later is undone, but for taking old marks away.
pub proof fn law_policy_heeds_failures(action: TunInternalAction, t: TunConfigView, i: int)
    requires
        0 <= i < policy_steps(action, t).main.len(),
    ensures
        ({
            let s = policy_steps(action, t).main[i];
            let coming_up = action == TunInternalAction::PolicyUp || action
                == TunInternalAction::FirewallUp || action == TunInternalAction::RoutesUp;
            &&& coming_up ==> match s.effect {
                PolicyEffect::Prepare => s.policy == Policy::Fail,
                PolicyEffect::Drop => s.policy == Policy::Fail,
                PolicyEffect::Load => s.policy is Undo,
                PolicyEffect::Mark { .. } => s.policy is Undo,
                PolicyEffect::Block { .. } => s.policy is Undo,
                PolicyEffect::Unmark { .. } => s.policy == Policy::Ignore,
                _ => false,
            }
            &&& action == TunInternalAction::Attach ==> s.policy == Policy::Fail
            &&& action == TunInternalAction::Attach ==> (s.effect is AwaitInterface <==> i == 0)
            &&& action == TunInternalAction::Detach ==> s.policy == Policy::Ignore
            &&& s.effect is Drop && !coming_up ==> s.policy == Policy::Fail
        }),
{
    let p = policy_steps(action, t).main;
    if action == TunInternalAction::PolicyUp {
        let a = policy::firewall_up(0);
        let b = policy::routes_up(1);
        if i < a.len() {
            assert(p[i] == a[i]);
        } else {
            assert(p[i] == b[i - a.len()]);
        }
    }
}

/// The commands that a plan shows are those that the policy runs, but that they
/// add where the policy replaces.
pub proof fn law_shown_policy(t: TunConfigView, file: Seq<char>)
    ensures
        policy_routes(t).len() == 4,
        policy_routes(t)[0] == words(PolicyEffect::Mark { ipv6: false }, t, file),
        policy_routes(t)[1] == words(PolicyEffect::Block { ipv6: false }, t, file).update(2, "add"@),
        policy_routes(t)[2] == words(PolicyEffect::Mark { ipv6: true }, t, file),
        policy_routes(t)[3] == words(PolicyEffect::Block { ipv6: true }, t, file).update(3, "add"@),
{
    assert(policy_routes(t)[0] =~= words(PolicyEffect::Mark { ipv6: false }, t, file));
    assert(policy_routes(t)[1] =~= words(PolicyEffect::Block { ipv6: false }, t, file).update(
        2,
        "add"@,
    ));
    assert(policy_routes(t)[2] =~= words(PolicyEffect::Mark { ipv6: true }, t, file));
    assert(policy_routes(t)[3] =~= words(PolicyEffect::Block { ipv6: true }, t, file).update(
        3,
        "add"@,
    ));
}

/// The service manager is told what is to be done in the words that it knows.
pub proof fn law_service_words(m: &SystemdServiceManager, verb: ServiceVerb, name: &str, c: CommandLine)
    requires
        call_ensures(SystemdServiceManager::command, (m, verb, name), c),
    ensures
        c@.program == "systemctl"@,
        c@.args.len() == 2,
        c@.args[1] == name@,
        c@.args[0] == (match verb {
            ServiceVerb::Enable => "enable"@,
            ServiceVerb::Disable => "disable"@,
            ServiceVerb::Start => "start"@,
            ServiceVerb::Stop => "stop"@,
            ServiceVerb::Restart => "restart"@,
        }),
{
}

} // verus!
