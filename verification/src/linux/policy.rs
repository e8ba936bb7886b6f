//! The firewall and routing rules of selective TUN routing.

use crate::config::{ManagerConfig, TunConfigView};
use crate::error::{ManagerError, ManagerErrorView};
use crate::linux::commands::{CommandLine, CommandLineView};
use crate::program::{Policy, Program, ProgramView, Step, StepView};
use crate::linux::commands;
use crate::program;
use crate::templates;
use crate::text;
use vstd::prelude::*;

verus! {

/// What is done with the rules.
#[derive(Debug, Clone, Copy, PartialEq, Eq, Structural)]
pub enum TunInternalAction {
    PolicyUp,
    PolicyDown,
    FirewallUp,
    FirewallDown,
    RoutesUp,
    RoutesDown,
    Attach,
    Detach,
}

/// One change of the rules. `Prepare` writes the firewall rules to a file,
/// `Load` loads that file, `Drop` deletes the firewall table where it is there,
/// and `Unmark` deletes the rules for marked packets, a limited number of them.
#[derive(Debug, Clone, Copy, PartialEq, Eq, Structural)]
pub enum PolicyEffect {
    Prepare,
    Drop,
    Load,
    Unmark { ipv6: bool },
    Mark { ipv6: bool },
    Block { ipv6: bool },
    Flush { ipv6: bool },
    AwaitInterface,
    Attach { ipv6: bool },
    Detach { ipv6: bool },
}

impl View for PolicyEffect {
    type V = PolicyEffect;

    open spec fn view(&self) -> PolicyEffect {
        *self
    }
}

/// Putting up the firewall table: what was there before is deleted first.
pub open spec fn firewall_up(undo: usize) -> Seq<StepView<PolicyEffect>> {
    seq![
        program::step(PolicyEffect::Prepare, Policy::Fail),
        program::step(PolicyEffect::Drop, Policy::Fail),
        program::step(PolicyEffect::Load, Policy::Undo(undo)),
    ]
}

/// Sending marked packets to the dedicated table, which drops them by default.
pub open spec fn routes_up(undo: usize) -> Seq<StepView<PolicyEffect>> {
    seq![
        program::step(PolicyEffect::Unmark { ipv6: false }, Policy::Ignore),
        program::step(PolicyEffect::Mark { ipv6: false }, Policy::Undo(undo)),
        program::step(PolicyEffect::Block { ipv6: false }, Policy::Undo(undo)),
        program::step(PolicyEffect::Unmark { ipv6: true }, Policy::Ignore),
        program::step(PolicyEffect::Mark { ipv6: true }, Policy::Undo(undo)),
        program::step(PolicyEffect::Block { ipv6: true }, Policy::Undo(undo)),
    ]
}

/// Taking the routing rules away.
pub open spec fn routes_down() -> Seq<StepView<PolicyEffect>> {
    seq![
        program::step(PolicyEffect::Unmark { ipv6: false }, Policy::Ignore),
        program::step(PolicyEffect::Unmark { ipv6: true }, Policy::Ignore),
        program::step(PolicyEffect::Flush { ipv6: false }, Policy::Ignore),
        program::step(PolicyEffect::Flush { ipv6: true }, Policy::Ignore),
    ]
}

/// Taking the firewall table away, whatever comes of it.
pub open spec fn firewall_undo() -> Seq<StepView<PolicyEffect>> {
    seq![program::step(PolicyEffect::Drop, Policy::Ignore)]
}

/// Routing marked packets through the interface, once it is there.
pub open spec fn attach_steps(ipv6: bool) -> Seq<StepView<PolicyEffect>> {
    seq![
        program::step(PolicyEffect::AwaitInterface, Policy::Fail),
        program::step(PolicyEffect::Attach { ipv6: false }, Policy::Fail),
    ] + (if ipv6 {
        seq![program::step(PolicyEffect::Attach { ipv6: true }, Policy::Fail)]
    } else {
        Seq::empty()
    })
}

/// No longer routing marked packets through the interface.
pub open spec fn detach_steps(ipv6: bool) -> Seq<StepView<PolicyEffect>> {
    seq![program::step(PolicyEffect::Detach { ipv6: false }, Policy::Ignore)] + (if ipv6 {
        seq![program::step(PolicyEffect::Detach { ipv6: true }, Policy::Ignore)]
    } else {
        Seq::empty()
    })
}

/// The program of an action.
pub open spec fn policy_steps(action: TunInternalAction, t: TunConfigView) -> ProgramView<
    PolicyEffect,
> {
    match action {
        TunInternalAction::PolicyUp => ProgramView {
            main: firewall_up(0) + routes_up(1),
            undos: seq![firewall_undo(), routes_down() + firewall_undo()],
        },
        TunInternalAction::PolicyDown => ProgramView {
            main: routes_down() + seq![program::step(PolicyEffect::Drop, Policy::Fail)],
            undos: Seq::empty(),
        },
        TunInternalAction::FirewallUp => ProgramView {
            main: firewall_up(0),
            undos: seq![firewall_undo()],
        },
        TunInternalAction::FirewallDown => ProgramView {
            main: seq![program::step(PolicyEffect::Drop, Policy::Fail)],
            undos: Seq::empty(),
        },
        TunInternalAction::RoutesUp => ProgramView {
            main: routes_up(0),
            undos: seq![routes_down()],
        },
        TunInternalAction::RoutesDown => ProgramView {
            main: routes_down(),
            undos: Seq::empty(),
        },
        TunInternalAction::Attach => ProgramView {
            main: if t.enabled {
                attach_steps(t.ipv6_enabled)
            } else {
                Seq::empty()
            },
            undos: Seq::empty(),
        },
        TunInternalAction::Detach => ProgramView {
            main: if t.enabled {
                detach_steps(t.ipv6_enabled)
            } else {
                Seq::empty()
            },
            undos: Seq::empty(),
        },
    }
}

fn push_firewall_up(main: &mut Vec<Step<PolicyEffect>>, undo: usize)
    ensures
        program::step_views(final(main)@) == program::step_views(old(main)@) + firewall_up(undo),
{
    let ghost before = program::step_views(main@);
    program::push_step(main, PolicyEffect::Prepare, Policy::Fail);
    program::push_step(main, PolicyEffect::Drop, Policy::Fail);
    program::push_step(main, PolicyEffect::Load, Policy::Undo(undo));
    assert(program::step_views(main@) =~= before + firewall_up(undo));
}

fn push_routes_up(main: &mut Vec<Step<PolicyEffect>>, undo: usize)
    ensures
        program::step_views(final(main)@) == program::step_views(old(main)@) + routes_up(undo),
{
    let ghost before = program::step_views(main@);
    program::push_step(main, PolicyEffect::Unmark { ipv6: false }, Policy::Ignore);
    program::push_step(main, PolicyEffect::Mark { ipv6: false }, Policy::Undo(undo));
    program::push_step(main, PolicyEffect::Block { ipv6: false }, Policy::Undo(undo));
    program::push_step(main, PolicyEffect::Unmark { ipv6: true }, Policy::Ignore);
    program::push_step(main, PolicyEffect::Mark { ipv6: true }, Policy::Undo(undo));
    program::push_step(main, PolicyEffect::Block { ipv6: true }, Policy::Undo(undo));
    assert(program::step_views(main@) =~= before + routes_up(undo));
}

fn push_routes_down(main: &mut Vec<Step<PolicyEffect>>)
    ensures
        program::step_views(final(main)@) == program::step_views(old(main)@) + routes_down(),
{
    let ghost before = program::step_views(main@);
    program::push_step(main, PolicyEffect::Unmark { ipv6: false }, Policy::Ignore);
    program::push_step(main, PolicyEffect::Unmark { ipv6: true }, Policy::Ignore);
    program::push_step(main, PolicyEffect::Flush { ipv6: false }, Policy::Ignore);
    program::push_step(main, PolicyEffect::Flush { ipv6: true }, Policy::Ignore);
    assert(program::step_views(main@) =~= before + routes_down());
}

fn undo_firewall() -> (r: Vec<Step<PolicyEffect>>)
    ensures
        program::step_views(r@) == firewall_undo(),
{
    let mut r: Vec<Step<PolicyEffect>> = program::no_steps();
    program::push_step(&mut r, PolicyEffect::Drop, Policy::Ignore);
    assert(program::step_views(r@) =~= firewall_undo());
    r
}

/// The program of an action. Without TUN routing there is nothing to attach
/// or detach.
pub fn run_tun_internal(action: TunInternalAction, config: &ManagerConfig) -> (r: Program<
    PolicyEffect,
>)
    ensures
        r@ == policy_steps(action, config@.tun),
        r.wf(),
{
    let mut main: Vec<Step<PolicyEffect>> = program::no_steps();
    let mut undos: Vec<Vec<Step<PolicyEffect>>> = Vec::new();
    let ipv6 = config.tun.ipv6_enabled;
    match action {
        TunInternalAction::PolicyUp => {
            push_firewall_up(&mut main, 0);
            push_routes_up(&mut main, 1);
            let mut second: Vec<Step<PolicyEffect>> = program::no_steps();
            push_routes_down(&mut second);
            program::push_step(&mut second, PolicyEffect::Drop, Policy::Ignore);
            assert(program::step_views(second@) =~= routes_down() + firewall_undo());
            undos.push(undo_firewall());
            undos.push(second);
        },
        TunInternalAction::PolicyDown => {
            push_routes_down(&mut main);
            program::push_step(&mut main, PolicyEffect::Drop, Policy::Fail);
        },
        TunInternalAction::FirewallUp => {
            push_firewall_up(&mut main, 0);
            undos.push(undo_firewall());
        },
        TunInternalAction::FirewallDown => {
            program::push_step(&mut main, PolicyEffect::Drop, Policy::Fail);
        },
        TunInternalAction::RoutesUp => {
            push_routes_up(&mut main, 0);
            let mut only: Vec<Step<PolicyEffect>> = program::no_steps();
            push_routes_down(&mut only);
            assert(program::step_views(only@) =~= routes_down());
            undos.push(only);
        },
        TunInternalAction::RoutesDown => {
            push_routes_down(&mut main);
        },
        TunInternalAction::Attach => {
            if config.tun.enabled {
                program::push_step(&mut main, PolicyEffect::AwaitInterface, Policy::Fail);
                program::push_step(&mut main, PolicyEffect::Attach { ipv6: false }, Policy::Fail);
                if ipv6 {
                    program::push_step(&mut main, PolicyEffect::Attach { ipv6: true }, Policy::Fail);
                }
            }
        },
        TunInternalAction::Detach => {
            if config.tun.enabled {
                program::push_step(&mut main, PolicyEffect::Detach { ipv6: false }, Policy::Ignore);
                if ipv6 {
                    program::push_step(&mut main, PolicyEffect::Detach { ipv6: true }, Policy::Ignore);
                }
            }
        },
    }
    let ghost want = policy_steps(action, config@.tun);
    assert(program::step_views(main@) =~= want.main);
    assert(program::undo_views(undos@) =~= want.undos);
    let r = Program { main, undos };
    proof {
        assert(r@ == want);
        assert(program::refers_inside(want));
        program::lemma_refers_inside(r);
    }
    r
}

/// The arguments that name the address family.
pub open spec fn family(ipv6: bool) -> Seq<Seq<char>> {
    if ipv6 {
        seq!["-6"@]
    } else {
        Seq::empty()
    }
}

/// The arguments that add or delete the rule for marked packets.
pub open spec fn rule_words(
    ipv6: bool,
    action: Seq<char>,
    mark: Seq<char>,
    table: Seq<char>,
) -> Seq<Seq<char>> {
    family(ipv6) + seq!["rule"@, action, "fwmark"@, mark, "lookup"@, table]
}

/// The arguments that add or delete the rule for marked packets.
pub fn rule_args(ipv6: bool, action: &str, mark: &str, table: &str) -> (r: Vec<String>)
    ensures
        text::texts(r@) == rule_words(ipv6, action@, mark@, table@),
{
    let r = if ipv6 {
        text::own_all(vec!["-6", "rule", action, "fwmark", mark, "lookup", table])
    } else {
        text::own_all(vec!["rule", action, "fwmark", mark, "lookup", table])
    };
    assert(text::texts(r@) =~= rule_words(ipv6, action@, mark@, table@));
    r
}

/// The command of an effect; of `Drop` the one that deletes the table, and of
/// `Prepare` none.
pub open spec fn effect_words(e: PolicyEffect, t: TunConfigView, file: Seq<char>) -> Option<
    CommandLineView,
> {
    let table = text::decimal(t.routing_table as nat);
    let mark = text::decimal(t.packet_mark as nat);
    match e {
        PolicyEffect::Prepare => None,
        PolicyEffect::Drop => Some(
            commands::line("nft"@, seq!["delete"@, "table"@, "inet"@, "xray_manager"@]),
        ),
        PolicyEffect::Load => Some(commands::line("nft"@, seq!["-f"@, file])),
        PolicyEffect::Unmark { ipv6 } => Some(
            commands::line("ip"@, rule_words(ipv6, "del"@, mark, table)),
        ),
        PolicyEffect::Mark { ipv6 } => Some(commands::line("ip"@, rule_words(ipv6, "add"@, mark, table))),
        PolicyEffect::Block { ipv6 } => Some(
            commands::line(
                "ip"@,
                family(ipv6) + seq![
                    "route"@,
                    "replace"@,
                    if ipv6 {
                        "unreachable"@
                    } else {
                        "blackhole"@
                    },
                    "default"@,
                    "table"@,
                    table,
                    "metric"@,
                    "32767"@,
                ],
            ),
        ),
        PolicyEffect::Flush { ipv6 } => Some(
            commands::line("ip"@, family(ipv6) + seq!["route"@, "flush"@, "table"@, table]),
        ),
        PolicyEffect::AwaitInterface => Some(
            commands::line("ip"@, seq!["link"@, "show"@, "dev"@, t.interface_name]),
        ),
        PolicyEffect::Attach { ipv6 } => Some(
            commands::line(
                "ip"@,
                family(ipv6) + seq![
                    "route"@,
                    "replace"@,
                    "default"@,
                    "dev"@,
                    t.interface_name,
                    "table"@,
                    table,
                    "metric"@,
                    "100"@,
                ],
            ),
        ),
        PolicyEffect::Detach { ipv6 } => Some(
            commands::line(
                "ip"@,
                family(ipv6) + seq![
                    "route"@,
                    "del"@,
                    "default"@,
                    "dev"@,
                    t.interface_name,
                    "table"@,
                    table,
                ],
            ),
        ),
    }
}

fn routed(ipv6: bool, rest: Vec<&str>) -> (r: CommandLine)
    ensures
        r@.program == "ip"@,
        r@.args.len() == family(ipv6).len() + rest@.len(),
        forall|i: int| 0 <= i < rest@.len() ==> #[trigger] r@.args[i + family(ipv6).len()] == rest@[i]@,
        ipv6 ==> r@.args[0] == "-6"@,
{
    let mut words: Vec<String> = Vec::new();
    if ipv6 {
        words.push(text::owned("-6"));
    }
    let ghost lead = words@;
    let mut more = text::own_all(rest);
    let ghost tail = more@;
    words.append(&mut more);
    let r = commands::command("ip", words);
    proof {
        let n = lead.len() as int;
        assert(n == family(ipv6).len());
        assert forall|i: int| 0 <= i < rest@.len() implies #[trigger] r@.args[i + n]
            == rest@[i]@ by {
            assert(words@[i + n] == tail[i]);
            assert(text::texts(tail)[i] == rest@[i]@);
        }
    }
    r
}

/// The command of an effect; `file` holds the prepared firewall rules.
pub fn effect_command(e: PolicyEffect, config: &ManagerConfig, file: &str) -> (r: Option<
    CommandLine,
>)
    ensures
        match r {
            Some(c) => effect_words(e, config@.tun, file@) == Some(c@),
            None => effect_words(e, config@.tun, file@) is None,
        },
{
    let table = text::decimal_of(config.tun.routing_table as u64);
    let mark = text::decimal_of(config.tun.packet_mark as u64);
    let interface = config.tun.interface_name.as_str();
    let ghost want = effect_words(e, config@.tun, file@);
    let r = match e {
        PolicyEffect::Prepare => {
            return None;
        },
        PolicyEffect::Drop => commands::command(
            "nft",
            text::own_all(vec!["delete", "table", "inet", "xray_manager"]),
        ),
        PolicyEffect::Load => commands::command("nft", text::own_all(vec!["-f", file])),
        PolicyEffect::Unmark { ipv6 } => commands::command(
            "ip",
            rule_args(ipv6, "del", mark.as_str(), table.as_str()),
        ),
        PolicyEffect::Mark { ipv6 } => commands::command(
            "ip",
            rule_args(ipv6, "add", mark.as_str(), table.as_str()),
        ),
        PolicyEffect::Block { ipv6 } => routed(
            ipv6,
            vec![
                "route",
                "replace",
                if ipv6 {
                    "unreachable"
                } else {
                    "blackhole"
                },
                "default",
                "table",
                table.as_str(),
                "metric",
                "32767",
            ],
        ),
        PolicyEffect::Flush { ipv6 } => routed(
            ipv6,
            vec!["route", "flush", "table", table.as_str()],
        ),
        PolicyEffect::AwaitInterface => commands::command(
            "ip",
            text::own_all(vec!["link", "show", "dev", interface]),
        ),
        PolicyEffect::Attach { ipv6 } => routed(
            ipv6,
            vec![
                "route",
                "replace",
                "default",
                "dev",
                interface,
                "table",
                table.as_str(),
                "metric",
                "100",
            ],
        ),
        PolicyEffect::Detach { ipv6 } => routed(
            ipv6,
            vec!["route", "del", "default", "dev", interface, "table", table.as_str()],
        ),
    };
    proof {
        let k = match e {
            PolicyEffect::Block { ipv6 } => family(ipv6).len() as int,
            PolicyEffect::Flush { ipv6 } => family(ipv6).len() as int,
            PolicyEffect::Attach { ipv6 } => family(ipv6).len() as int,
            PolicyEffect::Detach { ipv6 } => family(ipv6).len() as int,
            _ => 0,
        };
        assert forall|i: int| 0 <= i < r@.args.len() implies r@.args[i] == want->0.args[i] by {
            if i >= k {
                assert(r@.args[(i - k) + k] == r@.args[i]);
            }
        }
        assert(r@.args =~= want->0.args);
    }
    Some(r)
}

/// The firewall of selective TUN routing.
#[derive(Debug, Clone, Copy)]
pub struct NftablesFirewallManager;

impl NftablesFirewallManager {
    /// The program that loads the firewall table.
    pub fn enable(&self, config: &ManagerConfig) -> (r: Program<PolicyEffect>)
        ensures
            r@ == policy_steps(TunInternalAction::FirewallUp, config@.tun),
            r.wf(),
    {
        run_tun_internal(TunInternalAction::FirewallUp, config)
    }

    /// The program that deletes the firewall table, whatever is configured.
    pub fn disable(&self) -> (r: Program<PolicyEffect>)
        ensures
            forall|t: TunConfigView| r@ == #[trigger] policy_steps(TunInternalAction::FirewallDown, t),
            r.wf(),
    {
        run_tun_internal(TunInternalAction::FirewallDown, &ManagerConfig::default())
    }

    /// The command that shows the firewall table.
    pub fn show(&self) -> (r: CommandLine)
        ensures
            r@ == commands::line("nft"@, seq!["list"@, "table"@, "inet"@, "xray_manager"@]),
    {
        let args = text::own_all(vec!["list", "table", "inet", "xray_manager"]);
        assert(text::texts(args@) =~= seq!["list"@, "table"@, "inet"@, "xray_manager"@]);
        commands::command("nft", args)
    }
}

/// How many rules for marked packets `Unmark` deletes at most.
pub fn unmark_limit() -> (r: usize)
    ensures
        r == 32,
{
    32
}

/// How many rules for marked packets are left after `Unmark`.
pub open spec fn unmarked(rules: nat) -> nat {
    if rules > 32 {
        (rules - 32) as nat
    } else {
        0
    }
}

/// There are no more rules for marked packets than `Unmark` can delete.
pub open spec fn few_marks(w: Rules) -> bool {
    w.mark4 <= 32 && w.mark6 <= 32
}

/// Whether the interface is there; an error when it is waited for in vain.
pub fn interface_appeared(status: i32, late: bool, interface: &str) -> (r: Result<
    bool,
    ManagerError,
>)
    ensures
        match r {
            Ok(there) => there == (status == 0) && (there || !late),
            Err(e) => status != 0 && late && e@ == ManagerErrorView::Other(
                "TUN interface "@ + interface@ + " did not appear"@,
            ),
        },
{
    if status == 0 {
        Ok(true)
    } else if late {
        Err(ManagerError::Other(text::concat3("TUN interface ", interface, " did not appear")))
    } else {
        Ok(false)
    }
}

/// The arguments that show the routing rules.
pub open spec fn shown_routes(t: TunConfigView) -> Seq<Seq<Seq<char>>> {
    let table = text::decimal(t.routing_table as nat);
    seq![
        seq!["rule"@, "show"@],
        seq!["route"@, "show"@, "table"@, table],
        seq!["-6"@, "rule"@, "show"@],
        seq!["-6"@, "route"@, "show"@, "table"@, table],
    ]
}

/// The routes of selective TUN routing.
#[derive(Debug, Clone, Copy)]
pub struct IpRoutePolicyManager;

impl IpRoutePolicyManager {
    /// The program that leads marked packets to a table that drops them.
    pub fn enable(&self, config: &ManagerConfig) -> (r: Program<PolicyEffect>)
        ensures
            r@ == policy_steps(TunInternalAction::RoutesUp, config@.tun),
            r.wf(),
    {
        run_tun_internal(TunInternalAction::RoutesUp, config)
    }

    /// The program that leads marked packets through the interface.
    pub fn attach_tun(&self, config: &ManagerConfig) -> (r: Program<PolicyEffect>)
        ensures
            r@ == policy_steps(TunInternalAction::Attach, config@.tun),
            r.wf(),
    {
        run_tun_internal(TunInternalAction::Attach, config)
    }

    /// The program that leads marked packets away from the interface.
    pub fn detach_tun(&self, config: &ManagerConfig) -> (r: Program<PolicyEffect>)
        ensures
            r@ == policy_steps(TunInternalAction::Detach, config@.tun),
            r.wf(),
    {
        run_tun_internal(TunInternalAction::Detach, config)
    }

    /// The program that takes the rules and the table away.
    pub fn disable(&self, config: &ManagerConfig) -> (r: Program<PolicyEffect>)
        ensures
            r@ == policy_steps(TunInternalAction::RoutesDown, config@.tun),
            r.wf(),
    {
        run_tun_internal(TunInternalAction::RoutesDown, config)
    }

    /// The arguments of the calls that show the routing rules.
    pub fn show(&self, config: &ManagerConfig) -> (r: Vec<Vec<String>>)
        ensures
            templates::commands_of(r@) == shown_routes(config@.tun),
    {
        let table = text::decimal_of(config.tun.routing_table as u64);
        let a = text::own_all(vec!["rule", "show"]);
        let b = text::own_all(vec!["route", "show", "table", table.as_str()]);
        let c = text::own_all(vec!["-6", "rule", "show"]);
        let d = text::own_all(vec!["-6", "route", "show", "table", table.as_str()]);
        let ghost want = shown_routes(config@.tun);
        assert(text::texts(a@) =~= want[0]);
        assert(text::texts(b@) =~= want[1]);
        assert(text::texts(c@) =~= want[2]);
        assert(text::texts(d@) =~= want[3]);
        let r: Vec<Vec<String>> = vec![a, b, c, d];
        assert(templates::commands_of(r@) =~= want);
        r
    }
}

/// Tells whether the TUN interface is there.
#[derive(Debug, Clone, Copy)]
pub struct LinuxTunManager;

impl LinuxTunManager {
    /// The command that succeeds if the interface is there.
    pub fn status(&self, interface: &str) -> (r: CommandLine)
        ensures
            r@ == commands::line("ip"@, seq!["link"@, "show"@, "dev"@, interface@]),
    {
        let args = text::own_all(vec!["link", "show", "dev", interface]);
        assert(text::texts(args@) =~= seq!["link"@, "show"@, "dev"@, interface@]);
        commands::command("ip", args)
    }
}

/// What is shown of one call: the call and what it printed.
pub fn shown_call(args: &Vec<String>, stdout: &str) -> (r: String)
    ensures
        r@ == "$ ip "@ + text::joined(text::texts(args@), " "@) + "\n"@ + stdout@,
{
    let mut r = text::concat("$ ip ", text::join(args, " ").as_str());
    r.append("\n");
    r.append(stdout);
    r
}

/// The rules of the host that the effects change: the firewall table, how many
/// rules for marked packets there are, the default routes of the dedicated table that drop, and
/// those through the interface, for both families.
#[verifier::ext_equal]
pub struct Rules {
    pub table: bool,
    pub mark4: nat,
    pub mark6: nat,
    pub block4: bool,
    pub block6: bool,
    pub tun4: bool,
    pub tun6: bool,
}

/// What a successful effect makes of the rules.
pub open spec fn changed(w: Rules, e: PolicyEffect) -> Rules {
    match e {
        PolicyEffect::Drop => Rules { table: false, ..w },
        PolicyEffect::Load => Rules { table: true, ..w },
        PolicyEffect::Unmark { ipv6 } => if ipv6 {
            Rules { mark6: unmarked(w.mark6), ..w }
        } else {
            Rules { mark4: unmarked(w.mark4), ..w }
        },
        PolicyEffect::Mark { ipv6 } => if ipv6 {
            Rules { mark6: w.mark6 + 1, ..w }
        } else {
            Rules { mark4: w.mark4 + 1, ..w }
        },
        PolicyEffect::Block { ipv6 } => if ipv6 {
            Rules { block6: true, ..w }
        } else {
            Rules { block4: true, ..w }
        },
        PolicyEffect::Flush { ipv6 } => if ipv6 {
            Rules { block6: false, tun6: false, ..w }
        } else {
            Rules { block4: false, tun4: false, ..w }
        },
        PolicyEffect::Attach { ipv6 } => if ipv6 {
            Rules { tun6: true, ..w }
        } else {
            Rules { tun4: true, ..w }
        },
        PolicyEffect::Detach { ipv6 } => if ipv6 {
            Rules { tun6: false, ..w }
        } else {
            Rules { tun4: false, ..w }
        },
        _ => w,
    }
}

pub open spec fn changing() -> spec_fn(Rules, PolicyEffect) -> Rules {
    |w: Rules, e: PolicyEffect| changed(w, e)
}

/// No rule of selective routing is there.
pub open spec fn no_rules(w: Rules) -> bool {
    !w.table && w.mark4 == 0 && w.mark6 == 0 && !w.block4 && !w.block6 && !w.tun4 && !w.tun6
}

/// Marked packets are dropped by default, for both families.
pub open spec fn rules_up(w: Rules) -> bool {
    w.table && w.mark4 > 0 && w.mark6 > 0 && w.block4 && w.block6
}

proof fn lemma_routes_down(w: Rules)
    ensures
        program::world_after(routes_down(), changing(), w) == (Rules {
            mark4: unmarked(w.mark4),
            mark6: unmarked(w.mark6),
            block4: false,
            block6: false,
            tun4: false,
            tun6: false,
            ..w
        }),
{
    let s = routes_down();
    reveal_with_fuel(program::world_after, 5);
    assert(s.drop_last().drop_last().drop_last().drop_last().len() == 0);
}

/// Putting the policy up ends with every rule there.
pub proof fn law_policy_up_is_complete(t: TunConfigView, w: Rules)
    ensures
        rules_up(
            program::world_after(policy_steps(TunInternalAction::PolicyUp, t).main, changing(), w),
        ),
{
    let f = firewall_up(0);
    let r = routes_up(1);
    program::lemma_world_concat(f, r, changing(), w);
    reveal_with_fuel(program::world_after, 7);
    let mid = program::world_after(f, changing(), w);
    assert(mid.table) by {
        assert(f.last().effect == PolicyEffect::Load);
    }
    assert(program::world_after(r, changing(), mid) == (Rules {
        mark4: unmarked(mid.mark4) + 1,
        mark6: unmarked(mid.mark6) + 1,
        block4: true,
        block6: true,
        ..mid
    }));
}

/// Putting the policy up leaves nothing behind when a step fails that has
/// something to undo. A table that cannot be loaded is taken away, and the
/// rules and routes, which were not touched yet, are as they were; later on no
/// table, rule or route is left, whatever was there before, unless there were
/// more rules for marked packets than are deleted.
pub proof fn law_failed_policy_up_leaves_nothing(t: TunConfigView, w: Rules, i: int)
    requires
        0 <= i < policy_steps(TunInternalAction::PolicyUp, t).main.len(),
        policy_steps(TunInternalAction::PolicyUp, t).main[i].policy is Undo,
    ensures
        ({
            let end = program::world_of_failure(
                policy_steps(TunInternalAction::PolicyUp, t),
                changing(),
                i,
                w,
            );
            &&& i <= 2 ==> end == (Rules { table: false, ..w })
            &&& i > 2 && few_marks(w) ==> no_rules(end)
            &&& no_rules(w) ==> no_rules(end)
        }),
{
    let p = policy_steps(TunInternalAction::PolicyUp, t);
    let reached = program::world_after(p.main.take(i), changing(), w);
    if i <= 2 {
        assert(p.main[i] == firewall_up(0)[i]);
        assert(i == 2);
        let early = p.main.take(2);
        assert(early =~= firewall_up(0).take(2));
        reveal_with_fuel(program::world_after, 3);
        assert(early.drop_last().drop_last().len() == 0);
        assert(early.last().effect == PolicyEffect::Drop);
        assert(early.drop_last().last().effect == PolicyEffect::Prepare);
    } else {
        assert(p.main[i] == routes_up(1)[i - 3]);
        program::lemma_world_concat(routes_down(), firewall_undo(), changing(), reached);
        lemma_routes_down(reached);
        assert(few_marks(w) ==> few_marks(reached)) by {
            let f = firewall_up(0);
            assert(p.main.take(i) =~= f + routes_up(1).take(i - 3));
            program::lemma_world_concat(f, routes_up(1).take(i - 3), changing(), w);
            let mid = program::world_after(f, changing(), w);
            lemma_firewall_keeps_marks(w);
            if few_marks(w) {
                lemma_routes_prefix(mid, i - 3);
            }
        }
        reveal_with_fuel(program::world_after, 2);
    }
}

proof fn lemma_firewall_keeps_marks(w: Rules)
    ensures
        program::world_after(firewall_up(0), changing(), w) == (Rules { table: true, ..w }),
{
    let f = firewall_up(0);
    reveal_with_fuel(program::world_after, 4);
    assert(f.drop_last().drop_last().drop_last().len() == 0);
    assert(f.drop_last().last() == f[1]);
    assert(f.drop_last().drop_last().last() == f[0]);
}

proof fn lemma_routes_prefix(w: Rules, k: int)
    requires
        0 <= k <= routes_up(1).len(),
        few_marks(w),
    ensures
        ({
            let reached = program::world_after(routes_up(1).take(k), changing(), w);
            &&& few_marks(reached)
            &&& k == 1 ==> reached.mark4 == 0
            &&& k == 4 ==> reached.mark6 == 0
        }),
    decreases k,
{
    let s = routes_up(1);
    if k > 0 {
        lemma_routes_prefix(w, k - 1);
        assert(s.take(k).drop_last() =~= s.take(k - 1));
        assert(s.take(k).last() == s[k - 1]);
    } else {
        assert(s.take(0).len() == 0);
    }
}

/// A firewall table that cannot be loaded is not left behind in part, and
/// nothing else is touched.
pub proof fn law_failed_firewall_leaves_no_table(t: TunConfigView, w: Rules)
    ensures
        program::world_of_failure(
            policy_steps(TunInternalAction::FirewallUp, t),
            changing(),
            2,
            w,
        ) == (Rules { table: false, ..w }),
{
    let p = policy_steps(TunInternalAction::FirewallUp, t);
    assert(p.main[2].policy == Policy::Undo(0));
    let early = p.main.take(2);
    reveal_with_fuel(program::world_after, 3);
    assert(early.drop_last().drop_last().len() == 0);
    assert(early.last().effect == PolicyEffect::Drop);
    assert(early.drop_last().last().effect == PolicyEffect::Prepare);
}

/// Taking the policy down leaves no rule, where there were no more rules for
/// marked packets than are deleted.
pub proof fn law_policy_down_leaves_nothing(t: TunConfigView, w: Rules)
    requires
        few_marks(w),
    ensures
        no_rules(
            program::world_after(policy_steps(TunInternalAction::PolicyDown, t).main, changing(), w),
        ),
{
    let last = seq![program::step(PolicyEffect::Drop, Policy::Fail)];
    program::lemma_world_concat(routes_down(), last, changing(), w);
    lemma_routes_down(w);
    reveal_with_fuel(program::world_after, 2);
}

/// Detaching undoes attaching, and leaves the routes that drop in place.
pub proof fn law_detach_undoes_attach(t: TunConfigView, w: Rules)
    requires
        t.enabled,
        !w.tun4,
        !w.tun6,
    ensures
        ({
            let attached = program::world_after(
                policy_steps(TunInternalAction::Attach, t).main,
                changing(),
                w,
            );
            &&& attached.tun4
            &&& attached.tun6 == t.ipv6_enabled
            &&& attached.block4 == w.block4 && attached.block6 == w.block6
            &&& program::world_after(policy_steps(TunInternalAction::Detach, t).main, changing(), attached)
                =~= w
        }),
{
    reveal_with_fuel(program::world_after, 4);
    let a = attach_steps(t.ipv6_enabled);
    let d = detach_steps(t.ipv6_enabled);
    if t.ipv6_enabled {
        assert(a.drop_last().drop_last().drop_last().len() == 0);
        assert(d.drop_last().drop_last().len() == 0);
    } else {
        assert(a.drop_last().drop_last().len() == 0);
        assert(d.drop_last().len() == 0);
    }
}

/// Every command on routes and rules keeps to the dedicated table and mark.
pub proof fn law_effects_keep_to_their_table(e: PolicyEffect, t: TunConfigView, file: Seq<char>)
    requires
        effect_words(e, t, file) matches Some(c) && c.program == "ip"@,
        t.interface_name != "table"@,
        t.interface_name != "fwmark"@,
        t.interface_name != "lookup"@,
    ensures
        templates::keeps_to(
            effect_words(e, t, file)->0.args,
            text::decimal(t.packet_mark as nat),
            text::decimal(t.routing_table as nat),
        ),
{
    text::law_decimal_reads_back(t.packet_mark as nat);
    text::law_decimal_reads_back(t.routing_table as nat);
    assert(text::is_digit(text::decimal(t.packet_mark as nat)[0]));
    assert(text::is_digit(text::decimal(t.routing_table as nat)[0]));
    templates::lemma_words();
    let c = effect_words(e, t, file)->0.args;
    match e {
        PolicyEffect::Unmark { ipv6 } => {
            if ipv6 {
                assert(c =~= seq!["-6"@, "rule"@, "del"@, "fwmark"@, text::decimal(t.packet_mark as nat), "lookup"@, text::decimal(t.routing_table as nat)]);
            } else {
                assert(c =~= seq!["rule"@, "del"@, "fwmark"@, text::decimal(t.packet_mark as nat), "lookup"@, text::decimal(t.routing_table as nat)]);
            }
        },
        PolicyEffect::Mark { ipv6 } => {
            if ipv6 {
                assert(c =~= seq!["-6"@, "rule"@, "add"@, "fwmark"@, text::decimal(t.packet_mark as nat), "lookup"@, text::decimal(t.routing_table as nat)]);
            } else {
                assert(c =~= seq!["rule"@, "add"@, "fwmark"@, text::decimal(t.packet_mark as nat), "lookup"@, text::decimal(t.routing_table as nat)]);
            }
        },
        PolicyEffect::Block { ipv6 } => {
            if ipv6 {
                assert(c =~= seq!["-6"@, "route"@, "replace"@, "unreachable"@, "default"@, "table"@, text::decimal(t.routing_table as nat), "metric"@, "32767"@]);
            } else {
                assert(c =~= seq!["route"@, "replace"@, "blackhole"@, "default"@, "table"@, text::decimal(t.routing_table as nat), "metric"@, "32767"@]);
            }
        },
        PolicyEffect::Flush { ipv6 } => {
            if ipv6 {
                assert(c =~= seq!["-6"@, "route"@, "flush"@, "table"@, text::decimal(t.routing_table as nat)]);
            } else {
                assert(c =~= seq!["route"@, "flush"@, "table"@, text::decimal(t.routing_table as nat)]);
            }
        },
        PolicyEffect::Attach { ipv6 } => {
            if ipv6 {
                assert(c =~= seq!["-6"@, "route"@, "replace"@, "default"@, "dev"@, t.interface_name, "table"@, text::decimal(t.routing_table as nat), "metric"@, "100"@]);
            } else {
                assert(c =~= seq!["route"@, "replace"@, "default"@, "dev"@, t.interface_name, "table"@, text::decimal(t.routing_table as nat), "metric"@, "100"@]);
            }
        },
        PolicyEffect::Detach { ipv6 } => {
            if ipv6 {
                assert(c =~= seq!["-6"@, "route"@, "del"@, "default"@, "dev"@, t.interface_name, "table"@, text::decimal(t.routing_table as nat)]);
            } else {
                assert(c =~= seq!["route"@, "del"@, "default"@, "dev"@, t.interface_name, "table"@, text::decimal(t.routing_table as nat)]);
            }
        },
        PolicyEffect::AwaitInterface => {
            assert(c =~= seq!["link"@, "show"@, "dev"@, t.interface_name]);
        },
        _ => {
            reveal_strlit("nft");
            reveal_strlit("ip");
            assert("nft"@.len() != "ip"@.len());
        },
    }
}

} // verus!
