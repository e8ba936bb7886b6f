//! What running the core comes to: tests, health checks and probes.

use crate::config::ManagerConfig;
use crate::error::{ManagerError, ManagerErrorView};
use crate::events::ManagerEventView;
use crate::json::JsonView;
use crate::laws::reading::{member, text};
use crate::outside::lossy_text;
use crate::ports::{ProbeResult, ProbeResultView};
use crate::probe::{after_end, after_step, next_step, ProbeBatchView, ProbeStep};
use crate::probe;
use crate::runner::{check_health, probe_verdict, startup, Startup};
use crate::runner;
use crate::text::{decimal, texts, trimmed};
use vstd::prelude::*;

verus! {

/// Only a success or a redirect is healthy.
pub proof fn law_healthy_codes(code: u16)
    ensures
        runner::healthy(code) <==> code / 100 == 2 || code / 100 == 3,
{
}

/// A probe gives a latency exactly where a success or a redirect came back, and
/// that is the time that it took. Whatever else came back is a failure that
/// names the status; where nothing came back it tells why.
pub proof fn law_probe_verdict(response: Result<(u16, String), String>, elapsed: u64, r: ProbeResult)
    requires
        call_ensures(probe_verdict, (response, elapsed), r),
    ensures
        r@.latency_ms is Some <==> (response matches Ok((code, _)) && (code / 100 == 2 || code / 100
            == 3)),
        r@.latency_ms matches Some(ms) ==> ms == elapsed && r@.error is None,
        r@.latency_ms is None ==> r@.error == Some(
            match response {
                Ok((_, shown)) => "healthcheck returned "@ + shown@,
                Err(e) => e@,
            },
        ),
{
}

/// A health check passes exactly where a success or a redirect came back, and
/// where it fails it names the status.
pub proof fn law_health_check(code: u16, shown: &str, r: Result<(), ManagerError>)
    requires
        call_ensures(check_health, (code, shown), r),
    ensures
        r is Ok <==> code / 100 == 2 || code / 100 == 3,
        r matches Err(e) ==> e@ == ManagerErrorView::Other("healthcheck returned "@ + shown@),
{
}

/// A probe goes on exactly where the temporary core answers. Where it has not
/// answered and has exited, or the time is over, the probe has failed, and a
/// core that still runs is stopped.
pub proof fn law_startup(connected: bool, exited: Option<String>, late: bool, r: Startup)
    requires
        call_ensures(startup, (connected, exited, late), r),
    ensures
        r is Ready <==> connected,
        r is Wait <==> !connected && exited is None && !late,
        r matches Startup::Over { result, running } ==> result@.latency_ms is None && result@.error
            is Some && running == (exited is None),
{
}

/// A configuration is tested, not run: the core is told to test, and both times
/// the directory comes behind the word for it.
pub proof fn law_core_arguments(directory: &str, test: Vec<String>, run: Vec<String>)
    requires
        call_ensures(runner::test_arguments, (directory,), test),
        call_ensures(runner::run_arguments, (directory,), run),
    ensures
        texts(test@).contains("-test"@),
        texts(test@)[0] == "run"@ && texts(run@)[0] == "run"@,
        texts(test@).len() == 4 && texts(test@)[2] == "-confdir"@ && texts(test@)[3] == directory@,
        texts(run@).len() == 3 && texts(run@)[1] == "-confdir"@ && texts(run@)[2] == directory@,
        texts(run@) == texts(test@).remove(1),
{
    assert(texts(test@)[1] == "-test"@);
}

/// A probe runs beside the service: it listens on ports of its own and makes no
/// TUN interface, and is otherwise configured as the service is.
pub proof fn law_probe_config(config: &ManagerConfig, socks: u16, http: u16, r: ManagerConfig)
    requires
        call_ensures(runner::probe_config, (config, socks, http), r),
    ensures
        r@.proxy.socks_port == socks,
        r@.proxy.http_port == http,
        !r@.tun.enabled,
        r@.proxy.listen == config@.proxy.listen && r@.proxy.udp == config@.proxy.udp
            && r@.proxy.sniffing == config@.proxy.sniffing,
        r@.dns == config@.dns && r@.general == config@.general && r@.core == config@.core
            && r@.menu == config@.menu && r@.assets == config@.assets,
        r@.tun.interface_name == config@.tun.interface_name && r@.tun.mtu == config@.tun.mtu,
{
}

/// A probe goes through the SOCKS port that it listens on, and has at least a second.
pub proof fn law_probe_request(
    socks: u16,
    proxy: String,
    config: &ManagerConfig,
    seconds: u64,
)
    requires
        call_ensures(runner::probe_proxy, (socks,), proxy),
        call_ensures(runner::probe_timeout, (config,), seconds),
    ensures
        proxy@ == "socks5h://127.0.0.1:"@ + decimal(socks as nat),
        seconds >= 1,
        config@.menu.probe_timeout_seconds >= 1 ==> seconds == config@.menu.probe_timeout_seconds,
{
}

/// A health check goes through the SOCKS port and then through the HTTP port,
/// on the address that the proxy listens on.
pub proof fn law_health_check_proxies(config: &ManagerConfig, r: Vec<String>)
    requires
        call_ensures(runner::healthcheck_proxies, (config,), r),
    ensures
        texts(r@).len() == 2,
        texts(r@)[0] == "socks5h://"@ + config@.proxy.listen.text() + ":"@ + decimal(
            config@.proxy.socks_port as nat,
        ),
        texts(r@)[1] == "http://"@ + config@.proxy.listen.text() + ":"@ + decimal(
            config@.proxy.http_port as nat,
        ),
{
}

/// What the core shows as its version counts only where it succeeded.
pub proof fn law_core_version(
    success: bool,
    stdout: &[u8],
    stderr: &[u8],
    r: Result<String, ManagerError>,
)
    requires
        call_ensures(runner::version_of, (success, stdout, stderr), r),
    ensures
        r is Ok <==> success,
        r matches Ok(v) ==> v@ == trimmed(lossy_text(stdout@)),
        r matches Err(e) ==> e@ == ManagerErrorView::Validation(lossy_text(stderr@)),
{
}

/// What is reported of a finished probe: a success exactly where there is a
/// latency, with that latency, and a failure otherwise, with its error.
pub proof fn law_finished_probe(
    id: &str,
    reply: Result<ProbeResult, ManagerError>,
    r: (probe::NodeProbeOutcome, crate::events::ManagerEvent),
)
    requires
        call_ensures(probe::finished_probe, (id, reply), r),
    ensures
        r.0@.node_id == id@,
        reply matches Ok(result) ==> r.0@.result == result@,
        reply matches Err(e) ==> r.0@.result.latency_ms is None && r.0@.result.error == Some(
            crate::error::error_message(e@),
        ),
        match r.1@ {
            ManagerEventView::NodeProbeSucceeded { node_id, latency_ms } => node_id == id@
                && r.0@.result.latency_ms == Some(latency_ms),
            ManagerEventView::NodeProbeFailed { node_id, error } => node_id == id@
                && r.0@.result.latency_ms is None && (r.0@.result.error matches Some(e) ==> error
                == e),
            _ => false,
        },
{
}

/// A batch of probes never runs more than it may at once, begins the nodes in
/// their order, and waits only while some run. It is done exactly when every
/// node was begun and none runs.
pub proof fn law_batch_keeps_its_bounds(b: ProbeBatchView, cancelled: bool)
    requires
        b.wf(),
    ensures
        after_step(b, cancelled).running.len() <= b.slots,
        match next_step(b, cancelled) {
            ProbeStep::Begin(i) => !cancelled && i == b.started && i < b.ids.len() && after_step(
                b,
                cancelled,
            ).running == b.running.push(i) && probe::step_event(b, next_step(b, cancelled)) == Some(
                ManagerEventView::NodeProbeStarted { node_id: b.ids[i as int] },
            ),
            ProbeStep::Skip(i) => cancelled && i == b.started && i < b.ids.len() && after_step(
                b,
                cancelled,
            ).outcomes.last() == (probe::NodeProbeOutcomeView {
                node_id: b.ids[i as int],
                result: ProbeResultView { latency_ms: None, error: Some("cancelled"@) },
            }) && probe::step_event(b, next_step(b, cancelled)) == Some(
                ManagerEventView::NodeProbeCancelled { node_id: b.ids[i as int] },
            ),
            ProbeStep::Wait => b.running.len() > 0 && (b.started == b.ids.len() || b.running.len()
                == b.slots),
            ProbeStep::Done => b.running.len() == 0 && b.started == b.ids.len(),
        },
{
}

/// A probe that ended leaves the list of those that run, and its outcome is that
/// of the node it probed.
pub proof fn law_ended_probe_is_recorded(
    b: ProbeBatchView,
    at: int,
    reply: Result<ProbeResultView, ManagerErrorView>,
)
    requires
        b.wf(),
        0 <= at < b.running.len(),
    ensures
        after_end(b, at, reply).running.len() == b.running.len() - 1,
        after_end(b, at, reply).outcomes.len() == b.outcomes.len() + 1,
        after_end(b, at, reply).outcomes.last().node_id == b.ids[b.running[at] as int],
        reply matches Ok(result) ==> after_end(b, at, reply).outcomes.last().result == result,
        reply is Err ==> after_end(b, at, reply).outcomes.last().result.latency_ms is None
            && after_end(b, at, reply).outcomes.last().result.error is Some,
{
}

/// A copy of a configuration file that is tested has no TUN inbound and every
/// other inbound and member.
pub proof fn law_tested_copy(value: JsonView, i: int)
    requires
        value is Object,
        value->Object_0.contains_key("inbounds"@),
        value->Object_0["inbounds"@] is Array,
        0 <= i < value->Object_0["inbounds"@]->Array_0.len(),
    ensures
        ({
            let inbound = value->Object_0["inbounds"@]->Array_0[i];
            let kept = member(Some(runner::without_tun(value)), "inbounds"@);
            &&& kept matches Some(JsonView::Array(v))
            &&& kept->0->Array_0.contains(inbound) <==> member(Some(inbound), "protocol"@) != text(
                "tun"@,
            )
            &&& forall|key: Seq<char>|
                key != "inbounds"@ ==> #[trigger] member(
                    Some(runner::without_tun(value)),
                    key,
                ) == member(Some(value), key)
        }),
{
    let items = value->Object_0["inbounds"@]->Array_0;
    let keep = |j: JsonView| !runner::is_tun(j);
    assert(items.contains(items[i]));
    crate::laws::routing::lemma_filtered(items, keep);
    assert(runner::other_inbounds(items) == items.filter(keep));
    if !runner::is_tun(items[i]) {
        assert(keep(items[i]));
    } else {
        if items.filter(keep).contains(items[i]) {
            assert(keep(items[i]));
        }
    }
}

} // verus!
