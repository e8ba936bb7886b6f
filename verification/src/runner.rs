//! Running the core: testing a configuration, checking the proxy and probing a node.

use crate::config::{ManagerConfig, ManagerConfigView, ProxyConfigView, TunConfigView};
use crate::domain::Node;
use crate::error::{ManagerError, ManagerErrorView};
use crate::json::{Json, JsonObject, JsonView};
use crate::ports::{ProbeResult, ProbeResultView};
use crate::render::Members;
use crate::routing::RoutingConfig;
use crate::json;
use crate::outside;
use crate::queries;
use crate::render;
use crate::routing;
use crate::text;
use vstd::prelude::*;

verus! {

/// The version that the core reports, or the error that it shows.
pub fn version_of(success: bool, stdout: &[u8], stderr: &[u8]) -> (r: Result<String, ManagerError>)
    ensures
        match r {
            Ok(v) => success && v@ == text::trimmed(outside::lossy_text(stdout@)),
            Err(e) => !success && e@ == ManagerErrorView::Validation(outside::lossy_text(stderr@)),
        },
{
    if success {
        Ok(text::trim(outside::utf8_lossy(stdout).as_str()))
    } else {
        Err(ManagerError::Validation(outside::utf8_lossy(stderr)))
    }
}

/// The arguments that test the configuration in a directory.
pub fn test_arguments(directory: &str) -> (r: Vec<String>)
    ensures
        text::texts(r@) == seq!["run"@, "-test"@, "-confdir"@, directory@],
{
    let r: Vec<String> = vec![text::owned("run"), text::owned("-test"), text::owned("-confdir"), text::owned(directory)];
    assert(text::texts(r@) =~= seq!["run"@, "-test"@, "-confdir"@, directory@]);
    r
}

/// The arguments that run the configuration in a directory.
pub fn run_arguments(directory: &str) -> (r: Vec<String>)
    ensures
        text::texts(r@) == seq!["run"@, "-confdir"@, directory@],
{
    let r: Vec<String> = vec![text::owned("run"), text::owned("-confdir"), text::owned(directory)];
    assert(text::texts(r@) =~= seq!["run"@, "-confdir"@, directory@]);
    r
}

/// Whether an inbound is a TUN inbound.
pub open spec fn is_tun(inbound: JsonView) -> bool {
    json::member_view(inbound, "protocol"@) == Some(JsonView::Text("tun"@))
}

/// The inbounds but for the TUN inbounds.
pub open spec fn other_inbounds(items: Seq<JsonView>) -> Seq<JsonView> {
    items.filter(|j: JsonView| !is_tun(j))
}

/// A configuration file without TUN inbounds.
pub open spec fn without_tun(value: JsonView) -> JsonView {
    match value {
        JsonView::Object(m) => if m.contains_key("inbounds"@) {
            match m["inbounds"@] {
                JsonView::Array(items) => JsonView::Object(
                    m.insert("inbounds"@, JsonView::Array(other_inbounds(items))),
                ),
                _ => value,
            }
        } else {
            value
        },
        _ => value,
    }
}

fn is_tun_inbound(inbound: &Json) -> (r: bool)
    ensures
        r == is_tun(inbound@),
{
    match inbound.member("protocol") {
        Some(p) => match p.as_text() {
            Some(name) => text::same(name.as_str(), "tun"),
            None => false,
        },
        None => false,
    }
}

fn keep_others(items: &Vec<Json>) -> (r: Vec<Json>)
    ensures
        json::array_view(r@) == other_inbounds(json::array_view(items@)),
{
    let ghost all = json::array_view(items@);
    let ghost kept = |j: JsonView| !is_tun(j);
    let mut r: Vec<Json> = Vec::new();
    let mut i: usize = 0;
    proof {
        reveal(Seq::filter);
        json::lemma_array_view(items@);
        assert(all.take(0) =~= Seq::<JsonView>::empty());
        assert(json::array_view(r@) =~= Seq::<JsonView>::empty());
    }
    while i < items.len()
        invariant
            i <= items@.len(),
            all == json::array_view(items@),
            all.len() == items@.len(),
            forall|k: int| 0 <= k < items@.len() ==> #[trigger] all[k] == json::json_view(items@[k]),
            kept == (|j: JsonView| !is_tun(j)),
            json::array_view(r@) == all.take(i as int).filter(kept),
        decreases items@.len() - i,
    {
        proof {
            reveal(Seq::filter);
            assert(all.take(i + 1).drop_last() =~= all.take(i as int));
            assert(all.take(i + 1).last() == all[i as int]);
        }
        if !is_tun_inbound(&items[i]) {
            json::push_item(&mut r, items[i].copy());
        }
        i += 1;
    }
    assert(all.take(all.len() as int) =~= all);
    r
}

/// Takes the TUN inbounds out of a configuration file. Testing must not touch
/// the interface that the running service owns.
pub fn strip_tun(value: Json) -> (r: Json)
    ensures
        r@ == without_tun(value@),
{
    match value {
        Json::Object(members) => {
            let mut members = members;
            let kept = match members.get("inbounds") {
                Some(Json::Array(items)) => keep_others(items),
                _ => {
                    return Json::Object(members);
                },
            };
            members.insert("inbounds", Json::Array(kept));
            Json::Object(members)
        },
        other => other,
    }
}

/// Taking out the TUN inbounds keeps every other inbound in order and every
/// other member as it is, and doing it twice changes nothing.
pub proof fn law_only_tun_inbounds_are_removed(value: JsonView)
    ensures
        without_tun(without_tun(value)) == without_tun(value),
        forall|key: Seq<char>|
            key != "inbounds"@ ==> #[trigger] json::member_view(without_tun(value), key)
                == json::member_view(value, key),
        json::member_view(value, "inbounds"@) matches Some(JsonView::Array(items)) ==> {
            &&& json::member_view(without_tun(value), "inbounds"@) == Some(
                JsonView::Array(other_inbounds(items)),
            )
            &&& forall|j: JsonView|
                #[trigger] other_inbounds(items).contains(j) <==> items.contains(j) && !is_tun(j)
        },
{
    match json::member_view(value, "inbounds"@) {
        Some(JsonView::Array(items)) => {
            let kept = |j: JsonView| !is_tun(j);
            assert(without_tun(value)->Object_0["inbounds"@] == JsonView::Array(
                other_inbounds(items),
            ));
            lemma_filter_twice(items, kept);
            assert(without_tun(without_tun(value))->Object_0 =~= without_tun(value)->Object_0);
            assert forall|j: JsonView|
                #[trigger] other_inbounds(items).contains(j) <==> items.contains(j) && !is_tun(
                    j,
                ) by {
                lemma_filter_contains(items, kept, j);
            }
        },
        _ => {},
    }
}

proof fn lemma_filter_contains(s: Seq<JsonView>, f: spec_fn(JsonView) -> bool, j: JsonView)
    ensures
        s.filter(f).contains(j) <==> s.contains(j) && f(j),
    decreases s.len(),
{
    reveal(Seq::filter);
    if s.len() > 0 {
        let rest = s.drop_last();
        lemma_filter_contains(rest, f, j);
        assert(s =~= rest.push(s.last()));
        assert(s.contains(j) <==> rest.contains(j) || j == s.last()) by {
            if s.contains(j) {
                let k = choose|k: int| 0 <= k < s.len() && s[k] == j;
                if k < rest.len() {
                    assert(rest[k] == j);
                }
            }
            if rest.contains(j) {
                let k = choose|k: int| 0 <= k < rest.len() && rest[k] == j;
                assert(s[k] == j);
            }
            assert(s[s.len() - 1] == s.last());
        }
        if f(s.last()) {
            let q = rest.filter(f);
            assert(s.filter(f) =~= q.push(s.last()));
            assert(q.push(s.last()).contains(j) <==> q.contains(j) || j == s.last()) by {
                if q.contains(j) {
                    let k = choose|k: int| 0 <= k < q.len() && q[k] == j;
                    assert(q.push(s.last())[k] == j);
                }
                assert(q.push(s.last())[q.len() as int] == s.last());
            }
        }
    }
}

proof fn lemma_filter_twice(s: Seq<JsonView>, f: spec_fn(JsonView) -> bool)
    ensures
        s.filter(f).filter(f) == s.filter(f),
    decreases s.len(),
{
    reveal(Seq::filter);
    if s.len() > 0 {
        let rest = s.drop_last();
        lemma_filter_twice(rest, f);
        if f(s.last()) {
            let q = rest.filter(f);
            assert(q.push(s.last()).drop_last() =~= q);
        }
    }
}

/// Whether a configuration file is read for testing; others are only copied.
pub open spec fn json_file(name: Seq<char>) -> bool {
    text::has_suffix(name, ".json"@) && name.len() > 5
}

/// Whether a configuration file is read for testing.
pub fn is_json_file(name: &str) -> (r: bool)
    ensures
        r == json_file(name@),
{
    text::ends_with(name, ".json") && name.unicode_len() > 5
}

/// The copy of a configuration file that is tested.
pub fn validation_copy(bytes: &[u8]) -> (r: Result<Json, ManagerError>)
    ensures
        match r {
            Ok(j) => json::read_json(bytes@) matches Ok(v) && j@ == without_tun(v),
            Err(e) => json::read_json(bytes@) matches Err(t) && e@ == ManagerErrorView::InvalidConfig(t),
        },
{
    match json::value_from_slice(bytes) {
        Ok(v) => Ok(strip_tun(json::json_of_value(v))),
        Err(e) => Err(ManagerError::InvalidConfig(e)),
    }
}

/// The last of the lines that is not blank, without the white space around it.
pub open spec fn last_line(lines: Seq<Seq<char>>) -> Option<Seq<char>>
    decreases lines.len(),
{
    if lines.len() == 0 {
        None
    } else if text::trimmed(lines.last()).len() > 0 {
        Some(text::trimmed(lines.last()))
    } else {
        last_line(lines.drop_last())
    }
}

/// A word as it is shown: a URI is not.
pub open spec fn redacted(word: Seq<char>) -> Seq<char> {
    if text::has_infix(word, "://"@) {
        "[redacted-uri]"@
    } else {
        word
    }
}

/// What is shown of a diagnostic: the words of its last line, without URIs.
pub open spec fn shown_line(text: Seq<char>) -> Seq<char> {
    text::joined(
        text::words(text::text_or(last_line(text::fields(text, '\n')), "no diagnostic was returned"@)).map_values(
            |w: Seq<char>| redacted(w),
        ),
        " "@,
    )
}

fn find_last_line(lines: &Vec<String>) -> (r: Option<String>)
    ensures
        text::opt_text(r) == last_line(text::texts(lines@)),
{
    let ghost all = text::texts(lines@);
    let mut i: usize = lines.len();
    assert(all.take(i as int) =~= all);
    while i > 0
        invariant
            i <= lines@.len(),
            all == text::texts(lines@),
            last_line(all) == last_line(all.take(i as int)),
        decreases i,
    {
        let line = text::trim(lines[i - 1].as_str());
        proof {
            assert(all.take(i as int).last() == lines@[i - 1]@);
            assert(all.take(i as int).drop_last() =~= all.take(i - 1));
        }
        if line.as_str().unicode_len() > 0 {
            return Some(line);
        }
        i -= 1;
    }
    None
}

/// What is shown of a diagnostic, before it is cut down.
pub fn show_line(text: &str) -> (r: String)
    ensures
        r@ == shown_line(text@),
{
    let lines = text::split_char(text, '\n');
    let line = text::unwrap_text(find_last_line(&lines), "no diagnostic was returned");
    let parts = text::split_whitespace(line.as_str());
    let ghost all = text::words(line@);
    let ghost want = all.map_values(|w: Seq<char>| redacted(w));
    let mut shown: Vec<String> = Vec::new();
    let mut i: usize = 0;
    assert(text::texts(shown@) =~= want.take(0));
    while i < parts.len()
        invariant
            i <= parts@.len(),
            text::texts(parts@) == all,
            want == all.map_values(|w: Seq<char>| redacted(w)),
            text::texts(shown@) == want.take(i as int),
        decreases parts@.len() - i,
    {
        assert(all[i as int] == parts@[i as int]@);
        let word = if text::contains(parts[i].as_str(), "://") {
            text::owned("[redacted-uri]")
        } else {
            parts[i].clone()
        };
        proof {
            text::lemma_texts_push(shown@, word);
            assert(want.take(i + 1) =~= want.take(i as int).push(word@));
        }
        shown.push(word);
        i += 1;
    }
    assert(want.take(want.len() as int) =~= want);
    text::join(&shown, " ")
}

/// What is shown of the diagnostics of the core: the last line without URIs,
/// cut down to 512 bytes.
pub fn sanitize_xray_diagnostic(stderr: &[u8]) -> (r: String)
    requires
        text::cut(shown_line(outside::lossy_text(stderr@)), 512) is Some,
    ensures
        Some(r@) == text::cut(shown_line(outside::lossy_text(stderr@)), 512),
{
    match text::cut_text(show_line(outside::utf8_lossy(stderr).as_str()).as_str(), 512) {
        Some(s) => s,
        None => String::new(),
    }
}

/// What is shown of the diagnostics of the core; nothing where cutting them
/// down would split a character.
pub fn checked_diagnostic(stderr: &[u8]) -> (r: Option<String>)
    ensures
        text::opt_text(r) == text::cut(shown_line(outside::lossy_text(stderr@)), 512),
{
    let shown = show_line(outside::utf8_lossy(stderr).as_str());
    match text::cut_text(shown.as_str(), 512) {
        Some(_) => Some(sanitize_xray_diagnostic(stderr)),
        None => None,
    }
}

/// The error of a configuration that the core rejects.
pub fn rejection(diagnostic: &str) -> (r: ManagerError)
    ensures
        r@ == ManagerErrorView::Validation(
            "Xray rejected the candidate configuration ("@ + diagnostic@
                + "); run xrayctl --verbose doctor for manager diagnostics"@,
        ),
{
    ManagerError::Validation(
        text::concat3(
            "Xray rejected the candidate configuration (",
            diagnostic,
            "); run xrayctl --verbose doctor for manager diagnostics",
        ),
    )
}

/// No word of a shown diagnostic is a URI.
pub proof fn law_diagnostic_shows_no_uri(word: Seq<char>)
    ensures
        !text::has_infix(redacted(word), "://"@),
{
    reveal_strlit("[redacted-uri]");
    reveal_strlit("://");
    let s = "[redacted-uri]"@;
    assert forall|i: int| !text::occurs_at(s, "://"@, i) by {
        if text::occurs_at(s, "://"@, i) {
            assert(s.subrange(i, i + 3)[0] == s[i]);
            assert(s[i] == ':');
        }
    }
}

/// What is shown of a diagnostic is bounded.
pub proof fn law_diagnostic_is_bounded(s: Seq<char>, bytes: nat)
    ensures
        match text::cut(s, bytes) {
            Some(r) => text::utf8_length(r) <= bytes,
            None => true,
        },
{
    if text::utf8_length(s) > bytes && exists|k: int| text::cuts_at(s, bytes, k) {
        let k = choose|k: int| text::cuts_at(s, bytes, k);
        assert(text::cuts_at(s, bytes, k));
    }
}

/// The proxies that a health check goes through.
pub fn healthcheck_proxies(config: &ManagerConfig) -> (r: Vec<String>)
    ensures
        text::texts(r@) == seq![
            queries::proxy_endpoint("socks5h://"@, config@, config@.proxy.socks_port),
            queries::proxy_endpoint("http://"@, config@, config@.proxy.http_port),
        ],
{
    let r: Vec<String> = vec![
        queries::endpoint_of("socks5h://", config, config.proxy.socks_port),
        queries::endpoint_of("http://", config, config.proxy.http_port),
    ];
    assert(text::texts(r@) =~= seq![
        queries::proxy_endpoint("socks5h://"@, config@, config@.proxy.socks_port),
        queries::proxy_endpoint("http://"@, config@, config@.proxy.http_port),
    ]);
    r
}

/// Whether a response counts as healthy: a success or a redirect.
pub open spec fn healthy(code: u16) -> bool {
    200 <= code < 400
}

/// Checks the status of a health check, shown as `shown`.
pub fn check_health(code: u16, shown: &str) -> (r: Result<(), ManagerError>)
    ensures
        match r {
            Ok(_) => healthy(code),
            Err(e) => !healthy(code) && e@ == ManagerErrorView::Other(
                "healthcheck returned "@ + shown@,
            ),
        },
{
    if 200 <= code && code < 400 {
        Ok(())
    } else {
        Err(ManagerError::Other(text::concat("healthcheck returned ", shown)))
    }
}

/// The configuration of a probe: other ports, and no TUN.
pub open spec fn probe_config_of(c: ManagerConfigView, socks: u16, http: u16) -> ManagerConfigView {
    ManagerConfigView {
        proxy: ProxyConfigView { socks_port: socks, http_port: http, ..c.proxy },
        tun: TunConfigView { enabled: false, ..c.tun },
        ..c
    }
}

/// The configuration of a probe on these ports.
pub fn probe_config(config: &ManagerConfig, socks: u16, http: u16) -> (r: ManagerConfig)
    ensures
        r@ == probe_config_of(config@, socks, http),
{
    let mut r = config.clone();
    r.proxy.socks_port = socks;
    r.proxy.http_port = http;
    r.tun.enabled = false;
    r
}

/// The configuration files that probe a node: everything goes through it.
pub fn probe_files(node: &Node, config: &ManagerConfig, socks: u16, http: u16) -> (r: Result<
    JsonObject,
    ManagerError,
>)
    ensures
        match r {
            Ok(files) => render::rendered_files(
                probe_config_of(config@, socks, http),
                Some(node@),
                routing::preset_config("global-proxy"@)->0,
                Seq::empty(),
            ) == Ok::<Members, ManagerErrorView>(files@),
            Err(e) => render::rendered_files(
                probe_config_of(config@, socks, http),
                Some(node@),
                routing::preset_config("global-proxy"@)->0,
                Seq::empty(),
            ) == Err::<Members, ManagerErrorView>(e@),
        },
{
    let candidate = probe_config(config, socks, http);
    let routing = match RoutingConfig::preset("global-proxy") {
        Ok(routing) => routing,
        Err(e) => {
            return Err(e);
        },
    };
    let custom: Vec<Json> = Vec::new();
    assert(json::array_view(custom@) =~= Seq::<JsonView>::empty());
    render::render_xray_config(&candidate, Some(node), &routing, custom)
}

/// How many seconds a probe may take: at least one.
pub fn probe_timeout(config: &ManagerConfig) -> (r: u64)
    ensures
        r == vstd::math::max(config@.menu.probe_timeout_seconds as int, 1),
{
    if config.menu.probe_timeout_seconds < 1 {
        1
    } else {
        config.menu.probe_timeout_seconds
    }
}

/// What to do while a temporary core starts.
#[derive(Debug)]
pub enum Startup {
    Ready,
    Wait,
    /// The probe ends with this; the core is stopped where it still runs.
    Over { result: ProbeResult, running: bool },
}

/// A failed probe.
pub open spec fn probe_failure(error: Seq<char>) -> ProbeResultView {
    ProbeResultView { latency_ms: None, error: Some(error) }
}

/// Decides on a starting core: whether its port answers, the status that it
/// exited with, where it did, and whether the time is over.
pub fn startup(connected: bool, exited: Option<String>, late: bool) -> (r: Startup)
    ensures
        match r {
            Startup::Ready => connected,
            Startup::Wait => !connected && exited is None && !late,
            Startup::Over { result, running } => !connected && (match exited {
                Some(status) => !running && result@ == probe_failure(
                    "temporary Xray exited with "@ + status@,
                ),
                None => late && running && result@ == probe_failure(
                    "temporary Xray did not become ready"@,
                ),
            }),
        },
{
    if connected {
        return Startup::Ready;
    }
    match exited {
        Some(status) => Startup::Over {
            result: ProbeResult {
                latency_ms: None,
                error: Some(text::concat("temporary Xray exited with ", status.as_str())),
            },
            running: false,
        },
        None => if late {
            Startup::Over {
                result: ProbeResult {
                    latency_ms: None,
                    error: Some(text::owned("temporary Xray did not become ready")),
                },
                running: true,
            }
        } else {
            Startup::Wait
        },
    }
}

/// What a probe comes to: the time that a healthy response took, or why there was none.
pub fn probe_verdict(response: Result<(u16, String), String>, elapsed_ms: u64) -> (r: ProbeResult)
    ensures
        r@ == (match response {
            Ok((code, shown)) => if healthy(code) {
                ProbeResultView { latency_ms: Some(elapsed_ms), error: None }
            } else {
                probe_failure("healthcheck returned "@ + shown@)
            },
            Err(e) => probe_failure(e@),
        }),
{
    match response {
        Ok((code, shown)) => if 200 <= code && code < 400 {
            ProbeResult { latency_ms: Some(elapsed_ms), error: None }
        } else {
            ProbeResult {
                latency_ms: None,
                error: Some(text::concat("healthcheck returned ", shown.as_str())),
            }
        },
        Err(e) => ProbeResult { latency_ms: None, error: Some(e) },
    }
}

/// The proxy of a probe.
pub fn probe_proxy(socks: u16) -> (r: String)
    ensures
        r@ == "socks5h://127.0.0.1:"@ + text::decimal(socks as nat),
{
    text::concat("socks5h://127.0.0.1:", text::decimal_of(socks as u64).as_str())
}

} // verus!
